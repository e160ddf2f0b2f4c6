//! A dynamic-DNS update endpoint library.
//!
//! The library holds the verified protocol pipeline: parsing an inbound
//! HTTP-shaped update request, authenticating it against a shared key and the
//! transport peer address, encoding the fixed-shape responses, and driving the
//! two-step exchange (clear, then add alias) with the upstream registrar.
//! All I/O stays outside the library; every function here is a pure
//! computation with a contract.

pub mod auth;
pub mod config;
pub mod handler;
pub mod laws;
pub mod registrar;
pub mod request;
pub mod response;
pub mod split;
