//! The per-connection decision.
//!
//! Given the raw bytes read from a connection, the transport peer address
//! and the configured shared key, the handler decides everything that does
//! not involve the registrar: whether to answer at all, which exact bytes to
//! write back, and whether an update should then be attempted.  Malformed
//! and spoofed requests are both answered with silence, so an
//! unauthenticated caller cannot probe the difference.

use vstd::prelude::*;

use crate::auth::{authorize, spec_authorize, AuthDecision};
use crate::request::{parse_update_request, spec_read_request};
use crate::response::{badauth_response, good_body, good_response, spec_response};

verus! {

/// What a connection handler must do for one request.
#[derive(Debug)]
pub enum HandlerVerdict {
    /// The request did not parse: close the connection, write nothing.
    Malformed,
    /// The claimed address is not the peer address: close, write nothing.
    Spoofed,
    /// The credential is wrong: write these bytes, then close.
    BadAuth(String),
    /// The request is genuine: write `response`, then run the registrar
    /// exchange for `domain` and `ip`.
    Accept { response: String, domain: String, ip: String },
}

/// The mathematical image of a `HandlerVerdict`.
pub enum VerdictView {
    Malformed,
    Spoofed,
    BadAuth(Seq<char>),
    Accept(Seq<char>, Seq<char>, Seq<char>),
}

impl View for HandlerVerdict {
    type V = VerdictView;

    open spec fn view(&self) -> VerdictView {
        match self {
            HandlerVerdict::Malformed => VerdictView::Malformed,
            HandlerVerdict::Spoofed => VerdictView::Spoofed,
            HandlerVerdict::BadAuth(b) => VerdictView::BadAuth(b@),
            HandlerVerdict::Accept { response, domain, ip } => VerdictView::Accept(
                response@,
                domain@,
                ip@,
            ),
        }
    }
}

/// The verdict for a raw request: parse, then authenticate, then pick the
/// response bytes.
pub open spec fn spec_handle(text: Seq<char>, peer: Seq<char>, key: Seq<char>) -> VerdictView {
    match spec_read_request(text) {
        None => VerdictView::Malformed,
        Some(itd) => match spec_authorize(itd.0, peer, itd.1, key) {
            AuthDecision::RejectSpoofed => VerdictView::Spoofed,
            AuthDecision::RejectBadAuth => VerdictView::BadAuth(spec_response("badauth"@)),
            AuthDecision::Accept => VerdictView::Accept(
                spec_response(good_body(itd.0)),
                itd.2,
                itd.0,
            ),
        },
    }
}

/// The bytes a verdict writes back to the caller; silence for a malformed
/// or spoofed request.
pub open spec fn spec_written(v: VerdictView) -> Seq<char> {
    match v {
        VerdictView::Malformed => Seq::empty(),
        VerdictView::Spoofed => Seq::empty(),
        VerdictView::BadAuth(b) => b,
        VerdictView::Accept(r, _d, _i) => r,
    }
}

/// Decides what to do with one inbound connection, exactly as `spec_handle`
/// describes.
pub fn handle_request(text: &str, peer_ip: &str, shared_key: &str) -> (v: HandlerVerdict)
    ensures
        v@ == spec_handle(text@, peer_ip@, shared_key@),
{
    let req = match parse_update_request(text, peer_ip) {
        None => {
            return HandlerVerdict::Malformed;
        },
        Some(r) => r,
    };
    match authorize(&req, shared_key) {
        AuthDecision::RejectSpoofed => HandlerVerdict::Spoofed,
        AuthDecision::RejectBadAuth => HandlerVerdict::BadAuth(badauth_response()),
        AuthDecision::Accept => {
            let response = good_response(req.claimed_ip.as_str());
            HandlerVerdict::Accept { response, domain: req.domain, ip: req.claimed_ip }
        },
    }
}

} // verus!
