//! Authenticating a parsed update request.
//!
//! A caller may only update the record for the address it is actually
//! connecting from, and must present the configured shared key.  Spoofed
//! requests are rejected before bad credentials, so a spoofing caller never
//! learns whether its credential was right.

use vstd::prelude::*;

use crate::request::UpdateRequest;
use crate::split::str_eq;

verus! {

/// The decision of the authentication guard.
#[derive(Clone, Copy, PartialEq, Eq, Structural, Debug)]
pub enum AuthDecision {
    /// The request is genuine: claimed address and credential both match.
    Accept,
    /// The claimed address differs from the transport peer address; the
    /// connection is closed silently, no byte is written.
    RejectSpoofed,
    /// The credential differs from the shared key; the `badauth` body is
    /// written.
    RejectBadAuth,
}

/// The authentication rule: a spoofed address rejects first, then a wrong
/// credential, and only a request that passes both is accepted.
pub open spec fn spec_authorize(
    claimed_ip: Seq<char>,
    source_ip: Seq<char>,
    token: Seq<char>,
    shared_key: Seq<char>,
) -> AuthDecision {
    if claimed_ip != source_ip {
        AuthDecision::RejectSpoofed
    } else if token != shared_key {
        AuthDecision::RejectBadAuth
    } else {
        AuthDecision::Accept
    }
}

/// Decides whether `req` may update its record, by exact string comparison
/// of the claimed address against the transport peer address and of the
/// presented credential against the shared key.
pub fn authorize(req: &UpdateRequest, shared_key: &str) -> (d: AuthDecision)
    ensures
        d == spec_authorize(req.claimed_ip@, req.source_ip@, req.token@, shared_key@),
{
    if !str_eq(req.claimed_ip.as_str(), req.source_ip.as_str()) {
        AuthDecision::RejectSpoofed
    } else if !str_eq(req.token.as_str(), shared_key) {
        AuthDecision::RejectBadAuth
    } else {
        AuthDecision::Accept
    }
}

} // verus!
