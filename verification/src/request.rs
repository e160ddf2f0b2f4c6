//! Parsing an inbound update request.
//!
//! The inbound wire protocol is HTTP-shaped but deliberately narrow: the
//! request line carries a query string with `hostname` and `myip` keys, and
//! an `Authorization` header carries `<scheme> <credential>`.  Parsing either
//! yields all three values or fails as a whole; a caller never learns which
//! part was missing.

use vstd::prelude::*;
use vstd::string::*;

use crate::split::{
    spec_split, spec_split_once, split_once_str, split_str, str_eq,
};

verus! {

/// The line separator of the wire protocol.
pub open spec fn crlf() -> Seq<char> {
    seq!['\r', '\n']
}

/// The blank-line separator between the header block and the body.
pub open spec fn crlf2() -> Seq<char> {
    seq!['\r', '\n', '\r', '\n']
}

/// The separator between a header name and its value.
pub open spec fn colon_space() -> Seq<char> {
    seq![':', ' ']
}

/// The query key whose value is the subdomain label to update.
pub open spec fn key_hostname() -> Seq<char> {
    seq!['h', 'o', 's', 't', 'n', 'a', 'm', 'e']
}

/// The query key whose value is the address the caller claims.
pub open spec fn key_myip() -> Seq<char> {
    seq!['m', 'y', 'i', 'p']
}

/// The header that carries the bearer credential.
pub open spec fn header_authorization() -> Seq<char> {
    seq!['A', 'u', 't', 'h', 'o', 'r', 'i', 'z', 'a', 't', 'i', 'o', 'n']
}

/// The view of an optional string slice.
pub open spec fn view_opt(o: Option<&str>) -> Option<Seq<char>> {
    match o {
        None => None,
        Some(s) => Some(s@),
    }
}

/// Folds the query pairs left to right: each pair must split on its first
/// `=`; `hostname` and `myip` values are recorded (the last occurrence
/// wins), every other key is ignored.
pub open spec fn parse_query_acc(
    pairs: Seq<Seq<char>>,
    dom: Option<Seq<char>>,
    ip: Option<Seq<char>>,
) -> Option<(Option<Seq<char>>, Option<Seq<char>>)>
    decreases pairs.len(),
{
    if pairs.len() == 0 {
        Some((dom, ip))
    } else {
        match spec_split_once(pairs[0], seq!['=']) {
            None => None,
            Some(nv) => parse_query_acc(
                pairs.drop_first(),
                if nv.0 == key_hostname() {
                    Some(nv.1)
                } else {
                    dom
                },
                if nv.0 == key_myip() {
                    Some(nv.1)
                } else {
                    ip
                },
            ),
        }
    }
}

/// Folds the header lines left to right: each must split on its first
/// `": "`; the value of an `Authorization` header must in turn split on its
/// first space, discarding the scheme word and keeping the credential (the
/// last occurrence wins).
pub open spec fn parse_headers_acc(
    headers: Seq<Seq<char>>,
    token: Option<Seq<char>>,
) -> Option<Option<Seq<char>>>
    decreases headers.len(),
{
    if headers.len() == 0 {
        Some(token)
    } else {
        match spec_split_once(headers[0], colon_space()) {
            None => None,
            Some(nv) => {
                if nv.0 == header_authorization() {
                    match spec_split_once(nv.1, seq![' ']) {
                        None => None,
                        Some(st) => parse_headers_acc(headers.drop_first(), Some(st.1)),
                    }
                } else {
                    parse_headers_acc(headers.drop_first(), token)
                }
            },
        }
    }
}

/// What parsing a raw request yields: `Some((claimed ip, credential,
/// domain))` when the header block splits off on a blank line, the request
/// line has a query string, every query pair and header line is well formed,
/// and all three values were present; `None` otherwise.
pub open spec fn spec_read_request(text: Seq<char>) -> Option<(Seq<char>, Seq<char>, Seq<char>)> {
    match spec_split_once(text, crlf2()) {
        None => None,
        Some(hb) => {
            let lines = spec_split(hb.0, crlf());
            match spec_split_once(lines[0], seq!['?']) {
                None => None,
                Some(lq) => match parse_query_acc(spec_split(lq.1, seq!['&']), None, None) {
                    None => None,
                    Some(di) => match parse_headers_acc(lines.drop_first(), None) {
                        None => None,
                        Some(tok) => if di.1 is Some && tok is Some && di.0 is Some {
                            Some((di.1->Some_0, tok->Some_0, di.0->Some_0))
                        } else {
                            None
                        },
                    },
                },
            }
        },
    }
}

/// Extracts `(claimed ip, credential, domain)` from the raw text of an
/// inbound connection, exactly as `spec_read_request` describes.
#[verifier::loop_isolation(false)]
pub fn read_request(text: &str) -> (r: Option<(String, String, String)>)
    ensures
        match r {
            Some(t) => spec_read_request(text@) == Some((t.0@, t.1@, t.2@)),
            None => spec_read_request(text@) is None,
        },
{
    proof {
        reveal_strlit("\r\n\r\n");
        reveal_strlit("\r\n");
        reveal_strlit("?");
        reveal_strlit("&");
        reveal_strlit("=");
        reveal_strlit(": ");
        reveal_strlit(" ");
        reveal_strlit("hostname");
        reveal_strlit("myip");
        reveal_strlit("Authorization");
        assert("\r\n\r\n"@ =~= crlf2());
        assert("\r\n"@ =~= crlf());
        assert("?"@ =~= seq!['?']);
        assert("&"@ =~= seq!['&']);
        assert("="@ =~= seq!['=']);
        assert(": "@ =~= colon_space());
        assert(" "@ =~= seq![' ']);
        assert("hostname"@ =~= key_hostname());
        assert("myip"@ =~= key_myip());
        assert("Authorization"@ =~= header_authorization());
    }
    let http_parts: &str = match split_once_str(text, "\r\n\r\n") {
        Some(p) => p.0,
        None => {
            return None;
        },
    };
    let lines = split_str(http_parts, "\r\n");
    let ghost lines_v = spec_split(http_parts@, crlf());
    proof {
        assert(lines_v.len() >= 1);
        assert(lines.deep_view().len() == lines@.len());
        assert(lines@[0]@ == lines_v[0]);
    }
    let http_line: &str = lines[0];
    let query: &str = match split_once_str(http_line, "?") {
        Some(p) => p.1,
        None => {
            return None;
        },
    };

    let pairs = split_str(query, "&");
    let ghost pairs_v = spec_split(query@, seq!['&']);
    proof {
        assert(pairs_v.skip(0) =~= pairs_v);
    }
    let mut domain: Option<&str> = None;
    let mut ip: Option<&str> = None;
    let mut k: usize = 0;
    while k < pairs.len()
        invariant
            pairs.deep_view() == pairs_v,
            k <= pairs_v.len(),
            parse_query_acc(pairs_v, None, None)
                == parse_query_acc(pairs_v.skip(k as int), view_opt(domain), view_opt(ip)),
            "hostname"@ == key_hostname(),
            "myip"@ == key_myip(),
            "="@ == seq!['='],
        decreases pairs_v.len() - k,
    {
        proof {
            assert(pairs@[k as int]@ == pairs_v[k as int]);
            assert(pairs_v.skip(k as int)[0] == pairs_v[k as int]);
        }
        match split_once_str(pairs[k], "=") {
            None => {
                proof {
                    assert(parse_query_acc(pairs_v.skip(k as int), view_opt(domain), view_opt(ip))
                        is None);
                    assert(parse_query_acc(pairs_v, None, None) is None);
                    assert(spec_read_request(text@) is None);
                }
                return None;
            },
            Some((name, value)) => {
                let ghost old_dom = view_opt(domain);
                let ghost old_ip = view_opt(ip);
                if str_eq(name, "hostname") {
                    domain = Some(value);
                } else if str_eq(name, "myip") {
                    ip = Some(value);
                }
                proof {
                    assert(pairs_v.skip(k as int).drop_first() =~= pairs_v.skip(k + 1));
                    assert(parse_query_acc(pairs_v.skip(k as int), old_dom, old_ip)
                        == parse_query_acc(pairs_v.skip(k + 1), view_opt(domain), view_opt(ip)));
                }
                k += 1;
            },
        }
    }
    proof {
        assert(pairs_v.skip(pairs_v.len() as int) =~= Seq::<Seq<char>>::empty());
        assert(parse_query_acc(pairs_v, None, None)
            == Some((view_opt(domain), view_opt(ip))));
    }

    let mut auth: Option<&str> = None;
    let mut h: usize = 1;
    proof {
        assert(lines_v.skip(1) =~= lines_v.drop_first());
    }
    while h < lines.len()
        invariant
            lines.deep_view() == lines_v,
            lines_v.len() >= 1,
            1 <= h <= lines_v.len(),
            parse_headers_acc(lines_v.drop_first(), None)
                == parse_headers_acc(lines_v.skip(h as int), view_opt(auth)),
            "Authorization"@ == header_authorization(),
            ": "@ == colon_space(),
            " "@ == seq![' '],
        decreases lines_v.len() - h,
    {
        proof {
            assert(lines@[h as int]@ == lines_v[h as int]);
            assert(lines_v.skip(h as int)[0] == lines_v[h as int]);
        }
        match split_once_str(lines[h], ": ") {
            None => {
                proof {
                    assert(parse_headers_acc(lines_v.skip(h as int), view_opt(auth)) is None);
                    assert(parse_headers_acc(lines_v.drop_first(), None) is None);
                    assert(spec_read_request(text@) is None);
                }
                return None;
            },
            Some((name, value)) => {
                let ghost old_auth = view_opt(auth);
                if str_eq(name, "Authorization") {
                    match split_once_str(value, " ") {
                        None => {
                            proof {
                                assert(parse_headers_acc(lines_v.skip(h as int), view_opt(auth))
                                    is None);
                                assert(parse_headers_acc(lines_v.drop_first(), None) is None);
                                assert(spec_read_request(text@) is None);
                            }
                            return None;
                        },
                        Some((_scheme, cred)) => {
                            auth = Some(cred);
                        },
                    }
                }
                proof {
                    assert(lines_v.skip(h as int).drop_first() =~= lines_v.skip(h + 1));
                    assert(parse_headers_acc(lines_v.skip(h as int), old_auth)
                        == parse_headers_acc(lines_v.skip(h + 1), view_opt(auth)));
                }
                h += 1;
            },
        }
    }
    proof {
        assert(lines_v.skip(lines_v.len() as int) =~= Seq::<Seq<char>>::empty());
        assert(parse_headers_acc(lines_v.drop_first(), None) == Some(view_opt(auth)));
    }

    match (ip, auth, domain) {
        (Some(i), Some(a), Some(d)) => Some(
            (String::from_str(i), String::from_str(a), String::from_str(d)),
        ),
        _ => None,
    }
}

/// A structured, fully extracted update command.
pub struct UpdateRequest {
    /// The peer address the transport layer reports.
    pub source_ip: String,
    /// The address the caller asserts is its own (the `myip` query value).
    pub claimed_ip: String,
    /// The subdomain label to update (the `hostname` query value).
    pub domain: String,
    /// The credential from the `Authorization` header, scheme word dropped.
    pub token: String,
}

/// Builds an `UpdateRequest` from the raw inbound text and the
/// transport-reported peer address; fails exactly when parsing fails.
pub fn parse_update_request(text: &str, source_ip: &str) -> (r: Option<UpdateRequest>)
    ensures
        match r {
            Some(u) => spec_read_request(text@) == Some((u.claimed_ip@, u.token@, u.domain@))
                && u.source_ip@ == source_ip@,
            None => spec_read_request(text@) is None,
        },
{
    match read_request(text) {
        None => None,
        Some((claimed_ip, token, domain)) => Some(UpdateRequest {
            source_ip: String::from_str(source_ip),
            claimed_ip,
            domain,
            token,
        }),
    }
}

} // verus!
