//! Encoding the fixed-shape HTTP responses.
//!
//! Every response the endpoint writes is a `200 OK` with a `text/plain`
//! body and a `Content-Length` giving the body's byte length.  The bodies
//! are byte-exact by contract: DynDNS-style clients parse the literal
//! prefixes `good ` and `badauth` to decide success.

use vstd::prelude::*;
use vstd::string::*;
use vstd::utf8::encode_utf8;

verus! {

/// The decimal digit character for `d`.
pub open spec fn spec_digit(d: nat) -> char {
    if d == 0 {
        '0'
    } else if d == 1 {
        '1'
    } else if d == 2 {
        '2'
    } else if d == 3 {
        '3'
    } else if d == 4 {
        '4'
    } else if d == 5 {
        '5'
    } else if d == 6 {
        '6'
    } else if d == 7 {
        '7'
    } else if d == 8 {
        '8'
    } else {
        '9'
    }
}

/// The usual decimal rendering of `n`, without leading zeroes.
pub open spec fn spec_dec(n: nat) -> Seq<char>
    decreases n,
{
    if n < 10 {
        seq![spec_digit(n)]
    } else {
        spec_dec(n / 10) + seq![spec_digit(n % 10)]
    }
}

/// The full response bytes for a given body: status line, content type,
/// the body's byte length, a blank line, then the body.
pub open spec fn spec_response(body: Seq<char>) -> Seq<char> {
    "HTTP/1.1 200 OK\r\nContent-Type: text/plain\r\nContent-Length: "@
        + spec_dec(encode_utf8(body).len() as nat) + "\r\n\r\n"@ + body
}

/// The body acknowledging a successful update of `ip`.
pub open spec fn good_body(ip: Seq<char>) -> Seq<char> {
    "good "@ + ip
}

fn digit_str(d: usize) -> (r: &'static str)
    requires
        d < 10,
    ensures
        r@ == seq![spec_digit(d as nat)],
{
    if d == 0 {
        proof {
            reveal_strlit("0");
            assert("0"@ =~= seq!['0']);
        }
        "0"
    } else if d == 1 {
        proof {
            reveal_strlit("1");
            assert("1"@ =~= seq!['1']);
        }
        "1"
    } else if d == 2 {
        proof {
            reveal_strlit("2");
            assert("2"@ =~= seq!['2']);
        }
        "2"
    } else if d == 3 {
        proof {
            reveal_strlit("3");
            assert("3"@ =~= seq!['3']);
        }
        "3"
    } else if d == 4 {
        proof {
            reveal_strlit("4");
            assert("4"@ =~= seq!['4']);
        }
        "4"
    } else if d == 5 {
        proof {
            reveal_strlit("5");
            assert("5"@ =~= seq!['5']);
        }
        "5"
    } else if d == 6 {
        proof {
            reveal_strlit("6");
            assert("6"@ =~= seq!['6']);
        }
        "6"
    } else if d == 7 {
        proof {
            reveal_strlit("7");
            assert("7"@ =~= seq!['7']);
        }
        "7"
    } else if d == 8 {
        proof {
            reveal_strlit("8");
            assert("8"@ =~= seq!['8']);
        }
        "8"
    } else {
        proof {
            reveal_strlit("9");
            assert("9"@ =~= seq!['9']);
        }
        "9"
    }
}

/// Renders `n` in decimal.
pub fn usize_to_string(n: usize) -> (r: String)
    ensures
        r@ == spec_dec(n as nat),
    decreases n,
{
    if n < 10 {
        String::from_str(digit_str(n))
    } else {
        proof {
            assert(n / 10 < n) by (nonlinear_arith)
                requires
                    n >= 10,
            ;
        }
        let mut s = usize_to_string(n / 10);
        s.append(digit_str(n % 10));
        s
    }
}

/// Builds the response bytes for `body`, exactly as `spec_response`
/// describes them.
pub fn encode_response(body: &str) -> (r: String)
    ensures
        r@ == spec_response(body@),
{
    let mut r = String::from_str(
        "HTTP/1.1 200 OK\r\nContent-Type: text/plain\r\nContent-Length: ",
    );
    let body_bytes = body.as_bytes_vec();
    let num = usize_to_string(body_bytes.len());
    r.append(num.as_str());
    r.append("\r\n\r\n");
    r.append(body);
    r
}

/// The response acknowledging a successful update of `ip`: body
/// `good <ip>`.
pub fn good_response(ip: &str) -> (r: String)
    ensures
        r@ == spec_response(good_body(ip@)),
{
    let mut b = String::from_str("good ");
    b.append(ip);
    encode_response(b.as_str())
}

/// The response for a failed credential check: body `badauth`.
pub fn badauth_response() -> (r: String)
    ensures
        r@ == spec_response("badauth"@),
{
    encode_response("badauth")
}

} // verus!
