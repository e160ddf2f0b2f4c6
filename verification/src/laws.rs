//! The library's laws: properties that relate several functions, stated
//! over the same spec functions the contracts use, and proved once and for
//! all inputs.

use vstd::prelude::*;
use vstd::utf8::{encode_utf8, is_ascii_chars, is_ascii_chars_encode_utf8};

use crate::handler::{spec_handle, spec_written, VerdictView};
use crate::request::{
    colon_space, crlf, crlf2, header_authorization, key_hostname, key_myip, parse_headers_acc,
    parse_query_acc, spec_read_request,
};
use crate::split::{
    lemma_find_none, lemma_first_occurrence, lemma_split_clean_none, lemma_split_clean_prefix,
    occurs_at, spec_split, spec_split_once,
};
use crate::registrar::{
    is_success_line, spec_outcome, spec_pending, spec_result_line, spec_step, OutcomeView,
    StateView,
};
use crate::response::{good_body, spec_response};

verus! {

/// No character of `s` is a character of `bad`.
pub open spec fn seq_avoids(s: Seq<char>, bad: Seq<char>) -> bool {
    forall|i: int| 0 <= i < s.len() ==> !bad.contains(#[trigger] s[i])
}

proof fn lemma_not_contains1(p: char, c: char)
    requires
        c != p,
    ensures
        !seq![p].contains(c),
{
    if seq![p].contains(c) {
        let j = choose|j: int| 0 <= j < seq![p].len() && seq![p][j] == c;
        assert(j == 0);
    }
}

proof fn lemma_not_contains2(a: char, b: char, c: char)
    requires
        c != a,
        c != b,
    ensures
        !seq![a, b].contains(c),
{
    if seq![a, b].contains(c) {
        let j = choose|j: int| 0 <= j < seq![a, b].len() && seq![a, b][j] == c;
        assert(j == 0 || j == 1);
    }
}

proof fn lemma_avoids_concat(a: Seq<char>, b: Seq<char>, bad: Seq<char>)
    requires
        seq_avoids(a, bad),
        seq_avoids(b, bad),
    ensures
        seq_avoids(a + b, bad),
{
    assert forall|i: int| 0 <= i < (a + b).len() implies !bad.contains(#[trigger] (a + b)[i]) by {
        if i < a.len() {
            assert((a + b)[i] == a[i]);
        } else {
            assert((a + b)[i] == b[i - a.len()]);
        }
    }
}

/// Law: a request whose claimed address differs from the transport peer
/// address is answered with silence: the verdict is `Spoofed` and not a
/// single byte is written back.
pub proof fn lemma_spoofed_is_silent(text: Seq<char>, peer: Seq<char>, key: Seq<char>)
    requires
        spec_read_request(text) is Some,
        spec_read_request(text)->Some_0.0 != peer,
    ensures
        spec_handle(text, peer, key) == VerdictView::Spoofed,
        spec_written(spec_handle(text, peer, key)) == Seq::<char>::empty(),
{
}

/// Law: a request with the right address but the wrong credential is
/// answered with exactly the `badauth` response bytes, whose
/// `Content-Length` is 7.
pub proof fn lemma_bad_auth_bytes(text: Seq<char>, peer: Seq<char>, key: Seq<char>)
    requires
        spec_read_request(text) is Some,
        spec_read_request(text)->Some_0.0 == peer,
        spec_read_request(text)->Some_0.1 != key,
    ensures
        spec_handle(text, peer, key) == VerdictView::BadAuth(spec_response("badauth"@)),
        spec_written(spec_handle(text, peer, key))
            == "HTTP/1.1 200 OK\r\nContent-Type: text/plain\r\nContent-Length: 7\r\n\r\nbadauth"@,
{
    reveal_strlit("badauth");
    reveal_strlit("HTTP/1.1 200 OK\r\nContent-Type: text/plain\r\nContent-Length: ");
    reveal_strlit("\r\n\r\n");
    reveal_strlit("HTTP/1.1 200 OK\r\nContent-Type: text/plain\r\nContent-Length: 7\r\n\r\nbadauth");
    assert(is_ascii_chars("badauth"@));
    is_ascii_chars_encode_utf8("badauth"@);
    assert(encode_utf8("badauth"@).len() == 7);
    assert(spec_response("badauth"@)
        =~= "HTTP/1.1 200 OK\r\nContent-Type: text/plain\r\nContent-Length: 7\r\n\r\nbadauth"@);
}

/// Law: a fully valid request is answered with exactly the `good <ip>`
/// response bytes, and the verdict carries the parsed domain and address
/// for the registrar exchange.
pub proof fn lemma_accept_good_bytes(text: Seq<char>, peer: Seq<char>, key: Seq<char>)
    requires
        spec_read_request(text) is Some,
        spec_read_request(text)->Some_0.0 == peer,
        spec_read_request(text)->Some_0.1 == key,
    ensures
        spec_handle(text, peer, key) == VerdictView::Accept(
            spec_response(good_body(peer)),
            spec_read_request(text)->Some_0.2,
            peer,
        ),
        spec_written(spec_handle(text, peer, key)) == spec_response(good_body(peer)),
{
}

/// Law: a request that does not parse reaches neither the authentication
/// guard nor the registrar: the verdict is `Malformed` and nothing is
/// written.
pub proof fn lemma_unparsed_is_dropped(text: Seq<char>, peer: Seq<char>, key: Seq<char>)
    requires
        spec_read_request(text) is None,
    ensures
        spec_handle(text, peer, key) == VerdictView::Malformed,
        spec_written(spec_handle(text, peer, key)) == Seq::<char>::empty(),
{
}

/// Law: a byte stream without the blank-line separator fails parsing.
pub proof fn lemma_no_separator_malformed(text: Seq<char>)
    requires
        forall|j: int| !occurs_at(text, crlf2(), j),
    ensures
        spec_read_request(text) is None,
{
    lemma_find_none(text, crlf2());
}

/// Law: a byte stream whose request line has no `?` fails parsing.
pub proof fn lemma_no_query_malformed(text: Seq<char>)
    requires
        spec_split_once(text, crlf2()) is Some,
        forall|j: int|
            !occurs_at(
                spec_split(spec_split_once(text, crlf2())->Some_0.0, crlf())[0],
                seq!['?'],
                j,
            ),
    ensures
        spec_read_request(text) is None,
{
    let head = spec_split_once(text, crlf2())->Some_0.0;
    let line0 = spec_split(head, crlf())[0];
    lemma_find_none(line0, seq!['?']);
}

/// Law: a byte stream whose header block yields no credential — no
/// `Authorization` header, or one whose value has no space, or any header
/// line without `": "` — fails parsing.
pub proof fn lemma_no_credential_malformed(text: Seq<char>)
    requires
        spec_split_once(text, crlf2()) is Some,
        ({
            let lines = spec_split(spec_split_once(text, crlf2())->Some_0.0, crlf());
            let folded = crate::request::parse_headers_acc(lines.drop_first(), None);
            folded is None || folded == Some(Option::<Seq<char>>::None)
        }),
    ensures
        spec_read_request(text) is None,
{
}

/// Law: if the clear step's result line is not a success, the exchange is
/// terminally rejected with that literal line, no further request is owed —
/// the add-alias step is never issued — and the reported outcome carries
/// the line.
pub proof fn lemma_rejected_clear_stops(body: Seq<char>)
    requires
        spec_result_line(body) is Some,
        !is_success_line(spec_result_line(body)->Some_0),
    ensures
        spec_step(StateView::Connected, body)
            == StateView::Rejected(spec_result_line(body)->Some_0),
        spec_pending(spec_step(StateView::Connected, body)) is None,
        spec_outcome(spec_step(StateView::Connected, body))
            == Some(OutcomeView::RegistrarRejected(spec_result_line(body)->Some_0)),
{
}

/// Law: a clear response and an add-alias response whose result lines both
/// start with `Success` drive the exchange to its terminal success, and the
/// outcome is `Updated`.
pub proof fn lemma_update_success(clear_body: Seq<char>, alias_body: Seq<char>)
    requires
        spec_result_line(clear_body) is Some,
        is_success_line(spec_result_line(clear_body)->Some_0),
        spec_result_line(alias_body) is Some,
        is_success_line(spec_result_line(alias_body)->Some_0),
    ensures
        spec_step(spec_step(StateView::Connected, clear_body), alias_body) == StateView::Aliased,
        spec_outcome(spec_step(spec_step(StateView::Connected, clear_body), alias_body))
            == Some(OutcomeView::Updated),
{
}

/// Law: updates are independent: every exchange starts from the fresh
/// `Connected` state and its end state is a function of its own response
/// bodies alone, so two runs fed the same bodies end in the same state —
/// repeating an identical valid update performs the full clear-then-add
/// exchange again and succeeds again; nothing is deduplicated.
pub proof fn lemma_repeat_update_independent(
    clear_a: Seq<char>,
    alias_a: Seq<char>,
    clear_b: Seq<char>,
    alias_b: Seq<char>,
)
    requires
        clear_a == clear_b,
        alias_a == alias_b,
    ensures
        spec_step(spec_step(StateView::Connected, clear_a), alias_a)
            == spec_step(spec_step(StateView::Connected, clear_b), alias_b),
        (spec_result_line(clear_a) is Some && is_success_line(spec_result_line(clear_a)->Some_0)
            && spec_result_line(alias_a) is Some
            && is_success_line(spec_result_line(alias_a)->Some_0)) ==> {
            &&& spec_outcome(spec_step(spec_step(StateView::Connected, clear_a), alias_a))
                == Some(OutcomeView::Updated)
            &&& spec_outcome(spec_step(spec_step(StateView::Connected, clear_b), alias_b))
                == Some(OutcomeView::Updated)
        },
{
}

/// A query value is well formed when it brings no pair separator and no
/// line break of its own.
pub open spec fn value_clean(s: Seq<char>) -> bool {
    forall|i: int| 0 <= i < s.len() ==> s[i] != '&' && s[i] != '\r' && s[i] != '\n'
}

/// A scheme word is well formed when it has no space and no line break.
pub open spec fn scheme_clean(s: Seq<char>) -> bool {
    forall|i: int| 0 <= i < s.len() ==> s[i] != ' ' && s[i] != '\r' && s[i] != '\n'
}

/// A credential is well formed when it has no line break.
pub open spec fn token_clean(s: Seq<char>) -> bool {
    forall|i: int| 0 <= i < s.len() ==> s[i] != '\r' && s[i] != '\n'
}

/// The query string of a well-formed update request, either key first.
pub open spec fn build_query(dom: Seq<char>, ip: Seq<char>, ip_first: bool) -> Seq<char> {
    if ip_first {
        "myip="@ + ip + seq!['&'] + "hostname="@ + dom
    } else {
        "hostname="@ + dom + seq!['&'] + "myip="@ + ip
    }
}

/// A well-formed update request: a query-bearing request line, an
/// `Authorization` header whose value is a scheme word and a credential,
/// and the blank-line terminator.
pub open spec fn build_request(
    dom: Seq<char>,
    ip: Seq<char>,
    scheme: Seq<char>,
    tok: Seq<char>,
    ip_first: bool,
) -> Seq<char> {
    "GET /?"@ + build_query(dom, ip, ip_first) + crlf() + "Authorization: "@ + scheme + seq![' ']
        + tok + crlf2()
}

/// In a two-line header block followed by the blank-line terminator, the
/// first occurrence of the terminator is exactly at the end of the block.
proof fn lemma_head_split(l0: Seq<char>, l1: Seq<char>)
    requires
        forall|i: int| 0 <= i < l0.len() ==> l0[i] != '\r' && l0[i] != '\n',
        forall|i: int| 0 <= i < l1.len() ==> l1[i] != '\r' && l1[i] != '\n',
        l1.len() > 0,
    ensures
        spec_split_once(l0 + crlf() + l1 + crlf2(), crlf2()) == Some(
            (l0 + crlf() + l1, Seq::<char>::empty()),
        ),
{
    let head = l0 + crlf() + l1;
    let s = head + crlf2();
    let k = head.len() as int;
    assert(s.subrange(k, k + 4) =~= crlf2());
    assert(occurs_at(s, crlf2(), k));
    assert forall|j: int| 0 <= j < k implies !occurs_at(s, crlf2(), j) by {
        if occurs_at(s, crlf2(), j) {
            assert(s.subrange(j, j + 4)[0] == crlf2()[0]);
            assert(s.subrange(j, j + 4)[2] == crlf2()[2]);
            assert(s[j] == '\r');
            assert(s[j + 2] == '\r');
            if j < l0.len() {
                assert(s[j] == l0[j]);
            } else if j == l0.len() {
                assert(s[j + 2] == l1[0]);
            } else if j == l0.len() + 1 {
                assert(s[j] == crlf()[1]);
            } else {
                assert(s[j] == l1[j - l0.len() - 2]);
            }
        }
    }
    lemma_first_occurrence(s, crlf2(), k);
    assert(s.subrange(0, k) =~= head);
    assert(s.subrange(k + 4, s.len() as int) =~= Seq::<char>::empty());
}

/// Law: parsing a well-formed update request yields exactly the submitted
/// address, credential and domain, whichever order the two query keys come
/// in.  (A request line that carries text after the query string — an HTTP
/// version, say — folds that text into the last query value, so such
/// requests are outside this law.)
pub proof fn lemma_parse_round_trip(
    dom: Seq<char>,
    ip: Seq<char>,
    scheme: Seq<char>,
    tok: Seq<char>,
    ip_first: bool,
)
    requires
        value_clean(dom),
        value_clean(ip),
        scheme_clean(scheme),
        token_clean(tok),
    ensures
        spec_read_request(build_request(dom, ip, scheme, tok, ip_first)) == Some((ip, tok, dom)),
{
    reveal_strlit("GET /");
    reveal_strlit("GET /?");
    reveal_strlit("myip=");
    reveal_strlit("hostname=");
    reveal_strlit("myip");
    reveal_strlit("hostname");
    reveal_strlit("Authorization");
    reveal_strlit("Authorization: ");

    let q = build_query(dom, ip, ip_first);
    let l0 = "GET /?"@ + q;
    let l1 = "Authorization: "@ + scheme + seq![' '] + tok;
    let text = build_request(dom, ip, scheme, tok, ip_first);
    let bad = seq!['\r', '\n'];

    // The pieces of the query, in the order they stand.
    let pair_ip = "myip="@ + ip;
    let pair_dom = "hostname="@ + dom;
    let pair_a = if ip_first { pair_ip } else { pair_dom };
    let pair_b = if ip_first { pair_dom } else { pair_ip };
    assert(q =~= pair_a + seq!['&'] + pair_b);
    assert(text =~= l0 + crlf() + l1 + crlf2());

    // No piece of either line carries a line break.
    assert(seq_avoids("GET /?"@, bad)) by {
        assert forall|i: int| 0 <= i < "GET /?"@.len() implies !bad.contains(
            #[trigger] "GET /?"@[i],
        ) by {
            lemma_not_contains2('\r', '\n', "GET /?"@[i]);
        }
    }
    assert(seq_avoids("myip="@, bad)) by {
        assert forall|i: int| 0 <= i < "myip="@.len() implies !bad.contains(
            #[trigger] "myip="@[i],
        ) by {
            lemma_not_contains2('\r', '\n', "myip="@[i]);
        }
    }
    assert(seq_avoids("hostname="@, bad)) by {
        assert forall|i: int| 0 <= i < "hostname="@.len() implies !bad.contains(
            #[trigger] "hostname="@[i],
        ) by {
            lemma_not_contains2('\r', '\n', "hostname="@[i]);
        }
    }
    assert(seq_avoids("Authorization: "@, bad)) by {
        assert forall|i: int| 0 <= i < "Authorization: "@.len() implies !bad.contains(
            #[trigger] "Authorization: "@[i],
        ) by {
            lemma_not_contains2('\r', '\n', "Authorization: "@[i]);
        }
    }
    assert(seq_avoids(dom, bad)) by {
        assert forall|i: int| 0 <= i < dom.len() implies !bad.contains(#[trigger] dom[i]) by {
            lemma_not_contains2('\r', '\n', dom[i]);
        }
    }
    assert(seq_avoids(ip, bad)) by {
        assert forall|i: int| 0 <= i < ip.len() implies !bad.contains(#[trigger] ip[i]) by {
            lemma_not_contains2('\r', '\n', ip[i]);
        }
    }
    assert(seq_avoids(scheme, bad)) by {
        assert forall|i: int| 0 <= i < scheme.len() implies !bad.contains(
            #[trigger] scheme[i],
        ) by {
            lemma_not_contains2('\r', '\n', scheme[i]);
        }
    }
    assert(seq_avoids(tok, bad)) by {
        assert forall|i: int| 0 <= i < tok.len() implies !bad.contains(#[trigger] tok[i]) by {
            lemma_not_contains2('\r', '\n', tok[i]);
        }
    }
    assert(seq_avoids(seq!['&'], bad)) by {
        lemma_not_contains2('\r', '\n', '&');
        assert(seq!['&'][0] == '&');
    }
    assert(seq_avoids(seq![' '], bad)) by {
        lemma_not_contains2('\r', '\n', ' ');
        assert(seq![' '][0] == ' ');
    }
    lemma_avoids_concat("myip="@, ip, bad);
    lemma_avoids_concat("hostname="@, dom, bad);
    lemma_avoids_concat(pair_a, seq!['&'], bad);
    lemma_avoids_concat(pair_a + seq!['&'], pair_b, bad);
    assert(seq_avoids(q, bad));
    lemma_avoids_concat("GET /?"@, q, bad);
    assert(seq_avoids(l0, bad));
    lemma_avoids_concat("Authorization: "@, scheme, bad);
    lemma_avoids_concat("Authorization: "@ + scheme, seq![' '], bad);
    lemma_avoids_concat("Authorization: "@ + scheme + seq![' '], tok, bad);
    assert(seq_avoids(l1, bad));

    // The header block splits off at the blank line, and into its two
    // lines.
    assert forall|i: int| 0 <= i < l0.len() implies l0[i] != '\r' && l0[i] != '\n' by {
        assert(bad.contains('\r') && bad.contains('\n')) by {
            assert(bad[0] == '\r' && bad[1] == '\n');
        }
    }
    assert forall|i: int| 0 <= i < l1.len() implies l1[i] != '\r' && l1[i] != '\n' by {
        assert(bad.contains('\r') && bad.contains('\n')) by {
            assert(bad[0] == '\r' && bad[1] == '\n');
        }
    }
    lemma_head_split(l0, l1);
    assert(spec_split_once(text, crlf2()) == Some((l0 + crlf() + l1, Seq::<char>::empty())));
    let head = l0 + crlf() + l1;
    assert(bad =~= crlf());
    lemma_split_clean_prefix(l0, crlf(), l1);
    lemma_split_clean_none(l1, crlf());
    let lines = spec_split(head, crlf());
    assert(lines == seq![l0] + seq![l1]);
    assert(lines[0] == l0);
    assert(lines.drop_first() =~= seq![l1]);

    // The request line splits at its `?`.
    assert(l0 =~= "GET /"@ + seq!['?'] + q);
    assert(seq_avoids("GET /"@, seq!['?'])) by {
        assert forall|i: int| 0 <= i < "GET /"@.len() implies !seq!['?'].contains(
            #[trigger] "GET /"@[i],
        ) by {
            lemma_not_contains1('?', "GET /"@[i]);
        }
    }
    lemma_split_clean_prefix("GET /"@, seq!['?'], q);
    assert(spec_split_once(l0, seq!['?']) == Some(("GET /"@, q)));

    // The query splits into its two pairs.
    assert(seq_avoids(pair_a, seq!['&'])) by {
        assert forall|i: int| 0 <= i < pair_a.len() implies !seq!['&'].contains(
            #[trigger] pair_a[i],
        ) by {
            lemma_not_contains1('&', pair_a[i]);
        }
    }
    assert(seq_avoids(pair_b, seq!['&'])) by {
        assert forall|i: int| 0 <= i < pair_b.len() implies !seq!['&'].contains(
            #[trigger] pair_b[i],
        ) by {
            lemma_not_contains1('&', pair_b[i]);
        }
    }
    lemma_split_clean_prefix(pair_a, seq!['&'], pair_b);
    lemma_split_clean_none(pair_b, seq!['&']);
    let pairs = spec_split(q, seq!['&']);
    assert(pairs == seq![pair_a] + seq![pair_b]);
    assert(pairs =~= seq![pair_a, pair_b]);

    // Each pair splits at its first `=` into the key and the full value.
    assert(pair_ip =~= key_myip() + seq!['='] + ip);
    assert(pair_dom =~= key_hostname() + seq!['='] + dom);
    assert(seq_avoids(key_myip(), seq!['='])) by {
        assert forall|i: int| 0 <= i < key_myip().len() implies !seq!['='].contains(
            #[trigger] key_myip()[i],
        ) by {
            lemma_not_contains1('=', key_myip()[i]);
        }
    }
    assert(seq_avoids(key_hostname(), seq!['='])) by {
        assert forall|i: int| 0 <= i < key_hostname().len() implies !seq!['='].contains(
            #[trigger] key_hostname()[i],
        ) by {
            lemma_not_contains1('=', key_hostname()[i]);
        }
    }
    lemma_split_clean_prefix(key_myip(), seq!['='], ip);
    lemma_split_clean_prefix(key_hostname(), seq!['='], dom);
    assert(spec_split_once(pair_ip, seq!['=']) == Some((key_myip(), ip)));
    assert(spec_split_once(pair_dom, seq!['=']) == Some((key_hostname(), dom)));

    // Folding the two pairs records both values, in either order.
    assert(key_myip() != key_hostname()) by {
        assert(key_myip().len() != key_hostname().len());
    }
    assert(pairs.drop_first() =~= seq![pair_b]);
    assert(seq![pair_b].drop_first() =~= Seq::<Seq<char>>::empty());
    assert(parse_query_acc(Seq::<Seq<char>>::empty(), Some(dom), Some(ip)) == Some(
        (Some(dom), Some(ip)),
    ));
    if ip_first {
        assert(parse_query_acc(pairs, None, None) == parse_query_acc(seq![pair_b], None, Some(ip)));
        assert(parse_query_acc(seq![pair_b], None, Some(ip)) == parse_query_acc(
            Seq::<Seq<char>>::empty(),
            Some(dom),
            Some(ip),
        ));
    } else {
        assert(parse_query_acc(pairs, None, None) == parse_query_acc(
            seq![pair_b],
            Some(dom),
            None,
        ));
        assert(parse_query_acc(seq![pair_b], Some(dom), None) == parse_query_acc(
            Seq::<Seq<char>>::empty(),
            Some(dom),
            Some(ip),
        ));
    }
    assert(parse_query_acc(pairs, None, None) == Some((Some(dom), Some(ip))));

    // The header line splits at `": "`, and its value at the first space.
    assert(l1 =~= header_authorization() + colon_space() + (scheme + seq![' '] + tok));
    assert(seq_avoids(header_authorization(), colon_space())) by {
        assert forall|i: int| 0 <= i < header_authorization().len() implies !colon_space()
            .contains(#[trigger] header_authorization()[i]) by {
            lemma_not_contains2(':', ' ', header_authorization()[i]);
        }
    }
    lemma_split_clean_prefix(header_authorization(), colon_space(), scheme + seq![' '] + tok);
    assert(spec_split_once(l1, colon_space()) == Some(
        (header_authorization(), scheme + seq![' '] + tok),
    ));
    assert(seq_avoids(scheme, seq![' '])) by {
        assert forall|i: int| 0 <= i < scheme.len() implies !seq![' '].contains(
            #[trigger] scheme[i],
        ) by {
            lemma_not_contains1(' ', scheme[i]);
        }
    }
    lemma_split_clean_prefix(scheme, seq![' '], tok);
    assert(spec_split_once(scheme + seq![' '] + tok, seq![' ']) == Some((scheme, tok)));
    assert(seq![l1].drop_first() =~= Seq::<Seq<char>>::empty());
    assert(seq![l1][0] == l1);
    assert(parse_headers_acc(seq![l1], None) == parse_headers_acc(
        Seq::<Seq<char>>::empty(),
        Some(tok),
    ));
    assert(parse_headers_acc(Seq::<Seq<char>>::empty(), Some(tok)) == Some(Some(tok)));
    assert(parse_headers_acc(seq![l1], None) == Some(Some(tok)));

    assert(spec_read_request(text) == Some((ip, tok, dom)));
}

} // verus!
