use ddns::request::{parse_update_request, read_request};

#[test]
fn parses_well_formed_request() {
    let text = "GET /?hostname=home&myip=1.2.3.4\r\nAuthorization: Bearer sekrit\r\n\r\n";
    let (ip, token, domain) = read_request(text).unwrap();
    assert_eq!(ip, "1.2.3.4");
    assert_eq!(token, "sekrit");
    assert_eq!(domain, "home");
}

#[test]
fn parses_either_query_order() {
    let text = "GET /?myip=1.2.3.4&hostname=home\r\nAuthorization: Bearer sekrit\r\n\r\n";
    let (ip, token, domain) = read_request(text).unwrap();
    assert_eq!(ip, "1.2.3.4");
    assert_eq!(token, "sekrit");
    assert_eq!(domain, "home");
}

#[test]
fn ignores_unknown_query_keys_and_headers() {
    let text = "GET /?foo=bar&hostname=home&myip=1.2.3.4&x=y\r\nHost: example.org\r\nAuthorization: Basic abc\r\nAccept: */*\r\n\r\n";
    let (ip, token, domain) = read_request(text).unwrap();
    assert_eq!(ip, "1.2.3.4");
    assert_eq!(token, "abc");
    assert_eq!(domain, "home");
}

#[test]
fn last_occurrence_of_a_key_wins() {
    let text = "GET /?hostname=a&hostname=b&myip=1.2.3.4\r\nAuthorization: B t\r\n\r\n";
    let (_, _, domain) = read_request(text).unwrap();
    assert_eq!(domain, "b");
}

#[test]
fn version_suffix_folds_into_last_value() {
    // The request line is split on `?` only, so anything after the query
    // string stays inside the last query value.
    let text = "GET /?hostname=home&myip=1.2.3.4 HTTP/1.1\r\nAuthorization: B t\r\n\r\n";
    let (ip, _, _) = read_request(text).unwrap();
    assert_eq!(ip, "1.2.3.4 HTTP/1.1");
}

#[test]
fn rejects_missing_separator() {
    let text = "GET /?hostname=home&myip=1.2.3.4\r\nAuthorization: Bearer sekrit\r\n";
    assert!(read_request(text).is_none());
}

#[test]
fn rejects_missing_query() {
    let text = "GET / HTTP/1.1\r\nAuthorization: Bearer sekrit\r\n\r\n";
    assert!(read_request(text).is_none());
}

#[test]
fn rejects_missing_authorization() {
    let text = "GET /?hostname=home&myip=1.2.3.4\r\nHost: example.org\r\n\r\n";
    assert!(read_request(text).is_none());
}

#[test]
fn rejects_authorization_without_scheme() {
    let text = "GET /?hostname=home&myip=1.2.3.4\r\nAuthorization: tokenonly\r\n\r\n";
    assert!(read_request(text).is_none());
}

#[test]
fn rejects_header_without_colon_space() {
    let text = "GET /?hostname=home&myip=1.2.3.4\r\nAuthorization=Bearer x\r\n\r\n";
    assert!(read_request(text).is_none());
}

#[test]
fn rejects_query_pair_without_equals() {
    let text = "GET /?hostname&myip=1.2.3.4\r\nAuthorization: Bearer x\r\n\r\n";
    assert!(read_request(text).is_none());
}

#[test]
fn rejects_missing_myip() {
    let text = "GET /?hostname=home\r\nAuthorization: Bearer x\r\n\r\n";
    assert!(read_request(text).is_none());
}

#[test]
fn rejects_missing_hostname() {
    let text = "GET /?myip=1.2.3.4\r\nAuthorization: Bearer x\r\n\r\n";
    assert!(read_request(text).is_none());
}

#[test]
fn builds_update_request_with_peer_address() {
    let text = "GET /?hostname=home&myip=1.2.3.4\r\nAuthorization: Bearer sekrit\r\n\r\n";
    let req = parse_update_request(text, "5.6.7.8").unwrap();
    assert_eq!(req.source_ip, "5.6.7.8");
    assert_eq!(req.claimed_ip, "1.2.3.4");
    assert_eq!(req.domain, "home");
    assert_eq!(req.token, "sekrit");
}
