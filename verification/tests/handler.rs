use ddns::auth::AuthDecision;
use ddns::auth::authorize;
use ddns::handler::{handle_request, HandlerVerdict};
use ddns::request::parse_update_request;

#[test]
fn spoofed_request_writes_nothing() {
    let text = "GET /?hostname=home&myip=9.9.9.9\r\nAuthorization: Bearer k\r\n\r\n";
    match handle_request(text, "1.2.3.4", "k") {
        HandlerVerdict::Spoofed => {}
        other => panic!("expected Spoofed, got {:?}", other),
    }
}

#[test]
fn bad_auth_request_gets_exact_badauth_bytes() {
    let text = "GET /?hostname=home&myip=1.2.3.4\r\nAuthorization: Bearer wrong\r\n\r\n";
    match handle_request(text, "1.2.3.4", "right") {
        HandlerVerdict::BadAuth(bytes) => {
            assert_eq!(
                bytes,
                "HTTP/1.1 200 OK\r\nContent-Type: text/plain\r\nContent-Length: 7\r\n\r\nbadauth"
            );
        }
        other => panic!("expected BadAuth, got {:?}", other),
    }
}

#[test]
fn valid_request_gets_exact_good_bytes() {
    let text = "GET /?hostname=home&myip=1.2.3.4\r\nAuthorization: Bearer k\r\n\r\n";
    match handle_request(text, "1.2.3.4", "k") {
        HandlerVerdict::Accept { response, domain, ip } => {
            assert_eq!(
                response,
                "HTTP/1.1 200 OK\r\nContent-Type: text/plain\r\nContent-Length: 12\r\n\r\ngood 1.2.3.4"
            );
            assert_eq!(domain, "home");
            assert_eq!(ip, "1.2.3.4");
        }
        other => panic!("expected Accept, got {:?}", other),
    }
}

#[test]
fn malformed_request_is_dropped() {
    match handle_request("not an http request at all", "1.2.3.4", "k") {
        HandlerVerdict::Malformed => {}
        other => panic!("expected Malformed, got {:?}", other),
    }
}

#[test]
fn authorize_checks_address_before_credential() {
    let text = "GET /?hostname=home&myip=9.9.9.9\r\nAuthorization: Bearer wrong\r\n\r\n";
    let req = parse_update_request(text, "1.2.3.4").unwrap();
    // Both checks would fail; the spoof check comes first.
    assert_eq!(authorize(&req, "right"), AuthDecision::RejectSpoofed);
}

#[test]
fn authorize_accepts_matching_request() {
    let text = "GET /?hostname=home&myip=1.2.3.4\r\nAuthorization: Bearer k\r\n\r\n";
    let req = parse_update_request(text, "1.2.3.4").unwrap();
    assert_eq!(authorize(&req, "k"), AuthDecision::Accept);
    assert_eq!(authorize(&req, "other"), AuthDecision::RejectBadAuth);
}
