use ddns::response::{badauth_response, encode_response, good_response};

#[test]
fn good_response_is_byte_exact() {
    assert_eq!(
        good_response("1.2.3.4"),
        "HTTP/1.1 200 OK\r\nContent-Type: text/plain\r\nContent-Length: 12\r\n\r\ngood 1.2.3.4"
    );
}

#[test]
fn badauth_response_is_byte_exact() {
    assert_eq!(
        badauth_response(),
        "HTTP/1.1 200 OK\r\nContent-Type: text/plain\r\nContent-Length: 7\r\n\r\nbadauth"
    );
}

#[test]
fn content_length_counts_bytes_not_characters() {
    // A two-byte character: the length header must say 6 for five
    // characters.
    let r = encode_response("h\u{e9}llo");
    assert_eq!(
        r,
        "HTTP/1.1 200 OK\r\nContent-Type: text/plain\r\nContent-Length: 6\r\n\r\nh\u{e9}llo"
    );
}

#[test]
fn empty_body_has_zero_length() {
    assert_eq!(
        encode_response(""),
        "HTTP/1.1 200 OK\r\nContent-Type: text/plain\r\nContent-Length: 0\r\n\r\n"
    );
}
