use finchers_tungstenite::ascii::{
    ascii_bytes, eq_bytes, eq_ignore_ascii_case, is_ascii_space, to_lower, trim,
};
use finchers_tungstenite::token::contains_token;
use finchers_tungstenite::Request;

#[test]
fn lower_folds_letters_only() {
    assert_eq!(to_lower(b'A'), b'a');
    assert_eq!(to_lower(b'Z'), b'z');
    assert_eq!(to_lower(b'a'), b'a');
    assert_eq!(to_lower(b'@'), b'@');
    assert_eq!(to_lower(b'['), b'[');
    assert_eq!(to_lower(b'-'), b'-');
    assert_eq!(to_lower(0xc4), 0xc4);
    for b in 0..=255u8 {
        assert_eq!(to_lower(b), b.to_ascii_lowercase());
    }
}

#[test]
fn whitespace_is_ascii_whitespace() {
    for b in 0..=255u8 {
        assert_eq!(is_ascii_space(b), b.is_ascii_whitespace());
    }
}

#[test]
fn equal_but_for_case() {
    assert!(eq_ignore_ascii_case(b"WebSocket", b"websocket"));
    assert!(eq_ignore_ascii_case(b"", b""));
    assert!(!eq_ignore_ascii_case(b"websocket", b"websockets"));
    assert!(!eq_ignore_ascii_case(b"websocket", b"webs0cket"));
    assert!(!eq_ignore_ascii_case(b"@", b"`"));
    assert!(!eq_ignore_ascii_case(b"[", b"{"));
}

#[test]
fn equal_to_the_byte() {
    assert!(eq_bytes(b"13", b"13"));
    assert!(eq_bytes(b"", b""));
    assert!(!eq_bytes(b"13", b"13 "));
    assert!(!eq_bytes(b"GET", b"get"));
}

#[test]
fn ascii_bytes_of_a_text() {
    assert_eq!(ascii_bytes("GET"), b"GET");
    assert_eq!(ascii_bytes(""), b"");
}

#[test]
fn trim_strips_both_ends() {
    assert_eq!(trim(b"  websocket \t"), b"websocket");
    assert_eq!(trim(b"websocket"), b"websocket");
    assert_eq!(trim(b" a b "), b"a b");
    assert_eq!(trim(b"\r\n\x0c x"), b"x");
    assert_eq!(trim(b"   "), b"");
    assert_eq!(trim(b""), b"");
    assert_eq!(trim(b"\x0bx\x0b"), b"\x0bx\x0b");
}

#[test]
fn tokens_of_a_list() {
    assert!(contains_token(b"upgrade", b"upgrade"));
    assert!(contains_token(b"keep-alive, Upgrade", b"upgrade"));
    assert!(contains_token(b"Upgrade,keep-alive", b"upgrade"));
    assert!(contains_token(b"a, b ,UPGRADE  , c", b"upgrade"));
    assert!(!contains_token(b"", b"upgrade"));
    assert!(!contains_token(b",,,", b"upgrade"));
    assert!(!contains_token(b"upgrade x", b"upgrade"));
    assert!(!contains_token(b"keep-alive", b"upgrade"));
    assert!(contains_token(b"a,,b", b""));
    assert!(contains_token(b"", b""));
    assert!(!contains_token(b"a", b""));
}

#[test]
fn request_lookup() {
    let request = Request::new(b"GET")
        .header(b"Accept", b"text/html")
        .header(b"accept", b"text/plain")
        .header(b"Connection", b"keep-alive")
        .header(b"CONNECTION", b"upgrade");
    assert_eq!(request.method, b"GET");
    assert_eq!(request.headers.len(), 4);
    assert_eq!(request.headers[1].name, b"accept");
    assert_eq!(request.headers[1].value, b"text/plain");
    assert_eq!(request.get(b"ACCEPT"), Some(&b"text/html".to_vec()));
    assert_eq!(request.get(b"connection"), Some(&b"keep-alive".to_vec()));
    assert_eq!(request.get(b"upgrade"), None);
    assert!(request.lists(b"connection", b"upgrade"));
    assert!(request.lists(b"connection", b"Keep-Alive"));
    assert!(!request.lists(b"connection", b"close"));
    assert!(!request.lists(b"accept", b"upgrade"));
    assert!(!Request::new(b"GET").lists(b"connection", b"upgrade"));
}
