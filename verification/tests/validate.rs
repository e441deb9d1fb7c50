use finchers_tungstenite::handshake::{accept_key, check_headers, is_nonce, MAX_KEY_LEN};
use finchers_tungstenite::{validate, HandshakeError, Request};

const KEY: &[u8] = b"dGhlIHNhbXBsZSBub25jZQ==";
const ACCEPT: &str = "s3pPLMBiTxaQ9kYGzzhZRbK+xOo=";

fn valid() -> Request {
    Request::new(b"GET")
        .header(b"Host", b"localhost:4000")
        .header(b"Connection", b"upgrade")
        .header(b"Upgrade", b"websocket")
        .header(b"Sec-WebSocket-Version", b"13")
        .header(b"Sec-WebSocket-Key", KEY)
}

fn without(name: &[u8]) -> Request {
    let mut request = valid();
    request.headers.retain(|h| !h.name.eq_ignore_ascii_case(name));
    request
}

fn with(name: &[u8], value: &[u8]) -> Request {
    let mut request = valid();
    for h in request.headers.iter_mut() {
        if h.name.eq_ignore_ascii_case(name) {
            h.value = value.to_vec();
        }
    }
    request
}

#[test]
fn known_vector_is_accepted() {
    let accept = validate(&valid()).unwrap();
    assert_eq!(accept.hash(), ACCEPT);
    assert_eq!(accept.into_hash(), ACCEPT.to_string());
}

#[test]
fn second_known_vector() {
    let request = with(b"sec-websocket-key", b"x3JJHMbDL1EzLkh9GBhXDw==");
    assert_eq!(validate(&request).unwrap().hash(), "HSmrc0sMlYUkAGmm5OPpG2HaGWk=");
}

#[test]
fn accept_key_hashes_key_and_guid() {
    assert_eq!(accept_key(KEY), ACCEPT);
    assert_eq!(accept_key(b"AAAAAAAAAAAAAAAAAAAAAA=="), "ICX+Yqv66kxgM0FcWaLWlFLwTAI=");
    assert_eq!(accept_key(b"AAAAAAAAAAAAAAAAAAAAAA"), "r6IwQZqttBiXcwrnSzlCQK2mON0=");
}

#[test]
fn accept_value_is_not_the_key() {
    let accept = validate(&valid()).unwrap();
    assert_ne!(accept.hash().as_bytes(), KEY);
    assert_eq!(accept.hash().len(), 28);
}

#[test]
fn check_headers_hands_back_the_key() {
    let request = valid();
    assert_eq!(check_headers(&request), Ok(&KEY.to_vec()));
}

#[test]
fn post_is_rejected_before_any_header() {
    let mut request = valid();
    request.method = b"POST".to_vec();
    assert_eq!(validate(&request), Err(HandshakeError::MethodNotGet));
    assert_eq!(validate(&Request::new(b"POST")), Err(HandshakeError::MethodNotGet));
}

#[test]
fn method_is_case_sensitive() {
    let mut request = valid();
    request.method = b"get".to_vec();
    assert_eq!(validate(&request), Err(HandshakeError::MethodNotGet));
    request.method = b"GET ".to_vec();
    assert_eq!(validate(&request), Err(HandshakeError::MethodNotGet));
    request.method = Vec::new();
    assert_eq!(validate(&request), Err(HandshakeError::MethodNotGet));
}

#[test]
fn missing_connection() {
    assert_eq!(validate(&without(b"connection")), Err(HandshakeError::ConnectionNotFound));
}

#[test]
fn missing_upgrade() {
    assert_eq!(validate(&without(b"upgrade")), Err(HandshakeError::UpgradeNotFound));
}

#[test]
fn missing_version() {
    assert_eq!(
        validate(&without(b"sec-websocket-version")),
        Err(HandshakeError::SecWebSocketVersionNotFound)
    );
}

#[test]
fn missing_key() {
    assert_eq!(
        validate(&without(b"sec-websocket-key")),
        Err(HandshakeError::SecWebSocketKeyNotFound)
    );
}

#[test]
fn no_headers_at_all() {
    assert_eq!(validate(&Request::new(b"GET")), Err(HandshakeError::ConnectionNotFound));
}

#[test]
fn first_failing_check_wins() {
    let request = Request::new(b"GET").header(b"connection", b"close");
    assert_eq!(validate(&request), Err(HandshakeError::InvalidConnectionHeader));
    let request = Request::new(b"GET")
        .header(b"connection", b"upgrade")
        .header(b"sec-websocket-version", b"8");
    assert_eq!(validate(&request), Err(HandshakeError::UpgradeNotFound));
    let request = Request::new(b"GET")
        .header(b"connection", b"upgrade")
        .header(b"upgrade", b"h2c")
        .header(b"sec-websocket-version", b"8");
    assert_eq!(validate(&request), Err(HandshakeError::InvalidUpgradeHeader));
    let request = Request::new(b"GET")
        .header(b"connection", b"upgrade")
        .header(b"upgrade", b"websocket")
        .header(b"sec-websocket-version", b"8");
    assert_eq!(
        validate(&request),
        Err(HandshakeError::InvalidSecWebSocketVersion(b"8".to_vec()))
    );
    let request = Request::new(b"POST").header(b"connection", b"close");
    assert_eq!(validate(&request), Err(HandshakeError::MethodNotGet));
}

#[test]
fn header_order_does_not_matter() {
    let request = Request::new(b"GET")
        .header(b"sec-websocket-key", KEY)
        .header(b"sec-websocket-version", b"13")
        .header(b"upgrade", b"websocket")
        .header(b"connection", b"upgrade");
    assert_eq!(validate(&request).unwrap().hash(), ACCEPT);
}

#[test]
fn case_of_names_and_values_does_not_count() {
    let request = Request::new(b"GET")
        .header(b"CONNECTION", b"Upgrade")
        .header(b"UpGrAdE", b"WebSocket")
        .header(b"SEC-WEBSOCKET-VERSION", b"13")
        .header(b"sec-WebSocket-KEY", KEY);
    assert_eq!(validate(&request).unwrap().hash(), ACCEPT);
    assert_eq!(validate(&with(b"upgrade", b"WEBSOCKET")).unwrap().hash(), ACCEPT);
    assert_eq!(validate(&with(b"connection", b"UPGRADE")).unwrap().hash(), ACCEPT);
    assert_eq!(validate(&with(b"connection", b"uPgRaDe")).unwrap().hash(), ACCEPT);
}

#[test]
fn case_of_the_key_counts() {
    let request = with(b"sec-websocket-key", b"DGHLIHNHBXBSZSBUB25JZQ==");
    let accept = validate(&request).unwrap();
    assert_ne!(accept.hash(), ACCEPT);
}

#[test]
fn connection_with_more_items() {
    assert_eq!(validate(&with(b"connection", b"keep-alive, Upgrade")).unwrap().hash(), ACCEPT);
    assert_eq!(validate(&with(b"connection", b"Upgrade, keep-alive")).unwrap().hash(), ACCEPT);
    assert_eq!(validate(&with(b"connection", b"a,b,upgrade,c")).unwrap().hash(), ACCEPT);
    assert_eq!(validate(&with(b"connection", b" \tupgrade\t ,x")).unwrap().hash(), ACCEPT);
    assert_eq!(validate(&with(b"connection", b",, upgrade ,,")).unwrap().hash(), ACCEPT);
}

#[test]
fn connection_in_several_headers() {
    let request = Request::new(b"GET")
        .header(b"connection", b"keep-alive")
        .header(b"Connection", b"Upgrade")
        .header(b"upgrade", b"websocket")
        .header(b"sec-websocket-version", b"13")
        .header(b"sec-websocket-key", KEY);
    assert_eq!(validate(&request).unwrap().hash(), ACCEPT);
    let request = Request::new(b"GET")
        .header(b"connection", b"keep-alive")
        .header(b"upgrade", b"websocket")
        .header(b"sec-websocket-version", b"13")
        .header(b"sec-websocket-key", KEY)
        .header(b"connection", b"foo, upgrade");
    assert_eq!(validate(&request).unwrap().hash(), ACCEPT);
}

#[test]
fn connection_without_the_item() {
    for value in [
        &b"keep-alive"[..],
        b"",
        b",",
        b"upgrades",
        b"up grade",
        b"upgrade websocket",
        b"keep-alive; upgrade",
        b"close, keep-alive",
    ] {
        assert_eq!(
            validate(&with(b"connection", value)),
            Err(HandshakeError::InvalidConnectionHeader)
        );
    }
}

#[test]
fn upgrade_is_compared_whole() {
    assert_eq!(validate(&with(b"upgrade", b"  websocket\t")).unwrap().hash(), ACCEPT);
    for value in [&b"websocket, h2c"[..], b"h2c, websocket", b"web socket", b"", b"websockets"] {
        assert_eq!(validate(&with(b"upgrade", value)), Err(HandshakeError::InvalidUpgradeHeader));
    }
}

#[test]
fn first_occurrence_of_a_single_header_counts() {
    let request = valid().header(b"upgrade", b"h2c").header(b"sec-websocket-version", b"8");
    assert_eq!(validate(&request).unwrap().hash(), ACCEPT);
    let request = Request::new(b"GET")
        .header(b"connection", b"upgrade")
        .header(b"upgrade", b"h2c")
        .header(b"upgrade", b"websocket");
    assert_eq!(validate(&request), Err(HandshakeError::InvalidUpgradeHeader));
}

#[test]
fn version_must_be_thirteen() {
    assert_eq!(
        validate(&with(b"sec-websocket-version", b"8")),
        Err(HandshakeError::InvalidSecWebSocketVersion(b"8".to_vec()))
    );
    for value in [&b"13 "[..], b" 13", b"013", b"13, 8", b"", b"1", b"130"] {
        assert_eq!(
            validate(&with(b"sec-websocket-version", value)),
            Err(HandshakeError::InvalidSecWebSocketVersion(value.to_vec()))
        );
    }
}

#[test]
fn key_must_be_base64() {
    for value in [
        &b"not base64 at all!!"[..],
        b"dGhlIHNhbXBsZSBub25jZQ===",
        b"dGhlIHNhbXBsZSBub25jZQ== ",
        b" dGhlIHNhbXBsZSBub25jZQ==",
        b"dGhlIHNhbXBs*SBub25jZQ==",
        b"=",
    ] {
        assert_eq!(
            validate(&with(b"sec-websocket-key", value)),
            Err(HandshakeError::InvalidSecWebSocketKey),
            "{:?}",
            value
        );
    }
}

#[test]
fn key_must_decode_to_sixteen_bytes() {
    // fifteen bytes, seventeen bytes, nothing
    for value in [&b"MDEyMzQ1Njc4OWFiY2Rl"[..], b"MDEyMzQ1Njc4OWFiY2RlZmc=", b""] {
        assert_eq!(
            validate(&with(b"sec-websocket-key", value)),
            Err(HandshakeError::InvalidSecWebSocketKey)
        );
    }
}

#[test]
fn is_nonce_judges_the_decoding() {
    assert!(is_nonce(&Ok(vec![0u8; 16])));
    assert!(!is_nonce(&Ok(vec![0u8; 15])));
    assert!(!is_nonce(&Ok(vec![0u8; 17])));
    assert!(!is_nonce(&Ok(Vec::new())));
    assert!(!is_nonce(&Err(base64::DecodeError::InvalidLength)));
    assert!(!is_nonce(&Err(base64::DecodeError::InvalidByte(0, b'*'))));
}

#[test]
fn key_length_limit() {
    assert_eq!(MAX_KEY_LEN, 0x3fff_ffff);
}

#[test]
fn validate_twice_gives_the_same() {
    let request = valid();
    assert_eq!(validate(&request), validate(&request));
    let request = with(b"sec-websocket-version", b"8");
    assert_eq!(validate(&request), validate(&request));
    let request = without(b"connection");
    assert_eq!(validate(&request), validate(&request));
}

#[test]
fn validate_leaves_the_request_alone() {
    let request = valid();
    let copy = request.clone();
    let _ = validate(&request);
    assert_eq!(request, copy);
}

#[test]
fn every_handshake_error_is_a_bad_request() {
    for error in [
        HandshakeError::MethodNotGet,
        HandshakeError::ConnectionNotFound,
        HandshakeError::InvalidConnectionHeader,
        HandshakeError::UpgradeNotFound,
        HandshakeError::InvalidUpgradeHeader,
        HandshakeError::SecWebSocketVersionNotFound,
        HandshakeError::InvalidSecWebSocketVersion(b"8".to_vec()),
        HandshakeError::SecWebSocketKeyNotFound,
        HandshakeError::InvalidSecWebSocketKey,
    ] {
        assert_eq!(error.status_code(), 400);
    }
}
