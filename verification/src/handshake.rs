//! The opening handshake: which requests ask for a WebSocket, and what
//! answers them.

use vstd::prelude::*;
use vstd::slice::slice_to_vec;
use crate::ascii::{ascii, ascii_bytes, eq_bytes, eq_ignore_ascii_case, eq_ignore_case, trim, trimmed};
use crate::codec::{base64_decoded, base64_encoded, decode, encode, sha1_digest, sha1_of};
use crate::request::{first_value, lists_token, Request, RequestView};

verus! {

/// Why a request is not a WebSocket handshake.
#[derive(Debug, Clone, PartialEq, Eq)]
pub enum HandshakeError {
    /// The request method is not `GET`.
    MethodNotGet,
    /// There is no `Connection` header.
    ConnectionNotFound,
    /// No `Connection` header lists `upgrade`.
    InvalidConnectionHeader,
    /// There is no `Upgrade` header.
    UpgradeNotFound,
    /// The `Upgrade` header does not read `websocket`.
    InvalidUpgradeHeader,
    /// There is no `Sec-WebSocket-Version` header.
    SecWebSocketVersionNotFound,
    /// The `Sec-WebSocket-Version` header holds this value in place of `13`.
    InvalidSecWebSocketVersion(Vec<u8>),
    /// There is no `Sec-WebSocket-Key` header.
    SecWebSocketKeyNotFound,
    /// The `Sec-WebSocket-Key` header is not the base64 form of sixteen bytes.
    InvalidSecWebSocketKey,
}

/// A `HandshakeError` with the offending value as a byte sequence.
pub enum Rejection {
    MethodNotGet,
    ConnectionNotFound,
    InvalidConnectionHeader,
    UpgradeNotFound,
    InvalidUpgradeHeader,
    SecWebSocketVersionNotFound,
    InvalidSecWebSocketVersion(Seq<u8>),
    SecWebSocketKeyNotFound,
    InvalidSecWebSocketKey,
}

impl View for HandshakeError {
    type V = Rejection;

    open spec fn view(&self) -> Rejection {
        match self {
            HandshakeError::MethodNotGet => Rejection::MethodNotGet,
            HandshakeError::ConnectionNotFound => Rejection::ConnectionNotFound,
            HandshakeError::InvalidConnectionHeader => Rejection::InvalidConnectionHeader,
            HandshakeError::UpgradeNotFound => Rejection::UpgradeNotFound,
            HandshakeError::InvalidUpgradeHeader => Rejection::InvalidUpgradeHeader,
            HandshakeError::SecWebSocketVersionNotFound => Rejection::SecWebSocketVersionNotFound,
            HandshakeError::InvalidSecWebSocketVersion(value) => {
                Rejection::InvalidSecWebSocketVersion(value@)
            },
            HandshakeError::SecWebSocketKeyNotFound => Rejection::SecWebSocketKeyNotFound,
            HandshakeError::InvalidSecWebSocketKey => Rejection::InvalidSecWebSocketKey,
        }
    }
}

/// The status code of `400 Bad Request`.
pub const BAD_REQUEST: u16 = 400;

impl HandshakeError {
    /// The status with which the request is to be refused. Whatever is
    /// wrong with a handshake, the client sent it: `400 Bad Request`.
    pub fn status_code(&self) -> (code: u16)
        ensures
            code == BAD_REQUEST,
    {
        BAD_REQUEST
    }
}

/// The answer to a valid handshake request.
#[derive(Debug, Clone, PartialEq, Eq)]
pub struct Accept {
    hash: String,
}

impl View for Accept {
    type V = Seq<char>;

    /// The value of the `Sec-WebSocket-Accept` header.
    closed spec fn view(&self) -> Seq<char> {
        self.hash@
    }
}

impl Accept {
    /// The value to send back in the `Sec-WebSocket-Accept` header.
    pub fn hash(&self) -> (hash: &str)
        ensures
            hash@ == self@,
    {
        self.hash.as_str()
    }

    /// Gives up the accept value.
    pub fn into_hash(self) -> (hash: String)
        ensures
            hash@ == self@,
    {
        self.hash
    }
}

/// The longest `Sec-WebSocket-Key` that is looked at. The decoder computes
/// with four times the length of its input, and this is the longest input
/// for which that fits in 32 bits; a longer key is rejected as it stands.
pub const MAX_KEY_LEN: usize = 0x3fff_ffff;

/// The number of bytes a key has to decode to.
pub const NONCE_LEN: usize = 16;

/// The text that is appended to the key before it is hashed.
pub const GUID: &'static str = "258EAFA5-E914-47DA-95CA-C5AB0DC85B11";

/// The only method a handshake is made with.
pub open spec fn get() -> Seq<u8> {
    ascii("GET"@)
}

/// The name of the `Connection` header.
pub open spec fn connection() -> Seq<u8> {
    ascii("connection"@)
}

/// The name of the `Upgrade` header, and the item that the `Connection`
/// header has to list.
pub open spec fn upgrade() -> Seq<u8> {
    ascii("upgrade"@)
}

/// What the `Upgrade` header has to read.
pub open spec fn websocket() -> Seq<u8> {
    ascii("websocket"@)
}

/// The name of the `Sec-WebSocket-Version` header.
pub open spec fn sec_websocket_version() -> Seq<u8> {
    ascii("sec-websocket-version"@)
}

/// The only protocol version that is accepted.
pub open spec fn thirteen() -> Seq<u8> {
    ascii("13"@)
}

/// The name of the `Sec-WebSocket-Key` header.
pub open spec fn sec_websocket_key() -> Seq<u8> {
    ascii("sec-websocket-key"@)
}

/// The key of a request whose method and headers are those of a handshake,
/// or else the first thing that is wrong with them. The checks run in this
/// order: method, `Connection`, `Upgrade`, `Sec-WebSocket-Version`, presence
/// of `Sec-WebSocket-Key`. Every `Connection` header is searched for the
/// item `upgrade`; of any other header that occurs more than once, the first
/// occurrence counts.
pub open spec fn checked_key(request: RequestView) -> Result<Seq<u8>, Rejection> {
    let headers = request.headers;
    if request.method != get() {
        Err(Rejection::MethodNotGet)
    } else if first_value(headers, connection()) is None {
        Err(Rejection::ConnectionNotFound)
    } else if !lists_token(headers, connection(), upgrade()) {
        Err(Rejection::InvalidConnectionHeader)
    } else {
        match first_value(headers, upgrade()) {
            None => Err(Rejection::UpgradeNotFound),
            Some(value) => if !eq_ignore_case(trimmed(value), websocket()) {
                Err(Rejection::InvalidUpgradeHeader)
            } else {
                match first_value(headers, sec_websocket_version()) {
                    None => Err(Rejection::SecWebSocketVersionNotFound),
                    Some(version) => if version != thirteen() {
                        Err(Rejection::InvalidSecWebSocketVersion(version))
                    } else {
                        match first_value(headers, sec_websocket_key()) {
                            None => Err(Rejection::SecWebSocketKeyNotFound),
                            Some(key) => Ok(key),
                        }
                    },
                }
            },
        }
    }
}

/// The key is no longer than `MAX_KEY_LEN`, and the decoder makes sixteen
/// bytes of it.
pub open spec fn key_is_nonce(key: Seq<u8>) -> bool {
    &&& key.len() <= MAX_KEY_LEN
    &&& base64_decoded(key) matches Some(nonce) && nonce.len() == NONCE_LEN
}

/// The accept value for a key: the base64 form of the SHA-1 digest of the key
/// followed by the GUID.
pub open spec fn accept_hash(key: Seq<u8>) -> Seq<char> {
    base64_encoded(sha1_digest(key + ascii(GUID@)))
}

/// What `validate` decides for a request: the accept value, or the first
/// check that fails.
pub open spec fn outcome(request: RequestView) -> Result<Seq<char>, Rejection> {
    match checked_key(request) {
        Err(rejection) => Err(rejection),
        Ok(key) => if key_is_nonce(key) {
            Ok(accept_hash(key))
        } else {
            Err(Rejection::InvalidSecWebSocketKey)
        },
    }
}

/// A result of `validate` as the value that `outcome` speaks of.
pub open spec fn verdict(result: Result<Accept, HandshakeError>) -> Result<Seq<char>, Rejection> {
    match result {
        Ok(accept) => Ok(accept@),
        Err(error) => Err(error@),
    }
}

/// Checks the method and the headers of a request, in the order of
/// `checked_key`, and hands back the value of its `Sec-WebSocket-Key` header.
pub fn check_headers(request: &Request) -> (res: Result<&Vec<u8>, HandshakeError>)
    ensures
        match res {
            Ok(key) => checked_key(request@) == Ok::<Seq<u8>, Rejection>(key@),
            Err(error) => checked_key(request@) == Err::<Seq<u8>, Rejection>(error@),
        },
{
    proof {
        reveal_strlit("GET");
        reveal_strlit("connection");
        reveal_strlit("upgrade");
        reveal_strlit("websocket");
        reveal_strlit("sec-websocket-version");
        reveal_strlit("13");
        reveal_strlit("sec-websocket-key");
    }
    if !eq_bytes(request.method.as_slice(), ascii_bytes("GET")) {
        return Err(HandshakeError::MethodNotGet);
    }
    let connection = ascii_bytes("connection");
    if request.get(connection).is_none() {
        return Err(HandshakeError::ConnectionNotFound);
    }
    if !request.lists(connection, ascii_bytes("upgrade")) {
        return Err(HandshakeError::InvalidConnectionHeader);
    }
    let upgrade = match request.get(ascii_bytes("upgrade")) {
        Some(value) => value,
        None => return Err(HandshakeError::UpgradeNotFound),
    };
    if !eq_ignore_ascii_case(trim(upgrade.as_slice()), ascii_bytes("websocket")) {
        return Err(HandshakeError::InvalidUpgradeHeader);
    }
    let version = match request.get(ascii_bytes("sec-websocket-version")) {
        Some(value) => value,
        None => return Err(HandshakeError::SecWebSocketVersionNotFound),
    };
    if !eq_bytes(version.as_slice(), ascii_bytes("13")) {
        return Err(HandshakeError::InvalidSecWebSocketVersion(version.clone()));
    }
    match request.get(ascii_bytes("sec-websocket-key")) {
        Some(key) => Ok(key),
        None => Err(HandshakeError::SecWebSocketKeyNotFound),
    }
}

/// Tells whether the decoder made a nonce of a key: it has to have succeeded,
/// with sixteen bytes.
pub fn is_nonce(decoded: &Result<Vec<u8>, base64::DecodeError>) -> (r: bool)
    ensures
        r == (decoded matches Ok(bytes) && bytes@.len() == NONCE_LEN),
{
    match decoded {
        Ok(bytes) => bytes.len() == NONCE_LEN,
        Err(_) => false,
    }
}

/// Computes the accept value for a key: appends the GUID, hashes, and encodes
/// the digest.
pub fn accept_key(key: &[u8]) -> (hash: String)
    requires
        key@.len() <= MAX_KEY_LEN,
    ensures
        hash@ == accept_hash(key@),
{
    proof {
        reveal_strlit("258EAFA5-E914-47DA-95CA-C5AB0DC85B11");
    }
    let mut data = slice_to_vec(key);
    data.extend_from_slice(ascii_bytes(GUID));
    assert(data@ == key@ + ascii(GUID@));
    let digest = sha1_of(data.as_slice());
    encode(&digest)
}

/// Decides whether a request is a valid WebSocket handshake and, if it is,
/// computes the value of the `Sec-WebSocket-Accept` header that answers it.
/// A request that breaks several rules is rejected for the first of them.
pub fn validate(request: &Request) -> (res: Result<Accept, HandshakeError>)
    ensures
        verdict(res) == outcome(request@),
{
    let key = match check_headers(request) {
        Ok(key) => key,
        Err(error) => return Err(error),
    };
    if key.len() > MAX_KEY_LEN {
        return Err(HandshakeError::InvalidSecWebSocketKey);
    }
    let decoded = decode(key.as_slice());
    if !is_nonce(&decoded) {
        return Err(HandshakeError::InvalidSecWebSocketKey);
    }
    Ok(Accept { hash: accept_key(key.as_slice()) })
}

} // verus!
