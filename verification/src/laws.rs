//! What holds of `validate` on every request.

use vstd::prelude::*;
use crate::ascii::{
    eq_ignore_case, lemma_eq_ignore_case_equivalence, lemma_eq_ignore_case_same_matches,
    lemma_trimmed_ignores_case, trimmed,
};
use crate::codec::base64_decoded;
use crate::handshake::{
    accept_hash, connection, get, key_is_nonce, outcome, sec_websocket_key, sec_websocket_version,
    thirteen, upgrade, validate, verdict, websocket, Accept, HandshakeError, Rejection, NONCE_LEN,
};
use crate::request::{
    first_value, is_first, is_missing, is_named, lemma_first_value, lemma_first_value_at,
    lists_token, HeaderView, Request, RequestView,
};
use crate::token::{has_token, lemma_has_token_ignores_case};

verus! {

/// The method is `GET`.
pub open spec fn method_passes(request: RequestView) -> bool {
    request.method == get()
}

/// There is a `Connection` header, and one of them lists `upgrade`.
pub open spec fn connection_passes(request: RequestView) -> bool {
    &&& !is_missing(request.headers, connection())
    &&& lists_token(request.headers, connection(), upgrade())
}

/// There is an `Upgrade` header, and the first one reads `websocket`.
pub open spec fn upgrade_passes(request: RequestView) -> bool {
    first_value(request.headers, upgrade()) matches Some(value) && eq_ignore_case(
        trimmed(value),
        websocket(),
    )
}

/// There is a `Sec-WebSocket-Version` header, and the first one is `13`.
pub open spec fn version_passes(request: RequestView) -> bool {
    first_value(request.headers, sec_websocket_version()) == Some(thirteen())
}

/// The method is checked before any header: a request is rejected with
/// `MethodNotGet` exactly when its method is not `GET`, whatever its headers.
pub proof fn lemma_method_is_checked_first(request: RequestView)
    ensures
        !method_passes(request) <==> outcome(request) == Err::<Seq<char>, Rejection>(
            Rejection::MethodNotGet,
        ),
{
}

/// A required header that is missing is reported by its own error, once the
/// checks that come before it have passed; and none of these errors is
/// reported for a header that is there.
pub proof fn lemma_missing_header_is_reported(request: RequestView)
    ensures
        method_passes(request) && is_missing(request.headers, connection()) ==> outcome(request)
            == Err::<Seq<char>, Rejection>(Rejection::ConnectionNotFound),
        method_passes(request) && connection_passes(request) && is_missing(
            request.headers,
            upgrade(),
        ) ==> outcome(request) == Err::<Seq<char>, Rejection>(Rejection::UpgradeNotFound),
        method_passes(request) && connection_passes(request) && upgrade_passes(request)
            && is_missing(request.headers, sec_websocket_version()) ==> outcome(request) == Err::<
            Seq<char>,
            Rejection,
        >(Rejection::SecWebSocketVersionNotFound),
        method_passes(request) && connection_passes(request) && upgrade_passes(request)
            && version_passes(request) && is_missing(request.headers, sec_websocket_key())
            ==> outcome(request) == Err::<Seq<char>, Rejection>(
            Rejection::SecWebSocketKeyNotFound,
        ),
        outcome(request) == Err::<Seq<char>, Rejection>(Rejection::ConnectionNotFound)
            ==> is_missing(request.headers, connection()),
        outcome(request) == Err::<Seq<char>, Rejection>(Rejection::UpgradeNotFound)
            ==> is_missing(request.headers, upgrade()),
        outcome(request) == Err::<Seq<char>, Rejection>(Rejection::SecWebSocketVersionNotFound)
            ==> is_missing(request.headers, sec_websocket_version()),
        outcome(request) == Err::<Seq<char>, Rejection>(Rejection::SecWebSocketKeyNotFound)
            ==> is_missing(request.headers, sec_websocket_key()),
{
    lemma_first_value(request.headers, connection());
    lemma_first_value(request.headers, upgrade());
    lemma_first_value(request.headers, sec_websocket_version());
    lemma_first_value(request.headers, sec_websocket_key());
}

/// The version has to be `13` to the byte: with the earlier checks passed,
/// any other value is rejected and handed back in the error.
pub proof fn lemma_version_is_exact(request: RequestView, version: Seq<u8>)
    requires
        method_passes(request),
        connection_passes(request),
        upgrade_passes(request),
        first_value(request.headers, sec_websocket_version()) == Some(version),
        version != thirteen(),
    ensures
        outcome(request) == Err::<Seq<char>, Rejection>(
            Rejection::InvalidSecWebSocketVersion(version),
        ),
{
    lemma_first_value(request.headers, connection());
}

/// A key that the decoder refuses, or that decodes to more or fewer than
/// sixteen bytes, is rejected with `InvalidSecWebSocketKey` once the earlier
/// checks have passed.
pub proof fn lemma_key_is_a_nonce(request: RequestView, key: Seq<u8>)
    requires
        method_passes(request),
        connection_passes(request),
        upgrade_passes(request),
        version_passes(request),
        first_value(request.headers, sec_websocket_key()) == Some(key),
        !(base64_decoded(key) matches Some(nonce) && nonce.len() == NONCE_LEN),
    ensures
        outcome(request) == Err::<Seq<char>, Rejection>(Rejection::InvalidSecWebSocketKey),
{
    lemma_first_value(request.headers, connection());
}

/// A request is accepted only if it passes every check, and then with the
/// accept value of its key.
pub proof fn lemma_accepted(request: RequestView, hash: Seq<char>)
    requires
        outcome(request) == Ok::<Seq<char>, Rejection>(hash),
    ensures
        method_passes(request),
        connection_passes(request),
        upgrade_passes(request),
        version_passes(request),
        first_value(request.headers, sec_websocket_key()) matches Some(key) && key_is_nonce(key)
            && hash == accept_hash(key),
{
    lemma_first_value(request.headers, connection());
}

/// `validate` has no state: whatever two calls on one request return, it is
/// the same verdict.
pub proof fn lemma_validate_is_deterministic(
    request: &Request,
    first: Result<Accept, HandshakeError>,
    second: Result<Accept, HandshakeError>,
)
    requires
        call_ensures(validate, (request,), first),
        call_ensures(validate, (request,), second),
    ensures
        verdict(first) == verdict(second),
{
}

/// One `Connection` header that lists `upgrade` is enough, wherever it
/// stands among the headers and whatever else it or the others list.
pub proof fn lemma_one_connection_header_suffices(request: RequestView, i: int)
    requires
        0 <= i < request.headers.len(),
        is_named(request.headers[i], connection()),
        has_token(request.headers[i].value, upgrade()),
    ensures
        connection_passes(request),
        outcome(request) != Err::<Seq<char>, Rejection>(Rejection::ConnectionNotFound),
        outcome(request) != Err::<Seq<char>, Rejection>(Rejection::InvalidConnectionHeader),
{
    lemma_first_value(request.headers, connection());
}

/// The two requests differ in nothing but the case of letters, and that
/// only where case does not count: in the names of headers, and in the
/// values of the `Connection` and `Upgrade` headers.
pub open spec fn same_but_for_case(a: RequestView, b: RequestView) -> bool {
    &&& a.method == b.method
    &&& a.headers.len() == b.headers.len()
    &&& forall|i: int|
        0 <= i < a.headers.len() ==> same_header_but_for_case(#[trigger] a.headers[i], b.headers[i])
}

/// The two headers have the same name up to case, and the same value: to
/// the byte, or up to case if they are `Connection` or `Upgrade` headers.
pub open spec fn same_header_but_for_case(a: HeaderView, b: HeaderView) -> bool {
    &&& eq_ignore_case(a.name, b.name)
    &&& if is_named(a, connection()) || is_named(a, upgrade()) {
        eq_ignore_case(a.value, b.value)
    } else {
        a.value == b.value
    }
}

/// Header names, and the values of `Connection` and `Upgrade`, are read
/// without regard to case: changing the case of their letters changes
/// nothing in what `validate` decides.
pub proof fn lemma_case_does_not_count(a: RequestView, b: RequestView)
    requires
        same_but_for_case(a, b),
    ensures
        outcome(a) == outcome(b),
{
    lemma_same_names(a, b, connection());
    lemma_same_names(a, b, upgrade());
    lemma_same_names(a, b, sec_websocket_version());
    lemma_same_names(a, b, sec_websocket_key());
    lemma_same_first(a, b, connection());
    lemma_same_first(a, b, upgrade());
    lemma_same_first(a, b, sec_websocket_version());
    lemma_same_first(a, b, sec_websocket_key());
    lemma_same_lists(a, b);
    lemma_same_lists(b, a);
    reveal_strlit("connection");
    reveal_strlit("upgrade");
    reveal_strlit("sec-websocket-version");
    reveal_strlit("sec-websocket-key");
    match (first_value(a.headers, upgrade()), first_value(b.headers, upgrade())) {
        (Some(x), Some(y)) => {
            lemma_trimmed_ignores_case(x, y);
            lemma_eq_ignore_case_same_matches(trimmed(x), trimmed(y), websocket());
        },
        _ => {},
    }
}

/// Requests that differ only in case give every name to the same headers.
proof fn lemma_same_names(a: RequestView, b: RequestView, name: Seq<u8>)
    requires
        same_but_for_case(a, b),
    ensures
        same_but_for_case(b, a),
        forall|i: int|
            0 <= i < a.headers.len() ==> is_named(#[trigger] a.headers[i], name) == is_named(
                b.headers[i],
                name,
            ),
{
    assert forall|i: int| 0 <= i < a.headers.len() implies is_named(
        #[trigger] a.headers[i],
        name,
    ) == is_named(b.headers[i], name) by {
        assert(same_header_but_for_case(a.headers[i], b.headers[i]));
        lemma_eq_ignore_case_same_matches(a.headers[i].name, b.headers[i].name, name);
    }
    assert forall|i: int| 0 <= i < b.headers.len() implies same_header_but_for_case(
        #[trigger] b.headers[i],
        a.headers[i],
    ) by {
        let x = a.headers[i];
        let y = b.headers[i];
        assert(same_header_but_for_case(x, y));
        lemma_eq_ignore_case_equivalence(x.name, y.name, y.name);
        lemma_eq_ignore_case_equivalence(x.value, y.value, y.value);
        lemma_eq_ignore_case_same_matches(x.name, y.name, connection());
        lemma_eq_ignore_case_same_matches(x.name, y.name, upgrade());
    }
}

/// Requests that differ only in case have a header of a given name at the
/// same place first, if they have one; the two values are the same up to
/// case, and the same to the byte unless the header is `Connection` or
/// `Upgrade`.
proof fn lemma_same_first(a: RequestView, b: RequestView, name: Seq<u8>)
    requires
        same_but_for_case(a, b),
    ensures
        match (first_value(a.headers, name), first_value(b.headers, name)) {
            (None, None) => true,
            (Some(x), Some(y)) => eq_ignore_case(x, y) && (eq_ignore_case(name, connection())
                || eq_ignore_case(name, upgrade()) || x == y),
            _ => false,
        },
{
    lemma_same_names(a, b, name);
    lemma_first_value(a.headers, name);
    lemma_first_value(b.headers, name);
    if first_value(a.headers, name) is Some {
        let i = choose|i: int|
            is_first(a.headers, name, i) && #[trigger] a.headers[i].value == first_value(
                a.headers,
                name,
            )->Some_0;
        assert forall|k: int| 0 <= k < i implies !is_named(#[trigger] b.headers[k], name) by {
            assert(!is_named(a.headers[k], name));
        }
        assert(is_named(a.headers[i], name));
        assert(is_first(b.headers, name, i));
        lemma_first_value_at(b.headers, name, i);
        let x = a.headers[i];
        let y = b.headers[i];
        assert(same_header_but_for_case(x, y));
        lemma_eq_ignore_case_equivalence(x.value, y.value, y.value);
        lemma_eq_ignore_case_equivalence(name, x.name, connection());
        lemma_eq_ignore_case_equivalence(x.name, name, connection());
        lemma_eq_ignore_case_equivalence(name, x.name, upgrade());
        lemma_eq_ignore_case_equivalence(x.name, name, upgrade());
    } else {
        assert forall|k: int| 0 <= k < b.headers.len() implies !is_named(
            #[trigger] b.headers[k],
            name,
        ) by {
            assert(!is_named(a.headers[k], name));
        }
    }
}

/// Requests that differ only in case list `upgrade` in a `Connection`
/// header together or not at all.
proof fn lemma_same_lists(a: RequestView, b: RequestView)
    requires
        same_but_for_case(a, b),
    ensures
        lists_token(a.headers, connection(), upgrade()) ==> lists_token(
            b.headers,
            connection(),
            upgrade(),
        ),
{
    lemma_same_names(a, b, connection());
    if lists_token(a.headers, connection(), upgrade()) {
        let i = choose|i: int|
            0 <= i < a.headers.len() && is_named(#[trigger] a.headers[i], connection())
                && has_token(a.headers[i].value, upgrade());
        assert(same_header_but_for_case(a.headers[i], b.headers[i]));
        lemma_has_token_ignores_case(a.headers[i].value, b.headers[i].value, upgrade());
        assert(is_named(b.headers[i], connection()));
    }
}

} // verus!
