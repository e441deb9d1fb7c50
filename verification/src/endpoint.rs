//! From a request to the `101 Switching Protocols` response: the endpoint,
//! the handle a valid handshake yields, and the hand-over of the upgraded
//! connection to the caller's session.

use vstd::prelude::*;
use tokio_executor::DefaultExecutor;
use tungstenite::protocol::WebSocketConfig;
use crate::handshake::{outcome, validate, Accept, HandshakeError, Rejection};
use crate::request::Request;

verus! {

/// `tungstenite::protocol::WebSocketConfig`, the limits of an upgraded
/// connection. It is carried to the session, never looked into.
#[verifier::external_type_specification]
#[verifier::external_body]
pub struct ExWebSocketConfig(tungstenite::protocol::WebSocketConfig);

/// `tokio_executor::DefaultExecutor`, a handle to the executor of the
/// current context. It is carried to the session, never looked into.
#[verifier::external_type_specification]
#[verifier::external_body]
pub struct ExDefaultExecutor(tokio_executor::DefaultExecutor);

/// `DefaultExecutor::current` hands out a handle to whichever executor is
/// the default when something is spawned on it. Nothing is claimed of it.
pub assume_specification[ tokio_executor::DefaultExecutor::current ]() -> (executor:
    DefaultExecutor)
;

/// The endpoint that answers WebSocket handshake requests.
#[derive(Debug, Copy, Clone)]
pub struct WsEndpoint {
    _priv: (),
}

/// Creates the endpoint that answers WebSocket handshake requests.
pub fn ws() -> WsEndpoint {
    WsEndpoint { _priv: () }
}

/// The pending answer of a `WsEndpoint` to one request.
#[derive(Debug)]
pub struct WsFuture {
    _priv: (),
}

/// What a valid handshake yields: the accept value, and how the upgraded
/// connection is to be configured and scheduled.
#[derive(Debug)]
pub struct Ws<Exec = DefaultExecutor> {
    accept: Accept,
    config: Option<WebSocketConfig>,
    executor: Exec,
}

/// A `Ws` as plain values.
pub struct WsView<Exec> {
    pub accept: Seq<char>,
    pub config: Option<WebSocketConfig>,
    pub executor: Exec,
}

impl<Exec> View for Ws<Exec> {
    type V = WsView<Exec>;

    closed spec fn view(&self) -> WsView<Exec> {
        WsView { accept: self.accept@, config: self.config, executor: self.executor }
    }
}

impl WsEndpoint {
    /// Starts answering a request. Every request gets a future; whether it
    /// is a handshake is decided when the future is polled.
    pub fn apply(&self) -> WsFuture {
        WsFuture { _priv: () }
    }
}

impl WsFuture {
    /// Validates the request and, if it is a handshake, yields the handle
    /// for the upgrade: no configuration yet, and the default executor. The
    /// answer is ready at once, every time.
    pub fn poll(&mut self, request: &Request) -> (res: Result<Ws, HandshakeError>)
        ensures
            match res {
                Ok(ws) => outcome(request@) == Ok::<Seq<char>, Rejection>(ws@.accept)
                    && ws@.config is None,
                Err(error) => outcome(request@) == Err::<Seq<char>, Rejection>(error@),
            },
    {
        match validate(request) {
            Ok(accept) => Ok(Ws { accept, config: None, executor: DefaultExecutor::current() }),
            Err(error) => Err(error),
        }
    }
}

impl<Exec> Ws<Exec> {
    /// Sets the configuration of the upgraded connection.
    pub fn config(self, config: WebSocketConfig) -> (ws: Ws<Exec>)
        ensures
            ws@ == (WsView { config: Some(config), ..self@ }),
    {
        Ws { accept: self.accept, config: Some(config), executor: self.executor }
    }

    /// Sets the executor on which the session of the upgraded connection
    /// is spawned.
    pub fn executor<T>(self, executor: T) -> (ws: Ws<T>)
        ensures
            ws@ == (WsView { accept: self@.accept, config: self@.config, executor }),
    {
        Ws { accept: self.accept, config: self.config, executor }
    }

    /// Adds the session to run on the upgraded connection, which completes
    /// what `respond` needs.
    pub fn on_upgrade<F>(self, upgrade: F) -> (output: WsOutput<F, Exec>)
        ensures
            output@ == (WsOutputView {
                accept: self@.accept,
                config: self@.config,
                upgrade,
                executor: self@.executor,
            }),
    {
        WsOutput { accept: self.accept, config: self.config, upgrade, executor: self.executor }
    }
}

/// A handshake that is ready to be answered: the accept value, and the
/// session to spawn once the connection is upgraded.
#[derive(Debug)]
pub struct WsOutput<F, Exec> {
    accept: Accept,
    config: Option<WebSocketConfig>,
    upgrade: F,
    executor: Exec,
}

/// A `WsOutput` as plain values.
pub struct WsOutputView<F, Exec> {
    pub accept: Seq<char>,
    pub config: Option<WebSocketConfig>,
    pub upgrade: F,
    pub executor: Exec,
}

impl<F, Exec> View for WsOutput<F, Exec> {
    type V = WsOutputView<F, Exec>;

    closed spec fn view(&self) -> WsOutputView<F, Exec> {
        WsOutputView {
            accept: self.accept@,
            config: self.config,
            upgrade: self.upgrade,
            executor: self.executor,
        }
    }
}

/// The head of the response that completes a handshake. It has no body.
#[derive(Debug, Clone, PartialEq, Eq)]
pub struct Response {
    /// The status code.
    pub status: u16,
    /// The value of the `Connection` header.
    pub connection: String,
    /// The value of the `Upgrade` header.
    pub upgrade: String,
    /// The value of the `Sec-WebSocket-Accept` header.
    pub sec_websocket_accept: String,
}

/// The status code of `101 Switching Protocols`.
pub const SWITCHING_PROTOCOLS: u16 = 101;

impl Response {
    /// The response is `101 Switching Protocols` with `Connection: upgrade`,
    /// `Upgrade: websocket` and the given accept value.
    pub open spec fn switches_protocols(&self, accept: Seq<char>) -> bool {
        &&& self.status == SWITCHING_PROTOCOLS
        &&& self.connection@ == "upgrade"@
        &&& self.upgrade@ == "websocket"@
        &&& self.sec_websocket_accept@ == accept
    }

    /// Builds the response that accepts a handshake.
    pub fn switching_protocols(accept: Accept) -> (response: Response)
        ensures
            response.switches_protocols(accept@),
    {
        Response {
            status: SWITCHING_PROTOCOLS,
            connection: "upgrade".to_owned(),
            upgrade: "websocket".to_owned(),
            sec_websocket_accept: accept.into_hash(),
        }
    }

    /// The body of the response, which is empty.
    pub fn body(&self) -> (body: &'static str)
        ensures
            body@.len() == 0,
    {
        proof {
            reveal_strlit("");
        }
        ""
    }
}

/// Why a valid handshake got no response.
#[derive(Debug, Clone, PartialEq, Eq)]
pub enum RespondError<E> {
    /// The payload of the request, which carries the connection to upgrade,
    /// was taken before the response was built.
    StolenPayload,
    /// The executor did not accept the session.
    Spawn(E),
}

/// The status code of `500 Internal Server Error`.
pub const INTERNAL_SERVER_ERROR: u16 = 500;

impl<E> RespondError<E> {
    /// The status with which the request is to be refused. The handshake
    /// was valid, so the fault is the server's: `500 Internal Server Error`.
    pub fn status_code(&self) -> (code: u16)
        ensures
            code == INTERNAL_SERVER_ERROR,
    {
        INTERNAL_SERVER_ERROR
    }
}

/// What is answered once the executor has been asked to run the session:
/// the `101` response if it took the session, its error if it did not.
pub fn respond_spawned<E>(accept: Accept, spawned: Result<(), E>) -> (res: Result<
    Response,
    RespondError<E>,
>)
    ensures
        match spawned {
            Ok(_) => res matches Ok(response) && response.switches_protocols(accept@),
            Err(error) => res == Err::<Response, RespondError<E>>(RespondError::Spawn(error)),
        },
{
    match spawned {
        Ok(_) => Ok(Response::switching_protocols(accept)),
        Err(error) => Err(RespondError::Spawn(error)),
    }
}

impl<F, Exec> WsOutput<F, Exec> {
    /// Answers the handshake. `payload` is the payload of the request, if it
    /// is still there; `spawn` builds the session from the configuration,
    /// the `on_upgrade` function and the payload, and hands it to the
    /// executor. Without a payload nothing is spawned and the answer is
    /// `StolenPayload`. Otherwise `spawn` is called once, and the answer is
    /// the `101` response if the session was accepted and the executor's
    /// error if it was not.
    pub fn respond<P, E, S>(self, payload: Option<P>, spawn: S) -> (res: Result<
        Response,
        RespondError<E>,
    >) where S: FnOnce(Exec, Option<WebSocketConfig>, F, P) -> Result<(), E>
        requires
            payload matches Some(p) ==> call_requires(
                spawn,
                (self@.executor, self@.config, self@.upgrade, p),
            ),
        ensures
            match payload {
                None => res == Err::<Response, RespondError<E>>(RespondError::StolenPayload),
                Some(p) => exists|spawned: Result<(), E>|
                    {
                        &&& call_ensures(
                            spawn,
                            (self@.executor, self@.config, self@.upgrade, p),
                            spawned,
                        )
                        &&& match spawned {
                            Ok(_) => res matches Ok(response) && response.switches_protocols(
                                self@.accept,
                            ),
                            Err(error) => res == Err::<Response, RespondError<E>>(
                                RespondError::Spawn(error),
                            ),
                        }
                    },
            },
    {
        let payload = match payload {
            Some(payload) => payload,
            None => return Err(RespondError::StolenPayload),
        };
        let spawned = spawn(self.executor, self.config, self.upgrade, payload);
        respond_spawned(self.accept, spawned)
    }
}

} // verus!
