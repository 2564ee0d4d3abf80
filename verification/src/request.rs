//! The typed requests and responses of the protocol.

use vstd::prelude::*;
use crate::identity::{IdentityView, UserInfo};
use crate::policy::{PolicyView, VisibilityKind};

verus! {

/// Registers `info` under `visibility`.
#[derive(Debug)]
pub struct ConnectRequest {
    pub info: UserInfo,
    pub visibility: VisibilityKind,
}

/// Removes `info` from the registry.
#[derive(Debug)]
pub struct DisconnectRequest {
    pub info: UserInfo,
}

/// Asks on behalf of `requester` whether `target` is visible.
#[derive(Debug)]
pub struct GetRequest {
    pub requester: UserInfo,
    pub target: UserInfo,
}

/// The answer to a [`GetRequest`]. `visible` is `false` both for a target
/// that hides from the requester and for one that is not registered.
#[derive(Debug)]
pub struct GetResponse {
    pub target: UserInfo,
    pub visible: bool,
}

/// One request of a client.
#[derive(Debug)]
pub enum Request {
    Ping,
    Connect(ConnectRequest),
    Disconnect(DisconnectRequest),
    Get(GetRequest),
}

/// Why a payload is no request.
#[derive(Clone, Copy, Debug, PartialEq, Eq, Structural)]
pub enum DecodeError {
    /// The discriminator names no request of the protocol.
    UnknownType,
    /// The payload is no JSON object, has no textual discriminator, or
    /// lacks a field of the request it names or has one of the wrong shape.
    Malformed,
}

/// Why a request was not served.
#[derive(Clone, Copy, Debug, PartialEq, Eq, Structural)]
pub enum ServerError {
    /// The payload could not be decoded.
    Decode(DecodeError),
    /// A handler was given a request of another kind than the one it
    /// serves.
    ProtocolMismatch,
}

impl From<DecodeError> for ServerError {
    fn from(error: DecodeError) -> (wrapped: ServerError) {
        ServerError::Decode(error)
    }
}

impl vstd::std_specs::convert::FromSpecImpl<DecodeError> for ServerError {
    open spec fn obeys_from_spec() -> bool {
        true
    }

    open spec fn from_spec(error: DecodeError) -> ServerError {
        ServerError::Decode(error)
    }
}

/// What is sent back for one request.
#[derive(Debug)]
pub enum Response {
    /// The acknowledgement of a ping.
    Pong,
    /// The acknowledgement of a connect or a disconnect.
    Accepted,
    /// The answer to a get.
    Found(GetResponse),
    /// The request was not served.
    Failed(ServerError),
}

/// The mathematical value of a [`Request`].
pub enum RequestView {
    Ping,
    Connect { info: IdentityView, visibility: PolicyView },
    Disconnect { info: IdentityView },
    Get { requester: IdentityView, target: IdentityView },
}

/// The mathematical value of a [`Response`].
pub enum ResponseView {
    Pong,
    Accepted,
    Found { target: IdentityView, visible: bool },
    Failed(ServerError),
}

impl View for Request {
    type V = RequestView;

    open spec fn view(&self) -> RequestView {
        match self {
            Request::Ping => RequestView::Ping,
            Request::Connect(connect) => RequestView::Connect {
                info: connect.info@,
                visibility: connect.visibility@,
            },
            Request::Disconnect(disconnect) => RequestView::Disconnect { info: disconnect.info@ },
            Request::Get(get) => RequestView::Get {
                requester: get.requester@,
                target: get.target@,
            },
        }
    }
}

impl View for Response {
    type V = ResponseView;

    open spec fn view(&self) -> ResponseView {
        match self {
            Response::Pong => ResponseView::Pong,
            Response::Accepted => ResponseView::Accepted,
            Response::Found(found) => ResponseView::Found {
                target: found.target@,
                visible: found.visible,
            },
            Response::Failed(error) => ResponseView::Failed(*error),
        }
    }
}

} // verus!
