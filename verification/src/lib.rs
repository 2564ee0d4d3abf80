//! A presence registry: clients register an identity together with a
//! visibility policy, and other clients ask whether a given identity is
//! visible to them.
//!
//! The crate is pure request-in/response-out. It never touches a socket:
//! a caller hands it the bytes of one message and writes back the bytes it
//! returns.
//!
//! - [`identity`] and [`policy`] hold the data: who a client is, and who
//!   may discover it.
//! - [`registry`] holds the mapping from identity to policy, with its three
//!   operations: connect, disconnect and lookup.
//! - [`json`], [`codec`] and [`frame`] hold the wire protocol: where a
//!   message ends, which request it spells, and how a response is written.
//! - [`dispatch`] routes a request to the registry and runs an exchange
//!   from the bytes that arrive to the bytes that are sent.
//! - [`laws`] states what holds of all of this, whatever the inputs.

pub mod codec;
pub mod dispatch;
pub mod frame;
pub mod identity;
pub mod json;
pub mod laws;
pub mod policy;
pub mod registry;
pub mod request;
pub mod text;

pub use crate::identity::UserInfo;
pub use crate::policy::VisibilityKind;
pub use crate::registry::{Server, Visibility};
pub use crate::request::{
    ConnectRequest, DecodeError, DisconnectRequest, GetRequest, GetResponse, Request, Response,
    ServerError,
};
