//! A clustered publish/subscribe message router.
//!
//! Clients connect to any node of a cluster. Every node applies the same
//! ordered log of [`router::RouterChange`] commands to its own replica of the
//! connection registry and of the subscription directory, so that
//! subscriptions and deliveries behave as if one router served everyone.
//!
//! The crate holds the decisions of the router: the replicated state machine,
//! the subscription directory, the dispatcher that picks between a local
//! write and a forwarded delivery, the session protocol, and the shape of
//! each message on the wire. Sockets, the byte encodings and the consensus
//! transport are driven by the embedding program, which performs the
//! [`router::Action`]s and [`router::Effect`]s that this crate returns.

pub mod error;
pub mod messages;
pub mod node;
pub mod router;

pub use error::{Error, ErrorKind};
pub use messages::{Dict, List, MatchingPolicy, Message, Reason, Value, URI};

use vstd::prelude::*;

verus! {

/// Identifier of a connection, a request, a subscription or a publication.
pub type ID = u64;

/// The result of an operation of the router.
pub type WampResult<T> = Result<T, Error>;

} // verus!
