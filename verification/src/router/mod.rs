//! The router: replicated state, dispatcher and session protocol.

pub mod handshake;
pub mod machine;
pub mod messaging;
pub mod pubsub;

pub use self::machine::{
    Dispatch, DispatchView, RequestError, RouterChange, RouterChangeView, RouterInfo,
    RouterProperty, RouterPropertyValue,
};

use crate::error::{Error, ErrorKind};
use crate::messages::{
    same_string, ErrorType, MatchingPolicy, Message, MessageView, Reason, URI,
};
use crate::router::pubsub::patterns::{
    has_subscription, segments, subscribed, subscription_id, unsubscribed, DirectoryView,
};
use crate::router::pubsub::SubscriptionPatternNode;
use rand::distributions::{Distribution, Range};
use rand::thread_rng;
use std::collections::{HashMap, HashSet};
use vstd::prelude::*;
use vstd::std_specs::hash::spec_hash_map_iter;
use vstd::std_specs::iter::IteratorSpec;

verus! {

/// The name of the text sub-protocol.
pub const WAMP_JSON: &'static str = "wamp.2.json";

/// The name of the binary sub-protocol.
pub const WAMP_MSGPACK: &'static str = "wamp.2.msgpack";

/// One more than the largest id that is ever drawn.
pub const ID_LIMIT: u64 = 0x00ff_ffff_ffff_ffff;

/// How far a session has come. A session only ever moves forward through
/// these states.
#[derive(Debug, Clone, Copy, PartialEq, Eq, Structural)]
pub enum ConnectionState {
    Initializing,
    Connected,
    ShuttingDown,
    Disconnected,
}

impl ConnectionState {
    /// The place of the state in the life of a session.
    pub open spec fn rank(self) -> nat {
        match self {
            ConnectionState::Initializing => 0,
            ConnectionState::Connected => 1,
            ConnectionState::ShuttingDown => 2,
            ConnectionState::Disconnected => 3,
        }
    }

    /// Whether a session in this state may go on to `next`: it may stay
    /// where it is or move forward, never back.
    pub fn may_become(self, next: ConnectionState) -> (r: bool)
        ensures
            r == (self.rank() <= next.rank()),
    {
        match self {
            ConnectionState::Initializing => true,
            ConnectionState::Connected => match next {
                ConnectionState::Initializing => false,
                _ => true,
            },
            ConnectionState::ShuttingDown => match next {
                ConnectionState::ShuttingDown | ConnectionState::Disconnected => true,
                _ => false,
            },
            ConnectionState::Disconnected => match next {
                ConnectionState::Disconnected => true,
                _ => false,
            },
        }
    }
}

/// What the router records of one connection.
#[derive(Debug, PartialEq)]
pub struct ConnectionInfo {
    pub state: ConnectionState,
    /// The sub-protocol agreed on at the transport handshake; empty until
    /// then.
    pub protocol: String,
    pub id: u64,
}

/// What a [`ConnectionInfo`] holds.
pub struct ConnectionInfoView {
    pub state: ConnectionState,
    pub protocol: Seq<char>,
    pub id: u64,
}

impl View for ConnectionInfo {
    type V = ConnectionInfoView;

    open spec fn view(&self) -> ConnectionInfoView {
        ConnectionInfoView { state: self.state, protocol: self.protocol@, id: self.id }
    }
}

impl Clone for ConnectionInfo {
    fn clone(&self) -> (r: ConnectionInfo)
        ensures
            r@ == self@,
    {
        ConnectionInfo { state: self.state, protocol: self.protocol.clone(), id: self.id }
    }
}

/// The record of a connection that has just been accepted.
pub open spec fn accepted(id: u64) -> ConnectionInfoView {
    ConnectionInfoView { state: ConnectionState::Initializing, protocol: Seq::empty(), id }
}

/// How messages to a connection are written.
#[derive(Debug, Clone, Copy, PartialEq, Eq, Structural)]
pub enum Encoding {
    Json,
    MsgPack,
}

/// The encoding that goes with a sub-protocol: the text encoding for
/// [`WAMP_JSON`], the binary encoding for every other name.
pub open spec fn encoding_of(protocol: Seq<char>) -> Encoding {
    if protocol == WAMP_JSON@ {
        Encoding::Json
    } else {
        Encoding::MsgPack
    }
}

/// The encoding that goes with the sub-protocol `protocol`.
pub fn encoding(protocol: &str) -> (r: Encoding)
    ensures
        r == encoding_of(protocol@),
{
    if same_string(protocol, WAMP_JSON) {
        Encoding::Json
    } else {
        Encoding::MsgPack
    }
}

/// Draws a number below `limit` with `rand`'s thread-local generator:
/// `Range::new(0, limit)` samples the half-open range from 0 to `limit`.
/// The contract claims no more than that range; the call panics on an empty
/// range, which `requires` leaves out.
#[verifier::external_body]
fn random_below(limit: u64) -> (r: u64)
    requires
        0 < limit,
    ensures
        r < limit,
{
    let mut rng = thread_rng();
    let between = Range::new(0, limit);
    between.sample(&mut rng)
}

/// A fresh id for a connection, a subscription or a publication: a number
/// of at most 56 bits, drawn at random.
pub fn random_id() -> (r: u64)
    ensures
        r < ID_LIMIT,
{
    random_below(ID_LIMIT)
}

/// What a node does for a connection whose transport it holds.
#[derive(Debug, PartialEq)]
pub enum Effect {
    /// Write `message` to the connection's socket in the given encoding.
    Deliver { connection_id: u64, encoding: Encoding, message: Message },
    /// Shut the connection's socket down.
    Shutdown { connection_id: u64 },
}

/// What an [`Effect`] holds.
pub enum EffectView {
    Deliver { connection_id: u64, encoding: Encoding, message: MessageView },
    Shutdown { connection_id: u64 },
}

impl View for Effect {
    type V = EffectView;

    open spec fn view(&self) -> EffectView {
        match *self {
            Effect::Deliver { connection_id, encoding, message } => EffectView::Deliver {
                connection_id,
                encoding,
                message: message@,
            },
            Effect::Shutdown { connection_id } => EffectView::Shutdown { connection_id },
        }
    }
}

/// What an optional effect holds.
pub open spec fn effect_view(effect: Option<Effect>) -> Option<EffectView> {
    match effect {
        Some(e) => Some(e@),
        None => None,
    }
}

/// The replicated state of the router as plain mathematics.
pub struct RouterCoreView {
    /// The subscription directory.
    pub subscriptions: DirectoryView,
    /// For each subscription id the URI it was given for, and whether it
    /// is the id of the URI's prefix subscribers.
    pub subscription_ids_to_uris: Map<u64, (Seq<char>, bool)>,
    /// The connection registry.
    pub connections: Map<u64, ConnectionInfoView>,
}

/// The delivery of `message` to a connection, for the node that holds the
/// connection's transport; nothing for every other node.
pub open spec fn delivery(
    senders: Set<u64>,
    connection_id: u64,
    protocol: Seq<char>,
    message: MessageView,
) -> Option<EffectView> {
    if senders.contains(connection_id) {
        Some(EffectView::Deliver { connection_id, encoding: encoding_of(protocol), message })
    } else {
        None
    }
}

impl RouterCoreView {
    /// The state of a router that has applied no command.
    pub open spec fn empty() -> RouterCoreView {
        RouterCoreView {
            subscriptions: Map::empty(),
            subscription_ids_to_uris: Map::empty(),
            connections: Map::empty(),
        }
    }

    /// The state after a connection was accepted. A record that the id
    /// already had is replaced.
    pub open spec fn add_connection(self, id: u64) -> RouterCoreView {
        RouterCoreView { connections: self.connections.insert(id, accepted(id)), ..self }
    }

    /// The state after a connection's record was dropped.
    pub open spec fn remove_connection(self, id: u64) -> RouterCoreView {
        RouterCoreView { connections: self.connections.remove(id), ..self }
    }

    /// Whether the connection is registered and may go on to `state`.
    pub open spec fn can_set_state(self, id: u64, state: ConnectionState) -> bool {
        self.connections.dom().contains(id) && self.connections[id].state.rank() <= state.rank()
    }

    /// The state after the connection has gone on to `state`.
    pub open spec fn set_state(self, id: u64, state: ConnectionState) -> RouterCoreView {
        RouterCoreView {
            connections: self.connections.insert(
                id,
                ConnectionInfoView { state, ..self.connections[id] },
            ),
            ..self
        }
    }

    /// Whether the connection is registered and has no sub-protocol yet.
    pub open spec fn can_set_protocol(self, id: u64) -> bool {
        self.connections.dom().contains(id) && self.connections[id].protocol.len() == 0
    }

    /// The state after the connection's sub-protocol was fixed.
    pub open spec fn set_protocol(self, id: u64, protocol: Seq<char>) -> RouterCoreView {
        RouterCoreView {
            connections: self.connections.insert(
                id,
                ConnectionInfoView { protocol, ..self.connections[id] },
            ),
            ..self
        }
    }

    /// The id that a subscription to `topic` gets.
    pub open spec fn subscription_id(
        self,
        topic: Seq<char>,
        policy: MatchingPolicy,
        id: u64,
        prefix_id: u64,
    ) -> u64 {
        subscription_id(self.subscriptions, segments(topic), policy, id, prefix_id)
    }

    /// Whether the id that a subscription to `topic` would be told is
    /// already recorded for another URI, or for the other kind of
    /// subscribers of this one.
    pub open spec fn id_is_taken(
        self,
        topic: Seq<char>,
        policy: MatchingPolicy,
        id: u64,
        prefix_id: u64,
    ) -> bool {
        let own = self.subscription_id(topic, policy, id, prefix_id);
        self.subscription_ids_to_uris.dom().contains(own) && self.subscription_ids_to_uris[own]
            != (topic, policy == MatchingPolicy::Prefix)
    }

    /// Whether `connection_id` can subscribe to `topic`: it is registered
    /// and the id of the subscription is free to stand for it.
    pub open spec fn can_add_subscription(
        self,
        connection_id: u64,
        topic: Seq<char>,
        policy: MatchingPolicy,
        id: u64,
        prefix_id: u64,
    ) -> bool {
        self.connections.dom().contains(connection_id) && !self.id_is_taken(
            topic,
            policy,
            id,
            prefix_id,
        )
    }

    /// Whether `id` is recorded as an id of the URI `topic`.
    pub open spec fn names(self, id: u64, topic: Seq<char>) -> bool {
        self.subscription_ids_to_uris.dom().contains(id) && self.subscription_ids_to_uris[id].0
            == topic
    }

    /// Whether the recorded id `a` comes before the recorded id `b`: the id
    /// of exact and wildcard subscribers before that of prefix subscribers,
    /// and of two ids of one kind the smaller first.
    pub open spec fn comes_first(self, a: u64, b: u64) -> bool {
        let prefix_a = self.subscription_ids_to_uris[a].1;
        let prefix_b = self.subscription_ids_to_uris[b].1;
        (!prefix_a && prefix_b) || (prefix_a == prefix_b && a <= b)
    }

    /// Whether `id` is the id that stands for the URI `topic`: the first of
    /// those recorded for it.
    pub open spec fn is_topic_id(self, id: u64, topic: Seq<char>) -> bool {
        self.names(id, topic) && forall|other: u64| #[trigger]
            self.names(other, topic) ==> self.comes_first(id, other)
    }

    /// Whether any id is recorded for the URI `topic`.
    pub open spec fn has_topic_id(self, topic: Seq<char>) -> bool {
        exists|id: u64| #[trigger] self.names(id, topic)
    }

    /// The state after a registered connection has subscribed to `topic`.
    pub open spec fn add_subscription(
        self,
        connection_id: u64,
        topic: Seq<char>,
        policy: MatchingPolicy,
        id: u64,
        prefix_id: u64,
    ) -> RouterCoreView {
        RouterCoreView {
            subscriptions: subscribed(
                self.subscriptions,
                segments(topic),
                connection_id,
                policy,
                id,
                prefix_id,
            ),
            subscription_ids_to_uris: self.subscription_ids_to_uris.insert(
                self.subscription_id(topic, policy, id, prefix_id),
                (topic, policy == MatchingPolicy::Prefix),
            ),
            ..self
        }
    }

    /// Whether `connection_id` holds the subscription `subscription_id`.
    pub open spec fn can_remove_subscription(self, connection_id: u64, subscription_id: u64) -> bool {
        self.subscription_ids_to_uris.dom().contains(subscription_id) && has_subscription(
            self.subscriptions,
            segments(self.subscription_ids_to_uris[subscription_id].0),
            connection_id,
            self.subscription_ids_to_uris[subscription_id].1,
        )
    }

    /// The state after `connection_id` has given up `subscription_id`.
    pub open spec fn remove_subscription(
        self,
        connection_id: u64,
        subscription_id: u64,
    ) -> RouterCoreView {
        RouterCoreView {
            subscriptions: unsubscribed(
                self.subscriptions,
                segments(self.subscription_ids_to_uris[subscription_id].0),
                connection_id,
                self.subscription_ids_to_uris[subscription_id].1,
            ),
            ..self
        }
    }
}

#[derive(Debug)]
struct SubscriptionManager {
    subscriptions: SubscriptionPatternNode,
    subscription_ids_to_uris: HashMap<u64, (String, bool)>,
}

/// The replicated state of the router: the subscription directory and the
/// connection registry. Every node holds one and changes it only by
/// applying the commands of the log, in the log's order.
#[derive(Debug)]
pub struct RouterCore {
    subscription_manager: SubscriptionManager,
    connections: HashMap<u64, ConnectionInfo>,
}

/// What the records `m` hold.
pub open spec fn registry_view(m: Map<u64, ConnectionInfo>) -> Map<u64, ConnectionInfoView> {
    m.map_values(|c: ConnectionInfo| c@)
}

/// What the entries `m` hold.
pub open spec fn index_view(m: Map<u64, (String, bool)>) -> Map<u64, (Seq<char>, bool)> {
    m.map_values(|e: (String, bool)| (e.0@, e.1))
}

impl View for RouterCore {
    type V = RouterCoreView;

    closed spec fn view(&self) -> RouterCoreView {
        RouterCoreView {
            subscriptions: self.subscription_manager.subscriptions@,
            subscription_ids_to_uris: index_view(self.subscription_manager.subscription_ids_to_uris@),
            connections: registry_view(self.connections@),
        }
    }
}

impl RouterCore {
    /// The state of a router that has applied no command.
    pub fn new() -> (r: RouterCore)
        ensures
            r@ == RouterCoreView::empty(),
    {
        let r = RouterCore {
            subscription_manager: SubscriptionManager {
                subscriptions: SubscriptionPatternNode::new(),
                subscription_ids_to_uris: HashMap::new(),
            },
            connections: HashMap::new(),
        };
        assert(r@.connections =~= Map::empty());
        assert(r@.subscription_ids_to_uris =~= Map::empty());
        r
    }

    /// The delivery of `message` to the connection, if this node holds the
    /// connection's transport: `senders` are the connections whose
    /// transport it holds. Every other node does nothing.
    pub fn send_message(
        &self,
        senders: &HashSet<u64>,
        connection_id: u64,
        protocol: String,
        message: Message,
    ) -> (r: Option<Effect>)
        ensures
            effect_view(r) == delivery(senders@, connection_id, protocol@, message@),
    {
        broadcast use vstd::std_specs::hash::group_hash_axioms;

        if senders.contains(&connection_id) {
            Some(
                Effect::Deliver { connection_id, encoding: encoding(protocol.as_str()), message },
            )
        } else {
            None
        }
    }

    /// The shutdown of the connection's socket, if this node holds the
    /// connection's transport.
    pub fn shutdown_sender(&self, senders: &HashSet<u64>, id: &u64) -> (r: Option<Effect>)
        ensures
            effect_view(r) == (if senders@.contains(*id) {
                Some(EffectView::Shutdown { connection_id: *id })
            } else {
                None
            }),
    {
        broadcast use vstd::std_specs::hash::group_hash_axioms;

        if senders.contains(id) {
            Some(Effect::Shutdown { connection_id: *id })
        } else {
            None
        }
    }

    /// Moves a registered connection on to `state`. A connection that is
    /// not registered is reported as lost, a step backwards as an invalid
    /// state; either way nothing changes.
    pub fn set_state(&mut self, connection_id: u64, state: ConnectionState) -> (r: Result<
        (),
        Error,
    >)
        ensures
            r is Ok <==> old(self)@.can_set_state(connection_id, state),
            r is Ok ==> final(self)@ == old(self)@.set_state(connection_id, state),
            r is Err ==> final(self)@ == old(self)@,
            r matches Err(e) ==> if old(self)@.connections.dom().contains(connection_id) {
                e.kind is InvalidState
            } else {
                e.kind is ConnectionLost
            },
    {
        broadcast use vstd::std_specs::hash::group_hash_axioms;

        let ghost before = self@;
        let next = match self.connections.get(&connection_id) {
            None => {
                return Err(Error::new(ErrorKind::ConnectionLost));
            },
            Some(info) => {
                if !info.state.may_become(state) {
                    return Err(
                        Error::new(ErrorKind::InvalidState("a session does not move backwards")),
                    );
                }
                ConnectionInfo { state, protocol: info.protocol.clone(), id: info.id }
            },
        };
        self.connections.insert(connection_id, next);
        assert(self@.connections =~= before.set_state(connection_id, state).connections);
        Ok(())
    }

    /// Fixes the sub-protocol of a registered connection that has none
    /// yet. A connection that is not registered is reported as lost, one
    /// whose sub-protocol is already fixed as an invalid state; either way
    /// nothing changes.
    pub fn set_protocol(&mut self, connection_id: u64, protocol: String) -> (r: Result<(), Error>)
        ensures
            r is Ok <==> old(self)@.can_set_protocol(connection_id),
            r is Ok ==> final(self)@ == old(self)@.set_protocol(connection_id, protocol@),
            r is Err ==> final(self)@ == old(self)@,
            r matches Err(e) ==> if old(self)@.connections.dom().contains(connection_id) {
                e.kind is InvalidState
            } else {
                e.kind is ConnectionLost
            },
    {
        broadcast use vstd::std_specs::hash::group_hash_axioms;

        let ghost before = self@;
        let next = match self.connections.get(&connection_id) {
            None => {
                return Err(Error::new(ErrorKind::ConnectionLost));
            },
            Some(info) => {
                proof {
                    reveal_strlit("");
                }
                if !same_string(info.protocol.as_str(), "") {
                    assert(info.protocol@.len() != 0) by {
                        if info.protocol@.len() == 0 {
                            assert(info.protocol@ =~= ""@);
                        }
                    }
                    return Err(
                        Error::new(ErrorKind::InvalidState("the sub-protocol is already fixed")),
                    );
                }
                assert(info.protocol@ =~= Seq::<char>::empty());
                ConnectionInfo { state: info.state, protocol, id: info.id }
            },
        };
        self.connections.insert(connection_id, next);
        assert(self@.connections =~= before.set_protocol(connection_id, protocol@).connections);
        Ok(())
    }

    /// Registers a connection that has just been accepted.
    pub fn add_connection(&mut self, connection_id: u64)
        ensures
            final(self)@ == old(self)@.add_connection(connection_id),
    {
        broadcast use vstd::std_specs::hash::group_hash_axioms;

        let ghost before = self@;
        self.connections.insert(
            connection_id,
            ConnectionInfo {
                state: ConnectionState::Initializing,
                protocol: String::new(),
                id: connection_id,
            },
        );
        assert(self@.connections =~= before.add_connection(connection_id).connections);
    }

    /// Drops the record of a connection.
    pub fn remove_connection(&mut self, connection_id: u64)
        ensures
            final(self)@ == old(self)@.remove_connection(connection_id),
    {
        broadcast use vstd::std_specs::hash::group_hash_axioms;

        let ghost before = self@;
        self.connections.remove(&connection_id);
        assert(self@.connections =~= before.remove_connection(connection_id).connections);
    }
}

impl RouterCore {
    /// Subscribes a registered connection to `topic` and tells it the id
    /// of its subscription. The proposed ids `id` and `prefix_id` are used
    /// where the URI is subscribed for the first time.
    ///
    /// An id stands for one URI and one kind of subscribers. Where the id
    /// that the subscription would be told is already recorded for another
    /// URI or kind, the request fails with `InvalidArgument`; where the
    /// connection is not registered it is reported as lost. Either way
    /// nothing changes.
    pub fn add_subscription(
        &mut self,
        senders: &HashSet<u64>,
        connection_id: u64,
        request_id: u64,
        topic: URI,
        matching_policy: MatchingPolicy,
        id: u64,
        prefix_id: u64,
    ) -> (r: Result<Option<Effect>, Error>)
        ensures
            r is Ok <==> old(self)@.can_add_subscription(
                connection_id,
                topic@,
                matching_policy,
                id,
                prefix_id,
            ),
            r matches Ok(effect) ==> {
                &&& final(self)@ == old(self)@.add_subscription(
                    connection_id,
                    topic@,
                    matching_policy,
                    id,
                    prefix_id,
                )
                &&& effect_view(effect) == delivery(
                    senders@,
                    connection_id,
                    old(self)@.connections[connection_id].protocol,
                    MessageView::Subscribed(
                        request_id,
                        old(self)@.subscription_id(topic@, matching_policy, id, prefix_id),
                    ),
                )
            },
            r matches Err(e) ==> final(self)@ == old(self)@ && (if old(
                self,
            )@.connections.dom().contains(connection_id) {
                e.kind == ErrorKind::ErrorReason(
                    ErrorType::Subscribe,
                    request_id,
                    Reason::InvalidArgument,
                )
            } else {
                e.kind is ConnectionLost
            }),
    {
        broadcast use vstd::std_specs::hash::group_hash_axioms;

        let ghost before = self@;
        let protocol = match self.connections.get(&connection_id) {
            Some(info) => info.protocol.clone(),
            None => {
                return Err(Error::new(ErrorKind::ConnectionLost));
            },
        };
        let is_prefix = matching_policy == MatchingPolicy::Prefix;
        let own = match self.subscription_manager.subscriptions.topic_ids(topic.uri.as_str()) {
            Some((exact, prefix)) => if is_prefix {
                prefix
            } else {
                exact
            },
            None => if is_prefix {
                prefix_id
            } else {
                id
            },
        };
        assert(own == before.subscription_id(topic@, matching_policy, id, prefix_id));
        match self.subscription_manager.subscription_ids_to_uris.get(&own) {
            Some(entry) => {
                if !(same_string(entry.0.as_str(), topic.uri.as_str()) && entry.1 == is_prefix) {
                    return Err(
                        Error::new(
                            ErrorKind::ErrorReason(
                                ErrorType::Subscribe,
                                request_id,
                                Reason::InvalidArgument,
                            ),
                        ),
                    );
                }
            },
            None => {},
        }
        let topic_id = self.subscription_manager.subscriptions.subscribe_with(
            &topic,
            connection_id,
            matching_policy,
            id,
            prefix_id,
        );
        self.subscription_manager.subscription_ids_to_uris.insert(topic_id, (topic.uri, is_prefix));
        proof {
            let after = before.add_subscription(
                connection_id,
                topic@,
                matching_policy,
                id,
                prefix_id,
            );
            assert(self@.subscription_ids_to_uris =~= after.subscription_ids_to_uris);
        }
        Ok(
            self.send_message(
                senders,
                connection_id,
                protocol,
                Message::Subscribed(request_id, topic_id),
            ),
        )
    }

    /// Takes the subscription `subscription_id` of `connection_id` out of
    /// the directory and tells the connection so, if it is still
    /// registered. Where the connection holds no such subscription nothing
    /// changes and the request fails with `NoSuchSubscription`.
    pub fn remove_subscription(
        &mut self,
        senders: &HashSet<u64>,
        connection_id: &u64,
        subscription_id: &u64,
        request_id: &u64,
    ) -> (r: Result<Option<Effect>, Error>)
        ensures
            r is Ok <==> old(self)@.can_remove_subscription(*connection_id, *subscription_id),
            r matches Ok(effect) ==> {
                &&& final(self)@ == old(self)@.remove_subscription(
                    *connection_id,
                    *subscription_id,
                )
                &&& effect_view(effect) == (if old(self)@.connections.dom().contains(
                    *connection_id,
                ) {
                    delivery(
                        senders@,
                        *connection_id,
                        old(self)@.connections[*connection_id].protocol,
                        MessageView::Unsubscribed(*request_id),
                    )
                } else {
                    None
                })
            },
            r matches Err(e) ==> final(self)@ == old(self)@ && e.kind == ErrorKind::ErrorReason(
                ErrorType::Unsubscribe,
                *request_id,
                Reason::NoSuchSubscription,
            ),
    {
        broadcast use vstd::std_specs::hash::group_hash_axioms;

        let removed = match self.subscription_manager.subscription_ids_to_uris.get(
            subscription_id,
        ) {
            Some(entry) => self.subscription_manager.subscriptions.unsubscribe_with(
                entry.0.as_str(),
                connection_id,
                entry.1,
            ),
            None => Err(crate::router::pubsub::patterns::PatternError::NoSuchSubscription),
        };
        if removed.is_err() {
            return Err(
                Error::new(
                    ErrorKind::ErrorReason(
                        ErrorType::Unsubscribe,
                        *request_id,
                        Reason::NoSuchSubscription,
                    ),
                ),
            );
        }
        match self.connections.get(connection_id) {
            Some(info) => {
                let protocol = info.protocol.clone();
                Ok(
                    self.send_message(
                        senders,
                        *connection_id,
                        protocol,
                        Message::Unsubscribed(*request_id),
                    ),
                )
            },
            None => Ok(None),
        }
    }
}

impl RouterCore {
    /// The record of a connection, if it is registered.
    pub fn connection(&self, connection_id: u64) -> (r: Option<&ConnectionInfo>)
        ensures
            match r {
                Some(info) => self@.connections.dom().contains(connection_id) && info@
                    == self@.connections[connection_id],
                None => !self@.connections.dom().contains(connection_id),
            },
    {
        broadcast use vstd::std_specs::hash::group_hash_axioms;

        self.connections.get(&connection_id)
    }
}

impl RouterCore {
    /// The subscription directory.
    pub fn subscriptions(&self) -> (r: &SubscriptionPatternNode)
        ensures
            r@ == self@.subscriptions,
    {
        &self.subscription_manager.subscriptions
    }

    /// The connection registry.
    pub fn connections(&self) -> (r: &HashMap<u64, ConnectionInfo>)
        ensures
            registry_view(r@) == self@.connections,
    {
        &self.connections
    }
}

impl RouterCore {
    /// The id that stands for the URI `topic`, if any is recorded for it:
    /// the id of its exact and wildcard subscribers where they have one,
    /// else the id of its prefix subscribers.
    pub fn topic_id(&self, topic: &str) -> (r: Option<u64>)
        ensures
            r is Some <==> self@.has_topic_id(topic@),
            r matches Some(id) ==> self@.is_topic_id(id, topic@),
    {
        broadcast use vstd::std_specs::hash::group_hash_axioms;

        let index = &self.subscription_manager.subscription_ids_to_uris;
        let ghost view = self@;
        let ghost all = spec_hash_map_iter(index).remaining();
        let mut best: Option<(u64, bool)> = None;
        for pair in it: index.iter()
            invariant
                view == self@,
                index == &self.subscription_manager.subscription_ids_to_uris,
                it.seq() == all,
                all == spec_hash_map_iter(index).remaining(),
                match best {
                    Some((id, prefix)) => view.names(id, topic@) && prefix
                        == view.subscription_ids_to_uris[id].1 && forall|j: int|
                        0 <= j < it.index() && view.names(*(#[trigger] all[j]).0, topic@)
                            ==> view.comes_first(id, *all[j].0),
                    None => forall|j: int|
                        0 <= j < it.index() ==> !view.names(*(#[trigger] all[j]).0, topic@),
                },
        {
            let (id, entry) = pair;
            proof {
                let j = it.index() as int;
                assert(all[j] == pair);
                assert(index@.contains_key(*all[j].0) && index@[*all[j].0] == *all[j].1);
            }
            if same_string(entry.0.as_str(), topic) {
                let better = match best {
                    Some((other, prefix)) => (!entry.1 && prefix) || (entry.1 == prefix && *id
                        < other),
                    None => true,
                };
                if better {
                    best = Some((*id, entry.1));
                }
            }
        }
        proof {
            assert forall|other: u64| #[trigger] view.names(other, topic@) implies (best
                matches Some((id, _)) && view.comes_first(id, other)) by {
                assert(index@.contains_key(other));
                let found = (&other, &index@[other]);
                assert(all.contains(found));
                let j = choose|j: int| 0 <= j < all.len() && all[j] == found;
                assert(*all[j].0 == other);
            }
        }
        match best {
            Some((id, _)) => Some(id),
            None => None,
        }
    }
}

/// One step that the program around the router takes for a session. The
/// steps of a list are taken in order.
#[derive(Debug, PartialEq)]
pub enum Action {
    /// Commit the command through the cluster and wait until it is applied.
    Propose(RouterChange),
    /// Get `message` to the connection, by the dispatcher's decision.
    Send { connection_id: u64, message: Message },
    /// Close the session's own socket in the normal way.
    Close,
    /// Answer the transport handshake with the given sub-protocol.
    AcceptProtocol(String),
}

/// What an [`Action`] holds.
pub enum ActionView {
    Propose(RouterChangeView),
    Send { connection_id: u64, message: MessageView },
    Close,
    AcceptProtocol(Seq<char>),
}

impl View for Action {
    type V = ActionView;

    open spec fn view(&self) -> ActionView {
        match *self {
            Action::Propose(change) => ActionView::Propose(change@),
            Action::Send { connection_id, message } => ActionView::Send {
                connection_id,
                message: message@,
            },
            Action::Close => ActionView::Close,
            Action::AcceptProtocol(protocol) => ActionView::AcceptProtocol(protocol@),
        }
    }
}

/// What the actions `actions` hold, in order.
pub open spec fn actions_view(actions: Seq<Action>) -> Seq<ActionView> {
    Seq::new(actions.len(), |i: int| actions[i]@)
}

/// The session of one connection: its id and the subscriptions that it
/// holds.
#[derive(Debug)]
pub struct ConnectionHandler {
    info_id: u64,
    subscribed_topics: Vec<u64>,
}

impl ConnectionHandler {
    /// The id of the session's connection.
    pub closed spec fn id(self) -> u64 {
        self.info_id
    }

    /// The ids of the subscriptions that the session holds, oldest first.
    pub closed spec fn subscribed(self) -> Seq<u64> {
        self.subscribed_topics@
    }

    /// The session of a connection that has just been accepted.
    pub fn new(info_id: u64) -> (r: ConnectionHandler)
        ensures
            r.id() == info_id,
            r.subscribed() == Seq::<u64>::empty(),
    {
        ConnectionHandler { info_id, subscribed_topics: Vec::new() }
    }

    /// The id of the session's connection.
    pub fn info_id(&self) -> (r: u64)
        ensures
            r == self.id(),
    {
        self.info_id
    }

    /// The ids of the subscriptions that the session holds.
    pub fn subscribed_topics(&self) -> (r: &Vec<u64>)
        ensures
            r@ == self.subscribed(),
    {
        &self.subscribed_topics
    }
}

/// The commands that give up the subscriptions `ids` of a connection, one
/// for each id, in order. They answer no request, so they carry the
/// request id 0.
pub open spec fn unsubscriptions(connection_id: u64, ids: Seq<u64>) -> Seq<ActionView> {
    Seq::new(
        ids.len(),
        |i: int|
            ActionView::Propose(
                RouterChangeView::RemoveSubscription {
                    connection_id,
                    subscription_id: ids[i],
                    request_id: 0,
                },
            ),
    )
}

/// The steps that end a session for good: its subscriptions are given up,
/// then its record is dropped.
pub open spec fn removal(connection_id: u64, ids: Seq<u64>) -> Seq<ActionView> {
    unsubscriptions(connection_id, ids).push(
        ActionView::Propose(RouterChangeView::RemoveConnection { connection_id }),
    )
}

impl ConnectionHandler {
    /// Adds to `actions` the commands that give up the session's
    /// subscriptions.
    fn unsubscribe_all(&self, router: &RouterInfo, actions: &mut Vec<Action>) -> (r: Result<
        (),
        Error,
    >)
        ensures
            r is Ok <==> router.initialized() || self.subscribed().len() == 0,
            r is Ok ==> actions_view(final(actions)@) == actions_view(old(actions)@)
                + unsubscriptions(self.id(), self.subscribed()),
            r matches Err(e) ==> e.kind is InvalidState,
    {
        let ghost start = actions_view(actions@);
        let mut i: usize = 0;
        assert(actions_view(actions@) =~= start + unsubscriptions(
            self.id(),
            self.subscribed().take(0),
        ));
        while i < self.subscribed_topics.len()
            invariant
                i <= self.subscribed_topics.len(),
                i > 0 ==> router.initialized(),
                actions_view(actions@) == start + unsubscriptions(
                    self.id(),
                    self.subscribed().take(i as int),
                ),
            decreases self.subscribed_topics.len() - i,
        {
            let ghost before = actions_view(actions@);
            let change = router.remove_subscription(self.info_id, self.subscribed_topics[i], 0)?;
            let ghost proposed = change@;
            actions.push(Action::Propose(change));
            assert(actions_view(actions@) =~= before.push(ActionView::Propose(proposed)));
            assert(self.subscribed().take(i + 1)[i as int] == self.subscribed()[i as int]);
            assert(unsubscriptions(self.id(), self.subscribed().take(i + 1)) =~= unsubscriptions(
                self.id(),
                self.subscribed().take(i as int),
            ).push(ActionView::Propose(proposed)));
            i += 1;
        }
        assert(self.subscribed().take(self.subscribed().len() as int) =~= self.subscribed());
        Ok(())
    }

    /// The steps that end the session for good: every subscription that it
    /// holds is given up, then its record is dropped.
    pub fn remove(&self, router: &mut RouterInfo) -> (r: Result<Vec<Action>, Error>)
        ensures
            final(router).initialized() == old(router).initialized(),
            r is Ok <==> old(router).initialized(),
            r matches Ok(actions) ==> {
                &&& actions_view(actions@) == removal(self.id(), self.subscribed())
                &&& final(router).held() == old(router).held().remove(self.id())
            },
            r matches Err(e) ==> e.kind is InvalidState,
    {
        let mut actions: Vec<Action> = Vec::new();
        assert(actions_view(actions@) =~= Seq::empty());
        let ghost before = *router;
        match self.unsubscribe_all(router, &mut actions) {
            Ok(()) => {},
            Err(e) => {
                return Err(e);
            },
        }
        let ghost listed = actions_view(actions@);
        let change = router.remove_connection(self.info_id)?;
        actions.push(Action::Propose(change));
        assert(actions_view(actions@) =~= removal(self.id(), self.subscribed()));
        Ok(actions)
    }

    /// The same as [`ConnectionHandler::remove`].
    pub fn terminate_connection(&self, router: &mut RouterInfo) -> (r: Result<Vec<Action>, Error>)
        ensures
            final(router).initialized() == old(router).initialized(),
            r is Ok <==> old(router).initialized(),
            r matches Ok(actions) ==> {
                &&& actions_view(actions@) == removal(self.id(), self.subscribed())
                &&& final(router).held() == old(router).held().remove(self.id())
            },
            r matches Err(e) ==> e.kind is InvalidState,
    {
        self.remove(router)
    }
}

/// What the router does with its connections when it shuts down.
#[derive(Debug, PartialEq)]
pub struct Shutdown {
    /// The steps to take at once.
    pub goodbyes: Vec<Action>,
    /// The steps to take when the sessions have had their time to answer.
    pub closes: Vec<Action>,
}

/// The steps that tell the connections `ids` that the router shuts down:
/// each is told goodbye, then its session is recorded as shutting down.
pub open spec fn shutdown_goodbyes(ids: Seq<u64>) -> Seq<ActionView>
    decreases ids.len(),
{
    if ids.len() == 0 {
        Seq::empty()
    } else {
        shutdown_goodbyes(ids.drop_last()).push(
            ActionView::Send {
                connection_id: ids.last(),
                message: MessageView::Goodbye(
                    crate::messages::ErrorDetailsView { message: None },
                    Reason::SystemShutdown@,
                ),
            },
        ).push(
            ActionView::Propose(
                RouterChangeView::SetState {
                    connection_id: ids.last(),
                    state: ConnectionState::ShuttingDown,
                },
            ),
        )
    }
}

/// The steps that shut the sockets of the connections `ids` down.
pub open spec fn shutdown_closes(ids: Seq<u64>) -> Seq<ActionView> {
    Seq::new(
        ids.len(),
        |i: int| ActionView::Propose(RouterChangeView::ShutdownSender { connection_id: ids[i] }),
    )
}

/// Plans the shutdown of the router for the registered connections
/// `connections`: first every session is told goodbye and recorded as
/// shutting down; later, when the sessions have had their time to answer,
/// every socket is shut down.
pub fn shutdown(router: &RouterInfo, connections: &Vec<u64>) -> (r: Result<Shutdown, Error>)
    ensures
        r is Ok <==> router.initialized() || connections@.len() == 0,
        r matches Ok(plan) ==> {
            &&& actions_view(plan.goodbyes@) == shutdown_goodbyes(connections@)
            &&& actions_view(plan.closes@) == shutdown_closes(connections@)
        },
        r matches Err(e) ==> e.kind is InvalidState,
{
    let mut goodbyes: Vec<Action> = Vec::new();
    let mut closes: Vec<Action> = Vec::new();
    let mut i: usize = 0;
    assert(connections@.take(0) =~= Seq::empty());
    assert(actions_view(goodbyes@) =~= shutdown_goodbyes(connections@.take(0)));
    assert(actions_view(closes@) =~= shutdown_closes(connections@.take(0)));
    while i < connections.len()
        invariant
            i <= connections.len(),
            i > 0 ==> router.initialized(),
            actions_view(goodbyes@) == shutdown_goodbyes(connections@.take(i as int)),
            actions_view(closes@) == shutdown_closes(connections@.take(i as int)),
        decreases connections.len() - i,
    {
        let id = connections[i];
        let ghost said = actions_view(goodbyes@);
        let ghost shut = actions_view(closes@);
        proof {
            assert(connections@.take(i + 1).drop_last() =~= connections@.take(i as int));
            assert(connections@.take(i + 1).last() == id);
        }
        let set = router.set_state(id, ConnectionState::ShuttingDown)?;
        let stop = router.shutdown_sender(&id)?;
        let ghost proposed = set@;
        let ghost stopped = stop@;
        goodbyes.push(
            Action::Send {
                connection_id: id,
                message: Message::Goodbye(
                    crate::messages::ErrorDetails::new(),
                    Reason::SystemShutdown,
                ),
            },
        );
        goodbyes.push(Action::Propose(set));
        closes.push(Action::Propose(stop));
        assert(actions_view(goodbyes@) =~= said.push(
            ActionView::Send {
                connection_id: id,
                message: MessageView::Goodbye(
                    crate::messages::ErrorDetailsView { message: None },
                    Reason::SystemShutdown@,
                ),
            },
        ).push(ActionView::Propose(proposed)));
        assert(actions_view(closes@) =~= shut.push(ActionView::Propose(stopped)));
        assert(shutdown_closes(connections@.take(i + 1)) =~= shut.push(
            ActionView::Propose(stopped),
        ));
        i += 1;
    }
    assert(connections@.take(connections@.len() as int) =~= connections@);
    Ok(Shutdown { goodbyes, closes })
}

} // verus!
