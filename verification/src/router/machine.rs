//! The commands that change the replicated state, and the queries on it.

use crate::error::{Error, ErrorKind};
use crate::messages::{ErrorType, MatchingPolicy, Message, MessageView, Reason, URI};
use crate::router::pubsub::patterns::segments;
use crate::router::pubsub::SubscriptionPatternNode;
use crate::router::{
    delivery, effect_view, encoding, encoding_of, registry_view, ConnectionInfo,
    ConnectionInfoView, ConnectionState, Effect, EffectView, RouterCore, RouterCoreView,
};
use std::collections::{HashMap, HashSet};
use vstd::prelude::*;

verus! {

/// A command of the replicated log. Every change to the registry or to the
/// directory is one of these.
#[derive(Debug, Clone, PartialEq)]
pub enum RouterChange {
    ShutdownSender { connection_id: u64 },
    SetState { connection_id: u64, state: ConnectionState },
    SetProtocol { connection_id: u64, protocol: String },
    AddConnection { connection_id: u64 },
    RemoveConnection { connection_id: u64 },
    AddSubscription {
        connection_id: u64,
        request_id: u64,
        topic: URI,
        matching_policy: MatchingPolicy,
        /// The id proposed for the URI's exact and wildcard subscribers.
        topic_id: u64,
        /// The id proposed for the URI's prefix subscribers.
        prefix_id: u64,
    },
    RemoveSubscription { connection_id: u64, subscription_id: u64, request_id: u64 },
    /// Changes nothing: asks the node that holds the connection's transport
    /// to write the message.
    SendMessage { message: Message, connection_id: u64, protocol: String },
}

/// What a [`RouterChange`] holds.
pub enum RouterChangeView {
    ShutdownSender { connection_id: u64 },
    SetState { connection_id: u64, state: ConnectionState },
    SetProtocol { connection_id: u64, protocol: Seq<char> },
    AddConnection { connection_id: u64 },
    RemoveConnection { connection_id: u64 },
    AddSubscription {
        connection_id: u64,
        request_id: u64,
        topic: Seq<char>,
        matching_policy: MatchingPolicy,
        topic_id: u64,
        prefix_id: u64,
    },
    RemoveSubscription { connection_id: u64, subscription_id: u64, request_id: u64 },
    SendMessage { message: MessageView, connection_id: u64, protocol: Seq<char> },
}

impl View for RouterChange {
    type V = RouterChangeView;

    open spec fn view(&self) -> RouterChangeView {
        match *self {
            RouterChange::ShutdownSender { connection_id } => RouterChangeView::ShutdownSender {
                connection_id,
            },
            RouterChange::SetState { connection_id, state } => RouterChangeView::SetState {
                connection_id,
                state,
            },
            RouterChange::SetProtocol { connection_id, protocol } => RouterChangeView::SetProtocol {
                connection_id,
                protocol: protocol@,
            },
            RouterChange::AddConnection { connection_id } => RouterChangeView::AddConnection {
                connection_id,
            },
            RouterChange::RemoveConnection { connection_id } => RouterChangeView::RemoveConnection {
                connection_id,
            },
            RouterChange::AddSubscription {
                connection_id,
                request_id,
                topic,
                matching_policy,
                topic_id,
                prefix_id,
            } => RouterChangeView::AddSubscription {
                connection_id,
                request_id,
                topic: topic@,
                matching_policy,
                topic_id,
                prefix_id,
            },
            RouterChange::RemoveSubscription {
                connection_id,
                subscription_id,
                request_id,
            } => RouterChangeView::RemoveSubscription { connection_id, subscription_id, request_id },
            RouterChange::SendMessage { message, connection_id, protocol } => RouterChangeView::SendMessage {
                message: message@,
                connection_id,
                protocol: protocol@,
            },
        }
    }
}

/// The `ERROR` message that tells a requester that its request failed.
pub open spec fn error_reply(kind: ErrorType, request_id: u64, reason: Reason) -> MessageView {
    MessageView::Error(kind, request_id, Seq::empty(), reason@, None, None)
}

impl RouterCoreView {
    /// The state after `change` was applied. A command that cannot be
    /// carried out leaves the state as it is.
    pub open spec fn apply(self, change: RouterChangeView) -> RouterCoreView {
        match change {
            RouterChangeView::ShutdownSender { .. } => self,
            RouterChangeView::SendMessage { .. } => self,
            RouterChangeView::SetState { connection_id, state } => if self.can_set_state(
                connection_id,
                state,
            ) {
                self.set_state(connection_id, state)
            } else {
                self
            },
            RouterChangeView::SetProtocol { connection_id, protocol } => if self.can_set_protocol(
                connection_id,
            ) {
                self.set_protocol(connection_id, protocol)
            } else {
                self
            },
            RouterChangeView::AddConnection { connection_id } => self.add_connection(connection_id),
            RouterChangeView::RemoveConnection { connection_id } => self.remove_connection(
                connection_id,
            ),
            RouterChangeView::AddSubscription {
                connection_id,
                topic,
                matching_policy,
                topic_id,
                prefix_id,
                ..
            } => if self.can_add_subscription(
                connection_id,
                topic,
                matching_policy,
                topic_id,
                prefix_id,
            ) {
                self.add_subscription(connection_id, topic, matching_policy, topic_id, prefix_id)
            } else {
                self
            },
            RouterChangeView::RemoveSubscription {
                connection_id,
                subscription_id,
                ..
            } => if self.can_remove_subscription(connection_id, subscription_id) {
                self.remove_subscription(connection_id, subscription_id)
            } else {
                self
            },
        }
    }

    /// What applying `change` makes the node do that holds the transports
    /// `senders`: nothing unless the connection concerned is among them.
    pub open spec fn effect(self, senders: Set<u64>, change: RouterChangeView) -> Option<
        EffectView,
    > {
        match change {
            RouterChangeView::ShutdownSender { connection_id } => if senders.contains(
                connection_id,
            ) {
                Some(EffectView::Shutdown { connection_id })
            } else {
                None
            },
            RouterChangeView::SendMessage { message, connection_id, protocol } => delivery(
                senders,
                connection_id,
                protocol,
                message,
            ),
            RouterChangeView::AddSubscription {
                connection_id,
                request_id,
                topic,
                matching_policy,
                topic_id,
                prefix_id,
            } => if !self.connections.dom().contains(connection_id) {
                None
            } else if self.id_is_taken(topic, matching_policy, topic_id, prefix_id) {
                delivery(
                    senders,
                    connection_id,
                    self.connections[connection_id].protocol,
                    error_reply(ErrorType::Subscribe, request_id, Reason::InvalidArgument),
                )
            } else {
                delivery(
                    senders,
                    connection_id,
                    self.connections[connection_id].protocol,
                    MessageView::Subscribed(
                        request_id,
                        self.subscription_id(topic, matching_policy, topic_id, prefix_id),
                    ),
                )
            },
            RouterChangeView::RemoveSubscription {
                connection_id,
                subscription_id,
                request_id,
            } => if !self.connections.dom().contains(connection_id) {
                None
            } else if self.can_remove_subscription(connection_id, subscription_id) {
                delivery(
                    senders,
                    connection_id,
                    self.connections[connection_id].protocol,
                    MessageView::Unsubscribed(request_id),
                )
            } else {
                delivery(
                    senders,
                    connection_id,
                    self.connections[connection_id].protocol,
                    error_reply(ErrorType::Unsubscribe, request_id, Reason::NoSuchSubscription),
                )
            },
            _ => None,
        }
    }
}

impl RouterCore {
    /// Applies one command of the log. The new state depends on the old
    /// state and the command alone, so nodes that apply the same log hold
    /// the same state. A command that cannot be carried out changes
    /// nothing. The result is what this node, which holds the transports
    /// `senders`, has to do for the connection concerned.
    pub fn apply(&mut self, senders: &HashSet<u64>, state_change: RouterChange) -> (r: Option<
        Effect,
    >)
        ensures
            final(self)@ == old(self)@.apply(state_change@),
            effect_view(r) == old(self)@.effect(senders@, state_change@),
    {
        match state_change {
            RouterChange::SendMessage { connection_id, protocol, message } => {
                self.send_message(senders, connection_id, protocol, message)
            },
            RouterChange::ShutdownSender { connection_id } => {
                self.shutdown_sender(senders, &connection_id)
            },
            RouterChange::SetState { connection_id, state } => {
                let _ = self.set_state(connection_id, state);
                None
            },
            RouterChange::SetProtocol { connection_id, protocol } => {
                let _ = self.set_protocol(connection_id, protocol);
                None
            },
            RouterChange::AddConnection { connection_id } => {
                self.add_connection(connection_id);
                None
            },
            RouterChange::RemoveConnection { connection_id } => {
                self.remove_connection(connection_id);
                None
            },
            RouterChange::AddSubscription {
                connection_id,
                request_id,
                topic,
                matching_policy,
                topic_id,
                prefix_id,
            } => {
                match self.add_subscription(
                    senders,
                    connection_id,
                    request_id,
                    topic,
                    matching_policy,
                    topic_id,
                    prefix_id,
                ) {
                    Ok(effect) => effect,
                    Err(_) => self.refusal(
                        senders,
                        connection_id,
                        ErrorType::Subscribe,
                        request_id,
                        Reason::InvalidArgument,
                    ),
                }
            },
            RouterChange::RemoveSubscription { connection_id, subscription_id, request_id } => {
                match self.remove_subscription(
                    senders,
                    &connection_id,
                    &subscription_id,
                    &request_id,
                ) {
                    Ok(effect) => effect,
                    Err(_) => self.refusal(
                        senders,
                        connection_id,
                        ErrorType::Unsubscribe,
                        request_id,
                        Reason::NoSuchSubscription,
                    ),
                }
            },
        }
    }

    /// The `ERROR` reply to a registered connection whose request failed.
    fn refusal(
        &self,
        senders: &HashSet<u64>,
        connection_id: u64,
        kind: ErrorType,
        request_id: u64,
        reason: Reason,
    ) -> (r: Option<Effect>)
        ensures
            effect_view(r) == (if self@.connections.dom().contains(connection_id) {
                delivery(
                    senders@,
                    connection_id,
                    self@.connections[connection_id].protocol,
                    error_reply(kind, request_id, reason),
                )
            } else {
                None
            }),
    {
        match self.connection(connection_id) {
            Some(info) => {
                let details: Vec<(String, crate::messages::Value)> = Vec::new();
                assert(crate::messages::types::value::dict_view(details@) =~= Seq::empty());
                self.send_message(
                    senders,
                    connection_id,
                    info.protocol.clone(),
                    Message::Error(kind, request_id, details, reason, None, None),
                )
            },
            None => None,
        }
    }
}

/// What the commands `log` hold, in order.
pub open spec fn log_view(log: Seq<RouterChange>) -> Seq<RouterChangeView> {
    Seq::new(log.len(), |i: int| log[i]@)
}

/// The state after the commands of `log` were applied to `state` in order.
pub open spec fn replay(state: RouterCoreView, log: Seq<RouterChangeView>) -> RouterCoreView
    decreases log.len(),
{
    if log.len() == 0 {
        state
    } else {
        replay(state, log.drop_last()).apply(log.last())
    }
}

/// What the effects `effects` hold, in order.
pub open spec fn effects_view(effects: Seq<Effect>) -> Seq<EffectView> {
    Seq::new(effects.len(), |i: int| effects[i]@)
}

/// What applying the commands of `log` to `state` in order makes the node
/// do that holds the transports `senders`.
pub open spec fn replay_effects(
    state: RouterCoreView,
    senders: Set<u64>,
    log: Seq<RouterChangeView>,
) -> Seq<EffectView>
    decreases log.len(),
{
    if log.len() == 0 {
        Seq::empty()
    } else {
        let init = replay_effects(state, senders, log.drop_last());
        match replay(state, log.drop_last()).effect(senders, log.last()) {
            Some(e) => init.push(e),
            None => init,
        }
    }
}

/// A replica's state is a function of the log that it has applied: two
/// replicas that start alike and apply the same commands in the same order
/// hold the same directory and the same registry, whichever transports
/// each of them holds.
pub proof fn lemma_same_log_same_state(a: RouterCore, b: RouterCore, log: Seq<RouterChangeView>)
    requires
        a@ == replay(RouterCoreView::empty(), log),
        b@ == replay(RouterCoreView::empty(), log),
    ensures
        a@.subscriptions == b@.subscriptions,
        a@.subscription_ids_to_uris == b@.subscription_ids_to_uris,
        a@.connections == b@.connections,
{
}

/// Applying a log is applying its first part and then the rest: a replica
/// that is behind catches up by applying what it lacks.
pub proof fn lemma_replay_in_parts(
    state: RouterCoreView,
    first: Seq<RouterChangeView>,
    rest: Seq<RouterChangeView>,
)
    ensures
        replay(state, first + rest) == replay(replay(state, first), rest),
    decreases rest.len(),
{
    if rest.len() == 0 {
        assert(first + rest =~= first);
    } else {
        assert((first + rest).drop_last() =~= first + rest.drop_last());
        assert((first + rest).last() == rest.last());
        lemma_replay_in_parts(state, first, rest.drop_last());
    }
}

impl RouterCore {
    /// Applies the commands of `log` in order and returns what this node
    /// has to do for its own connections, in the order of the commands.
    pub fn apply_all(&mut self, senders: &HashSet<u64>, log: Vec<RouterChange>) -> (r: Vec<Effect>)
        ensures
            final(self)@ == replay(old(self)@, log_view(log@)),
            effects_view(r@) == replay_effects(old(self)@, senders@, log_view(log@)),
    {
        let ghost start = self@;
        let ghost all = log_view(log@);
        let mut effects: Vec<Effect> = Vec::new();
        assert(effects_view(effects@) =~= Seq::empty());
        let mut log = log;
        let mut done: usize = 0;
        let total = log.len();
        while done < total
            invariant
                done <= total,
                total == all.len(),
                log.len() == total - done,
                forall|j: int| 0 <= j < log.len() ==> (#[trigger] log@[j])@ == all[done + j],
                self@ == replay(start, all.take(done as int)),
                effects_view(effects@) == replay_effects(start, senders@, all.take(done as int)),
            decreases total - done,
        {
            let change = log.remove(0);
            proof {
                assert(all.take(done + 1).drop_last() =~= all.take(done as int));
                assert(all.take(done + 1).last() == all[done as int]);
            }
            let ghost before = effects_view(effects@);
            match self.apply(senders, change) {
                Some(effect) => {
                    effects.push(effect);
                    assert(effects_view(effects@) =~= before.push(effect@));
                },
                None => {},
            }
            done += 1;
        }
        assert(all.take(total as int) =~= all);
        effects
    }
}

/// A question about the replicated state.
#[derive(Debug, Clone, PartialEq)]
pub enum RouterProperty {
    Subscriptions,
    Connections,
    Connection { connection_id: u64 },
    TopicId { topic: URI },
}

/// The answer to a [`RouterProperty`]: a look at the state as it stands.
#[derive(Debug)]
pub enum RouterPropertyValue<'a> {
    Subscriptions(&'a SubscriptionPatternNode),
    Connections(&'a HashMap<u64, ConnectionInfo>),
    Connection(&'a ConnectionInfo),
    /// The id that stands for the topic: the one that its exact and
    /// wildcard subscribers were told where they have one, else the one
    /// that its prefix subscribers were told.
    TopicId(u64),
}

/// Why a question about the replicated state has no answer.
#[derive(Debug, Clone, Copy, PartialEq, Eq, Structural)]
pub enum RequestError {
    /// The state holds nothing of what was asked for.
    StateRetrieval,
}

impl RouterCoreView {
    /// Whether `value` answers `property` for this state.
    pub open spec fn answers(self, property: RouterProperty, value: RouterPropertyValue) -> bool {
        match property {
            RouterProperty::Subscriptions => value matches RouterPropertyValue::Subscriptions(d)
                && d@ == self.subscriptions,
            RouterProperty::Connections => value matches RouterPropertyValue::Connections(m)
                && registry_view(m@) == self.connections,
            RouterProperty::Connection { connection_id } => value
                matches RouterPropertyValue::Connection(c) && c@
                == self.connections[connection_id],
            RouterProperty::TopicId { topic } => value matches RouterPropertyValue::TopicId(id)
                && self.is_topic_id(id, topic@),
        }
    }

    /// Whether the state holds what `property` asks for.
    pub open spec fn can_answer(self, property: RouterProperty) -> bool {
        match property {
            RouterProperty::Subscriptions => true,
            RouterProperty::Connections => true,
            RouterProperty::Connection { connection_id } => self.connections.dom().contains(
                connection_id,
            ),
            RouterProperty::TopicId { topic } => self.has_topic_id(topic@),
        }
    }
}

impl RouterCore {
    /// Answers a question about the state: the directory, the registry,
    /// the record of one connection, or the id of a topic. The id of a
    /// topic is one that a subscriber of the topic was told; a topic that
    /// nobody has subscribed to has none.
    pub fn retrieve<'a>(&'a self, state_identifier: RouterProperty) -> (r: Result<
        RouterPropertyValue<'a>,
        RequestError,
    >)
        ensures
            r is Ok <==> self@.can_answer(state_identifier),
            r matches Ok(value) ==> self@.answers(state_identifier, value),
    {
        match state_identifier {
            RouterProperty::Subscriptions => Ok(
                RouterPropertyValue::Subscriptions(self.subscriptions()),
            ),
            RouterProperty::Connections => Ok(RouterPropertyValue::Connections(self.connections())),
            RouterProperty::Connection { connection_id } => match self.connection(connection_id) {
                Some(info) => Ok(RouterPropertyValue::Connection(info)),
                None => Err(RequestError::StateRetrieval),
            },
            RouterProperty::TopicId { topic } => match self.topic_id(topic.uri.as_str()) {
                Some(id) => Ok(RouterPropertyValue::TopicId(id)),
                None => Err(RequestError::StateRetrieval),
            },
        }
    }
}

impl RouterCoreView {
    /// Whether each record of the registry is filed under its own id.
    pub open spec fn records_are_keyed(self) -> bool {
        forall|id: u64|
            self.connections.dom().contains(id) ==> (#[trigger] self.connections[id]).id == id
    }

    /// Whether each recorded id is the id that the directory holds for its
    /// URI and kind of subscribers.
    pub open spec fn ids_agree(self) -> bool {
        forall|id: u64| #[trigger]
            self.subscription_ids_to_uris.dom().contains(id) ==> {
                let uri = self.subscription_ids_to_uris[id].0;
                let is_prefix = self.subscription_ids_to_uris[id].1;
                &&& self.subscriptions.dom().contains(segments(uri))
                &&& id == (if is_prefix {
                    self.subscriptions[segments(uri)].prefix_id
                } else {
                    self.subscriptions[segments(uri)].id
                })
            }
    }
}

/// Applying a command keeps every record filed under its own id, and every
/// recorded id in agreement with the directory.
pub proof fn lemma_apply_keeps_order(state: RouterCoreView, change: RouterChangeView)
    ensures
        state.records_are_keyed() ==> state.apply(change).records_are_keyed(),
        state.ids_agree() ==> state.apply(change).ids_agree(),
{
    let after = state.apply(change);
    if state.records_are_keyed() {
        assert forall|id: u64| after.connections.dom().contains(id) implies (
        #[trigger] after.connections[id]).id == id by {
            if state.connections.dom().contains(id) {
                assert(state.connections[id].id == id);
            }
        }
    }
    if state.ids_agree() {
        assert forall|id: u64| #[trigger]
            after.subscription_ids_to_uris.dom().contains(id) implies {
            let uri = after.subscription_ids_to_uris[id].0;
            let is_prefix = after.subscription_ids_to_uris[id].1;
            &&& after.subscriptions.dom().contains(segments(uri))
            &&& id == (if is_prefix {
                after.subscriptions[segments(uri)].prefix_id
            } else {
                after.subscriptions[segments(uri)].id
            })
        } by {
            if state.subscription_ids_to_uris.dom().contains(id) {
                let uri = state.subscription_ids_to_uris[id].0;
                assert(state.subscriptions.dom().contains(segments(uri)));
            }
            match change {
                RouterChangeView::RemoveSubscription { subscription_id, .. } => {
                    if state.subscription_ids_to_uris.dom().contains(subscription_id) {
                        let gone = state.subscription_ids_to_uris[subscription_id].0;
                        assert(state.subscriptions.dom().contains(segments(gone)));
                    }
                },
                _ => {},
            }
        }
    }
}

/// In every state that a log leads to from the start, each record of the
/// registry is filed under its own id, and each recorded id is the id
/// that the directory holds for its URI and kind of subscribers.
pub proof fn lemma_replay_keeps_order(log: Seq<RouterChangeView>)
    ensures
        replay(RouterCoreView::empty(), log).records_are_keyed(),
        replay(RouterCoreView::empty(), log).ids_agree(),
    decreases log.len(),
{
    if log.len() > 0 {
        lemma_replay_keeps_order(log.drop_last());
        lemma_apply_keeps_order(replay(RouterCoreView::empty(), log.drop_last()), log.last());
    }
}

/// An id stands for one URI and one kind of subscribers for good: whatever
/// command is applied, an id that is recorded stays recorded for the same
/// URI and kind.
pub proof fn lemma_recorded_ids_stay(state: RouterCoreView, change: RouterChangeView, id: u64)
    requires
        state.subscription_ids_to_uris.dom().contains(id),
    ensures
        state.apply(change).subscription_ids_to_uris.dom().contains(id),
        state.apply(change).subscription_ids_to_uris[id] == state.subscription_ids_to_uris[id],
{
}

/// A session never moves backwards: whatever command is applied, a
/// connection that stays registered is afterwards in its old state or in a
/// later one, unless the command accepts the connection anew.
pub proof fn lemma_state_moves_forward(state: RouterCoreView, change: RouterChangeView, id: u64)
    requires
        state.connections.dom().contains(id),
        state.apply(change).connections.dom().contains(id),
        !(change matches RouterChangeView::AddConnection { connection_id } && connection_id == id),
    ensures
        state.connections[id].state.rank() <= state.apply(change).connections[id].state.rank(),
{
}

/// The sub-protocol of a connection is fixed once: whatever command is
/// applied, a connection that has a sub-protocol and stays registered keeps
/// it, unless the command accepts the connection anew.
pub proof fn lemma_protocol_is_fixed(state: RouterCoreView, change: RouterChangeView, id: u64)
    requires
        state.connections.dom().contains(id),
        state.connections[id].protocol.len() > 0,
        state.apply(change).connections.dom().contains(id),
        !(change matches RouterChangeView::AddConnection { connection_id } && connection_id == id),
    ensures
        state.apply(change).connections[id].protocol == state.connections[id].protocol,
{
}

/// Only the node that holds a connection's transport does anything for
/// the connection: whatever command is applied, what it makes a node do
/// concerns a connection whose transport the node holds.
pub proof fn lemma_effect_is_local(
    state: RouterCoreView,
    senders: Set<u64>,
    change: RouterChangeView,
)
    ensures
        match state.effect(senders, change) {
            Some(EffectView::Deliver { connection_id, .. }) => senders.contains(connection_id),
            Some(EffectView::Shutdown { connection_id }) => senders.contains(connection_id),
            None => true,
        },
{
}

/// A request to give up a subscription that the connection does not hold
/// changes neither the directory nor the registry.
pub proof fn lemma_unknown_subscription_changes_nothing(
    state: RouterCoreView,
    connection_id: u64,
    subscription_id: u64,
    request_id: u64,
)
    requires
        !state.can_remove_subscription(connection_id, subscription_id),
    ensures
        state.apply(
            RouterChangeView::RemoveSubscription { connection_id, subscription_id, request_id },
        ) == state,
{
}

/// What a node does with a message for a connection.
#[derive(Debug, PartialEq)]
pub enum Dispatch {
    /// This node holds the connection's transport: it writes the message.
    Direct(Effect),
    /// Another node holds it: the delivery goes through the log, so that
    /// every node tries it and the one that holds the transport succeeds.
    Forward(RouterChange),
}

/// What a [`Dispatch`] holds.
pub enum DispatchView {
    Direct(EffectView),
    Forward(RouterChangeView),
}

impl View for Dispatch {
    type V = DispatchView;

    open spec fn view(&self) -> DispatchView {
        match *self {
            Dispatch::Direct(effect) => DispatchView::Direct(effect@),
            Dispatch::Forward(change) => DispatchView::Forward(change@),
        }
    }
}

/// A node's own side of the router: whether it has joined the cluster, and
/// the connections whose transport it holds.
#[derive(Debug)]
pub struct RouterInfo {
    initialized: bool,
    senders: HashSet<u64>,
}

/// The error of a node that has not joined the cluster yet.
fn not_initialized() -> (r: Error)
    ensures
        r.kind is InvalidState,
{
    Error::new(ErrorKind::InvalidState("router is not initialized"))
}

impl RouterInfo {
    /// Whether the node has joined the cluster and can propose commands.
    pub closed spec fn initialized(self) -> bool {
        self.initialized
    }

    /// The connections whose transport the node holds.
    pub closed spec fn held(self) -> Set<u64> {
        self.senders@
    }

    /// A node that has not joined the cluster and holds no transport.
    pub fn new() -> (r: RouterInfo)
        ensures
            !r.initialized(),
            r.held() == Set::<u64>::empty(),
    {
        RouterInfo { initialized: false, senders: HashSet::new() }
    }

    /// Whether the node has joined the cluster and can propose commands.
    pub fn is_initialized(&self) -> (r: bool)
        ensures
            r == self.initialized(),
    {
        self.initialized
    }

    /// Notes that the node has joined the cluster.
    pub fn init(&mut self)
        ensures
            final(self).initialized(),
            final(self).held() == old(self).held(),
    {
        self.initialized = true;
    }

    /// The connections whose transport the node holds.
    pub fn senders(&self) -> (r: &HashSet<u64>)
        ensures
            r@ == self.held(),
    {
        &self.senders
    }

    /// The command to propose, where the node can propose one.
    fn propose(&self, change: RouterChange) -> (r: Result<RouterChange, Error>)
        ensures
            r is Ok <==> self.initialized(),
            r matches Ok(c) ==> c == change,
            r matches Err(e) ==> e.kind is InvalidState,
    {
        if self.initialized {
            Ok(change)
        } else {
            Err(not_initialized())
        }
    }

    /// The command that shuts down the socket of a connection.
    pub fn shutdown_sender(&self, id: &u64) -> (r: Result<RouterChange, Error>)
        ensures
            r is Ok <==> self.initialized(),
            r matches Ok(c) ==> c@ == (RouterChangeView::ShutdownSender { connection_id: *id }),
            r matches Err(e) ==> e.kind is InvalidState,
    {
        self.propose(RouterChange::ShutdownSender { connection_id: *id })
    }

    /// The command that moves a connection on to `state`.
    pub fn set_state(&self, connection_id: u64, state: ConnectionState) -> (r: Result<
        RouterChange,
        Error,
    >)
        ensures
            r is Ok <==> self.initialized(),
            r matches Ok(c) ==> c@ == (RouterChangeView::SetState { connection_id, state }),
            r matches Err(e) ==> e.kind is InvalidState,
    {
        self.propose(RouterChange::SetState { connection_id, state })
    }

    /// The command that fixes the sub-protocol of a connection.
    pub fn set_protocol(&self, connection_id: u64, protocol: String) -> (r: Result<
        RouterChange,
        Error,
    >)
        ensures
            r is Ok <==> self.initialized(),
            r matches Ok(c) ==> c@ == (RouterChangeView::SetProtocol {
                connection_id,
                protocol: protocol@,
            }),
            r matches Err(e) ==> e.kind is InvalidState,
    {
        self.propose(RouterChange::SetProtocol { connection_id, protocol })
    }

    /// Notes that the node holds the transport of a connection that it has
    /// just accepted, and gives the command that registers the connection.
    pub fn add_connection(&mut self, connection_id: u64) -> (r: Result<RouterChange, Error>)
        ensures
            final(self).held() == old(self).held().insert(connection_id),
            final(self).initialized() == old(self).initialized(),
            r is Ok <==> old(self).initialized(),
            r matches Ok(c) ==> c@ == (RouterChangeView::AddConnection { connection_id }),
            r matches Err(e) ==> e.kind is InvalidState,
    {
        broadcast use vstd::std_specs::hash::group_hash_axioms;

        self.senders.insert(connection_id);
        self.propose(RouterChange::AddConnection { connection_id })
    }

    /// Notes that the node has let go of the transport of a connection,
    /// and gives the command that drops the connection's record.
    pub fn remove_connection(&mut self, connection_id: u64) -> (r: Result<RouterChange, Error>)
        ensures
            final(self).held() == old(self).held().remove(connection_id),
            final(self).initialized() == old(self).initialized(),
            r is Ok <==> old(self).initialized(),
            r matches Ok(c) ==> c@ == (RouterChangeView::RemoveConnection { connection_id }),
            r matches Err(e) ==> e.kind is InvalidState,
    {
        broadcast use vstd::std_specs::hash::group_hash_axioms;

        self.senders.remove(&connection_id);
        self.propose(RouterChange::RemoveConnection { connection_id })
    }

    /// The command that takes a subscription out of the directory.
    pub fn remove_subscription(
        &self,
        connection_id: u64,
        subscription_id: u64,
        request_id: u64,
    ) -> (r: Result<RouterChange, Error>)
        ensures
            r is Ok <==> self.initialized(),
            r matches Ok(c) ==> c@ == (RouterChangeView::RemoveSubscription {
                connection_id,
                subscription_id,
                request_id,
            }),
            r matches Err(e) ==> e.kind is InvalidState,
    {
        self.propose(RouterChange::RemoveSubscription { connection_id, subscription_id, request_id })
    }

    /// The command that subscribes a connection to `topic`, with the ids
    /// proposed for the topic.
    pub fn add_subscription(
        &self,
        connection_id: u64,
        request_id: u64,
        topic: URI,
        matching_policy: MatchingPolicy,
        topic_id: u64,
        prefix_id: u64,
    ) -> (r: Result<RouterChange, Error>)
        ensures
            r is Ok <==> self.initialized(),
            r matches Ok(c) ==> c@ == (RouterChangeView::AddSubscription {
                connection_id,
                request_id,
                topic: topic@,
                matching_policy,
                topic_id,
                prefix_id,
            }),
            r matches Err(e) ==> e.kind is InvalidState,
    {
        self.propose(
            RouterChange::AddSubscription {
                connection_id,
                request_id,
                topic,
                matching_policy,
                topic_id,
                prefix_id,
            },
        )
    }

    /// Decides how `message` gets to the connection with the record
    /// `connection`. Where this node holds the connection's transport it
    /// writes the message itself, in the encoding of the connection's
    /// sub-protocol. Else the delivery is proposed as a command, which
    /// needs a node that has joined the cluster.
    pub fn send_message(&self, connection: &ConnectionInfo, message: Message) -> (r: Result<
        Dispatch,
        Error,
    >)
        ensures
            r is Ok <==> self.held().contains(connection.id) || self.initialized(),
            r matches Ok(d) ==> d@ == (if self.held().contains(connection.id) {
                DispatchView::Direct(
                    EffectView::Deliver {
                        connection_id: connection.id,
                        encoding: encoding_of(connection.protocol@),
                        message: message@,
                    },
                )
            } else {
                DispatchView::Forward(
                    RouterChangeView::SendMessage {
                        message: message@,
                        connection_id: connection.id,
                        protocol: connection.protocol@,
                    },
                )
            }),
            r matches Err(e) ==> e.kind is InvalidState,
    {
        broadcast use vstd::std_specs::hash::group_hash_axioms;

        if self.senders.contains(&connection.id) {
            Ok(
                Dispatch::Direct(
                    Effect::Deliver {
                        connection_id: connection.id,
                        encoding: encoding(connection.protocol.as_str()),
                        message,
                    },
                ),
            )
        } else if self.initialized {
            Ok(
                Dispatch::Forward(
                    RouterChange::SendMessage {
                        connection_id: connection.id,
                        message,
                        protocol: connection.protocol.clone(),
                    },
                ),
            )
        } else {
            Err(not_initialized())
        }
    }
}

/// The error of a question that the cluster did not answer as asked.
fn no_answer() -> (r: Error)
    ensures
        r.kind is ConnectionLost,
{
    Error::new(ErrorKind::ConnectionLost)
}

impl RouterInfo {
    /// The directory out of the cluster's answer to
    /// [`RouterProperty::Subscriptions`]. A node that has not joined the
    /// cluster cannot ask; any other answer counts as none.
    pub fn subscriptions<'a>(&self, answer: Result<RouterPropertyValue<'a>, RequestError>) -> (r:
        Result<&'a SubscriptionPatternNode, Error>)
        ensures
            r is Ok <==> self.initialized() && (answer matches Ok(v) && v is Subscriptions),
            r matches Ok(d) ==> answer == Ok::<RouterPropertyValue<'a>, RequestError>(
                RouterPropertyValue::Subscriptions(d),
            ),
            r matches Err(e) ==> if self.initialized() {
                e.kind is ConnectionLost
            } else {
                e.kind is InvalidState
            },
    {
        if !self.initialized {
            return Err(not_initialized());
        }
        match answer {
            Ok(RouterPropertyValue::Subscriptions(subscriptions)) => Ok(subscriptions),
            _ => Err(no_answer()),
        }
    }

    /// The registry out of the cluster's answer to
    /// [`RouterProperty::Connections`].
    pub fn connections<'a>(&self, answer: Result<RouterPropertyValue<'a>, RequestError>) -> (r:
        Result<&'a HashMap<u64, ConnectionInfo>, Error>)
        ensures
            r is Ok <==> self.initialized() && (answer matches Ok(v) && v is Connections),
            r matches Ok(m) ==> answer == Ok::<RouterPropertyValue<'a>, RequestError>(
                RouterPropertyValue::Connections(m),
            ),
            r matches Err(e) ==> if self.initialized() {
                e.kind is ConnectionLost
            } else {
                e.kind is InvalidState
            },
    {
        if !self.initialized {
            return Err(not_initialized());
        }
        match answer {
            Ok(RouterPropertyValue::Connections(connections)) => Ok(connections),
            _ => Err(no_answer()),
        }
    }

    /// The record of a connection out of the cluster's answer to
    /// [`RouterProperty::Connection`].
    pub fn connection<'a>(&self, answer: Result<RouterPropertyValue<'a>, RequestError>) -> (r:
        Result<&'a ConnectionInfo, Error>)
        ensures
            r is Ok <==> self.initialized() && (answer matches Ok(v) && v is Connection),
            r matches Ok(c) ==> answer == Ok::<RouterPropertyValue<'a>, RequestError>(
                RouterPropertyValue::Connection(c),
            ),
            r matches Err(e) ==> if self.initialized() {
                e.kind is ConnectionLost
            } else {
                e.kind is InvalidState
            },
    {
        if !self.initialized {
            return Err(not_initialized());
        }
        match answer {
            Ok(RouterPropertyValue::Connection(connection)) => Ok(connection),
            _ => Err(no_answer()),
        }
    }

    /// The id of a topic out of the cluster's answer to
    /// [`RouterProperty::TopicId`].
    pub fn topic_id<'a>(&self, answer: Result<RouterPropertyValue<'a>, RequestError>) -> (r:
        Result<u64, Error>)
        ensures
            r is Ok <==> self.initialized() && (answer matches Ok(v) && v is TopicId),
            r matches Ok(id) ==> answer == Ok::<RouterPropertyValue<'a>, RequestError>(
                RouterPropertyValue::TopicId(id),
            ),
            r matches Err(e) ==> if self.initialized() {
                e.kind is ConnectionLost
            } else {
                e.kind is InvalidState
            },
    {
        if !self.initialized {
            return Err(not_initialized());
        }
        match answer {
            Ok(RouterPropertyValue::TopicId(topic)) => Ok(topic),
            _ => Err(no_answer()),
        }
    }
}

} // verus!
