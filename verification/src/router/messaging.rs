//! What a session does with the messages it receives, and with the errors
//! that they lead to.

use crate::error::{Error, ErrorKind};
use crate::messages::{
    args_view, kwargs_view, Dict, ErrorDetails, ErrorDetailsView, ErrorType, Message, MessageView,
    Reason, Value,
};
use crate::router::handshake::{goodbye_steps, welcome_steps, REALM};
use crate::router::machine::error_reply;
use crate::router::pubsub::matching::reached;
use crate::router::pubsub::patterns::{prefix_without, segments};
use crate::router::pubsub::{publication_steps, subscribe_steps, SubscriptionPatternNode};
use crate::router::{
    actions_view, removal, Action, ActionView, ConnectionHandler, ConnectionState,
    RouterChangeView, RouterInfo, ID_LIMIT,
};
use vstd::prelude::*;

verus! {

/// The reason that a session is given when it is ended for an error.
pub open spec fn abort_reason(kind: ErrorKind) -> Reason {
    match kind {
        ErrorKind::HandshakeError(reason) => reason,
        ErrorKind::JSONError(_) | ErrorKind::MsgPackError(_) | ErrorKind::MalformedData => {
            Reason::InvalidArgument
        },
        ErrorKind::Timeout | ErrorKind::ConnectionLost => Reason::NetworkFailure,
        _ => Reason::ProtocolViolation,
    }
}

/// The steps that end a session for an error: the session is told why,
/// gives up what it holds, and is closed.
pub open spec fn abort_steps(id: u64, subscribed: Seq<u64>, reason: Reason) -> Seq<ActionView> {
    seq![
        ActionView::Send {
            connection_id: id,
            message: MessageView::Abort(ErrorDetailsView { message: None }, reason@),
        },
    ] + removal(id, subscribed).push(ActionView::Close)
}

impl ConnectionHandler {
    /// The step that gets `message` to the session's own connection.
    pub fn send_message(&self, message: Message) -> (r: Action)
        ensures
            r@ == (ActionView::Send { connection_id: self.id(), message: message@ }),
    {
        Action::Send { connection_id: self.info_id(), message }
    }

    /// The step that tells the session that its request `request_id`
    /// failed.
    pub fn send_error(&self, err_type: ErrorType, request_id: u64, reason: Reason) -> (r: Action)
        ensures
            r@ == (ActionView::Send {
                connection_id: self.id(),
                message: error_reply(err_type, request_id, reason),
            }),
    {
        let details: Vec<(String, Value)> = Vec::new();
        assert(crate::messages::types::value::dict_view(details@) =~= Seq::empty());
        self.send_message(Message::Error(err_type, request_id, details, reason, None, None))
    }

    /// The step that tells the session that it is ended, and why.
    pub fn send_abort(&self, reason: Reason) -> (r: Action)
        ensures
            r@ == (ActionView::Send {
                connection_id: self.id(),
                message: MessageView::Abort(ErrorDetailsView { message: None }, reason@),
            }),
    {
        self.send_message(Message::Abort(ErrorDetails::new(), reason))
    }

    /// Answers a message of the client. `state` is the state that the
    /// registry records for the session, if it has a record, and
    /// `subscriptions` is the directory as it stands.
    ///
    /// `HELLO` and `GOODBYE` are answered as the handshake says.
    /// `SUBSCRIBE`, `UNSUBSCRIBE` and `PUBLISH` are in place only in a
    /// connected session. Every other verb is one that a router does not
    /// take from a client.
    pub fn handle_message(
        &mut self,
        router: &RouterInfo,
        state: Option<ConnectionState>,
        subscriptions: &SubscriptionPatternNode,
        message: Message,
    ) -> (r: Result<Vec<Action>, Error>)
        ensures
            final(self).id() == old(self).id(),
            !(message matches Message::Unsubscribe(_, id) && r is Ok) ==> final(self).subscribed()
                == old(self).subscribed(),
            message matches Message::Hello(realm, _) ==> {
                &&& r is Ok <==> realm@ == REALM@ && state == Some(ConnectionState::Initializing)
                    && router.initialized()
                &&& r matches Ok(actions) ==> actions_view(actions@) == welcome_steps(
                    old(self).id(),
                )
                &&& r matches Err(e) ==> if realm@ != REALM@ {
                    e.kind == ErrorKind::HandshakeError(Reason::NoSuchRealm)
                } else if state is None {
                    e.kind is ConnectionLost
                } else {
                    e.kind is InvalidState
                }
            },
            message is Goodbye ==> {
                &&& r is Ok <==> state != Some(ConnectionState::Initializing) && (
                router.initialized() || state is None || state == Some(
                    ConnectionState::Disconnected,
                ))
                &&& r matches Ok(actions) ==> actions_view(actions@) == goodbye_steps(
                    old(self).id(),
                    old(self).subscribed(),
                    state,
                )
                &&& r matches Err(e) ==> e.kind is InvalidState
            },
            message matches Message::Subscribe(request_id, options, topic) ==> {
                &&& r is Ok <==> state == Some(ConnectionState::Connected) && router.initialized()
                &&& r matches Ok(actions) ==> exists|topic_id: u64, prefix_id: u64|
                    topic_id < ID_LIMIT && prefix_id < ID_LIMIT && actions_view(actions@)
                        == #[trigger] subscribe_steps(
                        old(self).id(),
                        request_id,
                        topic@,
                        options.pattern_match,
                        topic_id,
                        prefix_id,
                    )
                &&& r matches Err(e) ==> e.kind is InvalidState
            },
            message matches Message::Unsubscribe(request_id, subscription_id) ==> {
                &&& r is Ok <==> state == Some(ConnectionState::Connected) && router.initialized()
                &&& r matches Ok(actions) ==> {
                    &&& actions_view(actions@) == seq![
                        ActionView::Propose(
                            RouterChangeView::RemoveSubscription {
                                connection_id: old(self).id(),
                                subscription_id,
                                request_id,
                            },
                        ),
                    ]
                    &&& final(self).subscribed() == prefix_without(
                        old(self).subscribed(),
                        subscription_id,
                    )
                }
                &&& r matches Err(e) ==> e.kind is InvalidState
            },
            message matches Message::Publish(request_id, options, topic, args, kwargs) ==> {
                &&& r is Ok <==> state == Some(ConnectionState::Connected)
                &&& r matches Ok(actions) ==> exists|publication_id: u64|
                    publication_id < ID_LIMIT && actions_view(actions@)
                        == #[trigger] publication_steps(
                        reached(subscriptions@, segments(topic@)),
                        old(self).id(),
                        request_id,
                        options.acknowledge,
                        publication_id,
                        topic@,
                        args_view(args),
                        kwargs_view(kwargs),
                    )
                &&& r matches Err(e) ==> e.kind is InvalidState
            },
            !(message is Hello || message is Goodbye || message is Subscribe
                || message is Unsubscribe || message is Publish) ==> (r matches Err(e) && e.kind
                == ErrorKind::InvalidMessageType(message)),
    {
        let connected = match state {
            Some(ConnectionState::Connected) => true,
            _ => false,
        };
        match message {
            Message::Hello(realm, details) => self.handle_hello(router, state, realm, details),
            Message::Goodbye(details, reason) => self.handle_goodbye(
                router,
                state,
                details,
                reason,
            ),
            Message::Subscribe(request_id, options, topic) => {
                if !connected {
                    return Err(not_connected());
                }
                self.handle_subscribe(router, request_id, options, topic)
            },
            Message::Unsubscribe(request_id, subscription_id) => {
                if !connected {
                    return Err(not_connected());
                }
                self.handle_unsubscribe(router, request_id, subscription_id)
            },
            Message::Publish(request_id, options, topic, args, kwargs) => {
                if !connected {
                    return Err(not_connected());
                }
                Ok(self.handle_publish(subscriptions, request_id, options, topic, args, kwargs))
            },
            t => Err(Error::new(ErrorKind::InvalidMessageType(t))),
        }
    }

    /// Decides what follows from an error that a message of the client led
    /// to.
    ///
    /// An error of the socket layer is handed back as it is. A failed
    /// request is answered with `ERROR` under the request's id, and the
    /// session goes on. Every other error ends the session, and only the
    /// session: it is told why, gives up what it holds, and is closed.
    pub fn on_message_error(&self, router: &mut RouterInfo, error: Error) -> (r: Result<
        Vec<Action>,
        Error,
    >)
        ensures
            final(router).initialized() == old(router).initialized(),
            error.kind is WSError ==> r == Err::<Vec<Action>, Error>(error),
            error.kind is WSError ==> final(router).held() == old(router).held(),
            error.kind matches ErrorKind::ErrorReason(err_type, request_id, reason) ==> {
                &&& (r matches Ok(actions) && actions_view(actions@) == seq![
                    ActionView::Send {
                        connection_id: self.id(),
                        message: error_reply(err_type, request_id, reason),
                    },
                ])
                &&& final(router).held() == old(router).held()
            },
            !(error.kind is WSError || error.kind is ErrorReason) ==> {
                &&& r is Ok <==> old(router).initialized()
                &&& r matches Ok(actions) ==> {
                    &&& actions_view(actions@) == abort_steps(
                        self.id(),
                        self.subscribed(),
                        abort_reason(error.kind),
                    )
                    &&& final(router).held() == old(router).held().remove(self.id())
                }
                &&& r matches Err(e) ==> e.kind is InvalidState
            },
    {
        let reason = match error.get_kind() {
            ErrorKind::WSError(text) => {
                return Err(Error::new(ErrorKind::WSError(text)));
            },
            ErrorKind::ErrorReason(err_type, request_id, reason) => {
                let mut actions: Vec<Action> = Vec::new();
                actions.push(self.send_error(err_type, request_id, reason));
                assert(actions_view(actions@) =~= seq![
                    ActionView::Send {
                        connection_id: self.id(),
                        message: error_reply(err_type, request_id, reason),
                    },
                ]);
                return Ok(actions);
            },
            ErrorKind::HandshakeError(reason) => reason,
            ErrorKind::JSONError(_) | ErrorKind::MsgPackError(_) | ErrorKind::MalformedData => {
                Reason::InvalidArgument
            },
            ErrorKind::Timeout | ErrorKind::ConnectionLost => Reason::NetworkFailure,
            _ => Reason::ProtocolViolation,
        };
        let mut actions: Vec<Action> = Vec::new();
        actions.push(self.send_abort(reason));
        let ghost first = actions_view(actions@);
        let mut rest = self.terminate_connection(router)?;
        let ghost middle = actions_view(rest@);
        rest.push(Action::Close);
        assert(actions_view(rest@) =~= middle.push(ActionView::Close));
        let ghost tail = actions_view(rest@);
        actions.append(&mut rest);
        assert(actions_view(actions@) =~= first + tail);
        Ok(actions)
    }

    /// Decides what follows from the closing of the session's socket. A
    /// session that was disconnected in good order has given up its
    /// subscriptions already, and only its record is dropped. Any other
    /// session is ended for good.
    pub fn on_close(&self, router: &mut RouterInfo, state: Option<ConnectionState>) -> (r: Result<
        Vec<Action>,
        Error,
    >)
        ensures
            final(router).initialized() == old(router).initialized(),
            r is Ok <==> old(router).initialized(),
            r matches Ok(actions) ==> {
                &&& actions_view(actions@) == (if state == Some(ConnectionState::Disconnected) {
                    seq![
                        ActionView::Propose(
                            RouterChangeView::RemoveConnection { connection_id: self.id() },
                        ),
                    ]
                } else {
                    removal(self.id(), self.subscribed())
                })
                &&& final(router).held() == old(router).held().remove(self.id())
            },
            r matches Err(e) ==> e.kind is InvalidState,
    {
        match state {
            Some(ConnectionState::Disconnected) => {
                let change = router.remove_connection(self.info_id())?;
                let mut actions: Vec<Action> = Vec::new();
                actions.push(Action::Propose(change));
                assert(actions_view(actions@) =~= seq![
                    ActionView::Propose(
                        RouterChangeView::RemoveConnection { connection_id: self.id() },
                    ),
                ]);
                Ok(actions)
            },
            _ => self.terminate_connection(router),
        }
    }
}

/// The error of a verb that needs a connected session.
fn not_connected() -> (r: Error)
    ensures
        r.kind is InvalidState,
{
    Error::new(ErrorKind::InvalidState("the session is not connected"))
}

} // verus!
