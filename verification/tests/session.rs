use autobahnkreuz::messages::{
    ErrorDetails, ErrorType, EventDetails, HelloDetails, Message, PublishOptions, Reason,
    RouterRoles, SubscribeOptions, Value, WelcomeDetails, ClientRoles,
};
use autobahnkreuz::router::pubsub::SubscriptionPatternNode;
use autobahnkreuz::router::{
    shutdown, Action, ConnectionHandler, ConnectionState, RouterChange, RouterInfo, ID_LIMIT,
};
use autobahnkreuz::{Error, ErrorKind, MatchingPolicy, URI};

fn joined() -> RouterInfo {
    let mut router = RouterInfo::new();
    router.init();
    router
}

fn set_state(connection_id: u64, state: ConnectionState) -> Action {
    Action::Propose(RouterChange::SetState { connection_id, state })
}

fn give_up(connection_id: u64, subscription_id: u64, request_id: u64) -> Action {
    Action::Propose(RouterChange::RemoveSubscription { connection_id, subscription_id, request_id })
}

fn goodbye(handler: &ConnectionHandler, router: &RouterInfo, state: Option<ConnectionState>) -> Result<Vec<Action>, Error> {
    handler.handle_goodbye(router, state, ErrorDetails::new(), Reason::CloseRealm)
}

fn hello(realm: &str) -> Message {
    Message::Hello(URI::new(realm), HelloDetails::new(ClientRoles::new()))
}

#[test]
fn hello_for_the_realm_is_welcomed() {
    let handler = ConnectionHandler::new(7);
    let r = handler.handle_hello(
        &joined(),
        Some(ConnectionState::Initializing),
        URI::new("default"),
        HelloDetails::new(ClientRoles::new_basic()),
    );
    assert_eq!(
        r,
        Ok(vec![
            set_state(7, ConnectionState::Connected),
            Action::Send {
                connection_id: 7,
                message: Message::Welcome(7, WelcomeDetails::new(RouterRoles::new())),
            },
        ])
    );
}

#[test]
fn hello_for_another_realm_is_refused() {
    let handler = ConnectionHandler::new(7);
    for state in [None, Some(ConnectionState::Initializing), Some(ConnectionState::Connected)] {
        let r = handler.handle_hello(
            &joined(),
            state,
            URI::new("other"),
            HelloDetails::new(ClientRoles::new()),
        );
        assert_eq!(r.unwrap_err().kind, ErrorKind::HandshakeError(Reason::NoSuchRealm));
    }
    assert!(handler.set_realm("default".to_string()).is_ok());
    assert!(handler.set_realm("Default".to_string()).is_err());
    assert!(handler.set_realm("".to_string()).is_err());
}

#[test]
fn hello_is_in_place_only_at_the_start() {
    let handler = ConnectionHandler::new(7);
    for state in [
        ConnectionState::Connected,
        ConnectionState::ShuttingDown,
        ConnectionState::Disconnected,
    ] {
        let r = handler.handle_hello(
            &joined(),
            Some(state),
            URI::new("default"),
            HelloDetails::new(ClientRoles::new()),
        );
        assert!(matches!(r.unwrap_err().kind, ErrorKind::InvalidState(_)));
    }
    let r = handler.handle_hello(
        &joined(),
        None,
        URI::new("default"),
        HelloDetails::new(ClientRoles::new()),
    );
    assert_eq!(r.unwrap_err().kind, ErrorKind::ConnectionLost);
}

#[test]
fn goodbye_before_the_handshake_is_an_error() {
    let handler = ConnectionHandler::new(7);
    let r = goodbye(&handler, &joined(), Some(ConnectionState::Initializing));
    assert!(matches!(r.unwrap_err().kind, ErrorKind::InvalidState(_)));
}

#[test]
fn goodbye_of_a_connected_client_is_answered() {
    let mut handler = ConnectionHandler::new(7);
    handler.remember_subscription(31);
    handler.remember_subscription(32);
    let r = goodbye(&handler, &joined(), Some(ConnectionState::Connected));
    assert_eq!(
        r,
        Ok(vec![
            give_up(7, 31, 0),
            give_up(7, 32, 0),
            Action::Send {
                connection_id: 7,
                message: Message::Goodbye(ErrorDetails::new(), Reason::GoodbyeAndOut),
            },
            set_state(7, ConnectionState::Disconnected),
            Action::Close,
        ])
    );
}

#[test]
fn goodbye_in_reply_to_a_shutdown_closes_the_session() {
    let handler = ConnectionHandler::new(7);
    let r = goodbye(&handler, &joined(), Some(ConnectionState::ShuttingDown));
    assert_eq!(r, Ok(vec![set_state(7, ConnectionState::Disconnected), Action::Close]));
}

#[test]
fn goodbye_after_the_end_does_nothing() {
    let handler = ConnectionHandler::new(7);
    assert_eq!(goodbye(&handler, &joined(), Some(ConnectionState::Disconnected)), Ok(vec![]));
    assert_eq!(goodbye(&handler, &joined(), None), Ok(vec![]));
    // Nothing is proposed, so the cluster is not needed either.
    assert_eq!(
        goodbye(&handler, &RouterInfo::new(), Some(ConnectionState::Disconnected)),
        Ok(vec![])
    );
    assert!(goodbye(&handler, &RouterInfo::new(), Some(ConnectionState::Connected)).is_err());
}

#[test]
fn one_goodbye_exchange_ends_a_session() {
    // The steps of the client's goodbye, applied, leave the session
    // disconnected; a second goodbye then does nothing.
    let mut core = autobahnkreuz::router::RouterCore::new();
    let senders = std::collections::HashSet::new();
    core.add_connection(7);
    core.set_state(7, ConnectionState::Connected).unwrap();
    let handler = ConnectionHandler::new(7);
    let state = core.connection(7).map(|c| c.state);
    for action in goodbye(&handler, &joined(), state).unwrap() {
        if let Action::Propose(change) = action {
            core.apply(&senders, change);
        }
    }
    assert_eq!(core.connection(7).unwrap().state, ConnectionState::Disconnected);
    let state = core.connection(7).map(|c| c.state);
    assert_eq!(goodbye(&handler, &joined(), state), Ok(vec![]));
    assert_eq!(core.connection(7).unwrap().state, ConnectionState::Disconnected);
}

#[test]
fn sub_protocol_is_the_first_that_the_router_speaks() {
    let handler = ConnectionHandler::new(7);
    let offered = vec!["soap".to_string(), "wamp.2.msgpack".to_string(), "wamp.2.json".to_string()];
    assert_eq!(
        handler.process_protocol(&joined(), &offered),
        Ok(vec![
            Action::AcceptProtocol("wamp.2.msgpack".to_string()),
            Action::Propose(RouterChange::SetProtocol {
                connection_id: 7,
                protocol: "wamp.2.msgpack".to_string(),
            }),
        ])
    );
    let offered = vec!["wamp.2.json".to_string()];
    assert_eq!(
        handler.process_protocol(&joined(), &offered),
        Ok(vec![
            Action::AcceptProtocol("wamp.2.json".to_string()),
            Action::Propose(RouterChange::SetProtocol {
                connection_id: 7,
                protocol: "wamp.2.json".to_string(),
            }),
        ])
    );
    assert!(matches!(
        handler.process_protocol(&RouterInfo::new(), &offered).unwrap_err().kind,
        ErrorKind::InvalidState(_)
    ));
}

#[test]
fn handshake_fails_without_a_common_sub_protocol() {
    let handler = ConnectionHandler::new(7);
    for offered in [vec![], vec!["soap".to_string(), "wamp.2.cbor".to_string()]] {
        assert!(matches!(
            handler.process_protocol(&joined(), &offered).unwrap_err().kind,
            ErrorKind::UnexpectedMessage(_)
        ));
    }
}

#[test]
fn subscribe_proposes_the_subscription_with_fresh_ids() {
    let handler = ConnectionHandler::new(7);
    let options = SubscribeOptions { pattern_match: MatchingPolicy::Prefix };
    let r = handler.handle_subscribe(&joined(), 5, options, URI::new("a.b")).unwrap();
    assert_eq!(r.len(), 1);
    match &r[0] {
        Action::Propose(RouterChange::AddSubscription {
            connection_id,
            request_id,
            topic,
            matching_policy,
            topic_id,
            prefix_id,
        }) => {
            assert_eq!(*connection_id, 7);
            assert_eq!(*request_id, 5);
            assert_eq!(topic.uri, "a.b");
            assert_eq!(*matching_policy, MatchingPolicy::Prefix);
            assert!(*topic_id < ID_LIMIT);
            assert!(*prefix_id < ID_LIMIT);
        }
        other => panic!("unexpected step {:?}", other),
    }
    assert_eq!(
        handler.subscribe_with_ids(&joined(), 5, SubscribeOptions::new(), URI::new("a"), 10, 11),
        Ok(vec![Action::Propose(RouterChange::AddSubscription {
            connection_id: 7,
            request_id: 5,
            topic: URI::new("a"),
            matching_policy: MatchingPolicy::Strict,
            topic_id: 10,
            prefix_id: 11,
        })])
    );
    assert!(handler
        .handle_subscribe(&RouterInfo::new(), 5, options, URI::new("a.b"))
        .is_err());
}

#[test]
fn session_keeps_track_of_its_subscriptions() {
    let mut handler = ConnectionHandler::new(7);
    assert_eq!(handler.info_id(), 7);
    handler.remember_subscription(31);
    handler.remember_subscription(32);
    handler.remember_subscription(31);
    assert_eq!(handler.subscribed_topics(), &vec![31, 32]);
    assert!(handler.handle_unsubscribe(&RouterInfo::new(), 9, 31).is_err());
    assert_eq!(handler.subscribed_topics(), &vec![31, 32]);
    assert_eq!(handler.handle_unsubscribe(&joined(), 9, 31), Ok(vec![give_up(7, 31, 9)]));
    assert_eq!(handler.subscribed_topics(), &vec![32]);
    // An id that the session does not hold is proposed all the same: the
    // state machine answers it.
    assert_eq!(handler.handle_unsubscribe(&joined(), 10, 99), Ok(vec![give_up(7, 99, 10)]));
    assert_eq!(handler.subscribed_topics(), &vec![32]);
}

#[test]
fn committed_subscription_is_counted_under_its_own_id() {
    let mut handler = ConnectionHandler::new(7);
    let mut root = SubscriptionPatternNode::new();
    root.subscribe_with(&URI::new("a"), 1, MatchingPolicy::Strict, 10, 11);
    assert_eq!(handler.subscription_committed(&root, &URI::new("a"), MatchingPolicy::Strict), Some(10));
    assert_eq!(handler.subscription_committed(&root, &URI::new("a"), MatchingPolicy::Wildcard), Some(10));
    assert_eq!(handler.subscription_committed(&root, &URI::new("a"), MatchingPolicy::Prefix), Some(11));
    assert_eq!(handler.subscription_committed(&root, &URI::new("b"), MatchingPolicy::Strict), None);
    assert_eq!(handler.subscribed_topics(), &vec![10, 11]);
}

fn directory() -> SubscriptionPatternNode {
    let mut root = SubscriptionPatternNode::new();
    root.subscribe_with(&URI::new("a.b"), 7, MatchingPolicy::Strict, 10, 11);
    root.subscribe_with(&URI::new("a.b"), 8, MatchingPolicy::Strict, 20, 21);
    root.subscribe_with(&URI::new("a"), 9, MatchingPolicy::Prefix, 30, 31);
    root.subscribe_with(&URI::new("a."), 7, MatchingPolicy::Wildcard, 40, 41);
    root.subscribe_with(&URI::new("a."), 6, MatchingPolicy::Wildcard, 50, 51);
    root
}

fn event(to: u64, subscription: u64, topic: Option<&str>, args: Option<Vec<Value>>) -> Action {
    Action::Send {
        connection_id: to,
        message: Message::Event(
            subscription,
            77,
            EventDetails { publisher: None, trustlevel: None, topic: topic.map(URI::new) },
            args,
            None,
        ),
    }
}

#[test]
fn publisher_does_not_receive_its_own_publication() {
    let handler = ConnectionHandler::new(7);
    let args = Some(vec![Value::Integer(-3), Value::String("x".to_string())]);
    let r = handler.publish_with_id(
        &directory(),
        5,
        PublishOptions::new(false),
        URI::new("a.b"),
        args.clone(),
        None,
        77,
    );
    assert_eq!(
        r,
        vec![
            event(9, 31, Some("a.b"), args.clone()),
            event(8, 10, None, args.clone()),
            event(6, 40, Some("a.b"), args.clone()),
        ]
    );
    // Another publisher reaches connection 7 too.
    let other = ConnectionHandler::new(8);
    let r = other.publish_with_id(
        &directory(),
        5,
        PublishOptions::new(false),
        URI::new("a.b"),
        None,
        None,
        77,
    );
    assert_eq!(
        r,
        vec![
            event(9, 31, Some("a.b"), None),
            event(7, 10, None, None),
            event(7, 40, Some("a.b"), None),
            event(6, 40, Some("a.b"), None),
        ]
    );
}

#[test]
fn publication_is_acknowledged_on_request() {
    let handler = ConnectionHandler::new(1);
    let r = handler.publish_with_id(
        &directory(),
        5,
        PublishOptions::new(true),
        URI::new("nobody"),
        None,
        Some(vec![("k".to_string(), Value::Boolean(true))]),
        77,
    );
    assert_eq!(
        r,
        vec![Action::Send { connection_id: 1, message: Message::Published(5, 77) }]
    );
    let r = handler.handle_publish(
        &directory(),
        5,
        PublishOptions::new(true),
        URI::new("nobody"),
        None,
        None,
    );
    match r.as_slice() {
        [Action::Send { connection_id: 1, message: Message::Published(5, id) }] => {
            assert!(*id < ID_LIMIT)
        }
        other => panic!("unexpected steps {:?}", other),
    }
    assert!(PublishOptions::new(true).should_acknowledge());
    assert!(!PublishOptions::new(false).should_acknowledge());
}

#[test]
fn verbs_of_a_session_need_a_connected_session() {
    let mut handler = ConnectionHandler::new(7);
    let root = SubscriptionPatternNode::new();
    for state in [
        None,
        Some(ConnectionState::Initializing),
        Some(ConnectionState::ShuttingDown),
        Some(ConnectionState::Disconnected),
    ] {
        for message in [
            Message::Subscribe(1, SubscribeOptions::new(), URI::new("a")),
            Message::Unsubscribe(1, 2),
            Message::Publish(1, PublishOptions::new(true), URI::new("a"), None, None),
        ] {
            let r = handler.handle_message(&joined(), state, &root, message);
            assert!(matches!(r.unwrap_err().kind, ErrorKind::InvalidState(_)));
        }
    }
    let connected = Some(ConnectionState::Connected);
    let r = handler.handle_message(
        &joined(),
        connected,
        &root,
        Message::Publish(1, PublishOptions::new(false), URI::new("a"), None, None),
    );
    assert_eq!(r, Ok(vec![]));
    let r = handler.handle_message(&joined(), connected, &root, Message::Unsubscribe(1, 2));
    assert_eq!(r, Ok(vec![give_up(7, 2, 1)]));
    let r = handler.handle_message(
        &joined(),
        connected,
        &root,
        Message::Subscribe(1, SubscribeOptions::new(), URI::new("a")),
    );
    assert_eq!(r.unwrap().len(), 1);
}

#[test]
fn handle_message_answers_hello_and_goodbye() {
    let mut handler = ConnectionHandler::new(7);
    let root = SubscriptionPatternNode::new();
    let r = handler.handle_message(
        &joined(),
        Some(ConnectionState::Initializing),
        &root,
        hello("default"),
    );
    assert_eq!(r.unwrap().len(), 2);
    let r = handler.handle_message(
        &joined(),
        Some(ConnectionState::Initializing),
        &root,
        hello("elsewhere"),
    );
    assert_eq!(r.unwrap_err().kind, ErrorKind::HandshakeError(Reason::NoSuchRealm));
    let r = handler.handle_message(
        &joined(),
        Some(ConnectionState::Initializing),
        &root,
        Message::Goodbye(ErrorDetails::new(), Reason::NormalClose),
    );
    assert!(matches!(r.unwrap_err().kind, ErrorKind::InvalidState(_)));
    let r = handler.handle_message(
        &joined(),
        Some(ConnectionState::ShuttingDown),
        &root,
        Message::Goodbye(ErrorDetails::new(), Reason::GoodbyeAndOut),
    );
    assert_eq!(r, Ok(vec![set_state(7, ConnectionState::Disconnected), Action::Close]));
}

#[test]
fn verbs_of_a_router_are_not_taken_from_a_client() {
    let mut handler = ConnectionHandler::new(7);
    let root = SubscriptionPatternNode::new();
    for message in [
        Message::Welcome(1, WelcomeDetails::new(RouterRoles::new_basic())),
        Message::Abort(ErrorDetails::new(), Reason::NoSuchRealm),
        Message::Error(ErrorType::Publish, 1, vec![], Reason::NotAuthorized, None, None),
        Message::Subscribed(1, 2),
        Message::Unsubscribed(1),
        Message::Published(1, 2),
        Message::Event(1, 2, EventDetails::new(), None, None),
    ] {
        let r = handler.handle_message(
            &joined(),
            Some(ConnectionState::Connected),
            &root,
            message.clone(),
        );
        assert_eq!(r.unwrap_err().kind, ErrorKind::InvalidMessageType(message));
    }
}

fn abort(reason: Reason) -> Action {
    Action::Send { connection_id: 7, message: Message::Abort(ErrorDetails::new(), reason) }
}

fn drop_record() -> Action {
    Action::Propose(RouterChange::RemoveConnection { connection_id: 7 })
}

#[test]
fn error_of_a_request_is_answered_and_the_session_goes_on() {
    let handler = ConnectionHandler::new(7);
    let mut router = joined();
    router.add_connection(7).unwrap();
    let error = Error::new(ErrorKind::ErrorReason(
        ErrorType::Unsubscribe,
        5,
        Reason::NoSuchSubscription,
    ));
    assert_eq!(
        handler.on_message_error(&mut router, error),
        Ok(vec![Action::Send {
            connection_id: 7,
            message: Message::Error(
                ErrorType::Unsubscribe,
                5,
                vec![],
                Reason::NoSuchSubscription,
                None,
                None
            ),
        }])
    );
    assert!(router.senders().contains(&7));
    assert_eq!(
        handler.send_error(ErrorType::Subscribe, 1, Reason::InvalidURI),
        Action::Send {
            connection_id: 7,
            message: Message::Error(
                ErrorType::Subscribe,
                1,
                vec![],
                Reason::InvalidURI,
                None,
                None
            ),
        }
    );
}

#[test]
fn socket_error_is_handed_back() {
    let handler = ConnectionHandler::new(7);
    let mut router = joined();
    router.add_connection(7).unwrap();
    let r = handler.on_message_error(&mut router, Error::new(ErrorKind::WSError("io".to_string())));
    assert_eq!(r, Err(Error::new(ErrorKind::WSError("io".to_string()))));
    assert!(router.senders().contains(&7));
}

#[test]
fn other_errors_end_the_session_only() {
    let cases = vec![
        (ErrorKind::HandshakeError(Reason::NoSuchRealm), Reason::NoSuchRealm),
        (ErrorKind::JSONError("eof".to_string()), Reason::InvalidArgument),
        (ErrorKind::MsgPackError("eof".to_string()), Reason::InvalidArgument),
        (ErrorKind::MalformedData, Reason::InvalidArgument),
        (ErrorKind::Timeout, Reason::NetworkFailure),
        (ErrorKind::ConnectionLost, Reason::NetworkFailure),
        (ErrorKind::InvalidState("x"), Reason::ProtocolViolation),
        (ErrorKind::UnexpectedMessage("x"), Reason::ProtocolViolation),
        (ErrorKind::InvalidMessageType(Message::Unsubscribed(1)), Reason::ProtocolViolation),
    ];
    for (kind, reason) in cases {
        let mut handler = ConnectionHandler::new(7);
        handler.remember_subscription(31);
        let mut router = joined();
        router.add_connection(7).unwrap();
        router.add_connection(8).unwrap();
        assert_eq!(
            handler.on_message_error(&mut router, Error::new(kind)),
            Ok(vec![abort(reason), give_up(7, 31, 0), drop_record(), Action::Close])
        );
        assert!(!router.senders().contains(&7));
        assert!(router.senders().contains(&8));
    }
    let handler = ConnectionHandler::new(7);
    assert!(handler
        .on_message_error(&mut RouterInfo::new(), Error::new(ErrorKind::Timeout))
        .is_err());
    assert_eq!(handler.send_abort(Reason::NoSuchRealm), abort(Reason::NoSuchRealm));
}

#[test]
fn closing_the_socket_ends_the_session() {
    let mut handler = ConnectionHandler::new(7);
    handler.remember_subscription(31);
    handler.remember_subscription(32);
    for state in [
        None,
        Some(ConnectionState::Initializing),
        Some(ConnectionState::Connected),
        Some(ConnectionState::ShuttingDown),
    ] {
        let mut router = joined();
        router.add_connection(7).unwrap();
        assert_eq!(
            handler.on_close(&mut router, state),
            Ok(vec![give_up(7, 31, 0), give_up(7, 32, 0), drop_record()])
        );
        assert!(!router.senders().contains(&7));
    }
    let mut router = joined();
    router.add_connection(7).unwrap();
    assert_eq!(
        handler.on_close(&mut router, Some(ConnectionState::Disconnected)),
        Ok(vec![drop_record()])
    );
    assert!(!router.senders().contains(&7));
    assert_eq!(
        handler.remove(&mut router),
        Ok(vec![give_up(7, 31, 0), give_up(7, 32, 0), drop_record()])
    );
    assert_eq!(
        handler.terminate_connection(&mut router),
        Ok(vec![give_up(7, 31, 0), give_up(7, 32, 0), drop_record()])
    );
    assert!(handler.on_close(&mut RouterInfo::new(), None).is_err());
}

#[test]
fn shutdown_tells_every_session_goodbye_first() {
    let said = |id: u64| Action::Send {
        connection_id: id,
        message: Message::Goodbye(ErrorDetails::new(), Reason::SystemShutdown),
    };
    let plan = shutdown(&joined(), &vec![3, 5]).unwrap();
    assert_eq!(
        plan.goodbyes,
        vec![
            said(3),
            set_state(3, ConnectionState::ShuttingDown),
            said(5),
            set_state(5, ConnectionState::ShuttingDown),
        ]
    );
    assert_eq!(
        plan.closes,
        vec![
            Action::Propose(RouterChange::ShutdownSender { connection_id: 3 }),
            Action::Propose(RouterChange::ShutdownSender { connection_id: 5 }),
        ]
    );
    assert!(shutdown(&RouterInfo::new(), &vec![3]).is_err());
    let plan = shutdown(&RouterInfo::new(), &vec![]).unwrap();
    assert!(plan.goodbyes.is_empty() && plan.closes.is_empty());
}

#[test]
fn each_subscription_gets_one_event_among_many() {
    let mut root = SubscriptionPatternNode::new();
    let exact = root.subscribe_with(&URI::new("a.b.c"), 7, MatchingPolicy::Strict, 10, 11);
    let prefix = root.subscribe_with(&URI::new("a.b"), 8, MatchingPolicy::Prefix, 20, 21);
    root.subscribe_with(&URI::new("a.b"), 7, MatchingPolicy::Strict, 30, 31);
    root.subscribe_with(&URI::new("a"), 5, MatchingPolicy::Prefix, 40, 41);
    root.subscribe_with(&URI::new("a.b.c"), 5, MatchingPolicy::Strict, 50, 51);
    root.subscribe_with(&URI::new("a..c"), 6, MatchingPolicy::Wildcard, 60, 61);
    root.subscribe_with(&URI::new("a.b.c.d"), 8, MatchingPolicy::Prefix, 70, 71);
    root.subscribe_with(&URI::new("x"), 7, MatchingPolicy::Prefix, 80, 81);
    let publisher = ConnectionHandler::new(9);
    let steps = publisher.publish_with_id(
        &root,
        1,
        PublishOptions::new(false),
        URI::new("a.b.c"),
        None,
        None,
        77,
    );
    let to = |connection: u64| -> Vec<&Action> {
        steps
            .iter()
            .filter(|step| matches!(step, Action::Send { connection_id, .. } if *connection_id == connection))
            .collect()
    };
    assert_eq!(to(7), vec![&event(7, exact, None, None)]);
    assert_eq!(to(8), vec![&event(8, prefix, Some("a.b.c"), None)]);
    assert_eq!(to(5).len(), 2);
    assert_eq!(to(6).len(), 1);
    assert_eq!(to(9).len(), 0);
    assert_eq!(steps.len(), 5);
}
