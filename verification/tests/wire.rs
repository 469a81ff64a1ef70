use autobahnkreuz::messages::wire::{
    code_of_error_type, decode, encode, error_type_of_code, get, nth, to_bool, to_dict, to_id,
    to_text,
};
use autobahnkreuz::messages::{
    CalleeRole, CallerRole, ClientRoles, ErrorDetails, ErrorType, EventDetails, HelloDetails,
    Message, PublishOptions, PublisherRole, Reason, RouterRoles, SubscribeOptions,
    SubscriberFeatures, SubscriberRole, Value, WelcomeDetails,
};
use autobahnkreuz::{ErrorKind, MatchingPolicy, URI};

fn id(n: u64) -> Value {
    Value::UnsignedInteger(n)
}

fn text(s: &str) -> Value {
    Value::String(s.to_string())
}

fn dict(entries: Vec<(&str, Value)>) -> Value {
    Value::Dict(entries.into_iter().map(|(k, v)| (k.to_string(), v)).collect())
}

fn payloads() -> Vec<(Option<Vec<Value>>, Option<Vec<(String, Value)>>)> {
    vec![
        (None, None),
        (Some(vec![]), None),
        (Some(vec![Value::Integer(-1), text("x"), Value::Float(2.5f64.to_bits())]), None),
        (Some(vec![]), Some(vec![])),
        (
            Some(vec![Value::List(vec![Value::Boolean(true)])]),
            Some(vec![("k".to_string(), dict(vec![("n", id(1))]))]),
        ),
    ]
}

fn reasons() -> Vec<Reason> {
    vec![
        Reason::InvalidURI,
        Reason::NoSuchProcedure,
        Reason::ProcedureAlreadyExists,
        Reason::NoSuchRegistration,
        Reason::NoSuchSubscription,
        Reason::InvalidArgument,
        Reason::SystemShutdown,
        Reason::CloseRealm,
        Reason::GoodbyeAndOut,
        Reason::NotAuthorized,
        Reason::AuthorizationFailed,
        Reason::NoSuchRealm,
        Reason::NoSuchRole,
        Reason::Cancelled,
        Reason::OptionNotAllowed,
        Reason::NoEligibleCallee,
        Reason::OptionDisallowedDiscloseMe,
        Reason::NetworkFailure,
        Reason::NormalClose,
        Reason::ProtocolViolation,
        Reason::CustomReason(URI::new("com.example.full")),
    ]
}

fn samples() -> Vec<Message> {
    let mut all = vec![
        Message::Hello(URI::new("default"), HelloDetails::new(ClientRoles::new())),
        Message::Hello(URI::new(""), HelloDetails::new(ClientRoles::new_basic())),
        Message::Hello(
            URI::new("r"),
            HelloDetails {
                agent: Some("agent/1".to_string()),
                roles: ClientRoles {
                    publisher: PublisherRole {
                        features: Some(vec![("a".to_string(), true), ("b".to_string(), false)]),
                    },
                    subscriber: SubscriberRole { features: None },
                    caller: CallerRole { features: None },
                    callee: CalleeRole { features: Some(vec![("c".to_string(), true)]) },
                },
            },
        ),
        Message::Welcome(7, WelcomeDetails::new(RouterRoles::new())),
        Message::Welcome(
            u64::MAX,
            WelcomeDetails { agent: Some("router".to_string()), roles: RouterRoles::new_basic() },
        ),
        Message::Abort(ErrorDetails { message: Some("no".to_string()) }, Reason::NoSuchRealm),
        Message::Subscribed(1, 2),
        Message::Unsubscribe(3, 4),
        Message::Unsubscribed(5),
        Message::Published(6, 7),
    ];
    for reason in reasons() {
        all.push(Message::Goodbye(ErrorDetails::new(), reason.clone()));
        all.push(Message::Abort(ErrorDetails::new(), reason));
    }
    for policy in [MatchingPolicy::Strict, MatchingPolicy::Prefix, MatchingPolicy::Wildcard] {
        all.push(Message::Subscribe(
            8,
            SubscribeOptions { pattern_match: policy },
            URI::new("a..c"),
        ));
    }
    let kinds = [
        ErrorType::Subscribe,
        ErrorType::Unsubscribe,
        ErrorType::Publish,
        ErrorType::Register,
        ErrorType::Unregister,
        ErrorType::Invocation,
        ErrorType::Call,
    ];
    for (args, kwargs) in payloads() {
        for kind in kinds {
            all.push(Message::Error(
                kind,
                9,
                vec![("why".to_string(), text("because"))],
                Reason::NotAuthorized,
                args.clone(),
                kwargs.clone(),
            ));
        }
        for acknowledge in [true, false] {
            all.push(Message::Publish(
                10,
                PublishOptions::new(acknowledge),
                URI::new("a.b"),
                args.clone(),
                kwargs.clone(),
            ));
        }
        all.push(Message::Event(11, 12, EventDetails::new(), args.clone(), kwargs.clone()));
        all.push(Message::Event(
            11,
            12,
            EventDetails { publisher: Some(1), trustlevel: Some(2), topic: Some(URI::new("a.b")) },
            args,
            kwargs,
        ));
    }
    all
}

#[test]
fn reading_what_was_written_gives_the_message_back() {
    for message in samples() {
        let fields = encode(&message);
        assert_eq!(decode(&fields), Ok(message));
    }
}

#[test]
fn fields_stand_in_the_order_of_the_protocol() {
    assert_eq!(encode(&Message::Subscribed(1, 2)), vec![id(33), id(1), id(2)]);
    assert_eq!(encode(&Message::Unsubscribe(1, 2)), vec![id(34), id(1), id(2)]);
    assert_eq!(encode(&Message::Unsubscribed(1)), vec![id(35), id(1)]);
    assert_eq!(encode(&Message::Published(1, 2)), vec![id(17), id(1), id(2)]);
    assert_eq!(
        encode(&Message::Goodbye(ErrorDetails::new(), Reason::GoodbyeAndOut)),
        vec![id(6), dict(vec![]), text("wamp.error.goodbye_and_out")]
    );
    assert_eq!(
        encode(&Message::Abort(
            ErrorDetails { message: Some("m".to_string()) },
            Reason::NoSuchRealm
        )),
        vec![id(3), dict(vec![("message", text("m"))]), text("wamp.error.no_such_realm")]
    );
    assert_eq!(
        encode(&Message::Subscribe(
            1,
            SubscribeOptions { pattern_match: MatchingPolicy::Prefix },
            URI::new("a")
        )),
        vec![id(32), id(1), dict(vec![("match", text("prefix"))]), text("a")]
    );
    assert_eq!(
        encode(&Message::Publish(
            1,
            PublishOptions::new(true),
            URI::new("a"),
            None,
            Some(vec![("k".to_string(), id(1))])
        )),
        vec![
            id(16),
            id(1),
            dict(vec![("acknowledge", Value::Boolean(true))]),
            text("a"),
            Value::List(vec![]),
            dict(vec![("k", id(1))]),
        ]
    );
    assert_eq!(
        encode(&Message::Event(
            1,
            2,
            EventDetails { publisher: None, trustlevel: None, topic: Some(URI::new("t")) },
            Some(vec![id(5)]),
            None
        )),
        vec![id(36), id(1), id(2), dict(vec![("topic", text("t"))]), Value::List(vec![id(5)])]
    );
    assert_eq!(
        encode(&Message::Error(
            ErrorType::Unsubscribe,
            5,
            vec![],
            Reason::NoSuchSubscription,
            None,
            None
        )),
        vec![id(8), id(34), id(5), dict(vec![]), text("wamp.error.no_such_subscription")]
    );
    let features = |name: &str, on: bool| {
        dict(vec![("features", dict(vec![(name, Value::Boolean(on))]))])
    };
    assert_eq!(
        encode(&Message::Welcome(9, WelcomeDetails::new(RouterRoles::new()))),
        vec![
            id(2),
            id(9),
            dict(vec![(
                "roles",
                dict(vec![
                    ("dealer", features("pattern_based_registration", true)),
                    ("broker", features("pattern_based_subscription", true)),
                ])
            )]),
        ]
    );
    let none = || dict(vec![("features", dict(vec![]))]);
    assert_eq!(
        encode(&Message::Hello(
            URI::new("default"),
            HelloDetails { agent: Some("a".to_string()), roles: ClientRoles::new_basic() }
        )),
        vec![
            id(1),
            text("default"),
            dict(vec![
                (
                    "roles",
                    dict(vec![
                        ("publisher", none()),
                        ("subscriber", features("pattern_based_subscription", false)),
                        ("caller", none()),
                        ("callee", none()),
                    ])
                ),
                ("agent", text("a")),
            ]),
        ]
    );
}

#[test]
fn keyword_arguments_alone_come_back_with_empty_positional_ones() {
    let kwargs = Some(vec![("k".to_string(), id(1))]);
    let message = Message::Event(1, 2, EventDetails::new(), None, kwargs.clone());
    assert_eq!(
        decode(&encode(&message)),
        Ok(Message::Event(1, 2, EventDetails::new(), Some(vec![]), kwargs))
    );
}

#[test]
fn decode_is_lenient_where_the_protocol_is() {
    // Options may be missing from their dictionary, and unknown entries
    // and further fields are passed over.
    assert_eq!(
        decode(&vec![id(32), id(1), dict(vec![("x", id(1))]), text("a"), id(9)]),
        Ok(Message::Subscribe(1, SubscribeOptions::new(), URI::new("a")))
    );
    assert_eq!(
        decode(&vec![id(16), id(1), dict(vec![]), text("a")]),
        Ok(Message::Publish(1, PublishOptions::new(false), URI::new("a"), None, None))
    );
    assert_eq!(
        decode(&vec![id(1), text("default"), dict(vec![])]),
        Ok(Message::Hello(
            URI::new("default"),
            HelloDetails {
                agent: None,
                roles: ClientRoles {
                    publisher: PublisherRole { features: None },
                    subscriber: SubscriberRole { features: None },
                    caller: CallerRole { features: None },
                    callee: CalleeRole { features: None },
                },
            }
        ))
    );
    let roles = dict(vec![(
        "subscriber",
        dict(vec![("features", dict(vec![("other", Value::Boolean(true))]))]),
    )]);
    match decode(&vec![id(1), text("default"), dict(vec![("roles", roles)])]) {
        Ok(Message::Hello(_, details)) => assert_eq!(
            details.roles.subscriber.features,
            Some(SubscriberFeatures { pattern_based_subscription: false })
        ),
        other => panic!("unexpected {:?}", other),
    }
    // The last entry of a name decides.
    assert_eq!(
        decode(&vec![
            id(32),
            id(1),
            dict(vec![("match", text("prefix")), ("match", text("wildcard"))]),
            text("a")
        ]),
        Ok(Message::Subscribe(
            1,
            SubscribeOptions { pattern_match: MatchingPolicy::Wildcard },
            URI::new("a")
        ))
    );
    assert_eq!(
        decode(&vec![id(6), dict(vec![]), text("wamp.close.normal")]),
        Ok(Message::Goodbye(ErrorDetails::new(), Reason::NormalClose))
    );
    assert_eq!(
        decode(&vec![id(6), dict(vec![]), text("x.y")]),
        Ok(Message::Goodbye(ErrorDetails::new(), Reason::CustomReason(URI::new("x.y"))))
    );
}

#[test]
fn arrays_that_stand_for_no_message_are_malformed() {
    let cases: Vec<Vec<Value>> = vec![
        vec![],
        vec![text("1")],
        vec![Value::Integer(33), id(1), id(2)],
        vec![id(0)],
        vec![id(4), id(1)],
        vec![id(64), id(1), dict(vec![]), text("p")],
        vec![id(33), id(1)],
        vec![id(33), id(1), text("2")],
        vec![id(35)],
        vec![id(1), text("default")],
        vec![id(1), id(5), dict(vec![])],
        vec![id(2), text("7"), dict(vec![])],
        vec![id(3), text("wamp.error.no_such_realm"), dict(vec![])],
        vec![id(32), id(1), dict(vec![("match", text("fuzzy"))]), text("a")],
        vec![id(32), id(1), dict(vec![("match", id(1))]), text("a")],
        vec![id(32), id(1), dict(vec![]), id(5)],
        vec![id(16), id(1), dict(vec![]), text("a"), dict(vec![])],
        vec![id(16), id(1), dict(vec![]), text("a"), Value::List(vec![]), Value::List(vec![])],
        vec![id(36), id(1), id(2), Value::List(vec![])],
        vec![id(8), id(99), id(1), dict(vec![]), text("r")],
        vec![id(8), id(32), id(1), dict(vec![])],
    ];
    for fields in cases {
        assert_eq!(decode(&fields).unwrap_err().kind, ErrorKind::MalformedData, "{:?}", fields);
    }
}

#[test]
fn reasons_are_named_by_their_uris() {
    for reason in reasons() {
        assert_eq!(Reason::from_uri(&reason.get_string()), reason);
    }
    assert_eq!(Reason::NoSuchSubscription.get_string(), "wamp.error.no_such_subscription");
    assert_eq!(Reason::NormalClose.get_string(), "wamp.close.normal");
    assert_eq!(Reason::CustomReason(URI::new("a.b")).get_string(), "a.b");
    // A custom reason that bears a known name is that reason.
    assert_eq!(
        Reason::from_uri(&Reason::CustomReason(URI::new("wamp.error.canceled")).get_string()),
        Reason::Cancelled
    );
    assert_eq!(Reason::from_uri(""), Reason::CustomReason(URI::new("")));
}

#[test]
fn error_kinds_bear_the_code_of_their_verb() {
    let codes = [
        (ErrorType::Subscribe, 32),
        (ErrorType::Unsubscribe, 34),
        (ErrorType::Publish, 16),
        (ErrorType::Register, 64),
        (ErrorType::Unregister, 66),
        (ErrorType::Invocation, 68),
        (ErrorType::Call, 48),
    ];
    for (kind, code) in codes {
        assert_eq!(code_of_error_type(kind), code);
        assert_eq!(error_type_of_code(code), Some(kind));
    }
    assert_eq!(error_type_of_code(8), None);
}

#[test]
fn values_are_read_by_their_kind() {
    let entries = vec![
        ("a".to_string(), id(1)),
        ("b".to_string(), text("t")),
        ("a".to_string(), Value::Boolean(true)),
    ];
    assert_eq!(get(&entries, "a"), Some(&Value::Boolean(true)));
    assert_eq!(get(&entries, "b"), Some(&text("t")));
    assert_eq!(get(&entries, "c"), None);
    assert_eq!(to_bool(get(&entries, "a")), Some(true));
    assert_eq!(to_bool(get(&entries, "b")), None);
    assert_eq!(to_text(get(&entries, "b")), Some(&"t".to_string()));
    assert_eq!(to_text(get(&entries, "a")), None);
    let fields = vec![id(1), Value::Integer(1), Value::Dict(entries.clone())];
    assert_eq!(to_id(nth(&fields, 0)), Some(1));
    assert_eq!(to_id(nth(&fields, 1)), None);
    assert_eq!(to_id(nth(&fields, 3)), None);
    assert_eq!(to_dict(nth(&fields, 2)), Some(&entries));
    assert_eq!(to_dict(nth(&fields, 0)), None);
}

#[test]
fn features_that_are_read_name_each_name_once() {
    let named = dict(vec![(
        "features",
        dict(vec![
            ("a", Value::Boolean(true)),
            ("b", Value::Boolean(true)),
            ("n", id(1)),
            ("a", Value::Boolean(false)),
        ]),
    )]);
    let roles = dict(vec![("publisher", named.clone()), ("callee", named)]);
    match decode(&vec![id(1), text("default"), dict(vec![("roles", roles)])]) {
        Ok(Message::Hello(_, details)) => {
            // The last entry of a name decides; what is no truth value is
            // passed over.
            let expected = Some(vec![("b".to_string(), true), ("a".to_string(), false)]);
            assert_eq!(details.roles.publisher.features, expected);
            assert_eq!(details.roles.callee.features, expected);
            assert_eq!(details.roles.caller.features, None);
        }
        other => panic!("unexpected {:?}", other),
    }
}

#[test]
fn reasons_are_read_as_the_protocol_names_them() {
    for reason in reasons() {
        let written = encode(&Message::Goodbye(ErrorDetails::new(), reason.clone()));
        match decode(&written) {
            Ok(Message::Goodbye(_, read)) => assert_eq!(read, reason),
            other => panic!("unexpected {:?}", other),
        }
        let written = encode(&Message::Error(
            ErrorType::Call,
            1,
            vec![],
            reason.clone(),
            None,
            None,
        ));
        match decode(&written) {
            Ok(Message::Error(_, _, _, read, _, _)) => assert_eq!(read, reason),
            other => panic!("unexpected {:?}", other),
        }
    }
    assert_eq!(Reason::from_uri("wamp.error.goodbye_and_out"), Reason::GoodbyeAndOut);
    assert_eq!(
        Reason::from_uri("wamp.error.goodbye_and_out "),
        Reason::CustomReason(URI::new("wamp.error.goodbye_and_out "))
    );
}
