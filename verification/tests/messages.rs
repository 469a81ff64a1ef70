use autobahnkreuz::messages::types::value::{clone_dict, clone_list, clone_value};
use autobahnkreuz::messages::{
    clone_args, clone_kwargs, BrokerFeatures, ClientRoles, DealerFeatures, ErrorDetails,
    EventDetails, HelloDetails, RouterRoles, SubscribeOptions, SubscriberFeatures, Value,
    WelcomeDetails,
};
use autobahnkreuz::messages::same_string;
use autobahnkreuz::router::{encoding, Encoding, WAMP_JSON, WAMP_MSGPACK};
use autobahnkreuz::{MatchingPolicy, URI};

#[test]
fn router_roles_announce_pattern_matching() {
    let roles = RouterRoles::new();
    assert_eq!(roles.broker.features, Some(BrokerFeatures { pattern_based_subscription: true }));
    assert_eq!(roles.dealer.features, Some(DealerFeatures { pattern_based_registration: true }));
    assert_eq!(RouterRoles::default(), roles);
    let basic = RouterRoles::new_basic();
    assert_eq!(basic.broker.features, None);
    assert_eq!(basic.dealer.features, None);
}

#[test]
fn client_roles_differ_in_pattern_matching_only() {
    let full = ClientRoles::new();
    let basic = ClientRoles::new_basic();
    assert_eq!(
        full.subscriber.features,
        Some(SubscriberFeatures { pattern_based_subscription: true })
    );
    assert_eq!(
        basic.subscriber.features,
        Some(SubscriberFeatures { pattern_based_subscription: false })
    );
    for roles in [&full, &basic] {
        assert_eq!(roles.publisher.features, Some(vec![]));
        assert_eq!(roles.caller.features, Some(vec![]));
        assert_eq!(roles.callee.features, Some(vec![]));
    }
    assert_eq!(ClientRoles::default(), full);
    assert_ne!(full, basic);
}

#[test]
fn details_start_empty() {
    assert_eq!(ErrorDetails::new().message, None);
    assert_eq!(WelcomeDetails::new(RouterRoles::new()).agent, None);
    assert_eq!(HelloDetails::new(ClientRoles::new()).agent, None);
    assert_eq!(SubscribeOptions::new().pattern_match, MatchingPolicy::Strict);
    let details = EventDetails::new();
    assert_eq!((details.publisher, details.trustlevel, details.topic), (None, None, None));
}

fn sample() -> Value {
    Value::Dict(vec![
        ("n".to_string(), Value::Integer(-1)),
        ("u".to_string(), Value::UnsignedInteger(u64::MAX)),
        ("f".to_string(), Value::Float(1.5f64.to_bits())),
        (
            "l".to_string(),
            Value::List(vec![
                Value::Boolean(true),
                Value::String("text".to_string()),
                Value::List(vec![]),
                Value::Dict(vec![("k".to_string(), Value::Boolean(false))]),
            ]),
        ),
    ])
}

#[test]
fn copies_of_values_are_equal_to_them() {
    let value = sample();
    assert_eq!(clone_value(&value), value);
    assert_eq!(value.clone(), value);
    let list = vec![sample(), Value::Integer(3)];
    assert_eq!(clone_list(&list), list);
    let dict = vec![("a".to_string(), sample())];
    assert_eq!(clone_dict(&dict), dict);
    assert_eq!(clone_args(&Some(list.clone())), Some(list));
    assert_eq!(clone_args(&None), None);
    assert_eq!(clone_kwargs(&Some(dict.clone())), Some(dict));
    assert_eq!(clone_kwargs(&None), None);
    assert_eq!(clone_list(&vec![]), vec![]);
}

#[test]
fn uri_holds_its_text() {
    let uri = URI::new("a.b");
    assert_eq!(uri.uri, "a.b");
    assert_eq!(uri.clone(), uri);
}

#[test]
fn encoding_goes_by_the_sub_protocol() {
    assert_eq!(WAMP_JSON, "wamp.2.json");
    assert_eq!(WAMP_MSGPACK, "wamp.2.msgpack");
    assert_eq!(encoding(WAMP_JSON), Encoding::Json);
    assert_eq!(encoding(WAMP_MSGPACK), Encoding::MsgPack);
    assert_eq!(encoding("wamp.2.JSON"), Encoding::MsgPack);
    assert_eq!(encoding(""), Encoding::MsgPack);
    assert!(same_string("", ""));
    assert!(same_string("ab", "ab"));
    assert!(!same_string("ab", "abc"));
    assert!(!same_string("ab", "aB"));
}
