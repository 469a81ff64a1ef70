//! The wire form of messages: each message is an array of values that
//! starts with the code of its verb and goes on with the verb's fields, in
//! the order in which the protocol lists them. How an array is written as
//! bytes is the business of the codec that the connection has agreed on.

use crate::error::{Error, ErrorKind};
use crate::messages::types::value::{clone_dict, clone_list, dict_view, list_view};
use crate::messages::{
    args_view, kwargs_view, same_string, text_view, BrokerFeatures, BrokerRole, CalleeRole,
    CallerRole, ClientRoles, ClientRolesView, DealerFeatures, DealerRole, Dict, ErrorDetails,
    ErrorDetailsView, ErrorType, EventDetails, EventDetailsView, HelloDetails, HelloDetailsView,
    List, MatchingPolicy, Message, MessageView, PublishOptions, PublisherRole, Reason,
    RouterRoles, RouterRolesView, SubscribeOptions, SubscriberFeatures, SubscriberRole, Value,
    ValueView, WelcomeDetails, WelcomeDetailsView, URI,
};
use crate::messages::types::roles::{distinct_names, features_view, names_once};
use vstd::prelude::*;

verus! {

/// The value that `dict` gives the name `key`: that of the last entry with
/// the name, if there is one.
pub open spec fn entry(dict: Seq<(Seq<char>, ValueView)>, key: Seq<char>) -> Option<ValueView>
    decreases dict.len(),
{
    if dict.len() == 0 {
        None
    } else if dict.last().0 == key {
        Some(dict.last().1)
    } else {
        entry(dict.drop_last(), key)
    }
}

/// The field at place `i`, if the array is that long.
pub open spec fn field(fields: Seq<ValueView>, i: int) -> Option<ValueView> {
    if 0 <= i < fields.len() {
        Some(fields[i])
    } else {
        None
    }
}

/// The number that the value is, if it is an unsigned integer.
pub open spec fn as_id(value: Option<ValueView>) -> Option<u64> {
    match value {
        Some(ValueView::UnsignedInteger(n)) => Some(n),
        _ => None,
    }
}

/// The text that the value is, if it is one.
pub open spec fn as_text(value: Option<ValueView>) -> Option<Seq<char>> {
    match value {
        Some(ValueView::String(s)) => Some(s),
        _ => None,
    }
}

/// The entries of the value, if it is a dictionary.
pub open spec fn as_dict(value: Option<ValueView>) -> Option<Seq<(Seq<char>, ValueView)>> {
    match value {
        Some(ValueView::Dict(d)) => Some(d),
        _ => None,
    }
}

/// The truth value that the value is, if it is one.
pub open spec fn as_bool(value: Option<ValueView>) -> Option<bool> {
    match value {
        Some(ValueView::Boolean(b)) => Some(b),
        _ => None,
    }
}

/// What an optional value holds.
pub open spec fn value_view(value: Option<&Value>) -> Option<ValueView> {
    match value {
        Some(v) => Some(v@),
        None => None,
    }
}

/// Looks `key` up in `dict`.
pub fn get<'a>(dict: &'a Dict, key: &str) -> (r: Option<&'a Value>)
    ensures
        value_view(r) == entry(dict_view(dict@), key@),
{
    let mut i = dict.len();
    assert(dict_view(dict@).take(i as int) =~= dict_view(dict@));
    while i > 0
        invariant
            i <= dict.len(),
            entry(dict_view(dict@), key@) == entry(dict_view(dict@).take(i as int), key@),
        decreases i,
    {
        let ghost seen = dict_view(dict@).take(i as int);
        assert(seen.last() == dict_view(dict@)[i - 1]);
        assert(seen.drop_last() =~= dict_view(dict@).take(i - 1));
        if same_string(dict[i - 1].0.as_str(), key) {
            return Some(&dict[i - 1].1);
        }
        i -= 1;
    }
    assert(dict_view(dict@).take(0).len() == 0);
    None
}

/// The field at place `i` of `fields`.
pub fn nth(fields: &List, i: usize) -> (r: Option<&Value>)
    ensures
        value_view(r) == field(list_view(fields@), i as int),
{
    if i < fields.len() {
        Some(&fields[i])
    } else {
        None
    }
}

/// The number that `value` is.
pub fn to_id(value: Option<&Value>) -> (r: Option<u64>)
    ensures
        r == as_id(value_view(value)),
{
    match value {
        Some(Value::UnsignedInteger(n)) => Some(*n),
        _ => None,
    }
}

/// The text that `value` is.
pub fn to_text<'a>(value: Option<&'a Value>) -> (r: Option<&'a String>)
    ensures
        match r {
            Some(s) => as_text(value_view(value)) == Some(s@),
            None => as_text(value_view(value)) is None,
        },
{
    match value {
        Some(Value::String(s)) => Some(s),
        _ => None,
    }
}

/// The entries of `value`.
pub fn to_dict<'a>(value: Option<&'a Value>) -> (r: Option<&'a Dict>)
    ensures
        match r {
            Some(d) => as_dict(value_view(value)) == Some(dict_view(d@)),
            None => as_dict(value_view(value)) is None,
        },
{
    match value {
        Some(Value::Dict(d)) => Some(d),
        _ => None,
    }
}

/// The truth value that `value` is.
pub fn to_bool(value: Option<&Value>) -> (r: Option<bool>)
    ensures
        r == as_bool(value_view(value)),
{
    match value {
        Some(Value::Boolean(b)) => Some(*b),
        _ => None,
    }
}

/// A dictionary without entries.
pub open spec fn no_entries() -> Seq<(Seq<char>, ValueView)> {
    Seq::empty()
}

/// Adds an entry at the end of `dict`.
pub fn put(dict: &mut Dict, name: &str, value: Value)
    ensures
        dict_view(final(dict)@) == dict_view(old(dict)@).push((name@, value@)),
{
    let ghost before = dict_view(dict@);
    dict.push((name.to_owned(), value));
    assert(dict_view(dict@) =~= before.push((name@, value@)));
}

/// Adds a field at the end of `fields`.
pub fn append_field(fields: &mut List, value: Value)
    ensures
        list_view(final(fields)@) == list_view(old(fields)@).push(value@),
{
    let ghost before = list_view(fields@);
    fields.push(value);
    assert(list_view(fields@) =~= before.push(value@));
}

/// A dictionary without entries.
pub fn empty_dict() -> (r: Dict)
    ensures
        dict_view(r@) == no_entries(),
{
    let r: Dict = Vec::new();
    assert(dict_view(r@) =~= no_entries());
    r
}

/// An array without fields.
pub fn empty_list() -> (r: List)
    ensures
        list_view(r@) == Seq::<ValueView>::empty(),
{
    let r: List = Vec::new();
    assert(list_view(r@) =~= Seq::<ValueView>::empty());
    r
}

/// The named features `fs` as the entries of a dictionary.
pub open spec fn flags(fs: Seq<(Seq<char>, bool)>) -> Seq<(Seq<char>, ValueView)> {
    Seq::new(fs.len(), |i: int| (fs[i].0, ValueView::Boolean(fs[i].1)))
}

/// A role that names features freely: a dictionary whose entry `features`
/// holds them, or an empty dictionary where the role names none.
pub open spec fn features_role(fs: Option<Seq<(Seq<char>, bool)>>) -> ValueView {
    ValueView::Dict(
        match fs {
            Some(f) => no_entries().push(("features"@, ValueView::Dict(flags(f)))),
            None => no_entries(),
        },
    )
}

/// A role with the one feature `name`.
pub open spec fn flag_role(flag: Option<bool>, name: Seq<char>) -> ValueView {
    ValueView::Dict(
        match flag {
            Some(on) => no_entries().push(
                ("features"@, ValueView::Dict(no_entries().push((name, ValueView::Boolean(on))))),
            ),
            None => no_entries(),
        },
    )
}

/// The entry `agent`, where there is an agent.
pub open spec fn with_agent(
    dict: Seq<(Seq<char>, ValueView)>,
    agent: Option<Seq<char>>,
) -> Seq<(Seq<char>, ValueView)> {
    match agent {
        Some(a) => dict.push(("agent"@, ValueView::String(a))),
        None => dict,
    }
}

/// The roles of a client on the wire.
pub open spec fn client_roles_wire(roles: ClientRolesView) -> ValueView {
    ValueView::Dict(
        no_entries().push(("publisher"@, features_role(roles.publisher))).push(
            ("subscriber"@, flag_role(roles.subscriber, "pattern_based_subscription"@)),
        ).push(("caller"@, features_role(roles.caller))).push(
            ("callee"@, features_role(roles.callee)),
        ),
    )
}

/// The roles of a router on the wire.
pub open spec fn router_roles_wire(roles: RouterRolesView) -> ValueView {
    ValueView::Dict(
        no_entries().push(("dealer"@, flag_role(roles.dealer, "pattern_based_registration"@))).push(
            ("broker"@, flag_role(roles.broker, "pattern_based_subscription"@)),
        ),
    )
}

/// The details of `HELLO` on the wire.
pub open spec fn hello_details_wire(details: HelloDetailsView) -> ValueView {
    ValueView::Dict(
        with_agent(no_entries().push(("roles"@, client_roles_wire(details.roles))), details.agent),
    )
}

/// The details of `WELCOME` on the wire.
pub open spec fn welcome_details_wire(details: WelcomeDetailsView) -> ValueView {
    ValueView::Dict(
        with_agent(no_entries().push(("roles"@, router_roles_wire(details.roles))), details.agent),
    )
}

/// The details of `ABORT` and `GOODBYE` on the wire.
pub open spec fn error_details_wire(details: ErrorDetailsView) -> ValueView {
    ValueView::Dict(
        match details.message {
            Some(m) => no_entries().push(("message"@, ValueView::String(m))),
            None => no_entries(),
        },
    )
}

/// The name of a matching policy on the wire.
pub open spec fn policy_name(policy: MatchingPolicy) -> Seq<char> {
    match policy {
        MatchingPolicy::Prefix => "prefix"@,
        MatchingPolicy::Wildcard => "wildcard"@,
        MatchingPolicy::Strict => "exact"@,
    }
}

/// The options of `SUBSCRIBE` on the wire.
pub open spec fn subscribe_options_wire(options: SubscribeOptions) -> ValueView {
    ValueView::Dict(
        no_entries().push(("match"@, ValueView::String(policy_name(options.pattern_match)))),
    )
}

/// The options of `PUBLISH` on the wire.
pub open spec fn publish_options_wire(options: PublishOptions) -> ValueView {
    ValueView::Dict(
        no_entries().push(("acknowledge"@, ValueView::Boolean(options.acknowledge))),
    )
}

/// The entry `name` with the number `id`, where there is one.
pub open spec fn with_id(
    dict: Seq<(Seq<char>, ValueView)>,
    name: Seq<char>,
    id: Option<u64>,
) -> Seq<(Seq<char>, ValueView)> {
    match id {
        Some(n) => dict.push((name, ValueView::UnsignedInteger(n))),
        None => dict,
    }
}

/// The details of `EVENT` on the wire.
pub open spec fn event_details_wire(details: EventDetailsView) -> ValueView {
    let ids = with_id(
        with_id(no_entries(), "publisher"@, details.publisher),
        "trustlevel"@,
        details.trustlevel,
    );
    ValueView::Dict(
        match details.topic {
            Some(t) => ids.push(("topic"@, ValueView::String(t))),
            None => ids,
        },
    )
}

/// The code of the verb that an `ERROR` answers.
pub open spec fn error_type_code(kind: ErrorType) -> u64 {
    match kind {
        ErrorType::Subscribe => 32,
        ErrorType::Unsubscribe => 34,
        ErrorType::Publish => 16,
        ErrorType::Register => 64,
        ErrorType::Unregister => 66,
        ErrorType::Invocation => 68,
        ErrorType::Call => 48,
    }
}

/// The arguments at the end of an array. Absent arguments are left out;
/// absent positional arguments before keyword arguments are written as an
/// empty list.
pub open spec fn payload(
    args: Option<Seq<ValueView>>,
    kwargs: Option<Seq<(Seq<char>, ValueView)>>,
) -> Seq<ValueView> {
    match kwargs {
        Some(k) => seq![
            ValueView::List(
                match args {
                    Some(a) => a,
                    None => Seq::empty(),
                },
            ),
            ValueView::Dict(k),
        ],
        None => match args {
            Some(a) => seq![ValueView::List(a)],
            None => Seq::empty(),
        },
    }
}

/// The array that stands for a message: the code of the verb, then the
/// fields of the verb in the protocol's order.
pub open spec fn wire_of(message: MessageView) -> Seq<ValueView> {
    match message {
        MessageView::Hello(realm, details) => seq![
            ValueView::UnsignedInteger(1),
            ValueView::String(realm),
            hello_details_wire(details),
        ],
        MessageView::Welcome(session, details) => seq![
            ValueView::UnsignedInteger(2),
            ValueView::UnsignedInteger(session),
            welcome_details_wire(details),
        ],
        MessageView::Abort(details, reason) => seq![
            ValueView::UnsignedInteger(3),
            error_details_wire(details),
            ValueView::String(reason),
        ],
        MessageView::Goodbye(details, reason) => seq![
            ValueView::UnsignedInteger(6),
            error_details_wire(details),
            ValueView::String(reason),
        ],
        MessageView::Error(kind, request, details, reason, args, kwargs) => seq![
            ValueView::UnsignedInteger(8),
            ValueView::UnsignedInteger(error_type_code(kind)),
            ValueView::UnsignedInteger(request),
            ValueView::Dict(details),
            ValueView::String(reason),
        ] + payload(args, kwargs),
        MessageView::Subscribe(request, options, topic) => seq![
            ValueView::UnsignedInteger(32),
            ValueView::UnsignedInteger(request),
            subscribe_options_wire(options),
            ValueView::String(topic),
        ],
        MessageView::Subscribed(request, subscription) => seq![
            ValueView::UnsignedInteger(33),
            ValueView::UnsignedInteger(request),
            ValueView::UnsignedInteger(subscription),
        ],
        MessageView::Unsubscribe(request, subscription) => seq![
            ValueView::UnsignedInteger(34),
            ValueView::UnsignedInteger(request),
            ValueView::UnsignedInteger(subscription),
        ],
        MessageView::Unsubscribed(request) => seq![
            ValueView::UnsignedInteger(35),
            ValueView::UnsignedInteger(request),
        ],
        MessageView::Publish(request, options, topic, args, kwargs) => seq![
            ValueView::UnsignedInteger(16),
            ValueView::UnsignedInteger(request),
            publish_options_wire(options),
            ValueView::String(topic),
        ] + payload(args, kwargs),
        MessageView::Published(request, publication) => seq![
            ValueView::UnsignedInteger(17),
            ValueView::UnsignedInteger(request),
            ValueView::UnsignedInteger(publication),
        ],
        MessageView::Event(subscription, publication, details, args, kwargs) => seq![
            ValueView::UnsignedInteger(36),
            ValueView::UnsignedInteger(subscription),
            ValueView::UnsignedInteger(publication),
            event_details_wire(details),
        ] + payload(args, kwargs),
    }
}

fn features_role_value(fs: &Option<Vec<(String, bool)>>) -> (r: Value)
    ensures
        r@ == features_role(features_view(*fs)),
{
    let mut role = empty_dict();
    match fs {
        Some(f) => {
            let mut named = empty_dict();
            let mut i: usize = 0;
            let ghost all = features_view(*fs)->0;
            assert(dict_view(named@) =~= flags(all.take(0)));
            while i < f.len()
                invariant
                    i <= f.len(),
                    all == features_view(*fs)->0,
                    *fs == Some(*f),
                    dict_view(named@) == flags(all.take(i as int)),
                decreases f.len() - i,
            {
                let ghost before = dict_view(named@);
                put(&mut named, f[i].0.as_str(), Value::Boolean(f[i].1));
                assert(dict_view(named@) =~= flags(all.take(i + 1)));
                i += 1;
            }
            assert(all.take(all.len() as int) =~= all);
            put(&mut role, "features", Value::Dict(named));
        },
        None => {},
    }
    Value::Dict(role)
}

fn flag_role_value(flag: Option<bool>, name: &str) -> (r: Value)
    ensures
        r@ == flag_role(flag, name@),
{
    let mut role = empty_dict();
    match flag {
        Some(on) => {
            let mut named = empty_dict();
            put(&mut named, name, Value::Boolean(on));
            put(&mut role, "features", Value::Dict(named));
        },
        None => {},
    }
    Value::Dict(role)
}

fn client_roles_value(roles: &ClientRoles) -> (r: Value)
    ensures
        r@ == client_roles_wire(roles@),
{
    let subscriber = match roles.subscriber.features {
        Some(f) => Some(f.pattern_based_subscription),
        None => None,
    };
    let mut dict = empty_dict();
    put(&mut dict, "publisher", features_role_value(&roles.publisher.features));
    put(&mut dict, "subscriber", flag_role_value(subscriber, "pattern_based_subscription"));
    put(&mut dict, "caller", features_role_value(&roles.caller.features));
    put(&mut dict, "callee", features_role_value(&roles.callee.features));
    Value::Dict(dict)
}

fn router_roles_value(roles: &RouterRoles) -> (r: Value)
    ensures
        r@ == router_roles_wire(roles@),
{
    let dealer = match roles.dealer.features {
        Some(f) => Some(f.pattern_based_registration),
        None => None,
    };
    let broker = match roles.broker.features {
        Some(f) => Some(f.pattern_based_subscription),
        None => None,
    };
    let mut dict = empty_dict();
    put(&mut dict, "dealer", flag_role_value(dealer, "pattern_based_registration"));
    put(&mut dict, "broker", flag_role_value(broker, "pattern_based_subscription"));
    Value::Dict(dict)
}

fn put_agent(dict: &mut Dict, agent: &Option<String>)
    ensures
        dict_view(final(dict)@) == with_agent(dict_view(old(dict)@), text_view(*agent)),
{
    match agent {
        Some(a) => put(dict, "agent", Value::String(a.clone())),
        None => {},
    }
}

fn hello_details_value(details: &HelloDetails) -> (r: Value)
    ensures
        r@ == hello_details_wire(details@),
{
    let mut dict = empty_dict();
    put(&mut dict, "roles", client_roles_value(&details.roles));
    put_agent(&mut dict, &details.agent);
    Value::Dict(dict)
}

fn welcome_details_value(details: &WelcomeDetails) -> (r: Value)
    ensures
        r@ == welcome_details_wire(details@),
{
    let mut dict = empty_dict();
    put(&mut dict, "roles", router_roles_value(&details.roles));
    put_agent(&mut dict, &details.agent);
    Value::Dict(dict)
}

fn error_details_value(details: &ErrorDetails) -> (r: Value)
    ensures
        r@ == error_details_wire(details@),
{
    let mut dict = empty_dict();
    match &details.message {
        Some(m) => put(&mut dict, "message", Value::String(m.clone())),
        None => {},
    }
    Value::Dict(dict)
}

fn subscribe_options_value(options: &SubscribeOptions) -> (r: Value)
    ensures
        r@ == subscribe_options_wire(*options),
{
    let name = match options.pattern_match {
        MatchingPolicy::Prefix => "prefix",
        MatchingPolicy::Wildcard => "wildcard",
        MatchingPolicy::Strict => "exact",
    };
    let mut dict = empty_dict();
    put(&mut dict, "match", Value::String(name.to_owned()));
    Value::Dict(dict)
}

fn publish_options_value(options: &PublishOptions) -> (r: Value)
    ensures
        r@ == publish_options_wire(*options),
{
    let mut dict = empty_dict();
    put(&mut dict, "acknowledge", Value::Boolean(options.acknowledge));
    Value::Dict(dict)
}

fn put_id(dict: &mut Dict, name: &str, id: Option<u64>)
    ensures
        dict_view(final(dict)@) == with_id(dict_view(old(dict)@), name@, id),
{
    match id {
        Some(n) => put(dict, name, Value::UnsignedInteger(n)),
        None => {},
    }
}

fn event_details_value(details: &EventDetails) -> (r: Value)
    ensures
        r@ == event_details_wire(details@),
{
    let mut dict = empty_dict();
    put_id(&mut dict, "publisher", details.publisher);
    put_id(&mut dict, "trustlevel", details.trustlevel);
    match &details.topic {
        Some(t) => put(&mut dict, "topic", Value::String(t.uri.clone())),
        None => {},
    }
    Value::Dict(dict)
}

/// The code of the verb that an `ERROR` of the kind `kind` answers.
pub fn code_of_error_type(kind: ErrorType) -> (r: u64)
    ensures
        r == error_type_code(kind),
{
    match kind {
        ErrorType::Subscribe => 32,
        ErrorType::Unsubscribe => 34,
        ErrorType::Publish => 16,
        ErrorType::Register => 64,
        ErrorType::Unregister => 66,
        ErrorType::Invocation => 68,
        ErrorType::Call => 48,
    }
}

fn add_payload(fields: &mut List, args: &Option<List>, kwargs: &Option<Dict>)
    ensures
        list_view(final(fields)@) == list_view(old(fields)@) + payload(
            args_view(*args),
            kwargs_view(*kwargs),
        ),
{
    let ghost before = list_view(fields@);
    match kwargs {
        Some(k) => {
            let positional = match args {
                Some(a) => clone_list(a),
                None => empty_list(),
            };
            append_field(fields, Value::List(positional));
            append_field(fields, Value::Dict(clone_dict(k)));
            assert(list_view(fields@) =~= before + payload(args_view(*args), kwargs_view(*kwargs)));
        },
        None => match args {
            Some(a) => {
                append_field(fields, Value::List(clone_list(a)));
                assert(list_view(fields@) =~= before + payload(
                    args_view(*args),
                    kwargs_view(*kwargs),
                ));
            },
            None => {
                assert(list_view(fields@) =~= before + payload(
                    args_view(*args),
                    kwargs_view(*kwargs),
                ));
            },
        },
    }
}

/// The array that stands for `message`.
pub fn encode(message: &Message) -> (r: List)
    ensures
        list_view(r@) == wire_of(message@),
{
    let mut fields = empty_list();
    match message {
        Message::Hello(realm, details) => {
            append_field(&mut fields, Value::UnsignedInteger(1));
            append_field(&mut fields, Value::String(realm.uri.clone()));
            append_field(&mut fields, hello_details_value(details));
        },
        Message::Welcome(session, details) => {
            append_field(&mut fields, Value::UnsignedInteger(2));
            append_field(&mut fields, Value::UnsignedInteger(*session));
            append_field(&mut fields, welcome_details_value(details));
        },
        Message::Abort(details, reason) => {
            append_field(&mut fields, Value::UnsignedInteger(3));
            append_field(&mut fields, error_details_value(details));
            append_field(&mut fields, Value::String(reason.get_string()));
        },
        Message::Goodbye(details, reason) => {
            append_field(&mut fields, Value::UnsignedInteger(6));
            append_field(&mut fields, error_details_value(details));
            append_field(&mut fields, Value::String(reason.get_string()));
        },
        Message::Error(kind, request, details, reason, args, kwargs) => {
            append_field(&mut fields, Value::UnsignedInteger(8));
            append_field(&mut fields, Value::UnsignedInteger(code_of_error_type(*kind)));
            append_field(&mut fields, Value::UnsignedInteger(*request));
            append_field(&mut fields, Value::Dict(clone_dict(details)));
            append_field(&mut fields, Value::String(reason.get_string()));
            add_payload(&mut fields, args, kwargs);
        },
        Message::Subscribe(request, options, topic) => {
            append_field(&mut fields, Value::UnsignedInteger(32));
            append_field(&mut fields, Value::UnsignedInteger(*request));
            append_field(&mut fields, subscribe_options_value(options));
            append_field(&mut fields, Value::String(topic.uri.clone()));
        },
        Message::Subscribed(request, subscription) => {
            append_field(&mut fields, Value::UnsignedInteger(33));
            append_field(&mut fields, Value::UnsignedInteger(*request));
            append_field(&mut fields, Value::UnsignedInteger(*subscription));
        },
        Message::Unsubscribe(request, subscription) => {
            append_field(&mut fields, Value::UnsignedInteger(34));
            append_field(&mut fields, Value::UnsignedInteger(*request));
            append_field(&mut fields, Value::UnsignedInteger(*subscription));
        },
        Message::Unsubscribed(request) => {
            append_field(&mut fields, Value::UnsignedInteger(35));
            append_field(&mut fields, Value::UnsignedInteger(*request));
        },
        Message::Publish(request, options, topic, args, kwargs) => {
            append_field(&mut fields, Value::UnsignedInteger(16));
            append_field(&mut fields, Value::UnsignedInteger(*request));
            append_field(&mut fields, publish_options_value(options));
            append_field(&mut fields, Value::String(topic.uri.clone()));
            add_payload(&mut fields, args, kwargs);
        },
        Message::Published(request, publication) => {
            append_field(&mut fields, Value::UnsignedInteger(17));
            append_field(&mut fields, Value::UnsignedInteger(*request));
            append_field(&mut fields, Value::UnsignedInteger(*publication));
        },
        Message::Event(subscription, publication, details, args, kwargs) => {
            append_field(&mut fields, Value::UnsignedInteger(36));
            append_field(&mut fields, Value::UnsignedInteger(*subscription));
            append_field(&mut fields, Value::UnsignedInteger(*publication));
            append_field(&mut fields, event_details_value(details));
            add_payload(&mut fields, args, kwargs);
        },
    }
    assert(list_view(fields@) =~= wire_of(message@));
    fields
}

/// Whether the features `fs` name `name`.
pub open spec fn has_name(fs: Seq<(Seq<char>, bool)>, name: Seq<char>) -> bool {
    exists|i: int| 0 <= i < fs.len() && (#[trigger] fs[i]).0 == name
}

/// The entries of `dict` that hold a truth value, as named features, in
/// order. Where a name occurs more than once its last entry decides, so that
/// each name occurs once.
pub open spec fn bools(dict: Seq<(Seq<char>, ValueView)>) -> Seq<(Seq<char>, bool)>
    decreases dict.len(),
{
    if dict.len() == 0 {
        Seq::empty()
    } else {
        let rest = bools(dict.drop_first());
        match dict[0].1 {
            ValueView::Boolean(b) => if has_name(rest, dict[0].0) {
                rest
            } else {
                seq![(dict[0].0, b)] + rest
            },
            _ => rest,
        }
    }
}

/// Features that are read name each name once.
pub proof fn lemma_bools_name_once(dict: Seq<(Seq<char>, ValueView)>)
    ensures
        distinct_names(bools(dict)),
    decreases dict.len(),
{
    if dict.len() > 0 {
        lemma_bools_name_once(dict.drop_first());
        let rest = bools(dict.drop_first());
        let all = bools(dict);
        let name = dict[0].0;
        if all != rest {
            assert(!has_name(rest, name));
            assert(all.len() == rest.len() + 1);
            assert(all[0].0 == name);
            assert forall|i: int, j: int| 0 <= i < j < all.len() implies (#[trigger] all[i]).0
                != (#[trigger] all[j]).0 by {
                let later = rest[j - 1];
                assert(all[j] == later);
                if i == 0 {
                    assert(later.0 != name);
                } else {
                    let earlier = rest[i - 1];
                    assert(all[i] == earlier);
                    assert(earlier.0 != later.0);
                }
            }
        }
    }
}

/// The value that the dictionary `value` gives the name `key`.
pub open spec fn member(value: Option<ValueView>, key: Seq<char>) -> Option<ValueView> {
    match as_dict(value) {
        Some(d) => entry(d, key),
        None => None,
    }
}

/// The features that a role names, if it names any.
pub open spec fn features_of(role: Option<ValueView>) -> Option<Seq<(Seq<char>, bool)>> {
    match as_dict(member(role, "features"@)) {
        Some(f) => Some(bools(f)),
        None => None,
    }
}

/// Whether a role that names its features has the feature `name` on.
pub open spec fn flag_of(role: Option<ValueView>, name: Seq<char>) -> Option<bool> {
    match as_dict(member(role, "features"@)) {
        Some(f) => Some(as_bool(entry(f, name)) == Some(true)),
        None => None,
    }
}

/// The roles of a client out of their wire form.
pub open spec fn client_roles_of(roles: Option<ValueView>) -> ClientRolesView {
    ClientRolesView {
        publisher: features_of(member(roles, "publisher"@)),
        subscriber: flag_of(member(roles, "subscriber"@), "pattern_based_subscription"@),
        caller: features_of(member(roles, "caller"@)),
        callee: features_of(member(roles, "callee"@)),
    }
}

/// The roles of a router out of their wire form.
pub open spec fn router_roles_of(roles: Option<ValueView>) -> RouterRolesView {
    RouterRolesView {
        dealer: flag_of(member(roles, "dealer"@), "pattern_based_registration"@),
        broker: flag_of(member(roles, "broker"@), "pattern_based_subscription"@),
    }
}

/// The matching policy that the options of `SUBSCRIBE` name: the exact
/// one where they name none; none where they name one that is not known.
pub open spec fn policy_of(options: Seq<(Seq<char>, ValueView)>) -> Option<MatchingPolicy> {
    match entry(options, "match"@) {
        None => Some(MatchingPolicy::Strict),
        Some(ValueView::String(name)) => if name == "prefix"@ {
            Some(MatchingPolicy::Prefix)
        } else if name == "wildcard"@ {
            Some(MatchingPolicy::Wildcard)
        } else if name == "exact"@ {
            Some(MatchingPolicy::Strict)
        } else {
            None
        },
        Some(_) => None,
    }
}

/// The kind of `ERROR` that answers the verb with the code `code`.
pub open spec fn error_type_of(code: u64) -> Option<ErrorType> {
    if code == 32 {
        Some(ErrorType::Subscribe)
    } else if code == 34 {
        Some(ErrorType::Unsubscribe)
    } else if code == 16 {
        Some(ErrorType::Publish)
    } else if code == 64 {
        Some(ErrorType::Register)
    } else if code == 66 {
        Some(ErrorType::Unregister)
    } else if code == 68 {
        Some(ErrorType::Invocation)
    } else if code == 48 {
        Some(ErrorType::Call)
    } else {
        None
    }
}

/// The positional arguments at place `from` of an array: none where the
/// array ends before, and no answer where something else stands there.
pub open spec fn args_of(fields: Seq<ValueView>, from: int) -> Option<Option<Seq<ValueView>>> {
    match field(fields, from) {
        None => Some(None),
        Some(ValueView::List(a)) => Some(Some(a)),
        Some(_) => None,
    }
}

/// The keyword arguments at place `from` of an array.
pub open spec fn kwargs_of(fields: Seq<ValueView>, from: int) -> Option<
    Option<Seq<(Seq<char>, ValueView)>>,
> {
    match field(fields, from) {
        None => Some(None),
        Some(ValueView::Dict(k)) => Some(Some(k)),
        Some(_) => None,
    }
}

/// The message that an array stands for, if it stands for one: its first
/// field is the code of a verb and the fields of the verb follow, each of
/// the kind that the verb asks for. Entries of details and options that the
/// protocol does not name are passed over, and so are fields after the
/// verb's last.
pub open spec fn message_of(fields: Seq<ValueView>) -> Option<MessageView> {
    let id1 = as_id(field(fields, 1));
    let id2 = as_id(field(fields, 2));
    match as_id(field(fields, 0)) {
        Some(1) => match (as_text(field(fields, 1)), as_dict(field(fields, 2))) {
            (Some(realm), Some(d)) => Some(
                MessageView::Hello(
                    realm,
                    HelloDetailsView {
                        agent: as_text(entry(d, "agent"@)),
                        roles: client_roles_of(entry(d, "roles"@)),
                    },
                ),
            ),
            _ => None,
        },
        Some(2) => match (id1, as_dict(field(fields, 2))) {
            (Some(session), Some(d)) => Some(
                MessageView::Welcome(
                    session,
                    WelcomeDetailsView {
                        agent: as_text(entry(d, "agent"@)),
                        roles: router_roles_of(entry(d, "roles"@)),
                    },
                ),
            ),
            _ => None,
        },
        Some(3) => match (as_dict(field(fields, 1)), as_text(field(fields, 2))) {
            (Some(d), Some(reason)) => Some(
                MessageView::Abort(
                    ErrorDetailsView { message: as_text(entry(d, "message"@)) },
                    reason,
                ),
            ),
            _ => None,
        },
        Some(6) => match (as_dict(field(fields, 1)), as_text(field(fields, 2))) {
            (Some(d), Some(reason)) => Some(
                MessageView::Goodbye(
                    ErrorDetailsView { message: as_text(entry(d, "message"@)) },
                    reason,
                ),
            ),
            _ => None,
        },
        Some(8) => match (
            id1,
            id2,
            as_dict(field(fields, 3)),
            as_text(field(fields, 4)),
            args_of(fields, 5),
            kwargs_of(fields, 6),
        ) {
            (Some(code), Some(request), Some(d), Some(reason), Some(args), Some(kwargs)) => {
                match error_type_of(code) {
                    Some(kind) => Some(MessageView::Error(kind, request, d, reason, args, kwargs)),
                    None => None,
                }
            },
            _ => None,
        },
        Some(32) => match (id1, as_dict(field(fields, 2)), as_text(field(fields, 3))) {
            (Some(request), Some(d), Some(topic)) => match policy_of(d) {
                Some(policy) => Some(
                    MessageView::Subscribe(
                        request,
                        SubscribeOptions { pattern_match: policy },
                        topic,
                    ),
                ),
                None => None,
            },
            _ => None,
        },
        Some(33) => match (id1, id2) {
            (Some(request), Some(subscription)) => Some(
                MessageView::Subscribed(request, subscription),
            ),
            _ => None,
        },
        Some(34) => match (id1, id2) {
            (Some(request), Some(subscription)) => Some(
                MessageView::Unsubscribe(request, subscription),
            ),
            _ => None,
        },
        Some(35) => match id1 {
            Some(request) => Some(MessageView::Unsubscribed(request)),
            None => None,
        },
        Some(16) => match (
            id1,
            as_dict(field(fields, 2)),
            as_text(field(fields, 3)),
            args_of(fields, 4),
            kwargs_of(fields, 5),
        ) {
            (Some(request), Some(d), Some(topic), Some(args), Some(kwargs)) => Some(
                MessageView::Publish(
                    request,
                    PublishOptions {
                        acknowledge: as_bool(entry(d, "acknowledge"@)) == Some(true),
                    },
                    topic,
                    args,
                    kwargs,
                ),
            ),
            _ => None,
        },
        Some(17) => match (id1, id2) {
            (Some(request), Some(publication)) => Some(
                MessageView::Published(request, publication),
            ),
            _ => None,
        },
        Some(36) => match (
            id1,
            id2,
            as_dict(field(fields, 3)),
            args_of(fields, 4),
            kwargs_of(fields, 5),
        ) {
            (Some(subscription), Some(publication), Some(d), Some(args), Some(kwargs)) => Some(
                MessageView::Event(
                    subscription,
                    publication,
                    EventDetailsView {
                        publisher: as_id(entry(d, "publisher"@)),
                        trustlevel: as_id(entry(d, "trustlevel"@)),
                        topic: as_text(entry(d, "topic"@)),
                    },
                    args,
                    kwargs,
                ),
            ),
            _ => None,
        },
        _ => None,
    }
}

fn get_member<'a>(value: Option<&'a Value>, key: &str) -> (r: Option<&'a Value>)
    ensures
        value_view(r) == member(value_view(value), key@),
{
    match to_dict(value) {
        Some(d) => get(d, key),
        None => None,
    }
}

fn read_text(value: Option<&Value>) -> (r: Option<String>)
    ensures
        text_view(r) == as_text(value_view(value)),
{
    match to_text(value) {
        Some(s) => Some(s.clone()),
        None => None,
    }
}

fn names(features: &Vec<(String, bool)>, name: &str) -> (r: bool)
    ensures
        r == has_name(features_view(Some(*features))->0, name@),
{
    let ghost fs = features_view(Some(*features))->0;
    let mut i: usize = 0;
    while i < features.len()
        invariant
            i <= features.len(),
            fs == features_view(Some(*features))->0,
            forall|j: int| 0 <= j < i ==> (#[trigger] fs[j]).0 != name@,
        decreases features.len() - i,
    {
        if same_string(features[i].0.as_str(), name) {
            assert(fs[i as int].0 == name@);
            return true;
        }
        i += 1;
    }
    false
}

fn read_features(role: Option<&Value>) -> (r: Option<Vec<(String, bool)>>)
    ensures
        features_view(r) == features_of(value_view(role)),
        names_once(features_view(r)),
{
    match to_dict(get_member(role, "features")) {
        Some(named) => {
            let mut out: Vec<(String, bool)> = Vec::new();
            let ghost all = dict_view(named@);
            let mut i: usize = named.len();
            assert(all.skip(i as int) =~= Seq::empty());
            assert(features_view(Some(out))->0 =~= bools(all.skip(i as int)));
            while i > 0
                invariant
                    i <= named.len(),
                    all == dict_view(named@),
                    features_view(Some(out))->0 == bools(all.skip(i as int)),
                decreases i,
            {
                let ghost before = features_view(Some(out))->0;
                proof {
                    assert(all.skip(i - 1).drop_first() =~= all.skip(i as int));
                    assert(all.skip(i - 1)[0] == all[i - 1]);
                }
                match &named[i - 1].1 {
                    Value::Boolean(b) => {
                        if !names(&out, named[i - 1].0.as_str()) {
                            out.insert(0, (named[i - 1].0.clone(), *b));
                            assert(features_view(Some(out))->0 =~= seq![(all[i - 1].0, *b)]
                                + before);
                        }
                    },
                    _ => {},
                }
                i -= 1;
            }
            proof {
                assert(all.skip(0) =~= all);
                lemma_bools_name_once(all);
            }
            Some(out)
        },
        None => None,
    }
}

fn read_flag(role: Option<&Value>, name: &str) -> (r: Option<bool>)
    ensures
        r == flag_of(value_view(role), name@),
{
    match to_dict(get_member(role, "features")) {
        Some(named) => match to_bool(get(named, name)) {
            Some(true) => Some(true),
            _ => Some(false),
        },
        None => None,
    }
}

fn read_client_roles(roles: Option<&Value>) -> (r: ClientRoles)
    ensures
        r@ == client_roles_of(value_view(roles)),
        r@.wf(),
{
    let subscriber = match read_flag(
        get_member(roles, "subscriber"),
        "pattern_based_subscription",
    ) {
        Some(on) => Some(SubscriberFeatures { pattern_based_subscription: on }),
        None => None,
    };
    ClientRoles {
        publisher: PublisherRole { features: read_features(get_member(roles, "publisher")) },
        subscriber: SubscriberRole { features: subscriber },
        caller: CallerRole { features: read_features(get_member(roles, "caller")) },
        callee: CalleeRole { features: read_features(get_member(roles, "callee")) },
    }
}

fn read_router_roles(roles: Option<&Value>) -> (r: RouterRoles)
    ensures
        r@ == router_roles_of(value_view(roles)),
{
    let dealer = match read_flag(get_member(roles, "dealer"), "pattern_based_registration") {
        Some(on) => Some(DealerFeatures { pattern_based_registration: on }),
        None => None,
    };
    let broker = match read_flag(get_member(roles, "broker"), "pattern_based_subscription") {
        Some(on) => Some(BrokerFeatures { pattern_based_subscription: on }),
        None => None,
    };
    RouterRoles { dealer: DealerRole { features: dealer }, broker: BrokerRole { features: broker } }
}

fn read_policy(options: &Dict) -> (r: Option<MatchingPolicy>)
    ensures
        r == policy_of(dict_view(options@)),
{
    match get(options, "match") {
        None => Some(MatchingPolicy::Strict),
        Some(Value::String(name)) => {
            if same_string(name.as_str(), "prefix") {
                Some(MatchingPolicy::Prefix)
            } else if same_string(name.as_str(), "wildcard") {
                Some(MatchingPolicy::Wildcard)
            } else if same_string(name.as_str(), "exact") {
                Some(MatchingPolicy::Strict)
            } else {
                None
            }
        },
        Some(_) => None,
    }
}

/// The kind of `ERROR` that answers the verb with the code `code`.
pub fn error_type_of_code(code: u64) -> (r: Option<ErrorType>)
    ensures
        r == error_type_of(code),
{
    if code == 32 {
        Some(ErrorType::Subscribe)
    } else if code == 34 {
        Some(ErrorType::Unsubscribe)
    } else if code == 16 {
        Some(ErrorType::Publish)
    } else if code == 64 {
        Some(ErrorType::Register)
    } else if code == 66 {
        Some(ErrorType::Unregister)
    } else if code == 68 {
        Some(ErrorType::Invocation)
    } else if code == 48 {
        Some(ErrorType::Call)
    } else {
        None
    }
}

fn read_args(fields: &List, from: usize) -> (r: Option<Option<List>>)
    ensures
        match r {
            Some(a) => args_of(list_view(fields@), from as int) == Some(args_view(a)),
            None => args_of(list_view(fields@), from as int) is None,
        },
{
    match nth(fields, from) {
        None => Some(None),
        Some(Value::List(a)) => Some(Some(clone_list(a))),
        Some(_) => None,
    }
}

fn read_kwargs(fields: &List, from: usize) -> (r: Option<Option<Dict>>)
    ensures
        match r {
            Some(k) => kwargs_of(list_view(fields@), from as int) == Some(kwargs_view(k)),
            None => kwargs_of(list_view(fields@), from as int) is None,
        },
{
    match nth(fields, from) {
        None => Some(None),
        Some(Value::Dict(k)) => Some(Some(clone_dict(k))),
        Some(_) => None,
    }
}

/// The error of an array that stands for no message.
fn malformed() -> (r: Error)
    ensures
        r.kind is MalformedData,
{
    Error::new(ErrorKind::MalformedData)
}

/// Whether the roles that the message announces, if it announces any, name
/// each of their features once.
pub open spec fn canonical_roles(message: MessageView) -> bool {
    match message {
        MessageView::Hello(_, details) => details.roles.wf(),
        _ => true,
    }
}

/// Whether the reason that the message gives, if it gives one, is the one
/// that its URI names.
pub open spec fn reason_is_canonical(message: Message) -> bool {
    match message {
        Message::Abort(_, reason) => reason.is_canonical(),
        Message::Goodbye(_, reason) => reason.is_canonical(),
        Message::Error(_, _, _, reason, _, _) => reason.is_canonical(),
        _ => true,
    }
}

/// Reads the message that the array `fields` stands for. A reason is read
/// as the reason that the protocol names by its URI, or else as a custom
/// reason. An array that stands for no message is malformed.
pub fn decode(fields: &List) -> (r: Result<Message, Error>)
    ensures
        match r {
            Ok(message) => message_of(list_view(fields@)) == Some(message@)
                && reason_is_canonical(message) && canonical_roles(message@),
            Err(e) => message_of(list_view(fields@)) is None && e.kind is MalformedData,
        },
{
    let code = match to_id(nth(fields, 0)) {
        Some(code) => code,
        None => {
            return Err(malformed());
        },
    };
    let id1 = to_id(nth(fields, 1));
    let id2 = to_id(nth(fields, 2));
    let read = if code == 1 {
        match (read_text(nth(fields, 1)), to_dict(nth(fields, 2))) {
            (Some(realm), Some(d)) => Some(
                Message::Hello(
                    URI { uri: realm },
                    HelloDetails {
                        agent: read_text(get(d, "agent")),
                        roles: read_client_roles(get(d, "roles")),
                    },
                ),
            ),
            _ => None,
        }
    } else if code == 2 {
        match (id1, to_dict(nth(fields, 2))) {
            (Some(session), Some(d)) => Some(
                Message::Welcome(
                    session,
                    WelcomeDetails {
                        agent: read_text(get(d, "agent")),
                        roles: read_router_roles(get(d, "roles")),
                    },
                ),
            ),
            _ => None,
        }
    } else if code == 3 {
        match (to_dict(nth(fields, 1)), to_text(nth(fields, 2))) {
            (Some(d), Some(reason)) => Some(
                Message::Abort(
                    ErrorDetails { message: read_text(get(d, "message")) },
                    Reason::from_uri(reason.as_str()),
                ),
            ),
            _ => None,
        }
    } else if code == 6 {
        match (to_dict(nth(fields, 1)), to_text(nth(fields, 2))) {
            (Some(d), Some(reason)) => Some(
                Message::Goodbye(
                    ErrorDetails { message: read_text(get(d, "message")) },
                    Reason::from_uri(reason.as_str()),
                ),
            ),
            _ => None,
        }
    } else if code == 8 {
        match (
            id1,
            id2,
            to_dict(nth(fields, 3)),
            to_text(nth(fields, 4)),
            read_args(fields, 5),
            read_kwargs(fields, 6),
        ) {
            (Some(kind), Some(request), Some(d), Some(reason), Some(args), Some(kwargs)) => {
                match error_type_of_code(kind) {
                    Some(kind) => Some(
                        Message::Error(
                            kind,
                            request,
                            clone_dict(d),
                            Reason::from_uri(reason.as_str()),
                            args,
                            kwargs,
                        ),
                    ),
                    None => None,
                }
            },
            _ => None,
        }
    } else if code == 32 {
        match (id1, to_dict(nth(fields, 2)), read_text(nth(fields, 3))) {
            (Some(request), Some(d), Some(topic)) => match read_policy(d) {
                Some(policy) => Some(
                    Message::Subscribe(
                        request,
                        SubscribeOptions { pattern_match: policy },
                        URI { uri: topic },
                    ),
                ),
                None => None,
            },
            _ => None,
        }
    } else if code == 33 {
        match (id1, id2) {
            (Some(request), Some(subscription)) => Some(Message::Subscribed(request, subscription)),
            _ => None,
        }
    } else if code == 34 {
        match (id1, id2) {
            (Some(request), Some(subscription)) => Some(
                Message::Unsubscribe(request, subscription),
            ),
            _ => None,
        }
    } else if code == 35 {
        match id1 {
            Some(request) => Some(Message::Unsubscribed(request)),
            None => None,
        }
    } else if code == 16 {
        match (
            id1,
            to_dict(nth(fields, 2)),
            read_text(nth(fields, 3)),
            read_args(fields, 4),
            read_kwargs(fields, 5),
        ) {
            (Some(request), Some(d), Some(topic), Some(args), Some(kwargs)) => {
                let acknowledge = match to_bool(get(d, "acknowledge")) {
                    Some(true) => true,
                    _ => false,
                };
                Some(
                    Message::Publish(
                        request,
                        PublishOptions { acknowledge },
                        URI { uri: topic },
                        args,
                        kwargs,
                    ),
                )
            },
            _ => None,
        }
    } else if code == 17 {
        match (id1, id2) {
            (Some(request), Some(publication)) => Some(Message::Published(request, publication)),
            _ => None,
        }
    } else if code == 36 {
        match (id1, id2, to_dict(nth(fields, 3)), read_args(fields, 4), read_kwargs(fields, 5)) {
            (Some(subscription), Some(publication), Some(d), Some(args), Some(kwargs)) => {
                let topic = match read_text(get(d, "topic")) {
                    Some(t) => Some(URI { uri: t }),
                    None => None,
                };
                Some(
                    Message::Event(
                        subscription,
                        publication,
                        EventDetails {
                            publisher: to_id(get(d, "publisher")),
                            trustlevel: to_id(get(d, "trustlevel")),
                            topic,
                        },
                        args,
                        kwargs,
                    ),
                )
            },
            _ => None,
        }
    } else {
        None
    };
    match read {
        Some(message) => Ok(message),
        None => Err(malformed()),
    }
}

/// Whether the message can be told on the wire from every other: its
/// keyword arguments come with positional ones, and the roles that it
/// announces name each feature once.
pub open spec fn canonical(message: MessageView) -> bool {
    match message {
        MessageView::Hello(_, details) => details.roles.wf(),
        MessageView::Error(_, _, _, _, args, kwargs) => kwargs is Some ==> args is Some,
        MessageView::Publish(_, _, _, args, kwargs) => kwargs is Some ==> args is Some,
        MessageView::Event(_, _, _, args, kwargs) => kwargs is Some ==> args is Some,
        _ => true,
    }
}

/// The last entry of a dictionary decides for its name; for every other
/// name the entries before it decide.
proof fn lemma_entry_push(
    dict: Seq<(Seq<char>, ValueView)>,
    name: Seq<char>,
    value: ValueView,
    key: Seq<char>,
)
    ensures
        entry(dict.push((name, value)), key) == (if name == key {
            Some(value)
        } else {
            entry(dict, key)
        }),
{
    assert(dict.push((name, value)).drop_last() =~= dict);
}

/// The names that stand side by side in one dictionary differ.
proof fn lemma_names_differ()
    ensures
        "agent"@ != "roles"@,
        "publisher"@ != "subscriber"@,
        "publisher"@ != "caller"@,
        "publisher"@ != "callee"@,
        "subscriber"@ != "caller"@,
        "subscriber"@ != "callee"@,
        "caller"@ != "callee"@,
        "dealer"@ != "broker"@,
        "publisher"@ != "trustlevel"@,
        "publisher"@ != "topic"@,
        "trustlevel"@ != "topic"@,
        "prefix"@ != "wildcard"@,
        "prefix"@ != "exact"@,
        "wildcard"@ != "exact"@,
{
    reveal_strlit("agent");
    reveal_strlit("roles");
    reveal_strlit("publisher");
    reveal_strlit("subscriber");
    reveal_strlit("caller");
    reveal_strlit("callee");
    reveal_strlit("dealer");
    reveal_strlit("broker");
    reveal_strlit("trustlevel");
    reveal_strlit("topic");
    reveal_strlit("prefix");
    reveal_strlit("wildcard");
    reveal_strlit("exact");
    assert("caller"@[5] != "callee"@[5]);
    assert("agent"@[0] != "roles"@[0]);
    assert("dealer"@[0] != "broker"@[0]);
    assert("publisher"@.len() == 9);
    assert("subscriber"@.len() == 10);
    assert("caller"@.len() == 6);
    assert("callee"@.len() == 6);
    assert("trustlevel"@.len() == 10);
    assert("topic"@.len() == 5);
    assert("prefix"@.len() == 6);
    assert("wildcard"@.len() == 8);
    assert("exact"@.len() == 5);
}

proof fn lemma_bools_of_flags(fs: Seq<(Seq<char>, bool)>)
    requires
        distinct_names(fs),
    ensures
        bools(flags(fs)) == fs,
    decreases fs.len(),
{
    if fs.len() > 0 {
        let rest = fs.drop_first();
        assert(flags(fs).drop_first() =~= flags(rest));
        assert forall|i: int, j: int| 0 <= i < j < rest.len() implies (#[trigger] rest[i]).0 != (
        #[trigger] rest[j]).0 by {
            let earlier = fs[i + 1];
            let later = fs[j + 1];
            assert(rest[i] == earlier && rest[j] == later);
            assert(earlier.0 != later.0);
        }
        lemma_bools_of_flags(rest);
        assert(!has_name(rest, fs[0].0)) by {
            if has_name(rest, fs[0].0) {
                let k = choose|k: int| 0 <= k < rest.len() && (#[trigger] rest[k]).0 == fs[0].0;
                let first = fs[0];
                let other = fs[k + 1];
                assert(rest[k] == other);
                assert(first.0 != other.0);
            }
        }
        assert(bools(flags(fs)) =~= fs);
    } else {
        assert(bools(flags(fs)) =~= fs);
    }
}

proof fn lemma_features_role(fs: Option<Seq<(Seq<char>, bool)>>)
    requires
        names_once(fs),
    ensures
        features_of(Some(features_role(fs))) == fs,
{
    match fs {
        Some(f) => {
            lemma_entry_push(no_entries(), "features"@, ValueView::Dict(flags(f)), "features"@);
            lemma_bools_of_flags(f);
        },
        None => {},
    }
}

proof fn lemma_flag_role(flag: Option<bool>, name: Seq<char>)
    ensures
        flag_of(Some(flag_role(flag, name)), name) == flag,
{
    match flag {
        Some(on) => {
            let named = no_entries().push((name, ValueView::Boolean(on)));
            lemma_entry_push(no_entries(), "features"@, ValueView::Dict(named), "features"@);
            lemma_entry_push(no_entries(), name, ValueView::Boolean(on), name);
        },
        None => {},
    }
}

proof fn lemma_client_roles(roles: ClientRolesView)
    requires
        roles.wf(),
    ensures
        client_roles_of(Some(client_roles_wire(roles))) == roles,
{
    lemma_names_differ();
    let p = ("publisher"@, features_role(roles.publisher));
    let s = ("subscriber"@, flag_role(roles.subscriber, "pattern_based_subscription"@));
    let c = ("caller"@, features_role(roles.caller));
    let e = ("callee"@, features_role(roles.callee));
    let d0 = no_entries();
    let d1 = d0.push(p);
    let d2 = d1.push(s);
    let d3 = d2.push(c);
    assert forall|key: Seq<char>|
        entry(d3.push(e), key) == (if key == e.0 {
            Some(e.1)
        } else if key == c.0 {
            Some(c.1)
        } else if key == s.0 {
            Some(s.1)
        } else if key == p.0 {
            Some(p.1)
        } else {
            None
        }) by {
        lemma_entry_push(d3, e.0, e.1, key);
        lemma_entry_push(d2, c.0, c.1, key);
        lemma_entry_push(d1, s.0, s.1, key);
        lemma_entry_push(d0, p.0, p.1, key);
    }
    lemma_features_role(roles.publisher);
    lemma_features_role(roles.caller);
    lemma_features_role(roles.callee);
    lemma_flag_role(roles.subscriber, "pattern_based_subscription"@);
}

proof fn lemma_router_roles(roles: RouterRolesView)
    ensures
        router_roles_of(Some(router_roles_wire(roles))) == roles,
{
    lemma_names_differ();
    let d = ("dealer"@, flag_role(roles.dealer, "pattern_based_registration"@));
    let b = ("broker"@, flag_role(roles.broker, "pattern_based_subscription"@));
    assert forall|key: Seq<char>|
        entry(no_entries().push(d).push(b), key) == (if key == b.0 {
            Some(b.1)
        } else if key == d.0 {
            Some(d.1)
        } else {
            None
        }) by {
        lemma_entry_push(no_entries().push(d), b.0, b.1, key);
        lemma_entry_push(no_entries(), d.0, d.1, key);
    }
    lemma_flag_role(roles.dealer, "pattern_based_registration"@);
    lemma_flag_role(roles.broker, "pattern_based_subscription"@);
}

proof fn lemma_agent(roles: ValueView, agent: Option<Seq<char>>)
    ensures
        entry(with_agent(no_entries().push(("roles"@, roles)), agent), "roles"@) == Some(roles),
        as_text(entry(with_agent(no_entries().push(("roles"@, roles)), agent), "agent"@))
            == agent,
{
    lemma_names_differ();
    let d = no_entries().push(("roles"@, roles));
    lemma_entry_push(no_entries(), "roles"@, roles, "roles"@);
    lemma_entry_push(no_entries(), "roles"@, roles, "agent"@);
    match agent {
        Some(a) => {
            lemma_entry_push(d, "agent"@, ValueView::String(a), "roles"@);
            lemma_entry_push(d, "agent"@, ValueView::String(a), "agent"@);
        },
        None => {},
    }
}

proof fn lemma_error_details(details: ErrorDetailsView)
    ensures
        as_text(entry(as_dict(Some(error_details_wire(details)))->0, "message"@))
            == details.message,
{
    match details.message {
        Some(m) => {
            lemma_entry_push(no_entries(), "message"@, ValueView::String(m), "message"@);
        },
        None => {},
    }
}

proof fn lemma_event_details(details: EventDetailsView)
    ensures
        ({
            let d = as_dict(Some(event_details_wire(details)))->0;
            &&& as_id(entry(d, "publisher"@)) == details.publisher
            &&& as_id(entry(d, "trustlevel"@)) == details.trustlevel
            &&& as_text(entry(d, "topic"@)) == details.topic
        }),
{
    lemma_names_differ();
    let d0 = no_entries();
    let d1 = with_id(d0, "publisher"@, details.publisher);
    let d2 = with_id(d1, "trustlevel"@, details.trustlevel);
    let d3 = as_dict(Some(event_details_wire(details)))->0;
    assert forall|key: Seq<char>|
        entry(d1, key) == (if key == "publisher"@ && details.publisher is Some {
            Some(ValueView::UnsignedInteger(details.publisher->0))
        } else {
            None
        }) by {
        if details.publisher is Some {
            lemma_entry_push(
                d0,
                "publisher"@,
                ValueView::UnsignedInteger(details.publisher->0),
                key,
            );
        }
    }
    assert forall|key: Seq<char>|
        entry(d2, key) == (if key == "trustlevel"@ && details.trustlevel is Some {
            Some(ValueView::UnsignedInteger(details.trustlevel->0))
        } else {
            entry(d1, key)
        }) by {
        if details.trustlevel is Some {
            lemma_entry_push(
                d1,
                "trustlevel"@,
                ValueView::UnsignedInteger(details.trustlevel->0),
                key,
            );
        }
    }
    assert forall|key: Seq<char>|
        entry(d3, key) == (if key == "topic"@ && details.topic is Some {
            Some(ValueView::String(details.topic->0))
        } else {
            entry(d2, key)
        }) by {
        if details.topic is Some {
            lemma_entry_push(d2, "topic"@, ValueView::String(details.topic->0), key);
        }
    }
}

proof fn lemma_payload(
    head: Seq<ValueView>,
    args: Option<Seq<ValueView>>,
    kwargs: Option<Seq<(Seq<char>, ValueView)>>,
)
    requires
        kwargs is Some ==> args is Some,
    ensures
        args_of(head + payload(args, kwargs), head.len() as int) == Some(args),
        kwargs_of(head + payload(args, kwargs), head.len() as int + 1) == Some(kwargs),
        forall|i: int| 0 <= i < head.len() ==> field(head + payload(args, kwargs), i) == Some(
            head[i],
        ),
{
    let all = head + payload(args, kwargs);
    let n = head.len() as int;
    if kwargs is Some {
        assert(all[n] == payload(args, kwargs)[0]);
        assert(all[n + 1] == payload(args, kwargs)[1]);
    } else if args is Some {
        assert(all[n] == payload(args, kwargs)[0]);
    }
}

/// Reading what was written gives the message back: for every message
/// whose arguments can be told apart on the wire, the array that stands for
/// the message stands for no other.
pub proof fn lemma_round_trip(message: MessageView)
    requires
        canonical(message),
    ensures
        message_of(wire_of(message)) == Some(message),
{
    lemma_names_differ();
    match message {
        MessageView::Hello(realm, details) => {
            lemma_agent(client_roles_wire(details.roles), details.agent);
            lemma_client_roles(details.roles);
        },
        MessageView::Welcome(session, details) => {
            lemma_agent(router_roles_wire(details.roles), details.agent);
            lemma_router_roles(details.roles);
        },
        MessageView::Abort(details, reason) => {
            lemma_error_details(details);
        },
        MessageView::Goodbye(details, reason) => {
            lemma_error_details(details);
        },
        MessageView::Error(kind, request, details, reason, args, kwargs) => {
            let head = seq![
                ValueView::UnsignedInteger(8),
                ValueView::UnsignedInteger(error_type_code(kind)),
                ValueView::UnsignedInteger(request),
                ValueView::Dict(details),
                ValueView::String(reason),
            ];
            lemma_payload(head, args, kwargs);
        },
        MessageView::Subscribe(request, options, topic) => {
            lemma_entry_push(
                no_entries(),
                "match"@,
                ValueView::String(policy_name(options.pattern_match)),
                "match"@,
            );
        },
        MessageView::Publish(request, options, topic, args, kwargs) => {
            let head = seq![
                ValueView::UnsignedInteger(16),
                ValueView::UnsignedInteger(request),
                publish_options_wire(options),
                ValueView::String(topic),
            ];
            lemma_payload(head, args, kwargs);
            lemma_entry_push(
                no_entries(),
                "acknowledge"@,
                ValueView::Boolean(options.acknowledge),
                "acknowledge"@,
            );
        },
        MessageView::Event(subscription, publication, details, args, kwargs) => {
            let head = seq![
                ValueView::UnsignedInteger(36),
                ValueView::UnsignedInteger(subscription),
                ValueView::UnsignedInteger(publication),
                event_details_wire(details),
            ];
            lemma_payload(head, args, kwargs);
            lemma_event_details(details);
        },
        _ => {},
    }
}

} // verus!
