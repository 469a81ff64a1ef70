//! The protocol's messages and the values they carry.

pub mod types;
pub mod wire;

pub use self::types::{
    BrokerFeatures, BrokerRole, CalleeRole, CallerRole, ClientRoles, ClientRolesView,
    DealerFeatures, DealerRole, Dict, List, PublisherRole, RouterRoles, RouterRolesView,
    SubscriberFeatures, SubscriberRole, Value, ValueView,
};

use self::types::value::{clone_dict, clone_list, dict_view, list_view};
use vstd::prelude::*;

verus! {

/// A dot-separated name of a topic, of a realm or of an error.
#[derive(Debug, PartialEq, Eq, Hash)]
pub struct URI {
    pub uri: String,
}

impl View for URI {
    type V = Seq<char>;

    open spec fn view(&self) -> Seq<char> {
        self.uri@
    }
}

impl URI {
    /// Makes a URI of the given text.
    pub fn new(uri: &str) -> (r: URI)
        ensures
            r@ == uri@,
    {
        URI { uri: uri.to_owned() }
    }
}

impl Clone for URI {
    fn clone(&self) -> (r: URI)
        ensures
            r@ == self@,
    {
        URI { uri: self.uri.clone() }
    }
}

/// How a subscription's URI is compared with the topic of a publication.
#[derive(Debug, Clone, Copy, PartialEq, Eq, Structural, Hash)]
pub enum MatchingPolicy {
    /// The URI names the topic itself and every topic below it.
    Prefix,
    /// An empty component of the URI stands for any one component.
    Wildcard,
    /// The URI names exactly one topic.
    Strict,
}

/// The kind of request that an `ERROR` message answers.
#[derive(Debug, Clone, Copy, PartialEq, Eq, Structural, Hash)]
pub enum ErrorType {
    Subscribe,
    Unsubscribe,
    Publish,
    Register,
    Unregister,
    Invocation,
    Call,
}

/// Why a session ends or a request fails.
#[derive(Debug, Clone, PartialEq, Eq, Hash)]
pub enum Reason {
    InvalidURI,
    NoSuchProcedure,
    ProcedureAlreadyExists,
    NoSuchRegistration,
    NoSuchSubscription,
    InvalidArgument,
    SystemShutdown,
    CloseRealm,
    GoodbyeAndOut,
    NotAuthorized,
    AuthorizationFailed,
    NoSuchRealm,
    NoSuchRole,
    Cancelled,
    OptionNotAllowed,
    NoEligibleCallee,
    OptionDisallowedDiscloseMe,
    NetworkFailure,
    NormalClose,
    ProtocolViolation,
    /// A reason that the protocol does not name.
    CustomReason(URI),
}

impl View for Reason {
    type V = Seq<char>;

    /// The URI that names the reason on the wire.
    open spec fn view(&self) -> Seq<char> {
        match *self {
            Reason::InvalidURI => "wamp.error.invalid_uri"@,
            Reason::NoSuchProcedure => "wamp.error.no_such_procedure"@,
            Reason::ProcedureAlreadyExists => "wamp.error.procedure_already_exists"@,
            Reason::NoSuchRegistration => "wamp.error.no_such_registration"@,
            Reason::NoSuchSubscription => "wamp.error.no_such_subscription"@,
            Reason::InvalidArgument => "wamp.error.invalid_argument"@,
            Reason::SystemShutdown => "wamp.error.system_shutdown"@,
            Reason::CloseRealm => "wamp.error.close_realm"@,
            Reason::GoodbyeAndOut => "wamp.error.goodbye_and_out"@,
            Reason::NotAuthorized => "wamp.error.not_authorized"@,
            Reason::AuthorizationFailed => "wamp.error.authorization_failed"@,
            Reason::NoSuchRealm => "wamp.error.no_such_realm"@,
            Reason::NoSuchRole => "wamp.error.no_such_role"@,
            Reason::Cancelled => "wamp.error.canceled"@,
            Reason::OptionNotAllowed => "wamp.error.option_not_allowed"@,
            Reason::NoEligibleCallee => "wamp.error.no_eligible_callee"@,
            Reason::OptionDisallowedDiscloseMe => "wamp.error.option-disallowed.disclose_me"@,
            Reason::NetworkFailure => "wamp.error.network_failure"@,
            Reason::NormalClose => "wamp.close.normal"@,
            Reason::ProtocolViolation => "wamp.error.protocol_violation"@,
            Reason::CustomReason(uri) => uri@,
        }
    }
}

impl Reason {
    /// The URI that names the reason on the wire.
    pub fn get_string(&self) -> (r: String)
        ensures
            r@ == self@,
    {
        let text = match self {
            Reason::InvalidURI => "wamp.error.invalid_uri",
            Reason::NoSuchProcedure => "wamp.error.no_such_procedure",
            Reason::ProcedureAlreadyExists => "wamp.error.procedure_already_exists",
            Reason::NoSuchRegistration => "wamp.error.no_such_registration",
            Reason::NoSuchSubscription => "wamp.error.no_such_subscription",
            Reason::InvalidArgument => "wamp.error.invalid_argument",
            Reason::SystemShutdown => "wamp.error.system_shutdown",
            Reason::CloseRealm => "wamp.error.close_realm",
            Reason::GoodbyeAndOut => "wamp.error.goodbye_and_out",
            Reason::NotAuthorized => "wamp.error.not_authorized",
            Reason::AuthorizationFailed => "wamp.error.authorization_failed",
            Reason::NoSuchRealm => "wamp.error.no_such_realm",
            Reason::NoSuchRole => "wamp.error.no_such_role",
            Reason::Cancelled => "wamp.error.canceled",
            Reason::OptionNotAllowed => "wamp.error.option_not_allowed",
            Reason::NoEligibleCallee => "wamp.error.no_eligible_callee",
            Reason::OptionDisallowedDiscloseMe => "wamp.error.option-disallowed.disclose_me",
            Reason::NetworkFailure => "wamp.error.network_failure",
            Reason::NormalClose => "wamp.close.normal",
            Reason::ProtocolViolation => "wamp.error.protocol_violation",
            Reason::CustomReason(uri) => uri.uri.as_str(),
        };
        text.to_owned()
    }

    /// Whether the protocol names the reason.
    pub open spec fn is_named(self) -> bool {
        !(self is CustomReason)
    }

    /// Whether the reason is the one that its URI names: a custom reason
    /// only where the protocol names no reason by that URI.
    pub open spec fn is_canonical(self) -> bool {
        self is CustomReason ==> forall|named: Reason| #[trigger]
            named.is_named() ==> named@ != self@
    }

    /// The reason that the URI `uri` names: the one that the protocol
    /// names by that URI, or else the custom reason with that URI.
    pub fn from_uri(uri: &str) -> (r: Reason)
        ensures
            r@ == uri@,
            r.is_canonical(),
    {
        if same_string(uri, "wamp.error.invalid_uri") {
            Reason::InvalidURI
        } else if same_string(uri, "wamp.error.no_such_procedure") {
            Reason::NoSuchProcedure
        } else if same_string(uri, "wamp.error.procedure_already_exists") {
            Reason::ProcedureAlreadyExists
        } else if same_string(uri, "wamp.error.no_such_registration") {
            Reason::NoSuchRegistration
        } else if same_string(uri, "wamp.error.no_such_subscription") {
            Reason::NoSuchSubscription
        } else if same_string(uri, "wamp.error.invalid_argument") {
            Reason::InvalidArgument
        } else if same_string(uri, "wamp.error.system_shutdown") {
            Reason::SystemShutdown
        } else if same_string(uri, "wamp.error.close_realm") {
            Reason::CloseRealm
        } else if same_string(uri, "wamp.error.goodbye_and_out") {
            Reason::GoodbyeAndOut
        } else if same_string(uri, "wamp.error.not_authorized") {
            Reason::NotAuthorized
        } else if same_string(uri, "wamp.error.authorization_failed") {
            Reason::AuthorizationFailed
        } else if same_string(uri, "wamp.error.no_such_realm") {
            Reason::NoSuchRealm
        } else if same_string(uri, "wamp.error.no_such_role") {
            Reason::NoSuchRole
        } else if same_string(uri, "wamp.error.canceled") {
            Reason::Cancelled
        } else if same_string(uri, "wamp.error.option_not_allowed") {
            Reason::OptionNotAllowed
        } else if same_string(uri, "wamp.error.no_eligible_callee") {
            Reason::NoEligibleCallee
        } else if same_string(uri, "wamp.error.option-disallowed.disclose_me") {
            Reason::OptionDisallowedDiscloseMe
        } else if same_string(uri, "wamp.error.network_failure") {
            Reason::NetworkFailure
        } else if same_string(uri, "wamp.close.normal") {
            Reason::NormalClose
        } else if same_string(uri, "wamp.error.protocol_violation") {
            Reason::ProtocolViolation
        } else {
            let r = Reason::CustomReason(URI::new(uri));
            assert forall|named: Reason| #[trigger] named.is_named() implies named@ != uri@ by {
                match named {
                    _ => {},
                }
            }
            r
        }
    }
}

/// The protocol names each of its reasons by a URI of its own: two named
/// reasons with the same URI are the same reason. With it the URI of a
/// named reason names that reason and no other.
pub proof fn lemma_reasons_have_their_own_names(a: Reason, b: Reason)
    requires
        a.is_named(),
        b.is_named(),
        a@ == b@,
    ensures
        a == b,
{
    reveal_strlit("wamp.error.invalid_uri");
    reveal_strlit("wamp.error.no_such_procedure");
    reveal_strlit("wamp.error.procedure_already_exists");
    reveal_strlit("wamp.error.no_such_registration");
    reveal_strlit("wamp.error.no_such_subscription");
    reveal_strlit("wamp.error.invalid_argument");
    reveal_strlit("wamp.error.system_shutdown");
    reveal_strlit("wamp.error.close_realm");
    reveal_strlit("wamp.error.goodbye_and_out");
    reveal_strlit("wamp.error.not_authorized");
    reveal_strlit("wamp.error.authorization_failed");
    reveal_strlit("wamp.error.no_such_realm");
    reveal_strlit("wamp.error.no_such_role");
    reveal_strlit("wamp.error.canceled");
    reveal_strlit("wamp.error.option_not_allowed");
    reveal_strlit("wamp.error.no_eligible_callee");
    reveal_strlit("wamp.error.option-disallowed.disclose_me");
    reveal_strlit("wamp.error.network_failure");
    reveal_strlit("wamp.close.normal");
    reveal_strlit("wamp.error.protocol_violation");
    assert("wamp.error.invalid_uri"@.len() == 22);
    assert("wamp.error.no_such_procedure"@.len() == 28);
    assert("wamp.error.procedure_already_exists"@.len() == 35);
    assert("wamp.error.no_such_registration"@.len() == 31);
    assert("wamp.error.no_such_subscription"@.len() == 31);
    assert("wamp.error.invalid_argument"@.len() == 27);
    assert("wamp.error.system_shutdown"@.len() == 26);
    assert("wamp.error.close_realm"@.len() == 22);
    assert("wamp.error.goodbye_and_out"@.len() == 26);
    assert("wamp.error.not_authorized"@.len() == 25);
    assert("wamp.error.authorization_failed"@.len() == 31);
    assert("wamp.error.no_such_realm"@.len() == 24);
    assert("wamp.error.no_such_role"@.len() == 23);
    assert("wamp.error.canceled"@.len() == 19);
    assert("wamp.error.option_not_allowed"@.len() == 29);
    assert("wamp.error.no_eligible_callee"@.len() == 29);
    assert("wamp.error.option-disallowed.disclose_me"@.len() == 40);
    assert("wamp.error.network_failure"@.len() == 26);
    assert("wamp.close.normal"@.len() == 17);
    assert("wamp.error.protocol_violation"@.len() == 29);
    assert("wamp.error.invalid_uri"@[11] != "wamp.error.close_realm"@[11]);
    assert("wamp.error.no_such_registration"@[19] != "wamp.error.no_such_subscription"@[19]);
    assert("wamp.error.no_such_registration"@[11] != "wamp.error.authorization_failed"@[11]);
    assert("wamp.error.no_such_subscription"@[11] != "wamp.error.authorization_failed"@[11]);
    assert("wamp.error.system_shutdown"@[11] != "wamp.error.goodbye_and_out"@[11]);
    assert("wamp.error.system_shutdown"@[11] != "wamp.error.network_failure"@[11]);
    assert("wamp.error.goodbye_and_out"@[11] != "wamp.error.network_failure"@[11]);
    assert("wamp.error.option_not_allowed"@[11] != "wamp.error.no_eligible_callee"@[11]);
    assert("wamp.error.option_not_allowed"@[11] != "wamp.error.protocol_violation"@[11]);
    assert("wamp.error.no_eligible_callee"@[11] != "wamp.error.protocol_violation"@[11]);
}

/// Reading the URI of a reason that the protocol names gives that reason
/// back.
pub proof fn lemma_named_reason_is_read_back(written: Reason, read: Reason)
    requires
        written.is_named(),
        read@ == written@,
        read.is_canonical(),
    ensures
        read == written,
{
    if read is CustomReason {
        assert(written.is_named() ==> written@ != read@);
    } else {
        lemma_reasons_have_their_own_names(written, read);
    }
}

/// Whether two texts are the same.
pub fn same_string(a: &str, b: &str) -> (r: bool)
    ensures
        r == (a@ == b@),
{
    let x: String = a.to_owned();
    let y: String = b.to_owned();
    x == y
}

/// What a client says of itself in `HELLO`.
#[derive(PartialEq, Debug, Clone)]
pub struct HelloDetails {
    pub agent: Option<String>,
    pub roles: ClientRoles,
}

/// What the router says of itself in `WELCOME`.
#[derive(PartialEq, Debug, Clone)]
pub struct WelcomeDetails {
    pub agent: Option<String>,
    pub roles: RouterRoles,
}

/// What accompanies `ABORT` and `GOODBYE`.
#[derive(PartialEq, Debug, Clone)]
pub struct ErrorDetails {
    pub message: Option<String>,
}

/// The options of `SUBSCRIBE`.
#[derive(PartialEq, Eq, Structural, Debug, Clone, Copy)]
pub struct SubscribeOptions {
    pub pattern_match: MatchingPolicy,
}

/// The options of `PUBLISH`.
#[derive(PartialEq, Eq, Structural, Debug, Clone, Copy)]
pub struct PublishOptions {
    pub acknowledge: bool,
}

/// What accompanies `EVENT`.
#[derive(PartialEq, Debug, Clone)]
pub struct EventDetails {
    pub publisher: Option<u64>,
    pub trustlevel: Option<u64>,
    /// The topic of the publication, where the subscription does not name it.
    pub topic: Option<URI>,
}

/// What an optional text holds.
pub open spec fn text_view(text: Option<String>) -> Option<Seq<char>> {
    match text {
        Some(t) => Some(t@),
        None => None,
    }
}

/// What a [`HelloDetails`] holds.
pub struct HelloDetailsView {
    pub agent: Option<Seq<char>>,
    pub roles: ClientRolesView,
}

/// What a [`WelcomeDetails`] holds.
pub struct WelcomeDetailsView {
    pub agent: Option<Seq<char>>,
    pub roles: RouterRolesView,
}

/// What an [`ErrorDetails`] holds.
pub struct ErrorDetailsView {
    pub message: Option<Seq<char>>,
}

impl View for HelloDetails {
    type V = HelloDetailsView;

    open spec fn view(&self) -> HelloDetailsView {
        HelloDetailsView { agent: text_view(self.agent), roles: self.roles@ }
    }
}

impl View for WelcomeDetails {
    type V = WelcomeDetailsView;

    open spec fn view(&self) -> WelcomeDetailsView {
        WelcomeDetailsView { agent: text_view(self.agent), roles: self.roles@ }
    }
}

impl View for ErrorDetails {
    type V = ErrorDetailsView;

    open spec fn view(&self) -> ErrorDetailsView {
        ErrorDetailsView { message: text_view(self.message) }
    }
}

/// What an [`EventDetails`] holds.
pub struct EventDetailsView {
    pub publisher: Option<u64>,
    pub trustlevel: Option<u64>,
    pub topic: Option<Seq<char>>,
}

impl View for EventDetails {
    type V = EventDetailsView;

    open spec fn view(&self) -> EventDetailsView {
        EventDetailsView {
            publisher: self.publisher,
            trustlevel: self.trustlevel,
            topic: match self.topic {
                Some(t) => Some(t@),
                None => None,
            },
        }
    }
}

impl WelcomeDetails {
    /// Details that announce `roles` and no agent.
    pub fn new(roles: RouterRoles) -> (r: WelcomeDetails)
        ensures
            r@ == (WelcomeDetailsView { agent: None, roles: roles@ }),
    {
        WelcomeDetails { agent: None, roles }
    }
}

impl HelloDetails {
    /// Details that announce `roles` and no agent.
    pub fn new(roles: ClientRoles) -> (r: HelloDetails)
        ensures
            r@ == (HelloDetailsView { agent: None, roles: roles@ }),
    {
        HelloDetails { agent: None, roles }
    }
}

impl ErrorDetails {
    /// Details without a text.
    pub fn new() -> (r: ErrorDetails)
        ensures
            r@ == (ErrorDetailsView { message: None }),
    {
        ErrorDetails { message: None }
    }
}

impl SubscribeOptions {
    /// The options of an exact subscription.
    pub fn new() -> (r: SubscribeOptions)
        ensures
            r.pattern_match == MatchingPolicy::Strict,
    {
        SubscribeOptions { pattern_match: MatchingPolicy::Strict }
    }
}

impl PublishOptions {
    /// Options that ask for an acknowledgement or not.
    pub fn new(acknowledge: bool) -> (r: PublishOptions)
        ensures
            r.acknowledge == acknowledge,
    {
        PublishOptions { acknowledge }
    }

    /// Whether the publisher asked for `PUBLISHED`.
    pub fn should_acknowledge(&self) -> (r: bool)
        ensures
            r == self.acknowledge,
    {
        self.acknowledge
    }
}

impl EventDetails {
    /// Details that name neither publisher, trust level nor topic.
    pub fn new() -> (r: EventDetails)
        ensures
            r@ == (EventDetailsView { publisher: None, trustlevel: None, topic: None }),
    {
        EventDetails { publisher: None, trustlevel: None, topic: None }
    }
}

/// What an optional positional argument list holds.
pub open spec fn args_view(args: Option<List>) -> Option<Seq<ValueView>> {
    match args {
        Some(a) => Some(list_view(a@)),
        None => None,
    }
}

/// What an optional keyword argument list holds.
pub open spec fn kwargs_view(kwargs: Option<Dict>) -> Option<Seq<(Seq<char>, ValueView)>> {
    match kwargs {
        Some(k) => Some(dict_view(k@)),
        None => None,
    }
}

/// A copy of the optional positional arguments.
pub fn clone_args(args: &Option<List>) -> (r: Option<List>)
    ensures
        args_view(r) == args_view(*args),
{
    match args {
        Some(a) => Some(clone_list(a)),
        None => None,
    }
}

/// A copy of the optional keyword arguments.
pub fn clone_kwargs(kwargs: &Option<Dict>) -> (r: Option<Dict>)
    ensures
        kwargs_view(r) == kwargs_view(*kwargs),
{
    match kwargs {
        Some(k) => Some(clone_dict(k)),
        None => None,
    }
}

/// A message of the protocol. The fields of each verb stand in the order in
/// which the protocol lists them.
#[derive(Debug, PartialEq, Clone)]
pub enum Message {
    /// `HELLO(realm, details)`
    Hello(URI, HelloDetails),
    /// `WELCOME(session_id, details)`
    Welcome(u64, WelcomeDetails),
    /// `ABORT(details, reason)`
    Abort(ErrorDetails, Reason),
    /// `GOODBYE(details, reason)`
    Goodbye(ErrorDetails, Reason),
    /// `ERROR(type, request_id, details, reason, args, kwargs)`
    Error(ErrorType, u64, Dict, Reason, Option<List>, Option<Dict>),
    /// `SUBSCRIBE(request_id, options, topic)`
    Subscribe(u64, SubscribeOptions, URI),
    /// `SUBSCRIBED(request_id, subscription_id)`
    Subscribed(u64, u64),
    /// `UNSUBSCRIBE(request_id, subscription_id)`
    Unsubscribe(u64, u64),
    /// `UNSUBSCRIBED(request_id)`
    Unsubscribed(u64),
    /// `PUBLISH(request_id, options, topic, args, kwargs)`
    Publish(u64, PublishOptions, URI, Option<List>, Option<Dict>),
    /// `PUBLISHED(request_id, publication_id)`
    Published(u64, u64),
    /// `EVENT(subscription_id, publication_id, details, args, kwargs)`
    Event(u64, u64, EventDetails, Option<List>, Option<Dict>),
}

/// What a [`Message`] holds. A reason is held as the URI that names it.
pub enum MessageView {
    Hello(Seq<char>, HelloDetailsView),
    Welcome(u64, WelcomeDetailsView),
    Abort(ErrorDetailsView, Seq<char>),
    Goodbye(ErrorDetailsView, Seq<char>),
    Error(
        ErrorType,
        u64,
        Seq<(Seq<char>, ValueView)>,
        Seq<char>,
        Option<Seq<ValueView>>,
        Option<Seq<(Seq<char>, ValueView)>>,
    ),
    Subscribe(u64, SubscribeOptions, Seq<char>),
    Subscribed(u64, u64),
    Unsubscribe(u64, u64),
    Unsubscribed(u64),
    Publish(
        u64,
        PublishOptions,
        Seq<char>,
        Option<Seq<ValueView>>,
        Option<Seq<(Seq<char>, ValueView)>>,
    ),
    Published(u64, u64),
    Event(
        u64,
        u64,
        EventDetailsView,
        Option<Seq<ValueView>>,
        Option<Seq<(Seq<char>, ValueView)>>,
    ),
}

impl View for Message {
    type V = MessageView;

    open spec fn view(&self) -> MessageView {
        match *self {
            Message::Hello(realm, details) => MessageView::Hello(realm@, details@),
            Message::Welcome(session, details) => MessageView::Welcome(session, details@),
            Message::Abort(details, reason) => MessageView::Abort(details@, reason@),
            Message::Goodbye(details, reason) => MessageView::Goodbye(details@, reason@),
            Message::Error(kind, request, details, reason, args, kwargs) => MessageView::Error(
                kind,
                request,
                dict_view(details@),
                reason@,
                args_view(args),
                kwargs_view(kwargs),
            ),
            Message::Subscribe(request, options, topic) => MessageView::Subscribe(
                request,
                options,
                topic@,
            ),
            Message::Subscribed(request, subscription) => MessageView::Subscribed(
                request,
                subscription,
            ),
            Message::Unsubscribe(request, subscription) => MessageView::Unsubscribe(
                request,
                subscription,
            ),
            Message::Unsubscribed(request) => MessageView::Unsubscribed(request),
            Message::Publish(request, options, topic, args, kwargs) => MessageView::Publish(
                request,
                options,
                topic@,
                args_view(args),
                kwargs_view(kwargs),
            ),
            Message::Published(request, publication) => MessageView::Published(
                request,
                publication,
            ),
            Message::Event(subscription, publication, details, args, kwargs) => MessageView::Event(
                subscription,
                publication,
                details@,
                args_view(args),
                kwargs_view(kwargs),
            ),
        }
    }
}

} // verus!
