//! The roles that a peer announces in its handshake, with their features.

use vstd::prelude::*;

verus! {

/// The roles of a client.
#[derive(PartialEq, Clone, Debug)]
pub struct ClientRoles {
    pub publisher: PublisherRole,
    pub subscriber: SubscriberRole,
    pub caller: CallerRole,
    pub callee: CalleeRole,
}

/// The roles of a router.
#[derive(PartialEq, Eq, Structural, Clone, Copy, Debug)]
pub struct RouterRoles {
    pub dealer: DealerRole,
    pub broker: BrokerRole,
}

/// The role of a peer that publishes. Its features stand in the order in
/// which the peer named them, each name once; two roles are equal where
/// they name the same features in the same order.
#[derive(PartialEq, Clone, Debug)]
pub struct PublisherRole {
    pub features: Option<Vec<(String, bool)>>,
}

/// The role of a peer that calls procedures. Its features stand in the
/// order in which the peer named them, each name once.
#[derive(PartialEq, Clone, Debug)]
pub struct CallerRole {
    pub features: Option<Vec<(String, bool)>>,
}

/// The role of a peer that offers procedures. Its features stand in the
/// order in which the peer named them, each name once.
#[derive(PartialEq, Clone, Debug)]
pub struct CalleeRole {
    pub features: Option<Vec<(String, bool)>>,
}

/// The role of a peer that subscribes.
#[derive(PartialEq, Eq, Structural, Clone, Copy, Debug)]
pub struct SubscriberRole {
    pub features: Option<SubscriberFeatures>,
}

/// What a subscriber can do.
#[derive(PartialEq, Eq, Structural, Clone, Copy, Debug)]
pub struct SubscriberFeatures {
    pub pattern_based_subscription: bool,
}

/// The role of a router that routes calls.
#[derive(PartialEq, Eq, Structural, Clone, Copy, Debug)]
pub struct DealerRole {
    pub features: Option<DealerFeatures>,
}

/// The role of a router that routes publications.
#[derive(PartialEq, Eq, Structural, Clone, Copy, Debug)]
pub struct BrokerRole {
    pub features: Option<BrokerFeatures>,
}

/// What a dealer can do.
#[derive(PartialEq, Eq, Structural, Clone, Copy, Debug)]
pub struct DealerFeatures {
    pub pattern_based_registration: bool,
}

/// What a broker can do.
#[derive(PartialEq, Eq, Structural, Clone, Copy, Debug)]
pub struct BrokerFeatures {
    pub pattern_based_subscription: bool,
}

/// What a list of named features holds.
pub open spec fn features_view(features: Option<Vec<(String, bool)>>) -> Option<
    Seq<(Seq<char>, bool)>,
> {
    match features {
        Some(fs) => Some(Seq::new(fs@.len(), |i: int| (fs@[i].0@, fs@[i].1))),
        None => None,
    }
}

/// Whether no name occurs twice among the features `fs`.
pub open spec fn distinct_names(fs: Seq<(Seq<char>, bool)>) -> bool {
    forall|i: int, j: int| #![trigger fs[i], fs[j]] 0 <= i < j < fs.len() ==> fs[i].0 != fs[j].0
}

/// Whether no name occurs twice among the features that a role names, if
/// it names any.
pub open spec fn names_once(fs: Option<Seq<(Seq<char>, bool)>>) -> bool {
    fs is Some ==> distinct_names(fs->0)
}

/// What a role with one feature holds: whether it names its features, and
/// if so whether the feature is on.
pub open spec fn flag_view<F>(features: Option<F>, on: spec_fn(F) -> bool) -> Option<bool> {
    match features {
        Some(f) => Some(on(f)),
        None => None,
    }
}

/// What a [`ClientRoles`] holds. The publisher, caller and callee roles
/// name features freely; the subscriber role has the one feature of
/// subscribing by pattern.
pub struct ClientRolesView {
    pub publisher: Option<Seq<(Seq<char>, bool)>>,
    pub subscriber: Option<bool>,
    pub caller: Option<Seq<(Seq<char>, bool)>>,
    pub callee: Option<Seq<(Seq<char>, bool)>>,
}

/// What a [`RouterRoles`] holds: for the dealer whether it registers by
/// pattern, for the broker whether it subscribes by pattern.
pub struct RouterRolesView {
    pub dealer: Option<bool>,
    pub broker: Option<bool>,
}

impl ClientRolesView {
    /// Whether each role names each of its features once. The roles that
    /// this crate makes or reads are well-formed.
    pub open spec fn wf(self) -> bool {
        names_once(self.publisher) && names_once(self.caller) && names_once(self.callee)
    }
}

impl View for ClientRoles {
    type V = ClientRolesView;

    open spec fn view(&self) -> ClientRolesView {
        ClientRolesView {
            publisher: features_view(self.publisher.features),
            subscriber: flag_view(
                self.subscriber.features,
                |f: SubscriberFeatures| f.pattern_based_subscription,
            ),
            caller: features_view(self.caller.features),
            callee: features_view(self.callee.features),
        }
    }
}

impl View for RouterRoles {
    type V = RouterRolesView;

    open spec fn view(&self) -> RouterRolesView {
        RouterRolesView {
            dealer: flag_view(
                self.dealer.features,
                |f: DealerFeatures| f.pattern_based_registration,
            ),
            broker: flag_view(
                self.broker.features,
                |f: BrokerFeatures| f.pattern_based_subscription,
            ),
        }
    }
}

impl ClientRoles {
    /// Whether the publisher, caller and callee roles are present without
    /// features, and the subscriber role says `patterns` of subscriptions by
    /// pattern.
    pub open spec fn is_plain(self, patterns: bool) -> bool {
        self@ == (ClientRolesView {
            publisher: Some(Seq::empty()),
            subscriber: Some(patterns),
            caller: Some(Seq::empty()),
            callee: Some(Seq::empty()),
        })
    }
}

impl RouterRoles {
    /// The roles of a router that matches subscriptions and registrations by
    /// pattern.
    #[inline]
    pub fn new() -> (r: RouterRoles)
        ensures
            r.broker.features == Some(BrokerFeatures { pattern_based_subscription: true }),
            r.dealer.features == Some(DealerFeatures { pattern_based_registration: true }),
    {
        RouterRoles {
            broker: BrokerRole {
                features: Some(BrokerFeatures { pattern_based_subscription: true }),
            },
            dealer: DealerRole {
                features: Some(DealerFeatures { pattern_based_registration: true }),
            },
        }
    }

    /// The roles of a router that announces no features.
    #[inline]
    pub fn new_basic() -> (r: RouterRoles)
        ensures
            r.broker.features is None,
            r.dealer.features is None,
    {
        RouterRoles { broker: BrokerRole { features: None }, dealer: DealerRole { features: None } }
    }
}

impl ClientRoles {
    /// The roles of a client that subscribes by pattern.
    #[inline]
    pub fn new() -> (r: ClientRoles)
        ensures
            r.is_plain(true),
            r@.wf(),
    {
        let r = ClientRoles {
            publisher: PublisherRole { features: Some(Vec::new()) },
            subscriber: SubscriberRole {
                features: Some(SubscriberFeatures { pattern_based_subscription: true }),
            },
            caller: CallerRole { features: Some(Vec::new()) },
            callee: CalleeRole { features: Some(Vec::new()) },
        };
        assert(r@.publisher->0 =~= Seq::empty());
        assert(r@.caller->0 =~= Seq::empty());
        assert(r@.callee->0 =~= Seq::empty());
        r
    }

    /// The roles of a client that does not subscribe by pattern.
    #[inline]
    pub fn new_basic() -> (r: ClientRoles)
        ensures
            r.is_plain(false),
            r@.wf(),
    {
        let r = ClientRoles {
            publisher: PublisherRole { features: Some(Vec::new()) },
            subscriber: SubscriberRole {
                features: Some(SubscriberFeatures { pattern_based_subscription: false }),
            },
            caller: CallerRole { features: Some(Vec::new()) },
            callee: CalleeRole { features: Some(Vec::new()) },
        };
        assert(r@.publisher->0 =~= Seq::empty());
        assert(r@.caller->0 =~= Seq::empty());
        assert(r@.callee->0 =~= Seq::empty());
        r
    }
}

impl Default for RouterRoles {
    fn default() -> (r: RouterRoles)
        ensures
            r.broker.features == Some(BrokerFeatures { pattern_based_subscription: true }),
            r.dealer.features == Some(DealerFeatures { pattern_based_registration: true }),
    {
        RouterRoles::new()
    }
}

impl Default for ClientRoles {
    fn default() -> (r: ClientRoles)
        ensures
            r.is_plain(true),
            r@.wf(),
    {
        ClientRoles::new()
    }
}

} // verus!
