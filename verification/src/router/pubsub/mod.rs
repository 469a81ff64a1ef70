//! Subscriptions and publications.

pub mod matching;
pub mod patterns;

pub use self::patterns::SubscriptionPatternNode;

use self::matching::{
    begins, lemma_exact_subscriber_is_reached_as_listed,
    lemma_prefix_subscriber_is_reached_once, listed_apart, reached, times,
};
use self::patterns::{drop_prefix_subscriber, prefix_without, segments, DirectoryView};
use crate::error::Error;
use crate::messages::{
    args_view, clone_args, clone_kwargs, kwargs_view, Dict, EventDetails, EventDetailsView, List,
    MatchingPolicy, Message, MessageView, PublishOptions, SubscribeOptions, ValueView, URI,
};
use crate::router::{
    actions_view, random_id, Action, ActionView, ConnectionHandler, RouterChangeView, RouterInfo,
    ID_LIMIT,
};
use vstd::prelude::*;

verus! {

/// The step that answers `SUBSCRIBE`: the subscription is proposed with the
/// ids drawn for its topic.
pub open spec fn subscribe_steps(
    id: u64,
    request_id: u64,
    topic: Seq<char>,
    matching_policy: MatchingPolicy,
    topic_id: u64,
    prefix_id: u64,
) -> Seq<ActionView> {
    seq![
        ActionView::Propose(
            RouterChangeView::AddSubscription {
                connection_id: id,
                request_id,
                topic,
                matching_policy,
                topic_id,
                prefix_id,
            },
        ),
    ]
}

/// The `EVENT` that tells one subscriber of a publication. The topic is
/// named where the subscription does not name it, that is for prefix and
/// wildcard subscriptions.
pub open spec fn event(
    hit: (u64, u64, MatchingPolicy),
    publication_id: u64,
    topic: Seq<char>,
    args: Option<Seq<ValueView>>,
    kwargs: Option<Seq<(Seq<char>, ValueView)>>,
) -> ActionView {
    ActionView::Send {
        connection_id: hit.0,
        message: MessageView::Event(
            hit.1,
            publication_id,
            EventDetailsView {
                publisher: None,
                trustlevel: None,
                topic: if hit.2 == MatchingPolicy::Strict {
                    None
                } else {
                    Some(topic)
                },
            },
            args,
            kwargs,
        ),
    }
}

/// The events of a publication by the connection `publisher` that reaches
/// the subscribers `hits`: one for each of them but the publisher itself, in
/// order.
pub open spec fn events(
    hits: Seq<(u64, u64, MatchingPolicy)>,
    publisher: u64,
    publication_id: u64,
    topic: Seq<char>,
    args: Option<Seq<ValueView>>,
    kwargs: Option<Seq<(Seq<char>, ValueView)>>,
) -> Seq<ActionView>
    decreases hits.len(),
{
    if hits.len() == 0 {
        Seq::empty()
    } else {
        let init = events(hits.drop_last(), publisher, publication_id, topic, args, kwargs);
        if hits.last().0 == publisher {
            init
        } else {
            init.push(event(hits.last(), publication_id, topic, args, kwargs))
        }
    }
}

/// The steps that answer `PUBLISH`: the events, then the acknowledgement if
/// the publisher asked for one.
pub open spec fn publication_steps(
    hits: Seq<(u64, u64, MatchingPolicy)>,
    publisher: u64,
    request_id: u64,
    acknowledge: bool,
    publication_id: u64,
    topic: Seq<char>,
    args: Option<Seq<ValueView>>,
    kwargs: Option<Seq<(Seq<char>, ValueView)>>,
) -> Seq<ActionView> {
    events(hits, publisher, publication_id, topic, args, kwargs) + (if acknowledge {
        seq![
            ActionView::Send {
                connection_id: publisher,
                message: MessageView::Published(request_id, publication_id),
            },
        ]
    } else {
        Seq::empty()
    })
}

/// Whether the step sends an `EVENT` to a connection other than `publisher`.
pub open spec fn is_event_for_another(step: ActionView, publisher: u64) -> bool {
    step matches ActionView::Send { connection_id, message } && connection_id != publisher
        && message is Event
}

/// A publisher never receives its own publication: among the events of a
/// publication none is addressed to the publisher, whoever is subscribed.
pub proof fn lemma_no_event_for_publisher(
    hits: Seq<(u64, u64, MatchingPolicy)>,
    publisher: u64,
    publication_id: u64,
    topic: Seq<char>,
    args: Option<Seq<ValueView>>,
    kwargs: Option<Seq<(Seq<char>, ValueView)>>,
)
    ensures
        forall|i: int|
            0 <= i < events(hits, publisher, publication_id, topic, args, kwargs).len()
                ==> is_event_for_another(
                #[trigger] events(hits, publisher, publication_id, topic, args, kwargs)[i],
                publisher,
            ),
    decreases hits.len(),
{
    let all = events(hits, publisher, publication_id, topic, args, kwargs);
    if hits.len() > 0 {
        let init = events(hits.drop_last(), publisher, publication_id, topic, args, kwargs);
        lemma_no_event_for_publisher(
            hits.drop_last(),
            publisher,
            publication_id,
            topic,
            args,
            kwargs,
        );
        assert forall|i: int| 0 <= i < all.len() implies is_event_for_another(
            #[trigger] all[i],
            publisher,
        ) by {
            if i < init.len() {
                assert(all[i] == init[i]);
            } else {
                assert(all[i] == event(hits.last(), publication_id, topic, args, kwargs));
            }
        }
    }
}

/// Every subscriber that a publication reaches, other than the publisher,
/// gets an event under the id of its subscription.
pub proof fn lemma_event_for_each_subscriber(
    hits: Seq<(u64, u64, MatchingPolicy)>,
    publisher: u64,
    publication_id: u64,
    topic: Seq<char>,
    args: Option<Seq<ValueView>>,
    kwargs: Option<Seq<(Seq<char>, ValueView)>>,
    k: int,
)
    requires
        0 <= k < hits.len(),
        hits[k].0 != publisher,
    ensures
        events(hits, publisher, publication_id, topic, args, kwargs).contains(
            event(hits[k], publication_id, topic, args, kwargs),
        ),
    decreases hits.len(),
{
    let all = events(hits, publisher, publication_id, topic, args, kwargs);
    let init = events(hits.drop_last(), publisher, publication_id, topic, args, kwargs);
    if k == hits.len() - 1 {
        assert(all == init.push(event(hits[k], publication_id, topic, args, kwargs)));
        assert(all[all.len() - 1] == event(hits[k], publication_id, topic, args, kwargs));
    } else {
        lemma_event_for_each_subscriber(
            hits.drop_last(),
            publisher,
            publication_id,
            topic,
            args,
            kwargs,
            k,
        );
        let e = event(hits[k], publication_id, topic, args, kwargs);
        let j = choose|j: int| 0 <= j < init.len() && init[j] == e;
        assert(all[j] == e);
    }
}

/// A subscriber gets as many events as a publication has deliveries for
/// it: the `EVENT` for a delivery to an exact subscriber is among the
/// events as often as the delivery is among the deliveries. The `EVENT` for
/// a delivery to a prefix or wildcard subscriber names the topic and not the
/// policy, so it is there as often as the two kinds of delivery together.
pub proof fn lemma_events_as_deliveries(
    hits: Seq<(u64, u64, MatchingPolicy)>,
    publisher: u64,
    publication_id: u64,
    topic: Seq<char>,
    args: Option<Seq<ValueView>>,
    kwargs: Option<Seq<(Seq<char>, ValueView)>>,
    hit: (u64, u64, MatchingPolicy),
)
    requires
        hit.0 != publisher,
    ensures
        times(
            events(hits, publisher, publication_id, topic, args, kwargs),
            event(hit, publication_id, topic, args, kwargs),
        ) == (if hit.2 == MatchingPolicy::Strict {
            times(hits, hit)
        } else {
            times(hits, (hit.0, hit.1, MatchingPolicy::Prefix)) + times(
                hits,
                (hit.0, hit.1, MatchingPolicy::Wildcard),
            )
        }),
    decreases hits.len(),
{
    if hits.len() > 0 {
        lemma_events_as_deliveries(
            hits.drop_last(),
            publisher,
            publication_id,
            topic,
            args,
            kwargs,
            hit,
        );
        let init = events(hits.drop_last(), publisher, publication_id, topic, args, kwargs);
        let last = hits.last();
        if last.0 != publisher {
            let all = init.push(event(last, publication_id, topic, args, kwargs));
            assert(all.drop_last() =~= init);
            assert(all.last() == event(last, publication_id, topic, args, kwargs));
        }
    }
}

/// A subscriber to the topic itself gets one event for its subscription,
/// whoever else is subscribed: where the topic's entry lists another
/// connection than the publisher once as an exact subscriber, the events of
/// a publication to the topic hold one `EVENT` for it, under the topic's id
/// and without the topic's name.
pub proof fn lemma_one_event_for_an_exact_subscriber(
    dir: DirectoryView,
    topic: Seq<char>,
    publisher: u64,
    subscriber: u64,
    publication_id: u64,
    args: Option<Seq<ValueView>>,
    kwargs: Option<Seq<(Seq<char>, ValueView)>>,
)
    requires
        subscriber != publisher,
        dir.dom().contains(segments(topic)),
        times(dir[segments(topic)].connections, (subscriber, MatchingPolicy::Strict)) == 1,
    ensures
        times(
            events(reached(dir, segments(topic)), publisher, publication_id, topic, args, kwargs),
            event(
                (subscriber, dir[segments(topic)].id, MatchingPolicy::Strict),
                publication_id,
                topic,
                args,
                kwargs,
            ),
        ) == 1,
{
    let hit = (subscriber, dir[segments(topic)].id, MatchingPolicy::Strict);
    lemma_exact_subscriber_is_reached_as_listed(
        dir,
        segments(topic),
        subscriber,
        dir[segments(topic)].id,
    );
    lemma_events_as_deliveries(
        reached(dir, segments(topic)),
        publisher,
        publication_id,
        topic,
        args,
        kwargs,
        hit,
    );
}

/// A prefix subscriber gets one event for its subscription, whoever else
/// is subscribed: where a URI that begins the topic lists another
/// connection than the publisher once among its prefix subscribers, and
/// lists it apart under its prefix id, the events of a publication to the
/// topic hold one `EVENT` for it, under that id and with the topic's name.
pub proof fn lemma_one_event_for_a_prefix_subscriber(
    dir: DirectoryView,
    path: Seq<Seq<char>>,
    topic: Seq<char>,
    publisher: u64,
    subscriber: u64,
    publication_id: u64,
    args: Option<Seq<ValueView>>,
    kwargs: Option<Seq<(Seq<char>, ValueView)>>,
)
    requires
        subscriber != publisher,
        begins(path, segments(topic)),
        dir.dom().contains(path),
        times(dir[path].prefix_connections, subscriber) == 1,
        listed_apart(dir, path, subscriber, dir[path].prefix_id),
    ensures
        times(
            events(reached(dir, segments(topic)), publisher, publication_id, topic, args, kwargs),
            event(
                (subscriber, dir[path].prefix_id, MatchingPolicy::Prefix),
                publication_id,
                topic,
                args,
                kwargs,
            ),
        ) == 1,
        event(
            (subscriber, dir[path].prefix_id, MatchingPolicy::Prefix),
            publication_id,
            topic,
            args,
            kwargs,
        ) matches ActionView::Send { message, .. } && message matches MessageView::Event(
            _,
            _,
            details,
            _,
            _,
        ) && details.topic == Some(topic),
{
    let hit = (subscriber, dir[path].prefix_id, MatchingPolicy::Prefix);
    lemma_prefix_subscriber_is_reached_once(dir, path, segments(topic), subscriber);
    lemma_events_as_deliveries(
        reached(dir, segments(topic)),
        publisher,
        publication_id,
        topic,
        args,
        kwargs,
        hit,
    );
}

impl ConnectionHandler {
    /// Answers `SUBSCRIBE(request_id, options, topic)` with the ids
    /// `topic_id` and `prefix_id` proposed for the topic.
    pub fn subscribe_with_ids(
        &self,
        router: &RouterInfo,
        request_id: u64,
        options: SubscribeOptions,
        topic: URI,
        topic_id: u64,
        prefix_id: u64,
    ) -> (r: Result<Vec<Action>, Error>)
        ensures
            r is Ok <==> router.initialized(),
            r matches Ok(actions) ==> actions_view(actions@) == subscribe_steps(
                self.id(),
                request_id,
                topic@,
                options.pattern_match,
                topic_id,
                prefix_id,
            ),
            r matches Err(e) ==> e.kind is InvalidState,
    {
        let change = router.add_subscription(
            self.info_id(),
            request_id,
            topic,
            options.pattern_match,
            topic_id,
            prefix_id,
        )?;
        let mut actions: Vec<Action> = Vec::new();
        actions.push(Action::Propose(change));
        assert(actions_view(actions@) =~= subscribe_steps(
            self.id(),
            request_id,
            topic@,
            options.pattern_match,
            topic_id,
            prefix_id,
        ));
        Ok(actions)
    }

    /// Answers `SUBSCRIBE(request_id, options, topic)`: draws the ids that
    /// the topic gets if it is subscribed for the first time, and proposes
    /// the subscription. The subscriber learns the id of its subscription
    /// from `SUBSCRIBED`, which is sent when the command is applied.
    pub fn handle_subscribe(
        &self,
        router: &RouterInfo,
        request_id: u64,
        options: SubscribeOptions,
        topic: URI,
    ) -> (r: Result<Vec<Action>, Error>)
        ensures
            r is Ok <==> router.initialized(),
            r matches Ok(actions) ==> exists|topic_id: u64, prefix_id: u64|
                topic_id < ID_LIMIT && prefix_id < ID_LIMIT && actions_view(actions@)
                    == #[trigger] subscribe_steps(
                    self.id(),
                    request_id,
                    topic@,
                    options.pattern_match,
                    topic_id,
                    prefix_id,
                ),
            r matches Err(e) ==> e.kind is InvalidState,
    {
        let topic_id = random_id();
        let prefix_id = random_id();
        self.subscribe_with_ids(router, request_id, options, topic, topic_id, prefix_id)
    }

    /// Notes that the session holds the subscription `subscription_id`,
    /// once its subscription is committed.
    pub fn remember_subscription(&mut self, subscription_id: u64)
        ensures
            final(self).id() == old(self).id(),
            final(self).subscribed() == (if old(self).subscribed().contains(subscription_id) {
                old(self).subscribed()
            } else {
                old(self).subscribed().push(subscription_id)
            }),
    {
        let (_, found) = drop_prefix_subscriber(&self.subscribed_topics, subscription_id);
        if !found {
            self.subscribed_topics.push(subscription_id);
        }
    }

    /// Notes that the session's subscription to `topic` is committed: looks
    /// the id of the subscription up in the directory `subscriptions`, as it
    /// stands after the commit, and counts it among the session's own. Where
    /// the directory does not know the topic nothing is noted.
    pub fn subscription_committed(
        &mut self,
        subscriptions: &SubscriptionPatternNode,
        topic: &URI,
        matching_policy: MatchingPolicy,
    ) -> (r: Option<u64>)
        ensures
            final(self).id() == old(self).id(),
            r == (if subscriptions@.dom().contains(segments(topic@)) {
                Some(
                    if matching_policy == MatchingPolicy::Prefix {
                        subscriptions@[segments(topic@)].prefix_id
                    } else {
                        subscriptions@[segments(topic@)].id
                    },
                )
            } else {
                None
            }),
            final(self).subscribed() == (match r {
                Some(id) => if old(self).subscribed().contains(id) {
                    old(self).subscribed()
                } else {
                    old(self).subscribed().push(id)
                },
                None => old(self).subscribed(),
            }),
    {
        match subscriptions.topic_ids(topic.uri.as_str()) {
            Some((id, prefix_id)) => {
                let own = if matching_policy == MatchingPolicy::Prefix {
                    prefix_id
                } else {
                    id
                };
                self.remember_subscription(own);
                Some(own)
            },
            None => None,
        }
    }

    /// Answers `UNSUBSCRIBE(request_id, subscription_id)`: proposes that
    /// the subscription be given up, and no longer counts it among the
    /// session's own.
    pub fn handle_unsubscribe(
        &mut self,
        router: &RouterInfo,
        request_id: u64,
        subscription_id: u64,
    ) -> (r: Result<Vec<Action>, Error>)
        ensures
            final(self).id() == old(self).id(),
            r is Ok <==> router.initialized(),
            r matches Ok(actions) ==> {
                &&& actions_view(actions@) == seq![
                    ActionView::Propose(
                        RouterChangeView::RemoveSubscription {
                            connection_id: old(self).id(),
                            subscription_id,
                            request_id,
                        },
                    ),
                ]
                &&& final(self).subscribed() == prefix_without(
                    old(self).subscribed(),
                    subscription_id,
                )
            },
            r matches Err(e) ==> e.kind is InvalidState && final(self).subscribed() == old(
                self,
            ).subscribed(),
    {
        let change = router.remove_subscription(self.info_id, subscription_id, request_id)?;
        let (rest, _) = drop_prefix_subscriber(&self.subscribed_topics, subscription_id);
        self.subscribed_topics = rest;
        let mut actions: Vec<Action> = Vec::new();
        actions.push(Action::Propose(change));
        assert(actions_view(actions@) =~= seq![
            ActionView::Propose(
                RouterChangeView::RemoveSubscription {
                    connection_id: self.id(),
                    subscription_id,
                    request_id,
                },
            ),
        ]);
        Ok(actions)
    }

    /// Answers `PUBLISH(request_id, options, topic, args, kwargs)` under
    /// the publication id `publication_id`: every subscriber that the
    /// directory `subscriptions` gives for the topic gets an `EVENT`, but
    /// for the publisher itself, and the publisher gets `PUBLISHED` if it
    /// asked for it.
    pub fn publish_with_id(
        &self,
        subscriptions: &SubscriptionPatternNode,
        request_id: u64,
        options: PublishOptions,
        topic: URI,
        args: Option<List>,
        kwargs: Option<Dict>,
        publication_id: u64,
    ) -> (r: Vec<Action>)
        ensures
            actions_view(r@) == publication_steps(
                reached(subscriptions@, segments(topic@)),
                self.id(),
                request_id,
                options.acknowledge,
                publication_id,
                topic@,
                args_view(args),
                kwargs_view(kwargs),
            ),
    {
        let my_id = self.info_id();
        let hits = subscriptions.filter(topic.clone());
        let mut actions: Vec<Action> = Vec::new();
        let ghost a = args_view(args);
        let ghost k = kwargs_view(kwargs);
        let mut i: usize = 0;
        assert(actions_view(actions@) =~= events(hits@.take(0), my_id, publication_id, topic@, a, k));
        while i < hits.len()
            invariant
                i <= hits.len(),
                a == args_view(args),
                k == kwargs_view(kwargs),
                actions_view(actions@) == events(
                    hits@.take(i as int),
                    my_id,
                    publication_id,
                    topic@,
                    a,
                    k,
                ),
            decreases hits.len() - i,
        {
            let ghost before = actions_view(actions@);
            let (subscriber_id, topic_id, policy) = hits[i];
            proof {
                assert(hits@.take(i + 1).drop_last() =~= hits@.take(i as int));
                assert(hits@.take(i + 1).last() == hits@[i as int]);
            }
            if subscriber_id != my_id {
                let mut details = EventDetails::new();
                if policy != MatchingPolicy::Strict {
                    details.topic = Some(topic.clone());
                }
                let message = Message::Event(
                    topic_id,
                    publication_id,
                    details,
                    clone_args(&args),
                    clone_kwargs(&kwargs),
                );
                actions.push(Action::Send { connection_id: subscriber_id, message });
                assert(actions_view(actions@) =~= before.push(
                    event(hits@[i as int], publication_id, topic@, a, k),
                ));
            }
            i += 1;
        }
        assert(hits@.take(hits@.len() as int) =~= hits@);
        if options.should_acknowledge() {
            let ghost before = actions_view(actions@);
            actions.push(self.send_message(Message::Published(request_id, publication_id)));
            assert(actions_view(actions@) =~= before + seq![
                ActionView::Send {
                    connection_id: my_id,
                    message: MessageView::Published(request_id, publication_id),
                },
            ]);
        } else {
            assert(actions_view(actions@) =~= actions_view(actions@) + Seq::empty());
        }
        actions
    }

    /// Answers `PUBLISH(request_id, options, topic, args, kwargs)` under a
    /// publication id that it draws.
    pub fn handle_publish(
        &self,
        subscriptions: &SubscriptionPatternNode,
        request_id: u64,
        options: PublishOptions,
        topic: URI,
        args: Option<List>,
        kwargs: Option<Dict>,
    ) -> (r: Vec<Action>)
        ensures
            exists|publication_id: u64|
                publication_id < ID_LIMIT && actions_view(r@) == #[trigger] publication_steps(
                    reached(subscriptions@, segments(topic@)),
                    self.id(),
                    request_id,
                    options.acknowledge,
                    publication_id,
                    topic@,
                    args_view(args),
                    kwargs_view(kwargs),
                ),
    {
        let publication_id = random_id();
        self.publish_with_id(subscriptions, request_id, options, topic, args, kwargs, publication_id)
    }
}

} // verus!
