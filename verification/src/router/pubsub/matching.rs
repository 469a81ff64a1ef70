//! Which subscribers a publication reaches.
//!
//! The deliveries of a publication are defined on the directory as a map
//! from URIs to their subscribers. The laws at the end say what the
//! definition comes to for each matching policy.

use crate::messages::MatchingPolicy;
use crate::router::pubsub::patterns::{
    fresh_topic, joined, subscribed, subscription_id, DirectoryView, TopicView,
};
use vstd::prelude::*;

verus! {

/// The prefix subscribers `cs` as deliveries under the id `prefix_id`.
pub open spec fn prefix_hits(cs: Seq<u64>, prefix_id: u64) -> Seq<(u64, u64, MatchingPolicy)> {
    Seq::new(cs.len(), |i: int| (cs[i], prefix_id, MatchingPolicy::Prefix))
}

/// Those of the subscribers `cs` that a publication reaches, as deliveries
/// under the id `id`, in order: all of them where the URI is the topic
/// itself (`exact`), else the wildcard subscribers only.
pub open spec fn exact_hits(cs: Seq<(u64, MatchingPolicy)>, id: u64, exact: bool) -> Seq<
    (u64, u64, MatchingPolicy),
>
    decreases cs.len(),
{
    if cs.len() == 0 {
        Seq::empty()
    } else {
        let init = exact_hits(cs.drop_last(), id, exact);
        if exact || cs.last().1 == MatchingPolicy::Wildcard {
            init.push((cs.last().0, id, cs.last().1))
        } else {
            init
        }
    }
}

/// The deliveries that one subscribed URI adds to a publication. `exact`
/// says that the URI spells out the start of the topic component by
/// component, `at_end` that it has as many components as the topic. Prefix
/// subscribers are reached where `exact` holds, the others where `at_end`
/// holds.
pub open spec fn found(t: TopicView, exact: bool, at_end: bool) -> Seq<(u64, u64, MatchingPolicy)> {
    (if exact {
        prefix_hits(t.prefix_connections, t.prefix_id)
    } else {
        Seq::empty()
    }) + (if at_end {
        exact_hits(t.connections, t.id, exact)
    } else {
        Seq::empty()
    })
}

/// The deliveries that the URI with the components `path` adds, if the
/// directory knows it.
pub open spec fn found_at(dir: DirectoryView, path: Seq<Seq<char>>, exact: bool, at_end: bool) -> Seq<
    (u64, u64, MatchingPolicy),
> {
    if dir.dom().contains(path) {
        found(dir[path], exact, at_end)
    } else {
        Seq::empty()
    }
}

/// The deliveries of a publication to `topic` from the URIs that begin with
/// `at`. A URI is visited if each of its components is the topic's component
/// at that place or is empty; `exact` says that no empty component stood in
/// for a different one so far. At each step the URI itself comes first, then
/// those that go on with the topic's component, then those that go on with
/// the empty component.
pub open spec fn reached_below(
    dir: DirectoryView,
    at: Seq<Seq<char>>,
    exact: bool,
    topic: Seq<Seq<char>>,
) -> Seq<(u64, u64, MatchingPolicy)>
    decreases topic.len() - at.len(),
{
    if at.len() > topic.len() {
        Seq::empty()
    } else if at.len() == topic.len() {
        found_at(dir, at, exact, true)
    } else {
        let s = topic[at.len() as int];
        found_at(dir, at, exact, false) + reached_below(dir, at.push(s), exact, topic) + (if s.len()
            > 0 {
            reached_below(dir, at.push(Seq::empty()), false, topic)
        } else {
            Seq::empty()
        })
    }
}

/// The deliveries of a publication to the topic with the components `topic`.
pub open spec fn reached(dir: DirectoryView, topic: Seq<Seq<char>>) -> Seq<
    (u64, u64, MatchingPolicy),
> {
    reached_below(dir, Seq::empty(), true, topic)
}

/// Whether each component of `path` is the component of `topic` at its
/// place or is empty, and `path` is no longer than `topic`.
pub open spec fn fits(path: Seq<Seq<char>>, topic: Seq<Seq<char>>) -> bool {
    path.len() <= topic.len() && forall|i: int|
        0 <= i < path.len() ==> (#[trigger] path[i]) == topic[i] || path[i].len() == 0
}

/// Whether `path` spells out the beginning of `topic`.
pub open spec fn begins(path: Seq<Seq<char>>, topic: Seq<Seq<char>>) -> bool {
    path.len() <= topic.len() && topic.take(path.len() as int) == path
}

/// Whether a subscription to the URI with the components `path` under
/// `policy` is meant for publications to `topic`: an exact subscription for
/// its own URI, a prefix subscription for every topic that begins with its
/// URI, a wildcard subscription for every topic of the same length that
/// differs from its URI only where the URI has an empty component.
pub open spec fn subscription_fits(
    path: Seq<Seq<char>>,
    policy: MatchingPolicy,
    topic: Seq<Seq<char>>,
) -> bool {
    match policy {
        MatchingPolicy::Strict => path == topic,
        MatchingPolicy::Prefix => begins(path, topic),
        MatchingPolicy::Wildcard => path.len() == topic.len() && fits(path, topic),
    }
}

/// One more component keeps a walk on the topic.
proof fn lemma_step(at: Seq<Seq<char>>, exact: bool, topic: Seq<Seq<char>>)
    requires
        fits(at, topic),
        exact == begins(at, topic),
        at.len() < topic.len(),
    ensures
        fits(at.push(topic[at.len() as int]), topic),
        fits(at.push(Seq::empty()), topic),
        begins(at.push(topic[at.len() as int]), topic) == exact,
        topic[at.len() as int].len() > 0 ==> !begins(at.push(Seq::empty()), topic),
{
    let n = at.len() as int;
    let s = topic[n];
    let e = Seq::<char>::empty();
    assert forall|i: int| 0 <= i < n + 1 implies (#[trigger] at.push(s)[i]) == topic[i] || at.push(
        s,
    )[i].len() == 0 by {
        if i < n {
            assert(at.push(s)[i] == at[i]);
        }
    }
    assert forall|i: int| 0 <= i < n + 1 implies (#[trigger] at.push(e)[i]) == topic[i] || at.push(
        e,
    )[i].len() == 0 by {
        if i < n {
            assert(at.push(e)[i] == at[i]);
        }
    }
    lemma_next(at, topic, s);
    lemma_next(at, topic, e);
}

/// A path that begins with `at` and is longer begins with `at` and one
/// more component exactly if that component is its next one.
proof fn lemma_next(at: Seq<Seq<char>>, path: Seq<Seq<char>>, x: Seq<char>)
    requires
        at.len() < path.len(),
    ensures
        begins(at.push(x), path) <==> begins(at, path) && path[at.len() as int] == x,
{
    let n = at.len() as int;
    if begins(at.push(x), path) {
        assert(path.take(n + 1)[n] == at.push(x)[n]);
        assert(path.take(n) =~= at) by {
            assert forall|i: int| 0 <= i < n implies path.take(n)[i] == at[i] by {
                assert(path.take(n + 1)[i] == at.push(x)[i]);
            }
        }
    }
    if begins(at, path) && path[n] == x {
        assert(path.take(n + 1) =~= at.push(x)) by {
            assert forall|i: int| 0 <= i < n + 1 implies path.take(n + 1)[i] == at.push(x)[i] by {
                if i < n {
                    assert(path.take(n)[i] == at[i]);
                }
            }
        }
    }
}

/// A directory that knows one URI sends a publication there or nowhere.
proof fn lemma_one_topic(
    path: Seq<Seq<char>>,
    t: TopicView,
    at: Seq<Seq<char>>,
    exact: bool,
    topic: Seq<Seq<char>>,
)
    requires
        fits(at, topic),
        exact == begins(at, topic),
    ensures
        reached_below(Map::empty().insert(path, t), at, exact, topic) == (if begins(at, path)
            && fits(path, topic) {
            found(t, begins(path, topic), path.len() == topic.len())
        } else {
            Seq::empty()
        }),
    decreases topic.len() - at.len(),
{
    let dir = Map::<Seq<Seq<char>>, TopicView>::empty().insert(path, t);
    let none = Seq::<(u64, u64, MatchingPolicy)>::empty();
    let all = found(t, begins(path, topic), path.len() == topic.len());
    let n = at.len() as int;
    assert(dir.dom().contains(at) <==> at == path);
    if at == path {
        assert(path.take(n) =~= path);
    }
    if path.len() == n && begins(at, path) {
        assert(path.take(n) =~= path);
    }
    if n < topic.len() {
        let s = topic[n];
        let e = Seq::<char>::empty();
        lemma_step(at, exact, topic);
        lemma_one_topic(path, t, at.push(s), exact, topic);
        if s.len() > 0 {
            lemma_one_topic(path, t, at.push(e), false, topic);
        }
        if path.len() > n {
            lemma_next(at, path, s);
            lemma_next(at, path, e);
            if fits(path, topic) {
                assert(path[n] == s || path[n].len() == 0);
            }
            if path[n].len() == 0 {
                assert(path[n] =~= e);
            }
            if s.len() == 0 {
                assert(s =~= e);
            }
        }
        // The URI is at `at`, or beyond it on one of the two ways on, or
        // nowhere from here.
        let first = found_at(dir, at, exact, false);
        let second = reached_below(dir, at.push(s), exact, topic);
        if at == path {
            assert(reached_below(dir, at, exact, topic) =~= all);
        } else if begins(at, path) && fits(path, topic) && path[n] == s {
            assert(reached_below(dir, at, exact, topic) =~= second);
        } else if begins(at, path) && fits(path, topic) {
            assert(reached_below(dir, at, exact, topic) =~= reached_below(
                dir,
                at.push(e),
                false,
                topic,
            ));
        } else {
            assert(reached_below(dir, at, exact, topic) =~= none);
        }
    }
}

/// One subscription gives one delivery, and gives it for the topics that
/// it is meant for: in a directory that holds a single subscription, a
/// publication reaches the subscriber once, under the id of the
/// subscription, if the subscription fits the topic, and reaches nobody if
/// it does not.
pub proof fn lemma_single_subscription(
    path: Seq<Seq<char>>,
    subscriber: u64,
    policy: MatchingPolicy,
    id: u64,
    prefix_id: u64,
    topic: Seq<Seq<char>>,
)
    ensures
        reached(subscribed(Map::empty(), path, subscriber, policy, id, prefix_id), topic) == (
        if subscription_fits(path, policy, topic) {
            seq![
                (
                    subscriber,
                    subscription_id(Map::empty(), path, policy, id, prefix_id),
                    policy,
                ),
            ]
        } else {
            Seq::empty()
        }),
{
    let none = Seq::<Seq<char>>::empty();
    let t = joined(fresh_topic(id, prefix_id), subscriber, policy);
    assert(topic.take(0) =~= none);
    assert(path.take(0) =~= none);
    lemma_one_topic(path, t, none, true, topic);
    let exact = begins(path, topic);
    let at_end = path.len() == topic.len();
    if policy == MatchingPolicy::Prefix {
        assert(t.connections =~= Seq::empty());
        assert(exact_hits(t.connections, t.id, exact) =~= Seq::empty());
        assert(prefix_hits(t.prefix_connections, t.prefix_id) =~= seq![
            (subscriber, prefix_id, MatchingPolicy::Prefix),
        ]);
        if begins(path, topic) {
            assert(fits(path, topic)) by {
                assert forall|i: int| 0 <= i < path.len() implies (#[trigger] path[i])
                    == topic[i] || path[i].len() == 0 by {
                    assert(topic.take(path.len() as int)[i] == topic[i]);
                }
            }
        }
        assert(found(t, exact, at_end) =~= if exact {
            seq![(subscriber, prefix_id, MatchingPolicy::Prefix)]
        } else {
            Seq::empty()
        });
    } else {
        assert(t.prefix_connections =~= Seq::empty());
        assert(prefix_hits(t.prefix_connections, t.prefix_id) =~= Seq::empty());
        assert(t.connections =~= seq![(subscriber, policy)]);
        assert(t.connections.drop_last() =~= Seq::empty());
        assert(exact_hits(t.connections.drop_last(), t.id, exact) =~= Seq::empty());
        assert(exact_hits(t.connections, t.id, exact) =~= if exact || policy
            == MatchingPolicy::Wildcard {
            seq![(subscriber, id, policy)]
        } else {
            Seq::empty()
        });
        if at_end {
            assert(topic.take(path.len() as int) =~= topic);
        }
        if path == topic {
            assert(topic.take(path.len() as int) =~= topic);
            assert(fits(path, topic));
        }
        assert(found(t, exact, at_end) =~= if at_end && (exact || policy
            == MatchingPolicy::Wildcard) {
            seq![(subscriber, id, policy)]
        } else {
            Seq::empty()
        });
        if begins(path, topic) && at_end {
            assert(path == topic);
        }
    }
}

/// A walk that has come to `at` still finds what a URI beyond `at` holds.
proof fn lemma_reached_from(
    dir: DirectoryView,
    path: Seq<Seq<char>>,
    at: Seq<Seq<char>>,
    exact: bool,
    topic: Seq<Seq<char>>,
    hit: (u64, u64, MatchingPolicy),
)
    requires
        fits(at, topic),
        exact == begins(at, topic),
        begins(at, path),
        dir.dom().contains(path),
        fits(path, topic),
        found(dir[path], begins(path, topic), path.len() == topic.len()).contains(hit),
    ensures
        reached_below(dir, at, exact, topic).contains(hit),
    decreases topic.len() - at.len(),
{
    let n = at.len() as int;
    let all = reached_below(dir, at, exact, topic);
    if path.len() == n {
        assert(path.take(n) =~= path);
        let here = found_at(dir, at, exact, at.len() == topic.len());
        let k = choose|k: int| 0 <= k < here.len() && here[k] == hit;
        assert(all[k] == hit);
    } else {
        let s = topic[n];
        let e = Seq::<char>::empty();
        let x = path[n];
        lemma_step(at, exact, topic);
        lemma_next(at, path, s);
        lemma_next(at, path, e);
        let first = found_at(dir, at, exact, false);
        let second = reached_below(dir, at.push(s), exact, topic);
        assert(x == s || x.len() == 0);
        if x == s {
            lemma_reached_from(dir, path, at.push(s), exact, topic, hit);
            let k = choose|k: int| 0 <= k < second.len() && second[k] == hit;
            assert(all[first.len() + k] == hit);
        } else {
            assert(x =~= e);
            assert(s.len() > 0) by {
                if s.len() == 0 {
                    assert(s =~= e);
                }
            }
            lemma_reached_from(dir, path, at.push(e), false, topic, hit);
            let third = reached_below(dir, at.push(e), false, topic);
            let k = choose|k: int| 0 <= k < third.len() && third[k] == hit;
            assert(all[first.len() + second.len() + k] == hit);
        }
    }
}

/// Whether the directory holds a URI beyond `at` that fits the topic and
/// gives the delivery `hit`.
spec fn reachable_from(
    dir: DirectoryView,
    at: Seq<Seq<char>>,
    topic: Seq<Seq<char>>,
    hit: (u64, u64, MatchingPolicy),
) -> bool {
    exists|path: Seq<Seq<char>>|
        #![trigger dir.dom().contains(path)]
        dir.dom().contains(path) && begins(at, path) && fits(path, topic) && found(
            dir[path],
            begins(path, topic),
            path.len() == topic.len(),
        ).contains(hit)
}

/// What a walk finds from `at` on, a URI beyond `at` holds.
proof fn lemma_reached_only(
    dir: DirectoryView,
    at: Seq<Seq<char>>,
    exact: bool,
    topic: Seq<Seq<char>>,
    hit: (u64, u64, MatchingPolicy),
)
    requires
        fits(at, topic),
        exact == begins(at, topic),
        reached_below(dir, at, exact, topic).contains(hit),
    ensures
        reachable_from(dir, at, topic, hit),
    decreases topic.len() - at.len(),
{
    let n = at.len() as int;
    let all = reached_below(dir, at, exact, topic);
    let k = choose|k: int| 0 <= k < all.len() && all[k] == hit;
    let here = found_at(dir, at, exact, at.len() == topic.len());
    assert(at.take(n) =~= at);
    if at.len() == topic.len() || k < here.len() {
        assert(here[k] == hit);
        assert(dir.dom().contains(at));
    } else {
        let s = topic[n];
        let e = Seq::<char>::empty();
        lemma_step(at, exact, topic);
        let second = reached_below(dir, at.push(s), exact, topic);
        if k < here.len() + second.len() {
            assert(second[k - here.len()] == hit);
            lemma_reached_only(dir, at.push(s), exact, topic, hit);
            let path = choose|path: Seq<Seq<char>>|
                #![trigger dir.dom().contains(path)]
                dir.dom().contains(path) && begins(at.push(s), path) && fits(path, topic) && found(
                    dir[path],
                    begins(path, topic),
                    path.len() == topic.len(),
                ).contains(hit);
            lemma_next(at, path, s);
            assert(dir.dom().contains(path));
        } else {
            let third = reached_below(dir, at.push(e), false, topic);
            assert(third[k - here.len() - second.len()] == hit);
            lemma_reached_only(dir, at.push(e), false, topic, hit);
            let path = choose|path: Seq<Seq<char>>|
                #![trigger dir.dom().contains(path)]
                dir.dom().contains(path) && begins(at.push(e), path) && fits(path, topic) && found(
                    dir[path],
                    begins(path, topic),
                    path.len() == topic.len(),
                ).contains(hit);
            lemma_next(at, path, e);
            assert(dir.dom().contains(path));
        }
    }
}

/// A publication reaches exactly the subscribers of the URIs that fit its
/// topic: a delivery is among those of the publication if and only if the
/// directory knows a URI that fits the topic and gives that delivery -
/// a prefix subscriber where the URI spells out the beginning of the topic,
/// an exact subscriber where the URI is the topic, a wildcard subscriber
/// where the URI has the topic's length.
pub proof fn lemma_reached_exactly(
    dir: DirectoryView,
    topic: Seq<Seq<char>>,
    hit: (u64, u64, MatchingPolicy),
)
    ensures
        reached(dir, topic).contains(hit) <==> exists|path: Seq<Seq<char>>|
            #![trigger dir.dom().contains(path)]
            dir.dom().contains(path) && fits(path, topic) && found(
                dir[path],
                begins(path, topic),
                path.len() == topic.len(),
            ).contains(hit),
{
    let none = Seq::<Seq<char>>::empty();
    assert(topic.take(0) =~= none);
    if reached(dir, topic).contains(hit) {
        lemma_reached_only(dir, none, true, topic, hit);
        let path = choose|path: Seq<Seq<char>>|
            #![trigger dir.dom().contains(path)]
            dir.dom().contains(path) && begins(none, path) && fits(path, topic) && found(
                dir[path],
                begins(path, topic),
                path.len() == topic.len(),
            ).contains(hit);
        assert(dir.dom().contains(path));
    }
    if exists|path: Seq<Seq<char>>|
        #![trigger dir.dom().contains(path)]
        dir.dom().contains(path) && fits(path, topic) && found(
            dir[path],
            begins(path, topic),
            path.len() == topic.len(),
        ).contains(hit) {
        let path = choose|path: Seq<Seq<char>>|
            #![trigger dir.dom().contains(path)]
            dir.dom().contains(path) && fits(path, topic) && found(
                dir[path],
                begins(path, topic),
                path.len() == topic.len(),
            ).contains(hit);
        assert(path.take(0) =~= none);
        lemma_reached_from(dir, path, none, true, topic, hit);
    }
}

/// A subscriber is reached by the publications that its subscription is
/// meant for, whoever else is subscribed: after a subscription, every
/// publication to a topic that the subscription fits has a delivery for the
/// subscriber under the id that the subscription was given.
pub proof fn lemma_subscriber_is_reached(
    dir: DirectoryView,
    path: Seq<Seq<char>>,
    subscriber: u64,
    policy: MatchingPolicy,
    id: u64,
    prefix_id: u64,
    topic: Seq<Seq<char>>,
)
    requires
        subscription_fits(path, policy, topic),
    ensures
        reached(subscribed(dir, path, subscriber, policy, id, prefix_id), topic).contains(
            (subscriber, subscription_id(dir, path, policy, id, prefix_id), policy),
        ),
{
    let after = subscribed(dir, path, subscriber, policy, id, prefix_id);
    let t = after[path];
    let hit = (subscriber, subscription_id(dir, path, policy, id, prefix_id), policy);
    let exact = begins(path, topic);
    let at_end = path.len() == topic.len();
    assert(after.dom().contains(path));
    if path == topic {
        assert(topic.take(path.len() as int) =~= topic);
    }
    if begins(path, topic) {
        assert forall|i: int| 0 <= i < path.len() implies (#[trigger] path[i]) == topic[i]
            || path[i].len() == 0 by {
            assert(topic.take(path.len() as int)[i] == topic[i]);
        }
    }
    assert(fits(path, topic));
    if policy == MatchingPolicy::Prefix {
        let hits = prefix_hits(t.prefix_connections, t.prefix_id);
        assert(hits[hits.len() - 1] == hit);
        assert(found(t, exact, at_end)[hits.len() - 1] == hit);
    } else {
        let before = prefix_hits(t.prefix_connections, t.prefix_id);
        let hits = exact_hits(t.connections, t.id, exact);
        assert(t.connections.last() == (subscriber, policy));
        assert(hits[hits.len() - 1] == hit);
        if exact {
            assert(found(t, exact, at_end)[before.len() + hits.len() - 1] == hit);
        } else {
            assert(found(t, exact, at_end)[hits.len() - 1] == hit);
        }
    }
    lemma_reached_exactly(after, topic, hit);
}

/// How often `x` occurs in `s`.
pub open spec fn times<T>(s: Seq<T>, x: T) -> nat
    decreases s.len(),
{
    if s.len() == 0 {
        0
    } else {
        times(s.drop_last(), x) + (if s.last() == x {
            1nat
        } else {
            0nat
        })
    }
}

/// What occurs in two lists one after the other occurs as often as in both
/// together.
pub proof fn lemma_times_add<T>(a: Seq<T>, b: Seq<T>, x: T)
    ensures
        times(a + b, x) == times(a, x) + times(b, x),
    decreases b.len(),
{
    if b.len() == 0 {
        assert(a + b =~= a);
    } else {
        assert((a + b).drop_last() =~= a + b.drop_last());
        assert((a + b).last() == b.last());
        lemma_times_add(a, b.drop_last(), x);
    }
}

/// What a list does not hold occurs in it no time, and the other way round.
pub proof fn lemma_times_none<T>(s: Seq<T>, x: T)
    ensures
        times(s, x) == 0 <==> !s.contains(x),
    decreases s.len(),
{
    if s.len() > 0 {
        lemma_times_none(s.drop_last(), x);
        if s.contains(x) {
            let k = choose|k: int| 0 <= k < s.len() && s[k] == x;
            if k < s.len() - 1 {
                assert(s.drop_last()[k] == x);
            }
        }
        if s.drop_last().contains(x) {
            let k = choose|k: int| 0 <= k < s.drop_last().len() && s.drop_last()[k] == x;
            assert(s[k] == x);
        }
        if s.last() == x {
            assert(s[s.len() - 1] == x);
        }
    }
}

/// A prefix subscriber is delivered to under the prefix id as often as it
/// is listed.
proof fn lemma_times_prefix_hits(cs: Seq<u64>, prefix_id: u64, hit: (u64, u64, MatchingPolicy))
    ensures
        times(prefix_hits(cs, prefix_id), hit) == (if hit.2 == MatchingPolicy::Prefix && hit.1
            == prefix_id {
            times(cs, hit.0)
        } else {
            0
        }),
    decreases cs.len(),
{
    if cs.len() > 0 {
        assert(prefix_hits(cs, prefix_id).drop_last() =~= prefix_hits(cs.drop_last(), prefix_id));
        lemma_times_prefix_hits(cs.drop_last(), prefix_id, hit);
    }
}

/// Where the URI is the topic itself a subscriber is delivered to under
/// the URI's id as often as it is listed with its policy. Where an empty
/// component stood in for another, only wildcard subscribers are.
proof fn lemma_times_exact_hits(
    cs: Seq<(u64, MatchingPolicy)>,
    id: u64,
    exact: bool,
    hit: (u64, u64, MatchingPolicy),
)
    ensures
        times(exact_hits(cs, id, exact), hit) == (if hit.1 == id && (exact || hit.2
            == MatchingPolicy::Wildcard) {
            times(cs, (hit.0, hit.2))
        } else {
            0
        }),
    decreases cs.len(),
{
    if cs.len() > 0 {
        lemma_times_exact_hits(cs.drop_last(), id, exact, hit);
        let init = exact_hits(cs.drop_last(), id, exact);
        if exact || cs.last().1 == MatchingPolicy::Wildcard {
            assert(exact_hits(cs, id, exact).drop_last() =~= init);
        }
    }
}

/// How often the URI with the components `path` gives the delivery `hit`.
pub open spec fn times_at(
    dir: DirectoryView,
    path: Seq<Seq<char>>,
    exact: bool,
    at_end: bool,
    hit: (u64, u64, MatchingPolicy),
) -> nat {
    if !dir.dom().contains(path) {
        0
    } else {
        let t = dir[path];
        (if exact && hit.2 == MatchingPolicy::Prefix && hit.1 == t.prefix_id {
            times(t.prefix_connections, hit.0)
        } else {
            0
        }) + (if at_end && hit.1 == t.id && (exact || hit.2 == MatchingPolicy::Wildcard) {
            times(t.connections, (hit.0, hit.2))
        } else {
            0
        })
    }
}

/// A URI gives a delivery as often as the subscriber is listed for it.
proof fn lemma_times_found_at(
    dir: DirectoryView,
    path: Seq<Seq<char>>,
    exact: bool,
    at_end: bool,
    hit: (u64, u64, MatchingPolicy),
)
    ensures
        times(found_at(dir, path, exact, at_end), hit) == times_at(dir, path, exact, at_end, hit),
{
    if dir.dom().contains(path) {
        let t = dir[path];
        let first = if exact {
            prefix_hits(t.prefix_connections, t.prefix_id)
        } else {
            Seq::empty()
        };
        let second = if at_end {
            exact_hits(t.connections, t.id, exact)
        } else {
            Seq::empty()
        };
        lemma_times_add(first, second, hit);
        lemma_times_prefix_hits(t.prefix_connections, t.prefix_id, hit);
        lemma_times_exact_hits(t.connections, t.id, exact, hit);
    }
}

/// How often the URIs that spell out the topic from `at` on, component by
/// component, give the delivery `hit`.
pub open spec fn times_on_the_way(
    dir: DirectoryView,
    at: Seq<Seq<char>>,
    topic: Seq<Seq<char>>,
    hit: (u64, u64, MatchingPolicy),
) -> nat
    decreases topic.len() - at.len(),
{
    if at.len() > topic.len() {
        0
    } else if at.len() == topic.len() {
        times_at(dir, at, true, true, hit)
    } else {
        times_at(dir, at, true, false, hit) + times_on_the_way(
            dir,
            at.push(topic[at.len() as int]),
            topic,
            hit,
        )
    }
}

/// A walk delivers to exact and prefix subscribers on the topic's own way
/// only, and there once for each time they are listed.
proof fn lemma_times_below(
    dir: DirectoryView,
    at: Seq<Seq<char>>,
    exact: bool,
    topic: Seq<Seq<char>>,
    hit: (u64, u64, MatchingPolicy),
)
    requires
        fits(at, topic),
        exact == begins(at, topic),
        hit.2 != MatchingPolicy::Wildcard,
    ensures
        times(reached_below(dir, at, exact, topic), hit) == (if exact {
            times_on_the_way(dir, at, topic, hit)
        } else {
            0
        }),
    decreases topic.len() - at.len(),
{
    let n = at.len() as int;
    if n == topic.len() {
        lemma_times_found_at(dir, at, exact, true, hit);
    } else {
        let s = topic[n];
        let e = Seq::<char>::empty();
        lemma_step(at, exact, topic);
        let first = found_at(dir, at, exact, false);
        let second = reached_below(dir, at.push(s), exact, topic);
        let third = if s.len() > 0 {
            reached_below(dir, at.push(e), false, topic)
        } else {
            Seq::empty()
        };
        lemma_times_found_at(dir, at, exact, false, hit);
        lemma_times_below(dir, at.push(s), exact, topic, hit);
        if s.len() > 0 {
            lemma_times_below(dir, at.push(e), false, topic, hit);
        }
        lemma_times_add(first, second, hit);
        lemma_times_add(first + second, third, hit);
    }
}

/// An exact subscriber is delivered to once for each time that it is
/// listed for the topic, whoever else is subscribed: the deliveries of a
/// publication hold `(subscriber, id, Strict)` as often as the topic's own
/// entry lists the subscriber as an exact one, where `id` is the topic's
/// id, and not at all for any other id or where the directory does not know
/// the topic.
pub proof fn lemma_exact_subscriber_is_reached_as_listed(
    dir: DirectoryView,
    topic: Seq<Seq<char>>,
    subscriber: u64,
    id: u64,
)
    ensures
        times(reached(dir, topic), (subscriber, id, MatchingPolicy::Strict)) == (
        if dir.dom().contains(topic) && dir[topic].id == id {
            times(dir[topic].connections, (subscriber, MatchingPolicy::Strict))
        } else {
            0
        }),
{
    let hit = (subscriber, id, MatchingPolicy::Strict);
    let none = Seq::<Seq<char>>::empty();
    assert(topic.take(0) =~= none);
    lemma_times_below(dir, none, true, topic, hit);
    lemma_strict_on_the_way(dir, none, topic, hit);
}

/// On the topic's own way only the topic itself delivers to exact
/// subscribers.
proof fn lemma_strict_on_the_way(
    dir: DirectoryView,
    at: Seq<Seq<char>>,
    topic: Seq<Seq<char>>,
    hit: (u64, u64, MatchingPolicy),
)
    requires
        begins(at, topic),
        hit.2 == MatchingPolicy::Strict,
    ensures
        times_on_the_way(dir, at, topic, hit) == times_at(dir, topic, true, true, hit),
    decreases topic.len() - at.len(),
{
    let n = at.len() as int;
    if n == topic.len() {
        assert(topic.take(n) =~= topic);
    } else {
        lemma_next(at, topic, topic[n]);
        lemma_strict_on_the_way(dir, at.push(topic[n]), topic, hit);
    }
}

/// A prefix subscriber is delivered to once for each time that it is
/// listed for a URI that begins the topic, whoever else is subscribed: the
/// deliveries of a publication hold `(subscriber, id, Prefix)` as often as
/// the URIs on the topic's way, the topic itself among them, list the
/// subscriber under that id.
pub proof fn lemma_prefix_subscriber_is_reached_as_listed(
    dir: DirectoryView,
    topic: Seq<Seq<char>>,
    subscriber: u64,
    id: u64,
)
    ensures
        times(reached(dir, topic), (subscriber, id, MatchingPolicy::Prefix)) == times_on_the_way(
            dir,
            Seq::empty(),
            topic,
            (subscriber, id, MatchingPolicy::Prefix),
        ),
{
    let none = Seq::<Seq<char>>::empty();
    assert(topic.take(0) =~= none);
    lemma_times_below(dir, none, true, topic, (subscriber, id, MatchingPolicy::Prefix));
}

/// Whether the directory lists `subscriber` under `id` for nothing that
/// names the topic in its event but the prefix subscribers of `path`: for
/// no other URI's prefix subscribers, and for no URI as a subscriber whose
/// policy is not the exact one.
pub open spec fn listed_apart(
    dir: DirectoryView,
    path: Seq<Seq<char>>,
    subscriber: u64,
    id: u64,
) -> bool {
    &&& forall|other: Seq<Seq<char>>| #[trigger]
        dir.dom().contains(other) && other != path ==> !(dir[other].prefix_id == id
            && dir[other].prefix_connections.contains(subscriber))
    &&& forall|other: Seq<Seq<char>>| #[trigger]
        dir.dom().contains(other) ==> !(dir[other].id == id && (dir[other].connections.contains(
            (subscriber, MatchingPolicy::Prefix),
        ) || dir[other].connections.contains((subscriber, MatchingPolicy::Wildcard))))
}

/// On the topic's way a subscriber that is listed apart is counted where
/// its own URI stands and nowhere else.
proof fn lemma_prefix_on_the_way(
    dir: DirectoryView,
    path: Seq<Seq<char>>,
    at: Seq<Seq<char>>,
    topic: Seq<Seq<char>>,
    subscriber: u64,
)
    requires
        begins(at, topic),
        begins(path, topic),
        dir.dom().contains(path),
        listed_apart(dir, path, subscriber, dir[path].prefix_id),
    ensures
        times_on_the_way(
            dir,
            at,
            topic,
            (subscriber, dir[path].prefix_id, MatchingPolicy::Prefix),
        ) == (if at.len() <= path.len() {
            times(dir[path].prefix_connections, subscriber)
        } else {
            0
        }),
    decreases topic.len() - at.len(),
{
    let hit = (subscriber, dir[path].prefix_id, MatchingPolicy::Prefix);
    let n = at.len() as int;
    if dir.dom().contains(at) {
        let t = dir[at];
        lemma_times_none(t.connections, (subscriber, MatchingPolicy::Prefix));
        lemma_times_none(t.prefix_connections, subscriber);
    }
    if n < topic.len() {
        lemma_next(at, topic, topic[n]);
        lemma_prefix_on_the_way(dir, path, at.push(topic[n]), topic, subscriber);
    }
}

/// A prefix subscriber gets its delivery once, whoever else is subscribed:
/// where a URI that begins the topic lists the subscriber once among its
/// prefix subscribers, and the subscriber is listed apart under the URI's
/// prefix id, a publication to the topic has one delivery for it under that
/// id, and none under it as a wildcard subscriber.
pub proof fn lemma_prefix_subscriber_is_reached_once(
    dir: DirectoryView,
    path: Seq<Seq<char>>,
    topic: Seq<Seq<char>>,
    subscriber: u64,
)
    requires
        begins(path, topic),
        dir.dom().contains(path),
        times(dir[path].prefix_connections, subscriber) == 1,
        listed_apart(dir, path, subscriber, dir[path].prefix_id),
    ensures
        times(reached(dir, topic), (subscriber, dir[path].prefix_id, MatchingPolicy::Prefix))
            == 1,
        times(reached(dir, topic), (subscriber, dir[path].prefix_id, MatchingPolicy::Wildcard))
            == 0,
{
    let id = dir[path].prefix_id;
    let none = Seq::<Seq<char>>::empty();
    assert(topic.take(0) =~= none);
    lemma_prefix_subscriber_is_reached_as_listed(dir, topic, subscriber, id);
    lemma_prefix_on_the_way(dir, path, none, topic, subscriber);
    let wild = (subscriber, id, MatchingPolicy::Wildcard);
    lemma_times_none(reached(dir, topic), wild);
    if reached(dir, topic).contains(wild) {
        lemma_reached_exactly(dir, topic, wild);
        let other = choose|other: Seq<Seq<char>>|
            #![trigger dir.dom().contains(other)]
            dir.dom().contains(other) && fits(other, topic) && found(
                dir[other],
                begins(other, topic),
                other.len() == topic.len(),
            ).contains(wild);
        let exact = begins(other, topic);
        let at_end = other.len() == topic.len();
        lemma_times_found_at(dir, other, exact, at_end, wild);
        lemma_times_none(found_at(dir, other, exact, at_end), wild);
        lemma_times_none(dir[other].connections, (subscriber, MatchingPolicy::Wildcard));
        assert(dir.dom().contains(other));
    }
}

} // verus!
