//! The subscription directory: a trie over the components of topic URIs.
//!
//! A subscription sits at the node that its URI spells out. A publication
//! walks the trie along its topic, following at each step the edge labelled
//! with the topic's component and the edge with the empty label, which
//! stands for any component.

use crate::messages::{MatchingPolicy, URI};
use crate::router::pubsub::matching::{
    exact_hits, found, found_at, prefix_hits, reached, reached_below,
};
use vstd::prelude::*;

verus! {

/// The components of `uri`: the text between its dots, in order. There is
/// always at least one component; it is empty where two dots meet, and at
/// either end of a URI that begins or ends with a dot.
pub open spec fn segments(uri: Seq<char>) -> Seq<Seq<char>>
    decreases uri.len(),
{
    if uri.len() == 0 {
        seq![Seq::<char>::empty()]
    } else {
        let init = segments(uri.drop_last());
        if uri.last() == '.' {
            init.push(Seq::<char>::empty())
        } else {
            init.update(init.len() - 1, init.last().push(uri.last()))
        }
    }
}

/// What the directory knows of one subscribed URI.
pub struct TopicView {
    /// The id that exact and wildcard subscribers of the URI share.
    pub id: u64,
    /// The id that prefix subscribers of the URI share.
    pub prefix_id: u64,
    /// Exact and wildcard subscribers, oldest first, each with its policy.
    pub connections: Seq<(u64, MatchingPolicy)>,
    /// Prefix subscribers, oldest first.
    pub prefix_connections: Seq<u64>,
}

/// A directory as a map from the components of each URI that was ever
/// subscribed to what is known of it.
pub type DirectoryView = Map<Seq<Seq<char>>, TopicView>;

/// A URI that is subscribed for the first time, with the ids proposed for it.
pub open spec fn fresh_topic(id: u64, prefix_id: u64) -> TopicView {
    TopicView { id, prefix_id, connections: Seq::empty(), prefix_connections: Seq::empty() }
}

/// `t` with one more subscriber.
pub open spec fn joined(t: TopicView, subscriber: u64, policy: MatchingPolicy) -> TopicView {
    if policy == MatchingPolicy::Prefix {
        TopicView { prefix_connections: t.prefix_connections.push(subscriber), ..t }
    } else {
        TopicView { connections: t.connections.push((subscriber, policy)), ..t }
    }
}

/// What `dir` knows of `path`, or a fresh entry with the proposed ids.
pub open spec fn topic_or_fresh(
    dir: DirectoryView,
    path: Seq<Seq<char>>,
    id: u64,
    prefix_id: u64,
) -> TopicView {
    if dir.dom().contains(path) {
        dir[path]
    } else {
        fresh_topic(id, prefix_id)
    }
}

/// The directory after `subscriber` has subscribed to `path`.
pub open spec fn subscribed(
    dir: DirectoryView,
    path: Seq<Seq<char>>,
    subscriber: u64,
    policy: MatchingPolicy,
    id: u64,
    prefix_id: u64,
) -> DirectoryView {
    dir.insert(path, joined(topic_or_fresh(dir, path, id, prefix_id), subscriber, policy))
}

/// The id under which a subscription to `path` with `policy` is known: the
/// one that the URI already has, or else the proposed one.
pub open spec fn subscription_id(
    dir: DirectoryView,
    path: Seq<Seq<char>>,
    policy: MatchingPolicy,
    id: u64,
    prefix_id: u64,
) -> u64 {
    let t = topic_or_fresh(dir, path, id, prefix_id);
    if policy == MatchingPolicy::Prefix {
        t.prefix_id
    } else {
        t.id
    }
}

/// The entries of `cs` that do not belong to `subscriber`, in order.
pub open spec fn without(cs: Seq<(u64, MatchingPolicy)>, subscriber: u64) -> Seq<
    (u64, MatchingPolicy),
>
    decreases cs.len(),
{
    if cs.len() == 0 {
        cs
    } else if cs.last().0 == subscriber {
        without(cs.drop_last(), subscriber)
    } else {
        without(cs.drop_last(), subscriber).push(cs.last())
    }
}

/// The entries of `cs` other than `subscriber`, in order.
pub open spec fn prefix_without(cs: Seq<u64>, subscriber: u64) -> Seq<u64>
    decreases cs.len(),
{
    if cs.len() == 0 {
        cs
    } else if cs.last() == subscriber {
        prefix_without(cs.drop_last(), subscriber)
    } else {
        prefix_without(cs.drop_last(), subscriber).push(cs.last())
    }
}

/// Whether `subscriber` is among the exact and wildcard subscribers `cs`.
pub open spec fn subscribes(cs: Seq<(u64, MatchingPolicy)>, subscriber: u64) -> bool {
    exists|i: int| 0 <= i < cs.len() && (#[trigger] cs[i]).0 == subscriber
}

/// Whether `dir` holds a subscription of `subscriber` to `path`, among the
/// prefix subscribers if `is_prefix`, else among the others.
pub open spec fn has_subscription(
    dir: DirectoryView,
    path: Seq<Seq<char>>,
    subscriber: u64,
    is_prefix: bool,
) -> bool {
    dir.dom().contains(path) && if is_prefix {
        dir[path].prefix_connections.contains(subscriber)
    } else {
        subscribes(dir[path].connections, subscriber)
    }
}

/// `t` without the subscriptions of `subscriber` of the given kind.
pub open spec fn left(t: TopicView, subscriber: u64, is_prefix: bool) -> TopicView {
    if is_prefix {
        TopicView { prefix_connections: prefix_without(t.prefix_connections, subscriber), ..t }
    } else {
        TopicView { connections: without(t.connections, subscriber), ..t }
    }
}

/// The directory after every subscription of `subscriber` to `path` of the
/// given kind has been taken out. The URI keeps its ids.
pub open spec fn unsubscribed(
    dir: DirectoryView,
    path: Seq<Seq<char>>,
    subscriber: u64,
    is_prefix: bool,
) -> DirectoryView {
    dir.insert(path, left(dir[path], subscriber, is_prefix))
}

/// Why the directory refused a request.
#[derive(Debug, Clone, Copy, PartialEq, Eq, Structural)]
pub enum PatternError {
    /// The connection holds no such subscription.
    NoSuchSubscription,
}

#[derive(Debug)]
struct Topic {
    id: u64,
    prefix_id: u64,
    connections: Vec<(u64, MatchingPolicy)>,
    prefix_connections: Vec<u64>,
}

impl View for Topic {
    type V = TopicView;

    closed spec fn view(&self) -> TopicView {
        TopicView {
            id: self.id,
            prefix_id: self.prefix_id,
            connections: self.connections@,
            prefix_connections: self.prefix_connections@,
        }
    }
}

#[derive(Debug)]
struct Edge {
    label: Vec<char>,
    node: SubscriptionPatternNode,
}

/// A node of the directory, and through its edges the whole subtree below
/// it. The root stands for the empty sequence of components.
#[derive(Debug)]
pub struct SubscriptionPatternNode {
    edges: Vec<Edge>,
    topic: Option<Topic>,
}

/// The first position from `from` on at which `edges` has the label `label`.
spec fn find_edge(edges: Seq<Edge>, label: Seq<char>, from: int) -> Option<int>
    decreases edges.len() - from,
{
    if from < 0 || from >= edges.len() {
        None
    } else if edges[from].label@ == label {
        Some(from)
    } else {
        find_edge(edges, label, from + 1)
    }
}

/// Where an edge is found it is the first with the label; where none is
/// found no edge has the label.
proof fn lemma_find_edge(edges: Seq<Edge>, label: Seq<char>, from: int)
    requires
        0 <= from,
    ensures
        match find_edge(edges, label, from) {
            Some(i) => from <= i < edges.len() && edges[i].label@ == label && forall|j: int|
                from <= j < i ==> (#[trigger] edges[j]).label@ != label,
            None => forall|j: int| from <= j < edges.len() ==> (#[trigger] edges[j]).label@ != label,
        },
    decreases edges.len() - from,
{
    if from < edges.len() && edges[from].label@ != label {
        lemma_find_edge(edges, label, from + 1);
    }
}

/// Two lists of edges with the same labels send every label the same way.
proof fn lemma_find_edge_same_labels(a: Seq<Edge>, b: Seq<Edge>, label: Seq<char>, from: int)
    requires
        0 <= from,
        a.len() == b.len(),
        forall|j: int| 0 <= j < a.len() ==> (#[trigger] a[j]).label@ == b[j].label@,
    ensures
        find_edge(a, label, from) == find_edge(b, label, from),
    decreases a.len() - from,
{
    if from < a.len() && a[from].label@ != label {
        lemma_find_edge_same_labels(a, b, label, from + 1);
    }
}

/// An edge added at the end is found only where no earlier edge has its label.
proof fn lemma_find_edge_push(a: Seq<Edge>, e: Edge, label: Seq<char>, from: int)
    requires
        0 <= from <= a.len(),
    ensures
        find_edge(a.push(e), label, from) == match find_edge(a, label, from) {
            Some(i) => Some(i),
            None => if e.label@ == label {
                Some(a.len() as int)
            } else {
                None
            },
        },
    decreases a.len() - from,
{
    let b = a.push(e);
    if from < a.len() {
        assert(b[from] == a[from]);
        if a[from].label@ != label {
            lemma_find_edge_push(a, e, label, from + 1);
        }
    } else {
        assert(b[from] == e);
        assert(find_edge(b, label, from + 1) is None);
    }
}

/// What a node with the given edges and entry knows of the URI whose
/// components, counted from that node, are `path`.
spec fn lookup(edges: Seq<Edge>, topic: Option<Topic>, path: Seq<Seq<char>>) -> Option<TopicView>
    decreases path.len(), 0nat,
{
    if path.len() == 0 {
        match topic {
            Some(t) => Some(t@),
            None => None,
        }
    } else {
        match find_edge(edges, path[0], 0) {
            Some(i) => edges[i].node.topic_at(path.drop_first()),
            None => None,
        }
    }
}

impl SubscriptionPatternNode {
    /// What this subtree knows of the URI whose components, counted from this
    /// node, are `path`.
    closed spec fn topic_at(self, path: Seq<Seq<char>>) -> Option<TopicView>
        decreases path.len(), 1nat,
    {
        lookup(self.edges@, self.topic, path)
    }
}

impl View for SubscriptionPatternNode {
    type V = DirectoryView;

    closed spec fn view(&self) -> DirectoryView {
        Map::new(
            |path: Seq<Seq<char>>| self.topic_at(path) is Some,
            |path: Seq<Seq<char>>| self.topic_at(path)->0,
        )
    }
}

/// What a subtree knows of `path` after its entry for `target` has become
/// `entry`.
spec fn changed_at(
    before: Option<TopicView>,
    path: Seq<Seq<char>>,
    target: Seq<Seq<char>>,
    entry: Option<TopicView>,
) -> Option<TopicView> {
    if path == target {
        entry
    } else {
        before
    }
}

/// The entry of a URI after a subscription to it.
spec fn subscribed_entry(
    before: Option<TopicView>,
    subscriber: u64,
    policy: MatchingPolicy,
    id: u64,
    prefix_id: u64,
) -> Option<TopicView> {
    Some(
        joined(
            match before {
                Some(t) => t,
                None => fresh_topic(id, prefix_id),
            },
            subscriber,
            policy,
        ),
    )
}

/// Whether the entry holds a subscription of `subscriber` of the given kind.
spec fn entry_holds(entry: Option<TopicView>, subscriber: u64, is_prefix: bool) -> bool {
    match entry {
        Some(t) => if is_prefix {
            t.prefix_connections.contains(subscriber)
        } else {
            subscribes(t.connections, subscriber)
        },
        None => false,
    }
}

/// The entry of a URI after `subscriber` has given it up, if it held it.
spec fn unsubscribed_entry(before: Option<TopicView>, subscriber: u64, is_prefix: bool) -> Option<
    TopicView,
> {
    if entry_holds(before, subscriber, is_prefix) {
        Some(left(before->0, subscriber, is_prefix))
    } else {
        before
    }
}

/// Without edges and without an entry a node knows no URI.
proof fn lemma_lookup_leaf(path: Seq<Seq<char>>)
    ensures
        lookup(Seq::<Edge>::empty(), None, path) is None,
{
    if path.len() > 0 {
        assert(find_edge(Seq::<Edge>::empty(), path[0], 0) is None);
    }
}

/// A new last edge to a node that knows nothing changes nothing.
proof fn lemma_lookup_push(edges: Seq<Edge>, topic: Option<Topic>, edge: Edge, path: Seq<Seq<char>>)
    requires
        forall|q: Seq<Seq<char>>| (#[trigger] edge.node.topic_at(q)) is None,
    ensures
        lookup(edges.push(edge), topic, path) == lookup(edges, topic, path),
{
    if path.len() > 0 {
        lemma_find_edge_push(edges, edge, path[0], 0);
        lemma_find_edge(edges, path[0], 0);
        match find_edge(edges, path[0], 0) {
            Some(i) => {
                assert(edges.push(edge)[i] == edges[i]);
            },
            None => {
                if edge.label@ == path[0] {
                    assert(edges.push(edge)[edges.len() as int] == edge);
                    assert(edge.node.topic_at(path.drop_first()) is None);
                }
            },
        }
    }
}

/// Two non-empty paths with the same head and the same tail are the same.
proof fn lemma_same_head_and_tail(a: Seq<Seq<char>>, b: Seq<Seq<char>>)
    requires
        a.len() > 0,
        b.len() > 0,
        a[0] == b[0],
        a.drop_first() == b.drop_first(),
    ensures
        a == b,
{
    assert(a.len() == b.len()) by {
        assert(a.drop_first().len() == a.len() - 1);
        assert(b.drop_first().len() == b.len() - 1);
    }
    assert forall|i: int| 0 <= i < a.len() implies a[i] == b[i] by {
        if i > 0 {
            assert(a[i] == a.drop_first()[i - 1]);
            assert(b[i] == b.drop_first()[i - 1]);
        }
    }
    assert(a =~= b);
}

/// Where the child behind one edge changes its entry for a URI, the node
/// changes its entry for the edge's label followed by that URI, and nothing
/// else.
proof fn lemma_lookup_child_changed(
    before: Seq<Edge>,
    after: Seq<Edge>,
    topic: Option<Topic>,
    at: int,
    target: Seq<Seq<char>>,
    path: Seq<Seq<char>>,
    entry: Option<TopicView>,
)
    requires
        target.len() > 0,
        find_edge(before, target[0], 0) == Some(at),
        0 <= at < before.len(),
        after.len() == before.len(),
        forall|j: int| 0 <= j < before.len() ==> (#[trigger] after[j]).label@ == before[j].label@,
        forall|j: int| 0 <= j < before.len() && j != at ==> (#[trigger] after[j]) == before[j],
        forall|q: Seq<Seq<char>>| #[trigger]
            after[at].node.topic_at(q) == changed_at(
                before[at].node.topic_at(q),
                q,
                target.drop_first(),
                entry,
            ),
    ensures
        lookup(after, topic, path) == changed_at(lookup(before, topic, path), path, target, entry),
{
    if path.len() > 0 {
        lemma_find_edge_same_labels(after, before, path[0], 0);
        lemma_find_edge(before, path[0], 0);
        lemma_find_edge(before, target[0], 0);
        assert(find_edge(after, path[0], 0) == find_edge(before, path[0], 0));
        match find_edge(before, path[0], 0) {
            Some(i) => {
                assert(lookup(after, topic, path) == after[i].node.topic_at(path.drop_first()));
                assert(lookup(before, topic, path) == before[i].node.topic_at(path.drop_first()));
                if i == at {
                    assert(path[0] == target[0]);
                    if path.drop_first() == target.drop_first() {
                        lemma_same_head_and_tail(path, target);
                    } else {
                        assert(path != target);
                    }
                } else {
                    assert(after[i] == before[i]);
                    assert(path[0] != target[0]);
                    assert(path != target);
                }
            },
            None => {
                assert(path[0] != target[0]);
                assert(path != target);
            },
        }
    } else {
        assert(path != target);
    }
}

/// The views of the labels in `path`, in order.
pub open spec fn labels(path: Seq<Vec<char>>) -> Seq<Seq<char>> {
    Seq::new(path.len(), |i: int| path[i]@)
}

/// Cuts `uri` at its dots.
pub fn split(uri: &str) -> (r: Vec<Vec<char>>)
    ensures
        labels(r@) == segments(uri@),
{
    let mut out: Vec<Vec<char>> = Vec::new();
    let mut cur: Vec<char> = Vec::new();
    for c in it: uri.chars()
        invariant
            it.seq() == uri@,
            labels(out@).push(cur@) == segments(uri@.take(it.index() as int)),
    {
        proof {
            let k = it.index() as int;
            assert(uri@.take(k + 1).drop_last() == uri@.take(k));
        }
        let ghost before = labels(out@).push(cur@);
        if c == '.' {
            out.push(cur);
            cur = Vec::new();
            assert(labels(out@).push(cur@) =~= before.push(Seq::<char>::empty()));
        } else {
            cur.push(c);
            assert(labels(out@).push(cur@) =~= before.update(
                before.len() - 1,
                before.last().push(c),
            ));
        }
    }
    proof {
        assert(uri@.take(uri@.len() as int) == uri@);
    }
    let ghost before = labels(out@).push(cur@);
    out.push(cur);
    assert(labels(out@) =~= before);
    out
}

fn same_label(a: &Vec<char>, b: &Vec<char>) -> (r: bool)
    ensures
        r == (a@ == b@),
{
    if a.len() != b.len() {
        return false;
    }
    let mut i: usize = 0;
    while i < a.len()
        invariant
            i <= a.len(),
            a.len() == b.len(),
            forall|j: int| 0 <= j < i ==> a@[j] == b@[j],
        decreases a.len() - i,
    {
        if a[i] != b[i] {
            return false;
        }
        i += 1;
    }
    assert(a@ =~= b@);
    true
}

fn copy_label(label: &Vec<char>) -> (r: Vec<char>)
    ensures
        r@ == label@,
{
    let mut out: Vec<char> = Vec::new();
    let mut k: usize = 0;
    while k < label.len()
        invariant
            k <= label.len(),
            out@ == label@.take(k as int),
        decreases label.len() - k,
    {
        out.push(label[k]);
        assert(label@.take(k + 1) =~= label@.take(k as int).push(label@[k as int]));
        k += 1;
    }
    assert(label@.take(label@.len() as int) =~= label@);
    out
}

impl SubscriptionPatternNode {
    /// A directory without subscriptions.
    pub fn new() -> (r: SubscriptionPatternNode)
        ensures
            r@ == Map::<Seq<Seq<char>>, TopicView>::empty(),
    {
        let r = SubscriptionPatternNode { edges: Vec::new(), topic: None };
        proof {
            assert forall|path: Seq<Seq<char>>| (#[trigger] r.topic_at(path)) is None by {
                lemma_lookup_leaf(path);
                assert(r.edges@ =~= Seq::<Edge>::empty());
            }
            assert(r@ =~= Map::<Seq<Seq<char>>, TopicView>::empty());
        }
        r
    }

    fn edge_position(&self, label: &Vec<char>) -> (r: Option<usize>)
        ensures
            match r {
                Some(i) => find_edge(self.edges@, label@, 0) == Some(i as int) && i
                    < self.edges@.len(),
                None => find_edge(self.edges@, label@, 0) is None,
            },
    {
        let mut i: usize = 0;
        while i < self.edges.len()
            invariant
                i <= self.edges.len(),
                find_edge(self.edges@, label@, 0) == find_edge(self.edges@, label@, i as int),
            decreases self.edges.len() - i,
        {
            if same_label(&self.edges[i].label, label) {
                return Some(i);
            }
            i += 1;
        }
        None
    }
}

impl SubscriptionPatternNode {
    fn add_subscription(
        &mut self,
        path: &Vec<Vec<char>>,
        depth: usize,
        subscriber: u64,
        policy: MatchingPolicy,
        id: u64,
        prefix_id: u64,
    ) -> (r: u64)
        requires
            depth <= path.len(),
        ensures
            forall|p: Seq<Seq<char>>| #[trigger]
                final(self).topic_at(p) == changed_at(
                    old(self).topic_at(p),
                    p,
                    labels(path@).skip(depth as int),
                    subscribed_entry(
                        old(self).topic_at(labels(path@).skip(depth as int)),
                        subscriber,
                        policy,
                        id,
                        prefix_id,
                    ),
                ),
            r == {
                let t = match old(self).topic_at(labels(path@).skip(depth as int)) {
                    Some(t) => t,
                    None => fresh_topic(id, prefix_id),
                };
                if policy == MatchingPolicy::Prefix {
                    t.prefix_id
                } else {
                    t.id
                }
            },
        decreases path.len() - depth,
    {
        let ghost target = labels(path@).skip(depth as int);
        let ghost before = *self;
        if depth == path.len() {
            if self.topic.is_none() {
                self.topic = Some(
                    Topic {
                        id,
                        prefix_id,
                        connections: Vec::new(),
                        prefix_connections: Vec::new(),
                    },
                );
            }
            let mut r: u64 = 0;
            match &mut self.topic {
                Some(t) => {
                    if policy == MatchingPolicy::Prefix {
                        t.prefix_connections.push(subscriber);
                        r = t.prefix_id;
                    } else {
                        t.connections.push((subscriber, policy));
                        r = t.id;
                    }
                },
                None => {},
            }
            proof {
                assert(target.len() == 0);
                let entry = subscribed_entry(
                    before.topic_at(target),
                    subscriber,
                    policy,
                    id,
                    prefix_id,
                );
                assert forall|p: Seq<Seq<char>>| #[trigger]
                    self.topic_at(p) == changed_at(before.topic_at(p), p, target, entry) by {
                    if p.len() == 0 {
                        assert(p =~= target);
                    } else {
                        assert(p != target);
                    }
                }
            }
            r
        } else {
            let label = &path[depth];
            let found = self.edge_position(label);
            let at = match found {
                Some(i) => i,
                None => {
                    let leaf = SubscriptionPatternNode { edges: Vec::new(), topic: None };
                    let edge = Edge { label: copy_label(label), node: leaf };
                    proof {
                        assert forall|q: Seq<Seq<char>>| (#[trigger] edge.node.topic_at(q)) is None by {
                            lemma_lookup_leaf(q);
                            assert(edge.node.edges@ =~= Seq::<Edge>::empty());
                        }
                        assert forall|p: Seq<Seq<char>>|
                            lookup(self.edges@.push(edge), self.topic, p) == #[trigger] lookup(
                                self.edges@,
                                self.topic,
                                p,
                            ) by {
                            lemma_lookup_push(self.edges@, self.topic, edge, p);
                        }
                        lemma_find_edge_push(self.edges@, edge, label@, 0);
                    }
                    self.edges.push(edge);
                    self.edges.len() - 1
                },
            };
            let ghost middle = *self;
            proof {
                assert(target.len() > 0 && target[0] == label@);
                assert(target.drop_first() =~= labels(path@).skip(depth + 1));
                lemma_find_edge(middle.edges@, label@, 0);
                assert(find_edge(middle.edges@, label@, 0) == Some(at as int));
                assert forall|p: Seq<Seq<char>>| #[trigger]
                    middle.topic_at(p) == before.topic_at(p) by {
                    assert(middle.topic_at(p) == lookup(middle.edges@, middle.topic, p));
                    assert(before.topic_at(p) == lookup(before.edges@, before.topic, p));
                }
            }
            let r = self.edges[at].node.add_subscription(
                path,
                depth + 1,
                subscriber,
                policy,
                id,
                prefix_id,
            );
            proof {
                let after = *self;
                let entry = subscribed_entry(
                    before.topic_at(target),
                    subscriber,
                    policy,
                    id,
                    prefix_id,
                );
                assert(middle.topic_at(target) == before.topic_at(target));
                assert(middle.topic_at(target) == middle.edges@[at as int].node.topic_at(
                    target.drop_first(),
                ));
                assert forall|p: Seq<Seq<char>>| #[trigger]
                    after.topic_at(p) == changed_at(before.topic_at(p), p, target, entry) by {
                    lemma_lookup_child_changed(
                        middle.edges@,
                        after.edges@,
                        after.topic,
                        at as int,
                        target,
                        p,
                        entry,
                    );
                    assert(middle.topic_at(p) == before.topic_at(p));
                }
            }
            r
        }
    }

    /// Subscribes `subscriber` to `topic` under `matching_policy` and returns
    /// the id of the subscription.
    ///
    /// Every subscriber of one URI gets the same id: the one that the URI was
    /// given when it was first subscribed, which is `id` for exact and
    /// wildcard subscriptions and `prefix_id` for prefix subscriptions. On a
    /// URI that already has its ids the proposed ones are ignored.
    pub fn subscribe_with(
        &mut self,
        topic: &URI,
        subscriber: u64,
        matching_policy: MatchingPolicy,
        id: u64,
        prefix_id: u64,
    ) -> (r: u64)
        ensures
            final(self)@ == subscribed(
                old(self)@,
                segments(topic@),
                subscriber,
                matching_policy,
                id,
                prefix_id,
            ),
            r == subscription_id(old(self)@, segments(topic@), matching_policy, id, prefix_id),
    {
        let path = split(topic.uri.as_str());
        let ghost before = *self;
        assert(labels(path@).skip(0) =~= labels(path@));
        let r = self.add_subscription(&path, 0, subscriber, matching_policy, id, prefix_id);
        proof {
            assert(self@ =~= subscribed(
                before@,
                segments(topic@),
                subscriber,
                matching_policy,
                id,
                prefix_id,
            ));
        }
        r
    }
}

fn drop_subscriber(cs: &Vec<(u64, MatchingPolicy)>, subscriber: u64) -> (r: (
    Vec<(u64, MatchingPolicy)>,
    bool,
))
    ensures
        r.0@ == without(cs@, subscriber),
        r.1 == subscribes(cs@, subscriber),
{
    let mut out: Vec<(u64, MatchingPolicy)> = Vec::new();
    let mut found = false;
    let mut i: usize = 0;
    while i < cs.len()
        invariant
            i <= cs.len(),
            out@ == without(cs@.take(i as int), subscriber),
            found == subscribes(cs@.take(i as int), subscriber),
        decreases cs.len() - i,
    {
        let ghost seen = cs@.take(i as int);
        let ghost next = cs@.take(i + 1);
        assert(next.drop_last() =~= seen);
        assert(next.last() == cs@[i as int]);
        if cs[i].0 == subscriber {
            found = true;
            assert(next[i as int].0 == subscriber);
        } else {
            out.push(cs[i]);
            proof {
                if subscribes(next, subscriber) {
                    let k = choose|k: int| 0 <= k < next.len() && (#[trigger] next[k]).0 == subscriber;
                    assert(seen[k].0 == subscriber);
                }
                if subscribes(seen, subscriber) {
                    let k = choose|k: int| 0 <= k < seen.len() && (#[trigger] seen[k]).0 == subscriber;
                    assert(next[k].0 == subscriber);
                }
            }
        }
        i += 1;
    }
    assert(cs@.take(cs@.len() as int) =~= cs@);
    (out, found)
}

pub(crate) fn drop_prefix_subscriber(cs: &Vec<u64>, subscriber: u64) -> (r: (Vec<u64>, bool))
    ensures
        r.0@ == prefix_without(cs@, subscriber),
        r.1 == cs@.contains(subscriber),
{
    let mut out: Vec<u64> = Vec::new();
    let mut found = false;
    let mut i: usize = 0;
    while i < cs.len()
        invariant
            i <= cs.len(),
            out@ == prefix_without(cs@.take(i as int), subscriber),
            found == cs@.take(i as int).contains(subscriber),
        decreases cs.len() - i,
    {
        let ghost seen = cs@.take(i as int);
        let ghost next = cs@.take(i + 1);
        assert(next.drop_last() =~= seen);
        assert(next.last() == cs@[i as int]);
        if cs[i] == subscriber {
            found = true;
            assert(next[i as int] == subscriber);
        } else {
            out.push(cs[i]);
            proof {
                if next.contains(subscriber) {
                    let k = choose|k: int| 0 <= k < next.len() && next[k] == subscriber;
                    assert(seen[k] == subscriber);
                }
                if seen.contains(subscriber) {
                    let k = choose|k: int| 0 <= k < seen.len() && seen[k] == subscriber;
                    assert(next[k] == subscriber);
                }
            }
        }
        i += 1;
    }
    assert(cs@.take(cs@.len() as int) =~= cs@);
    (out, found)
}

impl SubscriptionPatternNode {
    fn remove_subscription(
        &mut self,
        path: &Vec<Vec<char>>,
        depth: usize,
        subscriber: u64,
        is_prefix: bool,
    ) -> (r: bool)
        requires
            depth <= path.len(),
        ensures
            r == entry_holds(
                old(self).topic_at(labels(path@).skip(depth as int)),
                subscriber,
                is_prefix,
            ),
            forall|p: Seq<Seq<char>>| #[trigger]
                final(self).topic_at(p) == changed_at(
                    old(self).topic_at(p),
                    p,
                    labels(path@).skip(depth as int),
                    unsubscribed_entry(
                        old(self).topic_at(labels(path@).skip(depth as int)),
                        subscriber,
                        is_prefix,
                    ),
                ),
        decreases path.len() - depth,
    {
        let ghost target = labels(path@).skip(depth as int);
        let ghost before = *self;
        if depth == path.len() {
            assert(target.len() == 0);
            let mut r = false;
            match &mut self.topic {
                Some(t) => {
                    if is_prefix {
                        let (rest, found) = drop_prefix_subscriber(&t.prefix_connections, subscriber);
                        if found {
                            t.prefix_connections = rest;
                            r = true;
                        }
                    } else {
                        let (rest, found) = drop_subscriber(&t.connections, subscriber);
                        if found {
                            t.connections = rest;
                            r = true;
                        }
                    }
                },
                None => {},
            }
            proof {
                let entry = unsubscribed_entry(before.topic_at(target), subscriber, is_prefix);
                assert forall|p: Seq<Seq<char>>| #[trigger]
                    self.topic_at(p) == changed_at(before.topic_at(p), p, target, entry) by {
                    if p.len() == 0 {
                        assert(p =~= target);
                    } else {
                        assert(p != target);
                    }
                }
            }
            r
        } else {
            let label = &path[depth];
            proof {
                assert(target.len() > 0 && target[0] == label@);
                assert(target.drop_first() =~= labels(path@).skip(depth + 1));
                lemma_find_edge(before.edges@, label@, 0);
            }
            match self.edge_position(label) {
                None => false,
                Some(at) => {
                    let r = self.edges[at].node.remove_subscription(
                        path,
                        depth + 1,
                        subscriber,
                        is_prefix,
                    );
                    proof {
                        let after = *self;
                        let entry = unsubscribed_entry(
                            before.topic_at(target),
                            subscriber,
                            is_prefix,
                        );
                        assert(before.topic_at(target) == before.edges@[at as int].node.topic_at(
                            target.drop_first(),
                        ));
                        assert forall|p: Seq<Seq<char>>| #[trigger]
                            after.topic_at(p) == changed_at(before.topic_at(p), p, target, entry) by {
                            lemma_lookup_child_changed(
                                before.edges@,
                                after.edges@,
                                after.topic,
                                at as int,
                                target,
                                p,
                                entry,
                            );
                        }
                    }
                    r
                },
            }
        }
    }

    /// Takes every subscription of `subscriber` to the URI `topic` out of
    /// the directory: the prefix subscriptions if `is_prefix`, else the exact
    /// and wildcard ones. Where there is none the directory stays as it was.
    pub fn unsubscribe_with(&mut self, topic: &str, subscriber: &u64, is_prefix: bool) -> (r:
        Result<(), PatternError>)
        ensures
            r is Ok <==> has_subscription(old(self)@, segments(topic@), *subscriber, is_prefix),
            r is Ok ==> final(self)@ == unsubscribed(
                old(self)@,
                segments(topic@),
                *subscriber,
                is_prefix,
            ),
            r is Err ==> final(self)@ == old(self)@,
            r is Err ==> r == Err::<(), PatternError>(PatternError::NoSuchSubscription),
    {
        let path = split(topic);
        let ghost before = *self;
        assert(labels(path@).skip(0) =~= labels(path@));
        let found = self.remove_subscription(&path, 0, *subscriber, is_prefix);
        if found {
            proof {
                assert(self@ =~= unsubscribed(before@, segments(topic@), *subscriber, is_prefix));
            }
            Ok(())
        } else {
            proof {
                assert(self@ =~= before@);
            }
            Err(PatternError::NoSuchSubscription)
        }
    }
}

fn push_prefix_hits(cs: &Vec<u64>, prefix_id: u64, out: &mut Vec<(u64, u64, MatchingPolicy)>)
    ensures
        final(out)@ == old(out)@ + prefix_hits(cs@, prefix_id),
{
    let ghost start = out@;
    let mut i: usize = 0;
    while i < cs.len()
        invariant
            i <= cs.len(),
            out@ == start + prefix_hits(cs@.take(i as int), prefix_id),
        decreases cs.len() - i,
    {
        out.push((cs[i], prefix_id, MatchingPolicy::Prefix));
        assert(out@ =~= start + prefix_hits(cs@.take(i + 1), prefix_id));
        i += 1;
    }
    assert(cs@.take(cs@.len() as int) =~= cs@);
}

fn push_exact_hits(
    cs: &Vec<(u64, MatchingPolicy)>,
    id: u64,
    exact: bool,
    out: &mut Vec<(u64, u64, MatchingPolicy)>,
)
    ensures
        final(out)@ == old(out)@ + exact_hits(cs@, id, exact),
{
    let ghost start = out@;
    let mut i: usize = 0;
    assert(out@ =~= start + exact_hits(cs@.take(0), id, exact));
    while i < cs.len()
        invariant
            i <= cs.len(),
            out@ == start + exact_hits(cs@.take(i as int), id, exact),
        decreases cs.len() - i,
    {
        let ghost seen = cs@.take(i as int);
        let ghost next = cs@.take(i + 1);
        assert(next.drop_last() =~= seen);
        assert(next.last() == cs@[i as int]);
        let (c, policy) = cs[i];
        if exact || policy == MatchingPolicy::Wildcard {
            out.push((c, id, policy));
            assert(out@ =~= start + exact_hits(next, id, exact));
        }
        i += 1;
    }
    assert(cs@.take(cs@.len() as int) =~= cs@);
}

/// The deliveries from a node's own entry.
spec fn here(topic: Option<Topic>, exact: bool, at_end: bool) -> Seq<(u64, u64, MatchingPolicy)> {
    match topic {
        Some(t) => found(t@, exact, at_end),
        None => Seq::empty(),
    }
}

/// The deliveries from the subtree behind the edge labelled `label`.
spec fn through(edges: Seq<Edge>, label: Seq<char>, rest: Seq<Seq<char>>, exact: bool) -> Seq<
    (u64, u64, MatchingPolicy),
>
    decreases rest.len(), 2nat,
{
    match find_edge(edges, label, 0) {
        Some(i) => edges[i].node.hits(rest, exact),
        None => Seq::empty(),
    }
}

impl SubscriptionPatternNode {
    /// The deliveries of a publication from this subtree, where `rest` holds
    /// the components of the topic that are still to be walked.
    spec fn hits(self, rest: Seq<Seq<char>>, exact: bool) -> Seq<(u64, u64, MatchingPolicy)>
        decreases rest.len(), 1nat,
    {
        if rest.len() == 0 {
            here(self.topic, exact, true)
        } else {
            here(self.topic, exact, false) + through(
                self.edges@,
                rest[0],
                rest.drop_first(),
                exact,
            ) + (if rest[0].len() > 0 {
                through(self.edges@, Seq::empty(), rest.drop_first(), false)
            } else {
                Seq::empty()
            })
        }
    }

    fn collect(
        &self,
        path: &Vec<Vec<char>>,
        depth: usize,
        exact: bool,
        out: &mut Vec<(u64, u64, MatchingPolicy)>,
    )
        requires
            depth <= path.len(),
        ensures
            final(out)@ == old(out)@ + self.hits(labels(path@).skip(depth as int), exact),
        decreases path.len() - depth,
    {
        let ghost start = out@;
        let ghost rest = labels(path@).skip(depth as int);
        let at_end = depth == path.len();
        match &self.topic {
            Some(t) => {
                if exact {
                    push_prefix_hits(&t.prefix_connections, t.prefix_id, out);
                }
                if at_end {
                    push_exact_hits(&t.connections, t.id, exact, out);
                }
            },
            None => {},
        }
        assert(out@ =~= start + here(self.topic, exact, at_end));
        if !at_end {
            let label = &path[depth];
            proof {
                assert(rest.len() > 0 && rest[0] == label@);
                assert(rest.drop_first() =~= labels(path@).skip(depth + 1));
            }
            let ghost first = out@;
            match self.edge_position(label) {
                Some(i) => {
                    self.edges[i].node.collect(path, depth + 1, exact, out);
                },
                None => {},
            }
            assert(out@ =~= first + through(self.edges@, rest[0], rest.drop_first(), exact));
            let ghost second = out@;
            if label.len() > 0 {
                let any: Vec<char> = Vec::new();
                assert(any@ =~= Seq::<char>::empty());
                match self.edge_position(&any) {
                    Some(j) => {
                        self.edges[j].node.collect(path, depth + 1, false, out);
                    },
                    None => {},
                }
                assert(out@ =~= second + through(
                    self.edges@,
                    Seq::empty(),
                    rest.drop_first(),
                    false,
                ));
            }
            assert(out@ =~= start + self.hits(rest, exact));
        }
    }
}

/// Whether `node` knows of each URI what `dir` knows of `at` followed by it.
spec fn subtree_of(node: SubscriptionPatternNode, dir: DirectoryView, at: Seq<Seq<char>>) -> bool {
    forall|q: Seq<Seq<char>>| #[trigger]
        node.topic_at(q) == (if dir.dom().contains(at + q) {
            Some(dir[at + q])
        } else {
            None
        })
}

/// Where the directory knows no URI that begins with `at`, a publication
/// finds nothing there.
proof fn lemma_nothing_below(
    dir: DirectoryView,
    at: Seq<Seq<char>>,
    exact: bool,
    topic: Seq<Seq<char>>,
)
    requires
        forall|q: Seq<Seq<char>>| !dir.dom().contains(#[trigger] (at + q)),
    ensures
        reached_below(dir, at, exact, topic) == Seq::<(u64, u64, MatchingPolicy)>::empty(),
    decreases topic.len() - at.len(),
{
    if at.len() <= topic.len() {
        assert(at + Seq::<Seq<char>>::empty() =~= at);
        assert(!dir.dom().contains(at));
        if at.len() < topic.len() {
            let s = topic[at.len() as int];
            let e = Seq::<char>::empty();
            assert forall|q: Seq<Seq<char>>| !dir.dom().contains(#[trigger] (at.push(s) + q)) by {
                assert(at.push(s) + q =~= at + (seq![s] + q));
            }
            assert forall|q: Seq<Seq<char>>| !dir.dom().contains(#[trigger] (at.push(e) + q)) by {
                assert(at.push(e) + q =~= at + (seq![e] + q));
            }
            lemma_nothing_below(dir, at.push(s), exact, topic);
            lemma_nothing_below(dir, at.push(e), false, topic);
        }
    }
}

/// What the walk collects behind one edge is what the directory's view
/// gives for the URIs that go on with the edge's label.
proof fn lemma_through(
    node: SubscriptionPatternNode,
    dir: DirectoryView,
    at: Seq<Seq<char>>,
    label: Seq<char>,
    exact: bool,
    topic: Seq<Seq<char>>,
)
    requires
        at.len() < topic.len(),
        subtree_of(node, dir, at),
    ensures
        through(node.edges@, label, topic.skip(at.len() as int + 1), exact) == reached_below(
            dir,
            at.push(label),
            exact,
            topic,
        ),
    decreases topic.len() - at.len(), 0nat,
{
    let next = at.push(label);
    match find_edge(node.edges@, label, 0) {
        Some(i) => {
            let child = node.edges@[i].node;
            assert forall|q: Seq<Seq<char>>| #[trigger]
                child.topic_at(q) == (if dir.dom().contains(next + q) {
                    Some(dir[next + q])
                } else {
                    None
                }) by {
                let p = seq![label] + q;
                assert(p[0] == label);
                assert(p.drop_first() =~= q);
                assert(node.topic_at(p) == child.topic_at(q));
                assert(next + q =~= at + p);
            }
            lemma_hits(child, dir, next, exact, topic);
        },
        None => {
            assert forall|q: Seq<Seq<char>>| !dir.dom().contains(#[trigger] (next + q)) by {
                let p = seq![label] + q;
                assert(p[0] == label);
                assert(node.topic_at(p) is None);
                assert(next + q =~= at + p);
            }
            lemma_nothing_below(dir, next, exact, topic);
        },
    }
}

/// What the walk collects from a subtree is what the directory's view gives
/// for the URIs that begin where the subtree stands.
proof fn lemma_hits(
    node: SubscriptionPatternNode,
    dir: DirectoryView,
    at: Seq<Seq<char>>,
    exact: bool,
    topic: Seq<Seq<char>>,
)
    requires
        at.len() <= topic.len(),
        subtree_of(node, dir, at),
    ensures
        node.hits(topic.skip(at.len() as int), exact) == reached_below(dir, at, exact, topic),
    decreases topic.len() - at.len(), 1nat,
{
    let rest = topic.skip(at.len() as int);
    let none = Seq::<Seq<char>>::empty();
    assert(at + none =~= at);
    assert(node.topic_at(none) == lookup(node.edges@, node.topic, none));
    assert(forall|end: bool| here(node.topic, exact, end) == found_at(dir, at, exact, end));
    if at.len() < topic.len() {
        let s = topic[at.len() as int];
        assert(rest[0] == s);
        assert(rest.drop_first() =~= topic.skip(at.len() as int + 1));
        lemma_through(node, dir, at, s, exact, topic);
        if s.len() > 0 {
            lemma_through(node, dir, at, Seq::empty(), false, topic);
        }
    }
}

impl SubscriptionPatternNode {
    /// The subscribers that a publication to `topic` reaches, each as its
    /// connection id, the id of its subscription and its policy. Every URI
    /// that fits the topic is visited once, so a subscription gives one
    /// delivery.
    pub fn filter(&self, topic: URI) -> (r: Vec<(u64, u64, MatchingPolicy)>)
        ensures
            r@ == reached(self@, segments(topic@)),
    {
        let path = split(topic.uri.as_str());
        let mut out: Vec<(u64, u64, MatchingPolicy)> = Vec::new();
        self.collect(&path, 0, true, &mut out);
        proof {
            let none = Seq::<Seq<char>>::empty();
            assert forall|q: Seq<Seq<char>>| #[trigger]
                self.topic_at(q) == (if self@.dom().contains(none + q) {
                    Some(self@[none + q])
                } else {
                    None
                }) by {
                assert(none + q =~= q);
            }
            lemma_hits(*self, self@, none, true, segments(topic@));
            assert(labels(path@).skip(0) =~= labels(path@));
            assert(segments(topic@).skip(0) =~= segments(topic@));
        }
        out
    }
}

impl SubscriptionPatternNode {
    fn ids_at(&self, path: &Vec<Vec<char>>, depth: usize) -> (r: Option<(u64, u64)>)
        requires
            depth <= path.len(),
        ensures
            r == match self.topic_at(labels(path@).skip(depth as int)) {
                Some(t) => Some((t.id, t.prefix_id)),
                None => None,
            },
        decreases path.len() - depth,
    {
        let ghost rest = labels(path@).skip(depth as int);
        if depth == path.len() {
            assert(rest.len() == 0);
            match &self.topic {
                Some(t) => Some((t.id, t.prefix_id)),
                None => None,
            }
        } else {
            let label = &path[depth];
            proof {
                assert(rest.len() > 0 && rest[0] == label@);
                assert(rest.drop_first() =~= labels(path@).skip(depth + 1));
            }
            match self.edge_position(label) {
                Some(i) => self.edges[i].node.ids_at(path, depth + 1),
                None => None,
            }
        }
    }

    /// The two ids of the URI `topic`, if it was ever subscribed: first the
    /// one that its exact and wildcard subscribers share, then the one that
    /// its prefix subscribers share.
    pub fn topic_ids(&self, topic: &str) -> (r: Option<(u64, u64)>)
        ensures
            r == (if self@.dom().contains(segments(topic@)) {
                Some((self@[segments(topic@)].id, self@[segments(topic@)].prefix_id))
            } else {
                None
            }),
    {
        let path = split(topic);
        assert(labels(path@).skip(0) =~= labels(path@));
        self.ids_at(&path, 0)
    }
}

/// The components `parts` written one after the other with a dot between
/// each two.
pub open spec fn dotted(parts: Seq<Seq<char>>) -> Seq<char>
    decreases parts.len(),
{
    if parts.len() == 0 {
        Seq::empty()
    } else if parts.len() == 1 {
        parts[0]
    } else {
        dotted(parts.drop_last()).push('.') + parts.last()
    }
}

/// The components of a URI are what stands between its dots: there is at
/// least one component, no component holds a dot, and the components
/// written with dots between them are the URI.
pub proof fn lemma_segments(uri: Seq<char>)
    ensures
        segments(uri).len() >= 1,
        forall|i: int, j: int|
            0 <= i < segments(uri).len() && 0 <= j < segments(uri)[i].len() ==> segments(
                uri,
            )[i][j] != '.',
        dotted(segments(uri)) == uri,
    decreases uri.len(),
{
    if uri.len() == 0 {
        assert(dotted(segments(uri)) =~= uri);
    } else {
        let init = segments(uri.drop_last());
        lemma_segments(uri.drop_last());
        let all = segments(uri);
        if uri.last() == '.' {
            assert(all.drop_last() =~= init);
            assert(dotted(all) =~= dotted(init).push('.'));
            assert(dotted(all) =~= uri);
        } else {
            let n = init.len() - 1;
            assert(all.len() == init.len());
            if init.len() == 1 {
                assert(dotted(all) =~= init[0].push(uri.last()));
                assert(dotted(all) =~= uri);
            } else {
                assert(all.drop_last() =~= init.drop_last());
                assert(dotted(all) =~= (dotted(init.drop_last()).push('.') + init.last()).push(
                    uri.last(),
                ));
                assert(dotted(all) =~= uri);
            }
            assert forall|i: int, j: int|
                0 <= i < all.len() && 0 <= j < all[i].len() implies all[i][j] != '.' by {
                if i < n {
                    assert(all[i] == init[i]);
                } else if j < init[n].len() {
                    assert(all[i][j] == init[n][j]);
                }
            }
        }
    }
}

} // verus!
