use autobahnkreuz::messages::{
    ClientRoles, HelloDetails, Message, PublishOptions, SubscribeOptions, Value,
};
use autobahnkreuz::router::{
    Action, ConnectionHandler, ConnectionState, Dispatch, Effect, Encoding, RouterChange,
    RouterCore, RouterInfo, RouterProperty,
};
use autobahnkreuz::{MatchingPolicy, URI};

/// One node: its replica, its own side of the router, and what it wrote to
/// the sockets that it holds.
struct Node {
    core: RouterCore,
    router: RouterInfo,
    written: Vec<(u64, Encoding, Message)>,
    closed: Vec<u64>,
}

impl Node {
    fn new() -> Node {
        let mut router = RouterInfo::new();
        router.init();
        Node { core: RouterCore::new(), router, written: vec![], closed: vec![] }
    }

    fn perform(&mut self, effect: Effect) {
        match effect {
            Effect::Deliver { connection_id, encoding, message } => {
                self.written.push((connection_id, encoding, message))
            }
            Effect::Shutdown { connection_id } => self.closed.push(connection_id),
        }
    }

    fn received(&self, connection_id: u64) -> Vec<Message> {
        self.written
            .iter()
            .filter(|(to, _, _)| *to == connection_id)
            .map(|(_, _, m)| m.clone())
            .collect()
    }
}

/// A cluster that commits every proposal at once and applies it on every
/// node in the same order.
struct Cluster {
    nodes: Vec<Node>,
    log: Vec<RouterChange>,
}

impl Cluster {
    fn propose(&mut self, change: RouterChange) {
        self.log.push(change.clone());
        for node in self.nodes.iter_mut() {
            let effect = node.core.apply(node.router.senders(), change.clone());
            if let Some(effect) = effect {
                node.perform(effect);
            }
        }
    }

    fn run(&mut self, at: usize, session: &mut ConnectionHandler, actions: Vec<Action>) {
        for action in actions {
            match action {
                Action::Propose(change) => {
                    let subscribed = match &change {
                        RouterChange::AddSubscription { topic, matching_policy, .. } => {
                            Some((topic.clone(), *matching_policy))
                        }
                        _ => None,
                    };
                    self.propose(change);
                    if let Some((topic, policy)) = subscribed {
                        let directory = self.nodes[at].core.subscriptions();
                        session.subscription_committed(directory, &topic, policy);
                    }
                }
                Action::Send { connection_id, message } => {
                    let dispatch = {
                        let node = &self.nodes[at];
                        let answer =
                            node.core.retrieve(RouterProperty::Connection { connection_id });
                        let record = node.router.connection(answer).unwrap();
                        node.router.send_message(record, message).unwrap()
                    };
                    match dispatch {
                        Dispatch::Direct(effect) => self.nodes[at].perform(effect),
                        Dispatch::Forward(change) => self.propose(change),
                    }
                }
                Action::Close => {}
                Action::AcceptProtocol(_) => {}
            }
        }
    }

    fn state(&self, at: usize, connection_id: u64) -> Option<ConnectionState> {
        self.nodes[at].core.connection(connection_id).map(|c| c.state)
    }

    fn accept(&mut self, at: usize, connection_id: u64, protocol: &str) -> ConnectionHandler {
        let change = self.nodes[at].router.add_connection(connection_id).unwrap();
        self.propose(change);
        let mut handler = ConnectionHandler::new(connection_id);
        let steps = handler
            .process_protocol(&self.nodes[at].router, &vec![protocol.to_string()])
            .unwrap();
        self.run(at, &mut handler, steps);
        handler
    }

    fn receive(&mut self, at: usize, handler: &mut ConnectionHandler, message: Message) {
        let steps = {
            let node = &self.nodes[at];
            let state = node.core.connection(handler.info_id()).map(|c| c.state);
            handler
                .handle_message(&node.router, state, node.core.subscriptions(), message)
                .unwrap()
        };
        self.run(at, handler, steps);
    }
}

fn hello() -> Message {
    Message::Hello(URI::new("default"), HelloDetails::new(ClientRoles::new()))
}

#[test]
fn event_crosses_from_one_node_to_the_other() {
    let (a, b) = (0, 1);
    let (x, y) = (11, 22);
    let mut cluster = Cluster { nodes: vec![Node::new(), Node::new()], log: vec![] };

    let mut session_x = cluster.accept(a, x, "wamp.2.json");
    let mut session_y = cluster.accept(b, y, "wamp.2.msgpack");
    cluster.receive(a, &mut session_x, hello());
    cluster.receive(b, &mut session_y, hello());
    assert_eq!(cluster.state(a, x), Some(ConnectionState::Connected));
    assert_eq!(cluster.state(b, x), Some(ConnectionState::Connected));
    assert_eq!(cluster.state(a, y), Some(ConnectionState::Connected));

    cluster.receive(
        a,
        &mut session_x,
        Message::Subscribe(1, SubscribeOptions { pattern_match: MatchingPolicy::Strict }, URI::new("x.y")),
    );
    let to_x = cluster.nodes[a].received(x);
    let subscription = match to_x.as_slice() {
        [Message::Welcome(id, _), Message::Subscribed(1, subscription)] => {
            assert_eq!(*id, x);
            *subscription
        }
        other => panic!("unexpected messages {:?}", other),
    };
    assert_eq!(session_x.subscribed_topics(), &vec![subscription]);
    // Both replicas know the subscription under the same id.
    assert_eq!(cluster.nodes[a].core.subscriptions().topic_ids("x.y").unwrap().0, subscription);
    assert_eq!(cluster.nodes[b].core.subscriptions().topic_ids("x.y").unwrap().0, subscription);

    let args = Some(vec![Value::UnsignedInteger(42)]);
    cluster.receive(
        b,
        &mut session_y,
        Message::Publish(2, PublishOptions::new(true), URI::new("x.y"), args.clone(), None),
    );

    let to_x = cluster.nodes[a].received(x);
    assert_eq!(to_x.len(), 3);
    let publication = match &to_x[2] {
        Message::Event(id, publication, details, event_args, kwargs) => {
            assert_eq!(*id, subscription);
            assert_eq!(details.topic, None);
            assert_eq!(*event_args, args);
            assert_eq!(*kwargs, None);
            *publication
        }
        other => panic!("unexpected message {:?}", other),
    };
    // X got its messages in its own encoding, from the node that holds it.
    assert!(cluster.nodes[a].written.iter().all(|(to, e, _)| *to == x && *e == Encoding::Json));
    assert!(cluster.nodes[b].received(x).is_empty());

    let to_y = cluster.nodes[b].received(y);
    match to_y.as_slice() {
        [Message::Welcome(id, _), Message::Published(2, id_of_publication)] => {
            assert_eq!(*id, y);
            assert_eq!(*id_of_publication, publication);
        }
        other => panic!("unexpected messages {:?}", other),
    }
    assert!(cluster.nodes[b].written.iter().all(|(to, e, _)| *to == y && *e == Encoding::MsgPack));

    // A node that joins later and applies the same log holds the same state.
    let mut late = RouterCore::new();
    let none = std::collections::HashSet::new();
    assert!(late.apply_all(&none, cluster.log.clone()).is_empty());
    assert_eq!(
        format!("{:?}", late.subscriptions()),
        format!("{:?}", cluster.nodes[a].core.subscriptions())
    );
    assert_eq!(late.connection(x), cluster.nodes[b].core.connection(x));
    assert_eq!(late.connection(y), cluster.nodes[a].core.connection(y));
}

#[test]
fn subscriber_on_the_publishers_node_is_served_directly() {
    let (x, y) = (11, 22);
    let mut cluster = Cluster { nodes: vec![Node::new(), Node::new()], log: vec![] };
    let mut session_x = cluster.accept(0, x, "wamp.2.json");
    let mut session_y = cluster.accept(0, y, "wamp.2.json");
    cluster.receive(0, &mut session_x, hello());
    cluster.receive(0, &mut session_y, hello());
    cluster.receive(
        0,
        &mut session_x,
        Message::Subscribe(1, SubscribeOptions { pattern_match: MatchingPolicy::Prefix }, URI::new("x")),
    );
    let before = cluster.log.len();
    cluster.receive(
        0,
        &mut session_y,
        Message::Publish(2, PublishOptions::new(false), URI::new("x.y"), None, None),
    );
    // Nothing went through the log: the node wrote the event itself.
    assert_eq!(cluster.log.len(), before);
    let to_x = cluster.nodes[0].received(x);
    match to_x.last() {
        Some(Message::Event(_, _, details, None, None)) => {
            assert_eq!(details.topic, Some(URI::new("x.y")))
        }
        other => panic!("unexpected message {:?}", other),
    }
    assert_eq!(cluster.nodes[0].received(y).len(), 1);
}

#[test]
fn session_that_leaves_is_no_longer_reached() {
    let (x, y) = (11, 22);
    let mut cluster = Cluster { nodes: vec![Node::new(), Node::new()], log: vec![] };
    let mut session_x = cluster.accept(0, x, "wamp.2.json");
    let mut session_y = cluster.accept(1, y, "wamp.2.json");
    cluster.receive(0, &mut session_x, hello());
    cluster.receive(1, &mut session_y, hello());
    cluster.receive(0, &mut session_x, Message::Subscribe(1, SubscribeOptions::new(), URI::new("t")));
    let subscription = cluster.nodes[1].core.subscriptions().topic_ids("t").unwrap().0;
    assert_eq!(session_x.subscribed_topics(), &vec![subscription]);
    cluster.receive(
        0,
        &mut session_x,
        Message::Goodbye(
            autobahnkreuz::messages::ErrorDetails::new(),
            autobahnkreuz::messages::Reason::CloseRealm,
        ),
    );
    assert_eq!(cluster.state(1, x), Some(ConnectionState::Disconnected));
    let steps = {
        let node = &mut cluster.nodes[0];
        let state = node.core.connection(x).map(|c| c.state);
        session_x.on_close(&mut node.router, state).unwrap()
    };
    cluster.run(0, &mut session_x, steps);
    assert_eq!(cluster.state(0, x), None);
    assert_eq!(cluster.state(1, x), None);
    let received = cluster.nodes[0].received(x).len();
    cluster.receive(
        1,
        &mut session_y,
        Message::Publish(2, PublishOptions::new(false), URI::new("t"), None, None),
    );
    assert_eq!(cluster.nodes[0].received(x).len(), received);
}
