//! The handshake of a session, and its end.

use crate::error::{Error, ErrorKind};
use crate::messages::{
    same_string, ErrorDetails, ErrorDetailsView, HelloDetails, Message, MessageView, Reason, RouterRoles,
    RouterRolesView, WelcomeDetails, WelcomeDetailsView, URI,
};
use crate::router::{
    actions_view, unsubscriptions, Action, ActionView, ConnectionHandler,
    ConnectionState, RouterChangeView, RouterInfo, WAMP_JSON, WAMP_MSGPACK,
};
use vstd::prelude::*;

verus! {

/// The name of the one realm that the router serves.
pub const REALM: &'static str = "default";

/// The roles that the router announces in `WELCOME`: a dealer and a
/// broker that match by pattern.
pub open spec fn announced_roles() -> RouterRolesView {
    RouterRolesView { dealer: Some(true), broker: Some(true) }
}

/// The steps that answer a `HELLO` for the router's realm: the session
/// becomes connected and is welcomed under its connection id.
pub open spec fn welcome_steps(id: u64) -> Seq<ActionView> {
    seq![
        ActionView::Propose(
            RouterChangeView::SetState { connection_id: id, state: ConnectionState::Connected },
        ),
        ActionView::Send {
            connection_id: id,
            message: MessageView::Welcome(
                id,
                WelcomeDetailsView { agent: None, roles: announced_roles() },
            ),
        },
    ]
}

/// The step that records the end of a session, followed by the closing of
/// its socket.
pub open spec fn closing_steps(id: u64) -> Seq<ActionView> {
    seq![
        ActionView::Propose(
            RouterChangeView::SetState { connection_id: id, state: ConnectionState::Disconnected },
        ),
        ActionView::Close,
    ]
}

/// The steps that answer a `GOODBYE` in the given state of the session.
///
/// A connected session gives up its subscriptions, is told goodbye in
/// return and is closed. A session that the router is shutting down has
/// been told goodbye already and is closed. A session that is disconnected,
/// or that the router has no record of, is left alone.
pub open spec fn goodbye_steps(
    id: u64,
    subscribed: Seq<u64>,
    state: Option<ConnectionState>,
) -> Seq<ActionView> {
    match state {
        Some(ConnectionState::Connected) => unsubscriptions(id, subscribed).push(
            ActionView::Send {
                connection_id: id,
                message: MessageView::Goodbye(
                    ErrorDetailsView { message: None },
                    Reason::GoodbyeAndOut@,
                ),
            },
        ) + closing_steps(id),
        Some(ConnectionState::ShuttingDown) => closing_steps(id),
        _ => Seq::empty(),
    }
}

/// Whether the router speaks the sub-protocol `protocol`.
pub open spec fn supported(protocol: Seq<char>) -> bool {
    protocol == WAMP_JSON@ || protocol == WAMP_MSGPACK@
}

/// The place of the first sub-protocol from `from` on that the router
/// speaks.
pub open spec fn first_supported(protocols: Seq<String>, from: int) -> Option<int>
    decreases protocols.len() - from,
{
    if from < 0 || from >= protocols.len() {
        None
    } else if supported(protocols[from]@) {
        Some(from)
    } else {
        first_supported(protocols, from + 1)
    }
}

impl ConnectionHandler {
    /// Answers `HELLO(realm, details)`.
    ///
    /// Only the realm [`REALM`] is served: any other is refused with
    /// `NoSuchRealm`, whatever the state of the session. A `HELLO` is in
    /// place only while the session is initializing; `state` is the state
    /// that the registry records, if it has a record.
    pub fn handle_hello(
        &self,
        router: &RouterInfo,
        state: Option<ConnectionState>,
        realm: URI,
        _details: HelloDetails,
    ) -> (r: Result<Vec<Action>, Error>)
        ensures
            r is Ok <==> realm@ == REALM@ && state == Some(ConnectionState::Initializing)
                && router.initialized(),
            r matches Ok(actions) ==> actions_view(actions@) == welcome_steps(self.id()),
            r matches Err(e) ==> if realm@ != REALM@ {
                e.kind == ErrorKind::HandshakeError(Reason::NoSuchRealm)
            } else if state is None {
                e.kind is ConnectionLost
            } else {
                e.kind is InvalidState
            },
    {
        self.set_realm(realm.uri)?;
        match state {
            None => {
                return Err(Error::new(ErrorKind::ConnectionLost));
            },
            Some(ConnectionState::Initializing) => {},
            Some(_) => {
                return Err(
                    Error::new(ErrorKind::InvalidState("Received a hello message after handshake")),
                );
            },
        }
        let id = self.info_id();
        let change = router.set_state(id, ConnectionState::Connected)?;
        let mut actions: Vec<Action> = Vec::new();
        actions.push(Action::Propose(change));
        let roles = RouterRoles::new();
        assert(roles@ == announced_roles());
        actions.push(self.send_message(Message::Welcome(id, WelcomeDetails::new(roles))));
        assert(actions_view(actions@) =~= welcome_steps(self.id()));
        Ok(actions)
    }

    /// Answers `GOODBYE(details, reason)` in the state that the registry
    /// records for the session, if it has a record.
    ///
    /// Before the handshake is complete a `GOODBYE` is an error and nothing
    /// is done.
    pub fn handle_goodbye(
        &self,
        router: &RouterInfo,
        state: Option<ConnectionState>,
        _details: ErrorDetails,
        _reason: Reason,
    ) -> (r: Result<Vec<Action>, Error>)
        ensures
            r is Ok <==> state != Some(ConnectionState::Initializing) && (router.initialized()
                || state is None || state == Some(ConnectionState::Disconnected)),
            r matches Ok(actions) ==> actions_view(actions@) == goodbye_steps(
                self.id(),
                self.subscribed(),
                state,
            ),
            r matches Err(e) ==> e.kind is InvalidState,
    {
        let id = self.info_id();
        let mut actions: Vec<Action> = Vec::new();
        assert(actions_view(actions@) =~= Seq::empty());
        match state {
            Some(ConnectionState::Initializing) => {
                return Err(
                    Error::new(
                        ErrorKind::InvalidState(
                            "Received a goodbye message before handshake complete",
                        ),
                    ),
                );
            },
            Some(ConnectionState::Connected) => {
                if !router.is_initialized() {
                    return Err(Error::new(ErrorKind::InvalidState("router is not initialized")));
                }
                self.unsubscribe_all(router, &mut actions)?;
                actions.push(
                    self.send_message(
                        Message::Goodbye(ErrorDetails::new(), Reason::GoodbyeAndOut),
                    ),
                );
                let change = router.set_state(id, ConnectionState::Disconnected)?;
                actions.push(Action::Propose(change));
                actions.push(Action::Close);
                assert(actions_view(actions@) =~= goodbye_steps(
                    self.id(),
                    self.subscribed(),
                    state,
                ));
            },
            Some(ConnectionState::ShuttingDown) => {
                let change = router.set_state(id, ConnectionState::Disconnected)?;
                actions.push(Action::Propose(change));
                actions.push(Action::Close);
                assert(actions_view(actions@) =~= closing_steps(self.id()));
            },
            Some(ConnectionState::Disconnected) => {},
            None => {},
        }
        Ok(actions)
    }

    /// Accepts the realm [`REALM`] and refuses every other.
    pub fn set_realm(&self, realm: String) -> (r: Result<(), Error>)
        ensures
            r is Ok <==> realm@ == REALM@,
            r matches Err(e) ==> e.kind == ErrorKind::HandshakeError(Reason::NoSuchRealm),
    {
        if same_string(realm.as_str(), REALM) {
            Ok(())
        } else {
            Err(Error::new(ErrorKind::HandshakeError(Reason::NoSuchRealm)))
        }
    }

    /// Picks the sub-protocol of the session from those that the client
    /// offers at the transport handshake: the first one that the router
    /// speaks. The handshake is answered with it and it is recorded for the
    /// connection. Where the client offers none that the router speaks the
    /// handshake fails.
    pub fn process_protocol(&self, router: &RouterInfo, protocols: &Vec<String>) -> (r: Result<
        Vec<Action>,
        Error,
    >)
        ensures
            r is Ok <==> first_supported(protocols@, 0) is Some && router.initialized(),
            r matches Ok(actions) ==> {
                let chosen = protocols@[first_supported(protocols@, 0)->0]@;
                actions_view(actions@) == seq![
                    ActionView::AcceptProtocol(chosen),
                    ActionView::Propose(
                        RouterChangeView::SetProtocol {
                            connection_id: self.id(),
                            protocol: chosen,
                        },
                    ),
                ]
            },
            r matches Err(e) ==> if first_supported(protocols@, 0) is Some {
                e.kind is InvalidState
            } else {
                e.kind is UnexpectedMessage
            },
    {
        let mut i: usize = 0;
        while i < protocols.len()
            invariant
                i <= protocols.len(),
                first_supported(protocols@, 0) == first_supported(protocols@, i as int),
            decreases protocols.len() - i,
        {
            let protocol = protocols[i].as_str();
            if same_string(protocol, WAMP_JSON) || same_string(protocol, WAMP_MSGPACK) {
                let change = router.set_protocol(self.info_id(), protocols[i].clone())?;
                let mut actions: Vec<Action> = Vec::new();
                actions.push(Action::AcceptProtocol(protocols[i].clone()));
                actions.push(Action::Propose(change));
                assert(actions_view(actions@) =~= seq![
                    ActionView::AcceptProtocol(protocols@[i as int]@),
                    ActionView::Propose(
                        RouterChangeView::SetProtocol {
                            connection_id: self.id(),
                            protocol: protocols@[i as int]@,
                        },
                    ),
                ]);
                return Ok(actions);
            }
            i += 1;
        }
        Err(
            Error::new(
                ErrorKind::UnexpectedMessage(
                    "Neither wamp.2.json nor wamp.2.msgpack were selected as Websocket sub-protocols",
                ),
            ),
        )
    }
}

} // verus!
