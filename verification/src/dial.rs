//! How connections come about: a client looks for a server, a server calls its peers, and says
//! what becomes of whoever calls it.
use crate::kv::{ClientId, NodeId, RegistrationMessage};
use vstd::prelude::*;

verus! {

/// What happened in the search for a server.
pub enum SearchEvent {
    /// The server could not be reached.
    ConnectFailed,
    /// The server was reached but the registration could not be sent.
    RegistrationFailed,
    /// The server was reached and the registration was sent.
    Registered,
    /// The pause is over.
    Rested,
}

/// What to do next in the search for a server.
#[derive(Debug, PartialEq, Eq)]
pub enum SearchAction {
    /// Try the server at this place in the list.
    Try(usize),
    /// Pause.
    Rest,
    /// Use the connection to the server at this place.
    Use(usize),
}

/// What to do at place `at` of a list of `servers`: behind the last of them, pause.
pub open spec fn search_action(servers: usize, at: usize) -> SearchAction {
    if at < servers {
        SearchAction::Try(at)
    } else {
        SearchAction::Rest
    }
}

/// The place in the list after something happened: a failure leads on to the next server, and
/// behind the last of them to a pause, after which the search starts over.
pub open spec fn search_place(servers: usize, at: usize, event: SearchEvent) -> usize {
    match event {
        SearchEvent::ConnectFailed | SearchEvent::RegistrationFailed => if at < servers {
            (at + 1) as usize
        } else {
            at
        },
        SearchEvent::Registered => at,
        SearchEvent::Rested => 0,
    }
}

/// A search for a server that can be reached, in the order of a list, over and over.
pub struct ServerSearch {
    servers: usize,
    at: usize,
}

impl ServerSearch {
    /// The number of servers in the list.
    pub closed spec fn spec_servers(&self) -> usize {
        self.servers
    }

    /// The place that the search has come to.
    pub closed spec fn place(&self) -> usize {
        self.at
    }

    /// A search at the start of a list of `servers`.
    pub fn new(servers: usize) -> (s: ServerSearch)
        ensures
            s.spec_servers() == servers,
            s.place() == 0,
    {
        ServerSearch { servers, at: 0 }
    }

    /// What to do now.
    pub fn action(&self) -> (a: SearchAction)
        ensures
            a == search_action(self.spec_servers(), self.place()),
    {
        if self.at < self.servers {
            SearchAction::Try(self.at)
        } else {
            SearchAction::Rest
        }
    }

    /// Takes in what happened, and says what to do next.
    pub fn step(&mut self, event: SearchEvent) -> (a: SearchAction)
        ensures
            final(self).spec_servers() == old(self).spec_servers(),
            final(self).place() == search_place(
                old(self).spec_servers(),
                old(self).place(),
                event,
            ),
            a == (if event is Registered {
                SearchAction::Use(old(self).place())
            } else {
                search_action(final(self).spec_servers(), final(self).place())
            }),
    {
        match event {
            SearchEvent::Registered => SearchAction::Use(self.at),
            SearchEvent::Rested => {
                self.at = 0;
                self.action()
            },
            SearchEvent::ConnectFailed | SearchEvent::RegistrationFailed => {
                if self.at < self.servers {
                    self.at = self.at + 1;
                }
                self.action()
            },
        }
    }
}

/// What a client says of itself to a server that it has reached.
pub fn client_registration() -> (r: RegistrationMessage)
    ensures
        r == RegistrationMessage::ClientRegister,
{
    RegistrationMessage::ClientRegister
}

/// The place after a run of events.
pub open spec fn search_run(servers: usize, at: usize, events: Seq<SearchEvent>) -> usize
    decreases events.len(),
{
    if events.len() == 0 {
        at
    } else {
        search_place(servers, search_run(servers, at, events.drop_last()), events.last())
    }
}

/// From the start of the list, and again after each pause, the servers are tried in order, each
/// once, and a pause follows the last of them: after `k` failures the search tries the server at
/// place `k`, and pauses where there is none.
pub proof fn law_servers_are_tried_in_order(servers: usize, failures: Seq<SearchEvent>)
    requires
        failures.len() <= servers,
        forall|i: int|
            0 <= i < failures.len() ==> (#[trigger] failures[i] is ConnectFailed
                || failures[i] is RegistrationFailed),
    ensures
        search_run(servers, 0, failures) == failures.len(),
        search_action(servers, search_run(servers, 0, failures)) == (if failures.len() < servers {
            SearchAction::Try(failures.len() as usize)
        } else {
            SearchAction::Rest
        }),
        forall|at: usize| #[trigger] search_place(servers, at, SearchEvent::Rested) == 0,
    decreases failures.len(),
{
    if failures.len() > 0 {
        let front = failures.drop_last();
        assert forall|i: int| 0 <= i < front.len() implies (#[trigger] front[i] is ConnectFailed
            || front[i] is RegistrationFailed) by {
            assert(front[i] == failures[i]);
        }
        law_servers_are_tried_in_order(servers, front);
        assert(failures.last() == failures[failures.len() - 1]);
    }
}

/// Why a peer is called.
pub enum DialPurpose {
    /// The server starts.
    Startup,
    /// The connection to the peer was lost.
    Reconnect,
}

/// What happened in a call to a peer.
pub enum DialEvent {
    ConnectFailed,
    Connected,
    HandshakeFailed,
    HandshakeSent,
}

/// What to do next in a call to a peer.
#[derive(Debug, PartialEq, Eq)]
pub enum DialAction {
    /// Wait for the next tick, then connect.
    Connect,
    /// Say who calls.
    SendHandshake(RegistrationMessage),
    /// Hand the connection over to the server.
    HandOver,
    /// Let the call be.
    GiveUp,
    /// Tell the server that the call failed.
    ReportFailure,
}

/// A call is repeated until it gets through; one that was lost while it said who calls is given
/// up, and where it replaces a lost connection the server is told.
pub open spec fn dial_action(
    purpose: DialPurpose,
    my_id: NodeId,
    event: DialEvent,
) -> DialAction {
    match event {
        DialEvent::ConnectFailed => DialAction::Connect,
        DialEvent::Connected => DialAction::SendHandshake(RegistrationMessage::NodeRegister(my_id)),
        DialEvent::HandshakeFailed => match purpose {
            DialPurpose::Startup => DialAction::GiveUp,
            DialPurpose::Reconnect => DialAction::ReportFailure,
        },
        DialEvent::HandshakeSent => DialAction::HandOver,
    }
}

/// Says what to do next in a call to a peer.
pub fn dial_step(purpose: &DialPurpose, my_id: NodeId, event: DialEvent) -> (a: DialAction)
    ensures
        a == dial_action(*purpose, my_id, event),
{
    match event {
        DialEvent::ConnectFailed => DialAction::Connect,
        DialEvent::Connected => DialAction::SendHandshake(RegistrationMessage::NodeRegister(my_id)),
        DialEvent::HandshakeFailed => match purpose {
            DialPurpose::Startup => DialAction::GiveUp,
            DialPurpose::Reconnect => DialAction::ReportFailure,
        },
        DialEvent::HandshakeSent => DialAction::HandOver,
    }
}

/// What a caller said first.
pub enum Handshake {
    /// It said who it is.
    Message(RegistrationMessage),
    /// What it said could not be read.
    Malformed,
    /// It said nothing and left.
    Closed,
}

/// What becomes of a caller.
#[derive(Debug, PartialEq, Eq)]
pub enum IncomingRoute {
    /// It is a node of the cluster.
    Peer(NodeId),
    /// It is a client, which has now this identifier.
    Client(ClientId),
    /// Its handshake was malformed.
    Malformed,
    /// It never said who it is.
    Unidentified,
}

/// What becomes of a caller, where `max` is the highest identifier that a client has.
pub open spec fn incoming_route(max: ClientId, handshake: Handshake) -> IncomingRoute {
    match handshake {
        Handshake::Message(RegistrationMessage::NodeRegister(node_id)) => IncomingRoute::Peer(
            node_id,
        ),
        Handshake::Message(RegistrationMessage::ClientRegister) => IncomingRoute::Client(
            (max + 1) as u64,
        ),
        Handshake::Malformed => IncomingRoute::Malformed,
        Handshake::Closed => IncomingRoute::Unidentified,
    }
}

/// Gives clients their identifiers.
pub struct ClientRegistry {
    max_client_id: ClientId,
}

impl ClientRegistry {
    /// The highest identifier that a client has; zero before there is a client.
    pub closed spec fn max(&self) -> ClientId {
        self.max_client_id
    }

    /// No client yet.
    pub fn new() -> (r: ClientRegistry)
        ensures
            r.max() == 0,
    {
        ClientRegistry { max_client_id: 0 }
    }

    /// Whether there is an identifier left for another client.
    pub fn has_room(&self) -> (b: bool)
        ensures
            b == (self.max() < u64::MAX),
    {
        self.max_client_id < u64::MAX
    }

    /// Decides what becomes of a caller. A client gets the next identifier.
    pub fn handle_incoming_connection(&mut self, handshake: Handshake) -> (r: IncomingRoute)
        requires
            handshake == Handshake::Message(RegistrationMessage::ClientRegister) ==> old(self).max()
                < u64::MAX,
        ensures
            r == incoming_route(old(self).max(), handshake),
            final(self).max() == (match r {
                IncomingRoute::Client(client_id) => client_id,
                _ => old(self).max(),
            }),
    {
        match handshake {
            Handshake::Message(RegistrationMessage::NodeRegister(node_id)) => IncomingRoute::Peer(
                node_id,
            ),
            Handshake::Message(RegistrationMessage::ClientRegister) => {
                self.max_client_id = self.max_client_id + 1;
                IncomingRoute::Client(self.max_client_id)
            },
            Handshake::Malformed => IncomingRoute::Malformed,
            Handshake::Closed => IncomingRoute::Unidentified,
        }
    }
}

/// The highest identifier that a client has after a run of handshakes.
pub open spec fn max_after(max: ClientId, handshakes: Seq<Handshake>) -> ClientId
    decreases handshakes.len(),
{
    if handshakes.len() == 0 {
        max
    } else {
        let before = max_after(max, handshakes.drop_last());
        match incoming_route(before, handshakes.last()) {
            IncomingRoute::Client(client_id) => client_id,
            _ => before,
        }
    }
}

/// No two clients get the same identifier: one that comes later gets a higher one, whoever else
/// called in between.
pub proof fn law_client_ids_are_distinct(
    max: ClientId,
    first: Handshake,
    between: Seq<Handshake>,
    second: Handshake,
)
    requires
        max + 2 + between.len() <= u64::MAX,
    ensures
        ({
            let after_first = max_after(max, seq![first]);
            let before_second = max_after(after_first, between);
            incoming_route(max, first) matches IncomingRoute::Client(a) ==> (incoming_route(
                before_second,
                second,
            ) matches IncomingRoute::Client(b) ==> a < b)
        }),
{
    reveal_with_fuel(max_after, 2);
    assert(seq![first].drop_last() =~= Seq::<Handshake>::empty());
    lemma_max_grows(max_after(max, seq![first]), between);
}

/// Identifiers only grow, by at most one for each caller.
proof fn lemma_max_grows(max: ClientId, handshakes: Seq<Handshake>)
    requires
        max + handshakes.len() <= u64::MAX,
    ensures
        max <= max_after(max, handshakes) <= max + handshakes.len(),
    decreases handshakes.len(),
{
    if handshakes.len() > 0 {
        lemma_max_grows(max, handshakes.drop_last());
    }
}

/// A search at a place in the list tries the server there and no other; behind the list it
/// pauses. A failure leads on by one place and never past the list, a pause back to the start, and
/// a registration stays at the server that took it.
pub proof fn law_search_moves_one_place_at_a_time(servers: usize, at: usize)
    ensures
        at < servers ==> {
            &&& search_action(servers, at) == SearchAction::Try(at)
            &&& search_place(servers, at, SearchEvent::ConnectFailed) == at + 1
            &&& search_place(servers, at, SearchEvent::RegistrationFailed) == at + 1
        },
        at >= servers ==> {
            &&& search_action(servers, at) is Rest
            &&& search_place(servers, at, SearchEvent::ConnectFailed) == at
            &&& search_place(servers, at, SearchEvent::RegistrationFailed) == at
        },
        search_place(servers, at, SearchEvent::Rested) == 0,
        search_place(servers, at, SearchEvent::Registered) == at,
{
}

/// A call that got through is opened with the caller's own identifier, whatever it is for. One
/// that did not is made again, and one whose opening was sent is handed over.
pub proof fn law_caller_gives_its_own_identifier(purpose: DialPurpose, my_id: NodeId)
    ensures
        dial_action(purpose, my_id, DialEvent::Connected) == DialAction::SendHandshake(
            RegistrationMessage::NodeRegister(my_id),
        ),
        dial_action(purpose, my_id, DialEvent::ConnectFailed) is Connect,
        dial_action(purpose, my_id, DialEvent::HandshakeSent) is HandOver,
{
}

/// A call that was lost while it was opened is reported exactly where it replaces a lost
/// connection, and otherwise let be.
pub proof fn law_lost_reconnect_is_reported(purpose: DialPurpose, my_id: NodeId)
    ensures
        purpose is Reconnect ==> dial_action(purpose, my_id, DialEvent::HandshakeFailed)
            is ReportFailure,
        purpose is Startup ==> dial_action(purpose, my_id, DialEvent::HandshakeFailed) is GiveUp,
{
}

/// A node is known by the identifier that it gives, a client gets the one behind the highest so
/// far, and who gives nothing that can be read becomes neither.
pub proof fn law_caller_is_known_by_what_it_says(max: ClientId, node_id: NodeId)
    ensures
        incoming_route(max, Handshake::Message(RegistrationMessage::NodeRegister(node_id)))
            == IncomingRoute::Peer(node_id),
        max < u64::MAX ==> incoming_route(
            max,
            Handshake::Message(RegistrationMessage::ClientRegister),
        ) == IncomingRoute::Client((max + 1) as u64),
        incoming_route(max, Handshake::Malformed) is Malformed,
        incoming_route(max, Handshake::Closed) is Unidentified,
{
}

/// The server that is called knows the caller by the caller's own identifier.
pub proof fn law_called_server_knows_the_caller(purpose: DialPurpose, my_id: NodeId, max: ClientId)
    ensures
        dial_action(purpose, my_id, DialEvent::Connected) matches DialAction::SendHandshake(said)
            && incoming_route(max, Handshake::Message(said)) == IncomingRoute::Peer(my_id),
{
}

} // verus!
