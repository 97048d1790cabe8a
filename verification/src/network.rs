//! A server's view of the cluster: which peers and clients it is connected to, which peers have
//! fallen silent, and to which of them a new connection is being made.
use crate::kv::{ClientId, NodeId};
use crate::text::{decimal, decimal_text};
use std::collections::HashMap;
use vstd::prelude::*;
use vstd::string::*;

verus! {

broadcast use vstd::std_specs::hash::group_hash_axioms;

/// How long a peer may be silent before its connection is given up, in nanoseconds.
pub const HEARTBEAT_TIMEOUT_NANOS: u128 = 8_000_000_000;

/// A peer to which a new connection is to be made.
pub struct ReconnectRequest<A> {
    pub peer: NodeId,
    pub idx: usize,
    pub address: A,
}

/// What becomes of a message to a node.
pub enum SendRoute<A> {
    /// It goes out on the connection at this place.
    Deliver(usize),
    /// It is dropped, and a new connection is to be made.
    Reconnect(ReconnectRequest<A>),
    /// It is dropped; a new connection is being made.
    Reconnecting,
    /// It is dropped: the node is no peer.
    UnknownNode,
}

/// Whether `i` is the first place at which `s` holds `id`.
pub open spec fn is_first(s: Seq<NodeId>, id: NodeId, i: int) -> bool {
    &&& 0 <= i < s.len()
    &&& s[i] == id
    &&& forall|j: int| 0 <= j < i ==> #[trigger] s[j] != id
}

/// The first place at which `s` holds `id`.
pub open spec fn position(s: Seq<NodeId>, id: NodeId) -> Option<int> {
    if exists|i: int| is_first(s, id, i) {
        Some(choose|i: int| is_first(s, id, i))
    } else {
        None
    }
}

/// The peers of the node `id` among the first `k` nodes of the cluster, each with its address:
/// all but the node itself.
pub open spec fn peer_table<A>(id: NodeId, nodes: Seq<NodeId>, addrs: Seq<A>, k: int) -> Seq<
    (NodeId, A),
>
    decreases k,
{
    if k <= 0 {
        Seq::empty()
    } else if nodes[k - 1] != id {
        peer_table(id, nodes, addrs, k - 1).push((nodes[k - 1], addrs[k - 1]))
    } else {
        peer_table(id, nodes, addrs, k - 1)
    }
}

/// The number of nodes that have both an identifier and an address.
pub open spec fn paired<A>(nodes: Seq<NodeId>, addrs: Seq<A>) -> int {
    if nodes.len() <= addrs.len() {
        nodes.len() as int
    } else {
        addrs.len() as int
    }
}

/// Whether the node `me` is the one of two nodes that makes the connection between them: it
/// connects to peers with a lower identifier, and waits for those with a higher one.
pub open spec fn dials(me: NodeId, peer: NodeId) -> bool {
    peer < me
}

/// The address at which a server listens: a host and a port.
pub fn listen_address(host: &str, port: u16) -> (s: String)
    ensures
        s@ == host@ + ":"@ + decimal(port as nat),
{
    let mut s = host.to_owned();
    s.append(":");
    s.append(decimal_text(port as u64).as_str());
    s
}

/// What a server knows of its connections. The sequences have one element for each peer.
#[verifier::ext_equal]
#[verifier::reject_recursive_types(A)]
#[verifier::reject_recursive_types(P)]
#[verifier::reject_recursive_types(C)]
pub struct NetworkView<A, P, C> {
    pub id: NodeId,
    pub peers: Seq<NodeId>,
    pub addrs: Seq<A>,
    pub peer_connections: Seq<Option<P>>,
    pub client_connections: Map<ClientId, C>,
    pub reconnecting: Seq<bool>,
    pub last_heartbeat_ack: Seq<u128>,
}

impl<A, P, C> NetworkView<A, P, C> {
    /// Before any connection is made: every peer counts as heard from at the time `now`.
    pub open spec fn unconnected(id: NodeId, table: Seq<(NodeId, A)>, now: u128) -> Self {
        NetworkView {
            id,
            peers: table.map_values(|p: (NodeId, A)| p.0),
            addrs: table.map_values(|p: (NodeId, A)| p.1),
            peer_connections: Seq::new(table.len(), |i: int| None),
            client_connections: Map::empty(),
            reconnecting: Seq::new(table.len(), |i: int| false),
            last_heartbeat_ack: Seq::new(table.len(), |i: int| now),
        }
    }

    /// Every peer has an address, a place for its connection, a mark and a time, and an index
    /// can name each place.
    pub open spec fn wf(self) -> bool {
        &&& self.peers.len() <= usize::MAX
        &&& self.addrs.len() == self.peers.len()
        &&& self.peer_connections.len() == self.peers.len()
        &&& self.reconnecting.len() == self.peers.len()
        &&& self.last_heartbeat_ack.len() == self.peers.len()
    }

    /// Whether there is a connection to the peer at place `i`.
    pub open spec fn connected(self, i: int) -> bool {
        self.peer_connections[i] is Some
    }

    /// Whether the peer at place `i` is connected but has been silent for too long.
    pub open spec fn overdue(self, i: int, now: u128) -> bool {
        self.connected(i) && now - self.last_heartbeat_ack[i] > HEARTBEAT_TIMEOUT_NANOS
    }

    /// The request for a new connection to the peer at place `i`.
    pub open spec fn request(self, i: int) -> ReconnectRequest<A> {
        ReconnectRequest { peer: self.peers[i], idx: i as usize, address: self.addrs[i] }
    }

    /// After the silent peers were looked for: the overdue ones have lost their connection, and a
    /// new one is being made.
    pub open spec fn checked(self, now: u128) -> NetworkView<A, P, C> {
        NetworkView {
            peer_connections: Seq::new(
                self.peers.len(),
                |i: int|
                    if self.overdue(i, now) {
                        None
                    } else {
                        self.peer_connections[i]
                    },
            ),
            reconnecting: Seq::new(
                self.peers.len(),
                |i: int| self.reconnecting[i] || self.overdue(i, now),
            ),
            ..self
        }
    }

    /// The new connections that the look for silent peers asks for among the first `k` peers:
    /// those that are overdue and to which none is being made yet.
    pub open spec fn check_requests(self, now: u128, k: int) -> Seq<ReconnectRequest<A>>
        decreases k,
    {
        if k <= 0 {
            Seq::empty()
        } else if self.overdue(k - 1, now) && !self.reconnecting[k - 1] {
            self.check_requests(now, k - 1).push(self.request(k - 1))
        } else {
            self.check_requests(now, k - 1)
        }
    }

    /// After a sign of life from a node. One from a node that is no peer counts for nothing.
    pub open spec fn heard(self, from: NodeId, now: u128) -> NetworkView<A, P, C> {
        match position(self.peers, from) {
            Some(i) => NetworkView {
                last_heartbeat_ack: self.last_heartbeat_ack.update(i, now),
                ..self
            },
            None => self,
        }
    }

    /// What becomes of a message to a node.
    pub open spec fn route(self, to: NodeId) -> SendRoute<A> {
        match position(self.peers, to) {
            Some(i) => if self.connected(i) {
                SendRoute::Deliver(i as usize)
            } else if self.reconnecting[i] {
                SendRoute::Reconnecting
            } else {
                SendRoute::Reconnect(self.request(i))
            },
            None => SendRoute::UnknownNode,
        }
    }

    /// After a message to a node was routed.
    pub open spec fn routed(self, to: NodeId) -> NetworkView<A, P, C> {
        match self.route(to) {
            SendRoute::Reconnect(request) => NetworkView {
                reconnecting: self.reconnecting.update(request.idx as int, true),
                ..self
            },
            _ => self,
        }
    }

    /// After a message could not be sent on the connection at place `i`.
    pub open spec fn send_failed(self, i: int) -> NetworkView<A, P, C> {
        NetworkView {
            peer_connections: self.peer_connections.update(i, None),
            reconnecting: self.reconnecting.update(i, true),
            ..self
        }
    }

    /// After a connection to the peer at place `i` was made while the server starts.
    pub open spec fn with_connection(self, i: int, connection: P) -> NetworkView<A, P, C> {
        NetworkView { peer_connections: self.peer_connections.update(i, Some(connection)), ..self }
    }

    /// Whether there is a connection to every peer.
    pub open spec fn all_connected(self) -> bool {
        forall|i: int| 0 <= i < self.peers.len() ==> #[trigger] self.connected(i)
    }

    /// After every connection was given up.
    pub open spec fn shut_down(self) -> NetworkView<A, P, C> {
        NetworkView {
            peer_connections: Seq::new(self.peers.len(), |i: int| None),
            client_connections: Map::empty(),
            ..self
        }
    }

    /// The peers among the first `k` to which this server makes the connection.
    pub open spec fn dialled(self, k: int) -> Seq<(NodeId, A)>
        decreases k,
    {
        if k <= 0 {
            Seq::empty()
        } else if dials(self.id, self.peers[k - 1]) {
            self.dialled(k - 1).push((self.peers[k - 1], self.addrs[k - 1]))
        } else {
            self.dialled(k - 1)
        }
    }
}

/// Which server of the cluster this is, and who its peers are. It does not change.
pub struct Membership {
    id: NodeId,
    peers: Vec<NodeId>,
}

impl Membership {
    /// The server's own identifier.
    pub closed spec fn spec_id(&self) -> NodeId {
        self.id
    }

    /// The peers.
    pub closed spec fn spec_peers(&self) -> Seq<NodeId> {
        self.peers@
    }
}

/// The connections of a server. `A` is an address, `P` a connection to a peer and `C` one to a
/// client.
#[verifier::reject_recursive_types(A)]
#[verifier::reject_recursive_types(P)]
#[verifier::reject_recursive_types(C)]
pub struct Network<A, P, C> {
    pub membership: Membership,
    pub socket_addr: Vec<A>,
    pub peer_connections: Vec<Option<P>>,
    pub client_connections: HashMap<ClientId, C>,
    pub reconnecting: Vec<bool>,
    pub last_heartbeat_ack: Vec<u128>,
}

impl<A, P, C> View for Network<A, P, C> {
    type V = NetworkView<A, P, C>;

    open spec fn view(&self) -> NetworkView<A, P, C> {
        NetworkView {
            id: self.membership.spec_id(),
            peers: self.membership.spec_peers(),
            addrs: self.socket_addr@,
            peer_connections: self.peer_connections@,
            client_connections: self.client_connections@,
            reconnecting: self.reconnecting@,
            last_heartbeat_ack: self.last_heartbeat_ack@,
        }
    }
}

/// Each public field is its part of the view: what a method says of a place is said of the element
/// at that place.
pub proof fn law_fields_are_viewed<A, P, C>(n: Network<A, P, C>)
    ensures
        n.socket_addr@ == n@.addrs,
        n.peer_connections@ == n@.peer_connections,
        n.client_connections@ == n@.client_connections,
        n.reconnecting@ == n@.reconnecting,
        n.last_heartbeat_ack@ == n@.last_heartbeat_ack,
{
}

impl<A: Copy, P, C> Network<A, P, C> {
    /// The connections of the server `id` before any is made. The peers are the other nodes of
    /// the cluster; each has the address at its own place, and nodes without one are left out.
    pub fn new(id: NodeId, nodes: &Vec<NodeId>, node_addresses: &Vec<A>, now: u128) -> (n: Self)
        ensures
            n@.wf(),
            n@ == NetworkView::<A, P, C>::unconnected(
                id,
                peer_table(id, nodes@, node_addresses@, paired(nodes@, node_addresses@)),
                now,
            ),
    {
        let mut peers: Vec<NodeId> = Vec::new();
        let mut socket_addr: Vec<A> = Vec::new();
        let mut peer_connections: Vec<Option<P>> = Vec::new();
        let mut reconnecting: Vec<bool> = Vec::new();
        let mut last_heartbeat_ack: Vec<u128> = Vec::new();
        let mut k: usize = 0;
        while k < nodes.len() && k < node_addresses.len()
            invariant
                k <= paired(nodes@, node_addresses@),
                peers@.len() <= k,
                peers@.len() == peer_table(id, nodes@, node_addresses@, k as int).len(),
                socket_addr@.len() == peers@.len(),
                peer_connections@.len() == peers@.len(),
                reconnecting@.len() == peers@.len(),
                last_heartbeat_ack@.len() == peers@.len(),
                forall|i: int|
                    0 <= i < peers@.len() ==> (#[trigger] peers@[i], socket_addr@[i])
                        == peer_table(id, nodes@, node_addresses@, k as int)[i],
                forall|i: int|
                    0 <= i < peers@.len() ==> (#[trigger] peer_connections@[i]) is None,
                forall|i: int| 0 <= i < peers@.len() ==> !(#[trigger] reconnecting@[i]),
                forall|i: int| 0 <= i < peers@.len() ==> #[trigger] last_heartbeat_ack@[i] == now,
            decreases nodes@.len() - k,
        {
            if nodes[k] != id {
                peers.push(nodes[k]);
                socket_addr.push(node_addresses[k]);
                peer_connections.push(None);
                reconnecting.push(false);
                last_heartbeat_ack.push(now);
            }
            k = k + 1;
        }
        let n = Network {
            membership: Membership { id, peers },
            socket_addr,
            peer_connections,
            client_connections: HashMap::new(),
            reconnecting,
            last_heartbeat_ack,
        };
        proof {
            let table = peer_table(id, nodes@, node_addresses@, paired(nodes@, node_addresses@));
            let start = NetworkView::<A, P, C>::unconnected(id, table, now);
            assert forall|i: int| 0 <= i < table.len() implies #[trigger] n@.addrs[i]
                == table[i].1 by {
                assert((n@.peers[i], n@.addrs[i]) == table[i]);
            }
            assert(n@.peers =~= start.peers);
            assert(n@.addrs =~= start.addrs);
            assert(n@.peer_connections =~= start.peer_connections);
            assert(n@.client_connections =~= start.client_connections);
            assert(n@.reconnecting =~= start.reconnecting);
            assert(n@.last_heartbeat_ack =~= start.last_heartbeat_ack);
        }
        n
    }

    /// The place of a peer among the peers.
    pub fn cluster_id_to_idx(&self, id: NodeId) -> (r: Option<usize>)
        ensures
            match r {
                Some(idx) => position(self@.peers, id) == Some(idx as int),
                None => position(self@.peers, id) is None,
            },
    {
        let mut i: usize = 0;
        while i < self.membership.peers.len()
            invariant
                i <= self.membership.peers@.len(),
                self@.peers == self.membership.peers@,
                forall|j: int| 0 <= j < i ==> #[trigger] self.membership.peers@[j] != id,
            decreases self.membership.peers@.len() - i,
        {
            if self.membership.peers[i] == id {
                proof {
                    lemma_position(self@.peers, id, i as int);
                }
                return Some(i);
            }
            i = i + 1;
        }
        None
    }

    /// Takes in a connection that was made while the server starts. Says whether the server is
    /// now connected to every peer.
    pub fn connect_peer(&mut self, peer_id: NodeId, connection: P) -> (all: bool)
        requires
            old(self)@.wf(),
            old(self)@.peers.contains(peer_id),
        ensures
            final(self)@.wf(),
            position(old(self)@.peers, peer_id) is Some,
            final(self)@ == old(self)@.with_connection(
                position(old(self)@.peers, peer_id)->0,
                connection,
            ),
            all == final(self)@.all_connected(),
    {
        proof {
            lemma_position_of_member(self@.peers, peer_id);
        }
        if let Some(idx) = self.cluster_id_to_idx(peer_id) {
            self.peer_connections.set(idx, Some(connection));
        }
        self.every_peer_connected()
    }

    /// Whether there is a connection to every peer: whether the start is over. Where there are no
    /// peers it is over before any connection is made.
    pub fn every_peer_connected(&self) -> (all: bool)
        requires
            self@.wf(),
        ensures
            all == self@.all_connected(),
    {
        let mut i: usize = 0;
        while i < self.peer_connections.len()
            invariant
                i <= self.peer_connections@.len(),
                self@.wf(),
                self@.peer_connections == self.peer_connections@,
                forall|j: int| 0 <= j < i ==> #[trigger] self@.connected(j),
            decreases self.peer_connections@.len() - i,
        {
            if self.peer_connections[i].is_none() {
                assert(!self@.connected(i as int));
                return false;
            }
            assert(self@.connected(i as int));
            i = i + 1;
        }
        true
    }

    /// The peers to which this server makes the connection when it starts.
    pub fn peers_to_dial(&self) -> (r: Vec<(NodeId, A)>)
        requires
            self@.wf(),
        ensures
            r@ == self@.dialled(self@.peers.len() as int),
    {
        let mut r: Vec<(NodeId, A)> = Vec::new();
        let mut k: usize = 0;
        while k < self.membership.peers.len()
            invariant
                k <= self.membership.peers@.len(),
                self@.wf(),
                self@.peers == self.membership.peers@,
                self@.addrs == self.socket_addr@,
                self@.id == self.membership.id,
                r@ == self@.dialled(k as int),
            decreases self.membership.peers@.len() - k,
        {
            if self.membership.peers[k] < self.membership.id {
                r.push((self.membership.peers[k], self.socket_addr[k]));
            }
            k = k + 1;
        }
        r
    }

    /// Looks for peers that have been silent for too long and gives up their connections. New
    /// connections are to be made to those returned.
    pub fn check_heartbeat_timeouts(&mut self, now: u128) -> (r: Vec<ReconnectRequest<A>>)
        requires
            old(self)@.wf(),
        ensures
            final(self)@.wf(),
            final(self)@ == old(self)@.checked(now),
            r@ == old(self)@.check_requests(now, old(self)@.peers.len() as int),
    {
        let ghost before = self@;
        let mut r: Vec<ReconnectRequest<A>> = Vec::new();
        let mut idx: usize = 0;
        while idx < self.membership.peers.len()
            invariant
                idx <= self.membership.peers@.len(),
                before.wf(),
                self@.wf(),
                self@ == (NetworkView {
                    peer_connections: self@.peer_connections,
                    reconnecting: self@.reconnecting,
                    ..before
                }),
                forall|i: int|
                    0 <= i < idx ==> #[trigger] self@.peer_connections[i] == (if before.overdue(
                        i,
                        now,
                    ) {
                        None
                    } else {
                        before.peer_connections[i]
                    }),
                forall|i: int|
                    0 <= i < idx ==> #[trigger] self@.reconnecting[i] == (before.reconnecting[i]
                        || before.overdue(i, now)),
                forall|i: int|
                    idx <= i < before.peers.len() ==> #[trigger] self@.peer_connections[i]
                        == before.peer_connections[i],
                forall|i: int|
                    idx <= i < before.peers.len() ==> #[trigger] self@.reconnecting[i]
                        == before.reconnecting[i],
                r@ == before.check_requests(now, idx as int),
            decreases self.membership.peers@.len() - idx,
        {
            let ack: u128 = self.last_heartbeat_ack[idx];
            let silent = now > ack && now - ack > HEARTBEAT_TIMEOUT_NANOS;
            assert(self@.peer_connections[idx as int] == before.peer_connections[idx as int]);
            assert(self@.reconnecting[idx as int] == before.reconnecting[idx as int]);
            if silent && self.peer_connections[idx].is_some() {
                assert(before.overdue(idx as int, now));
                self.peer_connections.set(idx, None);
                if !self.reconnecting[idx] {
                    self.reconnecting.set(idx, true);
                    r.push(
                        ReconnectRequest {
                            peer: self.membership.peers[idx],
                            idx,
                            address: self.socket_addr[idx],
                        },
                    );
                }
            } else {
                assert(!before.overdue(idx as int, now));
            }
            idx = idx + 1;
        }
        assert(self@.peer_connections =~= before.checked(now).peer_connections);
        assert(self@.reconnecting =~= before.checked(now).reconnecting);
        r
    }

    /// Takes note of a sign of life from a node.
    pub fn update_heartbeat_ack(&mut self, from: NodeId, now: u128)
        requires
            old(self)@.wf(),
        ensures
            final(self)@.wf(),
            final(self)@ == old(self)@.heard(from, now),
    {
        if let Some(idx) = self.cluster_id_to_idx(from) {
            proof {
                lemma_position_is_first(self@.peers, from);
            }
            self.last_heartbeat_ack.set(idx, now);
        }
    }

    /// Decides what becomes of a message to a node.
    pub fn send_to_cluster(&mut self, to: NodeId) -> (r: SendRoute<A>)
        requires
            old(self)@.wf(),
        ensures
            final(self)@.wf(),
            r == old(self)@.route(to),
            final(self)@ == old(self)@.routed(to),
    {
        match self.cluster_id_to_idx(to) {
            Some(idx) => {
                proof {
                    lemma_position_is_first(self@.peers, to);
                }
                if self.peer_connections[idx].is_some() {
                    SendRoute::Deliver(idx)
                } else if !self.reconnecting[idx] {
                    self.reconnecting.set(idx, true);
                    SendRoute::Reconnect(
                        ReconnectRequest {
                            peer: self.membership.peers[idx],
                            idx,
                            address: self.socket_addr[idx],
                        },
                    )
                } else {
                    SendRoute::Reconnecting
                }
            },
            None => SendRoute::UnknownNode,
        }
    }

    /// Gives up the connection at place `idx`, on which a message could not be sent. A new one is
    /// to be made.
    pub fn peer_send_failed(&mut self, idx: usize) -> (r: ReconnectRequest<A>)
        requires
            old(self)@.wf(),
            idx < old(self)@.peers.len(),
        ensures
            final(self)@.wf(),
            final(self)@ == old(self)@.send_failed(idx as int),
            r == old(self)@.request(idx as int),
    {
        self.peer_connections.set(idx, None);
        self.reconnecting.set(idx, true);
        ReconnectRequest { peer: self.membership.peers[idx], idx, address: self.socket_addr[idx] }
    }

    /// Whether a message to a client can be sent.
    pub fn send_to_client(&self, to: ClientId) -> (connected: bool)
        ensures
            connected == self@.client_connections.contains_key(to),
    {
        self.client_connections.contains_key(&to)
    }

    /// Gives up the connection to a client, on which a message could not be sent.
    pub fn client_send_failed(&mut self, to: ClientId)
        requires
            old(self)@.wf(),
        ensures
            final(self)@.wf(),
            final(self)@ == (NetworkView {
                client_connections: old(self)@.client_connections.remove(to),
                ..old(self)@
            }),
    {
        let _ = self.client_connections.remove(&to);
        assert(self@.client_connections =~= old(self)@.client_connections.remove(to));
    }

    /// Gives up every connection. Those returned are to be closed.
    pub fn shutdown(&mut self) -> (r: (HashMap<ClientId, C>, Vec<Option<P>>))
        requires
            old(self)@.wf(),
        ensures
            final(self)@.wf(),
            final(self)@ == old(self)@.shut_down(),
            r.0@ == old(self)@.client_connections,
            r.1@ == old(self)@.peer_connections,
    {
        let mut clients: HashMap<ClientId, C> = HashMap::new();
        std::mem::swap(&mut clients, &mut self.client_connections);
        let mut connections: Vec<Option<P>> = Vec::new();
        std::mem::swap(&mut connections, &mut self.peer_connections);
        let mut i: usize = 0;
        while i < self.membership.peers.len()
            invariant
                i <= self.membership.peers@.len(),
                self@ == (NetworkView {
                    client_connections: Map::empty(),
                    peer_connections: self@.peer_connections,
                    ..old(self)@
                }),
                old(self)@.wf(),
                self@.peer_connections == self.peer_connections@,
                self@.peers == self.membership.peers@,
                self@.peer_connections.len() == i,
                forall|j: int| 0 <= j < i ==> (#[trigger] self@.peer_connections[j]) is None,
            decreases self.membership.peers@.len() - i,
        {
            self.peer_connections.push(None);
            i = i + 1;
        }
        assert(self@.peer_connections =~= old(self)@.shut_down().peer_connections);
        (clients, connections)
    }
}

/// There is only one first place.
proof fn lemma_position(s: Seq<NodeId>, id: NodeId, i: int)
    requires
        is_first(s, id, i),
    ensures
        position(s, id) == Some(i),
{
    let k = choose|k: int| is_first(s, id, k);
    assert(is_first(s, id, k));
    if k < i {
        assert(s[k] != id);
    }
    if i < k {
        assert(s[i] != id);
    }
}

/// The place that `position` names is the first.
proof fn lemma_position_is_first(s: Seq<NodeId>, id: NodeId)
    ensures
        position(s, id) matches Some(i) ==> is_first(s, id, i),
{
}

/// What a sequence holds has a place in it.
proof fn lemma_position_of_member(s: Seq<NodeId>, id: NodeId)
    requires
        s.contains(id),
    ensures
        position(s, id) is Some,
        is_first(s, id, position(s, id)->0),
    decreases s.len(),
{
    let at = choose|i: int| 0 <= i < s.len() && s[i] == id;
    let front = s.take(at);
    if front.contains(id) {
        lemma_position_of_member(front, id);
        let k = position(front, id)->0;
        assert forall|j: int| 0 <= j < k implies #[trigger] s[j] != id by {
            assert(front[j] != id);
        }
        assert(s[k] == front[k]);
        assert(is_first(s, id, k));
    } else {
        assert forall|j: int| 0 <= j < at implies #[trigger] s[j] != id by {
            assert(front[j] == s[j]);
        }
        assert(is_first(s, id, at));
    }
}

/// Of two different nodes exactly one makes the connection between them.
pub proof fn law_one_side_dials(a: NodeId, b: NodeId)
    requires
        a != b,
    ensures
        dials(a, b) != dials(b, a),
{
}

/// A server makes the connection to exactly those of its peers that it dials, at their addresses.
pub proof fn law_dialled_peers_have_lower_ids<A, P, C>(v: NetworkView<A, P, C>, k: int)
    requires
        v.wf(),
        0 <= k <= v.peers.len(),
    ensures
        forall|peer: NodeId, address: A|
            #[trigger] v.dialled(k).contains((peer, address)) <==> (dials(v.id, peer) && exists|
                i: int,
            |
                0 <= i < k && #[trigger] v.peers[i] == peer && v.addrs[i] == address),
    decreases k,
{
    if k > 0 {
        law_dialled_peers_have_lower_ids(v, k - 1);
        let front = v.dialled(k - 1);
        let all = v.dialled(k);
        assert forall|peer: NodeId, address: A| #[trigger]
            all.contains((peer, address)) <==> (dials(v.id, peer) && exists|i: int|
                0 <= i < k && #[trigger] v.peers[i] == peer && v.addrs[i] == address) by {
            if all.contains((peer, address)) {
                let r = choose|r: int| 0 <= r < all.len() && all[r] == (peer, address);
                if r < front.len() {
                    assert(front[r] == (peer, address));
                    assert(front.contains((peer, address)));
                } else {
                    assert(v.peers[k - 1] == peer);
                }
            }
            if dials(v.id, peer) && exists|i: int|
                0 <= i < k && #[trigger] v.peers[i] == peer && v.addrs[i] == address {
                let i = choose|i: int|
                    0 <= i < k && #[trigger] v.peers[i] == peer && v.addrs[i] == address;
                if i < k - 1 {
                    assert(front.contains((peer, address)));
                    let r = choose|r: int| 0 <= r < front.len() && front[r] == (peer, address);
                    assert(all[r] == (peer, address));
                } else {
                    assert(all[all.len() - 1] == (peer, address));
                }
            }
        }
    }
}

/// The start of a server that is alone in its cluster is over before any connection is made: it has
/// no peers, and so is connected to all of them.
pub proof fn law_lone_server_has_started<A, P, C>(
    id: NodeId,
    nodes: Seq<NodeId>,
    addrs: Seq<A>,
    k: int,
    now: u128,
)
    requires
        forall|j: int| 0 <= j < k ==> #[trigger] nodes[j] == id,
    ensures
        peer_table(id, nodes, addrs, k) == Seq::<(NodeId, A)>::empty(),
        ({
            let v = NetworkView::<A, P, C>::unconnected(
                id,
                peer_table(id, nodes, addrs, k),
                now,
            );
            &&& v.all_connected()
            &&& v.peers.len() == 0
            &&& v.addrs.len() == 0
            &&& v.peer_connections.len() == 0
            &&& v.reconnecting.len() == 0
        }),
    decreases k,
{
    if k > 0 {
        law_lone_server_has_started::<A, P, C>(id, nodes, addrs, k - 1, now);
    }
}

/// A server is no peer of its own, and every other node that has an address is one.
pub proof fn law_peers_are_the_others<A>(id: NodeId, nodes: Seq<NodeId>, addrs: Seq<A>, k: int)
    requires
        0 <= k <= paired(nodes, addrs),
    ensures
        forall|i: int|
            0 <= i < peer_table(id, nodes, addrs, k).len() ==> (#[trigger] peer_table(
                id,
                nodes,
                addrs,
                k,
            )[i]).0 != id,
        forall|j: int|
            0 <= j < k && nodes[j] != id ==> #[trigger] peer_table(id, nodes, addrs, k).contains(
                (nodes[j], addrs[j]),
            ),
    decreases k,
{
    if k > 0 {
        law_peers_are_the_others(id, nodes, addrs, k - 1);
        let front = peer_table(id, nodes, addrs, k - 1);
        let table = peer_table(id, nodes, addrs, k);
        assert forall|j: int| 0 <= j < k && nodes[j] != id implies #[trigger] table.contains(
            (nodes[j], addrs[j]),
        ) by {
            if j < k - 1 {
                assert(front.contains((nodes[j], addrs[j])));
                let i = choose|i: int| 0 <= i < front.len() && front[i] == (nodes[j], addrs[j]);
                assert(table[i] == (nodes[j], addrs[j]));
            } else {
                assert(table[table.len() - 1] == (nodes[j], addrs[j]));
            }
        }
    }
}

/// After a run of connections that were made while the server starts.
pub open spec fn after_connections<A, P, C>(
    v: NetworkView<A, P, C>,
    connections: Seq<(NodeId, P)>,
) -> NetworkView<A, P, C>
    decreases connections.len(),
{
    if connections.len() == 0 {
        v
    } else {
        let last = connections.last();
        after_connections(v, connections.drop_last()).with_connection(
            position(v.peers, last.0)->0,
            last.1,
        )
    }
}

/// Whether a connection to `peer` is among `connections`.
pub open spec fn connects<P>(connections: Seq<(NodeId, P)>, peer: NodeId) -> bool {
    exists|j: int| 0 <= j < connections.len() && (#[trigger] connections[j]).0 == peer
}

/// The connection to `peer` that came last, if any came.
pub open spec fn latest<P>(connections: Seq<(NodeId, P)>, peer: NodeId) -> Option<P>
    decreases connections.len(),
{
    if connections.len() == 0 {
        None
    } else if connections.last().0 == peer {
        Some(connections.last().1)
    } else {
        latest(connections.drop_last(), peer)
    }
}

/// The start is over exactly when a connection to every peer has been made, in whatever order
/// they come and however often. The place of each peer holds the connection that came from it, the
/// last where several did.
pub proof fn law_start_waits_for_every_peer<A, P, C>(
    v: NetworkView<A, P, C>,
    connections: Seq<(NodeId, P)>,
)
    requires
        v.wf(),
        v.peers.no_duplicates(),
        forall|i: int| 0 <= i < v.peers.len() ==> !(#[trigger] v.connected(i)),
        forall|j: int|
            0 <= j < connections.len() ==> v.peers.contains((#[trigger] connections[j]).0),
    ensures
        after_connections(v, connections).wf(),
        after_connections(v, connections).peers == v.peers,
        forall|i: int|
            0 <= i < v.peers.len() ==> (#[trigger] after_connections(v, connections).connected(i)
                <==> connects(connections, v.peers[i])),
        forall|i: int|
            0 <= i < v.peers.len() ==> #[trigger] after_connections(
                v,
                connections,
            ).peer_connections[i] == latest(connections, v.peers[i]),
        after_connections(v, connections).all_connected() <==> (forall|i: int|
            0 <= i < v.peers.len() ==> connects(connections, #[trigger] v.peers[i])),
    decreases connections.len(),
{
    let after = after_connections(v, connections);
    if connections.len() > 0 {
        let front = connections.drop_last();
        let last = connections.last();
        assert(last == connections[connections.len() - 1]);
        assert forall|j: int| 0 <= j < front.len() implies v.peers.contains(
            (#[trigger] front[j]).0,
        ) by {
            assert(front[j] == connections[j]);
        }
        law_start_waits_for_every_peer(v, front);
        lemma_position_of_member(v.peers, last.0);
        let at = position(v.peers, last.0)->0;
        assert forall|i: int| 0 <= i < v.peers.len() implies (#[trigger] after.connected(i)
            <==> connects(connections, v.peers[i])) by {
            assert(after_connections(v, front).connected(i) <==> connects(front, v.peers[i]));
            if connects(front, v.peers[i]) {
                let j = choose|j: int|
                    0 <= j < front.len() && (#[trigger] front[j]).0 == v.peers[i];
                assert(connections[j] == front[j]);
            }
            if connects(connections, v.peers[i]) {
                let j = choose|j: int|
                    0 <= j < connections.len() && (#[trigger] connections[j]).0 == v.peers[i];
                if j < front.len() {
                    assert(front[j] == connections[j]);
                }
            }
        }
        assert forall|i: int| 0 <= i < v.peers.len() implies #[trigger] after.peer_connections[i]
            == latest(connections, v.peers[i]) by {
            assert(after_connections(v, front).peer_connections[i] == latest(front, v.peers[i]));
        }
    } else {
        assert forall|i: int| 0 <= i < v.peers.len() implies #[trigger] after.peer_connections[i]
            == latest(connections, v.peers[i]) by {
            assert(!v.connected(i));
        }
        assert forall|i: int| 0 <= i < v.peers.len() implies (#[trigger] after.connected(i)
            <==> connects(connections, v.peers[i])) by {
            assert(!v.connected(i));
        }
    }
    if after.all_connected() {
        assert forall|i: int| 0 <= i < v.peers.len() implies connects(
            connections,
            #[trigger] v.peers[i],
        ) by {
            assert(after.connected(i));
        }
    }
    if forall|i: int| 0 <= i < v.peers.len() ==> connects(connections, #[trigger] v.peers[i]) {
        assert forall|i: int| 0 <= i < after.peers.len() implies #[trigger] after.connected(i) by {
            assert(connects(connections, v.peers[i]));
        }
    }
}

/// A peer that was heard from within the timeout keeps its connection; one that was not loses it.
pub proof fn law_silent_peers_are_dropped<A, P, C>(v: NetworkView<A, P, C>, now: u128, i: int)
    requires
        v.wf(),
        0 <= i < v.peers.len(),
    ensures
        now - v.last_heartbeat_ack[i] <= HEARTBEAT_TIMEOUT_NANOS ==> {
            &&& v.checked(now).peer_connections[i] == v.peer_connections[i]
            &&& v.checked(now).reconnecting[i] == v.reconnecting[i]
        },
        now - v.last_heartbeat_ack[i] > HEARTBEAT_TIMEOUT_NANOS ==> !v.checked(now).connected(i),
{
}

/// A sign of life from a peer keeps its connection through every look for silent peers up to the
/// timeout.
pub proof fn law_heartbeat_keeps_connection<A, P, C>(
    v: NetworkView<A, P, C>,
    from: NodeId,
    heard_at: u128,
    now: u128,
)
    requires
        v.wf(),
        v.peers.contains(from),
        now - heard_at <= HEARTBEAT_TIMEOUT_NANOS,
    ensures
        position(v.peers, from) matches Some(i) && v.heard(from, heard_at).checked(
            now,
        ).peer_connections[i] == v.peer_connections[i],
{
    lemma_position_of_member(v.peers, from);
}

/// A second look for silent peers, at the same time or at another at which no further peer is
/// overdue, finds nothing more to do.
pub proof fn law_check_twice_is_check_once<A, P, C>(
    v: NetworkView<A, P, C>,
    now: u128,
    later: u128,
    k: int,
)
    requires
        v.wf(),
        0 <= k <= v.peers.len(),
        forall|i: int|
            0 <= i < v.peers.len() && #[trigger] v.overdue(i, later) ==> v.overdue(i, now),
    ensures
        v.checked(now).checked(later) == v.checked(now),
        v.checked(now).check_requests(later, k).len() == 0,
    decreases k,
{
    let once = v.checked(now);
    assert forall|i: int| 0 <= i < v.peers.len() implies !(#[trigger] once.overdue(i, later)) by {
        if once.overdue(i, later) {
            assert(v.overdue(i, later));
        }
    }
    assert(once.checked(later).peer_connections =~= once.peer_connections);
    assert(once.checked(later).reconnecting =~= once.reconnecting);
    if k > 0 {
        law_check_twice_is_check_once(v, now, later, k - 1);
        assert(!once.overdue(k - 1, later));
    }
}

/// A look for silent peers asks for a new connection to each peer that it drops and to which none
/// is being made, once, and for no other.
pub proof fn law_check_asks_once_for_each_dropped_peer<A, P, C>(
    v: NetworkView<A, P, C>,
    now: u128,
    k: int,
)
    requires
        v.wf(),
        0 <= k <= v.peers.len(),
    ensures
        forall|r: int|
            0 <= r < v.check_requests(now, k).len() ==> {
                let i = (#[trigger] v.check_requests(now, k)[r]).idx as int;
                &&& 0 <= i < k
                &&& v.check_requests(now, k)[r] == v.request(i)
                &&& v.overdue(i, now)
                &&& !v.reconnecting[i]
            },
        forall|r: int, q: int|
            0 <= r < q < v.check_requests(now, k).len() ==> (#[trigger] v.check_requests(
                now,
                k,
            )[r]).idx < (#[trigger] v.check_requests(now, k)[q]).idx,
        forall|i: int|
            0 <= i < k && #[trigger] v.overdue(i, now) && !v.reconnecting[i] ==> v.check_requests(
                now,
                k,
            ).contains(v.request(i)),
    decreases k,
{
    if k > 0 {
        law_check_asks_once_for_each_dropped_peer(v, now, k - 1);
        let front = v.check_requests(now, k - 1);
        let all = v.check_requests(now, k);
        assert forall|i: int|
            0 <= i < k && #[trigger] v.overdue(i, now) && !v.reconnecting[i] implies all.contains(
            v.request(i),
        ) by {
            if i < k - 1 {
                assert(front.contains(v.request(i)));
                let r = choose|r: int| 0 <= r < front.len() && front[r] == v.request(i);
                assert(all[r] == v.request(i));
            } else {
                assert(all[all.len() - 1] == v.request(i));
            }
        }
    }
}

/// While a new connection to a peer is being made, messages to it are dropped, and none of them
/// asks for another connection.
pub proof fn law_one_reconnect_at_a_time<A, P, C>(v: NetworkView<A, P, C>, to: NodeId)
    requires
        v.wf(),
        !(v.route(to) is Deliver),
        !(v.route(to) is UnknownNode),
    ensures
        v.routed(to).route(to) is Reconnecting,
        v.routed(to).routed(to) == v.routed(to),
{
    lemma_position_is_first(v.peers, to);
}

/// After a message could not be sent to a peer, or the peer was dropped for its silence, no
/// message goes out to it until it is connected again.
pub proof fn law_lost_peer_gets_no_message<A, P, C>(
    v: NetworkView<A, P, C>,
    to: NodeId,
    now: u128,
)
    requires
        v.wf(),
        v.peers.contains(to),
    ensures
        position(v.peers, to) matches Some(i) && {
            &&& v.send_failed(i).route(to) is Reconnecting
            &&& v.overdue(i, now) ==> v.checked(now).route(to) is Reconnecting
        },
{
    lemma_position_of_member(v.peers, to);
}

/// Whether every peer is connected or is being called.
pub open spec fn none_forgotten<A, P, C>(v: NetworkView<A, P, C>) -> bool {
    forall|i: int| 0 <= i < v.peers.len() ==> v.connected(i) || #[trigger] v.reconnecting[i]
}

/// No peer is forgotten: when the start is over every peer is connected, and from then on, until
/// the shutdown, every peer is connected or is being called.
pub proof fn law_no_peer_is_forgotten<A, P, C>(
    v: NetworkView<A, P, C>,
    node: NodeId,
    now: u128,
    i: int,
    connection: P,
)
    requires
        v.wf(),
        0 <= i < v.peers.len(),
    ensures
        v.all_connected() ==> none_forgotten(v),
        none_forgotten(v) ==> {
            &&& none_forgotten(v.checked(now))
            &&& none_forgotten(v.heard(node, now))
            &&& none_forgotten(v.routed(node))
            &&& none_forgotten(v.send_failed(i))
            &&& none_forgotten(v.with_connection(i, connection))
        },
{
    lemma_position_is_first(v.peers, node);
    if v.all_connected() {
        assert forall|j: int| 0 <= j < v.peers.len() implies v.connected(j)
            || #[trigger] v.reconnecting[j] by {
            assert(v.connected(j));
        }
    }
    if none_forgotten(v) {
        assert forall|j: int| 0 <= j < v.peers.len() implies v.checked(now).connected(j)
            || #[trigger] v.checked(now).reconnecting[j] by {
            assert(v.connected(j) || v.reconnecting[j]);
        }
        assert forall|j: int| 0 <= j < v.peers.len() implies v.routed(node).connected(j)
            || #[trigger] v.routed(node).reconnecting[j] by {
            assert(v.connected(j) || v.reconnecting[j]);
        }
        assert forall|j: int| 0 <= j < v.peers.len() implies v.send_failed(i).connected(j)
            || #[trigger] v.send_failed(i).reconnecting[j] by {
            assert(v.connected(j) || v.reconnecting[j]);
        }
    }
}

/// After a shutdown no message goes out to any node.
pub proof fn law_nothing_is_sent_after_shutdown<A, P, C>(
    v: NetworkView<A, P, C>,
    to: NodeId,
    client: ClientId,
)
    requires
        v.wf(),
    ensures
        !(v.shut_down().route(to) is Deliver),
        !v.shut_down().client_connections.contains_key(client),
{
    lemma_position_is_first(v.peers, to);
}

/// Whatever happens, the peers and their addresses stay the same, and every peer keeps its place.
pub proof fn law_peers_stay<A, P, C>(
    v: NetworkView<A, P, C>,
    node: NodeId,
    now: u128,
    i: int,
    connection: P,
)
    requires
        v.wf(),
        0 <= i < v.peers.len(),
    ensures
        forall|w: NetworkView<A, P, C>|
            (w == v.checked(now) || w == v.heard(node, now) || w == v.routed(node) || w
                == v.send_failed(i) || w == v.with_connection(i, connection) || w == v.shut_down())
                ==> {
                &&& #[trigger] w.wf()
                &&& w.id == v.id
                &&& w.peers == v.peers
                &&& w.addrs == v.addrs
            },
{
    lemma_position_is_first(v.peers, node);
}

/// The place of a node is the first at which it stands, and it has none exactly where it stands
/// nowhere.
pub proof fn law_place_is_the_first(s: Seq<NodeId>, id: NodeId)
    ensures
        position(s, id) is None <==> !s.contains(id),
        position(s, id) matches Some(i) ==> {
            &&& 0 <= i < s.len()
            &&& s[i] == id
            &&& forall|j: int| 0 <= j < i ==> #[trigger] s[j] != id
        },
{
    if s.contains(id) {
        lemma_position_of_member(s, id);
    }
    lemma_position_is_first(s, id);
}

/// Where a node stands first at a place, that is its place.
pub proof fn law_first_place_is_the_place(s: Seq<NodeId>, id: NodeId, i: int)
    requires
        0 <= i < s.len(),
        s[i] == id,
        forall|j: int| 0 <= j < i ==> #[trigger] s[j] != id,
    ensures
        position(s, id) == Some(i),
{
    lemma_position(s, id, i);
}

/// The nodes that have both an identifier and an address are as many as there are of the fewer.
pub proof fn law_paired_is_the_shorter<A>(nodes: Seq<NodeId>, addrs: Seq<A>)
    ensures
        paired(nodes, addrs) <= nodes.len(),
        paired(nodes, addrs) <= addrs.len(),
        paired(nodes, addrs) == nodes.len() || paired(nodes, addrs) == addrs.len(),
{
}

/// The peers are the nodes with another identifier than the server's own, in the order of the
/// cluster, each with the address at its own place.
pub proof fn law_peer_table_keeps_the_order<A>(
    id: NodeId,
    nodes: Seq<NodeId>,
    addrs: Seq<A>,
    k: int,
)
    requires
        0 <= k <= nodes.len(),
        k <= addrs.len(),
    ensures
        peer_table(id, nodes, addrs, k) == Seq::new(k as nat, |i: int| (nodes[i], addrs[i])).filter(
            |p: (NodeId, A)| p.0 != id,
        ),
    decreases k,
{
    let all = Seq::new(k as nat, |i: int| (nodes[i], addrs[i]));
    reveal(Seq::filter);
    if k > 0 {
        law_peer_table_keeps_the_order(id, nodes, addrs, k - 1);
        assert(all.drop_last() =~= Seq::new((k - 1) as nat, |i: int| (nodes[i], addrs[i])));
        assert(all.last() == (nodes[k - 1], addrs[k - 1]));
    }
}

/// A server that starts knows itself and its peers with their addresses, is connected to nobody,
/// calls nobody again, and counts every peer as heard from now.
pub proof fn law_server_starts_unconnected<A, P, C>(
    id: NodeId,
    table: Seq<(NodeId, A)>,
    now: u128,
    i: int,
)
    requires
        0 <= i < table.len(),
    ensures
        ({
            let v = NetworkView::<A, P, C>::unconnected(id, table, now);
            &&& v.id == id
            &&& v.client_connections == Map::<ClientId, C>::empty()
            &&& v.peers.len() == table.len()
            &&& v.addrs.len() == table.len()
            &&& v.peer_connections.len() == table.len()
            &&& v.reconnecting.len() == table.len()
            &&& v.last_heartbeat_ack.len() == table.len()
            &&& (v.peers[i], v.addrs[i]) == table[i]
            &&& v.peer_connections[i] is None
            &&& !v.reconnecting[i]
            &&& v.last_heartbeat_ack[i] == now
        }),
{
}

/// The sequences of a server match exactly where each has one element for each peer.
pub proof fn law_matching_means_one_element_for_each_peer<A, P, C>(v: NetworkView<A, P, C>)
    ensures
        v.wf() <==> v.peers.len() <= usize::MAX && v.addrs.len() == v.peers.len()
            && v.peer_connections.len() == v.peers.len() && v.reconnecting.len() == v.peers.len()
            && v.last_heartbeat_ack.len() == v.peers.len(),
{
}

/// A server calls exactly the peers with a lower identifier than its own, in their order, each at
/// its own address.
pub proof fn law_peers_are_dialled_in_order<A, P, C>(v: NetworkView<A, P, C>, k: int)
    requires
        v.wf(),
        0 <= k <= v.peers.len(),
    ensures
        v.dialled(k) == Seq::new(k as nat, |i: int| (v.peers[i], v.addrs[i])).filter(
            |p: (NodeId, A)| p.0 < v.id,
        ),
    decreases k,
{
    let all = Seq::new(k as nat, |i: int| (v.peers[i], v.addrs[i]));
    reveal(Seq::filter);
    if k > 0 {
        law_peers_are_dialled_in_order(v, k - 1);
        assert(all.drop_last() =~= Seq::new(
            (k - 1) as nat,
            |i: int| (v.peers[i], v.addrs[i]),
        ));
        assert(all.last() == (v.peers[k - 1], v.addrs[k - 1]));
    }
}

/// Of two nodes the one with the higher identifier calls.
pub proof fn law_higher_identifier_dials(me: NodeId, peer: NodeId)
    ensures
        dials(me, peer) <==> peer < me,
{
}

/// A server is connected to all its peers exactly where every place holds a connection.
pub proof fn law_connected_means_every_place_is_filled<A, P, C>(v: NetworkView<A, P, C>)
    ensures
        v.all_connected() <==> forall|i: int|
            0 <= i < v.peers.len() ==> (#[trigger] v.peer_connections[i]) is Some,
{
    if v.all_connected() {
        assert forall|i: int| 0 <= i < v.peers.len() implies (#[trigger] v.peer_connections[i])
            is Some by {
            assert(v.connected(i));
        }
    }
}

/// A connection that was made stands at its place, and nothing else changes.
pub proof fn law_connection_takes_its_place<A, P, C>(
    v: NetworkView<A, P, C>,
    i: int,
    connection: P,
    j: int,
)
    requires
        v.wf(),
        0 <= i < v.peers.len(),
        0 <= j < v.peers.len(),
    ensures
        ({
            let w = v.with_connection(i, connection);
            &&& w.peer_connections[i] == Some(connection)
            &&& j != i ==> w.peer_connections[j] == v.peer_connections[j]
            &&& w == NetworkView { peer_connections: w.peer_connections, ..v }
        }),
{
}

/// After a sign of life from a node the time at the place of that node is the given time, the time
/// at every other place is what it was, and nothing else changes.
pub proof fn law_heartbeat_counts_for_its_sender_alone<A, P, C>(
    v: NetworkView<A, P, C>,
    from: NodeId,
    now: u128,
    i: int,
)
    requires
        v.wf(),
        0 <= i < v.peers.len(),
    ensures
        ({
            let w = v.heard(from, now);
            &&& w == NetworkView { last_heartbeat_ack: w.last_heartbeat_ack, ..v }
            &&& w.last_heartbeat_ack.len() == v.last_heartbeat_ack.len()
            &&& v.peers[i] != from ==> w.last_heartbeat_ack[i] == v.last_heartbeat_ack[i]
            &&& v.peers[i] == from ==> if v.peers.take(i).contains(from) {
                w.last_heartbeat_ack[i] == v.last_heartbeat_ack[i]
            } else {
                w.last_heartbeat_ack[i] == now
            }
        }),
{
    let w = v.heard(from, now);
    law_place_is_the_first(v.peers, from);
    if let Some(at) = position(v.peers, from) {
        if v.peers.take(i).contains(from) {
            let j = choose|j: int| 0 <= j < i && v.peers.take(i)[j] == from;
            assert(v.peers[j] == from);
            assert(at != i);
        } else if v.peers[i] == from {
            if at < i {
                assert(v.peers.take(i)[at] == from);
            }
            assert(at == i);
        }
    } else {
        assert(v.peers[i] != from) by {
            if v.peers[i] == from {
                assert(v.peers.contains(from));
            }
        }
    }
}

/// After a run of signs of life, each from a node at a time.
pub open spec fn after_heartbeats<A, P, C>(
    v: NetworkView<A, P, C>,
    heartbeats: Seq<(NodeId, u128)>,
) -> NetworkView<A, P, C>
    decreases heartbeats.len(),
{
    if heartbeats.len() == 0 {
        v
    } else {
        after_heartbeats(v, heartbeats.drop_last()).heard(
            heartbeats.last().0,
            heartbeats.last().1,
        )
    }
}

/// A connected peer that has itself sent nothing for longer than eight seconds is dropped by the
/// next look, whatever other nodes have sent, and a new connection to it is asked for, unless one
/// is being made.
pub proof fn law_silence_is_found_whoever_else_speaks<A, P, C>(
    v: NetworkView<A, P, C>,
    heartbeats: Seq<(NodeId, u128)>,
    now: u128,
    i: int,
)
    requires
        v.wf(),
        0 <= i < v.peers.len(),
        v.peer_connections[i] is Some,
        now - v.last_heartbeat_ack[i] > 8_000_000_000,
        forall|j: int|
            0 <= j < heartbeats.len() ==> (#[trigger] heartbeats[j]).0 != v.peers[i],
    ensures
        ({
            let w = after_heartbeats(v, heartbeats);
            &&& w == NetworkView { last_heartbeat_ack: w.last_heartbeat_ack, ..v }
            &&& w.wf()
            &&& w.last_heartbeat_ack[i] == v.last_heartbeat_ack[i]
            &&& w.checked(now).peer_connections[i] is None
            &&& w.checked(now).reconnecting[i]
            &&& !v.reconnecting[i] ==> w.check_requests(now, v.peers.len() as int).contains(
                ReconnectRequest { peer: v.peers[i], idx: i as usize, address: v.addrs[i] },
            )
        }),
    decreases heartbeats.len(),
{
    let w = after_heartbeats(v, heartbeats);
    if heartbeats.len() > 0 {
        let front = heartbeats.drop_last();
        assert forall|j: int| 0 <= j < front.len() implies (#[trigger] front[j]).0
            != v.peers[i] by {
            assert(front[j] == heartbeats[j]);
        }
        law_silence_is_found_whoever_else_speaks(v, front, now, i);
        let before = after_heartbeats(v, front);
        assert(heartbeats[heartbeats.len() - 1].0 != v.peers[i]);
        law_heartbeat_counts_for_its_sender_alone(
            before,
            heartbeats.last().0,
            heartbeats.last().1,
            i,
        );
    }
    assert(w.overdue(i, now));
    law_check_asks_once_for_each_dropped_peer(w, now, v.peers.len() as int);
}

/// A look for silent peers takes the connection away from exactly those that are connected and
/// have been silent for more than eight seconds, and marks them as being called again. At every
/// other place, and of everything else, nothing changes.
pub proof fn law_check_drops_exactly_the_silent<A, P, C>(
    v: NetworkView<A, P, C>,
    now: u128,
    i: int,
)
    requires
        v.wf(),
        0 <= i < v.peers.len(),
    ensures
        ({
            let w = v.checked(now);
            let silent = now - v.last_heartbeat_ack[i] > 8_000_000_000;
            &&& w == NetworkView {
                peer_connections: w.peer_connections,
                reconnecting: w.reconnecting,
                ..v
            }
            &&& w.peer_connections.len() == v.peers.len()
            &&& w.reconnecting.len() == v.peers.len()
            &&& if v.peer_connections[i] is Some && silent {
                w.peer_connections[i] is None && w.reconnecting[i]
            } else {
                w.peer_connections[i] == v.peer_connections[i] && w.reconnecting[i]
                    == v.reconnecting[i]
            }
        }),
{
}

/// The new connections that a look for silent peers asks for are those to the peers that are
/// connected, have been silent for more than eight seconds and are not being called yet, in their
/// order; each request has the peer's identifier, place and address.
pub proof fn law_check_asks_in_order<A, P, C>(v: NetworkView<A, P, C>, now: u128, k: int)
    requires
        v.wf(),
        0 <= k <= v.peers.len(),
    ensures
        v.check_requests(now, k) == Seq::new(k as nat, |i: int| i).filter(
            |i: int|
                v.peer_connections[i] is Some && now - v.last_heartbeat_ack[i] > 8_000_000_000
                    && !v.reconnecting[i],
        ).map_values(
            |i: int|
                ReconnectRequest { peer: v.peers[i], idx: i as usize, address: v.addrs[i] },
        ),
    decreases k,
{
    let asked = |i: int|
        v.peer_connections[i] is Some && now - v.last_heartbeat_ack[i] > 8_000_000_000
            && !v.reconnecting[i];
    let request = |i: int|
        ReconnectRequest { peer: v.peers[i], idx: i as usize, address: v.addrs[i] };
    let all = Seq::new(k as nat, |i: int| i);
    reveal(Seq::filter);
    if k > 0 {
        law_check_asks_in_order(v, now, k - 1);
        assert(all.drop_last() =~= Seq::new((k - 1) as nat, |i: int| i));
        assert(all.last() == k - 1);
        assert(asked(k - 1) == (v.overdue(k - 1, now) && !v.reconnecting[k - 1]));
    }
    assert(v.check_requests(now, k) =~= all.filter(asked).map_values(request));
}

/// A message to a node goes out at a place exactly where that is the node's place among the peers
/// and holds a connection. Where the place holds none, a new connection to that node, at its own
/// address, is asked for, unless one is being made.
pub proof fn law_message_goes_to_its_node<A, P, C>(v: NetworkView<A, P, C>, to: NodeId, i: int)
    requires
        v.wf(),
        0 <= i < v.peers.len(),
        v.peers[i] == to,
        !v.peers.take(i).contains(to),
    ensures
        v.peer_connections[i] is Some ==> v.route(to) == SendRoute::<A>::Deliver(i as usize),
        v.peer_connections[i] is None && v.reconnecting[i] ==> v.route(to) is Reconnecting,
        v.peer_connections[i] is None && !v.reconnecting[i] ==> v.route(to) == SendRoute::Reconnect(
            ReconnectRequest { peer: to, idx: i as usize, address: v.addrs[i] },
        ),
{
    assert forall|j: int| 0 <= j < i implies #[trigger] v.peers[j] != to by {
        assert(v.peers.take(i)[j] == v.peers[j]);
    }
    lemma_position(v.peers, to, i);
}

/// Where a message to a node goes out at a place, that place is one of the peers', the peer there is
/// that node, and there is a connection there. Where a new connection is asked for, it is to that
/// node, which has none and is not being called. A message is to an unknown node exactly where the
/// node is no peer.
pub proof fn law_route_leads_to_the_node<A, P, C>(v: NetworkView<A, P, C>, to: NodeId)
    requires
        v.wf(),
    ensures
        match v.route(to) {
            SendRoute::Deliver(i) => i < v.peers.len() && v.peers[i as int] == to
                && v.peer_connections[i as int] is Some,
            SendRoute::Reconnect(r) => r.idx < v.peers.len() && v.peers[r.idx as int] == to
                && r.peer == to && r.address == v.addrs[r.idx as int]
                && v.peer_connections[r.idx as int] is None && !v.reconnecting[r.idx as int],
            SendRoute::Reconnecting => exists|i: int|
                0 <= i < v.peers.len() && #[trigger] v.peers[i] == to && v.peer_connections[i]
                    is None && v.reconnecting[i],
            SendRoute::UnknownNode => !v.peers.contains(to),
        },
        v.route(to) is UnknownNode <==> !v.peers.contains(to),
{
    law_place_is_the_first(v.peers, to);
    if let Some(i) = position(v.peers, to) {
        assert(v.peers[i] == to);
        assert(v.peers.contains(to));
    }
}

/// A message leaves everything as it is, but for the mark at the place of a node to which it asks
/// for a new connection: that node is now being called.
pub proof fn law_routing_marks_only_who_is_called<A, P, C>(
    v: NetworkView<A, P, C>,
    to: NodeId,
    j: int,
)
    requires
        v.wf(),
        0 <= j < v.peers.len(),
    ensures
        ({
            let w = v.routed(to);
            &&& w == NetworkView { reconnecting: w.reconnecting, ..v }
            &&& w.reconnecting.len() == v.reconnecting.len()
            &&& match v.route(to) {
                SendRoute::Reconnect(r) => if j == r.idx {
                    w.reconnecting[j]
                } else {
                    w.reconnecting[j] == v.reconnecting[j]
                },
                _ => w.reconnecting[j] == v.reconnecting[j],
            }
        }),
{
    law_route_leads_to_the_node(v, to);
}

/// A server that has taken in connections while it starts sends a message to a peer on the
/// connection that came from that peer, the last where several did.
pub proof fn law_message_goes_out_on_its_own_connection<A, P, C>(
    v: NetworkView<A, P, C>,
    connections: Seq<(NodeId, P)>,
    to: NodeId,
)
    requires
        v.wf(),
        v.peers.no_duplicates(),
        v.peers.contains(to),
        forall|i: int| 0 <= i < v.peers.len() ==> !(#[trigger] v.connected(i)),
        forall|j: int|
            0 <= j < connections.len() ==> v.peers.contains((#[trigger] connections[j]).0),
        connects(connections, to),
    ensures
        after_connections(v, connections).route(to) matches SendRoute::Deliver(i) && v.peers[i as int]
            == to && after_connections(v, connections).peer_connections[i as int] == latest(
            connections,
            to,
        ),
{
    law_start_waits_for_every_peer(v, connections);
    lemma_position_of_member(v.peers, to);
    let i = position(v.peers, to)->0;
    let w = after_connections(v, connections);
    assert(w.connected(i));
    assert(w.peer_connections[i] == latest(connections, v.peers[i]));
}

/// The connection that came last from a node is the one at the last place at which the node stands.
pub proof fn law_latest_is_the_last<P>(connections: Seq<(NodeId, P)>, i: int)
    requires
        0 <= i < connections.len(),
        forall|j: int| i < j < connections.len() ==> (#[trigger] connections[j]).0
            != connections[i].0,
    ensures
        latest(connections, connections[i].0) == Some(connections[i].1),
    decreases connections.len(),
{
    if i < connections.len() - 1 {
        let front = connections.drop_last();
        assert(connections[connections.len() - 1].0 != connections[i].0);
        assert forall|j: int| i < j < front.len() implies (#[trigger] front[j]).0
            != front[i].0 by {
            assert(front[j] == connections[j]);
        }
        law_latest_is_the_last(front, i);
    }
}

/// After a message could not be sent at a place, that place has no connection and the peer there is
/// being called; the call is to that peer, at its own address. Nothing else changes.
pub proof fn law_failed_send_costs_its_place_alone<A, P, C>(
    v: NetworkView<A, P, C>,
    i: int,
    j: int,
)
    requires
        v.wf(),
        0 <= i < v.peers.len(),
        0 <= j < v.peers.len(),
    ensures
        ({
            let w = v.send_failed(i);
            &&& w.peer_connections[i] is None
            &&& w.reconnecting[i]
            &&& j != i ==> w.peer_connections[j] == v.peer_connections[j] && w.reconnecting[j]
                == v.reconnecting[j]
            &&& w == NetworkView {
                peer_connections: w.peer_connections,
                reconnecting: w.reconnecting,
                ..v
            }
            &&& v.request(i) == ReconnectRequest {
                peer: v.peers[i],
                idx: i as usize,
                address: v.addrs[i],
            }
        }),
{
}

/// After a shutdown there is no connection at any place and none to any client, and nothing else
/// has changed.
pub proof fn law_shutdown_gives_up_every_connection<A, P, C>(v: NetworkView<A, P, C>, i: int)
    requires
        v.wf(),
        0 <= i < v.peers.len(),
    ensures
        ({
            let w = v.shut_down();
            &&& w.peer_connections.len() == v.peers.len()
            &&& w.peer_connections[i] is None
            &&& w.client_connections == Map::<ClientId, C>::empty()
            &&& w == NetworkView {
                peer_connections: w.peer_connections,
                client_connections: w.client_connections,
                ..v
            }
        }),
{
}

} // verus!
