use omnipaxos_kv::dial::{
    dial_step, ClientRegistry, DialAction, DialEvent, DialPurpose, Handshake, IncomingRoute,
};
use omnipaxos_kv::kv::RegistrationMessage;
use omnipaxos_kv::link::{
    ForwardFailure, LinkKind, ReadAction, ReadLoop, WriteEvent, WriteLoop, WriteState,
};
use omnipaxos_kv::network::{listen_address, Network, SendRoute, HEARTBEAT_TIMEOUT_NANOS};

const T: u128 = HEARTBEAT_TIMEOUT_NANOS;

fn network(id: u64) -> Network<u16, &'static str, &'static str> {
    Network::new(id, &vec![1, 2, 3], &vec![8001, 8002, 8003], 1000)
}

fn connected() -> Network<u16, &'static str, &'static str> {
    let mut n = network(2);
    assert!(!n.connect_peer(3, "to 3"));
    assert!(n.connect_peer(1, "to 1"));
    n
}

#[test]
fn listen_address_is_host_and_port() {
    assert_eq!(listen_address("127.0.0.1", 8001), "127.0.0.1:8001");
    assert_eq!(listen_address("", 0), ":0");
    assert_eq!(listen_address("h", 65535), "h:65535");
}

#[test]
fn timeout_is_eight_seconds() {
    assert_eq!(T, std::time::Duration::from_secs(8).as_nanos());
}

#[test]
fn peers_are_the_others() {
    let n = network(2);
    assert_eq!(n.cluster_id_to_idx(1), Some(0));
    assert_eq!(n.cluster_id_to_idx(3), Some(1));
    assert_eq!(n.cluster_id_to_idx(2), None);
    assert_eq!(n.cluster_id_to_idx(4), None);
    assert_eq!(n.socket_addr, vec![8001, 8003]);
    assert_eq!(n.reconnecting, vec![false, false]);
    assert_eq!(n.last_heartbeat_ack, vec![1000, 1000]);
    assert_eq!(n.peer_connections, vec![None, None]);
}

#[test]
fn nodes_without_address_are_left_out() {
    let n: Network<u16, (), ()> = Network::new(9, &vec![1, 2, 3], &vec![8001, 8002], 0);
    assert_eq!(n.socket_addr, vec![8001, 8002]);
    assert_eq!(n.cluster_id_to_idx(3), None);
}

#[test]
fn peers_with_lower_ids_are_dialled() {
    assert_eq!(network(1).peers_to_dial(), vec![]);
    assert_eq!(network(2).peers_to_dial(), vec![(1, 8001)]);
    assert_eq!(network(3).peers_to_dial(), vec![(1, 8001), (2, 8002)]);
}

#[test]
fn start_is_over_when_every_peer_is_connected() {
    let mut n = network(1);
    assert!(!n.connect_peer(2, "first"));
    assert!(!n.connect_peer(2, "again"));
    assert!(n.connect_peer(3, "last"));
    assert_eq!(n.peer_connections, vec![Some("again"), Some("last")]);
}

#[test]
fn lone_server_has_started() {
    let n: Network<u16, (), ()> = Network::new(1, &vec![1], &vec![8001], 0);
    assert!(n.every_peer_connected());
    assert!(n.peer_connections.is_empty());
    assert!(n.socket_addr.is_empty());
    assert!(n.reconnecting.is_empty());
    assert!(n.peers_to_dial().is_empty());
}

#[test]
fn server_with_peers_has_not_started() {
    assert!(!network(2).every_peer_connected());
    assert!(connected().every_peer_connected());
}

#[test]
fn later_check_without_further_silence_does_nothing() {
    let mut n = connected();
    n.update_heartbeat_ack(3, 5000);
    assert_eq!(n.check_heartbeat_timeouts(1001 + T).len(), 1);
    assert!(n.check_heartbeat_timeouts(5000 + T).is_empty());
    assert_eq!(n.peer_connections, vec![None, Some("to 3")]);
    assert_eq!(n.check_heartbeat_timeouts(5001 + T).len(), 1);
}

#[test]
fn readable_items_are_forwarded() {
    let mut r = ReadLoop::new(LinkKind::Client);
    let mut forwarded = Vec::new();
    for chunk in [vec![Some(1), None, Some(2)], vec![], vec![None, Some(3)]] {
        r.begin_chunk();
        for item in chunk {
            if r.item(item.is_some()) == ReadAction::Forward {
                forwarded.push(item.unwrap());
            }
        }
    }
    assert_eq!(forwarded, vec![1, 2, 3]);
}

#[test]
fn silent_peer_is_dropped_after_the_timeout() {
    let mut n = connected();
    n.update_heartbeat_ack(3, 5000);
    assert!(n.check_heartbeat_timeouts(1000 + T).is_empty());
    let asked = n.check_heartbeat_timeouts(1001 + T);
    assert_eq!(asked.len(), 1);
    assert_eq!((asked[0].peer, asked[0].idx, asked[0].address), (1, 0, 8001));
    assert_eq!(n.peer_connections, vec![None, Some("to 3")]);
    assert_eq!(n.reconnecting, vec![true, false]);
    assert!(n.check_heartbeat_timeouts(1001 + T).is_empty());
}

#[test]
fn every_silent_peer_is_dropped_in_order() {
    let mut n = connected();
    let asked: Vec<u64> = n.check_heartbeat_timeouts(u128::MAX).iter().map(|r| r.peer).collect();
    assert_eq!(asked, vec![1, 3]);
    assert_eq!(n.peer_connections, vec![None, None]);
}

#[test]
fn a_peer_that_is_being_called_is_not_called_again() {
    let mut n = connected();
    n.reconnecting[0] = true;
    let asked: Vec<u64> = n.check_heartbeat_timeouts(u128::MAX).iter().map(|r| r.peer).collect();
    assert_eq!(asked, vec![3]);
    assert_eq!(n.peer_connections, vec![None, None]);
}

#[test]
fn clock_that_stands_before_the_last_ack_drops_nobody() {
    let mut n = connected();
    assert!(n.check_heartbeat_timeouts(0).is_empty());
    assert_eq!(n.peer_connections, vec![Some("to 1"), Some("to 3")]);
}

#[test]
fn heartbeat_of_a_stranger_counts_for_nothing() {
    let mut n = connected();
    n.update_heartbeat_ack(7, 5000);
    assert_eq!(n.last_heartbeat_ack, vec![1000, 1000]);
    n.update_heartbeat_ack(3, 6000);
    assert_eq!(n.last_heartbeat_ack, vec![1000, 6000]);
}

#[test]
fn message_goes_out_on_the_connection() {
    let mut n = connected();
    assert!(matches!(n.send_to_cluster(1), SendRoute::Deliver(0)));
    assert!(matches!(n.send_to_cluster(3), SendRoute::Deliver(1)));
    assert!(matches!(n.send_to_cluster(2), SendRoute::UnknownNode));
}

#[test]
fn message_to_an_unconnected_peer_asks_for_a_connection_once() {
    let mut n = network(1);
    match n.send_to_cluster(3) {
        SendRoute::Reconnect(r) => assert_eq!((r.peer, r.idx, r.address), (3, 1, 8003)),
        _ => panic!("no request"),
    }
    assert!(matches!(n.send_to_cluster(3), SendRoute::Reconnecting));
    assert_eq!(n.reconnecting, vec![false, true]);
}

#[test]
fn failed_send_drops_the_connection() {
    let mut n = connected();
    let r = n.peer_send_failed(1);
    assert_eq!((r.peer, r.idx, r.address), (3, 1, 8003));
    assert_eq!(n.peer_connections, vec![Some("to 1"), None]);
    assert!(matches!(n.send_to_cluster(3), SendRoute::Reconnecting));
    assert!(matches!(n.send_to_cluster(1), SendRoute::Deliver(0)));
}

#[test]
fn clients_are_forgotten_after_a_failed_send() {
    let mut n = network(1);
    n.client_connections.insert(5, "five");
    n.client_connections.insert(6, "six");
    assert!(n.send_to_client(5));
    assert!(!n.send_to_client(7));
    n.client_send_failed(5);
    n.client_send_failed(7);
    assert!(!n.send_to_client(5));
    assert!(n.send_to_client(6));
}

#[test]
fn shutdown_gives_up_every_connection() {
    let mut n = connected();
    n.client_connections.insert(5, "five");
    let (clients, peers) = n.shutdown();
    assert_eq!(clients.len(), 1);
    assert_eq!(clients.get(&5), Some(&"five"));
    assert_eq!(peers, vec![Some("to 1"), Some("to 3")]);
    assert_eq!(n.peer_connections, vec![None, None]);
    assert!(n.client_connections.is_empty());
    assert!(matches!(n.send_to_cluster(1), SendRoute::Reconnect(_)));
}

#[test]
fn clients_are_numbered_from_one() {
    let mut r = ClientRegistry::new();
    assert!(r.has_room());
    let client = || Handshake::Message(RegistrationMessage::ClientRegister);
    assert_eq!(r.handle_incoming_connection(client()), IncomingRoute::Client(1));
    let node = Handshake::Message(RegistrationMessage::NodeRegister(9));
    assert_eq!(r.handle_incoming_connection(node), IncomingRoute::Peer(9));
    assert_eq!(r.handle_incoming_connection(Handshake::Malformed), IncomingRoute::Malformed);
    assert_eq!(r.handle_incoming_connection(Handshake::Closed), IncomingRoute::Unidentified);
    assert_eq!(r.handle_incoming_connection(client()), IncomingRoute::Client(2));
}

#[test]
fn calls_to_peers() {
    for purpose in [DialPurpose::Startup, DialPurpose::Reconnect] {
        assert_eq!(dial_step(&purpose, 4, DialEvent::ConnectFailed), DialAction::Connect);
        assert_eq!(
            dial_step(&purpose, 4, DialEvent::Connected),
            DialAction::SendHandshake(RegistrationMessage::NodeRegister(4))
        );
        assert_eq!(dial_step(&purpose, 4, DialEvent::HandshakeSent), DialAction::HandOver);
    }
    assert_eq!(dial_step(&DialPurpose::Startup, 4, DialEvent::HandshakeFailed), DialAction::GiveUp);
    assert_eq!(dial_step(&DialPurpose::Reconnect, 4, DialEvent::HandshakeFailed), DialAction::ReportFailure);
}

#[test]
fn peer_reader_leaves_out_the_rest_of_a_chunk() {
    let mut r = ReadLoop::new(LinkKind::Peer);
    r.begin_chunk();
    assert_eq!(r.item(true), ReadAction::Forward);
    assert_eq!(r.item(false), ReadAction::Report);
    assert_eq!(r.forward_failed(), ForwardFailure::SkipRest);
    assert_eq!(r.item(true), ReadAction::Skip);
    assert_eq!(r.item(false), ReadAction::Skip);
    r.begin_chunk();
    assert_eq!(r.item(true), ReadAction::Forward);
}

#[test]
fn client_reader_stops() {
    let mut r = ReadLoop::new(LinkKind::Client);
    assert_eq!(r.item(true), ReadAction::Forward);
    assert_eq!(r.forward_failed(), ForwardFailure::Stop);
    assert_eq!(r.item(true), ReadAction::Skip);
    for _ in 0..3 {
        r.begin_chunk();
        assert_eq!(r.item(true), ReadAction::Skip);
        assert_eq!(r.item(false), ReadAction::Skip);
    }
}

/// Runs a writer on batches of messages; those in `bad` cannot be written.
fn write_batches(kind: LinkKind, batches: &[&[u32]], bad: &[u32]) -> Vec<u32> {
    let mut w = WriteLoop::new(kind);
    let mut batches = batches.iter();
    let mut batch: Vec<u32> = Vec::new();
    let mut written = Vec::new();
    loop {
        let event = match w.state() {
            WriteState::Receive => {
                batch = batches.next().map(|b| b.to_vec()).unwrap_or_default();
                WriteEvent::Batch(batch.len())
            }
            WriteState::Feed { left } => {
                let message = batch[batch.len() - left];
                if bad.contains(&message) {
                    WriteEvent::FeedFailed
                } else {
                    written.push(message);
                    WriteEvent::FeedOk
                }
            }
            WriteState::Flush => WriteEvent::FlushOk,
            WriteState::Closed => return written,
        };
        w.step(event);
    }
}

#[test]
fn messages_are_written_in_order() {
    for kind in [LinkKind::Peer, LinkKind::Client] {
        assert_eq!(write_batches(kind, &[&[1, 2], &[3], &[4, 5, 6]], &[]), vec![1, 2, 3, 4, 5, 6]);
        assert!(write_batches(kind, &[], &[]).is_empty());
    }
}

#[test]
fn client_is_sent_a_prefix() {
    let batches: &[&[u32]] = &[&[1, 2], &[3, 4, 5], &[6]];
    assert_eq!(write_batches(LinkKind::Client, batches, &[4]), vec![1, 2, 3]);
    assert!(write_batches(LinkKind::Client, batches, &[1]).is_empty());
}

#[test]
fn peer_misses_the_rest_of_a_batch() {
    let batches: &[&[u32]] = &[&[1, 2], &[3, 4, 5], &[6]];
    assert_eq!(write_batches(LinkKind::Peer, batches, &[4]), vec![1, 2, 3, 6]);
    assert_eq!(write_batches(LinkKind::Peer, batches, &[1, 5]), vec![3, 4, 6]);
}

#[test]
fn writer_feeds_a_batch_and_flushes() {
    for kind in [LinkKind::Peer, LinkKind::Client] {
        let mut w = WriteLoop::new(kind);
        assert_eq!(w.state(), WriteState::Receive);
        assert_eq!(w.step(WriteEvent::Batch(2)), WriteState::Feed { left: 2 });
        assert_eq!(w.step(WriteEvent::FeedOk), WriteState::Feed { left: 1 });
        assert_eq!(w.step(WriteEvent::FeedOk), WriteState::Flush);
        assert_eq!(w.step(WriteEvent::FlushOk), WriteState::Receive);
        assert_eq!(w.step(WriteEvent::Batch(0)), WriteState::Closed);
        assert_eq!(w.step(WriteEvent::Batch(5)), WriteState::Closed);
    }
}

#[test]
fn writer_after_a_failure() {
    let mut peer = WriteLoop::new(LinkKind::Peer);
    peer.step(WriteEvent::Batch(3));
    assert_eq!(peer.step(WriteEvent::FeedFailed), WriteState::Flush);
    assert_eq!(peer.step(WriteEvent::FlushFailed), WriteState::Closed);
    let mut client = WriteLoop::new(LinkKind::Client);
    client.step(WriteEvent::Batch(3));
    assert_eq!(client.step(WriteEvent::FeedFailed), WriteState::Closed);
    assert_eq!(client.step(WriteEvent::FlushOk), WriteState::Closed);
    let mut flushing = WriteLoop::new(LinkKind::Client);
    flushing.step(WriteEvent::Batch(1));
    flushing.step(WriteEvent::FeedOk);
    assert_eq!(flushing.step(WriteEvent::FlushFailed), WriteState::Closed);
}

#[test]
fn no_peer_is_forgotten() {
    let mut n = connected();
    n.check_heartbeat_timeouts(u128::MAX);
    assert_eq!(n.reconnecting, vec![true, true]);
    n.connect_peer(1, "again");
    n.peer_send_failed(0);
    n.send_to_cluster(3);
    for i in 0..2 {
        assert!(n.peer_connections[i].is_some() || n.reconnecting[i]);
    }
}
