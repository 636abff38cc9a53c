use peer_mux::conn::{PeerConn, PeerConnInfo};
use peer_mux::peer::{Error, GlobalCtxEvent, Peer};

#[test]
fn close_peer() {
    let local_node = uuid::Uuid::new_v4().as_u128();
    let remote_node = uuid::Uuid::new_v4().as_u128();
    let mut local_peer = Peer::new(local_node);
    let mut remote_peer = Peer::new(remote_node);

    let local_conn_id = uuid::Uuid::new_v4().as_u128();
    let remote_conn_id = uuid::Uuid::new_v4().as_u128();
    local_peer.add_peer_conn(PeerConn::new(local_conn_id, local_node));
    remote_peer.add_peer_conn(PeerConn::new(remote_conn_id, remote_node));

    assert_eq!(local_peer.list_peer_conns().len(), 1);
    assert_eq!(remote_peer.list_peer_conns().len(), 1);

    assert!(local_peer.close_peer_conn(&local_conn_id).is_ok());
    let local_events = local_peer.drain_close_events();
    assert_eq!(
        local_events,
        vec![GlobalCtxEvent::PeerConnRemoved(PeerConnInfo {
            conn_id: local_conn_id,
            peer_node_id: local_node,
        })]
    );

    // the transport tear-down reaches the other side as an unsolicited
    // failure of its own connection
    remote_peer.notify_conn_closed(remote_conn_id);
    let remote_events = remote_peer.drain_close_events();
    assert_eq!(
        remote_events,
        vec![GlobalCtxEvent::PeerConnRemoved(PeerConnInfo {
            conn_id: remote_conn_id,
            peer_node_id: remote_node,
        })]
    );

    assert_eq!(local_peer.list_peer_conns().len(), 0);
    assert_eq!(remote_peer.list_peer_conns().len(), 0);
}

#[test]
fn listing_counts_distinct_additions() {
    let node: u128 = 42;
    let mut peer = Peer::new(node);
    peer.add_peer_conn(PeerConn::new(1, node));
    peer.add_peer_conn(PeerConn::new(2, node));
    peer.add_peer_conn(PeerConn::new(3, node));
    let infos = peer.list_peer_conns();
    assert_eq!(infos.len(), 3);
    for id in [1u128, 2, 3] {
        assert!(infos.iter().any(|i| i.conn_id == id && i.peer_node_id == node));
    }
}

#[test]
fn added_event_describes_the_connection() {
    let node: u128 = 5;
    let mut peer = Peer::new(node);
    let ev = peer.add_peer_conn(PeerConn::new(17, node));
    assert_eq!(
        ev,
        GlobalCtxEvent::PeerConnAdded(PeerConnInfo { conn_id: 17, peer_node_id: node })
    );
}

#[test]
fn close_unknown_conn_is_not_found() {
    let node: u128 = 7;
    let mut peer = Peer::new(node);
    peer.add_peer_conn(PeerConn::new(1, node));
    assert!(matches!(peer.close_peer_conn(&2), Err(Error::NotFound)));
    // asking again is just as harmless
    assert!(matches!(peer.close_peer_conn(&2), Err(Error::NotFound)));
    // the registry is untouched
    assert_eq!(peer.list_peer_conns().len(), 1);
}

#[test]
fn send_with_no_connection_names_the_peer() {
    let node: u128 = 90125;
    let peer = Peer::new(node);
    let r = peer.send_msg(vec![1, 2, 3]);
    assert!(matches!(r, Err(Error::PeerNoConnectionError(id)) if id == node));
}

#[test]
fn send_picks_the_live_connection_and_keeps_the_payload() {
    let node: u128 = 8;
    let mut peer = Peer::new(node);
    peer.add_peer_conn(PeerConn::new(33, node));
    let task = peer.send_msg(vec![0xde, 0xad, 0xbe, 0xef]).unwrap();
    assert_eq!(task.conn_id, 33);
    assert_eq!(task.payload, vec![0xde, 0xad, 0xbe, 0xef]);
}

#[test]
fn sends_hand_over_whole_payloads() {
    let node: u128 = 21;
    let mut peer = Peer::new(node);
    peer.add_peer_conn(PeerConn::new(9, node));
    for i in 0u8..10 {
        let payload = vec![i; 16];
        let task = peer.send_msg(payload.clone()).unwrap();
        assert_eq!(task.conn_id, 9);
        assert_eq!(task.payload, payload);
    }
}

#[test]
fn duplicate_close_reports_remove_once() {
    let node: u128 = 11;
    let mut peer = Peer::new(node);
    peer.add_peer_conn(PeerConn::new(4, node));
    // explicit close races an unsolicited failure of the same connection
    assert!(peer.close_peer_conn(&4).is_ok());
    peer.notify_conn_closed(4);
    let events = peer.drain_close_events();
    assert_eq!(
        events,
        vec![GlobalCtxEvent::PeerConnRemoved(PeerConnInfo { conn_id: 4, peer_node_id: node })]
    );
    assert_eq!(peer.list_peer_conns().len(), 0);
    // nothing left for a later wake-up of the funnel
    assert_eq!(peer.drain_close_events().len(), 0);
}

#[test]
fn funnel_keeps_unrelated_connections() {
    let node: u128 = 12;
    let mut peer = Peer::new(node);
    peer.add_peer_conn(PeerConn::new(1, node));
    peer.add_peer_conn(PeerConn::new(2, node));
    assert!(peer.close_peer_conn(&1).is_ok());
    let events = peer.drain_close_events();
    assert_eq!(events.len(), 1);
    let infos = peer.list_peer_conns();
    assert_eq!(infos.len(), 1);
    assert_eq!(infos[0].conn_id, 2);
}

#[test]
fn shutdown_is_idempotent_and_stops_the_funnel() {
    let node: u128 = 13;
    let mut peer = Peer::new(node);
    peer.add_peer_conn(PeerConn::new(6, node));
    assert!(!peer.has_shut_down());
    peer.shutdown();
    assert!(peer.has_shut_down());
    peer.shutdown();
    assert!(peer.has_shut_down());
    // a failure hook firing after shutdown is dropped, not queued
    peer.notify_conn_closed(6);
    assert_eq!(peer.drain_close_events().len(), 0);
    // the still-registered connection is not forcibly closed
    assert_eq!(peer.list_peer_conns().len(), 1);
}
