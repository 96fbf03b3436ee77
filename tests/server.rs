use reframed::dispatch::{broadcast_fighter_info, broadcast_match_end, broadcast_training_end};
use reframed::protocol::FighterState;
use reframed::server::{Client, Server, CLIENT_QUEUE_BOUND};

#[test]
fn broadcast_reaches_every_client() {
    let mut server = Server::new();
    for s in [10, 11, 12] {
        server.add_client(s);
    }
    assert_eq!(server.client_count(), 3);
    server.broadcast(&[1, 2, 3]);
    assert_eq!(server.take_pending(11), vec![vec![1u8, 2, 3]]);
    server.broadcast(&[4]);
    assert_eq!(server.take_pending(10), vec![vec![1u8, 2, 3], vec![4]]);
    assert_eq!(server.take_pending(11), vec![vec![4u8]]);
    assert_eq!(server.take_pending(12), vec![vec![1u8, 2, 3], vec![4]]);
    assert!(server.take_pending(12).is_empty());
}

#[test]
fn removed_client_gets_nothing_more() {
    let mut server = Server::new();
    for s in [1, 2, 3] {
        server.add_client(s);
    }
    server.broadcast(&[7]);
    server.remove_client(2);
    server.broadcast(&[8]);
    assert_eq!(server.sockets(), vec![1, 3]);
    assert!(server.take_pending(2).is_empty());
    assert_eq!(server.take_pending(1), vec![vec![7u8], vec![8]]);
    assert_eq!(server.take_pending(3), vec![vec![7u8], vec![8]]);
    server.remove_client(42);
    assert_eq!(server.client_count(), 2);
}

#[test]
fn full_queue_drops_oldest() {
    let mut server = Server::new();
    server.add_client(5);
    server.add_client(6);
    for i in 0..CLIENT_QUEUE_BOUND + 2 {
        server.broadcast(&(i as u32).to_be_bytes());
        if i == 0 {
            server.take_pending(6);
        }
    }
    let q = server.take_pending(5);
    assert_eq!(q.len(), CLIENT_QUEUE_BOUND);
    assert_eq!(q[0], 2u32.to_be_bytes().to_vec());
    assert_eq!(q[CLIENT_QUEUE_BOUND - 1], ((CLIENT_QUEUE_BOUND + 1) as u32).to_be_bytes().to_vec());
    assert_eq!(server.take_pending(6).len(), CLIENT_QUEUE_BOUND);
}

#[test]
fn re_added_socket_starts_fresh() {
    let mut server = Server::new();
    server.add_client(5);
    server.broadcast(&[1]);
    server.add_client(5);
    assert_eq!(server.client_count(), 1);
    assert!(server.take_pending(5).is_empty());
}

#[test]
fn session_messages_fan_out() {
    let mut server = Server::new();
    server.add_client(1);
    server.add_client(2);
    broadcast_match_end(&mut server);
    broadcast_training_end(&mut server);
    let state = FighterState {
        frame: 1,
        entry_id: 0,
        pos_x_bits: 0,
        pos_y_bits: 0,
        damage: 0,
        hitstun: 0,
        shield: 0,
        status_kind: 0,
        motion_kind: 0,
        hit_status: 0,
        stock_count: 0,
        attack_connected: false,
        facing_positive: false,
        opponent_in_hitlag: false,
    };
    broadcast_fighter_info(&mut server, &state);
    for s in [1, 2] {
        let q = server.take_pending(s);
        assert_eq!(q.len(), 3);
        assert_eq!(q[0], vec![10u8]);
        assert_eq!(q[1], vec![14u8]);
        assert_eq!(q[2].len(), 30);
    }
}

#[test]
fn client_flags() {
    let mut c = Client::new(17);
    assert_eq!(c.socket(), 17);
    assert!(!c.allow_broadcasts());
    c.set_allow_broadcasts();
    assert!(c.allow_broadcasts());
}
