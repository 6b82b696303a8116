use futures_channel::mpsc::{unbounded, UnboundedReceiver};
use rustcroft::{broadcast_frame_of, route_decision, Frame, PeerAddr, Registry, WireMsg};

fn addr(n: u16) -> PeerAddr {
    PeerAddr { ip: 0x7f000001, port: n }
}

fn expect_text(rx: &mut UnboundedReceiver<Frame>, want: &str) {
    match rx.try_recv().unwrap() {
        Frame::Text(s) => assert_eq!(s, want),
        Frame::Binary(_) => panic!("expected a text frame"),
    }
}

fn expect_binary(rx: &mut UnboundedReceiver<Frame>, want: &[u8]) {
    match rx.try_recv().unwrap() {
        Frame::Binary(b) => assert_eq!(b, want),
        Frame::Text(_) => panic!("expected a binary frame"),
    }
}

#[test]
fn route_gate_matching_path() {
    assert!(route_decision("/ws", "/ws").is_ok());
}

#[test]
fn route_gate_wrong_path() {
    let r = route_decision("/other", "/ws");
    match r {
        Ok(()) => panic!("a wrong path must be refused"),
        Err(rej) => {
            assert_eq!(rej.status, 404);
            assert_eq!(rej.body, "This is not the endpoint you're looking for");
        }
    }
}

#[test]
fn registry_insert_and_remove() {
    let mut reg = Registry::new();
    assert_eq!(reg.len(), 0);
    let (tx, _rx) = unbounded::<Frame>();
    reg.insert(addr(1), 10, tx);
    assert_eq!(reg.len(), 1);
    reg.remove(addr(1), 10);
    assert_eq!(reg.len(), 0);
}

#[test]
fn remove_of_absent_peer_is_noop() {
    let mut reg = Registry::new();
    let (tx, _rx) = unbounded::<Frame>();
    reg.insert(addr(1), 10, tx);
    reg.remove(addr(2), 10);
    assert_eq!(reg.len(), 1);
    reg.remove(addr(2), 10);
    assert_eq!(reg.len(), 1);
}

#[test]
fn stale_remove_keeps_newer_entry() {
    // A connection from a reused address registers under a new token before
    // the old handler's removal runs; the stale remove must not erase it.
    let mut reg = Registry::new();
    let (tx_old, _rx_old) = unbounded::<Frame>();
    reg.insert(addr(1), 10, tx_old);
    let (tx_new, mut rx_new) = unbounded::<Frame>();
    reg.insert(addr(1), 11, tx_new);
    assert_eq!(reg.len(), 1);
    reg.remove(addr(1), 10);
    assert_eq!(reg.len(), 1);
    let report = reg.broadcast(&Frame::Text(String::from("still here")));
    assert_eq!(report.len(), 1);
    assert!(report[0].1);
    expect_text(&mut rx_new, "still here");
    reg.remove(addr(1), 11);
    assert_eq!(reg.len(), 0);
}

#[test]
fn single_peer_echo() {
    let mut reg = Registry::new();
    let (tx, mut rx) = unbounded::<Frame>();
    reg.insert(addr(1), 1, tx);
    let report = reg.broadcast(&Frame::Text(String::from("hello")));
    assert_eq!(report.len(), 1);
    assert_eq!(report[0].0, addr(1));
    assert!(report[0].1);
    expect_text(&mut rx, "hello");
    assert!(rx.try_recv().is_err());
}

#[test]
fn two_peer_binary_broadcast() {
    let mut reg = Registry::new();
    let (tx_a, mut rx_a) = unbounded::<Frame>();
    let (tx_b, mut rx_b) = unbounded::<Frame>();
    reg.insert(addr(1), 1, tx_a);
    reg.insert(addr(2), 2, tx_b);
    let report = reg.broadcast(&Frame::Binary(vec![0x01, 0x02, 0x03]));
    assert_eq!(report.len(), 2);
    assert!(report.iter().all(|(_, ok)| *ok));
    expect_binary(&mut rx_a, &[0x01, 0x02, 0x03]);
    expect_binary(&mut rx_b, &[0x01, 0x02, 0x03]);
}

#[test]
fn fan_out_of_ten_includes_sender() {
    let mut reg = Registry::new();
    let mut receivers = Vec::new();
    for i in 0..10u16 {
        let (tx, rx) = unbounded::<Frame>();
        reg.insert(addr(i), u64::from(i), tx);
        receivers.push(rx);
    }
    let report = reg.broadcast(&Frame::Text(String::from("ping")));
    assert_eq!(report.len(), 10);
    for (i, rx) in receivers.iter_mut().enumerate() {
        assert_eq!(report[i].0, addr(i as u16));
        assert!(report[i].1);
        expect_text(rx, "ping");
        assert!(rx.try_recv().is_err(), "each peer receives exactly one ping");
    }
}

#[test]
fn torn_down_peer_is_skipped_and_others_deliver() {
    let mut reg = Registry::new();
    let (tx_a, mut rx_a) = unbounded::<Frame>();
    let (tx_b, rx_b) = unbounded::<Frame>();
    reg.insert(addr(1), 1, tx_a);
    reg.insert(addr(2), 2, tx_b);
    drop(rx_b);
    let report = reg.broadcast(&Frame::Text(String::from("hi")));
    assert_eq!(report.len(), 2);
    assert_eq!(report[0], (addr(1), true));
    assert_eq!(report[1], (addr(2), false));
    expect_text(&mut rx_a, "hi");
    reg.remove(addr(2), 2);
    assert_eq!(reg.len(), 1);
    let report = reg.broadcast(&Frame::Text(String::from("again")));
    assert_eq!(report.len(), 1);
    assert!(report[0].1);
    expect_text(&mut rx_a, "again");
}

#[test]
fn frame_policy_keeps_payload_and_kind() {
    match broadcast_frame_of(WireMsg::Text(String::from("abc"))) {
        Some(Frame::Text(s)) => assert_eq!(s, "abc"),
        _ => panic!("a text frame is relayed as text"),
    }
    match broadcast_frame_of(WireMsg::Binary(vec![0, 255, 7])) {
        Some(Frame::Binary(b)) => assert_eq!(b, vec![0, 255, 7]),
        _ => panic!("a binary frame is relayed as binary"),
    }
    assert!(broadcast_frame_of(WireMsg::Control).is_none());
}

#[test]
fn frames_arrive_in_broadcast_order() {
    let mut reg = Registry::new();
    let (tx, mut rx) = unbounded::<Frame>();
    reg.insert(addr(1), 1, tx);
    reg.broadcast(&Frame::Text(String::from("first")));
    reg.broadcast(&Frame::Binary(vec![2]));
    reg.broadcast(&Frame::Text(String::from("third")));
    expect_text(&mut rx, "first");
    expect_binary(&mut rx, &[2]);
    expect_text(&mut rx, "third");
    assert!(rx.try_recv().is_err());
}

#[test]
fn membership_is_observable() {
    let mut reg = Registry::new();
    assert!(!reg.contains(addr(1)));
    let (tx, _rx) = unbounded::<Frame>();
    reg.insert(addr(1), 5, tx);
    assert!(reg.contains(addr(1)));
    assert!(!reg.contains(addr(2)));
    reg.remove(addr(1), 5);
    assert!(!reg.contains(addr(1)));
}
