use futures_channel::mpsc::unbounded;
use rustcroft::{Conn, Frame, PeerAddr, Phase, Registry};

fn addr(n: u16) -> PeerAddr {
    PeerAddr { ip: 1, port: n }
}

#[test]
fn accepted_upgrade_registers_and_teardown_removes() {
    let mut reg = Registry::new();
    let mut conn = Conn::begin(addr(1), 7);
    assert_eq!(conn.phase, Phase::Handshaking);
    let (tx, _rx) = unbounded::<Frame>();
    conn.upgrade(&mut reg, "/ws", "/ws", tx).unwrap();
    assert_eq!(conn.phase, Phase::Ready);
    assert_eq!(reg.len(), 1);
    conn.side_finished(&mut reg);
    assert_eq!(conn.phase, Phase::Draining);
    assert_eq!(reg.len(), 0);
    conn.teardown_done();
    assert_eq!(conn.phase, Phase::Closed);
}

#[test]
fn refused_upgrade_leaves_registry_untouched() {
    let mut reg = Registry::new();
    let (tx0, _rx0) = unbounded::<Frame>();
    let mut resident = Conn::begin(addr(1), 1);
    resident.upgrade(&mut reg, "/ws", "/ws", tx0).unwrap();
    assert_eq!(reg.len(), 1);

    let mut conn = Conn::begin(addr(2), 2);
    let (tx, _rx) = unbounded::<Frame>();
    let rej = conn.upgrade(&mut reg, "/other", "/ws", tx).unwrap_err();
    assert_eq!(rej.status, 404);
    assert_eq!(rej.body, "This is not the endpoint you're looking for");
    assert_eq!(conn.phase, Phase::Closed);
    assert_eq!(reg.len(), 1);
}

#[test]
fn stale_teardown_spares_newer_connection() {
    // A client disconnects and reconnects from the same address before the
    // old handler has torn down: the old handler's teardown must not erase
    // the newer registration.
    let mut reg = Registry::new();
    let (tx_old, _rx_old) = unbounded::<Frame>();
    let mut old_conn = Conn::begin(addr(1), 1);
    old_conn.upgrade(&mut reg, "/ws", "/ws", tx_old).unwrap();

    let (tx_new, mut rx_new) = unbounded::<Frame>();
    let mut new_conn = Conn::begin(addr(1), 2);
    new_conn.upgrade(&mut reg, "/ws", "/ws", tx_new).unwrap();
    assert_eq!(reg.len(), 1);

    old_conn.side_finished(&mut reg);
    old_conn.teardown_done();
    assert_eq!(reg.len(), 1, "the newer entry must survive the stale teardown");

    let report = reg.broadcast(&Frame::Text(String::from("to the new one")));
    assert_eq!(report, vec![(addr(1), true)]);
    match rx_new.try_recv().unwrap() {
        Frame::Text(s) => assert_eq!(s, "to the new one"),
        Frame::Binary(_) => panic!("expected text"),
    }

    new_conn.side_finished(&mut reg);
    assert_eq!(reg.len(), 0);
}

#[test]
fn one_connection_failing_spares_the_others() {
    let mut reg = Registry::new();
    let (tx_a, mut rx_a) = unbounded::<Frame>();
    let (tx_b, _rx_b) = unbounded::<Frame>();
    let mut conn_a = Conn::begin(addr(1), 1);
    let mut conn_b = Conn::begin(addr(2), 2);
    conn_a.upgrade(&mut reg, "/ws", "/ws", tx_a).unwrap();
    conn_b.upgrade(&mut reg, "/ws", "/ws", tx_b).unwrap();

    // B's socket dies; its handler drains and tears down alone.
    conn_b.side_finished(&mut reg);
    conn_b.teardown_done();
    assert_eq!(reg.len(), 1);

    // A is unaffected and still receives broadcasts.
    let report = reg.broadcast(&Frame::Text(String::from("still up")));
    assert_eq!(report, vec![(addr(1), true)]);
    match rx_a.try_recv().unwrap() {
        Frame::Text(s) => assert_eq!(s, "still up"),
        Frame::Binary(_) => panic!("expected text"),
    }
}
