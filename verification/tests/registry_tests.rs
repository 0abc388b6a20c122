use futures_channel::mpsc::{unbounded, UnboundedReceiver};
use relay_core::frame::Frame;
use relay_core::registry::Registry;

fn recv_all(rx: &mut UnboundedReceiver<Frame>) -> Vec<Vec<u8>> {
    let mut out = Vec::new();
    while let Ok(Some(f)) = rx.try_next() {
        out.push(f.payload().clone());
    }
    out
}

#[test]
fn size_tracks_inserts_and_removes() {
    let mut reg = Registry::new();
    assert_eq!(reg.size(), 0);

    let (tx1, _rx1) = unbounded::<Frame>();
    let (tx2, _rx2) = unbounded::<Frame>();
    reg.insert(1, tx1);
    reg.insert(2, tx2);
    assert_eq!(reg.size(), 2);
    assert!(reg.contains(1));
    assert!(reg.contains(2));
    assert!(!reg.contains(3));

    reg.remove(1);
    assert_eq!(reg.size(), 1);
    assert!(!reg.contains(1));
    assert!(reg.contains(2));
}

#[test]
fn remove_of_absent_id_is_a_no_op() {
    let mut reg = Registry::new();
    let (tx, _rx) = unbounded::<Frame>();
    reg.insert(7, tx);
    reg.remove(42);
    assert_eq!(reg.size(), 1);
    assert!(reg.contains(7));
}

#[test]
fn snapshot_excludes_the_sender() {
    let mut reg = Registry::new();
    let (tx1, _rx1) = unbounded::<Frame>();
    let (tx2, _rx2) = unbounded::<Frame>();
    let (tx3, _rx3) = unbounded::<Frame>();
    reg.insert(1, tx1);
    reg.insert(2, tx2);
    reg.insert(3, tx3);

    let snapshot = reg.snapshot_others(2);
    let ids: Vec<u64> = snapshot.iter().map(|e| e.id).collect();
    assert_eq!(ids, vec![1, 3]);
}

#[test]
fn snapshot_is_a_point_in_time_copy() {
    let mut reg = Registry::new();
    let (tx1, _rx1) = unbounded::<Frame>();
    let (tx2, _rx2) = unbounded::<Frame>();
    reg.insert(1, tx1);
    reg.insert(2, tx2);

    let snapshot = reg.snapshot_others(0);
    reg.remove(2);
    // The earlier snapshot still holds the entry removed afterwards.
    let ids: Vec<u64> = snapshot.iter().map(|e| e.id).collect();
    assert_eq!(ids, vec![1, 2]);
    assert_eq!(reg.size(), 1);
}

#[test]
fn broadcast_reaches_every_other_connection() {
    let mut reg = Registry::new();
    let (tx1, mut rx1) = unbounded::<Frame>();
    let (tx2, mut rx2) = unbounded::<Frame>();
    let (tx3, mut rx3) = unbounded::<Frame>();
    reg.insert(1, tx1);
    reg.insert(2, tx2);
    reg.insert(3, tx3);

    let msg = Frame::Text(b"hi all".to_vec());
    let outcomes = relay_core::router::broadcast_from(&reg, 1, &msg);
    assert_eq!(outcomes.len(), 2);
    assert_eq!(outcomes[0], (2, true));
    assert_eq!(outcomes[1], (3, true));

    assert_eq!(recv_all(&mut rx1), Vec::<Vec<u8>>::new());
    assert_eq!(recv_all(&mut rx2), vec![b"hi all".to_vec()]);
    assert_eq!(recv_all(&mut rx3), vec![b"hi all".to_vec()]);
}

#[test]
fn hello_is_relayed_once_and_not_echoed() {
    // Two clients; the first sends the binary payload "hello"; the second
    // receives it unmodified, exactly once; the sender receives nothing.
    let mut reg = Registry::new();
    let (tx1, mut rx1) = unbounded::<Frame>();
    let (tx2, mut rx2) = unbounded::<Frame>();
    reg.insert(1, tx1);
    reg.insert(2, tx2);

    let msg = Frame::Binary(b"hello".to_vec());
    let outcomes = relay_core::router::broadcast_from(&reg, 1, &msg);
    assert_eq!(outcomes, vec![(2, true)]);

    let got = recv_all(&mut rx2);
    assert_eq!(got, vec![b"hello".to_vec()]);
    assert_eq!(recv_all(&mut rx1), Vec::<Vec<u8>>::new());
}

#[test]
fn abrupt_disconnect_does_not_abort_the_fan_out() {
    // Three clients; one goes away abruptly mid-broadcast from another; the
    // remaining client still receives the in-flight message, and the
    // registry drops from three entries to two.
    let mut reg = Registry::new();
    let (tx1, _rx1) = unbounded::<Frame>();
    let (tx2, rx2) = unbounded::<Frame>();
    let (tx3, mut rx3) = unbounded::<Frame>();
    reg.insert(1, tx1);
    reg.insert(2, tx2);
    reg.insert(3, tx3);
    assert_eq!(reg.size(), 3);

    // Client 2 resets: its receiving side is gone before the broadcast.
    drop(rx2);

    let msg = Frame::Text(b"in flight".to_vec());
    let outcomes = relay_core::router::broadcast_from(&reg, 1, &msg);
    assert_eq!(outcomes, vec![(2, false), (3, true)]);
    assert_eq!(recv_all(&mut rx3), vec![b"in flight".to_vec()]);

    // Cleanup removes the dead connection; the registry drops to two.
    reg.remove(2);
    assert_eq!(reg.size(), 2);
}

#[test]
fn a_lone_connection_broadcasts_to_nobody() {
    let mut reg = Registry::new();
    let (tx1, mut rx1) = unbounded::<Frame>();
    reg.insert(1, tx1);

    let msg = Frame::Binary(b"anyone?".to_vec());
    let outcomes = relay_core::router::broadcast_from(&reg, 1, &msg);
    assert_eq!(outcomes, Vec::<(u64, bool)>::new());
    assert_eq!(recv_all(&mut rx1), Vec::<Vec<u8>>::new());
}

#[test]
fn per_sender_order_is_preserved() {
    let mut reg = Registry::new();
    let (tx1, _rx1) = unbounded::<Frame>();
    let (tx2, mut rx2) = unbounded::<Frame>();
    reg.insert(1, tx1);
    reg.insert(2, tx2);

    let m1 = Frame::Binary(b"first".to_vec());
    let m2 = Frame::Binary(b"second".to_vec());
    relay_core::router::broadcast_from(&reg, 1, &m1);
    relay_core::router::broadcast_from(&reg, 1, &m2);

    assert_eq!(recv_all(&mut rx2), vec![b"first".to_vec(), b"second".to_vec()]);
}

#[test]
fn removed_connection_is_not_targeted_again() {
    let mut reg = Registry::new();
    let (tx1, _rx1) = unbounded::<Frame>();
    let (tx2, rx2) = unbounded::<Frame>();
    let (tx3, mut rx3) = unbounded::<Frame>();
    reg.insert(1, tx1);
    reg.insert(2, tx2);
    reg.insert(3, tx3);

    drop(rx2);
    reg.remove(2);

    let msg = Frame::Text(b"later".to_vec());
    let outcomes = relay_core::router::broadcast_from(&reg, 1, &msg);
    // No send is attempted towards the removed identity.
    assert_eq!(outcomes, vec![(3, true)]);
    assert_eq!(recv_all(&mut rx3), vec![b"later".to_vec()]);
}
