use syncprims::channel::{channel, try_channel, Sender};

#[test]
fn channel_delivers_every_tag_exactly_once() {
    // Capacity 4, eight producers with 10000 uniquely tagged messages each,
    // one consumer draining: 80000 messages arrive, every tag exactly once.
    let (tx, rx, mut c) = channel::<(usize, usize)>(4);
    let txs: Vec<Sender> = (0..8).map(|_| tx.clone()).collect();
    let mut received = vec![false; 80000];
    let mut count: usize = 0;
    let mut next = vec![0usize; 8];
    let mut sent_total: usize = 0;
    let mut turn: usize = 0;
    while count < 80000 {
        if sent_total < 80000 {
            let i = turn % 8;
            turn += 1;
            if next[i] < 10000 {
                match txs[i].send(&mut c, (i, next[i])) {
                    None => {
                        next[i] += 1;
                        sent_total += 1;
                    }
                    Some(_) => {
                        // full: only a receive frees a slot
                        assert_eq!(c.len(), 4);
                        let (pi, pj) = rx.recv(&mut c).unwrap();
                        let tag = pi * 10000 + pj;
                        assert!(!received[tag]);
                        received[tag] = true;
                        count += 1;
                    }
                }
            }
        } else {
            let (pi, pj) = rx.recv(&mut c).unwrap();
            let tag = pi * 10000 + pj;
            assert!(!received[tag]);
            received[tag] = true;
            count += 1;
        }
    }
    assert_eq!(count, 80000);
    assert!(received.iter().all(|&b| b));
    assert!(rx.recv(&mut c).is_none());
}

#[test]
fn channel_backpressure_at_capacity_one() {
    // With capacity 1 a second send cannot complete until a receive has:
    // it is refused, and hands the item back, until the slot is free.
    let (tx, rx, mut c) = channel::<u32>(1);
    assert!(tx.send(&mut c, 1).is_none());
    assert_eq!(tx.send(&mut c, 2), Some(2));
    assert_eq!(tx.send(&mut c, 2), Some(2));
    assert_eq!(rx.recv(&mut c), Some(1));
    assert!(tx.send(&mut c, 2).is_none());
    assert_eq!(rx.recv(&mut c), Some(2));
    assert!(rx.recv(&mut c).is_none());
}

#[test]
fn channel_orders_items_fifo() {
    let (tx, rx, mut c) = channel::<u8>(4);
    for v in [10u8, 20, 30, 40] {
        assert!(tx.send(&mut c, v).is_none());
    }
    assert_eq!(c.len(), 4);
    assert_eq!(c.limit(), 4);
    assert_eq!(rx.recv(&mut c), Some(10));
    assert_eq!(rx.recv(&mut c), Some(20));
    assert!(tx.send(&mut c, 50).is_none());
    assert_eq!(rx.recv(&mut c), Some(30));
    assert_eq!(rx.recv(&mut c), Some(40));
    assert_eq!(rx.recv(&mut c), Some(50));
    assert!(rx.recv(&mut c).is_none());
}

#[test]
fn channel_construction_rejects_nonpositive_capacity() {
    assert!(try_channel::<u8>(0).is_none());
    assert!(try_channel::<u8>(-3).is_none());
    assert!(try_channel::<u8>(4).is_some());
    // deterministically, every time
    for _ in 0..1000 {
        assert!(try_channel::<u64>(0).is_none());
        assert!(try_channel::<u64>(-1).is_none());
    }
}

#[test]
fn receiver_handle_clones_share_the_state() {
    let (tx, rx, mut c) = channel::<u16>(2);
    let rx2 = rx.clone();
    assert!(tx.send(&mut c, 5).is_none());
    assert!(tx.send(&mut c, 6).is_none());
    assert_eq!(rx.recv(&mut c), Some(5));
    assert_eq!(rx2.recv(&mut c), Some(6));
    assert!(rx2.recv(&mut c).is_none());
}
