use syncprims::mcs::{increment_under_lock, MCSLock, MCSNode};

#[test]
fn mcs_counter_reaches_exact_total() {
    // Sixteen workers' worth of 100000 locked increments each through the
    // fair lock: the counter lands on exactly 16 * 100000.
    let mut l = MCSLock::new(0u64);
    for _ in 0..16u32 {
        for _ in 0..100000u32 {
            let mut node = MCSNode::new();
            let mut g = l.lock(&mut node);
            let v = *g.get();
            g.set(v + 1);
            l = g.unlock();
        }
    }
    let mut node = MCSNode::new();
    let g = l.lock(&mut node);
    assert_eq!(*g.get(), 1_600_000);
}

#[test]
fn mcs_grants_in_registration_order() {
    // Serialized contention: five nodes all register intent before any
    // proceeds; the lock is then acquired in exactly registration order.
    let mut l = MCSLock::new(0u32);
    let mut nodes: Vec<MCSNode> = (0..5).map(|_| MCSNode::new()).collect();
    for n in nodes.iter_mut() {
        l.register(n);
    }
    let registered: Vec<u64> = nodes.iter().map(|n| n.last_ticket()).collect();
    let mut acquired: Vec<u64> = Vec::new();
    for k in 0..nodes.len() {
        for (j, m) in nodes.iter().enumerate() {
            assert_eq!(l.is_granted(m), j == k);
        }
        acquired.push(nodes[k].last_ticket());
        l.release(&nodes[k]);
    }
    assert_eq!(acquired, registered);
    let mut last = MCSNode::new();
    assert!(!l.is_granted(&last));
    let g = l.lock(&mut last);
    assert_eq!(*g.get(), 0);
}

#[test]
fn holder_alone_reaches_the_value() {
    let mut l = MCSLock::new(1u32);
    let mut a = MCSNode::new();
    let mut b = MCSNode::new();
    l.register(&mut a);
    l.register(&mut b);
    assert!(l.is_granted(&a));
    assert!(!l.is_granted(&b));
    l.write(&a, 9);
    assert_eq!(*l.read(&a), 9);
    l.release(&a);
    assert!(l.is_granted(&b));
    assert_eq!(*l.read(&b), 9);
    l.release(&b);
    assert!(!l.is_granted(&a));
    assert!(!l.is_granted(&b));
}

#[test]
fn mcs_increment_workload_totals() {
    let l = MCSLock::new(5u64);
    let l2 = increment_under_lock(l, 1000);
    let mut node = MCSNode::new();
    let g = l2.lock(&mut node);
    assert_eq!(*g.get(), 1005);
}

#[test]
fn node_reuse_across_cycles() {
    // One node serves several lock/unlock cycles in turn, as a thread's
    // stack-owned node does.
    let mut l = MCSLock::new(0u64);
    let mut node = MCSNode::new();
    for i in 1..=3u64 {
        let mut g = l.lock(&mut node);
        g.set(i);
        l = g.unlock();
    }
    let g = l.lock(&mut node);
    assert_eq!(*g.get(), 3);
}
