use syncprims::spinlock::{increment_under_lock, SpinLock};

#[test]
fn spinlock_counter_reaches_exact_total() {
    // Sixteen workers' worth of 100000 locked increments each: the counter
    // lands on exactly 16 * 100000, no update lost.
    let mut l = SpinLock::new(0u64);
    for _ in 0..16 {
        l = increment_under_lock(l, 100000);
    }
    let g = l.lock();
    assert_eq!(*g.get(), 1_600_000);
}

#[test]
fn spinlock_counter_small_workload() {
    // Four workers' worth of 10000 locked increments each.
    let mut l = SpinLock::new(0u64);
    for _ in 0..4 {
        l = increment_under_lock(l, 10000);
    }
    let g = l.lock();
    assert_eq!(*g.get(), 40000);
}

#[test]
fn try_acquire_excludes_a_second_acquirer() {
    let mut l = SpinLock::new(7i32);
    assert!(l.try_acquire());
    assert!(!l.try_acquire());
    assert!(!l.try_acquire());
    l.release();
    assert!(l.try_acquire());
}

#[test]
fn guard_reads_and_writes_the_protected_value() {
    let l = SpinLock::new(String::from("first"));
    let mut g = l.lock();
    assert_eq!(g.get().as_str(), "first");
    g.set(String::from("second"));
    let l2 = g.unlock();
    let g2 = l2.lock();
    assert_eq!(g2.get().as_str(), "second");
}
