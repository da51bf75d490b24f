use syncprims::semaphore::Semaphore;

#[test]
fn semaphore_counts_permits_exactly() {
    let mut s = Semaphore::new(4);
    assert_eq!(s.held(), 0);
    assert_eq!(s.limit(), 4);
    assert!(s.try_wait());
    assert!(s.try_wait());
    assert_eq!(s.held(), 2);
    assert!(s.post());
    assert_eq!(s.held(), 1);
}

#[test]
fn semaphore_bound_is_never_exceeded() {
    // Eight logical workers cycle permits of a Semaphore(4) for 100000
    // rounds; the held count never passes four.
    let mut s = Semaphore::new(4);
    let mut held: isize = 0;
    for round in 0..100000usize {
        if s.try_wait() {
            held += 1;
        } else {
            // refused exactly when all four permits are out
            assert_eq!(held, 4);
        }
        assert!(s.held() <= 4);
        assert_eq!(s.held(), held);
        if held == 4 || round % 2 == 0 {
            if held > 0 {
                s.post();
                held -= 1;
            }
        }
        assert!(s.held() <= 4);
    }
    while held > 0 {
        s.post();
        held -= 1;
    }
    assert_eq!(s.held(), 0);
}

#[test]
fn wait_takes_and_post_returns_one_permit() {
    let mut s = Semaphore::new(2);
    s.wait();
    assert_eq!(s.held(), 1);
    s.wait();
    assert_eq!(s.held(), 2);
    assert!(!s.try_wait());
    assert_eq!(s.held(), 2);
    let notify = s.post();
    assert!(notify);
    assert_eq!(s.held(), 1);
}

#[test]
fn construction_rejects_nonpositive_capacity() {
    assert!(Semaphore::try_new(0).is_none());
    assert!(Semaphore::try_new(-1).is_none());
    assert!(Semaphore::try_new(-100).is_none());
    assert!(Semaphore::try_new(1).is_some());
    assert!(Semaphore::try_new(4).is_some());
    // deterministically, every time
    for _ in 0..1000 {
        assert!(Semaphore::try_new(0).is_none());
        assert!(Semaphore::try_new(-7).is_none());
    }
}
