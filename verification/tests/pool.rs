use cas::syncing::pool::{Checkout, SyncClientPool};

/// Takes a connection and counts those that are made; none where it has to wait.
fn take(pool: &mut SyncClientPool<usize>, made: &mut usize) -> Option<usize> {
    match pool.checkout() {
        Checkout::Reuse(c) => Some(c),
        Checkout::Connect => {
            *made += 1;
            Some(*made)
        }
        Checkout::Wait => None,
    }
}

#[test]
fn reuse_after_drop_uses_single_connection() {
    let mut pool = SyncClientPool::new(1);
    let mut made = 0;
    let c1 = take(&mut pool, &mut made).expect("first checkout");
    pool.release(c1);
    let c2 = take(&mut pool, &mut made).expect("second checkout");
    pool.release(c2);
    assert_eq!(made, 1);
}

#[test]
fn bounded_growth_never_exceeds_max_size() {
    let mut pool = SyncClientPool::new(2);
    let mut made = 0;
    let c1 = take(&mut pool, &mut made).expect("checkout 1");
    let c2 = take(&mut pool, &mut made).expect("checkout 2");
    assert!(take(&mut pool, &mut made).is_none());
    assert_eq!(made, 2);
    pool.release(c1);
    let c3 = take(&mut pool, &mut made).expect("checkout 3");
    assert_eq!(c3, 1);
    pool.release(c3);
    pool.release(c2);
    assert_eq!(made, 2);
}

#[test]
fn a_failed_connection_frees_its_place() {
    let mut pool: SyncClientPool<usize> = SyncClientPool::new(0);
    assert!(matches!(pool.checkout(), Checkout::Connect));
    assert!(matches!(pool.checkout(), Checkout::Wait));
    pool.connect_failed();
    assert!(matches!(pool.checkout(), Checkout::Connect));
}
