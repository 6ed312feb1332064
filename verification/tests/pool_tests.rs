use booster::pool::{PoolState, RetryPlan, StoreSource, MAX_STORE_INSTANTIATIONS};

#[test]
fn test_new_pool_clamps_zero_cap() {
    let p = PoolState::new(0);
    assert_eq!(p.max_concurrency, 1);
    let p = PoolState::new(8);
    assert_eq!(p.max_concurrency, 8);
    assert_eq!(p.active, 0);
    assert_eq!(p.generation, 0);
    assert!(p.free.is_empty());
}

#[test]
fn test_acquire_respects_cap() {
    let mut p = PoolState::new(2);
    assert!(p.try_acquire());
    assert!(p.try_acquire());
    assert!(!p.try_acquire());
    assert_eq!(p.active, 2);
}

#[test]
fn test_concurrency_is_limited() {
    // Ten requests against a cap of two: at no point are more than two
    // leases live, and all ten are eventually served.
    let mut p = PoolState::new(2);
    let mut served = 0usize;
    let mut pending = 10usize;
    let mut live: Vec<booster::pool::Lease> = Vec::new();
    let mut peak = 0usize;
    while served < 10 {
        while pending > 0 && p.try_acquire() {
            let (lease, _src) = p.take_store();
            live.push(lease);
            pending -= 1;
        }
        assert!(p.active <= p.max_concurrency);
        if live.len() > peak {
            peak = live.len();
        }
        if let Some(lease) = live.pop() {
            p.release(lease);
            served += 1;
        }
    }
    assert_eq!(peak, 2);
}

#[test]
fn test_lease_reuses_current_generation_store() {
    let mut p = PoolState::new(4);
    assert!(p.try_acquire());
    let (lease, src) = p.take_store();
    assert!(matches!(src, StoreSource::Allocated { discard: None }));
    let slot = lease.slot;
    p.release(lease);
    assert!(p.try_acquire());
    let (lease2, src2) = p.take_store();
    assert!(matches!(src2, StoreSource::Reused));
    assert_eq!(lease2.slot, slot);
    p.release(lease2);
}

#[test]
fn test_update_module_takes_effect() {
    // A store returned before the swap is never reused after it, and the
    // next lease is tagged with the new generation.
    let mut p = PoolState::new(4);
    assert!(p.try_acquire());
    let (lease, _) = p.take_store();
    assert_eq!(lease.generation, 0);
    let old_slot = lease.slot;
    p.release(lease);

    p.update_module();
    assert_eq!(p.generation, 1);
    assert!(p.free.is_empty());

    assert!(p.try_acquire());
    let (lease2, src2) = p.take_store();
    assert_eq!(lease2.generation, 1);
    assert!(matches!(src2, StoreSource::Allocated { .. }));
    assert_ne!(lease2.slot, old_slot);
    p.release(lease2);
}

#[test]
fn test_update_during_flight_discards_stale_store() {
    // A lease taken before the swap comes back with a stale tag; the next
    // lease discards that store instead of reusing it.
    let mut p = PoolState::new(4);
    assert!(p.try_acquire());
    let (lease, _) = p.take_store();
    let stale_slot = lease.slot;
    p.update_module();
    p.release(lease);
    assert_eq!(p.free.len(), 1);

    assert!(p.try_acquire());
    let (lease2, src2) = p.take_store();
    assert_eq!(lease2.generation, 1);
    match src2 {
        StoreSource::Allocated { discard } => assert_eq!(discard, Some(stale_slot)),
        StoreSource::Reused => panic!("stale store must not be reused"),
    }
    p.release(lease2);
}

#[test]
fn test_store_recycled_at_instantiation_bound() {
    // After MAX_STORE_INSTANTIATIONS runs on one store, the next run gets a
    // fresh store and proceeds.
    let mut p = PoolState::new(1);
    assert!(p.try_acquire());
    let (mut lease, _) = p.take_store();
    let first_slot = lease.slot;
    for _ in 0..MAX_STORE_INSTANTIATIONS {
        let discard = p.refresh_exhausted(&mut lease);
        assert!(discard.is_none());
        PoolState::record_instantiation(&mut lease);
    }
    assert_eq!(lease.instantiations, MAX_STORE_INSTANTIATIONS);
    assert_eq!(lease.slot, first_slot);
    let discard = p.refresh_exhausted(&mut lease);
    assert_eq!(discard, Some(first_slot));
    assert_eq!(lease.instantiations, 0);
    assert_ne!(lease.slot, first_slot);
    p.release(lease);
}

#[test]
fn test_retry_once_on_instance_limit() {
    let mut p = PoolState::new(1);
    assert!(p.try_acquire());
    let (mut lease, _) = p.take_store();
    let slot = lease.slot;
    match p.retry_after_failure(&mut lease, true) {
        RetryPlan::RetryOnce { discard } => assert_eq!(discard, slot),
        RetryPlan::GiveUp => panic!("instance-limit failure must be retried"),
    }
    assert_eq!(lease.instantiations, 0);
    let kept = lease.slot;
    match p.retry_after_failure(&mut lease, false) {
        RetryPlan::GiveUp => {}
        RetryPlan::RetryOnce { .. } => panic!("other failures are final"),
    }
    assert_eq!(lease.slot, kept);
    p.release(lease);
}

#[test]
fn test_instantiation_count_saturates() {
    let mut lease = booster::pool::Lease { slot: 0, generation: 0, instantiations: u32::MAX };
    PoolState::record_instantiation(&mut lease);
    assert_eq!(lease.instantiations, u32::MAX);
}
