//! Scheduler behavior: token bucket admission and per-configuration
//! concurrency permits.

use dubverse::bucket::{BucketDecision, TokenBucket, TOKEN_UNIT};
use dubverse::pool::AiPoolManager;
use dubverse::pool::ConfigController;

#[test]
fn zero_rate_bucket_always_grants() {
    let mut b = TokenBucket::new(0);
    for t in [0u64, 1, 50, 1000, 1_000_000] {
        assert_eq!(b.try_acquire(t), BucketDecision::Granted);
    }
}

#[test]
fn bucket_starts_full_and_drains() {
    // 60 requests per minute: capacity 60 tokens, one per second.
    let mut b = TokenBucket::new(60);
    let mut granted = 0;
    for _ in 0..60 {
        if let BucketDecision::Granted = b.try_acquire(0) {
            granted += 1;
        }
    }
    assert_eq!(granted, 60);
    match b.try_acquire(0) {
        BucketDecision::Granted => panic!("the drained bucket granted"),
        BucketDecision::Wait { wait_ms } => {
            // one token refills in 1000 ms at 60 per minute
            assert_eq!(wait_ms, 1000);
        }
    }
}

#[test]
fn bucket_refills_with_time() {
    let mut b = TokenBucket::new(60);
    for _ in 0..60 {
        assert_eq!(b.try_acquire(0), BucketDecision::Granted);
    }
    assert!(matches!(b.try_acquire(0), BucketDecision::Wait { .. }));
    // 2500 ms later, two whole tokens (and a half) have refilled.
    assert_eq!(b.try_acquire(2500), BucketDecision::Granted);
    assert_eq!(b.try_acquire(2500), BucketDecision::Granted);
    assert!(matches!(b.try_acquire(2500), BucketDecision::Wait { .. }));
}

#[test]
fn bucket_admission_bounded_over_interval() {
    // Rate interval law on a concrete run: at 120/min over 30 seconds,
    // admissions never exceed rate * dt / 60 + capacity = 60 + 120.
    let mut b = TokenBucket::new(120);
    let mut granted: u64 = 0;
    let mut t: u64 = 0;
    while t <= 30_000 {
        if let BucketDecision::Granted = b.try_acquire(t) {
            granted += 1;
        } else {
            t += 100;
        }
    }
    let bound = 120 * 30_000 / (TOKEN_UNIT as u64) + 120;
    assert!(granted <= bound, "granted {granted} exceeds {bound}");
    assert!(granted >= 120, "the full capacity was not admitted");
}

#[test]
fn controller_never_exceeds_concurrent_limit() {
    let mut c = ConfigController::new("cfg".to_string(), 3, 0);
    let p1 = c.try_acquire_slot().expect("first slot");
    let p2 = c.try_acquire_slot().expect("second slot");
    let p3 = c.try_acquire_slot().expect("third slot");
    assert!(c.try_acquire_slot().is_none(), "a fourth simultaneous permit was issued");
    assert_eq!(c.in_flight, 3);
    c.release(p2);
    assert_eq!(c.in_flight, 2);
    let p4 = c.try_acquire_slot().expect("slot after release");
    assert!(c.try_acquire_slot().is_none());
    c.release(p1);
    c.release(p3);
    c.release(p4);
    assert_eq!(c.in_flight, 0);
}

#[test]
fn update_installs_new_semaphore_and_old_permits_drain_aside() {
    let mut c = ConfigController::new("cfg".to_string(), 1, 0);
    let old_permit = c.try_acquire_slot().expect("slot under the old semaphore");
    assert!(c.try_acquire_slot().is_none());

    // Reconfigure while the permit is held: the new semaphore starts empty.
    c.update(2, 0);
    assert_eq!(c.concurrent_limit, 2);
    assert_eq!(c.in_flight, 0);

    // Later acquires observe the new limit.
    let n1 = c.try_acquire_slot().expect("first new slot");
    let n2 = c.try_acquire_slot().expect("second new slot");
    assert!(c.try_acquire_slot().is_none());

    // The old permit counts against the old semaphore only: releasing it
    // does not free a new slot.
    c.release(old_permit);
    assert_eq!(c.in_flight, 2);
    assert!(c.try_acquire_slot().is_none());
    c.release(n1);
    c.release(n2);
    assert_eq!(c.in_flight, 0);
}

#[test]
fn pool_controllers_are_per_config_and_removable() {
    let mut pool = AiPoolManager::new();
    let a = pool.ensure_controller("alpha", 2, 0);
    let b = pool.ensure_controller("beta", 5, 60);
    assert_ne!(a, b);
    // idempotent lookup
    let a2 = pool.ensure_controller("alpha", 9, 9);
    assert_eq!(a, a2);
    assert_eq!(pool.controllers[a].concurrent_limit, 2);

    pool.update_controller("alpha", 7, 30);
    assert_eq!(pool.controllers[a].concurrent_limit, 7);
    assert_eq!(pool.controllers[a].bucket.rate_per_minute, 30);
    assert_eq!(pool.controllers[a].epoch, 1);

    pool.remove("alpha");
    assert_eq!(pool.controllers.len(), 1);
    assert_eq!(pool.controllers[0].config_id, "beta");
}

#[test]
fn client_cache_reuses_on_same_timeout_only() {
    let mut pool = AiPoolManager::new();
    assert!(!pool.client_reusable("cfg", 30), "an empty cache reused a client");
    assert!(pool.client_reusable("cfg", 30));
    assert!(!pool.client_reusable("cfg", 60), "a changed timeout reused a client");
    assert!(pool.client_reusable("cfg", 60));
    pool.update_timeout("cfg");
    assert!(!pool.client_reusable("cfg", 60), "a dropped record reused a client");
}
