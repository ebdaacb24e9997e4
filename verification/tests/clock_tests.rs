use file_lock_inspector::monitor::clock::{Clock, SystemClock};

#[test]
fn system_clock_now_is_monotonic() {
    let clock = SystemClock;
    let t1 = clock.now();
    let t2 = clock.now();
    assert!(t2 >= t1, "Instant::now 必须单调不减：t1={:?}, t2={:?}", t1, t2);
}

#[test]
fn system_clock_sleep_waits_at_least_the_duration() {
    let clock = SystemClock;
    let t1 = clock.now();
    clock.sleep(std::time::Duration::from_millis(20));
    let t2 = clock.now();
    assert!(t2.duration_since(t1) >= std::time::Duration::from_millis(20));
}
