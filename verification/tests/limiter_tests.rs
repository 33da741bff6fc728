use chatgpt_proxy_server::RateLimiter;

#[test]
fn quota_is_exhausted_after_limit_admissions() {
    let mut rl = RateLimiter::new_at(2, 0);
    assert!(rl.admit_at("a", 10));
    assert!(rl.admit_at("a", 30));
    assert!(!rl.admit_at("a", 59));
    assert!(!rl.admit_at("a", 59));
}

#[test]
fn rollover_resets_all_counts() {
    let mut rl = RateLimiter::new_at(1, 0);
    assert!(rl.admit_at("a", 5));
    assert!(!rl.admit_at("a", 6));
    assert!(rl.admit_at("b", 7));
    // A timestamp in a later minute clears every identity's count.
    assert!(rl.admit_at("a", 60));
    assert!(rl.admit_at("b", 61));
    assert!(!rl.admit_at("a", 62));
}

#[test]
fn rollover_is_strictly_greater_than() {
    // The window began at second 60; timestamps within the same minute do
    // not roll it over.
    let mut rl = RateLimiter::new_at(1, 60);
    assert!(rl.admit_at("a", 60));
    assert!(!rl.admit_at("a", 119));
    // The next minute does.
    assert!(rl.admit_at("a", 120));
}

#[test]
fn identities_are_isolated() {
    let mut rl = RateLimiter::new_at(1, 0);
    assert!(rl.admit_at("a", 1));
    assert!(rl.admit_at("b", 2));
    assert!(!rl.admit_at("a", 3));
    assert!(!rl.admit_at("b", 4));
    assert!(rl.admit_at("c", 5));
}

#[test]
fn zero_limit_denies_everything() {
    let mut rl = RateLimiter::new_at(0, 0);
    assert!(!rl.admit_at("a", 1));
    assert!(!rl.admit_at("a", 2));
}

#[test]
fn window_start_is_truncated_to_the_minute() {
    // Constructed at second 119, the window starts at 60: second 119 lies in
    // the same window, second 120 starts a new one.
    let mut rl = RateLimiter::new_at(1, 119);
    assert!(rl.admit_at("a", 119));
    assert!(!rl.admit_at("a", 119));
    assert!(rl.admit_at("a", 120));
}

#[test]
fn wall_clock_constructor_and_first_check_admit() {
    // Whatever the clock returns, the very first check for an identity finds
    // a count of zero and is admitted when the limit is positive.
    let mut rl = RateLimiter::new(3);
    assert!(rl.check_rate_limit("203.0.113.7"));
}
