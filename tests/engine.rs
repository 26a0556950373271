use bip_api::rate::{Admission, RateLimiter};
use bip_api::retry::{Outcome, RetryLimit};

/// Runs one request under `policy`, with scripted outcomes; returns the
/// attempts made and the outcome reported.
fn run(policy: RetryLimit, script: &[Outcome]) -> (usize, Outcome) {
    let mut policy = policy;
    let mut attempts = 0;
    loop {
        let outcome = script[attempts];
        attempts += 1;
        match policy.retry(outcome) {
            Some(next) => policy = next,
            None => return (attempts, outcome),
        }
    }
}

#[test]
fn all_failures_make_exactly_the_budgeted_attempts() {
    let script = [
        Outcome::NetworkFailure,
        Outcome::Status(503),
        Outcome::Status(404),
        Outcome::Status(200),
    ];
    assert_eq!(run(RetryLimit::new(3), &script), (3, Outcome::Status(404)));
    assert_eq!(run(RetryLimit::new(1), &script), (1, Outcome::NetworkFailure));
}

#[test]
fn success_stops_retrying() {
    let script = [Outcome::Status(500), Outcome::Status(204), Outcome::Status(500)];
    assert_eq!(run(RetryLimit::new(3), &script), (2, Outcome::Status(204)));
    assert_eq!(run(RetryLimit::new(3), &[Outcome::Status(200)]), (1, Outcome::Status(200)));
}

#[test]
fn non_2xx_statuses_are_retried() {
    let p = RetryLimit::new(2);
    assert_eq!(p.retry(Outcome::Status(301)), Some(RetryLimit::new(1)));
    assert_eq!(p.retry(Outcome::Status(199)), Some(RetryLimit::new(1)));
    assert_eq!(p.retry(Outcome::Status(299)), None);
    assert_eq!(RetryLimit::new(1).should_retry(), None);
    assert_eq!(RetryLimit::new(0).should_retry(), None);
    assert_eq!(RetryLimit::new(5).should_retry(), Some(RetryLimit::new(4)));
}

#[test]
fn limiter_grants_up_to_the_permits_per_window() {
    let mut l = RateLimiter::new(2, 1000).unwrap();
    assert_eq!(l.acquire(0), Admission::Granted);
    assert_eq!(l.acquire(10), Admission::Granted);
    assert_eq!(l.acquire(20), Admission::RetryAt(1000));
    assert_eq!(l.acquire(999), Admission::RetryAt(1000));
    assert_eq!(l.acquire(1000), Admission::Granted);
    assert_eq!(l.acquire(1005), Admission::RetryAt(1010));
    assert_eq!(l.acquire(5), Admission::RetryAt(1000));
    assert!(RateLimiter::new(0, 1000).is_none());
}

#[test]
fn twice_the_permits_take_a_full_window() {
    let m = 3;
    let w = 500;
    let mut l = RateLimiter::new(m, w).unwrap();
    let mut now = 0u64;
    let mut granted = vec![];
    while granted.len() < 2 * m {
        match l.acquire(now) {
            Admission::Granted => granted.push(now),
            Admission::RetryAt(t) => now = t,
        }
    }
    assert!(granted[2 * m - 1] - granted[0] >= w);
    for i in 0..granted.len() {
        let within = granted.iter().filter(|&&t| t >= granted[i] && t < granted[i] + w).count();
        assert!(within <= m);
    }
}

#[test]
fn limiter_saturates_far_retry_times() {
    let mut l = RateLimiter::new(1, u64::MAX).unwrap();
    assert_eq!(l.acquire(7), Admission::Granted);
    assert_eq!(l.acquire(8), Admission::RetryAt(u64::MAX));
}
