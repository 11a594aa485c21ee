use deepseek_proxy::rate_limiter::GlobalRateLimiter;

#[test]
fn test_rate_limiter_allows_within_limit() {
    let mut limiter = GlobalRateLimiter::new(10, 0);
    for i in 0..20 {
        assert!(limiter.acquire(0).is_ok(), "request {} should pass", i + 1);
    }
}

#[test]
fn test_rate_limiter_blocks_over_limit() {
    let mut limiter = GlobalRateLimiter::new(5, 0);
    for _ in 0..10 {
        limiter.acquire(0).ok();
    }
    assert!(limiter.acquire(0).is_err());
}

#[test]
fn test_rate_limiter_refills_over_time() {
    let mut limiter = GlobalRateLimiter::new(10, 0);
    for _ in 0..20 {
        limiter.acquire(0).ok();
    }
    assert!(limiter.acquire(0).is_err());
    // 200 ms at 10 requests per second bring back 2 tokens
    assert!(limiter.acquire(200).is_ok());
    assert!(limiter.acquire(200).is_ok());
    assert!(limiter.acquire(200).is_err());
}

#[test]
fn full_bucket_admits_exactly_twice_the_rate() {
    let mut limiter = GlobalRateLimiter::new(7, 1_000);
    let mut admitted = 0;
    while limiter.acquire(5_000).is_ok() {
        admitted += 1;
        assert!(admitted <= 14);
    }
    assert_eq!(admitted, 14);
}

#[test]
fn rejection_reports_the_wait_until_the_next_token() {
    let mut limiter = GlobalRateLimiter::new(4, 0);
    for _ in 0..8 {
        assert!(limiter.acquire(0).is_ok());
    }
    // an empty bucket at 4 per second refills a token in 250 ms
    assert_eq!(limiter.acquire(0), Err(250));
    // after 100 ms, 0.4 of a token is there; 0.6 is missing: 150 ms
    assert_eq!(limiter.acquire(100), Err(150));
    let c = limiter.config();
    assert_eq!(c.requests_per_second, 4);
    assert_eq!(c.burst_capacity, 8);
}

#[test]
fn info_names_rate_and_burst() {
    let limiter = GlobalRateLimiter::new(10, 0);
    assert_eq!(limiter.info(), "全局限流: 10/秒, 突发容量: 20");
}
