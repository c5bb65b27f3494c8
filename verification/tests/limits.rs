use modulargrid::limiter::{RateLimiter, Refusal, RequestDelay};

#[test]
fn a_host_that_was_not_allowed_is_refused() {
    let mut limiter = RateLimiter::new();
    assert!(!limiter.is_allowed("www.modulargrid.net"));
    assert_eq!(limiter.acquire("www.modulargrid.net", 0), Err(Refusal::NotAllowed));
    limiter.allow_domain("www.modulargrid.net", None);
    assert!(limiter.is_allowed("www.modulargrid.net"));
    assert!(!limiter.is_allowed("modulargrid.net"));
    assert_eq!(limiter.acquire("modulargrid.net", 5), Err(Refusal::NotAllowed));
    assert_eq!(limiter.acquire("www.modulargrid.net", 5), Ok(5));
}

#[test]
fn without_delay_a_request_starts_when_it_arrives() {
    let mut limiter = RateLimiter::new();
    limiter.allow_domain("a.example", None);
    assert_eq!(limiter.acquire("a.example", 100), Ok(100));
    assert_eq!(limiter.acquire("a.example", 100), Ok(100));
    assert_eq!(limiter.acquire("a.example", 40), Ok(40));
    assert_eq!(limiter.acquire("a.example", u64::MAX), Ok(u64::MAX));
}

#[test]
fn fixed_delay_spaces_the_starts() {
    let mut limiter = RateLimiter::new();
    limiter.allow_domain("a.example", Some(RequestDelay::Fixed(2_000)));
    assert_eq!(limiter.acquire("a.example", 500), Ok(500));
    assert_eq!(limiter.acquire("a.example", 600), Ok(2_500));
    assert_eq!(limiter.acquire("a.example", 700), Ok(4_500));
    assert_eq!(limiter.acquire("a.example", 6_500), Ok(6_500));
    assert_eq!(limiter.acquire("a.example", 9_000), Ok(9_000));
    assert_eq!(limiter.acquire("a.example", 0), Ok(11_000));
}

#[test]
fn starts_to_one_host_are_never_closer_than_the_delay() {
    let delay = 350u64;
    let mut limiter = RateLimiter::new();
    limiter.allow_domain("a.example", Some(RequestDelay::Fixed(delay)));
    let arrivals = [0u64, 1, 2, 1_000, 1_001, 900, 5_000, 5_349, 5_350, 5_351, 3, 20_000];
    let mut starts: Vec<u64> = Vec::new();
    for now in arrivals {
        let start = limiter.acquire("a.example", now).expect("the host is allowed");
        assert!(start >= now);
        starts.push(start);
    }
    for i in 0..starts.len() {
        for j in (i + 1)..starts.len() {
            assert!(starts[j] - starts[i] >= delay * (j - i) as u64);
        }
    }
}

#[test]
fn hosts_do_not_delay_each_other() {
    let mut limiter = RateLimiter::new();
    limiter.allow_domain("a.example", Some(RequestDelay::Fixed(1_000)));
    limiter.allow_domain("b.example", Some(RequestDelay::Fixed(10)));
    limiter.allow_domain("c.example", None);
    assert_eq!(limiter.acquire("a.example", 0), Ok(0));
    assert_eq!(limiter.acquire("b.example", 1), Ok(1));
    assert_eq!(limiter.acquire("c.example", 2), Ok(2));
    assert_eq!(limiter.acquire("a.example", 3), Ok(1_000));
    assert_eq!(limiter.acquire("b.example", 4), Ok(11));
    assert_eq!(limiter.acquire("c.example", 5), Ok(5));
    assert_eq!(limiter.acquire("b.example", 2_000), Ok(2_000));
    assert_eq!(limiter.acquire("a.example", 1_500), Ok(2_000));
}

#[test]
fn a_start_beyond_the_clock_is_refused_and_forgets_nothing() {
    let mut limiter = RateLimiter::new();
    limiter.allow_domain("a.example", Some(RequestDelay::Fixed(10)));
    assert_eq!(limiter.acquire("a.example", u64::MAX - 5), Ok(u64::MAX - 5));
    assert_eq!(limiter.acquire("a.example", u64::MAX), Err(Refusal::ClockOverflow));
    assert_eq!(limiter.acquire("a.example", 0), Err(Refusal::ClockOverflow));
    let mut exact = RateLimiter::new();
    exact.allow_domain("a.example", Some(RequestDelay::Fixed(5)));
    assert_eq!(exact.acquire("a.example", u64::MAX - 5), Ok(u64::MAX - 5));
    assert_eq!(exact.acquire("a.example", 0), Ok(u64::MAX));
    assert_eq!(exact.acquire("a.example", 0), Err(Refusal::ClockOverflow));
}

#[test]
fn allowing_a_host_again_replaces_its_policy() {
    let mut limiter = RateLimiter::new();
    limiter.allow_domain("a.example", Some(RequestDelay::Fixed(1_000)));
    assert_eq!(limiter.acquire("a.example", 0), Ok(0));
    limiter.allow_domain("a.example", Some(RequestDelay::Fixed(50)));
    assert_eq!(limiter.acquire("a.example", 1), Ok(1));
    assert_eq!(limiter.acquire("a.example", 2), Ok(51));
    limiter.allow_domain("a.example", None);
    assert_eq!(limiter.acquire("a.example", 3), Ok(3));
}

#[test]
fn a_delay_of_zero_delays_nothing() {
    let mut limiter = RateLimiter::new();
    limiter.allow_domain("a.example", Some(RequestDelay::Fixed(0)));
    assert_eq!(limiter.acquire("a.example", 7), Ok(7));
    assert_eq!(limiter.acquire("a.example", 7), Ok(7));
    assert_eq!(limiter.acquire("a.example", 3), Ok(7));
}
