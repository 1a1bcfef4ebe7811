use diamond_dagger::ratelimit::{
    is_ratelimited, APIState, IpAddr, RATE_LIMIT, RATE_LIMIT_RESET, RATE_LIMIT_RESET_NANOS,
};

const SECOND: u64 = 1_000_000_000;

#[test]
fn window_constants_agree() {
    assert_eq!(RATE_LIMIT_RESET * SECOND, RATE_LIMIT_RESET_NANOS);
    assert_eq!(RATE_LIMIT, 60);
    assert_eq!(RATE_LIMIT_RESET, 90);
}

#[test]
fn fresh_client_is_allowed() {
    let mut state = APIState::new();
    assert!(!is_ratelimited(IpAddr::V4(0x7f000001), 0, &mut state));
    let p = state.profile(IpAddr::V4(0x7f000001)).unwrap();
    assert_eq!(p.count, 1);
    assert_eq!(p.last_request, 0);
    assert_eq!(p.ip, IpAddr::V4(0x7f000001));
}

#[test]
fn sixtieth_request_in_a_burst_is_refused() {
    let mut state = APIState::new();
    let ip = IpAddr::V6(1);
    for k in 1..=59u64 {
        assert!(!is_ratelimited(ip, k * SECOND, &mut state), "request {} refused", k);
    }
    assert!(is_ratelimited(ip, 60 * SECOND, &mut state));
    assert!(is_ratelimited(ip, 61 * SECOND, &mut state));
    assert_eq!(state.profile(ip).unwrap().count, 61);
}

#[test]
fn quiet_period_resets_the_count() {
    let mut state = APIState::new();
    let ip = IpAddr::V4(42);
    for k in 0..70u64 {
        is_ratelimited(ip, k, &mut state);
    }
    assert!(is_ratelimited(ip, 70, &mut state));
    // 89.999... seconds later the count still goes on
    assert!(is_ratelimited(ip, 70 + RATE_LIMIT_RESET_NANOS - 1, &mut state));
    // a full window of quiet starts over
    let later = 70 + 2 * RATE_LIMIT_RESET_NANOS;
    assert!(!is_ratelimited(ip, later, &mut state));
    assert_eq!(state.profile(ip).unwrap().count, 1);
}

#[test]
fn clock_going_back_counts_as_no_time() {
    let mut state = APIState::new();
    let ip = IpAddr::V4(9);
    is_ratelimited(ip, 500 * SECOND, &mut state);
    is_ratelimited(ip, 10 * SECOND, &mut state);
    assert_eq!(state.profile(ip).unwrap().count, 2);
    assert_eq!(state.profile(ip).unwrap().last_request, 10 * SECOND);
}

#[test]
fn clients_are_counted_apart() {
    let mut state = APIState::new();
    let a = IpAddr::V4(1);
    let b = IpAddr::V6(1);
    for k in 0..60u64 {
        is_ratelimited(a, k, &mut state);
    }
    assert!(is_ratelimited(a, 61, &mut state));
    assert!(!is_ratelimited(b, 62, &mut state));
    assert_eq!(state.profile(a).unwrap().count, 61);
    assert_eq!(state.profile(b).unwrap().count, 1);
    assert!(state.profile(IpAddr::V4(2)).is_none());
}

#[test]
fn overflow_is_reported_before_it_happens() {
    let state = APIState::new();
    assert!(!state.count_would_overflow(IpAddr::V4(3), 0));
}

#[test]
fn a_run_keeps_one_profile_per_client() {
    let mut state = APIState::new();
    let a = IpAddr::V4(1);
    let b = IpAddr::V4(2);
    let run = [(a, 5u64), (b, 7), (a, 9), (a, 200 * SECOND), (b, 201 * SECOND)];
    for (ip, t) in run {
        assert!(!state.count_would_overflow(ip, t));
        is_ratelimited(ip, t, &mut state);
    }
    let pa = state.profile(a).unwrap();
    assert_eq!((pa.ip, pa.count, pa.last_request), (a, 1, 200 * SECOND));
    let pb = state.profile(b).unwrap();
    assert_eq!((pb.ip, pb.count, pb.last_request), (b, 1, 201 * SECOND));
    assert!(state.profile(IpAddr::V4(3)).is_none());
    assert!(state.profile(IpAddr::V6(1)).is_none());
}
