use dnsblackhole::clock::{remaining_seconds, within};
use dnsblackhole::failure::{AuthFailure, ClientAddr};
use dnsblackhole::rate_limit::{
    check_lockout, clear_failures, evict_stale_attempts, record_failure, RateLimitState,
    GLOBAL_FAILURE_LIMIT, MAX_TRACKED_CLIENTS,
};

const SECOND: u64 = 1_000_000_000;

fn client(number: u32) -> ClientAddr {
    ClientAddr::V6(u128::from(number))
}

#[test]
fn the_lockout_doubles_up_to_fifteen_minutes() {
    let mut limit = RateLimitState::new();
    let expected = [
        None,
        None,
        None,
        None,
        Some(15),
        Some(30),
        Some(60),
        Some(120),
        Some(240),
        Some(480),
        Some(900),
        Some(900),
    ];
    for (count, seconds) in expected.iter().enumerate() {
        let now = (count as u64 + 1) * SECOND;
        assert_eq!(record_failure(&mut limit, client(1), now), *seconds);
    }
    for count in 0..30u64 {
        assert_eq!(
            record_failure(&mut limit, client(1), (20 + count) * SECOND),
            Some(900)
        );
    }
}

#[test]
fn a_lockout_runs_out() {
    let mut limit = RateLimitState::new();
    let now = 100 * SECOND;
    for _ in 0..5 {
        record_failure(&mut limit, client(1), now);
    }
    assert_eq!(
        check_lockout(&mut limit, client(1), now),
        Err(AuthFailure::Locked {
            retry_after_seconds: 15
        })
    );
    assert_eq!(
        check_lockout(&mut limit, client(1), now + 14 * SECOND + 1),
        Err(AuthFailure::Locked {
            retry_after_seconds: 1
        })
    );
    assert_eq!(check_lockout(&mut limit, client(1), now + 15 * SECOND), Ok(()));
    assert_eq!(check_lockout(&mut limit, client(2), now), Ok(()));
}

#[test]
fn clearing_forgets_one_client_only() {
    let mut limit = RateLimitState::new();
    let now = 100 * SECOND;
    for _ in 0..5 {
        record_failure(&mut limit, client(1), now);
        record_failure(&mut limit, client(2), now);
    }
    clear_failures(&mut limit, client(1));
    assert_eq!(check_lockout(&mut limit, client(1), now), Ok(()));
    assert!(check_lockout(&mut limit, client(2), now).is_err());
    assert_eq!(record_failure(&mut limit, client(1), now), None);
}

#[test]
fn a_hundred_failures_lock_everyone_for_a_minute() {
    let mut limit = RateLimitState::new();
    let start = 100 * SECOND;
    for count in 0..GLOBAL_FAILURE_LIMIT - 1 {
        assert_eq!(
            record_failure(&mut limit, client(count), start + u64::from(count) * SECOND),
            None
        );
    }
    let now = start + 200 * SECOND;
    assert_eq!(record_failure(&mut limit, client(5000), now), Some(60));
    assert_eq!(
        check_lockout(&mut limit, client(9999), now),
        Err(AuthFailure::Locked {
            retry_after_seconds: 60
        })
    );
    assert_eq!(
        check_lockout(&mut limit, client(9999), now + 60 * SECOND),
        Ok(())
    );
    assert_eq!(limit.global_locked_until, None);
}

#[test]
fn the_window_over_all_clients_starts_anew() {
    let mut limit = RateLimitState::new();
    let start = 100 * SECOND;
    for count in 0..GLOBAL_FAILURE_LIMIT - 1 {
        record_failure(&mut limit, client(count), start);
    }
    assert_eq!(
        record_failure(&mut limit, client(7000), start + 300 * SECOND + 1),
        None
    );
    assert_eq!(limit.global_failures, 1);
}

#[test]
fn the_table_is_bounded_and_drops_the_oldest_failure() {
    let mut limit = RateLimitState::new();
    for number in 0..MAX_TRACKED_CLIENTS as u32 {
        // Client 3 fails first.
        let moment = if number == 3 { 1 } else { 10 + u64::from(number) };
        limit
            .clients
            .push((client(number), dnsblackhole::rate_limit::ClientAttempts {
                failures: 1,
                locked_until: None,
                last_failure_at: moment * SECOND,
            }));
    }
    record_failure(&mut limit, client(100_000), 2_000 * SECOND);
    assert_eq!(limit.clients.len(), MAX_TRACKED_CLIENTS);
    assert!(limit.clients.iter().all(|(address, _)| *address != client(3)));
    assert!(limit.clients.iter().any(|(address, _)| *address == client(100_000)));
}

#[test]
fn stale_records_are_dropped_unless_locked() {
    let mut limit = RateLimitState::new();
    for _ in 0..5 {
        record_failure(&mut limit, client(1), 100 * SECOND);
    }
    record_failure(&mut limit, client(2), 100 * SECOND);
    limit.clients[0].1.locked_until = Some(10_000 * SECOND);
    evict_stale_attempts(&mut limit, 3_700 * SECOND);
    assert_eq!(limit.clients.len(), 2);
    evict_stale_attempts(&mut limit, 3_700 * SECOND + 1);
    assert_eq!(limit.clients.len(), 1);
    assert_eq!(limit.clients[0].0, client(1));
    evict_stale_attempts(&mut limit, 10_000 * SECOND);
    assert!(limit.clients.is_empty());
}

#[test]
fn seconds_are_rounded_down_but_never_to_none() {
    assert_eq!(remaining_seconds(10 * SECOND, 0), 10);
    assert_eq!(remaining_seconds(10 * SECOND - 1, 0), 9);
    assert_eq!(remaining_seconds(SECOND / 2, 0), 1);
    assert_eq!(remaining_seconds(0, 10 * SECOND), 1);
}

#[test]
fn spans_include_their_end() {
    assert!(within(10 * SECOND, 0, 10));
    assert!(!within(10 * SECOND + 1, 0, 10));
    assert!(within(0, 10 * SECOND, 0));
    assert!(within(u64::MAX, 0, u64::MAX));
}

#[test]
fn failures_are_counted_whoever_fails_in_between() {
    let mut limit = RateLimitState::new();
    for count in 0..5u32 {
        let now = u64::from(count + 1) * SECOND;
        let expected = if count == 4 { Some(15) } else { None };
        assert_eq!(record_failure(&mut limit, client(1), now), expected);
        assert_eq!(record_failure(&mut limit, client(100 + count), now), None);
    }
}
