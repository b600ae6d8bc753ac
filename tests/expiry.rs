use lobic::expiry::{
    expiration_at, expiration_from_days, expiration_from_days_at, expiration_from_min, expiration_from_min_at,
};
use std::time::{SystemTime, UNIX_EPOCH};

fn now() -> usize {
    SystemTime::now().duration_since(UNIX_EPOCH).unwrap().as_secs() as usize
}

#[test]
fn expiration_at_adds() {
    assert_eq!(expiration_at(1_000, 60), 1_060);
    assert_eq!(expiration_at(0, 0), 0);
}

#[test]
fn expiration_at_saturates() {
    assert_eq!(expiration_at(u64::MAX, 5), usize::MAX);
}

#[test]
fn expiration_from_min_is_minutes_ahead() {
    let before = now();
    let exp = expiration_from_min(60);
    let after = now();
    assert!(exp >= before + 3_600);
    assert!(exp <= after + 3_600);
}

#[test]
fn expiration_from_days_is_days_ahead() {
    let before = now();
    let exp = expiration_from_days(7);
    let after = now();
    assert!(exp >= before + 7 * 86_400);
    assert!(exp <= after + 7 * 86_400);
}

#[test]
fn expiration_from_min_saturates() {
    assert_eq!(expiration_from_min(u64::MAX), usize::MAX);
}

#[test]
fn expiration_from_min_at_is_exact() {
    assert_eq!(expiration_from_min_at(1_000, 60), 4_600);
    assert_eq!(expiration_from_min_at(5, 0), 5);
    assert_eq!(expiration_from_min_at(0, u64::MAX), usize::MAX);
}

#[test]
fn expiration_from_days_at_is_exact() {
    assert_eq!(expiration_from_days_at(1_000, 7), 1_000 + 7 * 86_400);
    assert_eq!(expiration_from_days_at(u64::MAX - 1, 1), usize::MAX);
}
