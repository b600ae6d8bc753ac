use vstd::prelude::*;

verus! {

/// `count` periods of `unit` seconds, capped at `u64::MAX`.
pub open spec fn span(count: int, unit: int) -> int {
    if count * unit > u64::MAX {
        u64::MAX as int
    } else {
        count * unit
    }
}

/// The moment `secs` seconds after `now`, in seconds since the Unix epoch,
/// capped at `usize::MAX`.
pub open spec fn expiry(now: int, secs: int) -> int {
    if now + secs > usize::MAX {
        usize::MAX as int
    } else {
        now + secs
    }
}

#[verifier::external_type_specification]
#[verifier::external_body]
pub struct ExSystemTime(std::time::SystemTime);

/// Relies on std's `SystemTime::now` for the current time.
#[verifier::external_body]
fn clock_now() -> (r: std::time::SystemTime) {
    std::time::SystemTime::now()
}

/// Relies on std's `SystemTime::duration_since` for the whole seconds from
/// the Unix epoch to `t`; `None` when `t` is before it.
#[verifier::external_body]
fn secs_since_epoch(t: std::time::SystemTime) -> (r: Option<u64>) {
    t.duration_since(std::time::UNIX_EPOCH).ok().map(|d| d.as_secs())
}

/// `count` periods of `unit` seconds.
fn span_secs(count: u64, unit: u64) -> (r: u64)
    requires
        unit > 0,
    ensures
        r == span(count as int, unit as int),
{
    if count > u64::MAX / unit {
        assert(count * unit > u64::MAX) by (nonlinear_arith)
            requires
                count > u64::MAX / unit,
                unit > 0,
        ;
        u64::MAX
    } else {
        assert(count * unit <= u64::MAX) by (nonlinear_arith)
            requires
                count <= u64::MAX / unit,
                unit > 0,
        ;
        count * unit
    }
}

/// The moment `secs` seconds after `now_secs` (both in seconds, the first
/// since the Unix epoch), capped at `usize::MAX`.
pub fn expiration_at(now_secs: u64, secs: u64) -> (r: usize)
    ensures
        r == expiry(now_secs as int, secs as int),
{
    let total = now_secs.saturating_add(secs);
    if total > usize::MAX as u64 {
        usize::MAX
    } else {
        total as usize
    }
}

/// The moment `min` minutes after `now_secs`, in seconds since the Unix epoch.
pub fn expiration_from_min_at(now_secs: u64, min: u64) -> (r: usize)
    ensures
        r == expiry(now_secs as int, span(min as int, 60)),
{
    expiration_at(now_secs, span_secs(min, 60))
}

/// The moment `days` days after `now_secs`, in seconds since the Unix epoch.
pub fn expiration_from_days_at(now_secs: u64, days: u64) -> (r: usize)
    ensures
        r == expiry(now_secs as int, span(days as int, 86400)),
{
    expiration_at(now_secs, span_secs(days, 86400))
}

/// The current time in seconds since the Unix epoch, reading a clock set
/// before the epoch as the epoch.
fn now_secs() -> u64 {
    match secs_since_epoch(clock_now()) {
        Some(n) => n,
        None => 0,
    }
}

/// The moment `min` minutes from now, in seconds since the Unix epoch.
pub fn expiration_from_min(min: u64) -> (r: usize)
    ensures
        exists|now: u64| r == #[trigger] expiry(now as int, span(min as int, 60)),
{
    let now = now_secs();
    let r = expiration_from_min_at(now, min);
    assert(r == expiry(now as int, span(min as int, 60)));
    r
}

/// The moment `days` days from now, in seconds since the Unix epoch.
pub fn expiration_from_days(days: u64) -> (r: usize)
    ensures
        exists|now: u64| r == #[trigger] expiry(now as int, span(days as int, 86400)),
{
    let now = now_secs();
    let r = expiration_from_days_at(now, days);
    assert(r == expiry(now as int, span(days as int, 86400)));
    r
}

} // verus!
