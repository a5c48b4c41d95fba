//! The wall clock.
use vstd::prelude::*;

verus! {

/// Time since the Unix epoch: whole seconds and the nanoseconds beyond them.
#[derive(Debug, Clone, Copy)]
pub struct Elapsed {
    pub secs: u64,
    pub nanos: u32,
}

impl Elapsed {
    /// The whole milliseconds.
    pub open spec fn millis(self) -> nat {
        (self.secs * 1000 + self.nanos / 1_000_000) as nat
    }
}

/// Calls `std::time::SystemTime::now` and turns its result into numbers, which
/// is only to be had as the time since the epoch: nothing when the clock stands
/// before it. Claims only that the part beyond whole seconds is below one
/// second: the time itself is not known.
#[verifier::external_body]
fn since_epoch() -> (r: Option<Elapsed>)
    ensures
        r matches Some(e) ==> e.nanos < 1_000_000_000,
{
    let d = std::time::SystemTime::now().duration_since(std::time::UNIX_EPOCH).ok()?;
    Some(Elapsed { secs: d.as_secs(), nanos: d.subsec_nanos() })
}

/// Whether `e` is what a reading of the clock gave.
pub closed spec fn is_reading(e: Option<Elapsed>) -> bool {
    call_ensures(since_epoch, (), e)
}

/// Reads the clock. What it shows is not known; that it was read is.
pub fn read_clock() -> (r: Option<Elapsed>)
    ensures
        is_reading(r),
        r matches Some(e) ==> e.nanos < 1_000_000_000,
{
    let r = since_epoch();
    assert(call_ensures(since_epoch, (), r));
    r
}

/// The whole seconds of a reading, zero for a clock before the epoch.
pub open spec fn seconds_of(elapsed: Option<Elapsed>) -> u64 {
    match elapsed {
        Some(e) => e.secs,
        None => 0,
    }
}

/// The whole milliseconds of a reading, zero for a clock before the epoch.
pub open spec fn millis_of(elapsed: Option<Elapsed>) -> nat {
    match elapsed {
        Some(e) => e.millis(),
        None => 0,
    }
}

/// Whole seconds, with zero for a clock before the epoch.
pub fn seconds_or_zero(elapsed: Option<Elapsed>) -> (r: u64)
    ensures
        r == seconds_of(elapsed),
{
    match elapsed {
        Some(e) => e.secs,
        None => 0,
    }
}

/// Whole milliseconds, with zero for a clock before the epoch.
pub fn millis_or_zero(elapsed: Option<Elapsed>) -> (r: u128)
    ensures
        r == millis_of(elapsed),
{
    match elapsed {
        Some(e) => e.secs as u128 * 1000 + e.nanos as u128 / 1_000_000,
        None => 0,
    }
}

} // verus!
