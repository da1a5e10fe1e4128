//! Clock and synthetic-payload helpers.
//!
//! Both functions sit at the boundary to the outside world: one reads the
//! system clock, the other draws random bytes. Neither result is a function
//! of the arguments alone, so their contracts state only what holds of every
//! outcome.

use rand::Rng;
use vstd::prelude::*;

verus! {

/// The system clock's reading as whole seconds since the UNIX epoch plus
/// sub-second nanoseconds.
///
/// Relies on `std::time::SystemTime::now` and
/// `SystemTime::duration_since(UNIX_EPOCH)`: nothing can be promised of the
/// clock's reading itself, but `Duration` documents that its sub-second
/// part is below one second. As documented, `duration_since` fails only
/// when the clock reads earlier than the epoch, and this aborts then.
#[verifier::external_body]
fn now_since_epoch() -> (r: (u64, u32))
    ensures
        r.1 < 1_000_000_000,
{
    let d = std::time::SystemTime::now()
        .duration_since(std::time::SystemTime::UNIX_EPOCH)
        .expect("Failed to get duration since UNIX_EPOCH.");
    (d.as_secs(), d.subsec_nanos())
}

/// A duration of `secs` seconds and `subsec_nanos` nanoseconds, in whole
/// milliseconds.
pub open spec fn millis_of(secs: u64, subsec_nanos: u32) -> u128 {
    (secs * 1000 + subsec_nanos / 1_000_000) as u128
}

/// Converts a duration given as seconds and sub-second nanoseconds to whole
/// milliseconds.
pub fn duration_parts_to_millis(secs: u64, subsec_nanos: u32) -> (r: u128)
    ensures
        r == millis_of(secs, subsec_nanos),
{
    (secs as u128) * 1000 + ((subsec_nanos / 1_000_000) as u128)
}

/// Milliseconds elapsed since the UNIX epoch, per the system clock.
pub fn current_time_millis() -> u128 {
    let (secs, subsec_nanos) = now_since_epoch();
    duration_parts_to_millis(secs, subsec_nanos)
}

/// `n_bytes` bytes drawn from a thread-local random generator.
///
/// Relies on `rand::thread_rng` and `Rng::sample_iter` over the `Standard`
/// distribution: the iterator is unbounded, so taking `n_bytes` of it
/// yields exactly `n_bytes` bytes. The bytes themselves are random, so no
/// more is stated.
#[verifier::external_body]
pub fn gen_random_bytes(n_bytes: usize) -> (r: Vec<u8>)
    ensures
        r@.len() == n_bytes,
{
    let rng = rand::thread_rng();
    rng.sample_iter(rand::distributions::Standard).take(n_bytes).collect()
}

} // verus!
