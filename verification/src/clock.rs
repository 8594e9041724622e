//! Clocks: the wall clock, which peers exchange, and a monotonic one, by
//! which timeouts are measured.

use vstd::prelude::*;

verus! {

#[verifier::external_type_specification]
#[verifier::external_body]
pub struct ExInstant(std::time::Instant);

#[verifier::external_type_specification]
#[verifier::external_body]
pub struct ExSystemTime(std::time::SystemTime);

/// `SystemTime::now`. Nothing is claimed of the time.
#[verifier::external_body]
fn system_now() -> (r: std::time::SystemTime) {
    std::time::SystemTime::now()
}

/// `SystemTime::duration_since` from the Unix epoch to `t`, in whole
/// milliseconds, or `None` where `t` lies before the epoch. Nothing is
/// claimed of the number.
#[verifier::external_body]
fn millis_since_epoch(t: &std::time::SystemTime) -> (r: Option<u128>) {
    match t.duration_since(std::time::UNIX_EPOCH) {
        Ok(d) => Some(d.as_millis()),
        Err(_) => None,
    }
}

/// `Instant::now`. Nothing is claimed of the time.
#[verifier::external_body]
fn instant_now() -> (r: std::time::Instant) {
    std::time::Instant::now()
}

/// `Instant::elapsed`, in nanoseconds. Nothing is claimed of the time.
#[verifier::external_body]
fn nanos_since(origin: &std::time::Instant) -> (r: u128) {
    origin.elapsed().as_nanos()
}

/// A monotonic clock that counts nanoseconds from its creation.
#[derive(Clone, Copy, Debug)]
pub struct Clock {
    origin: std::time::Instant,
}

impl Clock {
    /// A clock that starts now.
    pub fn new() -> (r: Self) {
        Clock { origin: instant_now() }
    }

    /// The nanoseconds since the clock's creation.
    pub fn now(&self) -> (r: u128) {
        nanos_since(&self.origin)
    }
}

/// The timestamp for a time that lies so many milliseconds after the Unix
/// epoch: their number, cut to 64 bits, or zero for a time before the epoch.
pub open spec fn timestamp(since_epoch: Option<u128>) -> u64 {
    match since_epoch {
        Some(ms) => ms as u64,
        None => 0,
    }
}

/// The timestamp for a time that lies so many milliseconds after the Unix
/// epoch: their number, cut to 64 bits, or zero for a time before the epoch.
pub fn timestamp_ms(since_epoch: Option<u128>) -> (r: u64)
    ensures
        r == timestamp(since_epoch),
{
    match since_epoch {
        Some(ms) => #[verifier::truncate] (ms as u64),
        None => 0,
    }
}

/// The timestamp for the time that the wall clock shows.
pub(crate) fn wall_clock_ms() -> (r: u64)
    ensures
        exists|since_epoch: Option<u128>| r == #[trigger] timestamp(since_epoch),
{
    let now = system_now();
    let since_epoch = millis_since_epoch(&now);
    timestamp_ms(since_epoch)
}

/// The milliseconds from `sent` to `now`, none where `sent` lies ahead, cut
/// to 32 bits.
pub open spec fn round_trip(now: u64, sent: u64) -> u32 {
    if now >= sent {
        (now - sent) as u32
    } else {
        0
    }
}

/// The milliseconds from `sent` to `now`, none where `sent` lies ahead, cut
/// to 32 bits.
pub fn round_trip_ms(now: u64, sent: u64) -> (r: u32)
    ensures
        r == round_trip(now, sent),
{
    #[verifier::truncate]
    (now.saturating_sub(sent) as u32)
}

} // verus!
