//! The system clock, read as time since the Unix epoch.
use vstd::prelude::*;

verus! {

#[verifier::external_type_specification]
#[verifier::external_body]
pub struct ExSystemTime(std::time::SystemTime);

/// Calls `std::time::SystemTime::now`. The clock decides the value, so nothing is claimed of it.
#[verifier::external_body]
fn system_time_now() -> std::time::SystemTime {
    std::time::SystemTime::now()
}

/// Calls `std::time::SystemTime::duration_since` with `UNIX_EPOCH` and reads the
/// duration as whole seconds (`Duration::as_secs`) and the nanoseconds past
/// them (`Duration::subsec_nanos`, below one billion by its documentation);
/// `None` when `t` lies before the epoch. Nothing is claimed of the numbers:
/// `SystemTime` is opaque here.
#[verifier::external_body]
fn since_unix_epoch(t: &std::time::SystemTime) -> (r: Option<(u64, u32)>)
    ensures
        r matches Some(p) ==> p.1 < 1_000_000_000,
{
    match t.duration_since(std::time::UNIX_EPOCH) {
        Ok(d) => Some((d.as_secs(), d.subsec_nanos())),
        Err(_) => None,
    }
}

/// One reading of the system clock: whole seconds since the Unix epoch and the
/// nanoseconds past them, or nothing when the clock is set before the epoch.
/// Only `unix_time` makes one, so a reading in hand was taken from the clock.
pub struct ClockReading {
    reading: Option<(u64, u32)>,
}

impl View for ClockReading {
    type V = Option<(u64, u32)>;

    closed spec fn view(&self) -> Option<(u64, u32)> {
        self.reading
    }
}

impl ClockReading {
    /// What the clock read.
    pub fn value(&self) -> (r: Option<(u64, u32)>)
        ensures
            r == self@,
    {
        self.reading
    }
}

/// Reads the clock: the current time as whole seconds since the Unix epoch and
/// the nanoseconds past them; nothing when the system clock is set before the
/// epoch.
pub fn unix_time() -> (r: ClockReading)
    ensures
        r@ matches Some(p) ==> p.1 < 1_000_000_000,
{
    let now = system_time_now();
    ClockReading { reading: since_unix_epoch(&now) }
}

/// The error of a call that could not read the clock.
pub open spec fn clock_error() -> Seq<char> {
    "System clock is set before the Unix epoch"@
}

} // verus!
