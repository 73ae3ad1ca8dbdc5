//! Points in time, held as an offset from the Unix epoch, and their text
//! form: whole seconds since the epoch.

use vstd::prelude::*;

use crate::number::{IntParseError, parse_uint, parse_uint_exec};
use crate::text::chars_of;

verus! {

broadcast use vstd::string::group_string_axioms;

/// A point in system time: `secs` seconds and `nanos` nanoseconds after the
/// Unix epoch when `after_epoch` holds, that long before it otherwise.
#[derive(Debug, Clone, Copy, PartialEq, Eq, Structural)]
pub struct SysTime {
    pub after_epoch: bool,
    pub secs: u64,
    pub nanos: u32,
}

/// The stored form of a time: whole seconds after the epoch; none for a time before it.
pub open spec fn epoch_secs(t: SysTime) -> Option<u64> {
    if t.after_epoch {
        Some(t.secs)
    } else {
        None
    }
}

/// The point at the offset `o` from the epoch: `Ok` with seconds and
/// nanoseconds at or after it, `Err` with the distance before it.
pub open spec fn time_of_offset(o: Result<(u64, u32), (u64, u32)>) -> SysTime {
    match o {
        Ok((secs, nanos)) => SysTime { after_epoch: true, secs, nanos },
        Err((secs, nanos)) => SysTime { after_epoch: false, secs, nanos },
    }
}

/// The time `secs` whole seconds after the epoch.
pub open spec fn time_at_secs(secs: u64) -> SysTime {
    SysTime { after_epoch: true, secs, nanos: 0 }
}

impl SysTime {
    /// The fields describe one point: nanoseconds below a second, and the
    /// epoch itself counted as after it.
    pub open spec fn wf(self) -> bool {
        &&& self.nanos < 1_000_000_000
        &&& !self.after_epoch ==> (self.secs > 0 || self.nanos > 0)
    }

    /// The offset from the epoch in nanoseconds, negative before it.
    pub open spec fn offset_nanos(self) -> int {
        let n = self.secs * 1_000_000_000 + self.nanos;
        if self.after_epoch {
            n
        } else {
            -n
        }
    }

    /// The current system time: the reading of the system clock, unchanged.
    pub fn now() -> (t: SysTime)
        ensures
            t.wf(),
            exists|c: std::time::SystemTime| t == #[trigger] time_of_offset(system_time_offset(c)),
    {
        let c = system_time_now();
        let t = SysTime::from_system_time(c);
        assert(t == time_of_offset(system_time_offset(c)));
        t
    }

    /// The point that the system clock value `t` denotes.
    pub fn from_system_time(t: std::time::SystemTime) -> (r: SysTime)
        ensures
            r.wf(),
            r == time_of_offset(system_time_offset(t)),
    {
        match offset_from_epoch(t) {
            Ok((secs, nanos)) => SysTime { after_epoch: true, secs, nanos },
            Err((secs, nanos)) => SysTime { after_epoch: false, secs, nanos },
        }
    }

    /// Whole seconds since the epoch, the form in which a time is stored;
    /// `None` for a time before the epoch, which has no such form.
    pub fn to_epoch_secs(&self) -> (r: Option<u64>)
        ensures
            r == epoch_secs(*self),
    {
        if self.after_epoch {
            Some(self.secs)
        } else {
            None
        }
    }

    /// The time `secs` whole seconds after the epoch; `None` where the system
    /// clock cannot hold it, which is never the case for the epoch itself.
    pub fn from_epoch_secs(secs: u64) -> (r: Option<SysTime>)
        ensures
            r matches Some(t) ==> t == time_at_secs(secs),
            secs == 0 ==> r == Some(time_at_secs(secs)),
    {
        if system_time_holds_secs(secs) {
            Some(SysTime { after_epoch: true, secs, nanos: 0 })
        } else {
            None
        }
    }

    /// Parses a count of whole seconds since the epoch.
    pub fn from_str(s: &str) -> (r: Result<SysTime, IntParseError>)
        ensures
            match parse_uint(s@, u64::MAX as int) {
                Err(e) => r == Err::<SysTime, IntParseError>(e),
                Ok(x) => r == Ok::<SysTime, IntParseError>(time_at_secs(x as u64)),
            },
    {
        let cs = chars_of(s);
        match parse_uint_exec(cs.as_slice(), u64::MAX) {
            Err(e) => Err(e),
            Ok(x) => Ok(SysTime { after_epoch: true, secs: x, nanos: 0 }),
        }
    }
}

/// Reading back a stored time and storing it again gives the same form,
/// and the time read back lies within the second the stored time was in.
pub proof fn lemma_stored_time_round_trip(t: SysTime, secs: u64)
    requires
        t.wf(),
        epoch_secs(t) == Some(secs),
    ensures
        epoch_secs(time_at_secs(secs)) == Some(secs),
        time_at_secs(secs).wf(),
        time_at_secs(secs).offset_nanos() <= t.offset_nanos() < time_at_secs(secs).offset_nanos()
            + 1_000_000_000,
{
}

#[verifier::external_type_specification]
#[verifier::external_body]
pub struct ExSystemTime(std::time::SystemTime);

/// The current time of the system clock.
///
/// Trusted: calls `std::time::SystemTime::now`; nothing is stated of the value.
#[verifier::external_body]
fn system_time_now() -> std::time::SystemTime {
    std::time::SystemTime::now()
}

/// How far the system time `t` is from the Unix epoch: `Ok` with seconds and
/// nanoseconds at or after it, `Err` with the distance before it. Named
/// result of `SystemTime::duration_since(UNIX_EPOCH)`.
pub uninterp spec fn system_time_offset(t: std::time::SystemTime) -> Result<(u64, u32), (u64, u32)>;

/// How far `t` is from the Unix epoch: `Ok` with seconds and nanoseconds at
/// or after it, `Err` with the distance before it.
///
/// Trusted: calls `SystemTime::duration_since(UNIX_EPOCH)` and splits the
/// `Duration` (of the `Ok` value, or of the error) with `as_secs` and
/// `subsec_nanos`. What is stated is what the standard library documents:
/// sub-second nanoseconds are below one second, and `duration_since` fails
/// only for a time strictly before the epoch. The result is a function of
/// `t` alone, named [`system_time_offset`].
#[verifier::external_body]
fn offset_from_epoch(t: std::time::SystemTime) -> (r: Result<(u64, u32), (u64, u32)>)
    ensures
        r == system_time_offset(t),
        r matches Ok((s, n)) ==> n < 1_000_000_000,
        r matches Err((s, n)) ==> n < 1_000_000_000 && (s > 0 || n > 0),
{
    match t.duration_since(std::time::UNIX_EPOCH) {
        Ok(d) => Ok((d.as_secs(), d.subsec_nanos())),
        Err(e) => Err((e.duration().as_secs(), e.duration().subsec_nanos())),
    }
}

/// Whether the system clock can hold the time `secs` seconds after the epoch.
///
/// Trusted: calls `SystemTime::checked_add` on `UNIX_EPOCH` with
/// `Duration::from_secs(secs)`, which the standard library documents as
/// `Some` exactly when the sum can be represented. Stated is only that the
/// epoch itself (zero seconds) can: `UNIX_EPOCH` is a `SystemTime`. Beyond
/// that the range of `SystemTime` depends on the platform and is left unsaid.
#[verifier::external_body]
fn system_time_holds_secs(secs: u64) -> (r: bool)
    ensures
        secs == 0 ==> r,
{
    std::time::UNIX_EPOCH.checked_add(std::time::Duration::from_secs(secs)).is_some()
}

} // verus!
