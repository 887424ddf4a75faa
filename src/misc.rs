use vstd::prelude::*;

verus! {

/// Whether chrono can represent the UTC instant `secs` seconds and `nanos` nanoseconds
/// after the Unix epoch.
pub uninterp spec fn timestamp_in_range(secs: i64, nanos: u32) -> bool;

/// Relies on chrono's `DateTime::from_timestamp`: it returns `Some` exactly for the instants
/// chrono can represent, and never for a sub-second part of two seconds or more, nor for one
/// past a second (a leap second) anywhere but in the last second of a minute.
#[verifier::external_body]
fn chrono_accepts(secs: i64, nanos: u32) -> (r: bool)
    ensures
        r == timestamp_in_range(secs, nanos),
        r ==> nanos < 2_000_000_000,
        r && nanos >= 1_000_000_000 ==> secs % 60 == 59,
{
    chrono::DateTime::from_timestamp(secs, nanos).is_some()
}

/// A UTC instant: whole seconds since the Unix epoch and the nanoseconds past them.
#[derive(Copy, Clone)]
pub struct DateTimeUTC {
    secs: i64,
    nanos: u32,
}

impl DateTimeUTC {
    /// Seconds since the Unix epoch.
    pub closed spec fn secs_spec(&self) -> i64 {
        self.secs
    }

    /// Nanoseconds past the whole second.
    pub closed spec fn nanos_spec(&self) -> u32 {
        self.nanos
    }

    /// The instant is one that chrono can represent.
    pub open spec fn wf(&self) -> bool {
        timestamp_in_range(self.secs_spec(), self.nanos_spec())
    }

    /// The instant `secs` seconds and `nanos` nanoseconds after the Unix epoch,
    /// or `None` where that is not a representable instant.
    pub fn from_timestamp(secs: i64, nanos: u32) -> (r: Option<DateTimeUTC>)
        ensures
            r is Some <==> timestamp_in_range(secs, nanos),
            r matches Some(d) ==> d.secs_spec() == secs && d.nanos_spec() == nanos && d.wf(),
    {
        if chrono_accepts(secs, nanos) {
            Some(DateTimeUTC { secs, nanos })
        } else {
            None
        }
    }

    /// Seconds since the Unix epoch.
    pub fn timestamp(&self) -> (r: i64)
        ensures
            r == self.secs_spec(),
    {
        self.secs
    }

    /// Nanoseconds past the whole second.
    pub fn timestamp_subsec_nanos(&self) -> (r: u32)
        ensures
            r == self.nanos_spec(),
    {
        self.nanos
    }

    /// The pair (seconds, nanoseconds) that the instant is written as.
    pub fn to_parts(&self) -> (r: (i64, u32))
        ensures
            r == (self.secs_spec(), self.nanos_spec()),
    {
        (self.secs, self.nanos)
    }

    /// Read an instant back from the pair (seconds, nanoseconds).
    pub fn from_parts(parts: (i64, u32)) -> (r: Option<DateTimeUTC>)
        ensures
            r is Some <==> timestamp_in_range(parts.0, parts.1),
            r matches Some(d) ==> (d.secs_spec(), d.nanos_spec()) == parts,
    {
        DateTimeUTC::from_timestamp(parts.0, parts.1)
    }
}

} // verus!
