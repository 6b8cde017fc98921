//! Session timing (`t=`) and repeat times (`r=`), with instants held as
//! UNIX seconds and durations as seconds.

use vstd::prelude::*;
use crate::bytes::{separate_trimmed, separate_trimmed_spec};
use crate::error::ParsingError;
use crate::net::SPACE;
use crate::text::{number_fits, number_value, utf8_to_i64};

verus! {

/// Seconds between the NTP epoch (1900) and the UNIX epoch (1970).
pub const NTP_UNIX_OFFSET: i64 = 2208988800;

/// Whether a `DateTime<Utc>` of chrono can hold the instant `secs` seconds
/// after the UNIX epoch.
pub uninterp spec fn utc_representable(secs: int) -> bool;

/// Relies on chrono's `Utc.timestamp_opt(secs, 0)`: a single instant when
/// `secs` is in chrono's range of dates, none otherwise.
#[verifier::external_body]
fn utc_timestamp_valid(secs: i64) -> (r: bool)
    ensures
        r == utc_representable(secs as int),
{
    chrono::TimeZone::timestamp_opt(&chrono::Utc, secs, 0).single().is_some()
}

/// The UNIX instant of an NTP time in seconds, when it is representable.
pub open spec fn ntp_to_unix(ntp: int) -> Option<int> {
    let u = ntp - NTP_UNIX_OFFSET;
    if i64::MIN <= u && utc_representable(u) {
        Some(u)
    } else {
        None
    }
}

/// Converts NTP seconds to UNIX seconds; `InvalidData` out of range.
fn ntp_seconds_to_unix(ntp: i64) -> (r: Option<i64>)
    ensures
        match r {
            Some(u) => ntp_to_unix(ntp as int) == Some(u as int),
            None => ntp_to_unix(ntp as int) is None,
        },
{
    match ntp.checked_sub(NTP_UNIX_OFFSET) {
        Some(u) => if utc_timestamp_valid(u) {
            Some(u)
        } else {
            None
        },
        None => None,
    }
}

/// The start and optional stop of a session, as UNIX seconds.
#[derive(Debug, Clone, Copy, PartialEq, Eq)]
pub struct Timing {
    start_time: i64,
    stop_time: Option<i64>,
}

/// The start and stop NTP texts of a `t=` value.
pub open spec fn timing_parts(data: Seq<u8>) -> (Seq<u8>, Option<Seq<u8>>) {
    match separate_trimmed_spec(data, SPACE@, SPACE@) {
        Some((start, stop)) => (start, Some(stop)),
        None => (data, None),
    }
}

/// What a `t=` value decodes to: the start instant and the optional stop
/// instant (absent when the stop field is absent or 0); nothing when a
/// field is no `i64`, an instant is out of range, or the stop is before
/// the start.
pub open spec fn timing_of(data: Seq<u8>) -> Option<(int, Option<int>)> {
    let (start, stop) = timing_parts(data);
    if !number_fits(start, i64::MIN as int, i64::MAX as int) {
        None
    } else {
        match ntp_to_unix(number_value(start)) {
            None => None,
            Some(s) => match stop {
                None => Some((s, None)),
                Some(t) => if !number_fits(t, i64::MIN as int, i64::MAX as int) {
                    None
                } else if number_value(t) == 0 {
                    Some((s, None))
                } else {
                    match ntp_to_unix(number_value(t)) {
                        None => None,
                        Some(e) => if s <= e {
                            Some((s, Some(e)))
                        } else {
                            None
                        },
                    }
                },
            },
        }
    }
}

/// Whether `t` holds what the `t=` value `data` says; the stop is never
/// before the start.
pub open spec fn is_timing_of(t: Timing, data: Seq<u8>) -> bool {
    &&& timing_of(data) == Some(
        (
            t.spec_start_time() as int,
            match t.spec_stop_time() {
                Some(e) => Some(e as int),
                None => None::<int>,
            },
        ),
    )
    &&& (t.spec_stop_time() matches Some(e) ==> t.spec_start_time() <= e)
}

impl Timing {
    pub closed spec fn spec_start_time(&self) -> i64 {
        self.start_time
    }

    pub closed spec fn spec_stop_time(&self) -> Option<i64> {
        self.stop_time
    }

    /// Decodes `<start> [<stop>]` in NTP seconds.
    pub fn parse(data: &[u8]) -> (r: Result<Timing, ParsingError>)
        ensures
            r is Ok <==> timing_of(data@) is Some,
            r matches Ok(t) ==> is_timing_of(t, data@),
    {
        let sp = SPACE.as_slice();
        let (start_text, stop_text) = match separate_trimmed(data, sp, sp) {
            Some((a, b)) => (a, Some(b)),
            None => (data, None),
        };
        let start = match utf8_to_i64(start_text) {
            Ok(v) => v,
            Err(e) => return Err(ParsingError::Utf8Error(e)),
        };
        let start_time = match ntp_seconds_to_unix(start) {
            Some(u) => u,
            None => return Err(ParsingError::from_bytes(data)),
        };
        let stop_time = match stop_text {
            None => None,
            Some(t) => {
                let stop = match utf8_to_i64(t) {
                    Ok(v) => v,
                    Err(e) => return Err(ParsingError::Utf8Error(e)),
                };
                if stop == 0 {
                    None
                } else {
                    match ntp_seconds_to_unix(stop) {
                        Some(u) => {
                            if u < start_time {
                                return Err(ParsingError::from_bytes(data));
                            }
                            Some(u)
                        },
                        None => return Err(ParsingError::from_bytes(data)),
                    }
                }
            },
        };
        Ok(Timing { start_time, stop_time })
    }

    /// A timing from UNIX seconds; the stop is not before the start.
    pub fn new(start_time: i64, stop_time: Option<i64>) -> (r: Timing)
        requires
            stop_time matches Some(e) ==> start_time <= e,
        ensures
            r.spec_start_time() == start_time,
            r.spec_stop_time() == stop_time,
    {
        Timing { start_time, stop_time }
    }

    pub fn start_time(&self) -> (r: i64)
        ensures
            r == self.spec_start_time(),
    {
        self.start_time
    }

    pub fn stop_time(&self) -> (r: Option<i64>)
        ensures
            r == self.spec_stop_time(),
    {
        self.stop_time
    }

    /// The length of the session in seconds; nothing without a stop time
    /// or when it does not fit an `i64`.
    pub fn get_duration(&self) -> (r: Option<i64>)
        ensures
            match self.spec_stop_time() {
                Some(e) => {
                    let d = e - self.spec_start_time();
                    &&& i64::MIN <= d <= i64::MAX ==> r == Some(d as i64)
                    &&& !(i64::MIN <= d <= i64::MAX) ==> r is None
                },
                None => r is None,
            },
    {
        match self.stop_time {
            Some(e) => e.checked_sub(self.start_time),
            None => None,
        }
    }
}

/// The number of seconds in one unit: `d`, `h`, `m` or `s`; 0 for any other byte.
pub open spec fn unit_seconds(u: u8) -> int {
    if u == 100 {
        86400
    } else if u == 104 {
        3600
    } else if u == 109 {
        60
    } else if u == 115 {
        1
    } else {
        0
    }
}

/// A duration token in seconds: digits with an optional unit suffix
/// `d|h|m|s`; nothing when it is no such token or does not fit an `i64`.
pub open spec fn duration_of(t: Seq<u8>) -> Option<int> {
    if t.len() == 0 {
        None
    } else if unit_seconds(t.last()) > 0 {
        let b = t.drop_last();
        let v = number_value(b) * unit_seconds(t.last());
        if number_fits(b, i64::MIN as int, i64::MAX as int) && i64::MIN <= v <= i64::MAX {
            Some(v)
        } else {
            None
        }
    } else if number_fits(t, i64::MIN as int, i64::MAX as int) {
        Some(number_value(t))
    } else {
        None
    }
}

/// Whether `u` is one of the unit suffixes `d`, `h`, `m`, `s`.
pub fn is_unit_spec(u: u8) -> (r: bool)
    ensures
        r == (unit_seconds(u) > 0),
{
    u == 100 || u == 104 || u == 109 || u == 115
}

/// Decodes a duration token into seconds; `InvalidData` for any other
/// token (UTF-8 text that is no digits with an optional unit suffix).
pub fn parse_duration(data: &[u8]) -> (r: Result<i64, ParsingError>)
    ensures
        match r {
            Ok(v) => duration_of(data@) == Some(v as int),
            Err(_) => duration_of(data@) is None,
        },
        r is Err && vstd::utf8::valid_utf8(data@) ==> r->Err_0 is InvalidData,
{
    let n = data.len();
    if n == 0 {
        return Err(ParsingError::InvalidData("Data is empty.".to_owned()));
    }
    let unit = data[n - 1];
    if !is_unit_spec(unit) {
        return match utf8_to_i64(data) {
            Ok(v) => Ok(v),
            Err(_) => Err(ParsingError::from_bytes(data)),
        };
    }
    let body = vstd::slice::slice_subrange(data, 0, n - 1);
    assert(body@ =~= data@.drop_last());
    let value = match utf8_to_i64(body) {
        Ok(v) => v,
        Err(_) => return Err(ParsingError::from_bytes(data)),
    };
    let factor: i64 = if unit == 100 {
        86400
    } else if unit == 104 {
        3600
    } else if unit == 109 {
        60
    } else {
        1
    };
    match value.checked_mul(factor) {
        Some(v) => Ok(v),
        None => Err(ParsingError::from_bytes(data)),
    }
}

/// The four duration texts of an `r=` value.
pub open spec fn repeat_parts(data: Seq<u8>) -> Option<(Seq<u8>, Seq<u8>, Seq<u8>, Seq<u8>)> {
    match separate_trimmed_spec(data, SPACE@, SPACE@) {
        None => None,
        Some((a, o1)) => match separate_trimmed_spec(o1, SPACE@, SPACE@) {
            None => None,
            Some((b, o2)) => match separate_trimmed_spec(o2, SPACE@, SPACE@) {
                None => None,
                Some((c, d)) => Some((a, b, c, d)),
            },
        },
    }
}

/// The `r=` line: repeat interval, active duration and two offsets, in seconds.
#[derive(Debug, Clone, Copy, PartialEq, Eq)]
pub struct RepeatTimes {
    repeat_interval: i64,
    active_duration: i64,
    offset1: i64,
    offset2: i64,
}

impl RepeatTimes {
    pub closed spec fn spec_fields(&self) -> (i64, i64, i64, i64) {
        (self.repeat_interval, self.active_duration, self.offset1, self.offset2)
    }

    /// Decodes four space-separated duration tokens.
    pub fn parse(data: &[u8]) -> (r: Result<RepeatTimes, ParsingError>)
        ensures
            r is Ok <==> (repeat_parts(data@) matches Some((a, b, c, d)) && duration_of(a) is Some && duration_of(
                b,
            ) is Some && duration_of(c) is Some && duration_of(d) is Some),
            r matches Ok(t) ==> repeat_parts(data@) matches Some((a, b, c, d)) && {
                let (i, ad, o1, o2) = t.spec_fields();
                &&& duration_of(a) == Some(i as int)
                &&& duration_of(b) == Some(ad as int)
                &&& duration_of(c) == Some(o1 as int)
                &&& duration_of(d) == Some(o2 as int)
            },
    {
        let sp = SPACE.as_slice();
        let (interval, other) = match separate_trimmed(data, sp, sp) {
            Some(p) => p,
            None => return Err(ParsingError::from_bytes(data)),
        };
        let (duration, other) = match separate_trimmed(other, sp, sp) {
            Some(p) => p,
            None => return Err(ParsingError::from_bytes(data)),
        };
        let (offset1, offset2) = match separate_trimmed(other, sp, sp) {
            Some(p) => p,
            None => return Err(ParsingError::from_bytes(data)),
        };
        let repeat_interval = match parse_duration(interval) {
            Ok(v) => v,
            Err(e) => return Err(e),
        };
        let active_duration = match parse_duration(duration) {
            Ok(v) => v,
            Err(e) => return Err(e),
        };
        let offset1 = match parse_duration(offset1) {
            Ok(v) => v,
            Err(e) => return Err(e),
        };
        let offset2 = match parse_duration(offset2) {
            Ok(v) => v,
            Err(e) => return Err(e),
        };
        Ok(RepeatTimes { repeat_interval, active_duration, offset1, offset2 })
    }

    pub fn new(repeat_interval: i64, active_duration: i64, offset1: i64, offset2: i64) -> (r: RepeatTimes)
        ensures
            r.spec_fields() == (repeat_interval, active_duration, offset1, offset2),
    {
        RepeatTimes { repeat_interval, active_duration, offset1, offset2 }
    }

    pub fn repeat_interval(&self) -> (r: i64)
        ensures
            r == self.spec_fields().0,
    {
        self.repeat_interval
    }

    pub fn active_duration(&self) -> (r: i64)
        ensures
            r == self.spec_fields().1,
    {
        self.active_duration
    }

    pub fn offset1(&self) -> (r: i64)
        ensures
            r == self.spec_fields().2,
    {
        self.offset1
    }

    pub fn offset2(&self) -> (r: i64)
        ensures
            r == self.spec_fields().3,
    {
        self.offset2
    }

    /// The two offsets.
    pub fn offsets(&self) -> (r: [i64; 2])
        ensures
            r@ == seq![self.spec_fields().2, self.spec_fields().3],
    {
        let r: [i64; 2] = [self.offset1, self.offset2];
        assert(r@ =~= seq![self.offset1, self.offset2]);
        r
    }
}

} // verus!
