//! The durations of the song language.

use crate::songlang::parser::after_tag_no_case;
use crate::songlang::parser::number_at;
use crate::songlang::parser::run_end;
use crate::songlang::parser::CharClass;
use crate::songlang::parser::Parsed;
use crate::songlang::parser::Source;
use crate::track::ClockTime;
use crate::track::WaitTime;
use crate::utils::NonZeroU16;
use vstd::prelude::*;

verus! {

broadcast use crate::utils::group_nonzero;

/// The units that a duration is given in.
#[derive(Debug, Copy, Clone, PartialEq, Eq, Structural)]
pub enum TimeUnit {
    Ticks,
    Beats,
    Minutes,
    Seconds,
    Millis,
    Micros,
    Nanos,
}

/// The place after the unit word `word` at place `pos`, where capitals and
/// small letters count alike. A word that is `spaced` needs at least one
/// blank before it; before another, blanks may stand.
pub open spec fn unit_word_at(s: Seq<char>, pos: int, word: Seq<char>, spaced: bool) -> Option<
    usize,
> {
    let start = run_end(s, pos, CharClass::Blank);
    if spaced && start <= pos {
        None
    } else {
        after_tag_no_case(s, start, word)
    }
}

/// The unit at place `pos`, with the place after it: the first of the unit
/// words, in the order of this list, that stands there. The long words need
/// a blank before them.
pub open spec fn unit_at(s: Seq<char>, pos: int) -> Option<(TimeUnit, usize)> {
    if let Some(p) = unit_word_at(s, pos, "milliseconds"@, true) {
        Some((TimeUnit::Millis, p))
    } else if let Some(p) = unit_word_at(s, pos, "millis"@, true) {
        Some((TimeUnit::Millis, p))
    } else if let Some(p) = unit_word_at(s, pos, "ms"@, false) {
        Some((TimeUnit::Millis, p))
    } else if let Some(p) = unit_word_at(s, pos, "microseconds"@, true) {
        Some((TimeUnit::Micros, p))
    } else if let Some(p) = unit_word_at(s, pos, "micros"@, true) {
        Some((TimeUnit::Micros, p))
    } else if let Some(p) = unit_word_at(s, pos, "us"@, false) {
        Some((TimeUnit::Micros, p))
    } else if let Some(p) = unit_word_at(s, pos, "nanoseconds"@, true) {
        Some((TimeUnit::Nanos, p))
    } else if let Some(p) = unit_word_at(s, pos, "nanos"@, true) {
        Some((TimeUnit::Nanos, p))
    } else if let Some(p) = unit_word_at(s, pos, "ns"@, false) {
        Some((TimeUnit::Nanos, p))
    } else if let Some(p) = unit_word_at(s, pos, "minutes"@, true) {
        Some((TimeUnit::Minutes, p))
    } else if let Some(p) = unit_word_at(s, pos, "mins"@, true) {
        Some((TimeUnit::Minutes, p))
    } else if let Some(p) = unit_word_at(s, pos, "m"@, false) {
        Some((TimeUnit::Minutes, p))
    } else if let Some(p) = unit_word_at(s, pos, "seconds"@, true) {
        Some((TimeUnit::Seconds, p))
    } else if let Some(p) = unit_word_at(s, pos, "secs"@, true) {
        Some((TimeUnit::Seconds, p))
    } else if let Some(p) = unit_word_at(s, pos, "s"@, false) {
        Some((TimeUnit::Seconds, p))
    } else if let Some(p) = unit_word_at(s, pos, "beats"@, true) {
        Some((TimeUnit::Beats, p))
    } else if let Some(p) = unit_word_at(s, pos, "beat"@, true) {
        Some((TimeUnit::Beats, p))
    } else if let Some(p) = unit_word_at(s, pos, "b"@, false) {
        Some((TimeUnit::Beats, p))
    } else if let Some(p) = unit_word_at(s, pos, "ticks"@, true) {
        Some((TimeUnit::Ticks, p))
    } else if let Some(p) = unit_word_at(s, pos, "tick"@, true) {
        Some((TimeUnit::Ticks, p))
    } else if let Some(p) = unit_word_at(s, pos, "t"@, false) {
        Some((TimeUnit::Ticks, p))
    } else {
        None
    }
}

/// The nanoseconds in one of `unit`, for the units of clock time.
pub open spec fn unit_nanos(unit: TimeUnit) -> nat {
    match unit {
        TimeUnit::Minutes => 60_000_000_000,
        TimeUnit::Seconds => 1_000_000_000,
        TimeUnit::Millis => 1_000_000,
        TimeUnit::Micros => 1_000,
        _ => 1,
    }
}

/// The wait of `n` of `unit`, for `n` above zero; ticks and beats go up to
/// 65535.
pub open spec fn wait_of(n: u64, unit: TimeUnit) -> Option<WaitTime> {
    if n == 0 {
        None
    } else {
        match unit {
            TimeUnit::Ticks => if n <= 65535 {
                Some(WaitTime::Ticks(NonZeroU16::of(n as int)))
            } else {
                None
            },
            TimeUnit::Beats => if n <= 65535 {
                Some(WaitTime::Beats(NonZeroU16::of(n as int)))
            } else {
                None
            },
            _ => Some(WaitTime::Clock(ClockTime { nanos: (n * unit_nanos(unit)) as u128 })),
        }
    }
}

/// The duration at place `pos`: a number above zero, then its unit.
pub open spec fn rawduration_at(s: Seq<char>, pos: int) -> Parsed<WaitTime> {
    match number_at(s, pos, u64::MAX as nat) {
        Parsed::Done(n, p) => match unit_at(s, p as int) {
            Some((unit, q)) => match wait_of(n, unit) {
                Some(w) => Parsed::Done(w, q),
                None => Parsed::Miss,
            },
            None => Parsed::Miss,
        },
        Parsed::Miss => Parsed::Miss,
        Parsed::Fatal => Parsed::Fatal,
    }
}

fn unit_word(src: &Source, pos: usize, word: &str, spaced: bool) -> (r: Option<usize>)
    requires
        src.wf(),
        pos <= src@.len(),
    ensures
        r == unit_word_at(src@, pos as int, word@, spaced),
        r matches Some(p) ==> pos <= p <= src@.len(),
{
    let start = src.skip(pos, CharClass::Blank);
    if spaced && start <= pos {
        None
    } else {
        src.tag_no_case(start, word)
    }
}

fn parse_unit(src: &Source, pos: usize) -> (r: Option<(TimeUnit, usize)>)
    requires
        src.wf(),
        pos <= src@.len(),
    ensures
        r == unit_at(src@, pos as int),
        r matches Some((_, p)) ==> pos <= p <= src@.len(),
{
    if let Some(p) = unit_word(src, pos, "milliseconds", true) {
        Some((TimeUnit::Millis, p))
    } else if let Some(p) = unit_word(src, pos, "millis", true) {
        Some((TimeUnit::Millis, p))
    } else if let Some(p) = unit_word(src, pos, "ms", false) {
        Some((TimeUnit::Millis, p))
    } else if let Some(p) = unit_word(src, pos, "microseconds", true) {
        Some((TimeUnit::Micros, p))
    } else if let Some(p) = unit_word(src, pos, "micros", true) {
        Some((TimeUnit::Micros, p))
    } else if let Some(p) = unit_word(src, pos, "us", false) {
        Some((TimeUnit::Micros, p))
    } else if let Some(p) = unit_word(src, pos, "nanoseconds", true) {
        Some((TimeUnit::Nanos, p))
    } else if let Some(p) = unit_word(src, pos, "nanos", true) {
        Some((TimeUnit::Nanos, p))
    } else if let Some(p) = unit_word(src, pos, "ns", false) {
        Some((TimeUnit::Nanos, p))
    } else if let Some(p) = unit_word(src, pos, "minutes", true) {
        Some((TimeUnit::Minutes, p))
    } else if let Some(p) = unit_word(src, pos, "mins", true) {
        Some((TimeUnit::Minutes, p))
    } else if let Some(p) = unit_word(src, pos, "m", false) {
        Some((TimeUnit::Minutes, p))
    } else if let Some(p) = unit_word(src, pos, "seconds", true) {
        Some((TimeUnit::Seconds, p))
    } else if let Some(p) = unit_word(src, pos, "secs", true) {
        Some((TimeUnit::Seconds, p))
    } else if let Some(p) = unit_word(src, pos, "s", false) {
        Some((TimeUnit::Seconds, p))
    } else if let Some(p) = unit_word(src, pos, "beats", true) {
        Some((TimeUnit::Beats, p))
    } else if let Some(p) = unit_word(src, pos, "beat", true) {
        Some((TimeUnit::Beats, p))
    } else if let Some(p) = unit_word(src, pos, "b", false) {
        Some((TimeUnit::Beats, p))
    } else if let Some(p) = unit_word(src, pos, "ticks", true) {
        Some((TimeUnit::Ticks, p))
    } else if let Some(p) = unit_word(src, pos, "tick", true) {
        Some((TimeUnit::Ticks, p))
    } else if let Some(p) = unit_word(src, pos, "t", false) {
        Some((TimeUnit::Ticks, p))
    } else {
        None
    }
}

fn make_wait(n: u64, unit: TimeUnit) -> (r: Option<WaitTime>)
    ensures
        r == wait_of(n, unit),
{
    if n == 0 {
        return None;
    }
    match unit {
        TimeUnit::Ticks => if n <= 65535 {
            match NonZeroU16::new(n as u16) {
                Some(count) => Some(WaitTime::Ticks(count)),
                None => None,
            }
        } else {
            None
        },
        TimeUnit::Beats => if n <= 65535 {
            match NonZeroU16::new(n as u16) {
                Some(count) => Some(WaitTime::Beats(count)),
                None => None,
            }
        } else {
            None
        },
        TimeUnit::Minutes => Some(WaitTime::Clock(ClockTime { nanos: (n as u128) * 60_000_000_000 })),
        TimeUnit::Seconds => Some(WaitTime::Clock(ClockTime { nanos: (n as u128) * 1_000_000_000 })),
        TimeUnit::Millis => Some(WaitTime::Clock(ClockTime { nanos: (n as u128) * 1_000_000 })),
        TimeUnit::Micros => Some(WaitTime::Clock(ClockTime { nanos: (n as u128) * 1_000 })),
        TimeUnit::Nanos => Some(WaitTime::Clock(ClockTime { nanos: n as u128 })),
    }
}

/// The duration at place `pos`.
pub fn parse_rawduration(src: &Source, pos: usize) -> (r: Parsed<WaitTime>)
    requires
        src.wf(),
        pos <= src@.len(),
    ensures
        r == rawduration_at(src@, pos as int),
        r matches Parsed::Done(_, p) ==> pos < p <= src@.len(),
{
    match src.number(pos, u64::MAX) {
        Parsed::Done(n, p) => match parse_unit(src, p) {
            Some((unit, q)) => match make_wait(n, unit) {
                Some(w) => Parsed::Done(w, q),
                None => Parsed::Miss,
            },
            None => Parsed::Miss,
        },
        Parsed::Miss => Parsed::Miss,
        Parsed::Fatal => Parsed::Fatal,
    }
}

} // verus!
