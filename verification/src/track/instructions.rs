//! The instructions of a track, and the times they wait for.

use crate::midi::MidiMessage;
use crate::utils::NonZeroU16;
use vstd::arithmetic::div_mod::lemma_div_by_multiple;
use vstd::arithmetic::div_mod::lemma_div_is_ordered_by_denominator;
use vstd::arithmetic::mul::lemma_mul_upper_bound;
use vstd::prelude::*;

verus! {

broadcast use crate::utils::group_nonzero;

/// A span of clock time, or a point of it counted from the start of a
/// track, in nanoseconds.
#[derive(Debug, Copy, Clone, PartialEq, Eq, Structural, Hash)]
pub struct ClockTime {
    pub nanos: u128,
}

impl ClockTime {
    /// No time at all.
    pub fn zero() -> (r: ClockTime)
        ensures
            r.nanos == 0,
    {
        ClockTime { nanos: 0 }
    }

    pub fn from_nanos(nanos: u64) -> (r: ClockTime)
        ensures
            r.nanos == nanos,
    {
        ClockTime { nanos: nanos as u128 }
    }

    pub fn from_micros(micros: u64) -> (r: ClockTime)
        ensures
            r.nanos == micros * 1_000,
    {
        ClockTime { nanos: (micros as u128) * 1_000 }
    }

    pub fn from_millis(millis: u64) -> (r: ClockTime)
        ensures
            r.nanos == millis * 1_000_000,
    {
        ClockTime { nanos: (millis as u128) * 1_000_000 }
    }

    pub fn from_secs(secs: u64) -> (r: ClockTime)
        ensures
            r.nanos == secs * 1_000_000_000,
    {
        ClockTime { nanos: (secs as u128) * 1_000_000_000 }
    }

    pub fn as_nanos(&self) -> (r: u128)
        ensures
            r == self.nanos,
    {
        self.nanos
    }

    /// The whole microseconds in this time.
    pub fn as_micros(&self) -> (r: u128)
        ensures
            r == self.nanos / 1_000,
    {
        self.nanos / 1_000
    }

    /// The sum of two times, kept at the largest time where it would pass it.
    pub open spec fn plus(self, other: ClockTime) -> ClockTime {
        ClockTime {
            nanos: if self.nanos + other.nanos > u128::MAX {
                u128::MAX
            } else {
                (self.nanos + other.nanos) as u128
            },
        }
    }

    /// The sum of two times, kept at the largest time where it would pass it.
    pub fn saturating_add(self, other: ClockTime) -> (r: ClockTime)
        ensures
            r == self.plus(other),
            r.nanos >= self.nanos,
    {
        if self.nanos > u128::MAX - other.nanos {
            ClockTime { nanos: u128::MAX }
        } else {
            ClockTime { nanos: self.nanos + other.nanos }
        }
    }

    /// What is left of `self` after `other`; nothing where `other` is the
    /// longer.
    pub fn saturating_sub(self, other: ClockTime) -> (r: ClockTime)
        ensures
            r.nanos == if self.nanos >= other.nanos {
                self.nanos - other.nanos
            } else {
                0
            },
    {
        if self.nanos >= other.nanos {
            ClockTime { nanos: self.nanos - other.nanos }
        } else {
            ClockTime { nanos: 0 }
        }
    }
}

/// The nanoseconds in a minute.
pub const NANOS_PER_MINUTE: u64 = 60_000_000_000;

/// A count brought into 1 to 65535: 1 for less, 65535 for more.
pub open spec fn clamped_count(raw: int) -> NonZeroU16 {
    if raw > 65535 {
        NonZeroU16::of(65535)
    } else if raw <= 0 {
        NonZeroU16::of(1)
    } else {
        NonZeroU16::of(raw)
    }
}

/// A count brought into 1 to 65535: 1 for zero, 65535 for more.
pub fn clamped_to_nonzerou16(raw: u128) -> (r: NonZeroU16)
    ensures
        r == clamped_count(raw as int),
        r.wf(),
{
    let small: u16 = if raw > 65535 {
        65535
    } else if raw == 0 {
        1
    } else {
        raw as u16
    };
    match NonZeroU16::new(small) {
        Some(n) => n,
        None => NonZeroU16::one(),
    }
}

/// How a song keeps time: how many beats a minute holds, and how many ticks
/// a beat.
#[derive(Debug, Copy, Clone, PartialEq, Eq, Structural, Hash)]
pub struct BpmInfo {
    /// The beats in a minute; 120 unless set.
    pub beats_per_minute: NonZeroU16,
    /// The ticks that a beat is cut into; 32 unless set. A tick is the
    /// shortest span that a track can address.
    pub ticks_per_beat: NonZeroU16,
}

impl BpmInfo {
    /// Whether both counts are in range.
    pub open spec fn wf(self) -> bool {
        self.beats_per_minute.wf() && self.ticks_per_beat.wf()
    }

    /// The timing of a song that sets none: 120 beats a minute, 32 ticks a
    /// beat.
    pub open spec fn standard() -> BpmInfo {
        BpmInfo { beats_per_minute: NonZeroU16::of(120), ticks_per_beat: NonZeroU16::of(32) }
    }

    /// The nanoseconds that a beat takes, rounded down.
    pub open spec fn beat_nanos(self) -> int {
        NANOS_PER_MINUTE as int / self.beats_per_minute.value()
    }

    /// The nanoseconds that a tick takes: those of a beat over the ticks in
    /// a beat, rounded down.
    pub open spec fn tick_nanos(self) -> int {
        self.beat_nanos() / self.ticks_per_beat.value()
    }

    /// A beat takes at least 915541 nanoseconds and a tick at least 13, and
    /// neither more than a minute.
    pub proof fn lemma_tick_nanos_bounds(self)
        requires
            self.wf(),
        ensures
            915541 <= self.beat_nanos() <= NANOS_PER_MINUTE,
            13 <= self.tick_nanos() <= NANOS_PER_MINUTE,
    {
        let b = self.beats_per_minute.value();
        let t = self.ticks_per_beat.value();
        lemma_div_is_ordered_by_denominator(NANOS_PER_MINUTE as int, b, 65535);
        lemma_div_is_ordered_by_denominator(NANOS_PER_MINUTE as int, 1, b);
        let nb = self.beat_nanos();
        lemma_div_is_ordered_by_denominator(nb, t, 65535);
        lemma_div_is_ordered_by_denominator(nb, 1, t);
        assert(nb / 65535 >= 915541int / 65535) by {
            vstd::arithmetic::div_mod::lemma_div_is_ordered(915541, nb, 65535);
        }
    }

    fn nanos_per_beat(&self) -> (r: u64)
        ensures
            r == self.beat_nanos(),
            self.wf(),
    {
        proof {
            use_type_invariant(&self.ticks_per_beat);
        }
        NANOS_PER_MINUTE / (self.beats_per_minute.get() as u64)
    }

    fn nanos_per_tick(&self) -> (r: u64)
        ensures
            r == self.tick_nanos(),
            self.wf(),
            13 <= r <= NANOS_PER_MINUTE,
    {
        let r = self.nanos_per_beat() / (self.ticks_per_beat.get() as u64);
        proof {
            self.lemma_tick_nanos_bounds();
        }
        r
    }

    /// The clock time from the start of a beat to the start of the next.
    pub fn beat_duration(&self) -> (r: ClockTime)
        ensures
            r.nanos == self.beat_nanos(),
    {
        ClockTime::from_nanos(self.nanos_per_beat())
    }

    /// The clock time from the start of a tick to the start of the next.
    pub fn tick_duration(&self) -> (r: ClockTime)
        ensures
            r.nanos == self.tick_nanos(),
    {
        ClockTime::from_nanos(self.nanos_per_tick())
    }
}

impl Default for BpmInfo {
    fn default() -> (r: BpmInfo)
        ensures
            r == BpmInfo::standard(),
    {
        let beats = match NonZeroU16::new(120) {
            Some(n) => n,
            None => NonZeroU16::one(),
        };
        let ticks = match NonZeroU16::new(32) {
            Some(n) => n,
            None => NonZeroU16::one(),
        };
        BpmInfo { beats_per_minute: beats, ticks_per_beat: ticks }
    }
}

/// A time that a track waits for, in one of the two ways a song measures
/// time: by the clock, or in beats and their ticks.
#[derive(Debug, Copy, Clone, PartialEq, Eq, Structural, Hash)]
pub enum WaitTime {
    /// A span of clock time.
    Clock(ClockTime),
    /// A number of beats.
    Beats(NonZeroU16),
    /// A number of ticks.
    Ticks(NonZeroU16),
}

impl WaitTime {
    /// Whether the count that the wait holds, if any, is in range.
    pub open spec fn wf(self) -> bool {
        match self {
            WaitTime::Clock(_) => true,
            WaitTime::Beats(b) => b.wf(),
            WaitTime::Ticks(t) => t.wf(),
        }
    }

    /// The wait in ticks under `bpm`: the ticks themselves; for beats, the
    /// ticks they hold; for clock time, the whole ticks that fit in it; each
    /// brought into 1 to 65535.
    pub open spec fn ticks(self, bpm: BpmInfo) -> NonZeroU16 {
        match self {
            WaitTime::Ticks(t) => t,
            WaitTime::Clock(d) => clamped_count(d.nanos as int / bpm.tick_nanos()),
            WaitTime::Beats(b) => clamped_count(b.value() * bpm.ticks_per_beat.value()),
        }
    }

    /// The wait in clock time under `bpm`: the clock time itself; for ticks
    /// and beats, as many tick lengths as they hold.
    pub open spec fn duration(self, bpm: BpmInfo) -> ClockTime {
        match self {
            WaitTime::Clock(d) => d,
            WaitTime::Beats(b) => ClockTime {
                nanos: (b.value() * bpm.ticks_per_beat.value() * bpm.tick_nanos()) as u128,
            },
            WaitTime::Ticks(t) => ClockTime { nanos: (t.value() * bpm.tick_nanos()) as u128 },
        }
    }

    /// Converts the wait to ticks under `bpm_info`.
    pub fn as_ticks(&self, bpm_info: BpmInfo) -> (r: NonZeroU16)
        ensures
            r == self.ticks(bpm_info),
            r.wf(),
    {
        match *self {
            WaitTime::Ticks(ticks) => {
                let _ = ticks.get();
                ticks
            },
            WaitTime::Clock(dur) => {
                let nanos_per_tick: u128 = bpm_info.nanos_per_tick() as u128;
                let self_nanos: u128 = dur.as_nanos();
                let ticks: u128 = self_nanos / nanos_per_tick;
                clamped_to_nonzerou16(ticks)
            },
            WaitTime::Beats(b) => {
                let beats: u32 = b.get() as u32;
                let per_beat: u32 = bpm_info.ticks_per_beat.get() as u32;
                proof {
                    lemma_mul_upper_bound(beats as int, 65535, per_beat as int, 65535);
                }
                let raw: u32 = beats * per_beat;
                clamped_to_nonzerou16(raw as u128)
            },
        }
    }

    /// Converts the wait to clock time under `bpm_info`.
    pub fn as_duration(&self, bpm_info: BpmInfo) -> (r: ClockTime)
        ensures
            r == self.duration(bpm_info),
    {
        match *self {
            WaitTime::Beats(b) => {
                let per_tick: u64 = bpm_info.nanos_per_tick();
                let per_beat: u64 = bpm_info.ticks_per_beat.get() as u64;
                let beats: u64 = b.get() as u64;
                proof {
                    lemma_mul_upper_bound(per_beat as int, 65535, beats as int, 65535);
                }
                let ticks: u64 = per_beat * beats;
                proof {
                    lemma_mul_upper_bound(
                        ticks as int,
                        4294836225int,
                        per_tick as int,
                        NANOS_PER_MINUTE as int,
                    );
                    assert(b.value() * bpm_info.ticks_per_beat.value() * per_tick == ticks
                        * per_tick) by (nonlinear_arith)
                        requires
                            ticks == bpm_info.ticks_per_beat.value() * b.value(),
                    ;
                }
                ClockTime { nanos: (ticks as u128) * (per_tick as u128) }
            },
            WaitTime::Clock(dur) => dur,
            WaitTime::Ticks(ticks) => {
                let per_tick: u64 = bpm_info.nanos_per_tick();
                let n: u64 = ticks.get() as u64;
                proof {
                    lemma_mul_upper_bound(
                        n as int,
                        65535,
                        per_tick as int,
                        NANOS_PER_MINUTE as int,
                    );
                }
                ClockTime { nanos: (n as u128) * (per_tick as u128) }
            },
        }
    }
}

/// A wait of whole ticks, turned into clock time and back into ticks under
/// one timing, is the same number of ticks.
pub proof fn lemma_ticks_round_trip(bpm: BpmInfo, n: NonZeroU16)
    requires
        bpm.wf(),
        n.wf(),
    ensures
        WaitTime::Clock(WaitTime::Ticks(n).duration(bpm)).ticks(bpm) == n,
{
    bpm.lemma_tick_nanos_bounds();
    let per_tick = bpm.tick_nanos();
    lemma_mul_upper_bound(n.value(), 65535, per_tick, NANOS_PER_MINUTE as int);
    lemma_div_by_multiple(n.value(), per_tick);
}

/// Where a message leaves the sequencer: the index of an output of its
/// track.
#[derive(Debug, Copy, Clone, PartialEq, Eq, Structural, Hash, PartialOrd, Ord)]
pub struct OutputPort {
    pub idx: u128,
}

impl From<usize> for OutputPort {
    fn from(inner: usize) -> (r: Self) {
        OutputPort { idx: inner as u128 }
    }
}

impl vstd::std_specs::convert::FromSpecImpl<usize> for OutputPort {
    open spec fn obeys_from_spec() -> bool {
        true
    }

    open spec fn from_spec(inner: usize) -> Self {
        OutputPort { idx: inner as u128 }
    }
}

/// The instructions that a track is made of.
#[derive(Debug, Copy, Clone, PartialEq, Eq, Hash)]
pub enum TrackEvent {
    /// Sends `message` out of `port`.
    SendMessage { message: MidiMessage, port: OutputPort },
    /// Moves the clock on by a time.
    Wait(WaitTime),
    /// Sets the song's timing from here on.
    SetBpm(BpmInfo),
    /// Goes on at the instruction `target`. With a count of `n`, the jump is
    /// taken `n` times and passed over the time after, and so on in turns.
    Jump { target: usize, count: Option<NonZeroU16> },
    /// The end of the track: playback does not go past it.
    End,
}

} // verus!
