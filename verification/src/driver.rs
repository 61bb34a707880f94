//! What the realtime side does in each cycle of the host: it turns the
//! host's clock into track time, heeds pause and restart, and stamps the
//! messages that are due with the host's time.

use crate::midi::MidiChannel;
use crate::midi::MidiMessage;
use crate::midi::MidiNote;
use crate::midi::NoteOn;
use crate::midi::PressVelocity;
use crate::songlang::ast::OutputLabel;
use crate::track::cursor::CursorState;
use crate::track::cursor::StepError;
use crate::track::multicursor::multi_next;
use crate::track::multicursor::multi_run;
use crate::track::multicursor::PortIdent;
use crate::track::multicursor::TrackMessage;
use crate::track::multicursor::VecMultiCursor;
use crate::track::ClockTime;
use crate::track::EventTrack;
use crate::track::TrackEvent;
use vstd::prelude::*;
use vstd::string::StringExecFns;

verus! {

broadcast use crate::midi::group_midi_values;

/// A message with the host's time at which it is due, in microseconds, and
/// the port of the track that it leaves by.
pub type StampedMessage = (u64, PortIdent, MidiMessage);

/// The start of playback after a cycle that was paused throughout: later by
/// the length of the cycle, so that track time stands still. Playback that
/// has not started stays so.
pub open spec fn paused_start(start: Option<u64>, cur_usecs: u64, next_usecs: u64) -> Option<u64> {
    match start {
        None => None,
        Some(s) => {
            let length = if next_usecs >= cur_usecs {
                next_usecs - cur_usecs
            } else {
                0
            };
            Some(
                if s + length > u64::MAX {
                    u64::MAX
                } else {
                    (s + length) as u64
                },
            )
        },
    }
}

/// The track time at which a cycle ends: the host's time at the end of the
/// cycle, counted from the start of playback; zero where playback starts
/// later.
pub open spec fn track_end(start_usecs: u64, next_usecs: u64) -> ClockTime {
    ClockTime {
        nanos: if next_usecs >= start_usecs {
            ((next_usecs - start_usecs) * 1000) as u128
        } else {
            0
        },
    }
}

/// The host's time, in microseconds, of the track time `time` where
/// playback started at `start_usecs`; it is counted round the 64 bits of the
/// host's clock.
pub open spec fn host_time(start_usecs: u64, time: ClockTime) -> u64 {
    ((time.nanos / 1000 + start_usecs) % 0x1_0000_0000_0000_0000) as u64
}

/// The messages `sent`, each with the host's time in place of its track
/// time.
pub open spec fn stamped(sent: Seq<TrackMessage>, start_usecs: u64) -> Seq<StampedMessage> {
    Seq::new(sent.len(), |i: int| (host_time(start_usecs, sent[i].0), sent[i].1, sent[i].2))
}

/// The state of a driver: the registers of its cursors, and the host's time
/// at which playback started, if it has.
pub struct DriverState {
    pub cursors: Seq<CursorState>,
    pub start: Option<u64>,
}

/// What a cycle came to.
pub struct CycleOutput {
    /// Whether playback was restarted: every note is to be silenced on every
    /// port before anything else is written.
    pub restarted: bool,
    /// The messages that are due in this cycle, in the order in which they
    /// are to be written.
    pub events: Vec<StampedMessage>,
}

/// The registers of cursors at the start of each of `tracks`.
pub open spec fn all_initial(tracks: Seq<Seq<TrackEvent>>) -> Seq<CursorState> {
    Seq::new(tracks.len(), |i: int| CursorState::initial(tracks[i]))
}

/// The part of track time that a cycle plays.
#[derive(Debug, Copy, Clone, PartialEq, Eq, Structural)]
pub struct CycleWindow {
    /// The host's time at which playback started, in microseconds.
    pub start_usecs: u64,
    /// The track time at which the cycle ends.
    pub end: ClockTime,
}

/// How a cycle begins.
#[derive(Debug, Copy, Clone, PartialEq, Eq, Structural)]
pub struct CycleStart {
    /// Whether playback was restarted: every note is to be silenced on every
    /// port before anything else is written.
    pub restarted: bool,
    /// What the cycle plays; nothing while playback is paused.
    pub window: Option<CycleWindow>,
}

/// How a cycle begins, and what this does to a driver.
///
/// A restart puts every cursor back at the start of its track and forgets
/// when playback started. A paused cycle then moves the start of playback on
/// by its own length and plays nothing. Any other cycle starts playback at
/// its beginning, unless playback has started, and plays up to the track
/// time at which the cycle ends.
pub open spec fn cycle_start(
    tracks: Seq<Seq<TrackEvent>>,
    st: DriverState,
    cur_usecs: u64,
    next_usecs: u64,
    restart: bool,
    paused: bool,
) -> (DriverState, Option<CycleWindow>) {
    let fresh = if restart {
        DriverState { cursors: all_initial(tracks), start: None }
    } else {
        st
    };
    if paused {
        (DriverState { start: paused_start(fresh.start, cur_usecs, next_usecs), ..fresh }, None)
    } else {
        let start = match fresh.start {
            Some(s) => s,
            None => cur_usecs,
        };
        (
            DriverState { start: Some(start), ..fresh },
            Some(CycleWindow { start_usecs: start, end: track_end(start, next_usecs) }),
        )
    }
}

/// What one cycle does to a driver, and the messages that are due in it:
/// the cycle begins as `cycle_start` says, and the cursors are driven up to
/// the end of what it plays.
pub open spec fn cycle_outcome(
    tracks: Seq<Seq<TrackEvent>>,
    st: DriverState,
    cur_usecs: u64,
    next_usecs: u64,
    restart: bool,
    paused: bool,
) -> (DriverState, Result<Seq<StampedMessage>, StepError>) {
    let (begun, window) = cycle_start(tracks, st, cur_usecs, next_usecs, restart, paused);
    match window {
        None => (begun, Ok(Seq::empty())),
        Some(w) => {
            let (cursors, sent) = multi_run(tracks, begun.cursors, w.end, begun.cursors.len());
            (
                DriverState { cursors, ..begun },
                match sent {
                    Ok(msgs) => Ok(stamped(msgs, w.start_usecs)),
                    Err(e) => Err(e),
                },
            )
        },
    }
}

/// What a driver hands out when it is asked for the next message of what a
/// cycle plays, the cursors before place `from` being done with: the next
/// message of the cursors, stamped with the host's time.
pub open spec fn next_stamped(
    tracks: Seq<Seq<TrackEvent>>,
    cursors: Seq<CursorState>,
    window: CycleWindow,
    from: nat,
) -> (Seq<CursorState>, Result<Option<(usize, StampedMessage)>, StepError>) {
    let (after, out) = multi_next(tracks, cursors, window.end, from);
    (
        after,
        match out {
            Ok(Some((idx, m))) => Ok(Some((idx, (host_time(window.start_usecs, m.0), m.1, m.2)))),
            Ok(None) => Ok(None),
            Err(e) => Err(e),
        },
    )
}

/// A cycle that is paused throughout leaves track time where it was: the
/// cycle after it ends at the same track time as a cycle of that length
/// would have ended in place of the paused one.
pub proof fn lemma_pause_keeps_track_time(
    start_usecs: u64,
    cur_usecs: u64,
    next_usecs: u64,
    after_usecs: u64,
)
    requires
        start_usecs <= cur_usecs <= next_usecs <= after_usecs,
    ensures
        paused_start(Some(start_usecs), cur_usecs, next_usecs) is Some,
        track_end(
            paused_start(Some(start_usecs), cur_usecs, next_usecs)->Some_0,
            after_usecs,
        ) == track_end(start_usecs, (cur_usecs + (after_usecs - next_usecs)) as u64),
{
}

/// The frame within the current cycle at which to write what is due at the
/// frame `sys_frames`: the frames from the cycle's first frame on; the first
/// frame for what is overdue.
pub fn frame_offset(sys_frames: u32, cur_frames: u32) -> (r: u32)
    ensures
        r == if sys_frames >= cur_frames {
            sys_frames - cur_frames
        } else {
            0
        },
{
    if sys_frames >= cur_frames {
        sys_frames - cur_frames
    } else {
        0
    }
}

/// The messages that silence every note: a note-on with velocity 0 for each
/// of the 128 notes, on channel 0.
pub fn all_notes_off() -> (r: Vec<MidiMessage>)
    ensures
        r@.len() == 128,
        forall|i: int|
            0 <= i < 128 ==> #[trigger] r@[i] == MidiMessage::NoteOn(
                NoteOn {
                    channel: MidiChannel::of(0),
                    note: MidiNote::of(i),
                    vel: PressVelocity::of(0),
                },
            ),
{
    let notes = MidiNote::all();
    let mut out: Vec<MidiMessage> = Vec::new();
    let mut idx: usize = 0;
    while idx < 128
        invariant
            idx <= 128,
            notes@.len() == 128,
            forall|i: int| 0 <= i < 128 ==> #[trigger] notes@[i] == MidiNote::of(i),
            out@.len() == idx,
            forall|i: int|
                0 <= i < idx ==> #[trigger] out@[i] == MidiMessage::NoteOn(
                    NoteOn {
                        channel: MidiChannel::of(0),
                        note: MidiNote::of(i),
                        vel: PressVelocity::of(0),
                    },
                ),
        decreases 128 - idx,
    {
        let vel = match PressVelocity::from_raw(0) {
            Some(v) => v,
            None => PressVelocity::default(),
        };
        out.push(MidiMessage::NoteOn(NoteOn::new(MidiChannel::default(), notes[idx], vel)));
        idx = idx + 1;
    }
    out
}

/// The bytes to set aside for the writers of one cycle: room for two more
/// writers than there are ports. Nothing where that many bytes cannot be
/// counted.
pub fn writer_arena_size(num_writers: usize, writer_size: usize) -> (r: Option<usize>)
    ensures
        r == if (num_writers + 2) * writer_size <= usize::MAX {
            Some(((num_writers + 2) * writer_size) as usize)
        } else {
            None
        },
{
    match num_writers.checked_add(2) {
        None => {
            proof {
                assert((num_writers + 2) * writer_size > usize::MAX || writer_size == 0)
                    by (nonlinear_arith)
                    requires
                        num_writers + 2 > usize::MAX,
                        writer_size >= 0,
                ;
            }
            if writer_size == 0 {
                Some(0)
            } else {
                None
            }
        },
        Some(n) => n.checked_mul(writer_size),
    }
}

/// The character that writes the digit `d`.
pub open spec fn digit_char(d: int) -> char {
    if d == 0 {
        '0'
    } else if d == 1 {
        '1'
    } else if d == 2 {
        '2'
    } else if d == 3 {
        '3'
    } else if d == 4 {
        '4'
    } else if d == 5 {
        '5'
    } else if d == 6 {
        '6'
    } else if d == 7 {
        '7'
    } else if d == 8 {
        '8'
    } else {
        '9'
    }
}

/// The number `n` written in decimal digits.
pub open spec fn decimal_of(n: nat) -> Seq<char>
    decreases n,
{
    if n < 10 {
        seq![digit_char(n as int)]
    } else {
        decimal_of(n / 10).push(digit_char((n % 10) as int))
    }
}

/// The name under which a port is registered with the host: the output's
/// name, or `:1` for the nameless output; where `with_track` is set, the
/// name is `track_`, the number of the port's track, a colon and the
/// output's name, or `1` for the nameless output.
pub open spec fn port_name_of(track: usize, label: Option<OutputLabel>, with_track: bool) -> Seq<
    char,
> {
    let prefix = if with_track {
        "track_"@ + decimal_of(track as nat)
    } else {
        Seq::empty()
    };
    match label {
        None => if with_track {
            prefix + ":1"@
        } else {
            ":1"@
        },
        Some(name) => if with_track {
            prefix + ":"@ + name.0@
        } else {
            name.0@
        },
    }
}

fn digit_str(d: u8) -> (r: &'static str)
    requires
        d < 10,
    ensures
        r@ == seq![digit_char(d as int)],
{
    proof {
        reveal_strlit("0");
        reveal_strlit("1");
        reveal_strlit("2");
        reveal_strlit("3");
        reveal_strlit("4");
        reveal_strlit("5");
        reveal_strlit("6");
        reveal_strlit("7");
        reveal_strlit("8");
        reveal_strlit("9");
    }
    let r = if d == 0 {
        "0"
    } else if d == 1 {
        "1"
    } else if d == 2 {
        "2"
    } else if d == 3 {
        "3"
    } else if d == 4 {
        "4"
    } else if d == 5 {
        "5"
    } else if d == 6 {
        "6"
    } else if d == 7 {
        "7"
    } else if d == 8 {
        "8"
    } else {
        "9"
    };
    assert(r@ =~= seq![digit_char(d as int)]);
    r
}

/// Writes the number `n` in decimal digits.
pub fn decimal(n: usize) -> (r: String)
    ensures
        r@ == decimal_of(n as nat),
{
    // the digits below the leading ones, the last digit first
    let mut low: Vec<u8> = Vec::new();
    let mut rest: usize = n;
    let ghost mut tail: Seq<char> = Seq::empty();
    while rest >= 10
        invariant
            decimal_of(n as nat) == decimal_of(rest as nat) + tail,
            tail.len() == low@.len(),
            forall|j: int|
                0 <= j < low@.len() ==> low@[j] < 10 && tail[low@.len() - 1 - j] == digit_char(
                    #[trigger] low@[j] as int,
                ),
        decreases rest,
    {
        let d: u8 = (rest % 10) as u8;
        proof {
            let before = tail;
            tail = seq![digit_char(d as int)] + tail;
            assert(decimal_of(rest as nat) + before =~= decimal_of((rest / 10) as nat) + tail);
        }
        low.push(d);
        rest = rest / 10;
    }
    let mut out = String::from_str(digit_str(rest as u8));
    let mut i: usize = low.len();
    while i > 0
        invariant
            i <= low@.len(),
            tail.len() == low@.len(),
            forall|j: int|
                0 <= j < low@.len() ==> low@[j] < 10 && tail[low@.len() - 1 - j] == digit_char(
                    #[trigger] low@[j] as int,
                ),
            out@ == decimal_of(rest as nat) + tail.subrange(0, low@.len() - i),
            rest < 10,
        decreases i,
    {
        i = i - 1;
        let ghost before = out@;
        out.append(digit_str(low[i]));
        proof {
            assert(out@ =~= decimal_of(rest as nat) + tail.subrange(0, low@.len() - i));
        }
    }
    proof {
        assert(tail.subrange(0, low@.len() as int) =~= tail);
    }
    out
}

/// The name under which a port is registered with the host.
pub fn port_name(track: usize, label: &Option<OutputLabel>, with_track: bool) -> (r: String)
    ensures
        r@ == port_name_of(track, *label, with_track),
{
    match (label, with_track) {
        (None, false) => String::from_str(":1"),
        (None, true) => {
            let mut name = String::from_str("track_");
            let number = decimal(track);
            name.append(number.as_str());
            name.append(":1");
            name
        },
        (Some(lbl), false) => String::from_str(lbl.as_str()),
        (Some(lbl), true) => {
            let mut name = String::from_str("track_");
            let number = decimal(track);
            name.append(number.as_str());
            name.append(":");
            name.append(lbl.as_str());
            name
        },
    }
}

/// The realtime side of playback: the cursors, and the host's time at which
/// playback started.
pub struct Driver<T: EventTrack> {
    cursor: VecMultiCursor<T>,
    start_usecs: Option<u64>,
}

impl<T: EventTrack> View for Driver<T> {
    type V = DriverState;

    closed spec fn view(&self) -> DriverState {
        DriverState { cursors: self.cursor.states(), start: self.start_usecs }
    }
}

impl<T: EventTrack> Driver<T> {
    /// The tracks that the driver plays.
    pub closed spec fn tracks(&self) -> Seq<Seq<TrackEvent>> {
        self.cursor.tracks()
    }

    /// Whether the driver's cursors are in order.
    pub closed spec fn wf(&self) -> bool {
        self.cursor.wf()
    }

    /// A driver for the cursors of `cursor`, before playback has started.
    pub fn new(cursor: VecMultiCursor<T>) -> (r: Self)
        requires
            cursor.wf(),
        ensures
            r.wf(),
            r@ == (DriverState { cursors: cursor.states(), start: None }),
            r.tracks() == cursor.tracks(),
    {
        proof {
            cursor.lemma_inner();
        }
        Driver { cursor, start_usecs: None }
    }

    /// The host's time at which playback started, if it has.
    pub fn start_usecs(&self) -> (r: Option<u64>)
        ensures
            r == self@.start,
    {
        self.start_usecs
    }

    /// Begins one cycle of the host, which begins at the host's time
    /// `cur_usecs` and ends at `next_usecs`, in microseconds. `restart` says
    /// whether a restart was asked for since the last cycle, `paused`
    /// whether playback is paused. The messages of the cycle are then had
    /// from `next_message`.
    pub fn begin_cycle(&mut self, cur_usecs: u64, next_usecs: u64, restart: bool, paused: bool) -> (r:
        CycleStart)
        requires
            old(self).wf(),
        ensures
            final(self).wf(),
            final(self).tracks() == old(self).tracks(),
            r.restarted == restart,
            (final(self)@, r.window) == cycle_start(
                old(self).tracks(),
                old(self)@,
                cur_usecs,
                next_usecs,
                restart,
                paused,
            ),
    {
        if restart {
            self.cursor.reset();
            self.start_usecs = None;
            proof {
                self.cursor.lemma_inner();
                assert(self.cursor.states() =~= all_initial(old(self).tracks()));
            }
        }
        if paused {
            if let Some(start) = self.start_usecs {
                let length: u64 = if next_usecs >= cur_usecs {
                    next_usecs - cur_usecs
                } else {
                    0
                };
                let moved: u64 = if start > u64::MAX - length {
                    u64::MAX
                } else {
                    start + length
                };
                self.start_usecs = Some(moved);
            }
            return CycleStart { restarted: restart, window: None };
        }
        let start: u64 = match self.start_usecs {
            Some(s) => s,
            None => cur_usecs,
        };
        self.start_usecs = Some(start);
        let end = if next_usecs >= start {
            ClockTime { nanos: ((next_usecs - start) as u128) * 1000 }
        } else {
            ClockTime::zero()
        };
        CycleStart { restarted: restart, window: Some(CycleWindow { start_usecs: start, end }) }
    }

    /// Hands out the next message of what a cycle plays, stamped with the
    /// host's time, with the place of the cursor that it comes from. The
    /// cursors before place `from` are passed over: whoever goes through the
    /// messages of a cycle starts at place 0 and goes on from the place that
    /// the last message came with. Nothing comes back when the cycle has no
    /// message left.
    pub fn next_message(&mut self, from: usize, window: CycleWindow) -> (r: Result<
        Option<(usize, StampedMessage)>,
        StepError,
    >)
        requires
            old(self).wf(),
        ensures
            final(self).wf(),
            final(self).tracks() == old(self).tracks(),
            final(self)@.start == old(self)@.start,
            (final(self)@.cursors, r) == next_stamped(
                old(self).tracks(),
                old(self)@.cursors,
                window,
                from as nat,
            ),
    {
        match self.cursor.next_event(from, window.end) {
            Err(e) => Err(e),
            Ok(None) => Ok(None),
            Ok(Some((idx, (time, port, msg)))) => {
                let sys_time: u128 = (time.as_micros() + (window.start_usecs as u128))
                    % 0x1_0000_0000_0000_0000;
                Ok(Some((idx, (sys_time as u64, port, msg))))
            },
        }
    }

    /// Runs one cycle of the host as a whole: begins it as `begin_cycle`
    /// does, and gathers the messages that are due in it.
    pub fn run_cycle(&mut self, cur_usecs: u64, next_usecs: u64, restart: bool, paused: bool) -> (r:
        Result<CycleOutput, StepError>)
        requires
            old(self).wf(),
        ensures
            final(self).wf(),
            final(self).tracks() == old(self).tracks(),
            final(self)@ == cycle_outcome(
                old(self).tracks(),
                old(self)@,
                cur_usecs,
                next_usecs,
                restart,
                paused,
            ).0,
            match r {
                Ok(out) => out.restarted == restart && cycle_outcome(
                    old(self).tracks(),
                    old(self)@,
                    cur_usecs,
                    next_usecs,
                    restart,
                    paused,
                ).1 == Ok::<Seq<StampedMessage>, StepError>(out.events@),
                Err(e) => cycle_outcome(
                    old(self).tracks(),
                    old(self)@,
                    cur_usecs,
                    next_usecs,
                    restart,
                    paused,
                ).1 == Err::<Seq<StampedMessage>, StepError>(e),
            },
    {
        let begun = self.begin_cycle(cur_usecs, next_usecs, restart, paused);
        let window = match begun.window {
            None => {
                return Ok(CycleOutput { restarted: restart, events: Vec::new() });
            },
            Some(w) => w,
        };
        let start = window.start_usecs;
        let sent = match self.cursor.step_until(window.end) {
            Ok(v) => v,
            Err(e) => {
                return Err(e);
            },
        };
        let mut events: Vec<StampedMessage> = Vec::new();
        let n = sent.len();
        let mut i: usize = 0;
        while i < n
            invariant
                i <= n,
                n == sent@.len(),
                events@ == stamped(sent@.take(i as int), start),
            decreases n - i,
        {
            let (time, port, msg) = sent[i];
            let sys_time: u128 = (time.as_micros() + (start as u128)) % 0x1_0000_0000_0000_0000;
            events.push((sys_time as u64, port, msg));
            proof {
                assert(events@ =~= stamped(sent@.take(i as int + 1), start));
            }
            i = i + 1;
        }
        proof {
            assert(sent@.take(n as int) =~= sent@);
        }
        Ok(CycleOutput { restarted: restart, events })
    }
}

} // verus!
