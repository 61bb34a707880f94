//! A cursor along a track: the registers of the machine that plays it.

use super::counted_jump_at;
use super::counted_jumps_upto;
use super::event_at;
use super::valid_track;
use super::BpmInfo;
use super::ClockTime;
use super::EventTrack;
use super::OutputPort;
use super::TrackEvent;
use crate::midi::MidiMessage;
use crate::utils::NonZeroU16;
use std::collections::HashMap;
use vstd::prelude::*;

verus! {

broadcast use {vstd::std_specs::hash::group_hash_axioms, crate::utils::group_nonzero};

/// A message together with the track time at which it is due and the port
/// that it leaves by.
pub type TimedMessage = (ClockTime, OutputPort, MidiMessage);

/// What one step of a cursor came to.
#[derive(Debug, Copy, Clone, PartialEq, Eq, Hash)]
pub enum StepOutput {
    /// The track has ended; every later step says so again.
    End,
    /// The step sent nothing; later steps may.
    Continue,
    /// The step sent a message.
    Message { time: ClockTime, port: OutputPort, msg: MidiMessage },
}

/// Why a cursor cannot step: the track breaks a rule that whoever built it
/// had to keep.
#[derive(Debug, Copy, Clone, PartialEq, Eq, Structural, Hash)]
pub enum StepError {
    /// A jump points past the end of the track.
    BadJumpTarget { target: usize },
    /// The jump at `target` has a count, but no counter was set up for it.
    JumpIdxNotFound { target: usize },
    /// The cursor points past the end of the track.
    BadInstrPointer(usize),
}

/// The registers of a cursor.
pub struct CursorState {
    /// The place of the instruction that runs next.
    pub ip: usize,
    /// The timing in force.
    pub bpm: BpmInfo,
    /// The track time reached.
    pub clock: ClockTime,
    /// The ticks waited so far, counted round a 16-bit dial.
    pub ticks: u16,
    /// For each jump with a count, how often it is still to be taken before
    /// it is passed over.
    pub counts: Map<usize, u16>,
}

/// The counters that a cursor starts with: one for each jump with a count,
/// set to that count.
pub open spec fn initial_counts(events: Seq<TrackEvent>) -> Map<usize, u16> {
    Map::new(
        |k: usize| counted_jump_at(events, k as int) is Some,
        |k: usize| counted_jump_at(events, k as int).unwrap().value() as u16,
    )
}

impl CursorState {
    /// The registers of a cursor at the start of a track: at the first
    /// instruction, time zero, the standard timing, every counter full.
    pub open spec fn initial(events: Seq<TrackEvent>) -> CursorState {
        CursorState {
            ip: 0,
            bpm: BpmInfo::standard(),
            clock: ClockTime { nanos: 0 },
            ticks: 0,
            counts: initial_counts(events),
        }
    }
}

/// What the jump at place `idx` does, given the counters and the length of
/// the track: the counters after it, and where the cursor goes on.
///
/// A target past the end of the track is an error. A jump without a count is
/// always taken. A jump with a count `n` needs its counter: while the counter
/// is above zero it is lowered and the jump taken; at zero it is set back to
/// `n` and the jump passed over.
pub open spec fn jump_outcome(
    counts: Map<usize, u16>,
    track_len: nat,
    idx: usize,
    target: usize,
    count: Option<NonZeroU16>,
) -> (Map<usize, u16>, Result<usize, StepError>) {
    if target >= track_len {
        (counts, Err(StepError::BadJumpTarget { target }))
    } else {
        match count {
            None => (counts, Ok(target)),
            Some(n) => {
                if !counts.contains_key(idx) {
                    (counts, Err(StepError::JumpIdxNotFound { target: idx }))
                } else if counts[idx] == 0 {
                    (counts.insert(idx, n.value() as u16), Ok((idx + 1) as usize))
                } else {
                    (counts.insert(idx, (counts[idx] - 1) as u16), Ok(target))
                }
            },
        }
    }
}

/// The map that a list of pairs stands for, where a later pair with the same
/// key takes the place of an earlier one.
pub open spec fn pairs_to_map(pairs: Seq<(usize, u16)>) -> Map<usize, u16>
    decreases pairs.len(),
{
    if pairs.len() == 0 {
        Map::empty()
    } else {
        pairs_to_map(pairs.drop_last()).insert(pairs.last().0, pairs.last().1)
    }
}

/// The counters of the jumps of a track that have a count.
#[derive(Debug, Clone)]
pub struct JumpCounts {
    /// The length of the track: a jump must point below it.
    track_len: usize,
    /// The places that have a counter, in the order in which they were given.
    keys: Vec<usize>,
    /// For each such place, how often its jump is still to be taken.
    data: HashMap<usize, u16>,
}

impl JumpCounts {
    /// The counters, by the place of their jump.
    pub closed spec fn counts(&self) -> Map<usize, u16> {
        self.data@
    }

    /// The length of the track that the counters belong to.
    pub closed spec fn limit(&self) -> nat {
        self.track_len as nat
    }

    /// Whether the counters are in order: the list of places names exactly
    /// the places that have a counter.
    pub closed spec fn wf(&self) -> bool {
        forall|k: usize| self.data@.contains_key(k) <==> self.keys@.contains(k)
    }

    /// Runs one jump: the jump at place `idx`, to `target`, with `count`.
    /// Returns where the cursor goes on.
    pub fn do_jump(&mut self, idx: usize, target: usize, count: Option<NonZeroU16>) -> (r: Result<
        usize,
        StepError,
    >)
        requires
            old(self).wf(),
            idx < usize::MAX,
        ensures
            final(self).wf(),
            (final(self).counts(), r) == jump_outcome(
                old(self).counts(),
                old(self).limit(),
                idx,
                target,
                count,
            ),
            final(self).limit() == old(self).limit(),
            final(self).counts().dom() == old(self).counts().dom(),
    {
        if target >= self.track_len {
            return Err(StepError::BadJumpTarget { target });
        }
        let count: u16 = match count {
            Some(n) => n.get(),
            None => {
                return Ok(target);
            },
        };
        let cur_count: u16 = match self.data.get(&idx) {
            Some(c) => *c,
            None => {
                return Err(StepError::JumpIdxNotFound { target: idx });
            },
        };
        if cur_count == 0 {
            self.data.insert(idx, count);
            proof {
                assert(self.data@.dom() =~= old(self).data@.dom());
            }
            Ok(idx + 1)
        } else {
            self.data.insert(idx, cur_count - 1);
            proof {
                assert(self.data@.dom() =~= old(self).data@.dom());
            }
            Ok(target)
        }
    }

    /// Sets every counter back to the count of its jump in `track`. Fails at
    /// a counter whose place holds no jump with a count; which of several
    /// such counters is named is left open, and so is which of the others
    /// were set back by then.
    pub fn reset<T: EventTrack>(&mut self, track: &T) -> (r: Result<(), StepError>)
        requires
            old(self).wf(),
        ensures
            final(self).wf(),
            final(self).limit() == old(self).limit(),
            final(self).counts().dom() == old(self).counts().dom(),
            r is Ok <==> forall|k: usize| #[trigger]
                old(self).counts().contains_key(k) ==> counted_jump_at(track.events(), k as int)
                    is Some,
            r is Ok ==> forall|k: usize| #[trigger]
                final(self).counts().contains_key(k) ==> final(self).counts()[k]
                    == counted_jump_at(track.events(), k as int).unwrap().value(),
            r matches Err(e) ==> exists|k: usize| #[trigger]
                old(self).counts().contains_key(k) && counted_jump_at(track.events(), k as int)
                    is None && e == (StepError::JumpIdxNotFound { target: k }),
            forall|k: usize| #[trigger]
                final(self).counts().contains_key(k) ==> final(self).counts()[k] == old(
                    self,
                ).counts()[k] || (counted_jump_at(track.events(), k as int) matches Some(c)
                    && final(self).counts()[k] == c.value()),
    {
        let n = self.keys.len();
        let mut i: usize = 0;
        while i < n
            invariant
                i <= n,
                n == self.keys@.len(),
                self.keys@ == old(self).keys@,
                self.track_len == old(self).track_len,
                self.data@.dom() == old(self).data@.dom(),
                forall|k: usize| #[trigger] self.data@.contains_key(k) <==> self.keys@.contains(k),
                forall|j: int|
                    0 <= j < i ==> (counted_jump_at(
                        track.events(),
                        (#[trigger] self.keys@[j]) as int,
                    ) matches Some(c) && self.data@[self.keys@[j]] == c.value()),
                forall|k: usize| #[trigger]
                    self.data@.contains_key(k) ==> self.data@[k] == old(self).data@[k] || (
                    counted_jump_at(track.events(), k as int) matches Some(c) && self.data@[k]
                        == c.value()),
            decreases n - i,
        {
            let idx: usize = self.keys[i];
            proof {
                assert(self.keys@.contains(self.keys@[i as int]));
            }
            match track.get(idx) {
                Some(TrackEvent::Jump { count: Some(cur_count), .. }) => {
                    let ghost before = self.data@;
                    self.data.insert(idx, cur_count.get());
                    proof {
                        assert(self.data@.dom() =~= before.dom());
                    }
                },
                _ => {
                    return Err(StepError::JumpIdxNotFound { target: idx });
                },
            }
            i = i + 1;
        }
        proof {
            assert forall|k: usize| #[trigger] self.data@.contains_key(k) implies (counted_jump_at(
                track.events(),
                k as int,
            ) matches Some(c) && self.data@[k] == c.value()) by {
                assert(self.keys@.contains(k));
                let j = choose|j: int| 0 <= j < self.keys@.len() && self.keys@[j] == k;
                assert(self.keys@[j] == k);
            }
        }
        Ok(())
    }

    /// The counters for a track of `track_len` instructions, from the place
    /// and the count of each of its jumps that has one.
    pub fn from_iter(track_len: usize, itr: Vec<(usize, u16)>) -> (r: Self)
        ensures
            r.wf(),
            r.limit() == track_len,
            r.counts() == pairs_to_map(itr@),
    {
        let mut keys: Vec<usize> = Vec::new();
        let mut data: HashMap<usize, u16> = HashMap::new();
        let n = itr.len();
        let mut i: usize = 0;
        proof {
            assert(itr@.take(0) =~= Seq::empty());
        }
        while i < n
            invariant
                i <= n,
                n == itr@.len(),
                data@ == pairs_to_map(itr@.take(i as int)),
                forall|k: usize| data@.contains_key(k) <==> keys@.contains(k),
            decreases n - i,
        {
            let (k, v) = itr[i];
            let ghost keys_before = keys@;
            if !data.contains_key(&k) {
                keys.push(k);
            }
            data.insert(k, v);
            proof {
                let next = itr@.take(i as int + 1);
                assert(next.drop_last() =~= itr@.take(i as int));
                assert(next.last() == itr@[i as int]);
                assert forall|q: usize| data@.contains_key(q) <==> keys@.contains(q) by {
                    if keys@.contains(q) {
                        let j = choose|j: int| 0 <= j < keys@.len() && keys@[j] == q;
                        if j < keys_before.len() {
                            assert(keys_before[j] == q);
                            assert(keys_before.contains(q));
                        }
                    }
                    if q == k {
                        if keys_before.contains(k) {
                            let j = choose|j: int| 0 <= j < keys_before.len() && keys_before[j] == k;
                            assert(keys@[j] == k);
                        } else {
                            assert(keys@[keys@.len() - 1] == k);
                        }
                    } else if keys_before.contains(q) {
                        let j = choose|j: int| 0 <= j < keys_before.len() && keys_before[j] == q;
                        assert(keys@[j] == q);
                    }
                }
            }
            i = i + 1;
        }
        proof {
            assert(itr@.take(n as int) =~= itr@);
        }
        JumpCounts { track_len, keys, data }
    }
}

/// What one step does to the registers of a cursor on a track, and what it
/// comes to.
///
/// A cursor past the end of the track cannot step. `End` changes nothing.
/// `SetBpm` sets the timing, `SendMessage` sends its message at the time
/// reached, `Wait` moves the clock on by the wait under the timing in force
/// (the clock stopping at the largest time there is) and the tick dial by the
/// wait's ticks; each of the three moves to the next instruction. `Jump` goes
/// where `jump_outcome` says.
pub open spec fn step_spec(events: Seq<TrackEvent>, s: CursorState) -> (
    CursorState,
    Result<StepOutput, StepError>,
) {
    match event_at(events, s.ip as int) {
        None => (s, Err(StepError::BadInstrPointer(s.ip))),
        Some(TrackEvent::End) => (s, Ok(StepOutput::End)),
        Some(TrackEvent::SetBpm(new_info)) => (
            CursorState { bpm: new_info, ip: (s.ip + 1) as usize, ..s },
            Ok(StepOutput::Continue),
        ),
        Some(TrackEvent::SendMessage { message, port }) => (
            CursorState { ip: (s.ip + 1) as usize, ..s },
            Ok(StepOutput::Message { time: s.clock, port, msg: message }),
        ),
        Some(TrackEvent::Wait(time)) => (
            CursorState {
                ip: (s.ip + 1) as usize,
                clock: s.clock.plus(time.duration(s.bpm)),
                ticks: ((s.ticks + time.ticks(s.bpm).value()) % 65536) as u16,
                ..s
            },
            Ok(StepOutput::Continue),
        ),
        Some(TrackEvent::Jump { target, count }) => {
            let (counts, landed) = jump_outcome(s.counts, events.len(), s.ip, target, count);
            match landed {
                Ok(new_pc) => (CursorState { ip: new_pc, counts, ..s }, Ok(StepOutput::Continue)),
                Err(e) => (CursorState { counts, ..s }, Err(e)),
            }
        },
    }
}

/// The most instructions that one call of `next_event` or `step_until` runs.
/// A track that goes round without end is cut off there, so that every call
/// returns.
pub const STEP_LIMIT: usize = usize::MAX;

/// What a cursor does when it is asked for its next message up to the track
/// time `end`, with `fuel` steps to spend: it steps until a step sends a
/// message, which it hands out; it hands out nothing where the clock has
/// passed `end`, the track has ended or the steps are spent.
pub open spec fn next_event_spec(
    events: Seq<TrackEvent>,
    s: CursorState,
    end: ClockTime,
    fuel: nat,
) -> (CursorState, Result<Option<TimedMessage>, StepError>)
    decreases fuel,
{
    if fuel == 0 || s.clock.nanos > end.nanos {
        (s, Ok(None))
    } else {
        let (next, out) = step_spec(events, s);
        match out {
            Err(e) => (next, Err(e)),
            Ok(StepOutput::End) => (next, Ok(None)),
            Ok(StepOutput::Message { time, port, msg }) => (next, Ok(Some((time, port, msg)))),
            Ok(StepOutput::Continue) => next_event_spec(events, next, end, (fuel - 1) as nat),
        }
    }
}

/// What a cursor does when it is driven up to the track time `end`, with
/// `fuel` steps to spend and the messages `sent` behind it: it steps, adding
/// each message that a step sends, until the clock has passed `end`, the
/// track has ended or the steps are spent.
pub open spec fn run_spec(
    events: Seq<TrackEvent>,
    s: CursorState,
    end: ClockTime,
    fuel: nat,
    sent: Seq<TimedMessage>,
) -> (CursorState, Result<Seq<TimedMessage>, StepError>)
    decreases fuel,
{
    if fuel == 0 || s.clock.nanos > end.nanos {
        (s, Ok(sent))
    } else {
        let (next, out) = step_spec(events, s);
        match out {
            Err(e) => (next, Err(e)),
            Ok(StepOutput::End) => (next, Ok(sent)),
            Ok(StepOutput::Message { time, port, msg }) => run_spec(
                events,
                next,
                end,
                (fuel - 1) as nat,
                sent.push((time, port, msg)),
            ),
            Ok(StepOutput::Continue) => run_spec(events, next, end, (fuel - 1) as nat, sent),
        }
    }
}

/// Whether a run handed out, as a vector, what `expected` says.
pub open spec fn same_outcome(
    got: Result<Vec<TimedMessage>, StepError>,
    expected: Result<Seq<TimedMessage>, StepError>,
) -> bool {
    match got {
        Ok(v) => expected == Ok::<Seq<TimedMessage>, StepError>(v@),
        Err(e) => expected == Err::<Seq<TimedMessage>, StepError>(e),
    }
}

/// Whether the times of a list of messages never go down, and all lie
/// between `from` and `to`.
pub open spec fn times_in_order(sent: Seq<TimedMessage>, from: ClockTime, to: ClockTime) -> bool {
    &&& forall|i: int, j: int| 0 <= i <= j < sent.len() ==> sent[i].0.nanos <= sent[j].0.nanos
    &&& forall|i: int| 0 <= i < sent.len() ==> from.nanos <= (#[trigger] sent[i]).0.nanos <= to.nanos
}

/// A step never turns the clock back, and a message that it sends bears the
/// time from before the step.
pub proof fn lemma_step_clock(events: Seq<TrackEvent>, s: CursorState)
    ensures
        step_spec(events, s).0.clock.nanos >= s.clock.nanos,
        step_spec(events, s).1 matches Ok(StepOutput::Message { time, .. }) ==> time == s.clock,
{
}

/// The messages that a run hands out, after those that were behind it, bear
/// times that never go down and that lie between the clock before the run
/// and the clock after it.
pub proof fn lemma_run_times(
    events: Seq<TrackEvent>,
    s: CursorState,
    end: ClockTime,
    fuel: nat,
    sent: Seq<TimedMessage>,
    from: ClockTime,
)
    requires
        times_in_order(sent, from, s.clock),
        from.nanos <= s.clock.nanos,
    ensures
        run_spec(events, s, end, fuel, sent).0.clock.nanos >= s.clock.nanos,
        run_spec(events, s, end, fuel, sent).1 matches Ok(all) ==> times_in_order(
            all,
            from,
            run_spec(events, s, end, fuel, sent).0.clock,
        ) && sent.len() <= all.len() && all.subrange(0, sent.len() as int) == sent && forall|
            i: int,
        |
            sent.len() <= i < all.len() ==> (#[trigger] all[i]).0.nanos <= end.nanos,
    decreases fuel,
{
    if fuel == 0 || s.clock.nanos > end.nanos {
        assert(sent.subrange(0, sent.len() as int) =~= sent);
    } else {
        let (next, out) = step_spec(events, s);
        lemma_step_clock(events, s);
        match out {
            Err(e) => {},
            Ok(StepOutput::End) => {
                assert(sent.subrange(0, sent.len() as int) =~= sent);
            },
            Ok(StepOutput::Message { time, port, msg }) => {
                let more = sent.push((time, port, msg));
                assert(times_in_order(more, from, next.clock));
                lemma_run_times(events, next, end, (fuel - 1) as nat, more, from);
                let all = run_spec(events, next, end, (fuel - 1) as nat, more).1;
                if all is Ok {
                    let a = all->Ok_0;
                    assert(a.subrange(0, sent.len() as int) =~= a.subrange(
                        0,
                        more.len() as int,
                    ).subrange(0, sent.len() as int));
                    assert(more.subrange(0, sent.len() as int) =~= sent);
                    assert forall|i: int| sent.len() <= i < a.len() implies (#[trigger] a[i]).0.nanos
                        <= end.nanos by {
                        if i == sent.len() {
                            assert(a[i] == a.subrange(0, more.len() as int)[i]);
                        }
                    }
                }
            },
            Ok(StepOutput::Continue) => {
                assert(times_in_order(sent, from, next.clock));
                lemma_run_times(events, next, end, (fuel - 1) as nat, sent, from);
            },
        }
    }
}

/// Whether a cursor with the registers `s` can play the track `events` on
/// and on: the track is valid, the cursor points into it, and every jump
/// with a count has its counter.
pub open spec fn playable(events: Seq<TrackEvent>, s: CursorState) -> bool {
    &&& valid_track(events)
    &&& events.len() <= usize::MAX
    &&& s.ip < events.len()
    &&& forall|k: usize| counted_jump_at(events, k as int) is Some ==> s.counts.contains_key(k)
}

/// A cursor at the start of a valid track can play it.
pub proof fn lemma_initial_playable(events: Seq<TrackEvent>)
    requires
        valid_track(events),
        events.len() <= usize::MAX,
    ensures
        playable(events, CursorState::initial(events)),
{
}

/// A step of a cursor that can play its track does not fail, and leaves a
/// cursor that can play the track.
pub proof fn lemma_step_playable(events: Seq<TrackEvent>, s: CursorState)
    requires
        playable(events, s),
    ensures
        step_spec(events, s).1 is Ok,
        playable(events, step_spec(events, s).0),
{
    let last = events.len() - 1;
    assert(events[last] is End);
    match events[s.ip as int] {
        TrackEvent::Jump { target, count } => {
            assert(target < events.len());
            if count is Some {
                assert(counted_jump_at(events, s.ip as int) is Some);
            }
        },
        _ => {},
    }
}

/// A run of a cursor that can play its track does not fail, and leaves a
/// cursor that can play the track.
pub proof fn lemma_run_playable(
    events: Seq<TrackEvent>,
    s: CursorState,
    end: ClockTime,
    fuel: nat,
    sent: Seq<TimedMessage>,
)
    requires
        playable(events, s),
    ensures
        run_spec(events, s, end, fuel, sent).1 is Ok,
        playable(events, run_spec(events, s, end, fuel, sent).0),
    decreases fuel,
{
    if fuel == 0 || s.clock.nanos > end.nanos {
    } else {
        lemma_step_playable(events, s);
        let (next, out) = step_spec(events, s);
        match out {
            Err(e) => {},
            Ok(StepOutput::End) => {},
            Ok(StepOutput::Message { time, port, msg }) => {
                lemma_run_playable(
                    events,
                    next,
                    end,
                    (fuel - 1) as nat,
                    sent.push((time, port, msg)),
                );
            },
            Ok(StepOutput::Continue) => {
                lemma_run_playable(events, next, end, (fuel - 1) as nat, sent);
            },
        }
    }
}

/// A cursor along a track: it steps through the track and holds the
/// registers of the machine that plays it.
#[derive(Debug, Clone)]
pub struct TrackCursor<TrackData: EventTrack> {
    instruction_pointer: usize,
    cur_bpm: BpmInfo,
    cur_time: ClockTime,
    cur_ticks: u16,
    jump_counts: JumpCounts,
    data: TrackData,
}

impl<T: EventTrack> View for TrackCursor<T> {
    type V = CursorState;

    closed spec fn view(&self) -> CursorState {
        CursorState {
            ip: self.instruction_pointer,
            bpm: self.cur_bpm,
            clock: self.cur_time,
            ticks: self.cur_ticks,
            counts: self.jump_counts.counts(),
        }
    }
}

/// The counters made from the jumps with a count among the first `n`
/// instructions of a track are those that a cursor starts with, as far as
/// these instructions go.
proof fn lemma_counts_from_jumps(events: Seq<TrackEvent>, n: nat)
    requires
        n <= events.len(),
        events.len() <= usize::MAX,
    ensures
        pairs_to_map(counted_jumps_upto(events, n)) =~= initial_counts(events).restrict(
            Set::new(|k: usize| k < n),
        ),
    decreases n,
{
    if n == 0 {
    } else {
        lemma_counts_from_jumps(events, (n - 1) as nat);
        let rest = counted_jumps_upto(events, (n - 1) as nat);
        match counted_jump_at(events, n - 1) {
            Some(c) => {
                let all = rest.push(((n - 1) as usize, c.value() as u16));
                assert(all.drop_last() =~= rest);
            },
            None => {},
        }
    }
}

impl<T: EventTrack> TrackCursor<T> {
    /// The track that the cursor plays.
    pub closed spec fn track(&self) -> Seq<TrackEvent> {
        self.data.events()
    }

    /// Whether the cursor is in order: it holds a counter for each jump of
    /// its track that has a count, and for nothing else.
    pub closed spec fn wf(&self) -> bool {
        &&& self.jump_counts.wf()
        &&& self.jump_counts.limit() == self.data.events().len()
        &&& self.jump_counts.counts().dom() == initial_counts(self.data.events()).dom()
    }

    /// A cursor at the start of the track `data`.
    pub fn new(data: T) -> (r: Self)
        ensures
            r.wf(),
            r@ == CursorState::initial(data.events()),
            r.track() == data.events(),
    {
        let len = data.len();
        let jumps = data.finite_jumps();
        let jump_counts = JumpCounts::from_iter(len, jumps);
        proof {
            let events = data.events();
            lemma_counts_from_jumps(events, events.len());
            assert(initial_counts(events).restrict(Set::new(|k: usize| k < events.len()))
                =~= initial_counts(events));
        }
        TrackCursor {
            instruction_pointer: 0,
            cur_bpm: BpmInfo::default(),
            cur_time: ClockTime::zero(),
            cur_ticks: 0,
            jump_counts,
            data,
        }
    }

    /// The place of the instruction that runs next.
    pub fn pc(&self) -> (r: usize)
        ensures
            r == self@.ip,
    {
        self.instruction_pointer
    }

    /// The timing in force.
    pub fn bpm(&self) -> (r: BpmInfo)
        ensures
            r == self@.bpm,
    {
        self.cur_bpm
    }

    /// The track time that the cursor has reached.
    pub fn cur_clock(&self) -> (r: ClockTime)
        ensures
            r == self@.clock,
    {
        self.cur_time
    }

    /// The ticks waited so far, counted round a 16-bit dial. This is no
    /// measure of time: a tick's length changes with the timing.
    pub fn cur_ticks(&self) -> (r: u16)
        ensures
            r == self@.ticks,
    {
        self.cur_ticks
    }

    /// Hands out the next message that is due up to the track time `end`,
    /// with the time it is due at, counted from the start of the track.
    /// Hands out nothing once the clock has passed `end` or the track has
    /// ended. The cursor goes on from there at the next call.
    pub fn next_event(&mut self, end: ClockTime) -> (r: Result<Option<TimedMessage>, StepError>)
        requires
            old(self).wf(),
        ensures
            final(self).wf(),
            final(self).track() == old(self).track(),
            (final(self)@, r) == next_event_spec(
                old(self).track(),
                old(self)@,
                end,
                STEP_LIMIT as nat,
            ),
    {
        let mut fuel: usize = STEP_LIMIT;
        while fuel > 0
            invariant
                self.wf(),
                self.track() == old(self).track(),
                next_event_spec(old(self).track(), old(self)@, end, STEP_LIMIT as nat)
                    == next_event_spec(self.track(), self@, end, fuel as nat),
            decreases fuel,
        {
            if self.cur_time.nanos > end.nanos {
                return Ok(None);
            }
            match self.step() {
                Err(e) => {
                    return Err(e);
                },
                Ok(StepOutput::End) => {
                    return Ok(None);
                },
                Ok(StepOutput::Message { time, port, msg }) => {
                    return Ok(Some((time, port, msg)));
                },
                Ok(StepOutput::Continue) => {},
            }
            fuel = fuel - 1;
        }
        Ok(None)
    }

    /// Moves the cursor on up to the track time `end` and hands out the
    /// messages met on the way, each with the time it is due at, counted from
    /// the start of the track. It stops when the clock has passed `end` or
    /// the track has ended; the next call goes on from there.
    pub fn step_until(&mut self, end: ClockTime) -> (r: Result<Vec<TimedMessage>, StepError>)
        requires
            old(self).wf(),
        ensures
            final(self).wf(),
            final(self).track() == old(self).track(),
            final(self)@ == run_spec(
                old(self).track(),
                old(self)@,
                end,
                STEP_LIMIT as nat,
                Seq::empty(),
            ).0,
            same_outcome(
                r,
                run_spec(old(self).track(), old(self)@, end, STEP_LIMIT as nat, Seq::empty()).1,
            ),
            final(self)@.clock.nanos >= old(self)@.clock.nanos,
            r matches Ok(v) ==> times_in_order(v@, old(self)@.clock, final(self)@.clock),
            r matches Ok(v) ==> forall|i: int|
                0 <= i < v@.len() ==> (#[trigger] v@[i]).0.nanos <= end.nanos,
    {
        proof {
            lemma_run_times(
                self.track(),
                self@,
                end,
                STEP_LIMIT as nat,
                Seq::empty(),
                self@.clock,
            );
        }
        let mut sent: Vec<TimedMessage> = Vec::new();
        let mut fuel: usize = STEP_LIMIT;
        while fuel > 0
            invariant
                self.wf(),
                self.track() == old(self).track(),
                run_spec(old(self).track(), old(self)@, end, STEP_LIMIT as nat, Seq::empty())
                    == run_spec(self.track(), self@, end, fuel as nat, sent@),
                run_spec(
                    old(self).track(),
                    old(self)@,
                    end,
                    STEP_LIMIT as nat,
                    Seq::empty(),
                ).0.clock.nanos >= old(self)@.clock.nanos,
                run_spec(
                    old(self).track(),
                    old(self)@,
                    end,
                    STEP_LIMIT as nat,
                    Seq::empty(),
                ).1 matches Ok(all) ==> times_in_order(
                    all,
                    old(self)@.clock,
                    run_spec(
                        old(self).track(),
                        old(self)@,
                        end,
                        STEP_LIMIT as nat,
                        Seq::empty(),
                    ).0.clock,
                ) && forall|i: int| 0 <= i < all.len() ==> (#[trigger] all[i]).0.nanos <= end.nanos,
            decreases fuel,
        {
            if self.cur_time.nanos > end.nanos {
                return Ok(sent);
            }
            match self.step() {
                Err(e) => {
                    return Err(e);
                },
                Ok(StepOutput::End) => {
                    return Ok(sent);
                },
                Ok(StepOutput::Message { time, port, msg }) => {
                    sent.push((time, port, msg));
                },
                Ok(StepOutput::Continue) => {},
            }
            fuel = fuel - 1;
        }
        Ok(sent)
    }

    /// Puts the cursor back at the start of its track: the first
    /// instruction, time zero, no ticks, the standard timing, and every jump
    /// counter full again. What it plays from here is what it played first.
    pub fn reset(&mut self)
        requires
            old(self).wf(),
        ensures
            final(self).wf(),
            final(self).track() == old(self).track(),
            final(self)@ == CursorState::initial(old(self).track()),
    {
        self.instruction_pointer = 0;
        self.cur_bpm = BpmInfo::default();
        self.cur_time = ClockTime::zero();
        self.cur_ticks = 0;
        let res = self.jump_counts.reset(&self.data);
        proof {
            assert(res is Ok);
            assert(self.jump_counts.counts() =~= initial_counts(self.data.events()));
        }
    }

    /// Runs the instruction that the cursor points at.
    pub fn step(&mut self) -> (r: Result<StepOutput, StepError>)
        requires
            old(self).wf(),
        ensures
            final(self).wf(),
            final(self).track() == old(self).track(),
            (final(self)@, r) == step_spec(old(self).track(), old(self)@),
    {
        let next_evt = match self.data.get(self.instruction_pointer) {
            Some(e) => e,
            None => {
                return Err(StepError::BadInstrPointer(self.instruction_pointer));
            },
        };
        let ghost len = self.data.events().len();
        let here = self.data.len();
        match next_evt {
            TrackEvent::End => Ok(StepOutput::End),
            TrackEvent::SetBpm(new_info) => {
                self.cur_bpm = new_info;
                self.instruction_pointer = self.instruction_pointer + 1;
                Ok(StepOutput::Continue)
            },
            TrackEvent::SendMessage { message, port } => {
                self.instruction_pointer = self.instruction_pointer + 1;
                Ok(StepOutput::Message { time: self.cur_time, port, msg: message })
            },
            TrackEvent::Wait(time) => {
                self.instruction_pointer = self.instruction_pointer + 1;
                self.cur_time = self.cur_time.saturating_add(time.as_duration(self.cur_bpm));
                let ticks: u32 = (self.cur_ticks as u32) + (time.as_ticks(self.cur_bpm).get()
                    as u32);
                self.cur_ticks = (ticks % 65536) as u16;
                Ok(StepOutput::Continue)
            },
            TrackEvent::Jump { target, count } => {
                match self.jump_counts.do_jump(self.instruction_pointer, target, count) {
                    Ok(new_pc) => {
                        self.instruction_pointer = new_pc;
                        Ok(StepOutput::Continue)
                    },
                    Err(e) => Err(e),
                }
            },
        }
    }
}

} // verus!
