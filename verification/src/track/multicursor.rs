//! Several cursors driven as one.

use super::cursor::next_event_spec;
use super::cursor::run_spec;
use super::cursor::CursorState;
use super::cursor::StepError;
use super::cursor::TimedMessage;
use super::cursor::TrackCursor;
use super::cursor::STEP_LIMIT;
use super::ClockTime;
use super::EventTrack;
use super::OutputPort;
use super::TrackEvent;
use crate::midi::MidiMessage;
use vstd::prelude::*;

verus! {

/// A port of one of several tracks: the track's place among the cursors, and
/// the port's index within that track.
pub type PortIdent = (usize, OutputPort);

/// A message with the track time at which it is due and the port of the
/// track that it leaves by.
pub type TrackMessage = (ClockTime, PortIdent, MidiMessage);

/// The messages of the track at place `track`, each marked with that place.
pub open spec fn tagged(track: usize, sent: Seq<TimedMessage>) -> Seq<TrackMessage> {
    Seq::new(sent.len(), |i: int| (sent[i].0, (track, sent[i].1), sent[i].2))
}

/// What the first `n` of several cursors do when each in turn is driven up
/// to the track time `end`: the registers of all cursors afterwards, and the
/// messages handed out, those of the first cursor first. Where a cursor
/// fails, those after it are left alone.
pub open spec fn multi_run(
    tracks: Seq<Seq<TrackEvent>>,
    states: Seq<CursorState>,
    end: ClockTime,
    n: nat,
) -> (Seq<CursorState>, Result<Seq<TrackMessage>, StepError>)
    decreases n,
{
    if n == 0 {
        (states, Ok(Seq::empty()))
    } else {
        let (before, sent) = multi_run(tracks, states, end, (n - 1) as nat);
        match sent {
            Err(e) => (before, Err(e)),
            Ok(msgs) => {
                let (state, out) = run_spec(
                    tracks[n - 1],
                    before[n - 1],
                    end,
                    STEP_LIMIT as nat,
                    Seq::empty(),
                );
                (
                    before.update(n - 1, state),
                    match out {
                        Ok(v) => Ok(msgs + tagged((n - 1) as usize, v)),
                        Err(e) => Err(e),
                    },
                )
            },
        }
    }
}

/// What several cursors do when they are asked for their next message up to
/// the track time `end`, the cursors before place `from` being done with:
/// the cursor at `from` is asked, then the one after it, and so on, until
/// one hands out a message, which comes back with the place of its cursor.
/// Nothing comes back where none of them has a message left.
pub open spec fn multi_next(
    tracks: Seq<Seq<TrackEvent>>,
    states: Seq<CursorState>,
    end: ClockTime,
    from: nat,
) -> (Seq<CursorState>, Result<Option<(usize, TrackMessage)>, StepError>)
    decreases states.len() - from,
{
    if from >= states.len() {
        (states, Ok(None))
    } else {
        let (state, out) = next_event_spec(
            tracks[from as int],
            states[from as int],
            end,
            STEP_LIMIT as nat,
        );
        let after = states.update(from as int, state);
        match out {
            Err(e) => (after, Err(e)),
            Ok(Some(m)) => (after, Ok(Some((from as usize, (m.0, (from as usize, m.1), m.2))))),
            Ok(None) => multi_next(tracks, after, end, from + 1),
        }
    }
}

/// Once a cursor has failed, the cursors after it add nothing.
pub proof fn lemma_multi_run_failed(
    tracks: Seq<Seq<TrackEvent>>,
    states: Seq<CursorState>,
    end: ClockTime,
    k: nat,
    n: nat,
)
    requires
        k <= n,
        multi_run(tracks, states, end, k).1 is Err,
    ensures
        multi_run(tracks, states, end, n) == multi_run(tracks, states, end, k),
    decreases n,
{
    if n > k {
        lemma_multi_run_failed(tracks, states, end, k, (n - 1) as nat);
    }
}

/// The latest of the clocks of the first `n` cursors; time zero for none.
pub open spec fn latest_clock(states: Seq<CursorState>, n: nat) -> ClockTime
    decreases n,
{
    if n == 0 {
        ClockTime { nanos: 0 }
    } else {
        let rest = latest_clock(states, (n - 1) as nat);
        if states[n - 1].clock.nanos > rest.nanos {
            states[n - 1].clock
        } else {
            rest
        }
    }
}

/// Whether a run of several cursors handed out, as a vector, what
/// `expected` says.
pub open spec fn same_multi_outcome(
    got: Result<Vec<TrackMessage>, StepError>,
    expected: Result<Seq<TrackMessage>, StepError>,
) -> bool {
    match got {
        Ok(v) => expected == Ok::<Seq<TrackMessage>, StepError>(v@),
        Err(e) => expected == Err::<Seq<TrackMessage>, StepError>(e),
    }
}

/// Several cursors wrapped into one that is driven as a whole.
pub struct VecMultiCursor<T: EventTrack> {
    cursors: Vec<TrackCursor<T>>,
}

impl<T: EventTrack> VecMultiCursor<T> {
    /// The registers of each cursor.
    pub closed spec fn states(&self) -> Seq<CursorState> {
        Seq::new(self.cursors@.len(), |i: int| self.cursors@[i]@)
    }

    /// The track of each cursor.
    pub closed spec fn tracks(&self) -> Seq<Seq<TrackEvent>> {
        Seq::new(self.cursors@.len(), |i: int| self.cursors@[i].track())
    }

    /// Whether every cursor is in order.
    pub closed spec fn wf(&self) -> bool {
        forall|i: int| 0 <= i < self.cursors@.len() ==> (#[trigger] self.cursors@[i]).wf()
    }

    /// The cursors that are wrapped.
    pub closed spec fn inner(&self) -> Seq<TrackCursor<T>> {
        self.cursors@
    }

    /// What `states`, `tracks` and `wf` say, in terms of the wrapped cursors.
    pub proof fn lemma_inner(&self)
        ensures
            self.states().len() == self.inner().len(),
            self.tracks().len() == self.inner().len(),
            forall|i: int|
                0 <= i < self.inner().len() ==> #[trigger] self.states()[i] == self.inner()[i]@,
            forall|i: int|
                0 <= i < self.inner().len() ==> #[trigger] self.tracks()[i]
                    == self.inner()[i].track(),
            self.wf() <==> forall|i: int|
                0 <= i < self.inner().len() ==> (#[trigger] self.inner()[i]).wf(),
    {
    }

    pub fn new(cursors: Vec<TrackCursor<T>>) -> (r: Self)
        ensures
            r.inner() == cursors@,
    {
        Self { cursors }
    }

    /// The cursors that are wrapped.
    pub fn cursors(&self) -> (r: &[TrackCursor<T>])
        ensures
            r@ == self.inner(),
    {
        self.cursors.as_slice()
    }

    /// Unwraps the cursors.
    pub fn into_inner(self) -> (r: Vec<TrackCursor<T>>)
        ensures
            r@ == self.inner(),
    {
        self.cursors
    }

    /// The track time reached: the latest of the cursors' clocks, which agree
    /// while they are driven together; time zero where there is no cursor.
    pub fn cur_clock(&self) -> (r: ClockTime)
        ensures
            r == latest_clock(self.states(), self.states().len()),
    {
        let mut latest = ClockTime::zero();
        let n = self.cursors.len();
        let mut idx: usize = 0;
        while idx < n
            invariant
                idx <= n,
                n == self.cursors@.len(),
                latest == latest_clock(self.states(), idx as nat),
            decreases n - idx,
        {
            let clock = self.cursors[idx].cur_clock();
            if clock.nanos > latest.nanos {
                latest = clock;
            }
            idx = idx + 1;
        }
        latest
    }

    /// Drives each cursor in turn up to the track time `end` and hands out
    /// the messages met, those of the first cursor first, each with the time
    /// it is due at and with the place of its cursor beside its port.
    pub fn step_until(&mut self, end: ClockTime) -> (r: Result<Vec<TrackMessage>, StepError>)
        requires
            old(self).wf(),
        ensures
            final(self).wf(),
            final(self).tracks() == old(self).tracks(),
            final(self).states() == multi_run(
                old(self).tracks(),
                old(self).states(),
                end,
                old(self).states().len(),
            ).0,
            same_multi_outcome(
                r,
                multi_run(old(self).tracks(), old(self).states(), end, old(self).states().len()).1,
            ),
    {
        let mut out: Vec<TrackMessage> = Vec::new();
        let n = self.cursors.len();
        let mut idx: usize = 0;
        while idx < n
            invariant
                idx <= n,
                n == self.cursors@.len(),
                n == old(self).cursors@.len(),
                self.wf(),
                self.tracks() == old(self).tracks(),
                multi_run(old(self).tracks(), old(self).states(), end, idx as nat) == (
                    self.states(),
                    Ok::<Seq<TrackMessage>, StepError>(out@),
                ),
            decreases n - idx,
        {
            let ghost states_before = self.states();
            let ghost tracks_before = self.tracks();
            let ghost cursors_before = self.cursors@;
            let res = self.cursors[idx].step_until(end);
            proof {
                assert(self.cursors@.len() == cursors_before.len());
                assert forall|i: int| 0 <= i < self.cursors@.len() && i != idx implies
                    self.cursors@[i] == cursors_before[i] by {}
                assert(self.tracks() =~= tracks_before);
                assert(self.states() =~= states_before.update(idx as int, self.cursors@[idx as int]@));
            }
            match res {
                Err(e) => {
                    proof {
                        lemma_multi_run_failed(
                            old(self).tracks(),
                            old(self).states(),
                            end,
                            (idx + 1) as nat,
                            n as nat,
                        );
                    }
                    return Err(e);
                },
                Ok(sent) => {
                    let ghost out_before = out@;
                    let m = sent.len();
                    let mut j: usize = 0;
                    while j < m
                        invariant
                            j <= m,
                            m == sent@.len(),
                            out@ == out_before + tagged(idx, sent@.take(j as int)),
                        decreases m - j,
                    {
                        let (time, port, msg) = sent[j];
                        out.push((time, (idx, port), msg));
                        proof {
                            assert(out@ =~= out_before + tagged(idx, sent@.take(j as int + 1)));
                        }
                        j = j + 1;
                    }
                    proof {
                        assert(sent@.take(m as int) =~= sent@);
                    }
                },
            }
            idx = idx + 1;
        }
        Ok(out)
    }

    /// Hands out the next message that is due up to the track time `end`,
    /// with the place of the cursor that it comes from. The cursors before
    /// place `from` are passed over: whoever goes through the messages of a
    /// cycle starts at place 0 and goes on from the place that the last
    /// message came with. Nothing comes back when no cursor has a message
    /// left.
    pub fn next_event(&mut self, from: usize, end: ClockTime) -> (r: Result<
        Option<(usize, TrackMessage)>,
        StepError,
    >)
        requires
            old(self).wf(),
        ensures
            final(self).wf(),
            final(self).tracks() == old(self).tracks(),
            (final(self).states(), r) == multi_next(
                old(self).tracks(),
                old(self).states(),
                end,
                from as nat,
            ),
            r matches Ok(Some((idx, _))) ==> from <= idx < final(self).states().len(),
    {
        let n = self.cursors.len();
        let mut idx: usize = from;
        while idx < n
            invariant
                from <= idx,
                n == self.cursors@.len(),
                n == old(self).cursors@.len(),
                self.wf(),
                self.tracks() == old(self).tracks(),
                multi_next(old(self).tracks(), old(self).states(), end, from as nat) == multi_next(
                    self.tracks(),
                    self.states(),
                    end,
                    idx as nat,
                ),
            decreases n - idx,
        {
            let ghost states_before = self.states();
            let ghost tracks_before = self.tracks();
            let ghost cursors_before = self.cursors@;
            let res = self.cursors[idx].next_event(end);
            proof {
                assert(self.cursors@.len() == cursors_before.len());
                assert forall|i: int| 0 <= i < self.cursors@.len() && i != idx implies
                    self.cursors@[i] == cursors_before[i] by {}
                assert(self.tracks() =~= tracks_before);
                assert(self.states() =~= states_before.update(idx as int, self.cursors@[idx as int]@));
            }
            match res {
                Err(e) => {
                    return Err(e);
                },
                Ok(Some((time, port, msg))) => {
                    return Ok(Some((idx, (time, (idx, port), msg))));
                },
                Ok(None) => {},
            }
            idx = idx + 1;
        }
        Ok(None)
    }

    /// Puts every cursor back at the start of its track.
    pub fn reset(&mut self)
        requires
            old(self).wf(),
        ensures
            final(self).wf(),
            final(self).tracks() == old(self).tracks(),
            final(self).states().len() == old(self).states().len(),
            forall|i: int|
                0 <= i < final(self).states().len() ==> #[trigger] final(self).states()[i]
                    == CursorState::initial(old(self).tracks()[i]),
    {
        let n = self.cursors.len();
        let mut idx: usize = 0;
        while idx < n
            invariant
                idx <= n,
                n == self.cursors@.len(),
                n == old(self).cursors@.len(),
                self.wf(),
                self.tracks() == old(self).tracks(),
                forall|i: int|
                    0 <= i < idx ==> #[trigger] self.states()[i] == CursorState::initial(
                        old(self).tracks()[i],
                    ),
            decreases n - idx,
        {
            let ghost tracks_before = self.tracks();
            let ghost states_before = self.states();
            let ghost cursors_before = self.cursors@;
            self.cursors[idx].reset();
            proof {
                assert(self.cursors@.len() == cursors_before.len());
                assert forall|i: int| 0 <= i < self.cursors@.len() && i != idx implies
                    self.cursors@[i] == cursors_before[i] by {}
                assert(self.tracks() =~= tracks_before);
                assert(self.states() =~= states_before.update(
                    idx as int,
                    CursorState::initial(tracks_before[idx as int]),
                ));
            }
            idx = idx + 1;
        }
    }
}

} // verus!
