//! How often a cursor goes round a counted loop.

use super::cursor::run_spec;
use super::cursor::step_spec;
use super::cursor::CursorState;
use super::cursor::StepError;
use super::cursor::StepOutput;
use super::cursor::TimedMessage;
use super::ClockTime;
use super::OutputPort;
use super::TrackEvent;
use super::WaitTime;
use crate::midi::MidiMessage;
use crate::utils::NonZeroU16;
use vstd::prelude::*;

verus! {

broadcast use crate::utils::group_nonzero;

/// The track of a loop that sends one message and waits, with a jump back
/// that has the count `count`.
pub open spec fn one_message_loop(
    message: MidiMessage,
    port: OutputPort,
    wait: WaitTime,
    count: NonZeroU16,
) -> Seq<TrackEvent> {
    seq![
        TrackEvent::SendMessage { message, port },
        TrackEvent::Wait(wait),
        TrackEvent::Jump { target: 0, count: Some(count) },
        TrackEvent::End,
    ]
}

/// A time that no clock passes.
pub open spec fn never() -> ClockTime {
    ClockTime { nanos: u128::MAX }
}

/// One pass through the loop: the message is sent, the wait is waited, and
/// the jump is taken or passed over.
proof fn lemma_one_pass(
    message: MidiMessage,
    port: OutputPort,
    wait: WaitTime,
    count: NonZeroU16,
    s: CursorState,
)
    requires
        count.wf(),
        s.ip == 0,
        s.counts.contains_key(2),
    ensures
        ({
            let track = one_message_loop(message, port, wait, count);
            let (s1, o1) = step_spec(track, s);
            let (s2, o2) = step_spec(track, s1);
            let (s3, o3) = step_spec(track, s2);
            &&& o1 == Ok::<StepOutput, StepError>(
                StepOutput::Message { time: s.clock, port, msg: message },
            )
            &&& o2 == Ok::<StepOutput, StepError>(StepOutput::Continue)
            &&& o3 == Ok::<StepOutput, StepError>(StepOutput::Continue)
            &&& s3.counts.contains_key(2)
            &&& s.counts[2] > 0 ==> s3.ip == 0 && s3.counts[2] == s.counts[2] - 1
            &&& s.counts[2] == 0 ==> s3.ip == 3
        }),
{
    let track = one_message_loop(message, port, wait, count);
    assert(track[0] == TrackEvent::SendMessage { message, port });
    assert(track[1] == TrackEvent::Wait(wait));
    assert(track[2] == TrackEvent::Jump { target: 0, count: Some(count) });
    assert(track.len() == 4);
}

/// A cursor at the start of the loop, whose jump is still to be taken `r`
/// times, sends `r + 1` messages more before the track ends, given the steps
/// and the time for it; each is the loop's message out of the loop's port.
pub proof fn lemma_loop_run(
    message: MidiMessage,
    port: OutputPort,
    wait: WaitTime,
    count: NonZeroU16,
    s: CursorState,
    fuel: nat,
    sent: Seq<TimedMessage>,
)
    requires
        count.wf(),
        s.ip == 0,
        s.counts.contains_key(2),
        fuel >= 3 * (s.counts[2] + 1) + 1,
    ensures
        run_spec(one_message_loop(message, port, wait, count), s, never(), fuel, sent).1 is Ok,
        ({
            let all = run_spec(
                one_message_loop(message, port, wait, count),
                s,
                never(),
                fuel,
                sent,
            ).1->Ok_0;
            &&& all.len() == sent.len() + s.counts[2] + 1
            &&& all.subrange(0, sent.len() as int) == sent
            &&& forall|i: int|
                sent.len() <= i < all.len() ==> (#[trigger] all[i]).1 == port && all[i].2
                    == message
        }),
    decreases s.counts[2],
{
    let track = one_message_loop(message, port, wait, count);
    lemma_one_pass(message, port, wait, count, s);
    let (s1, o1) = step_spec(track, s);
    let (s2, o2) = step_spec(track, s1);
    let (s3, o3) = step_spec(track, s2);
    let more = sent.push((s.clock, port, message));
    assert(run_spec(track, s, never(), fuel, sent) == run_spec(
        track,
        s1,
        never(),
        (fuel - 1) as nat,
        more,
    ));
    assert(run_spec(track, s1, never(), (fuel - 1) as nat, more) == run_spec(
        track,
        s2,
        never(),
        (fuel - 2) as nat,
        more,
    ));
    assert(run_spec(track, s2, never(), (fuel - 2) as nat, more) == run_spec(
        track,
        s3,
        never(),
        (fuel - 3) as nat,
        more,
    ));
    assert(more.subrange(0, sent.len() as int) =~= sent);
    if s.counts[2] > 0 {
        lemma_loop_run(message, port, wait, count, s3, (fuel - 3) as nat, more);
        let all = run_spec(track, s3, never(), (fuel - 3) as nat, more).1->Ok_0;
        assert(all.subrange(0, sent.len() as int) =~= all.subrange(
            0,
            more.len() as int,
        ).subrange(0, sent.len() as int));
        assert forall|i: int| sent.len() <= i < all.len() implies (#[trigger] all[i]).1 == port
            && all[i].2 == message by {
            if i == sent.len() {
                assert(all[i] == all.subrange(0, more.len() as int)[i]);
            }
        }
    } else {
        assert(track[3] == TrackEvent::End);
        assert(step_spec(track, s3).1 == Ok::<StepOutput, StepError>(StepOutput::End));
        assert(run_spec(track, s3, never(), (fuel - 3) as nat, more).1 == Ok::<
            Seq<TimedMessage>,
            StepError,
        >(more));
    }
}

/// Played from the start with the steps and the time for it, the loop whose
/// jump back has the count `count` sends its message `count + 1` times.
pub proof fn lemma_loop_plays(
    message: MidiMessage,
    port: OutputPort,
    wait: WaitTime,
    count: NonZeroU16,
    fuel: nat,
)
    requires
        count.wf(),
        fuel >= 3 * (count.value() + 1) + 1,
    ensures
        run_spec(
            one_message_loop(message, port, wait, count),
            CursorState::initial(one_message_loop(message, port, wait, count)),
            never(),
            fuel,
            Seq::empty(),
        ).1 is Ok,
        ({
            let all = run_spec(
                one_message_loop(message, port, wait, count),
                CursorState::initial(one_message_loop(message, port, wait, count)),
                never(),
                fuel,
                Seq::empty(),
            ).1->Ok_0;
            &&& all.len() == count.value() + 1
            &&& forall|i: int|
                0 <= i < all.len() ==> (#[trigger] all[i]).1 == port && all[i].2 == message
        }),
{
    let track = one_message_loop(message, port, wait, count);
    let start = CursorState::initial(track);
    assert(track[2] == TrackEvent::Jump { target: 0, count: Some(count) });
    assert(start.counts.contains_key(2));
    assert(start.counts[2] == count.value());
    lemma_loop_run(message, port, wait, count, start, fuel, Seq::empty());
}

} // verus!
