use midiseq::midi::MidiChannel;
use midiseq::midi::MidiMessage;
use midiseq::midi::MidiNote;
use midiseq::midi::NoteOn;
use midiseq::midi::PressVelocity;
use midiseq::track::cursor::JumpCounts;
use midiseq::track::cursor::StepError;
use midiseq::track::cursor::StepOutput;
use midiseq::track::cursor::TrackCursor;
use midiseq::track::insert_port;
use midiseq::track::instructions::clamped_to_nonzerou16;
use midiseq::track::multicursor::VecMultiCursor;
use midiseq::track::BpmInfo;
use midiseq::track::ClockTime;
use midiseq::track::EventTrack;
use midiseq::track::OutputPort;
use midiseq::track::TrackEvent;
use midiseq::track::WaitTime;
use midiseq::utils::NonZeroU16;

fn nz(raw: u16) -> NonZeroU16 {
    NonZeroU16::new(raw).unwrap()
}

fn bpm(beats: u16, ticks: u16) -> BpmInfo {
    BpmInfo { beats_per_minute: nz(beats), ticks_per_beat: nz(ticks) }
}

fn note_on(raw: u8) -> MidiMessage {
    MidiMessage::NoteOn(NoteOn::new(
        MidiChannel::from_raw(0).unwrap(),
        MidiNote::from_raw(raw).unwrap(),
        PressVelocity::from_raw(90).unwrap(),
    ))
}

fn send(raw: u8, port: u128) -> TrackEvent {
    TrackEvent::SendMessage { message: note_on(raw), port: OutputPort { idx: port } }
}

fn tick() -> TrackEvent {
    TrackEvent::Wait(WaitTime::Ticks(nz(1)))
}

const TICK_NANOS: u128 = 15_625_000;

#[test]
fn nonzero_counts() {
    assert_eq!(None, NonZeroU16::new(0));
    assert_eq!(Some(1), NonZeroU16::new(1).map(|n| n.get()));
    assert_eq!(65535, nz(65535).get());
    assert_eq!(1, NonZeroU16::one().get());
}

#[test]
fn clock_time_units() {
    assert_eq!(0, ClockTime::zero().as_nanos());
    assert_eq!(7, ClockTime::from_nanos(7).as_nanos());
    assert_eq!(7_000, ClockTime::from_micros(7).as_nanos());
    assert_eq!(7_000_000, ClockTime::from_millis(7).as_nanos());
    assert_eq!(7_000_000_000, ClockTime::from_secs(7).as_nanos());
    assert_eq!(18_446_744_073_709_551_615_000_000_000, ClockTime::from_secs(u64::MAX).as_nanos());
    assert_eq!(1, ClockTime::from_nanos(1_999).as_micros());
}

#[test]
fn clock_time_arithmetic() {
    let a = ClockTime::from_nanos(5);
    let b = ClockTime::from_nanos(7);
    assert_eq!(ClockTime::from_nanos(12), a.saturating_add(b));
    let top = ClockTime { nanos: u128::MAX - 3 };
    assert_eq!(ClockTime { nanos: u128::MAX }, top.saturating_add(a));
    assert_eq!(ClockTime { nanos: u128::MAX }, top.saturating_add(ClockTime::from_nanos(3)));
    assert_eq!(ClockTime::from_nanos(2), b.saturating_sub(a));
    assert_eq!(ClockTime::zero(), a.saturating_sub(b));
}

#[test]
fn default_timing() {
    let b = BpmInfo::default();
    assert_eq!(120, b.beats_per_minute.get());
    assert_eq!(32, b.ticks_per_beat.get());
    assert_eq!(500_000_000, b.beat_duration().as_nanos());
    assert_eq!(TICK_NANOS, b.tick_duration().as_nanos());
}

#[test]
fn tick_lengths_round_down() {
    let b = bpm(7, 3);
    // 60e9 / 7 = 8571428571.4..., / 3 = 2857142857
    assert_eq!(8_571_428_571, b.beat_duration().as_nanos());
    assert_eq!(2_857_142_857, b.tick_duration().as_nanos());
    let fastest = bpm(65535, 65535);
    assert_eq!(915_541, fastest.beat_duration().as_nanos());
    assert_eq!(13, fastest.tick_duration().as_nanos());
    let slowest = bpm(1, 1);
    assert_eq!(60_000_000_000, slowest.tick_duration().as_nanos());
}

#[test]
fn clamped_counts() {
    assert_eq!(1, clamped_to_nonzerou16(0).get());
    assert_eq!(1, clamped_to_nonzerou16(1).get());
    assert_eq!(65535, clamped_to_nonzerou16(65535).get());
    assert_eq!(65535, clamped_to_nonzerou16(65536).get());
    assert_eq!(65535, clamped_to_nonzerou16(u128::MAX).get());
}

#[test]
fn wait_as_duration() {
    let b = BpmInfo::default();
    assert_eq!(3 * TICK_NANOS, WaitTime::Ticks(nz(3)).as_duration(b).as_nanos());
    assert_eq!(2 * 32 * TICK_NANOS, WaitTime::Beats(nz(2)).as_duration(b).as_nanos());
    assert_eq!(
        ClockTime::from_millis(5),
        WaitTime::Clock(ClockTime::from_millis(5)).as_duration(b)
    );
    // more nanoseconds than 64 bits hold
    let slowest = bpm(1, 65535);
    assert_eq!(
        65535u128 * 65535 * 915_541,
        WaitTime::Beats(nz(65535)).as_duration(slowest).as_nanos()
    );
    assert_eq!(
        65535u128 * 60_000_000_000,
        WaitTime::Beats(nz(65535)).as_duration(bpm(1, 1)).as_nanos()
    );
}

#[test]
fn wait_as_ticks() {
    let b = BpmInfo::default();
    assert_eq!(3, WaitTime::Ticks(nz(3)).as_ticks(b).get());
    assert_eq!(64, WaitTime::Beats(nz(2)).as_ticks(b).get());
    assert_eq!(65535, WaitTime::Beats(nz(4000)).as_ticks(b).get());
    assert_eq!(65535, WaitTime::Beats(nz(65535)).as_ticks(bpm(120, 65535)).get());
    assert_eq!(32, WaitTime::Clock(ClockTime::from_millis(500)).as_ticks(b).get());
    assert_eq!(31, WaitTime::Clock(ClockTime::from_nanos(499_999_999)).as_ticks(b).get());
    assert_eq!(1, WaitTime::Clock(ClockTime::zero()).as_ticks(b).get());
    assert_eq!(65535, WaitTime::Clock(ClockTime::from_secs(100_000)).as_ticks(b).get());
}

#[test]
fn ticks_round_trip() {
    for b in [BpmInfo::default(), bpm(7, 3), bpm(65535, 65535), bpm(1, 1), bpm(121, 33)] {
        for n in [1u16, 2, 3, 31, 32, 1000, 65534, 65535] {
            let there = WaitTime::Ticks(nz(n)).as_duration(b);
            assert_eq!(n, WaitTime::Clock(there).as_ticks(b).get());
        }
    }
}

#[test]
fn output_port_from_index() {
    assert_eq!(OutputPort { idx: 3 }, OutputPort::from(3usize));
    assert!(OutputPort { idx: 3 } < OutputPort { idx: 4 });
}

#[test]
fn track_capability() {
    let track = vec![
        send(60, 2),
        TrackEvent::Jump { target: 0, count: Some(nz(3)) },
        send(61, 0),
        TrackEvent::Jump { target: 0, count: None },
        send(62, 2),
        TrackEvent::Jump { target: 1, count: Some(nz(9)) },
        TrackEvent::End,
    ];
    assert_eq!(7, EventTrack::len(&track));
    assert_eq!(Some(send(61, 0)), EventTrack::get(&track, 2));
    assert_eq!(Some(TrackEvent::End), EventTrack::get(&track, 6));
    assert_eq!(None, EventTrack::get(&track, 7));
    assert_eq!(vec![(1, 3), (5, 9)], track.finite_jumps());
    assert_eq!(vec![OutputPort { idx: 0 }, OutputPort { idx: 2 }], track.output_ports());
    let empty: Vec<TrackEvent> = Vec::new();
    assert_eq!(Vec::<(usize, u16)>::new(), empty.finite_jumps());
    assert_eq!(Vec::<OutputPort>::new(), empty.output_ports());
}

#[test]
fn ports_are_kept_in_order() {
    let mut ports = Vec::new();
    for idx in [5u128, 1, 3, 5, 0, 3, 9] {
        insert_port(&mut ports, OutputPort { idx });
    }
    let expected: Vec<OutputPort> = [0u128, 1, 3, 5, 9].iter().map(|&idx| OutputPort { idx }).collect();
    assert_eq!(expected, ports);
}

#[test]
fn jump_counter_turns() {
    let mut counts = JumpCounts::from_iter(4, vec![(2, 2)]);
    // taken twice, passed over once, and so on
    assert_eq!(Ok(0), counts.do_jump(2, 0, Some(nz(2))));
    assert_eq!(Ok(0), counts.do_jump(2, 0, Some(nz(2))));
    assert_eq!(Ok(3), counts.do_jump(2, 0, Some(nz(2))));
    assert_eq!(Ok(0), counts.do_jump(2, 0, Some(nz(2))));
    assert_eq!(Ok(0), counts.do_jump(2, 0, Some(nz(2))));
    assert_eq!(Ok(3), counts.do_jump(2, 0, Some(nz(2))));
    // without a count the jump is always taken
    assert_eq!(Ok(1), counts.do_jump(0, 1, None));
    assert_eq!(Ok(3), counts.do_jump(0, 3, None));
}

#[test]
fn jump_errors() {
    let mut counts = JumpCounts::from_iter(4, vec![(2, 2)]);
    assert_eq!(Err(StepError::BadJumpTarget { target: 4 }), counts.do_jump(2, 4, Some(nz(2))));
    assert_eq!(Err(StepError::BadJumpTarget { target: 9 }), counts.do_jump(0, 9, None));
    assert_eq!(Err(StepError::JumpIdxNotFound { target: 1 }), counts.do_jump(1, 0, Some(nz(2))));
    let mut none = JumpCounts::from_iter(0, Vec::new());
    assert_eq!(Err(StepError::BadJumpTarget { target: 0 }), none.do_jump(0, 0, None));
}

#[test]
fn jump_counters_later_pair_wins() {
    let mut counts = JumpCounts::from_iter(4, vec![(2, 5), (2, 0)]);
    assert_eq!(Ok(3), counts.do_jump(2, 0, Some(nz(1))));
    assert_eq!(Ok(0), counts.do_jump(2, 0, Some(nz(1))));
    assert_eq!(Ok(3), counts.do_jump(2, 0, Some(nz(1))));
}

#[test]
fn jump_counter_reset() {
    let track = vec![send(60, 0), tick(), TrackEvent::Jump { target: 0, count: Some(nz(2)) }, TrackEvent::End];
    let mut counts = JumpCounts::from_iter(4, track.finite_jumps());
    assert_eq!(Ok(0), counts.do_jump(2, 0, Some(nz(2))));
    assert_eq!(Ok(()), counts.reset(&track));
    assert_eq!(Ok(0), counts.do_jump(2, 0, Some(nz(2))));
    assert_eq!(Ok(0), counts.do_jump(2, 0, Some(nz(2))));
    assert_eq!(Ok(3), counts.do_jump(2, 0, Some(nz(2))));
    let mut stray = JumpCounts::from_iter(4, vec![(1, 2)]);
    assert_eq!(Err(StepError::JumpIdxNotFound { target: 1 }), stray.reset(&track));
}

#[test]
fn cursor_steps() {
    let fast = bpm(60, 1);
    let track = vec![
        send(60, 0),
        TrackEvent::Wait(WaitTime::Ticks(nz(2))),
        TrackEvent::SetBpm(fast),
        TrackEvent::Wait(WaitTime::Beats(nz(1))),
        send(61, 1),
        TrackEvent::End,
    ];
    let mut cursor = TrackCursor::new(track);
    assert_eq!(0, cursor.pc());
    assert_eq!(BpmInfo::default(), cursor.bpm());
    assert_eq!(ClockTime::zero(), cursor.cur_clock());
    assert_eq!(0, cursor.cur_ticks());
    assert_eq!(
        Ok(StepOutput::Message {
            time: ClockTime::zero(),
            port: OutputPort { idx: 0 },
            msg: note_on(60)
        }),
        cursor.step()
    );
    assert_eq!(1, cursor.pc());
    assert_eq!(Ok(StepOutput::Continue), cursor.step());
    assert_eq!(2 * TICK_NANOS, cursor.cur_clock().as_nanos());
    assert_eq!(2, cursor.cur_ticks());
    assert_eq!(Ok(StepOutput::Continue), cursor.step());
    assert_eq!(fast, cursor.bpm());
    assert_eq!(Ok(StepOutput::Continue), cursor.step());
    assert_eq!(2 * TICK_NANOS + 1_000_000_000, cursor.cur_clock().as_nanos());
    assert_eq!(3, cursor.cur_ticks());
    assert_eq!(
        Ok(StepOutput::Message {
            time: ClockTime::from_nanos(2 * TICK_NANOS as u64 + 1_000_000_000),
            port: OutputPort { idx: 1 },
            msg: note_on(61)
        }),
        cursor.step()
    );
    assert_eq!(5, cursor.pc());
    assert_eq!(Ok(StepOutput::End), cursor.step());
    assert_eq!(Ok(StepOutput::End), cursor.step());
    assert_eq!(5, cursor.pc());
}

#[test]
fn cursor_errors() {
    let mut off_end = TrackCursor::new(vec![tick()]);
    assert_eq!(Ok(StepOutput::Continue), off_end.step());
    assert_eq!(Err(StepError::BadInstrPointer(1)), off_end.step());
    assert_eq!(Err(StepError::BadInstrPointer(1)), off_end.step_until(ClockTime::from_secs(1)));
    let mut empty = TrackCursor::new(Vec::<TrackEvent>::new());
    assert_eq!(Err(StepError::BadInstrPointer(0)), empty.step());
    let mut wild = TrackCursor::new(vec![TrackEvent::Jump { target: 2, count: None }, TrackEvent::End]);
    assert_eq!(Err(StepError::BadJumpTarget { target: 2 }), wild.step());
    assert_eq!(Err(StepError::BadJumpTarget { target: 2 }), wild.next_event(ClockTime::zero()));
}

#[test]
fn tick_dial_wraps() {
    let track = vec![
        TrackEvent::Wait(WaitTime::Ticks(nz(65535))),
        TrackEvent::Wait(WaitTime::Ticks(nz(3))),
        TrackEvent::End,
    ];
    let mut cursor = TrackCursor::new(track);
    assert_eq!(Ok(StepOutput::Continue), cursor.step());
    assert_eq!(65535, cursor.cur_ticks());
    assert_eq!(Ok(StepOutput::Continue), cursor.step());
    assert_eq!(2, cursor.cur_ticks());
    assert_eq!(65538 * TICK_NANOS, cursor.cur_clock().as_nanos());
}

#[test]
fn clock_stops_at_the_largest_time() {
    let track = vec![
        TrackEvent::Wait(WaitTime::Clock(ClockTime { nanos: u128::MAX - 1 })),
        TrackEvent::Wait(WaitTime::Ticks(nz(1))),
        send(60, 0),
        TrackEvent::End,
    ];
    let mut cursor = TrackCursor::new(track);
    let sent = cursor.step_until(ClockTime { nanos: u128::MAX }).unwrap();
    assert_eq!(vec![(ClockTime { nanos: u128::MAX }, OutputPort { idx: 0 }, note_on(60))], sent);
}

#[test]
fn step_until_stops_at_the_window() {
    let track = vec![send(60, 0), tick(), send(61, 0), tick(), send(62, 0), tick(), TrackEvent::End];
    let mut cursor = TrackCursor::new(track);
    let port = OutputPort { idx: 0 };
    // a message at the very end of the window is still due
    let first = cursor.step_until(ClockTime::from_nanos(TICK_NANOS as u64)).unwrap();
    assert_eq!(
        vec![
            (ClockTime::zero(), port, note_on(60)),
            (ClockTime::from_nanos(TICK_NANOS as u64), port, note_on(61)),
        ],
        first
    );
    assert_eq!(2 * TICK_NANOS, cursor.cur_clock().as_nanos());
    // the clock is past the window: nothing is due
    assert_eq!(Ok(Vec::new()), cursor.step_until(ClockTime::from_nanos(TICK_NANOS as u64)));
    let rest = cursor.step_until(ClockTime::from_secs(1)).unwrap();
    assert_eq!(vec![(ClockTime::from_nanos(2 * TICK_NANOS as u64), port, note_on(62))], rest);
    assert_eq!(Ok(Vec::new()), cursor.step_until(ClockTime::from_secs(1)));
    assert_eq!(3 * TICK_NANOS, cursor.cur_clock().as_nanos());
}

#[test]
fn next_event_hands_out_one_at_a_time() {
    let track = vec![send(60, 0), TrackEvent::SetBpm(bpm(60, 1)), send(61, 0), tick(), send(62, 0), TrackEvent::End];
    let mut cursor = TrackCursor::new(track);
    let port = OutputPort { idx: 0 };
    let end = ClockTime::from_millis(10);
    assert_eq!(Ok(Some((ClockTime::zero(), port, note_on(60)))), cursor.next_event(end));
    assert_eq!(Ok(Some((ClockTime::zero(), port, note_on(61)))), cursor.next_event(end));
    assert_eq!(Ok(None), cursor.next_event(end));
    assert_eq!(1_000_000_000, cursor.cur_clock().as_nanos());
    assert_eq!(
        Ok(Some((ClockTime::from_secs(1), port, note_on(62)))),
        cursor.next_event(ClockTime::from_secs(1))
    );
    assert_eq!(Ok(None), cursor.next_event(ClockTime::from_secs(1)));
}

#[test]
fn message_times_never_go_down() {
    let track = vec![
        send(60, 0),
        tick(),
        send(61, 0),
        TrackEvent::Wait(WaitTime::Clock(ClockTime::zero())),
        send(62, 0),
        TrackEvent::Jump { target: 0, count: Some(nz(5)) },
        TrackEvent::End,
    ];
    let mut cursor = TrackCursor::new(track);
    let mut last = ClockTime::zero();
    let mut seen = 0;
    for end in [0u64, 1, 2, 3, 10, 1000] {
        for (time, _, _) in cursor.step_until(ClockTime::from_millis(end * 15)).unwrap() {
            assert!(last.as_nanos() <= time.as_nanos());
            last = time;
            seen += 1;
        }
    }
    assert_eq!(18, seen);
}

#[test]
fn counted_loop_repeats() {
    for count in [1u16, 2, 3, 10] {
        let track = vec![send(60, 0), tick(), TrackEvent::Jump { target: 0, count: Some(nz(count)) }, TrackEvent::End];
        let mut cursor = TrackCursor::new(track);
        let sent = cursor.step_until(ClockTime::from_secs(60)).unwrap();
        assert_eq!(count as usize + 1, sent.len());
        for (idx, (time, port, msg)) in sent.iter().enumerate() {
            assert_eq!(idx as u128 * TICK_NANOS, time.as_nanos());
            assert_eq!(OutputPort { idx: 0 }, *port);
            assert_eq!(note_on(60), *msg);
        }
    }
}

#[test]
fn reset_plays_the_same_again() {
    let track = vec![
        send(60, 0),
        TrackEvent::SetBpm(bpm(240, 4)),
        tick(),
        TrackEvent::Jump { target: 0, count: Some(nz(2)) },
        send(61, 1),
        TrackEvent::End,
    ];
    let mut cursor = TrackCursor::new(track);
    let mut first = Vec::new();
    for _ in 0..14 {
        first.push(cursor.step());
    }
    cursor.reset();
    assert_eq!(0, cursor.pc());
    assert_eq!(BpmInfo::default(), cursor.bpm());
    assert_eq!(ClockTime::zero(), cursor.cur_clock());
    assert_eq!(0, cursor.cur_ticks());
    let mut second = Vec::new();
    for _ in 0..14 {
        second.push(cursor.step());
    }
    assert_eq!(first, second);
    assert_eq!(Ok(StepOutput::Continue), first[11]);
    assert_eq!(Ok(StepOutput::End), first[13]);
    // a reset in the middle of a loop fills the counter again
    cursor.reset();
    for _ in 0..4 {
        let _ = cursor.step();
    }
    cursor.reset();
    let again = cursor.step_until(ClockTime::from_secs(60)).unwrap();
    assert_eq!(4, again.len());
}

#[test]
fn multi_cursor_tags_tracks() {
    let t0 = vec![send(60, 0), tick(), send(62, 1), TrackEvent::End];
    let t1 = vec![send(64, 0), TrackEvent::End];
    let mut multi = VecMultiCursor::new(vec![TrackCursor::new(t0), TrackCursor::new(t1)]);
    assert_eq!(2, multi.cursors().len());
    assert_eq!(ClockTime::zero(), multi.cur_clock());
    let sent = multi.step_until(ClockTime::from_secs(1)).unwrap();
    // track by track, not by time
    assert_eq!(
        vec![
            (ClockTime::zero(), (0, OutputPort { idx: 0 }), note_on(60)),
            (ClockTime::from_nanos(TICK_NANOS as u64), (0, OutputPort { idx: 1 }), note_on(62)),
            (ClockTime::zero(), (1, OutputPort { idx: 0 }), note_on(64)),
        ],
        sent
    );
    assert_eq!(TICK_NANOS, multi.cur_clock().as_nanos());
    multi.reset();
    assert_eq!(ClockTime::zero(), multi.cur_clock());
    assert_eq!(3, multi.step_until(ClockTime::from_secs(1)).unwrap().len());
    let cursors = multi.into_inner();
    assert_eq!(2, cursors.len());
    assert_eq!(3, cursors[0].pc());
    assert_eq!(1, cursors[1].pc());
}

#[test]
fn multi_cursor_stops_at_a_failing_track() {
    let good = vec![send(60, 0), TrackEvent::End];
    let bad = vec![tick()];
    let mut multi = VecMultiCursor::new(vec![
        TrackCursor::new(good.clone()),
        TrackCursor::new(bad),
        TrackCursor::new(good),
    ]);
    assert_eq!(Err(StepError::BadInstrPointer(1)), multi.step_until(ClockTime::from_secs(1)));
    let cursors = multi.into_inner();
    assert_eq!(1, cursors[0].pc());
    assert_eq!(1, cursors[1].pc());
    assert_eq!(0, cursors[2].pc());
}

#[test]
fn empty_multi_cursor() {
    let mut multi: VecMultiCursor<Vec<TrackEvent>> = VecMultiCursor::new(Vec::new());
    assert_eq!(ClockTime::zero(), multi.cur_clock());
    assert_eq!(Ok(Vec::new()), multi.step_until(ClockTime::from_secs(1)));
    multi.reset();
}

#[test]
fn multi_cursor_one_at_a_time() {
    let t0 = vec![send(60, 0), tick(), send(62, 1), TrackEvent::End];
    let t1 = vec![TrackEvent::End];
    let t2 = vec![send(64, 0), TrackEvent::End];
    let mut multi = VecMultiCursor::new(vec![TrackCursor::new(t0), TrackCursor::new(t1), TrackCursor::new(t2)]);
    let end = ClockTime::from_secs(1);
    assert_eq!(
        Ok(Some((0, (ClockTime::zero(), (0, OutputPort { idx: 0 }), note_on(60))))),
        multi.next_event(0, end)
    );
    assert_eq!(
        Ok(Some((0, (ClockTime::from_nanos(TICK_NANOS as u64), (0, OutputPort { idx: 1 }), note_on(62))))),
        multi.next_event(0, end)
    );
    assert_eq!(
        Ok(Some((2, (ClockTime::zero(), (2, OutputPort { idx: 0 }), note_on(64))))),
        multi.next_event(0, end)
    );
    assert_eq!(Ok(None), multi.next_event(2, end));
    assert_eq!(Ok(None), multi.next_event(0, end));
    assert_eq!(Ok(None), multi.next_event(7, end));
    let mut broken = VecMultiCursor::new(vec![TrackCursor::new(vec![TrackEvent::End]), TrackCursor::new(vec![tick()])]);
    assert_eq!(Err(StepError::BadInstrPointer(1)), broken.next_event(0, end));
}
