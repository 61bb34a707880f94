use midiseq::control::parse_command;
use midiseq::control::Command;
use midiseq::driver::all_notes_off;
use midiseq::driver::decimal;
use midiseq::driver::port_name;
use midiseq::songlang::OutputLabel;
use midiseq::driver::frame_offset;
use midiseq::driver::writer_arena_size;
use midiseq::driver::Driver;
use midiseq::midi::MidiChannel;
use midiseq::midi::MidiMessage;
use midiseq::midi::MidiNote;
use midiseq::midi::NoteOn;
use midiseq::midi::PressVelocity;
use midiseq::track::cursor::StepError;
use midiseq::track::cursor::TrackCursor;
use midiseq::track::multicursor::VecMultiCursor;
use midiseq::track::OutputPort;
use midiseq::track::TrackEvent;
use midiseq::track::WaitTime;
use midiseq::utils::NonZeroU16;

fn note_on(raw: u8) -> MidiMessage {
    MidiMessage::NoteOn(NoteOn::new(
        MidiChannel::from_raw(0).unwrap(),
        MidiNote::from_raw(raw).unwrap(),
        PressVelocity::from_raw(90).unwrap(),
    ))
}

fn send(raw: u8) -> TrackEvent {
    TrackEvent::SendMessage { message: note_on(raw), port: OutputPort { idx: 0 } }
}

// a millisecond of waiting
fn wait_ms(millis: u64) -> TrackEvent {
    TrackEvent::Wait(WaitTime::Clock(midiseq::track::ClockTime::from_millis(millis)))
}

fn scale() -> Vec<TrackEvent> {
    vec![send(60), wait_ms(10), send(62), wait_ms(10), send(64), wait_ms(10), send(65), TrackEvent::End]
}

fn driver_of(tracks: Vec<Vec<TrackEvent>>) -> Driver<Vec<TrackEvent>> {
    Driver::new(VecMultiCursor::new(tracks.into_iter().map(TrackCursor::new).collect()))
}

fn notes(events: &[(u64, (usize, OutputPort), MidiMessage)]) -> Vec<(u64, u8)> {
    events
        .iter()
        .map(|(time, _, msg)| match msg {
            MidiMessage::NoteOn(on) => (*time, on.note().as_u8()),
            _ => unreachable!(),
        })
        .collect()
}

#[test]
fn frame_offsets_stop_at_zero() {
    assert_eq!(5, frame_offset(105, 100));
    assert_eq!(0, frame_offset(100, 100));
    assert_eq!(0, frame_offset(99, 100));
    assert_eq!(u32::MAX, frame_offset(u32::MAX, 0));
}

#[test]
fn safety_burst() {
    let burst = all_notes_off();
    assert_eq!(128, burst.len());
    for (idx, msg) in burst.iter().enumerate() {
        assert_eq!([0x90, idx as u8, 0], msg.as_raw().bytes);
    }
}

#[test]
fn arena_size() {
    assert_eq!(Some(2 * 24), writer_arena_size(0, 24));
    assert_eq!(Some(5 * 24), writer_arena_size(3, 24));
    assert_eq!(Some(0), writer_arena_size(7, 0));
    assert_eq!(None, writer_arena_size(usize::MAX / 2, 4));
    assert_eq!(None, writer_arena_size(usize::MAX, 1));
    assert_eq!(Some(0), writer_arena_size(usize::MAX, 0));
    assert_eq!(Some(usize::MAX), writer_arena_size(usize::MAX - 2, 1));
}

#[test]
fn playback_starts_at_the_first_cycle() {
    let mut driver = driver_of(vec![scale()]);
    assert_eq!(None, driver.start_usecs());
    let out = driver.run_cycle(1_000_000, 1_005_000, false, false).unwrap();
    assert!(!out.restarted);
    assert_eq!(vec![(1_000_000, 60)], notes(&out.events));
    assert_eq!(Some(1_000_000), driver.start_usecs());
    // the window ends at 10 ms of track time, where the second note is due
    let out = driver.run_cycle(1_005_000, 1_010_000, false, false).unwrap();
    assert_eq!(vec![(1_010_000, 62)], notes(&out.events));
    let out = driver.run_cycle(1_010_000, 1_015_000, false, false).unwrap();
    assert_eq!(Vec::<(u64, u8)>::new(), notes(&out.events));
    let out = driver.run_cycle(1_015_000, 1_100_000, false, false).unwrap();
    assert_eq!(vec![(1_020_000, 64), (1_030_000, 65)], notes(&out.events));
    let out = driver.run_cycle(1_100_000, 1_105_000, false, false).unwrap();
    assert!(out.events.is_empty());
}

#[test]
fn pause_holds_track_time() {
    let mut paused = driver_of(vec![scale()]);
    let mut straight = driver_of(vec![scale()]);
    assert_eq!(1, paused.run_cycle(1_000_000, 1_005_000, false, false).unwrap().events.len());
    assert_eq!(1, straight.run_cycle(1_000_000, 1_005_000, false, false).unwrap().events.len());
    // three cycles of pause
    for cycle in 0..3u64 {
        let cur = 1_005_000 + cycle * 5_000;
        let out = paused.run_cycle(cur, cur + 5_000, false, true).unwrap();
        assert!(out.events.is_empty());
        assert!(!out.restarted);
    }
    assert_eq!(Some(1_015_000), paused.start_usecs());
    let late = paused.run_cycle(1_020_000, 1_030_000, false, false).unwrap();
    let on_time = straight.run_cycle(1_005_000, 1_015_000, false, false).unwrap();
    assert_eq!(vec![(1_010_000, 62)], notes(&on_time.events));
    assert_eq!(vec![(1_025_000, 62)], notes(&late.events));
}

#[test]
fn pause_before_playback_starts() {
    let mut driver = driver_of(vec![scale()]);
    let out = driver.run_cycle(1_000_000, 1_005_000, false, true).unwrap();
    assert!(out.events.is_empty());
    assert_eq!(None, driver.start_usecs());
    let out = driver.run_cycle(1_005_000, 1_010_000, false, false).unwrap();
    assert_eq!(vec![(1_005_000, 60)], notes(&out.events));
}

#[test]
fn pause_start_stops_at_the_largest_time() {
    let mut driver = driver_of(vec![scale()]);
    let _ = driver.run_cycle(u64::MAX - 10, u64::MAX - 5, false, false).unwrap();
    let _ = driver.run_cycle(u64::MAX - 5, u64::MAX, false, true).unwrap();
    assert_eq!(Some(u64::MAX - 5), driver.start_usecs());
    let _ = driver.run_cycle(10, 30, false, true).unwrap();
    assert_eq!(Some(u64::MAX), driver.start_usecs());
    // a cycle that ends before it begins has no length
    let mut back = driver_of(vec![scale()]);
    let _ = back.run_cycle(100, 200, false, false).unwrap();
    let _ = back.run_cycle(200, 150, false, true).unwrap();
    assert_eq!(Some(100), back.start_usecs());
}

#[test]
fn restart_plays_from_the_start() {
    let mut driver = driver_of(vec![scale()]);
    let out = driver.run_cycle(0, 25_000, false, false).unwrap();
    assert_eq!(vec![(0, 60), (10_000, 62), (20_000, 64)], notes(&out.events));
    let out = driver.run_cycle(25_000, 30_000, true, false).unwrap();
    assert!(out.restarted);
    assert_eq!(vec![(25_000, 60)], notes(&out.events));
    assert_eq!(Some(25_000), driver.start_usecs());
    // a restart while paused waits for the pause to end
    let out = driver.run_cycle(30_000, 35_000, true, true).unwrap();
    assert!(out.restarted);
    assert!(out.events.is_empty());
    assert_eq!(None, driver.start_usecs());
    let out = driver.run_cycle(35_000, 40_000, false, false).unwrap();
    assert_eq!(vec![(35_000, 60)], notes(&out.events));
}

#[test]
fn window_before_the_start_is_empty() {
    let mut driver = driver_of(vec![vec![wait_ms(1), send(60), TrackEvent::End]]);
    let _ = driver.run_cycle(1_000, 2_000, false, false).unwrap();
    assert_eq!(Some(1_000), driver.start_usecs());
    // the host's clock jumps back before the start of playback
    let out = driver.run_cycle(100, 200, false, false).unwrap();
    assert!(out.events.is_empty());
}

#[test]
fn host_time_at_the_top_of_the_clock() {
    let mut driver = driver_of(vec![vec![wait_ms(1), send(60), TrackEvent::End]]);
    // a window of 999 microseconds: the note after one millisecond is not yet due
    let out = driver.run_cycle(u64::MAX - 999, u64::MAX, false, false).unwrap();
    assert!(out.events.is_empty());
    let mut wide = driver_of(vec![vec![wait_ms(1), send(60), TrackEvent::End]]);
    let out = wide.run_cycle(u64::MAX - 1000, u64::MAX, false, false).unwrap();
    assert_eq!(vec![(u64::MAX, 60)], notes(&out.events));
}

#[test]
fn tracks_are_written_track_by_track() {
    let second = vec![send(72), wait_ms(5), send(74), TrackEvent::End];
    let mut driver = driver_of(vec![scale(), second]);
    let out = driver.run_cycle(0, 10_000, false, false).unwrap();
    let expected: Vec<(u64, (usize, OutputPort), MidiMessage)> = vec![
        (0, (0, OutputPort { idx: 0 }), note_on(60)),
        (10_000, (0, OutputPort { idx: 0 }), note_on(62)),
        (0, (1, OutputPort { idx: 0 }), note_on(72)),
        (5_000, (1, OutputPort { idx: 0 }), note_on(74)),
    ];
    assert_eq!(expected, out.events);
}

#[test]
fn a_broken_track_fails_the_cycle() {
    let mut driver = driver_of(vec![vec![send(60), TrackEvent::Jump { target: 7, count: Some(NonZeroU16::one()) }]]);
    assert_eq!(
        Err(StepError::BadJumpTarget { target: 7 }),
        driver.run_cycle(0, 10, false, false).map(|out| out.events)
    );
}

#[test]
fn control_commands() {
    assert_eq!(Command::TogglePause, parse_command("p"));
    assert_eq!(Command::TogglePause, parse_command("  Pause\n"));
    assert_eq!(Command::Restart, parse_command("r\n"));
    assert_eq!(Command::Restart, parse_command("\u{a0}\u{3000}\tRESTART"));
    assert_eq!(Command::Empty, parse_command(""));
    assert_eq!(Command::Empty, parse_command(" \r\n"));
    assert_eq!(Command::Unknown, parse_command("stop"));
    assert_eq!(Command::Unknown, parse_command("\u{200b}p"));
    for c in (0u32..0x4000).filter_map(char::from_u32) {
        assert_eq!(c.is_whitespace(), midiseq::control::is_whitespace(c), "{:?}", c);
    }
}

#[test]
fn messages_one_at_a_time() {
    let second = vec![send(72), wait_ms(5), send(74), TrackEvent::End];
    let mut whole = driver_of(vec![scale(), second.clone()]);
    let mut stepwise = driver_of(vec![scale(), second]);
    for (cur, next, restart, paused) in
        [(0u64, 10_000u64, false, false), (10_000, 20_000, false, true), (20_000, 50_000, false, false), (50_000, 60_000, true, false)]
    {
        let expected = whole.run_cycle(cur, next, restart, paused).unwrap();
        let begun = stepwise.begin_cycle(cur, next, restart, paused);
        assert_eq!(expected.restarted, begun.restarted);
        assert_eq!(paused, begun.window.is_none());
        let mut got = Vec::new();
        if let Some(window) = begun.window {
            let mut from = 0;
            while let Some((idx, message)) = stepwise.next_message(from, window).unwrap() {
                assert!(from <= idx);
                assert_eq!(idx, (message.1).0);
                got.push(message);
                from = idx;
            }
        }
        assert_eq!(expected.events, got);
        assert_eq!(whole.start_usecs(), stepwise.start_usecs());
    }
}

#[test]
fn cycle_windows() {
    let mut driver = driver_of(vec![scale()]);
    let begun = driver.begin_cycle(1_000, 3_500, false, false);
    let window = begun.window.unwrap();
    assert_eq!(1_000, window.start_usecs);
    assert_eq!(2_500_000, window.end.as_nanos());
    let begun = driver.begin_cycle(3_500, 4_000, false, false);
    assert_eq!(3_000_000, begun.window.unwrap().end.as_nanos());
    // the host's clock is behind the start of playback
    let begun = driver.begin_cycle(0, 999, false, false);
    assert_eq!(0, begun.window.unwrap().end.as_nanos());
}

#[test]
fn decimal_digits() {
    for n in [0usize, 1, 9, 10, 11, 99, 100, 101, 1234567890, usize::MAX - 1, usize::MAX] {
        assert_eq!(format!("{}", n), decimal(n));
    }
}

#[test]
fn port_names() {
    let aux = Some(OutputLabel::from("aux".to_owned()));
    assert_eq!(":1", port_name(3, &None, false));
    assert_eq!("track_3:1", port_name(3, &None, true));
    assert_eq!("aux", port_name(3, &aux, false));
    assert_eq!("track_3:aux", port_name(3, &aux, true));
    assert_eq!("track_0:aux", port_name(0, &aux, true));
    assert_eq!("track_120:1", port_name(120, &None, true));
}
