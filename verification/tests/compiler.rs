use midiseq::midi::MidiChannel;
use midiseq::midi::MidiMessage;
use midiseq::midi::MidiNote;
use midiseq::midi::NoteOff;
use midiseq::midi::NoteOn;
use midiseq::midi::PressVelocity;
use midiseq::model::NoteClass;
use midiseq::model::Octave;
use midiseq::songlang::ast::is_same_output;
use midiseq::songlang::compile_song;
use midiseq::songlang::AsmCommand;
use midiseq::songlang::ChordKind;
use midiseq::songlang::ChordPress;
use midiseq::songlang::Compiler;
use midiseq::songlang::CompilerError;
use midiseq::songlang::LangItem;
use midiseq::songlang::OutputLabel;
use midiseq::songlang::PressLine;
use midiseq::songlang::PressModifier;
use midiseq::songlang::SongAttribute;
use midiseq::songlang::SongAttributes;
use midiseq::track::cursor::TrackCursor;
use midiseq::track::multicursor::VecMultiCursor;
use midiseq::track::BpmInfo;
use midiseq::track::ClockTime;
use midiseq::track::OutputPort;
use midiseq::track::TrackEvent;
use midiseq::track::WaitTime;
use midiseq::utils::NonZeroU16;

const TICK_NANOS: u64 = 15_625_000;

fn nz(raw: u16) -> NonZeroU16 {
    NonZeroU16::new(raw).unwrap()
}

fn chan(raw: u8) -> MidiChannel {
    MidiChannel::from_raw(raw).unwrap()
}

fn vel(raw: u8) -> PressVelocity {
    PressVelocity::from_raw(raw).unwrap()
}

fn label(name: &str) -> OutputLabel {
    OutputLabel::from(name.to_owned())
}

fn note_on_with(channel: u8, raw: u8, velocity: u8) -> MidiMessage {
    MidiMessage::NoteOn(NoteOn::new(chan(channel), MidiNote::from_raw(raw).unwrap(), vel(velocity)))
}

fn note_on(raw: u8) -> MidiMessage {
    note_on_with(0, raw, 90)
}

fn send(raw: u8, port: u128) -> TrackEvent {
    TrackEvent::SendMessage { message: note_on(raw), port: OutputPort { idx: port } }
}

fn tick() -> TrackEvent {
    TrackEvent::Wait(WaitTime::Ticks(nz(1)))
}

fn chord(root: NoteClass, octave: i8, kind: ChordKind) -> ChordPress {
    ChordPress { root, octave: Octave::clamp(octave), kind, modifiers: Vec::new() }
}

fn play(presses: Vec<ChordPress>) -> LangItem {
    LangItem::NotePress(PressLine { presses, modifiers: Vec::new() })
}

fn play_one(root: NoteClass, octave: i8, kind: ChordKind) -> LangItem {
    play(vec![chord(root, octave, kind)])
}

fn asm_label(name: &str) -> LangItem {
    LangItem::Asm(AsmCommand::Label(name.to_owned()))
}

fn asm_jump(name: &str, count: Option<u16>) -> LangItem {
    LangItem::Asm(AsmCommand::Jump { label: name.to_owned(), count: count.map(nz) })
}

fn pitches(track: &[TrackEvent]) -> Vec<u8> {
    track
        .iter()
        .filter_map(|evt| match evt {
            TrackEvent::SendMessage { message: MidiMessage::NoteOn(on), .. } => Some(on.note().as_u8()),
            _ => None,
        })
        .collect()
}

fn count_note_ons(sent: &[(ClockTime, OutputPort, MidiMessage)], raw: u8) -> usize {
    sent.iter().filter(|(_, _, msg)| *msg == note_on(raw)).count()
}

#[test]
fn single_note() {
    let (track, ports) = compile_song(vec![play_one(NoteClass::C, 4, ChordKind::Raw)]).unwrap();
    assert_eq!(vec![send(60, 0), tick(), TrackEvent::End], track);
    assert_eq!(vec![None], ports);
    let mut cursor = TrackCursor::new(track);
    let sent = cursor.step_until(ClockTime::from_nanos(TICK_NANOS)).unwrap();
    assert_eq!(vec![(ClockTime::zero(), OutputPort { idx: 0 }, note_on(60))], sent);
}

#[test]
fn major_triad() {
    let (track, _) = compile_song(vec![play_one(NoteClass::C, 4, ChordKind::Major)]).unwrap();
    assert_eq!(vec![send(60, 0), send(64, 0), send(67, 0), tick(), TrackEvent::End], track);
    let mut cursor = TrackCursor::new(track);
    let sent = cursor.step_until(ClockTime::from_nanos(TICK_NANOS)).unwrap();
    assert_eq!(3, sent.len());
    for (time, port, _) in sent {
        assert_eq!(ClockTime::zero(), time);
        assert_eq!(OutputPort { idx: 0 }, port);
    }
}

#[test]
fn e_major_needs_no_raising() {
    let (track, _) = compile_song(vec![play_one(NoteClass::E, 4, ChordKind::Major)]).unwrap();
    assert_eq!(vec![64, 68, 71], pitches(&track));
}

#[test]
fn chord_kinds() {
    let cases = [
        (ChordKind::Raw, vec![60]),
        (ChordKind::Fifth, vec![60, 67]),
        (ChordKind::Major, vec![60, 64, 67]),
        (ChordKind::Minor, vec![60, 63, 67]),
        (ChordKind::Major7, vec![60, 64, 67, 72]),
        (ChordKind::Minor7, vec![60, 63, 67, 72]),
    ];
    for (kind, expected) in cases {
        let (track, _) = compile_song(vec![play_one(NoteClass::C, 4, kind)]).unwrap();
        assert_eq!(expected, pitches(&track));
    }
}

#[test]
fn chord_notes_are_raised_past_the_octave() {
    // B major: B, D sharp, F sharp; the upper two lie below B within the octave
    let (track, _) = compile_song(vec![play_one(NoteClass::B, 3, ChordKind::Major7)]).unwrap();
    assert_eq!(vec![59, 63, 66, 71], pitches(&track));
    let (track, _) = compile_song(vec![play_one(NoteClass::A, 4, ChordKind::Minor)]).unwrap();
    assert_eq!(vec![69, 72, 76], pitches(&track));
}

#[test]
fn chords_rise_within_the_midi_range() {
    let kinds = [
        (ChordKind::Raw, 0),
        (ChordKind::Fifth, 7),
        (ChordKind::Major, 7),
        (ChordKind::Minor, 7),
        (ChordKind::Major7, 12),
        (ChordKind::Minor7, 12),
    ];
    for octave in -1i8..=9 {
        for root in NoteClass::all() {
            for (kind, top) in kinds {
                let base = (octave as i32 + 1) * 12 + root.as_u8() as i32;
                let (track, _) = compile_song(vec![play_one(root, octave, kind)]).unwrap();
                let notes = pitches(&track);
                assert_eq!(
                    MidiNote::from_note_octave(root, Octave::clamp(octave)).as_u8(),
                    notes[0]
                );
                if base + top <= 127 {
                    assert_eq!(base as u8, notes[0]);
                    assert_eq!((base + top) as u8, *notes.last().unwrap());
                    for pair in notes.windows(2) {
                        assert!(pair[0] <= pair[1]);
                    }
                }
            }
        }
    }
}

#[test]
fn chord_wraps_at_the_top_of_the_range() {
    // G9 is note 127: its fifth would be 134 and wraps round to 6
    let (track, _) = compile_song(vec![play_one(NoteClass::G, 9, ChordKind::Fifth)]).unwrap();
    assert_eq!(vec![127, 6], pitches(&track));
}

#[test]
fn fixed_loop_count() {
    let song = vec![LangItem::Loop {
        expr: vec![play_one(NoteClass::C, 4, ChordKind::Raw)],
        repititions: Some(nz(3)),
    }];
    let (track, _) = compile_song(song).unwrap();
    assert_eq!(
        vec![send(60, 0), tick(), TrackEvent::Jump { target: 0, count: Some(nz(2)) }, TrackEvent::End],
        track
    );
    let mut cursor = TrackCursor::new(track);
    let sent = cursor.step_until(ClockTime::from_nanos(11 * TICK_NANOS)).unwrap();
    assert_eq!(3, sent.len());
    assert_eq!(3, count_note_ons(&sent, 60));
}

#[test]
fn loop_counts() {
    for passes in [2u16, 3, 4, 17, 1000] {
        let song = vec![LangItem::Loop {
            expr: vec![play_one(NoteClass::C, 4, ChordKind::Raw)],
            repititions: Some(nz(passes)),
        }];
        let (track, _) = compile_song(song).unwrap();
        let mut cursor = TrackCursor::new(track);
        let sent = cursor.step_until(ClockTime { nanos: u128::MAX }).unwrap();
        assert_eq!(passes as usize, count_note_ons(&sent, 60));
    }
}

#[test]
fn loop_of_one_pass_plays_twice() {
    let song = vec![LangItem::Loop {
        expr: vec![play_one(NoteClass::C, 4, ChordKind::Raw)],
        repititions: Some(nz(1)),
    }];
    let (track, _) = compile_song(song).unwrap();
    assert_eq!(TrackEvent::Jump { target: 0, count: Some(nz(1)) }, track[2]);
    let mut cursor = TrackCursor::new(track);
    assert_eq!(2, cursor.step_until(ClockTime { nanos: u128::MAX }).unwrap().len());
}

#[test]
fn loop_without_end() {
    let song = vec![
        play_one(NoteClass::D, 4, ChordKind::Raw),
        LangItem::Loop { expr: vec![play_one(NoteClass::C, 4, ChordKind::Raw)], repititions: None },
    ];
    let (track, _) = compile_song(song).unwrap();
    assert_eq!(
        vec![
            send(62, 0),
            tick(),
            send(60, 0),
            tick(),
            TrackEvent::Jump { target: 2, count: None },
            TrackEvent::End
        ],
        track
    );
    let mut cursor = TrackCursor::new(track);
    let sent = cursor.step_until(ClockTime::from_nanos(100 * TICK_NANOS)).unwrap();
    assert_eq!(1, count_note_ons(&sent, 62));
    assert_eq!(100, count_note_ons(&sent, 60));
}

#[test]
fn nested_loops() {
    let inner = LangItem::Loop {
        expr: vec![play_one(NoteClass::C, 4, ChordKind::Raw)],
        repititions: Some(nz(2)),
    };
    let outer = LangItem::Loop {
        expr: vec![play_one(NoteClass::D, 4, ChordKind::Raw), inner],
        repititions: Some(nz(3)),
    };
    let (track, _) = compile_song(vec![outer]).unwrap();
    assert_eq!(
        vec![
            send(62, 0),
            tick(),
            send(60, 0),
            tick(),
            TrackEvent::Jump { target: 2, count: Some(nz(1)) },
            TrackEvent::Jump { target: 0, count: Some(nz(2)) },
            TrackEvent::End
        ],
        track
    );
    let mut cursor = TrackCursor::new(track);
    let sent = cursor.step_until(ClockTime { nanos: u128::MAX }).unwrap();
    assert_eq!(3, count_note_ons(&sent, 62));
    assert_eq!(6, count_note_ons(&sent, 60));
}

#[test]
fn restart() {
    let song = vec![LangItem::Loop {
        expr: vec![play_one(NoteClass::C, 4, ChordKind::Raw)],
        repititions: Some(nz(3)),
    }];
    let (track, _) = compile_song(song).unwrap();
    let mut cursor = TrackCursor::new(track);
    // one tick less a nanosecond: the second note-on is not yet due
    let first = cursor.step_until(ClockTime::from_nanos(TICK_NANOS - 1)).unwrap();
    assert_eq!(1, count_note_ons(&first, 60));
    cursor.reset();
    let second = cursor.step_until(ClockTime::from_nanos(11 * TICK_NANOS)).unwrap();
    assert_eq!(3, count_note_ons(&second, 60));
    assert_eq!(4, first.len() + second.len());
}

#[test]
fn multi_track() {
    let (t0, _) = compile_song(vec![play_one(NoteClass::C, 4, ChordKind::Raw)]).unwrap();
    let (t1, _) = compile_song(vec![play_one(NoteClass::E, 4, ChordKind::Raw)]).unwrap();
    let mut multi = VecMultiCursor::new(vec![TrackCursor::new(t0), TrackCursor::new(t1)]);
    let sent = multi.step_until(ClockTime::from_nanos(TICK_NANOS)).unwrap();
    assert_eq!(
        vec![
            (ClockTime::zero(), (0, OutputPort { idx: 0 }), note_on(60)),
            (ClockTime::zero(), (1, OutputPort { idx: 0 }), note_on(64)),
        ],
        sent
    );
}

#[test]
fn track_ends_with_one_end() {
    let songs = vec![
        Vec::new(),
        vec![play_one(NoteClass::C, 4, ChordKind::Major7)],
        vec![asm_label("a"), asm_jump("a", Some(2)), asm_jump("b", None), asm_label("b")],
        vec![LangItem::Loop { expr: Vec::new(), repititions: None }],
    ];
    for song in songs {
        let (track, _) = compile_song(song).unwrap();
        assert_eq!(Some(&TrackEvent::End), track.last());
        assert_eq!(1, track.iter().filter(|evt| **evt == TrackEvent::End).count());
        for evt in &track {
            if let TrackEvent::Jump { target, .. } = evt {
                assert!(*target < track.len());
            }
        }
    }
}

#[test]
fn empty_song() {
    assert_eq!(Ok((vec![TrackEvent::End], Vec::new())), compile_song(Vec::new()));
}

#[test]
fn waits_and_timing_pass_through() {
    let fast = BpmInfo { beats_per_minute: nz(240), ticks_per_beat: nz(4) };
    let song = vec![
        LangItem::Wait(WaitTime::Beats(nz(2))),
        LangItem::Asm(AsmCommand::Wait(WaitTime::Clock(ClockTime::from_millis(3)))),
        LangItem::Asm(AsmCommand::SetBpm(fast)),
    ];
    assert_eq!(
        Ok((
            vec![
                TrackEvent::Wait(WaitTime::Beats(nz(2))),
                TrackEvent::Wait(WaitTime::Clock(ClockTime::from_millis(3))),
                TrackEvent::SetBpm(fast),
                TrackEvent::End
            ],
            Vec::new()
        )),
        compile_song(song)
    );
}

#[test]
fn ports_are_numbered_by_first_use() {
    let off = MidiMessage::NoteOff(NoteOff::new(chan(1), MidiNote::from_raw(5).unwrap(), vel(0)));
    let send_to = |port: Option<&str>| {
        LangItem::Asm(AsmCommand::Send { message: off, port: port.map(label) })
    };
    let song = vec![send_to(Some("b")), send_to(None), send_to(Some("a")), send_to(Some("b")), send_to(None)];
    let (track, ports) = compile_song(song).unwrap();
    let sent = |port: u128| TrackEvent::SendMessage { message: off, port: OutputPort { idx: port } };
    assert_eq!(vec![sent(0), sent(1), sent(2), sent(0), sent(1), TrackEvent::End], track);
    assert_eq!(vec![Some(label("b")), None, Some(label("a"))], ports);
    assert!(is_same_output(&ports[0], &Some(label("b"))));
    assert!(!is_same_output(&ports[0], &ports[1]));
    assert_eq!("b", ports[0].as_ref().unwrap().as_str());
}

#[test]
fn modifiers_take_precedence() {
    let own = ChordPress {
        root: NoteClass::C,
        octave: Octave::clamp(4),
        kind: ChordKind::Raw,
        modifiers: vec![
            PressModifier::Duration(WaitTime::Beats(nz(1))),
            PressModifier::Velocity(vel(10)),
            PressModifier::Channel(chan(1)),
            PressModifier::Port(label("own")),
            PressModifier::Velocity(vel(11)),
        ],
    };
    let plain = chord(NoteClass::D, 4, ChordKind::Raw);
    let line = PressLine {
        presses: vec![own, plain],
        modifiers: vec![
            PressModifier::Channel(chan(2)),
            PressModifier::Port(label("line")),
            PressModifier::Velocity(vel(20)),
        ],
    };
    let bare = PressLine { presses: vec![chord(NoteClass::E, 4, ChordKind::Raw)], modifiers: Vec::new() };
    let song = vec![
        LangItem::SetAttribute(SongAttribute::DefaultChannel(chan(3))),
        LangItem::SetAttribute(SongAttribute::DefaultPressVelocity(vel(30))),
        LangItem::SetAttribute(SongAttribute::DefaultPort(label("song"))),
        LangItem::SetAttribute(SongAttribute::DefaultDuration(WaitTime::Ticks(nz(4)))),
        LangItem::NotePress(line),
        LangItem::NotePress(bare),
    ];
    let (track, ports) = compile_song(song).unwrap();
    let sent = |channel: u8, raw: u8, velocity: u8, port: u128| TrackEvent::SendMessage {
        message: note_on_with(channel, raw, velocity),
        port: OutputPort { idx: port },
    };
    assert_eq!(
        vec![sent(1, 60, 10, 0), sent(2, 62, 20, 1), tick(), sent(3, 64, 30, 2), tick(), TrackEvent::End],
        track
    );
    assert_eq!(vec![Some(label("own")), Some(label("line")), Some(label("song"))], ports);
}

#[test]
fn press_accessors() {
    let mods = vec![
        PressModifier::Velocity(vel(10)),
        PressModifier::Port(label("x")),
        PressModifier::Channel(chan(1)),
        PressModifier::Duration(WaitTime::Beats(nz(1))),
        PressModifier::Port(label("y")),
        PressModifier::Channel(chan(2)),
    ];
    let press = ChordPress {
        root: NoteClass::C,
        octave: Octave::clamp(4),
        kind: ChordKind::Raw,
        modifiers: mods.clone(),
    };
    assert_eq!(Some(&label("x")), press.port());
    assert_eq!(Some(chan(1)), press.channel());
    assert_eq!(Some(vel(10)), press.velocity());
    assert_eq!(Some(WaitTime::Beats(nz(1))), press.duration());
    let line = PressLine { presses: Vec::new(), modifiers: mods };
    assert_eq!(Some(&label("x")), line.port());
    assert_eq!(Some(chan(1)), line.channel());
    assert_eq!(Some(vel(10)), line.velocity());
    assert_eq!(Some(WaitTime::Beats(nz(1))), line.duration());
    let none = PressLine { presses: Vec::new(), modifiers: Vec::new() };
    assert_eq!(None, none.port());
    assert_eq!(None, none.channel());
    assert_eq!(None, none.velocity());
    assert_eq!(None, none.duration());
}

#[test]
fn labels_and_jumps() {
    let song = vec![
        asm_jump("end", None),
        asm_label("top"),
        play_one(NoteClass::C, 4, ChordKind::Raw),
        asm_jump("top", Some(4)),
        asm_label("end"),
    ];
    let (track, _) = compile_song(song).unwrap();
    assert_eq!(
        vec![
            TrackEvent::Jump { target: 4, count: None },
            send(60, 0),
            tick(),
            TrackEvent::Jump { target: 1, count: Some(nz(4)) },
            TrackEvent::End
        ],
        track
    );
}

#[test]
fn label_not_found() {
    let song = vec![asm_label("a"), asm_jump("b", None), asm_jump("c", None)];
    assert_eq!(Err(CompilerError::LabelNotFound("b".to_owned())), compile_song(song));
}

#[test]
fn duplicate_label() {
    let song = vec![
        play_one(NoteClass::C, 4, ChordKind::Raw),
        asm_label("a"),
        play_one(NoteClass::C, 4, ChordKind::Raw),
        asm_label("a"),
    ];
    assert_eq!(
        Err(CompilerError::DuplicateLabel {
            label: "a".to_owned(),
            first_location: 2,
            second_location: 4
        }),
        compile_song(song)
    );
}

#[test]
fn signature_opens_the_track() {
    let fast = BpmInfo { beats_per_minute: nz(240), ticks_per_beat: nz(4) };
    let song = vec![
        LangItem::SetAttribute(SongAttribute::DefaultChannel(chan(5))),
        LangItem::SetAttribute(SongAttribute::Signature(fast)),
        LangItem::SetAttribute(SongAttribute::DefaultPressVelocity(vel(1))),
        play_one(NoteClass::C, 4, ChordKind::Raw),
    ];
    let (track, _) = compile_song(song).unwrap();
    assert_eq!(
        vec![
            TrackEvent::SetBpm(fast),
            TrackEvent::SendMessage { message: note_on_with(5, 60, 1), port: OutputPort { idx: 0 } },
            tick(),
            TrackEvent::End
        ],
        track
    );
}

#[test]
fn duplicate_attributes() {
    let cases = vec![
        (SongAttribute::DefaultChannel(chan(1)), SongAttribute::DefaultChannel(chan(2))),
        (SongAttribute::DefaultPressVelocity(vel(1)), SongAttribute::DefaultPressVelocity(vel(1))),
        (SongAttribute::DefaultPort(label("a")), SongAttribute::DefaultPort(label("b"))),
        (
            SongAttribute::DefaultDuration(WaitTime::Ticks(nz(1))),
            SongAttribute::DefaultDuration(WaitTime::Beats(nz(1))),
        ),
        (
            SongAttribute::Signature(BpmInfo::default()),
            SongAttribute::Signature(BpmInfo { beats_per_minute: nz(1), ticks_per_beat: nz(1) }),
        ),
        (SongAttribute::Signature(BpmInfo::default()), SongAttribute::Signature(BpmInfo::default())),
    ];
    for (first, second) in cases {
        let song = vec![LangItem::SetAttribute(first.clone()), LangItem::SetAttribute(second.clone())];
        assert_eq!(Err(CompilerError::DuplicateAttributes(first, second)), compile_song(song));
    }
}

#[test]
fn attribute_outside_header() {
    let attr = SongAttribute::DefaultChannel(chan(1));
    let after_note = vec![play_one(NoteClass::C, 4, ChordKind::Raw), LangItem::SetAttribute(attr.clone())];
    assert_eq!(Err(CompilerError::AttributeOutsideHeader(attr.clone())), compile_song(after_note));
    let after_signature_and_note = vec![
        LangItem::SetAttribute(SongAttribute::Signature(BpmInfo::default())),
        play_one(NoteClass::C, 4, ChordKind::Raw),
        LangItem::SetAttribute(attr.clone()),
    ];
    assert_eq!(
        Err(CompilerError::AttributeOutsideHeader(attr.clone())),
        compile_song(after_signature_and_note)
    );
    let after_timing = vec![
        LangItem::Asm(AsmCommand::SetBpm(BpmInfo::default())),
        LangItem::SetAttribute(attr.clone()),
    ];
    assert_eq!(Err(CompilerError::AttributeOutsideHeader(attr.clone())), compile_song(after_timing));
    let in_loop = vec![LangItem::Loop {
        expr: vec![LangItem::Wait(WaitTime::Ticks(nz(1))), LangItem::SetAttribute(attr.clone())],
        repititions: None,
    }];
    assert_eq!(Err(CompilerError::AttributeOutsideHeader(attr)), compile_song(in_loop));
}

#[test]
fn song_attributes_defaults() {
    let unset = SongAttributes::new();
    assert_eq!(unset, SongAttributes::default());
    assert_eq!(WaitTime::Ticks(nz(1)), unset.default_duration());
    assert_eq!(vel(90), unset.default_velocity());
    assert_eq!(chan(0), unset.default_channel());
    assert_eq!(None, unset.default_port());
    assert_eq!(BpmInfo::default(), unset.default_bpm());
    let mut set = SongAttributes::new();
    let fast = BpmInfo { beats_per_minute: nz(240), ticks_per_beat: nz(4) };
    assert_eq!(Ok(()), set.push_attribute(SongAttribute::DefaultDuration(WaitTime::Beats(nz(2)))));
    assert_eq!(Ok(()), set.push_attribute(SongAttribute::DefaultPressVelocity(vel(5))));
    assert_eq!(Ok(()), set.push_attribute(SongAttribute::DefaultChannel(chan(6))));
    assert_eq!(Ok(()), set.push_attribute(SongAttribute::DefaultPort(label("p"))));
    assert_eq!(Ok(()), set.push_attribute(SongAttribute::Signature(fast)));
    assert_eq!(WaitTime::Beats(nz(2)), set.default_duration());
    assert_eq!(vel(5), set.default_velocity());
    assert_eq!(chan(6), set.default_channel());
    assert_eq!(Some(label("p")), set.default_port());
    assert_eq!(fast, set.default_bpm());
    let before = set.clone();
    assert_eq!(
        Err(CompilerError::DuplicateAttributes(
            SongAttribute::DefaultPort(label("p")),
            SongAttribute::DefaultPort(label("q"))
        )),
        set.push_attribute(SongAttribute::DefaultPort(label("q")))
    );
    assert_eq!(before, set);
}

#[test]
fn compiler_item_by_item() {
    let mut compiler = Compiler::new();
    assert_eq!(Ok(()), compiler.compile_item(asm_jump("later", Some(2))));
    assert_eq!(vec![(0, "later".to_owned())], compiler.jump_fix_backlog);
    assert_eq!(vec![TrackEvent::Jump { target: usize::MAX, count: Some(nz(2)) }], compiler.track);
    assert_eq!(Ok(()), compiler.compile_item(asm_label("later")));
    assert_eq!(vec![("later".to_owned(), 1)], compiler.labels);
    assert_eq!(Some(1), compiler.find_label(&"later".to_owned()));
    assert_eq!(None, compiler.find_label(&"never".to_owned()));
    assert_eq!(OutputPort { idx: 0 }, compiler.port_label_to_idx(Some(label("a"))));
    assert_eq!(OutputPort { idx: 1 }, compiler.port_label_to_idx(None));
    assert_eq!(OutputPort { idx: 0 }, compiler.port_label_to_idx(Some(label("a"))));
    assert_eq!(Ok(()), compiler.resolve_jumps());
    assert_eq!(vec![TrackEvent::Jump { target: 1, count: Some(nz(2)) }], compiler.track);
    assert!(compiler.jump_fix_backlog.is_empty());
    assert_eq!(Ok(()), compiler.encounter_jump(None, "gone".to_owned()));
    assert_eq!(Err(CompilerError::LabelNotFound("gone".to_owned())), compiler.resolve_jumps());
    assert!(compiler.jump_fix_backlog.is_empty());
}

#[test]
fn inserted_events_shift_jumps() {
    let mut compiler = Compiler::new();
    compiler.track = vec![
        TrackEvent::Jump { target: 0, count: None },
        TrackEvent::Jump { target: 1, count: Some(nz(2)) },
        tick(),
        TrackEvent::Jump { target: 3, count: None },
        TrackEvent::Jump { target: usize::MAX, count: None },
    ];
    compiler.insert_event(1, TrackEvent::Jump { target: 1, count: None });
    assert_eq!(
        vec![
            TrackEvent::Jump { target: 0, count: None },
            TrackEvent::Jump { target: 2, count: None },
            TrackEvent::Jump { target: 2, count: Some(nz(2)) },
            tick(),
            TrackEvent::Jump { target: 4, count: None },
            TrackEvent::Jump { target: 0, count: None },
        ],
        compiler.track
    );
    compiler.insert_event(6, TrackEvent::End);
    assert_eq!(7, compiler.track.len());
    assert_eq!(TrackEvent::End, compiler.track[6]);
    assert_eq!(TrackEvent::Jump { target: 4, count: None }, compiler.track[4]);
}

#[test]
fn items_can_be_cloned() {
    let item = LangItem::Loop {
        expr: vec![play_one(NoteClass::C, 4, ChordKind::Major), asm_label("a"), LangItem::Loop { expr: Vec::new(), repititions: None }],
        repititions: Some(nz(2)),
    };
    assert_eq!(item, item.clone());
}

#[test]
fn every_chord_of_a_song_rises_from_its_root() {
    let chords = vec![
        (NoteClass::C, 4, ChordKind::Major),
        (NoteClass::B, 3, ChordKind::Minor7),
        (NoteClass::Fs, 7, ChordKind::Fifth),
        (NoteClass::A, -1, ChordKind::Raw),
        (NoteClass::G, 8, ChordKind::Major7),
    ];
    let line = |range: std::ops::Range<usize>| {
        play(chords[range].iter().map(|&(root, octave, kind)| chord(root, octave, kind)).collect())
    };
    let song = vec![
        line(0..2),
        LangItem::Wait(WaitTime::Beats(nz(1))),
        LangItem::Loop {
            expr: vec![asm_label("a"), line(2..4), LangItem::Loop { expr: vec![line(4..5)], repititions: None }],
            repititions: Some(nz(2)),
        },
        asm_jump("a", None),
    ];
    let (track, _) = compile_song(song).unwrap();
    // the runs of note-ons, cut where one chord ends and the next begins
    let sizes = [3usize, 4, 2, 1, 4];
    let notes = pitches(&track);
    assert_eq!(sizes.iter().sum::<usize>(), notes.len());
    let mut at = 0;
    for (&(root, octave, _), &size) in chords.iter().zip(sizes.iter()) {
        let run = &notes[at..at + size];
        assert_eq!(MidiNote::from_note_octave(root, Octave::clamp(octave)).as_u8(), run[0]);
        for pair in run.windows(2) {
            assert!(pair[0] <= pair[1]);
        }
        at += size;
    }
    assert_eq!(vec![60, 64, 67, 59, 62, 66, 71, 102, 109, 9, 115, 119, 122, 127], notes);
}
