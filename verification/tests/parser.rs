use midiseq::midi::MidiChannel;
use midiseq::midi::MidiMessage;
use midiseq::midi::MidiNote;
use midiseq::midi::NoteOff;
use midiseq::midi::NoteOn;
use midiseq::midi::PressVelocity;
use midiseq::model::NoteClass;
use midiseq::model::Octave;
use midiseq::songlang::compile_song;
use midiseq::songlang::parse_song;
use midiseq::songlang::parser::commands::blank1;
use midiseq::songlang::parser::parse_asm_command;
use midiseq::songlang::parser::parse_channel;
use midiseq::songlang::parser::parse_chordkind;
use midiseq::songlang::parser::parse_expr;
use midiseq::songlang::parser::parse_file;
use midiseq::songlang::parser::parse_fullchord;
use midiseq::songlang::parser::parse_loop;
use midiseq::songlang::parser::parse_midimsg;
use midiseq::songlang::parser::parse_noteclass;
use midiseq::songlang::parser::parse_notepitch;
use midiseq::songlang::parser::parse_octave;
use midiseq::songlang::parser::parse_outputlabel;
use midiseq::songlang::parser::parse_pressline;
use midiseq::songlang::parser::parse_rawduration;
use midiseq::songlang::parser::parse_rawlabel;
use midiseq::songlang::parser::parse_velocity;
use midiseq::songlang::parser::playcmd::parse_chordpress;
use midiseq::songlang::parser::playcmd::parse_press_modifiers;
use midiseq::songlang::parser::CharClass;
use midiseq::songlang::parser::Parsed;
use midiseq::songlang::parser::SongParseError;
use midiseq::songlang::parser::Source;
use midiseq::songlang::AsmCommand;
use midiseq::songlang::ChordKind;
use midiseq::songlang::ChordPress;
use midiseq::songlang::LangItem;
use midiseq::songlang::OutputLabel;
use midiseq::songlang::PressLine;
use midiseq::songlang::PressModifier;
use midiseq::track::BpmInfo;
use midiseq::track::ClockTime;
use midiseq::track::OutputPort;
use midiseq::track::TrackEvent;
use midiseq::track::WaitTime;
use midiseq::utils::NonZeroU16;

fn nz(raw: u16) -> NonZeroU16 {
    NonZeroU16::new(raw).unwrap()
}

fn chan(raw: u8) -> MidiChannel {
    MidiChannel::from_raw(raw).unwrap()
}

fn vel(raw: u8) -> PressVelocity {
    PressVelocity::from_raw(raw).unwrap()
}

fn note(raw: u8) -> MidiNote {
    MidiNote::from_raw(raw).unwrap()
}

fn label(name: &str) -> OutputLabel {
    OutputLabel::from(name.to_owned())
}

fn chord(root: NoteClass, octave: i8, kind: ChordKind, modifiers: Vec<PressModifier>) -> ChordPress {
    ChordPress { root, octave: Octave::clamp(octave), kind, modifiers }
}

fn play(presses: Vec<ChordPress>, modifiers: Vec<PressModifier>) -> LangItem {
    LangItem::NotePress(PressLine { presses, modifiers })
}

fn play_c4() -> LangItem {
    play(vec![chord(NoteClass::C, 4, ChordKind::Raw, Vec::new())], Vec::new())
}

#[test]
fn test_comments() {
    let raw = r"ELM1 ELM2   ELM3/* inline comment 1*/ELM3b /*Inline comment 2*/ELM4 // Line comment
        // Line comment 2
        # line comment 3
        L2ELM1 /* inline comment 3*/L2ELM2 // Line comment 4
        L3ELM3 L3ELM4 L3ELM5 #line comment 5
        /* inline comment 3 *//*inline comment 4*/ 
        # line comment 5 /* inline comment 6*/";
    let src = Source::new(raw);

    // one element: runs of letters and digits and inline comments, at least one of them
    let list_elm_parser = |start: usize| -> Option<(String, usize)> {
        let mut acc = String::new();
        let mut pos = start;
        loop {
            let word_end = src.skip(pos, CharClass::AlphaNum);
            if word_end > pos {
                acc.push_str(&src.slice(pos, word_end));
                pos = word_end;
                continue;
            }
            match src.parse_comment_inline(pos) {
                Parsed::Done((), p) => pos = p,
                _ => break,
            }
        }
        if pos > start {
            Some((acc, pos))
        } else {
            None
        }
    };
    // the elements of a line with gaps between them, then the gap to the next line
    let line_parser = |start: usize| -> Result<(usize, Vec<String>), String> {
        let mut res = Vec::new();
        let mut pos = start;
        if let Some((elm, p)) = list_elm_parser(pos) {
            res.push(elm);
            pos = p;
            loop {
                let after_gap = match src.space1(pos) {
                    Parsed::Done((), p) => p,
                    _ => break,
                };
                match list_elm_parser(after_gap) {
                    Some((elm, p)) => {
                        res.push(elm);
                        pos = p;
                    }
                    None => break,
                }
            }
        }
        match src.multispace1(pos) {
            Parsed::Done((), p) => Ok((p, res)),
            other => Err(format!("Error: {:?} at {}", other, pos)),
        }
    };
    let res1 = line_parser(0);
    let (rest, first_line_res) = match res1 {
        Ok(r) => r,
        Err(msg) => panic!("{}", msg),
    };
    assert_eq!(vec!["ELM1", "ELM2", "ELM3ELM3b", "ELM4"], first_line_res);

    let (rest, second_line_res) = line_parser(rest).unwrap();
    assert_eq!(vec!["L2ELM1", "L2ELM2"], second_line_res, "Rest = {:?}", rest);

    let (rest, third_line_res) = line_parser(rest).unwrap();
    assert_eq!(vec!["L3ELM3", "L3ELM4", "L3ELM5"], third_line_res);

    assert_eq!(Parsed::Done((), src.len()), src.multispace0(rest));
}

#[test]
fn source_reads_by_character() {
    let src = Source::new("aé\u{212a}z");
    assert_eq!(4, src.len());
    assert_eq!('é', src.at(1));
    assert_eq!("é\u{212a}", src.slice(1, 3));
    assert_eq!("", src.slice(2, 2));
    assert_eq!(1, src.skip(0, CharClass::Alpha));
    assert_eq!(1, src.skip(1, CharClass::Alpha));
    assert_eq!(4, src.skip(1, CharClass::LineText));
}

#[test]
fn character_runs() {
    let src = Source::new(" \t\r\n x12ab;");
    assert_eq!(2, src.skip(0, CharClass::Blank));
    assert_eq!(5, src.skip(0, CharClass::Space));
    assert_eq!(5, src.skip(5, CharClass::Digit));
    assert_eq!(8, src.skip(6, CharClass::Digit));
    assert_eq!(10, src.skip(8, CharClass::Alpha));
    assert_eq!(10, src.skip(5, CharClass::AlphaNum));
    assert_eq!(2, src.skip(0, CharClass::LineText));
    assert_eq!(11, src.skip(11, CharClass::Space));
    assert_eq!(Some(2), blank1(&src, 0));
    assert_eq!(None, blank1(&src, 2));
}

#[test]
fn tags() {
    let src = Source::new("Loop loop");
    assert_eq!(None, src.tag(0, "loop"));
    assert_eq!(Some(4), src.tag_no_case(0, "LOOP"));
    assert_eq!(Some(9), src.tag(5, "loop"));
    assert_eq!(None, src.tag(6, "loop"));
    assert_eq!(Some(5), src.tag(5, ""));
    assert_eq!(None, src.tag_no_case(0, "loot"));
    // only the letters a to z fold
    assert_eq!(None, Source::new("[").tag_no_case(0, "{"));
    assert_eq!(None, Source::new("\u{212a}").tag_no_case(0, "k"));
}

#[test]
fn numbers() {
    assert_eq!(Parsed::Done(123, 3), Source::new("123x").number(0, 1000));
    assert_eq!(Parsed::Done(7, 3), Source::new("007").number(0, 7));
    assert_eq!(Parsed::Miss, Source::new("008").number(0, 7));
    assert_eq!(Parsed::Miss, Source::new("x1").number(0, 7));
    assert_eq!(Parsed::Miss, Source::new("").number(0, 7));
    assert_eq!(Parsed::Done(u64::MAX, 20), Source::new("18446744073709551615").number(0, u64::MAX));
    assert_eq!(Parsed::Miss, Source::new("18446744073709551616").number(0, u64::MAX));
    assert_eq!(Parsed::Miss, Source::new("99999999999999999999999").number(0, u64::MAX));
    assert_eq!(Parsed::Done(nz(65535), 5), Source::new("65535").nonzerou16(0));
    assert_eq!(Parsed::Miss, Source::new("65536").nonzerou16(0));
    assert_eq!(Parsed::Miss, Source::new("0").nonzerou16(0));
    assert_eq!(Parsed::Miss, Source::new("-1").nonzerou16(0));
}

#[test]
fn inline_comments() {
    assert_eq!(Parsed::Done((), 7), Source::new("/* x */y").parse_comment_inline(0));
    assert_eq!(Parsed::Done((), 4), Source::new("/**/").parse_comment_inline(0));
    assert_eq!(Parsed::Done((), 3), Source::new("/*/").parse_comment_inline(0));
    assert_eq!(Parsed::Done((), 7), Source::new("/* é */").parse_comment_inline(0));
    assert_eq!(Parsed::Miss, Source::new("/ *").parse_comment_inline(0));
    assert_eq!(Parsed::Miss, Source::new("// x").parse_comment_inline(0));
    // opened and not closed on its line
    assert_eq!(Parsed::Fatal, Source::new("/* x").parse_comment_inline(0));
    assert_eq!(Parsed::Fatal, Source::new("/* x\n*/").parse_comment_inline(0));
    assert_eq!(Parsed::Fatal, Source::new("/* x\r\n*/").parse_comment_inline(0));
    // a carriage return alone ends no line
    assert_eq!(Parsed::Done((), 7), Source::new("/* \r */").parse_comment_inline(0));
}

#[test]
fn line_comments() {
    assert_eq!(Parsed::Done((), 4), Source::new("# x\ny").parse_comment_fullline(0));
    assert_eq!(Parsed::Done((), 5), Source::new("// x\n").parse_comment_fullline(0));
    assert_eq!(Parsed::Done((), 5), Source::new("#x \r\ny").parse_comment_fullline(0));
    assert_eq!(Parsed::Done((), 3), Source::new("# x").parse_comment_fullline(0));
    assert_eq!(Parsed::Done((), 1), Source::new("#").parse_comment_fullline(0));
    assert_eq!(Parsed::Miss, Source::new("/ x").parse_comment_fullline(0));
    assert_eq!(Parsed::Miss, Source::new("# x\ry\n").parse_comment_fullline(0));
    assert_eq!(Parsed::Done((), 4), Source::new("# x\ny").parse_comment(0));
    assert_eq!(Parsed::Done((), 5), Source::new("/*x*/y").parse_comment(0));
    assert_eq!(Parsed::Fatal, Source::new("/*x").parse_comment(0));
    assert_eq!(Parsed::Miss, Source::new("x").parse_comment(0));
}

#[test]
fn gaps() {
    assert_eq!(Parsed::Done((), 2), Source::new(" \t\nx").space0(0));
    assert_eq!(Parsed::Done((), 0), Source::new("x").space0(0));
    // blanks and nothing else, not even a comment
    assert_eq!(Parsed::Done((), 1), Source::new(" /*c*/ x").space0(0));
    assert_eq!(Parsed::Done((), 3), Source::new("   x").space1(0));
    assert_eq!(Parsed::Done((), 12), Source::new("/*a*//*b*/  x").space1(0));
    assert_eq!(Parsed::Miss, Source::new("/*a*/x").space1(0));
    assert_eq!(Parsed::Miss, Source::new("x").space1(0));
    assert_eq!(Parsed::Fatal, Source::new("/*a x").space1(0));
    assert_eq!(Parsed::Done((), 0), Source::new("x").multispace0(0));
    assert_eq!(Parsed::Done((), 19), Source::new(" \n# c\n/*d*/ //e\n\t\r\nx").multispace0(0));
    assert_eq!(Parsed::Fatal, Source::new(" \n/*d").multispace0(0));
    // blanks alone are no gap between items: a line must end or a comment begin
    assert_eq!(Parsed::Miss, Source::new(" x").multispace1(0));
    assert_eq!(Parsed::Done((), 3), Source::new(" \n x").multispace1(0));
    assert_eq!(Parsed::Done((), 9), Source::new("  # c\n\n  x").multispace1(0));
    assert_eq!(Parsed::Done((), 8), Source::new("\n/*c*/\n x").multispace1(0));
    assert_eq!(Parsed::Miss, Source::new("x").multispace1(0));
    // an inline comment opens no gap between items
    assert_eq!(Parsed::Miss, Source::new("/*c*/ x").multispace1(0));
}

#[test]
fn channels() {
    assert_eq!(Parsed::Done(chan(0), 1), parse_channel(&Source::new("1"), 0));
    assert_eq!(Parsed::Done(chan(15), 2), parse_channel(&Source::new("16"), 0));
    assert_eq!(Parsed::Done(chan(0), 2), parse_channel(&Source::new("0r"), 0));
    assert_eq!(Parsed::Done(chan(15), 3), parse_channel(&Source::new("15r"), 0));
    assert_eq!(Parsed::Miss, parse_channel(&Source::new("0"), 0));
    assert_eq!(Parsed::Miss, parse_channel(&Source::new("17"), 0));
    assert_eq!(Parsed::Miss, parse_channel(&Source::new("16r"), 0));
    assert_eq!(Parsed::Miss, parse_channel(&Source::new("256"), 0));
    assert_eq!(Parsed::Miss, parse_channel(&Source::new("r"), 0));
    assert_eq!(Parsed::Done(chan(4), 1), parse_channel(&Source::new("5R"), 0));
}

#[test]
fn octaves() {
    assert_eq!(Parsed::Done(Octave::clamp(4), 1), parse_octave(&Source::new("4"), 0));
    assert_eq!(Parsed::Done(Octave::clamp(9), 1), parse_octave(&Source::new("9"), 0));
    assert_eq!(Parsed::Done(Octave::clamp(-1), 2), parse_octave(&Source::new("-1"), 0));
    assert_eq!(Parsed::Done(Octave::clamp(0), 2), parse_octave(&Source::new("-0"), 0));
    assert_eq!(Parsed::Done(Octave::clamp(7), 3), parse_octave(&Source::new("007"), 0));
    assert_eq!(Parsed::Miss, parse_octave(&Source::new("10"), 0));
    assert_eq!(Parsed::Miss, parse_octave(&Source::new("-2"), 0));
    assert_eq!(Parsed::Miss, parse_octave(&Source::new("-"), 0));
    assert_eq!(Parsed::Miss, parse_octave(&Source::new("+1"), 0));
}

#[test]
fn note_classes() {
    let cases = [
        ("Ab", NoteClass::Gs, 2),
        ("A#", NoteClass::As, 2),
        ("As", NoteClass::As, 2),
        ("A", NoteClass::A, 1),
        ("Bb", NoteClass::As, 2),
        ("B", NoteClass::B, 1),
        ("C#", NoteClass::Cs, 2),
        ("Cs", NoteClass::Cs, 2),
        ("C", NoteClass::C, 1),
        ("D#", NoteClass::Ds, 2),
        ("Ds", NoteClass::Ds, 2),
        ("Db", NoteClass::Cs, 2),
        ("D", NoteClass::D, 1),
        ("Eb", NoteClass::Ds, 2),
        ("E", NoteClass::E, 1),
        ("F#", NoteClass::Fs, 2),
        ("Fs", NoteClass::Fs, 2),
        ("F", NoteClass::F, 1),
        ("Gb", NoteClass::Fs, 2),
        ("G#", NoteClass::Gs, 2),
        ("Gs", NoteClass::Gs, 2),
        ("G", NoteClass::G, 1),
        // letters that take no such sign
        ("B#", NoteClass::B, 1),
        ("Bs", NoteClass::B, 1),
        ("Cb", NoteClass::C, 1),
        ("E#", NoteClass::E, 1),
        ("Fb", NoteClass::F, 1),
    ];
    for (text, class, end) in cases {
        assert_eq!(Parsed::Done(class, end), parse_noteclass(&Source::new(text), 0), "{}", text);
        let small = text.to_lowercase();
        assert_eq!(Parsed::Done(class, end), parse_noteclass(&Source::new(&small), 0), "{}", small);
        let capital = text.to_uppercase();
        assert_eq!(Parsed::Done(class, end), parse_noteclass(&Source::new(&capital), 0), "{}", capital);
    }
    assert_eq!(Parsed::Miss, parse_noteclass(&Source::new("h"), 0));
    assert_eq!(Parsed::Miss, parse_noteclass(&Source::new(""), 0));
    assert_eq!(Parsed::Miss, parse_noteclass(&Source::new("#a"), 0));
}

#[test]
fn pitches_and_chords() {
    assert_eq!(
        Parsed::Done((NoteClass::Cs, Octave::clamp(-1)), 4),
        parse_notepitch(&Source::new("c#-1"), 0)
    );
    assert_eq!(Parsed::Miss, parse_notepitch(&Source::new("c"), 0));
    assert_eq!(Parsed::Done(ChordKind::Minor7, 2), parse_chordkind(&Source::new("m7"), 0));
    assert_eq!(Parsed::Done(ChordKind::Major7, 2), parse_chordkind(&Source::new("M7"), 0));
    assert_eq!(Parsed::Done(ChordKind::Minor, 1), parse_chordkind(&Source::new("m"), 0));
    assert_eq!(Parsed::Done(ChordKind::Major, 1), parse_chordkind(&Source::new("M5"), 0));
    assert_eq!(Parsed::Done(ChordKind::Fifth, 1), parse_chordkind(&Source::new("5"), 0));
    assert_eq!(Parsed::Done(ChordKind::Raw, 0), parse_chordkind(&Source::new("7"), 0));
    assert_eq!(Parsed::Done(ChordKind::Raw, 0), parse_chordkind(&Source::new(""), 0));
    assert_eq!(
        Parsed::Done((NoteClass::C, Octave::clamp(4), ChordKind::Major), 3),
        parse_fullchord(&Source::new("c4M"), 0)
    );
    assert_eq!(
        Parsed::Done((NoteClass::As, Octave::clamp(3), ChordKind::Minor7), 5),
        parse_fullchord(&Source::new("Bb3m7,"), 0)
    );
    assert_eq!(
        Parsed::Done((NoteClass::E, Octave::clamp(4), ChordKind::Raw), 2),
        parse_fullchord(&Source::new("e4 "), 0)
    );
}

#[test]
fn velocities() {
    assert_eq!(Parsed::Done(vel(0), 1), parse_velocity(&Source::new("0"), 0));
    assert_eq!(Parsed::Done(vel(127), 3), parse_velocity(&Source::new("127"), 0));
    assert_eq!(Parsed::Miss, parse_velocity(&Source::new("128"), 0));
    assert_eq!(Parsed::Miss, parse_velocity(&Source::new("v"), 0));
}

#[test]
fn durations() {
    let clock = |nanos: u128| WaitTime::Clock(ClockTime { nanos });
    let cases = [
        ("3t", WaitTime::Ticks(nz(3)), 2),
        ("3 t", WaitTime::Ticks(nz(3)), 3),
        ("3 tick", WaitTime::Ticks(nz(3)), 6),
        ("3 Ticks", WaitTime::Ticks(nz(3)), 7),
        ("65535b", WaitTime::Beats(nz(65535)), 6),
        ("2 beat", WaitTime::Beats(nz(2)), 6),
        ("2\tBEATS", WaitTime::Beats(nz(2)), 7),
        ("2m", clock(120_000_000_000), 2),
        ("2 mins", clock(120_000_000_000), 6),
        ("2 minutes", clock(120_000_000_000), 9),
        ("5s", clock(5_000_000_000), 2),
        ("5 secs", clock(5_000_000_000), 6),
        ("5 seconds", clock(5_000_000_000), 9),
        ("5ms", clock(5_000_000), 3),
        ("5 ms", clock(5_000_000), 4),
        ("5 millis", clock(5_000_000), 8),
        ("5 milliseconds", clock(5_000_000), 14),
        ("5us", clock(5_000), 3),
        ("5 micros", clock(5_000), 8),
        ("5 microseconds", clock(5_000), 14),
        ("5ns", clock(5), 3),
        ("5 nanos", clock(5), 7),
        ("5 nanoseconds", clock(5), 13),
        ("70000ms", clock(70_000_000_000), 7),
        ("18446744073709551615m", clock(18446744073709551615 * 60_000_000_000), 21),
        // a long word without a blank before it: its first letter is the unit
        ("3ticks", WaitTime::Ticks(nz(3)), 2),
        ("5seconds", clock(5_000_000_000), 2),
    ];
    for (text, wait, end) in cases {
        assert_eq!(Parsed::Done(wait, end), parse_rawduration(&Source::new(text), 0), "{}", text);
    }
    for text in ["0t", "0 ms", "65536t", "65536 beats", "3", "3 x", "t", "-3t", "18446744073709551616ns"] {
        assert_eq!(Parsed::Miss, parse_rawduration(&Source::new(text), 0), "{}", text);
    }
}

#[test]
fn labels_and_outputs() {
    assert_eq!(Parsed::Done("abc".to_owned(), 3), parse_rawlabel(&Source::new("abc1"), 0));
    assert_eq!(Parsed::Miss, parse_rawlabel(&Source::new("1abc"), 0));
    assert_eq!(Parsed::Miss, parse_rawlabel(&Source::new("é"), 0));
    assert_eq!(
        Parsed::Done(Some(label("left")), 16),
        parse_outputlabel(&Source::new(" , OUTPUT = left;"), 0)
    );
    assert_eq!(Parsed::Done(Some(label("l")), 9), parse_outputlabel(&Source::new(",output=l"), 0));
    assert_eq!(Parsed::Done(None, 2), parse_outputlabel(&Source::new("  x"), 0));
    assert_eq!(Parsed::Done(None, 1), parse_outputlabel(&Source::new(" , output left"), 0));
    assert_eq!(Parsed::Done(None, 0), parse_outputlabel(&Source::new(""), 0));
}

#[test]
fn messages() {
    assert_eq!(
        Parsed::Done(MidiMessage::NoteOn(NoteOn::new(chan(0), note(60), vel(90))), 16),
        parse_midimsg(&Source::new("NOTEON 1, c4, 90"), 0)
    );
    assert_eq!(
        Parsed::Done(MidiMessage::NoteOff(NoteOff::new(chan(9), note(61), vel(0))), 18),
        parse_midimsg(&Source::new("noteoff 9r,c#4 , 0"), 0)
    );
    for text in ["NOTEON1,c4,90", "NOTEON 1 c4 90", "NOTEON 1,c4,128", "NOTEON 17,c4,1", "RAW 1", "NOTE 1,c4,1"] {
        assert_eq!(Parsed::Miss, parse_midimsg(&Source::new(text), 0), "{}", text);
    }
}

#[test]
fn commands() {
    let on = MidiMessage::NoteOn(NoteOn::new(chan(0), note(60), vel(90)));
    let cases = vec![
        ("SEND NOTEON 1,c4,90", AsmCommand::Send { message: on, port: None }, 19),
        ("send noteon 1,c4,90 , output = aux", AsmCommand::Send { message: on, port: Some(label("aux")) }, 34),
        ("send noteon 1,c4,90  x", AsmCommand::Send { message: on, port: None }, 21),
        (
            "SETBPM 120, 32",
            AsmCommand::SetBpm(BpmInfo { beats_per_minute: nz(120), ticks_per_beat: nz(32) }),
            14,
        ),
        ("setbpm 1,1", AsmCommand::SetBpm(BpmInfo { beats_per_minute: nz(1), ticks_per_beat: nz(1) }), 10),
        ("WAIT 3 beats", AsmCommand::Wait(WaitTime::Beats(nz(3))), 12),
        ("wait 4t", AsmCommand::Wait(WaitTime::Ticks(nz(4))), 7),
        ("LABEL top:", AsmCommand::Label("top".to_owned()), 10),
        ("label Top :", AsmCommand::Label("Top".to_owned()), 11),
        ("JUMP top", AsmCommand::Jump { label: "top".to_owned(), count: None }, 8),
        ("JUMP top  ", AsmCommand::Jump { label: "top".to_owned(), count: None }, 10),
        ("jump top 3", AsmCommand::Jump { label: "top".to_owned(), count: Some(nz(3)) }, 10),
        ("jump top 0", AsmCommand::Jump { label: "top".to_owned(), count: None }, 9),
    ];
    for (text, cmd, end) in cases {
        assert_eq!(Parsed::Done(cmd, end), parse_asm_command(&Source::new(text), 0), "{}", text);
    }
    for text in ["SEND", "SETBPM 0, 1", "SETBPM 1 1", "WAIT", "WAIT 0t", "LABEL top", "LABEL 1:", "JUMP", "JUMP 1", "NOP"] {
        assert_eq!(Parsed::Miss, parse_asm_command(&Source::new(text), 0), "{}", text);
    }
}

#[test]
fn modifiers() {
    let cases = vec![
        ("", Vec::new(), 0),
        ("c4", Vec::new(), 0),
        ("vel=5", vec![PressModifier::Velocity(vel(5))], 5),
        ("velocity = 5", vec![PressModifier::Velocity(vel(5))], 12),
        ("VEL =127 ", vec![PressModifier::Velocity(vel(127))], 8),
        ("for 2 beats", vec![PressModifier::Duration(WaitTime::Beats(nz(2)))], 11),
        ("on", Vec::new(), 2),
        ("on channel 3", vec![PressModifier::Channel(chan(2))], 12),
        ("on output \"aux\"", vec![PressModifier::Port(label("aux"))], 15),
        (
            "on output \"aux\" channel 3r",
            vec![PressModifier::Port(label("aux")), PressModifier::Channel(chan(3))],
            26,
        ),
        // the channel comes after the output, not before it
        ("on channel 3 output \"aux\"", vec![PressModifier::Channel(chan(2))], 12),
        (
            "for 1t  vel=1 on channel 1 c4",
            vec![
                PressModifier::Duration(WaitTime::Ticks(nz(1))),
                PressModifier::Velocity(vel(1)),
                PressModifier::Channel(chan(0)),
            ],
            26,
        ),
        ("vel=5 vel=6", vec![PressModifier::Velocity(vel(5)), PressModifier::Velocity(vel(6))], 11),
        ("vel=200", Vec::new(), 0),
        ("on output aux", Vec::new(), 2),
        ("on output \"\"", Vec::new(), 2),
    ];
    for (text, mods, end) in cases {
        assert_eq!(Parsed::Done(mods, end), parse_press_modifiers(&Source::new(text), 0), "{}", text);
    }
}

#[test]
fn chord_presses() {
    assert_eq!(
        Parsed::Done(chord(NoteClass::C, 4, ChordKind::Raw, Vec::new()), 2),
        parse_chordpress(&Source::new("c4"), 0)
    );
    assert_eq!(
        Parsed::Done(chord(NoteClass::C, 4, ChordKind::Major, Vec::new()), 5),
        parse_chordpress(&Source::new("c4M  ,"), 0)
    );
    assert_eq!(
        Parsed::Done(chord(NoteClass::C, 4, ChordKind::Minor, vec![PressModifier::Velocity(vel(9))]), 9),
        parse_chordpress(&Source::new("c4m vel=9,"), 0)
    );
    assert_eq!(Parsed::Miss, parse_chordpress(&Source::new("h4"), 0));
    // the 5 of a fifth reads as a digit of the octave
    assert_eq!(Parsed::Miss, parse_chordpress(&Source::new("c45"), 0));
}

#[test]
fn press_lines() {
    let line = |presses, modifiers| PressLine { presses, modifiers };
    let cases = vec![
        ("play c4", line(vec![chord(NoteClass::C, 4, ChordKind::Raw, Vec::new())], Vec::new()), 7),
        ("PLAY c4M", line(vec![chord(NoteClass::C, 4, ChordKind::Major, Vec::new())], Vec::new()), 8),
        (
            "play c4, e4 ,g4",
            line(
                vec![
                    chord(NoteClass::C, 4, ChordKind::Raw, Vec::new()),
                    chord(NoteClass::E, 4, ChordKind::Raw, Vec::new()),
                    chord(NoteClass::G, 4, ChordKind::Raw, Vec::new()),
                ],
                Vec::new(),
            ),
            15,
        ),
        (
            "play vel=3 on channel 2 c4m7 vel=4 , d-1",
            line(
                vec![
                    chord(NoteClass::C, 4, ChordKind::Minor7, vec![PressModifier::Velocity(vel(4))]),
                    chord(NoteClass::D, -1, ChordKind::Raw, Vec::new()),
                ],
                vec![PressModifier::Velocity(vel(3)), PressModifier::Channel(chan(1))],
            ),
            40,
        ),
        // a comma that no chord follows is left alone
        ("play c4, x", line(vec![chord(NoteClass::C, 4, ChordKind::Raw, Vec::new())], Vec::new()), 7),
        ("play c4 \n", line(vec![chord(NoteClass::C, 4, ChordKind::Raw, Vec::new())], Vec::new()), 8),
    ];
    for (text, expected, end) in cases {
        assert_eq!(Parsed::Done(expected, end), parse_pressline(&Source::new(text), 0), "{}", text);
    }
    for text in ["play", "play ", "playc4", "play vel=3c4", "play h4", "pley c4"] {
        assert_eq!(Parsed::Miss, parse_pressline(&Source::new(text), 0), "{}", text);
    }
}

#[test]
fn loops() {
    let cases = vec![
        ("loop{}", LangItem::Loop { expr: Vec::new(), repititions: None }, 6),
        ("loop 3 { play c4 }", LangItem::Loop { expr: vec![play_c4()], repititions: Some(nz(3)) }, 18),
        ("loop 3{play c4}", LangItem::Loop { expr: vec![play_c4()], repititions: Some(nz(3)) }, 15),
        ("loop/*n*/ 3 {\n# c\nplay c4\n}", LangItem::Loop { expr: vec![play_c4()], repititions: Some(nz(3)) }, 27),
        (
            "loop { play c4\nloop 2 { wait 1t } }",
            LangItem::Loop {
                expr: vec![
                    play_c4(),
                    LangItem::Loop {
                        expr: vec![LangItem::Asm(AsmCommand::Wait(WaitTime::Ticks(nz(1))))],
                        repititions: Some(nz(2)),
                    },
                ],
                repititions: None,
            },
            35,
        ),
    ];
    for (text, item, end) in cases {
        assert_eq!(Parsed::Done(item, end), parse_loop(&Source::new(text), 0), "{}", text);
    }
    for text in ["Loop {}", "loop 0 {}", "loop 3", "loop { play c4", "loop { x }", "loop3{}", "loop /*n*/ 3 {}"] {
        assert_eq!(Parsed::Miss, parse_loop(&Source::new(text), 0), "{}", text);
    }
    assert_eq!(Parsed::Fatal, parse_loop(&Source::new("loop/* 3 {}"), 0));
    assert_eq!(Parsed::Fatal, parse_loop(&Source::new("loop { /* }"), 0));
    assert_eq!(Parsed::Fatal, parse_expr(&Source::new("loop { play c4 \n /* }"), 0));
}

#[test]
fn files() {
    let src = Source::new("  # a song\nplay c4\n\nwait 2t // rest\nloop 2 {\n  play c4\n}\n");
    let expected = vec![
        play_c4(),
        LangItem::Asm(AsmCommand::Wait(WaitTime::Ticks(nz(2)))),
        LangItem::Loop { expr: vec![play_c4()], repititions: Some(nz(2)) },
    ];
    assert_eq!(Parsed::Done(expected, src.len()), parse_file(&src));
    // reading stops where no item stands
    assert_eq!(Parsed::Done(vec![play_c4()], 8), parse_file(&Source::new("play c4\nplay")));
    assert_eq!(Parsed::Done(Vec::new(), 1), parse_file(&Source::new(" x")));
    assert_eq!(Parsed::Fatal, parse_file(&Source::new("play c4\n/* x")));
}

#[test]
fn songs() {
    assert_eq!(Ok(Vec::new()), parse_song(""));
    assert_eq!(Ok(Vec::new()), parse_song(" \n # nothing\n"));
    assert_eq!(Ok(vec![play_c4()]), parse_song("play c4"));
    assert_eq!(Ok(vec![play_c4(), play_c4()]), parse_song("play c4 # one\nplay c4"));
    assert_eq!(Err(SongParseError::Unparsed { position: 8 }), parse_song("play c4 play c4"));
    assert_eq!(Err(SongParseError::Unparsed { position: 0 }), parse_song("sing c4"));
    // white space that the grammar does not skip may stand at the end
    assert_eq!(Ok(vec![play_c4()]), parse_song("play c4\u{a0}"));
    assert_eq!(Ok(vec![play_c4()]), parse_song("play c4 \u{c}\u{3000}\n\u{b}"));
    assert_eq!(Ok(Vec::new()), parse_song("\u{c}"));
    assert_eq!(Err(SongParseError::Unparsed { position: 7 }), parse_song("play c4\u{a0}x"));
    assert_eq!(Err(SongParseError::Unparsed { position: 7 }), parse_song("play c4\u{200b}"));
    assert_eq!(Err(SongParseError::OpenComment), parse_song("play c4\n/* the end"));
}

#[test]
fn parsed_songs_compile() {
    let (track, ports) = compile_song(parse_song("play c4").unwrap()).unwrap();
    let send = |raw: u8| TrackEvent::SendMessage {
        message: MidiMessage::NoteOn(NoteOn::new(chan(0), note(raw), vel(90))),
        port: OutputPort { idx: 0 },
    };
    let tick = TrackEvent::Wait(WaitTime::Ticks(nz(1)));
    assert_eq!(vec![send(60), tick, TrackEvent::End], track);
    assert_eq!(vec![None], ports);
    let (track, _) = compile_song(parse_song("play c4M").unwrap()).unwrap();
    assert_eq!(vec![send(60), send(64), send(67), tick, TrackEvent::End], track);
    let (track, _) = compile_song(parse_song("play e4M").unwrap()).unwrap();
    assert_eq!(vec![send(64), send(68), send(71), tick, TrackEvent::End], track);
    let (track, _) = compile_song(parse_song("loop 3 { play c4 }").unwrap()).unwrap();
    assert_eq!(
        vec![send(60), tick, TrackEvent::Jump { target: 0, count: Some(nz(2)) }, TrackEvent::End],
        track
    );
    let text = "label top:\nsend noteon 2, a4, 1, output = aux\nplay on output \"aux\" c4\njump top 2";
    let (track, ports) = compile_song(parse_song(text).unwrap()).unwrap();
    assert_eq!(
        vec![
            TrackEvent::SendMessage {
                message: MidiMessage::NoteOn(NoteOn::new(chan(1), note(69), vel(1))),
                port: OutputPort { idx: 0 }
            },
            send(60),
            tick,
            TrackEvent::Jump { target: 0, count: Some(nz(2)) },
            TrackEvent::End
        ],
        track
    );
    assert_eq!(vec![Some(label("aux"))], ports);
}
