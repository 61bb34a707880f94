//! The low-level commands of the song language.

use super::after_tag;
use super::after_tag_no_case;
use super::count_at;
use super::run_end;
use super::values::channel_at;
use super::values::notepitch_at;
use super::values::parse_channel;
use super::values::parse_notepitch;
use super::values::parse_rawduration;
use super::values::parse_velocity;
use super::values::times::rawduration_at;
use super::values::velocity_at;
use super::CharClass;
use super::Parsed;
use super::Source;
use crate::midi::MidiChannel;
use crate::midi::MidiMessage;
use crate::midi::MidiNote;
use crate::midi::NoteOff;
use crate::midi::NoteOn;
use crate::midi::PressVelocity;
use crate::songlang::ast::output_view;
use crate::songlang::ast::AsmCommand;
use crate::songlang::ast::AsmView;
use crate::songlang::ast::OutputLabel;
use crate::track::BpmInfo;
use vstd::prelude::*;

verus! {

/// The place after the blanks at place `pos`, of which there must be one at
/// least.
pub open spec fn blank1_at(s: Seq<char>, pos: int) -> Option<usize> {
    let end = run_end(s, pos, CharClass::Blank);
    if end > pos {
        Some(end as usize)
    } else {
        None
    }
}

/// The place after the comma at place `pos`, with the blanks round it.
pub open spec fn commalist_separator_at(s: Seq<char>, pos: int) -> Option<usize> {
    match after_tag(s, run_end(s, pos, CharClass::Blank), ","@) {
        Some(p) => Some(run_end(s, p as int, CharClass::Blank) as usize),
        None => None,
    }
}

/// The name at place `pos`: the letters that stand there, of which there
/// must be one at least.
pub open spec fn rawlabel_at(s: Seq<char>, pos: int) -> Parsed<Seq<char>> {
    let end = run_end(s, pos, CharClass::Alpha);
    if end > pos {
        Parsed::Done(s.subrange(pos, end), end as usize)
    } else {
        Parsed::Miss
    }
}

/// What a name that was read says.
pub open spec fn label_result_view(r: Parsed<String>) -> Parsed<Seq<char>> {
    match r {
        Parsed::Done(name, p) => Parsed::Done(name@, p),
        Parsed::Miss => Parsed::Miss,
        Parsed::Fatal => Parsed::Fatal,
    }
}

/// What the name of an output that was read says.
pub open spec fn output_result_view(r: Parsed<Option<OutputLabel>>) -> Parsed<Option<Seq<char>>> {
    match r {
        Parsed::Done(port, p) => Parsed::Done(output_view(port), p),
        Parsed::Miss => Parsed::Miss,
        Parsed::Fatal => Parsed::Fatal,
    }
}

/// What a command that was read says.
pub open spec fn asm_result_view(r: Parsed<AsmCommand>) -> Parsed<AsmView> {
    match r {
        Parsed::Done(cmd, p) => Parsed::Done(cmd@, p),
        Parsed::Miss => Parsed::Miss,
        Parsed::Fatal => Parsed::Fatal,
    }
}

/// The channel, the note and the velocity of a note message at place `pos`,
/// with commas between them.
pub open spec fn notemsg_args_at(s: Seq<char>, pos: int) -> Parsed<
    (MidiChannel, MidiNote, PressVelocity),
> {
    match channel_at(s, pos) {
        Parsed::Done(channel, e1) => match commalist_separator_at(s, e1 as int) {
            Some(e2) => match notepitch_at(s, e2 as int) {
                Parsed::Done((class, octave), e3) => match commalist_separator_at(s, e3 as int) {
                    Some(e4) => match velocity_at(s, e4 as int) {
                        Parsed::Done(vel, e5) => Parsed::Done(
                            (channel, MidiNote::at(class, octave), vel),
                            e5,
                        ),
                        _ => Parsed::Miss,
                    },
                    None => Parsed::Miss,
                },
                _ => Parsed::Miss,
            },
            None => Parsed::Miss,
        },
        _ => Parsed::Miss,
    }
}

/// The note message at place `pos` that the word `word` opens, where
/// capitals and small letters count alike: the word, blanks, then the
/// channel, the note and the velocity.
pub open spec fn notemsg_at(s: Seq<char>, pos: int, word: Seq<char>) -> Parsed<
    (MidiChannel, MidiNote, PressVelocity),
> {
    match after_tag_no_case(s, pos, word) {
        Some(p) => match blank1_at(s, p as int) {
            Some(q) => notemsg_args_at(s, q as int),
            None => Parsed::Miss,
        },
        None => Parsed::Miss,
    }
}

/// The message at place `pos`: a note-off, opened by `NOTEOFF`, or a
/// note-on, opened by `NOTEON`.
pub open spec fn midimsg_at(s: Seq<char>, pos: int) -> Parsed<MidiMessage> {
    match notemsg_at(s, pos, "NOTEOFF"@) {
        Parsed::Done((channel, note, vel), p) => Parsed::Done(
            MidiMessage::NoteOff(NoteOff { channel, note, vel }),
            p,
        ),
        _ => match notemsg_at(s, pos, "NOTEON"@) {
            Parsed::Done((channel, note, vel), p) => Parsed::Done(
                MidiMessage::NoteOn(NoteOn { channel, note, vel }),
                p,
            ),
            _ => Parsed::Miss,
        },
    }
}

/// The output that a command names at place `pos`: a comma, `output`, `=`
/// and the output's name, with blanks between them where one likes; where
/// this does not stand there, blanks and no output.
pub open spec fn outputlabel_at(s: Seq<char>, pos: int) -> Parsed<Option<Seq<char>>> {
    let named = match commalist_separator_at(s, pos) {
        Some(e1) => match after_tag_no_case(s, e1 as int, "output"@) {
            Some(e2) => match after_tag_no_case(
                s,
                run_end(s, e2 as int, CharClass::Blank),
                "="@,
            ) {
                Some(e3) => rawlabel_at(s, run_end(s, e3 as int, CharClass::Blank)),
                None => Parsed::Miss,
            },
            None => Parsed::Miss,
        },
        None => Parsed::Miss,
    };
    match named {
        Parsed::Done(name, p) => Parsed::Done(Some(name), p),
        _ => Parsed::Done(None, run_end(s, pos, CharClass::Blank) as usize),
    }
}

/// The command at place `pos` that sets the timing: `SETBPM`, blanks, the
/// beats in a minute, a comma, the ticks in a beat.
pub open spec fn setbpm_at(s: Seq<char>, pos: int) -> Parsed<AsmView> {
    match after_tag_no_case(s, pos, "SETBPM"@) {
        Some(e1) => match blank1_at(s, e1 as int) {
            Some(e2) => match count_at(s, e2 as int) {
                Parsed::Done(bpm, e3) => match commalist_separator_at(s, e3 as int) {
                    Some(e4) => match count_at(s, e4 as int) {
                        Parsed::Done(ticks, e5) => Parsed::Done(
                            AsmView::SetBpm(
                                BpmInfo { beats_per_minute: bpm, ticks_per_beat: ticks },
                            ),
                            e5,
                        ),
                        _ => Parsed::Miss,
                    },
                    None => Parsed::Miss,
                },
                _ => Parsed::Miss,
            },
            None => Parsed::Miss,
        },
        None => Parsed::Miss,
    }
}

/// The jump at place `pos`: `JUMP`, blanks, the label's name, and then,
/// after blanks, the count, if there is one.
pub open spec fn jump_at(s: Seq<char>, pos: int) -> Parsed<AsmView> {
    match after_tag_no_case(s, pos, "JUMP"@) {
        Some(e1) => match blank1_at(s, e1 as int) {
            Some(e2) => match rawlabel_at(s, e2 as int) {
                Parsed::Done(label, e3) => {
                    let counted = match blank1_at(s, e3 as int) {
                        Some(e4) => count_at(s, e4 as int),
                        None => Parsed::Miss,
                    };
                    match counted {
                        Parsed::Done(count, e5) => Parsed::Done(
                            AsmView::Jump { label, count: Some(count) },
                            e5,
                        ),
                        _ => Parsed::Done(
                            AsmView::Jump { label, count: None },
                            run_end(s, e3 as int, CharClass::Blank) as usize,
                        ),
                    }
                },
                _ => Parsed::Miss,
            },
            None => Parsed::Miss,
        },
        None => Parsed::Miss,
    }
}

/// The label at place `pos`: `LABEL`, blanks, the label's name, a colon.
pub open spec fn label_at(s: Seq<char>, pos: int) -> Parsed<AsmView> {
    match after_tag_no_case(s, pos, "LABEL"@) {
        Some(e1) => match blank1_at(s, e1 as int) {
            Some(e2) => match rawlabel_at(s, e2 as int) {
                Parsed::Done(label, e3) => match after_tag(
                    s,
                    run_end(s, e3 as int, CharClass::Blank),
                    ":"@,
                ) {
                    Some(e4) => Parsed::Done(AsmView::Label(label), e4),
                    None => Parsed::Miss,
                },
                _ => Parsed::Miss,
            },
            None => Parsed::Miss,
        },
        None => Parsed::Miss,
    }
}

/// The command at place `pos` that sends a message: `SEND`, blanks, the
/// message, and the output, if one is named.
pub open spec fn sendmessage_at(s: Seq<char>, pos: int) -> Parsed<AsmView> {
    match after_tag_no_case(s, pos, "SEND"@) {
        Some(e1) => match blank1_at(s, e1 as int) {
            Some(e2) => match midimsg_at(s, e2 as int) {
                Parsed::Done(message, e3) => match outputlabel_at(
                    s,
                    run_end(s, e3 as int, CharClass::Blank),
                ) {
                    Parsed::Done(port, e4) => Parsed::Done(AsmView::Send { message, port }, e4),
                    _ => Parsed::Miss,
                },
                _ => Parsed::Miss,
            },
            None => Parsed::Miss,
        },
        None => Parsed::Miss,
    }
}

/// The wait at place `pos`: `WAIT`, blanks, a duration.
pub open spec fn wait_at(s: Seq<char>, pos: int) -> Parsed<AsmView> {
    match after_tag_no_case(s, pos, "WAIT"@) {
        Some(e1) => match blank1_at(s, e1 as int) {
            Some(e2) => match rawduration_at(s, e2 as int) {
                Parsed::Done(time, e3) => Parsed::Done(AsmView::Wait(time), e3),
                _ => Parsed::Miss,
            },
            None => Parsed::Miss,
        },
        None => Parsed::Miss,
    }
}

/// The low-level command at place `pos`: the first of send, timing, wait,
/// label and jump that stands there.
pub open spec fn asm_command_at(s: Seq<char>, pos: int) -> Parsed<AsmView> {
    if sendmessage_at(s, pos) is Done {
        sendmessage_at(s, pos)
    } else if setbpm_at(s, pos) is Done {
        setbpm_at(s, pos)
    } else if wait_at(s, pos) is Done {
        wait_at(s, pos)
    } else if label_at(s, pos) is Done {
        label_at(s, pos)
    } else {
        jump_at(s, pos)
    }
}

/// The place after the blanks at place `pos`, of which there must be one at
/// least.
pub fn blank1(src: &Source, pos: usize) -> (r: Option<usize>)
    requires
        src.wf(),
        pos <= src@.len(),
    ensures
        r == blank1_at(src@, pos as int),
        r matches Some(p) ==> pos < p <= src@.len(),
{
    let end = src.skip(pos, CharClass::Blank);
    if end > pos {
        Some(end)
    } else {
        None
    }
}

/// The place after the comma at place `pos`, with the blanks round it.
pub fn consume_commalist_seperator(src: &Source, pos: usize) -> (r: Option<usize>)
    requires
        src.wf(),
        pos <= src@.len(),
    ensures
        r == commalist_separator_at(src@, pos as int),
        r matches Some(p) ==> pos <= p <= src@.len(),
{
    let start = src.skip(pos, CharClass::Blank);
    match src.tag(start, ",") {
        Some(p) => Some(src.skip(p, CharClass::Blank)),
        None => None,
    }
}

/// The name at place `pos`.
pub fn parse_rawlabel(src: &Source, pos: usize) -> (r: Parsed<String>)
    requires
        src.wf(),
        pos <= src@.len(),
    ensures
        label_result_view(r) == rawlabel_at(src@, pos as int),
        r matches Parsed::Done(_, p) ==> pos < p <= src@.len(),
{
    let end = src.skip(pos, CharClass::Alpha);
    if end > pos {
        Parsed::Done(src.slice(pos, end), end)
    } else {
        Parsed::Miss
    }
}

fn parse_notemsg_args(src: &Source, pos: usize) -> (r: Parsed<
    (MidiChannel, MidiNote, PressVelocity),
>)
    requires
        src.wf(),
        pos <= src@.len(),
    ensures
        r == notemsg_args_at(src@, pos as int),
        r matches Parsed::Done(_, p) ==> pos < p <= src@.len(),
{
    let (channel, e1) = match parse_channel(src, pos) {
        Parsed::Done(c, p) => (c, p),
        _ => {
            return Parsed::Miss;
        },
    };
    let e2 = match consume_commalist_seperator(src, e1) {
        Some(p) => p,
        None => {
            return Parsed::Miss;
        },
    };
    let (class, octave, e3) = match parse_notepitch(src, e2) {
        Parsed::Done((c, o), p) => (c, o, p),
        _ => {
            return Parsed::Miss;
        },
    };
    let note = MidiNote::from_note_octave(class, octave);
    let e4 = match consume_commalist_seperator(src, e3) {
        Some(p) => p,
        None => {
            return Parsed::Miss;
        },
    };
    match parse_velocity(src, e4) {
        Parsed::Done(vel, e5) => Parsed::Done((channel, note, vel), e5),
        _ => Parsed::Miss,
    }
}

fn parse_notemsg(src: &Source, pos: usize, word: &str) -> (r: Parsed<
    (MidiChannel, MidiNote, PressVelocity),
>)
    requires
        src.wf(),
        pos <= src@.len(),
    ensures
        r == notemsg_at(src@, pos as int, word@),
        r matches Parsed::Done(_, p) ==> pos < p <= src@.len(),
{
    match src.tag_no_case(pos, word) {
        Some(p) => match blank1(src, p) {
            Some(q) => parse_notemsg_args(src, q),
            None => Parsed::Miss,
        },
        None => Parsed::Miss,
    }
}

/// The note-on at place `pos`.
pub fn parse_noteon(src: &Source, pos: usize) -> (r: Parsed<NoteOn>)
    requires
        src.wf(),
        pos <= src@.len(),
    ensures
        r == (match notemsg_at(src@, pos as int, "NOTEON"@) {
            Parsed::Done((channel, note, vel), p) => Parsed::Done(
                NoteOn { channel, note, vel },
                p,
            ),
            Parsed::Miss => Parsed::Miss,
            Parsed::Fatal => Parsed::Fatal,
        }),
        r matches Parsed::Done(_, p) ==> pos < p <= src@.len(),
{
    match parse_notemsg(src, pos, "NOTEON") {
        Parsed::Done((channel, note, vel), p) => Parsed::Done(NoteOn::new(channel, note, vel), p),
        Parsed::Miss => Parsed::Miss,
        Parsed::Fatal => Parsed::Fatal,
    }
}

/// The note-off at place `pos`.
pub fn parse_noteoff(src: &Source, pos: usize) -> (r: Parsed<NoteOff>)
    requires
        src.wf(),
        pos <= src@.len(),
    ensures
        r == (match notemsg_at(src@, pos as int, "NOTEOFF"@) {
            Parsed::Done((channel, note, vel), p) => Parsed::Done(
                NoteOff { channel, note, vel },
                p,
            ),
            Parsed::Miss => Parsed::Miss,
            Parsed::Fatal => Parsed::Fatal,
        }),
        r matches Parsed::Done(_, p) ==> pos < p <= src@.len(),
{
    match parse_notemsg(src, pos, "NOTEOFF") {
        Parsed::Done((channel, note, vel), p) => Parsed::Done(NoteOff::new(channel, note, vel), p),
        Parsed::Miss => Parsed::Miss,
        Parsed::Fatal => Parsed::Fatal,
    }
}

/// The message at place `pos`.
pub fn parse_midimsg(src: &Source, pos: usize) -> (r: Parsed<MidiMessage>)
    requires
        src.wf(),
        pos <= src@.len(),
    ensures
        r == midimsg_at(src@, pos as int),
        r matches Parsed::Done(_, p) ==> pos < p <= src@.len(),
{
    match parse_noteoff(src, pos) {
        Parsed::Done(off, p) => Parsed::Done(MidiMessage::NoteOff(off), p),
        _ => match parse_noteon(src, pos) {
            Parsed::Done(on, p) => Parsed::Done(MidiMessage::NoteOn(on), p),
            _ => Parsed::Miss,
        },
    }
}

/// The output that a command names at place `pos`.
pub fn parse_outputlabel(src: &Source, pos: usize) -> (r: Parsed<Option<OutputLabel>>)
    requires
        src.wf(),
        pos <= src@.len(),
    ensures
        output_result_view(r) == outputlabel_at(src@, pos as int),
        r matches Parsed::Done(_, p) && pos <= p <= src@.len(),
{
    let named = match consume_commalist_seperator(src, pos) {
        Some(e1) => match src.tag_no_case(e1, "output") {
            Some(e2) => match src.tag_no_case(src.skip(e2, CharClass::Blank), "=") {
                Some(e3) => parse_rawlabel(src, src.skip(e3, CharClass::Blank)),
                None => Parsed::Miss,
            },
            None => Parsed::Miss,
        },
        None => Parsed::Miss,
    };
    match named {
        Parsed::Done(name, p) => Parsed::Done(Some(OutputLabel(name)), p),
        _ => Parsed::Done(None, src.skip(pos, CharClass::Blank)),
    }
}

fn parse_setbpm(src: &Source, pos: usize) -> (r: Parsed<AsmCommand>)
    requires
        src.wf(),
        pos <= src@.len(),
    ensures
        asm_result_view(r) == setbpm_at(src@, pos as int),
        r matches Parsed::Done(_, p) ==> pos < p <= src@.len(),
{
    let e1 = match src.tag_no_case(pos, "SETBPM") {
        Some(p) => p,
        None => {
            return Parsed::Miss;
        },
    };
    let e2 = match blank1(src, e1) {
        Some(p) => p,
        None => {
            return Parsed::Miss;
        },
    };
    let (bpm, e3) = match src.nonzerou16(e2) {
        Parsed::Done(n, p) => (n, p),
        _ => {
            return Parsed::Miss;
        },
    };
    let e4 = match consume_commalist_seperator(src, e3) {
        Some(p) => p,
        None => {
            return Parsed::Miss;
        },
    };
    match src.nonzerou16(e4) {
        Parsed::Done(ticks, e5) => Parsed::Done(
            AsmCommand::SetBpm(BpmInfo { ticks_per_beat: ticks, beats_per_minute: bpm }),
            e5,
        ),
        _ => Parsed::Miss,
    }
}

fn parse_jump(src: &Source, pos: usize) -> (r: Parsed<AsmCommand>)
    requires
        src.wf(),
        pos <= src@.len(),
    ensures
        asm_result_view(r) == jump_at(src@, pos as int),
        r matches Parsed::Done(_, p) ==> pos < p <= src@.len(),
{
    let e1 = match src.tag_no_case(pos, "JUMP") {
        Some(p) => p,
        None => {
            return Parsed::Miss;
        },
    };
    let e2 = match blank1(src, e1) {
        Some(p) => p,
        None => {
            return Parsed::Miss;
        },
    };
    let (label, e3) = match parse_rawlabel(src, e2) {
        Parsed::Done(l, p) => (l, p),
        _ => {
            return Parsed::Miss;
        },
    };
    let counted = match blank1(src, e3) {
        Some(e4) => src.nonzerou16(e4),
        None => Parsed::Miss,
    };
    match counted {
        Parsed::Done(count, e5) => Parsed::Done(AsmCommand::Jump { label, count: Some(count) }, e5),
        _ => Parsed::Done(AsmCommand::Jump { label, count: None }, src.skip(e3, CharClass::Blank)),
    }
}

fn parse_label(src: &Source, pos: usize) -> (r: Parsed<AsmCommand>)
    requires
        src.wf(),
        pos <= src@.len(),
    ensures
        asm_result_view(r) == label_at(src@, pos as int),
        r matches Parsed::Done(_, p) ==> pos < p <= src@.len(),
{
    let e1 = match src.tag_no_case(pos, "LABEL") {
        Some(p) => p,
        None => {
            return Parsed::Miss;
        },
    };
    let e2 = match blank1(src, e1) {
        Some(p) => p,
        None => {
            return Parsed::Miss;
        },
    };
    let (label, e3) = match parse_rawlabel(src, e2) {
        Parsed::Done(l, p) => (l, p),
        _ => {
            return Parsed::Miss;
        },
    };
    match src.tag(src.skip(e3, CharClass::Blank), ":") {
        Some(e4) => Parsed::Done(AsmCommand::Label(label), e4),
        None => Parsed::Miss,
    }
}

fn parse_sendmessage(src: &Source, pos: usize) -> (r: Parsed<AsmCommand>)
    requires
        src.wf(),
        pos <= src@.len(),
    ensures
        asm_result_view(r) == sendmessage_at(src@, pos as int),
        r matches Parsed::Done(_, p) ==> pos < p <= src@.len(),
{
    let e1 = match src.tag_no_case(pos, "SEND") {
        Some(p) => p,
        None => {
            return Parsed::Miss;
        },
    };
    let e2 = match blank1(src, e1) {
        Some(p) => p,
        None => {
            return Parsed::Miss;
        },
    };
    let (message, e3) = match parse_midimsg(src, e2) {
        Parsed::Done(m, p) => (m, p),
        _ => {
            return Parsed::Miss;
        },
    };
    match parse_outputlabel(src, src.skip(e3, CharClass::Blank)) {
        Parsed::Done(port, e4) => Parsed::Done(AsmCommand::Send { message, port }, e4),
        _ => Parsed::Miss,
    }
}

fn parse_wait(src: &Source, pos: usize) -> (r: Parsed<AsmCommand>)
    requires
        src.wf(),
        pos <= src@.len(),
    ensures
        asm_result_view(r) == wait_at(src@, pos as int),
        r matches Parsed::Done(_, p) ==> pos < p <= src@.len(),
{
    let e1 = match src.tag_no_case(pos, "WAIT") {
        Some(p) => p,
        None => {
            return Parsed::Miss;
        },
    };
    let e2 = match blank1(src, e1) {
        Some(p) => p,
        None => {
            return Parsed::Miss;
        },
    };
    match parse_rawduration(src, e2) {
        Parsed::Done(time, e3) => Parsed::Done(AsmCommand::Wait(time), e3),
        _ => Parsed::Miss,
    }
}

/// The low-level command at place `pos`.
pub fn parse_asm_command(src: &Source, pos: usize) -> (r: Parsed<AsmCommand>)
    requires
        src.wf(),
        pos <= src@.len(),
    ensures
        asm_result_view(r) == asm_command_at(src@, pos as int),
        r matches Parsed::Done(_, p) ==> pos < p <= src@.len(),
        !(r is Fatal),
{
    match parse_sendmessage(src, pos) {
        Parsed::Done(cmd, p) => {
            return Parsed::Done(cmd, p);
        },
        _ => {},
    }
    match parse_setbpm(src, pos) {
        Parsed::Done(cmd, p) => {
            return Parsed::Done(cmd, p);
        },
        _ => {},
    }
    match parse_wait(src, pos) {
        Parsed::Done(cmd, p) => {
            return Parsed::Done(cmd, p);
        },
        _ => {},
    }
    match parse_label(src, pos) {
        Parsed::Done(cmd, p) => {
            return Parsed::Done(cmd, p);
        },
        _ => {},
    }
    match parse_jump(src, pos) {
        Parsed::Done(cmd, p) => Parsed::Done(cmd, p),
        _ => Parsed::Miss,
    }
}

} // verus!
