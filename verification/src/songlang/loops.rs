//! How often a compiled loop plays its body.

use super::ast::ChordKind;
use super::ast::ChordPress;
use super::ast::LangItem;
use super::ast::OutputLabel;
use super::ast::PressLine;
use super::chords::lemma_chord_root;
use super::compiler::chord_pitches;
use super::compiler::chord_steps;
use super::compiler::compiled;
use super::compiler::loop_count;
use super::compiler::note_events;
use super::compiler::port_position;
use super::compiler::CompilerError;
use super::compiler::CompilerState;
use crate::midi::MidiMessage;
use crate::midi::MidiNote;
use crate::midi::NoteOn;
use crate::track::cursor::run_spec;
use crate::track::cursor::CursorState;
use crate::track::loops::lemma_loop_plays;
use crate::track::loops::never;
use crate::track::loops::one_message_loop;
use crate::track::OutputPort;
use crate::track::TrackEvent;
use crate::track::WaitTime;
use crate::utils::NonZeroU16;
use vstd::prelude::*;

verus! {

broadcast use crate::utils::group_nonzero;

/// Whether `item` is a loop of `passes` passes whose body is the one line
/// `line`, which presses the one chord `press`, a single note.
pub open spec fn is_one_note_loop(
    item: LangItem,
    line: PressLine,
    press: ChordPress,
    passes: NonZeroU16,
) -> bool {
    &&& item matches LangItem::Loop { expr, repititions } && repititions == Some(passes)
        && expr@.len() == 1 && expr@[0] == LangItem::NotePress(line)
    &&& line.presses@.len() == 1
    &&& line.presses@[0] == press
    &&& press.kind == ChordKind::Raw
}

/// The note-on that a song which sets no attributes presses for the chord
/// `press` of the line `line`, a single note.
pub open spec fn single_note(line: PressLine, press: ChordPress) -> MidiMessage {
    MidiMessage::NoteOn(
        NoteOn {
            channel: CompilerState::empty().press_channel(line, press),
            note: MidiNote::at(press.root, press.octave),
            vel: CompilerState::empty().press_velocity(line, press),
        },
    )
}

/// A song that is one loop of one note compiles to the note-on, the wait of
/// one tick, the jump back with a count of one less than the loop's passes
/// (but at least 1), and the end instruction; its one output gets port 0.
pub proof fn lemma_loop_compiles(
    item: LangItem,
    line: PressLine,
    press: ChordPress,
    passes: NonZeroU16,
)
    requires
        is_one_note_loop(item, line, press, passes),
    ensures
        compiled(seq![item]) == Ok::<(Seq<TrackEvent>, Seq<Option<OutputLabel>>), CompilerError>(
            (
                one_message_loop(
                    single_note(line, press),
                    OutputPort { idx: 0 },
                    WaitTime::Ticks(NonZeroU16::of(1)),
                    loop_count(Some(passes))->Some_0,
                ),
                seq![CompilerState::empty().press_output(line, press)],
            ),
        ),
{
    let start = CompilerState::empty();
    let song = seq![item];
    let body = item->Loop_expr@;
    let label = start.press_output(line, press);
    let count = loop_count(Some(passes))->Some_0;
    let port = OutputPort { idx: 0 };
    lemma_chord_root(press.root, press.octave, press.kind);
    let notes = chord_pitches(press.root, press.octave, press.kind, chord_steps(press.kind).len());
    assert(notes =~= seq![MidiNote::at(press.root, press.octave)]);
    // the one chord
    assert(port_position(start.ports, label, 0) == 0);
    let (known, got) = start.with_port(label);
    assert(got == port);
    assert(known.ports =~= seq![label]);
    let send = TrackEvent::SendMessage { message: single_note(line, press), port };
    let events = note_events(
        notes,
        start.press_channel(line, press),
        start.press_velocity(line, press),
        port,
    );
    assert(events =~= seq![send]);
    let pressed = start.with_press(line, press);
    assert(pressed.track =~= seq![send]);
    assert(start.with_presses(line, 0) == start);
    assert(start.with_presses(line, 1) == pressed);
    // the line
    let wait = TrackEvent::Wait(WaitTime::Ticks(NonZeroU16::of(1)));
    let lined = start.with_pressline(line);
    assert(lined.track =~= seq![send, wait]);
    assert(start.with_item(LangItem::NotePress(line)) == (lined, Ok::<(), CompilerError>(())));
    // the loop's body
    assert(start.with_items(body, 0) == (start, Ok::<(), CompilerError>(())));
    assert(start.with_items(body, 1) == (lined, Ok::<(), CompilerError>(())));
    // the loop
    let jump = TrackEvent::Jump { target: 0, count: Some(count) };
    let looped = lined.with_event(jump);
    assert(start.with_item(item) == (looped, Ok::<(), CompilerError>(())));
    assert(looped.track =~= seq![send, wait, jump]);
    // the song
    assert(start.with_items(song, 0) == (start, Ok::<(), CompilerError>(())));
    assert(start.with_items(song, 1) == (looped, Ok::<(), CompilerError>(())));
    let closed = looped.with_event(TrackEvent::End);
    assert(closed.backlog.len() == 0);
    assert(closed.track =~= one_message_loop(
        single_note(line, press),
        port,
        WaitTime::Ticks(NonZeroU16::of(1)),
        count,
    ));
}

/// A loop of `passes` passes, for two passes and more, whose body presses a
/// single note, plays that note exactly `passes` times: so often does a
/// cursor that plays the compiled song from the start, with the steps for it
/// and without a limit of time, send the note-on.
pub proof fn lemma_loop_repeats(
    item: LangItem,
    line: PressLine,
    press: ChordPress,
    passes: NonZeroU16,
    fuel: nat,
)
    requires
        is_one_note_loop(item, line, press, passes),
        passes.wf(),
        passes.value() >= 2,
        fuel >= 3 * passes.value() + 1,
    ensures
        compiled(seq![item]) is Ok,
        run_spec(
            compiled(seq![item])->Ok_0.0,
            CursorState::initial(compiled(seq![item])->Ok_0.0),
            never(),
            fuel,
            Seq::empty(),
        ).1 is Ok,
        ({
            let all = run_spec(
                compiled(seq![item])->Ok_0.0,
                CursorState::initial(compiled(seq![item])->Ok_0.0),
                never(),
                fuel,
                Seq::empty(),
            ).1->Ok_0;
            &&& all.len() == passes.value()
            &&& forall|i: int| 0 <= i < all.len() ==> (#[trigger] all[i]).2 == single_note(line, press)
        }),
{
    lemma_loop_compiles(item, line, press, passes);
    let count = loop_count(Some(passes))->Some_0;
    assert(count.value() == passes.value() - 1);
    lemma_loop_plays(
        single_note(line, press),
        OutputPort { idx: 0 },
        WaitTime::Ticks(NonZeroU16::of(1)),
        count,
        fuel,
    );
}

} // verus!
