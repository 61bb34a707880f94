//! What holds of every track that the compiler builds.

use super::ast::same_output;
use super::ast::AsmCommand;
use super::ast::ChordPress;
use super::ast::LangItem;
use super::ast::OutputLabel;
use super::ast::PressLine;
use super::ast::SongAttribute;
use super::compiler::chord_pitches;
use super::compiler::chord_steps;
use super::compiler::compiled;
use super::compiler::label_position;
use super::compiler::loop_count;
use super::compiler::note_events;
use super::compiler::port_position;
use super::compiler::retargeted;
use super::compiler::CompilerState;
use crate::track::cursor::lemma_initial_playable;
use crate::track::cursor::lemma_run_playable;
use crate::track::cursor::run_spec;
use crate::track::cursor::CursorState;
use crate::track::cursor::TimedMessage;
use crate::track::valid_track;
use crate::track::ClockTime;
use crate::track::TrackEvent;
use vstd::prelude::*;

verus! {

/// Whether the jump at place `i` is noted for later in `backlog`.
pub open spec fn pending(backlog: Seq<(usize, String)>, i: int) -> bool {
    exists|j: int| 0 <= j < backlog.len() && (#[trigger] backlog[j]).0 == i
}

/// Whether the state of a compiler is sound:
/// the track fits the machine and holds no end instruction; each of its
/// jumps points into it or just behind it, or is noted for later; what is
/// noted for later is a jump of the track; each label marks a place in the
/// track or just behind it; no output has two ports; and each message leaves
/// by a port that has an output.
pub open spec fn sound(st: CompilerState) -> bool {
    &&& st.track.len() <= usize::MAX
    &&& forall|i: int| 0 <= i < st.track.len() ==> !(#[trigger] st.track[i] is End)
    &&& forall|i: int|
        0 <= i < st.track.len() ==> (#[trigger] st.track[i] matches TrackEvent::Jump { target, .. }
            ==> target <= st.track.len() || pending(st.backlog, i))
    &&& forall|j: int|
        0 <= j < st.backlog.len() ==> (#[trigger] st.backlog[j]).0 < st.track.len()
            && st.track[st.backlog[j].0 as int] is Jump
    &&& forall|l: int| 0 <= l < st.labels.len() ==> (#[trigger] st.labels[l]).1 <= st.track.len()
    &&& forall|i: int, j: int|
        0 <= i < j < st.ports.len() ==> !same_output(#[trigger] st.ports[i], #[trigger] st.ports[j])
    &&& forall|i: int|
        0 <= i < st.track.len() ==> (#[trigger] st.track[i] matches TrackEvent::SendMessage {
            port,
            ..
        } ==> port.idx < st.ports.len())
}

/// Whether `b` has grown out of `a`: it has all that `a` has, in the same
/// places.
pub open spec fn grown(a: CompilerState, b: CompilerState) -> bool {
    &&& a.track.len() <= b.track.len()
    &&& a.ports.len() <= b.ports.len()
}

/// Where `port_position` points.
pub proof fn lemma_port_position(
    ports: Seq<Option<OutputLabel>>,
    label: Option<OutputLabel>,
    from: int,
)
    requires
        0 <= from <= ports.len(),
    ensures
        from <= port_position(ports, label, from) <= ports.len(),
        port_position(ports, label, from) < ports.len() ==> same_output(
            ports[port_position(ports, label, from)],
            label,
        ),
        forall|i: int|
            from <= i < port_position(ports, label, from) ==> !same_output(
                #[trigger] ports[i],
                label,
            ),
    decreases ports.len() - from,
{
    if from < ports.len() && !same_output(ports[from], label) {
        lemma_port_position(ports, label, from + 1);
    }
}

/// Where `label_position` points.
pub proof fn lemma_label_position(labels: Seq<(String, usize)>, name: Seq<char>, from: int)
    requires
        0 <= from <= labels.len(),
    ensures
        from <= label_position(labels, name, from) <= labels.len(),
    decreases labels.len() - from,
{
    if from < labels.len() && labels[from].0@ != name {
        lemma_label_position(labels, name, from + 1);
    }
}

/// A sound state stays sound when its track grows by instructions that are
/// no end, no jump, and no message by a port without an output.
pub proof fn lemma_appended_sound(st: CompilerState, more: Seq<TrackEvent>)
    requires
        sound(st),
        st.track.len() + more.len() <= usize::MAX,
        forall|k: int|
            0 <= k < more.len() ==> !(#[trigger] more[k] is End) && !(more[k] is Jump) && (
            more[k] matches TrackEvent::SendMessage { port, .. } ==> port.idx < st.ports.len()),
    ensures
        sound(CompilerState { track: st.track + more, ..st }),
{
    let after = CompilerState { track: st.track + more, ..st };
    assert forall|i: int| 0 <= i < after.track.len() implies !(#[trigger] after.track[i] is End)
        && (after.track[i] matches TrackEvent::Jump { target, .. } ==> target <= after.track.len()
        || pending(after.backlog, i)) && (after.track[i] matches TrackEvent::SendMessage {
        port,
        ..
    } ==> port.idx < after.ports.len()) by {
        if i < st.track.len() {
            assert(after.track[i] == st.track[i]);
        } else {
            assert(after.track[i] == more[i - st.track.len()]);
        }
    }
    assert forall|j: int| 0 <= j < after.backlog.len() implies (#[trigger] after.backlog[j]).0
        < after.track.len() && after.track[after.backlog[j].0 as int] is Jump by {
        assert(after.track[st.backlog[j].0 as int] == st.track[st.backlog[j].0 as int]);
    }
}

/// A sound state stays sound when one such instruction is put at the end of
/// its track.
pub proof fn lemma_event_sound(st: CompilerState, event: TrackEvent)
    requires
        sound(st),
        st.track.len() + 1 <= usize::MAX,
        !(event is End),
        !(event is Jump),
        event matches TrackEvent::SendMessage { port, .. } ==> port.idx < st.ports.len(),
    ensures
        sound(st.with_event(event)),
{
    lemma_appended_sound(st, seq![event]);
    assert(st.track + seq![event] =~= st.track.push(event));
}

/// A sound state stays sound when an output is looked up in it, and the
/// port that comes back has an output.
pub proof fn lemma_port_sound(st: CompilerState, label: Option<OutputLabel>)
    requires
        sound(st),
    ensures
        sound(st.with_port(label).0),
        st.with_port(label).1.idx < st.with_port(label).0.ports.len(),
        st.with_port(label).0.track == st.track,
        st.with_port(label).0.backlog == st.backlog,
        st.with_port(label).0.labels == st.labels,
        st.with_port(label).0.attributes == st.attributes,
        st.ports.len() <= st.with_port(label).0.ports.len(),
{
    lemma_port_position(st.ports, label, 0);
    let pos = port_position(st.ports, label, 0);
    let after = st.with_port(label).0;
    if pos >= st.ports.len() {
        assert forall|i: int, j: int| 0 <= i < j < after.ports.len() implies !same_output(
            #[trigger] after.ports[i],
            #[trigger] after.ports[j],
        ) by {
            if j < st.ports.len() {
                assert(after.ports[i] == st.ports[i]);
                assert(after.ports[j] == st.ports[j]);
            } else {
                assert(after.ports[i] == st.ports[i]);
                assert(!same_output(st.ports[i], label));
            }
        }
    }
}

/// A sound state stays sound when a chord is pressed.
pub proof fn lemma_press_sound(st: CompilerState, line: PressLine, press: ChordPress)
    requires
        sound(st),
        st.with_press(line, press).track.len() <= usize::MAX,
    ensures
        sound(st.with_press(line, press)),
        grown(st, st.with_press(line, press)),
        st.with_press(line, press).attributes == st.attributes,
{
    let label = st.press_output(line, press);
    lemma_port_sound(st, label);
    let (known, port) = st.with_port(label);
    let more = note_events(
        chord_pitches(press.root, press.octave, press.kind, chord_steps(press.kind).len()),
        st.press_channel(line, press),
        st.press_velocity(line, press),
        port,
    );
    lemma_appended_sound(known, more);
}

/// A sound state stays sound when the first `n` chords of a line are
/// pressed.
pub proof fn lemma_presses_sound(st: CompilerState, line: PressLine, n: nat)
    requires
        sound(st),
        st.with_presses(line, n).track.len() <= usize::MAX,
    ensures
        sound(st.with_presses(line, n)),
        grown(st, st.with_presses(line, n)),
        st.with_presses(line, n).attributes == st.attributes,
    decreases n,
{
    if n == 0 || n > line.presses@.len() {
    } else {
        let before = st.with_presses(line, (n - 1) as nat);
        let press = line.presses@[n - 1];
        lemma_press_grows(before, line, press);
        lemma_presses_sound(st, line, (n - 1) as nat);
        lemma_press_sound(before, line, press);
    }
}

/// Pressing a chord makes the track no shorter.
pub proof fn lemma_press_grows(st: CompilerState, line: PressLine, press: ChordPress)
    ensures
        st.track.len() <= st.with_press(line, press).track.len(),
{
}

/// A state never holds less after an item than before it.
pub proof fn lemma_item_grows(st: CompilerState, item: LangItem)
    ensures
        st.track.len() <= st.with_item(item).0.track.len(),
    decreases item, 0nat,
{
    match item {
        LangItem::Loop { expr, repititions } => {
            lemma_items_grow(st, expr@, expr@.len());
        },
        LangItem::NotePress(data) => {
            lemma_presses_grow(st, data, data.presses@.len());
        },
        _ => {},
    }
}

/// Pressing the first `n` chords of a line makes the track no shorter.
pub proof fn lemma_presses_grow(st: CompilerState, line: PressLine, n: nat)
    ensures
        st.track.len() <= st.with_presses(line, n).track.len(),
    decreases n,
{
    if n == 0 || n > line.presses@.len() {
    } else {
        lemma_presses_grow(st, line, (n - 1) as nat);
    }
}

/// A state never holds less after some items than before them.
pub proof fn lemma_items_grow(st: CompilerState, items: Seq<LangItem>, n: nat)
    ensures
        st.track.len() <= st.with_items(items, n).0.track.len(),
    decreases items, n,
{
    if n == 0 || n > items.len() {
    } else {
        lemma_items_grow(st, items, (n - 1) as nat);
        let (before, done) = st.with_items(items, (n - 1) as nat);
        if done is Ok {
            lemma_item_grows(before, items[n - 1]);
        }
    }
}

/// A sound state stays sound when a jump is put at the end of its track
/// that points into the track or just behind it.
pub proof fn lemma_jump_sound(st: CompilerState, event: TrackEvent)
    requires
        sound(st),
        st.track.len() + 1 <= usize::MAX,
        event matches TrackEvent::Jump { target, .. } && target <= st.track.len(),
    ensures
        sound(st.with_event(event)),
{
    let after = st.with_event(event);
    assert forall|i: int| 0 <= i < after.track.len() implies !(#[trigger] after.track[i] is End)
        && (after.track[i] matches TrackEvent::Jump { target, .. } ==> target <= after.track.len()
        || pending(after.backlog, i)) && (after.track[i] matches TrackEvent::SendMessage {
        port,
        ..
    } ==> port.idx < after.ports.len()) by {
        if i < st.track.len() {
            assert(after.track[i] == st.track[i]);
        }
    }
    assert forall|j: int| 0 <= j < after.backlog.len() implies (#[trigger] after.backlog[j]).0
        < after.track.len() && after.track[after.backlog[j].0 as int] is Jump by {
        assert(after.track[st.backlog[j].0 as int] == st.track[st.backlog[j].0 as int]);
    }
}

/// A sound state stays sound when a jump to a label is compiled.
pub proof fn lemma_label_jump_sound(
    st: CompilerState,
    count: Option<crate::utils::NonZeroU16>,
    label: String,
)
    requires
        sound(st),
        st.track.len() + 1 <= usize::MAX,
    ensures
        sound(st.with_jump(count, label)),
{
    lemma_label_position(st.labels, label@, 0);
    let after = st.with_jump(count, label);
    match st.label_target(label@) {
        Some(target) => {
            let pos = label_position(st.labels, label@, 0);
            assert(st.labels[pos].1 <= st.track.len());
            lemma_jump_sound(st, TrackEvent::Jump { count, target });
        },
        None => {
            let here = st.track.len() as int;
            assert forall|i: int| 0 <= i < after.track.len() implies !(
            #[trigger] after.track[i] is End) && (after.track[i] matches TrackEvent::Jump {
                target,
                ..
            } ==> target <= after.track.len() || pending(after.backlog, i)) && (
            after.track[i] matches TrackEvent::SendMessage { port, .. } ==> port.idx
                < after.ports.len()) by {
                if i < st.track.len() {
                    assert(after.track[i] == st.track[i]);
                    if pending(st.backlog, i) {
                        let j = choose|j: int|
                            0 <= j < st.backlog.len() && (#[trigger] st.backlog[j]).0 == i;
                        assert(after.backlog[j].0 == i);
                    }
                } else {
                    assert(after.backlog[st.backlog.len() as int].0 == i);
                }
            }
            assert forall|j: int| 0 <= j < after.backlog.len() implies (
            #[trigger] after.backlog[j]).0 < after.track.len()
                && after.track[after.backlog[j].0 as int] is Jump by {
                if j < st.backlog.len() {
                    assert(after.backlog[j] == st.backlog[j]);
                    assert(after.track[st.backlog[j].0 as int] == st.track[st.backlog[j].0 as int]);
                } else {
                    assert(after.track[here] is Jump);
                }
            }
        },
    }
}

/// A sound state stays sound when a label is set.
pub proof fn lemma_set_label_sound(st: CompilerState, name: String)
    requires
        sound(st),
    ensures
        sound(st.with_label(name).0),
        st.with_label(name).0.track == st.track,
{
    let after = st.with_label(name).0;
    if st.label_target(name@) is None {
        assert forall|l: int| 0 <= l < after.labels.len() implies (#[trigger] after.labels[l]).1
            <= after.track.len() by {
            if l < st.labels.len() {
                assert(after.labels[l] == st.labels[l]);
            }
        }
    }
}

/// A sound state stays sound when an attribute is set.
pub proof fn lemma_attribute_sound(st: CompilerState, attr: SongAttribute)
    requires
        sound(st),
        st.with_attribute(attr).0.track.len() <= usize::MAX,
    ensures
        sound(st.with_attribute(attr).0),
{
    if st.header_open() {
        match st.attributes.pushed(attr) {
            Err(e) => {},
            Ok(attributes) => {
                let recorded = CompilerState { attributes, ..st };
                assert(sound(recorded));
                match attr {
                    SongAttribute::Signature(bpm) => {
                        lemma_event_sound(recorded, TrackEvent::SetBpm(bpm));
                    },
                    _ => {},
                }
            },
        }
    }
}

/// A sound state stays sound through an item of a song, whether the item
/// compiles or fails.
pub proof fn lemma_item_sound(st: CompilerState, item: LangItem)
    requires
        sound(st),
        st.with_item(item).0.track.len() <= usize::MAX,
    ensures
        sound(st.with_item(item).0),
    decreases item, 0nat,
{
    match item {
        LangItem::Loop { expr, repititions } => {
            let (body, done) = st.with_items(expr@, expr@.len());
            lemma_items_grow(st, expr@, expr@.len());
            lemma_items_sound(st, expr@, expr@.len());
            if done is Ok {
                lemma_jump_sound(
                    body,
                    TrackEvent::Jump {
                        target: st.track.len() as usize,
                        count: loop_count(repititions),
                    },
                );
            }
        },
        LangItem::NotePress(data) => {
            let pressed = st.with_presses(data, data.presses@.len());
            lemma_presses_sound(st, data, data.presses@.len());
            lemma_event_sound(
                pressed,
                TrackEvent::Wait(
                    crate::track::WaitTime::Ticks(crate::utils::NonZeroU16::of(1)),
                ),
            );
        },
        LangItem::Wait(dur) => {
            lemma_event_sound(st, TrackEvent::Wait(dur));
        },
        LangItem::Asm(AsmCommand::Wait(dur)) => {
            lemma_event_sound(st, TrackEvent::Wait(dur));
        },
        LangItem::Asm(AsmCommand::SetBpm(bpm)) => {
            lemma_event_sound(st, TrackEvent::SetBpm(bpm));
        },
        LangItem::Asm(AsmCommand::Label(lbl)) => {
            lemma_set_label_sound(st, lbl);
        },
        LangItem::Asm(AsmCommand::Send { message, port }) => {
            lemma_port_sound(st, port);
            let (known, port_idx) = st.with_port(port);
            lemma_event_sound(known, TrackEvent::SendMessage { message, port: port_idx });
        },
        LangItem::Asm(AsmCommand::Jump { count, label }) => {
            lemma_label_jump_sound(st, count, label);
        },
        LangItem::SetAttribute(attr) => {
            lemma_attribute_sound(st, attr);
        },
    }
}

/// A sound state stays sound through the items of a song.
pub proof fn lemma_items_sound(st: CompilerState, items: Seq<LangItem>, n: nat)
    requires
        sound(st),
        st.with_items(items, n).0.track.len() <= usize::MAX,
    ensures
        sound(st.with_items(items, n).0),
    decreases items, n,
{
    if n == 0 || n > items.len() {
    } else {
        let (before, done) = st.with_items(items, (n - 1) as nat);
        if done is Ok {
            lemma_item_grows(before, items[n - 1]);
            lemma_items_sound(st, items, (n - 1) as nat);
            lemma_item_sound(before, items[n - 1]);
        } else {
            lemma_items_sound(st, items, (n - 1) as nat);
        }
    }
}

/// Pointing jumps at their labels leaves the track as long as it was.
pub proof fn lemma_resolved_len(st: CompilerState, n: nat)
    ensures
        st.resolved(n).0.len() == st.track.len(),
    decreases n,
{
    if n == 0 || n > st.backlog.len() {
    } else {
        lemma_resolved_len(st, (n - 1) as nat);
    }
}

/// Whether the jump at place `i` is among those noted for later from place
/// `from` of `backlog` on.
pub open spec fn pending_from(backlog: Seq<(usize, String)>, i: int, from: int) -> bool {
    exists|j: int| from <= j < backlog.len() && (#[trigger] backlog[j]).0 == i
}

/// Whether a state is that of a sound compiler whose track was then closed
/// by the end instruction.
pub open spec fn closed_sound(st: CompilerState) -> bool {
    &&& 1 <= st.track.len() <= usize::MAX
    &&& st.track.last() is End
    &&& forall|i: int| 0 <= i < st.track.len() - 1 ==> !(#[trigger] st.track[i] is End)
    &&& forall|i: int|
        0 <= i < st.track.len() ==> (#[trigger] st.track[i] matches TrackEvent::Jump { target, .. }
            ==> target < st.track.len() || pending_from(st.backlog, i, 0))
    &&& forall|j: int|
        0 <= j < st.backlog.len() ==> (#[trigger] st.backlog[j]).0 < st.track.len()
            && st.track[st.backlog[j].0 as int] is Jump
    &&& forall|l: int| 0 <= l < st.labels.len() ==> (#[trigger] st.labels[l]).1 < st.track.len()
}

/// A sound state whose track is closed by the end instruction is closed and
/// sound.
pub proof fn lemma_closed_sound(st: CompilerState)
    requires
        sound(st),
        st.track.len() + 1 <= usize::MAX,
    ensures
        closed_sound(st.with_event(TrackEvent::End)),
{
    let after = st.with_event(TrackEvent::End);
    assert forall|i: int| 0 <= i < after.track.len() implies (
    #[trigger] after.track[i] matches TrackEvent::Jump { target, .. } ==> target
        < after.track.len() || pending_from(after.backlog, i, 0)) by {
        if i < st.track.len() {
            assert(after.track[i] == st.track[i]);
            if pending(st.backlog, i) {
                let j = choose|j: int|
                    0 <= j < st.backlog.len() && (#[trigger] st.backlog[j]).0 == i;
                assert(after.backlog[j].0 == i);
            }
        }
    }
    assert forall|i: int| 0 <= i < after.track.len() - 1 implies !(
    #[trigger] after.track[i] is End) by {
        assert(after.track[i] == st.track[i]);
    }
    assert forall|j: int| 0 <= j < after.backlog.len() implies (#[trigger] after.backlog[j]).0
        < after.track.len() && after.track[after.backlog[j].0 as int] is Jump by {
        assert(after.track[st.backlog[j].0 as int] == st.track[st.backlog[j].0 as int]);
    }
}

/// What holds of the track of a closed and sound state after the first `n`
/// of the jumps noted for later were pointed at their labels: no instruction
/// has changed its kind, nothing but the targets of jumps has changed, and
/// every jump points into the track or is still among those noted from
/// place `n` on.
pub proof fn lemma_resolved_shape(st: CompilerState, n: nat)
    requires
        closed_sound(st),
        n <= st.backlog.len(),
    ensures
        st.resolved(n).0.len() == st.track.len(),
        forall|i: int|
            0 <= i < st.track.len() ==> (#[trigger] st.resolved(n).0[i] is Jump
                <==> st.track[i] is Jump),
        forall|i: int|
            0 <= i < st.track.len() && !(st.track[i] is Jump) ==> #[trigger] st.resolved(n).0[i]
                == st.track[i],
        st.resolved(n).1 is Ok ==> forall|i: int|
            0 <= i < st.track.len() ==> (#[trigger] st.resolved(n).0[i] matches TrackEvent::Jump {
                target,
                ..
            } ==> target < st.track.len() || pending_from(st.backlog, i, n as int)),
    decreases n,
{
    if n == 0 {
    } else {
        lemma_resolved_shape(st, (n - 1) as nat);
        let (track, done) = st.resolved((n - 1) as nat);
        if done is Ok {
            let (idx, name) = st.backlog[n - 1];
            lemma_label_position(st.labels, name@, 0);
            match st.label_target(name@) {
                None => {},
                Some(target) => {
                    let pos = label_position(st.labels, name@, 0);
                    assert(st.labels[pos].1 < st.track.len());
                    let after = retargeted(track, idx, target);
                    assert(st.backlog[n - 1].0 == idx);
                    assert(track[idx as int] is Jump);
                    assert forall|i: int| 0 <= i < st.track.len() implies (
                    #[trigger] after[i] matches TrackEvent::Jump { target: t, .. } ==> t
                        < st.track.len() || pending_from(st.backlog, i, n as int)) by {
                        if i != idx {
                            assert(after[i] == track[i]);
                            if track[i] matches TrackEvent::Jump { target: t, .. } && !(t
                                < st.track.len()) {
                                assert(pending_from(st.backlog, i, n - 1));
                                let j = choose|j: int|
                                    n - 1 <= j < st.backlog.len() && (
                                    #[trigger] st.backlog[j]).0 == i;
                                assert(j != n - 1);
                            }
                        }
                    }
                },
            }
        }
    }
}

/// What holds of every track that the compiler hands out: it ends with the
/// end instruction and holds no other; every jump points at one of its
/// instructions; no output has two ports; and every message leaves by a port
/// that has an output.
pub proof fn lemma_compiled_valid(song: Seq<LangItem>)
    requires
        compiled(song) is Ok,
        compiled(song)->Ok_0.0.len() <= usize::MAX,
    ensures
        valid_track(compiled(song)->Ok_0.0),
        forall|i: int|
            0 <= i < compiled(song)->Ok_0.0.len() - 1 ==> !(#[trigger] compiled(
                song,
            )->Ok_0.0[i] is End),
        forall|i: int, j: int|
            0 <= i < j < compiled(song)->Ok_0.1.len() ==> !same_output(
                #[trigger] compiled(song)->Ok_0.1[i],
                #[trigger] compiled(song)->Ok_0.1[j],
            ),
        forall|i: int|
            0 <= i < compiled(song)->Ok_0.0.len() ==> (#[trigger] compiled(
                song,
            )->Ok_0.0[i] matches TrackEvent::SendMessage { port, .. } ==> port.idx < compiled(
                song,
            )->Ok_0.1.len()),
{
    let start = CompilerState::empty();
    let (body, done) = start.with_items(song, song.len());
    let closed = body.with_event(TrackEvent::End);
    let (track, fixed) = closed.resolved(closed.backlog.len());
    lemma_resolved_len(closed, closed.backlog.len());
    assert(sound(start));
    lemma_items_sound(start, song, song.len());
    lemma_closed_sound(body);
    lemma_resolved_shape(closed, closed.backlog.len());
    assert forall|i: int| 0 <= i < track.len() implies (
    #[trigger] track[i] matches TrackEvent::Jump { target, .. } ==> target < track.len()) by {
        if track[i] matches TrackEvent::Jump { target, .. } {
            assert(!pending_from(closed.backlog, i, closed.backlog.len() as int));
        }
    }
    assert forall|i: int| 0 <= i < track.len() implies (
    #[trigger] track[i] matches TrackEvent::SendMessage { port, .. } ==> port.idx
        < closed.ports.len()) by {
        if i < body.track.len() {
            assert(closed.track[i] == body.track[i]);
        }
    }
    assert forall|i: int| 0 <= i < track.len() - 1 implies !(#[trigger] track[i] is End) by {
        assert(!(closed.track[i] is End));
    }
}

/// A cursor that plays a compiled track from its start never fails, however
/// far and however long it is driven.
pub proof fn lemma_compiled_plays(song: Seq<LangItem>, end: ClockTime, fuel: nat)
    requires
        compiled(song) is Ok,
        compiled(song)->Ok_0.0.len() <= usize::MAX,
    ensures
        run_spec(
            compiled(song)->Ok_0.0,
            CursorState::initial(compiled(song)->Ok_0.0),
            end,
            fuel,
            Seq::<TimedMessage>::empty(),
        ).1 is Ok,
{
    let track = compiled(song)->Ok_0.0;
    lemma_compiled_valid(song);
    lemma_initial_playable(track);
    lemma_run_playable(track, CursorState::initial(track), end, fuel, Seq::empty());
}

} // verus!
