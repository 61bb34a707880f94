//! What holds of the notes that a chord is compiled to.

use super::ast::ChordKind;
use super::compiler::chord_class;
use super::compiler::chord_pitches;
use super::compiler::chord_steps;
use crate::midi::MidiNote;
use crate::model::lemma_index_injective;
use crate::model::major_offsets;
use crate::model::minor_offsets;
use crate::model::NoteClass;
use crate::model::Octave;
use vstd::prelude::*;

verus! {

broadcast use {crate::midi::group_midi_values, crate::model::group_octave};

/// The semitones above its root of the notes of a chord of the kind `kind`,
/// upward.
pub open spec fn chord_semitones(kind: ChordKind) -> Seq<int> {
    match kind {
        ChordKind::Raw => seq![0],
        ChordKind::Fifth => seq![0, 7],
        ChordKind::Major => seq![0, 4, 7],
        ChordKind::Minor => seq![0, 3, 7],
        ChordKind::Major7 => seq![0, 4, 7, 12],
        ChordKind::Minor7 => seq![0, 3, 7, 12],
    }
}

/// The number of the root's note before any wrapping: `(octave + 1) * 12`
/// plus the index of the root's class.
pub open spec fn root_number(root: NoteClass, octave: Octave) -> int {
    (octave.value() + 1) * 12 + root.index()
}

/// The first note of a compiled chord is the root's note in the chord's
/// octave.
pub proof fn lemma_chord_root(root: NoteClass, octave: Octave, kind: ChordKind)
    ensures
        chord_steps(kind).len() >= 1,
        chord_pitches(root, octave, kind, chord_steps(kind).len()).len() == chord_steps(kind).len(),
        chord_pitches(root, octave, kind, chord_steps(kind).len())[0] == MidiNote::at(root, octave),
{
    reveal_with_fuel(chord_pitches, 5);
    lemma_index_injective(root, root);
    let first = chord_pitches(root, octave, kind, 1);
    assert(chord_steps(kind)[0] == 0);
    assert(major_offsets()[0] == 0 && minor_offsets()[0] == 0);
    assert(chord_class(root, kind, 0) == root);
    assert(first[0] == MidiNote::at(root, octave));
}

/// The class `off` semitones above `root` in `octave`, where `off` is below
/// 12: its number modulo 128.
proof fn lemma_shifted_number(root: NoteClass, octave: Octave, off: int)
    requires
        octave.wf(),
        0 <= off < 12,
    ensures
        MidiNote::at(root.shifted(off), octave).value() == ((octave.value() + 1) * 12 + (
        root.index() + off) % 12) % 128,
        0 <= root.index() < 12,
{
    lemma_index_injective(root, root);
    assert(root.shifted(off).index() == (root.index() + off) % 12);
}

/// The arithmetic of one note of a chord: the note `semi` semitones above a
/// root numbered `base`, looked for in the root's octave and raised by 12
/// where that lies below the note before it, is the note numbered
/// `base + semi`, as long as that stays within the MIDI range.
proof fn lemma_raise(octave_base: int, r: int, prev: int, semi: int)
    requires
        0 <= octave_base <= 120,
        octave_base % 12 == 0,
        0 <= r < 12,
        0 <= semi <= 12,
        octave_base + r <= prev <= octave_base + r + semi,
        octave_base + r + semi - prev < 12 || (semi == 0 && prev == octave_base + r),
        octave_base + r + semi <= 127,
    ensures
        ({
            let candidate = (octave_base + (r + semi % 12) % 12) % 128;
            if candidate < prev {
                (candidate + 12) % 128
            } else {
                candidate
            }
        }) == octave_base + r + semi,
{
}

/// One note of a chord that stays within the MIDI range.
proof fn lemma_chord_step(
    root: NoteClass,
    octave: Octave,
    kind: ChordKind,
    n: nat,
    semi_prev: int,
    semi: int,
)
    requires
        octave.wf(),
        1 <= n <= chord_steps(kind).len(),
        chord_pitches(root, octave, kind, (n - 1) as nat).len() == n - 1,
        n >= 2 ==> chord_pitches(root, octave, kind, (n - 1) as nat).last().value() == root_number(
            root,
            octave,
        ) + semi_prev,
        n == 1 ==> semi_prev == 0 && semi == 0,
        chord_class(root, kind, chord_steps(kind)[n - 1]) == root.shifted(semi % 12),
        0 <= semi_prev <= semi <= 12,
        semi - semi_prev < 12,
        root_number(root, octave) + semi <= 127,
    ensures
        chord_pitches(root, octave, kind, n).len() == n,
        chord_pitches(root, octave, kind, n).last().value() == root_number(root, octave) + semi,
        forall|i: int|
            0 <= i < n - 1 ==> #[trigger] chord_pitches(root, octave, kind, n)[i] == chord_pitches(
                root,
                octave,
                kind,
                (n - 1) as nat,
            )[i],
{
    let before = chord_pitches(root, octave, kind, (n - 1) as nat);
    let octave_base = (octave.value() + 1) * 12;
    lemma_shifted_number(root, octave, semi % 12);
    lemma_shifted_number(root, octave, 0);
    lemma_index_injective(root, root);
    assert(root.shifted(0) == root);
    let prev = if n == 1 {
        MidiNote::at(root, octave)
    } else {
        before.last()
    };
    assert(prev.value() == root_number(root, octave) + semi_prev);
    lemma_raise(octave_base, root.index(), prev.value(), semi);
    let candidate = MidiNote::at(chord_class(root, kind, chord_steps(kind)[n - 1]), octave);
    assert(candidate.value() == (octave_base + (root.index() + semi % 12) % 12) % 128);
}

/// The class of each note of a chord lies at the note's semitones above the
/// root, taken within one octave.
proof fn lemma_chord_classes(root: NoteClass, kind: ChordKind, i: int)
    requires
        0 <= i < chord_steps(kind).len(),
    ensures
        chord_steps(kind).len() == chord_semitones(kind).len(),
        chord_class(root, kind, chord_steps(kind)[i]) == root.shifted(chord_semitones(kind)[i] % 12),
        0 <= chord_semitones(kind)[i] <= 12,
        i == 0 ==> chord_semitones(kind)[i] == 0,
        i > 0 ==> 0 < chord_semitones(kind)[i] - chord_semitones(kind)[i - 1] < 12,
        chord_semitones(kind)[i] <= chord_semitones(kind).last(),
{
    let ma = major_offsets();
    let mi = minor_offsets();
    assert(ma[0] == 0 && ma[2] == 4 && ma[4] == 7);
    assert(mi[0] == 0 && mi[2] == 3 && mi[4] == 7);
    let place = chord_steps(kind)[i];
    let semi = chord_semitones(kind)[i];
    assert(place == 0 || place == 2 || place == 4 || place == 7);
    let off = if crate::songlang::compiler::chord_is_minor(kind) {
        mi[place % 7]
    } else {
        ma[place % 7]
    };
    assert(off == semi % 12);
}

/// The first `n` notes of a chord that stays within the MIDI range lie at
/// the chord's semitones above the root's note.
proof fn lemma_chord_prefix(root: NoteClass, octave: Octave, kind: ChordKind, n: nat)
    requires
        octave.wf(),
        root_number(root, octave) + chord_semitones(kind).last() <= 127,
        n <= chord_steps(kind).len(),
    ensures
        chord_pitches(root, octave, kind, n).len() == n,
        forall|i: int|
            0 <= i < n ==> (#[trigger] chord_pitches(root, octave, kind, n)[i]).value()
                == root_number(root, octave) + chord_semitones(kind)[i],
    decreases n,
{
    if n == 0 {
    } else {
        lemma_chord_prefix(root, octave, kind, (n - 1) as nat);
        lemma_chord_classes(root, kind, n - 1);
        let semis = chord_semitones(kind);
        let before = chord_pitches(root, octave, kind, (n - 1) as nat);
        if n == 1 {
            lemma_chord_step(root, octave, kind, n, 0, 0);
        } else {
            assert(before.last() == before[n - 2]);
            lemma_chord_step(root, octave, kind, n, semis[n - 2], semis[n - 1]);
        }
        let now = chord_pitches(root, octave, kind, n);
        assert forall|i: int| 0 <= i < n implies (#[trigger] now[i]).value() == root_number(
            root,
            octave,
        ) + semis[i] by {
            if i < n - 1 {
                assert(now[i] == before[i]);
            } else {
                assert(now[i] == now.last());
            }
        }
    }
}

/// The semitones of a chord go up.
pub proof fn lemma_semitones_rise(kind: ChordKind, i: int, j: int)
    requires
        0 <= i <= j < chord_semitones(kind).len(),
    ensures
        chord_semitones(kind)[i] <= chord_semitones(kind)[j],
{
}

/// In a chord that stays within the MIDI range, the compiled notes lie at
/// the chord's semitones above the root's note; so none lies below the note
/// before it.
pub proof fn lemma_chord_rises(root: NoteClass, octave: Octave, kind: ChordKind)
    requires
        octave.wf(),
        root_number(root, octave) + chord_semitones(kind).last() <= 127,
    ensures
        chord_pitches(root, octave, kind, chord_steps(kind).len()).len() == chord_semitones(
            kind,
        ).len(),
        forall|i: int|
            0 <= i < chord_semitones(kind).len() ==> (#[trigger] chord_pitches(
                root,
                octave,
                kind,
                chord_steps(kind).len(),
            )[i]).value() == root_number(root, octave) + chord_semitones(kind)[i],
        forall|i: int, j: int|
            0 <= i <= j < chord_semitones(kind).len() ==> (#[trigger] chord_pitches(
                root,
                octave,
                kind,
                chord_steps(kind).len(),
            )[i]).value() <= (#[trigger] chord_pitches(
                root,
                octave,
                kind,
                chord_steps(kind).len(),
            )[j]).value(),
{
    lemma_chord_classes(root, kind, 0);
    lemma_chord_prefix(root, octave, kind, chord_steps(kind).len());
    let all = chord_pitches(root, octave, kind, chord_steps(kind).len());
    assert forall|i: int, j: int| 0 <= i <= j < chord_semitones(kind).len() implies (
    #[trigger] all[i]).value() <= (#[trigger] all[j]).value() by {
        lemma_semitones_rise(kind, i, j);
    }
}

} // verus!
