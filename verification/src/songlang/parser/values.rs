//! The values of the song language: channels, notes, velocities, kinds of
//! chord.

use super::after_tag;
use super::number_at;
use super::Parsed;
use super::Source;
use crate::midi::MidiChannel;
use crate::midi::PressVelocity;
use crate::model::NoteClass;
use crate::model::Octave;
use crate::songlang::ast::ChordKind;
use vstd::prelude::*;

pub mod times;

pub use times::parse_rawduration;

verus! {

broadcast use {crate::midi::group_midi_values, crate::model::group_octave};

/// The channel at place `pos`: a number from 1 to 16, which names the
/// channel one below it; or a number from 0 to 15 followed by `r`, which
/// names the channel itself.
pub open spec fn channel_at(s: Seq<char>, pos: int) -> Parsed<MidiChannel> {
    match number_at(s, pos, 255) {
        Parsed::Done(n, p) => match after_tag(s, p as int, "r"@) {
            Some(q) => if n <= 15 {
                Parsed::Done(MidiChannel::of(n as int), q)
            } else {
                Parsed::Miss
            },
            None => if 1 <= n <= 16 {
                Parsed::Done(MidiChannel::of(n - 1), p)
            } else {
                Parsed::Miss
            },
        },
        Parsed::Miss => Parsed::Miss,
        Parsed::Fatal => Parsed::Fatal,
    }
}

/// The channel at place `pos`.
pub fn parse_channel(src: &Source, pos: usize) -> (r: Parsed<MidiChannel>)
    requires
        src.wf(),
        pos <= src@.len(),
    ensures
        r == channel_at(src@, pos as int),
        r matches Parsed::Done(_, p) ==> pos < p <= src@.len(),
{
    match src.number(pos, 255) {
        Parsed::Done(n, p) => {
            let (raw, end): (u8, usize) = match src.tag(p, "r") {
                Some(q) => (n as u8, q),
                None => if n == 0 {
                    return Parsed::Miss;
                } else {
                    ((n - 1) as u8, p)
                },
            };
            match MidiChannel::from_raw(raw) {
                Some(c) => Parsed::Done(c, end),
                None => Parsed::Miss,
            }
        },
        Parsed::Miss => Parsed::Miss,
        Parsed::Fatal => Parsed::Fatal,
    }
}

/// The octave at place `pos`: a number from 0 to 9, or `-1` (or `-0`).
pub open spec fn octave_at(s: Seq<char>, pos: int) -> Parsed<Octave> {
    match after_tag(s, pos, "-"@) {
        Some(p) => match number_at(s, p as int, 1) {
            Parsed::Done(n, q) => Parsed::Done(Octave::of(-(n as int)), q),
            Parsed::Miss => Parsed::Miss,
            Parsed::Fatal => Parsed::Fatal,
        },
        None => match number_at(s, pos, 9) {
            Parsed::Done(n, q) => Parsed::Done(Octave::of(n as int), q),
            Parsed::Miss => Parsed::Miss,
            Parsed::Fatal => Parsed::Fatal,
        },
    }
}

/// The octave at place `pos`.
pub fn parse_octave(src: &Source, pos: usize) -> (r: Parsed<Octave>)
    requires
        src.wf(),
        pos <= src@.len(),
    ensures
        r == octave_at(src@, pos as int),
        r matches Parsed::Done(_, p) ==> pos < p <= src@.len(),
{
    let (start, negative) = match src.tag(pos, "-") {
        Some(p) => (p, true),
        None => (pos, false),
    };
    let max: u64 = if negative {
        1
    } else {
        9
    };
    match src.number(start, max) {
        Parsed::Done(n, q) => {
            let raw: i8 = if negative {
                -(n as i8)
            } else {
                n as i8
            };
            match Octave::from_raw(raw) {
                Some(octave) => Parsed::Done(octave, q),
                None => Parsed::Miss,
            }
        },
        Parsed::Miss => Parsed::Miss,
        Parsed::Fatal => Parsed::Fatal,
    }
}

/// The class that the letter numbered `letter` names, from `a` to `g`.
pub open spec fn letter_class(letter: u32) -> Option<NoteClass> {
    if letter == 97 {
        Some(NoteClass::A)
    } else if letter == 98 {
        Some(NoteClass::B)
    } else if letter == 99 {
        Some(NoteClass::C)
    } else if letter == 100 {
        Some(NoteClass::D)
    } else if letter == 101 {
        Some(NoteClass::E)
    } else if letter == 102 {
        Some(NoteClass::F)
    } else if letter == 103 {
        Some(NoteClass::G)
    } else {
        None
    }
}

/// Whether the class `base` can be written with a sharp: there is a class
/// between it and the next letter.
pub open spec fn takes_sharp(base: NoteClass) -> bool {
    base == NoteClass::A || base == NoteClass::C || base == NoteClass::D || base == NoteClass::F
        || base == NoteClass::G
}

/// Whether the class `base` can be written with a flat.
pub open spec fn takes_flat(base: NoteClass) -> bool {
    base == NoteClass::A || base == NoteClass::B || base == NoteClass::D || base == NoteClass::E
        || base == NoteClass::G
}

/// The note class at place `pos`: one of the letters `a` to `g`, then `#` or
/// `s` for the class above it, or `b` for the class below it, where the
/// letter takes that sign; capitals and small letters count alike.
pub open spec fn noteclass_at(s: Seq<char>, pos: int) -> Parsed<NoteClass> {
    if pos < 0 || pos >= s.len() {
        Parsed::Miss
    } else {
        match letter_class(super::folded(s[pos])) {
            None => Parsed::Miss,
            Some(base) => {
                let sign = if pos + 1 < s.len() {
                    super::folded(s[pos + 1])
                } else {
                    0
                };
                if (sign == 35 || sign == 115) && takes_sharp(base) {
                    Parsed::Done(base.shifted(1), (pos + 2) as usize)
                } else if sign == 98 && takes_flat(base) {
                    Parsed::Done(base.shifted(-1), (pos + 2) as usize)
                } else {
                    Parsed::Done(base, (pos + 1) as usize)
                }
            },
        }
    }
}

/// The note class at place `pos`.
pub fn parse_noteclass(src: &Source, pos: usize) -> (r: Parsed<NoteClass>)
    requires
        src.wf(),
        pos <= src@.len(),
    ensures
        r == noteclass_at(src@, pos as int),
        r matches Parsed::Done(_, p) ==> pos < p <= src@.len(),
{
    let n = src.len();
    if pos >= n {
        return Parsed::Miss;
    }
    let letter = super::fold(src.at(pos));
    let base = if letter == 97 {
        NoteClass::A
    } else if letter == 98 {
        NoteClass::B
    } else if letter == 99 {
        NoteClass::C
    } else if letter == 100 {
        NoteClass::D
    } else if letter == 101 {
        NoteClass::E
    } else if letter == 102 {
        NoteClass::F
    } else if letter == 103 {
        NoteClass::G
    } else {
        return Parsed::Miss;
    };
    let sign: u32 = if pos + 1 < n {
        super::fold(src.at(pos + 1))
    } else {
        0
    };
    let sharp = match base {
        NoteClass::A | NoteClass::C | NoteClass::D | NoteClass::F | NoteClass::G => true,
        _ => false,
    };
    let flat = match base {
        NoteClass::A | NoteClass::B | NoteClass::D | NoteClass::E | NoteClass::G => true,
        _ => false,
    };
    if (sign == 35 || sign == 115) && sharp {
        Parsed::Done(base.shift(1), pos + 2)
    } else if sign == 98 && flat {
        Parsed::Done(base.shift(-1), pos + 2)
    } else {
        Parsed::Done(base, pos + 1)
    }
}

/// The note at place `pos`: its class, then its octave.
pub open spec fn notepitch_at(s: Seq<char>, pos: int) -> Parsed<(NoteClass, Octave)> {
    match noteclass_at(s, pos) {
        Parsed::Done(note, p) => match octave_at(s, p as int) {
            Parsed::Done(octave, q) => Parsed::Done((note, octave), q),
            Parsed::Miss => Parsed::Miss,
            Parsed::Fatal => Parsed::Fatal,
        },
        Parsed::Miss => Parsed::Miss,
        Parsed::Fatal => Parsed::Fatal,
    }
}

/// The note at place `pos`.
pub fn parse_notepitch(src: &Source, pos: usize) -> (r: Parsed<(NoteClass, Octave)>)
    requires
        src.wf(),
        pos <= src@.len(),
    ensures
        r == notepitch_at(src@, pos as int),
        r matches Parsed::Done(_, p) ==> pos < p <= src@.len(),
{
    match parse_noteclass(src, pos) {
        Parsed::Done(note, p) => match parse_octave(src, p) {
            Parsed::Done(octave, q) => Parsed::Done((note, octave), q),
            Parsed::Miss => Parsed::Miss,
            Parsed::Fatal => Parsed::Fatal,
        },
        Parsed::Miss => Parsed::Miss,
        Parsed::Fatal => Parsed::Fatal,
    }
}

/// The velocity at place `pos`: a number from 0 to 127.
pub open spec fn velocity_at(s: Seq<char>, pos: int) -> Parsed<PressVelocity> {
    match number_at(s, pos, 127) {
        Parsed::Done(n, p) => Parsed::Done(PressVelocity::of(n as int), p),
        Parsed::Miss => Parsed::Miss,
        Parsed::Fatal => Parsed::Fatal,
    }
}

/// The velocity at place `pos`.
pub fn parse_velocity(src: &Source, pos: usize) -> (r: Parsed<PressVelocity>)
    requires
        src.wf(),
        pos <= src@.len(),
    ensures
        r == velocity_at(src@, pos as int),
        r matches Parsed::Done(_, p) ==> pos < p <= src@.len(),
{
    match src.number(pos, 127) {
        Parsed::Done(n, p) => match PressVelocity::from_raw(n as u8) {
            Some(v) => Parsed::Done(v, p),
            None => Parsed::Miss,
        },
        Parsed::Miss => Parsed::Miss,
        Parsed::Fatal => Parsed::Fatal,
    }
}

/// The kind of chord at place `pos`: `m7`, `M7`, `m`, `M` or `5`; where
/// none of these stands there, the chord is the root alone.
pub open spec fn chordkind_at(s: Seq<char>, pos: int) -> Parsed<ChordKind> {
    if let Some(p) = after_tag(s, pos, "m7"@) {
        Parsed::Done(ChordKind::Minor7, p)
    } else if let Some(p) = after_tag(s, pos, "M7"@) {
        Parsed::Done(ChordKind::Major7, p)
    } else if let Some(p) = after_tag(s, pos, "m"@) {
        Parsed::Done(ChordKind::Minor, p)
    } else if let Some(p) = after_tag(s, pos, "M"@) {
        Parsed::Done(ChordKind::Major, p)
    } else if let Some(p) = after_tag(s, pos, "5"@) {
        Parsed::Done(ChordKind::Fifth, p)
    } else {
        Parsed::Done(ChordKind::Raw, pos as usize)
    }
}

/// The kind of chord at place `pos`.
pub fn parse_chordkind(src: &Source, pos: usize) -> (r: Parsed<ChordKind>)
    requires
        src.wf(),
        pos <= src@.len(),
    ensures
        r == chordkind_at(src@, pos as int),
        r matches Parsed::Done(_, p) && pos <= p <= src@.len(),
{
    if let Some(p) = src.tag(pos, "m7") {
        Parsed::Done(ChordKind::Minor7, p)
    } else if let Some(p) = src.tag(pos, "M7") {
        Parsed::Done(ChordKind::Major7, p)
    } else if let Some(p) = src.tag(pos, "m") {
        Parsed::Done(ChordKind::Minor, p)
    } else if let Some(p) = src.tag(pos, "M") {
        Parsed::Done(ChordKind::Major, p)
    } else if let Some(p) = src.tag(pos, "5") {
        Parsed::Done(ChordKind::Fifth, p)
    } else {
        Parsed::Done(ChordKind::Raw, pos)
    }
}

/// The chord at place `pos`: its root note, then its kind.
pub open spec fn fullchord_at(s: Seq<char>, pos: int) -> Parsed<(NoteClass, Octave, ChordKind)> {
    match notepitch_at(s, pos) {
        Parsed::Done((root, octave), p) => match chordkind_at(s, p as int) {
            Parsed::Done(kind, q) => Parsed::Done((root, octave, kind), q),
            Parsed::Miss => Parsed::Miss,
            Parsed::Fatal => Parsed::Fatal,
        },
        Parsed::Miss => Parsed::Miss,
        Parsed::Fatal => Parsed::Fatal,
    }
}

/// The chord at place `pos`.
pub fn parse_fullchord(src: &Source, pos: usize) -> (r: Parsed<(NoteClass, Octave, ChordKind)>)
    requires
        src.wf(),
        pos <= src@.len(),
    ensures
        r == fullchord_at(src@, pos as int),
        r matches Parsed::Done(_, p) ==> pos < p <= src@.len(),
{
    match parse_notepitch(src, pos) {
        Parsed::Done((root, octave), p) => match parse_chordkind(src, p) {
            Parsed::Done(kind, q) => Parsed::Done((root, octave, kind), q),
            Parsed::Miss => Parsed::Miss,
            Parsed::Fatal => Parsed::Fatal,
        },
        Parsed::Miss => Parsed::Miss,
        Parsed::Fatal => Parsed::Fatal,
    }
}

} // verus!
