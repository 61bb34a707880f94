//! The lines of the song language that press chords.

use super::after_tag;
use super::after_tag_no_case;
use super::commands::blank1;
use super::commands::blank1_at;
use super::commands::commalist_separator_at;
use super::commands::consume_commalist_seperator;
use super::commands::parse_rawlabel;
use super::commands::rawlabel_at;
use super::run_end;
use super::values::channel_at;
use super::values::fullchord_at;
use super::values::parse_channel;
use super::values::parse_fullchord;
use super::values::parse_rawduration;
use super::values::parse_velocity;
use super::values::times::rawduration_at;
use super::values::velocity_at;
use super::CharClass;
use super::Parsed;
use super::Source;
use crate::songlang::ast::chords_view;
use crate::songlang::ast::modifiers_view;
use crate::songlang::ast::ChordPress;
use crate::songlang::ast::ChordView;
use crate::songlang::ast::ModifierView;
use crate::songlang::ast::OutputLabel;
use crate::songlang::ast::PressLine;
use crate::songlang::ast::PressLineView;
use crate::songlang::ast::PressModifier;
use vstd::prelude::*;

verus! {

/// What modifiers that were read say.
pub open spec fn modifiers_result_view(r: Parsed<Vec<PressModifier>>) -> Parsed<
    Seq<ModifierView>,
> {
    match r {
        Parsed::Done(mods, p) => Parsed::Done(modifiers_view(mods@), p),
        Parsed::Miss => Parsed::Miss,
        Parsed::Fatal => Parsed::Fatal,
    }
}

/// What a chord that was read says.
pub open spec fn chord_result_view(r: Parsed<ChordPress>) -> Parsed<ChordView> {
    match r {
        Parsed::Done(press, p) => Parsed::Done(press@, p),
        Parsed::Miss => Parsed::Miss,
        Parsed::Fatal => Parsed::Fatal,
    }
}

/// What a line of chords that was read says.
pub open spec fn pressline_result_view(r: Parsed<PressLine>) -> Parsed<PressLineView> {
    match r {
        Parsed::Done(line, p) => Parsed::Done(line@, p),
        Parsed::Miss => Parsed::Miss,
        Parsed::Fatal => Parsed::Fatal,
    }
}

/// The modifier at place `pos` that gives a duration: `for`, blanks, the
/// duration.
pub open spec fn duration_mod_at(s: Seq<char>, pos: int) -> Parsed<Seq<ModifierView>> {
    match after_tag_no_case(s, pos, "for"@) {
        Some(e1) => match blank1_at(s, e1 as int) {
            Some(e2) => match rawduration_at(s, e2 as int) {
                Parsed::Done(dur, e3) => Parsed::Done(seq![ModifierView::Duration(dur)], e3),
                _ => Parsed::Miss,
            },
            None => Parsed::Miss,
        },
        None => Parsed::Miss,
    }
}

/// The modifier at place `pos` that gives a velocity: `velocity` or `vel`,
/// `=`, the velocity, with blanks between them where one likes.
pub open spec fn velocity_mod_at(s: Seq<char>, pos: int) -> Parsed<Seq<ModifierView>> {
    let word = match after_tag_no_case(s, pos, "velocity"@) {
        Some(p) => Some(p),
        None => after_tag_no_case(s, pos, "vel"@),
    };
    match word {
        Some(e1) => match after_tag(s, run_end(s, e1 as int, CharClass::Blank), "="@) {
            Some(e2) => match velocity_at(s, run_end(s, e2 as int, CharClass::Blank)) {
                Parsed::Done(vel, e3) => Parsed::Done(seq![ModifierView::Velocity(vel)], e3),
                _ => Parsed::Miss,
            },
            None => Parsed::Miss,
        },
        None => Parsed::Miss,
    }
}

/// The naming of an output at place `pos`: `output`, blanks, and the
/// output's name between double quotes.
pub open spec fn outputline_port_at(s: Seq<char>, pos: int) -> Parsed<ModifierView> {
    match after_tag_no_case(s, pos, "output"@) {
        Some(e1) => match blank1_at(s, e1 as int) {
            Some(e2) => match after_tag(s, e2 as int, "\""@) {
                Some(e3) => match rawlabel_at(s, e3 as int) {
                    Parsed::Done(name, e4) => match after_tag(s, e4 as int, "\""@) {
                        Some(e5) => Parsed::Done(ModifierView::Port(name), e5),
                        None => Parsed::Miss,
                    },
                    _ => Parsed::Miss,
                },
                None => Parsed::Miss,
            },
            None => Parsed::Miss,
        },
        None => Parsed::Miss,
    }
}

/// The naming of a channel at place `pos`: `channel`, blanks, the channel.
pub open spec fn outputline_channel_at(s: Seq<char>, pos: int) -> Parsed<ModifierView> {
    match after_tag_no_case(s, pos, "channel"@) {
        Some(e1) => match blank1_at(s, e1 as int) {
            Some(e2) => match channel_at(s, e2 as int) {
                Parsed::Done(channel, e3) => Parsed::Done(ModifierView::Channel(channel), e3),
                _ => Parsed::Miss,
            },
            None => Parsed::Miss,
        },
        None => Parsed::Miss,
    }
}

/// The modifier at place `pos` that says where the notes go: `on`, then,
/// each after blanks and each only if it stands there, the naming of an
/// output and the naming of a channel.
pub open spec fn outputline_mod_at(s: Seq<char>, pos: int) -> Parsed<Seq<ModifierView>> {
    match after_tag_no_case(s, pos, "on"@) {
        Some(e1) => {
            let port = match blank1_at(s, e1 as int) {
                Some(e2) => outputline_port_at(s, e2 as int),
                None => Parsed::Miss,
            };
            let (named, e3) = match port {
                Parsed::Done(m, p) => (seq![m], p),
                _ => (Seq::<ModifierView>::empty(), e1),
            };
            let channel = match blank1_at(s, e3 as int) {
                Some(e4) => outputline_channel_at(s, e4 as int),
                None => Parsed::Miss,
            };
            match channel {
                Parsed::Done(m, e5) => Parsed::Done(named.push(m), e5),
                _ => Parsed::Done(named, e3),
            }
        },
        None => Parsed::Miss,
    }
}

/// The modifier at place `pos`, as the list of what it says: a duration, a
/// velocity, or where the notes go.
pub open spec fn modifier_at(s: Seq<char>, pos: int) -> Parsed<Seq<ModifierView>> {
    if duration_mod_at(s, pos) is Done {
        duration_mod_at(s, pos)
    } else if velocity_mod_at(s, pos) is Done {
        velocity_mod_at(s, pos)
    } else {
        outputline_mod_at(s, pos)
    }
}

/// The modifiers that follow, each after blanks, those that were read up to
/// place `pos`.
pub open spec fn more_modifiers_at(s: Seq<char>, pos: int, read: Seq<ModifierView>) -> Parsed<
    Seq<ModifierView>,
>
    decreases s.len() - pos,
{
    match blank1_at(s, pos) {
        Some(p) => match modifier_at(s, p as int) {
            Parsed::Done(more, q) => if pos < q <= s.len() {
                more_modifiers_at(s, q as int, read + more)
            } else {
                Parsed::Miss
            },
            _ => Parsed::Done(read, pos as usize),
        },
        None => Parsed::Done(read, pos as usize),
    }
}

/// The modifiers at place `pos`, with blanks between them; there may be
/// none.
pub open spec fn modifiers_at(s: Seq<char>, pos: int) -> Parsed<Seq<ModifierView>> {
    match modifier_at(s, pos) {
        Parsed::Done(first, p) => if pos < p <= s.len() {
            more_modifiers_at(s, p as int, first)
        } else {
            Parsed::Miss
        },
        _ => Parsed::Done(Seq::empty(), pos as usize),
    }
}

/// The chord at place `pos`: its root note and its kind, and then, after
/// blanks, its modifiers.
pub open spec fn chordpress_at(s: Seq<char>, pos: int) -> Parsed<ChordView> {
    match fullchord_at(s, pos) {
        Parsed::Done((root, octave, kind), e1) => match blank1_at(s, e1 as int) {
            Some(e2) => match modifiers_at(s, e2 as int) {
                Parsed::Done(modifiers, e3) => Parsed::Done(
                    ChordView { root, octave, kind, modifiers },
                    e3,
                ),
                _ => Parsed::Miss,
            },
            None => Parsed::Done(ChordView { root, octave, kind, modifiers: Seq::empty() }, e1),
        },
        _ => Parsed::Miss,
    }
}

/// The chords that follow, each after a comma, those that were read up to
/// place `pos`.
pub open spec fn more_chords_at(s: Seq<char>, pos: int, read: Seq<ChordView>) -> Parsed<
    Seq<ChordView>,
>
    decreases s.len() - pos,
{
    match commalist_separator_at(s, pos) {
        Some(p) => match chordpress_at(s, p as int) {
            Parsed::Done(press, q) => if pos < q <= s.len() {
                more_chords_at(s, q as int, read.push(press))
            } else {
                Parsed::Miss
            },
            _ => Parsed::Done(read, pos as usize),
        },
        None => Parsed::Done(read, pos as usize),
    }
}

/// The line of chords at place `pos`: `play`, blanks, the modifiers of the
/// line, blanks, and the chords with commas between them, of which there is
/// one at least.
pub open spec fn pressline_at(s: Seq<char>, pos: int) -> Parsed<PressLineView> {
    match after_tag_no_case(s, pos, "play"@) {
        Some(e1) => match blank1_at(s, e1 as int) {
            Some(e2) => match modifiers_at(s, e2 as int) {
                Parsed::Done(modifiers, e3) => {
                    let gap = if modifiers.len() == 0 {
                        Some(run_end(s, e3 as int, CharClass::Blank) as usize)
                    } else {
                        blank1_at(s, e3 as int)
                    };
                    match gap {
                        Some(e4) => match chordpress_at(s, e4 as int) {
                            Parsed::Done(first, e5) => if e4 < e5 <= s.len() {
                                match more_chords_at(s, e5 as int, seq![first]) {
                                    Parsed::Done(presses, e6) => Parsed::Done(
                                        PressLineView { presses, modifiers },
                                        e6,
                                    ),
                                    _ => Parsed::Miss,
                                }
                            } else {
                                Parsed::Miss
                            },
                            _ => Parsed::Miss,
                        },
                        None => Parsed::Miss,
                    }
                },
                _ => Parsed::Miss,
            },
            None => Parsed::Miss,
        },
        None => Parsed::Miss,
    }
}

fn parse_duration_mod(src: &Source, pos: usize) -> (r: Parsed<Vec<PressModifier>>)
    requires
        src.wf(),
        pos <= src@.len(),
    ensures
        modifiers_result_view(r) == duration_mod_at(src@, pos as int),
        r matches Parsed::Done(_, p) ==> pos < p <= src@.len(),
{
    let e1 = match src.tag_no_case(pos, "for") {
        Some(p) => p,
        None => {
            return Parsed::Miss;
        },
    };
    let e2 = match blank1(src, e1) {
        Some(p) => p,
        None => {
            return Parsed::Miss;
        },
    };
    match parse_rawduration(src, e2) {
        Parsed::Done(dur, e3) => {
            let mods = vec![PressModifier::Duration(dur)];
            proof {
                assert(modifiers_view(mods@) =~= seq![ModifierView::Duration(dur)]);
            }
            Parsed::Done(mods, e3)
        },
        _ => Parsed::Miss,
    }
}

fn parse_velocity_mod(src: &Source, pos: usize) -> (r: Parsed<Vec<PressModifier>>)
    requires
        src.wf(),
        pos <= src@.len(),
    ensures
        modifiers_result_view(r) == velocity_mod_at(src@, pos as int),
        r matches Parsed::Done(_, p) ==> pos < p <= src@.len(),
{
    let word = match src.tag_no_case(pos, "velocity") {
        Some(p) => Some(p),
        None => src.tag_no_case(pos, "vel"),
    };
    let e1 = match word {
        Some(p) => p,
        None => {
            return Parsed::Miss;
        },
    };
    let e2 = match src.tag(src.skip(e1, CharClass::Blank), "=") {
        Some(p) => p,
        None => {
            return Parsed::Miss;
        },
    };
    match parse_velocity(src, src.skip(e2, CharClass::Blank)) {
        Parsed::Done(vel, e3) => {
            let mods = vec![PressModifier::Velocity(vel)];
            proof {
                assert(modifiers_view(mods@) =~= seq![ModifierView::Velocity(vel)]);
            }
            Parsed::Done(mods, e3)
        },
        _ => Parsed::Miss,
    }
}

fn parse_outputline_port(src: &Source, pos: usize) -> (r: Parsed<PressModifier>)
    requires
        src.wf(),
        pos <= src@.len(),
    ensures
        (match r {
            Parsed::Done(m, p) => Parsed::Done(m@, p),
            Parsed::Miss => Parsed::Miss,
            Parsed::Fatal => Parsed::Fatal,
        }) == outputline_port_at(src@, pos as int),
        r matches Parsed::Done(_, p) ==> pos <= p <= src@.len(),
{
    let e1 = match src.tag_no_case(pos, "output") {
        Some(p) => p,
        None => {
            return Parsed::Miss;
        },
    };
    let e2 = match blank1(src, e1) {
        Some(p) => p,
        None => {
            return Parsed::Miss;
        },
    };
    let e3 = match src.tag(e2, "\"") {
        Some(p) => p,
        None => {
            return Parsed::Miss;
        },
    };
    let (name, e4) = match parse_rawlabel(src, e3) {
        Parsed::Done(l, p) => (l, p),
        _ => {
            return Parsed::Miss;
        },
    };
    match src.tag(e4, "\"") {
        Some(e5) => Parsed::Done(PressModifier::Port(OutputLabel(name)), e5),
        None => Parsed::Miss,
    }
}

fn parse_outputline_channel(src: &Source, pos: usize) -> (r: Parsed<PressModifier>)
    requires
        src.wf(),
        pos <= src@.len(),
    ensures
        (match r {
            Parsed::Done(m, p) => Parsed::Done(m@, p),
            Parsed::Miss => Parsed::Miss,
            Parsed::Fatal => Parsed::Fatal,
        }) == outputline_channel_at(src@, pos as int),
        r matches Parsed::Done(_, p) ==> pos <= p <= src@.len(),
{
    let e1 = match src.tag_no_case(pos, "channel") {
        Some(p) => p,
        None => {
            return Parsed::Miss;
        },
    };
    let e2 = match blank1(src, e1) {
        Some(p) => p,
        None => {
            return Parsed::Miss;
        },
    };
    match parse_channel(src, e2) {
        Parsed::Done(channel, e3) => Parsed::Done(PressModifier::Channel(channel), e3),
        _ => Parsed::Miss,
    }
}

fn parse_outputline_mod(src: &Source, pos: usize) -> (r: Parsed<Vec<PressModifier>>)
    requires
        src.wf(),
        pos <= src@.len(),
    ensures
        modifiers_result_view(r) == outputline_mod_at(src@, pos as int),
        r matches Parsed::Done(_, p) ==> pos < p <= src@.len(),
{
    let e1 = match src.tag_no_case(pos, "on") {
        Some(p) => p,
        None => {
            return Parsed::Miss;
        },
    };
    proof {
        reveal_strlit("on");
    }
    let mut mods: Vec<PressModifier> = Vec::new();
    let port = match blank1(src, e1) {
        Some(e2) => parse_outputline_port(src, e2),
        None => Parsed::Miss,
    };
    let e3 = match port {
        Parsed::Done(m, p) => {
            mods.push(m);
            p
        },
        _ => e1,
    };
    let channel = match blank1(src, e3) {
        Some(e4) => parse_outputline_channel(src, e4),
        None => Parsed::Miss,
    };
    let ghost named = modifiers_view(mods@);
    match channel {
        Parsed::Done(m, e5) => {
            mods.push(m);
            proof {
                assert(modifiers_view(mods@) =~= named.push(m@));
                if port is Done {
                    assert(named =~= seq![port->Done_0@]);
                } else {
                    assert(named =~= Seq::<ModifierView>::empty());
                }
            }
            Parsed::Done(mods, e5)
        },
        _ => {
            proof {
                if port is Done {
                    assert(named =~= seq![port->Done_0@]);
                } else {
                    assert(named =~= Seq::<ModifierView>::empty());
                }
            }
            Parsed::Done(mods, e3)
        },
    }
}

fn parse_modifier(src: &Source, pos: usize) -> (r: Parsed<Vec<PressModifier>>)
    requires
        src.wf(),
        pos <= src@.len(),
    ensures
        modifiers_result_view(r) == modifier_at(src@, pos as int),
        r matches Parsed::Done(_, p) ==> pos < p <= src@.len(),
{
    match parse_duration_mod(src, pos) {
        Parsed::Done(mods, p) => {
            return Parsed::Done(mods, p);
        },
        _ => {},
    }
    match parse_velocity_mod(src, pos) {
        Parsed::Done(mods, p) => {
            return Parsed::Done(mods, p);
        },
        _ => {},
    }
    parse_outputline_mod(src, pos)
}

/// The modifiers at place `pos`.
pub fn parse_press_modifiers(src: &Source, pos: usize) -> (r: Parsed<Vec<PressModifier>>)
    requires
        src.wf(),
        pos <= src@.len(),
    ensures
        modifiers_result_view(r) == modifiers_at(src@, pos as int),
        r matches Parsed::Done(_, p) && pos <= p <= src@.len(),
{
    let (mut mods, mut i) = match parse_modifier(src, pos) {
        Parsed::Done(first, p) => (first, p),
        _ => {
            proof {
                assert(modifiers_view(Seq::<PressModifier>::empty()) =~= Seq::<
                    ModifierView,
                >::empty());
            }
            return Parsed::Done(Vec::new(), pos);
        },
    };
    let n = src.len();
    loop
        invariant
            src.wf(),
            pos < i <= n,
            n == src@.len(),
            modifiers_at(src@, pos as int) == more_modifiers_at(
                src@,
                i as int,
                modifiers_view(mods@),
            ),
        decreases n - i,
    {
        let next = match blank1(src, i) {
            Some(p) => parse_modifier(src, p),
            None => Parsed::Miss,
        };
        match next {
            Parsed::Done(mut more, q) => {
                let ghost before = modifiers_view(mods@);
                let ghost added = modifiers_view(more@);
                mods.append(&mut more);
                proof {
                    assert(modifiers_view(mods@) =~= before + added);
                }
                i = q;
            },
            _ => {
                return Parsed::Done(mods, i);
            },
        }
    }
}

/// The chord at place `pos`.
pub fn parse_chordpress(src: &Source, pos: usize) -> (r: Parsed<ChordPress>)
    requires
        src.wf(),
        pos <= src@.len(),
    ensures
        chord_result_view(r) == chordpress_at(src@, pos as int),
        r matches Parsed::Done(_, p) ==> pos < p <= src@.len(),
{
    let (root, octave, kind, e1) = match parse_fullchord(src, pos) {
        Parsed::Done((root, octave, kind), p) => (root, octave, kind, p),
        _ => {
            return Parsed::Miss;
        },
    };
    match blank1(src, e1) {
        Some(e2) => match parse_press_modifiers(src, e2) {
            Parsed::Done(modifiers, e3) => Parsed::Done(
                ChordPress { root, octave, kind, modifiers },
                e3,
            ),
            _ => Parsed::Miss,
        },
        None => {
            proof {
                assert(modifiers_view(Seq::<PressModifier>::empty()) =~= Seq::<
                    ModifierView,
                >::empty());
            }
            Parsed::Done(ChordPress { root, octave, kind, modifiers: Vec::new() }, e1)
        },
    }
}

/// The line of chords at place `pos`.
pub fn parse_pressline(src: &Source, pos: usize) -> (r: Parsed<PressLine>)
    requires
        src.wf(),
        pos <= src@.len(),
    ensures
        pressline_result_view(r) == pressline_at(src@, pos as int),
        r matches Parsed::Done(_, p) ==> pos < p <= src@.len(),
        !(r is Fatal),
{
    let e1 = match src.tag_no_case(pos, "play") {
        Some(p) => p,
        None => {
            return Parsed::Miss;
        },
    };
    let e2 = match blank1(src, e1) {
        Some(p) => p,
        None => {
            return Parsed::Miss;
        },
    };
    let (modifiers, e3) = match parse_press_modifiers(src, e2) {
        Parsed::Done(mods, p) => (mods, p),
        _ => {
            return Parsed::Miss;
        },
    };
    let gap = if modifiers.len() == 0 {
        Some(src.skip(e3, CharClass::Blank))
    } else {
        blank1(src, e3)
    };
    let e4 = match gap {
        Some(p) => p,
        None => {
            return Parsed::Miss;
        },
    };
    let (first, e5) = match parse_chordpress(src, e4) {
        Parsed::Done(press, p) => (press, p),
        _ => {
            return Parsed::Miss;
        },
    };
    let mut presses: Vec<ChordPress> = Vec::new();
    let ghost first_view = first@;
    presses.push(first);
    proof {
        assert(chords_view(presses@) =~= seq![first_view]);
    }
    let n = src.len();
    let mut i = e5;
    loop
        invariant
            src.wf(),
            pos < i <= n,
            n == src@.len(),
            more_chords_at(src@, e5 as int, seq![first_view]) == more_chords_at(
                src@,
                i as int,
                chords_view(presses@),
            ),
            pressline_at(src@, pos as int) == (match more_chords_at(
                src@,
                e5 as int,
                seq![first_view],
            ) {
                Parsed::Done(all, e6) => Parsed::Done(
                    PressLineView { presses: all, modifiers: modifiers_view(modifiers@) },
                    e6,
                ),
                _ => Parsed::Miss,
            }),
        decreases n - i,
    {
        let next = match consume_commalist_seperator(src, i) {
            Some(p) => parse_chordpress(src, p),
            None => Parsed::Miss,
        };
        match next {
            Parsed::Done(press, q) => {
                let ghost before = chords_view(presses@);
                let ghost added = press@;
                presses.push(press);
                proof {
                    assert(chords_view(presses@) =~= before.push(added));
                }
                i = q;
            },
            _ => {
                return Parsed::Done(PressLine { presses, modifiers }, i);
            },
        }
    }
}

} // verus!
