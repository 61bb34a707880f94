//! Where the chords of a song stand in the song's track.

use super::ast::AsmCommand;
use super::ast::ChordPress;
use super::ast::LangItem;
use super::ast::PressLine;
use super::chords::chord_semitones;
use super::chords::lemma_chord_rises;
use super::chords::lemma_chord_root;
use super::chords::root_number;
use super::compiler::chord_pitches;
use super::compiler::chord_steps;
use super::compiler::compiled;
use super::compiler::note_events;
use super::compiler::CompilerState;
use crate::midi::MidiMessage;
use crate::midi::MidiNote;
use crate::track::TrackEvent;
use vstd::prelude::*;

verus! {

/// A chord of a song as the compiler meets it: the chord, and the place in
/// the track at which its notes begin.
pub struct ChordSite {
    pub start: nat,
    pub press: ChordPress,
}

/// The chords among the first `n` chords of the line `line`, each with the
/// place at which the compiler, in the state `st` before the line, begins
/// its notes.
pub open spec fn line_sites(st: CompilerState, line: PressLine, n: nat) -> Seq<ChordSite>
    decreases n,
{
    if n == 0 || n > line.presses@.len() {
        Seq::empty()
    } else {
        line_sites(st, line, (n - 1) as nat).push(
            ChordSite {
                start: st.with_presses(line, (n - 1) as nat).track.len(),
                press: line.presses@[n - 1],
            },
        )
    }
}

/// The chords of the item `item`, those inside loops too, in the order of
/// the song, each with the place at which the compiler, in the state `st`
/// before the item, begins its notes.
pub open spec fn item_sites(st: CompilerState, item: LangItem) -> Seq<ChordSite>
    decreases item, 0nat,
{
    match item {
        LangItem::Loop { expr, .. } => items_sites(st, expr@, expr@.len()),
        LangItem::NotePress(line) => line_sites(st, line, line.presses@.len()),
        _ => Seq::empty(),
    }
}

/// The chords of the first `n` of `items`, as far as these compile.
pub open spec fn items_sites(st: CompilerState, items: Seq<LangItem>, n: nat) -> Seq<ChordSite>
    decreases items, n,
{
    if n == 0 || n > items.len() {
        Seq::empty()
    } else {
        let (before, done) = st.with_items(items, (n - 1) as nat);
        let earlier = items_sites(st, items, (n - 1) as nat);
        match done {
            Ok(()) => earlier + item_sites(before, items[n - 1]),
            Err(_) => earlier,
        }
    }
}

/// The chords of a song, each with the place in the song's track at which
/// its notes begin.
pub open spec fn song_sites(song: Seq<LangItem>) -> Seq<ChordSite> {
    items_sites(CompilerState::empty(), song, song.len())
}

/// The note that the instruction at place `k` of a track presses, if it
/// presses one.
pub open spec fn note_at(track: Seq<TrackEvent>, k: int) -> Option<MidiNote> {
    if 0 <= k < track.len() {
        match track[k] {
            TrackEvent::SendMessage { message: MidiMessage::NoteOn(on), .. } => Some(on.note),
            _ => None,
        }
    } else {
        None
    }
}

/// The note that a track presses at place `i` of the chord at `site`, if it
/// presses one there.
pub open spec fn chord_note(track: Seq<TrackEvent>, site: ChordSite, i: int) -> Option<MidiNote> {
    note_at(track, site.start + i)
}

/// The notes of the chord `press`, as the compiler presses them.
pub open spec fn press_notes(press: ChordPress) -> Seq<MidiNote> {
    chord_pitches(press.root, press.octave, press.kind, chord_steps(press.kind).len())
}

/// Whether the track presses the notes of a chord, one after the other,
/// from the chord's place on.
pub open spec fn chord_in_track(track: Seq<TrackEvent>, site: ChordSite) -> bool {
    forall|i: int|
        0 <= i < press_notes(site.press).len() ==> note_at(track, site.start + i) == Some(
            #[trigger] press_notes(site.press)[i],
        )
}

/// Whether the track `longer` begins with all of the track `shorter`.
pub open spec fn extends(shorter: Seq<TrackEvent>, longer: Seq<TrackEvent>) -> bool {
    &&& shorter.len() <= longer.len()
    &&& forall|i: int| 0 <= i < shorter.len() ==> #[trigger] longer[i] == shorter[i]
}

/// A chord that stands in a track stands in every track that begins with
/// that track.
proof fn lemma_site_kept(shorter: Seq<TrackEvent>, longer: Seq<TrackEvent>, site: ChordSite)
    requires
        chord_in_track(shorter, site),
        extends(shorter, longer),
    ensures
        chord_in_track(longer, site),
{
    let notes = press_notes(site.press);
    assert forall|i: int| 0 <= i < notes.len() implies note_at(longer, site.start + i) == Some(
        #[trigger] notes[i],
    ) by {
        assert(note_at(shorter, site.start + i) == Some(notes[i]));
        assert(longer[site.start + i] == shorter[site.start + i]);
    }
}

/// A chord that stands in a track stands in every track that differs from
/// it in jumps alone.
proof fn lemma_site_kept_but_jumps(
    before: Seq<TrackEvent>,
    after: Seq<TrackEvent>,
    site: ChordSite,
)
    requires
        chord_in_track(before, site),
        after.len() == before.len(),
        forall|i: int|
            0 <= i < before.len() && !(before[i] is Jump) ==> #[trigger] after[i] == before[i],
    ensures
        chord_in_track(after, site),
{
    let notes = press_notes(site.press);
    assert forall|i: int| 0 <= i < notes.len() implies note_at(after, site.start + i) == Some(
        #[trigger] notes[i],
    ) by {
        assert(note_at(before, site.start + i) == Some(notes[i]));
        assert(after[site.start + i] == before[site.start + i]);
    }
}

/// Pressing a chord adds to the track and changes nothing of what it held,
/// and the chord stands in the track from the place at which the track
/// ended before.
proof fn lemma_press_site(st: CompilerState, line: PressLine, press: ChordPress)
    ensures
        extends(st.track, st.with_press(line, press).track),
        chord_in_track(
            st.with_press(line, press).track,
            ChordSite { start: st.track.len(), press },
        ),
{
    let (known, port) = st.with_port(st.press_output(line, press));
    let notes = press_notes(press);
    let events = note_events(
        notes,
        st.press_channel(line, press),
        st.press_velocity(line, press),
        port,
    );
    let after = st.with_press(line, press).track;
    assert(known.track == st.track);
    assert(after == st.track + events);
    assert forall|i: int| 0 <= i < notes.len() implies note_at(after, st.track.len() + i) == Some(
        #[trigger] notes[i],
    ) by {
        assert(after[st.track.len() + i] == events[i]);
    }
}

/// Pressing the first `n` chords of a line adds to the track and changes
/// nothing of what it held, and each of these chords stands in the track at
/// its place.
proof fn lemma_line_sites(st: CompilerState, line: PressLine, n: nat)
    ensures
        extends(st.track, st.with_presses(line, n).track),
        forall|k: int|
            0 <= k < line_sites(st, line, n).len() ==> chord_in_track(
                st.with_presses(line, n).track,
                #[trigger] line_sites(st, line, n)[k],
            ),
    decreases n,
{
    if n == 0 || n > line.presses@.len() {
    } else {
        let before = st.with_presses(line, (n - 1) as nat);
        let press = line.presses@[n - 1];
        let after = st.with_presses(line, n);
        lemma_line_sites(st, line, (n - 1) as nat);
        lemma_press_site(before, line, press);
        let earlier = line_sites(st, line, (n - 1) as nat);
        let sites = line_sites(st, line, n);
        assert forall|k: int| 0 <= k < sites.len() implies chord_in_track(
            after.track,
            #[trigger] sites[k],
        ) by {
            if k < earlier.len() {
                assert(sites[k] == earlier[k]);
                lemma_site_kept(before.track, after.track, earlier[k]);
            }
        }
    }
}

/// An item adds to the track and changes nothing of what it held, whether
/// it compiles or fails, and each chord of the item stands in the track at
/// its place.
proof fn lemma_item_sites(st: CompilerState, item: LangItem)
    ensures
        extends(st.track, st.with_item(item).0.track),
        forall|k: int|
            0 <= k < item_sites(st, item).len() ==> chord_in_track(
                st.with_item(item).0.track,
                #[trigger] item_sites(st, item)[k],
            ),
    decreases item, 0nat,
{
    let after = st.with_item(item).0;
    match item {
        LangItem::Loop { expr, repititions } => {
            let (body, done) = st.with_items(expr@, expr@.len());
            lemma_items_sites(st, expr@, expr@.len());
            let sites = items_sites(st, expr@, expr@.len());
            assert forall|k: int| 0 <= k < sites.len() implies chord_in_track(
                after.track,
                #[trigger] sites[k],
            ) by {
                lemma_site_kept(body.track, after.track, sites[k]);
            }
        },
        LangItem::NotePress(line) => {
            let pressed = st.with_presses(line, line.presses@.len());
            lemma_line_sites(st, line, line.presses@.len());
            let sites = line_sites(st, line, line.presses@.len());
            assert forall|k: int| 0 <= k < sites.len() implies chord_in_track(
                after.track,
                #[trigger] sites[k],
            ) by {
                lemma_site_kept(pressed.track, after.track, sites[k]);
            }
        },
        LangItem::Wait(_) => {},
        LangItem::Asm(AsmCommand::Wait(_)) => {},
        LangItem::Asm(AsmCommand::SetBpm(_)) => {},
        LangItem::Asm(AsmCommand::Label(_)) => {},
        LangItem::Asm(AsmCommand::Send { .. }) => {},
        LangItem::Asm(AsmCommand::Jump { .. }) => {},
        LangItem::SetAttribute(_) => {},
    }
}

/// The first `n` of some items add to the track and change nothing of what
/// it held, and each chord of theirs stands in the track at its place.
proof fn lemma_items_sites(st: CompilerState, items: Seq<LangItem>, n: nat)
    ensures
        extends(st.track, st.with_items(items, n).0.track),
        forall|k: int|
            0 <= k < items_sites(st, items, n).len() ==> chord_in_track(
                st.with_items(items, n).0.track,
                #[trigger] items_sites(st, items, n)[k],
            ),
    decreases items, n,
{
    if n == 0 || n > items.len() {
    } else {
        let (before, done) = st.with_items(items, (n - 1) as nat);
        lemma_items_sites(st, items, (n - 1) as nat);
        let earlier = items_sites(st, items, (n - 1) as nat);
        if done is Ok {
            let item = items[n - 1];
            let after = before.with_item(item).0;
            lemma_item_sites(before, item);
            let added = item_sites(before, item);
            let sites = items_sites(st, items, n);
            assert(sites == earlier + added);
            assert forall|k: int| 0 <= k < sites.len() implies chord_in_track(
                after.track,
                #[trigger] sites[k],
            ) by {
                if k < earlier.len() {
                    assert(sites[k] == earlier[k]);
                    lemma_site_kept(before.track, after.track, earlier[k]);
                } else {
                    assert(sites[k] == added[k - earlier.len()]);
                }
            }
        }
    }
}

/// Pointing jumps at their labels changes nothing of a track but the
/// targets of jumps.
proof fn lemma_resolved_keeps(st: CompilerState, n: nat)
    ensures
        st.resolved(n).0.len() == st.track.len(),
        forall|i: int|
            0 <= i < st.track.len() && !(st.track[i] is Jump) ==> #[trigger] st.resolved(n).0[i]
                == st.track[i],
        forall|i: int|
            0 <= i < st.track.len() ==> (#[trigger] st.resolved(n).0[i] is Jump
                <==> st.track[i] is Jump),
    decreases n,
{
    if n == 0 || n > st.backlog.len() {
    } else {
        lemma_resolved_keeps(st, (n - 1) as nat);
    }
}

/// Every chord of a song that compiles stands in the song's track: from the
/// chord's place on, the track presses the chord's notes, one after the
/// other.
pub proof fn lemma_song_chords(song: Seq<LangItem>, k: int)
    requires
        compiled(song) is Ok,
        0 <= k < song_sites(song).len(),
    ensures
        chord_in_track(compiled(song)->Ok_0.0, song_sites(song)[k]),
{
    let start = CompilerState::empty();
    let (body, done) = start.with_items(song, song.len());
    let closed = body.with_event(TrackEvent::End);
    let track = closed.resolved(closed.backlog.len()).0;
    let site = song_sites(song)[k];
    lemma_items_sites(start, song, song.len());
    lemma_site_kept(body.track, closed.track, site);
    lemma_resolved_keeps(closed, closed.backlog.len());
    lemma_site_kept_but_jumps(closed.track, track, site);
}

/// In the track of a song that compiles, the first note of every chord of
/// the song is the root's note in the chord's octave; and where the chord
/// stays within the MIDI range, its notes lie at the chord's semitones above
/// the root's note, so that none lies below the note before it.
pub proof fn lemma_song_chords_rise(song: Seq<LangItem>, k: int)
    requires
        compiled(song) is Ok,
        0 <= k < song_sites(song).len(),
    ensures
        ({
            let track = compiled(song)->Ok_0.0;
            let site = song_sites(song)[k];
            let press = site.press;
            let semis = chord_semitones(press.kind);
            &&& chord_note(track, site, 0) == Some(MidiNote::at(press.root, press.octave))
            &&& press.octave.wf() && root_number(press.root, press.octave) + semis.last() <= 127
                ==> {
                &&& forall|i: int|
                    0 <= i < semis.len() ==> (#[trigger] chord_note(track, site, i)) is Some
                        && chord_note(track, site, i)->Some_0.value() == root_number(
                        press.root,
                        press.octave,
                    ) + semis[i]
                &&& forall|i: int, j: int|
                    0 <= i <= j < semis.len() ==> (#[trigger] chord_note(
                        track,
                        site,
                        i,
                    ))->Some_0.value() <= (#[trigger] chord_note(track, site, j))->Some_0.value()
            }
        }),
{
    let track = compiled(song)->Ok_0.0;
    let site = song_sites(song)[k];
    let press = site.press;
    let semis = chord_semitones(press.kind);
    let notes = press_notes(press);
    lemma_song_chords(song, k);
    lemma_chord_root(press.root, press.octave, press.kind);
    assert(chord_note(track, site, 0) == Some(notes[0]));
    if press.octave.wf() && root_number(press.root, press.octave) + semis.last() <= 127 {
        lemma_chord_rises(press.root, press.octave, press.kind);
        assert forall|i: int| 0 <= i < semis.len() implies (#[trigger] chord_note(
            track,
            site,
            i,
        )) is Some && chord_note(track, site, i)->Some_0.value() == root_number(
            press.root,
            press.octave,
        ) + semis[i] by {
            assert(chord_note(track, site, i) == Some(notes[i]));
        }
        assert forall|i: int, j: int| 0 <= i <= j < semis.len() implies (#[trigger] chord_note(
            track,
            site,
            i,
        ))->Some_0.value() <= (#[trigger] chord_note(track, site, j))->Some_0.value() by {
            assert(chord_note(track, site, i) == Some(notes[i]));
            assert(chord_note(track, site, j) == Some(notes[j]));
            super::chords::lemma_semitones_rise(press.kind, i, j);
        }
    }
}

} // verus!
