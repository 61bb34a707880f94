//! The compiler from the syntax tree of a song to a track.

use super::ast::first_channel;
use super::ast::first_port;
use super::ast::first_velocity;
use super::ast::is_same_output;
use super::ast::same_output;
use super::ast::AsmCommand;
use super::ast::ChordKind;
use super::ast::ChordPress;
use super::ast::LangItem;
use super::ast::OutputLabel;
use super::ast::PressLine;
use super::ast::SongAttribute;
use crate::midi::MidiChannel;
use crate::midi::MidiMessage;
use crate::midi::MidiNote;
use crate::midi::NoteOn;
use crate::midi::PressVelocity;
use crate::model::lemma_major_nth;
use crate::model::lemma_minor_nth;
use crate::model::major_offsets;
use crate::model::minor_offsets;
use crate::model::NoteClass;
use crate::model::NoteKey;
use crate::model::Octave;
use super::presses::chord_in_track;
use super::presses::lemma_song_chords;
use super::presses::song_sites;
use super::soundness::lemma_compiled_valid;
use crate::track::valid_track;
use crate::track::BpmInfo;
use crate::track::OutputPort;
use crate::track::TrackEvent;
use crate::track::WaitTime;
use crate::utils::NonZeroU16;
use vstd::prelude::*;

verus! {

broadcast use {
    crate::utils::group_nonzero,
    crate::midi::group_midi_values,
    crate::model::group_octave,
};

/// Why a song cannot be compiled.
#[derive(Debug, Clone, PartialEq, Eq)]
pub enum CompilerError {
    /// A jump names a label that the song does not set.
    LabelNotFound(String),
    /// The song sets a label twice: at the instructions `first_location` and
    /// `second_location`.
    DuplicateLabel { label: String, first_location: usize, second_location: usize },
    /// An attribute is set after the song's header.
    AttributeOutsideHeader(SongAttribute),
    /// An attribute is set twice: to the first value, then to the second.
    DuplicateAttributes(SongAttribute, SongAttribute),
}

/// The attributes that a song's header has set so far.
#[derive(Debug, Clone, PartialEq, Eq)]
pub struct SongAttributes {
    pub press_dur: Option<WaitTime>,
    pub press_vel: Option<PressVelocity>,
    pub bpm: Option<BpmInfo>,
    pub channel: Option<MidiChannel>,
    pub outport: Option<OutputLabel>,
}

impl SongAttributes {
    /// The attributes of a song that has set none.
    pub open spec fn unset() -> SongAttributes {
        SongAttributes { press_dur: None, press_vel: None, bpm: None, channel: None, outport: None }
    }

    /// How long a press lasts where nothing says so: the header's duration,
    /// or one tick.
    pub open spec fn duration_or_default(self) -> WaitTime {
        match self.press_dur {
            Some(d) => d,
            None => WaitTime::Ticks(NonZeroU16::of(1)),
        }
    }

    /// The velocity of a press where nothing says so: the header's, or 90.
    pub open spec fn velocity_or_default(self) -> PressVelocity {
        match self.press_vel {
            Some(v) => v,
            None => PressVelocity::of(90),
        }
    }

    /// The channel of a press where nothing says so: the header's, or 0.
    pub open spec fn channel_or_default(self) -> MidiChannel {
        match self.channel {
            Some(c) => c,
            None => MidiChannel::of(0),
        }
    }

    /// The song's timing: the header's, or the standard timing.
    pub open spec fn bpm_or_default(self) -> BpmInfo {
        match self.bpm {
            Some(b) => b,
            None => BpmInfo::standard(),
        }
    }

    /// The attributes with `attr` set as well, unless an attribute of that
    /// kind is set already: then the error that names the value it has and
    /// the value that was to be set.
    pub open spec fn pushed(self, attr: SongAttribute) -> Result<SongAttributes, CompilerError> {
        match attr {
            SongAttribute::DefaultDuration(dur) => match self.press_dur {
                Some(prev) => Err(
                    CompilerError::DuplicateAttributes(
                        SongAttribute::DefaultDuration(prev),
                        SongAttribute::DefaultDuration(dur),
                    ),
                ),
                None => Ok(SongAttributes { press_dur: Some(dur), ..self }),
            },
            SongAttribute::DefaultPressVelocity(vel) => match self.press_vel {
                Some(prev) => Err(
                    CompilerError::DuplicateAttributes(
                        SongAttribute::DefaultPressVelocity(prev),
                        SongAttribute::DefaultPressVelocity(vel),
                    ),
                ),
                None => Ok(SongAttributes { press_vel: Some(vel), ..self }),
            },
            SongAttribute::Signature(bpm) => match self.bpm {
                Some(prev) => Err(
                    CompilerError::DuplicateAttributes(
                        SongAttribute::Signature(prev),
                        SongAttribute::Signature(bpm),
                    ),
                ),
                None => Ok(SongAttributes { bpm: Some(bpm), ..self }),
            },
            SongAttribute::DefaultPort(outport) => match self.outport {
                Some(prev) => Err(
                    CompilerError::DuplicateAttributes(
                        SongAttribute::DefaultPort(prev),
                        SongAttribute::DefaultPort(outport),
                    ),
                ),
                None => Ok(SongAttributes { outport: Some(outport), ..self }),
            },
            SongAttribute::DefaultChannel(chan) => match self.channel {
                Some(prev) => Err(
                    CompilerError::DuplicateAttributes(
                        SongAttribute::DefaultChannel(prev),
                        SongAttribute::DefaultChannel(chan),
                    ),
                ),
                None => Ok(SongAttributes { channel: Some(chan), ..self }),
            },
        }
    }

    /// The attributes of a song that has set none.
    pub fn new() -> (r: Self)
        ensures
            r == SongAttributes::unset(),
    {
        SongAttributes { press_dur: None, press_vel: None, bpm: None, channel: None, outport: None }
    }

    /// How long a press lasts where nothing says so.
    pub fn default_duration(&self) -> (r: WaitTime)
        ensures
            r == self.duration_or_default(),
    {
        match self.press_dur {
            Some(d) => d,
            None => WaitTime::Ticks(NonZeroU16::one()),
        }
    }

    /// The velocity of a press where nothing says so.
    pub fn default_velocity(&self) -> (r: PressVelocity)
        ensures
            r == self.velocity_or_default(),
    {
        match self.press_vel {
            Some(v) => v,
            None => match PressVelocity::from_raw(90) {
                Some(v) => v,
                None => PressVelocity::default(),
            },
        }
    }

    /// The channel of a press where nothing says so.
    pub fn default_channel(&self) -> (r: MidiChannel)
        ensures
            r == self.channel_or_default(),
    {
        match self.channel {
            Some(c) => c,
            None => MidiChannel::default(),
        }
    }

    /// The output of a press where nothing says so: the header's, or the
    /// nameless output.
    pub fn default_port(&self) -> (r: Option<OutputLabel>)
        ensures
            r == self.outport,
    {
        match &self.outport {
            Some(l) => Some(l.clone()),
            None => None,
        }
    }

    /// The song's timing.
    pub fn default_bpm(&self) -> (r: BpmInfo)
        ensures
            r == self.bpm_or_default(),
    {
        match self.bpm {
            Some(b) => b,
            None => BpmInfo::default(),
        }
    }

    /// Sets the attribute `attr`, unless an attribute of that kind is set
    /// already.
    pub fn push_attribute(&mut self, attr: SongAttribute) -> (r: Result<(), CompilerError>)
        ensures
            match r {
                Ok(()) => old(self).pushed(attr) == Ok::<SongAttributes, CompilerError>(
                    *final(self),
                ),
                Err(e) => old(self).pushed(attr) == Err::<SongAttributes, CompilerError>(e)
                    && *final(self) == *old(self),
            },
    {
        match attr {
            SongAttribute::DefaultDuration(dur) => {
                if let Some(prev) = self.press_dur {
                    return Err(
                        CompilerError::DuplicateAttributes(
                            SongAttribute::DefaultDuration(prev),
                            SongAttribute::DefaultDuration(dur),
                        ),
                    );
                }
                self.press_dur = Some(dur);
                Ok(())
            },
            SongAttribute::DefaultPressVelocity(vel) => {
                if let Some(prev) = self.press_vel {
                    return Err(
                        CompilerError::DuplicateAttributes(
                            SongAttribute::DefaultPressVelocity(prev),
                            SongAttribute::DefaultPressVelocity(vel),
                        ),
                    );
                }
                self.press_vel = Some(vel);
                Ok(())
            },
            SongAttribute::Signature(bpm) => {
                if let Some(prev) = self.bpm {
                    return Err(
                        CompilerError::DuplicateAttributes(
                            SongAttribute::Signature(prev),
                            SongAttribute::Signature(bpm),
                        ),
                    );
                }
                self.bpm = Some(bpm);
                Ok(())
            },
            SongAttribute::DefaultPort(outport) => {
                if let Some(prev) = &self.outport {
                    return Err(
                        CompilerError::DuplicateAttributes(
                            SongAttribute::DefaultPort(prev.clone()),
                            SongAttribute::DefaultPort(outport),
                        ),
                    );
                }
                self.outport = Some(outport);
                Ok(())
            },
            SongAttribute::DefaultChannel(chan) => {
                if let Some(prev) = self.channel {
                    return Err(
                        CompilerError::DuplicateAttributes(
                            SongAttribute::DefaultChannel(prev),
                            SongAttribute::DefaultChannel(chan),
                        ),
                    );
                }
                self.channel = Some(chan);
                Ok(())
            },
        }
    }
}

impl Default for SongAttributes {
    fn default() -> (r: SongAttributes)
        ensures
            r == SongAttributes::unset(),
    {
        SongAttributes::new()
    }
}

/// The ports of a compiled track: the output, named or nameless, of each
/// port index, in the order in which the song first uses them.
pub type PortList = Vec<Option<OutputLabel>>;

/// What the compiler has gathered of a song so far.
pub struct CompilerState {
    /// The attributes that the header has set.
    pub attributes: SongAttributes,
    /// The jumps whose label was not yet set when they were met: the place
    /// of each jump, and the label's name.
    pub backlog: Seq<(usize, String)>,
    /// The outputs used, each at the place of its port index.
    pub ports: Seq<Option<OutputLabel>>,
    /// The labels set: each name with the place that it marks.
    pub labels: Seq<(String, usize)>,
    /// The track built.
    pub track: Seq<TrackEvent>,
}

/// The state of the compiler while it works through a song.
pub struct Compiler {
    /// The attributes that the header has set.
    pub attributes: SongAttributes,
    /// The log of the jumps whose label was not yet set when they were met:
    /// the place of each jump and the label's name, in the order in which
    /// the jumps were met, which is the order in which they are resolved.
    pub jump_fix_backlog: Vec<(usize, String)>,
    /// The outputs used, each at the place of its port index. Outputs are
    /// told apart by the text of their names.
    pub ports: PortList,
    /// The labels set, each name with the place that it marks, in the order
    /// in which they were set. Labels are told apart by the text of their
    /// names.
    pub labels: Vec<(String, usize)>,
    /// The track built so far.
    pub track: Vec<TrackEvent>,
}

impl View for Compiler {
    type V = CompilerState;

    open spec fn view(&self) -> CompilerState {
        CompilerState {
            attributes: self.attributes,
            backlog: self.jump_fix_backlog@,
            ports: self.ports@,
            labels: self.labels@,
            track: self.track@,
        }
    }
}

/// The place of the first of `ports`, from place `from` on, that is the
/// output `label`; the length of `ports` where there is none.
pub open spec fn port_position(
    ports: Seq<Option<OutputLabel>>,
    label: Option<OutputLabel>,
    from: int,
) -> int
    decreases ports.len() - from,
{
    if from < 0 || from >= ports.len() {
        ports.len() as int
    } else if same_output(ports[from], label) {
        from
    } else {
        port_position(ports, label, from + 1)
    }
}

/// The place of the first of `labels`, from place `from` on, whose name is
/// `name`; the length of `labels` where there is none.
pub open spec fn label_position(labels: Seq<(String, usize)>, name: Seq<char>, from: int) -> int
    decreases labels.len() - from,
{
    if from < 0 || from >= labels.len() {
        labels.len() as int
    } else if labels[from].0@ == name {
        from
    } else {
        label_position(labels, name, from + 1)
    }
}

/// The places in its key of the notes of a chord of the kind `kind`, upward
/// from the root at place 0.
pub open spec fn chord_steps(kind: ChordKind) -> Seq<int> {
    match kind {
        ChordKind::Raw => seq![0],
        ChordKind::Fifth => seq![0, 4],
        ChordKind::Major | ChordKind::Minor => seq![0, 2, 4],
        ChordKind::Major7 | ChordKind::Minor7 => seq![0, 2, 4, 7],
    }
}

/// Whether a chord of the kind `kind` takes its notes from the minor key on
/// its root; else it takes them from the major key.
pub open spec fn chord_is_minor(kind: ChordKind) -> bool {
    kind == ChordKind::Minor || kind == ChordKind::Minor7
}

/// The class at place `place` of the key of a chord on `root`.
pub open spec fn chord_class(root: NoteClass, kind: ChordKind, place: int) -> NoteClass {
    root.shifted(
        if chord_is_minor(kind) {
            minor_offsets()[place % 7]
        } else {
            major_offsets()[place % 7]
        },
    )
}

/// The first `n` notes of the chord of the kind `kind` on `root` in
/// `octave`.
///
/// Each note is the note in `octave` of its class in the chord's key, raised
/// by 12 where that lies below the note before it (for the first note: below
/// the root's note); the raising wraps round at 128.
pub open spec fn chord_pitches(root: NoteClass, octave: Octave, kind: ChordKind, n: nat) -> Seq<
    MidiNote,
>
    decreases n,
{
    if n == 0 || n > chord_steps(kind).len() {
        Seq::empty()
    } else {
        let before = chord_pitches(root, octave, kind, (n - 1) as nat);
        let prev = if n == 1 {
            MidiNote::at(root, octave)
        } else {
            before.last()
        };
        let candidate = MidiNote::at(chord_class(root, kind, chord_steps(kind)[n - 1]), octave);
        before.push(
            if candidate.value() < prev.value() {
                candidate.wrapped_add(12)
            } else {
                candidate
            },
        )
    }
}

/// The instructions that press `notes` on `channel` with the velocity `vel`
/// out of `port`: one note-on for each note.
pub open spec fn note_events(
    notes: Seq<MidiNote>,
    channel: MidiChannel,
    vel: PressVelocity,
    port: OutputPort,
) -> Seq<TrackEvent> {
    Seq::new(
        notes.len(),
        |i: int|
            TrackEvent::SendMessage {
                message: MidiMessage::NoteOn(NoteOn { channel, note: notes[i], vel }),
                port,
            },
    )
}

/// The count of the jump that closes a loop of `repetitions` passes: one
/// less than the passes, and at least 1; none for a loop without end.
pub open spec fn loop_count(repetitions: Option<NonZeroU16>) -> Option<NonZeroU16> {
    match repetitions {
        Some(n) => Some(
            if n.value() >= 2 {
                NonZeroU16::of(n.value() - 1)
            } else {
                NonZeroU16::of(1)
            },
        ),
        None => None,
    }
}

/// The track with the jump at place `idx` pointed at `target`.
pub open spec fn retargeted(track: Seq<TrackEvent>, idx: usize, target: usize) -> Seq<TrackEvent> {
    if idx < track.len() {
        match track[idx as int] {
            TrackEvent::Jump { count, .. } => track.update(
                idx as int,
                TrackEvent::Jump { target, count },
            ),
            _ => track,
        }
    } else {
        track
    }
}

/// The instruction `event` after one more instruction was put into its
/// track at place `idx`: a jump that pointed at that place or behind it
/// points one place further, going round to 0 from the largest place there
/// is.
pub open spec fn shifted_event(event: TrackEvent, idx: usize) -> TrackEvent {
    match event {
        TrackEvent::Jump { target, count } => if target >= idx {
            TrackEvent::Jump {
                target: if target == usize::MAX {
                    0
                } else {
                    (target + 1) as usize
                },
                count,
            }
        } else {
            event
        },
        _ => event,
    }
}

/// The track with `event` put in at place `idx`, where every jump, that of
/// `event` too, that pointed at place `idx` or behind it points one place
/// further.
pub open spec fn with_inserted(track: Seq<TrackEvent>, idx: usize, event: TrackEvent) -> Seq<
    TrackEvent,
> {
    Seq::new(
        track.len() + 1,
        |i: int| shifted_event(track.insert(idx as int, event)[i], idx),
    )
}

impl CompilerState {
    /// The state before anything of a song was seen.
    pub open spec fn empty() -> CompilerState {
        CompilerState {
            attributes: SongAttributes::unset(),
            backlog: Seq::empty(),
            ports: Seq::empty(),
            labels: Seq::empty(),
            track: Seq::empty(),
        }
    }

    /// Whether the song's header is still open: nothing was emitted yet but,
    /// at most, the one timing instruction that the header's signature
    /// stands for.
    pub open spec fn header_open(self) -> bool {
        self.track.len() == 0 || (self.track.len() == 1 && (self.track[0] matches TrackEvent::SetBpm(
            b,
        ) && self.attributes.bpm == Some(b)))
    }

    /// The port index of the output `label`, and the state with that output
    /// known: an output that was used before keeps its index, a new one gets
    /// the next index.
    pub open spec fn with_port(self, label: Option<OutputLabel>) -> (CompilerState, OutputPort) {
        let pos = port_position(self.ports, label, 0);
        if pos < self.ports.len() {
            (self, OutputPort { idx: pos as u128 })
        } else {
            (CompilerState { ports: self.ports.push(label), ..self }, OutputPort { idx: pos as u128 })
        }
    }

    /// The place that the label `name` marks, if the label is set.
    pub open spec fn label_target(self, name: Seq<char>) -> Option<usize> {
        let pos = label_position(self.labels, name, 0);
        if pos < self.labels.len() {
            Some(self.labels[pos].1)
        } else {
            None
        }
    }

    /// The state after the label `name` is set at the end of the track so
    /// far; an error where the label is set already.
    pub open spec fn with_label(self, name: String) -> (CompilerState, Result<(), CompilerError>) {
        match self.label_target(name@) {
            Some(first) => (
                self,
                Err(
                    CompilerError::DuplicateLabel {
                        label: name,
                        first_location: first,
                        second_location: self.track.len() as usize,
                    },
                ),
            ),
            None => (
                CompilerState {
                    labels: self.labels.push((name, self.track.len() as usize)),
                    ..self
                },
                Ok(()),
            ),
        }
    }

    /// The state after a jump to the label `label`: the jump points at the
    /// label's place where the label is set; else it is noted for later and
    /// points nowhere for now.
    pub open spec fn with_jump(self, count: Option<NonZeroU16>, label: String) -> CompilerState {
        match self.label_target(label@) {
            Some(target) => CompilerState {
                track: self.track.push(TrackEvent::Jump { count, target }),
                ..self
            },
            None => CompilerState {
                backlog: self.backlog.push((self.track.len() as usize, label)),
                track: self.track.push(TrackEvent::Jump { count, target: usize::MAX }),
                ..self
            },
        }
    }

    /// The state after the attribute `attr` is set. In the open header the
    /// attribute is recorded, unless one of its kind is set already, and a
    /// signature also emits the song's first instruction, which sets the
    /// timing. After the header every attribute is an error.
    pub open spec fn with_attribute(self, attr: SongAttribute) -> (
        CompilerState,
        Result<(), CompilerError>,
    ) {
        if self.header_open() {
            match self.attributes.pushed(attr) {
                Err(e) => (self, Err(e)),
                Ok(attributes) => (
                    CompilerState {
                        attributes,
                        track: match attr {
                            SongAttribute::Signature(bpm) => self.track.push(
                                TrackEvent::SetBpm(bpm),
                            ),
                            _ => self.track,
                        },
                        ..self
                    },
                    Ok(()),
                ),
            }
        } else {
            (self, Err(CompilerError::AttributeOutsideHeader(attr)))
        }
    }

    /// The channel of the chord `press` of the line `line`: the chord's own,
    /// else the line's, else the song's.
    pub open spec fn press_channel(self, line: PressLine, press: ChordPress) -> MidiChannel {
        match first_channel(press.modifiers@, 0) {
            Some(c) => c,
            None => match first_channel(line.modifiers@, 0) {
                Some(c) => c,
                None => self.attributes.channel_or_default(),
            },
        }
    }

    /// The velocity of the chord `press` of the line `line`: the chord's
    /// own, else the line's, else the song's.
    pub open spec fn press_velocity(self, line: PressLine, press: ChordPress) -> PressVelocity {
        match first_velocity(press.modifiers@, 0) {
            Some(v) => v,
            None => match first_velocity(line.modifiers@, 0) {
                Some(v) => v,
                None => self.attributes.velocity_or_default(),
            },
        }
    }

    /// The output of the chord `press` of the line `line`: the chord's own,
    /// else the line's, else the song's.
    pub open spec fn press_output(self, line: PressLine, press: ChordPress) -> Option<OutputLabel> {
        match first_port(press.modifiers@, 0) {
            Some(l) => Some(l),
            None => match first_port(line.modifiers@, 0) {
                Some(l) => Some(l),
                None => self.attributes.outport,
            },
        }
    }

    /// The state after the chord `press` of the line `line`: the chord's
    /// output is known, and the track presses the chord's notes. The track
    /// releases no note, so the duration of a press does not reach it.
    pub open spec fn with_press(self, line: PressLine, press: ChordPress) -> CompilerState {
        let (known, port) = self.with_port(self.press_output(line, press));
        CompilerState {
            track: known.track + note_events(
                chord_pitches(
                    press.root,
                    press.octave,
                    press.kind,
                    chord_steps(press.kind).len(),
                ),
                self.press_channel(line, press),
                self.press_velocity(line, press),
                port,
            ),
            ..known
        }
    }

    /// The state after the first `n` chords of the line `line`.
    pub open spec fn with_presses(self, line: PressLine, n: nat) -> CompilerState
        decreases n,
    {
        if n == 0 || n > line.presses@.len() {
            self
        } else {
            self.with_presses(line, (n - 1) as nat).with_press(line, line.presses@[n - 1])
        }
    }

    /// The state after the line `line`: all its chords are pressed, then the
    /// track waits for one tick.
    pub open spec fn with_pressline(self, line: PressLine) -> CompilerState {
        let pressed = self.with_presses(line, line.presses@.len());
        CompilerState {
            track: pressed.track.push(TrackEvent::Wait(WaitTime::Ticks(NonZeroU16::of(1)))),
            ..pressed
        }
    }

    /// The state with `event` at the end of the track.
    pub open spec fn with_event(self, event: TrackEvent) -> CompilerState {
        CompilerState { track: self.track.push(event), ..self }
    }

    /// The state after the item `item`, or the state at which the item
    /// failed, with the error.
    ///
    /// A loop is its body followed by a jump back to the body's start, with
    /// the count that `loop_count` gives. A line of presses, a wait, a
    /// timing, a message, a label, a jump and an attribute each do what the
    /// function named for them says.
    pub open spec fn with_item(self, item: LangItem) -> (CompilerState, Result<(), CompilerError>)
        decreases item, 0nat,
    {
        match item {
            LangItem::Loop { expr, repititions } => {
                let target = self.track.len() as usize;
                let (body, done) = self.with_items(expr@, expr@.len());
                match done {
                    Err(e) => (body, Err(e)),
                    Ok(()) => (
                        body.with_event(
                            TrackEvent::Jump { target, count: loop_count(repititions) },
                        ),
                        Ok(()),
                    ),
                }
            },
            LangItem::NotePress(data) => (self.with_pressline(data), Ok(())),
            LangItem::Wait(dur) => (self.with_event(TrackEvent::Wait(dur)), Ok(())),
            LangItem::Asm(AsmCommand::Wait(dur)) => (
                self.with_event(TrackEvent::Wait(dur)),
                Ok(()),
            ),
            LangItem::Asm(AsmCommand::SetBpm(bpm)) => (
                self.with_event(TrackEvent::SetBpm(bpm)),
                Ok(()),
            ),
            LangItem::Asm(AsmCommand::Label(lbl)) => self.with_label(lbl),
            LangItem::Asm(AsmCommand::Send { message, port }) => {
                let (known, port_idx) = self.with_port(port);
                (known.with_event(TrackEvent::SendMessage { message, port: port_idx }), Ok(()))
            },
            LangItem::Asm(AsmCommand::Jump { count, label }) => (
                self.with_jump(count, label),
                Ok(()),
            ),
            LangItem::SetAttribute(attr) => self.with_attribute(attr),
        }
    }

    /// The state after the first `n` of `items`, or the state at which one
    /// of them failed, with the error.
    pub open spec fn with_items(self, items: Seq<LangItem>, n: nat) -> (
        CompilerState,
        Result<(), CompilerError>,
    )
        decreases items, n,
    {
        if n == 0 || n > items.len() {
            (self, Ok(()))
        } else {
            let (before, done) = self.with_items(items, (n - 1) as nat);
            match done {
                Err(e) => (before, Err(e)),
                Ok(()) => before.with_item(items[n - 1]),
            }
        }
    }

    /// The track after the first `n` of the jumps noted for later were
    /// pointed at their labels; an error at the first of them whose label is
    /// not set.
    pub open spec fn resolved(self, n: nat) -> (Seq<TrackEvent>, Result<(), CompilerError>)
        decreases n,
    {
        if n == 0 || n > self.backlog.len() {
            (self.track, Ok(()))
        } else {
            let (track, done) = self.resolved((n - 1) as nat);
            match done {
                Err(e) => (track, Err(e)),
                Ok(()) => {
                    let (idx, name) = self.backlog[n - 1];
                    match self.label_target(name@) {
                        None => (track, Err(CompilerError::LabelNotFound(name))),
                        Some(target) => (retargeted(track, idx, target), Ok(())),
                    }
                },
            }
        }
    }
}

/// What a song compiles to: its track, closed by the end instruction, with
/// every jump pointed at its label, and the outputs of its ports; or the
/// first error met.
pub open spec fn compiled(song: Seq<LangItem>) -> Result<
    (Seq<TrackEvent>, Seq<Option<OutputLabel>>),
    CompilerError,
> {
    let (body, done) = CompilerState::empty().with_items(song, song.len());
    match done {
        Err(e) => Err(e),
        Ok(()) => {
            let closed = body.with_event(TrackEvent::End);
            let (track, fixed) = closed.resolved(closed.backlog.len());
            match fixed {
                Err(e) => Err(e),
                Ok(()) => Ok((track, closed.ports)),
            }
        },
    }
}

/// Once an item has failed, the items after it change nothing.
pub proof fn lemma_items_failed(st: CompilerState, items: Seq<LangItem>, k: nat, n: nat)
    requires
        k <= n <= items.len(),
        st.with_items(items, k).1 is Err,
    ensures
        st.with_items(items, n) == st.with_items(items, k),
    decreases n,
{
    if n > k {
        lemma_items_failed(st, items, k, (n - 1) as nat);
    }
}

/// Once a jump has found no label, the jumps after it change nothing.
pub proof fn lemma_resolve_failed(st: CompilerState, k: nat, n: nat)
    requires
        k <= n <= st.backlog.len(),
        st.resolved(k).1 is Err,
    ensures
        st.resolved(n) == st.resolved(k),
    decreases n,
{
    if n > k {
        lemma_resolve_failed(st, k, (n - 1) as nat);
    }
}

/// The places in its key of the notes of a chord of the kind `kind`.
fn chord_places(kind: ChordKind) -> (r: Vec<isize>)
    ensures
        r@.len() == chord_steps(kind).len(),
        forall|i: int| 0 <= i < r@.len() ==> #[trigger] r@[i] == chord_steps(kind)[i],
        r@.len() <= 4,
{
    match kind {
        ChordKind::Raw => vec![0],
        ChordKind::Fifth => vec![0, 4],
        ChordKind::Major | ChordKind::Minor => vec![0, 2, 4],
        ChordKind::Major7 | ChordKind::Minor7 => vec![0, 2, 4, 7],
    }
}

impl Compiler {
    /// A compiler that has seen nothing yet.
    pub fn new() -> (r: Self)
        ensures
            r@ == CompilerState::empty(),
    {
        Compiler {
            attributes: SongAttributes::new(),
            jump_fix_backlog: Vec::new(),
            ports: Vec::new(),
            labels: Vec::new(),
            track: Vec::new(),
        }
    }

    /// The port index of the output `port`: the index it has, or the next
    /// free index, which it is given.
    pub fn port_label_to_idx(&mut self, port: Option<OutputLabel>) -> (r: OutputPort)
        ensures
            (final(self)@, r) == old(self)@.with_port(port),
    {
        let n = self.ports.len();
        let mut i: usize = 0;
        while i < n
            invariant
                i <= n,
                n == self.ports@.len(),
                *self == *old(self),
                port_position(self.ports@, port, 0) == port_position(self.ports@, port, i as int),
            decreases n - i,
        {
            if is_same_output(&self.ports[i], &port) {
                return OutputPort { idx: i as u128 };
            }
            i = i + 1;
        }
        self.ports.push(port);
        OutputPort { idx: n as u128 }
    }

    /// The place that the label `name` marks, if the label is set.
    pub fn find_label(&self, name: &String) -> (r: Option<usize>)
        ensures
            r == self@.label_target(name@),
    {
        let n = self.labels.len();
        let mut i: usize = 0;
        while i < n
            invariant
                i <= n,
                n == self.labels@.len(),
                label_position(self.labels@, name@, 0) == label_position(
                    self.labels@,
                    name@,
                    i as int,
                ),
            decreases n - i,
        {
            if self.labels[i].0 == *name {
                return Some(self.labels[i].1);
            }
            i = i + 1;
        }
        None
    }

    /// Puts `event` into the track at place `idx`, and moves on by one place
    /// every jump that pointed at that place or behind it.
    pub fn insert_event(&mut self, idx: usize, event: TrackEvent)
        requires
            idx <= old(self)@.track.len(),
        ensures
            final(self)@ == (CompilerState {
                track: with_inserted(old(self)@.track, idx, event),
                ..old(self)@
            }),
    {
        self.track.insert(idx, event);
        let ghost inserted = self.track@;
        let n = self.track.len();
        let mut i: usize = 0;
        while i < n
            invariant
                i <= n,
                n == self.track@.len(),
                n == inserted.len(),
                self@ == (CompilerState { track: self.track@, ..old(self)@ }),
                forall|j: int| 0 <= j < i ==> #[trigger] self.track@[j] == shifted_event(
                    inserted[j],
                    idx,
                ),
                forall|j: int| i <= j < n ==> #[trigger] self.track@[j] == inserted[j],
            decreases n - i,
        {
            match self.track[i] {
                TrackEvent::Jump { target, count } => {
                    if target >= idx {
                        self.track[i] = TrackEvent::Jump { target: target.wrapping_add(1), count };
                    }
                },
                _ => {},
            }
            i = i + 1;
        }
        proof {
            assert(self.track@ =~= with_inserted(old(self)@.track, idx, event));
        }
    }

    /// Points the jumps that were noted for later at their labels.
    pub fn resolve_jumps(&mut self) -> (r: Result<(), CompilerError>)
        ensures
            r == old(self)@.resolved(old(self)@.backlog.len()).1,
            final(self)@ == (CompilerState {
                track: old(self)@.resolved(old(self)@.backlog.len()).0,
                backlog: Seq::empty(),
                ..old(self)@
            }),
    {
        let n = self.jump_fix_backlog.len();
        let mut i: usize = 0;
        while i < n
            invariant
                i <= n,
                n == self.jump_fix_backlog@.len(),
                self@ == (CompilerState { track: old(self)@.resolved(i as nat).0, ..old(self)@ }),
                old(self)@.resolved(i as nat).1 is Ok,
            decreases n - i,
        {
            let instr_idx: usize = self.jump_fix_backlog[i].0;
            let found = self.find_label(&self.jump_fix_backlog[i].1);
            match found {
                None => {
                    let name = self.jump_fix_backlog[i].1.clone();
                    self.jump_fix_backlog.clear();
                    proof {
                        lemma_resolve_failed(old(self)@, (i + 1) as nat, n as nat);
                    }
                    return Err(CompilerError::LabelNotFound(name));
                },
                Some(new_target) => {
                    if instr_idx < self.track.len() {
                        match self.track[instr_idx] {
                            TrackEvent::Jump { count, .. } => {
                                self.track[instr_idx] = TrackEvent::Jump {
                                    target: new_target,
                                    count,
                                };
                            },
                            _ => {},
                        }
                    }
                },
            }
            i = i + 1;
        }
        self.jump_fix_backlog.clear();
        Ok(())
    }

    /// Sets the label `lbl` at the end of the track so far.
    pub fn encounter_setlabel(&mut self, lbl: String) -> (r: Result<(), CompilerError>)
        ensures
            (final(self)@, r) == old(self)@.with_label(lbl),
    {
        let prev = self.find_label(&lbl);
        let target = self.track.len();
        match prev {
            Some(p) => Err(
                CompilerError::DuplicateLabel {
                    label: lbl,
                    first_location: p,
                    second_location: target,
                },
            ),
            None => {
                self.labels.push((lbl, target));
                Ok(())
            },
        }
    }

    /// Presses the chord `press` of the line `line`.
    pub fn encounter_press(&mut self, line: &PressLine, press: &ChordPress)
        ensures
            final(self)@ == old(self)@.with_press(*line, *press),
    {
        let channel = match press.channel() {
            Some(c) => c,
            None => match line.channel() {
                Some(c) => c,
                None => self.attributes.default_channel(),
            },
        };
        let vel = match press.velocity() {
            Some(v) => v,
            None => match line.velocity() {
                Some(v) => v,
                None => self.attributes.default_velocity(),
            },
        };
        let label = match press.port() {
            Some(l) => Some(l.clone()),
            None => match line.port() {
                Some(l) => Some(l.clone()),
                None => self.attributes.default_port(),
            },
        };
        let port = self.port_label_to_idx(label);
        let ghost known = self@;
        let offsets = chord_places(press.kind);
        let key = match press.kind {
            ChordKind::Minor | ChordKind::Minor7 => NoteKey::minor(press.root),
            ChordKind::Major | ChordKind::Major7 | ChordKind::Raw | ChordKind::Fifth => {
                NoteKey::major(press.root)
            },
        };
        let root_pitch = MidiNote::from_note_octave(press.root, press.octave);
        let mut prev_pitch = root_pitch;
        let n = offsets.len();
        let mut i: usize = 0;
        proof {
            assert(known.track + note_events(
                chord_pitches(press.root, press.octave, press.kind, 0),
                channel,
                vel,
                port,
            ) =~= known.track);
        }
        while i < n
            invariant
                i <= n,
                n == offsets@.len(),
                n == chord_steps(press.kind).len(),
                forall|j: int| 0 <= j < n ==> #[trigger] offsets@[j] == chord_steps(press.kind)[j],
                key.is_scale(
                    press.root,
                    if chord_is_minor(press.kind) {
                        minor_offsets()
                    } else {
                        major_offsets()
                    },
                ),
                self@ == (CompilerState {
                    track: known.track + note_events(
                        chord_pitches(press.root, press.octave, press.kind, i as nat),
                        channel,
                        vel,
                        port,
                    ),
                    ..known
                }),
                chord_pitches(press.root, press.octave, press.kind, i as nat).len() == i,
                prev_pitch == if i == 0 {
                    MidiNote::at(press.root, press.octave)
                } else {
                    chord_pitches(press.root, press.octave, press.kind, i as nat).last()
                },
            decreases n - i,
        {
            let ghost before = chord_pitches(press.root, press.octave, press.kind, i as nat);
            proof {
                if chord_is_minor(press.kind) {
                    lemma_minor_nth(key, press.root, offsets@[i as int] as int);
                } else {
                    lemma_major_nth(key, press.root, offsets@[i as int] as int);
                }
            }
            let mut cur_pitch = MidiNote::from_note_octave(key.nth(offsets[i]), press.octave);
            if cur_pitch.is_below(prev_pitch) {
                cur_pitch = cur_pitch.wrapping_add(12);
            }
            let noteon = NoteOn::new(channel, cur_pitch, vel);
            let evt = TrackEvent::SendMessage { message: MidiMessage::NoteOn(noteon), port };
            self.track.push(evt);
            prev_pitch = cur_pitch;
            i = i + 1;
            proof {
                let after = chord_pitches(press.root, press.octave, press.kind, i as nat);
                assert(after == before.push(cur_pitch));
                assert(known.track + note_events(after, channel, vel, port) =~= (known.track
                    + note_events(before, channel, vel, port)).push(evt));
            }
        }
    }

    /// Presses the chords of the line `data`, then waits for one tick.
    pub fn encounter_pressline(&mut self, data: &PressLine) -> (r: Result<(), CompilerError>)
        ensures
            r == Ok::<(), CompilerError>(()),
            final(self)@ == old(self)@.with_pressline(*data),
    {
        let n = data.presses.len();
        let mut p: usize = 0;
        while p < n
            invariant
                p <= n,
                n == data.presses@.len(),
                self@ == old(self)@.with_presses(*data, p as nat),
            decreases n - p,
        {
            self.encounter_press(data, &data.presses[p]);
            p = p + 1;
        }
        let line_wait = TrackEvent::Wait(WaitTime::Ticks(NonZeroU16::one()));
        self.track.push(line_wait);
        Ok(())
    }

    /// Compiles a loop: its body, then the jump back to the body's start.
    pub fn encounter_loop(&mut self, rawcount: Option<NonZeroU16>, body: &Vec<LangItem>) -> (r:
        Result<(), CompilerError>)
        ensures
            (final(self)@, r) == (match old(self)@.with_items(body@, body@.len()).1 {
                Err(e) => (
                    old(self)@.with_items(body@, body@.len()).0,
                    Err::<(), CompilerError>(e),
                ),
                Ok(()) => (
                    old(self)@.with_items(body@, body@.len()).0.with_event(
                        TrackEvent::Jump {
                            target: old(self)@.track.len() as usize,
                            count: loop_count(rawcount),
                        },
                    ),
                    Ok::<(), CompilerError>(()),
                ),
            }),
        decreases body,
    {
        let count = match rawcount {
            Some(n) => {
                let raw = n.get();
                if raw >= 2 {
                    NonZeroU16::new(raw - 1)
                } else {
                    Some(NonZeroU16::one())
                }
            },
            None => None,
        };
        let target = self.track.len();
        let n = body.len();
        let mut i: usize = 0;
        while i < n
            invariant
                i <= n,
                n == body@.len(),
                (self@, Ok::<(), CompilerError>(())) == old(self)@.with_items(body@, i as nat),
            decreases n - i,
        {
            match self.compile_item_ref(&body[i]) {
                Err(e) => {
                    proof {
                        lemma_items_failed(old(self)@, body@, (i + 1) as nat, n as nat);
                    }
                    return Err(e);
                },
                Ok(()) => {},
            }
            i = i + 1;
        }
        let jmp = TrackEvent::Jump { target, count };
        self.track.push(jmp);
        Ok(())
    }

    /// Compiles a jump to the label `label`.
    pub fn encounter_jump(&mut self, count: Option<NonZeroU16>, label: String) -> (r: Result<
        (),
        CompilerError,
    >)
        ensures
            r == Ok::<(), CompilerError>(()),
            final(self)@ == old(self)@.with_jump(count, label),
    {
        let target_opt = self.find_label(&label);
        let target = match target_opt {
            Some(t) => t,
            None => {
                self.jump_fix_backlog.push((self.track.len(), label));
                usize::MAX
            },
        };
        let evt = TrackEvent::Jump { count, target };
        self.track.push(evt);
        Ok(())
    }

    /// Sets the attribute `attr`, which the song's header must still be open
    /// for.
    pub fn encounter_setattr(&mut self, attr: SongAttribute) -> (r: Result<(), CompilerError>)
        ensures
            (final(self)@, r) == old(self)@.with_attribute(attr),
    {
        let open = if self.track.len() == 0 {
            true
        } else if self.track.len() == 1 {
            match (self.track[0], self.attributes.bpm) {
                (TrackEvent::SetBpm(emitted), Some(set)) => emitted == set,
                _ => false,
            }
        } else {
            false
        };
        if !open {
            return Err(CompilerError::AttributeOutsideHeader(attr));
        }
        let new_bpm = match &attr {
            SongAttribute::Signature(bpm) => Some(*bpm),
            _ => None,
        };
        match self.attributes.push_attribute(attr) {
            Err(e) => Err(e),
            Ok(()) => {
                if let Some(bpm) = new_bpm {
                    self.track.push(TrackEvent::SetBpm(bpm));
                }
                Ok(())
            },
        }
    }

    /// Compiles one item of a song, which is left with the caller.
    pub fn compile_item_ref(&mut self, item: &LangItem) -> (r: Result<(), CompilerError>)
        ensures
            (final(self)@, r) == old(self)@.with_item(*item),
        decreases item,
    {
        match item {
            LangItem::Loop { repititions, expr } => self.encounter_loop(*repititions, expr),
            LangItem::NotePress(data) => self.encounter_pressline(data),
            LangItem::Wait(dur) => {
                self.track.push(TrackEvent::Wait(*dur));
                Ok(())
            },
            LangItem::Asm(AsmCommand::Wait(dur)) => {
                self.track.push(TrackEvent::Wait(*dur));
                Ok(())
            },
            LangItem::Asm(AsmCommand::SetBpm(bpm)) => {
                self.track.push(TrackEvent::SetBpm(*bpm));
                Ok(())
            },
            LangItem::Asm(AsmCommand::Label(lbl)) => self.encounter_setlabel(lbl.clone()),
            LangItem::Asm(AsmCommand::Send { message, port }) => {
                let label = match port {
                    Some(l) => Some(l.clone()),
                    None => None,
                };
                let port = self.port_label_to_idx(label);
                self.track.push(TrackEvent::SendMessage { message: *message, port });
                Ok(())
            },
            LangItem::Asm(AsmCommand::Jump { count, label }) => self.encounter_jump(*count, label.clone()),
            LangItem::SetAttribute(attr) => self.encounter_setattr(attr.clone()),
        }
    }

    /// Compiles one item of a song.
    pub fn compile_item(&mut self, item: LangItem) -> (r: Result<(), CompilerError>)
        ensures
            (final(self)@, r) == old(self)@.with_item(item),
    {
        self.compile_item_ref(&item)
    }
}

/// Compiles a song to its track and the outputs of the track's ports.
pub fn compile_song(song: Vec<LangItem>) -> (r: Result<(Vec<TrackEvent>, PortList), CompilerError>)
    ensures
        match r {
            Ok((track, ports)) => compiled(song@) == Ok::<
                (Seq<TrackEvent>, Seq<Option<OutputLabel>>),
                CompilerError,
            >((track@, ports@)),
            Err(e) => compiled(song@) == Err::<
                (Seq<TrackEvent>, Seq<Option<OutputLabel>>),
                CompilerError,
            >(e),
        },
        r matches Ok((track, ports)) ==> {
            &&& valid_track(track@)
            &&& forall|i: int| 0 <= i < track@.len() - 1 ==> !(#[trigger] track@[i] is End)
            &&& forall|i: int, j: int|
                0 <= i < j < ports@.len() ==> !same_output(
                    #[trigger] ports@[i],
                    #[trigger] ports@[j],
                )
            &&& forall|i: int|
                0 <= i < track@.len() ==> (#[trigger] track@[i] matches TrackEvent::SendMessage {
                    port,
                    ..
                } ==> port.idx < ports@.len())
            &&& forall|k: int|
                0 <= k < song_sites(song@).len() ==> chord_in_track(
                    track@,
                    #[trigger] song_sites(song@)[k],
                )
        },
{
    let mut compiler = Compiler::new();
    let n = song.len();
    let mut i: usize = 0;
    while i < n
        invariant
            i <= n,
            n == song@.len(),
            (compiler@, Ok::<(), CompilerError>(())) == CompilerState::empty().with_items(
                song@,
                i as nat,
            ),
        decreases n - i,
    {
        match compiler.compile_item_ref(&song[i]) {
            Err(e) => {
                proof {
                    lemma_items_failed(CompilerState::empty(), song@, (i + 1) as nat, n as nat);
                }
                return Err(e);
            },
            Ok(()) => {},
        }
        i = i + 1;
    }
    compiler.track.push(TrackEvent::End);
    match compiler.resolve_jumps() {
        Err(e) => {
            return Err(e);
        },
        Ok(()) => {},
    }
    proof {
        assert(compiled(song@) == Ok::<(Seq<TrackEvent>, Seq<Option<OutputLabel>>), CompilerError>(
            (compiler.track@, compiler.ports@),
        ));
        assert(compiler.track@.len() == compiler.track.len());
        lemma_compiled_valid(song@);
        let out = compiled(song@)->Ok_0;
        assert(out.0 == compiler.track@);
        assert(out.1 == compiler.ports@);
        assert(valid_track(compiler.track@));
        assert(forall|i: int| 0 <= i < out.0.len() - 1 ==> !(#[trigger] out.0[i] is End));
        assert(forall|i: int, j: int|
            0 <= i < j < out.1.len() ==> !same_output(#[trigger] out.1[i], #[trigger] out.1[j]));
        assert forall|k: int| 0 <= k < song_sites(song@).len() implies chord_in_track(
            compiler.track@,
            #[trigger] song_sites(song@)[k],
        ) by {
            lemma_song_chords(song@, k);
        }
    }
    Ok((compiler.track, compiler.ports))
}

} // verus!
