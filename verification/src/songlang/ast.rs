//! The syntax tree of the song language.

use crate::midi::MidiChannel;
use crate::midi::MidiMessage;
use crate::midi::PressVelocity;
use crate::model::NoteClass;
use crate::model::Octave;
use crate::track::BpmInfo;
use crate::track::WaitTime;
use crate::utils::NonZeroU16;
use vstd::prelude::*;

verus! {

/// One of the low-level commands, each of which stands for one instruction
/// of a track or for a mark in it.
#[derive(Debug, Clone, PartialEq, Eq, Hash)]
pub enum AsmCommand {
    Wait(WaitTime),
    Send { message: MidiMessage, port: Option<OutputLabel> },
    Jump { label: String, count: Option<NonZeroU16> },
    SetBpm(BpmInfo),
    Label(String),
}

/// The name of an output.
#[derive(Debug, PartialEq, Eq, Hash)]
pub struct OutputLabel(pub String);

impl Clone for OutputLabel {
    fn clone(&self) -> (r: Self)
        ensures
            r == *self,
    {
        OutputLabel(self.0.clone())
    }
}

impl From<String> for OutputLabel {
    fn from(inner: String) -> (r: Self) {
        OutputLabel(inner)
    }
}

impl vstd::std_specs::convert::FromSpecImpl<String> for OutputLabel {
    open spec fn obeys_from_spec() -> bool {
        true
    }

    open spec fn from_spec(inner: String) -> Self {
        OutputLabel(inner)
    }
}

impl OutputLabel {
    /// The name as text.
    pub fn as_str(&self) -> (r: &str)
        ensures
            r@ == self.0@,
    {
        self.0.as_str()
    }
}

/// Whether two outputs, named or nameless, are the same output: both
/// nameless, or named by the same text.
pub open spec fn same_output(a: Option<OutputLabel>, b: Option<OutputLabel>) -> bool {
    match (a, b) {
        (None, None) => true,
        (Some(x), Some(y)) => x.0@ == y.0@,
        _ => false,
    }
}

/// Whether two outputs, named or nameless, are the same output.
pub fn is_same_output(a: &Option<OutputLabel>, b: &Option<OutputLabel>) -> (r: bool)
    ensures
        r == same_output(*a, *b),
{
    match (a, b) {
        (None, None) => true,
        (Some(x), Some(y)) => x.0 == y.0,
        _ => false,
    }
}

/// One item of a song.
#[derive(Debug, PartialEq, Eq, Hash)]
pub enum LangItem {
    /// Plays `expr` `repititions` times over, or without end.
    Loop { expr: Vec<LangItem>, repititions: Option<NonZeroU16> },
    /// Presses the chords of a line.
    NotePress(PressLine),
    /// Waits.
    Wait(WaitTime),
    /// A low-level command.
    Asm(AsmCommand),
    /// Sets one of the song's attributes.
    SetAttribute(SongAttribute),
}

impl Clone for LangItem {
    fn clone(&self) -> (r: Self)
        decreases self,
    {
        match self {
            LangItem::Loop { expr, repititions } => {
                let mut copy: Vec<LangItem> = Vec::new();
                let n = expr.len();
                let mut i: usize = 0;
                while i < n
                    invariant
                        i <= n,
                        n == expr@.len(),
                        *self matches LangItem::Loop { expr: body, .. } && body == *expr,
                    decreases n - i,
                {
                    copy.push(expr[i].clone());
                    i = i + 1;
                }
                LangItem::Loop { expr: copy, repititions: *repititions }
            },
            LangItem::NotePress(line) => LangItem::NotePress(line.clone()),
            LangItem::Wait(w) => LangItem::Wait(*w),
            LangItem::Asm(cmd) => LangItem::Asm(cmd.clone()),
            LangItem::SetAttribute(attr) => LangItem::SetAttribute(attr.clone()),
        }
    }
}

/// What can be said of a press besides its chord.
#[derive(Debug, Clone, PartialEq, Eq, Hash)]
pub enum PressModifier {
    Velocity(PressVelocity),
    Channel(MidiChannel),
    Duration(WaitTime),
    Port(OutputLabel),
}

/// The output named by the first modifier, from place `from` on, that names
/// one.
pub open spec fn first_port(mods: Seq<PressModifier>, from: int) -> Option<OutputLabel>
    decreases mods.len() - from,
{
    if from < 0 || from >= mods.len() {
        None
    } else {
        match mods[from] {
            PressModifier::Port(lbl) => Some(lbl),
            _ => first_port(mods, from + 1),
        }
    }
}

/// The channel given by the first modifier, from place `from` on, that gives
/// one.
pub open spec fn first_channel(mods: Seq<PressModifier>, from: int) -> Option<MidiChannel>
    decreases mods.len() - from,
{
    if from < 0 || from >= mods.len() {
        None
    } else {
        match mods[from] {
            PressModifier::Channel(c) => Some(c),
            _ => first_channel(mods, from + 1),
        }
    }
}

/// The velocity given by the first modifier, from place `from` on, that
/// gives one.
pub open spec fn first_velocity(mods: Seq<PressModifier>, from: int) -> Option<PressVelocity>
    decreases mods.len() - from,
{
    if from < 0 || from >= mods.len() {
        None
    } else {
        match mods[from] {
            PressModifier::Velocity(v) => Some(v),
            _ => first_velocity(mods, from + 1),
        }
    }
}

/// The duration given by the first modifier, from place `from` on, that
/// gives one.
pub open spec fn first_duration(mods: Seq<PressModifier>, from: int) -> Option<WaitTime>
    decreases mods.len() - from,
{
    if from < 0 || from >= mods.len() {
        None
    } else {
        match mods[from] {
            PressModifier::Duration(d) => Some(d),
            _ => first_duration(mods, from + 1),
        }
    }
}

fn find_port(mods: &Vec<PressModifier>) -> (r: Option<&OutputLabel>)
    ensures
        r matches Some(l) ==> first_port(mods@, 0) == Some(*l),
        r is None ==> first_port(mods@, 0) is None,
{
    let n = mods.len();
    let mut i: usize = 0;
    while i < n
        invariant
            i <= n,
            n == mods@.len(),
            first_port(mods@, 0) == first_port(mods@, i as int),
        decreases n - i,
    {
        match &mods[i] {
            PressModifier::Port(lbl) => {
                return Some(lbl);
            },
            _ => {},
        }
        i = i + 1;
    }
    None
}

fn find_channel(mods: &Vec<PressModifier>) -> (r: Option<MidiChannel>)
    ensures
        r == first_channel(mods@, 0),
{
    let n = mods.len();
    let mut i: usize = 0;
    while i < n
        invariant
            i <= n,
            n == mods@.len(),
            first_channel(mods@, 0) == first_channel(mods@, i as int),
        decreases n - i,
    {
        match &mods[i] {
            PressModifier::Channel(c) => {
                return Some(*c);
            },
            _ => {},
        }
        i = i + 1;
    }
    None
}

fn find_velocity(mods: &Vec<PressModifier>) -> (r: Option<PressVelocity>)
    ensures
        r == first_velocity(mods@, 0),
{
    let n = mods.len();
    let mut i: usize = 0;
    while i < n
        invariant
            i <= n,
            n == mods@.len(),
            first_velocity(mods@, 0) == first_velocity(mods@, i as int),
        decreases n - i,
    {
        match &mods[i] {
            PressModifier::Velocity(v) => {
                return Some(*v);
            },
            _ => {},
        }
        i = i + 1;
    }
    None
}

fn find_duration(mods: &Vec<PressModifier>) -> (r: Option<WaitTime>)
    ensures
        r == first_duration(mods@, 0),
{
    let n = mods.len();
    let mut i: usize = 0;
    while i < n
        invariant
            i <= n,
            n == mods@.len(),
            first_duration(mods@, 0) == first_duration(mods@, i as int),
        decreases n - i,
    {
        match &mods[i] {
            PressModifier::Duration(d) => {
                return Some(*d);
            },
            _ => {},
        }
        i = i + 1;
    }
    None
}

/// A line of chords that are pressed together, with what is said of all of
/// them.
#[derive(Debug, Clone, PartialEq, Eq, Hash)]
pub struct PressLine {
    pub presses: Vec<ChordPress>,
    pub modifiers: Vec<PressModifier>,
}

impl PressLine {
    /// The output that the line names: that of its first modifier that names
    /// one.
    pub fn port(&self) -> (r: Option<&OutputLabel>)
        ensures
            r matches Some(l) ==> first_port(self.modifiers@, 0) == Some(*l),
            r is None ==> first_port(self.modifiers@, 0) is None,
    {
        find_port(&self.modifiers)
    }

    /// The channel that the line gives: that of its first modifier that
    /// gives one.
    pub fn channel(&self) -> (r: Option<MidiChannel>)
        ensures
            r == first_channel(self.modifiers@, 0),
    {
        find_channel(&self.modifiers)
    }

    /// The velocity that the line gives: that of its first modifier that
    /// gives one.
    pub fn velocity(&self) -> (r: Option<PressVelocity>)
        ensures
            r == first_velocity(self.modifiers@, 0),
    {
        find_velocity(&self.modifiers)
    }

    /// The duration that the line gives: that of its first modifier that
    /// gives one.
    pub fn duration(&self) -> (r: Option<WaitTime>)
        ensures
            r == first_duration(self.modifiers@, 0),
    {
        find_duration(&self.modifiers)
    }
}

/// One chord of a line: its root note, its kind, and what is said of this
/// chord alone.
#[derive(Debug, Clone, PartialEq, Eq, Hash)]
pub struct ChordPress {
    pub root: NoteClass,
    pub octave: Octave,
    pub kind: ChordKind,
    pub modifiers: Vec<PressModifier>,
}

impl ChordPress {
    /// The output that the chord names: that of its first modifier that
    /// names one.
    pub fn port(&self) -> (r: Option<&OutputLabel>)
        ensures
            r matches Some(l) ==> first_port(self.modifiers@, 0) == Some(*l),
            r is None ==> first_port(self.modifiers@, 0) is None,
    {
        find_port(&self.modifiers)
    }

    /// The channel that the chord gives: that of its first modifier that
    /// gives one.
    pub fn channel(&self) -> (r: Option<MidiChannel>)
        ensures
            r == first_channel(self.modifiers@, 0),
    {
        find_channel(&self.modifiers)
    }

    /// The velocity that the chord gives: that of its first modifier that
    /// gives one.
    pub fn velocity(&self) -> (r: Option<PressVelocity>)
        ensures
            r == first_velocity(self.modifiers@, 0),
    {
        find_velocity(&self.modifiers)
    }

    /// The duration that the chord gives: that of its first modifier that
    /// gives one.
    pub fn duration(&self) -> (r: Option<WaitTime>)
        ensures
            r == first_duration(self.modifiers@, 0),
    {
        find_duration(&self.modifiers)
    }
}

/// The kinds of chord.
#[derive(Debug, Copy, Clone, PartialEq, Eq, Structural, Hash)]
pub enum ChordKind {
    /// The root alone.
    Raw,
    /// The root and its fifth.
    Fifth,
    /// The major triad.
    Major,
    /// The minor triad.
    Minor,
    /// The major triad and the root's octave.
    Major7,
    /// The minor triad and the root's octave.
    Minor7,
}

/// An attribute of a song, set in the song's header.
#[derive(Debug, PartialEq, Eq, Hash)]
pub enum SongAttribute {
    /// The song's timing.
    Signature(BpmInfo),
    /// How long a press lasts where nothing says so.
    DefaultDuration(WaitTime),
    /// The channel of a press where nothing says so.
    DefaultChannel(MidiChannel),
    /// The output of a press where nothing says so.
    DefaultPort(OutputLabel),
    /// The velocity of a press where nothing says so.
    DefaultPressVelocity(PressVelocity),
}

impl Clone for SongAttribute {
    fn clone(&self) -> (r: Self)
        ensures
            r == *self,
    {
        match self {
            SongAttribute::Signature(b) => SongAttribute::Signature(*b),
            SongAttribute::DefaultDuration(d) => SongAttribute::DefaultDuration(*d),
            SongAttribute::DefaultChannel(c) => SongAttribute::DefaultChannel(*c),
            SongAttribute::DefaultPort(p) => SongAttribute::DefaultPort(p.clone()),
            SongAttribute::DefaultPressVelocity(v) => SongAttribute::DefaultPressVelocity(*v),
        }
    }
}

/// What a modifier says, with the name of an output as plain text.
pub enum ModifierView {
    Velocity(PressVelocity),
    Channel(MidiChannel),
    Duration(WaitTime),
    Port(Seq<char>),
}

/// What a chord of a line says, with the names in it as plain text.
pub struct ChordView {
    pub root: NoteClass,
    pub octave: Octave,
    pub kind: ChordKind,
    pub modifiers: Seq<ModifierView>,
}

/// What a line of chords says, with the names in it as plain text.
pub struct PressLineView {
    pub presses: Seq<ChordView>,
    pub modifiers: Seq<ModifierView>,
}

/// What a low-level command says, with the names in it as plain text.
pub enum AsmView {
    Wait(WaitTime),
    Send { message: MidiMessage, port: Option<Seq<char>> },
    Jump { label: Seq<char>, count: Option<NonZeroU16> },
    SetBpm(BpmInfo),
    Label(Seq<char>),
}

/// What an attribute says, with the name of an output as plain text.
pub enum AttributeView {
    Signature(BpmInfo),
    DefaultDuration(WaitTime),
    DefaultChannel(MidiChannel),
    DefaultPort(Seq<char>),
    DefaultPressVelocity(PressVelocity),
}

/// What an item of a song says, with the names in it as plain text.
pub enum ItemView {
    Loop { expr: Seq<ItemView>, repititions: Option<NonZeroU16> },
    NotePress(PressLineView),
    Wait(WaitTime),
    Asm(AsmView),
    SetAttribute(AttributeView),
}

impl View for PressModifier {
    type V = ModifierView;

    open spec fn view(&self) -> ModifierView {
        match *self {
            PressModifier::Velocity(v) => ModifierView::Velocity(v),
            PressModifier::Channel(c) => ModifierView::Channel(c),
            PressModifier::Duration(d) => ModifierView::Duration(d),
            PressModifier::Port(l) => ModifierView::Port(l.0@),
        }
    }
}

/// What a list of modifiers says.
pub open spec fn modifiers_view(mods: Seq<PressModifier>) -> Seq<ModifierView> {
    Seq::new(mods.len(), |i: int| mods[i]@)
}

impl View for ChordPress {
    type V = ChordView;

    open spec fn view(&self) -> ChordView {
        ChordView {
            root: self.root,
            octave: self.octave,
            kind: self.kind,
            modifiers: modifiers_view(self.modifiers@),
        }
    }
}

/// What a list of chords says.
pub open spec fn chords_view(presses: Seq<ChordPress>) -> Seq<ChordView> {
    Seq::new(presses.len(), |i: int| presses[i]@)
}

impl View for PressLine {
    type V = PressLineView;

    open spec fn view(&self) -> PressLineView {
        PressLineView {
            presses: chords_view(self.presses@),
            modifiers: modifiers_view(self.modifiers@),
        }
    }
}

/// The name of an output, if there is one, as plain text.
pub open spec fn output_view(port: Option<OutputLabel>) -> Option<Seq<char>> {
    match port {
        Some(l) => Some(l.0@),
        None => None,
    }
}

impl View for AsmCommand {
    type V = AsmView;

    open spec fn view(&self) -> AsmView {
        match *self {
            AsmCommand::Wait(w) => AsmView::Wait(w),
            AsmCommand::Send { message, port } => AsmView::Send {
                message,
                port: output_view(port),
            },
            AsmCommand::Jump { label, count } => AsmView::Jump { label: label@, count },
            AsmCommand::SetBpm(b) => AsmView::SetBpm(b),
            AsmCommand::Label(l) => AsmView::Label(l@),
        }
    }
}

impl View for SongAttribute {
    type V = AttributeView;

    open spec fn view(&self) -> AttributeView {
        match *self {
            SongAttribute::Signature(b) => AttributeView::Signature(b),
            SongAttribute::DefaultDuration(d) => AttributeView::DefaultDuration(d),
            SongAttribute::DefaultChannel(c) => AttributeView::DefaultChannel(c),
            SongAttribute::DefaultPort(l) => AttributeView::DefaultPort(l.0@),
            SongAttribute::DefaultPressVelocity(v) => AttributeView::DefaultPressVelocity(v),
        }
    }
}

/// What an item of a song says.
pub open spec fn item_view(item: LangItem) -> ItemView
    decreases item,
{
    match item {
        LangItem::Loop { expr, repititions } => ItemView::Loop {
            expr: Seq::new(
                expr@.len(),
                |i: int|
                    if 0 <= i < expr@.len() {
                        item_view(expr@[i])
                    } else {
                        ItemView::Wait(arbitrary())
                    },
            ),
            repititions,
        },
        LangItem::NotePress(line) => ItemView::NotePress(line@),
        LangItem::Wait(w) => ItemView::Wait(w),
        LangItem::Asm(cmd) => ItemView::Asm(cmd@),
        LangItem::SetAttribute(attr) => ItemView::SetAttribute(attr@),
    }
}

/// What a list of items says.
pub open spec fn items_view(items: Seq<LangItem>) -> Seq<ItemView> {
    Seq::new(items.len(), |i: int| item_view(items[i]))
}

} // verus!
