//! MIDI values and messages: channels, velocities, note numbers and the
//! three-byte wire form of a message.

use crate::model::NoteClass;
use crate::model::Octave;
use notes::parsed_noteoff;
use notes::parsed_noteon;
use notes::tag_of;
use vstd::prelude::*;

pub mod notes;

pub use notes::parse_noteoff;
pub use notes::parse_noteon;
pub use notes::NoteOff;
pub use notes::NoteOn;






verus! {

/// Why three bytes are not the message that was asked for.
#[derive(Debug, Copy, Clone, PartialEq, Eq, Structural)]
pub enum MessageParseError {
    /// The status byte's upper half is `actual`, not `expected`.
    WrongTag { expected: u8, actual: u8 },
    /// A data byte is `found`, outside `min` to `max`.
    OutOfRange { found: u8, min: u8, max: u8 },
}

pub proof fn lemma_low_nibble(raw: u8)
    by (bit_vector)
    ensures
        raw & 0xF == raw % 16,
        raw & 0xF0 == (raw / 16) * 16,
        raw & 0x7F == raw % 128,
        (raw & 0x80 == 0) <==> raw < 128,
{
}

/// The channel in the lower half of a status byte.
pub fn parse_channel(raw: u8) -> (r: Result<MidiChannel, MessageParseError>)
    ensures
        r == Ok::<MidiChannel, MessageParseError>(MidiChannel::of(raw as int % 16)),
{
    let offset: u8 = raw & 0xF;
    proof {
        lemma_low_nibble(raw);
    }
    Ok(MidiChannel { raw: offset })
}

/// The note number that a data byte holds.
pub fn parse_note(raw: u8) -> (r: Result<MidiNote, MessageParseError>)
    ensures
        r == if raw < 128 {
            Ok::<MidiNote, MessageParseError>(MidiNote::of(raw as int))
        } else {
            Err(MessageParseError::OutOfRange { found: raw, min: 0, max: 127 })
        },
{
    match MidiNote::from_raw(raw) {
        Some(n) => Ok(n),
        None => Err(MessageParseError::OutOfRange { min: 0, max: 127, found: raw }),
    }
}

/// The velocity that a data byte holds.
pub fn parse_vel(raw: u8) -> (r: Result<PressVelocity, MessageParseError>)
    ensures
        r == if raw < 128 {
            Ok::<PressVelocity, MessageParseError>(PressVelocity::of(raw as int))
        } else {
            Err(MessageParseError::OutOfRange { found: raw, min: 0, max: 127 })
        },
{
    match PressVelocity::from_raw(raw) {
        Some(n) => Ok(n),
        None => Err(MessageParseError::OutOfRange { min: 0, max: 127, found: raw }),
    }
}

/// How hard a key is pressed or released: 0 to 127.
#[derive(Debug, Copy, Clone, PartialEq, Eq, Structural, Hash)]
pub struct PressVelocity {
    raw: u8,
}

impl PressVelocity {
    /// The velocity as a number.
    pub closed spec fn value(self) -> int {
        self.raw as int
    }

    /// The velocity `v`, for `v` from 0 to 127.
    pub closed spec fn of(v: int) -> PressVelocity {
        PressVelocity { raw: v as u8 }
    }

    /// Whether the velocity lies in 0 to 127.
    pub open spec fn wf(self) -> bool {
        0 <= self.value() <= 127
    }

    #[verifier::type_invariant]
    pub open spec fn inv(self) -> bool {
        self.wf()
    }

    /// `of` and `value` undo each other.
    pub broadcast proof fn lemma_of_value(v: int)
        requires
            0 <= v <= 255,
        ensures
            (#[trigger] PressVelocity::of(v)).value() == v,
    {
    }

    /// A velocity is fixed by its number.
    pub broadcast proof fn lemma_value_of(self)
        ensures
            PressVelocity::of(#[trigger] self.value()) == self,
    {
    }

    /// The velocity as a byte.
    pub fn as_u8(&self) -> (r: u8)
        ensures
            r == self.value(),
            r <= 127,
    {
        proof {
            use_type_invariant(self);
        }
        self.raw
    }

    /// The velocity `raw`, unless `raw` is above 127.
    pub fn from_raw(raw: u8) -> (r: Option<PressVelocity>)
        ensures
            r == if raw <= 127 {
                Some(PressVelocity::of(raw as int))
            } else {
                None
            },
    {
        if raw > 127 {
            None
        } else {
            Some(PressVelocity { raw })
        }
    }
}

impl Default for PressVelocity {
    fn default() -> (r: PressVelocity)
        ensures
            r == PressVelocity::of(0),
    {
        PressVelocity { raw: 0 }
    }
}

/// One of the sixteen MIDI channels: 0 to 15.
#[derive(Debug, Copy, Clone, PartialEq, Eq, Structural, Hash)]
pub struct MidiChannel {
    raw: u8,
}

impl MidiChannel {
    /// The channel's number.
    pub closed spec fn value(self) -> int {
        self.raw as int
    }

    /// The channel with the number `v`, for `v` from 0 to 15.
    pub closed spec fn of(v: int) -> MidiChannel {
        MidiChannel { raw: v as u8 }
    }

    /// Whether the number lies in 0 to 15.
    pub open spec fn wf(self) -> bool {
        0 <= self.value() <= 15
    }

    #[verifier::type_invariant]
    pub open spec fn inv(self) -> bool {
        self.wf()
    }

    /// `of` and `value` undo each other.
    pub broadcast proof fn lemma_of_value(v: int)
        requires
            0 <= v <= 255,
        ensures
            (#[trigger] MidiChannel::of(v)).value() == v,
    {
    }

    /// A channel is fixed by its number.
    pub broadcast proof fn lemma_value_of(self)
        ensures
            MidiChannel::of(#[trigger] self.value()) == self,
    {
    }

    /// The sixteen channels, upward from 0.
    pub fn all() -> (r: Vec<MidiChannel>)
        ensures
            r@.len() == 16,
            forall|i: int| 0 <= i < 16 ==> #[trigger] r@[i] == MidiChannel::of(i),
    {
        let mut retvl: Vec<MidiChannel> = Vec::new();
        let mut idx: u8 = 0;
        while idx < 16
            invariant
                idx <= 16,
                retvl@.len() == idx,
                forall|i: int| 0 <= i < idx ==> #[trigger] retvl@[i] == MidiChannel::of(i),
            decreases 16 - idx,
        {
            retvl.push(MidiChannel { raw: idx });
            idx = idx + 1;
        }
        retvl
    }

    /// The channel's number as a byte.
    pub fn as_u8(&self) -> (r: u8)
        ensures
            r == self.value(),
            r <= 15,
    {
        proof {
            use_type_invariant(self);
        }
        self.raw
    }

    /// The channel `raw`, unless `raw` is above 15.
    pub fn from_raw(raw: u8) -> (r: Option<MidiChannel>)
        ensures
            r == if raw <= 15 {
                Some(MidiChannel::of(raw as int))
            } else {
                None
            },
    {
        if raw >= 16 {
            None
        } else {
            Some(MidiChannel { raw })
        }
    }
}

impl Default for MidiChannel {
    fn default() -> (r: MidiChannel)
        ensures
            r == MidiChannel::of(0),
    {
        MidiChannel { raw: 0 }
    }
}

/// A MIDI note number: 0 to 127.
#[derive(Debug, Copy, Clone, PartialEq, Eq, Structural, Hash)]
pub struct MidiNote {
    raw: u8,
}

impl MidiNote {
    /// The note's number.
    pub closed spec fn value(self) -> int {
        self.raw as int
    }

    /// The note with the number `v`, for `v` from 0 to 127.
    pub closed spec fn of(v: int) -> MidiNote {
        MidiNote { raw: v as u8 }
    }

    /// Whether the number lies in 0 to 127.
    pub open spec fn wf(self) -> bool {
        0 <= self.value() <= 127
    }

    #[verifier::type_invariant]
    pub open spec fn inv(self) -> bool {
        self.wf()
    }

    /// `of` and `value` undo each other.
    pub broadcast proof fn lemma_of_value(v: int)
        requires
            0 <= v <= 255,
        ensures
            (#[trigger] MidiNote::of(v)).value() == v,
    {
    }

    /// A note is fixed by its number.
    pub broadcast proof fn lemma_value_of(self)
        ensures
            MidiNote::of(#[trigger] self.value()) == self,
    {
    }

    /// The note `steps` semitones away from `self`, where the numbers wrap
    /// round from 127 to 0 and back.
    pub open spec fn wrapped_add(self, steps: int) -> MidiNote {
        MidiNote::of((self.value() + steps) % 128)
    }

    /// The note of class `note` in `octave`: number `(octave + 1) * 12` plus
    /// the class's index, wrapped round at 128 where octave 9 runs out of
    /// note numbers.
    pub open spec fn at(note: NoteClass, octave: Octave) -> MidiNote {
        MidiNote::of(((octave.value() + 1) * 12 + note.index()) % 128)
    }

    /// The 128 notes, upward from 0.
    pub fn all() -> (r: Vec<MidiNote>)
        ensures
            r@.len() == 128,
            forall|i: int| 0 <= i < 128 ==> #[trigger] r@[i] == MidiNote::of(i),
    {
        let mut retvl: Vec<MidiNote> = Vec::new();
        let mut idx: u8 = 0;
        while idx < 128
            invariant
                idx <= 128,
                retvl@.len() == idx,
                forall|i: int| 0 <= i < idx ==> #[trigger] retvl@[i] == MidiNote::of(i),
            decreases 128 - idx,
        {
            retvl.push(MidiNote { raw: idx });
            idx = idx + 1;
        }
        retvl
    }

    /// The note `steps` semitones away, where the numbers wrap round from 127
    /// to 0 and back.
    pub fn wrapping_add(self, steps: i8) -> (r: MidiNote)
        ensures
            r == self.wrapped_add(steps as int),
    {
        proof {
            use_type_invariant(self);
        }
        let inner: i16 = self.raw as i16;
        let mut new: i16 = inner + (steps as i16);
        if new < 0 {
            new = new + 128;
        }
        if new >= 128 {
            new = new - 128;
        }
        MidiNote { raw: new as u8 }
    }

    /// The note of class `note` in `octave`.
    pub fn from_note_octave(note: NoteClass, octave: Octave) -> (r: MidiNote)
        ensures
            r == MidiNote::at(note, octave),
            (octave.value() + 1) * 12 + note.index() <= 127 ==> r.value() == (octave.value() + 1)
                * 12 + note.index(),
    {
        let midi_octave: u8 = (octave.as_raw() + 1) as u8;
        let octave_base: u8 = midi_octave * 12;
        let note_offset: u8 = note.as_u8();
        let raw: u8 = octave_base + note_offset;
        if raw >= 128 {
            MidiNote { raw: raw - 128 }
        } else {
            MidiNote { raw }
        }
    }

    /// The note nearest to `raw` within 0 to 127.
    pub fn clamp(raw: u8) -> (r: MidiNote)
        ensures
            r == MidiNote::of(
                if raw > 127 {
                    127
                } else {
                    raw as int
                },
            ),
    {
        if raw > 127 {
            MidiNote { raw: 127 }
        } else {
            MidiNote { raw }
        }
    }

    /// The note whose number is the lower seven bits of `raw`.
    pub fn mask(raw: u8) -> (r: MidiNote)
        ensures
            r == MidiNote::of(raw as int % 128),
    {
        proof {
            lemma_low_nibble(raw);
        }
        MidiNote { raw: raw & 0x7F }
    }

    /// The note `raw`, unless `raw` is above 127.
    pub fn from_raw(raw: u8) -> (r: Option<MidiNote>)
        ensures
            r == if raw <= 127 {
                Some(MidiNote::of(raw as int))
            } else {
                None
            },
    {
        if raw >= 128 {
            None
        } else {
            Some(MidiNote { raw })
        }
    }

    /// The octave that the note lies in: its number divided by 12, less one.
    pub fn octave(&self) -> (r: Octave)
        ensures
            r == Octave::of(self.value() / 12 - 1),
            r.wf(),
    {
        let octave_shift: i8 = (self.as_u8() / 12) as i8;
        Octave::clamp(octave_shift - 1)
    }

    /// The note's class: its number modulo 12.
    pub fn note(&self) -> (r: NoteClass)
        ensures
            r == NoteClass::from_index(self.value()),
    {
        NoteClass::from_u8(self.as_u8())
    }

    /// The note's number as a byte.
    pub fn as_u8(self) -> (r: u8)
        ensures
            r == self.value(),
            r <= 127,
    {
        proof {
            use_type_invariant(self);
        }
        self.raw
    }

    /// The note `steps` semitones away, unless that leaves 0 to 127.
    pub fn checked_add(self, steps: i8) -> (r: Option<MidiNote>)
        ensures
            r == if 0 <= self.value() + steps <= 127 {
                Some(MidiNote::of(self.value() + steps))
            } else {
                None
            },
    {
        proof {
            use_type_invariant(self);
        }
        let raw_result: i16 = (self.raw as i16) + (steps as i16);
        if raw_result < 0 {
            None
        } else {
            MidiNote::from_raw(raw_result as u8)
        }
    }

    /// Whether `self` is a lower note than `other`.
    pub fn is_below(self, other: MidiNote) -> (r: bool)
        ensures
            r == (self.value() < other.value()),
    {
        self.raw < other.raw
    }
}

/// Up to three bytes of a MIDI message that is not looked into further: a
/// status byte and up to two data bytes.
#[derive(Debug, Copy, Clone, PartialEq, Eq, Hash)]
pub struct RawMessage {
    pub bytes: [u8; 3],
}

impl RawMessage {
    /// How many of the three bytes belong to the message, from one to
    /// three: the first byte, which is the status, and the data bytes that
    /// follow it, a data byte being one whose top bit is clear.
    pub open spec fn length(self) -> int {
        if self.bytes@[1] >= 128 {
            1
        } else if self.bytes@[2] >= 128 {
            2
        } else {
            3
        }
    }

    /// The bytes of the empty message.
    pub open spec fn empty_bytes() -> Seq<u8> {
        seq![0u8, 0xFFu8, 0xFFu8]
    }

    /// The message that holds nothing but a first byte of zero.
    pub fn empty() -> (r: Self)
        ensures
            r.bytes@ == Self::empty_bytes(),
    {
        Self { bytes: [0, 0xFF, 0xFF] }
    }

    /// The message that starts with the bytes of `raw`; what `raw` leaves
    /// open stays as in the empty message.
    pub fn from_raw(raw: &[u8]) -> (r: RawMessage)
        requires
            raw@.len() <= 3,
        ensures
            r.bytes@ == raw@ + Self::empty_bytes().subrange(raw@.len() as int, 3),
    {
        let mut bytes: [u8; 3] = [0, 0xFF, 0xFF];
        let cplen: usize = raw.len();
        let mut idx: usize = 0;
        while idx < cplen
            invariant
                idx <= cplen,
                cplen == raw@.len(),
                cplen <= 3,
                bytes@ == raw@.subrange(0, idx as int) + Self::empty_bytes().subrange(
                    idx as int,
                    3,
                ),
            decreases cplen - idx,
        {
            bytes[idx] = raw[idx];
            idx = idx + 1;
        }
        RawMessage { bytes }
    }

    /// The upper half of the first byte, with the lower half cleared.
    pub fn tag(&self) -> (r: u8)
        ensures
            r == tag_of(self.bytes@[0]),
    {
        proof {
            lemma_low_nibble(self.bytes@[0]);
        }
        self.bytes[0] & 0xF0
    }

    /// The bytes that belong to the message.
    pub fn bytes(&self) -> (r: &[u8])
        ensures
            r@ == self.bytes@.subrange(0, self.length()),
    {
        let n = self.len();
        vstd::slice::slice_subrange(self.bytes.as_slice(), 0, n)
    }

    /// How many bytes belong to the message: one, two or three.
    pub fn len(&self) -> (r: usize)
        ensures
            r == self.length(),
            1 <= r <= 3,
    {
        proof {
            lemma_low_nibble(self.bytes@[1]);
            lemma_low_nibble(self.bytes@[2]);
        }
        if self.bytes[1] & 0x80 != 0 {
            1
        } else if self.bytes[2] & 0x80 != 0 {
            2
        } else {
            3
        }
    }
}

impl Default for RawMessage {
    fn default() -> (r: RawMessage)
        ensures
            r.bytes@ == RawMessage::empty_bytes(),
    {
        RawMessage { bytes: [0x0, 0xFF, 0xFF] }
    }
}

/// A MIDI message.
#[derive(Debug, Copy, Clone, PartialEq, Eq, Hash)]
pub enum MidiMessage {
    NoteOn(NoteOn),
    NoteOff(NoteOff),
    Other(RawMessage),
}

impl MidiMessage {
    /// The message's three bytes on the wire.
    pub open spec fn wire(self) -> Seq<u8> {
        match self {
            MidiMessage::Other(k) => k.bytes@,
            MidiMessage::NoteOff(data) => data.bytes(),
            MidiMessage::NoteOn(data) => data.bytes(),
        }
    }

    /// The message as raw bytes.
    pub fn as_raw(self) -> (r: RawMessage)
        ensures
            r.bytes@ == self.wire(),
            self is Other ==> r == self->Other_0,
            !(self is Other) ==> r.length() == 3,
    {
        match self {
            MidiMessage::Other(k) => k,
            MidiMessage::NoteOff(data) => RawMessage { bytes: data.as_bytes() },
            MidiMessage::NoteOn(data) => RawMessage { bytes: data.as_bytes() },
        }
    }
}

impl From<RawMessage> for MidiMessage {
    fn from(inner: RawMessage) -> (r: Self) {
        MidiMessage::Other(inner)
    }
}

impl vstd::std_specs::convert::FromSpecImpl<RawMessage> for MidiMessage {
    open spec fn obeys_from_spec() -> bool {
        true
    }

    open spec fn from_spec(inner: RawMessage) -> Self {
        MidiMessage::Other(inner)
    }
}

impl From<NoteOff> for MidiMessage {
    fn from(inner: NoteOff) -> (r: Self) {
        MidiMessage::NoteOff(inner)
    }
}

impl vstd::std_specs::convert::FromSpecImpl<NoteOff> for MidiMessage {
    open spec fn obeys_from_spec() -> bool {
        true
    }

    open spec fn from_spec(inner: NoteOff) -> Self {
        MidiMessage::NoteOff(inner)
    }
}

impl From<NoteOn> for MidiMessage {
    fn from(inner: NoteOn) -> (r: Self) {
        MidiMessage::NoteOn(inner)
    }
}

impl vstd::std_specs::convert::FromSpecImpl<NoteOn> for MidiMessage {
    open spec fn obeys_from_spec() -> bool {
        true
    }

    open spec fn from_spec(inner: NoteOn) -> Self {
        MidiMessage::NoteOn(inner)
    }
}

/// What three bytes say, taken as a message: a note-on where the status
/// byte's upper half is `0x90`, a note-off where it is `0x80`, each with its
/// data checked; any other three bytes are kept as they are.
pub open spec fn parsed_message(bytes: [u8; 3]) -> Result<MidiMessage, MessageParseError> {
    if tag_of(bytes@[0]) == 0x90 {
        match parsed_noteon(bytes@) {
            Ok(m) => Ok(MidiMessage::NoteOn(m)),
            Err(e) => Err(e),
        }
    } else if tag_of(bytes@[0]) == 0x80 {
        match parsed_noteoff(bytes@) {
            Ok(m) => Ok(MidiMessage::NoteOff(m)),
            Err(e) => Err(e),
        }
    } else {
        Ok(MidiMessage::Other(RawMessage { bytes }))
    }
}

/// Reads three bytes as a message.
pub fn parse_midimessage(bytes: [u8; 3]) -> (r: Result<MidiMessage, MessageParseError>)
    ensures
        r == parsed_message(bytes),
{
    let noteon_res = parse_noteon(bytes);
    match noteon_res {
        Ok(ret) => {
            return Ok(MidiMessage::NoteOn(ret));
        },
        Err(MessageParseError::WrongTag { .. }) => {},
        Err(e) => {
            return Err(e);
        },
    }
    let noteoff_res = parse_noteoff(bytes);
    match noteoff_res {
        Ok(ret) => {
            return Ok(MidiMessage::NoteOff(ret));
        },
        Err(MessageParseError::WrongTag { .. }) => {},
        Err(e) => {
            return Err(e);
        },
    }
    let raw = RawMessage::from_raw(bytes.as_slice());
    proof {
        assert(raw.bytes@ =~= bytes@);
        assert(raw.bytes =~= bytes);
    }
    Ok(MidiMessage::Other(raw))
}

/// A message is read back from its own three bytes: a note message always,
/// any other as long as its status byte does not announce a note message.
pub proof fn lemma_message_round_trip(m: MidiMessage, bytes: [u8; 3])
    requires
        bytes@ == m.wire(),
        match m {
            MidiMessage::NoteOn(on) => on.channel.wf() && on.note.wf() && on.vel.wf(),
            MidiMessage::NoteOff(off) => off.channel.wf() && off.note.wf() && off.vel.wf(),
            MidiMessage::Other(raw) => tag_of(raw.bytes@[0]) != 0x90 && tag_of(raw.bytes@[0])
                != 0x80,
        },
    ensures
        parsed_message(bytes) == Ok::<MidiMessage, MessageParseError>(m),
{
    match m {
        MidiMessage::NoteOn(on) => {
            notes::lemma_noteon_round_trip(on);
        },
        MidiMessage::NoteOff(off) => {
            notes::lemma_noteoff_round_trip(off);
        },
        MidiMessage::Other(raw) => {
            assert(raw.bytes =~= bytes);
        },
    }
}

pub broadcast group group_midi_values {
    PressVelocity::lemma_of_value,
    PressVelocity::lemma_value_of,
    MidiChannel::lemma_of_value,
    MidiChannel::lemma_value_of,
    MidiNote::lemma_of_value,
    MidiNote::lemma_value_of,
}

} // verus!
