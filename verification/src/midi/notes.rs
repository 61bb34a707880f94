//! Note-on and note-off messages and their three bytes.

use super::lemma_low_nibble;
use super::parse_channel;
use super::parse_note;
use super::parse_vel;
use super::MessageParseError;
use super::MidiChannel;
use super::MidiNote;
use super::PressVelocity;
use vstd::prelude::*;

verus! {

broadcast use super::group_midi_values;

/// The two kinds of note message.
#[derive(Debug, Copy, Clone, PartialEq, Eq, Structural, Hash)]
pub enum NoteEventTag {
    /// A key was released.
    Off,
    /// A key was pressed.
    On,
}

impl NoteEventTag {
    /// The status byte of this kind of message on channel 0.
    pub open spec fn status(self) -> u8 {
        match self {
            NoteEventTag::Off => 0x80,
            NoteEventTag::On => 0x90,
        }
    }

    /// The status byte of this kind of message on channel 0.
    pub fn as_u8(self) -> (r: u8)
        ensures
            r == self.status(),
    {
        match self {
            NoteEventTag::Off => 0x80,
            NoteEventTag::On => 0x90,
        }
    }
}

/// The upper half of a status byte, with the lower half cleared.
pub open spec fn tag_of(byte: u8) -> u8 {
    ((byte / 16) * 16) as u8
}

/// Checks that the status byte `byte` announces a message of the kind
/// `expected`.
pub fn parse_tag_expected(byte: u8, expected: NoteEventTag) -> (r: Result<
    NoteEventTag,
    MessageParseError,
>)
    ensures
        r == if tag_of(byte) == expected.status() {
            Ok::<NoteEventTag, MessageParseError>(expected)
        } else {
            Err(
                MessageParseError::WrongTag {
                    expected: expected.status(),
                    actual: tag_of(byte),
                },
            )
        },
{
    let head: u8 = byte & 0xF0;
    proof {
        lemma_low_nibble(byte);
    }
    if head != expected.as_u8() {
        Err(MessageParseError::WrongTag { expected: expected.as_u8(), actual: head })
    } else {
        Ok(expected)
    }
}

/// What a note message carries besides its kind.
#[derive(Debug, Copy, Clone, PartialEq, Eq, Structural, Hash)]
pub struct NoteEventPayload {
    pub channel: MidiChannel,
    pub note: MidiNote,
    pub velocity: PressVelocity,
}

/// The three bytes of a note message whose status byte has the upper half of
/// `status`: that upper half with the channel in the lower half, the note,
/// the velocity.
pub open spec fn note_bytes(
    status: u8,
    channel: MidiChannel,
    note: MidiNote,
    velocity: PressVelocity,
) -> Seq<u8> {
    seq![(tag_of(status) + channel.value()) as u8, note.value() as u8, velocity.value() as u8]
}

/// What the data of three bytes say, taken as a note message: the channel in
/// the lower half of the first byte, then the note and the velocity, each of
/// which must be below 128; the note is looked at first.
pub open spec fn parsed_payload(bytes: Seq<u8>) -> Result<NoteEventPayload, MessageParseError> {
    if bytes[1] >= 128 {
        Err(MessageParseError::OutOfRange { found: bytes[1], min: 0, max: 127 })
    } else if bytes[2] >= 128 {
        Err(MessageParseError::OutOfRange { found: bytes[2], min: 0, max: 127 })
    } else {
        Ok(
            NoteEventPayload {
                channel: MidiChannel::of(bytes[0] as int % 16),
                note: MidiNote::of(bytes[1] as int),
                velocity: PressVelocity::of(bytes[2] as int),
            },
        )
    }
}

/// What three bytes say, taken as a note message of the kind `tag`: the kind
/// is checked first, then the data.
pub open spec fn parsed_note_event(tag: NoteEventTag, bytes: Seq<u8>) -> Result<
    NoteEventPayload,
    MessageParseError,
> {
    if tag_of(bytes[0]) != tag.status() {
        Err(MessageParseError::WrongTag { expected: tag.status(), actual: tag_of(bytes[0]) })
    } else {
        parsed_payload(bytes)
    }
}

proof fn lemma_status_byte(status: u8, channel: u8)
    by (bit_vector)
    requires
        channel <= 15,
    ensures
        (status & 0xF0) | channel == (status / 16) * 16 + channel,
        (status / 16) * 16 + channel <= 255,
        (((status / 16) * 16 + channel) as u8) / 16 * 16 == (status / 16) * 16,
        (((status / 16) * 16 + channel) as u8) % 16 == channel,
        status >= 128 ==> (status / 16) * 16 + channel >= 128,
{
}

impl NoteEventPayload {
    pub fn new(channel: MidiChannel, note: MidiNote, velocity: PressVelocity) -> (r: Self)
        ensures
            r == (NoteEventPayload { channel, note, velocity }),
    {
        Self { channel, note, velocity }
    }

    /// The three bytes of the message whose status byte has the upper half
    /// of `tag`.
    pub fn as_bytes(&self, tag: u8) -> (r: [u8; 3])
        ensures
            r@ == note_bytes(tag, self.channel, self.note, self.velocity),
            tag >= 128 ==> r@[0] >= 128,
            r@[1] < 128,
            r@[2] < 128,
    {
        let c: u8 = self.channel.as_u8();
        proof {
            lemma_status_byte(tag, c);
        }
        let b1: u8 = (tag & 0xF0) | c;
        let b2: u8 = self.note.as_u8();
        let b3: u8 = self.velocity.as_u8();
        [b1, b2, b3]
    }
}

/// A key was pressed: note-on.
#[derive(Debug, Copy, Clone, PartialEq, Eq, Structural, Hash)]
pub struct NoteOn {
    pub channel: MidiChannel,
    pub note: MidiNote,
    pub vel: PressVelocity,
}

impl NoteOn {
    /// The message's three bytes: `0x90` plus the channel, the note, the
    /// velocity.
    pub open spec fn bytes(self) -> Seq<u8> {
        note_bytes(0x90, self.channel, self.note, self.vel)
    }

    /// The message's three bytes.
    pub fn as_bytes(&self) -> (r: [u8; 3])
        ensures
            r@ == self.bytes(),
            r@[0] >= 128,
            r@[1] < 128,
            r@[2] < 128,
    {
        NoteEventPayload::new(self.channel(), self.note(), self.vel()).as_bytes(
            NoteEventTag::On.as_u8(),
        )
    }

    pub fn new(channel: MidiChannel, note: MidiNote, vel: PressVelocity) -> (r: Self)
        ensures
            r == (NoteOn { channel, note, vel }),
    {
        Self { channel, note, vel }
    }

    /// This message on another channel.
    pub fn with_channel(self, channel: MidiChannel) -> (r: Self)
        ensures
            r == (NoteOn { channel, ..self }),
    {
        NoteOn { channel, ..self }
    }

    /// This message with another note.
    pub fn with_note(self, note: MidiNote) -> (r: Self)
        ensures
            r == (NoteOn { note, ..self }),
    {
        NoteOn { note, ..self }
    }

    /// This message with another velocity.
    pub fn with_vel(self, vel: PressVelocity) -> (r: Self)
        ensures
            r == (NoteOn { vel, ..self }),
    {
        NoteOn { vel, ..self }
    }

    pub fn channel(&self) -> (r: MidiChannel)
        ensures
            r == self.channel,
    {
        self.channel
    }

    pub fn note(&self) -> (r: MidiNote)
        ensures
            r == self.note,
    {
        self.note
    }

    pub fn vel(&self) -> (r: PressVelocity)
        ensures
            r == self.vel,
    {
        self.vel
    }
}

/// What three bytes say, taken as a note-on message.
pub open spec fn parsed_noteon(bytes: Seq<u8>) -> Result<NoteOn, MessageParseError> {
    match parsed_note_event(NoteEventTag::On, bytes) {
        Ok(p) => Ok(NoteOn { channel: p.channel, note: p.note, vel: p.velocity }),
        Err(e) => Err(e),
    }
}

/// Reads three bytes as a note-on message.
pub fn parse_noteon(bytes: [u8; 3]) -> (r: Result<NoteOn, MessageParseError>)
    ensures
        r == parsed_noteon(bytes@),
{
    match parse_tag_expected(bytes[0], NoteEventTag::On) {
        Ok(_) => {},
        Err(e) => {
            return Err(e);
        },
    }
    match parse_noteevent(bytes) {
        Ok(payload) => Ok(
            NoteOn { channel: payload.channel, note: payload.note, vel: payload.velocity },
        ),
        Err(e) => Err(e),
    }
}

/// A key was released: note-off.
#[derive(Debug, Copy, Clone, PartialEq, Eq, Structural, Hash)]
pub struct NoteOff {
    pub channel: MidiChannel,
    pub note: MidiNote,
    pub vel: PressVelocity,
}

impl NoteOff {
    /// The message's three bytes: `0x80` plus the channel, the note, the
    /// velocity.
    pub open spec fn bytes(self) -> Seq<u8> {
        note_bytes(0x80, self.channel, self.note, self.vel)
    }

    /// The message's three bytes.
    pub fn as_bytes(&self) -> (r: [u8; 3])
        ensures
            r@ == self.bytes(),
            r@[0] >= 128,
            r@[1] < 128,
            r@[2] < 128,
    {
        NoteEventPayload::new(self.channel(), self.note(), self.vel()).as_bytes(
            NoteEventTag::Off.as_u8(),
        )
    }

    /// This message on another channel.
    pub fn with_channel(self, channel: MidiChannel) -> (r: Self)
        ensures
            r == (NoteOff { channel, ..self }),
    {
        NoteOff { channel, ..self }
    }

    /// This message with another note.
    pub fn with_note(self, note: MidiNote) -> (r: Self)
        ensures
            r == (NoteOff { note, ..self }),
    {
        NoteOff { note, ..self }
    }

    /// This message with another velocity.
    pub fn with_vel(self, vel: PressVelocity) -> (r: Self)
        ensures
            r == (NoteOff { vel, ..self }),
    {
        NoteOff { vel, ..self }
    }

    pub fn new(channel: MidiChannel, note: MidiNote, vel: PressVelocity) -> (r: Self)
        ensures
            r == (NoteOff { channel, note, vel }),
    {
        Self { channel, note, vel }
    }

    pub fn channel(&self) -> (r: MidiChannel)
        ensures
            r == self.channel,
    {
        self.channel
    }

    pub fn note(&self) -> (r: MidiNote)
        ensures
            r == self.note,
    {
        self.note
    }

    pub fn vel(&self) -> (r: PressVelocity)
        ensures
            r == self.vel,
    {
        self.vel
    }
}

/// What three bytes say, taken as a note-off message.
pub open spec fn parsed_noteoff(bytes: Seq<u8>) -> Result<NoteOff, MessageParseError> {
    match parsed_note_event(NoteEventTag::Off, bytes) {
        Ok(p) => Ok(NoteOff { channel: p.channel, note: p.note, vel: p.velocity }),
        Err(e) => Err(e),
    }
}

/// Reads three bytes as a note-off message.
pub fn parse_noteoff(bytes: [u8; 3]) -> (r: Result<NoteOff, MessageParseError>)
    ensures
        r == parsed_noteoff(bytes@),
{
    match parse_tag_expected(bytes[0], NoteEventTag::Off) {
        Ok(_) => {},
        Err(e) => {
            return Err(e);
        },
    }
    match parse_noteevent(bytes) {
        Ok(payload) => Ok(
            NoteOff { channel: payload.channel, note: payload.note, vel: payload.velocity },
        ),
        Err(e) => Err(e),
    }
}

/// Reads the data of three bytes as those of a note message.
pub fn parse_noteevent(bytes: [u8; 3]) -> (r: Result<NoteEventPayload, MessageParseError>)
    ensures
        r == parsed_payload(bytes@),
{
    let channel = match parse_channel(bytes[0]) {
        Ok(c) => c,
        Err(e) => {
            return Err(e);
        },
    };
    let note = match parse_note(bytes[1]) {
        Ok(n) => n,
        Err(e) => {
            return Err(e);
        },
    };
    let velocity = match parse_vel(bytes[2]) {
        Ok(v) => v,
        Err(e) => {
            return Err(e);
        },
    };
    Ok(NoteEventPayload { channel, note, velocity })
}

/// A note-on message is read back from its own three bytes.
pub proof fn lemma_noteon_round_trip(m: NoteOn)
    requires
        m.channel.wf(),
        m.note.wf(),
        m.vel.wf(),
    ensures
        parsed_noteon(m.bytes()) == Ok::<NoteOn, MessageParseError>(m),
{
    lemma_status_byte(0x90, m.channel.value() as u8);
}

/// A note-off message is read back from its own three bytes.
pub proof fn lemma_noteoff_round_trip(m: NoteOff)
    requires
        m.channel.wf(),
        m.note.wf(),
        m.vel.wf(),
    ensures
        parsed_noteoff(m.bytes()) == Ok::<NoteOff, MessageParseError>(m),
{
    lemma_status_byte(0x80, m.channel.value() as u8);
}

} // verus!
