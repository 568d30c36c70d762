//! MIDI events, their three-byte encoding, and the sink they are handed to.

use vstd::prelude::*;
use crate::DEPTH_SCALE;

verus! {

/// Lowest MIDI note number the library will sound.
pub const MIDI_NOTE_MIN: u8 = 21;

/// Highest MIDI note number the library will sound.
pub const MIDI_NOTE_MAX: u8 = 108;

/// Status nibble of a note-on channel voice message.
pub const NOTE_ON_MSG: u8 = 0x90;

/// Status nibble of a note-off channel voice message.
pub const NOTE_OFF_MSG: u8 = 0x80;

/// Status nibble of a polyphonic aftertouch channel voice message.
pub const POLY_AFTERTOUCH_MSG: u8 = 0xA0;

/// A transmission failure reported by a sink.
#[derive(Clone, Copy, Debug, PartialEq, Eq, Structural)]
pub struct SendError;

/// One MIDI channel voice message, before encoding.  `velocity` and
/// `pressure` are depths in `DEPTH_SCALE` units.
#[derive(Clone, Copy, Debug, PartialEq, Eq, Structural)]
pub enum MidiEvent {
    NoteOn { note: u8, velocity: u32, channel: u8 },
    NoteOff { note: u8, velocity: u32, channel: u8 },
    Aftertouch { note: u8, pressure: u32, channel: u8 },
}

impl MidiEvent {
    /// The ranges every emitted event satisfies: a note the library may
    /// sound, a valid channel, and a fixed-point value of at most one.
    pub open spec fn wf(&self) -> bool {
        match *self {
            MidiEvent::NoteOn { note, velocity, channel } =>
                MIDI_NOTE_MIN <= note <= MIDI_NOTE_MAX && velocity <= DEPTH_SCALE && channel <= 15,
            MidiEvent::NoteOff { note, velocity, channel } =>
                MIDI_NOTE_MIN <= note <= MIDI_NOTE_MAX && velocity <= DEPTH_SCALE && channel <= 15,
            MidiEvent::Aftertouch { note, pressure, channel } =>
                MIDI_NOTE_MIN <= note <= MIDI_NOTE_MAX && pressure <= DEPTH_SCALE && channel <= 15,
        }
    }
}

/// The second data byte of a message: a fixed-point value of at most one,
/// clamped and rounded to the nearest of 128 steps.
pub open spec fn spec_data_byte(value: u32) -> u8 {
    let clamped: int = if value > DEPTH_SCALE { DEPTH_SCALE as int } else { value as int };
    ((clamped * 127 + 500_000) / 1_000_000) as u8
}

/// The three bytes a sink transmits for an event: a status byte carrying
/// the channel, the note number, and the rounded value.
pub open spec fn spec_encode(ev: MidiEvent) -> (u8, u8, u8) {
    match ev {
        MidiEvent::NoteOn { note, velocity, channel } =>
            ((NOTE_ON_MSG | channel), note, spec_data_byte(velocity)),
        MidiEvent::NoteOff { note, velocity, channel } =>
            ((NOTE_OFF_MSG | channel), note, spec_data_byte(velocity)),
        MidiEvent::Aftertouch { note, pressure, channel } =>
            ((POLY_AFTERTOUCH_MSG | channel), note, spec_data_byte(pressure)),
    }
}

/// Rounds a fixed-point value to its MIDI data byte; the result never
/// exceeds 127.
pub fn data_byte(value: u32) -> (b: u8)
    ensures
        b == spec_data_byte(value),
        b <= 127,
{
    let clamped: u32 = if value > DEPTH_SCALE { DEPTH_SCALE } else { value };
    let wide: u64 = (clamped as u64) * 127 + 500_000;
    assert(wide <= 127_500_000);
    let b: u64 = wide / 1_000_000;
    assert(b <= 127) by {
        vstd::arithmetic::div_mod::lemma_div_is_ordered(wide as int, 127_500_000, 1_000_000);
    }
    b as u8
}

/// Encodes an event as the three bytes of a channel voice message.  Both
/// data bytes stay within 0..=127; the status byte has its high bit set.
pub fn encode_event(ev: &MidiEvent) -> (b: (u8, u8, u8))
    requires
        ev.wf(),
    ensures
        b == spec_encode(*ev),
        128 <= b.0,
        b.1 <= 127,
        b.2 <= 127,
{
    match *ev {
        MidiEvent::NoteOn { note, velocity, channel } => {
            assert(channel <= 15 ==> (NOTE_ON_MSG | channel) >= 128) by (bit_vector);
            (NOTE_ON_MSG | channel, note, data_byte(velocity))
        },
        MidiEvent::NoteOff { note, velocity, channel } => {
            assert(channel <= 15 ==> (NOTE_OFF_MSG | channel) >= 128) by (bit_vector);
            (NOTE_OFF_MSG | channel, note, data_byte(velocity))
        },
        MidiEvent::Aftertouch { note, pressure, channel } => {
            assert(channel <= 15 ==> (POLY_AFTERTOUCH_MSG | channel) >= 128) by (bit_vector);
            (POLY_AFTERTOUCH_MSG | channel, note, data_byte(pressure))
        },
    }
}

/// A destination for MIDI events.  A successful call appends exactly the
/// requested event to the sink's history; a failed call leaves the history
/// as it was.
pub trait NoteSink {
    /// The events the sink has accepted, oldest first.
    spec fn events(&self) -> Seq<MidiEvent>;

    fn note_on(&mut self, note_id: u8, velocity: u32, channel: u8) -> (r: Result<(), SendError>)
        requires
            MIDI_NOTE_MIN <= note_id <= MIDI_NOTE_MAX,
            velocity <= DEPTH_SCALE,
            channel <= 15,
        ensures
            r is Ok ==> final(self).events() == old(self).events().push(
                MidiEvent::NoteOn { note: note_id, velocity, channel }),
            r is Err ==> final(self).events() == old(self).events(),
    ;

    fn note_off(&mut self, note_id: u8, velocity: u32, channel: u8) -> (r: Result<(), SendError>)
        requires
            MIDI_NOTE_MIN <= note_id <= MIDI_NOTE_MAX,
            velocity <= DEPTH_SCALE,
            channel <= 15,
        ensures
            r is Ok ==> final(self).events() == old(self).events().push(
                MidiEvent::NoteOff { note: note_id, velocity, channel }),
            r is Err ==> final(self).events() == old(self).events(),
    ;

    fn polyphonic_aftertouch(&mut self, note_id: u8, pressure: u32, channel: u8) -> (r: Result<
        (),
        SendError,
    >)
        requires
            MIDI_NOTE_MIN <= note_id <= MIDI_NOTE_MAX,
            pressure <= DEPTH_SCALE,
            channel <= 15,
        ensures
            r is Ok ==> final(self).events() == old(self).events().push(
                MidiEvent::Aftertouch { note: note_id, pressure, channel }),
            r is Err ==> final(self).events() == old(self).events(),
    ;
}

/// An in-memory sink that records every event and never fails, for
/// deterministic assertions on emitted sequences.
pub struct RecordingSink {
    pub sent: Vec<MidiEvent>,
}

impl RecordingSink {
    pub fn new() -> (s: RecordingSink)
        ensures
            s.events() == Seq::<MidiEvent>::empty(),
    {
        RecordingSink { sent: Vec::new() }
    }

    /// The recorded events, encoded as the byte triples a device would
    /// receive.
    pub fn sent_bytes(&self) -> (bytes: Vec<(u8, u8, u8)>)
        requires
            forall|i: int| 0 <= i < self.sent@.len() ==> (#[trigger] self.sent@[i]).wf(),
        ensures
            bytes@.len() == self.sent@.len(),
            forall|i: int| 0 <= i < bytes@.len() ==> bytes@[i] == spec_encode(#[trigger] self.sent@[i]),
    {
        let mut bytes: Vec<(u8, u8, u8)> = Vec::new();
        let mut i: usize = 0;
        while i < self.sent.len()
            invariant
                i <= self.sent@.len(),
                forall|k: int| 0 <= k < self.sent@.len() ==> (#[trigger] self.sent@[k]).wf(),
                bytes@.len() == i,
                forall|k: int| 0 <= k < i ==> bytes@[k] == spec_encode(#[trigger] self.sent@[k]),
            decreases self.sent@.len() - i,
        {
            let b = encode_event(&self.sent[i]);
            bytes.push(b);
            i += 1;
        }
        bytes
    }
}

impl NoteSink for RecordingSink {
    open spec fn events(&self) -> Seq<MidiEvent> {
        self.sent@
    }

    fn note_on(&mut self, note_id: u8, velocity: u32, channel: u8) -> (r: Result<(), SendError>)
        ensures
            r is Ok,
    {
        self.sent.push(MidiEvent::NoteOn { note: note_id, velocity, channel });
        Ok(())
    }

    fn note_off(&mut self, note_id: u8, velocity: u32, channel: u8) -> (r: Result<(), SendError>)
        ensures
            r is Ok,
    {
        self.sent.push(MidiEvent::NoteOff { note: note_id, velocity, channel });
        Ok(())
    }

    fn polyphonic_aftertouch(&mut self, note_id: u8, pressure: u32, channel: u8) -> (r: Result<
        (),
        SendError,
    >)
        ensures
            r is Ok,
    {
        self.sent.push(MidiEvent::Aftertouch { note: note_id, pressure, channel });
        Ok(())
    }
}

/// An in-memory sink that accepts a limited number of events and then
/// fails every call, for exercising abort paths.
pub struct FailingSink {
    pub sent: Vec<MidiEvent>,
    pub budget: usize,
}

impl FailingSink {
    pub fn new(budget: usize) -> (s: FailingSink)
        ensures
            s.events() == Seq::<MidiEvent>::empty(),
            s.budget == budget,
    {
        FailingSink { sent: Vec::new(), budget }
    }
}

impl NoteSink for FailingSink {
    open spec fn events(&self) -> Seq<MidiEvent> {
        self.sent@
    }

    fn note_on(&mut self, note_id: u8, velocity: u32, channel: u8) -> (r: Result<(), SendError>)
        ensures
            r is Ok <==> old(self).budget > 0,
            final(self).budget == if old(self).budget > 0 { old(self).budget - 1 } else { 0 },
    {
        if self.budget == 0 {
            Err(SendError)
        } else {
            self.budget = self.budget - 1;
            self.sent.push(MidiEvent::NoteOn { note: note_id, velocity, channel });
            Ok(())
        }
    }

    fn note_off(&mut self, note_id: u8, velocity: u32, channel: u8) -> (r: Result<(), SendError>)
        ensures
            r is Ok <==> old(self).budget > 0,
            final(self).budget == if old(self).budget > 0 { old(self).budget - 1 } else { 0 },
    {
        if self.budget == 0 {
            Err(SendError)
        } else {
            self.budget = self.budget - 1;
            self.sent.push(MidiEvent::NoteOff { note: note_id, velocity, channel });
            Ok(())
        }
    }

    fn polyphonic_aftertouch(&mut self, note_id: u8, pressure: u32, channel: u8) -> (r: Result<
        (),
        SendError,
    >)
        ensures
            r is Ok <==> old(self).budget > 0,
            final(self).budget == if old(self).budget > 0 { old(self).budget - 1 } else { 0 },
    {
        if self.budget == 0 {
            Err(SendError)
        } else {
            self.budget = self.budget - 1;
            self.sent.push(MidiEvent::Aftertouch { note: note_id, pressure, channel });
            Ok(())
        }
    }
}

} // verus!
