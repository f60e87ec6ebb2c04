//! Reading incoming MIDI note messages.

use vstd::prelude::*;

verus! {

/// A note message on a MIDI channel.
#[derive(Clone, Copy, Debug, PartialEq, Eq, Structural)]
pub enum NoteMessage {
    NoteOn { channel: u8, note: u8, velocity: u8 },
    NoteOff { channel: u8, note: u8, velocity: u8 },
}

/// The event a received note-on message becomes: a note-on with velocity
/// zero means the note was released, so it becomes a note-off with
/// velocity 255; any other note-on is kept.
pub fn note_on_event(channel: u8, note: u8, velocity: u8) -> (m: NoteMessage)
    ensures
        velocity == 0 ==> m == (NoteMessage::NoteOff { channel, note, velocity: 255 }),
        velocity != 0 ==> m == (NoteMessage::NoteOn { channel, note, velocity }),
{
    if velocity == 0 {
        NoteMessage::NoteOff { channel, note, velocity: 255 }
    } else {
        NoteMessage::NoteOn { channel, note, velocity }
    }
}

} // verus!
