use vstd::prelude::*;
use crate::mapping::MidiMap;

verus! {

/// A decoded MIDI message: status byte, first data byte and, when the
/// message has one, the second data byte.
#[derive(Clone, Copy, Debug, PartialEq, Eq, Structural)]
pub struct MidiEvent {
    pub midi_id: u8,
    pub note: u8,
    pub velocity: Option<u8>,
}

/// Why a raw message could not be decoded.
#[derive(Clone, Copy, Debug, PartialEq, Eq, Structural)]
pub enum DecodeError {
    /// Fewer than two bytes: status and note are mandatory.
    TooShort,
}

/// The event a raw message stands for.
pub open spec fn decoded(message: Seq<u8>) -> Result<MidiEvent, DecodeError> {
    if message.len() < 2 {
        Err(DecodeError::TooShort)
    } else {
        Ok(
            MidiEvent {
                midi_id: message[0],
                note: message[1],
                velocity: if message.len() > 2 {
                    Some(message[2])
                } else {
                    None
                },
            },
        )
    }
}

/// A velocity constraint holds when the rule sets none, when the event has
/// none, or when both are equal.
pub open spec fn velocity_matches(velocity: Option<u8>, expected: Option<u8>) -> bool {
    match expected {
        None => true,
        Some(e) => match velocity {
            None => true,
            Some(v) => v == e,
        },
    }
}

/// Whether an event satisfies a rule.
pub open spec fn rule_matches(e: MidiEvent, m: MidiMap) -> bool {
    e.midi_id == m.midi_id && e.note == m.note && velocity_matches(e.velocity, m.velocity)
}

impl MidiEvent {
    /// Decodes a raw message of one to three (or more) bytes; bytes after the
    /// third are ignored.
    pub fn decode(message: &[u8]) -> (r: Result<MidiEvent, DecodeError>)
        ensures
            r == decoded(message@),
    {
        if message.len() < 2 {
            return Err(DecodeError::TooShort);
        }
        let velocity = if message.len() > 2 {
            Some(message[2])
        } else {
            None
        };
        Ok(MidiEvent { midi_id: message[0], note: message[1], velocity })
    }
}

/// Checks the event's velocity against the rule's velocity constraint.
pub fn match_velocity(velocity: Option<u8>, mapping: &MidiMap) -> (r: bool)
    ensures
        r == velocity_matches(velocity, mapping.velocity),
{
    match mapping.velocity {
        None => true,
        Some(expected) => match velocity {
            None => true,
            Some(actual) => actual == expected,
        },
    }
}

/// Whether the event satisfies the rule: same status byte, same note, and a
/// velocity that does not contradict the rule's.
pub fn matches_rule(event: &MidiEvent, mapping: &MidiMap) -> (r: bool)
    ensures
        r == rule_matches(*event, *mapping),
{
    event.midi_id == mapping.midi_id && event.note == mapping.note && match_velocity(
        event.velocity,
        mapping,
    )
}

} // verus!
