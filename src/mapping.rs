use vstd::prelude::*;

verus! {

/// Debounce window, in milliseconds, of a rule that does not set one.
pub const DEFAULT_DEBOUNCE_MS: u64 = 200;

/// The daemon's settings: which input port to listen on, and the ordered
/// table of rules applied to each incoming message.
#[derive(Clone, Debug)]
pub struct Settings {
    /// Substring looked for in the names of the available MIDI input ports.
    pub device_port_name: String,
    pub midi_mapping: Vec<MidiMap>,
}

/// One rule of the mapping table.
#[derive(Clone, Debug)]
pub struct MidiMap {
    /// Status byte the event must carry.
    pub midi_id: u8,
    /// First data byte (the note) the event must carry.
    pub note: u8,
    /// Key sequence to play, in the keymap notation of `keymap::evaluate`.
    pub keymap: Option<String>,
    /// Velocity the event must carry, when it carries one.
    pub velocity: Option<u8>,
    /// Shell command to run; an empty command counts as none.
    pub command: Option<String>,
    pub options: Option<MidiMapOptions>,
    /// Accepted in the configuration; no action is attached to it.
    pub mouse: Option<String>,
}

#[derive(Clone, Debug)]
pub struct MidiMapOptions {
    pub velocity: Option<MidiMapVelocityOptions>,
}

#[derive(Clone, Copy, Debug)]
pub struct MidiMapVelocityOptions {
    /// Debounce window in milliseconds.
    pub debounce: Option<u64>,
    pub scale: Option<VelocityScale>,
}

/// Target range of the velocity rescaling; `max < min` gives a descending
/// scale.
#[derive(Clone, Copy, Debug, PartialEq, Eq, Structural)]
pub struct VelocityScale {
    pub min: u8,
    pub max: u8,
}

/// The velocity options of a rule, if it has any.
pub open spec fn velocity_options_of(m: MidiMap) -> Option<MidiMapVelocityOptions> {
    match m.options {
        Some(o) => o.velocity,
        None => None,
    }
}

/// The velocity scale of a rule, if it has one.
pub open spec fn scale_of(m: MidiMap) -> Option<VelocityScale> {
    match velocity_options_of(m) {
        Some(v) => v.scale,
        None => None,
    }
}

/// The debounce window of a rule in milliseconds.
pub open spec fn debounce_window_of(m: MidiMap) -> u64 {
    match velocity_options_of(m) {
        Some(v) => match v.debounce {
            Some(d) => d,
            None => DEFAULT_DEBOUNCE_MS,
        },
        None => DEFAULT_DEBOUNCE_MS,
    }
}

/// The command of a rule when it is set and not empty.
pub open spec fn effective_command(m: MidiMap) -> Option<Seq<char>> {
    match m.command {
        Some(c) => if c@.len() > 0 {
            Some(c@)
        } else {
            None
        },
        None => None,
    }
}

fn velocity_options(mapping: &MidiMap) -> (r: Option<MidiMapVelocityOptions>)
    ensures
        r == velocity_options_of(*mapping),
{
    match &mapping.options {
        Some(o) => o.velocity,
        None => None,
    }
}

/// The debounce window of the rule in milliseconds: the configured one, or
/// `DEFAULT_DEBOUNCE_MS`.
pub fn get_debounce_duration(mapping: &MidiMap) -> (r: u64)
    ensures
        r == debounce_window_of(*mapping),
{
    match velocity_options(mapping) {
        Some(v) => match v.debounce {
            Some(d) => d,
            None => DEFAULT_DEBOUNCE_MS,
        },
        None => DEFAULT_DEBOUNCE_MS,
    }
}

/// The velocity scale of the rule, if it has one.
pub fn get_velocity_scale(mapping: &MidiMap) -> (r: Option<VelocityScale>)
    ensures
        r == scale_of(*mapping),
{
    match velocity_options(mapping) {
        Some(v) => v.scale,
        None => None,
    }
}

} // verus!
