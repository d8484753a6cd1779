//! Routing engine of a daemon that turns MIDI note events into keyboard
//! input and shell commands: rule matching, velocity rescaling, per-command
//! debouncing, the keymap notation, the per-message dispatch plan, and the
//! choice of input port.
pub mod debounce;
pub mod dispatch;
pub mod keymap;
pub mod mapping;
pub mod ports;
pub mod matcher;
pub mod velocity;

pub use debounce::DebounceState;
pub use dispatch::{process_midi_message, Action};
pub use keymap::{evaluate, Key, KeyAction, KeymapError, KeymapErrorKind, NamedKey, PAUSE_MS};
pub use mapping::{
    get_debounce_duration, get_velocity_scale, MidiMap, MidiMapOptions, MidiMapVelocityOptions,
    Settings, VelocityScale, DEFAULT_DEBOUNCE_MS,
};
pub use matcher::{match_velocity, matches_rule, DecodeError, MidiEvent};
pub use velocity::{get_computed_velocity, scale_value};
pub use ports::{name_contains, select_port};
