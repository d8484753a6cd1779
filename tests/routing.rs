use miditokeydaemon::{
    evaluate, get_computed_velocity, name_contains, select_port, get_debounce_duration, match_velocity, matches_rule,
    process_midi_message, scale_value, Action, DebounceState, DecodeError, Key, KeyAction,
    KeymapErrorKind, MidiEvent, MidiMap, MidiMapOptions, MidiMapVelocityOptions, NamedKey,
    Settings, VelocityScale,
};

fn rule(midi_id: u8, note: u8) -> MidiMap {
    MidiMap {
        midi_id,
        note,
        keymap: None,
        velocity: None,
        command: None,
        options: None,
        mouse: None,
    }
}

fn with_options(mut m: MidiMap, debounce: Option<u64>, scale: Option<VelocityScale>) -> MidiMap {
    m.options = Some(MidiMapOptions {
        velocity: Some(MidiMapVelocityOptions { debounce, scale }),
    });
    m
}

fn settings(rules: Vec<MidiMap>) -> Settings {
    Settings {
        device_port_name: "Keystation".to_string(),
        midi_mapping: rules,
    }
}

fn spawned(actions: &[Action]) -> Vec<(String, Option<u8>)> {
    actions
        .iter()
        .filter_map(|a| match a {
            Action::Spawn { command, velocity } => Some((command.clone(), *velocity)),
            _ => None,
        })
        .collect()
}

#[test]
fn matcher_requires_id_note_and_velocity() {
    let mut r = rule(144, 60);
    r.velocity = Some(100);
    let ev = |id, note, v| MidiEvent { midi_id: id, note, velocity: v };
    assert!(matches_rule(&ev(144, 60, Some(100)), &r));
    assert!(matches_rule(&ev(144, 60, None), &r));
    assert!(!matches_rule(&ev(144, 60, Some(99)), &r));
    assert!(!matches_rule(&ev(128, 60, Some(100)), &r));
    assert!(!matches_rule(&ev(144, 61, Some(100)), &r));
    r.velocity = None;
    assert!(matches_rule(&ev(144, 60, Some(5)), &r));
}

#[test]
fn match_velocity_cases() {
    let mut r = rule(144, 60);
    assert!(match_velocity(Some(3), &r));
    assert!(match_velocity(None, &r));
    r.velocity = Some(64);
    assert!(match_velocity(Some(64), &r));
    assert!(!match_velocity(Some(65), &r));
    assert!(match_velocity(None, &r));
}

#[test]
fn decode_messages() {
    assert_eq!(
        MidiEvent::decode(&[144, 60, 100]),
        Ok(MidiEvent { midi_id: 144, note: 60, velocity: Some(100) })
    );
    assert_eq!(
        MidiEvent::decode(&[144, 60]),
        Ok(MidiEvent { midi_id: 144, note: 60, velocity: None })
    );
    assert_eq!(MidiEvent::decode(&[144]), Err(DecodeError::TooShort));
    assert_eq!(MidiEvent::decode(&[]), Err(DecodeError::TooShort));
    assert_eq!(
        MidiEvent::decode(&[144, 200, 1]),
        Ok(MidiEvent { midi_id: 144, note: 200, velocity: Some(1) })
    );
    assert_eq!(
        MidiEvent::decode(&[144, 60, 128, 7]),
        Ok(MidiEvent { midi_id: 144, note: 60, velocity: Some(128) })
    );
}

#[test]
fn scale_value_endpoints_and_middle() {
    assert_eq!(scale_value(0, 0, 200), 0);
    assert_eq!(scale_value(127, 0, 200), 200);
    assert_eq!(scale_value(64, 0, 200), 101);
    assert_eq!(scale_value(0, 20, 90), 20);
    assert_eq!(scale_value(127, 20, 90), 90);
    assert_eq!(scale_value(0, 255, 0), 255);
    assert_eq!(scale_value(127, 255, 0), 0);
    assert_eq!(scale_value(1, 0, 255), 2);
}

#[test]
fn scale_value_saturates_outside_midi_domain() {
    assert_eq!(scale_value(255, 0, 200), 255);
    assert_eq!(scale_value(255, 200, 0), 0);
    assert_eq!(scale_value(200, 0, 127), 200);
    assert_eq!(scale_value(128, 10, 10), 10);
}

#[test]
fn unscaled_velocity_passes_through_for_every_byte() {
    let plain = rule(144, 60);
    for v in 0..=255u8 {
        assert_eq!(get_computed_velocity(Some(v), &plain), Some(v));
    }
}

#[test]
fn high_data_bytes_are_still_routed() {
    let mut r = rule(144, 200);
    r.command = Some("hi".to_string());
    r.keymap = Some("k".to_string());
    let s = settings(vec![r]);
    let mut state = DebounceState::new();
    let out = process_midi_message(&[144, 200, 150], &s, &mut state, 0).unwrap();
    assert_eq!(out.len(), 2);
    assert_eq!(spawned(&out), vec![("hi".to_string(), Some(150))]);
}

#[test]
fn scale_value_is_monotonic_on_ascending_scale() {
    let mut prev = scale_value(0, 10, 250);
    for v in 1..=127u8 {
        let cur = scale_value(v, 10, 250);
        assert!(prev <= cur);
        prev = cur;
    }
}

#[test]
fn computed_velocity_cases() {
    let plain = rule(144, 60);
    assert_eq!(get_computed_velocity(Some(90), &plain), Some(90));
    assert_eq!(get_computed_velocity(None, &plain), None);
    let no_scale = with_options(rule(144, 60), Some(10), None);
    assert_eq!(get_computed_velocity(Some(90), &no_scale), Some(90));
    let scaled = with_options(rule(144, 60), None, Some(VelocityScale { min: 0, max: 200 }));
    assert_eq!(get_computed_velocity(Some(127), &scaled), Some(200));
    assert_eq!(get_computed_velocity(Some(0), &scaled), Some(0));
    assert_eq!(get_computed_velocity(Some(64), &scaled), Some(101));
    assert_eq!(get_computed_velocity(None, &scaled), None);
}

#[test]
fn debounce_duration_defaults_to_200() {
    assert_eq!(get_debounce_duration(&rule(1, 2)), 200);
    let mut m = rule(1, 2);
    m.options = Some(MidiMapOptions { velocity: None });
    assert_eq!(get_debounce_duration(&m), 200);
    assert_eq!(get_debounce_duration(&with_options(rule(1, 2), None, None)), 200);
    assert_eq!(get_debounce_duration(&with_options(rule(1, 2), Some(750), None)), 750);
}

#[test]
fn debounce_twice_within_and_after_window() {
    let cmd = "echo hi".to_string();
    let mut s = DebounceState::new();
    assert_eq!(s.last_dispatch(&cmd), None);
    assert!(s.should_dispatch(&cmd, 200, 1000));
    assert_eq!(s.last_dispatch(&cmd), Some(1000));
    assert!(!s.should_dispatch(&cmd, 200, 1199));
    assert_eq!(s.last_dispatch(&cmd), Some(1000));
    assert!(s.should_dispatch(&cmd, 200, 1200));
    assert_eq!(s.last_dispatch(&cmd), Some(1200));
}

#[test]
fn debounce_keys_are_independent() {
    let a = "a".to_string();
    let b = "b".to_string();
    let mut s = DebounceState::new();
    assert!(s.should_dispatch(&a, 500, 10));
    assert!(s.should_dispatch(&b, 500, 20));
    assert!(!s.should_dispatch(&a, 500, 30));
    assert_eq!(s.last_dispatch(&b), Some(20));
}

#[test]
fn keymap_plain_text_and_tags() {
    let actions = evaluate("a b{RETURN}").unwrap();
    assert_eq!(
        actions,
        vec![
            KeyAction::Click(Key::Char('a')),
            KeyAction::Click(Key::Char('b')),
            KeyAction::Click(Key::Named(NamedKey::Return)),
        ]
    );
    let held = evaluate("{+SHIFT}x {-SHIFT} {PAUSE}{{}}").unwrap();
    assert_eq!(
        held,
        vec![
            KeyAction::Down(Key::Named(NamedKey::Shift)),
            KeyAction::Click(Key::Char('x')),
            KeyAction::Up(Key::Named(NamedKey::Shift)),
            KeyAction::Pause,
            KeyAction::Click(Key::Char('{')),
            KeyAction::Click(Key::Char('}')),
        ]
    );
    assert_eq!(evaluate("   "), Ok(vec![]));
}

#[test]
fn keymap_errors() {
    let e = evaluate("ab{NOPE}").unwrap_err();
    assert_eq!((e.kind, e.start, e.end), (KeymapErrorKind::UnknownKey, 2, 8));
    let e = evaluate("{}").unwrap_err();
    assert_eq!((e.kind, e.start, e.end), (KeymapErrorKind::EmptyTag, 0, 2));
    let e = evaluate("x{SHIFT").unwrap_err();
    assert_eq!((e.kind, e.start, e.end), (KeymapErrorKind::UnmatchedOpen, 1, 7));
    let e = evaluate("x}y").unwrap_err();
    assert_eq!((e.kind, e.start, e.end), (KeymapErrorKind::UnmatchedClose, 1, 2));
    let e = evaluate("{+NOPE}").unwrap_err();
    assert_eq!(e.kind, KeymapErrorKind::UnknownKey);
}

#[test]
fn keymap_is_deterministic() {
    assert_eq!(evaluate("{+CONTROL}c{-CONTROL}"), evaluate("{+CONTROL}c{-CONTROL}"));
}

#[test]
fn scenario_debounced_command_spawns_once() {
    let mut r = with_options(rule(144, 60), Some(200), None);
    r.command = Some("echo hi".to_string());
    let s = settings(vec![r]);
    let mut state = DebounceState::new();
    let first = process_midi_message(&[144, 60, 100], &s, &mut state, 1000).unwrap();
    let second = process_midi_message(&[144, 60, 100], &s, &mut state, 1050).unwrap();
    assert_eq!(spawned(&first).len() + spawned(&second).len(), 1);
    assert_eq!(spawned(&first), vec![("echo hi".to_string(), Some(100))]);
}

#[test]
fn scenario_velocity_mismatch_and_missing_velocity() {
    let mut r = rule(144, 60);
    r.velocity = Some(100);
    r.command = Some("run".to_string());
    let s = settings(vec![r]);
    let mut state = DebounceState::new();
    let out = process_midi_message(&[144, 60, 99], &s, &mut state, 0).unwrap();
    assert!(out.is_empty());
    let out = process_midi_message(&[144, 60], &s, &mut state, 0).unwrap();
    assert_eq!(spawned(&out), vec![("run".to_string(), None)]);
}

#[test]
fn scenario_scaled_velocity_in_environment() {
    let mut r = with_options(rule(144, 60), Some(0), Some(VelocityScale { min: 0, max: 200 }));
    r.command = Some("vol".to_string());
    let s = settings(vec![r]);
    let mut state = DebounceState::new();
    for (raw, expected) in [(127u8, 200u8), (0, 0), (64, 101)] {
        let out = process_midi_message(&[144, 60, raw], &s, &mut state, 0).unwrap();
        assert_eq!(spawned(&out), vec![("vol".to_string(), Some(expected))]);
    }
}

#[test]
fn keymap_error_does_not_block_later_rule() {
    let mut bad = rule(144, 60);
    bad.keymap = Some("{BOGUS}".to_string());
    let mut good = rule(144, 60);
    good.command = Some("echo ok".to_string());
    let s = settings(vec![bad, good]);
    let mut state = DebounceState::new();
    let out = process_midi_message(&[144, 60, 1], &s, &mut state, 0).unwrap();
    assert_eq!(out.len(), 2);
    assert!(matches!(out[0], Action::KeymapFailed(_)));
    assert_eq!(spawned(&out), vec![("echo ok".to_string(), Some(1))]);
}

#[test]
fn empty_command_is_ignored() {
    let mut r = rule(144, 60);
    r.command = Some(String::new());
    let s = settings(vec![r]);
    let mut state = DebounceState::new();
    let out = process_midi_message(&[144, 60, 1], &s, &mut state, 0).unwrap();
    assert!(out.is_empty());
    assert_eq!(state.last_dispatch(&String::new()), None);
}

#[test]
fn shared_command_shares_timer() {
    let mut a = rule(144, 60);
    a.command = Some("same".to_string());
    let mut b = rule(144, 61);
    b.command = Some("same".to_string());
    let mut c = rule(144, 61);
    c.command = Some("other".to_string());
    let s = settings(vec![a, b, c]);
    let mut state = DebounceState::new();
    let out = process_midi_message(&[144, 60, 1], &s, &mut state, 0).unwrap();
    assert_eq!(spawned(&out), vec![("same".to_string(), Some(1))]);
    let out = process_midi_message(&[144, 61, 1], &s, &mut state, 100).unwrap();
    assert_eq!(spawned(&out), vec![("other".to_string(), Some(1))]);
    let out = process_midi_message(&[144, 61, 1], &s, &mut state, 250).unwrap();
    assert_eq!(spawned(&out), vec![("same".to_string(), Some(1))]);
}

#[test]
fn every_matching_rule_fires_in_order() {
    let mut a = rule(144, 60);
    a.keymap = Some("q".to_string());
    let mut b = rule(144, 60);
    b.keymap = Some("w".to_string());
    let s = settings(vec![a, rule(176, 1), b]);
    let mut state = DebounceState::new();
    let out = process_midi_message(&[144, 60, 5], &s, &mut state, 0).unwrap();
    assert_eq!(out.len(), 2);
    match (&out[0], &out[1]) {
        (Action::Keys(x), Action::Keys(y)) => {
            assert_eq!(x, &vec![KeyAction::Click(Key::Char('q'))]);
            assert_eq!(y, &vec![KeyAction::Click(Key::Char('w'))]);
        }
        _ => panic!("expected two keystroke actions"),
    }
}

#[test]
fn short_message_is_rejected_without_state_change() {
    let mut r = rule(144, 60);
    r.command = Some("x".to_string());
    let s = settings(vec![r]);
    let mut state = DebounceState::new();
    assert!(matches!(
        process_midi_message(&[144], &s, &mut state, 0),
        Err(DecodeError::TooShort)
    ));
    assert_eq!(state.last_dispatch(&"x".to_string()), None);
}

#[test]
fn port_selection_takes_first_name_containing_text() {
    let names = vec![
        "Midi Through:0".to_string(),
        "Keystation 49:0".to_string(),
        "Keystation Mini:1".to_string(),
    ];
    assert_eq!(select_port(&names, &"Keystation".to_string()), Some(1));
    assert_eq!(select_port(&names, &"Mini".to_string()), Some(2));
    assert_eq!(select_port(&names, &"Launchpad".to_string()), None);
    assert_eq!(select_port(&names, &String::new()), Some(0));
    assert_eq!(select_port(&[].to_vec(), &"x".to_string()), None);
}

#[test]
fn name_contains_cases() {
    assert!(name_contains("abcdef", "cde"));
    assert!(name_contains("abc", "abc"));
    assert!(name_contains("abc", ""));
    assert!(!name_contains("abc", "abcd"));
    assert!(!name_contains("abc", "acb"));
    assert!(name_contains("xxab", "ab"));
}
