use wooting_analog_midi::config::{create_config, Config, KeyConfig, HID_F12};
use wooting_analog_midi::key::KeyState;
use wooting_analog_midi::note::{encode_event, FailingSink, MidiEvent, RecordingSink};
use wooting_analog_midi::MidiService;

fn test_key_config() -> KeyConfig {
    KeyConfig {
        note_id: 60,
        channel: 0,
        actuation_point: 0,
        threshold: 800_000,
        velocity_scale: 5_000,
        aftertouch: true,
        shift_amount: 12,
    }
}

#[test]
fn single_press_scenario() {
    let cfg = test_key_config();
    let mut st = KeyState::new();
    let mut sink = RecordingSink::new();
    // fully released at t = 0: anchors, emits nothing
    st.update_value(&cfg, 0, &mut sink, 0, 0).unwrap();
    assert_eq!(sink.sent.len(), 0);
    // depth 0.9 at t = 50 ms: one note-on, velocity 0.9
    st.update_value(&cfg, 900_000, &mut sink, 0, 50_000).unwrap();
    assert_eq!(
        sink.sent,
        vec![MidiEvent::NoteOn { note: 60, velocity: 900_000, channel: 0 }]
    );
    assert!(st.pressed);
    // depth 0.95: one aftertouch
    st.update_value(&cfg, 950_000, &mut sink, 0, 55_000).unwrap();
    assert_eq!(sink.sent.len(), 2);
    assert_eq!(
        sink.sent[1],
        MidiEvent::Aftertouch { note: 60, pressure: 950_000, channel: 0 }
    );
    // released: one note-off with the freshly reset velocity
    st.update_value(&cfg, 0, &mut sink, 0, 60_000).unwrap();
    assert_eq!(sink.sent.len(), 3);
    assert_eq!(
        sink.sent[2],
        MidiEvent::NoteOff { note: 60, velocity: 0, channel: 0 }
    );
    assert!(!st.pressed);
}

#[test]
fn no_second_note_on_while_held() {
    let cfg = test_key_config();
    let mut st = KeyState::new();
    let mut sink = RecordingSink::new();
    st.update_value(&cfg, 0, &mut sink, 0, 0).unwrap();
    st.update_value(&cfg, 900_000, &mut sink, 0, 10_000).unwrap();
    assert_eq!(sink.sent.len(), 1);
    // held above the threshold: unchanged depth emits nothing
    st.update_value(&cfg, 900_000, &mut sink, 0, 20_000).unwrap();
    assert_eq!(sink.sent.len(), 1);
    // changed depth emits aftertouch, never another note-on
    st.update_value(&cfg, 910_000, &mut sink, 0, 30_000).unwrap();
    st.update_value(&cfg, 920_000, &mut sink, 0, 40_000).unwrap();
    assert_eq!(sink.sent.len(), 3);
    assert!(matches!(sink.sent[1], MidiEvent::Aftertouch { .. }));
    assert!(matches!(sink.sent[2], MidiEvent::Aftertouch { .. }));
    // one note-off on release
    st.update_value(&cfg, 100_000, &mut sink, 0, 50_000).unwrap();
    assert_eq!(sink.sent.len(), 4);
    assert!(matches!(sink.sent[3], MidiEvent::NoteOff { .. }));
}

#[test]
fn aftertouch_disabled_emits_nothing_while_held() {
    let mut cfg = test_key_config();
    cfg.aftertouch = false;
    let mut st = KeyState::new();
    let mut sink = RecordingSink::new();
    st.update_value(&cfg, 0, &mut sink, 0, 0).unwrap();
    st.update_value(&cfg, 900_000, &mut sink, 0, 10_000).unwrap();
    st.update_value(&cfg, 950_000, &mut sink, 0, 20_000).unwrap();
    st.update_value(&cfg, 990_000, &mut sink, 0, 30_000).unwrap();
    assert_eq!(sink.sent.len(), 1);
    assert!(matches!(sink.sent[0], MidiEvent::NoteOn { .. }));
}

#[test]
fn velocity_saturates_at_full_scale() {
    let cfg = test_key_config();
    let mut st = KeyState::new();
    let mut sink = RecordingSink::new();
    st.update_value(&cfg, 0, &mut sink, 0, 0).unwrap();
    // full travel in one millisecond: the estimate clamps to 1.0
    st.update_value(&cfg, 1_000_000, &mut sink, 0, 1_000).unwrap();
    assert_eq!(
        sink.sent,
        vec![MidiEvent::NoteOn { note: 60, velocity: 1_000_000, channel: 0 }]
    );
}

#[test]
fn instantaneous_rise_saturates() {
    let cfg = test_key_config();
    let mut st = KeyState::new();
    let mut sink = RecordingSink::new();
    st.update_value(&cfg, 0, &mut sink, 0, 7_000).unwrap();
    // a second sample at the very same instant cannot divide by time
    st.update_value(&cfg, 900_000, &mut sink, 0, 7_000).unwrap();
    assert_eq!(
        sink.sent,
        vec![MidiEvent::NoteOn { note: 60, velocity: 1_000_000, channel: 0 }]
    );
}

#[test]
fn exact_velocity_formula() {
    let cfg = test_key_config();
    let mut st = KeyState::new();
    let mut sink = RecordingSink::new();
    st.update_value(&cfg, 0, &mut sink, 0, 0).unwrap();
    // 0.85 depth over 200 ms: 0.85 / 0.2 * 5000 / 1000 / 100 = 0.2125
    st.update_value(&cfg, 850_000, &mut sink, 0, 200_000).unwrap();
    assert_eq!(
        sink.sent,
        vec![MidiEvent::NoteOn { note: 60, velocity: 212_500, channel: 0 }]
    );
}

#[test]
fn out_of_range_shift_is_silent() {
    let mut cfg = test_key_config();
    cfg.note_id = 100;
    let mut st = KeyState::new();
    let mut sink = RecordingSink::new();
    // shift of +12 pushes the note past the playable range: no events at all
    st.update_value(&cfg, 0, &mut sink, 12, 0).unwrap();
    st.update_value(&cfg, 900_000, &mut sink, 12, 10_000).unwrap();
    st.update_value(&cfg, 950_000, &mut sink, 12, 20_000).unwrap();
    st.update_value(&cfg, 0, &mut sink, 12, 30_000).unwrap();
    assert_eq!(sink.sent.len(), 0);
    assert!(!st.pressed);
}

#[test]
fn shift_does_not_move_a_sounding_note() {
    let cfg = test_key_config();
    let mut st = KeyState::new();
    let mut sink = RecordingSink::new();
    st.update_value(&cfg, 0, &mut sink, 0, 0).unwrap();
    st.update_value(&cfg, 900_000, &mut sink, 0, 10_000).unwrap();
    assert_eq!(
        sink.sent[0],
        MidiEvent::NoteOn { note: 60, velocity: 1_000_000, channel: 0 }
    );
    // the modifier goes down mid-press: the sounding note keeps its pitch
    st.update_value(&cfg, 950_000, &mut sink, 12, 20_000).unwrap();
    assert_eq!(
        sink.sent[1],
        MidiEvent::Aftertouch { note: 60, pressure: 950_000, channel: 0 }
    );
    st.update_value(&cfg, 0, &mut sink, 12, 30_000).unwrap();
    assert!(matches!(
        sink.sent[2],
        MidiEvent::NoteOff { note: 60, .. }
    ));
    // only after the release does the shift latch and sound
    st.update_value(&cfg, 900_000, &mut sink, 12, 40_000).unwrap();
    assert!(matches!(sink.sent[3], MidiEvent::NoteOn { note: 72, .. }));
}

#[test]
fn encoded_bytes_stay_in_range() {
    let on = MidiEvent::NoteOn { note: 60, velocity: 900_000, channel: 0 };
    assert_eq!(encode_event(&on), (0x90, 60, 114));
    let off = MidiEvent::NoteOff { note: 108, velocity: 1_000_000, channel: 15 };
    assert_eq!(encode_event(&off), (0x8F, 108, 127));
    let touch = MidiEvent::Aftertouch { note: 21, pressure: 0, channel: 3 };
    assert_eq!(encode_event(&touch), (0xA3, 21, 0));
    // rounding goes to the nearest step
    let half = MidiEvent::NoteOn { note: 60, velocity: 950_000, channel: 0 };
    let (_, _, data) = encode_event(&half);
    assert_eq!(data, 121);
}

#[test]
fn toggle_enable_edges() {
    let mut svc = MidiService::new();
    let mut sink = RecordingSink::new();
    let config = Config {
        toggle_keys: vec![27],
        modifier_keys: vec![],
        key_configs: vec![],
    };
    svc.set_config(config, &mut sink).unwrap();
    assert!(!svc.enabled);
    let pressed = vec![(27u16, 500_000u32)];
    let released: Vec<(u16, u32)> = vec![];
    svc.poll(&released, 0, &mut sink).unwrap();
    assert!(!svc.enabled);
    // rising edge flips the enable flag on
    svc.poll(&pressed, 5_000, &mut sink).unwrap();
    assert!(svc.enabled);
    // holding the key does not flip again
    svc.poll(&pressed, 10_000, &mut sink).unwrap();
    assert!(svc.enabled);
    // releasing does not flip either
    svc.poll(&released, 15_000, &mut sink).unwrap();
    assert!(svc.enabled);
    // the next rising edge flips it back off
    svc.poll(&pressed, 20_000, &mut sink).unwrap();
    assert!(!svc.enabled);
}

#[test]
fn disabled_service_ignores_keys() {
    let mut svc = MidiService::new();
    let mut sink = RecordingSink::new();
    let config = Config {
        toggle_keys: vec![69],
        modifier_keys: vec![],
        key_configs: vec![(20, test_key_config())],
    };
    svc.set_config(config, &mut sink).unwrap();
    // never enabled: deep presses emit nothing
    svc.poll(&vec![(20u16, 900_000u32)], 0, &mut sink).unwrap();
    svc.poll(&vec![(20u16, 950_000u32)], 5_000, &mut sink).unwrap();
    assert_eq!(sink.sent.len(), 0);
    assert!(!svc.key_states[0].pressed);
}

#[test]
fn poll_presses_and_releases_through_the_engine() {
    let mut svc = MidiService::new();
    let mut sink = RecordingSink::new();
    let config = Config {
        toggle_keys: vec![69],
        modifier_keys: vec![],
        key_configs: vec![(20, test_key_config())],
    };
    svc.set_config(config, &mut sink).unwrap();
    // enable with the toggle key
    svc.poll(&vec![(69u16, 300_000u32)], 0, &mut sink).unwrap();
    assert!(svc.enabled);
    // a missing key reads as released: still nothing
    svc.poll(&vec![], 5_000, &mut sink).unwrap();
    assert_eq!(sink.sent.len(), 0);
    // the key crosses the threshold
    svc.poll(&vec![(20u16, 900_000u32)], 55_000, &mut sink).unwrap();
    assert_eq!(
        sink.sent,
        vec![MidiEvent::NoteOn { note: 60, velocity: 900_000, channel: 0 }]
    );
    // the key disappears from the snapshot: read as released, note-off
    svc.poll(&vec![], 60_000, &mut sink).unwrap();
    assert_eq!(sink.sent.len(), 2);
    assert!(matches!(sink.sent[1], MidiEvent::NoteOff { note: 60, .. }));
}

#[test]
fn modifier_shifts_only_new_presses() {
    let mut svc = MidiService::new();
    let mut sink = RecordingSink::new();
    let config = Config {
        toggle_keys: vec![69],
        modifier_keys: vec![225],
        key_configs: vec![(20, test_key_config())],
    };
    svc.set_config(config, &mut sink).unwrap();
    svc.poll(&vec![(69u16, 300_000u32)], 0, &mut sink).unwrap();
    // press with the modifier held: the note sounds shifted an octave up
    svc.poll(
        &vec![(20u16, 900_000u32), (225u16, 400_000u32)],
        10_000,
        &mut sink,
    )
    .unwrap();
    assert!(matches!(sink.sent[0], MidiEvent::NoteOn { note: 72, .. }));
    // modifier released mid-press: the sounding note stays at 72
    svc.poll(&vec![(20u16, 950_000u32)], 20_000, &mut sink).unwrap();
    assert!(matches!(
        sink.sent[1],
        MidiEvent::Aftertouch { note: 72, .. }
    ));
    svc.poll(&vec![], 30_000, &mut sink).unwrap();
    assert!(matches!(sink.sent[2], MidiEvent::NoteOff { note: 72, .. }));
}

#[test]
fn set_config_flushes_pressed_keys() {
    let mut svc = MidiService::new();
    let mut sink = RecordingSink::new();
    let config = Config {
        toggle_keys: vec![69],
        modifier_keys: vec![],
        key_configs: vec![(20, test_key_config()), (26, test_key_config())],
    };
    svc.set_config(config, &mut sink).unwrap();
    svc.poll(&vec![(69u16, 300_000u32)], 0, &mut sink).unwrap();
    svc.poll(&vec![(20u16, 900_000u32)], 10_000, &mut sink).unwrap();
    assert_eq!(sink.sent.len(), 1);
    assert!(svc.key_states[0].pressed);
    assert!(!svc.key_states[1].pressed);
    // the swap owes a note-off for exactly the pressed key, under the old
    // configuration, and rebuilds the key-state set for the new one
    let new_config = Config {
        toggle_keys: vec![69],
        modifier_keys: vec![],
        key_configs: vec![(8, test_key_config())],
    };
    svc.set_config(new_config, &mut sink).unwrap();
    assert_eq!(sink.sent.len(), 2);
    assert!(matches!(
        sink.sent[1],
        MidiEvent::NoteOff { note: 60, channel: 0, .. }
    ));
    assert_eq!(svc.key_states.len(), 1);
    assert!(!svc.key_states[0].pressed);
    assert!(svc.key_states[0].lower_press.is_none());
    assert_eq!(svc.config.key_configs[0].0, 8);
}

#[test]
fn set_config_send_failure_keeps_old_state() {
    let mut svc = MidiService::new();
    let mut good = RecordingSink::new();
    let config = Config {
        toggle_keys: vec![69],
        modifier_keys: vec![],
        key_configs: vec![(20, test_key_config())],
    };
    svc.set_config(config, &mut good).unwrap();
    svc.poll(&vec![(69u16, 300_000u32)], 0, &mut good).unwrap();
    svc.poll(&vec![(20u16, 900_000u32)], 10_000, &mut good).unwrap();
    assert!(svc.key_states[0].pressed);
    // the owed note-off cannot be sent: the swap must not happen
    let mut bad = FailingSink::new(0);
    let new_config = Config {
        toggle_keys: vec![],
        modifier_keys: vec![],
        key_configs: vec![],
    };
    assert!(svc.set_config(new_config, &mut bad).is_err());
    assert_eq!(bad.sent.len(), 0);
    assert!(svc.key_states[0].pressed);
    assert_eq!(svc.config.key_configs.len(), 1);
    assert_eq!(svc.config.key_configs[0].0, 20);
}

#[test]
fn poll_aborts_tick_on_send_failure() {
    let mut svc = MidiService::new();
    let mut sink = FailingSink::new(1);
    let config = Config {
        toggle_keys: vec![69],
        modifier_keys: vec![],
        key_configs: vec![(20, test_key_config()), (26, test_key_config())],
    };
    svc.set_config(config, &mut sink).unwrap();
    svc.poll(&vec![(69u16, 300_000u32)], 0, &mut sink).unwrap();
    // both keys cross the threshold, but only one send fits the budget:
    // the first note-on stands, the error surfaces, the second key is
    // left unvisited
    let snap = vec![(20u16, 900_000u32), (26u16, 900_000u32)];
    assert!(svc.poll(&snap, 10_000, &mut sink).is_err());
    assert_eq!(sink.sent.len(), 1);
    assert!(matches!(sink.sent[0], MidiEvent::NoteOn { note: 60, .. }));
    assert!(svc.key_states[0].pressed);
    assert!(!svc.key_states[1].pressed);
}

#[test]
fn velocity_zero_when_depth_equals_anchor() {
    let mut cfg = test_key_config();
    cfg.actuation_point = 100_000;
    let mut st = KeyState::new();
    let mut sink = RecordingSink::new();
    // anchors at 0.05 (below the actuation point)
    st.update_value(&cfg, 50_000, &mut sink, 0, 0).unwrap();
    assert_eq!(st.velocity, 0);
    // a sample equal to the anchored depth estimates zero velocity
    st.update_value(&cfg, 50_000, &mut sink, 0, 10_000).unwrap();
    assert_eq!(st.velocity, 0);
    assert_eq!(sink.sent.len(), 0);
}

#[test]
fn recorded_events_encode_to_bytes() {
    let cfg = test_key_config();
    let mut st = KeyState::new();
    let mut sink = RecordingSink::new();
    st.update_value(&cfg, 0, &mut sink, 0, 0).unwrap();
    st.update_value(&cfg, 900_000, &mut sink, 0, 50_000).unwrap();
    st.update_value(&cfg, 0, &mut sink, 0, 60_000).unwrap();
    let bytes = sink.sent_bytes();
    assert_eq!(bytes, vec![(0x90, 60, 114), (0x80, 60, 0)]);
}

#[test]
fn default_config_values() {
    let kc = KeyConfig::default();
    assert_eq!(kc.note_id, 60);
    assert_eq!(kc.channel, 0);
    assert_eq!(kc.actuation_point, 0);
    assert_eq!(kc.threshold, 800_000);
    assert_eq!(kc.velocity_scale, 5_000);
    assert!(kc.aftertouch);
    assert_eq!(kc.shift_amount, 12);
    let c = Config::default();
    assert!(c.toggle_keys.is_empty());
    assert_eq!(c.modifier_keys, vec![225, 229]);
    assert!(c.key_configs.is_empty());
}

#[test]
fn built_in_layout() {
    let c = create_config();
    assert_eq!(c.toggle_keys, vec![HID_F12]);
    assert_eq!(c.modifier_keys, vec![225, 229]);
    assert_eq!(c.key_configs.len(), 15);
    assert_eq!(c.key_configs[0], (20, KeyConfig::default()));
    // the doubled key of the layout keeps one entry, with the later note
    let t_entry = c.key_configs.iter().find(|(code, _)| *code == 23).unwrap();
    assert_eq!(t_entry.1.note_id, 68);
    let p_entry = c.key_configs.iter().find(|(code, _)| *code == 19).unwrap();
    assert_eq!(p_entry.1.note_id, 75);
}
