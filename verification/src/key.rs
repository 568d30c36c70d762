//! The per-key signal processor: turns a stream of depth samples into
//! note-on, aftertouch and note-off decisions with a velocity estimate.

use vstd::prelude::*;
use crate::DEPTH_SCALE;
use crate::config::KeyConfig;
use crate::note::{MidiEvent, NoteSink, SendError, MIDI_NOTE_MAX, MIDI_NOTE_MIN};

verus! {

/// Depth band (0.01 of full travel) within which two samples count as the
/// same position; used to debounce noisy jitter and stale anchors.
pub const DEPTH_JITTER: u32 = 10_000;

/// The runtime state of one configured key.
///
/// `velocity` and `current_value` are depths in `DEPTH_SCALE` units and
/// always stay within that scale.  `lower_press` is the anchor: the
/// timestamp (microseconds) and depth at which the current key-travel
/// segment began, used to estimate velocity.
#[derive(Clone, Copy, Debug)]
pub struct KeyState {
    pub pressed: bool,
    pub shifted_amount: i8,
    pub velocity: u32,
    pub current_value: u32,
    pub lower_press: Option<(u64, u32)>,
}

/// The state a key starts in: released, unshifted, no anchor.
pub open spec fn fresh_state() -> KeyState {
    KeyState {
        pressed: false,
        shifted_amount: 0,
        velocity: 0,
        current_value: 0,
        lower_press: None,
    }
}

impl KeyState {
    /// Velocity, current depth and any anchored depth stay within the
    /// fixed-point scale.
    pub open spec fn inv(&self) -> bool {
        &&& self.velocity <= DEPTH_SCALE
        &&& self.current_value <= DEPTH_SCALE
        &&& match self.lower_press {
            Some((_t, d)) => d <= DEPTH_SCALE,
            None => true,
        }
    }

    /// The anchor, if any, was taken at or before the given instant.
    pub open spec fn anchor_at_or_before(&self, now: u64) -> bool {
        match self.lower_press {
            Some((t, _d)) => t <= now,
            None => true,
        }
    }
}

/// Distance between two depths.
pub open spec fn depth_diff(a: u32, b: u32) -> u32 {
    if a >= b {
        (a - b) as u32
    } else {
        (b - a) as u32
    }
}

/// A fresh anchor is taken when the key has just begun a new downward
/// travel below the trigger point, or is released outright.
pub open spec fn anchor_reset(st: KeyState, cfg: KeyConfig, new_value: u32) -> bool {
    ||| (st.current_value <= cfg.actuation_point && new_value > cfg.actuation_point && new_value
        < cfg.threshold)
    ||| new_value <= cfg.actuation_point
}

/// The velocity estimate for a travel from `anchor_depth` to `new_value`
/// over `elapsed` microseconds: the depth gained per second, times the
/// tuning scale, divided by one hundred, clamped into the fixed-point
/// range.  A non-rising travel estimates zero; an instantaneous rise
/// saturates at full scale.
pub open spec fn spec_velocity(anchor_depth: u32, new_value: u32, elapsed: int, scale: u32) -> u32 {
    if new_value <= anchor_depth {
        0
    } else if elapsed <= 0 {
        DEPTH_SCALE
    } else {
        let raw = (new_value - anchor_depth) * scale * 10 / elapsed;
        if raw >= DEPTH_SCALE {
            DEPTH_SCALE
        } else {
            raw as u32
        }
    }
}

/// The anchor and velocity bookkeeping of one tick: either take a fresh
/// anchor, or estimate velocity against the existing one, re-anchoring
/// when the new depth sits within the jitter band of the anchor or has
/// dropped spuriously below the previous sample.
pub open spec fn after_travel(st: KeyState, cfg: KeyConfig, new_value: u32, now: u64) -> KeyState {
    if anchor_reset(st, cfg, new_value) {
        KeyState { velocity: 0, lower_press: Some((now, new_value)), ..st }
    } else {
        match st.lower_press {
            Some((t, d)) => {
                let vel = spec_velocity(d, new_value, now - t, cfg.velocity_scale);
                let re_anchor = depth_diff(d, new_value) < DEPTH_JITTER || new_value + DEPTH_JITTER
                    < st.current_value;
                KeyState {
                    velocity: vel,
                    lower_press: if re_anchor {
                        Some((now, new_value))
                    } else {
                        st.lower_press
                    },
                    ..st
                }
            },
            None => st,
        }
    }
}

/// A new shift amount is latched only while the key is not pressed.
pub open spec fn after_latch(st: KeyState, shifted_amount: i8) -> KeyState {
    if shifted_amount != st.shifted_amount && !st.pressed {
        KeyState { shifted_amount, ..st }
    } else {
        st
    }
}

/// The state after anchor, velocity and shift bookkeeping, before the
/// trigger decision.
pub open spec fn mid_state(
    st: KeyState,
    cfg: KeyConfig,
    new_value: u32,
    shifted_amount: i8,
    now: u64,
) -> KeyState {
    after_latch(after_travel(st, cfg, new_value, now), shifted_amount)
}

/// The note that would sound: the configured note plus the latched shift,
/// if that lands in the playable MIDI range.
pub open spec fn effective_note(base_note: u8, shifted_amount: i8) -> Option<u8> {
    let computed = base_note + shifted_amount;
    if MIDI_NOTE_MIN <= computed <= MIDI_NOTE_MAX {
        Some(computed as u8)
    } else {
        None
    }
}

/// The trigger decision on the bookkept state: at most one event per tick,
/// and none at all while the effective note is out of range.
pub open spec fn trigger_event(st: KeyState, cfg: KeyConfig, new_value: u32) -> Option<MidiEvent> {
    match effective_note(cfg.note_id, st.shifted_amount) {
        None => None,
        Some(note) => {
            if new_value > cfg.threshold {
                if !st.pressed {
                    Some(MidiEvent::NoteOn { note, velocity: st.velocity, channel: cfg.channel })
                } else if cfg.aftertouch && new_value != st.current_value {
                    Some(MidiEvent::Aftertouch { note, pressure: new_value, channel: cfg.channel })
                } else {
                    None
                }
            } else if st.pressed {
                Some(MidiEvent::NoteOff { note, velocity: st.velocity, channel: cfg.channel })
            } else {
                None
            }
        },
    }
}

/// The event one tick emits, if any.
pub open spec fn step_event(
    st: KeyState,
    cfg: KeyConfig,
    new_value: u32,
    shifted_amount: i8,
    now: u64,
) -> Option<MidiEvent> {
    trigger_event(mid_state(st, cfg, new_value, shifted_amount, now), cfg, new_value)
}

/// The state one tick leaves behind: the bookkept state with the pressed
/// flag following the trigger decision and the sample stored as the
/// current depth.
pub open spec fn next_state(
    st: KeyState,
    cfg: KeyConfig,
    new_value: u32,
    shifted_amount: i8,
    now: u64,
) -> KeyState {
    let mid = mid_state(st, cfg, new_value, shifted_amount, now);
    let pressed = match step_event(st, cfg, new_value, shifted_amount, now) {
        Some(MidiEvent::NoteOn { .. }) => true,
        Some(MidiEvent::NoteOff { .. }) => false,
        _ => mid.pressed,
    };
    KeyState { pressed, current_value: new_value, ..mid }
}

/// Whatever event a tick emits lies within the ranges the encoder and
/// every sink accept: a playable note, a value within the fixed-point
/// scale, a valid channel.
pub proof fn lemma_step_event_wf(
    st: KeyState,
    cfg: KeyConfig,
    new_value: u32,
    shifted_amount: i8,
    now: u64,
)
    requires
        st.inv(),
        cfg.wf(),
        new_value <= DEPTH_SCALE,
    ensures
        step_event(st, cfg, new_value, shifted_amount, now) matches Some(e) ==> e.wf(),
{
}

/// The events of one tick as a sequence: empty or a single element.
pub open spec fn opt_event_seq(e: Option<MidiEvent>) -> Seq<MidiEvent> {
    match e {
        Some(ev) => seq![ev],
        None => Seq::empty(),
    }
}

impl KeyState {
    /// A key starts released, unshifted, at depth zero, with no anchor.
    pub fn new() -> (s: KeyState)
        ensures
            s == fresh_state(),
    {
        KeyState {
            pressed: false,
            shifted_amount: 0,
            velocity: 0,
            current_value: 0,
            lower_press: None,
        }
    }

    /// The configured note plus the latched shift, if playable.
    pub fn get_effective_note(&self, base_note: u8) -> (r: Option<u8>)
        ensures
            r == effective_note(base_note, self.shifted_amount),
    {
        let computed: i16 = base_note as i16 + self.shifted_amount as i16;
        if MIDI_NOTE_MIN as i16 <= computed && computed <= MIDI_NOTE_MAX as i16 {
            Some(computed as u8)
        } else {
            None
        }
    }

    /// Feeds one depth sample into the key, emitting at most one event.
    ///
    /// A sample outside the fixed-point scale is a caller contract
    /// violation and is excluded by precondition; the embedding clamps
    /// device readings before handing them in.
    ///
    /// On success the key advances to `next_state` and the sink has
    /// accepted exactly the events of `step_event`.  If the sink fails,
    /// the error propagates at once: anchor, velocity and shift
    /// bookkeeping have run, but the pressed flag and the stored depth
    /// are unchanged and the sink's history is as it was.
    pub fn update_value<S: NoteSink>(
        &mut self,
        key_config: &KeyConfig,
        new_value: u32,
        sink: &mut S,
        shifted_amount: i8,
        now: u64,
    ) -> (r: Result<(), SendError>)
        requires
            old(self).inv(),
            key_config.wf(),
            new_value <= DEPTH_SCALE,
            old(self).anchor_at_or_before(now),
            old(self).pressed ==> effective_note(key_config.note_id, old(self).shifted_amount)
                is Some,
        ensures
            final(self).inv(),
            final(self).anchor_at_or_before(now),
            final(self).pressed ==> effective_note(key_config.note_id, final(self).shifted_amount)
                is Some,
            r is Ok ==> *final(self) == next_state(
                *old(self),
                *key_config,
                new_value,
                shifted_amount,
                now,
            ),
            r is Ok ==> final(sink).events() == old(sink).events() + opt_event_seq(
                step_event(*old(self), *key_config, new_value, shifted_amount, now),
            ),
            r is Err ==> *final(self) == mid_state(
                *old(self),
                *key_config,
                new_value,
                shifted_amount,
                now,
            ),
            r is Err ==> final(sink).events() == old(sink).events(),
            r is Err ==> step_event(*old(self), *key_config, new_value, shifted_amount, now)
                is Some,
    {
        if (self.current_value <= key_config.actuation_point && new_value
            > key_config.actuation_point && new_value < key_config.threshold) || new_value
            <= key_config.actuation_point {
            self.lower_press = Some((now, new_value));
            self.velocity = 0;
        } else if let Some((prev_time, prev_depth)) = self.lower_press {
            let elapsed: u64 = now - prev_time;
            if new_value > prev_depth {
                if elapsed == 0 {
                    self.velocity = DEPTH_SCALE;
                } else {
                    let delta: u64 = (new_value - prev_depth) as u64;
                    proof {
                        vstd::arithmetic::mul::lemma_mul_upper_bound(
                            delta as int,
                            1_000_000,
                            key_config.velocity_scale as int,
                            0xffff_ffff,
                        );
                        vstd::arithmetic::mul::lemma_mul_nonnegative(
                            delta as int,
                            key_config.velocity_scale as int,
                        );
                        vstd::arithmetic::mul::lemma_mul_upper_bound(
                            delta * (key_config.velocity_scale as int),
                            1_000_000int * 0xffff_ffff,
                            10,
                            10,
                        );
                    }
                    let raw: u64 = delta * (key_config.velocity_scale as u64) * 10;
                    let q: u64 = raw / elapsed;
                    self.velocity = if q >= DEPTH_SCALE as u64 {
                        DEPTH_SCALE
                    } else {
                        q as u32
                    };
                }
            } else {
                self.velocity = 0;
            }
            let diff: u32 = if prev_depth >= new_value {
                prev_depth - new_value
            } else {
                new_value - prev_depth
            };
            if diff < DEPTH_JITTER || new_value + DEPTH_JITTER < self.current_value {
                self.lower_press = Some((now, new_value));
            }
        }
        if shifted_amount != self.shifted_amount && !self.pressed {
            self.shifted_amount = shifted_amount;
        }
        proof {
            assert(*self == mid_state(*old(self), *key_config, new_value, shifted_amount, now));
        }
        match self.get_effective_note(key_config.note_id) {
            Some(note) => {
                if new_value > key_config.threshold {
                    if !self.pressed {
                        match sink.note_on(note, self.velocity, key_config.channel) {
                            Ok(()) => {},
                            Err(e) => {
                                return Err(e);
                            },
                        }
                        self.pressed = true;
                    } else if key_config.aftertouch && new_value != self.current_value {
                        match sink.polyphonic_aftertouch(note, new_value, key_config.channel) {
                            Ok(()) => {},
                            Err(e) => {
                                return Err(e);
                            },
                        }
                    }
                } else if self.pressed {
                    match sink.note_off(note, self.velocity, key_config.channel) {
                        Ok(()) => {},
                        Err(e) => {
                            return Err(e);
                        },
                    }
                    self.pressed = false;
                }
            },
            None => {},
        }
        self.current_value = new_value;
        proof {
            let ev = step_event(*old(self), *key_config, new_value, shifted_amount, now);
            assert(sink.events() =~= old(sink).events() + opt_event_seq(ev));
        }
        Ok(())
    }
}

} // verus!
