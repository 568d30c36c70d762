//! The per-tick orchestrator: consumes one analog snapshot, derives the
//! enable and modifier state, fans out to every configured key, and
//! manages reconfiguration.

use vstd::prelude::*;
use crate::DEPTH_SCALE;
use crate::config::{Config, KeyConfig, HID_LEFT_SHIFT, HID_RIGHT_SHIFT};
use crate::key::{
    effective_note, fresh_state, mid_state, next_state, opt_event_seq, step_event, KeyState,
};
use crate::note::{MidiEvent, NoteSink, SendError};

verus! {

/// Every depth in a snapshot stays within the fixed-point scale.
pub open spec fn snap_wf(snap: Seq<(u16, u32)>) -> bool {
    forall|i: int| 0 <= i < snap.len() ==> (#[trigger] snap[i]).1 <= DEPTH_SCALE
}

/// The depth a snapshot reports for a key code, scanning from entry `i`:
/// the first entry with that code, or zero when absent.
pub open spec fn snap_depth_from(snap: Seq<(u16, u32)>, code: u16, i: int) -> u32
    decreases snap.len() - i,
{
    if i < 0 || i >= snap.len() {
        0
    } else if snap[i].0 == code {
        snap[i].1
    } else {
        snap_depth_from(snap, code, i + 1)
    }
}

/// The depth a snapshot reports for a key code; a missing key reads as
/// fully released.
pub open spec fn snap_depth(snap: Seq<(u16, u32)>, code: u16) -> u32 {
    snap_depth_from(snap, code, 0)
}

pub proof fn lemma_snap_depth_from_bound(snap: Seq<(u16, u32)>, code: u16, i: int)
    requires
        snap_wf(snap),
    ensures
        snap_depth_from(snap, code, i) <= DEPTH_SCALE,
    decreases snap.len() - i,
{
    if i < 0 || i >= snap.len() {
    } else if snap[i].0 == code {
    } else {
        lemma_snap_depth_from_bound(snap, code, i + 1);
    }
}

/// Whether any key of the list reads a positive depth in the snapshot.
pub open spec fn any_key_pressed(keys: Seq<u16>, snap: Seq<(u16, u32)>) -> bool {
    exists|i: int| 0 <= i < keys.len() && snap_depth(snap, #[trigger] keys[i]) > 0
}

/// Looks a key code up in a snapshot.
pub fn snapshot_depth(snap: &Vec<(u16, u32)>, code: u16) -> (d: u32)
    ensures
        d == snap_depth(snap@, code),
{
    let mut i: usize = 0;
    while i < snap.len()
        invariant
            i <= snap@.len(),
            snap_depth(snap@, code) == snap_depth_from(snap@, code, i as int),
        decreases snap@.len() - i,
    {
        if snap[i].0 == code {
            return snap[i].1;
        }
        i += 1;
    }
    0
}

/// Whether any key of the list is pressed at all in the snapshot.
pub fn keys_any_pressed(keys: &Vec<u16>, snap: &Vec<(u16, u32)>) -> (b: bool)
    ensures
        b == any_key_pressed(keys@, snap@),
{
    let mut i: usize = 0;
    while i < keys.len()
        invariant
            i <= keys@.len(),
            forall|j: int| 0 <= j < i ==> snap_depth(snap@, #[trigger] keys@[j]) == 0,
        decreases keys@.len() - i,
    {
        if snapshot_depth(snap, keys[i]) > 0 {
            assert(snap_depth(snap@, keys@[i as int]) > 0);
            return true;
        }
        i += 1;
    }
    false
}

/// The enable flag after a tick's toggle handling: only a rising edge of
/// the aggregate toggle-key state flips it.
pub open spec fn toggled_enabled(enabled: bool, prev_key_state: bool, toggle_pressed: bool) -> bool {
    if toggle_pressed != prev_key_state && toggle_pressed {
        !enabled
    } else {
        enabled
    }
}

/// The shift a tick hands to a key: the configured amount while a
/// modifier is held, otherwise none.
pub open spec fn tick_shift(modifier_active: bool, cfg: KeyConfig) -> i8 {
    if modifier_active {
        cfg.shift_amount
    } else {
        0
    }
}

/// The state one tick leaves for the key of `entry`.
pub open spec fn key_next(
    st: KeyState,
    entry: (u16, KeyConfig),
    snap: Seq<(u16, u32)>,
    modifier_active: bool,
    now: u64,
) -> KeyState {
    next_state(st, entry.1, snap_depth(snap, entry.0), tick_shift(modifier_active, entry.1), now)
}

/// The state the key of `entry` is left in when its tick aborts on a
/// failed emission: bookkeeping done, trigger outcome not recorded.
pub open spec fn key_mid(
    st: KeyState,
    entry: (u16, KeyConfig),
    snap: Seq<(u16, u32)>,
    modifier_active: bool,
    now: u64,
) -> KeyState {
    mid_state(st, entry.1, snap_depth(snap, entry.0), tick_shift(modifier_active, entry.1), now)
}

/// The event one tick emits for the key of `entry`, if any.
pub open spec fn key_event(
    st: KeyState,
    entry: (u16, KeyConfig),
    snap: Seq<(u16, u32)>,
    modifier_active: bool,
    now: u64,
) -> Option<MidiEvent> {
    step_event(st, entry.1, snap_depth(snap, entry.0), tick_shift(modifier_active, entry.1), now)
}

/// The key states after the first `n` keys of a tick have been served.
pub open spec fn tick_states(
    states: Seq<KeyState>,
    cfgs: Seq<(u16, KeyConfig)>,
    snap: Seq<(u16, u32)>,
    modifier_active: bool,
    now: u64,
    n: int,
) -> Seq<KeyState> {
    states.map(
        |j: int, st: KeyState|
            if j < n {
                key_next(st, cfgs[j], snap, modifier_active, now)
            } else {
                st
            },
    )
}

/// The events the first `n` keys of a tick emit, in key order.
pub open spec fn tick_events(
    states: Seq<KeyState>,
    cfgs: Seq<(u16, KeyConfig)>,
    snap: Seq<(u16, u32)>,
    modifier_active: bool,
    now: u64,
    n: int,
) -> Seq<MidiEvent>
    decreases n,
{
    if n <= 0 {
        Seq::empty()
    } else {
        tick_events(states, cfgs, snap, modifier_active, now, n - 1) + opt_event_seq(
            key_event(states[n - 1], cfgs[n - 1], snap, modifier_active, now),
        )
    }
}

/// A tick emits at most one event per key.
pub proof fn lemma_at_most_one_event_per_key(
    states: Seq<KeyState>,
    cfgs: Seq<(u16, KeyConfig)>,
    snap: Seq<(u16, u32)>,
    modifier_active: bool,
    now: u64,
    n: int,
)
    requires
        0 <= n,
    ensures
        tick_events(states, cfgs, snap, modifier_active, now, n).len() <= n,
    decreases n,
{
    if n > 0 {
        lemma_at_most_one_event_per_key(states, cfgs, snap, modifier_active, now, n - 1);
    }
}

/// Every event a tick emits lies within the ranges the encoder accepts,
/// so its encoding keeps both data bytes within 0..=127.
pub proof fn lemma_tick_events_wf(
    states: Seq<KeyState>,
    cfgs: Seq<(u16, KeyConfig)>,
    snap: Seq<(u16, u32)>,
    modifier_active: bool,
    now: u64,
    n: int,
)
    requires
        0 <= n <= states.len(),
        states.len() == cfgs.len(),
        snap_wf(snap),
        forall|i: int| 0 <= i < states.len() ==> (#[trigger] states[i]).inv(),
        forall|i: int| 0 <= i < cfgs.len() ==> (#[trigger] cfgs[i]).1.wf(),
    ensures
        forall|i: int|
            0 <= i < tick_events(states, cfgs, snap, modifier_active, now, n).len()
                ==> (#[trigger] tick_events(states, cfgs, snap, modifier_active, now, n)[i]).wf(),
    decreases n,
{
    if n > 0 {
        lemma_tick_events_wf(states, cfgs, snap, modifier_active, now, n - 1);
        lemma_snap_depth_from_bound(snap, cfgs[n - 1].0, 0);
        crate::key::lemma_step_event_wf(
            states[n - 1],
            cfgs[n - 1].1,
            snap_depth(snap, cfgs[n - 1].0),
            tick_shift(modifier_active, cfgs[n - 1].1),
            now,
        );
        let evs_pre = tick_events(states, cfgs, snap, modifier_active, now, n - 1);
        let evs = tick_events(states, cfgs, snap, modifier_active, now, n);
        assert forall|i: int| 0 <= i < evs.len() implies (#[trigger] evs[i]).wf() by {
            if i < evs_pre.len() {
                assert(evs[i] == evs_pre[i]);
            }
        }
    }
}

/// The note-off events a reconfiguration owes for the first `n` keys: one
/// for every pressed key whose latched note is playable, in key order,
/// with the key's last velocity.
pub open spec fn pending_note_offs(
    cfgs: Seq<(u16, KeyConfig)>,
    states: Seq<KeyState>,
    n: int,
) -> Seq<MidiEvent>
    decreases n,
{
    if n <= 0 {
        Seq::empty()
    } else {
        let rest = pending_note_offs(cfgs, states, n - 1);
        let st = states[n - 1];
        let cfg = cfgs[n - 1].1;
        if st.pressed {
            match effective_note(cfg.note_id, st.shifted_amount) {
                Some(note) => rest + seq![
                    MidiEvent::NoteOff { note, velocity: st.velocity, channel: cfg.channel },
                ],
                None => rest,
            }
        } else {
            rest
        }
    }
}

/// The orchestrator: the live configuration, one state per configured
/// key (in the order of `config.key_configs`), the enable flag with the
/// toggle-key edge detector, and the timestamp of the last tick served.
pub struct MidiService {
    pub config: Config,
    pub key_states: Vec<KeyState>,
    pub enabled: bool,
    pub enabled_key_state: bool,
    pub last_time: u64,
}

impl MidiService {
    /// One well-formed state per configured key; anchors never postdate
    /// the last tick; a pressed key always has a playable latched note.
    pub open spec fn inv(&self) -> bool {
        &&& self.config.wf()
        &&& self.key_states@.len() == self.config.key_configs@.len()
        &&& forall|i: int| 0 <= i < self.key_states@.len() ==> (#[trigger] self.key_states@[i]).inv()
        &&& forall|i: int|
            0 <= i < self.key_states@.len() ==> (#[trigger] self.key_states@[i]).anchor_at_or_before(
                self.last_time,
            )
        &&& forall|i: int|
            0 <= i < self.key_states@.len() ==> ((#[trigger] self.key_states@[i]).pressed
                ==> effective_note(
                self.config.key_configs@[i].1.note_id,
                self.key_states@[i].shifted_amount,
            ) is Some)
    }

    /// A service starts with the default configuration, no keys, and the
    /// output disabled.
    pub fn new() -> (s: MidiService)
        ensures
            s.inv(),
            s.config.toggle_keys@ == Seq::<u16>::empty(),
            s.config.modifier_keys@ == seq![HID_LEFT_SHIFT, HID_RIGHT_SHIFT],
            s.config.key_configs@ == Seq::<(u16, KeyConfig)>::empty(),
            s.key_states@ == Seq::<KeyState>::empty(),
            !s.enabled,
            !s.enabled_key_state,
            s.last_time == 0,
    {
        MidiService {
            config: Config::default(),
            key_states: Vec::new(),
            enabled: false,
            enabled_key_state: false,
            last_time: 0,
        }
    }

    /// Replaces the live configuration.
    ///
    /// Every key still pressed under the old configuration gets a
    /// note-off with its latched note and last velocity before the swap;
    /// afterwards the key-state set exactly matches the new
    /// configuration's key set, every entry fresh.  If a note-off fails
    /// the error surfaces at once and the swap does not happen: the
    /// configuration and every key state are left as they were, with
    /// only a prefix of the owed note-offs emitted.
    #[verifier::loop_isolation(false)]
    pub fn set_config<S: NoteSink>(&mut self, config: Config, sink: &mut S) -> (r: Result<
        (),
        SendError,
    >)
        requires
            old(self).inv(),
            config.wf(),
        ensures
            final(self).inv(),
            final(self).enabled == old(self).enabled,
            final(self).enabled_key_state == old(self).enabled_key_state,
            final(self).last_time == old(self).last_time,
            r is Ok ==> final(self).config == config,
            r is Ok ==> final(self).key_states@.len() == config.key_configs@.len(),
            r is Ok ==> forall|i: int|
                0 <= i < final(self).key_states@.len() ==> final(self).key_states@[i]
                    == fresh_state(),
            r is Ok ==> final(sink).events() == old(sink).events() + pending_note_offs(
                old(self).config.key_configs@,
                old(self).key_states@,
                old(self).key_states@.len() as int,
            ),
            r is Err ==> final(self).config == old(self).config && final(self).key_states@
                == old(self).key_states@,
            r is Err ==> exists|k: int|
                0 <= k < old(self).key_states@.len() && old(self).key_states@[k].pressed
                    && final(sink).events() == old(sink).events() + #[trigger] pending_note_offs(
                    old(self).config.key_configs@,
                    old(self).key_states@,
                    k,
                ),
    {
        let ghost cfgs = self.config.key_configs@;
        let ghost states = self.key_states@;
        let mut i: usize = 0;
        while i < self.key_states.len()
            invariant
                i <= states.len(),
                *self == *old(self),
                sink.events() == old(sink).events() + pending_note_offs(cfgs, states, i as int),
            decreases states.len() - i,
        {
            let st = self.key_states[i];
            if st.pressed {
                let cfg = self.config.key_configs[i].1;
                match st.get_effective_note(cfg.note_id) {
                    Some(note) => {
                        match sink.note_off(note, st.velocity, cfg.channel) {
                            Ok(()) => {
                                proof {
                                    assert(sink.events() =~= old(sink).events()
                                        + pending_note_offs(cfgs, states, i as int + 1));
                                }
                            },
                            Err(e) => {
                                return Err(e);
                            },
                        }
                    },
                    None => {
                        proof {
                            assert(sink.events() =~= old(sink).events() + pending_note_offs(
                                cfgs,
                                states,
                                i as int + 1,
                            ));
                        }
                    },
                }
            } else {
                proof {
                    assert(sink.events() =~= old(sink).events() + pending_note_offs(
                        cfgs,
                        states,
                        i as int + 1,
                    ));
                }
            }
            i += 1;
        }
        self.config = config;
        let mut fresh: Vec<KeyState> = Vec::new();
        let target = self.config.key_configs.len();
        while fresh.len() < target
            invariant
                fresh@.len() <= target,
                forall|j: int| 0 <= j < fresh@.len() ==> fresh@[j] == fresh_state(),
            decreases target - fresh@.len(),
        {
            fresh.push(KeyState::new());
        }
        self.key_states = fresh;
        Ok(())
    }

    /// Serves one tick from a snapshot taken at `now` (microseconds,
    /// non-decreasing across ticks).
    ///
    /// A rising edge of the aggregate toggle-key state flips the enable
    /// flag; while disabled nothing else happens: a key already sounding
    /// stays sounding, untouched, until the service is re-enabled.  While enabled, every
    /// configured key is fed its sampled depth (a missing key reads as
    /// released) and the shift the modifier state selects, in key order;
    /// each key emits at most one event.  A failed emission aborts the
    /// tick at once: earlier keys' events stand, the failing key keeps
    /// its bookkeeping but not the trigger outcome, later keys are not
    /// visited.
    #[verifier::loop_isolation(false)]
    #[verifier::rlimit(50)]
    pub fn poll<S: NoteSink>(&mut self, snapshot: &Vec<(u16, u32)>, now: u64, sink: &mut S) -> (r:
        Result<(), SendError>)
        requires
            old(self).inv(),
            snap_wf(snapshot@),
            now >= old(self).last_time,
        ensures
            final(self).inv(),
            final(self).config == old(self).config,
            final(self).last_time == now,
            final(self).enabled_key_state == any_key_pressed(
                old(self).config.toggle_keys@,
                snapshot@,
            ),
            final(self).enabled == toggled_enabled(
                old(self).enabled,
                old(self).enabled_key_state,
                any_key_pressed(old(self).config.toggle_keys@, snapshot@),
            ),
            !final(self).enabled ==> final(self).key_states@ == old(self).key_states@
                && final(sink).events() == old(sink).events() && r is Ok,
            final(self).enabled && r is Ok ==> final(self).key_states@ == tick_states(
                old(self).key_states@,
                old(self).config.key_configs@,
                snapshot@,
                any_key_pressed(old(self).config.modifier_keys@, snapshot@),
                now,
                old(self).key_states@.len() as int,
            ) && final(sink).events() == old(sink).events() + tick_events(
                old(self).key_states@,
                old(self).config.key_configs@,
                snapshot@,
                any_key_pressed(old(self).config.modifier_keys@, snapshot@),
                now,
                old(self).key_states@.len() as int,
            ),
            r is Err ==> final(self).enabled && exists|k: int|
                #![trigger tick_events(
                    old(self).key_states@,
                    old(self).config.key_configs@,
                    snapshot@,
                    any_key_pressed(old(self).config.modifier_keys@, snapshot@),
                    now,
                    k,
                )]
                {
                    let states = old(self).key_states@;
                    let cfgs = old(self).config.key_configs@;
                    let modifier = any_key_pressed(old(self).config.modifier_keys@, snapshot@);
                    &&& 0 <= k < states.len()
                    &&& key_event(states[k], cfgs[k], snapshot@, modifier, now) is Some
                    &&& final(sink).events() == old(sink).events() + tick_events(
                        states,
                        cfgs,
                        snapshot@,
                        modifier,
                        now,
                        k,
                    )
                    &&& final(self).key_states@ == tick_states(
                        states,
                        cfgs,
                        snapshot@,
                        modifier,
                        now,
                        k,
                    ).update(k, key_mid(states[k], cfgs[k], snapshot@, modifier, now))
                },
    {
        let toggle_pressed = keys_any_pressed(&self.config.toggle_keys, snapshot);
        if toggle_pressed != self.enabled_key_state {
            self.enabled_key_state = toggle_pressed;
            if toggle_pressed {
                self.enabled = !self.enabled;
            }
        }
        self.last_time = now;
        if !self.enabled {
            return Ok(());
        }
        let modifier_pressed = keys_any_pressed(&self.config.modifier_keys, snapshot);
        let ghost cfgs = self.config.key_configs@;
        let ghost states = old(self).key_states@;
        let mut i: usize = 0;
        while i < self.key_states.len()
            invariant
                i <= states.len(),
                self.key_states@.len() == states.len(),
                self.config == old(self).config,
                self.enabled,
                self.enabled_key_state == toggle_pressed,
                self.last_time == now,
                self.key_states@ == tick_states(states, cfgs, snapshot@, modifier_pressed, now, i as int),
                sink.events() == old(sink).events() + tick_events(
                    states,
                    cfgs,
                    snapshot@,
                    modifier_pressed,
                    now,
                    i as int,
                ),
                forall|j: int|
                    0 <= j < i ==> (#[trigger] self.key_states@[j]).inv()
                        && self.key_states@[j].anchor_at_or_before(now) && (self.key_states@[j].pressed
                        ==> effective_note(cfgs[j].1.note_id, self.key_states@[j].shifted_amount)
                        is Some),
            decreases states.len() - i,
        {
            let code = self.config.key_configs[i].0;
            let cfg = self.config.key_configs[i].1;
            let new_value = snapshot_depth(snapshot, code);
            proof {
                lemma_snap_depth_from_bound(snapshot@, code, 0);
            }
            let shifted: i8 = if modifier_pressed {
                cfg.shift_amount
            } else {
                0
            };
            let mut st = self.key_states[i];
            let res = st.update_value(&cfg, new_value, sink, shifted, now);
            self.key_states.set(i, st);
            match res {
                Ok(()) => {
                    proof {
                        assert(self.key_states@ =~= tick_states(
                            states,
                            cfgs,
                            snapshot@,
                            modifier_pressed,
                            now,
                            i as int + 1,
                        ));
                        assert(sink.events() =~= old(sink).events() + tick_events(
                            states,
                            cfgs,
                            snapshot@,
                            modifier_pressed,
                            now,
                            i as int + 1,
                        ));
                    }
                },
                Err(e) => {
                    proof {
                        assert(self.key_states@ =~= tick_states(
                            states,
                            cfgs,
                            snapshot@,
                            modifier_pressed,
                            now,
                            i as int,
                        ).update(
                            i as int,
                            key_mid(states[i as int], cfgs[i as int], snapshot@, modifier_pressed, now),
                        ));
                    }
                    return Err(e);
                },
            }
            i += 1;
        }
        Ok(())
    }
}

} // verus!
