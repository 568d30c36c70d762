//! Laws of the per-key processor over whole runs of samples.

use vstd::prelude::*;
use crate::config::KeyConfig;
use crate::key::{
    effective_note, next_state, opt_event_seq, spec_velocity, step_event, KeyState,
};
use crate::note::MidiEvent;

verus! {

/// The state of a key after the first `n` samples of a run, each fed
/// with the same shift at its own timestamp.
pub open spec fn run_states(
    st: KeyState,
    cfg: KeyConfig,
    shifted: i8,
    vs: Seq<u32>,
    ts: Seq<u64>,
    n: int,
) -> KeyState
    decreases n,
{
    if n <= 0 {
        st
    } else {
        next_state(run_states(st, cfg, shifted, vs, ts, n - 1), cfg, vs[n - 1], shifted, ts[n - 1])
    }
}

/// The events a key emits over the first `n` samples of a run.
pub open spec fn run_events(
    st: KeyState,
    cfg: KeyConfig,
    shifted: i8,
    vs: Seq<u32>,
    ts: Seq<u64>,
    n: int,
) -> Seq<MidiEvent>
    decreases n,
{
    if n <= 0 {
        Seq::empty()
    } else {
        run_events(st, cfg, shifted, vs, ts, n - 1) + opt_event_seq(
            step_event(
                run_states(st, cfg, shifted, vs, ts, n - 1),
                cfg,
                vs[n - 1],
                shifted,
                ts[n - 1],
            ),
        )
    }
}

/// While the latched shift puts the effective note outside the playable
/// range, no sample emits any event, however the depth moves, and the
/// pressed flag and latched shift stay as they are.
pub proof fn lemma_out_of_range_shift_silent(
    st: KeyState,
    cfg: KeyConfig,
    vs: Seq<u32>,
    ts: Seq<u64>,
    n: int,
)
    requires
        effective_note(cfg.note_id, st.shifted_amount) is None,
        0 <= n <= vs.len(),
        vs.len() == ts.len(),
    ensures
        run_events(st, cfg, st.shifted_amount, vs, ts, n) == Seq::<MidiEvent>::empty(),
        run_states(st, cfg, st.shifted_amount, vs, ts, n).shifted_amount == st.shifted_amount,
        run_states(st, cfg, st.shifted_amount, vs, ts, n).pressed == st.pressed,
    decreases n,
{
    if n > 0 {
        lemma_out_of_range_shift_silent(st, cfg, vs, ts, n - 1);
        assert(run_events(st, cfg, st.shifted_amount, vs, ts, n) =~= Seq::<MidiEvent>::empty());
    }
}

/// While a key is pressed the shift handed to a tick is irrelevant: the
/// tick behaves exactly as if the already latched shift were handed in,
/// and the latched shift survives the tick.  A new shift can only take
/// effect after the key has been released.
pub proof fn lemma_shift_latched_while_pressed(
    st: KeyState,
    cfg: KeyConfig,
    new_value: u32,
    shifted_amount: i8,
    now: u64,
)
    requires
        st.pressed,
    ensures
        next_state(st, cfg, new_value, shifted_amount, now) == next_state(
            st,
            cfg,
            new_value,
            st.shifted_amount,
            now,
        ),
        step_event(st, cfg, new_value, shifted_amount, now) == step_event(
            st,
            cfg,
            new_value,
            st.shifted_amount,
            now,
        ),
        next_state(st, cfg, new_value, shifted_amount, now).shifted_amount == st.shifted_amount,
{
}

/// A tick on a pressed key whose depth stays above the threshold emits
/// neither a note-on nor a note-off: exactly an aftertouch when that is
/// enabled, the effective note playable and the depth changed since the
/// previous tick, and nothing otherwise.  The key stays pressed.
pub proof fn lemma_held_key_tick(
    st: KeyState,
    cfg: KeyConfig,
    new_value: u32,
    shifted_amount: i8,
    now: u64,
)
    requires
        st.pressed,
        new_value > cfg.threshold,
    ensures
        next_state(st, cfg, new_value, shifted_amount, now).pressed,
        next_state(st, cfg, new_value, shifted_amount, now).shifted_amount == st.shifted_amount,
        next_state(st, cfg, new_value, shifted_amount, now).current_value == new_value,
        step_event(st, cfg, new_value, shifted_amount, now) == (match effective_note(
            cfg.note_id,
            st.shifted_amount,
        ) {
            Some(note) => if cfg.aftertouch && new_value != st.current_value {
                Some(MidiEvent::Aftertouch { note, pressure: new_value, channel: cfg.channel })
            } else {
                None
            },
            None => None,
        }),
{
}

/// Once a key is pressed, a run of samples above the threshold followed
/// by a single sample at or below it emits no further note-on at all:
/// only aftertouch events, closed by exactly one note-off for the
/// latched effective note, and the key ends released.
pub proof fn lemma_press_release_run(
    st: KeyState,
    cfg: KeyConfig,
    shifted: i8,
    vs: Seq<u32>,
    ts: Seq<u64>,
)
    requires
        st.pressed,
        effective_note(cfg.note_id, st.shifted_amount) is Some,
        vs.len() >= 1,
        ts.len() == vs.len(),
        forall|i: int| 0 <= i < vs.len() - 1 ==> vs[i] > cfg.threshold,
        vs[vs.len() - 1] <= cfg.threshold,
    ensures
        !run_states(st, cfg, shifted, vs, ts, vs.len() as int).pressed,
        run_states(st, cfg, shifted, vs, ts, vs.len() as int).shifted_amount == st.shifted_amount,
        ({
            let events = run_events(st, cfg, shifted, vs, ts, vs.len() as int);
            &&& events.len() >= 1
            &&& forall|i: int| 0 <= i < events.len() - 1 ==> (#[trigger] events[i]) is Aftertouch
            &&& events[events.len() - 1] matches MidiEvent::NoteOff { note, channel, .. }
                && Some(note) == effective_note(cfg.note_id, st.shifted_amount) && channel
                == cfg.channel
        }),
{
    let n = vs.len() as int;
    lemma_held_run(st, cfg, shifted, vs, ts, n - 1);
    let pre = run_states(st, cfg, shifted, vs, ts, n - 1);
    let events_pre = run_events(st, cfg, shifted, vs, ts, n - 1);
    let ev = step_event(pre, cfg, vs[n - 1], shifted, ts[n - 1]);
    assert(ev matches Some(e) && e is NoteOff);
    assert(run_events(st, cfg, shifted, vs, ts, n) == events_pre + opt_event_seq(ev));
}

/// A run of ticks on a pressed key that all stay above the threshold
/// keeps it pressed with its latched shift, and emits aftertouch events
/// only.
pub proof fn lemma_held_run(
    st: KeyState,
    cfg: KeyConfig,
    shifted: i8,
    vs: Seq<u32>,
    ts: Seq<u64>,
    n: int,
)
    requires
        st.pressed,
        0 <= n <= vs.len(),
        vs.len() == ts.len(),
        forall|i: int| 0 <= i < n ==> vs[i] > cfg.threshold,
    ensures
        run_states(st, cfg, shifted, vs, ts, n).pressed,
        run_states(st, cfg, shifted, vs, ts, n).shifted_amount == st.shifted_amount,
        forall|i: int|
            0 <= i < run_events(st, cfg, shifted, vs, ts, n).len() ==> (#[trigger] run_events(
                st,
                cfg,
                shifted,
                vs,
                ts,
                n,
            )[i]) is Aftertouch,
    decreases n,
{
    if n > 0 {
        lemma_held_run(st, cfg, shifted, vs, ts, n - 1);
        let pre = run_states(st, cfg, shifted, vs, ts, n - 1);
        lemma_held_key_tick(pre, cfg, vs[n - 1], shifted, ts[n - 1]);
    }
}

/// The tick that first drives an unpressed, anchored key above the
/// threshold emits exactly one note-on: the effective note under the
/// shift the tick latches, with the velocity estimated against the
/// standing anchor; the key is pressed afterwards.
pub proof fn lemma_first_press_tick(
    st: KeyState,
    cfg: KeyConfig,
    new_value: u32,
    shifted_amount: i8,
    now: u64,
)
    requires
        !st.pressed,
        st.lower_press is Some,
        cfg.actuation_point <= cfg.threshold,
        new_value > cfg.threshold,
        effective_note(cfg.note_id, shifted_amount) is Some,
    ensures
        ({
            &&& effective_note(cfg.note_id, shifted_amount) matches Some(enote)
            &&& st.lower_press matches Some(anchor)
            &&& step_event(st, cfg, new_value, shifted_amount, now) == Some(
                MidiEvent::NoteOn {
                    note: enote,
                    velocity: spec_velocity(
                        anchor.1,
                        new_value,
                        now - anchor.0,
                        cfg.velocity_scale,
                    ),
                    channel: cfg.channel,
                },
            )
            &&& next_state(st, cfg, new_value, shifted_amount, now).pressed
        }),
{
}

/// A monotonic rise from the released band up across the threshold emits
/// exactly one event: a note-on for the latched effective note, with the
/// velocity estimated against the anchor standing at the trigger tick.
pub proof fn lemma_monotonic_rise(st: KeyState, cfg: KeyConfig, vs: Seq<u32>, ts: Seq<u64>)
    requires
        !st.pressed,
        cfg.actuation_point <= cfg.threshold,
        effective_note(cfg.note_id, st.shifted_amount) is Some,
        vs.len() >= 2,
        ts.len() == vs.len(),
        vs[0] <= cfg.actuation_point,
        forall|i: int, j: int| 0 <= i < j < vs.len() ==> vs[i] < vs[j],
        forall|i: int| 0 <= i < vs.len() - 1 ==> vs[i] <= cfg.threshold,
        vs[vs.len() - 1] > cfg.threshold,
    ensures
        ({
            let n = vs.len() as int;
            let pre = run_states(st, cfg, st.shifted_amount, vs, ts, n - 1);
            &&& effective_note(cfg.note_id, st.shifted_amount) matches Some(enote)
            &&& pre.lower_press matches Some(anchor)
            &&& run_events(st, cfg, st.shifted_amount, vs, ts, n) == seq![
                MidiEvent::NoteOn {
                    note: enote,
                    velocity: spec_velocity(
                        anchor.1,
                        vs[n - 1],
                        ts[n - 1] - anchor.0,
                        cfg.velocity_scale,
                    ),
                    channel: cfg.channel,
                },
            ]
            &&& run_states(st, cfg, st.shifted_amount, vs, ts, n).pressed
        }),
{
    let n = vs.len() as int;
    lemma_rise_prefix(st, cfg, vs, ts, n - 1);
    let pre = run_states(st, cfg, st.shifted_amount, vs, ts, n - 1);
    let ev = step_event(pre, cfg, vs[n - 1], st.shifted_amount, ts[n - 1]);
    assert(run_events(st, cfg, st.shifted_amount, vs, ts, n) =~= run_events(
        st,
        cfg,
        st.shifted_amount,
        vs,
        ts,
        n - 1,
    ) + opt_event_seq(ev));
    assert(run_events(st, cfg, st.shifted_amount, vs, ts, n) =~= opt_event_seq(ev));
}

/// Through a rise that has not yet crossed the threshold the key stays
/// unpressed and silent, its latched shift untouched, with an anchor in
/// place for the velocity estimate.
pub proof fn lemma_rise_prefix(st: KeyState, cfg: KeyConfig, vs: Seq<u32>, ts: Seq<u64>, n: int)
    requires
        !st.pressed,
        cfg.actuation_point <= cfg.threshold,
        1 <= n <= vs.len(),
        ts.len() == vs.len(),
        vs[0] <= cfg.actuation_point,
        forall|i: int, j: int| 0 <= i < j < vs.len() ==> vs[i] < vs[j],
        forall|i: int| 0 <= i < n ==> vs[i] <= cfg.threshold,
    ensures
        !run_states(st, cfg, st.shifted_amount, vs, ts, n).pressed,
        run_states(st, cfg, st.shifted_amount, vs, ts, n).shifted_amount == st.shifted_amount,
        run_states(st, cfg, st.shifted_amount, vs, ts, n).current_value == vs[n - 1],
        run_states(st, cfg, st.shifted_amount, vs, ts, n).lower_press is Some,
        run_events(st, cfg, st.shifted_amount, vs, ts, n) == Seq::<MidiEvent>::empty(),
    decreases n,
{
    if n == 1 {
        assert(run_states(st, cfg, st.shifted_amount, vs, ts, 0) == st);
        assert(run_events(st, cfg, st.shifted_amount, vs, ts, 0) =~= Seq::<MidiEvent>::empty());
        assert(step_event(st, cfg, vs[0], st.shifted_amount, ts[0]) is None);
        assert(run_events(st, cfg, st.shifted_amount, vs, ts, 1) =~= Seq::<MidiEvent>::empty());
    } else {
        lemma_rise_prefix(st, cfg, vs, ts, n - 1);
        let pre = run_states(st, cfg, st.shifted_amount, vs, ts, n - 1);
        assert(vs[n - 2] < vs[n - 1]);
        assert(step_event(pre, cfg, vs[n - 1], st.shifted_amount, ts[n - 1]) is None);
        assert(run_events(st, cfg, st.shifted_amount, vs, ts, n) =~= Seq::<MidiEvent>::empty());
    }
}

} // verus!
