//! Configuration data: per-key tunables and the global key lists.

use vstd::prelude::*;
use crate::DEPTH_SCALE;

verus! {

/// HID usage code of the left shift key, a default pitch-shift modifier.
pub const HID_LEFT_SHIFT: u16 = 225;

/// HID usage code of the right shift key, a default pitch-shift modifier.
pub const HID_RIGHT_SHIFT: u16 = 229;

/// HID usage code of the F12 key, the default enable toggle.
pub const HID_F12: u16 = 69;

/// Tunables for one configured key.
///
/// `actuation_point` and `threshold` are depths in `DEPTH_SCALE` units:
/// at or below `actuation_point` the key counts as fully released, above
/// `threshold` a note counts as triggered.  `velocity_scale` is a tuning
/// multiplier in thousandths (a stored value of 5_000 multiplies the raw
/// velocity estimate by 5 before the division by 100 that the estimator
/// applies).  `shift_amount` is a semitone offset applied while a modifier
/// key is held.
#[derive(Clone, Copy, Debug, PartialEq, Eq, Structural)]
pub struct KeyConfig {
    pub note_id: u8,
    pub channel: u8,
    pub actuation_point: u32,
    pub threshold: u32,
    pub velocity_scale: u32,
    pub aftertouch: bool,
    pub shift_amount: i8,
}

/// The default per-key tuning: middle C on channel 0, trigger at 0.8 of
/// full travel, anchor reset only at the very top, velocity scale 5.0,
/// aftertouch on, shift of one octave.
pub open spec fn default_key_config() -> KeyConfig {
    KeyConfig {
        note_id: 60,
        channel: 0,
        actuation_point: 0,
        threshold: 800_000,
        velocity_scale: 5_000,
        aftertouch: true,
        shift_amount: 12,
    }
}

impl KeyConfig {
    /// The fields a key entry must satisfy: a MIDI note number, a MIDI
    /// channel, and depths that fit the fixed-point range.
    pub open spec fn wf(&self) -> bool {
        &&& self.note_id <= 127
        &&& self.channel <= 15
        &&& self.actuation_point <= DEPTH_SCALE
        &&& self.threshold <= DEPTH_SCALE
    }
}

impl Default for KeyConfig {
    fn default() -> (c: Self)
        ensures
            c == default_key_config(),
            c.wf(),
    {
        KeyConfig {
            note_id: 60,
            channel: 0,
            actuation_point: 0,
            threshold: 800_000,
            velocity_scale: 5_000,
            aftertouch: true,
            shift_amount: 12,
        }
    }
}

/// The global configuration: which keys toggle the enable flag, which keys
/// activate pitch shifting, and the tuning of every playing key.
///
/// `key_configs` is a mapping from HID key code to `KeyConfig`, kept as a
/// vector of pairs with unique codes; a tick visits the entries in this
/// canonical order.
#[derive(Clone, Debug)]
pub struct Config {
    pub toggle_keys: Vec<u16>,
    pub modifier_keys: Vec<u16>,
    pub key_configs: Vec<(u16, KeyConfig)>,
}

impl Config {
    /// Key codes are unique and every entry's tunables are well formed.
    pub open spec fn wf(&self) -> bool {
        &&& forall|i: int, j: int|
            0 <= i < j < self.key_configs@.len()
                ==> (#[trigger] self.key_configs@[i]).0 != (#[trigger] self.key_configs@[j]).0
        &&& forall|i: int| 0 <= i < self.key_configs@.len() ==> (#[trigger] self.key_configs@[i]).1.wf()
    }
}

impl Default for Config {
    /// No toggle keys, both shift keys as pitch-shift modifiers, no playing
    /// keys.
    fn default() -> (c: Self)
        ensures
            c.wf(),
            c.toggle_keys@ == Seq::<u16>::empty(),
            c.modifier_keys@ == seq![HID_LEFT_SHIFT, HID_RIGHT_SHIFT],
            c.key_configs@ == Seq::<(u16, KeyConfig)>::empty(),
    {
        let toggle_keys: Vec<u16> = Vec::new();
        let mut modifier_keys: Vec<u16> = Vec::new();
        modifier_keys.push(HID_LEFT_SHIFT);
        modifier_keys.push(HID_RIGHT_SHIFT);
        let key_configs: Vec<(u16, KeyConfig)> = Vec::new();
        proof {
            assert(modifier_keys@ =~= seq![HID_LEFT_SHIFT, HID_RIGHT_SHIFT]);
        }
        Config { toggle_keys, modifier_keys, key_configs }
    }
}

/// The default key config with another note.
pub open spec fn key_with_note(note: u8) -> KeyConfig {
    KeyConfig { note_id: note, ..default_key_config() }
}

/// The built-in playing layout: a row of letter and digit keys mapped to
/// the chromatic scale upward from middle C.  The key that the layout
/// names twice keeps one entry, with the later note.
pub open spec fn default_mapping() -> Seq<(u16, KeyConfig)> {
    seq![
        (20u16, key_with_note(60)),
        (31u16, key_with_note(61)),
        (26u16, key_with_note(62)),
        (8u16, key_with_note(63)),
        (21u16, key_with_note(64)),
        (34u16, key_with_note(65)),
        (23u16, key_with_note(68)),
        (35u16, key_with_note(67)),
        (36u16, key_with_note(69)),
        (24u16, key_with_note(70)),
        (12u16, key_with_note(71)),
        (38u16, key_with_note(72)),
        (18u16, key_with_note(73)),
        (39u16, key_with_note(74)),
        (19u16, key_with_note(75)),
    ]
}

/// The default key tuning with the given note.
fn key_note(note: u8) -> (k: KeyConfig)
    ensures
        k == key_with_note(note),
{
    let mut k = KeyConfig::default();
    k.note_id = note;
    k
}

/// Builds the built-in configuration: the chromatic layout of
/// `default_mapping`, F12 as the enable toggle, and the shift keys as
/// pitch-shift modifiers.
pub fn create_config() -> (c: Config)
    ensures
        c.wf(),
        c.key_configs@ == default_mapping(),
        c.toggle_keys@ == seq![HID_F12],
        c.modifier_keys@ == seq![HID_LEFT_SHIFT, HID_RIGHT_SHIFT],
{
    let mut c = Config::default();
    c.toggle_keys.push(HID_F12);
    c.key_configs.push((20, key_note(60)));
    c.key_configs.push((31, key_note(61)));
    c.key_configs.push((26, key_note(62)));
    c.key_configs.push((8, key_note(63)));
    c.key_configs.push((21, key_note(64)));
    c.key_configs.push((34, key_note(65)));
    c.key_configs.push((23, key_note(68)));
    c.key_configs.push((35, key_note(67)));
    c.key_configs.push((36, key_note(69)));
    c.key_configs.push((24, key_note(70)));
    c.key_configs.push((12, key_note(71)));
    c.key_configs.push((38, key_note(72)));
    c.key_configs.push((18, key_note(73)));
    c.key_configs.push((39, key_note(74)));
    c.key_configs.push((19, key_note(75)));
    proof {
        assert(c.toggle_keys@ =~= seq![HID_F12]);
        assert(c.key_configs@ =~= default_mapping());
    }
    c
}

} // verus!
