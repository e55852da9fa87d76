//! The device state that outlives a restart: power, brightness, colour, the
//! running effect's name, and the signal overrides.
use std::collections::HashMap;
use vstd::prelude::*;

use crate::model::Rgb;

verus! {

/// The state kept on disk between runs.
pub struct PersistedState {
    pub on: bool,
    pub brightness: u8,
    pub color: Rgb,
    pub active_effect: Option<String>,
    pub signal_colors: HashMap<String, Rgb>,
    pub signal_scripts: HashMap<String, String>,
}

/// The state of a device that has never run: on, at full brightness, black,
/// with no effect and no overrides.
pub open spec fn is_fresh(s: PersistedState) -> bool {
    &&& s.on
    &&& s.brightness == 255
    &&& s.color == (Rgb { r: 0, g: 0, b: 0 })
    &&& s.active_effect is None
    &&& s.signal_colors@ == Map::<String, Rgb>::empty()
    &&& s.signal_scripts@ == Map::<String, String>::empty()
}

impl Default for PersistedState {
    fn default() -> (s: Self)
        ensures
            is_fresh(s),
    {
        PersistedState {
            on: true,
            brightness: 255,
            color: Rgb::black(),
            active_effect: None,
            signal_colors: HashMap::new(),
            signal_scripts: HashMap::new(),
        }
    }
}

} // verus!
