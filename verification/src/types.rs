//! The payloads published on, and the commands read from, the MQTT topics.
use vstd::prelude::*;

use crate::builtin::{builtin_id, BuiltinEffect};
use crate::model::{BlendMode, Rgb, SceneSnapshot};
use crate::store::{EffectRecord, LayerRecord, SceneRecord, ZoneRecord};

verus! {

/// The published state of the light.
pub struct DeviceStatePayload {
    pub state: &'static str,
    pub brightness: u8,
    pub color_mode: &'static str,
    pub color: RgbPayload,
    pub effect: Option<String>,
}

/// A colour as published and commanded.
#[derive(Clone, Copy, Debug, PartialEq, Eq, Structural)]
pub struct RgbPayload {
    pub r: u8,
    pub g: u8,
    pub b: u8,
}

/// The power state word: `"ON"` or `"OFF"`.
pub open spec fn power_word(on: bool) -> &'static str {
    if on {
        "ON"
    } else {
        "OFF"
    }
}

/// The payload published for a snapshot, with no effect named.
pub open spec fn device_state_of(s: &SceneSnapshot) -> DeviceStatePayload {
    DeviceStatePayload {
        state: power_word(s.on),
        brightness: s.brightness,
        color_mode: "rgb",
        color: RgbPayload { r: s.color.r, g: s.color.g, b: s.color.b },
        effect: None,
    }
}

impl DeviceStatePayload {
    /// The state of `s`, naming `effect` when one is given.
    pub fn from_snapshot(s: &SceneSnapshot, effect: Option<&str>) -> (r: Self)
        ensures
            r.state == power_word(s.on),
            r.brightness == s.brightness,
            r.color_mode == "rgb",
            r.color == (RgbPayload { r: s.color.r, g: s.color.g, b: s.color.b }),
            effect is None ==> r.effect is None,
            effect matches Some(e) ==> r.effect matches Some(x) && x@ == e@,
    {
        DeviceStatePayload {
            state: if s.on {
                "ON"
            } else {
                "OFF"
            },
            brightness: s.brightness,
            color_mode: "rgb",
            color: RgbPayload::from(s.color),
            effect: match effect {
                Some(e) => Some(e.to_owned()),
                None => None,
            },
        }
    }
}

impl<'a> From<&'a SceneSnapshot> for DeviceStatePayload {
    fn from(s: &'a SceneSnapshot) -> (r: Self) {
        DeviceStatePayload {
            state: if s.on {
                "ON"
            } else {
                "OFF"
            },
            brightness: s.brightness,
            color_mode: "rgb",
            color: RgbPayload { r: s.color.r, g: s.color.g, b: s.color.b },
            effect: None,
        }
    }
}

impl<'a> vstd::std_specs::convert::FromSpecImpl<&'a SceneSnapshot> for DeviceStatePayload {
    open spec fn obeys_from_spec() -> bool {
        true
    }

    open spec fn from_spec(s: &'a SceneSnapshot) -> Self {
        device_state_of(s)
    }
}

impl From<Rgb> for RgbPayload {
    fn from(c: Rgb) -> (r: Self) {
        RgbPayload { r: c.r, g: c.g, b: c.b }
    }
}

impl vstd::std_specs::convert::FromSpecImpl<Rgb> for RgbPayload {
    open spec fn obeys_from_spec() -> bool {
        true
    }

    open spec fn from_spec(c: Rgb) -> Self {
        RgbPayload { r: c.r, g: c.g, b: c.b }
    }
}

impl From<RgbPayload> for Rgb {
    fn from(c: RgbPayload) -> (r: Self) {
        Rgb { r: c.r, g: c.g, b: c.b }
    }
}

impl vstd::std_specs::convert::FromSpecImpl<RgbPayload> for Rgb {
    open spec fn obeys_from_spec() -> bool {
        true
    }

    open spec fn from_spec(c: RgbPayload) -> Self {
        Rgb { r: c.r, g: c.g, b: c.b }
    }
}

/// A device command: each part that is present is applied.
pub struct DeviceCommand {
    pub state: Option<String>,
    pub brightness: Option<u8>,
    pub color: Option<RgbPayload>,
    pub effect: Option<String>,
}

/// A zone as published.
pub struct ZonePayload {
    pub id: String,
    pub name: String,
    pub start_pixel: u32,
    pub end_pixel: u32,
    pub transition_length: u32,
}

impl From<ZoneRecord> for ZonePayload {
    fn from(z: ZoneRecord) -> (r: Self) {
        ZonePayload {
            id: z.id,
            name: z.name,
            start_pixel: z.start_pixel,
            end_pixel: z.end_pixel,
            transition_length: z.transition_length,
        }
    }
}

impl vstd::std_specs::convert::FromSpecImpl<ZoneRecord> for ZonePayload {
    open spec fn obeys_from_spec() -> bool {
        true
    }

    open spec fn from_spec(z: ZoneRecord) -> Self {
        ZonePayload {
            id: z.id,
            name: z.name,
            start_pixel: z.start_pixel,
            end_pixel: z.end_pixel,
            transition_length: z.transition_length,
        }
    }
}

/// A command creating a zone; a missing transition length reads as 0.
pub struct CreateZoneCommand {
    pub name: String,
    pub start_pixel: u32,
    pub end_pixel: u32,
    pub transition_length: u32,
}

/// A command replacing a zone's fields; a missing transition length reads as 0.
pub struct UpdateZoneCommand {
    pub name: String,
    pub start_pixel: u32,
    pub end_pixel: u32,
    pub transition_length: u32,
}

/// A scene as published.
pub struct ScenePayload {
    pub id: String,
    pub name: String,
}

impl From<SceneRecord> for ScenePayload {
    fn from(s: SceneRecord) -> (r: Self) {
        ScenePayload { id: s.id, name: s.name }
    }
}

impl vstd::std_specs::convert::FromSpecImpl<SceneRecord> for ScenePayload {
    open spec fn obeys_from_spec() -> bool {
        true
    }

    open spec fn from_spec(s: SceneRecord) -> Self {
        ScenePayload { id: s.id, name: s.name }
    }
}

/// A command creating a scene.
pub struct CreateSceneCommand {
    pub name: String,
}

/// A command renaming a scene.
pub struct UpdateSceneCommand {
    pub name: String,
}

/// An active layer as published; `params` is the JSON object of values.
pub struct LayerPayload {
    pub id: String,
    pub effect_id: String,
    pub zone_id: String,
    pub blend_mode: BlendMode,
    pub params: String,
    pub enabled: bool,
    pub position: u32,
}

impl From<LayerRecord> for LayerPayload {
    fn from(l: LayerRecord) -> (r: Self) {
        LayerPayload {
            id: l.id,
            effect_id: l.effect_id,
            zone_id: l.zone_id,
            blend_mode: l.blend_mode,
            params: l.params,
            enabled: l.enabled,
            position: l.position,
        }
    }
}

impl vstd::std_specs::convert::FromSpecImpl<LayerRecord> for LayerPayload {
    open spec fn obeys_from_spec() -> bool {
        true
    }

    open spec fn from_spec(l: LayerRecord) -> Self {
        LayerPayload {
            id: l.id,
            effect_id: l.effect_id,
            zone_id: l.zone_id,
            blend_mode: l.blend_mode,
            params: l.params,
            enabled: l.enabled,
            position: l.position,
        }
    }
}

/// A command adding an active layer; a missing blend mode reads as
/// `Override` and missing parameters as the empty JSON object.
pub struct AddLayerCommand {
    pub effect_id: String,
    pub zone_id: String,
    pub blend_mode: BlendMode,
    pub params: String,
}

/// A command changing an active layer: each part that is present replaces
/// the layer's.
pub struct UpdateLayerCommand {
    pub zone_id: Option<String>,
    pub enabled: Option<bool>,
    pub blend_mode: Option<BlendMode>,
    pub params: Option<String>,
}

/// A command giving the active layers a new order.
pub struct ReorderLayersCommand {
    pub ordered_ids: Vec<String>,
}

/// An effect as published; `params` is the JSON list of definitions.
pub struct EffectPayload {
    pub id: String,
    pub name: String,
    pub script: String,
    pub params: String,
    pub builtin: bool,
}

impl From<EffectRecord> for EffectPayload {
    fn from(e: EffectRecord) -> (r: Self) {
        EffectPayload { id: e.id, name: e.name, script: e.script, params: e.params, builtin: false }
    }
}

impl vstd::std_specs::convert::FromSpecImpl<EffectRecord> for EffectPayload {
    open spec fn obeys_from_spec() -> bool {
        true
    }

    open spec fn from_spec(e: EffectRecord) -> Self {
        EffectPayload { id: e.id, name: e.name, script: e.script, params: e.params, builtin: false }
    }
}

impl EffectPayload {
    /// A built-in effect as published.
    pub fn from_builtin(b: &BuiltinEffect) -> (r: Self)
        ensures
            r.id@ == builtin_id(b.slug@),
            r.name == b.name,
            r.script == b.script,
            r.params == b.params,
            r.builtin,
    {
        EffectPayload {
            id: b.id(),
            name: b.name.clone(),
            script: b.script.clone(),
            params: b.params.clone(),
            builtin: true,
        }
    }
}

/// A command creating an effect; missing parameters read as the empty list.
pub struct CreateEffectCommand {
    pub name: String,
    pub script: String,
    pub params: String,
}

/// A command changing an effect: each part that is present replaces the
/// effect's.
pub struct UpdateEffectCommand {
    pub name: Option<String>,
    pub script: Option<String>,
    pub params: Option<String>,
}

} // verus!
