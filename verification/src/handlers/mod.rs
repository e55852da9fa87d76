//! The handling of commands arriving over MQTT: routing a topic to its
//! handler, and what each handler does to the store and asks of the light and
//! of the broker.
use vstd::prelude::*;

use crate::model::Rgb;
use crate::store::StoreError;
use crate::types::{EffectPayload, LayerPayload, ScenePayload, ZonePayload};

pub mod active_layers;
pub mod active_scene;
pub mod device;
pub mod effects;
pub mod route;
pub mod scenes;
pub mod zones;

verus! {

/// A retained message's body.
pub enum Payload {
    Zone(ZonePayload),
    Scene(ScenePayload),
    Layer(LayerPayload),
    Effect(EffectPayload),
    /// JSON `null`: clears a retained item.
    Null,
    /// A JSON string.
    Text(String),
}

/// What a handler asks of the light and of the broker, in order.
pub enum Reaction {
    /// Switch the light on or off.
    SetOnOff(bool),
    /// Set the brightness.
    SetBrightness(u8),
    /// Set the primary colour.
    SetColor(Rgb),
    /// Rebuild the running scene from the active layers.
    ReloadActive,
    /// Stop whatever runs.
    Halt,
    /// Remember this effect name as the one chosen from Home Assistant.
    SetActiveEffect(String),
    /// Publish the light's state.
    PublishDeviceState,
    /// Publish a retained message on a topic.
    PublishRetained(String, Payload),
    /// Publish the zone list and each zone.
    PublishZones,
    /// Publish the scene list.
    PublishScenes,
    /// Publish the active layer list.
    PublishActiveLayers,
    /// Publish the effect list.
    PublishEffects,
    /// Publish the Home Assistant discovery configuration.
    PublishDiscovery,
    /// The store refused the change.
    Rejected(StoreError),
}

} // verus!
