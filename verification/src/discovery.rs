//! Home Assistant discovery: the configuration of the light entity and of the
//! scene selector, and the topics they are published on.
use vstd::prelude::*;

use crate::builtin::BuiltinEffect;
use crate::config::MqttConfig;
use crate::store::order::sorted_by_name;
use crate::store::Store;
use crate::topics::{join, Topics};

verus! {

/// The device that both entities belong to.
pub struct DeviceInfo {
    pub identifiers: Vec<String>,
    pub name: String,
    pub manufacturer: String,
    pub model: String,
}

/// The light entity: JSON schema, brightness, RGB colour and effects.
pub struct LightDiscovery {
    /// Where the configuration is published.
    pub topic: String,
    pub name: String,
    pub unique_id: String,
    pub state_topic: String,
    pub command_topic: String,
    pub schema: String,
    pub brightness: bool,
    pub color_mode: bool,
    pub supported_color_modes: Vec<String>,
    pub effect: bool,
    pub effect_list: Vec<String>,
    pub device: DeviceInfo,
}

/// The scene selector entity.
pub struct SceneSelectDiscovery {
    /// Where the configuration is published.
    pub topic: String,
    pub name: String,
    pub unique_id: String,
    pub state_topic: String,
    pub command_topic: String,
    pub options: Vec<String>,
    pub device: DeviceInfo,
}

/// Whether `d` describes the controller with id `device_id`.
pub open spec fn describes_device(d: DeviceInfo, device_id: Seq<char>) -> bool {
    &&& d.identifiers@.len() == 1
    &&& d.identifiers@[0]@ == device_id
    &&& d.name@ == "LumeHub"@
    &&& d.manufacturer@ == "LumeHub"@
    &&& d.model@ == "LED Controller"@
}

/// The device description of controller `device_id`.
pub fn device_info(device_id: &str) -> (r: DeviceInfo)
    ensures
        describes_device(r, device_id@),
{
    DeviceInfo {
        identifiers: vec![device_id.to_owned()],
        name: String::from_str("LumeHub"),
        manufacturer: String::from_str("LumeHub"),
        model: String::from_str("LED Controller"),
    }
}

/// The light entity's configuration: the built-in effects are offered by
/// display name, in the order given.
pub fn light_discovery(config: &MqttConfig, builtins: &[BuiltinEffect]) -> (r: LightDiscovery)
    ensures
        r.topic@ == config.ha_discovery_prefix@ + "/light/"@ + config.device_id@ + "/config"@,
        r.name@ == "LumeHub"@,
        r.unique_id@ == config.device_id@ + "_light"@,
        r.state_topic@ == config.topic_prefix@ + "/device/state"@,
        r.command_topic@ == config.topic_prefix@ + "/device/set"@,
        r.schema@ == "json"@,
        r.brightness,
        r.color_mode,
        r.supported_color_modes@.len() == 1,
        r.supported_color_modes@[0]@ == "rgb"@,
        r.effect,
        r.effect_list@.len() == builtins@.len(),
        forall|i: int|
            0 <= i < builtins@.len() ==> (#[trigger] r.effect_list@[i])@ == builtins@[i].name@,
        describes_device(r.device, config.device_id@),
{
    let topics = Topics::new(config.topic_prefix.as_str());
    let mut effect_list: Vec<String> = Vec::new();
    let mut i: usize = 0;
    while i < builtins.len()
        invariant
            i <= builtins@.len(),
            effect_list@.len() == i,
            forall|k: int| 0 <= k < i ==> (#[trigger] effect_list@[k])@ == builtins@[k].name@,
        decreases builtins@.len() - i,
    {
        effect_list.push(builtins[i].name.clone());
        i = i + 1;
    }
    let topic = join(&join(&config.ha_discovery_prefix, "/light/"), config.device_id.as_str()).concat(
        "/config",
    );
    LightDiscovery {
        topic,
        name: String::from_str("LumeHub"),
        unique_id: join(&config.device_id, "_light"),
        state_topic: topics.device_state(),
        command_topic: topics.device_set(),
        schema: String::from_str("json"),
        brightness: true,
        color_mode: true,
        supported_color_modes: vec![String::from_str("rgb")],
        effect: true,
        effect_list,
        device: device_info(config.device_id.as_str()),
    }
}

/// The scene selector's configuration: its first option, the empty name,
/// clears the active scene; then the saved scenes by name, in name order.
pub fn scene_select_discovery(config: &MqttConfig, store: &Store) -> (r: SceneSelectDiscovery)
    ensures
        r.topic@ == config.ha_discovery_prefix@ + "/select/"@ + config.device_id@
            + "_scene/config"@,
        r.name@ == "Scene"@,
        r.unique_id@ == config.device_id@ + "_scene"@,
        r.state_topic@ == config.topic_prefix@ + "/active_scene/state"@,
        r.command_topic@ == config.topic_prefix@ + "/active_scene/set"@,
        r.options@.len() == store.scenes@.len() + 1,
        r.options@[0]@.len() == 0,
        forall|i: int|
            0 <= i < store.scenes@.len() ==> (#[trigger] r.options@[i + 1])@ == sorted_by_name(
                store.scenes@,
            )[i].name@,
        describes_device(r.device, config.device_id@),
{
    let mut options: Vec<String> = vec![String::new()];
    let scenes = match store.get_scenes() {
        Ok(v) => v,
        Err(_) => Vec::new(),
    };
    proof {
        crate::store::order::law_listed_in_name_order(store.scenes@);
    }
    let mut i: usize = 0;
    while i < scenes.len()
        invariant
            i <= scenes@.len(),
            scenes@ == sorted_by_name(store.scenes@),
            options@.len() == i + 1,
            options@[0]@.len() == 0,
            forall|k: int| 0 <= k < i ==> (#[trigger] options@[k + 1])@ == scenes@[k].name@,
        decreases scenes@.len() - i,
    {
        options.push(scenes[i].name.clone());
        i = i + 1;
    }
    let topic = join(&join(&config.ha_discovery_prefix, "/select/"), config.device_id.as_str()).concat(
        "_scene/config",
    );
    SceneSelectDiscovery {
        topic,
        name: String::from_str("Scene"),
        unique_id: join(&config.device_id, "_scene"),
        state_topic: join(&config.topic_prefix, "/active_scene/state"),
        command_topic: join(&config.topic_prefix, "/active_scene/set"),
        options,
        device: device_info(config.device_id.as_str()),
    }
}

} // verus!
