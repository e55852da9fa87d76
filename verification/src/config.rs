//! The MQTT bridge's settings and their defaults.
use vstd::prelude::*;

verus! {

/// How to reach the broker and how to name topics.
pub struct MqttConfig {
    pub enabled: bool,
    pub host: String,
    pub port: u16,
    pub username: Option<String>,
    pub password: Option<String>,
    pub device_id: String,
    pub topic_prefix: String,
    pub ha_discovery: bool,
    pub ha_discovery_prefix: String,
}

/// The broker host used when none is configured.
pub fn default_host() -> (r: String)
    ensures
        r@ == "localhost"@,
{
    String::from_str("localhost")
}

/// The broker port used when none is configured.
pub fn default_port() -> (r: u16)
    ensures
        r == 1883,
{
    1883
}

/// The device id used when none is configured.
pub fn default_device_id() -> (r: String)
    ensures
        r@ == "lumehub"@,
{
    String::from_str("lumehub")
}

/// The topic prefix used when none is configured.
pub fn default_topic_prefix() -> (r: String)
    ensures
        r@ == "lumehub"@,
{
    String::from_str("lumehub")
}

/// The Home Assistant discovery prefix used when none is configured.
pub fn default_ha_prefix() -> (r: String)
    ensures
        r@ == "homeassistant"@,
{
    String::from_str("homeassistant")
}

/// The value of flags that are on unless configured otherwise.
pub fn default_true() -> (r: bool)
    ensures
        r,
{
    true
}

impl MqttConfig {
    /// Whether `self` holds the documented defaults.
    pub open spec fn is_default(&self) -> bool {
        &&& !self.enabled
        &&& self.host@ == "localhost"@
        &&& self.port == 1883
        &&& self.username is None
        &&& self.password is None
        &&& self.device_id@ == "lumehub"@
        &&& self.topic_prefix@ == "lumehub"@
        &&& self.ha_discovery
        &&& self.ha_discovery_prefix@ == "homeassistant"@
    }
}

impl Default for MqttConfig {
    fn default() -> (r: Self)
        ensures
            r.is_default(),
    {
        MqttConfig {
            enabled: false,
            host: default_host(),
            port: default_port(),
            username: None,
            password: None,
            device_id: default_device_id(),
            topic_prefix: default_topic_prefix(),
            ha_discovery: default_true(),
            ha_discovery_prefix: default_ha_prefix(),
        }
    }
}

} // verus!
