use lumehub::config::{
    default_device_id, default_ha_prefix, default_host, default_port, default_topic_prefix,
    default_true, MqttConfig,
};

#[test]
fn default_config_has_expected_values() {
    let c = MqttConfig::default();
    assert!(!c.enabled);
    assert_eq!(c.host, "localhost");
    assert_eq!(c.port, 1883);
    assert_eq!(c.device_id, "lumehub");
    assert_eq!(c.topic_prefix, "lumehub");
    assert!(c.ha_discovery);
    assert_eq!(c.ha_discovery_prefix, "homeassistant");
}

#[test]
fn default_values_one_by_one() {
    assert_eq!(default_host(), "localhost");
    assert_eq!(default_port(), 1883);
    assert_eq!(default_device_id(), "lumehub");
    assert_eq!(default_topic_prefix(), "lumehub");
    assert_eq!(default_ha_prefix(), "homeassistant");
    assert!(default_true());
    let c = MqttConfig::default();
    assert!(c.username.is_none());
    assert!(c.password.is_none());
}
