use lumehub::builtin::BuiltinEffect;
use lumehub::config::MqttConfig;
use lumehub::discovery::{light_discovery, scene_select_discovery};
use lumehub::model::{blend_mode_from_str, blend_mode_to_str, BlendMode};
use lumehub::persistence::PersistedState;
use lumehub::publish::{active_layer_payloads, effect_payloads, scene_payloads, zone_payloads};
use lumehub::session::{
    client_id, connect_plan, credentials, on_broker_event, subscription_topics, BrokerAction,
    BrokerEvent,
};
use lumehub::store::Store;
use lumehub::topics::Topics;

fn new_id() -> String {
    uuid::Uuid::new_v4().to_string()
}

fn builtins() -> Vec<BuiltinEffect> {
    vec![BuiltinEffect {
        name: "Rainbow".to_string(),
        slug: "rainbow".to_string(),
        script: "rainbow()".to_string(),
        params: "[]".to_string(),
    }]
}

#[test]
fn blend_mode_roundtrip() {
    for variant in [BlendMode::Override, BlendMode::Add, BlendMode::Screen, BlendMode::Multiply] {
        let name = blend_mode_to_str(variant);
        assert_eq!(blend_mode_from_str(name), variant);
    }
}

#[test]
fn blend_mode_serializes_lowercase() {
    assert_eq!(blend_mode_to_str(BlendMode::Override), "override");
    assert_eq!(blend_mode_to_str(BlendMode::Add), "add");
    assert_eq!(blend_mode_to_str(BlendMode::Screen), "screen");
    assert_eq!(blend_mode_to_str(BlendMode::Multiply), "multiply");
    assert_eq!(blend_mode_from_str("unknown"), BlendMode::Override);
}

#[test]
fn fresh_persisted_state() {
    let s = PersistedState::default();
    assert!(s.on);
    assert_eq!(s.brightness, 255);
    assert_eq!(s.color, lumehub::model::Rgb::black());
    assert!(s.active_effect.is_none());
    assert!(s.signal_colors.is_empty());
    assert!(s.signal_scripts.is_empty());
}

#[test]
fn subscriptions_cover_every_command_topic() {
    let subs = subscription_topics(&Topics::new("lumehub"));
    assert_eq!(subs.len(), 19);
    assert_eq!(subs[0], "lumehub/device/set");
    assert_eq!(subs[2], "lumehub/zones/+/update");
    assert_eq!(subs[8], "lumehub/scenes/+/save");
    assert_eq!(subs[14], "lumehub/active_layers/+/delete");
    assert_eq!(subs[18], "lumehub/active_scene/set");
}

#[test]
fn client_id_and_credentials() {
    assert_eq!(client_id("kitchen"), "lumehub-kitchen");
    let mut c = MqttConfig::default();
    assert!(credentials(&c).is_none());
    c.username = Some("user".to_string());
    assert!(credentials(&c).is_none());
    c.password = Some(String::new());
    assert!(credentials(&c).is_none());
    c.password = Some("secret".to_string());
    assert_eq!(credentials(&c), Some(("user".to_string(), "secret".to_string())));
    let plan = connect_plan(&c);
    assert_eq!(plan.client_id, "lumehub-lumehub");
    assert_eq!(plan.host, "localhost");
    assert_eq!(plan.port, 1883);
    assert_eq!(plan.keep_alive_secs, 60);
    assert_eq!(plan.max_packet_size, 1024 * 1024);
    assert_eq!(plan.retry_delay_secs, 5);
}

#[test]
fn light_discovery_config() {
    let c = MqttConfig::default();
    let d = light_discovery(&c, &builtins());
    assert_eq!(d.topic, "homeassistant/light/lumehub/config");
    assert_eq!(d.unique_id, "lumehub_light");
    assert_eq!(d.state_topic, "lumehub/device/state");
    assert_eq!(d.command_topic, "lumehub/device/set");
    assert_eq!(d.schema, "json");
    assert_eq!(d.effect_list, vec!["Rainbow".to_string()]);
    assert_eq!(d.supported_color_modes, vec!["rgb".to_string()]);
    assert_eq!(d.device.identifiers, vec!["lumehub".to_string()]);
    assert_eq!(d.device.model, "LED Controller");
}

#[test]
fn scene_select_discovery_lists_scenes_after_empty_option() {
    let c = MqttConfig::default();
    let mut store = Store::new();
    store.create_scene(new_id(), "Night").unwrap();
    store.create_scene(new_id(), "Day").unwrap();
    let d = scene_select_discovery(&c, &store);
    assert_eq!(d.topic, "homeassistant/select/lumehub_scene/config");
    assert_eq!(d.unique_id, "lumehub_scene");
    assert_eq!(d.state_topic, "lumehub/active_scene/state");
    assert_eq!(d.command_topic, "lumehub/active_scene/set");
    assert_eq!(d.options, vec!["".to_string(), "Day".to_string(), "Night".to_string()]);
}

#[test]
fn published_lists() {
    let mut store = Store::new();
    let z = store.create_zone(new_id(), "b", 1, 2, 3).unwrap();
    store.create_zone(new_id(), "a", 4, 5, 6).unwrap();
    let zones = zone_payloads(&store);
    assert_eq!(zones.len(), 2);
    assert_eq!(zones[0].name, "a");
    assert_eq!(zones[1].id, z.id);
    assert_eq!(zones[1].transition_length, 3);

    store.create_scene(new_id(), "x").unwrap();
    assert_eq!(scene_payloads(&store)[0].name, "x");

    let e = store.create_effect(new_id(), "mine", "m()", "[]").unwrap();
    let effects = effect_payloads(&store, &builtins());
    assert_eq!(effects.len(), 2);
    assert_eq!(effects[0].id, "builtin:rainbow");
    assert!(effects[0].builtin);
    assert_eq!(effects[1].id, e.id);
    assert!(!effects[1].builtin);

    let l = store.add_active_layer(new_id(), &e.id, &z.id, BlendMode::Add, "{}").unwrap();
    let layers = active_layer_payloads(&store);
    assert_eq!(layers.len(), 1);
    assert_eq!(layers[0].id, l.id);
    assert_eq!(layers[0].position, 0);
}

#[test]
fn broker_events_are_acted_on_only_while_connected() {
    assert_eq!(on_broker_event(false, &BrokerEvent::Publish, true), (false, BrokerAction::Ignore));
    assert_eq!(
        on_broker_event(false, &BrokerEvent::ConnAck { accepted: true }, true),
        (true, BrokerAction::Welcome { discovery: true })
    );
    assert_eq!(
        on_broker_event(false, &BrokerEvent::ConnAck { accepted: false }, true),
        (false, BrokerAction::Reconnect)
    );
    assert_eq!(on_broker_event(true, &BrokerEvent::Publish, false), (true, BrokerAction::Dispatch));
    assert_eq!(
        on_broker_event(true, &BrokerEvent::Snapshot, false),
        (true, BrokerAction::PublishDeviceState)
    );
    assert_eq!(on_broker_event(true, &BrokerEvent::Failed, false), (true, BrokerAction::Reconnect));
    assert_eq!(on_broker_event(true, &BrokerEvent::Other, false), (true, BrokerAction::Ignore));
}
