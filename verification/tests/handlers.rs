use lumehub::builtin::BuiltinEffect;
use lumehub::handlers::route::{route_of, Route};
use lumehub::handlers::{active_layers, active_scene, device, effects, scenes, zones};
use lumehub::handlers::{Payload, Reaction};
use lumehub::model::{BlendMode, Rgb};
use lumehub::store::{Store, StoreError};
use lumehub::topics::Topics;
use lumehub::types::{
    AddLayerCommand, CreateEffectCommand, CreateSceneCommand, CreateZoneCommand, DeviceCommand,
    ReorderLayersCommand, RgbPayload, UpdateEffectCommand, UpdateLayerCommand, UpdateSceneCommand,
    UpdateZoneCommand,
};

fn new_id() -> String {
    uuid::Uuid::new_v4().to_string()
}

fn new_ids(n: usize) -> Vec<String> {
    (0..n).map(|_| new_id()).collect()
}

fn ids_for(store: &Store) -> Vec<String> {
    new_ids(store.layers.len())
}

fn t() -> Topics {
    Topics::new("lumehub")
}

fn add_cmd(effect_id: &str, zone_id: &str) -> AddLayerCommand {
    AddLayerCommand {
        effect_id: effect_id.to_string(),
        zone_id: zone_id.to_string(),
        blend_mode: BlendMode::Override,
        params: "{}".to_string(),
    }
}

fn no_device_change() -> DeviceCommand {
    DeviceCommand { state: None, brightness: None, color: None, effect: None }
}

fn builtins() -> Vec<BuiltinEffect> {
    vec![
        BuiltinEffect {
            name: "Rainbow".to_string(),
            slug: "rainbow".to_string(),
            script: "rainbow()".to_string(),
            params: "[]".to_string(),
        },
        BuiltinEffect {
            name: "Fire".to_string(),
            slug: "fire".to_string(),
            script: "fire()".to_string(),
            params: "[]".to_string(),
        },
    ]
}

#[test]
fn active_layers_clear() {
    let mut store = Store::new();
    let effect = store.create_effect(new_id(), "e", "fn main() {}", "[]").unwrap();
    let zone = store.create_zone(new_id(), "z", 0, 10, 0).unwrap();
    store.add_active_layer(new_id(), &effect.id, &zone.id, BlendMode::Override, "{}").unwrap();
    assert!(!store.get_active_layers().unwrap().is_empty());

    assert!(matches!(route_of(&t(), "lumehub/active_layers/clear"), Route::ActiveLayersClear));
    let r = active_layers::handle_clear(&mut store);

    assert!(store.get_active_layers().unwrap().is_empty());
    assert_eq!(r.len(), 2);
    assert!(matches!(r[0], Reaction::Halt));
    assert!(matches!(r[1], Reaction::PublishActiveLayers));
}

#[test]
fn active_layers_add() {
    let mut store = Store::new();
    let effect = store.create_effect(new_id(), "e", "fn main() {}", "[]").unwrap();
    let zone = store.create_zone(new_id(), "z", 0, 10, 0).unwrap();

    let r = active_layers::handle_add(&mut store, &t(), new_id(), &add_cmd(&effect.id, &zone.id));

    let layers = store.get_active_layers().unwrap();
    assert_eq!(layers.len(), 1);
    assert_eq!(layers[0].effect_id, effect.id);
    assert_eq!(r.len(), 3);
    assert!(matches!(r[0], Reaction::ReloadActive));
    match &r[1] {
        Reaction::PublishRetained(topic, Payload::Layer(p)) => {
            assert_eq!(*topic, format!("lumehub/active_layers/{}", layers[0].id));
            assert_eq!(p.id, layers[0].id);
            assert_eq!(p.position, 0);
            assert!(p.enabled);
        }
        _ => panic!("expected the new layer's retained record"),
    }
    assert!(matches!(r[2], Reaction::PublishActiveLayers));
}

#[test]
fn active_layers_set_replaces_all() {
    let mut store = Store::new();
    let e1 = store.create_effect(new_id(), "e1", "fn main() {}", "[]").unwrap();
    let e2 = store.create_effect(new_id(), "e2", "fn main() {}", "[]").unwrap();
    let zone = store.create_zone(new_id(), "z", 0, 10, 0).unwrap();
    store.add_active_layer(new_id(), &e1.id, &zone.id, BlendMode::Override, "{}").unwrap();

    let r = active_layers::handle_set(&mut store, &[add_cmd(&e2.id, &zone.id)], &new_ids(1));

    let layers = store.get_active_layers().unwrap();
    assert_eq!(layers.len(), 1);
    assert_eq!(layers[0].effect_id, e2.id);
    assert!(matches!(r[..], [Reaction::ReloadActive, Reaction::PublishActiveLayers]));
}

#[test]
fn active_layer_update() {
    let mut store = Store::new();
    let effect = store.create_effect(new_id(), "e", "fn main() {}", "[]").unwrap();
    let z1 = store.create_zone(new_id(), "z1", 0, 10, 0).unwrap();
    let z2 = store.create_zone(new_id(), "z2", 10, 20, 0).unwrap();
    let layer = store.add_active_layer(new_id(), &effect.id, &z1.id, BlendMode::Override, "{}").unwrap();

    let topic = format!("lumehub/active_layers/{}/update", layer.id);
    let id = match route_of(&t(), &topic) {
        Route::ActiveLayerUpdate(id) => id.to_string(),
        _ => panic!("expected an update route"),
    };
    let cmd = UpdateLayerCommand { zone_id: Some(z2.id.clone()), enabled: None, blend_mode: None, params: None };
    let r = active_layers::handle_update(&mut store, &id, &cmd);

    let updated = store.get_active_layer(&layer.id).unwrap();
    assert_eq!(updated.zone_id, z2.id);
    assert!(updated.enabled);
    assert!(matches!(updated.blend_mode, BlendMode::Override));
    assert!(matches!(r[..], [Reaction::ReloadActive, Reaction::PublishActiveLayers]));
}

#[test]
fn active_layer_delete() {
    let mut store = Store::new();
    let effect = store.create_effect(new_id(), "e", "fn main() {}", "[]").unwrap();
    let zone = store.create_zone(new_id(), "z", 0, 10, 0).unwrap();
    let layer = store.add_active_layer(new_id(), &effect.id, &zone.id, BlendMode::Override, "{}").unwrap();

    let r = active_layers::handle_delete(&mut store, &t(), &layer.id);

    assert!(store.get_active_layers().unwrap().is_empty());
    assert_eq!(r.len(), 3);
    assert!(matches!(r[0], Reaction::ReloadActive));
    assert!(matches!(&r[1], Reaction::PublishRetained(topic, Payload::Null)
        if *topic == format!("lumehub/active_layers/{}", layer.id)));
}

#[test]
fn active_layers_reorder() {
    let mut store = Store::new();
    let effect = store.create_effect(new_id(), "e", "fn main() {}", "[]").unwrap();
    let zone = store.create_zone(new_id(), "z", 0, 10, 0).unwrap();
    let l1 = store.add_active_layer(new_id(), &effect.id, &zone.id, BlendMode::Override, "{}").unwrap();
    let l2 = store.add_active_layer(new_id(), &effect.id, &zone.id, BlendMode::Add, "{}").unwrap();

    let cmd = ReorderLayersCommand { ordered_ids: vec![l2.id.clone(), l1.id.clone()] };
    let r = active_layers::handle_reorder(&mut store, &cmd);

    let layers = store.get_active_layers().unwrap();
    assert_eq!(layers[0].id, l2.id);
    assert_eq!(layers[1].id, l1.id);
    assert!(matches!(r[..], [Reaction::ReloadActive, Reaction::PublishActiveLayers]));
}

#[test]
fn active_layer_update_of_unknown_layer_is_rejected() {
    let mut store = Store::new();
    let cmd = UpdateLayerCommand { zone_id: None, enabled: Some(false), blend_mode: None, params: None };
    let r = active_layers::handle_update(&mut store, "ghost", &cmd);
    assert!(matches!(r[..], [Reaction::Rejected(StoreError::NotFound)]));
}

#[test]
fn active_scene_set_by_name() {
    let mut store = Store::new();
    let effect = store.create_effect(new_id(), "e", "fn main() {}", "[]").unwrap();
    let zone = store.create_zone(new_id(), "z", 0, 10, 0).unwrap();
    let scene = store.create_scene(new_id(), "Sunset").unwrap();
    store.add_active_layer(new_id(), &effect.id, &zone.id, BlendMode::Override, "{}").unwrap();
    store.overwrite_scene_from_active(&scene.id, &new_ids(store.get_active_layers().unwrap().len())).unwrap();
    store.clear_active_scene().unwrap();

    assert!(matches!(route_of(&t(), "lumehub/active_scene/set"), Route::ActiveSceneSet));
    let ids = ids_for(&store);
    let r = active_scene::handle_active_scene_set(&mut store, &t(), b"  Sunset\n", &ids);

    let layers = store.get_active_layers().unwrap();
    assert!(!layers.is_empty());
    assert_eq!(r.len(), 3);
    assert!(matches!(r[0], Reaction::ReloadActive));
    assert!(matches!(&r[2], Reaction::PublishRetained(topic, Payload::Text(name))
        if topic == "lumehub/active_scene/state" && name == "Sunset"));
}

#[test]
fn active_scene_set_empty_clears() {
    let mut store = Store::new();
    let effect = store.create_effect(new_id(), "e", "fn main() {}", "[]").unwrap();
    let zone = store.create_zone(new_id(), "z", 0, 10, 0).unwrap();
    store.add_active_layer(new_id(), &effect.id, &zone.id, BlendMode::Override, "{}").unwrap();

    let ids = ids_for(&store);
    let r = active_scene::handle_active_scene_set(&mut store, &t(), b"", &ids);

    assert!(store.get_active_layers().unwrap().is_empty());
    assert!(matches!(r[0], Reaction::Halt));
    assert!(matches!(&r[2], Reaction::PublishRetained(topic, Payload::Text(name))
        if topic == "lumehub/active_scene/state" && name.is_empty()));
}

#[test]
fn active_scene_set_unknown_or_invalid_changes_nothing() {
    let mut store = Store::new();
    let effect = store.create_effect(new_id(), "e", "fn main() {}", "[]").unwrap();
    let zone = store.create_zone(new_id(), "z", 0, 10, 0).unwrap();
    store.add_active_layer(new_id(), &effect.id, &zone.id, BlendMode::Override, "{}").unwrap();

    let ids = ids_for(&store);
    assert!(active_scene::handle_active_scene_set(&mut store, &t(), b"Nowhere", &ids).is_empty());
    assert!(active_scene::handle_active_scene_set(&mut store, &t(), &[0xff, 0xfe], &ids).is_empty());
    assert_eq!(store.get_active_layers().unwrap().len(), 1);
}

#[test]
fn device_set_on_off() {
    let mut store = Store::new();
    let off = DeviceCommand { state: Some("OFF".to_string()), ..no_device_change() };
    let r = device::handle_set(&mut store, &builtins(), &off, new_id());
    assert!(matches!(r[..], [Reaction::SetOnOff(false), Reaction::PublishDeviceState]));

    let on = DeviceCommand { state: Some("on".to_string()), ..no_device_change() };
    let r = device::handle_set(&mut store, &builtins(), &on, new_id());
    assert!(matches!(r[..], [Reaction::SetOnOff(true), Reaction::PublishDeviceState]));
}

#[test]
fn device_set_brightness() {
    let mut store = Store::new();
    let cmd = DeviceCommand { brightness: Some(128), ..no_device_change() };
    let r = device::handle_set(&mut store, &builtins(), &cmd, new_id());
    assert!(matches!(r[..], [Reaction::SetBrightness(128), Reaction::PublishDeviceState]));
}

#[test]
fn device_set_color() {
    let mut store = Store::new();
    let cmd = DeviceCommand { color: Some(RgbPayload { r: 255, g: 100, b: 0 }), ..no_device_change() };
    let r = device::handle_set(&mut store, &builtins(), &cmd, new_id());
    match r[0] {
        Reaction::SetColor(c) => assert_eq!(c, Rgb { r: 255, g: 100, b: 0 }),
        _ => panic!("expected a colour change"),
    }
    assert!(matches!(r[1], Reaction::PublishDeviceState));
}

#[test]
fn device_set_unknown_state_word_is_ignored() {
    let mut store = Store::new();
    let cmd = DeviceCommand { state: Some("dim".to_string()), ..no_device_change() };
    let r = device::handle_set(&mut store, &builtins(), &cmd, new_id());
    assert!(matches!(r[..], [Reaction::PublishDeviceState]));
}

#[test]
fn device_set_effect_by_name_or_slug() {
    let mut store = Store::new();
    let cmd = DeviceCommand { effect: Some("fire".to_string()), ..no_device_change() };
    let r = device::handle_set(&mut store, &builtins(), &cmd, new_id());
    assert_eq!(r.len(), 3);
    assert!(matches!(r[0], Reaction::ReloadActive));
    assert!(matches!(&r[1], Reaction::SetActiveEffect(n) if n == "fire"));
    let layers = store.get_active_layers().unwrap();
    assert_eq!(layers.len(), 1);
    assert_eq!(layers[0].effect_id, "builtin:fire");
    assert_eq!(layers[0].zone_id, "all");
    assert_eq!(layers[0].params, "{}");
    assert!(matches!(layers[0].blend_mode, BlendMode::Override));

    let cmd = DeviceCommand { effect: Some("Rainbow".to_string()), ..no_device_change() };
    device::handle_set(&mut store, &builtins(), &cmd, new_id());
    let layers = store.get_active_layers().unwrap();
    assert_eq!(layers.len(), 1);
    assert_eq!(layers[0].effect_id, "builtin:rainbow");

    let cmd = DeviceCommand { effect: Some("Nope".to_string()), ..no_device_change() };
    let r = device::handle_set(&mut store, &builtins(), &cmd, new_id());
    assert!(matches!(r[..], [Reaction::PublishDeviceState]));
    assert_eq!(store.get_active_layers().unwrap()[0].effect_id, "builtin:rainbow");
}

#[test]
fn parse_power_ignores_case() {
    assert_eq!(device::parse_power("on"), Some(true));
    assert_eq!(device::parse_power("Off"), Some(false));
    assert_eq!(device::parse_power("toggle"), None);
    assert_eq!(device::power_of_upper("ON"), Some(true));
    assert_eq!(device::power_of_upper("on"), None);
}

#[test]
fn unknown_topic_is_ignored() {
    let store = Store::new();
    assert!(matches!(route_of(&t(), "lumehub/unknown/topic"), Route::Ignored));
    assert!(store.get_zones().unwrap().is_empty());
}

#[test]
fn unrelated_prefix_is_ignored() {
    assert!(matches!(route_of(&t(), "other/device/set"), Route::Ignored));
    assert!(matches!(route_of(&t(), "lumehub/device/set"), Route::DeviceSet));
}

#[test]
fn effect_create() {
    let mut store = Store::new();
    let cmd = CreateEffectCommand {
        name: "Blink".to_string(),
        script: "fn main() {}".to_string(),
        params: "[]".to_string(),
    };
    let r = effects::handle_create(&mut store, &t(), new_id(), &cmd);
    let effects = store.get_effects().unwrap();
    assert_eq!(effects.len(), 1);
    assert_eq!(effects[0].name, "Blink");
    assert!(matches!(r[1], Reaction::PublishEffects));
}

#[test]
fn effect_update() {
    let mut store = Store::new();
    let effect = store.create_effect(new_id(), "Old", "fn main() {}", "[]").unwrap();
    let cmd = UpdateEffectCommand { name: Some("New".to_string()), script: None, params: None };
    effects::handle_update(&mut store, &t(), &builtins(), &effect.id, &cmd);
    let updated = store.get_effect(&effect.id).unwrap();
    assert_eq!(updated.name, "New");
    assert_eq!(updated.script, "fn main() {}");
}

#[test]
fn effect_delete() {
    let mut store = Store::new();
    let effect = store.create_effect(new_id(), "Del", "fn main() {}", "[]").unwrap();
    effects::handle_delete(&mut store, &t(), &builtins(), &effect.id);
    let effects = store.get_effects().unwrap();
    assert!(effects.iter().all(|e| e.id != effect.id));
}

#[test]
fn builtin_effects_cannot_be_changed() {
    let mut store = Store::new();
    let cmd = UpdateEffectCommand { name: Some("Mine".to_string()), script: None, params: None };
    assert!(effects::handle_update(&mut store, &t(), &builtins(), "builtin:fire", &cmd).is_empty());
    assert!(effects::handle_delete(&mut store, &t(), &builtins(), "builtin:fire").is_empty());
}

#[test]
fn scene_create() {
    let mut store = Store::new();
    let r = scenes::handle_create(&mut store, &t(), true, new_id(), &CreateSceneCommand { name: "Sunset".to_string() });
    let scenes = store.get_scenes().unwrap();
    assert_eq!(scenes.len(), 1);
    assert_eq!(scenes[0].name, "Sunset");
    assert!(matches!(r.last(), Some(Reaction::PublishDiscovery)));
}

#[test]
fn scene_update() {
    let mut store = Store::new();
    let scene = store.create_scene(new_id(), "Old").unwrap();
    scenes::handle_update(&mut store, &t(), false, &scene.id, &UpdateSceneCommand { name: "New".to_string() });
    assert_eq!(store.get_scene(&scene.id).unwrap().name, "New");
}

#[test]
fn scene_delete() {
    let mut store = Store::new();
    let scene = store.create_scene(new_id(), "TempScene").unwrap();
    let r = scenes::handle_delete(&mut store, &t(), false, &scene.id);
    assert!(store.get_scenes().unwrap().iter().all(|s| s.id != scene.id));
    assert_eq!(r.len(), 2);
}

#[test]
fn scene_load_into_active() {
    let mut store = Store::new();
    let effect = store.create_effect(new_id(), "e", "fn main() {}", "[]").unwrap();
    let zone = store.create_zone(new_id(), "z", 0, 10, 0).unwrap();
    let scene = store.create_scene(new_id(), "MyScene").unwrap();
    store.add_active_layer(new_id(), &effect.id, &zone.id, BlendMode::Override, "{}").unwrap();
    store.overwrite_scene_from_active(&scene.id, &new_ids(store.get_active_layers().unwrap().len())).unwrap();
    store.clear_active_scene().unwrap();
    assert!(store.get_active_layers().unwrap().is_empty());

    let ids = new_ids(store.get_layers(&scene.id).unwrap().len());
    let r = scenes::handle_load(&mut store, &scene.id, &ids);

    assert!(!store.get_active_layers().unwrap().is_empty());
    assert!(matches!(r[..], [Reaction::ReloadActive, Reaction::PublishActiveLayers]));
}

#[test]
fn zone_create() {
    let mut store = Store::new();
    let cmd = CreateZoneCommand { name: "Left".to_string(), start_pixel: 0, end_pixel: 49, transition_length: 0 };
    let r = zones::handle_create(&mut store, &t(), new_id(), &cmd);
    let zones = store.get_zones().unwrap();
    assert_eq!(zones.len(), 1);
    assert_eq!(zones[0].name, "Left");
    assert_eq!(zones[0].start_pixel, 0);
    assert_eq!(zones[0].end_pixel, 49);
    assert_eq!(zones[0].transition_length, 0);
    assert!(matches!(&r[0], Reaction::PublishRetained(topic, Payload::Zone(p))
        if *topic == format!("lumehub/zones/{}", zones[0].id) && p.name == "Left"));
}

#[test]
fn zone_create_with_transition() {
    let mut store = Store::new();
    let cmd = CreateZoneCommand { name: "Z".to_string(), start_pixel: 0, end_pixel: 10, transition_length: 8 };
    zones::handle_create(&mut store, &t(), new_id(), &cmd);
    assert_eq!(store.get_zones().unwrap()[0].transition_length, 8);
}

#[test]
fn zone_update() {
    let mut store = Store::new();
    let zone = store.create_zone(new_id(), "Old", 0, 10, 0).unwrap();
    let cmd = UpdateZoneCommand { name: "New".to_string(), start_pixel: 5, end_pixel: 20, transition_length: 0 };
    zones::handle_update(&mut store, &t(), &zone.id, &cmd);
    let updated = store.get_zone(&zone.id).unwrap();
    assert_eq!(updated.name, "New");
    assert_eq!(updated.start_pixel, 5);
    assert_eq!(updated.end_pixel, 20);
}

#[test]
fn zone_delete() {
    let mut store = Store::new();
    let zone = store.create_zone(new_id(), "Temp", 0, 10, 0).unwrap();
    let r = zones::handle_delete(&mut store, &t(), &zone.id);
    assert!(store.get_zones().unwrap().iter().all(|z| z.id != zone.id));
    assert!(matches!(&r[0], Reaction::PublishRetained(_, Payload::Null)));
}

#[test]
fn every_command_topic_routes_to_its_handler() {
    let t = t();
    assert!(matches!(route_of(&t, "lumehub/zones/create"), Route::ZonesCreate));
    assert!(matches!(route_of(&t, "lumehub/scenes/create"), Route::ScenesCreate));
    assert!(matches!(route_of(&t, "lumehub/active_layers/set"), Route::ActiveLayersSet));
    assert!(matches!(route_of(&t, "lumehub/active_layers/add"), Route::ActiveLayersAdd));
    assert!(matches!(route_of(&t, "lumehub/active_layers/reorder"), Route::ActiveLayersReorder));
    assert!(matches!(route_of(&t, "lumehub/effects/create"), Route::EffectsCreate));
    assert!(matches!(route_of(&t, "lumehub/zones/z1/delete"), Route::ZoneDelete("z1")));
    assert!(matches!(route_of(&t, "lumehub/scenes/s1/load"), Route::SceneLoad("s1")));
    assert!(matches!(route_of(&t, "lumehub/scenes/s1/save"), Route::SceneSave("s1")));
    assert!(matches!(route_of(&t, "lumehub/effects/e1/update"), Route::EffectUpdate("e1")));
    // An item id may not span segments.
    assert!(matches!(route_of(&t, "lumehub/zones/a/b/update"), Route::Ignored));
    // An item topic whose id reads like a fixed action is still an item topic.
    assert!(matches!(route_of(&t, "lumehub/active_layers/set/delete"), Route::ActiveLayerDelete("set")));
}

#[test]
fn parse_power_reads_upper_case_words() {
    assert_eq!(device::parse_power("ON"), Some(true));
    assert_eq!(device::parse_power("oFf"), Some(false));
    assert_eq!(device::parse_power(" on"), None);
}

#[test]
fn active_scene_name_is_trimmed_of_unicode_white_space() {
    let mut store = Store::new();
    let scene = store.create_scene(new_id(), "Sunset").unwrap();
    store.add_active_layer(new_id(), "fx", "all", BlendMode::Override, "{}").unwrap();
    let ids = new_ids(store.get_active_layers().unwrap().len());
    store.overwrite_scene_from_active(&scene.id, &ids).unwrap();
    store.clear_active_scene().unwrap();

    let payload = "\u{3000}Sunset\u{00a0}\r\n".as_bytes();
    let ids = ids_for(&store);
    let r = active_scene::handle_active_scene_set(&mut store, &t(), payload, &ids);
    assert!(matches!(&r[2], Reaction::PublishRetained(_, Payload::Text(name)) if name == "Sunset"));
    let layers = store.get_active_layers().unwrap();
    assert_eq!(layers.len(), 1);
    assert_eq!(layers[0].id, ids[0]);

    let ids = ids_for(&store);
    let r = active_scene::handle_active_scene_set(&mut store, &t(), " \u{2003}\t".as_bytes(), &ids);
    assert!(matches!(r[0], Reaction::Halt));
    assert!(store.get_active_layers().unwrap().is_empty());
}
