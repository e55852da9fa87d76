use lumehub::builtin::BuiltinEffect;
use lumehub::model::{BlendMode, Rgb};
use lumehub::persistence::PersistedState;
use lumehub::runtime::reload::{
    enabled_layers, plan_reload, resolve_effect, resolve_one, resolve_specs, resolve_zone, ReloadPlan,
};
use lumehub::runtime::{ActiveScene, RenderCommand, RenderStep, SceneState};
use lumehub::store::{Store, ACTIVE_SCENE_ID};

fn new_id() -> String {
    uuid::Uuid::new_v4().to_string()
}

fn idle(on: bool, brightness: u8) -> SceneState {
    SceneState { on, brightness, color: Rgb::new(1, 2, 3), scene: ActiveScene::Idle }
}

fn running(on: bool, brightness: u8) -> SceneState {
    SceneState { on, brightness, color: Rgb::new(1, 2, 3), scene: ActiveScene::Running }
}

#[test]
fn new_state_restores_levels_and_runs_nothing() {
    let mut kept = PersistedState::default();
    kept.on = false;
    kept.brightness = 42;
    kept.color = Rgb::new(9, 8, 7);
    kept.active_effect = Some("custom".to_string());
    let s = SceneState::new(&kept);
    assert!(!s.on);
    assert_eq!(s.brightness, 42);
    assert_eq!(s.color, Rgb::new(9, 8, 7));
    assert!(matches!(s.scene, ActiveScene::Idle));
}

#[test]
fn set_color_switches_on_and_tells_renderer_when_idle() {
    let mut s = idle(false, 10);
    assert_eq!(s.set_color(Rgb::new(255, 0, 0)), Some(RenderCommand::SetColor(Rgb::new(255, 0, 0))));
    assert!(s.on);
    assert_eq!(s.color, Rgb::new(255, 0, 0));

    let mut s = running(false, 10);
    assert_eq!(s.set_color(Rgb::new(0, 255, 0)), None);
    assert!(s.on);
    assert!(matches!(s.scene, ActiveScene::Running));
}

#[test]
fn brightness_follows_running_layers_live() {
    let mut s = running(true, 10);
    assert_eq!(s.set_brightness(77), RenderStep::SetLiveBrightness(77));
    assert_eq!(s.brightness, 77);
    let mut s = idle(true, 10);
    assert_eq!(s.set_brightness(77), RenderStep::Send(RenderCommand::SetBrightness(77)));
}

#[test]
fn switching_off_fades_running_layers_to_zero() {
    let mut s = running(true, 200);
    assert_eq!(s.set_on_off(false), RenderStep::SetLiveBrightness(0));
    assert_eq!(s.set_on_off(true), RenderStep::SetLiveBrightness(200));
    let mut s = idle(true, 200);
    assert_eq!(s.set_on_off(false), RenderStep::Send(RenderCommand::SetOnOff(false)));
    assert!(!s.on);
}

#[test]
fn halt_and_stop_effect_go_idle() {
    let mut s = running(true, 5);
    assert_eq!(s.halt(), RenderCommand::Halt);
    assert!(matches!(s.scene, ActiveScene::Idle));
    let mut s = running(false, 5);
    assert_eq!(s.stop_effect(), RenderCommand::SetOnOff(false));
    assert!(matches!(s.scene, ActiveScene::Idle));
}

#[test]
fn reload_brightness_is_zero_while_off() {
    assert_eq!(idle(false, 150).reload_brightness(), 0);
    assert_eq!(idle(true, 150).reload_brightness(), 150);
}

#[test]
fn snapshot_names_the_running_effect() {
    let s = idle(true, 3);
    let snap = s.snapshot();
    assert!(snap.on);
    assert_eq!(snap.brightness, 3);
    assert_eq!(snap.active_effect, None);
    assert_eq!(snap.light_effect_end_unix_timestamp_sec, None);

    let mut s = idle(true, 3);
    s.start_running();
    assert_eq!(s.snapshot().active_effect.as_deref(), Some("custom"));

    let s = SceneState {
        on: true,
        brightness: 3,
        color: Rgb::black(),
        scene: ActiveScene::Timed { name: "sleep".to_string(), end_unix_timestamp_sec: 1_700_000_000 },
    };
    let snap = s.snapshot();
    assert_eq!(snap.active_effect.as_deref(), Some("sleep"));
    assert_eq!(snap.light_effect_end_unix_timestamp_sec, Some(1_700_000_000));
    let kept = s.extract_persisted();
    assert_eq!(kept.active_effect.as_deref(), Some("sleep"));
    assert!(kept.signal_colors.is_empty());
    assert!(kept.signal_scripts.is_empty());
}

fn builtins() -> Vec<BuiltinEffect> {
    vec![
        BuiltinEffect {
            name: "Solid".to_string(),
            slug: "solid".to_string(),
            script: "first".to_string(),
            params: "[1]".to_string(),
        },
        BuiltinEffect {
            name: "Solid again".to_string(),
            slug: "solid".to_string(),
            script: "second".to_string(),
            params: "[2]".to_string(),
        },
    ]
}

#[test]
fn resolve_zone_all_is_the_whole_strip() {
    let mut store = Store::new();
    let z = resolve_zone(&store, "all", 120).unwrap();
    assert_eq!(z.id, "all");
    assert_eq!(z.name, "Full Strip");
    assert_eq!(z.start_pixel, 0);
    assert_eq!(z.end_pixel, 120);
    assert_eq!(z.transition_length, 0);
    let zone = store.create_zone(new_id(), "desk", 5, 9, 2).unwrap();
    assert_eq!(resolve_zone(&store, &zone.id, 120).unwrap().end_pixel, 9);
    assert!(resolve_zone(&store, "missing", 120).is_none());
}

#[test]
fn resolve_effect_prefers_the_last_builtin_then_the_store() {
    let mut store = Store::new();
    let (script, defs) = resolve_effect(&store, &builtins(), "builtin:solid").unwrap();
    assert_eq!(script, "second");
    assert_eq!(defs, "[2]");
    let e = store.create_effect(new_id(), "mine", "mine()", "[]").unwrap();
    assert_eq!(resolve_effect(&store, &builtins(), &e.id).unwrap().0, "mine()");
    assert!(resolve_effect(&store, &builtins(), "builtin:other").is_none());
}

#[test]
fn plan_reload_keeps_enabled_resolvable_layers() {
    let mut store = Store::new();
    assert!(matches!(plan_reload(&store, &builtins(), 60), ReloadPlan::Idle));
    assert!(enabled_layers(&store).is_none());

    let zone = store.create_zone(new_id(), "z", 0, 9, 0).unwrap();
    let a = store.add_active_layer(new_id(), "builtin:solid", "all", BlendMode::Add, "{}").unwrap();
    let b = store.add_active_layer(new_id(), "missing-effect", &zone.id, BlendMode::Override, "{}").unwrap();
    let c = store.add_active_layer(new_id(), "builtin:solid", &zone.id, BlendMode::Screen, "{\"x\":1}").unwrap();
    store.update_active_layer(&a.id, "all", false, BlendMode::Add, "{}").unwrap();

    let enabled = enabled_layers(&store).unwrap();
    assert_eq!(enabled.len(), 2);
    assert_eq!(enabled[0].id, b.id);
    assert_eq!(enabled[1].id, c.id);

    let specs = resolve_specs(&store, &builtins(), &enabled, 60);
    assert_eq!(specs.len(), 1);
    assert!(resolve_one(&store, &builtins(), &enabled[0], 60).is_none());

    match plan_reload(&store, &builtins(), 60) {
        ReloadPlan::Build(v) => {
            assert_eq!(v.len(), 1);
            assert_eq!(v[0].script, "second");
            assert_eq!(v[0].params, "{\"x\":1}");
            assert!(matches!(v[0].blend_mode, BlendMode::Screen));
            assert_eq!(v[0].zone.end_pixel, 9);
        }
        ReloadPlan::Idle => panic!("one layer resolves"),
    }
    assert_eq!(store.get_layers(ACTIVE_SCENE_ID).unwrap().len(), 3);
}

#[test]
fn plan_reload_is_idle_when_nothing_resolves() {
    let mut store = Store::new();
    store.add_active_layer(new_id(), "missing", "all", BlendMode::Add, "{}").unwrap();
    assert!(enabled_layers(&store).is_some());
    assert!(matches!(plan_reload(&store, &builtins(), 60), ReloadPlan::Idle));
}

#[test]
fn timed_effects_switch_on_and_end_later() {
    let mut s = idle(false, 90);
    let l = s.start_color_loop(1_000, 60);
    assert!(s.on);
    assert_eq!(l.duration, 60);
    assert_eq!(l.start_color, Rgb::new(1, 2, 3));
    assert_eq!(l.colors.len(), 7);
    assert_eq!(l.colors[1], Rgb::new(255, 127, 0));
    assert_eq!(l.colors[6], Rgb::new(148, 0, 211));
    let snap = s.snapshot();
    assert_eq!(snap.active_effect.as_deref(), Some("colorLoop"));
    assert_eq!(snap.light_effect_end_unix_timestamp_sec, Some(1_060));

    let mut s = idle(false, 90);
    let sleep = s.start_sleep(5, 10);
    assert_eq!(sleep.start_brightness, 90);
    assert_eq!(sleep.target_color, Rgb::black());
    assert_eq!(s.snapshot().light_effect_end_unix_timestamp_sec, Some(15));

    let mut s = idle(false, 90);
    let wake = s.start_wake(0, 30);
    assert_eq!(wake.end_brightness, 90);
    assert_eq!(wake.start_color, Rgb::new(1, 2, 3));
    assert_eq!(s.snapshot().active_effect.as_deref(), Some("wake"));
}

#[test]
fn timed_effect_ends_after_its_duration_from_the_clock_reading() {
    let now = 1_700_000_000u64;
    let mut s = idle(false, 90);
    let l = s.start_sleep(now, 600);
    assert_eq!(l.duration, 600);
    assert_eq!(s.snapshot().light_effect_end_unix_timestamp_sec, Some(now + 600));
    assert!(s.on);
}
