//! The retained lists that the controller publishes: the zones, the scenes,
//! the active layers and the effects, each as its payloads.
use vstd::prelude::*;

use crate::builtin::{builtin_id, BuiltinEffect};
use crate::store::layers::read_layers;
use crate::store::order::sorted_by_name;
use crate::store::{active_id, EffectRecord, LayerView, SceneRecord, Store, ZoneRecord};
use crate::types::{EffectPayload, LayerPayload, ScenePayload, ZonePayload};

verus! {

/// Whether `p` publishes zone `z`.
pub open spec fn shows_zone(p: ZonePayload, z: ZoneRecord) -> bool {
    &&& p.id@ == z.id@
    &&& p.name@ == z.name@
    &&& p.start_pixel == z.start_pixel
    &&& p.end_pixel == z.end_pixel
    &&& p.transition_length == z.transition_length
}

/// The zones, in name order.
pub fn zone_payloads(store: &Store) -> (r: Vec<ZonePayload>)
    ensures
        r@.len() == store.zones@.len(),
        forall|i: int|
            0 <= i < r@.len() ==> shows_zone(#[trigger] r@[i], sorted_by_name(store.zones@)[i]),
{
    let zones = match store.get_zones() {
        Ok(v) => v,
        Err(_) => {
            return Vec::new();
        },
    };
    proof {
        crate::store::order::law_listed_in_name_order(store.zones@);
    }
    let mut out: Vec<ZonePayload> = Vec::new();
    let mut i: usize = 0;
    while i < zones.len()
        invariant
            i <= zones@.len(),
            out@.len() == i,
            forall|k: int| 0 <= k < i ==> shows_zone(#[trigger] out@[k], zones@[k]),
        decreases zones@.len() - i,
    {
        let z = &zones[i];
        out.push(
            ZonePayload {
                id: z.id.clone(),
                name: z.name.clone(),
                start_pixel: z.start_pixel,
                end_pixel: z.end_pixel,
                transition_length: z.transition_length,
            },
        );
        i = i + 1;
    }
    out
}

/// Whether `p` publishes scene `s`.
pub open spec fn shows_scene(p: ScenePayload, s: SceneRecord) -> bool {
    p.id@ == s.id@ && p.name@ == s.name@
}

/// The saved scenes, in name order.
pub fn scene_payloads(store: &Store) -> (r: Vec<ScenePayload>)
    ensures
        r@.len() == store.scenes@.len(),
        forall|i: int|
            0 <= i < r@.len() ==> shows_scene(#[trigger] r@[i], sorted_by_name(store.scenes@)[i]),
{
    let scenes = match store.get_scenes() {
        Ok(v) => v,
        Err(_) => {
            return Vec::new();
        },
    };
    proof {
        crate::store::order::law_listed_in_name_order(store.scenes@);
    }
    let mut out: Vec<ScenePayload> = Vec::new();
    let mut i: usize = 0;
    while i < scenes.len()
        invariant
            i <= scenes@.len(),
            out@.len() == i,
            forall|k: int| 0 <= k < i ==> shows_scene(#[trigger] out@[k], scenes@[k]),
        decreases scenes@.len() - i,
    {
        out.push(ScenePayload { id: scenes[i].id.clone(), name: scenes[i].name.clone() });
        i = i + 1;
    }
    out
}

/// Whether `p` publishes the layer read back as `l`.
pub open spec fn shows_layer(p: LayerPayload, l: LayerView) -> bool {
    &&& p.id@ == l.id
    &&& p.effect_id@ == l.effect_id
    &&& p.zone_id@ == l.zone_id
    &&& p.blend_mode == l.blend_mode
    &&& p.params@ == l.params
    &&& p.enabled == l.enabled
    &&& p.position as i64 == l.position
}

/// The active layers, in position order.
pub fn active_layer_payloads(store: &Store) -> (r: Vec<LayerPayload>)
    ensures
        ({
            let layers = read_layers(store.layer_table(), active_id());
            &&& r@.len() == layers.len()
            &&& forall|i: int| 0 <= i < r@.len() ==> shows_layer(#[trigger] r@[i], layers[i])
        }),
{
    let layers = match store.get_active_layers() {
        Ok(v) => v,
        Err(_) => {
            return Vec::new();
        },
    };
    let ghost views = layers@.map_values(|l: crate::store::LayerRecord| l.as_view());
    let mut out: Vec<LayerPayload> = Vec::new();
    let mut i: usize = 0;
    while i < layers.len()
        invariant
            i <= layers@.len(),
            views == layers@.map_values(|l: crate::store::LayerRecord| l.as_view()),
            out@.len() == i,
            forall|k: int| 0 <= k < i ==> shows_layer(#[trigger] out@[k], views[k]),
        decreases layers@.len() - i,
    {
        let l = &layers[i];
        out.push(
            LayerPayload {
                id: l.id.clone(),
                effect_id: l.effect_id.clone(),
                zone_id: l.zone_id.clone(),
                blend_mode: l.blend_mode,
                params: l.params.clone(),
                enabled: l.enabled,
                position: l.position,
            },
        );
        i = i + 1;
    }
    out
}

/// Whether `p` publishes built-in effect `b`.
pub open spec fn shows_builtin(p: EffectPayload, b: BuiltinEffect) -> bool {
    &&& p.id@ == builtin_id(b.slug@)
    &&& p.name@ == b.name@
    &&& p.script@ == b.script@
    &&& p.params@ == b.params@
    &&& p.builtin
}

/// Whether `p` publishes user effect `e`.
pub open spec fn shows_effect(p: EffectPayload, e: EffectRecord) -> bool {
    &&& p.id@ == e.id@
    &&& p.name@ == e.name@
    &&& p.script@ == e.script@
    &&& p.params@ == e.params@
    &&& !p.builtin
}

/// The effects: the built-in ones as given, then the user effects in name
/// order.
pub fn effect_payloads(store: &Store, builtins: &[BuiltinEffect]) -> (r: Vec<EffectPayload>)
    ensures
        r@.len() == builtins@.len() + store.effects@.len(),
        forall|i: int| 0 <= i < builtins@.len() ==> shows_builtin(#[trigger] r@[i], builtins@[i]),
        forall|j: int|
            0 <= j < store.effects@.len() ==> shows_effect(
                #[trigger] r@[builtins@.len() + j],
                sorted_by_name(store.effects@)[j],
            ),
{
    let mut out: Vec<EffectPayload> = Vec::new();
    let mut i: usize = 0;
    while i < builtins.len()
        invariant
            i <= builtins@.len(),
            out@.len() == i,
            forall|k: int| 0 <= k < i ==> shows_builtin(#[trigger] out@[k], builtins@[k]),
        decreases builtins@.len() - i,
    {
        out.push(EffectPayload::from_builtin(&builtins[i]));
        i = i + 1;
    }
    let effects = match store.get_effects() {
        Ok(v) => v,
        Err(_) => {
            return out;
        },
    };
    proof {
        crate::store::order::law_listed_in_name_order(store.effects@);
    }
    let n = builtins.len();
    let mut j: usize = 0;
    while j < effects.len()
        invariant
            n == builtins@.len(),
            j <= effects@.len(),
            out@.len() == n + j,
            forall|k: int| 0 <= k < n ==> shows_builtin(#[trigger] out@[k], builtins@[k]),
            forall|k: int| 0 <= k < j ==> shows_effect(#[trigger] out@[n + k], effects@[k]),
        decreases effects@.len() - j,
    {
        let e = &effects[j];
        out.push(
            EffectPayload {
                id: e.id.clone(),
                name: e.name.clone(),
                script: e.script.clone(),
                params: e.params.clone(),
                builtin: false,
            },
        );
        j = j + 1;
    }
    out
}

} // verus!
