//! Rebuilding the running layers from the active scene: which layers take
//! part, and the script, parameters and zone that each one resolves to.
use vstd::prelude::*;

use crate::builtin::{builtin_id, BuiltinEffect};
use crate::model::BlendMode;
use crate::store::layers::read_layers;
use crate::store::{active_id, lookup, LayerRecord, LayerView, Store, ZoneRecord, ZoneView};
use crate::text::str_eq;

verus! {

/// The enabled rows among `rows`, in order.
pub open spec fn enabled_only(rows: Seq<LayerView>) -> Seq<LayerView> {
    rows.filter(|l: LayerView| l.enabled)
}

/// A reload keeps exactly the enabled layers: every layer it keeps is
/// enabled and comes from `rows`, and every enabled layer of `rows` is kept.
pub proof fn law_reload_keeps_enabled_layers(rows: Seq<LayerView>)
    ensures
        forall|k: int|
            0 <= k < enabled_only(rows).len() ==> (#[trigger] enabled_only(rows)[k]).enabled
                && rows.contains(enabled_only(rows)[k]),
        forall|k: int| 0 <= k < rows.len() && rows[k].enabled ==> enabled_only(rows).contains(#[trigger] rows[k]),
{
    let p = |l: LayerView| l.enabled;
    assert forall|k: int| 0 <= k < enabled_only(rows).len() implies (#[trigger] enabled_only(
        rows,
    )[k]).enabled && rows.contains(enabled_only(rows)[k]) by {
        rows.lemma_filter_pred(p, k);
        assert(enabled_only(rows).contains(enabled_only(rows)[k]));
        rows.lemma_filter_contains_rev(p, enabled_only(rows)[k]);
    }
    assert forall|k: int| 0 <= k < rows.len() && rows[k].enabled implies enabled_only(
        rows,
    ).contains(#[trigger] rows[k]) by {
        assert(rows.contains(rows[k]));
        rows.lemma_filter_contains(p, k);
    }
}

/// A copy of a layer record.
fn copy_record(l: &LayerRecord) -> (r: LayerRecord)
    ensures
        r.as_view() == l.as_view(),
{
    LayerRecord {
        id: l.id.clone(),
        scene_id: l.scene_id.clone(),
        effect_id: l.effect_id.clone(),
        zone_id: l.zone_id.clone(),
        blend_mode: l.blend_mode,
        params: l.params.clone(),
        enabled: l.enabled,
        position: l.position,
    }
}

/// The enabled active layers, in order; nothing when none is enabled.
pub fn enabled_layers(store: &Store) -> (r: Option<Vec<LayerRecord>>)
    ensures
        ({
            let en = enabled_only(read_layers(store.layer_table(), active_id()));
            &&& r is None <==> en.len() == 0
            &&& r matches Some(v) ==> v@.map_values(|l: LayerRecord| l.as_view()) == en
        }),
{
    let layers = match store.get_active_layers() {
        Ok(v) => v,
        Err(_) => {
            return None;
        },
    };
    let ghost all = layers@.map_values(|l: LayerRecord| l.as_view());
    let ghost pred = |l: LayerView| l.enabled;
    let mut out: Vec<LayerRecord> = Vec::new();
    let mut i: usize = 0;
    while i < layers.len()
        invariant
            i <= layers@.len(),
            all == layers@.map_values(|l: LayerRecord| l.as_view()),
            pred == (|l: LayerView| l.enabled),
            out@.map_values(|l: LayerRecord| l.as_view()) == all.take(i as int).filter(pred),
        decreases layers@.len() - i,
    {
        proof {
            reveal(Seq::filter);
            assert(all.take(i + 1).drop_last() =~= all.take(i as int));
            assert(all.take(i + 1).last() == layers@[i as int].as_view());
        }
        if layers[i].enabled {
            let ghost before = out@;
            out.push(copy_record(&layers[i]));
            assert(out@.map_values(|l: LayerRecord| l.as_view()) =~= before.map_values(
                |l: LayerRecord| l.as_view(),
            ).push(layers@[i as int].as_view()));
        }
        i = i + 1;
    }
    assert(all.take(all.len() as int) =~= all);
    if out.len() == 0 {
        None
    } else {
        Some(out)
    }
}

/// The zone that stands for the whole strip.
pub open spec fn full_strip(strip_len: usize) -> ZoneView {
    ZoneView {
        id: "all"@,
        name: "Full Strip"@,
        start_pixel: 0,
        end_pixel: strip_len as u32,
        transition_length: 0,
    }
}

/// The zone a layer's zone id resolves to: `all` is the whole strip, any
/// other id a stored zone.
pub open spec fn zone_for(store: Store, zone_id: Seq<char>, strip_len: usize) -> Option<ZoneView> {
    if zone_id == "all"@ {
        Some(full_strip(strip_len))
    } else {
        match lookup(store.zones@, zone_id) {
            Some(z) => Some(z@),
            None => None,
        }
    }
}

/// An optional zone by its view.
pub open spec fn opt_zone_view(z: Option<ZoneRecord>) -> Option<ZoneView> {
    match z {
        Some(x) => Some(x@),
        None => None,
    }
}

/// The zone that `zone_id` resolves to.
pub fn resolve_zone(store: &Store, zone_id: &str, strip_len: usize) -> (r: Option<ZoneRecord>)
    ensures
        opt_zone_view(r) == zone_for(*store, zone_id@, strip_len),
{
    if str_eq(zone_id, "all") {
        let end: u32 = #[verifier::truncate] (strip_len as u32);
        return Some(
            ZoneRecord {
                id: String::from_str("all"),
                name: String::from_str("Full Strip"),
                start_pixel: 0,
                end_pixel: end,
                transition_length: 0,
            },
        );
    }
    match store.get_zone(zone_id) {
        Ok(z) => Some(z),
        Err(_) => None,
    }
}

/// `i` is the last built-in effect with id `id`: built-ins are looked up by
/// id, and a later one shadows an earlier one with the same id.
pub open spec fn last_with_id(bs: Seq<BuiltinEffect>, id: Seq<char>, i: int) -> bool {
    &&& 0 <= i < bs.len()
    &&& builtin_id(bs[i].slug@) == id
    &&& forall|j: int| i < j < bs.len() ==> builtin_id((#[trigger] bs[j]).slug@) != id
}

/// The script and the parameter definitions that an effect id resolves to:
/// a built-in effect first, else a stored user effect.
pub open spec fn effect_source(store: Store, builtins: Seq<BuiltinEffect>, id: Seq<char>) -> Option<
    (Seq<char>, Seq<char>),
> {
    if exists|i: int| last_with_id(builtins, id, i) {
        let i = choose|i: int| last_with_id(builtins, id, i);
        Some((builtins[i].script@, builtins[i].params@))
    } else {
        match lookup(store.effects@, id) {
            Some(e) => Some((e.script@, e.params@)),
            None => None,
        }
    }
}

/// An optional pair of strings by their characters.
pub open spec fn opt_pair_view(p: Option<(String, String)>) -> Option<(Seq<char>, Seq<char>)> {
    match p {
        Some((a, b)) => Some((a@, b@)),
        None => None,
    }
}

/// The script and the parameter definitions of effect `effect_id`.
pub fn resolve_effect(store: &Store, builtins: &[BuiltinEffect], effect_id: &str) -> (r: Option<
    (String, String),
>)
    ensures
        opt_pair_view(r) == effect_source(*store, builtins@, effect_id@),
{
    let mut k: usize = builtins.len();
    while k > 0
        invariant
            k <= builtins@.len(),
            forall|j: int| k <= j < builtins@.len() ==> builtin_id((#[trigger] builtins@[j]).slug@)
                != effect_id@,
        decreases k,
    {
        k = k - 1;
        let id = builtins[k].id();
        if str_eq(id.as_str(), effect_id) {
            proof {
                assert(last_with_id(builtins@, effect_id@, k as int));
                assert forall|m: int| #[trigger] last_with_id(builtins@, effect_id@, m) implies m
                    == k by {
                    if m < k {
                        assert(builtin_id(builtins@[k as int].slug@) == effect_id@);
                    }
                }
            }
            return Some((builtins[k].script.clone(), builtins[k].params.clone()));
        }
    }
    match store.get_effect(effect_id) {
        Ok(e) => Some((e.script, e.params)),
        Err(_) => None,
    }
}

/// A layer with everything it needs to run.
pub struct ResolvedLayer {
    pub script: String,
    pub param_defs: String,
    pub params: String,
    pub blend_mode: BlendMode,
    pub zone: ZoneRecord,
}

/// What a resolved layer holds.
pub struct ResolvedView {
    pub script: Seq<char>,
    pub param_defs: Seq<char>,
    pub params: Seq<char>,
    pub blend_mode: BlendMode,
    pub zone: ZoneView,
}

impl View for ResolvedLayer {
    type V = ResolvedView;

    open spec fn view(&self) -> ResolvedView {
        ResolvedView {
            script: self.script@,
            param_defs: self.param_defs@,
            params: self.params@,
            blend_mode: self.blend_mode,
            zone: self.zone@,
        }
    }
}

/// Whether layer `l` resolves: both its effect and its zone are found.
pub open spec fn resolvable(store: Store, builtins: Seq<BuiltinEffect>, strip_len: usize, l: LayerView) -> bool {
    effect_source(store, builtins, l.effect_id) is Some && zone_for(store, l.zone_id, strip_len) is Some
}

/// What layer `l` resolves to.
pub open spec fn resolved_of(store: Store, builtins: Seq<BuiltinEffect>, strip_len: usize, l: LayerView) -> ResolvedView {
    let src = effect_source(store, builtins, l.effect_id).unwrap();
    ResolvedView {
        script: src.0,
        param_defs: src.1,
        params: l.params,
        blend_mode: l.blend_mode,
        zone: zone_for(store, l.zone_id, strip_len).unwrap(),
    }
}

/// A layer that resolves runs the script and the parameter definitions of the
/// effect it names, with its own parameter values and blend mode, on the zone
/// it names.
pub proof fn law_resolved_layer_runs_its_effect(
    store: Store,
    builtins: Seq<BuiltinEffect>,
    strip_len: usize,
    l: LayerView,
)
    requires
        resolvable(store, builtins, strip_len, l),
    ensures
        effect_source(store, builtins, l.effect_id) matches Some(src) && resolved_of(
            store,
            builtins,
            strip_len,
            l,
        ).script == src.0 && resolved_of(store, builtins, strip_len, l).param_defs == src.1,
        resolved_of(store, builtins, strip_len, l).params == l.params,
        resolved_of(store, builtins, strip_len, l).blend_mode == l.blend_mode,
        zone_for(store, l.zone_id, strip_len) matches Some(z) && resolved_of(
            store,
            builtins,
            strip_len,
            l,
        ).zone == z,
{
}

/// An effect id that names a built-in effect resolves to the last built-in
/// with that id: its script and its parameter definitions.
pub proof fn law_builtin_effect_source(store: Store, builtins: Seq<BuiltinEffect>, id: Seq<char>, i: int)
    requires
        last_with_id(builtins, id, i),
    ensures
        effect_source(store, builtins, id) == Some((builtins[i].script@, builtins[i].params@)),
{
    let k = choose|k: int| last_with_id(builtins, id, k);
    if k < i {
        assert(builtin_id(builtins[i].slug@) == id);
    } else if i < k {
        assert(builtin_id(builtins[k].slug@) == id);
    }
}

/// An effect id that names no built-in effect resolves to the stored user
/// effect with that id, its script and its parameter definitions, if there is
/// one.
pub proof fn law_user_effect_source(store: Store, builtins: Seq<BuiltinEffect>, id: Seq<char>)
    requires
        forall|j: int| 0 <= j < builtins.len() ==> builtin_id((#[trigger] builtins[j]).slug@) != id,
    ensures
        effect_source(store, builtins, id) == match lookup(store.effects@, id) {
            Some(e) => Some((e.script@, e.params@)),
            None => None::<(Seq<char>, Seq<char>)>,
        },
{
}

/// What the layers `rows` resolve to: those that do not resolve are left out.
pub open spec fn resolved(store: Store, builtins: Seq<BuiltinEffect>, strip_len: usize, rows: Seq<LayerView>) -> Seq<ResolvedView> {
    rows.filter(|l: LayerView| resolvable(store, builtins, strip_len, l)).map_values(
        |l: LayerView| resolved_of(store, builtins, strip_len, l),
    )
}

/// What one layer resolves to, if it does.
pub fn resolve_one(store: &Store, builtins: &[BuiltinEffect], layer: &LayerRecord, strip_len: usize) -> (r: Option<ResolvedLayer>)
    ensures
        r is Some <==> resolvable(*store, builtins@, strip_len, layer.as_view()),
        r matches Some(x) ==> x@ == resolved_of(*store, builtins@, strip_len, layer.as_view()),
{
    let (script, param_defs) = match resolve_effect(store, builtins, layer.effect_id.as_str()) {
        Some(p) => p,
        None => {
            return None;
        },
    };
    let zone = match resolve_zone(store, layer.zone_id.as_str(), strip_len) {
        Some(z) => z,
        None => {
            return None;
        },
    };
    Some(
        ResolvedLayer {
            script,
            param_defs,
            params: layer.params.clone(),
            blend_mode: layer.blend_mode,
            zone,
        },
    )
}

/// What the layers resolve to, in order; those that do not resolve are left out.
pub fn resolve_specs(store: &Store, builtins: &[BuiltinEffect], layers: &[LayerRecord], strip_len: usize) -> (r: Vec<ResolvedLayer>)
    ensures
        r@.map_values(|x: ResolvedLayer| x@) == resolved(
            *store,
            builtins@,
            strip_len,
            layers@.map_values(|l: LayerRecord| l.as_view()),
        ),
{
    let ghost rows = layers@.map_values(|l: LayerRecord| l.as_view());
    let ghost pred = |l: LayerView| resolvable(*store, builtins@, strip_len, l);
    let ghost f = |l: LayerView| resolved_of(*store, builtins@, strip_len, l);
    let mut out: Vec<ResolvedLayer> = Vec::new();
    let mut i: usize = 0;
    while i < layers.len()
        invariant
            i <= layers@.len(),
            rows == layers@.map_values(|l: LayerRecord| l.as_view()),
            pred == (|l: LayerView| resolvable(*store, builtins@, strip_len, l)),
            f == (|l: LayerView| resolved_of(*store, builtins@, strip_len, l)),
            out@.map_values(|x: ResolvedLayer| x@) == rows.take(i as int).filter(pred).map_values(f),
        decreases layers@.len() - i,
    {
        proof {
            reveal(Seq::filter);
            assert(rows.take(i + 1).drop_last() =~= rows.take(i as int));
            assert(rows.take(i + 1).last() == layers@[i as int].as_view());
        }
        match resolve_one(store, builtins, &layers[i], strip_len) {
            Some(x) => {
                let ghost before = out@;
                out.push(x);
                proof {
                    let kept = rows.take(i as int).filter(pred);
                    assert(rows.take(i + 1).filter(pred) == kept.push(layers@[i as int].as_view()));
                    assert(kept.push(layers@[i as int].as_view()).map_values(f) =~= kept.map_values(
                        f,
                    ).push(f(layers@[i as int].as_view())));
                    assert(out@.map_values(|x: ResolvedLayer| x@) =~= before.map_values(
                        |x: ResolvedLayer| x@,
                    ).push(x@));
                }
            },
            None => {},
        }
        i = i + 1;
    }
    assert(rows.take(rows.len() as int) =~= rows);
    out
}

/// What a reload comes to: nothing to run, or the layers to build.
pub enum ReloadPlan {
    /// Stop: no layer is enabled, or none resolves.
    Idle,
    /// Build and run these layers.
    Build(Vec<ResolvedLayer>),
}

/// Decide a reload: the enabled active layers, resolved.
pub fn plan_reload(store: &Store, builtins: &[BuiltinEffect], strip_len: usize) -> (r: ReloadPlan)
    ensures
        ({
            let rs = resolved(
                *store,
                builtins@,
                strip_len,
                enabled_only(read_layers(store.layer_table(), active_id())),
            );
            &&& r is Idle <==> rs.len() == 0
            &&& r matches ReloadPlan::Build(v) ==> v@.map_values(|x: ResolvedLayer| x@) == rs
        }),
{
    let enabled = match enabled_layers(store) {
        Some(v) => v,
        None => {
            proof {
                let en = enabled_only(read_layers(store.layer_table(), active_id()));
                assert(en.filter(|l: LayerView| resolvable(*store, builtins@, strip_len, l)).len()
                    <= en.len()) by {
                    en.lemma_filter_len(|l: LayerView| resolvable(*store, builtins@, strip_len, l));
                }
            }
            return ReloadPlan::Idle;
        },
    };
    let specs = resolve_specs(store, builtins, enabled.as_slice(), strip_len);
    assert(specs@.map_values(|x: ResolvedLayer| x@).len() == specs@.len());
    if specs.len() == 0 {
        ReloadPlan::Idle
    } else {
        ReloadPlan::Build(specs)
    }
}

} // verus!
