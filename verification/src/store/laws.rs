//! What the store's operations promise together: a row written is the row
//! read back, a row removed is gone, listings come in order, a new layer is
//! listed last, reordering gives each layer its index, and a copied scene reads
//! back as the scene it was copied from; the state stack is last in, first
//! out.
use vstd::prelude::*;

use super::active::{copied_rows, new_active_rows, outside_scene};
use super::layers::{in_scene, max_position, moved, next_position, read_layers, reordered};
use super::order::{
    lemma_position_order_is_permutation, lemma_position_order_of_sorted,
    lemma_position_order_sorted, position_order,
};
use super::effect::updated_effect;
use super::scenes::renamed_scene;
use super::zone::updated_zone;
use super::{
    active_id, lookup, EffectRecord, EffectView, Keyed, LayerRecord, LayerView, SceneRecord,
    SceneView, StackEntry, ZoneRecord, ZoneView,
};

verus! {

/// A row inserted under a key that no row had is the row a lookup of that key
/// finds.
pub proof fn law_inserted_row_is_found<T: Keyed>(rows: Seq<T>, row: T)
    requires
        forall|i: int| 0 <= i < rows.len() ==> rows[i].key() != row.key(),
    ensures
        lookup(rows.push(row), row.key()) == Some(row),
{
    let all = rows.push(row);
    assert forall|j: int| 0 <= j < rows.len() implies all[j].key() != row.key() by {
        assert(all[j] == rows[j]);
    }
    super::lemma_lookup_first(all, row.key(), rows.len() as int);
}

/// After removing the rows with key `key`, a lookup of `key` finds nothing.
pub proof fn law_removed_row_is_gone<T: Keyed>(rows: Seq<T>, key: Seq<char>, keep: spec_fn(T) -> bool)
    requires
        forall|t: T| #[trigger] keep(t) ==> t.key() != key,
    ensures
        lookup(rows.filter(keep), key) is None,
{
    let f = rows.filter(keep);
    assert forall|j: int| 0 <= j < f.len() implies f[j].key() != key by {
        rows.lemma_filter_pred(keep, j);
    }
    super::lemma_lookup_first(f, key, f.len() as int);
}

/// After updating zone `id`, a lookup of `id` finds the zone with the new
/// values.
pub proof fn law_updated_zone_is_found(
    before: Seq<ZoneRecord>,
    after: Seq<ZoneRecord>,
    id: Seq<char>,
    name: Seq<char>,
    start_pixel: u32,
    end_pixel: u32,
    transition_length: u32,
)
    requires
        after.map_values(|z: ZoneRecord| z@) == before.map_values(|z: ZoneRecord| z@).map_values(
            |z: ZoneView| updated_zone(z, id, name, start_pixel, end_pixel, transition_length),
        ),
        exists|i: int| 0 <= i < before.len() && before[i].id@ == id,
    ensures
        lookup(after, id) matches Some(z) && z@ == (ZoneView {
            id,
            name,
            start_pixel,
            end_pixel,
            transition_length,
        }),
    decreases before.len(),
{
    assert(after.len() == before.len()) by {
        assert(after.map_values(|z: ZoneRecord| z@).len() == before.map_values(
            |z: ZoneRecord| z@,
        ).len());
    }
    assert(after[0]@ == updated_zone(before[0]@, id, name, start_pixel, end_pixel, transition_length))
        by {
        assert(after.map_values(|z: ZoneRecord| z@)[0] == after[0]@);
    }
    if before[0].id@ != id {
        let i = choose|i: int| 0 <= i < before.len() && before[i].id@ == id;
        assert(before.drop_first()[i - 1] == before[i]);
        assert(after.drop_first().map_values(|z: ZoneRecord| z@) =~= before.drop_first().map_values(
            |z: ZoneRecord| z@,
        ).map_values(
            |z: ZoneView| updated_zone(z, id, name, start_pixel, end_pixel, transition_length),
        )) by {
            assert forall|k: int| 0 <= k < after.len() - 1 implies after.drop_first()[k]@
                == updated_zone(
                before.drop_first()[k]@,
                id,
                name,
                start_pixel,
                end_pixel,
                transition_length,
            ) by {
                assert(after.map_values(|z: ZoneRecord| z@)[k + 1] == after[k + 1]@);
                assert(before.map_values(|z: ZoneRecord| z@)[k + 1] == before[k + 1]@);
            }
        }
        law_updated_zone_is_found(
            before.drop_first(),
            after.drop_first(),
            id,
            name,
            start_pixel,
            end_pixel,
            transition_length,
        );
    }
}

/// After updating effect `id`, a lookup of `id` finds the effect with the new
/// name, script and parameter definitions.
pub proof fn law_updated_effect_is_found(
    before: Seq<EffectRecord>,
    after: Seq<EffectRecord>,
    id: Seq<char>,
    name: Seq<char>,
    script: Seq<char>,
    params: Seq<char>,
)
    requires
        after.map_values(|e: EffectRecord| e@) == before.map_values(|e: EffectRecord| e@).map_values(
            |e: EffectView| updated_effect(e, id, name, script, params),
        ),
        exists|i: int| 0 <= i < before.len() && before[i].id@ == id,
    ensures
        lookup(after, id) matches Some(e) && e@ == (EffectView { id, name, script, params }),
    decreases before.len(),
{
    assert(after.len() == before.len()) by {
        assert(after.map_values(|e: EffectRecord| e@).len() == before.map_values(
            |e: EffectRecord| e@,
        ).len());
    }
    assert(after[0]@ == updated_effect(before[0]@, id, name, script, params)) by {
        assert(after.map_values(|e: EffectRecord| e@)[0] == after[0]@);
    }
    if before[0].id@ != id {
        let i = choose|i: int| 0 <= i < before.len() && before[i].id@ == id;
        assert(before.drop_first()[i - 1] == before[i]);
        assert(after.drop_first().map_values(|e: EffectRecord| e@) =~= before.drop_first().map_values(
            |e: EffectRecord| e@,
        ).map_values(|e: EffectView| updated_effect(e, id, name, script, params))) by {
            assert forall|k: int| 0 <= k < after.len() - 1 implies after.drop_first()[k]@
                == updated_effect(before.drop_first()[k]@, id, name, script, params) by {
                assert(after.map_values(|e: EffectRecord| e@)[k + 1] == after[k + 1]@);
                assert(before.map_values(|e: EffectRecord| e@)[k + 1] == before[k + 1]@);
            }
        }
        law_updated_effect_is_found(before.drop_first(), after.drop_first(), id, name, script, params);
    }
}

/// After renaming scene `id`, a lookup of `id` finds the scene under the new
/// name.
pub proof fn law_renamed_scene_is_found(
    before: Seq<SceneRecord>,
    after: Seq<SceneRecord>,
    id: Seq<char>,
    name: Seq<char>,
)
    requires
        after.map_values(|s: SceneRecord| s@) == before.map_values(|s: SceneRecord| s@).map_values(
            |s: SceneView| renamed_scene(s, id, name),
        ),
        exists|i: int| 0 <= i < before.len() && before[i].id@ == id,
    ensures
        lookup(after, id) matches Some(s) && s@ == (SceneView { id, name }),
    decreases before.len(),
{
    assert(after.len() == before.len()) by {
        assert(after.map_values(|s: SceneRecord| s@).len() == before.map_values(
            |s: SceneRecord| s@,
        ).len());
    }
    assert(after[0]@ == renamed_scene(before[0]@, id, name)) by {
        assert(after.map_values(|s: SceneRecord| s@)[0] == after[0]@);
    }
    if before[0].id@ != id {
        let i = choose|i: int| 0 <= i < before.len() && before[i].id@ == id;
        assert(before.drop_first()[i - 1] == before[i]);
        assert(after.drop_first().map_values(|s: SceneRecord| s@) =~= before.drop_first().map_values(
            |s: SceneRecord| s@,
        ).map_values(|s: SceneView| renamed_scene(s, id, name))) by {
            assert forall|k: int| 0 <= k < after.len() - 1 implies after.drop_first()[k]@
                == renamed_scene(before.drop_first()[k]@, id, name) by {
                assert(after.map_values(|s: SceneRecord| s@)[k + 1] == after[k + 1]@);
                assert(before.map_values(|s: SceneRecord| s@)[k + 1] == before[k + 1]@);
            }
        }
        law_renamed_scene_is_found(before.drop_first(), after.drop_first(), id, name);
    }
}

/// A copied layer differs from its source only in its id and its scene: the
/// effect, zone, blend mode, parameters, enabled flag and position are kept.
pub proof fn law_copy_keeps_layer_settings(
    src: Seq<LayerView>,
    to: Seq<char>,
    ids: Seq<Seq<char>>,
    i: int,
)
    requires
        0 <= i < src.len(),
    ensures
        copied_rows(src, to, ids).len() == src.len(),
        copied_rows(src, to, ids)[i].id == ids[i],
        copied_rows(src, to, ids)[i].scene_id == to,
        copied_rows(src, to, ids)[i].effect_id == src[i].effect_id,
        copied_rows(src, to, ids)[i].zone_id == src[i].zone_id,
        copied_rows(src, to, ids)[i].blend_mode == src[i].blend_mode,
        copied_rows(src, to, ids)[i].params == src[i].params,
        copied_rows(src, to, ids)[i].enabled == src[i].enabled,
        copied_rows(src, to, ids)[i].position == src[i].position,
{
}

/// The rows of a scene whose positions all lie in `0..=u32::MAX`.
pub open spec fn positions_fit(rows: Seq<LayerView>, scene: Seq<char>) -> bool {
    forall|i: int|
        0 <= i < rows.len() && rows[i].scene_id == scene ==> 0 <= #[trigger] rows[i].position
            <= u32::MAX
}

/// Rows in one scene, in non-decreasing position order, whose positions fit
/// in 32 bits, read back as themselves.
proof fn lemma_read_back_in_order(rows: Seq<LayerView>, scene: Seq<char>)
    requires
        ({
            let x = in_scene(rows, scene);
            &&& forall|i: int, j: int| 0 <= i < j < x.len() ==> x[i].position <= x[j].position
            &&& forall|i: int| 0 <= i < x.len() ==> 0 <= #[trigger] x[i].position <= u32::MAX
        }),
    ensures
        read_layers(rows, scene) == in_scene(rows, scene),
{
    let x = in_scene(rows, scene);
    let keys = x.map_values(|l: LayerView| l.position);
    lemma_position_order_of_sorted(keys, x.len());
    let o = position_order(keys, x.len());
    assert(read_layers(rows, scene) =~= x) by {
        assert forall|i: int| 0 <= i < x.len() implies #[trigger] read_layers(rows, scene)[i]
            == x[i] by {
            assert(o[i] == i);
            assert(LayerRecord::of_row(x[i]) =~= x[i]);
        }
    }
}

/// Every row of a scene as read back is in that scene, with a position in
/// 32 bits, and the rows come in non-decreasing position order.
pub proof fn law_read_layers_in_position_order(rows: Seq<LayerView>, scene: Seq<char>)
    requires
        positions_fit(rows, scene),
    ensures
        forall|i: int, j: int|
            0 <= i < j < read_layers(rows, scene).len() ==> read_layers(rows, scene)[i].position
                <= read_layers(rows, scene)[j].position,
        forall|i: int|
            0 <= i < read_layers(rows, scene).len() ==> (#[trigger] read_layers(rows, scene)[i]).scene_id
                == scene && 0 <= read_layers(rows, scene)[i].position <= u32::MAX,
        read_layers(rows, scene).len() == in_scene(rows, scene).len(),
{
    let x = in_scene(rows, scene);
    let keys = x.map_values(|l: LayerView| l.position);
    lemma_position_order_sorted(keys, x.len());
    lemma_position_order_is_permutation(keys, x.len());
    let o = position_order(keys, x.len());
    assert forall|i: int| 0 <= i < x.len() implies #[trigger] x[i].scene_id == scene && 0
        <= x[i].position <= u32::MAX by {
        rows.lemma_filter_pred(|l: LayerView| l.scene_id == scene, i);
        assert(x.contains(x[i]));
        rows.lemma_filter_contains_rev(|l: LayerView| l.scene_id == scene, x[i]);
        let k = choose|k: int| 0 <= k < rows.len() && rows[k] == x[i];
        assert(rows[k].scene_id == scene);
    }
    assert forall|i: int, j: int| 0 <= i < j < read_layers(rows, scene).len() implies read_layers(
        rows,
        scene,
    )[i].position <= read_layers(rows, scene)[j].position by {
        assert(keys[o[i]] <= keys[o[j]]);
        assert(0 <= x[o[i]].position <= u32::MAX);
        assert(0 <= x[o[j]].position <= u32::MAX);
    }
}

/// Copying the layers of scene `from` into a scene `to` that has no rows in
/// `base` gives `to` exactly the copied rows: same order, same fields, new ids.
pub proof fn law_copied_layers_read_back(
    base: Seq<LayerView>,
    src_rows: Seq<LayerView>,
    from: Seq<char>,
    to: Seq<char>,
    ids: Seq<Seq<char>>,
)
    requires
        in_scene(base, to).len() == 0,
        positions_fit(src_rows, from),
        ids.len() == read_layers(src_rows, from).len(),
    ensures
        read_layers(base + copied_rows(read_layers(src_rows, from), to, ids), to) == copied_rows(
            read_layers(src_rows, from),
            to,
            ids,
        ),
{
    let src = read_layers(src_rows, from);
    let c = copied_rows(src, to, ids);
    law_read_layers_in_position_order(src_rows, from);
    let pred = |l: LayerView| l.scene_id == to;
    Seq::filter_distributes_over_add(base, c, pred);
    super::zone::lemma_filter_keeps_all(c, pred);
    assert(in_scene(base + c, to) =~= c);
    lemma_read_back_in_order(base + c, to);
}

/// The rows left outside a scene have none in it.
pub proof fn law_cleared_scene_is_empty(rows: Seq<LayerView>, scene: Seq<char>)
    ensures
        in_scene(outside_scene(rows, scene), scene).len() == 0,
        read_layers(outside_scene(rows, scene), scene).len() == 0,
{
    let o = outside_scene(rows, scene);
    assert forall|i: int| 0 <= i < o.len() implies #[trigger] o[i].scene_id != scene by {
        rows.lemma_filter_pred(|l: LayerView| l.scene_id != scene, i);
    }
    o.lemma_all_neg_filter_empty(|l: LayerView| l.scene_id == scene);
    lemma_position_order_is_permutation(
        in_scene(o, scene).map_values(|l: LayerView| l.position),
        0,
    );
}

/// Loading scene `scene` into the active scene makes the active layers, as read
/// back, the scene's layers in the same order under the new ids.
pub proof fn law_loaded_scene_reads_back(rows: Seq<LayerView>, scene: Seq<char>, ids: Seq<Seq<char>>)
    requires
        scene != active_id(),
        positions_fit(rows, scene),
        ids.len() == read_layers(rows, scene).len(),
    ensures
        read_layers(
            outside_scene(rows, active_id()) + copied_rows(read_layers(rows, scene), active_id(), ids),
            active_id(),
        ) == copied_rows(read_layers(rows, scene), active_id(), ids),
{
    law_cleared_scene_is_empty(rows, active_id());
    law_copied_layers_read_back(outside_scene(rows, active_id()), rows, scene, active_id(), ids);
}

/// After scene `scene` is loaded into the active scene, the `i`-th active
/// layer, as read back, has the effect, zone, blend mode, parameters, enabled
/// flag and position of the scene's `i`-th layer, under the `i`-th new id.
pub proof fn law_loaded_layers_keep_settings(
    rows: Seq<LayerView>,
    scene: Seq<char>,
    ids: Seq<Seq<char>>,
    i: int,
)
    requires
        scene != active_id(),
        positions_fit(rows, scene),
        ids.len() == read_layers(rows, scene).len(),
        0 <= i < read_layers(rows, scene).len(),
    ensures
        ({
            let src = read_layers(rows, scene);
            let active = read_layers(
                outside_scene(rows, active_id()) + copied_rows(src, active_id(), ids),
                active_id(),
            );
            &&& active.len() == src.len()
            &&& active[i].id == ids[i]
            &&& active[i].scene_id == active_id()
            &&& active[i].effect_id == src[i].effect_id
            &&& active[i].zone_id == src[i].zone_id
            &&& active[i].blend_mode == src[i].blend_mode
            &&& active[i].params == src[i].params
            &&& active[i].enabled == src[i].enabled
            &&& active[i].position == src[i].position
        }),
{
    law_loaded_scene_reads_back(rows, scene, ids);
    law_copy_keeps_layer_settings(read_layers(rows, scene), active_id(), ids, i);
}

/// Replacing the active layers makes them, as read back, the given layers in
/// the given order at positions `0, 1, ...` (when that many positions fit in
/// 32 bits).
pub proof fn law_replaced_layers_read_back(
    rows: Seq<LayerView>,
    layers: Seq<super::NewLayer>,
    ids: Seq<Seq<char>>,
)
    requires
        ids.len() == layers.len(),
        layers.len() <= u32::MAX + 1,
    ensures
        read_layers(outside_scene(rows, active_id()) + new_active_rows(layers, ids), active_id())
            == new_active_rows(layers, ids),
{
    let base = outside_scene(rows, active_id());
    let n = new_active_rows(layers, ids);
    law_cleared_scene_is_empty(rows, active_id());
    let pred = |l: LayerView| l.scene_id == active_id();
    Seq::filter_distributes_over_add(base, n, pred);
    super::zone::lemma_filter_keeps_all(n, pred);
    assert(in_scene(base + n, active_id()) =~= n);
    lemma_read_back_in_order(base + n, active_id());
}

proof fn lemma_max_position_bounds(rows: Seq<LayerView>, scene: Seq<char>)
    ensures
        forall|i: int|
            #![trigger rows[i]]
            0 <= i < rows.len() && rows[i].scene_id == scene ==> max_position(rows, scene) is Some
                && rows[i].position <= max_position(rows, scene)->0,
    decreases rows.len(),
{
    if rows.len() > 0 {
        lemma_max_position_bounds(rows.drop_last(), scene);
        assert forall|i: int|
            #![trigger rows[i]]
            0 <= i < rows.len() && rows[i].scene_id == scene implies max_position(rows, scene) is Some
            && rows[i].position <= max_position(rows, scene)->0 by {
            let m = max_position(rows.drop_last(), scene);
            let l = rows.last();
            assert(l == rows[rows.len() - 1]);
            if i < rows.len() - 1 {
                assert(rows[i] == rows.drop_last()[i]);
                assert(rows.drop_last()[i].scene_id == scene);
                assert(rows.drop_last()[i].position == rows[i].position);
                assert(m is Some);
            }
            if l.scene_id == scene {
                match m {
                    None => {
                        assert(max_position(rows, scene) == Some(l.position));
                    },
                    Some(p) => {
                        assert(max_position(rows, scene) == Some(
                            if l.position > p {
                                l.position
                            } else {
                                p
                            },
                        ));
                    },
                }
            } else {
                assert(max_position(rows, scene) == m);
            }
        }
    }
}

/// The position a new layer gets is greater than that of every layer of its
/// scene.
pub proof fn law_next_position_exceeds_all(rows: Seq<LayerView>, scene: Seq<char>)
    ensures
        forall|i: int|
            0 <= i < rows.len() && rows[i].scene_id == scene ==> #[trigger] rows[i].position
                < next_position(rows, scene),
{
    lemma_max_position_bounds(rows, scene);
}

/// A layer added at the next position of its scene is listed after all the
/// scene's other layers, which keep their order.
pub proof fn law_added_layer_listed_last(rows: Seq<LayerView>, row: LayerView)
    requires
        row.position == next_position(rows, row.scene_id),
    ensures
        read_layers(rows.push(row), row.scene_id) == read_layers(rows, row.scene_id).push(
            LayerRecord::of_row(row),
        ),
{
    let s = row.scene_id;
    let x = in_scene(rows, s);
    let pred = |l: LayerView| l.scene_id == s;
    Seq::filter_distributes_over_add(rows, seq![row], pred);
    reveal(Seq::filter);
    assert(seq![row].filter(pred) =~= seq![row]) by {
        assert(seq![row].drop_last() =~= Seq::<LayerView>::empty());
    }
    assert(rows.push(row) =~= rows + seq![row]);
    let x2 = in_scene(rows.push(row), s);
    assert(x2 =~= x.push(row));
    law_next_position_exceeds_all(rows, s);
    let keys = x.map_values(|l: LayerView| l.position);
    let keys2 = x2.map_values(|l: LayerView| l.position);
    assert(keys2 =~= keys.push(row.position));
    assert forall|i: int| 0 <= i < x.len() implies #[trigger] x[i].position < row.position by {
        rows.lemma_filter_pred(pred, i);
        assert(x.contains(x[i]));
        rows.lemma_filter_contains_rev(pred, x[i]);
        let k = choose|k: int| 0 <= k < rows.len() && rows[k] == x[i];
        assert(rows[k].scene_id == s);
    }
    let o = position_order(keys, x.len());
    lemma_position_order_is_permutation(keys, x.len());
    assert forall|n: nat| n <= x.len() implies #[trigger] position_order(keys2, n) == position_order(
        keys,
        n,
    ) by {
        lemma_position_order_prefix(keys, keys2, n);
    }
    let o2 = position_order(keys2, x2.len());
    assert(position_order(keys2, x.len()) == o);
    assert forall|j: int| 0 <= j < o.len() implies 0 <= o[j] < keys2.len() && keys2[o[j]]
        < row.position by {
        assert(keys2[o[j]] == keys[o[j]]);
        assert(keys[o[j]] == x[o[j]].position);
    }
    lemma_insert_point_at_end(o, keys2, row.position);
    assert(keys2[x.len() as int] == row.position);
    assert(o2 == o.insert(o.len() as int, x.len() as int));
    assert(read_layers(rows.push(row), s) =~= read_layers(rows, s).push(LayerRecord::of_row(row)))
        by {
        assert forall|i: int| 0 <= i < o.len() implies #[trigger] x2[o[i]] == x[o[i]] by {}
    }
}

proof fn lemma_position_order_prefix(keys: Seq<i64>, keys2: Seq<i64>, n: nat)
    requires
        n <= keys.len(),
        keys2.len() >= keys.len(),
        forall|i: int| 0 <= i < keys.len() ==> keys2[i] == keys[i],
    ensures
        position_order(keys2, n) == position_order(keys, n),
    decreases n,
{
    if n > 0 {
        lemma_position_order_prefix(keys, keys2, (n - 1) as nat);
        lemma_position_order_is_permutation(keys, (n - 1) as nat);
        lemma_insert_point_same(position_order(keys, (n - 1) as nat), keys, keys2, keys[n - 1]);
    }
}

proof fn lemma_insert_point_same(order: Seq<int>, keys: Seq<i64>, keys2: Seq<i64>, key: i64)
    requires
        keys2.len() >= keys.len(),
        forall|i: int| 0 <= i < keys.len() ==> keys2[i] == keys[i],
        forall|j: int| 0 <= j < order.len() ==> 0 <= #[trigger] order[j] < keys.len(),
    ensures
        super::order::position_insert_point(order, keys2, key) == super::order::position_insert_point(
            order,
            keys,
            key,
        ),
    decreases order.len(),
{
    if order.len() > 0 {
        assert forall|j: int| 0 <= j < order.drop_first().len() implies 0
            <= #[trigger] order.drop_first()[j] < keys.len() by {
            assert(order.drop_first()[j] == order[j + 1]);
        }
        lemma_insert_point_same(order.drop_first(), keys, keys2, key);
    }
}

proof fn lemma_insert_point_at_end(order: Seq<int>, keys: Seq<i64>, key: i64)
    requires
        forall|j: int| 0 <= j < order.len() ==> 0 <= order[j] < keys.len() && keys[order[j]] < key,
    ensures
        super::order::position_insert_point(order, keys, key) == order.len(),
    decreases order.len(),
{
    if order.len() > 0 {
        assert forall|j: int| 0 <= j < order.drop_first().len() implies 0 <= order.drop_first()[j]
            < keys.len() && keys[order.drop_first()[j]] < key by {
            assert(order.drop_first()[j] == order[j + 1]);
        }
        lemma_insert_point_at_end(order.drop_first(), keys, key);
    }
}

/// After reordering scene `scene` by a list of distinct ids, every layer of the
/// scene named in the list sits at its index in the list, every other row is
/// as it was, and only positions change.
pub proof fn law_reorder_gives_list_positions(
    rows: Seq<LayerView>,
    scene: Seq<char>,
    ids: Seq<Seq<char>>,
    n: nat,
)
    requires
        n <= ids.len(),
        ids.len() <= i64::MAX,
        forall|a: int, b: int| 0 <= a < b < ids.len() ==> ids[a] != ids[b],
    ensures
        reordered(rows, scene, ids, n).len() == rows.len(),
        forall|i: int|
            0 <= i < rows.len() ==> (#[trigger] reordered(rows, scene, ids, n)[i]) == (LayerView {
                position: reordered(rows, scene, ids, n)[i].position,
                ..rows[i]
            }),
        forall|i: int, k: int|
            0 <= i < rows.len() && 0 <= k < n && rows[i].scene_id == scene && rows[i].id
                == #[trigger] ids[k] ==> #[trigger] reordered(rows, scene, ids, n)[i].position == k,
        forall|i: int|
            0 <= i < rows.len() && (rows[i].scene_id != scene || forall|k: int|
                0 <= k < n ==> rows[i].id != #[trigger] ids[k]) ==> #[trigger] reordered(
                rows,
                scene,
                ids,
                n,
            )[i] == rows[i],
    decreases n,
{
    if n > 0 {
        law_reorder_gives_list_positions(rows, scene, ids, (n - 1) as nat);
        let prev = reordered(rows, scene, ids, (n - 1) as nat);
        let cur = reordered(rows, scene, ids, n);
        assert(cur == moved(prev, scene, ids[n - 1], (n - 1) as i64));
        assert forall|i: int| 0 <= i < rows.len() implies (#[trigger] cur[i]) == (LayerView {
            position: cur[i].position,
            ..rows[i]
        }) by {
            assert(prev[i] == LayerView { position: prev[i].position, ..rows[i] });
        }
        assert forall|i: int, k: int|
            0 <= i < rows.len() && 0 <= k < n && rows[i].scene_id == scene && rows[i].id
                == #[trigger] ids[k] implies #[trigger] cur[i].position == k by {
            assert(prev[i] == LayerView { position: prev[i].position, ..rows[i] });
            if k < n - 1 {
                assert(ids[k] != ids[n - 1]);
            }
        }
        assert forall|i: int|
            0 <= i < rows.len() && (rows[i].scene_id != scene || forall|k: int|
                0 <= k < n ==> rows[i].id != #[trigger] ids[k]) implies #[trigger] cur[i]
            == rows[i] by {
            if rows[i].scene_id != scene {
                assert(prev[i] == rows[i]);
            } else {
                assert(rows[i].id != ids[n - 1]);
                assert(forall|k: int| 0 <= k < n - 1 ==> rows[i].id != #[trigger] ids[k]);
                assert(prev[i] == rows[i]);
            }
        }
    }
}

/// The state stack is last in, first out: a push followed by a pop gives back
/// the entry pushed and leaves the stack as it was, and the listing of a stack
/// shows the later of two pushed entries first.
pub proof fn law_stack_is_last_in_first_out(stack: Seq<StackEntry>, a: StackEntry, b: StackEntry)
    ensures
        stack.push(a).last() == a,
        stack.push(a).drop_last() == stack,
        stack.push(a).push(b).reverse()[0] == b,
        stack.push(a).push(b).reverse()[1] == a,
        stack.push(a).push(b).reverse().len() == stack.len() + 2,
{
    assert(stack.push(a).drop_last() =~= stack);
}

} // verus!
