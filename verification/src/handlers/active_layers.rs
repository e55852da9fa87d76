//! Commands on the active layers: set all, clear, add, reorder, change and
//! remove one. Each change makes the light rebuild from the active layers.
use vstd::prelude::*;

use super::effects::part_or_view;
use super::{Payload, Reaction};
use crate::model::BlendMode;
use crate::store::active::{ids_free, new_active_rows, outside_scene, string_views};
use crate::store::layers::{has_layer, next_position, reordered, updated_layer};
use crate::store::{active_id, LayerRecord, LayerView, NewLayer, Store, StoreError};
use crate::topics::Topics;
use crate::types::{AddLayerCommand, LayerPayload, ReorderLayersCommand, UpdateLayerCommand};

verus! {

/// The layers that a list of add commands asks for.
pub open spec fn new_layers_of(cmds: Seq<AddLayerCommand>) -> Seq<NewLayer> {
    cmds.map_values(
        |c: AddLayerCommand|
            NewLayer {
                effect_id: c.effect_id,
                zone_id: c.zone_id,
                blend_mode: c.blend_mode,
                params: c.params,
            },
    )
}

/// The `i`-th layer that a list of add commands asks for carries the `i`-th
/// command's effect, zone, blend mode and parameters; set, it becomes the
/// `i`-th active row: under the `i`-th id, enabled, at position `i`.
pub proof fn law_set_layers_follow_commands(cmds: Seq<AddLayerCommand>, ids: Seq<Seq<char>>, i: int)
    requires
        0 <= i < cmds.len(),
    ensures
        new_layers_of(cmds).len() == cmds.len(),
        new_layers_of(cmds)[i].effect_id@ == cmds[i].effect_id@,
        new_layers_of(cmds)[i].zone_id@ == cmds[i].zone_id@,
        new_layers_of(cmds)[i].blend_mode == cmds[i].blend_mode,
        new_layers_of(cmds)[i].params@ == cmds[i].params@,
        new_active_rows(new_layers_of(cmds), ids).len() == cmds.len(),
        ({
            let r = new_active_rows(new_layers_of(cmds), ids)[i];
            &&& r.id == ids[i]
            &&& r.scene_id == active_id()
            &&& r.effect_id == cmds[i].effect_id@
            &&& r.zone_id == cmds[i].zone_id@
            &&& r.blend_mode == cmds[i].blend_mode
            &&& r.params == cmds[i].params@
            &&& r.enabled
            &&& r.position == i as i64
        }),
{
}

/// The reactions to a change of the active layers.
pub open spec fn changed(r: Seq<Reaction>) -> bool {
    r == seq![Reaction::ReloadActive, Reaction::PublishActiveLayers]
}

/// Replace all active layers by those the commands give, the new layers
/// under the ids `ids`.
pub fn handle_set(store: &mut Store, cmds: &[AddLayerCommand], ids: &[String]) -> (r: Vec<Reaction>)
    requires
        old(store).wf(),
        ids@.len() == cmds@.len(),
    ensures
        final(store).wf(),
        final(store).same_but_layers(old(store)),
        ({
            let remaining = outside_scene(old(store).layer_table(), active_id());
            &&& ids_free(remaining, string_views(ids@)) ==> changed(r@) && final(store).layer_table()
                == remaining + new_active_rows(new_layers_of(cmds@), string_views(ids@))
            &&& !ids_free(remaining, string_views(ids@)) ==> r@ == seq![
                Reaction::Rejected(StoreError::Db),
            ] && *final(store) == *old(store)
        }),
{
    let mut layers: Vec<NewLayer> = Vec::new();
    let mut i: usize = 0;
    while i < cmds.len()
        invariant
            i <= cmds@.len(),
            layers@ == new_layers_of(cmds@).take(i as int),
        decreases cmds@.len() - i,
    {
        let c = &cmds[i];
        layers.push(
            NewLayer {
                effect_id: c.effect_id.clone(),
                zone_id: c.zone_id.clone(),
                blend_mode: c.blend_mode,
                params: c.params.clone(),
            },
        );
        assert(new_layers_of(cmds@).take(i + 1) =~= new_layers_of(cmds@).take(i as int).push(
            layers@[i as int],
        ));
        i = i + 1;
    }
    assert(new_layers_of(cmds@).take(cmds@.len() as int) =~= new_layers_of(cmds@));
    match store.replace_active_layers(layers.as_slice(), ids) {
        Ok(()) => vec![Reaction::ReloadActive, Reaction::PublishActiveLayers],
        Err(e) => vec![Reaction::Rejected(e)],
    }
}

/// Remove every active layer; the light stops.
pub fn handle_clear(store: &mut Store) -> (r: Vec<Reaction>)
    requires
        old(store).wf(),
    ensures
        final(store).wf(),
        final(store).same_but_layers(old(store)),
        final(store).layer_table() == outside_scene(old(store).layer_table(), active_id()),
        r@ == seq![Reaction::Halt, Reaction::PublishActiveLayers],
{
    match store.clear_active_scene() {
        Ok(()) => vec![Reaction::Halt, Reaction::PublishActiveLayers],
        Err(e) => vec![Reaction::Rejected(e)],
    }
}

/// The reactions to an active layer that was added: rebuild, its retained
/// record, then the active layer list.
pub open spec fn layer_added(r: Seq<Reaction>, t: &Topics, row: LayerView) -> bool {
    &&& r.len() == 3
    &&& r[0] is ReloadActive
    &&& r[1] matches Reaction::PublishRetained(topic, Payload::Layer(p)) && topic@ == t.prefix@
        + "/active_layers/"@ + row.id && p.id@ == row.id && p.effect_id@ == row.effect_id
        && p.zone_id@ == row.zone_id && p.blend_mode == row.blend_mode && p.params@ == row.params
        && p.enabled == row.enabled && p.position == row.position as u32
    &&& r[2] is PublishActiveLayers
}

/// Add one active layer at the end, under the id `id`.
pub fn handle_add(store: &mut Store, t: &Topics, id: String, cmd: &AddLayerCommand) -> (r: Vec<
    Reaction,
>)
    requires
        old(store).wf(),
    ensures
        final(store).wf(),
        final(store).same_but_layers(old(store)),
        ({
            let ok = (forall|i: int|
                0 <= i < old(store).layers@.len() ==> old(store).layers@[i].id@ != id@)
                && next_position(old(store).layer_table(), active_id()) <= i64::MAX;
            let row = LayerView {
                id: id@,
                scene_id: active_id(),
                effect_id: cmd.effect_id@,
                zone_id: cmd.zone_id@,
                blend_mode: cmd.blend_mode,
                params: cmd.params@,
                enabled: true,
                position: next_position(old(store).layer_table(), active_id()) as i64,
            };
            &&& ok ==> final(store).layer_table() == old(store).layer_table().push(row)
                && layer_added(r@, t, row)
            &&& !ok ==> *final(store) == *old(store) && r@ == seq![
                Reaction::Rejected(StoreError::Db),
            ]
        }),
{
    match store.add_active_layer(
        id,
        cmd.effect_id.as_str(),
        cmd.zone_id.as_str(),
        cmd.blend_mode,
        cmd.params.as_str(),
    ) {
        Ok(layer) => {
            let topic = t.active_layer(layer.id.as_str());
            vec![
                Reaction::ReloadActive,
                Reaction::PublishRetained(topic, Payload::Layer(LayerPayload::from(layer))),
                Reaction::PublishActiveLayers,
            ]
        },
        Err(e) => vec![Reaction::Rejected(e)],
    }
}

/// Give the active layers the order of the command's ids.
pub fn handle_reorder(store: &mut Store, cmd: &ReorderLayersCommand) -> (r: Vec<Reaction>)
    requires
        old(store).wf(),
    ensures
        final(store).wf(),
        final(store).same_but_layers(old(store)),
        ({
            let ids = cmd.ordered_ids@;
            let all_known = forall|k: int|
                0 <= k < ids.len() ==> has_layer(
                    old(store).layer_table(),
                    active_id(),
                    #[trigger] ids[k]@,
                );
            &&& ids.len() == 0 ==> *final(store) == *old(store) && changed(r@)
            &&& ids.len() > 0 && !all_known ==> *final(store) == *old(store) && r@ == seq![
                Reaction::Rejected(StoreError::NotFound),
            ]
            &&& ids.len() > 0 && all_known ==> changed(r@) && final(store).layer_table()
                == reordered(old(store).layer_table(), active_id(), string_views(ids), ids.len())
        }),
{
    match store.reorder_active_layers(cmd.ordered_ids.as_slice()) {
        Ok(()) => vec![Reaction::ReloadActive, Reaction::PublishActiveLayers],
        Err(e) => vec![Reaction::Rejected(e)],
    }
}

/// The first row of the active scene with id `id`.
pub open spec fn first_active_with_id(rows: Seq<LayerView>, id: Seq<char>, i: int) -> bool {
    &&& 0 <= i < rows.len()
    &&& rows[i].id == id
    &&& rows[i].scene_id == active_id()
    &&& forall|j: int| 0 <= j < i ==> !(rows[j].id == id && rows[j].scene_id == active_id())
}

/// `part` when present, else `current`.
pub open spec fn or_keep<T>(part: Option<T>, current: T) -> T {
    match part {
        Some(p) => p,
        None => current,
    }
}

/// A part given in an update command replaces the current value; a part
/// left out keeps it.
pub proof fn law_given_part_replaces<T>(part: Option<T>, current: T)
    ensures
        part matches Some(p) ==> or_keep(part, current) == p,
        part is None ==> or_keep(part, current) == current,
{
}

/// What an update command does to the active layer it names (`l`, whose
/// current values are `cur`): the zone, enabled flag, blend mode and
/// parameters the command gives replace the layer's, those it leaves out stay,
/// and the id, scene, effect and position do not change.
pub proof fn law_update_command_sets_given_parts(l: LayerView, cur: LayerView, cmd: UpdateLayerCommand)
    requires
        l.scene_id == active_id(),
    ensures
        ({
            let u = updated_layer(
                l,
                l.id,
                active_id(),
                part_or_view(cmd.zone_id, cur.zone_id),
                or_keep(cmd.enabled, cur.enabled),
                or_keep(cmd.blend_mode, cur.blend_mode),
                part_or_view(cmd.params, cur.params),
            );
            &&& cmd.zone_id matches Some(z) ==> u.zone_id == z@
            &&& cmd.zone_id is None ==> u.zone_id == cur.zone_id
            &&& cmd.enabled matches Some(e) ==> u.enabled == e
            &&& cmd.enabled is None ==> u.enabled == cur.enabled
            &&& cmd.blend_mode matches Some(b) ==> u.blend_mode == b
            &&& cmd.blend_mode is None ==> u.blend_mode == cur.blend_mode
            &&& cmd.params matches Some(p) ==> u.params == p@
            &&& cmd.params is None ==> u.params == cur.params
            &&& u.id == l.id && u.scene_id == l.scene_id && u.effect_id == l.effect_id
            &&& u.position == l.position
        }),
{
}

/// Change the parts of active layer `id` that the command gives.
pub fn handle_update(store: &mut Store, id: &str, cmd: &UpdateLayerCommand) -> (r: Vec<Reaction>)
    requires
        old(store).wf(),
    ensures
        final(store).wf(),
        final(store).same_but_layers(old(store)),
        !has_layer(old(store).layer_table(), active_id(), id@) ==> *final(store) == *old(store)
            && r@ == seq![Reaction::Rejected(StoreError::NotFound)],
        has_layer(old(store).layer_table(), active_id(), id@) ==> changed(r@) && exists|i: int|
            #[trigger] first_active_with_id(old(store).layer_table(), id@, i) && {
                let cur = old(store).layer_table()[i];
                final(store).layer_table() == old(store).layer_table().map_values(
                    |l: LayerView|
                        updated_layer(
                            l,
                            id@,
                            active_id(),
                            part_or_view(cmd.zone_id, cur.zone_id),
                            or_keep(cmd.enabled, cur.enabled),
                            or_keep(cmd.blend_mode, cur.blend_mode),
                            part_or_view(cmd.params, cur.params),
                        ),
                )
            },
{
    let current = match store.get_active_layer(id) {
        Ok(l) => l,
        Err(e) => {
            proof {
                assert forall|i: int| 0 <= i < old(store).layer_table().len() implies !(old(
                    store,
                ).layer_table()[i].id == id@ && old(store).layer_table()[i].scene_id
                    == active_id()) by {
                    assert(old(store).layer_table()[i] == old(store).layers@[i]@);
                }
            }
            return vec![Reaction::Rejected(e)];
        },
    };
    let ghost i = choose|i: int|
        0 <= i < old(store).layers@.len() && old(store).layers@[i].id@ == id@
            && old(store).layers@[i].scene_id@ == active_id() && (forall|j: int|
            0 <= j < i ==> !(old(store).layers@[j].id@ == id@ && old(store).layers@[j].scene_id@
                == active_id())) && current.as_view() == LayerRecord::of_row(old(store).layers@[i]@);
    proof {
        assert(old(store).layer_table()[i] == old(store).layers@[i]@);
        assert forall|j: int| 0 <= j < i implies !(old(store).layer_table()[j].id == id@ && old(
            store,
        ).layer_table()[j].scene_id == active_id()) by {
            assert(old(store).layer_table()[j] == old(store).layers@[j]@);
        }
        assert(first_active_with_id(old(store).layer_table(), id@, i));
    }
    let zone_id: &str = match &cmd.zone_id {
        Some(z) => z.as_str(),
        None => current.zone_id.as_str(),
    };
    let enabled = match cmd.enabled {
        Some(e) => e,
        None => current.enabled,
    };
    let blend_mode: BlendMode = match cmd.blend_mode {
        Some(b) => b,
        None => current.blend_mode,
    };
    let params: &str = match &cmd.params {
        Some(p) => p.as_str(),
        None => current.params.as_str(),
    };
    match store.update_active_layer(id, zone_id, enabled, blend_mode, params) {
        Ok(_) => vec![Reaction::ReloadActive, Reaction::PublishActiveLayers],
        Err(e) => vec![Reaction::Rejected(e)],
    }
}

/// Remove active layer `id`, clearing its retained record.
pub fn handle_delete(store: &mut Store, t: &Topics, id: &str) -> (r: Vec<Reaction>)
    requires
        old(store).wf(),
    ensures
        final(store).wf(),
        final(store).same_but_layers(old(store)),
        !has_layer(old(store).layer_table(), active_id(), id@) ==> *final(store) == *old(store)
            && r@ == seq![Reaction::Rejected(StoreError::NotFound)],
        has_layer(old(store).layer_table(), active_id(), id@) ==> {
            &&& final(store).layer_table() == old(store).layer_table().filter(
                |l: LayerView| !(l.id == id@ && l.scene_id == active_id()),
            )
            &&& r@.len() == 3
            &&& r@[0] is ReloadActive
            &&& r@[1] matches Reaction::PublishRetained(topic, p) && topic@ == t.prefix@
                + "/active_layers/"@ + id@ && p is Null
            &&& r@[2] is PublishActiveLayers
        },
{
    match store.remove_active_layer(id) {
        Ok(()) => vec![
            Reaction::ReloadActive,
            Reaction::PublishRetained(t.active_layer(id), Payload::Null),
            Reaction::PublishActiveLayers,
        ],
        Err(e) => vec![Reaction::Rejected(e)],
    }
}

} // verus!
