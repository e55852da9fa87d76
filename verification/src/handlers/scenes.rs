//! Scene commands: create, rename, delete, load into the active scene and
//! save the active scene into one.
use vstd::prelude::*;

use super::{Payload, Reaction};
use crate::store::active::{copied_rows, ids_free, outside_scene, string_views};
use crate::store::layers::read_layers;
use crate::store::scenes::{renamed_scene, row_outside};
use crate::store::{active_id, lookup, SceneRecord, SceneView, Store, StoreError};
use crate::topics::Topics;
use crate::types::{CreateSceneCommand, ScenePayload, UpdateSceneCommand};

verus! {

/// The reactions to a scene that was written: its retained record, the
/// scene list, and the discovery configuration when that is published.
pub open spec fn scene_written(r: Seq<Reaction>, t: &Topics, s: SceneRecord, discovery: bool) -> bool {
    &&& r.len() == if discovery {
        3int
    } else {
        2int
    }
    &&& r[0] matches Reaction::PublishRetained(topic, Payload::Scene(p)) && topic@ == t.prefix@
        + "/scenes/"@ + s.id@ && p == (ScenePayload { id: s.id, name: s.name })
    &&& r[1] is PublishScenes
    &&& discovery ==> r[2] is PublishDiscovery
}

/// The written-scene reactions.
fn scene_reactions(t: &Topics, scene: SceneRecord, discovery: bool) -> (r: Vec<Reaction>)
    ensures
        scene_written(r@, t, scene, discovery),
{
    let topic = t.scene(scene.id.as_str());
    let mut r = vec![
        Reaction::PublishRetained(topic, Payload::Scene(ScenePayload::from(scene))),
        Reaction::PublishScenes,
    ];
    if discovery {
        r.push(Reaction::PublishDiscovery);
    }
    r
}

/// Create a scene under the id `id`.
pub fn handle_create(
    store: &mut Store,
    t: &Topics,
    discovery: bool,
    id: String,
    cmd: &CreateSceneCommand,
) -> (r: Vec<Reaction>)
    requires
        old(store).wf(),
    ensures
        final(store).wf(),
        final(store).same_but_scenes(old(store)),
        final(store).layers == old(store).layers,
        final(store).scenes@.len() == old(store).scenes@.len() + 1 ==> {
            let s = final(store).scenes@.last();
            &&& final(store).scenes@ == old(store).scenes@.push(s)
            &&& s.id@ == id@
            &&& s.name@ == cmd.name@
            &&& scene_written(r@, t, s, discovery)
        },
        final(store).scenes@.len() != old(store).scenes@.len() + 1 ==> *final(store) == *old(store)
            && r@ == seq![Reaction::Rejected(StoreError::Db)],
        (id@ == active_id() || exists|i: int|
            0 <= i < old(store).scenes@.len() && old(store).scenes@[i].id@ == id@)
            <==> final(store).scenes@.len() != old(store).scenes@.len() + 1,
{
    match store.create_scene(id, cmd.name.as_str()) {
        Ok(scene) => scene_reactions(t, scene, discovery),
        Err(e) => vec![Reaction::Rejected(e)],
    }
}

/// Rename a scene.
pub fn handle_update(
    store: &mut Store,
    t: &Topics,
    discovery: bool,
    id: &str,
    cmd: &UpdateSceneCommand,
) -> (r: Vec<Reaction>)
    requires
        old(store).wf(),
    ensures
        final(store).wf(),
        final(store).same_but_scenes(old(store)),
        final(store).layers == old(store).layers,
        ({
            let found = exists|i: int|
                0 <= i < old(store).scenes@.len() && old(store).scenes@[i].id@ == id@;
            &&& !found ==> *final(store) == *old(store) && r@ == seq![
                Reaction::Rejected(StoreError::NotFound),
            ]
            &&& found ==> final(store).scene_table() == old(store).scene_table().map_values(
                |s: SceneView| renamed_scene(s, id@, cmd.name@),
            ) && exists|s: SceneRecord|
                s@ == (SceneView { id: id@, name: cmd.name@ }) && #[trigger] scene_written(
                    r@,
                    t,
                    s,
                    discovery,
                )
        }),
{
    match store.update_scene(id, cmd.name.as_str()) {
        Ok(scene) => {
            let ghost s = scene;
            let r = scene_reactions(t, scene, discovery);
            assert(scene_written(r@, t, s, discovery));
            r
        },
        Err(e) => vec![Reaction::Rejected(e)],
    }
}

/// Delete a scene (and its layers), clearing its retained record.
pub fn handle_delete(store: &mut Store, t: &Topics, discovery: bool, id: &str) -> (r: Vec<Reaction>)
    requires
        old(store).wf(),
    ensures
        final(store).wf(),
        final(store).same_but_scenes(old(store)),
        ({
            let found = exists|i: int|
                0 <= i < old(store).scenes@.len() && old(store).scenes@[i].id@ == id@;
            &&& !found ==> *final(store) == *old(store) && r@ == seq![
                Reaction::Rejected(StoreError::NotFound),
            ]
            &&& found ==> final(store).scenes@ == old(store).scenes@.filter(
                |s: SceneRecord| s.id@ != id@,
            ) && final(store).layers@ == old(store).layers@.filter(row_outside(id@)) && r@.len()
                == (if discovery {
                3int
            } else {
                2int
            }) && (r@[0] matches Reaction::PublishRetained(topic, p) && topic@ == t.prefix@
                + "/scenes/"@ + id@ && p is Null) && r@[1] is PublishScenes && (discovery
                ==> r@[2] is PublishDiscovery)
        }),
{
    match store.delete_scene(id) {
        Ok(()) => {
            let mut r = vec![
                Reaction::PublishRetained(t.scene(id), Payload::Null),
                Reaction::PublishScenes,
            ];
            if discovery {
                r.push(Reaction::PublishDiscovery);
            }
            r
        },
        Err(e) => vec![Reaction::Rejected(e)],
    }
}

/// What loading scene `id` into the active scene, the copies under the ids
/// `ids`, did to the store, and the reactions it gave.
pub open spec fn load_outcome(
    old: Store,
    new: Store,
    id: Seq<char>,
    ids: Seq<Seq<char>>,
    r: Seq<Reaction>,
) -> bool {
    let cleared = outside_scene(old.layer_table(), active_id());
    let src = read_layers(old.layer_table(), id);
    &&& new.wf()
    &&& new.same_but_layers(&old)
    &&& id == active_id() ==> new == old && r =~= seq![Reaction::Rejected(StoreError::Db)]
    &&& id != active_id() && lookup(old.scenes@, id) is None ==> new == old && r =~= seq![
        Reaction::Rejected(StoreError::NotFound),
    ]
    &&& (id != active_id() && lookup(old.scenes@, id) is Some) ==> {
        &&& ids_free(cleared, ids) ==> r =~= seq![
            Reaction::ReloadActive,
            Reaction::PublishActiveLayers,
        ] && new.layer_table() == cleared + copied_rows(src, active_id(), ids)
        &&& !ids_free(cleared, ids) ==> r =~= seq![Reaction::Rejected(StoreError::Db)]
            && new.layer_table() =~= cleared
    }
}

/// Load a scene into the active scene, the copies under the ids `ids`; the
/// light then rebuilds from it.
pub fn handle_load(store: &mut Store, id: &str, ids: &[String]) -> (r: Vec<Reaction>)
    requires
        old(store).wf(),
        ids@.len() == read_layers(old(store).layer_table(), id@).len(),
    ensures
        load_outcome(*old(store), *final(store), id@, string_views(ids@), r@),
{
    match store.load_scene_into_active(id, ids) {
        Ok(()) => vec![Reaction::ReloadActive, Reaction::PublishActiveLayers],
        Err(e) => vec![Reaction::Rejected(e)],
    }
}

/// Save the active layers into an existing scene, the copies under the ids
/// `ids`.
pub fn handle_save(store: &mut Store, id: &str, ids: &[String]) -> (r: Vec<Reaction>)
    requires
        old(store).wf(),
        ids@.len() == read_layers(old(store).layer_table(), active_id()).len(),
    ensures
        final(store).wf(),
        final(store).same_but_layers(old(store)),
        id@ == active_id() ==> *final(store) == *old(store) && r@ == seq![
            Reaction::Rejected(StoreError::NotFound),
        ],
        ({
            let cleared = outside_scene(old(store).layer_table(), id@);
            let src = read_layers(old(store).layer_table(), active_id());
            let w = string_views(ids@);
            let ok = src.len() == 0 || (old(store).scene_exists(id@) && ids_free(cleared, w));
            id@ != active_id() ==> {
                &&& ok ==> r@.len() == 0 && final(store).layer_table() == cleared + copied_rows(
                    src,
                    id@,
                    w,
                )
                &&& !ok ==> r@ == seq![Reaction::Rejected(StoreError::Db)]
                    && final(store).layer_table() == cleared
            }
        }),
{
    match store.overwrite_scene_from_active(id, ids) {
        Ok(()) => vec![],
        Err(e) => vec![Reaction::Rejected(e)],
    }
}

} // verus!
