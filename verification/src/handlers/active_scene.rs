//! Choosing the active scene by name, as Home Assistant's scene selector
//! does: an empty name clears the active layers.
use vstd::prelude::*;
use vstd::utf8::{decode_utf8, valid_utf8};

use super::active_layers::handle_clear;
use super::scenes::{handle_load, load_outcome};
use super::{Payload, Reaction};
use crate::store::active::{copied_rows, outside_scene, string_views};
use crate::store::laws::{law_loaded_scene_reads_back, positions_fit};
use crate::store::layers::{lemma_read_layers_len, read_layers};
use crate::store::order::law_listed_in_name_order;
use crate::store::order::sorted_by_name;
use crate::store::{active_id, lemma_lookup_found, Keyed, SceneRecord, Store};
use crate::text::{str_eq, trim, trimmed, utf8_text};
use vstd::slice::slice_subrange;
use crate::topics::Topics;

verus! {

/// `k` is the first scene in `scenes` named `name`.
pub open spec fn first_scene_named(scenes: Seq<SceneRecord>, name: Seq<char>, k: int) -> bool {
    &&& 0 <= k < scenes.len()
    &&& scenes[k].name@ == name
    &&& forall|j: int| 0 <= j < k ==> (#[trigger] scenes[j]).name@ != name
}

/// The reaction that publishes `name` as the selected scene.
pub open spec fn announces(x: Reaction, t: &Topics, name: Seq<char>) -> bool {
    x matches Reaction::PublishRetained(topic, Payload::Text(v)) && topic@ == t.prefix@
        + "/active_scene/state"@ && v@ == name
}

/// The first `n` of the ids `ids`, those a load of `n` layers uses.
pub open spec fn ids_for(ids: Seq<Seq<char>>, n: nat) -> Seq<Seq<char>> {
    ids.take(n as int)
}

/// What selecting the scene named `name` did to the store, and its
/// reactions: the first such scene, in name order, is loaded into the active
/// scene, its copies under the first of the ids `ids`, and announced; an
/// empty name clears the active layers and announces no scene; an unknown
/// name changes nothing.
pub open spec fn scene_selected(
    old: Store,
    new: Store,
    t: &Topics,
    name: Seq<char>,
    ids: Seq<Seq<char>>,
    r: Seq<Reaction>,
) -> bool {
    let sorted = sorted_by_name(old.scenes@);
    &&& new.wf()
    &&& new.same_but_layers(&old)
    &&& name.len() == 0 ==> {
        &&& new.layer_table() =~= outside_scene(old.layer_table(), active_id())
        &&& r.len() == 3
        &&& r[0] is Halt
        &&& r[1] is PublishActiveLayers
        &&& announces(r[2], t, seq![])
    }
    &&& name.len() > 0 && (forall|k: int| 0 <= k < sorted.len() ==> (#[trigger] sorted[k]).name@ != name)
        ==> new == old && r.len() == 0
    &&& forall|k: int|
        name.len() > 0 && #[trigger] first_scene_named(sorted, name, k) ==> {
            &&& r.len() >= 1
            &&& load_outcome(
                old,
                new,
                sorted[k].id@,
                ids_for(ids, read_layers(old.layer_table(), sorted[k].id@).len()),
                r.drop_last(),
            )
            &&& announces(r.last(), t, name)
        }
}

/// Select the scene named `name`, as `scene_selected` says; `ids` holds at
/// least as many ids as the store has layers.
pub fn select_scene_by_name(store: &mut Store, t: &Topics, name: &str, ids: &[String]) -> (r: Vec<
    Reaction,
>)
    requires
        old(store).wf(),
        ids@.len() >= old(store).layers@.len(),
    ensures
        scene_selected(*old(store), *final(store), t, name@, string_views(ids@), r@),
{
    let state_topic = t.active_scene_state();
    if name.is_empty() {
        let mut r = handle_clear(store);
        r.push(Reaction::PublishRetained(state_topic, Payload::Text(String::new())));
        return r;
    }
    let scenes = match store.get_scenes() {
        Ok(s) => s,
        Err(_) => {
            return Vec::new();
        },
    };
    let mut k: usize = 0;
    while k < scenes.len()
        invariant
            k <= scenes@.len(),
            scenes@ == sorted_by_name(old(store).scenes@),
            *store == *old(store),
            old(store).wf(),
            name@.len() > 0,
            state_topic@ == t.prefix@ + "/active_scene/state"@,
            ids@.len() >= old(store).layers@.len(),
            forall|j: int| 0 <= j < k ==> (#[trigger] scenes@[j]).name@ != name@,
        decreases scenes@.len() - k,
    {
        if str_eq(scenes[k].name.as_str(), name) {
            let scene_id = scenes[k].id.as_str();
            let n = match store.get_layers(scene_id) {
                Ok(v) => v.len(),
                Err(_) => 0,
            };
            proof {
                lemma_read_layers_len(old(store).layer_table(), scene_id@);
                assert(n == read_layers(old(store).layer_table(), scene_id@).len());
            }
            let used = slice_subrange(ids, 0, n);
            assert(string_views(used@) =~= ids_for(string_views(ids@), n as nat));
            let mut r = handle_load(store, scene_id, used);
            let ghost loaded = r@;
            r.push(Reaction::PublishRetained(state_topic, Payload::Text(name.to_owned())));
            proof {
                assert(r@.drop_last() =~= loaded);
                assert forall|m: int|
                    #[trigger] first_scene_named(scenes@, name@, m) implies m == k by {
                    if m < k {
                        assert(scenes@[m].name@ != name@);
                    }
                    if k < m {
                        assert(scenes@[k as int].name@ == name@);
                    }
                }
            }
            return r;
        }
        k = k + 1;
    }
    Vec::new()
}

/// Handle a message on the scene selector: its body is the scene's name,
/// with white space around it ignored. A body that is not UTF-8 is ignored.
/// A loaded scene's copies take the first of the ids `ids`, which holds at
/// least as many ids as the store has layers.
pub fn handle_active_scene_set(
    store: &mut Store,
    t: &Topics,
    payload: &[u8],
    ids: &[String],
) -> (r: Vec<Reaction>)
    requires
        old(store).wf(),
        ids@.len() >= old(store).layers@.len(),
    ensures
        final(store).wf(),
        final(store).same_but_layers(old(store)),
        !valid_utf8(payload@) ==> *final(store) == *old(store) && r@.len() == 0,
        valid_utf8(payload@) ==> scene_selected(
            *old(store),
            *final(store),
            t,
            trimmed(decode_utf8(payload@)),
            string_views(ids@),
            r@,
        ),
{
    let text = match utf8_text(payload) {
        Some(s) => s,
        None => {
            return Vec::new();
        },
    };
    let name = trim(text);
    select_scene_by_name(store, t, name, ids)
}

/// Selecting a scene by its name, when the load succeeds, makes the active
/// layers, as read back, that scene's layers in the same order under new ids.
pub proof fn law_selected_scene_becomes_active(
    old: Store,
    new: Store,
    t: &Topics,
    name: Seq<char>,
    ids: Seq<Seq<char>>,
    r: Seq<Reaction>,
    k: int,
)
    requires
        old.wf(),
        scene_selected(old, new, t, name, ids, r),
        ids.len() >= old.layers@.len(),
        name.len() > 0,
        first_scene_named(sorted_by_name(old.scenes@), name, k),
        r.drop_last() == seq![Reaction::ReloadActive, Reaction::PublishActiveLayers],
        positions_fit(old.layer_table(), sorted_by_name(old.scenes@)[k].id@),
    ensures
        ({
            let src = read_layers(old.layer_table(), sorted_by_name(old.scenes@)[k].id@);
            read_layers(new.layer_table(), active_id()) == copied_rows(
                src,
                active_id(),
                ids_for(ids, src.len()),
            )
        }),
{
    let sorted = sorted_by_name(old.scenes@);
    let id = sorted[k].id@;
    law_listed_in_name_order(old.scenes@);
    assert(exists|i: int| 0 <= i < old.scenes@.len() && #[trigger] old.scenes@[i] == sorted[k]);
    let i = choose|i: int| 0 <= i < old.scenes@.len() && #[trigger] old.scenes@[i] == sorted[k];
    assert(old.scenes@[i].id@ != active_id());
    lemma_lookup_found(old.scenes@, id);
    assert(old.scenes@[i].key() == id);
    let d = r.drop_last();
    assert(!(d =~= seq![Reaction::Rejected(crate::store::StoreError::Db)])) by {
        assert(d[0] is ReloadActive);
    }
    let cleared = outside_scene(old.layer_table(), active_id());
    let src = read_layers(old.layer_table(), id);
    lemma_read_layers_len(old.layer_table(), id);
    law_loaded_scene_reads_back(old.layer_table(), id, ids_for(ids, src.len()));
}

} // verus!
