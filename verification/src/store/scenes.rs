//! Named scenes. The active scene is a row of its own without a name: it is
//! never listed, renamed or deleted.
use vstd::prelude::*;

use super::order::{sort_by_name, sorted_by_name};
use super::zone::lemma_filter_keeps_all;
use super::{
    active_id, active_scene_id, find_key, lookup, without_key, Keyed, LayerRow, SceneRecord,
    SceneView, Store, StoreError,
};
use crate::text::str_eq;

verus! {

/// The scene row after renaming `id` to `name`.
pub open spec fn renamed_scene(s: SceneView, id: Seq<char>, name: Seq<char>) -> SceneView {
    if s.id == id {
        SceneView { id: s.id, name }
    } else {
        s
    }
}

/// Whether a layer row belongs to a scene other than `scene`.
pub open spec fn row_outside(scene: Seq<char>) -> spec_fn(LayerRow) -> bool {
    |l: LayerRow| l.scene_id@ != scene
}

/// The layer rows that do not belong to scene `scene_id`, in order.
pub fn layers_outside_scene(layers: &Vec<LayerRow>, scene_id: &str) -> (r: Vec<LayerRow>)
    ensures
        r@ == layers@.filter(row_outside(scene_id@)),
{
    let ghost pred = row_outside(scene_id@);
    let mut out: Vec<LayerRow> = Vec::new();
    let mut i: usize = 0;
    while i < layers.len()
        invariant
            i <= layers@.len(),
            pred == row_outside(scene_id@),
            out@ == layers@.take(i as int).filter(pred),
        decreases layers@.len() - i,
    {
        proof {
            reveal(Seq::filter);
            assert(layers@.take(i + 1).drop_last() =~= layers@.take(i as int));
        }
        if !str_eq(layers[i].scene_id.as_str(), scene_id) {
            out.push(layers[i].copy_row());
        }
        i = i + 1;
    }
    assert(layers@.take(layers@.len() as int) =~= layers@);
    out
}

impl Store {
    /// Only the scene and layer tables differ between `self` and `other`.
    pub open spec fn same_but_scenes(&self, other: &Store) -> bool {
        &&& self.zones == other.zones
        &&& self.effects == other.effects
        &&& self.stack == other.stack
        &&& self.next_stack_position == other.next_stack_position
    }

    /// All named scenes, ordered by name.
    pub fn get_scenes(&self) -> (r: Result<Vec<SceneRecord>, StoreError>)
        ensures
            r matches Ok(v) && v@ == sorted_by_name(self.scenes@),
    {
        Ok(sort_by_name(&self.scenes))
    }

    /// The scene with id `id`. The active scene has no name to read: asking for
    /// it fails with `Db`.
    pub fn get_scene(&self, id: &str) -> (r: Result<SceneRecord, StoreError>)
        ensures
            id@ == active_id() ==> r == Err::<SceneRecord, StoreError>(StoreError::Db),
            id@ != active_id() ==> r == match lookup(self.scenes@, id@) {
                Some(x) => Ok::<SceneRecord, StoreError>(x),
                None => Err(StoreError::NotFound),
            },
    {
        if str_eq(id, active_scene_id()) {
            return Err(StoreError::Db);
        }
        match find_key(&self.scenes, id) {
            Some(i) => Ok(self.scenes[i].copy_row()),
            None => Err(StoreError::NotFound),
        }
    }

    /// Insert a scene under the given id. Fails with `Db` when the id is taken
    /// (the active scene's id always is).
    pub fn create_scene(&mut self, id: String, name: &str) -> (r: Result<
        SceneRecord,
        StoreError,
    >)
        requires
            old(self).wf(),
        ensures
            final(self).wf(),
            final(self).same_but_scenes(old(self)),
            final(self).layers == old(self).layers,
            old(self).scene_exists(id@) ==> r == Err::<SceneRecord, StoreError>(StoreError::Db)
                && *final(self) == *old(self),
            !old(self).scene_exists(id@) ==> (r matches Ok(s) && s@ == (SceneView {
                id: id@,
                name: name@,
            }) && final(self).scenes@ == old(self).scenes@.push(s)),
    {
        if str_eq(id.as_str(), active_scene_id()) || find_key(&self.scenes, id.as_str()).is_some() {
            return Err(StoreError::Db);
        }
        let s = SceneRecord { id, name: name.to_owned() };
        let out = s.copy_row();
        self.scenes.push(s);
        Ok(out)
    }

    /// Rename the scene with id `id`; `NotFound` when there is none, and for
    /// the active scene.
    pub fn update_scene(&mut self, id: &str, name: &str) -> (r: Result<SceneRecord, StoreError>)
        requires
            old(self).wf(),
        ensures
            final(self).wf(),
            final(self).same_but_scenes(old(self)),
            final(self).layers == old(self).layers,
            r is Err <==> forall|i: int|
                0 <= i < old(self).scenes@.len() ==> old(self).scenes@[i].id@ != id@,
            r is Err ==> r == Err::<SceneRecord, StoreError>(StoreError::NotFound) && *final(self)
                == *old(self),
            r is Ok ==> final(self).scene_table() == old(self).scene_table().map_values(
                |s: SceneView| renamed_scene(s, id@, name@),
            ),
            r matches Ok(s) ==> s@ == (SceneView { id: id@, name: name@ }),
    {
        let k0 = match find_key(&self.scenes, id) {
            Some(k) => k,
            None => {
                return Err(StoreError::NotFound);
            },
        };
        let ghost old_table = self.scene_table();
        let ghost old_scenes = self.scenes@;
        assert(old_table[k0 as int].id == id@);
        let mut out: Vec<SceneRecord> = Vec::new();
        let mut i: usize = 0;
        while i < self.scenes.len()
            invariant
                i <= self.scenes@.len(),
                old_table == self.scene_table(),
                old_scenes == self.scenes@,
                out@.len() == i,
                forall|j: int|
                    0 <= j < i ==> #[trigger] out@[j]@ == renamed_scene(old_table[j], id@, name@),
                forall|j: int| 0 <= j < i ==> #[trigger] out@[j].id == old_scenes[j].id,
            decreases self.scenes@.len() - i,
        {
            let row = &self.scenes[i];
            if str_eq(row.id.as_str(), id) {
                out.push(SceneRecord { id: row.id.clone(), name: name.to_owned() });
            } else {
                out.push(row.copy_row());
            }
            i = i + 1;
        }
        self.scenes = out;
        assert(self.scene_table() =~= old_table.map_values(
            |s: SceneView| renamed_scene(s, id@, name@),
        ));
        assert(self.scene_table()[k0 as int] == self.scenes@[k0 as int]@);
        assert(self.scenes@[k0 as int].id@ == id@);
        match find_key(&self.scenes, id) {
            Some(k) => Ok(self.scenes[k].copy_row()),
            None => {
                assert(false);
                Err(StoreError::NotFound)
            },
        }
    }

    /// Remove the scene with id `id` together with its layers; `NotFound` when
    /// there is none, and for the active scene.
    pub fn delete_scene(&mut self, id: &str) -> (r: Result<(), StoreError>)
        requires
            old(self).wf(),
        ensures
            final(self).wf(),
            final(self).same_but_scenes(old(self)),
            r is Err <==> forall|i: int|
                0 <= i < old(self).scenes@.len() ==> old(self).scenes@[i].id@ != id@,
            r is Err ==> r == Err::<(), StoreError>(StoreError::NotFound) && *final(self) == *old(
                self,
            ),
            r is Ok ==> final(self).scenes@ == old(self).scenes@.filter(
                |s: SceneRecord| s.id@ != id@,
            ) && final(self).layers@ == old(self).layers@.filter(row_outside(id@)),
    {
        if find_key(&self.scenes, id).is_none() {
            return Err(StoreError::NotFound);
        }
        let ghost f1 = |t: SceneRecord| t.key() != id@;
        let ghost f2 = |s: SceneRecord| s.id@ != id@;
        assert(f1 =~= f2);
        assert(self.scenes@.filter(f1) == self.scenes@.filter(f2));
        let kept = without_key(&self.scenes, id);
        proof {
            assert forall|i: int| 0 <= i < kept@.len() implies #[trigger] kept@[i].id@
                != active_id() by {
                assert(kept@.contains(kept@[i]));
                self.scenes@.lemma_filter_contains_rev(f2, kept@[i]);
            }
        }
        self.scenes = kept;
        self.layers = layers_outside_scene(&self.layers, id);
        proof {
            super::active::lemma_outside_scene_views(old(self).layers@, id@);
            super::lemma_filter_keeps_ids_distinct(
                old(self).layer_table(),
                |l: super::LayerView| l.scene_id != id@,
            );
        }
        Ok(())
    }
}

} // verus!
