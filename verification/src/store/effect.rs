//! User effects: named scripts with parameter definitions (held as JSON).
use vstd::prelude::*;

use super::order::{sort_by_name, sorted_by_name};
use super::zone::lemma_filter_keeps_all;
use super::{
    find_key, lookup, without_key, EffectRecord, EffectView, Keyed, Store,
    StoreError,
};

verus! {

/// The effect row after an update of `id` to the given values.
pub open spec fn updated_effect(
    e: EffectView,
    id: Seq<char>,
    name: Seq<char>,
    script: Seq<char>,
    params: Seq<char>,
) -> EffectView {
    if e.id == id {
        EffectView { id: e.id, name, script, params }
    } else {
        e
    }
}

impl Store {
    /// Only the effect table differs between `self` and `other`.
    pub open spec fn same_but_effects(&self, other: &Store) -> bool {
        &&& self.zones == other.zones
        &&& self.scenes == other.scenes
        &&& self.layers == other.layers
        &&& self.stack == other.stack
        &&& self.next_stack_position == other.next_stack_position
    }

    /// All user effects, ordered by name.
    pub fn get_effects(&self) -> (r: Result<Vec<EffectRecord>, StoreError>)
        ensures
            r matches Ok(v) && v@ == sorted_by_name(self.effects@),
    {
        Ok(sort_by_name(&self.effects))
    }

    /// The effect with id `id`.
    pub fn get_effect(&self, id: &str) -> (r: Result<EffectRecord, StoreError>)
        ensures
            r == match lookup(self.effects@, id@) {
                Some(x) => Ok::<EffectRecord, StoreError>(x),
                None => Err(StoreError::NotFound),
            },
    {
        match find_key(&self.effects, id) {
            Some(i) => Ok(self.effects[i].copy_row()),
            None => Err(StoreError::NotFound),
        }
    }

    /// Insert an effect under the given id. Fails with `Db` when the id is taken.
    pub fn create_effect(&mut self, id: String, name: &str, script: &str, params: &str) -> (r:
        Result<EffectRecord, StoreError>)
        requires
            old(self).wf(),
        ensures
            final(self).wf(),
            final(self).same_but_effects(old(self)),
            (exists|i: int| 0 <= i < old(self).effects@.len() && old(self).effects@[i].id@ == id@)
                ==> r == Err::<EffectRecord, StoreError>(StoreError::Db) && *final(self) == *old(
                self,
            ),
            (forall|i: int| 0 <= i < old(self).effects@.len() ==> old(self).effects@[i].id@ != id@)
                ==> (r matches Ok(e) && e@ == (EffectView {
                id: id@,
                name: name@,
                script: script@,
                params: params@,
            }) && final(self).effects@ == old(self).effects@.push(e)),
    {
        if find_key(&self.effects, id.as_str()).is_some() {
            return Err(StoreError::Db);
        }
        let e = EffectRecord {
            id,
            name: name.to_owned(),
            script: script.to_owned(),
            params: params.to_owned(),
        };
        let out = e.copy_row();
        self.effects.push(e);
        Ok(out)
    }

    /// Set the fields of the effect with id `id`; `NotFound` when there is none.
    pub fn update_effect(&mut self, id: &str, name: &str, script: &str, params: &str) -> (r: Result<
        EffectRecord,
        StoreError,
    >)
        requires
            old(self).wf(),
        ensures
            final(self).wf(),
            final(self).same_but_effects(old(self)),
            r is Err <==> forall|i: int|
                0 <= i < old(self).effects@.len() ==> old(self).effects@[i].id@ != id@,
            r is Err ==> r == Err::<EffectRecord, StoreError>(StoreError::NotFound) && *final(self)
                == *old(self),
            r is Ok ==> final(self).effect_table() == old(self).effect_table().map_values(
                |e: EffectView| updated_effect(e, id@, name@, script@, params@),
            ),
            r matches Ok(e) ==> e@ == (EffectView {
                id: id@,
                name: name@,
                script: script@,
                params: params@,
            }),
    {
        let k0 = match find_key(&self.effects, id) {
            Some(k) => k,
            None => {
                return Err(StoreError::NotFound);
            },
        };
        let ghost old_table = self.effect_table();
        assert(old_table[k0 as int].id == id@);
        let mut out: Vec<EffectRecord> = Vec::new();
        let mut i: usize = 0;
        while i < self.effects.len()
            invariant
                i <= self.effects@.len(),
                old_table == self.effect_table(),
                out@.len() == i,
                forall|j: int|
                    0 <= j < i ==> #[trigger] out@[j]@ == updated_effect(
                        old_table[j],
                        id@,
                        name@,
                        script@,
                        params@,
                    ),
            decreases self.effects@.len() - i,
        {
            let row = &self.effects[i];
            if crate::text::str_eq(row.id.as_str(), id) {
                out.push(
                    EffectRecord {
                        id: row.id.clone(),
                        name: name.to_owned(),
                        script: script.to_owned(),
                        params: params.to_owned(),
                    },
                );
            } else {
                out.push(row.copy_row());
            }
            i = i + 1;
        }
        self.effects = out;
        assert(self.effect_table() =~= old_table.map_values(
            |e: EffectView| updated_effect(e, id@, name@, script@, params@),
        ));
        assert(self.effect_table()[k0 as int] == self.effects@[k0 as int]@);
        assert(self.effects@[k0 as int].id@ == id@);
        match find_key(&self.effects, id) {
            Some(k) => Ok(self.effects[k].copy_row()),
            None => {
                assert(false);
                Err(StoreError::NotFound)
            },
        }
    }

    /// Remove the effect with id `id`; `NotFound` when there is none.
    pub fn delete_effect(&mut self, id: &str) -> (r: Result<(), StoreError>)
        requires
            old(self).wf(),
        ensures
            final(self).wf(),
            final(self).same_but_effects(old(self)),
            r is Err <==> forall|i: int|
                0 <= i < old(self).effects@.len() ==> old(self).effects@[i].id@ != id@,
            r is Err ==> r == Err::<(), StoreError>(StoreError::NotFound) && *final(self) == *old(
                self,
            ),
            final(self).effects@ == old(self).effects@.filter(|e: EffectRecord| e.id@ != id@),
    {
        if find_key(&self.effects, id).is_none() {
            proof {
                lemma_filter_keeps_all(self.effects@, |e: EffectRecord| e.id@ != id@);
            }
            return Err(StoreError::NotFound);
        }
        let ghost f1 = |t: EffectRecord| t.key() != id@;
        let ghost f2 = |e: EffectRecord| e.id@ != id@;
        assert(f1 =~= f2);
        assert(self.effects@.filter(f1) == self.effects@.filter(f2));
        self.effects = without_key(&self.effects, id);
        Ok(())
    }
}

} // verus!
