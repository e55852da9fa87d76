//! Zones: named pixel ranges of the strip.
use vstd::prelude::*;

use super::order::{sort_by_name, sorted_by_name};
use super::{
    find_key, lookup, without_key, Keyed, Store, StoreError, ZoneRecord,
    ZoneView,
};

verus! {

/// The zone row after an update of `id` to the given values.
pub open spec fn updated_zone(
    z: ZoneView,
    id: Seq<char>,
    name: Seq<char>,
    start_pixel: u32,
    end_pixel: u32,
    transition_length: u32,
) -> ZoneView {
    if z.id == id {
        ZoneView { id: z.id, name, start_pixel, end_pixel, transition_length }
    } else {
        z
    }
}

impl Store {
    /// Only the zone table differs between `self` and `other`.
    pub open spec fn same_but_zones(&self, other: &Store) -> bool {
        &&& self.effects == other.effects
        &&& self.scenes == other.scenes
        &&& self.layers == other.layers
        &&& self.stack == other.stack
        &&& self.next_stack_position == other.next_stack_position
    }

    /// All zones, ordered by name.
    pub fn get_zones(&self) -> (r: Result<Vec<ZoneRecord>, StoreError>)
        ensures
            r matches Ok(v) && v@ == sorted_by_name(self.zones@),
    {
        Ok(sort_by_name(&self.zones))
    }

    /// The zone with id `id`.
    pub fn get_zone(&self, id: &str) -> (r: Result<ZoneRecord, StoreError>)
        ensures
            r == match lookup(self.zones@, id@) {
                Some(x) => Ok::<ZoneRecord, StoreError>(x),
                None => Err(StoreError::NotFound),
            },
    {
        match find_key(&self.zones, id) {
            Some(i) => Ok(self.zones[i].copy_row()),
            None => Err(StoreError::NotFound),
        }
    }

    /// Insert a zone under the id `id` (drawn at random by the caller). Fails
    /// with `Db` when the id is taken.
    pub fn create_zone(
        &mut self,
        id: String,
        name: &str,
        start_pixel: u32,
        end_pixel: u32,
        transition_length: u32,
    ) -> (r: Result<ZoneRecord, StoreError>)
        requires
            old(self).wf(),
        ensures
            final(self).wf(),
            final(self).same_but_zones(old(self)),
            (exists|i: int| 0 <= i < old(self).zones@.len() && old(self).zones@[i].id@ == id@) ==> r
                == Err::<ZoneRecord, StoreError>(StoreError::Db) && *final(self) == *old(self),
            (forall|i: int| 0 <= i < old(self).zones@.len() ==> old(self).zones@[i].id@ != id@)
                ==> (r matches Ok(z) && z@ == (ZoneView {
                id: id@,
                name: name@,
                start_pixel,
                end_pixel,
                transition_length,
            }) && final(self).zones@ == old(self).zones@.push(z)),
    {
        if find_key(&self.zones, id.as_str()).is_some() {
            return Err(StoreError::Db);
        }
        let z = ZoneRecord { id, name: name.to_owned(), start_pixel, end_pixel, transition_length };
        let out = z.copy_row();
        self.zones.push(z);
        Ok(out)
    }

    /// Set the fields of the zone with id `id`; `NotFound` when there is none.
    pub fn update_zone(
        &mut self,
        id: &str,
        name: &str,
        start_pixel: u32,
        end_pixel: u32,
        transition_length: u32,
    ) -> (r: Result<ZoneRecord, StoreError>)
        requires
            old(self).wf(),
        ensures
            final(self).wf(),
            final(self).same_but_zones(old(self)),
            r is Err <==> forall|i: int|
                0 <= i < old(self).zones@.len() ==> old(self).zones@[i].id@ != id@,
            r is Err ==> r == Err::<ZoneRecord, StoreError>(StoreError::NotFound) && *final(self)
                == *old(self),
            r is Ok ==> final(self).zone_table() == old(self).zone_table().map_values(
                |z: ZoneView| updated_zone(z, id@, name@, start_pixel, end_pixel, transition_length),
            ),
            r matches Ok(z) ==> z@ == (ZoneView {
                id: id@,
                name: name@,
                start_pixel,
                end_pixel,
                transition_length,
            }),
    {
        let k0 = match find_key(&self.zones, id) {
            Some(k) => k,
            None => {
                return Err(StoreError::NotFound);
            },
        };
        let ghost old_table = self.zone_table();
        assert(old_table[k0 as int].id == id@);
        let mut out: Vec<ZoneRecord> = Vec::new();
        let mut i: usize = 0;
        while i < self.zones.len()
            invariant
                i <= self.zones@.len(),
                old_table == self.zone_table(),
                out@.len() == i,
                forall|j: int|
                    0 <= j < i ==> #[trigger] out@[j]@ == updated_zone(
                        old_table[j],
                        id@,
                        name@,
                        start_pixel,
                        end_pixel,
                        transition_length,
                    ),
            decreases self.zones@.len() - i,
        {
            let row = &self.zones[i];
            if crate::text::str_eq(row.id.as_str(), id) {
                out.push(
                    ZoneRecord {
                        id: row.id.clone(),
                        name: name.to_owned(),
                        start_pixel,
                        end_pixel,
                        transition_length,
                    },
                );
            } else {
                out.push(row.copy_row());
            }
            i = i + 1;
        }
        self.zones = out;
        assert(self.zone_table() =~= old_table.map_values(
            |z: ZoneView| updated_zone(z, id@, name@, start_pixel, end_pixel, transition_length),
        ));
        assert(self.zone_table()[k0 as int] == self.zones@[k0 as int]@);
        assert(self.zones@[k0 as int].id@ == id@);
        let found = find_key(&self.zones, id);
        match found {
            Some(k) => Ok(self.zones[k].copy_row()),
            None => {
                assert(false);
                Err(StoreError::NotFound)
            },
        }
    }

    /// Remove the zone with id `id`; `NotFound` when there is none.
    pub fn delete_zone(&mut self, id: &str) -> (r: Result<(), StoreError>)
        requires
            old(self).wf(),
        ensures
            final(self).wf(),
            final(self).same_but_zones(old(self)),
            r is Err <==> forall|i: int|
                0 <= i < old(self).zones@.len() ==> old(self).zones@[i].id@ != id@,
            r is Err ==> r == Err::<(), StoreError>(StoreError::NotFound) && *final(self) == *old(
                self,
            ),
            final(self).zones@ == old(self).zones@.filter(|z: ZoneRecord| z.id@ != id@),
    {
        if find_key(&self.zones, id).is_none() {
            proof {
                lemma_filter_keeps_all(self.zones@, |z: ZoneRecord| z.id@ != id@);
            }
            return Err(StoreError::NotFound);
        }
        let ghost f1 = |t: ZoneRecord| t.key() != id@;
        let ghost f2 = |z: ZoneRecord| z.id@ != id@;
        assert(f1 =~= f2);
        assert(self.zones@.filter(f1) == self.zones@.filter(f2));
        self.zones = without_key(&self.zones, id);
        Ok(())
    }
}

/// Filtering by a predicate that every row meets keeps every row.
pub proof fn lemma_filter_keeps_all<T>(rows: Seq<T>, keep: spec_fn(T) -> bool)
    requires
        forall|i: int| 0 <= i < rows.len() ==> keep(rows[i]),
    ensures
        rows.filter(keep) == rows,
    decreases rows.len(),
{
    reveal(Seq::filter);
    if rows.len() > 0 {
        lemma_filter_keeps_all(rows.drop_last(), keep);
        assert(rows.drop_last().push(rows.last()) =~= rows);
    }
}

} // verus!
