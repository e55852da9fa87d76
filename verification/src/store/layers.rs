//! The layers of scenes, including the active scene: reading them in
//! position order, adding, changing, removing and reordering them, and copying
//! a scene's layers into another scene.
use vstd::prelude::*;

use super::order::{lemma_position_order_is_permutation, position_order, position_order_of};
use crate::model::BlendMode as _;
use super::{active_id, active_scene_id, find_key, BlendMode, LayerRecord, LayerRow, LayerView, Store, StoreError};
use crate::text::str_eq;

verus! {

/// The rows of scene `scene`, in table order.
pub open spec fn in_scene(rows: Seq<LayerView>, scene: Seq<char>) -> Seq<LayerView> {
    rows.filter(|l: LayerView| l.scene_id == scene)
}

/// The layers of scene `scene` as read back: ordered by position, equal
/// positions in table order.
pub open spec fn read_layers(rows: Seq<LayerView>, scene: Seq<char>) -> Seq<LayerView> {
    let s = in_scene(rows, scene);
    position_order(s.map_values(|l: LayerView| l.position), s.len()).map_values(
        |i: int| LayerRecord::of_row(s[i]),
    )
}

/// A scene never has more layers than the table has rows.
pub proof fn lemma_read_layers_len(rows: Seq<LayerView>, scene: Seq<char>)
    ensures
        read_layers(rows, scene).len() <= rows.len(),
{
    let s = in_scene(rows, scene);
    rows.lemma_filter_len(|l: LayerView| l.scene_id == scene);
    lemma_position_order_is_permutation(s.map_values(|l: LayerView| l.position), s.len());
}

/// The record read back from a row.
pub fn record_of(row: &LayerRow) -> (r: LayerRecord)
    ensures
        r.as_view() == LayerRecord::of_row(row@),
{
    LayerRecord {
        id: row.id.clone(),
        scene_id: row.scene_id.clone(),
        effect_id: row.effect_id.clone(),
        zone_id: row.zone_id.clone(),
        blend_mode: row.blend_mode,
        params: row.params.clone(),
        enabled: row.enabled,
        position: row.position as u32,
    }
}

/// The rows of scene `scene`, in table order.
pub fn rows_in_scene(layers: &Vec<LayerRow>, scene_id: &str) -> (r: Vec<LayerRow>)
    ensures
        r@.map_values(|l: LayerRow| l@) == in_scene(
            layers@.map_values(|l: LayerRow| l@),
            scene_id@,
        ),
{
    let ghost table = layers@.map_values(|l: LayerRow| l@);
    let ghost pred = |l: LayerView| l.scene_id == scene_id@;
    let mut out: Vec<LayerRow> = Vec::new();
    let mut i: usize = 0;
    while i < layers.len()
        invariant
            i <= layers@.len(),
            table == layers@.map_values(|l: LayerRow| l@),
            pred == (|l: LayerView| l.scene_id == scene_id@),
            out@.map_values(|l: LayerRow| l@) == table.take(i as int).filter(pred),
        decreases layers@.len() - i,
    {
        proof {
            reveal(Seq::filter);
            assert(table.take(i + 1).drop_last() =~= table.take(i as int));
            assert(table.take(i + 1).last() == layers@[i as int]@);
        }
        if str_eq(layers[i].scene_id.as_str(), scene_id) {
            let ghost before = out@;
            out.push(crate::store::Keyed::copy_row(&layers[i]));
            assert(out@.map_values(|l: LayerRow| l@) =~= before.map_values(|l: LayerRow| l@).push(
                layers@[i as int]@,
            ));
        }
        i = i + 1;
    }
    assert(table.take(table.len() as int) =~= table);
    out
}

/// The layers of scene `scene_id`, in position order.
pub fn ordered_layers(layers: &Vec<LayerRow>, scene_id: &str) -> (r: Vec<LayerRecord>)
    ensures
        r@.map_values(|l: LayerRecord| l.as_view()) == read_layers(
            layers@.map_values(|l: LayerRow| l@),
            scene_id@,
        ),
{
    let rows = rows_in_scene(layers, scene_id);
    let ghost s = rows@.map_values(|l: LayerRow| l@);
    let mut keys: Vec<i64> = Vec::new();
    let mut i: usize = 0;
    while i < rows.len()
        invariant
            i <= rows@.len(),
            s == rows@.map_values(|l: LayerRow| l@),
            keys@ =~= s.take(i as int).map_values(|l: LayerView| l.position),
        decreases rows@.len() - i,
    {
        keys.push(rows[i].position);
        i = i + 1;
    }
    assert(s.take(s.len() as int) =~= s);
    let order = position_order_of(&keys);
    let ghost o = position_order(keys@, keys@.len());
    proof {
        super::order::lemma_position_order_is_permutation(keys@, keys@.len());
    }
    let mut out: Vec<LayerRecord> = Vec::new();
    let mut j: usize = 0;
    while j < order.len()
        invariant
            s == rows@.map_values(|l: LayerRow| l@),
            keys@ == s.map_values(|l: LayerView| l.position),
            o == order@.map_values(|i: usize| i as int),
            o.len() == rows@.len(),
            forall|x: int| 0 <= x < o.len() ==> 0 <= #[trigger] o[x] < rows@.len(),
            j <= order@.len(),
            out@.map_values(|l: LayerRecord| l.as_view()) =~= o.take(j as int).map_values(
                |i: int| LayerRecord::of_row(s[i]),
            ),
        decreases order@.len() - j,
    {
        assert(o[j as int] == order@[j as int] as int);
        let ghost before = out@;
        out.push(record_of(&rows[order[j]]));
        assert(out@.map_values(|l: LayerRecord| l.as_view()) =~= before.map_values(
            |l: LayerRecord| l.as_view(),
        ).push(LayerRecord::of_row(s[o[j as int]])));
        assert(o.take(j + 1) =~= o.take(j as int).push(o[j as int]));
        j = j + 1;
    }
    assert(o.take(o.len() as int) =~= o);
    out
}

impl Store {
    /// The layers of scene `scene_id`, in position order.
    pub fn get_layers(&self, scene_id: &str) -> (r: Result<Vec<LayerRecord>, StoreError>)
        ensures
            r matches Ok(v) && v@.map_values(|l: LayerRecord| l.as_view()) == read_layers(
                self.layer_table(),
                scene_id@,
            ),
    {
        Ok(ordered_layers(&self.layers, scene_id))
    }

    /// The first layer row with id `id`, in whichever scene.
    #[verifier::spinoff_prover]
    pub fn get_layer(&self, id: &str) -> (r: Result<LayerRecord, StoreError>)
        ensures
            r matches Ok(l) ==> exists|i: int|
                0 <= i < self.layers@.len() && self.layers@[i].id@ == id@ && (forall|j: int|
                    0 <= j < i ==> self.layers@[j].id@ != id@) && l.as_view() == LayerRecord::of_row(
                    self.layers@[i]@,
                ),
            r is Err <==> forall|i: int|
                0 <= i < self.layers@.len() ==> self.layers@[i].id@ != id@,
            r is Err ==> r == Err::<LayerRecord, StoreError>(StoreError::NotFound),
    {
        match super::find_key(&self.layers, id) {
            Some(i) => Ok(record_of(&self.layers[i])),
            None => Err(StoreError::NotFound),
        }
    }

    /// The first layer with id `id` in scene `scene_id`.
    pub fn get_layer_in_scene(&self, id: &str, scene_id: &str) -> (r: Result<
        LayerRecord,
        StoreError,
    >)
        ensures
            r matches Ok(l) ==> exists|i: int|
                0 <= i < self.layers@.len() && self.layers@[i].id@ == id@
                    && self.layers@[i].scene_id@ == scene_id@ && (forall|j: int|
                    0 <= j < i ==> !(self.layers@[j].id@ == id@ && self.layers@[j].scene_id@
                        == scene_id@)) && l.as_view() == LayerRecord::of_row(self.layers@[i]@),
            r is Err <==> forall|i: int|
                0 <= i < self.layers@.len() ==> !(self.layers@[i].id@ == id@
                    && self.layers@[i].scene_id@ == scene_id@),
            r is Err ==> r == Err::<LayerRecord, StoreError>(StoreError::NotFound),
    {
        let mut i: usize = 0;
        while i < self.layers.len()
            invariant
                i <= self.layers@.len(),
                forall|j: int|
                    0 <= j < i ==> !(self.layers@[j].id@ == id@ && self.layers@[j].scene_id@
                        == scene_id@),
            decreases self.layers@.len() - i,
        {
            if str_eq(self.layers[i].id.as_str(), id) && str_eq(
                self.layers[i].scene_id.as_str(),
                scene_id,
            ) {
                return Ok(record_of(&self.layers[i]));
            }
            i = i + 1;
        }
        Err(StoreError::NotFound)
    }
}


/// The greatest position among the rows of scene `scene`, if it has any.
pub open spec fn max_position(rows: Seq<LayerView>, scene: Seq<char>) -> Option<i64>
    decreases rows.len(),
{
    if rows.len() == 0 {
        None
    } else {
        let m = max_position(rows.drop_last(), scene);
        let l = rows.last();
        if l.scene_id == scene {
            match m {
                None => Some(l.position),
                Some(p) => if l.position > p {
                    Some(l.position)
                } else {
                    Some(p)
                },
            }
        } else {
            m
        }
    }
}

/// The position a layer added to scene `scene` gets: one past the greatest,
/// or 0 for the first.
pub open spec fn next_position(rows: Seq<LayerView>, scene: Seq<char>) -> int {
    match max_position(rows, scene) {
        None => 0,
        Some(p) => p + 1,
    }
}

/// The layer row after an update of layer `id` of scene `scene`.
pub open spec fn updated_layer(
    l: LayerView,
    id: Seq<char>,
    scene: Seq<char>,
    zone_id: Seq<char>,
    enabled: bool,
    blend_mode: BlendMode,
    params: Seq<char>,
) -> LayerView {
    if l.id == id && l.scene_id == scene {
        LayerView { zone_id, enabled, blend_mode, params, ..l }
    } else {
        l
    }
}

/// The rows after moving layer `id` of scene `scene` to `position`.
pub open spec fn moved(rows: Seq<LayerView>, scene: Seq<char>, id: Seq<char>, position: i64) -> Seq<
    LayerView,
> {
    rows.map_values(
        |l: LayerView|
            if l.id == id && l.scene_id == scene {
                LayerView { position, ..l }
            } else {
                l
            },
    )
}

/// The rows after giving the first `n` of `ids` their index as position, in
/// order: an id that occurs twice ends at its last index.
pub open spec fn reordered(rows: Seq<LayerView>, scene: Seq<char>, ids: Seq<Seq<char>>, n: nat) -> Seq<
    LayerView,
>
    decreases n,
{
    if n == 0 {
        rows
    } else {
        moved(reordered(rows, scene, ids, (n - 1) as nat), scene, ids[n - 1], (n - 1) as i64)
    }
}

/// Reordering changes positions only: every row keeps its place and its id.
pub proof fn lemma_reordered_keeps_ids(rows: Seq<LayerView>, scene: Seq<char>, ids: Seq<Seq<char>>, n: nat)
    ensures
        reordered(rows, scene, ids, n).len() == rows.len(),
        forall|i: int| 0 <= i < rows.len() ==> #[trigger] reordered(rows, scene, ids, n)[i].id == rows[i].id,
    decreases n,
{
    if n > 0 {
        lemma_reordered_keeps_ids(rows, scene, ids, (n - 1) as nat);
    }
}

/// Whether `id` is the id of some row of scene `scene`.
pub open spec fn has_layer(rows: Seq<LayerView>, scene: Seq<char>, id: Seq<char>) -> bool {
    exists|i: int| 0 <= i < rows.len() && rows[i].id == id && rows[i].scene_id == scene
}

impl Store {
    /// Only the layer table differs between `self` and `other`.
    pub open spec fn same_but_layers(&self, other: &Store) -> bool {
        &&& self.zones == other.zones
        &&& self.effects == other.effects
        &&& self.scenes == other.scenes
        &&& self.stack == other.stack
        &&& self.next_stack_position == other.next_stack_position
    }

    /// Whether a scene with id `id` exists.
    pub fn has_scene(&self, id: &str) -> (r: bool)
        ensures
            r == self.scene_exists(id@),
    {
        str_eq(id, active_scene_id()) || find_key(&self.scenes, id).is_some()
    }

    /// Whether some layer row has id `id`.
    pub fn has_layer_id(&self, id: &str) -> (r: bool)
        ensures
            r == exists|i: int| 0 <= i < self.layers@.len() && self.layers@[i].id@ == id@,
    {
        find_key(&self.layers, id).is_some()
    }

    /// The greatest position of scene `scene_id`'s layers.
    fn max_layer_position(&self, scene_id: &str) -> (r: Option<i64>)
        ensures
            r == max_position(self.layer_table(), scene_id@),
    {
        let ghost table = self.layer_table();
        let mut m: Option<i64> = None;
        let mut i: usize = 0;
        while i < self.layers.len()
            invariant
                i <= self.layers@.len(),
                table == self.layer_table(),
                m == max_position(table.take(i as int), scene_id@),
            decreases self.layers@.len() - i,
        {
            proof {
                assert(table.take(i + 1).drop_last() =~= table.take(i as int));
                assert(table.take(i + 1).last() == self.layers@[i as int]@);
            }
            let row = &self.layers[i];
            if str_eq(row.scene_id.as_str(), scene_id) {
                m = match m {
                    None => Some(row.position),
                    Some(p) => if row.position > p {
                        Some(row.position)
                    } else {
                        Some(p)
                    },
                };
            }
            i = i + 1;
        }
        assert(table.take(table.len() as int) =~= table);
        m
    }

    /// Add a layer under the given id at the end of scene `scene_id`, enabled.
    /// Fails with `Db` when the scene does not exist, the id is taken, or the
    /// next position does not fit in 64 bits.
    pub fn add_layer(
        &mut self,
        id: String,
        scene_id: &str,
        effect_id: &str,
        zone_id: &str,
        blend_mode: BlendMode,
        params: &str,
    ) -> (r: Result<LayerRecord, StoreError>)
        requires
            old(self).wf(),
        ensures
            final(self).wf(),
            final(self).same_but_layers(old(self)),
            ({
                let ok = old(self).scene_exists(scene_id@) && (forall|i: int|
                    0 <= i < old(self).layers@.len() ==> old(self).layers@[i].id@ != id@)
                    && next_position(old(self).layer_table(), scene_id@) <= i64::MAX;
                let row = LayerView {
                    id: id@,
                    scene_id: scene_id@,
                    effect_id: effect_id@,
                    zone_id: zone_id@,
                    blend_mode,
                    params: params@,
                    enabled: true,
                    position: next_position(old(self).layer_table(), scene_id@) as i64,
                };
                &&& !ok ==> r == Err::<LayerRecord, StoreError>(StoreError::Db) && *final(self)
                    == *old(self)
                &&& ok ==> (r matches Ok(l) && l.as_view() == LayerRecord::of_row(row)
                    && final(self).layer_table() == old(self).layer_table().push(row))
            }),
    {
        let position = match self.max_layer_position(scene_id) {
            None => 0i64,
            Some(p) => {
                if p == i64::MAX {
                    return Err(StoreError::Db);
                }
                p + 1
            },
        };
        if !self.has_scene(scene_id) || self.has_layer_id(id.as_str()) {
            return Err(StoreError::Db);
        }
        let row = LayerRow {
            id,
            scene_id: scene_id.to_owned(),
            effect_id: effect_id.to_owned(),
            zone_id: zone_id.to_owned(),
            blend_mode,
            params: params.to_owned(),
            enabled: true,
            position,
        };
        let out = record_of(&row);
        let ghost before = self.layers@;
        self.layers.push(row);
        assert(self.layer_table() =~= before.map_values(|l: LayerRow| l@).push(row@));
        Ok(out)
    }

    /// Set the zone, the enabled flag, the blend mode and the parameters of
    /// layer `id` of scene `scene_id`, and read the layer back by its id;
    /// `NotFound` when the scene has no such layer.
    pub fn update_layer(
        &mut self,
        id: &str,
        scene_id: &str,
        zone_id: &str,
        enabled: bool,
        blend_mode: BlendMode,
        params: &str,
    ) -> (r: Result<LayerRecord, StoreError>)
        requires
            old(self).wf(),
        ensures
            final(self).wf(),
            final(self).same_but_layers(old(self)),
            r is Err <==> !has_layer(old(self).layer_table(), scene_id@, id@),
            r is Err ==> r == Err::<LayerRecord, StoreError>(StoreError::NotFound) && *final(self)
                == *old(self),
            r is Ok ==> final(self).layer_table() == old(self).layer_table().map_values(
                |l: LayerView| updated_layer(l, id@, scene_id@, zone_id@, enabled, blend_mode, params@),
            ),
            r matches Ok(l) ==> exists|i: int|
                0 <= i < old(self).layers@.len() && old(self).layer_table()[i].id == id@
                    && old(self).layer_table()[i].scene_id == scene_id@ && l.as_view()
                    == LayerRecord::of_row(
                    updated_layer(
                        old(self).layer_table()[i],
                        id@,
                        scene_id@,
                        zone_id@,
                        enabled,
                        blend_mode,
                        params@,
                    ),
                ),
    {
        let ghost old_table = self.layer_table();
        let mut out: Vec<LayerRow> = Vec::new();
        let mut found: Option<usize> = None;
        let mut i: usize = 0;
        while i < self.layers.len()
            invariant
                i <= self.layers@.len(),
                old_table == self.layer_table(),
                out@.len() == i,
                forall|j: int|
                    0 <= j < i ==> #[trigger] out@[j]@ == updated_layer(
                        old_table[j],
                        id@,
                        scene_id@,
                        zone_id@,
                        enabled,
                        blend_mode,
                        params@,
                    ),
                found matches Some(k) ==> k < i && old_table[k as int].id == id@ && old_table[k as int].scene_id == scene_id@,
                found is None ==> forall|j: int| 0 <= j < i ==> !(old_table[j].id == id@ && old_table[j].scene_id == scene_id@),
            decreases self.layers@.len() - i,
        {
            let row = &self.layers[i];
            assert(old_table[i as int] == row@);
            if str_eq(row.id.as_str(), id) && str_eq(row.scene_id.as_str(), scene_id) {
                out.push(
                    LayerRow {
                        id: row.id.clone(),
                        scene_id: row.scene_id.clone(),
                        effect_id: row.effect_id.clone(),
                        zone_id: zone_id.to_owned(),
                        blend_mode,
                        params: params.to_owned(),
                        enabled,
                        position: row.position,
                    },
                );
                found = Some(i);
            } else {
                out.push(super::Keyed::copy_row(row));
            }
            i = i + 1;
        }
        let k0 = match found {
            Some(k) => k,
            None => {
                return Err(StoreError::NotFound);
            },
        };
        self.layers = out;
        assert(self.layer_table() =~= old_table.map_values(
            |l: LayerView| updated_layer(l, id@, scene_id@, zone_id@, enabled, blend_mode, params@),
        ));
        assert(self.layers@[k0 as int]@ == updated_layer(old_table[k0 as int], id@, scene_id@, zone_id@, enabled, blend_mode, params@));
        assert(self.layers@[k0 as int].id@ == id@);
        proof {
            super::lemma_same_ids_keep_distinct(old_table, self.layer_table());
        }
        match find_key(&self.layers, id) {
            Some(k) => {
                proof {
                    assert(self.layer_table()[k as int].id == id@);
                    assert(self.layer_table()[k0 as int].id == id@);
                    if k != k0 {
                        assert(false);
                    }
                }
                Ok(record_of(&self.layers[k]))
            },
            None => {
                assert(false);
                Err(StoreError::NotFound)
            },
        }
    }

    /// Remove layer `id` of scene `scene_id`; `NotFound` when there is none.
    pub fn remove_layer(&mut self, id: &str, scene_id: &str) -> (r: Result<(), StoreError>)
        requires
            old(self).wf(),
        ensures
            final(self).wf(),
            final(self).same_but_layers(old(self)),
            r is Err <==> !has_layer(old(self).layer_table(), scene_id@, id@),
            r is Err ==> r == Err::<(), StoreError>(StoreError::NotFound) && *final(self) == *old(
                self,
            ),
            r is Ok ==> final(self).layer_table() == old(self).layer_table().filter(
                |l: LayerView| !(l.id == id@ && l.scene_id == scene_id@),
            ),
    {
        let ghost table = self.layer_table();
        let ghost pred = |l: LayerView| !(l.id == id@ && l.scene_id == scene_id@);
        let mut out: Vec<LayerRow> = Vec::new();
        let mut hit = false;
        let mut i: usize = 0;
        while i < self.layers.len()
            invariant
                i <= self.layers@.len(),
                table == self.layer_table(),
                pred == (|l: LayerView| !(l.id == id@ && l.scene_id == scene_id@)),
                out@.map_values(|l: LayerRow| l@) == table.take(i as int).filter(pred),
                hit == exists|j: int| 0 <= j < i && !pred(table[j]),
            decreases self.layers@.len() - i,
        {
            proof {
                reveal(Seq::filter);
                assert(table.take(i + 1).drop_last() =~= table.take(i as int));
                assert(table.take(i + 1).last() == self.layers@[i as int]@);
            }
            let row = &self.layers[i];
            if str_eq(row.id.as_str(), id) && str_eq(row.scene_id.as_str(), scene_id) {
                hit = true;
            } else {
                let ghost before = out@;
                out.push(super::Keyed::copy_row(row));
                assert(out@.map_values(|l: LayerRow| l@) =~= before.map_values(|l: LayerRow| l@).push(row@));
            }
            i = i + 1;
        }
        assert(table.take(table.len() as int) =~= table);
        if !hit {
            return Err(StoreError::NotFound);
        }
        self.layers = out;
        proof {
            super::lemma_filter_keeps_ids_distinct(table, pred);
        }
        Ok(())
    }

    /// Remove every layer of scene `scene_id`.
    pub fn clear_layers(&mut self, scene_id: &str) -> (r: Result<(), StoreError>)
        requires
            old(self).wf(),
        ensures
            final(self).wf(),
            final(self).same_but_layers(old(self)),
            r is Ok,
            final(self).layers@ == old(self).layers@.filter(super::scenes::row_outside(scene_id@)),
    {
        self.layers = super::scenes::layers_outside_scene(&self.layers, scene_id);
        proof {
            super::active::lemma_outside_scene_views(old(self).layers@, scene_id@);
            super::lemma_filter_keeps_ids_distinct(
                old(self).layer_table(),
                |l: LayerView| l.scene_id != scene_id@,
            );
        }
        Ok(())
    }

    /// Give the layers of scene `scene_id` named in `ordered_ids` their index
    /// in that list as position. Nothing happens for an empty list; `NotFound`,
    /// and no change, when a listed id is not a layer of the scene.
    pub fn reorder_layers(&mut self, scene_id: &str, ordered_ids: &[String]) -> (r: Result<
        (),
        StoreError,
    >)
        requires
            old(self).wf(),
        ensures
            final(self).wf(),
            final(self).same_but_layers(old(self)),
            ordered_ids@.len() == 0 ==> r is Ok && *final(self) == *old(self),
            ordered_ids@.len() > 0 ==> {
                let all_known = forall|k: int|
                    0 <= k < ordered_ids@.len() ==> has_layer(
                        old(self).layer_table(),
                        scene_id@,
                        #[trigger] ordered_ids@[k]@,
                    );
                &&& !all_known ==> r == Err::<(), StoreError>(StoreError::NotFound) && *final(self)
                    == *old(self)
                &&& all_known ==> r is Ok && final(self).layer_table() == reordered(
                    old(self).layer_table(),
                    scene_id@,
                    ordered_ids@.map_values(|s: String| s@),
                    ordered_ids@.len(),
                )
            },
    {
        if ordered_ids.len() == 0 {
            return Ok(());
        }
        let ghost table0 = self.layer_table();
        let ghost ids = ordered_ids@.map_values(|s: String| s@);
        let mut k: usize = 0;
        while k < ordered_ids.len()
            invariant
                k <= ordered_ids@.len(),
                table0 == self.layer_table(),
                ids == ordered_ids@.map_values(|s: String| s@),
                *self == *old(self),
                self.wf(),
                forall|x: int| 0 <= x < k ==> has_layer(table0, scene_id@, #[trigger] ordered_ids@[x]@),
            decreases ordered_ids@.len() - k,
        {
            let mut found = false;
            let mut i: usize = 0;
            while i < self.layers.len()
                invariant
                    i <= self.layers@.len(),
                    k < ordered_ids@.len(),
                    table0 == self.layer_table(),
                    *self == *old(self),
                    self.wf(),
                    found ==> has_layer(table0, scene_id@, ordered_ids@[k as int]@),
                    !found ==> forall|j: int| 0 <= j < i ==> !(table0[j].id == ordered_ids@[k as int]@ && table0[j].scene_id == scene_id@),
                decreases self.layers@.len() - i,
            {
                assert(table0[i as int] == self.layers@[i as int]@);
                if str_eq(self.layers[i].id.as_str(), ordered_ids[k].as_str()) && str_eq(
                    self.layers[i].scene_id.as_str(),
                    scene_id,
                ) {
                    found = true;
                }
                i = i + 1;
            }
            if !found {
                assert(!has_layer(table0, scene_id@, ordered_ids@[k as int]@));
                return Err(StoreError::NotFound);
            }
            k = k + 1;
        }
        let mut k: usize = 0;
        while k < ordered_ids.len()
            invariant
                k <= ordered_ids@.len(),
                ids == ordered_ids@.map_values(|s: String| s@),
                self.layer_table() == reordered(table0, scene_id@, ids, k as nat),
                self.zones == old(self).zones,
                self.effects == old(self).effects,
                self.scenes == old(self).scenes,
                self.stack == old(self).stack,
                self.next_stack_position == old(self).next_stack_position,
            decreases ordered_ids@.len() - k,
        {
            let ghost before = self.layer_table();
            let position = #[verifier::truncate] (k as i64);
            let mut i: usize = 0;
            while i < self.layers.len()
                invariant
                    i <= self.layers@.len(),
                    k < ordered_ids@.len(),
                    self.layers@.len() == before.len(),
                    forall|j: int| 0 <= j < i ==> #[trigger] self.layers@[j]@ == moved(before, scene_id@, ids[k as int], position)[j],
                    forall|j: int| i <= j < self.layers@.len() ==> #[trigger] self.layers@[j]@ == before[j],
                    ids == ordered_ids@.map_values(|s: String| s@),
                    self.zones == old(self).zones,
                    self.effects == old(self).effects,
                    self.scenes == old(self).scenes,
                    self.stack == old(self).stack,
                    self.next_stack_position == old(self).next_stack_position,
                decreases self.layers@.len() - i,
            {
                let row = &self.layers[i];
                assert(ids[k as int] == ordered_ids@[k as int]@);
                assert(self.layers@[i as int]@ == before[i as int]);
                if str_eq(row.id.as_str(), ordered_ids[k].as_str()) && str_eq(
                    row.scene_id.as_str(),
                    scene_id,
                ) {
                    let new_row = LayerRow {
                        id: row.id.clone(),
                        scene_id: row.scene_id.clone(),
                        effect_id: row.effect_id.clone(),
                        zone_id: row.zone_id.clone(),
                        blend_mode: row.blend_mode,
                        params: row.params.clone(),
                        enabled: row.enabled,
                        position,
                    };
                    self.layers.set(i, new_row);
                }
                assert(self.layers@[i as int]@ == moved(before, scene_id@, ids[k as int], position)[i as int]);
                i = i + 1;
            }
            assert(self.layer_table() =~= moved(before, scene_id@, ids[k as int], position));
            k = k + 1;
        }
        proof {
            lemma_reordered_keeps_ids(table0, scene_id@, ids, ordered_ids@.len());
            super::lemma_same_ids_keep_distinct(table0, self.layer_table());
        }
        Ok(())
    }

    /// The layers of the active scene, in position order.
    pub fn get_active_layers(&self) -> (r: Result<Vec<LayerRecord>, StoreError>)
        ensures
            r matches Ok(v) && v@.map_values(|l: LayerRecord| l.as_view()) == read_layers(
                self.layer_table(),
                active_id(),
            ),
    {
        self.get_layers(active_scene_id())
    }
}

} // verus!
