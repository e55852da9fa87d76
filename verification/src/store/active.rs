//! Copying layers between scenes, and the operations on the active scene:
//! replacing, loading, saving and overwriting.
use vstd::prelude::*;

use super::layers::{has_layer, in_scene, next_position, ordered_layers, read_layers, reordered, updated_layer};
use super::scenes::row_outside;
use super::{
    active_id, active_scene_id, distinct_ids, lemma_filter_keeps_ids_distinct, lookup, BlendMode, LayerRecord, LayerRow,
    LayerView, NewLayer, SceneRecord, SceneView, Store, StoreError,
};
use crate::text::str_eq;

verus! {

/// The rows made by copying `src` into scene `to` under the ids `ids`.
pub open spec fn copied_rows(src: Seq<LayerView>, to: Seq<char>, ids: Seq<Seq<char>>) -> Seq<
    LayerView,
> {
    src.map(|i: int, l: LayerView| LayerView { id: ids[i], scene_id: to, ..l })
}

/// The ids differ from each other and from every id in `rows`.
pub open spec fn ids_free(rows: Seq<LayerView>, ids: Seq<Seq<char>>) -> bool {
    &&& forall|i: int, j: int| 0 <= i < j < ids.len() ==> ids[i] != ids[j]
    &&& forall|i: int, k: int| 0 <= i < ids.len() && 0 <= k < rows.len() ==> rows[k].id != ids[i]
}

/// The rows of the active scene made from `layers` under the ids `ids`:
/// enabled, at positions `0, 1, ...`.
pub open spec fn new_active_rows(layers: Seq<NewLayer>, ids: Seq<Seq<char>>) -> Seq<LayerView> {
    layers.map(
        |i: int, n: NewLayer|
            LayerView {
                id: ids[i],
                scene_id: active_id(),
                effect_id: n.effect_id@,
                zone_id: n.zone_id@,
                blend_mode: n.blend_mode,
                params: n.params@,
                enabled: true,
                position: i as i64,
            },
    )
}

/// The rows outside scene `scene`.
pub open spec fn outside_scene(rows: Seq<LayerView>, scene: Seq<char>) -> Seq<LayerView> {
    rows.filter(|l: LayerView| l.scene_id != scene)
}

/// The views of a sequence of strings.
pub open spec fn string_views(s: Seq<String>) -> Seq<Seq<char>> {
    s.map_values(|x: String| x@)
}

/// Rows under free ids, added after rows whose ids are distinct, keep the
/// ids distinct.
pub proof fn lemma_free_ids_keep_distinct(a: Seq<LayerView>, b: Seq<LayerView>, ids: Seq<Seq<char>>)
    requires
        distinct_ids(a),
        ids_free(a, ids),
        b.len() <= ids.len(),
        forall|i: int| 0 <= i < b.len() ==> #[trigger] b[i].id == ids[i],
    ensures
        distinct_ids(a + b),
{
    let c = a + b;
    assert forall|i: int, j: int| 0 <= i < j < c.len() implies #[trigger] c[i].id
        != #[trigger] c[j].id by {
        if j < a.len() {
            assert(c[i] == a[i] && c[j] == a[j]);
        } else if i < a.len() {
            assert(c[j] == b[j - a.len()]);
            assert(b[j - a.len()].id == ids[j - a.len()]);
            assert(a[i].id != ids[j - a.len()]);
        } else {
            assert(c[i] == b[i - a.len()] && c[j] == b[j - a.len()]);
            assert(b[i - a.len()].id == ids[i - a.len()]);
            assert(b[j - a.len()].id == ids[j - a.len()]);
        }
    }
}

/// Filtering rows by scene and taking their views commute.
pub proof fn lemma_outside_scene_views(rows: Seq<LayerRow>, scene: Seq<char>)
    ensures
        rows.filter(row_outside(scene)).map_values(|l: LayerRow| l@) == outside_scene(
            rows.map_values(|l: LayerRow| l@),
            scene,
        ),
    decreases rows.len(),
{
    reveal(Seq::filter);
    if rows.len() > 0 {
        lemma_outside_scene_views(rows.drop_last(), scene);
        assert(rows.drop_last().map_values(|l: LayerRow| l@) =~= rows.map_values(
            |l: LayerRow| l@,
        ).drop_last());
        let f = rows.drop_last().filter(row_outside(scene));
        assert(f.push(rows.last()).map_values(|l: LayerRow| l@) =~= f.map_values(
            |l: LayerRow| l@,
        ).push(rows.last()@));
    }
}

/// Removing the rows of one scene leaves those of another scene as they were.
pub proof fn lemma_in_scene_after_clearing_other(
    rows: Seq<LayerView>,
    cleared: Seq<char>,
    scene: Seq<char>,
)
    requires
        cleared != scene,
    ensures
        in_scene(outside_scene(rows, cleared), scene) == in_scene(rows, scene),
    decreases rows.len(),
{
    reveal(Seq::filter);
    if rows.len() > 0 {
        lemma_in_scene_after_clearing_other(rows.drop_last(), cleared, scene);
        let o = rows.drop_last().filter(|l: LayerView| l.scene_id != cleared);
        if rows.last().scene_id != cleared {
            assert(o.push(rows.last()).drop_last() =~= o);
        }
    }
}

/// Whether `ids` differ from each other and from every row id.
pub fn ids_are_free(rows: &Vec<LayerRow>, ids: &[String]) -> (r: bool)
    ensures
        r == ids_free(rows@.map_values(|l: LayerRow| l@), string_views(ids@)),
{
    let ghost table = rows@.map_values(|l: LayerRow| l@);
    let ghost v = string_views(ids@);
    let mut i: usize = 0;
    while i < ids.len()
        invariant
            i <= ids@.len(),
            table == rows@.map_values(|l: LayerRow| l@),
            v == string_views(ids@),
            forall|a: int, b: int| 0 <= a < b < i ==> v[a] != v[b],
            forall|a: int, k: int| 0 <= a < i && 0 <= k < table.len() ==> table[k].id != v[a],
        decreases ids@.len() - i,
    {
        let mut j: usize = 0;
        while j < i
            invariant
                j <= i < ids@.len(),
                v == string_views(ids@),
                forall|a: int| 0 <= a < j ==> v[a] != v[i as int],
            decreases i - j,
        {
            if str_eq(ids[j].as_str(), ids[i].as_str()) {
                assert(v[j as int] == v[i as int]);
                return false;
            }
            j = j + 1;
        }
        let mut k: usize = 0;
        while k < rows.len()
            invariant
                k <= rows@.len(),
                i < ids@.len(),
                table == rows@.map_values(|l: LayerRow| l@),
                v == string_views(ids@),
                forall|x: int| 0 <= x < k ==> table[x].id != v[i as int],
            decreases rows@.len() - k,
        {
            if str_eq(rows[k].id.as_str(), ids[i].as_str()) {
                assert(table[k as int].id == v[i as int]);
                return false;
            }
            k = k + 1;
        }
        i = i + 1;
    }
    true
}

impl Store {
    /// Copy the layers of scene `from`, in position order, into scene `to`
    /// under the ids `ids`, keeping every other field. With no layers to copy
    /// nothing happens; otherwise the copy fails with `Db`, and nothing is
    /// inserted, when `to` does not exist or an id is not free.
    pub fn copy_layers(&mut self, from: &str, to: &str, ids: &[String]) -> (r: Result<
        (),
        StoreError,
    >)
        requires
            old(self).wf(),
            ids@.len() == read_layers(old(self).layer_table(), from@).len(),
        ensures
            final(self).wf(),
            final(self).same_but_layers(old(self)),
            ({
                let src = read_layers(old(self).layer_table(), from@);
                let ok = src.len() == 0 || (old(self).scene_exists(to@) && ids_free(
                    old(self).layer_table(),
                    string_views(ids@),
                ));
                &&& src.len() == 0 ==> r is Ok && *final(self) == *old(self)
                &&& ok ==> r is Ok && final(self).layer_table() == old(self).layer_table()
                    + copied_rows(src, to@, string_views(ids@))
                &&& !ok ==> r == Err::<(), StoreError>(StoreError::Db) && *final(self) == *old(self)
            }),
    {
        let src = ordered_layers(&self.layers, from);
        let ghost srcv = read_layers(self.layer_table(), from@);
        assert(srcv.len() == src@.len());
        if src.len() == 0 {
            return Ok(());
        }
        if !self.has_scene(to) || !ids_are_free(&self.layers, ids) {
            return Err(StoreError::Db);
        }
        let ghost table0 = self.layer_table();
        let ghost idsv = string_views(ids@);
        let mut i: usize = 0;
        while i < src.len()
            invariant
                i <= src@.len(),
                src@.len() == ids@.len(),
                srcv == src@.map_values(|l: LayerRecord| l.as_view()),
                idsv == string_views(ids@),
                self.layer_table() =~= table0 + copied_rows(srcv, to@, idsv).take(i as int),
                distinct_ids(table0),
                ids_free(table0, idsv),
                self.wf(),
                self.same_but_layers(old(self)),
            decreases src@.len() - i,
        {
            let l = &src[i];
            let row = LayerRow {
                id: ids[i].clone(),
                scene_id: to.to_owned(),
                effect_id: l.effect_id.clone(),
                zone_id: l.zone_id.clone(),
                blend_mode: l.blend_mode,
                params: l.params.clone(),
                enabled: l.enabled,
                position: l.position as i64,
            };
            let ghost before = self.layers@;
            self.layers.push(row);
            proof {
                assert(srcv[i as int] == src@[i as int].as_view());
                assert(copied_rows(srcv, to@, idsv).take(i + 1) =~= copied_rows(srcv, to@, idsv).take(
                    i as int,
                ).push(row@));
                assert(self.layer_table() =~= before.map_values(|l: LayerRow| l@).push(row@));
                lemma_free_ids_keep_distinct(
                    table0,
                    copied_rows(srcv, to@, idsv).take(i + 1),
                    idsv,
                );
            }
            i = i + 1;
        }
        assert(copied_rows(srcv, to@, idsv).take(src@.len() as int) =~= copied_rows(srcv, to@, idsv));
        Ok(())
    }

    /// Replace every layer of the active scene by `layers`, under the ids
    /// `ids`, enabled, at positions `0, 1, ...`. All or nothing: when an id is
    /// not free among the remaining rows, `Db` and no change.
    pub fn replace_active_layers(&mut self, layers: &[NewLayer], ids: &[String]) -> (r:
        Result<(), StoreError>)
        requires
            old(self).wf(),
            ids@.len() == layers@.len(),
        ensures
            final(self).wf(),
            final(self).same_but_layers(old(self)),
            ({
                let remaining = outside_scene(old(self).layer_table(), active_id());
                &&& ids_free(remaining, string_views(ids@)) ==> r is Ok && final(self).layer_table()
                    == remaining + new_active_rows(layers@, string_views(ids@))
                &&& !ids_free(remaining, string_views(ids@)) ==> r == Err::<(), StoreError>(
                    StoreError::Db,
                ) && *final(self) == *old(self)
            }),
    {
        let act = active_scene_id();
        let remaining = super::scenes::layers_outside_scene(&self.layers, act);
        proof {
            lemma_outside_scene_views(self.layers@, act@);
        }
        if !ids_are_free(&remaining, ids) {
            return Err(StoreError::Db);
        }
        let ghost rem = remaining@.map_values(|l: LayerRow| l@);
        let ghost idsv = string_views(ids@);
        let mut rows = remaining;
        let mut i: usize = 0;
        while i < layers.len()
            invariant
                i <= layers@.len(),
                ids@.len() == layers@.len(),
                idsv == string_views(ids@),
                rows@.map_values(|l: LayerRow| l@) =~= rem + new_active_rows(layers@, idsv).take(
                    i as int,
                ),
            decreases layers@.len() - i,
        {
            let n = &layers[i];
            let row = LayerRow {
                id: ids[i].clone(),
                scene_id: active_scene_id().to_owned(),
                effect_id: n.effect_id.clone(),
                zone_id: n.zone_id.clone(),
                blend_mode: n.blend_mode,
                params: n.params.clone(),
                enabled: true,
                position: #[verifier::truncate] (i as i64),
            };
            let ghost before = rows@;
            rows.push(row);
            proof {
                assert(new_active_rows(layers@, idsv).take(i + 1) =~= new_active_rows(
                    layers@,
                    idsv,
                ).take(i as int).push(row@));
                assert(rows@.map_values(|l: LayerRow| l@) =~= before.map_values(|l: LayerRow| l@).push(
                    row@,
                ));
            }
            i = i + 1;
        }
        assert(new_active_rows(layers@, idsv).take(layers@.len() as int) =~= new_active_rows(
            layers@,
            idsv,
        ));
        proof {
            lemma_filter_keeps_ids_distinct(old(self).layer_table(), |l: LayerView| l.scene_id != act@);
            lemma_free_ids_keep_distinct(rem, new_active_rows(layers@, idsv), idsv);
        }
        self.layers = rows;
        Ok(())
    }

    /// Make the active scene a copy of scene `scene_id`, the copies under the
    /// ids `ids`. Fails with `NotFound` for an unknown scene and `Db` for the
    /// active scene itself, with no change; once the active layers are
    /// cleared, a copy whose ids are not free fails with `Db` and leaves them
    /// cleared.
    pub fn load_scene_into_active(&mut self, scene_id: &str, ids: &[String]) -> (r: Result<
        (),
        StoreError,
    >)
        requires
            old(self).wf(),
            ids@.len() == read_layers(old(self).layer_table(), scene_id@).len(),
        ensures
            final(self).wf(),
            final(self).same_but_layers(old(self)),
            scene_id@ == active_id() ==> r == Err::<(), StoreError>(StoreError::Db) && *final(self)
                == *old(self),
            scene_id@ != active_id() && lookup(old(self).scenes@, scene_id@) is None ==> r == Err::<
                (),
                StoreError,
            >(StoreError::NotFound) && *final(self) == *old(self),
            ({
                let cleared = outside_scene(old(self).layer_table(), active_id());
                let src = read_layers(old(self).layer_table(), scene_id@);
                let w = string_views(ids@);
                (scene_id@ != active_id() && lookup(old(self).scenes@, scene_id@) is Some) ==> {
                    &&& ids_free(cleared, w) ==> r is Ok && final(self).layer_table() == cleared
                        + copied_rows(src, active_id(), w)
                    &&& !ids_free(cleared, w) ==> r == Err::<(), StoreError>(StoreError::Db)
                        && final(self).layer_table() == cleared
                }
            }),
    {
        match self.get_scene(scene_id) {
            Ok(_) => {},
            Err(e) => {
                return Err(e);
            },
        }
        let ghost table0 = self.layer_table();
        let act = active_scene_id();
        let _ = self.clear_layers(act);
        proof {
            lemma_outside_scene_views(old(self).layers@, act@);
            lemma_in_scene_after_clearing_other(table0, active_id(), scene_id@);
            assert(self.layer_table() == outside_scene(table0, active_id()));
            assert(read_layers(self.layer_table(), scene_id@) == read_layers(table0, scene_id@));
        }
        let r = self.copy_layers(scene_id, act, ids);
        proof {
            let src = read_layers(table0, scene_id@);
            let w = string_views(ids@);
            if src.len() == 0 {
                assert(copied_rows(src, active_id(), w) =~= Seq::<LayerView>::empty());
                assert(outside_scene(table0, active_id()) + copied_rows(src, active_id(), w)
                    =~= outside_scene(table0, active_id()));
            }
        }
        r
    }

    /// Create scene `name` under the id `id`, holding a copy of the active
    /// layers under the ids `layer_ids`. When the copy fails after the scene
    /// was created, the scene stays, without layers.
    pub fn save_active_as_scene(&mut self, id: String, name: &str, layer_ids: &[String]) -> (r:
        Result<SceneRecord, StoreError>)
        requires
            old(self).wf(),
            layer_ids@.len() == read_layers(old(self).layer_table(), active_id()).len(),
        ensures
            final(self).wf(),
            final(self).zones == old(self).zones,
            final(self).effects == old(self).effects,
            final(self).stack == old(self).stack,
            final(self).next_stack_position == old(self).next_stack_position,
            ({
                let src = read_layers(old(self).layer_table(), active_id());
                let w = string_views(layer_ids@);
                let taken = exists|i: int|
                    0 <= i < old(self).scenes@.len() && old(self).scenes@[i].id@ == id@;
                let scene_ok = id@ != active_id() && !taken;
                &&& !scene_ok ==> r == Err::<SceneRecord, StoreError>(StoreError::Db)
                    && *final(self) == *old(self)
                &&& scene_ok ==> final(self).scenes@.len() == old(self).scenes@.len() + 1 && {
                    let s = final(self).scenes@.last();
                    &&& final(self).scenes@ == old(self).scenes@.push(s)
                    &&& s@ == (SceneView { id: id@, name: name@ })
                    &&& (src.len() == 0 || ids_free(old(self).layer_table(), w)) ==> (r matches Ok(
                        x,
                    ) && x == s && final(self).layer_table() == old(self).layer_table()
                        + copied_rows(src, id@, w))
                    &&& !(src.len() == 0 || ids_free(old(self).layer_table(), w)) ==> r
                        == Err::<SceneRecord, StoreError>(StoreError::Db) && final(self).layers
                        == old(self).layers
                }
            }),
    {
        let scene = match self.create_scene(id, name) {
            Ok(s) => s,
            Err(e) => {
                return Err(e);
            },
        };
        let ghost mid = *self;
        proof {
            assert(mid.scenes@[old(self).scenes@.len() as int] == scene);
            assert(mid.scene_exists(scene.id@));
        }
        match self.copy_layers(active_scene_id(), scene.id.as_str(), layer_ids) {
            Ok(()) => {
                proof {
                    let src = read_layers(old(self).layer_table(), active_id());
                    let w = string_views(layer_ids@);
                    if src.len() == 0 {
                        assert(copied_rows(src, scene.id@, w) =~= Seq::<LayerView>::empty());
                        assert(old(self).layer_table() + copied_rows(src, scene.id@, w)
                            =~= old(self).layer_table());
                    }
                }
                Ok(scene)
            },
            Err(e) => Err(e),
        }
    }

    /// Make scene `id` hold a copy of the active layers, under the ids `ids`.
    /// `NotFound` for the active scene itself; once the scene's layers are
    /// cleared, a failed copy (into a scene that does not exist, or under ids
    /// that are not free) leaves them cleared.
    pub fn overwrite_scene_from_active(&mut self, id: &str, ids: &[String]) -> (r: Result<
        (),
        StoreError,
    >)
        requires
            old(self).wf(),
            ids@.len() == read_layers(old(self).layer_table(), active_id()).len(),
        ensures
            final(self).wf(),
            final(self).same_but_layers(old(self)),
            id@ == active_id() ==> r == Err::<(), StoreError>(StoreError::NotFound) && *final(self)
                == *old(self),
            ({
                let cleared = outside_scene(old(self).layer_table(), id@);
                let src = read_layers(old(self).layer_table(), active_id());
                let w = string_views(ids@);
                let ok = src.len() == 0 || (old(self).scene_exists(id@) && ids_free(cleared, w));
                id@ != active_id() ==> {
                    &&& ok ==> r is Ok && final(self).layer_table() == cleared + copied_rows(
                        src,
                        id@,
                        w,
                    )
                    &&& !ok ==> r == Err::<(), StoreError>(StoreError::Db)
                        && final(self).layer_table() == cleared
                }
            }),
    {
        if str_eq(id, active_scene_id()) {
            return Err(StoreError::NotFound);
        }
        let ghost table0 = self.layer_table();
        let _ = self.clear_layers(id);
        proof {
            lemma_outside_scene_views(old(self).layers@, id@);
            lemma_in_scene_after_clearing_other(table0, id@, active_id());
            assert(self.layer_table() == outside_scene(table0, id@));
            assert(read_layers(self.layer_table(), active_id()) == read_layers(table0, active_id()));
        }
        let r = self.copy_layers(active_scene_id(), id, ids);
        proof {
            let src = read_layers(table0, active_id());
            let w = string_views(ids@);
            if src.len() == 0 {
                assert(copied_rows(src, id@, w) =~= Seq::<LayerView>::empty());
                assert(outside_scene(table0, id@) + copied_rows(src, id@, w) =~= outside_scene(
                    table0,
                    id@,
                ));
            }
        }
        r
    }

    /// The first layer row with id `id`, in whichever scene.
    pub fn get_layer_by_id(&self, id: &str) -> (r: Result<LayerRecord, StoreError>)
        ensures
            r matches Ok(l) ==> exists|i: int|
                0 <= i < self.layers@.len() && self.layers@[i].id@ == id@ && (forall|j: int|
                    0 <= j < i ==> self.layers@[j].id@ != id@) && l.as_view() == LayerRecord::of_row(
                    self.layers@[i]@,
                ),
            r is Err <==> forall|i: int|
                0 <= i < self.layers@.len() ==> self.layers@[i].id@ != id@,
            r is Err ==> r == Err::<LayerRecord, StoreError>(StoreError::NotFound),
    {
        self.get_layer(id)
    }

    /// The layer with id `id` of the active scene.
    #[verifier::spinoff_prover]
    pub fn get_active_layer(&self, id: &str) -> (r: Result<LayerRecord, StoreError>)
        ensures
            r matches Ok(l) ==> exists|i: int|
                0 <= i < self.layers@.len() && self.layers@[i].id@ == id@
                    && self.layers@[i].scene_id@ == active_id() && (forall|j: int|
                    0 <= j < i ==> !(self.layers@[j].id@ == id@ && self.layers@[j].scene_id@
                        == active_id())) && l.as_view() == LayerRecord::of_row(self.layers@[i]@),
            r is Err <==> forall|i: int|
                0 <= i < self.layers@.len() ==> !(self.layers@[i].id@ == id@
                    && self.layers@[i].scene_id@ == active_id()),
            r is Err ==> r == Err::<LayerRecord, StoreError>(StoreError::NotFound),
    {
        self.get_layer_in_scene(id, active_scene_id())
    }

    /// Add a layer under the id `id` at the end of the active scene, enabled.
    /// Fails with `Db` when the id is taken or the next position does not fit
    /// in 64 bits.
    pub fn add_active_layer(
        &mut self,
        id: String,
        effect_id: &str,
        zone_id: &str,
        blend_mode: BlendMode,
        params: &str,
    ) -> (r: Result<LayerRecord, StoreError>)
        requires
            old(self).wf(),
        ensures
            final(self).wf(),
            final(self).same_but_layers(old(self)),
            ({
                let ok = (forall|i: int|
                    0 <= i < old(self).layers@.len() ==> old(self).layers@[i].id@ != id@)
                    && next_position(old(self).layer_table(), active_id()) <= i64::MAX;
                let row = LayerView {
                    id: id@,
                    scene_id: active_id(),
                    effect_id: effect_id@,
                    zone_id: zone_id@,
                    blend_mode,
                    params: params@,
                    enabled: true,
                    position: next_position(old(self).layer_table(), active_id()) as i64,
                };
                &&& !ok ==> r == Err::<LayerRecord, StoreError>(StoreError::Db) && *final(self)
                    == *old(self)
                &&& ok ==> (r matches Ok(l) && l.as_view() == LayerRecord::of_row(row)
                    && final(self).layer_table() == old(self).layer_table().push(row))
            }),
    {
        self.add_layer(id, active_scene_id(), effect_id, zone_id, blend_mode, params)
    }

    /// Set the zone, the enabled flag, the blend mode and the parameters of
    /// active layer `id`; `NotFound` when the active scene has no such layer.
    pub fn update_active_layer(
        &mut self,
        id: &str,
        zone_id: &str,
        enabled: bool,
        blend_mode: BlendMode,
        params: &str,
    ) -> (r: Result<LayerRecord, StoreError>)
        requires
            old(self).wf(),
        ensures
            final(self).wf(),
            final(self).same_but_layers(old(self)),
            r is Err <==> !has_layer(old(self).layer_table(), active_id(), id@),
            r is Err ==> r == Err::<LayerRecord, StoreError>(StoreError::NotFound) && *final(self)
                == *old(self),
            r is Ok ==> final(self).layer_table() == old(self).layer_table().map_values(
                |l: LayerView| updated_layer(l, id@, active_id(), zone_id@, enabled, blend_mode, params@),
            ),
            r matches Ok(l) ==> exists|i: int|
                0 <= i < old(self).layers@.len() && old(self).layer_table()[i].id == id@
                    && old(self).layer_table()[i].scene_id == active_id() && l.as_view()
                    == LayerRecord::of_row(
                    updated_layer(
                        old(self).layer_table()[i],
                        id@,
                        active_id(),
                        zone_id@,
                        enabled,
                        blend_mode,
                        params@,
                    ),
                ),
    {
        self.update_layer(id, active_scene_id(), zone_id, enabled, blend_mode, params)
    }

    /// Remove active layer `id`; `NotFound` when there is none.
    pub fn remove_active_layer(&mut self, id: &str) -> (r: Result<(), StoreError>)
        requires
            old(self).wf(),
        ensures
            final(self).wf(),
            final(self).same_but_layers(old(self)),
            r is Err <==> !has_layer(old(self).layer_table(), active_id(), id@),
            r is Err ==> r == Err::<(), StoreError>(StoreError::NotFound) && *final(self) == *old(
                self,
            ),
            r is Ok ==> final(self).layer_table() == old(self).layer_table().filter(
                |l: LayerView| !(l.id == id@ && l.scene_id == active_id()),
            ),
    {
        let act = active_scene_id();
        let r = self.remove_layer(id, act);
        proof {
            let f1 = |l: LayerView| !(l.id == id@ && l.scene_id == act@);
            let f2 = |l: LayerView| !(l.id == id@ && l.scene_id == active_id());
            assert(f1 =~= f2);
            assert(old(self).layer_table().filter(f1) == old(self).layer_table().filter(f2));
        }
        r
    }

    /// Reorder the active layers: see [`Store::reorder_layers`].
    pub fn reorder_active_layers(&mut self, ordered_ids: &[String]) -> (r: Result<(), StoreError>)
        requires
            old(self).wf(),
        ensures
            final(self).wf(),
            final(self).same_but_layers(old(self)),
            ordered_ids@.len() == 0 ==> r is Ok && *final(self) == *old(self),
            ordered_ids@.len() > 0 ==> {
                let all_known = forall|k: int|
                    0 <= k < ordered_ids@.len() ==> has_layer(
                        old(self).layer_table(),
                        active_id(),
                        #[trigger] ordered_ids@[k]@,
                    );
                &&& !all_known ==> r == Err::<(), StoreError>(StoreError::NotFound) && *final(self)
                    == *old(self)
                &&& all_known ==> r is Ok && final(self).layer_table() == reordered(
                    old(self).layer_table(),
                    active_id(),
                    string_views(ordered_ids@),
                    ordered_ids@.len(),
                )
            },
    {
        self.reorder_layers(active_scene_id(), ordered_ids)
    }

    /// Remove every layer of the active scene.
    pub fn clear_active_scene(&mut self) -> (r: Result<(), StoreError>)
        requires
            old(self).wf(),
        ensures
            final(self).wf(),
            final(self).same_but_layers(old(self)),
            r is Ok,
            final(self).layer_table() == outside_scene(old(self).layer_table(), active_id()),
    {
        let act = active_scene_id();
        let r = self.clear_layers(act);
        proof {
            lemma_outside_scene_views(old(self).layers@, act@);
        }
        r
    }
}

} // verus!
