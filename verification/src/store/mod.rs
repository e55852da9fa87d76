//! The lighting store: zones, effects, scenes with their layers, the layers
//! that are active now, and a stack of saved device states.
//!
//! Each table is held as the rows the database holds, in insertion order;
//! listings order them as the queries do. Parameters and stacked layers are
//! held as the JSON text that the database stores.
use vstd::prelude::*;

use crate::model::{BlendMode, Rgb};
use crate::text::str_eq;

pub mod active;
pub mod effect;
pub mod layers;
pub mod laws;
pub mod order;
pub mod scenes;
pub mod stack;
pub mod zone;

verus! {

/// Why a store operation failed.
#[derive(Clone, Copy, Debug, PartialEq, Eq, Structural)]
pub enum StoreError {
    /// The database refused the statement (a key that is taken, a scene that
    /// does not exist, a counter that is exhausted).
    Db,
    /// The schema could not be brought up to date.
    Migrate,
    /// Stored JSON could not be read or written.
    Json,
    /// No row matched.
    NotFound,
}

/// The id of the scene that holds the layers shown now.
pub const ACTIVE_SCENE_ID: &'static str = "__active__";

/// The characters of [`ACTIVE_SCENE_ID`].
pub open spec fn active_id() -> Seq<char> {
    seq!['_', '_', 'a', 'c', 't', 'i', 'v', 'e', '_', '_']
}

/// The id of the scene that holds the layers shown now.
pub fn active_scene_id() -> (r: &'static str)
    ensures
        r@ == active_id(),
{
    proof {
        reveal_strlit("__active__");
    }
    ACTIVE_SCENE_ID
}

/// A named pixel range of the strip.
#[derive(Debug)]
pub struct ZoneRecord {
    pub id: String,
    pub name: String,
    pub start_pixel: u32,
    pub end_pixel: u32,
    pub transition_length: u32,
}

/// What a zone row holds.
pub struct ZoneView {
    pub id: Seq<char>,
    pub name: Seq<char>,
    pub start_pixel: u32,
    pub end_pixel: u32,
    pub transition_length: u32,
}

impl View for ZoneRecord {
    type V = ZoneView;

    open spec fn view(&self) -> ZoneView {
        ZoneView {
            id: self.id@,
            name: self.name@,
            start_pixel: self.start_pixel,
            end_pixel: self.end_pixel,
            transition_length: self.transition_length,
        }
    }
}

/// A user effect: a script and the JSON list of its parameter definitions.
#[derive(Debug)]
pub struct EffectRecord {
    pub id: String,
    pub name: String,
    pub script: String,
    pub params: String,
}

/// What an effect row holds.
pub struct EffectView {
    pub id: Seq<char>,
    pub name: Seq<char>,
    pub script: Seq<char>,
    pub params: Seq<char>,
}

impl View for EffectRecord {
    type V = EffectView;

    open spec fn view(&self) -> EffectView {
        EffectView { id: self.id@, name: self.name@, script: self.script@, params: self.params@ }
    }
}

/// A named, saved set of layers.
#[derive(Debug)]
pub struct SceneRecord {
    pub id: String,
    pub name: String,
}

/// What a scene row holds.
pub struct SceneView {
    pub id: Seq<char>,
    pub name: Seq<char>,
}

impl View for SceneRecord {
    type V = SceneView;

    open spec fn view(&self) -> SceneView {
        SceneView { id: self.id@, name: self.name@ }
    }
}

/// A layer row as stored: `position` is the stored 64-bit integer.
pub struct LayerRow {
    pub id: String,
    pub scene_id: String,
    pub effect_id: String,
    pub zone_id: String,
    pub blend_mode: BlendMode,
    pub params: String,
    pub enabled: bool,
    pub position: i64,
}

/// A layer of a scene as read back: the stored position is read as a `u32`.
#[derive(Debug)]
pub struct LayerRecord {
    pub id: String,
    pub scene_id: String,
    pub effect_id: String,
    pub zone_id: String,
    pub blend_mode: BlendMode,
    pub params: String,
    pub enabled: bool,
    pub position: u32,
}

/// What a layer row holds.
pub struct LayerView {
    pub id: Seq<char>,
    pub scene_id: Seq<char>,
    pub effect_id: Seq<char>,
    pub zone_id: Seq<char>,
    pub blend_mode: BlendMode,
    pub params: Seq<char>,
    pub enabled: bool,
    pub position: i64,
}

impl View for LayerRow {
    type V = LayerView;

    open spec fn view(&self) -> LayerView {
        LayerView {
            id: self.id@,
            scene_id: self.scene_id@,
            effect_id: self.effect_id@,
            zone_id: self.zone_id@,
            blend_mode: self.blend_mode,
            params: self.params@,
            enabled: self.enabled,
            position: self.position,
        }
    }
}

impl LayerRecord {
    /// The record read back from a stored row.
    pub open spec fn of_row(row: LayerView) -> LayerView {
        LayerView { position: row.position as u32 as i64, ..row }
    }

    /// What the record holds, its position widened.
    pub open spec fn as_view(&self) -> LayerView {
        LayerView {
            id: self.id@,
            scene_id: self.scene_id@,
            effect_id: self.effect_id@,
            zone_id: self.zone_id@,
            blend_mode: self.blend_mode,
            params: self.params@,
            enabled: self.enabled,
            position: self.position as i64,
        }
    }
}

/// A layer to be put into the active scene.
pub struct NewLayer {
    pub effect_id: String,
    pub zone_id: String,
    pub blend_mode: BlendMode,
    pub params: String,
}

/// The device part of a saved state.
#[derive(Clone, Copy, Debug, PartialEq, Eq, Structural)]
pub struct StackDevice {
    pub on: bool,
    pub brightness: u8,
    pub color: Rgb,
}

/// A saved state: its place on the stack, the JSON list of its layers, the
/// device settings and when it was pushed (Unix seconds).
#[derive(Debug)]
pub struct StackEntry {
    pub position: i64,
    pub layers: String,
    pub device: StackDevice,
    pub pushed_at: i64,
}

/// The tables of the store.
pub struct Store {
    pub zones: Vec<ZoneRecord>,
    pub effects: Vec<EffectRecord>,
    pub scenes: Vec<SceneRecord>,
    pub layers: Vec<LayerRow>,
    pub stack: Vec<StackEntry>,
    /// The position the next pushed state gets; positions are never reused.
    pub next_stack_position: i64,
}

/// No two rows share an id: a layer's id is its key across all scenes.
pub open spec fn distinct_ids(rows: Seq<LayerView>) -> bool {
    forall|i: int, j: int| 0 <= i < j < rows.len() ==> #[trigger] rows[i].id != #[trigger] rows[j].id
}

/// Keeping some of the rows keeps their ids distinct.
pub proof fn lemma_filter_keeps_ids_distinct(rows: Seq<LayerView>, keep: spec_fn(LayerView) -> bool)
    requires
        distinct_ids(rows),
    ensures
        distinct_ids(rows.filter(keep)),
    decreases rows.len(),
{
    reveal(Seq::filter);
    if rows.len() > 0 {
        let d = rows.drop_last();
        assert forall|i: int, j: int| 0 <= i < j < d.len() implies #[trigger] d[i].id
            != #[trigger] d[j].id by {
            assert(d[i] == rows[i] && d[j] == rows[j]);
        }
        lemma_filter_keeps_ids_distinct(d, keep);
        let f = d.filter(keep);
        if keep(rows.last()) {
            assert forall|i: int| 0 <= i < f.len() implies #[trigger] f[i].id != rows.last().id by {
                assert(f.contains(f[i]));
                d.lemma_filter_contains_rev(keep, f[i]);
                let k = choose|k: int| 0 <= k < d.len() && d[k] == f[i];
                assert(rows[k] == d[k]);
                assert(rows[k].id != rows[rows.len() - 1].id);
            }
            let g = f.push(rows.last());
            assert forall|i: int, j: int| 0 <= i < j < g.len() implies #[trigger] g[i].id
                != #[trigger] g[j].id by {
                if j == g.len() - 1 {
                    assert(g[i] == f[i]);
                } else {
                    assert(g[i] == f[i] && g[j] == f[j]);
                }
            }
        }
    }
}

/// Rows that keep their ids, one for one, keep them distinct.
pub proof fn lemma_same_ids_keep_distinct(a: Seq<LayerView>, b: Seq<LayerView>)
    requires
        distinct_ids(a),
        a.len() == b.len(),
        forall|i: int| 0 <= i < a.len() ==> #[trigger] b[i].id == a[i].id,
    ensures
        distinct_ids(b),
{
    assert forall|i: int, j: int| 0 <= i < j < b.len() implies #[trigger] b[i].id
        != #[trigger] b[j].id by {
        assert(a[i].id != a[j].id);
    }
}

impl Store {
    /// No named scene row uses the active scene's id, and the stack holds its entries in increasing position, all below the next
    /// position to be given out.
    pub open spec fn wf(&self) -> bool {
        &&& forall|i: int| 0 <= i < self.scenes@.len() ==> #[trigger] self.scenes@[i].id@ != active_id()
        &&& 1 <= self.next_stack_position
        &&& forall|i: int, j: int|
            0 <= i < j < self.stack@.len() ==> #[trigger] self.stack@[i].position
                < #[trigger] self.stack@[j].position
        &&& forall|i: int|
            0 <= i < self.stack@.len() ==> #[trigger] self.stack@[i].position
                < self.next_stack_position
        &&& distinct_ids(self.layer_table())
    }

    /// The zone rows.
    pub open spec fn zone_table(&self) -> Seq<ZoneView> {
        self.zones@.map_values(|z: ZoneRecord| z@)
    }

    /// The effect rows.
    pub open spec fn effect_table(&self) -> Seq<EffectView> {
        self.effects@.map_values(|e: EffectRecord| e@)
    }

    /// The scene rows (the active scene is not among them).
    pub open spec fn scene_table(&self) -> Seq<SceneView> {
        self.scenes@.map_values(|s: SceneRecord| s@)
    }

    /// The layer rows of all scenes.
    pub open spec fn layer_table(&self) -> Seq<LayerView> {
        self.layers@.map_values(|l: LayerRow| l@)
    }

    /// A scene with this id exists: the active scene always does.
    pub open spec fn scene_exists(&self, id: Seq<char>) -> bool {
        id == active_id() || exists|i: int| 0 <= i < self.scenes@.len() && self.scenes@[i].id@ == id
    }

    /// An empty store.
    pub fn new() -> (s: Store)
        ensures
            s.wf(),
            s.zones@.len() == 0,
            s.effects@.len() == 0,
            s.scenes@.len() == 0,
            s.layers@.len() == 0,
            s.stack@.len() == 0,
            s.next_stack_position == 1,
    {
        Store {
            zones: Vec::new(),
            effects: Vec::new(),
            scenes: Vec::new(),
            layers: Vec::new(),
            stack: Vec::new(),
            next_stack_position: 1,
        }
    }
}

/// A row with a string key.
pub trait Keyed: Sized {
    /// The key of the row.
    spec fn key(&self) -> Seq<char>;

    /// The key of the row.
    fn key_str(&self) -> (r: &str)
        ensures
            r@ == self.key(),
    ;

    /// An equal copy of the row.
    fn copy_row(&self) -> (r: Self)
        ensures
            r == *self,
    ;
}

/// The first row whose key is `key`, if any.
pub open spec fn lookup<T: Keyed>(rows: Seq<T>, key: Seq<char>) -> Option<T>
    decreases rows.len(),
{
    if rows.len() == 0 {
        None
    } else if rows[0].key() == key {
        Some(rows[0])
    } else {
        lookup(rows.drop_first(), key)
    }
}

/// The first row with key `key` sits at `i`; no row has key `key` when there is
/// no such index.
pub proof fn lemma_lookup_first<T: Keyed>(rows: Seq<T>, key: Seq<char>, i: int)
    requires
        0 <= i <= rows.len(),
        forall|j: int| 0 <= j < i ==> rows[j].key() != key,
        i < rows.len() ==> rows[i].key() == key,
    ensures
        i < rows.len() ==> lookup(rows, key) == Some(rows[i]),
        i == rows.len() ==> lookup(rows, key) is None,
    decreases i,
{
    if i > 0 {
        lemma_lookup_first(rows.drop_first(), key, i - 1);
    }
}

/// A lookup finds a row exactly when some row has the key, and what it finds
/// is such a row.
pub proof fn lemma_lookup_found<T: Keyed>(rows: Seq<T>, key: Seq<char>)
    ensures
        lookup(rows, key) is Some <==> exists|i: int| 0 <= i < rows.len() && rows[i].key() == key,
        lookup(rows, key) matches Some(x) ==> x.key() == key && exists|i: int|
            0 <= i < rows.len() && rows[i] == x,
    decreases rows.len(),
{
    if rows.len() > 0 {
        lemma_lookup_found(rows.drop_first(), key);
        if rows[0].key() != key {
            assert forall|i: int| 0 <= i < rows.drop_first().len() implies rows.drop_first()[i]
                == rows[i + 1] by {}
            if exists|i: int| 0 <= i < rows.len() && rows[i].key() == key {
                let i = choose|i: int| 0 <= i < rows.len() && rows[i].key() == key;
                assert(rows.drop_first()[i - 1].key() == key);
            }
        }
    }
}

/// Index of the first row whose key is `key`, if any.
pub fn find_key<T: Keyed>(rows: &Vec<T>, key: &str) -> (r: Option<usize>)
    ensures
        r matches Some(i) ==> i < rows@.len() && rows@[i as int].key() == key@ && (forall|j: int|
            0 <= j < i ==> rows@[j].key() != key@) && lookup(rows@, key@) == Some(rows@[i as int]),
        r is None ==> (forall|j: int| 0 <= j < rows@.len() ==> rows@[j].key() != key@) && lookup(
            rows@,
            key@,
        ) is None,
{
    let mut i: usize = 0;
    while i < rows.len()
        invariant
            i <= rows@.len(),
            forall|j: int| 0 <= j < i ==> rows@[j].key() != key@,
        decreases rows@.len() - i,
    {
        if str_eq(rows[i].key_str(), key) {
            proof {
                lemma_lookup_first(rows@, key@, i as int);
            }
            return Some(i);
        }
        i = i + 1;
    }
    proof {
        lemma_lookup_first(rows@, key@, rows@.len() as int);
    }
    None
}

/// The rows whose key is not `key`, in order.
pub fn without_key<T: Keyed>(rows: &Vec<T>, key: &str) -> (r: Vec<T>)
    ensures
        r@ == rows@.filter(|t: T| t.key() != key@),
{
    let ghost pred = |t: T| t.key() != key@;
    let mut out: Vec<T> = Vec::new();
    let mut i: usize = 0;
    while i < rows.len()
        invariant
            i <= rows@.len(),
            pred == (|t: T| t.key() != key@),
            out@ == rows@.take(i as int).filter(pred),
        decreases rows@.len() - i,
    {
        proof {
            reveal(Seq::filter);
            assert(rows@.take(i + 1).drop_last() =~= rows@.take(i as int));
        }
        if !str_eq(rows[i].key_str(), key) {
            out.push(rows[i].copy_row());
        }
        i = i + 1;
    }
    assert(rows@.take(rows@.len() as int) =~= rows@);
    out
}

impl Keyed for ZoneRecord {
    open spec fn key(&self) -> Seq<char> {
        self.id@
    }

    fn key_str(&self) -> (r: &str) {
        self.id.as_str()
    }

    fn copy_row(&self) -> (r: Self) {
        ZoneRecord {
            id: self.id.clone(),
            name: self.name.clone(),
            start_pixel: self.start_pixel,
            end_pixel: self.end_pixel,
            transition_length: self.transition_length,
        }
    }
}

impl Keyed for EffectRecord {
    open spec fn key(&self) -> Seq<char> {
        self.id@
    }

    fn key_str(&self) -> (r: &str) {
        self.id.as_str()
    }

    fn copy_row(&self) -> (r: Self) {
        EffectRecord {
            id: self.id.clone(),
            name: self.name.clone(),
            script: self.script.clone(),
            params: self.params.clone(),
        }
    }
}

impl Keyed for SceneRecord {
    open spec fn key(&self) -> Seq<char> {
        self.id@
    }

    fn key_str(&self) -> (r: &str) {
        self.id.as_str()
    }

    fn copy_row(&self) -> (r: Self) {
        SceneRecord { id: self.id.clone(), name: self.name.clone() }
    }
}

impl Keyed for LayerRow {
    open spec fn key(&self) -> Seq<char> {
        self.id@
    }

    fn key_str(&self) -> (r: &str) {
        self.id.as_str()
    }

    fn copy_row(&self) -> (r: Self) {
        LayerRow {
            id: self.id.clone(),
            scene_id: self.scene_id.clone(),
            effect_id: self.effect_id.clone(),
            zone_id: self.zone_id.clone(),
            blend_mode: self.blend_mode,
            params: self.params.clone(),
            enabled: self.enabled,
            position: self.position,
        }
    }
}

impl crate::store::order::Named for ZoneRecord {
    open spec fn sort_name(&self) -> Seq<char> {
        self.name@
    }

    fn name_str(&self) -> (r: &str) {
        self.name.as_str()
    }

    fn duplicate(&self) -> (r: Self) {
        self.copy_row()
    }
}

impl crate::store::order::Named for EffectRecord {
    open spec fn sort_name(&self) -> Seq<char> {
        self.name@
    }

    fn name_str(&self) -> (r: &str) {
        self.name.as_str()
    }

    fn duplicate(&self) -> (r: Self) {
        self.copy_row()
    }
}

impl crate::store::order::Named for SceneRecord {
    open spec fn sort_name(&self) -> Seq<char> {
        self.name@
    }

    fn name_str(&self) -> (r: &str) {
        self.name.as_str()
    }

    fn duplicate(&self) -> (r: Self) {
        self.copy_row()
    }
}

} // verus!
