//! Which handler a command topic goes to.
use vstd::prelude::*;

use crate::text::{has_char, str_eq};
use crate::topics::{
    command_topic, fixed_topic, lemma_command_topic_not_fixed, lemma_extract_from_command,
    lemma_extract_from_fixed, lemma_fixed_topics_equal, spec_extract_id, Topics,
};

verus! {

/// The handler for a topic, with the id the topic carries.
pub enum Route<'a> {
    DeviceSet,
    ZonesCreate,
    ZoneUpdate(&'a str),
    ZoneDelete(&'a str),
    ScenesCreate,
    SceneUpdate(&'a str),
    SceneDelete(&'a str),
    SceneLoad(&'a str),
    SceneSave(&'a str),
    ActiveLayersSet,
    ActiveLayersClear,
    ActiveLayersAdd,
    ActiveLayersReorder,
    ActiveLayerUpdate(&'a str),
    ActiveLayerDelete(&'a str),
    EffectsCreate,
    EffectUpdate(&'a str),
    EffectDelete(&'a str),
    ActiveSceneSet,
    Ignored,
}

/// What a route says: the handler and the characters of the id.
pub enum RouteView {
    DeviceSet,
    ZonesCreate,
    ZoneUpdate(Seq<char>),
    ZoneDelete(Seq<char>),
    ScenesCreate,
    SceneUpdate(Seq<char>),
    SceneDelete(Seq<char>),
    SceneLoad(Seq<char>),
    SceneSave(Seq<char>),
    ActiveLayersSet,
    ActiveLayersClear,
    ActiveLayersAdd,
    ActiveLayersReorder,
    ActiveLayerUpdate(Seq<char>),
    ActiveLayerDelete(Seq<char>),
    EffectsCreate,
    EffectUpdate(Seq<char>),
    EffectDelete(Seq<char>),
    ActiveSceneSet,
    Ignored,
}

impl<'a> View for Route<'a> {
    type V = RouteView;

    open spec fn view(&self) -> RouteView {
        match *self {
            Route::DeviceSet => RouteView::DeviceSet,
            Route::ZonesCreate => RouteView::ZonesCreate,
            Route::ZoneUpdate(id) => RouteView::ZoneUpdate(id@),
            Route::ZoneDelete(id) => RouteView::ZoneDelete(id@),
            Route::ScenesCreate => RouteView::ScenesCreate,
            Route::SceneUpdate(id) => RouteView::SceneUpdate(id@),
            Route::SceneDelete(id) => RouteView::SceneDelete(id@),
            Route::SceneLoad(id) => RouteView::SceneLoad(id@),
            Route::SceneSave(id) => RouteView::SceneSave(id@),
            Route::ActiveLayersSet => RouteView::ActiveLayersSet,
            Route::ActiveLayersClear => RouteView::ActiveLayersClear,
            Route::ActiveLayersAdd => RouteView::ActiveLayersAdd,
            Route::ActiveLayersReorder => RouteView::ActiveLayersReorder,
            Route::ActiveLayerUpdate(id) => RouteView::ActiveLayerUpdate(id@),
            Route::ActiveLayerDelete(id) => RouteView::ActiveLayerDelete(id@),
            Route::EffectsCreate => RouteView::EffectsCreate,
            Route::EffectUpdate(id) => RouteView::EffectUpdate(id@),
            Route::EffectDelete(id) => RouteView::EffectDelete(id@),
            Route::ActiveSceneSet => RouteView::ActiveSceneSet,
            Route::Ignored => RouteView::Ignored,
        }
    }
}

/// The handler for `topic` under `prefix`: exact command topics first, then
/// the per-item topics, in the order the dispatcher tries them.
pub open spec fn spec_route(prefix: Seq<char>, topic: Seq<char>) -> RouteView {
    let x = |r: Seq<char>, a: Seq<char>| spec_extract_id(prefix, topic, r, a);
    if topic == prefix + "/device/set"@ {
        RouteView::DeviceSet
    } else if topic == prefix + "/zones/create"@ {
        RouteView::ZonesCreate
    } else if x("zones"@, "update"@) is Some {
        RouteView::ZoneUpdate(x("zones"@, "update"@)->0)
    } else if x("zones"@, "delete"@) is Some {
        RouteView::ZoneDelete(x("zones"@, "delete"@)->0)
    } else if topic == prefix + "/scenes/create"@ {
        RouteView::ScenesCreate
    } else if x("scenes"@, "update"@) is Some {
        RouteView::SceneUpdate(x("scenes"@, "update"@)->0)
    } else if x("scenes"@, "delete"@) is Some {
        RouteView::SceneDelete(x("scenes"@, "delete"@)->0)
    } else if x("scenes"@, "load"@) is Some {
        RouteView::SceneLoad(x("scenes"@, "load"@)->0)
    } else if x("scenes"@, "save"@) is Some {
        RouteView::SceneSave(x("scenes"@, "save"@)->0)
    } else if topic == prefix + "/active_layers/set"@ {
        RouteView::ActiveLayersSet
    } else if topic == prefix + "/active_layers/clear"@ {
        RouteView::ActiveLayersClear
    } else if topic == prefix + "/active_layers/add"@ {
        RouteView::ActiveLayersAdd
    } else if topic == prefix + "/active_layers/reorder"@ {
        RouteView::ActiveLayersReorder
    } else if x("active_layers"@, "update"@) is Some {
        RouteView::ActiveLayerUpdate(x("active_layers"@, "update"@)->0)
    } else if x("active_layers"@, "delete"@) is Some {
        RouteView::ActiveLayerDelete(x("active_layers"@, "delete"@)->0)
    } else if topic == prefix + "/effects/create"@ {
        RouteView::EffectsCreate
    } else if x("effects"@, "update"@) is Some {
        RouteView::EffectUpdate(x("effects"@, "update"@)->0)
    } else if x("effects"@, "delete"@) is Some {
        RouteView::EffectDelete(x("effects"@, "delete"@)->0)
    } else if topic == prefix + "/active_scene/set"@ {
        RouteView::ActiveSceneSet
    } else {
        RouteView::Ignored
    }
}

/// Whether `topic` is the string `expected`.
fn is_topic(topic: &str, expected: String) -> (r: bool)
    ensures
        r == (topic@ == expected@),
{
    str_eq(topic, expected.as_str())
}

/// The handler that a message on `topic` goes to.
pub fn route_of<'a>(t: &Topics, topic: &'a str) -> (r: Route<'a>)
    ensures
        r@ == spec_route(t.prefix@, topic@),
{
    if is_topic(topic, t.device_set()) {
        return Route::DeviceSet;
    }
    if is_topic(topic, t.zones_create()) {
        return Route::ZonesCreate;
    }
    if let Some(id) = t.extract_id(topic, "zones", "update") {
        return Route::ZoneUpdate(id);
    }
    if let Some(id) = t.extract_id(topic, "zones", "delete") {
        return Route::ZoneDelete(id);
    }
    if is_topic(topic, t.scenes_create()) {
        return Route::ScenesCreate;
    }
    if let Some(id) = t.extract_id(topic, "scenes", "update") {
        return Route::SceneUpdate(id);
    }
    if let Some(id) = t.extract_id(topic, "scenes", "delete") {
        return Route::SceneDelete(id);
    }
    if let Some(id) = t.extract_id(topic, "scenes", "load") {
        return Route::SceneLoad(id);
    }
    if let Some(id) = t.extract_id(topic, "scenes", "save") {
        return Route::SceneSave(id);
    }
    if is_topic(topic, t.active_layers_set()) {
        return Route::ActiveLayersSet;
    }
    if is_topic(topic, t.active_layers_clear()) {
        return Route::ActiveLayersClear;
    }
    if is_topic(topic, t.active_layers_add()) {
        return Route::ActiveLayersAdd;
    }
    if is_topic(topic, t.active_layers_reorder()) {
        return Route::ActiveLayersReorder;
    }
    if let Some(id) = t.extract_id(topic, "active_layers", "update") {
        return Route::ActiveLayerUpdate(id);
    }
    if let Some(id) = t.extract_id(topic, "active_layers", "delete") {
        return Route::ActiveLayerDelete(id);
    }
    if is_topic(topic, t.effects_create()) {
        return Route::EffectsCreate;
    }
    if let Some(id) = t.extract_id(topic, "effects", "update") {
        return Route::EffectUpdate(id);
    }
    if let Some(id) = t.extract_id(topic, "effects", "delete") {
        return Route::EffectDelete(id);
    }
    if is_topic(topic, t.active_scene_set()) {
        return Route::ActiveSceneSet;
    }
    Route::Ignored
}

/// Where a topic without an item, `{prefix}/{resource}/{action}`, goes.
pub open spec fn fixed_route(resource: Seq<char>, action: Seq<char>) -> RouteView {
    if resource == "device"@ && action == "set"@ {
        RouteView::DeviceSet
    } else if resource == "zones"@ && action == "create"@ {
        RouteView::ZonesCreate
    } else if resource == "scenes"@ && action == "create"@ {
        RouteView::ScenesCreate
    } else if resource == "active_layers"@ && action == "set"@ {
        RouteView::ActiveLayersSet
    } else if resource == "active_layers"@ && action == "clear"@ {
        RouteView::ActiveLayersClear
    } else if resource == "active_layers"@ && action == "add"@ {
        RouteView::ActiveLayersAdd
    } else if resource == "active_layers"@ && action == "reorder"@ {
        RouteView::ActiveLayersReorder
    } else if resource == "effects"@ && action == "create"@ {
        RouteView::EffectsCreate
    } else if resource == "active_scene"@ && action == "set"@ {
        RouteView::ActiveSceneSet
    } else {
        RouteView::Ignored
    }
}

/// Where the topic of an item, `{prefix}/{resource}/{id}/{action}`, goes.
pub open spec fn item_route(resource: Seq<char>, id: Seq<char>, action: Seq<char>) -> RouteView {
    if resource == "zones"@ && action == "update"@ {
        RouteView::ZoneUpdate(id)
    } else if resource == "zones"@ && action == "delete"@ {
        RouteView::ZoneDelete(id)
    } else if resource == "scenes"@ && action == "update"@ {
        RouteView::SceneUpdate(id)
    } else if resource == "scenes"@ && action == "delete"@ {
        RouteView::SceneDelete(id)
    } else if resource == "scenes"@ && action == "load"@ {
        RouteView::SceneLoad(id)
    } else if resource == "scenes"@ && action == "save"@ {
        RouteView::SceneSave(id)
    } else if resource == "active_layers"@ && action == "update"@ {
        RouteView::ActiveLayerUpdate(id)
    } else if resource == "active_layers"@ && action == "delete"@ {
        RouteView::ActiveLayerDelete(id)
    } else if resource == "effects"@ && action == "update"@ {
        RouteView::EffectUpdate(id)
    } else if resource == "effects"@ && action == "delete"@ {
        RouteView::EffectDelete(id)
    } else {
        RouteView::Ignored
    }
}

/// What the words of the command topics hold: no `/`, and each full topic
/// is its resource and action joined by `/`.
proof fn lemma_topic_words(prefix: Seq<char>)
    ensures
        !has_char("active_layers"@, '/'),
        !has_char("active_scene"@, '/'),
        !has_char("add"@, '/'),
        !has_char("clear"@, '/'),
        !has_char("create"@, '/'),
        !has_char("delete"@, '/'),
        !has_char("device"@, '/'),
        !has_char("effects"@, '/'),
        !has_char("load"@, '/'),
        !has_char("reorder"@, '/'),
        !has_char("save"@, '/'),
        !has_char("scenes"@, '/'),
        !has_char("set"@, '/'),
        !has_char("update"@, '/'),
        !has_char("zones"@, '/'),
        prefix + "/device/set"@ == fixed_topic(prefix, "device"@, "set"@),
        prefix + "/zones/create"@ == fixed_topic(prefix, "zones"@, "create"@),
        prefix + "/scenes/create"@ == fixed_topic(prefix, "scenes"@, "create"@),
        prefix + "/active_layers/set"@ == fixed_topic(prefix, "active_layers"@, "set"@),
        prefix + "/active_layers/clear"@ == fixed_topic(prefix, "active_layers"@, "clear"@),
        prefix + "/active_layers/add"@ == fixed_topic(prefix, "active_layers"@, "add"@),
        prefix + "/active_layers/reorder"@ == fixed_topic(prefix, "active_layers"@, "reorder"@),
        prefix + "/effects/create"@ == fixed_topic(prefix, "effects"@, "create"@),
        prefix + "/active_scene/set"@ == fixed_topic(prefix, "active_scene"@, "set"@),
{
    reveal_strlit("active_layers");
    reveal_strlit("active_scene");
    reveal_strlit("add");
    reveal_strlit("clear");
    reveal_strlit("create");
    reveal_strlit("delete");
    reveal_strlit("device");
    reveal_strlit("effects");
    reveal_strlit("load");
    reveal_strlit("reorder");
    reveal_strlit("save");
    reveal_strlit("scenes");
    reveal_strlit("set");
    reveal_strlit("update");
    reveal_strlit("zones");
    reveal_strlit("/device/set");
    reveal_strlit("/zones/create");
    reveal_strlit("/scenes/create");
    reveal_strlit("/active_layers/set");
    reveal_strlit("/active_layers/clear");
    reveal_strlit("/active_layers/add");
    reveal_strlit("/active_layers/reorder");
    reveal_strlit("/effects/create");
    reveal_strlit("/active_scene/set");
    assert(!has_char("active_layers"@, '/')) by {
        assert forall|i: int| 0 <= i < "active_layers"@.len() implies "active_layers"@[i] != '/' by {}
    }
    assert(!has_char("active_scene"@, '/')) by {
        assert forall|i: int| 0 <= i < "active_scene"@.len() implies "active_scene"@[i] != '/' by {}
    }
    assert(!has_char("add"@, '/')) by {
        assert forall|i: int| 0 <= i < "add"@.len() implies "add"@[i] != '/' by {}
    }
    assert(!has_char("clear"@, '/')) by {
        assert forall|i: int| 0 <= i < "clear"@.len() implies "clear"@[i] != '/' by {}
    }
    assert(!has_char("create"@, '/')) by {
        assert forall|i: int| 0 <= i < "create"@.len() implies "create"@[i] != '/' by {}
    }
    assert(!has_char("delete"@, '/')) by {
        assert forall|i: int| 0 <= i < "delete"@.len() implies "delete"@[i] != '/' by {}
    }
    assert(!has_char("device"@, '/')) by {
        assert forall|i: int| 0 <= i < "device"@.len() implies "device"@[i] != '/' by {}
    }
    assert(!has_char("effects"@, '/')) by {
        assert forall|i: int| 0 <= i < "effects"@.len() implies "effects"@[i] != '/' by {}
    }
    assert(!has_char("load"@, '/')) by {
        assert forall|i: int| 0 <= i < "load"@.len() implies "load"@[i] != '/' by {}
    }
    assert(!has_char("reorder"@, '/')) by {
        assert forall|i: int| 0 <= i < "reorder"@.len() implies "reorder"@[i] != '/' by {}
    }
    assert(!has_char("save"@, '/')) by {
        assert forall|i: int| 0 <= i < "save"@.len() implies "save"@[i] != '/' by {}
    }
    assert(!has_char("scenes"@, '/')) by {
        assert forall|i: int| 0 <= i < "scenes"@.len() implies "scenes"@[i] != '/' by {}
    }
    assert(!has_char("set"@, '/')) by {
        assert forall|i: int| 0 <= i < "set"@.len() implies "set"@[i] != '/' by {}
    }
    assert(!has_char("update"@, '/')) by {
        assert forall|i: int| 0 <= i < "update"@.len() implies "update"@[i] != '/' by {}
    }
    assert(!has_char("zones"@, '/')) by {
        assert forall|i: int| 0 <= i < "zones"@.len() implies "zones"@[i] != '/' by {}
    }
    assert(prefix + "/device/set"@ =~= fixed_topic(prefix, "device"@, "set"@));
    assert(prefix + "/zones/create"@ =~= fixed_topic(prefix, "zones"@, "create"@));
    assert(prefix + "/scenes/create"@ =~= fixed_topic(prefix, "scenes"@, "create"@));
    assert(prefix + "/active_layers/set"@ =~= fixed_topic(prefix, "active_layers"@, "set"@));
    assert(prefix + "/active_layers/clear"@ =~= fixed_topic(prefix, "active_layers"@, "clear"@));
    assert(prefix + "/active_layers/add"@ =~= fixed_topic(prefix, "active_layers"@, "add"@));
    assert(prefix + "/active_layers/reorder"@ =~= fixed_topic(prefix, "active_layers"@, "reorder"@));
    assert(prefix + "/effects/create"@ =~= fixed_topic(prefix, "effects"@, "create"@));
    assert(prefix + "/active_scene/set"@ =~= fixed_topic(prefix, "active_scene"@, "set"@));
}

/// A topic without an item goes where its resource and action say.
pub proof fn law_fixed_topic_routes(prefix: Seq<char>, resource: Seq<char>, action: Seq<char>)
    requires
        !has_char(resource, '/'),
        !has_char(action, '/'),
    ensures
        spec_route(prefix, fixed_topic(prefix, resource, action)) == fixed_route(resource, action),
{
    lemma_topic_words(prefix);
    if fixed_topic(prefix, resource, action) == fixed_topic(prefix, "device"@, "set"@) {
        lemma_fixed_topics_equal(prefix, resource, action, "device"@, "set"@);
    }
    if fixed_topic(prefix, resource, action) == fixed_topic(prefix, "zones"@, "create"@) {
        lemma_fixed_topics_equal(prefix, resource, action, "zones"@, "create"@);
    }
    if fixed_topic(prefix, resource, action) == fixed_topic(prefix, "scenes"@, "create"@) {
        lemma_fixed_topics_equal(prefix, resource, action, "scenes"@, "create"@);
    }
    if fixed_topic(prefix, resource, action) == fixed_topic(prefix, "active_layers"@, "set"@) {
        lemma_fixed_topics_equal(prefix, resource, action, "active_layers"@, "set"@);
    }
    if fixed_topic(prefix, resource, action) == fixed_topic(prefix, "active_layers"@, "clear"@) {
        lemma_fixed_topics_equal(prefix, resource, action, "active_layers"@, "clear"@);
    }
    if fixed_topic(prefix, resource, action) == fixed_topic(prefix, "active_layers"@, "add"@) {
        lemma_fixed_topics_equal(prefix, resource, action, "active_layers"@, "add"@);
    }
    if fixed_topic(prefix, resource, action) == fixed_topic(prefix, "active_layers"@, "reorder"@) {
        lemma_fixed_topics_equal(prefix, resource, action, "active_layers"@, "reorder"@);
    }
    if fixed_topic(prefix, resource, action) == fixed_topic(prefix, "effects"@, "create"@) {
        lemma_fixed_topics_equal(prefix, resource, action, "effects"@, "create"@);
    }
    if fixed_topic(prefix, resource, action) == fixed_topic(prefix, "active_scene"@, "set"@) {
        lemma_fixed_topics_equal(prefix, resource, action, "active_scene"@, "set"@);
    }
    lemma_extract_from_fixed(prefix, resource, action, "zones"@, "update"@);
    lemma_extract_from_fixed(prefix, resource, action, "zones"@, "delete"@);
    lemma_extract_from_fixed(prefix, resource, action, "scenes"@, "update"@);
    lemma_extract_from_fixed(prefix, resource, action, "scenes"@, "delete"@);
    lemma_extract_from_fixed(prefix, resource, action, "scenes"@, "load"@);
    lemma_extract_from_fixed(prefix, resource, action, "scenes"@, "save"@);
    lemma_extract_from_fixed(prefix, resource, action, "active_layers"@, "update"@);
    lemma_extract_from_fixed(prefix, resource, action, "active_layers"@, "delete"@);
    lemma_extract_from_fixed(prefix, resource, action, "effects"@, "update"@);
    lemma_extract_from_fixed(prefix, resource, action, "effects"@, "delete"@);
}

/// The topic of an item whose id holds no `/` goes to the handler for its
/// resource and action, with that id.
pub proof fn law_item_topic_routes(
    prefix: Seq<char>,
    resource: Seq<char>,
    id: Seq<char>,
    action: Seq<char>,
)
    requires
        !has_char(resource, '/'),
        !has_char(id, '/'),
    ensures
        spec_route(prefix, command_topic(prefix, resource, id, action)) == item_route(
            resource,
            id,
            action,
        ),
{
    lemma_topic_words(prefix);
    lemma_command_topic_not_fixed(prefix, resource, id, action, "device"@, "set"@);
    lemma_command_topic_not_fixed(prefix, resource, id, action, "zones"@, "create"@);
    lemma_command_topic_not_fixed(prefix, resource, id, action, "scenes"@, "create"@);
    lemma_command_topic_not_fixed(prefix, resource, id, action, "active_layers"@, "set"@);
    lemma_command_topic_not_fixed(prefix, resource, id, action, "active_layers"@, "clear"@);
    lemma_command_topic_not_fixed(prefix, resource, id, action, "active_layers"@, "add"@);
    lemma_command_topic_not_fixed(prefix, resource, id, action, "active_layers"@, "reorder"@);
    lemma_command_topic_not_fixed(prefix, resource, id, action, "effects"@, "create"@);
    lemma_command_topic_not_fixed(prefix, resource, id, action, "active_scene"@, "set"@);
    lemma_extract_from_command(prefix, resource, id, action, "zones"@, "update"@);
    lemma_extract_from_command(prefix, resource, id, action, "zones"@, "delete"@);
    lemma_extract_from_command(prefix, resource, id, action, "scenes"@, "update"@);
    lemma_extract_from_command(prefix, resource, id, action, "scenes"@, "delete"@);
    lemma_extract_from_command(prefix, resource, id, action, "scenes"@, "load"@);
    lemma_extract_from_command(prefix, resource, id, action, "scenes"@, "save"@);
    lemma_extract_from_command(prefix, resource, id, action, "active_layers"@, "update"@);
    lemma_extract_from_command(prefix, resource, id, action, "active_layers"@, "delete"@);
    lemma_extract_from_command(prefix, resource, id, action, "effects"@, "update"@);
    lemma_extract_from_command(prefix, resource, id, action, "effects"@, "delete"@);
}

} // verus!
