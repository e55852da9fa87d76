//! The MQTT topic names under a configurable prefix, and the parsing of
//! `{prefix}/{resource}/{id}/{action}` command topics.
use vstd::prelude::*;

use crate::text::{contains_char, ends_with, has_char, starts_with};

verus! {

/// The topic layout under one prefix.
pub struct Topics {
    pub prefix: String,
}

/// `prefix` followed by `tail`.
pub(crate) fn join(prefix: &String, tail: &str) -> (r: String)
    ensures
        r@ == prefix@ + tail@,
{
    prefix.clone().concat(tail)
}

/// The id carried by `topic` when it reads `{prefix}/{resource}/{id}/{action}`
/// and the id holds no `/`; `None` otherwise.
pub open spec fn spec_extract_id(
    prefix: Seq<char>,
    topic: Seq<char>,
    resource: Seq<char>,
    action: Seq<char>,
) -> Option<Seq<char>> {
    let head = prefix + seq!['/'] + resource + seq!['/'];
    let tail = seq!['/'] + action;
    if head.len() + tail.len() <= topic.len() && topic.subrange(0, head.len() as int) == head
        && topic.subrange(topic.len() - tail.len(), topic.len() as int) == tail && !has_char(
        topic.subrange(head.len() as int, topic.len() - tail.len()),
        '/',
    ) {
        Some(topic.subrange(head.len() as int, topic.len() - tail.len()))
    } else {
        None
    }
}

/// The command topic for one item: `{prefix}/{resource}/{id}/{action}`.
pub open spec fn command_topic(
    prefix: Seq<char>,
    resource: Seq<char>,
    id: Seq<char>,
    action: Seq<char>,
) -> Seq<char> {
    prefix + seq!['/'] + resource + seq!['/'] + id + seq!['/'] + action
}

/// A command topic built from an id without `/` gives that id back, and
/// any topic from which an id is extracted is the command topic of that id:
/// extraction and building are inverse to each other.
pub proof fn law_extract_id_inverts_command_topic(
    prefix: Seq<char>,
    resource: Seq<char>,
    id: Seq<char>,
    action: Seq<char>,
    topic: Seq<char>,
)
    ensures
        !has_char(id, '/') ==> spec_extract_id(
            prefix,
            command_topic(prefix, resource, id, action),
            resource,
            action,
        ) == Some(id),
        spec_extract_id(prefix, topic, resource, action) matches Some(m) ==> topic == command_topic(
            prefix,
            resource,
            m,
            action,
        ) && !has_char(m, '/'),
{
    let head = prefix + seq!['/'] + resource + seq!['/'];
    let tail = seq!['/'] + action;
    let t = command_topic(prefix, resource, id, action);
    assert(t =~= head + id + tail);
    assert(t.subrange(0, head.len() as int) =~= head);
    assert(t.subrange(t.len() - tail.len(), t.len() as int) =~= tail);
    assert(t.subrange(head.len() as int, t.len() - tail.len()) =~= id);
    if let Some(m) = spec_extract_id(prefix, topic, resource, action) {
        assert(topic =~= topic.subrange(0, head.len() as int) + m + topic.subrange(
            topic.len() - tail.len(),
            topic.len() as int,
        ));
        assert(topic =~= command_topic(prefix, resource, m, action));
    }
}

/// The length of the first level of `t`: its characters before the first
/// `/`, or all of them.
pub open spec fn first_level_len(t: Seq<char>) -> nat
    decreases t.len(),
{
    if t.len() == 0 || t[0] == '/' {
        0
    } else {
        1 + first_level_len(t.drop_first())
    }
}

/// Whether `topic` matches the MQTT subscription filter `filter` (one
/// without `#`): each `+` stands for one whole level of the topic, which may
/// be empty, and every other character stands for itself.
pub open spec fn filter_matches(filter: Seq<char>, topic: Seq<char>) -> bool
    decreases filter.len(),
{
    if filter.len() == 0 {
        topic.len() == 0
    } else if filter[0] == '+' {
        filter_matches(filter.drop_first(), topic.skip(first_level_len(topic) as int))
    } else {
        topic.len() > 0 && topic[0] == filter[0] && filter_matches(
            filter.drop_first(),
            topic.drop_first(),
        )
    }
}

/// The first level of a topic holds no `/`, and a `/` follows it unless it
/// ends the topic.
proof fn lemma_first_level(t: Seq<char>)
    ensures
        first_level_len(t) <= t.len(),
        !has_char(t.take(first_level_len(t) as int), '/'),
        first_level_len(t) < t.len() ==> t[first_level_len(t) as int] == '/',
    decreases t.len(),
{
    if t.len() > 0 && t[0] != '/' {
        let d = t.drop_first();
        lemma_first_level(d);
        let k = first_level_len(d) as int;
        let tk = t.take(k + 1);
        assert forall|i: int| 0 <= i < k + 1 implies #[trigger] tk[i] != '/' by {
            if i > 0 {
                assert(tk[i] == d.take(k)[i - 1]);
            }
        }
    }
}

/// A topic that reads `level`, `/`, more, where `level` holds no `/`, has
/// `level` as its first level.
proof fn lemma_first_level_of(level: Seq<char>, rest: Seq<char>)
    requires
        !has_char(level, '/'),
    ensures
        first_level_len(level + seq!['/'] + rest) == level.len(),
    decreases level.len(),
{
    let t = level + seq!['/'] + rest;
    if level.len() == 0 {
        assert(t[0] == '/');
    } else {
        assert(level[0] != '/');
        assert(t[0] == level[0]);
        assert(t.drop_first() =~= level.drop_first() + seq!['/'] + rest);
        assert(!has_char(level.drop_first(), '/')) by {
            assert forall|i: int| 0 <= i < level.drop_first().len() implies level.drop_first()[i]
                != '/' by {
                assert(level.drop_first()[i] == level[i + 1]);
            }
        }
        lemma_first_level_of(level.drop_first(), rest);
    }
}

/// A filter that begins with characters other than `+` matches a topic when
/// the topic begins with the same characters and the rest of the filter
/// matches the rest of the topic.
proof fn lemma_filter_literal_head(head: Seq<char>, rest: Seq<char>, topic: Seq<char>)
    requires
        !has_char(head, '+'),
    ensures
        filter_matches(head + rest, topic) == (head.len() <= topic.len() && topic.take(
            head.len() as int,
        ) == head && filter_matches(rest, topic.skip(head.len() as int))),
    decreases head.len(),
{
    if head.len() == 0 {
        assert(head + rest =~= rest);
        assert(topic.take(0) =~= head);
        assert(topic.skip(0) =~= topic);
    } else {
        let f = head + rest;
        assert(f[0] == head[0]);
        assert(head[0] != '+');
        assert(f.drop_first() =~= head.drop_first() + rest);
        assert(!has_char(head.drop_first(), '+')) by {
            assert forall|i: int| 0 <= i < head.drop_first().len() implies head.drop_first()[i]
                != '+' by {
                assert(head.drop_first()[i] == head[i + 1]);
            }
        }
        if topic.len() > 0 {
            lemma_filter_literal_head(head.drop_first(), rest, topic.drop_first());
            if head.len() <= topic.len() {
                let n = head.len() as int;
                assert(topic.drop_first().skip(n - 1) =~= topic.skip(n));
                if topic.take(n) == head {
                    assert(topic.drop_first().take(n - 1) =~= head.drop_first());
                }
                if topic[0] == head[0] && topic.drop_first().take(n - 1) == head.drop_first() {
                    assert forall|i: int| 0 <= i < n implies #[trigger] topic.take(n)[i]
                        == head[i] by {
                        if i > 0 {
                            assert(topic.drop_first().take(n - 1)[i - 1] == head.drop_first()[i
                                - 1]);
                        }
                    }
                    assert(topic.take(n) =~= head);
                }
            }
        }
    }
}

/// A filter without `+` matches exactly the topic that it spells.
pub proof fn law_plain_filter_matches_itself(filter: Seq<char>, topic: Seq<char>)
    requires
        !has_char(filter, '+'),
    ensures
        filter_matches(filter, topic) <==> topic == filter,
{
    lemma_filter_literal_head(filter, seq![], topic);
    assert(filter + seq![] =~= filter);
    if topic == filter {
        assert(topic.take(filter.len() as int) =~= filter);
    }
    if filter.len() <= topic.len() && topic.skip(filter.len() as int).len() == 0 {
        assert(topic =~= topic.take(filter.len() as int));
    }
}

/// The item filter `{prefix}/{resource}/+/{action}` matches exactly the
/// topics from which an item is read for that resource and action.
pub proof fn law_item_filter_matches_item_topics(
    prefix: Seq<char>,
    resource: Seq<char>,
    action: Seq<char>,
    topic: Seq<char>,
)
    requires
        !has_char(prefix, '+'),
        !has_char(resource, '+'),
        !has_char(action, '+'),
    ensures
        filter_matches(prefix + seq!['/'] + resource + seq!['/', '+', '/'] + action, topic)
            <==> spec_extract_id(prefix, topic, resource, action) is Some,
{
    let head = prefix + seq!['/'] + resource + seq!['/'];
    let tail = seq!['/'] + action;
    let filter = prefix + seq!['/'] + resource + seq!['/', '+', '/'] + action;
    assert(filter =~= head + (seq!['+'] + tail));
    assert(!has_char(head, '+')) by {
        assert forall|i: int| 0 <= i < head.len() implies head[i] != '+' by {
            if i < prefix.len() {
                assert(head[i] == prefix[i]);
            } else if prefix.len() + 1 <= i < prefix.len() + 1 + resource.len() {
                assert(head[i] == resource[i - prefix.len() - 1]);
            }
        }
    }
    assert(!has_char(tail, '+')) by {
        assert forall|i: int| 0 <= i < tail.len() implies tail[i] != '+' by {
            if i > 0 {
                assert(tail[i] == action[i - 1]);
            }
        }
    }
    lemma_filter_literal_head(head, seq!['+'] + tail, topic);
    let u = topic.skip(head.len() as int);
    assert((seq!['+'] + tail)[0] == '+');
    assert((seq!['+'] + tail).drop_first() =~= tail);
    let k = first_level_len(u);
    law_plain_filter_matches_itself(tail, u.skip(k as int));
    lemma_first_level(u);
    law_extract_id_inverts_command_topic(prefix, resource, seq![], action, topic);
    if filter_matches(filter, topic) {
        assert(topic.take(head.len() as int) == head);
        assert(u.skip(k as int) == tail);
        let id = u.take(k as int);
        assert(u =~= id + tail);
        assert(topic =~= head + id + tail);
        assert(topic =~= command_topic(prefix, resource, id, action));
        law_extract_id_inverts_command_topic(prefix, resource, id, action, topic);
    }
    if let Some(m) = spec_extract_id(prefix, topic, resource, action) {
        assert(topic =~= head + (m + tail));
        assert(topic.take(head.len() as int) =~= head);
        assert(u =~= m + tail);
        assert(u =~= m + seq!['/'] + action);
        lemma_first_level_of(m, action);
        assert(u.skip(k as int) =~= tail);
    }
}

/// A topic without an item: `{prefix}/{resource}/{action}`.
pub open spec fn fixed_topic(prefix: Seq<char>, resource: Seq<char>, action: Seq<char>) -> Seq<
    char,
> {
    prefix + seq!['/'] + resource + seq!['/'] + action
}

/// Two strings that each begin with a part holding no `/`, then `/`, begin
/// with the same part and go on the same way.
proof fn lemma_split_at_slash(s1: Seq<char>, t1: Seq<char>, s2: Seq<char>, t2: Seq<char>)
    requires
        s1 + seq!['/'] + t1 == s2 + seq!['/'] + t2,
        !has_char(s1, '/'),
        !has_char(s2, '/'),
    ensures
        s1 == s2,
        t1 == t2,
{
    let x = s1 + seq!['/'] + t1;
    let y = s2 + seq!['/'] + t2;
    if s1.len() < s2.len() {
        assert(x[s1.len() as int] == '/');
        assert(y[s1.len() as int] == s2[s1.len() as int]);
    } else if s2.len() < s1.len() {
        assert(y[s2.len() as int] == '/');
        assert(x[s2.len() as int] == s1[s2.len() as int]);
    }
    assert(s1 =~= x.subrange(0, s1.len() as int));
    assert(s2 =~= y.subrange(0, s2.len() as int));
    assert(t1 =~= x.subrange(s1.len() as int + 1, x.len() as int));
    assert(t2 =~= y.subrange(s2.len() as int + 1, y.len() as int));
}

/// The part of a topic after the prefix, when both topics share the prefix.
proof fn lemma_after_prefix(prefix: Seq<char>, a: Seq<char>, b: Seq<char>)
    requires
        prefix + a == prefix + b,
    ensures
        a == b,
{
    assert(a =~= (prefix + a).subrange(prefix.len() as int, (prefix + a).len() as int));
    assert(b =~= (prefix + b).subrange(prefix.len() as int, (prefix + b).len() as int));
}

/// Item topics are equal only for the same resource, id and action, when the
/// resources and ids hold no `/`.
pub proof fn lemma_command_topics_equal(
    prefix: Seq<char>,
    r1: Seq<char>,
    id1: Seq<char>,
    a1: Seq<char>,
    r2: Seq<char>,
    id2: Seq<char>,
    a2: Seq<char>,
)
    requires
        command_topic(prefix, r1, id1, a1) == command_topic(prefix, r2, id2, a2),
        !has_char(r1, '/'),
        !has_char(r2, '/'),
        !has_char(id1, '/'),
        !has_char(id2, '/'),
    ensures
        r1 == r2 && id1 == id2 && a1 == a2,
{
    let rest1 = r1 + seq!['/'] + (id1 + seq!['/'] + a1);
    let rest2 = r2 + seq!['/'] + (id2 + seq!['/'] + a2);
    assert(command_topic(prefix, r1, id1, a1) =~= prefix + (seq!['/'] + rest1));
    assert(command_topic(prefix, r2, id2, a2) =~= prefix + (seq!['/'] + rest2));
    lemma_after_prefix(prefix, seq!['/'] + rest1, seq!['/'] + rest2);
    assert(rest1 =~= (seq!['/'] + rest1).drop_first());
    assert(rest2 =~= (seq!['/'] + rest2).drop_first());
    lemma_split_at_slash(r1, id1 + seq!['/'] + a1, r2, id2 + seq!['/'] + a2);
    lemma_split_at_slash(id1, a1, id2, a2);
}

/// Topics without an item are equal only for the same resource and action,
/// when the resources hold no `/`.
pub proof fn lemma_fixed_topics_equal(
    prefix: Seq<char>,
    r1: Seq<char>,
    a1: Seq<char>,
    r2: Seq<char>,
    a2: Seq<char>,
)
    requires
        fixed_topic(prefix, r1, a1) == fixed_topic(prefix, r2, a2),
        !has_char(r1, '/'),
        !has_char(r2, '/'),
    ensures
        r1 == r2 && a1 == a2,
{
    let rest1 = r1 + seq!['/'] + a1;
    let rest2 = r2 + seq!['/'] + a2;
    assert(fixed_topic(prefix, r1, a1) =~= prefix + (seq!['/'] + rest1));
    assert(fixed_topic(prefix, r2, a2) =~= prefix + (seq!['/'] + rest2));
    lemma_after_prefix(prefix, seq!['/'] + rest1, seq!['/'] + rest2);
    assert(rest1 =~= (seq!['/'] + rest1).drop_first());
    assert(rest2 =~= (seq!['/'] + rest2).drop_first());
    lemma_split_at_slash(r1, a1, r2, a2);
}

/// An item topic is never a topic without an item, when the resources, the
/// id and the action without item hold no `/`.
pub proof fn lemma_command_topic_not_fixed(
    prefix: Seq<char>,
    r1: Seq<char>,
    id: Seq<char>,
    a1: Seq<char>,
    r2: Seq<char>,
    a2: Seq<char>,
)
    requires
        !has_char(r1, '/'),
        !has_char(r2, '/'),
        !has_char(a2, '/'),
    ensures
        command_topic(prefix, r1, id, a1) != fixed_topic(prefix, r2, a2),
{
    if command_topic(prefix, r1, id, a1) == fixed_topic(prefix, r2, a2) {
        let rest1 = r1 + seq!['/'] + (id + seq!['/'] + a1);
        let rest2 = r2 + seq!['/'] + a2;
        assert(command_topic(prefix, r1, id, a1) =~= prefix + (seq!['/'] + rest1));
        assert(fixed_topic(prefix, r2, a2) =~= prefix + (seq!['/'] + rest2));
        lemma_after_prefix(prefix, seq!['/'] + rest1, seq!['/'] + rest2);
        assert(rest1 =~= (seq!['/'] + rest1).drop_first());
        assert(rest2 =~= (seq!['/'] + rest2).drop_first());
        lemma_split_at_slash(r1, id + seq!['/'] + a1, r2, a2);
        assert((id + seq!['/'] + a1)[id.len() as int] == '/');
    }
}

/// No item is read from a topic without an item.
pub proof fn lemma_extract_from_fixed(
    prefix: Seq<char>,
    r1: Seq<char>,
    a1: Seq<char>,
    r2: Seq<char>,
    a2: Seq<char>,
)
    requires
        !has_char(r1, '/'),
        !has_char(a1, '/'),
        !has_char(r2, '/'),
    ensures
        spec_extract_id(prefix, fixed_topic(prefix, r1, a1), r2, a2) is None,
{
    let t = fixed_topic(prefix, r1, a1);
    law_extract_id_inverts_command_topic(prefix, r2, seq![], a2, t);
    if let Some(m) = spec_extract_id(prefix, t, r2, a2) {
        lemma_command_topic_not_fixed(prefix, r2, m, a2, r1, a1);
    }
}

/// From an item topic, the item is read back for its own resource and action
/// and for no other.
pub proof fn lemma_extract_from_command(
    prefix: Seq<char>,
    r1: Seq<char>,
    id: Seq<char>,
    a1: Seq<char>,
    r2: Seq<char>,
    a2: Seq<char>,
)
    requires
        !has_char(r1, '/'),
        !has_char(id, '/'),
        !has_char(r2, '/'),
    ensures
        spec_extract_id(prefix, command_topic(prefix, r1, id, a1), r2, a2) == (if r1 == r2 && a1
            == a2 {
            Some(id)
        } else {
            None
        }),
{
    let t = command_topic(prefix, r1, id, a1);
    law_extract_id_inverts_command_topic(prefix, r1, id, a1, t);
    law_extract_id_inverts_command_topic(prefix, r2, id, a2, t);
    if let Some(m) = spec_extract_id(prefix, t, r2, a2) {
        lemma_command_topics_equal(prefix, r1, id, a1, r2, m, a2);
    }
}

impl Topics {
    /// The topics under `prefix`.
    pub fn new(prefix: &str) -> (r: Self)
        ensures
            r.prefix@ == prefix@,
    {
        Topics { prefix: prefix.to_owned() }
    }

    /// The retained device state.
    pub fn device_state(&self) -> (r: String)
        ensures
            r@ == self.prefix@ + "/device/state"@,
    {
        join(&self.prefix, "/device/state")
    }

    /// Device commands (power, brightness, colour, effect).
    pub fn device_set(&self) -> (r: String)
        ensures
            r@ == self.prefix@ + "/device/set"@,
    {
        join(&self.prefix, "/device/set")
    }

    /// The retained list of zones.
    pub fn zones(&self) -> (r: String)
        ensures
            r@ == self.prefix@ + "/zones"@,
    {
        join(&self.prefix, "/zones")
    }

    /// Zone creation commands.
    pub fn zones_create(&self) -> (r: String)
        ensures
            r@ == self.prefix@ + "/zones/create"@,
    {
        join(&self.prefix, "/zones/create")
    }

    /// Subscription filter for zone updates.
    pub fn zones_update_wildcard(&self) -> (r: String)
        ensures
            r@ == self.prefix@ + "/zones/+/update"@,
    {
        join(&self.prefix, "/zones/+/update")
    }

    /// Subscription filter for zone deletions.
    pub fn zones_delete_wildcard(&self) -> (r: String)
        ensures
            r@ == self.prefix@ + "/zones/+/delete"@,
    {
        join(&self.prefix, "/zones/+/delete")
    }

    /// The retained list of scenes.
    pub fn scenes(&self) -> (r: String)
        ensures
            r@ == self.prefix@ + "/scenes"@,
    {
        join(&self.prefix, "/scenes")
    }

    /// Scene creation commands.
    pub fn scenes_create(&self) -> (r: String)
        ensures
            r@ == self.prefix@ + "/scenes/create"@,
    {
        join(&self.prefix, "/scenes/create")
    }

    /// Subscription filter for scene renames.
    pub fn scenes_update_wildcard(&self) -> (r: String)
        ensures
            r@ == self.prefix@ + "/scenes/+/update"@,
    {
        join(&self.prefix, "/scenes/+/update")
    }

    /// Subscription filter for scene deletions.
    pub fn scenes_delete_wildcard(&self) -> (r: String)
        ensures
            r@ == self.prefix@ + "/scenes/+/delete"@,
    {
        join(&self.prefix, "/scenes/+/delete")
    }

    /// Subscription filter for loading a scene into the active one.
    pub fn scenes_load_wildcard(&self) -> (r: String)
        ensures
            r@ == self.prefix@ + "/scenes/+/load"@,
    {
        join(&self.prefix, "/scenes/+/load")
    }

    /// Subscription filter for saving the active layers into a scene.
    pub fn scenes_save_wildcard(&self) -> (r: String)
        ensures
            r@ == self.prefix@ + "/scenes/+/save"@,
    {
        join(&self.prefix, "/scenes/+/save")
    }

    /// The retained list of active layers.
    pub fn active_layers(&self) -> (r: String)
        ensures
            r@ == self.prefix@ + "/active_layers"@,
    {
        join(&self.prefix, "/active_layers")
    }

    /// Replacing all active layers.
    pub fn active_layers_set(&self) -> (r: String)
        ensures
            r@ == self.prefix@ + "/active_layers/set"@,
    {
        join(&self.prefix, "/active_layers/set")
    }

    /// Clearing the active layers.
    pub fn active_layers_clear(&self) -> (r: String)
        ensures
            r@ == self.prefix@ + "/active_layers/clear"@,
    {
        join(&self.prefix, "/active_layers/clear")
    }

    /// Adding one active layer.
    pub fn active_layers_add(&self) -> (r: String)
        ensures
            r@ == self.prefix@ + "/active_layers/add"@,
    {
        join(&self.prefix, "/active_layers/add")
    }

    /// Reordering the active layers.
    pub fn active_layers_reorder(&self) -> (r: String)
        ensures
            r@ == self.prefix@ + "/active_layers/reorder"@,
    {
        join(&self.prefix, "/active_layers/reorder")
    }

    /// Subscription filter for active layer updates.
    pub fn active_layers_update_wildcard(&self) -> (r: String)
        ensures
            r@ == self.prefix@ + "/active_layers/+/update"@,
    {
        join(&self.prefix, "/active_layers/+/update")
    }

    /// Subscription filter for active layer removals.
    pub fn active_layers_delete_wildcard(&self) -> (r: String)
        ensures
            r@ == self.prefix@ + "/active_layers/+/delete"@,
    {
        join(&self.prefix, "/active_layers/+/delete")
    }

    /// The retained list of effects.
    pub fn effects(&self) -> (r: String)
        ensures
            r@ == self.prefix@ + "/effects"@,
    {
        join(&self.prefix, "/effects")
    }

    /// Effect creation commands.
    pub fn effects_create(&self) -> (r: String)
        ensures
            r@ == self.prefix@ + "/effects/create"@,
    {
        join(&self.prefix, "/effects/create")
    }

    /// Subscription filter for effect updates.
    pub fn effects_update_wildcard(&self) -> (r: String)
        ensures
            r@ == self.prefix@ + "/effects/+/update"@,
    {
        join(&self.prefix, "/effects/+/update")
    }

    /// Subscription filter for effect deletions.
    pub fn effects_delete_wildcard(&self) -> (r: String)
        ensures
            r@ == self.prefix@ + "/effects/+/delete"@,
    {
        join(&self.prefix, "/effects/+/delete")
    }

    /// Selecting the active scene by name.
    pub fn active_scene_set(&self) -> (r: String)
        ensures
            r@ == self.prefix@ + "/active_scene/set"@,
    {
        join(&self.prefix, "/active_scene/set")
    }

    /// The retained name of the selected scene.
    pub fn active_scene_state(&self) -> (r: String)
        ensures
            r@ == self.prefix@ + "/active_scene/state"@,
    {
        join(&self.prefix, "/active_scene/state")
    }

    /// One zone's retained record.
    pub fn zone(&self, id: &str) -> (r: String)
        ensures
            r@ == self.prefix@ + "/zones/"@ + id@,
    {
        join(&self.prefix, "/zones/").concat(id)
    }

    /// One scene's retained record.
    pub fn scene(&self, id: &str) -> (r: String)
        ensures
            r@ == self.prefix@ + "/scenes/"@ + id@,
    {
        join(&self.prefix, "/scenes/").concat(id)
    }

    /// One effect's retained record.
    pub fn effect(&self, id: &str) -> (r: String)
        ensures
            r@ == self.prefix@ + "/effects/"@ + id@,
    {
        join(&self.prefix, "/effects/").concat(id)
    }

    /// One active layer's retained record.
    pub fn active_layer(&self, id: &str) -> (r: String)
        ensures
            r@ == self.prefix@ + "/active_layers/"@ + id@,
    {
        join(&self.prefix, "/active_layers/").concat(id)
    }

    /// Extract the middle segment from `{prefix}/{resource}/{id}/{action}`.
    pub fn extract_id<'a>(&self, topic: &'a str, resource: &str, action: &str) -> (r: Option<
        &'a str,
    >)
        ensures
            r matches Some(m) ==> spec_extract_id(self.prefix@, topic@, resource@, action@) == Some(
                m@,
            ),
            r is None ==> spec_extract_id(self.prefix@, topic@, resource@, action@) is None,
    {
        let head = join(&self.prefix, "/").concat(resource).concat("/");
        let tail = String::from_str("/").concat(action);
        proof {
            reveal_strlit("/");
            assert(head@ =~= self.prefix@ + seq!['/'] + resource@ + seq!['/']);
            assert(tail@ =~= seq!['/'] + action@);
        }
        let n = topic.unicode_len();
        let hn = head.as_str().unicode_len();
        let tn = tail.as_str().unicode_len();
        if hn > n || tn > n - hn {
            return None;
        }
        if !starts_with(topic, head.as_str()) {
            return None;
        }
        if !ends_with(topic, tail.as_str()) {
            return None;
        }
        let middle = topic.substring_char(hn, n - tn);
        if contains_char(middle, '/') {
            return None;
        }
        Some(middle)
    }
}

} // verus!
