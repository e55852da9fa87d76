//! Joining the broker: the client id, the credentials, the connection
//! settings, and the command topics to subscribe to.
use vstd::prelude::*;

use crate::config::MqttConfig;
use crate::handlers::route::spec_route;
use crate::text::has_char;
use crate::topics::{
    filter_matches, law_item_filter_matches_item_topics, law_plain_filter_matches_itself,
    spec_extract_id, Topics,
};

verus! {

/// The command topics' suffixes after the prefix, in subscription order.
pub open spec fn command_suffixes() -> Seq<Seq<char>> {
    seq![
        "/device/set"@,
        "/zones/create"@,
        "/zones/+/update"@,
        "/zones/+/delete"@,
        "/scenes/create"@,
        "/scenes/+/update"@,
        "/scenes/+/delete"@,
        "/scenes/+/load"@,
        "/scenes/+/save"@,
        "/active_layers/set"@,
        "/active_layers/clear"@,
        "/active_layers/add"@,
        "/active_layers/reorder"@,
        "/active_layers/+/update"@,
        "/active_layers/+/delete"@,
        "/effects/create"@,
        "/effects/+/update"@,
        "/effects/+/delete"@,
        "/active_scene/set"@,
    ]
}

/// Every command topic under `t`'s prefix, in subscription order.
pub fn subscription_topics(t: &Topics) -> (r: Vec<String>)
    ensures
        r@.len() == command_suffixes().len(),
        forall|i: int|
            0 <= i < r@.len() ==> (#[trigger] r@[i])@ == t.prefix@ + command_suffixes()[i],
{
    let r = vec![
        t.device_set(),
        t.zones_create(),
        t.zones_update_wildcard(),
        t.zones_delete_wildcard(),
        t.scenes_create(),
        t.scenes_update_wildcard(),
        t.scenes_delete_wildcard(),
        t.scenes_load_wildcard(),
        t.scenes_save_wildcard(),
        t.active_layers_set(),
        t.active_layers_clear(),
        t.active_layers_add(),
        t.active_layers_reorder(),
        t.active_layers_update_wildcard(),
        t.active_layers_delete_wildcard(),
        t.effects_create(),
        t.effects_update_wildcard(),
        t.effects_delete_wildcard(),
        t.active_scene_set(),
    ];
    r
}

/// A string made of two strings without `c` holds no `c`.
proof fn lemma_concat_without(a: Seq<char>, b: Seq<char>, c: char)
    requires
        !has_char(a, c),
        !has_char(b, c),
    ensures
        !has_char(a + b, c),
{
    assert forall|i: int| 0 <= i < (a + b).len() implies (a + b)[i] != c by {
        if i < a.len() {
            assert((a + b)[i] == a[i]);
        } else {
            assert((a + b)[i] == b[i - a.len()]);
        }
    }
}

/// A filter of the prefix and a suffix, neither with `+`, matches only the
/// topic it spells.
proof fn lemma_fixed_filter(prefix: Seq<char>, suffix: Seq<char>, topic: Seq<char>)
    requires
        !has_char(prefix, '+'),
        !has_char(suffix, '+'),
    ensures
        filter_matches(prefix + suffix, topic) <==> topic == prefix + suffix,
{
    lemma_concat_without(prefix, suffix, '+');
    law_plain_filter_matches_itself(prefix + suffix, topic);
}

/// A filter of the prefix and `/{resource}/+/{action}` matches the topics
/// from which an item is read for that resource and action.
proof fn lemma_item_filter(
    prefix: Seq<char>,
    suffix: Seq<char>,
    resource: Seq<char>,
    action: Seq<char>,
    topic: Seq<char>,
)
    requires
        !has_char(prefix, '+'),
        !has_char(resource, '+'),
        !has_char(action, '+'),
        suffix == seq!['/'] + resource + seq!['/', '+', '/'] + action,
    ensures
        filter_matches(prefix + suffix, topic) <==> spec_extract_id(prefix, topic, resource, action) is Some,
{
    assert(prefix + suffix =~= prefix + seq!['/'] + resource + seq!['/', '+', '/'] + action);
    law_item_filter_matches_item_topics(prefix, resource, action, topic);
}

/// The words of the subscription filters.
proof fn lemma_filter_words()
    ensures
        !has_char("/device/set"@, '+'),
        !has_char("/zones/create"@, '+'),
        !has_char("/scenes/create"@, '+'),
        !has_char("/active_layers/set"@, '+'),
        !has_char("/active_layers/clear"@, '+'),
        !has_char("/active_layers/add"@, '+'),
        !has_char("/active_layers/reorder"@, '+'),
        !has_char("/effects/create"@, '+'),
        !has_char("/active_scene/set"@, '+'),
        !has_char("active_layers"@, '+'),
        !has_char("delete"@, '+'),
        !has_char("effects"@, '+'),
        !has_char("load"@, '+'),
        !has_char("save"@, '+'),
        !has_char("scenes"@, '+'),
        !has_char("update"@, '+'),
        !has_char("zones"@, '+'),
        "/zones/+/update"@ == seq!['/'] + "zones"@ + seq!['/', '+', '/'] + "update"@,
        "/zones/+/delete"@ == seq!['/'] + "zones"@ + seq!['/', '+', '/'] + "delete"@,
        "/scenes/+/update"@ == seq!['/'] + "scenes"@ + seq!['/', '+', '/'] + "update"@,
        "/scenes/+/delete"@ == seq!['/'] + "scenes"@ + seq!['/', '+', '/'] + "delete"@,
        "/scenes/+/load"@ == seq!['/'] + "scenes"@ + seq!['/', '+', '/'] + "load"@,
        "/scenes/+/save"@ == seq!['/'] + "scenes"@ + seq!['/', '+', '/'] + "save"@,
        "/active_layers/+/update"@ == seq!['/'] + "active_layers"@ + seq!['/', '+', '/'] + "update"@,
        "/active_layers/+/delete"@ == seq!['/'] + "active_layers"@ + seq!['/', '+', '/'] + "delete"@,
        "/effects/+/update"@ == seq!['/'] + "effects"@ + seq!['/', '+', '/'] + "update"@,
        "/effects/+/delete"@ == seq!['/'] + "effects"@ + seq!['/', '+', '/'] + "delete"@,
{
    reveal_strlit("/zones/+/delete");
    reveal_strlit("/scenes/+/delete");
    reveal_strlit("/scenes/+/save");
    reveal_strlit("/active_layers/reorder");
    reveal_strlit("active_layers");
    reveal_strlit("scenes");
    reveal_strlit("zones");
    reveal_strlit("delete");
    reveal_strlit("/active_layers/clear");
    reveal_strlit("/zones/+/update");
    reveal_strlit("/device/set");
    reveal_strlit("/scenes/create");
    reveal_strlit("/effects/+/delete");
    reveal_strlit("/active_layers/add");
    reveal_strlit("update");
    reveal_strlit("/scenes/+/load");
    reveal_strlit("/scenes/+/update");
    reveal_strlit("load");
    reveal_strlit("/zones/create");
    reveal_strlit("/effects/+/update");
    reveal_strlit("/active_layers/set");
    reveal_strlit("/active_layers/+/delete");
    reveal_strlit("effects");
    reveal_strlit("/effects/create");
    reveal_strlit("save");
    reveal_strlit("/active_scene/set");
    reveal_strlit("/active_layers/+/update");
    assert(!has_char("/device/set"@, '+')) by {
        assert forall|i: int| 0 <= i < "/device/set"@.len() implies "/device/set"@[i] != '+' by {}
    }
    assert(!has_char("/zones/create"@, '+')) by {
        assert forall|i: int| 0 <= i < "/zones/create"@.len() implies "/zones/create"@[i] != '+' by {}
    }
    assert(!has_char("/scenes/create"@, '+')) by {
        assert forall|i: int| 0 <= i < "/scenes/create"@.len() implies "/scenes/create"@[i] != '+' by {}
    }
    assert(!has_char("/active_layers/set"@, '+')) by {
        assert forall|i: int| 0 <= i < "/active_layers/set"@.len() implies "/active_layers/set"@[i] != '+' by {}
    }
    assert(!has_char("/active_layers/clear"@, '+')) by {
        assert forall|i: int| 0 <= i < "/active_layers/clear"@.len() implies "/active_layers/clear"@[i] != '+' by {}
    }
    assert(!has_char("/active_layers/add"@, '+')) by {
        assert forall|i: int| 0 <= i < "/active_layers/add"@.len() implies "/active_layers/add"@[i] != '+' by {}
    }
    assert(!has_char("/active_layers/reorder"@, '+')) by {
        assert forall|i: int| 0 <= i < "/active_layers/reorder"@.len() implies "/active_layers/reorder"@[i] != '+' by {}
    }
    assert(!has_char("/effects/create"@, '+')) by {
        assert forall|i: int| 0 <= i < "/effects/create"@.len() implies "/effects/create"@[i] != '+' by {}
    }
    assert(!has_char("/active_scene/set"@, '+')) by {
        assert forall|i: int| 0 <= i < "/active_scene/set"@.len() implies "/active_scene/set"@[i] != '+' by {}
    }
    assert(!has_char("active_layers"@, '+')) by {
        assert forall|i: int| 0 <= i < "active_layers"@.len() implies "active_layers"@[i] != '+' by {}
    }
    assert(!has_char("delete"@, '+')) by {
        assert forall|i: int| 0 <= i < "delete"@.len() implies "delete"@[i] != '+' by {}
    }
    assert(!has_char("effects"@, '+')) by {
        assert forall|i: int| 0 <= i < "effects"@.len() implies "effects"@[i] != '+' by {}
    }
    assert(!has_char("load"@, '+')) by {
        assert forall|i: int| 0 <= i < "load"@.len() implies "load"@[i] != '+' by {}
    }
    assert(!has_char("save"@, '+')) by {
        assert forall|i: int| 0 <= i < "save"@.len() implies "save"@[i] != '+' by {}
    }
    assert(!has_char("scenes"@, '+')) by {
        assert forall|i: int| 0 <= i < "scenes"@.len() implies "scenes"@[i] != '+' by {}
    }
    assert(!has_char("update"@, '+')) by {
        assert forall|i: int| 0 <= i < "update"@.len() implies "update"@[i] != '+' by {}
    }
    assert(!has_char("zones"@, '+')) by {
        assert forall|i: int| 0 <= i < "zones"@.len() implies "zones"@[i] != '+' by {}
    }
    assert("/zones/+/update"@ =~= seq!['/'] + "zones"@ + seq!['/', '+', '/'] + "update"@);
    assert("/zones/+/delete"@ =~= seq!['/'] + "zones"@ + seq!['/', '+', '/'] + "delete"@);
    assert("/scenes/+/update"@ =~= seq!['/'] + "scenes"@ + seq!['/', '+', '/'] + "update"@);
    assert("/scenes/+/delete"@ =~= seq!['/'] + "scenes"@ + seq!['/', '+', '/'] + "delete"@);
    assert("/scenes/+/load"@ =~= seq!['/'] + "scenes"@ + seq!['/', '+', '/'] + "load"@);
    assert("/scenes/+/save"@ =~= seq!['/'] + "scenes"@ + seq!['/', '+', '/'] + "save"@);
    assert("/active_layers/+/update"@ =~= seq!['/'] + "active_layers"@ + seq!['/', '+', '/'] + "update"@);
    assert("/active_layers/+/delete"@ =~= seq!['/'] + "active_layers"@ + seq!['/', '+', '/'] + "delete"@);
    assert("/effects/+/update"@ =~= seq!['/'] + "effects"@ + seq!['/', '+', '/'] + "update"@);
    assert("/effects/+/delete"@ =~= seq!['/'] + "effects"@ + seq!['/', '+', '/'] + "delete"@);
}

/// A topic matches one of the subscribed command filters exactly when it is
/// routed to a handler: the subscriptions let through every command topic
/// and no other.
pub proof fn law_subscriptions_match_routed_topics(prefix: Seq<char>, topic: Seq<char>)
    requires
        !has_char(prefix, '+'),
    ensures
        (exists|i: int|
            0 <= i < command_suffixes().len() && #[trigger] filter_matches(
                prefix + command_suffixes()[i],
                topic,
            )) <==> !(spec_route(prefix, topic) is Ignored),
{
    lemma_filter_words();
    let s = command_suffixes();
    lemma_fixed_filter(prefix, s[0], topic);
    lemma_fixed_filter(prefix, s[1], topic);
    lemma_item_filter(prefix, s[2], "zones"@, "update"@, topic);
    lemma_item_filter(prefix, s[3], "zones"@, "delete"@, topic);
    lemma_fixed_filter(prefix, s[4], topic);
    lemma_item_filter(prefix, s[5], "scenes"@, "update"@, topic);
    lemma_item_filter(prefix, s[6], "scenes"@, "delete"@, topic);
    lemma_item_filter(prefix, s[7], "scenes"@, "load"@, topic);
    lemma_item_filter(prefix, s[8], "scenes"@, "save"@, topic);
    lemma_fixed_filter(prefix, s[9], topic);
    lemma_fixed_filter(prefix, s[10], topic);
    lemma_fixed_filter(prefix, s[11], topic);
    lemma_fixed_filter(prefix, s[12], topic);
    lemma_item_filter(prefix, s[13], "active_layers"@, "update"@, topic);
    lemma_item_filter(prefix, s[14], "active_layers"@, "delete"@, topic);
    lemma_fixed_filter(prefix, s[15], topic);
    lemma_item_filter(prefix, s[16], "effects"@, "update"@, topic);
    lemma_item_filter(prefix, s[17], "effects"@, "delete"@, topic);
    lemma_fixed_filter(prefix, s[18], topic);
    if !(spec_route(prefix, topic) is Ignored) {
        if topic == prefix + "/device/set"@ {
            assert(filter_matches(prefix + s[0], topic));
        } else if topic == prefix + "/zones/create"@ {
            assert(filter_matches(prefix + s[1], topic));
        } else if spec_extract_id(prefix, topic, "zones"@, "update"@) is Some {
            assert(filter_matches(prefix + s[2], topic));
        } else if spec_extract_id(prefix, topic, "zones"@, "delete"@) is Some {
            assert(filter_matches(prefix + s[3], topic));
        } else if topic == prefix + "/scenes/create"@ {
            assert(filter_matches(prefix + s[4], topic));
        } else if spec_extract_id(prefix, topic, "scenes"@, "update"@) is Some {
            assert(filter_matches(prefix + s[5], topic));
        } else if spec_extract_id(prefix, topic, "scenes"@, "delete"@) is Some {
            assert(filter_matches(prefix + s[6], topic));
        } else if spec_extract_id(prefix, topic, "scenes"@, "load"@) is Some {
            assert(filter_matches(prefix + s[7], topic));
        } else if spec_extract_id(prefix, topic, "scenes"@, "save"@) is Some {
            assert(filter_matches(prefix + s[8], topic));
        } else if topic == prefix + "/active_layers/set"@ {
            assert(filter_matches(prefix + s[9], topic));
        } else if topic == prefix + "/active_layers/clear"@ {
            assert(filter_matches(prefix + s[10], topic));
        } else if topic == prefix + "/active_layers/add"@ {
            assert(filter_matches(prefix + s[11], topic));
        } else if topic == prefix + "/active_layers/reorder"@ {
            assert(filter_matches(prefix + s[12], topic));
        } else if spec_extract_id(prefix, topic, "active_layers"@, "update"@) is Some {
            assert(filter_matches(prefix + s[13], topic));
        } else if spec_extract_id(prefix, topic, "active_layers"@, "delete"@) is Some {
            assert(filter_matches(prefix + s[14], topic));
        } else if topic == prefix + "/effects/create"@ {
            assert(filter_matches(prefix + s[15], topic));
        } else if spec_extract_id(prefix, topic, "effects"@, "update"@) is Some {
            assert(filter_matches(prefix + s[16], topic));
        } else if spec_extract_id(prefix, topic, "effects"@, "delete"@) is Some {
            assert(filter_matches(prefix + s[17], topic));
        } else if topic == prefix + "/active_scene/set"@ {
            assert(filter_matches(prefix + s[18], topic));
        }
    }
}

/// The client id under which the controller joins the broker.
pub fn client_id(device_id: &str) -> (r: String)
    ensures
        r@ == "lumehub-"@ + device_id@,
{
    String::from_str("lumehub-").concat(device_id)
}

/// A configured value that is present and not empty.
pub open spec fn given(v: Option<String>) -> bool {
    v matches Some(s) && s@.len() > 0
}

/// The user name and password to log in with: both must be given and not
/// empty, else the controller connects without credentials.
pub fn credentials(config: &MqttConfig) -> (r: Option<(String, String)>)
    ensures
        r is Some <==> given(config.username) && given(config.password),
        r matches Some((u, p)) ==> u@ == config.username.unwrap()@ && p@
            == config.password.unwrap()@,
{
    match (&config.username, &config.password) {
        (Some(u), Some(p)) => {
            if u.as_str().is_empty() || p.as_str().is_empty() {
                None
            } else {
                Some((u.clone(), p.clone()))
            }
        },
        _ => None,
    }
}

/// How the controller connects to the broker.
pub struct ConnectPlan {
    pub client_id: String,
    pub host: String,
    pub port: u16,
    pub keep_alive_secs: u64,
    pub clean_session: bool,
    /// The largest packet accepted and sent, in bytes.
    pub max_packet_size: usize,
    /// How many requests may wait for the event loop.
    pub request_capacity: usize,
    /// How long to wait before connecting again after a failure.
    pub retry_delay_secs: u64,
    pub credentials: Option<(String, String)>,
}

/// The connection settings for `config`.
pub fn connect_plan(config: &MqttConfig) -> (r: ConnectPlan)
    ensures
        r.client_id@ == "lumehub-"@ + config.device_id@,
        r.host@ == config.host@,
        r.port == config.port,
        r.keep_alive_secs == 60,
        r.clean_session,
        r.max_packet_size == 1024 * 1024,
        r.request_capacity == 256,
        r.retry_delay_secs == 5,
        r.credentials is Some <==> given(config.username) && given(config.password),
        r.credentials matches Some((u, p)) ==> u@ == config.username.unwrap()@ && p@
            == config.password.unwrap()@,
{
    ConnectPlan {
        client_id: client_id(config.device_id.as_str()),
        host: config.host.clone(),
        port: config.port,
        keep_alive_secs: 60,
        clean_session: true,
        max_packet_size: 1024 * 1024,
        request_capacity: 256,
        retry_delay_secs: 5,
        credentials: credentials(config),
    }
}

/// What the broker connection reports.
pub enum BrokerEvent {
    /// The broker answered the connection request.
    ConnAck { accepted: bool },
    /// A message arrived on a subscribed topic.
    Publish,
    /// The connection failed or dropped.
    Failed,
    /// The light's state changed.
    Snapshot,
    /// Anything else the event loop reports.
    Other,
}

/// What the controller does about a broker event.
#[derive(Clone, Copy, Debug, PartialEq, Eq, Structural)]
pub enum BrokerAction {
    /// Subscribe to the command topics and publish every retained record, and
    /// the discovery configuration when it is enabled.
    Welcome { discovery: bool },
    /// Handle the message.
    Dispatch,
    /// Publish the light's state.
    PublishDeviceState,
    /// Drop the connection and connect again after the retry delay.
    Reconnect,
    /// Nothing.
    Ignore,
}

/// The next action for `event`, and whether the controller is now connected.
/// Messages and state changes are only acted on while connected.
pub fn on_broker_event(connected: bool, event: &BrokerEvent, ha_discovery: bool) -> (r: (
    bool,
    BrokerAction,
))
    ensures
        r == match *event {
            BrokerEvent::ConnAck { accepted } => if accepted {
                (true, BrokerAction::Welcome { discovery: ha_discovery })
            } else {
                (connected, BrokerAction::Reconnect)
            },
            BrokerEvent::Publish => (
                connected,
                if connected {
                    BrokerAction::Dispatch
                } else {
                    BrokerAction::Ignore
                },
            ),
            BrokerEvent::Failed => (connected, BrokerAction::Reconnect),
            BrokerEvent::Snapshot => (
                connected,
                if connected {
                    BrokerAction::PublishDeviceState
                } else {
                    BrokerAction::Ignore
                },
            ),
            BrokerEvent::Other => (connected, BrokerAction::Ignore),
        },
{
    match event {
        BrokerEvent::ConnAck { accepted } => {
            if *accepted {
                (true, BrokerAction::Welcome { discovery: ha_discovery })
            } else {
                (connected, BrokerAction::Reconnect)
            }
        },
        BrokerEvent::Publish => {
            if connected {
                (connected, BrokerAction::Dispatch)
            } else {
                (connected, BrokerAction::Ignore)
            }
        },
        BrokerEvent::Failed => (connected, BrokerAction::Reconnect),
        BrokerEvent::Snapshot => {
            if connected {
                (connected, BrokerAction::PublishDeviceState)
            } else {
                (connected, BrokerAction::Ignore)
            }
        },
        BrokerEvent::Other => (connected, BrokerAction::Ignore),
    }
}

} // verus!
