//! The light's own commands: power, brightness, colour, and a built-in effect
//! chosen by its name or slug.
use vstd::prelude::*;

use super::Reaction;
use crate::builtin::{builtin_id, BuiltinEffect};
use crate::model::{BlendMode, Rgb};
use crate::store::active::{ids_free, new_active_rows, outside_scene, string_views};
use crate::store::{active_id, LayerView, NewLayer, Store, StoreError};
use crate::text::str_eq;
use crate::types::DeviceCommand;

verus! {

/// What `str::to_uppercase` gives for a string.
pub uninterp spec fn uppercased(s: Seq<char>) -> Seq<char>;

/// Whether every character of `s` is ASCII.
pub open spec fn all_ascii(s: Seq<char>) -> bool {
    forall|i: int| 0 <= i < s.len() ==> (#[trigger] s[i] as int) < 128
}

/// The ASCII uppercase of a character: `a` to `z` become `A` to `Z`, every
/// other character stays.
pub open spec fn ascii_upper_char(c: char) -> char {
    if 'a' <= c && c <= 'z' {
        ((c as int) - 32) as char
    } else {
        c
    }
}

/// The ASCII uppercase of each character of `s`.
pub open spec fn ascii_upper(s: Seq<char>) -> Seq<char> {
    s.map_values(|c: char| ascii_upper_char(c))
}

/// `str::to_uppercase`: each character replaced by its uppercase mapping as
/// Unicode defines it. The contract names the result, and states it for
/// ASCII text, where only `a` to `z` have an uppercase mapping; the full
/// mapping (which can change a string's length) is left unsaid.
#[verifier::external_body]
fn to_uppercase(s: &str) -> (r: String)
    ensures
        r@ == uppercased(s@),
        all_ascii(s@) ==> r@ == ascii_upper(s@),
{
    s.to_uppercase()
}

/// The power that an uppercased state word asks for: `ON` or `OFF`.
pub open spec fn power_of(upper: Seq<char>) -> Option<bool> {
    if upper == seq!['O', 'N'] {
        Some(true)
    } else if upper == seq!['O', 'F', 'F'] {
        Some(false)
    } else {
        None
    }
}

/// The power that an already uppercased state word asks for.
pub fn power_of_upper(upper: &str) -> (r: Option<bool>)
    ensures
        r == power_of(upper@),
{
    proof {
        reveal_strlit("ON");
        reveal_strlit("OFF");
        assert("ON"@ =~= seq!['O', 'N']);
        assert("OFF"@ =~= seq!['O', 'F', 'F']);
    }
    if str_eq(upper, "ON") {
        Some(true)
    } else if str_eq(upper, "OFF") {
        Some(false)
    } else {
        None
    }
}

/// The power that a state word asks for, whatever its case: that of its
/// uppercase, which for ASCII text is its ASCII uppercase.
pub open spec fn power_word(state: Seq<char>) -> Option<bool> {
    if all_ascii(state) {
        power_of(ascii_upper(state))
    } else {
        power_of(uppercased(state))
    }
}

/// The power that a state word asks for, whatever its case.
pub fn parse_power(state: &str) -> (r: Option<bool>)
    ensures
        r == power_word(state@),
{
    let upper = to_uppercase(state);
    power_of_upper(upper.as_str())
}

/// Whether a built-in effect answers to `name`, by display name or slug.
pub open spec fn names_effect(b: BuiltinEffect, name: Seq<char>) -> bool {
    b.name@ == name || b.slug@ == name
}

/// `i` is the first built-in effect that answers to `name`.
pub open spec fn first_named(bs: Seq<BuiltinEffect>, name: Seq<char>, i: int) -> bool {
    &&& 0 <= i < bs.len()
    &&& names_effect(bs[i], name)
    &&& forall|j: int| 0 <= j < i ==> !names_effect(#[trigger] bs[j], name)
}

/// The first built-in effect that answers to `name`.
pub fn find_builtin(builtins: &[BuiltinEffect], name: &str) -> (r: Option<usize>)
    ensures
        r matches Some(i) ==> first_named(builtins@, name@, i as int),
        r is None ==> forall|j: int|
            0 <= j < builtins@.len() ==> !names_effect(#[trigger] builtins@[j], name@),
{
    let mut i: usize = 0;
    while i < builtins.len()
        invariant
            i <= builtins@.len(),
            forall|j: int| 0 <= j < i ==> !names_effect(#[trigger] builtins@[j], name@),
        decreases builtins@.len() - i,
    {
        if str_eq(builtins[i].name.as_str(), name) || str_eq(builtins[i].slug.as_str(), name) {
            return Some(i);
        }
        i = i + 1;
    }
    None
}

/// The single active layer that runs built-in effect `b` over the whole
/// strip, under id `id`.
pub open spec fn effect_row(b: BuiltinEffect, id: Seq<char>) -> LayerView {
    LayerView {
        id,
        scene_id: active_id(),
        effect_id: builtin_id(b.slug@),
        zone_id: seq!['a', 'l', 'l'],
        blend_mode: BlendMode::Override,
        params: seq!['{', '}'],
        enabled: true,
        position: 0,
    }
}

/// What choosing the effect `name`, its layer under the id `id`, did to the
/// store, and its reactions.
pub open spec fn effect_outcome(
    old: Store,
    new: Store,
    builtins: Seq<BuiltinEffect>,
    name: Seq<char>,
    id: Seq<char>,
    r: Seq<Reaction>,
) -> bool {
    let remaining = outside_scene(old.layer_table(), active_id());
    &&& new.wf()
    &&& new.same_but_layers(&old)
    &&& (forall|j: int| 0 <= j < builtins.len() ==> !names_effect(#[trigger] builtins[j], name))
        ==> new == old && r.len() == 0
    &&& forall|i: int|
        #[trigger] first_named(builtins, name, i) ==> {
            &&& ids_free(remaining, seq![id]) ==> r.len() == 2 && r[0] is ReloadActive && (
            r[1] matches Reaction::SetActiveEffect(n) && n@ == name) && new.layer_table()
                == remaining.push(effect_row(builtins[i], id))
            &&& !ids_free(remaining, seq![id]) ==> r =~= seq![Reaction::Rejected(StoreError::Db)]
                && new == old
        }
}

/// Run the built-in effect that answers to `name` alone over the whole strip,
/// its layer under the id `id`.
pub fn apply_effect(store: &mut Store, builtins: &[BuiltinEffect], name: &str, id: String) -> (r:
    Vec<Reaction>)
    requires
        old(store).wf(),
    ensures
        effect_outcome(*old(store), *final(store), builtins@, name@, id@, r@),
{
    let i = match find_builtin(builtins, name) {
        Some(i) => i,
        None => {
            return Vec::new();
        },
    };
    let b = &builtins[i];
    proof {
        reveal_strlit("all");
        reveal_strlit("{}");
        assert("all"@ =~= seq!['a', 'l', 'l']);
        assert("{}"@ =~= seq!['{', '}']);
    }
    let layer = NewLayer {
        effect_id: b.id(),
        zone_id: String::from_str("all"),
        blend_mode: BlendMode::default_mode(),
        params: String::from_str("{}"),
    };
    assert(layer.effect_id@ == builtin_id(builtins@[i as int].slug@));
    let layers = vec![layer];
    let ghost idv = id@;
    let ids = vec![id];
    proof {
        assert(string_views(ids@) =~= seq![idv]);
        assert forall|k: int| #[trigger] first_named(builtins@, name@, k) implies k == i by {
            if k < i {
                assert(!names_effect(builtins@[k], name@));
            }
            if i < k {
                assert(!names_effect(builtins@[i as int], name@));
            }
        }
    }
    match store.replace_active_layers(layers.as_slice(), ids.as_slice()) {
        Ok(()) => {
            proof {
                let remaining = outside_scene(old(store).layer_table(), active_id());
                assert(new_active_rows(layers@, seq![idv]) =~= seq![
                    effect_row(builtins@[i as int], idv),
                ]);
                assert(remaining + seq![effect_row(builtins@[i as int], idv)] =~= remaining.push(
                    effect_row(builtins@[i as int], idv),
                ));
            }
            vec![Reaction::ReloadActive, Reaction::SetActiveEffect(name.to_owned())]
        },
        Err(e) => vec![Reaction::Rejected(e)],
    }
}

/// The reactions to the power, brightness and colour parts of a command.
pub open spec fn level_part(cmd: DeviceCommand) -> Seq<Reaction> {
    let power = match cmd.state {
        Some(s) => match power_word(s@) {
            Some(on) => seq![Reaction::SetOnOff(on)],
            None => seq![],
        },
        None => seq![],
    };
    let brightness = match cmd.brightness {
        Some(b) => seq![Reaction::SetBrightness(b)],
        None => seq![],
    };
    let color = match cmd.color {
        Some(c) => seq![Reaction::SetColor(Rgb { r: c.r, g: c.g, b: c.b })],
        None => seq![],
    };
    power + brightness + color
}

/// Apply a device command: power (an unknown state word is ignored),
/// brightness, colour, then the effect, whose layer takes the id `id`; the
/// light's state is published last.
pub fn handle_set(
    store: &mut Store,
    builtins: &[BuiltinEffect],
    cmd: &DeviceCommand,
    id: String,
) -> (r: Vec<Reaction>)
    requires
        old(store).wf(),
    ensures
        final(store).wf(),
        final(store).same_but_layers(old(store)),
        ({
            let lead = level_part(*cmd);
            &&& r@.len() >= lead.len() + 1
            &&& r@.subrange(0, lead.len() as int) == lead
            &&& r@.last() is PublishDeviceState
            &&& match cmd.effect {
                None => *final(store) == *old(store) && r@.len() == lead.len() + 1,
                Some(name) => effect_outcome(
                    *old(store),
                    *final(store),
                    builtins@,
                    name@,
                    id@,
                    r@.subrange(lead.len() as int, r@.len() - 1),
                ),
            }
        }),
{
    let mut r: Vec<Reaction> = Vec::new();
    if let Some(state) = &cmd.state {
        if let Some(on) = parse_power(state.as_str()) {
            r.push(Reaction::SetOnOff(on));
        }
    }
    if let Some(b) = cmd.brightness {
        r.push(Reaction::SetBrightness(b));
    }
    if let Some(c) = &cmd.color {
        r.push(Reaction::SetColor(Rgb { r: c.r, g: c.g, b: c.b }));
    }
    assert(r@ =~= level_part(*cmd));
    let ghost lead = r@;
    if let Some(name) = &cmd.effect {
        let mut e = apply_effect(store, builtins, name.as_str(), id);
        let ghost es = e@;
        r.append(&mut e);
        r.push(Reaction::PublishDeviceState);
        assert(r@.subrange(0, lead.len() as int) =~= lead);
        assert(r@.subrange(lead.len() as int, r@.len() - 1) =~= es);
    } else {
        r.push(Reaction::PublishDeviceState);
        assert(r@.subrange(0, lead.len() as int) =~= lead);
    }
    r
}

} // verus!
