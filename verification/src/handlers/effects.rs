//! Effect commands. Built-in effects cannot be changed or deleted.
use vstd::prelude::*;

use super::{Payload, Reaction};
use crate::builtin::{builtin_id, BuiltinEffect};
use crate::store::effect::updated_effect;
use crate::store::{lookup, EffectRecord, EffectView, Store, StoreError};
use crate::text::str_eq;
use crate::topics::Topics;
use crate::types::{CreateEffectCommand, EffectPayload, UpdateEffectCommand};

verus! {

/// Some built-in effect has id `id`.
pub open spec fn is_builtin(builtins: Seq<BuiltinEffect>, id: Seq<char>) -> bool {
    exists|i: int| 0 <= i < builtins.len() && builtin_id(builtins[i].slug@) == id
}

/// Whether some built-in effect has id `id`.
pub fn is_builtin_id(builtins: &Vec<BuiltinEffect>, id: &str) -> (r: bool)
    ensures
        r == is_builtin(builtins@, id@),
{
    let mut i: usize = 0;
    while i < builtins.len()
        invariant
            i <= builtins@.len(),
            forall|j: int| 0 <= j < i ==> builtin_id(builtins@[j].slug@) != id@,
        decreases builtins@.len() - i,
    {
        let bid = builtins[i].id();
        if str_eq(bid.as_str(), id) {
            return true;
        }
        i = i + 1;
    }
    false
}

/// The reactions to an effect that was written: its retained record, then the
/// effect list.
pub open spec fn effect_written(r: Seq<Reaction>, t: &Topics, e: EffectRecord) -> bool {
    &&& r.len() == 2
    &&& r[0] matches Reaction::PublishRetained(topic, Payload::Effect(p)) && topic@ == t.prefix@
        + "/effects/"@ + e.id@ && p == (EffectPayload {
        id: e.id,
        name: e.name,
        script: e.script,
        params: e.params,
        builtin: false,
    })
    &&& r[1] is PublishEffects
}

fn effect_reactions(t: &Topics, e: EffectRecord) -> (r: Vec<Reaction>)
    ensures
        effect_written(r@, t, e),
{
    let topic = t.effect(e.id.as_str());
    vec![Reaction::PublishRetained(topic, Payload::Effect(EffectPayload::from(e))), Reaction::PublishEffects]
}

/// Create an effect under the id `id`.
pub fn handle_create(store: &mut Store, t: &Topics, id: String, cmd: &CreateEffectCommand) -> (r: Vec<
    Reaction,
>)
    requires
        old(store).wf(),
    ensures
        final(store).wf(),
        final(store).same_but_effects(old(store)),
        final(store).effects@.len() == old(store).effects@.len() + 1 ==> {
            let e = final(store).effects@.last();
            &&& final(store).effects@ == old(store).effects@.push(e)
            &&& e.id@ == id@
            &&& e.name@ == cmd.name@ && e.script@ == cmd.script@ && e.params@ == cmd.params@
            &&& effect_written(r@, t, e)
        },
        final(store).effects@.len() != old(store).effects@.len() + 1 ==> *final(store) == *old(
            store,
        ) && r@ == seq![Reaction::Rejected(StoreError::Db)],
        (exists|i: int| 0 <= i < old(store).effects@.len() && old(store).effects@[i].id@ == id@)
            <==> final(store).effects@.len() != old(store).effects@.len() + 1,
{
    match store.create_effect(id, cmd.name.as_str(), cmd.script.as_str(), cmd.params.as_str()) {
        Ok(e) => effect_reactions(t, e),
        Err(e) => vec![Reaction::Rejected(e)],
    }
}

/// The text `part` when present, else `current`.
fn part_or<'a>(part: &'a Option<String>, current: &'a String) -> (r: &'a str)
    ensures
        r@ == match part {
            Some(p) => p@,
            None => current@,
        },
{
    match part {
        Some(p) => p.as_str(),
        None => current.as_str(),
    }
}

/// The text `part` when present, else `current`.
pub open spec fn part_or_view(part: Option<String>, current: Seq<char>) -> Seq<char> {
    match part {
        Some(p) => p@,
        None => current,
    }
}

/// Change the parts of an effect that the command gives.
pub fn handle_update(
    store: &mut Store,
    t: &Topics,
    builtins: &Vec<BuiltinEffect>,
    id: &str,
    cmd: &UpdateEffectCommand,
) -> (r: Vec<Reaction>)
    requires
        old(store).wf(),
    ensures
        final(store).wf(),
        final(store).same_but_effects(old(store)),
        is_builtin(builtins@, id@) ==> *final(store) == *old(store) && r@.len() == 0,
        !is_builtin(builtins@, id@) ==> match lookup(old(store).effects@, id@) {
            None => *final(store) == *old(store) && r@ == seq![
                Reaction::Rejected(StoreError::NotFound),
            ],
            Some(cur) => {
                let name = part_or_view(cmd.name, cur.name@);
                let script = part_or_view(cmd.script, cur.script@);
                let params = part_or_view(cmd.params, cur.params@);
                &&& final(store).effect_table() == old(store).effect_table().map_values(
                    |e: EffectView| updated_effect(e, id@, name, script, params),
                )
                &&& exists|e: EffectRecord|
                    e@ == (EffectView { id: id@, name, script, params }) && #[trigger] effect_written(
                        r@,
                        t,
                        e,
                    )
            },
        },
{
    if is_builtin_id(builtins, id) {
        return vec![];
    }
    let current = match store.get_effect(id) {
        Ok(e) => e,
        Err(e) => {
            return vec![Reaction::Rejected(e)];
        },
    };
    let name = part_or(&cmd.name, &current.name);
    let script = part_or(&cmd.script, &current.script);
    let params = part_or(&cmd.params, &current.params);
    match store.update_effect(id, name, script, params) {
        Ok(e) => {
            let ghost eg = e;
            let r = effect_reactions(t, e);
            assert(effect_written(r@, t, eg));
            r
        },
        Err(e) => {
            proof {
                crate::store::lemma_lookup_found(old(store).effects@, id@);
            }
            vec![Reaction::Rejected(e)]
        },
    }
}

/// Delete an effect, clearing its retained record.
pub fn handle_delete(
    store: &mut Store,
    t: &Topics,
    builtins: &Vec<BuiltinEffect>,
    id: &str,
) -> (r: Vec<Reaction>)
    requires
        old(store).wf(),
    ensures
        final(store).wf(),
        final(store).same_but_effects(old(store)),
        is_builtin(builtins@, id@) ==> *final(store) == *old(store) && r@.len() == 0,
        !is_builtin(builtins@, id@) ==> {
            let found = exists|i: int|
                0 <= i < old(store).effects@.len() && old(store).effects@[i].id@ == id@;
            &&& final(store).effects@ == old(store).effects@.filter(|e: EffectRecord| e.id@ != id@)
            &&& !found ==> r@ == seq![Reaction::Rejected(StoreError::NotFound)]
            &&& found ==> r@.len() == 2 && (r@[0] matches Reaction::PublishRetained(topic, p)
                && topic@ == t.prefix@ + "/effects/"@ + id@ && p is Null) && r@[1] is PublishEffects
        },
{
    if is_builtin_id(builtins, id) {
        return vec![];
    }
    match store.delete_effect(id) {
        Ok(()) => vec![Reaction::PublishRetained(t.effect(id), Payload::Null), Reaction::PublishEffects],
        Err(e) => vec![Reaction::Rejected(e)],
    }
}

} // verus!
