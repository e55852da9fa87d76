//! Zone commands.
use vstd::prelude::*;

use super::{Payload, Reaction};
use crate::store::zone::updated_zone;
use crate::store::{Store, StoreError, ZoneRecord, ZoneView};
use crate::topics::Topics;
use crate::types::{CreateZoneCommand, UpdateZoneCommand, ZonePayload};

verus! {

/// The reactions to a zone that was written: its retained record, then the
/// zone list.
pub open spec fn zone_written(r: Seq<Reaction>, t: &Topics, z: ZoneRecord) -> bool {
    &&& r.len() == 2
    &&& r[0] matches Reaction::PublishRetained(topic, Payload::Zone(p)) && topic@ == t.prefix@
        + "/zones/"@ + z.id@ && p == (ZonePayload {
        id: z.id,
        name: z.name,
        start_pixel: z.start_pixel,
        end_pixel: z.end_pixel,
        transition_length: z.transition_length,
    })
    &&& r[1] is PublishZones
}

/// Create a zone under the id `id`.
pub fn handle_create(store: &mut Store, t: &Topics, id: String, cmd: &CreateZoneCommand) -> (r: Vec<
    Reaction,
>)
    requires
        old(store).wf(),
    ensures
        final(store).wf(),
        final(store).same_but_zones(old(store)),
        final(store).zones@.len() == old(store).zones@.len() + 1 ==> {
            let z = final(store).zones@.last();
            &&& final(store).zones@ == old(store).zones@.push(z)
            &&& z.id@ == id@
            &&& z.name@ == cmd.name@ && z.start_pixel == cmd.start_pixel && z.end_pixel
                == cmd.end_pixel && z.transition_length == cmd.transition_length
            &&& zone_written(r@, t, z)
        },
        final(store).zones@.len() != old(store).zones@.len() + 1 ==> *final(store) == *old(store)
            && r@ == seq![Reaction::Rejected(StoreError::Db)],
        (exists|i: int| 0 <= i < old(store).zones@.len() && old(store).zones@[i].id@ == id@)
            <==> final(store).zones@.len() != old(store).zones@.len() + 1,
{
    match store.create_zone(id, cmd.name.as_str(), cmd.start_pixel, cmd.end_pixel, cmd.transition_length) {
        Ok(zone) => {
            let topic = t.zone(zone.id.as_str());
            let r = vec![
                Reaction::PublishRetained(topic, Payload::Zone(ZonePayload::from(zone))),
                Reaction::PublishZones,
            ];
            r
        },
        Err(e) => vec![Reaction::Rejected(e)],
    }
}

/// Replace a zone's fields.
pub fn handle_update(store: &mut Store, t: &Topics, id: &str, cmd: &UpdateZoneCommand) -> (r: Vec<
    Reaction,
>)
    requires
        old(store).wf(),
    ensures
        final(store).wf(),
        final(store).same_but_zones(old(store)),
        ({
            let found = exists|i: int|
                0 <= i < old(store).zones@.len() && old(store).zones@[i].id@ == id@;
            &&& !found ==> *final(store) == *old(store) && r@ == seq![
                Reaction::Rejected(StoreError::NotFound),
            ]
            &&& found ==> final(store).zone_table() == old(store).zone_table().map_values(
                |z: ZoneView|
                    updated_zone(
                        z,
                        id@,
                        cmd.name@,
                        cmd.start_pixel,
                        cmd.end_pixel,
                        cmd.transition_length,
                    ),
            ) && exists|z: ZoneRecord|
                z@ == (ZoneView {
                    id: id@,
                    name: cmd.name@,
                    start_pixel: cmd.start_pixel,
                    end_pixel: cmd.end_pixel,
                    transition_length: cmd.transition_length,
                }) && #[trigger] zone_written(r@, t, z)
        }),
{
    match store.update_zone(id, cmd.name.as_str(), cmd.start_pixel, cmd.end_pixel, cmd.transition_length) {
        Ok(zone) => {
            let ghost z = zone;
            let topic = t.zone(zone.id.as_str());
            let r = vec![
                Reaction::PublishRetained(topic, Payload::Zone(ZonePayload::from(zone))),
                Reaction::PublishZones,
            ];
            assert(zone_written(r@, t, z));
            r
        },
        Err(e) => vec![Reaction::Rejected(e)],
    }
}

/// Delete a zone, clearing its retained record.
pub fn handle_delete(store: &mut Store, t: &Topics, id: &str) -> (r: Vec<Reaction>)
    requires
        old(store).wf(),
    ensures
        final(store).wf(),
        final(store).same_but_zones(old(store)),
        final(store).zones@ == old(store).zones@.filter(|z: ZoneRecord| z.id@ != id@),
        ({
            let found = exists|i: int|
                0 <= i < old(store).zones@.len() && old(store).zones@[i].id@ == id@;
            &&& !found ==> r@ == seq![Reaction::Rejected(StoreError::NotFound)]
            &&& found ==> r@.len() == 2 && (r@[0] matches Reaction::PublishRetained(topic, p)
                && topic@ == t.prefix@ + "/zones/"@ + id@ && p is Null) && r@[1] is PublishZones
        }),
{
    match store.delete_zone(id) {
        Ok(()) => vec![Reaction::PublishRetained(t.zone(id), Payload::Null), Reaction::PublishZones],
        Err(e) => vec![Reaction::Rejected(e)],
    }
}

} // verus!
