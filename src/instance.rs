//! The lifecycle orchestrator: list, inspect, create and delete instances.
//!
//! Creation and deletion alternate decisions with work on disk and on the
//! server process. Each decision is a method here; the caller performs the
//! work between them and hands back what came of it.
use vstd::prelude::*;
use vstd::string::*;

use crate::error::{fails_with, Error, ErrorKind};
use crate::events::{
    new_progression_event_end, CausedBy, Event, EventIds, ProgressionEndValue,
    ProgressionStartValue,
};
use crate::identity::{dir_name_of, instance_dir_name, prefix_of, InstanceUuid};
use crate::permission::{granted_on, permits, UserAction, UserPermission};
use crate::ports::PortAllocator;
use crate::registry::{
    by_creation_time, entry_of, has_id, prefix_free, Flavour, InstanceInfo, Registry, State,
};

verus! {

/// The marker file that makes a directory a managed instance.
pub open spec fn marker_path_of(dir: Seq<char>) -> Seq<char> {
    dir + seq!['/', '.', 'l', 'o', 'd', 'e', 's', 't', 'o', 'n', 'e', '_', 'c', 'o', 'n', 'f', 'i', 'g']
}

/// The directory of a new instance under the instances root.
pub open spec fn instance_dir_of(root: Seq<char>, name: Seq<char>, id: InstanceUuid) -> Seq<char> {
    root + seq!['/'] + dir_name_of(name, id)
}

/// The registered instances that the requester may view, in registry order.
pub open spec fn viewable(s: Seq<InstanceInfo>, p: UserPermission) -> Seq<InstanceInfo> {
    s.filter(|e: InstanceInfo| permits(&p, UserAction::ViewInstance(e.uuid)))
}

/// The contents of the directory marker.
#[derive(Clone, Copy, Debug, PartialEq, Eq, Structural)]
pub struct DotLodestoneConfig {
    pub uuid: InstanceUuid,
    pub flavour: Flavour,
}

/// Everything a creation needs once its identity and settings are chosen.
#[derive(Clone, Debug)]
pub struct CreatePlan {
    pub uuid: InstanceUuid,
    pub name: String,
    pub port: u32,
    pub flavour: Flavour,
    /// The directory to create.
    pub dir: String,
    /// The marker file to write in it.
    pub marker: String,
    /// What the marker file holds.
    pub config: DotLodestoneConfig,
}

/// The first decision of a creation.
#[derive(Clone, Copy, Debug, PartialEq, Eq, Structural)]
pub enum CreateDecision {
    /// The candidate's short prefix is taken: draw another identity.
    Regenerate,
    /// The candidate can be used.
    Proceed(InstanceUuid),
}

/// What came of a creation once provisioning has ended.
#[derive(Clone, Debug)]
pub struct CreateOutcome {
    pub end_event: Event,
    /// Whether the instance is now registered. Where it is not, the plan's
    /// directory is to be removed.
    pub registered: bool,
}

/// Everything a deletion needs once it has been accepted.
#[derive(Clone, Debug)]
pub struct DeletePlan {
    pub uuid: InstanceUuid,
    pub event_id: u64,
    pub start_event: Event,
    /// The marker file, removed first.
    pub marker: String,
    /// The instance directory, removed last.
    pub dir: String,
    pub port: u32,
}

/// The state that the lifecycle operations share.
pub struct AppState {
    pub instances: Registry,
    pub port_manager: PortAllocator,
    pub event_ids: EventIds,
}

/// The plan of a creation: the directory is named after the instance and its
/// short prefix, and the marker records the identity and flavour.
pub fn plan_instance_setup(
    uuid: InstanceUuid,
    name: &str,
    port: u32,
    flavour: Flavour,
    instances_root: &str,
) -> (r: CreatePlan)
    ensures
        r.uuid == uuid,
        r.name@ == name@,
        r.port == port,
        r.flavour == flavour,
        r.dir@ == instance_dir_of(instances_root@, name@, uuid),
        r.marker@ == marker_path_of(r.dir@),
        r.config == (DotLodestoneConfig { uuid, flavour }),
{
    let dir_name = instance_dir_name(name, uuid);
    let mut dir = instances_root.to_owned();
    dir.append("/");
    dir.append(dir_name.as_str());
    let mut marker = dir.clone();
    marker.append("/.lodestone_config");
    proof {
        reveal_strlit("/");
        reveal_strlit("/.lodestone_config");
        assert(dir@ =~= instance_dir_of(instances_root@, name@, uuid));
        assert(marker@ =~= marker_path_of(dir@));
    }
    CreatePlan {
        uuid,
        name: name.to_owned(),
        port,
        flavour,
        dir,
        marker,
        config: DotLodestoneConfig { uuid, flavour },
    }
}

/// The end event of a deletion whose marker file could not be removed; the
/// instance stays registered.
pub fn abort_delete(plan: &DeletePlan) -> (r: Event)
    ensures
        r matches Event::ProgressionEnd { event_id, success, payload, .. } && event_id == plan.event_id
            && !success && payload is None,
{
    new_progression_event_end(
        plan.event_id,
        false,
        Some("Failed to delete .lodestone_config. Instance not deleted".to_owned()),
        None,
    )
}

/// The end event of a deletion, once its files have been removed or not.
pub fn finish_delete(plan: &DeletePlan, files: Result<(), String>) -> (r: Event)
    ensures
        r matches Event::ProgressionEnd { event_id, success, payload, .. } && event_id == plan.event_id
            && success == files is Ok && (success <==> payload == Some(
            ProgressionEndValue::InstanceDelete { instance_uuid: plan.uuid },
        )) && (!success ==> payload is None),
{
    match files {
        Ok(()) => new_progression_event_end(
            plan.event_id,
            true,
            Some("Instance deleted successfully".to_owned()),
            Some(ProgressionEndValue::InstanceDelete { instance_uuid: plan.uuid }),
        ),
        Err(e) => {
            let mut msg = "Failed to delete some or all of the instance's files: ".to_owned();
            msg.append(e.as_str());
            new_progression_event_end(plan.event_id, false, Some(msg), None)
        },
    }
}

impl AppState {
    pub open spec fn wf(&self) -> bool {
        self.instances.wf()
    }

    pub fn new() -> (r: AppState)
        ensures
            r.wf(),
            r.instances@.len() == 0,
            r.port_manager@ == Set::<u32>::empty(),
            r.event_ids.next == 0,
    {
        AppState { instances: Registry::new(), port_manager: PortAllocator::new(), event_ids: EventIds::new() }
    }

    /// The registered instances that the requester may view, in ascending
    /// order of creation time.
    pub fn get_instance_list(&self, requester: &UserPermission) -> (r: Vec<InstanceInfo>)
        requires
            self.wf(),
        ensures
            r@ == viewable(self.instances@, *requester),
            by_creation_time(r@),
    {
        let ghost s = self.instances@;
        let ghost pred = |e: InstanceInfo| permits(requester, UserAction::ViewInstance(e.uuid));
        let mut out: Vec<InstanceInfo> = Vec::new();
        let n = self.instances.len();
        let mut i: usize = 0;
        while i < n
            invariant
                self.wf(),
                s == self.instances@,
                n == s.len(),
                i <= n,
                pred == (|e: InstanceInfo| permits(requester, UserAction::ViewInstance(e.uuid))),
                out@ == s.take(i as int).filter(pred),
                by_creation_time(out@),
                out@.len() > 0 ==> forall|j: int| i <= j < n ==> out@.last().creation_time <= #[trigger] s[j].creation_time,
            decreases n - i,
        {
            let e = self.instances.at(i);
            proof {
                assert(s.take(i + 1) =~= s.take(i as int).push(s[i as int]));
                s.take(i as int).lemma_filter_push(s[i as int], pred);
            }
            if requester.can_perform_action(&UserAction::ViewInstance(e.uuid)) {
                out.push(e.duplicate());
            }
            i = i + 1;
        }
        assert(s.take(n as int) =~= s);
        out
    }

    /// The record of instance `id`: `NotFound` where it is not registered,
    /// else `Forbidden` where the requester may not view it.
    pub fn get_instance_info(&self, requester: &UserPermission, id: InstanceUuid) -> (r: Result<
        InstanceInfo,
        Error,
    >)
        requires
            self.wf(),
        ensures
            !has_id(self.instances@, id) ==> fails_with(r, ErrorKind::NotFound),
            has_id(self.instances@, id) && !permits(requester, UserAction::ViewInstance(id)) ==> fails_with(r, ErrorKind::Forbidden),
            has_id(self.instances@, id) && permits(requester, UserAction::ViewInstance(id)) ==> r == Ok::<
                InstanceInfo,
                Error,
            >(entry_of(self.instances@, id)),
    {
        match self.instances.find(id) {
            None => Err(Error::new(ErrorKind::NotFound, "Instance not found")),
            Some(i) => {
                requester.try_action(&UserAction::ViewInstance(id))?;
                Ok(self.instances.at(i).duplicate())
            },
        }
    }

    /// The first decision of a creation: `Forbidden` unless the requester may
    /// create instances; `Regenerate` where the candidate's short prefix is
    /// taken; else the candidate is used.
    pub fn create_instance(&self, requester: &UserPermission, candidate: InstanceUuid) -> (r: Result<
        CreateDecision,
        Error,
    >)
        ensures
            !permits(requester, UserAction::CreateInstance) ==> fails_with(r, ErrorKind::Forbidden),
            permits(requester, UserAction::CreateInstance) ==> r == Ok::<CreateDecision, Error>(
                if prefix_free(self.instances@, candidate) {
                    CreateDecision::Proceed(candidate)
                } else {
                    CreateDecision::Regenerate
                },
            ),
    {
        requester.try_action(&UserAction::CreateInstance)?;
        if self.instances.prefix_taken(candidate) {
            Ok(CreateDecision::Regenerate)
        } else {
            Ok(CreateDecision::Proceed(candidate))
        }
    }

    /// The start event of provisioning, under a fresh event id.
    pub fn begin_provisioning(&mut self, plan: &CreatePlan, caused_by: CausedBy) -> (r: (Event, u64))
        requires
            old(self).event_ids.next < u64::MAX,
        ensures
            r.1 == old(self).event_ids.next,
            final(self).event_ids.next == old(self).event_ids.next + 1,
            final(self).instances == old(self).instances,
            final(self).port_manager == old(self).port_manager,
            (r.0 matches Event::ProgressionStart { event_id, instance, payload, .. } && event_id == r.1
                && instance == Some(plan.uuid) && (payload matches Some(
                ProgressionStartValue::InstanceCreation { instance_uuid, port, flavour, .. },
            ) && instance_uuid == plan.uuid && port == plan.port && flavour == plan.flavour)),
    {
        let mut description = "Setting up Minecraft server ".to_owned();
        description.append(plan.name.as_str());
        self.event_ids.new_progression_event_start(
            description,
            Some(plan.uuid),
            Some(10),
            Some(
                ProgressionStartValue::InstanceCreation {
                    instance_uuid: plan.uuid,
                    instance_name: plan.name.clone(),
                    port: plan.port,
                    flavour: plan.flavour,
                },
            ),
            caused_by,
        )
    }

    /// The last decision of a creation. Where provisioning succeeded
    /// (`provisioned` holds the creation time) and the short prefix is still
    /// free, the port is claimed, the creator is granted access to the
    /// instance, and the instance is registered in the stopped state.
    /// Otherwise nothing changes and the directory is to be rolled back.
    pub fn finish_create(
        &mut self,
        plan: &CreatePlan,
        event_id: u64,
        provisioned: Result<i64, String>,
        creator: &mut UserPermission,
    ) -> (r: CreateOutcome)
        requires
            old(self).wf(),
        ensures
            final(self).wf(),
            final(self).event_ids == old(self).event_ids,
            r.registered <==> (provisioned is Ok && prefix_free(old(self).instances@, plan.uuid)),
            r.end_event matches Event::ProgressionEnd { event_id: eid, success, .. } && eid == event_id
                && success == r.registered,
            r.registered ==> has_id(final(self).instances@, plan.uuid),
            r.registered ==> entry_of(final(self).instances@, plan.uuid) == (InstanceInfo {
                uuid: plan.uuid,
                name: plan.name,
                path: plan.dir,
                port: plan.port,
                flavour: plan.flavour,
                state: State::Stopped,
                creation_time: provisioned->Ok_0,
            }),
            r.registered ==> forall|x: InstanceUuid|
                x != plan.uuid ==> (has_id(final(self).instances@, x) <==> has_id(old(self).instances@, x)),
            r.registered ==> forall|x: InstanceUuid|
                x != plan.uuid && has_id(old(self).instances@, x) ==> entry_of(final(self).instances@, x)
                    == entry_of(old(self).instances@, x),
            r.registered ==> final(self).port_manager@ == old(self).port_manager@.insert(plan.port),
            r.registered ==> forall|a: UserAction|
                #[trigger] permits(final(creator), a) <==> (permits(old(creator), a) || granted_on(a, plan.uuid)),
            !r.registered ==> final(self).instances@ == old(self).instances@,
            !r.registered ==> !has_id(final(self).instances@, plan.uuid) || !prefix_free(
                old(self).instances@,
                plan.uuid,
            ),
            !r.registered ==> final(self).port_manager@ == old(self).port_manager@,
            !r.registered ==> *final(creator) == *old(creator),
    {
        match provisioned {
            Err(e) => {
                let mut msg = "Instance creation failed: ".to_owned();
                msg.append(e.as_str());
                proof {
                    if has_id(self.instances@, plan.uuid) {
                        let k = choose|k: int| 0 <= k < self.instances@.len() && #[trigger] self.instances@[k].uuid == plan.uuid;
                        assert(prefix_of(self.instances@[k].uuid) == prefix_of(plan.uuid));
                    }
                }
                CreateOutcome {
                    end_event: new_progression_event_end(event_id, false, Some(msg), None),
                    registered: false,
                }
            },
            Ok(creation_time) => {
                if self.instances.prefix_taken(plan.uuid) {
                    return CreateOutcome {
                        end_event: new_progression_event_end(
                            event_id,
                            false,
                            Some("Instance creation failed: identity prefix taken".to_owned()),
                            None,
                        ),
                        registered: false,
                    };
                }
                let info = InstanceInfo {
                    uuid: plan.uuid,
                    name: plan.name.clone(),
                    path: plan.dir.clone(),
                    port: plan.port,
                    flavour: plan.flavour,
                    state: State::Stopped,
                    creation_time,
                };
                let end_event = new_progression_event_end(
                    event_id,
                    true,
                    Some("Instance created successfully".to_owned()),
                    Some(ProgressionEndValue::InstanceCreation(info.duplicate())),
                );
                self.port_manager.add_port(plan.port);
                creator.grant_instance_access(plan.uuid);
                let ghost before = self.instances@;
                let ghost expected = info;
                let inserted = self.instances.insert(info);
                proof {
                    lemma_inserted_entry(before, expected, self.instances@);
                }
                CreateOutcome { end_event, registered: inserted.is_ok() }
            },
        }
    }

    /// The first decision of a deletion: `Forbidden` unless the requester may
    /// delete instances, `NotFound` where `id` is not registered, and
    /// `BadRequest` where the instance is not stopped. On success the start
    /// event is allocated; the registry and the ports are never touched.
    pub fn delete_instance(
        &mut self,
        requester: &UserPermission,
        id: InstanceUuid,
        caused_by: CausedBy,
    ) -> (r: Result<DeletePlan, Error>)
        requires
            old(self).wf(),
            old(self).event_ids.next < u64::MAX,
        ensures
            final(self).wf(),
            final(self).instances@ == old(self).instances@,
            final(self).port_manager@ == old(self).port_manager@,
            !permits(requester, UserAction::DeleteInstance) ==> fails_with(r, ErrorKind::Forbidden),
            permits(requester, UserAction::DeleteInstance) && !has_id(old(self).instances@, id) ==> fails_with(r, ErrorKind::NotFound),
            permits(requester, UserAction::DeleteInstance) && has_id(old(self).instances@, id) && entry_of(
                old(self).instances@,
                id,
            ).state != State::Stopped ==> fails_with(r, ErrorKind::BadRequest),
            r is Ok <==> (permits(requester, UserAction::DeleteInstance) && has_id(old(self).instances@, id)
                && entry_of(old(self).instances@, id).state == State::Stopped),
            r is Err ==> final(self).event_ids == old(self).event_ids,
            r matches Ok(plan) ==> plan.uuid == id && plan.event_id == old(self).event_ids.next
                && final(self).event_ids.next == old(self).event_ids.next + 1
                && plan.dir@ == entry_of(old(self).instances@, id).path@
                && plan.marker@ == marker_path_of(plan.dir@)
                && plan.port == entry_of(old(self).instances@, id).port
                && (plan.start_event matches Event::ProgressionStart { event_id, instance, .. }
                && event_id == plan.event_id && instance == Some(id)),
    {
        requester.try_action(&UserAction::DeleteInstance)?;
        let i = match self.instances.find(id) {
            None => {
                return Err(Error::new(ErrorKind::NotFound, "Instance not found"));
            },
            Some(i) => i,
        };
        let entry = self.instances.at(i);
        if entry.state != State::Stopped {
            return Err(Error::new(ErrorKind::BadRequest, "Instance must be stopped before deletion"));
        }
        let mut description = "Deleting instance ".to_owned();
        description.append(entry.name.as_str());
        let dir = entry.path.clone();
        let port = entry.port;
        let mut marker = dir.clone();
        marker.append("/.lodestone_config");
        proof {
            reveal_strlit("/.lodestone_config");
            assert(marker@ =~= marker_path_of(dir@));
        }
        let (start_event, event_id) = self.event_ids.new_progression_event_start(
            description,
            Some(id),
            Some(10),
            None,
            caused_by,
        );
        Ok(DeletePlan { uuid: id, event_id, start_event, marker, dir, port })
    }

    /// The middle of a deletion, once the marker file is gone: the port is
    /// released and the instance unregistered. Its directory is then to be
    /// removed.
    pub fn commit_delete(&mut self, plan: &DeletePlan)
        requires
            old(self).wf(),
        ensures
            final(self).wf(),
            final(self).event_ids == old(self).event_ids,
            !has_id(final(self).instances@, plan.uuid),
            forall|x: InstanceUuid|
                x != plan.uuid ==> (has_id(final(self).instances@, x) <==> has_id(old(self).instances@, x)),
            forall|x: InstanceUuid|
                x != plan.uuid && has_id(old(self).instances@, x) ==> entry_of(final(self).instances@, x)
                    == entry_of(old(self).instances@, x),
            final(self).port_manager@ == old(self).port_manager@.remove(plan.port),
    {
        self.port_manager.deallocate(plan.port);
        self.instances.remove(plan.uuid);
    }

    /// Records a new lifecycle state reported by instance `id`'s server;
    /// `false` where it is not registered.
    pub fn set_instance_state(&mut self, id: InstanceUuid, state: State) -> (r: bool)
        requires
            old(self).wf(),
        ensures
            final(self).wf(),
            r == has_id(old(self).instances@, id),
            r ==> has_id(final(self).instances@, id) && entry_of(final(self).instances@, id) == (
            InstanceInfo { state, ..entry_of(old(self).instances@, id) }),
            forall|x: InstanceUuid| has_id(final(self).instances@, x) <==> has_id(old(self).instances@, x),
            final(self).port_manager == old(self).port_manager,
            final(self).event_ids == old(self).event_ids,
    {
        let ghost s = self.instances@;
        let r = self.instances.set_state(id, state);
        proof {
            let n = self.instances@;
            if r {
                let i = choose|i: int| 0 <= i < s.len() && s[i].uuid == id && n == s.update(
                    i,
                    InstanceInfo { state, ..s[i] },
                );
                crate::registry::lemma_entry_at(s, i);
                crate::registry::lemma_entry_at(n, i);
                assert forall|x: InstanceUuid| has_id(n, x) <==> has_id(s, x) by {
                    if has_id(n, x) {
                        let k = choose|k: int| 0 <= k < n.len() && #[trigger] n[k].uuid == x;
                        assert(s[k].uuid == x);
                    }
                    if has_id(s, x) {
                        let k = choose|k: int| 0 <= k < s.len() && #[trigger] s[k].uuid == x;
                        assert(n[k].uuid == x);
                    }
                }
            }
        }
        r
    }
}

/// The entry that `Registry::insert` placed is found under its identity, and
/// no other identity comes or goes.
proof fn lemma_inserted_entry(before: Seq<InstanceInfo>, info: InstanceInfo, after: Seq<InstanceInfo>)
    requires
        crate::registry::distinct_prefixes(before),
        crate::registry::distinct_prefixes(after),
        exists|pos: int| 0 <= pos <= before.len() && after == before.insert(pos, info),
    ensures
        has_id(after, info.uuid),
        entry_of(after, info.uuid) == info,
        forall|x: InstanceUuid| x != info.uuid ==> (has_id(after, x) <==> has_id(before, x)),
        forall|x: InstanceUuid| x != info.uuid && has_id(before, x) ==> entry_of(after, x) == entry_of(
            before,
            x,
        ),
{
    let pos = choose|pos: int| 0 <= pos <= before.len() && after == before.insert(pos, info);
    assert(after[pos] == info);
    crate::registry::lemma_entry_at(after, pos);
    assert forall|x: InstanceUuid| x != info.uuid implies (has_id(after, x) <==> has_id(before, x)) by {
        if has_id(after, x) {
            let k = choose|k: int| 0 <= k < after.len() && #[trigger] after[k].uuid == x;
            if k < pos {
                assert(after[k] == before[k]);
            } else {
                assert(after[k] == before[k - 1]);
            }
        }
        if has_id(before, x) {
            let k = choose|k: int| 0 <= k < before.len() && #[trigger] before[k].uuid == x;
            if k < pos {
                assert(after[k] == before[k]);
            } else {
                assert(after[k + 1] == before[k]);
            }
        }
    }
    assert forall|x: InstanceUuid| x != info.uuid && has_id(before, x) implies entry_of(after, x)
        == entry_of(before, x) by {
        let k = choose|k: int| 0 <= k < before.len() && #[trigger] before[k].uuid == x;
        let k2 = if k < pos { k } else { k + 1 };
        assert(after[k2] == before[k]);
        crate::registry::lemma_entry_at(before, k);
        crate::registry::lemma_entry_at(after, k2);
    }
}

/// Every instance that the list shows is registered and viewable by the
/// requester, and every registered instance that the requester may view is
/// shown.
pub proof fn lemma_list_exactly_viewable(s: Seq<InstanceInfo>, p: UserPermission)
    ensures
        forall|e: InstanceInfo| #[trigger] viewable(s, p).contains(e) ==> s.contains(e) && permits(
            &p,
            UserAction::ViewInstance(e.uuid),
        ),
        forall|i: int| 0 <= i < s.len() && permits(&p, UserAction::ViewInstance(s[i].uuid)) ==> viewable(
            s,
            p,
        ).contains(#[trigger] s[i]),
{
    let pred = |e: InstanceInfo| permits(&p, UserAction::ViewInstance(e.uuid));
    assert forall|e: InstanceInfo| #[trigger] viewable(s, p).contains(e) implies s.contains(e) && permits(
        &p,
        UserAction::ViewInstance(e.uuid),
    ) by {
        s.lemma_filter_contains_rev(pred, e);
        let k = choose|k: int| 0 <= k < s.filter(pred).len() && s.filter(pred)[k] == e;
        s.lemma_filter_pred(pred, k);
    }
    assert forall|i: int| 0 <= i < s.len() && permits(&p, UserAction::ViewInstance(s[i].uuid)) implies viewable(
        s,
        p,
    ).contains(#[trigger] s[i]) by {
        s.lemma_filter_contains(pred, i);
    }
}

/// No two registered instances share a short prefix, however creations and
/// deletions interleave: every operation keeps the state well formed.
pub proof fn lemma_registered_prefixes_distinct(st: &AppState)
    requires
        st.wf(),
    ensures
        forall|i: int, j: int|
            0 <= i < j < st.instances@.len() ==> prefix_of(#[trigger] st.instances@[i].uuid) != prefix_of(
                #[trigger] st.instances@[j].uuid,
            ),
{
}

} // verus!
