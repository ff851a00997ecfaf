//! The permission engine: a pure lookup of an action in a requester's
//! permission record.
use vstd::prelude::*;

use crate::error::{Error, ErrorKind};
use crate::identity::InstanceUuid;
use crate::ports::lemma_push_contains;

verus! {

/// What a requester may ask to do.
#[derive(Clone, Copy, Debug, PartialEq, Eq, Structural)]
pub enum UserAction {
    ViewInstance(InstanceUuid),
    StartInstance(InstanceUuid),
    StopInstance(InstanceUuid),
    ReadInstanceFile(InstanceUuid),
    WriteInstanceFile(InstanceUuid),
    CreateInstance,
    DeleteInstance,
}

/// A requester's permission record; the per-instance capabilities list the
/// identities they apply to.
#[derive(Clone, Debug)]
pub struct UserPermission {
    pub can_create_instance: bool,
    pub can_delete_instance: bool,
    pub can_view_instance: Vec<InstanceUuid>,
    pub can_start_instance: Vec<InstanceUuid>,
    pub can_stop_instance: Vec<InstanceUuid>,
    pub can_read_instance_file: Vec<InstanceUuid>,
    pub can_write_instance_file: Vec<InstanceUuid>,
}

/// Whether the record allows the action.
pub open spec fn permits(p: &UserPermission, a: UserAction) -> bool {
    match a {
        UserAction::ViewInstance(id) => p.can_view_instance@.contains(id),
        UserAction::StartInstance(id) => p.can_start_instance@.contains(id),
        UserAction::StopInstance(id) => p.can_stop_instance@.contains(id),
        UserAction::ReadInstanceFile(id) => p.can_read_instance_file@.contains(id),
        UserAction::WriteInstanceFile(id) => p.can_write_instance_file@.contains(id),
        UserAction::CreateInstance => p.can_create_instance,
        UserAction::DeleteInstance => p.can_delete_instance,
    }
}

fn holds_id(v: &Vec<InstanceUuid>, id: InstanceUuid) -> (r: bool)
    ensures
        r == v@.contains(id),
{
    let mut i: usize = 0;
    while i < v.len()
        invariant
            i <= v@.len(),
            forall|j: int| 0 <= j < i ==> v@[j] != id,
        decreases v@.len() - i,
    {
        if v[i] == id {
            assert(v@[i as int] == id);
            return true;
        }
        i = i + 1;
    }
    false
}

fn add_id(v: &mut Vec<InstanceUuid>, id: InstanceUuid)
    ensures
        forall|x: InstanceUuid| #[trigger] final(v)@.contains(x) <==> (old(v)@.contains(x) || x == id),
{
    proof {
        lemma_push_contains(v@, id);
    }
    if !holds_id(v, id) {
        v.push(id);
    }
}

impl UserPermission {
    /// A record that allows nothing.
    pub fn none() -> (r: UserPermission)
        ensures
            forall|a: UserAction| !permits(&r, a),
    {
        UserPermission {
            can_create_instance: false,
            can_delete_instance: false,
            can_view_instance: Vec::new(),
            can_start_instance: Vec::new(),
            can_stop_instance: Vec::new(),
            can_read_instance_file: Vec::new(),
            can_write_instance_file: Vec::new(),
        }
    }

    /// The predicate form: whether the record allows `action`.
    pub fn can_perform_action(&self, action: &UserAction) -> (r: bool)
        ensures
            r == permits(self, *action),
    {
        match action {
            UserAction::ViewInstance(id) => holds_id(&self.can_view_instance, *id),
            UserAction::StartInstance(id) => holds_id(&self.can_start_instance, *id),
            UserAction::StopInstance(id) => holds_id(&self.can_stop_instance, *id),
            UserAction::ReadInstanceFile(id) => holds_id(&self.can_read_instance_file, *id),
            UserAction::WriteInstanceFile(id) => holds_id(&self.can_write_instance_file, *id),
            UserAction::CreateInstance => self.can_create_instance,
            UserAction::DeleteInstance => self.can_delete_instance,
        }
    }

    /// The failing form: `Forbidden` exactly where the record does not allow
    /// `action`.
    pub fn try_action(&self, action: &UserAction) -> (r: Result<(), Error>)
        ensures
            r is Ok <==> permits(self, *action),
            r matches Err(e) ==> e.kind == ErrorKind::Forbidden,
    {
        if self.can_perform_action(action) {
            Ok(())
        } else {
            Err(Error::new(ErrorKind::Forbidden, "not authorized for this action"))
        }
    }

    /// Grants start, stop, view, read-file and write-file on instance `id`,
    /// and changes nothing else.
    pub fn grant_instance_access(&mut self, id: InstanceUuid)
        ensures
            forall|a: UserAction| #[trigger] permits(final(self), a) <==> (permits(old(self), a) || granted_on(a, id)),
    {
        add_id(&mut self.can_start_instance, id);
        add_id(&mut self.can_stop_instance, id);
        add_id(&mut self.can_view_instance, id);
        add_id(&mut self.can_read_instance_file, id);
        add_id(&mut self.can_write_instance_file, id);
    }
}

/// The actions that the creator of instance `id` is given on it.
pub open spec fn granted_on(a: UserAction, id: InstanceUuid) -> bool {
    a == UserAction::StartInstance(id) || a == UserAction::StopInstance(id)
        || a == UserAction::ViewInstance(id) || a == UserAction::ReadInstanceFile(id)
        || a == UserAction::WriteInstanceFile(id)
}

} // verus!
