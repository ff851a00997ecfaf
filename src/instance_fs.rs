//! Access to an instance's files: each request is authorized, its instance
//! looked up, and its path resolved under the instance root; writes and
//! removals are refused on protected files.
use vstd::prelude::*;

use crate::error::{Error, ErrorKind};
use crate::identity::InstanceUuid;
use crate::instance::AppState;
use crate::path::{is_file_protected, is_protected, resolve_spec, scoped_join};
use crate::permission::{permits, UserAction, UserPermission};
use crate::registry::{entry_of, has_id, InstanceInfo};

verus! {

/// The outcome of a file request: the path it resolves to, or the kind of
/// its failure. Permission comes first, then the instance, then the path.
pub open spec fn scoped_outcome(
    instances: Seq<InstanceInfo>,
    requester: UserPermission,
    id: InstanceUuid,
    action: UserAction,
    rel: Seq<char>,
) -> Result<Seq<char>, ErrorKind> {
    if !permits(&requester, action) {
        Err(ErrorKind::Forbidden)
    } else if !has_id(instances, id) {
        Err(ErrorKind::NotFound)
    } else {
        match resolve_spec(entry_of(instances, id).path@, rel) {
            Some(p) => Ok(p),
            None => Err(ErrorKind::MalformedPath),
        }
    }
}

/// The outcome of a request that modifies a file: as `scoped_outcome`, and
/// then refused on a protected path.
pub open spec fn modify_outcome(
    instances: Seq<InstanceInfo>,
    requester: UserPermission,
    id: InstanceUuid,
    rel: Seq<char>,
) -> Result<Seq<char>, ErrorKind> {
    match scoped_outcome(instances, requester, id, UserAction::WriteInstanceFile(id), rel) {
        Ok(p) => if is_protected(p) {
            Err(ErrorKind::ProtectedResource)
        } else {
            Ok(p)
        },
        Err(k) => Err(k),
    }
}

/// `r` is the outcome `o`: the same path, or a failure of the same kind.
pub open spec fn is_outcome(r: Result<String, Error>, o: Result<Seq<char>, ErrorKind>) -> bool {
    match (r, o) {
        (Ok(p), Ok(q)) => p@ == q,
        (Err(e), Err(k)) => e.kind == k,
        _ => false,
    }
}

impl AppState {
    /// The path that `rel` names in instance `id`, for a requester who needs
    /// `action` on it.
    fn scoped_instance_path(
        &self,
        requester: &UserPermission,
        id: InstanceUuid,
        action: UserAction,
        rel: &str,
    ) -> (r: Result<String, Error>)
        requires
            self.wf(),
        ensures
            is_outcome(r, scoped_outcome(self.instances@, *requester, id, action, rel@)),
    {
        if !requester.can_perform_action(&action) {
            return Err(Error::new(ErrorKind::Forbidden, "Not authorized to access instance files"));
        }
        match self.instances.find(id) {
            None => Err(Error::new(ErrorKind::NotFound, "Instance not found")),
            Some(i) => scoped_join(self.instances.at(i).path.as_str(), rel),
        }
    }

    /// The directory to list: `rel` in instance `id`, for a requester who may
    /// read its files.
    pub fn list_instance_files(&self, requester: &UserPermission, id: InstanceUuid, rel: &str) -> (r:
        Result<String, Error>)
        requires
            self.wf(),
        ensures
            is_outcome(
                r,
                scoped_outcome(self.instances@, *requester, id, UserAction::ReadInstanceFile(id), rel@),
            ),
    {
        self.scoped_instance_path(requester, id, UserAction::ReadInstanceFile(id), rel)
    }

    /// The file to read: `rel` in instance `id`, for a requester who may
    /// read its files.
    pub fn read_instance_file(&self, requester: &UserPermission, id: InstanceUuid, rel: &str) -> (r:
        Result<String, Error>)
        requires
            self.wf(),
        ensures
            is_outcome(
                r,
                scoped_outcome(self.instances@, *requester, id, UserAction::ReadInstanceFile(id), rel@),
            ),
    {
        self.scoped_instance_path(requester, id, UserAction::ReadInstanceFile(id), rel)
    }

    /// The directory to create: `rel` in instance `id`, for a requester who
    /// may write its files.
    pub fn make_instance_directory(
        &self,
        requester: &UserPermission,
        id: InstanceUuid,
        rel: &str,
    ) -> (r: Result<String, Error>)
        requires
            self.wf(),
        ensures
            is_outcome(
                r,
                scoped_outcome(self.instances@, *requester, id, UserAction::WriteInstanceFile(id), rel@),
            ),
    {
        self.scoped_instance_path(requester, id, UserAction::WriteInstanceFile(id), rel)
    }

    fn modifiable_instance_path(&self, requester: &UserPermission, id: InstanceUuid, rel: &str) -> (r:
        Result<String, Error>)
        requires
            self.wf(),
        ensures
            is_outcome(r, modify_outcome(self.instances@, *requester, id, rel@)),
    {
        let path = self.scoped_instance_path(requester, id, UserAction::WriteInstanceFile(id), rel)?;
        if is_file_protected(path.as_str()) {
            return Err(Error::new(ErrorKind::ProtectedResource, "Cannot modify protected file"));
        }
        Ok(path)
    }

    /// The file to write: `rel` in instance `id`, for a requester who may
    /// write its files, and never a protected file.
    pub fn write_instance_file(&self, requester: &UserPermission, id: InstanceUuid, rel: &str) -> (r:
        Result<String, Error>)
        requires
            self.wf(),
        ensures
            is_outcome(r, modify_outcome(self.instances@, *requester, id, rel@)),
            r matches Ok(p) ==> !is_protected(p@),
    {
        self.modifiable_instance_path(requester, id, rel)
    }

    /// The file or directory to remove: `rel` in instance `id`, for a
    /// requester who may write its files, and never a protected file.
    pub fn remove_instance_file(&self, requester: &UserPermission, id: InstanceUuid, rel: &str) -> (r:
        Result<String, Error>)
        requires
            self.wf(),
        ensures
            is_outcome(r, modify_outcome(self.instances@, *requester, id, rel@)),
            r matches Ok(p) ==> !is_protected(p@),
    {
        self.modifiable_instance_path(requester, id, rel)
    }
}

/// A write or removal whose path resolves to a protected file fails with
/// `ProtectedResource`, however much the requester is allowed.
pub proof fn lemma_protected_write_refused(
    instances: Seq<InstanceInfo>,
    requester: UserPermission,
    id: InstanceUuid,
    rel: Seq<char>,
)
    requires
        permits(&requester, UserAction::WriteInstanceFile(id)),
        has_id(instances, id),
        resolve_spec(entry_of(instances, id).path@, rel) matches Some(p) && is_protected(p),
    ensures
        modify_outcome(instances, requester, id, rel) == Err::<Seq<char>, ErrorKind>(
            ErrorKind::ProtectedResource,
        ),
{
}

} // verus!
