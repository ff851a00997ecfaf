//! Progress events: a start and an end for each long-running operation.
use vstd::prelude::*;

use crate::identity::InstanceUuid;
use crate::registry::{Flavour, InstanceInfo};

verus! {

/// Who caused an operation.
#[derive(Clone, Debug)]
pub enum CausedBy {
    User { user_id: String, user_name: String },
    System,
}

/// What an operation that starts is about.
#[derive(Clone, Debug)]
pub enum ProgressionStartValue {
    InstanceCreation {
        instance_uuid: InstanceUuid,
        instance_name: String,
        port: u32,
        flavour: Flavour,
    },
}

/// What an operation that ended successfully produced.
#[derive(Clone, Debug)]
pub enum ProgressionEndValue {
    InstanceCreation(InstanceInfo),
    InstanceDelete { instance_uuid: InstanceUuid },
}

/// The two halves of a progression; never changed once built.
#[derive(Clone, Debug)]
pub enum Event {
    ProgressionStart {
        event_id: u64,
        description: String,
        instance: Option<InstanceUuid>,
        total: Option<u64>,
        payload: Option<ProgressionStartValue>,
        caused_by: CausedBy,
    },
    ProgressionEnd {
        event_id: u64,
        success: bool,
        message: Option<String>,
        payload: Option<ProgressionEndValue>,
    },
}

/// Hands out event ids in increasing order.
pub struct EventIds {
    pub next: u64,
}

impl EventIds {
    pub fn new() -> (r: EventIds)
        ensures
            r.next == 0,
    {
        EventIds { next: 0 }
    }

    /// A start event under a fresh id, and that id, for the matching end.
    pub fn new_progression_event_start(
        &mut self,
        description: String,
        instance: Option<InstanceUuid>,
        total: Option<u64>,
        payload: Option<ProgressionStartValue>,
        caused_by: CausedBy,
    ) -> (r: (Event, u64))
        requires
            old(self).next < u64::MAX,
        ensures
            r.1 == old(self).next,
            final(self).next == old(self).next + 1,
            r.0 == (Event::ProgressionStart {
                event_id: r.1,
                description,
                instance,
                total,
                payload,
                caused_by,
            }),
    {
        let id = self.next;
        self.next = self.next + 1;
        (Event::ProgressionStart { event_id: id, description, instance, total, payload, caused_by }, id)
    }
}

/// The end event that closes progression `event_id`.
pub fn new_progression_event_end(
    event_id: u64,
    success: bool,
    message: Option<String>,
    payload: Option<ProgressionEndValue>,
) -> (r: Event)
    ensures
        r == (Event::ProgressionEnd { event_id, success, message, payload }),
{
    Event::ProgressionEnd { event_id, success, message, payload }
}

} // verus!
