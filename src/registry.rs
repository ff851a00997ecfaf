//! The instance registry: the authoritative map from identity to instance
//! handle, kept in creation order, with no two short prefixes alike.
use vstd::prelude::*;

use crate::identity::{prefix_of, short_prefix, InstanceUuid};

verus! {

/// The server implementation variant of an instance.
#[derive(Clone, Copy, Debug, PartialEq, Eq, Structural)]
pub enum Flavour {
    Vanilla,
    Forge,
    Fabric,
    Paper,
}

/// The lifecycle state of an instance's server process.
#[derive(Clone, Copy, Debug, PartialEq, Eq, Structural)]
pub enum State {
    Starting,
    Running,
    Stopping,
    Stopped,
    Error,
}

/// What the registry holds of one instance.
#[derive(Clone, Debug)]
pub struct InstanceInfo {
    pub uuid: InstanceUuid,
    pub name: String,
    pub path: String,
    pub port: u32,
    pub flavour: Flavour,
    pub state: State,
    pub creation_time: i64,
}

impl InstanceInfo {
    /// A copy of this record, field for field.
    pub fn duplicate(&self) -> (r: InstanceInfo)
        ensures
            r == *self,
    {
        InstanceInfo {
            uuid: self.uuid,
            name: self.name.clone(),
            path: self.path.clone(),
            port: self.port,
            flavour: self.flavour,
            state: self.state,
            creation_time: self.creation_time,
        }
    }
}

/// Some entry has identity `id`.
pub open spec fn has_id(s: Seq<InstanceInfo>, id: InstanceUuid) -> bool {
    exists|i: int| 0 <= i < s.len() && #[trigger] s[i].uuid == id
}

/// No entry shares the short prefix of `id`.
pub open spec fn prefix_free(s: Seq<InstanceInfo>, id: InstanceUuid) -> bool {
    forall|i: int| 0 <= i < s.len() ==> prefix_of(#[trigger] s[i].uuid) != prefix_of(id)
}

/// No two entries share a short prefix (and so no two share an identity).
pub open spec fn distinct_prefixes(s: Seq<InstanceInfo>) -> bool {
    forall|i: int, j: int|
        0 <= i < j < s.len() ==> prefix_of(#[trigger] s[i].uuid) != prefix_of(#[trigger] s[j].uuid)
}

/// Entries are in ascending order of creation time.
pub open spec fn by_creation_time(s: Seq<InstanceInfo>) -> bool {
    forall|i: int, j: int|
        0 <= i <= j < s.len() ==> (#[trigger] s[i]).creation_time <= (#[trigger] s[j]).creation_time
}

/// The entry with identity `id`; meaningful where `has_id(s, id)`.
pub open spec fn entry_of(s: Seq<InstanceInfo>, id: InstanceUuid) -> InstanceInfo {
    s[choose|i: int| 0 <= i < s.len() && #[trigger] s[i].uuid == id]
}

pub struct Registry {
    entries: Vec<InstanceInfo>,
}

impl View for Registry {
    type V = Seq<InstanceInfo>;

    closed spec fn view(&self) -> Seq<InstanceInfo> {
        self.entries@
    }
}

impl Registry {
    pub open spec fn wf(&self) -> bool {
        distinct_prefixes(self@) && by_creation_time(self@)
    }

    pub fn new() -> (r: Registry)
        ensures
            r.wf(),
            r@ == Seq::<InstanceInfo>::empty(),
    {
        Registry { entries: Vec::new() }
    }

    pub fn len(&self) -> (r: usize)
        ensures
            r == self@.len(),
    {
        self.entries.len()
    }

    /// The entry at position `i`, in creation order.
    pub fn at(&self, i: usize) -> (r: &InstanceInfo)
        requires
            i < self@.len(),
        ensures
            *r == self@[i as int],
    {
        &self.entries[i]
    }

    /// The position of the entry with identity `id`.
    pub fn find(&self, id: InstanceUuid) -> (r: Option<usize>)
        requires
            self.wf(),
        ensures
            r is None <==> !has_id(self@, id),
            r matches Some(i) ==> i < self@.len() && self@[i as int].uuid == id && self@[i as int]
                == entry_of(self@, id),
    {
        let mut i: usize = 0;
        while i < self.entries.len()
            invariant
                i <= self@.len(),
                self@ == self.entries@,
                self.wf(),
                forall|j: int| 0 <= j < i ==> self@[j].uuid != id,
            decreases self@.len() - i,
        {
            if self.entries[i].uuid == id {
                proof {
                    lemma_entry_at(self@, i as int);
                }
                return Some(i);
            }
            i = i + 1;
        }
        None
    }

    /// Whether `id` is registered.
    pub fn contains(&self, id: InstanceUuid) -> (r: bool)
        requires
            self.wf(),
        ensures
            r == has_id(self@, id),
    {
        self.find(id).is_some()
    }

    /// Whether a registered instance shares the short prefix of `id`.
    pub fn prefix_taken(&self, id: InstanceUuid) -> (r: bool)
        ensures
            r == !prefix_free(self@, id),
    {
        let p = short_prefix(id);
        let mut i: usize = 0;
        while i < self.entries.len()
            invariant
                i <= self@.len(),
                self@ == self.entries@,
                p == prefix_of(id),
                forall|j: int| 0 <= j < i ==> prefix_of(#[trigger] self@[j].uuid) != p,
            decreases self@.len() - i,
        {
            if short_prefix(self.entries[i].uuid) == p {
                return true;
            }
            i = i + 1;
        }
        false
    }

    /// Adds `info` at its place in creation order. Where its short prefix is
    /// taken the registry is left as it was and `info` is handed back.
    pub fn insert(&mut self, info: InstanceInfo) -> (r: Result<(), InstanceInfo>)
        requires
            old(self).wf(),
        ensures
            final(self).wf(),
            r is Ok <==> prefix_free(old(self)@, info.uuid),
            r matches Err(back) ==> back == info && final(self)@ == old(self)@,
            r is Ok ==> exists|pos: int|
                0 <= pos <= old(self)@.len() && final(self)@ == old(self)@.insert(pos, info),
    {
        if self.prefix_taken(info.uuid) {
            return Err(info);
        }
        let t = info.creation_time;
        let mut pos: usize = 0;
        while pos < self.entries.len() && self.entries[pos].creation_time <= t
            invariant
                pos <= self@.len(),
                self@ == self.entries@,
                forall|j: int| 0 <= j < pos ==> (#[trigger] self@[j]).creation_time <= t,
            decreases self@.len() - pos,
        {
            pos = pos + 1;
        }
        let ghost s = self@;
        let ghost id = info.uuid;
        self.entries.insert(pos, info);
        proof {
            let n = self@;
            assert forall|i: int, j: int| 0 <= i < j < n.len() implies prefix_of(
                #[trigger] n[i].uuid,
            ) != prefix_of(#[trigger] n[j].uuid) by {
                if i < pos && j < pos {
                    assert(n[i] == s[i] && n[j] == s[j]);
                } else if i < pos && j == pos {
                    assert(n[i] == s[i]);
                } else if i < pos {
                    assert(n[i] == s[i] && n[j] == s[j - 1]);
                } else if i == pos {
                    assert(n[j] == s[j - 1]);
                } else {
                    assert(n[i] == s[i - 1] && n[j] == s[j - 1]);
                }
            }
            assert forall|i: int, j: int| 0 <= i <= j < n.len() implies (#[trigger] n[i]).creation_time
                <= (#[trigger] n[j]).creation_time by {
                if pos < s.len() {
                    assert(s[pos as int].creation_time > t);
                }
                if i < pos && j < pos {
                    assert(n[i] == s[i] && n[j] == s[j]);
                } else if i < pos && j == pos {
                    assert(n[i] == s[i]);
                } else if i < pos {
                    assert(n[i] == s[i] && n[j] == s[j - 1]);
                    assert(s[pos as int].creation_time <= s[j - 1].creation_time);
                } else if i == pos && j > pos {
                    assert(n[j] == s[j - 1]);
                    assert(s[pos as int].creation_time <= s[j - 1].creation_time);
                } else if i > pos {
                    assert(n[i] == s[i - 1] && n[j] == s[j - 1]);
                }
            }
        }
        Ok(())
    }

    /// Takes out the entry with identity `id`, if there is one.
    pub fn remove(&mut self, id: InstanceUuid) -> (r: Option<InstanceInfo>)
        requires
            old(self).wf(),
        ensures
            final(self).wf(),
            r is Some <==> has_id(old(self)@, id),
            r matches Some(e) ==> e == entry_of(old(self)@, id),
            !has_id(final(self)@, id),
            forall|x: InstanceUuid| x != id ==> (has_id(final(self)@, x) <==> has_id(old(self)@, x)),
            forall|x: InstanceUuid| x != id && has_id(old(self)@, x) ==> entry_of(final(self)@, x)
                == entry_of(old(self)@, x),
            r is None ==> final(self)@ == old(self)@,
    {
        match self.find(id) {
            None => None,
            Some(i) => {
                let ghost s = self@;
                let e = self.entries.remove(i);
                proof {
                    lemma_remove_keeps(s, i as int);
                }
                Some(e)
            },
        }
    }

    /// Sets the lifecycle state of instance `id`; `false` where it is not
    /// registered.
    pub fn set_state(&mut self, id: InstanceUuid, state: State) -> (r: bool)
        requires
            old(self).wf(),
        ensures
            final(self).wf(),
            r == has_id(old(self)@, id),
            r ==> exists|i: int|
                0 <= i < old(self)@.len() && old(self)@[i].uuid == id && final(self)@ == old(self)@.update(
                    i,
                    InstanceInfo { state, ..old(self)@[i] },
                ),
            !r ==> final(self)@ == old(self)@,
    {
        match self.find(id) {
            None => false,
            Some(i) => {
                let ghost s = self@;
                let mut e = self.entries.remove(i);
                e.state = state;
                self.entries.insert(i, e);
                proof {
                    let n = self@;
                    assert(n =~= s.update(i as int, InstanceInfo { state, ..s[i as int] }));
                    assert forall|a: int, b: int| 0 <= a < b < n.len() implies prefix_of(
                        #[trigger] n[a].uuid,
                    ) != prefix_of(#[trigger] n[b].uuid) by {
                        assert(n[a].uuid == s[a].uuid && n[b].uuid == s[b].uuid);
                    }
                    assert forall|a: int, b: int| 0 <= a <= b < n.len() implies (
                    #[trigger] n[a]).creation_time <= (#[trigger] n[b]).creation_time by {
                        assert(n[a].creation_time == s[a].creation_time);
                        assert(n[b].creation_time == s[b].creation_time);
                    }
                }
                true
            },
        }
    }
}

/// Removing the entry at `i` keeps the order and the prefixes apart, drops
/// its identity, and leaves every other entry as it was.
proof fn lemma_remove_keeps(s: Seq<InstanceInfo>, i: int)
    requires
        0 <= i < s.len(),
        distinct_prefixes(s),
        by_creation_time(s),
    ensures
        distinct_prefixes(s.remove(i)),
        by_creation_time(s.remove(i)),
        !has_id(s.remove(i), s[i].uuid),
        forall|x: InstanceUuid| x != s[i].uuid ==> (has_id(s.remove(i), x) <==> has_id(s, x)),
        forall|x: InstanceUuid| x != s[i].uuid && has_id(s, x) ==> entry_of(s.remove(i), x) == entry_of(
            s,
            x,
        ),
{
    let n = s.remove(i);
    assert forall|a: int, b: int| 0 <= a < b < n.len() implies prefix_of(#[trigger] n[a].uuid)
        != prefix_of(#[trigger] n[b].uuid) by {
        let a2 = if a < i { a } else { a + 1 };
        let b2 = if b < i { b } else { b + 1 };
        assert(n[a] == s[a2] && n[b] == s[b2]);
    }
    assert forall|a: int, b: int| 0 <= a <= b < n.len() implies (#[trigger] n[a]).creation_time
        <= (#[trigger] n[b]).creation_time by {
        let a2 = if a < i { a } else { a + 1 };
        let b2 = if b < i { b } else { b + 1 };
        assert(n[a] == s[a2] && n[b] == s[b2]);
    }
    if has_id(n, s[i].uuid) {
        let k = choose|k: int| 0 <= k < n.len() && #[trigger] n[k].uuid == s[i].uuid;
        let k2 = if k < i { k } else { k + 1 };
        assert(n[k] == s[k2]);
    }
    assert forall|x: InstanceUuid| x != s[i].uuid implies (has_id(n, x) <==> has_id(s, x)) by {
        if has_id(n, x) {
            let k = choose|k: int| 0 <= k < n.len() && #[trigger] n[k].uuid == x;
            let k2 = if k < i { k } else { k + 1 };
            assert(n[k] == s[k2]);
        }
        if has_id(s, x) {
            let k = choose|k: int| 0 <= k < s.len() && #[trigger] s[k].uuid == x;
            let k2 = if k < i { k } else { k - 1 };
            assert(n[k2] == s[k]);
        }
    }
    assert forall|x: InstanceUuid| x != s[i].uuid && has_id(s, x) implies entry_of(n, x) == entry_of(
        s,
        x,
    ) by {
        let k = choose|k: int| 0 <= k < s.len() && #[trigger] s[k].uuid == x;
        let k2 = if k < i { k } else { k - 1 };
        assert(n[k2] == s[k]);
        lemma_entry_at(s, k);
        lemma_entry_at(n, k2);
    }
}

/// Where prefixes are distinct, the entry at any position is the entry of
/// its identity.
pub proof fn lemma_entry_at(s: Seq<InstanceInfo>, k: int)
    requires
        0 <= k < s.len(),
        distinct_prefixes(s),
    ensures
        entry_of(s, s[k].uuid) == s[k],
{
    let id = s[k].uuid;
    let c = choose|i: int| 0 <= i < s.len() && #[trigger] s[i].uuid == id;
    if c != k {
        if c < k {
            assert(prefix_of(s[c].uuid) != prefix_of(s[k].uuid));
        } else {
            assert(prefix_of(s[k].uuid) != prefix_of(s[c].uuid));
        }
    }
}

} // verus!
