//! The port allocator: which network ports are claimed by instances.
use vstd::prelude::*;

verus! {

/// The set of claimed ports. Claiming a port twice is not rejected: a port
/// is chosen upstream, and this only records the claim.
pub struct PortAllocator {
    ports: Vec<u32>,
}

impl View for PortAllocator {
    type V = Set<u32>;

    closed spec fn view(&self) -> Set<u32> {
        Set::new(|q: u32| self.ports@.contains(q))
    }
}

impl PortAllocator {
    pub fn new() -> (r: PortAllocator)
        ensures
            r@ == Set::<u32>::empty(),
    {
        let r = PortAllocator { ports: Vec::new() };
        assert(r@ =~= Set::<u32>::empty());
        r
    }

    /// Whether `port` is claimed.
    pub fn is_reserved(&self, port: u32) -> (r: bool)
        ensures
            r == self@.contains(port),
    {
        let mut i: usize = 0;
        while i < self.ports.len()
            invariant
                i <= self.ports@.len(),
                forall|j: int| 0 <= j < i ==> self.ports@[j] != port,
            decreases self.ports@.len() - i,
        {
            if self.ports[i] == port {
                assert(self.ports@.contains(port));
                return true;
            }
            i = i + 1;
        }
        false
    }

    /// Claims `port`.
    pub fn add_port(&mut self, port: u32)
        ensures
            final(self)@ == old(self)@.insert(port),
    {
        if !self.is_reserved(port) {
            proof {
                lemma_push_contains(self.ports@, port);
            }
            self.ports.push(port);
        }
        assert(self@ =~= old(self)@.insert(port));
    }

    /// Releases `port`.
    pub fn deallocate(&mut self, port: u32)
        ensures
            final(self)@ == old(self)@.remove(port),
    {
        let mut kept: Vec<u32> = Vec::new();
        let mut i: usize = 0;
        while i < self.ports.len()
            invariant
                i <= self.ports@.len(),
                forall|q: u32| #[trigger] kept@.contains(q) <==> (q != port && self.ports@.take(i as int).contains(q)),
            decreases self.ports@.len() - i,
        {
            let q = self.ports[i];
            assert(self.ports@.take(i + 1) =~= self.ports@.take(i as int).push(q));
            if q != port {
                proof {
                    lemma_push_contains(kept@, q);
                }
                kept.push(q);
            }
            proof {
                lemma_push_contains(self.ports@.take(i as int), q);
            }
            i = i + 1;
        }
        assert(self.ports@.take(i as int) =~= self.ports@);
        self.ports = kept;
        assert(final(self)@ =~= old(self)@.remove(port));
    }
}

/// What a sequence holds after a push.
pub proof fn lemma_push_contains<T>(s: Seq<T>, x: T)
    ensures
        forall|y: T| #[trigger] s.push(x).contains(y) <==> (s.contains(y) || y == x),
{
    assert forall|y: T| #[trigger] s.push(x).contains(y) <==> (s.contains(y) || y == x) by {
        if s.push(x).contains(y) {
            let j = choose|j: int| 0 <= j < s.push(x).len() && s.push(x)[j] == y;
            if j < s.len() {
                assert(s[j] == y);
            }
        }
        if s.contains(y) {
            let j = choose|j: int| 0 <= j < s.len() && s[j] == y;
            assert(s.push(x)[j] == y);
        }
        if y == x {
            assert(s.push(x)[s.len() as int] == y);
        }
    }
}

} // verus!
