//! Connection registry: the authoritative set of currently accepted
//! connections, kept for accounting and for deciding which inbound data may
//! become events at all. No other component mutates it.

use vstd::prelude::*;

verus! {

/// The set of transport ids of the currently accepted connections, in
/// acceptance order.
pub struct ConnectionRegistry {
    endpoints: Vec<u64>,
}

impl View for ConnectionRegistry {
    type V = Set<u64>;

    closed spec fn view(&self) -> Set<u64> {
        self.endpoints@.to_set()
    }
}

impl ConnectionRegistry {
    /// The acceptance-ordered ids; an implementation detail the contracts of
    /// [`Self::snapshot`] and [`Self::count`] are phrased over.
    pub closed spec fn order(&self) -> Seq<u64> {
        self.endpoints@
    }

    /// Each connection is tracked once.
    pub closed spec fn wf(&self) -> bool {
        self.endpoints@.no_duplicates()
    }

    /// The tracked set is exactly what stands in the acceptance order.
    pub proof fn lemma_view_is_order_set(&self)
        ensures
            self@ == self.order().to_set(),
    {
    }

    /// An empty registry.
    pub fn new() -> (r: Self)
        ensures
            r@ == Set::<u64>::empty(),
            r.order() == Seq::<u64>::empty(),
            r.wf(),
    {
        let r = ConnectionRegistry { endpoints: Vec::new() };
        proof {
            assert(r@ =~= Set::<u64>::empty());
        }
        r
    }

    /// Whether a connection is currently tracked.
    pub fn contains(&self, endpoint_id: u64) -> (r: bool)
        ensures
            r == self@.contains(endpoint_id),
    {
        let n = self.endpoints.len();
        let mut i: usize = 0;
        while i < n
            invariant
                n == self.endpoints@.len(),
                0 <= i <= n,
                forall|j: int| 0 <= j < i ==> self.endpoints@[j] != endpoint_id,
            decreases n - i,
        {
            if self.endpoints[i] == endpoint_id {
                return true;
            }
            i += 1;
        }
        proof {
            assert(!self.endpoints@.contains(endpoint_id));
        }
        false
    }

    /// Tracks a newly accepted connection; accepting a connection twice
    /// leaves the registry as it was.
    pub fn accept(&mut self, endpoint_id: u64)
        requires
            old(self).wf(),
        ensures
            final(self)@ == old(self)@.insert(endpoint_id),
            final(self).wf(),
            old(self)@.contains(endpoint_id) ==> final(self).order() == old(self).order(),
            !old(self)@.contains(endpoint_id) ==> final(self).order() == old(self).order().push(
                endpoint_id,
            ),
    {
        if self.contains(endpoint_id) {
            proof {
                assert(self@ =~= old(self)@.insert(endpoint_id));
            }
        } else {
            self.endpoints.push(endpoint_id);
            proof {
                let s0 = old(self).endpoints@;
                let s1 = self.endpoints@;
                assert(s1 =~= s0.push(endpoint_id));
                assert forall|a: u64| s1.to_set().contains(a) implies s0.to_set().insert(
                    endpoint_id,
                ).contains(a) by {
                    let i = choose|i: int| 0 <= i < s1.len() && s1[i] == a;
                    if i < s0.len() {
                        assert(s0.contains(a));
                    }
                }
                assert forall|a: u64| s0.to_set().insert(endpoint_id).contains(a) implies s1
                    .to_set().contains(a) by {
                    if s0.contains(a) {
                        let i = choose|i: int| 0 <= i < s0.len() && s0[i] == a;
                        assert(s1[i] == a);
                    } else {
                        assert(s1[s0.len() as int] == endpoint_id);
                    }
                }
                assert(self@ =~= old(self)@.insert(endpoint_id));
            }
        }
    }

    /// Stops tracking a disconnected connection; forgetting an unknown one
    /// leaves the registry as it was.
    pub fn disconnect(&mut self, endpoint_id: u64)
        requires
            old(self).wf(),
        ensures
            final(self)@ == old(self)@.remove(endpoint_id),
            final(self).wf(),
    {
        let n = self.endpoints.len();
        let mut i: usize = 0;
        while i < n
            invariant
                n == self.endpoints@.len(),
                0 <= i <= n,
                self == old(self),
                old(self).wf(),
                forall|j: int| 0 <= j < i ==> self.endpoints@[j] != endpoint_id,
            decreases n - i,
        {
            if self.endpoints[i] == endpoint_id {
                let ghost s0 = self.endpoints@;
                self.endpoints.remove(i);
                proof {
                    let s1 = self.endpoints@;
                    assert(s1 == s0.remove(i as int));
                    s0.remove_ensures(i as int);
                    assert(s0[i as int] == endpoint_id);
                    assert forall|a: u64| s1.to_set().contains(a) implies s0.to_set().remove(
                        endpoint_id,
                    ).contains(a) by {
                        let k = choose|k: int| 0 <= k < s1.len() && s1[k] == a;
                        if k < i {
                            assert(s0[k] == a);
                            assert(s0[k] != s0[i as int]);
                        } else {
                            assert(s0[k + 1] == a);
                            assert(s0[k + 1] != s0[i as int]);
                        }
                        assert(s0.contains(a));
                        assert(a != endpoint_id);
                    }
                    assert forall|a: u64| s0.to_set().remove(endpoint_id).contains(a) implies s1
                        .to_set().contains(a) by {
                        let k = choose|k: int| 0 <= k < s0.len() && s0[k] == a;
                        assert(k != i);
                        if k < i {
                            assert(s1[k] == a);
                        } else {
                            assert(s1[k - 1] == a);
                        }
                        assert(s1.contains(a));
                    }
                    assert(self@ =~= old(self)@.remove(endpoint_id));
                    assert forall|p: int, q: int|
                        0 <= p < q < s1.len() implies s1[p] != s1[q] by {
                        if q < i {
                            assert(s1[p] == s0[p]);
                            assert(s1[q] == s0[q]);
                            assert(s0[p] != s0[q]);
                        } else if p < i {
                            assert(s1[p] == s0[p]);
                            assert(s1[q] == s0[q + 1]);
                            assert(s0[p] != s0[q + 1]);
                        } else {
                            assert(s1[p] == s0[p + 1]);
                            assert(s1[q] == s0[q + 1]);
                            assert(s0[p + 1] != s0[q + 1]);
                        }
                    }
                }
                return ;
            }
            i += 1;
        }
        proof {
            assert(!self.endpoints@.contains(endpoint_id));
            assert(self@ =~= old(self)@.remove(endpoint_id));
        }
    }

    /// How many connections are tracked.
    pub fn count(&self) -> (n: usize)
        ensures
            n == self.order().len(),
            self.wf() ==> n == self@.len(),
    {
        proof {
            if self.wf() {
                self.endpoints@.unique_seq_to_set();
            }
        }
        self.endpoints.len()
    }

    /// The tracked ids, oldest acceptance first.
    pub fn snapshot(&self) -> (ids: Vec<u64>)
        ensures
            ids@ == self.order(),
    {
        let n = self.endpoints.len();
        let mut ids: Vec<u64> = Vec::new();
        let mut i: usize = 0;
        while i < n
            invariant
                n == self.endpoints@.len(),
                0 <= i <= n,
                ids@ == self.endpoints@.take(i as int),
            decreases n - i,
        {
            ids.push(self.endpoints[i]);
            proof {
                assert(ids@ =~= self.endpoints@.take(i + 1));
            }
            i += 1;
        }
        proof {
            assert(ids@ =~= self.endpoints@);
        }
        ids
    }
}

} // verus!
