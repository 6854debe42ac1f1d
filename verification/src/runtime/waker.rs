use vstd::prelude::*;
use std::collections::HashSet;
use vstd::std_specs::hash::spec_hash_keys_iter;
use vstd::std_specs::iter::IteratorSpec;

verus! {

broadcast use vstd::std_specs::hash::group_hash_axioms;

/// Whether the numbers are in strictly increasing order.
pub open spec fn strictly_increasing(s: Seq<u64>) -> bool {
    forall|i: int, j: int| 0 <= i < j < s.len() ==> s[i] < s[j]
}

/// The tokens of the tasks that were woken and have not been drained yet.
#[derive(Debug)]
pub struct WakerRegistry {
    ready_tokens: HashSet<u64>,
}

/// Inserts `x` into the increasing sequence, keeping it increasing.
fn insert_sorted(v: &mut Vec<u64>, x: u64)
    requires
        strictly_increasing(old(v)@),
        !old(v)@.contains(x),
    ensures
        strictly_increasing(final(v)@),
        final(v)@.to_set() == old(v)@.to_set().insert(x),
        final(v)@.len() == old(v)@.len() + 1,
{
    let mut i: usize = 0;
    while i < v.len() && v[i] < x
        invariant
            i <= v@.len(),
            forall|j: int| 0 <= j < i ==> v@[j] < x,
        decreases v@.len() - i,
    {
        i = i + 1;
    }
    let ghost before = v@;
    v.insert(i, x);
    proof {
        assert(forall|j: int| i <= j < before.len() ==> before[j] > x) by {
            assert forall|j: int| i <= j < before.len() implies before[j] > x by {
                if before[i as int] < x {
                } else {
                    assert(before[i as int] != x);
                    if j > i {
                        assert(before[i as int] < before[j]);
                    }
                }
            }
        }
        assert(v@ == before.take(i as int).push(x) + before.skip(i as int));
        assert forall|a: int, b: int| 0 <= a < b < v@.len() implies v@[a] < v@[b] by {
            if b < i {
            } else if b == i {
            } else if a < i {
                assert(v@[a] == before[a]);
                assert(v@[b] == before[b - 1]);
            } else if a == i {
                assert(v@[b] == before[b - 1]);
            } else {
                assert(v@[a] == before[a - 1]);
                assert(v@[b] == before[b - 1]);
            }
        }
        assert forall|y: u64| v@.contains(y) <==> before.contains(y) || y == x by {
            if v@.contains(y) {
                let k = choose|k: int| 0 <= k < v@.len() && v@[k] == y;
                if k < i {
                    assert(before[k] == y);
                } else if k > i {
                    assert(before[k - 1] == y);
                }
            }
            if before.contains(y) {
                let k = choose|k: int| 0 <= k < before.len() && before[k] == y;
                if k < i {
                    assert(v@[k] == y);
                } else {
                    assert(v@[k + 1] == y);
                }
            }
            if y == x {
                assert(v@[i as int] == x);
            }
        }
        assert(v@.to_set() =~= before.to_set().insert(x));
    }
}

impl WakerRegistry {
    /// The woken tokens.
    pub closed spec fn spec_ready(&self) -> Set<u64> {
        self.ready_tokens@
    }

    pub fn new() -> (r: Self)
        ensures
            r.spec_ready() == Set::<u64>::empty(),
    {
        WakerRegistry { ready_tokens: HashSet::new() }
    }

    /// Marks a task woken; waking it twice counts once.
    pub fn wake(&mut self, token: u64)
        ensures
            final(self).spec_ready() == old(self).spec_ready().insert(token),
    {
        self.ready_tokens.insert(token);
    }

    /// The woken tokens in increasing order, each once; the registry is empty afterwards.
    pub fn drain_ready(&mut self) -> (r: Vec<u64>)
        ensures
            strictly_increasing(r@),
            r@.to_set() == old(self).spec_ready(),
            final(self).spec_ready() == Set::<u64>::empty(),
    {
        let mut drained: Vec<u64> = Vec::new();
        let ghost keys: Seq<u64> = spec_hash_keys_iter(&self.ready_tokens).remaining().unref();
        proof {
            assert(keys.to_set() == self.ready_tokens@);
            assert(keys.no_duplicates());
        }
        for t in it: self.ready_tokens.iter()
            invariant
                strictly_increasing(drained@),
                it.seq().unref() == keys,
                keys.no_duplicates(),
                keys.to_set() == self.ready_tokens@,
                drained@.to_set() == keys.take(it.index()).to_set(),
        {
            proof {
                let k = it.index();
                assert(*t == keys[k]);
                if drained@.contains(*t) {
                    assert(drained@.to_set().contains(*t));
                    assert(keys.take(k).to_set().contains(*t));
                    let m = choose|m: int| 0 <= m < k && keys.take(k)[m] == *t;
                    assert(keys[m] == keys[k]);
                }
                assert(keys.take(k + 1) =~= keys.take(k).push(keys[k]));
                keys.take(k).lemma_push_to_set_commute(keys[k]);
            }
            insert_sorted(&mut drained, *t);
        }
        proof {
            assert(keys.take(keys.len() as int) =~= keys);
        }
        self.ready_tokens.clear();
        drained
    }

    pub fn ready_count(&self) -> (r: usize)
        ensures
            r == self.spec_ready().len(),
    {
        self.ready_tokens.len()
    }
}

impl Default for WakerRegistry {
    fn default() -> (r: Self)
        ensures
            r.spec_ready() == Set::<u64>::empty(),
    {
        WakerRegistry::new()
    }
}

} // verus!
