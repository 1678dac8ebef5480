//! Call sets: sets of content hashes of procedures reachable, directly or
//! transitively, from a compiled body.
//!
//! A call set is kept as a strictly sorted vector of hashes, so that a call
//! set is a canonical value: two call sets holding the same hashes are equal,
//! whatever order their elements were inserted in. Union and insertion are
//! the only composition operators, and both are idempotent and commutative at
//! the level of the abstract set.

use vstd::prelude::*;

verus! {

/// True when a sequence of hashes is strictly increasing: the canonical
/// layout of a call set's elements.
pub open spec fn strictly_sorted(s: Seq<u64>) -> bool {
    forall|i: int, j: int| 0 <= i < j < s.len() ==> s[i] < s[j]
}

/// What registering one call does to the calling procedure's call set: the
/// callee's call set is merged in (everything the callee may invoke, the
/// caller may invoke too), and a non-inlined call adds the callee's own hash,
/// because it leaves a reference that must be resolvable at finalization.
pub open spec fn call_registration_effect(
    current: Set<u64>,
    callee_callset: Set<u64>,
    callee_root: u64,
    inlined: bool,
) -> Set<u64> {
    if inlined {
        current.union(callee_callset)
    } else {
        current.union(callee_callset).insert(callee_root)
    }
}

/// A set of content hashes of procedures that a compiled body may invoke at
/// runtime, directly or transitively.
#[derive(Debug)]
pub struct CallSet {
    roots: Vec<u64>,
}

impl View for CallSet {
    type V = Seq<u64>;

    closed spec fn view(&self) -> Seq<u64> {
        self.roots@
    }
}

impl Clone for CallSet {
    fn clone(&self) -> (res: Self)
        ensures
            res@ == self@,
    {
        CallSet { roots: self.roots.clone() }
    }
}

impl CallSet {
    /// The abstract set of hashes this call set holds.
    pub open spec fn to_set(&self) -> Set<u64> {
        self@.to_set()
    }

    /// Well-formed call sets keep their elements strictly sorted.
    pub open spec fn wf(&self) -> bool {
        strictly_sorted(self@)
    }

    /// Returns an empty call set.
    pub fn new() -> (r: Self)
        ensures
            r@ == Seq::<u64>::empty(),
            r.wf(),
    {
        CallSet { roots: Vec::new() }
    }

    /// Returns the number of distinct hashes in this call set.
    pub fn len(&self) -> (r: usize)
        ensures
            r == self@.len(),
    {
        self.roots.len()
    }

    /// Returns the hash at the given position of the sorted layout.
    pub fn get(&self, i: usize) -> (r: u64)
        requires
            i < self@.len(),
        ensures
            r == self@[i as int],
    {
        self.roots[i]
    }

    /// Returns true if the given hash is in this call set.
    pub fn contains(&self, root: u64) -> (r: bool)
        ensures
            r == self@.contains(root),
    {
        let mut i: usize = 0;
        while i < self.roots.len()
            invariant
                i <= self@.len(),
                forall|k: int| 0 <= k < i ==> self@[k] != root,
            decreases self@.len() - i,
        {
            if self.roots[i] == root {
                return true;
            }
            i = i + 1;
        }
        false
    }

    /// Inserts a hash. Insertion is idempotent: inserting a hash already
    /// present leaves the call set unchanged.
    pub fn insert(&mut self, root: u64)
        requires
            old(self).wf(),
        ensures
            final(self).wf(),
            final(self).to_set() == old(self).to_set().insert(root),
    {
        let mut pos: usize = 0;
        while pos < self.roots.len() && self.roots[pos] < root
            invariant
                pos <= self@.len(),
                forall|k: int| 0 <= k < pos ==> self@[k] < root,
            decreases self@.len() - pos,
        {
            pos = pos + 1;
        }
        if pos < self.roots.len() && self.roots[pos] == root {
            proof {
                assert(self@.contains(root));
                assert(self@.to_set() =~= self@.to_set().insert(root));
            }
            return;
        }
        self.roots.insert(pos, root);
        proof {
            let s = old(self)@;
            let t = self@;
            assert(t == s.insert(pos as int, root));
            s.insert_ensures(pos as int, root);
            assert forall|i: int, j: int| 0 <= i < j < t.len() implies t[i] < t[j] by {
                if j < pos {
                    assert(t[i] == s[i] && t[j] == s[j]);
                } else if j == pos {
                    assert(t[i] == s[i] && s[i] < root);
                } else {
                    assert(t[j] == s[j - 1]);
                    if i < pos {
                        assert(i < j - 1);
                        assert(s[i] < s[j - 1]);
                    } else if i == pos {
                        assert(pos < s.len() ==> s[pos as int] > root);
                        if j - 1 == pos {
                            assert(t[j] == s[pos as int] && s[pos as int] > root);
                        } else {
                            assert(s[pos as int] < s[j - 1]);
                        }
                    } else {
                        assert(t[i] == s[i - 1]);
                        assert(s[i - 1] < s[j - 1]);
                    }
                }
            };
            assert forall|x: u64| t.to_set().contains(x) implies s.to_set().insert(root).contains(
                x,
            ) by {
                let jj = choose|jj: int| 0 <= jj < t.len() && t[jj] == x;
                if jj < pos {
                    assert(s[jj] == x);
                    assert(s.contains(x));
                } else if jj == pos {
                    assert(x == root);
                } else {
                    assert(s[jj - 1] == x);
                    assert(s.contains(x));
                }
            };
            assert forall|x: u64| s.to_set().insert(root).contains(x) implies t.to_set().contains(
                x,
            ) by {
                if x == root {
                    assert(t[pos as int] == x);
                    assert(t.contains(x));
                } else {
                    let jj = choose|jj: int| 0 <= jj < s.len() && s[jj] == x;
                    if jj < pos {
                        assert(t[jj] == x);
                    } else {
                        assert(t[jj + 1] == x);
                    }
                    assert(t.contains(x));
                }
            };
            assert(t.to_set() =~= s.to_set().insert(root));
        }
    }

    /// Merges another call set into this one: set union.
    pub fn append(&mut self, other: &CallSet)
        requires
            old(self).wf(),
        ensures
            final(self).wf(),
            final(self).to_set() == old(self).to_set().union(other.to_set()),
    {
        proof {
            assert(other@.take(0) =~= Seq::<u64>::empty());
            assert(self.to_set().union(other@.take(0).to_set()) =~= self.to_set());
        }
        let mut j: usize = 0;
        while j < other.roots.len()
            invariant
                j <= other@.len(),
                self.wf(),
                self.to_set() == old(self).to_set().union(other@.take(j as int).to_set()),
            decreases other@.len() - j,
        {
            let x = other.roots[j];
            self.insert(x);
            proof {
                assert(other@.take(j + 1) =~= other@.take(j as int).push(x));
                Seq::<u64>::lemma_push_to_set_commute(other@.take(j as int), x);
                assert(self.to_set() =~= old(self).to_set().union(other@.take(j + 1).to_set()));
            }
            j = j + 1;
        }
        proof {
            assert(other@.take(other@.len() as int) =~= other@);
        }
    }
}

} // verus!
