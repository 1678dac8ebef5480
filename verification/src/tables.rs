//! The code block table of a finalized program.
//!
//! A code block table maps content hashes to code bodies. It is built once,
//! when a program's compilation completes, and covers every hash transitively
//! reachable from the program's entry procedure.

use crate::code::{spec_hash, CodeBlock};
use vstd::prelude::*;

verus! {

/// The hash-to-body mapping a list of entries denotes; later entries win,
/// though a well-formed table never keys two entries alike.
pub open spec fn entries_map(s: Seq<(u64, CodeBlock)>) -> Map<u64, Seq<u64>>
    decreases s.len(),
{
    if s.len() == 0 {
        Map::empty()
    } else {
        entries_map(s.drop_last()).insert(s.last().0, s.last().1@)
    }
}

/// A key is in the mapping exactly when some entry carries it.
pub proof fn lemma_entries_map_dom(s: Seq<(u64, CodeBlock)>)
    ensures
        forall|k: u64|
            entries_map(s).dom().contains(k) <==> exists|i: int|
                0 <= i < s.len() && (#[trigger] s[i]).0 == k,
    decreases s.len(),
{
    if s.len() > 0 {
        lemma_entries_map_dom(s.drop_last());
        assert(entries_map(s).dom() =~= entries_map(s.drop_last()).dom().insert(s.last().0));
        assert forall|k: u64| entries_map(s).dom().contains(k) implies exists|i: int|
            0 <= i < s.len() && (#[trigger] s[i]).0 == k by {
            if k == s.last().0 {
                assert(s[s.len() - 1].0 == k);
            } else {
                assert(entries_map(s.drop_last()).dom().contains(k));
                let i = choose|i: int|
                    0 <= i < s.drop_last().len() && (#[trigger] s.drop_last()[i]).0 == k;
                assert(s[i] == s.drop_last()[i]);
                assert(s[i].0 == k);
            }
        }
        assert forall|k: u64|
            (exists|i: int| 0 <= i < s.len() && (#[trigger] s[i]).0 == k) implies entries_map(
            s,
        ).dom().contains(k) by {
            let i = choose|i: int| 0 <= i < s.len() && (#[trigger] s[i]).0 == k;
            if i < s.len() - 1 {
                assert(s.drop_last()[i].0 == k);
            }
        }
    }
}

/// With distinct keys, each entry's body is the mapping's value at its key.
pub proof fn lemma_entries_map_values(s: Seq<(u64, CodeBlock)>)
    requires
        forall|i: int, j: int| 0 <= i < j < s.len() ==> s[i].0 != s[j].0,
    ensures
        forall|i: int|
            0 <= i < s.len() ==> entries_map(s)[(#[trigger] s[i]).0] == s[i].1@,
    decreases s.len(),
{
    if s.len() > 0 {
        lemma_entries_map_values(s.drop_last());
        assert forall|i: int| 0 <= i < s.len() implies entries_map(s)[(#[trigger] s[i]).0]
            == s[i].1@ by {
            if i < s.len() - 1 {
                assert(s[i].0 != s.last().0);
                assert(s.drop_last()[i] == s[i]);
                assert(entries_map(s.drop_last())[s[i].0] == s[i].1@);
            }
        }
    }
}

/// The finalized mapping from content hash to code body for a whole program.
#[derive(Debug)]
pub struct CodeBlockTable {
    entries: Vec<(u64, CodeBlock)>,
}

impl View for CodeBlockTable {
    type V = Map<u64, Seq<u64>>;

    closed spec fn view(&self) -> Map<u64, Seq<u64>> {
        entries_map(self.entries@)
    }
}

impl CodeBlockTable {
    /// The stored entries, each a content hash with its body.
    pub closed spec fn spec_entries(&self) -> Seq<(u64, CodeBlock)> {
        self.entries@
    }

    /// No two entries share a key, and every entry is keyed by its body's
    /// content hash.
    pub open spec fn wf(&self) -> bool {
        &&& forall|i: int, j: int|
            0 <= i < j < self.spec_entries().len() ==> self.spec_entries()[i].0
                != self.spec_entries()[j].0
        &&& forall|i: int|
            0 <= i < self.spec_entries().len() ==> (#[trigger] self.spec_entries()[i]).0
                == spec_hash(self.spec_entries()[i].1@)
    }

    /// Returns an empty table.
    pub fn new() -> (r: Self)
        ensures
            r@ == Map::<u64, Seq<u64>>::empty(),
            r.wf(),
    {
        CodeBlockTable { entries: Vec::new() }
    }

    /// Returns the number of bodies stored.
    pub fn len(&self) -> (r: usize)
        requires
            self.wf(),
        ensures
            r == self@.dom().len(),
    {
        proof {
            lemma_table_len(self.spec_entries());
        }
        self.entries.len()
    }

    /// Looks up the body stored under a content hash.
    pub fn get(&self, mast_root: u64) -> (r: Option<&CodeBlock>)
        requires
            self.wf(),
        ensures
            match r {
                Some(c) => self@.dom().contains(mast_root) && c@ == self@[mast_root],
                None => !self@.dom().contains(mast_root),
            },
    {
        let mut i: usize = 0;
        while i < self.entries.len()
            invariant
                self.wf(),
                i <= self.spec_entries().len(),
                forall|k: int| 0 <= k < i ==> (#[trigger] self.spec_entries()[k]).0 != mast_root,
            decreases self.spec_entries().len() - i,
        {
            if self.entries[i].0 == mast_root {
                proof {
                    lemma_entries_map_dom(self.spec_entries());
                    lemma_entries_map_values(self.spec_entries());
                    assert(self.spec_entries()[i as int].0 == mast_root);
                    assert(self@.dom().contains(mast_root));
                    assert(self@[mast_root] == self.spec_entries()[i as int].1@);
                }
                return Some(&self.entries[i].1);
            }
            i = i + 1;
        }
        proof {
            lemma_entries_map_dom(self.spec_entries());
        }
        None
    }

    /// Stores a body under its content hash. Insertion keeps the first body
    /// stored under a hash: inserting under a hash already present leaves the
    /// table unchanged.
    pub fn insert(&mut self, code: CodeBlock)
        requires
            old(self).wf(),
        ensures
            final(self).wf(),
            final(self)@ == if old(self)@.dom().contains(spec_hash(code@)) {
                old(self)@
            } else {
                old(self)@.insert(spec_hash(code@), code@)
            },
    {
        let mast_root = code.hash();
        let mut i: usize = 0;
        while i < self.entries.len()
            invariant
                self.wf(),
                self == old(self),
                mast_root == spec_hash(code@),
                i <= self.spec_entries().len(),
                forall|k: int| 0 <= k < i ==> (#[trigger] self.spec_entries()[k]).0 != mast_root,
            decreases self.spec_entries().len() - i,
        {
            if self.entries[i].0 == mast_root {
                proof {
                    lemma_entries_map_dom(self.spec_entries());
                    assert(self.spec_entries()[i as int].0 == mast_root);
                    assert(self@.dom().contains(mast_root));
                }
                return ;
            }
            i = i + 1;
        }
        proof {
            lemma_entries_map_dom(self.spec_entries());
        }
        self.entries.push((mast_root, code));
        proof {
            let t = self.spec_entries();
            let s = old(self).spec_entries();
            assert(t.drop_last() =~= s);
            assert(t.drop_last() == s);
            assert(self@ == old(self)@.insert(mast_root, t.last().1@));
            assert(!old(self)@.dom().contains(mast_root));
            assert forall|i2: int, j2: int| 0 <= i2 < j2 < t.len() implies t[i2].0 != t[j2].0 by {
                if j2 == t.len() - 1 {
                    assert(t[i2] == s[i2]);
                } else {
                    assert(t[i2] == s[i2] && t[j2] == s[j2]);
                }
            }
            assert forall|i2: int| 0 <= i2 < t.len() implies (#[trigger] t[i2]).0 == spec_hash(
                t[i2].1@,
            ) by {
                if i2 < t.len() - 1 {
                    assert(t[i2] == s[i2]);
                }
            }
        }
    }
}

/// With distinct keys, the mapping holds as many pairs as there are entries.
proof fn lemma_table_len(s: Seq<(u64, CodeBlock)>)
    requires
        forall|i: int, j: int| 0 <= i < j < s.len() ==> s[i].0 != s[j].0,
    ensures
        entries_map(s).dom().finite(),
        entries_map(s).dom().len() == s.len(),
    decreases s.len(),
{
    if s.len() > 0 {
        lemma_table_len(s.drop_last());
        lemma_entries_map_dom(s.drop_last());
        assert(!entries_map(s.drop_last()).dom().contains(s.last().0));
        assert(entries_map(s).dom() =~= entries_map(s.drop_last()).dom().insert(s.last().0));
    }
}

} // verus!
