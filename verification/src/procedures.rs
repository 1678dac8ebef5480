//! Compiled procedures and the cache they are looked up from.
//!
//! A compiled procedure carries its generated code body, the body's content
//! hash (the canonical identity used for deduplication and cross-module
//! references), the declared number of memory locals, and the call set
//! accumulated while the body was generated.

use crate::callset::{strictly_sorted, CallSet};
use crate::code::{spec_hash, CodeBlock};
use vstd::prelude::*;

verus! {

/// A compiled procedure body: code, content hash, locals, and call set.
#[derive(Debug)]
pub struct Procedure {
    mast_root: u64,
    num_locals: u32,
    code: CodeBlock,
    callset: CallSet,
}

impl Procedure {
    /// The content hash of the procedure's body.
    pub closed spec fn spec_mast_root(&self) -> u64 {
        self.mast_root
    }

    /// The declared number of memory locals.
    pub closed spec fn spec_num_locals(&self) -> u32 {
        self.num_locals
    }

    /// The words of the generated code body.
    pub closed spec fn spec_code(&self) -> Seq<u64> {
        self.code@
    }

    /// The sorted elements of the procedure's call set.
    pub closed spec fn spec_callset(&self) -> Seq<u64> {
        self.callset@
    }

    /// The procedure's call set as an abstract set.
    pub open spec fn callset_set(&self) -> Set<u64> {
        self.spec_callset().to_set()
    }

    /// The stored hash is the body's content hash, and the call set is kept
    /// in its canonical sorted layout.
    pub open spec fn wf(&self) -> bool {
        &&& self.spec_mast_root() == spec_hash(self.spec_code())
        &&& strictly_sorted(self.spec_callset())
    }

    /// True when two procedures carry the same hash, locals, body and call
    /// set.
    pub open spec fn equiv(&self, other: &Procedure) -> bool {
        &&& self.spec_mast_root() == other.spec_mast_root()
        &&& self.spec_num_locals() == other.spec_num_locals()
        &&& self.spec_code() == other.spec_code()
        &&& self.spec_callset() == other.spec_callset()
    }

    /// Seals a finished code body into a procedure, deriving its content
    /// hash from the body.
    pub fn new(code: CodeBlock, num_locals: u32, callset: CallSet) -> (r: Self)
        requires
            callset.wf(),
        ensures
            r.wf(),
            r.spec_mast_root() == spec_hash(code@),
            r.spec_num_locals() == num_locals,
            r.spec_code() == code@,
            r.spec_callset() == callset@,
    {
        let mast_root = code.hash();
        Procedure { mast_root, num_locals, code, callset }
    }

    /// Returns the content hash of the procedure's body.
    pub fn mast_root(&self) -> (r: u64)
        ensures
            r == self.spec_mast_root(),
    {
        self.mast_root
    }

    /// Returns the declared number of memory locals.
    pub fn num_locals(&self) -> (r: u32)
        ensures
            r == self.spec_num_locals(),
    {
        self.num_locals
    }

    /// Returns the generated code body.
    pub fn code(&self) -> (r: &CodeBlock)
        ensures
            r@ == self.spec_code(),
    {
        &self.code
    }

    /// Returns the procedure's call set.
    pub fn callset(&self) -> (r: &CallSet)
        ensures
            r@ == self.spec_callset(),
    {
        &self.callset
    }
}

impl Clone for Procedure {
    fn clone(&self) -> (res: Self)
        ensures
            res.equiv(self),
    {
        Procedure {
            mast_root: self.mast_root,
            num_locals: self.num_locals,
            code: self.code.clone(),
            callset: self.callset.clone(),
        }
    }
}

/// A compiled procedure together with its source-level name and export flag.
#[derive(Debug)]
pub struct NamedProcedure {
    name: String,
    is_export: bool,
    procedure: Procedure,
}

impl NamedProcedure {
    /// The procedure's name within its module.
    pub closed spec fn spec_name(&self) -> Seq<char> {
        self.name@
    }

    /// True when the procedure is exported from its module.
    pub closed spec fn spec_is_export(&self) -> bool {
        self.is_export
    }

    /// The unnamed compiled procedure.
    pub closed spec fn spec_inner(&self) -> Procedure {
        self.procedure
    }

    /// Well-formedness of the underlying procedure.
    pub open spec fn wf(&self) -> bool {
        self.spec_inner().wf()
    }

    /// Binds a name and export flag to a finished code body, deriving its
    /// content hash from the body.
    pub fn new(name: String, is_export: bool, num_locals: u32, code: CodeBlock, callset: CallSet) -> (r:
        Self)
        requires
            callset.wf(),
        ensures
            r.wf(),
            r.spec_name() == name@,
            r.spec_is_export() == is_export,
            r.spec_inner().spec_mast_root() == spec_hash(code@),
            r.spec_inner().spec_num_locals() == num_locals,
            r.spec_inner().spec_code() == code@,
            r.spec_inner().spec_callset() == callset@,
    {
        NamedProcedure { name, is_export, procedure: Procedure::new(code, num_locals, callset) }
    }

    /// Returns the procedure's name.
    pub fn name(&self) -> (r: &String)
        ensures
            r@ == self.spec_name(),
    {
        &self.name
    }

    /// Returns true if the procedure is exported.
    pub fn is_export(&self) -> (r: bool)
        ensures
            r == self.spec_is_export(),
    {
        self.is_export
    }

    /// Returns the content hash of the procedure's body.
    pub fn mast_root(&self) -> (r: u64)
        ensures
            r == self.spec_inner().spec_mast_root(),
    {
        self.procedure.mast_root()
    }

    /// Returns the procedure's call set.
    pub fn callset(&self) -> (r: &CallSet)
        ensures
            r@ == self.spec_inner().spec_callset(),
    {
        self.procedure.callset()
    }

    /// Returns the unnamed compiled procedure.
    pub fn inner(&self) -> (r: &Procedure)
        ensures
            *r == self.spec_inner(),
    {
        &self.procedure
    }
}

/// The first procedure with the given content hash in a list, if any.
pub open spec fn find_proc(s: Seq<Procedure>, mast_root: u64) -> Option<Procedure>
    decreases s.len(),
{
    if s.len() == 0 {
        None
    } else if s.first().spec_mast_root() == mast_root {
        Some(s.first())
    } else {
        find_proc(s.drop_first(), mast_root)
    }
}

/// The first named procedure with the given content hash in a list, if any;
/// yields the unnamed procedure.
pub open spec fn find_named_proc(s: Seq<NamedProcedure>, mast_root: u64) -> Option<Procedure>
    decreases s.len(),
{
    if s.len() == 0 {
        None
    } else if s.first().spec_inner().spec_mast_root() == mast_root {
        Some(s.first().spec_inner())
    } else {
        find_named_proc(s.drop_first(), mast_root)
    }
}

/// When no element carries the hash, the search comes up empty.
pub proof fn lemma_find_proc_none(s: Seq<Procedure>, mast_root: u64)
    requires
        forall|k: int| 0 <= k < s.len() ==> s[k].spec_mast_root() != mast_root,
    ensures
        find_proc(s, mast_root) is None,
    decreases s.len(),
{
    if s.len() > 0 {
        lemma_find_proc_none(s.drop_first(), mast_root);
    }
}

/// When position `j` holds the first element carrying the hash, the search
/// yields that element.
pub proof fn lemma_find_proc_first(s: Seq<Procedure>, mast_root: u64, j: int)
    requires
        0 <= j < s.len(),
        s[j].spec_mast_root() == mast_root,
        forall|k: int| 0 <= k < j ==> s[k].spec_mast_root() != mast_root,
    ensures
        find_proc(s, mast_root) == Some(s[j]),
    decreases j,
{
    if j > 0 {
        lemma_find_proc_first(s.drop_first(), mast_root, j - 1);
    }
}

/// When no element carries the hash, the search comes up empty.
pub proof fn lemma_find_named_proc_none(s: Seq<NamedProcedure>, mast_root: u64)
    requires
        forall|k: int| 0 <= k < s.len() ==> s[k].spec_inner().spec_mast_root() != mast_root,
    ensures
        find_named_proc(s, mast_root) is None,
    decreases s.len(),
{
    if s.len() > 0 {
        lemma_find_named_proc_none(s.drop_first(), mast_root);
    }
}

/// When position `j` holds the first element carrying the hash, the search
/// yields that element's procedure.
pub proof fn lemma_find_named_proc_first(s: Seq<NamedProcedure>, mast_root: u64, j: int)
    requires
        0 <= j < s.len(),
        s[j].spec_inner().spec_mast_root() == mast_root,
        forall|k: int| 0 <= k < j ==> s[k].spec_inner().spec_mast_root() != mast_root,
    ensures
        find_named_proc(s, mast_root) == Some(s[j].spec_inner()),
    decreases j,
{
    if j > 0 {
        lemma_find_named_proc_first(s.drop_first(), mast_root, j - 1);
    }
}

/// A found procedure carries the hash it was looked up by, and is one of the
/// list's elements.
pub proof fn lemma_find_proc_some(s: Seq<Procedure>, mast_root: u64)
    ensures
        find_proc(s, mast_root) matches Some(p) ==> p.spec_mast_root() == mast_root && s.contains(
            p,
        ),
    decreases s.len(),
{
    if s.len() > 0 {
        lemma_find_proc_some(s.drop_first(), mast_root);
        match find_proc(s, mast_root) {
            Some(p) => {
                if s.first().spec_mast_root() != mast_root {
                    assert(s.drop_first().contains(p));
                    let i = choose|i: int| 0 <= i < s.drop_first().len() && s.drop_first()[i] == p;
                    assert(s[i + 1] == p);
                }
            },
            None => {},
        }
    }
}

/// A found named procedure carries the hash it was looked up by, and is the
/// inner procedure of one of the list's elements.
pub proof fn lemma_find_named_proc_some(s: Seq<NamedProcedure>, mast_root: u64)
    ensures
        find_named_proc(s, mast_root) matches Some(p) ==> p.spec_mast_root() == mast_root
            && exists|i: int|
            0 <= i < s.len() && (#[trigger] s[i]).spec_inner() == p,
    decreases s.len(),
{
    if s.len() > 0 {
        lemma_find_named_proc_some(s.drop_first(), mast_root);
        match find_named_proc(s, mast_root) {
            Some(p) => {
                if s.first().spec_inner().spec_mast_root() == mast_root {
                    assert(s[0].spec_inner() == p);
                } else {
                    let i = choose|i: int|
                        0 <= i < s.drop_first().len() && (#[trigger] s.drop_first()[i]).spec_inner()
                            == p;
                    assert(s[i + 1].spec_inner() == p);
                }
            },
            None => {},
        }
    }
}

/// The content hashes of a module's exported procedures, in compilation
/// order: the roots a kernel is built from.
pub open spec fn exported_roots(s: Seq<NamedProcedure>) -> Seq<u64>
    decreases s.len(),
{
    if s.len() == 0 {
        Seq::empty()
    } else if s.last().spec_is_export() {
        exported_roots(s.drop_last()).push(s.last().spec_inner().spec_mast_root())
    } else {
        exported_roots(s.drop_last())
    }
}

/// A store of previously compiled procedures, looked up by content hash when
/// a program's code block table is finalized.
#[derive(Debug)]
pub struct ProcedureCache {
    procs: Vec<Procedure>,
}

impl ProcedureCache {
    /// The stored procedures, in insertion order.
    pub closed spec fn spec_procs(&self) -> Seq<Procedure> {
        self.procs@
    }

    /// The first stored procedure with the given content hash, if any.
    pub open spec fn spec_get(&self, mast_root: u64) -> Option<Procedure> {
        find_proc(self.spec_procs(), mast_root)
    }

    /// Every stored procedure is well formed.
    pub open spec fn wf(&self) -> bool {
        forall|i: int| 0 <= i < self.spec_procs().len() ==> (#[trigger] self.spec_procs()[i]).wf()
    }

    /// Returns an empty cache.
    pub fn new() -> (r: Self)
        ensures
            r.spec_procs() == Seq::<Procedure>::empty(),
            r.wf(),
    {
        ProcedureCache { procs: Vec::new() }
    }

    /// Stores a compiled procedure.
    pub fn insert(&mut self, proc: Procedure)
        requires
            old(self).wf(),
            proc.wf(),
        ensures
            final(self).wf(),
            final(self).spec_procs() == old(self).spec_procs().push(proc),
    {
        self.procs.push(proc);
    }

    /// Looks up a procedure by the content hash of its body.
    pub fn get_by_hash(&self, mast_root: u64) -> (r: Option<&Procedure>)
        ensures
            match r {
                Some(p) => self.spec_get(mast_root) == Some(*p),
                None => self.spec_get(mast_root) is None,
            },
    {
        let mut i: usize = 0;
        while i < self.procs.len()
            invariant
                i <= self.spec_procs().len(),
                forall|k: int|
                    0 <= k < i ==> (#[trigger] self.spec_procs()[k]).spec_mast_root() != mast_root,
            decreases self.spec_procs().len() - i,
        {
            if self.procs[i].mast_root() == mast_root {
                proof {
                    lemma_find_proc_first(self.spec_procs(), mast_root, i as int);
                }
                return Some(&self.procs[i]);
            }
            i = i + 1;
        }
        proof {
            lemma_find_proc_none(self.spec_procs(), mast_root);
        }
        None
    }
}

} // verus!
