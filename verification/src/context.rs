//! The compilation context: a stack of module contexts, each holding a stack
//! of procedure contexts.
//!
//! At any point of a compilation we are inside a procedure within a module,
//! and the context tracks both. The surrounding compiler brackets module and
//! procedure compilation with the `begin_*` / `complete_*` operations, records
//! calls discovered while a body is generated with the `register_*`
//! operations, and finally consumes the context into either a kernel or a
//! code block table.

use crate::callset::{call_registration_effect, strictly_sorted, CallSet};
use crate::code::{spec_hash, CodeBlock};
use crate::errors::{AssemblyError, KernelError};
use crate::kernel::{Kernel, MAX_KERNEL_PROCEDURES};
use crate::procedures::{
    exported_roots, find_named_proc, lemma_find_named_proc_first, lemma_find_named_proc_none,
    lemma_find_named_proc_some, lemma_find_proc_some, NamedProcedure, Procedure, ProcedureCache,
};
use crate::tables::CodeBlockTable;
use vstd::prelude::*;

verus! {

/// The reserved path of a program's entry module.
pub open spec fn exec_path() -> Seq<char> {
    "#exec"@
}

/// The reserved name of a program's entry procedure.
pub open spec fn main_proc_name() -> Seq<char> {
    "#main"@
}

/// Returns the reserved path of a program's entry module.
pub fn exec_path_string() -> (r: String)
    ensures
        r@ == exec_path(),
{
    "#exec".to_owned()
}

/// Returns the reserved name of a program's entry procedure.
pub fn main_proc_name_string() -> (r: String)
    ensures
        r@ == main_proc_name(),
{
    "#main".to_owned()
}

/// The first name bound to an imported-procedure id in a module's declared
/// imports, if any.
pub open spec fn lookup_import(s: Seq<(u64, String)>, id: u64) -> Option<String>
    decreases s.len(),
{
    if s.len() == 0 {
        None
    } else if s.first().0 == id {
        Some(s.first().1)
    } else {
        lookup_import(s.drop_first(), id)
    }
}

/// When no pair carries the id, the lookup comes up empty.
proof fn lemma_lookup_import_none(s: Seq<(u64, String)>, id: u64)
    requires
        forall|k: int| 0 <= k < s.len() ==> (#[trigger] s[k]).0 != id,
    ensures
        lookup_import(s, id) is None,
    decreases s.len(),
{
    if s.len() > 0 {
        lemma_lookup_import_none(s.drop_first(), id);
    }
}

/// When position `j` holds the first pair carrying the id, the lookup yields
/// that pair's name.
proof fn lemma_lookup_import_first(s: Seq<(u64, String)>, id: u64, j: int)
    requires
        0 <= j < s.len(),
        s[j].0 == id,
        forall|k: int| 0 <= k < j ==> (#[trigger] s[k]).0 != id,
    ensures
        lookup_import(s, id) == Some(s[j].1),
    decreases j,
{
    if j > 0 {
        lemma_lookup_import_first(s.drop_first(), id, j - 1);
    }
}

/// Transient state of one procedure while its body is being compiled.
#[derive(Debug)]
pub struct ProcedureContext {
    name: String,
    is_export: bool,
    num_locals: u16,
    callset: CallSet,
}

impl ProcedureContext {
    /// The procedure's declared name.
    pub closed spec fn spec_name(&self) -> Seq<char> {
        self.name@
    }

    /// True when the procedure will be exported from its module.
    pub closed spec fn spec_is_export(&self) -> bool {
        self.is_export
    }

    /// The declared number of memory locals.
    pub closed spec fn spec_num_locals(&self) -> u16 {
        self.num_locals
    }

    /// The sorted elements of the call set accumulated so far.
    pub closed spec fn spec_callset(&self) -> Seq<u64> {
        self.callset@
    }

    /// The accumulated call set as an abstract set.
    pub open spec fn callset_set(&self) -> Set<u64> {
        self.spec_callset().to_set()
    }

    /// The call set is kept in its canonical sorted layout.
    pub open spec fn wf(&self) -> bool {
        strictly_sorted(self.spec_callset())
    }

    /// True when this is the reserved entry procedure of a program.
    pub open spec fn spec_is_main(&self) -> bool {
        self.spec_name() == main_proc_name()
    }

    /// Opens compilation of a procedure: the call set starts empty.
    pub fn new(name: String, is_export: bool, num_locals: u16) -> (r: Self)
        ensures
            r.spec_name() == name@,
            r.spec_is_export() == is_export,
            r.spec_num_locals() == num_locals,
            r.spec_callset() == Seq::<u64>::empty(),
            r.wf(),
    {
        ProcedureContext { name, is_export, num_locals, callset: CallSet::new() }
    }

    /// Returns true if this is the reserved entry procedure of a program.
    pub fn is_main(&self) -> (r: bool)
        ensures
            r == self.spec_is_main(),
    {
        let main_name = main_proc_name_string();
        self.name == main_name
    }

    /// Returns the procedure's name.
    pub fn name(&self) -> (r: &String)
        ensures
            r@ == self.spec_name(),
    {
        &self.name
    }

    /// Seals the finished code body into a compiled procedure carrying the
    /// accumulated call set.
    pub fn into_procedure(self, code_root: CodeBlock) -> (r: NamedProcedure)
        requires
            self.wf(),
        ensures
            r.wf(),
            named_proc_matches(r, self, code_root@),
    {
        let ProcedureContext { name, is_export, num_locals, callset } = self;
        NamedProcedure::new(name, is_export, num_locals as u32, code_root, callset)
    }
}

/// The compiled procedure a procedure context seals into, given the finished
/// body: same name, export flag and call set, with the content hash derived
/// from the body.
pub open spec fn named_proc_matches(np: NamedProcedure, pc: ProcedureContext, code: Seq<u64>) -> bool {
    &&& np.spec_name() == pc.spec_name()
    &&& np.spec_is_export() == pc.spec_is_export()
    &&& np.spec_inner().spec_num_locals() == pc.spec_num_locals() as u32
    &&& np.spec_inner().spec_code() == code
    &&& np.spec_inner().spec_mast_root() == spec_hash(code)
    &&& np.spec_inner().spec_callset() == pc.spec_callset()
}

/// A freshly opened procedure context with the given declaration and an
/// empty call set.
pub open spec fn proc_ctx_is(
    pc: ProcedureContext,
    name: Seq<char>,
    is_export: bool,
    num_locals: u16,
) -> bool {
    &&& pc.spec_name() == name
    &&& pc.spec_is_export() == is_export
    &&& pc.spec_num_locals() == num_locals
    &&& pc.spec_callset() == Seq::<u64>::empty()
}

/// Transient state of one module while its procedures are being compiled.
#[derive(Debug)]
pub struct ModuleContext {
    /// Procedures in the course of compilation; the innermost is last.
    proc_stack: Vec<ProcedureContext>,
    /// Procedures of this module already compiled, in compilation order.
    compiled_procs: Vec<NamedProcedure>,
    /// Fully qualified path of this module.
    path: String,
    /// The combined call set of the module's compiled procedures.
    callset: CallSet,
    /// Declared imports: imported-procedure id to declared name, kept only
    /// for diagnostics.
    proc_map: Vec<(u64, String)>,
}

impl ModuleContext {
    /// The stack of procedures in the course of compilation.
    pub closed spec fn spec_proc_stack(&self) -> Seq<ProcedureContext> {
        self.proc_stack@
    }

    /// The module's compiled procedures, in compilation order.
    pub closed spec fn spec_compiled(&self) -> Seq<NamedProcedure> {
        self.compiled_procs@
    }

    /// The module's path.
    pub closed spec fn spec_path(&self) -> Seq<char> {
        self.path@
    }

    /// The sorted elements of the module's combined call set.
    pub closed spec fn spec_callset(&self) -> Seq<u64> {
        self.callset@
    }

    /// The module's combined call set as an abstract set.
    pub open spec fn callset_set(&self) -> Set<u64> {
        self.spec_callset().to_set()
    }

    /// The module's declared imports.
    pub closed spec fn spec_proc_map(&self) -> Seq<(u64, String)> {
        self.proc_map@
    }

    /// Every held call set is canonical and every compiled procedure is well
    /// formed.
    pub open spec fn wf(&self) -> bool {
        &&& strictly_sorted(self.spec_callset())
        &&& forall|i: int|
            0 <= i < self.spec_compiled().len() ==> (#[trigger] self.spec_compiled()[i]).wf()
        &&& forall|i: int|
            0 <= i < self.spec_proc_stack().len() ==> (#[trigger] self.spec_proc_stack()[i]).wf()
    }

    /// True when this is the entry module of a program.
    pub open spec fn spec_is_executable(&self) -> bool {
        self.spec_path() == exec_path()
    }

    /// Everything but the two stacks and the call set is the same in both
    /// module contexts.
    pub open spec fn same_statics(&self, other: &ModuleContext) -> bool {
        &&& self.spec_path() == other.spec_path()
        &&& self.spec_proc_map() == other.spec_proc_map()
    }

    /// True when a procedure of this name was already compiled in this
    /// module, or is in the course of compilation.
    pub open spec fn has_proc_named(&self, name: Seq<char>) -> bool {
        ||| exists|i: int|
            0 <= i < self.spec_compiled().len() && (#[trigger] self.spec_compiled()[i]).spec_name()
                == name
        ||| exists|i: int|
            0 <= i < self.spec_proc_stack().len() && (
            #[trigger] self.spec_proc_stack()[i]).spec_name() == name
    }

    /// Opens the entry module of a program. The reserved entry procedure is
    /// pre-seeded onto the procedure stack, so that top-level instructions
    /// compile as if inside an implicit procedure.
    pub fn for_program(proc_map: Vec<(u64, String)>) -> (r: Self)
        ensures
            r.wf(),
            r.spec_path() == exec_path(),
            r.spec_proc_stack().len() == 1,
            proc_ctx_is(r.spec_proc_stack()[0], main_proc_name(), false, 0),
            r.spec_compiled() == Seq::<NamedProcedure>::empty(),
            r.spec_callset() == Seq::<u64>::empty(),
            r.spec_proc_map() == proc_map@,
    {
        let name = main_proc_name_string();
        let main_proc_context = ProcedureContext::new(name, false, 0);
        let mut proc_stack: Vec<ProcedureContext> = Vec::new();
        proc_stack.push(main_proc_context);
        ModuleContext {
            proc_stack,
            compiled_procs: Vec::new(),
            path: exec_path_string(),
            callset: CallSet::new(),
            proc_map,
        }
    }

    /// Opens a library module, identified by its unique path.
    pub fn for_module(path: &String, proc_map: Vec<(u64, String)>) -> (r: Self)
        ensures
            r.wf(),
            r.spec_path() == path@,
            r.spec_proc_stack() == Seq::<ProcedureContext>::empty(),
            r.spec_compiled() == Seq::<NamedProcedure>::empty(),
            r.spec_callset() == Seq::<u64>::empty(),
            r.spec_proc_map() == proc_map@,
    {
        ModuleContext {
            proc_stack: Vec::new(),
            compiled_procs: Vec::new(),
            path: path.clone(),
            callset: CallSet::new(),
            proc_map,
        }
    }

    /// Returns true if this is the entry module of a program.
    pub fn is_executable(&self) -> (r: bool)
        ensures
            r == self.spec_is_executable(),
    {
        let e = exec_path_string();
        self.path == e
    }

    /// Returns the compiled procedure of this module with the given content
    /// hash, if any.
    pub fn find_local_proc(&self, mast_root: u64) -> (r: Option<&Procedure>)
        ensures
            match r {
                Some(p) => find_named_proc(self.spec_compiled(), mast_root) == Some(*p),
                None => find_named_proc(self.spec_compiled(), mast_root) is None,
            },
    {
        let mut i: usize = 0;
        while i < self.compiled_procs.len()
            invariant
                i <= self.spec_compiled().len(),
                forall|k: int|
                    0 <= k < i ==> (#[trigger] self.spec_compiled()[k]).spec_inner().spec_mast_root()
                        != mast_root,
            decreases self.spec_compiled().len() - i,
        {
            if self.compiled_procs[i].mast_root() == mast_root {
                proof {
                    lemma_find_named_proc_first(self.spec_compiled(), mast_root, i as int);
                }
                return Some(self.compiled_procs[i].inner());
            }
            i = i + 1;
        }
        proof {
            lemma_find_named_proc_none(self.spec_compiled(), mast_root);
        }
        None
    }

    /// Opens compilation of a procedure within this module, after checking
    /// that its name is new to the module.
    pub fn begin_proc(&mut self, name: &String, is_export: bool, num_locals: u16) -> (r: Result<
        (),
        AssemblyError,
    >)
        requires
            old(self).wf(),
        ensures
            final(self).wf(),
            old(self).has_proc_named(name@) ==> {
                &&& *final(self) == *old(self)
                &&& r matches Err(e) && e matches AssemblyError::DuplicateProcedureName {
                    name: n,
                    module: m,
                } && n@ == name@ && m@ == old(self).spec_path()
            },
            !old(self).has_proc_named(name@) ==> {
                &&& r is Ok
                &&& final(self).spec_proc_stack().len() == old(self).spec_proc_stack().len() + 1
                &&& final(self).spec_proc_stack().drop_last() == old(self).spec_proc_stack()
                &&& proc_ctx_is(final(self).spec_proc_stack().last(), name@, is_export, num_locals)
                &&& final(self).spec_compiled() == old(self).spec_compiled()
                &&& final(self).spec_callset() == old(self).spec_callset()
                &&& final(self).same_statics(old(self))
            },
    {
        let mut i: usize = 0;
        while i < self.compiled_procs.len()
            invariant
                self == old(self),
                self.wf(),
                i <= self.spec_compiled().len(),
                forall|k: int|
                    0 <= k < i ==> (#[trigger] self.spec_compiled()[k]).spec_name() != name@,
            decreases self.spec_compiled().len() - i,
        {
            if *self.compiled_procs[i].name() == *name {
                return Err(AssemblyError::DuplicateProcedureName {
                    name: name.clone(),
                    module: self.path.clone(),
                });
            }
            i = i + 1;
        }
        let mut j: usize = 0;
        while j < self.proc_stack.len()
            invariant
                self == old(self),
                self.wf(),
                j <= self.spec_proc_stack().len(),
                forall|k: int|
                    0 <= k < j ==> (#[trigger] self.spec_proc_stack()[k]).spec_name() != name@,
            decreases self.spec_proc_stack().len() - j,
        {
            if *self.proc_stack[j].name() == *name {
                return Err(AssemblyError::DuplicateProcedureName {
                    name: name.clone(),
                    module: self.path.clone(),
                });
            }
            j = j + 1;
        }
        self.proc_stack.push(ProcedureContext::new(name.clone(), is_export, num_locals));
        proof {
            assert(self.spec_proc_stack().drop_last() =~= old(self).spec_proc_stack());
        }
        Ok(())
    }

    /// Completes the procedure at the top of the procedure stack: seals it
    /// with the finished body, merges its call set into the module's, and
    /// appends it to the compiled list.
    pub fn complete_proc(&mut self, code: CodeBlock)
        requires
            old(self).wf(),
            old(self).spec_proc_stack().len() > 0,
        ensures
            final(self).wf(),
            final(self).spec_proc_stack() == old(self).spec_proc_stack().drop_last(),
            final(self).spec_compiled().len() == old(self).spec_compiled().len() + 1,
            final(self).spec_compiled().drop_last() == old(self).spec_compiled(),
            named_proc_matches(
                final(self).spec_compiled().last(),
                old(self).spec_proc_stack().last(),
                code@,
            ),
            final(self).callset_set() == old(self).callset_set().union(
                old(self).spec_proc_stack().last().callset_set(),
            ),
            final(self).same_statics(old(self)),
    {
        let proc_context = self.proc_stack.pop().unwrap();
        let proc = proc_context.into_procedure(code);
        self.callset.append(proc.callset());
        self.compiled_procs.push(proc);
        proof {
            assert(self.spec_compiled().drop_last() =~= old(self).spec_compiled());
        }
    }

    /// Registers a call to the local procedure at the given index of the
    /// compiled list, merging its call set into the procedure currently being
    /// compiled; a well-formed copy of the callee is returned.
    pub fn register_local_call(&mut self, proc_idx: u16, inlined: bool) -> (r: Result<
        Procedure,
        AssemblyError,
    >)
        requires
            old(self).wf(),
            old(self).spec_proc_stack().len() > 0,
        ensures
            final(self).wf(),
            proc_idx as int >= old(self).spec_compiled().len() ==> {
                &&& *final(self) == *old(self)
                &&& r matches Err(e) && e matches AssemblyError::ProcedureNotFound {
                    index,
                    module,
                } && index == proc_idx && module@ == old(self).spec_path()
            },
            (proc_idx as int) < old(self).spec_compiled().len() ==> {
                let callee = old(self).spec_compiled()[proc_idx as int].spec_inner();
                &&& module_after_register_call(*old(self), *final(self), callee, inlined)
                &&& r matches Ok(p) && p.equiv(&callee) && p.wf()
            },
    {
        if proc_idx as usize >= self.compiled_procs.len() {
            return Err(AssemblyError::ProcedureNotFound {
                index: proc_idx,
                module: self.path.clone(),
            });
        }
        let called_proc = self.compiled_procs[proc_idx as usize].inner().clone();
        let mut context = self.proc_stack.pop().unwrap();
        context.callset.append(called_proc.callset());
        if !inlined {
            context.callset.insert(called_proc.mast_root());
        }
        self.proc_stack.push(context);
        proof {
            assert(self.spec_compiled() == old(self).spec_compiled());
            assert(self.spec_proc_stack().drop_last() =~= old(self).spec_proc_stack().drop_last());
            assert forall|i: int|
                0 <= i < self.spec_proc_stack().len() implies (#[trigger] self.spec_proc_stack()[i]).wf() by {
                if i < self.spec_proc_stack().len() - 1 {
                    assert(self.spec_proc_stack()[i] == old(self).spec_proc_stack()[i]);
                }
            }
        }
        Ok(called_proc)
    }

    /// Registers a call to a procedure outside this module, merging its call
    /// set into the procedure currently being compiled.
    pub fn register_external_call(&mut self, called_proc: &Procedure, inlined: bool)
        requires
            old(self).wf(),
            old(self).spec_proc_stack().len() > 0,
        ensures
            final(self).wf(),
            module_after_register_call(*old(self), *final(self), *called_proc, inlined),
    {
        let mut context = self.proc_stack.pop().unwrap();
        context.callset.append(called_proc.callset());
        if !inlined {
            context.callset.insert(called_proc.mast_root());
        }
        self.proc_stack.push(context);
        proof {
            assert(self.spec_compiled() == old(self).spec_compiled());
            assert(self.spec_proc_stack().drop_last() =~= old(self).spec_proc_stack().drop_last());
            assert forall|i: int|
                0 <= i < self.spec_proc_stack().len() implies (#[trigger] self.spec_proc_stack()[i]).wf() by {
                if i < self.spec_proc_stack().len() - 1 {
                    assert(self.spec_proc_stack()[i] == old(self).spec_proc_stack()[i]);
                }
            }
        }
    }

    /// Completes the entry module of a program: drains the pre-seeded entry
    /// procedure and merges its call set into the module's.
    pub fn complete_executable(&mut self)
        requires
            old(self).wf(),
            old(self).spec_is_executable(),
            old(self).spec_proc_stack().len() == 1,
            old(self).spec_proc_stack()[0].spec_is_main(),
        ensures
            final(self).wf(),
            final(self).spec_proc_stack() == Seq::<ProcedureContext>::empty(),
            final(self).spec_compiled() == old(self).spec_compiled(),
            final(self).callset_set() == old(self).callset_set().union(
                old(self).spec_proc_stack()[0].callset_set(),
            ),
            final(self).same_statics(old(self)),
    {
        let main_proc_context = self.proc_stack.pop().unwrap();
        self.callset.append(&main_proc_context.callset);
        proof {
            assert(self.spec_compiled() == old(self).spec_compiled());
            assert(self.spec_proc_stack() =~= Seq::<ProcedureContext>::empty());
        }
    }
}

/// How registering one call changes a module context: only the procedure at
/// the top of the procedure stack changes, and only its call set, by the
/// callee's call set plus, for a non-inlined call, the callee's own hash.
pub open spec fn module_after_register_call(
    m0: ModuleContext,
    m1: ModuleContext,
    callee: Procedure,
    inlined: bool,
) -> bool {
    &&& m1.spec_proc_stack().len() == m0.spec_proc_stack().len()
    &&& m1.spec_proc_stack().drop_last() == m0.spec_proc_stack().drop_last()
    &&& m1.spec_proc_stack().last().spec_name() == m0.spec_proc_stack().last().spec_name()
    &&& m1.spec_proc_stack().last().spec_is_export() == m0.spec_proc_stack().last().spec_is_export()
    &&& m1.spec_proc_stack().last().spec_num_locals()
        == m0.spec_proc_stack().last().spec_num_locals()
    &&& m1.spec_proc_stack().last().callset_set() == call_registration_effect(
        m0.spec_proc_stack().last().callset_set(),
        callee.callset_set(),
        callee.spec_mast_root(),
        inlined,
    )
    &&& m1.spec_compiled() == m0.spec_compiled()
    &&& m1.spec_callset() == m0.spec_callset()
    &&& m1.same_statics(&m0)
}


/// Information about the compilation of a program or a kernel module: a
/// stack of module contexts, the innermost last, together with the kernel
/// policy flags and, once a kernel module completes, the built kernel.
#[derive(Debug)]
pub struct AssemblyContext {
    module_stack: Vec<ModuleContext>,
    is_kernel: bool,
    kernel: Option<Kernel>,
    allow_phantom_calls: bool,
}

/// The transitive call set of a program's entry module: everything its
/// compiled procedures and its entry procedure may invoke at runtime.
pub open spec fn entry_callset(ctx: AssemblyContext) -> Set<u64> {
    ctx.spec_modules()[0].callset_set().union(
        ctx.spec_modules()[0].spec_proc_stack()[0].callset_set(),
    )
}

/// The compiled procedures of a program's entry module.
pub open spec fn entry_locals(ctx: AssemblyContext) -> Seq<NamedProcedure> {
    ctx.spec_modules()[0].spec_compiled()
}

/// How a finalization-time hash is resolved to a body: the procedure cache
/// answers first, the entry module's own compiled list second.
pub open spec fn spec_resolve(
    cache: ProcedureCache,
    local: Seq<NamedProcedure>,
    mast_root: u64,
) -> Option<Procedure> {
    if cache.spec_get(mast_root) is Some {
        cache.spec_get(mast_root)
    } else {
        find_named_proc(local, mast_root)
    }
}

impl AssemblyContext {
    /// The stack of modules in the course of compilation.
    pub closed spec fn spec_modules(&self) -> Seq<ModuleContext> {
        self.module_stack@
    }

    /// True when this context compiles a trusted (kernel) module.
    pub closed spec fn spec_is_kernel(&self) -> bool {
        self.is_kernel
    }

    /// The kernel built when the kernel module completed, if any.
    pub closed spec fn spec_kernel(&self) -> Option<Kernel> {
        self.kernel
    }

    /// True when phantom calls are permitted in this context.
    pub closed spec fn spec_phantom_calls_allowed(&self) -> bool {
        self.allow_phantom_calls
    }

    /// Every module on the stack is well formed, no two share a path (no
    /// import cycle), and a kernel context never permits phantom calls.
    pub open spec fn wf(&self) -> bool {
        &&& forall|i: int|
            0 <= i < self.spec_modules().len() ==> (#[trigger] self.spec_modules()[i]).wf()
        &&& forall|i: int, j: int|
            0 <= i < j < self.spec_modules().len() ==> self.spec_modules()[i].spec_path()
                != self.spec_modules()[j].spec_path()
        &&& self.spec_is_kernel() ==> !self.spec_phantom_calls_allowed()
    }

    /// True when some module on the stack carries this path.
    pub open spec fn has_module_path(&self, path: Seq<char>) -> bool {
        exists|i: int|
            0 <= i < self.spec_modules().len() && (#[trigger] self.spec_modules()[i]).spec_path()
                == path
    }

    /// True when a procedure is in the course of compilation.
    pub open spec fn has_current_proc(&self) -> bool {
        self.spec_modules().len() > 0 && self.spec_modules().last().spec_proc_stack().len() > 0
    }

    /// The procedure currently being compiled.
    pub open spec fn spec_current_proc(&self) -> ProcedureContext {
        self.spec_modules().last().spec_proc_stack().last()
    }

    /// Opens a context for compiling a kernel or a library module.
    pub fn for_module(is_kernel_module: bool) -> (r: Self)
        ensures
            r.wf(),
            r.spec_modules() == Seq::<ModuleContext>::empty(),
            r.spec_is_kernel() == is_kernel_module,
            r.spec_kernel() is None,
            !r.spec_phantom_calls_allowed(),
    {
        AssemblyContext {
            module_stack: Vec::new(),
            is_kernel: is_kernel_module,
            kernel: None,
            allow_phantom_calls: false,
        }
    }

    /// Opens a context for compiling an executable program. When the
    /// program's declared imports are provided, imported procedure names can
    /// later be looked up for error reporting.
    pub fn for_program(program_imports: Option<Vec<(u64, String)>>) -> (r: Self)
        ensures
            r.wf(),
            !r.spec_is_kernel(),
            r.spec_kernel() is None,
            !r.spec_phantom_calls_allowed(),
            r.spec_modules().len() == 1,
            ({
                let m = r.spec_modules()[0];
                &&& m.spec_path() == exec_path()
                &&& m.spec_proc_stack().len() == 1
                &&& proc_ctx_is(m.spec_proc_stack()[0], main_proc_name(), false, 0)
                &&& m.spec_compiled() == Seq::<NamedProcedure>::empty()
                &&& m.spec_callset() == Seq::<u64>::empty()
                &&& m.spec_proc_map() == match program_imports {
                    Some(imports) => imports@,
                    None => Seq::<(u64, String)>::empty(),
                }
            }),
    {
        let imports: Vec<(u64, String)> = match program_imports {
            Some(imports) => imports,
            None => Vec::new(),
        };
        let mut module_stack: Vec<ModuleContext> = Vec::new();
        module_stack.push(ModuleContext::for_program(imports));
        AssemblyContext { module_stack, is_kernel: false, kernel: None, allow_phantom_calls: false }
    }

    /// Sets whether phantom calls are allowed. A kernel context never
    /// permits them.
    pub fn with_phantom_calls(self, allow_phantom_calls: bool) -> (r: Self)
        requires
            self.wf(),
            self.spec_is_kernel() ==> !allow_phantom_calls,
        ensures
            r.wf(),
            r.spec_modules() == self.spec_modules(),
            r.spec_is_kernel() == self.spec_is_kernel(),
            r.spec_kernel() == self.spec_kernel(),
            r.spec_phantom_calls_allowed() == allow_phantom_calls,
    {
        let mut this = self;
        this.allow_phantom_calls = allow_phantom_calls;
        proof {
            assert(this.spec_modules() == self.spec_modules());
        }
        this
    }

    /// Returns true if this context compiles a kernel.
    pub fn is_kernel(&self) -> (r: bool)
        ensures
            r == self.spec_is_kernel(),
    {
        self.is_kernel
    }

    /// Returns the number of memory locals of the procedure currently being
    /// compiled.
    pub fn num_proc_locals(&self) -> (r: u16)
        requires
            self.has_current_proc(),
        ensures
            r == self.spec_current_proc().spec_num_locals(),
    {
        let m = &self.module_stack[self.module_stack.len() - 1];
        m.proc_stack[m.proc_stack.len() - 1].num_locals
    }

    /// Returns the context of the procedure currently being compiled, or
    /// `None` if the module or procedure stacks are empty.
    pub fn current_proc_context(&self) -> (r: Option<&ProcedureContext>)
        ensures
            self.has_current_proc() ==> (r matches Some(p) && *p == self.spec_current_proc()),
            !self.has_current_proc() ==> r is None,
    {
        if self.module_stack.len() == 0 {
            return None;
        }
        let m = &self.module_stack[self.module_stack.len() - 1];
        if m.proc_stack.len() == 0 {
            return None;
        }
        Some(&m.proc_stack[m.proc_stack.len() - 1])
    }

    /// Returns the name of the procedure currently being compiled.
    pub fn current_context_name(&self) -> (r: &str)
        requires
            self.has_current_proc(),
        ensures
            r@ == self.spec_current_proc().spec_name(),
    {
        let m = &self.module_stack[self.module_stack.len() - 1];
        m.proc_stack[m.proc_stack.len() - 1].name.as_str()
    }

    /// Returns the declared name of an imported procedure by its id, looked
    /// up in the current module's declared imports.
    pub fn get_imported_procedure_name(&self, id: u64) -> (r: Option<String>)
        ensures
            self.spec_modules().len() == 0 ==> r is None,
            self.spec_modules().len() > 0 ==> r == lookup_import(
                self.spec_modules().last().spec_proc_map(),
                id,
            ),
    {
        if self.module_stack.len() == 0 {
            return None;
        }
        let m = &self.module_stack[self.module_stack.len() - 1];
        let mut i: usize = 0;
        while i < m.proc_map.len()
            invariant
                self.spec_modules().len() > 0,
                *m == self.spec_modules().last(),
                i <= m.spec_proc_map().len(),
                forall|k: int| 0 <= k < i ==> (#[trigger] m.spec_proc_map()[k]).0 != id,
            decreases m.spec_proc_map().len() - i,
        {
            if m.proc_map[i].0 == id {
                proof {
                    lemma_lookup_import_first(m.spec_proc_map(), id, i as int);
                }
                return Some(m.proc_map[i].1.clone());
            }
            i = i + 1;
        }
        proof {
            lemma_lookup_import_none(m.spec_proc_map(), id);
        }
        None
    }

    /// Returns the compiled procedure of the current module at the given
    /// index of its compiled list.
    pub fn get_local_procedure(&self, proc_idx: u16) -> (r: Result<&Procedure, AssemblyError>)
        requires
            self.spec_modules().len() > 0,
        ensures
            (proc_idx as int) < self.spec_modules().last().spec_compiled().len() ==> (r matches Ok(
                p,
            ) && *p == self.spec_modules().last().spec_compiled()[proc_idx as int].spec_inner()),
            (proc_idx as int) >= self.spec_modules().last().spec_compiled().len() ==> {
                &&& r matches Err(e)
                &&& e matches AssemblyError::ProcedureNotFound { index, module }
                &&& index == proc_idx
                &&& module@ == self.spec_modules().last().spec_path()
            },
    {
        let m = &self.module_stack[self.module_stack.len() - 1];
        if (proc_idx as usize) < m.compiled_procs.len() {
            Ok(m.compiled_procs[proc_idx as usize].inner())
        } else {
            Err(AssemblyError::ProcedureNotFound { index: proc_idx, module: m.path.clone() })
        }
    }
}


impl AssemblyContext {
    /// Initiates compilation of a new module, after checking that its path
    /// is not already on the stack (no circular module dependency). The
    /// error carries the whole dependency chain: every path on the stack, in
    /// order, plus the repeated path.
    pub fn begin_module(&mut self, path: &String, proc_map: Vec<(u64, String)>) -> (r: Result<
        (),
        AssemblyError,
    >)
        requires
            old(self).wf(),
        ensures
            final(self).wf(),
            final(self).spec_is_kernel() == old(self).spec_is_kernel(),
            final(self).spec_phantom_calls_allowed() == old(self).spec_phantom_calls_allowed(),
            final(self).spec_kernel() == old(self).spec_kernel(),
            old(self).has_module_path(path@) ==> {
                &&& *final(self) == *old(self)
                &&& r matches Err(e)
                &&& e matches AssemblyError::CircularModuleDependency { chain }
                &&& chain@.len() == old(self).spec_modules().len() + 1
                &&& forall|i: int|
                    0 <= i < old(self).spec_modules().len() ==> (#[trigger] chain@[i])@ == old(
                        self,
                    ).spec_modules()[i].spec_path()
                &&& chain@.last()@ == path@
            },
            !old(self).has_module_path(path@) ==> {
                &&& r is Ok
                &&& final(self).spec_modules().len() == old(self).spec_modules().len() + 1
                &&& final(self).spec_modules().drop_last() == old(self).spec_modules()
                &&& ({
                    let m = final(self).spec_modules().last();
                    &&& m.spec_path() == path@
                    &&& m.spec_proc_stack() == Seq::<ProcedureContext>::empty()
                    &&& m.spec_compiled() == Seq::<NamedProcedure>::empty()
                    &&& m.spec_callset() == Seq::<u64>::empty()
                    &&& m.spec_proc_map() == proc_map@
                })
            },
    {
        let mut i: usize = 0;
        while i < self.module_stack.len()
            invariant
                self == old(self),
                self.wf(),
                i <= self.spec_modules().len(),
                forall|k: int|
                    0 <= k < i ==> (#[trigger] self.spec_modules()[k]).spec_path() != path@,
            decreases self.spec_modules().len() - i,
        {
            if self.module_stack[i].path == *path {
                let mut chain: Vec<String> = Vec::new();
                let mut j: usize = 0;
                while j < self.module_stack.len()
                    invariant
                        self == old(self),
                        self.wf(),
                        self.has_module_path(path@),
                        j <= self.spec_modules().len(),
                        chain@.len() == j,
                        forall|k: int|
                            0 <= k < j ==> (#[trigger] chain@[k])@ == self.spec_modules()[k].spec_path(),
                    decreases self.spec_modules().len() - j,
                {
                    chain.push(self.module_stack[j].path.clone());
                    j = j + 1;
                }
                chain.push(path.clone());
                return Err(AssemblyError::CircularModuleDependency { chain });
            }
            i = i + 1;
        }
        self.module_stack.push(ModuleContext::for_module(path, proc_map));
        proof {
            assert(self.spec_modules().drop_last() =~= old(self).spec_modules());
            assert forall|k: int|
                0 <= k < self.spec_modules().len() implies (#[trigger] self.spec_modules()[k]).wf() by {
                if k < self.spec_modules().len() - 1 {
                    assert(self.spec_modules()[k] == old(self).spec_modules()[k]);
                }
            }
            assert forall|k: int, l: int|
                0 <= k < l < self.spec_modules().len() implies self.spec_modules()[k].spec_path()
                != self.spec_modules()[l].spec_path() by {
                assert(self.spec_modules()[k] == old(self).spec_modules()[k]);
                if l < self.spec_modules().len() - 1 {
                    assert(self.spec_modules()[l] == old(self).spec_modules()[l]);
                }
            }
        }
        Ok(())
    }

    /// Completes compilation of the current module: pops it off the stack
    /// and returns its compiled procedures together with their combined call
    /// set. When a kernel context pops its last module, the kernel is built
    /// from the content hashes of that module's exported procedures, in
    /// order; building happens exactly once.
    pub fn complete_module(&mut self) -> (r: Result<(Vec<NamedProcedure>, CallSet), AssemblyError>)
        requires
            old(self).wf(),
            old(self).spec_modules().len() > 0,
            old(self).spec_is_kernel() && old(self).spec_modules().len() == 1 ==> old(self).spec_kernel() is None,
        ensures
            final(self).wf(),
            final(self).spec_modules() == old(self).spec_modules().drop_last(),
            final(self).spec_is_kernel() == old(self).spec_is_kernel(),
            final(self).spec_phantom_calls_allowed() == old(self).spec_phantom_calls_allowed(),
            !(old(self).spec_is_kernel() && old(self).spec_modules().len() == 1) ==> r is Ok
                && final(self).spec_kernel() == old(self).spec_kernel(),
            old(self).spec_is_kernel() && old(self).spec_modules().len() == 1 ==> {
                let roots = exported_roots(old(self).spec_modules().last().spec_compiled());
                &&& roots.len() <= MAX_KERNEL_PROCEDURES ==> r is Ok && (final(self).spec_kernel()
                    matches Some(k) && k@ == roots)
                &&& roots.len() > MAX_KERNEL_PROCEDURES ==> {
                    &&& final(self).spec_kernel() is None
                    &&& r == Err::<(Vec<NamedProcedure>, CallSet), AssemblyError>(
                        AssemblyError::KernelConstructionFailed {
                            cause: KernelError::TooManyProcedures {
                                count: roots.len() as usize,
                            },
                        },
                    )
                }
            },
            r matches Ok((procs, cs)) ==> procs@ == old(self).spec_modules().last().spec_compiled()
                && cs@ == old(self).spec_modules().last().spec_callset(),
    {
        let module_ctx = self.module_stack.pop().unwrap();
        proof {
            assert(self.spec_modules() =~= old(self).spec_modules().drop_last());
            assert forall|k: int|
                0 <= k < self.spec_modules().len() implies (#[trigger] self.spec_modules()[k]).wf() by {
                assert(self.spec_modules()[k] == old(self).spec_modules()[k]);
            }
            assert forall|k: int, l: int|
                0 <= k < l < self.spec_modules().len() implies self.spec_modules()[k].spec_path()
                != self.spec_modules()[l].spec_path() by {
                assert(self.spec_modules()[k] == old(self).spec_modules()[k]);
                assert(self.spec_modules()[l] == old(self).spec_modules()[l]);
            }
        }
        if self.is_kernel && self.module_stack.len() == 0 {
            let mut proc_roots: Vec<u64> = Vec::new();
            let mut i: usize = 0;
            while i < module_ctx.compiled_procs.len()
                invariant
                    i <= module_ctx.spec_compiled().len(),
                    proc_roots@ == exported_roots(module_ctx.spec_compiled().take(i as int)),
                decreases module_ctx.spec_compiled().len() - i,
            {
                proof {
                    assert(module_ctx.spec_compiled().take(i + 1).drop_last() =~= module_ctx
                        .spec_compiled().take(i as int));
                    assert(module_ctx.spec_compiled().take(i + 1).last() == module_ctx
                        .spec_compiled()[i as int]);
                }
                let np = &module_ctx.compiled_procs[i];
                if np.is_export() {
                    proc_roots.push(np.mast_root());
                }
                i = i + 1;
            }
            proof {
                assert(module_ctx.spec_compiled().take(module_ctx.spec_compiled().len() as int)
                    =~= module_ctx.spec_compiled());
            }
            match Kernel::new(proc_roots) {
                Ok(k) => {
                    self.kernel = Some(k);
                },
                Err(cause) => {
                    return Err(AssemblyError::KernelConstructionFailed { cause });
                },
            }
        }
        let ModuleContext { compiled_procs, callset, .. } = module_ctx;
        Ok((compiled_procs, callset))
    }

    /// Initiates compilation of a new procedure in the current module, after
    /// checking that no compiled or in-progress procedure of that module
    /// carries the same name.
    pub fn begin_proc(&mut self, name: &String, is_export: bool, num_locals: u16) -> (r: Result<
        (),
        AssemblyError,
    >)
        requires
            old(self).wf(),
            old(self).spec_modules().len() > 0,
        ensures
            final(self).wf(),
            final(self).spec_modules().len() == old(self).spec_modules().len(),
            final(self).spec_modules().drop_last() == old(self).spec_modules().drop_last(),
            final(self).spec_is_kernel() == old(self).spec_is_kernel(),
            final(self).spec_phantom_calls_allowed() == old(self).spec_phantom_calls_allowed(),
            final(self).spec_kernel() == old(self).spec_kernel(),
            old(self).spec_modules().last().has_proc_named(name@) ==> {
                &&& final(self).spec_modules() == old(self).spec_modules()
                &&& r matches Err(e)
                &&& e matches AssemblyError::DuplicateProcedureName { name: n, module: m }
                &&& n@ == name@
                &&& m@ == old(self).spec_modules().last().spec_path()
            },
            !old(self).spec_modules().last().has_proc_named(name@) ==> {
                let m0 = old(self).spec_modules().last();
                let m1 = final(self).spec_modules().last();
                &&& r is Ok
                &&& m1.spec_proc_stack().len() == m0.spec_proc_stack().len() + 1
                &&& m1.spec_proc_stack().drop_last() == m0.spec_proc_stack()
                &&& proc_ctx_is(m1.spec_proc_stack().last(), name@, is_export, num_locals)
                &&& m1.spec_compiled() == m0.spec_compiled()
                &&& m1.spec_callset() == m0.spec_callset()
                &&& m1.same_statics(&m0)
            },
    {
        let mut m = self.module_stack.pop().unwrap();
        let r = m.begin_proc(name, is_export, num_locals);
        self.module_stack.push(m);
        proof {
            assert(self.spec_modules().drop_last() =~= old(self).spec_modules().drop_last());
            self.lemma_last_module_replaced(*old(self));
        }
        r
    }

    /// Completes compilation of the current procedure: seals it with the
    /// finished body and appends it to the current module's compiled list.
    pub fn complete_proc(&mut self, code: CodeBlock)
        requires
            old(self).wf(),
            old(self).has_current_proc(),
        ensures
            final(self).wf(),
            final(self).spec_modules().len() == old(self).spec_modules().len(),
            final(self).spec_modules().drop_last() == old(self).spec_modules().drop_last(),
            final(self).spec_is_kernel() == old(self).spec_is_kernel(),
            final(self).spec_phantom_calls_allowed() == old(self).spec_phantom_calls_allowed(),
            final(self).spec_kernel() == old(self).spec_kernel(),
            ({
                let m0 = old(self).spec_modules().last();
                let m1 = final(self).spec_modules().last();
                &&& m1.spec_proc_stack() == m0.spec_proc_stack().drop_last()
                &&& m1.spec_compiled().len() == m0.spec_compiled().len() + 1
                &&& m1.spec_compiled().drop_last() == m0.spec_compiled()
                &&& named_proc_matches(m1.spec_compiled().last(), m0.spec_proc_stack().last(), code@)
                &&& m1.callset_set() == m0.callset_set().union(
                    m0.spec_proc_stack().last().callset_set(),
                )
                &&& m1.same_statics(&m0)
            }),
    {
        let mut m = self.module_stack.pop().unwrap();
        m.complete_proc(code);
        self.module_stack.push(m);
        proof {
            assert(self.spec_modules().drop_last() =~= old(self).spec_modules().drop_last());
            self.lemma_last_module_replaced(*old(self));
        }
    }

    /// Registers a call to the procedure at the given index of the current
    /// module's compiled list, and returns a copy of the callee. In a kernel
    /// context only inlined calls are allowed.
    pub fn register_local_call(&mut self, proc_idx: u16, inlined: bool) -> (r: Result<
        Procedure,
        AssemblyError,
    >)
        requires
            old(self).wf(),
            old(self).has_current_proc(),
        ensures
            final(self).wf(),
            final(self).spec_modules().len() == old(self).spec_modules().len(),
            final(self).spec_modules().drop_last() == old(self).spec_modules().drop_last(),
            final(self).spec_is_kernel() == old(self).spec_is_kernel(),
            final(self).spec_phantom_calls_allowed() == old(self).spec_phantom_calls_allowed(),
            final(self).spec_kernel() == old(self).spec_kernel(),
            old(self).spec_is_kernel() && !inlined ==> {
                &&& *final(self) == *old(self)
                &&& r matches Err(e)
                &&& e matches AssemblyError::CallInKernelNotAllowed { procedure_name }
                &&& procedure_name@ == old(self).spec_current_proc().spec_name()
            },
            !(old(self).spec_is_kernel() && !inlined) && proc_idx as int >= old(
                self,
            ).spec_modules().last().spec_compiled().len() ==> {
                &&& final(self).spec_modules() == old(self).spec_modules()
                &&& r matches Err(e)
                &&& e matches AssemblyError::ProcedureNotFound { index, module }
                &&& index == proc_idx
                &&& module@ == old(self).spec_modules().last().spec_path()
            },
            !(old(self).spec_is_kernel() && !inlined) && (proc_idx as int) < old(
                self,
            ).spec_modules().last().spec_compiled().len() ==> {
                let callee = old(self).spec_modules().last().spec_compiled()[proc_idx as int].spec_inner();
                &&& module_after_register_call(
                    old(self).spec_modules().last(),
                    final(self).spec_modules().last(),
                    callee,
                    inlined,
                )
                &&& r matches Ok(p) && p.equiv(&callee) && p.wf()
            },
    {
        if self.is_kernel && !inlined {
            let m = &self.module_stack[self.module_stack.len() - 1];
            let procedure_name = m.proc_stack[m.proc_stack.len() - 1].name.clone();
            return Err(AssemblyError::CallInKernelNotAllowed { procedure_name });
        }
        let mut m = self.module_stack.pop().unwrap();
        let r = m.register_local_call(proc_idx, inlined);
        self.module_stack.push(m);
        proof {
            assert(self.spec_modules().drop_last() =~= old(self).spec_modules().drop_last());
            self.lemma_last_module_replaced(*old(self));
        }
        r
    }

    /// Registers a call to a procedure outside the current module. In a
    /// kernel context only inlined calls are allowed.
    pub fn register_external_call(&mut self, proc: &Procedure, inlined: bool) -> (r: Result<
        (),
        AssemblyError,
    >)
        requires
            old(self).wf(),
            old(self).has_current_proc(),
        ensures
            final(self).wf(),
            final(self).spec_modules().len() == old(self).spec_modules().len(),
            final(self).spec_modules().drop_last() == old(self).spec_modules().drop_last(),
            final(self).spec_is_kernel() == old(self).spec_is_kernel(),
            final(self).spec_phantom_calls_allowed() == old(self).spec_phantom_calls_allowed(),
            final(self).spec_kernel() == old(self).spec_kernel(),
            old(self).spec_is_kernel() && !inlined ==> {
                &&& *final(self) == *old(self)
                &&& r matches Err(e)
                &&& e matches AssemblyError::CallInKernelNotAllowed { procedure_name }
                &&& procedure_name@ == old(self).spec_current_proc().spec_name()
            },
            !(old(self).spec_is_kernel() && !inlined) ==> {
                &&& r is Ok
                &&& module_after_register_call(
                    old(self).spec_modules().last(),
                    final(self).spec_modules().last(),
                    *proc,
                    inlined,
                )
            },
    {
        if self.is_kernel && !inlined {
            let m = &self.module_stack[self.module_stack.len() - 1];
            let procedure_name = m.proc_stack[m.proc_stack.len() - 1].name.clone();
            return Err(AssemblyError::CallInKernelNotAllowed { procedure_name });
        }
        let mut m = self.module_stack.pop().unwrap();
        m.register_external_call(proc, inlined);
        self.module_stack.push(m);
        proof {
            assert(self.spec_modules().drop_last() =~= old(self).spec_modules().drop_last());
            self.lemma_last_module_replaced(*old(self));
        }
        Ok(())
    }

    /// Registers a phantom call to the procedure with the given content
    /// hash: code that references a hash whose body is not available at
    /// compile time. Nothing is recorded in any call set; the operation only
    /// checks the capability.
    pub fn register_phantom_call(&mut self, mast_root: u64) -> (r: Result<(), AssemblyError>)
        requires
            old(self).wf(),
        ensures
            final(self).wf(),
            *final(self) == *old(self),
            old(self).spec_phantom_calls_allowed() ==> r is Ok,
            !old(self).spec_phantom_calls_allowed() ==> r == Err::<(), AssemblyError>(
                AssemblyError::PhantomCallsNotAllowed { mast_root },
            ),
    {
        if !self.allow_phantom_calls {
            Err(AssemblyError::PhantomCallsNotAllowed { mast_root })
        } else {
            Ok(())
        }
    }

    /// Consumes the context and returns the kernel built when the kernel
    /// module completed.
    pub fn into_kernel(self) -> (r: Kernel)
        requires
            self.spec_kernel() is Some,
        ensures
            r == self.spec_kernel().unwrap(),
    {
        match self.kernel {
            Some(kernel) => kernel,
            None => vstd::pervasive::unreached(),
        }
    }

    /// After the last module is replaced by popping and pushing back, the
    /// whole stack is well formed provided the new last module is, and it
    /// kept the old path.
    proof fn lemma_last_module_replaced(&self, prev: AssemblyContext)
        requires
            prev.wf(),
            prev.spec_modules().len() > 0,
            self.spec_modules().len() == prev.spec_modules().len(),
            self.spec_modules().drop_last() == prev.spec_modules().drop_last(),
            self.spec_modules().last().wf(),
            self.spec_modules().last().spec_path() == prev.spec_modules().last().spec_path(),
        ensures
            forall|k: int|
                0 <= k < self.spec_modules().len() ==> (#[trigger] self.spec_modules()[k]).wf(),
            forall|k: int, l: int|
                0 <= k < l < self.spec_modules().len() ==> self.spec_modules()[k].spec_path()
                    != self.spec_modules()[l].spec_path(),
    {
        assert forall|k: int|
            0 <= k < self.spec_modules().len() implies (#[trigger] self.spec_modules()[k]).wf() by {
            if k < self.spec_modules().len() - 1 {
                assert(self.spec_modules()[k] == self.spec_modules().drop_last()[k]);
                assert(prev.spec_modules()[k] == prev.spec_modules().drop_last()[k]);
            }
        }
        assert forall|k: int, l: int|
            0 <= k < l < self.spec_modules().len() implies self.spec_modules()[k].spec_path()
            != self.spec_modules()[l].spec_path() by {
            assert(self.spec_modules()[k] == self.spec_modules().drop_last()[k]);
            assert(prev.spec_modules()[k] == prev.spec_modules().drop_last()[k]);
            if l < self.spec_modules().len() - 1 {
                assert(self.spec_modules()[l] == self.spec_modules().drop_last()[l]);
                assert(prev.spec_modules()[l] == prev.spec_modules().drop_last()[l]);
            }
        }
    }
}


impl AssemblyContext {
    /// Consumes the context and builds the code block table of a compiled
    /// program: the entry module is completed, and every hash in its
    /// transitive call set is resolved to a body, from the procedure cache
    /// first and from the module's own compiled procedures second. The build
    /// fails exactly when some hash of the call set resolves nowhere.
    pub fn into_cb_table(self, proc_cache: &ProcedureCache) -> (r: Result<
        CodeBlockTable,
        AssemblyError,
    >)
        requires
            self.wf(),
            self.spec_modules().len() == 1,
            self.spec_modules()[0].spec_is_executable(),
            self.spec_modules()[0].spec_proc_stack().len() == 1,
            self.spec_modules()[0].spec_proc_stack()[0].spec_is_main(),
            proc_cache.wf(),
        ensures
            r is Ok <==> (forall|h: u64|
                entry_callset(self).contains(h) ==> spec_resolve(
                    *proc_cache,
                    entry_locals(self),
                    h,
                ) is Some),
            r matches Ok(t) ==> {
                &&& t.wf()
                &&& t@.dom() == entry_callset(self)
                &&& forall|h: u64|
                    entry_callset(self).contains(h) ==> t@[h] == spec_resolve(
                        *proc_cache,
                        entry_locals(self),
                        h,
                    ).unwrap().spec_code()
            },
            r matches Err(e) ==> {
                &&& e matches AssemblyError::MissingCallsetProcedure { mast_root }
                &&& entry_callset(self).contains(mast_root)
                &&& spec_resolve(*proc_cache, entry_locals(self), mast_root) is None
            },
    {
        let mut this = self;
        let mut main_module_context = this.module_stack.pop().unwrap();
        main_module_context.complete_executable();
        proof {
            assert(main_module_context.callset_set() == entry_callset(self));
            assert(main_module_context.spec_compiled() == entry_locals(self));
        }
        let mut cb_table = CodeBlockTable::new();
        let n = main_module_context.callset.len();
        let mut i: usize = 0;
        while i < n
            invariant
                main_module_context.wf(),
                proc_cache.wf(),
                n == main_module_context.spec_callset().len(),
                i <= n,
                main_module_context.callset_set() == entry_callset(self),
                main_module_context.spec_compiled() == entry_locals(self),
                cb_table.wf(),
                cb_table@.dom() == main_module_context.spec_callset().take(i as int).to_set(),
                forall|h: u64|
                    main_module_context.spec_callset().take(i as int).to_set().contains(h)
                        ==> spec_resolve(*proc_cache, entry_locals(self), h) is Some,
                forall|h: u64|
                    #[trigger] cb_table@.dom().contains(h) ==> cb_table@[h] == spec_resolve(
                        *proc_cache,
                        entry_locals(self),
                        h,
                    ).unwrap().spec_code(),
            decreases n - i,
        {
            let mast_root = main_module_context.callset.get(i);
            proof {
                assert(main_module_context.spec_callset()[i as int] == mast_root);
                assert(main_module_context.spec_callset().contains(mast_root));
                assert(main_module_context.callset_set().contains(mast_root));
            }
            let looked_up = proc_cache.get_by_hash(mast_root);
            let found = match looked_up {
                Some(p) => Some(p),
                None => main_module_context.find_local_proc(mast_root),
            };
            match found {
                Some(proc) => {
                    proof {
                        lemma_find_proc_some(proc_cache.spec_procs(), mast_root);
                        lemma_find_named_proc_some(main_module_context.spec_compiled(), mast_root);
                        assert(spec_resolve(*proc_cache, entry_locals(self), mast_root) == Some(
                            *proc,
                        ));
                        if proc_cache.spec_get(mast_root) is Some {
                            assert(proc_cache.spec_procs().contains(*proc));
                            let j = choose|j: int|
                                0 <= j < proc_cache.spec_procs().len() && proc_cache.spec_procs()[j]
                                    == *proc;
                            assert(proc_cache.spec_procs()[j].wf());
                        } else {
                            let j = choose|j: int|
                                0 <= j < main_module_context.spec_compiled().len() && (
                                #[trigger] main_module_context.spec_compiled()[j]).spec_inner()
                                    == *proc;
                            assert(main_module_context.spec_compiled()[j].wf());
                        }
                        assert(proc.wf());
                        assert(proc.spec_mast_root() == mast_root);
                        assert(spec_hash(proc.spec_code()) == mast_root);
                        if main_module_context.spec_callset().take(i as int).to_set().contains(
                            mast_root,
                        ) {
                            let k = choose|k: int|
                                0 <= k < i && main_module_context.spec_callset().take(i as int)[k]
                                    == mast_root;
                            assert(main_module_context.spec_callset()[k] == mast_root);
                            assert(false);
                        }
                    }
                    cb_table.insert(proc.code().clone());
                    proof {
                        assert(main_module_context.spec_callset().take(i + 1)
                            =~= main_module_context.spec_callset().take(i as int).push(mast_root));
                        Seq::<u64>::lemma_push_to_set_commute(
                            main_module_context.spec_callset().take(i as int),
                            mast_root,
                        );
                        assert(cb_table@.dom() =~= main_module_context.spec_callset().take(
                            i + 1,
                        ).to_set());
                    }
                },
                None => {
                    proof {
                        assert(spec_resolve(*proc_cache, entry_locals(self), mast_root) is None);
                    }
                    return Err(AssemblyError::MissingCallsetProcedure { mast_root });
                },
            }
            i = i + 1;
        }
        proof {
            assert(main_module_context.spec_callset().take(n as int) =~= main_module_context
                .spec_callset());
        }
        Ok(cb_table)
    }
}

} // verus!
