use assembly_context::callset::CallSet;
use assembly_context::code::CodeBlock;
use assembly_context::context::AssemblyContext;
use assembly_context::errors::{AssemblyError, KernelError};
use assembly_context::kernel::MAX_KERNEL_PROCEDURES;
use assembly_context::procedures::{Procedure, ProcedureCache};
use assembly_context::tables::CodeBlockTable;

fn s(text: &str) -> String {
    text.to_string()
}

fn body(words: Vec<u64>) -> CodeBlock {
    CodeBlock::new(words)
}

#[test]
fn kernel_is_built_from_exported_roots_in_order() {
    let mut ctx = AssemblyContext::for_module(true);
    ctx.begin_module(&s("#sys"), vec![]).unwrap();
    ctx.begin_proc(&s("first"), true, 0).unwrap();
    ctx.complete_proc(body(vec![1]));
    ctx.begin_proc(&s("internal"), false, 0).unwrap();
    ctx.complete_proc(body(vec![2]));
    ctx.begin_proc(&s("second"), true, 0).unwrap();
    ctx.complete_proc(body(vec![3]));
    ctx.complete_module().unwrap();
    let kernel = ctx.into_kernel();
    let h1 = body(vec![1]).hash();
    let h2 = body(vec![3]).hash();
    assert_eq!(kernel.proc_hashes(), &vec![h1, h2]);
}

#[test]
fn kernel_with_too_many_exports_is_rejected() {
    let mut ctx = AssemblyContext::for_module(true);
    ctx.begin_module(&s("#sys"), vec![]).unwrap();
    let count = MAX_KERNEL_PROCEDURES + 1;
    for i in 0..count {
        ctx.begin_proc(&format!("p{}", i), true, 0).unwrap();
        ctx.complete_proc(body(vec![i as u64]));
    }
    let err = ctx.complete_module().unwrap_err();
    assert_eq!(
        err,
        AssemblyError::KernelConstructionFailed {
            cause: KernelError::TooManyProcedures { count }
        }
    );
}

#[test]
fn library_module_completion_builds_no_kernel() {
    let mut ctx = AssemblyContext::for_module(false);
    ctx.begin_module(&s("m"), vec![]).unwrap();
    ctx.begin_proc(&s("a"), true, 0).unwrap();
    ctx.complete_proc(body(vec![1]));
    ctx.complete_module().unwrap();
}

#[test]
fn code_block_table_covers_the_transitive_callset() {
    // The entry procedure calls a local helper dynamically; the helper calls
    // a cached procedure dynamically. Both bodies must end up in the table.
    let cached = Procedure::new(body(vec![40]), 0, CallSet::new());
    let cached_hash = cached.mast_root();
    let mut cache = ProcedureCache::new();
    cache.insert(cached);

    let mut ctx = AssemblyContext::for_program(None);
    ctx.begin_proc(&s("helper"), false, 0).unwrap();
    let cached_again = Procedure::new(body(vec![40]), 0, CallSet::new());
    ctx.register_external_call(&cached_again, false).unwrap();
    ctx.complete_proc(body(vec![10]));
    ctx.register_local_call(0, false).unwrap();

    let table = ctx.into_cb_table(&cache).unwrap();
    let helper_hash = body(vec![10]).hash();
    assert_eq!(table.len(), 2);
    assert_eq!(table.get(helper_hash).unwrap().words(), &vec![10]);
    assert_eq!(table.get(cached_hash).unwrap().words(), &vec![40]);
    assert!(table.get(12345).is_none());
}

#[test]
fn unresolvable_callset_hash_fails_finalization() {
    let missing = Procedure::new(body(vec![55]), 0, CallSet::new());
    let missing_hash = missing.mast_root();
    let mut ctx = AssemblyContext::for_program(None);
    ctx.register_external_call(&missing, false).unwrap();
    let cache = ProcedureCache::new();
    let err = ctx.into_cb_table(&cache).unwrap_err();
    assert_eq!(err, AssemblyError::MissingCallsetProcedure { mast_root: missing_hash });
}

#[test]
fn resolvable_callset_hash_succeeds_finalization() {
    // Same program as above, but the called procedure is in the cache.
    let called = Procedure::new(body(vec![55]), 0, CallSet::new());
    let called_hash = called.mast_root();
    let mut cache = ProcedureCache::new();
    cache.insert(Procedure::new(body(vec![55]), 0, CallSet::new()));
    let mut ctx = AssemblyContext::for_program(None);
    ctx.register_external_call(&called, false).unwrap();
    let table = ctx.into_cb_table(&cache).unwrap();
    assert_eq!(table.len(), 1);
    assert_eq!(table.get(called_hash).unwrap().words(), &vec![55]);
}

#[test]
fn inlined_calls_leave_nothing_to_resolve() {
    let outside = Procedure::new(body(vec![55]), 0, CallSet::new());
    let mut ctx = AssemblyContext::for_program(None);
    ctx.register_external_call(&outside, true).unwrap();
    let cache = ProcedureCache::new();
    let table = ctx.into_cb_table(&cache).unwrap();
    assert_eq!(table.len(), 0);
}

fn compile_sample_program(register_left_first: bool) -> CodeBlockTable {
    // Two dynamic external calls whose registration order is configurable;
    // the finalized table must not depend on it.
    let left = Procedure::new(body(vec![21]), 0, CallSet::new());
    let right = Procedure::new(body(vec![22]), 0, CallSet::new());
    let mut cache = ProcedureCache::new();
    cache.insert(Procedure::new(body(vec![21]), 0, CallSet::new()));
    cache.insert(Procedure::new(body(vec![22]), 0, CallSet::new()));
    let mut ctx = AssemblyContext::for_program(None);
    if register_left_first {
        ctx.register_external_call(&left, false).unwrap();
        ctx.register_external_call(&right, false).unwrap();
    } else {
        ctx.register_external_call(&right, false).unwrap();
        ctx.register_external_call(&left, false).unwrap();
    }
    ctx.into_cb_table(&cache).unwrap()
}

#[test]
fn compilation_is_deterministic_and_order_independent() {
    let once = compile_sample_program(true);
    let again = compile_sample_program(true);
    let reordered = compile_sample_program(false);
    let h_left = body(vec![21]).hash();
    let h_right = body(vec![22]).hash();
    for table in [&once, &again, &reordered] {
        assert_eq!(table.len(), 2);
        assert_eq!(table.get(h_left).unwrap().words(), &vec![21]);
        assert_eq!(table.get(h_right).unwrap().words(), &vec![22]);
    }
}

#[test]
fn phantom_call_is_not_in_the_table() {
    // The entry module calls local procedure 0 dynamically; that procedure
    // made a phantom call to a hash x. Finalization succeeds, the table
    // holds the procedure's body, and x stays out of the table.
    let x: u64 = 999_999;
    let mut ctx = AssemblyContext::for_program(None).with_phantom_calls(true);
    ctx.begin_proc(&s("proc0"), false, 0).unwrap();
    ctx.register_phantom_call(x).unwrap();
    ctx.complete_proc(body(vec![8, 9]));
    ctx.register_local_call(0, false).unwrap();
    let cache = ProcedureCache::new();
    let table = ctx.into_cb_table(&cache).unwrap();
    let proc0_hash = body(vec![8, 9]).hash();
    assert_ne!(proc0_hash, x);
    assert_eq!(table.len(), 1);
    assert_eq!(table.get(proc0_hash).unwrap().words(), &vec![8, 9]);
    assert!(table.get(x).is_none());
}

#[test]
fn local_procedures_resolve_before_nothing_but_after_the_cache() {
    // A hash present in both the cache and the local list resolves from the
    // cache; the bodies agree because the hash pins the body.
    let mut ctx = AssemblyContext::for_program(None);
    ctx.begin_proc(&s("helper"), false, 0).unwrap();
    ctx.complete_proc(body(vec![10]));
    ctx.register_local_call(0, false).unwrap();
    let mut cache = ProcedureCache::new();
    cache.insert(Procedure::new(body(vec![10]), 0, CallSet::new()));
    let table = ctx.into_cb_table(&cache).unwrap();
    assert_eq!(table.len(), 1);
    assert_eq!(table.get(body(vec![10]).hash()).unwrap().words(), &vec![10]);
}
