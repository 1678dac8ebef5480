use assembly_context::callset::CallSet;
use assembly_context::code::CodeBlock;
use assembly_context::context::{AssemblyContext, ProcedureContext};
use assembly_context::errors::AssemblyError;
use assembly_context::procedures::{Procedure, ProcedureCache};

fn s(text: &str) -> String {
    text.to_string()
}

fn body(words: Vec<u64>) -> CodeBlock {
    CodeBlock::new(words)
}

#[test]
fn content_hash_has_expected_values() {
    assert_eq!(body(vec![]).hash(), 14695981039346656037u64);
    assert_eq!(body(vec![1, 2]).hash(), 590685167332061602u64);
    assert_eq!(body(vec![7]).hash(), 12638153115695167462u64);
}

#[test]
fn content_hash_is_deterministic() {
    assert_eq!(body(vec![3, 4, 5]).hash(), body(vec![3, 4, 5]).hash());
    assert_ne!(body(vec![3, 4, 5]).hash(), body(vec![5, 4, 3]).hash());
}

#[test]
fn callset_is_sorted_and_deduplicated() {
    let mut cs = CallSet::new();
    cs.insert(9);
    cs.insert(2);
    cs.insert(9);
    cs.insert(5);
    assert_eq!(cs.len(), 3);
    assert_eq!(cs.get(0), 2);
    assert_eq!(cs.get(1), 5);
    assert_eq!(cs.get(2), 9);
    assert!(cs.contains(5));
    assert!(!cs.contains(7));
}

#[test]
fn callset_union_is_order_independent() {
    let mut a = CallSet::new();
    a.insert(4);
    a.insert(1);
    let mut b = CallSet::new();
    b.insert(8);
    b.insert(4);
    let mut left = a.clone();
    left.append(&b);
    let mut right = b.clone();
    right.append(&a);
    assert_eq!(left.len(), right.len());
    for i in 0..left.len() {
        assert_eq!(left.get(i), right.get(i));
    }
}

#[test]
fn balanced_module_brackets_succeed() {
    let mut ctx = AssemblyContext::for_module(false);
    ctx.begin_module(&s("a"), vec![]).unwrap();
    ctx.begin_module(&s("b"), vec![]).unwrap();
    ctx.complete_module().unwrap();
    ctx.complete_module().unwrap();
}

#[test]
fn circular_module_dependency_reports_chain() {
    let mut ctx = AssemblyContext::for_module(false);
    ctx.begin_module(&s("a"), vec![]).unwrap();
    ctx.begin_module(&s("b"), vec![]).unwrap();
    let err = ctx.begin_module(&s("a"), vec![]).unwrap_err();
    assert_eq!(
        err,
        AssemblyError::CircularModuleDependency { chain: vec![s("a"), s("b"), s("a")] }
    );
}

#[test]
fn module_path_is_free_again_after_completion() {
    let mut ctx = AssemblyContext::for_module(false);
    ctx.begin_module(&s("a"), vec![]).unwrap();
    ctx.complete_module().unwrap();
    ctx.begin_module(&s("a"), vec![]).unwrap();
}

#[test]
fn duplicate_procedure_name_is_rejected() {
    let mut ctx = AssemblyContext::for_module(false);
    ctx.begin_module(&s("m"), vec![]).unwrap();
    ctx.begin_proc(&s("foo"), false, 0).unwrap();
    ctx.complete_proc(body(vec![1]));
    let err = ctx.begin_proc(&s("foo"), false, 0).unwrap_err();
    assert_eq!(err, AssemblyError::DuplicateProcedureName { name: s("foo"), module: s("m") });
}

#[test]
fn duplicate_name_of_in_progress_procedure_is_rejected() {
    let mut ctx = AssemblyContext::for_module(false);
    ctx.begin_module(&s("m"), vec![]).unwrap();
    ctx.begin_proc(&s("outer"), false, 0).unwrap();
    let err = ctx.begin_proc(&s("outer"), false, 0).unwrap_err();
    assert!(matches!(err, AssemblyError::DuplicateProcedureName { .. }));
}

#[test]
fn callset_algebra_for_inlined_and_dynamic_calls() {
    // The body of q registers one dynamic external call to a standalone
    // procedure, so callset(q) is not empty.
    let outside = Procedure::new(body(vec![99]), 0, CallSet::new());
    let outside_hash = outside.mast_root();

    let mut ctx = AssemblyContext::for_program(None);
    ctx.begin_proc(&s("q"), false, 0).unwrap();
    ctx.register_external_call(&outside, false).unwrap();
    ctx.complete_proc(body(vec![1]));
    let q = ctx.get_local_procedure(0).unwrap();
    let q_hash = q.mast_root();
    assert!(q.callset().contains(outside_hash));
    assert_eq!(q.callset().len(), 1);

    // p calls q inlined: callset(p) == callset(q).
    ctx.begin_proc(&s("p"), false, 0).unwrap();
    ctx.register_local_call(0, true).unwrap();
    ctx.complete_proc(body(vec![2]));
    let p = ctx.get_local_procedure(1).unwrap();
    assert_eq!(p.callset().len(), 1);
    assert!(p.callset().contains(outside_hash));

    // r calls q dynamically: callset(r) == callset(q) + {hash(q)}.
    ctx.begin_proc(&s("r"), false, 0).unwrap();
    ctx.register_local_call(0, false).unwrap();
    ctx.complete_proc(body(vec![3]));
    let r = ctx.get_local_procedure(2).unwrap();
    assert_eq!(r.callset().len(), 2);
    assert!(r.callset().contains(outside_hash));
    assert!(r.callset().contains(q_hash));
}

#[test]
fn local_call_index_out_of_range_is_reported() {
    let mut ctx = AssemblyContext::for_program(None);
    let err = ctx.register_local_call(0, true).unwrap_err();
    assert_eq!(err, AssemblyError::ProcedureNotFound { index: 0, module: s("#exec") });
}

#[test]
fn get_local_procedure_out_of_range_is_reported() {
    let mut ctx = AssemblyContext::for_program(None);
    ctx.begin_proc(&s("only"), false, 0).unwrap();
    ctx.complete_proc(body(vec![1]));
    assert!(ctx.get_local_procedure(0).is_ok());
    let err = ctx.get_local_procedure(3).unwrap_err();
    assert_eq!(err, AssemblyError::ProcedureNotFound { index: 3, module: s("#exec") });
}

#[test]
fn kernel_forbids_dynamic_local_calls() {
    let mut ctx = AssemblyContext::for_module(true);
    ctx.begin_module(&s("#sys"), vec![]).unwrap();
    ctx.begin_proc(&s("a"), true, 0).unwrap();
    ctx.complete_proc(body(vec![1]));
    ctx.begin_proc(&s("b"), true, 0).unwrap();
    let err = ctx.register_local_call(0, false).unwrap_err();
    assert_eq!(err, AssemblyError::CallInKernelNotAllowed { procedure_name: s("b") });
    // The same call, inlined, is allowed.
    ctx.register_local_call(0, true).unwrap();
}

#[test]
fn kernel_forbids_dynamic_external_calls() {
    let outside = Procedure::new(body(vec![5]), 0, CallSet::new());
    let mut ctx = AssemblyContext::for_module(true);
    ctx.begin_module(&s("#sys"), vec![]).unwrap();
    ctx.begin_proc(&s("a"), true, 0).unwrap();
    let err = ctx.register_external_call(&outside, false).unwrap_err();
    assert_eq!(err, AssemblyError::CallInKernelNotAllowed { procedure_name: s("a") });
    ctx.register_external_call(&outside, true).unwrap();
}

#[test]
fn kernel_forbids_phantom_calls() {
    let mut ctx = AssemblyContext::for_module(true);
    let err = ctx.register_phantom_call(77).unwrap_err();
    assert_eq!(err, AssemblyError::PhantomCallsNotAllowed { mast_root: 77 });
}

#[test]
fn phantom_calls_need_the_capability() {
    let mut plain = AssemblyContext::for_program(None);
    let err = plain.register_phantom_call(42).unwrap_err();
    assert_eq!(err, AssemblyError::PhantomCallsNotAllowed { mast_root: 42 });
    let mut permissive = AssemblyContext::for_program(None).with_phantom_calls(true);
    permissive.register_phantom_call(42).unwrap();
}

#[test]
fn accessors_report_the_current_procedure() {
    let mut ctx = AssemblyContext::for_program(None);
    assert!(!ctx.is_kernel());
    assert_eq!(ctx.current_context_name(), "#main");
    assert_eq!(ctx.num_proc_locals(), 0);
    ctx.begin_proc(&s("helper"), false, 3).unwrap();
    assert_eq!(ctx.current_context_name(), "helper");
    assert_eq!(ctx.num_proc_locals(), 3);
    assert!(ctx.current_proc_context().is_some());
}

#[test]
fn imported_procedure_names_are_looked_up() {
    let imports = vec![(10u64, s("math::add")), (11u64, s("math::mul"))];
    let mut ctx = AssemblyContext::for_program(Some(imports));
    assert_eq!(ctx.get_imported_procedure_name(10), Some(s("math::add")));
    assert_eq!(ctx.get_imported_procedure_name(11), Some(s("math::mul")));
    assert_eq!(ctx.get_imported_procedure_name(12), None);
    ctx.begin_module(&s("m"), vec![(10u64, s("other"))]).unwrap();
    assert_eq!(ctx.get_imported_procedure_name(10), Some(s("other")));
}

#[test]
fn complete_module_returns_compiled_procedures_and_callset() {
    let outside = Procedure::new(body(vec![5]), 0, CallSet::new());
    let mut ctx = AssemblyContext::for_module(false);
    ctx.begin_module(&s("m"), vec![]).unwrap();
    ctx.begin_proc(&s("a"), true, 0).unwrap();
    ctx.register_external_call(&outside, false).unwrap();
    ctx.complete_proc(body(vec![1]));
    let (procs, callset) = ctx.complete_module().unwrap();
    assert_eq!(procs.len(), 1);
    assert_eq!(procs[0].name().as_str(), "a");
    assert!(procs[0].is_export());
    assert_eq!(procs[0].mast_root(), body(vec![1]).hash());
    assert!(callset.contains(outside.mast_root()));
    assert_eq!(callset.len(), 1);
}

#[test]
fn procedure_cache_answers_by_hash() {
    let mut cache = ProcedureCache::new();
    let proc0 = Procedure::new(body(vec![1, 2]), 0, CallSet::new());
    let h = proc0.mast_root();
    cache.insert(proc0);
    assert!(cache.get_by_hash(h).is_some());
    assert!(cache.get_by_hash(h ^ 1).is_none());
}

#[test]
fn the_entry_procedure_carries_the_reserved_name() {
    let main_ctx = ProcedureContext::new(s("#main"), false, 0);
    assert!(main_ctx.is_main());
    assert_eq!(main_ctx.name().as_str(), "#main");
    let other = ProcedureContext::new(s("other"), false, 0);
    assert!(!other.is_main());
}
