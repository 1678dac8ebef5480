//! Errors of the compilation context.
//!
//! Every error is terminal to the in-progress unit: it is returned to the
//! immediate caller of the violating operation, never retried internally, and
//! the driver must abandon compiling that unit.

use vstd::prelude::*;

verus! {

/// Why the kernel-building step rejected the set of exported roots.
#[derive(Debug, PartialEq, Eq)]
pub enum KernelError {
    /// A kernel may export at most `MAX_KERNEL_PROCEDURES` procedures.
    TooManyProcedures { count: usize },
}

/// An error raised while bracketing module or procedure compilation,
/// registering calls, or finalizing the compilation.
#[derive(Debug, PartialEq, Eq)]
pub enum AssemblyError {
    /// A module path reappeared while still on the module stack. The chain
    /// holds every path on the stack, in order, plus the repeated path.
    CircularModuleDependency { chain: Vec<String> },
    /// A procedure name collided with one already compiled, or in the course
    /// of compilation, within the same module.
    DuplicateProcedureName { name: String, module: String },
    /// A local-call index was out of range of the module's compiled list.
    ProcedureNotFound { index: u16, module: String },
    /// A hash in the program's transitive call set could be resolved neither
    /// from the procedure cache nor from the entry module's local list.
    MissingCallsetProcedure { mast_root: u64 },
    /// A non-inlined call was attempted inside a trusted (kernel) module.
    CallInKernelNotAllowed { procedure_name: String },
    /// A phantom call was attempted without the capability enabled.
    PhantomCallsNotAllowed { mast_root: u64 },
    /// The kernel-building step rejected the set of exported roots.
    KernelConstructionFailed { cause: KernelError },
}

} // verus!
