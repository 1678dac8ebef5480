//! The kernel built from a trusted module.
//!
//! A kernel is an ordered list of content hashes, one per exported procedure
//! of the trusted module, fixed when the kernel module's compilation
//! completes. Its procedures become the privileged entry points of the
//! virtual machine.

use crate::errors::KernelError;
use vstd::prelude::*;

verus! {

/// The most exported procedures a kernel may hold.
pub const MAX_KERNEL_PROCEDURES: usize = 256;

/// An ordered list of content hashes of a trusted module's exported
/// procedures.
#[derive(Debug)]
pub struct Kernel {
    proc_hashes: Vec<u64>,
}

impl View for Kernel {
    type V = Seq<u64>;

    closed spec fn view(&self) -> Seq<u64> {
        self.proc_hashes@
    }
}

impl Kernel {
    /// Builds a kernel from the exported roots, in order. Rejects a list of
    /// more than `MAX_KERNEL_PROCEDURES` roots.
    pub fn new(proc_hashes: Vec<u64>) -> (r: Result<Kernel, KernelError>)
        ensures
            proc_hashes@.len() <= MAX_KERNEL_PROCEDURES ==> (r matches Ok(k) && k@
                == proc_hashes@),
            proc_hashes@.len() > MAX_KERNEL_PROCEDURES ==> r == Err::<Kernel, KernelError>(
                KernelError::TooManyProcedures { count: proc_hashes@.len() as usize },
            ),
    {
        if proc_hashes.len() > MAX_KERNEL_PROCEDURES {
            Err(KernelError::TooManyProcedures { count: proc_hashes.len() })
        } else {
            Ok(Kernel { proc_hashes })
        }
    }

    /// The content hashes of the kernel's procedures, in export order.
    pub fn proc_hashes(&self) -> (r: &Vec<u64>)
        ensures
            r@ == self@,
    {
        &self.proc_hashes
    }
}

} // verus!
