//! Libraries of pre-assembled modules.
//!
//! A library resolves module paths to modules for the surrounding compiler.
//! Only its interface is of concern here: the context consumes a resolved
//! module's declared imports through `begin_module`.

use vstd::prelude::*;

verus! {

/// An error raised when a library cannot serve a requested module.
#[derive(Debug, PartialEq, Eq)]
pub enum LibraryError {
    /// No module of the library carries the requested path.
    ModuleNotFound { path: String },
}

/// A named, versioned collection of modules, looked up by path.
pub trait Library {
    /// The module format the library stores.
    type Module;

    /// Returns the root namespace of this library.
    fn root_ns(&self) -> &str;

    /// Returns the version number of this library.
    fn version(&self) -> &str;

    /// Returns the module located at the specified path, or an error when no
    /// module of the library carries that path.
    fn get_module(&self, path: &str) -> Result<&Self::Module, LibraryError>;
}

} // verus!
