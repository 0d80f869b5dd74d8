use super::package_manager::PackageManager;
use vstd::prelude::*;

verus! {

/// What can go wrong when a backend is queried or an action is run.
#[derive(Debug, Clone, PartialEq, Eq)]
pub enum ActionError {
    /// A command ended with a failure: its program, its exit code and
    /// what it wrote to standard error.
    ExecError(String, i32, String),
    /// A command could not be started; the text says why.
    IoError(String),
    /// The package manager's program is not installed.
    NoPackageManager,
    /// The package manager does not know a package of this name.
    PackageNotFound(String, PackageManager),
}

} // verus!
