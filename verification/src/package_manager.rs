//! Packages as a configuration names them before their package manager is
//! settled.

use crate::actions::package_manager::PackageManager;
use crate::actions::{ActionError, Outcome, Package};
use vstd::prelude::*;

verus! {

/// A package that may name its package manager. One that names none is
/// a package of the host's default package manager.
#[derive(Debug, PartialEq, Clone, Hash, Eq)]
pub struct PetsPackage {
    pub name: String,
    pub package_manager: Option<PackageManager>,
}

impl PetsPackage {
    /// The package manager of the package on a host whose default is
    /// `default`.
    pub open spec fn manager(&self, default: PackageManager) -> PackageManager {
        match self.package_manager {
            Some(pm) => pm,
            None => default,
        }
    }

    /// Whether `package` is this package on a host whose default package
    /// manager is `default`: it has its name, and its package manager or
    /// else the default.
    pub open spec fn settles_as(&self, default: PackageManager, package: &Package) -> bool {
        package.name@ == self.name@ && package.package_manager == self.manager(default)
    }

    /// Whether the package manager knows the package, given the outcome
    /// of the availability query.
    pub open spec fn valid_with(&self, default: PackageManager, outcome: &Outcome) -> bool {
        (Package { name: self.name, package_manager: self.manager(default) }).valid_with(outcome)
    }

    /// Whether the package is known to be installed, given the outcome of
    /// the installed query.
    pub open spec fn known_installed(&self, default: PackageManager, outcome: &Outcome) -> bool {
        (Package { name: self.name, package_manager: self.manager(default) }).known_installed(
            outcome,
        )
    }

    /// A package of this name that names no package manager.
    pub fn new(name: String) -> (r: Self)
        ensures
            r.name@ == name@,
            r.package_manager is None,
    {
        Self { name, package_manager: None }
    }

    /// Renders the package as its name.
    pub fn to_string(&self) -> (r: String)
        ensures
            r@ == self.name@,
    {
        self.name.clone()
    }

    /// The package manager of the package on a host whose default is
    /// `default`.
    pub fn get_pkg_manager(&self, default: &PackageManager) -> (r: PackageManager)
        ensures
            r == self.manager(*default),
    {
        match &self.package_manager {
            Some(pm) => *pm,
            None => *default,
        }
    }

    /// The package with its package manager settled.
    pub fn package(&self, default: &PackageManager) -> (r: Package)
        ensures
            self.settles_as(*default, &r),
    {
        Package { name: self.name.clone(), package_manager: self.get_pkg_manager(default) }
    }

    /// Whether the package manager knows the package, given the outcome
    /// of the availability query of the settled package.
    pub fn is_valid(&self, default: &PackageManager, outcome: &Outcome) -> (r: bool)
        ensures
            r == self.valid_with(*default, outcome),
    {
        self.package(default).is_valid(outcome)
    }

    /// Tells whether the package is installed, given the outcome of the
    /// installed query of the settled package. A query that could not be
    /// started means that the package manager is missing.
    pub fn is_installed(&self, default: &PackageManager, outcome: &Outcome) -> (r: Result<
        bool,
        ActionError,
    >)
        ensures
            r == Ok::<bool, ActionError>(true) <==> self.known_installed(*default, outcome),
            r is Err <==> !(self.manager(*default) is Homebrew) && !outcome.spawned(),
            r matches Err(e) ==> e is NoPackageManager,
    {
        self.package(default).is_installed(outcome)
    }
}

} // verus!
