//! Validation across configuration files, and the plan: which actions
//! bring the host to the declared state, and in which order.

use crate::actions::package_manager::PackageManager;
use crate::actions::{Action, ActionView, Cause, Package};
use crate::pet_files::{Facts, PackageFacts, PetsFile};
use vstd::prelude::*;
use vstd::string::*;

verus! {

/// The exit status of a run that the check across configuration files
/// stopped before anything was planned.
pub const REFUSED: i32 = 1;

/// Two configuration files that want the same destination.
#[derive(Debug, Clone, PartialEq, Eq)]
pub struct DuplicateDefinitionError {
    /// The destination that is declared twice.
    pub dest: String,
    /// The file in which the second declaration was found.
    pub source: String,
    /// The file that declared the destination first.
    pub other: String,
}

impl DuplicateDefinitionError {
    /// The message that reports the error.
    pub open spec fn message(&self) -> Seq<char> {
        "duplicate definition for '"@ + self.dest@ + "': '"@ + self.source@ + "' and '"@
            + self.other@ + "'"@
    }

    /// The error that `source` declares `dest`, which `other` declared
    /// before.
    pub fn new(dest: String, source: String, other: String) -> (r: Self)
        ensures
            r.dest@ == dest@,
            r.source@ == source@,
            r.other@ == other@,
    {
        Self { dest, source, other }
    }

    /// Renders the error as its message.
    pub fn to_string(&self) -> (r: String)
        ensures
            r@ == self.message(),
    {
        let mut r = "duplicate definition for '".to_string();
        r.append(self.dest.as_str());
        r.append("': '");
        r.append(self.source.as_str());
        r.append("' and '");
        r.append(self.other.as_str());
        r.append("'");
        r
    }
}

/// The first file at or after `from`, and before file `j`, that wants the
/// destination of file `j`.
pub open spec fn earlier_from(files: Seq<PetsFile>, j: int, from: int) -> Option<int>
    decreases j - from,
{
    if 0 <= from < j {
        if files[from].dest.dest@ == files[j].dest.dest@ {
            Some(from)
        } else {
            earlier_from(files, j, from + 1)
        }
    } else {
        None
    }
}

/// The first collision at or after `from`: the first file whose
/// destination an earlier file wants too, with the first such earlier
/// file before it.
pub open spec fn collision_from(files: Seq<PetsFile>, from: int) -> Option<(int, int)>
    decreases files.len() - from,
{
    if 0 <= from < files.len() {
        match earlier_from(files, from, 0) {
            Some(i) => Some((i, from)),
            None => collision_from(files, from + 1),
        }
    } else {
        None
    }
}

/// Whether no two files want the same destination.
pub open spec fn destinations_unique(files: Seq<PetsFile>) -> bool {
    forall|i: int, j: int|
        0 <= i < j < files.len() ==> (#[trigger] files[i]).dest.dest@ != (
        #[trigger] files[j]).dest.dest@
}

/// Checks what must hold across all configuration files: no two of them
/// want the same destination. The error names the first file, in the
/// given order, whose destination was declared before, and the file that
/// declared it first.
pub fn check_global_constraints(files: &[PetsFile]) -> (r: Result<(), DuplicateDefinitionError>)
    ensures
        match collision_from(files@, 0) {
            None => r is Ok,
            Some((i, j)) => r matches Err(e) && e.dest@ == files@[j].dest.dest@ && e.source@
                == files@[j].source@ && e.other@ == files@[i].source@,
        },
{
    let mut j: usize = 0;
    while j < files.len()
        invariant
            j <= files.len(),
            collision_from(files@, 0) == collision_from(files@, j as int),
        decreases files.len() - j,
    {
        let mut i: usize = 0;
        while i < j
            invariant
                i <= j < files.len(),
                collision_from(files@, 0) == collision_from(files@, j as int),
                earlier_from(files@, j as int, 0) == earlier_from(files@, j as int, i as int),
            decreases j - i,
        {
            if files[i].dest.dest == files[j].dest.dest {
                return Err(
                    DuplicateDefinitionError::new(
                        files[j].destination(),
                        files[j].source(),
                        files[i].source(),
                    ),
                );
            }
            i += 1;
        }
        j += 1;
    }
    Ok(())
}

/// `earlier_from` finds an earlier file with the same destination exactly
/// when there is one.
pub proof fn lemma_earlier_from(files: Seq<PetsFile>, j: int, from: int)
    requires
        0 <= from <= j < files.len(),
    ensures
        match earlier_from(files, j, from) {
            Some(i) => from <= i < j && files[i].dest.dest@ == files[j].dest.dest@,
            None => forall|i: int|
                from <= i < j ==> (#[trigger] files[i]).dest.dest@ != files[j].dest.dest@,
        },
    decreases j - from,
{
    if from < j && files[from].dest.dest@ != files[j].dest.dest@ {
        lemma_earlier_from(files, j, from + 1);
    }
}

/// A set of files passes the check exactly when no two of them want the
/// same destination, whatever their order.
pub proof fn lemma_collision_iff_duplicate(files: Seq<PetsFile>, from: int)
    requires
        0 <= from <= files.len(),
    ensures
        collision_from(files, from) is None <==> forall|i: int, j: int|
            0 <= i < j < files.len() && from <= j ==> (#[trigger] files[i]).dest.dest@ != (
            #[trigger] files[j]).dest.dest@,
    decreases files.len() - from,
{
    if from < files.len() {
        lemma_earlier_from(files, from, 0);
        lemma_collision_iff_duplicate(files, from + 1);
        match earlier_from(files, from, 0) {
            Some(i) => {
                assert(files[i].dest.dest@ == files[from].dest.dest@);
            },
            None => {},
        }
    }
}

/// Two files that want the same destination are refused in either order,
/// and the error names both: the second as the source, the first as the
/// other.
pub proof fn lemma_duplicate_pair(a: PetsFile, b: PetsFile)
    requires
        a.dest.dest@ == b.dest.dest@,
    ensures
        collision_from(seq![a, b], 0) == Some((0int, 1int)),
        collision_from(seq![b, a], 0) == Some((0int, 1int)),
{
    let ab = seq![a, b];
    let ba = seq![b, a];
    assert(earlier_from(ab, 0, 0) is None);
    assert(earlier_from(ab, 1, 0) == Some(0int));
    assert(collision_from(ab, 1) == Some((0int, 1int)));
    assert(earlier_from(ba, 0, 0) is None);
    assert(earlier_from(ba, 1, 0) == Some(0int));
    assert(collision_from(ba, 1) == Some((0int, 1int)));
}

/// What tells two packages apart: name and package manager.
pub type PackageKey = (Seq<char>, PackageManager);

/// The keys of a list of packages.
pub open spec fn keys(packages: Seq<Package>) -> Seq<PackageKey> {
    Seq::new(packages.len(), |i: int| packages[i].key())
}

/// Whether file `i` is admitted to the plan, given what the host reported
/// about each file. A file without a report is not admitted.
pub open spec fn accepted(files: Seq<PetsFile>, facts: Seq<Facts>, i: int) -> bool {
    0 <= i < files.len() && i < facts.len() && files[i].accepts(&facts[i])
}

/// Among the first `n` packages of a file, those not known to be
/// installed, in their order. A package without an answer counts as not
/// installed.
pub open spec fn missing_of(file: &PetsFile, answers: Seq<PackageFacts>, n: int) -> Seq<
    PackageKey,
>
    decreases n,
{
    if n <= 0 || n > file.pkgs@.len() {
        Seq::empty()
    } else if n - 1 < answers.len() && file.pkgs@[n - 1].known_installed(
        &answers[n - 1].installed,
    ) {
        missing_of(file, answers, n - 1)
    } else {
        missing_of(file, answers, n - 1).push(file.pkgs@[n - 1].key())
    }
}

/// The packages of the admitted files among the first `n` that are not
/// known to be installed, in their order.
pub open spec fn missing(files: Seq<PetsFile>, facts: Seq<Facts>, n: int) -> Seq<PackageKey>
    decreases n,
{
    if n <= 0 || n > files.len() {
        Seq::empty()
    } else if accepted(files, facts, n - 1) {
        missing(files, facts, n - 1) + missing_of(
            &files[n - 1],
            facts[n - 1].packages@,
            files[n - 1].pkgs@.len() as int,
        )
    } else {
        missing(files, facts, n - 1)
    }
}

/// The keys without repetitions: of equal keys the first stays.
pub open spec fn unique(all: Seq<PackageKey>) -> Seq<PackageKey>
    decreases all.len(),
{
    if all.len() == 0 {
        Seq::empty()
    } else if unique(all.drop_last()).contains(all.last()) {
        unique(all.drop_last())
    } else {
        unique(all.drop_last()).push(all.last())
    }
}

/// The packages to install: those that admitted files need and that are
/// not known to be installed, each once, in the order in which they are
/// first asked for.
pub open spec fn pending(files: Seq<PetsFile>, facts: Seq<Facts>) -> Seq<PackageKey> {
    unique(missing(files, facts, files.len() as int))
}

/// The names of the packages of one package manager, in their order.
pub open spec fn names_for(all: Seq<PackageKey>, pm: PackageManager) -> Seq<Seq<char>>
    decreases all.len(),
{
    if all.len() == 0 {
        Seq::empty()
    } else if all.last().1 == pm {
        names_for(all.drop_last(), pm).push(all.last().0)
    } else {
        names_for(all.drop_last(), pm)
    }
}

/// The installation for one package manager: one action that installs
/// all its packages, with elevated rights where the package manager needs
/// them; none where it has no package.
pub open spec fn install_step(all: Seq<PackageKey>, pm: PackageManager) -> Seq<ActionView> {
    if names_for(all, pm).len() > 0 {
        seq![
            ActionView {
                cause: Cause::Pkg,
                command: pm.install_prefix() + names_for(all, pm),
                requires_sudo: pm.needs_sudo(),
            },
        ]
    } else {
        Seq::empty()
    }
}

/// The package managers in the order in which their installations are
/// planned.
pub open spec fn backends() -> Seq<PackageManager> {
    seq![
        PackageManager::Apt,
        PackageManager::Yum,
        PackageManager::Apk,
        PackageManager::Yay,
        PackageManager::Pacman,
        PackageManager::Cargo,
        PackageManager::Homebrew,
    ]
}

/// The installations for the first `n` package managers.
pub open spec fn batch_upto(all: Seq<PackageKey>, n: int) -> Seq<ActionView>
    decreases n,
{
    if n <= 0 || n > backends().len() {
        Seq::empty()
    } else {
        batch_upto(all, n - 1) + install_step(all, backends()[n - 1])
    }
}

/// The installations: at most one action for each package manager.
pub open spec fn batch(all: Seq<PackageKey>) -> Seq<ActionView> {
    batch_upto(all, backends().len() as int)
}

/// What file `i` adds to the plan: its actions where it is admitted,
/// nothing where it is not.
pub open spec fn contribution(files: Seq<PetsFile>, facts: Seq<Facts>, i: int) -> Seq<
    ActionView,
> {
    if accepted(files, facts, i) {
        files[i].planned(&facts[i].observed)
    } else {
        Seq::empty()
    }
}

/// What the first `n` files add to the plan, in their order.
pub open spec fn contributions(files: Seq<PetsFile>, facts: Seq<Facts>, n: int) -> Seq<
    ActionView,
>
    decreases n,
{
    if n <= 0 || n > files.len() {
        Seq::empty()
    } else {
        contributions(files, facts, n - 1) + contribution(files, facts, n - 1)
    }
}

/// The plan: the installations, then what each file adds, in the order of
/// the files.
pub open spec fn plan(files: Seq<PetsFile>, facts: Seq<Facts>) -> Seq<ActionView> {
    batch(pending(files, facts)) + contributions(files, facts, files.len() as int)
}

/// Which files are admitted to the plan.
fn admitted(files: &[PetsFile], facts: &Vec<Facts>) -> (r: Vec<bool>)
    ensures
        r@.len() == files@.len(),
        forall|i: int| 0 <= i < r@.len() ==> #[trigger] r@[i] == accepted(files@, facts@, i),
{
    let mut out: Vec<bool> = Vec::new();
    let mut i: usize = 0;
    while i < files.len()
        invariant
            i <= files.len(),
            out@.len() == i,
            forall|k: int| 0 <= k < i ==> #[trigger] out@[k] == accepted(files@, facts@, k),
        decreases files.len() - i,
    {
        let ok = i < facts.len() && files[i].is_valid(&facts[i]);
        out.push(ok);
        i += 1;
    }
    out
}

/// The packages that admitted files need and that are not known to be
/// installed, with repetitions.
fn missing_packages(files: &[PetsFile], facts: &Vec<Facts>, flags: &Vec<bool>) -> (r: Vec<Package>)
    requires
        flags@.len() == files@.len(),
        forall|i: int|
            0 <= i < flags@.len() ==> #[trigger] flags@[i] == accepted(files@, facts@, i),
    ensures
        keys(r@) == missing(files@, facts@, files@.len() as int),
{
    let mut out: Vec<Package> = Vec::new();
    let mut i: usize = 0;
    assert(keys(out@) =~= Seq::<PackageKey>::empty());
    while i < files.len()
        invariant
            i <= files.len(),
            flags@.len() == files@.len(),
            forall|k: int|
                0 <= k < flags@.len() ==> #[trigger] flags@[k] == accepted(files@, facts@, k),
            keys(out@) == missing(files@, facts@, i as int),
        decreases files.len() - i,
    {
        if flags[i] {
            let file = &files[i];
            let answers = &facts[i].packages;
            let ghost front = keys(out@);
            let mut k: usize = 0;
            assert(front + Seq::<PackageKey>::empty() =~= front);
            while k < file.pkgs.len()
                invariant
                    k <= file.pkgs.len(),
                    keys(out@) == front + missing_of(file, answers@, k as int),
                decreases file.pkgs.len() - k,
            {
                let pkg = &file.pkgs[k];
                let installed = k < answers.len() && match pkg.is_installed(&answers[k].installed) {
                    Ok(b) => b,
                    Err(_) => false,
                };
                if !installed {
                    let ghost before = keys(out@);
                    out.push(
                        Package { name: pkg.name.clone(), package_manager: pkg.package_manager },
                    );
                    assert(keys(out@) =~= before.push(pkg.key()));
                    assert(front + missing_of(file, answers@, k as int).push(pkg.key()) =~= (front
                        + missing_of(file, answers@, k as int)).push(pkg.key()));
                }
                k += 1;
            }
        }
        i += 1;
    }
    out
}

/// Whether a list of packages holds one with the key of `wanted`.
fn has_package(all: &Vec<Package>, wanted: &Package) -> (r: bool)
    ensures
        r == keys(all@).contains(wanted.key()),
{
    let mut i: usize = 0;
    while i < all.len()
        invariant
            i <= all.len(),
            forall|k: int| 0 <= k < i ==> keys(all@)[k] != wanted.key(),
        decreases all.len() - i,
    {
        if all[i].same_as(wanted) {
            assert(keys(all@)[i as int] == wanted.key());
            return true;
        }
        i += 1;
    }
    false
}

/// The packages without repetitions.
fn unique_packages(all: Vec<Package>) -> (r: Vec<Package>)
    ensures
        keys(r@) == unique(keys(all@)),
{
    let mut out: Vec<Package> = Vec::new();
    let mut i: usize = 0;
    assert(keys(all@).take(0) =~= Seq::<PackageKey>::empty());
    assert(keys(out@) =~= Seq::<PackageKey>::empty());
    while i < all.len()
        invariant
            i <= all.len(),
            keys(out@) == unique(keys(all@).take(i as int)),
        decreases all.len() - i,
    {
        assert(keys(all@).take(i + 1).drop_last() =~= keys(all@).take(i as int));
        assert(keys(all@).take(i + 1).last() == all@[i as int].key());
        if !has_package(&out, &all[i]) {
            let ghost before = keys(out@);
            let pkg = &all[i];
            out.push(Package { name: pkg.name.clone(), package_manager: pkg.package_manager });
            assert(keys(out@) =~= before.push(pkg.key()));
        }
        i += 1;
    }
    assert(keys(all@).take(all.len() as int) =~= keys(all@));
    out
}

/// The packages to install: those that admitted files need and that are
/// not known to be installed, each once, in the order in which they are
/// first asked for.
pub fn pkgs_to_install(files: &[PetsFile], facts: &Vec<Facts>) -> (r: Vec<Package>)
    ensures
        keys(r@) == pending(files@, facts@),
{
    let flags = admitted(files, facts);
    unique_packages(missing_packages(files, facts, &flags))
}

/// The installation for one package manager, where it has packages to
/// install.
fn install_action(all: &Vec<Package>, pm: PackageManager) -> (r: Option<Action>)
    ensures
        match r {
            Some(a) => install_step(keys(all@), pm) == seq![a@],
            None => install_step(keys(all@), pm) == Seq::<ActionView>::empty(),
        },
{
    let mut names: Vec<String> = Vec::new();
    let mut i: usize = 0;
    assert(keys(all@).take(0) =~= Seq::<PackageKey>::empty());
    assert(names.deep_view() =~= Seq::<Seq<char>>::empty());
    while i < all.len()
        invariant
            i <= all.len(),
            names.deep_view() == names_for(keys(all@).take(i as int), pm),
        decreases all.len() - i,
    {
        assert(keys(all@).take(i + 1).drop_last() =~= keys(all@).take(i as int));
        assert(keys(all@).take(i + 1).last() == all@[i as int].key());
        if all[i].package_manager == pm {
            let ghost before = names.deep_view();
            let name = all[i].name.clone();
            names.push(name);
            assert(names.deep_view() =~= before.push(name@));
        }
        i += 1;
    }
    assert(keys(all@).take(all.len() as int) =~= keys(all@));
    if names.len() == 0 {
        None
    } else {
        let command = pm.install_command(&names);
        if pm.requires_sudo() {
            Some(Action::with_sudo(Cause::Pkg, command))
        } else {
            Some(Action::new(Cause::Pkg, command))
        }
    }
}

/// The plan for the given configuration files, given what the host
/// reported about each of them: `facts[i]` is the report about
/// `files[i]`. A file without a report, or whose report does not admit
/// it, adds nothing, neither packages nor actions.
pub fn plan_actions(files: Vec<PetsFile>, facts: &Vec<Facts>) -> (r: Vec<Action>)
    ensures
        r.deep_view() == plan(files@, facts@),
{
    let flags = admitted(files.as_slice(), facts);
    let packages = unique_packages(missing_packages(files.as_slice(), facts, &flags));
    let mut order: Vec<PackageManager> = Vec::new();
    order.push(PackageManager::Apt);
    order.push(PackageManager::Yum);
    order.push(PackageManager::Apk);
    order.push(PackageManager::Yay);
    order.push(PackageManager::Pacman);
    order.push(PackageManager::Cargo);
    order.push(PackageManager::Homebrew);
    assert(order@ =~= backends());
    let mut out: Vec<Action> = Vec::new();
    let mut b: usize = 0;
    assert(out.deep_view() =~= Seq::<ActionView>::empty());
    while b < order.len()
        invariant
            b <= order.len(),
            order@ == backends(),
            keys(packages@) == pending(files@, facts@),
            out.deep_view() == batch_upto(keys(packages@), b as int),
        decreases order.len() - b,
    {
        let ghost before = out.deep_view();
        match install_action(&packages, order[b]) {
            Some(a) => {
                out.push(a);
                assert(out.deep_view() =~= before + seq![a@]);
            },
            None => {
                assert(out.deep_view() =~= before + Seq::<ActionView>::empty());
            },
        }
        b += 1;
    }
    let ghost installs = out.deep_view();
    let mut i: usize = 0;
    assert(out.deep_view() =~= installs + contributions(files@, facts@, 0));
    while i < files.len()
        invariant
            i <= files.len(),
            flags@.len() == files@.len(),
            forall|k: int|
                0 <= k < flags@.len() ==> #[trigger] flags@[k] == accepted(files@, facts@, k),
            out.deep_view() == installs + contributions(files@, facts@, i as int),
        decreases files.len() - i,
    {
        if flags[i] {
            let ghost before = out.deep_view();
            let mut steps = files[i].actions(&facts[i].observed);
            let ghost added = steps.deep_view();
            out.append(&mut steps);
            assert(out.deep_view() =~= before + added);
            assert(installs + (contributions(files@, facts@, i as int) + added) =~= (installs
                + contributions(files@, facts@, i as int)) + added);
        } else {
            assert(installs + (contributions(files@, facts@, i as int) + Seq::<
                ActionView,
            >::empty()) =~= installs + contributions(files@, facts@, i as int));
        }
        i += 1;
    }
    out
}

/// A set of files passes the check exactly when no two of them want the
/// same destination.
pub proof fn lemma_check_passes_iff_unique(files: Seq<PetsFile>)
    ensures
        collision_from(files, 0) is None <==> destinations_unique(files),
{
    lemma_collision_iff_duplicate(files, 0);
}

/// Removing duplicates keeps every key, and each of them once.
pub proof fn lemma_unique(all: Seq<PackageKey>)
    ensures
        unique(all).no_duplicates(),
        forall|k: PackageKey| unique(all).contains(k) <==> all.contains(k),
    decreases all.len(),
{
    if all.len() > 0 {
        let front = all.drop_last();
        let last = all.last();
        lemma_unique(front);
        assert forall|k: PackageKey| unique(all).contains(k) <==> all.contains(k) by {
            if all.contains(k) {
                let i = choose|i: int| 0 <= i < all.len() && all[i] == k;
                if i < front.len() {
                    assert(front[i] == k);
                    assert(front.contains(k));
                }
            }
            if front.contains(k) {
                let i = choose|i: int| 0 <= i < front.len() && front[i] == k;
                assert(all[i] == k);
            }
            if !unique(front).contains(last) {
                assert(unique(all) == unique(front).push(last));
                assert(unique(all).last() == last);
                if unique(front).contains(k) {
                    let i = choose|i: int| 0 <= i < unique(front).len() && unique(front)[i] == k;
                    assert(unique(all)[i] == k);
                }
                if unique(all).contains(k) {
                    let i = choose|i: int| 0 <= i < unique(all).len() && unique(all)[i] == k;
                    if i < unique(front).len() {
                        assert(unique(front)[i] == k);
                    }
                }
            }
            assert(all[all.len() - 1] == last);
        }
    }
}

/// The installation for a package manager names exactly the packages of
/// that package manager.
pub proof fn lemma_names_for(all: Seq<PackageKey>, pm: PackageManager)
    ensures
        forall|name: Seq<char>| names_for(all, pm).contains(name) <==> all.contains((name, pm)),
    decreases all.len(),
{
    if all.len() > 0 {
        let front = all.drop_last();
        let last = all.last();
        lemma_names_for(front, pm);
        assert forall|name: Seq<char>| names_for(all, pm).contains(name) <==> all.contains(
            (name, pm),
        ) by {
            let k = (name, pm);
            if all.contains(k) {
                let i = choose|i: int| 0 <= i < all.len() && all[i] == k;
                if i < front.len() {
                    assert(front[i] == k);
                    assert(front.contains(k));
                }
            }
            if front.contains(k) {
                let i = choose|i: int| 0 <= i < front.len() && front[i] == k;
                assert(all[i] == k);
            }
            assert(all[all.len() - 1] == last);
            if last.1 == pm {
                let names = names_for(front, pm);
                assert(names_for(all, pm) == names.push(last.0));
                assert(names_for(all, pm).last() == last.0);
                if names.contains(name) {
                    let i = choose|i: int| 0 <= i < names.len() && names[i] == name;
                    assert(names_for(all, pm)[i] == name);
                }
                if names_for(all, pm).contains(name) {
                    let i = choose|i: int|
                        0 <= i < names_for(all, pm).len() && names_for(all, pm)[i] == name;
                    if i < names.len() {
                        assert(names[i] == name);
                    }
                }
            }
        }
    }
}

/// Each package manager gets at most one installation, and the plan
/// begins with at most seven of them, all with the cause of a package
/// installation.
pub proof fn lemma_batch_one_per_backend(all: Seq<PackageKey>, n: int)
    requires
        0 <= n <= backends().len(),
    ensures
        batch_upto(all, n).len() <= n,
        forall|i: int|
            0 <= i < batch_upto(all, n).len() ==> (#[trigger] batch_upto(all, n)[i]).cause
                == Cause::Pkg,
    decreases n,
{
    if n > 0 {
        lemma_batch_one_per_backend(all, n - 1);
    }
}

/// Without packages to install the plan holds no installation.
pub proof fn lemma_batch_of_nothing(n: int)
    requires
        0 <= n <= backends().len(),
    ensures
        batch_upto(Seq::<PackageKey>::empty(), n) == Seq::<ActionView>::empty(),
    decreases n,
{
    if n > 0 {
        lemma_batch_of_nothing(n - 1);
        assert(names_for(Seq::<PackageKey>::empty(), backends()[n - 1]) == Seq::<
            Seq<char>,
        >::empty());
        assert(batch_upto(Seq::<PackageKey>::empty(), n) =~= Seq::<ActionView>::empty());
    }
}

/// Whether every package of a file is known to be installed.
pub open spec fn all_installed(file: &PetsFile, answers: Seq<PackageFacts>) -> bool {
    forall|k: int|
        0 <= k < file.pkgs@.len() ==> k < answers.len() && #[trigger] file.pkgs@[k].known_installed(
            &answers[k].installed,
        )
}

/// Whether the host is in the declared state as far as the admitted files
/// go: their packages are installed and their destinations converged.
pub open spec fn host_converged(files: Seq<PetsFile>, facts: Seq<Facts>) -> bool {
    forall|i: int| #[trigger]
        accepted(files, facts, i) ==> files[i].converged(&facts[i].observed) && all_installed(
            &files[i],
            facts[i].packages@,
        )
}

/// A file whose packages are all installed asks for none.
proof fn lemma_nothing_missing(file: &PetsFile, answers: Seq<PackageFacts>, n: int)
    requires
        all_installed(file, answers),
        0 <= n <= file.pkgs@.len(),
    ensures
        missing_of(file, answers, n) == Seq::<PackageKey>::empty(),
    decreases n,
{
    if n > 0 {
        lemma_nothing_missing(file, answers, n - 1);
        assert(file.pkgs@[n - 1].known_installed(&answers[n - 1].installed));
    }
}

/// On a converged host the first `n` files ask for no package and add no
/// action.
proof fn lemma_converged_prefix(files: Seq<PetsFile>, facts: Seq<Facts>, n: int)
    requires
        host_converged(files, facts),
        0 <= n <= files.len(),
    ensures
        missing(files, facts, n) == Seq::<PackageKey>::empty(),
        contributions(files, facts, n) == Seq::<ActionView>::empty(),
    decreases n,
{
    if n > 0 {
        lemma_converged_prefix(files, facts, n - 1);
        if accepted(files, facts, n - 1) {
            lemma_nothing_missing(
                &files[n - 1],
                facts[n - 1].packages@,
                files[n - 1].pkgs@.len() as int,
            );
            crate::pet_files::lemma_converged_needs_nothing(&files[n - 1], &facts[n - 1].observed);
        }
        assert(missing(files, facts, n) =~= Seq::<PackageKey>::empty());
        assert(contributions(files, facts, n) =~= Seq::<ActionView>::empty());
    }
}

/// Planning is idempotent: on a host that is in the declared state, the
/// plan is empty.
pub proof fn lemma_converged_plan_is_empty(files: Seq<PetsFile>, facts: Seq<Facts>)
    requires
        host_converged(files, facts),
    ensures
        plan(files, facts) == Seq::<ActionView>::empty(),
{
    lemma_converged_prefix(files, facts, files.len() as int);
    lemma_batch_of_nothing(backends().len() as int);
    assert(plan(files, facts) =~= Seq::<ActionView>::empty());
}

/// A file that needs a package which its package manager does not know
/// is not admitted.
pub proof fn lemma_unknown_package_rejects(file: &PetsFile, facts: &Facts, k: int)
    requires
        0 <= k < file.pkgs@.len(),
        !file.package_valid(facts.packages@, k),
    ensures
        !file.accepts(facts),
{
}

/// The index in `files` of the file that stands at `k` once file `i` is
/// taken out.
pub open spec fn shifted(i: int, k: int) -> int {
    if k < i {
        k
    } else {
        k + 1
    }
}

/// A file that is not admitted leaves the first `n` files of the rest to
/// ask for the packages and to add the actions that they do with it.
proof fn lemma_left_out_prefix(files: Seq<PetsFile>, facts: Seq<Facts>, i: int, n: int)
    requires
        0 <= i < files.len(),
        i < facts.len(),
        !accepted(files, facts, i),
        0 <= n < files.len(),
    ensures
        missing(files.remove(i), facts.remove(i), n) == missing(
            files,
            facts,
            if n <= i {
                n
            } else {
                n + 1
            },
        ),
        contributions(files.remove(i), facts.remove(i), n) == contributions(
            files,
            facts,
            if n <= i {
                n
            } else {
                n + 1
            },
        ),
    decreases n,
{
    let less = files.remove(i);
    let told = facts.remove(i);
    if n > 0 {
        lemma_left_out_prefix(files, facts, i, n - 1);
        let k = n - 1;
        let at = shifted(i, k);
        assert(less[k] == files[at]);
        if k < told.len() {
            assert(told[k] == facts[at]);
        }
        assert(accepted(less, told, k) == accepted(files, facts, at));
        assert(contribution(less, told, k) == contribution(files, facts, at));
        if k == i {
            // the file taken out stands between the two prefixes
            assert(missing(files, facts, i + 1) == missing(files, facts, i));
            assert(contributions(files, facts, i + 1) =~= contributions(files, facts, i));
        }
    }
}

/// A file that is not admitted is left out of the plan altogether: the
/// plan is the one that the other files would get without it. Whatever
/// state its destination is in, it adds no action, and its packages are
/// not installed on its account.
pub proof fn lemma_rejected_file_is_left_out(files: Seq<PetsFile>, facts: Seq<Facts>, i: int)
    requires
        0 <= i < files.len(),
        i < facts.len(),
        !files[i].accepts(&facts[i]),
    ensures
        contribution(files, facts, i) == Seq::<ActionView>::empty(),
        plan(files, facts) == plan(files.remove(i), facts.remove(i)),
{
    lemma_left_out_prefix(files, facts, i, files.len() - 1);
    if i == files.len() - 1 {
        assert(missing(files, facts, i + 1) == missing(files, facts, i));
        assert(contributions(files, facts, i + 1) =~= contributions(files, facts, i));
    }
}

/// Whether every action has a program to run.
pub open spec fn runnable(steps: Seq<ActionView>) -> bool {
    crate::pet_files::every(steps, |a: ActionView| a.command.len() > 0)
}

/// Runnable actions followed by runnable actions are runnable.
proof fn lemma_runnable_join(front: Seq<ActionView>, back: Seq<ActionView>)
    requires
        runnable(front),
        runnable(back),
    ensures
        runnable(front + back),
{
    crate::pet_files::lemma_every_join(front, back, |a: ActionView| a.command.len() > 0);
}

/// Every installation has a program to run.
proof fn lemma_batch_runnable(all: Seq<PackageKey>, n: int)
    requires
        0 <= n <= backends().len(),
    ensures
        runnable(batch_upto(all, n)),
    decreases n,
{
    if n > 0 {
        lemma_batch_runnable(all, n - 1);
        let pm = backends()[n - 1];
        assert(pm.install_prefix().len() >= 2);
        assert(runnable(install_step(all, pm)));
        lemma_runnable_join(batch_upto(all, n - 1), install_step(all, pm));
    }
}

/// Every action that well-formed files add has a program to run.
proof fn lemma_contributions_runnable(files: Seq<PetsFile>, facts: Seq<Facts>, n: int)
    requires
        forall|i: int| 0 <= i < files.len() ==> (#[trigger] files[i]).well_formed(),
        0 <= n <= files.len(),
    ensures
        runnable(contributions(files, facts, n)),
    decreases n,
{
    if n > 0 {
        lemma_contributions_runnable(files, facts, n - 1);
        if accepted(files, facts, n - 1) {
            crate::pet_files::lemma_planned_runnable(&files[n - 1], &facts[n - 1].observed);
        }
        lemma_runnable_join(contributions(files, facts, n - 1), contribution(files, facts, n - 1));
    }
}

/// Every action in the plan for well-formed files has a program to run,
/// so each of them can be performed.
pub proof fn lemma_plan_runnable(files: Seq<PetsFile>, facts: Seq<Facts>)
    requires
        forall|i: int| 0 <= i < files.len() ==> (#[trigger] files[i]).well_formed(),
    ensures
        runnable(plan(files, facts)),
{
    lemma_batch_runnable(pending(files, facts), backends().len() as int);
    lemma_contributions_runnable(files, facts, files.len() as int);
    lemma_runnable_join(
        batch(pending(files, facts)),
        contributions(files, facts, files.len() as int),
    );
}

/// Whether none of the actions installs packages.
pub open spec fn installs_nothing(steps: Seq<ActionView>) -> bool {
    forall|i: int| 0 <= i < steps.len() ==> (#[trigger] steps[i]).cause != Cause::Pkg
}

/// Actions that install nothing, followed by more of them, install
/// nothing.
proof fn lemma_installs_nothing_join(front: Seq<ActionView>, back: Seq<ActionView>)
    requires
        installs_nothing(front),
        installs_nothing(back),
    ensures
        installs_nothing(front + back),
{
    let all = front + back;
    assert forall|i: int| 0 <= i < all.len() implies (#[trigger] all[i]).cause != Cause::Pkg by {
        if i < front.len() {
            assert(all[i] == front[i]);
        } else {
            assert(all[i] == back[i - front.len()]);
        }
    }
}

/// The actions of a file install nothing.
proof fn lemma_planned_installs_nothing(file: &PetsFile, observed: &crate::pet_files::Observed)
    ensures
        installs_nothing(file.planned(observed)),
{
    crate::pet_files::lemma_planned_in_order(file, observed);
    let steps = file.planned(observed);
    assert forall|i: int| 0 <= i < steps.len() implies (#[trigger] steps[i]).cause
        != Cause::Pkg by {
        assert(crate::pet_files::rank(steps[i].cause) <= 4);
    }
}

/// What the files add to the plan holds no installation.
proof fn lemma_contributions_install_nothing(files: Seq<PetsFile>, facts: Seq<Facts>, n: int)
    requires
        0 <= n <= files.len(),
    ensures
        installs_nothing(contributions(files, facts, n)),
    decreases n,
{
    if n > 0 {
        lemma_contributions_install_nothing(files, facts, n - 1);
        if accepted(files, facts, n - 1) {
            lemma_planned_installs_nothing(&files[n - 1], &facts[n - 1].observed);
        }
        lemma_installs_nothing_join(
            contributions(files, facts, n - 1),
            contribution(files, facts, n - 1),
        );
    }
}

/// The plan begins with its installations: up to some place every action
/// installs packages, and from there on none does.
pub proof fn lemma_installs_come_first(files: Seq<PetsFile>, facts: Seq<Facts>)
    ensures
        forall|i: int|
            0 <= i < plan(files, facts).len() ==> ((#[trigger] plan(files, facts)[i]).cause
                == Cause::Pkg <==> i < batch(pending(files, facts)).len()),
        batch(pending(files, facts)).len() <= backends().len(),
{
    let installs = batch(pending(files, facts));
    let rest = contributions(files, facts, files.len() as int);
    lemma_batch_one_per_backend(pending(files, facts), backends().len() as int);
    lemma_contributions_install_nothing(files, facts, files.len() as int);
    let all = plan(files, facts);
    assert forall|i: int| 0 <= i < all.len() implies ((#[trigger] all[i]).cause == Cause::Pkg
        <==> i < installs.len()) by {
        if i < installs.len() {
            assert(all[i] == installs[i]);
        } else {
            assert(all[i] == rest[i - installs.len()]);
        }
    }
}

} // verus!
