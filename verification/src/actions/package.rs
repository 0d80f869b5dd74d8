use super::errors::ActionError;
use super::outcome::Outcome;
use super::package_manager::PackageManager;
use crate::text::{
    chars_of, holds, lines, lines_of, matches_at, same, split_once, split_once_at, starts_with,
    string_of, strings_of, trim, trimmed,
};
use vstd::prelude::*;

verus! {

/// A package of some package manager.
#[derive(Debug, PartialEq, Clone, Hash, Eq)]
pub struct Package {
    pub name: String,
    pub package_manager: PackageManager,
}

/// The value of the first line of the form `key: value`, looking from
/// line `from` on. Each line is taken without the white space around it.
/// With `loose`, white space at the end of the key is passed over too.
pub open spec fn field_from(
    lines: Seq<Seq<char>>,
    key: Seq<char>,
    loose: bool,
    from: int,
) -> Option<Seq<char>>
    decreases lines.len() - from,
{
    if 0 <= from < lines.len() {
        match split_once(trim(lines[from]), ": "@) {
            Some((k, v)) => if (if loose {
                trim(k)
            } else {
                k
            }) == key {
                Some(v)
            } else {
                field_from(lines, key, loose, from + 1)
            },
            None => field_from(lines, key, loose, from + 1),
        }
    } else {
        None
    }
}

/// The value of the first line of the form `key: value`.
pub fn field_of(lines: &Vec<Vec<char>>, key: &str, loose: bool) -> (r: Option<Vec<char>>)
    ensures
        match r {
            Some(v) => field_from(lines.deep_view(), key@, loose, 0) == Some(v@),
            None => field_from(lines.deep_view(), key@, loose, 0) is None,
        },
{
    let wanted = chars_of(key);
    let colon = chars_of(": ");
    let mut i: usize = 0;
    while i < lines.len()
        invariant
            i <= lines.len(),
            wanted@ == key@,
            colon@ == ": "@,
            field_from(lines.deep_view(), key@, loose, 0) == field_from(
                lines.deep_view(),
                key@,
                loose,
                i as int,
            ),
        decreases lines.len() - i,
    {
        assert(lines[i as int].deep_view() =~= lines[i as int]@);
        let line = trimmed(&lines[i]);
        match split_once_at(&line, &colon) {
            Some((k, v)) => {
                let found = if loose {
                    same(&trimmed(&k), &wanted)
                } else {
                    same(&k, &wanted)
                };
                if found {
                    return Some(v);
                }
            },
            None => {},
        }
        i += 1;
    }
    None
}

/// The package that a line of `cargo install --list` announces: its name
/// stands before ` v` on a line that is not indented.
pub open spec fn cargo_header(line: Seq<char>) -> Option<Seq<char>> {
    if line.len() > 0 && (line[0] == '\t' || line[0] == ' ') {
        None
    } else {
        match split_once(line, " v"@) {
            Some((name, _)) => Some(name),
            None => None,
        }
    }
}

/// The packages that the lines of `cargo install --list` announce, in
/// their order.
pub open spec fn cargo_names(lines: Seq<Seq<char>>) -> Seq<Seq<char>>
    decreases lines.len(),
{
    if lines.len() == 0 {
        Seq::empty()
    } else {
        match cargo_header(lines.last()) {
            Some(name) => cargo_names(lines.drop_last()).push(name),
            None => cargo_names(lines.drop_last()),
        }
    }
}

/// The packages announced in the text.
fn cargo_installed(text: &Vec<char>) -> (r: Vec<Vec<char>>)
    ensures
        r.deep_view() == cargo_names(lines(text@)),
{
    let all = lines_of(text);
    let mark = chars_of(" v");
    let mut out: Vec<Vec<char>> = Vec::new();
    let mut i: usize = 0;
    assert(all.deep_view().take(0) =~= Seq::<Seq<char>>::empty());
    assert(out.deep_view() =~= Seq::<Seq<char>>::empty());
    while i < all.len()
        invariant
            i <= all.len(),
            mark@ == " v"@,
            all.deep_view() == lines(text@),
            out.deep_view() == cargo_names(all.deep_view().take(i as int)),
        decreases all.len() - i,
    {
        let line = &all[i];
        assert(line.deep_view() =~= line@);
        assert(all.deep_view().take(i + 1).drop_last() =~= all.deep_view().take(i as int));
        assert(all.deep_view().take(i + 1).last() == line@);
        let indented = line.len() > 0 && (line[0] == '\t' || line[0] == ' ');
        if !indented {
            match split_once_at(line, &mark) {
                Some((name, _)) => {
                    let ghost before = out.deep_view();
                    out.push(name);
                    assert(name.deep_view() =~= name@);
                    assert(out.deep_view() =~= before.push(name@));
                },
                None => {},
            }
        }
        i += 1;
    }
    assert(all.deep_view().take(all.len() as int) =~= all.deep_view());
    out
}

/// The names of the packages that `cargo install --list` reports.
pub fn parse_cargo_installed(output: &str) -> (r: Vec<String>)
    ensures
        r.deep_view() == cargo_names(lines(output@)),
{
    let text = chars_of(output);
    strings_of(&cargo_installed(&text))
}

impl Package {
    /// The package manager that a tag before the colon selects.
    pub open spec fn tagged(tag: Seq<char>) -> Option<PackageManager> {
        if tag == "apt"@ {
            Some(PackageManager::Apt)
        } else if tag == "yum"@ {
            Some(PackageManager::Yum)
        } else if tag == "apk"@ {
            Some(PackageManager::Apk)
        } else if tag == "yay"@ {
            Some(PackageManager::Yay)
        } else if tag == "pacman"@ {
            Some(PackageManager::Pacman)
        } else if tag == "cargo"@ {
            Some(PackageManager::Cargo)
        } else {
            None
        }
    }

    /// Name and package manager of a package written as `name` or as
    /// `tag:name`. The text after the first colon is the name; a tag that
    /// selects no package manager leaves the default.
    pub open spec fn resolved(text: Seq<char>, default: PackageManager) -> (
        Seq<char>,
        PackageManager,
    ) {
        match split_once(text, seq![':']) {
            Some((tag, name)) => (
                name,
                match Self::tagged(tag) {
                    Some(pm) => pm,
                    None => default,
                },
            ),
            None => (text, default),
        }
    }

    /// The package that `name` declares, with `default_package_manager`
    /// where it is not tagged.
    pub fn new(name: String, default_package_manager: &PackageManager) -> (r: Self)
        ensures
            (r.name@, r.package_manager) == Self::resolved(name@, *default_package_manager),
    {
        let cs = chars_of(name.as_str());
        let mut colon: Vec<char> = Vec::new();
        colon.push(':');
        assert(colon@ =~= seq![':']);
        match split_once_at(&cs, &colon) {
            Some((tag, rest)) => {
                let package_manager = if same(&tag, &chars_of("apt")) {
                    PackageManager::Apt
                } else if same(&tag, &chars_of("yum")) {
                    PackageManager::Yum
                } else if same(&tag, &chars_of("apk")) {
                    PackageManager::Apk
                } else if same(&tag, &chars_of("yay")) {
                    PackageManager::Yay
                } else if same(&tag, &chars_of("pacman")) {
                    PackageManager::Pacman
                } else if same(&tag, &chars_of("cargo")) {
                    PackageManager::Cargo
                } else {
                    *default_package_manager
                };
                Package { name: string_of(&rest), package_manager }
            },
            None => Package { name, package_manager: *default_package_manager },
        }
    }

    /// Renders the package as its name.
    pub fn to_string(&self) -> (r: String)
        ensures
            r@ == self.name@,
    {
        self.name.clone()
    }

    /// The read-only query that tells whether the package manager knows
    /// the package. None is defined for Homebrew.
    pub open spec fn info_query(&self) -> Option<Seq<Seq<char>>> {
        match self.package_manager {
            PackageManager::Apt => Some(seq!["apt-cache"@, "policy"@, self.name@]),
            PackageManager::Yum => Some(seq!["yum"@, "info"@, self.name@]),
            PackageManager::Apk => Some(seq!["apk"@, "search"@, "-e"@, self.name@]),
            PackageManager::Pacman => Some(seq!["pacman"@, "-Si"@, self.name@]),
            PackageManager::Yay => Some(seq!["yay"@, "-Si"@, self.name@]),
            PackageManager::Cargo => Some(seq!["cargo"@, "search"@, "--limit=1"@, self.name@]),
            PackageManager::Homebrew => None,
        }
    }

    /// The command of the availability query, where there is one.
    pub fn info_command(&self) -> (r: Option<Vec<String>>)
        ensures
            match r {
                Some(c) => self.info_query() == Some(c.deep_view()),
                None => self.info_query() is None,
            },
    {
        let mut out: Vec<String> = Vec::new();
        match self.package_manager {
            PackageManager::Apt => {
                out.push("apt-cache".to_string());
                out.push("policy".to_string());
            },
            PackageManager::Yum => {
                out.push("yum".to_string());
                out.push("info".to_string());
            },
            PackageManager::Apk => {
                out.push("apk".to_string());
                out.push("search".to_string());
                out.push("-e".to_string());
            },
            PackageManager::Pacman => {
                out.push("pacman".to_string());
                out.push("-Si".to_string());
            },
            PackageManager::Yay => {
                out.push("yay".to_string());
                out.push("-Si".to_string());
            },
            PackageManager::Cargo => {
                out.push("cargo".to_string());
                out.push("search".to_string());
                out.push("--limit=1".to_string());
            },
            PackageManager::Homebrew => {
                return None;
            },
        }
        out.push(self.name.clone());
        assert(out.deep_view() =~= self.info_query()->0);
        Some(out)
    }

    /// What the availability query told: its standard output where it
    /// ended with success, else nothing.
    pub open spec fn info(outcome: &Outcome) -> Seq<char> {
        if outcome.success() {
            outcome.output()
        } else {
            Seq::empty()
        }
    }

    /// What the availability query told. A query that could not be
    /// started means that the package manager is missing.
    pub fn get_pkg_info(&self, outcome: &Outcome) -> (r: Result<String, ActionError>)
        ensures
            outcome.spawned() ==> (r matches Ok(t) && t@ == Self::info(outcome)),
            !outcome.spawned() ==> (r matches Err(ActionError::NoPackageManager)),
    {
        if !outcome.was_spawned() {
            return Err(ActionError::NoPackageManager);
        }
        if outcome.succeeded() {
            Ok(outcome.stdout_text())
        } else {
            Ok(String::new())
        }
    }

    /// Whether the answer of the availability query shows the package:
    /// - Apt, Apk: it begins with the package's name;
    /// - Yum: its first `Name: value` line gives the package's name;
    /// - Pacman, Yay: it does not begin with `error:`;
    /// - Cargo: it is not empty and the package's name stands before its
    ///   first ` =`;
    /// - Homebrew: never.
    pub open spec fn available(&self, info: Seq<char>) -> bool {
        match self.package_manager {
            PackageManager::Apt | PackageManager::Apk => starts_with(info, self.name@),
            PackageManager::Yum => field_from(lines(info), "Name"@, true, 0) == Some(self.name@),
            PackageManager::Pacman | PackageManager::Yay => !starts_with(info, "error:"@),
            PackageManager::Cargo => info.len() > 0 && match split_once(info, " ="@) {
                Some((name, _)) => name == self.name@,
                None => false,
            },
            PackageManager::Homebrew => false,
        }
    }

    /// Whether the answer of the availability query shows the package.
    fn is_available(&self, info: &Vec<char>) -> (r: bool)
        ensures
            r == self.available(info@),
    {
        let name = chars_of(self.name.as_str());
        match self.package_manager {
            PackageManager::Apt | PackageManager::Apk => matches_at(info, &name, 0),
            PackageManager::Yum => {
                let all = lines_of(info);
                match field_of(&all, "Name", true) {
                    Some(v) => same(&v, &name),
                    None => false,
                }
            },
            PackageManager::Pacman | PackageManager::Yay => !matches_at(
                info,
                &chars_of("error:"),
                0,
            ),
            PackageManager::Cargo => {
                if info.len() == 0 {
                    false
                } else {
                    match split_once_at(info, &chars_of(" =")) {
                        Some((found, _)) => same(&found, &name),
                        None => false,
                    }
                }
            },
            PackageManager::Homebrew => false,
        }
    }

    /// Whether the package manager knows the package, given the outcome
    /// of the availability query.
    pub open spec fn valid_with(&self, outcome: &Outcome) -> bool {
        outcome.spawned() && self.available(Self::info(outcome))
    }

    /// Checks that the package manager knows the package, given the
    /// outcome of the availability query. For Homebrew, which has no such
    /// query, the outcome is not looked at and the package counts as not
    /// found. Otherwise a query that could not be started means that the
    /// package manager is missing, and an answer that does not show the
    /// package means that the package was not found.
    pub fn validate(&self, outcome: &Outcome) -> (r: Result<(), ActionError>)
        ensures
            r is Ok <==> self.valid_with(outcome),
            r matches Err(e) ==> (if !(self.package_manager is Homebrew) && !outcome.spawned() {
                e is NoPackageManager
            } else {
                e matches ActionError::PackageNotFound(n, pm) && n@ == self.name@ && pm
                    == self.package_manager
            }),
    {
        match self.package_manager {
            PackageManager::Homebrew => Err(
                ActionError::PackageNotFound(self.name.clone(), self.package_manager),
            ),
            _ => match self.get_pkg_info(outcome) {
                Err(e) => Err(e),
                Ok(info) => {
                    if self.is_available(&chars_of(info.as_str())) {
                        Ok(())
                    } else {
                        Err(ActionError::PackageNotFound(self.name.clone(), self.package_manager))
                    }
                },
            },
        }
    }

    /// Whether the package manager knows the package, given the outcome
    /// of the availability query.
    pub fn is_valid(&self, outcome: &Outcome) -> (r: bool)
        ensures
            r == self.valid_with(outcome),
    {
        self.validate(outcome).is_ok()
    }

    /// The local query that tells whether the package is installed. None
    /// is defined for Homebrew.
    pub open spec fn installed_query(&self) -> Option<Seq<Seq<char>>> {
        match self.package_manager {
            PackageManager::Apt => Some(seq!["apt-cache"@, "policy"@, self.name@]),
            PackageManager::Yum => Some(seq!["rpm"@, "-qa"@, self.name@]),
            PackageManager::Apk => Some(seq!["apk"@, "info"@, "-e"@, self.name@]),
            PackageManager::Pacman => Some(seq!["pacman"@, "-Q"@, self.name@]),
            PackageManager::Yay => Some(seq!["yay"@, "-Q"@, self.name@]),
            PackageManager::Cargo => Some(seq!["cargo"@, "install"@, "--list"@]),
            PackageManager::Homebrew => None,
        }
    }

    /// The command of the installed query, where there is one.
    pub fn installed_command(&self) -> (r: Option<Vec<String>>)
        ensures
            match r {
                Some(c) => self.installed_query() == Some(c.deep_view()),
                None => self.installed_query() is None,
            },
    {
        let mut out: Vec<String> = Vec::new();
        match self.package_manager {
            PackageManager::Apt => {
                out.push("apt-cache".to_string());
                out.push("policy".to_string());
                out.push(self.name.clone());
            },
            PackageManager::Yum => {
                out.push("rpm".to_string());
                out.push("-qa".to_string());
                out.push(self.name.clone());
            },
            PackageManager::Apk => {
                out.push("apk".to_string());
                out.push("info".to_string());
                out.push("-e".to_string());
                out.push(self.name.clone());
            },
            PackageManager::Pacman => {
                out.push("pacman".to_string());
                out.push("-Q".to_string());
                out.push(self.name.clone());
            },
            PackageManager::Yay => {
                out.push("yay".to_string());
                out.push("-Q".to_string());
                out.push(self.name.clone());
            },
            PackageManager::Cargo => {
                out.push("cargo".to_string());
                out.push("install".to_string());
                out.push("--list".to_string());
            },
            PackageManager::Homebrew => {
                return None;
            },
        }
        assert(out.deep_view() =~= self.installed_query()->0);
        Some(out)
    }

    /// Whether the outcome of the installed query shows the package as
    /// installed:
    /// - Apt: the query ended with success and the first `Installed: value`
    ///   line of its output has a value other than `(none)`;
    /// - Yum, Pacman, Yay: the query ended with success;
    /// - Apk: the output, without the white space around it, is the
    ///   package's name;
    /// - Cargo: the output announces the package;
    /// - Homebrew: never.
    pub open spec fn installed_with(&self, outcome: &Outcome) -> bool {
        match self.package_manager {
            PackageManager::Apt => match field_from(
                lines(Self::info(outcome)),
                "Installed"@,
                false,
                0,
            ) {
                Some(version) => version != "(none)"@,
                None => false,
            },
            PackageManager::Yum | PackageManager::Pacman | PackageManager::Yay => outcome.success(),
            PackageManager::Apk => trim(outcome.output()) == self.name@,
            PackageManager::Cargo => cargo_names(lines(outcome.output())).contains(self.name@),
            PackageManager::Homebrew => false,
        }
    }

    /// Whether the package is known to be installed, given the outcome of
    /// the installed query: the query, where there is one, was started
    /// and shows it.
    pub open spec fn known_installed(&self, outcome: &Outcome) -> bool {
        (self.package_manager is Homebrew || outcome.spawned()) && self.installed_with(outcome)
    }

    /// What tells two packages apart: name and package manager.
    pub open spec fn key(&self) -> (Seq<char>, PackageManager) {
        (self.name@, self.package_manager)
    }

    /// Whether two packages are the same: in name and package manager.
    pub fn same_as(&self, other: &Package) -> (r: bool)
        ensures
            r == (self.key() == other.key()),
    {
        self.package_manager == other.package_manager && self.name == other.name
    }

    /// Tells whether the package is installed, given the outcome of the
    /// installed query. For Homebrew, which has no such query, the outcome
    /// is not looked at and the package counts as not installed. Otherwise
    /// a query that could not be started means that the package manager is
    /// missing.
    pub fn is_installed(&self, outcome: &Outcome) -> (r: Result<bool, ActionError>)
        ensures
            r == Ok::<bool, ActionError>(true) <==> self.known_installed(outcome),
            match r {
                Ok(b) => b == self.installed_with(outcome) && (self.package_manager is Homebrew
                    || outcome.spawned()),
                Err(e) => e is NoPackageManager && !(self.package_manager is Homebrew)
                    && !outcome.spawned(),
            },
    {
        match self.package_manager {
            PackageManager::Homebrew => Ok(false),
            _ => {
                if !outcome.was_spawned() {
                    return Err(ActionError::NoPackageManager);
                }
                let name = chars_of(self.name.as_str());
                match self.package_manager {
                    PackageManager::Apt => {
                        let info = if outcome.succeeded() {
                            outcome.stdout_text()
                        } else {
                            String::new()
                        };
                        let all = lines_of(&chars_of(info.as_str()));
                        match field_of(&all, "Installed", false) {
                            Some(version) => Ok(!same(&version, &chars_of("(none)"))),
                            None => Ok(false),
                        }
                    },
                    PackageManager::Apk => {
                        let text = outcome.stdout_text();
                        Ok(same(&trimmed(&chars_of(text.as_str())), &name))
                    },
                    PackageManager::Cargo => {
                        let text = outcome.stdout_text();
                        Ok(holds(&cargo_installed(&chars_of(text.as_str())), &name))
                    },
                    _ => Ok(outcome.succeeded()),
                }
            },
        }
    }
}

} // verus!
