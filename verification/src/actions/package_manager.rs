use crate::pet_files::ParseError;
use crate::text::{chars_of, extend_with, same};
use vstd::prelude::*;

verus! {

/// A package manager this crate can drive.
#[derive(Clone, Copy, Debug, PartialEq, Hash, Eq, Structural)]
pub enum PackageManager {
    Apt,
    Yum,
    Apk,
    Yay,
    Pacman,
    Cargo,
    Homebrew,
}

impl PackageManager {
    /// The name a package manager is written and reported under.
    pub open spec fn name(self) -> Seq<char> {
        match self {
            PackageManager::Apt => "apt"@,
            PackageManager::Yum => "yum"@,
            PackageManager::Apk => "apk"@,
            PackageManager::Yay => "yay"@,
            PackageManager::Pacman => "pacman"@,
            PackageManager::Cargo => "cargo"@,
            PackageManager::Homebrew => "homebrew"@,
        }
    }

    /// The package manager that a name stands for. Homebrew also answers
    /// to `brew`.
    pub open spec fn named(s: Seq<char>) -> Option<PackageManager> {
        if s == "apt"@ {
            Some(PackageManager::Apt)
        } else if s == "yum"@ {
            Some(PackageManager::Yum)
        } else if s == "apk"@ {
            Some(PackageManager::Apk)
        } else if s == "yay"@ {
            Some(PackageManager::Yay)
        } else if s == "pacman"@ {
            Some(PackageManager::Pacman)
        } else if s == "cargo"@ {
            Some(PackageManager::Cargo)
        } else if s == "homebrew"@ || s == "brew"@ {
            Some(PackageManager::Homebrew)
        } else {
            None
        }
    }

    /// The words that begin every install command of this package
    /// manager; the package names follow them.
    pub open spec fn install_prefix(self) -> Seq<Seq<char>> {
        match self {
            PackageManager::Apt => seq!["apt-get"@, "-y"@, "install"@],
            PackageManager::Yum => seq!["yum"@, "-y"@, "install"@],
            PackageManager::Apk => seq!["apk"@, "add"@],
            PackageManager::Pacman => seq!["pacman"@, "-S"@, "--noconfirm"@],
            PackageManager::Yay => seq!["yay"@, "-S"@, "--noconfirm"@],
            PackageManager::Cargo => seq!["cargo"@, "install"@],
            PackageManager::Homebrew => seq!["brew"@, "install"@],
        }
    }

    /// Whether installing needs elevated rights: so for Apt, Yum and
    /// Pacman. Yay refuses to run as root and asks for them itself.
    pub open spec fn needs_sudo(self) -> bool {
        self is Apt || self is Yum || self is Pacman
    }

    /// The cheap command that shows whether this package manager is
    /// present on the host.
    pub open spec fn probe(self) -> Seq<Seq<char>> {
        match self {
            PackageManager::Apt => seq!["apt"@, "--help"@],
            PackageManager::Yum => seq!["yum"@, "--help"@],
            PackageManager::Apk => seq!["apk"@, "--version"@],
            PackageManager::Yay => seq!["yay"@, "--version"@],
            PackageManager::Pacman => seq!["pacman"@, "--version"@],
            PackageManager::Homebrew => seq!["brew"@, "--version"@],
            PackageManager::Cargo => seq!["cargo"@, "--version"@],
        }
    }

    /// Renders the package manager as its name.
    pub fn to_string(&self) -> (r: String)
        ensures
            r@ == self.name(),
    {
        match self {
            PackageManager::Apt => "apt".to_string(),
            PackageManager::Yum => "yum".to_string(),
            PackageManager::Apk => "apk".to_string(),
            PackageManager::Yay => "yay".to_string(),
            PackageManager::Pacman => "pacman".to_string(),
            PackageManager::Cargo => "cargo".to_string(),
            PackageManager::Homebrew => "homebrew".to_string(),
        }
    }

    /// Reads a package manager's name. Any other text is refused with the
    /// message `Invalid package manager`.
    pub fn from_str(s: &str) -> (r: Result<PackageManager, String>)
        ensures
            match Self::named(s@) {
                Some(pm) => r == Ok::<PackageManager, String>(pm),
                None => r matches Err(msg) && msg@ == "Invalid package manager"@,
            },
    {
        let cs = chars_of(s);
        if same(&cs, &chars_of("apt")) {
            Ok(PackageManager::Apt)
        } else if same(&cs, &chars_of("yum")) {
            Ok(PackageManager::Yum)
        } else if same(&cs, &chars_of("apk")) {
            Ok(PackageManager::Apk)
        } else if same(&cs, &chars_of("yay")) {
            Ok(PackageManager::Yay)
        } else if same(&cs, &chars_of("pacman")) {
            Ok(PackageManager::Pacman)
        } else if same(&cs, &chars_of("cargo")) {
            Ok(PackageManager::Cargo)
        } else if same(&cs, &chars_of("homebrew")) || same(&cs, &chars_of("brew")) {
            Ok(PackageManager::Homebrew)
        } else {
            Err("Invalid package manager".to_string())
        }
    }

    /// The one command that installs all the given packages: the install
    /// prefix of this package manager, then the names in the given order.
    pub fn install_command(&self, names: &Vec<String>) -> (r: Vec<String>)
        ensures
            r.deep_view() == self.install_prefix() + names.deep_view(),
    {
        let mut out: Vec<String> = Vec::new();
        match self {
            PackageManager::Apt => {
                out.push("apt-get".to_string());
                out.push("-y".to_string());
                out.push("install".to_string());
            },
            PackageManager::Yum => {
                out.push("yum".to_string());
                out.push("-y".to_string());
                out.push("install".to_string());
            },
            PackageManager::Apk => {
                out.push("apk".to_string());
                out.push("add".to_string());
            },
            PackageManager::Pacman => {
                out.push("pacman".to_string());
                out.push("-S".to_string());
                out.push("--noconfirm".to_string());
            },
            PackageManager::Yay => {
                out.push("yay".to_string());
                out.push("-S".to_string());
                out.push("--noconfirm".to_string());
            },
            PackageManager::Cargo => {
                out.push("cargo".to_string());
                out.push("install".to_string());
            },
            PackageManager::Homebrew => {
                out.push("brew".to_string());
                out.push("install".to_string());
            },
        }
        assert(out.deep_view() =~= self.install_prefix());
        extend_with(&mut out, names);
        out
    }

    /// Whether installing with this package manager needs elevated rights.
    pub fn requires_sudo(&self) -> (r: bool)
        ensures
            r == self.needs_sudo(),
    {
        match self {
            PackageManager::Apt | PackageManager::Yum | PackageManager::Pacman => true,
            _ => false,
        }
    }

    /// The command that probes for this package manager.
    pub fn probe_command(&self) -> (r: Vec<String>)
        ensures
            r.deep_view() == self.probe(),
    {
        let mut out: Vec<String> = Vec::new();
        match self {
            PackageManager::Apt => {
                out.push("apt".to_string());
                out.push("--help".to_string());
            },
            PackageManager::Yum => {
                out.push("yum".to_string());
                out.push("--help".to_string());
            },
            PackageManager::Apk => {
                out.push("apk".to_string());
                out.push("--version".to_string());
            },
            PackageManager::Yay => {
                out.push("yay".to_string());
                out.push("--version".to_string());
            },
            PackageManager::Pacman => {
                out.push("pacman".to_string());
                out.push("--version".to_string());
            },
            PackageManager::Homebrew => {
                out.push("brew".to_string());
                out.push("--version".to_string());
            },
            PackageManager::Cargo => {
                out.push("cargo".to_string());
                out.push("--version".to_string());
            },
        }
        assert(out.deep_view() =~= self.probe());
        out
    }
}

/// Reading a package manager's name gives the package manager back.
pub proof fn lemma_name_round_trip(pm: PackageManager)
    ensures
        PackageManager::named(pm.name()) == Some(pm),
{
    reveal_strlit("apt");
    reveal_strlit("yum");
    reveal_strlit("apk");
    reveal_strlit("yay");
    reveal_strlit("pacman");
    reveal_strlit("cargo");
    reveal_strlit("homebrew");
    reveal_strlit("brew");
    assert("apt"@.len() == 3);
    assert("yum"@[0] == 'y' && "yum"@[1] == 'u');
    assert("apk"@[0] == 'a' && "apk"@[2] == 'k');
    assert("apt"@[2] == 't');
    assert("yay"@[1] == 'a');
    assert("pacman"@.len() == 6);
    assert("cargo"@.len() == 5);
    assert("homebrew"@.len() == 8);
}

/// The kind of host the probing runs on.
#[derive(Clone, Copy, Debug, PartialEq, Eq, Structural)]
pub enum Platform {
    Linux,
    MacOs,
    Other,
}

/// The package managers that are probed for on a platform, in the order
/// of precedence.
pub open spec fn candidates(platform: Platform) -> Seq<PackageManager> {
    match platform {
        Platform::Linux => seq![
            PackageManager::Apt,
            PackageManager::Yum,
            PackageManager::Apk,
            PackageManager::Yay,
            PackageManager::Pacman,
            PackageManager::Homebrew,
            PackageManager::Cargo,
        ],
        Platform::MacOs => seq![PackageManager::Homebrew, PackageManager::Cargo],
        Platform::Other => seq![PackageManager::Cargo],
    }
}

/// The first candidate at or after `from` whose probe was answered.
/// A candidate without an answer counts as absent.
pub open spec fn first_present(
    order: Seq<PackageManager>,
    answered: Seq<bool>,
    from: int,
) -> Option<PackageManager>
    decreases order.len() - from,
{
    if 0 <= from < order.len() {
        if from < answered.len() && answered[from] {
            Some(order[from])
        } else {
            first_present(order, answered, from + 1)
        }
    } else {
        None
    }
}

/// The package managers to probe for on a platform, in the order of
/// precedence.
pub fn probe_order(platform: Platform) -> (r: Vec<PackageManager>)
    ensures
        r@ == candidates(platform),
{
    let mut out: Vec<PackageManager> = Vec::new();
    match platform {
        Platform::Linux => {
            out.push(PackageManager::Apt);
            out.push(PackageManager::Yum);
            out.push(PackageManager::Apk);
            out.push(PackageManager::Yay);
            out.push(PackageManager::Pacman);
            out.push(PackageManager::Homebrew);
            out.push(PackageManager::Cargo);
        },
        Platform::MacOs => {
            out.push(PackageManager::Homebrew);
            out.push(PackageManager::Cargo);
        },
        Platform::Other => {
            out.push(PackageManager::Cargo);
        },
    }
    assert(out@ =~= candidates(platform));
    out
}

/// The host's default package manager: the first in the platform's order
/// of precedence whose probe could be started. `answered[i]` tells that
/// of the i-th candidate. Where none answers, the host is not supported.
pub fn which(platform: Platform, answered: &Vec<bool>) -> (r: Result<PackageManager, ParseError>)
    ensures
        match first_present(candidates(platform), answered@, 0) {
            Some(pm) => r == Ok::<PackageManager, ParseError>(pm),
            None => r == Err::<PackageManager, ParseError>(ParseError::NoSupportedPackageManager),
        },
{
    let order = probe_order(platform);
    let mut i: usize = 0;
    while i < order.len()
        invariant
            i <= order.len(),
            order@ == candidates(platform),
            first_present(order@, answered@, 0) == first_present(order@, answered@, i as int),
        decreases order.len() - i,
    {
        if i < answered.len() && answered[i] {
            return Ok(order[i]);
        }
        i += 1;
    }
    Err(ParseError::NoSupportedPackageManager)
}

} // verus!
