use super::destination::{directory_of, view_of, Destination, PathState};
use super::mode::{declared, lemma_declared_bound, Mode};
use super::parser::{
    first_of, modelines_of, read_modelines, values_of, Modelines, Pair, ParseError,
};
use crate::actions::package_manager::PackageManager;
use crate::actions::{Action, ActionView, Cause, Outcome, Package};
use crate::text::{chars_of, extend_with, strings_of, words, words_of};
use vstd::prelude::*;
use vstd::string::*;

verus! {

/// A user or a group as the host knew it when the configuration was
/// loaded: its name and its numeric id.
#[derive(Debug, Clone, PartialEq, Eq)]
pub struct Identity {
    pub name: String,
    pub id: u32,
}

/// Looks a user up by name. Wraps `users::get_user_by_name`, which asks
/// the host's user database, so nothing is claimed of the result.
#[verifier::external_body]
fn user_by_name(name: &str) -> (r: Option<Identity>)
{
    users::get_user_by_name(name).map(
        |u| Identity { name: u.name().to_string_lossy().to_string(), id: u.uid() },
    )
}

/// Looks a user up by id. Wraps `users::get_user_by_uid`, which asks the
/// host's user database, so nothing is claimed of the result.
#[verifier::external_body]
fn user_by_uid(uid: u32) -> (r: Option<Identity>)
{
    users::get_user_by_uid(uid).map(
        |u| Identity { name: u.name().to_string_lossy().to_string(), id: u.uid() },
    )
}

/// The id of the user that runs the process. Wraps
/// `users::get_current_uid`, which asks the host, so nothing is claimed
/// of the result.
#[verifier::external_body]
fn current_uid() -> (r: u32)
{
    users::get_current_uid()
}

/// Looks a group up by name. Wraps `users::get_group_by_name`, which asks
/// the host's group database, so nothing is claimed of the result.
#[verifier::external_body]
fn group_by_name(name: &str) -> (r: Option<Identity>)
{
    users::get_group_by_name(name).map(
        |g| Identity { name: g.name().to_string_lossy().to_string(), id: g.gid() },
    )
}

/// Looks a group up by id. Wraps `users::get_group_by_gid`, which asks
/// the host's group database, so nothing is claimed of the result.
#[verifier::external_body]
fn group_by_gid(gid: u32) -> (r: Option<Identity>)
{
    users::get_group_by_gid(gid).map(
        |g| Identity { name: g.name().to_string_lossy().to_string(), id: g.gid() },
    )
}

/// The id of the group that runs the process. Wraps
/// `users::get_current_gid`, which asks the host, so nothing is claimed
/// of the result.
#[verifier::external_body]
fn current_gid() -> (r: u32)
{
    users::get_current_gid()
}

/// A file as it was found on disk: its absolute path, or the reason why
/// that could not be had, and its content, or the reason why that could
/// not be read.
#[derive(Debug, PartialEq, Eq)]
pub struct SourceFile {
    pub path: Result<String, String>,
    pub content: Result<Vec<u8>, String>,
}

impl SourceFile {
    /// The absolute path of the file, empty where it could not be had.
    pub open spec fn source(&self) -> Seq<char> {
        match self.path {
            Ok(path) => path@,
            Err(_) => Seq::empty(),
        }
    }
}

/// What reading a file as a configuration file comes to.
pub enum Reading {
    /// Its content could not be read, or its absolute path could not be
    /// had; the text says why.
    Unreadable(Seq<char>),
    /// It holds this directive, which is not of the form `key=value`.
    BadDirective(Seq<char>),
    /// It holds no modeline.
    NotPets,
    /// It declares no destination.
    NoDestination,
    /// It declares this mode, which is none.
    BadMode(Seq<char>),
    /// It declares these directives, which make a configuration file.
    Declares(Seq<Pair>),
}

/// Where the directives want the file installed, and whether as a
/// symbolic link: the first `destfile`, or else the first `symlink`.
pub open spec fn target(pairs: Seq<Pair>) -> Option<(Seq<char>, bool)> {
    match first_of(pairs, "destfile"@) {
        Some(path) => Some((path, false)),
        None => match first_of(pairs, "symlink"@) {
            Some(path) => Some((path, true)),
            None => None,
        },
    }
}

/// The words of all the values, in their order.
pub open spec fn all_words(values: Seq<Seq<char>>) -> Seq<Seq<char>>
    decreases values.len(),
{
    if values.len() == 0 {
        Seq::empty()
    } else {
        all_words(values.drop_last()) + words(values.last())
    }
}

/// The command that the first value of `key` spells, word by word. None
/// where the key is not given or spells no word.
pub open spec fn command_of(pairs: Seq<Pair>, key: Seq<char>) -> Option<Seq<Seq<char>>> {
    match first_of(pairs, key) {
        Some(value) => if words(value).len() > 0 {
            Some(words(value))
        } else {
            None
        },
        None => None,
    }
}

/// The permission bits that the directives declare: those of the first
/// `mode`, zero where none is given. The error is a mode that is none.
pub open spec fn mode_of(pairs: Seq<Pair>) -> Result<u32, Seq<char>> {
    match first_of(pairs, "mode"@) {
        Some(text) => match declared(text) {
            Some(bits) => Ok(bits),
            None => Err(text),
        },
        None => Ok(0),
    }
}

/// What reading a file as a configuration file comes to.
pub open spec fn reading(file: &SourceFile) -> Reading {
    match file.content {
        Err(why) => Reading::Unreadable(why@),
        Ok(bytes) => match modelines_of(bytes@) {
            Err(pair) => Reading::BadDirective(pair),
            Ok(pairs) => if pairs.len() == 0 {
                Reading::NotPets
            } else {
                match file.path {
                    Err(why) => Reading::Unreadable(why@),
                    Ok(_) => if target(pairs) is None {
                        Reading::NoDestination
                    } else {
                        match mode_of(pairs) {
                            Err(text) => Reading::BadMode(text),
                            Ok(_) => Reading::Declares(pairs),
                        }
                    },
                }
            },
        },
    }
}

/// Whether `e` is the error that stands for a reading of the file at
/// `path`.
pub open spec fn reports(e: ParseError, reading: Reading, path: Seq<char>) -> bool {
    match reading {
        Reading::Unreadable(why) => e matches ParseError::FileError(t) && t@ == why,
        Reading::BadDirective(pair) => e matches ParseError::InvalidKeyword(t) && t@ == pair,
        Reading::NotPets => e is NotPetsFile,
        Reading::NoDestination => e matches ParseError::MissingDestFile(t) && t@ == path,
        Reading::BadMode(text) => e matches ParseError::InvalidFileMode(t) && t@ == text,
        Reading::Declares(_) => false,
    }
}

/// What the host found at a destination, following symbolic links.
#[derive(Debug, Clone, PartialEq, Eq)]
pub enum Stat {
    /// Nothing is there.
    Missing,
    /// The path could not be examined.
    Unreadable,
    /// Something is there, owned by `uid` and `gid`, with these mode bits.
    Present { uid: u32, gid: u32, mode: u32 },
}

/// The live state of one configuration file's destination.
#[derive(Debug, Clone, PartialEq, Eq)]
pub struct Observed {
    /// What was found at the destination's directory.
    pub directory: PathState,
    /// What was found at the destination itself.
    pub link: PathState,
    /// What was found at the destination, following symbolic links.
    pub stat: Stat,
    /// The fingerprint of what is to be installed, where it could be
    /// computed.
    pub sha_source: Option<Vec<u8>>,
    /// The fingerprint of the destination, where it could be computed.
    pub sha_dest: Option<Vec<u8>>,
}

/// What the host's package manager answered about one package. Where
/// the package manager has no such query, the outcome is not looked at.
#[derive(Debug, Clone, PartialEq, Eq)]
pub struct PackageFacts {
    /// The outcome of the availability query.
    pub info: Outcome,
    /// The outcome of the installed query.
    pub installed: Outcome,
}

/// Everything the host reported about one configuration file.
#[derive(Debug, Clone, PartialEq, Eq)]
pub struct Facts {
    /// The answers about its packages, in the order in which the file
    /// declares them.
    pub packages: Vec<PackageFacts>,
    /// The state of its destination.
    pub observed: Observed,
    /// The outcome of its validation command, where that was run.
    pub pre: Option<Outcome>,
}

/// A configuration file and what it declares.
#[derive(Debug)]
pub struct PetsFile {
    /// The absolute path of the configuration file.
    pub source: String,
    /// Where it is to be installed.
    pub dest: Destination,
    /// The packages it needs.
    pub pkgs: Vec<Package>,
    /// The user who is to own the destination.
    pub user: Option<Identity>,
    /// The group that is to own the destination.
    pub group: Option<Identity>,
    /// The permission bits of the destination.
    pub mode: Mode,
    /// The command that validates the file before it is installed.
    pub pre: Option<Vec<String>>,
    /// The command to run after any change.
    pub post: Option<Vec<String>>,
}

/// A command as a sequence of words, where there is one.
pub open spec fn command_view(command: &Option<Vec<String>>) -> Option<Seq<Seq<char>>> {
    match command {
        Some(words) => Some(words.deep_view()),
        None => None,
    }
}

/// No action, or the one given.
pub open spec fn maybe(step: Option<ActionView>) -> Seq<ActionView> {
    match step {
        Some(a) => seq![a],
        None => Seq::empty(),
    }
}

impl Observed {
    /// Whether the destination exists.
    pub open spec fn present(&self) -> bool {
        self.stat is Present
    }
}

impl PetsFile {
    /// Whether the file is well formed: a command that it declares has a
    /// program to run, and its mode has no bits beyond the lowest nine.
    pub open spec fn well_formed(&self) -> bool {
        &&& self.pre matches Some(command) ==> command@.len() > 0
        &&& self.post matches Some(command) ==> command@.len() > 0
        &&& self.mode.0 <= 0o777
    }

    /// The name of the wanted user, empty where none is declared.
    pub open spec fn user_name(&self) -> Seq<char> {
        match self.user {
            Some(u) => u.name@,
            None => Seq::empty(),
        }
    }

    /// The argument that names the wanted owner to `chown`: `user`,
    /// `user:group`, or the group's name alone where no user is named;
    /// empty where neither is declared.
    pub open spec fn owner_arg(&self) -> Seq<char> {
        match self.group {
            Some(g) => if self.user_name().len() > 0 {
                self.user_name() + ":"@ + g.name@
            } else {
                g.name@
            },
            None => self.user_name(),
        }
    }

    /// Whether a destination owned by `uid` and `gid` has the wanted
    /// owner: each of user and group that is declared must agree.
    pub open spec fn owned_as_wanted(&self, uid: u32, gid: u32) -> bool {
        &&& self.user matches Some(u) ==> u.id == uid
        &&& self.group matches Some(g) ==> g.id == gid
    }

    /// The change of owner that the state of the destination calls for.
    /// None where no owner is declared. A destination that is not there
    /// yet gets its owner set once it is; one that cannot be examined is
    /// left alone; one that is there gets it set where its owner differs.
    pub open spec fn chown_wanted(&self, stat: &Stat) -> Option<ActionView> {
        let action = ActionView {
            cause: Cause::Owner,
            command: seq!["chown"@, self.owner_arg(), self.dest.dest@],
            requires_sudo: false,
        };
        if self.owner_arg().len() == 0 {
            None
        } else {
            match stat {
                Stat::Missing => Some(action),
                Stat::Unreadable => None,
                Stat::Present { uid, gid, .. } => if self.owned_as_wanted(*uid, *gid) {
                    None
                } else {
                    Some(action)
                },
            }
        }
    }

    /// The change of mode that the state of the destination calls for.
    /// None where no mode is declared. A destination that is not there
    /// yet gets its mode set once it is; one that cannot be examined is
    /// left alone; one that is there gets it set where its lowest nine
    /// mode bits differ from the declared ones.
    pub open spec fn chmod_wanted(&self, stat: &Stat) -> Option<ActionView> {
        let action = ActionView {
            cause: Cause::Mode,
            command: seq!["chmod"@, self.mode.octal(), self.dest.dest@],
            requires_sudo: false,
        };
        if self.mode.0 == 0 {
            None
        } else {
            match stat {
                Stat::Missing => Some(action),
                Stat::Unreadable => None,
                Stat::Present { mode, .. } => if self.mode.0 == *mode & 0o777 {
                    None
                } else {
                    Some(action)
                },
            }
        }
    }

    /// The copy that the state of the destination calls for.
    pub open spec fn copy_step(&self, observed: &Observed) -> Option<ActionView> {
        self.dest.copy_wanted(
            self.dest.origin(self.source@),
            observed.present(),
            view_of(&observed.sha_source),
            view_of(&observed.sha_dest),
        )
    }

    /// The corrections that the state of the destination calls for, in
    /// the order in which they must be applied: directory, copy or link,
    /// owner, mode.
    pub open spec fn corrections(&self, observed: &Observed) -> Seq<ActionView> {
        maybe(self.dest.dir_wanted(&observed.directory)) + maybe(self.copy_step(observed)) + maybe(
            self.dest.link_wanted(self.dest.origin(self.source@), &observed.link),
        ) + maybe(self.chown_wanted(&observed.stat)) + maybe(self.chmod_wanted(&observed.stat))
    }

    /// The action that runs the command declared for after a change.
    pub open spec fn post_action(&self) -> Option<ActionView> {
        match self.post {
            Some(command) => Some(
                ActionView {
                    cause: Cause::Post,
                    command: command.deep_view(),
                    requires_sudo: false,
                },
            ),
            None => None,
        }
    }

    /// The actions of this file: its corrections, with the declared
    /// command for after a change put before them where there are any.
    pub open spec fn planned(&self, observed: &Observed) -> Seq<ActionView> {
        if self.corrections(observed).len() == 0 {
            Seq::empty()
        } else {
            maybe(self.post_action()) + self.corrections(observed)
        }
    }

    /// The validation command with the source path as its last argument.
    pub open spec fn pre_query(&self) -> Option<Seq<Seq<char>>> {
        match self.pre {
            Some(command) => Some(command.deep_view().push(self.source@)),
            None => None,
        }
    }

    /// Whether the validation command lets the file pass, given the
    /// outcome of running it. A file that declares none passes. A command
    /// that was not run does not pass. One that ended with success does;
    /// one that failed does not. One that could not be started passes
    /// only where its program is missing and `path_error_ok` allows that.
    pub open spec fn pre_passes(&self, path_error_ok: bool, outcome: &Option<Outcome>) -> bool {
        match self.pre {
            None => true,
            Some(_) => match outcome {
                None => false,
                Some(Outcome::SpawnFailed { not_found, .. }) => *not_found && path_error_ok,
                Some(o) => o.success(),
            },
        }
    }

    /// Whether every declared package is known to its package manager,
    /// given the answers about them. A package without an answer counts
    /// as unknown.
    pub open spec fn packages_valid(&self, answers: Seq<PackageFacts>) -> bool {
        forall|i: int| 0 <= i < self.pkgs@.len() ==> #[trigger] self.package_valid(answers, i)
    }

    /// Whether the i-th declared package is known to its package manager,
    /// given the answers about the packages.
    pub open spec fn package_valid(&self, answers: Seq<PackageFacts>, i: int) -> bool {
        i < answers.len() && self.pkgs@[i].valid_with(&answers[i].info)
    }

    /// Whether the file is admitted to the plan: every declared package
    /// is known, and where its content would change, the validation
    /// command lets it pass, a missing program being allowed.
    pub open spec fn accepts(&self, facts: &Facts) -> bool {
        &&& self.packages_valid(facts.packages@)
        &&& self.copy_step(&facts.observed) is Some ==> self.pre_passes(true, &facts.pre)
    }

    /// Whether the file declares what the directives say, for a
    /// configuration file at `source` and with `default` as the package
    /// manager of packages that name none.
    pub open spec fn declares(
        &self,
        source: Seq<char>,
        pairs: Seq<Pair>,
        default: PackageManager,
    ) -> bool {
        let names = all_words(values_of(pairs, "package"@));
        &&& self.source@ == source
        &&& self.pkgs@.len() == names.len()
        &&& forall|i: int|
            0 <= i < names.len() ==> (
            (#[trigger] self.pkgs@[i]).name@,
            self.pkgs@[i].package_manager,
        ) == Package::resolved(names[i], default)
        &&& mode_of(pairs) == Ok::<u32, Seq<char>>(self.mode.0)
        &&& command_view(&self.pre) == command_of(pairs, "pre"@)
        &&& command_view(&self.post) == command_of(pairs, "post"@)
    }

    /// Whether this is what loading `file` gives: it declares what the
    /// file's directives say; its destination is a link or a copy as they
    /// want it, and stands where they declare it; and it has no owner
    /// where they name neither owner nor group.
    pub open spec fn loaded_from(&self, file: &SourceFile, default: PackageManager) -> bool {
        reading(file) matches Reading::Declares(pairs) && {
            &&& self.declares(file.source(), pairs, default)
            &&& target(pairs) matches Some((path, link)) && self.dest.link == link
                && self.dest.stands_for(path)
            &&& !self.dest.is_dir
            &&& first_of(pairs, "owner"@) is None && first_of(pairs, "group"@) is None ==> self.user
                is None && self.group is None
        }
    }

    /// What is loaded from a file is well formed.
    pub proof fn lemma_loaded_well_formed(&self, file: &SourceFile, default: PackageManager)
        requires
            self.loaded_from(file, default),
        ensures
            self.well_formed(),
    {
        let pairs = reading(file)->Declares_0;
        match first_of(pairs, "mode"@) {
            Some(text) => {
                lemma_declared_bound(text);
            },
            None => {},
        }
    }

    /// The configuration file at `source` that the directives declare,
    /// installed at `dest` and owned by `user` and `group`. A mode that
    /// is none is an error.
    pub fn assemble(
        source: String,
        modelines: &Modelines,
        default: &PackageManager,
        dest: Destination,
        user: Option<Identity>,
        group: Option<Identity>,
    ) -> (r: Result<Self, ParseError>)
        ensures
            match mode_of(modelines@) {
                Err(text) => r matches Err(ParseError::InvalidFileMode(t)) && t@ == text,
                Ok(_) => r matches Ok(pf) && pf.declares(source@, modelines@, *default) && pf.dest
                    == dest && pf.user == user && pf.group == group,
            },
    {
        let mode = match modelines.first("mode") {
            Some(text) => match Mode::try_from(&text) {
                Ok(m) => m,
                Err(e) => {
                    return Err(ParseError::InvalidFileMode(text));
                },
            },
            None => Mode(0),
        };
        let values = modelines.get("package");
        let ghost wanted = values_of(modelines@, "package"@);
        let mut pkgs: Vec<Package> = Vec::new();
        let mut i: usize = 0;
        assert(wanted.take(0) =~= Seq::<Seq<char>>::empty());
        while i < values.len()
            invariant
                i <= values.len(),
                values.deep_view() == wanted,
                pkgs@.len() == all_words(wanted.take(i as int)).len(),
                forall|k: int|
                    0 <= k < pkgs@.len() ==> (
                    (#[trigger] pkgs@[k]).name@,
                    pkgs@[k].package_manager,
                ) == Package::resolved(all_words(wanted.take(i as int))[k], *default),
            decreases values.len() - i,
        {
            let names = strings_of(&words_of(&chars_of(values[i].as_str())));
            let ghost front = all_words(wanted.take(i as int));
            proof {
                assert(wanted.take(i + 1).drop_last() =~= wanted.take(i as int));
                assert(wanted.take(i + 1).last() == values[i as int]@);
                assert(all_words(wanted.take(i + 1)) == front + names.deep_view());
            }
            let mut j: usize = 0;
            while j < names.len()
                invariant
                    j <= names.len(),
                    pkgs@.len() == front.len() + j,
                    forall|k: int|
                        0 <= k < pkgs@.len() ==> (
                        (#[trigger] pkgs@[k]).name@,
                        pkgs@[k].package_manager,
                    ) == Package::resolved((front + names.deep_view())[k], *default),
                decreases names.len() - j,
            {
                let pkg = Package::new(names[j].clone(), default);
                pkgs.push(pkg);
                j += 1;
            }
            i += 1;
        }
        assert(wanted.take(values.len() as int) =~= wanted);
        let pre = Self::command(modelines, "pre");
        let post = Self::command(modelines, "post");
        Ok(PetsFile { source, dest, pkgs, user, group, mode, pre, post })
    }

    /// The command that the first value of `key` spells, word by word.
    fn command(modelines: &Modelines, key: &str) -> (r: Option<Vec<String>>)
        ensures
            command_view(&r) == command_of(modelines@, key@),
    {
        match modelines.first(key) {
            Some(value) => {
                let args = strings_of(&words_of(&chars_of(value.as_str())));
                if args.len() == 0 {
                    None
                } else {
                    Some(args)
                }
            },
            None => None,
        }
    }

    /// Reads a file as a configuration file. Its destination is expanded
    /// against the home directories of the host. The owner and the group
    /// it names are looked up on the host, and one that the host does not
    /// know is dropped. A file that names only one of the two gets the
    /// other from the process that runs; a file that names neither
    /// declares no owner at all.
    ///
    /// In this order: a file that could not be read is a file error; a
    /// directive that is not of the form `key=value` is an invalid
    /// keyword; a file without directives is no configuration file; one
    /// whose absolute path could not be had is a file error; one without
    /// `destfile` and `symlink` misses its destination; a mode that is
    /// none is invalid.
    pub fn try_from(file: &SourceFile, default: &PackageManager) -> (r: Result<Self, ParseError>)
        ensures
            match reading(file) {
                Reading::Declares(_) => r matches Ok(pf) && pf.loaded_from(file, *default),
                other => r matches Err(e) && reports(e, other, file.source()),
            },
    {
        let modelines = match &file.content {
            Err(why) => {
                return Err(ParseError::FileError(why.clone()));
            },
            Ok(bytes) => match read_modelines(bytes) {
                Ok(m) => m,
                Err(e) => {
                    return Err(e);
                },
            },
        };
        if modelines.is_empty() {
            return Err(ParseError::NotPetsFile);
        }
        let source = match &file.path {
            Ok(path) => path.clone(),
            Err(why) => {
                return Err(ParseError::FileError(why.clone()));
            },
        };
        let dest = match modelines.first("destfile") {
            Some(path) => Destination::new(&path, false, false),
            None => match modelines.first("symlink") {
                Some(path) => Destination::new(&path, true, false),
                None => {
                    return Err(ParseError::MissingDestFile(source));
                },
            },
        };
        let owner = modelines.first("owner");
        let owning_group = modelines.first("group");
        let user = match &owner {
            Some(name) => user_by_name(name.as_str()),
            None => if owning_group.is_some() {
                user_by_uid(current_uid())
            } else {
                None
            },
        };
        let group = match &owning_group {
            Some(name) => group_by_name(name.as_str()),
            None => if owner.is_some() {
                group_by_gid(current_gid())
            } else {
                None
            },
        };
        Self::assemble(source, &modelines, default, dest, user, group)
    }

    /// The path of the destination.
    pub fn destination(&self) -> (r: String)
        ensures
            r@ == self.dest.dest@,
    {
        self.dest.to_string()
    }

    /// The absolute path of the configuration file.
    pub fn source(&self) -> (r: String)
        ensures
            r@ == self.source@,
    {
        self.source.clone()
    }

    /// The packages that the file needs.
    pub fn packages(&self) -> (r: &[Package])
        ensures
            r@ == self.pkgs@,
    {
        self.pkgs.as_slice()
    }

    /// The validation command to run, with the source path as its last
    /// argument, where the file declares one.
    pub fn pre_command(&self) -> (r: Option<Vec<String>>)
        ensures
            match r {
                Some(c) => self.pre_query() == Some(c.deep_view()),
                None => self.pre_query() is None,
            },
    {
        match &self.pre {
            Some(command) => {
                let mut out: Vec<String> = Vec::new();
                extend_with(&mut out, command);
                let ghost before = out.deep_view();
                out.push(self.source.clone());
                assert(out.deep_view() =~= before.push(self.source@));
                assert(before =~= command.deep_view());
                Some(out)
            },
            None => None,
        }
    }

    /// Whether the validation command lets the file pass, given the
    /// outcome of running it.
    pub fn run_pre(&self, path_error_ok: bool, outcome: &Option<Outcome>) -> (r: bool)
        ensures
            r == self.pre_passes(path_error_ok, outcome),
    {
        match &self.pre {
            None => true,
            Some(_) => match outcome {
                None => false,
                Some(Outcome::SpawnFailed { not_found, .. }) => *not_found && path_error_ok,
                Some(o) => o.succeeded(),
            },
        }
    }

    /// Whether the validation command has to be run: the file declares
    /// one and its content would change.
    pub fn wants_pre(&self, observed: &Observed) -> (r: bool)
        ensures
            r == (self.pre is Some && self.copy_step(observed) is Some),
    {
        self.pre.is_some() && self.file_to_copy(observed).is_some()
    }

    /// Whether the file is admitted to the plan, given what the host
    /// reported about it.
    pub fn is_valid(&self, facts: &Facts) -> (r: bool)
        ensures
            r == self.accepts(facts),
    {
        let mut i: usize = 0;
        while i < self.pkgs.len()
            invariant
                i <= self.pkgs.len(),
                forall|j: int| 0 <= j < i ==> #[trigger] self.package_valid(facts.packages@, j),
            decreases self.pkgs.len() - i,
        {
            if i >= facts.packages.len() {
                assert(!self.package_valid(facts.packages@, i as int));
                return false;
            }
            if !self.pkgs[i].is_valid(&facts.packages[i].info) {
                assert(!self.package_valid(facts.packages@, i as int));
                return false;
            }
            i += 1;
        }
        if self.file_to_copy(&facts.observed).is_some() && !self.run_pre(true, &facts.pre) {
            false
        } else {
            true
        }
    }

    /// The copy that the state of the destination calls for.
    pub fn file_to_copy(&self, observed: &Observed) -> (r: Option<Action>)
        ensures
            match r {
                Some(a) => self.copy_step(observed) == Some(a@),
                None => self.copy_step(observed) is None,
            },
    {
        let exists = match observed.stat {
            Stat::Present { .. } => true,
            _ => false,
        };
        self.dest.needs_copy(
            self.source.as_str(),
            exists,
            &observed.sha_source,
            &observed.sha_dest,
        )
    }

    /// The change of owner that the state of the destination calls for.
    pub fn chown(&self, stat: &Stat) -> (r: Option<Action>)
        ensures
            match r {
                Some(a) => self.chown_wanted(stat) == Some(a@),
                None => self.chown_wanted(stat) is None,
            },
    {
        let mut arg = String::new();
        match &self.user {
            Some(user) => {
                arg.append(user.name.as_str());
            },
            None => {},
        }
        match &self.group {
            Some(group) => {
                if !arg.as_str().is_empty() {
                    arg.append(":");
                }
                arg.append(group.name.as_str());
            },
            None => {},
        }
        assert(arg@ =~= self.owner_arg());
        if arg.as_str().is_empty() {
            return None;
        }
        let needed = match stat {
            Stat::Missing => true,
            Stat::Unreadable => false,
            Stat::Present { uid, gid, .. } => {
                let user_differs = match &self.user {
                    Some(user) => user.id != *uid,
                    None => false,
                };
                let group_differs = match &self.group {
                    Some(group) => group.id != *gid,
                    None => false,
                };
                user_differs || group_differs
            },
        };
        if needed {
            let mut command: Vec<String> = Vec::new();
            command.push("chown".to_string());
            command.push(arg);
            command.push(self.dest.to_string());
            assert(command.deep_view() =~= seq!["chown"@, self.owner_arg(), self.dest.dest@]);
            Some(Action::new(Cause::Owner, command))
        } else {
            None
        }
    }

    /// The change of mode that the state of the destination calls for.
    pub fn chmod(&self, stat: &Stat) -> (r: Option<Action>)
        ensures
            match r {
                Some(a) => self.chmod_wanted(stat) == Some(a@),
                None => self.chmod_wanted(stat) is None,
            },
    {
        if self.mode.is_empty() {
            return None;
        }
        let needed = match stat {
            Stat::Missing => true,
            Stat::Unreadable => false,
            Stat::Present { mode, .. } => !self.mode.eq(mode),
        };
        if needed {
            let mut command: Vec<String> = Vec::new();
            command.push("chmod".to_string());
            command.push(self.mode.to_string());
            command.push(self.dest.to_string());
            assert(command.deep_view() =~= seq!["chmod"@, self.mode.octal(), self.dest.dest@]);
            Some(Action::new(Cause::Mode, command))
        } else {
            None
        }
    }

    /// The corrections that the state of the destination calls for.
    fn steps(&self, observed: &Observed) -> (r: Vec<Action>)
        ensures
            r.deep_view() == self.corrections(observed),
    {
        let mut out: Vec<Action> = Vec::new();
        assert(out.deep_view() =~= Seq::<ActionView>::empty());
        add_step(&mut out, self.dest.needs_dir(&observed.directory));
        add_step(&mut out, self.file_to_copy(observed));
        add_step(&mut out, self.dest.needs_link(self.source.as_str(), &observed.link));
        add_step(&mut out, self.chown(&observed.stat));
        add_step(&mut out, self.chmod(&observed.stat));
        assert(out.deep_view() =~= self.corrections(observed));
        out
    }

    /// The actions of this file, given the state of its destination.
    pub fn actions(&self, observed: &Observed) -> (r: Vec<Action>)
        ensures
            r.deep_view() == self.planned(observed),
    {
        let mut out = self.steps(observed);
        if out.len() == 0 {
            return out;
        }
        let ghost done = out.deep_view();
        match &self.post {
            Some(post) => {
                let mut command: Vec<String> = Vec::new();
                extend_with(&mut command, post);
                assert(command.deep_view() =~= post.deep_view());
                let hook = Action::new(Cause::Post, command);
                out.insert(0, hook);
                assert(out.deep_view() =~= seq![hook@] + done);
            },
            None => {
                assert(out.deep_view() =~= Seq::<ActionView>::empty() + done);
            },
        }
        out
    }
}

/// The view of an action, where there is one.
spec fn step_view(step: &Option<Action>) -> Option<ActionView> {
    match step {
        Some(a) => Some(a@),
        None => None,
    }
}

/// Adds an action to the list, where there is one.
fn add_step(out: &mut Vec<Action>, step: Option<Action>)
    ensures
        final(out).deep_view() == old(out).deep_view() + maybe(step_view(&step)),
{
    match step {
        Some(a) => {
            let ghost before = out.deep_view();
            out.push(a);
            assert(out.deep_view() =~= before + seq![a@]);
        },
        None => {
            assert(out.deep_view() =~= out.deep_view() + Seq::<ActionView>::empty());
        },
    }
}

impl PetsFile {
    /// Whether the destination is in the state that the file declares:
    /// its directory is there; it is a link to what is installed, or a
    /// copy with the same fingerprint; and it has the declared owner and
    /// mode.
    pub open spec fn converged(&self, observed: &Observed) -> bool {
        &&& self.dest.directory@.len() > 0 ==> observed.directory is Directory
        &&& if self.dest.link {
            observed.link matches PathState::Symlink(Some(to)) && to@ == self.dest.origin(
                self.source@,
            )
        } else {
            observed.present() && observed.sha_source is Some && view_of(&observed.sha_source)
                == view_of(&observed.sha_dest)
        }
        &&& self.owner_arg().len() > 0 ==> (observed.stat matches Stat::Present { uid, gid, .. }
            && self.owned_as_wanted(uid, gid))
        &&& self.mode.0 != 0 ==> (observed.stat matches Stat::Present { mode, .. } && self.mode.0
            == mode & 0o777)
    }
}

/// A destination that is in the declared state needs no action: planning
/// again after a plan was applied gives nothing for the file.
pub proof fn lemma_converged_needs_nothing(file: &PetsFile, observed: &Observed)
    requires
        file.converged(observed),
    ensures
        file.planned(observed) == Seq::<ActionView>::empty(),
{
    assert(file.dest.dir_wanted(&observed.directory) is None);
    assert(file.copy_step(observed) is None);
    assert(file.dest.link_wanted(file.dest.origin(file.source@), &observed.link) is None);
    assert(file.chown_wanted(&observed.stat) is None);
    assert(file.chmod_wanted(&observed.stat) is None);
    assert(file.corrections(observed) =~= Seq::<ActionView>::empty());
}

/// Whether a file is copied follows from its content alone: a
/// destination that is not there is created; one with the fingerprint of
/// the source is left alone; one with another fingerprint is updated.
pub proof fn lemma_copy_follows_content(
    dest: &Destination,
    origin: Seq<char>,
    a: Seq<u8>,
    b: Seq<u8>,
)
    requires
        !dest.link,
    ensures
        dest.copy_wanted(origin, false, Some(a), Some(b)) == Some(dest.cp(Cause::Create, origin)),
        dest.copy_wanted(origin, true, Some(a), Some(a)) is None,
        a != b ==> dest.copy_wanted(origin, true, Some(a), Some(b)) == Some(
            dest.cp(Cause::Update, origin),
        ),
{
}

/// The place of a cause in the order of a file's actions.
pub open spec fn rank(cause: Cause) -> int {
    match cause {
        Cause::Post => 0,
        Cause::Dir => 1,
        Cause::Create | Cause::Update | Cause::Link => 2,
        Cause::Owner => 3,
        Cause::Mode => 4,
        Cause::Pkg => 5,
        Cause::Nothing => 6,
    }
}

/// Whether the actions come in the order of their causes, at most one
/// for each place in that order.
pub open spec fn in_order(steps: Seq<ActionView>) -> bool {
    forall|i: int, j: int|
        0 <= i < j < steps.len() ==> rank((#[trigger] steps[i]).cause) < rank(
            (#[trigger] steps[j]).cause,
        )
}

/// Whether the causes of all the actions have their place between `lo`
/// and `hi`.
pub open spec fn ranked_within(steps: Seq<ActionView>, lo: int, hi: int) -> bool {
    forall|i: int| 0 <= i < steps.len() ==> lo <= rank((#[trigger] steps[i]).cause) <= hi
}

/// Actions in order, followed by actions in order whose causes all come
/// later, are in order.
proof fn lemma_in_order_join(
    front: Seq<ActionView>,
    back: Seq<ActionView>,
    lo: int,
    mid: int,
    hi: int,
)
    requires
        lo <= mid < hi,
        in_order(front),
        in_order(back),
        ranked_within(front, lo, mid),
        ranked_within(back, mid + 1, hi),
    ensures
        in_order(front + back),
        ranked_within(front + back, lo, hi),
{
    let all = front + back;
    assert forall|i: int| 0 <= i < all.len() implies lo <= rank((#[trigger] all[i]).cause)
        <= hi by {
        if i < front.len() {
            assert(all[i] == front[i]);
        } else {
            assert(all[i] == back[i - front.len()]);
        }
    }
    assert forall|i: int, j: int| 0 <= i < j < all.len() implies rank((#[trigger] all[i]).cause)
        < rank((#[trigger] all[j]).cause) by {
        if j < front.len() {
            assert(all[i] == front[i] && all[j] == front[j]);
        } else if i < front.len() {
            assert(all[i] == front[i] && all[j] == back[j - front.len()]);
        } else {
            assert(all[i] == back[i - front.len()] && all[j] == back[j - front.len()]);
        }
    }
}

/// The actions of a file come in the order of their causes: the command
/// for after a change first, then directory, copy or link, owner, mode,
/// at most one of each.
pub proof fn lemma_planned_in_order(file: &PetsFile, observed: &Observed)
    ensures
        in_order(file.planned(observed)),
        ranked_within(file.planned(observed), 0, 4),
{
    let dir = maybe(file.dest.dir_wanted(&observed.directory));
    let copy = maybe(file.copy_step(observed));
    let link = maybe(file.dest.link_wanted(file.dest.origin(file.source@), &observed.link));
    let own = maybe(file.chown_wanted(&observed.stat));
    let mode = maybe(file.chmod_wanted(&observed.stat));
    let post = maybe(file.post_action());
    let file_step = copy + link;
    assert(copy.len() == 0 || link.len() == 0);
    assert(file_step.len() <= 1);
    assert(in_order(file_step) && ranked_within(file_step, 2, 2)) by {
        if copy.len() == 1 {
            assert(file_step =~= copy);
        } else {
            assert(file_step =~= link);
        }
    }
    assert(in_order(dir) && ranked_within(dir, 1, 1));
    assert(in_order(own) && ranked_within(own, 3, 3));
    assert(in_order(mode) && ranked_within(mode, 4, 4));
    assert(in_order(post) && ranked_within(post, 0, 0));
    lemma_in_order_join(dir, file_step, 1, 1, 2);
    lemma_in_order_join(dir + file_step, own, 1, 2, 3);
    lemma_in_order_join(dir + file_step + own, mode, 1, 3, 4);
    let steps = file.corrections(observed);
    assert(steps =~= dir + file_step + own + mode);
    if steps.len() > 0 {
        lemma_in_order_join(post, steps, 0, 0, 4);
    }
}

/// Whether `holds` is true of every action.
pub open spec fn every(steps: Seq<ActionView>, holds: spec_fn(ActionView) -> bool) -> bool {
    forall|i: int| 0 <= i < steps.len() ==> holds(#[trigger] steps[i])
}

/// What is true of every action of two lists is true of every action of
/// the one behind the other.
pub proof fn lemma_every_join(
    front: Seq<ActionView>,
    back: Seq<ActionView>,
    holds: spec_fn(ActionView) -> bool,
)
    requires
        every(front, holds),
        every(back, holds),
    ensures
        every(front + back, holds),
{
    let all = front + back;
    assert forall|i: int| 0 <= i < all.len() implies holds(#[trigger] all[i]) by {
        if i < front.len() {
            assert(all[i] == front[i]);
        } else {
            assert(all[i] == back[i - front.len()]);
        }
    }
}

/// What is true of each step that a file may take, and of the command it
/// declares for after a change, is true of every action of the file.
proof fn lemma_every_planned(
    file: &PetsFile,
    observed: &Observed,
    holds: spec_fn(ActionView) -> bool,
)
    requires
        every(maybe(file.dest.dir_wanted(&observed.directory)), holds),
        every(maybe(file.copy_step(observed)), holds),
        every(
            maybe(file.dest.link_wanted(file.dest.origin(file.source@), &observed.link)),
            holds,
        ),
        every(maybe(file.chown_wanted(&observed.stat)), holds),
        every(maybe(file.chmod_wanted(&observed.stat)), holds),
        every(maybe(file.post_action()), holds),
    ensures
        every(file.planned(observed), holds),
{
    let dir = maybe(file.dest.dir_wanted(&observed.directory));
    let copy = maybe(file.copy_step(observed));
    let link = maybe(file.dest.link_wanted(file.dest.origin(file.source@), &observed.link));
    let own = maybe(file.chown_wanted(&observed.stat));
    let mode = maybe(file.chmod_wanted(&observed.stat));
    lemma_every_join(dir, copy, holds);
    lemma_every_join(dir + copy, link, holds);
    lemma_every_join(dir + copy + link, own, holds);
    lemma_every_join(dir + copy + link + own, mode, holds);
    if file.corrections(observed).len() > 0 {
        lemma_every_join(maybe(file.post_action()), file.corrections(observed), holds);
    }
}

/// A destination at which something stands already is never linked anew:
/// whatever a link there points to, the file's actions hold no link.
pub proof fn lemma_no_forced_relink(file: &PetsFile, observed: &Observed)
    requires
        !(observed.link is Missing),
    ensures
        file.dest.link_wanted(file.dest.origin(file.source@), &observed.link) is None,
        every(file.planned(observed), |a: ActionView| a.cause != Cause::Link),
{
    lemma_every_planned(file, observed, |a: ActionView| a.cause != Cause::Link);
}

/// An owner or a mode that is set for a copy not there yet has the copy
/// made before it: where nothing stands at the destination of a file
/// that is to be copied, the file's actions create it, and with the
/// order of a file's actions the creation comes first.
pub proof fn lemma_prestaged_after_create(file: &PetsFile, observed: &Observed)
    requires
        !file.dest.link,
        observed.stat is Missing,
    ensures
        file.copy_step(observed) == Some(
            file.dest.cp(Cause::Create, file.dest.origin(file.source@)),
        ),
        file.corrections(observed).contains(
            file.dest.cp(Cause::Create, file.dest.origin(file.source@)),
        ),
        in_order(file.planned(observed)),
{
    let dir = maybe(file.dest.dir_wanted(&observed.directory));
    let created = file.dest.cp(Cause::Create, file.dest.origin(file.source@));
    let steps = file.corrections(observed);
    assert(steps[dir.len() as int] == created);
    lemma_planned_in_order(file, observed);
}

/// An owner or a mode that is set for a link not there yet has the link
/// made before it: where nothing stands at the destination of a file
/// that is to be linked, the file's actions create the link, and with
/// the order of a file's actions the creation comes first.
pub proof fn lemma_prestaged_after_link(file: &PetsFile, observed: &Observed)
    requires
        file.dest.link,
        file.dest.dest@.len() > 0,
        observed.link is Missing,
    ensures
        file.corrections(observed).contains(file.dest.ln(file.dest.origin(file.source@))),
        in_order(file.planned(observed)),
{
    let dir = maybe(file.dest.dir_wanted(&observed.directory));
    let linked = file.dest.ln(file.dest.origin(file.source@));
    let steps = file.corrections(observed);
    assert(file.copy_step(observed) is None);
    assert(steps[dir.len() as int] == linked);
    lemma_planned_in_order(file, observed);
}

/// Every action of a well-formed file has a program to run.
pub proof fn lemma_planned_runnable(file: &PetsFile, observed: &Observed)
    requires
        file.well_formed(),
    ensures
        every(file.planned(observed), |a: ActionView| a.command.len() > 0),
{
    lemma_every_planned(file, observed, |a: ActionView| a.command.len() > 0);
}

} // verus!
