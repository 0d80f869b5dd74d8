use crate::actions::{Action, ActionView, Cause};
use crate::text::chars_of;
use home_dir::HomeDirExt;
use merkle_hash::{Algorithm, MerkleTree};
use vstd::prelude::*;

verus! {

/// What the parent of a path is, as `std::path::Path::parent` gives it on
/// a Unix host: the path without its last component, or nothing for a
/// root and for the empty path.
pub uninterp spec fn path_parent(path: Seq<char>) -> Option<Seq<char>>;

/// The parent of a path. Wraps `std::path::Path::parent`; the result is
/// named, not described.
#[verifier::external_body]
fn parent_of(path: &str) -> (r: Option<String>)
    ensures
        match r {
            Some(p) => path_parent(path@) == Some(p@),
            None => path_parent(path@) is None,
        },
{
    std::path::Path::new(path).parent().map(|p| p.to_string_lossy().to_string())
}

/// What expansion makes of a path that begins with no tilde, as
/// `home_dir::HomeDirExt::expand_home` gives it on a Unix host: the path
/// put together again from its components.
pub uninterp spec fn path_rebuilt(path: Seq<char>) -> Seq<char>;

/// Whether a path begins with a tilde, and so names a home directory.
pub open spec fn begins_with_tilde(path: Seq<char>) -> bool {
    path.len() > 0 && path[0] == '~'
}

/// Expands a leading `~` or `~user` to a home directory. Wraps
/// `home_dir::HomeDirExt::expand_home`. For a path that begins with a
/// tilde it reads the environment and the user database, so nothing is
/// claimed of the result; `None` stands for a user without an entry. A
/// path that begins with no tilde is put together again from its
/// components alone, which is named, not described. A path with a tilde
/// and a NUL character is kept out: the lookup of a user whose name
/// holds one panics.
#[verifier::external_body]
fn expand_home(path: &str) -> (r: Option<String>)
    requires
        begins_with_tilde(path@) ==> !path@.contains('\0'),
    ensures
        match r {
            Some(p) => !begins_with_tilde(path@) ==> p@ == path_rebuilt(path@),
            None => begins_with_tilde(path@),
        },
{
    path.expand_home().ok().map(|p| p.to_string_lossy().to_string())
}

/// Whether a path begins with a tilde and holds a NUL character.
fn is_unnameable(path: &str) -> (r: bool)
    ensures
        r == (begins_with_tilde(path@) && path@.contains('\0')),
{
    let cs = chars_of(path);
    if cs.len() == 0 || cs[0] != '~' {
        return false;
    }
    let mut i: usize = 0;
    while i < cs.len()
        invariant
            i <= cs.len(),
            cs@ == path@,
            begins_with_tilde(path@),
            forall|j: int| 0 <= j < i ==> cs@[j] != '\0',
        decreases cs.len() - i,
    {
        if cs[i] == '\0' {
            return true;
        }
        i += 1;
    }
    false
}

/// The SHA-256 fingerprint of the file or directory tree at a path. Wraps
/// `merkle_hash::MerkleTree::builder`, with `Algorithm::Sha256`, and its
/// `build`, which read the disk, so nothing is claimed of the result.
/// `None` stands for a tree that could not be read.
#[verifier::external_body]
fn sha256(path: &str) -> (r: Option<Vec<u8>>)
{
    MerkleTree::builder(path).algorithm(Algorithm::Sha256).build().ok().map(
        |tree| tree.root.item.hash,
    )
}

/// What the host found at a path, not following a symbolic link there.
#[derive(Debug, Clone, PartialEq, Eq)]
pub enum PathState {
    /// Nothing is there.
    Missing,
    /// The path could not be examined.
    Unreadable,
    /// A directory.
    Directory,
    /// Something that is neither a directory nor a symbolic link.
    File,
    /// A symbolic link, with its target where that could be read.
    Symlink(Option<String>),
}

/// Where a configuration file is to be installed.
#[derive(Debug, Clone, PartialEq)]
pub struct Destination {
    /// The full path of the file or link.
    pub dest: String,
    /// The directory that holds it, empty where the path has none.
    pub directory: String,
    /// Whether a symbolic link is wanted there, not a copy.
    pub link: bool,
    /// Whether the directory that holds the source is installed, not the
    /// source file alone.
    pub is_dir: bool,
}

/// The directory that holds a path: its parent, or the empty path where
/// it has none.
pub open spec fn directory_of(path: Seq<char>) -> Seq<char> {
    match path_parent(path) {
        Some(p) => p,
        None => Seq::empty(),
    }
}

/// The parent of a path, or the path itself where it has none.
pub open spec fn parent_or_self(path: Seq<char>) -> Seq<char> {
    match path_parent(path) {
        Some(p) => p,
        None => path,
    }
}

impl Destination {
    /// What is installed from a configuration file at `source`: the file,
    /// or the directory that holds it.
    pub open spec fn origin(&self, source: Seq<char>) -> Seq<char> {
        if self.is_dir {
            parent_or_self(source)
        } else {
            source
        }
    }

    /// The action that creates the directory.
    pub open spec fn mkdir(&self) -> ActionView {
        ActionView {
            cause: Cause::Dir,
            command: seq!["mkdir"@, "-p"@, self.directory@],
            requires_sudo: false,
        }
    }

    /// The action that links the destination to `origin`.
    pub open spec fn ln(&self, origin: Seq<char>) -> ActionView {
        ActionView {
            cause: Cause::Link,
            command: seq!["ln"@, "-s"@, origin, self.dest@],
            requires_sudo: false,
        }
    }

    /// The action that copies `origin` to the destination.
    pub open spec fn cp(&self, cause: Cause, origin: Seq<char>) -> ActionView {
        ActionView { cause, command: seq!["cp"@, origin, self.dest@], requires_sudo: false }
    }

    /// Whether the directory has to be created, given what was found at
    /// its path: only where it is missing. Something else in its place is
    /// a conflict that is left alone.
    pub open spec fn dir_wanted(&self, found: &PathState) -> Option<ActionView> {
        if self.directory@.len() > 0 && found is Missing {
            Some(self.mkdir())
        } else {
            None
        }
    }

    /// Whether the link has to be created, given what was found at the
    /// destination: only where a link is wanted and nothing is there yet.
    /// A link already there, whatever it points to, and anything else in
    /// its place are left alone.
    pub open spec fn link_wanted(&self, origin: Seq<char>, found: &PathState) -> Option<
        ActionView,
    > {
        if self.link && self.dest@.len() > 0 && found is Missing {
            Some(self.ln(origin))
        } else {
            None
        }
    }

    /// Whether the file has to be copied, given whether the destination
    /// exists and the fingerprints of origin and destination: created
    /// where it does not exist; updated where both fingerprints are known
    /// and differ; left alone where they are equal, where one of them
    /// could not be computed, and where a link is wanted.
    pub open spec fn copy_wanted(
        &self,
        origin: Seq<char>,
        exists: bool,
        sha_origin: Option<Seq<u8>>,
        sha_dest: Option<Seq<u8>>,
    ) -> Option<ActionView> {
        if self.link {
            None
        } else if !exists {
            Some(self.cp(Cause::Create, origin))
        } else {
            match (sha_origin, sha_dest) {
                (Some(a), Some(b)) => if a == b {
                    None
                } else {
                    Some(self.cp(Cause::Update, origin))
                },
                _ => None,
            }
        }
    }

    /// The destination at `path`, whose parent is `parent`.
    pub fn at(path: String, parent: Option<String>, is_symlink: bool, is_dir: bool) -> (r: Self)
        ensures
            r.dest@ == path@,
            r.directory@ == (match parent {
                Some(p) => p@,
                None => Seq::empty(),
            }),
            r.link == is_symlink,
            r.is_dir == is_dir,
    {
        let directory = match parent {
            Some(p) => p,
            None => String::new(),
        };
        Self { dest: path, directory, link: is_symlink, is_dir }
    }

    /// Whether the destination stands where `written` declares it, as
    /// far as that can be told without the host: a path that begins
    /// with no tilde is put together again from its components; one with
    /// a tilde and a NUL character, which names no user, stays as it was
    /// written; and the directory is the parent of the path.
    pub open spec fn stands_for(&self, written: Seq<char>) -> bool {
        &&& !begins_with_tilde(written) ==> self.dest@ == path_rebuilt(written)
        &&& begins_with_tilde(written) && written.contains('\0') ==> self.dest@ == written
        &&& self.directory@ == directory_of(self.dest@)
    }

    /// The destination that `dest` declares, given what expansion made
    /// of it: the expanded path, or the path as it was written where
    /// expansion gave none.
    pub fn resolved(dest: &String, expanded: Option<String>, is_symlink: bool, is_dir: bool) -> (r:
        Self)
        ensures
            r.dest@ == (match expanded {
                Some(p) => p@,
                None => dest@,
            }),
            r.directory@ == directory_of(r.dest@),
            r.link == is_symlink,
            r.is_dir == is_dir,
    {
        let path = match expanded {
            Some(p) => p,
            None => dest.clone(),
        };
        let parent = parent_of(path.as_str());
        Self::at(path, parent, is_symlink, is_dir)
    }

    /// The destination that `dest` declares. A leading `~` or `~user` is
    /// expanded to a home directory; where that fails, the path stays as
    /// it was written. So does a path with a tilde and a NUL character,
    /// which names no user.
    pub fn new(dest: &String, is_symlink: bool, is_dir: bool) -> (r: Self)
        ensures
            r.stands_for(dest@),
            r.link == is_symlink,
            r.is_dir == is_dir,
    {
        let expanded = if is_unnameable(dest.as_str()) {
            None
        } else {
            expand_home(dest.as_str())
        };
        Self::resolved(dest, expanded, is_symlink, is_dir)
    }

    /// Whether a symbolic link is wanted.
    pub fn is_symlink(&self) -> (r: bool)
        ensures
            r == self.link,
    {
        self.link
    }

    /// The directory that holds the destination.
    pub fn directory(&self) -> (r: String)
        ensures
            r@ == self.directory@,
    {
        self.directory.clone()
    }

    /// Renders the destination as its path.
    pub fn to_string(&self) -> (r: String)
        ensures
            r@ == self.dest@,
    {
        self.dest.clone()
    }

    /// What is installed from a configuration file at `source`: the file,
    /// or the directory that holds it.
    pub fn origin_of(&self, source: &str) -> (r: String)
        ensures
            r@ == self.origin(source@),
    {
        if self.is_dir {
            match parent_of(source) {
                Some(p) => p,
                None => source.to_string(),
            }
        } else {
            source.to_string()
        }
    }

    /// The fingerprints of what is installed from `source` and of the
    /// destination, each where it can be computed. They are computed only
    /// where they decide something: a copy is wanted and the destination
    /// exists.
    pub fn fingerprints(&self, source: &str, exists: bool) -> (r: (
        Option<Vec<u8>>,
        Option<Vec<u8>>,
    ))
        ensures
            self.link || !exists ==> r.0 is None && r.1 is None,
    {
        if self.link || !exists {
            return (None, None);
        }
        let origin = self.origin_of(source);
        (sha256(origin.as_str()), sha256(self.dest.as_str()))
    }

    /// The action that creates the directory, where what was found at its
    /// path calls for one.
    pub fn needs_dir(&self, found: &PathState) -> (r: Option<Action>)
        ensures
            match r {
                Some(a) => self.dir_wanted(found) == Some(a@),
                None => self.dir_wanted(found) is None,
            },
    {
        if self.directory.as_str().is_empty() {
            return None;
        }
        match found {
            PathState::Missing => {
                let mut command: Vec<String> = Vec::new();
                command.push("mkdir".to_string());
                command.push("-p".to_string());
                command.push(self.directory.clone());
                assert(command.deep_view() =~= self.mkdir().command);
                Some(Action::new(Cause::Dir, command))
            },
            _ => None,
        }
    }

    /// The action that links the destination to `origin`, where what was
    /// found at the destination calls for one.
    pub fn link_from(&self, origin: String, found: &PathState) -> (r: Option<Action>)
        ensures
            match r {
                Some(a) => self.link_wanted(origin@, found) == Some(a@),
                None => self.link_wanted(origin@, found) is None,
            },
    {
        if !self.link || self.dest.as_str().is_empty() {
            return None;
        }
        match found {
            PathState::Missing => {
                let mut command: Vec<String> = Vec::new();
                command.push("ln".to_string());
                command.push("-s".to_string());
                command.push(origin);
                command.push(self.dest.clone());
                assert(command.deep_view() =~= self.ln(origin@).command);
                Some(Action::new(Cause::Link, command))
            },
            _ => None,
        }
    }

    /// The action that links the destination to what is installed from
    /// `source`, where what was found at the destination calls for one.
    pub fn needs_link(&self, source: &str, found: &PathState) -> (r: Option<Action>)
        ensures
            match r {
                Some(a) => self.link_wanted(self.origin(source@), found) == Some(a@),
                None => self.link_wanted(self.origin(source@), found) is None,
            },
    {
        let origin = self.origin_of(source);
        self.link_from(origin, found)
    }

    /// The action that copies `origin` to the destination, where the
    /// state of the destination calls for one.
    pub fn copy_from(
        &self,
        origin: String,
        exists: bool,
        sha_origin: &Option<Vec<u8>>,
        sha_dest: &Option<Vec<u8>>,
    ) -> (r: Option<Action>)
        ensures
            match r {
                Some(a) => self.copy_wanted(origin@, exists, view_of(sha_origin), view_of(sha_dest))
                    == Some(a@),
                None => self.copy_wanted(origin@, exists, view_of(sha_origin), view_of(sha_dest))
                    is None,
            },
    {
        if self.link {
            return None;
        }
        let ghost wanted = origin@;
        let mut command: Vec<String> = Vec::new();
        command.push("cp".to_string());
        command.push(origin);
        command.push(self.dest.clone());
        assert(command.deep_view() =~= self.cp(Cause::Create, wanted).command);
        if !exists {
            return Some(Action::new(Cause::Create, command));
        }
        match (sha_origin, sha_dest) {
            (Some(a), Some(b)) => {
                if same_bytes(a, b) {
                    None
                } else {
                    Some(Action::new(Cause::Update, command))
                }
            },
            _ => None,
        }
    }

    /// The action that copies what is installed from `source` to the
    /// destination, where the state of the destination calls for one.
    pub fn needs_copy(
        &self,
        source: &str,
        exists: bool,
        sha_source: &Option<Vec<u8>>,
        sha_dest: &Option<Vec<u8>>,
    ) -> (r: Option<Action>)
        ensures
            match r {
                Some(a) => self.copy_wanted(
                    self.origin(source@),
                    exists,
                    view_of(sha_source),
                    view_of(sha_dest),
                ) == Some(a@),
                None => self.copy_wanted(
                    self.origin(source@),
                    exists,
                    view_of(sha_source),
                    view_of(sha_dest),
                ) is None,
            },
    {
        let origin = self.origin_of(source);
        self.copy_from(origin, exists, sha_source, sha_dest)
    }
}

/// A fingerprint as a sequence of bytes, where there is one.
pub open spec fn view_of(sha: &Option<Vec<u8>>) -> Option<Seq<u8>> {
    match sha {
        Some(bytes) => Some(bytes@),
        None => None,
    }
}

/// Whether two fingerprints are the same.
pub fn same_bytes(a: &Vec<u8>, b: &Vec<u8>) -> (r: bool)
    ensures
        r == (a@ == b@),
{
    if a.len() != b.len() {
        return false;
    }
    let mut i: usize = 0;
    while i < a.len()
        invariant
            i <= a.len(),
            a.len() == b.len(),
            forall|j: int| 0 <= j < i ==> a@[j] == b@[j],
        decreases a.len() - i,
    {
        if a[i] != b[i] {
            return false;
        }
        i += 1;
    }
    assert(a@ =~= b@);
    true
}

} // verus!
