use super::parser::ParseError;
use super::pet_file::{reading, reports, PetsFile, Reading, SourceFile};
use crate::actions::package_manager::PackageManager;
use crate::text::{chars_of, matches_at, slice_of, split, split_at_char, starts_with};
use vstd::prelude::*;
use walkdir::WalkDir;

verus! {

/// Gathers the configuration files among the files found under a
/// directory.
#[derive(Debug)]
pub struct DirectoryWalker {
    pub directory: String,
}

/// Whether a reading ends the gathering: the file could not be read, or
/// what it declares is malformed.
pub open spec fn is_fatal(r: Reading) -> bool {
    r is Unreadable || r is BadDirective || r is BadMode
}

/// The first file at or after `from` whose reading ends the gathering.
pub open spec fn first_fatal(files: Seq<SourceFile>, from: int) -> Option<int>
    decreases files.len() - from,
{
    if 0 <= from < files.len() {
        if is_fatal(reading(&files[from])) {
            Some(from)
        } else {
            first_fatal(files, from + 1)
        }
    } else {
        None
    }
}

/// The files that make a configuration file, in their order.
pub open spec fn kept(files: Seq<SourceFile>) -> Seq<SourceFile>
    decreases files.len(),
{
    if files.len() == 0 {
        Seq::empty()
    } else if reading(&files.last()) is Declares {
        kept(files.drop_last()).push(files.last())
    } else {
        kept(files.drop_last())
    }
}

/// Whether an entry of this name belongs to a version-control directory
/// that the walk does not enter: its name begins with `.git`.
pub fn is_git_dir(name: &str) -> (r: bool)
    ensures
        r == starts_with(name@, ".git"@),
{
    matches_at(&chars_of(name), &chars_of(".git"), 0)
}

/// Whether the walk takes up an entry of this name: any but those of
/// version control.
pub fn is_walked(name: &str) -> (r: bool)
    ensures
        r == !starts_with(name@, ".git"@),
{
    !is_git_dir(name)
}

/// Whether the walk takes up an entry, given its name where that is
/// text: a name that is no text is none of version control.
pub fn takes_up(name: Option<&str>) -> (r: bool)
    ensures
        r == (match name {
            Some(n) => !starts_with(n@, ".git"@),
            None => true,
        }),
{
    match name {
        Some(n) => is_walked(n),
        None => true,
    }
}

/// The paths of what stands under a directory, the directory itself
/// included, each as text where it is text. Wraps `walkdir::WalkDir::new`,
/// the iteration over it and its `filter_entry`, which read the disk, so
/// nothing is claimed of the result. An entry is taken up, and a
/// directory entered, where `takes_up` says so of its name; what cannot
/// be read is left out.
#[verifier::external_body]
fn walk(directory: &str) -> (r: Vec<Option<String>>)
{
    WalkDir::new(directory)
        .into_iter()
        .filter_entry(|entry| takes_up(entry.file_name().to_str()))
        .filter_map(Result::ok)
        .map(|entry| entry.path().to_str().map(|path| path.to_string()))
        .collect()
}

/// Whether no part of a path is a name of version control: cut at its
/// slashes, none of its pieces begins with `.git`.
pub open spec fn walked_through(path: Seq<char>) -> bool {
    forall|k: int|
        0 <= k < split(path, '/').len() ==> !starts_with(#[trigger] split(path, '/')[k], ".git"@)
}

/// Whether a path is one that a walk from `directory` comes to: it begins
/// with the directory as it was given, and what follows passes through
/// nothing of version control.
pub open spec fn found_under(directory: Seq<char>, path: Seq<char>) -> bool {
    starts_with(path, directory) && walked_through(path.skip(directory.len() as int))
}

/// Whether a path is one that a walk from `directory` comes to.
pub fn is_found_under(directory: &str, path: &str) -> (r: bool)
    ensures
        r == found_under(directory@, path@),
{
    let from = chars_of(directory);
    let whole = chars_of(path);
    if !matches_at(&whole, &from, 0) {
        return false;
    }
    let rest = slice_of(&whole, from.len(), whole.len());
    assert(rest@ =~= path@.skip(directory@.len() as int));
    let parts = split_at_char(&rest, '/');
    let mark = chars_of(".git");
    let mut i: usize = 0;
    while i < parts.len()
        invariant
            i <= parts.len(),
            mark@ == ".git"@,
            starts_with(path@, directory@),
            rest@ == path@.skip(directory@.len() as int),
            parts.deep_view() == split(rest@, '/'),
            forall|k: int| 0 <= k < i ==> !starts_with(#[trigger] split(rest@, '/')[k], ".git"@),
        decreases parts.len() - i,
    {
        assert(parts[i as int].deep_view() =~= parts[i as int]@);
        assert(parts.deep_view()[i as int] == parts[i as int]@);
        if matches_at(&parts[i], &mark, 0) {
            assert(starts_with(split(rest@, '/')[i as int], ".git"@));
            return false;
        }
        i += 1;
    }
    true
}

/// Reads one file. A file that is no configuration file, or that misses
/// its destination, is passed over; any other failure is an error.
pub fn process_pets_file(file: &SourceFile, default: &PackageManager) -> (r: Result<
    Option<PetsFile>,
    ParseError,
>)
    ensures
        match reading(file) {
            Reading::Declares(_) => r matches Ok(Some(pf)) && pf.loaded_from(file, *default),
            Reading::NotPets | Reading::NoDestination => r matches Ok(None),
            other => r matches Err(e) && reports(e, other, file.source()),
        },
{
    match PetsFile::try_from(file, default) {
        Ok(pf) => Ok(Some(pf)),
        Err(error) => match error {
            ParseError::NotPetsFile => Ok(None),
            ParseError::MissingDestFile(_) => Ok(None),
            _ => Err(error),
        },
    }
}

impl DirectoryWalker {
    /// A walker for the files under `directory`.
    pub fn new(directory: String) -> (r: Self)
        ensures
            r.directory@ == directory@,
    {
        Self { directory }
    }

    /// The paths of what stands under the directory, as the host shows
    /// them now, in the order of the walk. Each begins with the directory
    /// as it was given; neither version-control directories nor what
    /// they hold are among them. A path that is no text cannot be handed
    /// on and is left out.
    pub fn paths(&self) -> (r: Vec<String>)
        ensures
            forall|i: int|
                0 <= i < r@.len() ==> found_under(self.directory@, (#[trigger] r@[i])@),
    {
        let all = walk(self.directory.as_str());
        let mut out: Vec<String> = Vec::new();
        let mut i: usize = 0;
        while i < all.len()
            invariant
                i <= all.len(),
                forall|k: int|
                    0 <= k < out@.len() ==> found_under(self.directory@, (#[trigger] out@[k])@),
            decreases all.len() - i,
        {
            match &all[i] {
                Some(path) => {
                    if is_found_under(self.directory.as_str(), path.as_str()) {
                        out.push(path.clone());
                    }
                },
                None => {},
            }
            i += 1;
        }
        out
    }

    /// The configuration files among `files`, in their order. The first
    /// file that could not be read, or that declares something
    /// malformed, ends the gathering with its error.
    pub fn collect(self, files: &Vec<SourceFile>, default: &PackageManager) -> (r: Result<
        Vec<PetsFile>,
        ParseError,
    >)
        ensures
            match first_fatal(files@, 0) {
                Some(i) => r matches Err(e) && reports(e, reading(&files@[i]), files@[i].source()),
                None => r matches Ok(found) && found@.len() == kept(files@).len() && forall|
                    k: int,
                |
                    0 <= k < found@.len() ==> (#[trigger] found@[k]).loaded_from(
                        &kept(files@)[k],
                        *default,
                    ),
            },
    {
        let mut found: Vec<PetsFile> = Vec::new();
        let mut i: usize = 0;
        assert(files@.take(0) =~= Seq::<SourceFile>::empty());
        while i < files.len()
            invariant
                i <= files.len(),
                first_fatal(files@, 0) == first_fatal(files@, i as int),
                found@.len() == kept(files@.take(i as int)).len(),
                forall|k: int|
                    0 <= k < found@.len() ==> (#[trigger] found@[k]).loaded_from(
                        &kept(files@.take(i as int))[k],
                        *default,
                    ),
            decreases files.len() - i,
        {
            assert(files@.take(i + 1).drop_last() =~= files@.take(i as int));
            assert(files@.take(i + 1).last() == files@[i as int]);
            match process_pets_file(&files[i], default) {
                Ok(Some(pf)) => {
                    found.push(pf);
                },
                Ok(None) => {},
                Err(e) => {
                    return Err(e);
                },
            }
            i += 1;
        }
        assert(files@.take(files.len() as int) =~= files@);
        Ok(found)
    }
}

} // verus!
