//! Configuration files and what they declare: where a file goes, who owns
//! it, and which permission bits it gets.

mod destination;
mod directory_walker;
pub mod mode;
mod parser;
mod pet_file;

pub use destination::{
    begins_with_tilde, directory_of, parent_or_self, path_parent, path_rebuilt, same_bytes,
    view_of, Destination, PathState,
};
pub use directory_walker::{
    first_fatal, found_under, is_fatal, is_found_under, is_git_dir, is_walked, kept,
    process_pets_file, takes_up, walked_through, DirectoryWalker,
};
pub use parser::{
    byte_lines_from, directives, extract_modeline, first_of, followed_by, key_value, line_run,
    modeline, modelines_from, modelines_of, pairs_from, parse_key_value,
    parse_multiple_key_value, read_modelines, reads_as, segments, values_of, without_cr,
    Modelines, Pair, ParseError,
};
pub use pet_file::{
    all_words, command_of, command_view, every, in_order, lemma_converged_needs_nothing,
    lemma_copy_follows_content, lemma_every_join, lemma_no_forced_relink,
    lemma_planned_in_order, lemma_planned_runnable, lemma_prestaged_after_create,
    lemma_prestaged_after_link, maybe, mode_of, rank, ranked_within, reading, reports, target,
    Facts, Identity, Observed, PackageFacts, PetsFile, Reading, SourceFile, Stat,
};

use crate::actions::package_manager::PackageManager;
use vstd::prelude::*;

verus! {

/// The configuration files among the files found under `directory`, in
/// their order. The first file that could not be read, or that declares
/// something malformed, ends the loading with its error.
pub fn load(directory: String, files: &Vec<SourceFile>, default: &PackageManager) -> (r: Result<
    Vec<PetsFile>,
    ParseError,
>)
    ensures
        match first_fatal(files@, 0) {
            Some(i) => r matches Err(e) && reports(e, reading(&files@[i]), files@[i].source()),
            None => r matches Ok(found) && found@.len() == kept(files@).len() && forall|k: int|
                0 <= k < found@.len() ==> (#[trigger] found@[k]).loaded_from(
                    &kept(files@)[k],
                    *default,
                ),
        },
{
    DirectoryWalker::new(directory).collect(files, default)
}

} // verus!
