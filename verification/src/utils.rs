//! Project discovery over a folder listing: which immediate children of a
//! category folder are buildable projects.

use vstd::prelude::*;
use crate::errors::CiError;

verus! {

/// The category folder that holds the example projects.
pub const FOLDER_EXAMPLES: &'static str = "examples";

/// The category folder that holds the starter templates.
pub const FOLDER_STARTERS: &'static str = "starters";

/// The category folder that holds the CLI tooling.
pub const FOLDER_LOCO_CLI: &'static str = "loco-cli";

/// One immediate child of a folder, as observed on disk: its path, whether
/// it is a directory, and whether a project-descriptor file (`Cargo.toml`)
/// sits directly inside it.
#[derive(Debug)]
pub struct FolderInfo {
    pub path: String,
    pub is_dir: bool,
    pub has_manifest: bool,
}

/// A folder listing, as observed on disk: whether the folder exists, and
/// its immediate children in enumeration order.
#[derive(Debug)]
pub struct FolderListing {
    pub path: String,
    pub exists: bool,
    pub entries: Vec<FolderInfo>,
}

/// A child qualifies as a project exactly when it is a directory with the
/// descriptor file directly inside it.
pub open spec fn is_cargo_folder(e: FolderInfo) -> bool {
    e.is_dir && e.has_manifest
}

/// The qualifying children's paths, in enumeration order.
pub open spec fn cargo_folder_paths(entries: Seq<FolderInfo>) -> Seq<Seq<char>>
    decreases entries.len(),
{
    if entries.len() == 0 {
        Seq::empty()
    } else {
        let rest = cargo_folder_paths(entries.drop_last());
        if is_cargo_folder(entries.last()) {
            rest.push(entries.last().path@)
        } else {
            rest
        }
    }
}

/// A sequence of paths, seen at the ghost level.
pub open spec fn paths_view(v: Seq<String>) -> Seq<Seq<char>> {
    v.map_values(|s: String| s@)
}

/// List the sub-folders of a category folder that hold a buildable project.
/// A missing category folder is a configuration error, not an empty result.
pub fn get_cargo_folders(listing: &FolderListing) -> (r: Result<Vec<String>, CiError>)
    ensures
        listing.exists ==> (r matches Ok(v) && paths_view(v@) == cargo_folder_paths(
            listing.entries@,
        )),
        !listing.exists ==> (r matches Err(CiError::NotFound { path: p }) && p@
            == listing.path@),
{
    if !listing.exists {
        return Err(CiError::NotFound { path: listing.path.clone() });
    }
    let mut v: Vec<String> = Vec::new();
    proof {
        assert(listing.entries@.take(0) =~= Seq::<FolderInfo>::empty());
        assert(paths_view(v@) =~= cargo_folder_paths(listing.entries@.take(0)));
    }
    let mut i: usize = 0;
    while i < listing.entries.len()
        invariant
            0 <= i <= listing.entries@.len(),
            paths_view(v@) == cargo_folder_paths(listing.entries@.take(i as int)),
        decreases listing.entries@.len() - i,
    {
        let entry = &listing.entries[i];
        proof {
            assert(listing.entries@.take(i as int + 1).drop_last() =~= listing.entries@.take(
                i as int,
            ));
            assert(listing.entries@.take(i as int + 1).last() == listing.entries@[i as int]);
        }
        if entry.is_dir && entry.has_manifest {
            v.push(entry.path.clone());
        }
        proof {
            assert(paths_view(v@) =~= cargo_folder_paths(listing.entries@.take(i as int + 1)));
        }
        i += 1;
    }
    proof {
        assert(listing.entries@.take(listing.entries@.len() as int) =~= listing.entries@);
    }
    Ok(v)
}

} // verus!
