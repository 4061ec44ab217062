//! Configuration file discovery: where to look for the file, and which of
//! the places to take.
//!
//! Looking at the file system is the caller's part. It asks for the places
//! to look at, finds out which of them are files, and asks which to take.

use vstd::prelude::*;
use crate::error::{ConfigError, ConfigResult};
use crate::runner::context::{join_path, parent_dir, path_join, path_parent};
use crate::text::{contains_str, join, join_spec};

verus! {

/// The directory `dir` and the directories above it, nearest first, as far
/// as `levels` steps up.
pub open spec fn ancestors(dir: Seq<char>, levels: nat) -> Seq<Seq<char>>
    decreases levels,
{
    if levels == 0 {
        seq![dir]
    } else {
        match path_parent(dir) {
            Some(parent) => seq![dir] + ancestors(parent, (levels - 1) as nat),
            None => seq![dir],
        }
    }
}

/// The places to look for a configuration file in the directories `dirs`:
/// in each directory `rusk.yml`, then `rusk.yaml`.
pub open spec fn candidates(dirs: Seq<Seq<char>>) -> Seq<Seq<char>>
    decreases dirs.len(),
{
    if dirs.len() == 0 {
        Seq::empty()
    } else {
        candidates(dirs.drop_last()).push(path_join(dirs.last(), "rusk.yml"@)).push(
            path_join(dirs.last(), "rusk.yaml"@),
        )
    }
}

/// The places that are searched from `start_dir`: the two file names in
/// `start_dir`, then in each directory above it. No more directories are
/// visited than `start_dir` has characters, and one.
pub open spec fn searched(start_dir: Seq<char>) -> Seq<Seq<char>> {
    candidates(ancestors(start_dir, start_dir.len()))
}

/// The directory `dir` and the directories above it, nearest first.
fn ancestor_dirs(dir: &str) -> (dirs: Vec<String>)
    ensures
        dirs.deep_view() == ancestors(dir@, dir@.len()),
{
    let mut dirs: Vec<String> = Vec::new();
    let mut current = dir.to_owned();
    let mut levels: usize = dir.unicode_len();
    assert(dirs.deep_view() == Seq::<Seq<char>>::empty());
    loop
        invariant
            ancestors(dir@, dir@.len()) == dirs.deep_view() + ancestors(current@, levels as nat),
        decreases levels,
    {
        let ghost before = dirs.deep_view();
        if levels == 0 {
            dirs.push(current);
            assert(dirs.deep_view() == before.push(current@));
            return dirs;
        }
        match parent_dir(current.as_str()) {
            Some(parent) => {
                dirs.push(current);
                proof {
                    assert(dirs.deep_view() == before.push(current@));
                    assert(before + (seq![current@] + ancestors(parent@, (levels - 1) as nat))
                        == before.push(current@) + ancestors(parent@, (levels - 1) as nat));
                }
                current = parent;
                levels -= 1;
            },
            None => {
                dirs.push(current);
                assert(dirs.deep_view() == before.push(current@));
                return dirs;
            },
        }
    }
}

/// The places where a configuration file is searched from `start_dir`, in
/// the order of the search.
pub fn search_paths(start_dir: &str) -> (paths: Vec<String>)
    ensures
        paths.deep_view() == searched(start_dir@),
{
    let dirs = ancestor_dirs(start_dir);
    let mut paths: Vec<String> = Vec::new();
    assert(paths.deep_view() == Seq::<Seq<char>>::empty());
    let mut i: usize = 0;
    while i < dirs.len()
        invariant
            i <= dirs.len(),
            paths.deep_view() == candidates(dirs.deep_view().take(i as int)),
        decreases dirs.len() - i,
    {
        let ghost before = paths.deep_view();
        let first = join_path(dirs[i].as_str(), "rusk.yml");
        let second = join_path(dirs[i].as_str(), "rusk.yaml");
        paths.push(first);
        paths.push(second);
        proof {
            let now = dirs.deep_view().take(i + 1);
            assert(now.drop_last() == dirs.deep_view().take(i as int));
            assert(now.last() == dirs[i as int]@);
            assert(paths.deep_view() == before.push(first@).push(second@));
        }
        i += 1;
    }
    assert(dirs.deep_view().take(dirs.len() as int) == dirs.deep_view());
    paths
}

/// The position of the first of `paths`, at or after `from`, that is among
/// `files`; the number of paths where none is.
pub open spec fn first_present(paths: Seq<Seq<char>>, files: Seq<Seq<char>>, from: int) -> int
    decreases paths.len() - from,
{
    if from < 0 || from >= paths.len() {
        paths.len() as int
    } else if files.contains(paths[from]) {
        from
    } else {
        first_present(paths, files, from + 1)
    }
}

/// Finds the configuration file starting from a specific directory, given
/// the places in `files` that are files: the first place of the search that
/// is among them. Where none is, the error lists every place searched.
pub fn find_config_file_from(start_dir: String, files: &Vec<String>) -> (r: ConfigResult<String>)
    ensures
        match r {
            Ok(path) => first_present(searched(start_dir@), files.deep_view(), 0) < searched(
                start_dir@,
            ).len() && path@ == searched(start_dir@)[first_present(
                searched(start_dir@),
                files.deep_view(),
                0,
            )],
            Err(ConfigError::NotFound(places)) => first_present(
                searched(start_dir@),
                files.deep_view(),
                0,
            ) == searched(start_dir@).len() && places@ == join_spec(searched(start_dir@), ", "@),
            Err(_) => false,
        },
{
    let paths = search_paths(start_dir.as_str());
    let mut i: usize = 0;
    while i < paths.len()
        invariant
            i <= paths.len(),
            paths.deep_view() == searched(start_dir@),
            first_present(paths.deep_view(), files.deep_view(), 0) == first_present(
                paths.deep_view(),
                files.deep_view(),
                i as int,
            ),
        decreases paths.len() - i,
    {
        assert(paths.deep_view()[i as int] == paths[i as int]@);
        if contains_str(files, paths[i].as_str()) {
            return Ok(paths[i].clone());
        }
        i += 1;
    }
    Err(ConfigError::NotFound(join(&paths, ", ")))
}

} // verus!
