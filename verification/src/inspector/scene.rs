//! Where the scene is kept on disk.

pub mod save;

use crate::text::begins_with;
use std::path::Path;
use vstd::prelude::*;
use vstd::string::StringExecFns;

verus! {

/// `Path::parent` of std, on a path given as text: the path without its last
/// component. The empty path has none, and what comes back is the beginning
/// of the path and shorter than it.
#[verifier::external_body]
fn parent_of(name: &str) -> (directory: Option<&str>)
    ensures
        name@.len() == 0 ==> directory is None,
        directory matches Some(d) ==> begins_with(name@, d@) && d@.len() < name@.len(),
{
    Path::new(name).parent().and_then(Path::to_str)
}

/// The place of the saves: a save's name is the path of its file.
#[derive(Clone, Copy, Debug, Default, PartialEq, Eq, Structural)]
pub struct SaveSystem;

impl SaveSystem {
    /// The directory to make for a save whose path has `parent` as its
    /// parent: that parent, and none where the path has none.
    pub fn directory(parent: Option<&str>) -> (directory: Option<String>)
        ensures
            match parent {
                Some(p) => directory matches Some(d) && d@ == p@,
                None => directory is None,
            },
    {
        match parent {
            Some(p) => Some(String::from_str(p)),
            None => None,
        }
    }

    /// The directory that has to exist before the save `name` is written:
    /// the one that holds its file. A name without one, such as the empty
    /// name, cannot be written.
    pub fn writer(name: &str) -> (directory: Option<String>)
        ensures
            name@.len() == 0 ==> directory is None,
            directory matches Some(d) ==> begins_with(name@, d@) && d@.len() < name@.len(),
    {
        SaveSystem::directory(parent_of(name))
    }
}

} // verus!
