//! Saving the scene: under the file in use, or under one the user is asked
//! for.

use vstd::prelude::*;
use vstd::string::StringExecFns;

verus! {

/// The name a scene is saved under where nothing better is known.
pub const SCENE_FILE: &'static str = "Scene.scene.ron";

/// The name a scene is saved under: the text of its path, or `SCENE_FILE`
/// where the path is no text.
pub open spec fn save_name(path_text: Option<&str>) -> Seq<char> {
    match path_text {
        Some(text) => text@,
        None => SCENE_FILE@,
    }
}

/// What saving does next.
#[derive(Debug)]
pub enum SaveStep {
    /// Write the scene under this name.
    Write(String),
    /// Ask the user for a file, proposing `SCENE_FILE`.
    Ask,
}

/// The first step of saving. `curr_path` is the file in use, if there is
/// one, as the text of its path, if it has one.
pub fn save_scene(curr_path: Option<Option<&str>>) -> (step: SaveStep)
    ensures
        match curr_path {
            Some(text) => step matches SaveStep::Write(name) && name@ == save_name(text),
            None => step is Ask,
        },
{
    match curr_path {
        Some(text) => SaveStep::Write(file_name(text)),
        None => SaveStep::Ask,
    }
}

/// The step after the user was asked: `picked` is the file the user chose,
/// if any. A chosen file becomes the file in use and the scene is written
/// under its name; without one nothing is saved.
pub fn file_picked(picked: Option<Option<&str>>) -> (name: Option<String>)
    ensures
        match picked {
            Some(text) => name matches Some(n) && n@ == save_name(text),
            None => name is None,
        },
{
    match picked {
        Some(text) => Some(file_name(text)),
        None => None,
    }
}

fn file_name(path_text: Option<&str>) -> (name: String)
    ensures
        name@ == save_name(path_text),
{
    match path_text {
        Some(text) => String::from_str(text),
        None => String::from_str(SCENE_FILE),
    }
}

} // verus!
