//! Level editing: named levels and the scene being edited.
use vstd::prelude::*;
use vstd::string::StringExecFns;

verus! {

/// A level of the game, known by its name.
#[derive(Debug)]
pub struct Level {
    pub name: String,
}

impl Level {
    pub fn new(name: String) -> (r: Level)
        ensures
            r.name@ == name@,
    {
        Level { name }
    }
}

impl Default for Level {
    fn default() -> (r: Level)
        ensures
            r.name@ == "Untitled"@,
    {
        Level::new(<String as StringExecFns>::from_str("Untitled"))
    }
}

/// A scene file could not be read or written.
#[derive(Clone, Copy, Debug, PartialEq, Eq, Structural)]
pub enum SceneError {
    Io,
}

/// The scene open in the editor. Scenes hold no content yet, so loading and saving
/// always succeed and change nothing.
pub struct SceneManager {}

impl SceneManager {
    pub fn new() -> (r: SceneManager) {
        SceneManager {  }
    }

    pub fn load_scene(&mut self, path: &str) -> (r: Result<(), SceneError>)
        ensures
            r is Ok,
    {
        Ok(())
    }

    pub fn save_scene(&self, path: &str) -> (r: Result<(), SceneError>)
        ensures
            r is Ok,
    {
        Ok(())
    }
}

impl Default for SceneManager {
    fn default() -> (r: SceneManager) {
        SceneManager::new()
    }
}

} // verus!
