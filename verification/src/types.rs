use vstd::prelude::*;

use crate::defaults::{ignored_dirs_defaults, theme_default, walker_dirs_defaults};

verus! {

/// One file or directory as the index records it.
#[derive(Debug, Clone)]
pub struct FileEntry {
    pub id: i64,
    pub path: String,
    pub parent: String,
    pub name: String,
    pub size: Option<u64>,
    pub modified: Option<i64>,
    pub kind: String,
    pub indexed: i32,
}

/// The user's settings.
#[derive(Debug)]
pub struct UserData {
    pub new_user: bool,
    pub theme: String,
    pub ignored_dirs: Vec<String>,
    pub walker_dirs: Vec<String>,
}

impl Default for UserData {
    /// The settings of a user who has not chosen any: a new user with the
    /// default theme, excluded directories and walked directories.
    fn default() -> (r: Self)
        ensures
            r.new_user,
            r.theme@ == "dark"@,
            r.ignored_dirs@.len() == 2,
            r.ignored_dirs@[0]@ == "node_modules"@,
            r.ignored_dirs@[1]@ == "__pycache__"@,
            r.walker_dirs@.len() == 2,
            r.walker_dirs@[0]@ == "/Users"@,
            r.walker_dirs@[1]@ == "/Applications"@,
    {
        UserData {
            new_user: true,
            theme: theme_default(),
            ignored_dirs: ignored_dirs_defaults(),
            walker_dirs: walker_dirs_defaults(),
        }
    }
}

} // verus!
