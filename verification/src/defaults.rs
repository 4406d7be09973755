use vstd::prelude::*;

verus! {

/// The theme a new user starts with.
pub fn theme_default() -> (theme: String)
    ensures
        theme@ == "dark"@,
{
    String::from_str("dark")
}

/// Directory names a new user has excluded from indexing.
pub fn ignored_dirs_defaults() -> (dirs: Vec<String>)
    ensures
        dirs@.len() == 2,
        dirs@[0]@ == "node_modules"@,
        dirs@[1]@ == "__pycache__"@,
{
    let mut dirs: Vec<String> = Vec::new();
    dirs.push(String::from_str("node_modules"));
    dirs.push(String::from_str("__pycache__"));
    dirs
}

/// Directories a new user has chosen to walk.
pub fn walker_dirs_defaults() -> (dirs: Vec<String>)
    ensures
        dirs@.len() == 2,
        dirs@[0]@ == "/Users"@,
        dirs@[1]@ == "/Applications"@,
{
    let mut dirs: Vec<String> = Vec::new();
    dirs.push(String::from_str("/Users"));
    dirs.push(String::from_str("/Applications"));
    dirs
}

} // verus!
