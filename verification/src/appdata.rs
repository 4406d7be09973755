use vstd::prelude::*;

use crate::paths::{path_join, spec_path_join};

verus! {

/// The name of the application's own directory inside the user's data
/// directory.
pub const APP_DIR_NAME: &'static str = "com.Harsh.Blaze";

/// The user's data directory under a home directory, where the platform
/// gives none.
pub const HOME_DATA_SUBDIR: &'static str = "Library/Application Support";

/// The data directory: `env_override` if set; else the application's
/// directory inside the platform data directory `data_dir`, or, if there
/// is none, inside `Library/Application Support` of the home directory
/// `home_dir` (or of `.` without one).
pub open spec fn spec_app_data_dir(
    env_override: Option<Seq<char>>,
    data_dir: Option<Seq<char>>,
    home_dir: Option<Seq<char>>,
) -> Seq<char> {
    match env_override {
        Some(p) => p,
        None => {
            let base = match data_dir {
                Some(d) => d,
                None => spec_path_join(
                    match home_dir {
                        Some(h) => h,
                        None => "."@,
                    },
                    HOME_DATA_SUBDIR@,
                ),
            };
            spec_path_join(base, APP_DIR_NAME@)
        },
    }
}

/// An optional string, by its characters.
pub open spec fn opt_view(o: Option<String>) -> Option<Seq<char>> {
    match o {
        Some(s) => Some(s@),
        None => None,
    }
}

/// The data directory, from the `BLAZE_DATA_DIR` override (if set), the
/// platform data directory and the home directory.
pub fn resolve_app_data_dir(
    env_override: Option<String>,
    data_dir: Option<String>,
    home_dir: Option<String>,
) -> (r: String)
    ensures
        r@ == spec_app_data_dir(opt_view(env_override), opt_view(data_dir), opt_view(home_dir)),
{
    match env_override {
        Some(p) => p,
        None => {
            let base = match data_dir {
                Some(d) => d,
                None => {
                    let home = match home_dir {
                        Some(h) => h,
                        None => String::from_str("."),
                    };
                    path_join(home.as_str(), HOME_DATA_SUBDIR)
                },
            };
            path_join(base.as_str(), APP_DIR_NAME)
        },
    }
}

/// Where the data directory is put, spelled out: the override wins
/// whatever the platform reports; otherwise the application's directory
/// `com.Harsh.Blaze` goes directly inside the platform data directory,
/// whatever the home directory is; and only without a platform data
/// directory does it go inside `Library/Application Support` of the home
/// directory (separators added where the directory does not end in one).
pub proof fn lemma_app_data_dir_placement(
    env_override: Option<Seq<char>>,
    data_dir: Option<Seq<char>>,
    home_dir: Option<Seq<char>>,
)
    ensures
        env_override matches Some(p) ==> spec_app_data_dir(env_override, data_dir, home_dir) == p,
        data_dir matches Some(d) ==> (env_override is None && d.len() > 0 && d.last() != '/'
            ==> spec_app_data_dir(env_override, data_dir, home_dir) == d + "/com.Harsh.Blaze"@),
        home_dir matches Some(h) ==> (env_override is None && data_dir is None && h.len() > 0
            && h.last() != '/' ==> spec_app_data_dir(env_override, data_dir, home_dir) == h
            + "/Library/Application Support/com.Harsh.Blaze"@),
{
    reveal_strlit("com.Harsh.Blaze");
    reveal_strlit("/com.Harsh.Blaze");
    reveal_strlit("Library/Application Support");
    reveal_strlit("/Library/Application Support/com.Harsh.Blaze");
    if env_override is None {
        match data_dir {
            Some(d) => {
                if d.len() > 0 && d.last() != '/' {
                    assert(spec_path_join(d, APP_DIR_NAME@) =~= d + "/com.Harsh.Blaze"@);
                }
            },
            None => {
                match home_dir {
                    Some(h) => {
                        if h.len() > 0 && h.last() != '/' {
                            let b = spec_path_join(h, HOME_DATA_SUBDIR@);
                            assert(b =~= h + seq!['/'] + "Library/Application Support"@);
                            assert(b.last() == 't');
                            assert(spec_path_join(b, APP_DIR_NAME@) =~= h
                                + "/Library/Application Support/com.Harsh.Blaze"@);
                        }
                    },
                    None => {},
                }
            },
        }
    }
}

/// `dirs::data_dir`: the platform's data directory for the user, read
/// from the environment (on macOS `$HOME/Library/Application Support`, on
/// Linux `$XDG_DATA_HOME` when it is absolute, else `$HOME/.local/share`),
/// as a string; a path that is not UTF-8 is converted lossily. Which
/// directory comes back depends on the environment and is not stated;
/// what is stated is that a directory given is never empty (an absolute
/// path, or one joined onto a home directory that is itself never empty).
#[verifier::external_body]
fn platform_data_dir() -> (r: Option<String>)
    ensures
        r matches Some(s) ==> s@.len() > 0,
{
    match dirs::data_dir() {
        Some(p) => Some(p.to_string_lossy().into_owned()),
        None => None,
    }
}

/// `dirs::home_dir`: the user's home directory (`$HOME` when it is not
/// empty, else the password database entry when that is not empty), as
/// a string; a path that is not UTF-8 is converted lossily. Which
/// directory comes back depends on the environment and is not stated;
/// what is stated is that a directory given is never empty.
#[verifier::external_body]
fn platform_home_dir() -> (r: Option<String>)
    ensures
        r matches Some(s) ==> s@.len() > 0,
{
    match dirs::home_dir() {
        Some(p) => Some(p.to_string_lossy().into_owned()),
        None => None,
    }
}

/// The data directory, where the database and the search index live:
/// the `BLAZE_DATA_DIR` override `env_override` when it is set, otherwise
/// the application's directory inside the platform data directory (the
/// home directory is asked only when there is none).
pub fn app_data_dir(env_override: Option<String>) -> (r: String)
    ensures
        env_override matches Some(p) ==> r@ == p@,
        env_override is None ==> exists|d: Option<Seq<char>>, h: Option<Seq<char>>|
            {
                &&& (d matches Some(x) ==> x.len() > 0)
                &&& (h matches Some(y) ==> y.len() > 0)
                &&& r@ == spec_app_data_dir(None, d, h)
            },
{
    let ghost ev = opt_view(env_override);
    if env_override.is_some() {
        let r = resolve_app_data_dir(env_override, None, None);
        assert(r@ == spec_app_data_dir(ev, None, None));
        return r;
    }
    let data_dir = platform_data_dir();
    let home_dir = if data_dir.is_none() {
        platform_home_dir()
    } else {
        None
    };
    let ghost d = opt_view(data_dir);
    let ghost h = opt_view(home_dir);
    let r = resolve_app_data_dir(env_override, data_dir, home_dir);
    assert(r@ == spec_app_data_dir(None, d, h));
    assert(d matches Some(x) ==> x.len() > 0);
    assert(h matches Some(y) ==> y.len() > 0);
    r
}

/// Where the search index lives inside the data directory.
pub fn index_dir(data_dir: &str) -> (r: String)
    ensures
        r@ == spec_path_join(data_dir@, "db/tantivy"@),
{
    path_join(data_dir, "db/tantivy")
}

/// Where the database lives relative to a working directory.
pub const DB_RELATIVE_PATH: &'static str = ".db/main.db";

/// The places the database is looked for, in order, from the working
/// directory `cwd`: `.db/main.db` under it, then under its parent.
pub fn db_path_candidates(cwd: &str) -> (r: (String, String))
    ensures
        r.0@ == spec_path_join(cwd@, ".db/main.db"@),
        r.1@ == spec_path_join(cwd@, "../.db/main.db"@),
{
    (path_join(cwd, DB_RELATIVE_PATH), path_join(cwd, "../.db/main.db"))
}

/// Chooses the database path: the `BLAZE_DB_PATH` override `env_override`
/// when set; else the first candidate whose directory exists; else the
/// first candidate.
pub fn select_db_path(
    env_override: Option<String>,
    candidates: (String, String),
    first_dir_exists: bool,
    second_dir_exists: bool,
) -> (r: String)
    ensures
        r@ == (match env_override {
            Some(p) => p@,
            None => if !first_dir_exists && second_dir_exists {
                candidates.1@
            } else {
                candidates.0@
            },
        }),
{
    match env_override {
        Some(p) => p,
        None => {
            let (first, second) = candidates;
            if !first_dir_exists && second_dir_exists {
                second
            } else {
                first
            }
        },
    }
}

} // verus!
