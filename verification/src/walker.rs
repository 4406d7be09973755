use vstd::prelude::*;

use crate::paths::{
    comps_view, components, path_components, path_starts_with, starts_with_path, spec_file_name,
    file_name, has_root, lemma_join_starts_with_base, lemma_plain_path_parent_and_name,
    lexical_parent, plain_path, spec_join_path, spec_path_join, PathComponent,
};
use crate::types::FileEntry;
use std::collections::hash_map::DefaultHasher;
use std::hash::Hasher;
use vstd::std_specs::hash::DefaultHasherAdditionalSpecFns;

verus! {

/// A directory name that is never indexed: a build artefact or a cache.
pub open spec fn is_listed_ignored_dir(name: Seq<char>) -> bool {
    name == "__pycache__"@ || name == "node_modules"@
}

/// A name that is never indexed: a hidden name (starting with `.`) or a
/// listed directory name.
pub open spec fn is_ignored_name(name: Seq<char>) -> bool {
    (name.len() > 0 && name[0] == '.') || is_listed_ignored_dir(name)
}

/// A path that is never indexed: one with an ignored name among its
/// components, or one inside the data directory `data_dir`, where the
/// index itself is kept.
pub open spec fn is_ignored_path(path: Seq<char>, data_dir: Seq<char>) -> bool {
    let c = components(path);
    ||| exists|i: int| 0 <= i < c.len() && #[trigger] c[i] is Normal && is_ignored_name(c[i]->Normal_0)
    ||| path_starts_with(path, data_dir)
}

/// The data store is never indexed: every path inside the data
/// directory (a relative path joined onto it) is ignored, and so is the
/// data directory itself.
pub proof fn lemma_data_dir_contents_ignored(data_dir: Seq<char>, rel: Seq<char>)
    requires
        !has_root(rel),
    ensures
        is_ignored_path(spec_path_join(data_dir, rel), data_dir),
        is_ignored_path(data_dir, data_dir),
{
    lemma_join_starts_with_base(data_dir, rel);
    let c = components(data_dir);
    assert(c.subrange(0, c.len() as int) =~= c);
}

/// The names never indexed are exactly the hidden ones (starting with
/// `.`), `__pycache__` and `node_modules`; and a path is excluded exactly
/// when one of its name components is such a name or it lies inside the
/// data directory. So a single such component anywhere excludes the path.
pub proof fn lemma_ignored_names_exclude_paths(path: Seq<char>, data_dir: Seq<char>)
    ensures
        forall|n: Seq<char>|
            #[trigger] is_ignored_name(n) <==> ((n.len() > 0 && n[0] == '.') || n == "__pycache__"@
                || n == "node_modules"@),
        forall|i: int|
            0 <= i < components(path).len() && (#[trigger] components(path)[i]) is Normal && ((
            components(path)[i]->Normal_0.len() > 0 && components(path)[i]->Normal_0[0] == '.')
                || components(path)[i]->Normal_0 == "__pycache__"@ || components(path)[i]->Normal_0
                == "node_modules"@) ==> is_ignored_path(path, data_dir),
        path_starts_with(path, data_dir) ==> is_ignored_path(path, data_dir),
        is_ignored_path(path, data_dir) && !path_starts_with(path, data_dir) ==> exists|i: int|
            0 <= i < components(path).len() && (#[trigger] components(path)[i]) is Normal && ((
            components(path)[i]->Normal_0.len() > 0 && components(path)[i]->Normal_0[0] == '.')
                || components(path)[i]->Normal_0 == "__pycache__"@ || components(path)[i]->Normal_0
                == "node_modules"@),
{
    let c = components(path);
    assert forall|i: int|
        0 <= i < c.len() && (#[trigger] c[i]) is Normal && ((c[i]->Normal_0.len() > 0
            && c[i]->Normal_0[0] == '.') || c[i]->Normal_0 == "__pycache__"@ || c[i]->Normal_0
            == "node_modules"@) implies is_ignored_path(path, data_dir) by {
        assert(is_ignored_name(c[i]->Normal_0));
    }
}

fn is_listed_ignored_dir_exec(name: &str) -> (r: bool)
    ensures
        r == is_listed_ignored_dir(name@),
{
    let n = String::from_str(name);
    let a = String::from_str("__pycache__");
    let b = String::from_str("node_modules");
    n.eq(&a) || n.eq(&b)
}

/// Whether a directory (or any path component) named `name` is excluded
/// from the index: hidden names and the listed build and cache directories.
pub fn should_ignore_dir(name: &str) -> (r: bool)
    ensures
        r == is_ignored_name(name@),
{
    let hidden = name.unicode_len() > 0 && name.get_char(0) == '.';
    hidden || is_listed_ignored_dir_exec(name)
}

/// Whether `path` is excluded from the index: some component of it is an
/// excluded name (which covers hidden files such as `.env` as well as
/// hidden or listed directories above them), or it lies inside the data
/// directory `data_dir`, which holds the database and the search index.
pub fn should_ignore_path(path: &str, data_dir: &str) -> (r: bool)
    ensures
        r == is_ignored_path(path@, data_dir@),
{
    let comps = path_components(path);
    let ghost cv = comps_view(comps@);
    let mut i: usize = 0;
    while i < comps.len()
        invariant
            i <= comps.len(),
            cv == comps_view(comps@),
            cv == components(path@),
            forall|j: int| 0 <= j < i ==> !(#[trigger] cv[j] is Normal && is_ignored_name(cv[j]->Normal_0)),
        decreases comps.len() - i,
    {
        assert(cv[i as int] == comps@[i as int]@);
        match &comps[i] {
            PathComponent::Normal(name) => {
                if should_ignore_dir(name.as_str()) {
                    return true;
                }
            },
            _ => {},
        }
        i = i + 1;
    }
    starts_with_path(path, data_dir)
}

/// What hashing a string (`<str as Hash>::hash`) writes into a hasher:
/// the sequence of byte strings it hands to the hasher's `write`.
pub uninterp spec fn str_hash_writes(s: Seq<char>) -> Seq<Seq<u8>>;

/// `<str as Hash>::hash`: feeds `s` to the hasher `h`. What it writes
/// (the string's bytes, then a terminating byte) is named, not stated;
/// it depends on the string alone.
#[verifier::external_body]
fn hash_str(s: &str, h: &mut DefaultHasher)
    ensures
        final(h)@ == old(h)@ + str_hash_writes(s@),
{
    std::hash::Hash::hash(s, h)
}

/// The hash of `path` under a fresh, unkeyed `DefaultHasher`.
pub open spec fn path_hash(path: Seq<char>) -> u64 {
    DefaultHasher::spec_finish(str_hash_writes(path))
}

/// The id under which the index stores `path`: its hash under a fresh
/// `DefaultHasher` (which carries no per-process key, so equal paths get
/// equal ids), read as a signed integer.
pub fn generate_id(path: &str) -> (id: i64)
    ensures
        id == path_hash(path@) as i64,
{
    let mut hasher = DefaultHasher::new();
    hash_str(path, &mut hasher);
    assert(hasher@ =~= str_hash_writes(path@));
    let h = hasher.finish();
    h as i64
}

/// The kind recorded for an entry, from what its file type says.
pub open spec fn spec_file_kind(is_file: bool, is_dir: bool, is_symlink: bool) -> Seq<char> {
    if is_file {
        "file"@
    } else if is_dir {
        "dir"@
    } else if is_symlink {
        "symlink"@
    } else {
        "unknown"@
    }
}

/// The kind recorded for an entry: `file`, `dir`, `symlink` or `unknown`,
/// in that order of precedence.
pub fn file_kind(is_file: bool, is_dir: bool, is_symlink: bool) -> (kind: &'static str)
    ensures
        kind@ == spec_file_kind(is_file, is_dir, is_symlink),
{
    if is_file {
        "file"
    } else if is_dir {
        "dir"
    } else if is_symlink {
        "symlink"
    } else {
        "unknown"
    }
}

/// The modification time recorded for an entry: whole seconds since the
/// Unix epoch, when the file system gave one after the epoch.
pub fn modified_timestamp(secs_since_epoch: Option<u64>) -> (r: Option<i64>)
    ensures
        match secs_since_epoch {
            Some(s) => r == Some(s as i64),
            None => r is None,
        },
{
    match secs_since_epoch {
        Some(s) => Some(s as i64),
        None => None,
    }
}

/// What `Path::parent` gives for a path.
pub uninterp spec fn std_path_parent(path: Seq<char>) -> Option<Seq<char>>;

/// `Path::parent` of `path`, as a string. The parent of a UTF-8 path is a
/// leading slice of it ending at a separator, so the conversion back to a
/// string loses nothing. The result is named; of a plain path (see
/// `plain_path`) it is stated, as the documentation gives it: the path
/// without its final component (`/foo/bar` gives `/foo`, `/foo` gives
/// `/`, and `foo` gives the empty path). For other paths (trailing or
/// doubled separators, `.` steps) what is dropped is left to the name.
#[verifier::external_body]
fn path_parent(path: &str) -> (r: Option<String>)
    ensures
        match r {
            Some(s) => std_path_parent(path@) == Some(s@),
            None => std_path_parent(path@) is None,
        },
        plain_path(path@) ==> r is Some && r->0@ == lexical_parent(path@),
{
    match std::path::Path::new(path).parent() {
        Some(p) => Some(p.to_string_lossy().into_owned()),
        None => None,
    }
}

/// The parent directory recorded for `path`: its parent, or the empty
/// string when it has none.
pub open spec fn recorded_parent(path: Seq<char>) -> Seq<char> {
    match std_path_parent(path) {
        Some(q) => q,
        None => Seq::<char>::empty(),
    }
}

/// The parent directory recorded for `path`.
pub fn parent_or_empty(path: &str) -> (r: String)
    ensures
        r@ == recorded_parent(path@),
        plain_path(path@) ==> r@ == lexical_parent(path@),
{
    match path_parent(path) {
        Some(p) => p,
        None => String::new(),
    }
}

/// `e` is the entry recorded for `path`, a file of `size` bytes last
/// modified `modified_secs` after the epoch, of kind `kind`.
pub open spec fn entry_describes(
    e: FileEntry,
    path: Seq<char>,
    size: u64,
    modified_secs: Option<u64>,
    kind: Seq<char>,
    indexed: i32,
) -> bool {
    &&& spec_file_name(path) == Some(e.name@)
    &&& e.id == path_hash(path) as i64
    &&& e.path@ == path
    &&& e.parent@ == recorded_parent(path)
    &&& e.size == Some(size)
    &&& e.modified == (match modified_secs {
        Some(s) => Some(s as i64),
        None => None,
    })
    &&& e.kind@ == kind
    &&& e.indexed == indexed
}

/// The entry recorded for `path`, whose file system data is `size`
/// bytes, `modified_secs` and `kind`: none when the path does not end in
/// a name.
pub fn file_entry_from_path(
    path: &str,
    size: u64,
    modified_secs: Option<u64>,
    kind: &str,
    indexed: i32,
) -> (r: Option<FileEntry>)
    ensures
        match r {
            None => spec_file_name(path@) is None,
            Some(e) => entry_describes(e, path@, size, modified_secs, kind@, indexed),
        },
        plain_path(path@) ==> (r matches Some(e) && spec_join_path(e.parent@, e.name@) == path@),
{
    proof {
        if plain_path(path@) {
            lemma_plain_path_parent_and_name(path@);
        }
    }
    let parent = parent_or_empty(path);
    let name = match file_name(path) {
        Some(n) => n,
        None => {
            return None;
        },
    };
    Some(
        FileEntry {
            id: generate_id(path),
            path: String::from_str(path),
            parent,
            name,
            size: Some(size),
            modified: modified_timestamp(modified_secs),
            kind: String::from_str(kind),
            indexed,
        },
    )
}

/// Whether the walk keeps (and, for a directory, descends into) the child
/// at `child_path` named `name`: never inside the data directory, and
/// never into a listed build or cache directory.
pub fn keep_walk_child(child_path: &str, name: &str, is_dir: bool, data_dir: &str) -> (r: bool)
    ensures
        r == (!path_starts_with(child_path@, data_dir@) && (!is_dir || !is_listed_ignored_dir(
            name@,
        ))),
{
    if starts_with_path(child_path, data_dir) {
        return false;
    }
    !is_dir || !is_listed_ignored_dir_exec(name)
}

} // verus!
