use vstd::prelude::*;

verus! {

/// One component of a Unix path, as a value.
pub enum PathComp {
    Root,
    Cur,
    Parent,
    Normal(Seq<char>),
}

/// One component of a Unix path.
pub enum PathComponent {
    RootDir,
    CurDir,
    ParentDir,
    Normal(String),
}

impl View for PathComponent {
    type V = PathComp;

    open spec fn view(&self) -> PathComp {
        match self {
            PathComponent::RootDir => PathComp::Root,
            PathComponent::CurDir => PathComp::Cur,
            PathComponent::ParentDir => PathComp::Parent,
            PathComponent::Normal(s) => PathComp::Normal(s@),
        }
    }
}

pub open spec fn comps_view(v: Seq<PathComponent>) -> Seq<PathComp> {
    v.map_values(|c: PathComponent| c@)
}

/// The pieces of `p` between separators, empty ones included:
/// `"/a//b"` gives `["", "a", "", "b"]`.
pub open spec fn split_path(p: Seq<char>) -> Seq<Seq<char>>
    decreases p.len(),
{
    if p.len() == 0 {
        seq![Seq::<char>::empty()]
    } else {
        let init = split_path(p.drop_last());
        if p.last() == '/' {
            init.push(Seq::<char>::empty())
        } else {
            init.update(init.len() - 1, init.last().push(p.last()))
        }
    }
}

/// What one piece between separators contributes: nothing for an empty
/// piece or `.`, a parent step for `..`, a name otherwise.
pub open spec fn segment_component(seg: Seq<char>) -> Option<PathComp> {
    if seg.len() == 0 || seg =~= seq!['.'] {
        None
    } else if seg =~= seq!['.', '.'] {
        Some(PathComp::Parent)
    } else {
        Some(PathComp::Normal(seg))
    }
}

pub open spec fn segments_components(segs: Seq<Seq<char>>) -> Seq<PathComp>
    decreases segs.len(),
{
    if segs.len() == 0 {
        seq![]
    } else {
        let init = segments_components(segs.drop_last());
        match segment_component(segs.last()) {
            Some(c) => init.push(c),
            None => init,
        }
    }
}

pub open spec fn has_root(p: Seq<char>) -> bool {
    p.len() > 0 && p[0] == '/'
}

pub open spec fn has_leading_cur(p: Seq<char>) -> bool {
    &&& !has_root(p)
    &&& p.len() > 0
    &&& p[0] == '.'
    &&& (p.len() == 1 || p[1] == '/')
}

/// The components of a Unix path: a root if it starts with `/`, a
/// current-directory step if it starts with `./` or is `.`, then one
/// component for each piece between separators that is neither empty
/// nor `.`.
pub open spec fn components(p: Seq<char>) -> Seq<PathComp> {
    (if has_root(p) {
        seq![PathComp::Root]
    } else {
        Seq::<PathComp>::empty()
    }) + (if has_leading_cur(p) {
        seq![PathComp::Cur]
    } else {
        Seq::<PathComp>::empty()
    }) + segments_components(split_path(p))
}

/// `base`'s components are the first components of `p`.
pub open spec fn path_starts_with(p: Seq<char>, base: Seq<char>) -> bool {
    let c = components(p);
    let b = components(base);
    b.len() <= c.len() && c.subrange(0, b.len() as int) =~= b
}

/// The last component of `p`, if it is a name.
pub open spec fn spec_file_name(p: Seq<char>) -> Option<Seq<char>> {
    let c = components(p);
    if c.len() > 0 && c.last() is Normal {
        Some(c.last()->Normal_0)
    } else {
        None
    }
}

/// `rel` appended to `base` the way a path buffer joins them: an
/// absolute `rel` replaces `base`; otherwise a separator goes between
/// them unless `base` is empty or already ends in one.
pub open spec fn spec_path_join(base: Seq<char>, rel: Seq<char>) -> Seq<char> {
    if has_root(rel) {
        rel
    } else if base.len() == 0 || base.last() == '/' {
        base + rel
    } else {
        base + seq!['/'] + rel
    }
}

/// A directory path and an entry name put together as the database
/// stores them.
pub open spec fn spec_join_path(parent: Seq<char>, name: Seq<char>) -> Seq<char> {
    if parent.len() == 0 {
        name
    } else if parent =~= seq!['/'] {
        seq!['/'] + name
    } else {
        parent + seq!['/'] + name
    }
}

pub open spec fn is_dir_separator(c: char) -> bool {
    c == '/' || c == '\\'
}

/// `p` without any trailing `/` or `\`.
pub open spec fn trim_trailing_separators(p: Seq<char>) -> Seq<char>
    decreases p.len(),
{
    if p.len() > 0 && is_dir_separator(p.last()) {
        trim_trailing_separators(p.drop_last())
    } else {
        p
    }
}

/// A directory path as the database stores it: trailing separators
/// dropped, and the root written `/`.
pub open spec fn spec_normalize_dir_path(p: Seq<char>) -> Seq<char> {
    let t = trim_trailing_separators(p);
    if t.len() == 0 {
        seq!['/']
    } else {
        t
    }
}

proof fn lemma_split_path_nonempty(p: Seq<char>)
    ensures
        split_path(p).len() >= 1,
    decreases p.len(),
{
    if p.len() > 0 {
        lemma_split_path_nonempty(p.drop_last());
    }
}

/// Splitting at a separator: the pieces of `a/b` are those of `a`
/// followed by those of `b`.
pub proof fn lemma_split_path_concat(a: Seq<char>, b: Seq<char>)
    ensures
        split_path(a + seq!['/'] + b) == split_path(a) + split_path(b),
    decreases b.len(),
{
    let ab = a + seq!['/'] + b;
    if b.len() == 0 {
        assert(ab.drop_last() =~= a);
        assert(split_path(a) + split_path(b) =~= split_path(a).push(Seq::<char>::empty()));
    } else {
        let b0 = b.drop_last();
        lemma_split_path_concat(a, b0);
        lemma_split_path_nonempty(b0);
        assert(ab.drop_last() =~= a + seq!['/'] + b0);
        assert(ab.last() == b.last());
        let sa = split_path(a);
        let sb0 = split_path(b0);
        if b.last() == '/' {
            assert((sa + sb0).push(Seq::<char>::empty()) =~= sa + sb0.push(Seq::<char>::empty()));
        } else {
            let sab0 = sa + sb0;
            assert(sab0.update(sab0.len() - 1, sab0.last().push(b.last())) =~= sa + sb0.update(
                sb0.len() - 1,
                sb0.last().push(b.last()),
            ));
        }
    }
}

/// The components of a sequence of pieces are those of its parts.
pub proof fn lemma_segments_components_concat(x: Seq<Seq<char>>, y: Seq<Seq<char>>)
    ensures
        segments_components(x + y) == segments_components(x) + segments_components(y),
    decreases y.len(),
{
    if y.len() == 0 {
        assert(x + y =~= x);
        assert(segments_components(x) + segments_components(y) =~= segments_components(x));
    } else {
        let y0 = y.drop_last();
        lemma_segments_components_concat(x, y0);
        assert((x + y).drop_last() =~= x + y0);
        assert((x + y).last() == y.last());
        match segment_component(y.last()) {
            Some(c) => {
                assert((segments_components(x) + segments_components(y0)).push(c)
                    =~= segments_components(x) + segments_components(y0).push(c));
            },
            None => {},
        }
    }
}

/// The components of a relative path joined onto a non-empty base are
/// those of the base followed by those of the relative path's pieces.
pub proof fn lemma_join_components(base: Seq<char>, rel: Seq<char>)
    requires
        base.len() > 0,
        !has_root(rel),
    ensures
        components(spec_path_join(base, rel)) == components(base) + segments_components(
            split_path(rel),
        ),
{
    let j = spec_path_join(base, rel);
    let a = if base.last() == '/' {
        base.drop_last()
    } else {
        base
    };
    assert(j =~= a + seq!['/'] + rel);
    lemma_split_path_concat(a, rel);
    lemma_segments_components_concat(split_path(a), split_path(rel));
    if base.last() == '/' {
        assert(base.drop_last() =~= a);
        assert(segment_component(Seq::<char>::empty()) is None);
        assert(segments_components(split_path(a).push(Seq::<char>::empty())) =~= segments_components(
            split_path(a),
        )) by {
            assert(split_path(a).push(Seq::<char>::empty()).drop_last() =~= split_path(a));
        }
    }
    assert(j[0] == base[0]);
    if base.len() >= 2 {
        assert(j[1] == base[1]);
    } else if base.last() != '/' {
        assert(j[1] == '/');
    }
    assert(has_root(j) == has_root(base));
    assert(has_leading_cur(j) == has_leading_cur(base));
}

/// A relative path joined onto a base path starts with the base.
pub proof fn lemma_join_starts_with_base(base: Seq<char>, rel: Seq<char>)
    requires
        !has_root(rel),
    ensures
        path_starts_with(spec_path_join(base, rel), base),
{
    if base.len() == 0 {
        let e = seq![Seq::<char>::empty()];
        assert(split_path(base) =~= e);
        assert(e.drop_last() =~= Seq::<Seq<char>>::empty());
        assert(e.last() =~= Seq::<char>::empty());
        assert(segment_component(e.last()) is None);
        assert(segments_components(Seq::<Seq<char>>::empty()) =~= Seq::<PathComp>::empty());
        assert(segments_components(e) =~= Seq::<PathComp>::empty());
        assert(components(base) =~= Seq::<PathComp>::empty());
    } else {
        lemma_join_components(base, rel);
        let c = components(spec_path_join(base, rel));
        let b = components(base);
        assert(c.subrange(0, b.len() as int) =~= b);
    }
}

/// A piece that names an entry: not empty, not `.` and not `..`.
pub open spec fn is_name_piece(seg: Seq<char>) -> bool {
    seg.len() > 0 && !(seg =~= seq!['.']) && !(seg =~= seq!['.', '.'])
}

/// A plain path: every piece between separators names an entry, except
/// the empty piece before the leading `/` of an absolute path. So it
/// has no trailing or doubled separator and no `.` or `..` step: `/a/b`
/// and `a/b` are plain; `/`, `a/`, `a//b`, `./a` and `a/../b` are not.
pub open spec fn plain_path(p: Seq<char>) -> bool {
    let pieces = split_path(p);
    forall|i: int|
        0 <= i < pieces.len() ==> is_name_piece(#[trigger] pieces[i]) || (i == 0 && has_root(p))
}

/// The position of the last `/` in `p`, or -1 when there is none.
pub open spec fn last_separator(p: Seq<char>) -> int
    decreases p.len(),
{
    if p.len() == 0 {
        -1
    } else if p.last() == '/' {
        p.len() - 1
    } else {
        last_separator(p.drop_last())
    }
}

/// `p` without its final component, for a plain path: what comes before
/// its last separator, `/` when that is the root, and the empty path
/// when there is no separator.
pub open spec fn lexical_parent(p: Seq<char>) -> Seq<char> {
    let k = last_separator(p);
    if k < 0 {
        Seq::<char>::empty()
    } else if k == 0 {
        seq!['/']
    } else {
        p.take(k)
    }
}

proof fn lemma_last_separator(p: Seq<char>)
    ensures
        -1 <= last_separator(p) < p.len(),
        last_separator(p) >= 0 ==> p[last_separator(p)] == '/',
        forall|i: int| last_separator(p) < i < p.len() ==> p[i] != '/',
    decreases p.len(),
{
    if p.len() > 0 && p.last() != '/' {
        lemma_last_separator(p.drop_last());
        assert forall|i: int| last_separator(p) < i < p.len() implies p[i] != '/' by {
            if i < p.len() - 1 {
                assert(p[i] == p.drop_last()[i]);
            }
        }
    }
}

proof fn lemma_split_path_no_separator(q: Seq<char>)
    requires
        forall|i: int| 0 <= i < q.len() ==> q[i] != '/',
    ensures
        split_path(q) == seq![q],
    decreases q.len(),
{
    if q.len() > 0 {
        let q0 = q.drop_last();
        assert forall|i: int| 0 <= i < q0.len() implies q0[i] != '/' by {
            assert(q0[i] == q[i]);
        }
        lemma_split_path_no_separator(q0);
        assert(q[q.len() - 1] != '/');
        assert(q0.push(q.last()) =~= q);
        assert(seq![q0].update(0, q0.push(q.last())) =~= seq![q]);
    } else {
        assert(q =~= Seq::<char>::empty());
    }
}

/// A plain path is its parent and its name put back together: its last
/// component is the name after its last separator, and joining that name
/// onto the path without its final component gives the path again.
pub proof fn lemma_plain_path_parent_and_name(p: Seq<char>)
    requires
        plain_path(p),
    ensures
        spec_file_name(p) == Some(split_path(p).last()),
        spec_join_path(lexical_parent(p), split_path(p).last()) == p,
{
    lemma_last_separator(p);
    lemma_split_path_nonempty(p);
    let k = last_separator(p);
    let pieces = split_path(p);
    if k < 0 {
        lemma_split_path_no_separator(p);
        assert(pieces =~= seq![p]);
        assert(is_name_piece(pieces[0]) || has_root(p));
        assert(!has_root(p));
        assert(is_name_piece(p));
        assert(!has_leading_cur(p)) by {
            if p.len() > 1 {
                assert(p[1] != '/');
            }
        }
        assert(seq![p].drop_last() =~= Seq::<Seq<char>>::empty());
        assert(seq![p].last() == p);
        assert(segments_components(Seq::<Seq<char>>::empty()) =~= Seq::<PathComp>::empty());
        assert(segment_component(p) == Some(PathComp::Normal(p)));
        assert(segments_components(seq![p]) =~= seq![PathComp::Normal(p)]);
        assert(components(p) =~= seq![PathComp::Normal(p)]);
    } else {
        let a = p.take(k);
        let b = p.skip(k + 1);
        assert(p =~= a + seq!['/'] + b);
        assert forall|i: int| 0 <= i < b.len() implies b[i] != '/' by {
            assert(b[i] == p[k + 1 + i]);
        }
        lemma_split_path_concat(a, b);
        lemma_split_path_no_separator(b);
        lemma_split_path_nonempty(a);
        let sa = split_path(a);
        assert(pieces =~= sa.push(b));
        assert(pieces.last() == b);
        assert(is_name_piece(pieces[pieces.len() - 1]));
        assert(is_name_piece(b));
        assert(pieces.drop_last() =~= sa);
        let segs = segments_components(pieces);
        assert(segs =~= segments_components(sa).push(PathComp::Normal(b)));
        assert(components(p).last() == PathComp::Normal(b));
        if k > 0 {
            assert(a.len() > 0);
            if a =~= seq!['/'] {
                let slash = seq!['/'];
                assert(slash.drop_last() =~= Seq::<char>::empty());
                assert(slash.last() == '/');
                assert(split_path(Seq::<char>::empty()) =~= seq![Seq::<char>::empty()]);
                assert(split_path(slash) =~= split_path(slash.drop_last()).push(Seq::<char>::empty()));
                assert(split_path(seq!['/']) =~= seq![Seq::<char>::empty(), Seq::<char>::empty()]);
                assert(pieces[1] =~= Seq::<char>::empty());
                assert(!is_name_piece(pieces[1]));
                assert(false);
            }
            assert(lexical_parent(p) == a);
        } else {
            assert(a =~= Seq::<char>::empty());
            assert(seq!['/'] + b =~= p);
        }
    }
}

proof fn lemma_split_path_step(p: Seq<char>, i: int)
    requires
        0 <= i < p.len(),
    ensures
        p.take(i + 1).drop_last() =~= p.take(i),
        p.take(i + 1).last() == p[i],
        p.take(i + 1).len() == i + 1,
{
}

fn segment_to_component(seg: &str) -> (r: Option<PathComponent>)
    ensures
        match r {
            Some(c) => segment_component(seg@) == Some(c@),
            None => segment_component(seg@) is None,
        },
{
    let n = seg.unicode_len();
    if n == 0 {
        return None;
    }
    if n == 1 && seg.get_char(0) == '.' {
        assert(seg@ =~= seq!['.']);
        return None;
    }
    if n == 2 && seg.get_char(0) == '.' && seg.get_char(1) == '.' {
        assert(seg@ =~= seq!['.', '.']);
        return Some(PathComponent::ParentDir);
    }
    assert(!(seg@ =~= seq!['.']) && !(seg@ =~= seq!['.', '.'])) by {
        if seg@ =~= seq!['.'] {
            assert(seg@[0] == '.');
        }
        if seg@ =~= seq!['.', '.'] {
            assert(seg@[0] == '.' && seg@[1] == '.');
        }
    }
    Some(PathComponent::Normal(String::from_str(seg)))
}

/// Splits a Unix path into its components.
pub fn path_components(path: &str) -> (r: Vec<PathComponent>)
    ensures
        comps_view(r@) == components(path@),
{
    let n = path.unicode_len();
    let mut out: Vec<PathComponent> = Vec::new();
    if n > 0 && path.get_char(0) == '/' {
        out.push(PathComponent::RootDir);
    } else if n > 0 && path.get_char(0) == '.' && (n == 1 || path.get_char(1) == '/') {
        out.push(PathComponent::CurDir);
    }
    let ghost p = path@;
    let ghost prefix = comps_view(out@);
    assert(prefix =~= (if has_root(p) {
        seq![PathComp::Root]
    } else {
        Seq::<PathComp>::empty()
    }) + (if has_leading_cur(p) {
        seq![PathComp::Cur]
    } else {
        Seq::<PathComp>::empty()
    }));
    let mut start: usize = 0;
    let mut i: usize = 0;
    let ghost mut done: Seq<Seq<char>> = seq![];
    assert(p.take(0) =~= Seq::<char>::empty());
    assert(p.subrange(0, 0) =~= Seq::<char>::empty());
    assert(comps_view(out@) =~= prefix + segments_components(done));
    while i < n
        invariant
            n == p.len(),
            p == path@,
            start <= i <= n,
            split_path(p.take(i as int)) =~= done.push(p.subrange(start as int, i as int)),
            comps_view(out@) =~= prefix + segments_components(done),
        decreases n - i,
    {
        let c = path.get_char(i);
        proof {
            lemma_split_path_step(p, i as int);
        }
        if c == '/' {
            let seg = path.substring_char(start, i);
            let comp = segment_to_component(seg);
            let ghost old_out = comps_view(out@);
            match comp {
                Some(x) => {
                    out.push(x);
                    assert(comps_view(out@) =~= old_out.push(x@));
                },
                None => {},
            }
            proof {
                let nd = done.push(seg@);
                assert(nd.drop_last() =~= done);
                assert(nd.last() == seg@);
                assert(comps_view(out@) =~= prefix + segments_components(nd));
                done = nd;
                assert(p.subrange(i as int + 1, i as int + 1) =~= Seq::<char>::empty());
            }
            start = i + 1;
        } else {
            proof {
                assert(p.subrange(start as int, i as int + 1) =~= p.subrange(
                    start as int,
                    i as int,
                ).push(p[i as int]));
            }
        }
        i = i + 1;
    }
    let seg = path.substring_char(start, n);
    let comp = segment_to_component(seg);
    let ghost old_out = comps_view(out@);
    match comp {
        Some(x) => {
            out.push(x);
            assert(comps_view(out@) =~= old_out.push(x@));
        },
        None => {},
    }
    proof {
        let nd = done.push(seg@);
        assert(nd.drop_last() =~= done);
        assert(nd.last() == seg@);
        assert(p.take(n as int) =~= p);
        assert(comps_view(out@) =~= prefix + segments_components(nd));
    }
    out
}


fn component_eq(a: &PathComponent, b: &PathComponent) -> (r: bool)
    ensures
        r == (a@ == b@),
{
    match (a, b) {
        (PathComponent::RootDir, PathComponent::RootDir) => true,
        (PathComponent::CurDir, PathComponent::CurDir) => true,
        (PathComponent::ParentDir, PathComponent::ParentDir) => true,
        (PathComponent::Normal(x), PathComponent::Normal(y)) => {
            let e = x.eq(y);
            proof {
                if !e {
                    assert(a@->Normal_0 != b@->Normal_0);
                }
            }
            e
        },
        _ => false,
    }
}

/// Whether `base` is a leading part of `path`, component by component:
/// `/a/b` starts with `/a` but not with `/a/b2` or `/a/bc`.
pub fn starts_with_path(path: &str, base: &str) -> (r: bool)
    ensures
        r == path_starts_with(path@, base@),
{
    let c = path_components(path);
    let b = path_components(base);
    let ghost cv = comps_view(c@);
    let ghost bv = comps_view(b@);
    if b.len() > c.len() {
        return false;
    }
    let mut i: usize = 0;
    while i < b.len()
        invariant
            b.len() <= c.len(),
            i <= b.len(),
            cv == comps_view(c@),
            bv == comps_view(b@),
            cv == components(path@),
            bv == components(base@),
            forall|j: int| 0 <= j < i ==> cv[j] == bv[j],
        decreases b.len() - i,
    {
        let same = component_eq(&c[i], &b[i]);
        assert(cv[i as int] == c@[i as int]@ && bv[i as int] == b@[i as int]@);
        if !same {
            assert(cv.subrange(0, bv.len() as int)[i as int] != bv[i as int]);
            return false;
        }
        i = i + 1;
    }
    assert(cv.subrange(0, bv.len() as int) =~= bv);
    true
}

/// The last component of `path`, if it is a name: `/a/b.txt` gives
/// `b.txt`, `/a/b/` gives `b`, and `/`, `..` or the empty path give none.
pub fn file_name(path: &str) -> (r: Option<String>)
    ensures
        match r {
            Some(s) => spec_file_name(path@) == Some(s@),
            None => spec_file_name(path@) is None,
        },
{
    let mut c = path_components(path);
    let ghost cv = comps_view(c@);
    let len = c.len();
    if len == 0 {
        return None;
    }
    let last = c.pop().unwrap();
    assert(cv.last() == last@);
    match last {
        PathComponent::Normal(s) => Some(s),
        _ => None,
    }
}

/// `rel` joined onto `base` as a path buffer joins them.
pub fn path_join(base: &str, rel: &str) -> (r: String)
    ensures
        r@ == spec_path_join(base@, rel@),
{
    let rn = rel.unicode_len();
    if rn > 0 && rel.get_char(0) == '/' {
        return String::from_str(rel);
    }
    let bn = base.unicode_len();
    let mut out = String::from_str(base);
    if bn > 0 && base.get_char(bn - 1) != '/' {
        out.append("/");
        proof {
            reveal_strlit("/");
        }
    }
    out.append(rel);
    proof {
        if bn > 0 && base@.last() != '/' {
            assert(out@ =~= base@ + seq!['/'] + rel@);
        }
    }
    out
}

/// A directory path and an entry name put together: the name alone
/// under an empty directory, `/name` under the root, `dir/name` otherwise.
pub fn join_path(parent: &str, name: &str) -> (r: String)
    ensures
        r@ == spec_join_path(parent@, name@),
{
    let pn = parent.unicode_len();
    if pn == 0 {
        return String::from_str(name);
    }
    let mut out = String::from_str(parent);
    if pn == 1 && parent.get_char(0) == '/' {
        assert(parent@ =~= seq!['/']);
        out.append(name);
        return out;
    } else {
        assert(!(parent@ =~= seq!['/'])) by {
            if parent@ =~= seq!['/'] {
                assert(parent@[0] == '/');
            }
        }
    }
    out.append("/");
    out.append(name);
    proof {
        reveal_strlit("/");
        assert(out@ =~= parent@ + seq!['/'] + name@);
    }
    out
}

/// A directory path as the database stores it: trailing `/` and `\`
/// dropped, and `/` when nothing is left.
pub fn normalize_dir_path(path: &str) -> (r: String)
    ensures
        r@ == spec_normalize_dir_path(path@),
{
    let n = path.unicode_len();
    let mut end: usize = n;
    assert(path@.take(n as int) =~= path@);
    while end > 0 && (path.get_char(end - 1) == '/' || path.get_char(end - 1) == '\\')
        invariant
            n == path@.len(),
            end <= n,
            trim_trailing_separators(path@) == trim_trailing_separators(path@.take(end as int)),
        decreases end,
    {
        assert(path@.take(end as int).drop_last() =~= path@.take(end as int - 1));
        end = end - 1;
    }
    assert(trim_trailing_separators(path@.take(end as int)) == path@.take(end as int));
    if end == 0 {
        proof {
            reveal_strlit("/");
        }
        return String::from_str("/");
    }
    let t = path.substring_char(0, end);
    assert(t@ =~= path@.take(end as int));
    String::from_str(t)
}

/// The `LIKE` pattern that matches every path strictly under `path`.
pub fn subtree_like_pattern(path: &str) -> (r: String)
    ensures
        r@ == path@ + seq!['/', '%'],
{
    let mut out = String::from_str(path);
    out.append("/%");
    proof {
        reveal_strlit("/%");
    }
    out
}

} // verus!
