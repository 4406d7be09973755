use vstd::prelude::*;

use crate::paths::{join_path, spec_join_path};
use crate::types::FileEntry;
use vstd::utf8::encode_utf8;

verus! {

/// How many entries one bulk transaction writes.
pub const BATCH_SIZE: usize = 1000;

/// The ranges `[start, end)` of the entries that each bulk transaction
/// writes, in order: they cover `0..len` without overlap, and each holds
/// `BATCH_SIZE` entries but the last, which holds the rest.
pub fn batch_bounds(len: usize) -> (r: Vec<(usize, usize)>)
    ensures
        r@.len() == (len + BATCH_SIZE - 1) / BATCH_SIZE as int,
        forall|k: int|
            0 <= k < r@.len() ==> #[trigger] r@[k].0 == k * BATCH_SIZE && r@[k].1 == (if (k + 1)
                * BATCH_SIZE <= len {
                (k + 1) * BATCH_SIZE
            } else {
                len as int
            }),
{
    let mut r: Vec<(usize, usize)> = Vec::new();
    let mut start: usize = 0;
    while start < len
        invariant
            start <= len,
            start == (if r@.len() * BATCH_SIZE <= len {
                r@.len() * BATCH_SIZE
            } else {
                len as int
            }),
            forall|k: int| 0 <= k < r@.len() ==> #[trigger] r@[k].0 < len,
            forall|k: int|
                0 <= k < r@.len() ==> #[trigger] r@[k].0 == k * BATCH_SIZE && r@[k].1 == (if (k
                    + 1) * BATCH_SIZE <= len {
                    (k + 1) * BATCH_SIZE
                } else {
                    len as int
                }),
        decreases len - start,
    {
        let end = if len - start >= BATCH_SIZE {
            start + BATCH_SIZE
        } else {
            len
        };
        let ghost old_r = r@;
        assert(start == r@.len() * BATCH_SIZE);
        r.push((start, end));
        assert(forall|k: int| 0 <= k < old_r.len() ==> r@[k] == old_r[k]);
        start = end;
    }
    assert(r@.len() == (len + BATCH_SIZE - 1) / BATCH_SIZE as int) by {
        let n = r@.len() as int;
        if n > 0 {
            assert(r@[n - 1].0 < len);
        }
    }
    r
}

/// A size as the database stores it: the same 64 bits, read as signed.
pub fn size_to_sql(size: Option<u64>) -> (r: Option<i64>)
    ensures
        match size {
            Some(s) => r == Some(s as i64),
            None => r is None,
        },
{
    match size {
        Some(s) => Some(s as i64),
        None => None,
    }
}

/// A size as read back from the database: the same 64 bits, read as
/// unsigned.
pub fn size_from_sql(size: Option<i64>) -> (r: Option<u64>)
    ensures
        match size {
            Some(s) => r == Some(s as u64),
            None => r is None,
        },
{
    match size {
        Some(s) => Some(s as u64),
        None => None,
    }
}

/// A size read back from the database is the size that was written.
pub proof fn lemma_size_roundtrip(size: u64)
    ensures
        (size as i64) as u64 == size,
{
    assert((size as i64) as u64 == size) by (bit_vector);
}

/// The entry a row of the database stands for: its path is its
/// directory and its name put together, and its size is read back as
/// unsigned.
pub fn entry_from_row(
    id: i64,
    parent: String,
    name: String,
    size: Option<i64>,
    modified: Option<i64>,
    kind: String,
    indexed: i32,
) -> (e: FileEntry)
    ensures
        e.id == id,
        e.path@ == spec_join_path(parent@, name@),
        e.parent == parent,
        e.name == name,
        e.size == (match size {
            Some(s) => Some(s as u64),
            None => None,
        }),
        e.modified == modified,
        e.kind == kind,
        e.indexed == indexed,
{
    let path = join_path(parent.as_str(), name.as_str());
    FileEntry { id, path, parent, name, size: size_from_sql(size), modified, kind, indexed }
}

/// `a` comes before `b` in byte-wise lexicographic order: at the first
/// byte where they differ, or, if one is a prefix of the other, the
/// shorter comes first.
pub open spec fn bytes_lt(a: Seq<u8>, b: Seq<u8>) -> bool
    decreases a.len(),
{
    if a.len() == 0 {
        b.len() > 0
    } else if b.len() == 0 {
        false
    } else if a[0] < b[0] {
        true
    } else if a[0] > b[0] {
        false
    } else {
        bytes_lt(a.drop_first(), b.drop_first())
    }
}

/// The UTF-8 bytes of an entry's name.
pub open spec fn name_bytes(e: FileEntry) -> Seq<u8> {
    encode_utf8(e.name@)
}

/// The UTF-8 bytes of an entry's kind.
pub open spec fn kind_bytes(e: FileEntry) -> Seq<u8> {
    encode_utf8(e.kind@)
}

/// `a` is listed before `b`: by name, then, for equal names, by kind,
/// both compared as strings are.
pub open spec fn entry_lt(a: FileEntry, b: FileEntry) -> bool {
    ||| bytes_lt(name_bytes(a), name_bytes(b))
    ||| (!bytes_lt(name_bytes(b), name_bytes(a)) && bytes_lt(kind_bytes(a), kind_bytes(b)))
}

/// `x` placed into `s` after every entry that it does not come before.
pub open spec fn insert_sorted(s: Seq<FileEntry>, x: FileEntry) -> Seq<FileEntry>
    decreases s.len(),
{
    if s.len() == 0 {
        seq![x]
    } else if entry_lt(x, s.last()) {
        insert_sorted(s.drop_last(), x).push(s.last())
    } else {
        s.push(x)
    }
}

/// `s` listed by name and kind, entries that compare equal keeping their
/// order.
pub open spec fn sorted_by_name_kind(s: Seq<FileEntry>) -> Seq<FileEntry>
    decreases s.len(),
{
    if s.len() == 0 {
        s
    } else {
        insert_sorted(sorted_by_name_kind(s.drop_last()), s.last())
    }
}

fn bytes_lt_exec(a: &[u8], b: &[u8]) -> (r: bool)
    ensures
        r == bytes_lt(a@, b@),
{
    let mut i: usize = 0;
    assert(a@.skip(0) =~= a@ && b@.skip(0) =~= b@);
    while i < a.len() && i < b.len()
        invariant
            i <= a@.len(),
            i <= b@.len(),
            bytes_lt(a@, b@) == bytes_lt(a@.skip(i as int), b@.skip(i as int)),
        decreases a.len() - i,
    {
        assert(a@.skip(i as int)[0] == a@[i as int] && b@.skip(i as int)[0] == b@[i as int]);
        if a[i] < b[i] {
            return true;
        }
        if a[i] > b[i] {
            return false;
        }
        assert(a@.skip(i as int).drop_first() =~= a@.skip(i as int + 1));
        assert(b@.skip(i as int).drop_first() =~= b@.skip(i as int + 1));
        i = i + 1;
    }
    i == a.len() && i < b.len()
}

fn entry_lt_exec(a: &FileEntry, b: &FileEntry) -> (r: bool)
    ensures
        r == entry_lt(*a, *b),
{
    let an = a.name.as_str().as_bytes();
    let bn = b.name.as_str().as_bytes();
    if bytes_lt_exec(an, bn) {
        return true;
    }
    if bytes_lt_exec(bn, an) {
        return false;
    }
    bytes_lt_exec(a.kind.as_str().as_bytes(), b.kind.as_str().as_bytes())
}

proof fn lemma_insert_at(s: Seq<FileEntry>, x: FileEntry, p: int)
    requires
        0 <= p <= s.len(),
        forall|k: int| p <= k < s.len() ==> entry_lt(x, #[trigger] s[k]),
        p == 0 || !entry_lt(x, s[p - 1]),
    ensures
        insert_sorted(s, x) == s.insert(p, x),
    decreases s.len(),
{
    if s.len() == 0 {
        assert(s.insert(p, x) =~= seq![x]);
    } else if p == s.len() {
        assert(s.insert(p, x) =~= s.push(x));
    } else {
        let t = s.drop_last();
        assert(entry_lt(x, s[s.len() - 1]));
        assert forall|k: int| p <= k < t.len() implies entry_lt(x, #[trigger] t[k]) by {
            assert(t[k] == s[k]);
        }
        if p > 0 {
            assert(t[p - 1] == s[p - 1]);
        }
        lemma_insert_at(t, x, p);
        assert(s.insert(p, x) =~= t.insert(p, x).push(s.last()));
    }
}

/// Lists the entries of a directory by name and then kind, comparing
/// them as strings are compared (byte by byte); entries that compare
/// equal keep their order.
pub fn sort_dir_entries(entries: Vec<FileEntry>) -> (r: Vec<FileEntry>)
    ensures
        r@ == sorted_by_name_kind(entries@),
{
    let ghost orig = entries@;
    let n = entries.len();
    let mut input = entries;
    let mut out: Vec<FileEntry> = Vec::new();
    let mut i: usize = 0;
    assert(orig.take(0) =~= Seq::<FileEntry>::empty());
    assert(orig.skip(0) =~= orig);
    while input.len() > 0
        invariant
            orig.len() == i + input@.len(),
            orig.len() == n,
            input@ == orig.skip(i as int),
            out@ == sorted_by_name_kind(orig.take(i as int)),
        decreases input.len(),
    {
        let x = input.remove(0);
        assert(x == orig[i as int]);
        assert(input@ =~= orig.skip(i as int + 1));
        let mut p: usize = out.len();
        while p > 0 && entry_lt_exec(&x, &out[p - 1])
            invariant
                p <= out@.len(),
                forall|k: int| p <= k < out@.len() ==> entry_lt(x, #[trigger] out@[k]),
            decreases p,
        {
            p = p - 1;
        }
        proof {
            lemma_insert_at(out@, x, p as int);
            assert(orig.take(i as int + 1).drop_last() =~= orig.take(i as int));
            assert(orig.take(i as int + 1).last() == x);
        }
        out.insert(p, x);
        i = i + 1;
    }
    assert(orig.take(i as int) =~= orig);
    out
}

/// Byte-wise lexicographic order is a strict total order.
pub proof fn lemma_bytes_lt_total_order(a: Seq<u8>, b: Seq<u8>, c: Seq<u8>)
    ensures
        !bytes_lt(a, a),
        bytes_lt(a, b) ==> !bytes_lt(b, a),
        bytes_lt(a, b) && bytes_lt(b, c) ==> bytes_lt(a, c),
        !bytes_lt(a, b) && !bytes_lt(b, a) ==> a == b,
    decreases a.len(),
{
    if a.len() > 0 {
        let b1 = if b.len() > 0 {
            b.drop_first()
        } else {
            b
        };
        let c1 = if c.len() > 0 {
            c.drop_first()
        } else {
            c
        };
        lemma_bytes_lt_total_order(a.drop_first(), b1, c1);
        lemma_bytes_lt_total_order(a.drop_first(), a.drop_first(), a.drop_first());
        if !bytes_lt(a, b) && !bytes_lt(b, a) {
            assert(b.len() > 0);
            assert(a[0] == b[0]);
            assert(a.drop_first() == b.drop_first());
            assert(a =~= seq![a[0]] + a.drop_first());
            assert(b =~= seq![b[0]] + b.drop_first());
        }
    } else {
        if !bytes_lt(a, b) && !bytes_lt(b, a) {
            assert(b.len() == 0);
            assert(a =~= b);
        }
    }
}

/// Listing by name then kind is a strict weak order: never both ways,
/// and "not after" is transitive.
pub proof fn lemma_entry_lt_order(a: FileEntry, b: FileEntry, c: FileEntry)
    ensures
        !entry_lt(a, a),
        entry_lt(a, b) ==> !entry_lt(b, a),
        !entry_lt(b, a) && !entry_lt(c, b) ==> !entry_lt(c, a),
{
    lemma_bytes_lt_total_order(name_bytes(a), name_bytes(b), name_bytes(c));
    lemma_bytes_lt_total_order(name_bytes(b), name_bytes(c), name_bytes(a));
    lemma_bytes_lt_total_order(name_bytes(c), name_bytes(a), name_bytes(b));
    lemma_bytes_lt_total_order(name_bytes(a), name_bytes(c), name_bytes(b));
    lemma_bytes_lt_total_order(name_bytes(c), name_bytes(b), name_bytes(a));
    lemma_bytes_lt_total_order(name_bytes(b), name_bytes(a), name_bytes(c));
    lemma_bytes_lt_total_order(kind_bytes(a), kind_bytes(b), kind_bytes(c));
    lemma_bytes_lt_total_order(kind_bytes(b), kind_bytes(c), kind_bytes(a));
    lemma_bytes_lt_total_order(kind_bytes(c), kind_bytes(a), kind_bytes(b));
    lemma_bytes_lt_total_order(kind_bytes(a), kind_bytes(c), kind_bytes(b));
    lemma_bytes_lt_total_order(kind_bytes(c), kind_bytes(b), kind_bytes(a));
    lemma_bytes_lt_total_order(kind_bytes(b), kind_bytes(a), kind_bytes(c));
}

/// No entry is listed after one it comes before.
pub open spec fn listed_in_order(s: Seq<FileEntry>) -> bool {
    forall|i: int, j: int| 0 <= i < j < s.len() ==> !entry_lt(#[trigger] s[j], #[trigger] s[i])
}

proof fn lemma_insert_sorted(s: Seq<FileEntry>, x: FileEntry)
    requires
        listed_in_order(s),
    ensures
        listed_in_order(insert_sorted(s, x)),
        insert_sorted(s, x).to_multiset() == s.to_multiset().insert(x),
    decreases s.len(),
{
    broadcast use vstd::seq_lib::group_to_multiset_ensures;

    if s.len() == 0 {
        assert(seq![x] =~= Seq::<FileEntry>::empty().push(x));
    } else {
        let t = s.drop_last();
        let l = s.last();
        assert(t.push(l) =~= s);
        if entry_lt(x, l) {
            assert(listed_in_order(t)) by {
                assert forall|i: int, j: int| 0 <= i < j < t.len() implies !entry_lt(
                    #[trigger] t[j],
                    #[trigger] t[i],
                ) by {
                    assert(t[i] == s[i] && t[j] == s[j]);
                }
            }
            lemma_insert_sorted(t, x);
            let u = insert_sorted(t, x);
            let r = u.push(l);
            assert forall|i: int, j: int| 0 <= i < j < r.len() implies !entry_lt(
                #[trigger] r[j],
                #[trigger] r[i],
            ) by {
                if j == r.len() - 1 {
                    assert(r[j] == l);
                    assert(r[i] == u[i]);
                    assert(u.contains(u[i]));
                    assert(u.to_multiset().count(u[i]) > 0);
                    if u[i] != x {
                        assert(t.to_multiset().count(u[i]) > 0);
                        assert(t.contains(u[i]));
                        let k = choose|k: int| 0 <= k < t.len() && t[k] == u[i];
                        assert(s[k] == t[k]);
                        assert(s[s.len() - 1] == l);
                    } else {
                        lemma_entry_lt_order(x, l, x);
                    }
                } else {
                    assert(r[i] == u[i] && r[j] == u[j]);
                }
            }
        } else {
            let r = s.push(x);
            assert forall|i: int, j: int| 0 <= i < j < r.len() implies !entry_lt(
                #[trigger] r[j],
                #[trigger] r[i],
            ) by {
                if j == r.len() - 1 {
                    if i < s.len() - 1 {
                        assert(!entry_lt(s[s.len() - 1], s[i]));
                        lemma_entry_lt_order(s[i], l, x);
                    }
                } else {
                    assert(r[i] == s[i] && r[j] == s[j]);
                }
            }
        }
    }
}

/// A directory listing holds the entries it was given, each as often,
/// and no entry is listed after one it comes before (by name, then kind).
pub proof fn lemma_sorted_by_name_kind(s: Seq<FileEntry>)
    ensures
        listed_in_order(sorted_by_name_kind(s)),
        sorted_by_name_kind(s).to_multiset() == s.to_multiset(),
    decreases s.len(),
{
    broadcast use vstd::seq_lib::group_to_multiset_ensures;

    if s.len() > 0 {
        lemma_sorted_by_name_kind(s.drop_last());
        lemma_insert_sorted(sorted_by_name_kind(s.drop_last()), s.last());
        assert(s.drop_last().push(s.last()) =~= s);
    }
}

/// A listing already in order is left as it is, so listing twice gives
/// the same as listing once.
pub proof fn lemma_listing_in_order_unchanged(s: Seq<FileEntry>)
    requires
        listed_in_order(s),
    ensures
        sorted_by_name_kind(s) == s,
    decreases s.len(),
{
    if s.len() > 0 {
        let t = s.drop_last();
        assert(listed_in_order(t)) by {
            assert forall|i: int, j: int| 0 <= i < j < t.len() implies !entry_lt(
                #[trigger] t[j],
                #[trigger] t[i],
            ) by {
                assert(t[i] == s[i] && t[j] == s[j]);
            }
        }
        lemma_listing_in_order_unchanged(t);
        if t.len() > 0 {
            assert(!entry_lt(s[s.len() - 1], s[s.len() - 2]));
            assert(t.last() == s[s.len() - 2]);
        }
        assert(t.push(s.last()) =~= s);
    }
}

/// Byte-wise order, said another way: `a` comes before `b` exactly when
/// they first differ at some position where `a`'s byte is smaller, or
/// when `a` is a proper prefix of `b`.
pub proof fn lemma_bytes_lt_first_difference(a: Seq<u8>, b: Seq<u8>)
    ensures
        bytes_lt(a, b) <==> (exists|k: int|
            0 <= k < a.len() && k < b.len() && a.take(k) == b.take(k) && #[trigger] a[k] < b[k])
            || (a.len() < b.len() && a == b.take(a.len() as int)),
    decreases a.len(),
{
    if a.len() == 0 {
        assert(a =~= b.take(0));
    } else if b.len() == 0 {
    } else {
        let a1 = a.drop_first();
        let b1 = b.drop_first();
        lemma_bytes_lt_first_difference(a1, b1);
        if a[0] < b[0] {
            assert(a.take(0) =~= b.take(0));
        } else if a[0] > b[0] {
            assert forall|k: int| 0 <= k < a.len() && k < b.len() && a.take(k) == b.take(k) implies !(
            #[trigger] a[k] < b[k]) by {
                if k > 0 {
                    assert(a.take(k)[0] == b.take(k)[0]);
                }
            }
            if a.len() < b.len() && a == b.take(a.len() as int) {
                assert(a[0] == b.take(a.len() as int)[0]);
            }
        } else {
            if bytes_lt(a1, b1) {
                if exists|k: int|
                    0 <= k < a1.len() && k < b1.len() && a1.take(k) == b1.take(k) && #[trigger] a1[k]
                        < b1[k] {
                    let k = choose|k: int|
                        0 <= k < a1.len() && k < b1.len() && a1.take(k) == b1.take(k) && #[trigger] a1[k]
                            < b1[k];
                    assert(a.take(k + 1) =~= seq![a[0]] + a1.take(k));
                    assert(b.take(k + 1) =~= seq![b[0]] + b1.take(k));
                    assert(a[k + 1] == a1[k] && b[k + 1] == b1[k]);
                } else {
                    assert(a =~= seq![a[0]] + a1);
                    assert(b.take(a.len() as int) =~= seq![b[0]] + b1.take(a1.len() as int));
                }
            } else {
                assert forall|k: int| 0 <= k < a.len() && k < b.len() && a.take(k) == b.take(k) implies !(
                #[trigger] a[k] < b[k]) by {
                    if k > 0 {
                        assert(a1.take(k - 1) =~= a.take(k).drop_first());
                        assert(b1.take(k - 1) =~= b.take(k).drop_first());
                        assert(a1[k - 1] == a[k] && b1[k - 1] == b[k]);
                    }
                }
                if a.len() < b.len() && a == b.take(a.len() as int) {
                    assert(a1 =~= b1.take(a1.len() as int));
                }
            }
        }
    }
}

/// A directory listing is ordered by name first: of two entries, the one
/// listed earlier never has the byte-wise greater name, and of two with
/// the same name, the one listed earlier never has the greater kind. The
/// kind only breaks ties between equal names.
pub proof fn lemma_listing_by_name_then_kind(s: Seq<FileEntry>)
    ensures
        forall|i: int, j: int|
            0 <= i < j < sorted_by_name_kind(s).len() ==> !bytes_lt(
                name_bytes(#[trigger] sorted_by_name_kind(s)[j]),
                name_bytes(#[trigger] sorted_by_name_kind(s)[i]),
            ),
        forall|i: int, j: int|
            0 <= i < j < sorted_by_name_kind(s).len() && name_bytes(
                #[trigger] sorted_by_name_kind(s)[i],
            ) == name_bytes(#[trigger] sorted_by_name_kind(s)[j]) ==> !bytes_lt(
                kind_bytes(sorted_by_name_kind(s)[j]),
                kind_bytes(sorted_by_name_kind(s)[i]),
            ),
{
    lemma_sorted_by_name_kind(s);
    let r = sorted_by_name_kind(s);
    assert forall|i: int, j: int|
        0 <= i < j < r.len() && name_bytes(#[trigger] r[i]) == name_bytes(#[trigger] r[j]) implies !bytes_lt(
        kind_bytes(r[j]),
        kind_bytes(r[i]),
    ) by {
        assert(!entry_lt(r[j], r[i]));
        lemma_bytes_lt_total_order(name_bytes(r[i]), name_bytes(r[i]), name_bytes(r[i]));
    }
    assert forall|i: int, j: int| 0 <= i < j < r.len() implies !bytes_lt(
        name_bytes(#[trigger] r[j]),
        name_bytes(#[trigger] r[i]),
    ) by {
        assert(!entry_lt(r[j], r[i]));
    }
}

} // verus!
