use vstd::prelude::*;

verus! {

/// The event id that asks the event stream for events from now on only,
/// none from its history.
pub const SINCE_NOW: u64 = 0xFFFF_FFFF_FFFF_FFFF;

/// The metadata key under which the last applied event id is kept.
pub const CHECKPOINT_KEY: &'static str = "last_fsevent_id";

/// The character for the decimal digit `d`.
pub open spec fn digit_char(d: int) -> char {
    (d + 48) as char
}

/// `n` written in decimal, without leading zeros.
pub open spec fn decimal(n: nat) -> Seq<char>
    decreases n,
{
    if n < 10 {
        seq![digit_char(n as int)]
    } else {
        decimal(n / 10).push(digit_char((n % 10) as int))
    }
}

pub open spec fn is_digit(c: char) -> bool {
    '0' <= c && c <= '9'
}

pub open spec fn all_digits(s: Seq<char>) -> bool {
    forall|i: int| 0 <= i < s.len() ==> #[trigger] is_digit(s[i])
}

/// The number that a string of decimal digits stands for.
pub open spec fn digits_value(s: Seq<char>) -> nat
    decreases s.len(),
{
    if s.len() == 0 {
        0
    } else {
        digits_value(s.drop_last()) * 10 + (s.last() as nat - 48) as nat
    }
}

/// `s` without a leading `+`.
pub open spec fn unsigned_digits(s: Seq<char>) -> Seq<char> {
    if s.len() > 0 && s[0] == '+' {
        s.subrange(1, s.len() as int)
    } else {
        s
    }
}

/// What reading `s` as an unsigned 64-bit number gives: an optional `+`
/// followed by at least one decimal digit and nothing else, whose value
/// fits in 64 bits.
pub open spec fn spec_parse_u64(s: Seq<char>) -> Option<u64> {
    let d = unsigned_digits(s);
    if d.len() > 0 && all_digits(d) && digits_value(d) <= u64::MAX {
        Some(digits_value(d) as u64)
    } else {
        None
    }
}

fn digit_str(d: u64) -> (s: &'static str)
    requires
        d < 10,
    ensures
        s@ == seq![digit_char(d as int)],
{
    proof {
        reveal_strlit("0");
        reveal_strlit("1");
        reveal_strlit("2");
        reveal_strlit("3");
        reveal_strlit("4");
        reveal_strlit("5");
        reveal_strlit("6");
        reveal_strlit("7");
        reveal_strlit("8");
        reveal_strlit("9");
    }
    let s = if d == 0 {
        "0"
    } else if d == 1 {
        "1"
    } else if d == 2 {
        "2"
    } else if d == 3 {
        "3"
    } else if d == 4 {
        "4"
    } else if d == 5 {
        "5"
    } else if d == 6 {
        "6"
    } else if d == 7 {
        "7"
    } else if d == 8 {
        "8"
    } else {
        "9"
    };
    assert(s@ =~= seq![digit_char(d as int)]);
    s
}

/// `n` written in decimal.
pub fn format_u64(n: u64) -> (r: String)
    ensures
        r@ == decimal(n as nat),
    decreases n,
{
    if n < 10 {
        String::from_str(digit_str(n))
    } else {
        let mut r = format_u64(n / 10);
        r.append(digit_str(n % 10));
        r
    }
}

proof fn lemma_digits_value_prefix(s: Seq<char>, k: int)
    requires
        0 <= k <= s.len(),
        all_digits(s),
    ensures
        digits_value(s.take(k)) <= digits_value(s),
    decreases s.len() - k,
{
    if k < s.len() {
        lemma_digits_value_prefix(s, k + 1);
        assert(s.take(k + 1).drop_last() =~= s.take(k));
        assert(is_digit(s[k]));
        assert(s.take(k + 1).last() == s[k]);
    } else {
        assert(s.take(k) =~= s);
    }
}

/// Reads `s` as an unsigned 64-bit number: an optional `+` and then
/// decimal digits only, with a value that fits in 64 bits.
pub fn parse_u64(s: &str) -> (r: Option<u64>)
    ensures
        r == spec_parse_u64(s@),
{
    let n = s.unicode_len();
    let mut start: usize = 0;
    if n > 0 && s.get_char(0) == '+' {
        start = 1;
    }
    let ghost d = unsigned_digits(s@);
    assert(d =~= s@.subrange(start as int, n as int));
    if start == n {
        return None;
    }
    let mut acc: u64 = 0;
    let mut i: usize = start;
    assert(d.take(0) =~= Seq::<char>::empty());
    while i < n
        invariant
            n == s@.len(),
            start <= i <= n,
            d == unsigned_digits(s@),
            d =~= s@.subrange(start as int, n as int),
            all_digits(d.take(i - start)),
            acc as nat == digits_value(d.take(i - start)),
        decreases n - i,
    {
        let c = s.get_char(i);
        let k: usize = i - start;
        assert(d[k as int] == c);
        assert(d.take(k + 1).drop_last() =~= d.take(k as int));
        assert(d.take(k + 1).last() == c);
        if c < '0' || c > '9' {
            assert(!is_digit(d[k as int]));
            return None;
        }
        let v: u64 = (c as u32 - 48) as u64;
        assert(v < 10);
        if acc > (u64::MAX - v) / 10 {
            assert(acc * 10 + v > u64::MAX) by (nonlinear_arith)
                requires
                    acc > (u64::MAX - v) / 10,
                    v < 10,
            ;
            proof {
                assert forall|j: int| 0 <= j < d.len() implies #[trigger] is_digit(d[j]) || !all_digits(
                    d,
                ) by {}
                if all_digits(d) {
                    lemma_digits_value_prefix(d, k + 1);
                }
            }
            return None;
        }
        assert(acc * 10 + v <= u64::MAX) by (nonlinear_arith)
            requires
                acc <= (u64::MAX - v) / 10,
                v < 10,
        ;
        acc = acc * 10 + v;
        assert(all_digits(d.take(k + 1))) by {
            assert forall|j: int| 0 <= j < d.take(k + 1).len() implies #[trigger] is_digit(
                d.take(k + 1)[j],
            ) by {
                if j < k {
                    assert(d.take(k + 1)[j] == d.take(k as int)[j]);
                }
            }
        }
        i = i + 1;
    }
    assert(d.take(n - start) =~= d);
    Some(acc)
}

proof fn lemma_decimal_digits(n: nat)
    ensures
        decimal(n).len() > 0,
        all_digits(decimal(n)),
        decimal(n)[0] != '+',
        digits_value(decimal(n)) == n,
    decreases n,
{
    let c = digit_char((n % 10) as int);
    assert(c as int == (n % 10) + 48);
    if n < 10 {
        assert(n % 10 == n);
        assert(decimal(n).drop_last() =~= Seq::<char>::empty());
        assert(decimal(n).last() == c);
        assert(digits_value(decimal(n)) == digits_value(decimal(n).drop_last()) * 10 + (c as nat
            - 48) as nat);
    }
    if n >= 10 {
        lemma_decimal_digits(n / 10);
        let s = decimal(n);
        assert(s.drop_last() =~= decimal(n / 10));
        assert(s.last() == c);
        assert(digits_value(s) == digits_value(decimal(n / 10)) * 10 + (n % 10));
        assert((n / 10) * 10 + n % 10 == n);
        assert(s[0] == decimal(n / 10)[0]);
        assert forall|i: int| 0 <= i < s.len() implies #[trigger] is_digit(s[i]) by {
            if i < s.len() - 1 {
                assert(s[i] == decimal(n / 10)[i]);
            }
        }
    }
}

/// Reading back a number written in decimal gives the number.
pub proof fn lemma_parse_format_roundtrip(n: u64)
    ensures
        spec_parse_u64(decimal(n as nat)) == Some(n),
{
    lemma_decimal_digits(n as nat);
    assert(unsigned_digits(decimal(n as nat)) == decimal(n as nat));
}

/// The value to store as the checkpoint after a batch whose highest event
/// id is `max_event_id`: that id in decimal, or nothing when the batch had
/// no event id above 0.
pub fn checkpoint_value(max_event_id: u64) -> (r: Option<String>)
    ensures
        max_event_id > 0 ==> r is Some && r->0@ == decimal(max_event_id as nat),
        max_event_id == 0 ==> r is None,
{
    if max_event_id > 0 {
        Some(format_u64(max_event_id))
    } else {
        None
    }
}

/// What reading the stored checkpoint gave.
pub enum MetadataLookup {
    /// The key was present with this value.
    Found(String),
    /// The key was absent.
    Missing,
    /// The read failed.
    Failed,
}

/// How the daemon starts.
#[derive(Debug, Clone, Copy, PartialEq, Eq, Structural)]
pub enum StartPlan {
    /// Walk the whole tree, rebuild the index, then watch from now on.
    ColdStart,
    /// Replay the events after this id, then keep watching.
    Resume(u64),
}

/// The start plan that the data directories and the stored checkpoint
/// call for.
pub open spec fn spec_decide_start(dirs_existed: bool, stored: MetadataLookup) -> StartPlan {
    if !dirs_existed {
        StartPlan::ColdStart
    } else {
        match stored {
            MetadataLookup::Found(s) => match spec_parse_u64(s@) {
                Some(id) => StartPlan::Resume(id),
                None => StartPlan::ColdStart,
            },
            _ => StartPlan::ColdStart,
        }
    }
}

/// Chooses between a warm and a cold start. A fresh data directory always
/// means a cold start; otherwise a stored checkpoint that reads as a
/// number is resumed from, and a missing, unreadable or malformed one
/// means a cold start.
pub fn decide_start(dirs_existed: bool, stored: MetadataLookup) -> (r: StartPlan)
    ensures
        r == spec_decide_start(dirs_existed, stored),
{
    if !dirs_existed {
        return StartPlan::ColdStart;
    }
    match stored {
        MetadataLookup::Found(s) => match parse_u64(s.as_str()) {
            Some(id) => StartPlan::Resume(id),
            None => StartPlan::ColdStart,
        },
        _ => StartPlan::ColdStart,
    }
}

/// The event id the watcher starts from under `plan`.
pub fn start_since(plan: StartPlan) -> (since: u64)
    ensures
        since == (match plan {
            StartPlan::ColdStart => SINCE_NOW,
            StartPlan::Resume(id) => id,
        }),
{
    match plan {
        StartPlan::ColdStart => SINCE_NOW,
        StartPlan::Resume(id) => id,
    }
}

/// After a restart, the daemon resumes from the checkpoint the indexer
/// stored last: for every batch whose highest event id `m` is above 0,
/// the value stored for it, read back at a start with the data
/// directories in place, gives a warm start from `m`.
pub proof fn lemma_checkpoint_resumes(m: u64, stored: String)
    requires
        m > 0,
        stored@ == decimal(m as nat),
    ensures
        spec_decide_start(true, MetadataLookup::Found(stored)) == StartPlan::Resume(m),
{
    lemma_parse_format_roundtrip(m);
}

} // verus!
