//! What the store decides without the database: the keys that make recording an event
//! idempotent, and the numbering of task ids.
use vstd::prelude::*;

use crate::error::Error;
use crate::records::Timestamp;

use crate::text::{all_digits, chars_of, digits_value, is_digit, join_spec, lemma_digits_value_prefix, push_signed, push_str, signed_decimal, texts, decimal};

verus! {

/// Whether recording an event stored it, or found it already recorded under its key.
#[derive(Debug, Clone, Copy, PartialEq, Eq)]
pub enum EventOutcome {
    Recorded,
    Duplicate,
}

/// The key an event is recorded under: its parts joined with colons.
pub fn event_key(parts: &[&str]) -> (r: String)
    ensures
        r@ == join_spec(Seq::new(parts@.len(), |i: int| parts@[i]@), ":"@),
{
    let ghost views = Seq::new(parts@.len(), |i: int| parts@[i]@);
    let mut r = String::new();
    let mut i: usize = 0;
    while i < parts.len()
        invariant
            i <= parts@.len(),
            views == Seq::new(parts@.len(), |i: int| parts@[i]@),
            r@ == join_spec(views.take(i as int), ":"@),
        decreases parts@.len() - i,
    {
        if i > 0 {
            push_str(&mut r, ":");
        }
        push_str(&mut r, parts[i]);
        proof {
            assert(views.take(i + 1).drop_last() == views.take(i as int));
            assert(views.take(i + 1).last() == parts@[i as int]@);
            if i == 0 {
                assert(views.take(0).len() == 0);
            }
        }
        i += 1;
    }
    assert(views.take(parts@.len() as int) == views);
    r
}

/// What `str::parse::<i64>` reads: an optional sign, then decimal digits, within range.
pub open spec fn parse_i64_spec(s: Seq<char>) -> Option<i64> {
    let (negative, digits) = if s.len() > 0 && s[0] == '-' {
        (true, s.drop_first())
    } else if s.len() > 0 && s[0] == '+' {
        (false, s.drop_first())
    } else {
        (false, s)
    };
    if digits.len() == 0 || !all_digits(digits) {
        None
    } else if negative {
        if digits_value(digits) <= 0x8000_0000_0000_0000 {
            Some((-(digits_value(digits) as int)) as i64)
        } else {
            None
        }
    } else if digits_value(digits) <= i64::MAX {
        Some(digits_value(digits) as i64)
    } else {
        None
    }
}

/// `str::parse::<i64>` on `v[lo..hi]`.
#[verifier::loop_isolation(false)]
fn parse_i64(v: &Vec<char>, lo: usize, hi: usize) -> (r: Option<i64>)
    requires
        lo <= hi <= v.len(),
    ensures
        r == parse_i64_spec(v@.subrange(lo as int, hi as int)),
{
    let ghost s = v@.subrange(lo as int, hi as int);
    let negative = lo < hi && v[lo] == '-';
    let start = if lo < hi && (v[lo] == '-' || v[lo] == '+') {
        lo + 1
    } else {
        lo
    };
    let ghost digits = v@.subrange(start as int, hi as int);
    assert(digits == (if s.len() > 0 && (s[0] == '-' || s[0] == '+') {
        s.drop_first()
    } else {
        s
    }));
    if start == hi {
        return None;
    }
    let limit: u64 = if negative {
        0x8000_0000_0000_0000
    } else {
        0x7fff_ffff_ffff_ffff
    };
    let mut acc: u64 = 0;
    let mut i = start;
    while i < hi
        invariant
            lo <= start <= i <= hi <= v.len(),
            digits == v@.subrange(start as int, hi as int),
            all_digits(v@.subrange(start as int, i as int)),
            acc == digits_value(v@.subrange(start as int, i as int)),
            acc <= limit,
            limit >= 9,
        decreases hi - i,
    {
        let c = v[i];
        if !('0' <= c && c <= '9') {
            assert(digits[i - start] == c);
            assert(!all_digits(digits));
            return None;
        }
        let d = (c as u32 - '0' as u32) as u64;
        let ghost next = v@.subrange(start as int, i + 1);
        assert(next.drop_last() == v@.subrange(start as int, i as int));
        assert(all_digits(next)) by {
            assert forall|k: int| 0 <= k < next.len() implies is_digit(#[trigger] next[k]) by {
                if k < next.len() - 1 {
                    assert(next[k] == v@.subrange(start as int, i as int)[k]);
                }
            }
        }
        if acc > (limit - d) / 10 {
            proof {
                assert(digits.take(i + 1 - start) == next);
                lemma_digits_value_prefix(digits, i + 1 - start);
                assert(next.last() == c);
                assert(digits_value(next) == acc * 10 + d);
                assert(acc * 10 + d > limit) by (nonlinear_arith)
                    requires
                        acc > (limit - d) / 10,
                        d <= 9,
                        limit >= 9,
                ;
            }
            return None;
        }
        acc = acc * 10 + d;
        i = i + 1;
    }
    assert(v@.subrange(start as int, i as int) == digits);
    if negative {
        if acc == 0x8000_0000_0000_0000 {
            Some(i64::MIN)
        } else {
            Some(-(acc as i64))
        }
    } else {
        Some(acc as i64)
    }
}

/// The number of a task id `t-<number>`.
pub open spec fn task_id_number_spec(id: Seq<char>) -> Option<i64> {
    if id.len() >= 2 && id[0] == 't' && id[1] == '-' {
        parse_i64_spec(id.skip(2))
    } else {
        None
    }
}

pub fn task_id_number(id: &str) -> (r: Option<i64>)
    ensures
        r == task_id_number_spec(id@),
{
    let v = chars_of(id);
    if v.len() >= 2 && v[0] == 't' && v[1] == '-' {
        assert(v@.subrange(2, v@.len() as int) == v@.skip(2));
        parse_i64(&v, 2, v.len())
    } else {
        None
    }
}

/// The task id of `number`.
pub open spec fn task_id_spec(number: i64) -> Seq<char> {
    "t-"@ + signed_decimal(number as int)
}

pub fn task_id(number: i64) -> (r: String)
    ensures
        r@ == task_id_spec(number),
{
    let mut r = String::new();
    push_str(&mut r, "t-");
    push_signed(&mut r, number);
    r
}

/// The number of the task id of `number` is `number`, for every `number`.
pub proof fn lemma_task_id_reads_back(number: i64)
    ensures
        task_id_number_spec(task_id_spec(number)) == Some(number),
{
    reveal_strlit("t-");
    let id = task_id_spec(number);
    let tail = signed_decimal(number as int);
    assert(id.skip(2) == tail);
    if number < 0 {
        let m = (-(number as int)) as nat;
        crate::text::lemma_decimal_reads_back(m);
        assert(tail.drop_first() == decimal(m));
    } else {
        crate::text::lemma_decimal_reads_back(number as nat);
        crate::text::lemma_decimal_len(number as nat);
        assert(is_digit(tail[0]));
    }
}

/// The highest number among the task ids that have one, if any.
pub open spec fn highest_number(ids: Seq<Seq<char>>) -> Option<i64>
    decreases ids.len(),
{
    if ids.len() == 0 {
        None
    } else {
        let rest = highest_number(ids.drop_last());
        match task_id_number_spec(ids.last()) {
            None => rest,
            Some(n) => match rest {
                Some(m) if m >= n => Some(m),
                _ => Some(n),
            },
        }
    }
}

/// The number a project's task counter starts from when it has none: one past the
/// highest number among its task ids, or 1.
pub open spec fn seed_number_spec(ids: Seq<Seq<char>>) -> int {
    match highest_number(ids) {
        Some(n) => n + 1,
        None => 1,
    }
}

pub fn seed_number(ids: &Vec<String>) -> (r: i64)
    requires
        highest_number(texts(ids@)) != Some(i64::MAX),
    ensures
        r == seed_number_spec(texts(ids@)),
{
    let mut highest: Option<i64> = None;
    let mut i: usize = 0;
    while i < ids.len()
        invariant
            i <= ids@.len(),
            highest == highest_number(texts(ids@).take(i as int)),
        decreases ids@.len() - i,
    {
        proof {
            assert(texts(ids@).take(i + 1).drop_last() == texts(ids@).take(i as int));
            assert(texts(ids@).take(i + 1).last() == ids@[i as int]@);
        }
        match task_id_number(ids[i].as_str()) {
            None => {},
            Some(n) => {
                highest = match highest {
                    Some(m) if m >= n => Some(m),
                    _ => Some(n),
                };
            },
        }
        i += 1;
    }
    assert(texts(ids@).take(ids@.len() as int) == texts(ids@));
    match highest {
        Some(n) => n + 1,
        None => 1,
    }
}

/// A fact as the store holds it: its number, project and key, when it was recorded,
/// the name of its kind, its JSON payload, and the task it is about.
#[derive(Debug, Clone, PartialEq, Eq)]
pub struct RecordedEvent {
    pub id: u64,
    pub project: String,
    pub key: String,
    pub at: Timestamp,
    pub kind: String,
    pub payload: String,
    pub task: Option<String>,
}

/// How many times a store operation is tried while the database is contended.
pub const LOCK_RETRY_ATTEMPTS: u32 = 5;

/// How long the first retry waits; each later one waits that much longer.
pub const LOCK_RETRY_BACKOFF_MILLIS: u64 = 100;

/// After try number `attempt` (counting from 1) of a store operation failed with `error`:
/// how many milliseconds to wait before the next try, or none when the error is the
/// result. Only lock contention is retried, with a backoff that grows with each try, and
/// the last try's error stands.
pub fn retry_after(attempt: u32, error: &Error) -> (r: Option<u64>)
    ensures
        r == (if 1 <= attempt < LOCK_RETRY_ATTEMPTS && (error matches Error::Database {
            lock_contention,
            ..
        } && *lock_contention) {
            Some((LOCK_RETRY_BACKOFF_MILLIS * attempt) as u64)
        } else {
            None
        }),
{
    if 1 <= attempt && attempt < LOCK_RETRY_ATTEMPTS && error.is_lock_contention() {
        Some(LOCK_RETRY_BACKOFF_MILLIS * attempt as u64)
    } else {
        None
    }
}

} // verus!
