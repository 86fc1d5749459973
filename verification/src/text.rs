//! Character-level text operations, stated over `Seq<char>`.
//!
//! Every string is read into a `Vec<char>` once; the scanning functions below work on
//! index ranges of that vector and say what they find in terms of the spec functions
//! of this module, which give the meaning of the `str` methods the daemon relies on
//! (`trim`, `lines`, `find`, `split_whitespace`, number parsing).
use vstd::prelude::*;
use vstd::string::StrSliceExecFns;

verus! {

/// Unicode `White_Space`, which is what `char::is_whitespace` tests.
pub open spec fn is_ws(c: char) -> bool {
    let u = c as u32;
    (0x9 <= u && u <= 0xd) || u == 0x20 || u == 0x85 || u == 0xa0 || u == 0x1680 || (0x2000 <= u
        && u <= 0x200a) || u == 0x2028 || u == 0x2029 || u == 0x202f || u == 0x205f || u == 0x3000
}

/// `char::is_whitespace`.
pub fn is_whitespace(c: char) -> (b: bool)
    ensures
        b == is_ws(c),
{
    let u = c as u32;
    (0x9 <= u && u <= 0xd) || u == 0x20 || u == 0x85 || u == 0xa0 || u == 0x1680 || (0x2000 <= u
        && u <= 0x200a) || u == 0x2028 || u == 0x2029 || u == 0x202f || u == 0x205f || u == 0x3000
}

/// Unicode general category `Cc`, which is what `char::is_control` tests.
pub open spec fn is_ctrl(c: char) -> bool {
    let u = c as u32;
    u <= 0x1f || (0x7f <= u && u <= 0x9f)
}

/// `char::is_control`.
pub fn is_control(c: char) -> (b: bool)
    ensures
        b == is_ctrl(c),
{
    let u = c as u32;
    u <= 0x1f || (0x7f <= u && u <= 0x9f)
}

pub open spec fn is_digit(c: char) -> bool {
    '0' <= c && c <= '9'
}

pub open spec fn is_ascii_alnum(c: char) -> bool {
    ('0' <= c && c <= '9') || ('a' <= c && c <= 'z') || ('A' <= c && c <= 'Z')
}

/// `char::to_ascii_lowercase`.
pub open spec fn ascii_lower(c: char) -> char {
    if 'A' <= c && c <= 'Z' {
        ((c as u32) + 32) as char
    } else {
        c
    }
}

pub fn to_ascii_lowercase(c: char) -> (r: char)
    ensures
        r == ascii_lower(c),
{
    if 'A' <= c && c <= 'Z' {
        let u = (c as u8) + 32;
        u as char
    } else {
        c
    }
}

pub open spec fn lower_seq(s: Seq<char>) -> Seq<char> {
    Seq::new(s.len(), |i: int| ascii_lower(s[i]))
}

/// `str::trim_start`.
pub open spec fn trim_start(s: Seq<char>) -> Seq<char>
    decreases s.len(),
{
    if s.len() > 0 && is_ws(s[0]) {
        trim_start(s.drop_first())
    } else {
        s
    }
}

/// `str::trim_end`.
pub open spec fn trim_end(s: Seq<char>) -> Seq<char>
    decreases s.len(),
{
    if s.len() > 0 && is_ws(s.last()) {
        trim_end(s.drop_last())
    } else {
        s
    }
}

/// `str::trim`.
pub open spec fn trim(s: Seq<char>) -> Seq<char> {
    trim_end(trim_start(s))
}

/// Index of the first `c` in `s`, or -1 (`str::find` with a `char`).
pub open spec fn find_char(s: Seq<char>, c: char) -> int
    decreases s.len(),
{
    if s.len() == 0 {
        -1
    } else if s[0] == c {
        0
    } else {
        let r = find_char(s.drop_first(), c);
        if r < 0 {
            -1
        } else {
            r + 1
        }
    }
}

/// Index of the last `c` in `s`, or -1 (`str::rfind` with a `char`).
pub open spec fn rfind_char(s: Seq<char>, c: char) -> int
    decreases s.len(),
{
    if s.len() == 0 {
        -1
    } else if s.last() == c {
        s.len() - 1
    } else {
        rfind_char(s.drop_last(), c)
    }
}

/// Whether `p` occurs in `s` at index `i`.
pub open spec fn matches_at(s: Seq<char>, p: Seq<char>, i: int) -> bool {
    0 <= i && i + p.len() <= s.len() && s.subrange(i, i + p.len()) == p
}

/// Index of the first occurrence of `p` in `s`, or -1 (`str::find` with a `&str`).
pub open spec fn find_seq(s: Seq<char>, p: Seq<char>) -> int
    decreases s.len(),
{
    if p.len() > s.len() {
        -1
    } else if s.take(p.len() as int) =~= p {
        0
    } else {
        let r = find_seq(s.drop_first(), p);
        if r < 0 {
            -1
        } else {
            r + 1
        }
    }
}

pub open spec fn contains_seq(s: Seq<char>, p: Seq<char>) -> bool {
    find_seq(s, p) >= 0
}

pub open spec fn starts_with(s: Seq<char>, p: Seq<char>) -> bool {
    p.len() <= s.len() && s.take(p.len() as int) == p
}

pub open spec fn ends_with(s: Seq<char>, p: Seq<char>) -> bool {
    p.len() <= s.len() && s.skip(s.len() - p.len()) == p
}

/// A line as `str::lines` hands it out: one trailing `\r` before the `\n` is dropped.
pub open spec fn strip_cr(s: Seq<char>) -> Seq<char> {
    if s.len() > 0 && s.last() == '\r' {
        s.drop_last()
    } else {
        s
    }
}

/// `str::lines`.
pub open spec fn lines(s: Seq<char>) -> Seq<Seq<char>>
    decreases s.len(),
{
    if s.len() == 0 {
        Seq::empty()
    } else {
        let i = find_char(s, '\n');
        proof {
            lemma_find_char_range(s, '\n');
        }
        if i < 0 {
            seq![s]
        } else {
            seq![strip_cr(s.take(i))] + lines(s.skip(i + 1))
        }
    }
}

/// `str::split_whitespace`.
pub open spec fn words(s: Seq<char>) -> Seq<Seq<char>>
    decreases s.len(),
{
    let t = trim_start(s);
    proof {
        lemma_trim_start_shape(s);
        lemma_word_end_range(t);
    }
    if t.len() == 0 {
        Seq::empty()
    } else {
        let e = word_end(t);
        seq![t.take(e)] + words(t.skip(e))
    }
}

/// Length of the run of non-whitespace characters that starts `s`.
pub open spec fn word_end(s: Seq<char>) -> int
    decreases s.len(),
{
    if s.len() == 0 || is_ws(s[0]) {
        0
    } else {
        1 + word_end(s.drop_first())
    }
}

/// The pieces of `s` between the separators `c` (`str::split` with a `char`).
pub open spec fn split_char(s: Seq<char>, c: char) -> Seq<Seq<char>>
    decreases s.len(),
{
    let i = find_char(s, c);
    proof {
        lemma_find_char_range(s, c);
    }
    if i < 0 {
        seq![s]
    } else {
        seq![s.take(i)] + split_char(s.skip(i + 1), c)
    }
}

/// The value of a run of decimal digits.
pub open spec fn digits_value(s: Seq<char>) -> nat
    decreases s.len(),
{
    if s.len() == 0 {
        0
    } else {
        digits_value(s.drop_last()) * 10 + ((s.last() as u32) - ('0' as u32)) as nat
    }
}

pub open spec fn all_digits(s: Seq<char>) -> bool {
    forall|i: int| 0 <= i < s.len() ==> is_digit(#[trigger] s[i])
}

/// The digits that `str::parse` reads for an unsigned number: an optional `+`, then digits.
pub open spec fn unsigned_digits(s: Seq<char>) -> Seq<char> {
    if s.len() > 0 && s[0] == '+' {
        s.drop_first()
    } else {
        s
    }
}

/// What `str::parse::<u64>` (and `usize` on a 64-bit target) accepts, with its value.
pub open spec fn parse_unsigned(s: Seq<char>) -> Option<nat> {
    let d = unsigned_digits(s);
    if d.len() > 0 && all_digits(d) {
        Some(digits_value(d))
    } else {
        None
    }
}

/// Number of bytes of the UTF-8 encoding of `c`.
pub open spec fn utf8_width(c: char) -> nat {
    let u = c as u32;
    if u < 0x80 {
        1
    } else if u < 0x800 {
        2
    } else if u < 0x10000 {
        3
    } else {
        4
    }
}

/// Number of bytes of the UTF-8 encoding of `s` (`str::len`).
pub open spec fn utf8_len(s: Seq<char>) -> nat
    decreases s.len(),
{
    if s.len() == 0 {
        0
    } else {
        utf8_len(s.drop_last()) + utf8_width(s.last())
    }
}

/// Reads the characters of `s`.
pub fn chars_of(s: &str) -> (v: Vec<char>)
    ensures
        v@ == s@,
{
    let mut v: Vec<char> = Vec::new();
    for c in it: s.chars()
        invariant
            it.seq() == s@,
            v@ == it.seq().take(it.index() as int),
    {
        v.push(c);
    }
    v
}

/// `String::push`.
#[verifier::external_body]
pub(crate) fn push_char(s: &mut String, c: char)
    ensures
        final(s)@ == old(s)@.push(c),
{
    s.push(c);
}

/// `String::push_str`.
#[verifier::external_body]
pub(crate) fn push_str(s: &mut String, t: &str)
    ensures
        final(s)@ == old(s)@ + t@,
{
    s.push_str(t);
}

/// The string of the characters `v[lo..hi]`.
pub fn string_of(v: &Vec<char>, lo: usize, hi: usize) -> (s: String)
    requires
        lo <= hi <= v.len(),
    ensures
        s@ == v@.subrange(lo as int, hi as int),
{
    let mut s = String::new();
    let mut i: usize = lo;
    while i < hi
        invariant
            lo <= i <= hi <= v.len(),
            s@ == v@.subrange(lo as int, i as int),
        decreases hi - i,
    {
        push_char(&mut s, v[i]);
        assert(v@.subrange(lo as int, i + 1) == v@.subrange(lo as int, i as int).push(v@[i as int]));
        i = i + 1;
    }
    s
}

/// The string of all the characters of `v`.
pub fn string_from(v: &Vec<char>) -> (s: String)
    ensures
        s@ == v@,
{
    let s = string_of(v, 0, v.len());
    assert(v@.subrange(0, v@.len() as int) == v@);
    s
}

/// Appends `v[lo..hi]` to `s`.
pub fn push_range(s: &mut String, v: &Vec<char>, lo: usize, hi: usize)
    requires
        lo <= hi <= v.len(),
    ensures
        final(s)@ == old(s)@ + v@.subrange(lo as int, hi as int),
{
    let ghost start = s@;
    let mut i: usize = lo;
    while i < hi
        invariant
            lo <= i <= hi <= v.len(),
            s@ == start + v@.subrange(lo as int, i as int),
        decreases hi - i,
    {
        push_char(s, v[i]);
        assert(v@.subrange(lo as int, i + 1) == v@.subrange(lo as int, i as int).push(v@[i as int]));
        i = i + 1;
    }
}

/// `str::trim`, as an owned string.
pub fn trimmed(s: &str) -> (r: String)
    ensures
        r@ == trim(s@),
{
    let v = chars_of(s);
    let (lo, hi) = trim_range(&v, 0, v.len());
    assert(v@.subrange(0, v@.len() as int) == v@);
    string_of(&v, lo, hi)
}

/// The first line of `v[pos..]` ends at the newline `k`, before a carriage return there.
pub proof fn lemma_next_line_found(v: Seq<char>, pos: int, k: int, e: int)
    requires
        0 <= pos <= k < v.len(),
        find_char(v.subrange(pos, v.len() as int), '\n') == k - pos,
        e == (if k > pos && v[k - 1] == '\r' {
            k - 1
        } else {
            k
        }),
    ensures
        lines(v.subrange(pos, v.len() as int)) == seq![v.subrange(pos, e)] + lines(
            v.subrange(k + 1, v.len() as int),
        ),
{
    let rest = v.subrange(pos, v.len() as int);
    assert(rest.take(k - pos) == v.subrange(pos, k));
    assert(rest.skip(k - pos + 1) == v.subrange(k + 1, v.len() as int));
    assert(strip_cr(v.subrange(pos, k)) == v.subrange(pos, e));
}

/// The rest `v[pos..]` is its own last line.
pub proof fn lemma_next_line_last(v: Seq<char>, pos: int)
    requires
        0 <= pos < v.len(),
        find_char(v.subrange(pos, v.len() as int), '\n') < 0,
    ensures
        lines(v.subrange(pos, v.len() as int)) == seq![v.subrange(pos, v.len() as int)] + lines(
            v.subrange(v.len() as int, v.len() as int),
        ),
{
    let rest = v.subrange(pos, v.len() as int);
    assert(v.subrange(v.len() as int, v.len() as int) == Seq::<char>::empty());
    assert(lines(Seq::<char>::empty()) == Seq::<Seq<char>>::empty());
    assert(seq![rest] + Seq::<Seq<char>>::empty() == seq![rest]);
}

/// Where `find_seq` finds `p`, `p` is there.
pub proof fn lemma_find_seq_range(s: Seq<char>, p: Seq<char>)
    ensures
        find_seq(s, p) >= 0 ==> find_seq(s, p) + p.len() <= s.len() && s.subrange(
            find_seq(s, p),
            find_seq(s, p) + p.len(),
        ) == p,
        find_seq(s, p) >= -1,
    decreases s.len(),
{
    if p.len() > s.len() {
    } else if s.take(p.len() as int) =~= p {
        assert(s.subrange(0, p.len() as int) == s.take(p.len() as int));
    } else {
        lemma_find_seq_range(s.drop_first(), p);
        let r = find_seq(s.drop_first(), p);
        if r >= 0 {
            assert(s.subrange(r + 1, r + 1 + p.len()) == s.drop_first().subrange(r, r + p.len()));
        }
    }
}

/// `find_seq` gives the first index where `p` occurs in `s`, and -1 exactly when there
/// is none.
pub proof fn lemma_find_seq_first(s: Seq<char>, p: Seq<char>)
    ensures
        find_seq(s, p) == -1 ==> forall|j: int| !#[trigger] matches_at(s, p, j),
        find_seq(s, p) != -1 ==> 0 <= find_seq(s, p) && matches_at(s, p, find_seq(s, p))
            && forall|j: int| 0 <= j < find_seq(s, p) ==> !#[trigger] matches_at(s, p, j),
    decreases s.len(),
{
    if p.len() > s.len() {
    } else if s.take(p.len() as int) =~= p {
        assert(s.subrange(0, p.len() as int) == s.take(p.len() as int));
    } else {
        let t = s.drop_first();
        lemma_find_seq_first(t, p);
        assert forall|j: int| #[trigger] matches_at(s, p, j) implies j >= 1 && matches_at(
            t,
            p,
            j - 1,
        ) by {
            if j == 0 {
                assert(s.subrange(0, p.len() as int) == s.take(p.len() as int));
            } else {
                assert(s.subrange(j, j + p.len()) == t.subrange(j - 1, j - 1 + p.len()));
            }
        }
        let r = find_seq(t, p);
        if r >= 0 {
            assert(s.subrange(r + 1, r + 1 + p.len()) == t.subrange(r, r + p.len()));
        }
    }
}

/// Where `p` occurs in `s` at `i` and nowhere before, `find_seq` gives `i`.
pub proof fn lemma_find_seq_at(s: Seq<char>, p: Seq<char>, i: int)
    requires
        matches_at(s, p, i),
        forall|j: int| 0 <= j < i ==> !#[trigger] matches_at(s, p, j),
    ensures
        find_seq(s, p) == i,
{
    lemma_find_seq_first(s, p);
}

/// An occurrence in a prefix is an occurrence in the whole.
pub proof fn lemma_matches_at_prefix(a: Seq<char>, b: Seq<char>, p: Seq<char>, j: int)
    requires
        matches_at(a, p, j),
    ensures
        matches_at(a + b, p, j),
{
    assert((a + b).subrange(j, j + p.len()) == a.subrange(j, j + p.len()));
}

/// The first occurrence of `p` in `a` is its first occurrence in `a + b` too.
pub proof fn lemma_find_seq_prefix(a: Seq<char>, b: Seq<char>, p: Seq<char>)
    requires
        find_seq(a, p) >= 0,
    ensures
        find_seq(a + b, p) == find_seq(a, p),
{
    lemma_find_seq_first(a, p);
    let i = find_seq(a, p);
    lemma_matches_at_prefix(a, b, p, i);
    assert forall|j: int| 0 <= j < i implies !#[trigger] matches_at(a + b, p, j) by {
        if matches_at(a + b, p, j) {
            assert((a + b).subrange(j, j + p.len()) == a.subrange(j, j + p.len()));
            assert(matches_at(a, p, j));
        }
    }
    lemma_find_seq_at(a + b, p, i);
}

/// Appending text none of whose characters occur in `p` adds no occurrence of `p`.
pub proof fn lemma_no_match_append(a: Seq<char>, z: Seq<char>, p: Seq<char>)
    requires
        p.len() > 0,
        find_seq(a, p) == -1,
        forall|k: int, m: int| 0 <= k < z.len() && 0 <= m < p.len() ==> z[k] != p[m],
    ensures
        find_seq(a + z, p) == -1,
{
    lemma_find_seq_first(a, p);
    lemma_find_seq_first(a + z, p);
    if find_seq(a + z, p) != -1 {
        let j = find_seq(a + z, p);
        let w = (a + z).subrange(j, j + p.len());
        if j + p.len() <= a.len() {
            assert(w == a.subrange(j, j + p.len()));
            assert(matches_at(a, p, j));
        } else {
            let q = if j <= a.len() {
                a.len() as int
            } else {
                j
            };
            assert(w[q - j] == (a + z)[q]);
            assert(z[q - a.len()] == p[q - j]);
        }
    }
}

/// The end of the run of non-whitespace characters that starts at `lo`.
pub fn word_end_in(v: &Vec<char>, lo: usize, hi: usize) -> (j: usize)
    requires
        lo <= hi <= v.len(),
    ensures
        lo <= j <= hi,
        j - lo == word_end(v@.subrange(lo as int, hi as int)),
{
    let mut j = lo;
    while j < hi && !is_whitespace(v[j])
        invariant
            lo <= j <= hi <= v.len(),
            word_end(v@.subrange(lo as int, hi as int)) == (j - lo) + word_end(
                v@.subrange(j as int, hi as int),
            ),
        decreases hi - j,
    {
        assert(v@.subrange(j as int, hi as int).drop_first() == v@.subrange(j + 1, hi as int));
        j = j + 1;
    }
    j
}

/// The words of `v[i..n]` once its leading whitespace ends at `start` and its first word
/// at `end`.
pub proof fn lemma_words_step(v: Seq<char>, i: int, start: int, end: int)
    requires
        0 <= i <= start < end <= v.len(),
        v.subrange(start, v.len() as int) == trim_start(v.subrange(i, v.len() as int)),
        end - start == word_end(v.subrange(start, v.len() as int)),
    ensures
        words(v.subrange(i, v.len() as int)) == seq![v.subrange(start, end)] + words(
            v.subrange(end, v.len() as int),
        ),
{
    let t = v.subrange(start, v.len() as int);
    assert(t.take(end - start) == v.subrange(start, end));
    assert(t.skip(end - start) == v.subrange(end, v.len() as int));
}

/// `v[i..n]` has no words once its leading whitespace runs to the end.
pub proof fn lemma_words_none(v: Seq<char>, i: int)
    requires
        0 <= i <= v.len(),
        trim_start(v.subrange(i, v.len() as int)).len() == 0,
    ensures
        words(v.subrange(i, v.len() as int)) == Seq::<Seq<char>>::empty(),
{
}

/// `str::trim`, borrowing from `s`.
pub fn trim_str(s: &str) -> (r: &str)
    ensures
        r@ == trim(s@),
{
    let v = chars_of(s);
    let (lo, hi) = trim_range(&v, 0, v.len());
    assert(v@.subrange(0, v@.len() as int) == v@);
    s.substring_char(lo, hi)
}

/// A signed number in decimal (`{}` of an `i32` or `i64`).
pub open spec fn signed_decimal(n: int) -> Seq<char> {
    if n < 0 {
        seq!['-'] + decimal((-n) as nat)
    } else {
        decimal(n as nat)
    }
}

/// Appends `n` in decimal, with a minus sign when it is negative.
pub fn push_signed(s: &mut String, n: i64)
    ensures
        final(s)@ == old(s)@ + signed_decimal(n as int),
{
    if n < 0 {
        push_char(s, '-');
        let magnitude: u64 = if n == i64::MIN {
            9223372036854775808u64
        } else {
            (-n) as u64
        };
        push_decimal(s, magnitude);
    } else {
        push_decimal(s, n as u64);
    }
}

/// What `{:?}` prints for a string: the text in double quotes, with the characters
/// that `str::escape_debug` escapes written as escapes.
pub uninterp spec fn debug_quoted(s: Seq<char>) -> Seq<char>;

/// `format!("{:?}", s)` for a `&str`.
#[verifier::external_body]
pub(crate) fn debug_str(s: &str) -> (r: String)
    ensures
        r@ == debug_quoted(s@),
{
    format!("{:?}", s)
}

/// Appends the characters of `t` to `s`.
pub fn push_string(s: &mut String, t: &String)
    ensures
        final(s)@ == old(s)@ + t@,
{
    push_str(s, t.as_str());
}

pub proof fn lemma_trim_start_shape(s: Seq<char>)
    ensures
        trim_start(s).len() <= s.len(),
        trim_start(s) == s.skip(s.len() - trim_start(s).len()),
        trim_start(s).len() > 0 ==> !is_ws(trim_start(s)[0]),
        forall|k: int| 0 <= k < s.len() - trim_start(s).len() ==> is_ws(#[trigger] s[k]),
    decreases s.len(),
{
    if s.len() > 0 && is_ws(s[0]) {
        lemma_trim_start_shape(s.drop_first());
        assert(s.drop_first().skip(s.drop_first().len() - trim_start(s).len()) == s.skip(
            s.len() - trim_start(s).len(),
        ));
        assert forall|k: int| 0 <= k < s.len() - trim_start(s).len() implies is_ws(
            #[trigger] s[k],
        ) by {
            if k > 0 {
                assert(s[k] == s.drop_first()[k - 1]);
            }
        }
    } else {
        assert(s.skip(0) == s);
    }
}

pub proof fn lemma_trim_end_shape(s: Seq<char>)
    ensures
        trim_end(s).len() <= s.len(),
        trim_end(s) == s.take(trim_end(s).len() as int),
        trim_end(s).len() > 0 ==> !is_ws(trim_end(s).last()),
        forall|k: int| trim_end(s).len() <= k < s.len() ==> is_ws(#[trigger] s[k]),
    decreases s.len(),
{
    if s.len() > 0 && is_ws(s.last()) {
        lemma_trim_end_shape(s.drop_last());
        assert(s.drop_last().take(trim_end(s).len() as int) == s.take(trim_end(s).len() as int));
        assert forall|k: int| trim_end(s).len() <= k < s.len() implies is_ws(#[trigger] s[k]) by {
            if k < s.len() - 1 {
                assert(s[k] == s.drop_last()[k]);
            }
        }
    } else {
        assert(s.take(s.len() as int) == s);
    }
}

/// A trimmed text that is not empty starts and ends with a character that is not
/// whitespace.
pub proof fn lemma_trim_ends(s: Seq<char>)
    ensures
        trim(s).len() > 0 ==> !is_ws(trim(s)[0]) && !is_ws(trim(s).last()),
{
    let t = trim_start(s);
    lemma_trim_start_shape(s);
    lemma_trim_end_shape(t);
    if trim(s).len() > 0 {
        assert(trim(s)[0] == t[0]);
    }
}

/// A non-empty text has at least one line.
pub proof fn lemma_lines_nonempty(s: Seq<char>)
    requires
        s.len() > 0,
    ensures
        lines(s).len() >= 1,
{
}

pub proof fn lemma_word_end_range(s: Seq<char>)
    ensures
        0 <= word_end(s) <= s.len(),
        s.len() > 0 && !is_ws(s[0]) ==> word_end(s) >= 1,
        forall|k: int| 0 <= k < word_end(s) ==> !is_ws(#[trigger] s[k]),
        word_end(s) < s.len() ==> is_ws(s[word_end(s)]),
    decreases s.len(),
{
    if s.len() > 0 && !is_ws(s[0]) {
        lemma_word_end_range(s.drop_first());
        assert forall|k: int| 0 <= k < word_end(s) implies !is_ws(#[trigger] s[k]) by {
            if k > 0 {
                assert(s[k] == s.drop_first()[k - 1]);
            }
        }
    }
}

/// The first index at or after `lo` that is not whitespace (or `hi`).
pub fn skip_ws(v: &Vec<char>, lo: usize, hi: usize) -> (i: usize)
    requires
        lo <= hi <= v.len(),
    ensures
        lo <= i <= hi,
        v@.subrange(i as int, hi as int) == trim_start(v@.subrange(lo as int, hi as int)),
        i as int - lo == v@.subrange(lo as int, hi as int).len() - trim_start(
            v@.subrange(lo as int, hi as int),
        ).len(),
{
    let mut i = lo;
    while i < hi && is_whitespace(v[i])
        invariant
            lo <= i <= hi <= v.len(),
            trim_start(v@.subrange(lo as int, hi as int)) == trim_start(
                v@.subrange(i as int, hi as int),
            ),
        decreases hi - i,
    {
        assert(v@.subrange(i as int, hi as int).drop_first() == v@.subrange(i + 1, hi as int));
        i = i + 1;
    }
    i
}

/// The end of `v[lo..hi]` once trailing whitespace is dropped.
pub fn back_ws(v: &Vec<char>, lo: usize, hi: usize) -> (j: usize)
    requires
        lo <= hi <= v.len(),
    ensures
        lo <= j <= hi,
        v@.subrange(lo as int, j as int) == trim_end(v@.subrange(lo as int, hi as int)),
{
    let mut j = hi;
    while j > lo && is_whitespace(v[j - 1])
        invariant
            lo <= j <= hi <= v.len(),
            trim_end(v@.subrange(lo as int, hi as int)) == trim_end(
                v@.subrange(lo as int, j as int),
            ),
        decreases j - lo,
    {
        assert(v@.subrange(lo as int, j as int).drop_last() == v@.subrange(lo as int, j - 1));
        j = j - 1;
    }
    j
}

/// The bounds of `trim(v[lo..hi])`.
pub fn trim_range(v: &Vec<char>, lo: usize, hi: usize) -> (r: (usize, usize))
    requires
        lo <= hi <= v.len(),
    ensures
        lo <= r.0 <= r.1 <= hi,
        v@.subrange(r.0 as int, r.1 as int) == trim(v@.subrange(lo as int, hi as int)),
{
    let i = skip_ws(v, lo, hi);
    let j = back_ws(v, i, hi);
    (i, j)
}

pub proof fn lemma_find_char_range(s: Seq<char>, c: char)
    ensures
        -1 <= find_char(s, c) < s.len(),
        find_char(s, c) >= 0 ==> s[find_char(s, c)] == c,
        forall|k: int| 0 <= k < s.len() && (find_char(s, c) < 0 || k < find_char(s, c)) ==> s[k] != c,
    decreases s.len(),
{
    if s.len() > 0 && s[0] != c {
        lemma_find_char_range(s.drop_first(), c);
        assert forall|k: int|
            0 <= k < s.len() && (find_char(s, c) < 0 || k < find_char(s, c)) implies s[k] != c by {
            if k > 0 {
                assert(s[k] == s.drop_first()[k - 1]);
            }
        }
    }
}

/// The first index of `c` in `v[lo..hi]`, relative to `lo`, as `find_char` gives it.
pub fn find_char_in(v: &Vec<char>, lo: usize, hi: usize, c: char) -> (r: Option<usize>)
    requires
        lo <= hi <= v.len(),
    ensures
        match r {
            Some(k) => lo <= k < hi && find_char(v@.subrange(lo as int, hi as int), c) == k - lo,
            None => find_char(v@.subrange(lo as int, hi as int), c) < 0,
        },
{
    let mut i = lo;
    while i < hi
        invariant
            lo <= i <= hi <= v.len(),
            find_char(v@.subrange(lo as int, hi as int), c) == (if find_char(
                v@.subrange(i as int, hi as int),
                c,
            ) < 0 {
                -1
            } else {
                find_char(v@.subrange(i as int, hi as int), c) + (i - lo)
            }),
        decreases hi - i,
    {
        if v[i] == c {
            return Some(i);
        }
        assert(v@.subrange(i as int, hi as int).drop_first() == v@.subrange(i + 1, hi as int));
        i = i + 1;
    }
    None
}

/// The last index of `c` in `v[lo..hi]`, as `rfind_char` gives it relative to `lo`.
pub fn rfind_char_in(v: &Vec<char>, lo: usize, hi: usize, c: char) -> (r: Option<usize>)
    requires
        lo <= hi <= v.len(),
    ensures
        match r {
            Some(k) => lo <= k < hi && rfind_char(v@.subrange(lo as int, hi as int), c) == k - lo,
            None => rfind_char(v@.subrange(lo as int, hi as int), c) < 0,
        },
{
    let mut j = hi;
    while j > lo
        invariant
            lo <= j <= hi <= v.len(),
            rfind_char(v@.subrange(lo as int, hi as int), c) == rfind_char(
                v@.subrange(lo as int, j as int),
                c,
            ),
        decreases j - lo,
    {
        if v[j - 1] == c {
            return Some(j - 1);
        }
        assert(v@.subrange(lo as int, j as int).drop_last() == v@.subrange(lo as int, j - 1));
        j = j - 1;
    }
    None
}

/// Whether `p` occurs in `v` at `i`, with `i + p.len() <= hi`.
pub fn matches_at_exec(v: &Vec<char>, i: usize, hi: usize, p: &Vec<char>) -> (b: bool)
    requires
        i <= hi <= v.len(),
    ensures
        b == (i + p.len() <= hi && v@.subrange(i as int, i + p.len()) == p@),
{
    if p.len() > hi - i {
        return false;
    }
    let mut k: usize = 0;
    while k < p.len()
        invariant
            i + p.len() <= hi <= v.len(),
            k <= p.len(),
            forall|m: int| 0 <= m < k ==> v@[i + m] == p@[m],
        decreases p.len() - k,
    {
        if v[i + k] != p[k] {
            assert(v@.subrange(i as int, i + p.len())[k as int] != p@[k as int]);
            return false;
        }
        k = k + 1;
    }
    assert(v@.subrange(i as int, i + p.len()) == p@);
    true
}

/// The first occurrence of `p` in `v[lo..hi]`, relative to `lo`, as `find_seq` gives it.
pub fn find_seq_in(v: &Vec<char>, lo: usize, hi: usize, p: &Vec<char>) -> (r: Option<usize>)
    requires
        lo <= hi <= v.len(),
    ensures
        match r {
            Some(k) => lo <= k && k + p.len() <= hi && find_seq(
                v@.subrange(lo as int, hi as int),
                p@,
            ) == k - lo,
            None => find_seq(v@.subrange(lo as int, hi as int), p@) < 0,
        },
{
    let mut i = lo;
    while i <= hi
        invariant
            lo <= i <= hi + 1,
            hi <= v.len(),
            i <= hi ==> find_seq(v@.subrange(lo as int, hi as int), p@) == (if find_seq(
                v@.subrange(i as int, hi as int),
                p@,
            ) < 0 {
                -1
            } else {
                find_seq(v@.subrange(i as int, hi as int), p@) + (i - lo)
            }),
            i > hi ==> find_seq(v@.subrange(lo as int, hi as int), p@) < 0,
        decreases hi + 1 - i,
    {
        let ghost s = v@.subrange(i as int, hi as int);
        if p.len() > hi - i {
            assert(find_seq(s, p@) < 0);
            return None;
        }
        if matches_at_exec(v, i, hi, p) {
            assert(s.take(p@.len() as int) == v@.subrange(i as int, i + p@.len()));
            return Some(i);
        }
        assert(s.take(p@.len() as int) == v@.subrange(i as int, i + p@.len()));
        if i == hi {
            assert(p@.len() == 0);
            assert(s.take(0) == p@);
            assert(false);
        }
        assert(s.drop_first() == v@.subrange(i + 1, hi as int));
        i = i + 1;
    }
    None
}

/// Whether `v[lo..hi]` starts with `p`.
pub fn starts_with_in(v: &Vec<char>, lo: usize, hi: usize, p: &Vec<char>) -> (b: bool)
    requires
        lo <= hi <= v.len(),
    ensures
        b == starts_with(v@.subrange(lo as int, hi as int), p@),
{
    let b = matches_at_exec(v, lo, hi, p);
    assert(b ==> v@.subrange(lo as int, hi as int).take(p@.len() as int) == v@.subrange(
        lo as int,
        lo + p@.len(),
    ));
    assert(starts_with(v@.subrange(lo as int, hi as int), p@) ==> v@.subrange(
        lo as int,
        hi as int,
    ).take(p@.len() as int) == v@.subrange(lo as int, lo + p@.len()));
    b
}

/// Whether `v[lo..hi]` ends with `p`.
pub fn ends_with_in(v: &Vec<char>, lo: usize, hi: usize, p: &Vec<char>) -> (b: bool)
    requires
        lo <= hi <= v.len(),
    ensures
        b == ends_with(v@.subrange(lo as int, hi as int), p@),
{
    if p.len() > hi - lo {
        return false;
    }
    let b = matches_at_exec(v, hi - p.len(), hi, p);
    let ghost s = v@.subrange(lo as int, hi as int);
    assert(s.skip(s.len() - p@.len()) == v@.subrange(hi - p@.len(), hi as int));
    b
}


pub proof fn lemma_digits_value_prefix(s: Seq<char>, m: int)
    requires
        0 <= m <= s.len(),
    ensures
        digits_value(s.take(m)) <= digits_value(s),
    decreases s.len() - m,
{
    if m < s.len() {
        lemma_digits_value_prefix(s, m + 1);
        assert(s.take(m + 1).drop_last() == s.take(m));
    } else {
        assert(s.take(m) == s);
    }
}

/// `str::parse::<usize>` on `v[lo..hi]`.
pub fn parse_usize(v: &Vec<char>, lo: usize, hi: usize) -> (r: Option<usize>)
    requires
        lo <= hi <= v.len(),
    ensures
        r == (match parse_unsigned(v@.subrange(lo as int, hi as int)) {
            Some(n) => if n <= usize::MAX {
                Some(n as usize)
            } else {
                None
            },
            None => None,
        }),
{
    let ghost s = v@.subrange(lo as int, hi as int);
    let start = if lo < hi && v[lo] == '+' {
        lo + 1
    } else {
        lo
    };
    assert(unsigned_digits(s) == v@.subrange(start as int, hi as int));
    if start == hi {
        return None;
    }
    let mut acc: usize = 0;
    let mut i = start;
    while i < hi
        invariant
            lo <= start <= i <= hi <= v.len(),
            s == v@.subrange(lo as int, hi as int),
            unsigned_digits(s) == v@.subrange(start as int, hi as int),
            all_digits(v@.subrange(start as int, i as int)),
            acc == digits_value(v@.subrange(start as int, i as int)),
        decreases hi - i,
    {
        let c = v[i];
        if !('0' <= c && c <= '9') {
            assert(v@.subrange(start as int, hi as int)[i - start] == c);
            assert(!is_digit(unsigned_digits(s)[i - start]));
            assert(!all_digits(unsigned_digits(s)));
            assert(parse_unsigned(s).is_none());
            return None;
        }
        let d = (c as u32 - '0' as u32) as usize;
        let ghost next = v@.subrange(start as int, i + 1);
        assert(next.drop_last() == v@.subrange(start as int, i as int));
        assert(all_digits(next)) by {
            assert forall|k: int| 0 <= k < next.len() implies is_digit(#[trigger] next[k]) by {
                if k < next.len() - 1 {
                    assert(next[k] == v@.subrange(start as int, i as int)[k]);
                }
            }
        }
        if acc > (usize::MAX - d) / 10 {
            proof {
                let whole = v@.subrange(start as int, hi as int);
                assert(whole.take(i + 1 - start) == next);
                lemma_digits_value_prefix(whole, i + 1 - start);
                assert(next.last() == c);
                assert(digits_value(next) == acc * 10 + d);
                assert(acc * 10 + d > usize::MAX) by (nonlinear_arith)
                    requires
                        acc > (usize::MAX - d) / 10,
                        d <= 9,
                ;
            }
            return None;
        }
        acc = acc * 10 + d;
        i = i + 1;
    }
    Some(acc)
}


/// `str::parse::<u64>` on `v[lo..hi]`.
pub fn parse_u64(v: &Vec<char>, lo: usize, hi: usize) -> (r: Option<u64>)
    requires
        lo <= hi <= v.len(),
    ensures
        r == (match parse_unsigned(v@.subrange(lo as int, hi as int)) {
            Some(n) => if n <= u64::MAX {
                Some(n as u64)
            } else {
                None
            },
            None => None,
        }),
{
    let ghost s = v@.subrange(lo as int, hi as int);
    let start = if lo < hi && v[lo] == '+' {
        lo + 1
    } else {
        lo
    };
    assert(unsigned_digits(s) == v@.subrange(start as int, hi as int));
    if start == hi {
        return None;
    }
    let mut acc: u64 = 0;
    let mut i = start;
    while i < hi
        invariant
            lo <= start <= i <= hi <= v.len(),
            s == v@.subrange(lo as int, hi as int),
            unsigned_digits(s) == v@.subrange(start as int, hi as int),
            all_digits(v@.subrange(start as int, i as int)),
            acc == digits_value(v@.subrange(start as int, i as int)),
        decreases hi - i,
    {
        let c = v[i];
        if !('0' <= c && c <= '9') {
            assert(v@.subrange(start as int, hi as int)[i - start] == c);
            assert(!is_digit(unsigned_digits(s)[i - start]));
            assert(!all_digits(unsigned_digits(s)));
            assert(parse_unsigned(s).is_none());
            return None;
        }
        let d = (c as u32 - '0' as u32) as u64;
        let ghost next = v@.subrange(start as int, i + 1);
        assert(next.drop_last() == v@.subrange(start as int, i as int));
        assert(all_digits(next)) by {
            assert forall|k: int| 0 <= k < next.len() implies is_digit(#[trigger] next[k]) by {
                if k < next.len() - 1 {
                    assert(next[k] == v@.subrange(start as int, i as int)[k]);
                }
            }
        }
        if acc > (u64::MAX - d) / 10 {
            proof {
                let whole = v@.subrange(start as int, hi as int);
                assert(whole.take(i + 1 - start) == next);
                lemma_digits_value_prefix(whole, i + 1 - start);
                assert(next.last() == c);
                assert(digits_value(next) == acc * 10 + d);
                assert(acc * 10 + d > u64::MAX) by (nonlinear_arith)
                    requires
                        acc > (u64::MAX - d) / 10,
                        d <= 9,
                ;
            }
            return None;
        }
        acc = acc * 10 + d;
        i = i + 1;
    }
    Some(acc)
}


/// `items` joined with `sep` between them (`[..].join(sep)`).
pub open spec fn join_spec(items: Seq<Seq<char>>, sep: Seq<char>) -> Seq<char>
    decreases items.len(),
{
    if items.len() == 0 {
        Seq::empty()
    } else if items.len() == 1 {
        items[0]
    } else {
        join_spec(items.drop_last(), sep) + sep + items.last()
    }
}

/// The views of a list of strings.
pub open spec fn texts(items: Seq<String>) -> Seq<Seq<char>> {
    Seq::new(items.len(), |i: int| items[i]@)
}

pub fn join_strings(items: &Vec<String>, sep: &str) -> (r: String)
    ensures
        r@ == join_spec(texts(items@), sep@),
{
    let mut r = String::new();
    let mut i: usize = 0;
    while i < items.len()
        invariant
            i <= items@.len(),
            r@ == join_spec(texts(items@.take(i as int)), sep@),
        decreases items@.len() - i,
    {
        if i > 0 {
            push_str(&mut r, sep);
        }
        push_string(&mut r, &items[i]);
        proof {
            let next = texts(items@.take(i + 1));
            assert(next.drop_last() == texts(items@.take(i as int)));
            assert(next.last() == items@[i as int]@);
            if i == 0 {
                assert(texts(items@.take(0)) == Seq::<Seq<char>>::empty());
            }
        }
        i += 1;
    }
    assert(items@.take(items@.len() as int) == items@);
    r
}

pub proof fn lemma_utf8_len_bound(s: Seq<char>)
    ensures
        utf8_len(s) <= 4 * s.len(),
    decreases s.len(),
{
    if s.len() > 0 {
        lemma_utf8_len_bound(s.drop_last());
    }
}

/// Number of bytes of the UTF-8 encoding of `v[lo..hi]`.
pub fn utf8_len_in(v: &Vec<char>, lo: usize, hi: usize) -> (n: u128)
    requires
        lo <= hi <= v.len(),
    ensures
        n == utf8_len(v@.subrange(lo as int, hi as int)),
{
    let mut n: u128 = 0;
    let mut i = lo;
    while i < hi
        invariant
            lo <= i <= hi <= v.len(),
            n == utf8_len(v@.subrange(lo as int, i as int)),
        decreases hi - i,
    {
        proof {
            lemma_utf8_len_bound(v@.subrange(lo as int, i as int));
            assert(v@.subrange(lo as int, i + 1).drop_last() == v@.subrange(lo as int, i as int));
        }
        let u = v[i] as u32;
        let w: u128 = if u < 0x80 {
            1
        } else if u < 0x800 {
            2
        } else if u < 0x10000 {
            3
        } else {
            4
        };
        n = n + w;
        i = i + 1;
    }
    n
}


/// Whether two character vectors are equal.
pub fn chars_eq(a: &Vec<char>, b: &Vec<char>) -> (r: bool)
    ensures
        r == (a@ == b@),
{
    if a.len() != b.len() {
        return false;
    }
    let mut i: usize = 0;
    while i < a.len()
        invariant
            a.len() == b.len(),
            i <= a.len(),
            forall|k: int| 0 <= k < i ==> a@[k] == b@[k],
        decreases a.len() - i,
    {
        if a[i] != b[i] {
            return false;
        }
        i = i + 1;
    }
    assert(a@ == b@);
    true
}

/// `==` on `str`.
pub fn str_eq(a: &str, b: &str) -> (r: bool)
    ensures
        r == (a@ == b@),
{
    let x = chars_of(a);
    let y = chars_of(b);
    chars_eq(&x, &y)
}


/// A hexadecimal digit, in lower case.
pub open spec fn hex_digit(d: nat) -> char {
    if d < 10 {
        (48 + d) as char
    } else {
        (87 + d) as char
    }
}

/// The character of a decimal digit.
pub open spec fn digit_char(d: nat) -> char {
    (48 + d) as char
}

/// The decimal digits of `n` (`{}` of an unsigned number).
pub open spec fn decimal(n: nat) -> Seq<char>
    decreases n,
{
    if n < 10 {
        seq![digit_char(n)]
    } else {
        decimal(n / 10).push(digit_char(n % 10))
    }
}

/// `n` in decimal, padded on the left with zeros to `width` characters (`{:0w}`).
pub open spec fn zero_padded(n: nat, width: nat) -> Seq<char> {
    let d = decimal(n);
    if d.len() >= width {
        d
    } else {
        Seq::new((width - d.len()) as nat, |i: int| '0') + d
    }
}

pub proof fn lemma_decimal_len(n: nat)
    ensures
        decimal(n).len() >= 1,
        n < 10 <==> decimal(n).len() == 1,
        n < 100 ==> decimal(n).len() <= 2,
    decreases n,
{
    if n >= 10 {
        lemma_decimal_len(n / 10);
    }
}

/// The decimal digits of `n` are digits, and read back as `n`.
pub proof fn lemma_decimal_reads_back(n: nat)
    ensures
        all_digits(decimal(n)),
        digits_value(decimal(n)) == n,
        parse_unsigned(decimal(n)) == Some(n),
    decreases n,
{
    lemma_decimal_len(n);
    assert((digit_char(n % 10) as u32) == 48 + n % 10);
    if n < 10 {
        assert(decimal(n).drop_last() == Seq::<char>::empty());
        assert(digits_value(decimal(n)) == digits_value(Seq::<char>::empty()) * 10 + ((
        decimal(n).last() as u32) - ('0' as u32)) as nat);
    }
    if n >= 10 {
        lemma_decimal_reads_back(n / 10);
        let d = decimal(n);
        assert(n == (n / 10) * 10 + n % 10);
        assert(d.last() == digit_char(n % 10));
        assert(digits_value(d) == digits_value(d.drop_last()) * 10 + ((d.last() as u32) - (
        '0' as u32)) as nat);
        assert(d.drop_last() == decimal(n / 10));
        assert forall|i: int| 0 <= i < d.len() implies is_digit(#[trigger] d[i]) by {
            if i < d.len() - 1 {
                assert(d[i] == decimal(n / 10)[i]);
            }
        }
    }
    assert(decimal(n)[0] != '+');
}

/// A run of characters with no whitespace is one word.
pub proof fn lemma_single_word(t: Seq<char>)
    requires
        t.len() > 0,
        forall|k: int| 0 <= k < t.len() ==> !is_ws(#[trigger] t[k]),
    ensures
        words(t) == seq![t],
{
    lemma_word_end_all(t);
    assert(t.take(t.len() as int) == t);
    assert(t.skip(t.len() as int) == Seq::<char>::empty());
    assert(trim_start(Seq::<char>::empty()) == Seq::<char>::empty());
    assert(words(Seq::<char>::empty()) == Seq::<Seq<char>>::empty());
    assert(seq![t] + Seq::<Seq<char>>::empty() == seq![t]);
}

proof fn lemma_word_end_all(t: Seq<char>)
    requires
        forall|k: int| 0 <= k < t.len() ==> !is_ws(#[trigger] t[k]),
    ensures
        word_end(t) == t.len(),
    decreases t.len(),
{
    if t.len() > 0 {
        assert forall|k: int| 0 <= k < t.drop_first().len() implies !is_ws(
            #[trigger] t.drop_first()[k],
        ) by {
            assert(t.drop_first()[k] == t[k + 1]);
        }
        lemma_word_end_all(t.drop_first());
    }
}

/// In `a`, `c` and then `b`, with no `c` in `a`, the first `c` is the one after `a`.
pub proof fn lemma_find_char_after(a: Seq<char>, b: Seq<char>, c: char)
    requires
        forall|k: int| 0 <= k < a.len() ==> #[trigger] a[k] != c,
    ensures
        find_char(a + seq![c] + b, c) == a.len(),
    decreases a.len(),
{
    let s = a + seq![c] + b;
    if a.len() > 0 {
        assert(s.drop_first() == a.drop_first() + seq![c] + b);
        assert forall|k: int| 0 <= k < a.drop_first().len() implies #[trigger] a.drop_first()[k]
            != c by {
            assert(a.drop_first()[k] == a[k + 1]);
        }
        lemma_find_char_after(a.drop_first(), b, c);
    }
}

/// A text with no `c` in it is one piece when split at `c`.
pub proof fn lemma_split_none(a: Seq<char>, c: char)
    requires
        forall|k: int| 0 <= k < a.len() ==> #[trigger] a[k] != c,
    ensures
        split_char(a, c) == seq![a],
{
    lemma_find_char_range(a, c);
    assert(a + Seq::<char>::empty() == a);
    if find_char(a, c) >= 0 {
        let i = find_char(a, c);
        assert(a[i] == c);
    }
}

/// Splitting `a`, `c`, `b` at `c`, with no `c` in `a`, gives `a` and then the pieces of `b`.
pub proof fn lemma_split_after(a: Seq<char>, b: Seq<char>, c: char)
    requires
        forall|k: int| 0 <= k < a.len() ==> #[trigger] a[k] != c,
    ensures
        split_char(a + seq![c] + b, c) == seq![a] + split_char(b, c),
{
    lemma_find_char_after(a, b, c);
    let s = a + seq![c] + b;
    assert(s.take(a.len() as int) == a);
    assert(s.skip(a.len() + 1int) == b);
}

/// Appends `n` in decimal.
pub fn push_decimal(s: &mut String, n: u64)
    ensures
        final(s)@ == old(s)@ + decimal(n as nat),
    decreases n,
{
    if n >= 10 {
        push_decimal(s, n / 10);
    }
    let d = (n % 10) as u8;
    let c = (48 + d) as char;
    assert(c == digit_char((n % 10) as nat));
    push_char(s, c);
}

/// The decimal text of `n`.
pub fn decimal_string(n: u64) -> (r: String)
    ensures
        r@ == decimal(n as nat),
{
    let mut s = String::new();
    push_decimal(&mut s, n);
    s
}


/// Number of decimal digits of `n`.
pub fn decimal_len(n: u64) -> (r: usize)
    ensures
        r == decimal(n as nat).len(),
        1 <= r <= 20,
    decreases n,
{
    if n < 10 {
        1
    } else {
        let r = decimal_len(n / 10);
        assert(decimal(n as nat) == decimal((n / 10) as nat).push(digit_char((n % 10) as nat)));
        assert(n / 10 < n);
        proof {
            lemma_decimal_len_bound(n as nat);
        }
        r + 1
    }
}

pub proof fn lemma_decimal_len_bound(n: nat)
    ensures
        n <= u64::MAX ==> decimal(n).len() <= 20,
{
    if n <= u64::MAX {
        assert(pow10(20) == 100_000_000_000_000_000_000) by {
            reveal_with_fuel(pow10, 21);
        }
        lemma_decimal_len_pow10(n, 20);
    }
}

pub proof fn lemma_decimal_len_pow10(n: nat, k: nat)
    requires
        k >= 1,
        n < pow10(k),
    ensures
        decimal(n).len() <= k,
    decreases n,
{
    if n >= 10 {
        if k == 1 {
            assert(pow10(1) == 10) by {
                reveal_with_fuel(pow10, 2);
            }
        }
        assert(k >= 2);
        assert(pow10(k) == 10 * pow10((k - 1) as nat));
        assert(n / 10 < pow10((k - 1) as nat)) by (nonlinear_arith)
            requires
                n < pow10(k),
                pow10(k) == 10 * pow10((k - 1) as nat),
        ;
        lemma_decimal_len_pow10(n / 10, (k - 1) as nat);
    }
}

pub open spec fn pow10(k: nat) -> nat
    decreases k,
{
    if k == 0 {
        1
    } else {
        10 * pow10((k - 1) as nat)
    }
}

/// Appends `n` in decimal, padded with zeros to `width` characters.
pub fn push_padded(s: &mut String, n: u64, width: usize)
    ensures
        final(s)@ == old(s)@ + zero_padded(n as nat, width as nat),
{
    let len = decimal_len(n);
    let ghost start = s@;
    let mut k = len;
    while k < width
        invariant
            len <= k,
            k <= width || len >= width,
            len >= width ==> k == len,
            len == decimal(n as nat).len(),
            s@ == start + Seq::new((k - len) as nat, |i: int| '0'),
        decreases width - k,
    {
        push_char(s, '0');
        assert(Seq::new((k + 1 - len) as nat, |i: int| '0') == Seq::new((k - len) as nat, |i: int| '0').push('0'));
        k = k + 1;
    }
    let ghost zeros = s@;
    push_decimal(s, n);
    assert(s@ == start + zero_padded(n as nat, width as nat)) by {
        if len >= width {
            assert(Seq::new((k - len) as nat, |i: int| '0') == Seq::<char>::empty());
            assert(start + Seq::<char>::empty() == start);
        } else {
            assert(k == width);
        }
    }
}

} // verus!
