//! File system paths, held as text with `/` as the separator, and joined the way
//! `Path::join` joins them on Unix.
use vstd::prelude::*;

use crate::text::{chars_of, push_str, rfind_char, rfind_char_in, string_of};

verus! {

/// `Path::is_absolute` on Unix.
pub open spec fn is_absolute(p: Seq<char>) -> bool {
    p.len() > 0 && p[0] == '/'
}

/// `Path::join` on Unix: an absolute `rel` replaces `base`, otherwise a separator is
/// put between them unless `base` is empty or already ends in one.
pub open spec fn join(base: Seq<char>, rel: Seq<char>) -> Seq<char> {
    if is_absolute(rel) {
        rel
    } else if base.len() == 0 || base.last() == '/' {
        base + rel
    } else {
        base + seq!['/'] + rel
    }
}

/// `base.join(rel)`.
pub fn join_path(base: &str, rel: &str) -> (r: String)
    ensures
        r@ == join(base@, rel@),
{
    let b = chars_of(base);
    let r = chars_of(rel);
    let mut out = String::new();
    if r.len() > 0 && r[0] == '/' {
        push_str(&mut out, rel);
        return out;
    }
    push_str(&mut out, base);
    if !(b.len() == 0 || b[b.len() - 1] == '/') {
        push_str(&mut out, "/");
        proof {
            reveal_strlit("/");
        }
    }
    push_str(&mut out, rel);
    out
}


/// A path without the trailing separators and `.` components that `Path` looks through.
pub open spec fn trim_tail(s: Seq<char>) -> Seq<char>
    decreases s.len(),
{
    if s.len() > 1 && s.last() == '/' {
        trim_tail(s.drop_last())
    } else if s.len() > 1 && s.last() == '.' && s[s.len() - 2] == '/' {
        trim_tail(s.drop_last())
    } else {
        s
    }
}

/// `Path::file_name`: the last component, unless the path ends in the root, `.` or `..`.
pub open spec fn file_name_spec(p: Seq<char>) -> Option<Seq<char>> {
    let t = trim_tail(p);
    let i = rfind_char(t, '/');
    let name = if i < 0 {
        t
    } else {
        t.skip(i + 1)
    };
    if name.len() == 0 || name == seq!['.'] || name == seq!['.', '.'] {
        None
    } else {
        Some(name)
    }
}

/// `Path::parent`: the path without its last component; none for the root or the
/// empty path.
pub open spec fn parent_spec(p: Seq<char>) -> Option<Seq<char>> {
    let t = trim_tail(p);
    if t.len() == 0 || t == seq!['/'] {
        None
    } else {
        let i = rfind_char(t, '/');
        if i < 0 {
            Some(Seq::empty())
        } else if i == 0 {
            Some(seq!['/'])
        } else {
            Some(trim_tail(t.take(i)))
        }
    }
}

/// The end of `trim_tail(v[0..hi])`.
fn trim_tail_end(v: &Vec<char>, hi: usize) -> (e: usize)
    requires
        hi <= v.len(),
    ensures
        e <= hi,
        v@.take(e as int) == trim_tail(v@.take(hi as int)),
{
    let mut e = hi;
    loop
        invariant
            e <= hi <= v.len(),
            trim_tail(v@.take(hi as int)) == trim_tail(v@.take(e as int)),
        decreases e,
    {
        assert(v@.take(e as int).len() == e);
        if e > 1 && v[e - 1] == '/' {
            assert(v@.take(e as int).drop_last() == v@.take(e - 1));
            e = e - 1;
        } else if e > 1 && v[e - 1] == '.' && v[e - 2] == '/' {
            assert(v@.take(e as int).drop_last() == v@.take(e - 1));
            e = e - 1;
        } else {
            return e;
        }
    }
}

pub fn path_file_name(p: &str) -> (r: Option<String>)
    ensures
        match r {
            Some(name) => file_name_spec(p@) == Some(name@),
            None => file_name_spec(p@) is None,
        },
{
    let v = chars_of(p);
    assert(v@.take(v@.len() as int) == v@);
    let e = trim_tail_end(&v, v.len());
    assert(v@.subrange(0, e as int) == v@.take(e as int));
    let start = match rfind_char_in(&v, 0, e, '/') {
        Some(i) => i + 1,
        None => 0,
    };
    let ghost t = v@.take(e as int);
    assert(t.skip(start as int) == v@.subrange(start as int, e as int));
    assert(start == 0 ==> t == v@.subrange(0, e as int));
    let len = e - start;
    if len == 0 || (len == 1 && v[start] == '.') || (len == 2 && v[start] == '.' && v[start + 1]
        == '.') {
        proof {
            let name = v@.subrange(start as int, e as int);
            if len == 1 {
                assert(name == seq!['.']);
            }
            if len == 2 {
                assert(name == seq!['.', '.']);
            }
        }
        return None;
    }
    let name = string_of(&v, start, e);
    proof {
        let n = v@.subrange(start as int, e as int);
        if n == seq!['.'] {
            assert(n.len() == 1 && n[0] == v@[start as int]);
        }
        if n == seq!['.', '.'] {
            assert(n.len() == 2 && n[0] == v@[start as int] && n[1] == v@[start + 1]);
        }
    }
    Some(name)
}

pub fn path_parent(p: &str) -> (r: Option<String>)
    ensures
        match r {
            Some(parent) => parent_spec(p@) == Some(parent@),
            None => parent_spec(p@) is None,
        },
{
    let v = chars_of(p);
    assert(v@.take(v@.len() as int) == v@);
    let e = trim_tail_end(&v, v.len());
    let ghost t = v@.take(e as int);
    assert(v@.subrange(0, e as int) == t);
    if e == 0 || (e == 1 && v[0] == '/') {
        proof {
            if e == 1 {
                assert(t == seq!['/']);
            }
        }
        return None;
    }
    assert(t != seq!['/']) by {
        if t == seq!['/'] {
            assert(t[0] == v@[0]);
        }
    }
    match rfind_char_in(&v, 0, e, '/') {
        None => Some(String::new()),
        Some(0) => {
            let mut root = String::new();
            crate::text::push_char(&mut root, '/');
            Some(root)
        },
        Some(i) => {
            let f = trim_tail_end(&v, i);
            assert(t.take(i as int) == v@.take(i as int));
            Some(string_of(&v, 0, f))
        },
    }
}

} // verus!
