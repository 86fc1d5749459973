//! Narrative documents kept in a project's store.
use vstd::prelude::*;

use crate::error::{Error, Result};
use crate::home::{DOCUMENTS_DIR_NAME, ProjectHome, in_root};
use crate::paths::{is_absolute, join};
use crate::text::{chars_of, find_char_in, push_range, push_str, push_string, split_char, trim, trim_range};

verus! {

/// Whether a relative path names a file by plain components only: it is not
/// absolute, does not start with `.`, and holds no `..`.
pub open spec fn plain_components(p: Seq<char>) -> bool {
    let parts = split_char(p, '/');
    &&& !is_absolute(p)
    &&& parts[0] != seq!['.']
    &&& forall|i: int| 0 <= i < parts.len() ==> #[trigger] parts[i] != seq!['.', '.']
}

/// Where a document named `name` lives: under the project's `docs/`, refused when the
/// trimmed name is empty or leaves that directory.
pub open spec fn document_path_spec(home: Seq<char>, name: Seq<char>) -> std::result::Result<Seq<char>, Seq<char>> {
    let t = trim(name);
    let docs = in_root(home, DOCUMENTS_DIR_NAME);
    if t.len() == 0 {
        std::result::Result::Err("a document needs a name"@)
    } else if !plain_components(t) {
        std::result::Result::Err(
            "`"@ + name + "` is not a document name inside the store: name a file under `"@ + docs
                + "`"@,
        )
    } else {
        std::result::Result::Ok(join(docs, t))
    }
}

pub proof fn lemma_split_char_nonempty(s: Seq<char>, c: char)
    ensures
        split_char(s, c).len() >= 1,
{
    crate::text::lemma_find_char_range(s, c);
}

/// Whether `v[lo..hi]` is made of plain components.
fn plain_components_in(v: &Vec<char>, lo: usize, hi: usize) -> (b: bool)
    requires
        lo <= hi <= v.len(),
    ensures
        b == plain_components(v@.subrange(lo as int, hi as int)),
{
    let ghost t = v@.subrange(lo as int, hi as int);
    proof {
        lemma_split_char_nonempty(t, '/');
    }
    if lo < hi && v[lo] == '/' {
        return false;
    }
    let mut pos = lo;
    let ghost mut done: Seq<Seq<char>> = Seq::empty();
    loop
        invariant
            lo <= pos <= hi <= v.len(),
            t == v@.subrange(lo as int, hi as int),
            !is_absolute(t),
            split_char(t, '/') == done + split_char(v@.subrange(pos as int, hi as int), '/'),
            done.len() > 0 ==> done[0] != seq!['.'],
            (pos == lo) <==> (done.len() == 0),
            forall|i: int| 0 <= i < done.len() ==> #[trigger] done[i] != seq!['.', '.'],
        decreases hi - pos,
    {
        let ghost src = v@.subrange(pos as int, hi as int);
        let found = find_char_in(v, pos, hi, '/');
        let end = match found {
            Some(k) => k,
            None => hi,
        };
        let ghost piece = v@.subrange(pos as int, end as int);
        let is_dot = end - pos == 1 && v[pos] == '.';
        let is_dot_dot = end - pos == 2 && v[pos] == '.' && v[pos + 1] == '.';
        proof {
            assert(piece.len() == end - pos);
            if piece == seq!['.'] {
                assert(piece[0] == v@[pos as int]);
            }
            if piece == seq!['.', '.'] {
                assert(piece[0] == v@[pos as int] && piece[1] == v@[pos + 1]);
            }
            if is_dot {
                assert(piece =~= seq!['.']);
            }
            if is_dot_dot {
                assert(piece =~= seq!['.', '.']);
            }
            assert(is_dot <==> piece == seq!['.']);
            assert(is_dot_dot <==> piece == seq!['.', '.']);
            match found {
                Some(k) => {
                    assert(src.take(k - pos) == piece);
                    assert(src.skip(k - pos + 1) == v@.subrange(k + 1, hi as int));
                    assert(split_char(src, '/') == seq![piece] + split_char(
                        v@.subrange(k + 1, hi as int),
                        '/',
                    ));
                },
                None => {
                    assert(src == piece);
                    assert(split_char(src, '/') == seq![piece]);
                },
            }
            assert((done + split_char(src, '/'))[done.len() as int] == piece);
        }
        if is_dot_dot || (done_is_empty(pos, lo) && is_dot) {
            return false;
        }
        match found {
            Some(k) => {
                proof {
                    assert(done + split_char(src, '/') == done.push(piece) + split_char(
                        v@.subrange(k + 1, hi as int),
                        '/',
                    ));
                    done = done.push(piece);
                }
                pos = k + 1;
            },
            None => {
                proof {
                    assert(done + seq![piece] == done.push(piece));
                    done = done.push(piece);
                }
                return true;
            },
        }
    }
}

/// Whether nothing has been split off yet: the scan is still at the start.
fn done_is_empty(pos: usize, lo: usize) -> (b: bool)
    ensures
        b == (pos == lo),
{
    pos == lo
}

pub fn document_path(home: &ProjectHome, name: &str) -> (r: Result<String>)
    ensures
        match r {
            Ok(path) => document_path_spec(home@, name@) == std::result::Result::Ok::<Seq<char>, Seq<char>>(path@),
            Err(e) => e.kind() is Project && document_path_spec(home@, name@) == std::result::Result::Err::<
                Seq<char>,
                Seq<char>,
            >(e.detail()),
        },
{
    let v = chars_of(name);
    let n = v.len();
    assert(v@.subrange(0, n as int) == v@);
    let (a, b) = trim_range(&v, 0, n);
    if a == b {
        let mut message = String::new();
        push_str(&mut message, "a document needs a name");
        return Err(Error::Project(message));
    }
    let docs = home.documents_dir();
    if !plain_components_in(&v, a, b) {
        let mut message = String::new();
        push_str(&mut message, "`");
        push_str(&mut message, name);
        push_str(&mut message, "` is not a document name inside the store: name a file under `");
        push_string(&mut message, &docs);
        push_str(&mut message, "`");
        return Err(Error::Project(message));
    }
    let mut relative = String::new();
    push_range(&mut relative, &v, a, b);
    assert(relative@ == v@.subrange(a as int, b as int));
    Ok(crate::paths::join_path(docs.as_str(), relative.as_str()))
}

} // verus!
