//! Evidence attached to a pull request: the manifest an evidence command prints, the
//! `## Proof` section rendered from it, and how that section lives inside a body.
use vstd::prelude::*;
use vstd::string::StrSliceExecFns;
use std::time::Duration;

use crate::error::{Error, ErrorKind};

use crate::paths::{join, join_path};
use crate::text::{ascii_lower, chars_of, contains_seq, find_char, find_char_in, find_seq, find_seq_in, lines, lower_seq, push_range, push_str, push_string, rfind_char, rfind_char_in, str_eq, string_of, to_ascii_lowercase, trim, trim_end, trim_range, trim_start, matches_at, starts_with, lemma_find_seq_first, lemma_find_seq_at, lemma_find_seq_prefix, lemma_matches_at_prefix, lemma_no_match_append, lemma_trim_end_shape};

verus! {

pub const PROOF_START: &'static str = "<!-- depot-proof:start -->";

pub const PROOF_END: &'static str = "<!-- depot-proof:end -->";

pub const MANAGED_MARKER: &'static str = "<!-- depot-managed -->";

/// One record of an evidence manifest: a URL, or a file the command wrote.
#[derive(Debug, Clone, PartialEq, Eq)]
pub enum EvidenceArtifact {
    Url { url: String, caption: String },
    File { path: String, caption: String },
}

/// An evidence record once its file path is resolved against the worktree.
#[derive(Debug, Clone, PartialEq, Eq)]
pub enum ResolvedArtifact {
    Url { url: String, caption: String },
    LocalFile { path: String, caption: String },
}

/// What an evidence record says: whether it is a URL, its URL or path, and its caption.
pub struct ArtifactView {
    pub is_url: bool,
    pub target: Seq<char>,
    pub caption: Seq<char>,
}

impl View for EvidenceArtifact {
    type V = ArtifactView;

    open spec fn view(&self) -> ArtifactView {
        match self {
            EvidenceArtifact::Url { url, caption } => ArtifactView {
                is_url: true,
                target: url@,
                caption: caption@,
            },
            EvidenceArtifact::File { path, caption } => ArtifactView {
                is_url: false,
                target: path@,
                caption: caption@,
            },
        }
    }
}

impl View for ResolvedArtifact {
    type V = ArtifactView;

    open spec fn view(&self) -> ArtifactView {
        match self {
            ResolvedArtifact::Url { url, caption } => ArtifactView {
                is_url: true,
                target: url@,
                caption: caption@,
            },
            ResolvedArtifact::LocalFile { path, caption } => ArtifactView {
                is_url: false,
                target: path@,
                caption: caption@,
            },
        }
    }
}

/// What an evidence command reported.
#[derive(Debug, Clone, PartialEq, Eq)]
pub struct EvidenceOutput {
    pub exit_code: i32,
    pub stdout: String,
}

impl ResolvedArtifact {
    pub fn caption(&self) -> (r: &str)
        ensures
            r@ == self@.caption,
    {
        match self {
            ResolvedArtifact::Url { caption, .. } => caption.as_str(),
            ResolvedArtifact::LocalFile { caption, .. } => caption.as_str(),
        }
    }

    pub fn is_url(&self) -> (b: bool)
        ensures
            b == self@.is_url,
    {
        match self {
            ResolvedArtifact::Url { .. } => true,
            ResolvedArtifact::LocalFile { .. } => false,
        }
    }
}

pub open spec fn scheme_separator() -> Seq<char> {
    seq![':', '/', '/']
}

/// The record a manifest line holds: `value<TAB>caption`, with a non-empty value.
pub open spec fn manifest_record(line: Seq<char>) -> Option<ArtifactView> {
    let t = trim(line);
    let i = find_char(t, '\t');
    if i < 0 {
        None
    } else {
        let value = trim(t.take(i));
        if value.len() == 0 {
            None
        } else {
            Some(
                ArtifactView {
                    is_url: contains_seq(value, scheme_separator()),
                    target: value,
                    caption: trim(t.skip(i + 1)),
                },
            )
        }
    }
}

/// The records of the lines `ls`, in order, skipping lines that hold none.
pub open spec fn manifest_records(ls: Seq<Seq<char>>) -> Seq<ArtifactView>
    decreases ls.len(),
{
    if ls.len() == 0 {
        Seq::empty()
    } else {
        let done = manifest_records(ls.drop_last());
        match manifest_record(ls.last()) {
            Some(a) => done.push(a),
            None => done,
        }
    }
}

pub open spec fn artifacts_view(v: Seq<EvidenceArtifact>) -> Seq<ArtifactView> {
    Seq::new(v.len(), |i: int| v[i]@)
}

pub open spec fn resolved_view(v: Seq<ResolvedArtifact>) -> Seq<ArtifactView> {
    Seq::new(v.len(), |i: int| v[i]@)
}

/// Reads one manifest line `v[lo..hi]`.
fn manifest_line(v: &Vec<char>, lo: usize, hi: usize) -> (r: Option<EvidenceArtifact>)
    requires
        lo <= hi <= v.len(),
    ensures
        match r {
            Some(a) => manifest_record(v@.subrange(lo as int, hi as int)) == Some(a@),
            None => manifest_record(v@.subrange(lo as int, hi as int)) is None,
        },
{
    let (a, b) = trim_range(v, lo, hi);
    let ghost t = v@.subrange(a as int, b as int);
    let tab = match find_char_in(v, a, b, '\t') {
        Some(k) => k,
        None => return None,
    };
    assert(t.take(tab - a) == v@.subrange(a as int, tab as int));
    assert(t.skip(tab - a + 1) == v@.subrange(tab + 1, b as int));
    let (c, d) = trim_range(v, a, tab);
    if c == d {
        return None;
    }
    let (e, f) = trim_range(v, tab + 1, b);
    let value = string_of(v, c, d);
    let caption = string_of(v, e, f);
    let separator = vec![':', '/', '/'];
    assert(separator@ == scheme_separator());
    let is_url = match find_seq_in(v, c, d, &separator) {
        Some(_) => true,
        None => false,
    };
    if is_url {
        Some(EvidenceArtifact::Url { url: value, caption })
    } else {
        Some(EvidenceArtifact::File { path: value, caption })
    }
}

/// The records of an evidence manifest: one `value<TAB>caption` per line, a value with
/// `://` in it being a URL and any other value a file; lines without a tab or a value
/// are ignored.
pub fn parse_manifest(stdout: &str) -> (r: Vec<EvidenceArtifact>)
    ensures
        artifacts_view(r@) == manifest_records(lines(stdout@)),
{
    let v = chars_of(stdout);
    let n = v.len();
    let ghost ls = lines(v@);
    let mut out: Vec<EvidenceArtifact> = Vec::new();
    let mut pos: usize = 0;
    let mut count: usize = 0;
    assert(v@.subrange(0, n as int) == v@);
    assert(ls.take(0) == Seq::<Seq<char>>::empty());
    assert(artifacts_view(out@) == Seq::<ArtifactView>::empty());
    while pos < n
        invariant
            pos <= n == v.len(),
            v@ == stdout@,
            ls == lines(v@),
            count <= ls.len(),
            count <= pos,
            lines(v@.subrange(pos as int, n as int)) == ls.skip(count as int),
            artifacts_view(out@) == manifest_records(ls.take(count as int)),
        decreases n - pos,
    {
        let (line_end, next) = match find_char_in(&v, pos, n, '\n') {
            Some(k) => {
                let e = if k > pos && v[k - 1] == '\r' {
                    k - 1
                } else {
                    k
                };
                proof {
                    crate::text::lemma_next_line_found(v@, pos as int, k as int, e as int);
                }
                (e, k + 1)
            },
            None => {
                proof {
                    crate::text::lemma_next_line_last(v@, pos as int);
                }
                (n, n)
            },
        };
        proof {
            crate::adapters::toon::lemma_skip_cons(
                ls,
                count as int,
                v@.subrange(pos as int, line_end as int),
                lines(v@.subrange(next as int, n as int)),
            );
            assert(ls.take(count + 1).drop_last() == ls.take(count as int));
            assert(ls.take(count + 1).last() == v@.subrange(pos as int, line_end as int));
        }
        let ghost before = artifacts_view(out@);
        match manifest_line(&v, pos, line_end) {
            Some(a) => {
                out.push(a);
                assert(artifacts_view(out@) == before.push(out@.last()@));
            },
            None => {},
        }
        count = count + 1;
        pos = next;
    }
    proof {
        assert(v@.subrange(n as int, n as int) == Seq::<char>::empty());
        assert(lines(Seq::<char>::empty()) == Seq::<Seq<char>>::empty());
        assert(ls.take(count as int) == ls);
    }
    out
}

/// The part of a URL before its query or fragment.
pub open spec fn url_path(url: Seq<char>) -> Seq<char> {
    let q = find_char(url, '?');
    let h = find_char(url, '#');
    if q < 0 && h < 0 {
        url
    } else if q < 0 || (h >= 0 && h < q) {
        url.take(h)
    } else {
        url.take(q)
    }
}

/// The text after the last dot of `path`, or all of it when it has none.
pub open spec fn last_dot_component(path: Seq<char>) -> Seq<char> {
    let i = rfind_char(path, '.');
    if i < 0 {
        path
    } else {
        path.skip(i + 1)
    }
}

pub open spec fn is_image_extension(e: Seq<char>) -> bool {
    e == "png"@ || e == "jpg"@ || e == "jpeg"@ || e == "gif"@ || e == "webp"@
}

/// Whether a URL names an image: the extension of its path, in any case, is one of
/// png, jpg, jpeg, gif and webp.
pub open spec fn is_image_spec(url: Seq<char>) -> bool {
    is_image_extension(lower_seq(last_dot_component(url_path(url))))
}

pub fn is_image(url: &str) -> (b: bool)
    ensures
        b == is_image_spec(url@),
{
    let v = chars_of(url);
    let n = v.len();
    assert(v@.subrange(0, n as int) == v@);
    let q = find_char_in(&v, 0, n, '?');
    let h = find_char_in(&v, 0, n, '#');
    let end = match (q, h) {
        (None, None) => n,
        (None, Some(h)) => h,
        (Some(q), None) => q,
        (Some(q), Some(h)) => if h < q {
            h
        } else {
            q
        },
    };
    assert(url_path(v@) == v@.subrange(0, end as int));
    let start = match rfind_char_in(&v, 0, end, '.') {
        Some(i) => i + 1,
        None => 0,
    };
    assert(last_dot_component(v@.subrange(0, end as int)) == v@.subrange(start as int, end as int));
    let mut lowered = String::new();
    let mut i = start;
    while i < end
        invariant
            start <= i <= end <= n == v.len(),
            lowered@ == lower_seq(v@.subrange(start as int, i as int)),
        decreases end - i,
    {
        crate::text::push_char(&mut lowered, to_ascii_lowercase(v[i]));
        assert(lower_seq(v@.subrange(start as int, i + 1)) == lower_seq(
            v@.subrange(start as int, i as int),
        ).push(ascii_lower(v@[i as int])));
        i = i + 1;
    }
    let e = lowered.as_str();
    str_eq(e, "png") || str_eq(e, "jpg") || str_eq(e, "jpeg") || str_eq(e, "gif") || str_eq(
        e,
        "webp",
    )
}

/// `e` spells the lower-case `word` in any mix of cases: each of its characters is that
/// of `word` or, for a letter, its upper-case form.
pub open spec fn spelled_in_any_case(e: Seq<char>, word: Seq<char>) -> bool {
    &&& e.len() == word.len()
    &&& forall|i: int|
        0 <= i < e.len() ==> #[trigger] e[i] == word[i] || ('A' <= e[i] && e[i] <= 'Z' && (e[i]
            as u32) + 32 == (word[i] as u32))
}

/// `e` is one of the image extensions png, jpg, jpeg, gif and webp, in any case.
pub open spec fn image_extension_in_any_case(e: Seq<char>) -> bool {
    spelled_in_any_case(e, "png"@) || spelled_in_any_case(e, "jpg"@) || spelled_in_any_case(
        e,
        "jpeg"@,
    ) || spelled_in_any_case(e, "gif"@) || spelled_in_any_case(e, "webp"@)
}

/// The last index of `c` in `a + [c] + b`, where `b` holds no `c`, is that of the `c`
/// between them.
proof fn lemma_rfind_char_before(a: Seq<char>, b: Seq<char>, c: char)
    requires
        forall|k: int| 0 <= k < b.len() ==> #[trigger] b[k] != c,
    ensures
        rfind_char(a + seq![c] + b, c) == a.len(),
    decreases b.len(),
{
    let s = a + seq![c] + b;
    if b.len() > 0 {
        assert(s.drop_last() == a + seq![c] + b.drop_last());
        assert(s.last() == b.last());
        lemma_rfind_char_before(a, b.drop_last(), c);
    } else {
        assert(s.last() == c);
    }
}

/// A text with no `c` in it has no first `c`.
proof fn lemma_find_char_absent(s: Seq<char>, c: char)
    requires
        forall|k: int| 0 <= k < s.len() ==> #[trigger] s[k] != c,
    ensures
        find_char(s, c) == -1,
{
    crate::text::lemma_find_char_range(s, c);
}

/// A word of lower-case letters, spelled in any case, lowers to the word and holds no
/// `.`, `?` or `#`.
proof fn lemma_lower_spelled(e: Seq<char>, word: Seq<char>)
    requires
        spelled_in_any_case(e, word),
        forall|i: int| 0 <= i < word.len() ==> 'a' <= #[trigger] word[i] && word[i] <= 'z',
    ensures
        lower_seq(e) == word,
        forall|i: int| 0 <= i < e.len() ==> #[trigger] e[i] != '.' && e[i] != '?' && e[i] != '#',
{
    assert forall|i: int| 0 <= i < e.len() implies #[trigger] ascii_lower(e[i]) == word[i] && e[i]
        != '.' && e[i] != '?' && e[i] != '#' by {
        let c = e[i];
        let w = word[i];
        assert('a' <= w && w <= 'z');
        if c != w {
            assert('A' <= c && c <= 'Z' && (c as u32) + 32 == (w as u32));
            assert(((c as u32) + 32) as char == w);
        }
    }
    assert(lower_seq(e) =~= word);
}

/// The path of `w + rest`, where `w` holds no `?` or `#` and `rest` is empty or starts a
/// query or a fragment, is `w`.
proof fn lemma_url_path_before_suffix(w: Seq<char>, rest: Seq<char>)
    requires
        forall|k: int| 0 <= k < w.len() ==> #[trigger] w[k] != '?' && w[k] != '#',
        rest.len() == 0 || rest[0] == '?' || rest[0] == '#',
    ensures
        url_path(w + rest) == w,
{
    let url = w + rest;
    crate::text::lemma_find_char_range(url, '?');
    crate::text::lemma_find_char_range(url, '#');
    if rest.len() == 0 {
        assert(url == w);
        lemma_find_char_absent(w, '?');
        lemma_find_char_absent(w, '#');
    } else {
        assert(url == w + seq![rest[0]] + rest.drop_first());
        if rest[0] == '?' {
            crate::text::lemma_find_char_after(w, rest.drop_first(), '?');
            let h = find_char(url, '#');
            if h >= 0 {
                assert(url[h] == '#');
                assert(h >= w.len());
            }
        } else {
            crate::text::lemma_find_char_after(w, rest.drop_first(), '#');
            let q = find_char(url, '?');
            if q >= 0 {
                assert(url[q] == '?');
                assert(q >= w.len());
            }
        }
        assert(url.take(w.len() as int) == w);
    }
}

/// A URL whose path ends in a dot and one of the extensions png, jpg, jpeg, gif or webp,
/// in any case, names an image, whatever query or fragment follows the path.
pub proof fn lemma_image_extensions_name_images(path: Seq<char>, ext: Seq<char>, rest: Seq<char>)
    requires
        forall|k: int| 0 <= k < path.len() ==> #[trigger] path[k] != '?' && path[k] != '#',
        image_extension_in_any_case(ext),
        rest.len() == 0 || rest[0] == '?' || rest[0] == '#',
    ensures
        is_image_spec(path + "."@ + ext + rest),
{
    reveal_strlit(".");
    reveal_strlit("png");
    reveal_strlit("jpg");
    reveal_strlit("jpeg");
    reveal_strlit("gif");
    reveal_strlit("webp");
    let word = if spelled_in_any_case(ext, "png"@) {
        "png"@
    } else if spelled_in_any_case(ext, "jpg"@) {
        "jpg"@
    } else if spelled_in_any_case(ext, "jpeg"@) {
        "jpeg"@
    } else if spelled_in_any_case(ext, "gif"@) {
        "gif"@
    } else {
        "webp"@
    };
    assert forall|i: int| 0 <= i < word.len() implies 'a' <= #[trigger] word[i] && word[i]
        <= 'z' by {}
    lemma_lower_spelled(ext, word);
    let w = path + "."@ + ext;
    assert(w == path + seq!['.'] + ext);
    assert forall|k: int| 0 <= k < w.len() implies #[trigger] w[k] != '?' && w[k] != '#' by {
        if k >= path.len() + 1 {
            assert(w[k] == ext[k - path.len() - 1]);
        }
    }
    lemma_url_path_before_suffix(w, rest);
    lemma_rfind_char_before(path, ext, '.');
    assert(w.skip(path.len() + 1int) == ext);
    assert(path + "."@ + ext + rest == w + rest);
}

/// A text that lowers to a word of lower-case letters spells that word in some mix of
/// cases.
proof fn lemma_spelled_of_lower(e: Seq<char>, word: Seq<char>)
    requires
        lower_seq(e) == word,
        forall|i: int| 0 <= i < word.len() ==> 'a' <= #[trigger] word[i] && word[i] <= 'z',
    ensures
        spelled_in_any_case(e, word),
{
    assert forall|i: int| 0 <= i < e.len() implies #[trigger] e[i] == word[i] || ('A' <= e[i]
        && e[i] <= 'Z' && (e[i] as u32) + 32 == (word[i] as u32)) by {
        let c = e[i];
        assert(lower_seq(e)[i] == ascii_lower(c));
        if 'A' <= c && c <= 'Z' {
            let n = (c as u32) + 32;
            assert(n as char == word[i]);
            assert((n as char) as u32 == n);
        }
    }
}

/// A URL whose path ends in a dot and an extension that is none of png, jpg, jpeg, gif
/// and webp, in any case, names no image, whatever query or fragment follows the path.
pub proof fn lemma_other_extensions_name_no_images(
    path: Seq<char>,
    ext: Seq<char>,
    rest: Seq<char>,
)
    requires
        forall|k: int| 0 <= k < path.len() ==> #[trigger] path[k] != '?' && path[k] != '#',
        forall|k: int|
            0 <= k < ext.len() ==> #[trigger] ext[k] != '.' && ext[k] != '?' && ext[k] != '#',
        !image_extension_in_any_case(ext),
        rest.len() == 0 || rest[0] == '?' || rest[0] == '#',
    ensures
        !is_image_spec(path + "."@ + ext + rest),
{
    reveal_strlit(".");
    reveal_strlit("png");
    reveal_strlit("jpg");
    reveal_strlit("jpeg");
    reveal_strlit("gif");
    reveal_strlit("webp");
    let w = path + "."@ + ext;
    assert(w == path + seq!['.'] + ext);
    assert forall|k: int| 0 <= k < w.len() implies #[trigger] w[k] != '?' && w[k] != '#' by {
        if k >= path.len() + 1 {
            assert(w[k] == ext[k - path.len() - 1]);
        }
    }
    lemma_url_path_before_suffix(w, rest);
    lemma_rfind_char_before(path, ext, '.');
    assert(w.skip(path.len() + 1int) == ext);
    assert(path + "."@ + ext + rest == w + rest);
    let l = lower_seq(ext);
    if is_image_extension(l) {
        assert forall|i: int| 0 <= i < l.len() implies 'a' <= #[trigger] l[i] && l[i] <= 'z' by {}
        lemma_spelled_of_lower(ext, l);
    }
}

/// An evidence record with its file path resolved against the worktree.
pub open spec fn resolve_spec(worktree: Seq<char>, a: ArtifactView) -> ArtifactView {
    if a.is_url {
        a
    } else {
        ArtifactView { target: join(worktree, a.target), ..a }
    }
}

/// Resolves relative file paths against the worktree; URLs and absolute paths stay.
pub fn resolve_artifacts(worktree: &str, artifacts: &[EvidenceArtifact]) -> (r: Vec<ResolvedArtifact>)
    ensures
        r@.len() == artifacts@.len(),
        forall|i: int|
            0 <= i < r@.len() ==> (#[trigger] r@[i])@ == resolve_spec(worktree@, artifacts@[i]@),
{
    let mut out: Vec<ResolvedArtifact> = Vec::new();
    let mut i: usize = 0;
    while i < artifacts.len()
        invariant
            i <= artifacts@.len(),
            out@.len() == i,
            forall|k: int|
                0 <= k < i ==> (#[trigger] out@[k])@ == resolve_spec(worktree@, artifacts@[k]@),
        decreases artifacts@.len() - i,
    {
        let resolved = match &artifacts[i] {
            EvidenceArtifact::Url { url, caption } => ResolvedArtifact::Url {
                url: url.clone(),
                caption: caption.clone(),
            },
            EvidenceArtifact::File { path, caption } => ResolvedArtifact::LocalFile {
                path: join_path(worktree, path.as_str()),
                caption: caption.clone(),
            },
        };
        out.push(resolved);
        i = i + 1;
    }
    out
}

pub open spec fn local_file_note() -> Seq<char> {
    "` is a local file, so it cannot be attached to a pull request. Publish it at a URL and add that URL to the evidence manifest.\n\n"@
}

/// The lines one artifact adds to a proof section.
pub open spec fn proof_piece(a: ArtifactView) -> Seq<char> {
    let caption = if a.caption.len() == 0 {
        "evidence"@
    } else {
        a.caption
    };
    if a.is_url {
        if is_image_spec(a.target) {
            "!["@ + caption + "]("@ + a.target + ")\n\n"@
        } else if a.caption.len() == 0 {
            a.target + "\n\n"@
        } else {
            caption + "\n\n"@ + a.target + "\n\n"@
        }
    } else {
        caption + "\n\n`"@ + a.target + local_file_note()
    }
}

pub open spec fn proof_pieces(v: Seq<ArtifactView>) -> Seq<char>
    decreases v.len(),
{
    if v.len() == 0 {
        Seq::empty()
    } else {
        proof_pieces(v.drop_last()) + proof_piece(v.last())
    }
}

/// The `## Proof` section of a pull request body for the given artifacts.
pub open spec fn render_proof_spec(v: Seq<ArtifactView>) -> Seq<char> {
    PROOF_START@ + "\n## Proof\n\n"@ + (if v.len() == 0 {
        "The evidence command ran but captured nothing for this commit.\n"@
    } else {
        proof_pieces(v)
    }) + PROOF_END@
}

fn push_piece(out: &mut String, a: &ResolvedArtifact)
    ensures
        final(out)@ == old(out)@ + proof_piece(a@),
{
    let caption = if a.caption().is_empty() {
        "evidence"
    } else {
        a.caption()
    };
    match a {
        ResolvedArtifact::Url { url, caption: own } => {
            if is_image(url.as_str()) {
                push_str(out, "![");
                push_str(out, caption);
                push_str(out, "](");
                push_string(out, url);
                push_str(out, ")\n\n");
            } else if own.as_str().is_empty() {
                push_string(out, url);
                push_str(out, "\n\n");
            } else {
                push_str(out, caption);
                push_str(out, "\n\n");
                push_string(out, url);
                push_str(out, "\n\n");
            }
        },
        ResolvedArtifact::LocalFile { path, .. } => {
            push_str(out, caption);
            push_str(out, "\n\n`");
            push_string(out, path);
            push_str(
                out,
                "` is a local file, so it cannot be attached to a pull request. Publish it at a URL and add that URL to the evidence manifest.\n\n",
            );
        },
    }
}

/// Renders the `## Proof` section, between its start and end markers.
pub fn render_proof(artifacts: &[ResolvedArtifact]) -> (r: String)
    ensures
        r@ == render_proof_spec(resolved_view(artifacts@)),
{
    let mut body = String::new();
    push_str(&mut body, PROOF_START);
    push_str(&mut body, "\n## Proof\n\n");
    let ghost head = body@;
    if artifacts.len() == 0 {
        push_str(&mut body, "The evidence command ran but captured nothing for this commit.\n");
    } else {
        let mut i: usize = 0;
        assert(resolved_view(artifacts@).take(0) == Seq::<ArtifactView>::empty());
        while i < artifacts.len()
            invariant
                i <= artifacts@.len(),
                body@ == head + proof_pieces(resolved_view(artifacts@).take(i as int)),
            decreases artifacts@.len() - i,
        {
            push_piece(&mut body, &artifacts[i]);
            assert(resolved_view(artifacts@).take(i + 1).drop_last() == resolved_view(
                artifacts@,
            ).take(i as int));
            i = i + 1;
        }
        assert(resolved_view(artifacts@).take(artifacts.len() as int) == resolved_view(
            artifacts@,
        ));
    }
    push_str(&mut body, PROOF_END);
    body
}

/// Whether depot owns a body: it carries the managed marker.
pub open spec fn is_managed_spec(body: Seq<char>) -> bool {
    contains_seq(body, MANAGED_MARKER@)
}

/// A body marked as owned by depot: unchanged when already marked, otherwise the
/// marker, a blank line and the body without its leading whitespace.
pub open spec fn mark_managed_spec(body: Seq<char>) -> Seq<char> {
    if is_managed_spec(body) {
        body
    } else {
        MANAGED_MARKER@ + "\n\n"@ + trim_start(body)
    }
}

pub fn is_managed(body: &str) -> (b: bool)
    ensures
        b == is_managed_spec(body@),
{
    let v = chars_of(body);
    let marker = chars_of(MANAGED_MARKER);
    assert(v@.subrange(0, v@.len() as int) == v@);
    match find_seq_in(&v, 0, v.len(), &marker) {
        Some(_) => true,
        None => false,
    }
}

pub fn mark_managed(body: &str) -> (r: String)
    ensures
        r@ == mark_managed_spec(body@),
{
    let mut out = String::new();
    if is_managed(body) {
        push_str(&mut out, body);
        return out;
    }
    let v = chars_of(body);
    let start = crate::text::skip_ws(&v, 0, v.len());
    assert(v@.subrange(0, v@.len() as int) == v@);
    push_str(&mut out, MANAGED_MARKER);
    push_str(&mut out, "\n\n");
    push_range(&mut out, &v, start, v.len());
    out
}

/// Where the proof section of `body` starts and ends, when it has one: from the first
/// start marker through the first end marker after it.
pub open spec fn proof_bounds(body: Seq<char>) -> Option<(int, int)> {
    let start = find_seq(body, PROOF_START@);
    if start < 0 {
        None
    } else {
        let e = find_seq(body.skip(start), PROOF_END@);
        if e < 0 {
            None
        } else {
            Some((start, start + e + PROOF_END@.len()))
        }
    }
}

pub open spec fn proof_section_spec(body: Seq<char>) -> Option<Seq<char>> {
    match proof_bounds(body) {
        Some((s, e)) => Some(body.subrange(s, e)),
        None => None,
    }
}

/// The bounds of the proof section of `v`, as `proof_bounds` gives them.
fn proof_range(v: &Vec<char>) -> (r: Option<(usize, usize)>)
    ensures
        match r {
            Some((s, e)) => s <= e <= v.len() && proof_bounds(v@) == Some((s as int, e as int)),
            None => proof_bounds(v@) is None,
        },
{
    let n = v.len();
    assert(v@.subrange(0, n as int) == v@);
    let start_marker = chars_of(PROOF_START);
    let end_marker = chars_of(PROOF_END);
    let start = match find_seq_in(v, 0, n, &start_marker) {
        Some(s) => s,
        None => return None,
    };
    assert(v@.skip(start as int) == v@.subrange(start as int, n as int));
    let end = match find_seq_in(v, start, n, &end_marker) {
        Some(e) => e,
        None => return None,
    };
    Some((start, end + end_marker.len()))
}

/// The proof section of a body: from its start marker through its end marker.
pub fn proof_section(body: &str) -> (r: Option<&str>)
    ensures
        match r {
            Some(s) => proof_section_spec(body@) == Some(s@),
            None => proof_section_spec(body@) is None,
        },
{
    let v = chars_of(body);
    match proof_range(&v) {
        Some((s, e)) => Some(body.substring_char(s, e)),
        None => None,
    }
}

/// `body` with `proof` in place of its proof section, or with `proof` appended after
/// a blank line when it has none.
pub open spec fn upsert_proof_spec(body: Seq<char>, proof: Seq<char>) -> Seq<char> {
    match proof_bounds(body) {
        Some((s, e)) => body.take(s) + proof + body.skip(e),
        None => {
            let trimmed = trim_end(body);
            if trimmed.len() == 0 {
                proof + "\n"@
            } else {
                trimmed + "\n\n"@ + proof + "\n"@
            }
        },
    }
}

pub fn upsert_proof(body: &str, proof: &str) -> (r: String)
    ensures
        r@ == upsert_proof_spec(body@, proof@),
{
    let v = chars_of(body);
    let n = v.len();
    let mut out = String::new();
    match proof_range(&v) {
        Some((s, e)) => {
            push_range(&mut out, &v, 0, s);
            push_str(&mut out, proof);
            push_range(&mut out, &v, e, n);
            assert(v@.subrange(0, s as int) == v@.take(s as int));
            assert(v@.subrange(e as int, n as int) == v@.skip(e as int));
        },
        None => {
            let end = crate::text::back_ws(&v, 0, n);
            assert(v@.subrange(0, n as int) == v@);
            if end == 0 {
                push_str(&mut out, proof);
                push_str(&mut out, "\n");
            } else {
                push_range(&mut out, &v, 0, end);
                push_str(&mut out, "\n\n");
                push_str(&mut out, proof);
                push_str(&mut out, "\n");
            }
        },
    }
    out
}

/// A freshly described body that keeps the proof section of the body it replaces.
pub open spec fn preserve_proof_spec(existing: Seq<char>, fresh: Seq<char>) -> Seq<char> {
    match proof_section_spec(existing) {
        Some(section) => upsert_proof_spec(fresh, section),
        None => fresh,
    }
}

pub fn preserve_proof(existing: &str, fresh: &str) -> (r: String)
    ensures
        r@ == preserve_proof_spec(existing@, fresh@),
{
    match proof_section(existing) {
        Some(section) => upsert_proof(fresh, section),
        None => {
            let mut out = String::new();
            push_str(&mut out, fresh);
            out
        },
    }
}

/// Runs an evidence command in a worktree, against a base, within a time limit, and
/// reports its exit code and what it printed.
pub trait EvidenceRunner {
    fn run(&self, command: &str, worktree: &str, base: &str, timeout: Duration) -> Result<
        EvidenceOutput,
        Error,
    >;
}

/// Runs the evidence command through the shell, in the worktree.
#[derive(Debug, Clone, Copy, PartialEq, Eq)]
pub struct ShellEvidence;

/// What to do after a look at the running evidence command.
#[derive(Debug, Clone, Copy, PartialEq, Eq)]
pub enum EvidenceStep {
    /// It exited: report this code (-1 when a signal ended it).
    Finished { exit_code: i32 },
    /// It is still running past its deadline: stop it and report the time-out.
    TimedOut,
    /// It is still running within its time: look again shortly.
    Wait,
}

impl ShellEvidence {
    /// The variables the evidence command runs with: its base, and the range from the
    /// base to `HEAD`.
    pub fn environment(&self, base: &str) -> (r: Vec<(String, String)>)
        ensures
            r@.len() == 2,
            r@[0].0@ == "DEPOT_EVIDENCE_BASE"@,
            r@[0].1@ == base@,
            r@[1].0@ == "DEPOT_EVIDENCE_RANGE"@,
            r@[1].1@ == base@ + "...HEAD"@,
    {
        let mut base_name = String::new();
        push_str(&mut base_name, "DEPOT_EVIDENCE_BASE");
        let mut base_value = String::new();
        push_str(&mut base_value, base);
        let mut range_name = String::new();
        push_str(&mut range_name, "DEPOT_EVIDENCE_RANGE");
        let mut range_value = String::new();
        push_str(&mut range_value, base);
        push_str(&mut range_value, "...HEAD");
        assert(base_name@ == "DEPOT_EVIDENCE_BASE"@);
        assert(base_value@ == base@);
        assert(range_name@ == "DEPOT_EVIDENCE_RANGE"@);
        let mut r: Vec<(String, String)> = Vec::new();
        r.push((base_name, base_value));
        r.push((range_name, range_value));
        r
    }

    /// The next step, given whether the command has exited (and with which code, if
    /// any) and whether its deadline has passed.
    pub fn step(&self, exited: Option<Option<i32>>, past_deadline: bool) -> (r: EvidenceStep)
        ensures
            match exited {
                Some(code) => r == EvidenceStep::Finished {
                    exit_code: match code {
                        Some(c) => c,
                        None => -1i32,
                    },
                },
                None => if past_deadline {
                    r == EvidenceStep::TimedOut
                } else {
                    r == EvidenceStep::Wait
                },
            },
    {
        match exited {
            Some(Some(c)) => EvidenceStep::Finished { exit_code: c },
            Some(None) => EvidenceStep::Finished { exit_code: -1 },
            None => if past_deadline {
                EvidenceStep::TimedOut
            } else {
                EvidenceStep::Wait
            },
        }
    }

    /// The error for a command stopped at its time limit of `timeout_secs` seconds.
    pub fn timed_out(&self, timeout_secs: u64) -> (e: Error)
        ensures
            e.kind() == ErrorKind::Project,
            e.detail() == "the evidence command timed out after "@ + crate::text::decimal(
                timeout_secs as nat,
            ) + " seconds"@,
    {
        let mut m = String::new();
        push_str(&mut m, "the evidence command timed out after ");
        crate::text::push_decimal(&mut m, timeout_secs);
        push_str(&mut m, " seconds");
        Error::Project(m)
    }

    /// The error for a command whose output could not be read.
    pub fn closed_stdout(&self) -> (e: Error)
        ensures
            e.kind() == ErrorKind::Project,
            e.detail() == "the evidence command closed its stdout"@,
    {
        let mut m = String::new();
        push_str(&mut m, "the evidence command closed its stdout");
        Error::Project(m)
    }
}

/// A proof section as `render_proof` shapes it: the start marker first, and the first
/// end marker at its very end.
pub open spec fn is_proof_section(s: Seq<char>) -> bool {
    &&& starts_with(s, PROOF_START@)
    &&& PROOF_END@.len() <= s.len()
    &&& find_seq(s, PROOF_END@) == s.len() - PROOF_END@.len()
}

/// The start marker opens with its only `<`, holds no newline, and differs from the
/// end marker within the end marker's length.
proof fn lemma_marker_shapes()
    ensures
        PROOF_START@.len() == 26,
        PROOF_END@.len() == 24,
        PROOF_START@[0] == '<',
        forall|k: int| 1 <= k < PROOF_START@.len() ==> PROOF_START@[k] != '<',
        forall|k: int| 0 <= k < PROOF_START@.len() ==> PROOF_START@[k] != '\n',
        PROOF_END@[0] == '<',
        PROOF_START@[17] != PROOF_END@[17],
{
    reveal_strlit("<!-- depot-proof:start -->");
    reveal_strlit("<!-- depot-proof:end -->");
}

/// With no start marker in `x`, the start marker that opens `y` is the first one of
/// `x + y`.
proof fn lemma_start_found_at(x: Seq<char>, y: Seq<char>)
    requires
        find_seq(x, PROOF_START@) == -1,
        starts_with(y, PROOF_START@),
    ensures
        find_seq(x + y, PROOF_START@) == x.len(),
{
    let m = PROOF_START@;
    lemma_marker_shapes();
    lemma_find_seq_first(x, m);
    let xy = x + y;
    assert(xy.subrange(x.len() as int, x.len() + m.len() as int) == y.take(m.len() as int));
    assert forall|j: int| 0 <= j < x.len() implies !#[trigger] matches_at(xy, m, j) by {
        if matches_at(xy, m, j) {
            if j + m.len() <= x.len() {
                assert(xy.subrange(j, j + m.len()) == x.subrange(j, j + m.len()));
                assert(matches_at(x, m, j));
            } else {
                let k = x.len() - j;
                assert(xy.subrange(j, j + m.len())[k] == xy[x.len() as int]);
                assert(y.take(m.len() as int)[0] == y[0]);
            }
        }
    }
    lemma_find_seq_at(xy, m, x.len() as int);
}

/// Where the proof section stands once `upsert_proof` has put one in `body`.
pub open spec fn upsert_start(body: Seq<char>) -> int {
    match proof_bounds(body) {
        Some((s, _)) => s,
        None => if trim_end(body).len() == 0 {
            0
        } else {
            trim_end(body).len() + 2int
        },
    }
}

/// `x + y`, where `y` is a proof section, has its proof section where `y` starts.
proof fn lemma_bounds_of_concat(x: Seq<char>, y: Seq<char>, rest: Seq<char>)
    requires
        find_seq(x, PROOF_START@) == -1,
        is_proof_section(y),
    ensures
        proof_bounds(x + y + rest) == Some((x.len() as int, x.len() + y.len() as int)),
{
    let r = x + y + rest;
    assert(r == x + (y + rest));
    assert(starts_with(y + rest, PROOF_START@)) by {
        assert((y + rest).take(PROOF_START@.len() as int) == y.take(PROOF_START@.len() as int));
    }
    lemma_start_found_at(x, y + rest);
    assert(r.skip(x.len() as int) == y + rest);
    lemma_find_seq_prefix(y, rest, PROOF_END@);
}

/// No start marker of `body` stands before its first one.
proof fn lemma_no_start_before(body: Seq<char>, s: int)
    requires
        0 <= s <= body.len(),
        find_seq(body, PROOF_START@) == -1 || s <= find_seq(body, PROOF_START@),
    ensures
        find_seq(body.take(s), PROOF_START@) == -1,
{
    let m = PROOF_START@;
    lemma_marker_shapes();
    lemma_find_seq_first(body, m);
    lemma_find_seq_first(body.take(s), m);
    if find_seq(body.take(s), m) != -1 {
        let j = find_seq(body.take(s), m);
        assert(body.take(s) + body.skip(s) == body);
        lemma_matches_at_prefix(body.take(s), body.skip(s), m, j);
    }
}

/// Where `upsert_proof` puts a proof section, that section is what the body then reads.
proof fn lemma_upsert_bounds(body: Seq<char>, proof: Seq<char>)
    requires
        is_proof_section(proof),
        proof_bounds(body) is Some || !contains_seq(body, PROOF_START@),
    ensures
        proof_bounds(upsert_proof_spec(body, proof)) == Some(
            (upsert_start(body), upsert_start(body) + proof.len() as int),
        ),
{
    lemma_marker_shapes();
    lemma_find_seq_first(body, PROOF_START@);
    match proof_bounds(body) {
        Some((s, e)) => {
            lemma_no_start_before(body, s);
            lemma_bounds_of_concat(body.take(s), proof, body.skip(e));
        },
        None => {
            let t = trim_end(body);
            lemma_trim_end_shape(body);
            lemma_no_start_before(body, t.len() as int);
            if t.len() == 0 {
                assert(find_seq(Seq::<char>::empty(), PROOF_START@) == -1);
                lemma_bounds_of_concat(Seq::<char>::empty(), proof, "\n"@);
                assert(Seq::<char>::empty() + proof + "\n"@ == proof + "\n"@);
            } else {
                reveal_strlit("\n\n");
                lemma_no_match_append(t, "\n\n"@, PROOF_START@);
                lemma_bounds_of_concat(t + "\n\n"@, proof, "\n"@);
            }
        },
    }
}

/// What `upsert_proof` writes, `proof_section` reads back: whenever the proof is a
/// proof section and the body has a whole proof section or no start marker at all.
pub proof fn lemma_upsert_proof_reads_back(body: Seq<char>, proof: Seq<char>)
    requires
        is_proof_section(proof),
        proof_bounds(body) is Some || !contains_seq(body, PROOF_START@),
    ensures
        proof_section_spec(upsert_proof_spec(body, proof)) == Some(proof),
{
    lemma_upsert_bounds(body, proof);
    lemma_find_seq_first(body, PROOF_START@);
    let r = upsert_proof_spec(body, proof);
    let b = upsert_start(body);
    match proof_bounds(body) {
        Some((s, e)) => {
            assert(body.take(s).len() == s);
            assert(r.subrange(b, b + proof.len()) == proof);
        },
        None => {
            let t = trim_end(body);
            if t.len() == 0 {
                assert(r.subrange(b, b + proof.len()) == proof);
            } else {
                reveal_strlit("\n\n");
                assert(r.subrange(b, b + proof.len()) == proof);
            }
        },
    }
}

/// A second `upsert_proof` replaces the section the first one wrote: the body ends as
/// if only the second proof had been put in.
pub proof fn lemma_upsert_proof_replaces(body: Seq<char>, first: Seq<char>, second: Seq<char>)
    requires
        is_proof_section(first),
        proof_bounds(body) is Some || !contains_seq(body, PROOF_START@),
    ensures
        upsert_proof_spec(upsert_proof_spec(body, first), second) == upsert_proof_spec(
            body,
            second,
        ),
{
    lemma_upsert_bounds(body, first);
    lemma_find_seq_first(body, PROOF_START@);
    let r = upsert_proof_spec(body, first);
    let b = upsert_start(body);
    match proof_bounds(body) {
        Some((s, e)) => {
            lemma_find_seq_first(body.skip(s), PROOF_END@);
            assert(body.take(s).len() == s);
            assert(r.take(b) == body.take(s));
            assert(r.skip(b + first.len()) == body.skip(e));
        },
        None => {
            let t = trim_end(body);
            if t.len() == 0 {
                assert(r.take(b) == Seq::<char>::empty());
                assert(r.skip(b + first.len()) == "\n"@);
                assert(Seq::<char>::empty() + second + "\n"@ == second + "\n"@);
            } else {
                reveal_strlit("\n\n");
                assert(r.take(b) == t + "\n\n"@);
                assert(r.skip(b + first.len()) == "\n"@);
            }
        },
    }
}

/// The section `proof_section` reads from a body is itself a proof section.
proof fn lemma_section_is_proof_section(body: Seq<char>)
    requires
        proof_bounds(body) is Some,
    ensures
        is_proof_section(proof_section_spec(body)->0),
{
    let m = PROOF_START@;
    let n = PROOF_END@;
    lemma_marker_shapes();
    lemma_find_seq_first(body, m);
    let s = find_seq(body, m);
    let tail = body.skip(s);
    lemma_find_seq_first(tail, n);
    let f = find_seq(tail, n);
    let section = body.subrange(s, s + f + n.len());
    assert(section == tail.take(f + n.len()));
    assert(tail.subrange(0, m.len() as int) == m);
    assert(f >= m.len()) by {
        if f < m.len() {
            assert(tail.subrange(f, f + n.len())[0] == tail[f]);
            assert(tail[f] == '<');
            if f == 0 {
                assert(tail.subrange(0, m.len() as int)[17] == tail[17]);
                assert(tail.subrange(0, n.len() as int)[17] == tail[17]);
                assert(false);
            } else {
                assert(tail.subrange(0, m.len() as int)[f] == tail[f]);
                assert(false);
            }
        }
    }
    assert(section.take(m.len() as int) == m);
    assert(section.subrange(f, f + n.len()) == tail.subrange(f, f + n.len()));
    assert forall|j: int| 0 <= j < f implies !#[trigger] matches_at(section, n, j) by {
        if matches_at(section, n, j) {
            assert(section.subrange(j, j + n.len()) == tail.subrange(j, j + n.len()));
            assert(matches_at(tail, n, j));
        }
    }
    lemma_find_seq_at(section, n, f);
}

/// A fresh description keeps the proof section of the body it replaces, whenever the
/// fresh body has a whole proof section or no start marker at all.
pub proof fn lemma_preserve_proof_keeps_section(existing: Seq<char>, fresh: Seq<char>)
    requires
        proof_bounds(existing) is Some,
        proof_bounds(fresh) is Some || !contains_seq(fresh, PROOF_START@),
    ensures
        proof_section_spec(preserve_proof_spec(existing, fresh)) == proof_section_spec(existing),
{
    lemma_section_is_proof_section(existing);
    lemma_upsert_proof_reads_back(fresh, proof_section_spec(existing)->0);
}

/// A marked body is managed, and marking it again changes nothing.
pub proof fn lemma_mark_managed(body: Seq<char>)
    ensures
        is_managed_spec(mark_managed_spec(body)),
        mark_managed_spec(mark_managed_spec(body)) == mark_managed_spec(body),
{
    let r = mark_managed_spec(body);
    if !is_managed_spec(body) {
        let m = MANAGED_MARKER@;
        lemma_find_seq_first(r, m);
        assert(r.subrange(0, m.len() as int) == m);
        assert(matches_at(r, m, 0));
    }
}

} // verus!
