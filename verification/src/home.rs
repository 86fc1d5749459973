//! The agni home and the per-project homes inside it: where depot keeps its settings,
//! its database, its run files and each project's checklist and documents.
use vstd::prelude::*;

use crate::error::{Error, Result};
use crate::paths::{file_name_spec, join, join_path, parent_spec, path_file_name, path_parent};
use crate::text::{ascii_lower, chars_of, ends_with, is_ascii_alnum, push_str, push_string, split_char, str_eq, string_of};

verus! {

pub const HOME_ENV: &'static str = "AGNI_HOME";

pub const HOME_DIR_NAME: &'static str = ".agni";

pub const LEGACY_HOME_DIR_NAME: &'static str = ".depot";

pub const SETTINGS_FILE_NAME: &'static str = "config.toml";

pub const DATABASE_FILE_NAME: &'static str = "agni.db";

pub const LEGACY_DATABASE_FILE_NAME: &'static str = "depot.db";

pub const PROJECTS_DIR_NAME: &'static str = "projects";

pub const ARTIFACTS_DIR_NAME: &'static str = "artifacts";

pub const SECRETS_DIR_NAME: &'static str = "secrets";

pub const UI_DIR_NAME: &'static str = "ui";

pub const RUN_DIR_NAME: &'static str = "run";

pub const CHECKLIST_FILE_NAME: &'static str = "checklist.md";

pub const ARCHIVE_DIR_NAME: &'static str = "archive";

pub const DOCUMENTS_DIR_NAME: &'static str = "docs";

pub const SCRATCH_DIR_NAME: &'static str = "scratch";

pub const MEDIA_DIR_NAME: &'static str = "media";

pub const CONTEXT_DOCUMENT_FILE_NAME: &'static str = "context.md";

pub const CONTEXT_DOCUMENT_STUB: &'static str = "# Context\n\nWhat this project's coordinator knows.\nThe coordinator writes it with `depot doc write`; depot never renders or overwrites it.\n";

/// The agni home: the directory that holds everything depot owns.
#[derive(Debug, Clone, PartialEq, Eq)]
pub struct DepotHome {
    root: String,
}

impl View for DepotHome {
    type V = Seq<char>;

    closed spec fn view(&self) -> Seq<char> {
        self.root@
    }
}

pub open spec fn in_root(root: Seq<char>, name: &str) -> Seq<char> {
    join(root, name@)
}

/// Why no home can be located: no variable names one and the user has no home directory.
pub open spec fn no_home_message() -> Seq<char> {
    "cannot locate the agni home: set "@ + HOME_ENV@ + " to the directory depot should use"@
}

/// Why a home is refused while the old depot home beside it has not been moved: it names
/// both, and the command that moves it.
pub open spec fn unmoved_message(legacy: Seq<char>, root: Seq<char>) -> Seq<char> {
    "the old depot home "@ + legacy + " has not been moved into the agni home "@ + root
        + "; run `depot store migrate` to move it"@
}

impl DepotHome {
    pub fn at(root: String) -> (r: Self)
        ensures
            r@ == root@,
    {
        DepotHome { root }
    }

    /// The home that the environment names: `AGNI_HOME` when it is set and non-empty,
    /// otherwise `.agni` under the user's home directory.
    pub fn resolve_for_migrate(agni_home: Option<&str>, user_home: Option<&str>) -> (r: Result<Self>)
        ensures
            match r {
                Ok(home) => match agni_home {
                    Some(root) if root@.len() > 0 => home@ == root@,
                    _ => user_home is Some && user_home->0@.len() > 0 && home@ == join(
                        user_home->0@,
                        HOME_DIR_NAME@,
                    ),
                },
                Err(e) => (agni_home is None || agni_home->0@.len() == 0) && (user_home is None
                    || user_home->0@.len() == 0) && e.kind() is Home && e.detail()
                    == no_home_message(),
            },
    {
        if let Some(root) = agni_home {
            if !root.is_empty() {
                let mut owned = String::new();
                push_str(&mut owned, root);
                return Ok(DepotHome::at(owned));
            }
        }
        if let Some(base) = user_home {
            if !base.is_empty() {
                return Ok(DepotHome::at(join_path(base, HOME_DIR_NAME)));
            }
        }
        let mut message = String::new();
        push_str(&mut message, "cannot locate the agni home: set ");
        push_str(&mut message, HOME_ENV);
        push_str(&mut message, " to the directory depot should use");
        Err(Error::Home(message))
    }

    /// The home that the environment names, refused while the old depot home next to
    /// it still waits to be moved. `root_exists` and `legacy_exists` say whether that
    /// home and its legacy sibling exist on disk.
    pub fn resolve(
        agni_home: Option<&str>,
        user_home: Option<&str>,
        root_exists: bool,
        legacy_exists: bool,
    ) -> (r: Result<Self>)
        ensures
            match DepotHome::resolve_for_migrate_spec(agni_home, user_home) {
                Some(home) => match r {
                    Ok(found) => found@ == home && (root_exists || legacy_sibling_spec(home) is None
                        || !legacy_exists),
                    Err(e) => !root_exists && legacy_sibling_spec(home) is Some && legacy_exists
                        && e.kind() is Home && e.detail() == unmoved_message(
                        legacy_sibling_spec(home)->0,
                        home,
                    ),
                },
                None => r is Err && r->Err_0.kind() is Home && r->Err_0.detail()
                    == no_home_message(),
            },
    {
        let home = DepotHome::resolve_for_migrate(agni_home, user_home)?;
        home.refuse_unmoved(root_exists, legacy_exists)?;
        Ok(home)
    }

    pub open spec fn resolve_for_migrate_spec(agni_home: Option<&str>, user_home: Option<&str>) -> Option<
        Seq<char>,
    > {
        match agni_home {
            Some(root) if root@.len() > 0 => Some(root@),
            _ => match user_home {
                Some(base) if base@.len() > 0 => Some(join(base@, HOME_DIR_NAME@)),
                _ => None,
            },
        }
    }

    /// Refuses a home that does not exist yet while its legacy sibling does.
    pub fn refuse_unmoved(&self, root_exists: bool, legacy_exists: bool) -> (r: Result<()>)
        ensures
            r is Ok <==> (root_exists || legacy_sibling_spec(self@) is None || !legacy_exists),
            r is Err ==> r->Err_0.kind() is Home && r->Err_0.detail() == unmoved_message(
                legacy_sibling_spec(self@)->0,
                self@,
            ),
    {
        if root_exists {
            return Ok(());
        }
        let legacy = match self.legacy_sibling() {
            Some(legacy) => legacy,
            None => return Ok(()),
        };
        if !legacy_exists {
            return Ok(());
        }
        let mut message = String::new();
        push_str(&mut message, "the old depot home ");
        push_string(&mut message, &legacy.root);
        push_str(&mut message, " has not been moved into the agni home ");
        push_string(&mut message, &self.root);
        push_str(&mut message, "; run `depot store migrate` to move it");
        Err(Error::Home(message))
    }

    /// The old depot home beside this one: `.depot` next to a home named `.agni`.
    pub fn legacy_sibling(&self) -> (r: Option<Self>)
        ensures
            match r {
                Some(home) => legacy_sibling_spec(self@) == Some(home@),
                None => legacy_sibling_spec(self@) is None,
            },
    {
        let name = path_file_name(self.root.as_str())?;
        if !str_eq(name.as_str(), HOME_DIR_NAME) {
            return None;
        }
        let parent = path_parent(self.root.as_str())?;
        Some(DepotHome::at(join_path(parent.as_str(), LEGACY_HOME_DIR_NAME)))
    }

    pub fn root(&self) -> (r: &str)
        ensures
            r@ == self@,
    {
        self.root.as_str()
    }

    pub fn config_path(&self) -> (r: String)
        ensures
            r@ == in_root(self@, SETTINGS_FILE_NAME),
    {
        join_path(self.root.as_str(), SETTINGS_FILE_NAME)
    }

    pub fn database_path(&self) -> (r: String)
        ensures
            r@ == in_root(self@, DATABASE_FILE_NAME),
    {
        join_path(self.root.as_str(), DATABASE_FILE_NAME)
    }

    pub fn projects_dir(&self) -> (r: String)
        ensures
            r@ == in_root(self@, PROJECTS_DIR_NAME),
    {
        join_path(self.root.as_str(), PROJECTS_DIR_NAME)
    }

    pub fn artifacts_dir(&self) -> (r: String)
        ensures
            r@ == in_root(self@, ARTIFACTS_DIR_NAME),
    {
        join_path(self.root.as_str(), ARTIFACTS_DIR_NAME)
    }

    pub fn secrets_dir(&self) -> (r: String)
        ensures
            r@ == in_root(self@, SECRETS_DIR_NAME),
    {
        join_path(self.root.as_str(), SECRETS_DIR_NAME)
    }

    pub fn ui_dir(&self) -> (r: String)
        ensures
            r@ == in_root(self@, UI_DIR_NAME),
    {
        join_path(self.root.as_str(), UI_DIR_NAME)
    }

    pub fn run_dir(&self) -> (r: String)
        ensures
            r@ == in_root(self@, RUN_DIR_NAME),
    {
        join_path(self.root.as_str(), RUN_DIR_NAME)
    }

    /// A file of the running daemon, under `run/`.
    pub fn run_path(&self, name: &str) -> (r: String)
        ensures
            r@ == join(in_root(self@, RUN_DIR_NAME), name@),
    {
        join_path(self.run_dir().as_str(), name)
    }

    /// The home of the project with this slug, under `projects/`.
    pub fn project_root(&self, slug: &str) -> (r: String)
        ensures
            r@ == join(in_root(self@, PROJECTS_DIR_NAME), slug@),
    {
        join_path(self.projects_dir().as_str(), slug)
    }

    pub fn project_home(&self, slug: &str) -> (r: ProjectHome)
        ensures
            r@ == join(in_root(self@, PROJECTS_DIR_NAME), slug@),
    {
        ProjectHome::at(self.project_root(slug))
    }
}

/// `.depot` beside a home whose last component is `.agni`.
pub open spec fn legacy_sibling_spec(root: Seq<char>) -> Option<Seq<char>> {
    match file_name_spec(root) {
        Some(name) if name == HOME_DIR_NAME@ => match parent_spec(root) {
            Some(parent) => Some(join(parent, LEGACY_HOME_DIR_NAME@)),
            None => None,
        },
        _ => None,
    }
}

/// The home of one project: its checklist, archive, documents, scratch space and media.
#[derive(Debug, Clone, PartialEq, Eq)]
pub struct ProjectHome {
    root: String,
}

impl View for ProjectHome {
    type V = Seq<char>;

    closed spec fn view(&self) -> Seq<char> {
        self.root@
    }
}

impl ProjectHome {
    pub fn at(root: String) -> (r: Self)
        ensures
            r@ == root@,
    {
        ProjectHome { root }
    }

    pub fn root(&self) -> (r: &str)
        ensures
            r@ == self@,
    {
        self.root.as_str()
    }

    pub fn checklist_path(&self) -> (r: String)
        ensures
            r@ == in_root(self@, CHECKLIST_FILE_NAME),
    {
        join_path(self.root.as_str(), CHECKLIST_FILE_NAME)
    }

    pub fn archive_dir(&self) -> (r: String)
        ensures
            r@ == in_root(self@, ARCHIVE_DIR_NAME),
    {
        join_path(self.root.as_str(), ARCHIVE_DIR_NAME)
    }

    pub fn documents_dir(&self) -> (r: String)
        ensures
            r@ == in_root(self@, DOCUMENTS_DIR_NAME),
    {
        join_path(self.root.as_str(), DOCUMENTS_DIR_NAME)
    }

    pub fn context_document_path(&self) -> (r: String)
        ensures
            r@ == join(in_root(self@, DOCUMENTS_DIR_NAME), CONTEXT_DOCUMENT_FILE_NAME@),
    {
        join_path(self.documents_dir().as_str(), CONTEXT_DOCUMENT_FILE_NAME)
    }

    pub fn scratch_dir(&self) -> (r: String)
        ensures
            r@ == in_root(self@, SCRATCH_DIR_NAME),
    {
        join_path(self.root.as_str(), SCRATCH_DIR_NAME)
    }

    pub fn media_dir(&self) -> (r: String)
        ensures
            r@ == in_root(self@, MEDIA_DIR_NAME),
    {
        join_path(self.root.as_str(), MEDIA_DIR_NAME)
    }
}


pub open spec fn is_path_sep(c: char) -> bool {
    c == '/' || c == '\\'
}

pub open spec fn is_segment_sep(c: char) -> bool {
    c == '/' || c == '\\' || c == ':'
}

/// The identity without its trailing `/` and `\\` characters.
pub open spec fn trim_end_seps(s: Seq<char>) -> Seq<char>
    decreases s.len(),
{
    if s.len() > 0 && is_path_sep(s.last()) {
        trim_end_seps(s.drop_last())
    } else {
        s
    }
}

/// The index of the last `/`, `\\` or `:` of `s`, or -1.
pub open spec fn rfind_segment_sep(s: Seq<char>) -> int
    decreases s.len(),
{
    if s.len() == 0 {
        -1
    } else if is_segment_sep(s.last()) {
        s.len() - 1
    } else {
        rfind_segment_sep(s.drop_last())
    }
}

pub proof fn lemma_rfind_segment_sep(s: Seq<char>)
    ensures
        -1 <= rfind_segment_sep(s) < s.len(),
        rfind_segment_sep(s) >= 0 ==> is_segment_sep(s[rfind_segment_sep(s)]),
        forall|k: int| rfind_segment_sep(s) < k < s.len() ==> !is_segment_sep(#[trigger] s[k]),
    decreases s.len(),
{
    if s.len() > 0 && !is_segment_sep(s.last()) {
        lemma_rfind_segment_sep(s.drop_last());
        assert forall|k: int| rfind_segment_sep(s) < k < s.len() implies !is_segment_sep(
            #[trigger] s[k],
        ) by {
            if k < s.len() - 1 {
                assert(s[k] == s.drop_last()[k]);
            }
        }
    }
}

/// The last non-empty piece of `s` between `/`, `\\` and `:` separators.
pub open spec fn last_segment(s: Seq<char>) -> Option<Seq<char>>
    decreases s.len(),
{
    let i = rfind_segment_sep(s);
    proof {
        lemma_rfind_segment_sep(s);
    }
    if s.skip(i + 1).len() > 0 {
        Some(s.skip(i + 1))
    } else if i < 0 {
        None
    } else {
        last_segment(s.take(i))
    }
}

/// The non-empty pieces, in order.
pub open spec fn nonempty_parts(parts: Seq<Seq<char>>) -> Seq<Seq<char>>
    decreases parts.len(),
{
    if parts.len() == 0 {
        Seq::empty()
    } else if parts.last().len() > 0 {
        nonempty_parts(parts.drop_last()).push(parts.last())
    } else {
        nonempty_parts(parts.drop_last())
    }
}

/// Pieces joined with dashes.
pub open spec fn join_dash(parts: Seq<Seq<char>>) -> Seq<char>
    decreases parts.len(),
{
    if parts.len() == 0 {
        Seq::empty()
    } else if parts.len() == 1 {
        parts[0]
    } else {
        join_dash(parts.drop_last()) + seq!['-'] + parts.last()
    }
}

/// `s` without the dashes at either end.
pub open spec fn trim_dashes(s: Seq<char>) -> Seq<char>
    decreases s.len(),
{
    if s.len() > 0 && s[0] == '-' {
        trim_dashes(s.drop_first())
    } else if s.len() > 0 && s.last() == '-' {
        trim_dashes(s.drop_last())
    } else {
        s
    }
}

/// Each ASCII letter and digit, lower-cased; every other character a dash.
pub open spec fn slug_chars(s: Seq<char>) -> Seq<char> {
    Seq::new(s.len(), |i: int| if is_ascii_alnum(s[i]) { ascii_lower(s[i]) } else { '-' })
}

/// The slug of a project identity: the last non-empty path component (without
/// `.git`), in lower-case ASCII letters and digits with single dashes between runs,
/// cut to 64 characters, or `project` when nothing is left.
pub open spec fn slug_spec(identity: Seq<char>) -> Seq<char> {
    let tail = match last_segment(trim_end_seps(identity)) {
        Some(seg) => seg,
        None => "project"@,
    };
    let tail = if ends_with(tail, ".git"@) {
        tail.take(tail.len() - 4)
    } else {
        tail
    };
    let joined = join_dash(nonempty_parts(split_char(slug_chars(tail), '-')));
    let cut = if joined.len() > 64 {
        joined.take(64)
    } else {
        joined
    };
    let slug = trim_dashes(cut);
    if slug.len() == 0 {
        "project"@
    } else {
        slug
    }
}

/// The bounds of `last_segment(v[0..hi])`.
fn last_segment_range(v: &Vec<char>, hi: usize) -> (r: Option<(usize, usize)>)
    requires
        hi <= v.len(),
    ensures
        match r {
            Some((a, b)) => a <= b <= hi && last_segment(v@.take(hi as int)) == Some(
                v@.subrange(a as int, b as int),
            ),
            None => last_segment(v@.take(hi as int)) is None,
        },
{
    let mut j = hi;
    loop
        invariant
            j <= hi <= v.len(),
            last_segment(v@.take(hi as int)) == last_segment(v@.take(j as int)),
        decreases j,
    {
        let ghost s = v@.take(j as int);
        let mut i = j;
        while i > 0 && !(v[i - 1] == '/' || v[i - 1] == '\\' || v[i - 1] == ':')
            invariant
                i <= j <= hi <= v.len(),
                s == v@.take(j as int),
                rfind_segment_sep(s) == rfind_segment_sep(v@.take(i as int)),
            decreases i,
        {
            assert(v@.take(i as int).drop_last() == v@.take(i - 1));
            i = i - 1;
        }
        proof {
            lemma_rfind_segment_sep(v@.take(i as int));
        }
        // `i` is one past the last separator before `j`, or 0 when there is none.
        let ghost r = rfind_segment_sep(s);
        assert(r == i - 1);
        assert(s.skip(i as int) == v@.subrange(i as int, j as int));
        if j > i {
            return Some((i, j));
        }
        if i == 0 {
            return None;
        }
        assert(s.take(i - 1) == v@.take(i - 1));
        j = i - 1;
    }
}

/// The slug of a project identity.
pub fn slug_for(identity: &str) -> (r: String)
    ensures
        r@ == slug_spec(identity@),
{
    let v = chars_of(identity);
    let mut end = v.len();
    assert(v@.take(end as int) == v@);
    while end > 0 && (v[end - 1] == '/' || v[end - 1] == '\\')
        invariant
            end <= v.len(),
            trim_end_seps(v@) == trim_end_seps(v@.take(end as int)),
        decreases end,
    {
        assert(v@.take(end as int).drop_last() == v@.take(end - 1));
        end = end - 1;
    }
    let tail: Vec<char> = match last_segment_range(&v, end) {
        Some((a, b)) => {
            let mut t: Vec<char> = Vec::new();
            let mut k = a;
            while k < b
                invariant
                    a <= k <= b <= v.len(),
                    t@ == v@.subrange(a as int, k as int),
                decreases b - k,
            {
                t.push(v[k]);
                assert(v@.subrange(a as int, k + 1) == v@.subrange(a as int, k as int).push(v@[k as int]));
                k = k + 1;
            }
            t
        },
        None => chars_of("project"),
    };
    let suffix = chars_of(".git");
    proof {
        reveal_strlit(".git");
    }
    assert(suffix@.len() == 4);
    let tail_end = if crate::text::ends_with_in(&tail, 0, tail.len(), &suffix) {
        tail.len() - 4
    } else {
        tail.len()
    };
    proof {
        assert(tail@.subrange(0, tail@.len() as int) == tail@);
        if crate::text::ends_with(tail@, ".git"@) {
            assert(".git"@.len() == 4) by {
                reveal_strlit(".git");
            }
        }
    }
    let ghost trimmed_tail = tail@.take(tail_end as int);
    let mut mapped: Vec<char> = Vec::new();
    let mut k: usize = 0;
    while k < tail_end
        invariant
            k <= tail_end <= tail.len(),
            trimmed_tail == tail@.take(tail_end as int),
            mapped@ == slug_chars(trimmed_tail.take(k as int)),
        decreases tail_end - k,
    {
        let c = tail[k];
        let m = if ('0' <= c && c <= '9') || ('a' <= c && c <= 'z') || ('A' <= c && c <= 'Z') {
            crate::text::to_ascii_lowercase(c)
        } else {
            '-'
        };
        mapped.push(m);
        assert(mapped@ == slug_chars(trimmed_tail.take(k + 1)));
        k = k + 1;
    }
    assert(trimmed_tail.take(tail_end as int) == trimmed_tail);
    let joined = join_nonempty_dash_parts(&mapped);
    let mut cut_end = joined.len();
    if cut_end > 64 {
        cut_end = 64;
    }
    assert(joined@.len() > 64 ==> joined@.take(64) == joined@.subrange(0, 64));
    assert(joined@.len() <= 64 ==> joined@ == joined@.subrange(0, joined@.len() as int));
    let (a, b) = trim_dash_range(&joined, 0, cut_end);
    if a == b {
        let mut out = String::new();
        push_str(&mut out, "project");
        return out;
    }
    string_of(&joined, a, b)
}

/// `join_dash(nonempty_parts(split_char(v, '-')))`.
fn join_nonempty_dash_parts(v: &Vec<char>) -> (r: Vec<char>)
    ensures
        r@ == join_dash(nonempty_parts(split_char(v@, '-'))),
{
    let n = v.len();
    let mut out: Vec<char> = Vec::new();
    let ghost mut done: Seq<Seq<char>> = Seq::empty();
    let mut any = false;
    let mut pos: usize = 0;
    assert(v@.subrange(0, n as int) == v@);
    loop
        invariant
            pos <= n == v.len(),
            split_char(v@, '-') == done + split_char(v@.subrange(pos as int, n as int), '-'),
            out@ == join_dash(nonempty_parts(done)),
            any == (nonempty_parts(done).len() > 0),
        decreases n - pos,
    {
        let ghost src = v@.subrange(pos as int, n as int);
        let found = crate::text::find_char_in(v, pos, n, '-');
        let piece_end = match found {
            Some(k) => k,
            None => n,
        };
        let ghost piece = v@.subrange(pos as int, piece_end as int);
        if piece_end > pos {
            if any {
                out.push('-');
            }
            let mut k = pos;
            let ghost before = out@;
            while k < piece_end
                invariant
                    pos <= k <= piece_end <= n == v.len(),
                    out@ == before + v@.subrange(pos as int, k as int),
                decreases piece_end - k,
            {
                out.push(v[k]);
                assert(v@.subrange(pos as int, k + 1) == v@.subrange(pos as int, k as int).push(v@[k as int]));
                k = k + 1;
            }
            proof {
                assert(done.push(piece).drop_last() == done);
                assert(nonempty_parts(done.push(piece)) == nonempty_parts(done).push(piece));
                let parts = nonempty_parts(done).push(piece);
                assert(parts.drop_last() == nonempty_parts(done));
                if !any {
                    assert(parts.len() == 1);
                }
            }
            any = true;
        } else {
            proof {
                assert(done.push(piece).drop_last() == done);
                assert(nonempty_parts(done.push(piece)) == nonempty_parts(done));
            }
        }
        match found {
            Some(k) => {
                proof {
                    assert(src.take(k - pos) == piece);
                    assert(src.skip(k - pos + 1) == v@.subrange(k + 1, n as int));
                    assert(done + split_char(src, '-') == done.push(piece) + split_char(
                        v@.subrange(k + 1, n as int),
                        '-',
                    ));
                    done = done.push(piece);
                }
                pos = k + 1;
            },
            None => {
                proof {
                    assert(src == piece);
                    assert(split_char(src, '-') == seq![piece]);
                    assert(done + seq![piece] == done.push(piece));
                    done = done.push(piece);
                }
                return out;
            },
        }
    }
}

/// The bounds of `trim_dashes(v[lo..hi])`.
fn trim_dash_range(v: &Vec<char>, lo: usize, hi: usize) -> (r: (usize, usize))
    requires
        lo <= hi <= v.len(),
    ensures
        lo <= r.0 <= r.1 <= hi,
        v@.subrange(r.0 as int, r.1 as int) == trim_dashes(v@.subrange(lo as int, hi as int)),
{
    let mut a = lo;
    let mut b = hi;
    while a < b && (v[a] == '-' || v[b - 1] == '-')
        invariant
            lo <= a <= b <= hi <= v.len(),
            trim_dashes(v@.subrange(lo as int, hi as int)) == trim_dashes(
                v@.subrange(a as int, b as int),
            ),
        decreases b - a,
    {
        if v[a] == '-' {
            assert(v@.subrange(a as int, b as int).drop_first() == v@.subrange(a + 1, b as int));
            a = a + 1;
        } else {
            assert(v@.subrange(a as int, b as int).drop_last() == v@.subrange(a as int, b - 1));
            b = b - 1;
        }
    }
    (a, b)
}

/// A character a slug is written with: a lower-case ASCII letter, a digit or a dash.
pub open spec fn is_slug_char(c: char) -> bool {
    ('a' <= c && c <= 'z') || ('0' <= c && c <= '9') || c == '-'
}

pub open spec fn slug_chars_only(s: Seq<char>) -> bool {
    forall|i: int| 0 <= i < s.len() ==> is_slug_char(#[trigger] s[i])
}

pub open spec fn all_slug_parts(parts: Seq<Seq<char>>) -> bool {
    forall|i: int| 0 <= i < parts.len() ==> slug_chars_only(#[trigger] parts[i])
}

proof fn lemma_slug_chars_only(s: Seq<char>)
    ensures
        slug_chars_only(slug_chars(s)),
{
    assert forall|i: int| 0 <= i < slug_chars(s).len() implies is_slug_char(
        #[trigger] slug_chars(s)[i],
    ) by {
        let c = s[i];
        if is_ascii_alnum(c) && 'A' <= c && c <= 'Z' {
            assert(((c as u32) + 32) as char == ascii_lower(c));
            assert('a' <= ascii_lower(c) && ascii_lower(c) <= 'z');
        }
    }
}

proof fn lemma_split_slug_parts(s: Seq<char>)
    requires
        slug_chars_only(s),
    ensures
        all_slug_parts(split_char(s, '-')),
    decreases s.len(),
{
    let i = crate::text::find_char(s, '-');
    crate::text::lemma_find_char_range(s, '-');
    if i >= 0 {
        let rest = s.skip(i + 1);
        assert forall|k: int| 0 <= k < rest.len() implies is_slug_char(#[trigger] rest[k]) by {
            assert(rest[k] == s[k + i + 1]);
        }
        lemma_split_slug_parts(rest);
        let head = s.take(i);
        assert forall|k: int| 0 <= k < head.len() implies is_slug_char(#[trigger] head[k]) by {
            assert(head[k] == s[k]);
        }
        let parts = split_char(s, '-');
        assert forall|j: int| 0 <= j < parts.len() implies slug_chars_only(#[trigger] parts[j]) by {
            if j > 0 {
                assert(parts[j] == split_char(rest, '-')[j - 1]);
            }
        }
    }
}

proof fn lemma_nonempty_slug_parts(parts: Seq<Seq<char>>)
    requires
        all_slug_parts(parts),
    ensures
        all_slug_parts(nonempty_parts(parts)),
    decreases parts.len(),
{
    if parts.len() > 0 {
        assert(all_slug_parts(parts.drop_last())) by {
            assert forall|i: int| 0 <= i < parts.drop_last().len() implies slug_chars_only(
                #[trigger] parts.drop_last()[i],
            ) by {
                assert(parts.drop_last()[i] == parts[i]);
            }
        }
        lemma_nonempty_slug_parts(parts.drop_last());
        assert(slug_chars_only(parts[parts.len() - 1]));
    }
}

proof fn lemma_join_dash_slug(parts: Seq<Seq<char>>)
    requires
        all_slug_parts(parts),
    ensures
        slug_chars_only(join_dash(parts)),
    decreases parts.len(),
{
    if parts.len() == 1 {
        assert(slug_chars_only(parts[0]));
    } else if parts.len() > 1 {
        assert(all_slug_parts(parts.drop_last())) by {
            assert forall|i: int| 0 <= i < parts.drop_last().len() implies slug_chars_only(
                #[trigger] parts.drop_last()[i],
            ) by {
                assert(parts.drop_last()[i] == parts[i]);
            }
        }
        lemma_join_dash_slug(parts.drop_last());
        let a = join_dash(parts.drop_last());
        let b = parts.last();
        assert(slug_chars_only(b));
        let j = a + seq!['-'] + b;
        assert forall|k: int| 0 <= k < j.len() implies is_slug_char(#[trigger] j[k]) by {
            if k < a.len() {
                assert(j[k] == a[k]);
            } else if k > a.len() {
                assert(j[k] == b[k - a.len() - 1]);
            }
        }
    }
}

proof fn lemma_trim_dashes_shape(s: Seq<char>)
    requires
        slug_chars_only(s),
    ensures
        slug_chars_only(trim_dashes(s)),
        trim_dashes(s).len() <= s.len(),
        trim_dashes(s).len() > 0 ==> trim_dashes(s)[0] != '-' && trim_dashes(s).last() != '-',
    decreases s.len(),
{
    if s.len() > 0 && s[0] == '-' {
        assert forall|k: int| 0 <= k < s.drop_first().len() implies is_slug_char(
            #[trigger] s.drop_first()[k],
        ) by {
            assert(s.drop_first()[k] == s[k + 1]);
        }
        lemma_trim_dashes_shape(s.drop_first());
    } else if s.len() > 0 && s.last() == '-' {
        assert forall|k: int| 0 <= k < s.drop_last().len() implies is_slug_char(
            #[trigger] s.drop_last()[k],
        ) by {
            assert(s.drop_last()[k] == s[k]);
        }
        lemma_trim_dashes_shape(s.drop_last());
    }
}

/// The last `/`, `\\` or `:` of `a + [c] + b`, where `c` is one and `b` holds none, is
/// the `c` between them.
proof fn lemma_rfind_segment_sep_before(a: Seq<char>, b: Seq<char>, c: char)
    requires
        is_segment_sep(c),
        forall|k: int| 0 <= k < b.len() ==> !is_segment_sep(#[trigger] b[k]),
    ensures
        rfind_segment_sep(a + seq![c] + b) == a.len(),
    decreases b.len(),
{
    let s = a + seq![c] + b;
    if b.len() > 0 {
        assert(s.drop_last() == a + seq![c] + b.drop_last());
        assert(s.last() == b.last());
        lemma_rfind_segment_sep_before(a, b.drop_last(), c);
    } else {
        assert(s.last() == c);
    }
}

/// A lower-case ASCII letter or a digit.
pub open spec fn is_lower_alnum(c: char) -> bool {
    ('a' <= c && c <= 'z') || ('0' <= c && c <= '9')
}

/// An identity whose last path segment (after a `/`, `\\` or `:`, and with or without a
/// trailing `.git`) is one to 64 ASCII letters and digits has that segment, lower-cased,
/// as its slug: every letter and digit of the name is kept, in order, an upper-case
/// letter as its lower-case form and every other character as it is.
pub proof fn lemma_alphanumeric_name_slug(
    before: Seq<char>,
    sep: char,
    name: Seq<char>,
    dot_git: bool,
)
    requires
        is_segment_sep(sep),
        1 <= name.len() <= 64,
        forall|i: int|
            0 <= i < name.len() ==> ('0' <= #[trigger] name[i] && name[i] <= '9') || ('a'
                <= name[i] && name[i] <= 'z') || ('A' <= name[i] && name[i] <= 'Z'),
    ensures
        ({
            let slug = slug_spec(
                before + seq![sep] + name + (if dot_git {
                    ".git"@
                } else {
                    Seq::empty()
                }),
            );
            &&& slug.len() == name.len()
            &&& forall|i: int|
                0 <= i < name.len() ==> if 'A' <= #[trigger] name[i] && name[i] <= 'Z' {
                    (slug[i] as u32) == (name[i] as u32) + 32
                } else {
                    slug[i] == name[i]
                }
        }),
{
    reveal_strlit(".git");
    let suffix = if dot_git { ".git"@ } else { Seq::<char>::empty() };
    let tail = name + suffix;
    let identity = before + seq![sep] + name + suffix;
    assert(identity == before + seq![sep] + tail);
    assert forall|k: int| 0 <= k < tail.len() implies !is_segment_sep(#[trigger] tail[k]) by {
        if k < name.len() {
            assert(tail[k] == name[k]);
            assert(is_ascii_alnum(name[k]));
        } else {
            assert(tail[k] == suffix[k - name.len()]);
        }
    }
    assert(identity.last() == tail.last());
    if dot_git {
        assert(tail.last() == 't');
    } else {
        assert(tail.last() == name[name.len() - 1]);
        assert(is_ascii_alnum(name[name.len() - 1]));
    }
    assert(trim_end_seps(identity) == identity);
    lemma_rfind_segment_sep_before(before, tail, sep);
    lemma_rfind_segment_sep(identity);
    assert(identity.skip(before.len() + 1int) == tail);
    assert(last_segment(identity) == Some(tail));
    if dot_git {
        assert(tail.skip(tail.len() - 4) == ".git"@);
        assert(tail.take(tail.len() - 4) == name);
    } else {
        assert(tail == name);
        if ends_with(name, ".git"@) {
            assert(name.skip(name.len() - 4)[0] == '.');
            assert(is_ascii_alnum(name[name.len() - 4]));
        }
    }
    let lowered = slug_chars(name);
    assert forall|k: int| 0 <= k < name.len() implies #[trigger] lowered[k] != '-' && (if 'A'
        <= name[k] && name[k] <= 'Z' {
        (lowered[k] as u32) == (name[k] as u32) + 32
    } else {
        lowered[k] == name[k]
    }) by {
        let c = name[k];
        assert(is_ascii_alnum(c));
        if 'A' <= c && c <= 'Z' {
            let n = (c as u32) + 32;
            assert(lowered[k] == n as char);
            assert((n as char) as u32 == n);
        }
    }
    assert forall|k: int| 0 <= k < lowered.len() implies #[trigger] lowered[k] != '-' by {
        assert(lowered[k] != '-');
    }
    crate::text::lemma_split_none(lowered, '-');
    let parts = seq![lowered];
    assert(parts.drop_last() == Seq::<Seq<char>>::empty());
    assert(nonempty_parts(Seq::<Seq<char>>::empty()) == Seq::<Seq<char>>::empty());
    assert(nonempty_parts(parts) == parts);
    assert(join_dash(parts) == lowered);
    assert(lowered[0] != '-');
    assert(lowered.last() != '-');
    assert(trim_dashes(lowered) == lowered);
}

/// An identity whose last path segment (after a `/`, `\\` or `:`, and with or without a
/// trailing `.git`) is one to 64 lower-case ASCII letters and digits has that segment as
/// its slug: the slug keeps every letter and digit of the name, in order.
pub proof fn lemma_plain_name_is_its_own_slug(
    before: Seq<char>,
    sep: char,
    name: Seq<char>,
    dot_git: bool,
)
    requires
        is_segment_sep(sep),
        1 <= name.len() <= 64,
        forall|i: int| 0 <= i < name.len() ==> is_lower_alnum(#[trigger] name[i]),
    ensures
        slug_spec(before + seq![sep] + name + (if dot_git { ".git"@ } else { Seq::empty() }))
            == name,
{
    assert forall|i: int| 0 <= i < name.len() implies ('0' <= #[trigger] name[i] && name[i]
        <= '9') || ('a' <= name[i] && name[i] <= 'z') || ('A' <= name[i] && name[i] <= 'Z') by {
        assert(is_lower_alnum(name[i]));
    }
    lemma_alphanumeric_name_slug(before, sep, name, dot_git);
    let slug = slug_spec(before + seq![sep] + name + (if dot_git { ".git"@ } else { Seq::empty() }));
    assert forall|i: int| 0 <= i < name.len() implies slug[i] == name[i] by {
        assert(is_lower_alnum(name[i]));
        assert(!('A' <= name[i] && name[i] <= 'Z'));
    }
    assert(slug =~= name);
}

/// A slug is a safe single path component: one to 64 lower-case ASCII letters, digits
/// and dashes, neither starting nor ending with a dash (so never `.`, `..` or a path).
pub proof fn lemma_slug_is_a_path_component(identity: Seq<char>)
    ensures
        1 <= slug_spec(identity).len() <= 64,
        slug_chars_only(slug_spec(identity)),
        slug_spec(identity)[0] != '-',
        slug_spec(identity).last() != '-',
{
    let tail = match last_segment(trim_end_seps(identity)) {
        Some(seg) => seg,
        None => "project"@,
    };
    let tail = if ends_with(tail, ".git"@) {
        tail.take(tail.len() - 4)
    } else {
        tail
    };
    lemma_slug_chars_only(tail);
    lemma_split_slug_parts(slug_chars(tail));
    lemma_nonempty_slug_parts(split_char(slug_chars(tail), '-'));
    let joined = join_dash(nonempty_parts(split_char(slug_chars(tail), '-')));
    lemma_join_dash_slug(nonempty_parts(split_char(slug_chars(tail), '-')));
    let cut = if joined.len() > 64 {
        joined.take(64)
    } else {
        joined
    };
    assert(slug_chars_only(cut)) by {
        assert forall|k: int| 0 <= k < cut.len() implies is_slug_char(#[trigger] cut[k]) by {
            assert(cut[k] == joined[k]);
        }
    }
    lemma_trim_dashes_shape(cut);
    reveal_strlit("project");
}

} // verus!
