//! Listing the registered projects, and choosing which ones a status report covers.
use vstd::prelude::*;

use crate::error::Error;
use crate::text::{chars_of, contains_seq, decimal, find_char, find_char_in, find_seq_in, join_spec, push_char, push_decimal, push_str, push_string, texts};

verus! {

/// Which projects a status report covers.
#[derive(Debug, Clone, PartialEq, Eq)]
pub enum StatusSelection {
    All,
    Project(String),
    CurrentDirectory,
}

/// The error when no project matches a name.
pub fn no_project_matches(name: &str) -> (e: Error)
    ensures
        e matches Error::NotFound(m) && m@ == "no project matches `"@ + name@
            + "`: list them with `depot status --all`"@,
{
    let mut m = String::new();
    push_str(&mut m, "no project matches `");
    push_str(&mut m, name);
    push_str(&mut m, "`: list them with `depot status --all`");
    Error::NotFound(m)
}

/// The slugs of the registered projects, each in backquotes, joined with `, `.
pub open spec fn quoted_slugs(slugs: Seq<Seq<char>>) -> Seq<Seq<char>> {
    Seq::new(slugs.len(), |i: int| seq!['`'] + slugs[i] + seq!['`'])
}

/// Why no project matches the current directory, naming the registered ones.
pub open spec fn unmatched_directory_text(slugs: Seq<Seq<char>>) -> Seq<char> {
    if slugs.len() == 0 {
        "no project matches this directory: no projects are registered; name one with `--project` after `depot project add`, or pass `--all`"@
    } else {
        "no project matches this directory: registered projects are "@ + join_spec(
            quoted_slugs(slugs),
            ", "@,
        )
            + "; run from the project repository or its store, name one with `--project`, or pass `--all`"@
    }
}

pub fn unmatched_directory_message(slugs: &Vec<String>) -> (r: String)
    ensures
        r@ == unmatched_directory_text(texts(slugs@)),
{
    let mut r = String::new();
    if slugs.len() == 0 {
        push_str(
            &mut r,
            "no project matches this directory: no projects are registered; name one with `--project` after `depot project add`, or pass `--all`",
        );
        return r;
    }
    let mut quoted: Vec<String> = Vec::new();
    let mut i: usize = 0;
    while i < slugs.len()
        invariant
            i <= slugs@.len(),
            texts(quoted@) == quoted_slugs(texts(slugs@)).take(i as int),
        decreases slugs@.len() - i,
    {
        let mut q = String::new();
        push_char(&mut q, '`');
        push_string(&mut q, &slugs[i]);
        push_char(&mut q, '`');
        let ghost before = texts(quoted@);
        assert(q@ == seq!['`'] + slugs@[i as int]@ + seq!['`']);
        quoted.push(q);
        assert(texts(quoted@) =~= before.push(seq!['`'] + slugs@[i as int]@ + seq!['`']));
        assert(quoted_slugs(texts(slugs@)).take(i + 1) =~= quoted_slugs(texts(slugs@)).take(
            i as int,
        ).push(seq!['`'] + slugs@[i as int]@ + seq!['`']));
        i += 1;
    }
    assert(quoted_slugs(texts(slugs@)).take(slugs@.len() as int) == quoted_slugs(texts(slugs@)));
    push_str(&mut r, "no project matches this directory: registered projects are ");
    let listed = crate::text::join_strings(&quoted, ", ");
    push_string(&mut r, &listed);
    push_str(
        &mut r,
        "; run from the project repository or its store, name one with `--project`, or pass `--all`",
    );
    r
}

/// The notice that the running daemon was built from another commit than this program.
pub open spec fn build_mismatch_banner_spec(pid: u32, daemon_build: Seq<char>, own_build: Seq<char>) -> Seq<char> {
    "the running depotd (pid "@ + decimal(pid as nat) + ") was built from commit "@ + daemon_build
        + ", but this depot is built from "@ + own_build
        + ": restart it with `depot daemon restart`\n\n"@
}

pub fn build_mismatch_banner(pid: u32, daemon_build: &str, own_build: &str) -> (r: String)
    ensures
        r@ == build_mismatch_banner_spec(pid, daemon_build@, own_build@),
{
    let mut r = String::new();
    push_str(&mut r, "the running depotd (pid ");
    push_decimal(&mut r, pid as u64);
    push_str(&mut r, ") was built from commit ");
    push_str(&mut r, daemon_build);
    push_str(&mut r, ", but this depot is built from ");
    push_str(&mut r, own_build);
    push_str(&mut r, ": restart it with `depot daemon restart`\n\n");
    r
}

/// The notice above a project that needs a daemon and has none driving it.
pub const NO_DAEMON_NOTE: &'static str = "no daemon is driving this project\n\n";

/// Whether a target names a remote rather than a path: it holds `://`, or it is
/// `user@host:path` with no slash before the colon and something after it.
pub open spec fn is_url_spec(target: Seq<char>) -> bool {
    contains_seq(target, "://"@) || {
        let c = find_char(target, ':');
        c >= 0 && {
            let host = target.take(c);
            find_char(host, '@') >= 0 && find_char(host, '/') < 0 && target.len() - c - 1 > 0
        }
    }
}

pub fn is_url(target: &str) -> (r: bool)
    ensures
        r == is_url_spec(target@),
{
    let v = chars_of(target);
    let n = v.len();
    let mark = chars_of("://");
    assert(v@.subrange(0, n as int) == v@);
    if find_seq_in(&v, 0, n, &mark).is_some() {
        return true;
    }
    match find_char_in(&v, 0, n, ':') {
        None => false,
        Some(c) => {
            assert(v@.take(c as int) == v@.subrange(0, c as int));
            find_char_in(&v, 0, c, '@').is_some() && find_char_in(&v, 0, c, '/').is_none() && n - c
                - 1 > 0
        },
    }
}

/// A local clone of a listed project: its path and the origin it reports, if any.
#[derive(Debug, Clone, PartialEq, Eq)]
pub struct ListedClone {
    pub path: String,
    pub origin: Option<String>,
}

/// A role's profile in a listed project, and whether the settings define it.
#[derive(Debug, Clone, PartialEq, Eq)]
pub struct ListedProfile {
    pub role: String,
    pub profile: String,
    pub defined: bool,
}

/// A registered project as the listing shows it.
#[derive(Debug, Clone, PartialEq, Eq)]
pub struct ListedProject {
    pub slug: String,
    pub identity: String,
    pub clones: Vec<ListedClone>,
    pub profiles: Vec<ListedProfile>,
}

pub open spec fn clone_line(c: ListedClone) -> Seq<char> {
    "  path: "@ + c.path@ + match c.origin {
        Some(origin) => " ("@ + origin@ + ")\n"@,
        None => " (local-only, no origin)\n"@,
    }
}

pub open spec fn clone_lines(clones: Seq<ListedClone>) -> Seq<char>
    decreases clones.len(),
{
    if clones.len() == 0 {
        Seq::empty()
    } else {
        clone_lines(clones.drop_last()) + clone_line(clones.last())
    }
}

pub open spec fn profile_entry(p: ListedProfile) -> Seq<char> {
    p.role@ + seq!['='] + p.profile@ + if p.defined {
        Seq::empty()
    } else {
        " (not defined in machine-local settings)"@
    }
}

pub open spec fn profile_entries(ps: Seq<ListedProfile>) -> Seq<Seq<char>> {
    Seq::new(ps.len(), |i: int| profile_entry(ps[i]))
}

/// A project's block: its slug, its identity, its clones (or that it has none), and
/// the profiles its roles map to.
pub open spec fn project_block(p: ListedProject) -> Seq<char> {
    let clones = if p.clones@.len() == 0 {
        "  url: no local clone\n"@
    } else {
        clone_lines(p.clones@)
    };
    let profiles = if p.profiles@.len() == 0 {
        "  profiles: none are mapped in .depot.toml\n"@
    } else {
        "  profiles: "@ + join_spec(profile_entries(p.profiles@), " "@) + seq!['\n']
    };
    p.slug@ + seq!['\n'] + "  identity: "@ + p.identity@ + seq!['\n'] + clones + profiles
}

pub open spec fn project_blocks(ps: Seq<ListedProject>) -> Seq<Seq<char>> {
    Seq::new(ps.len(), |i: int| project_block(ps[i]))
}

/// The listing of the registered projects, blank lines between them.
pub open spec fn render_projects_spec(ps: Seq<ListedProject>) -> Seq<char> {
    if ps.len() == 0 {
        "No projects registered.\n"@
    } else {
        join_spec(project_blocks(ps), "\n"@)
    }
}

fn push_clone_lines(out: &mut String, clones: &Vec<ListedClone>)
    ensures
        final(out)@ == old(out)@ + clone_lines(clones@),
{
    let ghost start = out@;
    let mut i: usize = 0;
    while i < clones.len()
        invariant
            i <= clones@.len(),
            out@ == start + clone_lines(clones@.take(i as int)),
        decreases clones@.len() - i,
    {
        let ghost before = out@;
        push_str(out, "  path: ");
        push_string(out, &clones[i].path);
        match &clones[i].origin {
            Some(origin) => {
                push_str(out, " (");
                push_string(out, origin);
                push_str(out, ")\n");
            },
            None => push_str(out, " (local-only, no origin)\n"),
        }
        proof {
            assert(clones@.take(i + 1).drop_last() == clones@.take(i as int));
            assert(clones@.take(i + 1).last() == clones@[i as int]);
            assert(out@ == before + clone_line(clones@[i as int]));
        }
        i += 1;
    }
    assert(clones@.take(clones@.len() as int) == clones@);
}

fn profiles_text(profiles: &Vec<ListedProfile>) -> (r: String)
    ensures
        r@ == join_spec(profile_entries(profiles@), " "@),
{
    let mut entries: Vec<String> = Vec::new();
    let mut i: usize = 0;
    while i < profiles.len()
        invariant
            i <= profiles@.len(),
            texts(entries@) == profile_entries(profiles@).take(i as int),
        decreases profiles@.len() - i,
    {
        let p = &profiles[i];
        let mut e = String::new();
        push_string(&mut e, &p.role);
        push_char(&mut e, '=');
        push_string(&mut e, &p.profile);
        if !p.defined {
            push_str(&mut e, " (not defined in machine-local settings)");
        }
        let ghost before = texts(entries@);
        assert(e@ == profile_entry(profiles@[i as int]));
        entries.push(e);
        assert(texts(entries@) =~= before.push(profile_entry(profiles@[i as int])));
        assert(profile_entries(profiles@).take(i + 1) =~= profile_entries(profiles@).take(
            i as int,
        ).push(profile_entry(profiles@[i as int])));
        i += 1;
    }
    assert(profile_entries(profiles@).take(profiles@.len() as int) == profile_entries(profiles@));
    crate::text::join_strings(&entries, " ")
}

fn project_block_text(p: &ListedProject) -> (r: String)
    ensures
        r@ == project_block(*p),
{
    let mut out = String::new();
    push_string(&mut out, &p.slug);
    push_char(&mut out, '\n');
    push_str(&mut out, "  identity: ");
    push_string(&mut out, &p.identity);
    push_char(&mut out, '\n');
    let ghost head = out@;
    if p.clones.len() == 0 {
        push_str(&mut out, "  url: no local clone\n");
    } else {
        push_clone_lines(&mut out, &p.clones);
    }
    let ghost with_clones = out@;
    if p.profiles.len() == 0 {
        push_str(&mut out, "  profiles: none are mapped in .depot.toml\n");
    } else {
        push_str(&mut out, "  profiles: ");
        let listed = profiles_text(&p.profiles);
        push_string(&mut out, &listed);
        push_char(&mut out, '\n');
    }
    out
}

/// Renders the listing of the registered projects.
pub fn render_projects(projects: &Vec<ListedProject>) -> (r: String)
    ensures
        r@ == render_projects_spec(projects@),
{
    if projects.len() == 0 {
        let mut r = String::new();
        push_str(&mut r, "No projects registered.\n");
        return r;
    }
    let mut blocks: Vec<String> = Vec::new();
    let mut i: usize = 0;
    while i < projects.len()
        invariant
            i <= projects@.len(),
            texts(blocks@) == project_blocks(projects@).take(i as int),
        decreases projects@.len() - i,
    {
        let block = project_block_text(&projects[i]);
        let ghost before = texts(blocks@);
        blocks.push(block);
        assert(texts(blocks@) =~= before.push(project_block(projects@[i as int])));
        assert(project_blocks(projects@).take(i + 1) =~= project_blocks(projects@).take(i as int).push(
            project_block(projects@[i as int]),
        ));
        i += 1;
    }
    assert(project_blocks(projects@).take(projects@.len() as int) == project_blocks(projects@));
    crate::text::join_strings(&blocks, "\n")
}

} // verus!
