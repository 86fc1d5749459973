//! The project file committed on the base branch, `.agni/project.toml`, and how the
//! base branch it names is settled.
use vstd::prelude::*;

use crate::error::Error;
use crate::text::{chars_of, push_str, starts_with, str_eq, string_of, trim, trim_range};

verus! {

/// Where the project file sits in a repository.
pub const PROJECT_FILE_PATH: &'static str = ".agni/project.toml";

/// The keys the project file holds, as its error messages name them.
pub const PROJECT_FILE_KEYS: &'static str = "`base_branch`, `[validation] command`, `[evidence]`, `[pull_request] describe_style`, `[dispatch]` and `[delivery]`";

/// `[pull_request]` of the project file: the style pull request descriptions follow.
#[derive(Debug, Clone, PartialEq, Eq)]
pub struct ProjectFilePullRequest {
    pub describe_style: String,
}

impl Default for ProjectFilePullRequest {
    fn default() -> (r: Self)
        ensures
            r.describe_style@.len() == 0,
    {
        ProjectFilePullRequest { describe_style: String::new() }
    }
}

/// `[delivery]` of the project file: how changes are delivered.
#[derive(Debug, Clone, PartialEq, Eq)]
pub struct DeliveryConfig {
    pub mode: Option<String>,
}

impl Default for DeliveryConfig {
    fn default() -> (r: Self)
        ensures
            r.mode is None,
    {
        DeliveryConfig { mode: None }
    }
}

/// The message when the base branch holds no project file.
pub open spec fn missing_message_spec() -> Seq<char> {
    "the base branch has no `"@ + PROJECT_FILE_PATH@ + "`; commit it with "@ + PROJECT_FILE_KEYS@
}

pub fn missing_message() -> (r: String)
    ensures
        r@ == missing_message_spec(),
{
    let mut r = String::new();
    push_str(&mut r, "the base branch has no `");
    push_str(&mut r, PROJECT_FILE_PATH);
    push_str(&mut r, "`; commit it with ");
    push_str(&mut r, PROJECT_FILE_KEYS);
    r
}

/// The origin's default branch, from what `git symbolic-ref --short
/// refs/remotes/origin/HEAD` printed: the name after `origin/`.
pub open spec fn default_branch_spec(printed: Seq<char>) -> Option<Seq<char>> {
    let t = trim(printed);
    if starts_with(t, "origin/"@) && t.len() > 7 {
        Some(t.skip(7))
    } else {
        None
    }
}

pub fn default_branch_from(printed: &str) -> (r: Result<String, Error>)
    ensures
        match default_branch_spec(printed@) {
            Some(branch) => r is Ok && r->Ok_0@ == branch,
            None => r matches Err(Error::Project(m)) && m@ == "origin/HEAD points nowhere"@,
        },
{
    proof {
        reveal_strlit("origin/");
    }
    let v = chars_of(printed);
    let (a, b) = trim_range(&v, 0, v.len());
    assert(v@.subrange(0, v@.len() as int) == v@);
    let ghost t = v@.subrange(a as int, b as int);
    if b - a > 7 && v[a] == 'o' && v[a + 1] == 'r' && v[a + 2] == 'i' && v[a + 3] == 'g' && v[a + 4]
        == 'i' && v[a + 5] == 'n' && v[a + 6] == '/' {
        assert(t.take(7) =~= "origin/"@);
        assert(t.skip(7) == v@.subrange(a + 7, b as int));
        return Ok(string_of(&v, a + 7, b));
    }
    proof {
        if starts_with(t, "origin/"@) && t.len() > 7 {
            assert(t.take(7)[0] == t[0]);
            assert(t.take(7)[1] == t[1]);
            assert(t.take(7)[2] == t[2]);
            assert(t.take(7)[3] == t[3]);
            assert(t.take(7)[4] == t[4]);
            assert(t.take(7)[5] == t[5]);
            assert(t.take(7)[6] == t[6]);
        }
    }
    let mut m = String::new();
    push_str(&mut m, "origin/HEAD points nowhere");
    Err(Error::Project(m))
}

/// What the project file on the default branch decides about the base branch.
#[derive(Debug, Clone, PartialEq, Eq)]
pub enum BaseChoice {
    /// The default branch is the base; its project file is the one to use.
    Default,
    /// Another branch is the base; its project file must be read there.
    Follow(String),
}

/// The base branch named by the project file on the default branch `default`, whose
/// `base_branch` reads `named`.
pub fn choose_base(default: &str, named: &str) -> (r: Result<BaseChoice, Error>)
    ensures
        trim(named@).len() == 0 ==> (r matches Err(Error::Config(m)) && m@ == "`"@
            + PROJECT_FILE_PATH@ + "` at `origin/"@ + default@ + "` names no base_branch"@),
        trim(named@).len() > 0 && trim(named@) == default@ ==> r == Ok::<BaseChoice, Error>(
            BaseChoice::Default,
        ),
        trim(named@).len() > 0 && trim(named@) != default@ ==> (r matches Ok(BaseChoice::Follow(b))
            && b@ == trim(named@)),
{
    let base = crate::text::trim_str(named);
    if base.is_empty() {
        let mut m = String::new();
        push_str(&mut m, "`");
        push_str(&mut m, PROJECT_FILE_PATH);
        push_str(&mut m, "` at `origin/");
        push_str(&mut m, default);
        push_str(&mut m, "` names no base_branch");
        return Err(Error::Config(m));
    }
    if str_eq(base, default) {
        return Ok(BaseChoice::Default);
    }
    Ok(BaseChoice::Follow(base.to_string()))
}

/// The project file read on the followed base `base` must name that same base; `named`
/// is the `base_branch` it reads.
pub fn confirm_base(default: &str, base: &str, named: &str) -> (r: Result<(), Error>)
    ensures
        trim(named@) == base@ ==> r is Ok,
        trim(named@) != base@ ==> (r matches Err(Error::Config(m)) && m@ == "`"@
            + PROJECT_FILE_PATH@ + "` names base_branch `"@ + trim(named@) + "` on `origin/"@ + base@
            + "` but `"@ + base@ + "` on `origin/"@ + default@
            + "`; refusing to follow the disagreement"@),
{
    let named = crate::text::trim_str(named);
    if str_eq(named, base) {
        return Ok(());
    }
    let mut m = String::new();
    push_str(&mut m, "`");
    push_str(&mut m, PROJECT_FILE_PATH);
    push_str(&mut m, "` names base_branch `");
    push_str(&mut m, named);
    push_str(&mut m, "` on `origin/");
    push_str(&mut m, base);
    push_str(&mut m, "` but `");
    push_str(&mut m, base);
    push_str(&mut m, "` on `origin/");
    push_str(&mut m, default);
    push_str(&mut m, "`; refusing to follow the disagreement");
    Err(Error::Config(m))
}

} // verus!
