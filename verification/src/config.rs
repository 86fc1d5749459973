//! A project's machine-local configuration, `.depot.toml` in its repository root.
use vstd::prelude::*;

use crate::adapters::typesafe::NO_MATCH;
use crate::error::{Error, ErrorKind};
use crate::names::{role_from_name, role_name_spec, Role};
use crate::paths::{join, join_path};
use crate::text::{chars_of, push_str, push_string, str_eq, trim, trim_range};

verus! {

/// The configuration file's name in the project directory.
pub const PROJECT_CONFIG_FILE_NAME: &'static str = ".depot.toml";

/// How many tasks a project runs at once unless it says otherwise.
pub const DEFAULT_MAX_CONCURRENT_TASKS: usize = 1;

/// `[validation]`: the command run against a submitted commit.
#[derive(Debug, Clone, PartialEq, Eq)]
pub struct ValidationConfig {
    pub command: String,
}

impl Default for ValidationConfig {
    fn default() -> (r: Self)
        ensures
            r.command@.len() == 0,
    {
        ValidationConfig { command: String::new() }
    }
}

/// `[pull_request]`: the branch pull requests target, and whether they merge by
/// themselves once their checks pass.
#[derive(Debug, Clone, PartialEq, Eq)]
pub struct PullRequestConfig {
    pub base: String,
    pub auto_merge: bool,
}

impl Default for PullRequestConfig {
    fn default() -> (r: Self)
        ensures
            r.base@ == "main"@,
            !r.auto_merge,
    {
        PullRequestConfig { base: "main".to_string(), auto_merge: false }
    }
}

/// `[questions]`: whether every worker question is relayed to the user.
#[derive(Debug, Clone, PartialEq, Eq)]
pub struct QuestionsConfig {
    pub always_relay: bool,
}

impl Default for QuestionsConfig {
    fn default() -> (r: Self)
        ensures
            !r.always_relay,
    {
        QuestionsConfig { always_relay: false }
    }
}

/// One dispatch rule: the condition it matches, the role it assigns and the profiles it
/// may pin.
#[derive(Debug, Clone, PartialEq, Eq)]
pub struct DispatchRuleConfig {
    pub when: String,
    pub role: String,
    pub candidates: Vec<String>,
}

/// Where a project directory keeps its configuration.
pub fn config_path_in(project_dir: &str) -> (r: String)
    ensures
        r@ == join(project_dir@, PROJECT_CONFIG_FILE_NAME@),
{
    join_path(project_dir, PROJECT_CONFIG_FILE_NAME)
}

/// A dispatch rule once validated: its condition, the role it assigns and the profiles
/// it may pin.
#[derive(Debug, Clone, PartialEq, Eq)]
pub struct DispatchRule {
    pub when: String,
    pub role: Role,
    pub candidates: Vec<String>,
}

pub open spec fn dispatch_rules_unique_message() -> Seq<char> {
    ".depot.toml dispatch.rules requires unique, nonempty when strings distinct from the neutral option"@
}

/// Why the rule `rules[i]` is refused, if it is, given the rules before it.
pub open spec fn rule_fault(rules: Seq<DispatchRuleConfig>, i: int) -> Option<Seq<char>> {
    let rule = rules[i];
    if trim(rule.when@).len() == 0 || rule.when@ == NO_MATCH@ || exists|j: int|
        0 <= j < i && (#[trigger] rules[j]).when@ == rule.when@ {
        Some(dispatch_rules_unique_message())
    } else if forall|role: Role| role_name_spec(role) != rule.role@ {
        Some("unknown dispatch rule role `"@ + rule.role@ + "` in .depot.toml"@)
    } else if exists|k: int|
        0 <= k < rule.candidates@.len() && trim((#[trigger] rule.candidates@[k])@).len() == 0 {
        Some(".depot.toml dispatch rule contains an empty candidate profile"@)
    } else {
        None
    }
}

/// The rule `rule` becomes once validated.
pub open spec fn validated(rule: DispatchRule, config: DispatchRuleConfig) -> bool {
    &&& rule.when@ == config.when@
    &&& role_name_spec(rule.role) == config.role@
    &&& rule.candidates@.len() == config.candidates@.len()
    &&& forall|k: int|
        0 <= k < rule.candidates@.len() ==> (#[trigger] rule.candidates@[k])@
            == config.candidates@[k]@
}

fn blank(s: &str) -> (b: bool)
    ensures
        b == (trim(s@).len() == 0),
{
    let v = chars_of(s);
    assert(v@.subrange(0, v@.len() as int) == v@);
    let (a, b) = trim_range(&v, 0, v.len());
    a == b
}

/// Validates the dispatch rules of a project's configuration, in order: the confidence
/// floor must lie between 0 and 1 (`floor_in_range`), there must be a rule, and each
/// rule needs a nonblank condition unlike the neutral option and every earlier rule's,
/// a known role, and no blank candidate profile; the first fault is the error.
#[verifier::loop_isolation(false)]
pub fn validated_rules(floor_in_range: bool, rules: &Vec<DispatchRuleConfig>) -> (r: Result<
    Vec<DispatchRule>,
    Error,
>)
    ensures
        !floor_in_range ==> (r matches Err(e) && e.kind() == ErrorKind::Config && e.detail()
            == ".depot.toml dispatch.confidence_floor must be between 0 and 1"@),
        floor_in_range && rules@.len() == 0 ==> (r matches Err(e) && e.kind() == ErrorKind::Config
            && e.detail()
            == ".depot.toml dispatch.rules is empty; configure at least one rule or supply --role"@),
        floor_in_range && rules@.len() > 0 ==> match r {
            Ok(v) => v@.len() == rules@.len() && (forall|i: int|
                0 <= i < rules@.len() ==> #[trigger] rule_fault(rules@, i) is None) && (forall|
                i: int,
            | 0 <= i < rules@.len() ==> validated(#[trigger] v@[i], rules@[i])),
            Err(e) => exists|i: int|
                0 <= i < rules@.len() && (forall|j: int|
                    0 <= j < i ==> rule_fault(rules@, j) is None) && #[trigger] rule_fault(
                    rules@,
                    i,
                ) == Some(e.detail()) && e.kind() == ErrorKind::Config,
        },
{
    if !floor_in_range {
        let mut m = String::new();
        push_str(&mut m, ".depot.toml dispatch.confidence_floor must be between 0 and 1");
        return Err(Error::Config(m));
    }
    if rules.len() == 0 {
        let mut m = String::new();
        push_str(
            &mut m,
            ".depot.toml dispatch.rules is empty; configure at least one rule or supply --role",
        );
        return Err(Error::Config(m));
    }
    let mut out: Vec<DispatchRule> = Vec::new();
    let mut i: usize = 0;
    while i < rules.len()
        invariant
            i <= rules@.len(),
            out@.len() == i,
            forall|j: int| 0 <= j < i ==> #[trigger] rule_fault(rules@, j) is None,
            forall|j: int| 0 <= j < i ==> validated(#[trigger] out@[j], rules@[j]),
        decreases rules@.len() - i,
    {
        let rule = &rules[i];
        let mut repeated = false;
        let mut j: usize = 0;
        while j < i
            invariant
                j <= i,
                !repeated ==> forall|k: int| 0 <= k < j ==> (#[trigger] rules@[k]).when@ != rule.when@,
                repeated ==> exists|k: int| 0 <= k < i && (#[trigger] rules@[k]).when@ == rule.when@,
            decreases i - j,
        {
            if str_eq(rules[j].when.as_str(), rule.when.as_str()) {
                repeated = true;
            }
            j = j + 1;
        }
        if blank(rule.when.as_str()) || str_eq(rule.when.as_str(), NO_MATCH) || repeated {
            let mut m = String::new();
            push_str(
                &mut m,
                ".depot.toml dispatch.rules requires unique, nonempty when strings distinct from the neutral option",
            );
            return Err(Error::Config(m));
        }
        let role = match role_from_name(rule.role.as_str()) {
            Some(role) => role,
            None => {
                let mut m = String::new();
                push_str(&mut m, "unknown dispatch rule role `");
                push_string(&mut m, &rule.role);
                push_str(&mut m, "` in .depot.toml");
                return Err(Error::Config(m));
            },
        };
        let mut candidates: Vec<String> = Vec::new();
        let mut k: usize = 0;
        while k < rule.candidates.len()
            invariant
                k <= rule.candidates@.len(),
                candidates@.len() == k,
                forall|q: int| 0 <= q < k ==> trim((#[trigger] rule.candidates@[q])@).len() > 0,
                forall|q: int| 0 <= q < k ==> (#[trigger] candidates@[q])@ == rule.candidates@[q]@,
            decreases rule.candidates@.len() - k,
        {
            if blank(rule.candidates[k].as_str()) {
                let mut m = String::new();
                push_str(&mut m, ".depot.toml dispatch rule contains an empty candidate profile");
                return Err(Error::Config(m));
            }
            candidates.push(rule.candidates[k].clone());
            k = k + 1;
        }
        let when = rule.when.clone();
        assert(rule == rules@[i as int]);
        assert(!exists|q: int| 0 <= q < i && (#[trigger] rules@[q]).when@ == rule.when@);
        assert(role_name_spec(role) == rule.role@);
        assert(!exists|q: int|
            0 <= q < rule.candidates@.len() && trim((#[trigger] rule.candidates@[q])@).len() == 0);
        assert(rule_fault(rules@, i as int) is None);
        let new_rule = DispatchRule { when, role, candidates };
        assert(validated(new_rule, rules@[i as int]));
        let ghost before = out@;
        out.push(new_rule);
        assert forall|j: int| 0 <= j < i + 1 implies validated(#[trigger] out@[j], rules@[j]) by {
            if j < i {
                assert(out@[j] == before[j]);
            }
        }
        i = i + 1;
    }
    Ok(out)
}

} // verus!
