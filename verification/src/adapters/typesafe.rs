//! What depot decides about an answer of the Typesafe Choice API once its numbers have
//! been checked: which dispatch condition it chose, and why a dispatch is refused.
use vstd::prelude::*;

use crate::error::{Error, ErrorKind};
use crate::text::{chars_of, push_str, str_eq, trim, trim_range, string_of};

verus! {

pub const MODEL: &'static str = "jev-latest";

pub const KEY_FILE: &'static str = "typesafe-key";

/// The condition offered beside the project's own, for work that matches none of them.
pub const NO_MATCH: &'static str = "This work matches none of the conditions above.";

pub open spec fn refusal_text(reason: Seq<char>) -> Seq<char> {
    "Typesafe dispatch refused: "@ + reason + "; supply --role to override"@
}

/// A refused dispatch: the task needs an explicit role.
pub fn dispatch_refused(reason: &str) -> (e: Error)
    ensures
        e.kind() == ErrorKind::Config,
        e.detail() == refusal_text(reason@),
{
    let mut m = String::new();
    push_str(&mut m, "Typesafe dispatch refused: ");
    push_str(&mut m, reason);
    push_str(&mut m, "; supply --role to override");
    Error::Config(m)
}

/// An answer names a choice and the model version that made it.
pub fn check_answer_shape(kind: &str, model: &str) -> (r: Result<(), Error>)
    ensures
        (kind@ == "choice"@ && trim(model@).len() > 0) ==> r is Ok,
        !(kind@ == "choice"@ && trim(model@).len() > 0) ==> (r matches Err(e) && e.kind()
            == ErrorKind::Config && e.detail() == refusal_text(
            "malformed choice or missing model version"@,
        )),
{
    let v = chars_of(model);
    assert(v@.subrange(0, v@.len() as int) == v@);
    let (a, b) = trim_range(&v, 0, v.len());
    if !str_eq(kind, "choice") || a == b {
        return Err(dispatch_refused("malformed choice or missing model version"));
    }
    Ok(())
}

/// The condition the answer chose: none for the no-match condition, else the first of
/// the project's conditions with that text; any other choice is refused.
pub fn chosen_condition(choice: &str, conditions: &[String]) -> (r: Result<Option<usize>, Error>)
    ensures
        choice@ == NO_MATCH@ ==> r == Ok::<Option<usize>, Error>(None),
        choice@ != NO_MATCH@ ==> match r {
            Ok(Some(i)) => i < conditions@.len() && conditions@[i as int]@ == choice@ && forall|
                j: int,
            | 0 <= j < i ==> (#[trigger] conditions@[j])@ != choice@,
            Ok(None) => false,
            Err(e) => (forall|j: int| 0 <= j < conditions@.len() ==> (#[trigger] conditions@[j])@
                != choice@) && e.kind() == ErrorKind::Config && e.detail() == refusal_text(
                "unknown choice"@,
            ),
        },
{
    if str_eq(choice, NO_MATCH) {
        return Ok(None);
    }
    let mut i: usize = 0;
    while i < conditions.len()
        invariant
            i <= conditions@.len(),
            choice@ != NO_MATCH@,
            forall|j: int| 0 <= j < i ==> (#[trigger] conditions@[j])@ != choice@,
        decreases conditions@.len() - i,
    {
        if str_eq(conditions[i].as_str(), choice) {
            return Ok(Some(i));
        }
        i = i + 1;
    }
    Err(dispatch_refused("unknown choice"))
}

pub open spec fn empty_key_text(path: Seq<char>) -> Seq<char> {
    "key file "@ + path + " is empty"@
}

/// The API key read from the key file at `path`: its trimmed contents, refused when
/// they are empty.
pub fn key_from_file(path: &str, contents: &str) -> (r: Result<String, Error>)
    ensures
        trim(contents@).len() > 0 ==> (r matches Ok(key) && key@ == trim(contents@)),
        trim(contents@).len() == 0 ==> (r matches Err(e) && e.kind() == ErrorKind::Config
            && e.detail() == refusal_text(empty_key_text(path@))),
{
    let v = chars_of(contents);
    assert(v@.subrange(0, v@.len() as int) == v@);
    let (a, b) = trim_range(&v, 0, v.len());
    if a == b {
        let mut reason = String::new();
        push_str(&mut reason, "key file ");
        push_str(&mut reason, path);
        push_str(&mut reason, " is empty");
        return Err(dispatch_refused(reason.as_str()));
    }
    Ok(string_of(&v, a, b))
}

} // verus!
