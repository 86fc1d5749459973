//! Pull request descriptions: the prompt a describe worker gets, how its output is
//! read, and how a large diff is cut down before it is handed over.
use vstd::prelude::*;

use crate::error::Result;
use crate::tasks::{Task, ValidationRecord};
use crate::text::{
    back_ws, chars_of, find_char, find_char_in, push_range, push_signed, push_str, push_string,
    signed_decimal, str_eq, string_of, trim, trim_end, trim_range, utf8_len, utf8_len_in,
};

verus! {

pub const MAX_DIFF_BYTES: usize = 60_000;

pub const TRUNCATED_DIFF_BYTES: usize = 40_000;

/// What a describe worker is given.
pub struct DescribeInput {
    pub title: String,
    pub diff: String,
    pub directory: String,
    pub output_path: String,
}

/// What a describe worker produced: a title and a body.
pub struct DescribeOutput {
    pub title: String,
    pub body: String,
}

/// Something that writes the description of a pull request.
pub trait Describer {
    fn describe(&self, input: &DescribeInput) -> Result<DescribeOutput>;
}

/// A describe worker's output: its first line (trimmed) is the title and the rest
/// (trimmed) the body; both must be non-empty.
pub open spec fn parse_spec(text: Seq<char>) -> Option<(Seq<char>, Seq<char>)> {
    let t = trim(text);
    let i = find_char(t, '\n');
    if i < 0 {
        None
    } else {
        let title = trim(t.take(i));
        let body = trim(t.skip(i + 1));
        if title.len() == 0 || body.len() == 0 {
            None
        } else {
            Some((title, body))
        }
    }
}

pub fn parse(text: &str) -> (r: Option<DescribeOutput>)
    ensures
        match r {
            Some(output) => parse_spec(text@) == Some((output.title@, output.body@)),
            None => parse_spec(text@) is None,
        },
{
    let v = chars_of(text);
    let n = v.len();
    assert(v@.subrange(0, n as int) == v@);
    let (a, b) = trim_range(&v, 0, n);
    let ghost t = v@.subrange(a as int, b as int);
    let i = match find_char_in(&v, a, b, '\n') {
        Some(i) => i,
        None => return None,
    };
    assert(t.take(i - a) == v@.subrange(a as int, i as int));
    assert(t.skip(i - a + 1) == v@.subrange(i + 1, b as int));
    let (c, d) = trim_range(&v, a, i);
    let (e, f) = trim_range(&v, i + 1, b);
    if c == d || e == f {
        return None;
    }
    Some(DescribeOutput { title: string_of(&v, c, d), body: string_of(&v, e, f) })
}

pub open spec fn large_diff_note() -> Seq<char> {
    "\n\nThe diff is large; only its beginning follows.\n\n"@
}

/// The diff as a describe worker sees it: whole up to 60,000 bytes; past that, the
/// diffstat, a note, and the first 40,000 characters of the diff.
pub open spec fn diff_section_spec(diff: Seq<char>, diffstat: Seq<char>) -> Seq<char> {
    if utf8_len(diff) <= MAX_DIFF_BYTES {
        diff
    } else {
        let cut = if diff.len() > TRUNCATED_DIFF_BYTES {
            TRUNCATED_DIFF_BYTES as int
        } else {
            diff.len() as int
        };
        diffstat + large_diff_note() + diff.take(cut)
    }
}

pub fn diff_section(diff: &str, diffstat: &str) -> (r: String)
    ensures
        r@ == diff_section_spec(diff@, diffstat@),
{
    let v = chars_of(diff);
    let n = v.len();
    assert(v@.subrange(0, n as int) == v@);
    let mut out = String::new();
    if utf8_len_in(&v, 0, n) <= MAX_DIFF_BYTES as u128 {
        push_str(&mut out, diff);
        return out;
    }
    let cut = if n > TRUNCATED_DIFF_BYTES {
        TRUNCATED_DIFF_BYTES
    } else {
        n
    };
    push_str(&mut out, diffstat);
    push_str(&mut out, "\n\nThe diff is large; only its beginning follows.\n\n");
    push_range(&mut out, &v, 0, cut);
    assert(v@.subrange(0, cut as int) == v@.take(cut as int));
    out
}

pub open spec fn prompt_opening() -> Seq<char> {
    "Load the /technical-writing skill and apply its unslop rules before writing.\n\nYou are writing the description of a pull request for the people who review it. The one-line summary of the change is: "@
}

pub open spec fn prompt_middle() -> Seq<char> {
    "\n\nWrite a description for the people who review it: the one-line title on the first line, then a `## Why` section of one or two sentences, a `## What changed` section of tight bullets drawn only from the diff, and a `## How to review` section.\n\nNever include URLs, internal tool names, verify commands, or any mention of a sketch or mockup. No emoji, no em dashes, plain sentences, under about 180 words.\n\nWrite the finished description, and nothing else, to the file "@
}

pub open spec fn prompt_closing() -> Seq<char> {
    "\n\nThe unified diff of the pull request branch against its base:\n\n"@
}

/// The prompt of a describe worker: instructions, the title (never the task's
/// intent), the file to write, and the diff.
pub open spec fn prompt_spec(title: Seq<char>, diff: Seq<char>, output_path: Seq<char>) -> Seq<char> {
    prompt_opening() + title + prompt_middle() + output_path + prompt_closing() + diff
}

pub fn prompt(title: &str, diff: &str, output_path: &str) -> (r: String)
    ensures
        r@ == prompt_spec(title@, diff@, output_path@),
{
    let mut out = String::new();
    push_str(
        &mut out,
        "Load the /technical-writing skill and apply its unslop rules before writing.\n\nYou are writing the description of a pull request for the people who review it. The one-line summary of the change is: ",
    );
    push_str(&mut out, title);
    push_str(
        &mut out,
        "\n\nWrite a description for the people who review it: the one-line title on the first line, then a `## Why` section of one or two sentences, a `## What changed` section of tight bullets drawn only from the diff, and a `## How to review` section.\n\nNever include URLs, internal tool names, verify commands, or any mention of a sketch or mockup. No emoji, no em dashes, plain sentences, under about 180 words.\n\nWrite the finished description, and nothing else, to the file ",
    );
    push_str(&mut out, output_path);
    push_str(&mut out, "\n\nThe unified diff of the pull request branch against its base:\n\n");
    push_str(&mut out, diff);
    out
}

/// The latest validation run at `commit`, if any.
pub open spec fn latest_at(validations: Seq<ValidationRecord>, commit: Seq<char>) -> Option<ValidationRecord>
    decreases validations.len(),
{
    if validations.len() == 0 {
        None
    } else if validations.last().commit@ == commit {
        Some(validations.last())
    } else {
        latest_at(validations.drop_last(), commit)
    }
}

/// The validation section of a pull request body: how the latest validation at the
/// delivered commit exited, or that there is none.
pub open spec fn validation_section_spec(task: Task, commit: Seq<char>) -> Seq<char> {
    "## Validation\n\n"@ + match latest_at(task.validations@, commit) {
        Some(v) => "`"@ + v.command@ + "` at `"@ + v.commit@ + "` exited "@ + signed_decimal(
            v.exit_code as int,
        ),
        None => "no validation record"@,
    }
}

pub fn validation_section(task: &Task, commit: &str) -> (r: String)
    ensures
        r@ == validation_section_spec(*task, commit@),
{
    let vs = &task.validations;
    let mut out = String::new();
    push_str(&mut out, "## Validation\n\n");
    let mut k = vs.len();
    assert(vs@.take(k as int) == vs@);
    while k > 0 && !str_eq(vs[k - 1].commit.as_str(), commit)
        invariant
            k <= vs@.len(),
            latest_at(vs@, commit@) == latest_at(vs@.take(k as int), commit@),
        decreases k,
    {
        assert(vs@.take(k as int).drop_last() == vs@.take(k - 1));
        k -= 1;
    }
    if k == 0 {
        push_str(&mut out, "no validation record");
    } else {
        assert(vs@.take(k as int).last() == vs@[k - 1]);
        let v = &vs[k - 1];
        push_str(&mut out, "`");
        push_string(&mut out, &v.command);
        push_str(&mut out, "` at `");
        push_string(&mut out, &v.commit);
        push_str(&mut out, "` exited ");
        push_signed(&mut out, v.exit_code as i64);
    }
    out
}

/// The title and body of a pull request delivering `commit`: the describe worker's title
/// and its body with trailing whitespace dropped, a blank line and the validation
/// section; without a description, the task's title and the validation section alone.
/// The task's intent is never part of either.
pub open spec fn assemble_spec(describe: Option<(Seq<char>, Seq<char>)>, task: Task, commit: Seq<char>) -> (Seq<char>, Seq<char>) {
    let validation = validation_section_spec(task, commit);
    match describe {
        Some((title, body)) => (title, trim_end(body) + "\n\n"@ + validation + "\n"@),
        None => (task.title@, validation + "\n"@),
    }
}

pub fn assemble(describe: Option<DescribeOutput>, task: &Task, commit: &str) -> (r: (String, String))
    ensures
        (r.0@, r.1@) == assemble_spec(
            match describe {
                Some(o) => Some((o.title@, o.body@)),
                None => None,
            },
            *task,
            commit@,
        ),
{
    let validation = validation_section(task, commit);
    match describe {
        Some(output) => {
            let v = chars_of(output.body.as_str());
            let j = back_ws(&v, 0, v.len());
            assert(v@.subrange(0, v@.len() as int) == v@);
            let mut body = string_of(&v, 0, j);
            push_str(&mut body, "\n\n");
            push_string(&mut body, &validation);
            push_str(&mut body, "\n");
            (output.title, body)
        },
        None => {
            let mut body = validation;
            push_str(&mut body, "\n");
            (task.title.clone(), body)
        },
    }
}

} // verus!
