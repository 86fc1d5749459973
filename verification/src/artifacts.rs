//! Artifacts: files copied into the home and handed to a configured publish command,
//! which must answer with exactly one http(s) URL.
use vstd::prelude::*;

use crate::adapters::process::{Output, ProcessError};
use crate::error::Error;
use crate::paths::join;
use crate::paths::join_path;
use crate::text::{chars_of, decimal, join_spec, join_strings, lemma_trim_start_shape, lemma_word_end_range, lemma_words_none, lemma_words_step, push_char, push_decimal, push_signed, push_str, push_string, signed_decimal, skip_ws, starts_with, str_eq, string_of, texts, trim, trim_range, trim_str, word_end_in, words, rfind_char, rfind_char_in, matches_at_exec};

verus! {

/// The variable that hands the publish command the path of the staged copy.
pub const DEPOT_ARTIFACT_PATH: &'static str = "DEPOT_ARTIFACT_PATH";

/// How many characters of the publish command's output an error quotes.
pub const PUBLISH_OUTPUT_TAIL_CHARS: usize = 512;

/// A published artifact: where its copy is kept and the URL it was published at.
#[derive(Debug, Clone, PartialEq, Eq)]
pub struct Staged {
    pub path: String,
    pub url: String,
}

/// A token that names a URL depot accepts.
pub open spec fn is_http_url(token: Seq<char>) -> bool {
    starts_with(token, "http://"@) || starts_with(token, "https://"@)
}

/// The distinct URLs among `tokens`, added to `found` in the order they first appear.
pub open spec fn collect_urls(found: Seq<Seq<char>>, tokens: Seq<Seq<char>>) -> Seq<Seq<char>>
    decreases tokens.len(),
{
    if tokens.len() == 0 {
        found
    } else {
        let t = tokens[0];
        let next = if is_http_url(t) && !found.contains(t) {
            found.push(t)
        } else {
            found
        };
        collect_urls(next, tokens.drop_first())
    }
}

/// The distinct http(s) URLs the publish command printed, in order.
pub open spec fn printed_urls(stdout: Seq<char>) -> Seq<Seq<char>> {
    collect_urls(Seq::empty(), words(stdout))
}

/// The one URL the publish command printed, or why there is not exactly one.
pub open spec fn one_url_spec(stdout: Seq<char>) -> Result<Seq<char>, Seq<char>> {
    let urls = printed_urls(stdout);
    if urls.len() == 1 {
        Ok(urls[0])
    } else if urls.len() == 0 {
        Err("the publish command printed no http(s) URL"@)
    } else {
        Err(
            "the publish command printed "@ + decimal(urls.len()) + " different http(s) URLs: "@
                + join_spec(urls, ", "@),
        )
    }
}

/// Whether `v[lo..hi]` starts with `prefix`.
fn range_starts_with(v: &Vec<char>, lo: usize, hi: usize, prefix: &str) -> (r: bool)
    requires
        lo <= hi <= v.len(),
    ensures
        r == starts_with(v@.subrange(lo as int, hi as int), prefix@),
{
    let p = chars_of(prefix);
    let r = matches_at_exec(v, lo, hi, &p);
    proof {
        let s = v@.subrange(lo as int, hi as int);
        if p@.len() <= s.len() {
            assert(s.subrange(0, p@.len() as int) == v@.subrange(lo as int, lo + p@.len()));
        }
    }
    r
}

/// Whether `items` holds the text `v[lo..hi]`.
fn holds(items: &Vec<String>, v: &Vec<char>, lo: usize, hi: usize) -> (r: bool)
    requires
        lo <= hi <= v.len(),
    ensures
        r == texts(items@).contains(v@.subrange(lo as int, hi as int)),
{
    let token = string_of(v, lo, hi);
    let mut i: usize = 0;
    while i < items.len()
        invariant
            i <= items@.len(),
            token@ == v@.subrange(lo as int, hi as int),
            forall|k: int| 0 <= k < i ==> texts(items@)[k] != token@,
        decreases items@.len() - i,
    {
        if str_eq(items[i].as_str(), token.as_str()) {
            assert(texts(items@)[i as int] == token@);
            return true;
        }
        i += 1;
    }
    false
}

/// The one http(s) URL the publish command printed among its whitespace-separated
/// tokens; none, or several different ones, is the error that says so.
pub fn exactly_one_url(stdout: &str) -> (r: Result<String, String>)
    ensures
        match one_url_spec(stdout@) {
            Ok(url) => r is Ok && r->Ok_0@ == url,
            Err(reason) => r is Err && r->Err_0@ == reason,
        },
{
    let v = chars_of(stdout);
    let n = v.len();
    let mut urls: Vec<String> = Vec::new();
    let mut i: usize = 0;
    assert(v@.subrange(0, n as int) == v@);
    assert(texts(urls@) =~= Seq::<Seq<char>>::empty());
    while i < n
        invariant
            i <= n == v@.len(),
            v@ == stdout@,
            printed_urls(stdout@) == collect_urls(texts(urls@), words(v@.subrange(i as int, n as int))),
        decreases n - i,
    {
        let start = skip_ws(&v, i, n);
        if start == n {
            proof {
                lemma_words_none(v@, i as int);
            }
            i = n;
        } else {
            let end = word_end_in(&v, start, n);
            proof {
                lemma_trim_start_shape(v@.subrange(i as int, n as int));
                let rest = v@.subrange(start as int, n as int);
                assert(rest[0] == v@[start as int]);
                lemma_word_end_range(rest.drop_first());
                lemma_words_step(v@, i as int, start as int, end as int);
                let ws = words(v@.subrange(i as int, n as int));
                assert(ws[0] == v@.subrange(start as int, end as int));
                assert(ws.drop_first() == words(v@.subrange(end as int, n as int)));
            }
            let is_url = range_starts_with(&v, start, end, "http://") || range_starts_with(
                &v,
                start,
                end,
                "https://",
            );
            if is_url && !holds(&urls, &v, start, end) {
                let ghost before = urls@;
                urls.push(string_of(&v, start, end));
                assert(texts(urls@) == texts(before).push(v@.subrange(start as int, end as int)));
            }
            i = end;
        }
    }
    assert(v@.subrange(n as int, n as int) == Seq::<char>::empty());
    assert(words(Seq::<char>::empty()).len() == 0);
    if urls.len() == 1 {
        let url = urls[0].clone();
        return Ok(url);
    }
    if urls.len() == 0 {
        let mut reason = String::new();
        push_str(&mut reason, "the publish command printed no http(s) URL");
        return Err(reason);
    }
    let mut reason = String::new();
    push_str(&mut reason, "the publish command printed ");
    push_decimal(&mut reason, urls.len() as u64);
    push_str(&mut reason, " different http(s) URLs: ");
    let listed = join_strings(&urls, ", ");
    push_string(&mut reason, &listed);
    Err(reason)
}

/// The error when no publish command is configured, naming the settings file at
/// `config_path` and showing what to add there.
pub open spec fn no_publish_command_text(config_path: Seq<char>) -> Seq<char> {
    "no artifact publish command is configured: add publish_command under [artifacts] in "@
        + config_path
        + ", for example\n\n[artifacts]\npublish_command = \"my-uploader\"\n\nThe command runs with DEPOT_ARTIFACT_PATH set to the staged file and must print exactly one http(s) URL."@
}

pub fn no_publish_command(config_path: &str) -> (e: Error)
    ensures
        e matches Error::Config(m) && m@ == no_publish_command_text(config_path@),
{
    let mut m = String::new();
    push_str(
        &mut m,
        "no artifact publish command is configured: add publish_command under [artifacts] in ",
    );
    push_str(&mut m, config_path);
    push_str(
        &mut m,
        ", for example\n\n[artifacts]\npublish_command = \"my-uploader\"\n\nThe command runs with DEPOT_ARTIFACT_PATH set to the staged file and must print exactly one http(s) URL.",
    );
    Error::Config(m)
}

/// Why a file cannot be staged.
#[derive(Debug, Clone, Copy, PartialEq, Eq)]
pub enum StagingProblem {
    Missing,
    NotAFile,
    NoFileName,
}

pub open spec fn staging_error_text(file: Seq<char>, problem: StagingProblem) -> Seq<char> {
    "artifact `"@ + file + match problem {
        StagingProblem::Missing => "` does not exist"@,
        StagingProblem::NotAFile => "` is not a regular file"@,
        StagingProblem::NoFileName => "` has no file name"@,
    }
}

pub fn staging_error(file: &str, problem: StagingProblem) -> (e: Error)
    ensures
        e matches Error::Project(m) && m@ == staging_error_text(file@, problem),
{
    let mut m = String::new();
    push_str(&mut m, "artifact `");
    push_str(&mut m, file);
    match problem {
        StagingProblem::Missing => push_str(&mut m, "` does not exist"),
        StagingProblem::NotAFile => push_str(&mut m, "` is not a regular file"),
        StagingProblem::NoFileName => push_str(&mut m, "` has no file name"),
    }
    Error::Project(m)
}

/// The stem and extension `Path` reads from a file name: the text before and after its
/// last dot, except that a name without a dot, or whose only dot begins it, is all stem.
pub open spec fn stem_and_extension(name: Seq<char>) -> (Seq<char>, Option<Seq<char>>) {
    let d = rfind_char(name, '.');
    if name.len() == 0 {
        ("artifact"@, None)
    } else if d <= 0 || name == ".."@ {
        (name, None)
    } else {
        (name.take(d), Some(name.skip(d + 1)))
    }
}

/// Where the copy of an artifact named `name` goes in `directory`: under its own name
/// first, then, while that is taken, as `<stem>-<suffix>.<extension>` for suffixes from 1.
pub open spec fn candidate_spec(directory: Seq<char>, name: Seq<char>, suffix: u64) -> Seq<char> {
    if suffix == 0 {
        join(directory, name)
    } else {
        let (stem, extension) = stem_and_extension(name);
        join(
            directory,
            stem + seq!['-'] + decimal(suffix as nat) + match extension {
                Some(e) => seq!['.'] + e,
                None => Seq::empty(),
            },
        )
    }
}

pub fn staging_candidate(directory: &str, name: &str, suffix: u64) -> (r: String)
    ensures
        r@ == candidate_spec(directory@, name@, suffix),
{
    if suffix == 0 {
        return join_path(directory, name);
    }
    let v = chars_of(name);
    let mut file = String::new();
    let dot = rfind_char_in(&v, 0, v.len(), '.');
    assert(v@.subrange(0, v@.len() as int) == v@);
    let is_dots = str_eq(name, "..");
    if v.len() == 0 {
        push_str(&mut file, "artifact");
        push_char(&mut file, '-');
        push_decimal(&mut file, suffix);
    } else {
        match dot {
            Some(d) if d > 0 && !is_dots => {
                let stem = string_of(&v, 0, d);
                let extension = string_of(&v, d + 1, v.len());
                push_string(&mut file, &stem);
                push_char(&mut file, '-');
                push_decimal(&mut file, suffix);
                push_char(&mut file, '.');
                push_string(&mut file, &extension);
                assert(v@.take(d as int) == v@.subrange(0, d as int));
                assert(v@.skip(d + 1) == v@.subrange(d + 1, v@.len() as int));
            },
            _ => {
                push_str(&mut file, name);
                push_char(&mut file, '-');
                push_decimal(&mut file, suffix);
            },
        }
    }
    join_path(directory, file.as_str())
}

/// The arguments that hand `command` to the shell: `sh -c` elsewhere, `cmd /C` on
/// Windows.
pub fn shell_arguments(command: &str, windows: bool) -> (r: Vec<String>)
    ensures
        texts(r@) == seq![if windows { "/C"@ } else { "-c"@ }, command@],
{
    let flag = if windows {
        "/C".to_string()
    } else {
        "-c".to_string()
    };
    let args = vec![flag, command.to_string()];
    assert(texts(args@) =~= seq![if windows { "/C"@ } else { "-c"@ }, command@]);
    args
}

/// What an error quotes of a failed publish: its standard error followed by its trimmed
/// standard output, cut to the last 512 characters and trimmed.
pub open spec fn publish_tail_spec(stdout: Seq<char>, stderr: Seq<char>) -> Seq<char> {
    let combined = stderr + trim(stdout);
    let tail = if combined.len() <= PUBLISH_OUTPUT_TAIL_CHARS {
        combined
    } else {
        combined.skip(combined.len() - PUBLISH_OUTPUT_TAIL_CHARS)
    };
    trim(tail)
}

pub fn publish_tail(output: &Output) -> (r: String)
    ensures
        r@ == publish_tail_spec(output.stdout@, output.stderr@),
{
    let mut combined = String::new();
    push_string(&mut combined, &output.stderr);
    let out = trim_str(output.stdout.as_str());
    if !out.is_empty() {
        push_str(&mut combined, out);
    } else {
        assert(output.stderr@ + trim(output.stdout@) == output.stderr@);
    }
    let v = chars_of(combined.as_str());
    let start = if v.len() <= PUBLISH_OUTPUT_TAIL_CHARS {
        0
    } else {
        v.len() - PUBLISH_OUTPUT_TAIL_CHARS
    };
    let (a, b) = trim_range(&v, start, v.len());
    proof {
        if v@.len() <= PUBLISH_OUTPUT_TAIL_CHARS {
            assert(v@.subrange(0, v@.len() as int) == v@);
        } else {
            assert(v@.subrange(start as int, v@.len() as int) == v@.skip(start as int));
        }
    }
    string_of(&v, a, b)
}

/// The error when the publish command could not be started.
pub fn publisher_failed_to_run(error: &ProcessError, staged: &str) -> (e: Error)
    ensures
        e matches Error::Project(m) && m@ == "the artifact publish command could not run: "@
            + error.message_spec() + "; the file is kept at "@ + staged@,
{
    let mut m = String::new();
    push_str(&mut m, "the artifact publish command could not run: ");
    let detail = error.message();
    push_string(&mut m, &detail);
    push_str(&mut m, "; the file is kept at ");
    push_str(&mut m, staged);
    Error::Project(m)
}

/// The error when the publish command did not succeed, quoting its exit status and the
/// tail of its output.
pub open spec fn publisher_exit_text(output: Output, staged: Seq<char>) -> Seq<char> {
    "the artifact publish command exited "@ + match output.status {
        Some(code) => signed_decimal(code as int),
        None => "on a signal"@,
    } + ": "@ + publish_tail_spec(output.stdout@, output.stderr@) + "; the file is kept at "@
        + staged
}

pub fn publisher_exited(output: &Output, staged: &str) -> (e: Error)
    ensures
        e matches Error::Project(m) && m@ == publisher_exit_text(*output, staged@),
{
    let mut m = String::new();
    push_str(&mut m, "the artifact publish command exited ");
    match output.status {
        Some(code) => push_signed(&mut m, code as i64),
        None => push_str(&mut m, "on a signal"),
    }
    push_str(&mut m, ": ");
    let tail = publish_tail(output);
    push_string(&mut m, &tail);
    push_str(&mut m, "; the file is kept at ");
    push_str(&mut m, staged);
    Error::Project(m)
}

/// What a successful publish of the copy at `staged` printed comes to: the artifact at
/// its one URL, or an error that keeps the copy.
pub fn publish_verdict(staged: String, stdout: &str) -> (r: Result<Staged, Error>)
    ensures
        match one_url_spec(stdout@) {
            Ok(url) => r matches Ok(s) && s.path@ == staged@ && s.url@ == url,
            Err(reason) => r matches Err(Error::Project(m)) && m@ == reason
                + "; the file is kept at "@ + staged@,
        },
{
    match exactly_one_url(stdout) {
        Ok(url) => Ok(Staged { path: staged, url }),
        Err(reason) => {
            let mut m = reason;
            push_str(&mut m, "; the file is kept at ");
            push_string(&mut m, &staged);
            Err(Error::Project(m))
        },
    }
}

} // verus!
