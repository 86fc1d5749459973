//! The sessions that workers run in, driven through the `boxr` program: the arguments
//! each `boxr` command takes, and what depot reads from what it prints.
use vstd::prelude::*;

use crate::adapters::process::{ProcessError, Program};
use crate::adapters::toon::{find_scalar, find_table, parse_spec, toon_message, Document, Table, ToonError, ToonErrorView};
use crate::text::{chars_of, debug_quoted, debug_str, decimal, decimal_string, find_char, find_char_in, is_digit, join_spec, join_strings, lemma_trim_start_shape, lemma_words_none, lemma_words_step, parse_u64, parse_unsigned, push_char, push_decimal, push_str, push_string, skip_ws, split_char, str_eq, texts, trim, trim_start, trim_str, word_end, lemma_find_char_range, word_end_in, words, lemma_word_end_range, is_whitespace, is_ws, lemma_lines_nonempty, lemma_next_line_found, lemma_next_line_last, lemma_trim_ends, lines, string_of, trim_range};

verus! {

/// The oldest `boxr` that has detached sessions, resume and session listing.
pub const MINIMUM_BOXR_VERSION: &'static str = "0.2.0";

/// The harness, model, effort and account a session runs with.
#[derive(Debug, Clone, PartialEq, Eq)]
pub struct SessionProfile {
    pub account: String,
    pub harness: String,
    pub model: String,
    pub effort: String,
}

/// A session to launch: where, with which profile, of which kind, and its first prompt.
#[derive(Debug, Clone, PartialEq, Eq)]
pub struct LaunchRequest {
    pub directory: String,
    pub profile: SessionProfile,
    pub kind: Option<String>,
    pub prompt: String,
}

/// What the installed `boxr` offers: its version and the commands and flags depot uses.
#[derive(Debug, Clone, PartialEq, Eq)]
pub struct Capabilities {
    pub version: String,
    pub surface: Vec<String>,
}

#[derive(Debug, Clone, Copy, PartialEq, Eq)]
pub enum SessionState {
    Running,
    Finished,
    Stopped,
    Interrupted,
    Failed,
}

#[derive(Debug, Clone, Copy, PartialEq, Eq)]
pub enum TurnOutcome {
    Completed,
    Failed,
    Interrupted,
    StillRunning,
}

/// A session as `boxr ps` lists it.
#[derive(Debug, Clone, PartialEq, Eq)]
pub struct SessionSummary {
    pub session: String,
    pub state: SessionState,
    pub harness: String,
    pub model: String,
}

/// Why driving a session failed.
#[derive(Debug, Clone, PartialEq, Eq)]
pub enum SessionError {
    Command(ProcessError),
    BoxrTooOld { version: String, required: String },
    MissingCapabilities { version: String, missing: Vec<String> },
    MalformedOutput { command: String, detail: String },
    MissingSessionId { command: String },
    UnknownState { command: String, state: String },
}

/// The commands and flags depot requires of `boxr` (the commands `ps`, `status`, `wait`,
/// `stop` and `resume`, and the flag `--detach`), in the order it checks them.
pub open spec fn required_surface() -> Seq<Seq<char>> {
    seq!["ps"@, "status"@, "wait"@, "stop"@, "resume"@, "--detach"@]
}

/// The commands and flags depot requires of `boxr`.
pub fn required_surface_names() -> (r: Vec<String>)
    ensures
        texts(r@) == required_surface(),
{
    let r = vec![
        "ps".to_string(),
        "status".to_string(),
        "wait".to_string(),
        "stop".to_string(),
        "resume".to_string(),
        "--detach".to_string(),
    ];
    assert(texts(r@) == required_surface());
    r
}

impl SessionError {
    /// The message shown for this error.
    pub open spec fn message_spec(&self) -> Seq<char> {
        match self {
            SessionError::Command(error) => error.message_spec(),
            SessionError::BoxrTooOld { version, required } => "boxr "@ + version@
                + " is older than the "@ + required@
                + " depot requires, where detached sessions, resume and session listing exist"@,
            SessionError::MissingCapabilities { version, missing } => "boxr "@ + version@
                + " does not provide what depot requires: "@ + join_spec(texts(missing@), ", "@)
                + "; depot needs boxr "@ + MINIMUM_BOXR_VERSION@ + " or newer with "@ + join_spec(
                required_surface(),
                ", "@,
            ) + " and never degrades silently without them"@,
            SessionError::MalformedOutput { command, detail } => command@
                + " produced output depot cannot read: "@ + detail@,
            SessionError::MissingSessionId { command } => command@
                + " printed no session id, and depot never guesses one"@,
            SessionError::UnknownState { command, state } => command@ + " reported the state "@
                + debug_quoted(state@) + ", which is not one depot knows"@,
        }
    }

    pub fn message(&self) -> (r: String)
        ensures
            r@ == self.message_spec(),
    {
        let mut r = String::new();
        match self {
            SessionError::Command(error) => {
                r = error.message();
            },
            SessionError::BoxrTooOld { version, required } => {
                push_str(&mut r, "boxr ");
                push_string(&mut r, version);
                push_str(&mut r, " is older than the ");
                push_string(&mut r, required);
                push_str(
                    &mut r,
                    " depot requires, where detached sessions, resume and session listing exist",
                );
            },
            SessionError::MissingCapabilities { version, missing } => {
                push_str(&mut r, "boxr ");
                push_string(&mut r, version);
                push_str(&mut r, " does not provide what depot requires: ");
                let listed = join_strings(missing, ", ");
                push_string(&mut r, &listed);
                push_str(&mut r, "; depot needs boxr ");
                push_str(&mut r, MINIMUM_BOXR_VERSION);
                push_str(&mut r, " or newer with ");
                let surface = required_surface_names();
                let required = join_strings(&surface, ", ");
                push_string(&mut r, &required);
                push_str(&mut r, " and never degrades silently without them");
            },
            SessionError::MalformedOutput { command, detail } => {
                push_string(&mut r, command);
                push_str(&mut r, " produced output depot cannot read: ");
                push_string(&mut r, detail);
            },
            SessionError::MissingSessionId { command } => {
                push_string(&mut r, command);
                push_str(&mut r, " printed no session id, and depot never guesses one");
            },
            SessionError::UnknownState { command, state } => {
                push_string(&mut r, command);
                push_str(&mut r, " reported the state ");
                let quoted = debug_str(state.as_str());
                push_string(&mut r, &quoted);
                push_str(&mut r, ", which is not one depot knows");
            },
        }
        r
    }
}

/// The session state that `boxr` names `state`.
pub open spec fn session_state_named(state: Seq<char>) -> Option<SessionState> {
    if state == "running"@ {
        Some(SessionState::Running)
    } else if state == "finished"@ {
        Some(SessionState::Finished)
    } else if state == "stopped"@ {
        Some(SessionState::Stopped)
    } else if state == "interrupted"@ {
        Some(SessionState::Interrupted)
    } else if state == "failed"@ {
        Some(SessionState::Failed)
    } else {
        None
    }
}

/// Reads a session state that `command` reported; a name depot does not know is an error.
pub fn session_state(command: &str, state: &str) -> (r: Result<SessionState, SessionError>)
    ensures
        match session_state_named(state@) {
            Some(s) => r == Ok::<SessionState, SessionError>(s),
            None => r matches Err(SessionError::UnknownState { command: c, state: s }) && c@
                == command@ && s@ == state@,
        },
{
    if str_eq(state, "running") {
        Ok(SessionState::Running)
    } else if str_eq(state, "finished") {
        Ok(SessionState::Finished)
    } else if str_eq(state, "stopped") {
        Ok(SessionState::Stopped)
    } else if str_eq(state, "interrupted") {
        Ok(SessionState::Interrupted)
    } else if str_eq(state, "failed") {
        Ok(SessionState::Failed)
    } else {
        Err(SessionError::UnknownState { command: command.to_string(), state: state.to_string() })
    }
}

/// The outcome of a turn that `boxr wait` names `status`.
pub open spec fn turn_outcome_named(status: Seq<char>) -> Option<TurnOutcome> {
    if status == "ok"@ {
        Some(TurnOutcome::Completed)
    } else if status == "failed"@ {
        Some(TurnOutcome::Failed)
    } else if status == "interrupted"@ {
        Some(TurnOutcome::Interrupted)
    } else if status == "running"@ {
        Some(TurnOutcome::StillRunning)
    } else {
        None
    }
}

/// A `boxr` version, `major.minor.patch`.
#[derive(Debug, Clone, Copy, PartialEq, Eq, PartialOrd, Ord)]
pub struct Version {
    pub major: u64,
    pub minor: u64,
    pub patch: u64,
}

/// The characters a version is written with.
pub open spec fn is_version_char(c: char) -> bool {
    is_digit(c) || c == '.'
}

/// `s` without the leading characters a version is not written with.
pub open spec fn skip_non_version(s: Seq<char>) -> Seq<char>
    decreases s.len(),
{
    if s.len() > 0 && !is_version_char(s[0]) {
        skip_non_version(s.drop_first())
    } else {
        s
    }
}

/// `s` without the trailing characters a version is not written with.
pub open spec fn drop_non_version(s: Seq<char>) -> Seq<char>
    decreases s.len(),
{
    if s.len() > 0 && !is_version_char(s.last()) {
        drop_non_version(s.drop_last())
    } else {
        s
    }
}

/// What `str::parse::<u64>` reads from `s`.
pub open spec fn parse_u64_spec(s: Seq<char>) -> Option<u64> {
    match parse_unsigned(s) {
        Some(n) => if n <= u64::MAX {
            Some(n as u64)
        } else {
            None
        },
        None => None,
    }
}

/// The version a whitespace-separated token names: with the characters other than
/// digits and dots cut from both ends, exactly three dotted numbers.
pub open spec fn version_of_token(token: Seq<char>) -> Option<Version> {
    let parts = split_char(drop_non_version(skip_non_version(token)), '.');
    if parts.len() == 3 && parse_u64_spec(parts[0]) is Some && parse_u64_spec(parts[1]) is Some
        && parse_u64_spec(parts[2]) is Some {
        Some(
            Version {
                major: parse_u64_spec(parts[0])->0,
                minor: parse_u64_spec(parts[1])->0,
                patch: parse_u64_spec(parts[2])->0,
            },
        )
    } else {
        None
    }
}

/// The version named by the first token that names one.
pub open spec fn first_version(tokens: Seq<Seq<char>>) -> Option<Version>
    decreases tokens.len(),
{
    if tokens.len() == 0 {
        None
    } else {
        match version_of_token(tokens[0]) {
            Some(v) => Some(v),
            None => first_version(tokens.drop_first()),
        }
    }
}

/// The version that `boxr --version` printed in `text`.
pub open spec fn parse_version_spec(text: Seq<char>) -> Option<Version> {
    first_version(words(text))
}

/// `a` comes before `b`: by major, then minor, then patch number.
pub open spec fn version_less(a: Version, b: Version) -> bool {
    a.major < b.major || (a.major == b.major && (a.minor < b.minor || (a.minor == b.minor
        && a.patch < b.patch)))
}

/// `major.minor.patch`.
pub open spec fn version_text(v: Version) -> Seq<char> {
    decimal(v.major as nat) + seq!['.'] + decimal(v.minor as nat) + seq!['.'] + decimal(
        v.patch as nat,
    )
}

/// The version `MINIMUM_BOXR_VERSION` names.
pub open spec fn minimum_version() -> Version {
    Version { major: 0, minor: 2, patch: 0 }
}

proof fn lemma_split_found(v: Seq<char>, lo: int, hi: int, k: int)
    requires
        0 <= lo <= k < hi <= v.len(),
        find_char(v.subrange(lo, hi), '.') == k - lo,
    ensures
        split_char(v.subrange(lo, hi), '.') == seq![v.subrange(lo, k)] + split_char(
            v.subrange(k + 1, hi),
            '.',
        ),
{
    let s = v.subrange(lo, hi);
    assert(s.take(k - lo) == v.subrange(lo, k));
    assert(s.skip(k - lo + 1) == v.subrange(k + 1, hi));
}

proof fn lemma_split_nonempty(s: Seq<char>)
    ensures
        split_char(s, '.').len() >= 1,
{
}

/// `major.minor.patch` is all digits and dots, and holds no whitespace.
proof fn lemma_version_text_chars(v: Version)
    ensures
        forall|k: int|
            0 <= k < version_text(v).len() ==> is_version_char(#[trigger] version_text(v)[k])
                && !is_ws(version_text(v)[k]),
{
    let d1 = decimal(v.major as nat);
    let d2 = decimal(v.minor as nat);
    let d3 = decimal(v.patch as nat);
    crate::text::lemma_decimal_reads_back(v.major as nat);
    crate::text::lemma_decimal_reads_back(v.minor as nat);
    crate::text::lemma_decimal_reads_back(v.patch as nat);
    let t = version_text(v);
    assert forall|k: int| 0 <= k < t.len() implies is_version_char(#[trigger] t[k]) && !is_ws(
        t[k],
    ) by {
        if k < d1.len() {
            assert(t[k] == d1[k]);
        } else if k == d1.len() {
        } else if k < d1.len() + 1 + d2.len() {
            assert(t[k] == d2[k - d1.len() - 1]);
        } else if k == d1.len() + 1 + d2.len() {
        } else {
            assert(t[k] == d3[k - d1.len() - 2 - d2.len()]);
        }
    }
}

/// What `Version::text` writes, `Version::parse` reads back.
pub proof fn lemma_version_text_parses(v: Version)
    ensures
        parse_version_spec(version_text(v)) == Some(v),
{
    let d1 = decimal(v.major as nat);
    let d2 = decimal(v.minor as nat);
    let d3 = decimal(v.patch as nat);
    crate::text::lemma_decimal_reads_back(v.major as nat);
    crate::text::lemma_decimal_reads_back(v.minor as nat);
    crate::text::lemma_decimal_reads_back(v.patch as nat);
    crate::text::lemma_decimal_len(v.major as nat);
    crate::text::lemma_decimal_len(v.patch as nat);
    lemma_version_text_chars(v);
    let t = version_text(v);
    crate::text::lemma_single_word(t);
    assert(seq![t].drop_first() == Seq::<Seq<char>>::empty());
    assert(t[0] == d1[0]);
    assert(t.last() == d3.last());
    assert(skip_non_version(t) == t);
    assert(drop_non_version(t) == t);
    assert forall|k: int| 0 <= k < d1.len() implies #[trigger] d1[k] != '.' by {
        assert(is_digit(d1[k]));
    }
    assert forall|k: int| 0 <= k < d2.len() implies #[trigger] d2[k] != '.' by {
        assert(is_digit(d2[k]));
    }
    assert forall|k: int| 0 <= k < d3.len() implies #[trigger] d3[k] != '.' by {
        assert(is_digit(d3[k]));
    }
    let rest = d2 + seq!['.'] + d3;
    assert(t == d1 + seq!['.'] + rest);
    crate::text::lemma_split_after(d1, rest, '.');
    crate::text::lemma_split_after(d2, d3, '.');
    crate::text::lemma_split_none(d3, '.');
    let parts = split_char(t, '.');
    assert(parts == seq![d1, d2, d3]);
}

impl Version {
    pub fn text(&self) -> (r: String)
        ensures
            r@ == version_text(*self),
    {
        let mut r = String::new();
        push_decimal(&mut r, self.major);
        push_char(&mut r, '.');
        push_decimal(&mut r, self.minor);
        push_char(&mut r, '.');
        push_decimal(&mut r, self.patch);
        r
    }

    /// Whether this version comes before `other`.
    pub fn older_than(&self, other: &Version) -> (r: bool)
        ensures
            r == version_less(*self, *other),
    {
        self.major < other.major || (self.major == other.major && (self.minor < other.minor || (
        self.minor == other.minor && self.patch < other.patch)))
    }

    /// The version a token `v[lo..hi]` names.
    fn of_token(v: &Vec<char>, lo: usize, hi: usize) -> (r: Option<Version>)
        requires
            lo <= hi <= v.len(),
        ensures
            r == version_of_token(v@.subrange(lo as int, hi as int)),
    {
        let mut a = lo;
        while a < hi && !(('0' <= v[a] && v[a] <= '9') || v[a] == '.')
            invariant
                lo <= a <= hi <= v.len(),
                skip_non_version(v@.subrange(lo as int, hi as int)) == skip_non_version(
                    v@.subrange(a as int, hi as int),
                ),
            decreases hi - a,
        {
            assert(v@.subrange(a as int, hi as int).drop_first() == v@.subrange(a + 1, hi as int));
            a += 1;
        }
        let mut b = hi;
        while b > a && !(('0' <= v[b - 1] && v[b - 1] <= '9') || v[b - 1] == '.')
            invariant
                lo <= a <= b <= hi <= v.len(),
                drop_non_version(v@.subrange(a as int, hi as int)) == drop_non_version(
                    v@.subrange(a as int, b as int),
                ),
            decreases b - a,
        {
            assert(v@.subrange(a as int, b as int).drop_last() == v@.subrange(a as int, b - 1));
            b -= 1;
        }
        let ghost core = v@.subrange(a as int, b as int);
        assert(drop_non_version(skip_non_version(v@.subrange(lo as int, hi as int))) == core);
        let d1 = match find_char_in(v, a, b, '.') {
            None => {
                return None;
            },
            Some(d) => d,
        };
        proof {
            lemma_split_found(v@, a as int, b as int, d1 as int);
        }
        let d2 = match find_char_in(v, d1 + 1, b, '.') {
            None => {
                return None;
            },
            Some(d) => d,
        };
        proof {
            lemma_split_found(v@, d1 + 1, b as int, d2 as int);
        }
        match find_char_in(v, d2 + 1, b, '.') {
            Some(d3) => {
                proof {
                    lemma_split_found(v@, d2 + 1, b as int, d3 as int);
                    lemma_split_nonempty(v@.subrange(d3 + 1, b as int));
                }
                return None;
            },
            None => {},
        }
        let ghost parts = split_char(core, '.');
        assert(parts == seq![
            v@.subrange(a as int, d1 as int),
            v@.subrange(d1 + 1, d2 as int),
            v@.subrange(d2 + 1, b as int),
        ]);
        let major = parse_u64(v, a, d1);
        let minor = parse_u64(v, d1 + 1, d2);
        let patch = parse_u64(v, d2 + 1, b);
        match (major, minor, patch) {
            (Some(major), Some(minor), Some(patch)) => Some(Version { major, minor, patch }),
            _ => None,
        }
    }

    /// The version that `boxr --version` printed: the first whitespace-separated token
    /// that names one.
    pub fn parse(text: &str) -> (r: Option<Version>)
        ensures
            r == parse_version_spec(text@),
    {
        let v = chars_of(text);
        let n = v.len();
        let mut i: usize = 0;
        assert(v@.subrange(0, n as int) == v@);
        while i < n
            invariant
                i <= n == v@.len(),
                v@ == text@,
                parse_version_spec(text@) == first_version(words(v@.subrange(i as int, n as int))),
            decreases n - i,
        {
            let start = skip_ws(&v, i, n);
            if start == n {
                proof {
                    lemma_words_none(v@, i as int);
                }
                return None;
            }
            let end = word_end_in(&v, start, n);
            proof {
                lemma_trim_start_shape(v@.subrange(i as int, n as int));
                let rest = v@.subrange(start as int, n as int);
                assert(rest[0] == v@[start as int]);
                lemma_word_end_range(rest.drop_first());
                assert(word_end(rest) >= 1);
                lemma_words_step(v@, i as int, start as int, end as int);
                let ws = words(v@.subrange(i as int, n as int));
                assert(ws[0] == v@.subrange(start as int, end as int));
                assert(ws.drop_first() == words(v@.subrange(end as int, n as int)));
            }
            match Version::of_token(&v, start, end) {
                Some(found) => {
                    return Some(found);
                },
                None => {},
            }
            i = end;
        }
        proof {
            lemma_words_none(v@, n as int);
        }
        None
    }
}

/// The characters `boxr --help` separates the names it lists with.
pub open spec fn is_help_separator(c: char) -> bool {
    c == ',' || c == ' ' || c == '\t'
}

/// Index of the first separator in `s`, or -1.
pub open spec fn find_separator(s: Seq<char>) -> int
    decreases s.len(),
{
    if s.len() == 0 {
        -1
    } else if is_help_separator(s[0]) {
        0
    } else {
        let k = find_separator(s.drop_first());
        if k < 0 {
            -1
        } else {
            k + 1
        }
    }
}

pub proof fn lemma_find_separator_range(s: Seq<char>)
    ensures
        -1 <= find_separator(s) < s.len(),
    decreases s.len(),
{
    if s.len() > 0 {
        lemma_find_separator_range(s.drop_first());
    }
}

/// The pieces of a help line between separators (`str::split` on `[',', ' ', '\t']`).
pub open spec fn help_pieces(s: Seq<char>) -> Seq<Seq<char>>
    decreases s.len(),
{
    let k = find_separator(s);
    proof {
        lemma_find_separator_range(s);
    }
    if k < 0 {
        seq![s]
    } else {
        seq![s.take(k)] + help_pieces(s.skip(k + 1))
    }
}

/// Some piece, trimmed, is `needle`.
pub open spec fn some_piece_is(pieces: Seq<Seq<char>>, needle: Seq<char>) -> bool
    decreases pieces.len(),
{
    pieces.len() > 0 && (trim(pieces[0]) == needle || some_piece_is(pieces.drop_first(), needle))
}

/// Some line lists `needle` among its pieces.
pub open spec fn some_line_mentions(ls: Seq<Seq<char>>, needle: Seq<char>) -> bool
    decreases ls.len(),
{
    ls.len() > 0 && (some_piece_is(help_pieces(ls[0]), needle) || some_line_mentions(
        ls.drop_first(),
        needle,
    ))
}

/// Whether the help text lists `needle` as one of its names.
pub open spec fn mentions_spec(help: Seq<char>, needle: Seq<char>) -> bool {
    some_line_mentions(lines(help), needle)
}

fn find_separator_in(v: &Vec<char>, lo: usize, hi: usize) -> (r: Option<usize>)
    requires
        lo <= hi <= v.len(),
    ensures
        match r {
            Some(k) => lo <= k < hi && find_separator(v@.subrange(lo as int, hi as int)) == k - lo,
            None => find_separator(v@.subrange(lo as int, hi as int)) < 0,
        },
{
    let mut i = lo;
    while i < hi
        invariant
            lo <= i <= hi <= v.len(),
            find_separator(v@.subrange(lo as int, hi as int)) == if find_separator(
                v@.subrange(i as int, hi as int),
            ) < 0 {
                -1
            } else {
                find_separator(v@.subrange(i as int, hi as int)) + (i - lo)
            },
        decreases hi - i,
    {
        let c = v[i];
        if c == ',' || c == ' ' || c == '\t' {
            return Some(i);
        }
        assert(v@.subrange(i as int, hi as int).drop_first() == v@.subrange(i + 1, hi as int));
        i += 1;
    }
    None
}

/// Whether `v[lo..hi]` is the text `w`.
fn range_is(v: &Vec<char>, lo: usize, hi: usize, w: &Vec<char>) -> (r: bool)
    requires
        lo <= hi <= v.len(),
    ensures
        r == (v@.subrange(lo as int, hi as int) == w@),
{
    if hi - lo != w.len() {
        return false;
    }
    let mut i: usize = 0;
    while i < w.len()
        invariant
            hi - lo == w@.len(),
            lo <= hi <= v.len(),
            i <= w@.len(),
            forall|k: int| 0 <= k < i ==> v@[lo + k] == w@[k],
        decreases w@.len() - i,
    {
        if v[lo + i] != w[i] {
            assert(v@.subrange(lo as int, hi as int)[i as int] != w@[i as int]);
            return false;
        }
        i += 1;
    }
    assert(v@.subrange(lo as int, hi as int) =~= w@);
    true
}

/// Whether the help line `v[lo..hi]` lists `w`.
fn line_lists(v: &Vec<char>, lo: usize, hi: usize, w: &Vec<char>) -> (r: bool)
    requires
        lo <= hi <= v.len(),
    ensures
        r == some_piece_is(help_pieces(v@.subrange(lo as int, hi as int)), w@),
{
    let mut p = lo;
    loop
        invariant
            lo <= p <= hi <= v.len(),
            some_piece_is(help_pieces(v@.subrange(lo as int, hi as int)), w@) == some_piece_is(
                help_pieces(v@.subrange(p as int, hi as int)),
                w@,
            ),
        decreases hi - p,
    {
        let ghost rest = v@.subrange(p as int, hi as int);
        match find_separator_in(v, p, hi) {
            Some(k) => {
                proof {
                    assert(rest.take(k - p) == v@.subrange(p as int, k as int));
                    assert(rest.skip(k - p + 1) == v@.subrange(k + 1, hi as int));
                    let ps = help_pieces(rest);
                    assert(ps[0] == v@.subrange(p as int, k as int));
                    assert(ps.drop_first() == help_pieces(v@.subrange(k + 1, hi as int)));
                }
                let (a, b) = trim_range(v, p, k);
                if range_is(v, a, b, w) {
                    return true;
                }
                p = k + 1;
            },
            None => {
                proof {
                    let ps = help_pieces(rest);
                    assert(ps == seq![rest]);
                    assert(ps[0] == rest);
                    assert(ps.drop_first().len() == 0);
                    assert(!some_piece_is(ps.drop_first(), w@));
                }
                let (a, b) = trim_range(v, p, hi);
                return range_is(v, a, b, w);
            },
        }
    }
}

/// Whether `boxr --help` lists `needle` as one of its names: on some line, among the
/// pieces between commas, spaces and tabs, once trimmed.
pub fn mentions(help: &str, needle: &str) -> (r: bool)
    ensures
        r == mentions_spec(help@, needle@),
{
    let v = chars_of(help);
    let w = chars_of(needle);
    let n = v.len();
    let mut pos: usize = 0;
    assert(v@.subrange(0, n as int) == v@);
    while pos < n
        invariant
            pos <= n == v@.len(),
            v@ == help@,
            w@ == needle@,
            mentions_spec(help@, needle@) == some_line_mentions(
                lines(v@.subrange(pos as int, n as int)),
                needle@,
            ),
        decreases n - pos,
    {
        match find_char_in(&v, pos, n, '\n') {
            Some(k) => {
                let e = if k > pos && v[k - 1] == '\r' {
                    k - 1
                } else {
                    k
                };
                proof {
                    lemma_next_line_found(v@, pos as int, k as int, e as int);
                    let ls = lines(v@.subrange(pos as int, n as int));
                    assert(ls[0] == v@.subrange(pos as int, e as int));
                    assert(ls.drop_first() == lines(v@.subrange(k + 1, n as int)));
                }
                if line_lists(&v, pos, e, &w) {
                    return true;
                }
                pos = k + 1;
            },
            None => {
                proof {
                    lemma_next_line_last(v@, pos as int);
                    let ls = lines(v@.subrange(pos as int, n as int));
                    assert(v@.subrange(n as int, n as int) == Seq::<char>::empty());
                    assert(lines(Seq::<char>::empty()).len() == 0);
                    assert(ls[0] == v@.subrange(pos as int, n as int));
                    assert(ls.drop_first().len() == 0);
                    assert(!some_line_mentions(ls.drop_first(), needle@));
                }
                return line_lists(&v, pos, n, &w);
            },
        }
    }
    false
}

/// The session id `boxr` printed as its only output: one line, one word, no colon.
pub open spec fn bare_session_id_spec(stdout: Seq<char>) -> Option<Seq<char>> {
    let ls = lines(trim(stdout));
    if ls.len() != 1 {
        None
    } else {
        let line = trim(ls[0]);
        if line.len() == 0 || find_char(line, ':') >= 0 || words(line).len() != 1 {
            None
        } else {
            Some(line)
        }
    }
}

/// A text without whitespace that is not empty is one word.
proof fn lemma_one_word(s: Seq<char>)
    requires
        s.len() > 0,
        forall|k: int| 0 <= k < s.len() ==> !is_ws(#[trigger] s[k]),
    ensures
        words(s).len() == 1,
{
    lemma_trim_start_shape(s);
    if trim_start(s).len() < s.len() {
        assert(is_ws(s[0]));
    }
    assert(trim_start(s) == s);
    lemma_word_end_range(s);
    if word_end(s) < s.len() {
        assert(is_ws(s[word_end(s)]));
    }
    assert(word_end(s) == s.len());
    assert(s.skip(word_end(s)) == Seq::<char>::empty());
    assert(words(Seq::<char>::empty()) == Seq::<Seq<char>>::empty());
    assert(words(s) == seq![s.take(word_end(s))] + words(s.skip(word_end(s))));
}

/// A text that ends in a character that is not whitespace, and holds whitespace after
/// its first word, has more than one word.
proof fn lemma_several_words(s: Seq<char>, m: int)
    requires
        0 <= m < s.len(),
        is_ws(s[m]),
        !is_ws(s[0]),
        !is_ws(s.last()),
    ensures
        words(s).len() >= 2,
{
    lemma_trim_start_shape(s);
    if trim_start(s).len() < s.len() {
        assert(is_ws(s[0]));
    }
    assert(trim_start(s) == s);
    lemma_word_end_range(s);
    let e = word_end(s);
    if m < e {
        assert(!is_ws(s[m]));
    }
    assert(e <= m);
    let rest = s.skip(e);
    assert(words(s) == seq![s.take(e)] + words(rest));
    lemma_trim_start_shape(rest);
    if trim_start(rest).len() == 0 {
        assert(is_ws(rest[rest.len() - 1]));
        assert(rest[rest.len() - 1] == s.last());
    }
    let t = trim_start(rest);
    assert(t.len() > 0);
    assert(words(rest) == seq![t.take(word_end(t))] + words(t.skip(word_end(t))));
}

/// The session id when `boxr` printed nothing but one.
pub fn bare_session_id(stdout: &str) -> (r: Option<String>)
    ensures
        match bare_session_id_spec(stdout@) {
            Some(id) => r is Some && r->0@ == id,
            None => r is None,
        },
{
    let v = chars_of(stdout);
    let n = v.len();
    assert(v@.subrange(0, n as int) == v@);
    let (lo, hi) = trim_range(&v, 0, n);
    let ghost t = v@.subrange(lo as int, hi as int);
    if lo == hi {
        assert(lines(t).len() == 0);
        return None;
    }
    proof {
        lemma_trim_ends(v@);
    }
    match find_char_in(&v, lo, hi, '\n') {
        Some(k) => {
            proof {
                lemma_find_char_range(t, '\n');
                assert(t[k - lo] == '\n');
                assert(is_ws(t[k - lo]));
                assert(k + 1 < hi);
                lemma_lines_nonempty(t.skip(k - lo + 1));
            }
            return None;
        },
        None => {},
    }
    assert(lines(t) == seq![t]);
    let (a, b) = trim_range(&v, lo, hi);
    let ghost line = v@.subrange(a as int, b as int);
    if a == b {
        return None;
    }
    if find_char_in(&v, a, b, ':').is_some() {
        return None;
    }
    proof {
        lemma_trim_ends(t);
        assert(line == trim(t));
        assert(line[0] == trim(t)[0]);
        assert(line.last() == trim(t).last());
        assert(trim(stdout@) == t);
        assert(lines(trim(stdout@))[0] == t);
        assert(bare_session_id_spec(stdout@) == (if words(line).len() != 1 {
            None
        } else {
            Some(line)
        }));
    }
    let mut i = a;
    while i < b
        invariant
            a <= i <= b <= v@.len(),
            line == v@.subrange(a as int, b as int),
            line.len() > 0,
            !is_ws(line[0]),
            !is_ws(line.last()),
            bare_session_id_spec(stdout@) == (if words(line).len() != 1 {
                None
            } else {
                Some(line)
            }),
            forall|k: int| 0 <= k < i - a ==> !is_ws(#[trigger] line[k]),
        decreases b - i,
    {
        if is_whitespace(v[i]) {
            proof {
                assert(line[i - a] == v@[i as int]);
                lemma_several_words(line, i - a);
            }
            return None;
        }
        assert(line[i - a] == v@[i as int]);
        i += 1;
    }
    proof {
        lemma_one_word(line);
    }
    Some(string_of(&v, a, b))
}

/// `e` is a `MalformedOutput` error about `command` with `detail`.
pub open spec fn malformed_output(e: SessionError, command: Seq<char>, detail: Seq<char>) -> bool {
    e matches SessionError::MalformedOutput { command: c, detail: d } && c@ == command && d@
        == detail
}

fn malformed_output_error(command: &str, detail: String) -> (e: SessionError)
    ensures
        malformed_output(e, command@, detail@),
{
    SessionError::MalformedOutput { command: command.to_string(), detail }
}

/// The names of `names` that the help text does not list, in order.
pub open spec fn unlisted(names: Seq<Seq<char>>, help: Seq<char>) -> Seq<Seq<char>>
    decreases names.len(),
{
    if names.len() == 0 {
        Seq::empty()
    } else {
        let rest = unlisted(names.drop_last(), help);
        if mentions_spec(help, names.last()) {
            rest
        } else {
            rest.push(names.last())
        }
    }
}

/// What the installed `boxr` offers, read from what `boxr --version` and `boxr --help`
/// printed: its version must be readable, its help must list every command and flag
/// depot requires, and it must be no older than the minimum.
pub open spec fn capabilities_result(
    r: Result<Capabilities, SessionError>,
    program: Program,
    version_stdout: Seq<char>,
    help: Seq<char>,
) -> bool {
    match parse_version_spec(version_stdout) {
        None => r is Err && malformed_output(
            r->Err_0,
            program.command_line_spec(seq!["--version"@]),
            "no version in "@ + debug_quoted(trim(version_stdout)),
        ),
        Some(v) => {
            let missing = unlisted(required_surface(), help);
            if missing.len() > 0 {
                r matches Err(SessionError::MissingCapabilities { version, missing: m })
                    && version@ == version_text(v) && texts(m@) == missing
            } else if version_less(v, minimum_version()) {
                r matches Err(SessionError::BoxrTooOld { version, required }) && version@
                    == version_text(v) && required@ == MINIMUM_BOXR_VERSION@
            } else {
                r matches Ok(c) && c.version@ == version_text(v) && texts(c.surface@)
                    == required_surface()
            }
        },
    }
}

/// Checks what the installed `boxr` offers.
pub fn capabilities_from(program: &Program, version_stdout: &str, help: &str) -> (r: Result<
    Capabilities,
    SessionError,
>)
    ensures
        capabilities_result(r, *program, version_stdout@, help@),
{
    let version = match Version::parse(version_stdout) {
        Some(version) => version,
        None => {
            let args = vec!["--version".to_string()];
            let command = program.command_line(&args);
            proof {
                assert(texts(args@) == seq!["--version"@]);
            }
            let mut detail = String::new();
            push_str(&mut detail, "no version in ");
            let quoted = debug_str(trim_str(version_stdout));
            push_string(&mut detail, &quoted);
            return Err(malformed_output_error(command.as_str(), detail));
        },
    };
    let surface = required_surface_names();
    let mut missing: Vec<String> = Vec::new();
    let mut i: usize = 0;
    while i < surface.len()
        invariant
            i <= surface@.len(),
            texts(surface@) == required_surface(),
            texts(missing@) == unlisted(texts(surface@).take(i as int), help@),
        decreases surface@.len() - i,
    {
        let listed = mentions(help, surface[i].as_str());
        proof {
            assert(texts(surface@).take(i + 1).drop_last() == texts(surface@).take(i as int));
            assert(texts(surface@).take(i + 1).last() == surface@[i as int]@);
        }
        if !listed {
            missing.push(surface[i].clone());
            proof {
                assert(texts(missing@) == unlisted(texts(surface@).take(i as int), help@).push(
                    surface@[i as int]@,
                ));
            }
        }
        i += 1;
    }
    assert(texts(surface@).take(surface@.len() as int) == texts(surface@));
    if missing.len() > 0 {
        return Err(SessionError::MissingCapabilities { version: version.text(), missing });
    }
    let minimum = Version { major: 0, minor: 2, patch: 0 };
    if version.older_than(&minimum) {
        return Err(
            SessionError::BoxrTooOld {
                version: version.text(),
                required: MINIMUM_BOXR_VERSION.to_string(),
            },
        );
    }
    Ok(Capabilities { version: version.text(), surface })
}

/// The arguments that launch a detached session for `request`.
pub open spec fn launch_args_spec(request: LaunchRequest) -> Seq<Seq<char>> {
    let profile = request.profile;
    let head = seq![
        "--harness"@,
        profile.harness@,
        "--model"@,
        profile.model@,
        "--effort"@,
        profile.effort@,
        "--account"@,
        profile.account@,
    ];
    let kind = match request.kind {
        Some(kind) => seq!["--kind"@, kind@],
        None => Seq::empty(),
    };
    head + kind + seq!["--detach"@, request.prompt@]
}

pub fn launch_args(request: &LaunchRequest) -> (r: Vec<String>)
    ensures
        texts(r@) == launch_args_spec(*request),
{
    let mut args = vec![
        "--harness".to_string(),
        request.profile.harness.clone(),
        "--model".to_string(),
        request.profile.model.clone(),
        "--effort".to_string(),
        request.profile.effort.clone(),
        "--account".to_string(),
        request.profile.account.clone(),
    ];
    match &request.kind {
        Some(kind) => {
            args.push("--kind".to_string());
            args.push(kind.clone());
        },
        None => {},
    }
    args.push("--detach".to_string());
    args.push(request.prompt.clone());
    assert(texts(args@) =~= launch_args_spec(*request));
    args
}

/// The session id a launch printed: the bare id when that is all it printed, else the
/// `session` (or else `id`) field of the document it printed, trimmed.
pub open spec fn launched_result(r: Result<String, SessionError>, command: Seq<char>, stdout: Seq<
    char,
>) -> bool {
    let printed = match bare_session_id_spec(stdout) {
        Some(id) => Ok::<Option<Seq<char>>, ToonErrorView>(Some(id)),
        None => match parse_spec(stdout) {
            Err(e) => Err(e),
            Ok(doc) => Ok(
                match find_scalar(doc, "session"@) {
                    Some(value) => Some(value),
                    None => find_scalar(doc, "id"@),
                },
            ),
        },
    };
    match printed {
        Err(e) => r is Err && malformed_output(r->Err_0, command, toon_message(e)),
        Ok(None) => r matches Err(SessionError::MissingSessionId { command: c }) && c@ == command,
        Ok(Some(id)) => if trim(id).len() == 0 {
            r matches Err(SessionError::MissingSessionId { command: c }) && c@ == command
        } else {
            r is Ok && r->Ok_0@ == trim(id)
        },
    }
}

/// Reads the id of the session that `command` launched.
pub fn launched_session(command: &str, stdout: &str) -> (r: Result<String, SessionError>)
    ensures
        launched_result(r, command@, stdout@),
{
    let id = match bare_session_id(stdout) {
        Some(id) => id,
        None => {
            let document = match Document::parse(stdout) {
                Ok(document) => document,
                Err(error) => {
                    return Err(malformed_output_error(command, error.message()));
                },
            };
            let found = match document.scalar("session") {
                Some(value) => Some(value),
                None => document.scalar("id"),
            };
            match found {
                Some(value) => value.to_string(),
                None => {
                    return Err(SessionError::MissingSessionId { command: command.to_string() });
                },
            }
        },
    };
    let trimmed_id = trim_str(id.as_str());
    if trimmed_id.is_empty() {
        return Err(SessionError::MissingSessionId { command: command.to_string() });
    }
    Ok(trimmed_id.to_string())
}

/// The document a `boxr` command printed, or the error that it cannot be read.
fn printed_document(command: &str, stdout: &str) -> (r: Result<Document, SessionError>)
    ensures
        match parse_spec(stdout@) {
            Ok(doc) => r is Ok && r->Ok_0@ == doc,
            Err(e) => r is Err && malformed_output(r->Err_0, command@, toon_message(e)),
        },
{
    match Document::parse(stdout) {
        Ok(document) => Ok(document),
        Err(error) => Err(malformed_output_error(command, error.message())),
    }
}

/// `no <field> field in <quoted output>`.
fn missing_field(field: &str, stdout: &str) -> (r: String)
    ensures
        r@ == "no "@ + field@ + " field in "@ + debug_quoted(trim(stdout@)),
{
    let mut detail = String::new();
    push_str(&mut detail, "no ");
    push_str(&mut detail, field);
    push_str(&mut detail, " field in ");
    let quoted = debug_str(trim_str(stdout));
    push_string(&mut detail, &quoted);
    detail
}

/// The state `boxr status` printed: the `state` field of its document.
pub open spec fn status_result(r: Result<SessionState, SessionError>, command: Seq<char>, stdout: Seq<
    char,
>) -> bool {
    match parse_spec(stdout) {
        Err(e) => r is Err && malformed_output(r->Err_0, command, toon_message(e)),
        Ok(doc) => match find_scalar(doc, "state"@) {
            None => r is Err && malformed_output(
                r->Err_0,
                command,
                "no "@ + "state"@ + " field in "@ + debug_quoted(trim(stdout)),
            ),
            Some(state) => match session_state_named(state) {
                Some(s) => r == Ok::<SessionState, SessionError>(s),
                None => r matches Err(SessionError::UnknownState { command: c, state: st }) && c@
                    == command && st@ == state,
            },
        },
    }
}

pub fn read_status(command: &str, stdout: &str) -> (r: Result<SessionState, SessionError>)
    ensures
        status_result(r, command@, stdout@),
{
    let document = printed_document(command, stdout)?;
    match document.scalar("state") {
        None => Err(malformed_output_error(command, missing_field("state", stdout))),
        Some(state) => session_state(command, state),
    }
}

/// How the turn ended, as `boxr wait` printed it in the `status` field of its document.
pub open spec fn wait_result(r: Result<TurnOutcome, SessionError>, command: Seq<char>, stdout: Seq<
    char,
>) -> bool {
    match parse_spec(stdout) {
        Err(e) => r is Err && malformed_output(r->Err_0, command, toon_message(e)),
        Ok(doc) => match find_scalar(doc, "status"@) {
            None => r is Err && malformed_output(
                r->Err_0,
                command,
                "no "@ + "status"@ + " field in "@ + debug_quoted(trim(stdout)),
            ),
            Some(status) => match turn_outcome_named(status) {
                Some(outcome) => r == Ok::<TurnOutcome, SessionError>(outcome),
                None => r matches Err(SessionError::UnknownState { command: c, state: st }) && c@
                    == command && st@ == status,
            },
        },
    }
}

pub fn read_wait(command: &str, stdout: &str) -> (r: Result<TurnOutcome, SessionError>)
    ensures
        wait_result(r, command@, stdout@),
{
    let document = printed_document(command, stdout)?;
    match document.scalar("status") {
        None => Err(malformed_output_error(command, missing_field("status", stdout))),
        Some(status) => {
            if str_eq(status, "ok") {
                Ok(TurnOutcome::Completed)
            } else if str_eq(status, "failed") {
                Ok(TurnOutcome::Failed)
            } else if str_eq(status, "interrupted") {
                Ok(TurnOutcome::Interrupted)
            } else if str_eq(status, "running") {
                Ok(TurnOutcome::StillRunning)
            } else {
                Err(
                    SessionError::UnknownState {
                        command: command.to_string(),
                        state: status.to_string(),
                    },
                )
            }
        },
    }
}

/// The arguments of `boxr wait` on `session`, with the timeout in seconds when there is
/// one.
pub open spec fn wait_args_spec(session: Seq<char>, timeout_secs: Option<u64>) -> Seq<Seq<char>> {
    match timeout_secs {
        Some(secs) => seq!["wait"@, session, "--timeout"@, decimal(secs as nat)],
        None => seq!["wait"@, session],
    }
}

pub fn wait_args(session: &str, timeout_secs: Option<u64>) -> (r: Vec<String>)
    ensures
        texts(r@) == wait_args_spec(session@, timeout_secs),
{
    let mut args = vec!["wait".to_string(), session.to_string()];
    match timeout_secs {
        Some(secs) => {
            args.push("--timeout".to_string());
            args.push(decimal_string(secs));
        },
        None => {},
    }
    assert(texts(args@) =~= wait_args_spec(session@, timeout_secs));
    args
}

/// The position of the first column named `name`.
pub open spec fn column_of(columns: Seq<Seq<char>>, name: Seq<char>) -> Option<nat>
    decreases columns.len(),
{
    if columns.len() == 0 {
        None
    } else if columns[0] == name {
        Some(0)
    } else {
        match column_of(columns.drop_first(), name) {
            Some(i) => Some(i + 1),
            None => None,
        }
    }
}

proof fn lemma_column_found(columns: Seq<Seq<char>>, name: Seq<char>, i: int)
    requires
        0 <= i < columns.len(),
        columns[i] == name,
        forall|j: int| 0 <= j < i ==> columns[j] != name,
    ensures
        column_of(columns, name) == Some(i as nat),
    decreases i,
{
    if i > 0 {
        assert forall|j: int| 0 <= j < i - 1 implies columns.drop_first()[j] != name by {
            assert(columns.drop_first()[j] == columns[j + 1]);
        }
        lemma_column_found(columns.drop_first(), name, i - 1);
    }
}

proof fn lemma_column_absent(columns: Seq<Seq<char>>, name: Seq<char>)
    requires
        forall|j: int| 0 <= j < columns.len() ==> columns[j] != name,
    ensures
        column_of(columns, name) is None,
    decreases columns.len(),
{
    if columns.len() > 0 {
        assert forall|j: int| 0 <= j < columns.len() - 1 implies columns.drop_first()[j] != name by {
            assert(columns.drop_first()[j] == columns[j + 1]);
        }
        lemma_column_absent(columns.drop_first(), name);
    }
}

/// The cell of `row` in column `i`, empty when the row is shorter.
pub open spec fn cell(row: Seq<Seq<char>>, i: nat) -> Seq<char> {
    if i < row.len() {
        row[i as int]
    } else {
        Seq::empty()
    }
}

/// The cell of `row` in the column `column`, when the table has that column.
pub open spec fn optional_cell(row: Seq<Seq<char>>, column: Option<nat>) -> Seq<char> {
    match column {
        Some(i) => cell(row, i),
        None => Seq::empty(),
    }
}

/// What reading the rows of a sessions table comes to.
pub enum RowsRead {
    Sessions(Seq<(Seq<char>, SessionState, Seq<char>, Seq<char>)>),
    EmptyId,
    UnknownState(Seq<char>),
}

/// Reads the rows in order; the first row without an id, or with a state depot does not
/// know, ends the reading.
pub open spec fn read_rows(
    rows: Seq<Seq<Seq<char>>>,
    id: nat,
    state: nat,
    harness: Option<nat>,
    model: Option<nat>,
) -> RowsRead
    decreases rows.len(),
{
    if rows.len() == 0 {
        RowsRead::Sessions(Seq::empty())
    } else {
        match read_rows(rows.drop_last(), id, state, harness, model) {
            RowsRead::Sessions(done) => {
                let row = rows.last();
                if cell(row, id).len() == 0 {
                    RowsRead::EmptyId
                } else {
                    match session_state_named(cell(row, state)) {
                        None => RowsRead::UnknownState(cell(row, state)),
                        Some(s) => RowsRead::Sessions(
                            done.push(
                                (cell(row, id), s, optional_cell(row, harness), optional_cell(row, model)),
                            ),
                        ),
                    }
                }
            },
            other => other,
        }
    }
}

pub open spec fn summaries_view(list: Seq<SessionSummary>) -> Seq<
    (Seq<char>, SessionState, Seq<char>, Seq<char>),
> {
    Seq::new(list.len(), |i: int| (list[i].session@, list[i].state, list[i].harness@, list[i].model@))
}

/// The sessions `boxr ps` listed in the `sessions` table of its document; the `id` and
/// `state` columns are required, `harness` and `model` are read when present.
pub open spec fn sessions_result(r: Result<Vec<SessionSummary>, SessionError>, command: Seq<char>, stdout: Seq<
    char,
>) -> bool {
    match parse_spec(stdout) {
        Err(e) => r is Err && malformed_output(r->Err_0, command, toon_message(e)),
        Ok(doc) => match find_table(doc, "sessions"@) {
            None => r is Err && malformed_output(
                r->Err_0,
                command,
                "no sessions table in "@ + debug_quoted(trim(stdout)),
            ),
            Some((columns, rows)) => match column_of(columns, "id"@) {
                None => r is Err && malformed_output(
                    r->Err_0,
                    command,
                    toon_message(ToonErrorView::MissingColumn { key: "id"@, columns }),
                ),
                Some(id) => match column_of(columns, "state"@) {
                    None => r is Err && malformed_output(
                        r->Err_0,
                        command,
                        toon_message(ToonErrorView::MissingColumn { key: "state"@, columns }),
                    ),
                    Some(state) => match read_rows(
                        rows,
                        id,
                        state,
                        column_of(columns, "harness"@),
                        column_of(columns, "model"@),
                    ) {
                        RowsRead::Sessions(list) => r is Ok && summaries_view(r->Ok_0@) == list,
                        RowsRead::EmptyId => r is Err && malformed_output(
                            r->Err_0,
                            command,
                            "a sessions row has an empty id"@,
                        ),
                        RowsRead::UnknownState(st) => r matches Err(
                            SessionError::UnknownState { command: c, state: s },
                        ) && c@ == command && s@ == st,
                    },
                },
            },
        },
    }
}

/// The column `name` of `table`, as `column_of` finds it.
fn find_column(table: &Table, name: &str) -> (r: Result<usize, ToonError>)
    ensures
        match r {
            Ok(i) => i < table.columns@.len() && column_of(table.columns.deep_view(), name@) == Some(
                i as nat,
            ),
            Err(e) => column_of(table.columns.deep_view(), name@) is None && e@
                == (ToonErrorView::MissingColumn { key: name@, columns: table.columns.deep_view() }),
        },
{
    let r = table.column(name);
    proof {
        let cols = table.columns.deep_view();
        assert forall|j: int| 0 <= j < cols.len() implies cols[j] == table.columns@[j]@ by {}
        match r {
            Ok(i) => {
                assert forall|j: int| 0 <= j < i implies cols[j] != name@ by {
                    assert(cols[j] == table.columns@[j]@);
                }
                lemma_column_found(cols, name@, i as int);
            },
            Err(_) => {
                assert forall|j: int| 0 <= j < cols.len() implies cols[j] != name@ by {
                    assert(cols[j] == table.columns@[j]@);
                }
                lemma_column_absent(cols, name@);
            },
        }
    }
    r
}

/// The text of the cell of `row` in column `i`, empty when the row is shorter.
fn cell_text(row: &Vec<String>, i: usize) -> (r: String)
    ensures
        r@ == cell(row.deep_view(), i as nat),
{
    if i < row.len() {
        row[i].clone()
    } else {
        String::new()
    }
}

/// Once a row ends the reading, further rows change nothing.
proof fn lemma_read_rows_settled(
    rows: Seq<Seq<Seq<char>>>,
    k: int,
    id: nat,
    state: nat,
    harness: Option<nat>,
    model: Option<nat>,
)
    requires
        0 <= k <= rows.len(),
        !(read_rows(rows.take(k), id, state, harness, model) is Sessions),
    ensures
        read_rows(rows, id, state, harness, model) == read_rows(rows.take(k), id, state, harness, model),
    decreases rows.len() - k,
{
    if k < rows.len() {
        assert(rows.take(k + 1).drop_last() == rows.take(k));
        lemma_read_rows_settled(rows, k + 1, id, state, harness, model);
    } else {
        assert(rows.take(k) == rows);
    }
}

/// Reads the sessions `boxr ps` listed.
#[verifier::loop_isolation(false)]
pub fn read_sessions(command: &str, stdout: &str) -> (r: Result<Vec<SessionSummary>, SessionError>)
    ensures
        sessions_result(r, command@, stdout@),
{
    let document = printed_document(command, stdout)?;
    let table = match document.table("sessions") {
        Some(table) => table,
        None => {
            let mut detail = String::new();
            push_str(&mut detail, "no sessions table in ");
            let quoted = debug_str(trim_str(stdout));
            push_string(&mut detail, &quoted);
            return Err(malformed_output_error(command, detail));
        },
    };
    let id = match find_column(&table, "id") {
        Ok(i) => i,
        Err(error) => {
            return Err(malformed_output_error(command, error.message()));
        },
    };
    let state = match find_column(&table, "state") {
        Ok(i) => i,
        Err(error) => {
            return Err(malformed_output_error(command, error.message()));
        },
    };
    let harness = match find_column(&table, "harness") {
        Ok(i) => Some(i),
        Err(_) => None,
    };
    let model = match find_column(&table, "model") {
        Ok(i) => Some(i),
        Err(_) => None,
    };
    let ghost harness_col: Option<nat> = match harness {
        Some(i) => Some(i as nat),
        None => None,
    };
    let ghost model_col: Option<nat> = match model {
        Some(i) => Some(i as nat),
        None => None,
    };
    let ghost rows = table.rows.deep_view();
    let mut sessions: Vec<SessionSummary> = Vec::new();
    let mut k: usize = 0;
    assert(rows.take(0).len() == 0);
    assert(summaries_view(sessions@) =~= Seq::empty());
    while k < table.rows.len()
        invariant
            k <= table.rows@.len(),
            rows == table.rows.deep_view(),
            read_rows(rows.take(k as int), id as nat, state as nat, harness_col, model_col)
                == RowsRead::Sessions(summaries_view(sessions@)),
        decreases table.rows@.len() - k,
    {
        let row = &table.rows[k];
        proof {
            assert(rows.take(k + 1).drop_last() == rows.take(k as int));
            assert(rows.take(k + 1).last() == row.deep_view());
        }
        let session = cell_text(row, id);
        if session.as_str().is_empty() {
            proof {
                lemma_read_rows_settled(rows, k + 1, id as nat, state as nat, harness_col, model_col);
            }
            let mut detail = String::new();
            push_str(&mut detail, "a sessions row has an empty id");
            return Err(malformed_output_error(command, detail));
        }
        let row_state = cell_text(row, state);
        let parsed = match session_state(command, row_state.as_str()) {
            Ok(parsed) => parsed,
            Err(error) => {
                proof {
                    lemma_read_rows_settled(rows, k + 1, id as nat, state as nat, harness_col, model_col);
                }
                return Err(error);
            },
        };
        let harness_text = match harness {
            Some(i) => cell_text(row, i),
            None => String::new(),
        };
        let model_text = match model {
            Some(i) => cell_text(row, i),
            None => String::new(),
        };
        let ghost before = sessions@;
        sessions.push(
            SessionSummary { session, state: parsed, harness: harness_text, model: model_text },
        );
        proof {
            assert(summaries_view(sessions@) == summaries_view(before).push(
                (
                    cell(row.deep_view(), id as nat),
                    parsed,
                    optional_cell(row.deep_view(), harness_col),
                    optional_cell(row.deep_view(), model_col),
                ),
            ));
        }
        k += 1;
    }
    assert(rows.take(table.rows@.len() as int) == rows);
    Ok(sessions)
}

} // verus!
