//! The indentation-based document format that boxr prints: `key: value` scalars,
//! `key:` sections, `key[n]:` lists of `n` rows and `key[n]{a,b}:` tables of `n` rows.
use vstd::prelude::*;
use vstd::string::StrSliceExecFns;

use crate::text::{debug_quoted, debug_str, decimal, push_decimal, push_str, str_eq, back_ws, chars_of, push_range, push_string, rfind_char_in, skip_ws, utf8_len_in, find_char_in, find_seq_in, parse_usize, trim_range, push_char, string_of, find_char, find_seq, lines, parse_unsigned, rfind_char, split_char, trim, trim_end, trim_start, utf8_len, lemma_next_line_found, lemma_next_line_last};

verus! {

/// One value of a document.
#[derive(Debug, Clone, PartialEq, Eq)]
pub enum Entry {
    Scalar(String),
    Rows(Vec<String>),
    Table { columns: Vec<String>, rows: Vec<Vec<String>> },
}

/// What an [`Entry`] holds.
pub enum EntryView {
    Scalar(Seq<char>),
    Rows(Seq<Seq<char>>),
    Table { columns: Seq<Seq<char>>, rows: Seq<Seq<Seq<char>>> },
}

impl View for Entry {
    type V = EntryView;

    open spec fn view(&self) -> EntryView {
        match self {
            Entry::Scalar(value) => EntryView::Scalar(value@),
            Entry::Rows(rows) => EntryView::Rows(rows.deep_view()),
            Entry::Table { columns, rows } => EntryView::Table {
                columns: columns.deep_view(),
                rows: rows.deep_view(),
            },
        }
    }
}

/// A parsed document: its entries in the order they were read, each under its
/// dotted key.
#[derive(Debug, Clone, PartialEq, Eq)]
pub struct Document {
    entries: Vec<(String, Entry)>,
}

impl View for Document {
    type V = Seq<(Seq<char>, EntryView)>;

    closed spec fn view(&self) -> Seq<(Seq<char>, EntryView)> {
        entries_view(self.entries@)
    }
}

pub open spec fn entries_view(entries: Seq<(String, Entry)>) -> Seq<(Seq<char>, EntryView)> {
    Seq::new(entries.len(), |i: int| (entries[i].0@, entries[i].1@))
}

/// A table entry of a document: its column names and its rows.
#[derive(Debug, Clone, Copy)]
pub struct Table<'a> {
    pub columns: &'a [String],
    pub rows: &'a [Vec<String>],
}

/// Why a document could not be read.
#[derive(Debug, Clone, PartialEq, Eq)]
pub enum ToonError {
    Unreadable(String),
    UnterminatedQuote { line: usize },
    TrailingCharacters { line: usize, text: String },
    UnknownEscape { line: usize, escape: String },
    RowCount { key: String, expected: usize, found: usize, line: usize },
    ColumnCount { key: String, expected: usize, found: usize, line: usize },
    MissingColumn { key: String, columns: Vec<String> },
}

pub enum ToonErrorView {
    Unreadable(Seq<char>),
    UnterminatedQuote { line: nat },
    TrailingCharacters { line: nat, text: Seq<char> },
    UnknownEscape { line: nat, escape: Seq<char> },
    RowCount { key: Seq<char>, expected: nat, found: nat, line: nat },
    ColumnCount { key: Seq<char>, expected: nat, found: nat, line: nat },
    MissingColumn { key: Seq<char>, columns: Seq<Seq<char>> },
}

impl View for ToonError {
    type V = ToonErrorView;

    open spec fn view(&self) -> ToonErrorView {
        match self {
            ToonError::Unreadable(text) => ToonErrorView::Unreadable(text@),
            ToonError::UnterminatedQuote { line } => ToonErrorView::UnterminatedQuote {
                line: *line as nat,
            },
            ToonError::TrailingCharacters { line, text } => ToonErrorView::TrailingCharacters {
                line: *line as nat,
                text: text@,
            },
            ToonError::UnknownEscape { line, escape } => ToonErrorView::UnknownEscape {
                line: *line as nat,
                escape: escape@,
            },
            ToonError::RowCount { key, expected, found, line } => ToonErrorView::RowCount {
                key: key@,
                expected: *expected as nat,
                found: *found as nat,
                line: *line as nat,
            },
            ToonError::ColumnCount { key, expected, found, line } => ToonErrorView::ColumnCount {
                key: key@,
                expected: *expected as nat,
                found: *found as nat,
                line: *line as nat,
            },
            ToonError::MissingColumn { key, columns } => ToonErrorView::MissingColumn {
                key: key@,
                columns: columns.deep_view(),
            },
        }
    }
}

// ---------------------------------------------------------------------------
// The meaning of a document
// ---------------------------------------------------------------------------
/// The characters after an opening quote, read up to the closing quote.
pub open spec fn unquote_rest(rest: Seq<char>, acc: Seq<char>, line: nat, text: Seq<char>) -> Result<
    Seq<char>,
    ToonErrorView,
>
    decreases rest.len(),
{
    if rest.len() == 0 {
        Err(ToonErrorView::UnterminatedQuote { line })
    } else if rest[0] == '"' {
        if rest.len() > 1 {
            Err(ToonErrorView::TrailingCharacters { line, text })
        } else {
            Ok(acc)
        }
    } else if rest[0] == '\\' {
        if rest.len() < 2 {
            Err(ToonErrorView::UnterminatedQuote { line })
        } else {
            let e = rest[1];
            if e == '\\' {
                unquote_rest(rest.skip(2), acc.push('\\'), line, text)
            } else if e == '"' {
                unquote_rest(rest.skip(2), acc.push('"'), line, text)
            } else if e == 'n' {
                unquote_rest(rest.skip(2), acc.push('\n'), line, text)
            } else if e == 'r' {
                unquote_rest(rest.skip(2), acc.push('\r'), line, text)
            } else if e == 't' {
                unquote_rest(rest.skip(2), acc.push('\t'), line, text)
            } else {
                Err(ToonErrorView::UnknownEscape { line, escape: seq!['\\', e] })
            }
        }
    } else {
        unquote_rest(rest.drop_first(), acc.push(rest[0]), line, text)
    }
}

/// A value as written: bare text stands for itself, a quoted value is unescaped.
pub open spec fn unquote_spec(text: Seq<char>, line: nat) -> Result<Seq<char>, ToonErrorView> {
    if text.len() == 0 || text[0] != '"' {
        Ok(text)
    } else {
        unquote_rest(text.drop_first(), Seq::empty(), line, text)
    }
}

/// Splits a table row at the commas that stand outside quotes.
pub open spec fn split_rest(
    rest: Seq<char>,
    fields: Seq<Seq<char>>,
    current: Seq<char>,
    quoted: bool,
    escaped: bool,
    line: nat,
) -> Result<Seq<Seq<char>>, ToonErrorView>
    decreases rest.len(),
{
    if rest.len() == 0 {
        if quoted {
            Err(ToonErrorView::UnterminatedQuote { line })
        } else {
            Ok(fields.push(current))
        }
    } else {
        let c = rest[0];
        let r = rest.drop_first();
        if escaped {
            split_rest(r, fields, current.push(c), quoted, false, line)
        } else if c == '\\' && quoted {
            split_rest(r, fields, current.push(c), quoted, true, line)
        } else if c == '"' {
            split_rest(r, fields, current.push(c), !quoted, false, line)
        } else if c == ',' && !quoted {
            split_rest(r, fields.push(current), Seq::empty(), quoted, false, line)
        } else {
            split_rest(r, fields, current.push(c), quoted, false, line)
        }
    }
}

pub open spec fn split_quoted_spec(text: Seq<char>, line: nat) -> Result<
    Seq<Seq<char>>,
    ToonErrorView,
> {
    split_rest(text, Seq::empty(), Seq::empty(), false, false, line)
}

/// The column names of a table header: `{a, b}`.
pub open spec fn parse_columns_spec(text: Seq<char>) -> Result<Seq<Seq<char>>, ToonErrorView> {
    if text.len() >= 2 && text[0] == '{' && text.last() == '}' {
        Ok(split_char(text.subrange(1, text.len() - 1), ',').map_values(|c: Seq<char>| trim(c)))
    } else {
        Err(ToonErrorView::Unreadable(text))
    }
}

/// What a (trimmed, non-empty) line is.
pub enum LineView {
    Section { key: Seq<char> },
    Scalar { key: Seq<char>, value: Seq<char> },
    Header { key: Seq<char>, count: nat, columns: Option<Seq<Seq<char>>> },
}

pub open spec fn classify_spec(text: Seq<char>) -> Result<LineView, ToonErrorView> {
    let i = find_seq(text, seq![':', ' ']);
    if i >= 0 {
        Ok(LineView::Scalar { key: text.take(i), value: text.skip(i + 2) })
    } else if text.len() == 0 || text.last() != ':' {
        Err(ToonErrorView::Unreadable(text))
    } else {
        let rest = text.drop_last();
        let j = find_char(rest, '[');
        if j < 0 {
            Ok(LineView::Section { key: rest })
        } else {
            let header = rest.skip(j + 1);
            let k = find_char(header, ']');
            if k < 0 {
                Err(ToonErrorView::Unreadable(text))
            } else {
                let count = header.take(k);
                let columns = header.skip(k + 1);
                match parse_unsigned(count) {
                    Some(n) if n <= usize::MAX => {
                        if columns.len() == 0 {
                            Ok(LineView::Header { key: rest.take(j), count: n, columns: None })
                        } else {
                            match parse_columns_spec(columns) {
                                Ok(names) => Ok(
                                    LineView::Header {
                                        key: rest.take(j),
                                        count: n,
                                        columns: Some(names),
                                    },
                                ),
                                Err(e) => Err(e),
                            }
                        }
                    },
                    _ => Err(ToonErrorView::Unreadable(text)),
                }
            }
        }
    }
}

/// The last dotted component of a key.
pub open spec fn leaf_spec(key: Seq<char>) -> Seq<char> {
    let i = rfind_char(key, '.');
    if i < 0 {
        key
    } else {
        key.skip(i + 1)
    }
}

/// Names joined with dots.
pub open spec fn join_dot(names: Seq<Seq<char>>) -> Seq<char>
    decreases names.len(),
{
    if names.len() == 0 {
        Seq::empty()
    } else if names.len() == 1 {
        names[0]
    } else {
        join_dot(names.drop_last()) + seq!['.'] + names.last()
    }
}

pub open spec fn section_names(sections: Seq<(nat, Seq<char>)>) -> Seq<Seq<char>> {
    Seq::new(sections.len(), |i: int| sections[i].1)
}

/// A key under the sections that enclose it.
pub open spec fn qualify_spec(sections: Seq<(nat, Seq<char>)>, key: Seq<char>) -> Seq<char> {
    if sections.len() == 0 {
        key
    } else {
        join_dot(section_names(sections)) + seq!['.'] + key
    }
}

pub enum PendingView {
    Rows(Seq<Seq<char>>),
    Table { columns: Seq<Seq<char>>, rows: Seq<Seq<Seq<char>>> },
}

/// A list or table whose rows are still being read.
pub struct OpenView {
    pub key: Seq<char>,
    pub indent: nat,
    pub expected: nat,
    pub pending: PendingView,
}

pub open spec fn open_rows(o: OpenView) -> nat {
    match o.pending {
        PendingView::Rows(rows) => rows.len(),
        PendingView::Table { rows, .. } => rows.len(),
    }
}

pub open spec fn open_entry(o: OpenView) -> (Seq<char>, EntryView) {
    match o.pending {
        PendingView::Rows(rows) => (o.key, EntryView::Rows(rows)),
        PendingView::Table { columns, rows } => (o.key, EntryView::Table { columns, rows }),
    }
}

pub open spec fn new_open(key: Seq<char>, indent: nat, count: nat, columns: Option<Seq<Seq<char>>>) -> OpenView {
    OpenView {
        key,
        indent,
        expected: count,
        pending: match columns {
            Some(c) => PendingView::Table { columns: c, rows: Seq::empty() },
            None => PendingView::Rows(Seq::empty()),
        },
    }
}

/// Each field trimmed and unquoted, failing at the first field that does not unquote.
pub open spec fn unquote_fields(fields: Seq<Seq<char>>, line: nat) -> Result<
    Seq<Seq<char>>,
    ToonErrorView,
>
    decreases fields.len(),
{
    if fields.len() == 0 {
        Ok(Seq::empty())
    } else {
        match unquote_fields(fields.drop_last(), line) {
            Err(e) => Err(e),
            Ok(done) => match unquote_spec(trim(fields.last()), line) {
                Err(e) => Err(e),
                Ok(v) => Ok(done.push(v)),
            },
        }
    }
}

/// An indented line read into the open list or table.
pub open spec fn open_push(o: OpenView, line: nat, text: Seq<char>) -> Result<OpenView, ToonErrorView> {
    match o.pending {
        PendingView::Rows(rows) => match unquote_spec(text, line) {
            Err(e) => Err(e),
            Ok(v) => Ok(OpenView { pending: PendingView::Rows(rows.push(v)), ..o }),
        },
        PendingView::Table { columns, rows } => match split_quoted_spec(text, line) {
            Err(e) => Err(e),
            Ok(raw) => match unquote_fields(raw, line) {
                Err(e) => Err(e),
                Ok(fields) => if fields.len() != columns.len() {
                    Err(
                        ToonErrorView::ColumnCount {
                            key: o.key,
                            expected: columns.len(),
                            found: fields.len(),
                            line,
                        },
                    )
                } else {
                    Ok(OpenView { pending: PendingView::Table { columns, rows: rows.push(fields) }, ..o })
                },
            },
        },
    }
}

/// A list or table ended by a line that is not indented under it.
pub open spec fn open_close(o: OpenView, line: nat) -> Result<(Seq<char>, EntryView), ToonErrorView> {
    if open_rows(o) != o.expected {
        Err(ToonErrorView::RowCount { key: o.key, expected: o.expected, found: open_rows(o), line })
    } else {
        Ok(open_entry(o))
    }
}

/// The sections that still enclose a line at `indent`.
pub open spec fn pop_sections(sections: Seq<(nat, Seq<char>)>, indent: nat) -> Seq<(nat, Seq<char>)>
    decreases sections.len(),
{
    if sections.len() > 0 && sections.last().0 >= indent {
        pop_sections(sections.drop_last(), indent)
    } else {
        sections
    }
}

pub struct ParseView {
    pub entries: Seq<(Seq<char>, EntryView)>,
    pub sections: Seq<(nat, Seq<char>)>,
    pub open: Option<OpenView>,
}

/// Number of bytes of the indentation of a line.
pub open spec fn indent_of(text: Seq<char>) -> nat {
    utf8_len(text.take(text.len() - trim_start(text).len()))
}

/// The non-indented line `body`, read once any open list or table is closed.
pub open spec fn read_line(
    entries: Seq<(Seq<char>, EntryView)>,
    sections: Seq<(nat, Seq<char>)>,
    indent: nat,
    line: nat,
    body: Seq<char>,
) -> Result<ParseView, ToonErrorView> {
    let secs = pop_sections(sections, indent);
    match classify_spec(body) {
        Err(e) => Err(e),
        Ok(LineView::Section { key }) => Ok(
            ParseView { entries, sections: secs.push((indent, key)), open: None },
        ),
        Ok(LineView::Scalar { key, value }) => match unquote_spec(value, line) {
            Err(e) => Err(e),
            Ok(u) => Ok(
                ParseView {
                    entries: entries.push((qualify_spec(secs, key), EntryView::Scalar(u))),
                    sections: secs,
                    open: None,
                },
            ),
        },
        Ok(LineView::Header { key, count, columns }) => {
            let o = new_open(qualify_spec(secs, key), indent, count, columns);
            if open_rows(o) == o.expected {
                Ok(ParseView { entries: entries.push(open_entry(o)), sections: secs, open: None })
            } else {
                Ok(ParseView { entries, sections: secs, open: Some(o) })
            }
        },
    }
}

/// One line of the input, numbered `line`.
pub open spec fn step_spec(st: ParseView, line: nat, raw: Seq<char>) -> Result<ParseView, ToonErrorView> {
    let text = trim_end(raw);
    if trim(text).len() == 0 {
        Ok(st)
    } else {
        let indent = indent_of(text);
        let body = trim_start(text);
        match st.open {
            Some(o) if indent > o.indent => match open_push(o, line, body) {
                Err(e) => Err(e),
                Ok(o2) => if open_rows(o2) == o2.expected {
                    Ok(ParseView { entries: st.entries.push(open_entry(o2)), open: None, ..st })
                } else {
                    Ok(ParseView { open: Some(o2), ..st })
                },
            },
            Some(o) => match open_close(o, line) {
                Err(e) => Err(e),
                Ok(entry) => read_line(st.entries.push(entry), st.sections, indent, line, body),
            },
            None => read_line(st.entries, st.sections, indent, line, body),
        }
    }
}

/// The lines `ls[i..]`, read after the state `st`.
pub open spec fn parse_lines(ls: Seq<Seq<char>>, i: nat, st: ParseView) -> Result<
    Seq<(Seq<char>, EntryView)>,
    ToonErrorView,
>
    decreases ls.len() - i,
{
    if i >= ls.len() {
        match st.open {
            None => Ok(st.entries),
            Some(o) => match open_close(o, ls.len()) {
                Err(e) => Err(e),
                Ok(entry) => Ok(st.entries.push(entry)),
            },
        }
    } else {
        match step_spec(st, i + 1, ls[i as int]) {
            Err(e) => Err(e),
            Ok(st2) => parse_lines(ls, i + 1, st2),
        }
    }
}

/// The entries of the document `input`, or why it cannot be read.
pub open spec fn parse_spec(input: Seq<char>) -> Result<Seq<(Seq<char>, EntryView)>, ToonErrorView> {
    parse_lines(lines(input), 0, ParseView { entries: Seq::empty(), sections: Seq::empty(), open: None })
}


/// How a character is written inside quotes: a quote, a backslash, a newline, a carriage
/// return and a tab by their escapes, every other character as itself.
pub open spec fn escape_char(c: char) -> Seq<char> {
    if c == '"' {
        seq!['\\', '"']
    } else if c == '\\' {
        seq!['\\', '\\']
    } else if c == '\n' {
        seq!['\\', 'n']
    } else if c == '\r' {
        seq!['\\', 'r']
    } else if c == '\t' {
        seq!['\\', 't']
    } else {
        seq![c]
    }
}

/// Each character of `s` written as inside quotes.
pub open spec fn escaped(s: Seq<char>) -> Seq<char>
    decreases s.len(),
{
    if s.len() == 0 {
        Seq::empty()
    } else {
        escape_char(s[0]) + escaped(s.drop_first())
    }
}

/// `s` written as a quoted value.
pub open spec fn quoted(s: Seq<char>) -> Seq<char> {
    seq!['"'] + escaped(s) + seq!['"']
}

/// Reading the escaped form of `s` up to the closing quote appends `s`.
proof fn lemma_unquote_escaped(s: Seq<char>, acc: Seq<char>, line: nat, text: Seq<char>)
    ensures
        unquote_rest(escaped(s) + seq!['"'], acc, line, text) == Ok::<
            Seq<char>,
            ToonErrorView,
        >(acc + s),
    decreases s.len(),
{
    let rest = escaped(s) + seq!['"'];
    if s.len() == 0 {
        assert(rest == seq!['"']);
        assert(acc + s == acc);
    } else {
        let c = s[0];
        let t = s.drop_first();
        lemma_unquote_escaped(t, acc.push(c), line, text);
        assert(acc.push(c) + t == acc + s);
        assert(rest == escape_char(c) + (escaped(t) + seq!['"']));
        if escape_char(c).len() == 2 {
            assert(rest.skip(2) == escaped(t) + seq!['"']);
            assert(rest[0] == '\\');
            assert(rest[1] == escape_char(c)[1]);
        } else {
            assert(rest.drop_first() == escaped(t) + seq!['"']);
            assert(rest[0] == c);
        }
    }
}

/// Quoting then unquoting gives the text back: a quoted value reads as the text that
/// was quoted, whatever characters it holds.
pub proof fn lemma_unquote_quoted(s: Seq<char>, line: nat)
    ensures
        unquote_spec(quoted(s), line) == Ok::<Seq<char>, ToonErrorView>(s),
{
    let q = quoted(s);
    assert(q[0] == '"');
    assert(q.drop_first() == escaped(s) + seq!['"']);
    lemma_unquote_escaped(s, Seq::empty(), line, q);
    assert(Seq::<char>::empty() + s == s);
}

// ---------------------------------------------------------------------------
// Reading a document
// ---------------------------------------------------------------------------
pub open spec fn str_result(r: Result<String, ToonError>) -> Result<Seq<char>, ToonErrorView> {
    match r {
        Ok(s) => Ok(s@),
        Err(e) => Err(e@),
    }
}

pub open spec fn chars_view(f: Seq<Vec<char>>) -> Seq<Seq<char>> {
    Seq::new(f.len(), |i: int| f[i]@)
}

/// `v[lo..hi]` as a value: bare, or quoted with `\\`, `\"`, `\n`, `\r` and `\t` escapes.
fn unquote(v: &Vec<char>, lo: usize, hi: usize, line: usize) -> (r: Result<String, ToonError>)
    requires
        lo <= hi <= v.len(),
    ensures
        str_result(r) == unquote_spec(v@.subrange(lo as int, hi as int), line as nat),
{
    if lo == hi || v[lo] != '"' {
        return Ok(string_of(v, lo, hi));
    }
    let ghost text = v@.subrange(lo as int, hi as int);
    assert(text.drop_first() == v@.subrange(lo + 1, hi as int));
    let mut value = String::new();
    let mut i = lo + 1;
    loop
        invariant
            lo + 1 <= i <= hi <= v.len(),
            text == v@.subrange(lo as int, hi as int),
            unquote_spec(text, line as nat) == unquote_rest(
                v@.subrange(i as int, hi as int),
                value@,
                line as nat,
                text,
            ),
        decreases hi - i,
    {
        let ghost rest = v@.subrange(i as int, hi as int);
        if i == hi {
            return Err(ToonError::UnterminatedQuote { line });
        }
        let c = v[i];
        if c == '"' {
            if i + 1 < hi {
                return Err(ToonError::TrailingCharacters { line, text: string_of(v, lo, hi) });
            }
            return Ok(value);
        }
        if c == '\\' {
            if i + 1 == hi {
                return Err(ToonError::UnterminatedQuote { line });
            }
            let e = v[i + 1];
            assert(rest[1] == e);
            assert(rest.skip(2) == v@.subrange(i + 2, hi as int));
            if e == '\\' {
                push_char(&mut value, '\\');
            } else if e == '"' {
                push_char(&mut value, '"');
            } else if e == 'n' {
                push_char(&mut value, '\n');
            } else if e == 'r' {
                push_char(&mut value, '\r');
            } else if e == 't' {
                push_char(&mut value, '\t');
            } else {
                let mut escape = String::new();
                push_char(&mut escape, '\\');
                push_char(&mut escape, e);
                assert(escape@ == seq!['\\', e]);
                return Err(ToonError::UnknownEscape { line, escape });
            }
            i = i + 2;
        } else {
            assert(rest.drop_first() == v@.subrange(i + 1, hi as int));
            push_char(&mut value, c);
            i = i + 1;
        }
    }
}

/// The fields of a table row `v[lo..hi]`, split at the commas outside quotes.
fn split_quoted(v: &Vec<char>, lo: usize, hi: usize, line: usize) -> (r: Result<Vec<Vec<char>>, ToonError>)
    requires
        lo <= hi <= v.len(),
    ensures
        match r {
            Ok(fields) => split_quoted_spec(v@.subrange(lo as int, hi as int), line as nat) == Ok::<
                Seq<Seq<char>>,
                ToonErrorView,
            >(chars_view(fields@)),
            Err(e) => split_quoted_spec(v@.subrange(lo as int, hi as int), line as nat) == Err::<
                Seq<Seq<char>>,
                ToonErrorView,
            >(e@),
        },
{
    let mut fields: Vec<Vec<char>> = Vec::new();
    let mut current: Vec<char> = Vec::new();
    let mut quoted = false;
    let mut escaped = false;
    let mut i = lo;
    assert(chars_view(fields@) == Seq::<Seq<char>>::empty());
    while i < hi
        invariant
            lo <= i <= hi <= v.len(),
            split_quoted_spec(v@.subrange(lo as int, hi as int), line as nat) == split_rest(
                v@.subrange(i as int, hi as int),
                chars_view(fields@),
                current@,
                quoted,
                escaped,
                line as nat,
            ),
        decreases hi - i,
    {
        let ghost rest = v@.subrange(i as int, hi as int);
        assert(rest.drop_first() == v@.subrange(i + 1, hi as int));
        let c = v[i];
        if escaped {
            current.push(c);
            escaped = false;
        } else if c == '\\' && quoted {
            current.push(c);
            escaped = true;
        } else if c == '"' {
            quoted = !quoted;
            current.push(c);
        } else if c == ',' && !quoted {
            let ghost before = chars_view(fields@);
            let taken = current;
            current = Vec::new();
            fields.push(taken);
            assert(chars_view(fields@) == before.push(taken@));
        } else {
            current.push(c);
        }
        i = i + 1;
    }
    if quoted {
        return Err(ToonError::UnterminatedQuote { line });
    }
    let ghost before = chars_view(fields@);
    fields.push(current);
    assert(chars_view(fields@) == before.push(fields@.last()@));
    Ok(fields)
}


pub open spec fn strings_view(v: Seq<String>) -> Seq<Seq<char>> {
    Seq::new(v.len(), |i: int| v[i]@)
}

/// The column names of a table header `v[lo..hi]`, written `{a, b}`.
fn parse_columns(v: &Vec<char>, lo: usize, hi: usize) -> (r: Result<Vec<String>, ToonError>)
    requires
        lo <= hi <= v.len(),
    ensures
        match r {
            Ok(names) => parse_columns_spec(v@.subrange(lo as int, hi as int)) == Ok::<
                Seq<Seq<char>>,
                ToonErrorView,
            >(strings_view(names@)),
            Err(e) => parse_columns_spec(v@.subrange(lo as int, hi as int)) == Err::<
                Seq<Seq<char>>,
                ToonErrorView,
            >(e@),
        },
{
    let ghost text = v@.subrange(lo as int, hi as int);
    if !(hi - lo >= 2 && v[lo] == '{' && v[hi - 1] == '}') {
        return Err(ToonError::Unreadable(string_of(v, lo, hi)));
    }
    let start = lo + 1;
    let end = hi - 1;
    let ghost inner = v@.subrange(start as int, end as int);
    assert(text.subrange(1, text.len() - 1) == inner);
    let mut names: Vec<String> = Vec::new();
    let ghost mut done: Seq<Seq<char>> = Seq::empty();
    let mut pos = start;
    assert(strings_view(names@) == done.map_values(|c: Seq<char>| trim(c)));
    loop
        invariant
            start <= pos <= end,
            end < hi <= v.len(),
            lo + 1 == start,
            hi - 1 == end,
            text == v@.subrange(lo as int, hi as int),
            text.len() >= 2 && text[0] == '{' && text.last() == '}',
            text.subrange(1, text.len() - 1) == inner,
            inner == v@.subrange(start as int, end as int),
            split_char(inner, ',') == done + split_char(v@.subrange(pos as int, end as int), ','),
            strings_view(names@) == done.map_values(|c: Seq<char>| trim(c)),
        decreases end - pos,
    {
        let ghost piece_src = v@.subrange(pos as int, end as int);
        let found = find_char_in(v, pos, end, ',');
        let piece_end = match found {
            Some(k) => k,
            None => end,
        };
        let (a, b) = trim_range(v, pos, piece_end);
        let name = string_of(v, a, b);
        let ghost piece = v@.subrange(pos as int, piece_end as int);
        let ghost before = strings_view(names@);
        names.push(name);
        proof {
            assert(strings_view(names@) == before.push(trim(piece)));
            assert(done.push(piece).map_values(|c: Seq<char>| trim(c)) == done.map_values(
                |c: Seq<char>| trim(c),
            ).push(trim(piece)));
        }
        match found {
            Some(k) => {
                proof {
                    assert(piece_src.take(k - pos) == piece);
                    assert(piece_src.skip(k - pos + 1) == v@.subrange(k + 1, end as int));
                    assert(split_char(piece_src, ',') == seq![piece] + split_char(
                        v@.subrange(k + 1, end as int),
                        ',',
                    ));
                    assert(done + split_char(piece_src, ',') == done.push(piece) + split_char(
                        v@.subrange(k + 1, end as int),
                        ',',
                    ));
                    done = done.push(piece);
                }
                pos = k + 1;
            },
            None => {
                proof {
                    assert(piece_src == piece);
                    assert(split_char(piece_src, ',') == seq![piece]);
                    assert(done + seq![piece] == done.push(piece));
                    done = done.push(piece);
                }
                return Ok(names);
            },
        }
    }
}

/// A classified line, by index ranges into the characters it was read from.
enum Line {
    Section { key: (usize, usize) },
    Scalar { key: (usize, usize), value: (usize, usize) },
    Header { key: (usize, usize), count: usize, columns: Option<Vec<String>> },
}

spec fn line_view(v: Seq<char>, l: Line) -> LineView {
    match l {
        Line::Section { key } => LineView::Section { key: v.subrange(key.0 as int, key.1 as int) },
        Line::Scalar { key, value } => LineView::Scalar {
            key: v.subrange(key.0 as int, key.1 as int),
            value: v.subrange(value.0 as int, value.1 as int),
        },
        Line::Header { key, count, columns } => LineView::Header {
            key: v.subrange(key.0 as int, key.1 as int),
            count: count as nat,
            columns: match columns {
                Some(c) => Some(strings_view(c@)),
                None => None,
            },
        },
    }
}

spec fn line_in(l: Line, lo: int, hi: int) -> bool {
    match l {
        Line::Section { key } => lo <= key.0 <= key.1 <= hi,
        Line::Scalar { key, value } => lo <= key.0 <= key.1 <= hi && lo <= value.0 <= value.1 <= hi,
        Line::Header { key, .. } => lo <= key.0 <= key.1 <= hi,
    }
}

/// What the trimmed, non-empty line `v[lo..hi]` is.
#[verifier::spinoff_prover]
fn classify(v: &Vec<char>, lo: usize, hi: usize) -> (r: Result<Line, ToonError>)
    requires
        lo <= hi <= v.len(),
    ensures
        match r {
            Ok(l) => line_in(l, lo as int, hi as int) && classify_spec(v@.subrange(lo as int, hi as int))
                == Ok::<LineView, ToonErrorView>(line_view(v@, l)),
            Err(e) => classify_spec(v@.subrange(lo as int, hi as int)) == Err::<LineView, ToonErrorView>(
                e@,
            ),
        },
{
    let ghost text = v@.subrange(lo as int, hi as int);
    let separator = vec![':', ' '];
    assert(separator@ == seq![':', ' ']);
    match find_seq_in(v, lo, hi, &separator) {
        Some(i) => {
            assert(text.take(i - lo) == v@.subrange(lo as int, i as int));
            assert(text.skip(i - lo + 2) == v@.subrange(i + 2, hi as int));
            return Ok(Line::Scalar { key: (lo, i), value: (i + 2, hi) });
        },
        None => {},
    }
    if lo == hi || v[hi - 1] != ':' {
        return Err(ToonError::Unreadable(string_of(v, lo, hi)));
    }
    let end = hi - 1;
    let ghost rest = v@.subrange(lo as int, end as int);
    assert(text.drop_last() == rest);
    let j = match find_char_in(v, lo, end, '[') {
        Some(j) => j,
        None => {
            return Ok(Line::Section { key: (lo, end) });
        },
    };
    assert(rest.skip(j - lo + 1) == v@.subrange(j + 1, end as int));
    assert(rest.take(j - lo) == v@.subrange(lo as int, j as int));
    let ghost header = v@.subrange(j + 1, end as int);
    let k = match find_char_in(v, j + 1, end, ']') {
        Some(k) => k,
        None => {
            return Err(ToonError::Unreadable(string_of(v, lo, hi)));
        },
    };
    assert(header.take(k - (j + 1)) == v@.subrange(j + 1, k as int));
    assert(header.skip(k - (j + 1) + 1) == v@.subrange(k + 1, end as int));
    let count = match parse_usize(v, j + 1, k) {
        Some(n) => n,
        None => {
            return Err(ToonError::Unreadable(string_of(v, lo, hi)));
        },
    };
    if k + 1 == end {
        return Ok(Line::Header { key: (lo, j), count, columns: None });
    }
    match parse_columns(v, k + 1, end) {
        Ok(names) => Ok(Line::Header { key: (lo, j), count, columns: Some(names) }),
        Err(e) => Err(e),
    }
}


pub proof fn lemma_strings_view(v: Seq<String>)
    ensures
        strings_view(v) == Seq::new(v.len(), |i: int| v[i].deep_view()),
{
    assert(strings_view(v) =~= Seq::new(v.len(), |i: int| v[i].deep_view()));
}

pub proof fn lemma_unquote_fields_err(s: Seq<Seq<char>>, k: int, line: nat)
    requires
        0 <= k <= s.len(),
        unquote_fields(s.take(k), line) is Err,
    ensures
        unquote_fields(s, line) == unquote_fields(s.take(k), line),
    decreases s.len() - k,
{
    if k < s.len() {
        assert(s.take(k + 1).drop_last() == s.take(k));
        lemma_unquote_fields_err(s, k + 1, line);
    } else {
        assert(s.take(k) == s);
    }
}

/// The rows of a list or table still being read.
enum Pending {
    Rows(Vec<String>),
    Table { columns: Vec<String>, rows: Vec<Vec<String>> },
}

/// A list or table header whose rows are still being read.
struct Open {
    key: String,
    indent: u128,
    expected: usize,
    pending: Pending,
}

impl View for Open {
    type V = OpenView;

    closed spec fn view(&self) -> OpenView {
        OpenView {
            key: self.key@,
            indent: self.indent as nat,
            expected: self.expected as nat,
            pending: match self.pending {
                Pending::Rows(rows) => PendingView::Rows(rows.deep_view()),
                Pending::Table { columns, rows } => PendingView::Table {
                    columns: columns.deep_view(),
                    rows: rows.deep_view(),
                },
            },
        }
    }
}

pub open spec fn pair_result(r: Result<(String, Entry), ToonError>) -> Result<
    (Seq<char>, EntryView),
    ToonErrorView,
> {
    match r {
        Ok(e) => Ok((e.0@, e.1@)),
        Err(e) => Err(e@),
    }
}

impl Open {
    fn new(key: String, indent: u128, count: usize, columns: Option<Vec<String>>) -> (o: Open)
        ensures
            o@ == new_open(
                key@,
                indent as nat,
                count as nat,
                match columns {
                    Some(c) => Some(c.deep_view()),
                    None => None,
                },
            ),
    {
        let pending = match columns {
            Some(columns) => Pending::Table { columns, rows: Vec::new() },
            None => Pending::Rows(Vec::new()),
        };
        let o = Open { key, indent, expected: count, pending };
        proof {
            match &o.pending {
                Pending::Rows(rows) => assert(rows.deep_view() == Seq::<Seq<char>>::empty()),
                Pending::Table { rows, .. } => assert(rows.deep_view()
                    == Seq::<Seq<Seq<char>>>::empty()),
            }
        }
        o
    }

    fn is_full(&self) -> (b: bool)
        ensures
            b == (open_rows(self@) == self@.expected),
    {
        self.rows() == self.expected
    }

    fn rows(&self) -> (n: usize)
        ensures
            n == open_rows(self@),
    {
        match &self.pending {
            Pending::Rows(rows) => rows.len(),
            Pending::Table { rows, .. } => rows.len(),
        }
    }

    /// Reads the indented line `v[lo..hi]`, numbered `line`, as the next row.
    #[verifier::loop_isolation(false)]
    fn push(&mut self, line: usize, v: &Vec<char>, lo: usize, hi: usize) -> (r: Result<(), ToonError>)
        requires
            lo <= hi <= v.len(),
        ensures
            match r {
                Ok(()) => open_push(old(self)@, line as nat, v@.subrange(lo as int, hi as int))
                    == Ok::<OpenView, ToonErrorView>(final(self)@),
                Err(e) => open_push(old(self)@, line as nat, v@.subrange(lo as int, hi as int))
                    == Err::<OpenView, ToonErrorView>(e@),
            },
    {
        let ghost before = self@;
        match &mut self.pending {
            Pending::Rows(rows) => {
                let value = unquote(v, lo, hi, line)?;
                let ghost old_rows = rows.deep_view();
                rows.push(value);
                assert(rows.deep_view() == old_rows.push(rows@.last()@));
                Ok(())
            },
            Pending::Table { columns, rows } => {
                let raw = split_quoted(v, lo, hi, line)?;
                let mut fields: Vec<String> = Vec::new();
                let mut i: usize = 0;
                assert(chars_view(raw@).take(0) == Seq::<Seq<char>>::empty());
                assert(fields.deep_view() == Seq::<Seq<char>>::empty());
                while i < raw.len()
                    invariant
                        i <= raw.len(),
                        unquote_fields(chars_view(raw@).take(i as int), line as nat) == Ok::<
                            Seq<Seq<char>>,
                            ToonErrorView,
                        >(fields.deep_view()),
                    decreases raw.len() - i,
                {
                    let field = &raw[i];
                    let (a, b) = trim_range(field, 0, field.len());
                    assert(field@.subrange(0, field@.len() as int) == field@);
                    assert(chars_view(raw@).take(i + 1).drop_last() == chars_view(raw@).take(i as int));
                    assert(chars_view(raw@).take(i + 1).last() == field@);
                    let value = match unquote(field, a, b, line) {
                        Ok(value) => value,
                        Err(e) => {
                            proof {
                                lemma_unquote_fields_err(chars_view(raw@), i + 1, line as nat);
                            }
                            return Err(e);
                        },
                    };
                    let ghost old_fields = fields.deep_view();
                    fields.push(value);
                    assert(fields.deep_view() == old_fields.push(fields@.last()@));
                    i = i + 1;
                }
                assert(chars_view(raw@).take(raw.len() as int) == chars_view(raw@));
                if fields.len() != columns.len() {
                    return Err(ToonError::ColumnCount {
                        key: self.key.clone(),
                        expected: columns.len(),
                        found: fields.len(),
                        line,
                    });
                }
                let ghost old_rows = rows.deep_view();
                rows.push(fields);
                assert(rows.deep_view() == old_rows.push(rows@.last().deep_view()));
                Ok(())
            },
        }
    }

    /// Ends the list or table at line `line`: it must hold the rows it announced.
    fn close(self, line: usize) -> (r: Result<(String, Entry), ToonError>)
        ensures
            pair_result(r) == open_close(self@, line as nat),
    {
        let found = self.rows();
        if found != self.expected {
            return Err(ToonError::RowCount { key: self.key, expected: self.expected, found, line });
        }
        Ok(self.into_entry())
    }

    fn into_entry(self) -> (r: (String, Entry))
        ensures
            (r.0@, r.1@) == open_entry(self@),
    {
        let entry = match self.pending {
            Pending::Rows(rows) => Entry::Rows(rows),
            Pending::Table { columns, rows } => Entry::Table { columns, rows },
        };
        (self.key, entry)
    }
}


/// The last dotted component of a key.
pub fn leaf(key: &str) -> (r: &str)
    ensures
        r@ == leaf_spec(key@),
{
    let v = chars_of(key);
    match rfind_char_in(&v, 0, v.len(), '.') {
        None => {
            assert(v@.subrange(0, v@.len() as int) == v@);
            key
        },
        Some(i) => {
            assert(v@.subrange(0, v@.len() as int) == v@);
            key.substring_char(i + 1, v.len())
        },
    }
}

pub open spec fn sections_view(s: Seq<(u128, String)>) -> Seq<(nat, Seq<char>)> {
    Seq::new(s.len(), |i: int| (s[i].0 as nat, s[i].1@))
}

/// The key `v[lo..hi]` under the enclosing sections.
fn qualify(sections: &Vec<(u128, String)>, v: &Vec<char>, lo: usize, hi: usize) -> (r: String)
    requires
        lo <= hi <= v.len(),
    ensures
        r@ == qualify_spec(sections_view(sections@), v@.subrange(lo as int, hi as int)),
{
    let ghost names = section_names(sections_view(sections@));
    if sections.len() == 0 {
        return string_of(v, lo, hi);
    }
    let mut out = String::new();
    push_string(&mut out, &sections[0].1);
    assert(names.take(1).len() == 1);
    assert(out@ == join_dot(names.take(1)));
    let mut i: usize = 1;
    while i < sections.len()
        invariant
            1 <= i <= sections.len(),
            names == section_names(sections_view(sections@)),
            out@ == join_dot(names.take(i as int)),
        decreases sections.len() - i,
    {
        assert(names.take(i + 1).drop_last() == names.take(i as int));
        assert(names.take(i + 1).last() == sections@[i as int].1@);
        push_char(&mut out, '.');
        push_string(&mut out, &sections[i].1);
        i = i + 1;
    }
    assert(names.take(sections.len() as int) == names);
    push_char(&mut out, '.');
    push_range(&mut out, v, lo, hi);
    out
}

/// The state of a document being read: its entries so far, the sections that enclose
/// the next line, and the list or table still reading rows.
struct ParseState {
    entries: Vec<(String, Entry)>,
    sections: Vec<(u128, String)>,
    open: Option<Open>,
}

impl View for ParseState {
    type V = ParseView;

    closed spec fn view(&self) -> ParseView {
        ParseView {
            entries: entries_view(self.entries@),
            sections: sections_view(self.sections@),
            open: match self.open {
                Some(o) => Some(o@),
                None => None,
            },
        }
    }
}

pub open spec fn unit_result<T>(r: Result<(), ToonError>, spec_r: Result<T, ToonErrorView>, after: T) -> bool {
    match r {
        Ok(()) => spec_r == Ok::<T, ToonErrorView>(after),
        Err(e) => spec_r == Err::<T, ToonErrorView>(e@),
    }
}

impl ParseState {
    fn push_entry(&mut self, entry: (String, Entry))
        ensures
            final(self)@ == (ParseView {
                entries: old(self)@.entries.push((entry.0@, entry.1@)),
                ..old(self)@
            }),
    {
        let ghost before = entries_view(self.entries@);
        self.entries.push(entry);
        assert(entries_view(self.entries@) == before.push((entry.0@, entry.1@)));
    }

    /// Reads the non-indented line `v[lo..hi]` once no list or table is open.
    fn read_line(&mut self, indent: u128, line: usize, v: &Vec<char>, lo: usize, hi: usize) -> (r: Result<
        (),
        ToonError,
    >)
        requires
            lo <= hi <= v.len(),
            old(self).open.is_none(),
        ensures
            unit_result(
                r,
                read_line(
                    old(self)@.entries,
                    old(self)@.sections,
                    indent as nat,
                    line as nat,
                    v@.subrange(lo as int, hi as int),
                ),
                final(self)@,
            ),
    {
        let ghost secs0 = sections_view(self.sections@);
        while self.sections.len() > 0 && self.sections[self.sections.len() - 1].0 >= indent
            invariant
                pop_sections(secs0, indent as nat) == pop_sections(
                    sections_view(self.sections@),
                    indent as nat,
                ),
                self.open.is_none(),
                entries_view(self.entries@) == old(self)@.entries,
            decreases self.sections.len(),
        {
            let ghost before = sections_view(self.sections@);
            self.sections.pop();
            assert(sections_view(self.sections@) == before.drop_last());
        }
        assert(pop_sections(sections_view(self.sections@), indent as nat) == sections_view(
            self.sections@,
        ));
        let classified = classify(v, lo, hi)?;
        match classified {
            Line::Section { key } => {
                let name = string_of(v, key.0, key.1);
                let ghost before = sections_view(self.sections@);
                self.sections.push((indent, name));
                assert(sections_view(self.sections@) == before.push((indent as nat, name@)));
                Ok(())
            },
            Line::Scalar { key, value } => {
                let unquoted = unquote(v, value.0, value.1, line)?;
                let qualified = qualify(&self.sections, v, key.0, key.1);
                self.push_entry((qualified, Entry::Scalar(unquoted)));
                Ok(())
            },
            Line::Header { key, count, columns } => {
                let qualified = qualify(&self.sections, v, key.0, key.1);
                proof {
                    match &columns {
                        Some(c) => lemma_strings_view(c@),
                        None => {},
                    }
                }
                let opened = Open::new(qualified, indent, count, columns);
                if opened.is_full() {
                    self.push_entry(opened.into_entry());
                } else {
                    self.open = Some(opened);
                }
                Ok(())
            },
        }
    }

    /// Reads the line `v[lo..hi]`, numbered `line`.
    fn step(&mut self, line: usize, v: &Vec<char>, lo: usize, hi: usize) -> (r: Result<(), ToonError>)
        requires
            lo <= hi <= v.len(),
        ensures
            unit_result(
                r,
                step_spec(old(self)@, line as nat, v@.subrange(lo as int, hi as int)),
                final(self)@,
            ),
    {
        let ghost raw = v@.subrange(lo as int, hi as int);
        let end = back_ws(v, lo, hi);
        let ghost text = v@.subrange(lo as int, end as int);
        let start = skip_ws(v, lo, end);
        let stop = back_ws(v, start, end);
        if stop == start {
            assert(trim(text).len() == 0);
            return Ok(());
        }
        assert(text.take(text.len() - trim_start(text).len()) == v@.subrange(lo as int, start as int));
        let indent = utf8_len_in(v, lo, start);
        match self.open.take() {
            Some(mut opened) => {
                if indent > opened.indent {
                    let pushed = opened.push(line, v, start, end);
                    match pushed {
                        Ok(()) => {},
                        Err(e) => {
                            self.open = Some(opened);
                            return Err(e);
                        },
                    }
                    if opened.is_full() {
                        self.push_entry(opened.into_entry());
                    } else {
                        self.open = Some(opened);
                    }
                    Ok(())
                } else {
                    let closed = opened.close(line)?;
                    self.push_entry(closed);
                    self.read_line(indent, line, v, start, end)
                }
            },
            None => self.read_line(indent, line, v, start, end),
        }
    }
}

pub proof fn lemma_skip_cons(ls: Seq<Seq<char>>, i: int, x: Seq<char>, rest: Seq<Seq<char>>)
    requires
        0 <= i <= ls.len(),
        ls.skip(i) == seq![x] + rest,
    ensures
        i < ls.len(),
        ls[i] == x,
        ls.skip(i + 1) == rest,
{
    assert((seq![x] + rest).len() >= 1);
    assert(ls.skip(i).len() == ls.len() - i);
    assert(ls.skip(i)[0] == ls[i]);
    assert(ls.skip(i).skip(1) == ls.skip(i + 1));
    assert((seq![x] + rest).skip(1) == rest);
}

impl Document {
    /// Reads a document.
    pub fn parse(input: &str) -> (r: Result<Document, ToonError>)
        ensures
            match r {
                Ok(document) => parse_spec(input@) == Ok::<
                    Seq<(Seq<char>, EntryView)>,
                    ToonErrorView,
                >(document@),
                Err(e) => parse_spec(input@) == Err::<Seq<(Seq<char>, EntryView)>, ToonErrorView>(
                    e@,
                ),
            },
    {
        let v = chars_of(input);
        let n = v.len();
        let ghost ls = lines(v@);
        let mut state = ParseState { entries: Vec::new(), sections: Vec::new(), open: None };
        assert(entries_view(state.entries@) == Seq::<(Seq<char>, EntryView)>::empty());
        assert(sections_view(state.sections@) == Seq::<(nat, Seq<char>)>::empty());
        assert(state@ == (ParseView { entries: Seq::empty(), sections: Seq::empty(), open: None }));
        assert(v@.subrange(0, n as int) == v@);
        let mut pos: usize = 0;
        let mut line: usize = 0;
        while pos < n
            invariant
                pos <= n == v.len(),
                v@ == input@,
                line <= pos,
                ls == lines(v@),
                line <= ls.len(),
                lines(v@.subrange(pos as int, n as int)) == ls.skip(line as int),
                parse_spec(v@) == parse_lines(ls, line as nat, state@),
            decreases n - pos,
        {
            let ghost rest = v@.subrange(pos as int, n as int);
            let (line_end, next) = match find_char_in(&v, pos, n, '\n') {
                Some(k) => {
                    let e = if k > pos && v[k - 1] == '\r' {
                        k - 1
                    } else {
                        k
                    };
                    proof {
                        lemma_next_line_found(v@, pos as int, k as int, e as int);
                    }
                    (e, k + 1)
                },
                None => {
                    proof {
                        lemma_next_line_last(v@, pos as int);
                    }
                    (n, n)
                },
            };
            proof {
                lemma_skip_cons(ls, line as int, v@.subrange(pos as int, line_end as int), lines(
                    v@.subrange(next as int, n as int),
                ));
            }
            let ghost before = state@;
            line = line + 1;
            match state.step(line, &v, pos, line_end) {
                Ok(()) => {},
                Err(e) => {
                    assert(parse_lines(ls, (line - 1) as nat, before) == Err::<
                        Seq<(Seq<char>, EntryView)>,
                        ToonErrorView,
                    >(e@));
                    return Err(e);
                },
            }
            pos = next;
        }
        proof {
            assert(v@.subrange(n as int, n as int) == Seq::<char>::empty());
            assert(lines(Seq::<char>::empty()) == Seq::<Seq<char>>::empty());
        }
        match state.open.take() {
            Some(opened) => {
                let closed = opened.close(line)?;
                state.push_entry(closed);
            },
            None => {},
        }
        Ok(Document { entries: state.entries })
    }
}


/// The first scalar whose key ends in the component `key`.
pub open spec fn find_scalar(entries: Seq<(Seq<char>, EntryView)>, key: Seq<char>) -> Option<Seq<char>>
    decreases entries.len(),
{
    if entries.len() == 0 {
        None
    } else {
        match entries[0].1 {
            EntryView::Scalar(value) if leaf_spec(entries[0].0) == key => Some(value),
            _ => find_scalar(entries.drop_first(), key),
        }
    }
}

/// The first list whose key ends in the component `key`.
pub open spec fn find_rows(entries: Seq<(Seq<char>, EntryView)>, key: Seq<char>) -> Option<Seq<Seq<char>>>
    decreases entries.len(),
{
    if entries.len() == 0 {
        None
    } else {
        match entries[0].1 {
            EntryView::Rows(rows) if leaf_spec(entries[0].0) == key => Some(rows),
            _ => find_rows(entries.drop_first(), key),
        }
    }
}

/// The first table whose key ends in the component `key`: its columns and rows.
pub open spec fn find_table(entries: Seq<(Seq<char>, EntryView)>, key: Seq<char>) -> Option<
    (Seq<Seq<char>>, Seq<Seq<Seq<char>>>),
>
    decreases entries.len(),
{
    if entries.len() == 0 {
        None
    } else {
        match entries[0].1 {
            EntryView::Table { columns, rows } if leaf_spec(entries[0].0) == key => Some(
                (columns, rows),
            ),
            _ => find_table(entries.drop_first(), key),
        }
    }
}

/// A character of a plain key: an ASCII letter or digit, `_` or `-`.
pub open spec fn is_plain_key_char(c: char) -> bool {
    ('a' <= c && c <= 'z') || ('A' <= c && c <= 'Z') || ('0' <= c && c <= '9') || c == '_' || c
        == '-'
}

/// The escaped form of a text holds no line break.
proof fn lemma_escaped_one_line(s: Seq<char>)
    ensures
        forall|k: int|
            0 <= k < escaped(s).len() ==> #[trigger] escaped(s)[k] != '\n' && escaped(s)[k]
                != '\r',
    decreases s.len(),
{
    if s.len() > 0 {
        let t = s.drop_first();
        lemma_escaped_one_line(t);
        let e = escape_char(s[0]);
        assert(escaped(s) == e + escaped(t));
        assert forall|k: int| 0 <= k < escaped(s).len() implies #[trigger] escaped(s)[k] != '\n'
            && escaped(s)[k] != '\r' by {
            if k >= e.len() {
                assert(escaped(s)[k] == escaped(t)[k - e.len()]);
            }
        }
    }
}

/// A text with no `c` in it has no last `c`.
proof fn lemma_rfind_char_absent(s: Seq<char>, c: char)
    requires
        forall|k: int| 0 <= k < s.len() ==> #[trigger] s[k] != c,
    ensures
        rfind_char(s, c) == -1,
    decreases s.len(),
{
    if s.len() > 0 {
        assert(s.last() == s[s.len() - 1]);
        assert forall|k: int| 0 <= k < s.drop_last().len() implies #[trigger] s.drop_last()[k]
            != c by {
            assert(s.drop_last()[k] == s[k]);
        }
        lemma_rfind_char_absent(s.drop_last(), c);
    }
}

/// The one-line document `key: written`, with a plain key and a value written on one
/// line that does not end in whitespace, holds the one scalar `key` with what `written`
/// reads as.
proof fn lemma_scalar_line_reads(key: Seq<char>, written: Seq<char>, value: Seq<char>)
    requires
        key.len() > 0,
        forall|i: int| 0 <= i < key.len() ==> is_plain_key_char(#[trigger] key[i]),
        written.len() > 0,
        forall|k: int| 0 <= k < written.len() ==> #[trigger] written[k] != '\n',
        !crate::text::is_ws(written.last()),
        unquote_spec(written, 1) == Ok::<Seq<char>, ToonErrorView>(value),
    ensures
        parse_spec(key + ": "@ + written) == Ok::<
            Seq<(Seq<char>, EntryView)>,
            ToonErrorView,
        >(seq![(key, EntryView::Scalar(value))]),
        find_scalar(seq![(key, EntryView::Scalar(value))], key) == Some(value),
{
    reveal_strlit(": ");
    let sep = seq![':', ' '];
    let input = key + ": "@ + written;
    assert(": "@ == sep);
    assert(input == key + sep + written);
    let kl = key.len() as int;
    assert forall|k: int| 0 <= k < input.len() implies #[trigger] input[k] != '\n' by {
        if k < kl {
            assert(input[k] == key[k]);
            assert(is_plain_key_char(key[k]));
        } else if k >= kl + 2 {
            assert(input[k] == written[k - kl - 2]);
        }
    }
    crate::text::lemma_find_char_range(input, '\n');
    assert(lines(input) == seq![input]);
    // The line is already trimmed, starts at column zero and is a scalar line.
    assert(input.last() == written.last());
    assert(trim_end(input) == input);
    assert(input[0] == key[0]);
    assert(is_plain_key_char(key[0]));
    assert(trim_start(input) == input);
    assert(trim(input) == input);
    assert(input.take(0) == Seq::<char>::empty());
    assert(indent_of(input) == 0);
    assert(crate::text::matches_at(input, sep, kl)) by {
        assert(input.subrange(kl, kl + 2) == sep);
    }
    assert forall|j: int| 0 <= j < kl implies !#[trigger] crate::text::matches_at(input, sep, j) by {
        assert(input[j] == key[j]);
        assert(is_plain_key_char(key[j]));
        if crate::text::matches_at(input, sep, j) {
            assert(input.subrange(j, j + 2)[0] == input[j]);
        }
    }
    crate::text::lemma_find_seq_at(input, sep, kl);
    assert(input.take(kl) == key);
    assert(input.skip(kl + 2) == written);
    let st0 = ParseView { entries: Seq::empty(), sections: Seq::empty(), open: None };
    let entries = seq![(key, EntryView::Scalar(value))];
    assert(Seq::<(Seq<char>, EntryView)>::empty().push((key, EntryView::Scalar(value)))
        == entries);
    let st1 = ParseView { entries, sections: Seq::empty(), open: None };
    assert(step_spec(st0, 1, input) == Ok::<ParseView, ToonErrorView>(st1));
    assert(parse_lines(seq![input], 1, st1) == Ok::<
        Seq<(Seq<char>, EntryView)>,
        ToonErrorView,
    >(entries));
    assert forall|k: int| 0 <= k < key.len() implies #[trigger] key[k] != '.' by {
        assert(is_plain_key_char(key[k]));
    }
    lemma_rfind_char_absent(key, '.');
    assert(leaf_spec(key) == key);
    assert(entries.drop_first() == Seq::<(Seq<char>, EntryView)>::empty());
}

/// A document of the one line `key: "…"`, with a plain key and any text quoted after
/// it, reads as the one scalar `key` whose value is that text: quoting a value and
/// reading the document back gives the value unchanged.
pub proof fn lemma_quoted_scalar_reads_back(key: Seq<char>, value: Seq<char>)
    requires
        key.len() > 0,
        forall|i: int| 0 <= i < key.len() ==> is_plain_key_char(#[trigger] key[i]),
    ensures
        parse_spec(key + ": "@ + quoted(value)) == Ok::<
            Seq<(Seq<char>, EntryView)>,
            ToonErrorView,
        >(seq![(key, EntryView::Scalar(value))]),
        find_scalar(seq![(key, EntryView::Scalar(value))], key) == Some(value),
{
    let q = quoted(value);
    lemma_escaped_one_line(value);
    assert forall|k: int| 0 <= k < q.len() implies #[trigger] q[k] != '\n' by {
        if 1 <= k < q.len() - 1 {
            assert(q[k] == escaped(value)[k - 1]);
        }
    }
    assert(q.last() == '"');
    lemma_unquote_quoted(value, 1);
    lemma_scalar_line_reads(key, q, value);
}

/// A document of the one line `key: value`, with a plain key and a bare value (one that
/// does not open with a quote, holds no line break and does not end in whitespace),
/// reads as the one scalar `key` whose value is exactly that text.
pub proof fn lemma_bare_scalar_reads_back(key: Seq<char>, value: Seq<char>)
    requires
        key.len() > 0,
        forall|i: int| 0 <= i < key.len() ==> is_plain_key_char(#[trigger] key[i]),
        value.len() > 0,
        value[0] != '"',
        forall|k: int| 0 <= k < value.len() ==> #[trigger] value[k] != '\n',
        !crate::text::is_ws(value.last()),
    ensures
        parse_spec(key + ": "@ + value) == Ok::<
            Seq<(Seq<char>, EntryView)>,
            ToonErrorView,
        >(seq![(key, EntryView::Scalar(value))]),
        find_scalar(seq![(key, EntryView::Scalar(value))], key) == Some(value),
{
    lemma_scalar_line_reads(key, value, value);
}

impl Document {
    /// The value of the first scalar whose key ends in `key`.
    pub fn scalar(&self, key: &str) -> (r: Option<&str>)
        ensures
            match r {
                Some(value) => find_scalar(self@, key@) == Some(value@),
                None => find_scalar(self@, key@) is None,
            },
    {
        let mut i: usize = 0;
        assert(self@.skip(0) == self@);
        while i < self.entries.len()
            invariant
                i <= self.entries.len(),
                find_scalar(self@, key@) == find_scalar(self@.skip(i as int), key@),
            decreases self.entries.len() - i,
        {
            let ghost rest = self@.skip(i as int);
            assert(rest[0] == self@[i as int]);
            assert(rest.drop_first() == self@.skip(i + 1));
            match &self.entries[i].1 {
                Entry::Scalar(value) => {
                    if str_eq(leaf(self.entries[i].0.as_str()), key) {
                        return Some(value.as_str());
                    }
                },
                _ => {},
            }
            i = i + 1;
        }
        None
    }

    /// The rows of the first list whose key ends in `key`.
    pub fn rows(&self, key: &str) -> (r: Option<&[String]>)
        ensures
            match r {
                Some(rows) => find_rows(self@, key@) == Some(rows.deep_view()),
                None => find_rows(self@, key@) is None,
            },
    {
        let mut i: usize = 0;
        assert(self@.skip(0) == self@);
        while i < self.entries.len()
            invariant
                i <= self.entries.len(),
                find_rows(self@, key@) == find_rows(self@.skip(i as int), key@),
            decreases self.entries.len() - i,
        {
            let ghost rest = self@.skip(i as int);
            assert(rest[0] == self@[i as int]);
            assert(rest.drop_first() == self@.skip(i + 1));
            match &self.entries[i].1 {
                Entry::Rows(rows) => {
                    if str_eq(leaf(self.entries[i].0.as_str()), key) {
                        return Some(rows.as_slice());
                    }
                },
                _ => {},
            }
            i = i + 1;
        }
        None
    }

    /// The first table whose key ends in `key`.
    pub fn table(&self, key: &str) -> (r: Option<Table<'_>>)
        ensures
            match r {
                Some(table) => find_table(self@, key@) == Some(
                    (table.columns.deep_view(), table.rows.deep_view()),
                ),
                None => find_table(self@, key@) is None,
            },
    {
        let mut i: usize = 0;
        assert(self@.skip(0) == self@);
        while i < self.entries.len()
            invariant
                i <= self.entries.len(),
                find_table(self@, key@) == find_table(self@.skip(i as int), key@),
            decreases self.entries.len() - i,
        {
            let ghost rest = self@.skip(i as int);
            assert(rest[0] == self@[i as int]);
            assert(rest.drop_first() == self@.skip(i + 1));
            match &self.entries[i].1 {
                Entry::Table { columns, rows } => {
                    if str_eq(leaf(self.entries[i].0.as_str()), key) {
                        return Some(Table { columns: columns.as_slice(), rows: rows.as_slice() });
                    }
                },
                _ => {},
            }
            i = i + 1;
        }
        None
    }

    /// The last key component of every entry, in order.
    pub fn keys(&self) -> (r: Vec<&str>)
        ensures
            r@.len() == self@.len(),
            forall|i: int| 0 <= i < r@.len() ==> (#[trigger] r@[i])@ == leaf_spec(self@[i].0),
    {
        let mut keys: Vec<&str> = Vec::new();
        let mut i: usize = 0;
        while i < self.entries.len()
            invariant
                i <= self.entries.len(),
                keys@.len() == i,
                forall|k: int| 0 <= k < i ==> (#[trigger] keys@[k])@ == leaf_spec(self@[k].0),
            decreases self.entries.len() - i,
        {
            keys.push(leaf(self.entries[i].0.as_str()));
            i = i + 1;
        }
        keys
    }
}

impl Table<'_> {
    /// The index of the column `name`.
    pub fn column(&self, name: &str) -> (r: Result<usize, ToonError>)
        ensures
            match r {
                Ok(i) => i < self.columns@.len() && self.columns@[i as int]@ == name@ && forall|
                    j: int,
                | 0 <= j < i ==> (#[trigger] self.columns@[j])@ != name@,
                Err(e) => (forall|j: int|
                    0 <= j < self.columns@.len() ==> (#[trigger] self.columns@[j])@ != name@)
                    && e@ == (ToonErrorView::MissingColumn {
                    key: name@,
                    columns: self.columns.deep_view(),
                }),
            },
    {
        let mut i: usize = 0;
        while i < self.columns.len()
            invariant
                i <= self.columns@.len(),
                forall|j: int| 0 <= j < i ==> (#[trigger] self.columns@[j])@ != name@,
            decreases self.columns@.len() - i,
        {
            if str_eq(self.columns[i].as_str(), name) {
                return Ok(i);
            }
            i = i + 1;
        }
        let mut columns: Vec<String> = Vec::new();
        let mut k: usize = 0;
        while k < self.columns.len()
            invariant
                k <= self.columns@.len(),
                columns@.len() == k,
                forall|j: int| 0 <= j < k ==> (#[trigger] columns@[j])@ == self.columns@[j]@,
            decreases self.columns@.len() - k,
        {
            columns.push(self.columns[k].clone());
            k = k + 1;
        }
        assert(columns.deep_view() == self.columns.deep_view());
        let mut key = String::new();
        push_str(&mut key, name);
        assert(key@ == name@);
        Err(ToonError::MissingColumn { key, columns })
    }
}

/// `{:?}` of a list of strings: the quoted strings, separated by `, `, in brackets.
pub open spec fn debug_list(items: Seq<Seq<char>>) -> Seq<char> {
    seq!['['] + debug_items(items) + seq![']']
}

pub open spec fn debug_items(items: Seq<Seq<char>>) -> Seq<char>
    decreases items.len(),
{
    if items.len() == 0 {
        Seq::empty()
    } else if items.len() == 1 {
        debug_quoted(items[0])
    } else {
        debug_items(items.drop_last()) + ", "@ + debug_quoted(items.last())
    }
}

fn push_debug_list(s: &mut String, items: &Vec<String>)
    ensures
        final(s)@ == old(s)@ + debug_list(strings_view(items@)),
{
    let ghost start = s@;
    push_char(s, '[');
    let mut i: usize = 0;
    while i < items.len()
        invariant
            i <= items@.len(),
            s@ == start + seq!['['] + debug_items(strings_view(items@.take(i as int))),
        decreases items@.len() - i,
    {
        if i > 0 {
            push_str(s, ", ");
        }
        let quoted = debug_str(items[i].as_str());
        push_string(s, &quoted);
        proof {
            let next = strings_view(items@.take(i + 1));
            assert(next.drop_last() == strings_view(items@.take(i as int)));
            assert(next.last() == items@[i as int]@);
        }
        i += 1;
    }
    push_char(s, ']');
    assert(items@.take(items@.len() as int) == items@);
}

/// The message shown for an error.
pub open spec fn toon_message(e: ToonErrorView) -> Seq<char> {
    match e {
        ToonErrorView::Unreadable(text) => "unreadable line "@ + debug_quoted(text),
        ToonErrorView::UnterminatedQuote { line } => "line "@ + decimal(line)
            + " opens a quote it never closes"@,
        ToonErrorView::TrailingCharacters { line, text } => "line "@ + decimal(line)
            + " has text after the closing quote: "@ + debug_quoted(text),
        ToonErrorView::UnknownEscape { line, escape } => "line "@ + decimal(line)
            + " uses the unknown escape "@ + debug_quoted(escape),
        ToonErrorView::RowCount { key, expected, found, line } => key + " announces "@ + decimal(
            expected,
        ) + " rows but line "@ + decimal(line) + " ends it with "@ + decimal(found),
        ToonErrorView::ColumnCount { key, expected, found, line } => key + " row on line "@
            + decimal(line) + " has "@ + decimal(found) + " fields where "@ + decimal(expected)
            + " were announced"@,
        ToonErrorView::MissingColumn { key, columns } => "no "@ + key
            + " column in the announced columns "@ + debug_list(columns),
    }
}

impl ToonError {
    /// The message shown for this error.
    pub open spec fn message_spec(&self) -> Seq<char> {
        toon_message(self@)
    }

    pub fn message(&self) -> (r: String)
        ensures
            r@ == self.message_spec(),
    {
        let mut r = String::new();
        match self {
            ToonError::Unreadable(text) => {
                push_str(&mut r, "unreadable line ");
                let quoted = debug_str(text.as_str());
                push_string(&mut r, &quoted);
            },
            ToonError::UnterminatedQuote { line } => {
                push_str(&mut r, "line ");
                push_decimal(&mut r, *line as u64);
                push_str(&mut r, " opens a quote it never closes");
            },
            ToonError::TrailingCharacters { line, text } => {
                push_str(&mut r, "line ");
                push_decimal(&mut r, *line as u64);
                push_str(&mut r, " has text after the closing quote: ");
                let quoted = debug_str(text.as_str());
                push_string(&mut r, &quoted);
            },
            ToonError::UnknownEscape { line, escape } => {
                push_str(&mut r, "line ");
                push_decimal(&mut r, *line as u64);
                push_str(&mut r, " uses the unknown escape ");
                let quoted = debug_str(escape.as_str());
                push_string(&mut r, &quoted);
            },
            ToonError::RowCount { key, expected, found, line } => {
                push_string(&mut r, key);
                push_str(&mut r, " announces ");
                push_decimal(&mut r, *expected as u64);
                push_str(&mut r, " rows but line ");
                push_decimal(&mut r, *line as u64);
                push_str(&mut r, " ends it with ");
                push_decimal(&mut r, *found as u64);
            },
            ToonError::ColumnCount { key, expected, found, line } => {
                push_string(&mut r, key);
                push_str(&mut r, " row on line ");
                push_decimal(&mut r, *line as u64);
                push_str(&mut r, " has ");
                push_decimal(&mut r, *found as u64);
                push_str(&mut r, " fields where ");
                push_decimal(&mut r, *expected as u64);
                push_str(&mut r, " were announced");
            },
            ToonError::MissingColumn { key, columns } => {
                push_str(&mut r, "no ");
                push_string(&mut r, key);
                push_str(&mut r, " column in the announced columns ");
                push_debug_list(&mut r, columns);
                assert(strings_view(columns@) == columns.deep_view());
            },
        }
        r
    }
}

} // verus!
