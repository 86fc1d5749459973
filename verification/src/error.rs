//! The errors the daemon reports, each carrying the message it shows.
use vstd::prelude::*;

use crate::text::push_str;

verus! {

/// Why an operation failed. The outside failures (I/O, the database, the settings
/// codec) arrive as the text of the error that caused them.
#[derive(Debug, Clone, PartialEq, Eq)]
pub enum Error {
    Io(String),
    Database { message: String, lock_contention: bool },
    ConfigDecode(String),
    ConfigEncode(String),
    Home(String),
    Project(String),
    Config(String),
    Template(String),
    Schema(String),
    NotFound(String),
}

pub type Result<T> = std::result::Result<T, Error>;

pub enum ErrorKind {
    Io,
    Database,
    ConfigDecode,
    ConfigEncode,
    Home,
    Project,
    Config,
    Template,
    Schema,
    NotFound,
}

impl Error {
    pub open spec fn kind(&self) -> ErrorKind {
        match self {
            Error::Io(_) => ErrorKind::Io,
            Error::Database { .. } => ErrorKind::Database,
            Error::ConfigDecode(_) => ErrorKind::ConfigDecode,
            Error::ConfigEncode(_) => ErrorKind::ConfigEncode,
            Error::Home(_) => ErrorKind::Home,
            Error::Project(_) => ErrorKind::Project,
            Error::Config(_) => ErrorKind::Config,
            Error::Template(_) => ErrorKind::Template,
            Error::Schema(_) => ErrorKind::Schema,
            Error::NotFound(_) => ErrorKind::NotFound,
        }
    }

    /// The text this error carries.
    pub open spec fn detail(&self) -> Seq<char> {
        match self {
            Error::Io(m) => m@,
            Error::Database { message, .. } => message@,
            Error::ConfigDecode(m) => m@,
            Error::ConfigEncode(m) => m@,
            Error::Home(m) => m@,
            Error::Project(m) => m@,
            Error::Config(m) => m@,
            Error::Template(m) => m@,
            Error::Schema(m) => m@,
            Error::NotFound(m) => m@,
        }
    }

    /// The message shown for this error.
    pub open spec fn message_spec(&self) -> Seq<char> {
        match self {
            Error::Database { message, .. } => "database error: "@ + message@,
            Error::ConfigDecode(m) => "invalid configuration: "@ + m@,
            Error::ConfigEncode(m) => "could not encode configuration: "@ + m@,
            Error::Template(m) => "template error: "@ + m@,
            Error::Schema(m) => "store schema error: "@ + m@,
            _ => self.detail(),
        }
    }

    pub fn message(&self) -> (r: String)
        ensures
            r@ == self.message_spec(),
    {
        let mut out = String::new();
        match self {
            Error::Io(m) => push_str(&mut out, m.as_str()),
            Error::Database { message, .. } => {
                push_str(&mut out, "database error: ");
                push_str(&mut out, message.as_str());
            },
            Error::ConfigDecode(m) => {
                push_str(&mut out, "invalid configuration: ");
                push_str(&mut out, m.as_str());
            },
            Error::ConfigEncode(m) => {
                push_str(&mut out, "could not encode configuration: ");
                push_str(&mut out, m.as_str());
            },
            Error::Home(m) => push_str(&mut out, m.as_str()),
            Error::Project(m) => push_str(&mut out, m.as_str()),
            Error::Config(m) => push_str(&mut out, m.as_str()),
            Error::Template(m) => {
                push_str(&mut out, "template error: ");
                push_str(&mut out, m.as_str());
            },
            Error::Schema(m) => {
                push_str(&mut out, "store schema error: ");
                push_str(&mut out, m.as_str());
            },
            Error::NotFound(m) => push_str(&mut out, m.as_str()),
        }
        out
    }

    /// Whether the database was busy or locked, so that the operation may be retried.
    pub fn is_lock_contention(&self) -> (b: bool)
        ensures
            b == (match self {
                Error::Database { lock_contention, .. } => *lock_contention,
                _ => false,
            }),
    {
        match self {
            Error::Database { lock_contention, .. } => *lock_contention,
            _ => false,
        }
    }

    pub fn is_project(&self) -> (b: bool)
        ensures
            b == (self.kind() is Project),
    {
        match self {
            Error::Project(_) => true,
            _ => false,
        }
    }

    /// Whether the error ends the task rather than the tick: a bad configuration or
    /// template.
    pub fn is_task_fatal(&self) -> (b: bool)
        ensures
            b == (self.kind() is Config || self.kind() is Template),
    {
        match self {
            Error::Config(_) | Error::Template(_) => true,
            _ => false,
        }
    }
}

/// SQLite's primary result code for a busy database.
pub const SQLITE_BUSY: i32 = 5;

/// SQLite's primary result code for a locked table.
pub const SQLITE_LOCKED: i32 = 6;

/// Whether a SQLite result code, primary or extended, says the database was busy or
/// locked: its low byte is the primary code.
pub open spec fn contention_code(code: i32) -> bool {
    (code & 0xff) == SQLITE_BUSY || (code & 0xff) == SQLITE_LOCKED
}

/// The error a failed SQLite call gives, from its message and its result code; it is
/// lock contention when the code says busy or locked.
pub fn database_failure(message: String, code: i32) -> (e: Error)
    ensures
        e matches Error::Database { message: m, lock_contention } && m == message
            && lock_contention == contention_code(code),
{
    let primary = code & 0xff;
    Error::Database { message, lock_contention: primary == SQLITE_BUSY || primary == SQLITE_LOCKED }
}

} // verus!
