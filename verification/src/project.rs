//! Registered projects and how their location is recorded.
use vstd::prelude::*;

use crate::error::Error;
use crate::records::Timestamp;
use crate::text::{push_str, str_eq};

verus! {

/// Whether a project was registered from a local path or from a URL.
#[derive(Debug, Clone, Copy, PartialEq, Eq)]
pub enum LocationKind {
    Path,
    Url,
}

/// The name a location kind is stored under.
pub open spec fn location_kind_name(kind: LocationKind) -> Seq<char> {
    match kind {
        LocationKind::Path => "path"@,
        LocationKind::Url => "url"@,
    }
}

impl LocationKind {
    pub fn name(self) -> (r: &'static str)
        ensures
            r@ == location_kind_name(self),
    {
        match self {
            LocationKind::Path => "path",
            LocationKind::Url => "url",
        }
    }

    /// The location kind stored under `name`; any other name is a schema error.
    pub fn from_name(name: &str) -> (r: Result<LocationKind, Error>)
        ensures
            name@ == "path"@ ==> r == Ok::<LocationKind, Error>(LocationKind::Path),
            name@ == "url"@ ==> r == Ok::<LocationKind, Error>(LocationKind::Url),
            name@ != "path"@ && name@ != "url"@ ==> (r matches Err(Error::Schema(m)) && m@
                == "unknown project location kind `"@ + name@ + "`"@),
    {
        proof {
            reveal_strlit("path");
            reveal_strlit("url");
            assert("path"@.len() != "url"@.len());
        }
        if str_eq(name, "path") {
            Ok(LocationKind::Path)
        } else if str_eq(name, "url") {
            Ok(LocationKind::Url)
        } else {
            let mut m = String::new();
            push_str(&mut m, "unknown project location kind `");
            push_str(&mut m, name);
            push_str(&mut m, "`");
            Err(Error::Schema(m))
        }
    }
}

/// A registered project.
#[derive(Debug, Clone, PartialEq, Eq)]
pub struct Project {
    pub id: String,
    pub kind: LocationKind,
    pub slug: String,
    pub created_at: Timestamp,
}

/// A local clone of a project.
#[derive(Debug, Clone, PartialEq, Eq)]
pub struct ProjectClone {
    pub project: String,
    pub path: String,
    pub origin: Option<String>,
}

/// Reading a kind back from the name it is stored under gives that kind.
pub proof fn lemma_location_kind_round_trip(kind: LocationKind)
    ensures
        location_kind_name(kind) == "path"@ ==> kind == LocationKind::Path,
        location_kind_name(kind) == "url"@ ==> kind == LocationKind::Url,
        location_kind_name(kind) == "path"@ || location_kind_name(kind) == "url"@,
{
    reveal_strlit("path");
    reveal_strlit("url");
    assert("path"@ != "url"@) by {
        assert("path"@.len() != "url"@.len());
    }
}

} // verus!
