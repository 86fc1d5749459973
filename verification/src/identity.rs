//! The identity a project is registered under: what its origin remote resolves to,
//! else the canonical path of its checkout.
use vstd::prelude::*;
use vstd::string::StrSliceExecFns;

use crate::text::{chars_of, push_str, starts_with, starts_with_in};

verus! {

/// The path `canonical` resolves for a value: a `file://` URL names the path after
/// its scheme, anything else names itself.
pub open spec fn canonical_target_spec(value: Seq<char>) -> Seq<char> {
    if starts_with(value, "file://"@) {
        value.skip(7)
    } else {
        value
    }
}

pub fn canonical_target(value: &str) -> (r: &str)
    ensures
        r@ == canonical_target_spec(value@),
{
    let v = chars_of(value);
    let scheme = chars_of("file://");
    proof {
        reveal_strlit("file://");
    }
    assert(v@.subrange(0, v@.len() as int) == v@);
    if starts_with_in(&v, 0, v.len(), &scheme) {
        value.substring_char(7, v.len())
    } else {
        value
    }
}

/// The identity of a checkout in `directory`: the identity its origin resolves to when
/// it has one, else the canonical path of the directory, else the directory as given.
pub open spec fn identity_spec(
    directory: Seq<char>,
    origin_identity: Option<Seq<char>>,
    canonical_directory: Option<Seq<char>>,
) -> Seq<char> {
    match origin_identity {
        Some(identity) => identity,
        None => match canonical_directory {
            Some(path) => path,
            None => directory,
        },
    }
}

/// The identity of a checkout in `directory`, given what its origin resolved to and
/// what the directory canonicalised to (both `None` where that failed or was absent).
pub fn identity_for(
    directory: &str,
    origin_identity: Option<&str>,
    canonical_directory: Option<&str>,
) -> (r: String)
    ensures
        r@ == identity_spec(
            directory@,
            match origin_identity {
                Some(s) => Some(s@),
                None => None,
            },
            match canonical_directory {
                Some(s) => Some(s@),
                None => None,
            },
        ),
{
    let mut r = String::new();
    match origin_identity {
        Some(identity) => push_str(&mut r, identity),
        None => match canonical_directory {
            Some(path) => push_str(&mut r, path),
            None => push_str(&mut r, directory),
        },
    }
    r
}

} // verus!
