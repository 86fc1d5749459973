//! What a build says about itself.
use vstd::prelude::*;

use crate::text::{push_str};

verus! {

/// The line `--version` prints: the program, its version and the build it comes from.
pub open spec fn version_line_spec(program: Seq<char>, version: Seq<char>, build_id: Seq<char>) -> Seq<char> {
    program + seq![' '] + version + " (build "@ + build_id + seq![')']
}

pub fn version_line(program: &str, version: &str, build_id: &str) -> (r: String)
    ensures
        r@ == version_line_spec(program@, version@, build_id@),
{
    let mut r = String::new();
    push_str(&mut r, program);
    crate::text::push_char(&mut r, ' ');
    push_str(&mut r, version);
    push_str(&mut r, " (build ");
    push_str(&mut r, build_id);
    crate::text::push_char(&mut r, ')');
    r
}

} // verus!
