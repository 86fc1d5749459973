//! The daemon's command line: `--version`, and the projects `--project` narrows it to.
use vstd::prelude::*;

use crate::error::{Error, ErrorKind};
use crate::text::{push_str, str_eq, texts};

verus! {

pub const DAEMON_USAGE: &'static str = "depotd [--project <project>]... [--version]\n\n  --project narrows the daemon to one project. It is a debugging flag: the single\n  daemon lock means no other registered project is driven while it runs.\n  Without --project the daemon covers every registered project.\n";

/// Whether the first argument asks for the version.
pub fn asks_for_version(first: Option<&str>) -> (r: bool)
    ensures
        r == (first matches Some(a) && (a@ == "--version"@ || a@ == "-V"@)),
{
    match first {
        Some(a) => str_eq(a, "--version") || str_eq(a, "-V"),
        None => false,
    }
}

/// What the arguments after the program name come to: the projects named by each
/// `--project <name>` in order (none when there is no `--project`), or the refusal of a
/// `--project` without a value, of `--help`, or of any other argument.
pub open spec fn daemon_arguments_spec(args: Seq<Seq<char>>, named: Seq<Seq<char>>) -> Result<
    Seq<Seq<char>>,
    Seq<char>,
>
    decreases args.len(),
{
    if args.len() == 0 {
        Ok(named)
    } else if args[0] == "--project"@ {
        if args.len() < 2 {
            Err("--project needs a value\n"@ + DAEMON_USAGE@)
        } else {
            daemon_arguments_spec(args.skip(2), named.push(args[1]))
        }
    } else if args[0] == "--help"@ || args[0] == "-h"@ {
        Err(DAEMON_USAGE@)
    } else {
        Err("unknown argument `"@ + args[0] + "`\n"@ + DAEMON_USAGE@)
    }
}

/// The projects the daemon is narrowed to, if any.
pub fn daemon_arguments(args: &Vec<String>) -> (r: Result<Option<Vec<String>>, Error>)
    ensures
        match daemon_arguments_spec(texts(args@), Seq::empty()) {
            Ok(named) => r matches Ok(found) && if named.len() == 0 {
                found is None
            } else {
                found matches Some(v) && texts(v@) == named
            },
            Err(message) => r matches Err(e) && e.kind() == ErrorKind::Project && e.detail()
                == message,
        },
{
    let mut named: Vec<String> = Vec::new();
    let mut i: usize = 0;
    assert(texts(args@).skip(0) == texts(args@));
    assert(texts(named@) == Seq::<Seq<char>>::empty());
    while i < args.len()
        invariant
            i <= args@.len(),
            daemon_arguments_spec(texts(args@), Seq::empty()) == daemon_arguments_spec(
                texts(args@).skip(i as int),
                texts(named@),
            ),
        decreases args@.len() - i,
    {
        let ghost rest = texts(args@).skip(i as int);
        assert(rest[0] == args@[i as int]@);
        let argument = args[i].as_str();
        if str_eq(argument, "--project") {
            if i + 1 >= args.len() {
                let mut m = String::new();
                push_str(&mut m, "--project needs a value\n");
                push_str(&mut m, DAEMON_USAGE);
                return Err(Error::Project(m));
            }
            assert(rest[1] == args@[i + 1]@);
            assert(rest.skip(2) == texts(args@).skip(i + 2));
            let ghost before = named@;
            named.push(args[i + 1].clone());
            assert(texts(named@) == texts(before).push(args@[i + 1]@));
            i = i + 2;
        } else if str_eq(argument, "--help") || str_eq(argument, "-h") {
            let mut m = String::new();
            push_str(&mut m, DAEMON_USAGE);
            return Err(Error::Project(m));
        } else {
            let mut m = String::new();
            push_str(&mut m, "unknown argument `");
            push_str(&mut m, argument);
            push_str(&mut m, "`\n");
            push_str(&mut m, DAEMON_USAGE);
            return Err(Error::Project(m));
        }
    }
    assert(texts(args@).skip(i as int).len() == 0);
    if named.len() == 0 {
        Ok(None)
    } else {
        Ok(Some(named))
    }
}

/// The refusal to run a daemon with no project to drive.
pub fn no_projects_registered() -> (e: Error)
    ensures
        e.kind() == ErrorKind::Project,
        e.detail() == "no projects are registered; add one with `depot project add`"@,
{
    let mut m = String::new();
    push_str(&mut m, "no projects are registered; add one with `depot project add`");
    Error::Project(m)
}

} // verus!
