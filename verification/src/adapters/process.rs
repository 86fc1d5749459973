//! Running the programs depot drives: the command line it shows for a run, and what a
//! finished run's exit status means.
use vstd::prelude::*;

use crate::text::{
    push_char, push_signed, push_str, push_string, signed_decimal, texts, trim, trim_str, trimmed,
};

verus! {

/// A program depot runs, with the environment it adds to each run.
#[derive(Debug, Clone, PartialEq, Eq)]
pub struct Program {
    path: String,
    env: Vec<(String, String)>,
}

impl Program {
    pub closed spec fn path_spec(&self) -> Seq<char> {
        self.path@
    }

    pub closed spec fn env_spec(&self) -> Seq<(String, String)> {
        self.env@
    }

    pub fn new(path: &str) -> (r: Self)
        ensures
            r.path_spec() == path@,
            r.env_spec().len() == 0,
    {
        Program { path: path.to_string(), env: Vec::new() }
    }

    /// The same program with `key=value` added to the environment of its runs.
    pub fn with_env(self, key: &str, value: &str) -> (r: Self)
        ensures
            r.path_spec() == self.path_spec(),
            r.env_spec().len() == self.env_spec().len() + 1,
            forall|i: int| 0 <= i < self.env_spec().len() ==> r.env_spec()[i] == self.env_spec()[i],
            r.env_spec().last().0@ == key@,
            r.env_spec().last().1@ == value@,
    {
        let mut env = self.env;
        env.push((key.to_string(), value.to_string()));
        Program { path: self.path, env }
    }

    pub fn path(&self) -> (r: &str)
        ensures
            r@ == self.path_spec(),
    {
        self.path.as_str()
    }

    /// The environment added to each run, in the order it was given.
    pub fn env(&self) -> (r: &Vec<(String, String)>)
        ensures
            r@ == self.env_spec(),
    {
        &self.env
    }

    /// The program followed by its arguments, each after a space.
    pub open spec fn command_line_spec(&self, args: Seq<Seq<char>>) -> Seq<char>
        decreases args.len(),
    {
        if args.len() == 0 {
            self.path_spec()
        } else {
            self.command_line_spec(args.drop_last()) + seq![' '] + args.last()
        }
    }

    pub fn command_line(&self, args: &[String]) -> (r: String)
        ensures
            r@ == self.command_line_spec(texts(args@)),
    {
        let mut line = String::new();
        push_str(&mut line, self.path.as_str());
        let mut i: usize = 0;
        while i < args.len()
            invariant
                i <= args@.len(),
                line@ == self.command_line_spec(texts(args@.take(i as int))),
            decreases args@.len() - i,
        {
            push_char(&mut line, ' ');
            push_string(&mut line, &args[i]);
            assert(texts(args@.take(i + 1)).drop_last() == texts(args@.take(i as int)));
            i += 1;
        }
        assert(args@.take(args@.len() as int) == args@);
        line
    }
}

/// What a finished run left: its exit status (none when a signal ended it) and its
/// output, read as text.
#[derive(Debug, Clone, PartialEq, Eq)]
pub struct Output {
    pub status: Option<i32>,
    pub stdout: String,
    pub stderr: String,
}

impl Output {
    pub fn succeeded(&self) -> (r: bool)
        ensures
            r == (self.status == Some(0i32)),
    {
        match self.status {
            Some(code) => code == 0,
            None => false,
        }
    }

    pub fn stdout_trimmed(&self) -> (r: &str)
        ensures
            r@ == trim(self.stdout@),
    {
        trim_str(self.stdout.as_str())
    }
}

/// Why a run failed.
#[derive(Debug, Clone, PartialEq, Eq)]
pub enum ProcessError {
    /// The program could not be started; `detail` is what the system said.
    Spawn { program: String, detail: String },
    /// The program ran and did not succeed.
    Failed { command: String, status: Option<i32>, stderr: String },
}

impl ProcessError {
    pub open spec fn message_spec(&self) -> Seq<char> {
        match self {
            ProcessError::Spawn { program, detail } => "could not run "@ + program@ + ": "@
                + detail@,
            ProcessError::Failed { command, status, stderr } => {
                let ending = if stderr@.len() == 0 {
                    Seq::empty()
                } else {
                    ": "@ + stderr@
                };
                match status {
                    Some(code) => command@ + " exited with status "@ + signed_decimal(
                        *code as int,
                    ) + ending,
                    None => command@ + " was killed by a signal"@ + ending,
                }
            },
        }
    }

    pub fn message(&self) -> (r: String)
        ensures
            r@ == self.message_spec(),
    {
        let mut r = String::new();
        match self {
            ProcessError::Spawn { program, detail } => {
                push_str(&mut r, "could not run ");
                push_string(&mut r, program);
                push_str(&mut r, ": ");
                push_string(&mut r, detail);
            },
            ProcessError::Failed { command, status, stderr } => {
                push_string(&mut r, command);
                match status {
                    Some(code) => {
                        push_str(&mut r, " exited with status ");
                        push_signed(&mut r, *code as i64);
                    },
                    None => {
                        push_str(&mut r, " was killed by a signal");
                    },
                }
                if !stderr.as_str().is_empty() {
                    push_str(&mut r, ": ");
                    push_string(&mut r, stderr);
                }
            },
        }
        r
    }
}

/// The output of a run of `command`, or the error of a run that did not succeed, quoting
/// its trimmed standard error.
pub fn checked_output(command: String, output: Output) -> (r: Result<Output, ProcessError>)
    ensures
        output.status == Some(0i32) ==> r == Ok::<Output, ProcessError>(output),
        output.status != Some(0i32) ==> (r matches Err(
            ProcessError::Failed { command: c, status, stderr },
        ) && c@ == command@ && status == output.status && stderr@ == trim(output.stderr@)),
{
    if output.succeeded() {
        Ok(output)
    } else {
        let stderr = trimmed(output.stderr.as_str());
        Err(ProcessError::Failed { command, status: output.status, stderr })
    }
}

} // verus!
