//! Prepared commands and the classification of what running one produced.
//!
//! The library never spawns a process.  It hands the frontend a [`Cmd`]
//! with an exact contract over the argument vector; the frontend runs it
//! and feeds the captured [`Output`] back into verified code.
use vstd::prelude::*;

verus! {

/// A prepared command line: the program to execute and its arguments.
pub struct Cmd {
    pub program: String,
    pub args: Vec<String>,
}

impl Cmd {
    /// The arguments as a sequence of character sequences.
    pub open spec fn args_view(&self) -> Seq<Seq<char>> {
        self.args.deep_view()
    }

    pub fn new(program: &str) -> (r: Cmd)
        ensures
            r.program@ == program@,
            r.args_view() == Seq::<Seq<char>>::empty(),
    {
        let r = Cmd { program: program.to_owned(), args: Vec::new() };
        proof {
            assert(r.args_view() =~= Seq::<Seq<char>>::empty());
        }
        r
    }

    pub fn arg(&mut self, a: &str)
        ensures
            final(self).program == old(self).program,
            final(self).args_view() == old(self).args_view().push(a@),
    {
        let ghost before = self.args.deep_view();
        self.args.push(a.to_owned());
        proof {
            assert(self.args.deep_view() =~~= before.push(a@));
        }
    }

    pub fn arg_string(&mut self, a: String)
        ensures
            final(self).program == old(self).program,
            final(self).args_view() == old(self).args_view().push(a@),
    {
        let ghost before = self.args.deep_view();
        let ghost av = a@;
        self.args.push(a);
        proof {
            assert(self.args.deep_view() =~~= before.push(av));
        }
    }
}

/// What running a child process produced: its exit code (`None` when it
/// was ended by a signal) and the captured output channels.
#[derive(Debug)]
pub struct Output {
    pub code: Option<i32>,
    pub stdout: Vec<u8>,
    pub stderr: Vec<u8>,
}

impl Output {
    /// A child succeeded exactly when it exited with status zero.
    pub open spec fn is_success(&self) -> bool {
        self.code == Some(0i32)
    }

    pub fn success(&self) -> (r: bool)
        ensures
            r == self.is_success(),
    {
        match self.code {
            Some(c) => c == 0,
            None => false,
        }
    }
}

/// Why a child process run did not succeed.
#[derive(Debug)]
pub enum ProcessError {
    /// The command could not be spawned; holds the OS error text.
    IO(String),
    /// The command ran but exited with a non-zero status.
    ExecutionError(Output),
}

/// A failed child process run together with the argument vector that was
/// used, the most useful diagnostic of the whole system.
#[derive(Debug)]
pub struct CommandError {
    pub base: ProcessError,
    pub args: Vec<String>,
}

impl CommandError {
    pub fn new(base: ProcessError) -> (r: CommandError)
        ensures
            r.base == base,
            r.args@.len() == 0,
    {
        CommandError { args: Vec::new(), base }
    }
}

/// Classify what running a prepared command produced.
///
/// A successful exit passes the output through; a non-zero exit and a
/// spawn failure are both folded into a [`CommandError`] that carries the
/// argument vector of the attempted call.
pub fn handle_output(maybe_output: Result<Output, String>, args: &Vec<String>) -> (r: Result<
    Output,
    CommandError,
>)
    ensures
        match maybe_output {
            Ok(o) => {
                &&& o.is_success() ==> r == Ok::<Output, CommandError>(o)
                &&& !o.is_success() ==> (r matches Err(e) && e.base matches
                    ProcessError::ExecutionError(oe) && oe == o && e.args.deep_view()
                    == args.deep_view())
            },
            Err(m) => r matches Err(e) && e.base matches ProcessError::IO(ms) && ms == m
                && e.args.deep_view() == args.deep_view(),
        },
{
    let args_copy = clone_string_vec(args);
    match maybe_output {
        Ok(output) => {
            if output.success() {
                Ok(output)
            } else {
                Err(CommandError { base: ProcessError::ExecutionError(output), args: args_copy })
            }
        },
        Err(error) => Err(CommandError { base: ProcessError::IO(error), args: args_copy }),
    }
}

/// Copy a vector of strings, preserving its character-level view.
pub fn clone_string_vec(v: &Vec<String>) -> (r: Vec<String>)
    ensures
        r.deep_view() == v.deep_view(),
{
    let mut r: Vec<String> = Vec::new();
    let mut i: usize = 0;
    while i < v.len()
        invariant
            i <= v@.len(),
            r.deep_view() == v.deep_view().subrange(0, i as int),
        decreases v@.len() - i,
    {
        let ghost before = r.deep_view();
        r.push(v[i].as_str().to_owned());
        proof {
            assert(r.deep_view() =~~= before.push(v.deep_view()[i as int]));
            assert(r.deep_view() =~~= v.deep_view().subrange(0, i + 1 as int));
        }
        i += 1;
    }
    proof {
        assert(v.deep_view().subrange(0, v.deep_view().len() as int) =~= v.deep_view());
    }
    r
}

} // verus!
