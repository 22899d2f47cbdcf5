//! The process supervisor's pure core.
//!
//! An external command is described by a [`ProcessInvocation`]; the caller
//! spawns it with no inherited stdin, pumps both output streams
//! concurrently, waits for exit, and then classifies the result here. The
//! functions in this module fix what the supervisor must log, how error
//! lines are marked, and which outcome each exit code produces — so that a
//! run that exited 0 is a success exactly, with its output relayed in
//! original order, and a non-zero exit surfaces as that exact code.

use vstd::prelude::*;

use crate::errors::Error;
use crate::strutil::{join_with, views_of};

verus! {

/// One external command: a program, its ordered arguments, and the working
/// directory it runs in (inherited when absent). Built fresh per command,
/// never reused.
#[derive(Clone, Debug)]
pub struct ProcessInvocation {
    pub program: String,
    pub args: Vec<String>,
    pub working_dir: Option<String>,
}

/// How the log line renders the working directory.
pub open spec fn dir_display(d: Option<Seq<char>>) -> Seq<char> {
    match d {
        Some(p) => "Some(\""@ + p + "\")"@,
        None => "None"@,
    }
}

impl ProcessInvocation {
    pub fn new(program: String, working_dir: Option<String>) -> (r: ProcessInvocation)
        ensures
            r.program == program,
            r.args@.len() == 0,
            r.working_dir == working_dir,
    {
        ProcessInvocation { program, args: Vec::new(), working_dir }
    }

    pub fn arg(&mut self, a: String)
        ensures
            final(self).program == old(self).program,
            final(self).working_dir == old(self).working_dir,
            final(self).args@ == old(self).args@.push(a),
    {
        self.args.push(a);
    }

    /// The single line the supervisor logs before spawning: the program,
    /// its arguments joined by spaces, and the working directory.
    pub fn log_line(&self) -> (r: String)
        ensures
            r@ == "Executing \""@ + self.program@ + " "@ + join_with(views_of(self.args@), ' ')
                + "\" in "@ + dir_display(crate::strutil::opt_view(self.working_dir)),
    {
        let joined = crate::strutil::join_strings(&self.args, ' ');
        let mut r = String::from_str("Executing \"");
        r.append(self.program.as_str());
        r.append(" ");
        r.append(joined.as_str());
        r.append("\" in ");
        proof {
            reveal_strlit(" ");
        }
        match &self.working_dir {
            Some(d) => {
                r.append("Some(\"");
                r.append(d.as_str());
                r.append("\")");
            },
            None => {
                r.append("None");
            },
        }
        r
    }
}

/// The outcome a finished process maps to: success exactly on exit code 0,
/// and the exact code otherwise.
pub fn exit_outcome(code: i32) -> (r: Result<(), Error>)
    ensures
        code == 0 <==> r is Ok,
        code != 0 ==> r == Err::<(), Error>(Error::NonZeroExit(code)),
{
    if code == 0 {
        Ok(())
    } else {
        Err(Error::NonZeroExit(code))
    }
}

/// How one line of the process's error stream is marked before it is
/// emitted.
pub fn stderr_tag(line: &str) -> (r: String)
    ensures
        r@ == "[ERROR] "@ + line@,
{
    crate::strutil::concat2("[ERROR] ", line)
}

/// The supervisor's completion step, given the exit code and both fully
/// drained streams: standard output is relayed verbatim in original order
/// with nothing lost, every error line is marked, and the outcome is
/// success exactly when the process exited 0, else the exact non-zero code.
pub fn complete_run(exit_code: i32, out_lines: Vec<String>, err_lines: Vec<String>) -> (r: (
    Vec<String>,
    Vec<String>,
    Result<(), Error>,
))
    ensures
        r.0@ == out_lines@,
        r.1@.len() == err_lines@.len(),
        forall|i: int|
            0 <= i < err_lines@.len() ==> views_of(r.1@)[i] == "[ERROR] "@ + err_lines@[i]@,
        exit_code == 0 <==> r.2 is Ok,
        exit_code != 0 ==> r.2 == Err::<(), Error>(Error::NonZeroExit(exit_code)),
{
    let mut marked: Vec<String> = Vec::new();
    let mut i: usize = 0;
    while i < err_lines.len()
        invariant
            i <= err_lines@.len(),
            marked@.len() == i,
            forall|j: int| 0 <= j < i ==> marked@[j]@ == "[ERROR] "@ + err_lines@[j]@,
        decreases err_lines@.len() - i,
    {
        let m = stderr_tag(err_lines[i].as_str());
        marked.push(m);
        i += 1;
    }
    proof {
        assert(forall|j: int|
            0 <= j < marked@.len() ==> #[trigger] views_of(marked@)[j] == marked@[j]@);
    }
    let outcome = exit_outcome(exit_code);
    (out_lines, marked, outcome)
}

} // verus!
