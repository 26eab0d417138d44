//! The outside world that installing the agent works on, handed in by the
//! caller: the files it reads and writes, and the programs it runs.
use crate::cmux::{checked, first_nonblank};
use crate::error::Error;
use crate::text::lines;
use vstd::prelude::*;

verus! {

/// What a finished program reports.
#[derive(Clone, Debug)]
pub struct Output {
    /// It exited with status 0.
    pub success: bool,
    /// Its standard output, as text.
    pub stdout: String,
    /// Its error output, as text.
    pub stderr: String,
}

/// What is put at a path.
#[derive(Debug)]
pub enum Contents {
    /// A directory, with its missing parents.
    Directory,
    /// A text file, replacing the file there at once.
    Text(String),
    /// A JSON document, written pretty with a final newline, replacing the
    /// file there at once and keeping its permissions.
    Json(serde_json::Value),
    /// A copy of the file at the path given, with its permissions, replacing
    /// the file there at once.
    CopyOf(String),
}

/// The files: `read` gives a file's bytes (`None` where there is no such
/// file), `exists` tells whether anything is at a path, `place` puts
/// contents at a path, and `remove` removes a file, or a directory with all
/// it holds where `recursive` (a missing one is no error).
pub struct Files<Read, Exists, Place, Remove> {
    pub read: Read,
    pub exists: Exists,
    pub place: Place,
    pub remove: Remove,
}

/// The programs: `run` runs a program with arguments and waits for it,
/// `sleep` waits a number of milliseconds, and `clock` reads a monotonic
/// clock in milliseconds.
pub struct Processes<Run, Sleep, Clock> {
    pub run: Run,
    pub sleep: Sleep,
    pub clock: Clock,
}

/// Every call of the files is allowed.
pub open spec fn files_ready<
    Read: Fn(String) -> Result<Option<Vec<u8>>, Error>,
    Exists: Fn(String) -> bool,
    Place: Fn(String, Contents) -> Result<(), Error>,
    Remove: Fn(String, bool) -> Result<(), Error>,
>(files: &Files<Read, Exists, Place, Remove>) -> bool {
    &&& forall|p: String| files.read.requires((p,))
    &&& forall|p: String| files.exists.requires((p,))
    &&& forall|p: String, c: Contents| files.place.requires((p, c))
    &&& forall|p: String, recursive: bool| files.remove.requires((p, recursive))
}

/// Every call of the programs is allowed.
pub open spec fn processes_ready<
    Run: Fn(String, Vec<String>) -> Result<Output, Error>,
    Sleep: Fn(u64),
    Clock: Fn() -> u64,
>(processes: &Processes<Run, Sleep, Clock>) -> bool {
    &&& forall|program: String, args: Vec<String>| processes.run.requires((program, args))
    &&& forall|ms: u64| processes.sleep.requires((ms,))
    &&& processes.clock.requires(())
}

/// The views of a list of texts.
pub open spec fn arg_views(args: Seq<String>) -> Seq<Seq<char>> {
    args.map_values(|a: String| a@)
}

/// `program`, run with `args`, gave `answer`.
pub open spec fn answered<
    Run: Fn(String, Vec<String>) -> Result<Output, Error>,
    Sleep: Fn(u64),
    Clock: Fn() -> u64,
>(
    processes: &Processes<Run, Sleep, Clock>,
    program: Seq<char>,
    args: Seq<Seq<char>>,
    answer: Result<Output, Error>,
) -> bool {
    exists|p: String, a: Vec<String>|
        #[trigger] processes.run.ensures((p, a), answer) && p@ == program && arg_views(a@) == args
}

/// Running `program` with `args` failed with `error`: the run itself
/// failed with it, or the program failed and `error` holds the first
/// nonblank line of its error output (or `command failed`).
pub open spec fn run_failed<
    Run: Fn(String, Vec<String>) -> Result<Output, Error>,
    Sleep: Fn(u64),
    Clock: Fn() -> u64,
>(
    processes: &Processes<Run, Sleep, Clock>,
    program: Seq<char>,
    args: Seq<Seq<char>>,
    error: Error,
) -> bool {
    exists|answer: Result<Output, Error>|
        #[trigger] answered(processes, program, args, answer) && match answer {
            Err(e) => e == error,
            Ok(out) => !out.success && error.0@ == first_nonblank(
                lines(out.stderr@),
                COMMAND_FAILED@,
            ),
        }
}

/// The fallback message of a failed program without error output.
pub const COMMAND_FAILED: &'static str = "command failed";

/// Runs a program and requires it to succeed: a failure is reported with
/// the first nonblank line of its error output.
pub fn run_checked<
    Run: Fn(String, Vec<String>) -> Result<Output, Error>,
    Sleep: Fn(u64),
    Clock: Fn() -> u64,
>(processes: &Processes<Run, Sleep, Clock>, program: &str, args: Vec<String>) -> (r: Result<
    Output,
    Error,
>)
    requires
        processes_ready(processes),
    ensures
        exists|p: String, a: Vec<String>, answer: Result<Output, Error>|
            #[trigger] processes.run.ensures((p, a), answer) && p@ == program@ && a@ == args@
                && match answer {
                Err(e) => r == Err::<Output, Error>(e),
                Ok(out) => if out.success {
                    r == Ok::<Output, Error>(out)
                } else {
                    r matches Err(e) && e.0@ == first_nonblank(lines(out.stderr@), COMMAND_FAILED@)
                },
            },
        r matches Ok(out) ==> out.success && exists|p: String, a: Vec<String>|
            #[trigger] processes.run.ensures((p, a), Ok::<Output, Error>(out)) && p@ == program@
                && a@ == args@,
        match r {
            Ok(out) => out.success && answered(processes, program@, arg_views(args@), Ok(out)),
            Err(e) => run_failed(processes, program@, arg_views(args@), e),
        },
{
    let ghost a = args;
    let p = program.to_owned();
    let ghost sent = p;
    let answer = (processes.run)(p, args);
    let ghost given = answer;
    assert(processes.run.ensures((sent, a), given));
    assert(answered(processes, program@, arg_views(a@), given));
    match answer {
        Err(e) => Err(e),
        Ok(out) => match checked(out.success, out.stderr.as_str(), COMMAND_FAILED) {
            Ok(()) => Ok(out),
            Err(e) => Err(e),
        },
    }
}

} // verus!
