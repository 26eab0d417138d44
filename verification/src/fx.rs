//! The prompt of `fx-line` for the `fx ask` command line tool.
use crate::error::Error;
use crate::json::{json_quote, quote};
use crate::model::{finish, result_view, spec_finish, LINE_TIMEOUT_SECS};
use crate::output::{command, spec_command};
use crate::service::append;
use crate::text::{chars_of, string_of};
use vstd::prelude::*;

verus! {

/// The instructions, with the request, the working directory and the
/// current input line following as JSON string literals, one per line.
pub const PROMPT_RULES: &'static str = "Return one macOS zsh command without using tools. The shell is already in cwd.\nReply only as JSON: {\"command\":\"...\"}\nrequest=";

/// The prompt: the instructions, then the request, the working directory and
/// the current line as JSON string literals.
pub open spec fn spec_prompt(request: Seq<char>, cwd: Seq<char>, current_line: Seq<char>) -> Seq<
    char,
> {
    PROMPT_RULES@ + json_quote(request) + "\ncwd="@ + json_quote(cwd) + "\ninput="@ + json_quote(
        current_line,
    )
}

/// The prompt for a request typed at the shell.
pub fn prompt(request: &str, cwd: &str, current_line: &str) -> (p: String)
    ensures
        p@ == spec_prompt(request@, cwd@, current_line@),
{
    let mut text = chars_of(PROMPT_RULES);
    text = append(&text, quote(request).as_str());
    text = append(&text, "\ncwd=");
    text = append(&text, quote(cwd).as_str());
    text = append(&text, "\ninput=");
    text = append(&text, quote(current_line).as_str());
    string_of(&text)
}

/// The command that a finished `fx` run of `fx-line` answers: a timeout
/// after `LINE_TIMEOUT_SECS`, the error output of a failure, else the
/// command in its reply (see `output::parse`).
pub fn finish_command(timed_out: bool, success: bool, stdout: &str, stderr: &str) -> (r: Result<
    String,
    Error,
>)
    ensures
        result_view(r) == match spec_finish(
            timed_out,
            LINE_TIMEOUT_SECS as nat,
            success,
            stdout@,
            stderr@,
        ) {
            Err(e) => Err(e),
            Ok(output) => spec_command(output),
        },
{
    match finish(timed_out, LINE_TIMEOUT_SECS, success, stdout, stderr) {
        Err(e) => Err(e),
        Ok(output) => match command(output.as_str()) {
            Ok(c) => Ok(c),
            Err(e) => Err(Error(e.0.to_owned())),
        },
    }
}

} // verus!
