//! `fx-line`: one shell command for a request typed at the zsh prompt.
use crate::error::Error;
use crate::output::{command, spec_command, string_result};
use crate::text::{chars_of, concat, string_of};
use vstd::prelude::*;

verus! {

/// How many times the model is asked.
pub const MAX_ATTEMPTS: usize = 2;

/// The instructions that open the prompt.
pub const LINE_RULES: &'static str = "Return one macOS zsh command without using tools. The shell is already at cwd. Reply only with JSON: {\"command\":\"...\"}.";

/// The prompt: the instructions, then on the next line the JSON of the
/// request, the working directory, the current line and the directory's
/// entries (`context_json`, written by the caller).
pub open spec fn spec_prompt(context_json: Seq<char>) -> Seq<char> {
    LINE_RULES@ + "\n"@ + context_json
}

/// The prompt for a request.
pub fn prompt(context_json: &str) -> (p: String)
    ensures
        p@ == spec_prompt(context_json@),
{
    string_of(&concat(&concat(&chars_of(LINE_RULES), &chars_of("\n")), &chars_of(context_json)))
}

/// An attempt failed with `error`: asked `prompt`, `complete` answered with
/// that error, or with a text from which no command could be read.
pub open spec fn failed_with<F: Fn(String) -> Result<String, Error>>(
    complete: F,
    prompt: Seq<char>,
    error: Error,
) -> bool {
    exists|p: String, answer: Result<String, Error>|
        #[trigger] complete.ensures((p,), answer) && p@ == prompt && match answer {
            Ok(output) => spec_command(output@) == Err::<Seq<char>, Seq<char>>(error.0@),
            Err(e) => e.0@ == error.0@,
        }
}

/// `after` is `before` followed by `n` copies of `prompt`.
pub open spec fn asked_times(before: Seq<String>, after: Seq<String>, prompt: Seq<char>, n: nat) -> bool {
    &&& after.len() == before.len() + n
    &&& after.take(before.len() as int) == before
    &&& forall|k: int| 0 <= k < n ==> (#[trigger] after[before.len() + k])@ == prompt
}

/// The command for a request: `complete` is given the prompt and answers the
/// model's text, from which the command is read; a failed attempt is retried
/// once with the same prompt, and the second error is returned when both
/// fail. `asked` gets the prompt each time it is handed to `complete`.
pub fn generate<F: Fn(String) -> Result<String, Error>>(
    context_json: &str,
    complete: &F,
    asked: &mut Vec<String>,
) -> (r: Result<String, Error>)
    requires
        forall|p: String| complete.requires((p,)),
    ensures
        exists|n: nat|
            1 <= n <= MAX_ATTEMPTS && #[trigger] asked_times(
                old(asked)@,
                final(asked)@,
                spec_prompt(context_json@),
                n,
            ) && (r is Err ==> n == MAX_ATTEMPTS) && (n > 1 ==> exists|e: Error|
                #[trigger] failed_with(*complete, spec_prompt(context_json@), e)),
        r matches Ok(c) ==> exists|p: String, output: String|
            #[trigger] complete.ensures((p,), Ok::<String, Error>(output)) && p@ == spec_prompt(
                context_json@,
            ) && spec_command(output@) == Ok::<Seq<char>, Seq<char>>(c@),
        r matches Err(e) ==> failed_with(*complete, spec_prompt(context_json@), e),
{
    let ghost before = asked@;
    let prompt = prompt(context_json);
    let mut last_error = Error("no attempt was made".to_owned());
    let mut attempt: usize = 0;
    assert(asked@.take(before.len() as int) =~= before);
    while attempt < MAX_ATTEMPTS
        invariant
            attempt <= MAX_ATTEMPTS,
            prompt@ == spec_prompt(context_json@),
            forall|p: String| complete.requires((p,)),
            attempt > 0 ==> failed_with(*complete, spec_prompt(context_json@), last_error),
            before == old(asked)@,
            asked_times(before, asked@, spec_prompt(context_json@), attempt as nat),
        decreases MAX_ATTEMPTS - attempt,
    {
        let ghost was = asked@;
        asked.push(prompt.clone());
        proof {
            assert(asked@.take(before.len() as int) =~= before) by {
                assert(was.take(before.len() as int) == before);
            }
            assert forall|k: int| 0 <= k < attempt + 1 implies (#[trigger] asked@[before.len()
                + k])@ == spec_prompt(context_json@) by {
                if k < attempt {
                    assert(asked@[before.len() + k] == was[before.len() + k]);
                }
            }
            assert(asked_times(before, asked@, spec_prompt(context_json@), (attempt + 1) as nat));
            if attempt == 1 {
                assert(failed_with(*complete, spec_prompt(context_json@), last_error));
            }
        }
        let question = prompt.clone();
        let ghost sent = question;
        let answer = complete(question);
        let ghost got = answer;
        match answer {
            Ok(output) => {
                match command(output.as_str()) {
                    Ok(c) => {
                        assert(complete.ensures((sent,), got));
                        return Ok(c);
                    },
                    Err(e) => {
                        last_error = Error(e.0.to_owned());
                        assert(complete.ensures((sent,), got));
                    },
                }
            },
            Err(e) => {
                last_error = e;
                assert(complete.ensures((sent,), got));
            },
        }
        attempt = attempt + 1;
    }
    assert(asked_times(before, asked@, spec_prompt(context_json@), MAX_ATTEMPTS as nat));
    Err(last_error)
}

} // verus!
