//! The voice agent: a spoken request becomes CMUX actions, or a task for the
//! agent model, and a short notification of the result.
//!
//! The work with the outside world (the models, `cmux`, notifications) is
//! handed in as closures; the decisions around it are made here.
pub mod intent;
pub mod planner;

pub use planner::Plan;

use crate::cmux::actions::{notify_arguments, spec_arguments, spec_notify_arguments, views};
use crate::cmux::validation::spec_validate;
use crate::cmux::{Action, Cmux, Context};
use crate::error::Error;
use crate::platform::host::{files_ready, processes_ready, Contents, Files, Output, Processes};
use crate::text::{
    chars_of, concat, is_whitespace, join, joined, lemma_trim_end_prefix, lemma_trim_start_first,
    nonblank, nonblank_lines, nonblank_pieces, slice, split_char, split_on, string_of, trim,
    trim_end, trim_start, trimmed,
};
use intent::{intent_message, intent_panics, spec_parse};
use vstd::prelude::*;

verus! {

/// What the hotkey listener reports to the worker.
#[derive(Debug)]
pub enum Event {
    Pressed,
    Released,
    Transcript(String),
    Cancelled,
}

/// The error of an empty request.
pub const EMPTY_REQUEST: &'static str = "the request is empty";

/// The error of a task where the focused surface has no working directory.
pub const NO_WORKING_DIRECTORY: &'static str = "the focused CMUX surface has no working directory";

/// The longest summary, in characters, before the ellipsis.
pub const SUMMARY_CHARS: usize = 280;

/// The summary of a text: its nonblank lines, trimmed and joined by spaces,
/// cut to 280 characters with an ellipsis where it was longer.
pub open spec fn spec_summary(text: Seq<char>) -> Seq<char> {
    let joined = join(nonblank_lines(text), seq![' ']);
    if joined.len() > SUMMARY_CHARS {
        joined.take(SUMMARY_CHARS as int).push('…')
    } else {
        joined
    }
}

proof fn lemma_split_pieces_lack(s: Seq<char>, c: char)
    ensures
        forall|i: int| 0 <= i < split_on(s, c).len() ==> !(#[trigger] split_on(s, c)[i]).contains(c),
    decreases s.len(),
{
    if s.len() > 0 {
        lemma_split_pieces_lack(s.drop_last(), c);
        let pieces = split_on(s.drop_last(), c);
        crate::text::lemma_split_nonempty(s.drop_last(), c);
        if s.last() != c {
            let last = pieces.last().push(s.last());
            assert forall|j: int| 0 <= j < last.len() implies last[j] != c by {
                if j < pieces.last().len() {
                    assert(!pieces[pieces.len() - 1].contains(c));
                    assert(last[j] == pieces.last()[j]);
                }
            }
            assert(!last.contains(c));
        } else {
            assert(!Seq::<char>::empty().contains(c));
        }
    }
}

proof fn lemma_trim_lacks(s: Seq<char>, c: char)
    requires
        !s.contains(c),
    ensures
        !trim(s).contains(c),
{
    lemma_trim_start_lacks(s, c);
    lemma_trim_end_lacks(trim_start(s), c);
}

proof fn lemma_trim_start_lacks(s: Seq<char>, c: char)
    requires
        !s.contains(c),
    ensures
        !trim_start(s).contains(c),
    decreases s.len(),
{
    if s.len() > 0 && crate::text::is_whitespace(s[0]) {
        assert forall|j: int| 0 <= j < s.drop_first().len() implies s.drop_first()[j] != c by {
            assert(s.drop_first()[j] == s[j + 1]);
        }
        lemma_trim_start_lacks(s.drop_first(), c);
    }
}

proof fn lemma_trim_end_lacks(s: Seq<char>, c: char)
    requires
        !s.contains(c),
    ensures
        !trim_end(s).contains(c),
    decreases s.len(),
{
    if s.len() > 0 && crate::text::is_whitespace(s.last()) {
        assert forall|j: int| 0 <= j < s.drop_last().len() implies s.drop_last()[j] != c by {
            assert(s.drop_last()[j] == s[j]);
        }
        lemma_trim_end_lacks(s.drop_last(), c);
    }
}

proof fn lemma_nonblank_lacks(pieces: Seq<Seq<char>>, c: char)
    requires
        forall|i: int| 0 <= i < pieces.len() ==> !(#[trigger] pieces[i]).contains(c),
    ensures
        forall|i: int| 0 <= i < nonblank(pieces).len() ==> !(#[trigger] nonblank(pieces)[i]).contains(c),
    decreases pieces.len(),
{
    if pieces.len() > 0 {
        assert forall|i: int| 0 <= i < pieces.drop_last().len() implies !(
        #[trigger] pieces.drop_last()[i]).contains(c) by {
            assert(pieces.drop_last()[i] == pieces[i]);
        }
        lemma_nonblank_lacks(pieces.drop_last(), c);
        assert(!pieces[pieces.len() - 1].contains(c));
        lemma_trim_lacks(pieces.last(), c);
        let rest = nonblank(pieces.drop_last());
        assert forall|i: int| 0 <= i < nonblank(pieces).len() implies !(
        #[trigger] nonblank(pieces)[i]).contains(c) by {
            if i < rest.len() {
                assert(nonblank(pieces)[i] == rest[i]);
            }
        }
    }
}

proof fn lemma_join_lacks(parts: Seq<Seq<char>>, sep: Seq<char>, c: char)
    requires
        forall|i: int| 0 <= i < parts.len() ==> !(#[trigger] parts[i]).contains(c),
        !sep.contains(c),
    ensures
        !join(parts, sep).contains(c),
    decreases parts.len(),
{
    if parts.len() > 1 {
        assert forall|i: int| 0 <= i < parts.drop_last().len() implies !(
        #[trigger] parts.drop_last()[i]).contains(c) by {
            assert(parts.drop_last()[i] == parts[i]);
        }
        lemma_join_lacks(parts.drop_last(), sep, c);
        let a = join(parts.drop_last(), sep);
        let b = parts.last();
        assert(!parts[parts.len() - 1].contains(c));
        assert forall|j: int| 0 <= j < (a + sep + b).len() implies (a + sep + b)[j] != c by {
            if j < a.len() {
                assert((a + sep + b)[j] == a[j]);
            } else if j < a.len() + sep.len() {
                assert((a + sep + b)[j] == sep[j - a.len()]);
            } else {
                assert((a + sep + b)[j] == b[j - a.len() - sep.len()]);
            }
        }
    } else if parts.len() == 1 {
        assert(!parts[0].contains(c));
    }
}

/// A summary fits a notification: at most 281 characters, on one line.
pub proof fn summary_is_short_and_single_line(text: Seq<char>)
    ensures
        spec_summary(text).len() <= SUMMARY_CHARS + 1,
        !spec_summary(text).contains('\n'),
{
    let pieces = split_on(text, '\n');
    lemma_split_pieces_lack(text, '\n');
    lemma_nonblank_lacks(pieces, '\n');
    assert(!seq![' '].contains('\n')) by {
        assert(seq![' '][0] == ' ');
    }
    lemma_join_lacks(nonblank(pieces), seq![' '], '\n');
    let joined = join(nonblank(pieces), seq![' ']);
    if joined.len() > SUMMARY_CHARS {
        let cut = joined.take(SUMMARY_CHARS as int).push('…');
        assert forall|j: int| 0 <= j < cut.len() implies cut[j] != '\n' by {
            if j < SUMMARY_CHARS {
                assert(cut[j] == joined[j]);
            }
        }
    }
}

/// The text is empty, or starts and ends with other than white space.
pub open spec fn solid(s: Seq<char>) -> bool {
    s.len() == 0 || (!is_whitespace(s[0]) && !is_whitespace(s.last()))
}

proof fn lemma_trim_solid(s: Seq<char>)
    ensures
        solid(trim(s)),
{
    lemma_trim_start_first(s);
    lemma_trim_end_prefix(trim_start(s));
    if trim(s).len() > 0 {
        assert(trim(s)[0] == trim_start(s)[0]);
    }
}

proof fn lemma_solid_trimmed(s: Seq<char>)
    requires
        solid(s),
    ensures
        trim(s) == s,
{
    assert(trim_start(s) == s);
    assert(trim_end(s) == s);
}

proof fn lemma_nonblank_solid(pieces: Seq<Seq<char>>)
    ensures
        forall|i: int|
            0 <= i < nonblank(pieces).len() ==> (#[trigger] nonblank(pieces)[i]).len() > 0 && solid(
                nonblank(pieces)[i],
            ),
    decreases pieces.len(),
{
    if pieces.len() > 0 {
        lemma_nonblank_solid(pieces.drop_last());
        lemma_trim_solid(pieces.last());
        let rest = nonblank(pieces.drop_last());
        assert forall|i: int| 0 <= i < nonblank(pieces).len() implies (#[trigger] nonblank(
            pieces,
        )[i]).len() > 0 && solid(nonblank(pieces)[i]) by {
            if i < rest.len() {
                assert(nonblank(pieces)[i] == rest[i]);
            }
        }
    }
}

proof fn lemma_join_solid(parts: Seq<Seq<char>>)
    requires
        forall|i: int| 0 <= i < parts.len() ==> (#[trigger] parts[i]).len() > 0 && solid(parts[i]),
    ensures
        parts.len() > 0 ==> join(parts, seq![' ']).len() > 0 && join(parts, seq![' '])[0]
            == parts[0][0] && join(parts, seq![' ']).last() == parts.last().last(),
    decreases parts.len(),
{
    if parts.len() > 1 {
        let rest = parts.drop_last();
        assert forall|i: int| 0 <= i < rest.len() implies (#[trigger] rest[i]).len() > 0 && solid(
            rest[i],
        ) by {
            assert(rest[i] == parts[i]);
        }
        lemma_join_solid(rest);
        assert(parts.last() == parts[parts.len() - 1]);
        let j = join(rest, seq![' ']) + seq![' '] + parts.last();
        assert(j[0] == join(rest, seq![' '])[0]);
    } else if parts.len() == 1 {
        assert(parts.last() == parts[0]);
    }
}

proof fn lemma_single_line(s: Seq<char>)
    requires
        !s.contains('\n'),
    ensures
        split_on(s, '\n') == seq![s],
    decreases s.len(),
{
    if s.len() > 0 {
        assert(!s.drop_last().contains('\n')) by {
            assert forall|j: int| 0 <= j < s.drop_last().len() implies s.drop_last()[j] != '\n' by {
                assert(s.drop_last()[j] == s[j]);
            }
        }
        lemma_single_line(s.drop_last());
        assert(s.last() == s[s.len() - 1]);
        assert(s.last() != '\n');
        assert(s.drop_last().push(s.last()) =~= s);
        assert(split_on(s, '\n') =~= seq![s]);
    } else {
        assert(s =~= Seq::<char>::empty());
        assert(split_on(s, '\n') =~= seq![s]);
    }
}

/// Summarising a summary changes nothing: a summary is one line, without
/// white space at its ends, and its ellipsis already stands after the
/// longest cut.
pub proof fn summarising_a_summary_changes_nothing(text: Seq<char>)
    ensures
        spec_summary(spec_summary(text)) == spec_summary(text),
{
    let s0 = spec_summary(text);
    summary_is_short_and_single_line(text);
    lemma_single_line(s0);
    let parts = nonblank(split_on(text, '\n'));
    let joined = join(parts, seq![' ']);
    lemma_nonblank_solid(split_on(text, '\n'));
    lemma_join_solid(parts);
    if joined.len() > SUMMARY_CHARS {
        assert(s0[0] == joined[0]);
        assert(s0.last() == '…');
    }
    assert(solid(s0));
    lemma_solid_trimmed(s0);
    let single = seq![s0];
    assert(single.drop_last() =~= Seq::<Seq<char>>::empty());
    assert(nonblank(Seq::<Seq<char>>::empty()) =~= Seq::<Seq<char>>::empty());
    assert(nonblank(single.drop_last()) =~= Seq::<Seq<char>>::empty());
    assert(single.last() == s0);
    assert(trim(single.last()) == s0);
    if s0.len() > 0 {
        assert(nonblank(single) =~= seq![s0]);
        assert(join(nonblank(single), seq![' ']) == s0);
    } else {
        assert(nonblank(single) =~= Seq::<Seq<char>>::empty());
        assert(join(nonblank(single), seq![' ']) =~= s0);
    }
    if s0.len() > SUMMARY_CHARS {
        assert(joined.len() > SUMMARY_CHARS);
        assert(s0.take(SUMMARY_CHARS as int).push('…') =~= s0);
    }
}

/// A short, single-line summary of a text, for a notification.
pub fn summary(text: &str) -> (s: String)
    ensures
        s@ == spec_summary(text@),
        s@.len() <= SUMMARY_CHARS + 1,
        !s@.contains('\n'),
{
    proof {
        summary_is_short_and_single_line(text@);
    }
    let lines = nonblank_pieces(&split_char(&chars_of(text), '\n'));
    let space = vec![' '];
    assert(space@ =~= seq![' ']);
    let joined = joined(&lines, &space);
    if joined.len() > SUMMARY_CHARS {
        let mut cut = slice(&joined, 0, SUMMARY_CHARS);
        cut.push('…');
        string_of(&cut)
    } else {
        string_of(&joined)
    }
}

/// Whether a plan closes the focused workspace, after which there is no
/// workspace left to notify.
pub open spec fn closes_focused_workspace(actions: Seq<Action>, context: Context) -> bool {
    exists|i: int|
        0 <= i < actions.len() && match #[trigger] actions[i] {
            Action::CloseWorkspace { workspace } => match workspace {
                None => true,
                Some(w) => w@ == context.workspace@,
            },
            _ => false,
        }
}

/// Whether the plan closes the focused workspace.
pub fn closed_workspace(plan: &Plan, context: &Context) -> (b: bool)
    ensures
        b == closes_focused_workspace(plan.actions@, *context),
{
    let mut i: usize = 0;
    while i < plan.actions.len()
        invariant
            i <= plan.actions@.len(),
            forall|k: int|
                0 <= k < i ==> !match #[trigger] plan.actions@[k] {
                    Action::CloseWorkspace { workspace } => match workspace {
                        None => true,
                        Some(w) => w@ == context.workspace@,
                    },
                    _ => false,
                },
        decreases plan.actions@.len() - i,
    {
        match &plan.actions[i] {
            Action::CloseWorkspace { workspace } => match workspace {
                None => {
                    return true;
                },
                Some(w) => {
                    if w.eq(&context.workspace) {
                        return true;
                    }
                },
            },
            _ => {},
        }
        i = i + 1;
    }
    false
}

/// The text that reports a request: the agent's answer where there is a
/// nonblank one, else the plan's nonblank message, else "Done".
pub open spec fn report_text(task_result: Option<Seq<char>>, message: Seq<char>) -> Seq<char> {
    match task_result {
        Some(t) if trim(t).len() > 0 => t,
        _ => if trim(message).len() > 0 {
            message
        } else {
            "Done"@
        },
    }
}

/// The summary that reports a request.
pub fn outcome(task_result: &Option<String>, message: &String) -> (s: String)
    ensures
        s@ == spec_summary(
            report_text(
                match task_result {
                    Some(t) => Some(t@),
                    None => None,
                },
                message@,
            ),
        ),
{
    if let Some(text) = task_result {
        if trimmed(&chars_of(text.as_str())).len() > 0 {
            return summary(text.as_str());
        }
    }
    if trimmed(&chars_of(message.as_str())).len() > 0 {
        summary(message.as_str())
    } else {
        summary("Done")
    }
}

/// The instructions that open the prompt of a fallback task.
pub const TASK_RULES: &'static str = "Complete this request now in cwd. Work quietly in the background, use tools as needed, and keep the final response concise. The `cmux` CLI is available for workspace, pane, terminal, browser, notification, and sidebar actions. Do not ask a follow-up when a safe reasonable interpretation exists.";

/// The prompt of a fallback task: the instructions, then on the next line the
/// JSON of the task, its directory and the CMUX context.
pub open spec fn spec_task_prompt(context_json: Seq<char>) -> Seq<char> {
    TASK_RULES@ + "\n"@ + context_json
}

/// The prompt of a fallback task around its JSON context.
pub fn task_prompt(context_json: &str) -> (p: String)
    ensures
        p@ == spec_task_prompt(context_json@),
{
    string_of(&concat(&concat(&chars_of(TASK_RULES), &chars_of("\n")), &chars_of(context_json)))
}

/// The agent answered `answer` to a task in the focused directory: `describe`
/// was given the task and the directory, and `run_agent` the task prompt
/// around what it wrote, in that directory.
pub open spec fn task_answered<
    D: Fn(String, String) -> String,
    G: Fn(String, String) -> Result<String, Error>,
>(task: Seq<char>, context: Context, describe: D, run_agent: G, answer: Result<String, Error>) -> bool {
    exists|t: String, json: String, p: String|
        t@ == task && #[trigger] describe.ensures((t, context.cwd->0), json) && p@
            == spec_task_prompt(json@) && #[trigger] run_agent.ensures((p, context.cwd->0), answer)
}

/// Hands a fallback task to the agent model, in the focused directory:
/// `describe` is given the task and the directory and writes the JSON of the
/// task's context; `run_agent` is given the prompt and the directory.
pub fn run_task<D: Fn(String, String) -> String, G: Fn(String, String) -> Result<String, Error>>(
    task: &str,
    context: &Context,
    describe: &D,
    run_agent: &G,
) -> (r: Result<String, Error>)
    requires
        forall|t: String, cwd: String| describe.requires((t, cwd)),
        forall|p: String, cwd: String| run_agent.requires((p, cwd)),
    ensures
        context.cwd is None ==> (r matches Err(e) && e.0@
            == NO_WORKING_DIRECTORY@),
        context.cwd is Some ==> task_answered(task@, *context, *describe, *run_agent, r),
{
    match &context.cwd {
        None => Err(Error(NO_WORKING_DIRECTORY.to_owned())),
        Some(cwd) => {
            let json = describe(task.to_owned(), cwd.clone());
            let prompt = task_prompt(json.as_str());
            run_agent(prompt, cwd.clone())
        },
    }
}

/// The plan of a request in the focused context (see `planner::create`).
pub fn plan<F: Fn(String) -> Result<Plan, Error>>(
    request: &str,
    context: &Context,
    context_json: &str,
    ask: &F,
    prompts: &mut Vec<String>,
) -> (r: Result<Plan, Error>)
    requires
        !intent_panics(request@),
        forall|p: String| ask.requires((p,)),
    ensures
        planner::plan_outcome(request@, *context, context_json@, *ask, r),
        planner::prompts_outcome(
            request@,
            *context,
            context_json@,
            *ask,
            old(prompts)@,
            final(prompts)@,
            r,
        ),
{
    planner::create(request, context, context_json, ask, prompts)
}

/// What a request handed out, in order: the prompts given to the planning
/// model, and the `cmux` command lines given to `execute`.
#[derive(Debug)]
pub struct Record {
    pub prompts: Vec<String>,
    pub commands: Vec<Vec<String>>,
}

impl Record {
    /// A record of nothing yet.
    pub fn new() -> (r: Record)
        ensures
            r.prompts@.len() == 0 && r.commands@.len() == 0,
    {
        Record { prompts: Vec::new(), commands: Vec::new() }
    }
}

/// The command lines of a record, by their texts.
pub open spec fn commands_of(sent: Seq<Vec<String>>) -> Seq<Seq<Seq<char>>> {
    sent.map_values(|v: Vec<String>| views(v@))
}

/// The command lines of a plan's actions, in order.
pub open spec fn plan_commands(context: Context, actions: Seq<Action>) -> Seq<Seq<Seq<char>>> {
    actions.map_values(|a: Action| spec_arguments(context, a))
}

/// `execute`, given a command line, may answer `Ok` (what it answered when
/// the library gave it that line).
pub open spec fn executed_ok<X: Fn(Vec<String>) -> Result<(), Error>>(
    execute: X,
    command: Seq<Seq<char>>,
) -> bool {
    exists|args: Vec<String>, answer: Result<(), Error>|
        #[trigger] execute.ensures((args,), answer) && answer is Ok && views(args@) == command
}

/// `execute`, given a command line, may answer the error `e`.
pub open spec fn executed_err<X: Fn(Vec<String>) -> Result<(), Error>>(
    execute: X,
    command: Seq<Seq<char>>,
    e: Error,
) -> bool {
    exists|args: Vec<String>|
        #[trigger] execute.ensures((args,), Err::<(), Error>(e)) && views(args@) == command
}

/// The error of a task that could not run: the focused surface has no
/// working directory, or the agent answered that error.
pub open spec fn task_failed<
    D: Fn(String, String) -> String,
    G: Fn(String, String) -> Result<String, Error>,
>(task: Seq<char>, context: Context, describe: D, run_agent: G, e: Error) -> bool {
    ||| context.cwd is None && e.0@ == NO_WORKING_DIRECTORY@
    ||| context.cwd is Some && task_answered(task, context, describe, run_agent, Err::<String, Error>(e))
}

/// The summary that reports a carried-out plan: of the agent's answer to the
/// request where the plan falls back to it, else of the plan's message.
pub open spec fn summary_of<
    D: Fn(String, String) -> String,
    G: Fn(String, String) -> Result<String, Error>,
>(describe: D, run_agent: G, context: Context, request: Seq<char>, plan: Plan, s: Seq<char>) -> bool {
    if plan.fallback {
        exists|t: String|
            #[trigger] task_answered(request, context, describe, run_agent, Ok::<String, Error>(t))
                && s == spec_summary(report_text(Some(t@), plan.message@))
    } else {
        s == spec_summary(report_text(None, plan.message@))
    }
}

/// The notification that follows a carried-out plan: none where the plan
/// closed the focused workspace, else the summary `s` posted in the context.
pub open spec fn notice(context: Context, plan: Plan, s: Seq<char>) -> Seq<Seq<Seq<char>>> {
    if closes_focused_workspace(plan.actions@, context) {
        seq![]
    } else {
        seq![spec_notify_arguments(context, s)]
    }
}

/// What carrying out a request gives, `r`, with the record going from
/// `before` to `after`. An empty request fails at once and hands out
/// nothing. Otherwise the request is planned (see `planner::create`): a
/// failed plan is the error. A plan's command lines are handed to `execute`
/// once each, in order; the first that fails is the error, and nothing
/// follows it. Then a fallback plan runs the agent on the request, whose
/// failure is the error. Then, unless the plan closed the focused workspace,
/// the summary is posted as a notification, whose failure is the error.
/// Success answers the summary.
pub open spec fn agent_outcome<
    F: Fn(String) -> Result<Plan, Error>,
    X: Fn(Vec<String>) -> Result<(), Error>,
    D: Fn(String, String) -> String,
    G: Fn(String, String) -> Result<String, Error>,
>(
    ask: F,
    execute: X,
    describe: D,
    run_agent: G,
    context: Context,
    context_json: Seq<char>,
    request: Seq<char>,
    before: Record,
    after: Record,
    r: Result<String, Error>,
) -> bool {
    if request.len() == 0 {
        &&& r matches Err(e) && e.0@ == EMPTY_REQUEST@
        &&& after.prompts@ == before.prompts@
        &&& after.commands@ == before.commands@
    } else {
        exists|planned: Result<Plan, Error>|
            #[trigger] planner::plan_outcome(request, context, context_json, ask, planned)
                && planner::prompts_outcome(
                request,
                context,
                context_json,
                ask,
                before.prompts@,
                after.prompts@,
                planned,
            ) && match planned {
                Err(e) => r == Err::<String, Error>(e) && after.commands@ == before.commands@,
                Ok(plan) => carried_out(
                    execute,
                    describe,
                    run_agent,
                    context,
                    request,
                    plan,
                    commands_of(before.commands@),
                    commands_of(after.commands@),
                    r,
                ),
            }
    }
}

/// `execute` may answer `Ok` to the command lines of the first `k` actions.
pub open spec fn first_ran<X: Fn(Vec<String>) -> Result<(), Error>>(
    execute: X,
    context: Context,
    actions: Seq<Action>,
    k: int,
) -> bool {
    forall|i: int|
        0 <= i < k ==> #[trigger] executed_ok(execute, plan_commands(context, actions)[i])
}

/// The command line of one of the actions failed with `e`: the lines of the
/// actions before it may be answered `Ok`, and the record holds the lines up
/// to that one and nothing after.
pub open spec fn failed_at<X: Fn(Vec<String>) -> Result<(), Error>>(
    execute: X,
    context: Context,
    actions: Seq<Action>,
    b: Seq<Seq<Seq<char>>>,
    a: Seq<Seq<Seq<char>>>,
    e: Error,
) -> bool {
    exists|k: int|
        0 <= k < actions.len() && a == b + plan_commands(context, actions).take(k + 1) && first_ran(
            execute,
            context,
            actions,
            k,
        ) && #[trigger] executed_err(execute, plan_commands(context, actions)[k], e)
}

/// What carrying out a checked plan gives (see `agent_outcome`), with the
/// command lines of the record going from `b` to `a`.
pub open spec fn carried_out<
    X: Fn(Vec<String>) -> Result<(), Error>,
    D: Fn(String, String) -> String,
    G: Fn(String, String) -> Result<String, Error>,
>(
    execute: X,
    describe: D,
    run_agent: G,
    context: Context,
    request: Seq<char>,
    plan: Plan,
    b: Seq<Seq<Seq<char>>>,
    a: Seq<Seq<Seq<char>>>,
    r: Result<String, Error>,
) -> bool {
    let n = plan.actions@.len() as int;
    match r {
        Ok(s) => first_ran(execute, context, plan.actions@, n) && summary_of(
            describe,
            run_agent,
            context,
            request,
            plan,
            s@,
        ) && a == b + plan_commands(context, plan.actions@) + notice(context, plan, s@) && (
        !closes_focused_workspace(plan.actions@, context) ==> executed_ok(
            execute,
            spec_notify_arguments(context, s@),
        )),
        Err(e) => {
            ||| failed_at(execute, context, plan.actions@, b, a, e)
            ||| first_ran(execute, context, plan.actions@, n) && a == b + plan_commands(
                context,
                plan.actions@,
            ) && plan.fallback && task_failed(request, context, describe, run_agent, e)
            ||| first_ran(execute, context, plan.actions@, n) && !closes_focused_workspace(
                plan.actions@,
                context,
            ) && exists|s: Seq<char>|
                #[trigger] summary_of(describe, run_agent, context, request, plan, s) && a == b
                    + plan_commands(context, plan.actions@) + seq![spec_notify_arguments(context, s)]
                    && executed_err(execute, spec_notify_arguments(context, s), e)
        },
    }
}

/// Carries out a request in the focused context: plans it, runs the `cmux`
/// command line of each action through `execute` (each one checked first),
/// hands a fallback to the agent model (see `run_task`), and posts the
/// summary of the result as a notification through `execute` unless the plan
/// closed the focused workspace. `record` gets each prompt and command line
/// as it is handed out (see `agent_outcome`).
pub fn run_with_context<
    F: Fn(String) -> Result<Plan, Error>,
    X: Fn(Vec<String>) -> Result<(), Error>,
    D: Fn(String, String) -> String,
    G: Fn(String, String) -> Result<String, Error>,
>(
    context: &Context,
    request: &str,
    context_json: &str,
    ask: &F,
    execute: &X,
    describe: &D,
    run_agent: &G,
    record: &mut Record,
) -> (r: Result<String, Error>)
    requires
        !intent_panics(request@),
        forall|p: String| ask.requires((p,)),
        forall|args: Vec<String>| execute.requires((args,)),
        forall|t: String, cwd: String| describe.requires((t, cwd)),
        forall|p: String, cwd: String| run_agent.requires((p, cwd)),
    ensures
        agent_outcome(
            *ask,
            *execute,
            *describe,
            *run_agent,
            *context,
            context_json@,
            request@,
            *old(record),
            *final(record),
            r,
        ),
        r matches Ok(s) ==> s@.len() <= SUMMARY_CHARS + 1 && !s@.contains('\n'),
        r matches Ok(s) ==> (spec_parse(request@) matches Some(expected) ==> s@ == spec_summary(
            report_text(None, intent_message(expected)),
        )),
{
    let ghost before = *record;
    if request.is_empty() {
        return Err(Error(EMPTY_REQUEST.to_owned()));
    }
    let created = planner::create(request, context, context_json, ask, &mut record.prompts);
    let ghost planned = created;
    let ghost asked = record.prompts;
    let plan = match created {
        Ok(plan) => plan,
        Err(e) => return Err(e),
    };
    let ghost cmds = plan_commands(*context, plan.actions@);
    proof {
        lemma_valid_each(*context, request@, plan.actions@);
    }
    let mut i: usize = 0;
    while i < plan.actions.len()
        invariant
            i <= plan.actions@.len(),
            request@.len() > 0,
            forall|args: Vec<String>| execute.requires((args,)),
            planned == Ok::<Plan, Error>(plan),
            planner::plan_outcome(request@, *context, context_json@, *ask, planned),
            planner::prompts_outcome(
                request@,
                *context,
                context_json@,
                *ask,
                before.prompts@,
                asked@,
                planned,
            ),
            record.prompts == asked,
            cmds == plan_commands(*context, plan.actions@),
            forall|k: int|
                0 <= k < plan.actions@.len() ==> spec_validate(
                    *context,
                    request@,
                    #[trigger] plan.actions@[k],
                ) is Ok,
            commands_of(record.commands@) == commands_of(before.commands@) + cmds.take(i as int),
            before == *old(record),
            first_ran(*execute, *context, plan.actions@, i as int),
        decreases plan.actions@.len() - i,
    {
        let args = match Cmux::execute(context, request, &plan.actions[i]) {
            Ok(args) => args,
            Err(e) => {
                assert(spec_validate(*context, request@, plan.actions@[i as int]) is Ok);
                return Err(e);
            },
        };
        let ghost was = record.commands@;
        record.commands.push(crate::cmux::actions::arguments(context, &plan.actions[i]));
        proof {
            assert(commands_of(record.commands@) =~= commands_of(was).push(cmds[i as int]));
            assert(cmds.take(i + 1) =~= cmds.take(i as int).push(cmds[i as int]));
            assert(commands_of(record.commands@) =~= commands_of(before.commands@) + cmds.take(
                i + 1,
            ));
        }
        let ghost sent = args;
        let done = execute(args);
        let ghost got = done;
        assert(execute.ensures((sent,), got));
        if let Err(e) = done {
            assert(executed_err(*execute, plan_commands(*context, plan.actions@)[i as int], e));
            assert(commands_of(record.commands@) == commands_of(before.commands@) + plan_commands(
                *context,
                plan.actions@,
            ).take(i + 1));
            let ghost k = i as int;
            assert(0 <= k < plan.actions@.len());
            assert(first_ran(*execute, *context, plan.actions@, k));
            assert(commands_of(record.commands@) == commands_of(before.commands@) + plan_commands(
                *context,
                plan.actions@,
            ).take(k + 1));
            assert(executed_err(*execute, plan_commands(*context, plan.actions@)[k], e));
            assert(failed_at(
                *execute,
                *context,
                plan.actions@,
                commands_of(before.commands@),
                commands_of(record.commands@),
                e,
            ));
            assert(carried_out(
                *execute,
                *describe,
                *run_agent,
                *context,
                request@,
                plan,
                commands_of(before.commands@),
                commands_of(record.commands@),
                Err::<String, Error>(e),
            ));
            return Err(e);
        }
        assert(executed_ok(*execute, cmds[i as int]));
        assert(first_ran(*execute, *context, plan.actions@, i + 1)) by {
            assert forall|k: int| 0 <= k < i + 1 implies #[trigger] executed_ok(
                *execute,
                plan_commands(*context, plan.actions@)[k],
            ) by {
                if k < i {
                    assert(first_ran(*execute, *context, plan.actions@, i as int));
                }
            }
        }
        i = i + 1;
    }
    assert(cmds.take(plan.actions@.len() as int) =~= cmds);
    let closed = closed_workspace(&plan, context);
    let task_result = if plan.fallback {
        let answered = run_task(request, context, describe, run_agent);
        let ghost given = answered;
        match answered {
            Ok(text) => {
                assert(task_answered(request@, *context, *describe, *run_agent, given));
                Some(text)
            },
            Err(e) => return Err(e),
        }
    } else {
        None
    };
    let result = outcome(&task_result, &plan.message);
    assert(summary_of(*describe, *run_agent, *context, request@, plan, result@));
    proof {
        summary_is_short_and_single_line(
            report_text(
                match task_result {
                    Some(t) => Some(t@),
                    None => None,
                },
                plan.message@,
            ),
        );
    }
    if closed {
        assert(commands_of(record.commands@) =~= commands_of(before.commands@) + cmds + notice(
            *context,
            plan,
            result@,
        ));
        return Ok(result);
    }
    let ghost was = record.commands@;
    record.commands.push(notify_arguments(context, result.as_str()));
    let args = notify_arguments(context, result.as_str());
    let ghost sent = args;
    let posted = execute(args);
    let ghost got = posted;
    assert(execute.ensures((sent,), got));
    proof {
        assert(commands_of(record.commands@) =~= commands_of(was).push(
            spec_notify_arguments(*context, result@),
        ));
        assert(commands_of(record.commands@) =~= commands_of(before.commands@) + cmds + notice(
            *context,
            plan,
            result@,
        ));
    }
    match posted {
        Ok(()) => Ok(result),
        Err(e) => {
            assert(executed_err(*execute, spec_notify_arguments(*context, result@), e));
            Err(e)
        },
    }
}

/// Each action of a list that passes the checks passes them.
proof fn lemma_valid_each(context: Context, request: Seq<char>, actions: Seq<Action>)
    requires
        planner::validate_all(context, request, actions) is Ok,
    ensures
        forall|k: int|
            0 <= k < actions.len() ==> spec_validate(context, request, #[trigger] actions[k]) is Ok,
    decreases actions.len(),
{
    if actions.len() > 0 {
        lemma_valid_each(context, request, actions.drop_first());
        assert forall|k: int| 0 <= k < actions.len() implies spec_validate(
            context,
            request,
            #[trigger] actions[k],
        ) is Ok by {
            if k > 0 {
                assert(actions[k] == actions.drop_first()[k - 1]);
            }
        }
    }
}

/// Carries out a request in the focused context (see `run_with_context`).
pub fn run_request<
    F: Fn(String) -> Result<Plan, Error>,
    X: Fn(Vec<String>) -> Result<(), Error>,
    D: Fn(String, String) -> String,
    G: Fn(String, String) -> Result<String, Error>,
>(
    request: &str,
    context: &Context,
    context_json: &str,
    ask: &F,
    execute: &X,
    describe: &D,
    run_agent: &G,
    record: &mut Record,
) -> (r: Result<String, Error>)
    requires
        !intent_panics(request@),
        forall|p: String| ask.requires((p,)),
        forall|args: Vec<String>| execute.requires((args,)),
        forall|t: String, cwd: String| describe.requires((t, cwd)),
        forall|p: String, cwd: String| run_agent.requires((p, cwd)),
    ensures
        agent_outcome(
            *ask,
            *execute,
            *describe,
            *run_agent,
            *context,
            context_json@,
            request@,
            *old(record),
            *final(record),
            r,
        ),
        r matches Ok(s) ==> s@.len() <= SUMMARY_CHARS + 1 && !s@.contains('\n'),
        r matches Ok(s) ==> (spec_parse(request@) matches Some(expected) ==> s@ == spec_summary(
            report_text(None, intent_message(expected)),
        )),
{
    run_with_context(context, request, context_json, ask, execute, describe, run_agent, record)
}

/// Whether the installed agent runs, judged from a `ps -axo pid=,command=`
/// listing (see `platform::service::is_running`).
pub fn is_running(home: &str, listing: &str) -> (r: Result<bool, Error>)
    ensures
        match crate::platform::service::spec_process_id(
            listing@,
            crate::platform::service::installed_binary(home@),
        ) {
            Ok(found) => r matches Ok(b) && b == found is Some,
            Err(e) => r matches Err(err) && err.0@ == e,
        },
{
    crate::platform::service::is_running(home, listing)
}

/// Installs the agent with the executable `binary` (see
/// `platform::service::install`).
pub fn install<
    Read: Fn(String) -> Result<Option<Vec<u8>>, Error>,
    Exists: Fn(String) -> bool,
    Place: Fn(String, Contents) -> Result<(), Error>,
    Remove: Fn(String, bool) -> Result<(), Error>,
    Run: Fn(String, Vec<String>) -> Result<Output, Error>,
    Sleep: Fn(u64),
    Clock: Fn() -> u64,
>(
    binary: &str,
    home: Option<String>,
    files: &Files<Read, Exists, Place, Remove>,
    processes: &Processes<Run, Sleep, Clock>,
) -> (r: Result<(), Error>)
    requires
        files_ready(files),
        processes_ready(processes),
    ensures
        r is Ok ==> (home matches Some(h) && crate::platform::service::installed(
            files,
            h@,
            binary@,
        ) && crate::platform::service::started(processes, h@)),
        r matches Err(e) ==> crate::platform::wispr::stop_failed(processes, e) || (home is None
            && e.0@ == crate::platform::service::HOME_UNAVAILABLE@) || (home matches Some(h)
            && crate::platform::service::install_failed(files, processes, h@, binary@, e))
            || crate::platform::host::run_failed(
            processes,
            "/usr/bin/open"@,
            crate::platform::wispr::start_arguments(),
            e,
        ),
{
    crate::platform::service::install(binary, home, files, processes)
}

/// Removes the agent (see `platform::service::uninstall`).
pub fn uninstall<
    Read: Fn(String) -> Result<Option<Vec<u8>>, Error>,
    Exists: Fn(String) -> bool,
    Place: Fn(String, Contents) -> Result<(), Error>,
    Remove: Fn(String, bool) -> Result<(), Error>,
    Run: Fn(String, Vec<String>) -> Result<Output, Error>,
    Sleep: Fn(u64),
    Clock: Fn() -> u64,
>(
    home: Option<String>,
    files: &Files<Read, Exists, Place, Remove>,
    processes: &Processes<Run, Sleep, Clock>,
) -> (r: Result<(), Error>)
    requires
        files_ready(files),
        processes_ready(processes),
    ensures
        r is Ok ==> (home matches Some(h) && crate::platform::service::uninstalled(files, h@)
            && crate::platform::service::stopped(processes, h@)),
        r matches Err(e) ==> crate::platform::wispr::stop_failed(processes, e) || (home is None
            && e.0@ == crate::platform::service::HOME_UNAVAILABLE@) || (home matches Some(h)
            && crate::platform::service::uninstall_failed(files, processes, h@, e))
            || crate::platform::host::run_failed(
            processes,
            "/usr/bin/open"@,
            crate::platform::wispr::start_arguments(),
            e,
        ),
{
    crate::platform::service::uninstall(home, files, processes)
}

} // verus!
