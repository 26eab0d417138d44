//! Planning: a request becomes a plan of CMUX actions, either directly (see
//! `intent`) or by asking the planning model, at most twice, and checking
//! what it answers.
use super::intent::{self, intent_is, intent_panics, spec_parse, IntentSpec};
use crate::cmux::validation::{spec_validate, unit_result, validate as validate_action};
use crate::cmux::{Action, Context};
use crate::error::Error;
use crate::text::{chars_of, concat, string_of};
use vstd::prelude::*;

verus! {

/// The most actions that one plan may hold.
pub const MAX_ACTIONS: usize = 12;

/// How many times the model is asked for a plan.
pub const ATTEMPTS: usize = 2;

/// A plan: the actions to carry out, or (with `fallback`) a task for the
/// agent model; `message` reports the result.
#[derive(Debug)]
pub struct Plan {
    pub actions: Vec<Action>,
    pub fallback: bool,
    pub message: String,
}

/// The instructions that open every planning prompt.
pub const RULES: &'static str = "Return only JSON: {\"actions\":[],\"fallback\":false,\"message\":\"short result\"}.\nEvery request needs actions or fallback=true. Never use tools.\nActions: open_browser(url,[direction]); new_terminal(direction); focus_pane(pane); swap_panes(pane,target); resize_pane(pane,direction,amount); move_surface(surface,pane); split_surface(surface,direction); new_workspace([name],[cwd]); select_workspace(workspace); rename_workspace(name,[workspace]); rename_tab(name,[surface]); open(target); sidebar(action); flash; close_surface([surface]); close_workspace([workspace]).\nDirections: left/right/up/down. Sidebar: show/hide/toggle/focus. Use only context refs. Never close unless asked.\nUse pane and surface refs only from cmux.tree. Use cmux.workspaces refs only to select a workspace.\nPrefer direct actions whenever the schema can satisfy the request. Use open_browser for a site, URL, or site name by itself. Use fallback=true, with no actions, only for filesystem or shell work, interaction inside an existing web page, or CMUX work outside the schema.\nExample for open GitHub and Google: {\"actions\":[{\"kind\":\"open_browser\",\"url\":\"https://github.com\",\"direction\":\"right\"},{\"kind\":\"open_browser\",\"url\":\"https://google.com\",\"direction\":\"down\"}],\"fallback\":false,\"message\":\"Opened two browsers\"}.";

/// The note added to the prompt after an invalid answer.
pub const RETRY_NOTE: &'static str = "\nThe previous response was invalid. Follow the action schema exactly.";

/// The first error among the checks of the actions, in order.
pub open spec fn validate_all(context: Context, request: Seq<char>, actions: Seq<Action>) -> Result<
    (),
    Seq<char>,
>
    decreases actions.len(),
{
    if actions.len() == 0 {
        Ok(())
    } else {
        match spec_validate(context, request, actions[0]) {
            Err(e) => Err(e),
            Ok(()) => validate_all(context, request, actions.drop_first()),
        }
    }
}

/// The prompt of the given attempt: the rules, the context, and one retry
/// note for each earlier attempt.
pub open spec fn spec_prompt(context_json: Seq<char>, attempt: nat) -> Seq<char>
    decreases attempt,
{
    if attempt == 0 {
        RULES@ + "\n"@ + context_json
    } else {
        spec_prompt(context_json, (attempt - 1) as nat) + RETRY_NOTE@
    }
}

/// What the check of a model's plan gives: the error, or the plan's fallback
/// flag once an empty plan is turned into a fallback.
pub open spec fn spec_check(plan: Plan, context: Context, request: Seq<char>) -> Result<
    bool,
    Seq<char>,
> {
    if plan.actions@.len() > MAX_ACTIONS {
        Err("model returned too many CMUX actions"@)
    } else if plan.actions@.len() == 0 {
        Ok(true)
    } else if plan.fallback {
        Err("model mixed direct actions with fallback"@)
    } else {
        match validate_all(context, request, plan.actions@) {
            Err(e) => Err(e),
            Ok(()) => Ok(false),
        }
    }
}

/// A plan that the checks accept: at most the limit of actions, actions or
/// fallback but not both, and every action valid in the context.
pub open spec fn acceptable(plan: Plan, context: Context, request: Seq<char>) -> bool {
    &&& plan.actions@.len() <= MAX_ACTIONS
    &&& (plan.actions@.len() == 0 <==> plan.fallback)
    &&& validate_all(context, request, plan.actions@) is Ok
}

/// Checks each action of a plan, in order.
pub fn validate_actions(plan: &Plan, request: &str, context: &Context) -> (r: Result<(), Error>)
    ensures
        unit_result(r) == validate_all(*context, request@, plan.actions@),
{
    let mut i: usize = 0;
    assert(plan.actions@.skip(0) == plan.actions@);
    while i < plan.actions.len()
        invariant
            i <= plan.actions@.len(),
            validate_all(*context, request@, plan.actions@) == validate_all(
                *context,
                request@,
                plan.actions@.skip(i as int),
            ),
        decreases plan.actions@.len() - i,
    {
        assert(plan.actions@.skip(i as int).drop_first() == plan.actions@.skip(i + 1));
        let checked = validate_action(context, request, &plan.actions[i]);
        if checked.is_err() {
            return checked;
        }
        i = i + 1;
    }
    Ok(())
}

/// Checks a plan that the model answered; an empty plan becomes a fallback.
pub fn validate(plan: Plan, request: &str, context: &Context) -> (r: Result<Plan, Error>)
    ensures
        match spec_check(plan, *context, request@) {
            Err(e) => r matches Err(err) && err.0@ == e,
            Ok(fallback) => r matches Ok(p) && p.actions == plan.actions && p.message
                == plan.message && p.fallback == fallback && acceptable(p, *context, request@),
        },
{
    let mut plan = plan;
    if plan.actions.len() > MAX_ACTIONS {
        return Err(Error("model returned too many CMUX actions".to_owned()));
    }
    if plan.actions.len() == 0 {
        plan.fallback = true;
    } else if plan.fallback {
        return Err(Error("model mixed direct actions with fallback".to_owned()));
    }
    match validate_actions(&plan, request, context) {
        Err(e) => Err(e),
        Ok(()) => Ok(plan),
    }
}

/// The attempt numbered `attempt` failed with `error`: asked that attempt's
/// prompt, `ask` answered with that error, or with a plan that the checks
/// refuse with it.
pub open spec fn plan_failed_with<F: Fn(String) -> Result<Plan, Error>>(
    ask: F,
    context_json: Seq<char>,
    context: Context,
    request: Seq<char>,
    attempt: nat,
    error: Error,
) -> bool {
    exists|p: String, answer: Result<Plan, Error>|
        #[trigger] ask.ensures((p,), answer) && p@ == spec_prompt(context_json, attempt)
            && match answer {
            Ok(plan) => spec_check(plan, context, request) == Err::<bool, Seq<char>>(error.0@),
            Err(e) => e.0@ == error.0@,
        }
}

/// The planning prompt: the rules, then the JSON of the request, the CMUX
/// context and the directory (`context_json`, written by the caller).
pub fn prompt(context_json: &str) -> (p: String)
    ensures
        p@ == spec_prompt(context_json@, 0),
{
    let text = concat(&concat(&chars_of(RULES), &chars_of("\n")), &chars_of(context_json));
    string_of(&text)
}

/// What `create` gives for a request: for a request that `intent::parse`
/// understands, its one action once the checks pass, else the check's error;
/// for any other, a plan that the checks accept and that `ask` answered to the
/// prompt of one of the attempts, else the error of a failed attempt.
pub open spec fn plan_outcome<F: Fn(String) -> Result<Plan, Error>>(
    request: Seq<char>,
    context: Context,
    context_json: Seq<char>,
    ask: F,
    r: Result<Plan, Error>,
) -> bool {
    match spec_parse(request) {
        Some(expected) => match r {
            Ok(plan) => plan.actions@.len() == 1 && intent_is(
                intent::Intent { action: plan.actions@[0], message: plan.message },
                expected,
            ) && !plan.fallback && validate_all(context, request, plan.actions@) is Ok,
            Err(e) => exists|found: intent::Intent|
                intent_is(found, expected) && spec_validate(context, request, found.action)
                    == Err::<(), Seq<char>>(e.0@),
        },
        None => match r {
            Ok(plan) => acceptable(plan, context, request) && exists|
                p: String,
                answer: Plan,
            |
                #![trigger ask.ensures((p,), Ok::<Plan, Error>(answer))]
                ask.ensures((p,), Ok::<Plan, Error>(answer)) && (exists|attempt: nat|
                    attempt < ATTEMPTS && p@ == #[trigger] spec_prompt(context_json, attempt))
                    && answer.actions == plan.actions && answer.message == plan.message,
            Err(e) => plan_failed_with(
                ask,
                context_json,
                context,
                request,
                (ATTEMPTS - 1) as nat,
                e,
            ),
        },
    }
}

/// `after` is `before` followed by the prompts of the first `n` attempts.
pub open spec fn prompts_asked(
    before: Seq<String>,
    after: Seq<String>,
    context_json: Seq<char>,
    n: nat,
) -> bool {
    &&& after.len() == before.len() + n
    &&& after.take(before.len() as int) == before
    &&& forall|k: int|
        0 <= k < n ==> (#[trigger] after[before.len() + k])@ == spec_prompt(context_json, k as nat)
}

/// The prompts that `create` hands to the model, added to `before` to give
/// `after`: none for a request that `intent::parse` understands; else the
/// first attempt's, and the second's only after the first failed, and both
/// where the plan failed.
pub open spec fn prompts_outcome<F: Fn(String) -> Result<Plan, Error>>(
    request: Seq<char>,
    context: Context,
    context_json: Seq<char>,
    ask: F,
    before: Seq<String>,
    after: Seq<String>,
    r: Result<Plan, Error>,
) -> bool {
    if spec_parse(request) is Some {
        after == before
    } else {
        exists|n: nat|
            1 <= n <= ATTEMPTS && #[trigger] prompts_asked(before, after, context_json, n) && (r is Err
                ==> n == ATTEMPTS) && (n > 1 ==> exists|e: Error|
                #[trigger] plan_failed_with(ask, context_json, context, request, 0, e))
    }
}

/// The plan of a request in a context. A request that `intent::parse`
/// understands is planned without the model. Otherwise `ask` is given the
/// planning prompt (built around `context_json`) and answers a plan; an
/// answer that fails or does not pass `validate` is retried once with a note,
/// and the second attempt's error is returned when both fail.
pub fn create<F: Fn(String) -> Result<Plan, Error>>(
    request: &str,
    context: &Context,
    context_json: &str,
    ask: &F,
    prompts: &mut Vec<String>,
) -> (r: Result<Plan, Error>)
    requires
        !intent_panics(request@),
        forall|p: String| ask.requires((p,)),
    ensures
        plan_outcome(request@, *context, context_json@, *ask, r),
        prompts_outcome(request@, *context, context_json@, *ask, old(prompts)@, final(prompts)@, r),
{
    let ghost before = prompts@;
    if let Some(found) = intent::parse(request) {
        let ghost found_intent = found;
        let plan = Plan { actions: vec![found.action], fallback: false, message: found.message };
        assert(plan.actions@ =~= seq![found_intent.action]);
        assert(plan.actions@.drop_first() =~= Seq::<Action>::empty());
        return match validate_actions(&plan, request, context) {
            Err(e) => {
                assert(validate_all(*context, request@, plan.actions@.drop_first()) == Ok::<
                    (),
                    Seq<char>,
                >(()));
                assert(spec_validate(*context, request@, found_intent.action) == Err::<(), Seq<char>>(
                    e.0@,
                ));
                Err(e)
            },
            Ok(()) => Ok(plan),
        };
    }
    assert(prompts@.take(before.len() as int) =~= before);
    let mut prompt = prompt(context_json);
    let mut last_error = Error("no plan attempt was made".to_owned());
    let mut attempt: usize = 0;
    while attempt < ATTEMPTS
        invariant
            attempt <= ATTEMPTS,
            prompt@ == spec_prompt(context_json@, attempt as nat),
            forall|p: String| ask.requires((p,)),
            spec_parse(request@) is None,
            attempt > 0 ==> plan_failed_with(
                *ask,
                context_json@,
                *context,
                request@,
                (attempt - 1) as nat,
                last_error,
            ),
            prompts_asked(before, prompts@, context_json@, attempt as nat),
            before == old(prompts)@,
            attempt > 1 ==> exists|e: Error|
                #[trigger] plan_failed_with(*ask, context_json@, *context, request@, 0, e),
        decreases ATTEMPTS - attempt,
    {
        proof {
            if attempt == 1 {
                assert(plan_failed_with(*ask, context_json@, *context, request@, 0, last_error));
            }
        }
        let ghost was = prompts@;
        prompts.push(prompt.clone());
        proof {
            assert(prompts@.take(before.len() as int) =~= before) by {
                assert(was.take(before.len() as int) == before);
            }
            assert forall|k: int| 0 <= k < attempt + 1 implies (#[trigger] prompts@[before.len()
                + k])@ == spec_prompt(context_json@, k as nat) by {
                if k < attempt {
                    assert(prompts@[before.len() + k] == was[before.len() + k]);
                }
            }
            assert(prompts_asked(before, prompts@, context_json@, (attempt + 1) as nat));
        }
        let asked = prompt.clone();
        let ghost sent = asked;
        let answer = ask(asked);
        let ghost got = answer;
        proof {
            assert(ask.ensures((sent,), got));
            assert(sent@ == spec_prompt(context_json@, attempt as nat));
        }
        match answer {
            Ok(answer) => {
                let ghost answered = answer;
                match validate(answer, request, context) {
                    Ok(plan) => {
                        assert(ask.ensures((prompt,), Ok::<Plan, Error>(answered)));
                        assert(prompts_asked(before, prompts@, context_json@, (attempt + 1) as nat));
                        if attempt == 1 {
                            assert(plan_failed_with(
                                *ask,
                                context_json@,
                                *context,
                                request@,
                                0,
                                last_error,
                            ));
                        }
                        assert(prompts_outcome(
                            request@,
                            *context,
                            context_json@,
                            *ask,
                            before,
                            prompts@,
                            Ok::<Plan, Error>(plan),
                        ));
                        return Ok(plan);
                    },
                    Err(e) => {
                        last_error = e;
                    },
                }
            },
            Err(e) => {
                last_error = e;
            },
        }
        prompt = string_of(&concat(&chars_of(prompt.as_str()), &chars_of(RETRY_NOTE)));
        attempt = attempt + 1;
    }
    assert(prompts_asked(before, prompts@, context_json@, ATTEMPTS as nat));
    Err(last_error)
}

} // verus!
