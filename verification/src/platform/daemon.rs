//! The decisions of the agent's worker thread. The thread receives events
//! from the hotkey listener, waiting at most 15 seconds for a transcript
//! after the hotkey is released; for each event (or the end of that wait)
//! `Worker` says what to do, and the thread does it: capture the focused
//! CMUX context, show a phase, stop the capture, run the request.
use crate::agent::intent::{intent_message, intent_panics, spec_parse};
use crate::agent::{
    agent_outcome, commands_of, report_text, run_with_context, spec_summary, summary, Plan, Record,
    SUMMARY_CHARS,
};
use crate::cmux::actions::{notify_arguments, spec_notify_arguments, views};
use crate::cmux::Context;
use crate::error::Error;
use crate::indicator::{Handle, Phase};
use crate::text::{chars_of, concat, string_of, trim, trimmed};
use vstd::prelude::*;

verus! {

/// What the listener and the capture window report to the worker.
#[derive(Debug)]
pub enum Event {
    Ready,
    Unavailable,
    Pressed,
    Released,
    Transcript(String),
    Cancelled,
}

/// What the worker does for one event.
#[derive(Clone, Copy, Debug, PartialEq, Eq, Structural)]
pub struct Reaction {
    /// Capture the focused CMUX context now, for the request to come.
    pub capture_context: bool,
    /// Drop the captured context.
    pub forget_context: bool,
    /// Stop the capture window.
    pub cancel_capture: bool,
    /// Run the transcript as a request (with the captured context, or one
    /// captured now).
    pub run_request: bool,
    /// The phase to show, if it changes.
    pub phase: Option<Phase>,
}

/// The worker's state: whether a transcript is awaited.
#[derive(Debug)]
pub struct Worker {
    pub awaiting_transcript: bool,
}

/// The reaction that does nothing.
pub open spec fn quiet() -> Reaction {
    Reaction {
        capture_context: false,
        forget_context: false,
        cancel_capture: false,
        run_request: false,
        phase: None,
    }
}

/// The reaction to each event.
pub open spec fn spec_reaction(event: Event) -> Reaction {
    match event {
        Event::Ready => Reaction { phase: Some(Phase::Ready), ..quiet() },
        Event::Unavailable => Reaction { phase: Some(Phase::Off), ..quiet() },
        Event::Pressed => Reaction {
            capture_context: true,
            phase: Some(Phase::Listening),
            ..quiet()
        },
        Event::Released => Reaction { phase: Some(Phase::Transcribing), ..quiet() },
        Event::Transcript(_) => Reaction { run_request: true, ..quiet() },
        Event::Cancelled => Reaction {
            forget_context: true,
            cancel_capture: true,
            phase: Some(Phase::Ready),
            ..quiet()
        },
    }
}

/// A transcript is awaited after a release, until the next press,
/// transcript or cancel; other events leave the wait as it was.
pub open spec fn awaits_after(awaiting: bool, event: Event) -> bool {
    match event {
        Event::Released => true,
        Event::Pressed | Event::Transcript(_) | Event::Cancelled => false,
        _ => awaiting,
    }
}

impl Worker {
    /// A worker that awaits nothing.
    pub fn new() -> (w: Worker)
        ensures
            !w.awaiting_transcript,
    {
        Worker { awaiting_transcript: false }
    }

    /// Whether the next receive waits with the transcript deadline.
    pub fn waits_for_transcript(&self) -> (b: bool)
        ensures
            b == self.awaiting_transcript,
    {
        self.awaiting_transcript
    }

    /// The reaction to an event.
    pub fn on_event(&mut self, event: &Event) -> (r: Reaction)
        ensures
            r == spec_reaction(*event),
            final(self).awaiting_transcript == awaits_after(old(self).awaiting_transcript, *event),
    {
        match event {
            Event::Ready => Reaction {
                capture_context: false,
                forget_context: false,
                cancel_capture: false,
                run_request: false,
                phase: Some(Phase::Ready),
            },
            Event::Unavailable => Reaction {
                capture_context: false,
                forget_context: false,
                cancel_capture: false,
                run_request: false,
                phase: Some(Phase::Off),
            },
            Event::Pressed => {
                self.awaiting_transcript = false;
                Reaction {
                    capture_context: true,
                    forget_context: false,
                    cancel_capture: false,
                    run_request: false,
                    phase: Some(Phase::Listening),
                }
            },
            Event::Released => {
                self.awaiting_transcript = true;
                Reaction {
                    capture_context: false,
                    forget_context: false,
                    cancel_capture: false,
                    run_request: false,
                    phase: Some(Phase::Transcribing),
                }
            },
            Event::Transcript(_) => {
                self.awaiting_transcript = false;
                Reaction {
                    capture_context: false,
                    forget_context: false,
                    cancel_capture: false,
                    run_request: true,
                    phase: None,
                }
            },
            Event::Cancelled => {
                self.awaiting_transcript = false;
                Reaction {
                    capture_context: false,
                    forget_context: true,
                    cancel_capture: true,
                    run_request: false,
                    phase: Some(Phase::Ready),
                }
            },
        }
    }

    /// The reaction when no transcript came in time: the wait ends, the
    /// capture stops and the context is dropped.
    pub fn on_timeout(&mut self) -> (r: Reaction)
        ensures
            r == (Reaction {
                forget_context: true,
                cancel_capture: true,
                phase: Some(Phase::Ready),
                ..quiet()
            }),
            !final(self).awaiting_transcript,
    {
        self.awaiting_transcript = false;
        Reaction {
            capture_context: false,
            forget_context: true,
            cancel_capture: true,
            run_request: false,
            phase: Some(Phase::Ready),
        }
    }
}

/// The phase that reports a request: `Done` or `Error`; `Ready` follows
/// after a short pause.
pub fn finished(succeeded: bool) -> (p: Phase)
    ensures
        p == if succeeded {
            Phase::Done
        } else {
            Phase::Error
        },
{
    if succeeded {
        Phase::Done
    } else {
        Phase::Error
    }
}

/// Every event that is not a release leaves the worker awaiting no more
/// than before, and a release always starts a wait: a transcript is awaited
/// exactly between a release and the next press, transcript or cancel.
pub proof fn awaiting_only_after_release(awaiting: bool, event: Event)
    ensures
        awaits_after(awaiting, event) ==> (event is Released || awaiting),
        event is Released ==> awaits_after(awaiting, event),
        (event is Pressed || event is Transcript || event is Cancelled) ==> !awaits_after(
            awaiting,
            event,
        ),
{
}

/// The error where no CMUX context could be had for a transcript.
pub const NO_CONTEXT: &'static str = "could not capture the focused CMUX workspace";

/// How long the result of a request is shown before `Ready`, in
/// milliseconds.
pub const RESULT_SHOWN_MS: u64 = 700;

/// The phase that ends a request: `Done` on success, `Error` on failure.
pub open spec fn finished_phase(r: Result<String, Error>) -> Phase {
    if r is Ok {
        Phase::Done
    } else {
        Phase::Error
    }
}

/// Shows a phase on the indicator and adds it to the phases shown.
pub fn show(indicator: &Handle, shown: &mut Vec<Phase>, phase: Phase)
    ensures
        final(shown)@ == old(shown)@.push(phase),
{
    indicator.set(phase);
    shown.push(phase);
}

/// The context that a transcript runs in: the one captured at the press,
/// or else one that `capture` gave.
pub open spec fn in_context<K: Fn() -> Result<Context, Error>>(
    captured: Option<Context>,
    capture: K,
    context: Context,
) -> bool {
    captured == Some(context) || (captured is None && capture.ensures(
        (),
        Ok::<Context, Error>(context),
    ))
}

/// `report` was given `message`.
pub open spec fn reported<P: Fn(String)>(report: P, message: Seq<char>) -> bool {
    exists|m: String, u: ()| #[trigger] report.ensures((m,), u) && m@ == message
}

/// What running a transcript in the context `c` gives, `r`, with the
/// record going from `before` to `after`: the trimmed transcript is
/// carried out in `c`, with the JSON that `context_json` wrote of `c` (see
/// `agent_outcome`), and a failure then has its summary posted as a
/// notification in `c`, handed to `execute` and added to the record.
pub open spec fn ran_in<
    J: Fn(Context) -> String,
    F: Fn(String) -> Result<Plan, Error>,
    X: Fn(Vec<String>) -> Result<(), Error>,
    D: Fn(String, String) -> String,
    G: Fn(String, String) -> Result<String, Error>,
>(
    c: Context,
    transcript: Seq<char>,
    context_json: J,
    ask: F,
    execute: X,
    describe: D,
    run_agent: G,
    before: Record,
    after: Record,
    r: Result<String, Error>,
) -> bool {
    exists|json: String, mid: Record|
        #![trigger context_json.ensures((c,), json), agent_outcome(ask, execute, describe, run_agent, c, json@, trim(transcript), before, mid, r)]
        context_json.ensures((c,), json) && agent_outcome(
            ask,
            execute,
            describe,
            run_agent,
            c,
            json@,
            trim(transcript),
            before,
            mid,
            r,
        ) && after.prompts == mid.prompts && match r {
            Ok(_) => after.commands == mid.commands,
            Err(e) => commands_of(after.commands@) == commands_of(mid.commands@).push(
                spec_notify_arguments(c, spec_summary(e.0@)),
            ) && exists|args: Vec<String>, answer: Result<(), Error>|
                #[trigger] execute.ensures((args,), answer) && views(args@) == spec_notify_arguments(
                    c,
                    spec_summary(e.0@),
                ),
        }
}

/// Runs a transcript as a request: in the context captured at the press,
/// or else one captured now (`capture`, whose failure is reported). With a
/// context the indicator shows `Working` and the trimmed transcript runs
/// (see `agent::run_with_context`; `context_json` writes the JSON of a
/// context for the planning prompt); a failure is reported, shown as
/// `Error` and, with a context, posted as a notification; success is shown
/// as `Done`. After a short pause the indicator shows `Ready`. Each phase
/// shown is also added to `shown`, in order.
pub fn run_transcript<
    K: Fn() -> Result<Context, Error>,
    J: Fn(Context) -> String,
    F: Fn(String) -> Result<Plan, Error>,
    X: Fn(Vec<String>) -> Result<(), Error>,
    D: Fn(String, String) -> String,
    G: Fn(String, String) -> Result<String, Error>,
    P: Fn(String),
    S: Fn(u64),
>(
    transcript: &str,
    captured: Option<Context>,
    capture: &K,
    context_json: &J,
    ask: &F,
    execute: &X,
    describe: &D,
    run_agent: &G,
    indicator: &Handle,
    shown: &mut Vec<Phase>,
    record: &mut Record,
    report: &P,
    sleep: &S,
) -> (r: Result<String, Error>)
    requires
        !intent_panics(trim(transcript@)),
        capture.requires(()),
        forall|c: Context| context_json.requires((c,)),
        forall|p: String| ask.requires((p,)),
        forall|args: Vec<String>| execute.requires((args,)),
        forall|t: String, cwd: String| describe.requires((t, cwd)),
        forall|p: String, cwd: String| run_agent.requires((p, cwd)),
        forall|m: String| report.requires((m,)),
        forall|ms: u64| sleep.requires((ms,)),
    ensures
        captured is None && (forall|a: Result<Context, Error>| #[trigger] capture.ensures((), a)
            ==> a is Err) ==> (r matches Err(e) && e.0@ == NO_CONTEXT@),
        r matches Ok(s) ==> s@.len() <= SUMMARY_CHARS + 1 && !s@.contains('\n'),
        r matches Ok(s) ==> (spec_parse(trim(transcript@)) matches Some(expected) ==> s@
            == spec_summary(report_text(None, intent_message(expected)))),
        trim(transcript@).len() == 0 && (captured is Some || (forall|
            a: Result<Context, Error>,
        | #[trigger] capture.ensures((), a) ==> a is Ok)) ==> (r matches Err(e) && e.0@
            == "the request is empty"@),
        r matches Err(e) ==> reported(*report, "request failed: "@ + e.0@),
        (exists|c: Context| #[trigger] in_context(captured, *capture, c)) && final(shown)@ == old(
            shown,
        )@ + seq![Phase::Working, finished_phase(r), Phase::Ready] || captured is None && (r matches Err(
            e,
        ) && e.0@ == NO_CONTEXT@) && (exists|err: Error|
            #[trigger] capture.ensures((), Err::<Context, Error>(err))) && final(shown)@ == old(
            shown,
        )@ + seq![Phase::Error, Phase::Ready],
        (exists|c: Context|
            #[trigger] in_context(captured, *capture, c) && ran_in(
                c,
                transcript@,
                *context_json,
                *ask,
                *execute,
                *describe,
                *run_agent,
                *old(record),
                *final(record),
                r,
            )) || (captured is None && (r matches Err(e) && e.0@ == NO_CONTEXT@) && *final(record)
            == *old(record) && exists|err: Error|
            #[trigger] capture.ensures((), Err::<Context, Error>(err)) && reported(
                *report,
                "CMUX context retry failed: "@ + err.0@,
            )),
{
    let ghost given = captured;
    let context = match captured {
        Some(c) => Some(c),
        None => {
            let got = capture();
            let ghost answer = got;
            match got {
                Ok(c) => {
                    assert(capture.ensures((), answer));
                    Some(c)
                },
                Err(e) => {
                    let message = string_of(
                        &concat(&chars_of("CMUX context retry failed: "), &chars_of(e.0.as_str())),
                    );
                    let ghost said = message;
                    let u = report(message);
                    assert(report.ensures((said,), u));
                    assert(capture.ensures((), answer));
                    None
                },
            }
        },
    };
    assert(context matches Some(c) ==> in_context(given, *capture, c));
    let request = string_of(&trimmed(&chars_of(transcript)));
    let ghost before = *record;
    let ghost mut json_given: Option<String> = None;
    let ghost mut mid = *record;
    let result = match &context {
        Some(c) => {
            show(indicator, shown, Phase::Working);
            let json = context_json(c.copied());
            proof {
                json_given = Some(json);
            }
            let done = run_with_context(
                c,
                request.as_str(),
                json.as_str(),
                ask,
                execute,
                describe,
                run_agent,
                record,
            );
            proof {
                mid = *record;
            }
            done
        },
        None => Err(Error(NO_CONTEXT.to_owned())),
    };
    match &result {
        Err(e) => {
            let message = string_of(&concat(&chars_of("request failed: "), &chars_of(e.0.as_str())));
            let ghost said = message;
            let u = report(message);
            assert(report.ensures((said,), u));
            show(indicator, shown, Phase::Error);
            if let Some(c) = &context {
                let ghost was = record.commands@;
                record.commands.push(notify_arguments(c, summary(e.0.as_str()).as_str()));
                let args = notify_arguments(c, summary(e.0.as_str()).as_str());
                let ghost sent = args;
                let answer = execute(args);
                assert(execute.ensures((sent,), answer));
                assert(in_context(given, *capture, *c));
                assert(commands_of(record.commands@) =~= commands_of(was).push(
                    spec_notify_arguments(*c, spec_summary(e.0@)),
                ));
            }
        },
        Ok(_) => show(indicator, shown, Phase::Done),
    }
    proof {
        if let Some(c) = context {
            assert(context_json.ensures((c,), json_given->0));
            assert(ran_in(
                c,
                transcript@,
                *context_json,
                *ask,
                *execute,
                *describe,
                *run_agent,
                before,
                *record,
                result,
            ));
        }
    }
    sleep(RESULT_SHOWN_MS);
    show(indicator, shown, Phase::Ready);
    result
}

} // verus!
