use fx_line::agent::{Plan, Record};
use fx_line::cmux::Context;
use fx_line::error::Error;
use fx_line::indicator::{Handle, Phase};
use fx_line::platform::daemon::{run_transcript, NO_CONTEXT, RESULT_SHOWN_MS};
use std::cell::RefCell;

fn context() -> Context {
    Context {
        cwd: Some("/tmp".into()),
        pane: "pane:1".into(),
        surface: "surface:1".into(),
        surface_type: "terminal".into(),
        tree: "pane:1 surface:1 workspace:1".into(),
        window: "window:1".into(),
        workspace: "workspace:1".into(),
        workspaces: "workspace:1 pane:1".into(),
        socket: "/tmp/cmux.sock".into(),
    }
}

#[test]
fn a_transcript_runs_in_the_captured_context() {
    let indicator = Handle::new();
    let mut shown: Vec<Phase> = Vec::new();
    let commands = RefCell::new(Vec::new());
    let reports = RefCell::new(Vec::new());
    let slept = RefCell::new(0u64);
    let capture = || -> Result<Context, Error> { Err(Error("unused".into())) };
    let json = |_c: Context| "{}".to_string();
    let ask = |_p: String| -> Result<Plan, Error> { Err(Error("unused".into())) };
    let execute = |args: Vec<String>| -> Result<(), Error> {
        commands.borrow_mut().push(args);
        Ok(())
    };
    let describe = |_t: String, _c: String| String::new();
    let agent = |_p: String, _c: String| -> Result<String, Error> { Ok(String::new()) };
    let report = |m: String| reports.borrow_mut().push(m);
    let sleep = |ms: u64| *slept.borrow_mut() += ms;
    let result = run_transcript(
        "  Flash.  ",
        Some(context()),
        &capture,
        &json,
        &ask,
        &execute,
        &describe,
        &agent,
        &indicator,
        &mut shown, &mut Record::new(),
        &report,
        &sleep,
    );
    assert_eq!(result.unwrap(), "Flashed CMUX");
    assert_eq!(commands.borrow()[0][0], "trigger-flash");
    assert!(reports.borrow().is_empty());
    assert_eq!(*slept.borrow(), RESULT_SHOWN_MS);
    assert_eq!(indicator.get(), Phase::Ready);
    assert_eq!(shown, [Phase::Working, Phase::Done, Phase::Ready]);
}

#[test]
fn a_transcript_without_any_context_fails() {
    let indicator = Handle::new();
    let mut shown: Vec<Phase> = Vec::new();
    let reports = RefCell::new(Vec::new());
    let capture = || -> Result<Context, Error> { Err(Error("no cmux".into())) };
    let json = |_c: Context| "{}".to_string();
    let ask = |_p: String| -> Result<Plan, Error> { Err(Error("unused".into())) };
    let execute = |_a: Vec<String>| -> Result<(), Error> { panic!("nothing runs") };
    let describe = |_t: String, _c: String| String::new();
    let agent = |_p: String, _c: String| -> Result<String, Error> { Ok(String::new()) };
    let report = |m: String| reports.borrow_mut().push(m);
    let sleep = |_ms: u64| {};
    let result = run_transcript(
        "flash", None, &capture, &json, &ask, &execute, &describe, &agent, &indicator, &mut shown, &mut Record::new(),
        &report, &sleep,
    );
    assert_eq!(result.unwrap_err().0, NO_CONTEXT);
    assert_eq!(
        *reports.borrow(),
        [
            "CMUX context retry failed: no cmux".to_string(),
            format!("request failed: {NO_CONTEXT}")
        ]
    );
    assert_eq!(shown, [Phase::Error, Phase::Ready]);
}

#[test]
fn a_failed_request_is_notified_in_its_context() {
    let indicator = Handle::new();
    let mut shown: Vec<Phase> = Vec::new();
    let commands = RefCell::new(Vec::new());
    let capture = || -> Result<Context, Error> { Ok(context()) };
    let json = |_c: Context| "{}".to_string();
    let ask = |_p: String| -> Result<Plan, Error> { Err(Error("model down".into())) };
    let execute = |args: Vec<String>| -> Result<(), Error> {
        commands.borrow_mut().push(args);
        Ok(())
    };
    let describe = |_t: String, _c: String| String::new();
    let agent = |_p: String, _c: String| -> Result<String, Error> { Ok(String::new()) };
    let report = |_m: String| {};
    let sleep = |_ms: u64| {};
    let result = run_transcript(
        "tidy my panes", None, &capture, &json, &ask, &execute, &describe, &agent, &indicator,
        &mut shown, &mut Record::new(), &report, &sleep,
    );
    assert_eq!(result.unwrap_err().0, "model down");
    let commands = commands.borrow();
    assert_eq!(commands.len(), 1);
    assert_eq!(commands[0][0], "notify");
    assert_eq!(commands[0][4], "model down");
    assert_eq!(shown, [Phase::Working, Phase::Error, Phase::Ready]);
}

#[test]
fn a_blank_transcript_is_an_empty_request() {
    let indicator = Handle::new();
    let mut shown: Vec<Phase> = Vec::new();
    let reports = RefCell::new(Vec::new());
    let commands = RefCell::new(Vec::new());
    let capture = || -> Result<Context, Error> { Err(Error("unused".into())) };
    let json = |_c: Context| "{}".to_string();
    let ask = |_p: String| -> Result<Plan, Error> { panic!("nothing is planned") };
    let execute = |args: Vec<String>| -> Result<(), Error> {
        commands.borrow_mut().push(args);
        Ok(())
    };
    let describe = |_t: String, _c: String| String::new();
    let agent = |_p: String, _c: String| -> Result<String, Error> { Ok(String::new()) };
    let report = |m: String| reports.borrow_mut().push(m);
    let sleep = |_ms: u64| {};
    let result = run_transcript(
        "   ",
        Some(context()),
        &capture,
        &json,
        &ask,
        &execute,
        &describe,
        &agent,
        &indicator,
        &mut shown, &mut Record::new(),
        &report,
        &sleep,
    );
    assert_eq!(result.unwrap_err().0, "the request is empty");
    assert_eq!(*reports.borrow(), ["request failed: the request is empty".to_string()]);
    let commands = commands.borrow();
    assert_eq!(commands.len(), 1);
    assert_eq!(commands[0][0], "notify");
    assert_eq!(indicator.get(), Phase::Ready);
    assert_eq!(shown, [Phase::Working, Phase::Error, Phase::Ready]);
}
