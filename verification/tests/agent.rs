use fx_line::agent::intent::parse;
use fx_line::agent::planner::{self, Plan};
use fx_line::agent::{
    closed_workspace, outcome, plan, run_request, run_task, summary, task_prompt, Event, Record,
    SUMMARY_CHARS, TASK_RULES,
};
use fx_line::cmux::{Action, Context, Direction, SidebarAction};
use fx_line::error::Error;
use std::cell::RefCell;

fn context() -> Context {
    Context {
        cwd: Some("/tmp".into()),
        pane: "pane:1".into(),
        surface: "surface:1".into(),
        surface_type: "terminal".into(),
        tree: "pane:1 surface:1 pane:2 surface:2 workspace:1 workspace:2".into(),
        window: "window:1".into(),
        workspace: "workspace:1".into(),
        workspaces: "workspace:1 pane:1 workspace:2 pane:17".into(),
        socket: "/tmp/cmux.sock".into(),
    }
}

#[test]
fn agent_notification_summary_is_short_and_single_line() {
    assert_eq!(summary("first\n\n second"), "first second");
    assert!(summary(&"x".repeat(400)).chars().count() <= 281);
}

#[test]
fn mod_notification_summary_is_short_and_single_line() {
    assert_eq!(summary("first\n\n second"), "first second");
    assert!(summary(&"x".repeat(400)).chars().count() <= 281);
}

#[test]
fn summary_cuts_long_text_with_an_ellipsis() {
    let long = "y".repeat(SUMMARY_CHARS + 5);
    let s = summary(&long);
    assert_eq!(s.chars().count(), SUMMARY_CHARS + 1);
    assert!(s.ends_with('…'));
    assert_eq!(summary("  a \r\n\n\tb  \n"), "a b");
    assert_eq!(summary(""), "");
    assert!(!summary("one\ntwo\nthree").contains('\n'));
}

#[test]
fn opens_a_spoken_site_without_a_model_call() {
    let intent = parse("Open Netflix on the right.").unwrap();
    assert!(matches!(
        intent.action,
        Action::OpenBrowser {
            direction: Some(Direction::Right),
            ref url,
        } if url == "https://netflix.com"
    ));
}

#[test]
fn accepts_urls_but_not_file_requests() {
    assert!(parse("open github.com in the browser").is_some());
    assert!(parse("open https://example.com").is_some());
    assert!(parse("open the readme file").is_none());
}

#[test]
fn intent_messages_and_flash() {
    let flash = parse("Flash!").unwrap();
    assert!(matches!(flash.action, Action::Flash));
    assert_eq!(flash.message, "Flashed CMUX");
    let site = parse("open the GitHub.com at the top").unwrap();
    assert_eq!(site.message, "Opened GitHub.com");
    assert!(matches!(
        site.action,
        Action::OpenBrowser { direction: Some(Direction::Up), ref url } if url == "https://github.com"
    ));
    assert!(parse("close everything").is_none());
}

#[test]
fn outcome_prefers_the_answer_then_the_message() {
    assert_eq!(outcome(&Some("answer".into()), &"message".into()), "answer");
    assert_eq!(outcome(&Some("  ".into()), &"message".into()), "message");
    assert_eq!(outcome(&None, &" ".into()), "Done");
}

#[test]
fn closing_the_focused_workspace_is_noticed() {
    let context = context();
    let plan = Plan {
        actions: vec![Action::Flash, Action::CloseWorkspace { workspace: None }],
        fallback: false,
        message: String::new(),
    };
    assert!(closed_workspace(&plan, &context));
    let other = Plan {
        actions: vec![Action::CloseWorkspace { workspace: Some("workspace:2".into()) }],
        fallback: false,
        message: String::new(),
    };
    assert!(!closed_workspace(&other, &context));
}

#[test]
fn task_prompt_holds_the_rules_and_context() {
    let p = task_prompt("{\"request\":\"x\"}");
    assert_eq!(p, format!("{TASK_RULES}\n{{\"request\":\"x\"}}"));
}

#[test]
fn a_task_needs_a_working_directory() {
    let mut context = context();
    context.cwd = None;
    let describe = |_t: String, _c: String| String::from("{}");
    let agent = |_p: String, _c: String| -> Result<String, Error> { Ok("ran".into()) };
    let e = run_task("list files", &context, &describe, &agent).unwrap_err();
    assert_eq!(e.0, "the focused CMUX surface has no working directory");

    let context = self::context();
    let seen = RefCell::new(Vec::new());
    let agent = |p: String, c: String| -> Result<String, Error> {
        seen.borrow_mut().push((p, c));
        Ok("ran".into())
    };
    let describe = |t: String, c: String| format!("{t}|{c}");
    assert_eq!(run_task("list files", &context, &describe, &agent).unwrap(), "ran");
    let seen = seen.borrow();
    assert_eq!(seen[0].1, "/tmp");
    assert_eq!(seen[0].0, format!("{TASK_RULES}\nlist files|/tmp"));
}

#[test]
fn a_direct_request_is_planned_without_the_model() {
    let context = context();
    let ask = |_p: String| -> Result<Plan, Error> { Err(Error("no model".into())) };
    let plan = plan("open github", &context, "{}", &ask, &mut Vec::new()).unwrap();
    assert_eq!(plan.actions.len(), 1);
    assert!(!plan.fallback);
    assert_eq!(plan.message, "Opened github");
}

#[test]
fn a_model_plan_is_retried_once_then_fails() {
    let context = context();
    let asked = RefCell::new(Vec::new());
    let ask = |p: String| -> Result<Plan, Error> {
        asked.borrow_mut().push(p);
        Err(Error("bad plan".into()))
    };
    let mut prompts = Vec::new();
    let e = plan("tidy up my panes", &context, "{\"request\":1}", &ask, &mut prompts).unwrap_err();
    assert_eq!(prompts.len(), 2);
    assert_eq!(e.0, "bad plan");
    let asked = asked.borrow();
    assert_eq!(asked.len(), 2);
    assert_eq!(asked[0], planner::prompt("{\"request\":1}"));
    assert_eq!(asked[1], format!("{}{}", asked[0], planner::RETRY_NOTE));
}

#[test]
fn an_empty_model_plan_becomes_a_fallback() {
    let context = context();
    let ask = |_p: String| -> Result<Plan, Error> {
        Ok(Plan { actions: vec![], fallback: false, message: "m".into() })
    };
    let plan = plan("tidy up my panes", &context, "{}", &ask, &mut Vec::new()).unwrap();
    assert!(plan.fallback);
    assert!(plan.actions.is_empty());
}

#[test]
fn a_plan_that_mixes_actions_and_fallback_is_refused() {
    let context = context();
    let mixed = Plan { actions: vec![Action::Flash], fallback: true, message: String::new() };
    let e = planner::validate(mixed, "flash it", &context).unwrap_err();
    assert_eq!(e.0, "model mixed direct actions with fallback");
    let too_many = Plan {
        actions: (0..13).map(|_| Action::Flash).collect(),
        fallback: false,
        message: String::new(),
    };
    assert!(planner::validate(too_many, "flash", &context).is_err());
    let fine = Plan {
        actions: vec![Action::Sidebar { action: SidebarAction::Toggle }],
        fallback: false,
        message: String::new(),
    };
    assert!(planner::validate(fine, "toggle the sidebar", &context).is_ok());
}

#[test]
fn run_request_executes_then_notifies() {
    let context = context();
    let ran = RefCell::new(Vec::new());
    let ask = |_p: String| -> Result<Plan, Error> { Err(Error("unused".into())) };
    let execute = |args: Vec<String>| -> Result<(), Error> {
        ran.borrow_mut().push(args);
        Ok(())
    };
    let describe = |_t: String, _c: String| String::new();
    let agent = |_p: String, _c: String| -> Result<String, Error> { Ok(String::new()) };
    let mut record = Record::new();
    let result =
        run_request("open github on the left", &context, "{}", &ask, &execute, &describe, &agent, &mut record)
            .unwrap();
    assert_eq!(result, "Opened github");
    let ran = ran.borrow();
    assert!(record.prompts.is_empty());
    assert_eq!(record.commands, *ran);
    assert_eq!(ran.len(), 2);
    assert_eq!(ran[0][0], "new-pane");
    assert_eq!(
        ran[1],
        [
            "notify",
            "--title",
            "Voice agent",
            "--body",
            "Opened github",
            "--workspace",
            "workspace:1",
            "--window",
            "window:1"
        ]
    );
}

#[test]
fn run_request_refuses_an_empty_request() {
    let context = context();
    let ask = |_p: String| -> Result<Plan, Error> { Err(Error("unused".into())) };
    let execute = |_a: Vec<String>| -> Result<(), Error> { Ok(()) };
    let describe = |_t: String, _c: String| String::new();
    let agent = |_p: String, _c: String| -> Result<String, Error> { Ok(String::new()) };
    let e = run_request("", &context, "{}", &ask, &execute, &describe, &agent, &mut Record::new()).unwrap_err();
    assert_eq!(e.0, "the request is empty");
}

#[test]
fn closing_the_workspace_skips_the_notification() {
    let context = context();
    let ran = RefCell::new(0);
    let ask = |_p: String| -> Result<Plan, Error> {
        Ok(Plan {
            actions: vec![Action::CloseWorkspace { workspace: None }],
            fallback: false,
            message: "Closed".into(),
        })
    };
    let execute = |_a: Vec<String>| -> Result<(), Error> {
        *ran.borrow_mut() += 1;
        Ok(())
    };
    let describe = |_t: String, _c: String| String::new();
    let agent = |_p: String, _c: String| -> Result<String, Error> { Ok(String::new()) };
    let result =
        run_request("close this workspace", &context, "{}", &ask, &execute, &describe, &agent, &mut Record::new())
            .unwrap();
    assert_eq!(result, "Closed");
    assert_eq!(*ran.borrow(), 1);
}

#[test]
fn hotkey_events_exist() {
    let events = [Event::Pressed, Event::Released, Event::Transcript("x".into()), Event::Cancelled];
    assert_eq!(events.len(), 4);
}

#[test]
fn opened_sites_are_web_addresses() {
    for request in ["open github", "open GitHub.com", "open https://example.com/x", "open http://a.b"] {
        match parse(request).unwrap().action {
            Action::OpenBrowser { url, .. } => {
                assert!(url.starts_with("https://") || url.starts_with("http://"))
            }
            other => panic!("{other:?}"),
        }
    }
}

#[test]
fn summarising_a_summary_changes_nothing() {
    let long = format!("  first line  \n\n{}\r\n last ", "word ".repeat(80));
    let once = summary(&long);
    assert_eq!(summary(&once), once);
    let short = summary("\n  done  \n");
    assert_eq!(short, "done");
    assert_eq!(summary(&short), short);
    assert_eq!(summary(""), "");
}

#[test]
fn a_fallback_plan_reports_the_agents_answer() {
    let context = context();
    let ran = RefCell::new(Vec::new());
    let prompts = RefCell::new(Vec::new());
    let ask = |_p: String| -> Result<Plan, Error> {
        Ok(Plan { actions: vec![], fallback: true, message: "planned".into() })
    };
    let execute = |args: Vec<String>| -> Result<(), Error> {
        ran.borrow_mut().push(args);
        Ok(())
    };
    let describe = |t: String, c: String| format!("{{\"task\":\"{t}\",\"cwd\":\"{c}\"}}");
    let agent = |p: String, c: String| -> Result<String, Error> {
        prompts.borrow_mut().push((p, c));
        Ok("Cleaned up\n  three files ".into())
    };
    let result =
        run_request("tidy the repo", &context, "{}", &ask, &execute, &describe, &agent, &mut Record::new()).unwrap();
    assert_eq!(result, "Cleaned up three files");
    let prompts = prompts.borrow();
    assert_eq!(prompts.len(), 1);
    assert!(prompts[0].0.starts_with(TASK_RULES));
    assert!(prompts[0].0.ends_with("{\"task\":\"tidy the repo\",\"cwd\":\"/tmp\"}"));
    assert_eq!(prompts[0].1, "/tmp");
    let ran = ran.borrow();
    assert_eq!(ran.len(), 1);
    assert_eq!(ran[0][0], "notify");
    assert_eq!(ran[0][4], "Cleaned up three files");
}

#[test]
fn a_failed_command_stops_the_request() {
    let context = context();
    let ask = |_p: String| -> Result<Plan, Error> {
        Ok(Plan {
            actions: vec![Action::Flash, Action::Sidebar { action: SidebarAction::Toggle }],
            fallback: false,
            message: "m".into(),
        })
    };
    let calls = RefCell::new(0);
    let execute = |_args: Vec<String>| -> Result<(), Error> {
        *calls.borrow_mut() += 1;
        Err(Error("cmux is gone".into()))
    };
    let describe = |_t: String, _c: String| String::new();
    let agent = |_p: String, _c: String| -> Result<String, Error> { panic!("no task") };
    let mut record = Record::new();
    let e = run_request("tidy and toggle the sidebar", &context, "{}", &ask, &execute, &describe, &agent, &mut record)
        .unwrap_err();
    assert_eq!(e.0, "cmux is gone");
    assert_eq!(*calls.borrow(), 1);
    assert_eq!(record.prompts.len(), 1);
    assert_eq!(record.commands.len(), 1);
    assert_eq!(record.commands[0][0], "trigger-flash");
}

#[test]
fn an_empty_request_hands_out_nothing() {
    let context = context();
    let ask = |_p: String| -> Result<Plan, Error> { panic!("no plan") };
    let execute = |_a: Vec<String>| -> Result<(), Error> { panic!("no command") };
    let describe = |_t: String, _c: String| String::new();
    let agent = |_p: String, _c: String| -> Result<String, Error> { panic!("no task") };
    let mut record = Record::new();
    let e = run_request("", &context, "{}", &ask, &execute, &describe, &agent, &mut record).unwrap_err();
    assert_eq!(e.0, "the request is empty");
    assert!(record.prompts.is_empty() && record.commands.is_empty());
}
