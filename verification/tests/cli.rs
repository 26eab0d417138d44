use fx_line::cli::{agent_command, line_request, AgentCommand, AGENT_USAGE, EMPTY_REQUEST, LINE_USAGE};
use fx_line::error::Error;
use fx_line::fx::finish_command;
use fx_line::platform::capture::{TextStep, Window, CLEANUP_DELAY_MS, LIFETIME_MS};

fn args(list: &[&str]) -> Vec<String> {
    list.iter().map(|a| a.to_string()).collect()
}

#[test]
fn the_line_arguments_are_read_in_order() {
    let here = || -> Result<String, Error> { Ok("/here".into()) };
    assert_eq!(line_request(&args(&[]), &here).unwrap_err().0, LINE_USAGE);
    let r = line_request(&args(&["ls"]), &here).unwrap();
    assert_eq!((r.request.as_str(), r.cwd.as_str(), r.current_line.as_str()), ("ls", "/here", ""));
    let r = line_request(&args(&["ls", "/tmp", "git "]), &here).unwrap();
    assert_eq!((r.cwd.as_str(), r.current_line.as_str()), ("/tmp", "git "));
    assert_eq!(line_request(&args(&["a", "b", "c", "d"]), &here).unwrap_err().0, "too many arguments");
    let nowhere = || -> Result<String, Error> { Err(Error("gone".into())) };
    assert_eq!(line_request(&args(&["ls", "/tmp"]), &nowhere).unwrap_err().0, "gone");
}

#[test]
fn the_agent_commands_are_recognised() {
    assert!(matches!(agent_command(&args(&[])).unwrap(), AgentCommand::Run));
    assert!(matches!(agent_command(&args(&["run"])).unwrap(), AgentCommand::Run));
    assert!(matches!(agent_command(&args(&["install"])).unwrap(), AgentCommand::Install));
    assert!(matches!(agent_command(&args(&["uninstall"])).unwrap(), AgentCommand::Uninstall));
    assert!(matches!(agent_command(&args(&["status"])).unwrap(), AgentCommand::Status));
    match agent_command(&args(&["plan", "open", "github"])).unwrap() {
        AgentCommand::Plan(r) => assert_eq!(r, "open github"),
        other => panic!("{other:?}"),
    }
    match agent_command(&args(&["request", "flash"])).unwrap() {
        AgentCommand::Request(r) => assert_eq!(r, "flash"),
        other => panic!("{other:?}"),
    }
    assert_eq!(agent_command(&args(&["plan", " ", ""])).unwrap_err().0, EMPTY_REQUEST);
    assert_eq!(agent_command(&args(&["request"])).unwrap_err().0, EMPTY_REQUEST);
    assert_eq!(agent_command(&args(&["run", "now"])).unwrap_err().0, AGENT_USAGE);
    assert_eq!(agent_command(&args(&["help"])).unwrap_err().0, AGENT_USAGE);
}

#[test]
fn a_line_run_is_read_like_the_reply_parser() {
    assert_eq!(finish_command(true, true, "", "").unwrap_err().0, "fx timed out after 5 seconds");
    assert_eq!(finish_command(false, false, "", "bad\n").unwrap_err().0, "bad");
    assert_eq!(
        finish_command(false, true, r#"{"output":"{\"command\":\"pwd\"}","exit_code":0}"#, "")
            .unwrap(),
        "pwd"
    );
    assert_eq!(
        finish_command(false, true, r#"{"output":"","exit_code":0}"#, "").unwrap_err().0,
        "fx returned a blank command"
    );
}

#[test]
fn the_capture_window_follows_the_handshake() {
    let mut window = Window::new();
    let h = window.on_handshake(10, 1, false, 0);
    assert_eq!(h.begin, Some(1));
    assert!(h.look && !h.end && !h.paste);
    assert!(window.is_active());
    assert!(matches!(window.on_text(11, "  "), TextStep::Wait));
    let h = window.on_handshake(12, 1, false, 1);
    assert!(h.paste && h.begin.is_none());
    match window.on_text(13, "Open Netflix.") {
        TextStep::Send(text) => assert_eq!(text, "Open Netflix."),
        other => panic!("{other:?}"),
    }
    assert!(matches!(window.on_text(13 + CLEANUP_DELAY_MS - 1, "x"), TextStep::Wait));
    assert!(matches!(window.on_text(13 + CLEANUP_DELAY_MS, "x"), TextStep::End));
    assert!(!window.is_active());

    let h = window.on_handshake(100, 2, false, 1);
    assert_eq!(h.begin, Some(2));
    assert!(matches!(window.on_text(100 + LIFETIME_MS, ""), TextStep::End));

    window.on_handshake(200, 3, false, 1);
    let h = window.on_handshake(201, 3, true, 1);
    assert!(h.end && !h.look);
    let h = window.on_handshake(202, 3, true, 1);
    assert!(!h.end);
}

#[test]
fn one_capture_sends_one_transcript() {
    let mut window = Window::new();
    window.on_handshake(0, 1, false, 0);
    let mut sent = Vec::new();
    for (now, text) in [(1, ""), (2, "Open mail"), (3, "Open mail"), (4, "again")] {
        let h = window.on_handshake(now, 1, false, 0);
        if h.look {
            if let TextStep::Send(t) = window.on_text(now, text) {
                sent.push(t);
            }
        }
    }
    assert_eq!(sent, ["Open mail".to_string()]);
}
