use fx_line::cmux::actions::{
    arguments, clear_status_arguments, notify_arguments, STATUS_KEY,
};
use fx_line::cmux::validation::validate;
use fx_line::cmux::{
    bounded, checked, focused_cwd, lsof_cwd, shell_processes, Action, Cmux, Context, Direction,
    ResizeDirection, SidebarAction, DEFAULT_BINARY,
};

fn context() -> Context {
    Context {
        cwd: Some("/tmp".into()),
        pane: "pane:1".into(),
        surface: "surface:1".into(),
        surface_type: "terminal".into(),
        tree: "pane:1 surface:1 pane:2 surface:2 workspace:1 workspace:2".into(),
        window: "window:1".into(),
        workspace: "workspace:1".into(),
        workspaces: "workspace:1 pane:1 workspace:2 pane:17".into(),
        socket: "/tmp/cmux.sock".into(),
    }
}

#[test]
fn compiles_browser_action_to_exact_cmux_argv() {
    let context = context();
    let action = Action::OpenBrowser {
        direction: Some(Direction::Right),
        url: "https://github.com".into(),
    };
    assert!(validate(&context, "open github", &action).is_ok());
    assert_eq!(
        arguments(&context, &action),
        [
            "new-pane",
            "--type",
            "browser",
            "--direction",
            "right",
            "--url",
            "https://github.com",
            "--focus",
            "false",
            "--workspace",
            "workspace:1",
            "--window",
            "window:1",
        ]
    );
}

#[test]
fn validates_refs_and_destructive_intent() {
    let context = context();
    assert!(
        validate(
            &context,
            "swap panes",
            &Action::SwapPanes {
                pane: "pane:1".into(),
                target: "pane:2".into(),
            },
        )
        .is_ok()
    );
    assert!(
        validate(
            &context,
            "organize panes",
            &Action::CloseSurface { surface: None },
        )
        .is_err()
    );
    assert!(
        validate(
            &context,
            "swap panes",
            &Action::SwapPanes {
                pane: "pane:1".into(),
                target: "pane:17".into(),
            },
        )
        .is_err()
    );
    assert!(
        validate(
            &context,
            "focus pane",
            &Action::FocusPane {
                pane: "pane:99".into(),
            },
        )
        .is_err()
    );
}

#[test]
fn resize_and_sidebar_arguments() {
    let context = context();
    let resize = Action::ResizePane {
        amount: 120,
        direction: ResizeDirection::Left,
        pane: "pane:2".into(),
    };
    let args = arguments(&context, &resize);
    assert!(args.contains(&"-L".to_string()));
    assert!(args.contains(&"120".to_string()));
    let sidebar = Action::Sidebar { action: SidebarAction::Focus };
    assert!(arguments(&context, &sidebar).contains(&"focus".to_string()));
}

#[test]
fn execute_checks_before_it_builds() {
    let context = context();
    let bad = Action::FocusPane { pane: "pane:99".into() };
    assert!(Cmux::execute(&context, "focus pane", &bad).is_err());
    let good = Action::FocusPane { pane: "pane:2".into() };
    let args = Cmux::execute(&context, "focus pane", &good).unwrap();
    assert_eq!(args, arguments(&context, &good));
    assert!(Cmux::validate(&context, "focus pane", &good).is_ok());
}

#[test]
fn the_tool_is_chosen_from_the_variables() {
    assert_eq!(Cmux::new(Some("/a".into()), Some("/b".into())).binary, "/a");
    assert_eq!(Cmux::new(None, Some("/b".into())).binary, "/b");
    assert_eq!(Cmux::new(None, None).binary, DEFAULT_BINARY);
}

#[test]
fn long_trees_are_cut_on_a_character_boundary() {
    assert_eq!(bounded("short", 10), "short");
    assert_eq!(bounded("abcdef", 3), "abc…");
    assert_eq!(bounded("aé", 2), "a…");
    assert_eq!(bounded("", 0), "");
}

#[test]
fn failed_commands_report_their_first_nonblank_line() {
    assert!(checked(true, "ignored", "cmux command failed").is_ok());
    assert_eq!(checked(false, "\n  \nboom\nmore", "cmux command failed").unwrap_err().0, "boom");
    assert_eq!(checked(false, "", "cmux command failed").unwrap_err().0, "cmux command failed");
}

#[test]
fn shells_of_the_surface_are_found() {
    let listing = "a\tb\tc\tprocess\t42\tsurface:1\tzsh\n\
                   a\tb\tc\tprocess\t43\tsurface:2\tzsh\n\
                   a\tb\tc\tprocess\t44\tsurface:1\tvim\n\
                   a\tb\tc\tprocess\t45\tsurface:1\tbash";
    assert_eq!(shell_processes(listing, "surface:1"), ["42", "45"]);
    assert_eq!(lsof_cwd("p42\nfcwd\nn/Users/me/src\n"), Some("/Users/me/src".to_string()));
    assert_eq!(lsof_cwd("p42\n"), None);
    let lsof = |pid: String| -> Option<String> {
        if pid == "42" { Some("p42\n".into()) } else { Some("n/home/45".into()) }
    };
    assert_eq!(focused_cwd(listing, "surface:1", &lsof), Some("/home/45".to_string()));
    let failing = |_pid: String| -> Option<String> { None };
    assert_eq!(focused_cwd(listing, "surface:1", &failing), None);
}

#[test]
fn only_a_terminal_has_a_working_directory() {
    let c = Context::focused(
        "pane:1".into(),
        "surface:1".into(),
        "browser".into(),
        "window:1".into(),
        "workspace:1".into(),
        "tree",
        "workspaces",
        Some("/tmp".into()),
        "/sock".into(),
    );
    assert_eq!(c.cwd, None);
    assert_eq!(c.tree, "tree");
    let t = Context::focused(
        "pane:1".into(),
        "surface:1".into(),
        "terminal".into(),
        "window:1".into(),
        "workspace:1".into(),
        &"t".repeat(9000),
        "w",
        Some("/tmp".into()),
        "/sock".into(),
    );
    assert_eq!(t.cwd.as_deref(), Some("/tmp"));
    assert_eq!(t.tree.chars().count(), 8001);
}

#[test]
fn notification_and_status_command_lines() {
    let context = context();
    assert_eq!(
        notify_arguments(&context, "Done"),
        [
            "notify",
            "--title",
            "Voice agent",
            "--body",
            "Done",
            "--workspace",
            "workspace:1",
            "--window",
            "window:1"
        ]
    );
    let tree = vec![
        ("window:1".to_string(), vec!["workspace:1".to_string(), "workspace:2".to_string()]),
        ("window:2".to_string(), vec![]),
        ("window:3".to_string(), vec!["workspace:5".to_string()]),
    ];
    let commands = clear_status_arguments(&tree);
    assert_eq!(commands.len(), 3);
    assert_eq!(
        commands[0],
        ["clear-status", STATUS_KEY, "--workspace", "workspace:1", "--window", "window:1"]
    );
    assert_eq!(commands[2][3], "workspace:5");
    assert_eq!(commands[2][5], "window:3");
}

#[test]
fn a_cut_tree_fits_its_bytes_and_the_ellipsis() {
    for bytes in 0..12 {
        let cut = bounded(&"é€a".repeat(5), bytes);
        assert!(cut.len() <= bytes + 3);
    }
    assert_eq!(bounded("€€", 5), "€…");
}

#[test]
fn every_action_names_the_focused_window_last() {
    let context = context();
    let actions = vec![
        Action::Flash,
        Action::CloseWorkspace { workspace: None },
        Action::NewWorkspace { cwd: None, name: Some("notes".into()) },
        Action::SelectWorkspace { workspace: "workspace:2".into() },
        Action::Sidebar { action: SidebarAction::Toggle },
        Action::FocusPane { pane: "pane:2".into() },
    ];
    for action in &actions {
        let args = arguments(&context, action);
        assert!(args.len() >= 2);
        assert_eq!(args[args.len() - 2], "--window");
        assert_eq!(args[args.len() - 1], "window:1");
    }
}

#[test]
fn closing_needs_a_closing_word() {
    let context = context();
    let close = Action::CloseWorkspace { workspace: Some("workspace:2".into()) };
    assert!(validate(&context, "Close the other workspace", &close).is_ok());
    assert!(validate(&context, "KILL workspace 2", &close).is_ok());
    assert_eq!(
        validate(&context, "closer look at workspace 2", &close).unwrap_err().0,
        "a destructive CMUX action was not explicitly requested"
    );
}

#[test]
fn checked_references_are_focused_or_in_the_tree() {
    let context = context();
    let moved = Action::MoveSurface { pane: "pane:2".into(), surface: "surface:2".into() };
    assert!(validate(&context, "move it", &moved).is_ok());
    let unknown = Action::MoveSurface { pane: "pane:2".into(), surface: "surface:7".into() };
    assert_eq!(
        validate(&context, "move it", &unknown).unwrap_err().0,
        "unknown surface reference: surface:7"
    );
    let malformed = Action::SelectWorkspace { workspace: "workspace:x".into() };
    assert_eq!(
        validate(&context, "go", &malformed).unwrap_err().0,
        "unknown workspace reference: workspace:x"
    );
}
