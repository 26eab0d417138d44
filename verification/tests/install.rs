use fx_line::agent;
use fx_line::agent::intent::splits_a_character;
use fx_line::error::Error;
use fx_line::indicator::{Handle as Indicator, Phase};
use fx_line::platform::host::{Contents, Files, Output, Processes};
use fx_line::platform::service::{info_contents, layout, plist_contents};
use fx_line::platform::wispr;
use std::cell::{Cell, RefCell};
use std::collections::BTreeMap;

struct World {
    files: RefCell<BTreeMap<String, String>>,
    commands: RefCell<Vec<(String, Vec<String>)>>,
    agent_running: Cell<bool>,
    flow_running: Cell<bool>,
    clock: Cell<u64>,
}

impl World {
    fn new() -> World {
        let mut files = BTreeMap::new();
        files.insert(
            "/Users/me/Library/Application Support/Wispr Flow/config.json".to_string(),
            r#"{"prefs":{"user":{"shortcuts":{"63":"ptt"}}}}"#.to_string(),
        );
        World {
            files: RefCell::new(files),
            commands: RefCell::new(Vec::new()),
            agent_running: Cell::new(false),
            flow_running: Cell::new(true),
            clock: Cell::new(0),
        }
    }

    fn ok(stdout: &str) -> Result<Output, Error> {
        Ok(Output { success: true, stdout: stdout.into(), stderr: String::new() })
    }

    fn run(&self, program: String, args: Vec<String>) -> Result<Output, Error> {
        self.commands.borrow_mut().push((program.clone(), args.clone()));
        match program.as_str() {
            "/usr/bin/id" => Self::ok("501\n"),
            "/bin/ps" => {
                let mut listing = String::from("1 /sbin/launchd\n");
                if self.agent_running.get() {
                    listing.push_str("200 /Users/me/Applications/fx-agent.app/Contents/MacOS/fx-agent\n");
                }
                if self.flow_running.get() {
                    listing.push_str("300 /Applications/Wispr Flow.app/Contents/MacOS/Wispr Flow\n");
                }
                Self::ok(&listing)
            }
            "/usr/bin/osascript" => {
                self.flow_running.set(false);
                Self::ok("")
            }
            "/usr/bin/open" => {
                self.flow_running.set(true);
                Self::ok("")
            }
            "/bin/launchctl" if args[0] == "kickstart" => {
                self.agent_running.set(true);
                Self::ok("")
            }
            "/bin/launchctl" if args[0] == "bootout" => {
                self.agent_running.set(false);
                Self::ok("")
            }
            _ => Self::ok(""),
        }
    }
}

#[test]
fn install_writes_the_bundle_and_launch_agent_with_wispr_restarted() {
    let world = World::new();
    let files = Files {
        read: |p: String| -> Result<Option<Vec<u8>>, Error> {
            Ok(world.files.borrow().get(&p).map(|t| t.clone().into_bytes()))
        },
        exists: |p: String| world.files.borrow().contains_key(&p),
        place: |p: String, c: Contents| -> Result<(), Error> {
            let text = match c {
                Contents::Directory => "<dir>".to_string(),
                Contents::Text(t) => t,
                Contents::Json(v) => v.to_string(),
                Contents::CopyOf(from) => format!("<copy of {from}>"),
            };
            world.files.borrow_mut().insert(p, text);
            Ok(())
        },
        remove: |p: String, _recursive: bool| -> Result<(), Error> {
            world.files.borrow_mut().remove(&p);
            Ok(())
        },
    };
    let processes = Processes {
        run: |p: String, a: Vec<String>| world.run(p, a),
        sleep: |ms: u64| world.clock.set(world.clock.get() + ms),
        clock: || world.clock.get(),
    };
    agent::install("/build/fx-agent", Some("/Users/me".into()), &files, &processes).unwrap();

    let l = layout("/Users/me");
    let written = world.files.borrow();
    assert_eq!(written[&l.plist], plist_contents(&l.app, &l.state));
    assert_eq!(written[&l.info_plist], info_contents("/Users/me"));
    assert_eq!(written[&l.app_binary], "<copy of /build/fx-agent>");
    let config: serde_json::Value = serde_json::from_str(
        &written["/Users/me/Library/Application Support/Wispr Flow/config.json"],
    )
    .unwrap();
    assert_eq!(config["prefs"]["user"]["shortcuts"]["59+63"], "ptt");
    assert!(world.flow_running.get());
    let commands = world.commands.borrow();
    assert!(commands.iter().any(|(p, a)| p == "/bin/launchctl"
        && a == &["bootstrap", "gui/501", l.plist.as_str()]));
    assert!(commands.iter().any(|(p, _)| p == "/usr/bin/codesign"));
}

#[test]
fn install_needs_home() {
    let world = World::new();
    let files = Files {
        read: |_p: String| -> Result<Option<Vec<u8>>, Error> { Ok(None) },
        exists: |_p: String| false,
        place: |_p: String, _c: Contents| -> Result<(), Error> { Ok(()) },
        remove: |_p: String, _r: bool| -> Result<(), Error> { Ok(()) },
    };
    let processes = Processes {
        run: |p: String, a: Vec<String>| world.run(p, a),
        sleep: |ms: u64| world.clock.set(world.clock.get() + ms),
        clock: || world.clock.get(),
    };
    assert_eq!(
        agent::install("/b", None, &files, &processes).unwrap_err().0,
        "HOME is unavailable"
    );
    assert!(world.flow_running.get());
}

#[test]
fn uninstall_gives_the_shortcut_back() {
    let world = World::new();
    world.agent_running.set(false);
    let files = Files {
        read: |p: String| -> Result<Option<Vec<u8>>, Error> {
            Ok(world.files.borrow().get(&p).map(|t| t.clone().into_bytes()))
        },
        exists: |p: String| world.files.borrow().contains_key(&p),
        place: |p: String, c: Contents| -> Result<(), Error> {
            if let Contents::Json(v) = c {
                world.files.borrow_mut().insert(p, v.to_string());
            }
            Ok(())
        },
        remove: |p: String, _r: bool| -> Result<(), Error> {
            world.files.borrow_mut().remove(&p);
            Ok(())
        },
    };
    let processes = Processes {
        run: |p: String, a: Vec<String>| world.run(p, a),
        sleep: |ms: u64| world.clock.set(world.clock.get() + ms),
        clock: || world.clock.get(),
    };
    agent::uninstall(Some("/Users/me".into()), &files, &processes).unwrap();
    let config: serde_json::Value = serde_json::from_str(
        &world.files.borrow()["/Users/me/Library/Application Support/Wispr Flow/config.json"],
    )
    .unwrap();
    assert_eq!(config["prefs"]["user"]["shortcuts"]["59+63"], "lens");
}

#[test]
fn wispr_that_does_not_quit_is_killed() {
    let world = World::new();
    let killed = Cell::new(false);
    let processes = Processes {
        run: |p: String, a: Vec<String>| -> Result<Output, Error> {
            if p == "/bin/kill" {
                assert_eq!(a, ["300"]);
                killed.set(true);
                world.flow_running.set(false);
                return World::ok("");
            }
            if p == "/usr/bin/osascript" {
                return World::ok("");
            }
            world.run(p, a)
        },
        sleep: |ms: u64| world.clock.set(world.clock.get() + ms),
        clock: || world.clock.get(),
    };
    assert!(wispr::stop_if_running(&processes).unwrap());
    assert!(killed.get());
    assert!(world.clock.get() >= 1000);
    assert!(!wispr::stop_if_running(&processes).unwrap());
}

#[test]
fn a_capture_request_waits_for_the_window() {
    let indicator = Indicator::new();
    let clock = Cell::new(0u64);
    let sleep = |ms: u64| clock.set(clock.get() + ms);
    let now = || clock.get();
    assert!(!indicator.request_capture(&sleep, &now));
    assert!(clock.get() >= 100);
    indicator.capture.0.ready.store(2, std::sync::atomic::Ordering::Release);
    assert!(indicator.request_capture(&sleep, &now));
    assert_eq!(indicator.get(), Phase::Off);
}

#[test]
fn requests_whose_suffix_test_splits_a_character_are_found() {
    assert!(!splits_a_character("open github on the right"));
    assert!(!splits_a_character("flash"));
    assert!(!splits_a_character("close the pane"));
    assert!(splits_a_character("open éééééééééééé"));
    assert!(!splits_a_character("open ab"));
}

#[test]
fn a_failed_removal_is_the_uninstall_error_and_wispr_comes_back() {
    let world = World::new();
    let files = Files {
        read: |p: String| -> Result<Option<Vec<u8>>, Error> {
            Ok(world.files.borrow().get(&p).map(|t| t.clone().into_bytes()))
        },
        exists: |p: String| world.files.borrow().contains_key(&p),
        place: |p: String, c: Contents| -> Result<(), Error> {
            if let Contents::Json(v) = c {
                world.files.borrow_mut().insert(p, v.to_string());
            }
            Ok(())
        },
        remove: |p: String, _r: bool| -> Result<(), Error> {
            if p.ends_with("fx-agent.app") {
                Err(Error("app is busy".into()))
            } else {
                Ok(())
            }
        },
    };
    let processes = Processes {
        run: |p: String, a: Vec<String>| world.run(p, a),
        sleep: |ms: u64| world.clock.set(world.clock.get() + ms),
        clock: || world.clock.get(),
    };
    assert_eq!(
        agent::uninstall(Some("/Users/me".into()), &files, &processes).unwrap_err().0,
        "app is busy"
    );
    assert!(world.flow_running.get());
}

#[test]
fn a_failed_signature_is_the_install_error() {
    let world = World::new();
    let files = Files {
        read: |p: String| -> Result<Option<Vec<u8>>, Error> {
            Ok(world.files.borrow().get(&p).map(|t| t.clone().into_bytes()))
        },
        exists: |p: String| world.files.borrow().contains_key(&p),
        place: |_p: String, _c: Contents| -> Result<(), Error> { Ok(()) },
        remove: |_p: String, _r: bool| -> Result<(), Error> { Ok(()) },
    };
    let processes = Processes {
        run: |p: String, a: Vec<String>| {
            if p == "/usr/bin/codesign" {
                Ok(Output { success: false, stdout: String::new(), stderr: "\n  no identity\n".into() })
            } else {
                world.run(p, a)
            }
        },
        sleep: |ms: u64| world.clock.set(world.clock.get() + ms),
        clock: || world.clock.get(),
    };
    assert_eq!(
        agent::install("/b", Some("/Users/me".into()), &files, &processes).unwrap_err().0,
        "  no identity"
    );
}

#[test]
fn uninstalling_twice_is_uninstalling_once() {
    let world = World::new();
    world.files.borrow_mut().insert(
        "/Users/me/Library/Application Support/Wispr Flow/extensions/custom-paths.json".into(),
        r#"["/Users/me/Library/Application Support/fx-line/wispr","/other"]"#.into(),
    );
    world.files.borrow_mut().insert(
        "/Users/me/Library/Application Support/Wispr Flow/extensions/extensions-state.json".into(),
        r#"{"fx-line-wispr-bridge":true,"other":true}"#.into(),
    );
    let files = Files {
        read: |p: String| -> Result<Option<Vec<u8>>, Error> {
            Ok(world.files.borrow().get(&p).map(|t| t.clone().into_bytes()))
        },
        exists: |p: String| world.files.borrow().contains_key(&p),
        place: |p: String, c: Contents| -> Result<(), Error> {
            if let Contents::Json(v) = c {
                world.files.borrow_mut().insert(p, v.to_string());
            }
            Ok(())
        },
        remove: |p: String, _r: bool| -> Result<(), Error> {
            world.files.borrow_mut().remove(&p);
            Ok(())
        },
    };
    let processes = Processes {
        run: |p: String, a: Vec<String>| world.run(p, a),
        sleep: |ms: u64| world.clock.set(world.clock.get() + ms),
        clock: || world.clock.get(),
    };
    agent::uninstall(Some("/Users/me".into()), &files, &processes).unwrap();
    let once = world.files.borrow().clone();
    agent::uninstall(Some("/Users/me".into()), &files, &processes).unwrap();
    assert_eq!(*world.files.borrow(), once);
    assert_eq!(
        once["/Users/me/Library/Application Support/Wispr Flow/extensions/custom-paths.json"],
        r#"["/other"]"#
    );
}

#[test]
fn missing_shortcuts_leave_the_configuration_unwritten() {
    let files_map = RefCell::new(BTreeMap::new());
    files_map.borrow_mut().insert(
        "/Users/me/Library/Application Support/Wispr Flow/config.json".to_string(),
        r#"{"prefs":{"user":{}}}"#.to_string(),
    );
    let files = Files {
        read: |p: String| -> Result<Option<Vec<u8>>, Error> {
            Ok(files_map.borrow().get(&p).map(|t| t.clone().into_bytes()))
        },
        exists: |p: String| files_map.borrow().contains_key(&p),
        place: |p: String, _c: Contents| -> Result<(), Error> {
            files_map.borrow_mut().insert(p, "<written>".into());
            Ok(())
        },
        remove: |_p: String, _r: bool| -> Result<(), Error> { Ok(()) },
    };
    let mut written = Vec::new();
    let e = wispr::install("/Users/me", &files, &mut written).unwrap_err();
    assert!(!e.0.is_empty());
    assert!(written.is_empty());
    assert_eq!(
        files_map.borrow()["/Users/me/Library/Application Support/Wispr Flow/config.json"],
        r#"{"prefs":{"user":{}}}"#
    );
}
