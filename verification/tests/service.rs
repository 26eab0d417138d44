use fx_line::platform::service::{
    bootout_arguments, bootstrap_arguments, codesign_arguments, gui_domain, info_contents,
    is_running, kickstart_arguments, layout, plist_contents, process_id, service_target,
    with_wispr_stopped, Step, DESIGNATED_REQUIREMENT,
};
use fx_line::error::Error;
use fx_line::service::{self, escape, join_path, search_path_of, service_domain, LABEL};
use std::cell::RefCell;

#[test]
fn service_escapes_plist_values() {
    assert_eq!(escape("a&<\"'"), "a&amp;&lt;&quot;&apos;");
}

#[test]
fn escaping_keeps_other_text_and_never_escapes_twice() {
    assert_eq!(escape("plain /path"), "plain /path");
    assert_eq!(escape("&amp;>"), "&amp;amp;&gt;");
}

#[test]
fn installs_an_invisible_app() {
    let info = info_contents("/Users/test");
    assert!(info.contains("<key>LSUIElement</key>"));
    assert!(info.contains("com.dineshteja.fx-agent"));
    assert!(info.contains("<string>/Users/test/.local/bin:/Users/test/.cargo/bin:/opt/homebrew/bin"));
}

#[test]
fn launch_agent_starts_the_app_once() {
    let plist = plist_contents("/Users/test/Applications/fx-agent.app", "/tmp/state");
    assert!(plist.contains("<string>/usr/bin/open</string>"));
    assert!(plist.contains("<string>/Users/test/Applications/fx-agent.app</string>"));
    assert!(!plist.contains("<string>-W</string>"));
    assert!(!plist.contains("<key>KeepAlive</key>"));
    assert!(plist.contains("<string>/tmp/state/agent.log</string>"));
}

#[test]
fn plist_has_one_small_background_process() {
    let plist = service::plist_contents("/tmp/fx & agent", "/Users/test", "/tmp/state");
    assert!(plist.contains("/tmp/fx &amp; agent"));
    assert!(plist.contains("<string>Background</string>"));
    assert!(plist.contains("<string>run</string>"));
    assert!(plist.contains("<key>SuccessfulExit</key>"));
}

#[test]
fn paths_join_like_path_join() {
    assert_eq!(join_path("/a", "b"), "/a/b");
    assert_eq!(join_path("/a/", "b"), "/a/b");
    assert_eq!(join_path("", "b"), "b");
    assert_eq!(join_path("/a", "/b"), "/b");
    assert_eq!(
        search_path_of("/h"),
        "/h/.local/bin:/h/.cargo/bin:/opt/homebrew/bin:/usr/local/bin:/usr/bin:/bin:/usr/sbin:/sbin"
    );
    assert_eq!(service_domain("gui/501/com.x"), "gui/501");
    assert_eq!(service_domain("plain"), "plain");
}

#[test]
fn the_running_agent_is_found_in_the_process_list() {
    let listing = "  1 /sbin/launchd\n 77 /Users/me/Applications/fx-agent.app/Contents/MacOS/fx-agent \n";
    assert_eq!(
        process_id(listing, "/Users/me/Applications/fx-agent.app/Contents/MacOS/fx-agent").unwrap(),
        Some(77)
    );
    assert_eq!(process_id(listing, "/bin/zsh").unwrap(), None);
    assert!(is_running("/Users/me", listing).unwrap());
    assert!(!is_running("/Users/you", listing).unwrap());
    assert_eq!(
        process_id("x /bin/zsh", "/bin/zsh").unwrap_err().0,
        "invalid digit found in string"
    );
    assert_eq!(
        process_id("99999999999 /bin/zsh", "/bin/zsh").unwrap_err().0,
        "number too large to fit in target type"
    );
    assert!(fx_line::agent::is_running("/Users/me", listing).unwrap());
}

#[test]
fn the_install_layout_and_command_lines() {
    let l = layout("/Users/me");
    assert_eq!(l.agents, "/Users/me/Library/LaunchAgents");
    assert_eq!(l.state, "/Users/me/Library/Application Support/fx-line");
    assert_eq!(l.app, "/Users/me/Applications/fx-agent.app");
    assert_eq!(l.app_binary, "/Users/me/Applications/fx-agent.app/Contents/MacOS/fx-agent");
    assert_eq!(l.info_plist, "/Users/me/Applications/fx-agent.app/Contents/Info.plist");
    assert_eq!(l.plist, format!("/Users/me/Library/LaunchAgents/{LABEL}.plist"));
    assert_eq!(gui_domain("501\n"), "gui/501");
    let target = service_target("gui/501");
    assert_eq!(target, "gui/501/com.dineshteja.fx-agent");
    assert_eq!(bootstrap_arguments(&target, "/p.plist"), ["bootstrap", "gui/501", "/p.plist"]);
    assert_eq!(kickstart_arguments(&target), ["kickstart", "-k", target.as_str()]);
    assert_eq!(bootout_arguments(&target), ["bootout", target.as_str()]);
    assert_eq!(
        codesign_arguments("/A.app"),
        ["--force", "--sign", "-", "--timestamp=none", "--requirements", DESIGNATED_REQUIREMENT, "/A.app"]
    );
}

#[test]
fn wispr_is_restarted_around_an_operation() {
    let log = RefCell::new(Vec::new());
    let stop = || -> Result<bool, Error> {
        log.borrow_mut().push("stop");
        Ok(true)
    };
    let failing = || -> Result<(), Error> {
        log.borrow_mut().push("operation");
        Err(Error("failed".into()))
    };
    let start = || -> Result<(), Error> {
        log.borrow_mut().push("start");
        Ok(())
    };
    let mut steps = Vec::new();
    assert_eq!(with_wispr_stopped(&stop, &failing, &start, &mut steps).unwrap_err().0, "failed");
    assert_eq!(*log.borrow(), ["stop", "operation", "start"]);
    assert_eq!(steps, [Step::Stop, Step::Operation, Step::Start]);

    let not_running = || -> Result<bool, Error> { Ok(false) };
    let fine = || -> Result<(), Error> { Ok(()) };
    let never = || -> Result<(), Error> { Err(Error("started".into())) };
    let mut steps = Vec::new();
    assert!(with_wispr_stopped(&not_running, &fine, &never, &mut steps).is_ok());
    assert_eq!(steps, [Step::Stop, Step::Operation]);
    let running = || -> Result<bool, Error> { Ok(true) };
    assert_eq!(with_wispr_stopped(&running, &fine, &never, &mut Vec::new()).unwrap_err().0, "started");
    let refused = || -> Result<bool, Error> { Err(Error("no stop".into())) };
    let mut steps = Vec::new();
    assert_eq!(with_wispr_stopped(&refused, &fine, &never, &mut steps).unwrap_err().0, "no stop");
    assert_eq!(steps, [Step::Stop]);
}

#[test]
fn escaped_values_hold_no_markup_characters() {
    let escaped = escape("<a href=\"x\">it's</a>");
    assert!(!escaped.contains(['<', '>', '"', '\'']));
    assert_eq!(escaped, "&lt;a href=&quot;x&quot;&gt;it&apos;s&lt;/a&gt;");
}

#[test]
fn escaping_round_trips() {
    let value = "a<b>&c\"d'e &amp; f";
    let escaped = escape(value);
    let back = escaped
        .replace("&lt;", "<")
        .replace("&gt;", ">")
        .replace("&quot;", "\"")
        .replace("&apos;", "'")
        .replace("&amp;", "&");
    assert_eq!(back, value);
    assert_eq!(escape("/Users/me/fx line"), "/Users/me/fx line");
}
