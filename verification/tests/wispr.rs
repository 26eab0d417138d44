use fx_line::error::Error;
use fx_line::platform::wispr::{
    flow_process_id, paths, set_shortcut, stop_step, with_shortcut, without_custom_path,
    without_old_extension, StopStep, FLOW_PTT, FLOW_SHORTCUT,
};
use serde_json::Value;

#[test]
fn routes_only_function_control_to_push_to_talk() {
    let config: Value =
        serde_json::from_str(r#"{"prefs":{"user":{"shortcuts":{"63":"ptt"}}}}"#).unwrap();
    let config = with_shortcut(config, FLOW_PTT).unwrap();
    assert_eq!(config["prefs"]["user"]["shortcuts"]["63"], "ptt");
    assert_eq!(config["prefs"]["user"]["shortcuts"][FLOW_SHORTCUT], "ptt");
}

#[test]
fn the_shortcut_keeps_the_rest_of_the_config() {
    let bytes = br#"{"a":1,"prefs":{"b":true,"user":{"c":null,"shortcuts":{"59+63":"lens"}}}}"#;
    let config = set_shortcut(Some(&bytes[..]), "ptt").unwrap();
    assert_eq!(config["a"], 1);
    assert_eq!(config["prefs"]["b"], true);
    assert_eq!(config["prefs"]["user"]["c"], Value::Null);
    assert_eq!(config["prefs"]["user"]["shortcuts"]["59+63"], "ptt");
}

#[test]
fn a_config_without_shortcuts_is_refused() {
    assert_eq!(
        set_shortcut(None, "ptt").unwrap_err().0,
        "Wispr config is missing prefs.user.shortcuts"
    );
    assert_eq!(
        set_shortcut(Some(&br#"{"prefs":{"user":{}}}"#[..]), "ptt").unwrap_err().0,
        "Wispr config is missing prefs.user.shortcuts"
    );
    assert_eq!(
        set_shortcut(Some(&br#"{"prefs":{"user":{"shortcuts":[]}}}"#[..]), "ptt").unwrap_err().0,
        "Wispr shortcuts are not an object"
    );
    assert!(set_shortcut(Some(&b"{"[..]), "ptt").is_err());
}

#[test]
fn the_old_extension_is_forgotten() {
    let paths_doc = without_custom_path(
        Some(&br#"["/keep", "/home/.state/wispr", 3, "/other"]"#[..]),
        "/home/.state/wispr",
    )
    .unwrap();
    assert_eq!(paths_doc, serde_json::from_str::<Value>(r#"["/keep", 3, "/other"]"#).unwrap());
    assert_eq!(without_custom_path(None, "/x").unwrap(), Value::Array(vec![]));
    assert_eq!(
        without_custom_path(Some(&b"{}"[..]), "/x").unwrap_err().0,
        "invalid Wispr custom paths"
    );
    let state = without_old_extension(Some(&br#"{"fx-agent":true,"other":false}"#[..])).unwrap();
    assert_eq!(state, serde_json::from_str::<Value>(r#"{"other":false}"#).unwrap());
    assert_eq!(without_old_extension(None).unwrap(), serde_json::from_str::<Value>("{}").unwrap());
    assert_eq!(
        without_old_extension(Some(&b"[]"[..])).unwrap_err().0,
        "invalid Wispr extension state"
    );
}

#[test]
fn flow_paths_under_home() {
    let p = paths("/Users/me");
    assert_eq!(p.config, "/Users/me/Library/Application Support/Wispr Flow/config.json");
    assert_eq!(
        p.custom_paths,
        "/Users/me/Library/Application Support/Wispr Flow/extensions/custom-paths.json"
    );
    assert_eq!(
        p.enabled_state,
        "/Users/me/Library/Application Support/Wispr Flow/extensions/extensions-state.json"
    );
    assert_eq!(p.bridge, "/Users/me/Library/Application Support/fx-line/wispr");
    assert_eq!(p.socket, "/Users/me/Library/Application Support/fx-line/agent.sock");
}

#[test]
fn stopping_wispr_waits_then_kills_then_gives_up() {
    let running = || -> Result<bool, Error> { Ok(true) };
    let stopped = || -> Result<bool, Error> { Ok(false) };
    let failing = || -> Result<bool, Error> { Err(Error("ps failed".into())) };
    assert_eq!(stop_step(false, 0, &running).unwrap(), StopStep::Wait);
    assert_eq!(stop_step(false, 500, &stopped).unwrap(), StopStep::Stopped);
    assert_eq!(stop_step(false, 1000, &running).unwrap(), StopStep::Kill);
    assert_eq!(stop_step(true, 4999, &running).unwrap(), StopStep::Wait);
    assert_eq!(stop_step(true, 5000, &running).unwrap(), StopStep::GiveUp);
    assert_eq!(stop_step(true, 10, &failing).unwrap_err().0, "ps failed");
    let listing = "12 /Applications/Wispr Flow.app/Contents/MacOS/Wispr Flow\n";
    assert_eq!(flow_process_id(listing).unwrap(), Some(12));
    assert_eq!(flow_process_id("").unwrap(), None);
}
