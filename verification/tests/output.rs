use fx_line::output::{command, envelope, envelope_of, parse, MAX_COMMAND_BYTES};
use serde_json::Value;

fn response(output: &str, exit_code: i32) -> String {
    let mut map = serde_json::Map::new();
    map.insert("output".into(), Value::String(output.into()));
    map.insert("exit_code".into(), Value::from(exit_code));
    Value::Object(map).to_string()
}

fn command_json(command: &str) -> String {
    let mut map = serde_json::Map::new();
    map.insert("command".into(), Value::String(command.into()));
    Value::Object(map).to_string()
}

#[test]
fn accepts_one_command() {
    assert_eq!(
        parse(&response(r#"{"command":"git status --short"}"#, 0)).unwrap(),
        "git status --short"
    );
    assert_eq!(
        parse(&response("```bash\n{\"command\":\"pwd\"}\n```", 0)).unwrap(),
        "pwd"
    );
    assert_eq!(parse(&response("pwd", 0)).unwrap(), "pwd");
    assert_eq!(
        parse(&response(&command_json("find . \\\n | sort"), 0)).unwrap(),
        "find .   | sort"
    );
    assert_eq!(
        parse(&response(r#"{"command":"cd /tmp\npwd"}"#, 0)).unwrap(),
        "cd /tmp && pwd"
    );
}

#[test]
fn rejects_invalid_output() {
    for raw in [
        "not json".into(),
        response(r#"{"command":"pwd"}"#, 1),
        response("result:\n```json\n{\"command\":\"pwd\"}\n```", 0),
        response(r#"{"command":""}"#, 0),
        response(r#"{"command":"pwd","note":"extra"}"#, 0),
        response(r#"{"command":"pwd\u0000ls"}"#, 0),
        response("pwd</arg_value></tool_call>", 0),
        response(&command_json(&"x".repeat(8_193)), 0),
    ] {
        assert!(parse(&raw).is_err());
    }
}

#[test]
fn each_refusal_has_its_message() {
    assert_eq!(parse("not json").unwrap_err().0, "fx returned invalid JSON");
    assert_eq!(parse(&response("pwd", 2)).unwrap_err().0, "fx request failed");
    assert_eq!(parse(r#"{"exit_code":0}"#).unwrap_err().0, "fx returned no command");
    assert_eq!(parse(&response("   ", 0)).unwrap_err().0, "fx returned a blank command");
    assert_eq!(
        parse(&response(r#"{"command":"a\u0007b"}"#, 0)).unwrap_err().0,
        "fx returned more than one line"
    );
    assert_eq!(
        parse(&response(&command_json(&"x".repeat(MAX_COMMAND_BYTES + 1)), 0)).unwrap_err().0,
        "fx returned an oversized command"
    );
    assert_eq!(
        parse(&response(r#"{"command":"pwd","x":1}"#, 0)).unwrap_err().0,
        "model returned unexpected fields"
    );
    assert_eq!(parse(&response(r#"{"cmd":"pwd"}"#, 0)).unwrap_err().0, "model returned no command");
    assert_eq!(parse(&response("[1]", 0)).unwrap_err().0, "model returned invalid JSON");
    assert_eq!(parse(&response("{oops", 0)).unwrap_err().0, "model returned invalid output");
    assert_eq!(command(&"x".repeat(MAX_COMMAND_BYTES)).unwrap().len(), MAX_COMMAND_BYTES);
}

#[test]
fn the_envelope_gives_the_model_text() {
    assert_eq!(envelope(&response("hello\nworld", 0)).unwrap(), "hello\nworld");
    assert_eq!(command("  ls  \n").unwrap(), "ls");
}

#[test]
fn json_members_are_read_through_the_envelope() {
    assert_eq!(envelope(r#"{"exit_code":0,"output":"x","other":[1,2]}"#).unwrap(), "x");
    assert_eq!(envelope(r#"{"exit_code":-1,"output":"x"}"#).unwrap_err().0, "fx request failed");
    assert_eq!(envelope(r#"{"exit_code":0.0,"output":"x"}"#).unwrap_err().0, "fx request failed");
    assert_eq!(envelope(r#"{"exit_code":0,"output":7}"#).unwrap_err().0, "fx returned no command");
    assert_eq!(envelope("{").unwrap_err().0, "fx returned invalid JSON");
    assert_eq!(
        fx_line::fx::prompt("a \"b\"\n\u{1}", "", ""),
        format!("{}\"a \\\"b\\\"\\n\\u0001\"\ncwd=\"\"\ninput=\"\"", fx_line::fx::PROMPT_RULES)
    );
}

#[test]
fn a_parsed_reply_gives_its_output() {
    let done: Value = serde_json::from_str(&response("ls -la", 0)).unwrap();
    assert_eq!(envelope_of(Some(done)).unwrap(), "ls -la");
    let failed: Value = serde_json::from_str(&response("ls -la", 2)).unwrap();
    assert_eq!(envelope_of(Some(failed)).unwrap_err().0, "fx request failed");
    let mut map = serde_json::Map::new();
    map.insert("exit_code".into(), Value::from(0));
    assert_eq!(envelope_of(Some(Value::Object(map))).unwrap_err().0, "fx returned no command");
    assert_eq!(envelope_of(None).unwrap_err().0, "fx returned invalid JSON");
}
