use fx_line::error::Error;
use fx_line::fx;
use fx_line::line::generate;
use fx_line::model::{
    agent_model, binary, candidates, finish, line_model, plan_model, runtime_paths,
    DEFAULT_LINE_MODEL,
};
use fx_line::agent::planner;
use std::cell::RefCell;

#[test]
fn prompt_encodes_context_as_data() {
    let prompt = fx::prompt("find \"notes\"", "/tmp/a b", "git ");

    assert_eq!(
        prompt,
        "Return one macOS zsh command without using tools. The shell is already in cwd.\nReply only as JSON: {\"command\":\"...\"}\nrequest=\"find \\\"notes\\\"\"\ncwd=\"/tmp/a b\"\ninput=\"git \""
    );
}

#[test]
fn the_line_prompt_puts_the_context_on_its_own_line() {
    let p = fx_line::line::prompt("{\"request\":\"ls\"}");
    let (rules, context) = p.split_once('\n').unwrap();
    assert_eq!(rules, fx_line::line::LINE_RULES);
    assert_eq!(context, "{\"request\":\"ls\"}");
    let plan = planner::prompt("{}");
    assert!(plan.starts_with(planner::RULES));
    assert!(plan.ends_with("\n{}"));
}

#[test]
fn a_command_is_generated_with_one_retry() {
    let calls = RefCell::new(0);
    let complete = |_p: String| -> Result<String, Error> {
        *calls.borrow_mut() += 1;
        if *calls.borrow() == 1 {
            Ok("{\"command\":\"\"}".into())
        } else {
            Ok("{\"command\":\"ls -la\"}".into())
        }
    };
    let mut asked = Vec::new();
    assert_eq!(generate("{}", &complete, &mut asked).unwrap(), "ls -la");
    assert_eq!(asked.len(), 2);
    assert_eq!(asked[0], asked[1]);
    assert_eq!(*calls.borrow(), 2);

    let failing = |_p: String| -> Result<String, Error> { Err(Error("fx failed".into())) };
    assert_eq!(generate("{}", &failing, &mut Vec::new()).unwrap_err().0, "fx failed");
    let blank = |_p: String| -> Result<String, Error> { Ok("   ".into()) };
    assert_eq!(generate("{}", &blank, &mut Vec::new()).unwrap_err().0, "fx returned a blank command");
}

#[test]
fn models_fall_back_in_order() {
    assert_eq!(line_model(None), DEFAULT_LINE_MODEL);
    assert_eq!(line_model(Some("m".into())), "m");
    assert_eq!(plan_model(None, Some("line".into())), "line");
    assert_eq!(plan_model(Some("plan".into()), Some("line".into())), "plan");
    assert_eq!(agent_model(None, None), "zai/glm-4.7-flash");
    assert_eq!(agent_model(Some("a".into()), None), "a");
}

#[test]
fn the_runtime_path_puts_the_users_tools_first() {
    assert_eq!(
        runtime_paths(&Some("/h".into()), &vec!["/usr/bin".into()]),
        ["/h/.local/bin", "/h/.cargo/bin", "/opt/homebrew/bin", "/usr/local/bin", "/usr/bin"]
    );
    assert_eq!(runtime_paths(&None, &vec![]), ["/opt/homebrew/bin", "/usr/local/bin"]);
    assert_eq!(
        candidates(&Some("/h/".into())),
        ["/h/.local/bin/fx", "/h/.cargo/bin/fx", "/opt/homebrew/bin/fx", "/usr/local/bin/fx"]
    );
}

#[test]
fn the_binary_is_the_first_candidate_that_exists() {
    let only_brew = |p: String| p == "/opt/homebrew/bin/fx";
    assert_eq!(binary(None, &Some("/h".into()), &only_brew), "/opt/homebrew/bin/fx");
    let nothing = |_p: String| false;
    assert_eq!(binary(None, &None, &nothing), "fx");
    assert_eq!(binary(Some("/x/fx".into()), &None, &nothing), "/x/fx");
}

#[test]
fn a_finished_run_is_read_in_order() {
    assert_eq!(finish(true, 5, true, "", "").unwrap_err().0, "fx timed out after 5 seconds");
    assert_eq!(finish(true, 20, false, "", "x").unwrap_err().0, "fx timed out after 20 seconds");
    assert_eq!(finish(false, 5, false, "", "\n err \n").unwrap_err().0, " err ");
    assert_eq!(finish(false, 5, false, "", "").unwrap_err().0, "fx failed");
    assert_eq!(
        finish(false, 5, true, "{\"output\":\"pwd\",\"exit_code\":0}", "").unwrap(),
        "pwd"
    );
    assert_eq!(finish(false, 5, true, "nope", "").unwrap_err().0, "fx returned invalid JSON");
}

#[test]
fn prompt_encodes_directory_context_as_data() {
    let read = |_p: String| -> Option<String> { None };
    let is_dir = |_p: String| false;
    let directory = fx_line::project::directory(&vec![], None, &is_dir, &read);
    let mut dir = serde_json::Map::new();
    dir.insert(
        "entries".into(),
        serde_json::Value::Array(
            directory.entries.iter().map(|e| serde_json::Value::String(e.clone())).collect(),
        ),
    );
    dir.insert("git_branch".into(), serde_json::Value::Null);
    dir.insert("git_root".into(), serde_json::Value::Null);
    let mut context = serde_json::Map::new();
    context.insert("request".into(), serde_json::Value::String("find \"notes\"".into()));
    context.insert("cwd".into(), serde_json::Value::String("/missing/a b".into()));
    context.insert("current_line".into(), serde_json::Value::String("git ".into()));
    context.insert("directory".into(), serde_json::Value::Object(dir));
    let prompt = fx_line::line::prompt(&serde_json::Value::Object(context).to_string());
    let (_, context) = prompt.split_once('\n').unwrap();
    let context: serde_json::Value = serde_json::from_str(context).unwrap();

    assert_eq!(context["request"], "find \"notes\"");
    assert_eq!(context["cwd"], "/missing/a b");
    assert_eq!(context["current_line"], "git ");
    assert_eq!(context["directory"]["entries"], serde_json::Value::Array(vec![]));
}
