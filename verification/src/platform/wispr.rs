//! Wispr Flow's settings: the push-to-talk shortcut that the agent listens
//! to, the extension of earlier versions that is removed, and the decisions
//! of stopping Wispr Flow while the agent is installed. Reading and writing
//! the files, and running `ps`, `osascript` and `kill`, is the caller's work;
//! here the documents are read from their bytes and changed.
use crate::error::Error;
use crate::json::{
    as_text, error_message, from_array, from_object, into_array, into_object, json_map_of,
    json_of, json_parse_bytes, jsons_of, map_insert, map_remove, member, new_map, null_value, parse_bytes,
    text_value, value_as_str, JsonValue,
};
use crate::platform::host::{
    arg_views, files_ready, processes_ready, run_checked, run_failed, Contents, Files, Output,
    Processes,
};
use crate::platform::service::{
    listed, listing_arguments, listing_failed, process_id, ran, spec_process_id,
};
use crate::cmux::actions::{decimal, decimal_chars};
use crate::service::{join_path, path_join};
use crate::text::{chars_of, same, string_of};
use vstd::prelude::*;

verus! {

/// The Wispr Flow shortcut of Function and Control together.
pub const FLOW_SHORTCUT: &'static str = "59+63";

/// The action that makes the shortcut push-to-talk.
pub const FLOW_PTT: &'static str = "ptt";

/// The action that Wispr Flow gives the shortcut by itself.
pub const FLOW_COMMAND_MODE: &'static str = "lens";

/// The executable of Wispr Flow.
pub const FLOW_BINARY: &'static str = "/Applications/Wispr Flow.app/Contents/MacOS/Wispr Flow";

/// The extension that earlier versions installed.
pub const OLD_EXTENSION: &'static str = "fx-agent";

/// How long Wispr Flow is given to quit by itself, in milliseconds.
pub const FLOW_GRACEFUL_STOP_MS: u64 = 1000;

/// How long Wispr Flow is given to stop at all, in milliseconds.
pub const FLOW_STOP_TIMEOUT_MS: u64 = 5000;

/// The error of a configuration without `prefs.user.shortcuts`.
pub const MISSING_SHORTCUTS: &'static str = "Wispr config is missing prefs.user.shortcuts";

/// The error of shortcuts that are not an object.
pub const SHORTCUTS_NOT_OBJECT: &'static str = "Wispr shortcuts are not an object";

/// The error of custom paths that are not an array.
pub const INVALID_CUSTOM_PATHS: &'static str = "invalid Wispr custom paths";

/// The error of an extension state that is not an object.
pub const INVALID_EXTENSION_STATE: &'static str = "invalid Wispr extension state";

/// The files that the agent touches under a home directory.
pub struct FlowPaths {
    /// Wispr Flow's settings.
    pub config: String,
    /// The extension directories that Wispr Flow loads.
    pub custom_paths: String,
    /// Which extensions are enabled.
    pub enabled_state: String,
    /// Where earlier versions kept their extension.
    pub bridge: String,
    /// The socket of earlier versions.
    pub socket: String,
}

/// The agent's own state directory.
pub open spec fn state_root(home: Seq<char>) -> Seq<char> {
    path_join(home, "Library/Application Support/fx-line"@)
}

/// Wispr Flow's directory.
pub open spec fn flow_root(home: Seq<char>) -> Seq<char> {
    path_join(home, "Library/Application Support/Wispr Flow"@)
}

/// The paths under a home directory.
pub fn paths(home: &str) -> (p: FlowPaths)
    ensures
        p.config@ == path_join(flow_root(home@), "config.json"@),
        p.custom_paths@ == path_join(
            path_join(flow_root(home@), "extensions"@),
            "custom-paths.json"@,
        ),
        p.enabled_state@ == path_join(
            path_join(flow_root(home@), "extensions"@),
            "extensions-state.json"@,
        ),
        p.bridge@ == path_join(state_root(home@), "wispr"@),
        p.socket@ == path_join(state_root(home@), "agent.sock"@),
{
    let state = join_path(home, "Library/Application Support/fx-line");
    let flow = join_path(home, "Library/Application Support/Wispr Flow");
    let extensions = join_path(flow.as_str(), "extensions");
    FlowPaths {
        config: join_path(flow.as_str(), "config.json"),
        custom_paths: join_path(extensions.as_str(), "custom-paths.json"),
        enabled_state: join_path(extensions.as_str(), "extensions-state.json"),
        bridge: join_path(state.as_str(), "wispr"),
        socket: join_path(state.as_str(), "agent.sock"),
    }
}

/// A result of the library by the JSON value it holds.
pub open spec fn json_result(r: Result<serde_json::Value, Error>) -> Result<JsonValue, Seq<char>> {
    match r {
        Ok(v) => Ok(json_of(v)),
        Err(e) => Err(e.0@),
    }
}

/// The document that a file holds: its contents parsed, or `default` where
/// there is no file (`None`); `None` where the contents are not JSON.
pub open spec fn document(contents: Option<Seq<u8>>, default: JsonValue) -> Option<JsonValue> {
    match contents {
        None => Some(default),
        Some(bytes) => json_parse_bytes(bytes),
    }
}

/// The document of a file, or the parse error.
fn read_document(contents: Option<&[u8]>, default: serde_json::Value) -> (r: Result<
    serde_json::Value,
    Error,
>)
    ensures
        match document(
            match contents {
                Some(b) => Some(b@),
                None => None,
            },
            json_of(default),
        ) {
            Some(v) => r matches Ok(value) && json_of(value) == v,
            None => r is Err,
        },
{
    match contents {
        None => Ok(default),
        Some(bytes) => match parse_bytes(bytes) {
            Ok(value) => Ok(value),
            Err(e) => Err(Error(error_message(&e))),
        },
    }
}

/// The members of an object value.
pub open spec fn members(value: JsonValue) -> Map<Seq<char>, JsonValue> {
    match value {
        JsonValue::Object(m) => m,
        _ => Map::empty(),
    }
}

/// The configuration with the shortcut set to `action`: the shortcuts at
/// `prefs.user.shortcuts` must be there, and be an object.
pub open spec fn spec_set_shortcut(config: JsonValue, action: Seq<char>) -> Result<
    JsonValue,
    Seq<char>,
> {
    match member(config, "prefs"@) {
        None => Err(MISSING_SHORTCUTS@),
        Some(prefs) => match member(prefs, "user"@) {
            None => Err(MISSING_SHORTCUTS@),
            Some(user) => match member(user, "shortcuts"@) {
                None => Err(MISSING_SHORTCUTS@),
                Some(JsonValue::Object(shortcuts)) => Ok(
                    JsonValue::Object(
                        members(config).insert(
                            "prefs"@,
                            JsonValue::Object(
                                members(prefs).insert(
                                    "user"@,
                                    JsonValue::Object(
                                        members(user).insert(
                                            "shortcuts"@,
                                            JsonValue::Object(
                                                shortcuts.insert(
                                                    FLOW_SHORTCUT@,
                                                    JsonValue::Str(action),
                                                ),
                                            ),
                                        ),
                                    ),
                                ),
                            ),
                        ),
                    ),
                ),
                Some(_) => Err(SHORTCUTS_NOT_OBJECT@),
            },
        },
    }
}

/// Takes the member `key` out of an object value: the remaining members and
/// the member, or the error of a missing shortcut path.
fn take_member(value: serde_json::Value, key: &str) -> (r: Result<
    (serde_json::Map<String, serde_json::Value>, serde_json::Value),
    Error,
>)
    ensures
        match member(json_of(value), key@) {
            None => r matches Err(e) && e.0@ == MISSING_SHORTCUTS@,
            Some(m) => r matches Ok((rest, taken)) && json_of(taken) == m && json_map_of(rest)
                == members(json_of(value)).remove(key@),
        },
{
    let mut map = match into_object(value) {
        Ok(map) => map,
        Err(_) => return Err(Error(MISSING_SHORTCUTS.to_owned())),
    };
    match map_remove(&mut map, key) {
        Some(taken) => Ok((map, taken)),
        None => Err(Error(MISSING_SHORTCUTS.to_owned())),
    }
}

/// The configuration with the shortcut set to `action`.
pub fn with_shortcut(config: serde_json::Value, action: &str) -> (r: Result<serde_json::Value, Error>)
    ensures
        json_result(r) == spec_set_shortcut(json_of(config), action@),
{
    let ghost c = json_of(config);
    let (mut root, prefs) = match take_member(config, "prefs") {
        Ok(parts) => parts,
        Err(e) => return Err(e),
    };
    let ghost p = json_of(prefs);
    let (mut prefs_rest, user) = match take_member(prefs, "user") {
        Ok(parts) => parts,
        Err(e) => return Err(e),
    };
    let ghost u = json_of(user);
    let (mut user_rest, shortcuts) = match take_member(user, "shortcuts") {
        Ok(parts) => parts,
        Err(e) => return Err(e),
    };
    let mut shortcut_map = match into_object(shortcuts) {
        Ok(map) => map,
        Err(_) => return Err(Error(SHORTCUTS_NOT_OBJECT.to_owned())),
    };
    let ghost s = json_map_of(shortcut_map);
    let ghost sc = JsonValue::Object(s.insert(FLOW_SHORTCUT@, JsonValue::Str(action@)));
    map_insert(&mut shortcut_map, FLOW_SHORTCUT.to_owned(), text_value(action.to_owned()));
    let shortcuts_value = from_object(shortcut_map);
    map_insert(&mut user_rest, "shortcuts".to_owned(), shortcuts_value);
    assert(json_map_of(user_rest) =~= members(u).insert("shortcuts"@, sc));
    let ghost uv = JsonValue::Object(members(u).insert("shortcuts"@, sc));
    let user_value = from_object(user_rest);
    map_insert(&mut prefs_rest, "user".to_owned(), user_value);
    assert(json_map_of(prefs_rest) =~= members(p).insert("user"@, uv));
    let prefs_value = from_object(prefs_rest);
    map_insert(&mut root, "prefs".to_owned(), prefs_value);
    assert(json_map_of(root) =~= members(c).insert(
        "prefs"@,
        JsonValue::Object(members(p).insert("user"@, uv)),
    ));
    Ok(from_object(root))
}

/// The configuration file's new document: the shortcut set to `action`
/// (`None` for a missing file, which has no shortcuts).
pub fn set_shortcut(contents: Option<&[u8]>, action: &str) -> (r: Result<serde_json::Value, Error>)
    ensures
        match document(
            match contents {
                Some(b) => Some(b@),
                None => None,
            },
            JsonValue::Null,
        ) {
            Some(v) => json_result(r) == spec_set_shortcut(v, action@),
            None => r is Err,
        },
{
    match read_document(contents, null_value()) {
        Ok(config) => with_shortcut(config, action),
        Err(e) => Err(e),
    }
}

/// The custom paths without `root`: the items that are not the string
/// `root`, in order.
pub open spec fn kept_paths(items: Seq<JsonValue>, root: Seq<char>) -> Seq<JsonValue>
    decreases items.len(),
{
    if items.len() == 0 {
        seq![]
    } else if as_text(items.last()) == Some(root) {
        kept_paths(items.drop_last(), root)
    } else {
        kept_paths(items.drop_last(), root).push(items.last())
    }
}

/// The custom paths document without `root`; it must be an array.
pub open spec fn spec_without_path(paths: JsonValue, root: Seq<char>) -> Result<JsonValue, Seq<char>> {
    match paths {
        JsonValue::Array(items) => Ok(JsonValue::Array(kept_paths(items, root))),
        _ => Err(INVALID_CUSTOM_PATHS@),
    }
}

/// The custom paths file's new document, without `root` (an empty array for
/// a missing file).
pub fn without_custom_path(contents: Option<&[u8]>, root: &str) -> (r: Result<serde_json::Value, Error>)
    ensures
        match document(
            match contents {
                Some(b) => Some(b@),
                None => None,
            },
            JsonValue::Array(seq![]),
        ) {
            Some(v) => json_result(r) == spec_without_path(v, root@),
            None => r is Err,
        },
{
    let empty: Vec<serde_json::Value> = Vec::new();
    let default = from_array(empty);
    assert(jsons_of(empty@) =~= Seq::<JsonValue>::empty());
    let value = match read_document(contents, default) {
        Ok(value) => value,
        Err(e) => return Err(e),
    };
    let items = match into_array(value) {
        Ok(items) => items,
        Err(_) => return Err(Error(INVALID_CUSTOM_PATHS.to_owned())),
    };
    let ghost all = jsons_of(items@);
    let mut kept: Vec<serde_json::Value> = Vec::new();
    let mut rest = items;
    let mut i: usize = 0;
    let n = rest.len();
    while i < n
        invariant
            n == all.len(),
            i <= n,
            jsons_of(kept@) == kept_paths(all.take(i as int), root@),
            jsons_of(rest@) == all.skip(i as int),
        decreases n - i,
    {
        let ghost before_rest = rest@;
        assert(jsons_of(rest@).len() == rest@.len());
        assert(rest@.len() > 0);
        let item = rest.remove(0);
        assert(jsons_of(rest@) =~= all.skip(i + 1)) by {
            assert(rest@ =~= before_rest.remove(0));
            assert(jsons_of(rest@) =~= jsons_of(before_rest).drop_first());
            assert(all.skip(i as int).drop_first() =~= all.skip(i + 1));
        }
        assert(json_of(item) == all[i as int]) by {
            assert(jsons_of(before_rest)[0] == all.skip(i as int)[0]);
        }
        assert(all.take(i + 1).drop_last() =~= all.take(i as int));
        let same_root = match value_as_str(&item) {
            Some(text) => same(&chars_of(text), &chars_of(root)),
            None => false,
        };
        if !same_root {
            let ghost before = jsons_of(kept@);
            kept.push(item);
            assert(jsons_of(kept@) =~= before.push(json_of(item)));
        }
        i = i + 1;
    }
    assert(all.take(n as int) =~= all);
    Ok(from_array(kept))
}

/// The extension state without the old extension; it must be an object.
pub open spec fn spec_without_extension(state: JsonValue) -> Result<JsonValue, Seq<char>> {
    match state {
        JsonValue::Object(m) => Ok(JsonValue::Object(m.remove(OLD_EXTENSION@))),
        _ => Err(INVALID_EXTENSION_STATE@),
    }
}

/// The extension state file's new document, without the old extension (an
/// empty object for a missing file).
pub fn without_old_extension(contents: Option<&[u8]>) -> (r: Result<serde_json::Value, Error>)
    ensures
        match document(
            match contents {
                Some(b) => Some(b@),
                None => None,
            },
            JsonValue::Object(Map::empty()),
        ) {
            Some(v) => json_result(r) == spec_without_extension(v),
            None => r is Err,
        },
{
    let value = match read_document(contents, from_object(new_map())) {
        Ok(value) => value,
        Err(e) => return Err(e),
    };
    let mut state = match into_object(value) {
        Ok(map) => map,
        Err(_) => return Err(Error(INVALID_EXTENSION_STATE.to_owned())),
    };
    map_remove(&mut state, OLD_EXTENSION);
    Ok(from_object(state))
}

/// The error when Wispr Flow does not stop in time.
pub const NOT_STOPPED: &'static str = "Wispr Flow did not stop";

/// The process of Wispr Flow, read from a `ps -axo pid=,command=` listing.
pub fn flow_process_id(listing: &str) -> (r: Result<Option<u32>, Error>)
    ensures
        match spec_process_id(listing@, FLOW_BINARY@) {
            Ok(None) => r matches Ok(None),
            Ok(Some(pid)) => r matches Ok(Some(p)) && p == pid,
            Err(e) => r matches Err(err) && err.0@ == e,
        },
{
    process_id(listing, FLOW_BINARY)
}

/// What comes next while Wispr Flow is being stopped.
#[derive(Clone, Copy, Debug, PartialEq, Eq, Structural)]
pub enum StopStep {
    /// It has stopped.
    Stopped,
    /// Look again after a short sleep.
    Wait,
    /// It did not quit when asked: kill it.
    Kill,
    /// It did not stop even when killed.
    GiveUp,
}

/// The step after `elapsed_ms` since Wispr Flow was asked to quit (and since
/// it was killed, where `killed`): within the time allowed, it has stopped
/// unless it is still `running`; past it, it is killed, or given up on.
pub open spec fn spec_stop_step(killed: bool, elapsed_ms: u64, running: bool) -> StopStep {
    let limit = if killed {
        FLOW_STOP_TIMEOUT_MS
    } else {
        FLOW_GRACEFUL_STOP_MS
    };
    if elapsed_ms < limit {
        if running {
            StopStep::Wait
        } else {
            StopStep::Stopped
        }
    } else if killed {
        StopStep::GiveUp
    } else {
        StopStep::Kill
    }
}

/// The next step of stopping Wispr Flow; `running` looks whether it still
/// runs, and is asked only within the time allowed.
pub fn stop_step<F: Fn() -> Result<bool, Error>>(killed: bool, elapsed_ms: u64, running: &F) -> (r:
    Result<StopStep, Error>)
    requires
        running.requires(()),
    ensures
        elapsed_ms >= (if killed {
            FLOW_STOP_TIMEOUT_MS
        } else {
            FLOW_GRACEFUL_STOP_MS
        }) ==> r == Ok::<StopStep, Error>(spec_stop_step(killed, elapsed_ms, true)),
        elapsed_ms < (if killed {
            FLOW_STOP_TIMEOUT_MS
        } else {
            FLOW_GRACEFUL_STOP_MS
        }) ==> exists|answer: Result<bool, Error>|
            #[trigger] running.ensures((), answer) && match answer {
                Ok(b) => r == Ok::<StopStep, Error>(spec_stop_step(killed, elapsed_ms, b)),
                Err(e) => r == Err::<StopStep, Error>(e),
            },
{
    let limit = if killed {
        FLOW_STOP_TIMEOUT_MS
    } else {
        FLOW_GRACEFUL_STOP_MS
    };
    if elapsed_ms < limit {
        let answer = running();
        let ghost a = answer;
        match answer {
            Ok(b) => {
                assert(running.ensures((), a));
                if b {
                    Ok(StopStep::Wait)
                } else {
                    Ok(StopStep::Stopped)
                }
            },
            Err(e) => Err(e),
        }
    } else if killed {
        Ok(StopStep::GiveUp)
    } else {
        Ok(StopStep::Kill)
    }
}

/// The bytes of a file as read, by view.
pub open spec fn bytes_view(contents: Option<Vec<u8>>) -> Option<Seq<u8>> {
    match contents {
        Some(b) => Some(b@),
        None => None,
    }
}

/// The bytes of a file as read, borrowed.
fn bytes_of(contents: &Option<Vec<u8>>) -> (r: Option<&[u8]>)
    ensures
        match r {
            Some(b) => contents matches Some(v) && b@ == v@,
            None => contents is None,
        },
{
    match contents {
        Some(v) => Some(v.as_slice()),
        None => None,
    }
}

/// The document at `path` was read, changed by `change` without error, and
/// written back.
pub open spec fn rewrote<
    Read: Fn(String) -> Result<Option<Vec<u8>>, Error>,
    Exists: Fn(String) -> bool,
    Place: Fn(String, Contents) -> Result<(), Error>,
    Remove: Fn(String, bool) -> Result<(), Error>,
>(
    files: &Files<Read, Exists, Place, Remove>,
    path: Seq<char>,
    default: JsonValue,
    change: spec_fn(JsonValue) -> Result<JsonValue, Seq<char>>,
) -> bool {
    exists|p: String, contents: Option<Vec<u8>>, q: String, doc: serde_json::Value, placed: Result<(), Error>|
        #![trigger files.read.ensures((p,), Ok::<Option<Vec<u8>>, Error>(contents)), files.place.ensures((q, Contents::Json(doc)), placed)]
        p@ == path && files.read.ensures((p,), Ok::<Option<Vec<u8>>, Error>(contents)) && (document(
            bytes_view(contents),
            default,
        ) matches Some(v) && change(v) == Ok::<JsonValue, Seq<char>>(json_of(doc))) && q@ == path
            && files.place.ensures((q, Contents::Json(doc)), placed) && placed is Ok
}

/// Rewriting the document at `path` by `change` failed with `error`:
/// reading it failed with it; or it was read and is not JSON, or `change`
/// refused it with that message; or it was changed and putting it back
/// failed with it.
pub open spec fn rewrite_failed<
    Read: Fn(String) -> Result<Option<Vec<u8>>, Error>,
    Exists: Fn(String) -> bool,
    Place: Fn(String, Contents) -> Result<(), Error>,
    Remove: Fn(String, bool) -> Result<(), Error>,
>(
    files: &Files<Read, Exists, Place, Remove>,
    path: Seq<char>,
    default: JsonValue,
    change: spec_fn(JsonValue) -> Result<JsonValue, Seq<char>>,
    error: Error,
) -> bool {
    ||| rewrite_refused(files, path, default, change, error)
    ||| write_failed(files, path, default, change, error)
}

/// The document at `path` could not be changed, with `error`, so nothing was
/// written: reading it failed with it; or it was read and is not JSON, or
/// `change` refused it with that message.
pub open spec fn rewrite_refused<
    Read: Fn(String) -> Result<Option<Vec<u8>>, Error>,
    Exists: Fn(String) -> bool,
    Place: Fn(String, Contents) -> Result<(), Error>,
    Remove: Fn(String, bool) -> Result<(), Error>,
>(
    files: &Files<Read, Exists, Place, Remove>,
    path: Seq<char>,
    default: JsonValue,
    change: spec_fn(JsonValue) -> Result<JsonValue, Seq<char>>,
    error: Error,
) -> bool {
    ||| exists|p: String|
        #[trigger] files.read.ensures((p,), Err::<Option<Vec<u8>>, Error>(error)) && p@ == path
    ||| exists|p: String, contents: Option<Vec<u8>>|
        #[trigger] files.read.ensures((p,), Ok::<Option<Vec<u8>>, Error>(contents)) && p@ == path
            && match document(bytes_view(contents), default) {
            None => true,
            Some(v) => change(v) == Err::<JsonValue, Seq<char>>(error.0@),
        }
}

/// The document at `path` was changed, and writing it back failed with
/// `error`.
pub open spec fn write_failed<
    Read: Fn(String) -> Result<Option<Vec<u8>>, Error>,
    Exists: Fn(String) -> bool,
    Place: Fn(String, Contents) -> Result<(), Error>,
    Remove: Fn(String, bool) -> Result<(), Error>,
>(
    files: &Files<Read, Exists, Place, Remove>,
    path: Seq<char>,
    default: JsonValue,
    change: spec_fn(JsonValue) -> Result<JsonValue, Seq<char>>,
    error: Error,
) -> bool {
    exists|p: String, contents: Option<Vec<u8>>, q: String, doc: serde_json::Value|
        #![trigger files.read.ensures((p,), Ok::<Option<Vec<u8>>, Error>(contents)), files.place.ensures((q, Contents::Json(doc)), Err::<(), Error>(error))]
        p@ == path && files.read.ensures((p,), Ok::<Option<Vec<u8>>, Error>(contents)) && (document(
            bytes_view(contents),
            default,
        ) matches Some(v) && change(v) == Ok::<JsonValue, Seq<char>>(json_of(doc))) && q@ == path
            && files.place.ensures((q, Contents::Json(doc)), Err::<(), Error>(error))
}

/// `remove` failed on `path` (recursively where `recursive`) with `error`.
pub open spec fn remove_failed<
    Read: Fn(String) -> Result<Option<Vec<u8>>, Error>,
    Exists: Fn(String) -> bool,
    Place: Fn(String, Contents) -> Result<(), Error>,
    Remove: Fn(String, bool) -> Result<(), Error>,
>(files: &Files<Read, Exists, Place, Remove>, path: Seq<char>, recursive: bool, error: Error) -> bool {
    exists|p: String|
        #[trigger] files.remove.ensures((p, recursive), Err::<(), Error>(error)) && p@ == path
}

/// The paths of a record, by their texts.
pub open spec fn paths_of(written: Seq<String>) -> Seq<Seq<char>> {
    written.map_values(|p: String| p@)
}

/// Sets the shortcut to `action` in Wispr Flow's configuration file.
/// `written` gets the path each time a document is handed to `place`.
fn write_shortcut<
    Read: Fn(String) -> Result<Option<Vec<u8>>, Error>,
    Exists: Fn(String) -> bool,
    Place: Fn(String, Contents) -> Result<(), Error>,
    Remove: Fn(String, bool) -> Result<(), Error>,
>(
    files: &Files<Read, Exists, Place, Remove>,
    config: &str,
    action: &str,
    written: &mut Vec<String>,
) -> (r: Result<(), Error>)
    requires
        files_ready(files),
    ensures
        r is Ok ==> rewrote(
            files,
            config@,
            JsonValue::Null,
            |v: JsonValue| spec_set_shortcut(v, action@),
        ) && paths_of(final(written)@) == paths_of(old(written)@).push(config@),
        r matches Err(e) ==> rewrite_failed(
            files,
            config@,
            JsonValue::Null,
            |v: JsonValue| spec_set_shortcut(v, action@),
            e,
        ),
        r matches Err(e) ==> (rewrite_refused(
            files,
            config@,
            JsonValue::Null,
            |v: JsonValue| spec_set_shortcut(v, action@),
            e,
        ) && final(written)@ == old(written)@) || (write_failed(
            files,
            config@,
            JsonValue::Null,
            |v: JsonValue| spec_set_shortcut(v, action@),
            e,
        ) && paths_of(final(written)@) == paths_of(old(written)@).push(config@)),
{
    let p = config.to_owned();
    let ghost asked = p;
    let contents = match (files.read)(p) {
        Ok(c) => c,
        Err(e) => {
            assert(files.read.ensures((asked,), Err::<Option<Vec<u8>>, Error>(e)));
            return Err(e);
        },
    };
    assert(files.read.ensures((asked,), Ok::<Option<Vec<u8>>, Error>(contents)));
    let doc = match set_shortcut(bytes_of(&contents), action) {
        Ok(doc) => doc,
        Err(e) => return Err(e),
    };
    let ghost written_doc = doc;
    let ghost before = written@;
    written.push(config.to_owned());
    assert(paths_of(written@) =~= paths_of(before).push(config@));
    let q = config.to_owned();
    let ghost target = q;
    let placed = (files.place)(q, Contents::Json(doc));
    let ghost answer = placed;
    match placed {
        Ok(()) => {
            assert(files.read.ensures((asked,), Ok::<Option<Vec<u8>>, Error>(contents)));
            assert(files.place.ensures((target, Contents::Json(written_doc)), answer));
            Ok(())
        },
        Err(e) => {
            assert(files.place.ensures((target, Contents::Json(written_doc)), Err::<(), Error>(e)));
            Err(e)
        },
    }
}

/// Nothing was at `path`, or its document was rewritten by `change` (see
/// `rewrote`).
pub open spec fn rewrote_if_present<
    Read: Fn(String) -> Result<Option<Vec<u8>>, Error>,
    Exists: Fn(String) -> bool,
    Place: Fn(String, Contents) -> Result<(), Error>,
    Remove: Fn(String, bool) -> Result<(), Error>,
>(
    files: &Files<Read, Exists, Place, Remove>,
    path: Seq<char>,
    default: JsonValue,
    change: spec_fn(JsonValue) -> Result<JsonValue, Seq<char>>,
) -> bool {
    (exists|p: String| #[trigger] files.exists.ensures((p,), false) && p@ == path) || rewrote(
        files,
        path,
        default,
        change,
    )
}

/// `remove` succeeded on `path` (recursively where `recursive`).
pub open spec fn removed<
    Read: Fn(String) -> Result<Option<Vec<u8>>, Error>,
    Exists: Fn(String) -> bool,
    Place: Fn(String, Contents) -> Result<(), Error>,
    Remove: Fn(String, bool) -> Result<(), Error>,
>(files: &Files<Read, Exists, Place, Remove>, path: Seq<char>, recursive: bool) -> bool {
    exists|p: String, answer: Result<(), Error>|
        #[trigger] files.remove.ensures((p, recursive), answer) && p@ == path && answer is Ok
}

/// The extension of earlier versions is gone: the custom paths no longer
/// name its directory, the extension state no longer holds it (each file
/// only where it exists), and its directory and socket were removed.
pub open spec fn removed_old_extension<
    Read: Fn(String) -> Result<Option<Vec<u8>>, Error>,
    Exists: Fn(String) -> bool,
    Place: Fn(String, Contents) -> Result<(), Error>,
    Remove: Fn(String, bool) -> Result<(), Error>,
>(files: &Files<Read, Exists, Place, Remove>, home: Seq<char>) -> bool {
    let extensions = path_join(flow_root(home), "extensions"@);
    let bridge = path_join(state_root(home), "wispr"@);
    &&& rewrote_if_present(
        files,
        path_join(extensions, "custom-paths.json"@),
        JsonValue::Array(seq![]),
        |v: JsonValue| spec_without_path(v, bridge),
    )
    &&& rewrote_if_present(
        files,
        path_join(extensions, "extensions-state.json"@),
        JsonValue::Object(Map::empty()),
        |v: JsonValue| spec_without_extension(v),
    )
    &&& removed(files, bridge, true)
    &&& removed(files, path_join(state_root(home), "agent.sock"@), false)
}

/// The writes that removing the extension of earlier versions makes under
/// `home`: at most two, each of the custom paths or of the extension state.
pub open spec fn extension_writes(home: Seq<char>, w: Seq<Seq<char>>) -> bool {
    let extensions = path_join(flow_root(home), "extensions"@);
    &&& w.len() <= 2
    &&& forall|i: int|
        0 <= i < w.len() ==> #[trigger] w[i] == path_join(extensions, "custom-paths.json"@) || w[i]
            == path_join(extensions, "extensions-state.json"@)
}

/// Removing the extension of earlier versions failed with `error`: the
/// rewrite of the custom paths or of the extension state failed with it, or
/// removing its directory or its socket did.
pub open spec fn old_extension_failed<
    Read: Fn(String) -> Result<Option<Vec<u8>>, Error>,
    Exists: Fn(String) -> bool,
    Place: Fn(String, Contents) -> Result<(), Error>,
    Remove: Fn(String, bool) -> Result<(), Error>,
>(files: &Files<Read, Exists, Place, Remove>, home: Seq<char>, error: Error) -> bool {
    let extensions = path_join(flow_root(home), "extensions"@);
    let bridge = path_join(state_root(home), "wispr"@);
    ||| rewrite_failed(
        files,
        path_join(extensions, "custom-paths.json"@),
        JsonValue::Array(seq![]),
        |v: JsonValue| spec_without_path(v, bridge),
        error,
    )
    ||| rewrite_failed(
        files,
        path_join(extensions, "extensions-state.json"@),
        JsonValue::Object(Map::empty()),
        |v: JsonValue| spec_without_extension(v),
        error,
    )
    ||| remove_failed(files, bridge, true, error)
    ||| remove_failed(files, path_join(state_root(home), "agent.sock"@), false, error)
}

/// Removes the extension of earlier versions: its path from Wispr Flow's
/// custom paths, its entry from the extension state (each file only where
/// it exists), its directory and its socket.
fn remove_old_extension<
    Read: Fn(String) -> Result<Option<Vec<u8>>, Error>,
    Exists: Fn(String) -> bool,
    Place: Fn(String, Contents) -> Result<(), Error>,
    Remove: Fn(String, bool) -> Result<(), Error>,
>(files: &Files<Read, Exists, Place, Remove>, home: &str, written: &mut Vec<String>) -> (r: Result<
    (),
    Error,
>)
    requires
        files_ready(files),
    ensures
        exists|w: Seq<Seq<char>>|
            #[trigger] extension_writes(home@, w) && paths_of(final(written)@) == paths_of(
                old(written)@,
            ) + w,
        r is Ok ==> removed_old_extension(files, home@),
        r matches Err(e) ==> old_extension_failed(files, home@, e),
{
    let paths = paths(home);
    let ghost before = written@;
    let ghost mut w: Seq<Seq<char>> = seq![];
    assert(paths_of(written@) =~= paths_of(before) + w);
    assert(extension_writes(home@, w));
    let custom = paths.custom_paths.clone();
    let ghost looked = custom;
    let present = (files.exists)(custom);
    if present {
        let p = paths.custom_paths.clone();
        let ghost asked = p;
        let contents = match (files.read)(p) {
            Ok(c) => c,
            Err(e) => {
                assert(files.read.ensures((asked,), Err::<Option<Vec<u8>>, Error>(e)));
                return Err(e);
            },
        };
        assert(files.read.ensures((asked,), Ok::<Option<Vec<u8>>, Error>(contents)));
        let doc = match without_custom_path(bytes_of(&contents), paths.bridge.as_str()) {
            Ok(doc) => doc,
            Err(e) => return Err(e),
        };
        let ghost written_doc = doc;
        let ghost was = written@;
        written.push(paths.custom_paths.clone());
        proof {
            w = w.push(paths.custom_paths@);
            assert(paths_of(written@) =~= paths_of(before) + w);
            assert(extension_writes(home@, w));
        }
        let q = paths.custom_paths.clone();
        let ghost target = q;
        let placed = (files.place)(q, Contents::Json(doc));
        let ghost answer = placed;
        if let Err(e) = placed {
            assert(files.place.ensures((target, Contents::Json(written_doc)), Err::<(), Error>(e)));
            return Err(e);
        }
        assert(files.read.ensures((asked,), Ok::<Option<Vec<u8>>, Error>(contents)));
        assert(files.place.ensures((target, Contents::Json(written_doc)), answer));
    } else {
        assert(files.exists.ensures((looked,), false));
    }
    let enabled = paths.enabled_state.clone();
    let ghost looked_state = enabled;
    let present_state = (files.exists)(enabled);
    if present_state {
        let p = paths.enabled_state.clone();
        let ghost asked = p;
        let contents = match (files.read)(p) {
            Ok(c) => c,
            Err(e) => {
                assert(files.read.ensures((asked,), Err::<Option<Vec<u8>>, Error>(e)));
                return Err(e);
            },
        };
        assert(files.read.ensures((asked,), Ok::<Option<Vec<u8>>, Error>(contents)));
        let doc = match without_old_extension(bytes_of(&contents)) {
            Ok(doc) => doc,
            Err(e) => return Err(e),
        };
        let ghost written_doc = doc;
        let ghost was = written@;
        written.push(paths.enabled_state.clone());
        proof {
            w = w.push(paths.enabled_state@);
            assert(paths_of(written@) =~= paths_of(before) + w);
            assert(extension_writes(home@, w));
        }
        let q = paths.enabled_state.clone();
        let ghost target = q;
        let placed = (files.place)(q, Contents::Json(doc));
        let ghost answer = placed;
        if let Err(e) = placed {
            assert(files.place.ensures((target, Contents::Json(written_doc)), Err::<(), Error>(e)));
            return Err(e);
        }
        assert(files.read.ensures((asked,), Ok::<Option<Vec<u8>>, Error>(contents)));
        assert(files.place.ensures((target, Contents::Json(written_doc)), answer));
    } else {
        assert(files.exists.ensures((looked_state,), false));
    }
    let bridge = paths.bridge.clone();
    let ghost gone = bridge;
    let dropped = (files.remove)(bridge, true);
    let ghost dropped_answer = dropped;
    if let Err(e) = dropped {
        assert(files.remove.ensures((gone, true), Err::<(), Error>(e)));
        return Err(e);
    }
    assert(files.remove.ensures((gone, true), dropped_answer));
    let socket = paths.socket.clone();
    let ghost closed = socket;
    let last = (files.remove)(socket, false);
    let ghost last_answer = last;
    if let Err(e) = last {
        assert(files.remove.ensures((closed, false), Err::<(), Error>(e)));
        return Err(e);
    }
    assert(files.remove.ensures((closed, false), last_answer));
    Ok(())
}

/// Routes Function-Control to Wispr Flow's push-to-talk, after removing the
/// extension of earlier versions.
pub fn install<
    Read: Fn(String) -> Result<Option<Vec<u8>>, Error>,
    Exists: Fn(String) -> bool,
    Place: Fn(String, Contents) -> Result<(), Error>,
    Remove: Fn(String, bool) -> Result<(), Error>,
>(home: &str, files: &Files<Read, Exists, Place, Remove>, written: &mut Vec<String>) -> (r: Result<
    (),
    Error,
>)
    requires
        files_ready(files),
    ensures
        r is Ok ==> rewrote(
            files,
            path_join(flow_root(home@), "config.json"@),
            JsonValue::Null,
            |v: JsonValue| spec_set_shortcut(v, FLOW_PTT@),
        ),
        exists|w: Seq<Seq<char>>|
            #[trigger] extension_writes(home@, w) && match r {
                Ok(_) => paths_of(final(written)@) == paths_of(old(written)@) + w.push(
                    path_join(flow_root(home@), "config.json"@),
                ),
                Err(e) => paths_of(final(written)@) == paths_of(old(written)@) + w || (paths_of(
                    final(written)@,
                ) == paths_of(old(written)@) + w.push(path_join(flow_root(home@), "config.json"@))
                    && write_failed(
                    files,
                    path_join(flow_root(home@), "config.json"@),
                    JsonValue::Null,
                    |v: JsonValue| spec_set_shortcut(v, FLOW_PTT@),
                    e,
                )),
            },
        r is Ok ==> removed_old_extension(files, home@),
        r matches Err(e) ==> old_extension_failed(files, home@, e) || (removed_old_extension(
            files,
            home@,
        ) && rewrite_failed(
            files,
            path_join(flow_root(home@), "config.json"@),
            JsonValue::Null,
            |v: JsonValue| spec_set_shortcut(v, FLOW_PTT@),
            e,
        )),
{
    let ghost before = written@;
    if let Err(e) = remove_old_extension(files, home, written) {
        return Err(e);
    }
    let ghost removed_w = written@;
    let paths = paths(home);
    let r = write_shortcut(files, paths.config.as_str(), FLOW_PTT, written);
    proof {
        let w = choose|w: Seq<Seq<char>>|
            #[trigger] extension_writes(home@, w) && paths_of(removed_w) == paths_of(before) + w;
        assert(paths_of(removed_w).push(paths.config@) =~= paths_of(before) + w.push(paths.config@));
    }
    r
}

/// Gives Function-Control back to Wispr Flow's command mode, after removing
/// the extension of earlier versions.
pub fn uninstall<
    Read: Fn(String) -> Result<Option<Vec<u8>>, Error>,
    Exists: Fn(String) -> bool,
    Place: Fn(String, Contents) -> Result<(), Error>,
    Remove: Fn(String, bool) -> Result<(), Error>,
>(home: &str, files: &Files<Read, Exists, Place, Remove>, written: &mut Vec<String>) -> (r: Result<
    (),
    Error,
>)
    requires
        files_ready(files),
    ensures
        r is Ok ==> rewrote(
            files,
            path_join(flow_root(home@), "config.json"@),
            JsonValue::Null,
            |v: JsonValue| spec_set_shortcut(v, FLOW_COMMAND_MODE@),
        ),
        exists|w: Seq<Seq<char>>|
            #[trigger] extension_writes(home@, w) && match r {
                Ok(_) => paths_of(final(written)@) == paths_of(old(written)@) + w.push(
                    path_join(flow_root(home@), "config.json"@),
                ),
                Err(e) => paths_of(final(written)@) == paths_of(old(written)@) + w || (paths_of(
                    final(written)@,
                ) == paths_of(old(written)@) + w.push(path_join(flow_root(home@), "config.json"@))
                    && write_failed(
                    files,
                    path_join(flow_root(home@), "config.json"@),
                    JsonValue::Null,
                    |v: JsonValue| spec_set_shortcut(v, FLOW_COMMAND_MODE@),
                    e,
                )),
            },
        r is Ok ==> removed_old_extension(files, home@),
        r matches Err(e) ==> old_extension_failed(files, home@, e) || (removed_old_extension(
            files,
            home@,
        ) && rewrite_failed(
            files,
            path_join(flow_root(home@), "config.json"@),
            JsonValue::Null,
            |v: JsonValue| spec_set_shortcut(v, FLOW_COMMAND_MODE@),
            e,
        )),
{
    let ghost before = written@;
    if let Err(e) = remove_old_extension(files, home, written) {
        return Err(e);
    }
    let ghost removed_w = written@;
    let paths = paths(home);
    let r = write_shortcut(files, paths.config.as_str(), FLOW_COMMAND_MODE, written);
    proof {
        let w = choose|w: Seq<Seq<char>>|
            #[trigger] extension_writes(home@, w) && paths_of(removed_w) == paths_of(before) + w;
        assert(paths_of(removed_w).push(paths.config@) =~= paths_of(before) + w.push(paths.config@));
    }
    r
}

/// How long a look at Wispr Flow is followed by a sleep, in milliseconds.
pub const STOP_POLL_MS: u64 = 100;

/// The most looks while Wispr Flow is stopped: each wait sleeps
/// `STOP_POLL_MS`, so the time allowed runs out well within them.
pub const STOP_ROUNDS: u64 = 64;

/// A `ps` listing showed no Wispr Flow.
pub open spec fn listed_no_flow<
    Run: Fn(String, Vec<String>) -> Result<Output, Error>,
    Sleep: Fn(u64),
    Clock: Fn() -> u64,
>(processes: &Processes<Run, Sleep, Clock>) -> bool {
    listed(processes, FLOW_BINARY@, None)
}

/// The `osascript` arguments that ask Wispr Flow to quit.
pub open spec fn quit_arguments() -> Seq<Seq<char>> {
    seq!["-e"@, "tell application \"Wispr Flow\" to quit"@]
}

/// The number of the running Wispr Flow, from `ps`.
fn flow_pid<Run: Fn(String, Vec<String>) -> Result<Output, Error>, Sleep: Fn(u64), Clock: Fn() -> u64>(
    processes: &Processes<Run, Sleep, Clock>,
) -> (r: Result<Option<u32>, Error>)
    requires
        processes_ready(processes),
    ensures
        match r {
            Ok(found) => listed(
                processes,
                FLOW_BINARY@,
                match found {
                    Some(pid) => Some(pid as nat),
                    None => None,
                },
            ),
            Err(e) => listing_failed(processes, FLOW_BINARY@, e),
        },
{
    let args = ps_arguments();
    assert(arg_views(args@) =~= listing_arguments());
    let listing = match run_checked(processes, "/bin/ps", args) {
        Ok(out) => out,
        Err(e) => return Err(e),
    };
    assert(ran(processes, "/bin/ps"@, listing_arguments(), listing));
    flow_process_id(listing.stdout.as_str())
}

/// The `ps` arguments that list every process with its command line.
pub fn ps_arguments() -> (args: Vec<String>)
    ensures
        args@.len() == 2 && args@[0]@ == "-axo"@ && args@[1]@ == "pid=,command="@,
{
    vec!["-axo".to_owned(), "pid=,command=".to_owned()]
}

/// Stopping Wispr Flow failed with `error`: looking for it failed with it;
/// or it was found, and asking it to quit failed with it, or it was asked
/// and did not stop in time.
pub open spec fn stop_failed<
    Run: Fn(String, Vec<String>) -> Result<Output, Error>,
    Sleep: Fn(u64),
    Clock: Fn() -> u64,
>(processes: &Processes<Run, Sleep, Clock>, error: Error) -> bool {
    ||| listing_failed(processes, FLOW_BINARY@, error)
    ||| (exists|pid: nat| #[trigger] listed(processes, FLOW_BINARY@, Some(pid))) && (run_failed(
        processes,
        "/usr/bin/osascript"@,
        quit_arguments(),
        error,
    ) || (error.0@ == NOT_STOPPED@ && exists|out: Output|
        #[trigger] ran(processes, "/usr/bin/osascript"@, quit_arguments(), out)))
}

/// Stops Wispr Flow where it runs, and tells whether it ran: it is asked to
/// quit, killed after a second, and given up on after five.
pub fn stop_if_running<
    Run: Fn(String, Vec<String>) -> Result<Output, Error>,
    Sleep: Fn(u64),
    Clock: Fn() -> u64,
>(processes: &Processes<Run, Sleep, Clock>) -> (r: Result<bool, Error>)
    requires
        processes_ready(processes),
    ensures
        r is Ok ==> listed_no_flow(processes),
        match r {
            Ok(false) => true,
            Ok(true) => (exists|pid: nat| #[trigger] listed(processes, FLOW_BINARY@, Some(pid)))
                && exists|out: Output|
                #[trigger] ran(processes, "/usr/bin/osascript"@, quit_arguments(), out),
            Err(e) => stop_failed(processes, e),
        },
{
    let pid = match flow_pid(processes) {
        Ok(Some(pid)) => pid,
        Ok(None) => return Ok(false),
        Err(e) => return Err(e),
    };
    assert(listed(processes, FLOW_BINARY@, Some(pid as nat)));
    let quit = vec!["-e".to_owned(), "tell application \"Wispr Flow\" to quit".to_owned()];
    assert(arg_views(quit@) =~= quit_arguments());
    match run_checked(processes, "/usr/bin/osascript", quit) {
        Ok(out) => {
            assert(ran(processes, "/usr/bin/osascript"@, quit_arguments(), out));
        },
        Err(e) => return Err(e),
    }
    let started = (processes.clock)();
    let mut killed = false;
    let mut round: u64 = 0;
    let running = || -> (r: Result<bool, Error>)
        requires
            processes_ready(processes),
        ensures
            r matches Ok(false) ==> listed_no_flow(processes),
            r matches Err(e) ==> listing_failed(processes, FLOW_BINARY@, e),
        {
            match flow_pid(processes) {
                Ok(found) => Ok(found.is_some()),
                Err(e) => Err(e),
            }
        };
    while round < STOP_ROUNDS
        invariant
            processes_ready(processes),
            running.requires(()),
            forall|answer: Result<bool, Error>|
                #[trigger] running.ensures((), answer) ==> (answer matches Ok(false)
                    ==> listed_no_flow(processes)) && (answer matches Err(e) ==> listing_failed(
                    processes,
                    FLOW_BINARY@,
                    e,
                )),
            listed(processes, FLOW_BINARY@, Some(pid as nat)),
            exists|out: Output| #[trigger] ran(processes, "/usr/bin/osascript"@, quit_arguments(), out),
        decreases STOP_ROUNDS - round,
    {
        let now = (processes.clock)();
        let elapsed = now.saturating_sub(started);
        let step = stop_step(killed, elapsed, &running);
        let ghost stepped = step;
        match step {
            Err(e) => {
                proof {
                    let limit = if killed {
                        FLOW_STOP_TIMEOUT_MS
                    } else {
                        FLOW_GRACEFUL_STOP_MS
                    };
                    assert(elapsed < limit);
                    let answer = choose|answer: Result<bool, Error>|
                        #[trigger] running.ensures((), answer) && match answer {
                            Ok(b) => stepped == Ok::<StopStep, Error>(
                                spec_stop_step(killed, elapsed, b),
                            ),
                            Err(x) => stepped == Err::<StopStep, Error>(x),
                        };
                    assert(answer == Err::<bool, Error>(e));
                }
                return Err(e);
            },
            Ok(StopStep::Stopped) => {
                proof {
                    let limit = if killed {
                        FLOW_STOP_TIMEOUT_MS
                    } else {
                        FLOW_GRACEFUL_STOP_MS
                    };
                    assert(elapsed < limit);
                    let answer = choose|answer: Result<bool, Error>|
                        #[trigger] running.ensures((), answer) && match answer {
                            Ok(b) => Ok::<StopStep, Error>(StopStep::Stopped) == Ok::<
                                StopStep,
                                Error,
                            >(spec_stop_step(killed, elapsed, b)),
                            Err(e) => Ok::<StopStep, Error>(StopStep::Stopped) == Err::<
                                StopStep,
                                Error,
                            >(e),
                        };
                    assert(answer == Ok::<bool, Error>(false));
                }
                return Ok(true);
            },
            Ok(StopStep::GiveUp) => return Err(Error(NOT_STOPPED.to_owned())),
            Ok(StopStep::Wait) => (processes.sleep)(STOP_POLL_MS),
            Ok(StopStep::Kill) => {
                let _ = (processes.run)("/bin/kill".to_owned(), vec![pid_text(pid)]);
                killed = true;
            },
        }
        round = round + 1;
    }
    Err(Error(NOT_STOPPED.to_owned()))
}

/// The decimal text of a process number.
pub fn pid_text(pid: u32) -> (s: String)
    ensures
        s@ == decimal(pid as nat),
{
    string_of(&decimal_chars(pid as u64))
}

/// The `open` arguments that start Wispr Flow in the background.
pub open spec fn start_arguments() -> Seq<Seq<char>> {
    seq!["-j"@, "-a"@, "/Applications/Wispr Flow.app"@]
}

/// Starts Wispr Flow in the background.
pub fn start<Run: Fn(String, Vec<String>) -> Result<Output, Error>, Sleep: Fn(u64), Clock: Fn() -> u64>(
    processes: &Processes<Run, Sleep, Clock>,
) -> (r: Result<(), Error>)
    requires
        processes_ready(processes),
    ensures
        match r {
            Ok(_) => exists|out: Output|
                #[trigger] ran(processes, "/usr/bin/open"@, start_arguments(), out),
            Err(e) => run_failed(processes, "/usr/bin/open"@, start_arguments(), e),
        },
{
    let args = vec!["-j".to_owned(), "-a".to_owned(), "/Applications/Wispr Flow.app".to_owned()];
    assert(arg_views(args@) =~= start_arguments());
    match run_checked(processes, "/usr/bin/open", args) {
        Ok(out) => {
            assert(ran(processes, "/usr/bin/open"@, start_arguments(), out));
            Ok(())
        },
        Err(e) => Err(e),
    }
}

/// Setting the shortcut is read back from the configuration: the shortcuts
/// are the old ones with `59+63` mapped to the action, and the rest of the
/// configuration is as it was.
pub proof fn shortcut_is_read_back(config: JsonValue, action: Seq<char>)
    ensures
        spec_set_shortcut(config, action) matches Ok(updated) ==> {
            let prefs = member(config, "prefs"@)->0;
            let user = member(prefs, "user"@)->0;
            let shortcuts = member(user, "shortcuts"@)->0;
            &&& member(member(member(updated, "prefs"@)->0, "user"@)->0, "shortcuts"@) == Some(
                JsonValue::Object(members(shortcuts).insert(FLOW_SHORTCUT@, JsonValue::Str(action))),
            )
            &&& members(updated).remove("prefs"@) == members(config).remove("prefs"@)
            &&& members(member(updated, "prefs"@)->0).remove("user"@) == members(prefs).remove(
                "user"@,
            )
        },
{
    if let Ok(updated) = spec_set_shortcut(config, action) {
        let prefs = member(config, "prefs"@)->0;
        let user = member(prefs, "user"@)->0;
        assert(members(updated).remove("prefs"@) =~= members(config).remove("prefs"@));
        let new_prefs = member(updated, "prefs"@)->0;
        assert(members(new_prefs).remove("user"@) =~= members(prefs).remove("user"@));
    }
}

proof fn lemma_kept_paths(items: Seq<JsonValue>, root: Seq<char>)
    ensures
        forall|i: int| 0 <= i < kept_paths(items, root).len() ==> as_text(
            #[trigger] kept_paths(items, root)[i],
        ) != Some(root),
    decreases items.len(),
{
    if items.len() > 0 {
        lemma_kept_paths(items.drop_last(), root);
        let rest = kept_paths(items.drop_last(), root);
        assert forall|i: int| 0 <= i < kept_paths(items, root).len() implies as_text(
            #[trigger] kept_paths(items, root)[i],
        ) != Some(root) by {
            if i < rest.len() {
                assert(kept_paths(items, root)[i] == rest[i]);
            }
        }
    }
}

/// No custom path left after the removal is the removed one.
pub proof fn removed_path_is_gone(paths: JsonValue, root: Seq<char>)
    ensures
        spec_without_path(paths, root) matches Ok(JsonValue::Array(items)) ==> forall|i: int|
            0 <= i < items.len() ==> as_text(#[trigger] items[i]) != Some(root),
{
    if let JsonValue::Array(items) = paths {
        lemma_kept_paths(items, root);
    }
}

/// The extension state after the removal has no entry for the old extension.
pub proof fn old_extension_is_gone(state: JsonValue)
    ensures
        spec_without_extension(state) matches Ok(JsonValue::Object(m)) ==> !m.dom().contains(
            OLD_EXTENSION@,
        ),
{
}

proof fn lemma_kept_all(items: Seq<JsonValue>, root: Seq<char>)
    requires
        forall|i: int| 0 <= i < items.len() ==> as_text(#[trigger] items[i]) != Some(root),
    ensures
        kept_paths(items, root) == items,
    decreases items.len(),
{
    if items.len() > 0 {
        let rest = items.drop_last();
        assert forall|i: int| 0 <= i < rest.len() implies as_text(#[trigger] rest[i]) != Some(root) by {
            assert(rest[i] == items[i]);
        }
        lemma_kept_all(rest, root);
        assert(as_text(items[items.len() - 1]) != Some(root));
        assert(rest.push(items.last()) =~= items);
    }
}

/// Uninstalling twice is uninstalling once: each change made to Wispr Flow's
/// documents leaves a document that the same change takes as it is (the
/// shortcut set again, the old extension's path and entry removed again),
/// and removing what is already gone is no error.
pub proof fn changes_are_made_once(
    config: JsonValue,
    action: Seq<char>,
    custom_paths: JsonValue,
    root: Seq<char>,
    state: JsonValue,
)
    ensures
        spec_set_shortcut(config, action) matches Ok(updated) ==> spec_set_shortcut(
            updated,
            action,
        ) == Ok::<JsonValue, Seq<char>>(updated),
        spec_without_path(custom_paths, root) matches Ok(kept) ==> spec_without_path(kept, root)
            == Ok::<JsonValue, Seq<char>>(kept),
        spec_without_extension(state) matches Ok(left) ==> spec_without_extension(left) == Ok::<
            JsonValue,
            Seq<char>,
        >(left),
{
    if let Ok(updated) = spec_set_shortcut(config, action) {
        let prefs = member(config, "prefs"@)->0;
        let user = member(prefs, "user"@)->0;
        let shortcuts = members(member(user, "shortcuts"@)->0);
        let new_shortcuts = shortcuts.insert(FLOW_SHORTCUT@, JsonValue::Str(action));
        let new_user = members(user).insert("shortcuts"@, JsonValue::Object(new_shortcuts));
        let new_prefs = members(prefs).insert("user"@, JsonValue::Object(new_user));
        let root_members = members(config).insert("prefs"@, JsonValue::Object(new_prefs));
        assert(updated == JsonValue::Object(root_members));
        assert(member(updated, "prefs"@) == Some(JsonValue::Object(new_prefs)));
        assert(member(JsonValue::Object(new_prefs), "user"@) == Some(JsonValue::Object(new_user)));
        assert(member(JsonValue::Object(new_user), "shortcuts"@) == Some(
            JsonValue::Object(new_shortcuts),
        ));
        assert(new_shortcuts.insert(FLOW_SHORTCUT@, JsonValue::Str(action)) =~= new_shortcuts);
        assert(new_user.insert("shortcuts"@, JsonValue::Object(new_shortcuts)) =~= new_user);
        assert(new_prefs.insert("user"@, JsonValue::Object(new_user)) =~= new_prefs);
        assert(root_members.insert("prefs"@, JsonValue::Object(new_prefs)) =~= root_members);
    }
    if let JsonValue::Array(items) = custom_paths {
        lemma_kept_paths(items, root);
        lemma_kept_all(kept_paths(items, root), root);
    }
    if let JsonValue::Object(m) = state {
        assert(m.remove(OLD_EXTENSION@).remove(OLD_EXTENSION@) =~= m.remove(OLD_EXTENSION@));
    }
}

} // verus!
