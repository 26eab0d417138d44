//! The app bundle and launch agent of `fx-agent` on macOS: the property
//! lists written at install, finding the running agent in the process list,
//! and restarting Wispr Flow around an install.
use crate::error::Error;
use crate::json::JsonValue;
use crate::platform::host::{
    answered, arg_views, files_ready, processes_ready, run_checked, run_failed, Contents, Files,
    Output, Processes,
};
use crate::platform::wispr::{
    flow_root, old_extension_failed, remove_failed, removed, removed_old_extension, rewrite_failed,
    rewrote, spec_set_shortcut, start_arguments, stop_failed, FLOW_COMMAND_MODE, FLOW_PTT,
};
use crate::service::{
    append, escape, join_path, path_join, search_path, search_path_of, service_domain, spec_escape,
    spec_service_domain, CLOSE, ERR_LOG,
    LABEL, PATH_KEY,
};
use crate::text::{
    chars_of, find_space, find_whitespace, int_error_message, parse_number, parse_u32, same,
    slice, split_char, split_on, string_of, trim, trimmed, IntError,
};
use vstd::prelude::*;

verus! {

/// The name of the app bundle.
pub const APP_NAME: &'static str = "fx-agent.app";

/// The executable inside the bundle, relative to it.
pub const APP_EXECUTABLE: &'static str = "Contents/MacOS/fx-agent";

/// `Info.plist` up to the bundle identifier.
pub const INFO_OPEN: &'static str = "<?xml version=\"1.0\" encoding=\"UTF-8\"?>\n<!DOCTYPE plist PUBLIC \"-//Apple//DTD PLIST 1.0//EN\" \"http://www.apple.com/DTDs/PropertyList-1.0.dtd\">\n<plist version=\"1.0\">\n<dict>\n  <key>CFBundleExecutable</key>\n  <string>fx-agent</string>\n  <key>CFBundleIdentifier</key>\n  <string>";
/// `Info.plist` from the bundle identifier to the value of `HOME`.
pub const INFO_ENV: &'static str = "</string>\n  <key>CFBundleInfoDictionaryVersion</key>\n  <string>6.0</string>\n  <key>CFBundleName</key>\n  <string>fx-agent</string>\n  <key>CFBundlePackageType</key>\n  <string>APPL</string>\n  <key>CFBundleShortVersionString</key>\n  <string>0.1.0</string>\n  <key>LSUIElement</key>\n  <true/>\n  <key>LSEnvironment</key>\n  <dict>\n    <key>HOME</key>\n    <string>";
/// `Info.plist` after the value of `PATH`.
pub const INFO_CLOSE: &'static str = "</string>\n  </dict>\n</dict>\n</plist>\n";
/// The launch agent up to its label.
pub const AGENT_OPEN: &'static str = "<?xml version=\"1.0\" encoding=\"UTF-8\"?>\n<!DOCTYPE plist PUBLIC \"-//Apple//DTD PLIST 1.0//EN\" \"http://www.apple.com/DTDs/PropertyList-1.0.dtd\">\n<plist version=\"1.0\">\n<dict>\n  <key>Label</key>\n  <string>";
/// The launch agent from its label to the app that `open` starts.
pub const AGENT_ARGS: &'static str = "</string>\n  <key>ProgramArguments</key>\n  <array>\n    <string>/usr/bin/open</string>\n    <string>-g</string>\n    <string>-j</string>\n    <string>";
/// The launch agent from the app to the path of its output log.
pub const AGENT_LOG: &'static str = "</string>\n  </array>\n  <key>RunAtLoad</key>\n  <true/>\n  <key>LimitLoadToSessionType</key>\n  <string>Aqua</string>\n  <key>StandardOutPath</key>\n  <string>";

/// The `Info.plist` of the app bundle: a background app (`LSUIElement`)
/// with the agent's label as identifier and `HOME` and `PATH` in its
/// environment.
pub open spec fn spec_info_contents(home: Seq<char>) -> Seq<char> {
    INFO_OPEN@ + LABEL@ + INFO_ENV@ + spec_escape(home) + PATH_KEY@ + spec_escape(search_path(home))
        + INFO_CLOSE@
}

/// The `Info.plist` of the app bundle.
pub fn info_contents(home: &str) -> (s: String)
    ensures
        s@ == spec_info_contents(home@),
{
    let path = escape(search_path_of(home).as_str());
    let mut text = chars_of(INFO_OPEN);
    text = append(&text, LABEL);
    text = append(&text, INFO_ENV);
    text = append(&text, escape(home).as_str());
    text = append(&text, PATH_KEY);
    text = append(&text, path.as_str());
    text = append(&text, INFO_CLOSE);
    string_of(&text)
}

/// The launch agent: opens the app once at login, in the background
/// (`open -g -j`, without waiting), logging to `agent.log` in `state`.
pub open spec fn spec_plist_contents(app: Seq<char>, state: Seq<char>) -> Seq<char> {
    let log = spec_escape(path_join(state, "agent.log"@));
    AGENT_OPEN@ + LABEL@ + AGENT_ARGS@ + spec_escape(app) + AGENT_LOG@ + log + ERR_LOG@ + log
        + CLOSE@
}

/// The property list of the launch agent.
pub fn plist_contents(app: &str, state: &str) -> (s: String)
    ensures
        s@ == spec_plist_contents(app@, state@),
{
    let log = escape(join_path(state, "agent.log").as_str());
    let mut text = chars_of(AGENT_OPEN);
    text = append(&text, LABEL);
    text = append(&text, AGENT_ARGS);
    text = append(&text, escape(app).as_str());
    text = append(&text, AGENT_LOG);
    text = append(&text, log.as_str());
    text = append(&text, ERR_LOG);
    text = append(&text, log.as_str());
    text = append(&text, CLOSE);
    string_of(&text)
}

/// The process number on the first line of a `ps -axo pid=,command=`
/// listing, from `lines[0]` on, whose command is `binary`: each line is
/// trimmed and cut at its first white space into number and command.
pub open spec fn find_process(lines: Seq<Seq<char>>, binary: Seq<char>) -> Result<
    Option<nat>,
    Seq<char>,
>
    decreases lines.len(),
{
    if lines.len() == 0 {
        Ok(None)
    } else {
        let line = trim(lines[0]);
        match find_space(line) {
            Some(k) if trim(line.skip(k + 1)) == binary => match parse_u32(line.take(k)) {
                Ok(pid) => Ok(Some(pid)),
                Err(e) => Err(int_error_message(e)),
            },
            _ => find_process(lines.drop_first(), binary),
        }
    }
}

/// The process that runs `binary`, in a `ps -axo pid=,command=` listing.
pub open spec fn spec_process_id(listing: Seq<char>, binary: Seq<char>) -> Result<
    Option<nat>,
    Seq<char>,
> {
    find_process(split_on(listing, '\n'), binary)
}

/// The number of the process that runs `binary`, read from a
/// `ps -axo pid=,command=` listing.
pub fn process_id(listing: &str, binary: &str) -> (r: Result<Option<u32>, Error>)
    ensures
        match spec_process_id(listing@, binary@) {
            Ok(None) => r matches Ok(None),
            Ok(Some(pid)) => r matches Ok(Some(p)) && p == pid,
            Err(e) => r matches Err(err) && err.0@ == e,
        },
{
    let lines = split_char(&chars_of(listing), '\n');
    let ghost all = lines@.map_values(|p: Vec<char>| p@);
    let b = chars_of(binary);
    let mut i: usize = 0;
    assert(all.skip(0) == all);
    while i < lines.len()
        invariant
            i <= lines.len(),
            all == lines@.map_values(|p: Vec<char>| p@),
            all == split_on(listing@, '\n'),
            b@ == binary@,
            find_process(all, binary@) == find_process(all.skip(i as int), binary@),
        decreases lines.len() - i,
    {
        assert(all.skip(i as int)[0] == lines@[i as int]@);
        assert(all.skip(i as int).drop_first() == all.skip(i + 1));
        let line = trimmed(&lines[i]);
        if let Some(k) = find_whitespace(&line) {
            let command = trimmed(&slice(&line, k + 1, line.len()));
            assert(command@ == trim(line@.skip(k + 1)));
            if same(&command, &b) {
                let pid = slice(&line, 0, k);
                assert(pid@ == line@.take(k as int));
                return match parse_number(&pid) {
                    Ok(p) => Ok(Some(p)),
                    Err(IntError::Empty) => Err(Error("cannot parse integer from empty string".to_owned())),
                    Err(IntError::InvalidDigit) => Err(Error("invalid digit found in string".to_owned())),
                    Err(IntError::Overflow) => Err(Error("number too large to fit in target type".to_owned())),
                };
            }
        }
        i = i + 1;
    }
    Ok(None)
}

/// The executable of the installed app under a home directory.
pub open spec fn installed_binary(home: Seq<char>) -> Seq<char> {
    path_join(home, "Applications/"@ + APP_NAME@ + "/"@ + APP_EXECUTABLE@)
}

/// Whether the installed agent runs, judged from a `ps` listing.
pub fn is_running(home: &str, listing: &str) -> (r: Result<bool, Error>)
    ensures
        match spec_process_id(listing@, installed_binary(home@)) {
            Ok(found) => r matches Ok(b) && b == found is Some,
            Err(e) => r matches Err(err) && err.0@ == e,
        },
{
    let relative = string_of(
        &crate::service::append(
            &crate::service::append(
                &crate::service::append(&chars_of("Applications/"), APP_NAME),
                "/",
            ),
            APP_EXECUTABLE,
        ),
    );
    let binary = join_path(home, relative.as_str());
    match process_id(listing, binary.as_str()) {
        Ok(found) => Ok(found.is_some()),
        Err(e) => Err(e),
    }
}

/// A step of running an operation with Wispr Flow stopped.
#[derive(Clone, Copy, Debug, PartialEq, Eq, Structural)]
pub enum Step {
    Stop,
    Operation,
    Start,
}

/// The steps taken after stopping answered `stopped`: nothing more where it
/// failed; else the operation once, and then the restart where Wispr Flow
/// had been running, even where the operation failed.
pub open spec fn wispr_steps(stopped: Result<bool, Error>) -> Seq<Step> {
    match stopped {
        Err(_) => seq![Step::Stop],
        Ok(true) => seq![Step::Stop, Step::Operation, Step::Start],
        Ok(false) => seq![Step::Stop, Step::Operation],
    }
}

/// Runs `operation` with Wispr Flow stopped: `stop` stops it and tells
/// whether it was running, and then `start` brings it back. The error of
/// stopping comes first, then that of the operation, then that of the
/// restart. `steps` gets each step as it is taken.
pub fn with_wispr_stopped<
    S: Fn() -> Result<bool, Error>,
    O: Fn() -> Result<(), Error>,
    T: Fn() -> Result<(), Error>,
>(stop: &S, operation: &O, start: &T, steps: &mut Vec<Step>) -> (r: Result<(), Error>)
    requires
        stop.requires(()),
        operation.requires(()),
        start.requires(()),
    ensures
        r is Ok ==> exists|restart: bool, done: Result<(), Error>|
            #![trigger stop.ensures((), Ok::<bool, Error>(restart)), operation.ensures((), done)]
            stop.ensures((), Ok::<bool, Error>(restart)) && operation.ensures((), done) && done is Ok
                && (restart ==> exists|started: Result<(), Error>|
                #[trigger] start.ensures((), started) && started is Ok),
        exists|stopped: Result<bool, Error>|
            #[trigger] stop.ensures((), stopped) && final(steps)@ == old(steps)@ + wispr_steps(
                stopped,
            ) && match stopped {
                Err(e) => r == Err::<(), Error>(e),
                Ok(restart) => exists|done: Result<(), Error>|
                    #[trigger] operation.ensures((), done) && if restart {
                        exists|started: Result<(), Error>|
                            #[trigger] start.ensures((), started) && r == match done {
                                Err(e) => Err::<(), Error>(e),
                                Ok(()) => started,
                            }
                    } else {
                        r == done
                    },
            },
{
    let ghost before = steps@;
    steps.push(Step::Stop);
    let stopped = stop();
    let restart = match stopped {
        Ok(restart) => restart,
        Err(e) => {
            assert(steps@ =~= before + wispr_steps(Err::<bool, Error>(e)));
            return Err(e);
        },
    };
    assert(stop.ensures((), Ok::<bool, Error>(restart)));
    steps.push(Step::Operation);
    let result = operation();
    let ghost operated = result;
    assert(operation.ensures((), operated));
    let restarted: Option<Result<(), Error>> = if restart {
        steps.push(Step::Start);
        let started = start();
        Some(started)
    } else {
        None
    };
    assert(steps@ =~= before + wispr_steps(Ok::<bool, Error>(restart)));
    let ghost restarted_g = restarted;
    if result.is_err() {
        return result;
    }
    assert(operated is Ok);
    assert(operated == Ok::<(), Error>(())) by {
        assert(operated->Ok_0 == ());
    }
    if let Some(started) = restarted {
        if started.is_err() {
            return started;
        }
        assert(started->Ok_0 == ());
    }
    assert(restart ==> restarted_g matches Some(Ok(_)));
    Ok(())
}

/// The code signing requirement of the app: its identifier is the label.
pub const DESIGNATED_REQUIREMENT: &'static str = "=designated => identifier \"com.dineshteja.fx-agent\"";

/// Where the agent is installed under a home directory.
pub struct Layout {
    /// The launch agents directory.
    pub agents: String,
    /// The agent's state directory (its log).
    pub state: String,
    /// The app bundle.
    pub app: String,
    /// The directory of the executable.
    pub executable_dir: String,
    /// The executable inside the bundle.
    pub app_binary: String,
    /// The bundle's `Info.plist`.
    pub info_plist: String,
    /// The launch agent's property list.
    pub plist: String,
}

/// The app bundle under a home directory.
pub open spec fn app_path(home: Seq<char>) -> Seq<char> {
    path_join(path_join(home, "Applications"@), APP_NAME@)
}

/// Where the agent is installed under `home`.
pub fn layout(home: &str) -> (l: Layout)
    ensures
        l.agents@ == path_join(home@, "Library/LaunchAgents"@),
        l.state@ == path_join(home@, "Library/Application Support/fx-line"@),
        l.app@ == app_path(home@),
        l.executable_dir@ == path_join(app_path(home@), "Contents/MacOS"@),
        l.app_binary@ == path_join(app_path(home@), APP_EXECUTABLE@),
        l.info_plist@ == path_join(app_path(home@), "Contents/Info.plist"@),
        l.plist@ == path_join(path_join(home@, "Library/LaunchAgents"@), LABEL@ + ".plist"@),
{
    let agents = join_path(home, "Library/LaunchAgents");
    let app = join_path(join_path(home, "Applications").as_str(), APP_NAME);
    let plist_name = string_of(&append(&chars_of(LABEL), ".plist"));
    Layout {
        plist: join_path(agents.as_str(), plist_name.as_str()),
        agents,
        state: join_path(home, "Library/Application Support/fx-line"),
        executable_dir: join_path(app.as_str(), "Contents/MacOS"),
        app_binary: join_path(app.as_str(), APP_EXECUTABLE),
        info_plist: join_path(app.as_str(), "Contents/Info.plist"),
        app,
    }
}

/// The launchd domain of the user whose `id -u` printed `uid_output`.
pub fn gui_domain(uid_output: &str) -> (s: String)
    ensures
        s@ == "gui/"@ + trim(uid_output@),
{
    string_of(&crate::text::concat(&chars_of("gui/"), &trimmed(&chars_of(uid_output))))
}

/// The launchd target of the agent in a domain.
pub fn service_target(domain: &str) -> (s: String)
    ensures
        s@ == domain@ + "/"@ + LABEL@,
{
    string_of(&append(&append(&chars_of(domain), "/"), LABEL))
}

/// The `codesign` arguments that sign the app ad hoc with its requirement.
pub open spec fn spec_codesign_arguments(app: Seq<char>) -> Seq<Seq<char>> {
    seq![
        "--force"@,
        "--sign"@,
        "-"@,
        "--timestamp=none"@,
        "--requirements"@,
        DESIGNATED_REQUIREMENT@,
        app,
    ]
}

/// The `codesign` arguments that sign the app ad hoc with its requirement.
pub fn codesign_arguments(app: &str) -> (args: Vec<String>)
    ensures
        arg_views(args@) == spec_codesign_arguments(app@),
{
    let args = vec![
        "--force".to_owned(),
        "--sign".to_owned(),
        "-".to_owned(),
        "--timestamp=none".to_owned(),
        "--requirements".to_owned(),
        DESIGNATED_REQUIREMENT.to_owned(),
        app.to_owned(),
    ];
    assert(arg_views(args@) =~= seq![
        "--force"@,
        "--sign"@,
        "-"@,
        "--timestamp=none"@,
        "--requirements"@,
        DESIGNATED_REQUIREMENT@,
        app@,
    ]);
    args
}

/// The `launchctl` arguments that load the launch agent into the domain of
/// its target.
pub open spec fn spec_bootstrap_arguments(service: Seq<char>, plist: Seq<char>) -> Seq<Seq<char>> {
    seq!["bootstrap"@, spec_service_domain(service), plist]
}

/// The `launchctl` arguments that load the launch agent.
pub fn bootstrap_arguments(service: &str, plist: &str) -> (args: Vec<String>)
    ensures
        arg_views(args@) == spec_bootstrap_arguments(service@, plist@),
{
    let args = vec!["bootstrap".to_owned(), service_domain(service), plist.to_owned()];
    assert(arg_views(args@) =~= seq!["bootstrap"@, spec_service_domain(service@), plist@]);
    args
}

/// The `launchctl` arguments that restart the agent at once.
pub open spec fn spec_kickstart_arguments(service: Seq<char>) -> Seq<Seq<char>> {
    seq!["kickstart"@, "-k"@, service]
}

/// The `launchctl` arguments that (re)start the agent now.
pub fn kickstart_arguments(service: &str) -> (args: Vec<String>)
    ensures
        arg_views(args@) == spec_kickstart_arguments(service@),
{
    let args = vec!["kickstart".to_owned(), "-k".to_owned(), service.to_owned()];
    assert(arg_views(args@) =~= seq!["kickstart"@, "-k"@, service@]);
    args
}

/// The `launchctl` arguments that unload the agent.
pub fn bootout_arguments(service: &str) -> (args: Vec<String>)
    ensures
        arg_views(args@) == seq!["bootout"@, service@],
{
    let args = vec!["bootout".to_owned(), service.to_owned()];
    assert(arg_views(args@) =~= seq!["bootout"@, service@]);
    args
}

/// The error where `HOME` is not set.
pub const HOME_UNAVAILABLE: &'static str = "HOME is unavailable";

/// The error where the agent did not start after an install.
pub const NOT_STARTED: &'static str = "fx-agent did not start";

/// The error where the agent of an earlier install did not stop.
pub const NOT_STOPPED: &'static str = "the previous fx-agent did not stop";

/// How long the agent is given to start, in milliseconds.
pub const START_TIMEOUT_MS: u64 = 5000;

/// How long a look for the started agent is followed by a sleep.
pub const START_POLL_MS: u64 = 100;

/// The most looks for the started agent: each one sleeps `START_POLL_MS`,
/// so the time allowed runs out well within them.
pub const START_ROUNDS: u64 = 64;

/// How many times the agent is looked for after it was killed.
pub const STOP_TRIES: u64 = 20;

/// How long each of those looks is followed by a sleep.
pub const STOP_POLL_MS: u64 = 50;

/// A text file was put at `path` with `text` in it.
pub open spec fn placed_text<
    Read: Fn(String) -> Result<Option<Vec<u8>>, Error>,
    Exists: Fn(String) -> bool,
    Place: Fn(String, Contents) -> Result<(), Error>,
    Remove: Fn(String, bool) -> Result<(), Error>,
>(files: &Files<Read, Exists, Place, Remove>, path: Seq<char>, text: Seq<char>) -> bool {
    exists|p: String, t: String, placed: Result<(), Error>|
        #[trigger] files.place.ensures((p, Contents::Text(t)), placed) && placed is Ok && p@ == path
            && t@ == text
}

/// The `ps` arguments that list every process with its command line.
pub open spec fn listing_arguments() -> Seq<Seq<char>> {
    seq!["-axo"@, "pid=,command="@]
}

/// The `id` arguments that print the user's number.
pub open spec fn uid_arguments() -> Seq<Seq<char>> {
    seq!["-u"@]
}

/// `program` ran with `args` and succeeded, reporting `out`.
pub open spec fn ran<
    Run: Fn(String, Vec<String>) -> Result<Output, Error>,
    Sleep: Fn(u64),
    Clock: Fn() -> u64,
>(
    processes: &Processes<Run, Sleep, Clock>,
    program: Seq<char>,
    args: Seq<Seq<char>>,
    out: Output,
) -> bool {
    answered(processes, program, args, Ok::<Output, Error>(out)) && out.success
}

/// Looking for the process that runs `binary` failed with `error`: `ps`
/// failed with it, or its listing could not be read.
pub open spec fn listing_failed<
    Run: Fn(String, Vec<String>) -> Result<Output, Error>,
    Sleep: Fn(u64),
    Clock: Fn() -> u64,
>(processes: &Processes<Run, Sleep, Clock>, binary: Seq<char>, error: Error) -> bool {
    ||| run_failed(processes, "/bin/ps"@, listing_arguments(), error)
    ||| exists|out: Output|
        #[trigger] ran(processes, "/bin/ps"@, listing_arguments(), out) && spec_process_id(
            out.stdout@,
            binary,
        ) == Err::<Option<nat>, Seq<char>>(error.0@)
}

/// A `ps -axo pid=,command=` listing found `found` as the process that runs
/// `binary`.
pub open spec fn listed<
    Run: Fn(String, Vec<String>) -> Result<Output, Error>,
    Sleep: Fn(u64),
    Clock: Fn() -> u64,
>(processes: &Processes<Run, Sleep, Clock>, binary: Seq<char>, found: Option<nat>) -> bool {
    exists|out: Output|
        #[trigger] ran(processes, "/bin/ps"@, listing_arguments(), out)
            && spec_process_id(out.stdout@, binary) == Ok::<Option<nat>, Seq<char>>(found)
}

/// The launchd target of the agent for the user that `id -u` reported.
pub open spec fn user_service<
    Run: Fn(String, Vec<String>) -> Result<Output, Error>,
    Sleep: Fn(u64),
    Clock: Fn() -> u64,
>(processes: &Processes<Run, Sleep, Clock>, service: Seq<char>) -> bool {
    exists|out: Output|
        #[trigger] ran(processes, "/usr/bin/id"@, uid_arguments(), out) && service == "gui/"@ + trim(
            out.stdout@,
        ) + "/"@ + LABEL@
}

/// What an install under `home` ran, besides what it wrote: the app signed,
/// the launch agent loaded and started for the user, and the agent then
/// found running.
pub open spec fn started<
    Run: Fn(String, Vec<String>) -> Result<Output, Error>,
    Sleep: Fn(u64),
    Clock: Fn() -> u64,
>(processes: &Processes<Run, Sleep, Clock>, home: Seq<char>) -> bool {
    &&& exists|out: Output| #[trigger]
        ran(processes, "/usr/bin/codesign"@, spec_codesign_arguments(app_path(home)), out)
    &&& exists|service: Seq<char>|
        #[trigger] user_service(processes, service) && (exists|out: Output|
            #[trigger] ran(
                processes,
                "/bin/launchctl"@,
                spec_bootstrap_arguments(
                    service,
                    path_join(path_join(home, "Library/LaunchAgents"@), LABEL@ + ".plist"@),
                ),
                out,
            )) && (exists|out: Output|
            #[trigger] ran(processes, "/bin/launchctl"@, spec_kickstart_arguments(service), out))
    &&& exists|pid: nat|
        #[trigger] listed(processes, path_join(app_path(home), APP_EXECUTABLE@), Some(pid))
}

/// A directory was made at `path`.
pub open spec fn placed_directory<
    Read: Fn(String) -> Result<Option<Vec<u8>>, Error>,
    Exists: Fn(String) -> bool,
    Place: Fn(String, Contents) -> Result<(), Error>,
    Remove: Fn(String, bool) -> Result<(), Error>,
>(files: &Files<Read, Exists, Place, Remove>, path: Seq<char>) -> bool {
    exists|p: String, placed: Result<(), Error>|
        #[trigger] files.place.ensures((p, Contents::Directory), placed) && placed is Ok && p@ == path
}

/// A copy of the file at `source` was put at `path`.
pub open spec fn placed_copy<
    Read: Fn(String) -> Result<Option<Vec<u8>>, Error>,
    Exists: Fn(String) -> bool,
    Place: Fn(String, Contents) -> Result<(), Error>,
    Remove: Fn(String, bool) -> Result<(), Error>,
>(files: &Files<Read, Exists, Place, Remove>, path: Seq<char>, source: Seq<char>) -> bool {
    exists|p: String, b: String, placed: Result<(), Error>|
        #[trigger] files.place.ensures((p, Contents::CopyOf(b)), placed) && placed is Ok && p@ == path
            && b@ == source
}

/// What an install under `home` of the executable `binary` has written: the
/// launch agents, state and executable directories; Wispr Flow's shortcut
/// set to push-to-talk, with the extension of earlier versions removed; the
/// executable copied into the app; the app's `Info.plist` and the launch
/// agent.
pub open spec fn installed<
    Read: Fn(String) -> Result<Option<Vec<u8>>, Error>,
    Exists: Fn(String) -> bool,
    Place: Fn(String, Contents) -> Result<(), Error>,
    Remove: Fn(String, bool) -> Result<(), Error>,
>(files: &Files<Read, Exists, Place, Remove>, home: Seq<char>, binary: Seq<char>) -> bool {
    &&& placed_directory(files, path_join(home, "Library/LaunchAgents"@))
    &&& placed_directory(files, path_join(home, "Library/Application Support/fx-line"@))
    &&& placed_directory(files, path_join(app_path(home), "Contents/MacOS"@))
    &&& removed_old_extension(files, home)
    &&& placed_copy(files, path_join(app_path(home), APP_EXECUTABLE@), binary)
    &&& rewrote(
        files,
        path_join(flow_root(home), "config.json"@),
        JsonValue::Null,
        |v: JsonValue| spec_set_shortcut(v, FLOW_PTT@),
    )
    &&& placed_text(
        files,
        path_join(app_path(home), "Contents/Info.plist"@),
        spec_info_contents(home),
    )
    &&& placed_text(
        files,
        path_join(path_join(home, "Library/LaunchAgents"@), LABEL@ + ".plist"@),
        spec_plist_contents(app_path(home), path_join(home, "Library/Application Support/fx-line"@)),
    )
}

/// The launchd domain of the user, from `id -u`.
fn domain<Run: Fn(String, Vec<String>) -> Result<Output, Error>, Sleep: Fn(u64), Clock: Fn() -> u64>(
    processes: &Processes<Run, Sleep, Clock>,
) -> (r: Result<String, Error>)
    requires
        processes_ready(processes),
    ensures
        match r {
            Ok(d) => exists|out: Output|
                #[trigger] ran(processes, "/usr/bin/id"@, uid_arguments(), out) && d@ == "gui/"@
                    + trim(out.stdout@),
            Err(e) => run_failed(processes, "/usr/bin/id"@, uid_arguments(), e),
        },
{
    let args = vec!["-u".to_owned()];
    assert(arg_views(args@) =~= uid_arguments());
    match run_checked(processes, "/usr/bin/id", args) {
        Ok(out) => {
            assert(ran(processes, "/usr/bin/id"@, uid_arguments(), out));
            Ok(gui_domain(out.stdout.as_str()))
        },
        Err(e) => Err(e),
    }
}

/// The number of the process that runs `binary`, from `ps`.
fn agent_pid<Run: Fn(String, Vec<String>) -> Result<Output, Error>, Sleep: Fn(u64), Clock: Fn() -> u64>(
    processes: &Processes<Run, Sleep, Clock>,
    binary: &str,
) -> (r: Result<Option<u32>, Error>)
    requires
        processes_ready(processes),
    ensures
        match r {
            Ok(found) => listed(
                processes,
                binary@,
                match found {
                    Some(pid) => Some(pid as nat),
                    None => None,
                },
            ),
            Err(e) => listing_failed(processes, binary@, e),
        },
{
    let args = vec!["-axo".to_owned(), "pid=,command=".to_owned()];
    assert(arg_views(args@) =~= listing_arguments());
    match run_checked(processes, "/bin/ps", args) {
        Ok(out) => {
            assert(ran(processes, "/bin/ps"@, listing_arguments(), out));
            process_id(out.stdout.as_str(), binary)
        },
        Err(e) => Err(e),
    }
}

/// Stops the agent that runs `binary`, if one does: it is killed and then
/// looked for again a few times.
fn stop<Run: Fn(String, Vec<String>) -> Result<Output, Error>, Sleep: Fn(u64), Clock: Fn() -> u64>(
    processes: &Processes<Run, Sleep, Clock>,
    binary: &str,
) -> (r: Result<(), Error>)
    requires
        processes_ready(processes),
    ensures
        match r {
            Ok(_) => listed(processes, binary@, None),
            Err(e) => listing_failed(processes, binary@, e) || (e.0@ == NOT_STOPPED@ && exists|
                pid: nat,
            | #[trigger] listed(processes, binary@, Some(pid))),
        },
{
    let pid = match agent_pid(processes, binary) {
        Ok(Some(pid)) => pid,
        Ok(None) => return Ok(()),
        Err(e) => return Err(e),
    };
    assert(listed(processes, binary@, Some(pid as nat)));
    let _ = (processes.run)("/bin/kill".to_owned(), vec![crate::platform::wispr::pid_text(pid)]);
    let mut tries: u64 = 0;
    while tries < STOP_TRIES
        invariant
            processes_ready(processes),
            listed(processes, binary@, Some(pid as nat)),
        decreases STOP_TRIES - tries,
    {
        match agent_pid(processes, binary) {
            Ok(None) => return Ok(()),
            Ok(Some(_)) => {},
            Err(e) => return Err(e),
        }
        (processes.sleep)(STOP_POLL_MS);
        tries = tries + 1;
    }
    Err(Error(NOT_STOPPED.to_owned()))
}

/// Puts a text file in place: what `place` answers for `text` at `path`.
fn place_text<
    Read: Fn(String) -> Result<Option<Vec<u8>>, Error>,
    Exists: Fn(String) -> bool,
    Place: Fn(String, Contents) -> Result<(), Error>,
    Remove: Fn(String, bool) -> Result<(), Error>,
>(files: &Files<Read, Exists, Place, Remove>, path: &String, text: String) -> (r: Result<(), Error>)
    requires
        files_ready(files),
    ensures
        exists|p: String, t: String|
            #[trigger] files.place.ensures((p, Contents::Text(t)), r) && p@ == path@ && t@ == text@,
        r is Ok ==> placed_text(files, path@, text@),
{
    let p = path.clone();
    let ghost asked = p;
    let ghost t = text;
    let placed = (files.place)(p, Contents::Text(text));
    assert(files.place.ensures((asked, Contents::Text(t)), placed));
    placed
}

/// Runs a program that must succeed (see `run_checked`).
fn run_step<Run: Fn(String, Vec<String>) -> Result<Output, Error>, Sleep: Fn(u64), Clock: Fn() -> u64>(
    processes: &Processes<Run, Sleep, Clock>,
    program: &str,
    args: Vec<String>,
) -> (r: Result<(), Error>)
    requires
        processes_ready(processes),
    ensures
        match r {
            Ok(_) => exists|out: Output| #[trigger] ran(processes, program@, arg_views(args@), out),
            Err(e) => run_failed(processes, program@, arg_views(args@), e),
        },
{
    let ghost sent = args;
    match run_checked(processes, program, args) {
        Ok(out) => {
            assert(ran(processes, program@, arg_views(sent@), out));
            Ok(())
        },
        Err(e) => Err(e),
    }
}

/// Makes a directory: what `place` answers for a directory at `path`.
fn place_directory<
    Read: Fn(String) -> Result<Option<Vec<u8>>, Error>,
    Exists: Fn(String) -> bool,
    Place: Fn(String, Contents) -> Result<(), Error>,
    Remove: Fn(String, bool) -> Result<(), Error>,
>(files: &Files<Read, Exists, Place, Remove>, path: &String) -> (r: Result<(), Error>)
    requires
        files_ready(files),
    ensures
        exists|p: String| #[trigger] files.place.ensures((p, Contents::Directory), r) && p@ == path@,
        r is Ok ==> placed_directory(files, path@),
{
    let p = path.clone();
    let ghost asked = p;
    let placed = (files.place)(p, Contents::Directory);
    assert(files.place.ensures((asked, Contents::Directory), placed));
    placed
}

/// `place` failed with `error` to put `contents` at `path`.
pub open spec fn place_failed<
    Read: Fn(String) -> Result<Option<Vec<u8>>, Error>,
    Exists: Fn(String) -> bool,
    Place: Fn(String, Contents) -> Result<(), Error>,
    Remove: Fn(String, bool) -> Result<(), Error>,
>(files: &Files<Read, Exists, Place, Remove>, path: Seq<char>, contents: Contents, error: Error) -> bool {
    exists|p: String| #[trigger] files.place.ensures((p, contents), Err::<(), Error>(error)) && p@ == path
}

/// `place` failed with `error` to put a text file holding `text` at `path`.
pub open spec fn place_text_failed<
    Read: Fn(String) -> Result<Option<Vec<u8>>, Error>,
    Exists: Fn(String) -> bool,
    Place: Fn(String, Contents) -> Result<(), Error>,
    Remove: Fn(String, bool) -> Result<(), Error>,
>(files: &Files<Read, Exists, Place, Remove>, path: Seq<char>, text: Seq<char>, error: Error) -> bool {
    exists|p: String, t: String|
        #[trigger] files.place.ensures((p, Contents::Text(t)), Err::<(), Error>(error)) && p@ == path
            && t@ == text
}

/// `place` failed with `error` to copy the file at `source` to `path`.
pub open spec fn copy_failed<
    Read: Fn(String) -> Result<Option<Vec<u8>>, Error>,
    Exists: Fn(String) -> bool,
    Place: Fn(String, Contents) -> Result<(), Error>,
    Remove: Fn(String, bool) -> Result<(), Error>,
>(files: &Files<Read, Exists, Place, Remove>, path: Seq<char>, source: Seq<char>, error: Error) -> bool {
    exists|p: String, b: String|
        #[trigger] files.place.ensures((p, Contents::CopyOf(b)), Err::<(), Error>(error)) && p@
            == path && b@ == source
}

/// Stopping the agent that runs `binary` failed with `error`: looking for
/// it failed with it, or it was found and did not stop.
pub open spec fn agent_stop_failed<
    Run: Fn(String, Vec<String>) -> Result<Output, Error>,
    Sleep: Fn(u64),
    Clock: Fn() -> u64,
>(processes: &Processes<Run, Sleep, Clock>, binary: Seq<char>, error: Error) -> bool {
    listing_failed(processes, binary, error) || (error.0@ == NOT_STOPPED@ && exists|pid: nat|
        #[trigger] listed(processes, binary, Some(pid)))
}

/// The app was signed and the launch agent loaded and started for the user
/// (see `started`).
pub open spec fn launched<
    Run: Fn(String, Vec<String>) -> Result<Output, Error>,
    Sleep: Fn(u64),
    Clock: Fn() -> u64,
>(processes: &Processes<Run, Sleep, Clock>, home: Seq<char>) -> bool {
    &&& exists|out: Output| #[trigger]
        ran(processes, "/usr/bin/codesign"@, spec_codesign_arguments(app_path(home)), out)
    &&& exists|service: Seq<char>|
        #[trigger] user_service(processes, service) && (exists|out: Output|
            #[trigger] ran(
                processes,
                "/bin/launchctl"@,
                spec_bootstrap_arguments(
                    service,
                    path_join(path_join(home, "Library/LaunchAgents"@), LABEL@ + ".plist"@),
                ),
                out,
            )) && (exists|out: Output|
            #[trigger] ran(processes, "/bin/launchctl"@, spec_kickstart_arguments(service), out))
}

/// An install under `home` of `binary` failed with `error` at one of its
/// steps: the user's number, a directory, Wispr Flow's settings, stopping
/// the agent of an earlier install, the copy of the executable, the
/// `Info.plist`, signing, the launch agent's file, loading or starting it,
/// or looking for the started agent; or everything was done and the agent
/// was not seen running, once the clock showed the time allowed had passed
/// or a look had found no agent (the looks are also capped by a count).
pub open spec fn install_failed<
    Read: Fn(String) -> Result<Option<Vec<u8>>, Error>,
    Exists: Fn(String) -> bool,
    Place: Fn(String, Contents) -> Result<(), Error>,
    Remove: Fn(String, bool) -> Result<(), Error>,
    Run: Fn(String, Vec<String>) -> Result<Output, Error>,
    Sleep: Fn(u64),
    Clock: Fn() -> u64,
>(
    files: &Files<Read, Exists, Place, Remove>,
    processes: &Processes<Run, Sleep, Clock>,
    home: Seq<char>,
    binary: Seq<char>,
    error: Error,
) -> bool {
    let agents = path_join(home, "Library/LaunchAgents"@);
    let plist = path_join(agents, LABEL@ + ".plist"@);
    let app_binary = path_join(app_path(home), APP_EXECUTABLE@);
    ||| run_failed(processes, "/usr/bin/id"@, uid_arguments(), error)
    ||| place_failed(files, agents, Contents::Directory, error)
    ||| place_failed(
        files,
        path_join(home, "Library/Application Support/fx-line"@),
        Contents::Directory,
        error,
    )
    ||| place_failed(files, path_join(app_path(home), "Contents/MacOS"@), Contents::Directory, error)
    ||| old_extension_failed(files, home, error)
    ||| rewrite_failed(
        files,
        path_join(flow_root(home), "config.json"@),
        JsonValue::Null,
        |v: JsonValue| spec_set_shortcut(v, FLOW_PTT@),
        error,
    )
    ||| agent_stop_failed(processes, app_binary, error)
    ||| copy_failed(files, app_binary, binary, error)
    ||| place_text_failed(
        files,
        path_join(app_path(home), "Contents/Info.plist"@),
        spec_info_contents(home),
        error,
    )
    ||| run_failed(processes, "/usr/bin/codesign"@, spec_codesign_arguments(app_path(home)), error)
    ||| place_text_failed(
        files,
        plist,
        spec_plist_contents(app_path(home), path_join(home, "Library/Application Support/fx-line"@)),
        error,
    )
    ||| exists|service: Seq<char>|
        #[trigger] user_service(processes, service) && (run_failed(
            processes,
            "/bin/launchctl"@,
            spec_bootstrap_arguments(service, plist),
            error,
        ) || run_failed(processes, "/bin/launchctl"@, spec_kickstart_arguments(service), error))
    ||| listing_failed(processes, app_binary, error)
    ||| error.0@ == NOT_STARTED@ && installed(files, home, binary) && launched(processes, home) && (
    waited(processes, START_TIMEOUT_MS as nat) || listed(processes, app_binary, None))
}

/// The clock read `ms` milliseconds or more later than an earlier reading.
pub open spec fn waited<
    Run: Fn(String, Vec<String>) -> Result<Output, Error>,
    Sleep: Fn(u64),
    Clock: Fn() -> u64,
>(processes: &Processes<Run, Sleep, Clock>, ms: nat) -> bool {
    exists|from: u64, to: u64|
        #![trigger processes.clock.ensures((), from), processes.clock.ensures((), to)]
        processes.clock.ensures((), from) && processes.clock.ensures((), to) && to >= from + ms
}

/// A removal under `home` failed with `error` at one of its steps: the
/// user's number, stopping the agent, Wispr Flow's settings, or removing
/// the launch agent's file or the app.
pub open spec fn uninstall_failed<
    Read: Fn(String) -> Result<Option<Vec<u8>>, Error>,
    Exists: Fn(String) -> bool,
    Place: Fn(String, Contents) -> Result<(), Error>,
    Remove: Fn(String, bool) -> Result<(), Error>,
    Run: Fn(String, Vec<String>) -> Result<Output, Error>,
    Sleep: Fn(u64),
    Clock: Fn() -> u64,
>(
    files: &Files<Read, Exists, Place, Remove>,
    processes: &Processes<Run, Sleep, Clock>,
    home: Seq<char>,
    error: Error,
) -> bool {
    ||| run_failed(processes, "/usr/bin/id"@, uid_arguments(), error)
    ||| agent_stop_failed(processes, path_join(app_path(home), APP_EXECUTABLE@), error)
    ||| old_extension_failed(files, home, error)
    ||| rewrite_failed(
        files,
        path_join(flow_root(home), "config.json"@),
        JsonValue::Null,
        |v: JsonValue| spec_set_shortcut(v, FLOW_COMMAND_MODE@),
        error,
    )
    ||| remove_failed(
        files,
        path_join(path_join(home, "Library/LaunchAgents"@), LABEL@ + ".plist"@),
        false,
        error,
    )
    ||| remove_failed(files, app_path(home), true, error)
}

/// Installs the agent while Wispr Flow is stopped: the app bundle with the
/// executable `binary`, signed; Wispr Flow's shortcut; and the launch agent,
/// loaded and started, after the agent of an earlier install has stopped.
fn install_stopped<
    Read: Fn(String) -> Result<Option<Vec<u8>>, Error>,
    Exists: Fn(String) -> bool,
    Place: Fn(String, Contents) -> Result<(), Error>,
    Remove: Fn(String, bool) -> Result<(), Error>,
    Run: Fn(String, Vec<String>) -> Result<Output, Error>,
    Sleep: Fn(u64),
    Clock: Fn() -> u64,
>(
    binary: &str,
    home: &Option<String>,
    files: &Files<Read, Exists, Place, Remove>,
    processes: &Processes<Run, Sleep, Clock>,
) -> (r: Result<(), Error>)
    requires
        files_ready(files),
        processes_ready(processes),
    ensures
        home is None ==> (r matches Err(e) && e.0@ == HOME_UNAVAILABLE@),
        r is Ok ==> (home matches Some(h) && installed(files, h@, binary@) && started(
            processes,
            h@,
        )),
        r matches Err(e) ==> (home is None && e.0@ == HOME_UNAVAILABLE@) || (home matches Some(h)
            && install_failed(files, processes, h@, binary@, e)),
{
    let dir = match home {
        Some(h) => h,
        None => return Err(Error(HOME_UNAVAILABLE.to_owned())),
    };
    let l = layout(dir.as_str());
    let domain = match domain(processes) {
        Ok(d) => d,
        Err(e) => return Err(e),
    };
    let service = service_target(domain.as_str());
    assert(user_service(processes, service@));
    if let Err(e) = place_directory(files, &l.agents) {
        return Err(e);
    }
    if let Err(e) = place_directory(files, &l.state) {
        return Err(e);
    }
    if let Err(e) = place_directory(files, &l.executable_dir) {
        return Err(e);
    }
    if let Err(e) = crate::platform::wispr::install(dir.as_str(), files, &mut Vec::new()) {
        return Err(e);
    }
    let _ = (processes.run)("/bin/launchctl".to_owned(), bootout_arguments(service.as_str()));
    if let Err(e) = stop(processes, l.app_binary.as_str()) {
        return Err(e);
    }
    let target = l.app_binary.clone();
    let source = binary.to_owned();
    let ghost copied_to = target;
    let ghost copied_from = source;
    let copied = (files.place)(target, Contents::CopyOf(source));
    let ghost copy_answer = copied;
    if let Err(e) = copied {
        assert(files.place.ensures((copied_to, Contents::CopyOf(copied_from)), Err::<(), Error>(e)));
        return Err(e);
    }
    assert(files.place.ensures((copied_to, Contents::CopyOf(copied_from)), copy_answer));
    if let Err(e) = place_text(files, &l.info_plist, info_contents(dir.as_str())) {
        return Err(e);
    }
    if let Err(e) = run_step(processes, "/usr/bin/codesign", codesign_arguments(l.app.as_str())) {
        return Err(e);
    }
    if let Err(e) = place_text(files, &l.plist, plist_contents(l.app.as_str(), l.state.as_str())) {
        return Err(e);
    }
    if let Err(e) = run_step(
        processes,
        "/bin/launchctl",
        bootstrap_arguments(service.as_str(), l.plist.as_str()),
    ) {
        return Err(e);
    }
    if let Err(e) = run_step(processes, "/bin/launchctl", kickstart_arguments(service.as_str())) {
        return Err(e);
    }
    assert(installed(files, dir@, binary@));
    let started_at = (processes.clock)();
    let mut round: u64 = 0;
    while round < START_ROUNDS
        invariant
            processes.clock.ensures((), started_at),
            round > 0 ==> listed(processes, l.app_binary@, None),
            processes_ready(processes),
            *home matches Some(h) && h@ == dir@,
            installed(files, dir@, binary@),
            l.app_binary@ == path_join(app_path(dir@), APP_EXECUTABLE@),
            exists|out: Output| #[trigger]
                ran(processes, "/usr/bin/codesign"@, spec_codesign_arguments(app_path(dir@)), out),
            user_service(processes, service@),
            exists|out: Output|
                #[trigger] ran(
                    processes,
                    "/bin/launchctl"@,
                    spec_bootstrap_arguments(
                        service@,
                        path_join(path_join(dir@, "Library/LaunchAgents"@), LABEL@ + ".plist"@),
                    ),
                    out,
                ),
            exists|out: Output|
                #[trigger] ran(processes, "/bin/launchctl"@, spec_kickstart_arguments(service@), out),
        decreases START_ROUNDS - round,
    {
        let now = (processes.clock)();
        if now.saturating_sub(started_at) >= START_TIMEOUT_MS {
            assert(processes.clock.ensures((), now));
            assert(waited(processes, START_TIMEOUT_MS as nat));
            assert(launched(processes, dir@));
            return Err(Error(NOT_STARTED.to_owned()));
        }
        match agent_pid(processes, l.app_binary.as_str()) {
            Ok(Some(pid)) => {
                assert(listed(processes, l.app_binary@, Some(pid as nat)));
                return Ok(());
            },
            Ok(None) => {},
            Err(e) => return Err(e),
        }
        (processes.sleep)(START_POLL_MS);
        round = round + 1;
    }
    assert(launched(processes, dir@));
    Err(Error(NOT_STARTED.to_owned()))
}

/// Installs the agent with the executable `binary` (see `install_stopped`),
/// with Wispr Flow stopped meanwhile and started again where it ran.
pub fn install<
    Read: Fn(String) -> Result<Option<Vec<u8>>, Error>,
    Exists: Fn(String) -> bool,
    Place: Fn(String, Contents) -> Result<(), Error>,
    Remove: Fn(String, bool) -> Result<(), Error>,
    Run: Fn(String, Vec<String>) -> Result<Output, Error>,
    Sleep: Fn(u64),
    Clock: Fn() -> u64,
>(
    binary: &str,
    home: Option<String>,
    files: &Files<Read, Exists, Place, Remove>,
    processes: &Processes<Run, Sleep, Clock>,
) -> (r: Result<(), Error>)
    requires
        files_ready(files),
        processes_ready(processes),
    ensures
        r is Ok ==> (home matches Some(h) && installed(files, h@, binary@) && started(processes, h@)),
        r matches Err(e) ==> stop_failed(processes, e) || (home is None && e.0@
            == HOME_UNAVAILABLE@) || (home matches Some(h) && install_failed(
            files,
            processes,
            h@,
            binary@,
            e,
        )) || run_failed(processes, "/usr/bin/open"@, start_arguments(), e),
{
    let stop = || -> (r: Result<bool, Error>)
        requires
            processes_ready(processes),
        ensures
            r matches Err(e) ==> stop_failed(processes, e),
        { crate::platform::wispr::stop_if_running(processes) };
    let home_ref = &home;
    let operation = || -> (r: Result<(), Error>)
        requires
            files_ready(files),
            processes_ready(processes),
        ensures
            r is Ok ==> (*home_ref matches Some(h) && installed(files, h@, binary@) && started(
                processes,
                h@,
            )),
            r matches Err(e) ==> (*home_ref is None && e.0@ == HOME_UNAVAILABLE@) || (
            *home_ref matches Some(h) && install_failed(files, processes, h@, binary@, e)),
        { install_stopped(binary, home_ref, files, processes) };
    let start = || -> (r: Result<(), Error>)
        requires
            processes_ready(processes),
        ensures
            r matches Err(e) ==> run_failed(processes, "/usr/bin/open"@, start_arguments(), e),
        { crate::platform::wispr::start(processes) };
    with_wispr_stopped(&stop, &operation, &start, &mut Vec::new())
}

/// What a removal under `home` has written: Wispr Flow's shortcut given
/// back to its command mode, with the extension of earlier versions
/// removed; the launch agent's property list and the app removed.
pub open spec fn uninstalled<
    Read: Fn(String) -> Result<Option<Vec<u8>>, Error>,
    Exists: Fn(String) -> bool,
    Place: Fn(String, Contents) -> Result<(), Error>,
    Remove: Fn(String, bool) -> Result<(), Error>,
>(files: &Files<Read, Exists, Place, Remove>, home: Seq<char>) -> bool {
    &&& rewrote(
        files,
        path_join(flow_root(home), "config.json"@),
        JsonValue::Null,
        |v: JsonValue| spec_set_shortcut(v, FLOW_COMMAND_MODE@),
    )
    &&& removed_old_extension(files, home)
    &&& removed(files, path_join(path_join(home, "Library/LaunchAgents"@), LABEL@ + ".plist"@), false)
    &&& removed(files, app_path(home), true)
}

/// A listing showed no agent running from the app under `home`.
pub open spec fn stopped<
    Run: Fn(String, Vec<String>) -> Result<Output, Error>,
    Sleep: Fn(u64),
    Clock: Fn() -> u64,
>(processes: &Processes<Run, Sleep, Clock>, home: Seq<char>) -> bool {
    listed(processes, path_join(app_path(home), APP_EXECUTABLE@), None)
}

/// Removes the agent while Wispr Flow is stopped: the launch agent is
/// unloaded, the agent stopped, Wispr Flow's shortcut given back, and the
/// launch agent's property list and the app bundle removed.
fn uninstall_stopped<
    Read: Fn(String) -> Result<Option<Vec<u8>>, Error>,
    Exists: Fn(String) -> bool,
    Place: Fn(String, Contents) -> Result<(), Error>,
    Remove: Fn(String, bool) -> Result<(), Error>,
    Run: Fn(String, Vec<String>) -> Result<Output, Error>,
    Sleep: Fn(u64),
    Clock: Fn() -> u64,
>(
    home: &Option<String>,
    files: &Files<Read, Exists, Place, Remove>,
    processes: &Processes<Run, Sleep, Clock>,
) -> (r: Result<(), Error>)
    requires
        files_ready(files),
        processes_ready(processes),
    ensures
        home is None ==> (r matches Err(e) && e.0@ == HOME_UNAVAILABLE@),
        r is Ok ==> (*home matches Some(h) && uninstalled(files, h@) && stopped(processes, h@)),
        r matches Err(e) ==> (home is None && e.0@ == HOME_UNAVAILABLE@) || (*home matches Some(h)
            && uninstall_failed(files, processes, h@, e)),
{
    let home = match home {
        Some(h) => h,
        None => return Err(Error(HOME_UNAVAILABLE.to_owned())),
    };
    let l = layout(home.as_str());
    let domain = match domain(processes) {
        Ok(d) => d,
        Err(e) => return Err(e),
    };
    let service = service_target(domain.as_str());
    let _ = (processes.run)("/bin/launchctl".to_owned(), bootout_arguments(service.as_str()));
    if let Err(e) = stop(processes, l.app_binary.as_str()) {
        return Err(e);
    }
    if let Err(e) = crate::platform::wispr::uninstall(home.as_str(), files, &mut Vec::new()) {
        return Err(e);
    }
    let plist = l.plist.clone();
    let ghost plist_path = plist;
    let unlisted = (files.remove)(plist, false);
    let ghost unlisted_answer = unlisted;
    if let Err(e) = unlisted {
        assert(files.remove.ensures((plist_path, false), Err::<(), Error>(e)));
        return Err(e);
    }
    assert(files.remove.ensures((plist_path, false), unlisted_answer));
    let app = l.app.clone();
    let ghost app_path_given = app;
    let gone = (files.remove)(app, true);
    let ghost gone_answer = gone;
    if let Err(e) = gone {
        assert(files.remove.ensures((app_path_given, true), Err::<(), Error>(e)));
        return Err(e);
    }
    assert(files.remove.ensures((app_path_given, true), gone_answer));
    Ok(())
}

/// Removes the agent (see `uninstall_stopped`), with Wispr Flow stopped
/// meanwhile and started again where it ran.
pub fn uninstall<
    Read: Fn(String) -> Result<Option<Vec<u8>>, Error>,
    Exists: Fn(String) -> bool,
    Place: Fn(String, Contents) -> Result<(), Error>,
    Remove: Fn(String, bool) -> Result<(), Error>,
    Run: Fn(String, Vec<String>) -> Result<Output, Error>,
    Sleep: Fn(u64),
    Clock: Fn() -> u64,
>(
    home: Option<String>,
    files: &Files<Read, Exists, Place, Remove>,
    processes: &Processes<Run, Sleep, Clock>,
) -> (r: Result<(), Error>)
    requires
        files_ready(files),
        processes_ready(processes),
    ensures
        r is Ok ==> (home matches Some(h) && uninstalled(files, h@) && stopped(processes, h@)),
        r matches Err(e) ==> stop_failed(processes, e) || (home is None && e.0@
            == HOME_UNAVAILABLE@) || (home matches Some(h) && uninstall_failed(
            files,
            processes,
            h@,
            e,
        )) || run_failed(processes, "/usr/bin/open"@, start_arguments(), e),
{
    let stop = || -> (r: Result<bool, Error>)
        requires
            processes_ready(processes),
        ensures
            r matches Err(e) ==> stop_failed(processes, e),
        { crate::platform::wispr::stop_if_running(processes) };
    let home_ref = &home;
    let operation = || -> (r: Result<(), Error>)
        requires
            files_ready(files),
            processes_ready(processes),
        ensures
            r is Ok ==> (*home_ref matches Some(h) && uninstalled(files, h@) && stopped(processes, h@)),
            r matches Err(e) ==> (*home_ref is None && e.0@ == HOME_UNAVAILABLE@) || (
            *home_ref matches Some(h) && uninstall_failed(files, processes, h@, e)),
        { uninstall_stopped(home_ref, files, processes) };
    let start = || -> (r: Result<(), Error>)
        requires
            processes_ready(processes),
        ensures
            r matches Err(e) ==> run_failed(processes, "/usr/bin/open"@, start_arguments(), e),
        { crate::platform::wispr::start(processes) };
    with_wispr_stopped(&stop, &operation, &start, &mut Vec::new())
}

} // verus!
