//! The `fx` model runner: which model each use asks, where `fx` is looked
//! for, the `PATH` it runs with, and what a finished run answers. Spawning
//! `fx` and reading its pipes is the caller's work.
use crate::cmux::actions::{decimal, decimal_chars};
use crate::cmux::{checked, first_nonblank};
use crate::error::Error;
use crate::output::{envelope, spec_envelope};
use crate::service::{join_path, path_join};
use crate::text::{chars_of, concat, lines, string_of};
use vstd::prelude::*;

verus! {

/// The model of the agent's fallback tasks when no variable names one.
pub const DEFAULT_AGENT_MODEL: &'static str = "zai/glm-4.7-flash";

/// The model of `fx-line` when no variable names one.
pub const DEFAULT_LINE_MODEL: &'static str = "zai/glm-4.7-flash";

/// The model of the agent's plans when no variable names one.
pub const DEFAULT_PLAN_MODEL: &'static str = "zai/glm-4.7-flash";

/// How long a command or a plan may take, in seconds.
pub const LINE_TIMEOUT_SECS: u64 = 5;

/// How long a fallback task may take, in seconds.
pub const AGENT_TIMEOUT_SECS: u64 = 20;

/// How many tool steps a fallback task may take.
pub const AGENT_MAX_STEPS: u8 = 8;

/// The first value that is set, else `default`.
pub open spec fn first_set(first: Option<String>, second: Option<String>, default: Seq<char>) -> Seq<
    char,
> {
    match first {
        Some(v) => v@,
        None => match second {
            Some(v) => v@,
            None => default,
        },
    }
}

/// The first of two values that is set, else `default`.
fn pick(first: Option<String>, second: Option<String>, default: &str) -> (s: String)
    ensures
        s@ == first_set(first, second, default@),
{
    match first {
        Some(v) => v,
        None => match second {
            Some(v) => v,
            None => default.to_owned(),
        },
    }
}

/// The model of `fx-line`: `FX_LINE_MODEL`, else the default.
pub fn line_model(line: Option<String>) -> (s: String)
    ensures
        s@ == first_set(line, None, DEFAULT_LINE_MODEL@),
{
    pick(line, None, DEFAULT_LINE_MODEL)
}

/// The model of the agent's plans: `FX_AGENT_PLAN_MODEL`, else
/// `FX_LINE_MODEL`, else the default.
pub fn plan_model(plan: Option<String>, line: Option<String>) -> (s: String)
    ensures
        s@ == first_set(plan, line, DEFAULT_PLAN_MODEL@),
{
    pick(plan, line, DEFAULT_PLAN_MODEL)
}

/// The model of the agent's fallback tasks: `FX_AGENT_MODEL`, else
/// `FX_LINE_MODEL`, else the default.
pub fn agent_model(agent: Option<String>, line: Option<String>) -> (s: String)
    ensures
        s@ == first_set(agent, line, DEFAULT_AGENT_MODEL@),
{
    pick(agent, line, DEFAULT_AGENT_MODEL)
}

/// The directories searched for tools while `fx` runs: the user's own (where
/// `HOME` is set), Homebrew's and `/usr/local/bin`, then the inherited ones.
pub open spec fn spec_runtime_paths(home: Option<Seq<char>>, inherited: Seq<Seq<char>>) -> Seq<
    Seq<char>,
> {
    let own = match home {
        Some(h) => seq![path_join(h, ".local/bin"@), path_join(h, ".cargo/bin"@)],
        None => seq![],
    };
    own + seq!["/opt/homebrew/bin"@, "/usr/local/bin"@] + inherited
}

/// The views of a list of texts.
pub open spec fn texts(v: Seq<String>) -> Seq<Seq<char>> {
    v.map_values(|s: String| s@)
}

/// The view of an optional text.
pub open spec fn opt_text(o: Option<String>) -> Option<Seq<char>> {
    match o {
        Some(s) => Some(s@),
        None => None,
    }
}

/// Appends one text to a list.
fn push_text(v: &mut Vec<String>, s: String)
    ensures
        texts(final(v)@) == texts(old(v)@).push(s@),
{
    v.push(s);
    assert(texts(v@) =~= texts(old(v)@).push(s@));
}

/// The directories of the `PATH` that `fx` runs with; the caller joins them.
pub fn runtime_paths(home: &Option<String>, inherited: &Vec<String>) -> (r: Vec<String>)
    ensures
        texts(r@) == spec_runtime_paths(opt_text(*home), texts(inherited@)),
{
    let mut paths: Vec<String> = Vec::new();
    if let Some(h) = home {
        push_text(&mut paths, join_path(h.as_str(), ".local/bin"));
        push_text(&mut paths, join_path(h.as_str(), ".cargo/bin"));
    }
    push_text(&mut paths, "/opt/homebrew/bin".to_owned());
    push_text(&mut paths, "/usr/local/bin".to_owned());
    let ghost own = texts(paths@);
    let mut i: usize = 0;
    while i < inherited.len()
        invariant
            i <= inherited@.len(),
            texts(paths@) == own + texts(inherited@).take(i as int),
        decreases inherited@.len() - i,
    {
        push_text(&mut paths, inherited[i].clone());
        assert(texts(inherited@).take(i + 1) =~= texts(inherited@).take(i as int).push(
            inherited@[i as int]@,
        ));
        assert(texts(paths@) =~= own + texts(inherited@).take(i + 1));
        i = i + 1;
    }
    assert(texts(inherited@).take(i as int) =~= texts(inherited@));
    assert(texts(paths@) =~= spec_runtime_paths(opt_text(*home), texts(inherited@)));
    paths
}

/// Where `fx` is looked for, in order: the user's own tool directories
/// (where `HOME` is set), then Homebrew's and `/usr/local/bin`.
pub open spec fn spec_candidates(home: Option<Seq<char>>) -> Seq<Seq<char>> {
    let own = match home {
        Some(h) => seq![path_join(h, ".local/bin/fx"@), path_join(h, ".cargo/bin/fx"@)],
        None => seq![],
    };
    own + seq!["/opt/homebrew/bin/fx"@, "/usr/local/bin/fx"@]
}

/// The places where `fx` is looked for.
pub fn candidates(home: &Option<String>) -> (r: Vec<String>)
    ensures
        texts(r@) == spec_candidates(opt_text(*home)),
{
    let mut paths: Vec<String> = Vec::new();
    if let Some(h) = home {
        push_text(&mut paths, join_path(h.as_str(), ".local/bin/fx"));
        push_text(&mut paths, join_path(h.as_str(), ".cargo/bin/fx"));
    }
    push_text(&mut paths, "/opt/homebrew/bin/fx".to_owned());
    push_text(&mut paths, "/usr/local/bin/fx".to_owned());
    assert(texts(paths@) =~= spec_candidates(opt_text(*home)));
    paths
}

/// `is_file` refused each of the first `k` candidates.
pub open spec fn refused_before<F: Fn(String) -> bool>(
    is_file: F,
    candidates: Seq<Seq<char>>,
    k: int,
) -> bool {
    forall|j: int|
        0 <= j < k ==> exists|p: String|
            #[trigger] is_file.ensures((p,), false) && p@ == #[trigger] candidates[j]
}

/// The `fx` to run: `FX_LINE_FX` where it is set, else the first candidate
/// that `is_file` accepts, else `fx` from the `PATH`.
pub fn binary<F: Fn(String) -> bool>(overridden: Option<String>, home: &Option<String>, is_file: &F) -> (r:
    String)
    requires
        forall|p: String| is_file.requires((p,)),
    ensures
        overridden is Some ==> r == overridden->0,
        overridden is None ==> exists|k: int|
            #![trigger refused_before(*is_file, spec_candidates(opt_text(*home)), k)]
            0 <= k <= spec_candidates(opt_text(*home)).len() && refused_before(
                *is_file,
                spec_candidates(opt_text(*home)),
                k,
            ) && if k < spec_candidates(opt_text(*home)).len() {
                r@ == spec_candidates(opt_text(*home))[k] && is_file.ensures((r,), true)
            } else {
                r@ == "fx"@
            },
{
    if let Some(b) = overridden {
        return b;
    }
    let all = candidates(home);
    let mut i: usize = 0;
    while i < all.len()
        invariant
            i <= all@.len(),
            overridden is None,
            texts(all@) == spec_candidates(opt_text(*home)),
            forall|p: String| is_file.requires((p,)),
            refused_before(*is_file, spec_candidates(opt_text(*home)), i as int),
        decreases all@.len() - i,
    {
        let path = all[i].clone();
        let asked = path.clone();
        let ghost sent = asked;
        let found = is_file(asked);
        assert(texts(all@)[i as int] == path@);
        if found {
            assert(is_file.ensures((path,), true));
            return path;
        }
        assert(is_file.ensures((sent,), false));
        i = i + 1;
    }
    assert(texts(all@).len() == all@.len());
    assert(refused_before(
        *is_file,
        spec_candidates(opt_text(*home)),
        spec_candidates(opt_text(*home)).len() as int,
    ));
    let fallback = "fx".to_owned();
    assert(fallback@ == "fx"@);
    fallback
}

/// What a finished `fx` run answers: a timeout, else the first nonblank line
/// of its error output (or `fx failed`) when it failed, else the model's
/// text in its reply.
pub open spec fn spec_finish(
    timed_out: bool,
    timeout_secs: nat,
    success: bool,
    stdout: Seq<char>,
    stderr: Seq<char>,
) -> Result<Seq<char>, Seq<char>> {
    if timed_out {
        Err("fx timed out after "@ + decimal(timeout_secs) + " seconds"@)
    } else if !success {
        Err(first_nonblank(lines(stderr), "fx failed"@))
    } else {
        spec_envelope(stdout)
    }
}

/// The view of a result of the library.
pub open spec fn result_view(r: Result<String, Error>) -> Result<Seq<char>, Seq<char>> {
    match r {
        Ok(s) => Ok(s@),
        Err(e) => Err(e.0@),
    }
}

/// What a finished `fx` run answers.
pub fn finish(timed_out: bool, timeout_secs: u64, success: bool, stdout: &str, stderr: &str) -> (r:
    Result<String, Error>)
    ensures
        result_view(r) == spec_finish(timed_out, timeout_secs as nat, success, stdout@, stderr@),
{
    if timed_out {
        let text = concat(
            &concat(&chars_of("fx timed out after "), &decimal_chars(timeout_secs)),
            &chars_of(" seconds"),
        );
        return Err(Error(string_of(&text)));
    }
    if let Err(e) = checked(success, stderr, "fx failed") {
        return Err(e);
    }
    match envelope(stdout) {
        Ok(text) => Ok(text),
        Err(e) => Err(Error(e.0.to_owned())),
    }
}

/// The arguments of `fx`: one question, answered as JSON, without saving a
/// session or reading other directories.
pub fn ask_arguments() -> (args: Vec<String>)
    ensures
        texts(args@) == seq![
            "--no-additional-dirs"@,
            "ask"@,
            "--no-save"@,
            "--json"@,
            "--no-color"@,
        ],
{
    let args = vec![
        "--no-additional-dirs".to_owned(),
        "ask".to_owned(),
        "--no-save".to_owned(),
        "--json".to_owned(),
        "--no-color".to_owned(),
    ];
    assert(texts(args@) =~= seq![
        "--no-additional-dirs"@,
        "ask"@,
        "--no-save"@,
        "--json"@,
        "--no-color"@,
    ]);
    args
}

} // verus!
