//! The command lines of `fx-line` and `fx-agent`: what their arguments ask
//! for, or the usage error.
use crate::error::Error;
use crate::text::{chars_of, join, joined, string_of, trim, trimmed};
use vstd::prelude::*;

verus! {

/// The usage of `fx-line`.
pub const LINE_USAGE: &'static str = "usage: fx-line <request> [cwd] [current-line]";

/// The error of `fx-line` given more than three arguments.
pub const TOO_MANY: &'static str = "too many arguments";

/// The usage of `fx-agent`.
pub const AGENT_USAGE: &'static str = "usage: fx-agent [run|install|uninstall|status|plan REQUEST|request REQUEST]";

/// The error of `fx-agent plan` or `request` without a request.
pub const EMPTY_REQUEST: &'static str = "request cannot be empty";

/// What `fx-line` is asked: a request, the working directory and the
/// current input line.
#[derive(Debug)]
pub struct LineRequest {
    pub request: String,
    pub cwd: String,
    pub current_line: String,
}

/// The views of a list of arguments.
pub open spec fn arg_views(args: Seq<String>) -> Seq<Seq<char>> {
    args.map_values(|a: String| a@)
}

/// The request of `fx-line`: the first argument; then the working
/// directory, which is the second argument or else `current_dir` (asked in
/// either case, as the arguments are read); then the current line, the
/// third argument or empty; no more arguments may follow.
pub fn line_request<C: Fn() -> Result<String, Error>>(args: &Vec<String>, current_dir: &C) -> (r:
    Result<LineRequest, Error>)
    requires
        current_dir.requires(()),
    ensures
        args@.len() == 0 ==> (r matches Err(e) && e.0@ == LINE_USAGE@),
        args@.len() > 0 ==> exists|here: Result<String, Error>|
            #[trigger] current_dir.ensures((), here) && match here {
                Err(e) => r == Err::<LineRequest, Error>(e),
                Ok(dir) => if args@.len() > 3 {
                    r matches Err(e) && e.0@ == TOO_MANY@
                } else {
                    r matches Ok(l) && l.request@ == args@[0]@ && l.cwd@ == (if args@.len() >= 2 {
                        args@[1]@
                    } else {
                        dir@
                    }) && l.current_line@ == (if args@.len() == 3 {
                        args@[2]@
                    } else {
                        Seq::<char>::empty()
                    })
                },
            },
{
    if args.len() == 0 {
        return Err(Error(LINE_USAGE.to_owned()));
    }
    let answer = current_dir();
    let here = match answer {
        Ok(dir) => dir,
        Err(e) => return Err(e),
    };
    let cwd = if args.len() >= 2 {
        args[1].clone()
    } else {
        here
    };
    let current_line = if args.len() >= 3 {
        args[2].clone()
    } else {
        String::new()
    };
    if args.len() > 3 {
        return Err(Error(TOO_MANY.to_owned()));
    }
    Ok(LineRequest { request: args[0].clone(), cwd, current_line })
}

/// What `fx-agent` is asked to do.
#[derive(Debug)]
pub enum AgentCommand {
    /// Run the agent (the default).
    Run,
    /// Print the plan of a request.
    Plan(String),
    /// Carry out a request.
    Request(String),
    /// Install the agent.
    Install,
    /// Remove the agent.
    Uninstall,
    /// Tell whether the agent runs.
    Status,
}

/// The request of `plan` and `request`: the arguments after the command,
/// joined by spaces.
pub open spec fn spec_request(args: Seq<Seq<char>>) -> Seq<char> {
    join(args.drop_first(), seq![' '])
}

/// The words of a command that takes no argument.
pub open spec fn alone(args: Seq<Seq<char>>, word: Seq<char>) -> bool {
    args.len() == 1 && args[0] == word
}

/// What the arguments of `fx-agent` ask: no argument or `run` alone runs the
/// agent; `install`, `uninstall` and `status` come alone; `plan` and
/// `request` take a nonblank request.
pub fn agent_command(args: &Vec<String>) -> (r: Result<AgentCommand, Error>)
    ensures
        args@.len() == 0 || alone(arg_views(args@), "run"@) ==> r matches Ok(AgentCommand::Run),
        alone(arg_views(args@), "install"@) ==> r matches Ok(AgentCommand::Install),
        alone(arg_views(args@), "uninstall"@) ==> r matches Ok(AgentCommand::Uninstall),
        alone(arg_views(args@), "status"@) ==> r matches Ok(AgentCommand::Status),
        args@.len() > 0 && (args@[0]@ == "plan"@ || args@[0]@ == "request"@) ==> if trim(
            spec_request(arg_views(args@)),
        ).len() == 0 {
            r matches Err(e) && e.0@ == EMPTY_REQUEST@
        } else if args@[0]@ == "plan"@ {
            r matches Ok(AgentCommand::Plan(q)) && q@ == spec_request(arg_views(args@))
        } else {
            r matches Ok(AgentCommand::Request(q)) && q@ == spec_request(arg_views(args@))
        },
        r is Ok ==> (args@.len() == 0 || alone(arg_views(args@), "run"@) || alone(
            arg_views(args@),
            "install"@,
        ) || alone(arg_views(args@), "uninstall"@) || alone(arg_views(args@), "status"@) || (
        args@.len() > 0 && (args@[0]@ == "plan"@ || args@[0]@ == "request"@))),
        r matches Err(e) ==> e.0@ == if args@.len() > 0 && (args@[0]@ == "plan"@ || args@[0]@
            == "request"@) {
            EMPTY_REQUEST@
        } else {
            AGENT_USAGE@
        },
{
    if args.len() == 0 {
        return Ok(AgentCommand::Run);
    }
    proof {
        reveal_strlit("plan");
        reveal_strlit("request");
        reveal_strlit("run");
        reveal_strlit("install");
        reveal_strlit("uninstall");
        reveal_strlit("status");
        assert("install"@[0] != "request"@[0]);
    }
    let first = chars_of(args[0].as_str());
    let ghost views = arg_views(args@);
    assert(views[0] == args@[0]@);
    let is = |word: &str| -> (b: bool)
        ensures
            b == (first@ == word@),
        { crate::text::same(&first, &chars_of(word)) };
    if is("plan") || is("request") {
        let mut rest: Vec<Vec<char>> = Vec::new();
        let mut i: usize = 1;
        while i < args.len()
            invariant
                1 <= i <= args@.len(),
                views == arg_views(args@),
                rest@.map_values(|v: Vec<char>| v@) == views.drop_first().take(i - 1),
            decreases args@.len() - i,
        {
            let ghost before = rest@.map_values(|v: Vec<char>| v@);
            rest.push(chars_of(args[i].as_str()));
            assert(rest@.map_values(|v: Vec<char>| v@) =~= before.push(args@[i as int]@));
            assert(views.drop_first().take(i as int) =~= views.drop_first().take(i - 1).push(
                views[i as int],
            ));
            i = i + 1;
        }
        assert(views.drop_first().take(i - 1) =~= views.drop_first());
        let space = vec![' '];
        assert(space@ =~= seq![' ']);
        let request = joined(&rest, &space);
        if trimmed(&request).len() == 0 {
            return Err(Error(EMPTY_REQUEST.to_owned()));
        }
        if is("plan") {
            return Ok(AgentCommand::Plan(string_of(&request)));
        }
        return Ok(AgentCommand::Request(string_of(&request)));
    }
    if args.len() != 1 {
        return Err(Error(AGENT_USAGE.to_owned()));
    }
    if is("run") {
        Ok(AgentCommand::Run)
    } else if is("install") {
        Ok(AgentCommand::Install)
    } else if is("uninstall") {
        Ok(AgentCommand::Uninstall)
    } else if is("status") {
        Ok(AgentCommand::Status)
    } else {
        Err(Error(AGENT_USAGE.to_owned()))
    }
}

} // verus!
