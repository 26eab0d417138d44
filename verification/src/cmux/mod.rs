//! The CMUX side of the agent: the focused context, the actions, their checks
//! and the `cmux` command lines that carry them out.
pub mod actions;
pub mod options;
pub mod validation;

pub use actions::{Action, Direction, ResizeDirection, SidebarAction};
use crate::error::Error;
use actions::{arguments, spec_arguments, views};
use crate::text::{
    chars_of, lines, lines_of, same, slice, split_char, split_on, string_of, trim, trimmed,
    utf8_len, utf8_longer_than, utf8_width, lemma_utf8_split,
};
use validation::{spec_validate, unit_result};
use vstd::prelude::*;

verus! {

/// What CMUX reports of the focused surface, and the text of the trees that
/// the references of a plan are checked against.
#[derive(Clone, Debug)]
pub struct Context {
    pub cwd: Option<String>,
    pub pane: String,
    pub surface: String,
    pub surface_type: String,
    pub tree: String,
    pub window: String,
    pub workspace: String,
    pub workspaces: String,
    pub socket: String,
}

/// The `cmux` command line tool.
pub struct Cmux {
    pub binary: String,
}

/// Where `cmux` is found when no variable names it.
pub const DEFAULT_BINARY: &'static str = "/Applications/cmux.app/Contents/Resources/bin/cmux";

impl Cmux {
    /// The tool named by `FX_AGENT_CMUX`, else by `CMUX_BUNDLED_CLI_PATH`,
    /// else the one of the installed app; the caller reads the variables.
    pub fn new(agent_cmux: Option<String>, bundled_cli: Option<String>) -> (c: Cmux)
        ensures
            c.binary@ == match agent_cmux {
                Some(b) => b@,
                None => match bundled_cli {
                    Some(b) => b@,
                    None => DEFAULT_BINARY@,
                },
            },
    {
        let binary = match agent_cmux {
            Some(b) => b,
            None => match bundled_cli {
                Some(b) => b,
                None => DEFAULT_BINARY.to_owned(),
            },
        };
        Cmux { binary }
    }

    /// Checks an action against the focused context and the request.
    pub fn validate(context: &Context, request: &str, action: &Action) -> (r: Result<(), Error>)
        ensures
            unit_result(r) == spec_validate(*context, request@, *action),
    {
        validation::validate(context, request, action)
    }

    /// The `cmux` arguments that carry out an action, once it is checked.
    pub fn execute(context: &Context, request: &str, action: &Action) -> (r: Result<
        Vec<String>,
        Error,
    >)
        ensures
            match spec_validate(*context, request@, *action) {
                Err(e) => r matches Err(err) && err.0@ == e,
                Ok(()) => r matches Ok(args) && views(args@) == spec_arguments(*context, *action),
            },
    {
        match validation::validate(context, request, action) {
            Err(e) => Err(e),
            Ok(()) => Ok(arguments(context, action)),
        }
    }
}

/// The longest tree text kept in a context, in bytes.
pub const TREE_BYTES: usize = 8000;

/// The longest workspace list kept in a context, in bytes.
pub const WORKSPACES_BYTES: usize = 12000;

/// The number of leading characters of `s` whose UTF-8 encoding fits in
/// `bytes`.
pub open spec fn fitting(s: Seq<char>, bytes: nat) -> nat
    decreases s.len(),
{
    if s.len() == 0 || utf8_width(s[0]) > bytes {
        0
    } else {
        1 + fitting(s.drop_first(), (bytes - utf8_width(s[0])) as nat)
    }
}

/// `s` where it fits in `bytes`; else its longest prefix that fits (cut on a
/// character boundary) followed by an ellipsis.
pub open spec fn spec_bounded(s: Seq<char>, bytes: nat) -> Seq<char> {
    if utf8_len(s) <= bytes {
        s
    } else {
        s.take(fitting(s, bytes) as int).push('…')
    }
}

proof fn lemma_fitting_bound(s: Seq<char>, bytes: nat)
    ensures
        fitting(s, bytes) <= s.len(),
    decreases s.len(),
{
    if s.len() > 0 && utf8_width(s[0]) <= bytes {
        lemma_fitting_bound(s.drop_first(), (bytes - utf8_width(s[0])) as nat);
    }
}

proof fn lemma_fitting_fits(s: Seq<char>, bytes: nat)
    ensures
        utf8_len(s.take(fitting(s, bytes) as int)) <= bytes,
    decreases s.len(),
{
    lemma_fitting_bound(s, bytes);
    if s.len() == 0 || utf8_width(s[0]) > bytes {
        assert(s.take(0) =~= Seq::<char>::empty());
    } else {
        let rest = s.drop_first();
        let k = fitting(s, bytes) as int;
        lemma_fitting_fits(rest, (bytes - utf8_width(s[0])) as nat);
        let t = s.take(k);
        lemma_utf8_split(t, 1);
        assert(t.take(1) =~= seq![s[0]]);
        assert(t.skip(1) =~= rest.take(k - 1));
        assert(utf8_len(seq![s[0]]) == utf8_width(s[0])) by {
            assert(seq![s[0]].drop_last() =~= Seq::<char>::empty());
            assert(utf8_len(Seq::<char>::empty()) == 0);
            assert(seq![s[0]].last() == s[0]);
        }
    }
}

/// A cut text fits in the bytes it was cut to, and the three bytes of the
/// ellipsis.
pub proof fn bounded_fits(s: Seq<char>, bytes: nat)
    ensures
        utf8_len(spec_bounded(s, bytes)) <= bytes + 3,
{
    if utf8_len(s) > bytes {
        let t = s.take(fitting(s, bytes) as int);
        lemma_fitting_fits(s, bytes);
        assert(t.push('…').drop_last() =~= t);
    }
}

/// Cuts a text to a number of bytes, marking the cut with an ellipsis.
pub fn bounded(value: &str, bytes: usize) -> (s: String)
    ensures
        s@ == spec_bounded(value@, bytes as nat),
{
    let v = chars_of(value);
    if !utf8_longer_than(&v, bytes) {
        return value.to_owned();
    }
    let mut used: usize = 0;
    let mut i: usize = 0;
    assert(v@.skip(0) == v@);
    while i < v.len()
        invariant
            i <= v.len(),
            used <= bytes,
            fitting(v@, bytes as nat) == i + fitting(v@.skip(i as int), (bytes - used) as nat),
        ensures
            i <= v.len(),
            fitting(v@, bytes as nat) == i,
        decreases v.len() - i,
    {
        let c = v[i];
        let width: usize = if c <= '\u{7f}' {
            1
        } else if c <= '\u{7ff}' {
            2
        } else if c <= '\u{ffff}' {
            3
        } else {
            4
        };
        assert(v@.skip(i as int)[0] == c);
        if width > bytes - used {
            break;
        }
        assert(v@.skip(i as int).drop_first() == v@.skip(i + 1));
        used = used + width;
        i = i + 1;
    }
    proof {
        lemma_fitting_bound(v@, bytes as nat);
    }
    let mut cut = slice(&v, 0, i);
    cut.push('…');
    string_of(&cut)
}

/// The first line of a failed command's error output that is not blank, or
/// `fallback` where there is none.
pub open spec fn first_nonblank(ls: Seq<Seq<char>>, fallback: Seq<char>) -> Seq<char>
    decreases ls.len(),
{
    if ls.len() == 0 {
        fallback
    } else if trim(ls[0]).len() > 0 {
        ls[0]
    } else {
        first_nonblank(ls.drop_first(), fallback)
    }
}

/// The outcome of a command: success, or an error with the first nonblank
/// line of its error output (else `fallback`).
pub fn checked(success: bool, stderr: &str, fallback: &str) -> (r: Result<(), Error>)
    ensures
        success ==> r is Ok,
        !success ==> (r matches Err(e) && e.0@ == first_nonblank(lines(stderr@), fallback@)),
{
    if success {
        return Ok(());
    }
    let ls = lines_of(&chars_of(stderr));
    let ghost all = ls@.map_values(|p: Vec<char>| p@);
    let mut i: usize = 0;
    assert(all.skip(0) == all);
    while i < ls.len()
        invariant
            i <= ls.len(),
            all == ls@.map_values(|p: Vec<char>| p@),
            all == lines(stderr@),
            !success,
            first_nonblank(all, fallback@) == first_nonblank(all.skip(i as int), fallback@),
        decreases ls.len() - i,
    {
        assert(all.skip(i as int)[0] == ls@[i as int]@);
        assert(all.skip(i as int).drop_first() == all.skip(i + 1));
        if trimmed(&ls[i]).len() > 0 {
            return Err(Error(string_of(&ls[i])));
        }
        i = i + 1;
    }
    Err(Error(fallback.to_owned()))
}

/// The shells whose working directory is taken as the terminal's.
pub open spec fn is_shell(name: Seq<char>) -> bool {
    name == "zsh"@ || name == "bash"@ || name == "fish"@ || name == "sh"@ || name == "nu"@
}

/// The process number on a line of `cmux top --all --processes --flat`
/// (tab-separated fields) that is a shell of `surface`.
pub open spec fn shell_pid(line: Seq<char>, surface: Seq<char>) -> Option<Seq<char>> {
    let fields = split_on(line, '\t');
    if fields.len() >= 7 && fields[3] == "process"@ && fields[5] == surface && is_shell(fields[6]) {
        Some(fields[4])
    } else {
        None
    }
}

/// The shell processes of `surface`, in the order of the listing.
pub open spec fn shell_pids(ls: Seq<Seq<char>>, surface: Seq<char>) -> Seq<Seq<char>>
    decreases ls.len(),
{
    if ls.len() == 0 {
        Seq::empty()
    } else {
        let rest = shell_pids(ls.drop_last(), surface);
        match shell_pid(ls.last(), surface) {
            Some(pid) => rest.push(pid),
            None => rest,
        }
    }
}

fn is_one_of_shells(name: &Vec<char>) -> (b: bool)
    ensures
        b == is_shell(name@),
{
    same(name, &chars_of("zsh")) || same(name, &chars_of("bash")) || same(name, &chars_of("fish"))
        || same(name, &chars_of("sh")) || same(name, &chars_of("nu"))
}

/// The shell processes of `surface` in a process listing.
pub fn shell_processes(listing: &str, surface: &str) -> (r: Vec<String>)
    ensures
        r@.map_values(|p: String| p@) == shell_pids(lines(listing@), surface@),
{
    let ls = lines_of(&chars_of(listing));
    let ghost all = ls@.map_values(|p: Vec<char>| p@);
    let s = chars_of(surface);
    let process = chars_of("process");
    let mut out: Vec<String> = Vec::new();
    let mut i: usize = 0;
    assert(all.take(0) =~= Seq::<Seq<char>>::empty());
    while i < ls.len()
        invariant
            i <= ls.len(),
            all == ls@.map_values(|p: Vec<char>| p@),
            all == lines(listing@),
            s@ == surface@,
            process@ == "process"@,
            out@.map_values(|p: String| p@) == shell_pids(all.take(i as int), surface@),
        decreases ls.len() - i,
    {
        assert(all.take(i + 1).drop_last() == all.take(i as int));
        assert(all.take(i + 1).last() == ls@[i as int]@);
        let fields = split_char(&ls[i], '\t');
        let ghost fs = fields@.map_values(|p: Vec<char>| p@);
        if fields.len() >= 7 && same(&fields[3], &process) && same(&fields[5], &s)
            && is_one_of_shells(&fields[6]) {
            assert(fs[3] == fields@[3]@ && fs[4] == fields@[4]@ && fs[5] == fields@[5]@ && fs[6]
                == fields@[6]@);
            let ghost prior = out@.map_values(|p: String| p@);
            out.push(string_of(&fields[4]));
            assert(out@.map_values(|p: String| p@) =~= prior.push(fs[4]));
        } else {
            assert(fields.len() >= 7 ==> fs[3] == fields@[3]@ && fs[5] == fields@[5]@ && fs[6]
                == fields@[6]@);
        }
        i = i + 1;
    }
    assert(all.take(ls.len() as int) == all);
    out
}

/// The path on the first line of `lsof -Fn` output that starts with `n`.
pub open spec fn first_name_field(ls: Seq<Seq<char>>) -> Option<Seq<char>>
    decreases ls.len(),
{
    if ls.len() == 0 {
        None
    } else if ls[0].len() > 0 && ls[0][0] == 'n' {
        Some(ls[0].drop_first())
    } else {
        first_name_field(ls.drop_first())
    }
}

/// The working directory in the output of `lsof -a -p PID -d cwd -Fn`.
pub fn lsof_cwd(output: &str) -> (r: Option<String>)
    ensures
        match first_name_field(lines(output@)) {
            Some(p) => r matches Some(s) && s@ == p,
            None => r is None,
        },
{
    let ls = lines_of(&chars_of(output));
    let ghost all = ls@.map_values(|p: Vec<char>| p@);
    let mut i: usize = 0;
    assert(all.skip(0) == all);
    while i < ls.len()
        invariant
            i <= ls.len(),
            all == ls@.map_values(|p: Vec<char>| p@),
            first_name_field(lines(output@)) == first_name_field(all.skip(i as int)),
            all == lines(output@),
        decreases ls.len() - i,
    {
        assert(all.skip(i as int)[0] == ls@[i as int]@);
        assert(all.skip(i as int).drop_first() == all.skip(i + 1));
        let line = &ls[i];
        if line.len() > 0 && line[0] == 'n' {
            let rest = slice(line, 1, line.len());
            assert(rest@ == line@.drop_first());
            return Some(string_of(&rest));
        }
        i = i + 1;
    }
    None
}

/// The working directory of the focused terminal: that of the first shell
/// of `surface` in the process listing for which `lsof` (given the process
/// number) answers an output naming one. A failed `lsof` ends the search.
pub fn focused_cwd<L: Fn(String) -> Option<String>>(listing: &str, surface: &str, lsof: &L) -> (r:
    Option<String>)
    requires
        forall|pid: String| lsof.requires((pid,)),
    ensures
        r matches Some(path) ==> exists|pid: String, output: String|
            #[trigger] lsof.ensures((pid,), Some(output)) && shell_pids(
                lines(listing@),
                surface@,
            ).contains(pid@) && first_name_field(lines(output@)) == Some(path@),
        r is None ==> exists|k: int|
            0 <= k <= shell_pids(lines(listing@), surface@).len() && named_none_before(
                *lsof,
                shell_pids(lines(listing@), surface@),
                k,
            ) && (k < shell_pids(lines(listing@), surface@).len() ==> exists|pid: String|
                pid@ == shell_pids(lines(listing@), surface@)[k] && #[trigger] lsof.ensures(
                    (pid,),
                    None,
                )),
{
    let pids = shell_processes(listing, surface);
    let ghost all = pids@.map_values(|p: String| p@);
    let mut i: usize = 0;
    while i < pids.len()
        invariant
            i <= pids.len(),
            all == pids@.map_values(|p: String| p@),
            all == shell_pids(lines(listing@), surface@),
            forall|pid: String| lsof.requires((pid,)),
            named_none_before(*lsof, all, i as int),
        decreases pids.len() - i,
    {
        let pid = pids[i].clone();
        let ghost asked = pid;
        assert(all[i as int] == asked@);
        let output = match lsof(pid) {
            Some(output) => output,
            None => {
                assert(lsof.ensures((asked,), None));
                return None;
            },
        };
        if let Some(path) = lsof_cwd(output.as_str()) {
            assert(lsof.ensures((asked,), Some(output)));
            assert(all.contains(asked@));
            return Some(path);
        }
        assert(lsof.ensures((asked,), Some(output)));
        assert(named_none_before(*lsof, all, i + 1)) by {
            assert forall|j: int| 0 <= j < i + 1 implies named_none_at(*lsof, all, j) by {
                if j == i {
                    assert(named_none_at(*lsof, all, j));
                }
            }
        }
        i = i + 1;
    }
    None
}

/// `lsof` answered, for the `j`th shell, an output that names no directory.
pub open spec fn named_none_at<L: Fn(String) -> Option<String>>(
    lsof: L,
    pids: Seq<Seq<char>>,
    j: int,
) -> bool {
    exists|pid: String, output: String|
        #[trigger] lsof.ensures((pid,), Some(output)) && pid@ == pids[j] && first_name_field(
            lines(output@),
        ) is None
}

/// `lsof` answered an output naming no directory for each of the first `k`
/// shells.
pub open spec fn named_none_before<L: Fn(String) -> Option<String>>(
    lsof: L,
    pids: Seq<Seq<char>>,
    k: int,
) -> bool {
    forall|j: int| 0 <= j < k ==> #[trigger] named_none_at(lsof, pids, j)
}

impl Context {
    /// A copy of the context, field by field.
    pub fn copied(&self) -> (c: Context)
        ensures
            c == *self,
    {
        Context {
            cwd: match &self.cwd {
                Some(d) => Some(d.clone()),
                None => None,
            },
            pane: self.pane.clone(),
            surface: self.surface.clone(),
            surface_type: self.surface_type.clone(),
            tree: self.tree.clone(),
            window: self.window.clone(),
            workspace: self.workspace.clone(),
            workspaces: self.workspaces.clone(),
            socket: self.socket.clone(),
        }
    }

    /// The context of the focused surface, as `cmux identify` reports it,
    /// with the trees cut to their byte limits; only a terminal has a
    /// working directory.
    pub fn focused(
        pane: String,
        surface: String,
        surface_type: String,
        window: String,
        workspace: String,
        tree: &str,
        workspaces: &str,
        cwd: Option<String>,
        socket: String,
    ) -> (c: Context)
        ensures
            c.pane == pane && c.surface == surface && c.surface_type == surface_type && c.window
                == window && c.workspace == workspace && c.socket == socket,
            c.tree@ == spec_bounded(tree@, TREE_BYTES as nat),
            c.workspaces@ == spec_bounded(workspaces@, WORKSPACES_BYTES as nat),
            c.cwd == if surface_type@ == "terminal"@ {
                cwd
            } else {
                None
            },
    {
        let terminal = same(&chars_of(surface_type.as_str()), &chars_of("terminal"));
        Context {
            cwd: if terminal {
                cwd
            } else {
                None
            },
            pane,
            surface,
            surface_type,
            tree: bounded(tree, TREE_BYTES),
            window,
            workspace,
            workspaces: bounded(workspaces, WORKSPACES_BYTES),
            socket,
        }
    }
}

} // verus!
