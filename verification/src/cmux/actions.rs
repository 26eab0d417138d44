//! The CMUX actions that a plan may hold, and the `cmux` command line that
//! carries out each one.
use super::Context;
use vstd::prelude::*;

verus! {

/// Where a new pane or surface goes.
#[derive(Clone, Copy, Debug, PartialEq, Eq)]
pub enum Direction {
    Down,
    Left,
    Right,
    Up,
}

/// The side of a pane that a resize moves.
#[derive(Clone, Copy, Debug, PartialEq, Eq)]
pub enum ResizeDirection {
    Down,
    Left,
    Right,
    Up,
}

/// What is done with the sidebar.
#[derive(Clone, Copy, Debug, PartialEq, Eq)]
pub enum SidebarAction {
    Focus,
    Hide,
    Show,
    Toggle,
}

/// One CMUX action. References (`pane:3`, `surface:1`, `workspace:2`) name
/// objects of the CMUX tree; an absent optional reference means the focused
/// one.
#[derive(Debug)]
#[allow(inconsistent_fields)]
pub enum Action {
    CloseSurface { surface: Option<String> },
    CloseWorkspace { workspace: Option<String> },
    Flash,
    FocusPane { pane: String },
    MoveSurface { pane: String, surface: String },
    NewTerminal { direction: Direction },
    NewWorkspace { cwd: Option<String>, name: Option<String> },
    Open { target: String },
    OpenBrowser { direction: Option<Direction>, url: String },
    RenameTab { name: String, surface: Option<String> },
    RenameWorkspace { name: String, workspace: Option<String> },
    ResizePane { amount: u16, direction: ResizeDirection, pane: String },
    SelectWorkspace { workspace: String },
    Sidebar { action: SidebarAction },
    SplitSurface { direction: Direction, surface: String },
    SwapPanes { pane: String, target: String },
}

/// The name of a direction in `cmux` arguments.
pub open spec fn direction_name(direction: Direction) -> Seq<char> {
    match direction {
        Direction::Down => "down"@,
        Direction::Left => "left"@,
        Direction::Right => "right"@,
        Direction::Up => "up"@,
    }
}

/// The `cmux resize-pane` flag of a direction.
pub open spec fn resize_flag(direction: ResizeDirection) -> Seq<char> {
    match direction {
        ResizeDirection::Down => "-D"@,
        ResizeDirection::Left => "-L"@,
        ResizeDirection::Right => "-R"@,
        ResizeDirection::Up => "-U"@,
    }
}

/// The name of a sidebar action in `cmux` arguments.
pub open spec fn sidebar_name(action: SidebarAction) -> Seq<char> {
    match action {
        SidebarAction::Focus => "focus"@,
        SidebarAction::Hide => "hide"@,
        SidebarAction::Show => "show"@,
        SidebarAction::Toggle => "toggle"@,
    }
}

impl Direction {
    /// The name that `cmux` takes for the direction.
    pub fn as_str(self) -> (s: &'static str)
        ensures
            s@ == direction_name(self),
    {
        match self {
            Direction::Down => "down",
            Direction::Left => "left",
            Direction::Right => "right",
            Direction::Up => "up",
        }
    }
}

impl ResizeDirection {
    /// The flag of `cmux resize-pane` for the direction.
    pub fn flag(self) -> (s: &'static str)
        ensures
            s@ == resize_flag(self),
    {
        match self {
            ResizeDirection::Down => "-D",
            ResizeDirection::Left => "-L",
            ResizeDirection::Right => "-R",
            ResizeDirection::Up => "-U",
        }
    }
}

impl SidebarAction {
    /// The name that `cmux right-sidebar` takes for the action.
    pub fn as_str(self) -> (s: &'static str)
        ensures
            s@ == sidebar_name(self),
    {
        match self {
            SidebarAction::Focus => "focus",
            SidebarAction::Hide => "hide",
            SidebarAction::Show => "show",
            SidebarAction::Toggle => "toggle",
        }
    }
}

/// The text of an optional reference, or `default` where it is absent.
pub open spec fn or_focused(reference: Option<String>, default: Seq<char>) -> Seq<char> {
    match reference {
        Some(r) => r@,
        None => default,
    }
}

/// The decimal digit `d`.
pub open spec fn digit_char(d: int) -> char {
    if d == 0 {
        '0'
    } else if d == 1 {
        '1'
    } else if d == 2 {
        '2'
    } else if d == 3 {
        '3'
    } else if d == 4 {
        '4'
    } else if d == 5 {
        '5'
    } else if d == 6 {
        '6'
    } else if d == 7 {
        '7'
    } else if d == 8 {
        '8'
    } else {
        '9'
    }
}

/// The decimal numeral of `n`, as `to_string` writes it.
pub open spec fn decimal(n: nat) -> Seq<char>
    decreases n,
{
    if n < 10 {
        seq![digit_char(n as int)]
    } else {
        decimal(n / 10).push(digit_char((n % 10) as int))
    }
}

/// The arguments followed by the focused workspace and window.
pub open spec fn spec_scoped(context: Context, args: Seq<Seq<char>>) -> Seq<Seq<char>> {
    args + seq!["--workspace"@, context.workspace@, "--window"@, context.window@]
}

/// The arguments followed by the focused window.
pub open spec fn spec_windowed(context: Context, args: Seq<Seq<char>>) -> Seq<Seq<char>> {
    args + seq!["--window"@, context.window@]
}

/// The arguments of `new-workspace`: the optional name, then the optional
/// working directory.
pub open spec fn new_workspace_args(cwd: Option<String>, name: Option<String>) -> Seq<Seq<char>> {
    let base = seq!["new-workspace"@, "--focus"@, "true"@];
    let named = match name {
        Some(n) => base + seq!["--name"@, n@],
        None => base,
    };
    match cwd {
        Some(c) => named + seq!["--cwd"@, c@],
        None => named,
    }
}

/// The `cmux` arguments that carry out `action` in `context`.
pub open spec fn spec_arguments(context: Context, action: Action) -> Seq<Seq<char>> {
    match action {
        Action::CloseSurface { surface } => spec_scoped(
            context,
            seq!["close-surface"@, "--surface"@, or_focused(surface, context.surface@)],
        ),
        Action::CloseWorkspace { workspace } => spec_windowed(
            context,
            seq!["close-workspace"@, "--workspace"@, or_focused(workspace, context.workspace@)],
        ),
        Action::Flash => spec_scoped(context, seq!["trigger-flash"@]),
        Action::FocusPane { pane } => spec_scoped(context, seq!["focus-pane"@, "--pane"@, pane@]),
        Action::MoveSurface { pane, surface } => spec_scoped(
            context,
            seq!["move-surface"@, "--surface"@, surface@, "--pane"@, pane@],
        ),
        Action::NewTerminal { direction } => spec_scoped(
            context,
            seq![
                "new-pane"@,
                "--type"@,
                "terminal"@,
                "--direction"@,
                direction_name(direction),
                "--focus"@,
                "true"@,
            ],
        ),
        Action::NewWorkspace { cwd, name } => spec_windowed(context, new_workspace_args(cwd, name)),
        Action::Open { target } => spec_scoped(
            context,
            seq!["open"@, target@, "--focus"@, "true"@],
        ),
        Action::OpenBrowser { direction, url } => spec_scoped(
            context,
            seq![
                "new-pane"@,
                "--type"@,
                "browser"@,
                "--direction"@,
                direction_name(
                    match direction {
                        Some(d) => d,
                        None => Direction::Right,
                    },
                ),
                "--url"@,
                url@,
                "--focus"@,
                "false"@,
            ],
        ),
        Action::RenameTab { name, surface } => spec_scoped(
            context,
            seq!["rename-tab"@, "--surface"@, or_focused(surface, context.surface@), name@],
        ),
        Action::RenameWorkspace { name, workspace } => spec_windowed(
            context,
            seq!["rename-workspace"@, "--workspace"@, or_focused(workspace, context.workspace@), name@],
        ),
        Action::ResizePane { amount, direction, pane } => spec_scoped(
            context,
            seq![
                "resize-pane"@,
                "--pane"@,
                pane@,
                resize_flag(direction),
                "--amount"@,
                decimal(amount as nat),
            ],
        ),
        Action::SelectWorkspace { workspace } => spec_windowed(
            context,
            seq!["select-workspace"@, "--workspace"@, workspace@],
        ),
        Action::Sidebar { action } => spec_scoped(
            context,
            seq!["right-sidebar"@, sidebar_name(action)],
        ),
        Action::SplitSurface { direction, surface } => spec_scoped(
            context,
            seq!["split-off"@, "--surface"@, surface@, direction_name(direction), "--focus"@, "true"@],
        ),
        Action::SwapPanes { pane, target } => spec_scoped(
            context,
            seq!["swap-pane"@, "--pane"@, pane@, "--target-pane"@, target@],
        ),
    }
}

/// The command line of any action names the focused window last: it ends
/// with `--window` and the focused window, so no action reaches past it.
pub proof fn actions_stay_in_the_focused_window(context: Context, action: Action)
    ensures
        spec_arguments(context, action).len() >= 2,
        spec_arguments(context, action)[spec_arguments(context, action).len() - 2] == "--window"@,
        spec_arguments(context, action).last() == context.window@,
{
    let all = spec_arguments(context, action);
    let tail = seq!["--window"@, context.window@];
    assert(all.len() >= 2 && all.skip(all.len() - 2) =~= tail) by {
        match action {
            Action::NewWorkspace { cwd, name } => {
                let args = new_workspace_args(cwd, name);
                assert(all == args + tail);
            },
            _ => {},
        }
    }
    assert(all[all.len() - 2] == all.skip(all.len() - 2)[0]);
    assert(all.last() == all.skip(all.len() - 2)[1]);
}

/// The arguments pass `value` with the option `flag`: the flag occurs, and
/// the argument right after it is `value`.
pub open spec fn passes(args: Seq<Seq<char>>, flag: Seq<char>, value: Seq<char>) -> bool {
    exists|i: int| 0 <= i < args.len() - 1 && #[trigger] args[i] == flag && args[i + 1] == value
}

/// The arguments pass `value` with `flag` where it is present.
pub open spec fn passes_some(args: Seq<Seq<char>>, flag: Seq<char>, value: Option<String>) -> bool {
    match value {
        Some(v) => passes(args, flag, v@),
        None => true,
    }
}

/// Each reference of an action reaches `cmux` behind the option of its kind:
/// a surface after `--surface`, a pane after `--pane` (the second pane of a
/// swap after `--target-pane`), a workspace after `--workspace`, the focused
/// one where the action names none, and the focused window after `--window`.
/// A browser's URL follows `--url`, a new workspace's name and directory
/// follow `--name` and `--cwd`; actions that name no workspace are scoped to
/// the focused one.
pub proof fn references_follow_their_options(context: Context, action: Action)
    ensures
        passes(spec_arguments(context, action), "--window"@, context.window@),
        match action {
            Action::CloseSurface { surface } => passes(
                spec_arguments(context, action),
                "--surface"@,
                or_focused(surface, context.surface@),
            ),
            Action::CloseWorkspace { workspace } => passes(
                spec_arguments(context, action),
                "--workspace"@,
                or_focused(workspace, context.workspace@),
            ),
            Action::FocusPane { pane } => passes(spec_arguments(context, action), "--pane"@, pane@),
            Action::MoveSurface { pane, surface } => {
                &&& passes(spec_arguments(context, action), "--surface"@, surface@)
                &&& passes(spec_arguments(context, action), "--pane"@, pane@)
            },
            Action::NewWorkspace { cwd, name } => {
                &&& passes_some(spec_arguments(context, action), "--cwd"@, cwd)
                &&& passes_some(spec_arguments(context, action), "--name"@, name)
            },
            Action::OpenBrowser { url, .. } => passes(
                spec_arguments(context, action),
                "--url"@,
                url@,
            ),
            Action::RenameTab { surface, .. } => passes(
                spec_arguments(context, action),
                "--surface"@,
                or_focused(surface, context.surface@),
            ),
            Action::RenameWorkspace { workspace, .. } => passes(
                spec_arguments(context, action),
                "--workspace"@,
                or_focused(workspace, context.workspace@),
            ),
            Action::ResizePane { pane, .. } => passes(
                spec_arguments(context, action),
                "--pane"@,
                pane@,
            ),
            Action::SelectWorkspace { workspace } => passes(
                spec_arguments(context, action),
                "--workspace"@,
                workspace@,
            ),
            Action::SplitSurface { surface, .. } => passes(
                spec_arguments(context, action),
                "--surface"@,
                surface@,
            ),
            Action::SwapPanes { pane, target } => {
                &&& passes(spec_arguments(context, action), "--pane"@, pane@)
                &&& passes(spec_arguments(context, action), "--target-pane"@, target@)
            },
            _ => true,
        },
        !(action is CloseWorkspace || action is NewWorkspace || action is RenameWorkspace
            || action is SelectWorkspace) ==> passes(
            spec_arguments(context, action),
            "--workspace"@,
            context.workspace@,
        ),
{
    let args = spec_arguments(context, action);
    actions_stay_in_the_focused_window(context, action);
    assert(args[args.len() - 2] == "--window"@);
    if !(action is CloseWorkspace || action is NewWorkspace || action is RenameWorkspace
        || action is SelectWorkspace) {
        assert(args[args.len() - 4] == "--workspace"@ && args[args.len() - 3]
            == context.workspace@);
    }
    match action {
        Action::CloseSurface { .. } => assert(args[1] == "--surface"@),
        Action::CloseWorkspace { .. } => assert(args[1] == "--workspace"@),
        Action::FocusPane { .. } => assert(args[1] == "--pane"@),
        Action::MoveSurface { .. } => {
            assert(args[1] == "--surface"@);
            assert(args[3] == "--pane"@);
        },
        Action::NewWorkspace { cwd, name } => {
            let base = seq!["new-workspace"@, "--focus"@, "true"@];
            let named = match name {
                Some(n) => base + seq!["--name"@, n@],
                None => base,
            };
            if name is Some {
                assert(args[3] == "--name"@);
            }
            if cwd is Some {
                assert(args[named.len() as int] == "--cwd"@);
            }
        },
        Action::OpenBrowser { .. } => assert(args[5] == "--url"@),
        Action::RenameTab { .. } => assert(args[1] == "--surface"@),
        Action::RenameWorkspace { .. } => assert(args[1] == "--workspace"@),
        Action::ResizePane { .. } => assert(args[1] == "--pane"@),
        Action::SelectWorkspace { .. } => assert(args[1] == "--workspace"@),
        Action::SplitSurface { .. } => assert(args[1] == "--surface"@),
        Action::SwapPanes { .. } => {
            assert(args[1] == "--pane"@);
            assert(args[3] == "--target-pane"@);
        },
        _ => {},
    }
}

/// Panes open, split and grow on the side asked for: a new pane's side
/// follows `--direction` as `left`, `right`, `up` or `down` (a browser with no
/// side opens on the right), a split's side follows the surface, and a
/// resize's `-L`, `-R`, `-U` or `-D` follows the pane.
pub proof fn sides_reach_cmux_as_asked(context: Context, action: Action)
    ensures
        action matches Action::NewTerminal { direction: Direction::Down } ==> passes(
            spec_arguments(context, action),
            "--direction"@,
            "down"@,
        ),
        action matches Action::NewTerminal { direction: Direction::Left } ==> passes(
            spec_arguments(context, action),
            "--direction"@,
            "left"@,
        ),
        action matches Action::NewTerminal { direction: Direction::Right } ==> passes(
            spec_arguments(context, action),
            "--direction"@,
            "right"@,
        ),
        action matches Action::NewTerminal { direction: Direction::Up } ==> passes(
            spec_arguments(context, action),
            "--direction"@,
            "up"@,
        ),
        action matches Action::OpenBrowser { direction: Some(Direction::Down), .. } ==> passes(
            spec_arguments(context, action),
            "--direction"@,
            "down"@,
        ),
        action matches Action::OpenBrowser { direction: Some(Direction::Left), .. } ==> passes(
            spec_arguments(context, action),
            "--direction"@,
            "left"@,
        ),
        action matches Action::OpenBrowser { direction: Some(Direction::Right), .. } ==> passes(
            spec_arguments(context, action),
            "--direction"@,
            "right"@,
        ),
        action matches Action::OpenBrowser { direction: Some(Direction::Up), .. } ==> passes(
            spec_arguments(context, action),
            "--direction"@,
            "up"@,
        ),
        action matches Action::OpenBrowser { direction: None, .. } ==> passes(
            spec_arguments(context, action),
            "--direction"@,
            "right"@,
        ),
        action matches Action::SplitSurface { direction: Direction::Down, surface } ==> passes(
            spec_arguments(context, action),
            surface@,
            "down"@,
        ),
        action matches Action::SplitSurface { direction: Direction::Left, surface } ==> passes(
            spec_arguments(context, action),
            surface@,
            "left"@,
        ),
        action matches Action::SplitSurface { direction: Direction::Right, surface } ==> passes(
            spec_arguments(context, action),
            surface@,
            "right"@,
        ),
        action matches Action::SplitSurface { direction: Direction::Up, surface } ==> passes(
            spec_arguments(context, action),
            surface@,
            "up"@,
        ),
        action matches Action::ResizePane { direction: ResizeDirection::Down, pane, .. } ==> passes(
            spec_arguments(context, action),
            pane@,
            "-D"@,
        ),
        action matches Action::ResizePane { direction: ResizeDirection::Left, pane, .. } ==> passes(
            spec_arguments(context, action),
            pane@,
            "-L"@,
        ),
        action matches Action::ResizePane { direction: ResizeDirection::Right, pane, .. } ==> passes(
            spec_arguments(context, action),
            pane@,
            "-R"@,
        ),
        action matches Action::ResizePane { direction: ResizeDirection::Up, pane, .. } ==> passes(
            spec_arguments(context, action),
            pane@,
            "-U"@,
        ),
{
    let args = spec_arguments(context, action);
    match action {
        Action::NewTerminal { direction } => assert(args[3] == "--direction"@ && args[4]
            == direction_name(direction)),
        Action::OpenBrowser { direction, .. } => assert(args[3] == "--direction"@ && args[4]
            == direction_name(
            match direction {
                Some(d) => d,
                None => Direction::Right,
            },
        )),
        Action::SplitSurface { direction, surface } => assert(args[2] == surface@ && args[3]
            == direction_name(direction)),
        Action::ResizePane { direction, pane, .. } => assert(args[2] == pane@ && args[3]
            == resize_flag(direction)),
        _ => {},
    }
}

/// The views of a list of arguments.
pub open spec fn views(args: Seq<String>) -> Seq<Seq<char>> {
    args.map_values(|s: String| s@)
}

/// Appends one argument.
pub(crate) fn push_arg(args: &mut Vec<String>, arg: String)
    ensures
        views(final(args)@) == views(old(args)@).push(arg@),
{
    args.push(arg);
    assert(views(args@) =~= views(old(args)@).push(arg@));
}

/// An argument from a text.
pub(crate) fn arg(text: &str) -> (s: String)
    ensures
        s@ == text@,
{
    text.to_owned()
}

/// The text of an optional reference, or the focused one.
fn or_default(reference: &Option<String>, focused: &String) -> (s: String)
    ensures
        s@ == or_focused(*reference, focused@),
{
    match reference {
        Some(r) => r.clone(),
        None => focused.clone(),
    }
}

/// The decimal digit `d`.
fn digit(d: u64) -> (c: char)
    requires
        d < 10,
    ensures
        c == digit_char(d as int),
{
    match d {
        0 => '0',
        1 => '1',
        2 => '2',
        3 => '3',
        4 => '4',
        5 => '5',
        6 => '6',
        7 => '7',
        8 => '8',
        _ => '9',
    }
}

/// The decimal numeral of `n`.
pub(crate) fn decimal_chars(n: u64) -> (v: Vec<char>)
    ensures
        v@ == decimal(n as nat),
    decreases n,
{
    if n < 10 {
        let v = vec![digit(n)];
        assert(v@ =~= seq![digit_char(n as int)]);
        v
    } else {
        let mut v = decimal_chars(n / 10);
        v.push(digit(n % 10));
        v
    }
}

/// The `cmux` arguments that carry out `action` in `context`.
pub fn arguments(context: &Context, action: &Action) -> (args: Vec<String>)
    ensures
        views(args@) == spec_arguments(*context, *action),
{
    let mut args: Vec<String> = Vec::new();
    let mut scoped = true;
    match action {
        Action::CloseSurface { surface } => {
            push_arg(&mut args, arg("close-surface"));
            push_arg(&mut args, arg("--surface"));
            push_arg(&mut args, or_default(surface, &context.surface));
        },
        Action::CloseWorkspace { workspace } => {
            push_arg(&mut args, arg("close-workspace"));
            push_arg(&mut args, arg("--workspace"));
            push_arg(&mut args, or_default(workspace, &context.workspace));
            scoped = false;
        },
        Action::Flash => {
            push_arg(&mut args, arg("trigger-flash"));
        },
        Action::FocusPane { pane } => {
            push_arg(&mut args, arg("focus-pane"));
            push_arg(&mut args, arg("--pane"));
            push_arg(&mut args, pane.clone());
        },
        Action::MoveSurface { pane, surface } => {
            push_arg(&mut args, arg("move-surface"));
            push_arg(&mut args, arg("--surface"));
            push_arg(&mut args, surface.clone());
            push_arg(&mut args, arg("--pane"));
            push_arg(&mut args, pane.clone());
        },
        Action::NewTerminal { direction } => {
            push_arg(&mut args, arg("new-pane"));
            push_arg(&mut args, arg("--type"));
            push_arg(&mut args, arg("terminal"));
            push_arg(&mut args, arg("--direction"));
            push_arg(&mut args, arg(direction.as_str()));
            push_arg(&mut args, arg("--focus"));
            push_arg(&mut args, arg("true"));
        },
        Action::NewWorkspace { cwd, name } => {
            push_arg(&mut args, arg("new-workspace"));
            push_arg(&mut args, arg("--focus"));
            push_arg(&mut args, arg("true"));
            let ghost base = views(args@);
            if let Some(name) = name {
                push_arg(&mut args, arg("--name"));
                push_arg(&mut args, name.clone());
            }
            let ghost named = views(args@);
            if let Some(cwd) = cwd {
                push_arg(&mut args, arg("--cwd"));
                push_arg(&mut args, cwd.clone());
            }
            assert(views(args@) =~= new_workspace_args(*cwd, *name));
            scoped = false;
        },
        Action::Open { target } => {
            push_arg(&mut args, arg("open"));
            push_arg(&mut args, target.clone());
            push_arg(&mut args, arg("--focus"));
            push_arg(&mut args, arg("true"));
        },
        Action::OpenBrowser { direction, url } => {
            let direction = match direction {
                Some(d) => *d,
                None => Direction::Right,
            };
            push_arg(&mut args, arg("new-pane"));
            push_arg(&mut args, arg("--type"));
            push_arg(&mut args, arg("browser"));
            push_arg(&mut args, arg("--direction"));
            push_arg(&mut args, arg(direction.as_str()));
            push_arg(&mut args, arg("--url"));
            push_arg(&mut args, url.clone());
            push_arg(&mut args, arg("--focus"));
            push_arg(&mut args, arg("false"));
        },
        Action::RenameTab { name, surface } => {
            push_arg(&mut args, arg("rename-tab"));
            push_arg(&mut args, arg("--surface"));
            push_arg(&mut args, or_default(surface, &context.surface));
            push_arg(&mut args, name.clone());
        },
        Action::RenameWorkspace { name, workspace } => {
            push_arg(&mut args, arg("rename-workspace"));
            push_arg(&mut args, arg("--workspace"));
            push_arg(&mut args, or_default(workspace, &context.workspace));
            push_arg(&mut args, name.clone());
            scoped = false;
        },
        Action::ResizePane { amount, direction, pane } => {
            push_arg(&mut args, arg("resize-pane"));
            push_arg(&mut args, arg("--pane"));
            push_arg(&mut args, pane.clone());
            push_arg(&mut args, arg(direction.flag()));
            push_arg(&mut args, arg("--amount"));
            push_arg(&mut args, crate::text::string_of(&decimal_chars(*amount as u64)));
        },
        Action::SelectWorkspace { workspace } => {
            push_arg(&mut args, arg("select-workspace"));
            push_arg(&mut args, arg("--workspace"));
            push_arg(&mut args, workspace.clone());
            scoped = false;
        },
        Action::Sidebar { action } => {
            push_arg(&mut args, arg("right-sidebar"));
            push_arg(&mut args, arg(action.as_str()));
        },
        Action::SplitSurface { direction, surface } => {
            push_arg(&mut args, arg("split-off"));
            push_arg(&mut args, arg("--surface"));
            push_arg(&mut args, surface.clone());
            push_arg(&mut args, arg(direction.as_str()));
            push_arg(&mut args, arg("--focus"));
            push_arg(&mut args, arg("true"));
        },
        Action::SwapPanes { pane, target } => {
            push_arg(&mut args, arg("swap-pane"));
            push_arg(&mut args, arg("--pane"));
            push_arg(&mut args, pane.clone());
            push_arg(&mut args, arg("--target-pane"));
            push_arg(&mut args, target.clone());
        },
    }
    if scoped {
        scope(context, args)
    } else {
        window(context, args)
    }
}

/// The arguments followed by the focused workspace and window.
fn scope(context: &Context, args: Vec<String>) -> (r: Vec<String>)
    ensures
        views(r@) == spec_scoped(*context, views(args@)),
{
    let mut args = args;
    let ghost before = views(args@);
    push_arg(&mut args, arg("--workspace"));
    push_arg(&mut args, context.workspace.clone());
    push_arg(&mut args, arg("--window"));
    push_arg(&mut args, context.window.clone());
    assert(views(args@) =~= spec_scoped(*context, before));
    args
}

/// The arguments followed by the focused window.
fn window(context: &Context, args: Vec<String>) -> (r: Vec<String>)
    ensures
        views(r@) == spec_windowed(*context, views(args@)),
{
    let mut args = args;
    let ghost before = views(args@);
    push_arg(&mut args, arg("--window"));
    push_arg(&mut args, context.window.clone());
    assert(views(args@) =~= spec_windowed(*context, before));
    args
}


/// The key under which the agent shows its status in the CMUX sidebar.
pub const STATUS_KEY: &'static str = "voice-agent";

/// The `cmux` arguments that post a notification in the focused workspace.
pub open spec fn spec_notify_arguments(context: Context, body: Seq<char>) -> Seq<Seq<char>> {
    seq![
        "notify"@,
        "--title"@,
        "Voice agent"@,
        "--body"@,
        body,
        "--workspace"@,
        context.workspace@,
        "--window"@,
        context.window@,
    ]
}

/// The `cmux` arguments that post `body` as a notification.
pub fn notify_arguments(context: &Context, body: &str) -> (args: Vec<String>)
    ensures
        views(args@) == spec_notify_arguments(*context, body@),
{
    let mut args: Vec<String> = Vec::new();
    push_arg(&mut args, arg("notify"));
    push_arg(&mut args, arg("--title"));
    push_arg(&mut args, arg("Voice agent"));
    push_arg(&mut args, arg("--body"));
    push_arg(&mut args, arg(body));
    push_arg(&mut args, arg("--workspace"));
    push_arg(&mut args, context.workspace.clone());
    push_arg(&mut args, arg("--window"));
    push_arg(&mut args, context.window.clone());
    assert(views(args@) =~= spec_notify_arguments(*context, body@));
    args
}

/// The `cmux` arguments that clear the agent's status in one workspace of
/// one window.
pub open spec fn spec_clear_status(window: Seq<char>, workspace: Seq<char>) -> Seq<Seq<char>> {
    seq!["clear-status"@, STATUS_KEY@, "--workspace"@, workspace, "--window"@, window]
}

/// The command lines that clear the agent's status everywhere, window by
/// window and workspace by workspace, from the `(window, workspaces)`
/// references of `cmux tree --json`.
pub open spec fn spec_clear_statuses(windows: Seq<(Seq<char>, Seq<Seq<char>>)>) -> Seq<
    Seq<Seq<char>>,
>
    decreases windows.len(),
{
    if windows.len() == 0 {
        seq![]
    } else {
        let (window, workspaces) = windows.last();
        spec_clear_statuses(windows.drop_last()) + workspaces.map_values(
            |w: Seq<char>| spec_clear_status(window, w),
        )
    }
}

/// The view of a tree's window references.
pub open spec fn tree_view(windows: Seq<(String, Vec<String>)>) -> Seq<(Seq<char>, Seq<Seq<char>>)> {
    windows.map_values(|w: (String, Vec<String>)| (w.0@, views(w.1@)))
}

/// The view of a list of command lines.
pub open spec fn command_views(commands: Seq<Vec<String>>) -> Seq<Seq<Seq<char>>> {
    commands.map_values(|c: Vec<String>| views(c@))
}

/// The command lines that clear the agent's status in every workspace.
pub fn clear_status_arguments(windows: &Vec<(String, Vec<String>)>) -> (commands: Vec<Vec<String>>)
    ensures
        command_views(commands@) == spec_clear_statuses(tree_view(windows@)),
{
    let mut commands: Vec<Vec<String>> = Vec::new();
    let mut i: usize = 0;
    while i < windows.len()
        invariant
            i <= windows@.len(),
            command_views(commands@) == spec_clear_statuses(tree_view(windows@.take(i as int))),
        decreases windows@.len() - i,
    {
        let window = &windows[i].0;
        let workspaces = &windows[i].1;
        let ghost done = command_views(commands@);
        let mut j: usize = 0;
        while j < workspaces.len()
            invariant
                i < windows@.len(),
                window == &windows@[i as int].0,
                workspaces == &windows@[i as int].1,
                j <= workspaces@.len(),
                command_views(commands@) == done + views(workspaces@).take(j as int).map_values(
                    |w: Seq<char>| spec_clear_status(window@, w),
                ),
            decreases workspaces@.len() - j,
        {
            let mut args: Vec<String> = Vec::new();
            push_arg(&mut args, arg("clear-status"));
            push_arg(&mut args, arg(STATUS_KEY));
            push_arg(&mut args, arg("--workspace"));
            push_arg(&mut args, workspaces[j].clone());
            push_arg(&mut args, arg("--window"));
            push_arg(&mut args, window.clone());
            assert(views(args@) =~= spec_clear_status(window@, workspaces@[j as int]@));
            let ghost before = command_views(commands@);
            commands.push(args);
            assert(command_views(commands@) =~= before.push(views(args@)));
            assert(views(workspaces@).take(j + 1) =~= views(workspaces@).take(j as int).push(
                workspaces@[j as int]@,
            ));
            assert(command_views(commands@) =~= done + views(workspaces@).take(j + 1).map_values(
                |w: Seq<char>| spec_clear_status(window@, w),
            ));
            j = j + 1;
        }
        assert(views(workspaces@).take(j as int) =~= views(workspaces@));
        assert(windows@.take(i + 1).drop_last() =~= windows@.take(i as int));
        assert(tree_view(windows@.take(i + 1)).drop_last() =~= tree_view(windows@.take(i as int)));
        assert(tree_view(windows@.take(i + 1)).last() == (window@, views(workspaces@)));
        i = i + 1;
    }
    assert(windows@.take(i as int) =~= windows@);
    commands
}

} // verus!
