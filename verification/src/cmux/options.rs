//! What the options of a checked action's command line carry: each option
//! that names an object of the CMUX tree is followed by the action's
//! reference of that kind.
use super::actions::{
    decimal, direction_name, or_focused, resize_flag, sidebar_name, spec_arguments, Action,
    Direction, ResizeDirection, SidebarAction,
};
use super::validation::spec_validate;
use super::Context;
use crate::text::starts_with;
use vstd::prelude::*;

verus! {

/// The options of `cmux` that name an object of the tree.
pub open spec fn is_reference_option(s: Seq<char>) -> bool {
    ||| s == "--surface"@
    ||| s == "--pane"@
    ||| s == "--workspace"@
}

/// The surface that an action acts on: the one it names, or the focused one.
pub open spec fn surface_of(context: Context, action: Action) -> Seq<char> {
    match action {
        Action::CloseSurface { surface } => or_focused(surface, context.surface@),
        Action::RenameTab { surface, .. } => or_focused(surface, context.surface@),
        Action::MoveSurface { surface, .. } => surface@,
        Action::SplitSurface { surface, .. } => surface@,
        _ => context.surface@,
    }
}

/// The pane that an action acts on: the one it names, or the focused one.
pub open spec fn pane_of(context: Context, action: Action) -> Seq<char> {
    match action {
        Action::FocusPane { pane } => pane@,
        Action::MoveSurface { pane, .. } => pane@,
        Action::ResizePane { pane, .. } => pane@,
        Action::SwapPanes { pane, .. } => pane@,
        _ => context.pane@,
    }
}

/// The workspace that an action acts on: the one it names, or the focused
/// one.
pub open spec fn workspace_of(context: Context, action: Action) -> Seq<char> {
    match action {
        Action::CloseWorkspace { workspace } => or_focused(workspace, context.workspace@),
        Action::RenameWorkspace { workspace, .. } => or_focused(workspace, context.workspace@),
        Action::SelectWorkspace { workspace } => workspace@,
        _ => context.workspace@,
    }
}

/// Where the argument at `i` is a reference option, the next one is the
/// action's reference of that kind.
pub open spec fn carried_at(
    args: Seq<Seq<char>>,
    i: int,
    context: Context,
    action: Action,
) -> bool {
    &&& args[i] == "--surface"@ ==> args[i + 1] == surface_of(context, action)
    &&& args[i] == "--pane"@ ==> args[i + 1] == pane_of(context, action)
    &&& args[i] == "--workspace"@ ==> args[i + 1] == workspace_of(context, action)
}

/// A text that opens with a character other than `-` is no option.
proof fn lemma_led_by(v: Seq<char>, p: Seq<char>)
    requires
        starts_with(v, p),
        p.len() > 0,
        p[0] != '-',
    ensures
        !is_reference_option(v),
{
    reveal_strlit("--surface");
    reveal_strlit("--pane");
    reveal_strlit("--workspace");
    assert(v.take(p.len() as int)[0] == v[0]);
    assert(v[0] != '-');
    assert("--surface"@[0] == '-' && "--pane"@[0] == '-' && "--workspace"@[0] == '-');
}

/// A nonempty text that does not open with `-` is no option.
proof fn lemma_text_is_no_option(v: Seq<char>)
    requires
        v.len() > 0,
        !starts_with(v, "-"@),
    ensures
        !is_reference_option(v),
{
    reveal_strlit("-");
    reveal_strlit("--surface");
    reveal_strlit("--pane");
    reveal_strlit("--workspace");
    if v[0] == '-' {
        assert(v.take(1) =~= "-"@);
    }
    assert("--surface"@[0] == '-' && "--pane"@[0] == '-' && "--workspace"@[0] == '-');
}

/// A decimal numeral is no option.
proof fn lemma_numeral_is_no_option(n: nat)
    ensures
        decimal(n).len() > 0,
        decimal(n)[0] != '-',
        !is_reference_option(decimal(n)),
    decreases n,
{
    reveal_strlit("--surface");
    reveal_strlit("--pane");
    reveal_strlit("--workspace");
    if n >= 10 {
        lemma_numeral_is_no_option(n / 10);
        assert(decimal(n)[0] == decimal(n / 10)[0]);
    }
    assert("--surface"@[0] == '-' && "--pane"@[0] == '-' && "--workspace"@[0] == '-');
}

/// The three reference options differ from each other.
proof fn lemma_options_differ()
    ensures
        "--surface"@ != "--pane"@,
        "--surface"@ != "--workspace"@,
        "--pane"@ != "--workspace"@,
{
    reveal_strlit("--surface");
    reveal_strlit("--pane");
    reveal_strlit("--workspace");
    assert("--surface"@.len() == 9);
    assert("--pane"@.len() == 6);
    assert("--workspace"@.len() == 11);
}

/// A text that differs from each reference option in its length or in one
/// of its first three characters is none of them.
proof fn lemma_no_option(v: Seq<char>)
    requires
        v.len() < 3 || v[0] != '-' || v[1] != '-' || (v.len() != 9 && v.len() != 6 && v.len()
            != 11) || (v[2] != 's' && v[2] != 'p' && v[2] != 'w') || (v.len() == 9 && v[2] != 's')
            || (v.len() == 6 && v[2] != 'p') || (v.len() == 11 && v[2] != 'w'),
    ensures
        !is_reference_option(v),
{
    reveal_strlit("--surface");
    reveal_strlit("--pane");
    reveal_strlit("--workspace");
    let s = "--surface"@;
    let p = "--pane"@;
    let w = "--workspace"@;
    assert(s.len() == 9 && s[0] == '-' && s[1] == '-' && s[2] == 's');
    assert(p.len() == 6 && p[0] == '-' && p[1] == '-' && p[2] == 'p');
    assert(w.len() == 11 && w[0] == '-' && w[1] == '-' && w[2] == 'w');
    if v == s || v == p || v == w {
        assert(v.len() >= 3);
    }
}

/// The names of directions, resize sides and sidebar actions are no options.
proof fn lemma_names_are_no_options()
    ensures
        forall|d: Direction| !is_reference_option(#[trigger] direction_name(d)),
        forall|r: ResizeDirection| !is_reference_option(#[trigger] resize_flag(r)),
        forall|s: SidebarAction| !is_reference_option(#[trigger] sidebar_name(s)),
{
    reveal_strlit("--surface");
    reveal_strlit("--pane");
    reveal_strlit("--workspace");
    reveal_strlit("down");
    reveal_strlit("left");
    reveal_strlit("right");
    reveal_strlit("up");
    reveal_strlit("-D");
    reveal_strlit("-L");
    reveal_strlit("-R");
    reveal_strlit("-U");
    reveal_strlit("focus");
    reveal_strlit("hide");
    reveal_strlit("show");
    reveal_strlit("toggle");
    assert forall|d: Direction| !is_reference_option(#[trigger] direction_name(d)) by {
        match d {
            Direction::Down => lemma_no_option("down"@),
            Direction::Left => lemma_no_option("left"@),
            Direction::Right => lemma_no_option("right"@),
            Direction::Up => lemma_no_option("up"@),
        }
    }
    assert forall|r: ResizeDirection| !is_reference_option(#[trigger] resize_flag(r)) by {
        match r {
            ResizeDirection::Down => lemma_no_option("-D"@),
            ResizeDirection::Left => lemma_no_option("-L"@),
            ResizeDirection::Right => lemma_no_option("-R"@),
            ResizeDirection::Up => lemma_no_option("-U"@),
        }
    }
    assert forall|s: SidebarAction| !is_reference_option(#[trigger] sidebar_name(s)) by {
        match s {
            SidebarAction::Focus => lemma_no_option("focus"@),
            SidebarAction::Hide => lemma_no_option("hide"@),
            SidebarAction::Show => lemma_no_option("show"@),
            SidebarAction::Toggle => lemma_no_option("toggle"@),
        }
    }
}


/// The options of the command line of a checked `CloseSurface` carry its references.
proof fn lemma_close_surface(context: Context, request: Seq<char>, action: Action)
    requires
        action is CloseSurface,
        spec_validate(context, request, action) is Ok,
        !is_reference_option(context.workspace@),
    ensures
        forall|i: int|
            0 <= i < spec_arguments(context, action).len() - 1 ==> #[trigger] carried_at(
                spec_arguments(context, action),
                i,
                context,
                action,
            ),
{
    lemma_names_are_no_options();
    lemma_options_differ();
    match action {
        Action::CloseSurface { surface } => {
            reveal_strlit("--pane");
            reveal_strlit("--surface");
            reveal_strlit("--window");
            reveal_strlit("--workspace");
            reveal_strlit("close-surface");
            reveal_strlit("surface:");
            let args = spec_arguments(context, action);
            lemma_led_by(or_focused(surface, context.surface@), "surface:"@);
            assert(args.len() == 7);
            assert(args[0] == "close-surface"@);
            lemma_no_option("close-surface"@);
            assert(args[1] == "--surface"@);
            assert(args[2] == surface_of(context, action));
            assert(args[2] == or_focused(surface, context.surface@));
            assert(args[3] == "--workspace"@);
            assert(args[4] == workspace_of(context, action));
            assert(args[4] == context.workspace@);
            assert(args[5] == "--window"@);
            lemma_no_option("--window"@);
            assert(args[6] == context.window@);
            assert(carried_at(args, 0, context, action));
            assert(carried_at(args, 1, context, action));
            assert(carried_at(args, 2, context, action));
            assert(carried_at(args, 3, context, action));
            assert(carried_at(args, 4, context, action));
            assert(carried_at(args, 5, context, action));
            assert forall|i: int| 0 <= i < args.len() - 1 implies carried_at(
                args,
                i,
                context,
                action,
            ) by {
                assert(i == 0 || i == 1 || i == 2 || i == 3 || i == 4 || i == 5);
            }
        },
        _ => {},
    }
}

/// The options of the command line of a checked `CloseWorkspace` carry its references.
proof fn lemma_close_workspace(context: Context, request: Seq<char>, action: Action)
    requires
        action is CloseWorkspace,
        spec_validate(context, request, action) is Ok,
    ensures
        forall|i: int|
            0 <= i < spec_arguments(context, action).len() - 1 ==> #[trigger] carried_at(
                spec_arguments(context, action),
                i,
                context,
                action,
            ),
{
    lemma_names_are_no_options();
    lemma_options_differ();
    match action {
        Action::CloseWorkspace { workspace } => {
            reveal_strlit("--pane");
            reveal_strlit("--surface");
            reveal_strlit("--window");
            reveal_strlit("--workspace");
            reveal_strlit("close-workspace");
            reveal_strlit("workspace:");
            let args = spec_arguments(context, action);
            lemma_led_by(or_focused(workspace, context.workspace@), "workspace:"@);
            assert(args.len() == 5);
            assert(args[0] == "close-workspace"@);
            lemma_no_option("close-workspace"@);
            assert(args[1] == "--workspace"@);
            assert(args[2] == workspace_of(context, action));
            assert(args[2] == or_focused(workspace, context.workspace@));
            assert(args[3] == "--window"@);
            lemma_no_option("--window"@);
            assert(args[4] == context.window@);
            assert(carried_at(args, 0, context, action));
            assert(carried_at(args, 1, context, action));
            assert(carried_at(args, 2, context, action));
            assert(carried_at(args, 3, context, action));
            assert forall|i: int| 0 <= i < args.len() - 1 implies carried_at(
                args,
                i,
                context,
                action,
            ) by {
                assert(i == 0 || i == 1 || i == 2 || i == 3);
            }
        },
        _ => {},
    }
}

/// The options of the command line of a checked `Flash` carry its references.
proof fn lemma_flash(context: Context, request: Seq<char>, action: Action)
    requires
        action is Flash,
        spec_validate(context, request, action) is Ok,
        !is_reference_option(context.workspace@),
    ensures
        forall|i: int|
            0 <= i < spec_arguments(context, action).len() - 1 ==> #[trigger] carried_at(
                spec_arguments(context, action),
                i,
                context,
                action,
            ),
{
    lemma_names_are_no_options();
    lemma_options_differ();
    match action {
        Action::Flash  => {
            reveal_strlit("--pane");
            reveal_strlit("--surface");
            reveal_strlit("--window");
            reveal_strlit("--workspace");
            reveal_strlit("trigger-flash");
            let args = spec_arguments(context, action);
            assert(args.len() == 5);
            assert(args[0] == "trigger-flash"@);
            lemma_no_option("trigger-flash"@);
            assert(args[1] == "--workspace"@);
            assert(args[2] == workspace_of(context, action));
            assert(args[2] == context.workspace@);
            assert(args[3] == "--window"@);
            lemma_no_option("--window"@);
            assert(args[4] == context.window@);
            assert(carried_at(args, 0, context, action));
            assert(carried_at(args, 1, context, action));
            assert(carried_at(args, 2, context, action));
            assert(carried_at(args, 3, context, action));
            assert forall|i: int| 0 <= i < args.len() - 1 implies carried_at(
                args,
                i,
                context,
                action,
            ) by {
                assert(i == 0 || i == 1 || i == 2 || i == 3);
            }
        },
        _ => {},
    }
}

/// The options of the command line of a checked `FocusPane` carry its references.
proof fn lemma_focus_pane(context: Context, request: Seq<char>, action: Action)
    requires
        action is FocusPane,
        spec_validate(context, request, action) is Ok,
        !is_reference_option(context.workspace@),
    ensures
        forall|i: int|
            0 <= i < spec_arguments(context, action).len() - 1 ==> #[trigger] carried_at(
                spec_arguments(context, action),
                i,
                context,
                action,
            ),
{
    lemma_names_are_no_options();
    lemma_options_differ();
    match action {
        Action::FocusPane { pane } => {
            reveal_strlit("--pane");
            reveal_strlit("--surface");
            reveal_strlit("--window");
            reveal_strlit("--workspace");
            reveal_strlit("focus-pane");
            reveal_strlit("pane:");
            let args = spec_arguments(context, action);
            lemma_led_by(pane@, "pane:"@);
            assert(args.len() == 7);
            assert(args[0] == "focus-pane"@);
            lemma_no_option("focus-pane"@);
            assert(args[1] == "--pane"@);
            assert(args[2] == pane_of(context, action));
            assert(args[2] == pane@);
            assert(args[3] == "--workspace"@);
            assert(args[4] == workspace_of(context, action));
            assert(args[4] == context.workspace@);
            assert(args[5] == "--window"@);
            lemma_no_option("--window"@);
            assert(args[6] == context.window@);
            assert(carried_at(args, 0, context, action));
            assert(carried_at(args, 1, context, action));
            assert(carried_at(args, 2, context, action));
            assert(carried_at(args, 3, context, action));
            assert(carried_at(args, 4, context, action));
            assert(carried_at(args, 5, context, action));
            assert forall|i: int| 0 <= i < args.len() - 1 implies carried_at(
                args,
                i,
                context,
                action,
            ) by {
                assert(i == 0 || i == 1 || i == 2 || i == 3 || i == 4 || i == 5);
            }
        },
        _ => {},
    }
}

/// The options of the command line of a checked `MoveSurface` carry its references.
proof fn lemma_move_surface(context: Context, request: Seq<char>, action: Action)
    requires
        action is MoveSurface,
        spec_validate(context, request, action) is Ok,
        !is_reference_option(context.workspace@),
    ensures
        forall|i: int|
            0 <= i < spec_arguments(context, action).len() - 1 ==> #[trigger] carried_at(
                spec_arguments(context, action),
                i,
                context,
                action,
            ),
{
    lemma_names_are_no_options();
    lemma_options_differ();
    match action {
        Action::MoveSurface { pane, surface } => {
            reveal_strlit("--pane");
            reveal_strlit("--surface");
            reveal_strlit("--window");
            reveal_strlit("--workspace");
            reveal_strlit("move-surface");
            reveal_strlit("pane:");
            reveal_strlit("surface:");
            let args = spec_arguments(context, action);
            lemma_led_by(surface@, "surface:"@);
            lemma_led_by(pane@, "pane:"@);
            assert(args.len() == 9);
            assert(args[0] == "move-surface"@);
            lemma_no_option("move-surface"@);
            assert(args[1] == "--surface"@);
            assert(args[2] == surface_of(context, action));
            assert(args[2] == surface@);
            assert(args[3] == "--pane"@);
            assert(args[4] == pane_of(context, action));
            assert(args[4] == pane@);
            assert(args[5] == "--workspace"@);
            assert(args[6] == workspace_of(context, action));
            assert(args[6] == context.workspace@);
            assert(args[7] == "--window"@);
            lemma_no_option("--window"@);
            assert(args[8] == context.window@);
            assert(carried_at(args, 0, context, action));
            assert(carried_at(args, 1, context, action));
            assert(carried_at(args, 2, context, action));
            assert(carried_at(args, 3, context, action));
            assert(carried_at(args, 4, context, action));
            assert(carried_at(args, 5, context, action));
            assert(carried_at(args, 6, context, action));
            assert(carried_at(args, 7, context, action));
            assert forall|i: int| 0 <= i < args.len() - 1 implies carried_at(
                args,
                i,
                context,
                action,
            ) by {
                assert(i == 0 || i == 1 || i == 2 || i == 3 || i == 4 || i == 5 || i == 6
                    || i == 7);
            }
        },
        _ => {},
    }
}

/// The options of the command line of a checked `NewTerminal` carry its references.
proof fn lemma_new_terminal(context: Context, request: Seq<char>, action: Action)
    requires
        action is NewTerminal,
        spec_validate(context, request, action) is Ok,
        !is_reference_option(context.workspace@),
    ensures
        forall|i: int|
            0 <= i < spec_arguments(context, action).len() - 1 ==> #[trigger] carried_at(
                spec_arguments(context, action),
                i,
                context,
                action,
            ),
{
    lemma_names_are_no_options();
    lemma_options_differ();
    match action {
        Action::NewTerminal { direction } => {
            reveal_strlit("--direction");
            reveal_strlit("--focus");
            reveal_strlit("--pane");
            reveal_strlit("--surface");
            reveal_strlit("--type");
            reveal_strlit("--window");
            reveal_strlit("--workspace");
            reveal_strlit("new-pane");
            reveal_strlit("terminal");
            reveal_strlit("true");
            let args = spec_arguments(context, action);
            assert(args.len() == 11);
            assert(args[0] == "new-pane"@);
            lemma_no_option("new-pane"@);
            assert(args[1] == "--type"@);
            lemma_no_option("--type"@);
            assert(args[2] == "terminal"@);
            lemma_no_option("terminal"@);
            assert(args[3] == "--direction"@);
            lemma_no_option("--direction"@);
            assert(args[4] == direction_name(direction));
            assert(args[5] == "--focus"@);
            lemma_no_option("--focus"@);
            assert(args[6] == "true"@);
            lemma_no_option("true"@);
            assert(args[7] == "--workspace"@);
            assert(args[8] == workspace_of(context, action));
            assert(args[8] == context.workspace@);
            assert(args[9] == "--window"@);
            lemma_no_option("--window"@);
            assert(args[10] == context.window@);
            assert(carried_at(args, 0, context, action));
            assert(carried_at(args, 1, context, action));
            assert(carried_at(args, 2, context, action));
            assert(carried_at(args, 3, context, action));
            assert(carried_at(args, 4, context, action));
            assert(carried_at(args, 5, context, action));
            assert(carried_at(args, 6, context, action));
            assert(carried_at(args, 7, context, action));
            assert(carried_at(args, 8, context, action));
            assert(carried_at(args, 9, context, action));
            assert forall|i: int| 0 <= i < args.len() - 1 implies carried_at(
                args,
                i,
                context,
                action,
            ) by {
                assert(i == 0 || i == 1 || i == 2 || i == 3 || i == 4 || i == 5 || i == 6
                    || i == 7 || i == 8 || i == 9);
            }
        },
        _ => {},
    }
}

/// The options of the command line of a checked `Open` carry its references.
proof fn lemma_open(context: Context, request: Seq<char>, action: Action)
    requires
        action is Open,
        spec_validate(context, request, action) is Ok,
        !is_reference_option(context.workspace@),
    ensures
        forall|i: int|
            0 <= i < spec_arguments(context, action).len() - 1 ==> #[trigger] carried_at(
                spec_arguments(context, action),
                i,
                context,
                action,
            ),
{
    lemma_names_are_no_options();
    lemma_options_differ();
    match action {
        Action::Open { target } => {
            reveal_strlit("--focus");
            reveal_strlit("--pane");
            reveal_strlit("--surface");
            reveal_strlit("--window");
            reveal_strlit("--workspace");
            reveal_strlit("open");
            reveal_strlit("true");
            let args = spec_arguments(context, action);
            lemma_text_is_no_option(target@);
            assert(args.len() == 8);
            assert(args[0] == "open"@);
            lemma_no_option("open"@);
            assert(args[1] == target@);
            assert(args[2] == "--focus"@);
            lemma_no_option("--focus"@);
            assert(args[3] == "true"@);
            lemma_no_option("true"@);
            assert(args[4] == "--workspace"@);
            assert(args[5] == workspace_of(context, action));
            assert(args[5] == context.workspace@);
            assert(args[6] == "--window"@);
            lemma_no_option("--window"@);
            assert(args[7] == context.window@);
            assert(carried_at(args, 0, context, action));
            assert(carried_at(args, 1, context, action));
            assert(carried_at(args, 2, context, action));
            assert(carried_at(args, 3, context, action));
            assert(carried_at(args, 4, context, action));
            assert(carried_at(args, 5, context, action));
            assert(carried_at(args, 6, context, action));
            assert forall|i: int| 0 <= i < args.len() - 1 implies carried_at(
                args,
                i,
                context,
                action,
            ) by {
                assert(i == 0 || i == 1 || i == 2 || i == 3 || i == 4 || i == 5 || i == 6);
            }
        },
        _ => {},
    }
}

/// The options of the command line of a checked `OpenBrowser` carry its references.
proof fn lemma_open_browser(context: Context, request: Seq<char>, action: Action)
    requires
        action is OpenBrowser,
        spec_validate(context, request, action) is Ok,
        !is_reference_option(context.workspace@),
    ensures
        forall|i: int|
            0 <= i < spec_arguments(context, action).len() - 1 ==> #[trigger] carried_at(
                spec_arguments(context, action),
                i,
                context,
                action,
            ),
{
    lemma_names_are_no_options();
    lemma_options_differ();
    match action {
        Action::OpenBrowser { direction, url } => {
            reveal_strlit("--direction");
            reveal_strlit("--focus");
            reveal_strlit("--pane");
            reveal_strlit("--surface");
            reveal_strlit("--type");
            reveal_strlit("--url");
            reveal_strlit("--window");
            reveal_strlit("--workspace");
            reveal_strlit("browser");
            reveal_strlit("false");
            reveal_strlit("http://");
            reveal_strlit("https://");
            reveal_strlit("new-pane");
            let args = spec_arguments(context, action);
            if starts_with(url@, "https://"@) {
                lemma_led_by(url@, "https://"@);
            } else {
                lemma_led_by(url@, "http://"@);
            }
            assert(args.len() == 13);
            assert(args[0] == "new-pane"@);
            lemma_no_option("new-pane"@);
            assert(args[1] == "--type"@);
            lemma_no_option("--type"@);
            assert(args[2] == "browser"@);
            lemma_no_option("browser"@);
            assert(args[3] == "--direction"@);
            lemma_no_option("--direction"@);
            assert(args[4] == direction_name(
                match direction {
                    Some(d) => d,
                    None => Direction::Right,
                },
            ));
            assert(args[5] == "--url"@);
            lemma_no_option("--url"@);
            assert(args[6] == url@);
            assert(args[7] == "--focus"@);
            lemma_no_option("--focus"@);
            assert(args[8] == "false"@);
            lemma_no_option("false"@);
            assert(args[9] == "--workspace"@);
            assert(args[10] == workspace_of(context, action));
            assert(args[10] == context.workspace@);
            assert(args[11] == "--window"@);
            lemma_no_option("--window"@);
            assert(args[12] == context.window@);
            assert(carried_at(args, 0, context, action));
            assert(carried_at(args, 1, context, action));
            assert(carried_at(args, 2, context, action));
            assert(carried_at(args, 3, context, action));
            assert(carried_at(args, 4, context, action));
            assert(carried_at(args, 5, context, action));
            assert(carried_at(args, 6, context, action));
            assert(carried_at(args, 7, context, action));
            assert(carried_at(args, 8, context, action));
            assert(carried_at(args, 9, context, action));
            assert(carried_at(args, 10, context, action));
            assert(carried_at(args, 11, context, action));
            assert forall|i: int| 0 <= i < args.len() - 1 implies carried_at(
                args,
                i,
                context,
                action,
            ) by {
                assert(i == 0 || i == 1 || i == 2 || i == 3 || i == 4 || i == 5 || i == 6
                    || i == 7 || i == 8 || i == 9 || i == 10 || i == 11);
            }
        },
        _ => {},
    }
}

/// The options of the command line of a checked `RenameTab` carry its references.
proof fn lemma_rename_tab(context: Context, request: Seq<char>, action: Action)
    requires
        action is RenameTab,
        spec_validate(context, request, action) is Ok,
        !is_reference_option(context.workspace@),
    ensures
        forall|i: int|
            0 <= i < spec_arguments(context, action).len() - 1 ==> #[trigger] carried_at(
                spec_arguments(context, action),
                i,
                context,
                action,
            ),
{
    lemma_names_are_no_options();
    lemma_options_differ();
    match action {
        Action::RenameTab { name, surface } => {
            reveal_strlit("--pane");
            reveal_strlit("--surface");
            reveal_strlit("--window");
            reveal_strlit("--workspace");
            reveal_strlit("rename-tab");
            reveal_strlit("surface:");
            let args = spec_arguments(context, action);
            lemma_led_by(or_focused(surface, context.surface@), "surface:"@);
            lemma_text_is_no_option(name@);
            assert(args.len() == 8);
            assert(args[0] == "rename-tab"@);
            lemma_no_option("rename-tab"@);
            assert(args[1] == "--surface"@);
            assert(args[2] == surface_of(context, action));
            assert(args[2] == or_focused(surface, context.surface@));
            assert(args[3] == name@);
            assert(args[4] == "--workspace"@);
            assert(args[5] == workspace_of(context, action));
            assert(args[5] == context.workspace@);
            assert(args[6] == "--window"@);
            lemma_no_option("--window"@);
            assert(args[7] == context.window@);
            assert(carried_at(args, 0, context, action));
            assert(carried_at(args, 1, context, action));
            assert(carried_at(args, 2, context, action));
            assert(carried_at(args, 3, context, action));
            assert(carried_at(args, 4, context, action));
            assert(carried_at(args, 5, context, action));
            assert(carried_at(args, 6, context, action));
            assert forall|i: int| 0 <= i < args.len() - 1 implies carried_at(
                args,
                i,
                context,
                action,
            ) by {
                assert(i == 0 || i == 1 || i == 2 || i == 3 || i == 4 || i == 5 || i == 6);
            }
        },
        _ => {},
    }
}

/// The options of the command line of a checked `RenameWorkspace` carry its references.
proof fn lemma_rename_workspace(context: Context, request: Seq<char>, action: Action)
    requires
        action is RenameWorkspace,
        spec_validate(context, request, action) is Ok,
    ensures
        forall|i: int|
            0 <= i < spec_arguments(context, action).len() - 1 ==> #[trigger] carried_at(
                spec_arguments(context, action),
                i,
                context,
                action,
            ),
{
    lemma_names_are_no_options();
    lemma_options_differ();
    match action {
        Action::RenameWorkspace { name, workspace } => {
            reveal_strlit("--pane");
            reveal_strlit("--surface");
            reveal_strlit("--window");
            reveal_strlit("--workspace");
            reveal_strlit("rename-workspace");
            reveal_strlit("workspace:");
            let args = spec_arguments(context, action);
            lemma_led_by(or_focused(workspace, context.workspace@), "workspace:"@);
            lemma_text_is_no_option(name@);
            assert(args.len() == 6);
            assert(args[0] == "rename-workspace"@);
            lemma_no_option("rename-workspace"@);
            assert(args[1] == "--workspace"@);
            assert(args[2] == workspace_of(context, action));
            assert(args[2] == or_focused(workspace, context.workspace@));
            assert(args[3] == name@);
            assert(args[4] == "--window"@);
            lemma_no_option("--window"@);
            assert(args[5] == context.window@);
            assert(carried_at(args, 0, context, action));
            assert(carried_at(args, 1, context, action));
            assert(carried_at(args, 2, context, action));
            assert(carried_at(args, 3, context, action));
            assert(carried_at(args, 4, context, action));
            assert forall|i: int| 0 <= i < args.len() - 1 implies carried_at(
                args,
                i,
                context,
                action,
            ) by {
                assert(i == 0 || i == 1 || i == 2 || i == 3 || i == 4);
            }
        },
        _ => {},
    }
}

/// The options of the command line of a checked `ResizePane` carry its references.
proof fn lemma_resize_pane(context: Context, request: Seq<char>, action: Action)
    requires
        action is ResizePane,
        spec_validate(context, request, action) is Ok,
        !is_reference_option(context.workspace@),
    ensures
        forall|i: int|
            0 <= i < spec_arguments(context, action).len() - 1 ==> #[trigger] carried_at(
                spec_arguments(context, action),
                i,
                context,
                action,
            ),
{
    lemma_names_are_no_options();
    lemma_options_differ();
    match action {
        Action::ResizePane { amount, direction, pane } => {
            reveal_strlit("--amount");
            reveal_strlit("--pane");
            reveal_strlit("--surface");
            reveal_strlit("--window");
            reveal_strlit("--workspace");
            reveal_strlit("pane:");
            reveal_strlit("resize-pane");
            let args = spec_arguments(context, action);
            lemma_led_by(pane@, "pane:"@);
            lemma_numeral_is_no_option(amount as nat);
            assert(args.len() == 10);
            assert(args[0] == "resize-pane"@);
            lemma_no_option("resize-pane"@);
            assert(args[1] == "--pane"@);
            assert(args[2] == pane_of(context, action));
            assert(args[2] == pane@);
            assert(args[3] == resize_flag(direction));
            assert(args[4] == "--amount"@);
            lemma_no_option("--amount"@);
            assert(args[5] == decimal(amount as nat));
            assert(args[6] == "--workspace"@);
            assert(args[7] == workspace_of(context, action));
            assert(args[7] == context.workspace@);
            assert(args[8] == "--window"@);
            lemma_no_option("--window"@);
            assert(args[9] == context.window@);
            assert(carried_at(args, 0, context, action));
            assert(carried_at(args, 1, context, action));
            assert(carried_at(args, 2, context, action));
            assert(carried_at(args, 3, context, action));
            assert(carried_at(args, 4, context, action));
            assert(carried_at(args, 5, context, action));
            assert(carried_at(args, 6, context, action));
            assert(carried_at(args, 7, context, action));
            assert(carried_at(args, 8, context, action));
            assert forall|i: int| 0 <= i < args.len() - 1 implies carried_at(
                args,
                i,
                context,
                action,
            ) by {
                assert(i == 0 || i == 1 || i == 2 || i == 3 || i == 4 || i == 5 || i == 6
                    || i == 7 || i == 8);
            }
        },
        _ => {},
    }
}

/// The options of the command line of a checked `SelectWorkspace` carry its references.
proof fn lemma_select_workspace(context: Context, request: Seq<char>, action: Action)
    requires
        action is SelectWorkspace,
        spec_validate(context, request, action) is Ok,
    ensures
        forall|i: int|
            0 <= i < spec_arguments(context, action).len() - 1 ==> #[trigger] carried_at(
                spec_arguments(context, action),
                i,
                context,
                action,
            ),
{
    lemma_names_are_no_options();
    lemma_options_differ();
    match action {
        Action::SelectWorkspace { workspace } => {
            reveal_strlit("--pane");
            reveal_strlit("--surface");
            reveal_strlit("--window");
            reveal_strlit("--workspace");
            reveal_strlit("select-workspace");
            reveal_strlit("workspace:");
            let args = spec_arguments(context, action);
            lemma_led_by(workspace@, "workspace:"@);
            assert(args.len() == 5);
            assert(args[0] == "select-workspace"@);
            lemma_no_option("select-workspace"@);
            assert(args[1] == "--workspace"@);
            assert(args[2] == workspace_of(context, action));
            assert(args[2] == workspace@);
            assert(args[3] == "--window"@);
            lemma_no_option("--window"@);
            assert(args[4] == context.window@);
            assert(carried_at(args, 0, context, action));
            assert(carried_at(args, 1, context, action));
            assert(carried_at(args, 2, context, action));
            assert(carried_at(args, 3, context, action));
            assert forall|i: int| 0 <= i < args.len() - 1 implies carried_at(
                args,
                i,
                context,
                action,
            ) by {
                assert(i == 0 || i == 1 || i == 2 || i == 3);
            }
        },
        _ => {},
    }
}

/// The options of the command line of a checked `Sidebar` carry its references.
proof fn lemma_sidebar(context: Context, request: Seq<char>, action: Action)
    requires
        action is Sidebar,
        spec_validate(context, request, action) is Ok,
        !is_reference_option(context.workspace@),
    ensures
        forall|i: int|
            0 <= i < spec_arguments(context, action).len() - 1 ==> #[trigger] carried_at(
                spec_arguments(context, action),
                i,
                context,
                action,
            ),
{
    lemma_names_are_no_options();
    lemma_options_differ();
    match action {
        Action::Sidebar { action: side } => {
            reveal_strlit("--pane");
            reveal_strlit("--surface");
            reveal_strlit("--window");
            reveal_strlit("--workspace");
            reveal_strlit("right-sidebar");
            let args = spec_arguments(context, action);
            assert(args.len() == 6);
            assert(args[0] == "right-sidebar"@);
            lemma_no_option("right-sidebar"@);
            assert(args[1] == sidebar_name(side));
            assert(args[2] == "--workspace"@);
            assert(args[3] == workspace_of(context, action));
            assert(args[3] == context.workspace@);
            assert(args[4] == "--window"@);
            lemma_no_option("--window"@);
            assert(args[5] == context.window@);
            assert(carried_at(args, 0, context, action));
            assert(carried_at(args, 1, context, action));
            assert(carried_at(args, 2, context, action));
            assert(carried_at(args, 3, context, action));
            assert(carried_at(args, 4, context, action));
            assert forall|i: int| 0 <= i < args.len() - 1 implies carried_at(
                args,
                i,
                context,
                action,
            ) by {
                assert(i == 0 || i == 1 || i == 2 || i == 3 || i == 4);
            }
        },
        _ => {},
    }
}

/// The options of the command line of a checked `SplitSurface` carry its references.
proof fn lemma_split_surface(context: Context, request: Seq<char>, action: Action)
    requires
        action is SplitSurface,
        spec_validate(context, request, action) is Ok,
        !is_reference_option(context.workspace@),
    ensures
        forall|i: int|
            0 <= i < spec_arguments(context, action).len() - 1 ==> #[trigger] carried_at(
                spec_arguments(context, action),
                i,
                context,
                action,
            ),
{
    lemma_names_are_no_options();
    lemma_options_differ();
    match action {
        Action::SplitSurface { direction, surface } => {
            reveal_strlit("--focus");
            reveal_strlit("--pane");
            reveal_strlit("--surface");
            reveal_strlit("--window");
            reveal_strlit("--workspace");
            reveal_strlit("split-off");
            reveal_strlit("surface:");
            reveal_strlit("true");
            let args = spec_arguments(context, action);
            lemma_led_by(surface@, "surface:"@);
            assert(args.len() == 10);
            assert(args[0] == "split-off"@);
            lemma_no_option("split-off"@);
            assert(args[1] == "--surface"@);
            assert(args[2] == surface_of(context, action));
            assert(args[2] == surface@);
            assert(args[3] == direction_name(direction));
            assert(args[4] == "--focus"@);
            lemma_no_option("--focus"@);
            assert(args[5] == "true"@);
            lemma_no_option("true"@);
            assert(args[6] == "--workspace"@);
            assert(args[7] == workspace_of(context, action));
            assert(args[7] == context.workspace@);
            assert(args[8] == "--window"@);
            lemma_no_option("--window"@);
            assert(args[9] == context.window@);
            assert(carried_at(args, 0, context, action));
            assert(carried_at(args, 1, context, action));
            assert(carried_at(args, 2, context, action));
            assert(carried_at(args, 3, context, action));
            assert(carried_at(args, 4, context, action));
            assert(carried_at(args, 5, context, action));
            assert(carried_at(args, 6, context, action));
            assert(carried_at(args, 7, context, action));
            assert(carried_at(args, 8, context, action));
            assert forall|i: int| 0 <= i < args.len() - 1 implies carried_at(
                args,
                i,
                context,
                action,
            ) by {
                assert(i == 0 || i == 1 || i == 2 || i == 3 || i == 4 || i == 5 || i == 6
                    || i == 7 || i == 8);
            }
        },
        _ => {},
    }
}

/// The options of the command line of a checked `SwapPanes` carry its references.
proof fn lemma_swap_panes(context: Context, request: Seq<char>, action: Action)
    requires
        action is SwapPanes,
        spec_validate(context, request, action) is Ok,
        !is_reference_option(context.workspace@),
    ensures
        forall|i: int|
            0 <= i < spec_arguments(context, action).len() - 1 ==> #[trigger] carried_at(
                spec_arguments(context, action),
                i,
                context,
                action,
            ),
{
    lemma_names_are_no_options();
    lemma_options_differ();
    match action {
        Action::SwapPanes { pane, target } => {
            reveal_strlit("--pane");
            reveal_strlit("--surface");
            reveal_strlit("--target-pane");
            reveal_strlit("--window");
            reveal_strlit("--workspace");
            reveal_strlit("pane:");
            reveal_strlit("swap-pane");
            let args = spec_arguments(context, action);
            lemma_led_by(pane@, "pane:"@);
            lemma_led_by(target@, "pane:"@);
            assert(args.len() == 9);
            assert(args[0] == "swap-pane"@);
            lemma_no_option("swap-pane"@);
            assert(args[1] == "--pane"@);
            assert(args[2] == pane_of(context, action));
            assert(args[2] == pane@);
            assert(args[3] == "--target-pane"@);
            lemma_no_option("--target-pane"@);
            assert(args[4] == target@);
            assert(args[5] == "--workspace"@);
            assert(args[6] == workspace_of(context, action));
            assert(args[6] == context.workspace@);
            assert(args[7] == "--window"@);
            lemma_no_option("--window"@);
            assert(args[8] == context.window@);
            assert(carried_at(args, 0, context, action));
            assert(carried_at(args, 1, context, action));
            assert(carried_at(args, 2, context, action));
            assert(carried_at(args, 3, context, action));
            assert(carried_at(args, 4, context, action));
            assert(carried_at(args, 5, context, action));
            assert(carried_at(args, 6, context, action));
            assert(carried_at(args, 7, context, action));
            assert forall|i: int| 0 <= i < args.len() - 1 implies carried_at(
                args,
                i,
                context,
                action,
            ) by {
                assert(i == 0 || i == 1 || i == 2 || i == 3 || i == 4 || i == 5 || i == 6
                    || i == 7);
            }
        },
        _ => {},
    }
}

/// The options of the command line of a checked `NewWorkspace` carry its references.
proof fn lemma_new_workspace(context: Context, request: Seq<char>, action: Action)
    requires
        action is NewWorkspace,
        spec_validate(context, request, action) is Ok,
    ensures
        forall|i: int|
            0 <= i < spec_arguments(context, action).len() - 1 ==> #[trigger] carried_at(
                spec_arguments(context, action),
                i,
                context,
                action,
            ),
{
    lemma_options_differ();
    match action {
        Action::NewWorkspace { cwd, name } => match cwd {
            Some(c) => match name {
                Some(n) => {
                    reveal_strlit("--cwd");
                    reveal_strlit("--focus");
                    reveal_strlit("--name");
                    reveal_strlit("--pane");
                    reveal_strlit("--surface");
                    reveal_strlit("--window");
                    reveal_strlit("--workspace");
                    reveal_strlit("/");
                    reveal_strlit("new-workspace");
                    reveal_strlit("true");
                    let args = spec_arguments(context, action);
                    lemma_text_is_no_option(n@);
                    lemma_led_by(c@, "/"@);
                    assert(args.len() == 9);
                    assert(args[0] == "new-workspace"@);
                    lemma_no_option("new-workspace"@);
                    assert(args[1] == "--focus"@);
                    lemma_no_option("--focus"@);
                    assert(args[2] == "true"@);
                    lemma_no_option("true"@);
                    assert(args[3] == "--name"@);
                    lemma_no_option("--name"@);
                    assert(args[4] == n@);
                    assert(args[5] == "--cwd"@);
                    lemma_no_option("--cwd"@);
                    assert(args[6] == c@);
                    assert(args[7] == "--window"@);
                    lemma_no_option("--window"@);
                    assert(args[8] == context.window@);
                    assert(carried_at(args, 0, context, action));
                    assert(carried_at(args, 1, context, action));
                    assert(carried_at(args, 2, context, action));
                    assert(carried_at(args, 3, context, action));
                    assert(carried_at(args, 4, context, action));
                    assert(carried_at(args, 5, context, action));
                    assert(carried_at(args, 6, context, action));
                    assert(carried_at(args, 7, context, action));
                    assert forall|i: int| 0 <= i < args.len() - 1 implies carried_at(
                        args,
                        i,
                        context,
                        action,
                    ) by {
                        assert(i == 0 || i == 1 || i == 2 || i == 3 || i == 4 || i == 5
                            || i == 6 || i == 7);
                    }
                },
                None => {
                    reveal_strlit("--cwd");
                    reveal_strlit("--focus");
                    reveal_strlit("--pane");
                    reveal_strlit("--surface");
                    reveal_strlit("--window");
                    reveal_strlit("--workspace");
                    reveal_strlit("/");
                    reveal_strlit("new-workspace");
                    reveal_strlit("true");
                    let args = spec_arguments(context, action);
                    lemma_led_by(c@, "/"@);
                    assert(args.len() == 7);
                    assert(args[0] == "new-workspace"@);
                    lemma_no_option("new-workspace"@);
                    assert(args[1] == "--focus"@);
                    lemma_no_option("--focus"@);
                    assert(args[2] == "true"@);
                    lemma_no_option("true"@);
                    assert(args[3] == "--cwd"@);
                    lemma_no_option("--cwd"@);
                    assert(args[4] == c@);
                    assert(args[5] == "--window"@);
                    lemma_no_option("--window"@);
                    assert(args[6] == context.window@);
                    assert(carried_at(args, 0, context, action));
                    assert(carried_at(args, 1, context, action));
                    assert(carried_at(args, 2, context, action));
                    assert(carried_at(args, 3, context, action));
                    assert(carried_at(args, 4, context, action));
                    assert(carried_at(args, 5, context, action));
                    assert forall|i: int| 0 <= i < args.len() - 1 implies carried_at(
                        args,
                        i,
                        context,
                        action,
                    ) by {
                        assert(i == 0 || i == 1 || i == 2 || i == 3 || i == 4 || i == 5);
                    }
                },
            },
            None => match name {
                Some(n) => {
                    reveal_strlit("--focus");
                    reveal_strlit("--name");
                    reveal_strlit("--pane");
                    reveal_strlit("--surface");
                    reveal_strlit("--window");
                    reveal_strlit("--workspace");
                    reveal_strlit("new-workspace");
                    reveal_strlit("true");
                    let args = spec_arguments(context, action);
                    lemma_text_is_no_option(n@);
                    assert(args.len() == 7);
                    assert(args[0] == "new-workspace"@);
                    lemma_no_option("new-workspace"@);
                    assert(args[1] == "--focus"@);
                    lemma_no_option("--focus"@);
                    assert(args[2] == "true"@);
                    lemma_no_option("true"@);
                    assert(args[3] == "--name"@);
                    lemma_no_option("--name"@);
                    assert(args[4] == n@);
                    assert(args[5] == "--window"@);
                    lemma_no_option("--window"@);
                    assert(args[6] == context.window@);
                    assert(carried_at(args, 0, context, action));
                    assert(carried_at(args, 1, context, action));
                    assert(carried_at(args, 2, context, action));
                    assert(carried_at(args, 3, context, action));
                    assert(carried_at(args, 4, context, action));
                    assert(carried_at(args, 5, context, action));
                    assert forall|i: int| 0 <= i < args.len() - 1 implies carried_at(
                        args,
                        i,
                        context,
                        action,
                    ) by {
                        assert(i == 0 || i == 1 || i == 2 || i == 3 || i == 4 || i == 5);
                    }
                },
                None => {
                    reveal_strlit("--focus");
                    reveal_strlit("--pane");
                    reveal_strlit("--surface");
                    reveal_strlit("--window");
                    reveal_strlit("--workspace");
                    reveal_strlit("new-workspace");
                    reveal_strlit("true");
                    let args = spec_arguments(context, action);
                    assert(args.len() == 5);
                    assert(args[0] == "new-workspace"@);
                    lemma_no_option("new-workspace"@);
                    assert(args[1] == "--focus"@);
                    lemma_no_option("--focus"@);
                    assert(args[2] == "true"@);
                    lemma_no_option("true"@);
                    assert(args[3] == "--window"@);
                    lemma_no_option("--window"@);
                    assert(args[4] == context.window@);
                    assert(carried_at(args, 0, context, action));
                    assert(carried_at(args, 1, context, action));
                    assert(carried_at(args, 2, context, action));
                    assert(carried_at(args, 3, context, action));
                    assert forall|i: int| 0 <= i < args.len() - 1 implies carried_at(
                        args,
                        i,
                        context,
                        action,
                    ) by {
                        assert(i == 0 || i == 1 || i == 2 || i == 3);
                    }
                },
            },
        },
        _ => {},
    }
}

/// In the command line of a checked action, each `--surface`, `--pane` and
/// `--workspace` option is followed by the action's reference of that kind:
/// the surface, pane or workspace that it names, or the focused one where it
/// names none (where the command line is scoped to the focused workspace,
/// that workspace must not itself be one of those options).
pub proof fn options_carry_the_references(context: Context, request: Seq<char>, action: Action)
    requires
        spec_validate(context, request, action) is Ok,
        !is_reference_option(context.workspace@) || action is CloseWorkspace
            || action is NewWorkspace || action is RenameWorkspace || action is SelectWorkspace,
    ensures
        forall|i: int|
            0 <= i < spec_arguments(context, action).len() - 1 && #[trigger] spec_arguments(
                context,
                action,
            )[i] == "--surface"@ ==> spec_arguments(context, action)[i + 1] == surface_of(
                context,
                action,
            ),
        forall|i: int|
            0 <= i < spec_arguments(context, action).len() - 1 && #[trigger] spec_arguments(
                context,
                action,
            )[i] == "--pane"@ ==> spec_arguments(context, action)[i + 1] == pane_of(
                context,
                action,
            ),
        forall|i: int|
            0 <= i < spec_arguments(context, action).len() - 1 && #[trigger] spec_arguments(
                context,
                action,
            )[i] == "--workspace"@ ==> spec_arguments(context, action)[i + 1] == workspace_of(
                context,
                action,
            ),
{
    let args = spec_arguments(context, action);
    match action {
        Action::CloseSurface { .. } => lemma_close_surface(context, request, action),
        Action::CloseWorkspace { .. } => lemma_close_workspace(context, request, action),
        Action::Flash => lemma_flash(context, request, action),
        Action::FocusPane { .. } => lemma_focus_pane(context, request, action),
        Action::MoveSurface { .. } => lemma_move_surface(context, request, action),
        Action::NewTerminal { .. } => lemma_new_terminal(context, request, action),
        Action::Open { .. } => lemma_open(context, request, action),
        Action::OpenBrowser { .. } => lemma_open_browser(context, request, action),
        Action::RenameTab { .. } => lemma_rename_tab(context, request, action),
        Action::RenameWorkspace { .. } => lemma_rename_workspace(context, request, action),
        Action::ResizePane { .. } => lemma_resize_pane(context, request, action),
        Action::SelectWorkspace { .. } => lemma_select_workspace(context, request, action),
        Action::Sidebar { .. } => lemma_sidebar(context, request, action),
        Action::SplitSurface { .. } => lemma_split_surface(context, request, action),
        Action::SwapPanes { .. } => lemma_swap_panes(context, request, action),
        Action::NewWorkspace { .. } => lemma_new_workspace(context, request, action),
    }
    assert forall|i: int|
        0 <= i < args.len() - 1 && #[trigger] args[i] == "--surface"@ implies args[i + 1]
            == surface_of(context, action) by {
        assert(carried_at(args, i, context, action));
    }
    assert forall|i: int|
        0 <= i < args.len() - 1 && #[trigger] args[i] == "--pane"@ implies args[i + 1] == pane_of(
            context,
            action,
        ) by {
        assert(carried_at(args, i, context, action));
    }
    assert forall|i: int|
        0 <= i < args.len() - 1 && #[trigger] args[i] == "--workspace"@ implies args[i + 1]
            == workspace_of(context, action) by {
        assert(carried_at(args, i, context, action));
    }
}

} // verus!
