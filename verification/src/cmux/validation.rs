//! The checks that an action passes before it is carried out: references must
//! name objects of the focused CMUX tree, texts must be short printable
//! arguments, and closing needs an explicit request.
use super::actions::{or_focused, Action};
use super::Context;
use crate::error::Error;
use crate::text::{
    all_digits_from, any_control, chars_of, concat, contains, has_control, has_prefix, includes,
    is_ascii_digit, lower_all, lowered, same, split_words, starts_with, string_of, utf8_len,
    utf8_longer_than, words_of,
};
use vstd::prelude::*;

verus! {

/// The kinds of reference that an action holds.
#[derive(Clone, Copy, PartialEq, Eq)]
pub enum Kind {
    Pane,
    Surface,
    Workspace,
}

/// The name of a kind of reference in error messages.
pub open spec fn kind_name(kind: Kind) -> Seq<char> {
    match kind {
        Kind::Pane => "pane"@,
        Kind::Surface => "surface"@,
        Kind::Workspace => "workspace"@,
    }
}

/// The prefix of a reference of a kind.
pub open spec fn kind_prefix(kind: Kind) -> Seq<char> {
    match kind {
        Kind::Pane => "pane:"@,
        Kind::Surface => "surface:"@,
        Kind::Workspace => "workspace:"@,
    }
}

/// A reference of the right kind: the kind, a colon and a nonempty number.
pub open spec fn well_formed(value: Seq<char>, kind: Kind) -> bool {
    let prefix = kind_prefix(kind);
    &&& starts_with(value, prefix)
    &&& value.len() > prefix.len()
    &&& forall|k: int| prefix.len() <= k < value.len() ==> is_ascii_digit(value[k])
}

/// The reference is the focused object of its kind.
pub open spec fn is_current(context: Context, value: Seq<char>, kind: Kind) -> bool {
    match kind {
        Kind::Pane => value == context.pane@,
        Kind::Surface => value == context.surface@,
        Kind::Workspace => value == context.workspace@,
    }
}

/// The reference occurs in the tree it is looked up in: workspaces in the
/// window's tree, panes and surfaces in the workspace's tree.
pub open spec fn is_known(context: Context, value: Seq<char>, kind: Kind) -> bool {
    if kind == Kind::Workspace {
        contains(context.workspaces@, value)
    } else {
        contains(context.tree@, value)
    }
}

/// The check of a reference of a kind against the context.
pub open spec fn spec_reference(context: Context, value: Seq<char>, kind: Kind) -> Result<
    (),
    Seq<char>,
> {
    if well_formed(value, kind) && (is_current(context, value, kind) || is_known(
        context,
        value,
        kind,
    )) {
        Ok(())
    } else {
        Err("unknown "@ + kind_name(kind) + " reference: "@ + value)
    }
}

/// The verbs that ask for something to be closed.
pub open spec fn is_destructive_word(word: Seq<char>) -> bool {
    ||| word == "clear"@
    ||| word == "close"@
    ||| word == "delete"@
    ||| word == "kill"@
    ||| word == "quit"@
    ||| word == "remove"@
}

/// The request holds one of those verbs as a word (a run of alphanumeric
/// characters), in any ASCII case.
pub open spec fn asks_to_close(request: Seq<char>) -> bool {
    let words = split_words(request);
    exists|i: int| 0 <= i < words.len() && is_destructive_word(lower_all(#[trigger] words[i]))
}

/// The check that a request asks for what an action closes.
pub open spec fn spec_destructive(request: Seq<char>) -> Result<(), Seq<char>> {
    if asks_to_close(request) {
        Ok(())
    } else {
        Err("a destructive CMUX action was not explicitly requested"@)
    }
}

/// A text argument: nonempty, at most `limit` bytes, not an option, and
/// without control characters.
pub open spec fn spec_text(value: Seq<char>, limit: nat) -> Result<(), Seq<char>> {
    if value.len() == 0 || utf8_len(value) > limit || starts_with(value, "-"@) || has_control(
        value,
    ) {
        Err("invalid CMUX action text"@)
    } else {
        Ok(())
    }
}

/// The first error of two checks, else success.
pub open spec fn then(first: Result<(), Seq<char>>, second: Result<(), Seq<char>>) -> Result<
    (),
    Seq<char>,
> {
    match first {
        Err(e) => Err(e),
        Ok(()) => second,
    }
}

/// What `validate` answers for an action.
pub open spec fn spec_validate(context: Context, request: Seq<char>, action: Action) -> Result<
    (),
    Seq<char>,
> {
    match action {
        Action::CloseSurface { surface } => then(
            spec_destructive(request),
            spec_reference(context, or_focused(surface, context.surface@), Kind::Surface),
        ),
        Action::CloseWorkspace { workspace } => then(
            spec_destructive(request),
            spec_reference(context, or_focused(workspace, context.workspace@), Kind::Workspace),
        ),
        Action::Flash => Ok(()),
        Action::NewTerminal { .. } => Ok(()),
        Action::Sidebar { .. } => Ok(()),
        Action::FocusPane { pane } => spec_reference(context, pane@, Kind::Pane),
        Action::MoveSurface { pane, surface } => then(
            spec_reference(context, pane@, Kind::Pane),
            spec_reference(context, surface@, Kind::Surface),
        ),
        Action::NewWorkspace { cwd, name } => match cwd {
            Some(c) if !starts_with(c@, "/"@) => Err("workspace cwd must be absolute"@),
            _ => match name {
                Some(n) => spec_text(n@, 128),
                None => Ok(()),
            },
        },
        Action::Open { target } => spec_text(target@, 2048),
        Action::OpenBrowser { url, .. } => then(
            spec_text(url@, 2048),
            if starts_with(url@, "http://"@) || starts_with(url@, "https://"@) {
                Ok(())
            } else {
                Err("browser URL must start with http:// or https://"@)
            },
        ),
        Action::RenameTab { name, surface } => then(
            spec_text(name@, 128),
            spec_reference(context, or_focused(surface, context.surface@), Kind::Surface),
        ),
        Action::RenameWorkspace { name, workspace } => then(
            spec_text(name@, 128),
            spec_reference(context, or_focused(workspace, context.workspace@), Kind::Workspace),
        ),
        Action::ResizePane { amount, pane, .. } => if !(1 <= amount <= 100) {
            Err("pane resize amount must be between 1 and 100"@)
        } else {
            spec_reference(context, pane@, Kind::Pane)
        },
        Action::SelectWorkspace { workspace } => spec_reference(context, workspace@, Kind::Workspace),
        Action::SplitSurface { surface, .. } => spec_reference(context, surface@, Kind::Surface),
        Action::SwapPanes { pane, target } => then(
            spec_reference(context, pane@, Kind::Pane),
            spec_reference(context, target@, Kind::Pane),
        ),
    }
}

/// A result of the library by its view.
pub open spec fn unit_result(r: Result<(), Error>) -> Result<(), Seq<char>> {
    match r {
        Ok(()) => Ok(()),
        Err(e) => Err(e.0@),
    }
}

fn fail(message: &str) -> (r: Result<(), Error>)
    ensures
        unit_result(r) == Err::<(), Seq<char>>(message@),
{
    Err(Error(message.to_owned()))
}

/// Checks an action against the focused context and the request it serves.
pub fn validate(context: &Context, request: &str, action: &Action) -> (r: Result<(), Error>)
    ensures
        unit_result(r) == spec_validate(*context, request@, *action),
{
    match action {
        Action::CloseSurface { surface } => {
            let d = destructive(request);
            if d.is_err() {
                return d;
            }
            match surface {
                Some(s) => reference(context, s.as_str(), Kind::Surface),
                None => reference(context, context.surface.as_str(), Kind::Surface),
            }
        },
        Action::CloseWorkspace { workspace } => {
            let d = destructive(request);
            if d.is_err() {
                return d;
            }
            match workspace {
                Some(w) => reference(context, w.as_str(), Kind::Workspace),
                None => reference(context, context.workspace.as_str(), Kind::Workspace),
            }
        },
        Action::Flash => Ok(()),
        Action::NewTerminal { .. } => Ok(()),
        Action::Sidebar { .. } => Ok(()),
        Action::FocusPane { pane } => reference(context, pane.as_str(), Kind::Pane),
        Action::MoveSurface { pane, surface } => {
            let p = reference(context, pane.as_str(), Kind::Pane);
            if p.is_err() {
                return p;
            }
            reference(context, surface.as_str(), Kind::Surface)
        },
        Action::NewWorkspace { cwd, name } => {
            if let Some(cwd) = cwd {
                let slash = chars_of("/");
                if !has_prefix(&chars_of(cwd.as_str()), &slash) {
                    return fail("workspace cwd must be absolute");
                }
            }
            match name {
                Some(name) => text(name.as_str(), 128),
                None => Ok(()),
            }
        },
        Action::Open { target } => text(target.as_str(), 2048),
        Action::OpenBrowser { url, .. } => {
            let t = text(url.as_str(), 2048);
            if t.is_err() {
                return t;
            }
            let url = chars_of(url.as_str());
            if !has_prefix(&url, &chars_of("http://")) && !has_prefix(&url, &chars_of("https://")) {
                return fail("browser URL must start with http:// or https://");
            }
            Ok(())
        },
        Action::RenameTab { name, surface } => {
            let t = text(name.as_str(), 128);
            if t.is_err() {
                return t;
            }
            match surface {
                Some(s) => reference(context, s.as_str(), Kind::Surface),
                None => reference(context, context.surface.as_str(), Kind::Surface),
            }
        },
        Action::RenameWorkspace { name, workspace } => {
            let t = text(name.as_str(), 128);
            if t.is_err() {
                return t;
            }
            match workspace {
                Some(w) => reference(context, w.as_str(), Kind::Workspace),
                None => reference(context, context.workspace.as_str(), Kind::Workspace),
            }
        },
        Action::ResizePane { amount, pane, .. } => {
            if !(1 <= *amount && *amount <= 100) {
                return fail("pane resize amount must be between 1 and 100");
            }
            reference(context, pane.as_str(), Kind::Pane)
        },
        Action::SelectWorkspace { workspace } => reference(
            context,
            workspace.as_str(),
            Kind::Workspace,
        ),
        Action::SplitSurface { surface, .. } => reference(context, surface.as_str(), Kind::Surface),
        Action::SwapPanes { pane, target } => {
            let p = reference(context, pane.as_str(), Kind::Pane);
            if p.is_err() {
                return p;
            }
            reference(context, target.as_str(), Kind::Pane)
        },
    }
}

/// Checks that `value` is a reference of kind `kind` to an object of the
/// focused context.
fn reference(context: &Context, value: &str, kind: Kind) -> (r: Result<(), Error>)
    ensures
        unit_result(r) == spec_reference(*context, value@, kind),
{
    let (name, prefix) = match kind {
        Kind::Pane => (chars_of("pane"), chars_of("pane:")),
        Kind::Surface => (chars_of("surface"), chars_of("surface:")),
        Kind::Workspace => (chars_of("workspace"), chars_of("workspace:")),
    };
    let v = chars_of(value);
    let valid = has_prefix(&v, &prefix) && v.len() > prefix.len() && all_digits_from(
        &v,
        prefix.len(),
    );
    let current = match kind {
        Kind::Pane => same(&v, &chars_of(context.pane.as_str())),
        Kind::Surface => same(&v, &chars_of(context.surface.as_str())),
        Kind::Workspace => same(&v, &chars_of(context.workspace.as_str())),
    };
    let known = match kind {
        Kind::Workspace => includes(&chars_of(context.workspaces.as_str()), &v),
        _ => includes(&chars_of(context.tree.as_str()), &v),
    };
    if !valid || (!current && !known) {
        let message = concat(
            &concat(&concat(&chars_of("unknown "), &name), &chars_of(" reference: ")),
            &v,
        );
        return Err(Error(string_of(&message)));
    }
    Ok(())
}

/// Checks that the request asks for something to be closed.
fn destructive(request: &str) -> (r: Result<(), Error>)
    ensures
        unit_result(r) == spec_destructive(request@),
{
    let words = words_of(&chars_of(request));
    let ghost all = words@.map_values(|p: Vec<char>| p@);
    let verbs = [
        chars_of("clear"),
        chars_of("close"),
        chars_of("delete"),
        chars_of("kill"),
        chars_of("quit"),
        chars_of("remove"),
    ];
    let mut i: usize = 0;
    while i < words.len()
        invariant
            i <= words.len(),
            all == words@.map_values(|p: Vec<char>| p@),
            all == split_words(request@),
            verbs@.len() == 6,
            verbs@[0]@ == "clear"@,
            verbs@[1]@ == "close"@,
            verbs@[2]@ == "delete"@,
            verbs@[3]@ == "kill"@,
            verbs@[4]@ == "quit"@,
            verbs@[5]@ == "remove"@,
            forall|k: int| 0 <= k < i ==> !is_destructive_word(lower_all(#[trigger] all[k])),
        decreases words.len() - i,
    {
        let word = lowered(&words[i]);
        assert(all[i as int] == words@[i as int]@);
        let mut j: usize = 0;
        while j < 6
            invariant
                j <= 6,
                i < all.len(),
                all == split_words(request@),
                verbs@.len() == 6,
                verbs@[0]@ == "clear"@,
                verbs@[1]@ == "close"@,
                verbs@[2]@ == "delete"@,
                verbs@[3]@ == "kill"@,
                verbs@[4]@ == "quit"@,
                verbs@[5]@ == "remove"@,
                word@ == lower_all(all[i as int]),
                forall|m: int| 0 <= m < j ==> word@ != verbs@[m]@,
            decreases 6 - j,
        {
            if same(&word, &verbs[j]) {
                assert(is_destructive_word(lower_all(all[i as int])));
                return Ok(());
            }
            j = j + 1;
        }
        i = i + 1;
    }
    fail("a destructive CMUX action was not explicitly requested")
}

/// Checks a text argument against its byte limit.
fn text(value: &str, limit: usize) -> (r: Result<(), Error>)
    ensures
        unit_result(r) == spec_text(value@, limit as nat),
{
    let v = chars_of(value);
    if v.len() == 0 || utf8_longer_than(&v, limit) || has_prefix(&v, &chars_of("-")) || any_control(
        &v,
    ) {
        return fail("invalid CMUX action text");
    }
    Ok(())
}

/// The references that an action names, each with its kind (an absent
/// optional reference stands for the focused object).
pub open spec fn references(context: Context, action: Action) -> Seq<(Seq<char>, Kind)> {
    match action {
        Action::CloseSurface { surface } => seq![(or_focused(surface, context.surface@), Kind::Surface)],
        Action::CloseWorkspace { workspace } => seq![
            (or_focused(workspace, context.workspace@), Kind::Workspace),
        ],
        Action::FocusPane { pane } => seq![(pane@, Kind::Pane)],
        Action::MoveSurface { pane, surface } => seq![(pane@, Kind::Pane), (surface@, Kind::Surface)],
        Action::RenameTab { surface, .. } => seq![(or_focused(surface, context.surface@), Kind::Surface)],
        Action::RenameWorkspace { workspace, .. } => seq![
            (or_focused(workspace, context.workspace@), Kind::Workspace),
        ],
        Action::ResizePane { pane, .. } => seq![(pane@, Kind::Pane)],
        Action::SelectWorkspace { workspace } => seq![(workspace@, Kind::Workspace)],
        Action::SplitSurface { surface, .. } => seq![(surface@, Kind::Surface)],
        Action::SwapPanes { pane, target } => seq![(pane@, Kind::Pane), (target@, Kind::Pane)],
        _ => seq![],
    }
}

/// An action that passes the checks names only objects of the focused
/// context: each reference is well formed and is the focused object of its
/// kind or occurs in the tree it is looked up in.
pub proof fn checked_actions_name_known_objects(context: Context, request: Seq<char>, action: Action)
    requires
        spec_validate(context, request, action) is Ok,
    ensures
        forall|i: int|
            0 <= i < references(context, action).len() ==> {
                let (value, kind) = #[trigger] references(context, action)[i];
                well_formed(value, kind) && (is_current(context, value, kind) || is_known(
                    context,
                    value,
                    kind,
                ))
            },
{
    let refs = references(context, action);
    assert forall|i: int| 0 <= i < refs.len() implies {
        let (value, kind) = #[trigger] refs[i];
        well_formed(value, kind) && (is_current(context, value, kind) || is_known(
            context,
            value,
            kind,
        ))
    } by {
        let (value, kind) = refs[i];
        assert(spec_reference(context, value, kind) is Ok);
    }
}

/// Nothing is closed unless the request asks for it: a surface or a
/// workspace is closed only for a request that holds a closing verb.
pub proof fn closing_is_asked_for(context: Context, request: Seq<char>, action: Action)
    requires
        action is CloseSurface || action is CloseWorkspace,
        spec_validate(context, request, action) is Ok,
    ensures
        asks_to_close(request),
{
}

/// The closing verbs are `clear`, `close`, `delete`, `kill`, `quit` and
/// `remove`: a request asks to close something exactly when one of its words,
/// in any ASCII case, is one of them, and such a request passes the check.
pub proof fn closing_verbs_are_heard(request: Seq<char>)
    ensures
        asks_to_close(request) <==> exists|i: int|
            0 <= i < split_words(request).len() && {
                let word = lower_all(#[trigger] split_words(request)[i]);
                ||| word == "clear"@
                ||| word == "close"@
                ||| word == "delete"@
                ||| word == "kill"@
                ||| word == "quit"@
                ||| word == "remove"@
            },
        asks_to_close(request) <==> spec_destructive(request) is Ok,
{
}

} // verus!
