//! The context of a working directory that goes with a request: its first
//! entries in order, and the branch of the Git checkout it lies in. Reading
//! the directory and the files of `.git` is the caller's work.
use crate::service::{join_path, path_join};
use crate::text::{
    any_control, chars_of, has_control, has_prefix, same, slice, starts_with, string_of, trim,
    trimmed,
};
use vstd::prelude::*;
use vstd::relations::{sorted_by, total_ordering};
use std::path::Path;

verus! {

/// The directory that holds `path` (`Path::parent`: the path without its
/// last component), or none at a root or an empty path.
pub uninterp spec fn parent_of(path: Seq<char>) -> Option<Seq<char>>;

/// `Path::parent`, as text. The claim is that its result is `parent_of` of
/// the path; nothing more is claimed of it.
#[verifier::external_body]
fn path_parent(path: &str) -> (r: Option<String>)
    ensures
        match r {
            Some(p) => parent_of(path@) == Some(p@),
            None => parent_of(path@) is None,
        },
{
    match Path::new(path).parent() {
        Some(p) => Some(p.to_string_lossy().into_owned()),
        None => None,
    }
}

/// The `k`-th of `Path::ancestors`: the path itself, then each parent in
/// turn, while there is one.
pub open spec fn ancestor(path: Seq<char>, k: nat) -> Option<Seq<char>>
    decreases k,
{
    if k == 0 {
        Some(path)
    } else {
        match ancestor(path, (k - 1) as nat) {
            Some(a) => parent_of(a),
            None => None,
        }
    }
}

/// `present` answered `found` for the `.git` of `dir`.
pub open spec fn git_looked<E: Fn(String) -> bool>(present: E, dir: Seq<char>, found: bool) -> bool {
    exists|p: String| #[trigger] present.ensures((p,), found) && p@ == path_join(dir, ".git"@)
}

/// The first `n` ancestors of `path` hold no `.git`, as `present` answered.
pub open spec fn no_git_before<E: Fn(String) -> bool>(present: E, path: Seq<char>, n: nat) -> bool {
    forall|j: nat|
        j < n ==> (#[trigger] ancestor(path, j) matches Some(a) && git_looked(present, a, false))
}

/// The Git root of `path`: the first of its ancestors that holds a `.git`,
/// as `present` tells; none where none does. The ancestors looked at are at
/// most one more than the path has characters, which is at least as many
/// as it has ancestors.
pub fn git_root<E: Fn(String) -> bool>(path: &str, present: &E) -> (r: Option<String>)
    requires
        forall|p: String| present.requires((p,)),
    ensures
        match r {
            Some(root) => exists|k: nat|
                #[trigger] ancestor(path@, k) == Some(root@) && no_git_before(*present, path@, k)
                    && git_looked(*present, root@, true),
            None => exists|n: nat|
                #[trigger] no_git_before(*present, path@, n) && (ancestor(path@, n) is None || n
                    == path@.len() + 1),
        },
{
    let limit = chars_of(path).len();
    let mut current = path.to_owned();
    let mut left: usize = limit;
    let ghost mut k: nat = 0;
    loop
        invariant
            forall|p: String| present.requires((p,)),
            ancestor(path@, k) == Some(current@),
            no_git_before(*present, path@, k),
            limit == path@.len(),
            k + left == limit,
        decreases left,
    {
        let dot_git = join_path(current.as_str(), ".git");
        let ghost asked = dot_git;
        let found = present(dot_git);
        if found {
            assert(git_looked(*present, current@, true)) by {
                assert(present.ensures((asked,), true));
            }
            return Some(current);
        }
        assert(present.ensures((asked,), false));
        assert(no_git_before(*present, path@, k + 1)) by {
            assert forall|j: nat| j < k + 1 implies (#[trigger] ancestor(path@, j) matches Some(a)
                && git_looked(*present, a, false)) by {
                if j == k {
                    assert(git_looked(*present, current@, false));
                }
            }
        }
        if left == 0 {
            return None;
        }
        match path_parent(current.as_str()) {
            Some(p) => {
                assert(ancestor(path@, k + 1) == Some(p@));
                current = p;
            },
            None => {
                assert(ancestor(path@, k + 1) is None);
                return None;
            },
        }
        left = left - 1;
        proof {
            k = k + 1;
        }
    }
}

/// How many entries the context keeps.
pub const MAX_ENTRIES: usize = 48;

/// How many entries of a directory are looked at.
pub const MAX_SCANNED_ENTRIES: usize = 512;

/// A directory entry as it was read: its name, and whether it is a
/// directory (`None` where its type could not be read).
#[derive(Clone, Debug)]
pub struct Entry {
    pub name: String,
    pub is_dir: Option<bool>,
}

/// The context of a directory.
#[derive(Clone, Debug)]
pub struct DirectoryContext {
    pub entries: Vec<String>,
    pub git_branch: Option<String>,
    pub git_root: Option<String>,
}

/// The order of `String`: byte by byte, which for UTF-8 is character by
/// character, a prefix first.
pub open spec fn text_le(a: Seq<char>, b: Seq<char>) -> bool
    decreases a.len(),
{
    if a.len() == 0 {
        true
    } else if b.len() == 0 {
        false
    } else if a[0] != b[0] {
        a[0] < b[0]
    } else {
        text_le(a.drop_first(), b.drop_first())
    }
}

/// `text_le` as a relation.
pub open spec fn text_order() -> spec_fn(Seq<char>, Seq<char>) -> bool {
    |a: Seq<char>, b: Seq<char>| text_le(a, b)
}

proof fn lemma_text_le_reflexive(a: Seq<char>)
    ensures
        text_le(a, a),
    decreases a.len(),
{
    if a.len() > 0 {
        lemma_text_le_reflexive(a.drop_first());
    }
}

proof fn lemma_text_le_antisymmetric(a: Seq<char>, b: Seq<char>)
    requires
        text_le(a, b),
        text_le(b, a),
    ensures
        a == b,
    decreases a.len(),
{
    if a.len() > 0 && b.len() > 0 {
        if a[0] == b[0] {
            lemma_text_le_antisymmetric(a.drop_first(), b.drop_first());
            assert(a =~= seq![a[0]] + a.drop_first());
            assert(b =~= seq![b[0]] + b.drop_first());
        }
    }
}

proof fn lemma_text_le_transitive(a: Seq<char>, b: Seq<char>, c: Seq<char>)
    requires
        text_le(a, b),
        text_le(b, c),
    ensures
        text_le(a, c),
    decreases a.len(),
{
    if a.len() > 0 && b.len() > 0 && c.len() > 0 {
        if a[0] == b[0] && b[0] == c[0] {
            lemma_text_le_transitive(a.drop_first(), b.drop_first(), c.drop_first());
        }
    }
}

proof fn lemma_text_le_total(a: Seq<char>, b: Seq<char>)
    ensures
        text_le(a, b) || text_le(b, a),
    decreases a.len(),
{
    if a.len() > 0 && b.len() > 0 {
        if a[0] == b[0] {
            lemma_text_le_total(a.drop_first(), b.drop_first());
        }
    }
}

/// The order of texts is total.
pub proof fn text_order_is_total()
    ensures
        total_ordering(text_order()),
{
    let r = text_order();
    assert forall|a: Seq<char>| #[trigger] r(a, a) by {
        lemma_text_le_reflexive(a);
    }
    assert forall|a: Seq<char>, b: Seq<char>| #[trigger] r(a, b) && #[trigger] r(b, a) implies a
        == b by {
        lemma_text_le_antisymmetric(a, b);
    }
    assert forall|a: Seq<char>, b: Seq<char>, c: Seq<char>| #[trigger] r(a, b) && #[trigger] r(
        b,
        c,
    ) implies r(a, c) by {
        lemma_text_le_transitive(a, b, c);
    }
    assert forall|a: Seq<char>, b: Seq<char>| #[trigger] r(a, b) || #[trigger] r(b, a) by {
        lemma_text_le_total(a, b);
    }
}

/// Whether `a` comes first or equals `b` in the order of `String`.
pub fn text_leq(a: &Vec<char>, b: &Vec<char>) -> (r: bool)
    ensures
        r == text_le(a@, b@),
{
    let mut i: usize = 0;
    assert(a@.skip(0) =~= a@);
    assert(b@.skip(0) =~= b@);
    while i < a.len() && i < b.len()
        invariant
            i <= a.len(),
            i <= b.len(),
            forall|k: int| 0 <= k < i ==> a@[k] == b@[k],
            text_le(a@, b@) == text_le(a@.skip(i as int), b@.skip(i as int)),
        decreases a.len() - i,
    {
        assert(a@.skip(i as int)[0] == a@[i as int]);
        assert(b@.skip(i as int)[0] == b@[i as int]);
        if a[i] != b[i] {
            return a[i] < b[i];
        }
        assert(a@.skip(i as int).drop_first() =~= a@.skip(i + 1));
        assert(b@.skip(i as int).drop_first() =~= b@.skip(i + 1));
        i = i + 1;
    }
    i == a.len()
}

/// The name under which an entry is listed: a directory gets a trailing
/// `/`; `.DS_Store`, a name with a control character and an entry that
/// could not be read are left out.
pub open spec fn entry_name(entry: Option<Entry>) -> Option<Seq<char>> {
    match entry {
        None => None,
        Some(e) => if e.name@ == ".DS_Store"@ || has_control(e.name@) {
            None
        } else {
            match e.is_dir {
                None => None,
                Some(true) => Some(e.name@.push('/')),
                Some(false) => Some(e.name@),
            }
        },
    }
}

/// The listed names of the entries, in the order read.
pub open spec fn listed(scanned: Seq<Option<Entry>>) -> Seq<Seq<char>>
    decreases scanned.len(),
{
    if scanned.len() == 0 {
        seq![]
    } else {
        match entry_name(scanned.last()) {
            Some(n) => listed(scanned.drop_last()).push(n),
            None => listed(scanned.drop_last()),
        }
    }
}

/// The entries of the context: the names listed among the first entries
/// read, in the order of `String`, the first of them.
pub open spec fn spec_entries(scanned: Seq<Option<Entry>>) -> Seq<Seq<char>> {
    let names = listed(
        scanned.take(
            if scanned.len() < MAX_SCANNED_ENTRIES {
                scanned.len() as int
            } else {
                MAX_SCANNED_ENTRIES as int
            },
        ),
    );
    names.sort_by(text_order()).take(
        if names.len() < MAX_ENTRIES {
            names.len() as int
        } else {
            MAX_ENTRIES as int
        },
    )
}

/// The views of a list of character vectors.
pub open spec fn char_views(v: Seq<Vec<char>>) -> Seq<Seq<char>> {
    v.map_values(|c: Vec<char>| c@)
}

/// The views of a list of texts.
pub open spec fn text_views(v: Seq<String>) -> Seq<Seq<char>> {
    v.map_values(|s: String| s@)
}

/// The listed name of one entry.
fn name_of(entry: &Option<Entry>) -> (r: Option<Vec<char>>)
    ensures
        match r {
            Some(n) => entry_name(*entry) == Some(n@),
            None => entry_name(*entry) is None,
        },
{
    match entry {
        None => None,
        Some(e) => {
            let name = chars_of(e.name.as_str());
            if same(&name, &chars_of(".DS_Store")) || any_control(&name) {
                return None;
            }
            match e.is_dir {
                None => None,
                Some(true) => {
                    let mut n = name;
                    n.push('/');
                    Some(n)
                },
                Some(false) => Some(name),
            }
        },
    }
}

proof fn lemma_remove_view(v: Seq<Vec<char>>, i: int)
    requires
        0 <= i < v.len(),
    ensures
        char_views(v.remove(i)) == char_views(v).remove(i),
{
    assert(char_views(v.remove(i)) =~= char_views(v).remove(i));
}

/// The names, sorted by selection: each round moves the least remaining
/// name to the end of the result.
fn sorted_names(names: Vec<Vec<char>>) -> (r: Vec<Vec<char>>)
    ensures
        sorted_by(char_views(r@), text_order()),
        char_views(r@).to_multiset() == char_views(names@).to_multiset(),
{
    let mut rest = names;
    let mut out: Vec<Vec<char>> = Vec::new();
    assert(char_views(out@).to_multiset() =~= vstd::multiset::Multiset::empty()) by {
        broadcast use vstd::seq_lib::group_to_multiset_ensures, vstd::multiset::group_multiset_axioms;

        assert(char_views(out@) =~= Seq::<Seq<char>>::empty());
    }
    while rest.len() > 0
        invariant
            forall|i: int, j: int|
                0 <= i < j < out@.len() ==> text_le(#[trigger] out@[i]@, #[trigger] out@[j]@),
            forall|i: int, j: int|
                0 <= i < out@.len() && 0 <= j < rest@.len() ==> text_le(
                    #[trigger] out@[i]@,
                    #[trigger] rest@[j]@,
                ),
            char_views(out@).to_multiset().add(char_views(rest@).to_multiset())
                == char_views(names@).to_multiset(),
        decreases rest.len(),
    {
        let mut least: usize = 0;
        let mut k: usize = 1;
        proof {
            lemma_text_le_reflexive(rest@[0]@);
        }
        while k < rest.len()
            invariant
                0 <= least < rest.len(),
                1 <= k <= rest.len(),
                forall|j: int| 0 <= j < k ==> text_le(rest@[least as int]@, #[trigger] rest@[j]@),
            decreases rest.len() - k,
        {
            proof {
                lemma_text_le_total(rest@[least as int]@, rest@[k as int]@);
            }
            if !text_leq(&rest[least], &rest[k]) {
                assert forall|j: int| 0 <= j <= k implies text_le(
                    rest@[k as int]@,
                    #[trigger] rest@[j]@,
                ) by {
                    if j < k {
                        lemma_text_le_transitive(rest@[k as int]@, rest@[least as int]@, rest@[j]@);
                    } else {
                        lemma_text_le_reflexive(rest@[k as int]@);
                    }
                }
                least = k;
            }
            k = k + 1;
        }
        let ghost before_vec = rest@;
        let ghost before_out = out@;
        let m = rest.remove(least);
        out.push(m);
        proof {
            lemma_remove_view(before_vec, least as int);
            let vr = char_views(before_vec);
            assert(vr[least as int] == m@);
            vstd::seq_lib::to_multiset_remove(vr, least as int);
            vstd::seq_lib::to_multiset_build(char_views(before_out), m@);
            assert(char_views(out@) =~= char_views(before_out).push(m@));
            assert(vr.to_multiset().count(m@) > 0) by {
                vstd::seq_lib::to_multiset_contains(vr, m@);
                assert(vr.contains(m@));
            }
            assert(char_views(out@).to_multiset().add(char_views(rest@).to_multiset())
                =~= char_views(names@).to_multiset());
            assert forall|i: int, j: int|
                0 <= i < out@.len() && 0 <= j < rest@.len() implies text_le(
                #[trigger] out@[i]@,
                #[trigger] rest@[j]@,
            ) by {
                let jj = if j < least { j } else { j + 1 };
                assert(rest@[j] == before_vec[jj]);
                if i < before_out.len() {
                    assert(out@[i] == before_out[i]);
                } else {
                    assert(out@[i] == before_vec[least as int]);
                }
            }
            assert forall|i: int, j: int| 0 <= i < j < out@.len() implies text_le(
                #[trigger] out@[i]@,
                #[trigger] out@[j]@,
            ) by {
                if j == before_out.len() {
                    assert(out@[j] == before_vec[least as int]);
                    assert(out@[i] == before_out[i]);
                } else {
                    assert(out@[i] == before_out[i]);
                    assert(out@[j] == before_out[j]);
                }
            }
        }
    }
    proof {
        broadcast use vstd::seq_lib::group_to_multiset_ensures, vstd::multiset::group_multiset_axioms;

        assert(char_views(rest@) =~= Seq::<Seq<char>>::empty());
        assert(char_views(out@).to_multiset() =~= char_views(names@).to_multiset());
        assert forall|i: int, j: int| 0 <= i < j < char_views(out@).len() implies #[trigger] text_order()(
            char_views(out@)[i],
            char_views(out@)[j],
        ) by {
            assert(text_le(out@[i]@, out@[j]@));
        }
    }
    out
}

/// The entries of the context, from the entries of the directory as read.
pub fn entries(scanned: &Vec<Option<Entry>>) -> (r: Vec<String>)
    ensures
        text_views(r@) == spec_entries(scanned@),
{
    let limit = if scanned.len() < MAX_SCANNED_ENTRIES {
        scanned.len()
    } else {
        MAX_SCANNED_ENTRIES
    };
    let mut names: Vec<Vec<char>> = Vec::new();
    let mut i: usize = 0;
    while i < limit
        invariant
            limit <= scanned@.len(),
            limit <= MAX_SCANNED_ENTRIES,
            limit == scanned@.len() || limit == MAX_SCANNED_ENTRIES,
            i <= limit,
            char_views(names@) == listed(scanned@.take(i as int)),
        decreases limit - i,
    {
        let ghost before = char_views(names@);
        assert(scanned@.take(i + 1).drop_last() =~= scanned@.take(i as int));
        if let Some(n) = name_of(&scanned[i]) {
            names.push(n);
            assert(char_views(names@) =~= before.push(n@));
        }
        i = i + 1;
    }
    let ghost all = char_views(names@);
    let sorted = sorted_names(names);
    proof {
        text_order_is_total();
        all.lemma_sort_by_ensures(text_order());
        vstd::seq_lib::lemma_sorted_unique(char_views(sorted@), all.sort_by(text_order()), text_order());
        vstd::seq_lib::to_multiset_len(all);
        vstd::seq_lib::to_multiset_len(char_views(sorted@));
        assert(all.len() == sorted@.len());
        assert(all == listed(
            scanned@.take(
                if scanned@.len() < MAX_SCANNED_ENTRIES {
                    scanned@.len() as int
                } else {
                    MAX_SCANNED_ENTRIES as int
                },
            ),
        ));
    }
    let keep = if sorted.len() < MAX_ENTRIES {
        sorted.len()
    } else {
        MAX_ENTRIES
    };
    let mut r: Vec<String> = Vec::new();
    let mut j: usize = 0;
    while j < keep
        invariant
            keep <= sorted@.len(),
            j <= keep,
            text_views(r@) == char_views(sorted@).take(j as int),
        decreases keep - j,
    {
        let ghost before = text_views(r@);
        let t = string_of(&sorted[j]);
        r.push(t);
        assert(text_views(r@) =~= before.push(t@));
        assert(char_views(sorted@).take(j + 1) =~= char_views(sorted@).take(j as int).push(
            sorted@[j as int]@,
        ));
        j = j + 1;
    }
    r
}

/// `s` without the prefix `p`, where it starts with it.
pub open spec fn strip_prefix(s: Seq<char>, p: Seq<char>) -> Option<Seq<char>> {
    if starts_with(s, p) {
        Some(s.skip(p.len() as int))
    } else {
        None
    }
}

/// The branch named by the text of `HEAD`: the name after
/// `ref: refs/heads/`, else the whole trimmed text (a detached commit).
pub open spec fn spec_head_branch(head: Seq<char>) -> Seq<char> {
    match strip_prefix(trim(head), "ref: refs/heads/"@) {
        Some(name) => name,
        None => trim(head),
    }
}

/// `v` without the prefix `p`, where it starts with it.
fn without_prefix(v: &Vec<char>, p: &str) -> (r: Option<Vec<char>>)
    ensures
        match r {
            Some(rest) => strip_prefix(v@, p@) == Some(rest@),
            None => strip_prefix(v@, p@) is None,
        },
{
    let prefix = chars_of(p);
    if has_prefix(v, &prefix) {
        Some(slice(v, prefix.len(), v.len()))
    } else {
        None
    }
}

/// The branch named by the text of `HEAD`.
pub fn head_branch(head: &str) -> (r: String)
    ensures
        r@ == spec_head_branch(head@),
{
    let t = trimmed(&chars_of(head));
    match without_prefix(&t, "ref: refs/heads/") {
        Some(name) => string_of(&name),
        None => string_of(&t),
    }
}

/// The Git directory named by a `.git` file: the path after `gitdir: `.
pub open spec fn spec_gitdir(pointer: Seq<char>) -> Option<Seq<char>> {
    strip_prefix(trim(pointer), "gitdir: "@)
}

/// The Git directory named by the text of a `.git` file.
pub fn gitdir(pointer: &str) -> (r: Option<String>)
    ensures
        match r {
            Some(p) => spec_gitdir(pointer@) == Some(p@),
            None => spec_gitdir(pointer@) is None,
        },
{
    match without_prefix(&trimmed(&chars_of(pointer)), "gitdir: ") {
        Some(p) => Some(string_of(&p)),
        None => None,
    }
}

/// `git_dir` is the Git directory of `root`: `.git` where `is_dir` says it
/// is a directory, else the path that `read` gives in the `.git` file.
pub open spec fn found_git_dir<D: Fn(String) -> bool, R: Fn(String) -> Option<String>>(
    root: Seq<char>,
    is_dir: D,
    read: R,
    git_dir: Seq<char>,
) -> bool {
    exists|dot_git: String|
        #![trigger is_dir.ensures((dot_git,), true)]
        #![trigger is_dir.ensures((dot_git,), false)]
        dot_git@ == path_join(root, ".git"@) && (is_dir.ensures((dot_git,), true) && git_dir
            == dot_git@ || is_dir.ensures((dot_git,), false) && exists|pointer: String|
            #[trigger] read.ensures((dot_git,), Some(pointer)) && (spec_gitdir(pointer@) matches Some(
                g,
            ) && git_dir == path_join(root, g)))
}

/// No branch can be read at `root`: `.git` is a file that cannot be read or
/// that names no Git directory, or the Git directory holds no readable `HEAD`.
pub open spec fn no_branch<D: Fn(String) -> bool, R: Fn(String) -> Option<String>>(
    root: Seq<char>,
    is_dir: D,
    read: R,
) -> bool {
    ||| exists|dot_git: String|
        #![trigger is_dir.ensures((dot_git,), false)]
        dot_git@ == path_join(root, ".git"@) && is_dir.ensures((dot_git,), false) && (read.ensures(
            (dot_git,),
            None,
        ) || exists|pointer: String|
            #[trigger] read.ensures((dot_git,), Some(pointer)) && spec_gitdir(pointer@) is None)
    ||| exists|git_dir: Seq<char>, head_path: String|
        #![trigger found_git_dir(root, is_dir, read, git_dir), read.ensures((head_path,), None)]
        found_git_dir(root, is_dir, read, git_dir) && head_path@ == path_join(git_dir, "HEAD"@)
            && read.ensures((head_path,), None)
}

/// The branch read at `root`, `r`: the branch that the `HEAD` of its Git
/// directory names, or none where no branch can be read (see `no_branch`).
pub open spec fn branch_read<D: Fn(String) -> bool, R: Fn(String) -> Option<String>>(
    root: Seq<char>,
    is_dir: D,
    read: R,
    r: Option<String>,
) -> bool {
    match r {
        Some(b) => exists|git_dir: Seq<char>, head_path: String, head: String|
            #![trigger found_git_dir(root, is_dir, read, git_dir), read.ensures((head_path,), Some(head))]
            found_git_dir(root, is_dir, read, git_dir) && head_path@ == path_join(git_dir, "HEAD"@)
                && read.ensures((head_path,), Some(head)) && b@ == spec_head_branch(head@),
        None => no_branch(root, is_dir, read),
    }
}

/// The branch checked out at a Git root: `is_dir` tells whether a path is a
/// directory and `read` reads a file (`None` where it cannot). The Git
/// directory is `.git`, or the one that a `.git` file points to; its `HEAD`
/// names the branch.
pub fn branch<D: Fn(String) -> bool, R: Fn(String) -> Option<String>>(
    root: &str,
    is_dir: &D,
    read: &R,
) -> (r: Option<String>)
    requires
        forall|p: String| is_dir.requires((p,)),
        forall|p: String| read.requires((p,)),
    ensures
        branch_read(root@, *is_dir, *read, r),
{
    let dot_git = join_path(root, ".git");
    let ghost dot = dot_git;
    let git_dir = if is_dir(dot_git.clone()) {
        assert(is_dir.ensures((dot,), true));
        dot_git
    } else {
        assert(is_dir.ensures((dot,), false));
        let pointer = match read(dot_git) {
            Some(p) => p,
            None => {
                assert(read.ensures((dot,), None));
                return None;
            },
        };
        assert(read.ensures((dot,), Some(pointer)));
        let path = match gitdir(pointer.as_str()) {
            Some(p) => p,
            None => return None,
        };
        join_path(root, path.as_str())
    };
    assert(found_git_dir(root@, *is_dir, *read, git_dir@));
    let head_path = join_path(git_dir.as_str(), "HEAD");
    let ghost asked = head_path;
    let head = match read(head_path) {
        Some(h) => h,
        None => {
            assert(read.ensures((asked,), None));
            return None;
        },
    };
    assert(read.ensures((asked,), Some(head)));
    Some(head_branch(head.as_str()))
}

/// The context of a directory, from its entries as read and the Git root
/// found above it (see `branch`).
pub fn directory<D: Fn(String) -> bool, R: Fn(String) -> Option<String>>(
    scanned: &Vec<Option<Entry>>,
    git_root: Option<String>,
    is_dir: &D,
    read: &R,
) -> (c: DirectoryContext)
    requires
        forall|p: String| is_dir.requires((p,)),
        forall|p: String| read.requires((p,)),
    ensures
        text_views(c.entries@) == spec_entries(scanned@),
        c.git_root == git_root,
        git_root is None ==> c.git_branch is None,
        git_root matches Some(root) ==> branch_read(root@, *is_dir, *read, c.git_branch),
{
    let git_branch = match &git_root {
        Some(root) => branch(root.as_str(), is_dir, read),
        None => None,
    };
    DirectoryContext { entries: entries(scanned), git_branch, git_root }
}

/// Every listed name is kept: neither `.DS_Store` nor one with a control
/// character.
pub open spec fn kept_name(name: Seq<char>) -> bool {
    name != ".DS_Store"@ && !has_control(name)
}

proof fn lemma_listed_kept(scanned: Seq<Option<Entry>>)
    ensures
        forall|i: int| 0 <= i < listed(scanned).len() ==> kept_name(#[trigger] listed(scanned)[i]),
    decreases scanned.len(),
{
    if scanned.len() > 0 {
        lemma_listed_kept(scanned.drop_last());
        let rest = listed(scanned.drop_last());
        match entry_name(scanned.last()) {
            Some(n) => {
                let e = scanned.last()->0;
                if e.is_dir == Some(true) {
                    assert(!has_control(n)) by {
                        if has_control(n) {
                            let k = choose|k: int| 0 <= k < n.len() && crate::text::is_control(#[trigger] n[k]);
                            if k < e.name@.len() {
                                assert(n[k] == e.name@[k]);
                            } else {
                                assert(n[k] == '/');
                            }
                        }
                    }
                    assert(n != ".DS_Store"@) by {
                        reveal_strlit(".DS_Store");
                        if n == ".DS_Store"@ {
                            assert(n[n.len() - 1] == '/');
                        }
                    }
                }
                assert forall|i: int| 0 <= i < listed(scanned).len() implies kept_name(
                    #[trigger] listed(scanned)[i],
                ) by {
                    if i < rest.len() {
                        assert(listed(scanned)[i] == rest[i]);
                    }
                }
            },
            None => {},
        }
    }
}

/// The entries of a directory's context are at most 48, in the order of
/// `String`, and none of them is `.DS_Store` or holds a control character.
pub proof fn entries_are_sorted_and_bounded(scanned: Seq<Option<Entry>>)
    ensures
        spec_entries(scanned).len() <= MAX_ENTRIES,
        sorted_by(spec_entries(scanned), text_order()),
        forall|i: int| 0 <= i < spec_entries(scanned).len() ==> kept_name(#[trigger] spec_entries(scanned)[i]),
{
    let names = listed(
        scanned.take(
            if scanned.len() < MAX_SCANNED_ENTRIES {
                scanned.len() as int
            } else {
                MAX_SCANNED_ENTRIES as int
            },
        ),
    );
    text_order_is_total();
    names.lemma_sort_by_ensures(text_order());
    lemma_listed_kept(
        scanned.take(
            if scanned.len() < MAX_SCANNED_ENTRIES {
                scanned.len() as int
            } else {
                MAX_SCANNED_ENTRIES as int
            },
        ),
    );
    let sorted = names.sort_by(text_order());
    vstd::seq_lib::to_multiset_len(names);
    vstd::seq_lib::to_multiset_len(sorted);
    assert forall|i: int| 0 <= i < spec_entries(scanned).len() implies kept_name(
        #[trigger] spec_entries(scanned)[i],
    ) by {
        let x = sorted[i];
        assert(spec_entries(scanned)[i] == x);
        assert(sorted.contains(x));
        if !names.contains(x) {
            assert(!sorted.contains(x));
        }
        let k = choose|k: int| 0 <= k < names.len() && names[k] == x;
        assert(kept_name(names[k]));
    }
}

} // verus!
