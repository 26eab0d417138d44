use fx_line::project::{git_root, 
    branch, directory, entries, gitdir, head_branch, Entry, MAX_ENTRIES,
};

fn entry(name: &str, is_dir: bool) -> Option<Entry> {
    Some(Entry { name: name.into(), is_dir: Some(is_dir) })
}

#[test]
fn entries_are_sorted_marked_and_filtered() {
    let scanned = vec![
        entry("src", true),
        entry("Cargo.toml", false),
        entry(".DS_Store", false),
        entry(".git", true),
        entry("bad\u{7}name", false),
        None,
        Some(Entry { name: "unknown".into(), is_dir: None }),
        entry("README.md", false),
    ];
    assert_eq!(entries(&scanned), [".git/", "Cargo.toml", "README.md", "src/"]);
}

#[test]
fn entries_are_bounded() {
    let scanned: Vec<Option<Entry>> = (0..600).map(|i| entry(&format!("f{i:03}"), false)).rev().collect();
    let kept = entries(&scanned);
    assert_eq!(kept.len(), MAX_ENTRIES);
    let mut sorted = kept.clone();
    sorted.sort();
    assert_eq!(kept, sorted);
    assert_eq!(kept[0], "f088");
}

#[test]
fn the_branch_comes_from_head() {
    assert_eq!(head_branch("ref: refs/heads/main\n"), "main");
    assert_eq!(head_branch(" 0123abcd \n"), "0123abcd");
    assert_eq!(gitdir("gitdir: ../.git/worktrees/x\n"), Some("../.git/worktrees/x".to_string()));
    assert_eq!(gitdir("nonsense"), None);

    let is_dir = |p: String| p == "/repo/.git";
    let read = |p: String| -> Option<String> {
        if p == "/repo/.git/HEAD" { Some("ref: refs/heads/main\n".into()) } else { None }
    };
    assert_eq!(branch("/repo", &is_dir, &read), Some("main".to_string()));

    let no_dir = |_p: String| false;
    let worktree = |p: String| -> Option<String> {
        match p.as_str() {
            "/wt/.git" => Some("gitdir: /repo/.git/worktrees/wt\n".into()),
            "/repo/.git/worktrees/wt/HEAD" => Some("ref: refs/heads/feature\n".into()),
            _ => None,
        }
    };
    assert_eq!(branch("/wt", &no_dir, &worktree), Some("feature".to_string()));
    let nothing = |_p: String| -> Option<String> { None };
    assert_eq!(branch("/none", &no_dir, &nothing), None);
}

#[test]
fn captures_bounded_project_context() {
    let scanned = vec![entry(".git", true), entry("src", true), entry("Cargo.toml", false)];
    let is_dir = |p: String| p == "/p/.git";
    let read = |p: String| -> Option<String> {
        if p == "/p/.git/HEAD" { Some("ref: refs/heads/main\n".into()) } else { None }
    };
    let context = directory(&scanned, Some("/p".into()), &is_dir, &read);
    assert!(context.entries.contains(&".git/".to_string()));
    assert!(context.entries.contains(&"src/".to_string()));
    assert_eq!(context.git_branch.as_deref(), Some("main"));
    assert_eq!(context.git_root.as_deref(), Some("/p"));
    let outside = directory(&vec![], None, &is_dir, &read);
    assert!(outside.entries.is_empty());
    assert_eq!(outside.git_branch, None);
}

#[test]
fn the_git_root_is_the_nearest_ancestor_with_git() {
    let asked = std::cell::RefCell::new(Vec::new());
    let present = |p: String| {
        asked.borrow_mut().push(p.clone());
        p == "/work/repo/.git"
    };
    assert_eq!(git_root("/work/repo/src/bin", &present), Some("/work/repo".to_string()));
    assert_eq!(
        *asked.borrow(),
        ["/work/repo/src/bin/.git", "/work/repo/src/.git", "/work/repo/.git"]
    );
    let nowhere = |_p: String| false;
    assert_eq!(git_root("/work/repo", &nowhere), None);
    assert_eq!(git_root("", &nowhere), None);
}
