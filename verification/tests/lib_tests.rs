use std::path::PathBuf;

use git_foreach::config::{Config, Preset};
use git_foreach::keys::{build_keymap, key_to_string, keymap_find, Key, KeyCode, Modifiers};
use git_foreach::output::{LineKind, RepoOutput};
use git_foreach::patterns::{apply_default_checked, check_hits};
use git_foreach::repo::{discover, Repo, RepoDir, RepoStatus};
use git_foreach::runner::{dispatch, permits, release_pgid, Dispatch, Stream};
use git_foreach::events::tree_click_action;
use git_foreach::action::Action;
use git_foreach::text::{is_control, is_whitespace, parse_usize, push_decimal, push_decimal_i32, str_eq, str_lt, substring, trim};
use git_foreach::theme::{IconMode, Icons};
use git_foreach::tree::{NodeRef, TreeView, VisibleRow};

fn dir(fqdn: &str, user: &str, name: &str) -> RepoDir {
    RepoDir {
        fqdn: fqdn.to_string(),
        user: user.to_string(),
        name: name.to_string(),
        path: PathBuf::from(format!("/src/{fqdn}/{user}/{name}")),
    }
}

fn sample() -> Vec<Repo> {
    discover(vec![
        dir("gitlab.com", "carol", "four"),
        dir("github.com", "bob", "three"),
        dir("github.com", "alice", "two"),
        dir("github.com", "alice", "one"),
    ])
}

fn mods(control: bool, alt: bool) -> Modifiers {
    Modifiers { shift: false, control, alt, meta: false, other: false }
}

#[test]
fn trim_strips_both_ends() {
    assert_eq!(trim("  git status \t\n"), "git status");
    assert_eq!(trim("   "), "");
    assert_eq!(trim("a"), "a");
    assert_eq!(trim(" a  b "), "a  b");
}

#[test]
fn substring_takes_chars() {
    assert_eq!(substring("préset", 1, 4), "rés");
    assert_eq!(substring("abc", 2, 2), "");
}

#[test]
fn parse_usize_is_from_str() {
    assert_eq!(parse_usize("42"), Some(42));
    assert_eq!(parse_usize("+7"), Some(7));
    assert_eq!(parse_usize("007"), Some(7));
    assert_eq!(parse_usize(""), None);
    assert_eq!(parse_usize("+"), None);
    assert_eq!(parse_usize("-1"), None);
    assert_eq!(parse_usize("4x"), None);
    assert_eq!(parse_usize(" 4"), None);
    assert_eq!(parse_usize("99999999999999999999999"), None);
}

#[test]
fn decimals_render_like_display() {
    let mut s = String::from("n=");
    push_decimal(&mut s, 0);
    assert_eq!(s, "n=0");
    let mut s = String::new();
    push_decimal(&mut s, 1234567890);
    assert_eq!(s, "1234567890");
    let mut s = String::new();
    push_decimal_i32(&mut s, -128);
    assert_eq!(s, "-128");
    let mut s = String::new();
    push_decimal_i32(&mut s, i32::MIN);
    assert_eq!(s, i32::MIN.to_string());
}

#[test]
fn char_classes() {
    assert!(is_control('\n'));
    assert!(is_control('\u{7f}'));
    assert!(!is_control('a'));
    assert!(is_whitespace(' '));
    assert!(is_whitespace('\u{3000}'));
    assert!(!is_whitespace('x'));
}

#[test]
fn string_order_is_lexicographic() {
    assert!(str_lt("abc", "abd"));
    assert!(str_lt("ab", "abc"));
    assert!(!str_lt("abc", "abc"));
    assert!(!str_lt("b", "abc"));
    assert!(str_lt("B", "a"));
    assert!(str_eq("same", "same"));
    assert!(!str_eq("same", "Same"));
}

#[test]
fn discover_sorts_by_fqdn_user_name() {
    let repos = sample();
    let names: Vec<String> = repos.iter().map(|r| format!("{}/{}/{}", r.fqdn, r.user, r.name)).collect();
    assert_eq!(
        names,
        vec!["github.com/alice/one", "github.com/alice/two", "github.com/bob/three", "gitlab.com/carol/four"]
    );
    assert!(repos.iter().all(|r| !r.checked && r.status == RepoStatus::Idle));
    assert_eq!(repos[0].path, PathBuf::from("/src/github.com/alice/one"));
    assert!(discover(Vec::new()).is_empty());
}

#[test]
fn repo_labels() {
    let repos = sample();
    assert_eq!(repos[2].slug(), "bob/three");
    assert_eq!(repos[2].rel_path(), "github.com/bob/three");
}

#[test]
fn tree_groups_and_flattens() {
    let repos = sample();
    let tree = TreeView::build(&repos);
    assert_eq!(tree.cursor, 0);
    let rows = tree.visible();
    let expect = vec![
        VisibleRow { node: NodeRef::Fqdn(0), indent: 0 },
        VisibleRow { node: NodeRef::User(0, 0), indent: 1 },
        VisibleRow { node: NodeRef::Repo(0), indent: 2 },
        VisibleRow { node: NodeRef::Repo(1), indent: 2 },
        VisibleRow { node: NodeRef::User(0, 1), indent: 1 },
        VisibleRow { node: NodeRef::Repo(2), indent: 2 },
        VisibleRow { node: NodeRef::Fqdn(1), indent: 0 },
        VisibleRow { node: NodeRef::User(1, 0), indent: 1 },
        VisibleRow { node: NodeRef::Repo(3), indent: 2 },
    ];
    assert_eq!(rows, expect);
    assert_eq!(tree.group_label(NodeRef::Fqdn(1)), "gitlab.com");
    assert_eq!(tree.group_label(NodeRef::User(0, 1)), "bob");
    assert_eq!(tree.group_label(NodeRef::Repo(0)), "");
    assert_eq!(tree.repo_ids(NodeRef::Fqdn(0)), vec![0, 1, 2]);
    assert_eq!(tree.repo_ids(NodeRef::User(0, 0)), vec![0, 1]);
    assert_eq!(tree.repo_ids(NodeRef::Repo(3)), vec![3]);
    assert!(tree.repo_ids(NodeRef::Fqdn(9)).is_empty());
}

#[test]
fn tree_folding_and_cursor() {
    let repos = sample();
    let mut tree = TreeView::build(&repos);
    tree.set_expanded(NodeRef::Fqdn(0), false);
    assert!(!tree.is_expanded(NodeRef::Fqdn(0)));
    assert!(tree.is_expanded(NodeRef::User(0, 0)));
    let rows = tree.visible();
    assert_eq!(rows.len(), 4);
    assert_eq!(rows[1].node, NodeRef::Fqdn(1));
    tree.move_cursor(10);
    assert_eq!(tree.cursor, 3);
    assert_eq!(tree.cursor_node(), Some(NodeRef::Repo(3)));
    tree.move_cursor(-10);
    assert_eq!(tree.cursor, 0);
    assert_eq!(tree.cursor_node(), Some(NodeRef::Fqdn(0)));
    // An empty tree leaves the cursor alone.
    let mut empty = TreeView::build(&[]);
    empty.move_cursor(1);
    assert_eq!(empty.cursor, 0);
    assert_eq!(empty.cursor_node(), None);
}

#[test]
fn keys_normalize_to_keymap_strings() {
    let k = |code, control, alt| Key { code, modifiers: mods(control, alt) };
    assert_eq!(key_to_string(k(KeyCode::Char('J'), false, false)).as_deref(), Some("j"));
    assert_eq!(key_to_string(k(KeyCode::Char(' '), false, false)).as_deref(), Some("space"));
    assert_eq!(key_to_string(k(KeyCode::Char('r'), true, false)).as_deref(), Some("ctrl+r"));
    assert_eq!(key_to_string(k(KeyCode::Up, true, true)).as_deref(), Some("ctrl+alt+up"));
    assert_eq!(key_to_string(k(KeyCode::Enter, false, true)).as_deref(), Some("alt+enter"));
    assert_eq!(key_to_string(k(KeyCode::Esc, false, false)).as_deref(), Some("esc"));
    assert_eq!(key_to_string(k(KeyCode::Tab, false, false)), None);
    assert_eq!(key_to_string(k(KeyCode::Other, true, false)), None);
}

#[test]
fn keymap_merges_preset_keys_without_overriding() {
    let mut cfg = Config::default();
    cfg.keymap = vec![("r".to_string(), "rescan".to_string()), ("p".to_string(), "quit".to_string())];
    cfg.presets = vec![
        Preset { label: "pull".to_string(), command: "git pull".to_string(), key: Some("p".to_string()) },
        Preset { label: "status".to_string(), command: "git status".to_string(), key: Some("s".to_string()) },
        Preset { label: "log".to_string(), command: "git log".to_string(), key: None },
        Preset { label: "again".to_string(), command: "git st".to_string(), key: Some("s".to_string()) },
    ];
    let m = build_keymap(&cfg);
    let get = |k: &str| keymap_find(&m, &k.to_string()).map(|i| m[i].1.clone());
    assert_eq!(get("r").as_deref(), Some("rescan"));
    // An explicit keymap entry wins over a preset key.
    assert_eq!(get("p").as_deref(), Some("quit"));
    // The first preset that names a key keeps it.
    assert_eq!(get("s").as_deref(), Some("preset:1"));
    assert_eq!(get("x"), None);
    assert_eq!(m.len(), 3);
}

#[test]
fn default_checked_globs_precheck() {
    let mut repos = sample();
    repos[3].checked = true;
    let patterns = vec!["github.com/alice/*".to_string(), "[".to_string(), "nothing/*".to_string()];
    apply_default_checked(&mut repos, &patterns);
    let checked: Vec<bool> = repos.iter().map(|r| r.checked).collect();
    assert_eq!(checked, vec![true, true, false, true]);
    // Globs match the whole relative path.
    let mut repos = sample();
    apply_default_checked(&mut repos, &vec!["alice".to_string(), "*/bob/*".to_string()]);
    let checked: Vec<bool> = repos.iter().map(|r| r.checked).collect();
    assert_eq!(checked, vec![false, false, true, false]);
}

#[test]
fn output_lines_record_kind() {
    let mut out = RepoOutput::default();
    assert!(out.lines.is_empty() && out.code.is_none() && !out.finished);
    out.push_command("git status");
    out.push_stream(Stream::Stdout, "clean".to_string());
    out.push_stream(Stream::Stderr, "warn".to_string());
    assert_eq!(out.lines.len(), 3);
    assert_eq!(out.lines[0].kind, LineKind::Command);
    assert_eq!(out.lines[0].text, "$ git status");
    assert_eq!(out.lines[1].kind, LineKind::Stdout);
    assert_eq!(out.lines[2].kind, LineKind::Stderr);
    assert_eq!(out.lines[2].text, "warn");
}

#[test]
fn dispatcher_skips_after_cancel() {
    assert_eq!(dispatch(false), Dispatch::Spawn);
    assert_eq!(dispatch(true), Dispatch::Skip);
    let mut pgids = vec![10, 11, 10, 12];
    release_pgid(&mut pgids, 10);
    assert_eq!(pgids, vec![11, 12]);
    release_pgid(&mut pgids, 99);
    assert_eq!(pgids, vec![11, 12]);
}

#[test]
fn icon_sets() {
    let nerd = Icons::new(IconMode::default());
    assert!(nerd.pills);
    assert_eq!(nerd.spinner.len(), 10);
    assert_eq!(nerd.check_on, "\u{f046}");
    let ascii = Icons::new(IconMode::Ascii);
    assert!(!ascii.pills);
    assert_eq!(ascii.spinner, vec!["|", "/", "-", "\\"]);
    assert_eq!(ascii.check_on, "[x]");
    assert_eq!(ascii.check_partial, "[~]");
    assert_eq!(ascii.status_done, "ok");
}

#[test]
fn hits_check_repos_and_keep_marks() {
    let mut repos = sample();
    repos[1].checked = true;
    check_hits(&mut repos, &vec![true, false, false, true]);
    let checked: Vec<bool> = repos.iter().map(|r| r.checked).collect();
    assert_eq!(checked, vec![true, true, false, true]);
    assert_eq!(repos[3].name, "four");
}

#[test]
fn concurrency_permits_at_least_one() {
    assert_eq!(permits(0), 1);
    assert_eq!(permits(1), 1);
    assert_eq!(permits(6), 6);
}

#[test]
fn deep_indent_clicks_keep_their_columns() {
    let repos = sample();
    let tree = TreeView::build(&repos);
    // indent 5: checkbox at rel 10 for a repo, rel 12 for a group.
    assert!(matches!(tree_click_action(&tree, NodeRef::Repo(1), 5, 2, 12), Some(Action::ToggleCheck(NodeRef::Repo(1)))));
    assert!(matches!(tree_click_action(&tree, NodeRef::Repo(1), 5, 2, 13), Some(Action::Focus(1))));
    assert!(tree_click_action(&tree, NodeRef::Repo(1), 5, 2, 11).is_none());
    assert!(matches!(tree_click_action(&tree, NodeRef::Fqdn(0), 5, 2, 14), Some(Action::ToggleCheck(NodeRef::Fqdn(0)))));
    assert!(matches!(tree_click_action(&tree, NodeRef::Fqdn(0), 5, 2, 12), Some(Action::Collapse(NodeRef::Fqdn(0)))));
    assert!(tree_click_action(&tree, NodeRef::Fqdn(0), 5, 2, 1).is_none());
}
