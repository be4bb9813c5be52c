use std::path::PathBuf;

use git_foreach::action::Action;
use git_foreach::app::{App, Area, CheckState, Effect, Hit, Pane};
use git_foreach::config::{Config, Preset};
use git_foreach::events::MouseKind;
use git_foreach::keys::{Key, KeyCode, Modifiers};
use git_foreach::output::{LineKind, RepoOutput};
use git_foreach::pieces::chip_pieces;
use git_foreach::repo::{Repo, RepoStatus};
use git_foreach::runner::{RunnerEvent, Stream};
use git_foreach::tree::NodeRef;
use git_foreach::theme::IconMode;
use git_foreach::view::{OutputRow, Tint};

fn repo(fqdn: &str, user: &str, name: &str) -> Repo {
    Repo {
        fqdn: fqdn.to_string(),
        user: user.to_string(),
        name: name.to_string(),
        path: PathBuf::from(format!("/tmp/{fqdn}/{user}/{name}")),
        checked: false,
        status: RepoStatus::Idle,
    }
}

fn sample_repos() -> Vec<Repo> {
    vec![
        repo("github.com", "alice", "one"),
        repo("github.com", "alice", "two"),
        repo("github.com", "bob", "three"),
        repo("gitlab.com", "carol", "four"),
    ]
}

fn app_with(repos: Vec<Repo>) -> App {
    App::from_config(Config::default(), None, repos, Some(4))
}

fn key(code: KeyCode) -> Key {
    Key { code, modifiers: Modifiers { shift: false, control: false, alt: false, meta: false, other: false } }
}

/// What a render of the tree pane records for hit-testing (the tree takes
/// 35% of a 110 x 28 terminal, above the two-row command region).
fn render_hits(app: &mut App) {
    app.begin_frame();
    let tree = Area { x: 0, y: 0, width: 38, height: 26 };
    let output = Area { x: 38, y: 0, width: 72, height: 26 };
    let input = Area { x: 0, y: 26, width: 110, height: 2 };
    app.set_areas(tree, output, input);
    app.register_tree_rows(tree, 0);
}

fn click(app: &mut App, col: u16, row: u16) -> Effect {
    app.on_mouse(MouseKind::LeftDown, col, row)
}

#[test]
fn mouse_click_toggles_checkbox_and_focus() {
    let mut app = app_with(sample_repos());
    render_hits(&mut app);

    // Find the first repo row.
    let (rect, id, text_x, indent) = app
        .hit
        .iter()
        .find_map(|(r, h)| match h {
            Hit::TreeRow { node: NodeRef::Repo(id), text_x, indent, .. } => Some((*r, *id, *text_x, *indent)),
            _ => None,
        })
        .expect("a repo row should be hittable");

    // click the checkbox column → check.
    assert!(!app.repos[id].checked);
    click(&mut app, text_x + indent * 2, rect.y);
    assert!(app.repos[id].checked, "checkbox click should check the repo");

    // click the name column (right of the checkbox) → focus.
    assert_eq!(app.focus, None);
    click(&mut app, text_x + indent * 2 + 5, rect.y);
    assert_eq!(app.focus, Some(id), "name click should focus the repo");
}

#[test]
fn visible_output_slices_window() {
    let mut app = app_with(sample_repos());
    let mut o0 = RepoOutput::default();
    o0.push_command("cmd0");
    for i in 0..5 {
        o0.push_stream(Stream::Stdout, format!("a{i}"));
    }
    app.outputs.insert(0, o0); // box0: header + (1 cmd + 5) + blank = 8
    let mut o1 = RepoOutput::default();
    o1.push_command("cmd1");
    app.outputs.insert(1, o1); // box1: header + 1 + blank = 3

    assert_eq!(app.output_total(), 11);

    let v = app.visible_output(0, 4);
    assert_eq!(v.len(), 4);
    let head: String = match v[0] {
        OutputRow::Header(id) => app.header_pieces(id).into_iter().map(|p| p.text).collect(),
        _ => String::new(),
    };
    assert!(head.contains(&app.repos[0].slug()));

    // box1 starts at idx 8; even a large window yields only the remaining 3 lines.
    let tail = app.visible_output(8, 10);
    assert_eq!(tail.len(), 3);
    assert_eq!(tail, vec![OutputRow::Header(1), OutputRow::Text(1, 0), OutputRow::Blank]);
}

#[test]
fn click_focuses_input_pane() {
    let mut app = app_with(sample_repos());
    render_hits(&mut app);
    assert_eq!(app.active_pane, Pane::Tree);

    let r = app.input_area;
    click(&mut app, r.x + 2, r.y + 1);
    assert_eq!(app.active_pane, Pane::Input);
}

#[test]
fn history_browses_up_and_down_and_restores_draft() {
    let mut app = app_with(Vec::new());
    app.history = vec!["a".into(), "b".into(), "c".into()];
    app.set_input("draft".into(), 5);

    app.history_prev(); // newest first
    assert_eq!(app.input.value, "c");
    app.history_prev();
    assert_eq!(app.input.value, "b");
    app.history_prev();
    assert_eq!(app.input.value, "a");
    app.history_prev(); // clamps at the oldest
    assert_eq!(app.input.value, "a");

    app.history_next();
    assert_eq!(app.input.value, "b");
    app.history_next();
    assert_eq!(app.input.value, "c");
    app.history_next(); // past the newest → the stashed draft
    assert_eq!(app.input.value, "draft");
    app.history_next(); // no draft left, nothing to do
    assert_eq!(app.input.value, "draft");
}

#[test]
fn paste_inserts_at_cursor_and_drops_control_chars() {
    let mut app = app_with(Vec::new());
    app.active_pane = Pane::Input;
    app.set_input("git ".into(), 4);
    app.on_paste("pull\n--rebase".into());
    assert_eq!(app.input.value, "git pull--rebase");

    // Ignored unless the input pane is active.
    app.active_pane = Pane::Tree;
    app.on_paste(" ignored".into());
    assert_eq!(app.input.value, "git pull--rebase");
}

#[test]
fn paste_in_the_middle_moves_the_cursor() {
    let mut app = app_with(Vec::new());
    app.active_pane = Pane::Input;
    app.set_input("gitpull".into(), 3);
    app.on_paste(" \t".into());
    assert_eq!(app.input.value, "git pull");
    assert_eq!(app.input.cursor, 4);
}

#[test]
fn run_command_then_events_settle_statuses() {
    let mut app = app_with(sample_repos());
    app.repos[0].checked = true;
    app.repos[2].checked = true;
    app.set_input("  echo wired-up ".into(), 16);
    let eff = app.apply(Action::Run);
    match eff {
        Effect::StartRun { command, targets, concurrency } => {
            assert_eq!(command, "echo wired-up");
            assert_eq!(targets, vec![0, 2]);
            assert_eq!(concurrency, 4);
        }
        other => panic!("expected a run, got {other:?}"),
    }
    assert!(app.running);
    assert_eq!(app.pending, 2);
    assert_eq!(app.history, vec!["echo wired-up".to_string()]);
    assert_eq!(app.repos[0].status, RepoStatus::Running);
    assert_eq!(app.repos[1].status, RepoStatus::Idle);

    app.handle_event(RunnerEvent::Started { repo: 0, command: "echo wired-up".into() });
    app.handle_event(RunnerEvent::Line { repo: 0, stream: Stream::Stdout, text: "wired-up".into() });
    app.handle_event(RunnerEvent::Finished { repo: 0, code: Some(0) });
    assert!(app.running);
    app.handle_event(RunnerEvent::Skipped { repo: 2 });
    assert!(!app.running, "the run ends after one terminal event per target");

    let out = &app.outputs[&0];
    assert!(out.finished);
    assert_eq!(out.code, Some(0));
    assert!(out.lines.iter().any(|l| l.text == "wired-up"));
    assert_eq!(out.lines[0].text, "$ echo wired-up");
    assert_eq!(out.lines[0].kind, LineKind::Command);
    assert_eq!(app.repos[0].status, RepoStatus::Done(0));
    assert_eq!(app.repos[2].status, RepoStatus::Skipped);
    assert!(app.outputs[&2].finished);
}

#[test]
fn run_needs_a_command_and_a_target() {
    let mut app = app_with(sample_repos());
    app.set_input("   ".into(), 3);
    app.repos[0].checked = true;
    assert!(matches!(app.apply(Action::Run), Effect::Nothing));
    app.set_input("ls".into(), 2);
    app.repos[0].checked = false;
    assert!(matches!(app.apply(Action::Run), Effect::Nothing));
    assert!(app.history.is_empty());
}

#[test]
fn repeated_command_is_recorded_once() {
    let mut app = app_with(sample_repos());
    app.repos[1].checked = true;
    app.set_input("ls".into(), 2);
    app.apply(Action::Run);
    app.handle_event(RunnerEvent::Finished { repo: 1, code: Some(0) });
    app.set_input("ls".into(), 2);
    app.apply(Action::Run);
    assert_eq!(app.history, vec!["ls".to_string()]);
}

#[test]
fn killed_run_is_cancelled_and_errors_fail() {
    let mut app = app_with(sample_repos());
    app.repos[0].checked = true;
    app.repos[1].checked = true;
    app.set_input("sleep 30".into(), 8);
    app.apply(Action::Run);
    app.handle_event(RunnerEvent::Finished { repo: 0, code: None });
    app.handle_event(RunnerEvent::Error { repo: 1, message: "no shell".into() });
    assert_eq!(app.repos[0].status, RepoStatus::Cancelled);
    assert_eq!(app.repos[1].status, RepoStatus::Failed);
    let out = &app.outputs[&1];
    assert_eq!(out.lines.last().unwrap().text, "error: no shell");
    assert_eq!(out.lines.last().unwrap().kind, LineKind::Stderr);
    assert!(!app.running);
}

#[test]
fn rescan_is_refused_while_running() {
    let mut app = app_with(sample_repos());
    app.repos[0].checked = true;
    app.set_input("ls".into(), 2);
    app.apply(Action::Run);
    assert!(matches!(app.apply(Action::Rescan), Effect::Nothing));
    app.handle_event(RunnerEvent::Finished { repo: 0, code: Some(3) });
    assert!(matches!(app.apply(Action::Rescan), Effect::Rescan));
    app.focus = Some(0);
    app.install_repos(vec![repo("x.org", "u", "r")]);
    assert_eq!(app.repos.len(), 1);
    assert!(app.outputs.is_empty());
    assert_eq!(app.focus, None);
}

#[test]
fn toggle_check_on_groups_is_tri_state() {
    let mut app = app_with(sample_repos());
    let fqdn = NodeRef::Fqdn(0);
    assert_eq!(app.check_state(fqdn), CheckState::Unchecked);
    app.apply(Action::ToggleCheck(NodeRef::Repo(0)));
    assert_eq!(app.check_state(fqdn), CheckState::Partial);
    assert_eq!(app.check_state(NodeRef::User(0, 0)), CheckState::Partial);
    app.apply(Action::ToggleCheck(fqdn));
    assert_eq!(app.check_state(fqdn), CheckState::All);
    assert!(app.repos[0].checked && app.repos[1].checked && app.repos[2].checked);
    assert!(!app.repos[3].checked);
    app.apply(Action::ToggleCheck(fqdn));
    assert_eq!(app.check_state(fqdn), CheckState::Unchecked);
    app.apply(Action::CheckAll);
    assert_eq!(app.check_state(NodeRef::Fqdn(1)), CheckState::All);
    app.apply(Action::UncheckAll);
    assert!(app.repos.iter().all(|r| !r.checked));
}

#[test]
fn focus_twice_clears() {
    let mut app = app_with(sample_repos());
    app.apply(Action::Focus(2));
    assert_eq!(app.focus, Some(2));
    app.apply(Action::Focus(2));
    assert_eq!(app.focus, None);
}

#[test]
fn tab_cycles_panes() {
    let mut app = app_with(sample_repos());
    app.on_key(key(KeyCode::Tab));
    assert_eq!(app.active_pane, Pane::Output);
    app.on_key(key(KeyCode::Tab));
    assert_eq!(app.active_pane, Pane::Input);
    app.on_key(key(KeyCode::Tab));
    assert_eq!(app.active_pane, Pane::Tree);
}

#[test]
fn default_keys_move_the_cursor_and_toggle() {
    let mut app = app_with(sample_repos());
    // rows: fqdn0, user alice, one, two, user bob, three, fqdn1, user carol, four
    assert_eq!(app.tree.visible().len(), 9);
    app.on_key(key(KeyCode::Char('j')));
    app.on_key(key(KeyCode::Down));
    assert_eq!(app.tree.cursor, 2);
    assert_eq!(app.tree.cursor_node(), Some(NodeRef::Repo(0)));
    app.on_key(key(KeyCode::Char(' ')));
    assert!(app.repos[0].checked);
    app.on_key(key(KeyCode::Enter));
    assert_eq!(app.focus, Some(0));
    app.on_key(key(KeyCode::Esc));
    assert_eq!(app.focus, None);
    for _ in 0..20 {
        app.on_key(key(KeyCode::Up));
    }
    assert_eq!(app.tree.cursor, 0);
    app.on_key(key(KeyCode::Left));
    assert_eq!(app.tree.visible().len(), 4);
    app.on_key(key(KeyCode::Char('l')));
    assert_eq!(app.tree.visible().len(), 9);
    let shift_a = Key { code: KeyCode::Char('A'), modifiers: Modifiers { shift: true, control: false, alt: false, meta: false, other: false } };
    app.on_key(key(KeyCode::Char('a')));
    assert!(app.repos.iter().all(|r| r.checked));
    app.on_key(shift_a);
    assert!(app.repos.iter().all(|r| !r.checked));
    let ctrl_c = Key { code: KeyCode::Char('c'), modifiers: Modifiers { shift: false, control: true, alt: false, meta: false, other: false } };
    assert!(matches!(app.on_key(ctrl_c), Effect::CancelRun));
    assert!(app.should_quit);
}

#[test]
fn input_pane_keys() {
    let mut app = app_with(sample_repos());
    app.on_key(key(KeyCode::Char('i')));
    assert_eq!(app.active_pane, Pane::Input);
    assert!(matches!(app.on_key(key(KeyCode::Char('q'))), Effect::Nothing));
    assert!(!app.should_quit);
    assert_eq!(app.input.value, "q");
    assert_eq!(app.input.cursor, 1);
    app.on_key(key(KeyCode::Esc));
    assert_eq!(app.active_pane, Pane::Tree);
}

#[test]
fn presets_load_from_their_key_and_the_keymap() {
    let config = Config {
        default_checked: vec!["github.com/alice/*".into(), "[broken".into()],
        icons: git_foreach::theme::IconMode::Ascii,
        keymap: vec![("r".into(), "rescan".into()), ("x".into(), "preset:1".into())],
        presets: vec![
            Preset { label: "pull".into(), command: "git pull --ff-only".into(), key: Some("p".into()) },
            Preset { label: "status".into(), command: "git status -s".into(), key: Some("r".into()) },
        ],
    };
    let mut app = App::from_config(config, None, sample_repos(), None);
    assert_eq!(app.concurrency, 8);
    assert!(app.repos[0].checked && app.repos[1].checked);
    assert!(!app.repos[2].checked && !app.repos[3].checked);
    assert_eq!(app.keymap.len(), 3);
    assert_eq!(app.keymap[2], ("p".to_string(), "preset:0".to_string()));

    app.on_key(key(KeyCode::Char('p')));
    assert_eq!(app.input.value, "git pull --ff-only");
    assert_eq!(app.active_pane, Pane::Input);

    app.active_pane = Pane::Tree;
    app.on_key(key(KeyCode::Char('x')));
    assert_eq!(app.input.value, "git status -s");
    assert_eq!(app.input.cursor, 13);

    // "r" stays bound to rescan: the config keymap wins over the preset key.
    app.active_pane = Pane::Tree;
    assert!(matches!(app.on_key(key(KeyCode::Char('r'))), Effect::Rescan));
}

#[test]
fn named_actions_resolve() {
    let app = app_with(sample_repos());
    assert_eq!(app.resolve_named_action("cursor_down"), Some(Action::CursorDown));
    assert_eq!(app.resolve_named_action("toggle_check"), Some(Action::ToggleCheck(NodeRef::Fqdn(0))));
    assert_eq!(app.resolve_named_action("toggle_expand"), Some(Action::Collapse(NodeRef::Fqdn(0))));
    assert_eq!(app.resolve_named_action("focus"), None);
    assert_eq!(app.resolve_named_action("preset:12"), Some(Action::LoadPreset(12)));
    assert_eq!(app.resolve_named_action("preset:+3"), Some(Action::LoadPreset(3)));
    assert_eq!(app.resolve_named_action("preset:"), None);
    assert_eq!(app.resolve_named_action("preset:x"), None);
    assert_eq!(app.resolve_named_action("preset:99999999999999999999999"), None);
    assert_eq!(app.resolve_named_action("nope"), None);
}

#[test]
fn scroll_actions_saturate() {
    let mut app = app_with(sample_repos());
    app.apply(Action::ScrollUp);
    assert_eq!(app.output_scroll, 0);
    assert!(!app.follow);
    app.apply(Action::ScrollDown);
    assert_eq!(app.output_scroll, 3);
    app.output_scroll = u16::MAX - 1;
    app.apply(Action::ScrollDown);
    assert_eq!(app.output_scroll, u16::MAX);
    app.apply(Action::ScrollBottom);
    assert!(app.follow);
    app.apply(Action::ScrollTop);
    assert_eq!(app.output_scroll, 0);
}

#[test]
fn wheel_over_tree_moves_cursor_by_a_row() {
    let mut app = app_with(sample_repos());
    render_hits(&mut app);
    app.on_mouse(MouseKind::ScrollDown, 5, 5);
    assert_eq!(app.tree.cursor, 1);
    app.on_mouse(MouseKind::ScrollUp, 5, 5);
    app.on_mouse(MouseKind::ScrollUp, 5, 5);
    assert_eq!(app.tree.cursor, 0);
    app.on_mouse(MouseKind::ScrollDown, 50, 5);
    assert_eq!(app.output_scroll, 3);
}

#[test]
fn group_click_folds_and_checkbox_toggles() {
    let mut app = app_with(sample_repos());
    render_hits(&mut app);
    // fqdn row 0: marker at column 2, checkbox at column 4.
    click(&mut app, 2, 0);
    assert!(!app.tree.is_expanded(NodeRef::Fqdn(0)));
    render_hits(&mut app);
    click(&mut app, 4, 0);
    assert_eq!(app.check_state(NodeRef::Fqdn(0)), CheckState::All);
    // a click on the selection bar only moves the cursor
    render_hits(&mut app);
    click(&mut app, 0, 1);
    assert_eq!(app.tree.cursor, 1);
}

#[test]
fn copy_text_mirrors_the_output_pane() {
    let mut app = app_with(sample_repos());
    app.repos[0].status = RepoStatus::Done(0);
    app.repos[1].status = RepoStatus::Done(2);
    let mut o0 = RepoOutput::default();
    o0.push_command("ls");
    o0.push_stream(Stream::Stdout, "README.md".into());
    app.outputs.insert(0, o0);
    app.outputs.insert(1, RepoOutput::default());
    match app.apply(Action::CopyOutput) {
        Effect::Copy(t) => assert_eq!(t, "# alice/one \u{2014} done\n$ ls\nREADME.md\n\n# alice/two \u{2014} exit 2\n\n"),
        other => panic!("expected copy, got {other:?}"),
    }
    app.outputs.clear();
    assert!(matches!(app.apply(Action::CopyOutput), Effect::Nothing));
}

#[test]
fn status_labels_and_line() {
    let mut app = app_with(sample_repos());
    app.repos[0].status = RepoStatus::Done(-1);
    assert_eq!(app.status_pill(0).0, "exit -1");
    app.repos[0].status = RepoStatus::Cancelled;
    assert_eq!(app.status_pill(0).0, "cancelled");
    app.repos[0].status = RepoStatus::Running;
    assert_eq!(app.status_pill(0).0, "⠋ running");
    app.tick = 2;
    assert_eq!(app.status_pill(0).0, "⠙ running");
    assert_eq!(app.status_span(RepoStatus::Done(7)).0, "\u{f00d}7");
    assert_eq!(app.status_span(RepoStatus::Idle).0, "");
    app.repos[1].checked = true;
    assert_eq!(app.status_line(), "1 \u{f046} \u{b7} idle");
    app.notice = Some("bad".into());
    assert_eq!(app.status_line(), "bad   1 \u{f046} \u{b7} idle");
}

#[test]
fn follow_settles_scroll_at_the_bottom() {
    let mut app = app_with(sample_repos());
    let mut o0 = RepoOutput::default();
    for i in 0..20 {
        o0.push_stream(Stream::Stdout, format!("l{i}"));
    }
    app.outputs.insert(0, o0);
    assert_eq!(app.settle_scroll(10), 12);
    app.follow = false;
    app.output_scroll = 3;
    assert_eq!(app.settle_scroll(10), 3);
    app.output_scroll = 40;
    assert_eq!(app.settle_scroll(10), 12);
}

fn texts(app: &App, row: git_foreach::tree::VisibleRow, selected: bool) -> Vec<String> {
    app.row_pieces(row, selected, true).into_iter().map(|p| p.text).collect()
}

#[test]
fn tree_rows_lay_out_checkbox_marker_and_name() {
    let mut config = Config::default();
    config.icons = IconMode::Ascii;
    let mut app = App::from_config(config, None, sample_repos(), Some(2));
    let rows = app.tree.visible();
    assert_eq!(texts(&app, rows[0], true), vec!["> ", "", "v", " ", "[ ]", " ", "github.com"]);
    assert_eq!(texts(&app, rows[2], false), vec!["  ", "    ", "[ ]", " ", "one"]);

    // A checked, focused, finished repo shows its marks.
    app.apply(Action::ToggleCheck(NodeRef::Repo(0)));
    app.apply(Action::Focus(0));
    app.repos[0].status = RepoStatus::Done(2);
    let pieces = app.row_pieces(rows[2], false, true);
    let t: Vec<&str> = pieces.iter().map(|p| p.text.as_str()).collect();
    assert_eq!(t, vec!["  ", "    ", "[x]", " ", "one", " *", " ", "x2"]);
    assert_eq!(pieces[2].fg, Some(Tint::Cyan));
    assert_eq!(pieces[4].fg, Some(Tint::Red));
    assert_eq!(pieces[7].fg, Some(Tint::Red));
    // The user group above is now partly checked; its label is bold.
    let user = app.row_pieces(rows[1], false, false);
    assert_eq!(user[4].text, "[~]");
    assert!(user.last().unwrap().bold);

    // The checkbox sits where a click toggles it: column text_x + 2 * indent.
    render_hits(&mut app);
    let (rect, text_x, indent) = app
        .hit
        .iter()
        .find_map(|(r, h)| match h {
            Hit::TreeRow { node: NodeRef::Repo(1), text_x, indent, .. } => Some((*r, *text_x, *indent)),
            _ => None,
        })
        .unwrap();
    let before: usize = texts(&app, rows[3], false)[..2].iter().map(|s| s.chars().count()).sum();
    assert_eq!(rect.x as usize + before, (text_x + 2 * indent) as usize);
    click(&mut app, rect.x + before as u16, rect.y);
    assert!(app.repos[1].checked);
}

#[test]
fn nerd_rows_carry_icons() {
    let app = app_with(sample_repos());
    let rows = app.tree.visible();
    let t = texts(&app, rows[0], false);
    assert_eq!(t.len(), 8);
    assert_eq!(t[2], "\u{f078}");
    assert_eq!(t[4], "\u{f096}");
    assert_eq!(t[6], "\u{f0ac} ");
    let r = texts(&app, rows[2], true);
    assert_eq!(r[0], "\u{258e} ");
    assert_eq!(r[5], "one");
}

#[test]
fn end_events_without_a_buffer_only_settle_the_status() {
    let mut app = app_with(sample_repos());
    app.handle_event(RunnerEvent::Finished { repo: 1, code: None });
    app.handle_event(RunnerEvent::Skipped { repo: 2 });
    assert!(app.outputs.is_empty());
    assert_eq!(app.repos[1].status, RepoStatus::Cancelled);
    assert_eq!(app.repos[2].status, RepoStatus::Skipped);
    // An error always leaves a buffer with the message on stderr.
    app.handle_event(RunnerEvent::Error { repo: 3, message: "no such dir".into() });
    let out = &app.outputs[&3];
    assert!(out.finished);
    assert_eq!(out.lines[0].kind, LineKind::Stderr);
    assert_eq!(out.lines[0].text, "error: no such dir");
    assert_eq!(app.repos[3].status, RepoStatus::Failed);
}

#[test]
fn headers_and_buttons() {
    let mut config = Config::default();
    config.icons = IconMode::Ascii;
    let mut app = App::from_config(config, None, sample_repos(), None);
    app.repos[2].status = RepoStatus::Done(0);
    let h: Vec<String> = app.header_pieces(2).into_iter().map(|p| p.text).collect();
    assert_eq!(h, vec!["| bob/three  ", "done"]);
    let b = chip_pieces(&app.icons, "pull", Tint::Slate);
    assert_eq!(b.len(), 1);
    assert_eq!(b[0].text, "[pull]");
    assert_eq!(b[0].fg, Some(Tint::Slate));

    let mut nerd = app_with(sample_repos());
    nerd.repos[1].status = RepoStatus::Done(3);
    let h = nerd.header_pieces(1);
    let t: Vec<&str> = h.iter().map(|p| p.text.as_str()).collect();
    assert_eq!(t, vec!["\u{e0b6}", " alice/two ", "\u{e0b0}", " exit 3 ", "\u{e0b4}"]);
    assert_eq!(h[1].bg, Some(Tint::Slate));
    assert!(h[1].bold);
    assert_eq!(h[3].bg, Some(Tint::Red));
    let b = chip_pieces(&nerd.icons, "pull", Tint::Red);
    let t: Vec<&str> = b.iter().map(|p| p.text.as_str()).collect();
    assert_eq!(t, vec!["\u{e0b6}", " pull ", "\u{e0b4}"]);
    assert_eq!(b[1].bg, Some(Tint::Red));
    assert_eq!(b[1].fg, Some(Tint::White));
}

#[test]
fn chip_click_loads_preset() {
    let mut config = Config::default();
    config.presets = vec![
        Preset { label: "pull".into(), command: "git pull --ff-only".into(), key: None },
        Preset { label: "st".into(), command: "git status -s".into(), key: None },
    ];
    let mut app = App::from_config(config, None, sample_repos(), Some(4));
    render_hits(&mut app);
    app.push_hit(Area { x: 0, y: 27, width: 8, height: 1 }, Hit::Fire(Action::LoadPreset(0)));
    app.push_hit(Area { x: 9, y: 27, width: 6, height: 1 }, Hit::Fire(Action::LoadPreset(1)));
    click(&mut app, 11, 27);
    assert_eq!(app.input.value, "git status -s");
    assert_eq!(app.input.cursor, 13);
    assert_eq!(app.active_pane, Pane::Input);
    click(&mut app, 3, 27);
    assert_eq!(app.input.value, "git pull --ff-only");
}

fn mods_key(code: KeyCode, control: bool, meta: bool) -> Key {
    Key { code, modifiers: Modifiers { shift: false, control, alt: false, meta, other: false } }
}

#[test]
fn typing_in_the_prompt_edits_the_line() {
    let mut app = app_with(sample_repos());
    app.on_key(key(KeyCode::Char('/')));
    assert_eq!(app.active_pane, Pane::Input);
    for c in "git status".chars() {
        app.on_key(key(KeyCode::Char(c)));
    }
    assert_eq!(app.input.value, "git status");
    assert_eq!(app.input.cursor, 10);
    // Shift still inserts; Backspace deletes before the cursor.
    app.on_key(Key { code: KeyCode::Char('X'), modifiers: Modifiers { shift: true, control: false, alt: false, meta: false, other: false } });
    assert_eq!(app.input.value, "git statusX");
    app.on_key(key(KeyCode::Backspace));
    assert_eq!(app.input.value, "git status");
    // Home, Delete, End.
    app.on_key(key(KeyCode::Home));
    assert_eq!(app.input.cursor, 0);
    app.on_key(key(KeyCode::Delete));
    assert_eq!(app.input.value, "it status");
    app.on_key(key(KeyCode::End));
    assert_eq!(app.input.cursor, 9);
    // Ctrl-W deletes the previous word, Ctrl-U the whole line.
    app.on_key(mods_key(KeyCode::Char('w'), true, false));
    assert_eq!(app.input.value, "it ");
    assert_eq!(app.input.cursor, 3);
    app.on_key(key(KeyCode::Left));
    assert_eq!(app.input.cursor, 2);
    app.on_key(mods_key(KeyCode::Char('u'), true, false));
    assert_eq!(app.input.value, "");
    // Meta-b moves back a word; keys the editor does not read change nothing.
    for c in "ab cd".chars() {
        app.on_key(key(KeyCode::Char(c)));
    }
    app.on_key(mods_key(KeyCode::Char('b'), false, true));
    assert_eq!(app.input.cursor, 3);
    app.on_key(key(KeyCode::PageUp));
    app.on_key(key(KeyCode::Other));
    assert_eq!(app.input.value, "ab cd");
    assert_eq!(app.input.cursor, 3);
    assert_eq!(app.active_pane, Pane::Input);
}

#[test]
fn focus_without_output_shows_nothing() {
    let mut app = app_with(sample_repos());
    let mut o = RepoOutput::default();
    o.push_command("x");
    app.outputs.insert(0, o);
    app.apply(Action::Focus(2));
    assert_eq!(app.focus, Some(2));
    assert!(app.output_ids().is_empty());
    assert_eq!(app.output_total(), 0);
    assert!(app.visible_output(0, 10).is_empty());
    assert_eq!(app.settle_scroll(10), 0);
    assert!(matches!(app.apply(Action::CopyOutput), Effect::Nothing));
    app.apply(Action::Focus(0));
    assert_eq!(app.output_ids(), vec![0]);
    assert_eq!(app.output_total(), 3);
}

#[test]
fn input_view_columns_follow_the_cursor() {
    let mut app = app_with(Vec::new());
    app.set_input("abcdefghij".into(), 10);
    assert_eq!(app.input.view_columns(20), (0, 10));
    assert_eq!(app.input.view_columns(4), (6, 4));
    app.set_input("日本語".into(), 3);
    assert_eq!(app.input.view_columns(20), (0, 6));
}
