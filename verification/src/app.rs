//! Application state and the decisions taken on each input.

use vstd::prelude::*;
use std::collections::HashMap;
use crate::action::Action;
use crate::config::{Config, Preset};
use crate::keys::{build_keymap, keymap_view, merged_keymap};
use crate::laws::names_distinct;
use crate::patterns::{apply_default_checked, prechecked};
use crate::theme::IconMode;
use crate::input::InputLine;
use crate::output::{LineKind, OutputLine, RepoOutput, stream_kind};
use crate::repo::{Repo, RepoId, RepoStatus};
use crate::runner::{RunnerEvent, Stream};
use crate::text::{is_control, spec_is_control, spec_trim, trim};
use crate::theme::Icons;
use crate::tree::{NodeRef, TreeView, users_ids, grouped, repo_key, all_expanded, lemma_grouped_ids_below, clamp};

verus! {

#[derive(Debug, Clone, Copy, PartialEq, Eq, Structural)]
pub enum Pane {
    Tree,
    Output,
    Input,
}

/// Aggregate check state of a group node (for tri-state display).
#[derive(Debug, Clone, Copy, PartialEq, Eq, Structural)]
pub enum CheckState {
    /// No repo under the node is checked.
    Unchecked,
    Partial,
    All,
}

/// A screen rectangle.
#[derive(Debug, Clone, Copy, PartialEq, Eq, Structural)]
pub struct Area {
    pub x: u16,
    pub y: u16,
    pub width: u16,
    pub height: u16,
}

impl Area {
    /// The rectangle ends inside the 16-bit coordinate range.
    pub open spec fn fits(self) -> bool {
        self.x + self.width <= u16::MAX && self.y + self.height <= u16::MAX
    }

    /// Whether the cell (col, row) lies inside the rectangle.
    pub open spec fn has(self, col: u16, row: u16) -> bool {
        self.x <= col < self.x + self.width && self.y <= row < self.y + self.height
    }
}

/// Whether the cell (col, row) lies inside `rect`.
pub fn contains(rect: Area, col: u16, row: u16) -> (b: bool)
    requires
        rect.fits(),
    ensures
        b == rect.has(col, row),
{
    col >= rect.x && col < rect.x + rect.width && row >= rect.y && row < rect.y + rect.height
}

/// A hit-test target, recorded with its rectangle during render and looked
/// up by click coordinates.
#[derive(Debug, Clone, Copy, PartialEq, Eq, Structural)]
pub enum Hit {
    /// A region that simply fires this Action (e.g. a button).
    Fire(Action),
    /// A tree row; the column decides checkbox / expand marker / name.
    TreeRow {
        node: NodeRef,
        row_index: usize,
        /// Content start x for the row (inside any border).
        text_x: u16,
        indent: u16,
    },
}

/// Work that the caller performs after a state change.
#[derive(Debug)]
pub enum Effect {
    /// Nothing to do.
    Nothing,
    /// Stop the running children (and start no more).
    CancelRun,
    /// Run `command` in each target repo, at most `concurrency` at a time.
    StartRun { command: String, targets: Vec<RepoId>, concurrency: usize },
    /// Scan the repositories again and install them with `App::install_repos`.
    Rescan,
    /// Put this text on the clipboard.
    Copy(String),
}

/// Whole application state.
pub struct App {
    pub should_quit: bool,
    pub repos: Vec<Repo>,
    pub tree: TreeView,
    pub active_pane: Pane,
    /// Output-pane focus (None = show all repos). Independent of checkbox.
    pub focus: Option<RepoId>,
    pub input: InputLine,
    /// Submitted commands, oldest first. Browsed with Up/Down while editing.
    pub history: Vec<String>,
    /// Position in `history` while browsing (None = editing the live draft).
    pub history_pos: Option<usize>,
    /// The live input stashed when history browsing starts, restored on the way back.
    pub history_draft: String,
    pub outputs: HashMap<RepoId, RepoOutput>,
    pub running: bool,
    pub concurrency: usize,
    /// Number of in-flight repos; running clears at 0.
    pub pending: usize,
    pub output_scroll: u16,
    /// When true, follow the bottom on new output; manual scroll sets false.
    pub follow: bool,
    /// Hit-test table, rebuilt every render.
    pub hit: Vec<(Area, Hit)>,
    pub tree_area: Area,
    pub output_area: Area,
    pub input_area: Area,
    pub icons: Icons,
    pub presets: Vec<Preset>,
    /// Key string → Action name (config keymap merged with preset keys).
    pub keymap: Vec<(String, String)>,
    /// Status line for startup config errors etc.
    pub notice: Option<String>,
    /// Render counter for the spinner animation.
    pub tick: usize,
}

/// Every repo id in the tree is below `n`.
pub open spec fn tree_ids_below(t: TreeView, n: nat) -> bool {
    forall|fi: int, ui: int, k: int|
        0 <= fi < t.fqdns@.len() && 0 <= ui < t.fqdns@[fi].users@.len() && 0 <= k
            < t.fqdns@[fi].users@[ui].repos@.len() ==> #[trigger] t.fqdns@[fi].users@[ui].repos@[k] < n
}

/// A recorded hit can be tested and acted on.
pub open spec fn hit_ok(h: (Area, Hit)) -> bool {
    &&& h.0.fits()
    &&& h.1 matches Hit::TreeRow { indent, .. } ==> indent <= 2
}

proof fn lemma_users_ids_below(users: Seq<crate::tree::UserNode>, m: int, n: nat)
    requires
        0 <= m <= users.len(),
        forall|ui: int, k: int| 0 <= ui < users.len() && 0 <= k < users[ui].repos@.len()
            ==> #[trigger] users[ui].repos@[k] < n,
    ensures
        forall|k: int| 0 <= k < users_ids(users, m).len() ==> #[trigger] users_ids(users, m)[k] < n,
    decreases m,
{
    if m > 0 {
        lemma_users_ids_below(users, m - 1, n);
        let a = users_ids(users, m - 1);
        let b = users[m - 1].repos@;
        assert forall|k: int| 0 <= k < users_ids(users, m).len() implies #[trigger] users_ids(users, m)[k] < n by {
            if k >= a.len() {
                assert(users_ids(users, m)[k] == b[k - a.len()]);
            } else {
                assert(users_ids(users, m)[k] == a[k]);
            }
        }
    }
}

/// The command history as plain text.
pub open spec fn texts(v: Seq<String>) -> Seq<Seq<char>> {
    v.map_values(|s: String| s@)
}

/// The characters that a paste inserts: all but the control characters.
pub open spec fn paste_chars(data: Seq<char>) -> Seq<char> {
    data.filter(|c: char| !spec_is_control(c))
}

/// Ids of the checked repos among the first `n`, in order.
pub open spec fn checked_prefix(repos: Seq<Repo>, n: int) -> Seq<RepoId>
    decreases n,
{
    if n <= 0 {
        Seq::<RepoId>::empty()
    } else if repos[n - 1].checked {
        checked_prefix(repos, n - 1).push((n - 1) as RepoId)
    } else {
        checked_prefix(repos, n - 1)
    }
}

/// Ids of the checked repos, in order: the targets of a run.
pub open spec fn checked_ids(repos: Seq<Repo>) -> Seq<RepoId> {
    checked_prefix(repos, repos.len() as int)
}

/// `repos` with the status of every repo listed in `ids` set to `status`.
pub open spec fn with_status(repos: Seq<Repo>, ids: Seq<RepoId>, status: RepoStatus) -> Seq<Repo> {
    Seq::new(
        repos.len(),
        |k: int| if ids.contains(k as RepoId) { Repo { status, ..repos[k] } } else { repos[k] },
    )
}

/// An output buffer as left by a new run: no lines, no exit code, not finished.
pub open spec fn is_fresh_output(o: RepoOutput) -> bool {
    o.lines@.len() == 0 && o.code is None && !o.finished
}

/// The lines recorded for `repo` so far (none if it has no buffer).
pub open spec fn lines_of(m: Map<RepoId, RepoOutput>, repo: RepoId) -> Seq<OutputLine> {
    if m.contains_key(repo) { m[repo].lines@ } else { Seq::<OutputLine>::empty() }
}

/// The exit code recorded for `repo` so far.
pub open spec fn code_of(m: Map<RepoId, RepoOutput>, repo: RepoId) -> Option<i32> {
    if m.contains_key(repo) { m[repo].code } else { None }
}

/// Whether `repo` was recorded as finished.
pub open spec fn finished_of(m: Map<RepoId, RepoOutput>, repo: RepoId) -> bool {
    m.contains_key(repo) && m[repo].finished
}

/// `n - 1`, but not below zero.
pub open spec fn dec(n: usize) -> usize {
    if n == 0 { 0 } else { (n - 1) as usize }
}

/// The status a repo ends with after an event.
pub open spec fn end_status(ev: RunnerEvent) -> RepoStatus {
    match ev {
        RunnerEvent::Finished { code, .. } => match code {
            Some(c) => RepoStatus::Done(c),
            None => RepoStatus::Cancelled,
        },
        RunnerEvent::Skipped { .. } => RepoStatus::Skipped,
        _ => RepoStatus::Failed,
    }
}

/// A tree built from `repos` only holds ids that index `repos`.
pub proof fn lemma_tree_ids_below(t: TreeView, repos: Seq<Repo>)
    requires
        t.shape() == grouped(repos.map_values(|r: Repo| repo_key(r)), repos.len() as int),
    ensures
        tree_ids_below(t, repos.len()),
{
    let keys = repos.map_values(|r: Repo| repo_key(r));
    lemma_grouped_ids_below(keys, repos.len() as int);
    let g = grouped(keys, repos.len() as int);
    assert forall|fi: int, ui: int, k: int|
        0 <= fi < t.fqdns@.len() && 0 <= ui < t.fqdns@[fi].users@.len() && 0 <= k
            < t.fqdns@[fi].users@[ui].repos@.len() implies #[trigger] t.fqdns@[fi].users@[ui].repos@[k] < repos.len() by {
        assert(t.shape()[fi] == crate::tree::fqdn_shape(t.fqdns@[fi]));
        assert(g[fi].1[ui] == crate::tree::user_shape(t.fqdns@[fi].users@[ui]));
        assert(g[fi].1[ui].1[k] < repos.len());
    }
}

/// Up while editing: step to an older history entry, stashing the draft
/// when browsing starts; nothing when the history is empty.
pub open spec fn history_prev_post(a: App, b: App) -> bool {
    if a.history@.len() == 0 {
        b == a
    } else {
        let pos = match a.history_pos {
            None => (a.history@.len() - 1) as usize,
            Some(i) => if i == 0 { 0usize } else { (i - 1) as usize },
        };
        &&& b == (App { history_pos: Some(pos), input: b.input, history_draft: b.history_draft, ..a })
        &&& b.history_draft@ == (if a.history_pos is None { a.input.value@ } else { a.history_draft@ })
        &&& b.input.value@ == a.history@[pos as int]@
        &&& b.input.cursor == a.history@[pos as int]@.len()
    }
}

/// Down while editing: step to a newer entry; past the newest, restore the
/// stashed draft; nothing when not browsing.
pub open spec fn history_next_post(a: App, b: App) -> bool {
    match a.history_pos {
        None => b == a,
        Some(i) => if i + 1 < a.history@.len() {
            &&& b == (App { history_pos: Some((i + 1) as usize), input: b.input, ..a })
            &&& b.input.value@ == a.history@[i + 1]@
            &&& b.input.cursor == a.history@[i + 1]@.len()
        } else {
            &&& b == (App { history_pos: None, input: b.input, history_draft: b.history_draft, ..a })
            &&& b.input.value@ == a.history_draft@
            &&& b.input.cursor == a.history_draft@.len()
            &&& b.history_draft@ == Seq::<char>::empty()
        },
    }
}

/// The cursor after moving by `delta` rows (clamped to the visible rows).
pub open spec fn moved_cursor(t: TreeView, delta: int) -> usize {
    if t.rows().len() == 0 {
        t.cursor
    } else {
        clamp((t.cursor as isize) + delta, t.rows().len() - 1) as usize
    }
}

/// `t1` is `t0` with the expansion flag of `node` (if it is a group) set to `v`.
pub open spec fn expanded_post(t0: TreeView, node: NodeRef, v: bool, t1: TreeView) -> bool {
    &&& t1.shape() == t0.shape()
    &&& t1.cursor == t0.cursor
    &&& forall|n: NodeRef| #[trigger] t1.expanded_of(n) == if n == node && t0.has_group(n) {
        v
    } else {
        t0.expanded_of(n)
    }
}

/// `repos` with every checkbox set to `v`.
pub open spec fn with_all_checked(repos: Seq<Repo>, v: bool) -> Seq<Repo> {
    Seq::new(repos.len(), |k: int| Repo { checked: v, ..repos[k] })
}

/// The action that folds or unfolds a node.
pub open spec fn toggle_expand_of(t: TreeView, node: NodeRef) -> Action {
    if t.expanded_of(node) { Action::Collapse(node) } else { Action::Expand(node) }
}

/// `n + 3` for a `u16`, not above the maximum.
pub open spec fn scroll_down_of(n: u16) -> u16 {
    if n + 3 > u16::MAX { u16::MAX } else { (n + 3) as u16 }
}

/// `n - 3` for a `u16`, not below zero.
pub open spec fn scroll_up_of(n: u16) -> u16 {
    if n < 3 { 0 } else { (n - 3) as u16 }
}

/// What one worker event does to the state.
pub open spec fn event_post(a: App, ev: RunnerEvent, b: App) -> bool {
    let repo = ev.repo_of();
    let m0 = a.outputs@;
    let m1 = b.outputs@;
    &&& m1.dom() == (if (ev is Skipped || ev is Finished) && !m0.contains_key(repo) {
        m0.dom()
    } else {
        m0.dom().insert(repo)
    })
    &&& m1.remove(repo) == m0.remove(repo)
    &&& match ev {
        RunnerEvent::Started { repo, command } => {
            &&& b == (App { outputs: b.outputs, ..a })
            &&& m1[repo].lines@.len() == lines_of(m0, repo).len() + 1
            &&& m1[repo].lines@.take(lines_of(m0, repo).len() as int) == lines_of(m0, repo)
            &&& m1[repo].lines@.last().kind == LineKind::Command
            &&& m1[repo].lines@.last().text@ == seq!['$', ' '] + command@
            &&& m1[repo].code == code_of(m0, repo)
            &&& m1[repo].finished == finished_of(m0, repo)
        },
        RunnerEvent::Line { repo, stream, text } => {
            &&& b == (App { outputs: b.outputs, ..a })
            &&& m1[repo].lines@ == lines_of(m0, repo).push(OutputLine { kind: stream_kind(stream), text })
            &&& m1[repo].code == code_of(m0, repo)
            &&& m1[repo].finished == finished_of(m0, repo)
        },
        RunnerEvent::Finished { repo, code } => {
            &&& b == (App {
                outputs: b.outputs,
                repos: b.repos,
                pending: dec(a.pending),
                running: if dec(a.pending) == 0 { false } else { a.running },
                ..a
            })
            &&& b.repos@ == a.repos@.update(repo as int, Repo { status: end_status(ev), ..a.repos@[repo as int] })
            &&& m0.contains_key(repo) ==> {
                &&& m1[repo].lines@ == lines_of(m0, repo)
                &&& m1[repo].code == code
                &&& m1[repo].finished
            }
        },
        RunnerEvent::Skipped { repo } => {
            &&& b == (App {
                outputs: b.outputs,
                repos: b.repos,
                pending: dec(a.pending),
                running: if dec(a.pending) == 0 { false } else { a.running },
                ..a
            })
            &&& b.repos@ == a.repos@.update(repo as int, Repo { status: RepoStatus::Skipped, ..a.repos@[repo as int] })
            &&& m0.contains_key(repo) ==> {
                &&& m1[repo].lines@ == lines_of(m0, repo)
                &&& m1[repo].code == code_of(m0, repo)
                &&& m1[repo].finished
            }
        },
        RunnerEvent::Error { repo, message } => {
            &&& b == (App {
                outputs: b.outputs,
                repos: b.repos,
                pending: dec(a.pending),
                running: if dec(a.pending) == 0 { false } else { a.running },
                ..a
            })
            &&& b.repos@ == a.repos@.update(repo as int, Repo { status: RepoStatus::Failed, ..a.repos@[repo as int] })
            &&& m1[repo].lines@.len() == lines_of(m0, repo).len() + 1
            &&& m1[repo].lines@.take(lines_of(m0, repo).len() as int) == lines_of(m0, repo)
            &&& m1[repo].lines@.last().kind == LineKind::Stderr
            &&& m1[repo].lines@.last().text@ == "error: "@ + message@
            &&& m1[repo].code == code_of(m0, repo)
            &&& m1[repo].finished
        },
    }
}

/// The hit recorded for the `i`-th tree row drawn in `area` from visible row `offset`.
pub open spec fn row_hit(rows: Seq<crate::tree::VisibleRow>, area: Area, offset: usize, i: int) -> (Area, Hit) {
    (
        Area { x: area.x, y: (area.y + i) as u16, width: area.width, height: 1 },
        Hit::TreeRow {
            node: rows[offset + i].node,
            row_index: (offset + i) as usize,
            text_x: (area.x + 2) as u16,
            indent: rows[offset + i].indent,
        },
    )
}

/// The state a run starts from: the trimmed command, the checked repos as
/// targets, history updated, fresh output buffers, targets marked running.
pub open spec fn run_post(a: App, b: App, e: Effect) -> bool {
    let cmd = spec_trim(a.input.value@);
    let ts = checked_ids(a.repos@);
    if a.running || cmd.len() == 0 || ts.len() == 0 {
        b == a && e is Nothing
    } else {
        &&& b == (App {
            history: b.history,
            history_pos: None,
            history_draft: b.history_draft,
            outputs: b.outputs,
            repos: b.repos,
            pending: ts.len() as usize,
            running: true,
            follow: true,
            output_scroll: 0,
            ..a
        })
        &&& texts(b.history@) == (if a.history@.len() > 0 && a.history@.last()@ == cmd {
            texts(a.history@)
        } else {
            texts(a.history@).push(cmd)
        })
        &&& b.history_draft@ == Seq::<char>::empty()
        &&& b.outputs@.dom() == ts.to_set()
        &&& forall|id: RepoId| #[trigger] b.outputs@.contains_key(id) ==> is_fresh_output(b.outputs@[id])
        &&& b.repos@ == with_status(a.repos@, ts, RepoStatus::Running)
        &&& e matches Effect::StartRun { command, targets, concurrency } && command@ == cmd && targets@ == ts
            && concurrency == a.concurrency
    }
}

impl App {
    /// The state is consistent: tree ids index `repos`, the cursors lie in
    /// range, the hit table and areas can be tested, and the keymap binds
    /// each key once.
    pub open spec fn wf(&self) -> bool {
        &&& tree_ids_below(self.tree, self.repos@.len())
        &&& self.input.wf()
        &&& (self.history_pos matches Some(p) ==> p < self.history@.len())
        &&& self.icons.wf()
        &&& forall|i: int| 0 <= i < self.hit@.len() ==> hit_ok(#[trigger] self.hit@[i])
        &&& self.tree_area.fits()
        &&& self.output_area.fits()
        &&& self.input_area.fits()
        &&& names_distinct(keymap_view(self.keymap@))
    }

    /// All ids under `node` index `repos`.
    proof fn lemma_node_ids_below(&self, node: NodeRef)
        requires
            self.wf(),
            node matches NodeRef::Repo(id) ==> id < self.repos@.len(),
        ensures
            forall|k: int| 0 <= k < self.tree.ids_of(node).len() ==> #[trigger] self.tree.ids_of(node)[k]
                < self.repos@.len(),
    {
        match node {
            NodeRef::Fqdn(i) => {
                if i < self.tree.fqdns@.len() {
                    let users = self.tree.fqdns@[i as int].users@;
                    assert forall|ui: int, k: int| 0 <= ui < users.len() && 0 <= k < users[ui].repos@.len()
                        implies #[trigger] users[ui].repos@[k] < self.repos@.len() by {
                        assert(self.tree.fqdns@[i as int].users@[ui].repos@[k] < self.repos@.len());
                    }
                    lemma_users_ids_below(users, users.len() as int, self.repos@.len());
                }
            },
            NodeRef::User(i, j) => {
                if self.tree.has_group(node) {
                    assert forall|k: int| 0 <= k < self.tree.ids_of(node).len() implies #[trigger] self.tree.ids_of(
                        node,
                    )[k] < self.repos@.len() by {
                        assert(self.tree.fqdns@[i as int].users@[j as int].repos@[k] < self.repos@.len());
                    }
                }
            },
            NodeRef::Repo(_) => {},
        }
    }

    /// Every repo id under a node indexes `repos`.
    pub proof fn lemma_node_ids_below_pub(&self, node: NodeRef)
        requires
            self.wf(),
            node matches NodeRef::Repo(id) ==> id < self.repos@.len(),
        ensures
            forall|k: int| 0 <= k < self.tree.ids_of(node).len() ==> #[trigger] self.tree.ids_of(node)[k]
                < self.repos@.len(),
    {
        self.lemma_node_ids_below(node);
    }

    /// Whether every repo under `node` is checked (and there is at least one).
    pub open spec fn all_checked(&self, ids: Seq<RepoId>) -> bool {
        ids.len() > 0 && forall|k: int| 0 <= k < ids.len() ==> self.repos@[#[trigger] ids[k] as int].checked
    }

    /// The tri-state of a group: how many of its repos are checked.
    pub open spec fn check_state_of(&self, node: NodeRef) -> CheckState {
        let ids = self.tree.ids_of(node);
        let n = ids.filter(|id: RepoId| self.repos@[id as int].checked).len();
        if n == 0 {
            CheckState::Unchecked
        } else if n == ids.len() {
            CheckState::All
        } else {
            CheckState::Partial
        }
    }

    /// `repos` after setting the checkbox of every repo listed in `ids` to `v`.
    pub open spec fn with_checked(repos: Seq<Repo>, ids: Seq<RepoId>, v: bool) -> Seq<Repo> {
        Seq::new(
            repos.len(),
            |k: int| if ids.contains(k as RepoId) { Repo { checked: v, ..repos[k] } } else { repos[k] },
        )
    }

    /// The state at startup: the scanned repos (pre-checked by the config's
    /// globs) grouped into a fully expanded tree, the config's icons, presets
    /// and keymap, and up to 8 concurrent runs (`parallelism` is the machine's
    /// available parallelism, when known).
    pub fn from_config(config: Config, notice: Option<String>, repos: Vec<Repo>, parallelism: Option<usize>) -> (app: App)
        requires
            config.wf(),
        ensures
            app.wf(),
            app.repos@ == prechecked(repos@, config.default_checked@),
            app.tree.shape() == grouped(app.repos@.map_values(|r: Repo| repo_key(r)), app.repos@.len() as int),
            all_expanded(app.tree.fqdns@),
            app.tree.cursor == 0,
            !app.should_quit,
            app.active_pane == Pane::Tree,
            app.focus is None,
            app.input.value@ == Seq::<char>::empty(),
            app.input.cursor == 0,
            app.history@.len() == 0,
            app.history_pos is None,
            app.history_draft@ == Seq::<char>::empty(),
            app.outputs@ == Map::<RepoId, RepoOutput>::empty(),
            !app.running,
            app.concurrency == (match parallelism {
                Some(n) => if n < 8 { n } else { 8 },
                None => 8,
            }),
            app.pending == 0,
            app.output_scroll == 0,
            app.follow,
            app.hit@.len() == 0,
            app.tree_area == (Area { x: 0, y: 0, width: 0, height: 0 }),
            app.output_area == (Area { x: 0, y: 0, width: 0, height: 0 }),
            app.input_area == (Area { x: 0, y: 0, width: 0, height: 0 }),
            app.icons.is_set_for(config.icons),
            app.presets == config.presets,
            keymap_view(app.keymap@) == merged_keymap(keymap_view(config.keymap@), config.presets@, config.presets@.len() as int),
            app.notice == notice,
            app.tick == 0,
    {
        broadcast use vstd::std_specs::hash::group_hash_axioms;
        let mut repos = repos;
        apply_default_checked(&mut repos, &config.default_checked);
        let tree = TreeView::build(repos.as_slice());
        proof {
            lemma_tree_ids_below(tree, repos@);
        }
        let concurrency = match parallelism {
            Some(n) => if n < 8 { n } else { 8 },
            None => 8,
        };
        let icons = Icons::new(config.icons);
        let keymap = build_keymap(&config);
        let zero = Area { x: 0, y: 0, width: 0, height: 0 };
        App {
            should_quit: false,
            repos,
            tree,
            active_pane: Pane::Tree,
            focus: None,
            input: InputLine::new(String::new()),
            history: Vec::new(),
            history_pos: None,
            history_draft: String::new(),
            outputs: HashMap::new(),
            running: false,
            concurrency,
            pending: 0,
            output_scroll: 0,
            follow: true,
            hit: Vec::new(),
            tree_area: zero,
            output_area: zero,
            input_area: zero,
            icons,
            presets: config.presets,
            keymap,
            notice,
            tick: 0,
        }
    }

    /// Replace the command line with an edited one (the line editor works on
    /// a copy of the text and cursor and hands them back).
    pub fn set_input(&mut self, value: String, cursor: usize)
        requires
            old(self).wf(),
            cursor <= value@.len(),
        ensures
            final(self).wf(),
            *final(self) == (App { input: InputLine { value, cursor }, ..*old(self) }),
    {
        self.input = InputLine { value, cursor };
    }

    /// Start drawing a frame: forget the previous frame's hit table and
    /// advance the spinner's render count (wrapping).
    pub fn begin_frame(&mut self)
        requires
            old(self).wf(),
        ensures
            final(self).wf(),
            final(self).hit@.len() == 0,
            *final(self) == (App {
                hit: final(self).hit,
                tick: if old(self).tick == usize::MAX { 0 } else { (old(self).tick + 1) as usize },
                ..*old(self)
            }),
    {
        self.hit.clear();
        self.tick = if self.tick == usize::MAX { 0 } else { self.tick + 1 };
    }

    /// Record the screen areas of the three panes.
    pub fn set_areas(&mut self, tree_area: Area, output_area: Area, input_area: Area)
        requires
            old(self).wf(),
            tree_area.fits(),
            output_area.fits(),
            input_area.fits(),
        ensures
            final(self).wf(),
            *final(self) == (App { tree_area, output_area, input_area, ..*old(self) }),
    {
        self.tree_area = tree_area;
        self.output_area = output_area;
        self.input_area = input_area;
    }

    /// Record a hit-test target drawn in this frame (later ones are on top).
    pub fn push_hit(&mut self, area: Area, hit: Hit)
        requires
            old(self).wf(),
            hit_ok((area, hit)),
        ensures
            final(self).wf(),
            *final(self) == (App { hit: final(self).hit, ..*old(self) }),
            final(self).hit@ == old(self).hit@.push((area, hit)),
    {
        self.hit.push((area, hit));
    }

    /// Record one hit per tree row drawn in `area`, starting at visible row
    /// `offset`: a one-row rectangle per row, with the row's content starting
    /// after the two-cell selection bar.
    pub fn register_tree_rows(&mut self, area: Area, offset: usize)
        requires
            old(self).wf(),
            area.fits(),
            area.x + 2 <= u16::MAX,
            offset + area.height <= usize::MAX,
        ensures
            final(self).wf(),
            *final(self) == (App { hit: final(self).hit, ..*old(self) }),
            ({
                let rows = old(self).tree.rows();
                let n = if offset >= rows.len() {
                    0
                } else if rows.len() - offset < area.height {
                    rows.len() - offset
                } else {
                    area.height as int
                };
                final(self).hit@ == old(self).hit@ + Seq::new(n as nat, |i: int| row_hit(rows, area, offset, i))
            }),
    {
        let rows = self.tree.visible();
        proof {
            crate::tree::lemma_rows_indent(self.tree.fqdns@, self.tree.fqdns@.len() as int);
        }
        let ghost h0 = self.hit@;
        let text_x = area.x + 2;
        let mut i: u16 = 0;
        while i < area.height
            invariant
                i <= area.height,
                area.fits(),
                text_x == area.x + 2,
                offset + area.height <= usize::MAX,
                rows@ == old(self).tree.rows(),
                forall|k: int| 0 <= k < rows@.len() ==> (#[trigger] rows@[k]).indent <= 2,
                offset + i <= rows@.len() || i == 0,
                self.wf(),
                *self == (App { hit: self.hit, ..*old(self) }),
                self.hit@ == h0 + Seq::new(i as nat, |j: int| row_hit(rows@, area, offset, j)),
            ensures
                self.wf(),
                *self == (App { hit: self.hit, ..*old(self) }),
                self.hit@ == h0 + Seq::new(
                    (if offset >= rows@.len() {
                        0
                    } else if rows@.len() - offset < area.height {
                        rows@.len() - offset
                    } else {
                        area.height as int
                    }) as nat,
                    |j: int| row_hit(rows@, area, offset, j),
                ),
            decreases area.height - i,
        {
            let idx = offset + i as usize;
            if idx >= rows.len() {
                break;
            }
            let rect = Area { x: area.x, y: area.y + i, width: area.width, height: 1 };
            let hit = Hit::TreeRow { node: rows[idx].node, row_index: idx, text_x, indent: rows[idx].indent };
            self.hit.push((rect, hit));
            proof {
                assert(Seq::new((i + 1) as nat, |j: int| row_hit(rows@, area, offset, j)) =~= Seq::new(i as nat, |j: int| row_hit(rows@, area, offset, j)).push((rect, hit)));
            }
            i = i + 1;
        }
    }

    /// The inputs on which applying `action` cannot fail: a repo to toggle
    /// exists, the cursor arithmetic stays in range, and the shown output
    /// boxes have buffers when copying.
    pub open spec fn action_ok(&self, action: Action) -> bool {
        match action {
            Action::ToggleCheck(NodeRef::Repo(id)) => id < self.repos@.len(),
            Action::CursorDown => (self.tree.cursor as isize) + 1 <= isize::MAX,
            Action::CursorUp => (self.tree.cursor as isize) - 1 >= isize::MIN,
            _ => true,
        }
    }

    /// What applying `action` to `a` gives: the new state `b` and the work `e`.
    pub open spec fn apply_post(a: App, action: Action, b: App, e: Effect) -> bool {
        match action {
            Action::Quit => b == (App { should_quit: true, ..a }) && e is CancelRun,
            Action::CursorDown => b == (App { tree: TreeView { cursor: moved_cursor(a.tree, 1), ..a.tree }, ..a })
                && e is Nothing,
            Action::CursorUp => b == (App { tree: TreeView { cursor: moved_cursor(a.tree, -1), ..a.tree }, ..a })
                && e is Nothing,
            Action::Expand(node) => b == (App { tree: b.tree, ..a }) && expanded_post(a.tree, node, true, b.tree)
                && e is Nothing,
            Action::Collapse(node) => b == (App { tree: b.tree, ..a }) && expanded_post(a.tree, node, false, b.tree)
                && e is Nothing,
            Action::ToggleCheck(node) => b == (App { repos: b.repos, ..a }) && b.repos@ == Self::with_checked(
                a.repos@,
                a.tree.ids_of(node),
                !a.all_checked(a.tree.ids_of(node)),
            ) && e is Nothing,
            Action::CheckAll => b == (App { repos: b.repos, ..a }) && b.repos@ == with_all_checked(a.repos@, true)
                && e is Nothing,
            Action::UncheckAll => b == (App { repos: b.repos, ..a }) && b.repos@ == with_all_checked(a.repos@, false)
                && e is Nothing,
            Action::Focus(id) => b == (App {
                focus: if a.focus == Some(id) { None } else { Some(id) },
                follow: true,
                ..a
            }) && e is Nothing,
            Action::ClearFocus => b == (App { focus: None, ..a }) && e is Nothing,
            Action::FocusPane(pane) => b == (App { active_pane: pane, ..a }) && e is Nothing,
            Action::Run => run_post(a, b, e),
            Action::Cancel => b == a && e is CancelRun,
            Action::Rescan => b == a && if a.running { e is Nothing } else { e is Rescan },
            Action::ScrollUp => b == (App { output_scroll: scroll_up_of(a.output_scroll), follow: false, ..a })
                && e is Nothing,
            Action::ScrollDown => b == (App { output_scroll: scroll_down_of(a.output_scroll), follow: false, ..a })
                && e is Nothing,
            Action::ScrollTop => b == (App { output_scroll: 0, follow: false, ..a }) && e is Nothing,
            Action::ScrollBottom => b == (App { follow: true, ..a }) && e is Nothing,
            Action::CopyOutput => b == a && if a.output_ids_of().len() == 0 {
                e is Nothing
            } else {
                e matches Effect::Copy(t) && t@ == a.copy_text_upto(a.output_ids_of().len() as int)
            },
            Action::LoadPreset(i) => if i < a.presets@.len() {
                &&& b == (App { input: b.input, history_pos: None, active_pane: Pane::Input, ..a })
                &&& b.input.value@ == a.presets@[i as int].command@
                &&& b.input.cursor == a.presets@[i as int].command@.len()
                &&& e is Nothing
            } else {
                b == a && e is Nothing
            },
        }
    }

    /// `action_ok`, computed.
    pub fn check_action(&self, action: Action) -> (ok: bool)
        ensures
            ok == self.action_ok(action),
    {
        match action {
            Action::ToggleCheck(NodeRef::Repo(id)) => id < self.repos.len(),
            Action::CursorDown => {
                let c: isize = self.tree.cursor as isize;
                c < isize::MAX
            },
            Action::CursorUp => {
                let c: isize = self.tree.cursor as isize;
                c > isize::MIN
            },
            _ => true,
        }
    }

    /// Apply one action: the single place where the state changes in response
    /// to mouse, keys and the keymap.
    pub fn apply(&mut self, action: Action) -> (e: Effect)
        requires
            old(self).wf(),
            old(self).action_ok(action),
        ensures
            final(self).wf(),
            Self::apply_post(*old(self), action, *final(self), e),
    {
        match action {
            Action::Quit => {
                self.should_quit = true;
                Effect::CancelRun
            },
            Action::CursorDown => {
                self.tree.move_cursor(1);
                Effect::Nothing
            },
            Action::CursorUp => {
                self.tree.move_cursor(-1);
                Effect::Nothing
            },
            Action::Expand(node) => {
                self.tree.set_expanded(node, true);
                proof {
                    self.lemma_shape_keeps_ids(*old(self));
                }
                Effect::Nothing
            },
            Action::Collapse(node) => {
                self.tree.set_expanded(node, false);
                proof {
                    self.lemma_shape_keeps_ids(*old(self));
                }
                Effect::Nothing
            },
            Action::ToggleCheck(node) => {
                self.toggle_check(node);
                Effect::Nothing
            },
            Action::CheckAll => {
                self.set_all_checked(true);
                assert(self.repos@ =~= with_all_checked(old(self).repos@, true));
                Effect::Nothing
            },
            Action::UncheckAll => {
                self.set_all_checked(false);
                assert(self.repos@ =~= with_all_checked(old(self).repos@, false));
                Effect::Nothing
            },
            Action::Focus(id) => {
                self.focus = if self.focus == Some(id) { None } else { Some(id) };
                self.follow = true;
                Effect::Nothing
            },
            Action::ClearFocus => {
                self.focus = None;
                Effect::Nothing
            },
            Action::FocusPane(pane) => {
                self.active_pane = pane;
                Effect::Nothing
            },
            Action::Run => self.run_command(),
            Action::Cancel => Effect::CancelRun,
            Action::Rescan => if self.running { Effect::Nothing } else { Effect::Rescan },
            Action::ScrollUp => {
                self.output_scroll = if self.output_scroll < 3 { 0 } else { self.output_scroll - 3 };
                self.follow = false;
                Effect::Nothing
            },
            Action::ScrollDown => {
                self.output_scroll = if self.output_scroll > u16::MAX - 3 { u16::MAX } else { self.output_scroll + 3 };
                self.follow = false;
                Effect::Nothing
            },
            Action::ScrollTop => {
                self.output_scroll = 0;
                self.follow = false;
                Effect::Nothing
            },
            Action::ScrollBottom => {
                self.follow = true;
                Effect::Nothing
            },
            Action::CopyOutput => match self.copy_text() {
                Some(t) => Effect::Copy(t),
                None => Effect::Nothing,
            },
            Action::LoadPreset(i) => {
                if i < self.presets.len() {
                    self.input = InputLine::new(self.presets[i].command.clone());
                    self.history_pos = None;
                    self.active_pane = Pane::Input;
                }
                Effect::Nothing
            },
        }
    }

    /// A tree with the same groups keeps the bound on repo ids.
    proof fn lemma_shape_keeps_ids(&self, a: App)
        requires
            a.wf(),
            self.tree.shape() == a.tree.shape(),
            self.repos@.len() == a.repos@.len(),
        ensures
            tree_ids_below(self.tree, self.repos@.len()),
    {
        assert forall|fi: int, ui: int, k: int|
            0 <= fi < self.tree.fqdns@.len() && 0 <= ui < self.tree.fqdns@[fi].users@.len() && 0 <= k
                < self.tree.fqdns@[fi].users@[ui].repos@.len() implies #[trigger] self.tree.fqdns@[fi].users@[ui].repos@[k]
                < self.repos@.len() by {
            assert(self.tree.shape().len() == self.tree.fqdns@.len());
            assert(a.tree.shape().len() == a.tree.fqdns@.len());
            assert(self.tree.shape()[fi] == crate::tree::fqdn_shape(self.tree.fqdns@[fi]));
            assert(a.tree.shape()[fi] == crate::tree::fqdn_shape(a.tree.fqdns@[fi]));
            assert(crate::tree::fqdn_shape(self.tree.fqdns@[fi]).1.len() == self.tree.fqdns@[fi].users@.len());
            assert(crate::tree::fqdn_shape(a.tree.fqdns@[fi]).1.len() == a.tree.fqdns@[fi].users@.len());
            assert(a.tree.fqdns@[fi].users@.len() == self.tree.fqdns@[fi].users@.len());
            assert(self.tree.shape()[fi].1[ui] == crate::tree::user_shape(self.tree.fqdns@[fi].users@[ui]));
            assert(a.tree.shape()[fi].1[ui] == crate::tree::user_shape(a.tree.fqdns@[fi].users@[ui]));
            assert(a.tree.fqdns@[fi].users@[ui].repos@[k] < a.repos@.len());
        }
    }

    /// Step back to an older history entry (Up).
    pub fn history_prev(&mut self)
        requires
            old(self).wf(),
        ensures
            final(self).wf(),
            history_prev_post(*old(self), *final(self)),
    {
        if self.history.len() == 0 {
            return;
        }
        let pos = match self.history_pos {
            None => {
                self.history_draft = self.input.value.clone();
                self.history.len() - 1
            },
            Some(i) => if i == 0 { 0 } else { i - 1 },
        };
        self.history_pos = Some(pos);
        self.input = InputLine::new(self.history[pos].clone());
    }

    /// Step forward toward newer entries (Down); past the newest restores the draft.
    pub fn history_next(&mut self)
        requires
            old(self).wf(),
        ensures
            final(self).wf(),
            history_next_post(*old(self), *final(self)),
    {
        let i = match self.history_pos {
            Some(i) => i,
            None => {
                return;
            },
        };
        let n = self.history.len();
        if i + 1 < n {
            self.history_pos = Some(i + 1);
            self.input = InputLine::new(self.history[i + 1].clone());
        } else {
            self.history_pos = None;
            let mut draft = String::new();
            std::mem::swap(&mut draft, &mut self.history_draft);
            self.input = InputLine::new(draft);
        }
    }

    /// Insert pasted text at the cursor of the command input. Control
    /// characters are dropped so a multi-line paste collapses into a single
    /// command line. Ignored unless the input pane is active.
    pub fn on_paste(&mut self, data: String)
        requires
            old(self).wf(),
            old(self).input.value@.len() + data@.len() < usize::MAX,
        ensures
            final(self).wf(),
            old(self).active_pane != Pane::Input ==> *final(self) == *old(self),
            old(self).active_pane == Pane::Input ==> {
                &&& *final(self) == (App { input: final(self).input, ..*old(self) })
                &&& final(self).input.value@ == old(self).input.value@.take(old(self).input.cursor as int)
                    + paste_chars(data@) + old(self).input.value@.skip(old(self).input.cursor as int)
                &&& final(self).input.cursor == old(self).input.cursor + paste_chars(data@).len()
            },
    {
        if self.active_pane != Pane::Input {
            return;
        }
        let ghost v0 = self.input.value@;
        let ghost c0 = self.input.cursor as int;
        let ghost keep = |c: char| !spec_is_control(c);
        let n = data.unicode_len();
        let mut k: usize = 0;
        while k < n
            invariant
                n == data@.len(),
                k <= n,
                keep == (|c: char| !spec_is_control(c)),
                v0 == old(self).input.value@,
                c0 == old(self).input.cursor,
                c0 <= v0.len(),
                v0.len() + n < usize::MAX,
                self.input.wf(),
                *self == (App { input: self.input, ..*old(self) }),
                self.input.value@ == v0.take(c0) + data@.take(k as int).filter(keep) + v0.skip(c0),
                self.input.cursor == c0 + data@.take(k as int).filter(keep).len(),
                data@.take(k as int).filter(keep).len() <= k,
            decreases n - k,
        {
            let c = data.as_str().get_char(k);
            proof {
                data@.take(k as int).lemma_filter_push(c, keep);
                assert(data@.take(k + 1) == data@.take(k as int).push(c));
            }
            if !is_control(c) {
                let ghost before = self.input.value@;
                let ghost cur = self.input.cursor as int;
                self.input.insert_char(c);
                proof {
                    let f = data@.take(k as int).filter(keep);
                    assert(before.take(cur) =~= v0.take(c0) + f);
                    assert(before.skip(cur) =~= v0.skip(c0));
                    assert(self.input.value@ =~= v0.take(c0) + f.push(c) + v0.skip(c0));
                }
            }
            k = k + 1;
        }
        assert(data@.take(n as int) == data@);
    }

    /// Install a freshly scanned repo list: rebuild the tree, drop all output
    /// and clear the output focus.
    pub fn install_repos(&mut self, repos: Vec<Repo>)
        requires
            old(self).wf(),
        ensures
            final(self).wf(),
            *final(self) == (App {
                repos: final(self).repos,
                tree: final(self).tree,
                outputs: final(self).outputs,
                focus: None,
                ..*old(self)
            }),
            final(self).repos == repos,
            final(self).tree.shape() == grouped(repos@.map_values(|r: Repo| repo_key(r)), repos@.len() as int),
            all_expanded(final(self).tree.fqdns@),
            final(self).tree.cursor == 0,
            final(self).outputs@ == Map::<RepoId, RepoOutput>::empty(),
    {
        let tree = TreeView::build(repos.as_slice());
        proof {
            lemma_tree_ids_below(tree, repos@);
        }
        self.repos = repos;
        self.tree = tree;
        self.outputs.clear();
        self.focus = None;
    }

    /// `pending` goes down by one (not below zero); at zero the run is over.
    fn mark_done(&mut self)
        ensures
            *final(self) == (App {
                pending: dec(old(self).pending),
                running: if dec(old(self).pending) == 0 { false } else { old(self).running },
                ..*old(self)
            }),
    {
        self.pending = if self.pending == 0 { 0 } else { self.pending - 1 };
        if self.pending == 0 {
            self.running = false;
        }
    }

    /// Takes the buffer of `repo` out of `outputs` (a fresh one if there is none).
    fn take_output(&mut self, repo: RepoId) -> (o: RepoOutput)
        ensures
            *final(self) == (App { outputs: final(self).outputs, ..*old(self) }),
            final(self).outputs@ == old(self).outputs@.remove(repo),
            o.lines@ == lines_of(old(self).outputs@, repo),
            o.code == code_of(old(self).outputs@, repo),
            o.finished == finished_of(old(self).outputs@, repo),
    {
        broadcast use vstd::std_specs::hash::group_hash_axioms;
        match self.outputs.remove(&repo) {
            Some(o) => o,
            None => RepoOutput::default(),
        }
    }

    /// Drains one worker event into the state.
    pub fn handle_event(&mut self, ev: RunnerEvent)
        requires
            old(self).wf(),
            ev.is_terminal() ==> ev.repo_of() < old(self).repos@.len(),
        ensures
            final(self).wf(),
            event_post(*old(self), ev, *final(self)),
    {
        broadcast use vstd::std_specs::hash::group_hash_axioms;
        let ghost m0 = self.outputs@;
        match ev {
            RunnerEvent::Started { repo, command } => {
                let mut out = self.take_output(repo);
                out.push_command(command.as_str());
                self.outputs.insert(repo, out);
                assert(self.outputs@.remove(repo) =~= m0.remove(repo));
                assert(self.outputs@.dom() =~= m0.dom().insert(repo));
            },
            RunnerEvent::Line { repo, stream, text } => {
                let mut out = self.take_output(repo);
                out.push_stream(stream, text);
                self.outputs.insert(repo, out);
                assert(self.outputs@.remove(repo) =~= m0.remove(repo));
                assert(self.outputs@.dom() =~= m0.dom().insert(repo));
            },
            RunnerEvent::Finished { repo, code } => {
                if self.outputs.contains_key(&repo) {
                    let mut out = self.take_output(repo);
                    out.code = code;
                    out.finished = true;
                    self.outputs.insert(repo, out);
                    assert(self.outputs@.dom() =~= m0.dom().insert(repo));
                } else {
                    assert(self.outputs@.dom() =~= m0.dom());
                }
                assert(self.outputs@.remove(repo) =~= m0.remove(repo));
                self.repos[repo].status = match code {
                    Some(c) => RepoStatus::Done(c),
                    None => RepoStatus::Cancelled,
                };
                self.mark_done();
            },
            RunnerEvent::Skipped { repo } => {
                if self.outputs.contains_key(&repo) {
                    let mut out = self.take_output(repo);
                    out.finished = true;
                    self.outputs.insert(repo, out);
                    assert(self.outputs@.dom() =~= m0.dom().insert(repo));
                } else {
                    assert(self.outputs@.dom() =~= m0.dom());
                }
                assert(self.outputs@.remove(repo) =~= m0.remove(repo));
                self.repos[repo].status = RepoStatus::Skipped;
                self.mark_done();
            },
            RunnerEvent::Error { repo, message } => {
                let mut out = self.take_output(repo);
                let mut text = String::new();
                text.append("error: ");
                text.append(message.as_str());
                let ghost before = out.lines@;
                out.push_stream(Stream::Stderr, text);
                out.finished = true;
                self.outputs.insert(repo, out);
                assert(self.outputs@[repo].lines@.take(before.len() as int) =~= before);
                assert(self.outputs@.remove(repo) =~= m0.remove(repo));
                assert(self.outputs@.dom() =~= m0.dom().insert(repo));
                self.repos[repo].status = RepoStatus::Failed;
                self.mark_done();
            },
        }
    }

    /// Start running the input's command on every checked repo.
    pub fn run_command(&mut self) -> (e: Effect)
        requires
            old(self).wf(),
        ensures
            final(self).wf(),
            run_post(*old(self), *final(self), e),
    {
        broadcast use vstd::std_specs::hash::group_hash_axioms;
        if self.running {
            return Effect::Nothing;
        }
        let command = trim(self.input.value.as_str());
        if command.unicode_len() == 0 {
            return Effect::Nothing;
        }
        let mut targets: Vec<RepoId> = Vec::new();
        let mut k: usize = 0;
        while k < self.repos.len()
            invariant
                k <= self.repos@.len(),
                targets@ == checked_prefix(self.repos@, k as int),
                forall|j: int| 0 <= j < targets@.len() ==> #[trigger] targets@[j] < k,
            decreases self.repos@.len() - k,
        {
            if self.repos[k].checked {
                targets.push(k);
            }
            k = k + 1;
        }
        if targets.len() == 0 {
            return Effect::Nothing;
        }
        let ghost a = *self;
        let ghost ts = targets@;
        let hn = self.history.len();
        let same = hn > 0 && self.history[hn - 1] == command;
        if !same {
            self.history.push(command.clone());
            assert(texts(self.history@) =~= texts(a.history@).push(command@));
        }
        self.history_pos = None;
        self.history_draft = String::new();
        self.outputs.clear();
        let ghost b0 = *self;
        let nrepos = self.repos.len();
        let mut k: usize = 0;
        while k < targets.len()
            invariant
                k <= targets@.len(),
                nrepos == a.repos@.len(),
                self.history == b0.history,
                self.history_draft == b0.history_draft,
                ts == targets@,
                ts == checked_ids(a.repos@),
                forall|j: int| 0 <= j < ts.len() ==> #[trigger] ts[j] < a.repos@.len(),
                self.repos@ == with_status(a.repos@, ts.take(k as int), RepoStatus::Running),
                self.outputs@.dom() == ts.take(k as int).to_set(),
                forall|id: RepoId| #[trigger] self.outputs@.contains_key(id) ==> is_fresh_output(self.outputs@[id]),
                *self == (App {
                    history: self.history,
                    history_pos: None,
                    history_draft: self.history_draft,
                    outputs: self.outputs,
                    repos: self.repos,
                    ..a
                }),
            decreases ts.len() - k,
        {
            let id = targets[k];
            let ghost r0 = self.repos@;
            self.repos[id].status = RepoStatus::Running;
            self.outputs.insert(id, RepoOutput::default());
            proof {
                assert(ts.take(k + 1) == ts.take(k as int).push(id));
                ts.take(k as int).lemma_push_to_set_commute(id);
                assert forall|q: int| 0 <= q < r0.len() implies #[trigger] self.repos@[q]
                    == with_status(a.repos@, ts.take(k + 1), RepoStatus::Running)[q] by {
                    let qq = q as RepoId;
                    if q != id as int {
                        if ts.take(k + 1).contains(qq) {
                            let w = choose|w: int| 0 <= w < k + 1 && #[trigger] ts.take(k + 1)[w] == qq;
                            assert(w != k);
                            assert(ts.take(k as int)[w] == ts[w]);
                            assert(ts.take(k as int).contains(qq));
                        }
                        if ts.take(k as int).contains(qq) {
                            let w = choose|w: int| 0 <= w < k && #[trigger] ts.take(k as int)[w] == qq;
                            assert(ts.take(k + 1)[w] == ts[w]);
                        }
                    } else {
                        assert(ts.take(k + 1)[k as int] == qq);
                    }
                }
                assert(self.repos@ =~= with_status(a.repos@, ts.take(k + 1), RepoStatus::Running));
                assert(self.outputs@.dom() =~= ts.take(k + 1).to_set());
            }
            k = k + 1;
        }
        assert(ts.take(ts.len() as int) == ts);
        self.pending = targets.len();
        self.running = true;
        self.follow = true;
        self.output_scroll = 0;
        Effect::StartRun { command, targets, concurrency: self.concurrency }
    }

    /// Move focus to the next pane: tree, output, input, then tree again.
    pub fn cycle_pane(&mut self)
        ensures
            *final(self) == (App {
                active_pane: match old(self).active_pane {
                    Pane::Tree => Pane::Output,
                    Pane::Output => Pane::Input,
                    Pane::Input => Pane::Tree,
                },
                ..*old(self)
            }),
    {
        self.active_pane = match self.active_pane {
            Pane::Tree => Pane::Output,
            Pane::Output => Pane::Input,
            Pane::Input => Pane::Tree,
        };
    }

    /// Toggle a node: if every repo under it is checked, uncheck them all;
    /// otherwise check them all.
    pub fn toggle_check(&mut self, node: NodeRef)
        requires
            old(self).wf(),
            node matches NodeRef::Repo(id) ==> id < old(self).repos@.len(),
        ensures
            *final(self) == (App { repos: final(self).repos, ..*old(self) }),
            final(self).repos@ == Self::with_checked(
                old(self).repos@,
                old(self).tree.ids_of(node),
                !old(self).all_checked(old(self).tree.ids_of(node)),
            ),
    {
        proof {
            self.lemma_node_ids_below(node);
        }
        let ids = self.tree.repo_ids(node);
        let mut all = ids.len() > 0;
        let mut k: usize = 0;
        while k < ids.len()
            invariant
                k <= ids@.len(),
                ids@ == old(self).tree.ids_of(node),
                *self == *old(self),
                forall|j: int| 0 <= j < ids@.len() ==> #[trigger] ids@[j] < self.repos@.len(),
                all == (ids@.len() > 0 && forall|j: int| 0 <= j < k ==> self.repos@[#[trigger] ids@[j] as int].checked),
            decreases ids@.len() - k,
        {
            if !self.repos[ids[k]].checked {
                all = false;
            }
            k = k + 1;
        }
        let target = !all;
        let ghost r0 = self.repos@;
        let nrepos = self.repos.len();
        let mut k: usize = 0;
        while k < ids.len()
            invariant
                k <= ids@.len(),
                ids@ == old(self).tree.ids_of(node),
                r0 == old(self).repos@,
                nrepos == r0.len(),
                *self == (App { repos: self.repos, ..*old(self) }),
                forall|j: int| 0 <= j < ids@.len() ==> #[trigger] ids@[j] < r0.len(),
                self.repos@ == Self::with_checked(r0, ids@.take(k as int), target),
            decreases ids@.len() - k,
        {
            let id = ids[k];
            self.repos[id].checked = target;
            proof {
                assert forall|q: int| 0 <= q < r0.len() implies #[trigger] self.repos@[q]
                    == Self::with_checked(r0, ids@.take(k + 1), target)[q] by {
                    let qq = q as RepoId;
                    assert(qq as int == q);
                    assert(ids@.take(k + 1)[k as int] == id);
                    if q != id as int {
                        if ids@.take(k + 1).contains(qq) {
                            let w = choose|w: int| 0 <= w < k + 1 && #[trigger] ids@.take(k + 1)[w] == qq;
                            assert(w != k);
                            assert(ids@.take(k as int)[w] == ids@[w]);
                            assert(ids@.take(k as int).contains(qq));
                        }
                        if ids@.take(k as int).contains(qq) {
                            let w = choose|w: int| 0 <= w < k && #[trigger] ids@.take(k as int)[w] == qq;
                            assert(ids@.take(k + 1)[w] == ids@[w]);
                            assert(ids@.take(k + 1).contains(qq));
                        }
                    } else {
                        assert(ids@.take(k + 1).contains(qq));
                    }
                }
                assert(self.repos@ =~= Self::with_checked(r0, ids@.take(k + 1), target));
            }
            k = k + 1;
        }
        assert(ids@.take(ids@.len() as int) == ids@);
    }

    /// Set every repo's checkbox.
    pub fn set_all_checked(&mut self, checked: bool)
        ensures
            *final(self) == (App { repos: final(self).repos, ..*old(self) }),
            final(self).repos@.len() == old(self).repos@.len(),
            forall|k: int| 0 <= k < old(self).repos@.len() ==> #[trigger] final(self).repos@[k] == (Repo {
                checked,
                ..old(self).repos@[k]
            }),
    {
        let mut k: usize = 0;
        while k < self.repos.len()
            invariant
                k <= self.repos@.len(),
                self.repos@.len() == old(self).repos@.len(),
                *self == (App { repos: self.repos, ..*old(self) }),
                forall|j: int| 0 <= j < k ==> #[trigger] self.repos@[j] == (Repo { checked, ..old(self).repos@[j] }),
                forall|j: int| k <= j < self.repos@.len() ==> #[trigger] self.repos@[j] == old(self).repos@[j],
            decreases self.repos@.len() - k,
        {
            self.repos[k].checked = checked;
            k = k + 1;
        }
    }

    /// The tri-state of a node's checkbox.
    pub fn check_state(&self, node: NodeRef) -> (s: CheckState)
        requires
            self.wf(),
            node matches NodeRef::Repo(id) ==> id < self.repos@.len(),
        ensures
            s == self.check_state_of(node),
    {
        proof {
            self.lemma_node_ids_below(node);
        }
        let ids = self.tree.repo_ids(node);
        let ghost pred = |id: RepoId| self.repos@[id as int].checked;
        let mut n: usize = 0;
        let mut k: usize = 0;
        while k < ids.len()
            invariant
                k <= ids@.len(),
                ids@ == self.tree.ids_of(node),
                forall|j: int| 0 <= j < ids@.len() ==> #[trigger] ids@[j] < self.repos@.len(),
                pred == (|id: RepoId| self.repos@[id as int].checked),
                n == ids@.take(k as int).filter(pred).len(),
                n <= k,
            decreases ids@.len() - k,
        {
            proof {
                ids@.take(k as int).lemma_filter_push(ids@[k as int], pred);
                assert(ids@.take(k + 1) == ids@.take(k as int).push(ids@[k as int]));
            }
            if self.repos[ids[k]].checked {
                n = n + 1;
            }
            k = k + 1;
        }
        assert(ids@.take(ids@.len() as int) == ids@);
        if n == 0 {
            CheckState::Unchecked
        } else if n == ids.len() {
            CheckState::All
        } else {
            CheckState::Partial
        }
    }
}

} // verus!
