//! Keys and mouse clicks turned into actions, and the actions applied.

use vstd::prelude::*;
use crate::action::Action;
use crate::app::{App, Area, Effect, Hit, Pane, contains, toggle_expand_of, history_prev_post, history_next_post};
use crate::input::{edit_code_of, line_after_key, modifier_bits_of};
use crate::keys::{Key, KeyCode, key_string, key_to_string, keymap_find, keymap_get, keymap_view};
use crate::text::{parse_usize, spec_parse_usize, str_eq, substring};
use crate::tree::{NodeRef, TreeView};

verus! {

/// The action a config keymap name stands for, given the node under the
/// cursor. Cursor-relative names act on that node.
pub open spec fn named_action(t: TreeView, name: Seq<char>) -> Option<Action> {
    let cursor = t.cursor_of();
    if name == "rescan"@ {
        Some(Action::Rescan)
    } else if name == "cancel"@ {
        Some(Action::Cancel)
    } else if name == "run"@ {
        Some(Action::Run)
    } else if name == "quit"@ {
        Some(Action::Quit)
    } else if name == "cursor_up"@ {
        Some(Action::CursorUp)
    } else if name == "cursor_down"@ {
        Some(Action::CursorDown)
    } else if name == "check_all"@ {
        Some(Action::CheckAll)
    } else if name == "uncheck_all"@ {
        Some(Action::UncheckAll)
    } else if name == "clear_focus"@ {
        Some(Action::ClearFocus)
    } else if name == "scroll_up"@ {
        Some(Action::ScrollUp)
    } else if name == "scroll_down"@ {
        Some(Action::ScrollDown)
    } else if name == "scroll_top"@ {
        Some(Action::ScrollTop)
    } else if name == "scroll_bottom"@ {
        Some(Action::ScrollBottom)
    } else if name == "copy_output"@ {
        Some(Action::CopyOutput)
    } else if name == "input"@ {
        Some(Action::FocusPane(Pane::Input))
    } else if name == "toggle_check"@ {
        match cursor {
            Some(n) => Some(Action::ToggleCheck(n)),
            None => None,
        }
    } else if name == "expand"@ {
        match cursor {
            Some(n) => Some(Action::Expand(n)),
            None => None,
        }
    } else if name == "collapse"@ {
        match cursor {
            Some(n) => Some(Action::Collapse(n)),
            None => None,
        }
    } else if name == "toggle_expand"@ {
        match cursor {
            Some(n) => Some(toggle_expand_of(t, n)),
            None => None,
        }
    } else if name == "focus"@ {
        match cursor {
            Some(NodeRef::Repo(id)) => Some(Action::Focus(id)),
            _ => None,
        }
    } else if name.len() >= 7 && name.take(7) == "preset:"@ {
        match spec_parse_usize(name.skip(7)) {
            Some(i) => Some(Action::LoadPreset(i)),
            None => None,
        }
    } else {
        None
    }
}

/// The built-in key bindings outside the input pane.
pub open spec fn nav_action(t: TreeView, key: Key) -> Option<Action> {
    let cursor = t.cursor_of();
    match key.code {
        KeyCode::Char(c) => if c == 'q' {
            Some(Action::Quit)
        } else if c == 'i' || c == '/' {
            Some(Action::FocusPane(Pane::Input))
        } else if c == 'j' {
            Some(Action::CursorDown)
        } else if c == 'k' {
            Some(Action::CursorUp)
        } else if c == 'l' {
            match cursor {
                Some(n) => Some(Action::Expand(n)),
                None => None,
            }
        } else if c == 'h' {
            match cursor {
                Some(n) => Some(Action::Collapse(n)),
                None => None,
            }
        } else if c == ' ' {
            match cursor {
                Some(n) => Some(Action::ToggleCheck(n)),
                None => None,
            }
        } else if c == 'a' {
            Some(Action::CheckAll)
        } else if c == 'A' && key.modifiers.is_shift_only() {
            Some(Action::UncheckAll)
        } else if c == 'c' {
            Some(Action::Cancel)
        } else if c == 'r' {
            Some(Action::Rescan)
        } else {
            None
        },
        KeyCode::Down => Some(Action::CursorDown),
        KeyCode::Up => Some(Action::CursorUp),
        KeyCode::Right => match cursor {
            Some(n) => Some(Action::Expand(n)),
            None => None,
        },
        KeyCode::Left => match cursor {
            Some(n) => Some(Action::Collapse(n)),
            None => None,
        },
        KeyCode::Enter => match cursor {
            Some(NodeRef::Repo(id)) => Some(Action::Focus(id)),
            _ => None,
        },
        KeyCode::Esc => Some(Action::ClearFocus),
        KeyCode::PageDown => Some(Action::ScrollDown),
        KeyCode::PageUp => Some(Action::ScrollUp),
        KeyCode::Home => Some(Action::ScrollTop),
        KeyCode::End => Some(Action::ScrollBottom),
        _ => None,
    }
}

/// The action that the config keymap binds `key` to.
pub open spec fn keymap_action_of(a: App, key: Key) -> Option<Action> {
    match key_string(key) {
        Some(s) => match keymap_get(keymap_view(a.keymap@), s) {
            Some(name) => named_action(a.tree, name),
            None => None,
        },
        None => None,
    }
}

/// What a key press does.
pub enum KeyStep {
    /// Apply this action.
    Apply(Action),
    /// Move focus to the next pane.
    CyclePane,
    /// Leave the input pane for the tree.
    LeaveInput,
    /// Step back in the command history.
    HistoryPrev,
    /// Step forward in the command history.
    HistoryNext,
    /// Hand the key to the line editor.
    Edit,
    /// Nothing.
    Ignore,
}

/// The step a key press takes: Ctrl-C always quits, Tab cycles panes, the
/// input pane edits, otherwise the config keymap comes before the built-ins.
pub open spec fn key_step(a: App, key: Key) -> KeyStep {
    if key.modifiers.control && key.code == KeyCode::Char('c') {
        KeyStep::Apply(Action::Quit)
    } else if key.code == KeyCode::Tab {
        KeyStep::CyclePane
    } else if a.active_pane == Pane::Input {
        match key.code {
            KeyCode::Enter => KeyStep::Apply(Action::Run),
            KeyCode::Esc => KeyStep::LeaveInput,
            KeyCode::Up => KeyStep::HistoryPrev,
            KeyCode::Down => KeyStep::HistoryNext,
            _ => KeyStep::Edit,
        }
    } else {
        match keymap_action_of(a, key) {
            Some(act) => KeyStep::Apply(act),
            None => match nav_action(a.tree, key) {
                Some(act) => KeyStep::Apply(act),
                None => KeyStep::Ignore,
            },
        }
    }
}

/// The action a click on a tree row decides by column: for a repo, the
/// checkbox toggles and the rest focuses; for a group, the checkbox toggles
/// and the marker or label folds / unfolds.
pub open spec fn tree_click_of(t: TreeView, node: NodeRef, indent_level: u16, text_x: u16, col: u16) -> Option<Action> {
    if col < text_x {
        None
    } else {
        let rel = col - text_x;
        let indent = indent_level * 2;
        match node {
            NodeRef::Repo(id) => if rel == indent {
                Some(Action::ToggleCheck(node))
            } else if rel > indent {
                Some(Action::Focus(id))
            } else {
                None
            },
            _ => if rel == indent + 2 {
                Some(Action::ToggleCheck(node))
            } else {
                Some(toggle_expand_of(t, node))
            },
        }
    }
}

/// The topmost recorded hit at (col, row): the last one drawn.
pub open spec fn last_hit(hits: Seq<(Area, Hit)>, col: u16, row: u16) -> Option<Hit>
    decreases hits.len(),
{
    if hits.len() == 0 {
        None
    } else if hits.last().0.has(col, row) {
        Some(hits.last().1)
    } else {
        last_hit(hits.drop_last(), col, row)
    }
}

/// The state after a click moves the cursor to a tree row.
pub open spec fn on_row(a: App, row_index: usize) -> App {
    App { active_pane: Pane::Tree, tree: TreeView { cursor: row_index, ..a.tree }, ..a }
}

/// The pane that a click outside every hit focuses, if any.
pub open spec fn pane_at(a: App, col: u16, row: u16) -> Option<Pane> {
    if a.input_area.has(col, row) {
        Some(Pane::Input)
    } else if a.output_area.has(col, row) {
        Some(Pane::Output)
    } else if a.tree_area.has(col, row) {
        Some(Pane::Tree)
    } else {
        None
    }
}

/// A click can be handled: the action it leads to can be applied.
pub open spec fn click_ok(a: App, col: u16, row: u16) -> bool {
    match last_hit(a.hit@, col, row) {
        Some(Hit::Fire(act)) => a.action_ok(act),
        Some(Hit::TreeRow { node, row_index, text_x, indent }) => match tree_click_of(
            a.tree,
            node,
            indent,
            text_x,
            col,
        ) {
            Some(act) => on_row(a, row_index).action_ok(act),
            None => true,
        },
        None => true,
    }
}

/// What a left click at (col, row) gives.
pub open spec fn click_post(a: App, col: u16, row: u16, b: App, e: Effect) -> bool {
    match last_hit(a.hit@, col, row) {
        Some(Hit::Fire(act)) => App::apply_post(a, act, b, e),
        Some(Hit::TreeRow { node, row_index, text_x, indent }) => match tree_click_of(
            a.tree,
            node,
            indent,
            text_x,
            col,
        ) {
            Some(act) => App::apply_post(on_row(a, row_index), act, b, e),
            None => b == on_row(a, row_index) && e is Nothing,
        },
        None => e is Nothing && match pane_at(a, col, row) {
            Some(p) => b == (App { active_pane: p, ..a }),
            None => b == a,
        },
    }
}

/// Truncating division by 3, as Rust's `/` does on a signed value.
pub open spec fn div3(d: int) -> int {
    if d >= 0 { d / 3 } else { -((-d) / 3) }
}

/// The pane after the focused one.
pub open spec fn next_pane(p: Pane) -> Pane {
    match p {
        Pane::Tree => Pane::Output,
        Pane::Output => Pane::Input,
        Pane::Input => Pane::Tree,
    }
}

/// A key press can be handled: the action it leads to can be applied, and a
/// line to edit has room for one more character.
pub open spec fn key_ok(a: App, key: Key) -> bool {
    &&& key_step(a, key) matches KeyStep::Apply(act) ==> a.action_ok(act)
    &&& key_step(a, key) is Edit ==> a.input.value@.len() < usize::MAX
}

/// What a key press gives: the new state `b` and the work `e`.
pub open spec fn key_post(a: App, key: Key, b: App, e: Effect) -> bool {
    match key_step(a, key) {
        KeyStep::Apply(act) => App::apply_post(a, act, b, e),
        KeyStep::CyclePane => b == (App { active_pane: next_pane(a.active_pane), ..a }) && e is Nothing,
        KeyStep::LeaveInput => b == (App { active_pane: Pane::Tree, ..a }) && e is Nothing,
        KeyStep::HistoryPrev => history_prev_post(a, b) && e is Nothing,
        KeyStep::HistoryNext => history_next_post(a, b) && e is Nothing,
        KeyStep::Edit => {
            &&& b == (App { input: b.input, ..a })
            &&& (b.input.value@, b.input.cursor) == line_after_key(
                a.input.value@,
                a.input.cursor,
                edit_code_of(key.code),
                modifier_bits_of(key.modifiers),
            )
            &&& e is Nothing
        },
        KeyStep::Ignore => b == a && e is Nothing,
    }
}

/// Mouse events that the application reacts to.
#[derive(Debug, Clone, Copy, PartialEq, Eq, Structural)]
pub enum MouseKind {
    /// Left button pressed.
    LeftDown,
    /// Wheel down.
    ScrollDown,
    /// Wheel up.
    ScrollUp,
    /// Anything else.
    Other,
}

/// The inputs on which a wheel step by `delta` lines can be handled: moving
/// the tree cursor by `delta / 3` rows stays in range.
pub open spec fn scroll_ok(a: App, col: u16, row: u16, delta: i32) -> bool {
    !a.output_area.has(col, row) && a.tree_area.has(col, row) ==> isize::MIN <= (a.tree.cursor as isize)
        + div3(delta as int) <= isize::MAX
}

/// What a wheel step by `delta` lines at (col, row) gives.
pub open spec fn scroll_post(a: App, col: u16, row: u16, delta: i32, b: App) -> bool {
    if a.output_area.has(col, row) {
        App::apply_post(a, if delta < 0 { Action::ScrollUp } else { Action::ScrollDown }, b, Effect::Nothing)
    } else if a.tree_area.has(col, row) {
        b == (App { tree: TreeView { cursor: crate::app::moved_cursor(a.tree, div3(delta as int)), ..a.tree }, ..a })
    } else {
        b == a
    }
}

proof fn lemma_last_hit_in(hits: Seq<(Area, Hit)>, col: u16, row: u16)
    ensures
        last_hit(hits, col, row) matches Some(h) ==> exists|k: int| 0 <= k < hits.len() && #[trigger] hits[k].1 == h,
    decreases hits.len(),
{
    if hits.len() > 0 {
        lemma_last_hit_in(hits.drop_last(), col, row);
        if !hits.last().0.has(col, row) {
            if let Some(h) = last_hit(hits.drop_last(), col, row) {
                let k = choose|k: int| 0 <= k < hits.drop_last().len() && #[trigger] hits.drop_last()[k].1 == h;
                assert(hits[k].1 == h);
            }
        } else {
            assert(hits[hits.len() - 1].1 == hits.last().1);
        }
    }
}

/// Decide the action from the clicked column of a tree row.
pub fn tree_click_action(tree: &TreeView, node: NodeRef, indent_level: u16, text_x: u16, col: u16) -> (a: Option<Action>)
    requires
        indent_level <= 32766,
    ensures
        a == tree_click_of(*tree, node, indent_level, text_x, col),
{
    if col < text_x {
        return None;
    }
    let rel = col - text_x;
    let indent = indent_level * 2;
    match node {
        NodeRef::Repo(id) => {
            if rel == indent {
                Some(Action::ToggleCheck(node))
            } else if rel > indent {
                Some(Action::Focus(id))
            } else {
                None
            }
        },
        _ => {
            if rel == indent + 2 {
                Some(Action::ToggleCheck(node))
            } else {
                Some(toggle_expand(tree, node))
            }
        },
    }
}

/// The action that folds or unfolds a node.
pub fn toggle_expand(tree: &TreeView, node: NodeRef) -> (a: Action)
    ensures
        a == toggle_expand_of(*tree, node),
{
    if tree.is_expanded(node) {
        Action::Collapse(node)
    } else {
        Action::Expand(node)
    }
}

impl App {
    /// Config keymap action name → Action. Cursor-relative ones act on the current cursor.
    pub fn resolve_named_action(&self, name: &str) -> (a: Option<Action>)
        ensures
            a == named_action(self.tree, name@),
    {
        let cursor = self.tree.cursor_node();
        if str_eq(name, "rescan") {
            Some(Action::Rescan)
        } else if str_eq(name, "cancel") {
            Some(Action::Cancel)
        } else if str_eq(name, "run") {
            Some(Action::Run)
        } else if str_eq(name, "quit") {
            Some(Action::Quit)
        } else if str_eq(name, "cursor_up") {
            Some(Action::CursorUp)
        } else if str_eq(name, "cursor_down") {
            Some(Action::CursorDown)
        } else if str_eq(name, "check_all") {
            Some(Action::CheckAll)
        } else if str_eq(name, "uncheck_all") {
            Some(Action::UncheckAll)
        } else if str_eq(name, "clear_focus") {
            Some(Action::ClearFocus)
        } else if str_eq(name, "scroll_up") {
            Some(Action::ScrollUp)
        } else if str_eq(name, "scroll_down") {
            Some(Action::ScrollDown)
        } else if str_eq(name, "scroll_top") {
            Some(Action::ScrollTop)
        } else if str_eq(name, "scroll_bottom") {
            Some(Action::ScrollBottom)
        } else if str_eq(name, "copy_output") {
            Some(Action::CopyOutput)
        } else if str_eq(name, "input") {
            Some(Action::FocusPane(Pane::Input))
        } else if str_eq(name, "toggle_check") {
            match cursor {
                Some(n) => Some(Action::ToggleCheck(n)),
                None => None,
            }
        } else if str_eq(name, "expand") {
            match cursor {
                Some(n) => Some(Action::Expand(n)),
                None => None,
            }
        } else if str_eq(name, "collapse") {
            match cursor {
                Some(n) => Some(Action::Collapse(n)),
                None => None,
            }
        } else if str_eq(name, "toggle_expand") {
            match cursor {
                Some(n) => Some(toggle_expand(&self.tree, n)),
                None => None,
            }
        } else if str_eq(name, "focus") {
            match cursor {
                Some(NodeRef::Repo(id)) => Some(Action::Focus(id)),
                _ => None,
            }
        } else {
            let n = name.unicode_len();
            if n >= 7 {
                let head = substring(name, 0, 7);
                if str_eq(head.as_str(), "preset:") {
                    let rest = substring(name, 7, n);
                    assert(rest@ == name@.skip(7));
                    return match parse_usize(rest.as_str()) {
                        Some(i) => Some(Action::LoadPreset(i)),
                        None => None,
                    };
                }
            }
            None
        }
    }

    /// Default keys → Action in nav (non-input) mode.
    pub fn map_nav_key(&self, key: Key) -> (a: Option<Action>)
        ensures
            a == nav_action(self.tree, key),
    {
        let cursor = self.tree.cursor_node();
        match key.code {
            KeyCode::Char(c) => {
                if c == 'q' {
                    Some(Action::Quit)
                } else if c == 'i' || c == '/' {
                    Some(Action::FocusPane(Pane::Input))
                } else if c == 'j' {
                    Some(Action::CursorDown)
                } else if c == 'k' {
                    Some(Action::CursorUp)
                } else if c == 'l' {
                    match cursor {
                        Some(n) => Some(Action::Expand(n)),
                        None => None,
                    }
                } else if c == 'h' {
                    match cursor {
                        Some(n) => Some(Action::Collapse(n)),
                        None => None,
                    }
                } else if c == ' ' {
                    match cursor {
                        Some(n) => Some(Action::ToggleCheck(n)),
                        None => None,
                    }
                } else if c == 'a' {
                    Some(Action::CheckAll)
                } else if c == 'A' && key.modifiers.shift && !key.modifiers.control && !key.modifiers.alt
                    && !key.modifiers.meta && !key.modifiers.other {
                    Some(Action::UncheckAll)
                } else if c == 'c' {
                    Some(Action::Cancel)
                } else if c == 'r' {
                    Some(Action::Rescan)
                } else {
                    None
                }
            },
            KeyCode::Down => Some(Action::CursorDown),
            KeyCode::Up => Some(Action::CursorUp),
            KeyCode::Right => match cursor {
                Some(n) => Some(Action::Expand(n)),
                None => None,
            },
            KeyCode::Left => match cursor {
                Some(n) => Some(Action::Collapse(n)),
                None => None,
            },
            KeyCode::Enter => match cursor {
                Some(NodeRef::Repo(id)) => Some(Action::Focus(id)),
                _ => None,
            },
            KeyCode::Esc => Some(Action::ClearFocus),
            KeyCode::PageDown => Some(Action::ScrollDown),
            KeyCode::PageUp => Some(Action::ScrollUp),
            KeyCode::Home => Some(Action::ScrollTop),
            KeyCode::End => Some(Action::ScrollBottom),
            _ => None,
        }
    }

    /// The config keymap's action for a key.
    pub fn keymap_action(&self, key: Key) -> (a: Option<Action>)
        ensures
            a == keymap_action_of(*self, key),
    {
        let s = match key_to_string(key) {
            Some(s) => s,
            None => {
                return None;
            },
        };
        match keymap_find(&self.keymap, &s) {
            Some(i) => {
                assert(keymap_view(self.keymap@)[i as int].1 == self.keymap@[i as int].1@);
                self.resolve_named_action(self.keymap[i].1.as_str())
            },
            None => None,
        }
    }

    /// Handle one key press.
    pub fn on_key(&mut self, key: Key) -> (e: Effect)
        requires
            old(self).wf(),
            key_ok(*old(self), key),
        ensures
            final(self).wf(),
            key_post(*old(self), key, *final(self), e),
    {
        match self.key_step(key) {
            KeyStep::Apply(act) => self.apply(act),
            KeyStep::CyclePane => {
                self.cycle_pane();
                Effect::Nothing
            },
            KeyStep::LeaveInput => {
                self.active_pane = Pane::Tree;
                Effect::Nothing
            },
            KeyStep::HistoryPrev => {
                self.history_prev();
                Effect::Nothing
            },
            KeyStep::HistoryNext => {
                self.history_next();
                Effect::Nothing
            },
            KeyStep::Edit => {
                self.input.handle_key(key.code, key.modifiers);
                Effect::Nothing
            },
            KeyStep::Ignore => Effect::Nothing,
        }
    }

    /// The topmost recorded hit at (col, row).
    pub fn find_hit(&self, col: u16, row: u16) -> (h: Option<Hit>)
        requires
            self.wf(),
        ensures
            h == last_hit(self.hit@, col, row),
    {
        let ghost hits = self.hit@;
        let mut i = self.hit.len();
        assert(hits.take(i as int) =~= hits);
        while i > 0
            invariant
                i <= hits.len(),
                hits == self.hit@,
                self.wf(),
                last_hit(hits, col, row) == last_hit(hits.take(i as int), col, row),
            decreases i,
        {
            let entry = self.hit[i - 1];
            proof {
                assert(crate::app::hit_ok(hits[i - 1]));
                assert(hits.take(i as int).last() == entry);
                assert(hits.take(i as int).drop_last() =~= hits.take(i - 1));
            }
            if contains(entry.0, col, row) {
                return Some(entry.1);
            }
            i = i - 1;
        }
        None
    }

    /// Handle a left click at (col, row).
    pub fn handle_click(&mut self, col: u16, row: u16) -> (e: Effect)
        requires
            old(self).wf(),
            click_ok(*old(self), col, row),
        ensures
            final(self).wf(),
            click_post(*old(self), col, row, *final(self), e),
    {
        match self.find_hit(col, row) {
            Some(Hit::Fire(action)) => self.apply(action),
            Some(Hit::TreeRow { node, row_index, text_x, indent }) => {
                proof {
                    lemma_last_hit_in(self.hit@, col, row);
                    let k = choose|k: int| 0 <= k < self.hit@.len() && #[trigger] self.hit@[k].1 == Hit::TreeRow {
                        node,
                        row_index,
                        text_x,
                        indent,
                    };
                    assert(crate::app::hit_ok(self.hit@[k]));
                }
                self.active_pane = Pane::Tree;
                self.tree.cursor = row_index;
                match tree_click_action(&self.tree, node, indent, text_x, col) {
                    Some(action) => self.apply(action),
                    None => Effect::Nothing,
                }
            },
            None => {
                if contains(self.input_area, col, row) {
                    self.active_pane = Pane::Input;
                } else if contains(self.output_area, col, row) {
                    self.active_pane = Pane::Output;
                } else if contains(self.tree_area, col, row) {
                    self.active_pane = Pane::Tree;
                }
                Effect::Nothing
            },
        }
    }

    /// Handle a wheel step of `delta` lines at (col, row): scroll the output
    /// pane, or move the tree cursor by `delta / 3` rows.
    pub fn handle_scroll(&mut self, col: u16, row: u16, delta: i32)
        requires
            old(self).wf(),
            scroll_ok(*old(self), col, row, delta),
        ensures
            final(self).wf(),
            scroll_post(*old(self), col, row, delta, *final(self)),
    {
        if contains(self.output_area, col, row) {
            if delta < 0 {
                self.apply(Action::ScrollUp);
            } else {
                self.apply(Action::ScrollDown);
            }
        } else if contains(self.tree_area, col, row) {
            let d: i64 = delta as i64;
            let q: i64 = if d >= 0 { d / 3 } else { 0 - ((0 - d) / 3) };
            self.tree.move_cursor(q as isize);
        }
    }

    /// Handle one mouse event at (col, row).
    pub fn on_mouse(&mut self, kind: MouseKind, col: u16, row: u16) -> (e: Effect)
        requires
            old(self).wf(),
            kind == MouseKind::LeftDown ==> click_ok(*old(self), col, row),
            kind == MouseKind::ScrollDown ==> scroll_ok(*old(self), col, row, 3i32),
            kind == MouseKind::ScrollUp ==> scroll_ok(*old(self), col, row, -3i32),
        ensures
            final(self).wf(),
            match kind {
                MouseKind::LeftDown => click_post(*old(self), col, row, *final(self), e),
                MouseKind::ScrollDown => scroll_post(*old(self), col, row, 3i32, *final(self)) && e is Nothing,
                MouseKind::ScrollUp => scroll_post(*old(self), col, row, -3i32, *final(self)) && e is Nothing,
                MouseKind::Other => *final(self) == *old(self) && e is Nothing,
            },
    {
        match kind {
            MouseKind::LeftDown => self.handle_click(col, row),
            MouseKind::ScrollDown => {
                self.handle_scroll(col, row, 3);
                Effect::Nothing
            },
            MouseKind::ScrollUp => {
                self.handle_scroll(col, row, -3);
                Effect::Nothing
            },
            MouseKind::Other => Effect::Nothing,
        }
    }

    /// The step a key press takes.
    pub fn key_step(&self, key: Key) -> (s: KeyStep)
        ensures
            s == key_step(*self, key),
    {
        if key.modifiers.control && key.code == KeyCode::Char('c') {
            return KeyStep::Apply(Action::Quit);
        }
        if key.code == KeyCode::Tab {
            return KeyStep::CyclePane;
        }
        if self.active_pane == Pane::Input {
            return match key.code {
                KeyCode::Enter => KeyStep::Apply(Action::Run),
                KeyCode::Esc => KeyStep::LeaveInput,
                KeyCode::Up => KeyStep::HistoryPrev,
                KeyCode::Down => KeyStep::HistoryNext,
                _ => KeyStep::Edit,
            };
        }
        match self.keymap_action(key) {
            Some(act) => KeyStep::Apply(act),
            None => match self.map_nav_key(key) {
                Some(act) => KeyStep::Apply(act),
                None => KeyStep::Ignore,
            },
        }
    }
}

} // verus!
