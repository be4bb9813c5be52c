//! Properties that hold across calls and states: the grouping of the repo
//! tree and which rows it shows, check toggling and the tri-state, runs
//! (targets, history, statuses, output lines, ending), history browsing,
//! focus and the output pane's boxes and window, panes, keys and keymap
//! names, status labels, the text order, trimming, and the columns of a
//! drawn tree row that clicks act on.

use vstd::prelude::*;
use crate::action::Action;
use crate::app::{App, Area, CheckState, Effect, Hit, Pane, row_hit, lines_of, moved_cursor, toggle_expand_of, event_post, history_next_post, history_prev_post, dec, run_post, checked_ids};
use crate::events::{next_pane, named_action, nav_action, key_step, KeyStep, keymap_action_of, tree_click_of, click_post, last_hit};
use crate::pieces::{row_of, width_before};
use crate::theme::IconMode;
use crate::keys::{Key, KeyCode, Modifiers, key_string, keymap_get, keymap_view, merged_keymap, preset_binding};
use crate::config::Preset;
use crate::text::{lemma_parse_decimal_roundtrip, spec_decimal};
use crate::repo::{Repo, RepoId, RepoStatus, repos_sorted};
use crate::output::LineKind;
use crate::runner::Stream;
use crate::text::{lex_lt, spec_trim, spec_is_whitespace, ws_prefix_len, ws_suffix_len};
use crate::patterns::{prechecked, glob_compiles, glob_match};
use crate::view::{OutputRow, Tint, status_mark_of, spinner_frame, with_output_prefix, window, status_label_of, status_tint_of, name_tint, copy_header};
use crate::output::RepoOutput;
use crate::runner::RunnerEvent;
use crate::tree::{FqdnShape, UserShape, NodeRef, TreeView, VisibleRow, UserNode, FqdnNode, user_rows, users_rows, fqdn_rows, rows_upto, lemma_rows_indent, first_named, find_group, add_to_users, add_to_tree, grouped, repo_key};

verus! {

proof fn lemma_exists_first<T>(s: Seq<(Seq<char>, T)>, name: Seq<char>, k: int)
    requires
        0 <= k < s.len(),
        s[k].0 == name,
    ensures
        exists|i: int| first_named(s, name, i),
    decreases k,
{
    if exists|j: int| 0 <= j < k && #[trigger] s[j].0 == name {
        let j = choose|j: int| 0 <= j < k && #[trigger] s[j].0 == name;
        lemma_exists_first(s, name, j);
    } else {
        assert(first_named(s, name, k));
    }
}

/// What `find_group` gives: the first position named `name`, or -1 when no
/// position has that name.
pub proof fn lemma_find_group<T>(s: Seq<(Seq<char>, T)>, name: Seq<char>)
    ensures
        find_group(s, name) >= 0 ==> first_named(s, name, find_group(s, name)),
        find_group(s, name) < 0 ==> find_group(s, name) == -1 && forall|k: int| 0 <= k < s.len() ==> #[trigger] s[k].0 != name,
{
    if exists|k: int| 0 <= k < s.len() && #[trigger] s[k].0 == name {
        let k = choose|k: int| 0 <= k < s.len() && #[trigger] s[k].0 == name;
        lemma_exists_first(s, name, k);
    }
}

/// The names in `s` are pairwise different.
pub open spec fn names_distinct<T>(s: Seq<(Seq<char>, T)>) -> bool {
    forall|i: int, j: int| 0 <= i < j < s.len() ==> #[trigger] s[i].0 != #[trigger] s[j].0
}

/// The invariant of the grouping of the first `n` repos with keys `keys`.
pub open spec fn grouping_inv(keys: Seq<(Seq<char>, Seq<char>)>, n: int, g: Seq<FqdnShape>) -> bool {
    &&& names_distinct(g)
    &&& forall|fi: int| 0 <= fi < g.len() ==> names_distinct(#[trigger] g[fi].1)
    &&& forall|fi: int| 0 <= fi < g.len() ==> (#[trigger] g[fi]).1.len() > 0
    &&& forall|fi: int, ui: int| 0 <= fi < g.len() && 0 <= ui < g[fi].1.len() ==> (#[trigger] g[fi].1[ui]).1.len() > 0
    &&& forall|fi: int, ui: int, k: int|
        0 <= fi < g.len() && 0 <= ui < g[fi].1.len() && 0 <= k < g[fi].1[ui].1.len() ==> {
            let id = #[trigger] g[fi].1[ui].1[k];
            &&& id < n
            &&& keys[id as int].0 == g[fi].0
            &&& keys[id as int].1 == g[fi].1[ui].0
        }
    &&& forall|fi: int, ui: int, k: int, m: int|
        0 <= fi < g.len() && 0 <= ui < g[fi].1.len() && 0 <= k < m < g[fi].1[ui].1.len() ==> #[trigger] g[fi].1[ui].1[k]
            < #[trigger] g[fi].1[ui].1[m]
    &&& forall|id: int| 0 <= id < n ==> #[trigger] placed(keys, g, id)
}

/// Repo `id` sits in the group of its own (fqdn, user).
pub open spec fn placed(keys: Seq<(Seq<char>, Seq<char>)>, g: Seq<FqdnShape>, id: int) -> bool {
    exists|fi: int, ui: int|
        0 <= fi < g.len() && 0 <= ui < g[fi].1.len() && #[trigger] g[fi].1[ui].1.contains(id as RepoId)
            && g[fi].0 == keys[id].0 && g[fi].1[ui].0 == keys[id].1
}

proof fn lemma_add_to_users(us: Seq<UserShape>, u: Seq<char>, id: RepoId)
    requires
        names_distinct(us),
    ensures
        names_distinct(add_to_users(us, u, id)),
        ({
            let j = find_group(us, u);
            let r = add_to_users(us, u, id);
            &&& j >= 0 ==> r.len() == us.len() && r[j] == (u, us[j].1.push(id)) && forall|k: int| 0 <= k < us.len() && k != j ==> r[k] == us[k]
            &&& j < 0 ==> r == us.push((u, seq![id])) && forall|k: int| 0 <= k < us.len() ==> us[k].0 != u
            &&& j >= 0 ==> us[j].0 == u
        }),
{
    lemma_find_group(us, u);
    let j = find_group(us, u);
    let r = add_to_users(us, u, id);
    assert forall|a: int, b: int| 0 <= a < b < r.len() implies #[trigger] r[a].0 != #[trigger] r[b].0 by {
        if j < 0 {
            if b == us.len() {
                assert(us[a].0 != u);
            } else {
                assert(us[a].0 != us[b].0);
            }
        } else {
            assert(r[a].0 == us[a].0 && r[b].0 == us[b].0);
            assert(us[a].0 != us[b].0);
        }
    }
}

/// The grouping keeps its invariant: distinct names at each level, no empty
/// group, each repo id in the group of its own (fqdn, user) and below `n`,
/// ids ascending within a group, and every repo placed.
pub proof fn lemma_grouping_inv(keys: Seq<(Seq<char>, Seq<char>)>, n: int)
    requires
        0 <= n <= keys.len(),
        n <= usize::MAX,
    ensures
        grouping_inv(keys, n, grouped(keys, n)),
    decreases n,
{
    if n > 0 {
        lemma_grouping_inv(keys, n - 1);
        let t = grouped(keys, n - 1);
        let g = grouped(keys, n);
        let f = keys[n - 1].0;
        let u = keys[n - 1].1;
        let id = (n - 1) as RepoId;
        assert(id as int == n - 1);
        lemma_find_group(t, f);
        let i = find_group(t, f);
        if i < 0 {
            assert(g == t.push((f, seq![(u, seq![id])])));
            assert forall|a: int, b: int| 0 <= a < b < g.len() implies #[trigger] g[a].0 != #[trigger] g[b].0 by {
                if b == t.len() {
                    assert(t[a].0 != f);
                } else {
                    assert(t[a].0 != t[b].0);
                }
            }
            assert forall|fi: int| 0 <= fi < g.len() implies names_distinct(#[trigger] g[fi].1) by {
                if fi < t.len() {
                    assert(g[fi] == t[fi]);
                }
            }
            assert forall|fi: int, ui: int, k: int|
                0 <= fi < g.len() && 0 <= ui < g[fi].1.len() && 0 <= k < g[fi].1[ui].1.len() implies {
                    let x = #[trigger] g[fi].1[ui].1[k];
                    &&& x < n
                    &&& keys[x as int].0 == g[fi].0
                    &&& keys[x as int].1 == g[fi].1[ui].0
                } by {
                if fi < t.len() {
                    assert(g[fi] == t[fi]);
                }
            }
            assert forall|fi: int, ui: int, k: int, m: int|
                0 <= fi < g.len() && 0 <= ui < g[fi].1.len() && 0 <= k < m < g[fi].1[ui].1.len() implies #[trigger] g[fi].1[ui].1[k]
                    < #[trigger] g[fi].1[ui].1[m] by {
                if fi < t.len() {
                    assert(g[fi] == t[fi]);
                }
            }
            assert forall|x: int| 0 <= x < n implies #[trigger] placed(keys, g, x) by {
                if x == n - 1 {
                    assert(g[t.len() as int].1[0].1[0] == id);
                    assert(g[t.len() as int].1[0].1.contains(x as RepoId));
                } else {
                    assert(placed(keys, t, x));
                    let (fi, ui) = choose|fi: int, ui: int|
                        0 <= fi < t.len() && 0 <= ui < t[fi].1.len() && #[trigger] t[fi].1[ui].1.contains(x as RepoId)
                            && t[fi].0 == keys[x].0 && t[fi].1[ui].0 == keys[x].1;
                    assert(g[fi] == t[fi]);
                    assert(g[fi].1[ui].1.contains(x as RepoId));
                }
            }
            assert forall|fi: int| 0 <= fi < g.len() implies (#[trigger] g[fi]).1.len() > 0 by {
                if fi < t.len() {
                    assert(g[fi] == t[fi]);
                }
            }
            assert forall|fi: int, ui: int| 0 <= fi < g.len() && 0 <= ui < g[fi].1.len() implies (#[trigger] g[fi].1[ui]).1.len()
                > 0 by {
                if fi < t.len() {
                    assert(g[fi] == t[fi]);
                }
            }
        } else {
            let us = t[i].1;
            lemma_add_to_users(us, u, id);
            let nus = add_to_users(us, u, id);
            let j = find_group(us, u);
            assert(g == t.update(i, (f, nus)));
            assert(t[i].0 == f);
            assert forall|a: int, b: int| 0 <= a < b < g.len() implies #[trigger] g[a].0 != #[trigger] g[b].0 by {
                assert(t[a].0 != t[b].0);
            }
            assert forall|fi: int| 0 <= fi < g.len() implies names_distinct(#[trigger] g[fi].1) by {
                if fi != i {
                    assert(g[fi] == t[fi]);
                }
            }
            assert forall|fi: int, ui: int, k: int|
                0 <= fi < g.len() && 0 <= ui < g[fi].1.len() && 0 <= k < g[fi].1[ui].1.len() implies {
                    let x = #[trigger] g[fi].1[ui].1[k];
                    &&& x < n
                    &&& keys[x as int].0 == g[fi].0
                    &&& keys[x as int].1 == g[fi].1[ui].0
                } by {
                if fi != i {
                    assert(g[fi] == t[fi]);
                } else if j < 0 {
                    if ui < us.len() {
                        assert(g[fi].1[ui] == us[ui]);
                        assert(t[i].1[ui].1[k] == us[ui].1[k]);
                    }
                } else if ui != j {
                    assert(g[fi].1[ui] == us[ui]);
                    assert(t[i].1[ui].1[k] == us[ui].1[k]);
                } else {
                    if k < us[j].1.len() {
                        assert(g[fi].1[ui].1[k] == us[j].1[k]);
                        assert(t[i].1[j].1[k] == us[j].1[k]);
                    }
                }
            }
            assert forall|fi: int, ui: int, k: int, m: int|
                0 <= fi < g.len() && 0 <= ui < g[fi].1.len() && 0 <= k < m < g[fi].1[ui].1.len() implies #[trigger] g[fi].1[ui].1[k]
                    < #[trigger] g[fi].1[ui].1[m] by {
                if fi != i {
                    assert(g[fi] == t[fi]);
                } else if j < 0 {
                    if ui < us.len() {
                        assert(g[fi].1[ui] == us[ui]);
                        assert(t[i].1[ui] == us[ui]);
                    }
                } else if ui != j {
                    assert(g[fi].1[ui] == us[ui]);
                    assert(t[i].1[ui] == us[ui]);
                } else {
                    assert(t[i].1[j] == us[j]);
                    if m < us[j].1.len() {
                        assert(g[fi].1[ui].1[m] == us[j].1[m]);
                        assert(g[fi].1[ui].1[k] == us[j].1[k]);
                    } else {
                        assert(g[fi].1[ui].1[k] == us[j].1[k]);
                        assert(us[j].1[k] < n - 1);
                    }
                }
            }
            assert forall|x: int| 0 <= x < n implies #[trigger] placed(keys, g, x) by {
                if x == n - 1 {
                    if j < 0 {
                        let ui = us.len() as int;
                        assert(g[i].1[ui].1[0] == id);
                        assert(g[i].1[ui].1.contains(x as RepoId));
                    } else {
                        assert(g[i].1[j].1[us[j].1.len() as int] == id);
                        assert(g[i].1[j].1.contains(x as RepoId));
                    }
                } else {
                    assert(placed(keys, t, x));
                    let (fi, ui) = choose|fi: int, ui: int|
                        0 <= fi < t.len() && 0 <= ui < t[fi].1.len() && #[trigger] t[fi].1[ui].1.contains(x as RepoId)
                            && t[fi].0 == keys[x].0 && t[fi].1[ui].0 == keys[x].1;
                    if fi != i {
                        assert(g[fi] == t[fi]);
                        assert(g[fi].1[ui].1.contains(x as RepoId));
                    } else if j < 0 || ui != j {
                        assert(g[fi].1[ui] == us[ui]);
                        assert(g[fi].1[ui].1.contains(x as RepoId));
                    } else {
                        let w = choose|w: int| 0 <= w < us[j].1.len() && us[j].1[w] == x as RepoId;
                        assert(g[fi].1[ui].1[w] == x as RepoId);
                        assert(g[fi].1[ui].1.contains(x as RepoId));
                    }
                }
            }
            assert forall|fi: int| 0 <= fi < g.len() implies (#[trigger] g[fi]).1.len() > 0 by {
                if fi != i {
                    assert(g[fi] == t[fi]);
                }
            }
            assert forall|fi: int, ui: int| 0 <= fi < g.len() && 0 <= ui < g[fi].1.len() implies (#[trigger] g[fi].1[ui]).1.len()
                > 0 by {
                if fi != i {
                    assert(g[fi] == t[fi]);
                } else if j < 0 {
                    if ui < us.len() {
                        assert(g[fi].1[ui] == us[ui]);
                    }
                } else if ui != j {
                    assert(g[fi].1[ui] == us[ui]);
                }
            }
        }
    }
}

/// In the tree built from a repo list, every repo sits at exactly one place:
/// two places that hold the same repo id are the same place.
pub proof fn law_each_repo_once(keys: Seq<(Seq<char>, Seq<char>)>, n: int)
    requires
        0 <= n <= keys.len(),
        n <= usize::MAX,
    ensures
        forall|fi: int, ui: int, k: int, fj: int, uj: int, m: int|
            0 <= fi < grouped(keys, n).len() && 0 <= ui < grouped(keys, n)[fi].1.len() && 0 <= k
                < grouped(keys, n)[fi].1[ui].1.len() && 0 <= fj < grouped(keys, n).len() && 0 <= uj
                < grouped(keys, n)[fj].1.len() && 0 <= m < grouped(keys, n)[fj].1[uj].1.len()
                && #[trigger] grouped(keys, n)[fi].1[ui].1[k] == #[trigger] grouped(keys, n)[fj].1[uj].1[m] ==> fi == fj
                && ui == uj && k == m,
{
    lemma_grouping_inv(keys, n);
    let g = grouped(keys, n);
    assert forall|fi: int, ui: int, k: int, fj: int, uj: int, m: int|
        0 <= fi < g.len() && 0 <= ui < g[fi].1.len() && 0 <= k < g[fi].1[ui].1.len() && 0 <= fj < g.len() && 0 <= uj
            < g[fj].1.len() && 0 <= m < g[fj].1[uj].1.len() && #[trigger] g[fi].1[ui].1[k] == #[trigger] g[fj].1[uj].1[m]
        implies fi == fj && ui == uj && k == m by {
        let id = g[fi].1[ui].1[k];
        assert(keys[id as int].0 == g[fi].0 && keys[id as int].0 == g[fj].0);
        if fi != fj {
            if fi < fj {
                assert(g[fi].0 != g[fj].0);
            } else {
                assert(g[fj].0 != g[fi].0);
            }
        }
        assert(names_distinct(g[fi].1));
        if ui != uj {
            if ui < uj {
                assert(g[fi].1[ui].0 != g[fi].1[uj].0);
            } else {
                assert(g[fi].1[uj].0 != g[fi].1[ui].0);
            }
        }
        if k < m {
            assert(g[fi].1[ui].1[k] < g[fi].1[ui].1[m]);
        } else if m < k {
            assert(g[fi].1[ui].1[m] < g[fi].1[ui].1[k]);
        }
    }
}

/// The tree that `TreeView::build` makes from `repos` groups them as the
/// README describes: fqdn groups with distinct names, user groups with
/// distinct names inside each, no empty group, and each repo exactly once,
/// under its own fqdn and user, in list order within its group.
pub proof fn law_built_tree(repos: Seq<Repo>, t: TreeView)
    requires
        repos.len() <= usize::MAX,
        t.shape() == grouped(repos.map_values(|r: Repo| repo_key(r)), repos.len() as int),
    ensures
        grouping_inv(repos.map_values(|r: Repo| repo_key(r)), repos.len() as int, t.shape()),
{
    lemma_grouping_inv(repos.map_values(|r: Repo| repo_key(r)), repos.len() as int);
}

proof fn lemma_filter_count<A>(s: Seq<A>, p: spec_fn(A) -> bool)
    ensures
        (s.filter(p).len() == s.len()) == (forall|i: int| 0 <= i < s.len() ==> p(#[trigger] s[i])),
        (s.filter(p).len() == 0) == (forall|i: int| 0 <= i < s.len() ==> !p(#[trigger] s[i])),
    decreases s.len(),
{
    reveal(Seq::filter);
    s.lemma_filter_len(p);
    if s.len() > 0 {
        let d = s.drop_last();
        lemma_filter_count(d, p);
        d.lemma_filter_len(p);
        assert forall|i: int| 0 <= i < d.len() implies d[i] == s[i] by {}
        if !(forall|i: int| 0 <= i < s.len() ==> p(#[trigger] s[i])) {
            let w = choose|i: int| 0 <= i < s.len() && !p(#[trigger] s[i]);
            if w < d.len() {
                assert(!p(d[w]));
            }
        }
        if !(forall|i: int| 0 <= i < s.len() ==> !p(#[trigger] s[i])) {
            let w = choose|i: int| 0 <= i < s.len() && p(#[trigger] s[i]);
            if w < d.len() {
                assert(p(d[w]));
            }
        }
    }
}

/// Toggling a node that has repos makes it uniform: if all its repos were
/// checked they all become unchecked, otherwise they all become checked.
pub proof fn law_toggle_check(a: App, node: NodeRef, b: App, e: Effect)
    requires
        a.wf(),
        a.action_ok(Action::ToggleCheck(node)),
        a.tree.ids_of(node).len() > 0,
        App::apply_post(a, Action::ToggleCheck(node), b, e),
    ensures
        b.check_state_of(node) == if a.check_state_of(node) == CheckState::All {
            CheckState::Unchecked
        } else {
            CheckState::All
        },
{
    let ids = a.tree.ids_of(node);
    a.lemma_node_ids_below_pub(node);
    let pa = |id: RepoId| a.repos@[id as int].checked;
    let pb = |id: RepoId| b.repos@[id as int].checked;
    lemma_filter_count(ids, pa);
    lemma_filter_count(ids, pb);
    let v = !a.all_checked(ids);
    assert forall|i: int| 0 <= i < ids.len() implies pb(#[trigger] ids[i]) == v by {
        assert(ids.contains(ids[i]));
        assert((ids[i] as int) as RepoId == ids[i]);
        assert(b.repos@[ids[i] as int] == App::with_checked(a.repos@, ids, v)[ids[i] as int]);
    }
    if a.all_checked(ids) {
        assert(forall|i: int| 0 <= i < ids.len() ==> pa(#[trigger] ids[i]));
    } else {
        assert(!(forall|i: int| 0 <= i < ids.len() ==> pa(#[trigger] ids[i])));
    }
}

/// Check-all leaves every repo checked, so every node that has repos shows
/// as all checked; uncheck-all leaves every node unchecked.
pub proof fn law_check_all(a: App, node: NodeRef, v: bool, b: App, e: Effect)
    requires
        a.wf(),
        node matches NodeRef::Repo(id) ==> id < a.repos@.len(),
        a.tree.ids_of(node).len() > 0,
        App::apply_post(a, if v { Action::CheckAll } else { Action::UncheckAll }, b, e),
    ensures
        b.check_state_of(node) == if v { CheckState::All } else { CheckState::Unchecked },
{
    let ids = a.tree.ids_of(node);
    a.lemma_node_ids_below_pub(node);
    let pb = |id: RepoId| b.repos@[id as int].checked;
    lemma_filter_count(ids, pb);
    assert forall|i: int| 0 <= i < ids.len() implies pb(#[trigger] ids[i]) == v by {
        assert(b.repos@[ids[i] as int] == crate::app::with_all_checked(a.repos@, v)[ids[i] as int]);
    }
}

/// A run ends after exactly as many end-of-repo events as it has targets:
/// `pending` counts them down and `running` stays on until it reaches zero.
pub proof fn law_run_ends(states: Seq<App>, evs: Seq<RunnerEvent>)
    requires
        states.len() == evs.len() + 1,
        states[0].running,
        states[0].pending > 0,
        forall|i: int| 0 <= i < evs.len() ==> (#[trigger] evs[i]).is_terminal() && event_post(states[i], evs[i], states[i + 1]),
    ensures
        forall|k: int| 0 <= k < states.len() ==> {
            &&& (#[trigger] states[k]).pending == (if states[0].pending >= k { states[0].pending - k } else { 0 })
            &&& states[k].running == (k < states[0].pending)
        },
    decreases evs.len(),
{
    if evs.len() > 0 {
        let n = evs.len() - 1;
        law_run_ends(states.take(n + 1), evs.take(n));
        assert forall|k: int| 0 <= k < states.len() implies {
            &&& (#[trigger] states[k]).pending == (if states[0].pending >= k { states[0].pending - k } else { 0 })
            &&& states[k].running == (k < states[0].pending)
        } by {
            if k <= n {
                assert(states.take(n + 1)[k] == states[k]);
            } else {
                assert(states.take(n + 1)[n] == states[n]);
                assert(event_post(states[n], evs[n], states[n + 1]));
                assert(states[n + 1].pending == dec(states[n].pending));
            }
        }
    }
}

/// Starting a run and then receiving one end-of-repo event per target ends
/// the run.
pub proof fn law_started_run_ends(a: App, states: Seq<App>, evs: Seq<RunnerEvent>, e: Effect)
    requires
        states.len() == evs.len() + 1,
        a.repos@.len() <= usize::MAX,
        run_post(a, states[0], e),
        e is StartRun,
        evs.len() == checked_ids(a.repos@).len(),
        forall|i: int| 0 <= i < evs.len() ==> (#[trigger] evs[i]).is_terminal() && event_post(states[i], evs[i], states[i + 1]),
    ensures
        !states[evs.len() as int].running,
        forall|k: int| 0 <= k < evs.len() ==> (#[trigger] states[k]).running,
{
    lemma_checked_prefix_len(a.repos@, a.repos@.len() as int);
    law_run_ends(states, evs);
    assert(states[evs.len() as int].running == (evs.len() < states[0].pending));
}

proof fn lemma_checked_prefix_len(repos: Seq<Repo>, n: int)
    requires
        0 <= n <= repos.len(),
    ensures
        crate::app::checked_prefix(repos, n).len() <= n,
    decreases n,
{
    if n > 0 {
        lemma_checked_prefix_len(repos, n - 1);
    }
}

/// Up then Down from the live draft gives the draft back: the text typed
/// before browsing is restored on the way back.
pub proof fn law_history_draft_restored(a: App, b: App, c: App)
    requires
        0 < a.history@.len() <= usize::MAX,
        a.history_pos is None,
        history_prev_post(a, b),
        history_next_post(b, c),
    ensures
        c.input.value@ == a.input.value@,
        c.history_pos is None,
        c.history == a.history,
{
}

/// Up then Down while browsing returns to the same entry, unless Up was
/// already at the oldest entry.
pub proof fn law_history_prev_next(a: App, b: App, c: App)
    requires
        a.history_pos matches Some(p) && 0 < p < a.history@.len(),
        history_prev_post(a, b),
        history_next_post(b, c),
    ensures
        c.history_pos == a.history_pos,
        c.input.value@ == a.history@[a.history_pos.unwrap() as int]@,
{
}

/// Up stops at the oldest entry.
pub proof fn law_history_clamps_at_oldest(a: App, b: App)
    requires
        a.history_pos == Some(0usize),
        a.history@.len() > 0,
        history_prev_post(a, b),
    ensures
        b.history_pos == Some(0usize),
        b.input.value@ == a.history@[0]@,
{
}

/// Focusing a repo that is not focused, then focusing it again, clears the
/// focus ("click again to clear").
pub proof fn law_focus_click_again(a: App, id: RepoId, b: App, c: App, e1: Effect, e2: Effect)
    requires
        a.focus != Some(id),
        App::apply_post(a, Action::Focus(id), b, e1),
        App::apply_post(b, Action::Focus(id), c, e2),
    ensures
        b.focus == Some(id),
        c.focus is None,
{
}

/// Tab cycles through the three panes.
pub proof fn law_panes_cycle(p: Pane)
    ensures
        next_pane(next_pane(next_pane(p))) == p,
        next_pane(p) != p,
{
}

/// The action name that a preset's key is bound to loads that preset.
pub proof fn law_preset_binding_names_preset(t: TreeView, i: usize)
    ensures
        named_action(t, preset_binding(i as nat)) == Some(Action::LoadPreset(i)),
{
    let name = preset_binding(i as nat);
    reveal_strlit("preset:");
    reveal_strlit("rescan");
    reveal_strlit("cancel");
    reveal_strlit("run");
    reveal_strlit("quit");
    reveal_strlit("cursor_up");
    reveal_strlit("cursor_down");
    reveal_strlit("check_all");
    reveal_strlit("uncheck_all");
    reveal_strlit("clear_focus");
    reveal_strlit("scroll_up");
    reveal_strlit("scroll_down");
    reveal_strlit("scroll_top");
    reveal_strlit("scroll_bottom");
    reveal_strlit("copy_output");
    reveal_strlit("input");
    reveal_strlit("toggle_check");
    reveal_strlit("expand");
    reveal_strlit("collapse");
    reveal_strlit("toggle_expand");
    reveal_strlit("focus");
    assert(name[0] == 'p');
    assert(name.take(7) =~= "preset:"@);
    assert(name.skip(7) =~= spec_decimal(i as nat));
    lemma_parse_decimal_roundtrip(i);
}

proof fn lemma_push_keeps_first<T>(m: Seq<(Seq<char>, T)>, x: (Seq<char>, T), k: Seq<char>)
    requires
        find_group(m, k) >= 0,
    ensures
        find_group(m.push(x), k) == find_group(m, k),
{
    lemma_find_group(m, k);
    let i = find_group(m, k);
    assert(first_named(m.push(x), k, i));
    crate::tree::lemma_find_group_at(m.push(x), k, i);
}

proof fn lemma_merged_unbound(base: Seq<(Seq<char>, Seq<char>)>, presets: Seq<Preset>, n: int, k: Seq<char>)
    requires
        0 <= n <= presets.len(),
        find_group(base, k) < 0,
        forall|j: int| 0 <= j < n ==> !(#[trigger] presets[j].key matches Some(q) && q@ == k),
    ensures
        find_group(merged_keymap(base, presets, n), k) < 0,
    decreases n,
{
    lemma_find_group(base, k);
    if n > 0 {
        lemma_merged_unbound(base, presets, n - 1, k);
        let m = merged_keymap(base, presets, n - 1);
        lemma_find_group(m, k);
        let r = merged_keymap(base, presets, n);
        assert(!(presets[n - 1].key matches Some(q) && q@ == k));
        assert forall|p: int| 0 <= p < r.len() implies #[trigger] r[p].0 != k by {
            if p < m.len() {
                assert(r[p] == m[p]);
            }
        }
        if find_group(r, k) >= 0 {
            lemma_find_group(r, k);
        }
    }
}

/// The merged keymap binds a preset's key to that preset when neither the
/// config keymap nor an earlier preset binds the key.
pub proof fn law_preset_key_bound(base: Seq<(Seq<char>, Seq<char>)>, presets: Seq<Preset>, n: int, i: int, k: Seq<char>)
    requires
        0 <= i < n <= presets.len(),
        i <= usize::MAX,
        presets[i].key matches Some(q) && q@ == k,
        find_group(base, k) < 0,
        forall|j: int| 0 <= j < i ==> !(#[trigger] presets[j].key matches Some(q) && q@ == k),
    ensures
        keymap_get(merged_keymap(base, presets, n), k) == Some(preset_binding(i as nat)),
    decreases n,
{
    if n == i + 1 {
        lemma_merged_unbound(base, presets, i, k);
        let m = merged_keymap(base, presets, i);
        lemma_find_group(m, k);
        let r = m.push((k, preset_binding(i as nat)));
        assert(merged_keymap(base, presets, n) == r);
        assert(first_named(r, k, m.len() as int));
        crate::tree::lemma_find_group_at(r, k, m.len() as int);
    } else {
        law_preset_key_bound(base, presets, n - 1, i, k);
        let m = merged_keymap(base, presets, n - 1);
        lemma_find_group(m, k);
        match presets[n - 1].key {
            Some(q) => {
                if find_group(m, q@) < 0 {
                    lemma_push_keeps_first(m, (q@, preset_binding((n - 1) as nat)), k);
                }
            },
            None => {},
        }
    }
}

/// A preset's key loads that preset, unless the config keymap already binds
/// the key or an earlier preset has the same key.
pub proof fn law_preset_key_loads_preset(app: App, config_keymap: Seq<(Seq<char>, Seq<char>)>, key: Key, i: usize)
    requires
        keymap_view(app.keymap@) == merged_keymap(config_keymap, app.presets@, app.presets@.len() as int),
        i < app.presets@.len(),
        app.presets@[i as int].key matches Some(q) && key_string(key) == Some(q@),
        find_group(config_keymap, key_string(key).unwrap()) < 0,
        forall|j: int| 0 <= j < i ==> !(#[trigger] app.presets@[j].key matches Some(q) && Some(q@) == key_string(key)),
    ensures
        keymap_action_of(app, key) == Some(Action::LoadPreset(i)),
{
    let k = key_string(key).unwrap();
    assert forall|j: int| 0 <= j < i implies !(#[trigger] app.presets@[j].key matches Some(q) && q@ == k) by {}
    law_preset_key_bound(config_keymap, app.presets@, app.presets@.len() as int, i as int, k);
    law_preset_binding_names_preset(app.tree, i);
}


proof fn lemma_row_glyph_widths(a: App, mode: IconMode)
    requires
        a.icons.is_set_for(mode),
    ensures
        a.icons.sel_bar@.len() == 1,
        a.icons.expanded@.len() == 1,
        a.icons.collapsed@.len() == 1,
        1 <= a.icons.check_on@.len() <= 3,
        1 <= a.icons.check_off@.len() <= 3,
        1 <= a.icons.check_partial@.len() <= 3,
        a.icons.repo@.len() <= 1,
{
    reveal_strlit("\u{258e}");
    reveal_strlit(">");
    reveal_strlit("\u{f078}");
    reveal_strlit("v");
    reveal_strlit("\u{f054}");
    reveal_strlit("\u{f046}");
    reveal_strlit("[x]");
    reveal_strlit("\u{f096}");
    reveal_strlit("[ ]");
    reveal_strlit("\u{f147}");
    reveal_strlit("[~]");
    reveal_strlit("\u{f126}");
    reveal_strlit("");
}

/// The checkbox is drawn where a click toggles it. In a tree row drawn with
/// icons made for some mode, the checkbox piece (the third for a repo, the
/// fifth for a group) comes after the two-cell selection bar and the indent
/// (and, for a group, the one-cell fold marker and a space); a click in that
/// column of a row whose content starts two cells in (as the hit recorded by
/// `register_tree_rows`) toggles the node's checkbox.
pub proof fn law_checkbox_under_click(a: App, mode: IconMode, row: VisibleRow, selected: bool, active: bool, x: u16)
    requires
        a.icons.is_set_for(mode),
        row.indent <= 2,
        x + 16 <= u16::MAX,
    ensures
        ({
            let ps = row_of(a, row, selected, active);
            let k: int = if row.node is Repo { 2 } else { 4 };
            &&& ps[k].0 == a.icons.check_on@ || ps[k].0 == a.icons.check_off@ || ps[k].0 == a.icons.check_partial@
            &&& width_before(ps, k) == 2 + 2 * row.indent + (if row.node is Repo { 0int } else { 2 })
            &&& tree_click_of(a.tree, row.node, row.indent, (x + 2) as u16, (x + width_before(ps, k)) as u16)
                == Some(Action::ToggleCheck(row.node))
        }),
{
    lemma_row_glyph_widths(a, mode);
    let ps = row_of(a, row, selected, active);
    reveal_with_fuel(width_before, 5);
    assert(ps[0].0.len() == 2);
    assert(ps[1].0.len() == 2 * row.indent);
}

/// A click on a group row's fold marker folds or unfolds the group: the
/// marker piece (the third) starts right after the selection bar and the
/// indent, and a click in its column gives the fold / unfold action.
pub proof fn law_marker_under_click(a: App, mode: IconMode, row: VisibleRow, selected: bool, active: bool, x: u16)
    requires
        a.icons.is_set_for(mode),
        !(row.node is Repo),
        row.indent <= 2,
        x + 16 <= u16::MAX,
    ensures
        ({
            let ps = row_of(a, row, selected, active);
            &&& ps[2].0 == (if a.tree.expanded_of(row.node) { a.icons.expanded@ } else { a.icons.collapsed@ })
            &&& width_before(ps, 2) == 2 + 2 * row.indent
            &&& tree_click_of(a.tree, row.node, row.indent, (x + 2) as u16, (x + width_before(ps, 2)) as u16)
                == Some(toggle_expand_of(a.tree, row.node))
        }),
{
    lemma_row_glyph_widths(a, mode);
    let ps = row_of(a, row, selected, active);
    reveal_with_fuel(width_before, 3);
    assert(ps[0].0.len() == 2);
    assert(ps[1].0.len() == 2 * row.indent);
}

/// A click on a repo's name focuses the repo: the name piece comes after the
/// checkbox, a space and the repo icon (when the icons have one), and a
/// click in its first column gives the focus action.
pub proof fn law_name_under_click(a: App, mode: IconMode, row: VisibleRow, selected: bool, active: bool, x: u16)
    requires
        a.icons.is_set_for(mode),
        row.node matches NodeRef::Repo(id) && id < a.repos@.len(),
        row.indent <= 2,
        x + 16 <= u16::MAX,
    ensures
        ({
            let ps = row_of(a, row, selected, active);
            let k: int = if a.icons.repo@.len() > 0 { 5 } else { 4 };
            let id = row.node->Repo_0;
            &&& ps[k].0 == a.repos@[id as int].name@
            &&& tree_click_of(a.tree, row.node, row.indent, (x + 2) as u16, (x + width_before(ps, k)) as u16)
                == Some(Action::Focus(id))
        }),
{
    lemma_row_glyph_widths(a, mode);
    let ps = row_of(a, row, selected, active);
    reveal_with_fuel(width_before, 6);
    assert(ps[0].0.len() == 2);
    assert(ps[1].0.len() == 2 * row.indent);
}

/// Clicking a preset chip loads the preset into the prompt: when the chip
/// for preset `i` is the last hit drawn (as `push_hit` leaves it, on top of
/// what was drawn before) and the click falls inside it, the command line
/// holds the preset's command with the cursor at its end, the input pane is
/// active, and nothing else is asked for.
pub proof fn law_chip_click_loads_preset(a: App, area: Area, i: usize, col: u16, row: u16, b: App, e: Effect)
    requires
        a.hit@.len() > 0,
        a.hit@.last() == (area, Hit::Fire(Action::LoadPreset(i))),
        area.has(col, row),
        i < a.presets@.len(),
        click_post(a, col, row, b, e),
    ensures
        b.input.value@ == a.presets@[i as int].command@,
        b.input.cursor == a.presets@[i as int].command@.len(),
        b.active_pane == Pane::Input,
        b.history_pos is None,
        e is Nothing,
{
}

/// How many of the visible rows from `offset` on fit in `area`: the rows
/// that `register_tree_rows` records.
pub open spec fn rows_drawn(rows: Seq<VisibleRow>, area: Area, offset: usize) -> int {
    if offset >= rows.len() {
        0
    } else if rows.len() - offset < area.height {
        rows.len() - offset
    } else {
        area.height as int
    }
}

proof fn lemma_last_row_hit(
    h0: Seq<(Area, Hit)>,
    rows: Seq<VisibleRow>,
    area: Area,
    offset: usize,
    n: int,
    j: int,
    col: u16,
    row: u16,
)
    requires
        0 <= j < n <= area.height,
        area.fits(),
        row == area.y + j,
        area.x <= col < area.x + area.width,
    ensures
        last_hit(h0 + Seq::new(n as nat, |i: int| row_hit(rows, area, offset, i)), col, row) == Some(
            row_hit(rows, area, offset, j).1,
        ),
    decreases n,
{
    let s = h0 + Seq::new(n as nat, |i: int| row_hit(rows, area, offset, i));
    assert(s.last() == row_hit(rows, area, offset, n - 1));
    if n - 1 > j {
        assert(s.drop_last() =~= h0 + Seq::new((n - 1) as nat, |i: int| row_hit(rows, area, offset, i)));
        lemma_last_row_hit(h0, rows, area, offset, n - 1, j, col, row);
    }
}

/// Clicking a drawn checkbox toggles its node. After `register_tree_rows`
/// has recorded, on top of the earlier hits, the rows drawn in `area` from
/// visible row `offset` on, a click on the `j`-th of them, in the column
/// where that row's checkbox piece is drawn, moves the cursor to the row,
/// focuses the tree pane and toggles the row's node: all of its repos become
/// unchecked if all were checked, and checked otherwise.
pub proof fn law_drawn_checkbox_click_toggles(
    a: App,
    mode: IconMode,
    area: Area,
    offset: usize,
    h0: Seq<(Area, Hit)>,
    j: int,
    selected: bool,
    active: bool,
    b: App,
    e: Effect,
)
    requires
        a.icons.is_set_for(mode),
        area.fits(),
        area.x + 16 <= u16::MAX,
        a.hit@ == h0 + Seq::new(
            rows_drawn(a.tree.rows(), area, offset) as nat,
            |i: int| row_hit(a.tree.rows(), area, offset, i),
        ),
        0 <= j < rows_drawn(a.tree.rows(), area, offset),
        ({
            let r = a.tree.rows()[offset + j];
            let k: int = if r.node is Repo { 2 } else { 4 };
            &&& width_before(row_of(a, r, selected, active), k) < area.width
            &&& click_post(
                a,
                (area.x + width_before(row_of(a, r, selected, active), k)) as u16,
                (area.y + j) as u16,
                b,
                e,
            )
        }),
    ensures
        ({
            let node = a.tree.rows()[offset + j].node;
            let ids = a.tree.ids_of(node);
            &&& b == (App {
                repos: b.repos,
                active_pane: Pane::Tree,
                tree: TreeView { cursor: (offset + j) as usize, ..a.tree },
                ..a
            })
            &&& b.repos@ == App::with_checked(a.repos@, ids, !a.all_checked(ids))
            &&& e is Nothing
        }),
{
    let rows = a.tree.rows();
    let r = rows[offset + j];
    lemma_rows_indent(a.tree.fqdns@, a.tree.fqdns@.len() as int);
    assert(r.indent <= 2);
    law_checkbox_under_click(a, mode, r, selected, active, area.x);
    let ps = row_of(a, r, selected, active);
    let k: int = if r.node is Repo { 2 } else { 4 };
    let col = (area.x + width_before(ps, k)) as u16;
    let n = rows_drawn(rows, area, offset);
    lemma_last_row_hit(h0, rows, area, offset, n, j, col, (area.y + j) as u16);
}

/// The merged keymap binds each key once when the config keymap does: a
/// preset's key is added only where no entry binds it yet.
pub proof fn law_merged_keys_distinct(base: Seq<(Seq<char>, Seq<char>)>, presets: Seq<Preset>, n: int)
    requires
        names_distinct(base),
    ensures
        names_distinct(merged_keymap(base, presets, n)),
    decreases n,
{
    if n > 0 {
        law_merged_keys_distinct(base, presets, n - 1);
        let m = merged_keymap(base, presets, n - 1);
        match presets[n - 1].key {
            Some(k) => {
                lemma_find_group(m, k@);
                if find_group(m, k@) < 0 {
                    let m2 = m.push((k@, preset_binding((n - 1) as nat)));
                    assert forall|i: int, j: int| 0 <= i < j < m2.len() implies m2[i].0 != m2[j].0 by {
                        if j == m2.len() - 1 {
                            assert(m[i].0 != k@);
                        }
                    }
                }
            },
            None => {},
        }
    }
}

proof fn lemma_output_prefix(m: Map<RepoId, RepoOutput>, n: int)
    requires
        0 <= n <= usize::MAX,
    ensures
        forall|j: int| 0 <= j < with_output_prefix(m, n).len() ==> #[trigger] with_output_prefix(m, n)[j] < n
            && m.contains_key(with_output_prefix(m, n)[j]),
        forall|i: int, j: int| 0 <= i < j < with_output_prefix(m, n).len() ==> with_output_prefix(m, n)[i]
            < with_output_prefix(m, n)[j],
        forall|r: RepoId| 0 <= r < n && m.contains_key(r) ==> #[trigger] with_output_prefix(m, n).contains(r),
    decreases n,
{
    if n > 0 {
        lemma_output_prefix(m, n - 1);
        let p = with_output_prefix(m, n - 1);
        let q = with_output_prefix(m, n);
        assert forall|i: int, j: int| 0 <= i < j < q.len() implies q[i] < q[j] by {
            if j == p.len() {
                assert(q[i] == p[i]);
            }
        }
        assert forall|r: RepoId| 0 <= r < n && m.contains_key(r) implies #[trigger] q.contains(r) by {
            if r < n - 1 {
                assert(p.contains(r));
                let j = choose|j: int| 0 <= j < p.len() && p[j] == r;
                if m.contains_key((n - 1) as RepoId) {
                    assert(q[j] == r);
                }
            } else {
                assert(q[q.len() - 1] == r);
            }
        }
    }
}

/// The output pane shows, with a focused repo that has output, that repo's
/// box and no other: a header, one row per output line, and a closing blank
/// row. With no focus it shows every repo that has output, each once, in
/// repo order.
pub proof fn law_output_pane_boxes(a: App)
    ensures
        (a.focus matches Some(id) && a.outputs@.contains_key(id) && id < a.repos@.len()) ==> {
            let id = a.focus->Some_0;
            let n = lines_of(a.outputs@, id).len() as int;
            &&& a.output_ids_of() == seq![id]
            &&& a.output_rows().len() == n + 2
            &&& a.output_rows()[0] == OutputRow::Header(id)
            &&& (forall|i: int| 0 <= i < n ==> #[trigger] a.output_rows()[i + 1] == OutputRow::Text(id, i as usize))
            &&& a.output_rows()[n + 1] == OutputRow::Blank
        },
        (a.focus matches Some(id) && !(a.outputs@.contains_key(id) && id < a.repos@.len())) ==> a.output_rows().len()
            == 0,
        a.focus is None ==> {
            let ids = a.output_ids_of();
            &&& forall|j: int| 0 <= j < ids.len() ==> #[trigger] ids[j] < a.repos@.len() && a.outputs@.contains_key(ids[j])
            &&& forall|i: int, j: int| 0 <= i < j < ids.len() ==> ids[i] < ids[j]
            &&& forall|r: RepoId| r < a.repos@.len() && a.outputs@.contains_key(r) ==> #[trigger] ids.contains(r)
        },
{
    broadcast use vstd::std_specs::vec::axiom_spec_len;
    assert(a.repos.len() == a.repos@.len());
    lemma_output_prefix(a.outputs@, a.repos@.len() as int);
    if a.focus is Some {
        let id = a.focus->Some_0;
        if a.outputs@.contains_key(id) && id < a.repos@.len() {
            let n = lines_of(a.outputs@, id).len();
            let rows = a.output_rows();
            let ids = a.output_ids_of();
            assert(ids == seq![id]);
            assert(crate::view::boxes_rows(a.outputs@, ids, 0) == Seq::<OutputRow>::empty());
            assert(rows == crate::view::boxes_rows(a.outputs@, ids, 0) + crate::view::box_rows(id, n as nat));
            assert(rows =~= crate::view::box_rows(id, n as nat));
            assert forall|i: int| 0 <= i < n implies #[trigger] rows[i + 1] == OutputRow::Text(id, i as usize) by {
            }
        } else {
            assert(a.output_ids_of().len() == 0);
        }
    }
}

/// The end of a repo's run sets its status from the event: a normal exit
/// with code `c` is `Done(c)`, exit code kept; a kill by signal is
/// `Cancelled`; a target never started is `Skipped`; a spawn error is
/// `Failed`. No other repo's status changes.
pub proof fn law_end_events_set_status(a: App, ev: RunnerEvent, b: App)
    requires
        ev.is_terminal(),
        ev.repo_of() < a.repos@.len(),
        event_post(a, ev, b),
    ensures
        b.repos@.len() == a.repos@.len(),
        forall|r: int| 0 <= r < a.repos@.len() && r != ev.repo_of() ==> #[trigger] b.repos@[r] == a.repos@[r],
        b.repos@[ev.repo_of() as int].checked == a.repos@[ev.repo_of() as int].checked,
        b.repos@[ev.repo_of() as int].name == a.repos@[ev.repo_of() as int].name,
        ev matches RunnerEvent::Finished { code: Some(c), .. } ==> b.repos@[ev.repo_of() as int].status == RepoStatus::Done(c),
        ev matches RunnerEvent::Finished { code: None, .. } ==> b.repos@[ev.repo_of() as int].status == RepoStatus::Cancelled,
        ev is Skipped ==> b.repos@[ev.repo_of() as int].status == RepoStatus::Skipped,
        ev is Error ==> b.repos@[ev.repo_of() as int].status == RepoStatus::Failed,
{
}

/// What a click on a tree row does, by column. Columns are counted from the
/// row's content start `text_x`; the indent is two cells per level. Left of
/// the content nothing happens. On a repo row the checkbox column toggles
/// the repo, every column right of it (the whole name and what follows)
/// focuses the repo, and the indent does nothing. On a group row the
/// checkbox column (after the marker and a space) toggles the group and
/// every other column folds an unfolded group or unfolds a folded one.
pub proof fn law_tree_click_columns(t: TreeView, node: NodeRef, indent: u16, text_x: u16, col: u16)
    ensures
        col < text_x ==> tree_click_of(t, node, indent, text_x, col) is None,
        text_x <= col ==> {
            let rel = col - text_x;
            match node {
                NodeRef::Repo(id) => {
                    &&& rel == 2 * indent ==> tree_click_of(t, node, indent, text_x, col) == Some(Action::ToggleCheck(node))
                    &&& rel > 2 * indent ==> tree_click_of(t, node, indent, text_x, col) == Some(Action::Focus(id))
                    &&& rel < 2 * indent ==> tree_click_of(t, node, indent, text_x, col) is None
                },
                _ => {
                    &&& rel == 2 * indent + 2 ==> tree_click_of(t, node, indent, text_x, col) == Some(Action::ToggleCheck(node))
                    &&& rel != 2 * indent + 2 && t.expanded_of(node) ==> tree_click_of(t, node, indent, text_x, col)
                        == Some(Action::Collapse(node))
                    &&& rel != 2 * indent + 2 && !t.expanded_of(node) ==> tree_click_of(t, node, indent, text_x, col)
                        == Some(Action::Expand(node))
                },
            }
        },
{
}

proof fn lemma_user_rows_repo(fi: usize, ui: usize, u: UserNode, k: int) -> (j: int)
    requires
        0 <= k < user_rows(fi, ui, u).len(),
        user_rows(fi, ui, u)[k].node is Repo,
    ensures
        u.expanded,
        0 <= j < u.repos@.len(),
        u.repos@[j] == user_rows(fi, ui, u)[k].node->Repo_0,
        user_rows(fi, ui, u)[k].indent == 2,
{
    assert(k >= 1);
    k - 1
}

proof fn lemma_users_rows_repo(fi: usize, users: Seq<UserNode>, n: int, k: int) -> (w: (int, int))
    requires
        0 <= n <= users.len(),
        0 <= k < users_rows(fi, users, n).len(),
        users_rows(fi, users, n)[k].node is Repo,
    ensures
        0 <= w.0 < n,
        users[w.0].expanded,
        0 <= w.1 < users[w.0].repos@.len(),
        users[w.0].repos@[w.1] == users_rows(fi, users, n)[k].node->Repo_0,
    decreases n,
{
    let p = users_rows(fi, users, n - 1);
    if k < p.len() {
        assert(users_rows(fi, users, n)[k] == p[k]);
        lemma_users_rows_repo(fi, users, n - 1, k)
    } else {
        let u = users[n - 1];
        assert(users_rows(fi, users, n)[k] == user_rows(fi, (n - 1) as usize, u)[k - p.len()]);
        let j = lemma_user_rows_repo(fi, (n - 1) as usize, u, k - p.len());
        (n - 1, j)
    }
}

proof fn lemma_rows_upto_repo(fqdns: Seq<FqdnNode>, n: int, k: int) -> (w: (int, int, int))
    requires
        0 <= n <= fqdns.len(),
        0 <= k < rows_upto(fqdns, n).len(),
        rows_upto(fqdns, n)[k].node is Repo,
    ensures
        0 <= w.0 < n,
        fqdns[w.0].expanded,
        0 <= w.1 < fqdns[w.0].users@.len(),
        fqdns[w.0].users@[w.1].expanded,
        0 <= w.2 < fqdns[w.0].users@[w.1].repos@.len(),
        fqdns[w.0].users@[w.1].repos@[w.2] == rows_upto(fqdns, n)[k].node->Repo_0,
    decreases n,
{
    let p = rows_upto(fqdns, n - 1);
    if k < p.len() {
        assert(rows_upto(fqdns, n)[k] == p[k]);
        lemma_rows_upto_repo(fqdns, n - 1, k)
    } else {
        let f = fqdns[n - 1];
        let fr = fqdn_rows((n - 1) as usize, f);
        assert(rows_upto(fqdns, n)[k] == fr[k - p.len()]);
        assert(k - p.len() >= 1);
        let ur = users_rows((n - 1) as usize, f.users@, f.users@.len() as int);
        assert(fr[k - p.len()] == ur[k - p.len() - 1]);
        let w = lemma_users_rows_repo((n - 1) as usize, f.users@, f.users@.len() as int, k - p.len() - 1);
        (n - 1, w.0, w.1)
    }
}

/// A repo row is visible only under unfolded groups: every repo row of the
/// tree's visible rows names a repo of a user group that is unfolded, inside
/// an fqdn group that is unfolded. Folding a user group (or its fqdn group)
/// hides the repo rows that only it holds. The returned triple locates the
/// repo: fqdn group, user group, position in the group.
pub proof fn law_repo_rows_unfolded(t: TreeView, k: int) -> (w: (int, int, int))
    requires
        0 <= k < t.rows().len(),
        t.rows()[k].node is Repo,
    ensures
        0 <= w.0 < t.fqdns@.len(),
        0 <= w.1 < t.fqdns@[w.0].users@.len(),
        t.fqdns@[w.0].expanded,
        t.fqdns@[w.0].users@[w.1].expanded,
        0 <= w.2 < t.fqdns@[w.0].users@[w.1].repos@.len(),
        t.fqdns@[w.0].users@[w.1].repos@[w.2] == t.rows()[k].node->Repo_0,
{
    lemma_rows_upto_repo(t.fqdns@, t.fqdns@.len() as int, k)
}

/// The config keymap's action names, as the README lists them: each fixed
/// name stands for its action whatever the tree, and the cursor-relative
/// names act on the node under the cursor.
pub proof fn law_named_actions(t: TreeView)
    ensures
        named_action(t, "rescan"@) == Some(Action::Rescan),
        named_action(t, "cancel"@) == Some(Action::Cancel),
        named_action(t, "run"@) == Some(Action::Run),
        named_action(t, "quit"@) == Some(Action::Quit),
        named_action(t, "cursor_up"@) == Some(Action::CursorUp),
        named_action(t, "cursor_down"@) == Some(Action::CursorDown),
        named_action(t, "check_all"@) == Some(Action::CheckAll),
        named_action(t, "uncheck_all"@) == Some(Action::UncheckAll),
        named_action(t, "clear_focus"@) == Some(Action::ClearFocus),
        named_action(t, "scroll_up"@) == Some(Action::ScrollUp),
        named_action(t, "scroll_down"@) == Some(Action::ScrollDown),
        named_action(t, "scroll_top"@) == Some(Action::ScrollTop),
        named_action(t, "scroll_bottom"@) == Some(Action::ScrollBottom),
        named_action(t, "copy_output"@) == Some(Action::CopyOutput),
        named_action(t, "input"@) == Some(Action::FocusPane(Pane::Input)),
        t.cursor_of() matches Some(n) ==> named_action(t, "toggle_check"@) == Some(Action::ToggleCheck(n)),
        t.cursor_of() matches Some(n) ==> named_action(t, "expand"@) == Some(Action::Expand(n)),
        t.cursor_of() matches Some(n) ==> named_action(t, "collapse"@) == Some(Action::Collapse(n)),
        t.cursor_of() matches Some(NodeRef::Repo(id)) ==> named_action(t, "focus"@) == Some(Action::Focus(id)),
        t.cursor_of() is None ==> named_action(t, "toggle_check"@) is None && named_action(t, "focus"@) is None,
        named_action(t, "no_such_action"@) is None,
{
    reveal_strlit("rescan");
    reveal_strlit("cancel");
    reveal_strlit("run");
    reveal_strlit("quit");
    reveal_strlit("cursor_up");
    reveal_strlit("cursor_down");
    reveal_strlit("check_all");
    reveal_strlit("uncheck_all");
    reveal_strlit("clear_focus");
    reveal_strlit("scroll_up");
    reveal_strlit("scroll_down");
    reveal_strlit("scroll_top");
    reveal_strlit("scroll_bottom");
    reveal_strlit("copy_output");
    reveal_strlit("input");
    reveal_strlit("toggle_check");
    reveal_strlit("expand");
    reveal_strlit("collapse");
    reveal_strlit("toggle_expand");
    reveal_strlit("focus");
    reveal_strlit("preset:");
    reveal_strlit("no_such_action");
    assert("rescan"@.len() == 6 && "rescan"@[0] == 'r' && "rescan"@[1] == 'e');
    assert("cancel"@.len() == 6 && "cancel"@[0] == 'c' && "cancel"@[1] == 'a');
    assert("run"@.len() == 3 && "run"@[0] == 'r' && "run"@[1] == 'u');
    assert("quit"@.len() == 4 && "quit"@[0] == 'q' && "quit"@[1] == 'u');
    assert("cursor_up"@.len() == 9 && "cursor_up"@[0] == 'c' && "cursor_up"@[1] == 'u');
    assert("cursor_down"@.len() == 11 && "cursor_down"@[0] == 'c' && "cursor_down"@[1] == 'u');
    assert("check_all"@.len() == 9 && "check_all"@[0] == 'c' && "check_all"@[1] == 'h');
    assert("uncheck_all"@.len() == 11 && "uncheck_all"@[0] == 'u' && "uncheck_all"@[1] == 'n');
    assert("clear_focus"@.len() == 11 && "clear_focus"@[0] == 'c' && "clear_focus"@[1] == 'l');
    assert("scroll_up"@.len() == 9 && "scroll_up"@[0] == 's' && "scroll_up"@[1] == 'c');
    assert("scroll_down"@.len() == 11 && "scroll_down"@[0] == 's' && "scroll_down"@[1] == 'c');
    assert("scroll_top"@.len() == 10 && "scroll_top"@[0] == 's' && "scroll_top"@[1] == 'c');
    assert("scroll_bottom"@.len() == 13 && "scroll_bottom"@[0] == 's' && "scroll_bottom"@[1] == 'c');
    assert("copy_output"@.len() == 11 && "copy_output"@[0] == 'c' && "copy_output"@[1] == 'o');
    assert("input"@.len() == 5 && "input"@[0] == 'i' && "input"@[1] == 'n');
    assert("toggle_check"@.len() == 12 && "toggle_check"@[0] == 't' && "toggle_check"@[1] == 'o');
    assert("expand"@.len() == 6 && "expand"@[0] == 'e' && "expand"@[1] == 'x');
    assert("collapse"@.len() == 8 && "collapse"@[0] == 'c' && "collapse"@[1] == 'o');
    assert("toggle_expand"@.len() == 13 && "toggle_expand"@[0] == 't' && "toggle_expand"@[1] == 'o');
    assert("focus"@.len() == 5 && "focus"@[0] == 'f' && "focus"@[1] == 'o');
    assert("no_such_action"@.len() == 14 && "no_such_action"@[0] == 'n' && "no_such_action"@[1] == 'o');
    assert("no_such_action"@.take(7)[0] == 'n');
    assert("preset:"@[0] == 'p');
}

/// Moving the cursor up never moves it down and goes one row up from any
/// row below the first; moving it down never moves it up and goes one row
/// down from any row above the last. This is what the keymap names
/// `cursor_up` and `cursor_down` do.
pub proof fn law_cursor_moves(a: App, b: App, e: Effect, up: bool)
    requires
        a.tree.cursor < a.tree.rows().len(),
        a.tree.rows().len() <= isize::MAX,
        App::apply_post(a, named_action(a.tree, if up { "cursor_up"@ } else { "cursor_down"@ })->Some_0, b, e),
    ensures
        up ==> b.tree.cursor <= a.tree.cursor,
        up && a.tree.cursor > 0 ==> b.tree.cursor == a.tree.cursor - 1,
        !up ==> b.tree.cursor >= a.tree.cursor,
        !up && a.tree.cursor + 1 < a.tree.rows().len() ==> b.tree.cursor == a.tree.cursor + 1,
        b.tree.fqdns == a.tree.fqdns,
        e is Nothing,
{
    law_named_actions(a.tree);
}

/// The default keys outside the input pane, as the README's table lists
/// them (the config keymap is looked up first): `q` quits, `i` and `/` go
/// to the command input, `j`/Down and `k`/Up move the cursor, Right/`l` and
/// Left/`h` unfold and fold the cursor node, Space toggles it, Enter on a
/// repo focuses it, `a` checks all and Shift-`A` unchecks all, `c` cancels,
/// `r` rescans, Esc clears the focus, PageUp/PageDown/Home/End scroll.
pub proof fn law_default_keys(t: TreeView, m: Modifiers)
    ensures
        nav_action(t, Key { code: KeyCode::Char('q'), modifiers: m }) == Some(Action::Quit),
        nav_action(t, Key { code: KeyCode::Char('i'), modifiers: m }) == Some(Action::FocusPane(Pane::Input)),
        nav_action(t, Key { code: KeyCode::Char('/'), modifiers: m }) == Some(Action::FocusPane(Pane::Input)),
        nav_action(t, Key { code: KeyCode::Char('j'), modifiers: m }) == Some(Action::CursorDown),
        nav_action(t, Key { code: KeyCode::Down, modifiers: m }) == Some(Action::CursorDown),
        nav_action(t, Key { code: KeyCode::Char('k'), modifiers: m }) == Some(Action::CursorUp),
        nav_action(t, Key { code: KeyCode::Up, modifiers: m }) == Some(Action::CursorUp),
        nav_action(t, Key { code: KeyCode::Char('a'), modifiers: m }) == Some(Action::CheckAll),
        m.is_shift_only() ==> nav_action(t, Key { code: KeyCode::Char('A'), modifiers: m }) == Some(Action::UncheckAll),
        !m.is_shift_only() ==> nav_action(t, Key { code: KeyCode::Char('A'), modifiers: m }) is None,
        nav_action(t, Key { code: KeyCode::Char('c'), modifiers: m }) == Some(Action::Cancel),
        nav_action(t, Key { code: KeyCode::Char('r'), modifiers: m }) == Some(Action::Rescan),
        nav_action(t, Key { code: KeyCode::Esc, modifiers: m }) == Some(Action::ClearFocus),
        nav_action(t, Key { code: KeyCode::PageDown, modifiers: m }) == Some(Action::ScrollDown),
        nav_action(t, Key { code: KeyCode::PageUp, modifiers: m }) == Some(Action::ScrollUp),
        nav_action(t, Key { code: KeyCode::Home, modifiers: m }) == Some(Action::ScrollTop),
        nav_action(t, Key { code: KeyCode::End, modifiers: m }) == Some(Action::ScrollBottom),
        t.cursor_of() matches Some(n) ==> {
            &&& nav_action(t, Key { code: KeyCode::Char(' '), modifiers: m }) == Some(Action::ToggleCheck(n))
            &&& nav_action(t, Key { code: KeyCode::Right, modifiers: m }) == Some(Action::Expand(n))
            &&& nav_action(t, Key { code: KeyCode::Char('l'), modifiers: m }) == Some(Action::Expand(n))
            &&& nav_action(t, Key { code: KeyCode::Left, modifiers: m }) == Some(Action::Collapse(n))
            &&& nav_action(t, Key { code: KeyCode::Char('h'), modifiers: m }) == Some(Action::Collapse(n))
        },
        t.cursor_of() matches Some(NodeRef::Repo(id)) ==> nav_action(t, Key { code: KeyCode::Enter, modifiers: m })
            == Some(Action::Focus(id)),
        !(t.cursor_of() matches Some(NodeRef::Repo(_))) ==> nav_action(t, Key { code: KeyCode::Enter, modifiers: m }) is None,
        nav_action(t, Key { code: KeyCode::Tab, modifiers: m }) is None,
        nav_action(t, Key { code: KeyCode::Char('z'), modifiers: m }) is None,
{
}

/// Which keys come before everything else: Ctrl-C quits from anywhere, Tab
/// cycles the panes; in the input pane Enter runs the command, Esc leaves
/// the pane, Up and Down browse the history and every other key edits the
/// line (the keymap is not consulted there).
pub proof fn law_key_priorities(a: App, key: Key)
    ensures
        key.modifiers.control && key.code == KeyCode::Char('c') ==> key_step(a, key) == KeyStep::Apply(Action::Quit),
        key.code == KeyCode::Tab && !(key.modifiers.control && key.code == KeyCode::Char('c')) ==> key_step(a, key)
            == KeyStep::CyclePane,
        a.active_pane == Pane::Input && !key.modifiers.control ==> match key.code {
            KeyCode::Enter => key_step(a, key) == KeyStep::Apply(Action::Run),
            KeyCode::Esc => key_step(a, key) == KeyStep::LeaveInput,
            KeyCode::Up => key_step(a, key) == KeyStep::HistoryPrev,
            KeyCode::Down => key_step(a, key) == KeyStep::HistoryNext,
            KeyCode::Tab => key_step(a, key) == KeyStep::CyclePane,
            _ => key_step(a, key) == KeyStep::Edit,
        },
{
}

/// The status shown for a repo, by run state: idle (gray), the spinner
/// frame and "running" (yellow), "done" (green) for exit code 0, "exit c"
/// (red) for any other exit code c, "failed" (red), "cancelled" (yellow),
/// "skipped" (gray). A repo's name is colored like its status, and an idle
/// repo's name is plain when checked and gray when not.
pub proof fn law_status_labels(frame: Seq<char>, c: i32, checked: bool)
    ensures
        status_label_of(RepoStatus::Idle, frame) == "idle"@,
        status_tint_of(RepoStatus::Idle) == Tint::DarkGray,
        status_label_of(RepoStatus::Running, frame) == frame + " running"@,
        status_tint_of(RepoStatus::Running) == Tint::Yellow,
        c == 0 ==> status_label_of(RepoStatus::Done(c), frame) == "done"@,
        c == 0 ==> status_tint_of(RepoStatus::Done(c)) == Tint::Green,
        c != 0 ==> status_label_of(RepoStatus::Done(c), frame) == "exit "@ + crate::text::spec_decimal_int(c as int),
        c != 0 ==> status_tint_of(RepoStatus::Done(c)) == Tint::Red,
        status_label_of(RepoStatus::Failed, frame) == "failed"@,
        status_tint_of(RepoStatus::Failed) == Tint::Red,
        status_label_of(RepoStatus::Cancelled, frame) == "cancelled"@,
        status_tint_of(RepoStatus::Cancelled) == Tint::Yellow,
        status_label_of(RepoStatus::Skipped, frame) == "skipped"@,
        status_tint_of(RepoStatus::Skipped) == Tint::DarkGray,
        forall|s: RepoStatus| s != RepoStatus::Idle ==> name_tint(s, checked) == #[trigger] status_tint_of(s),
        name_tint(RepoStatus::Idle, checked) == (if checked { Tint::Reset } else { Tint::DarkGray }),
{
}

/// The tri-state of a node: all checked when it has repos and every one is
/// checked, unchecked when none is checked, partial otherwise.
pub proof fn law_tri_state(a: App, node: NodeRef)
    ensures
        ({
            let ids = a.tree.ids_of(node);
            &&& (a.check_state_of(node) == CheckState::All) <==> (ids.len() > 0 && forall|k: int|
                0 <= k < ids.len() ==> a.repos@[#[trigger] ids[k] as int].checked)
            &&& (a.check_state_of(node) == CheckState::Unchecked) <==> (forall|k: int|
                0 <= k < ids.len() ==> !a.repos@[#[trigger] ids[k] as int].checked)
        }),
{
    let ids = a.tree.ids_of(node);
    let p = |id: RepoId| a.repos@[id as int].checked;
    lemma_filter_count(ids, p);
    assert forall|k: int| 0 <= k < ids.len() implies (#[trigger] p(ids[k])) == a.repos@[ids[k] as int].checked by {}
}

/// The targets of a run are exactly the checked repos, each once, in repo
/// order; they are all marked running, and no other repo changes.
pub proof fn law_run_targets(a: App, b: App, e: Effect)
    requires
        run_post(a, b, e),
        e is StartRun,
    ensures
        ({
            let ts = e->targets@;
            &&& forall|id: RepoId| ts.contains(id) <==> (id < a.repos@.len() && a.repos@[id as int].checked)
            &&& forall|i: int, j: int| 0 <= i < j < ts.len() ==> ts[i] < ts[j]
            &&& b.repos@.len() == a.repos@.len()
            &&& forall|k: int| 0 <= k < a.repos@.len() ==> (#[trigger] b.repos@[k]).status == (if a.repos@[k].checked {
                RepoStatus::Running
            } else {
                a.repos@[k].status
            })
            &&& forall|k: int| 0 <= k < a.repos@.len() ==> (#[trigger] b.repos@[k]).checked == a.repos@[k].checked
        }),
{
    broadcast use vstd::std_specs::vec::axiom_spec_len;
    assert(a.repos.len() == a.repos@.len());
    lemma_checked_order(a.repos@, a.repos@.len() as int);
}

/// The checked prefix lists exactly the checked repos below `n`, ascending.
proof fn lemma_checked_order(repos: Seq<Repo>, n: int)
    requires
        0 <= n <= repos.len(),
        repos.len() <= usize::MAX,
    ensures
        forall|id: RepoId| #[trigger] crate::app::checked_prefix(repos, n).contains(id) <==> (id < n && repos[id as int].checked),
        forall|i: int, j: int| 0 <= i < j < crate::app::checked_prefix(repos, n).len() ==> crate::app::checked_prefix(repos, n)[i]
            < crate::app::checked_prefix(repos, n)[j],
        forall|j: int| 0 <= j < crate::app::checked_prefix(repos, n).len() ==> #[trigger] crate::app::checked_prefix(repos, n)[j] < n,
    decreases n,
{
    if n > 0 {
        lemma_checked_order(repos, n - 1);
        let p = crate::app::checked_prefix(repos, n - 1);
        let q = crate::app::checked_prefix(repos, n);
        assert forall|id: RepoId| #[trigger] q.contains(id) <==> (id < n && repos[id as int].checked) by {
            if q.contains(id) {
                let j = choose|j: int| 0 <= j < q.len() && q[j] == id;
                if j < p.len() {
                    assert(p[j] == id);
                    assert(p.contains(id));
                }
            }
            if id < n && repos[id as int].checked {
                if id < n - 1 {
                    assert(p.contains(id));
                    let j = choose|j: int| 0 <= j < p.len() && p[j] == id;
                    assert(q[j] == id);
                } else {
                    assert(q[q.len() - 1] == id);
                }
            }
        }
        assert forall|i: int, j: int| 0 <= i < j < q.len() implies q[i] < q[j] by {
            if j == p.len() {
                assert(q[i] == p[i]);
            }
        }
    }
}

/// Scrolling the output moves three rows at a time, never below the top or
/// past the largest position, and leaves following the bottom; Home goes to
/// the top, End follows the bottom again.
pub proof fn law_scroll_steps(a: App, b: App, e: Effect, act: Action)
    requires
        act == Action::ScrollUp || act == Action::ScrollDown || act == Action::ScrollTop || act == Action::ScrollBottom,
        App::apply_post(a, act, b, e),
    ensures
        act == Action::ScrollUp ==> b.output_scroll == (if a.output_scroll >= 3 { a.output_scroll - 3 } else { 0 }) && !b.follow,
        act == Action::ScrollDown ==> b.output_scroll == (if a.output_scroll <= u16::MAX - 3 { a.output_scroll + 3 } else { u16::MAX as int })
            && !b.follow,
        act == Action::ScrollTop ==> b.output_scroll == 0 && !b.follow,
        act == Action::ScrollBottom ==> b.follow && b.output_scroll == a.output_scroll,
        e is Nothing,
        b.repos == a.repos && b.tree == a.tree && b.focus == a.focus,
{
}

/// The visible window of the output rows is the slice of all rows from
/// `start`, `height` long, cut at the end: its length is what remains of
/// the rows after `start` (at most `height`), and its `i`-th row is row
/// `start + i`.
pub proof fn law_output_window(rows: Seq<OutputRow>, start: int, height: int)
    requires
        0 <= start,
        0 <= height,
    ensures
        window(rows, start, start + height).len() == (if start >= rows.len() {
            0
        } else if rows.len() - start < height {
            rows.len() - start
        } else {
            height
        }),
        forall|i: int| 0 <= i < window(rows, start, start + height).len() ==> #[trigger] window(rows, start, start + height)[i]
            == rows[start + i],
{
}

/// The header of a box in the copied text: `# user/repo — status`, with the
/// status label trimmed, on a line of its own.
pub proof fn law_copy_header(r: Repo, label: Seq<char>)
    ensures
        copy_header(r, label) == "# "@ + r.user@ + "/"@ + r.name@ + " \u{2014} "@ + crate::text::spec_trim(label) + "\n"@,
{
    reveal_strlit("# ");
    reveal_strlit("/");
    reveal_strlit(" \u{2014} ");
    reveal_strlit("\n");
    assert(copy_header(r, label) =~= "# "@ + r.user@ + "/"@ + r.name@ + " \u{2014} "@ + crate::text::spec_trim(label) + "\n"@);
}

proof fn lemma_rows_upto_prefix(fqdns: Seq<FqdnNode>, a: int, b: int)
    requires
        0 <= a <= b <= fqdns.len(),
    ensures
        rows_upto(fqdns, a).len() <= rows_upto(fqdns, b).len(),
        forall|i: int| 0 <= i < rows_upto(fqdns, a).len() ==> #[trigger] rows_upto(fqdns, b)[i] == rows_upto(fqdns, a)[i],
    decreases b - a,
{
    if a < b {
        lemma_rows_upto_prefix(fqdns, a, b - 1);
        let p = rows_upto(fqdns, b - 1);
        assert forall|i: int| 0 <= i < p.len() implies #[trigger] rows_upto(fqdns, b)[i] == p[i] by {}
    }
}

proof fn lemma_users_rows_prefix(fi: usize, users: Seq<UserNode>, a: int, b: int)
    requires
        0 <= a <= b <= users.len(),
    ensures
        users_rows(fi, users, a).len() <= users_rows(fi, users, b).len(),
        forall|i: int| 0 <= i < users_rows(fi, users, a).len() ==> #[trigger] users_rows(fi, users, b)[i] == users_rows(
            fi,
            users,
            a,
        )[i],
    decreases b - a,
{
    if a < b {
        lemma_users_rows_prefix(fi, users, a, b - 1);
        let p = users_rows(fi, users, b - 1);
        assert forall|i: int| 0 <= i < p.len() implies #[trigger] users_rows(fi, users, b)[i] == p[i] by {}
    }
}

/// Every repo of an unfolded user group inside an unfolded fqdn group is
/// visible: there is a repo row for it, indented two levels. The returned
/// index is that row.
pub proof fn law_unfolded_repos_visible(t: TreeView, fi: int, ui: int, j: int) -> (k: int)
    requires
        0 <= fi < t.fqdns@.len(),
        0 <= ui < t.fqdns@[fi].users@.len(),
        0 <= j < t.fqdns@[fi].users@[ui].repos@.len(),
        t.fqdns@[fi].expanded,
        t.fqdns@[fi].users@[ui].expanded,
    ensures
        0 <= k < t.rows().len(),
        t.rows()[k] == (VisibleRow { node: NodeRef::Repo(t.fqdns@[fi].users@[ui].repos@[j]), indent: 2 }),
{
    let fq = t.fqdns@;
    let f = fq[fi];
    let us = f.users@;
    let u = us[ui];
    let ur = user_rows(fi as usize, ui as usize, u);
    assert(ur[1 + j] == (VisibleRow { node: NodeRef::Repo(u.repos@[j]), indent: 2 }));
    let up = users_rows(fi as usize, us, ui + 1);
    let pu = users_rows(fi as usize, us, ui);
    assert(up[pu.len() + 1 + j] == ur[1 + j]);
    lemma_users_rows_prefix(fi as usize, us, ui + 1, us.len() as int);
    let ua = users_rows(fi as usize, us, us.len() as int);
    assert(ua[pu.len() + 1 + j] == up[pu.len() + 1 + j]);
    let fr = fqdn_rows(fi as usize, f);
    assert(fr[1 + pu.len() + 1 + j] == ua[pu.len() + 1 + j]);
    let rp = rows_upto(fq, fi);
    let r1 = rows_upto(fq, fi + 1);
    assert(r1[rp.len() + 1 + pu.len() + 1 + j] == fr[1 + pu.len() + 1 + j]);
    lemma_rows_upto_prefix(fq, fi + 1, fq.len() as int);
    let k = rp.len() + 1 + pu.len() + 1 + j;
    assert(t.rows()[k] == r1[k]);
    k
}

/// A folded fqdn group shows only its own row: no user row of it is
/// visible. A folded user group likewise shows only its own row.
pub proof fn law_folded_groups_hide(t: TreeView, k: int)
    requires
        0 <= k < t.rows().len(),
    ensures
        t.rows()[k].node matches NodeRef::User(fi, ui) ==> fi < t.fqdns@.len() && t.fqdns@[fi as int].expanded
            && ui < t.fqdns@[fi as int].users@.len(),
{
    broadcast use vstd::std_specs::vec::axiom_spec_len;
    assert(t.fqdns.len() == t.fqdns@.len());
    assert forall|i: int| 0 <= i < t.fqdns@.len() implies (#[trigger] t.fqdns@[i]).users@.len() <= usize::MAX by {
        assert(t.fqdns@[i].users.len() == t.fqdns@[i].users@.len());
    }
    if t.rows()[k].node is User {
        lemma_rows_upto_user(t.fqdns@, t.fqdns@.len() as int, k);
    }
}

proof fn lemma_users_rows_user(fi: usize, users: Seq<UserNode>, n: int, k: int)
    requires
        0 <= n <= users.len(),
        users.len() <= usize::MAX,
        0 <= k < users_rows(fi, users, n).len(),
        users_rows(fi, users, n)[k].node is User,
    ensures
        users_rows(fi, users, n)[k].node matches NodeRef::User(f2, ui) && f2 == fi && ui < n,
    decreases n,
{
    let p = users_rows(fi, users, n - 1);
    if k < p.len() {
        assert(users_rows(fi, users, n)[k] == p[k]);
        lemma_users_rows_user(fi, users, n - 1, k);
    } else {
        let u = users[n - 1];
        assert(users_rows(fi, users, n)[k] == user_rows(fi, (n - 1) as usize, u)[k - p.len()]);
        assert(k - p.len() == 0);
    }
}

proof fn lemma_rows_upto_user(fqdns: Seq<FqdnNode>, n: int, k: int)
    requires
        0 <= n <= fqdns.len(),
        fqdns.len() <= usize::MAX,
        forall|i: int| 0 <= i < fqdns.len() ==> (#[trigger] fqdns[i]).users@.len() <= usize::MAX,
        0 <= k < rows_upto(fqdns, n).len(),
        rows_upto(fqdns, n)[k].node is User,
    ensures
        rows_upto(fqdns, n)[k].node matches NodeRef::User(fi, ui) && fi < n && fqdns[fi as int].expanded && ui
            < fqdns[fi as int].users@.len(),
    decreases n,
{
    let p = rows_upto(fqdns, n - 1);
    if k < p.len() {
        assert(rows_upto(fqdns, n)[k] == p[k]);
        lemma_rows_upto_user(fqdns, n - 1, k);
    } else {
        let f = fqdns[n - 1];
        let fr = fqdn_rows((n - 1) as usize, f);
        assert(rows_upto(fqdns, n)[k] == fr[k - p.len()]);
        assert(k - p.len() >= 1);
        let ur = users_rows((n - 1) as usize, f.users@, f.users@.len() as int);
        assert(fr[k - p.len()] == ur[k - p.len() - 1]);
        lemma_users_rows_user((n - 1) as usize, f.users@, f.users@.len() as int, k - p.len() - 1);
    }
}

/// The text order: at the first position where two texts differ, the
/// smaller character comes first; a proper prefix comes before the longer
/// text; equal texts are not ordered.
pub proof fn law_text_order(a: Seq<char>, b: Seq<char>, k: int)
    requires
        0 <= k <= a.len(),
        k <= b.len(),
        a.take(k) == b.take(k),
    ensures
        k < a.len() && k < b.len() && a[k] != b[k] ==> lex_lt(a, b) == (a[k] < b[k]),
        k == a.len() && k < b.len() ==> lex_lt(a, b),
        k == a.len() && k == b.len() ==> !lex_lt(a, b),
    decreases k,
{
    if k > 0 {
        assert(a[0] == a.take(k)[0]);
        assert(b[0] == b.take(k)[0]);
        assert(a.drop_first().take(k - 1) =~= a.take(k).drop_first());
        assert(b.drop_first().take(k - 1) =~= b.take(k).drop_first());
        law_text_order(a.drop_first(), b.drop_first(), k - 1);
        if k < a.len() && k < b.len() {
            assert(a.drop_first()[k - 1] == a[k]);
            assert(b.drop_first()[k - 1] == b[k]);
        }
    }
}

/// Discovered repos come in (fqdn, user, name) order: along the list the
/// fqdn never goes back, within an fqdn the user never goes back, and
/// within a user the name never goes back.
pub proof fn law_repo_order(s: Seq<Repo>, i: int, j: int)
    requires
        repos_sorted(s),
        0 <= i < j < s.len(),
    ensures
        !lex_lt(s[j].fqdn@, s[i].fqdn@),
        s[i].fqdn@ == s[j].fqdn@ ==> !lex_lt(s[j].user@, s[i].user@),
        s[i].fqdn@ == s[j].fqdn@ && s[i].user@ == s[j].user@ ==> !lex_lt(s[j].name@, s[i].name@),
{
    assert(!crate::repo::repo_lt(s[j], s[i]));
}

/// What each event adds to a repo's output: `Started` echoes the command as
/// `$ <command>`; a stdout line is kept as stdout and a stderr line as
/// stderr (shown in red), with the text unchanged; a spawn error adds
/// `error: <message>` as stderr and ends the box. Earlier lines stay.
pub proof fn law_output_lines(a: App, ev: RunnerEvent, b: App)
    requires
        event_post(a, ev, b),
    ensures
        ({
            let r = ev.repo_of();
            let before = lines_of(a.outputs@, r);
            let after = lines_of(b.outputs@, r);
            match ev {
                RunnerEvent::Started { command, .. } => {
                    &&& after.len() == before.len() + 1
                    &&& after.take(before.len() as int) == before
                    &&& after.last().kind == LineKind::Command
                    &&& after.last().text@ == "$ "@ + command@
                },
                RunnerEvent::Line { stream, text, .. } => {
                    &&& after.len() == before.len() + 1
                    &&& after.take(before.len() as int) == before
                    &&& after.last().kind == (if stream == Stream::Stderr { LineKind::Stderr } else { LineKind::Stdout })
                    &&& after.last().text == text
                },
                RunnerEvent::Error { message, .. } => {
                    &&& after.len() == before.len() + 1
                    &&& after.take(before.len() as int) == before
                    &&& after.last().kind == LineKind::Stderr
                    &&& after.last().text@ == "error: "@ + message@
                    &&& b.outputs@[r].finished
                },
                _ => after == before,
            }
        }),
{
    reveal_strlit("$ ");
    reveal_strlit("error: ");
    let r = ev.repo_of();
    assert(b.outputs@.contains_key(r) || ev is Skipped || ev is Finished);
    match ev {
        RunnerEvent::Started { command, .. } => {
            assert(seq!['$', ' '] + command@ =~= "$ "@ + command@);
        },
        RunnerEvent::Line { stream, text, .. } => {
            let before = lines_of(a.outputs@, r);
            let after = lines_of(b.outputs@, r);
            assert(after.take(before.len() as int) =~= before);
        },
        _ => {},
    }
}

/// A new run records the command in the history: it becomes the newest
/// entry, and it is added unless it repeats the newest entry; older entries
/// stay. Browsing starts afresh.
pub proof fn law_run_history(a: App, b: App, e: Effect)
    requires
        run_post(a, b, e),
        e is StartRun,
    ensures
        ({
            let h0 = a.history@;
            let h1 = b.history@;
            let cmd = e->command@;
            &&& h1.len() > 0 && h1.last()@ == cmd
            &&& h1.len() == h0.len() + (if h0.len() > 0 && h0.last()@ == cmd { 0int } else { 1 })
            &&& forall|i: int| 0 <= i < h0.len() ==> #[trigger] h1[i]@ == h0[i]@
            &&& b.history_pos is None
        }),
{
    let t0 = crate::app::texts(a.history@);
    let t1 = crate::app::texts(b.history@);
    assert(t1.len() == b.history@.len());
    assert(t0.len() == a.history@.len());
    assert forall|i: int| 0 <= i < a.history@.len() implies #[trigger] b.history@[i]@ == a.history@[i]@ by {
        assert(t1[i] == b.history@[i]@);
        assert(t0[i] == a.history@[i]@);
    }
    assert(t1[t1.len() - 1] == b.history@.last()@);
}

/// At startup a repo is checked exactly when it was found checked or some
/// accepted `default_checked` pattern matches its path `fqdn/user/repo`;
/// everything else about the repo is kept.
pub proof fn law_default_checked(repos: Seq<Repo>, patterns: Seq<String>, k: int)
    requires
        0 <= k < repos.len(),
    ensures
        prechecked(repos, patterns).len() == repos.len(),
        prechecked(repos, patterns)[k].checked == (repos[k].checked || exists|i: int|
            0 <= i < patterns.len() && #[trigger] glob_compiles(patterns[i]@) && glob_match(
                patterns[i]@,
                repos[k].fqdn@ + "/"@ + repos[k].user@ + "/"@ + repos[k].name@,
            )),
        prechecked(repos, patterns)[k] == (Repo { checked: prechecked(repos, patterns)[k].checked, ..repos[k] }),
{
    reveal_strlit("/");
    assert(repos[k].fqdn@ + "/"@ + repos[k].user@ + "/"@ + repos[k].name@ =~= crate::patterns::rel_of(repos[k]));
}

/// Keeping the output scrolled into range: following shows the last page,
/// otherwise the position is kept unless it is past the last page.
pub proof fn law_settle_scroll(total: u16, view_h: u16)
    ensures
        crate::view::sat_sub16(total, view_h) == (if total >= view_h { total - view_h } else { 0 }),
{
}

/// The keymap's name of a key press: `ctrl+` when Control is held, then
/// `alt+` when Alt is held, then the key: a letter in lower case, any other
/// character as itself, `space` for the space bar, and `up`, `down`,
/// `left`, `right`, `enter`, `esc` for those keys. Other keys have no name.
pub proof fn law_key_names(m: Modifiers, c: char)
    ensures
        ({
            let pre = (if m.control { "ctrl+"@ } else { Seq::<char>::empty() }) + (if m.alt { "alt+"@ } else { Seq::<char>::empty() });
            &&& 'A' <= c <= 'Z' ==> key_string(Key { code: KeyCode::Char(c), modifiers: m }) == Some(pre + seq![((c as u32) + 32) as char])
            &&& c != ' ' && !('A' <= c <= 'Z') ==> key_string(Key { code: KeyCode::Char(c), modifiers: m }) == Some(pre + seq![c])
            &&& key_string(Key { code: KeyCode::Char(' '), modifiers: m }) == Some(pre + "space"@)
            &&& key_string(Key { code: KeyCode::Up, modifiers: m }) == Some(pre + "up"@)
            &&& key_string(Key { code: KeyCode::Down, modifiers: m }) == Some(pre + "down"@)
            &&& key_string(Key { code: KeyCode::Left, modifiers: m }) == Some(pre + "left"@)
            &&& key_string(Key { code: KeyCode::Right, modifiers: m }) == Some(pre + "right"@)
            &&& key_string(Key { code: KeyCode::Enter, modifiers: m }) == Some(pre + "enter"@)
            &&& key_string(Key { code: KeyCode::Esc, modifiers: m }) == Some(pre + "esc"@)
            &&& key_string(Key { code: KeyCode::Tab, modifiers: m }) is None
            &&& key_string(Key { code: KeyCode::Backspace, modifiers: m }) is None
            &&& key_string(Key { code: KeyCode::PageUp, modifiers: m }) is None
            &&& key_string(Key { code: KeyCode::Other, modifiers: m }) is None
        }),
{
}

/// The status mark after a repo's name in the tree: nothing when idle, the
/// spinner frame while running, the done icon for exit code 0, the fail
/// icon followed by the code for any other exit code, and the fail, cancel
/// and skip icons for the other end states. The spinner shows frame
/// `(tick / 2) mod n` of its `n` frames.
pub proof fn law_status_marks(icons: crate::theme::Icons, frame: Seq<char>, c: i32, tick: usize)
    requires
        icons.wf(),
    ensures
        status_mark_of(icons, RepoStatus::Idle, frame).len() == 0,
        status_mark_of(icons, RepoStatus::Running, frame) == frame,
        c == 0 ==> status_mark_of(icons, RepoStatus::Done(c), frame) == icons.status_done@,
        c != 0 ==> status_mark_of(icons, RepoStatus::Done(c), frame) == icons.status_fail@ + crate::text::spec_decimal_int(c as int),
        status_mark_of(icons, RepoStatus::Failed, frame) == icons.status_fail@,
        status_mark_of(icons, RepoStatus::Cancelled, frame) == icons.status_cancel@,
        status_mark_of(icons, RepoStatus::Skipped, frame) == icons.status_skip@,
        spinner_frame(icons, tick) == icons.spinner@[((tick as int) / 2) % icons.spinner@.len() as int]@,
{
    broadcast use vstd::std_specs::vec::axiom_spec_len;
    assert(icons.spinner.len() == icons.spinner@.len());
}

proof fn lemma_ws_prefix(s: Seq<char>)
    ensures
        ws_prefix_len(s) <= s.len(),
        forall|k: int| 0 <= k < ws_prefix_len(s) ==> spec_is_whitespace(#[trigger] s[k]),
        ws_prefix_len(s) < s.len() ==> !spec_is_whitespace(s[ws_prefix_len(s) as int]),
    decreases s.len(),
{
    if s.len() > 0 && spec_is_whitespace(s[0]) {
        lemma_ws_prefix(s.drop_first());
        assert forall|k: int| 0 <= k < ws_prefix_len(s) implies spec_is_whitespace(#[trigger] s[k]) by {
            if k > 0 {
                assert(s[k] == s.drop_first()[k - 1]);
            }
        }
    }
}

proof fn lemma_ws_suffix(s: Seq<char>)
    ensures
        ws_suffix_len(s) <= s.len(),
        forall|k: int| s.len() - ws_suffix_len(s) <= k < s.len() ==> spec_is_whitespace(#[trigger] s[k]),
        ws_suffix_len(s) < s.len() ==> !spec_is_whitespace(s[s.len() - ws_suffix_len(s) - 1]),
    decreases s.len(),
{
    if s.len() > 0 && spec_is_whitespace(s.last()) {
        lemma_ws_suffix(s.drop_last());
        assert forall|k: int| s.len() - ws_suffix_len(s) <= k < s.len() implies spec_is_whitespace(#[trigger] s[k]) by {
            if k < s.len() - 1 {
                assert(s[k] == s.drop_last()[k]);
            }
        }
    }
}

/// Trimming keeps the text between the leading and the trailing whitespace:
/// the result is the slice `i..j` of the text, everything before `i` and
/// from `j` on is whitespace, and a non-empty result starts and ends with a
/// character that is not whitespace. The returned pair is `(i, j)`.
pub proof fn law_trim(s: Seq<char>) -> (r: (int, int))
    ensures
        0 <= r.0 <= r.1 <= s.len(),
        spec_trim(s) == s.subrange(r.0, r.1),
        forall|k: int| 0 <= k < r.0 ==> spec_is_whitespace(#[trigger] s[k]),
        forall|k: int| r.1 <= k < s.len() ==> spec_is_whitespace(#[trigger] s[k]),
        r.0 < r.1 ==> !spec_is_whitespace(s[r.0]) && !spec_is_whitespace(s[r.1 - 1]),
{
    lemma_ws_prefix(s);
    let i = ws_prefix_len(s) as int;
    let t = s.skip(i);
    lemma_ws_suffix(t);
    let j = i + t.len() - ws_suffix_len(t);
    assert(spec_trim(s) =~= s.subrange(i, j));
    assert forall|k: int| j <= k < s.len() implies spec_is_whitespace(#[trigger] s[k]) by {
        if k >= i {
            assert(s[k] == t[k - i]);
        }
    }
    if i < j {
        assert(s[i] == t[0]);
        assert(s[j - 1] == t[t.len() - ws_suffix_len(t) - 1]);
        assert(ws_suffix_len(t) < t.len());
    }
    (i, j)
}

} // verus!
