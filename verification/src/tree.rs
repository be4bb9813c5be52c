//! The fqdn → user → repo tree shown in the left pane.

use vstd::prelude::*;
use crate::repo::{Repo, RepoId};

verus! {

/// Positional reference to a tree node. Mouse builds it from the click position,
/// keyboard from the cursor row.
#[derive(Debug, Clone, Copy, PartialEq, Eq, Structural)]
pub enum NodeRef {
    Fqdn(usize),
    User(usize, usize),
    Repo(RepoId),
}

pub struct UserNode {
    pub name: String,
    pub expanded: bool,
    pub repos: Vec<RepoId>,
}

pub struct FqdnNode {
    pub name: String,
    pub expanded: bool,
    pub users: Vec<UserNode>,
}

/// One flattened row for rendering.
#[derive(Debug, Clone, Copy, PartialEq, Eq, Structural)]
pub struct VisibleRow {
    pub node: NodeRef,
    pub indent: u16,
}

/// Display model of the tree: hierarchy, expansion, and cursor. A repo's
/// checked/status lives in the flat repo list; here we only reference RepoId.
pub struct TreeView {
    pub fqdns: Vec<FqdnNode>,
    pub cursor: usize,
}

/// A user group as plain values: its name and its repo ids.
pub type UserShape = (Seq<char>, Seq<RepoId>);

/// An fqdn group as plain values: its name and its user groups.
pub type FqdnShape = (Seq<char>, Seq<UserShape>);

pub open spec fn user_shape(u: UserNode) -> UserShape {
    (u.name@, u.repos@)
}

pub open spec fn fqdn_shape(f: FqdnNode) -> FqdnShape {
    (f.name@, f.users@.map_values(|u: UserNode| user_shape(u)))
}

/// Rows of one user group (the group row, then its repos when expanded).
pub open spec fn user_rows(fi: usize, ui: usize, u: UserNode) -> Seq<VisibleRow> {
    seq![VisibleRow { node: NodeRef::User(fi, ui), indent: 1 }] + if u.expanded {
        u.repos@.map_values(|rid: RepoId| VisibleRow { node: NodeRef::Repo(rid), indent: 2 })
    } else {
        Seq::<VisibleRow>::empty()
    }
}

/// Rows of the first `n` user groups of fqdn `fi`.
pub open spec fn users_rows(fi: usize, users: Seq<UserNode>, n: int) -> Seq<VisibleRow>
    decreases n,
{
    if n <= 0 {
        Seq::<VisibleRow>::empty()
    } else {
        users_rows(fi, users, n - 1) + user_rows(fi, (n - 1) as usize, users[n - 1])
    }
}

/// Rows of one fqdn group (the group row, then its users when expanded).
pub open spec fn fqdn_rows(fi: usize, f: FqdnNode) -> Seq<VisibleRow> {
    seq![VisibleRow { node: NodeRef::Fqdn(fi), indent: 0 }] + if f.expanded {
        users_rows(fi, f.users@, f.users@.len() as int)
    } else {
        Seq::<VisibleRow>::empty()
    }
}

/// Rows of the first `n` fqdn groups.
pub open spec fn rows_upto(fqdns: Seq<FqdnNode>, n: int) -> Seq<VisibleRow>
    decreases n,
{
    if n <= 0 {
        Seq::<VisibleRow>::empty()
    } else {
        rows_upto(fqdns, n - 1) + fqdn_rows((n - 1) as usize, fqdns[n - 1])
    }
}

/// Repo ids of the first `n` user groups, in order.
pub open spec fn users_ids(users: Seq<UserNode>, n: int) -> Seq<RepoId>
    decreases n,
{
    if n <= 0 {
        Seq::<RepoId>::empty()
    } else {
        users_ids(users, n - 1) + users[n - 1].repos@
    }
}

/// The (fqdn, user) pair a repo is grouped by.
pub open spec fn repo_key(r: Repo) -> (Seq<char>, Seq<char>) {
    (r.fqdn@, r.user@)
}

/// `i` is the first position whose name is `name`.
pub open spec fn first_named<T>(s: Seq<(Seq<char>, T)>, name: Seq<char>, i: int) -> bool {
    &&& 0 <= i < s.len()
    &&& s[i].0 == name
    &&& forall|j: int| 0 <= j < i ==> #[trigger] s[j].0 != name
}

/// The position of the first group named `name`, or -1 when there is none.
pub open spec fn find_group<T>(s: Seq<(Seq<char>, T)>, name: Seq<char>) -> int {
    if exists|i: int| first_named(s, name, i) {
        choose|i: int| first_named(s, name, i)
    } else {
        -1
    }
}

/// Adds repo `id` to the user group `user`, creating the group at the end if absent.
pub open spec fn add_to_users(us: Seq<UserShape>, user: Seq<char>, id: RepoId) -> Seq<UserShape> {
    let j = find_group(us, user);
    if j < 0 {
        us.push((user, seq![id]))
    } else {
        us.update(j, (user, us[j].1.push(id)))
    }
}

/// Adds repo `id` under `fqdn` → `user`, creating groups at the end if absent.
pub open spec fn add_to_tree(t: Seq<FqdnShape>, fqdn: Seq<char>, user: Seq<char>, id: RepoId) -> Seq<FqdnShape> {
    let i = find_group(t, fqdn);
    if i < 0 {
        t.push((fqdn, seq![(user, seq![id])]))
    } else {
        t.update(i, (fqdn, add_to_users(t[i].1, user, id)))
    }
}

/// The grouping of the first `n` repos, in order of first appearance.
pub open spec fn grouped(keys: Seq<(Seq<char>, Seq<char>)>, n: int) -> Seq<FqdnShape>
    decreases n,
{
    if n <= 0 {
        Seq::<FqdnShape>::empty()
    } else {
        add_to_tree(grouped(keys, n - 1), keys[n - 1].0, keys[n - 1].1, (n - 1) as RepoId)
    }
}

pub(crate) proof fn lemma_find_group_at<T>(s: Seq<(Seq<char>, T)>, name: Seq<char>, i: int)
    requires
        first_named(s, name, i),
    ensures
        find_group(s, name) == i,
{
    let k = choose|k: int| first_named(s, name, k);
    assert(first_named(s, name, k));
    if k < i {
        assert(s[k].0 != name);
    } else if k > i {
        assert(s[i].0 != name);
    }
}

pub(crate) proof fn lemma_find_group_none<T>(s: Seq<(Seq<char>, T)>, name: Seq<char>)
    requires
        forall|k: int| 0 <= k < s.len() ==> #[trigger] s[k].0 != name,
    ensures
        find_group(s, name) == -1,
{
}

/// Position of the first fqdn group named `name`.
fn find_fqdn(fqdns: &Vec<FqdnNode>, name: &String) -> (r: Option<usize>)
    ensures
        match r {
            Some(i) => find_group(fqdns@.map_values(|f: FqdnNode| fqdn_shape(f)), name@) == i,
            None => find_group(fqdns@.map_values(|f: FqdnNode| fqdn_shape(f)), name@) == -1,
        },
{
    let ghost sh = fqdns@.map_values(|f: FqdnNode| fqdn_shape(f));
    let mut i: usize = 0;
    while i < fqdns.len()
        invariant
            i <= fqdns@.len(),
            sh == fqdns@.map_values(|f: FqdnNode| fqdn_shape(f)),
            forall|j: int| 0 <= j < i ==> #[trigger] sh[j].0 != name@,
        decreases fqdns@.len() - i,
    {
        if fqdns[i].name == *name {
            proof {
                lemma_find_group_at(sh, name@, i as int);
            }
            return Some(i);
        }
        i = i + 1;
    }
    proof {
        lemma_find_group_none(sh, name@);
    }
    None
}

/// Position of the first user group named `name`.
fn find_user(users: &Vec<UserNode>, name: &String) -> (r: Option<usize>)
    ensures
        match r {
            Some(i) => find_group(users@.map_values(|u: UserNode| user_shape(u)), name@) == i,
            None => find_group(users@.map_values(|u: UserNode| user_shape(u)), name@) == -1,
        },
{
    let ghost sh = users@.map_values(|u: UserNode| user_shape(u));
    let mut i: usize = 0;
    while i < users.len()
        invariant
            i <= users@.len(),
            sh == users@.map_values(|u: UserNode| user_shape(u)),
            forall|j: int| 0 <= j < i ==> #[trigger] sh[j].0 != name@,
        decreases users@.len() - i,
    {
        if users[i].name == *name {
            proof {
                lemma_find_group_at(sh, name@, i as int);
            }
            return Some(i);
        }
        i = i + 1;
    }
    proof {
        lemma_find_group_none(sh, name@);
    }
    None
}

/// Every group of the tree is expanded.
pub open spec fn all_expanded(fqdns: Seq<FqdnNode>) -> bool {
    forall|i: int| 0 <= i < fqdns.len() ==> {
        &&& (#[trigger] fqdns[i]).expanded
        &&& forall|j: int| 0 <= j < fqdns[i].users@.len() ==> (#[trigger] fqdns[i].users@[j]).expanded
    }
}

/// Every repo id placed by the grouping of the first `n` repos is below `n`.
pub proof fn lemma_grouped_ids_below(keys: Seq<(Seq<char>, Seq<char>)>, n: int)
    requires
        0 <= n <= keys.len(),
    ensures
        forall|fi: int, ui: int, k: int|
            0 <= fi < grouped(keys, n).len() && 0 <= ui < grouped(keys, n)[fi].1.len() && 0 <= k
                < grouped(keys, n)[fi].1[ui].1.len() ==> #[trigger] grouped(keys, n)[fi].1[ui].1[k] < n,
    decreases n,
{
    if n > 0 {
        lemma_grouped_ids_below(keys, n - 1);
        let t = grouped(keys, n - 1);
        let g = grouped(keys, n);
        let f = keys[n - 1].0;
        let u = keys[n - 1].1;
        let id = (n - 1) as RepoId;
        let i = find_group(t, f);
        assert forall|fi: int, ui: int, k: int|
            0 <= fi < g.len() && 0 <= ui < g[fi].1.len() && 0 <= k < g[fi].1[ui].1.len() implies #[trigger] g[fi].1[ui].1[k] < n by {
            if i < 0 {
                if fi < t.len() {
                    assert(g[fi] == t[fi]);
                } else {
                    assert(g[fi] == (f, seq![(u, seq![id])]));
                }
            } else {
                if fi != i {
                    assert(g[fi] == t[fi]);
                } else {
                    let us = t[i].1;
                    let j = find_group(us, u);
                    if j >= 0 {
                        let wj = choose|w: int| first_named(us, u, w);
                        assert(first_named(us, u, wj));
                    }
                    if i >= 0 {
                        let wi = choose|w: int| first_named(t, f, w);
                        assert(first_named(t, f, wi));
                    }
                    assert(g[fi].1 == add_to_users(us, u, id));
                    if j < 0 {
                        if ui < us.len() {
                            assert(g[fi].1[ui] == us[ui]);
                        }
                    } else {
                        if ui != j {
                            assert(g[fi].1[ui] == us[ui]);
                        } else {
                            assert(g[fi].1[ui].1 == us[j].1.push(id));
                            if k < us[j].1.len() {
                                assert(g[fi].1[ui].1[k] == us[j].1[k]);
                            }
                        }
                    }
                }
            }
        }
    }
}

/// Every visible row is indented by at most two levels.
pub proof fn lemma_rows_indent(fqdns: Seq<FqdnNode>, n: int)
    requires
        0 <= n <= fqdns.len(),
    ensures
        forall|k: int| 0 <= k < rows_upto(fqdns, n).len() ==> (#[trigger] rows_upto(fqdns, n)[k]).indent <= 2,
    decreases n,
{
    if n > 0 {
        lemma_rows_indent(fqdns, n - 1);
        let f = fqdns[n - 1];
        let fi = (n - 1) as usize;
        lemma_users_rows_indent(fi, f.users@, f.users@.len() as int);
        let a = rows_upto(fqdns, n - 1);
        let b = fqdn_rows(fi, f);
        assert forall|k: int| 0 <= k < rows_upto(fqdns, n).len() implies (#[trigger] rows_upto(fqdns, n)[k]).indent <= 2 by {
            if k >= a.len() {
                let j = k - a.len();
                assert(rows_upto(fqdns, n)[k] == b[j]);
                if j > 0 && f.expanded {
                    assert(b[j] == users_rows(fi, f.users@, f.users@.len() as int)[j - 1]);
                }
            } else {
                assert(rows_upto(fqdns, n)[k] == a[k]);
            }
        }
    }
}

proof fn lemma_users_rows_indent(fi: usize, users: Seq<UserNode>, n: int)
    requires
        0 <= n <= users.len(),
    ensures
        forall|k: int| 0 <= k < users_rows(fi, users, n).len() ==> (#[trigger] users_rows(fi, users, n)[k]).indent <= 2,
    decreases n,
{
    if n > 0 {
        lemma_users_rows_indent(fi, users, n - 1);
        let a = users_rows(fi, users, n - 1);
        let b = user_rows(fi, (n - 1) as usize, users[n - 1]);
        assert forall|k: int| 0 <= k < users_rows(fi, users, n).len() implies (#[trigger] users_rows(fi, users, n)[k]).indent <= 2 by {
            if k >= a.len() {
                assert(users_rows(fi, users, n)[k] == b[k - a.len()]);
            } else {
                assert(users_rows(fi, users, n)[k] == a[k]);
            }
        }
    }
}

impl TreeView {

    /// Build by grouping `repos` as fqdn → user, in order of first appearance.
    /// Starts fully expanded with the cursor on the first row.
    pub fn build(repos: &[Repo]) -> (t: TreeView)
        ensures
            t.shape() == grouped(repos@.map_values(|r: Repo| repo_key(r)), repos@.len() as int),
            all_expanded(t.fqdns@),
            t.cursor == 0,
    {
        let ghost keys = repos@.map_values(|r: Repo| repo_key(r));
        let mut fqdns: Vec<FqdnNode> = Vec::new();
        let mut id: usize = 0;
        while id < repos.len()
            invariant
                id <= repos@.len(),
                keys == repos@.map_values(|r: Repo| repo_key(r)),
                fqdns@.map_values(|f: FqdnNode| fqdn_shape(f)) == grouped(keys, id as int),
                all_expanded(fqdns@),
            decreases repos@.len() - id,
        {
            let repo = &repos[id];
            let ghost t0 = fqdns@.map_values(|f: FqdnNode| fqdn_shape(f));
            let ghost old_fqdns = fqdns@;
            assert(keys[id as int] == (repo.fqdn@, repo.user@));
            match find_fqdn(&fqdns, &repo.fqdn) {
                None => {
                    let mut repo_list: Vec<RepoId> = Vec::new();
                    repo_list.push(id);
                    let mut users: Vec<UserNode> = Vec::new();
                    users.push(UserNode { name: repo.user.clone(), expanded: true, repos: repo_list });
                    fqdns.push(FqdnNode { name: repo.fqdn.clone(), expanded: true, users });
                    proof {
                        let last = fqdns@[fqdns@.len() - 1];
                        assert(last.users@[0].repos@ =~= seq![id]);
                        assert(last.users@.map_values(|u: UserNode| user_shape(u))
                            =~= seq![(repo.user@, seq![id])]);
                        assert(fqdns@.map_values(|f: FqdnNode| fqdn_shape(f)) =~= t0.push(
                            (repo.fqdn@, seq![(repo.user@, seq![id])]),
                        ));
                    }
                },
                Some(fi) => {
                    let ghost us0 = fqdns@[fi as int].users@.map_values(|u: UserNode| user_shape(u));
                    match find_user(&fqdns[fi].users, &repo.user) {
                        None => {
                            let mut repo_list: Vec<RepoId> = Vec::new();
                            repo_list.push(id);
                            fqdns[fi].users.push(
                                UserNode { name: repo.user.clone(), expanded: true, repos: repo_list },
                            );
                            proof {
                                assert(repo_list@ =~= seq![id]);
                                assert(fqdns@[fi as int].users@.map_values(|u: UserNode| user_shape(u))
                                    =~= us0.push((repo.user@, seq![id])));
                                assert(fqdns@.map_values(|f: FqdnNode| fqdn_shape(f)) =~= t0.update(
                                    fi as int,
                                    (repo.fqdn@, us0.push((repo.user@, seq![id]))),
                                ));
                            }
                        },
                        Some(ui) => {
                            fqdns[fi].users[ui].repos.push(id);
                            proof {
                                assert(fqdns@[fi as int].users@.map_values(|u: UserNode| user_shape(u))
                                    =~= us0.update(ui as int, (repo.user@, us0[ui as int].1.push(id))));
                                assert(fqdns@.map_values(|f: FqdnNode| fqdn_shape(f)) =~= t0.update(
                                    fi as int,
                                    (repo.fqdn@, us0.update(ui as int, (repo.user@, us0[ui as int].1.push(id)))),
                                ));
                            }
                        },
                    }
                },
            }
            id = id + 1;
        }
        TreeView { fqdns, cursor: 0 }
    }
    /// The tree's groups as plain values.
    pub open spec fn shape(self) -> Seq<FqdnShape> {
        self.fqdns@.map_values(|f: FqdnNode| fqdn_shape(f))
    }

    /// The visible rows, in display order.
    pub open spec fn rows(self) -> Seq<VisibleRow> {
        rows_upto(self.fqdns@, self.fqdns@.len() as int)
    }

    /// Whether `node` names an existing group node.
    pub open spec fn has_group(self, node: NodeRef) -> bool {
        match node {
            NodeRef::Fqdn(i) => i < self.fqdns@.len(),
            NodeRef::User(i, j) => i < self.fqdns@.len() && j < self.fqdns@[i as int].users@.len(),
            NodeRef::Repo(_) => false,
        }
    }

    /// The expansion flag of a node; `false` for repos and unknown nodes.
    pub open spec fn expanded_of(self, node: NodeRef) -> bool {
        match node {
            NodeRef::Fqdn(i) => i < self.fqdns@.len() && self.fqdns@[i as int].expanded,
            NodeRef::User(i, j) => i < self.fqdns@.len() && j < self.fqdns@[i as int].users@.len()
                && self.fqdns@[i as int].users@[j as int].expanded,
            NodeRef::Repo(_) => false,
        }
    }

    /// All repo ids under a node.
    pub open spec fn ids_of(self, node: NodeRef) -> Seq<RepoId> {
        match node {
            NodeRef::Repo(id) => seq![id],
            NodeRef::User(i, j) => if self.has_group(node) {
                self.fqdns@[i as int].users@[j as int].repos@
            } else {
                Seq::<RepoId>::empty()
            },
            NodeRef::Fqdn(i) => if i < self.fqdns@.len() {
                users_ids(self.fqdns@[i as int].users@, self.fqdns@[i as int].users@.len() as int)
            } else {
                Seq::<RepoId>::empty()
            },
        }
    }

    /// The label of a group node; empty for repos and unknown nodes.
    pub open spec fn label_of(self, node: NodeRef) -> Seq<char> {
        match node {
            NodeRef::Fqdn(i) => if i < self.fqdns@.len() {
                self.fqdns@[i as int].name@
            } else {
                Seq::<char>::empty()
            },
            NodeRef::User(i, j) => if self.has_group(node) {
                self.fqdns@[i as int].users@[j as int].name@
            } else {
                Seq::<char>::empty()
            },
            NodeRef::Repo(_) => Seq::<char>::empty(),
        }
    }

    /// The node under the cursor, if the cursor is on a row.
    pub open spec fn cursor_of(self) -> Option<NodeRef> {
        if self.cursor < self.rows().len() {
            Some(self.rows()[self.cursor as int].node)
        } else {
            None
        }
    }

    /// Visible rows reflecting the current expansion state.
    pub fn visible(&self) -> (rows: Vec<VisibleRow>)
        ensures
            rows@ == self.rows(),
    {
        let mut rows: Vec<VisibleRow> = Vec::new();
        let nf = self.fqdns.len();
        let mut fi: usize = 0;
        while fi < nf
            invariant
                nf == self.fqdns@.len(),
                fi <= nf,
                rows@ == rows_upto(self.fqdns@, fi as int),
            decreases nf - fi,
        {
            let f = &self.fqdns[fi];
            let ghost before = rows@;
            rows.push(VisibleRow { node: NodeRef::Fqdn(fi), indent: 0 });
            if f.expanded {
                let nu = f.users.len();
                let mut ui: usize = 0;
                while ui < nu
                    invariant
                        nu == f.users@.len(),
                        ui <= nu,
                        rows@ == before + seq![VisibleRow { node: NodeRef::Fqdn(fi), indent: 0 }]
                            + users_rows(fi, f.users@, ui as int),
                    decreases nu - ui,
                {
                    let u = &f.users[ui];
                    let ghost mid = rows@;
                    rows.push(VisibleRow { node: NodeRef::User(fi, ui), indent: 1 });
                    if u.expanded {
                        let nr = u.repos.len();
                        let mut k: usize = 0;
                        while k < nr
                            invariant
                                nr == u.repos@.len(),
                                k <= nr,
                                rows@ == mid + seq![VisibleRow { node: NodeRef::User(fi, ui), indent: 1 }]
                                    + u.repos@.take(k as int).map_values(
                                    |rid: RepoId| VisibleRow { node: NodeRef::Repo(rid), indent: 2 },
                                ),
                            decreases nr - k,
                        {
                            rows.push(VisibleRow { node: NodeRef::Repo(u.repos[k]), indent: 2 });
                            assert(u.repos@.take(k + 1) == u.repos@.take(k as int).push(u.repos@[k as int]));
                            k = k + 1;
                        }
                        assert(u.repos@.take(nr as int) == u.repos@);
                    }
                    assert(users_rows(fi, f.users@, ui + 1) == users_rows(fi, f.users@, ui as int)
                        + user_rows(fi, ui, f.users@[ui as int]));
                    ui = ui + 1;
                }
            }
            fi = fi + 1;
        }
        rows
    }

    /// The node on the cursor row, if the cursor is on a visible row.
    pub fn cursor_node(&self) -> (node: Option<NodeRef>)
        ensures
            node == self.cursor_of(),
    {
        let rows = self.visible();
        if self.cursor < rows.len() {
            Some(rows[self.cursor].node)
        } else {
            None
        }
    }

    /// Move the cursor by `delta` rows, kept within the visible rows.
    pub fn move_cursor(&mut self, delta: isize)
        requires
            isize::MIN <= (old(self).cursor as isize) + delta <= isize::MAX,
        ensures
            final(self).fqdns == old(self).fqdns,
            old(self).rows().len() == 0 ==> final(self).cursor == old(self).cursor,
            old(self).rows().len() > 0 ==> final(self).cursor == clamp(
                (old(self).cursor as isize) + delta,
                old(self).rows().len() - 1,
            ),
    {
        let len = self.visible().len();
        if len == 0 {
            return;
        }
        let sum: isize = self.cursor as isize + delta;
        let top: isize = if len > isize::MAX as usize { isize::MAX } else { len as isize - 1 };
        let next: isize = if sum < 0 { 0 } else if sum > top { top } else { sum };
        self.cursor = next as usize;
    }

    /// Whether a group node is unfolded (`false` for repos).
    pub fn is_expanded(&self, node: NodeRef) -> (b: bool)
        ensures
            b == self.expanded_of(node),
    {
        match node {
            NodeRef::Fqdn(i) => i < self.fqdns.len() && self.fqdns[i].expanded,
            NodeRef::User(i, j) => i < self.fqdns.len() && j < self.fqdns[i].users.len()
                && self.fqdns[i].users[j].expanded,
            NodeRef::Repo(_) => false,
        }
    }

    /// Fold or unfold a group node; repos and unknown nodes are left alone.
    pub fn set_expanded(&mut self, node: NodeRef, expanded: bool)
        ensures
            final(self).shape() == old(self).shape(),
            final(self).cursor == old(self).cursor,
            forall|n: NodeRef| #[trigger] final(self).expanded_of(n) == if n == node && old(self).has_group(n) {
                expanded
            } else {
                old(self).expanded_of(n)
            },
    {
        match node {
            NodeRef::Fqdn(i) => {
                if i < self.fqdns.len() {
                    self.fqdns[i].expanded = expanded;
                }
            },
            NodeRef::User(i, j) => {
                if i < self.fqdns.len() && j < self.fqdns[i].users.len() {
                    self.fqdns[i].users[j].expanded = expanded;
                }
            },
            NodeRef::Repo(_) => {},
        }
        assert forall|k: int| 0 <= k < final(self).fqdns@.len() implies fqdn_shape(#[trigger] final(self).fqdns@[k])
            == fqdn_shape(old(self).fqdns@[k]) by {
            assert(final(self).fqdns@[k].users@.map_values(|u: UserNode| user_shape(u))
                =~= old(self).fqdns@[k].users@.map_values(|u: UserNode| user_shape(u)));
        }
        assert(final(self).shape() =~= old(self).shape());
    }

    /// All RepoIds under a node (for bulk toggle / tri-state).
    pub fn repo_ids(&self, node: NodeRef) -> (ids: Vec<RepoId>)
        ensures
            ids@ == self.ids_of(node),
    {
        match node {
            NodeRef::Repo(id) => vec![id],
            NodeRef::User(i, j) => {
                if i < self.fqdns.len() && j < self.fqdns[i].users.len() {
                    self.fqdns[i].users[j].repos.clone()
                } else {
                    Vec::new()
                }
            },
            NodeRef::Fqdn(i) => {
                if i < self.fqdns.len() {
                    let users = &self.fqdns[i].users;
                    let mut ids: Vec<RepoId> = Vec::new();
                    let mut ui: usize = 0;
                    while ui < users.len()
                        invariant
                            ui <= users@.len(),
                            ids@ == users_ids(users@, ui as int),
                        decreases users@.len() - ui,
                    {
                        let repos = &users[ui].repos;
                        let ghost before = ids@;
                        let mut k: usize = 0;
                        while k < repos.len()
                            invariant
                                k <= repos@.len(),
                                ids@ == before + repos@.take(k as int),
                            decreases repos@.len() - k,
                        {
                            ids.push(repos[k]);
                            assert(repos@.take(k + 1) == repos@.take(k as int).push(repos@[k as int]));
                            k = k + 1;
                        }
                        assert(repos@.take(repos@.len() as int) == repos@);
                        ui = ui + 1;
                    }
                    ids
                } else {
                    Vec::new()
                }
            },
        }
    }

    /// Label of a group node (repo labels come from the repo list).
    pub fn group_label(&self, node: NodeRef) -> (label: &str)
        ensures
            label@ == self.label_of(node),
    {
        proof {
            reveal_strlit("");
        }
        match node {
            NodeRef::Fqdn(i) => {
                if i < self.fqdns.len() {
                    self.fqdns[i].name.as_str()
                } else {
                    ""
                }
            },
            NodeRef::User(i, j) => {
                if i < self.fqdns.len() && j < self.fqdns[i].users.len() {
                    self.fqdns[i].users[j].name.as_str()
                } else {
                    ""
                }
            },
            NodeRef::Repo(_) => "",
        }
    }
}

/// `v` clamped to `0..=top`.
pub open spec fn clamp(v: int, top: int) -> int {
    if v < 0 { 0 } else if v > top { top } else { v }
}

} // verus!
