//! What a tree row shows: its text as styled pieces, left to right.

use vstd::prelude::*;
use crate::app::{App, CheckState};
use crate::repo::{RepoId, RepoStatus};
use crate::text::push_char;
use crate::theme::Icons;
use crate::tree::{NodeRef, VisibleRow};
use crate::view::{Tint, name_tint, status_label_of, status_mark_of, status_tint_of};

verus! {

/// A run of text drawn in one style: its color and background (`None`: the
/// terminal's default) and whether it is bold.
pub struct Piece {
    pub text: String,
    pub fg: Option<Tint>,
    pub bg: Option<Tint>,
    pub bold: bool,
}

impl View for Piece {
    type V = (Seq<char>, Option<Tint>, Option<Tint>, bool);

    open spec fn view(&self) -> (Seq<char>, Option<Tint>, Option<Tint>, bool) {
        (self.text@, self.fg, self.bg, self.bold)
    }
}

/// Text in the default style.
pub open spec fn plain(t: Seq<char>) -> (Seq<char>, Option<Tint>, Option<Tint>, bool) {
    (t, None, None, false)
}

/// Text in a color.
pub open spec fn tinted(t: Seq<char>, c: Tint) -> (Seq<char>, Option<Tint>, Option<Tint>, bool) {
    (t, Some(c), None, false)
}

/// `n` spaces.
pub open spec fn spaces(n: nat) -> Seq<char> {
    Seq::new(n, |i: int| ' ')
}

/// The two-cell selection bar at the start of a row.
pub open spec fn sel_piece(icons: Icons, selected: bool, active: bool) -> (Seq<char>, Option<Tint>, Option<Tint>, bool) {
    if selected {
        tinted(icons.sel_bar@ + seq![' '], if active { Tint::Cyan } else { Tint::DarkGray })
    } else {
        plain(seq![' ', ' '])
    }
}

/// `[p]` when `p`'s text is not empty, else nothing.
pub open spec fn unless_empty(p: (Seq<char>, Option<Tint>, Option<Tint>, bool)) -> Seq<(Seq<char>, Option<Tint>, Option<Tint>, bool)> {
    if p.0.len() > 0 {
        seq![p]
    } else {
        Seq::empty()
    }
}

/// A repo row: `{bar}{indent}{checkbox} {icon }{name}{ focus}{ status}`.
pub open spec fn repo_row_of(a: App, indent: u16, id: RepoId, selected: bool, active: bool) -> Seq<
    (Seq<char>, Option<Tint>, Option<Tint>, bool),
> {
    let r = a.repos@[id as int];
    let icons = a.icons;
    let mark = status_mark_of(icons, r.status, a.frame());
    seq![
        sel_piece(icons, selected, active),
        plain(spaces(2 * indent as nat)),
        tinted(
            if r.checked { icons.check_on@ } else { icons.check_off@ },
            if r.checked { Tint::Cyan } else { Tint::DarkGray },
        ),
        plain(seq![' ']),
    ] + unless_empty(tinted(if icons.repo@.len() > 0 { icons.repo@ + seq![' '] } else { Seq::empty() }, Tint::DarkGray))
        + seq![tinted(r.name@, name_tint(r.status, r.checked))] + (if a.focus == Some(id) {
        seq![tinted(seq![' '] + icons.focus@, Tint::Cyan)]
    } else {
        Seq::empty()
    }) + (if mark.len() > 0 {
        seq![plain(seq![' ']), tinted(mark, status_tint_of(r.status))]
    } else {
        Seq::empty()
    })
}

/// The checkbox glyph of a tri-state.
pub open spec fn check_glyph(icons: Icons, s: CheckState) -> (Seq<char>, Option<Tint>, Option<Tint>, bool) {
    match s {
        CheckState::All => tinted(icons.check_on@, Tint::Cyan),
        CheckState::Partial => tinted(icons.check_partial@, Tint::Cyan),
        CheckState::Unchecked => tinted(icons.check_off@, Tint::DarkGray),
    }
}

/// The icon of a group.
pub open spec fn group_icon(icons: Icons, node: NodeRef) -> Seq<char> {
    match node {
        NodeRef::Fqdn(_) => icons.fqdn@,
        NodeRef::User(..) => icons.user@,
        NodeRef::Repo(_) => Seq::empty(),
    }
}

/// A group row: `{bar}{indent}{marker} {checkbox} {icon }{label}` (label bold).
pub open spec fn group_row_of(a: App, indent: u16, node: NodeRef, selected: bool, active: bool) -> Seq<
    (Seq<char>, Option<Tint>, Option<Tint>, bool),
> {
    let icons = a.icons;
    let icon = group_icon(icons, node);
    seq![
        sel_piece(icons, selected, active),
        plain(spaces(2 * indent as nat)),
        tinted(if a.tree.expanded_of(node) { icons.expanded@ } else { icons.collapsed@ }, Tint::DarkGray),
        plain(seq![' ']),
        check_glyph(icons, a.check_state_of(node)),
        plain(seq![' ']),
    ] + unless_empty(tinted(if icon.len() > 0 { icon + seq![' '] } else { Seq::empty() }, Tint::DarkGray))
        + seq![(a.tree.label_of(node), None, None, true)]
}

/// The pieces of a tree row.
pub open spec fn row_of(a: App, row: VisibleRow, selected: bool, active: bool) -> Seq<(Seq<char>, Option<Tint>, Option<Tint>, bool)> {
    match row.node {
        NodeRef::Repo(id) => repo_row_of(a, row.indent, id, selected, active),
        _ => group_row_of(a, row.indent, row.node, selected, active),
    }
}

/// Number of characters in the first `k` pieces.
pub open spec fn width_before(ps: Seq<(Seq<char>, Option<Tint>, Option<Tint>, bool)>, k: int) -> int
    decreases k,
{
    if k <= 0 {
        0
    } else {
        width_before(ps, k - 1) + ps[k - 1].0.len()
    }
}

fn push_piece(ps: &mut Vec<Piece>, text: String, fg: Option<Tint>, bg: Option<Tint>, bold: bool)
    ensures
        final(ps)@.map_values(|p: Piece| p@) == old(ps)@.map_values(|p: Piece| p@).push((text@, fg, bg, bold)),
{
    let ghost t = text@;
    ps.push(Piece { text, fg, bg, bold });
    assert(ps@.map_values(|p: Piece| p@) =~= old(ps)@.map_values(|p: Piece| p@).push((t, fg, bg, bold)));
}

fn text_of(s: &str) -> (t: String)
    ensures
        t@ == s@,
{
    s.to_owned()
}

/// `n` spaces.
fn spaces_string(n: usize) -> (s: String)
    ensures
        s@ == spaces(n as nat),
{
    let mut s = String::new();
    let mut i: usize = 0;
    while i < n
        invariant
            i <= n,
            s@ == spaces(i as nat),
        decreases n - i,
    {
        push_char(&mut s, ' ');
        assert(s@ =~= spaces((i + 1) as nat));
        i = i + 1;
    }
    s
}

impl App {
    fn push_sel(&self, ps: &mut Vec<Piece>, selected: bool, active: bool)
        ensures
            final(ps)@.map_values(|p: Piece| p@) == old(ps)@.map_values(|p: Piece| p@).push(
                sel_piece(self.icons, selected, active),
            ),
    {
        if selected {
            let mut t = text_of(self.icons.sel_bar);
            push_char(&mut t, ' ');
            assert(t@ =~= self.icons.sel_bar@ + seq![' ']);
            push_piece(ps, t, Some(if active { Tint::Cyan } else { Tint::DarkGray }), None, false);
        } else {
            proof {
                reveal_strlit("  ");
            }
            let t = text_of("  ");
            assert(t@ =~= seq![' ', ' ']);
            push_piece(ps, t, None, None, false);
        }
    }

    /// The selection bar and the indent that start every row.
    fn row_head(&self, row: VisibleRow, selected: bool, active: bool) -> (ps: Vec<Piece>)
        ensures
            ps@.map_values(|p: Piece| p@) == seq![
                sel_piece(self.icons, selected, active),
                plain(spaces(2 * row.indent as nat)),
            ],
    {
        let mut ps: Vec<Piece> = Vec::new();
        self.push_sel(&mut ps, selected, active);
        let indent: usize = 2 * (row.indent as usize);
        push_piece(&mut ps, spaces_string(indent), None, None, false);
        assert(ps@.map_values(|p: Piece| p@) =~= seq![
            sel_piece(self.icons, selected, active),
            plain(spaces(2 * row.indent as nat)),
        ]);
        ps
    }

    fn repo_row(&self, row: VisibleRow, id: RepoId, selected: bool, active: bool) -> (ps: Vec<Piece>)
        requires
            self.wf(),
            id < self.repos@.len(),
        ensures
            ps@.map_values(|p: Piece| p@) == repo_row_of(*self, row.indent, id, selected, active),
    {
        proof {
            reveal_strlit(" ");
        }
        let mut ps = self.row_head(row, selected, active);
        let r = &self.repos[id];
        let ghost rs = repo_row_of(*self, row.indent, id, selected, active);
        let ghost f = |p: Piece| p@;
        if r.checked {
            push_piece(&mut ps, text_of(self.icons.check_on), Some(Tint::Cyan), None, false);
        } else {
            push_piece(&mut ps, text_of(self.icons.check_off), Some(Tint::DarkGray), None, false);
        }
        let sp = text_of(" ");
        assert(sp@ =~= seq![' ']);
        push_piece(&mut ps, sp, None, None, false);
        let ghost a = ps@.map_values(f);
        assert(a =~= rs.take(4));
        if self.icons.repo.unicode_len() > 0 {
            let mut t = text_of(self.icons.repo);
            push_char(&mut t, ' ');
            assert(t@ =~= self.icons.repo@ + seq![' ']);
            push_piece(&mut ps, t, Some(Tint::DarkGray), None, false);
        }
        let ghost icon_part = unless_empty(
            tinted(if self.icons.repo@.len() > 0 { self.icons.repo@ + seq![' '] } else { Seq::empty() }, Tint::DarkGray),
        );
        assert(ps@.map_values(f) =~= a + icon_part);
        push_piece(&mut ps, r.name.clone(), Some(crate::view::name_color(r.status, r.checked)), None, false);
        let ghost b = ps@.map_values(f);
        assert(b =~= a + icon_part + seq![tinted(r.name@, name_tint(r.status, r.checked))]);
        if self.focus == Some(id) {
            let mut t = text_of(" ");
            t.append(self.icons.focus);
            assert(t@ =~= seq![' '] + self.icons.focus@);
            push_piece(&mut ps, t, Some(Tint::Cyan), None, false);
        }
        let ghost focus_part = if self.focus == Some(id) {
            seq![tinted(seq![' '] + self.icons.focus@, Tint::Cyan)]
        } else {
            Seq::<(Seq<char>, Option<Tint>, Option<Tint>, bool)>::empty()
        };
        let ghost c = ps@.map_values(f);
        assert(c =~= b + focus_part);
        let (mark, tint) = self.status_span(r.status);
        let ghost m = status_mark_of(self.icons, r.status, self.frame());
        if mark.as_str().unicode_len() > 0 {
            let sp = text_of(" ");
            assert(sp@ =~= seq![' ']);
            push_piece(&mut ps, sp, None, None, false);
            push_piece(&mut ps, mark, Some(tint), None, false);
            proof {
                if r.status == RepoStatus::Idle {
                    assert(m.len() == 0);
                }
            }
        }
        let ghost mark_part = if m.len() > 0 {
            seq![plain(seq![' ']), tinted(m, status_tint_of(r.status))]
        } else {
            Seq::<(Seq<char>, Option<Tint>, Option<Tint>, bool)>::empty()
        };
        assert(ps@.map_values(f) =~= c + mark_part);
        assert(rs =~= rs.take(4) + icon_part + seq![tinted(r.name@, name_tint(r.status, r.checked))] + focus_part + mark_part);
        assert(ps@.map_values(|p: Piece| p@) =~= repo_row_of(*self, row.indent, id, selected, active));
        ps
    }

    fn group_row(&self, row: VisibleRow, selected: bool, active: bool) -> (ps: Vec<Piece>)
        requires
            self.wf(),
            !(row.node is Repo),
        ensures
            ps@.map_values(|p: Piece| p@) == group_row_of(*self, row.indent, row.node, selected, active),
    {
        proof {
            reveal_strlit(" ");
        }
        let mut ps = self.row_head(row, selected, active);
        let ghost f = |p: Piece| p@;
        let ghost gs = group_row_of(*self, row.indent, row.node, selected, active);
        if self.tree.is_expanded(row.node) {
            push_piece(&mut ps, text_of(self.icons.expanded), Some(Tint::DarkGray), None, false);
        } else {
            push_piece(&mut ps, text_of(self.icons.collapsed), Some(Tint::DarkGray), None, false);
        }
        let sp = text_of(" ");
        assert(sp@ =~= seq![' ']);
        push_piece(&mut ps, sp, None, None, false);
        match self.check_state(row.node) {
            CheckState::All => push_piece(&mut ps, text_of(self.icons.check_on), Some(Tint::Cyan), None, false),
            CheckState::Partial => push_piece(
                &mut ps,
                text_of(self.icons.check_partial),
                Some(Tint::Cyan),
                None,
                false,
            ),
            CheckState::Unchecked => push_piece(
                &mut ps,
                text_of(self.icons.check_off),
                Some(Tint::DarkGray),
                None,
                false,
            ),
        }
        let sp = text_of(" ");
        assert(sp@ =~= seq![' ']);
        push_piece(&mut ps, sp, None, None, false);
        let ghost a = ps@.map_values(f);
        assert(a =~= gs.take(6));
        let icon = match row.node {
            NodeRef::Fqdn(_) => self.icons.fqdn,
            _ => self.icons.user,
        };
        assert(icon@ == group_icon(self.icons, row.node));
        if icon.unicode_len() > 0 {
            let mut t = text_of(icon);
            push_char(&mut t, ' ');
            assert(t@ =~= icon@ + seq![' ']);
            push_piece(&mut ps, t, Some(Tint::DarkGray), None, false);
        }
        let ghost icon_part = unless_empty(
            tinted(if icon@.len() > 0 { icon@ + seq![' '] } else { Seq::empty() }, Tint::DarkGray),
        );
        assert(ps@.map_values(f) =~= a + icon_part);
        push_piece(&mut ps, text_of(self.tree.group_label(row.node)), None, None, true);
        assert(gs =~= gs.take(6) + icon_part + seq![(self.tree.label_of(row.node), None, None, true)]);
        assert(ps@.map_values(|p: Piece| p@) =~= group_row_of(*self, row.indent, row.node, selected, active));
        ps
    }

    /// The styled pieces of a tree row, left to right: the selection bar and
    /// the indent, then for a repo its checkbox, icon, name, focus mark and
    /// status mark, for a group its fold marker, tri-state checkbox, icon
    /// and bold label.
    pub fn row_pieces(&self, row: VisibleRow, selected: bool, active: bool) -> (ps: Vec<Piece>)
        requires
            self.wf(),
            row.node matches NodeRef::Repo(id) ==> id < self.repos@.len(),
        ensures
            ps@.map_values(|p: Piece| p@) == row_of(*self, row, selected, active),
    {
        match row.node {
            NodeRef::Repo(id) => self.repo_row(row, id, selected, active),
            _ => self.group_row(row, selected, active),
        }
    }
}

/// A button: a powerline pill on `bg` with Nerd icons, or `[label]` in
/// `bg`'s color in ASCII.
pub open spec fn chip_of(icons: Icons, label: Seq<char>, bg: Tint) -> Seq<(Seq<char>, Option<Tint>, Option<Tint>, bool)> {
    if icons.pills {
        seq![
            tinted(icons.pl_left@, bg),
            (seq![' '] + label + seq![' '], Some(Tint::White), Some(bg), false),
            tinted(icons.pl_right@, bg),
        ]
    } else {
        seq![tinted(seq!['['] + label + seq![']'], bg)]
    }
}

/// The header of a repo's output box: with Nerd icons a powerline pill, the
/// `user/repo` name on slate then the status label on the status color; in
/// ASCII the box bar, the name, and the label in the status color.
pub open spec fn header_of(a: App, id: RepoId) -> Seq<(Seq<char>, Option<Tint>, Option<Tint>, bool)> {
    let r = a.repos@[id as int];
    let name = r.user@ + seq!['/'] + r.name@;
    let label = status_label_of(r.status, a.frame());
    let pill = status_tint_of(r.status);
    let icons = a.icons;
    if icons.pills {
        seq![
            tinted(icons.pl_left@, Tint::Slate),
            (seq![' '] + name + seq![' '], Some(Tint::White), Some(Tint::Slate), true),
            (icons.pl_sep@, Some(Tint::Slate), Some(pill), false),
            (seq![' '] + label + seq![' '], Some(Tint::Black), Some(pill), false),
            tinted(icons.pl_right@, pill),
        ]
    } else {
        seq![(icons.box_bar@ + seq![' '] + name + seq![' ', ' '], None, None, true), tinted(label, pill)]
    }
}

/// `text` between two spaces.
fn padded(text: &str) -> (t: String)
    ensures
        t@ == seq![' '] + text@ + seq![' '],
{
    let mut t = String::new();
    push_char(&mut t, ' ');
    t.append(text);
    push_char(&mut t, ' ');
    assert(t@ =~= seq![' '] + text@ + seq![' ']);
    t
}

/// The pieces of a button labelled `label` on `bg`.
pub fn chip_pieces(icons: &Icons, label: &str, bg: Tint) -> (ps: Vec<Piece>)
    ensures
        ps@.map_values(|p: Piece| p@) == chip_of(*icons, label@, bg),
{
    let mut ps: Vec<Piece> = Vec::new();
    if icons.pills {
        push_piece(&mut ps, text_of(icons.pl_left), Some(bg), None, false);
        push_piece(&mut ps, padded(label), Some(Tint::White), Some(bg), false);
        push_piece(&mut ps, text_of(icons.pl_right), Some(bg), None, false);
    } else {
        let mut t = String::new();
        push_char(&mut t, '[');
        t.append(label);
        push_char(&mut t, ']');
        assert(t@ =~= seq!['['] + label@ + seq![']']);
        push_piece(&mut ps, t, Some(bg), None, false);
    }
    assert(ps@.map_values(|p: Piece| p@) =~= chip_of(*icons, label@, bg));
    ps
}

impl App {
    /// The pieces of the header of `id`'s output box.
    pub fn header_pieces(&self, id: RepoId) -> (ps: Vec<Piece>)
        requires
            self.icons.wf(),
            id < self.repos@.len(),
        ensures
            ps@.map_values(|p: Piece| p@) == header_of(*self, id),
    {
        let name = self.repos[id].slug();
        let (label, pill) = self.status_pill(id);
        let mut ps: Vec<Piece> = Vec::new();
        if self.icons.pills {
            push_piece(&mut ps, text_of(self.icons.pl_left), Some(Tint::Slate), None, false);
            push_piece(&mut ps, padded(name.as_str()), Some(Tint::White), Some(Tint::Slate), true);
            push_piece(&mut ps, text_of(self.icons.pl_sep), Some(Tint::Slate), Some(pill), false);
            push_piece(&mut ps, padded(label.as_str()), Some(Tint::Black), Some(pill), false);
            push_piece(&mut ps, text_of(self.icons.pl_right), Some(pill), None, false);
        } else {
            let mut t = text_of(self.icons.box_bar);
            push_char(&mut t, ' ');
            t.append(name.as_str());
            push_char(&mut t, ' ');
            push_char(&mut t, ' ');
            assert(t@ =~= self.icons.box_bar@ + seq![' '] + name@ + seq![' ', ' ']);
            push_piece(&mut ps, t, None, None, true);
            push_piece(&mut ps, label, Some(pill), None, false);
        }
        assert(ps@.map_values(|p: Piece| p@) =~= header_of(*self, id));
        ps
    }
}

} // verus!
