//! What the output pane and the tree show: the stacked output boxes, their
//! visible window, status labels and colors, and the text that "copy" takes.

use vstd::prelude::*;
use crate::app::{App, lines_of};
use crate::repo::{Repo, RepoId, RepoStatus};
use crate::text::{push_char, push_decimal, push_decimal_i32, spec_decimal, spec_decimal_int, spec_trim, trim};
use crate::theme::Icons;

verus! {

/// Colors that the views pick between.
#[derive(Debug, Clone, Copy, PartialEq, Eq, Structural)]
pub enum Tint {
    Reset,
    Cyan,
    White,
    Black,
    /// The dark gray behind buttons and box names.
    Slate,
    DarkGray,
    Yellow,
    Green,
    Red,
}

/// One row of the stacked output boxes: a box's header, one of its output
/// lines (by index), or the blank row that ends the box.
#[derive(Debug, Clone, Copy, PartialEq, Eq, Structural)]
pub enum OutputRow {
    Header(RepoId),
    Text(RepoId, usize),
    Blank,
}

/// The rows of one box: header, `n` lines, blank.
pub open spec fn box_rows(id: RepoId, n: nat) -> Seq<OutputRow> {
    seq![OutputRow::Header(id)] + Seq::new(n, |i: int| OutputRow::Text(id, i as usize)) + seq![OutputRow::Blank]
}

/// Ids among the first `n` repos that have an output buffer, in order.
pub open spec fn with_output_prefix(m: Map<RepoId, crate::output::RepoOutput>, n: int) -> Seq<RepoId>
    decreases n,
{
    if n <= 0 {
        Seq::<RepoId>::empty()
    } else if m.contains_key((n - 1) as RepoId) {
        with_output_prefix(m, n - 1).push((n - 1) as RepoId)
    } else {
        with_output_prefix(m, n - 1)
    }
}

/// Rows of the boxes of the first `n` of `ids`.
pub open spec fn boxes_rows(m: Map<RepoId, crate::output::RepoOutput>, ids: Seq<RepoId>, n: int) -> Seq<OutputRow>
    decreases n,
{
    if n <= 0 {
        Seq::<OutputRow>::empty()
    } else {
        boxes_rows(m, ids, n - 1) + box_rows(ids[n - 1], lines_of(m, ids[n - 1]).len())
    }
}

/// The spinner frame shown at render count `tick`.
pub open spec fn spinner_frame(icons: Icons, tick: usize) -> Seq<char> {
    icons.spinner@[((tick / 2) % (icons.spinner@.len() as usize)) as int]@
}

/// The status pill's label.
pub open spec fn status_label_of(status: RepoStatus, frame: Seq<char>) -> Seq<char> {
    match status {
        RepoStatus::Idle => "idle"@,
        RepoStatus::Running => frame + " running"@,
        RepoStatus::Done(c) => if c == 0 { "done"@ } else { "exit "@ + spec_decimal_int(c as int) },
        RepoStatus::Failed => "failed"@,
        RepoStatus::Cancelled => "cancelled"@,
        RepoStatus::Skipped => "skipped"@,
    }
}

/// The status pill's color.
pub open spec fn status_tint_of(status: RepoStatus) -> Tint {
    match status {
        RepoStatus::Idle => Tint::DarkGray,
        RepoStatus::Running => Tint::Yellow,
        RepoStatus::Done(c) => if c == 0 { Tint::Green } else { Tint::Red },
        RepoStatus::Failed => Tint::Red,
        RepoStatus::Cancelled => Tint::Yellow,
        RepoStatus::Skipped => Tint::DarkGray,
    }
}

/// The status mark after a repo's name in the tree.
pub open spec fn status_mark_of(icons: Icons, status: RepoStatus, frame: Seq<char>) -> Seq<char> {
    match status {
        RepoStatus::Idle => Seq::<char>::empty(),
        RepoStatus::Running => frame,
        RepoStatus::Done(c) => if c == 0 {
            icons.status_done@
        } else {
            icons.status_fail@ + spec_decimal_int(c as int)
        },
        RepoStatus::Failed => icons.status_fail@,
        RepoStatus::Cancelled => icons.status_cancel@,
        RepoStatus::Skipped => icons.status_skip@,
    }
}

/// Repo name color: by status if any, otherwise brightness by checked.
pub open spec fn name_tint(status: RepoStatus, checked: bool) -> Tint {
    match status {
        RepoStatus::Running => Tint::Yellow,
        RepoStatus::Done(c) => if c == 0 { Tint::Green } else { Tint::Red },
        RepoStatus::Failed => Tint::Red,
        RepoStatus::Cancelled => Tint::Yellow,
        RepoStatus::Skipped => Tint::DarkGray,
        RepoStatus::Idle => if checked { Tint::Reset } else { Tint::DarkGray },
    }
}

/// Repo name color: by status if any, otherwise brightness by checked.
pub fn name_color(status: RepoStatus, checked: bool) -> (t: Tint)
    ensures
        t == name_tint(status, checked),
{
    match status {
        RepoStatus::Running => Tint::Yellow,
        RepoStatus::Done(c) => if c == 0 { Tint::Green } else { Tint::Red },
        RepoStatus::Failed => Tint::Red,
        RepoStatus::Cancelled => Tint::Yellow,
        RepoStatus::Skipped => Tint::DarkGray,
        RepoStatus::Idle => if checked { Tint::Reset } else { Tint::DarkGray },
    }
}

/// The header line of one box in the copied text: `# user/repo — status\n`.
pub open spec fn copy_header(r: Repo, label: Seq<char>) -> Seq<char> {
    seq!['#', ' '] + r.user@ + seq!['/'] + r.name@ + seq![' ', '\u{2014}', ' '] + spec_trim(label) + seq!['\n']
}

/// The first `n` lines' texts, each followed by a newline.
pub open spec fn lines_text(lines: Seq<crate::output::OutputLine>, n: int) -> Seq<char>
    decreases n,
{
    if n <= 0 {
        Seq::<char>::empty()
    } else {
        lines_text(lines, n - 1) + lines[n - 1].text@ + seq!['\n']
    }
}

/// `x` clamped into `0..=n`.
pub open spec fn wclamp(x: int, n: int) -> int {
    if x < 0 { 0 } else if x > n { n } else { x }
}

/// The part of `s` at positions `start..end`, cut to what `s` has.
pub open spec fn window<A>(s: Seq<A>, start: int, end: int) -> Seq<A> {
    s.subrange(wclamp(start, s.len() as int), wclamp(end, s.len() as int))
}

proof fn lemma_window_concat<A>(p: Seq<A>, b: Seq<A>, s: int, e: int)
    requires
        s <= e,
    ensures
        window(p + b, s, e) == window(p, s, e) + window(b, s - p.len(), e - p.len()),
{
    assert(window(p + b, s, e) =~= window(p, s, e) + window(b, s - p.len(), e - p.len()));
}

proof fn lemma_boxes_rows_prefix(m: Map<RepoId, crate::output::RepoOutput>, ids: Seq<RepoId>, a: int, b: int)
    requires
        0 <= a <= b,
    ensures
        boxes_rows(m, ids, b) == boxes_rows(m, ids, a) + boxes_rows(m, ids, b).skip(boxes_rows(m, ids, a).len() as int),
        boxes_rows(m, ids, a).len() <= boxes_rows(m, ids, b).len(),
    decreases b - a,
{
    if a < b {
        lemma_boxes_rows_prefix(m, ids, a, b - 1);
        let pa = boxes_rows(m, ids, a);
        let pb1 = boxes_rows(m, ids, b - 1);
        let pb = boxes_rows(m, ids, b);
        assert(pb =~= pa + pb.skip(pa.len() as int));
    } else {
        assert(boxes_rows(m, ids, b) =~= boxes_rows(m, ids, a) + boxes_rows(m, ids, b).skip(boxes_rows(m, ids, a).len() as int));
    }
}

proof fn lemma_box_window(id: RepoId, n: nat, x: int, y: int)
    requires
        x <= y,
        x < n + 2,
        y > 0,
    ensures
        ({
            let f = if x - 1 > 0 { x - 1 } else { 0 };
            let e = if y - 1 < n { y - 1 } else { n as int };
            &&& f <= e
            &&& window(box_rows(id, n), x, y) == (if x <= 0 { seq![OutputRow::Header(id)] } else {
                Seq::<OutputRow>::empty()
            }) + Seq::new((e - f) as nat, |j: int| OutputRow::Text(id, (f + j) as usize)) + (if y > n + 1 {
                seq![OutputRow::Blank]
            } else {
                Seq::<OutputRow>::empty()
            })
        }),
{
    let f = if x - 1 > 0 { x - 1 } else { 0 };
    let e = if y - 1 < n { y - 1 } else { n as int };
    let b = box_rows(id, n);
    let rhs = (if x <= 0 { seq![OutputRow::Header(id)] } else { Seq::<OutputRow>::empty() }) + Seq::new(
        (e - f) as nat,
        |j: int| OutputRow::Text(id, (f + j) as usize),
    ) + (if y > n + 1 { seq![OutputRow::Blank] } else { Seq::<OutputRow>::empty() });
    let w = window(b, x, y);
    assert(w.len() == rhs.len());
    assert forall|j: int| 0 <= j < w.len() implies w[j] == rhs[j] by {
        let lo = wclamp(x, b.len() as int);
        assert(w[j] == b[lo + j]);
        if x <= 0 {
            if j == 0 {
            } else if j - 1 < e - f {
                assert(b[lo + j] == OutputRow::Text(id, (lo + j - 1) as usize));
            }
        } else {
            if j < e - f {
                assert(b[lo + j] == OutputRow::Text(id, (lo + j - 1) as usize));
            }
        }
    }
    assert(w =~= rhs);
}

/// Number of checked repos among the first `n`.
pub open spec fn checked_count_of(repos: Seq<Repo>, n: int) -> nat
    decreases n,
{
    if n <= 0 {
        0
    } else {
        checked_count_of(repos, n - 1) + if repos[n - 1].checked { 1nat } else { 0nat }
    }
}

/// `a - b` for `u16`, not below zero.
pub open spec fn sat_sub16(a: u16, b: u16) -> u16 {
    if a >= b { (a - b) as u16 } else { 0 }
}

/// Appends the rows of box `id` (with `n` lines, starting at row `idx`) that
/// fall in the window `start..end`.
fn append_box_window(rows: &mut Vec<OutputRow>, id: RepoId, n: usize, idx: usize, start: usize, end: usize)
    requires
        idx + 2 + n <= usize::MAX,
        start <= end,
        idx < end,
        start < idx + 2 + n,
    ensures
        final(rows)@ == old(rows)@ + window(box_rows(id, n as nat), start - idx, end - idx),
{
    let box_end = idx + 2 + n;
    let ghost r0 = rows@;
    let ghost bx = box_rows(id, n as nat);
    let ghost x = start - idx;
    let ghost y = end - idx;
    let ghost f = if x - 1 > 0 { x - 1 } else { 0 };
    let ghost e = if y - 1 < n { y - 1 } else { n as int };
    proof {
        lemma_box_window(id, n as nat, x, y);
    }
    if idx >= start && idx < end {
        rows.push(OutputRow::Header(id));
    }
    let ghost r1 = rows@;
    assert(r1 == r0 + (if x <= 0 { seq![OutputRow::Header(id)] } else { Seq::<OutputRow>::empty() }));
    let content_base = idx + 1;
    let first_i = if start > content_base { start - content_base } else { 0 };
    assert(first_i == f);
    let mut i = first_i;
    while i < n && content_base + i < end
        invariant
            first_i == f,
            f <= i <= e,
            e <= n,
            e == (if y - 1 < n { y - 1 } else { n as int }),
            y == end - idx,
            content_base == idx + 1,
            box_end == idx + 2 + n,
            rows@ == r1 + Seq::new((i - f) as nat, |j: int| OutputRow::Text(id, (f + j) as usize)),
        decreases n - i,
    {
        rows.push(OutputRow::Text(id, i));
        proof {
            let g = |j: int| OutputRow::Text(id, (f + j) as usize);
            assert(Seq::new((i + 1 - f) as nat, g) =~= Seq::new((i - f) as nat, g).push(OutputRow::Text(id, i)));
        }
        i = i + 1;
    }
    assert(i == e);
    let blank_idx = box_end - 1;
    if blank_idx >= start && blank_idx < end {
        rows.push(OutputRow::Blank);
    }
    assert(rows@ =~= r0 + window(bx, x, y));
}

impl App {
    /// Ordered repo ids shown in the output pane: the focused repo, or all
    /// repos with output. A focused repo without output shows no box.
    pub open spec fn output_ids_of(&self) -> Seq<RepoId> {
        match self.focus {
            Some(id) => if self.outputs@.contains_key(id) && id < self.repos@.len() {
                seq![id]
            } else {
                Seq::<RepoId>::empty()
            },
            None => with_output_prefix(self.outputs@, self.repos@.len() as int),
        }
    }

    /// All rows of the stacked boxes, top to bottom.
    pub open spec fn output_rows(&self) -> Seq<OutputRow> {
        boxes_rows(self.outputs@, self.output_ids_of(), self.output_ids_of().len() as int)
    }

    /// The spinner frame at the current render count.
    pub open spec fn frame(&self) -> Seq<char> {
        spinner_frame(self.icons, self.tick)
    }

    /// The copied text of the first `n` shown boxes.
    pub open spec fn copy_text_upto(&self, n: int) -> Seq<char>
        decreases n,
    {
        if n <= 0 {
            Seq::<char>::empty()
        } else {
            let id = self.output_ids_of()[n - 1];
            self.copy_text_upto(n - 1) + copy_header(
                self.repos@[id as int],
                status_label_of(self.repos@[id as int].status, self.frame()),
            ) + lines_text(lines_of(self.outputs@, id), lines_of(self.outputs@, id).len() as int) + seq![
                '\n',
            ]
        }
    }

    /// Ordered repo ids shown in the output pane (focus, or all repos with output).
    pub fn output_ids(&self) -> (ids: Vec<RepoId>)
        ensures
            ids@ == self.output_ids_of(),
            forall|k: int| 0 <= k < ids@.len() ==> (#[trigger] ids@[k] < self.repos@.len()
                && self.outputs@.contains_key(ids@[k])),
    {
        broadcast use vstd::std_specs::hash::group_hash_axioms;
        match self.focus {
            Some(id) => if self.outputs.contains_key(&id) && id < self.repos.len() {
                vec![id]
            } else {
                Vec::new()
            },
            None => {
                let mut ids: Vec<RepoId> = Vec::new();
                let mut k: usize = 0;
                while k < self.repos.len()
                    invariant
                        k <= self.repos@.len(),
                        ids@ == with_output_prefix(self.outputs@, k as int),
                        forall|j: int| 0 <= j < ids@.len() ==> (#[trigger] ids@[j] < k
                            && self.outputs@.contains_key(ids@[j])),
                    decreases self.repos@.len() - k,
                {
                    if self.outputs.contains_key(&k) {
                        ids.push(k);
                    }
                    k = k + 1;
                }
                ids
            },
        }
    }

    /// Build only the rows in `[start, start + height)`. Boxes and lines outside
    /// the window are skipped without building anything, so the work stays
    /// proportional to `height` even with long output.
    pub fn visible_output(&self, start: usize, height: usize) -> (rows: Vec<OutputRow>)
        requires
            self.output_rows().len() <= usize::MAX,
            start + height <= usize::MAX,
        ensures
            rows@ == window(self.output_rows(), start as int, start + height),
    {
        let end = start + height;
        let mut rows: Vec<OutputRow> = Vec::new();
        let mut idx: usize = 0;
        let ids = self.output_ids();
        let ghost m = self.outputs@;
        let ghost all = self.output_rows();
        let mut k: usize = 0;
        while k < ids.len()
            invariant
                k <= ids@.len(),
                ids@ == self.output_ids_of(),
                m == self.outputs@,
                all == boxes_rows(m, ids@, ids@.len() as int),
                all.len() <= usize::MAX,
                    forall|j: int| 0 <= j < ids@.len() ==> m.contains_key(#[trigger] ids@[j]),
                end == start + height,
                idx == boxes_rows(m, ids@, k as int).len(),
                rows@ == window(boxes_rows(m, ids@, k as int), start as int, end as int),
            ensures
                rows@ == window(all, start as int, end as int),
            decreases ids@.len() - k,
        {
            let ghost pk = boxes_rows(m, ids@, k as int);
            proof {
                lemma_boxes_rows_prefix(m, ids@, k + 1, ids@.len() as int);
            }
            let id = ids[k];
            let n = self.line_count(id);
            let ghost bx = box_rows(id, n as nat);
            assert(boxes_rows(m, ids@, k + 1) == pk + bx);
            let box_len = 2 + n;
            let box_end = idx + box_len;
            proof {
                lemma_window_concat(pk, bx, start as int, end as int);
            }
            if box_end <= start {
                assert(window(bx, start - idx, end - idx) =~= Seq::<OutputRow>::empty());
                idx = box_end;
                k = k + 1;
                continue;
            }
            if idx >= end {
                proof {
                    lemma_boxes_rows_prefix(m, ids@, k as int, ids@.len() as int);
                    lemma_window_concat(pk, all.skip(pk.len() as int), start as int, end as int);
                    assert(window(all.skip(pk.len() as int), start - idx, end - idx) =~= Seq::<OutputRow>::empty());
                    assert(rows@ =~= window(all, start as int, end as int));
                }
                break;
            }
            append_box_window(&mut rows, id, n, idx, start, end);
            idx = box_end;
            k = k + 1;
        }
        rows
    }

    /// The spinner frame at the current render count.
    fn spinner_now(&self) -> (f: &'static str)
        requires
            self.icons.wf(),
        ensures
            f@ == self.frame(),
    {
        let n = self.icons.spinner.len();
        self.icons.spinner[(self.tick / 2) % n]
    }

    /// The status pill of a repo: its label and color.
    pub fn status_pill(&self, id: RepoId) -> (r: (String, Tint))
        requires
            self.icons.wf(),
            id < self.repos@.len(),
        ensures
            r.0@ == status_label_of(self.repos@[id as int].status, self.frame()),
            r.1 == status_tint_of(self.repos@[id as int].status),
    {
        let mut s = String::new();
        match self.repos[id].status {
            RepoStatus::Idle => {
                s.append("idle");
                (s, Tint::DarkGray)
            },
            RepoStatus::Running => {
                s.append(self.spinner_now());
                s.append(" running");
                (s, Tint::Yellow)
            },
            RepoStatus::Done(c) => {
                if c == 0 {
                    s.append("done");
                    (s, Tint::Green)
                } else {
                    s.append("exit ");
                    push_decimal_i32(&mut s, c);
                    (s, Tint::Red)
                }
            },
            RepoStatus::Failed => {
                s.append("failed");
                (s, Tint::Red)
            },
            RepoStatus::Cancelled => {
                s.append("cancelled");
                (s, Tint::Yellow)
            },
            RepoStatus::Skipped => {
                s.append("skipped");
                (s, Tint::DarkGray)
            },
        }
    }

    /// A repo's run state as the short mark shown after its name in the tree,
    /// and its color (`Reset` for the plain, empty idle mark).
    pub fn status_span(&self, status: RepoStatus) -> (r: (String, Tint))
        requires
            self.icons.wf(),
        ensures
            r.0@ == status_mark_of(self.icons, status, self.frame()),
            r.1 == (if status == RepoStatus::Idle { Tint::Reset } else { status_tint_of(status) }),
    {
        let mut s = String::new();
        match status {
            RepoStatus::Idle => (s, Tint::Reset),
            RepoStatus::Running => {
                s.append(self.spinner_now());
                (s, Tint::Yellow)
            },
            RepoStatus::Done(c) => {
                if c == 0 {
                    s.append(self.icons.status_done);
                    (s, Tint::Green)
                } else {
                    s.append(self.icons.status_fail);
                    push_decimal_i32(&mut s, c);
                    (s, Tint::Red)
                }
            },
            RepoStatus::Failed => {
                s.append(self.icons.status_fail);
                (s, Tint::Red)
            },
            RepoStatus::Cancelled => {
                s.append(self.icons.status_cancel);
                (s, Tint::Yellow)
            },
            RepoStatus::Skipped => {
                s.append(self.icons.status_skip);
                (s, Tint::DarkGray)
            },
        }
    }

    /// The currently visible output as text, mirroring the output pane: the
    /// focused repo only, or every repo with output. Each box becomes a
    /// `# user/repo — status` header followed by its raw lines, with a blank
    /// line after each box. `None` when nothing is shown.
    pub fn copy_text(&self) -> (t: Option<String>)
        requires
            self.icons.wf(),
        ensures
            self.output_ids_of().len() == 0 ==> t is None,
            self.output_ids_of().len() > 0 ==> (t matches Some(t) && t@ == self.copy_text_upto(
                self.output_ids_of().len() as int,
            )),
    {
        broadcast use vstd::std_specs::hash::group_hash_axioms;
        let ids = self.output_ids();
        if ids.len() == 0 {
            return None;
        }
        let mut text = String::new();
        let mut k: usize = 0;
        while k < ids.len()
            invariant
                k <= ids@.len(),
                ids@ == self.output_ids_of(),
                self.icons.wf(),
                    forall|j: int| 0 <= j < ids@.len() ==> (#[trigger] ids@[j] < self.repos@.len()
                    && self.outputs@.contains_key(ids@[j])),
                text@ == self.copy_text_upto(k as int),
            decreases ids@.len() - k,
        {
            let id = ids[k];
            let (label, _) = self.status_pill(id);
            let ghost t0 = text@;
            push_char(&mut text, '#');
            push_char(&mut text, ' ');
            let slug = self.repos[id].slug();
            text.append(slug.as_str());
            push_char(&mut text, ' ');
            push_char(&mut text, '\u{2014}');
            push_char(&mut text, ' ');
            let tl = trim(label.as_str());
            text.append(tl.as_str());
            push_char(&mut text, '\n');
            assert(text@ =~= t0 + copy_header(self.repos@[id as int], label@));
            let out = self.outputs.get(&id).unwrap();
            let ghost t1 = text@;
            let mut i: usize = 0;
            while i < out.lines.len()
                invariant
                    i <= out.lines@.len(),
                    text@ == t1 + lines_text(out.lines@, i as int),
                decreases out.lines@.len() - i,
            {
                text.append(out.lines[i].text.as_str());
                push_char(&mut text, '\n');
                assert(text@ =~= t1 + lines_text(out.lines@, i + 1));
                i = i + 1;
            }
            push_char(&mut text, '\n');
            assert(text@ =~= self.copy_text_upto(k + 1));
            k = k + 1;
        }
        Some(text)
    }

    /// Number of checked repos.
    pub fn checked_count(&self) -> (n: usize)
        ensures
            n == checked_count_of(self.repos@, self.repos@.len() as int),
    {
        let mut n: usize = 0;
        let mut k: usize = 0;
        while k < self.repos.len()
            invariant
                k <= self.repos@.len(),
                n == checked_count_of(self.repos@, k as int),
                n <= k,
            decreases self.repos@.len() - k,
        {
            if self.repos[k].checked {
                n = n + 1;
            }
            k = k + 1;
        }
        n
    }

    /// The text at the right of the command line: the notice (if any), the
    /// number of checked repos, and whether a run is going on.
    pub fn status_line(&self) -> (s: String)
        ensures
            s@ == (match self.notice {
                Some(msg) => msg@ + "   "@,
                None => Seq::<char>::empty(),
            }) + spec_decimal(checked_count_of(self.repos@, self.repos@.len() as int)) + seq![' '] + self.icons.check_on@
                + " \u{b7} "@ + if self.running { "running"@ } else { "idle"@ },
    {
        let mut s = String::new();
        match &self.notice {
            Some(msg) => {
                s.append(msg.as_str());
                s.append("   ");
            },
            None => {},
        }
        let ghost s0 = s@;
        proof {
            reveal_strlit("");
        }
        let checked = self.checked_count();
        push_decimal(&mut s, checked as u64);
        push_char(&mut s, ' ');
        s.append(self.icons.check_on);
        s.append(" \u{b7} ");
        if self.running {
            s.append("running");
        } else {
            s.append("idle");
        }
        s
    }

    /// Keep the output scroll position in range for a view `view_h` rows
    /// high: when following, show the bottom; otherwise clamp to the last
    /// full page. Returns the new position. (The row count is taken as a
    /// 16-bit value, cut to its low 16 bits.)
    pub fn settle_scroll(&mut self, view_h: u16) -> (scroll: u16)
        requires
            old(self).output_rows().len() <= usize::MAX,
        ensures
            scroll == final(self).output_scroll,
            *final(self) == (App {
                output_scroll: if old(self).follow {
                    sat_sub16(old(self).output_rows().len() as u16, view_h)
                } else if old(self).output_scroll < sat_sub16(old(self).output_rows().len() as u16, view_h) {
                    old(self).output_scroll
                } else {
                    sat_sub16(old(self).output_rows().len() as u16, view_h)
                },
                ..*old(self)
            }),
    {
        let total: u16 = self.output_total() as u16;
        let room: u16 = if total >= view_h { total - view_h } else { 0 };
        if self.follow {
            self.output_scroll = room;
        } else if self.output_scroll >= room {
            self.output_scroll = room;
        }
        self.output_scroll
    }

    /// Number of lines of the buffer of `id`.
    fn line_count(&self, id: RepoId) -> (n: usize)
        requires
            self.outputs@.contains_key(id),
        ensures
            n == lines_of(self.outputs@, id).len(),
    {
        broadcast use vstd::std_specs::hash::group_hash_axioms;
        self.outputs.get(&id).unwrap().lines.len()
    }

    /// Total line count of the stacked boxes (header + output lines + blank).
    pub fn output_total(&self) -> (n: usize)
        requires
            self.output_rows().len() <= usize::MAX,
        ensures
            n == self.output_rows().len(),
    {
        let ids = self.output_ids();
        let mut total: usize = 0;
        let mut k: usize = 0;
        while k < ids.len()
            invariant
                k <= ids@.len(),
                ids@ == self.output_ids_of(),
                    forall|j: int| 0 <= j < ids@.len() ==> self.outputs@.contains_key(#[trigger] ids@[j]),
                total == boxes_rows(self.outputs@, ids@, k as int).len(),
                boxes_rows(self.outputs@, ids@, ids@.len() as int).len() <= usize::MAX,
            decreases ids@.len() - k,
        {
            proof {
                lemma_boxes_rows_len_mono(self.outputs@, ids@, k + 1, ids@.len() as int);
            }
            let n = self.line_count(ids[k]);
            total = total + 2 + n;
            k = k + 1;
        }
        total
    }
}

proof fn lemma_boxes_rows_len_mono(m: Map<RepoId, crate::output::RepoOutput>, ids: Seq<RepoId>, a: int, b: int)
    requires
        0 <= a <= b,
    ensures
        boxes_rows(m, ids, a).len() <= boxes_rows(m, ids, b).len(),
    decreases b - a,
{
    if a < b {
        lemma_boxes_rows_len_mono(m, ids, a, b - 1);
    }
}

} // verus!
