//! Multi-selection of grid positions, driven by clicks and keys.
//!
//! Besides which positions are selected, the grid keeps a selection history
//! (positions in the order they were last added) and an anchor, the end a
//! Shift range grows from. The history always lists exactly the selected
//! positions, each once; the anchor is unset exactly when nothing is selected.

use vstd::prelude::*;

verus! {

/// `h` without the positions in `lo..=hi`, order kept.
pub open spec fn keep_outside(h: Seq<u32>, lo: int, hi: int) -> Seq<u32>
    decreases h.len(),
{
    if h.len() == 0 {
        seq![]
    } else {
        let r = keep_outside(h.drop_last(), lo, hi);
        let x = h.last();
        if lo <= x && x <= hi {
            r
        } else {
            r.push(x)
        }
    }
}

/// The positions `lo..=hi`, ascending.
pub open spec fn span(lo: int, hi: int) -> Seq<u32> {
    Seq::new(if hi >= lo { (hi - lo + 1) as nat } else { 0 }, |i: int| (lo + i) as u32)
}

pub open spec fn no_duplicates(h: Seq<u32>) -> bool {
    forall|i: int, j: int| 0 <= i < j < h.len() ==> h[i] != h[j]
}

/// The selection marks after flipping position `pos`.
pub open spec fn toggled(marks: Seq<bool>, pos: int) -> Seq<bool> {
    marks.update(pos, !marks[pos])
}

/// The selection marks after selecting every position in `lo..=hi`.
pub open spec fn with_range(marks: Seq<bool>, lo: int, hi: int) -> Seq<bool> {
    Seq::new(marks.len(), |p: int| marks[p] || (lo <= p && p <= hi))
}

/// The last entry of a history, if any.
pub open spec fn last_of(h: Seq<u32>) -> Option<u32> {
    if h.len() > 0 {
        Some(h.last())
    } else {
        None
    }
}

proof fn lemma_keep_outside(h: Seq<u32>, lo: int, hi: int)
    ensures
        forall|x: u32|
            #[trigger] keep_outside(h, lo, hi).contains(x) == (h.contains(x) && !(lo <= x
                && x <= hi)),
        no_duplicates(h) ==> no_duplicates(keep_outside(h, lo, hi)),
        keep_outside(h, lo, hi).len() <= h.len(),
    decreases h.len(),
{
    if h.len() > 0 {
        let d = h.drop_last();
        lemma_keep_outside(d, lo, hi);
        let r = keep_outside(d, lo, hi);
        let x = h.last();
        assert forall|y: u32| #[trigger] keep_outside(h, lo, hi).contains(y) == (h.contains(y)
            && !(lo <= y && y <= hi)) by {
            if h.contains(y) {
                let k = choose|k: int| 0 <= k < h.len() && h[k] == y;
                if k < h.len() - 1 {
                    assert(d[k] == y);
                    assert(d.contains(y));
                }
            }
            if d.contains(y) {
                let k = choose|k: int| 0 <= k < d.len() && d[k] == y;
                assert(h[k] == y);
            }
            if !(lo <= x && x <= hi) {
                assert(r.push(x)[r.len() as int] == x);
                if r.push(x).contains(y) {
                    let k = choose|k: int| 0 <= k < r.len() + 1 && r.push(x)[k] == y;
                    if k < r.len() {
                        assert(r[k] == y);
                    }
                }
                if r.contains(y) {
                    let k = choose|k: int| 0 <= k < r.len() && r[k] == y;
                    assert(r.push(x)[k] == y);
                }
            }
        }
        if no_duplicates(h) {
            assert(no_duplicates(d));
            if !(lo <= x && x <= hi) {
                assert(!d.contains(x)) by {
                    if d.contains(x) {
                        let k = choose|k: int| 0 <= k < d.len() && d[k] == x;
                        assert(h[k] == h[h.len() - 1]);
                    }
                }
                assert(!r.contains(x));
                assert forall|i: int, j: int| 0 <= i < j < r.push(x).len() implies r.push(x)[i]
                    != r.push(x)[j] by {
                    if j == r.len() {
                        assert(r.push(x)[i] == r[i]);
                        assert(r.contains(r[i]));
                    }
                }
            }
        }
    }
}

proof fn lemma_span(lo: int, hi: int)
    requires
        0 <= lo <= hi <= u32::MAX,
    ensures
        forall|x: u32| #[trigger] span(lo, hi).contains(x) == (lo <= x && x <= hi),
        no_duplicates(span(lo, hi)),
        span(lo, hi).len() == hi - lo + 1,
{
    let s = span(lo, hi);
    assert forall|x: u32| #[trigger] s.contains(x) == (lo <= x && x <= hi) by {
        if lo <= x && x <= hi {
            assert(s[x - lo] == x);
        }
    }
}

/// Which positions of the grid are selected, with the selection history and
/// the Shift anchor.
pub struct GridSelection {
    marks: Vec<bool>,
    history: Vec<u32>,
    anchor: Option<u32>,
}

impl GridSelection {
    /// Whether each position is selected, indexed by position.
    pub closed spec fn marks(&self) -> Seq<bool> {
        self.marks@
    }

    /// The selected positions in the order they were last added.
    pub closed spec fn history(&self) -> Seq<u32> {
        self.history@
    }

    /// The position a Shift range grows from.
    pub closed spec fn anchor(&self) -> Option<u32> {
        self.anchor
    }

    pub open spec fn is_marked(&self, p: int) -> bool {
        0 <= p < self.marks().len() && self.marks()[p]
    }

    /// The history lists exactly the selected positions, each once, and the
    /// anchor is a selected position, unset exactly when nothing is selected.
    pub open spec fn wf(&self) -> bool {
        &&& self.marks().len() <= u32::MAX
        &&& no_duplicates(self.history())
        &&& forall|p: u32| #[trigger] self.history().contains(p) == self.is_marked(p as int)
        &&& (self.anchor() is None <==> self.history().len() == 0)
        &&& (self.anchor() matches Some(a) ==> self.is_marked(a as int))
    }

    proof fn lemma_history_bounds(&self)
        requires
            self.wf(),
        ensures
            forall|k: int|
                0 <= k < self.history().len() ==> (#[trigger] self.history()[k]) < self.marks().len()
                    && self.marks()[self.history()[k] as int],
    {
        assert forall|k: int| 0 <= k < self.history().len() implies (#[trigger] self.history()[k])
            < self.marks().len() && self.marks()[self.history()[k] as int] by {
            assert(self.history().contains(self.history()[k]));
        }
    }

    /// A grid of `n_items` positions with nothing selected.
    pub fn new(n_items: u32) -> (s: Self)
        requires
            n_items < u32::MAX,
        ensures
            s.wf(),
            s.marks() == Seq::new(n_items as nat, |p: int| false),
            s.history().len() == 0,
            s.anchor() is None,
    {
        let mut marks: Vec<bool> = Vec::new();
        let mut i: u32 = 0;
        while i < n_items
            invariant
                i <= n_items,
                marks@ == Seq::new(i as nat, |p: int| false),
            decreases n_items - i,
        {
            marks.push(false);
            assert(marks@ =~= Seq::new((i + 1) as nat, |p: int| false));
            i += 1;
        }
        let s = GridSelection { marks, history: Vec::new(), anchor: None };
        assert forall|p: u32| #[trigger] s.history().contains(p) == s.is_marked(p as int) by {}
        s
    }

    /// Number of positions of the grid.
    pub fn len(&self) -> (r: u32)
        requires
            self.wf(),
        ensures
            r == self.marks().len(),
    {
        self.marks.len() as u32
    }

    /// Whether position `pos` is selected.
    pub fn is_selected(&self, pos: u32) -> (r: bool)
        ensures
            r == self.is_marked(pos as int),
    {
        (pos as usize) < self.marks.len() && self.marks[pos as usize]
    }

    /// Number of selected positions.
    pub fn count(&self) -> (r: usize)
        ensures
            r == self.history().len(),
    {
        self.history.len()
    }

    /// The selection history, oldest first.
    pub fn history_positions(&self) -> (r: Vec<u32>)
        ensures
            r@ == self.history(),
    {
        let mut r: Vec<u32> = Vec::new();
        let mut i: usize = 0;
        while i < self.history.len()
            invariant
                0 <= i <= self.history@.len(),
                r@ == self.history@.take(i as int),
            decreases self.history@.len() - i,
        {
            r.push(self.history[i]);
            assert(r@ =~= self.history@.take(i as int + 1));
            i += 1;
        }
        assert(self.history@.take(self.history@.len() as int) =~= self.history@);
        r
    }

    /// The Shift anchor.
    pub fn anchor_position(&self) -> (r: Option<u32>)
        ensures
            r == self.anchor(),
    {
        self.anchor
    }

    /// Empties the selection.
    pub fn clear(&mut self)
        requires
            old(self).wf(),
        ensures
            final(self).wf(),
            final(self).marks() == Seq::new(old(self).marks().len(), |p: int| false),
            final(self).history().len() == 0,
            final(self).anchor() is None,
    {
        let n = self.marks.len();
        let mut marks: Vec<bool> = Vec::new();
        let mut i: usize = 0;
        while i < n
            invariant
                i <= n,
                marks@ == Seq::new(i as nat, |p: int| false),
            decreases n - i,
        {
            marks.push(false);
            assert(marks@ =~= Seq::new((i + 1) as nat, |p: int| false));
            i += 1;
        }
        self.marks = marks;
        self.history = Vec::new();
        self.anchor = None;
        assert forall|p: u32| #[trigger] self.history().contains(p) == self.is_marked(p as int) by {}
    }

    /// Selects every position (Ctrl+A): the history lists them in order and
    /// the anchor is the last one.
    pub fn select_all(&mut self)
        requires
            old(self).wf(),
        ensures
            final(self).wf(),
            final(self).marks() == Seq::new(old(self).marks().len(), |p: int| true),
            final(self).history() == span(0, old(self).marks().len() - 1),
            final(self).anchor() == last_of(final(self).history()),
    {
        let n = self.marks.len();
        let mut marks: Vec<bool> = Vec::new();
        let mut history: Vec<u32> = Vec::new();
        let mut i: usize = 0;
        while i < n
            invariant
                i <= n,
                n == old(self).marks().len(),
                n <= u32::MAX,
                marks@ == Seq::new(i as nat, |p: int| true),
                history@ == span(0, i - 1),
            decreases n - i,
        {
            marks.push(true);
            history.push(i as u32);
            assert(marks@ =~= Seq::new((i + 1) as nat, |p: int| true));
            assert(history@ =~= span(0, i as int));
            i += 1;
        }
        self.marks = marks;
        self.anchor = if history.len() > 0 {
            Some(history[history.len() - 1])
        } else {
            None
        };
        self.history = history;
        proof {
            if n > 0 {
                lemma_span(0, n - 1);
            }
            assert forall|p: u32| #[trigger] self.history().contains(p) == self.is_marked(
                p as int,
            ) by {
                if n > 0 && p < n {
                    assert(self.history()[p as int] == p);
                }
            }
        }
    }

    /// Flips position `pos` (Ctrl+click, a click in selection mode, Ctrl+Space).
    /// A newly selected position moves to the end of the history and becomes
    /// the anchor; an unselected one leaves the history, and the anchor falls
    /// back to the latest remaining entry.
    pub fn toggle(&mut self, pos: u32)
        requires
            old(self).wf(),
            pos < old(self).marks().len(),
        ensures
            final(self).wf(),
            final(self).marks() == toggled(old(self).marks(), pos as int),
            old(self).marks()[pos as int] ==> final(self).history() == keep_outside(
                old(self).history(),
                pos as int,
                pos as int,
            ) && final(self).anchor() == last_of(final(self).history()),
            !old(self).marks()[pos as int] ==> final(self).history() == old(self).history().push(
                pos,
            ) && final(self).anchor() == Some(pos),
    {
        let ghost h0 = self.history@;
        proof {
            lemma_keep_outside(h0, pos as int, pos as int);
        }
        if self.marks[pos as usize] {
            self.marks.set(pos as usize, false);
            let kept = Self::without_range(&self.history, pos, pos);
            self.anchor = if kept.len() > 0 {
                Some(kept[kept.len() - 1])
            } else {
                None
            };
            self.history = kept;
            proof {
                assert forall|p: u32| #[trigger] self.history().contains(p) == self.is_marked(
                    p as int,
                ) by {
                    assert(h0.contains(p) == old(self).is_marked(p as int));
                }
                if self.history().len() > 0 {
                    assert(self.history().contains(self.history().last()));
                }
            }
        } else {
            self.marks.set(pos as usize, true);
            assert(!h0.contains(pos));
            self.history.push(pos);
            self.anchor = Some(pos);
            proof {
                assert(self.history()[h0.len() as int] == pos);
                assert forall|p: u32| #[trigger] self.history().contains(p) == self.is_marked(
                    p as int,
                ) by {
                    assert(h0.contains(p) == old(self).is_marked(p as int));
                    if h0.contains(p) {
                        let k = choose|k: int| 0 <= k < h0.len() && h0[k] == p;
                        assert(self.history()[k] == p);
                    }
                    if self.history().contains(p) && p != pos {
                        let k = choose|k: int| 0 <= k < self.history().len() && self.history()[k] == p;
                        assert(h0[k] == p);
                    }
                }
                assert forall|i: int, j: int| 0 <= i < j < self.history().len() implies self.history()[i]
                    != self.history()[j] by {
                    if j == h0.len() {
                        assert(h0.contains(h0[i]));
                    }
                }
            }
        }
    }

    /// `h` without the positions `lo..=hi`.
    fn without_range(h: &Vec<u32>, lo: u32, hi: u32) -> (r: Vec<u32>)
        ensures
            r@ == keep_outside(h@, lo as int, hi as int),
    {
        let mut r: Vec<u32> = Vec::new();
        let mut i: usize = 0;
        while i < h.len()
            invariant
                0 <= i <= h@.len(),
                r@ == keep_outside(h@.take(i as int), lo as int, hi as int),
            decreases h@.len() - i,
        {
            assert(h@.take(i as int + 1).drop_last() =~= h@.take(i as int));
            let x = h[i];
            if x < lo || hi < x {
                r.push(x);
            }
            i += 1;
        }
        assert(h@.take(h@.len() as int) =~= h@);
        r
    }

    /// Where a Shift range starts: the anchor while it is still selected,
    /// otherwise the latest history entry, otherwise `pos` itself.
    pub open spec fn range_start(&self, pos: u32) -> u32 {
        match self.anchor() {
            Some(a) if self.is_marked(a as int) => a,
            _ => match last_of(self.history()) {
                Some(l) => l,
                None => pos,
            },
        }
    }

    /// Selects from the range start to `pos` (Shift+Space): the positions of
    /// the range move to the end of the history in ascending order, and `pos`
    /// becomes the anchor.
    pub fn extend_to(&mut self, pos: u32)
        requires
            old(self).wf(),
            pos < old(self).marks().len(),
        ensures
            final(self).wf(),
            ({
                let a = old(self).range_start(pos) as int;
                let lo = if a < pos { a } else { pos as int };
                let hi = if a < pos { pos as int } else { a };
                &&& final(self).marks() == with_range(old(self).marks(), lo, hi)
                &&& final(self).history() == keep_outside(old(self).history(), lo, hi) + span(
                    lo,
                    hi,
                )
            }),
            final(self).anchor() == Some(pos),
    {
        proof {
            self.lemma_history_bounds();
        }
        let a = match self.anchor {
            Some(a) if (a as usize) < self.marks.len() && self.marks[a as usize] => a,
            _ => if self.history.len() > 0 {
                self.history[self.history.len() - 1]
            } else {
                pos
            },
        };
        let lo = if a < pos {
            a
        } else {
            pos
        };
        let hi = if a < pos {
            pos
        } else {
            a
        };
        let ghost m0 = self.marks@;
        let ghost h0 = self.history@;
        assert(hi < m0.len());
        let mut marks: Vec<bool> = Vec::new();
        let mut i: usize = 0;
        while i < self.marks.len()
            invariant
                0 <= i <= m0.len(),
                self.marks@ == m0,
                marks@ == with_range(m0, lo as int, hi as int).take(i as int),
            decreases m0.len() - i,
        {
            let on = self.marks[i] || (lo as usize <= i && i <= hi as usize);
            marks.push(on);
            assert(marks@ =~= with_range(m0, lo as int, hi as int).take(i as int + 1));
            i += 1;
        }
        assert(marks@ =~= with_range(m0, lo as int, hi as int));
        let mut history = Self::without_range(&self.history, lo, hi);
        let ghost kept = history@;
        let mut p: u32 = lo;
        loop
            invariant_except_break
                lo <= p <= hi,
                history@ == kept + span(lo as int, p as int - 1),
            ensures
                history@ == kept + span(lo as int, hi as int),
            decreases hi - p,
        {
            history.push(p);
            assert(history@ =~= kept + span(lo as int, p as int));
            if p == hi {
                break;
            }
            p += 1;
        }
        self.marks = marks;
        self.history = history;
        self.anchor = Some(pos);
        proof {
            lemma_keep_outside(h0, lo as int, hi as int);
            lemma_span(lo as int, hi as int);
            let sp = span(lo as int, hi as int);
            let h = self.history();
            assert(h =~= kept + sp);
            assert forall|x: u32| #[trigger] h.contains(x) == (kept.contains(x) || sp.contains(x)) by {
                if h.contains(x) {
                    let k = choose|k: int| 0 <= k < h.len() && h[k] == x;
                    if k < kept.len() {
                        assert(kept[k] == x);
                    } else {
                        assert(sp[k - kept.len()] == x);
                    }
                }
                if kept.contains(x) {
                    let k = choose|k: int| 0 <= k < kept.len() && kept[k] == x;
                    assert(h[k] == x);
                }
                if sp.contains(x) {
                    let k = choose|k: int| 0 <= k < sp.len() && sp[k] == x;
                    assert(h[kept.len() + k] == x);
                }
            }
            assert forall|x: u32| #[trigger] self.history().contains(x) == self.is_marked(
                x as int,
            ) by {
                assert(h0.contains(x) == old(self).is_marked(x as int));
            }
            assert forall|i: int, j: int| 0 <= i < j < h.len() implies h[i] != h[j] by {
                if j >= kept.len() && i < kept.len() {
                    assert(kept.contains(h[i]));
                    assert(sp.contains(h[j])) by {
                        assert(sp[j - kept.len()] == h[j]);
                    }
                } else if i >= kept.len() {
                    assert(h[i] == sp[i - kept.len()]);
                    assert(h[j] == sp[j - kept.len()]);
                }
            }
            assert(h.contains(pos)) by {
                assert(sp.contains(pos));
            }
        }
    }

    /// Shift+click on `pos`: the range is selected as by [`Self::extend_to`],
    /// then `pos` moves to the very end of the history.
    pub fn shift_click(&mut self, pos: u32)
        requires
            old(self).wf(),
            pos < old(self).marks().len(),
        ensures
            final(self).wf(),
            ({
                let a = old(self).range_start(pos) as int;
                let lo = if a < pos { a } else { pos as int };
                let hi = if a < pos { pos as int } else { a };
                &&& final(self).marks() == with_range(old(self).marks(), lo, hi)
                &&& final(self).history() == keep_outside(
                    keep_outside(old(self).history(), lo, hi) + span(lo, hi),
                    pos as int,
                    pos as int,
                ).push(pos)
            }),
            final(self).anchor() == Some(pos),
    {
        self.extend_to(pos);
        let ghost h1 = self.history@;
        proof {
            lemma_keep_outside(h1, pos as int, pos as int);
        }
        let mut history = Self::without_range(&self.history, pos, pos);
        let ghost kept = history@;
        history.push(pos);
        self.history = history;
        proof {
            assert(self.is_marked(pos as int));
            assert(self.history()[kept.len() as int] == pos);
            assert forall|x: u32| #[trigger] self.history().contains(x) == self.is_marked(
                x as int,
            ) by {
                assert(h1.contains(x) == self.is_marked(x as int));
                if kept.contains(x) {
                    let k = choose|k: int| 0 <= k < kept.len() && kept[k] == x;
                    assert(self.history()[k] == x);
                }
                if self.history().contains(x) && x != pos {
                    let k = choose|k: int| 0 <= k < self.history().len() && self.history()[k] == x;
                    assert(kept[k] == x);
                }
            }
            assert forall|i: int, j: int| 0 <= i < j < self.history().len() implies self.history()[i]
                != self.history()[j] by {
                if j == kept.len() {
                    assert(kept.contains(kept[i]));
                }
            }
        }
    }
}

/// Flipping the same position twice gives back the selection it started from.
pub proof fn law_toggle_twice_restores(marks: Seq<bool>, pos: int)
    requires
        0 <= pos < marks.len(),
    ensures
        toggled(toggled(marks, pos), pos) == marks,
{
    assert(toggled(toggled(marks, pos), pos) =~= marks);
}

/// What a plain click on a cell does.
#[derive(Debug, Clone, Copy, PartialEq, Eq)]
pub enum ClickAction {
    /// Flip the clicked cell.
    Toggle,
    /// Select from the range start to the clicked cell.
    Extend,
    /// Clear any selection and open the viewer at the clicked cell.
    Open,
}

/// A click toggles with Ctrl held or in selection mode, extends with Shift,
/// and opens the viewer otherwise.
pub fn click_action(ctrl: bool, shift: bool, selection_mode: bool) -> (r: ClickAction)
    ensures
        r == if ctrl || selection_mode {
            ClickAction::Toggle
        } else if shift {
            ClickAction::Extend
        } else {
            ClickAction::Open
        },
{
    if ctrl || selection_mode {
        ClickAction::Toggle
    } else if shift {
        ClickAction::Extend
    } else {
        ClickAction::Open
    }
}

/// What Escape does on the grid, after the viewer had its say.
#[derive(Debug, Clone, Copy, PartialEq, Eq)]
pub enum GridEscape {
    /// The viewer used the key.
    Viewer,
    /// Clear the selection and leave selection mode.
    ClearSelection,
    /// Let the key through.
    Pass,
}

/// Escape goes to the viewer first; otherwise it clears a non-empty selection.
pub fn grid_escape(viewer_handled: bool, selected_count: usize) -> (r: GridEscape)
    ensures
        r == if viewer_handled {
            GridEscape::Viewer
        } else if selected_count > 0 {
            GridEscape::ClearSelection
        } else {
            GridEscape::Pass
        },
{
    if viewer_handled {
        GridEscape::Viewer
    } else if selected_count > 0 {
        GridEscape::ClearSelection
    } else {
        GridEscape::Pass
    }
}

/// Whether the selection bar is shown: while something is selected, and for
/// as long as selection mode stays engaged.
pub fn selection_bar_visible(selected_count: usize, selection_mode: bool) -> (r: bool)
    ensures
        r == (selected_count > 0 || selection_mode),
{
    selected_count > 0 || selection_mode
}

} // verus!
