//! Pagination: which page of a list of items is shown, and its controls.

use vstd::prelude::*;
use crate::tui::{KeyCode, MouseEvent, MouseEventKind, Rect};

verus! {

/// A paginator over `total` items, `per_page` (at least one) to a page.
pub struct Paginator {
    pub total: usize,
    pub per_page: usize,
    pub page: usize,
    pub focused: bool,
}

/// The last page of `total` items at `per_page` to a page.
pub open spec fn last_page(total: nat, per_page: nat) -> nat {
    if total == 0 { 0 } else { ((total - 1) as nat) / per_page }
}

/// The page after a navigation key.
pub open spec fn paged(p: nat, max: nat, code: KeyCode) -> nat {
    match code {
        KeyCode::Left => if p > 0 { (p - 1) as nat } else { 0 },
        KeyCode::Right => if p + 1 < max { p + 1 } else { max },
        KeyCode::Home => 0,
        KeyCode::End => max,
        _ => p,
    }
}

/// The page whose bullet a click at `column` hits, where the bullets of
/// pages `0..=max` are drawn centred in `area` one column each with a space
/// between: the page of the bullet or of the space after it.
pub open spec fn clicked_page(area: Rect, column: u16, max: nat) -> Option<nat> {
    let total_w: nat = ((2 * max + 1) as u16) as nat;
    let start: int = area.x + (if area.width > total_w { area.width - total_w } else { 0 }) / 2;
    let rel: nat = if column > start { (column - start) as nat } else { 0 };
    if rel < 2 * max + 1 { Some(rel / 2) } else { None }
}

impl Paginator {
    /// At least one item to a page, and the page within range.
    pub open spec fn wf(&self) -> bool {
        &&& self.per_page >= 1
        &&& self.page <= last_page(self.total as nat, self.per_page as nat)
    }

    /// The last page.
    pub open spec fn spec_max_page(&self) -> nat {
        last_page(self.total as nat, self.per_page as nat)
    }

    /// A paginator on the first page, unfocused; `per_page` is at least one.
    pub fn new(total: usize, per_page: usize) -> (p: Paginator)
        ensures
            p.total == total,
            p.per_page == if per_page >= 1 { per_page } else { 1 },
            p.page == 0,
            !p.focused,
            p.wf(),
    {
        let per_page = if per_page >= 1 {
            per_page
        } else {
            1
        };
        Paginator { total, per_page, page: 0, focused: false }
    }

    fn max_page(&self) -> (m: usize)
        requires
            self.per_page >= 1,
        ensures
            m == self.spec_max_page(),
    {
        if self.total == 0 {
            0
        } else {
            (self.total - 1) / self.per_page
        }
    }

    /// Changes the number of items; a page past the new last one moves to it.
    pub fn set_total(&mut self, total: usize)
        requires
            old(self).per_page >= 1,
        ensures
            final(self).total == total,
            final(self).per_page == old(self).per_page,
            final(self).focused == old(self).focused,
            final(self).page == if old(self).page > last_page(total as nat, old(self).per_page as nat) {
                last_page(total as nat, old(self).per_page as nat)
            } else {
                old(self).page as nat
            },
            final(self).wf(),
    {
        self.total = total;
        let max_page = self.max_page();
        if self.page > max_page {
            self.page = max_page;
        }
    }

    /// The current page.
    pub fn page(&self) -> (p: usize)
        ensures
            p == self.page,
    {
        self.page
    }

    /// Items to a page.
    pub fn per_page(&self) -> (n: usize)
        ensures
            n == self.per_page,
    {
        self.per_page
    }

    /// Index of the first item on the current page.
    pub fn offset(&self) -> (o: usize)
        requires
            self.wf(),
        ensures
            o == self.page * self.per_page,
    {
        proof {
            lemma_offset_fits(self.total as nat, self.per_page as nat, self.page as nat);
        }
        self.page * self.per_page
    }

    /// Number of items on the current page.
    pub fn len_on_page(&self) -> (n: usize)
        requires
            self.wf(),
        ensures
            n == if self.total >= self.page * self.per_page + self.per_page {
                self.per_page as int
            } else if self.total > self.page * self.per_page {
                self.total - self.page * self.per_page
            } else {
                0
            },
    {
        let start = self.offset();
        let rest = self.total.saturating_sub(start);
        if self.per_page < rest {
            self.per_page
        } else {
            rest
        }
    }

    /// Gives the paginator the focus.
    pub fn focus(&mut self)
        ensures
            *final(self) == (Paginator { focused: true, ..*old(self) }),
    {
        self.focused = true;
    }

    /// Takes the focus away.
    pub fn blur(&mut self)
        ensures
            *final(self) == (Paginator { focused: false, ..*old(self) }),
    {
        self.focused = false;
    }

    /// Handles a key while focused: Left, Right, Home and End move between
    /// pages; anything else does nothing.
    pub fn on_key(&mut self, code: KeyCode)
        requires
            old(self).wf(),
        ensures
            final(self).wf(),
            final(self).total == old(self).total,
            final(self).per_page == old(self).per_page,
            final(self).focused == old(self).focused,
            final(self).page == if old(self).focused {
                paged(old(self).page as nat, old(self).spec_max_page(), code)
            } else {
                old(self).page as nat
            },
    {
        if !self.focused {
            return;
        }
        let max = self.max_page();
        let p = self.page;
        self.page = match code {
            KeyCode::Left => p.saturating_sub(1),
            KeyCode::Right => if p < max {
                p + 1
            } else {
                max
            },
            KeyCode::Home => 0,
            KeyCode::End => max,
            _ => p,
        };
    }

    /// Handles a mouse event over the paginator's `area`: a press inside
    /// focuses it and turns to the page whose bullet was hit; a press outside
    /// blurs it.
    pub fn on_mouse(&mut self, area: Rect, ev: &MouseEvent)
        requires
            old(self).wf(),
        ensures
            final(self).wf(),
            final(self).total == old(self).total,
            final(self).per_page == old(self).per_page,
            match ev.kind {
                MouseEventKind::Down(_) => if area.spec_contains(ev.column, ev.row) {
                    &&& final(self).focused
                    &&& final(self).page == match clicked_page(area, ev.column, old(self).spec_max_page()) {
                        Some(p) => p,
                        None => old(self).page as nat,
                    }
                } else {
                    !final(self).focused && final(self).page == old(self).page
                },
                _ => *final(self) == *old(self),
            },
    {
        match ev.kind {
            MouseEventKind::Down(_) => {
                if area.contains(ev.column, ev.row) {
                    self.focus();
                    let max = self.max_page();
                    let bullets: u128 = 2 * (max as u128) + 1;
                    let total_w: u16 = #[verifier::truncate] (bullets as u16);
                    let start: u32 = area.x as u32 + (area.width.saturating_sub(total_w) / 2) as u32;
                    let rel: u32 = if ev.column as u32 > start {
                        ev.column as u32 - start
                    } else {
                        0
                    };
                    if (rel as u128) < bullets {
                        self.page = (rel / 2) as usize;
                    }
                } else {
                    self.blur();
                }
            },
            _ => {},
        }
    }

    /// The bullets drawn for the pages, one per page from the first, each
    /// `true` for the current page.
    pub fn bullets(&self) -> (b: Vec<bool>)
        requires
            self.wf(),
            self.spec_max_page() < usize::MAX,
        ensures
            b@.len() == self.spec_max_page() + 1,
            forall|i: int| 0 <= i < b@.len() ==> #[trigger] b@[i] == (i == self.page),
    {
        let max = self.max_page();
        let mut b: Vec<bool> = Vec::new();
        let mut i: usize = 0;
        while i <= max
            invariant
                i <= max + 1,
                max == self.spec_max_page(),
                max < usize::MAX,
                b@.len() == i,
                forall|j: int| 0 <= j < i ==> #[trigger] b@[j] == (j == self.page),
            decreases max + 1 - i,
        {
            b.push(i == self.page);
            i = i + 1;
        }
        b
    }
}

/// The first item of the last page is within the items, so page offsets fit
/// in `usize`.
pub proof fn lemma_offset_fits(total: nat, per_page: nat, page: nat)
    requires
        per_page >= 1,
        page <= last_page(total, per_page),
    ensures
        page * per_page <= total,
{
    if total > 0 {
        let t = (total - 1) as nat;
        vstd::arithmetic::div_mod::lemma_fundamental_div_mod(t as int, per_page as int);
        vstd::arithmetic::mul::lemma_mul_inequality(page as int, t as int / per_page as int, per_page as int);
        vstd::arithmetic::mul::lemma_mul_is_commutative(t as int / per_page as int, per_page as int);
    } else {
        assert(page == 0);
        assert(page * per_page == 0) by (nonlinear_arith)
            requires
                page == 0,
        ;
    }
}

/// Every navigation key keeps the page within range.
pub proof fn lemma_paging_stays_in_range(p: nat, max: nat, code: KeyCode)
    requires
        p <= max,
    ensures
        paged(p, max, code) <= max,
{
}

} // verus!
