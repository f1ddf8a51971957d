//! Scrolling the output area.
use vstd::prelude::*;
use super::{Rows, Session, OutputArea};

verus! {

/// Total wrapped rows of the first `n` output lines.
pub open spec fn rows_before(rr: Seq<Rows>, n: int) -> nat
    decreases n,
{
    if n <= 0 || rr.len() == 0 {
        0
    } else if n > rr.len() {
        rows_before(rr, rr.len() as int)
    } else {
        rows_before(rr, n - 1) + rr[n - 1]@.len()
    }
}

/// A count capped to what `usize` holds.
pub open spec fn sat(n: nat) -> usize {
    if n > usize::MAX { usize::MAX } else { n as usize }
}

/// `a - b`, or 0 when `b` is larger.
pub open spec fn sat_sub(a: usize, b: usize) -> usize {
    if a >= b { (a - b) as usize } else { 0 }
}

impl Session {
    /// This session with the viewport set to `follow` / `top`.
    pub open spec fn with_view(self, follow: bool, top: usize) -> Session {
        Session { out: OutputArea { follow, view_top: top, ..self.out }, ..self }
    }

    /// Total wrapped rows of all output lines.
    pub open spec fn total_rows(self) -> usize {
        sat(rows_before(self.out.render_rows@, self.out.render_rows@.len() as int))
    }

    /// Visible rows, at least one.
    pub open spec fn visible(self) -> usize {
        if self.out.out_height == 0 { 1 } else { self.out.out_height }
    }

    /// Rows above the first row of output line `i` (capped to `usize`).
    pub fn render_top_of(&self, i: usize) -> (r: usize)
        ensures
            r == sat(rows_before(self.out.render_rows@, i as int)),
    {
        let n = self.out.render_rows.len();
        let lim = if i < n { i } else { n };
        let mut acc: usize = 0;
        let mut k: usize = 0;
        while k < lim
            invariant
                n == self.out.render_rows@.len(),
                lim <= n,
                lim == if (i as int) < n { i as int } else { n as int },
                0 <= k <= lim,
                acc == sat(rows_before(self.out.render_rows@, k as int)),
            decreases lim - k,
        {
            let add = self.out.render_rows[k].len();
            if acc > usize::MAX - add {
                acc = usize::MAX;
            } else {
                acc = acc + add;
            }
            k += 1;
        }
        proof {
            if (i as int) > n {
                assert(rows_before(self.out.render_rows@, i as int) == rows_before(self.out.render_rows@, n as int));
            }
        }
        acc
    }

    /// Total wrapped rows of all output lines (capped to `usize`).
    pub fn render_total(&self) -> (r: usize)
        ensures
            r == self.total_rows(),
    {
        self.render_top_of(self.out.render_rows.len())
    }

    /// The session after scrolling `step` rows towards older output.
    pub open spec fn scrolled_up(self, step: usize) -> Session {
        self.with_view(false, sat_sub(
            if self.out.follow { sat_sub(self.total_rows(), self.visible()) } else { self.out.view_top },
            step,
        ))
    }

    /// The session after scrolling `step` rows towards newer output.
    pub open spec fn scrolled_down(self, step: usize) -> Session {
        if self.out.follow {
            self
        } else {
            let max_top = sat_sub(self.total_rows(), self.visible());
            let moved = if self.out.view_top as int + step >= max_top { max_top } else { (self.out.view_top + step) as usize };
            if moved >= max_top {
                self.with_view(true, 0)
            } else {
                self.with_view(false, moved)
            }
        }
    }

    /// Back to following the newest output.
    pub fn goto_bottom(&mut self)
        ensures
            *final(self) == old(self).with_view(true, 0),
    {
        self.out.follow = true;
        self.out.view_top = 0;
    }

    /// Scrolls `step` rows towards older output. Leaving follow mode anchors
    /// the view at the top of the screen that was showing.
    pub fn scroll_up(&mut self, step: usize)
        ensures
            *final(self) == old(self).scrolled_up(step),
    {
        if self.out.follow {
            let total = self.render_total();
            let vis = if self.out.out_height == 0 { 1 } else { self.out.out_height };
            self.out.view_top = if total >= vis { total - vis } else { 0 };
            self.out.follow = false;
        }
        self.out.view_top = if self.out.view_top >= step { self.out.view_top - step } else { 0 };
    }

    /// Scrolls `step` rows towards newer output; reaching the bottom resumes
    /// following the newest output. Does nothing while following.
    pub fn scroll_down(&mut self, step: usize)
        ensures
            *final(self) == old(self).scrolled_down(step),
    {
        if self.out.follow {
            return;
        }
        let total = self.render_total();
        let vis = if self.out.out_height == 0 { 1 } else { self.out.out_height };
        let max_top = if total >= vis { total - vis } else { 0 };
        let moved = if self.out.view_top >= max_top || step >= max_top - self.out.view_top {
            max_top
        } else {
            self.out.view_top + step
        };
        if moved >= max_top {
            self.out.follow = true;
            self.out.view_top = 0;
        } else {
            self.out.view_top = moved;
        }
    }
}

/// Scrolling up and then down by the same amount from the newest output
/// returns to following the newest output, with nothing else changed.
pub proof fn law_scroll_up_then_down_follows(s: Session, step: usize)
    requires
        s.out.follow,
    ensures
        s.scrolled_up(step).scrolled_down(step) == s.with_view(true, 0),
{
}

} // verus!
