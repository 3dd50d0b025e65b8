//! Terminal dimensions and how many trailing lines fit in the viewport.

use vstd::prelude::*;

verus! {

/// Terminal rows that a line of display width `w` takes at `cols` columns:
/// one for a blank line, else the width divided by the columns, rounded up.
pub open spec fn rows_for_width(w: int, cols: int) -> int {
    if w == 0 {
        1
    } else if w % cols == 0 {
        w / cols
    } else {
        w / cols + 1
    }
}

/// Rows taken by the last `k` lines of `ws` (display widths).
pub open spec fn tail_rows(ws: Seq<usize>, k: int, cols: int) -> int
    decreases k,
{
    if k <= 0 {
        0
    } else {
        rows_for_width(ws[ws.len() - k] as int, cols) + tail_rows(ws, k - 1, cols)
    }
}

/// Walking back from the end of `ws`, past the last `k` lines: how many trailing
/// lines fit in `budget` rows.
pub open spec fn fits_from(ws: Seq<usize>, cols: int, budget: int, k: int) -> int
    decreases ws.len() - k,
{
    if k >= ws.len() || tail_rows(ws, k + 1, cols) > budget {
        k
    } else {
        fits_from(ws, cols, budget, k + 1)
    }
}

/// How many trailing lines of `ws` (display widths) fit in `budget` rows at `cols` columns.
pub open spec fn fit_count(ws: Seq<usize>, cols: int, budget: int) -> int {
    fits_from(ws, cols, budget, 0)
}

/// The count of trailing lines that fit lies between none and all of them.
pub proof fn lemma_fit_count_bounds(ws: Seq<usize>, cols: int, budget: int)
    ensures
        0 <= fit_count(ws, cols, budget) <= ws.len(),
{
    lemma_fits_from_bounds(ws, cols, budget, 0);
}

proof fn lemma_fits_from_bounds(ws: Seq<usize>, cols: int, budget: int, k: int)
    requires
        0 <= k,
    ensures
        k <= fits_from(ws, cols, budget, k),
        k <= ws.len() ==> fits_from(ws, cols, budget, k) <= ws.len(),
    decreases ws.len() - k,
{
    if k < ws.len() && tail_rows(ws, k + 1, cols) <= budget {
        lemma_fits_from_bounds(ws, cols, budget, k + 1);
    }
}

proof fn lemma_rows_positive(w: int, cols: int)
    requires
        w >= 0,
        cols > 0,
    ensures
        rows_for_width(w, cols) >= 1,
{
    if w != 0 && w % cols == 0 {
        assert(w / cols >= 1) by (nonlinear_arith)
            requires w > 0, w % cols == 0, cols > 0;
    } else if w != 0 {
        assert(w / cols >= 0) by (nonlinear_arith)
            requires w > 0, cols > 0;
    }
}

proof fn lemma_tail_rows_monotone(ws: Seq<usize>, cols: int, a: int, b: int)
    requires
        0 <= a <= b <= ws.len(),
        cols > 0,
    ensures
        tail_rows(ws, a, cols) <= tail_rows(ws, b, cols),
    decreases b - a,
{
    if a < b {
        lemma_tail_rows_monotone(ws, cols, a, b - 1);
        lemma_rows_positive(ws[ws.len() - b] as int, cols);
    }
}

proof fn lemma_fit_count_unique(ws: Seq<usize>, cols: int, budget: int, r: int)
    requires
        cols > 0,
        0 <= r <= ws.len(),
        tail_rows(ws, r, cols) <= budget,
        r < ws.len() ==> tail_rows(ws, r + 1, cols) > budget,
    ensures
        fit_count(ws, cols, budget) == r,
{
    lemma_fits_from(ws, cols, budget, r, 0);
}

proof fn lemma_fits_from(ws: Seq<usize>, cols: int, budget: int, r: int, k: int)
    requires
        cols > 0,
        0 <= k <= r <= ws.len(),
        tail_rows(ws, r, cols) <= budget,
        r < ws.len() ==> tail_rows(ws, r + 1, cols) > budget,
    ensures
        fits_from(ws, cols, budget, k) == r,
    decreases r - k,
{
    if k < r {
        lemma_tail_rows_monotone(ws, cols, k + 1, r);
        lemma_fits_from(ws, cols, budget, r, k + 1);
    }
}

/// Rows taken by a line of display width `width` at `column` columns.
pub fn line_line_size(width: usize, column: usize) -> (r: usize)
    requires
        column > 0,
    ensures
        r == rows_for_width(width as int, column as int),
        r >= 1,
{
    if width == 0 {
        1
    } else if width % column == 0 {
        assert(width / column >= 1) by (nonlinear_arith)
            requires width > 0, width % column == 0, column > 0;
        width / column
    } else {
        assert(width / column < width) by (nonlinear_arith)
            requires width > 0, width % column != 0, column > 0;
        width / column + 1
    }
}

/// Terminal dimensions: columns, and rows left for content.
#[derive(Clone, Copy, Debug)]
pub struct SizeContext {
    pub terminal_column: usize,
    pub terminal_line: usize,
    /// Whether one terminal row is kept back from content on resize.
    pub reserve_row: bool,
}

impl SizeContext {
    /// A context with no columns and no rows yet; `reserve_row` says whether
    /// `resize` keeps one terminal row back for the status line.
    pub fn new(reserve_row: bool) -> (r: SizeContext)
        ensures
            r.terminal_column == 0,
            r.terminal_line == 0,
            r.reserve_row == reserve_row,
    {
        SizeContext { terminal_column: 0, terminal_line: 0, reserve_row }
    }

    /// Records new terminal dimensions.
    pub fn resize(&mut self, terminal_column: usize, terminal_line: usize)
        requires
            old(self).reserve_row ==> terminal_line >= 1,
        ensures
            final(self).terminal_column == terminal_column,
            final(self).terminal_line == if old(self).reserve_row {
                terminal_line - 1
            } else {
                terminal_line as int
            },
            final(self).reserve_row == old(self).reserve_row,
    {
        self.terminal_column = terminal_column;
        self.terminal_line = if self.reserve_row {
            terminal_line - 1
        } else {
            terminal_line
        };
    }

    pub fn terminal_column(&self) -> (r: usize)
        ensures
            r == self.terminal_column,
    {
        self.terminal_column
    }

    pub fn terminal_line(&self) -> (r: usize)
        ensures
            r == self.terminal_line,
    {
        self.terminal_line
    }

    /// Walking `widths[from..]` backward from its end, counts the trailing lines that
    /// fit in the rows for content. Returns `(count, margin)`: the number of lines that
    /// fit and the rows left unused above them.
    pub fn calculate_real_size(&self, widths: &Vec<usize>, from: usize) -> (r: (usize, usize))
        requires
            self.terminal_column > 0,
            from <= widths@.len(),
        ensures
            ({
                let ws = widths@.subrange(from as int, widths@.len() as int);
                let cols = self.terminal_column as int;
                &&& r.0 <= ws.len()
                &&& tail_rows(ws, r.0 as int, cols) <= self.terminal_line
                &&& r.1 == self.terminal_line - tail_rows(ws, r.0 as int, cols)
                &&& r.0 < ws.len() ==> tail_rows(ws, r.0 + 1, cols) > self.terminal_line
                &&& r.0 == fit_count(ws, cols, self.terminal_line as int)
            }),
    {
        let ghost ws = widths@.subrange(from as int, widths@.len() as int);
        let ghost cols = self.terminal_column as int;
        let mut fit: usize = 0;
        let mut left: usize = self.terminal_line;
        let mut i: usize = widths.len();
        while i > from
            invariant
                from <= i <= widths@.len(),
                ws == widths@.subrange(from as int, widths@.len() as int),
                cols == self.terminal_column,
                cols > 0,
                fit == widths@.len() - i,
                tail_rows(ws, fit as int, cols) <= self.terminal_line,
                left == self.terminal_line - tail_rows(ws, fit as int, cols),
            decreases i,
        {
            let size = line_line_size(widths[i - 1], self.terminal_column);
            assert(ws[ws.len() - (fit + 1)] == widths@[i - 1]);
            if size > left {
                proof {
                    lemma_fit_count_unique(ws, cols, self.terminal_line as int, fit as int);
                }
                return (fit, left);
            }
            left = left - size;
            i = i - 1;
            fit = widths.len() - i;
        }
        proof {
            lemma_fit_count_unique(ws, cols, self.terminal_line as int, fit as int);
        }
        (fit, left)
    }
}

} // verus!
