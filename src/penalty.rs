use vstd::prelude::*;
use crate::qrcode::QrCode;

verus! {

/// The run history after a run of `run` modules ends: the new run first, the oldest dropped.
/// A run that starts the line counts the light border beyond the edge as well.
pub open spec fn history_add(h: Seq<i32>, size: int, run: int) -> Seq<i32> {
    let r = if h[0] == 0 {
        run + size
    } else {
        run
    };
    seq![r as i32] + h.take(6)
}

/// 1 where the history ends in a light run next to a dark:light:dark:light:dark run pattern of
/// ratio 1:1:3:1:1, with a light run of at least four times the unit on one side; else 0.
pub open spec fn history_count(h: Seq<i32>) -> int {
    let n = h[1] as int;
    if n > 0 && h[2] == n && h[3] == 3 * n && h[4] == n && h[5] == n && (h[0] >= 4 * n || h[6] >= 4
        * n) {
        1
    } else {
        0
    }
}

/// The count at the end of a line: the current run and the light border beyond the edge
/// close the history.
pub open spec fn history_terminate(h: Seq<i32>, size: int, color: bool, run: int) -> int {
    let h2 = if color {
        history_add(h, size, run)
    } else {
        h
    };
    let run2 = if color {
        0
    } else {
        run
    };
    history_count(history_add(h2, size, run2 + size))
}

/// The scan of the first `n` modules of a line: the score so far for runs and finder-like
/// patterns, the colour and length of the current run, and the run history.
pub open spec fn line_scan(line: Seq<bool>, size: int, n: nat) -> (int, bool, int, Seq<i32>)
    decreases n,
{
    if n == 0 {
        (0, false, 0, seq![0i32, 0, 0, 0, 0, 0, 0])
    } else {
        let (score, color, run, h) = line_scan(line, size, (n - 1) as nat);
        let c = line[n - 1];
        if c == color {
            let run2 = run + 1;
            (
                score + if run2 == 5 {
                    3int
                } else if run2 > 5 {
                    1
                } else {
                    0
                },
                color,
                run2,
                h,
            )
        } else {
            let h2 = history_add(h, size, run);
            (
                score + if !color {
                    40 * history_count(h2)
                } else {
                    0
                },
                c,
                1,
                h2,
            )
        }
    }
}

/// Penalty of one line: runs of five or more modules of one colour, and finder-like patterns.
pub open spec fn line_penalty(line: Seq<bool>, size: int) -> int {
    let (score, color, run, h) = line_scan(line, size, line.len());
    score + 40 * history_terminate(h, size, color, run)
}

/// Row `y` of the grid `g` of side `size`.
pub open spec fn row_of(g: spec_fn(int, int) -> bool, size: int, y: int) -> Seq<bool> {
    Seq::new(size as nat, |x: int| g(x, y))
}

/// Column `x` of the grid `g` of side `size`.
pub open spec fn column_of(g: spec_fn(int, int) -> bool, size: int, x: int) -> Seq<bool> {
    Seq::new(size as nat, |y: int| g(x, y))
}

/// Line penalties of the first `n` rows.
pub open spec fn rows_penalty(g: spec_fn(int, int) -> bool, size: int, n: nat) -> int
    decreases n,
{
    if n == 0 {
        0
    } else {
        rows_penalty(g, size, (n - 1) as nat) + line_penalty(row_of(g, size, n - 1), size)
    }
}

/// Line penalties of the first `n` columns.
pub open spec fn columns_penalty(g: spec_fn(int, int) -> bool, size: int, n: nat) -> int
    decreases n,
{
    if n == 0 {
        0
    } else {
        columns_penalty(g, size, (n - 1) as nat) + line_penalty(column_of(g, size, n - 1), size)
    }
}

/// The 2x2 block with top-left corner `(x, y)` has one colour.
pub open spec fn uniform_block(g: spec_fn(int, int) -> bool, x: int, y: int) -> bool {
    g(x, y) == g(x + 1, y) && g(x, y) == g(x, y + 1) && g(x, y) == g(x + 1, y + 1)
}

/// Uniform 2x2 blocks with top-left corner in row `y` and column below `n`.
pub open spec fn blocks_in_row(g: spec_fn(int, int) -> bool, y: int, n: nat) -> int
    decreases n,
{
    if n == 0 {
        0
    } else {
        blocks_in_row(g, y, (n - 1) as nat) + if uniform_block(g, n - 1, y) {
            1int
        } else {
            0
        }
    }
}

/// Uniform 2x2 blocks with top-left corner in a row below `n`, in a grid of side `size`.
pub open spec fn blocks_count(g: spec_fn(int, int) -> bool, size: int, n: nat) -> int
    decreases n,
{
    if n == 0 {
        0
    } else {
        blocks_count(g, size, (n - 1) as nat) + blocks_in_row(g, n - 1, (size - 1) as nat)
    }
}

/// Dark modules in row `y` among the first `n` columns.
pub open spec fn dark_in_row(g: spec_fn(int, int) -> bool, y: int, n: nat) -> int
    decreases n,
{
    if n == 0 {
        0
    } else {
        dark_in_row(g, y, (n - 1) as nat) + if g(n - 1, y) {
            1int
        } else {
            0
        }
    }
}

/// Dark modules in the first `n` rows of a grid of side `size`.
pub open spec fn dark_count(g: spec_fn(int, int) -> bool, size: int, n: nat) -> int
    decreases n,
{
    if n == 0 {
        0
    } else {
        dark_count(g, size, (n - 1) as nat) + dark_in_row(g, n - 1, size as nat)
    }
}

/// The balance penalty: ten for each full step of 5% by which the dark share differs from
/// one half.
pub open spec fn balance_penalty(dark: int, total: int) -> int {
    let d = dark * 20 - total * 10;
    let a = if d < 0 {
        -d
    } else {
        d
    };
    10 * ((a + total - 1) / total - 1)
}

/// The penalty score of a grid of side `size`: runs and finder-like patterns in rows and
/// columns, uniform 2x2 blocks, and the dark/light balance. A lower score is better.
pub open spec fn grid_penalty(g: spec_fn(int, int) -> bool, size: int) -> int {
    rows_penalty(g, size, size as nat) + columns_penalty(g, size, size as nat) + 3 * blocks_count(
        g,
        size,
        (size - 1) as nat,
    ) + balance_penalty(dark_count(g, size, size as nat), size * size)
}

/// The penalty score of a symbol.
pub open spec fn penalty_score(q: QrCode) -> int {
    grid_penalty(q.grid(), q.spec_size())
}

/// The scan score, run and history entries stay small.
pub proof fn lemma_line_scan_bounds(line: Seq<bool>, size: int, n: nat)
    requires
        21 <= size <= 177,
        n <= size,
    ensures
        0 <= line_scan(line, size, n).0 <= 40 * n,
        0 <= line_scan(line, size, n).2 <= n,
        line_scan(line, size, n).3.len() == 7,
        forall|i: int|
            0 <= i < 7 ==> 0 <= #[trigger] line_scan(line, size, n).3[i] <= n + size,
    decreases n,
{
    if n > 0 {
        lemma_line_scan_bounds(line, size, (n - 1) as nat);
        let (score, color, run, h) = line_scan(line, size, (n - 1) as nat);
        let h2 = history_add(h, size, run);
        assert forall|i: int| 0 <= i < 7 implies 0 <= #[trigger] h2[i] <= n + size by {
            if i > 0 {
                assert(h2[i] == h[i - 1]);
            }
        }
    }
}

/// A window of the last seven run lengths of a row or column, for finder-like patterns.
pub struct FinderPenalty {
    pub qr_size: i32,
    pub run_history: [i32; 7],
}

impl FinderPenalty {
    /// The side of the symbol and the seven entries of the window.
    pub open spec fn spec_history(&self) -> Seq<i32> {
        self.run_history@
    }

    /// Makes an empty window for a symbol of side `size`.
    pub fn new(size: u8) -> (r: FinderPenalty)
        ensures
            r.qr_size == size,
            r.spec_history() == seq![0i32, 0, 0, 0, 0, 0, 0],
    {
        let r = FinderPenalty { qr_size: size as i32, run_history: [0; 7] };
        assert(r.run_history@ =~= seq![0i32, 0, 0, 0, 0, 0, 0]);
        r
    }

    /// Pushes a finished run of `currentrunlength` modules into the window.
    pub fn add_history(&mut self, currentrunlength: i32)
        requires
            0 <= currentrunlength <= 354,
            0 <= old(self).qr_size <= 177,
        ensures
            final(self).qr_size == old(self).qr_size,
            final(self).spec_history() == history_add(
                old(self).spec_history(),
                old(self).qr_size as int,
                currentrunlength as int,
            ),
    {
        let ghost h = self.run_history@;
        let mut run = currentrunlength;
        if self.run_history[0] == 0 {
            run += self.qr_size;
        }
        let mut i: usize = 6;
        while i > 0
            invariant
                i <= 6,
                self.qr_size == old(self).qr_size,
                forall|t: int| 0 <= t <= i ==> #[trigger] self.run_history@[t] == h[t],
                forall|t: int| i < t < 7 ==> #[trigger] self.run_history@[t] == h[t - 1],
            decreases i,
        {
            self.run_history[i] = self.run_history[i - 1];
            i -= 1;
        }
        self.run_history[0] = run;
        assert(self.run_history@ =~= history_add(h, self.qr_size as int, currentrunlength as int));
    }

    /// Returns 1 where the window ends in a finder-like pattern, else 0.
    pub fn count_patterns(&self) -> (r: i32)
        requires
            forall|i: int| 0 <= i < 7 ==> 0 <= #[trigger] self.spec_history()[i] <= 1000,
        ensures
            r == history_count(self.spec_history()),
    {
        let rh = &self.run_history;
        let n = rh[1];
        assert(0 <= self.spec_history()[1] <= 1000);
        if n > 0 && rh[2] == n && rh[3] == n * 3 && rh[4] == n && rh[5] == n && (rh[0] >= n * 4
            || rh[6] >= n * 4) {
            1
        } else {
            0
        }
    }

    /// Closes the line with the current run and the border beyond the edge, and returns 1
    /// where that ends in a finder-like pattern, else 0.
    pub fn terminate_and_count(self, currentruncolor: bool, currentrunlength: i32) -> (r: i32)
        requires
            0 <= currentrunlength <= 177,
            21 <= self.qr_size <= 177,
            forall|i: int| 0 <= i < 7 ==> 0 <= #[trigger] self.spec_history()[i] <= 354,
        ensures
            r == history_terminate(
                self.spec_history(),
                self.qr_size as int,
                currentruncolor,
                currentrunlength as int,
            ),
    {
        let mut s = self;
        let mut run = currentrunlength;
        if currentruncolor {
            s.add_history(run);
            run = 0;
        }
        run += s.qr_size;
        s.add_history(run);
        let ghost h0 = self.spec_history();
        assert forall|i: int| 0 <= i < 7 implies 0 <= #[trigger] s.spec_history()[i] <= 1000 by {
            if i >= 1 && currentruncolor {
                assert(s.spec_history()[i] == history_add(h0, self.qr_size as int, currentrunlength as int)[i - 1]);
            }
        }
        s.count_patterns()
    }
}

/// The line that a scan reads: row `k` or column `k`.
pub open spec fn line_of(g: spec_fn(int, int) -> bool, size: int, k: int, horizontal: bool) -> Seq<
    bool,
> {
    if horizontal {
        row_of(g, size, k)
    } else {
        column_of(g, size, k)
    }
}

impl QrCode {
    fn line_penalty_of(&self, k: u8, horizontal: bool) -> (r: i32)
        requires
            self.wf(),
            k < self.size,
        ensures
            r == line_penalty(line_of(self.grid(), self.spec_size(), k as int, horizontal), self.spec_size()),
            0 <= r <= 7120,
    {
        let ghost line = line_of(self.grid(), self.spec_size(), k as int, horizontal);
        let size = self.size;
        let mut result: i32 = 0;
        let mut runcolor = false;
        let mut run: i32 = 0;
        let mut runhistory = FinderPenalty::new(size);
        let mut i: u8 = 0;
        proof {
            lemma_line_scan_bounds(line, size as int, 0);
        }
        while i < size
            invariant
                self.wf(),
                size == self.size,
                k < size,
                i <= size,
                line == line_of(self.grid(), self.spec_size(), k as int, horizontal),
                line.len() == size,
                runhistory.qr_size == size,
                (result as int, runcolor, run as int, runhistory.spec_history()) == line_scan(
                    line,
                    size as int,
                    i as nat,
                ),
                0 <= result <= 40 * i,
                0 <= run <= i,
                forall|t: int| 0 <= t < 7 ==> 0 <= #[trigger] runhistory.spec_history()[t] <= i + size,
            decreases size - i,
        {
            proof {
                lemma_line_scan_bounds(line, size as int, (i + 1) as nat);
            }
            let c = if horizontal {
                self.get_module_bounded(i, k)
            } else {
                self.get_module_bounded(k, i)
            };
            assert(c == line[i as int]);
            if c == runcolor {
                run += 1;
                if run == 5 {
                    result += 3;
                } else if run > 5 {
                    result += 1;
                }
            } else {
                runhistory.add_history(run);
                if !runcolor {
                    result += runhistory.count_patterns() * 40;
                }
                runcolor = c;
                run = 1;
            }
            i += 1;
        }
        assert(line.len() == size as nat);
        let t = runhistory.terminate_and_count(runcolor, run);
        result + t * 40
    }

    /// Returns the penalty score of this symbol.
    pub(crate) fn get_penalty_score(&self) -> (r: i32)
        requires
            self.wf(),
        ensures
            r == penalty_score(*self),
            r < 4_000_000,
    {
        let size = self.size;
        let mut result: i32 = 0;
        let mut y: u8 = 0;
        while y < size
            invariant
                self.wf(),
                size == self.size,
                y <= size,
                result == rows_penalty(self.grid(), self.spec_size(), y as nat),
                0 <= result <= 7120 * y,
            decreases size - y,
        {
            let p = self.line_penalty_of(y, true);
            result += p;
            y += 1;
        }
        let mut x: u8 = 0;
        let ghost rows = result as int;
        let mut cols: i32 = 0;
        while x < size
            invariant
                self.wf(),
                size == self.size,
                x <= size,
                cols == columns_penalty(self.grid(), self.spec_size(), x as nat),
                0 <= cols <= 7120 * x,
            decreases size - x,
        {
            let p = self.line_penalty_of(x, false);
            cols += p;
            x += 1;
        }
        let mut blocks: i32 = 0;
        let mut y: u8 = 0;
        while y < size - 1
            invariant
                self.wf(),
                size == self.size,
                y <= size - 1,
                blocks == blocks_count(self.grid(), self.spec_size(), y as nat),
                0 <= blocks <= 177 * y,
            decreases size - 1 - y,
        {
            let mut rowblocks: i32 = 0;
            let mut x: u8 = 0;
            while x < size - 1
                invariant
                    self.wf(),
                    size == self.size,
                    y < size - 1,
                    x <= size - 1,
                    rowblocks == blocks_in_row(self.grid(), y as int, x as nat),
                    0 <= rowblocks <= x,
                decreases size - 1 - x,
            {
                let color = self.get_module_bounded(x, y);
                if color == self.get_module_bounded(x + 1, y) && color == self.get_module_bounded(
                    x,
                    y + 1,
                ) && color == self.get_module_bounded(x + 1, y + 1) {
                    rowblocks += 1;
                }
                x += 1;
            }
            blocks += rowblocks;
            y += 1;
        }
        let mut dark: i32 = 0;
        let mut y: u8 = 0;
        while y < size
            invariant
                self.wf(),
                size == self.size,
                y <= size,
                dark == dark_count(self.grid(), self.spec_size(), y as nat),
                0 <= dark <= size * y,
                size * y <= 177 * 177,
            decreases size - y,
        {
            let mut rowdark: i32 = 0;
            let mut x: u8 = 0;
            while x < size
                invariant
                    self.wf(),
                    size == self.size,
                    y < size,
                    x <= size,
                    rowdark == dark_in_row(self.grid(), y as int, x as nat),
                    0 <= rowdark <= x,
                decreases size - x,
            {
                if self.get_module_bounded(x, y) {
                    rowdark += 1;
                }
                x += 1;
            }
            assert(size * y + size == size * (y + 1)) by (nonlinear_arith);
            assert(size * (y + 1) <= 177 * 177) by (nonlinear_arith)
                requires
                    y < size <= 177,
            ;
            dark += rowdark;
            y += 1;
        }
        assert(size as int * size as int <= 31329) by (nonlinear_arith)
            requires
                size <= 177,
        ;
        let total: i32 = size as i32 * size as i32;
        assert(441 <= total <= 31329) by (nonlinear_arith)
            requires
                21 <= size <= 177,
                total == size as i32 * size as i32,
        ;
        let d = dark * 20 - total * 10;
        let a = if d < 0 {
            -d
        } else {
            d
        };
        assert(0 <= a <= 20 * total);
        let q: i32 = (a + total - 1) / total;
        assert(q <= 21) by (nonlinear_arith)
            requires
                0 <= a <= 20 * total,
                total >= 441,
                q as int == (a + total - 1) as int / total as int,
        ;
        let k: i32 = q - 1;
        result + cols + blocks * 3 + k * 10
    }
}

} // verus!
