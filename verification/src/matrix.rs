//! Row/column key-matrix scanning with change detection.
//!
//! A matrix scan loop owns the column (output) and row (input) pins and a
//! grid of last-known cell states. It drives one column at a time, lets
//! the lines settle, reads every row, and publishes a [`KeyEvent`] for
//! exactly the cells whose debounced level changed — steady-state
//! scanning produces no traffic. [`MatrixScanner`] is the verified core
//! of that loop: it compares the freshly read levels of one column (or a
//! whole sweep) against the stored grid, updates the grid, and returns
//! the change events in scan order.

use vstd::prelude::*;

verus! {

/// A change notification for exactly one matrix cell: the cell at
/// (`row`, `col`) now reads `pressed`.
#[derive(Debug, Clone, Copy, PartialEq, Eq, Structural)]
pub struct KeyEvent {
    /// The cell's row index.
    pub row: u8,
    /// The cell's column index.
    pub col: u8,
    /// The cell's new debounced state.
    pub pressed: bool,
}

/// The events one column's fresh readings produce against its stored
/// states: one [`KeyEvent`] per changed cell, in row order.
pub open spec fn column_changes(oldc: Seq<bool>, newc: Seq<bool>, col: int) -> Seq<KeyEvent>
    recommends
        oldc.len() == newc.len(),
    decreases newc.len(),
{
    if newc.len() == 0 {
        Seq::empty()
    } else {
        let n = newc.len() - 1;
        column_changes(oldc.take(n), newc.take(n), col) + if oldc[n] != newc[n] {
            seq![KeyEvent { row: n as u8, col: col as u8, pressed: newc[n] }]
        } else {
            Seq::empty()
        }
    }
}

/// The events a whole sweep produces: the changed cells of every column,
/// columns in scan order, rows in row order within each column.
pub open spec fn sweep_changes(oldg: Seq<Seq<bool>>, newg: Seq<Seq<bool>>) -> Seq<KeyEvent>
    recommends
        oldg.len() == newg.len(),
    decreases newg.len(),
{
    if newg.len() == 0 {
        Seq::empty()
    } else {
        let c = newg.len() - 1;
        sweep_changes(oldg.take(c), newg.take(c)) + column_changes(oldg[c], newg[c], c)
    }
}

/// The sequence of column views of a grid of vectors.
pub open spec fn grid_view(g: Seq<Vec<bool>>) -> Seq<Seq<bool>> {
    g.map_values(|v: Vec<bool>| v@)
}

/// The stored cell states of one key matrix, column-major.
///
/// The grid starts all released; feeding it the levels read in a scan
/// yields exactly the change events and brings the grid up to date.
pub struct MatrixScanner {
    last_states: Vec<Vec<bool>>,
    rows: usize,
}

impl MatrixScanner {
    /// The stored grid: `grid()[c][r]` is the last-known state of the
    /// cell in column `c`, row `r`.
    pub closed spec fn grid(&self) -> Seq<Seq<bool>> {
        grid_view(self.last_states@)
    }

    /// The number of columns.
    pub closed spec fn cols(&self) -> int {
        self.last_states@.len() as int
    }

    /// The number of rows.
    pub closed spec fn rows(&self) -> int {
        self.rows as int
    }

    /// The grid is rectangular and its indices fit the `u8` fields of
    /// [`KeyEvent`].
    pub closed spec fn wf(&self) -> bool {
        &&& self.cols() <= 256
        &&& self.rows() <= 256
        &&& forall|c: int|
            0 <= c < self.last_states@.len() ==> (#[trigger] self.last_states@[c])@.len()
                == self.rows
    }

    /// A scanner for a `cols` x `rows` matrix with every cell released.
    /// The bounds keep row and column indices within the `u8` fields of
    /// [`KeyEvent`].
    pub fn new(cols: usize, rows: usize) -> (m: MatrixScanner)
        requires
            cols <= 256,
            rows <= 256,
        ensures
            m.wf(),
            m.cols() == cols,
            m.rows() == rows,
            forall|c: int| 0 <= c < cols ==> (#[trigger] m.grid()[c]).len() == rows,
            forall|c: int, r: int|
                0 <= c < cols && 0 <= r < rows ==> !(#[trigger] m.grid()[c][r]),
    {
        let mut last_states: Vec<Vec<bool>> = Vec::new();
        let mut c: usize = 0;
        while c < cols
            invariant
                c <= cols,
                last_states@.len() == c,
                forall|k: int|
                    0 <= k < c ==> (#[trigger] last_states@[k])@.len() == rows,
                forall|k: int, r: int|
                    0 <= k < c && 0 <= r < rows ==> !(#[trigger] last_states@[k]@[r]),
            decreases cols - c,
        {
            let mut column: Vec<bool> = Vec::new();
            let mut r: usize = 0;
            while r < rows
                invariant
                    r <= rows,
                    column@.len() == r,
                    forall|t: int| 0 <= t < r ==> !(#[trigger] column@[t]),
                decreases rows - r,
            {
                column.push(false);
                r += 1;
            }
            last_states.push(column);
            c += 1;
        }
        MatrixScanner { last_states, rows }
    }

    /// Compares the fresh readings of column `col` against the stored
    /// states, stores the readings, and returns one event per changed
    /// cell, in row order.
    pub fn scan_column(&mut self, col: usize, readings: &Vec<bool>) -> (evs: Vec<KeyEvent>)
        requires
            old(self).wf(),
            (col as int) < old(self).cols(),
            readings@.len() == old(self).rows(),
        ensures
            final(self).wf(),
            final(self).cols() == old(self).cols(),
            final(self).rows() == old(self).rows(),
            final(self).grid() == old(self).grid().update(col as int, readings@),
            evs@ == column_changes(old(self).grid()[col as int], readings@, col as int),
    {
        let rows = self.rows;
        let ghost oldc = self.last_states@[col as int]@;
        let mut evs: Vec<KeyEvent> = Vec::new();
        let mut newcol: Vec<bool> = Vec::new();
        let mut r: usize = 0;
        proof {
            assert(oldc.take(0int) =~= Seq::<bool>::empty());
            assert(readings@.take(0int) =~= Seq::<bool>::empty());
        }
        while r < rows
            invariant
                r <= rows,
                rows == self.rows,
                self == old(self),
                (col as int) < self.last_states@.len(),
                oldc == self.last_states@[col as int]@,
                oldc.len() == rows,
                readings@.len() == rows,
                col < 256,
                rows <= 256,
                newcol@ == readings@.take(r as int),
                evs@ == column_changes(oldc.take(r as int), readings@.take(r as int), col as int),
            decreases rows - r,
        {
            let stored = self.last_states[col][r];
            let fresh = readings[r];
            newcol.push(fresh);
            if fresh != stored {
                evs.push(KeyEvent { row: r as u8, col: col as u8, pressed: fresh });
            }
            proof {
                assert(oldc.take(r + 1 as int).take(r as int) =~= oldc.take(r as int));
                assert(readings@.take(r + 1 as int).take(r as int) =~= readings@.take(r as int));
                assert(oldc.take(r + 1 as int)[r as int] == stored);
                assert(readings@.take(r + 1 as int)[r as int] == fresh);
            }
            r += 1;
        }
        proof {
            assert(oldc.take(rows as int) =~= oldc);
            assert(readings@.take(rows as int) =~= readings@);
        }
        self.last_states.set(col, newcol);
        proof {
            assert(newcol@ == readings@);
            assert(self.grid() =~= old(self).grid().update(col as int, readings@));
        }
        evs
    }

    /// Applies the fresh readings of a whole sweep, column by column, and
    /// returns every change event in scan order.
    pub fn sweep(&mut self, readings: &Vec<Vec<bool>>) -> (evs: Vec<KeyEvent>)
        requires
            old(self).wf(),
            readings@.len() == old(self).cols(),
            forall|c: int|
                0 <= c < readings@.len() ==> (#[trigger] readings@[c])@.len() == old(
                    self,
                ).rows(),
        ensures
            final(self).wf(),
            final(self).cols() == old(self).cols(),
            final(self).rows() == old(self).rows(),
            final(self).grid() == grid_view(readings@),
            evs@ == sweep_changes(old(self).grid(), grid_view(readings@)),
    {
        let ghost oldg = old(self).grid();
        let ghost newg = grid_view(readings@);
        let cols = self.last_states.len();
        let mut evs: Vec<KeyEvent> = Vec::new();
        let mut c: usize = 0;
        proof {
            assert(oldg.take(0int) =~= Seq::<Seq<bool>>::empty());
            assert(newg.take(0int) =~= Seq::<Seq<bool>>::empty());
        }
        while c < cols
            invariant
                c <= cols,
                cols == self.last_states@.len(),
                self.wf(),
                self.rows() == old(self).rows(),
                oldg == old(self).grid(),
                newg == grid_view(readings@),
                oldg.len() == cols,
                newg.len() == cols,
                readings@.len() == cols,
                forall|k: int|
                    0 <= k < cols ==> (#[trigger] readings@[k])@.len() == self.rows(),
                forall|k: int| c <= k < cols ==> #[trigger] self.grid()[k] == oldg[k],
                forall|k: int| 0 <= k < c ==> #[trigger] self.grid()[k] == newg[k],
                evs@ == sweep_changes(oldg.take(c as int), newg.take(c as int)),
            decreases cols - c,
        {
            let mut col_evs = self.scan_column(c, &readings[c]);
            evs.append(&mut col_evs);
            proof {
                assert(oldg.take(c + 1 as int).take(c as int) =~= oldg.take(c as int));
                assert(newg.take(c + 1 as int).take(c as int) =~= newg.take(c as int));
                assert(oldg.take(c + 1 as int)[c as int] == oldg[c as int]);
                assert(newg.take(c + 1 as int)[c as int] == newg[c as int]);
            }
            c += 1;
        }
        proof {
            assert(oldg.take(cols as int) =~= oldg);
            assert(newg.take(cols as int) =~= newg);
            assert(self.grid() =~= newg);
        }
        evs
    }
}

/// Identical readings produce no event at all for a column.
proof fn lemma_column_changes_same(c: Seq<bool>, col: int)
    ensures
        column_changes(c, c, col) == Seq::<KeyEvent>::empty(),
    decreases c.len(),
{
    if c.len() > 0 {
        lemma_column_changes_same(c.take(c.len() - 1), col);
        assert(column_changes(c, c, col) =~= Seq::<KeyEvent>::empty());
    }
}

/// A column whose readings differ from the stored states in exactly one
/// row produces exactly the event for that row.
proof fn lemma_column_changes_single(oldc: Seq<bool>, newc: Seq<bool>, col: int, r: int)
    requires
        oldc.len() == newc.len(),
        0 <= r < newc.len(),
        newc[r] != oldc[r],
        forall|t: int| 0 <= t < newc.len() && t != r ==> #[trigger] newc[t] == oldc[t],
    ensures
        column_changes(oldc, newc, col) == seq![
            KeyEvent { row: r as u8, col: col as u8, pressed: newc[r] },
        ],
    decreases newc.len(),
{
    let n = newc.len() - 1;
    if r == n {
        assert(oldc.take(n) =~= newc.take(n));
        lemma_column_changes_same(newc.take(n), col);
        assert(column_changes(oldc, newc, col) =~= seq![
            KeyEvent { row: r as u8, col: col as u8, pressed: newc[r] },
        ]);
    } else {
        lemma_column_changes_single(oldc.take(n), newc.take(n), col, r);
        assert(oldc[n] == newc[n]);
        assert(column_changes(oldc, newc, col) =~= seq![
            KeyEvent { row: r as u8, col: col as u8, pressed: newc[r] },
        ]);
    }
}

/// **Steady state is silent.** A sweep whose readings equal the stored
/// grid produces no event for any cell.
pub proof fn lemma_sweep_changes_same(g: Seq<Seq<bool>>)
    ensures
        sweep_changes(g, g) == Seq::<KeyEvent>::empty(),
    decreases g.len(),
{
    if g.len() > 0 {
        lemma_sweep_changes_same(g.take(g.len() - 1));
        lemma_column_changes_same(g[g.len() - 1], g.len() - 1);
        assert(sweep_changes(g, g) =~= Seq::<KeyEvent>::empty());
    }
}

/// **One changed cell, one event.** If between two sweeps exactly one
/// cell's state changed, the sweep produces exactly one event, for that
/// (row, col), carrying the cell's new state; every unchanged cell
/// produces none.
pub proof fn lemma_sweep_changes_single(
    oldg: Seq<Seq<bool>>,
    newg: Seq<Seq<bool>>,
    c: int,
    r: int,
)
    requires
        oldg.len() == newg.len(),
        forall|k: int| 0 <= k < newg.len() ==> (#[trigger] newg[k]).len() == oldg[k].len(),
        0 <= c < newg.len(),
        0 <= r < newg[c].len(),
        newg[c][r] != oldg[c][r],
        forall|k: int, t: int|
            0 <= k < newg.len() && 0 <= t < newg[k].len() && !(k == c && t == r)
                ==> #[trigger] newg[k][t] == oldg[k][t],
    ensures
        sweep_changes(oldg, newg) == seq![
            KeyEvent { row: r as u8, col: c as u8, pressed: newg[c][r] },
        ],
    decreases newg.len(),
{
    let n = newg.len() - 1;
    let ev = KeyEvent { row: r as u8, col: c as u8, pressed: newg[c][r] };
    if c == n {
        assert forall|k: int| 0 <= k < n implies #[trigger] oldg.take(n)[k] == newg.take(
            n,
        )[k] by {
            assert(oldg[k] =~= newg[k]);
        }
        assert(oldg.take(n) =~= newg.take(n));
        lemma_sweep_changes_same(newg.take(n));
        lemma_column_changes_single(oldg[n], newg[n], n, r);
        assert(sweep_changes(oldg, newg) =~= seq![ev]);
    } else {
        assert(oldg[n] =~= newg[n]);
        lemma_column_changes_same(newg[n], n);
        assert(column_changes(oldg[n], newg[n], n) == Seq::<KeyEvent>::empty());
        lemma_sweep_changes_single(oldg.take(n), newg.take(n), c, r);
        assert(sweep_changes(oldg, newg) =~= seq![ev]);
    }
}

/// The matrix-cell adapter: a logical button bound to one (row, col) that
/// reads the bus's [`KeyEvent`]s and reacts only to its own cell.
pub struct MatrixButton {
    row: u8,
    col: u8,
}

impl MatrixButton {
    /// The cell's row index.
    pub closed spec fn row(&self) -> u8 {
        self.row
    }

    /// The cell's column index.
    pub closed spec fn col(&self) -> u8 {
        self.col
    }

    /// An adapter for the cell at (`row`, `col`).
    pub fn new(row: u8, col: u8) -> (b: MatrixButton)
        ensures
            b.row() == row,
            b.col() == col,
    {
        MatrixButton { row, col }
    }

    /// Is this the press notification of this adapter's own cell?
    pub fn matches_press(&self, ev: KeyEvent) -> (r: bool)
        ensures
            r == (ev.row == self.row() && ev.col == self.col() && ev.pressed),
    {
        ev.row == self.row && ev.col == self.col && ev.pressed
    }

    /// Is this the release notification of this adapter's own cell?
    pub fn matches_release(&self, ev: KeyEvent) -> (r: bool)
        ensures
            r == (ev.row == self.row() && ev.col == self.col() && !ev.pressed),
    {
        ev.row == self.row && ev.col == self.col && !ev.pressed
    }
}

} // verus!
