//! The playfield grid: 22 rows of 10 cells, row 0 the floor, rows indexed
//! upward. A cell holds 0 when empty, else the colour id of a baked piece.
//! The grid supports occupancy queries that fail closed out of bounds,
//! writing and clearing a piece's four cells, full-row detection, and the
//! collapse that removes eliminated rows and lets everything above fall.
use vstd::prelude::*;

verus! {

/// The playfield grid.
pub struct Playfield {
    pub field: [[u8; 10]; 22],
}

/// The mathematical view of a raw grid: a sequence of 22 rows, each a
/// sequence of 10 cell values.
pub open spec fn grid_of(f: [[u8; 10]; 22]) -> Seq<Seq<u8>> {
    Seq::new(22, |y: int| f@[y]@)
}

/// A well-formed grid view: 22 rows of 10 cells.
pub open spec fn grid_wf(g: Seq<Seq<u8>>) -> bool {
    &&& g.len() == 22
    &&& forall|y: int| 0 <= y < 22 ==> (#[trigger] g[y]).len() == 10
}

/// An all-empty row.
pub open spec fn zero_row() -> Seq<u8> {
    Seq::new(10, |x: int| 0u8)
}

/// The empty grid.
pub open spec fn empty_grid() -> Seq<Seq<u8>> {
    Seq::new(22, |y: int| zero_row())
}

/// Whether `(x, y)` counts as occupied: out-of-bounds coordinates fail
/// closed, in-bounds cells are occupied exactly when nonzero.
pub open spec fn occupied_spec(g: Seq<Seq<u8>>, x: int, y: int) -> bool {
    !(0 <= x < 10 && 0 <= y < 22) || g[y][x] != 0
}

/// Whether row `y` is fully occupied.
pub open spec fn row_full_spec(g: Seq<Seq<u8>>, y: int) -> bool {
    forall|x: int| 0 <= x < 10 ==> (#[trigger] g[y][x]) != 0
}

/// The full rows among rows `0 .. n`, in ascending order.
pub open spec fn full_rows_upto(g: Seq<Seq<u8>>, n: nat) -> Seq<usize>
    decreases n,
{
    if n == 0 {
        Seq::empty()
    } else if row_full_spec(g, n - 1) {
        full_rows_upto(g, (n - 1) as nat).push(((n - 1) as usize))
    } else {
        full_rows_upto(g, (n - 1) as nat)
    }
}

/// All full rows of the grid, ascending.
pub open spec fn full_rows_spec(g: Seq<Seq<u8>>) -> Seq<usize> {
    full_rows_upto(g, 22)
}

/// Whether some cell of `cs` lies at `(x, y)`.
pub open spec fn covered(cs: Seq<(i32, i32, i32)>, x: int, y: int) -> bool {
    exists|k: int| 0 <= k < cs.len() && cs[k].0 == x && cs[k].1 == y
}

/// Every cell of `cs` lies inside the grid.
pub open spec fn cells_in_bounds(cs: Seq<(i32, i32, i32)>) -> bool {
    forall|k: int|
        0 <= k < cs.len() ==> 0 <= (#[trigger] cs[k]).0 < 10 && 0 <= cs[k].1 < 22
}

/// The grid with value `v` written into every cell position of `cs` and all
/// other cells unchanged.
pub open spec fn write_cells_spec(g: Seq<Seq<u8>>, cs: Seq<(i32, i32, i32)>, v: u8) -> Seq<
    Seq<u8>,
> {
    Seq::new(
        g.len(),
        |y: int| Seq::new(g[y].len(), |x: int| if covered(cs, x, y) { v } else { g[y][x] }),
    )
}

/// The rows of `g` below `n` that are not listed in `rows`, in order.
pub open spec fn kept_rows_upto(g: Seq<Seq<u8>>, rows: Seq<usize>, n: nat) -> Seq<Seq<u8>>
    decreases n,
{
    if n == 0 {
        Seq::empty()
    } else if rows.contains(((n - 1) as usize)) {
        kept_rows_upto(g, rows, (n - 1) as nat)
    } else {
        kept_rows_upto(g, rows, (n - 1) as nat).push(g[n - 1])
    }
}

/// The grid after eliminating the rows listed in `rows`: the remaining rows
/// packed downward in order, with empty rows on top.
pub open spec fn collapse_spec(g: Seq<Seq<u8>>, rows: Seq<usize>) -> Seq<Seq<u8>> {
    let kept = kept_rows_upto(g, rows, 22);
    kept + Seq::new((22 - kept.len()) as nat, |y: int| zero_row())
}

/// With a four-cell sequence, coverage is the four-way disjunction.
pub proof fn lemma_covered_cases(cs: Seq<(i32, i32, i32)>, x: int, y: int)
    requires
        cs.len() == 4,
    ensures
        covered(cs, x, y) <==> ((cs[0].0 == x && cs[0].1 == y) || (cs[1].0 == x && cs[1].1 == y)
            || (cs[2].0 == x && cs[2].1 == y) || (cs[3].0 == x && cs[3].1 == y)),
{
    if covered(cs, x, y) {
        let k = choose|k: int| 0 <= k < cs.len() && cs[k].0 == x && cs[k].1 == y;
        assert(k == 0 || k == 1 || k == 2 || k == 3);
    }
    if (cs[0].0 == x && cs[0].1 == y) || (cs[1].0 == x && cs[1].1 == y) || (cs[2].0 == x
        && cs[2].1 == y) || (cs[3].0 == x && cs[3].1 == y) {
        if cs[0].0 == x && cs[0].1 == y {
            assert(0 <= 0 < cs.len() && cs[0].0 == x && cs[0].1 == y);
        } else if cs[1].0 == x && cs[1].1 == y {
            assert(0 <= 1 < cs.len() && cs[1].0 == x && cs[1].1 == y);
        } else if cs[2].0 == x && cs[2].1 == y {
            assert(0 <= 2 < cs.len() && cs[2].0 == x && cs[2].1 == y);
        } else {
            assert(0 <= 3 < cs.len() && cs[3].0 == x && cs[3].1 == y);
        }
    }
}

/// The full rows of rows `0 .. n`: all below `n`, listed in strictly
/// ascending order, and a row is listed exactly when it is full.
pub proof fn lemma_full_rows_upto_props(g: Seq<Seq<u8>>, n: nat)
    requires
        n <= 22,
    ensures
        forall|a: int|
            0 <= a < full_rows_upto(g, n).len() ==> (#[trigger] full_rows_upto(g, n)[a]) < n,
        forall|a: int, b: int|
            0 <= a < b < full_rows_upto(g, n).len() ==> full_rows_upto(g, n)[a] < full_rows_upto(
                g,
                n,
            )[b],
        forall|y: usize|
            #[trigger] full_rows_upto(g, n).contains(y) <==> (y < n && row_full_spec(g, y as int)),
    decreases n,
{
    if n > 0 {
        lemma_full_rows_upto_props(g, (n - 1) as nat);
        let prev = full_rows_upto(g, (n - 1) as nat);
        let cur = full_rows_upto(g, n);
        if row_full_spec(g, n - 1) {
            assert(cur == prev.push(((n - 1) as usize)));
            assert forall|a: int| 0 <= a < cur.len() implies (#[trigger] cur[a]) < n by {
                if a < prev.len() {
                    assert(cur[a] == prev[a]);
                } else {
                    assert(cur[a] == (n - 1) as usize);
                }
            }
            assert forall|a: int, b: int| 0 <= a < b < cur.len() implies cur[a] < cur[b] by {
                if b < prev.len() {
                    assert(cur[a] == prev[a] && cur[b] == prev[b]);
                } else {
                    assert(cur[b] == (n - 1) as usize);
                    assert(cur[a] == prev[a]);
                    assert(prev[a] < n - 1);
                }
            }
            assert forall|y: usize| #[trigger] cur.contains(y) implies (y < n && row_full_spec(
                g,
                y as int,
            )) by {
                let a = choose|a: int| 0 <= a < cur.len() && cur[a] == y;
                if a < prev.len() {
                    assert(prev[a] == y);
                    assert(prev.contains(y));
                } else {
                    assert(y == (n - 1) as usize);
                }
            }
            assert forall|y: usize| (y < n && row_full_spec(g, y as int)) implies #[trigger] cur
                .contains(y) by {
                if y < n - 1 {
                    assert(prev.contains(y));
                    let a = choose|a: int| 0 <= a < prev.len() && prev[a] == y;
                    assert(cur[a] == y);
                } else {
                    assert(cur[cur.len() - 1] == y);
                }
            }
        } else {
            assert(cur == prev);
            assert forall|y: usize| #[trigger] cur.contains(y) implies (y < n && row_full_spec(
                g,
                y as int,
            )) by {
                assert(prev.contains(y));
            }
            assert forall|y: usize| (y < n && row_full_spec(g, y as int)) implies #[trigger] cur
                .contains(y) by {
                assert(y != n - 1);
                assert(prev.contains(y));
                let a = choose|a: int| 0 <= a < prev.len() && prev[a] == y;
                assert(cur[a] == y);
            }
        }
    }
}

/// The full rows of the grid: all below 22, strictly ascending and without
/// duplicates, and a row is listed exactly when it is full.
pub proof fn lemma_full_rows_props(g: Seq<Seq<u8>>)
    ensures
        forall|a: int|
            0 <= a < full_rows_spec(g).len() ==> (#[trigger] full_rows_spec(g)[a]) < 22,
        forall|a: int, b: int|
            0 <= a < b < full_rows_spec(g).len() ==> full_rows_spec(g)[a] < full_rows_spec(g)[b],
        forall|y: usize|
            #[trigger] full_rows_spec(g).contains(y) <==> (y < 22 && row_full_spec(g, y as int)),
        full_rows_spec(g).no_duplicates(),
{
    lemma_full_rows_upto_props(g, 22);
}

/// Law: collapsing with no eliminated rows is a no-op; in particular a grid
/// with no full rows is unchanged by collapsing its (empty) list of full
/// rows.
pub proof fn lemma_collapse_no_full_rows(g: Seq<Seq<u8>>)
    requires
        grid_wf(g),
        forall|y: int| 0 <= y < 22 ==> !row_full_spec(g, y),
    ensures
        full_rows_spec(g) == Seq::<usize>::empty(),
        collapse_spec(g, full_rows_spec(g)) == g,
{
    lemma_full_rows_empty(g, 22);
    lemma_collapse_empty_rows(g, full_rows_spec(g));
}

/// With no full rows below `n`, no row is listed.
proof fn lemma_full_rows_empty(g: Seq<Seq<u8>>, n: nat)
    requires
        forall|y: int| 0 <= y < n ==> !row_full_spec(g, y),
    ensures
        full_rows_upto(g, n) == Seq::<usize>::empty(),
    decreases n,
{
    if n > 0 {
        lemma_full_rows_empty(g, (n - 1) as nat);
    }
}

/// Collapsing an empty row list keeps every row.
pub proof fn lemma_collapse_empty_rows(g: Seq<Seq<u8>>, rows: Seq<usize>)
    requires
        grid_wf(g),
        rows.len() == 0,
    ensures
        collapse_spec(g, rows) == g,
{
    lemma_kept_all(g, rows, 22);
    assert(kept_rows_upto(g, rows, 22) =~= g);
    assert(collapse_spec(g, rows) =~= g);
}

proof fn lemma_kept_all(g: Seq<Seq<u8>>, rows: Seq<usize>, n: nat)
    requires
        n <= 22,
        grid_wf(g),
        rows.len() == 0,
    ensures
        kept_rows_upto(g, rows, n) == g.take(n as int),
    decreases n,
{
    if n > 0 {
        lemma_kept_all(g, rows, (n - 1) as nat);
        assert(!rows.contains(((n - 1) as usize)));
        assert(kept_rows_upto(g, rows, n) =~= g.take(n as int));
    } else {
        assert(kept_rows_upto(g, rows, n) =~= g.take(n as int));
    }
}

/// Law: placing a piece's cells on empty positions and then clearing those
/// same cells restores the grid.
pub proof fn lemma_place_then_clear(g: Seq<Seq<u8>>, cs: Seq<(i32, i32, i32)>, v: u8)
    requires
        grid_wf(g),
        cells_in_bounds(cs),
        forall|k: int| 0 <= k < cs.len() ==> g[(#[trigger] cs[k]).1 as int][cs[k].0 as int] == 0,
    ensures
        write_cells_spec(write_cells_spec(g, cs, v), cs, 0) == g,
{
    let g1 = write_cells_spec(g, cs, v);
    let g2 = write_cells_spec(g1, cs, 0);
    assert forall|y: int| 0 <= y < 22 implies g2[y] =~= g[y] by {
        assert forall|x: int| 0 <= x < 10 implies g2[y][x] == g[y][x] by {
            if covered(cs, x, y) {
                let k = choose|k: int| 0 <= k < cs.len() && cs[k].0 == x && cs[k].1 == y;
                assert(g[y][x] == 0);
            }
        }
    }
    assert(g2 =~= g);
}

impl Playfield {
    /// The grid's mathematical view.
    pub open spec fn grid(&self) -> Seq<Seq<u8>> {
        grid_of(self.field)
    }

    /// An empty playfield.
    pub fn new() -> (r: Self)
        ensures
            r.grid() == empty_grid(),
    {
        let r = Playfield { field: [[0u8; 10]; 22] };
        proof {
            assert forall|y: int| 0 <= y < 22 implies r.grid()[y] =~= empty_grid()[y] by {}
            assert(r.grid() =~= empty_grid());
        }
        r
    }

    /// Occupancy query, failing closed out of bounds.
    pub fn is_occupied(&self, x: i32, y: i32) -> (r: bool)
        ensures
            r == occupied_spec(self.grid(), x as int, y as int),
    {
        if x < 0 || x >= 10 || y < 0 || y >= 22 {
            true
        } else {
            self.field[y as usize][x as usize] != 0
        }
    }

    /// Writes `v` into each of the four cells.
    fn write_cells(&mut self, cells: &[(i32, i32, i32); 4], v: u8)
        requires
            cells_in_bounds(cells@),
        ensures
            final(self).grid() == write_cells_spec(old(self).grid(), cells@, v),
    {
        let c0 = cells[0];
        let c1 = cells[1];
        let c2 = cells[2];
        let c3 = cells[3];
        self.field[c0.1 as usize][c0.0 as usize] = v;
        self.field[c1.1 as usize][c1.0 as usize] = v;
        self.field[c2.1 as usize][c2.0 as usize] = v;
        self.field[c3.1 as usize][c3.0 as usize] = v;
        proof {
            let gold = old(self).grid();
            let want = write_cells_spec(gold, cells@, v);
            assert forall|y: int| 0 <= y < 22 implies self.grid()[y] =~= want[y] by {
                assert forall|x: int| 0 <= x < 10 implies self.grid()[y][x] == (if covered(
                    cells@,
                    x,
                    y,
                ) {
                    v
                } else {
                    gold[y][x]
                }) by {
                    lemma_covered_cases(cells@, x, y);
                }
            }
            assert(self.grid() =~= want);
        }
    }

    /// Bakes a piece: writes `color` into each of the four cells, which must
    /// already have been validated in bounds.
    pub fn place(&mut self, cells: &[(i32, i32, i32); 4], color: u8)
        requires
            cells_in_bounds(cells@),
        ensures
            final(self).grid() == write_cells_spec(old(self).grid(), cells@, color),
    {
        self.write_cells(cells, color);
    }

    /// Lifts a piece: writes 0 into each of the four cells.
    pub fn clear(&mut self, cells: &[(i32, i32, i32); 4])
        requires
            cells_in_bounds(cells@),
        ensures
            final(self).grid() == write_cells_spec(old(self).grid(), cells@, 0),
    {
        self.write_cells(cells, 0);
    }

    /// Whether row `y` is fully occupied.
    fn row_full(&self, y: usize) -> (r: bool)
        requires
            y < 22,
        ensures
            r == row_full_spec(self.grid(), y as int),
    {
        let mut x: usize = 0;
        while x < 10
            invariant
                x <= 10,
                y < 22,
                forall|i: int| 0 <= i < x ==> (#[trigger] self.grid()[y as int][i]) != 0,
            decreases 10 - x,
        {
            if self.field[y][x] == 0 {
                proof {
                    assert(self.grid()[y as int][x as int] == 0);
                }
                return false;
            }
            x += 1;
        }
        true
    }

    /// The indices of all fully occupied rows, in ascending order.
    pub fn full_rows(&self) -> (r: Vec<usize>)
        ensures
            r@ == full_rows_spec(self.grid()),
    {
        let mut r: Vec<usize> = Vec::new();
        let mut y: usize = 0;
        while y < 22
            invariant
                y <= 22,
                r@ == full_rows_upto(self.grid(), y as nat),
            decreases 22 - y,
        {
            if self.row_full(y) {
                r.push(y);
            }
            y += 1;
        }
        r
    }

    /// Removes the rows listed in `rows`: the remaining rows pack downward
    /// in order and empty rows appear on top. The listed rows must be
    /// distinct and in range; their current content is discarded.
    pub fn collapse(&mut self, rows: &Vec<usize>)
        requires
            forall|k: int| 0 <= k < rows@.len() ==> (#[trigger] rows@[k]) < 22,
        ensures
            final(self).grid() == collapse_spec(old(self).grid(), rows@),
    {
        let mut out: [[u8; 10]; 22] = [[0u8; 10]; 22];
        let mut w: usize = 0;
        let mut y: usize = 0;
        proof {
            assert forall|j: int| 0 <= j < 22 implies grid_of(out)[j] =~= zero_row() by {}
        }
        while y < 22
            invariant
                w <= y <= 22,
                w as int == kept_rows_upto(self.grid(), rows@, y as nat).len(),
                grid_of(out).take(w as int) == kept_rows_upto(self.grid(), rows@, y as nat),
                forall|j: int| w <= j < 22 ==> grid_of(out)[j] == zero_row(),
            decreases 22 - y,
        {
            let ghost pre_out = grid_of(out);
            let ghost kept_pre = kept_rows_upto(self.grid(), rows@, y as nat);
            if !contains_row(rows, y) {
                out[w] = self.field[y];
                proof {
                    assert(grid_of(out)[w as int] =~= self.grid()[y as int]);
                    assert forall|j: int| 0 <= j < 22 && j != w implies grid_of(out)[j]
                        == pre_out[j] by {
                        assert(grid_of(out)[j] =~= pre_out[j]);
                    }
                }
                w += 1;
                proof {
                    assert forall|i: int|
                        0 <= i < w implies grid_of(out).take(w as int)[i] == kept_pre.push(
                        self.grid()[y as int],
                    )[i] by {
                        if i < w - 1 {
                            assert(grid_of(out)[i] == pre_out[i]);
                            assert(pre_out.take((w - 1) as int)[i] == pre_out[i]);
                        }
                    }
                    assert(grid_of(out).take(w as int) =~= kept_pre.push(self.grid()[y as int]));
                    assert forall|j: int| w <= j < 22 implies grid_of(out)[j] == zero_row() by {
                        assert(grid_of(out)[j] == pre_out[j]);
                        assert(pre_out[j] == zero_row());
                    }
                }
            }
            y += 1;
        }
        self.field = out;
        proof {
            let kept = kept_rows_upto(old(self).grid(), rows@, 22);
            assert(grid_of(out).take(w as int) == kept);
            assert forall|j: int| 0 <= j < 22 implies grid_of(out)[j] == collapse_spec(
                old(self).grid(),
                rows@,
            )[j] by {
                if j < w {
                    assert(grid_of(out).take(w as int)[j] == grid_of(out)[j]);
                }
            }
            assert(self.grid() =~= collapse_spec(old(self).grid(), rows@));
        }
    }
}

/// Whether `rows` lists `y`.
fn contains_row(rows: &Vec<usize>, y: usize) -> (r: bool)
    ensures
        r == rows@.contains(y),
{
    let mut k: usize = 0;
    while k < rows.len()
        invariant
            k <= rows@.len(),
            forall|j: int| 0 <= j < k ==> (#[trigger] rows@[j]) != y,
        decreases rows@.len() - k,
    {
        if rows[k] == y {
            return true;
        }
        k += 1;
    }
    false
}

} // verus!
