//! The simulation engine: a `Universe` owns the packed grid, advances it one
//! generation per `tick`, and records which cells changed so a renderer can
//! repaint only those.

use vstd::prelude::*;
use vstd::string::StringExecFns;

use crate::bitset::bits_clone;
use crate::bitset::bits_get;
use crate::bitset::bits_len;
use crate::bitset::bits_new;
use crate::bitset::bits_of;
use crate::bitset::bits_set;
use crate::bitset::bits_toggle;
use crate::bitset::bits_as_slice;
use crate::life::cell_index;
use crate::life::neighbor_count;
use crate::life::next_cell;
use crate::life::next_gen;

verus! {

/// One cell whose state differed between two adjacent generations: its
/// position and its new state.
#[derive(Clone, Copy, Debug, PartialEq, Eq, Structural)]
pub struct Change {
    pub row: u32,
    pub col: u32,
    pub state: bool,
}

impl Change {
    pub fn row(&self) -> (r: u32)
        ensures
            r == self.row,
    {
        self.row
    }

    pub fn col(&self) -> (r: u32)
        ensures
            r == self.col,
    {
        self.col
    }

    pub fn state(&self) -> (r: bool)
        ensures
            r == self.state,
    {
        self.state
    }
}

/// The repaint records for the whole of grid `g` (width `w`), one per cell in
/// row-major order, each carrying the cell's current state.
pub open spec fn repaint_changes(g: Seq<bool>, w: nat) -> Seq<Change> {
    Seq::new(
        g.len(),
        |i: int|
            Change {
                row: (i / w as int) as u32,
                col: (i % w as int) as u32,
                state: g[i],
            },
    )
}

/// The change records a tick appends, scanning the first `k` cells in
/// row-major order: one record per cell whose state differs between `old_g`
/// and `new_g`, carrying the new state.
pub open spec fn diff_changes(old_g: Seq<bool>, new_g: Seq<bool>, w: nat, k: nat) -> Seq<Change>
    decreases k,
{
    if k == 0 {
        Seq::empty()
    } else {
        let prev = diff_changes(old_g, new_g, w, (k - 1) as nat);
        let i = k - 1;
        if new_g[i] != old_g[i] {
            prev.push(
                Change {
                    row: (i / w as int) as u32,
                    col: (i % w as int) as u32,
                    state: new_g[i],
                },
            )
        } else {
            prev
        }
    }
}

/// A grid of `n` dead cells.
pub open spec fn dead_grid(n: nat) -> Seq<bool> {
    Seq::new(n, |i: int| false)
}

pub struct Universe {
    width: u32,
    height: u32,
    cells: fixedbitset::FixedBitSet,
    old_cells: fixedbitset::FixedBitSet,
    changes: Vec<Change>,
}

impl Universe {
    /// The grid width, in cells.
    pub closed spec fn spec_width(&self) -> nat {
        self.width as nat
    }

    /// The grid height, in cells.
    pub closed spec fn spec_height(&self) -> nat {
        self.height as nat
    }

    /// The current generation, one boolean per cell in row-major order.
    pub closed spec fn grid(&self) -> Seq<bool> {
        bits_of(self.cells)
    }

    /// The pending change records, oldest first.
    pub closed spec fn changes_seq(&self) -> Seq<Change> {
        self.changes@
    }

    /// Well-formedness: the grid holds exactly one bit per cell, and the
    /// cell count fits the index arithmetic.
    pub open spec fn wf(&self) -> bool {
        &&& self.grid().len() == self.spec_width() * self.spec_height()
        &&& self.spec_width() * self.spec_height() <= u32::MAX
    }

    /// A fresh universe of the given dimensions with every cell dead, and a
    /// full-repaint record for every cell already pending so a renderer
    /// paints the initial state.
    pub fn new(width: u32, height: u32) -> (r: Universe)
        requires
            width * height <= u32::MAX,
        ensures
            r.wf(),
            r.spec_width() == width,
            r.spec_height() == height,
            r.grid() == dead_grid((width * height) as nat),
            r.changes_seq() == repaint_changes(dead_grid((width * height) as nat), width as nat),
    {
        let size: usize = (width * height) as usize;
        let cells = bits_new(size);
        let old_cells = bits_clone(&cells);
        let mut changes: Vec<Change> = Vec::new();
        proof {
            if width == 0 {
                assert(width * height == 0);
            }
        }
        push_repaint(&mut changes, &cells, width);
        proof {
            assert(bits_of(cells) =~= dead_grid((width * height) as nat));
        }
        Universe { width, height, cells, old_cells, changes }
    }

    pub fn width(&self) -> (r: u32)
        ensures
            r == self.spec_width(),
    {
        self.width
    }

    pub fn height(&self) -> (r: u32)
        ensures
            r == self.spec_height(),
    {
        self.height
    }

    /// Row-major index of `(row, col)` in the packed grid.
    fn get_index(&self, row: u32, col: u32) -> (r: usize)
        requires
            self.spec_width() * self.spec_height() <= u32::MAX,
            row < self.spec_height(),
            col < self.spec_width(),
        ensures
            r == cell_index(self.spec_width(), row as nat, col as nat),
            r < self.spec_width() * self.spec_height(),
    {
        proof {
            assert(row * self.width + col < self.width * self.height) by (nonlinear_arith)
                requires
                    row < self.height,
                    col < self.width,
            ;
        }
        (row * self.width + col) as usize
    }

    /// How many of the 8 toroidal neighbors of `(row, col)` are alive,
    /// judged against the pre-tick snapshot.
    #[verifier::rlimit(50)]
    fn live_neighbor_count(&self, row: u32, col: u32) -> (r: u8)
        requires
            self.spec_width() * self.spec_height() <= u32::MAX,
            bits_of(self.old_cells).len() == self.spec_width() * self.spec_height(),
            row < self.spec_height(),
            col < self.spec_width(),
        ensures
            r == neighbor_count(
                bits_of(self.old_cells),
                self.spec_width(),
                self.spec_height(),
                row as nat,
                col as nat,
            ),
    {
        let mut count: u8 = 0;

        let north = if row == 0 {
            self.height - 1
        } else {
            row - 1
        };

        let south = if row == self.height - 1 {
            0
        } else {
            row + 1
        };

        let west = if col == 0 {
            self.width - 1
        } else {
            col - 1
        };

        let east = if col == self.width - 1 {
            0
        } else {
            col + 1
        };

        let nw = self.get_index(north, west);
        count += if bits_get(&self.old_cells, nw) {
            1
        } else {
            0
        };

        let n = self.get_index(north, col);
        count += if bits_get(&self.old_cells, n) {
            1
        } else {
            0
        };

        let ne = self.get_index(north, east);
        count += if bits_get(&self.old_cells, ne) {
            1
        } else {
            0
        };

        let w = self.get_index(row, west);
        count += if bits_get(&self.old_cells, w) {
            1
        } else {
            0
        };

        let e = self.get_index(row, east);
        count += if bits_get(&self.old_cells, e) {
            1
        } else {
            0
        };

        let sw = self.get_index(south, west);
        count += if bits_get(&self.old_cells, sw) {
            1
        } else {
            0
        };

        let s = self.get_index(south, col);
        count += if bits_get(&self.old_cells, s) {
            1
        } else {
            0
        };

        let se = self.get_index(south, east);
        count += if bits_get(&self.old_cells, se) {
            1
        } else {
            0
        };

        count
    }

    /// Advances the grid exactly one generation: every cell's next state is
    /// judged against a snapshot of the pre-tick grid, and one change record
    /// per cell that flipped is appended, in row-major scan order.
    pub fn tick(&mut self)
        requires
            old(self).wf(),
        ensures
            final(self).wf(),
            final(self).spec_width() == old(self).spec_width(),
            final(self).spec_height() == old(self).spec_height(),
            final(self).grid() == next_gen(
                old(self).grid(),
                old(self).spec_width(),
                old(self).spec_height(),
            ),
            final(self).changes_seq() == old(self).changes_seq() + diff_changes(
                old(self).grid(),
                next_gen(old(self).grid(), old(self).spec_width(), old(self).spec_height()),
                old(self).spec_width(),
                old(self).spec_width() * old(self).spec_height(),
            ),
    {
        let snapshot = bits_clone(&self.cells);
        self.old_cells = snapshot;

        let ghost og: Seq<bool> = bits_of(self.old_cells);
        let ghost w: nat = self.spec_width();
        let ghost h: nat = self.spec_height();
        let ghost target: Seq<bool> = next_gen(og, w, h);
        let ghost base: Seq<Change> = self.changes@;

        let mut row: u32 = 0;
        while row < self.height
            invariant
                self.width as nat == w,
                self.height as nat == h,
                w * h <= u32::MAX,
                bits_of(self.old_cells) == og,
                og.len() == w * h,
                bits_of(self.cells).len() == w * h,
                target == next_gen(og, w, h),
                row <= h,
                forall|i: int|
                    0 <= i < row * w ==> bits_of(self.cells)[i] == target[i],
                forall|i: int|
                    row * w <= i < w * h ==> bits_of(self.cells)[i] == og[i],
                self.changes@ == base + diff_changes(og, target, w, (row * w) as nat),
            decreases h - row,
        {
            proof {
                assert(row * w <= w * h) by (nonlinear_arith)
                    requires
                        0 <= row < h,
                        0 <= w,
                ;
            }
            let mut col: u32 = 0;
            while col < self.width
                invariant
                    self.width as nat == w,
                    self.height as nat == h,
                    w * h <= u32::MAX,
                    bits_of(self.old_cells) == og,
                    og.len() == w * h,
                    bits_of(self.cells).len() == w * h,
                    target == next_gen(og, w, h),
                    row < h,
                    col <= w,
                    row * w + col <= w * h,
                    forall|i: int|
                        0 <= i < row * w + col ==> bits_of(self.cells)[i] == target[i],
                    forall|i: int|
                        row * w + col <= i < w * h ==> bits_of(self.cells)[i] == og[i],
                    self.changes@ == base + diff_changes(og, target, w, (row * w + col) as nat),
                decreases w - col,
            {
                let idx = self.get_index(row, col);
                let cell = bits_get(&self.cells, idx);
                let live_neighbors = self.live_neighbor_count(row, col);

                let next = if cell {
                    if live_neighbors < 2 {
                        // Rule 1: underpopulation.
                        false
                    } else if live_neighbors <= 3 {
                        // Rule 2: stasis with two or three live neighbors.
                        true
                    } else {
                        // Rule 3: overpopulation.
                        false
                    }
                } else {
                    // Rule 4: reproduction with exactly three live neighbors.
                    live_neighbors == 3
                };

                proof {
                    assert((row * w + col) / (w as int) == row && (row * w + col) % (
                    w as int
                    ) == col) by (nonlinear_arith)
                        requires
                            0 <= col < w,
                            0 <= row,
                    ;
                    assert(target[idx as int] == next_cell(
                        og[idx as int],
                        neighbor_count(og, w, h, row as nat, col as nat),
                    ));
                    assert(next == target[idx as int]);
                }

                bits_set(&mut self.cells, idx, next);

                if next != cell {
                    self.changes.push(Change { row, col, state: next });
                }

                proof {
                    let k = (row * w + col) as nat;
                    assert(diff_changes(og, target, w, (k + 1) as nat) == if target[k as int]
                        != og[k as int] {
                        diff_changes(og, target, w, k).push(
                            Change {
                                row: ((k as int) / (w as int)) as u32,
                                col: ((k as int) % (w as int)) as u32,
                                state: target[k as int],
                            },
                        )
                    } else {
                        diff_changes(og, target, w, k)
                    });
                }

                col = col + 1;
            }
            proof {
                assert(row * w + w == (row + 1) * w) by (nonlinear_arith);
            }
            row = row + 1;
        }
        proof {
            assert(h * w == w * h) by (nonlinear_arith);
            assert(bits_of(self.cells) =~= target);
        }
    }

    /// The pending change records, oldest first. The caller drains them with
    /// `free_changes` once applied.
    pub fn get_changes(&self) -> (r: &Vec<Change>)
        ensures
            r@ == self.changes_seq(),
    {
        &self.changes
    }

    /// How many change records are pending.
    pub fn get_changes_len(&self) -> (r: usize)
        ensures
            r == self.changes_seq().len(),
    {
        self.changes.len()
    }

    /// Drains the change list; the grid itself is untouched.
    pub fn free_changes(&mut self)
        ensures
            final(self).changes_seq() == Seq::<Change>::empty(),
            final(self).grid() == old(self).grid(),
            final(self).spec_width() == old(self).spec_width(),
            final(self).spec_height() == old(self).spec_height(),
    {
        self.changes.clear();
    }

    /// Flips the cell at `(row, col)` and appends one change record carrying
    /// the cell's new state.
    pub fn toggle_cell(&mut self, row: u32, col: u32)
        requires
            old(self).wf(),
            row < old(self).spec_height(),
            col < old(self).spec_width(),
        ensures
            final(self).wf(),
            final(self).spec_width() == old(self).spec_width(),
            final(self).spec_height() == old(self).spec_height(),
            final(self).grid() == old(self).grid().update(
                cell_index(old(self).spec_width(), row as nat, col as nat),
                !old(self).grid()[cell_index(old(self).spec_width(), row as nat, col as nat)],
            ),
            final(self).changes_seq() == old(self).changes_seq().push(
                Change {
                    row,
                    col,
                    state: !old(self).grid()[cell_index(
                        old(self).spec_width(),
                        row as nat,
                        col as nat,
                    )],
                },
            ),
    {
        let idx = self.get_index(row, col);
        bits_toggle(&mut self.cells, idx);
        let state = bits_get(&self.cells, idx);
        self.changes.push(Change { row, col, state });
    }

    /// Re-rolls every cell from the supplied booleans, one per cell in
    /// row-major order (the caller's source of randomness), and appends one
    /// repaint record per cell so a renderer repaints the whole grid.
    pub fn randomize(&mut self, bits: &[bool])
        requires
            old(self).wf(),
            bits@.len() == old(self).spec_width() * old(self).spec_height(),
        ensures
            final(self).wf(),
            final(self).spec_width() == old(self).spec_width(),
            final(self).spec_height() == old(self).spec_height(),
            final(self).grid() == bits@,
            final(self).changes_seq() == old(self).changes_seq() + repaint_changes(
                bits@,
                old(self).spec_width(),
            ),
    {
        let ghost w: nat = self.spec_width();
        let ghost base: Seq<Change> = self.changes@;
        let n = bits_len(&self.cells);
        proof {
            if self.width == 0 {
                assert(w * self.spec_height() == 0) by (nonlinear_arith)
                    requires
                        w == 0,
                ;
            }
            let rp = repaint_changes(bits@, w);
            assert(rp.take(0) =~= Seq::<Change>::empty());
            assert(base + rp.take(0) =~= base);
        }
        let mut i: usize = 0;
        while i < n
            invariant
                self.spec_width() == w,
                n == bits@.len(),
                n <= u32::MAX,
                w > 0 || n == 0,
                bits_of(self.cells).len() == n,
                i <= n,
                forall|j: int| 0 <= j < i ==> bits_of(self.cells)[j] == bits@[j],
                forall|j: int| i <= j < n ==> bits_of(self.cells)[j] == old(self).grid()[j],
                self.changes@ == base + repaint_changes(bits@, w).take(i as int),
                self.height == old(self).height,
                self.old_cells == old(self).old_cells,
            decreases n - i,
        {
            let state = bits[i];
            bits_set(&mut self.cells, i, state);
            let iw = i as u32;
            self.changes.push(Change { row: iw / self.width, col: iw % self.width, state });
            proof {
                let rp = repaint_changes(bits@, w);
                assert(rp.take(i + 1) =~= rp.take(i as int).push(rp[i as int]));
            }
            i = i + 1;
        }
        proof {
            assert(bits_of(self.cells) =~= bits@);
            assert(repaint_changes(bits@, w).take(n as int) =~= repaint_changes(bits@, w));
        }
    }

    /// Sets every cell dead and appends one repaint record per cell,
    /// regardless of the prior state, so a renderer that cannot diff cheaply
    /// repaints the whole grid.
    pub fn clear(&mut self)
        requires
            old(self).wf(),
        ensures
            final(self).wf(),
            final(self).spec_width() == old(self).spec_width(),
            final(self).spec_height() == old(self).spec_height(),
            final(self).grid() == dead_grid(
                old(self).spec_width() * old(self).spec_height(),
            ),
            final(self).changes_seq() == old(self).changes_seq() + repaint_changes(
                dead_grid(old(self).spec_width() * old(self).spec_height()),
                old(self).spec_width(),
            ),
    {
        proof {
            if self.width == 0 {
                assert(self.spec_width() * self.spec_height() == 0) by (nonlinear_arith)
                    requires
                        self.spec_width() == 0,
                ;
            }
        }
        let size: usize = (self.width * self.height) as usize;
        self.cells = bits_new(size);
        proof {
            assert(bits_of(self.cells) =~= dead_grid(
                old(self).spec_width() * old(self).spec_height(),
            ));
        }
        push_repaint(&mut self.changes, &self.cells, self.width);
    }

    /// Marks each listed `(row, col)` coordinate alive; no other cell and no
    /// change record is touched.
    pub fn set_cells(&mut self, cells: &[(u32, u32)])
        requires
            old(self).wf(),
            forall|i: int|
                0 <= i < cells@.len() ==> (#[trigger] cells@[i]).0 < old(self).spec_height()
                    && cells@[i].1 < old(self).spec_width(),
        ensures
            final(self).wf(),
            final(self).spec_width() == old(self).spec_width(),
            final(self).spec_height() == old(self).spec_height(),
            final(self).grid() == set_alive(old(self).grid(), old(self).spec_width(), cells@),
            final(self).changes_seq() == old(self).changes_seq(),
    {
        let ghost w: nat = self.spec_width();
        let mut i: usize = 0;
        while i < cells.len()
            invariant
                self.spec_width() == w,
                self.height == old(self).height,
                self.old_cells == old(self).old_cells,
                self.changes@ == old(self).changes@,
                w * self.spec_height() <= u32::MAX,
                bits_of(self.cells).len() == w * self.spec_height(),
                i <= cells@.len(),
                forall|j: int|
                    0 <= j < cells@.len() ==> (#[trigger] cells@[j]).0 < self.spec_height()
                        && cells@[j].1 < w,
                bits_of(self.cells) == set_alive(old(self).grid(), w, cells@.take(i as int)),
            decreases cells@.len() - i,
        {
            let (row, col) = cells[i];
            let idx = self.get_index(row, col);
            bits_set(&mut self.cells, idx, true);
            proof {
                assert(cells@.take(i + 1).drop_last() =~= cells@.take(i as int));
                assert(cells@.take(i + 1).last() == cells@[i as int]);
            }
            i = i + 1;
        }
        proof {
            assert(cells@.take(cells@.len() as int) =~= cells@);
        }
    }

    /// Sets the grid width and reinitializes every cell to dead; the resize
    /// is destructive, no prior content survives.
    pub fn set_width(&mut self, width: u32)
        requires
            old(self).wf(),
            width * old(self).spec_height() <= u32::MAX,
        ensures
            final(self).wf(),
            final(self).spec_width() == width,
            final(self).spec_height() == old(self).spec_height(),
            final(self).grid() == dead_grid(width as nat * old(self).spec_height()),
            final(self).changes_seq() == old(self).changes_seq(),
    {
        self.width = width;
        let size: usize = (self.width * self.height) as usize;
        self.cells = bits_new(size);
        proof {
            assert(bits_of(self.cells) =~= dead_grid(width as nat * old(self).spec_height()));
        }
    }

    /// Sets the grid height and reinitializes every cell to dead; the resize
    /// is destructive, no prior content survives.
    pub fn set_height(&mut self, height: u32)
        requires
            old(self).wf(),
            old(self).spec_width() * height <= u32::MAX,
        ensures
            final(self).wf(),
            final(self).spec_width() == old(self).spec_width(),
            final(self).spec_height() == height,
            final(self).grid() == dead_grid(old(self).spec_width() * height as nat),
            final(self).changes_seq() == old(self).changes_seq(),
    {
        self.height = height;
        let size: usize = (self.width * self.height) as usize;
        self.cells = bits_new(size);
        proof {
            assert(bits_of(self.cells) =~= dead_grid(old(self).spec_width() * height as nat));
        }
    }

    /// A textual dump of the current generation: one line per row, top to
    /// bottom, one glyph per cell, `#` for alive and `.` for dead.
    pub fn render(&self) -> (r: String)
        requires
            self.wf(),
        ensures
            r@ == render_grid(self.grid(), self.spec_width(), self.spec_height()),
    {
        let ghost g: Seq<bool> = self.grid();
        let ghost w: nat = self.spec_width();
        let ghost h: nat = self.spec_height();
        let mut s = String::new();
        let mut row: u32 = 0;
        while row < self.height
            invariant
                self.spec_width() == w,
                self.spec_height() == h,
                self.grid() == g,
                g.len() == w * h,
                w * h <= u32::MAX,
                row <= h,
                s@ == render_grid(g, w, row as nat),
            decreases h - row,
        {
            proof {
                assert(row * w <= w * h) by (nonlinear_arith)
                    requires
                        0 <= row < h,
                        0 <= w,
                ;
            }
            let ghost row_start: Seq<char> = s@;
            let mut col: u32 = 0;
            while col < self.width
                invariant
                    self.spec_width() == w,
                    self.spec_height() == h,
                    self.grid() == g,
                    g.len() == w * h,
                    w * h <= u32::MAX,
                    row < h,
                    col <= w,
                    row * w + col <= w * h,
                    s@ == row_start + Seq::new(col as nat, |c: int| glyph(g[row * w + c])),
                decreases w - col,
            {
                let idx = self.get_index(row, col);
                if bits_get(&self.cells, idx) {
                    s.append("#");
                } else {
                    s.append(".");
                }
                proof {
                    reveal_strlit("#");
                    reveal_strlit(".");
                    assert(Seq::new((col + 1) as nat, |c: int| glyph(g[row * w + c])) =~= Seq::new(
                        col as nat,
                        |c: int| glyph(g[row * w + c]),
                    ).push(glyph(g[row * w + col])));
                }
                col = col + 1;
            }
            s.append("\n");
            proof {
                reveal_strlit("\n");
                assert(s@ =~= render_grid(g, w, (row + 1) as nat));
            }
            row = row + 1;
        }
        s
    }

    /// The packed bit buffer of the current generation, as `u32` blocks:
    /// cell `i` of the row-major order is bit `i % 32` of block `i / 32`.
    pub fn get_cells(&self) -> (r: &[u32])
        ensures
            r@.len() == (self.grid().len() + 31) / 32,
            forall|i: int|
                0 <= i < self.grid().len() ==> self.grid()[i] == ((r@[i / 32] >> (
                (i % 32) as u32
                )) & 1u32 == 1u32),
    {
        bits_as_slice(&self.cells)
    }
}

/// The glyph `render` prints for one cell.
pub open spec fn glyph(alive: bool) -> char {
    if alive {
        '#'
    } else {
        '.'
    }
}

/// One rendered row of grid `g` (width `w`): a glyph per cell, then a
/// newline.
pub open spec fn render_row(g: Seq<bool>, w: nat, row: nat) -> Seq<char> {
    Seq::new(w, |c: int| glyph(g[row * w + c])) + seq!['\n']
}

/// The full rendering of grid `g`: its `h` rows, top to bottom.
pub open spec fn render_grid(g: Seq<bool>, w: nat, h: nat) -> Seq<char>
    decreases h,
{
    if h == 0 {
        Seq::empty()
    } else {
        render_grid(g, w, (h - 1) as nat) + render_row(g, w, (h - 1) as nat)
    }
}

/// Full-repaint law: a repaint emits exactly one change record per cell of
/// the grid it covers, so `clear` and `randomize` on a `width * height` grid
/// append exactly `width * height` records.
pub proof fn lemma_repaint_count(g: Seq<bool>, w: nat)
    ensures
        repaint_changes(g, w).len() == g.len(),
{
}

/// Drain law: a drained change list holds no records, and what a following
/// operation appends to it is exactly that operation's own records, so the
/// list accumulates from empty.
pub proof fn lemma_drain_restart(pending: Seq<Change>, fresh: Seq<Change>)
    requires
        pending == Seq::<Change>::empty(),
    ensures
        pending.len() == 0,
        pending + fresh == fresh,
{
    assert(pending + fresh =~= fresh);
}

/// Grid `g` (width `w`) with the cell at each listed `(row, col)` coordinate
/// marked alive, applied in order; every other cell keeps its state.
pub open spec fn set_alive(g: Seq<bool>, w: nat, coords: Seq<(u32, u32)>) -> Seq<bool>
    decreases coords.len(),
{
    if coords.len() == 0 {
        g
    } else {
        let c = coords.last();
        set_alive(g, w, coords.drop_last()).update(cell_index(w, c.0 as nat, c.1 as nat), true)
    }
}

/// Appends one repaint record per cell of `cells` (width `width`) to `out`,
/// in row-major order.
fn push_repaint(out: &mut Vec<Change>, cells: &fixedbitset::FixedBitSet, width: u32)
    requires
        bits_of(*cells).len() <= u32::MAX,
        width > 0 || bits_of(*cells).len() == 0,
    ensures
        final(out)@ == old(out)@ + repaint_changes(bits_of(*cells), width as nat),
{
    let n = bits_len(cells);
    proof {
        let rp = repaint_changes(bits_of(*cells), width as nat);
        assert(rp.take(0) =~= Seq::<Change>::empty());
        assert(out@ + rp.take(0) =~= out@);
    }
    let mut i: usize = 0;
    while i < n
        invariant
            n == bits_of(*cells).len(),
            n <= u32::MAX,
            width > 0 || n == 0,
            i <= n,
            out@ == old(out)@ + repaint_changes(bits_of(*cells), width as nat).take(i as int),
        decreases n - i,
    {
        let state = bits_get(cells, i);
        let iw = i as u32;
        let row = iw / width;
        let col = iw % width;
        out.push(Change { row, col, state });
        proof {
            let rp = repaint_changes(bits_of(*cells), width as nat);
            assert(rp.take(i + 1) =~= rp.take(i as int).push(rp[i as int]));
        }
        i = i + 1;
    }
    proof {
        let rp = repaint_changes(bits_of(*cells), width as nat);
        assert(rp.take(n as int) =~= rp);
    }
}

} // verus!
