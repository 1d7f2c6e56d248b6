//! The progress renderer: a deterministic mapping from a progress value to a
//! frame for the 5x5 LED matrix. The renderer rebuilds the whole frame on
//! every update and never relies on what a previous frame left behind.

use crate::game::{Progress, PROGRESS_DONE};
use vstd::prelude::*;

verus! {

/// Width of the LED matrix in cells.
pub const GRID_WIDTH: usize = 5;

/// Height of the LED matrix in cells.
pub const GRID_HEIGHT: usize = 5;

/// Total number of cells on the matrix.
pub const GRID_CELLS: usize = GRID_WIDTH * GRID_HEIGHT;

/// Progress units represented by one lit cell: the full scale spread over
/// the whole grid.
pub const CELL_UNIT: usize = 4;

/// How many cells are lit for a given progress value.
pub open spec fn lit_cells(progress: int) -> int {
    progress / (CELL_UNIT as int)
}

/// The frame shown for a given progress value: the first `lit_cells` cells
/// in row-major order are lit, every later cell is dark.
pub open spec fn frame_of(progress: int) -> Seq<bool> {
    Seq::new(GRID_CELLS as nat, |i: int| i < lit_cells(progress))
}

/// Number of lit cells in a frame.
pub open spec fn count_lit(s: Seq<bool>) -> int
    decreases s.len(),
{
    if s.len() == 0 {
        0
    } else {
        count_lit(s.drop_last()) + if s.last() {
            1int
        } else {
            0int
        }
    }
}

/// A two-state bitmap the size of the LED matrix, row-major. Its view is the
/// sequence of cells, `true` for lit.
pub struct Frame {
    cells: Vec<bool>,
}

impl View for Frame {
    type V = Seq<bool>;

    closed spec fn view(&self) -> Seq<bool> {
        self.cells@
    }
}

impl Frame {
    /// A frame always covers the whole grid.
    pub open spec fn wf(&self) -> bool {
        self@.len() == GRID_CELLS as int
    }

    /// A frame with every cell dark.
    pub fn empty() -> (f: Frame)
        ensures
            f.wf(),
            forall|i: int| 0 <= i < GRID_CELLS as int ==> !(#[trigger] f@[i]),
    {
        let mut cells: Vec<bool> = Vec::new();
        let mut i: usize = 0;
        while i < GRID_CELLS
            invariant
                i <= GRID_CELLS,
                cells@.len() == i as int,
                forall|j: int| 0 <= j < i as int ==> !(#[trigger] cells@[j]),
            decreases GRID_CELLS - i,
        {
            cells.push(false);
            i = i + 1;
        }
        Frame { cells }
    }

    /// Lights the cell in column `x` of row `y`.
    pub fn set(&mut self, x: usize, y: usize)
        requires
            old(self).wf(),
            x < GRID_WIDTH,
            y < GRID_HEIGHT,
        ensures
            final(self).wf(),
            final(self)@ == old(self)@.update(y as int * GRID_WIDTH as int + x as int, true),
    {
        self.cells.set(y * GRID_WIDTH + x, true);
    }

    /// Darkens the cell in column `x` of row `y`.
    pub fn unset(&mut self, x: usize, y: usize)
        requires
            old(self).wf(),
            x < GRID_WIDTH,
            y < GRID_HEIGHT,
        ensures
            final(self).wf(),
            final(self)@ == old(self)@.update(y as int * GRID_WIDTH as int + x as int, false),
    {
        self.cells.set(y * GRID_WIDTH + x, false);
    }

    /// Whether the cell in column `x` of row `y` is lit.
    pub fn lit(&self, x: usize, y: usize) -> (r: bool)
        requires
            self.wf(),
            x < GRID_WIDTH,
            y < GRID_HEIGHT,
        ensures
            r == self@[y as int * GRID_WIDTH as int + x as int],
    {
        self.cells[y * GRID_WIDTH + x]
    }
}

/// The renderer worker: owns the frame it rebuilds for every progress value
/// it receives.
pub struct ProgressBar {
    /// The most recently rendered frame.
    pub frame: Frame,
}

impl ProgressBar {
    pub open spec fn wf(&self) -> bool {
        self.frame.wf()
    }

    /// A fresh renderer holds an all-dark frame.
    pub fn new() -> (pb: ProgressBar)
        ensures
            pb.wf(),
            pb.frame@ == frame_of(0),
    {
        let pb = ProgressBar { frame: Frame::empty() };
        proof {
            assert(pb.frame@ =~= frame_of(0));
        }
        pb
    }

    /// Rebuilds the frame for `progress` from scratch: the first
    /// `progress / CELL_UNIT` cells lit in row-major order, all later cells
    /// explicitly darkened. The result depends on `progress` alone, never on
    /// the frame left by an earlier update.
    pub fn render(&mut self, progress: Progress)
        requires
            old(self).wf(),
            progress <= PROGRESS_DONE,
        ensures
            final(self).wf(),
            final(self).frame@ == frame_of(progress as int),
    {
        let c = progress / CELL_UNIT;
        let mut i: usize = 0;
        while i < c
            invariant
                self.wf(),
                c == lit_cells(progress as int),
                c <= GRID_CELLS,
                i <= c,
                forall|j: int| 0 <= j < i as int ==> (#[trigger] self.frame@[j]),
            decreases c - i,
        {
            self.frame.set(i % GRID_WIDTH, i / GRID_WIDTH);
            i = i + 1;
        }
        while i < GRID_CELLS
            invariant
                self.wf(),
                c == lit_cells(progress as int),
                c <= i <= GRID_CELLS,
                forall|j: int| 0 <= j < c as int ==> (#[trigger] self.frame@[j]),
                forall|j: int| c as int <= j < i as int ==> !(#[trigger] self.frame@[j]),
            decreases GRID_CELLS - i,
        {
            self.frame.unset(i % GRID_WIDTH, i / GRID_WIDTH);
            i = i + 1;
        }
        proof {
            assert(self.frame@ =~= frame_of(progress as int));
        }
    }
}

/// Helper for `lemma_frame_lit_count`: in a sequence whose first `c` entries
/// are `true` and whose rest are `false`, exactly `c` entries are `true`.
proof fn lemma_count_prefix(s: Seq<bool>, c: int)
    requires
        0 <= c <= s.len(),
        forall|i: int| 0 <= i < s.len() ==> (#[trigger] s[i]) == (i < c),
    ensures
        count_lit(s) == c,
    decreases s.len(),
{
    if s.len() == 0 {
    } else {
        let t = s.drop_last();
        if c == s.len() {
            assert(forall|i: int| 0 <= i < t.len() ==> (#[trigger] t[i]) == (i < c - 1));
            lemma_count_prefix(t, c - 1);
        } else {
            assert(forall|i: int| 0 <= i < t.len() ==> (#[trigger] t[i]) == (i < c));
            lemma_count_prefix(t, c);
        }
    }
}

/// The renderer is exact about how much of the grid it lights: the frame for
/// a progress value has precisely `progress / CELL_UNIT` lit cells — none
/// for 0, the full grid for a complete bake.
pub proof fn lemma_frame_lit_count(progress: int)
    requires
        0 <= progress <= PROGRESS_DONE as int,
    ensures
        count_lit(frame_of(progress)) == lit_cells(progress),
        progress == 0 ==> count_lit(frame_of(progress)) == 0,
        progress == PROGRESS_DONE as int ==> count_lit(frame_of(progress)) == GRID_CELLS as int,
{
    lemma_count_prefix(frame_of(progress), lit_cells(progress));
}

} // verus!
