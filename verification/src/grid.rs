//! The module grid: an immutable square grid of dark/light cells.

use vstd::prelude::*;

verus! {

/// One logical cell of a QR symbol: either dark or light.
#[derive(Clone, Copy, Debug, PartialEq, Eq, Structural)]
pub enum Module {
    Dark,
    Light,
}

/// An immutable square grid of binary module states with a known side
/// length, the input contract of every rendering operation.
///
/// Cells are stored row-major: the module at zero-based `(col, row)` is
/// `cells[row * side + col]`.  The grid is well formed when `side >= 1` and
/// the cell buffer holds exactly `side * side` entries.
#[derive(Clone, Debug)]
pub struct ModuleGrid {
    /// Side length in modules.
    pub side: usize,
    /// Row-major cell states, `side * side` entries.
    pub cells: Vec<Module>,
}

impl View for ModuleGrid {
    type V = Seq<Seq<bool>>;

    /// The grid as a sequence of rows; `true` stands for a dark module.
    open spec fn view(&self) -> Seq<Seq<bool>> {
        Seq::new(
            self.side as nat,
            |row: int|
                Seq::new(
                    self.side as nat,
                    |col: int| self.cells@[row * self.side as int + col] is Dark,
                ),
        )
    }
}

impl ModuleGrid {
    /// The structural invariant every rendering operation relies on.
    pub open spec fn wf(self) -> bool {
        &&& 1 <= self.side
        &&& self.cells@.len() == self.side * self.side
    }

    /// Builds a grid from a row-major cell buffer, rejecting any buffer
    /// whose length does not match the requested side length.
    pub fn new(side: usize, cells: Vec<Module>) -> (r: Option<ModuleGrid>)
        ensures
            r is Some <==> (1 <= side && cells@.len() == side * side),
            r is Some ==> r.unwrap().wf() && r.unwrap().side == side && r.unwrap().cells == cells,
    {
        let len = cells.len();
        if side == 0 {
            return None;
        }
        match side.checked_mul(side) {
            Some(total) => {
                if len == total {
                    Some(ModuleGrid { side, cells })
                } else {
                    None
                }
            },
            None => {
                proof {
                    assert(cells@.len() < side * side) by (nonlinear_arith)
                        requires
                            side * side > usize::MAX,
                            cells@.len() == len,
                            len <= usize::MAX,
                    ;
                }
                None
            },
        }
    }

    /// The number of modules per side.
    pub fn width(&self) -> (n: usize)
        ensures
            n == self.side,
            n == self@.len(),
    {
        self.side
    }

    /// The module at zero-based `(col, row)`.
    pub fn get(&self, col: usize, row: usize) -> (m: Module)
        requires
            self.wf(),
            col < self.side,
            row < self.side,
        ensures
            (m is Dark) == self@[row as int][col as int],
    {
        // Reading the vector length puts side * side within the usize range.
        let _cell_count = self.cells.len();
        proof {
            assert(row * self.side + col < self.side * self.side) by (nonlinear_arith)
                requires
                    row < self.side,
                    col < self.side,
            ;
        }
        self.cells[row * self.side + col]
    }
}

} // verus!
