//! The grid of assigned values: one dense array per witness column and per
//! fixed column. A public column shows the public input vector.

use crate::column::{Column, ColumnKind};
use crate::field::Fe;
use vstd::prelude::*;

verus! {

/// Whether every element of the sequence is canonical.
pub open spec fn all_canonical(s: Seq<Fe>) -> bool {
    forall|i: int| 0 <= i < s.len() ==> (#[trigger] s[i]).wf()
}

/// Whether every column has `rows` canonical entries.
pub open spec fn columns_wf(columns: Seq<Vec<Fe>>, rows: int) -> bool {
    forall|c: int|
        0 <= c < columns.len() ==> (#[trigger] columns[c])@.len() == rows && all_canonical(
            columns[c]@,
        )
}

/// The values of the witness and fixed columns, row by row. A cell that was
/// never assigned holds zero.
pub struct Grid {
    pub rows: usize,
    pub witness: Vec<Vec<Fe>>,
    pub fixed: Vec<Vec<Fe>>,
}

impl Grid {
    /// The grid has a row, and every column has `rows` canonical entries.
    pub open spec fn wf(&self) -> bool {
        &&& self.rows > 0
        &&& columns_wf(self.witness@, self.rows as int)
        &&& columns_wf(self.fixed@, self.rows as int)
    }

    /// The representative held at `row` of `column`, given the public input
    /// vector. Outside the grid, and past the end of the vector, it is zero.
    pub open spec fn value(&self, public: Seq<Fe>, column: Column, row: int) -> int {
        match column.kind {
            ColumnKind::Witness => if column.index < self.witness@.len() && 0 <= row
                < self.witness@[column.index as int]@.len() {
                self.witness@[column.index as int]@[row]@
            } else {
                0
            },
            ColumnKind::Fixed => if column.index < self.fixed@.len() && 0 <= row
                < self.fixed@[column.index as int]@.len() {
                self.fixed@[column.index as int]@[row]@
            } else {
                0
            },
            ColumnKind::Public => if 0 <= row < public.len() {
                public[row]@
            } else {
                0
            },
        }
    }

    /// A grid of `rows` rows in which every cell holds zero.
    pub fn new(rows: usize, num_witness: usize, num_fixed: usize) -> (g: Grid)
        requires
            rows > 0,
        ensures
            g.wf(),
            g.rows == rows,
            g.witness@.len() == num_witness,
            g.fixed@.len() == num_fixed,
            forall|public: Seq<Fe>, column: Column, row: int|
                column.kind != ColumnKind::Public ==> #[trigger] g.value(public, column, row) == 0,
    {
        let witness = zero_columns(num_witness, rows);
        let fixed = zero_columns(num_fixed, rows);
        Grid { rows, witness, fixed }
    }

    /// Whether `column` is a witness or fixed column of the grid and `row` one
    /// of its rows.
    pub open spec fn holds(&self, column: Column, row: int) -> bool {
        &&& 0 <= row < self.rows
        &&& match column.kind {
            ColumnKind::Witness => column.index < self.witness@.len(),
            ColumnKind::Fixed => column.index < self.fixed@.len(),
            ColumnKind::Public => false,
        }
    }

    /// Computes `holds`.
    pub fn contains(&self, column: Column, row: usize) -> (r: bool)
        ensures
            r == self.holds(column, row as int),
    {
        row < self.rows && match column.kind {
            ColumnKind::Witness => column.index < self.witness.len(),
            ColumnKind::Fixed => column.index < self.fixed.len(),
            ColumnKind::Public => false,
        }
    }

    /// Stores `v` in a cell of the grid. Every other cell keeps its value.
    pub fn set(&mut self, column: Column, row: usize, v: Fe)
        requires
            old(self).wf(),
            old(self).holds(column, row as int),
            v.wf(),
        ensures
            final(self).wf(),
            final(self).rows == old(self).rows,
            final(self).witness@.len() == old(self).witness@.len(),
            final(self).fixed@.len() == old(self).fixed@.len(),
            forall|public: Seq<Fe>, c: Column, r: int| #[trigger]
                final(self).value(public, c, r) == (if c == column && r == row {
                    v@
                } else {
                    old(self).value(public, c, r)
                }),
    {
        match column.kind {
            ColumnKind::Witness => {
                self.witness[column.index][row] = v;
            },
            ColumnKind::Fixed => {
                self.fixed[column.index][row] = v;
            },
            ColumnKind::Public => {},
        }
    }

    /// Reads the cell at `row` of `column`.
    pub fn get(&self, public: &Vec<Fe>, column: Column, row: usize) -> (v: Fe)
        requires
            self.wf(),
            all_canonical(public@),
        ensures
            v.wf(),
            v@ == self.value(public@, column, row as int),
    {
        match column.kind {
            ColumnKind::Witness => {
                if column.index < self.witness.len() && row < self.witness[column.index].len() {
                    self.witness[column.index][row]
                } else {
                    Fe::zero()
                }
            },
            ColumnKind::Fixed => {
                if column.index < self.fixed.len() && row < self.fixed[column.index].len() {
                    self.fixed[column.index][row]
                } else {
                    Fe::zero()
                }
            },
            ColumnKind::Public => {
                if row < public.len() {
                    public[row]
                } else {
                    Fe::zero()
                }
            },
        }
    }
}

/// `count` columns of `rows` zeros each.
fn zero_columns(count: usize, rows: usize) -> (columns: Vec<Vec<Fe>>)
    ensures
        columns@.len() == count,
        columns_wf(columns@, rows as int),
        forall|c: int, r: int|
            0 <= c < count && 0 <= r < rows ==> (#[trigger] columns@[c]@[r])@ == 0,
{
    let mut columns: Vec<Vec<Fe>> = Vec::new();
    let mut c: usize = 0;
    while c < count
        invariant
            c <= count,
            columns@.len() == c,
            columns_wf(columns@, rows as int),
            forall|i: int, r: int|
                0 <= i < c && 0 <= r < rows ==> (#[trigger] columns@[i]@[r])@ == 0,
        decreases count - c,
    {
        let column: Vec<Fe> = vec![Fe::zero(); rows];
        columns.push(column);
        c += 1;
    }
    columns
}

} // verus!
