//! The layouter places regions on the grid one after another, stores what
//! is assigned in them, and records copy constraints and public input
//! bindings.

use crate::classes::Classes;
use crate::column::{Cell, Column, ColumnKind};
use crate::constraint_system::ConstraintSystem;
use crate::error::Error;
use crate::field::Fe;
use crate::grid::Grid;
use crate::value::Value;
use vstd::arithmetic::power2::{
    lemma_pow2_pos, lemma_pow2_strictly_increases, lemma_pow2_unfold, pow2,
};
use vstd::prelude::*;

verus! {

/// The place of a column among the columns that can take part in copy
/// constraints: the witness columns first, then the public ones.
pub open spec fn slot_of(num_witness: int, column: Column) -> int {
    match column.kind {
        ColumnKind::Witness => column.index as int,
        ColumnKind::Fixed => -1,
        ColumnKind::Public => num_witness + column.index,
    }
}

/// The dense index of a cell: its column's slot times the number of rows,
/// plus its row.
pub open spec fn cell_index(num_witness: int, rows: int, cell: Cell) -> int {
    slot_of(num_witness, cell.column) * rows + cell.row
}

/// The cell with the dense index `i`.
pub open spec fn index_cell(num_witness: int, rows: int, i: int) -> Cell {
    let slot = i / rows;
    Cell {
        column: if slot < num_witness {
            Column { kind: ColumnKind::Witness, index: slot as usize }
        } else {
            Column { kind: ColumnKind::Public, index: (slot - num_witness) as usize }
        },
        row: (i % rows) as usize,
    }
}

/// The dense index of a cell in one of `slots` columns lies below
/// `slots * rows`, and leads back to the cell.
pub proof fn lemma_cell_index(num_witness: int, slots: int, rows: int, cell: Cell)
    requires
        0 <= num_witness,
        cell.row < rows,
        0 <= slot_of(num_witness, cell.column) < slots,
        cell.column.kind == ColumnKind::Witness ==> cell.column.index < num_witness,
    ensures
        0 <= cell_index(num_witness, rows, cell) < slots * rows,
        index_cell(num_witness, rows, cell_index(num_witness, rows, cell)) == cell,
{
    let slot = slot_of(num_witness, cell.column);
    assert(slot * rows + cell.row < slots * rows && slot * rows >= 0) by (nonlinear_arith)
        requires
            0 <= slot < slots,
            0 <= cell.row < rows,
    ;
    vstd::arithmetic::div_mod::lemma_fundamental_div_mod_converse(
        slot * rows + cell.row,
        rows,
        slot,
        cell.row as int,
    );
}

/// The cell with a dense index below `slots * rows` has that index, a row
/// below `rows` and a slot below `slots`.
pub proof fn lemma_index_cell(num_witness: int, slots: int, rows: int, i: int)
    requires
        0 <= num_witness <= slots <= usize::MAX,
        0 < rows <= usize::MAX,
        0 <= i < slots * rows,
    ensures
        cell_index(num_witness, rows, index_cell(num_witness, rows, i)) == i,
        index_cell(num_witness, rows, i).row < rows,
        0 <= i / rows < slots,
        index_cell(num_witness, rows, i).column.kind != ColumnKind::Fixed,
        slot_of(num_witness, index_cell(num_witness, rows, i).column) == i / rows,
{
    vstd::arithmetic::div_mod::lemma_fundamental_div_mod(i, rows);
    vstd::arithmetic::div_mod::lemma_mod_bound(i, rows);
    let q = i / rows;
    let r = i % rows;
    assert(0 <= q < slots) by (nonlinear_arith)
        requires
            i == rows * q + r,
            0 <= r < rows,
            0 <= i < slots * rows,
    ;
    assert(q * rows == rows * q) by (nonlinear_arith);
}

/// A named span of rows that one operation assigns into, by offsets from
/// its first row. It ends with the last row that was assigned in it. The
/// layouter holds the one region that is open.
#[derive(Clone, Debug, PartialEq, Eq)]
pub struct Region {
    /// What the region is for.
    pub name: String,
    /// The first row of the region.
    pub start: usize,
}

/// Whether there are `columns` columns of marks with `rows` marks each.
pub open spec fn marks_wf(marks: Seq<Vec<bool>>, columns: int, rows: int) -> bool {
    &&& marks.len() == columns
    &&& forall|c: int| 0 <= c < marks.len() ==> (#[trigger] marks[c])@.len() == rows
}

/// The state of one synthesis: the grid, which cells were assigned, the
/// classes of cells bound to be equal, the public input bindings, the first
/// row that no region has used, and the region that is open.
pub struct Layouter {
    pub grid: Grid,
    pub witness_assigned: Vec<Vec<bool>>,
    pub fixed_assigned: Vec<Vec<bool>>,
    pub witness_equality: Vec<bool>,
    pub public_equality: Vec<bool>,
    pub classes: Classes,
    pub bindings: Vec<(Cell, usize)>,
    pub next_row: usize,
    pub region: Region,
}

impl Layouter {
    /// The parts fit each other: marks and flags for every column, a class
    /// for every cell of a witness or public column, and the next row within
    /// the grid or just past it. Every assigned cell lies before the next
    /// row, the open region starts no later, and a cell that was never
    /// assigned holds zero.
    pub open spec fn wf(&self) -> bool {
        &&& self.grid.wf()
        &&& marks_wf(self.witness_assigned@, self.grid.witness@.len() as int, self.grid.rows as int)
        &&& marks_wf(self.fixed_assigned@, self.grid.fixed@.len() as int, self.grid.rows as int)
        &&& self.witness_equality@.len() == self.grid.witness@.len()
        &&& self.classes.wf()
        &&& self.classes.len() == self.slots() * self.grid.rows
        &&& self.next_row <= self.grid.rows
        &&& self.region.start <= self.next_row
        &&& forall|column: Column, row: int| #[trigger]
            self.assigned(column, row) ==> row < self.next_row
        &&& forall|public: Seq<Fe>, column: Column, row: int|
            column.kind != ColumnKind::Public && !self.assigned(column, row)
                ==> #[trigger] self.grid.value(public, column, row) == 0
    }

    /// The number of witness and public columns.
    pub open spec fn slots(&self) -> int {
        (self.witness_equality@.len() + self.public_equality@.len()) as int
    }

    /// Whether the cell at `row` of `column` has been assigned.
    pub open spec fn assigned(&self, column: Column, row: int) -> bool {
        &&& self.grid.holds(column, row)
        &&& match column.kind {
            ColumnKind::Witness => self.witness_assigned@[column.index as int]@[row],
            ColumnKind::Fixed => self.fixed_assigned@[column.index as int]@[row],
            ColumnKind::Public => false,
        }
    }

    /// Whether `column` is a witness or public column enabled for equality.
    pub open spec fn equality_enabled(&self, column: Column) -> bool {
        match column.kind {
            ColumnKind::Witness => column.index < self.witness_equality@.len()
                && self.witness_equality@[column.index as int],
            ColumnKind::Fixed => false,
            ColumnKind::Public => column.index < self.public_equality@.len()
                && self.public_equality@[column.index as int],
        }
    }

    /// The dense index of `cell` among the cells of this grid.
    pub open spec fn index(&self, cell: Cell) -> int {
        cell_index(self.witness_equality@.len() as int, self.grid.rows as int, cell)
    }

    /// Whether the layouter has the columns, the classes and the bindings of
    /// `before`.
    pub open spec fn same_frame(&self, before: &Layouter) -> bool {
        &&& self.witness_equality == before.witness_equality
        &&& self.public_equality == before.public_equality
        &&& self.classes == before.classes
        &&& self.bindings == before.bindings
        &&& self.grid.rows == before.grid.rows
        &&& self.grid.witness@.len() == before.grid.witness@.len()
        &&& self.grid.fixed@.len() == before.grid.fixed@.len()
    }

    /// Whether the layouter has the columns, the classes, the bindings and the
    /// open region of `before`.
    pub open spec fn same_links(&self, before: &Layouter) -> bool {
        self.same_frame(before) && self.region == before.region
    }

    /// Whether the layouter differs from `before` in its open region at most,
    /// which has this name and starts at the first row that was unused.
    pub open spec fn opened(&self, before: &Layouter, name: Seq<char>) -> bool {
        &&& self.region.name@ == name
        &&& self.region.start == before.next_row
        &&& self.grid == before.grid
        &&& self.next_row == before.next_row
        &&& self.witness_assigned == before.witness_assigned
        &&& self.fixed_assigned == before.fixed_assigned
        &&& self.witness_equality == before.witness_equality
        &&& self.public_equality == before.public_equality
        &&& self.classes == before.classes
        &&& self.bindings == before.bindings
        &&& forall|column: Column, row: int| #[trigger]
            self.assigned(column, row) == before.assigned(column, row)
    }

    /// Whether the layouter has the grid, the marks, the next row and the
    /// open region of `before`.
    pub open spec fn same_cells(&self, before: &Layouter) -> bool {
        &&& self.grid == before.grid
        &&& self.region == before.region
        &&& self.next_row == before.next_row
        &&& self.witness_assigned == before.witness_assigned
        &&& self.fixed_assigned == before.fixed_assigned
        &&& self.witness_equality == before.witness_equality
        &&& self.public_equality == before.public_equality
    }

    /// Whether a layouter for the columns of `cs` on a grid of `2^k` rows can
    /// be addressed on this machine.
    pub open spec fn holdable(cs: &ConstraintSystem, k: u32) -> bool {
        &&& pow2(k as nat) <= usize::MAX
        &&& (cs.num_witness() + cs.num_public()) * pow2(k as nat) <= usize::MAX
    }

    /// Computes `holdable`.
    pub fn can_hold(cs: &ConstraintSystem, k: u32) -> (r: bool)
        ensures
            r == Self::holdable(cs, k),
    {
        let mut rows: usize = 1;
        let mut i: u32 = 0;
        proof {
            vstd::arithmetic::power2::lemma2_to64();
        }
        while i < k
            invariant
                i <= k,
                rows == pow2(i as nat),
            decreases k - i,
        {
            proof {
                lemma_pow2_unfold((i + 1) as nat);
                if i + 1 < k {
                    lemma_pow2_strictly_increases((i + 1) as nat, k as nat);
                }
            }
            match rows.checked_mul(2) {
                Some(doubled) => {
                    rows = doubled;
                },
                None => {
                    return false;
                },
            }
            i += 1;
        }
        let slots = match cs.witness_equality.len().checked_add(cs.public_equality.len()) {
            Some(slots) => slots,
            None => {
                proof {
                    let total = cs.num_witness() + cs.num_public();
                    lemma_pow2_pos(k as nat);
                    assert(total * rows >= total) by (nonlinear_arith)
                        requires
                            rows >= 1,
                            total >= 0,
                    ;
                }
                return false;
            },
        };
        slots.checked_mul(rows).is_some()
    }

    /// Whether the layouter is as `new` makes it for the columns of `cs` and
    /// `2^k` rows: every cell zero and unassigned, every cell in a class of
    /// its own, no binding, no row in use, and a region without a name open
    /// at the first row.
    pub open spec fn blank(&self, cs: &ConstraintSystem, k: u32) -> bool {
        &&& self.wf()
        &&& self.grid.rows == pow2(k as nat)
        &&& self.grid.witness@.len() == cs.num_witness()
        &&& self.grid.fixed@.len() == cs.num_fixed
        &&& self.witness_equality@ == cs.witness_equality@
        &&& self.public_equality@ == cs.public_equality@
        &&& self.next_row == 0
        &&& self.region.start == 0
        &&& self.region.name@.len() == 0
        &&& self.bindings@.len() == 0
        &&& forall|public: Seq<Fe>, column: Column, row: int|
            column.kind != ColumnKind::Public ==> #[trigger] self.grid.value(public, column, row)
                == 0
        &&& forall|column: Column, row: int| !#[trigger] self.assigned(column, row)
        &&& forall|i: int| 0 <= i < self.classes.len() ==> #[trigger] self.classes.rep(i) == i
    }

    /// A layouter for the columns of `cs` on a grid of `2^k` rows: every cell
    /// zero and unassigned, every cell in a class of its own, no binding.
    pub fn new(cs: &ConstraintSystem, k: u32) -> (l: Layouter)
        requires
            Self::holdable(cs, k),
        ensures
            l.blank(cs, k),
    {
        let rows = two_to_the(k);
        let num_witness = cs.witness_equality.len();
        let num_public = cs.public_equality.len();
        proof {
            lemma_pow2_pos(k as nat);
            assert(num_witness + num_public <= (num_witness + num_public) * rows
                && (num_witness + num_public) * rows >= 0) by (nonlinear_arith)
                requires
                    rows >= 1,
                    num_witness + num_public >= 0,
            ;
        }
        let slots = num_witness + num_public;
        let grid = Grid::new(rows, num_witness, cs.num_fixed);
        Layouter {
            grid,
            witness_assigned: unmarked_columns(num_witness, rows),
            fixed_assigned: unmarked_columns(cs.num_fixed, rows),
            witness_equality: cs.witness_equality.clone(),
            public_equality: cs.public_equality.clone(),
            classes: Classes::new(slots * rows),
            bindings: Vec::new(),
            next_row: 0,
            region: Region { name: String::new(), start: 0 },
        }
    }

    /// The number of rows that the regions laid out so far take up.
    pub fn rows_used(&self) -> (n: usize)
        ensures
            n == self.next_row,
    {
        self.next_row
    }

    /// Opens a region of this name at the first unused row, after every row
    /// of the regions before it. The region that was open is closed: no
    /// later assignment reaches its rows.
    pub fn begin_region(&mut self, name: &str)
        requires
            old(self).wf(),
        ensures
            final(self).wf(),
            final(self).opened(old(self), name@),
    {
        self.region = Region { name: name.to_owned(), start: self.next_row };
    }

    /// Whether an assignment at `offset` of the open region into `column`
    /// falls on a cell of the grid.
    pub open spec fn in_grid(&self, column: Column, offset: usize) -> bool {
        self.grid.holds(column, self.region.start + offset)
    }

    /// What an assignment leaves behind: the cell marked as assigned, holding
    /// the value where it is known, and the rows up to the cell's in use.
    pub open spec fn assigns(
        &self,
        before: &Layouter,
        column: Column,
        row: int,
        value: Value<Fe>,
    ) -> bool {
        &&& self.wf()
        &&& self.same_links(before)
        &&& self.next_row == (if before.next_row > row {
            before.next_row as int
        } else {
            row + 1
        })
        &&& forall|c: Column, r: int| #[trigger]
            self.assigned(c, r) == ((c == column && r == row) || before.assigned(c, r))
        &&& forall|public: Seq<Fe>, c: Column, r: int| #[trigger]
            self.grid.value(public, c, r) == (if c == column && r == row && value is Known {
                value->Known_0@
            } else {
                before.grid.value(public, c, r)
            })
    }

    /// Assigns `value` to the cell at `offset` of the open region in a witness or
    /// fixed column. An unknown value marks the cell and leaves the zero that
    /// it holds.
    fn assign(&mut self, column: Column, offset: usize, value: Value<Fe>) -> (r:
        Result<Cell, Error>)
        requires
            old(self).wf(),
            value.wf(),
        ensures
            !old(self).in_grid(column, offset) ==> r == Err::<Cell, Error>(
                Error::RegionOverflow,
            ),
            old(self).in_grid(column, offset) && old(self).assigned(
                column,
                old(self).region.start + offset,
            ) ==> r == Err::<Cell, Error>(Error::CellAlreadyAssigned),
            old(self).in_grid(column, offset) && !old(self).assigned(
                column,
                old(self).region.start + offset,
            ) ==> r == Ok::<Cell, Error>(
                Cell { column, row: (old(self).region.start + offset) as usize },
            ),
            r is Err ==> *final(self) == *old(self),
            r is Ok ==> final(self).assigns(
                old(self),
                column,
                old(self).region.start + offset,
                value,
            ),
    {
        if offset >= self.grid.rows || self.region.start >= self.grid.rows - offset {
            return Err(Error::RegionOverflow);
        }
        let row = self.region.start + offset;
        if !self.grid.contains(column, row) {
            return Err(Error::RegionOverflow);
        }
        let ghost before = *self;
        match column.kind {
            ColumnKind::Witness => {
                if self.witness_assigned[column.index][row] {
                    return Err(Error::CellAlreadyAssigned);
                }
                self.witness_assigned[column.index][row] = true;
            },
            ColumnKind::Fixed => {
                if self.fixed_assigned[column.index][row] {
                    return Err(Error::CellAlreadyAssigned);
                }
                self.fixed_assigned[column.index][row] = true;
            },
            ColumnKind::Public => {},
        }
        match value {
            Value::Known(v) => {
                self.grid.set(column, row, v);
            },
            Value::Unknown => {},
        }
        if self.next_row <= row {
            self.next_row = row + 1;
        }
        proof {
            assert forall|c: Column, r: int| #[trigger]
                self.assigned(c, r) == ((c == column && r == row) || before.assigned(c, r)) by {}
            assert forall|c: Column, r: int| #[trigger] self.assigned(c, r) implies r
                < self.next_row by {
                assert(before.assigned(c, r) ==> r < before.next_row);
            }
        }
        Ok(Cell { column, row })
    }

    /// Assigns the value that one call of `to` gives to the cell at `offset` of
    /// the open region in the witness column `column`, and returns the cell. An
    /// unknown value marks the cell and leaves the zero that it holds. A cell
    /// outside the witness columns of the grid is refused as an overflow, a
    /// second assignment to a cell as such; either leaves everything as it
    /// was.
    pub fn assign_advice<V: FnOnce() -> Value<Fe>>(
        &mut self,
        column: Column,
        offset: usize,
        to: V,
    ) -> (r: Result<Cell, Error>)
        requires
            old(self).wf(),
            call_requires(to, ()),
            forall|value: Value<Fe>| call_ensures(to, (), value) ==> value.wf(),
        ensures
            !(column.kind == ColumnKind::Witness && old(self).in_grid(column, offset))
                ==> r == Err::<Cell, Error>(Error::RegionOverflow),
            column.kind == ColumnKind::Witness && old(self).in_grid(column, offset)
                && old(self).assigned(column, old(self).region.start + offset) ==> r == Err::<
                Cell,
                Error,
            >(Error::CellAlreadyAssigned),
            column.kind == ColumnKind::Witness && old(self).in_grid(column, offset)
                && !old(self).assigned(column, old(self).region.start + offset) ==> r == Ok::<
                Cell,
                Error,
            >(Cell { column, row: (old(self).region.start + offset) as usize }),
            r is Err ==> *final(self) == *old(self),
            r is Ok ==> exists|value: Value<Fe>|
                call_ensures(to, (), value) && #[trigger] final(self).assigns(
                    old(self),
                    column,
                    old(self).region.start + offset,
                    value,
                ),
    {
        let value = to();
        match column.kind {
            ColumnKind::Witness => self.assign(column, offset, value),
            _ => Err(Error::RegionOverflow),
        }
    }

    /// Assigns the value that one call of `to` gives to the cell at `offset` of
    /// the open region in the fixed column `column`, and returns the cell. An
    /// unknown value marks the cell and leaves the zero that it holds. A cell
    /// outside the fixed columns of the grid is refused as an overflow, a
    /// second assignment to a cell as such; either leaves everything as it
    /// was.
    pub fn assign_fixed<V: FnOnce() -> Value<Fe>>(
        &mut self,
        column: Column,
        offset: usize,
        to: V,
    ) -> (r: Result<Cell, Error>)
        requires
            old(self).wf(),
            call_requires(to, ()),
            forall|value: Value<Fe>| call_ensures(to, (), value) ==> value.wf(),
        ensures
            !(column.kind == ColumnKind::Fixed && old(self).in_grid(column, offset))
                ==> r == Err::<Cell, Error>(Error::RegionOverflow),
            column.kind == ColumnKind::Fixed && old(self).in_grid(column, offset)
                && old(self).assigned(column, old(self).region.start + offset) ==> r == Err::<
                Cell,
                Error,
            >(Error::CellAlreadyAssigned),
            column.kind == ColumnKind::Fixed && old(self).in_grid(column, offset)
                && !old(self).assigned(column, old(self).region.start + offset) ==> r == Ok::<
                Cell,
                Error,
            >(Cell { column, row: (old(self).region.start + offset) as usize }),
            r is Err ==> *final(self) == *old(self),
            r is Ok ==> exists|value: Value<Fe>|
                call_ensures(to, (), value) && #[trigger] final(self).assigns(
                    old(self),
                    column,
                    old(self).region.start + offset,
                    value,
                ),
    {
        let value = to();
        match column.kind {
            ColumnKind::Fixed => self.assign(column, offset, value),
            _ => Err(Error::RegionOverflow),
        }
    }

    /// Computes `equality_enabled`.
    pub fn is_equality_enabled(&self, column: Column) -> (r: bool)
        ensures
            r == self.equality_enabled(column),
    {
        match column.kind {
            ColumnKind::Witness => column.index < self.witness_equality.len()
                && self.witness_equality[column.index],
            ColumnKind::Fixed => false,
            ColumnKind::Public => column.index < self.public_equality.len()
                && self.public_equality[column.index],
        }
    }

    /// The dense index of a cell of an equality-enabled column lies among the
    /// indices of the classes.
    pub proof fn lemma_index_in_range(&self, cell: Cell)
        requires
            self.wf(),
            self.equality_enabled(cell.column),
            cell.row < self.grid.rows,
        ensures
            0 <= self.index(cell) < self.classes.len(),
    {
        lemma_cell_index(
            self.witness_equality@.len() as int,
            self.slots(),
            self.grid.rows as int,
            cell,
        );
    }

    /// Computes the dense index of a cell of an equality-enabled column.
    fn dense_index(&self, cell: Cell) -> (i: usize)
        requires
            self.wf(),
            self.equality_enabled(cell.column),
            cell.row < self.grid.rows,
        ensures
            i == self.index(cell),
            i < self.classes.len(),
    {
        let total = self.classes.size();
        proof {
            let slot = slot_of(self.witness_equality@.len() as int, cell.column);
            let slots = self.slots();
            let rows = self.grid.rows as int;
            assert(0 <= slot < slots);
            lemma_cell_index(self.witness_equality@.len() as int, slots, rows, cell);
            assert(0 <= slot * rows <= slot * rows + cell.row) by (nonlinear_arith)
                requires
                    slot >= 0,
                    rows >= 0,
                    cell.row >= 0,
            ;
            assert(slot < slots * rows) by (nonlinear_arith)
                requires
                    0 <= slot < slots,
                    rows >= 1,
            ;
        }
        let slot = match cell.column.kind {
            ColumnKind::Witness => cell.column.index,
            _ => self.witness_equality.len() + cell.column.index,
        };
        slot * self.grid.rows + cell.row
    }

    /// Binds two cells to be equal: their classes become one. Both columns
    /// must be enabled for equality, and both rows lie in the grid.
    pub fn constrain_equal(&mut self, a: Cell, b: Cell) -> (r: Result<(), Error>)
        requires
            old(self).wf(),
        ensures
            final(self).wf(),
            final(self).same_cells(old(self)),
            final(self).bindings == old(self).bindings,
            !(old(self).equality_enabled(a.column) && old(self).equality_enabled(b.column)) ==> r
                == Err::<(), Error>(Error::EqualityNotEnabled),
            old(self).equality_enabled(a.column) && old(self).equality_enabled(b.column) && !(a.row
                < old(self).grid.rows && b.row < old(self).grid.rows) ==> r == Err::<(), Error>(
                Error::RegionOverflow,
            ),
            old(self).equality_enabled(a.column) && old(self).equality_enabled(b.column) && a.row
                < old(self).grid.rows && b.row < old(self).grid.rows ==> r is Ok,
            r is Err ==> *final(self) == *old(self),
            r is Ok ==> Classes::merged(
                old(self).classes,
                final(self).classes,
                old(self).index(a),
                old(self).index(b),
            ),
    {
        if !self.is_equality_enabled(a.column) || !self.is_equality_enabled(b.column) {
            return Err(Error::EqualityNotEnabled);
        }
        if a.row >= self.grid.rows || b.row >= self.grid.rows {
            return Err(Error::RegionOverflow);
        }
        let ia = self.dense_index(a);
        let ib = self.dense_index(b);
        let ghost before = *self;
        self.classes.union(ia, ib);
        proof {
            assert forall|c: Column, r: int| #[trigger] self.assigned(c, r) implies r
                < self.next_row by {
                assert(before.assigned(c, r));
            }
        }
        Ok(())
    }

    /// Binds a cell to a row of the public input, through a public column.
    /// The cell's column and the public column must be enabled for equality,
    /// and the cell's row and the bound row lie in the grid.
    pub fn constrain_instance(&mut self, cell: Cell, column: Column, row: usize) -> (r: Result<
        (),
        Error,
    >)
        requires
            old(self).wf(),
        ensures
            final(self).wf(),
            final(self).same_cells(old(self)),
            final(self).classes == old(self).classes,
            !old(self).bindable(cell, column) ==> r == Err::<(), Error>(Error::EqualityNotEnabled),
            old(self).bindable(cell, column) && !(cell.row < old(self).grid.rows && row < old(
                self,
            ).grid.rows) ==> r == Err::<(), Error>(Error::RegionOverflow),
            old(self).bindable(cell, column) && cell.row < old(self).grid.rows && row < old(
                self,
            ).grid.rows ==> r is Ok,
            r is Err ==> *final(self) == *old(self),
            r is Ok ==> final(self).bindings@ == old(self).bindings@.push((cell, row)),
    {
        if !self.is_equality_enabled(cell.column) || !self.is_equality_enabled(column) {
            return Err(Error::EqualityNotEnabled);
        }
        match column.kind {
            ColumnKind::Public => {},
            _ => {
                return Err(Error::EqualityNotEnabled);
            },
        }
        if cell.row >= self.grid.rows || row >= self.grid.rows {
            return Err(Error::RegionOverflow);
        }
        let ghost before = *self;
        self.bindings.push((cell, row));
        proof {
            assert forall|c: Column, r: int| #[trigger] self.assigned(c, r) implies r
                < self.next_row by {
                assert(before.assigned(c, r));
            }
        }
        Ok(())
    }

    /// Whether `cell` can be bound to the public input through `column`: the
    /// cell's column is enabled for equality, and `column` is a public column
    /// enabled for equality.
    pub open spec fn bindable(&self, cell: Cell, column: Column) -> bool {
        &&& self.equality_enabled(cell.column)
        &&& column.kind == ColumnKind::Public
        &&& self.equality_enabled(column)
    }
}

/// `2^k`, by doubling.
fn two_to_the(k: u32) -> (n: usize)
    requires
        pow2(k as nat) <= usize::MAX,
    ensures
        n == pow2(k as nat),
        n > 0,
{
    let mut n: usize = 1;
    let mut i: u32 = 0;
    proof {
        lemma_pow2_unfold(1);
        assert(pow2(0) == 1) by {
            vstd::arithmetic::power2::lemma2_to64();
        }
    }
    while i < k
        invariant
            i <= k,
            n == pow2(i as nat),
            n > 0,
            pow2(k as nat) <= usize::MAX,
        decreases k - i,
    {
        proof {
            lemma_pow2_unfold((i + 1) as nat);
            if i + 1 < k {
                lemma_pow2_strictly_increases((i + 1) as nat, k as nat);
            }
        }
        n = n * 2;
        i += 1;
    }
    n
}

/// `count` columns of `rows` marks each, none of them set.
fn unmarked_columns(count: usize, rows: usize) -> (columns: Vec<Vec<bool>>)
    ensures
        marks_wf(columns@, count as int, rows as int),
        forall|c: int, r: int| 0 <= c < count && 0 <= r < rows ==> !(#[trigger] columns@[c]@[r]),
{
    let mut columns: Vec<Vec<bool>> = Vec::new();
    let mut c: usize = 0;
    while c < count
        invariant
            c <= count,
            marks_wf(columns@, c as int, rows as int),
            forall|i: int, r: int| 0 <= i < c && 0 <= r < rows ==> !(#[trigger] columns@[i]@[r]),
        decreases count - c,
    {
        let column: Vec<bool> = vec![false; rows];
        columns.push(column);
        c += 1;
    }
    columns
}

} // verus!
