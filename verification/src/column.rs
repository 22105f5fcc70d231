//! Columns, cells and rotations: the coordinates of the grid.

use vstd::prelude::*;

verus! {

/// What a column stores.
#[derive(Clone, Copy, Debug, PartialEq, Eq, Structural)]
pub enum ColumnKind {
    /// Values supplied for one instance, filled during synthesis.
    Witness,
    /// Selectors and constants, known when the circuit is designed.
    Fixed,
    /// Values supplied from outside and checked against the circuit.
    Public,
}

/// A handle for a column: its kind and its number among the columns of that
/// kind.
#[derive(Clone, Copy, Debug, PartialEq, Eq, Structural)]
pub struct Column {
    pub kind: ColumnKind,
    pub index: usize,
}

/// A location of the grid: a column and an absolute row.
#[derive(Clone, Copy, Debug, PartialEq, Eq, Structural)]
pub struct Cell {
    pub column: Column,
    pub row: usize,
}

/// A signed row offset, relative to the row at which a gate is evaluated.
#[derive(Clone, Copy, Debug, PartialEq, Eq, Structural)]
pub struct Rotation(pub i32);

impl Column {
    /// The witness column number `index`.
    pub fn witness(index: usize) -> (c: Column)
        ensures
            c == (Column { kind: ColumnKind::Witness, index }),
    {
        Column { kind: ColumnKind::Witness, index }
    }

    /// The fixed column number `index`.
    pub fn fixed(index: usize) -> (c: Column)
        ensures
            c == (Column { kind: ColumnKind::Fixed, index }),
    {
        Column { kind: ColumnKind::Fixed, index }
    }

    /// The public column number `index`.
    pub fn public(index: usize) -> (c: Column)
        ensures
            c == (Column { kind: ColumnKind::Public, index }),
    {
        Column { kind: ColumnKind::Public, index }
    }
}

impl Rotation {
    /// The row itself.
    pub fn cur() -> (r: Rotation)
        ensures
            r.0 == 0,
    {
        Rotation(0)
    }

    /// The row before.
    pub fn prev() -> (r: Rotation)
        ensures
            r.0 == -1,
    {
        Rotation(-1)
    }

    /// The row after.
    pub fn next() -> (r: Rotation)
        ensures
            r.0 == 1,
    {
        Rotation(1)
    }

    /// The row that this rotation reaches from `row` in a grid of `rows` rows,
    /// wrapping around at both ends.
    pub open spec fn target(self, row: int, rows: int) -> int {
        (row + self.0) % rows
    }

    /// Computes `target`.
    pub fn resolve(self, row: usize, rows: usize) -> (t: usize)
        requires
            row < rows,
        ensures
            t == self.target(row as int, rows as int),
            t < rows,
    {
        let off: i32 = self.0;
        if off >= 0 {
            let d: usize = (off as u32 as usize) % rows;
            let gap: usize = rows - d;
            proof {
                let q = (off as int) / (rows as int);
                assert(off as int == q * rows + d) by (nonlinear_arith)
                    requires
                        rows > 0,
                        q == (off as int) / (rows as int),
                        d == (off as int) % (rows as int),
                ;
                lemma_wrap(row as int, off as int, d as int, q, rows as int);
            }
            if row < gap {
                row + d
            } else {
                row - gap
            }
        } else {
            let back: i64 = -(off as i64);
            let d: usize = (back as u32 as usize) % rows;
            proof {
                let q = (back as int) / (rows as int);
                assert(off as int == (-q) * rows + (-d)) by (nonlinear_arith)
                    requires
                        rows > 0,
                        off == -back,
                        q == (back as int) / (rows as int),
                        d == (back as int) % (rows as int),
                ;
                lemma_wrap(row as int, off as int, -(d as int), -q, rows as int);
            }
            if row >= d {
                row - d
            } else {
                row + (rows - d)
            }
        }
    }
}

/// Where `off` is `d` plus `q` times `rows`, and `d` is smaller than `rows`
/// in magnitude, `row + off` wraps to `row + d`, moved by one `rows` where
/// that leaves the grid.
proof fn lemma_wrap(row: int, off: int, d: int, q: int, rows: int)
    requires
        0 <= row < rows,
        -rows < d < rows,
        off == q * rows + d,
    ensures
        0 <= row + d < rows ==> (row + off) % rows == row + d,
        row + d >= rows ==> (row + off) % rows == row + d - rows,
        row + d < 0 ==> (row + off) % rows == row + d + rows,
{
    if row + d >= rows {
        assert(row + off == (q + 1) * rows + (row + d - rows)) by (nonlinear_arith)
            requires
                off == q * rows + d,
        ;
        vstd::arithmetic::div_mod::lemma_fundamental_div_mod_converse(
            row + off,
            rows,
            q + 1,
            row + d - rows,
        );
    } else if row + d < 0 {
        assert(row + off == (q - 1) * rows + (row + d + rows)) by (nonlinear_arith)
            requires
                off == q * rows + d,
        ;
        vstd::arithmetic::div_mod::lemma_fundamental_div_mod_converse(
            row + off,
            rows,
            q - 1,
            row + d + rows,
        );
    } else {
        vstd::arithmetic::div_mod::lemma_fundamental_div_mod_converse(row + off, rows, q, row + d);
    }
}

} // verus!
