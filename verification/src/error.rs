//! What can go wrong while a circuit is configured, laid out and checked.

use crate::column::Cell;
use vstd::prelude::*;

verus! {

/// The failures of configuration, synthesis and checking.
#[derive(Clone, Debug, PartialEq, Eq)]
pub enum Error {
    /// A cell was assigned a second time.
    CellAlreadyAssigned,
    /// A copy constraint or a public input binding names a column that is not
    /// enabled for equality.
    EqualityNotEnabled,
    /// The grid has too few rows for what is laid out on it.
    RegionOverflow,
    /// A gate of this name does not vanish at this row.
    UnsatisfiedGate(String, usize),
    /// The two cells are bound to be equal and hold different values.
    CopyMismatch(Cell, Cell),
    /// The cell bound to this row of the public input holds another value.
    PublicInputMismatch(usize),
    /// A cell is bound to a row past the end of the public input.
    MissingPublicInput,
}

} // verus!
