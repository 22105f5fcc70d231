//! The description of a circuit: its columns, which of them take part in
//! copy constraints, and its gates.

use crate::column::{Column, ColumnKind};
use crate::error::Error;
use crate::expression::Expression;
use vstd::prelude::*;

verus! {

/// A named set of polynomials, each of which must vanish at every row.
#[derive(Debug)]
pub struct Gate {
    pub name: String,
    pub polys: Vec<Expression>,
}

/// Columns and gates, collected while a circuit is configured.
#[derive(Debug)]
pub struct ConstraintSystem {
    /// One flag per witness column: whether it is enabled for equality.
    pub witness_equality: Vec<bool>,
    /// The number of fixed columns.
    pub num_fixed: usize,
    /// One flag per public column: whether it is enabled for equality.
    pub public_equality: Vec<bool>,
    /// The gates, in the order of their creation.
    pub gates: Vec<Gate>,
}

/// Whether every polynomial of the sequence has canonical constants.
pub open spec fn polys_wf(polys: Seq<Expression>) -> bool {
    forall|p: int| 0 <= p < polys.len() ==> (#[trigger] polys[p]).wf()
}

impl ConstraintSystem {
    /// Every polynomial of every gate has canonical constants.
    pub open spec fn wf(&self) -> bool {
        forall|g: int| 0 <= g < self.gates@.len() ==> polys_wf((#[trigger] self.gates@[g]).polys@)
    }

    /// The number of witness columns.
    pub open spec fn num_witness(&self) -> nat {
        self.witness_equality.len() as nat
    }

    /// The number of public columns.
    pub open spec fn num_public(&self) -> nat {
        self.public_equality.len() as nat
    }

    /// Whether `column` is one of the system's columns.
    pub open spec fn declares(&self, column: Column) -> bool {
        match column.kind {
            ColumnKind::Witness => column.index < self.num_witness(),
            ColumnKind::Fixed => column.index < self.num_fixed,
            ColumnKind::Public => column.index < self.num_public(),
        }
    }

    /// Whether `column` is a witness or public column of the system that is
    /// enabled for equality.
    pub open spec fn equality_enabled(&self, column: Column) -> bool {
        match column.kind {
            ColumnKind::Witness => column.index < self.num_witness()
                && self.witness_equality@[column.index as int],
            ColumnKind::Fixed => false,
            ColumnKind::Public => column.index < self.num_public()
                && self.public_equality@[column.index as int],
        }
    }

    /// A system without columns or gates.
    pub fn new() -> (cs: ConstraintSystem)
        ensures
            cs.wf(),
            cs.num_witness() == 0,
            cs.num_fixed == 0,
            cs.num_public() == 0,
            cs.gates@.len() == 0,
    {
        ConstraintSystem {
            witness_equality: Vec::new(),
            num_fixed: 0,
            public_equality: Vec::new(),
            gates: Vec::new(),
        }
    }

    /// Declares a witness column, not enabled for equality.
    pub fn new_witness_column(&mut self) -> (column: Column)
        ensures
            column == (Column {
                kind: ColumnKind::Witness,
                index: old(self).witness_equality.len(),
            }),
            final(self).witness_equality@ == old(self).witness_equality@.push(false),
            final(self).num_fixed == old(self).num_fixed,
            final(self).public_equality == old(self).public_equality,
            final(self).gates == old(self).gates,
    {
        let index = self.witness_equality.len();
        self.witness_equality.push(false);
        Column { kind: ColumnKind::Witness, index }
    }

    /// Declares a fixed column.
    pub fn new_fixed_column(&mut self) -> (column: Column)
        requires
            old(self).num_fixed < usize::MAX,
        ensures
            column == (Column { kind: ColumnKind::Fixed, index: old(self).num_fixed }),
            final(self).num_fixed == old(self).num_fixed + 1,
            final(self).witness_equality == old(self).witness_equality,
            final(self).public_equality == old(self).public_equality,
            final(self).gates == old(self).gates,
    {
        let index = self.num_fixed;
        self.num_fixed = index + 1;
        Column { kind: ColumnKind::Fixed, index }
    }

    /// Declares a public column, not enabled for equality.
    pub fn new_public_column(&mut self) -> (column: Column)
        ensures
            column == (Column { kind: ColumnKind::Public, index: old(self).public_equality.len() }),
            final(self).public_equality@ == old(self).public_equality@.push(false),
            final(self).num_fixed == old(self).num_fixed,
            final(self).witness_equality == old(self).witness_equality,
            final(self).gates == old(self).gates,
    {
        let index = self.public_equality.len();
        self.public_equality.push(false);
        Column { kind: ColumnKind::Public, index }
    }

    /// Enables a witness or public column of the system for equality. Any
    /// other column is refused, and the system stays as it was.
    pub fn enable_equality(&mut self, column: Column) -> (r: Result<(), Error>)
        ensures
            r is Ok <==> column.kind != ColumnKind::Fixed && old(self).declares(column),
            r is Err ==> r == Err::<(), Error>(Error::EqualityNotEnabled) && *final(self) == *old(
                self,
            ),
            r is Ok ==> final(self).equality_enabled(column),
            r is Ok && column.kind == ColumnKind::Witness ==> final(self).witness_equality@
                == old(self).witness_equality@.update(column.index as int, true)
                && final(self).public_equality == old(self).public_equality,
            r is Ok && column.kind == ColumnKind::Public ==> final(self).public_equality@ == old(
                self,
            ).public_equality@.update(column.index as int, true) && final(self).witness_equality
                == old(self).witness_equality,
            final(self).num_fixed == old(self).num_fixed,
            final(self).gates == old(self).gates,
    {
        match column.kind {
            ColumnKind::Witness => {
                if column.index < self.witness_equality.len() {
                    self.witness_equality[column.index] = true;
                    Ok(())
                } else {
                    Err(Error::EqualityNotEnabled)
                }
            },
            ColumnKind::Fixed => Err(Error::EqualityNotEnabled),
            ColumnKind::Public => {
                if column.index < self.public_equality.len() {
                    self.public_equality[column.index] = true;
                    Ok(())
                } else {
                    Err(Error::EqualityNotEnabled)
                }
            },
        }
    }

    /// Computes `equality_enabled`.
    pub fn is_equality_enabled(&self, column: Column) -> (r: bool)
        ensures
            r == self.equality_enabled(column),
    {
        match column.kind {
            ColumnKind::Witness => column.index < self.witness_equality.len()
                && self.witness_equality[column.index],
            ColumnKind::Fixed => false,
            ColumnKind::Public => column.index < self.public_equality.len()
                && self.public_equality[column.index],
        }
    }

    /// Adds a gate: each of the polynomials that one call of `constraints`
    /// gives must vanish at every row.
    pub fn create_gate<F: FnOnce() -> Vec<Expression>>(&mut self, name: &str, constraints: F)
        requires
            old(self).wf(),
            call_requires(constraints, ()),
            forall|polys: Vec<Expression>|
                call_ensures(constraints, (), polys) ==> polys_wf(polys@),
        ensures
            final(self).wf(),
            final(self).gates@.len() == old(self).gates@.len() + 1,
            forall|g: int|
                0 <= g < old(self).gates@.len() ==> final(self).gates@[g] == old(self).gates@[g],
            final(self).gates@.last().name@ == name@,
            call_ensures(constraints, (), final(self).gates@.last().polys),
            final(self).witness_equality == old(self).witness_equality,
            final(self).num_fixed == old(self).num_fixed,
            final(self).public_equality == old(self).public_equality,
    {
        let polys = constraints();
        let gate = Gate { name: name.to_owned(), polys };
        self.gates.push(gate);
    }
}

} // verus!
