//! Gate polynomials: expressions over column queries and constants, and
//! their value at a row of the grid.

use crate::column::{Column, Rotation};
use crate::field::{fadd, fmul, fneg, Fe};
use crate::grid::{all_canonical, Grid};
use vstd::prelude::*;

verus! {

/// A polynomial over the cells around a row.
#[derive(Debug)]
pub enum Expression {
    /// A constant of the field.
    Constant(Fe),
    /// The cell of a column, at a rotation from the row of evaluation.
    Query(Column, Rotation),
    /// The additive inverse of an expression.
    Negated(Box<Expression>),
    /// The sum of two expressions.
    Sum(Box<Expression>, Box<Expression>),
    /// The product of two expressions.
    Product(Box<Expression>, Box<Expression>),
}

impl Expression {
    /// Every constant in the expression is canonical.
    pub open spec fn wf(&self) -> bool
        decreases self,
    {
        match self {
            Expression::Constant(c) => c.wf(),
            Expression::Query(_, _) => true,
            Expression::Negated(a) => a.wf(),
            Expression::Sum(a, b) => a.wf() && b.wf(),
            Expression::Product(a, b) => a.wf() && b.wf(),
        }
    }

    /// The value of the expression at `row`: each query replaced by the cell
    /// that it reaches, and the operations done in the field.
    pub open spec fn eval(&self, grid: &Grid, public: Seq<Fe>, row: int) -> int
        decreases self,
    {
        match self {
            Expression::Constant(c) => c@,
            Expression::Query(column, rotation) => grid.value(
                public,
                *column,
                rotation.target(row, grid.rows as int),
            ),
            Expression::Negated(a) => fneg(a.eval(grid, public, row)),
            Expression::Sum(a, b) => fadd(a.eval(grid, public, row), b.eval(grid, public, row)),
            Expression::Product(a, b) => fmul(
                a.eval(grid, public, row),
                b.eval(grid, public, row),
            ),
        }
    }

    /// The constant `c`.
    pub fn constant(c: Fe) -> (e: Expression)
        ensures
            e == Expression::Constant(c),
    {
        Expression::Constant(c)
    }

    /// The cell of `column` at `rotation`.
    pub fn query(column: Column, rotation: Rotation) -> (e: Expression)
        ensures
            e == Expression::Query(column, rotation),
    {
        Expression::Query(column, rotation)
    }

    /// `-self`.
    pub fn neg(self) -> (e: Expression)
        ensures
            e == Expression::Negated(Box::new(self)),
    {
        Expression::Negated(Box::new(self))
    }

    /// `self + rhs`.
    pub fn add(self, rhs: Expression) -> (e: Expression)
        ensures
            e == Expression::Sum(Box::new(self), Box::new(rhs)),
    {
        Expression::Sum(Box::new(self), Box::new(rhs))
    }

    /// `self - rhs`, as the sum of `self` and `-rhs`.
    pub fn sub(self, rhs: Expression) -> (e: Expression)
        ensures
            e == Expression::Sum(
                Box::new(self),
                Box::new(Expression::Negated(Box::new(rhs))),
            ),
    {
        Expression::Sum(Box::new(self), Box::new(Expression::Negated(Box::new(rhs))))
    }

    /// `self * rhs`.
    pub fn mul(self, rhs: Expression) -> (e: Expression)
        ensures
            e == Expression::Product(Box::new(self), Box::new(rhs)),
    {
        Expression::Product(Box::new(self), Box::new(rhs))
    }

    /// A copy of the expression.
    pub fn duplicate(&self) -> (e: Expression)
        ensures
            e == *self,
        decreases self,
    {
        match self {
            Expression::Constant(c) => Expression::Constant(*c),
            Expression::Query(column, rotation) => Expression::Query(*column, *rotation),
            Expression::Negated(a) => Expression::Negated(Box::new(a.duplicate())),
            Expression::Sum(a, b) => Expression::Sum(
                Box::new(a.duplicate()),
                Box::new(b.duplicate()),
            ),
            Expression::Product(a, b) => Expression::Product(
                Box::new(a.duplicate()),
                Box::new(b.duplicate()),
            ),
        }
    }

    /// Computes `eval` by direct substitution.
    pub fn evaluate(&self, grid: &Grid, public: &Vec<Fe>, row: usize) -> (v: Fe)
        requires
            self.wf(),
            grid.wf(),
            all_canonical(public@),
            row < grid.rows,
        ensures
            v.wf(),
            v@ == self.eval(grid, public@, row as int),
        decreases self,
    {
        match self {
            Expression::Constant(c) => *c,
            Expression::Query(column, rotation) => {
                let target = rotation.resolve(row, grid.rows);
                grid.get(public, *column, target)
            },
            Expression::Negated(a) => {
                let x = a.evaluate(grid, public, row);
                x.neg()
            },
            Expression::Sum(a, b) => {
                let x = a.evaluate(grid, public, row);
                let y = b.evaluate(grid, public, row);
                x.add(&y)
            },
            Expression::Product(a, b) => {
                let x = a.evaluate(grid, public, row);
                let y = b.evaluate(grid, public, row);
                x.mul(&y)
            },
        }
    }
}

} // verus!
