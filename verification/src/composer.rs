//! The operations that a circuit is written in: one row of multiplication,
//! one row of addition, a copy constraint, and a public input.

use crate::classes::Classes;
use crate::column::{Cell, Column, ColumnKind};
use crate::error::Error;
use crate::field::Fe;
use crate::layouter::Layouter;
use crate::value::{triple_view, triple_wf, Triple, Value};
use vstd::prelude::*;

verus! {

/// The columns of the arithmetic gate
/// `l * sl + r * sr + (l * r) * sm - o * so + sc = 0`
/// and of the public input gate `sp * (l - pi) = 0`.
#[derive(Clone, Copy, Debug)]
pub struct CustomConfig {
    pub l: Column,
    pub r: Column,
    pub o: Column,
    pub sl: Column,
    pub sr: Column,
    pub so: Column,
    pub sm: Column,
    pub sc: Column,
    pub sp: Column,
    pub pi: Column,
}

impl CustomConfig {
    /// Three different witness columns, six different fixed columns and a
    /// public column.
    pub open spec fn wf(&self) -> bool {
        &&& self.l.kind == ColumnKind::Witness
        &&& self.r.kind == ColumnKind::Witness
        &&& self.o.kind == ColumnKind::Witness
        &&& self.l != self.r && self.l != self.o && self.r != self.o
        &&& self.sl.kind == ColumnKind::Fixed
        &&& self.sr.kind == ColumnKind::Fixed
        &&& self.so.kind == ColumnKind::Fixed
        &&& self.sm.kind == ColumnKind::Fixed
        &&& self.sc.kind == ColumnKind::Fixed
        &&& self.sp.kind == ColumnKind::Fixed
        &&& self.sl != self.sr && self.sl != self.so && self.sl != self.sm && self.sl != self.sc
            && self.sl != self.sp
        &&& self.sr != self.so && self.sr != self.sm && self.sr != self.sc && self.sr != self.sp
        &&& self.so != self.sm && self.so != self.sc && self.so != self.sp
        &&& self.sm != self.sc && self.sm != self.sp
        &&& self.sc != self.sp
        &&& self.pi.kind == ColumnKind::Public
    }

    /// The columns are columns of the layouter's grid, and the witness
    /// columns and the public column are enabled for equality.
    pub open spec fn fits(&self, layouter: &Layouter) -> bool {
        &&& self.wf()
        &&& layouter.equality_enabled(self.l)
        &&& layouter.equality_enabled(self.r)
        &&& layouter.equality_enabled(self.o)
        &&& layouter.equality_enabled(self.pi)
        &&& self.sl.index < layouter.grid.fixed@.len()
        &&& self.sr.index < layouter.grid.fixed@.len()
        &&& self.so.index < layouter.grid.fixed@.len()
        &&& self.sm.index < layouter.grid.fixed@.len()
        &&& self.sc.index < layouter.grid.fixed@.len()
        &&& self.sp.index < layouter.grid.fixed@.len()
    }

    /// Computes `wf`.
    pub fn is_wf(&self) -> (r: bool)
        ensures
            r == self.wf(),
    {
        let witness = self.l.kind == ColumnKind::Witness && self.r.kind == ColumnKind::Witness
            && self.o.kind == ColumnKind::Witness && self.l.index != self.r.index && self.l.index
            != self.o.index && self.r.index != self.o.index;
        let fixed = self.sl.kind == ColumnKind::Fixed && self.sr.kind == ColumnKind::Fixed
            && self.so.kind == ColumnKind::Fixed && self.sm.kind == ColumnKind::Fixed
            && self.sc.kind == ColumnKind::Fixed && self.sp.kind == ColumnKind::Fixed;
        let apart = self.sl.index != self.sr.index && self.sl.index != self.so.index
            && self.sl.index != self.sm.index && self.sl.index != self.sc.index && self.sl.index
            != self.sp.index && self.sr.index != self.so.index && self.sr.index != self.sm.index
            && self.sr.index != self.sc.index && self.sr.index != self.sp.index && self.so.index
            != self.sm.index && self.so.index != self.sc.index && self.so.index != self.sp.index
            && self.sm.index != self.sc.index && self.sm.index != self.sp.index && self.sc.index
            != self.sp.index;
        witness && fixed && apart && self.pi.kind == ColumnKind::Public
    }

    /// Computes `fits`.
    pub fn is_fit(&self, layouter: &Layouter) -> (r: bool)
        ensures
            r == self.fits(layouter),
    {
        let fixed = layouter.grid.fixed.len();
        self.is_wf() && layouter.is_equality_enabled(self.l) && layouter.is_equality_enabled(
            self.r,
        ) && layouter.is_equality_enabled(self.o) && layouter.is_equality_enabled(self.pi)
            && self.sl.index < fixed && self.sr.index < fixed && self.so.index < fixed
            && self.sm.index < fixed && self.sc.index < fixed && self.sp.index < fixed
    }

    /// The selectors that a multiplication row sets to one.
    pub open spec fn mul_selectors(&self) -> Set<Column> {
        set![self.sm, self.so]
    }

    /// The selectors that an addition row sets to one.
    pub open spec fn add_selectors(&self) -> Set<Column> {
        set![self.sl, self.sr, self.so]
    }

    /// What an arithmetic row writes into `column`, if anything: the parts of
    /// a known triple into the witness columns, and one into each selector of
    /// `ones`.
    pub open spec fn written(
        &self,
        values: Option<(int, int, int)>,
        ones: Set<Column>,
        column: Column,
    ) -> Option<int> {
        if column == self.l {
            match values {
                Some(v) => Some(v.0),
                None => None,
            }
        } else if column == self.r {
            match values {
                Some(v) => Some(v.1),
                None => None,
            }
        } else if column == self.o {
            match values {
                Some(v) => Some(v.2),
                None => None,
            }
        } else if ones.contains(column) {
            Some(1)
        } else {
            None
        }
    }

    /// Whether `after` is `before` with one more row, laid in a region of this
    /// name at the first unused row: the three witness cells and the
    /// selectors of `ones` assigned there, and nothing else changed.
    pub open spec fn lays_row(
        &self,
        before: &Layouter,
        after: &Layouter,
        name: Seq<char>,
        values: Option<(int, int, int)>,
        ones: Set<Column>,
    ) -> bool {
        &&& after.wf()
        &&& after.same_frame(before)
        &&& after.region.name@ == name
        &&& after.region.start == before.next_row
        &&& after.next_row == before.next_row + 1
        &&& forall|c: Column, r: int| #[trigger]
            after.assigned(c, r) == (before.assigned(c, r) || (r == before.next_row && (c == self.l
                || c == self.r || c == self.o || ones.contains(c))))
        &&& forall|public: Seq<Fe>, c: Column, r: int| #[trigger]
            after.grid.value(public, c, r) == (if r == before.next_row && self.written(
                values,
                ones,
                c,
            ) is Some {
                self.written(values, ones, c)->Some_0
            } else {
                before.grid.value(public, c, r)
            })
    }
}

/// The chip that lays out rows of the arithmetic gate.
#[derive(Clone, Copy, Debug)]
pub struct CustomChip {
    pub config: CustomConfig,
}

/// The three parts of a triple, each known where the triple is.
fn parts(values: Triple) -> (p: (Value<Fe>, Value<Fe>, Value<Fe>))
    requires
        triple_wf(values),
    ensures
        p.0.wf() && p.1.wf() && p.2.wf(),
        values matches Value::Known(v) ==> p == (
            Value::Known(v.0),
            Value::Known(v.1),
            Value::Known(v.2),
        ),
        values is Unknown ==> p == (
            Value::<Fe>::Unknown,
            Value::<Fe>::Unknown,
            Value::<Fe>::Unknown,
        ),
{
    match values {
        Value::Known((a, b, c)) => (Value::Known(a), Value::Known(b), Value::Known(c)),
        Value::Unknown => (Value::Unknown, Value::Unknown, Value::Unknown),
    }
}

impl CustomChip {
    /// The chip for these columns.
    pub fn new(config: CustomConfig) -> (chip: CustomChip)
        ensures
            chip.config == config,
    {
        CustomChip { config }
    }

    /// Lays out one multiplication row in a region of its own: the triple
    /// `(l, r, o)` that one call of `f` gives in the witness cells, and the
    /// selectors `sm` and `so` set to one. Returns the three witness cells.
    /// Where the grid has no row left, the region is opened and stays empty.
    pub fn raw_multiply<FM: FnOnce() -> Triple>(&self, layouter: &mut Layouter, f: FM) -> (r:
        Result<(Cell, Cell, Cell), Error>)
        requires
            old(layouter).wf(),
            self.config.fits(old(layouter)),
            call_requires(f, ()),
            forall|values: Triple| call_ensures(f, (), values) ==> triple_wf(values),
        ensures
            final(layouter).wf(),
            old(layouter).next_row >= old(layouter).grid.rows ==> r == Err::<
                (Cell, Cell, Cell),
                Error,
            >(
                Error::RegionOverflow,
            ) && final(layouter).opened(old(layouter), "mul"@),
            old(layouter).next_row < old(layouter).grid.rows ==> r == Ok::<
                (Cell, Cell, Cell),
                Error,
            >(
                (
                    Cell { column: self.config.l, row: old(layouter).next_row },
                    Cell { column: self.config.r, row: old(layouter).next_row },
                    Cell { column: self.config.o, row: old(layouter).next_row },
                ),
            ) && exists|values: Triple|
                call_ensures(f, (), values) && #[trigger] self.config.lays_row(
                    old(layouter),
                    final(layouter),
                    "mul"@,
                    triple_view(values),
                    self.config.mul_selectors(),
                ),
    {
        let values = f();
        let ghost before = *layouter;
        layouter.begin_region("mul");
        let (lv, rv, ov) = parts(values);
        let left = || -> (v: Value<Fe>)
            ensures
                v == lv,
        {
            lv
        };
        let right = || -> (v: Value<Fe>)
            ensures
                v == rv,
        {
            rv
        };
        let output = || -> (v: Value<Fe>)
            ensures
                v == ov,
        {
            ov
        };
        let one = || -> (v: Value<Fe>)
            ensures
                v is Known,
                v.wf(),
                v->Known_0@ == 1,
        {
            Value::known(Fe::one())
        };
        let lhs = layouter.assign_advice(self.config.l, 0, left)?;
        let rhs = layouter.assign_advice(self.config.r, 0, right)?;
        let out = layouter.assign_advice(self.config.o, 0, output)?;
        layouter.assign_fixed(self.config.sm, 0, one)?;
        layouter.assign_fixed(self.config.so, 0, one)?;
        assert(self.config.lays_row(
            &before,
            layouter,
            "mul"@,
            triple_view(values),
            self.config.mul_selectors(),
        ));
        Ok((lhs, rhs, out))
    }

    /// Lays out one addition row in a region of its own: the triple
    /// `(l, r, o)` that one call of `f` gives in the witness cells, and the
    /// selectors `sl`, `sr` and `so` set to one. Returns the three witness
    /// cells. Where the grid has no row left, the region is opened and stays
    /// empty.
    pub fn raw_add<FM: FnOnce() -> Triple>(&self, layouter: &mut Layouter, f: FM) -> (r: Result<
        (Cell, Cell, Cell),
        Error,
    >)
        requires
            old(layouter).wf(),
            self.config.fits(old(layouter)),
            call_requires(f, ()),
            forall|values: Triple| call_ensures(f, (), values) ==> triple_wf(values),
        ensures
            final(layouter).wf(),
            old(layouter).next_row >= old(layouter).grid.rows ==> r == Err::<
                (Cell, Cell, Cell),
                Error,
            >(
                Error::RegionOverflow,
            ) && final(layouter).opened(old(layouter), "add"@),
            old(layouter).next_row < old(layouter).grid.rows ==> r == Ok::<
                (Cell, Cell, Cell),
                Error,
            >(
                (
                    Cell { column: self.config.l, row: old(layouter).next_row },
                    Cell { column: self.config.r, row: old(layouter).next_row },
                    Cell { column: self.config.o, row: old(layouter).next_row },
                ),
            ) && exists|values: Triple|
                call_ensures(f, (), values) && #[trigger] self.config.lays_row(
                    old(layouter),
                    final(layouter),
                    "add"@,
                    triple_view(values),
                    self.config.add_selectors(),
                ),
    {
        let values = f();
        let ghost before = *layouter;
        layouter.begin_region("add");
        let (lv, rv, ov) = parts(values);
        let left = || -> (v: Value<Fe>)
            ensures
                v == lv,
        {
            lv
        };
        let right = || -> (v: Value<Fe>)
            ensures
                v == rv,
        {
            rv
        };
        let output = || -> (v: Value<Fe>)
            ensures
                v == ov,
        {
            ov
        };
        let one = || -> (v: Value<Fe>)
            ensures
                v is Known,
                v.wf(),
                v->Known_0@ == 1,
        {
            Value::known(Fe::one())
        };
        let lhs = layouter.assign_advice(self.config.l, 0, left)?;
        let rhs = layouter.assign_advice(self.config.r, 0, right)?;
        let out = layouter.assign_advice(self.config.o, 0, output)?;
        layouter.assign_fixed(self.config.sl, 0, one)?;
        layouter.assign_fixed(self.config.sr, 0, one)?;
        layouter.assign_fixed(self.config.so, 0, one)?;
        assert(self.config.lays_row(
            &before,
            layouter,
            "add"@,
            triple_view(values),
            self.config.add_selectors(),
        ));
        Ok((lhs, rhs, out))
    }

    /// Binds two cells to be equal. Cells that are bound already stay so, and
    /// the classes stay as they are.
    pub fn copy(&self, layouter: &mut Layouter, a: Cell, b: Cell) -> (r: Result<(), Error>)
        requires
            old(layouter).wf(),
        ensures
            final(layouter).wf(),
            final(layouter).same_cells(old(layouter)),
            final(layouter).bindings == old(layouter).bindings,
            !(old(layouter).equality_enabled(a.column) && old(layouter).equality_enabled(b.column))
                ==> r == Err::<(), Error>(Error::EqualityNotEnabled),
            old(layouter).equality_enabled(a.column) && old(layouter).equality_enabled(b.column)
                && !(a.row < old(layouter).grid.rows && b.row < old(layouter).grid.rows) ==> r
                == Err::<(), Error>(Error::RegionOverflow),
            old(layouter).equality_enabled(a.column) && old(layouter).equality_enabled(b.column)
                && a.row < old(layouter).grid.rows && b.row < old(layouter).grid.rows ==> r is Ok,
            r is Err ==> *final(layouter) == *old(layouter),
            r is Ok ==> Classes::merged(
                old(layouter).classes,
                final(layouter).classes,
                old(layouter).index(a),
                old(layouter).index(b),
            ),
            r is Ok && old(layouter).classes.same(old(layouter).index(a), old(layouter).index(b))
                ==> forall|i: int|
                0 <= i < old(layouter).classes.len() ==> #[trigger] final(layouter).classes.rep(i)
                    == old(layouter).classes.rep(i),
    {
        layouter.constrain_equal(a, b)
    }

    /// Binds a cell to a row of the public input.
    pub fn expose_public(&self, layouter: &mut Layouter, cell: Cell, row: usize) -> (r: Result<
        (),
        Error,
    >)
        requires
            old(layouter).wf(),
        ensures
            final(layouter).wf(),
            final(layouter).same_cells(old(layouter)),
            final(layouter).classes == old(layouter).classes,
            !old(layouter).bindable(cell, self.config.pi) ==> r == Err::<(), Error>(
                Error::EqualityNotEnabled,
            ),
            old(layouter).bindable(cell, self.config.pi) && !(cell.row < old(layouter).grid.rows
                && row < old(layouter).grid.rows) ==> r == Err::<(), Error>(Error::RegionOverflow),
            old(layouter).bindable(cell, self.config.pi) && cell.row < old(layouter).grid.rows
                && row < old(layouter).grid.rows ==> r is Ok,
            r is Err ==> *final(layouter) == *old(layouter),
            r is Ok ==> final(layouter).bindings@ == old(layouter).bindings@.push((cell, row)),
    {
        layouter.constrain_instance(cell, self.config.pi, row)
    }
}

} // verus!
