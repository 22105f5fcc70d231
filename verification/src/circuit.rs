//! A sample circuit: it computes `x^2 * y^2 + c` with three multiplication
//! rows and one addition row, and exposes `c` and the result as public
//! inputs.

use crate::classes::Classes;
use crate::column::{Cell, Column, ColumnKind};
use crate::composer::{CustomChip, CustomConfig};
use crate::constraint_system::ConstraintSystem;
use crate::error::Error;
use crate::expression::Expression;
use crate::field::{fadd, fmul, Fe};
use crate::gates::{build_main_gate, build_public_gate, main_gate, public_gate};
use crate::layouter::Layouter;
use crate::value::{spec_triple, triple, Triple, Value};
use vstd::prelude::*;

verus! {

/// The circuit for `x^2 * y^2 + constant`. The witnesses `x` and `y` may be
/// unknown; the constant is part of the circuit.
#[derive(Clone, Copy, Debug)]
pub struct SampleCircuit {
    pub x: Value<Fe>,
    pub y: Value<Fe>,
    pub constant: Fe,
}

/// The columns that `configure` adds to a system: three witness columns,
/// six fixed columns in the order `sm`, `sl`, `sr`, `so`, `sc`, `sp`, and a
/// public column.
pub open spec fn added_columns(cs: &ConstraintSystem) -> CustomConfig {
    let w = cs.num_witness();
    let f = cs.num_fixed as int;
    CustomConfig {
        l: Column { kind: ColumnKind::Witness, index: w as usize },
        r: Column { kind: ColumnKind::Witness, index: (w + 1) as usize },
        o: Column { kind: ColumnKind::Witness, index: (w + 2) as usize },
        sm: Column { kind: ColumnKind::Fixed, index: f as usize },
        sl: Column { kind: ColumnKind::Fixed, index: (f + 1) as usize },
        sr: Column { kind: ColumnKind::Fixed, index: (f + 2) as usize },
        so: Column { kind: ColumnKind::Fixed, index: (f + 3) as usize },
        sc: Column { kind: ColumnKind::Fixed, index: (f + 4) as usize },
        sp: Column { kind: ColumnKind::Fixed, index: (f + 5) as usize },
        pi: Column { kind: ColumnKind::Public, index: cs.num_public() as usize },
    }
}

/// Whether `after` is `before` with the sample circuit's columns and its two
/// gates added.
pub open spec fn configured(before: &ConstraintSystem, after: &ConstraintSystem) -> bool {
    let config = added_columns(before);
    let n = before.gates@.len() as int;
    &&& after.wf()
    &&& after.witness_equality@ == before.witness_equality@ + seq![true, true, true]
    &&& after.num_fixed == before.num_fixed + 6
    &&& after.public_equality@ == before.public_equality@.push(true)
    &&& after.gates@.len() == n + 2
    &&& forall|g: int| 0 <= g < n ==> after.gates@[g] == before.gates@[g]
    &&& after.gates@[n].name@ == "mini plonk"@
    &&& after.gates@[n].polys@ == seq![main_gate(config)]
    &&& after.gates@[n + 1].name@ == "public input"@
    &&& after.gates@[n + 1].polys@ == seq![public_gate(config)]
}

impl SampleCircuit {
    /// The known witnesses and the constant are canonical.
    pub open spec fn wf(&self) -> bool {
        self.x.wf() && self.y.wf() && self.constant.wf()
    }

    /// The triple that the circuit lays in its row number `k`: the squares of
    /// `x` and of `y`, their product, and the sum of that product and the
    /// constant. A row that needs an unknown witness is unknown.
    pub open spec fn row_values(&self, k: int) -> Option<(int, int, int)> {
        let c = self.constant@;
        if k == 0 {
            match self.x {
                Value::Known(x) => Some((x@, x@, fmul(x@, x@))),
                Value::Unknown => None,
            }
        } else if k == 1 {
            match self.y {
                Value::Known(y) => Some((y@, y@, fmul(y@, y@))),
                Value::Unknown => None,
            }
        } else {
            match (self.x, self.y) {
                (Value::Known(x), Value::Known(y)) => {
                    let xx = fmul(x@, x@);
                    let yy = fmul(y@, y@);
                    if k == 2 {
                        Some((xx, yy, fmul(xx, yy)))
                    } else {
                        Some((fmul(xx, yy), c, fadd(fmul(xx, yy), c)))
                    }
                },
                _ => None,
            }
        }
    }

    /// The selectors that the circuit sets in its row number `k`: those of a
    /// multiplication in the first three rows, those of an addition in the
    /// fourth.
    pub open spec fn row_selectors(config: CustomConfig, k: int) -> Set<Column> {
        if k == 3 {
            config.add_selectors()
        } else {
            config.mul_selectors()
        }
    }

    /// The classes after the copy constraints of the circuit's first `count`
    /// rows, on a layouter whose first unused row was `before.next_row`: in
    /// each of the first two rows left and right are bound, the outputs of
    /// these rows to the left and right of the third, and the output of the
    /// third to the left of the fourth.
    pub open spec fn linked(config: CustomConfig, before: &Layouter, count: int) -> spec_fn(
        int,
    ) -> int {
        let n = before.next_row;
        let first = Classes::merge(
            before.classes.reps(),
            before.index(Cell { column: config.l, row: n }),
            before.index(Cell { column: config.r, row: n }),
        );
        let second = Classes::merge(
            first,
            before.index(Cell { column: config.l, row: (n + 1) as usize }),
            before.index(Cell { column: config.r, row: (n + 1) as usize }),
        );
        let third = Classes::merge(
            second,
            before.index(Cell { column: config.l, row: (n + 2) as usize }),
            before.index(Cell { column: config.o, row: n }),
        );
        let fourth = Classes::merge(
            third,
            before.index(Cell { column: config.r, row: (n + 2) as usize }),
            before.index(Cell { column: config.o, row: (n + 1) as usize }),
        );
        let fifth = Classes::merge(
            fourth,
            before.index(Cell { column: config.l, row: (n + 3) as usize }),
            before.index(Cell { column: config.o, row: (n + 2) as usize }),
        );
        if count <= 0 {
            before.classes.reps()
        } else if count == 1 {
            first
        } else if count == 2 {
            second
        } else if count == 3 {
            fourth
        } else {
            fifth
        }
    }

    /// The bindings after the circuit's first `count` rows: with the fourth
    /// row, its right and its output cell are bound to rows 0 and 1 of the
    /// public input.
    pub open spec fn bound(config: CustomConfig, before: &Layouter, count: int) -> Seq<
        (Cell, usize),
    > {
        let n = before.next_row;
        if count < 4 {
            before.bindings@
        } else {
            before.bindings@.push(
                (Cell { column: config.r, row: (n + 3) as usize }, 0usize),
            ).push((Cell { column: config.o, row: (n + 3) as usize }, 1usize))
        }
    }

    /// Whether `after` is `before` with the first `count` rows of the circuit
    /// laid out from the first unused row on: the rows' cells assigned, their
    /// copy constraints made, and with the fourth row the bindings. The open
    /// region is the last that was opened: that of the row after these, or
    /// that of the fourth row.
    pub open spec fn laid_rows(
        &self,
        config: CustomConfig,
        before: &Layouter,
        after: &Layouter,
        count: int,
    ) -> bool {
        let last = if count < 3 {
            count
        } else {
            3
        };
        &&& self.laid_cells(config, before, after, count)
        &&& after.region.start == before.next_row + last
        &&& after.region.name@ == (if last < 3 {
            "mul"@
        } else {
            "add"@
        })
    }

    /// Whether `after` is `before` with the first `count` rows of the circuit
    /// laid out from the first unused row on, whatever region is open.
    pub open spec fn laid_cells(
        &self,
        config: CustomConfig,
        before: &Layouter,
        after: &Layouter,
        count: int,
    ) -> bool {
        let n = before.next_row as int;
        &&& after.wf()
        &&& after.witness_equality == before.witness_equality
        &&& after.public_equality == before.public_equality
        &&& after.grid.rows == before.grid.rows
        &&& after.grid.witness@.len() == before.grid.witness@.len()
        &&& after.grid.fixed@.len() == before.grid.fixed@.len()
        &&& after.next_row == n + count
        &&& after.bindings@ == Self::bound(config, before, count)
        &&& after.classes.len() == before.classes.len()
        &&& after.classes.follows(Self::linked(config, before, count))
        &&& forall|c: Column, r: int| #[trigger]
            after.assigned(c, r) == (before.assigned(c, r) || (n <= r < n + count && (c == config.l
                || c == config.r || c == config.o || Self::row_selectors(config, r - n).contains(
                c,
            ))))
        &&& forall|public: Seq<Fe>, c: Column, r: int| #[trigger]
            after.grid.value(public, c, r) == (if n <= r < n + count && config.written(
                self.row_values(r - n),
                Self::row_selectors(config, r - n),
                c,
            ) is Some {
                config.written(
                    self.row_values(r - n),
                    Self::row_selectors(config, r - n),
                    c,
                )->Some_0
            } else {
                before.grid.value(public, c, r)
            })
    }

    /// Whether `after` is `before` with the whole circuit laid out on the four
    /// rows from the first unused one.
    pub open spec fn laid_out(
        &self,
        config: CustomConfig,
        before: &Layouter,
        after: &Layouter,
    ) -> bool {
        self.laid_rows(config, before, after, 4)
    }

    /// The circuit without its witnesses, for laying out its shape.
    pub fn without_witnesses(&self) -> (c: SampleCircuit)
        ensures
            c.x is Unknown,
            c.y is Unknown,
            c.constant@ == 0,
            c.wf(),
    {
        SampleCircuit { x: Value::Unknown, y: Value::Unknown, constant: Fe::zero() }
    }

    /// Declares the circuit's columns, enables the witness columns and the
    /// public column for equality, and creates the arithmetic gate and the
    /// public input gate.
    pub fn configure(cs: &mut ConstraintSystem) -> (r: Result<CustomConfig, Error>)
        requires
            old(cs).wf(),
            old(cs).num_fixed <= usize::MAX - 6,
        ensures
            r == Ok::<CustomConfig, Error>(added_columns(old(cs))),
            configured(old(cs), final(cs)),
    {
        let ghost before = *cs;
        let l = cs.new_witness_column();
        let r = cs.new_witness_column();
        let o = cs.new_witness_column();

        cs.enable_equality(l)?;
        cs.enable_equality(r)?;
        cs.enable_equality(o)?;
        assert(cs.witness_equality@ =~= before.witness_equality@ + seq![true, true, true]);

        let sm = cs.new_fixed_column();
        let sl = cs.new_fixed_column();
        let sr = cs.new_fixed_column();
        let so = cs.new_fixed_column();
        let sc = cs.new_fixed_column();
        let sp = cs.new_fixed_column();

        let pi = cs.new_public_column();
        cs.enable_equality(pi)?;

        let config = CustomConfig { l, r, o, sl, sr, so, sm, sc, sp, pi };

        let arithmetic = || -> (polys: Vec<Expression>)
            ensures
                polys@ == seq![main_gate(config)],
                main_gate(config).wf(),
        {
            let mut polys: Vec<Expression> = Vec::new();
            polys.push(build_main_gate(&config));
            assert(polys@ =~= seq![main_gate(config)]);
            polys
        };
        cs.create_gate("mini plonk", arithmetic);

        let exposure = || -> (polys: Vec<Expression>)
            ensures
                polys@ == seq![public_gate(config)],
                public_gate(config).wf(),
        {
            let mut polys: Vec<Expression> = Vec::new();
            polys.push(build_public_gate(&config));
            assert(polys@ =~= seq![public_gate(config)]);
            polys
        };
        cs.create_gate("public input", exposure);

        proof {
            assert(cs.witness_equality.len() == before.witness_equality.len() + 3);
            assert(cs.public_equality@ =~= before.public_equality@.push(true));
            let n = before.gates@.len() as int;
        }
        Ok(config)
    }

    /// Lays the circuit out: the squares of `x` and `y`, their product, and
    /// the sum of the product and the constant, each row bound to the rows
    /// that feed it; the constant and the sum are exposed at rows 0 and 1 of
    /// the public input. Where fewer than four rows are left, the synthesis
    /// fails with an overflow, and the rows that found room stay laid out.
    pub fn synthesize(&self, config: CustomConfig, layouter: &mut Layouter) -> (r: Result<
        (),
        Error,
    >)
        requires
            old(layouter).wf(),
            config.fits(old(layouter)),
            self.wf(),
        ensures
            final(layouter).wf(),
            old(layouter).next_row + 4 > old(layouter).grid.rows ==> r == Err::<(), Error>(
                Error::RegionOverflow,
            ) && self.laid_rows(
                config,
                old(layouter),
                final(layouter),
                old(layouter).grid.rows - old(layouter).next_row,
            ),
            old(layouter).next_row + 4 <= old(layouter).grid.rows ==> r is Ok && self.laid_out(
                config,
                old(layouter),
                final(layouter),
            ),
    {
        let cs = CustomChip::new(config);
        let x = self.x;
        let y = self.y;
        let consty = Value::known(self.constant);
        let ghost s0 = *layouter;
        proof {
            assert(self.laid_cells(config, &s0, &s0, 0));
        }

        let xx = x.mul(x);
        let squares_x = || -> (t: Triple)
            ensures
                t == spec_triple(x, x, xx),
        {
            triple(x, x, xx)
        };
        let (a0, b0, c0) = cs.raw_multiply(layouter, squares_x)?;
        let ghost s1 = *layouter;
        cs.copy(layouter, a0, b0)?;
        let ghost t1 = *layouter;
        proof {
            s0.lemma_index_in_range(a0);
            s0.lemma_index_in_range(b0);
            s0.lemma_index_in_range(c0);
            assert forall|c: Column, r: int| #[trigger]
                t1.assigned(c, r) == s1.assigned(c, r) by {}
            assert forall|public: Seq<Fe>, c: Column, r: int| #[trigger]
                t1.grid.value(public, c, r) == s1.grid.value(public, c, r) by {}
            assert(self.laid_cells(config, &s0, &t1, 1));
        }

        let yy = y.mul(y);
        let squares_y = || -> (t: Triple)
            ensures
                t == spec_triple(y, y, yy),
        {
            triple(y, y, yy)
        };
        let (a1, b1, c1) = cs.raw_multiply(layouter, squares_y)?;
        let ghost s2 = *layouter;
        cs.copy(layouter, a1, b1)?;
        let ghost t2 = *layouter;
        proof {
            s0.lemma_index_in_range(a1);
            s0.lemma_index_in_range(b1);
            s0.lemma_index_in_range(c1);
            assert forall|c: Column, r: int| #[trigger]
                t2.assigned(c, r) == s2.assigned(c, r) by {}
            assert forall|public: Seq<Fe>, c: Column, r: int| #[trigger]
                t2.grid.value(public, c, r) == s2.grid.value(public, c, r) by {}
            assert(self.laid_cells(config, &s0, &t2, 2));
        }

        let xxyy = xx.mul(yy);
        let multiplies = || -> (t: Triple)
            ensures
                t == spec_triple(xx, yy, xxyy),
        {
            triple(xx, yy, xxyy)
        };
        let (a2, b2, c2) = cs.raw_multiply(layouter, multiplies)?;
        let ghost s3 = *layouter;
        cs.copy(layouter, a2, c0)?;
        let ghost u3 = *layouter;
        cs.copy(layouter, b2, c1)?;
        let ghost t3 = *layouter;
        proof {
            s0.lemma_index_in_range(a2);
            s0.lemma_index_in_range(b2);
            s0.lemma_index_in_range(c2);
            let third = Classes::merge(Self::linked(config, &s0, 2), s0.index(a2), s0.index(c0));
            assert(u3.classes.follows(third));
            assert forall|c: Column, r: int| #[trigger]
                t3.assigned(c, r) == s3.assigned(c, r) by {}
            assert forall|public: Seq<Fe>, c: Column, r: int| #[trigger]
                t3.grid.value(public, c, r) == s3.grid.value(public, c, r) by {}
            assert(self.laid_cells(config, &s0, &t3, 3));
        }

        let sum = xxyy.add(consty);
        let adds = || -> (t: Triple)
            ensures
                t == spec_triple(xxyy, consty, sum),
        {
            triple(xxyy, consty, sum)
        };
        let (a3, b3, c3) = cs.raw_add(layouter, adds)?;
        let ghost s4 = *layouter;
        cs.copy(layouter, a3, c2)?;
        let ghost t4 = *layouter;

        cs.expose_public(layouter, b3, 0)?;
        cs.expose_public(layouter, c3, 1)?;

        proof {
            s0.lemma_index_in_range(a3);
            assert forall|c: Column, r: int| #[trigger]
                layouter.assigned(c, r) == s4.assigned(c, r) by {}
            assert forall|public: Seq<Fe>, c: Column, r: int| #[trigger]
                layouter.grid.value(public, c, r) == s4.grid.value(public, c, r) by {}
            assert(self.laid_rows(config, &s0, layouter, 4));
        }
        Ok(())
    }
}

} // verus!
