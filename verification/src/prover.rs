//! The mock prover: it configures and lays out the sample circuit on a grid
//! of `2^k` rows, and checks the result against a public input.

use crate::checker::{
    binding_error, binding_fails, binding_holds, check, copies_hold, copy_error, copy_fails,
    failing, gate_holds_at, gate_holds_before, gates_hold, lemma_binding_failures,
    lemma_copy_failures, lemma_failing_none, lemma_failing_single, lemma_gate_failures, reports,
    satisfied, tells, value_at,
};
use crate::circuit::{added_columns, configured, SampleCircuit};
use crate::classes::Classes;
use crate::column::{Cell, Column, ColumnKind};
use crate::constraint_system::ConstraintSystem;
use crate::error::Error;
use crate::field::{fadd, fmul, lemma_field_closed, modulus, Fe};
use crate::gates::{lemma_gate_values, lemma_idle_row, lemma_rows_vanish};
use crate::grid::all_canonical;
use crate::layouter::{lemma_cell_index, Layouter};
use crate::value::Value;
use vstd::arithmetic::power2::pow2;
use vstd::prelude::*;

verus! {

/// A circuit's description, its layout for one witness, and the public
/// input to check it against.
pub struct MockProver {
    pub cs: ConstraintSystem,
    pub layouter: Layouter,
    pub public: Vec<Fe>,
}

/// Whether the system has no column and no gate.
pub open spec fn is_empty(cs: &ConstraintSystem) -> bool {
    &&& cs.witness_equality@.len() == 0
    &&& cs.num_fixed == 0
    &&& cs.public_equality@.len() == 0
    &&& cs.gates@.len() == 0
}

impl MockProver {
    /// The parts are well formed, and the layout is one of the system's
    /// columns.
    pub open spec fn wf(&self) -> bool {
        &&& self.cs.wf()
        &&& self.layouter.wf()
        &&& all_canonical(self.public@)
        &&& self.layouter.grid.witness@.len() == self.cs.num_witness()
        &&& self.layouter.public_equality@.len() == self.cs.num_public()
    }

    /// Whether the witness satisfies the circuit for the public input.
    pub open spec fn satisfied(&self) -> bool {
        satisfied(
            &self.cs,
            &self.layouter.grid,
            &self.layouter.classes,
            self.layouter.bindings@,
            self.public@,
        )
    }

    /// Whether `list` reports every failure of the check and nothing else.
    pub open spec fn reports(&self, list: Seq<Error>) -> bool {
        reports(
            &self.cs,
            &self.layouter.grid,
            &self.layouter.classes,
            self.layouter.bindings@,
            self.public@,
            list,
        )
    }

    /// Whether the prover holds the sample circuit, configured on an empty
    /// system and laid out on a blank grid of `2^k` rows.
    pub open spec fn ran(&self, circuit: &SampleCircuit, k: u32) -> bool {
        exists|empty: ConstraintSystem, blank: Layouter|
            {
                &&& is_empty(&empty)
                &&& #[trigger] configured(&empty, &self.cs)
                &&& #[trigger] blank.blank(&self.cs, k)
                &&& circuit.laid_out(added_columns(&empty), &blank, &self.layouter)
            }
    }

    /// Whether a grid of `2^k` rows for the sample circuit can be addressed
    /// on this machine.
    pub open spec fn runnable(k: u32) -> bool {
        &&& pow2(k as nat) <= usize::MAX
        &&& 4 * pow2(k as nat) <= usize::MAX
    }

    /// Computes `runnable`.
    pub fn can_run(k: u32) -> (r: bool)
        ensures
            r == Self::runnable(k),
    {
        let mut cs = ConstraintSystem::new();
        match SampleCircuit::configure(&mut cs) {
            Ok(_) => Layouter::can_hold(&cs, k),
            Err(_) => false,
        }
    }

    /// Configures the sample circuit and lays it out on `2^k` rows. A grid of
    /// fewer than four rows is too small.
    pub fn run(k: u32, circuit: &SampleCircuit, public: Vec<Fe>) -> (r: Result<MockProver, Error>)
        requires
            circuit.wf(),
            all_canonical(public@),
            Self::runnable(k),
        ensures
            pow2(k as nat) < 4 ==> r == Err::<MockProver, Error>(Error::RegionOverflow),
            pow2(k as nat) >= 4 ==> (r matches Ok(p) && p.wf() && p.ran(circuit, k) && p.public@
                == public@),
    {
        let mut cs = ConstraintSystem::new();
        let ghost empty = cs;
        let config = SampleCircuit::configure(&mut cs)?;
        let mut layouter = Layouter::new(&cs, k);
        let ghost blank = layouter;
        circuit.synthesize(config, &mut layouter)?;
        let prover = MockProver { cs, layouter, public };
        proof {
            assert(is_empty(&empty));
            assert(configured(&empty, &prover.cs));
            assert(blank.blank(&prover.cs, k));
            assert(circuit.laid_out(added_columns(&empty), &blank, &prover.layouter));
        }
        Ok(prover)
    }

    /// Runs the sample circuit on `2^k` rows and checks it against the public
    /// input. A grid of fewer than four rows is too small, and that is the
    /// one failure reported. On a larger grid the failures are those of the
    /// circuit's `verdict`: with known witnesses there is none exactly where
    /// the public input starts with the constant and the circuit's output.
    pub fn run_and_verify(k: u32, circuit: &SampleCircuit, public: Vec<Fe>) -> (r: Result<
        (),
        Vec<Error>,
    >)
        requires
            circuit.wf(),
            all_canonical(public@),
            Self::runnable(k),
        ensures
            pow2(k as nat) < 4 ==> (r matches Err(list) && list@ == seq![Error::RegionOverflow]),
            pow2(k as nat) >= 4 ==> (r is Ok <==> verdict(circuit, public@).len() == 0),
            pow2(k as nat) >= 4 ==> (r matches Err(list) ==> list@ == verdict(circuit, public@)),
            pow2(k as nat) >= 4 ==> forall|row: usize|
                #![trigger mismatch_at(circuit, public@, row)]
                #![trigger r->Err_0@.contains(Error::PublicInputMismatch(row))]
                mismatch_at(circuit, public@, row) <==> r is Err && r->Err_0@.contains(
                    Error::PublicInputMismatch(row),
                ),
            pow2(k as nat) >= 4 ==> (public@.len() < 2 <==> r is Err && r->Err_0@.contains(
                Error::MissingPublicInput,
            )),
    {
        let prover = match Self::run(k, circuit, public) {
            Ok(prover) => prover,
            Err(e) => {
                let mut list: Vec<Error> = Vec::new();
                list.push(e);
                assert(list@ =~= seq![Error::RegionOverflow]);
                return Err(list);
            },
        };
        let r = prover.verify();
        proof {
            lemma_sample_verdict(&prover, circuit, k);
            lemma_verdict_holds(circuit, prover.public@);
        }
        r
    }

    /// Checks the gates, the copy constraints and the public input bindings,
    /// and reports every failure found: those of the gates first, then those
    /// of the copy constraints, then those of the bindings.
    pub fn verify(&self) -> (r: Result<(), Vec<Error>>)
        requires
            self.wf(),
        ensures
            r is Ok <==> self.satisfied(),
            r matches Err(list) ==> self.reports(list@) && tells(
                &self.cs,
                &self.layouter.grid,
                &self.layouter.classes,
                self.layouter.bindings@,
                self.public@,
                list@,
            ),
    {
        check(
            &self.layouter.grid,
            &self.cs,
            &self.layouter.classes,
            &self.layouter.bindings,
            &self.public,
        )
    }
}

/// What the sample circuit computes from `x`, `y` and the constant `c`.
pub open spec fn output(x: int, y: int, c: int) -> int {
    (x * x * y * y + c) % modulus()
}

/// The output, computed as the circuit's rows compute it: the squares, their
/// product, and the sum with the constant, each reduced.
pub proof fn lemma_output(x: int, y: int, c: int)
    ensures
        fadd(fmul(fmul(x, x), fmul(y, y)), c) == output(x, y, c),
{
    let p = modulus();
    vstd::arithmetic::div_mod::lemma_mul_mod_noop(x * x, y * y, p);
    assert((x * x) * (y * y) == x * x * y * y) by (nonlinear_arith);
    vstd::arithmetic::div_mod::lemma_add_mod_noop((x * x) * (y * y), c, p);
    vstd::arithmetic::div_mod::lemma_add_mod_noop(fmul(fmul(x, x), fmul(y, y)), c, p);
    vstd::arithmetic::div_mod::lemma_mod_twice((x * x) * (y * y), p);
}

/// The witness cell at `row` of the witness column number `index`.
pub open spec fn witness_cell(index: usize, row: usize) -> Cell {
    Cell { column: Column { kind: ColumnKind::Witness, index }, row }
}

/// The two values that the sample circuit binds to the public input: the
/// constant and the output where both witnesses are known, and zeros where
/// the fourth row was laid out without values.
pub open spec fn exposed(circuit: &SampleCircuit) -> (int, int) {
    match (circuit.x, circuit.y) {
        (Value::Known(x), Value::Known(y)) => (
            circuit.constant@,
            output(x@, y@, circuit.constant@),
        ),
        _ => (0, 0),
    }
}

/// The copy constraint that fails where one witness alone is known: the
/// third row is laid out without values, and its left or right cell is
/// bound to the square of the known witness, which differs from zero.
pub open spec fn broken_copy(circuit: &SampleCircuit) -> Option<(Cell, Cell)> {
    match (circuit.x, circuit.y) {
        (Value::Known(x), Value::Unknown) => if fmul(x@, x@) != 0 {
            Some((witness_cell(0, 2), witness_cell(2, 0)))
        } else {
            None
        },
        (Value::Unknown, Value::Known(y)) => if fmul(y@, y@) != 0 {
            Some((witness_cell(1, 2), witness_cell(2, 1)))
        } else {
            None
        },
        _ => None,
    }
}

/// Whether the public input starts with `c` and `z`.
pub open spec fn expected_input(public: Seq<Fe>, c: int, z: int) -> bool {
    public.len() >= 2 && public[0]@ == c && public[1]@ == z
}

/// The failure of a binding of the value `v` to a row of the public input,
/// if it fails: a missing public input where the public input is too short
/// for the row, a mismatch at the row where it holds another value.
pub open spec fn row_failure(public: Seq<Fe>, row: usize, v: int) -> Seq<Error> {
    if row >= public.len() {
        seq![Error::MissingPublicInput]
    } else if public[row as int]@ != v {
        seq![Error::PublicInputMismatch(row)]
    } else {
        Seq::empty()
    }
}

/// The failure of the copy constraint that a lone known witness breaks, if
/// there is one.
pub open spec fn copy_failure(circuit: &SampleCircuit) -> Seq<Error> {
    match broken_copy(circuit) {
        Some(pair) => seq![Error::CopyMismatch(pair.0, pair.1)],
        None => Seq::empty(),
    }
}

/// The failures that the check of the sample circuit reports for a public
/// input, on a grid that has room for it: the broken copy constraint, if
/// there is one; then for row 0 and for row 1 of the public input the
/// failure of the binding of the exposed value to it, if it fails.
pub open spec fn verdict(circuit: &SampleCircuit, public: Seq<Fe>) -> Seq<Error> {
    copy_failure(circuit) + row_failure(public, 0, exposed(circuit).0) + row_failure(
        public,
        1,
        exposed(circuit).1,
    )
}

/// Whether the check of the sample circuit reports a mismatch at this row
/// of the public input: the row is one of the two that the circuit binds,
/// the public input has it, and it holds another value than the one exposed
/// to it.
pub open spec fn mismatch_at(circuit: &SampleCircuit, public: Seq<Fe>, row: usize) -> bool {
    &&& row < 2
    &&& row < public.len()
    &&& public[row as int]@ != (if row == 0 {
        exposed(circuit).0
    } else {
        exposed(circuit).1
    })
}

/// What the `verdict` holds: a mismatch at a row exactly where `mismatch_at`
/// says so, a missing public input exactly where the public input has fewer
/// than two rows, and a copy mismatch exactly for the copy constraint that
/// `broken_copy` names.
pub proof fn lemma_verdict_holds(circuit: &SampleCircuit, public: Seq<Fe>)
    ensures
        forall|row: usize| #[trigger]
            verdict(circuit, public).contains(Error::PublicInputMismatch(row)) <==> mismatch_at(
                circuit,
                public,
                row,
            ),
        verdict(circuit, public).contains(Error::MissingPublicInput) <==> public.len() < 2,
        forall|a: Cell, b: Cell| #[trigger]
            verdict(circuit, public).contains(Error::CopyMismatch(a, b)) <==> broken_copy(circuit)
                == Some((a, b)),
        verdict(circuit, public).len() == 0 <==> broken_copy(circuit) is None && expected_input(
            public,
            exposed(circuit).0,
            exposed(circuit).1,
        ),
{
    let first = copy_failure(circuit);
    let second = row_failure(public, 0, exposed(circuit).0);
    let third = row_failure(public, 1, exposed(circuit).1);
    let all = verdict(circuit, public);
    assert forall|e: Error| #[trigger]
        all.contains(e) <==> first.contains(e) || second.contains(e) || third.contains(e) by {
        if all.contains(e) {
            let j = choose|j: int| 0 <= j < all.len() && all[j] == e;
            if j < first.len() {
                assert(first[j] == e);
            } else if j < first.len() + second.len() {
                assert(second[j - first.len()] == e);
            } else {
                assert(third[j - first.len() - second.len()] == e);
            }
        }
        if first.contains(e) {
            let j = choose|j: int| 0 <= j < first.len() && first[j] == e;
            assert(all[j] == e);
        }
        if second.contains(e) {
            let j = choose|j: int| 0 <= j < second.len() && second[j] == e;
            assert(all[first.len() + j] == e);
        }
        if third.contains(e) {
            let j = choose|j: int| 0 <= j < third.len() && third[j] == e;
            assert(all[first.len() + second.len() + j] == e);
        }
    }
    lemma_at_most_one(first);
    lemma_at_most_one(second);
    lemma_at_most_one(third);
}

/// A sequence of at most one error holds an error exactly where it has one
/// and that is the error.
proof fn lemma_at_most_one(s: Seq<Error>)
    requires
        s.len() <= 1,
    ensures
        forall|e: Error| #[trigger] s.contains(e) <==> s.len() == 1 && s[0] == e,
{
    assert forall|e: Error| #[trigger] s.contains(e) <==> s.len() == 1 && s[0] == e by {
        if s.contains(e) {
            let j = choose|j: int| 0 <= j < s.len() && s[j] == e;
            assert(j == 0);
        }
        if s.len() == 1 && s[0] == e {
            assert(s[0] == e);
        }
    }
}

/// The state that `ran` describes, with the empty system and the blank
/// layouter that it started from.
spec fn ran_from(
    prover: &MockProver,
    circuit: &SampleCircuit,
    k: u32,
    empty: &ConstraintSystem,
    blank: &Layouter,
) -> bool {
    &&& is_empty(empty)
    &&& configured(empty, &prover.cs)
    &&& blank.blank(&prover.cs, k)
    &&& circuit.laid_out(added_columns(empty), blank, &prover.layouter)
    &&& circuit.wf()
}

/// After a run every gate holds at every row.
proof fn lemma_sample_gates(
    prover: &MockProver,
    circuit: &SampleCircuit,
    k: u32,
    empty: &ConstraintSystem,
    blank: &Layouter,
)
    requires
        ran_from(prover, circuit, k, empty, blank),
    ensures
        gates_hold(&prover.cs, &prover.layouter.grid, prover.public@),
{
    let config = added_columns(empty);
    let grid = &prover.layouter.grid;
    let public = prover.public@;
    assert(0int * 0int == 0);
    assert forall|g: int| 0 <= g < prover.cs.gates@.len() implies gate_holds_before(
        #[trigger] &prover.cs.gates@[g],
        grid,
        public,
        grid.rows as int,
    ) by {
        let gate = &prover.cs.gates@[g];
        assert forall|row: int| 0 <= row < grid.rows implies #[trigger] gate_holds_at(
            gate,
            grid,
            public,
            row,
        ) by {
            lemma_gate_values(config, grid, public, row);
            let l = grid.value(public, config.l, row);
            let r = grid.value(public, config.r, row);
            let o = grid.value(public, config.o, row);
            let pi = grid.value(public, config.pi, row);
            assert(grid.value(public, config.sp, row) == 0);
            assert(grid.value(public, config.sc, row) == 0);
            lemma_idle_row(l, r, o, pi);
            lemma_field_closed(l, r);
            if row < 3 {
                assert(o == fmul(l, r));
                assert(grid.value(public, config.sm, row) == 1);
                assert(grid.value(public, config.so, row) == 1);
                assert(grid.value(public, config.sl, row) == 0);
                assert(grid.value(public, config.sr, row) == 0);
                lemma_rows_vanish(l, r, o, 0);
            } else if row == 3 {
                assert(o == fadd(l, r));
                assert(grid.value(public, config.sm, row) == 0);
                assert(grid.value(public, config.so, row) == 1);
                assert(grid.value(public, config.sl, row) == 1);
                assert(grid.value(public, config.sr, row) == 1);
                lemma_rows_vanish(l, r, o, 0);
            } else {
                assert(grid.value(public, config.sm, row) == 0);
                assert(grid.value(public, config.so, row) == 0);
                assert(grid.value(public, config.sl, row) == 0);
                assert(grid.value(public, config.sr, row) == 0);
            }
            assert forall|p: int| 0 <= p < gate.polys@.len() implies (
            #[trigger] gate.polys@[p]).eval(grid, public, row) == 0 by {}
        }
    }
}

/// After a run the cells of each class hold one value, unless one witness
/// alone is known and its square is not zero: then the copy constraint that
/// `broken_copy` names is the one that fails, and the one that is reported.
proof fn lemma_sample_copies(
    prover: &MockProver,
    circuit: &SampleCircuit,
    k: u32,
    empty: &ConstraintSystem,
    blank: &Layouter,
)
    requires
        ran_from(prover, circuit, k, empty, blank),
    ensures
        copies_hold(&prover.layouter.grid, &prover.layouter.classes, prover.public@)
            <==> broken_copy(circuit) is None,
        failing(
            copy_fails(&prover.layouter.grid, &prover.layouter.classes, prover.public@),
            prover.layouter.classes.len() as int,
        ).map_values(copy_error(&prover.layouter.grid, &prover.layouter.classes)) == copy_failure(
            circuit,
        ),
{
    let config = added_columns(empty);
    let grid = &prover.layouter.grid;
    let classes = &prover.layouter.classes;
    let public = prover.public@;
    let rows = grid.rows as int;
    let at = |column: Column, row: int| Cell { column, row: row as usize };
    lemma_cell_index(3, 4, rows, at(config.l, 0));
    lemma_cell_index(3, 4, rows, at(config.l, 1));
    lemma_cell_index(3, 4, rows, at(config.l, 2));
    lemma_cell_index(3, 4, rows, at(config.l, 3));
    lemma_cell_index(3, 4, rows, at(config.r, 0));
    lemma_cell_index(3, 4, rows, at(config.r, 1));
    lemma_cell_index(3, 4, rows, at(config.r, 2));
    lemma_cell_index(3, 4, rows, at(config.o, 0));
    lemma_cell_index(3, 4, rows, at(config.o, 1));
    lemma_cell_index(3, 4, rows, at(config.o, 2));
    let n = classes.len() as int;
    let a0 = blank.index(at(config.l, 0));
    let b0 = blank.index(at(config.r, 0));
    let c0 = blank.index(at(config.o, 0));
    let a1 = blank.index(at(config.l, 1));
    let b1 = blank.index(at(config.r, 1));
    let c1 = blank.index(at(config.o, 1));
    let a2 = blank.index(at(config.l, 2));
    let b2 = blank.index(at(config.r, 2));
    let c2 = blank.index(at(config.o, 2));
    let a3 = blank.index(at(config.l, 3));
    assert(config.l.index == 0 && config.r.index == 1 && config.o.index == 2);
    assert(blank.witness_equality@.len() == 3);
    assert(0 * rows == 0 && 1 * rows == rows);
    assert(a0 == 0 && a1 == 1 && a2 == 2 && a3 == 3);
    assert(b0 == rows && b1 == rows + 1 && b2 == rows + 2);
    assert(c0 == 2 * rows && c1 == 2 * rows + 1 && c2 == 2 * rows + 2);
    assert(n == 4 * rows);
    let f0 = blank.classes.reps();
    let f1 = Classes::merge(f0, a0, b0);
    let f2 = Classes::merge(f1, a1, b1);
    let f3 = Classes::merge(f2, a2, c0);
    let f4 = Classes::merge(f3, b2, c1);
    let f5 = Classes::merge(f4, a3, c2);
    assert(f5 == SampleCircuit::linked(config, blank, 4));
    assert forall|j: int| 0 <= j < n implies #[trigger] f0(j) == j by {
        assert(blank.classes.rep(j) == j);
    }
    assert forall|j: int| 0 <= j < n implies #[trigger] f1(j) == (if j == a0 {
        b0
    } else {
        j
    }) by {
        assert(f0(j) == j && f0(a0) == a0 && f0(b0) == b0);
    }
    assert forall|j: int| 0 <= j < n implies #[trigger] f2(j) == (if j == a1 {
        b1
    } else {
        f1(j)
    }) by {
        assert(f1(a1) == a1 && f1(b1) == b1);
    }
    assert forall|j: int| 0 <= j < n implies #[trigger] f3(j) == (if j == a2 {
        c0
    } else {
        f2(j)
    }) by {
        assert(f2(a2) == a2 && f2(c0) == c0);
        assert(f1(j) == j || f1(j) == b0);
    }
    assert forall|j: int| 0 <= j < n implies #[trigger] f4(j) == (if j == b2 {
        c1
    } else {
        f3(j)
    }) by {
        assert(f3(b2) == b2 && f3(c1) == c1);
        assert(f2(j) == j || f2(j) == b0 || f2(j) == b1);
    }
    assert forall|j: int| 0 <= j < n implies #[trigger] f5(j) == (if j == a3 {
        c2
    } else {
        f4(j)
    }) by {
        assert(f4(a3) == a3 && f4(c2) == c2);
        assert(f3(j) == j || f3(j) == b0 || f3(j) == b1 || f3(j) == c0);
    }
    let bad: int = match (circuit.x, circuit.y) {
        (Value::Known(_), Value::Unknown) => a2,
        (Value::Unknown, Value::Known(_)) => b2,
        _ => -1,
    };
    assert forall|i: int| 0 <= i < n && i != bad implies value_at(grid, public, i) == value_at(
        grid,
        public,
        #[trigger] classes.rep(i),
    ) by {
        assert(classes.rep(i) == f5(i));
    }
    assert(classes.rep(a2) == c0) by {
        assert(classes.rep(a2) == f5(a2));
    }
    assert(classes.rep(b2) == c1) by {
        assert(classes.rep(b2) == f5(b2));
    }
    let fails = copy_fails(grid, classes, public);
    let listed = failing(fails, n).map_values(copy_error(grid, classes));
    if broken_copy(circuit) is None {
        if bad >= 0 {
            assert(value_at(grid, public, bad) == value_at(grid, public, classes.rep(bad)));
        }
        assert forall|i: int| 0 <= i < n implies !#[trigger] fails(i) by {
            assert(value_at(grid, public, i) == value_at(grid, public, classes.rep(i)));
        }
        lemma_failing_none(fails, n);
        assert(listed =~= copy_failure(circuit));
    } else {
        assert(value_at(grid, public, bad) != value_at(grid, public, classes.rep(bad)));
        assert forall|i: int| 0 <= i < n implies (#[trigger] fails(i) <==> i == bad) by {
            if i != bad {
                assert(value_at(grid, public, i) == value_at(grid, public, classes.rep(i)));
            }
        }
        lemma_failing_single(fails, n, bad, n);
        assert(listed =~= copy_failure(circuit));
    }
    lemma_copy_failures(grid, classes, public);
}

/// After a run there are two bindings, to rows 0 and 1 of the public input:
/// each holds where the public input has that row and the exposed value is
/// in it.
proof fn lemma_sample_bindings(
    prover: &MockProver,
    circuit: &SampleCircuit,
    k: u32,
    empty: &ConstraintSystem,
    blank: &Layouter,
)
    requires
        ran_from(prover, circuit, k, empty, blank),
    ensures
        prover.layouter.bindings@.len() == 2,
        prover.layouter.bindings@[0].1 == 0,
        prover.layouter.bindings@[1].1 == 1,
        binding_holds(&prover.layouter.grid, prover.public@, prover.layouter.bindings@[0])
            <==> prover.public@.len() > 0 && prover.public@[0]@ == exposed(circuit).0,
        binding_holds(&prover.layouter.grid, prover.public@, prover.layouter.bindings@[1])
            <==> prover.public@.len() > 1 && prover.public@[1]@ == exposed(circuit).1,
        failing(
            binding_fails(&prover.layouter.grid, prover.layouter.bindings@, prover.public@),
            prover.layouter.bindings@.len() as int,
        ).map_values(binding_error(prover.layouter.bindings@, prover.public@)) == row_failure(
            prover.public@,
            0,
            exposed(circuit).0,
        ) + row_failure(prover.public@, 1, exposed(circuit).1),
{
    let config = added_columns(empty);
    let grid = &prover.layouter.grid;
    let public = prover.public@;
    if circuit.x is Known && circuit.y is Known {
        lemma_output(circuit.x->Known_0@, circuit.y->Known_0@, circuit.constant@);
    }
    assert(grid.value(public, config.r, 3) == exposed(circuit).0);
    assert(grid.value(public, config.o, 3) == exposed(circuit).1);
    let bindings = prover.layouter.bindings@;
    let fails = binding_fails(grid, bindings, public);
    reveal_with_fuel(failing, 3);
    assert(failing(fails, 2).map_values(binding_error(bindings, public)) =~= row_failure(
        public,
        0,
        exposed(circuit).0,
    ) + row_failure(public, 1, exposed(circuit).1));
}

/// For all field elements `x`, `y` and `c`, the sample circuit laid out for
/// the witnesses `x` and `y` and the constant `c` satisfies its gates, copy
/// constraints and bindings for the public input `[c, x^2 * y^2 + c]`.
pub proof fn lemma_sample_accepted(prover: &MockProver, circuit: &SampleCircuit, k: u32)
    requires
        circuit.wf(),
        circuit.x is Known,
        circuit.y is Known,
        prover.ran(circuit, k),
        prover.public@.len() == 2,
        prover.public@[0]@ == circuit.constant@,
        prover.public@[1]@ == output(circuit.x->Known_0@, circuit.y->Known_0@, circuit.constant@),
    ensures
        prover.satisfied(),
{
    lemma_sample_verdict(prover, circuit, k);
}

/// The sample circuit laid out on a grid satisfies its gates whatever the
/// witnesses and the public input are. Its copy constraints hold unless one
/// witness alone is known and its square is not zero. It is satisfied
/// exactly where its `verdict` holds no failure, and a list that reports
/// every failure of the check is its `verdict`.
pub proof fn lemma_sample_verdict(prover: &MockProver, circuit: &SampleCircuit, k: u32)
    requires
        circuit.wf(),
        prover.ran(circuit, k),
    ensures
        gates_hold(&prover.cs, &prover.layouter.grid, prover.public@),
        copies_hold(&prover.layouter.grid, &prover.layouter.classes, prover.public@)
            <==> broken_copy(circuit) is None,
        prover.satisfied() <==> verdict(circuit, prover.public@).len() == 0,
        forall|list: Seq<Error>| #[trigger]
            prover.reports(list) ==> list == verdict(circuit, prover.public@),
{
    let (empty, blank) = choose|empty: ConstraintSystem, blank: Layouter|
        {
            &&& is_empty(&empty)
            &&& #[trigger] configured(&empty, &prover.cs)
            &&& #[trigger] blank.blank(&prover.cs, k)
            &&& circuit.laid_out(added_columns(&empty), &blank, &prover.layouter)
        };
    lemma_sample_gates(prover, circuit, k, &empty, &blank);
    lemma_sample_copies(prover, circuit, k, &empty, &blank);
    lemma_sample_bindings(prover, circuit, k, &empty, &blank);
    let grid = &prover.layouter.grid;
    let bindings = prover.layouter.bindings@;
    let public = prover.public@;
    lemma_gate_failures(&prover.cs, grid, public, prover.cs.gates@.len() as int);
    lemma_binding_failures(grid, bindings, public);
    assert forall|list: Seq<Error>| #[trigger] prover.reports(list) implies list == verdict(
        circuit,
        public,
    ) by {
        let copies = copy_failure(circuit).len() as int;
        assert(list =~= list.subrange(0, copies) + list.subrange(copies, list.len() as int));
        assert(list.subrange(0, 0) =~= Seq::<Error>::empty());
    }
}

} // verus!
