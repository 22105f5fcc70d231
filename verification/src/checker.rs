//! The satisfiability check: every gate vanishes at every row, the cells of
//! each class hold one value, and every bound cell holds its public input.
//! A check reports every failure that it finds.

use crate::classes::Classes;
use crate::column::{Cell, Column, ColumnKind};
use crate::constraint_system::{polys_wf, ConstraintSystem, Gate};
use crate::error::Error;
use crate::field::Fe;
use crate::grid::{all_canonical, Grid};
use crate::layouter::{index_cell, lemma_index_cell};
use vstd::prelude::*;

verus! {

/// Whether every polynomial of `gate` vanishes at `row`.
pub open spec fn gate_holds_at(gate: &Gate, grid: &Grid, public: Seq<Fe>, row: int) -> bool {
    forall|p: int|
        0 <= p < gate.polys@.len() ==> (#[trigger] gate.polys@[p]).eval(grid, public, row) == 0
}

/// Whether `gate` holds at each of the first `rows` rows.
pub open spec fn gate_holds_before(gate: &Gate, grid: &Grid, public: Seq<Fe>, rows: int) -> bool {
    forall|row: int| 0 <= row < rows ==> #[trigger] gate_holds_at(gate, grid, public, row)
}

/// Whether each of the first `count` gates holds at every row.
pub open spec fn gates_hold_before(
    cs: &ConstraintSystem,
    grid: &Grid,
    public: Seq<Fe>,
    count: int,
) -> bool {
    forall|g: int|
        0 <= g < count ==> gate_holds_before(
            #[trigger] &cs.gates@[g],
            grid,
            public,
            grid.rows as int,
        )
}

/// Whether every gate holds at every row.
pub open spec fn gates_hold(cs: &ConstraintSystem, grid: &Grid, public: Seq<Fe>) -> bool {
    gates_hold_before(cs, grid, public, cs.gates@.len() as int)
}

/// The indices below `n` at which `fails` holds, in increasing order.
pub open spec fn failing(fails: spec_fn(int) -> bool, n: int) -> Seq<int>
    decreases n,
{
    if n <= 0 {
        Seq::empty()
    } else if fails(n - 1) {
        failing(fails, n - 1).push(n - 1)
    } else {
        failing(fails, n - 1)
    }
}

/// `failing` lists exactly the indices below `n` at which `fails` holds,
/// each once and in increasing order; it is empty where `fails` holds at
/// none of them.
pub proof fn lemma_failing(fails: spec_fn(int) -> bool, n: int)
    ensures
        forall|i: int| #[trigger] failing(fails, n).contains(i) <==> 0 <= i < n && fails(i),
        forall|a: int, b: int|
            0 <= a < b < failing(fails, n).len() ==> failing(fails, n)[a] < failing(fails, n)[b],
        forall|a: int|
            0 <= a < failing(fails, n).len() ==> 0 <= #[trigger] failing(fails, n)[a] < n,
        failing(fails, n).len() == 0 <==> (forall|i: int| 0 <= i < n ==> !#[trigger] fails(i)),
    decreases n,
{
    if n > 0 {
        lemma_failing(fails, n - 1);
        let before = failing(fails, n - 1);
        let all = failing(fails, n);
        if fails(n - 1) {
            assert(all[all.len() - 1] == n - 1);
            assert forall|i: int| #[trigger] all.contains(i) <==> 0 <= i < n && fails(i) by {
                if all.contains(i) {
                    let j = choose|j: int| 0 <= j < all.len() && all[j] == i;
                    if j < before.len() {
                        assert(before[j] == i);
                        assert(before.contains(i));
                    }
                }
                if 0 <= i < n - 1 && fails(i) {
                    assert(before.contains(i));
                    let j = choose|j: int| 0 <= j < before.len() && before[j] == i;
                    assert(all[j] == i);
                }
            }
        } else {
            assert forall|i: int| #[trigger] all.contains(i) <==> 0 <= i < n && fails(i) by {
                assert(before.contains(i) <==> 0 <= i < n - 1 && fails(i));
            }
        }
    }
}

/// Where `fails` holds below `n` at `only` and nowhere else, `failing` lists
/// `only` once it is reached, and nothing before.
pub proof fn lemma_failing_single(fails: spec_fn(int) -> bool, n: int, only: int, m: int)
    requires
        0 <= only < n,
        0 <= m <= n,
        forall|i: int| 0 <= i < n ==> (#[trigger] fails(i) <==> i == only),
    ensures
        failing(fails, m) == (if m > only {
            seq![only]
        } else {
            Seq::<int>::empty()
        }),
    decreases m,
{
    if m > 0 {
        lemma_failing_single(fails, n, only, m - 1);
        if m - 1 == only {
            assert(failing(fails, m) =~= seq![only]);
        }
    }
}

/// Where `fails` holds nowhere below `n`, `failing` lists nothing.
pub proof fn lemma_failing_none(fails: spec_fn(int) -> bool, n: int)
    requires
        forall|i: int| 0 <= i < n ==> !#[trigger] fails(i),
    ensures
        failing(fails, n) == Seq::<int>::empty(),
{
    lemma_failing(fails, n);
    assert(failing(fails, n) =~= Seq::<int>::empty());
}

/// Whether `gate` fails at a row.
pub open spec fn gate_fails(gate: &Gate, grid: &Grid, public: Seq<Fe>) -> spec_fn(int) -> bool {
    |row: int| !gate_holds_at(gate, grid, public, row)
}

/// A row with the number of a gate, of which it is a row.
pub open spec fn in_gate(g: int) -> spec_fn(int) -> (int, int) {
    |row: int| (g, row)
}

/// The failures of the first `count` gates, each a gate's number and a row:
/// gate by gate, and within a gate row by row.
pub open spec fn gate_failures(
    cs: &ConstraintSystem,
    grid: &Grid,
    public: Seq<Fe>,
    count: int,
) -> Seq<(int, int)>
    decreases count,
{
    if count <= 0 {
        Seq::empty()
    } else {
        gate_failures(cs, grid, public, count - 1) + failing(
            gate_fails(&cs.gates@[count - 1], grid, public),
            grid.rows as int,
        ).map_values(in_gate(count - 1))
    }
}

/// Whether `e` reports the failure of a gate at a row, by the name of that
/// gate: `failure` is the number of that gate with the row.
pub open spec fn gate_error(cs: &ConstraintSystem, e: Error, failure: (int, int)) -> bool {
    e matches Error::UnsatisfiedGate(name, row) && name@ == cs.gates@[failure.0].name@ && row
        == failure.1
}

/// Whether the errors report these failures of gates, one for one.
pub open spec fn gate_errors(
    cs: &ConstraintSystem,
    list: Seq<Error>,
    failures: Seq<(int, int)>,
) -> bool {
    &&& list.len() == failures.len()
    &&& forall|j: int| 0 <= j < list.len() ==> gate_error(cs, #[trigger] list[j], failures[j])
}

/// Whether `list` reports every failure of a gate at a row, and nothing
/// else: gate by gate, and within a gate row by row.
pub open spec fn reports_gates(
    cs: &ConstraintSystem,
    grid: &Grid,
    public: Seq<Fe>,
    list: Seq<Error>,
) -> bool {
    gate_errors(cs, list, gate_failures(cs, grid, public, cs.gates@.len() as int))
}

/// The failures of the first `count` gates are the pairs of a gate's number
/// and a row at which that gate does not hold; they are none exactly where
/// each of these gates holds at every row.
pub proof fn lemma_gate_failures(cs: &ConstraintSystem, grid: &Grid, public: Seq<Fe>, count: int)
    requires
        count <= cs.gates@.len(),
    ensures
        forall|g: int, row: int| #[trigger]
            gate_failures(cs, grid, public, count).contains((g, row)) <==> 0 <= g < count && 0
                <= row < grid.rows && !gate_holds_at(&cs.gates@[g], grid, public, row),
        gate_failures(cs, grid, public, count).len() == 0 <==> gates_hold_before(
            cs,
            grid,
            public,
            count,
        ),
    decreases count,
{
    if count > 0 {
        lemma_gate_failures(cs, grid, public, count - 1);
        let before = gate_failures(cs, grid, public, count - 1);
        let fails = gate_fails(&cs.gates@[count - 1], grid, public);
        let rows = failing(fails, grid.rows as int);
        let here = rows.map_values(in_gate(count - 1));
        let all = gate_failures(cs, grid, public, count);
        lemma_failing(fails, grid.rows as int);
        assert(all == before + here);
        assert forall|g: int, row: int| #[trigger]
            all.contains((g, row)) <==> 0 <= g < count && 0 <= row < grid.rows && !gate_holds_at(
                &cs.gates@[g],
                grid,
                public,
                row,
            ) by {
            if all.contains((g, row)) {
                let j = choose|j: int| 0 <= j < all.len() && all[j] == (g, row);
                if j < before.len() {
                    assert(before[j] == (g, row));
                    assert(before.contains((g, row)));
                } else {
                    assert(here[j - before.len()] == (g, row));
                    assert(rows[j - before.len()] == row);
                    assert(rows.contains(row));
                }
            }
            if 0 <= g < count - 1 && before.contains((g, row)) {
                let j = choose|j: int| 0 <= j < before.len() && before[j] == (g, row);
                assert(all[j] == (g, row));
            }
            if g == count - 1 && rows.contains(row) {
                let j = choose|j: int| 0 <= j < rows.len() && rows[j] == row;
                assert(all[before.len() + j] == (g, row));
            }
        }
        if gates_hold_before(cs, grid, public, count) {
            assert(gate_holds_before(&cs.gates@[count - 1], grid, public, grid.rows as int));
            assert forall|row: int| 0 <= row < grid.rows implies !#[trigger] fails(row) by {
                assert(gate_holds_at(&cs.gates@[count - 1], grid, public, row));
            }
        }
        if all.len() == 0 {
            assert forall|g: int| 0 <= g < count implies gate_holds_before(
                #[trigger] &cs.gates@[g],
                grid,
                public,
                grid.rows as int,
            ) by {
                if g == count - 1 {
                    assert forall|row: int| 0 <= row < grid.rows implies #[trigger] gate_holds_at(
                        &cs.gates@[g],
                        grid,
                        public,
                        row,
                    ) by {
                        assert(!fails(row));
                    }
                }
            }
        }
    }
}

/// The value of the cell with the dense index `i`.
pub open spec fn value_at(grid: &Grid, public: Seq<Fe>, i: int) -> int {
    let cell = index_cell(grid.witness@.len() as int, grid.rows as int, i);
    grid.value(public, cell.column, cell.row as int)
}

/// Whether the cells of each class hold one value.
pub open spec fn copies_hold(grid: &Grid, classes: &Classes, public: Seq<Fe>) -> bool {
    forall|i: int, j: int|
        0 <= i < classes.len() && 0 <= j < classes.len() && #[trigger] classes.same(i, j)
            ==> value_at(grid, public, i) == value_at(grid, public, j)
}

/// Whether each of the first `count` cells holds the value of the cell that
/// stands for its class.
pub open spec fn copies_hold_before(
    grid: &Grid,
    classes: &Classes,
    public: Seq<Fe>,
    count: int,
) -> bool {
    forall|i: int|
        0 <= i < count ==> value_at(grid, public, i) == value_at(
            grid,
            public,
            #[trigger] classes.rep(i),
        )
}

/// Whether the cell with a dense index differs from the cell that stands for
/// its class.
pub open spec fn copy_fails(grid: &Grid, classes: &Classes, public: Seq<Fe>) -> spec_fn(
    int,
) -> bool {
    |i: int| value_at(grid, public, i) != value_at(grid, public, classes.rep(i))
}

/// The report of a cell that differs from the cell that stands for its
/// class: the two cells.
pub open spec fn copy_error(grid: &Grid, classes: &Classes) -> spec_fn(int) -> Error {
    |i: int|
        Error::CopyMismatch(
            index_cell(grid.witness@.len() as int, grid.rows as int, i),
            index_cell(grid.witness@.len() as int, grid.rows as int, classes.rep(i)),
        )
}

/// Whether `list` reports every cell that differs from the cell that stands
/// for its class, and nothing else, in the order of the cells' indices.
pub open spec fn reports_copies(
    grid: &Grid,
    classes: &Classes,
    public: Seq<Fe>,
    list: Seq<Error>,
) -> bool {
    list == failing(copy_fails(grid, classes, public), classes.len() as int).map_values(
        copy_error(grid, classes),
    )
}

/// Whether the public input has the row that the binding names, and the
/// bound cell holds the value at that row.
pub open spec fn binding_holds(grid: &Grid, public: Seq<Fe>, binding: (Cell, usize)) -> bool {
    &&& binding.1 < public.len()
    &&& grid.value(public, binding.0.column, binding.0.row as int) == public[binding.1 as int]@
}

/// Whether each of the first `count` bindings holds.
pub open spec fn bindings_hold_before(
    grid: &Grid,
    bindings: Seq<(Cell, usize)>,
    public: Seq<Fe>,
    count: int,
) -> bool {
    forall|k: int| 0 <= k < count ==> binding_holds(grid, public, #[trigger] bindings[k])
}

/// Whether every binding holds.
pub open spec fn bindings_hold(grid: &Grid, bindings: Seq<(Cell, usize)>, public: Seq<Fe>) -> bool {
    bindings_hold_before(grid, bindings, public, bindings.len() as int)
}

/// Whether the binding number `k` fails.
pub open spec fn binding_fails(
    grid: &Grid,
    bindings: Seq<(Cell, usize)>,
    public: Seq<Fe>,
) -> spec_fn(int) -> bool {
    |k: int| !binding_holds(grid, public, bindings[k])
}

/// The report of a binding that fails: a missing public input where the
/// public input is too short for it, else a mismatch at its row.
pub open spec fn binding_error(bindings: Seq<(Cell, usize)>, public: Seq<Fe>) -> spec_fn(
    int,
) -> Error {
    |k: int|
        if bindings[k].1 >= public.len() {
            Error::MissingPublicInput
        } else {
            Error::PublicInputMismatch(bindings[k].1)
        }
}

/// Whether `list` reports every binding that fails, and nothing else, in the
/// order in which the bindings were made.
pub open spec fn reports_bindings(
    grid: &Grid,
    bindings: Seq<(Cell, usize)>,
    public: Seq<Fe>,
    list: Seq<Error>,
) -> bool {
    list == failing(binding_fails(grid, bindings, public), bindings.len() as int).map_values(
        binding_error(bindings, public),
    )
}

/// Whether `list` reports every failure and nothing else: first those of the
/// gates, then those of the copy constraints, then those of the bindings.
pub open spec fn reports(
    cs: &ConstraintSystem,
    grid: &Grid,
    classes: &Classes,
    bindings: Seq<(Cell, usize)>,
    public: Seq<Fe>,
    list: Seq<Error>,
) -> bool {
    let gates = gate_failures(cs, grid, public, cs.gates@.len() as int).len() as int;
    let copies = failing(copy_fails(grid, classes, public), classes.len() as int).len() as int;
    &&& gates + copies <= list.len()
    &&& reports_gates(cs, grid, public, list.subrange(0, gates))
    &&& reports_copies(grid, classes, public, list.subrange(gates, gates + copies))
    &&& reports_bindings(grid, bindings, public, list.subrange(gates + copies, list.len() as int))
}

/// Whether the witness satisfies the circuit for this public input.
pub open spec fn satisfied(
    cs: &ConstraintSystem,
    grid: &Grid,
    classes: &Classes,
    bindings: Seq<(Cell, usize)>,
    public: Seq<Fe>,
) -> bool {
    &&& gates_hold(cs, grid, public)
    &&& copies_hold(grid, classes, public)
    &&& bindings_hold(grid, bindings, public)
}

/// Whether the classes cover the cells of the witness columns of the grid
/// and of `num_public` public columns.
pub open spec fn classes_fit(grid: &Grid, classes: &Classes, num_public: int) -> bool {
    &&& classes.wf()
    &&& num_public >= 0
    &&& classes.len() == (grid.witness@.len() + num_public) * grid.rows
}

/// Where every cell holds the value of the cell that stands for its class,
/// the cells of each class hold one value.
pub proof fn lemma_copies_hold(grid: &Grid, classes: &Classes, public: Seq<Fe>)
    requires
        copies_hold_before(grid, classes, public, classes.len() as int),
    ensures
        copies_hold(grid, classes, public),
{
    assert forall|i: int, j: int|
        0 <= i < classes.len() && 0 <= j < classes.len() && #[trigger] classes.same(
            i,
            j,
        ) implies value_at(grid, public, i) == value_at(grid, public, j) by {
        assert(value_at(grid, public, i) == value_at(grid, public, classes.rep(i)));
        assert(value_at(grid, public, j) == value_at(grid, public, classes.rep(j)));
    }
}

/// No cell differs from the cell that stands for its class exactly where
/// the cells of each class hold one value.
pub proof fn lemma_copy_failures(grid: &Grid, classes: &Classes, public: Seq<Fe>)
    requires
        classes.wf(),
    ensures
        failing(copy_fails(grid, classes, public), classes.len() as int).len() == 0
            <==> copies_hold(grid, classes, public),
{
    let fails = copy_fails(grid, classes, public);
    lemma_failing(fails, classes.len() as int);
    if failing(fails, classes.len() as int).len() == 0 {
        assert forall|i: int| 0 <= i < classes.len() implies value_at(grid, public, i)
            == value_at(grid, public, #[trigger] classes.rep(i)) by {
            assert(!fails(i));
        }
        lemma_copies_hold(grid, classes, public);
    }
    if copies_hold(grid, classes, public) {
        assert forall|i: int| 0 <= i < classes.len() implies !#[trigger] fails(i) by {
            classes.lemma_rep(i);
            assert(classes.same(i, classes.rep(i)));
        }
    }
}

/// No binding fails exactly where every binding holds.
pub proof fn lemma_binding_failures(grid: &Grid, bindings: Seq<(Cell, usize)>, public: Seq<Fe>)
    ensures
        failing(binding_fails(grid, bindings, public), bindings.len() as int).len() == 0
            <==> bindings_hold(grid, bindings, public),
{
    let fails = binding_fails(grid, bindings, public);
    lemma_failing(fails, bindings.len() as int);
    if failing(fails, bindings.len() as int).len() == 0 {
        assert forall|k: int| 0 <= k < bindings.len() implies binding_holds(
            grid,
            public,
            #[trigger] bindings[k],
        ) by {
            assert(!fails(k));
        }
    }
    if bindings_hold(grid, bindings, public) {
        assert forall|k: int| 0 <= k < bindings.len() implies !#[trigger] fails(k) by {
            assert(binding_holds(grid, public, bindings[k]));
        }
    }
}

/// A value is among the values that `h` gives for the indices that
/// `failing` lists exactly where `h` gives it for an index below `n` at which
/// `fails` holds.
pub proof fn lemma_failing_mapped<A>(
    fails: spec_fn(int) -> bool,
    n: int,
    h: spec_fn(int) -> A,
    e: A,
)
    ensures
        failing(fails, n).map_values(h).contains(e) <==> exists|i: int|
            0 <= i < n && #[trigger] fails(i) && h(i) == e,
{
    lemma_failing(fails, n);
    let listed = failing(fails, n);
    let mapped = listed.map_values(h);
    if mapped.contains(e) {
        let j = choose|j: int| 0 <= j < mapped.len() && mapped[j] == e;
        assert(listed.contains(listed[j]));
        assert(fails(listed[j]) && h(listed[j]) == e);
    }
    if exists|i: int| 0 <= i < n && #[trigger] fails(i) && h(i) == e {
        let i = choose|i: int| 0 <= i < n && #[trigger] fails(i) && h(i) == e;
        assert(listed.contains(i));
        let j = choose|j: int| 0 <= j < listed.len() && listed[j] == i;
        assert(mapped[j] == e);
    }
}

/// The three parts of a list that reports every failure: the failures of
/// the gates, of the copy constraints and of the bindings.
pub open spec fn report_parts(
    cs: &ConstraintSystem,
    grid: &Grid,
    classes: &Classes,
    public: Seq<Fe>,
    list: Seq<Error>,
) -> (Seq<Error>, Seq<Error>, Seq<Error>) {
    let gates = gate_failures(cs, grid, public, cs.gates@.len() as int).len() as int;
    let copies = failing(copy_fails(grid, classes, public), classes.len() as int).len() as int;
    (
        list.subrange(0, gates),
        list.subrange(gates, gates + copies),
        list.subrange(gates + copies, list.len() as int),
    )
}

/// A list that reports every failure is made of its three parts: an error
/// is in it exactly where one of them holds it. The first part holds
/// unsatisfied gates alone, the second copy mismatches alone, and the third
/// neither.
proof fn lemma_report_parts(
    cs: &ConstraintSystem,
    grid: &Grid,
    classes: &Classes,
    bindings: Seq<(Cell, usize)>,
    public: Seq<Fe>,
    list: Seq<Error>,
)
    requires
        reports(cs, grid, classes, bindings, public, list),
    ensures
        ({
            let parts = report_parts(cs, grid, classes, public, list);
            &&& list == parts.0 + parts.1 + parts.2
            &&& reports_gates(cs, grid, public, parts.0)
            &&& reports_copies(grid, classes, public, parts.1)
            &&& reports_bindings(grid, bindings, public, parts.2)
            &&& forall|e: Error| #[trigger]
                list.contains(e) <==> parts.0.contains(e) || parts.1.contains(e)
                    || parts.2.contains(e)
            &&& forall|j: int| 0 <= j < parts.0.len() ==> (#[trigger] parts.0[j]) is UnsatisfiedGate
            &&& forall|j: int| 0 <= j < parts.1.len() ==> (#[trigger] parts.1[j]) is CopyMismatch
            &&& forall|j: int|
                0 <= j < parts.2.len() ==> !((#[trigger] parts.2[j]) is CopyMismatch) && !(
                parts.2[j] is UnsatisfiedGate)
        }),
{
    let parts = report_parts(cs, grid, classes, public, list);
    let gates = parts.0.len() as int;
    let copies = parts.1.len() as int;
    assert(list =~= parts.0 + parts.1 + parts.2);
    assert forall|e: Error| #[trigger]
        list.contains(e) <==> parts.0.contains(e) || parts.1.contains(e) || parts.2.contains(
            e,
        ) by {
        if list.contains(e) {
            let j = choose|j: int| 0 <= j < list.len() && list[j] == e;
            if j < gates {
                assert(parts.0[j] == e);
            } else if j < gates + copies {
                assert(parts.1[j - gates] == e);
            } else {
                assert(parts.2[j - gates - copies] == e);
            }
        }
        if parts.0.contains(e) {
            let j = choose|j: int| 0 <= j < parts.0.len() && parts.0[j] == e;
            assert(list[j] == e);
        }
        if parts.1.contains(e) {
            let j = choose|j: int| 0 <= j < parts.1.len() && parts.1[j] == e;
            assert(list[gates + j] == e);
        }
        if parts.2.contains(e) {
            let j = choose|j: int| 0 <= j < parts.2.len() && parts.2[j] == e;
            assert(list[gates + copies + j] == e);
        }
    }
}

/// A list that reports every failure is empty exactly where the witness
/// satisfies the circuit.
pub proof fn lemma_reported_none(
    cs: &ConstraintSystem,
    grid: &Grid,
    classes: &Classes,
    bindings: Seq<(Cell, usize)>,
    public: Seq<Fe>,
    list: Seq<Error>,
)
    requires
        classes.wf(),
        reports(cs, grid, classes, bindings, public, list),
    ensures
        list.len() == 0 <==> satisfied(cs, grid, classes, bindings, public),
{
    lemma_report_parts(cs, grid, classes, bindings, public, list);
    lemma_gate_failures(cs, grid, public, cs.gates@.len() as int);
    lemma_copy_failures(grid, classes, public);
    lemma_binding_failures(grid, bindings, public);
}

/// A list that reports every failure holds an unsatisfied gate for each gate
/// and row at which that gate does not hold, and each unsatisfied gate in it
/// names such a gate and row.
pub proof fn lemma_reported_gates(
    cs: &ConstraintSystem,
    grid: &Grid,
    classes: &Classes,
    bindings: Seq<(Cell, usize)>,
    public: Seq<Fe>,
    list: Seq<Error>,
)
    requires
        reports(cs, grid, classes, bindings, public, list),
    ensures
        forall|g: int, row: int|
            0 <= g < cs.gates@.len() && 0 <= row < grid.rows && !#[trigger] gate_holds_at(
                &cs.gates@[g],
                grid,
                public,
                row,
            ) ==> exists|j: int|
                0 <= j < list.len() && gate_error(cs, #[trigger] list[j], (g, row)),
        forall|j: int|
            0 <= j < list.len() && (#[trigger] list[j]) is UnsatisfiedGate ==> exists|g: int|
                0 <= g < cs.gates@.len() && gate_error(
                    cs,
                    list[j],
                    (g, list[j]->UnsatisfiedGate_1 as int),
                ) && list[j]->UnsatisfiedGate_1 < grid.rows && !#[trigger] gate_holds_at(
                    &cs.gates@[g],
                    grid,
                    public,
                    list[j]->UnsatisfiedGate_1 as int,
                ),
{
    lemma_report_parts(cs, grid, classes, bindings, public, list);
    lemma_gate_failures(cs, grid, public, cs.gates@.len() as int);
    let parts = report_parts(cs, grid, classes, public, list);
    let failures = gate_failures(cs, grid, public, cs.gates@.len() as int);
    let gates = failures.len() as int;
    assert forall|g: int, row: int|
        0 <= g < cs.gates@.len() && 0 <= row < grid.rows && !#[trigger] gate_holds_at(
            &cs.gates@[g],
            grid,
            public,
            row,
        ) implies exists|j: int|
        0 <= j < list.len() && gate_error(cs, #[trigger] list[j], (g, row)) by {
        assert(failures.contains((g, row)));
        let j = choose|j: int| 0 <= j < failures.len() && failures[j] == (g, row);
        assert(parts.0[j] == list[j]);
        assert(gate_error(cs, list[j], (g, row)));
    }
    assert forall|j: int|
        0 <= j < list.len() && (#[trigger] list[j]) is UnsatisfiedGate implies exists|g: int|
        0 <= g < cs.gates@.len() && gate_error(cs, list[j], (g, list[j]->UnsatisfiedGate_1 as int))
            && list[j]->UnsatisfiedGate_1 < grid.rows && !#[trigger] gate_holds_at(
            &cs.gates@[g],
            grid,
            public,
            list[j]->UnsatisfiedGate_1 as int,
        ) by {
        if j >= gates {
            if j < gates + parts.1.len() {
                assert(parts.1[j - gates] == list[j]);
            } else {
                assert(parts.2[j - gates - parts.1.len()] == list[j]);
            }
        }
        assert(parts.0[j] == list[j]);
        assert(failures.contains(failures[j]));
        let g = failures[j].0;
        assert(failures.contains((g, failures[j].1)));
        assert(!gate_holds_at(&cs.gates@[g], grid, public, failures[j].1));
    }
}

/// A list that reports every failure holds a copy mismatch with two cells
/// exactly where the first differs from the second, which stands for its
/// class.
pub proof fn lemma_reported_copies(
    cs: &ConstraintSystem,
    grid: &Grid,
    classes: &Classes,
    bindings: Seq<(Cell, usize)>,
    public: Seq<Fe>,
    list: Seq<Error>,
)
    requires
        reports(cs, grid, classes, bindings, public, list),
    ensures
        forall|a: Cell, b: Cell| #[trigger]
            list.contains(Error::CopyMismatch(a, b)) <==> exists|i: int|
                0 <= i < classes.len() && #[trigger] copy_fails(grid, classes, public)(i)
                    && Error::CopyMismatch(a, b) == copy_error(grid, classes)(i),
{
    lemma_report_parts(cs, grid, classes, bindings, public, list);
    let parts = report_parts(cs, grid, classes, public, list);
    let copy_f = copy_fails(grid, classes, public);
    let copy_e = copy_error(grid, classes);
    assert forall|a: Cell, b: Cell| #[trigger]
        list.contains(Error::CopyMismatch(a, b)) <==> exists|i: int|
            0 <= i < classes.len() && #[trigger] copy_f(i) && Error::CopyMismatch(a, b) == copy_e(
                i,
            ) by {
        let e = Error::CopyMismatch(a, b);
        lemma_failing_mapped(copy_f, classes.len() as int, copy_e, e);
        assert(list.contains(e) <==> parts.0.contains(e) || parts.1.contains(e)
            || parts.2.contains(e));
        if parts.0.contains(e) {
            let j = choose|j: int| 0 <= j < parts.0.len() && parts.0[j] == e;
            assert(parts.0[j] is UnsatisfiedGate);
        }
        if parts.2.contains(e) {
            let j = choose|j: int| 0 <= j < parts.2.len() && parts.2[j] == e;
            assert(!(parts.2[j] is CopyMismatch));
        }
    }
}

/// A list that reports every failure holds a mismatch at a row of the public
/// input exactly where a cell bound to that row holds another value than the
/// row, and a missing public input exactly where a binding names a row past
/// the end of the public input.
pub proof fn lemma_reported_bindings(
    cs: &ConstraintSystem,
    grid: &Grid,
    classes: &Classes,
    bindings: Seq<(Cell, usize)>,
    public: Seq<Fe>,
    list: Seq<Error>,
)
    requires
        reports(cs, grid, classes, bindings, public, list),
    ensures
        forall|row: usize| #[trigger]
            list.contains(Error::PublicInputMismatch(row)) <==> exists|k: int|
                0 <= k < bindings.len() && (#[trigger] bindings[k]).1 == row && row < public.len()
                    && grid.value(public, bindings[k].0.column, bindings[k].0.row as int)
                    != public[row as int]@,
        list.contains(Error::MissingPublicInput) <==> exists|k: int|
            0 <= k < bindings.len() && (#[trigger] bindings[k]).1 >= public.len(),
{
    lemma_report_parts(cs, grid, classes, bindings, public, list);
    let parts = report_parts(cs, grid, classes, public, list);
    let bind_f = binding_fails(grid, bindings, public);
    let bind_e = binding_error(bindings, public);
    assert forall|e: Error| !(e is CopyMismatch) && !(e is UnsatisfiedGate) implies (list.contains(
        e,
    ) <==> #[trigger] parts.2.contains(e)) by {
        assert(list.contains(e) <==> parts.0.contains(e) || parts.1.contains(e)
            || parts.2.contains(e));
        if parts.0.contains(e) {
            let j = choose|j: int| 0 <= j < parts.0.len() && parts.0[j] == e;
            assert(parts.0[j] is UnsatisfiedGate);
        }
        if parts.1.contains(e) {
            let j = choose|j: int| 0 <= j < parts.1.len() && parts.1[j] == e;
            assert(parts.1[j] is CopyMismatch);
        }
    }
    assert forall|row: usize| #[trigger]
        list.contains(Error::PublicInputMismatch(row)) <==> exists|k: int|
            0 <= k < bindings.len() && (#[trigger] bindings[k]).1 == row && row < public.len()
                && grid.value(public, bindings[k].0.column, bindings[k].0.row as int)
                != public[row as int]@ by {
        let e = Error::PublicInputMismatch(row);
        lemma_failing_mapped(bind_f, bindings.len() as int, bind_e, e);
        assert(list.contains(e) <==> parts.2.contains(e));
        if parts.2.contains(e) {
            let k = choose|k: int|
                0 <= k < bindings.len() && #[trigger] bind_f(k) && bind_e(k) == e;
            assert(bindings[k].1 == row);
        }
        if exists|k: int|
            0 <= k < bindings.len() && (#[trigger] bindings[k]).1 == row && row < public.len()
                && grid.value(public, bindings[k].0.column, bindings[k].0.row as int)
                != public[row as int]@ {
            let k = choose|k: int|
                0 <= k < bindings.len() && (#[trigger] bindings[k]).1 == row && row < public.len()
                    && grid.value(public, bindings[k].0.column, bindings[k].0.row as int)
                    != public[row as int]@;
            assert(bind_f(k) && bind_e(k) == e);
        }
    }
    let missing = Error::MissingPublicInput;
    lemma_failing_mapped(bind_f, bindings.len() as int, bind_e, missing);
    assert(list.contains(missing) <==> parts.2.contains(missing));
    if parts.2.contains(missing) {
        let k = choose|k: int|
            0 <= k < bindings.len() && #[trigger] bind_f(k) && bind_e(k) == missing;
        assert(bindings[k].1 >= public.len());
    }
    if exists|k: int| 0 <= k < bindings.len() && (#[trigger] bindings[k]).1 >= public.len() {
        let k = choose|k: int|
            0 <= k < bindings.len() && (#[trigger] bindings[k]).1 >= public.len();
        assert(bind_f(k) && bind_e(k) == missing);
    }
}

/// Whether `list` holds what a full report holds: an unsatisfied gate for
/// each gate and row at which that gate does not hold, and no other
/// unsatisfied gate; a copy mismatch with two cells exactly where the first
/// differs from the second, which stands for its class; a mismatch at a row
/// of the public input exactly where a cell bound to that row holds another
/// value than the row; and a missing public input exactly where a binding
/// names a row past the end of the public input.
pub open spec fn tells(
    cs: &ConstraintSystem,
    grid: &Grid,
    classes: &Classes,
    bindings: Seq<(Cell, usize)>,
    public: Seq<Fe>,
    list: Seq<Error>,
) -> bool {
    &&& forall|g: int, row: int|
        0 <= g < cs.gates@.len() && 0 <= row < grid.rows && !#[trigger] gate_holds_at(
            &cs.gates@[g],
            grid,
            public,
            row,
        ) ==> exists|j: int| 0 <= j < list.len() && gate_error(cs, #[trigger] list[j], (g, row))
    &&& forall|j: int|
        0 <= j < list.len() && (#[trigger] list[j]) is UnsatisfiedGate ==> exists|g: int|
            0 <= g < cs.gates@.len() && gate_error(
                cs,
                list[j],
                (g, list[j]->UnsatisfiedGate_1 as int),
            )
                && list[j]->UnsatisfiedGate_1 < grid.rows && !#[trigger] gate_holds_at(
                &cs.gates@[g],
                grid,
                public,
                list[j]->UnsatisfiedGate_1 as int,
            )
    &&& forall|a: Cell, b: Cell| #[trigger]
        list.contains(Error::CopyMismatch(a, b)) <==> exists|i: int|
            0 <= i < classes.len() && #[trigger] copy_fails(grid, classes, public)(i)
                && Error::CopyMismatch(a, b) == copy_error(grid, classes)(i)
    &&& forall|row: usize| #[trigger]
        list.contains(Error::PublicInputMismatch(row)) <==> exists|k: int|
            0 <= k < bindings.len() && (#[trigger] bindings[k]).1 == row && row < public.len()
                && grid.value(public, bindings[k].0.column, bindings[k].0.row as int)
                != public[row as int]@
    &&& list.contains(Error::MissingPublicInput) <==> exists|k: int|
        0 <= k < bindings.len() && (#[trigger] bindings[k]).1 >= public.len()
}

/// A list that reports every failure holds what `tells` says.
pub proof fn lemma_reports_tell(
    cs: &ConstraintSystem,
    grid: &Grid,
    classes: &Classes,
    bindings: Seq<(Cell, usize)>,
    public: Seq<Fe>,
    list: Seq<Error>,
)
    requires
        reports(cs, grid, classes, bindings, public, list),
    ensures
        tells(cs, grid, classes, bindings, public, list),
{
    lemma_reported_gates(cs, grid, classes, bindings, public, list);
    lemma_reported_copies(cs, grid, classes, bindings, public, list);
    lemma_reported_bindings(cs, grid, classes, bindings, public, list);
}

/// Whether every polynomial of `gate` vanishes at `row`.
fn gate_vanishes_at(gate: &Gate, grid: &Grid, public: &Vec<Fe>, row: usize) -> (r: bool)
    requires
        crate::constraint_system::polys_wf(gate.polys@),
        grid.wf(),
        all_canonical(public@),
        row < grid.rows,
    ensures
        r == gate_holds_at(gate, grid, public@, row as int),
{
    let mut p: usize = 0;
    while p < gate.polys.len()
        invariant
            p <= gate.polys@.len(),
            crate::constraint_system::polys_wf(gate.polys@),
            grid.wf(),
            all_canonical(public@),
            row < grid.rows,
            forall|q: int|
                0 <= q < p ==> (#[trigger] gate.polys@[q]).eval(grid, public@, row as int) == 0,
        decreases gate.polys@.len() - p,
    {
        let v = gate.polys[p].evaluate(grid, public, row);
        if !v.is_zero() {
            return false;
        }
        p += 1;
    }
    true
}

/// Checks every gate at every row, gate by gate and row by row, and reports
/// every failure.
pub fn check_gates(cs: &ConstraintSystem, grid: &Grid, public: &Vec<Fe>) -> (list: Vec<Error>)
    requires
        cs.wf(),
        grid.wf(),
        all_canonical(public@),
    ensures
        reports_gates(cs, grid, public@, list@),
        list@.len() == 0 <==> gates_hold(cs, grid, public@),
{
    let mut list: Vec<Error> = Vec::new();
    let mut g: usize = 0;
    while g < cs.gates.len()
        invariant
            g <= cs.gates@.len(),
            cs.wf(),
            grid.wf(),
            all_canonical(public@),
            gate_errors(cs, list@, gate_failures(cs, grid, public@, g as int)),
        decreases cs.gates@.len() - g,
    {
        let gate = &cs.gates[g];
        let ghost before = gate_failures(cs, grid, public@, g as int);
        let ghost fails = gate_fails(gate, grid, public@);
        let mut row: usize = 0;
        proof {
            assert(before + failing(fails, 0).map_values(in_gate(g as int)) =~= before);
        }
        while row < grid.rows
            invariant
                row <= grid.rows,
                g < cs.gates@.len(),
                gate == &cs.gates@[g as int],
                polys_wf(gate.polys@),
                grid.wf(),
                all_canonical(public@),
                fails == gate_fails(gate, grid, public@),
                gate_errors(
                    cs,
                    list@,
                    before + failing(fails, row as int).map_values(in_gate(g as int)),
                ),
            decreases grid.rows - row,
        {
            let ghost found = before + failing(fails, row as int).map_values(in_gate(g as int));
            if !gate_vanishes_at(gate, grid, public, row) {
                let ghost reported = list@;
                list.push(Error::UnsatisfiedGate(gate.name.clone(), row));
                proof {
                    let next = before + failing(fails, row + 1).map_values(in_gate(g as int));
                    assert(next =~= found.push((g as int, row as int)));
                    assert forall|j: int| 0 <= j < list@.len() implies gate_error(
                        cs,
                        #[trigger] list@[j],
                        next[j],
                    ) by {
                        if j < reported.len() {
                            assert(list@[j] == reported[j]);
                        }
                    }
                }
            }
            row += 1;
        }
        g += 1;
    }
    proof {
        lemma_gate_failures(cs, grid, public@, cs.gates@.len() as int);
    }
    list
}

/// The cell with the dense index `i`.
fn cell_at(grid: &Grid, slots: usize, i: usize) -> (cell: Cell)
    requires
        grid.rows > 0,
        grid.witness@.len() <= slots,
        i < slots * grid.rows,
    ensures
        cell == index_cell(grid.witness@.len() as int, grid.rows as int, i as int),
{
    proof {
        lemma_index_cell(grid.witness@.len() as int, slots as int, grid.rows as int, i as int);
    }
    let slot = i / grid.rows;
    let row = i % grid.rows;
    let column = if slot < grid.witness.len() {
        Column { kind: ColumnKind::Witness, index: slot }
    } else {
        Column { kind: ColumnKind::Public, index: slot - grid.witness.len() }
    };
    Cell { column, row }
}

/// Checks, cell by cell, that each cell holds the value of the cell that
/// stands for its class, and reports every cell that does not.
pub fn check_copies(grid: &Grid, classes: &Classes, num_public: usize, public: &Vec<Fe>) -> (list:
    Vec<Error>)
    requires
        grid.wf(),
        classes_fit(grid, classes, num_public as int),
        all_canonical(public@),
    ensures
        reports_copies(grid, classes, public@, list@),
        list@.len() == 0 <==> copies_hold(grid, classes, public@),
{
    let total = classes.size();
    proof {
        assert(grid.witness@.len() + num_public <= (grid.witness@.len() + num_public) * grid.rows)
            by (nonlinear_arith)
            requires
                grid.rows >= 1,
                grid.witness@.len() + num_public >= 0,
        ;
    }
    let slots = grid.witness.len() + num_public;
    let ghost fails = copy_fails(grid, classes, public@);
    let ghost error = copy_error(grid, classes);
    let mut list: Vec<Error> = Vec::new();
    let mut i: usize = 0;
    proof {
        assert(list@ =~= failing(fails, 0).map_values(error));
    }
    while i < total
        invariant
            i <= total,
            total == classes.len(),
            total == slots * grid.rows,
            slots == grid.witness@.len() + num_public,
            grid.wf(),
            classes.wf(),
            all_canonical(public@),
            fails == copy_fails(grid, classes, public@),
            error == copy_error(grid, classes),
            list@ == failing(fails, i as int).map_values(error),
        decreases total - i,
    {
        let root = classes.find(i);
        let a = cell_at(grid, slots, i);
        let b = cell_at(grid, slots, root);
        let va = grid.get(public, a.column, a.row);
        let vb = grid.get(public, b.column, b.row);
        if !va.equals(&vb) {
            list.push(Error::CopyMismatch(a, b));
        }
        proof {
            assert(list@ =~= failing(fails, i + 1).map_values(error));
        }
        i += 1;
    }
    proof {
        lemma_copy_failures(grid, classes, public@);
    }
    list
}

/// Checks the bindings in the order in which they were made, and reports
/// every binding that fails.
pub fn check_bindings(grid: &Grid, bindings: &Vec<(Cell, usize)>, public: &Vec<Fe>) -> (list: Vec<
    Error,
>)
    requires
        grid.wf(),
        all_canonical(public@),
    ensures
        reports_bindings(grid, bindings@, public@, list@),
        list@.len() == 0 <==> bindings_hold(grid, bindings@, public@),
{
    let ghost fails = binding_fails(grid, bindings@, public@);
    let ghost error = binding_error(bindings@, public@);
    let mut list: Vec<Error> = Vec::new();
    let mut k: usize = 0;
    proof {
        assert(list@ =~= failing(fails, 0).map_values(error));
    }
    while k < bindings.len()
        invariant
            k <= bindings@.len(),
            grid.wf(),
            all_canonical(public@),
            fails == binding_fails(grid, bindings@, public@),
            error == binding_error(bindings@, public@),
            list@ == failing(fails, k as int).map_values(error),
        decreases bindings@.len() - k,
    {
        let cell = bindings[k].0;
        let row = bindings[k].1;
        if row >= public.len() {
            list.push(Error::MissingPublicInput);
        } else {
            let v = grid.get(public, cell.column, cell.row);
            if !v.equals(&public[row]) {
                list.push(Error::PublicInputMismatch(row));
            }
        }
        proof {
            assert(list@ =~= failing(fails, k + 1).map_values(error));
        }
        k += 1;
    }
    proof {
        lemma_binding_failures(grid, bindings@, public@);
    }
    list
}

/// Checks the gates, the copy constraints and the public input bindings,
/// and reports every failure found: those of the gates first, then those of
/// the copy constraints, then those of the bindings.
pub fn check(
    grid: &Grid,
    cs: &ConstraintSystem,
    classes: &Classes,
    bindings: &Vec<(Cell, usize)>,
    public: &Vec<Fe>,
) -> (r: Result<(), Vec<Error>>)
    requires
        cs.wf(),
        grid.wf(),
        classes_fit(grid, classes, cs.num_public() as int),
        all_canonical(public@),
    ensures
        r is Ok <==> satisfied(cs, grid, classes, bindings@, public@),
        r matches Err(list) ==> reports(cs, grid, classes, bindings@, public@, list@) && tells(
            cs,
            grid,
            classes,
            bindings@,
            public@,
            list@,
        ),
{
    let mut list = check_gates(cs, grid, public);
    let mut copies = check_copies(grid, classes, cs.public_equality.len(), public);
    let mut late = check_bindings(grid, bindings, public);
    let ghost first = list@;
    let ghost second = copies@;
    let ghost third = late@;
    list.append(&mut copies);
    list.append(&mut late);
    proof {
        assert(list@ =~= first + second + third);
        assert(list@.subrange(0, first.len() as int) =~= first);
        assert(list@.subrange(first.len() as int, (first.len() + second.len()) as int) =~= second);
        assert(list@.subrange((first.len() + second.len()) as int, list@.len() as int) =~= third);
        lemma_reports_tell(cs, grid, classes, bindings@, public@, list@);
    }
    if list.len() == 0 {
        Ok(())
    } else {
        Err(list)
    }
}

} // verus!
