//! The two gates of the circuit: the arithmetic gate, which a row's
//! selectors turn into an addition or a multiplication, and the public
//! input gate.

use crate::column::Rotation;
use crate::composer::CustomConfig;
use crate::expression::Expression;
use crate::field::{canonical, fadd, fmul, fneg, modulus, Fe};
use crate::grid::Grid;
use vstd::arithmetic::div_mod::{lemma_add_mod_noop, lemma_small_mod, lemma_sub_mod_noop};
use vstd::prelude::*;

verus! {

/// The query of `column` at the row of evaluation.
pub open spec fn here(column: crate::column::Column) -> Expression {
    Expression::Query(column, Rotation(0))
}

/// The sum of two expressions.
pub open spec fn plus(a: Expression, b: Expression) -> Expression {
    Expression::Sum(Box::new(a), Box::new(b))
}

/// The difference of two expressions.
pub open spec fn minus(a: Expression, b: Expression) -> Expression {
    Expression::Sum(Box::new(a), Box::new(Expression::Negated(Box::new(b))))
}

/// The product of two expressions.
pub open spec fn times(a: Expression, b: Expression) -> Expression {
    Expression::Product(Box::new(a), Box::new(b))
}

/// The arithmetic gate: `l * sl + r * sr + (l * r) * sm - o * so + sc`.
pub open spec fn main_gate(config: CustomConfig) -> Expression {
    plus(
        minus(
            plus(
                plus(
                    times(here(config.l), here(config.sl)),
                    times(here(config.r), here(config.sr)),
                ),
                times(times(here(config.l), here(config.r)), here(config.sm)),
            ),
            times(here(config.o), here(config.so)),
        ),
        here(config.sc),
    )
}

/// The public input gate: `sp * (l - pi)`.
pub open spec fn public_gate(config: CustomConfig) -> Expression {
    times(here(config.sp), minus(here(config.l), here(config.pi)))
}

/// The value of the arithmetic gate on a row's cells.
pub open spec fn main_gate_value(
    l: int,
    r: int,
    o: int,
    sl: int,
    sr: int,
    so: int,
    sm: int,
    sc: int,
) -> int {
    fadd(
        fadd(fadd(fadd(fmul(l, sl), fmul(r, sr)), fmul(fmul(l, r), sm)), fneg(fmul(o, so))),
        sc,
    )
}

/// The value of the public input gate on a row's cells.
pub open spec fn public_gate_value(sp: int, l: int, pi: int) -> int {
    fmul(sp, fadd(l, fneg(pi)))
}

/// Builds the arithmetic gate.
pub fn build_main_gate(config: &CustomConfig) -> (e: Expression)
    ensures
        e == main_gate(*config),
        e.wf(),
{
    let l = Expression::query(config.l, Rotation::cur());
    let r = Expression::query(config.r, Rotation::cur());
    let o = Expression::query(config.o, Rotation::cur());
    let sl = Expression::query(config.sl, Rotation::cur());
    let sr = Expression::query(config.sr, Rotation::cur());
    let so = Expression::query(config.so, Rotation::cur());
    let sm = Expression::query(config.sm, Rotation::cur());
    let sc = Expression::query(config.sc, Rotation::cur());
    let product = l.duplicate().mul(r.duplicate()).mul(sm);
    let e = l.mul(sl).add(r.mul(sr)).add(product).sub(o.mul(so)).add(sc);
    proof {
        reveal_with_fuel(Expression::wf, 6);
    }
    e
}

/// Builds the public input gate.
pub fn build_public_gate(config: &CustomConfig) -> (e: Expression)
    ensures
        e == public_gate(*config),
        e.wf(),
{
    let l = Expression::query(config.l, Rotation::cur());
    let pi = Expression::query(config.pi, Rotation::cur());
    let sp = Expression::query(config.sp, Rotation::cur());
    let e = sp.mul(l.sub(pi));
    proof {
        reveal_with_fuel(Expression::wf, 4);
    }
    e
}

/// At a row of the grid, the arithmetic gate has the value that
/// `main_gate_value` gives for the row's cells, and the public input gate
/// the value that `public_gate_value` gives.
pub proof fn lemma_gate_values(config: CustomConfig, grid: &Grid, public: Seq<Fe>, row: int)
    requires
        0 <= row < grid.rows,
    ensures
        main_gate(config).eval(grid, public, row) == main_gate_value(
            grid.value(public, config.l, row),
            grid.value(public, config.r, row),
            grid.value(public, config.o, row),
            grid.value(public, config.sl, row),
            grid.value(public, config.sr, row),
            grid.value(public, config.so, row),
            grid.value(public, config.sm, row),
            grid.value(public, config.sc, row),
        ),
        public_gate(config).eval(grid, public, row) == public_gate_value(
            grid.value(public, config.sp, row),
            grid.value(public, config.l, row),
            grid.value(public, config.pi, row),
        ),
{
    reveal_with_fuel(Expression::eval, 7);
    lemma_small_mod(row as nat, grid.rows as nat);
    assert(Rotation(0).target(row, grid.rows as int) == row);
}

/// On an addition row, where `sl`, `sr` and `so` are one and `sm` is zero,
/// the arithmetic gate is `l + r - o + sc`.
pub proof fn lemma_addition_row(l: int, r: int, o: int, sc: int)
    ensures
        main_gate_value(l, r, o, 1, 1, 1, 0, sc) == (l + r - o + sc) % modulus(),
{
    let p = modulus();
    assert(l * 1 == l && r * 1 == r && o * 1 == o);
    assert(fmul(l, r) * 0 == 0);
    lemma_add_mod_noop(l, r, p);
    let s = fadd(fmul(l, 1), fmul(r, 1));
    assert(s == (l + r) % p);
    assert(fadd(s, 0) == s) by {
        lemma_small_mod(s as nat, p as nat);
    }
    lemma_sub_mod_noop(0, o, p);
    assert(fneg(fmul(o, 1)) == (-o) % p);
    lemma_add_mod_noop(l + r, -o, p);
    let t = fadd(s, fneg(fmul(o, 1)));
    assert(t == (l + r - o) % p);
    lemma_add_mod_noop(l + r - o, sc, p);
    lemma_add_mod_noop(t, sc, p);
    lemma_small_mod(t as nat, p as nat);
}

/// On a multiplication row, where `sm` and `so` are one and `sl`, `sr` and
/// `sc` are zero, the arithmetic gate is `l * r - o`.
pub proof fn lemma_multiplication_row(l: int, r: int, o: int)
    ensures
        main_gate_value(l, r, o, 0, 0, 1, 1, 0) == (l * r - o) % modulus(),
{
    let p = modulus();
    assert(l * 0 == 0 && r * 0 == 0 && o * 1 == o);
    let m = fmul(l, r);
    assert(m * 1 == m);
    assert(fmul(m, 1) == m) by {
        lemma_small_mod(m as nat, p as nat);
    }
    assert(fadd(fadd(fmul(l, 0), fmul(r, 0)), fmul(m, 1)) == m);
    lemma_sub_mod_noop(0, o, p);
    assert(fneg(fmul(o, 1)) == (-o) % p);
    lemma_add_mod_noop(l * r, -o, p);
    let t = fadd(m, fneg(fmul(o, 1)));
    assert(t == (l * r - o) % p);
    assert(fadd(t, 0) == t) by {
        lemma_small_mod(t as nat, p as nat);
    }
}

/// On a row whose selectors are all zero, both gates vanish, whatever the
/// witness cells hold.
pub proof fn lemma_idle_row(l: int, r: int, o: int, pi: int)
    ensures
        main_gate_value(l, r, o, 0, 0, 0, 0, 0) == 0,
        public_gate_value(0, l, pi) == 0,
{
    assert(l * 0 == 0 && r * 0 == 0 && o * 0 == 0);
    assert(fmul(l, r) * 0 == 0);
    assert(0 * fadd(l, fneg(pi)) == 0);
}

/// An addition row vanishes exactly where `o` is `l + r + sc` in the field,
/// and a multiplication row exactly where `o` is `l * r`.
pub proof fn lemma_rows_vanish(l: int, r: int, o: int, sc: int)
    requires
        canonical(o),
    ensures
        main_gate_value(l, r, o, 1, 1, 1, 0, sc) == 0 <==> o == (l + r + sc) % modulus(),
        main_gate_value(l, r, o, 0, 0, 1, 1, 0) == 0 <==> o == fmul(l, r),
{
    let p = modulus();
    lemma_addition_row(l, r, o, sc);
    lemma_multiplication_row(l, r, o);
    lemma_sub_mod_noop(l + r + sc, o, p);
    lemma_sub_mod_noop(l * r, o, p);
    lemma_small_mod(o as nat, p as nat);
    assert(l + r - o + sc == l + r + sc - o);
}

} // verus!
