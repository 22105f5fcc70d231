use mini_plonk::checker::{check, check_bindings, check_copies, check_gates};
use mini_plonk::circuit::SampleCircuit;
use mini_plonk::classes::Classes;
use mini_plonk::column::{Cell, Column, Rotation};
use mini_plonk::composer::{CustomChip, CustomConfig};
use mini_plonk::constraint_system::ConstraintSystem;
use mini_plonk::error::Error;
use mini_plonk::expression::Expression;
use mini_plonk::field::Fe;
use mini_plonk::grid::Grid;
use mini_plonk::layouter::Layouter;
use mini_plonk::value::Value;

fn fe(v: u64) -> Fe {
    Fe::from_u64(v)
}

fn known(l: u64, r: u64, o: u64) -> Value<(Fe, Fe, Fe)> {
    Value::known((fe(l), fe(r), fe(o)))
}

fn setup(k: u32) -> (ConstraintSystem, CustomConfig, Layouter) {
    let mut cs = ConstraintSystem::new();
    let config = SampleCircuit::configure(&mut cs).unwrap();
    let layouter = Layouter::new(&cs, k);
    (cs, config, layouter)
}

fn verdict(cs: &ConstraintSystem, layouter: &Layouter, public: &[u64]) -> Result<(), Vec<Error>> {
    let public: Vec<Fe> = public.iter().map(|v| fe(*v)).collect();
    check(&layouter.grid, cs, &layouter.classes, &layouter.bindings, &public)
}

#[test]
fn unlinked_rows_pass_whatever_they_hold() {
    let (cs, config, mut layouter) = setup(3);
    let chip = CustomChip::new(config);
    chip.raw_multiply(&mut layouter, || known(5, 5, 25)).unwrap();
    chip.raw_multiply(&mut layouter, || known(26, 3, 78)).unwrap();
    assert_eq!(verdict(&cs, &layouter, &[]), Ok(()));
}

#[test]
fn linked_rows_pass_where_the_values_agree() {
    let (cs, config, mut layouter) = setup(3);
    let chip = CustomChip::new(config);
    let (_, _, c0) = chip.raw_multiply(&mut layouter, || known(5, 5, 25)).unwrap();
    let (a1, _, _) = chip.raw_multiply(&mut layouter, || known(25, 3, 75)).unwrap();
    chip.copy(&mut layouter, a1, c0).unwrap();
    assert_eq!(verdict(&cs, &layouter, &[]), Ok(()));
}

#[test]
fn linked_rows_fail_where_a_value_is_corrupted() {
    let (cs, config, mut layouter) = setup(3);
    let chip = CustomChip::new(config);
    let (_, _, c0) = chip.raw_multiply(&mut layouter, || known(5, 5, 25)).unwrap();
    let (a1, _, _) = chip.raw_multiply(&mut layouter, || known(26, 3, 78)).unwrap();
    chip.copy(&mut layouter, a1, c0).unwrap();
    assert_eq!(verdict(&cs, &layouter, &[]), Err(vec![Error::CopyMismatch(a1, c0)]));
    assert_eq!(check_gates(&cs, &layouter.grid, &vec![]), Vec::<Error>::new());
    assert_eq!(
        check_copies(&layouter.grid, &layouter.classes, 1, &vec![]),
        vec![Error::CopyMismatch(a1, c0)]
    );
}

#[test]
fn copy_twice_is_copy_once() {
    let (_, config, mut once) = setup(2);
    let chip = CustomChip::new(config);
    let (a, b, _) = chip.raw_multiply(&mut once, || known(5, 5, 25)).unwrap();
    chip.copy(&mut once, a, b).unwrap();
    let (_, config, mut twice) = setup(2);
    let chip = CustomChip::new(config);
    let (a, b, _) = chip.raw_multiply(&mut twice, || known(5, 5, 25)).unwrap();
    chip.copy(&mut twice, a, b).unwrap();
    chip.copy(&mut twice, a, b).unwrap();
    assert_eq!(once.classes.size(), 16);
    assert_eq!(twice.classes.size(), 16);
    for i in 0..16 {
        assert_eq!(once.classes.find(i), twice.classes.find(i));
    }
    assert_eq!(once.classes.find(0), once.classes.find(4));
    assert_ne!(once.classes.find(0), once.classes.find(8));
}

#[test]
fn classes_merge_and_find() {
    let mut classes = Classes::new(6);
    for i in 0..6 {
        assert_eq!(classes.find(i), i);
    }
    classes.union(0, 1);
    classes.union(2, 3);
    assert_eq!(classes.find(0), 1);
    assert_eq!(classes.find(1), 1);
    assert_eq!(classes.find(2), 3);
    assert_eq!(classes.find(4), 4);
    classes.union(1, 2);
    assert_eq!(classes.find(0), 3);
    assert_eq!(classes.find(1), 3);
    assert_eq!(classes.find(3), 3);
    classes.union(3, 0);
    assert_eq!(classes.find(0), 3);
    assert_eq!(classes.find(5), 5);
}

#[test]
fn wrong_product_is_an_unsatisfied_gate() {
    let (cs, config, mut layouter) = setup(2);
    let chip = CustomChip::new(config);
    chip.raw_multiply(&mut layouter, || known(5, 5, 25)).unwrap();
    chip.raw_multiply(&mut layouter, || known(5, 9, 46)).unwrap();
    assert_eq!(
        verdict(&cs, &layouter, &[]),
        Err(vec![Error::UnsatisfiedGate("mini plonk".to_string(), 1)])
    );
}

#[test]
fn wrong_sum_is_an_unsatisfied_gate() {
    let (cs, config, mut layouter) = setup(2);
    let chip = CustomChip::new(config);
    chip.raw_add(&mut layouter, || known(5, 9, 15)).unwrap();
    assert_eq!(
        verdict(&cs, &layouter, &[]),
        Err(vec![Error::UnsatisfiedGate("mini plonk".to_string(), 0)])
    );
}

#[test]
fn addition_row_is_l_plus_r_minus_o_plus_sc() {
    let (cs, config, mut layouter) = setup(1);
    layouter.begin_region("sum");
    layouter.assign_advice(config.l, 0, || Value::known(fe(5))).unwrap();
    layouter.assign_advice(config.r, 0, || Value::known(fe(9))).unwrap();
    layouter.assign_advice(config.o, 0, || Value::known(fe(20))).unwrap();
    layouter.assign_fixed(config.sl, 0, || Value::known(Fe::one())).unwrap();
    layouter.assign_fixed(config.sr, 0, || Value::known(Fe::one())).unwrap();
    layouter.assign_fixed(config.so, 0, || Value::known(Fe::one())).unwrap();
    let gate = &cs.gates[0].polys[0];
    let public: Vec<Fe> = vec![];
    let at_row = gate.evaluate(&layouter.grid, &public, 0);
    assert!(at_row.equals(&fe(5).add(&fe(9)).sub(&fe(20))));
    layouter.assign_fixed(config.sc, 0, || Value::known(fe(6))).unwrap();
    assert!(gate.evaluate(&layouter.grid, &public, 0).is_zero());
    assert!(gate.evaluate(&layouter.grid, &public, 1).is_zero());
    assert_eq!(verdict(&cs, &layouter, &[]), Ok(()));
}

#[test]
fn multiplication_row_is_l_times_r_minus_o() {
    let (cs, config, mut layouter) = setup(1);
    let chip = CustomChip::new(config);
    chip.raw_multiply(&mut layouter, || known(5, 9, 40)).unwrap();
    let gate = &cs.gates[0].polys[0];
    let public: Vec<Fe> = vec![];
    assert_eq!(gate.evaluate(&layouter.grid, &public, 0).to_u64(), Some(5));
    let mut grid = layouter.grid;
    grid.set(config.sc, 0, fe(6));
    assert_eq!(gate.evaluate(&grid, &public, 0).to_u64(), Some(11));
}

#[test]
fn public_input_gate_binds_where_its_selector_is_set() {
    let (cs, config, mut layouter) = setup(1);
    layouter.begin_region("bound");
    layouter.assign_advice(config.l, 0, || Value::known(fe(5))).unwrap();
    layouter.assign_fixed(config.sp, 0, || Value::known(Fe::one())).unwrap();
    assert_eq!(verdict(&cs, &layouter, &[5]), Ok(()));
    assert_eq!(
        verdict(&cs, &layouter, &[6]),
        Err(vec![Error::UnsatisfiedGate("public input".to_string(), 0)])
    );
}

#[test]
fn regions_follow_each_other() {
    let (_, config, mut layouter) = setup(2);
    let chip = CustomChip::new(config);
    assert_eq!(layouter.rows_used(), 0);
    let (a, b, c) = chip.raw_multiply(&mut layouter, || known(1, 1, 1)).unwrap();
    assert_eq!((a.row, b.row, c.row), (0, 0, 0));
    assert_eq!((a.column, b.column, c.column), (config.l, config.r, config.o));
    let (a, _, _) = chip.raw_add(&mut layouter, || known(1, 1, 2)).unwrap();
    assert_eq!(a.row, 1);
    assert_eq!(layouter.rows_used(), 2);
    layouter.begin_region("late");
    assert_eq!(layouter.region.start, 2);
    assert_eq!(layouter.region.name, "late");
    let cell = layouter.assign_advice(config.l, 1, || Value::known(fe(3))).unwrap();
    assert_eq!(cell, Cell { column: config.l, row: 3 });
    assert_eq!(layouter.rows_used(), 4);
    layouter.begin_region("next");
    assert_eq!(layouter.region.start, 4);
}

#[test]
fn a_new_region_starts_after_the_rows_in_use() {
    let (_, config, mut layouter) = setup(3);
    assert_eq!(layouter.region.start, 0);
    assert_eq!(layouter.region.name, "");
    layouter.begin_region("first");
    layouter.begin_region("second");
    assert_eq!(layouter.region.start, 0);
    let a = layouter.assign_advice(config.l, 2, || Value::known(fe(1))).unwrap();
    assert_eq!(a.row, 2);
    layouter.begin_region("third");
    assert_eq!(layouter.region.start, 3);
    let b = layouter.assign_advice(config.l, 0, || Value::known(fe(1))).unwrap();
    assert_eq!(b.row, 3);
    let c = layouter.assign_advice(config.r, 0, || Value::known(fe(1))).unwrap();
    assert_eq!(c.row, 3);
    layouter.begin_region("fourth");
    let d = layouter.assign_advice(config.l, 0, || Value::known(fe(1))).unwrap();
    assert_eq!(d.row, 4);
    assert_eq!(layouter.rows_used(), 5);
}

#[test]
fn every_failure_is_reported() {
    let (cs, config, mut layouter) = setup(2);
    let chip = CustomChip::new(config);
    let (_, _, c0) = chip.raw_multiply(&mut layouter, || known(5, 5, 26)).unwrap();
    let (a1, b1, _) = chip.raw_multiply(&mut layouter, || known(25, 3, 75)).unwrap();
    let (a2, _, c2) = chip.raw_add(&mut layouter, || known(1, 2, 4)).unwrap();
    chip.copy(&mut layouter, a1, c0).unwrap();
    chip.copy(&mut layouter, a2, b1).unwrap();
    chip.expose_public(&mut layouter, c2, 0).unwrap();
    chip.expose_public(&mut layouter, c0, 1).unwrap();
    chip.expose_public(&mut layouter, a1, 2).unwrap();
    assert_eq!(
        verdict(&cs, &layouter, &[5, 26]),
        Err(vec![
            Error::UnsatisfiedGate("mini plonk".to_string(), 0),
            Error::UnsatisfiedGate("mini plonk".to_string(), 2),
            Error::CopyMismatch(a1, c0),
            Error::CopyMismatch(a2, b1),
            Error::PublicInputMismatch(0),
            Error::MissingPublicInput,
        ])
    );
    assert_eq!(
        check_gates(&cs, &layouter.grid, &vec![]),
        vec![
            Error::UnsatisfiedGate("mini plonk".to_string(), 0),
            Error::UnsatisfiedGate("mini plonk".to_string(), 2),
        ]
    );
}

#[test]
fn rows_past_the_grid_overflow() {
    let (_, config, mut layouter) = setup(1);
    let chip = CustomChip::new(config);
    chip.raw_multiply(&mut layouter, || known(1, 1, 1)).unwrap();
    chip.raw_multiply(&mut layouter, || known(1, 1, 1)).unwrap();
    assert_eq!(chip.raw_multiply(&mut layouter, || known(1, 1, 1)), Err(Error::RegionOverflow));
    assert_eq!(chip.raw_add(&mut layouter, || known(1, 1, 2)), Err(Error::RegionOverflow));
    assert_eq!(layouter.rows_used(), 2);
    layouter.begin_region("probe");
    assert_eq!(
        layouter.assign_advice(config.l, usize::MAX, || Value::known(fe(1))),
        Err(Error::RegionOverflow)
    );
    assert_eq!(
        layouter.assign_advice(Column::witness(3), 0, || Value::known(fe(1))),
        Err(Error::RegionOverflow)
    );
    assert_eq!(
        layouter.assign_advice(config.sl, 0, || Value::known(fe(1))),
        Err(Error::RegionOverflow)
    );
    assert_eq!(
        layouter.assign_fixed(config.l, 0, || Value::known(fe(1))),
        Err(Error::RegionOverflow)
    );
}

#[test]
fn a_cell_is_assigned_once() {
    let (_, config, mut layouter) = setup(2);
    layouter.begin_region("probe");
    layouter.assign_advice(config.l, 0, || Value::known(fe(1))).unwrap();
    assert_eq!(
        layouter.assign_advice(config.l, 0, || Value::known(fe(2))),
        Err(Error::CellAlreadyAssigned)
    );
    assert_eq!(layouter.grid.witness[0][0].to_u64(), Some(1));
    layouter.assign_fixed(config.sm, 1, || Value::unknown()).unwrap();
    assert_eq!(
        layouter.assign_fixed(config.sm, 1, || Value::known(fe(2))),
        Err(Error::CellAlreadyAssigned)
    );
    assert!(layouter.grid.fixed[config.sm.index][1].is_zero());
}

#[test]
fn equality_must_be_enabled() {
    let mut cs = ConstraintSystem::new();
    let a = cs.new_witness_column();
    let b = cs.new_witness_column();
    let f = cs.new_fixed_column();
    let p = cs.new_public_column();
    assert_eq!(cs.enable_equality(f), Err(Error::EqualityNotEnabled));
    assert_eq!(cs.enable_equality(Column::witness(2)), Err(Error::EqualityNotEnabled));
    assert_eq!(cs.enable_equality(Column::public(1)), Err(Error::EqualityNotEnabled));
    assert_eq!(cs.enable_equality(a), Ok(()));
    assert!(cs.is_equality_enabled(a));
    assert!(!cs.is_equality_enabled(b));
    assert!(!cs.is_equality_enabled(f));
    assert!(!cs.is_equality_enabled(p));

    let mut layouter = Layouter::new(&cs, 2);
    layouter.begin_region("probe");
    let ca = layouter.assign_advice(a, 0, || Value::known(fe(1))).unwrap();
    let cb = layouter.assign_advice(b, 0, || Value::known(fe(1))).unwrap();
    let cf = layouter.assign_fixed(f, 0, || Value::known(fe(1))).unwrap();
    assert_eq!(layouter.constrain_equal(ca, cb), Err(Error::EqualityNotEnabled));
    assert_eq!(layouter.constrain_equal(cb, ca), Err(Error::EqualityNotEnabled));
    assert_eq!(layouter.constrain_equal(ca, cf), Err(Error::EqualityNotEnabled));
    assert_eq!(layouter.constrain_equal(ca, ca), Ok(()));
    assert_eq!(layouter.constrain_instance(ca, p, 0), Err(Error::EqualityNotEnabled));
    assert_eq!(layouter.constrain_instance(cb, p, 0), Err(Error::EqualityNotEnabled));
    assert_eq!(
        layouter.constrain_equal(ca, Cell { column: a, row: 4 }),
        Err(Error::RegionOverflow)
    );
}

#[test]
fn public_cells_take_part_in_copies() {
    let (cs, config, mut layouter) = setup(2);
    let chip = CustomChip::new(config);
    let (a, _, _) = chip.raw_add(&mut layouter, || known(5, 9, 14)).unwrap();
    chip.copy(&mut layouter, a, Cell { column: config.pi, row: 1 }).unwrap();
    assert_eq!(verdict(&cs, &layouter, &[0, 5]), Ok(()));
    assert_eq!(
        verdict(&cs, &layouter, &[0, 6]),
        Err(vec![Error::CopyMismatch(a, Cell { column: config.pi, row: 1 })])
    );
    assert_eq!(
        verdict(&cs, &layouter, &[]),
        Err(vec![Error::CopyMismatch(a, Cell { column: config.pi, row: 1 })])
    );
}

#[test]
fn bindings_are_checked_in_order() {
    let (_, config, mut layouter) = setup(2);
    let chip = CustomChip::new(config);
    let (a, b, _) = chip.raw_add(&mut layouter, || known(5, 9, 14)).unwrap();
    chip.expose_public(&mut layouter, a, 1).unwrap();
    chip.expose_public(&mut layouter, b, 0).unwrap();
    let grid = &layouter.grid;
    let bindings = &layouter.bindings;
    assert_eq!(check_bindings(grid, bindings, &vec![fe(9), fe(5)]), Vec::<Error>::new());
    assert_eq!(
        check_bindings(grid, bindings, &vec![fe(8), fe(4)]),
        vec![Error::PublicInputMismatch(1), Error::PublicInputMismatch(0)]
    );
    assert_eq!(
        check_bindings(grid, bindings, &vec![]),
        vec![Error::MissingPublicInput, Error::MissingPublicInput]
    );
    assert_eq!(
        check_bindings(grid, bindings, &vec![fe(8), fe(5)]),
        vec![Error::PublicInputMismatch(0)]
    );
    assert_eq!(check_bindings(grid, bindings, &vec![fe(9)]), vec![Error::MissingPublicInput]);
    assert_eq!(
        chip.expose_public(&mut layouter, a, 4),
        Err(Error::RegionOverflow)
    );
}

#[test]
fn expressions_evaluate_by_substitution() {
    let mut grid = Grid::new(4, 2, 1);
    let w0 = Column::witness(0);
    let w1 = Column::witness(1);
    let f0 = Column::fixed(0);
    for row in 0..4 {
        grid.set(w0, row, fe(row as u64 + 1));
        grid.set(w1, row, fe(10 * (row as u64 + 1)));
    }
    grid.set(f0, 2, fe(3));
    assert!(grid.contains(w1, 3));
    assert!(!grid.contains(w1, 4));
    assert!(!grid.contains(Column::witness(2), 0));
    assert!(!grid.contains(Column::public(0), 0));
    let public = vec![fe(100), fe(200)];
    let e = Expression::query(w0, Rotation::cur())
        .mul(Expression::query(w1, Rotation::next()))
        .add(Expression::query(f0, Rotation::prev()))
        .sub(Expression::query(Column::public(0), Rotation::cur()))
        .add(Expression::constant(fe(2)).neg());
    assert_eq!(e.evaluate(&grid, &public, 0).to_u64(), None);
    assert!(e.evaluate(&grid, &public, 0).equals(&fe(20).sub(&fe(100)).sub(&fe(2))));
    assert!(e.evaluate(&grid, &public, 1).equals(&fe(60).sub(&fe(200)).sub(&fe(2))));
    assert_eq!(e.evaluate(&grid, &public, 3).to_u64(), Some(4 * 10 + 3 - 0 - 2));
    assert_eq!(e.duplicate().evaluate(&grid, &public, 3).to_u64(), Some(41));
    assert_eq!(grid.get(&public, Column::public(3), 1).to_u64(), Some(200));
    assert!(grid.get(&public, Column::public(0), 2).is_zero());
    assert!(grid.get(&public, w0, 9).is_zero());
}

fn counting_system() -> (ConstraintSystem, Column, Column) {
    let mut cs = ConstraintSystem::new();
    let w = cs.new_witness_column();
    let s = cs.new_fixed_column();
    cs.create_gate("step", || {
        let next = Expression::query(w, Rotation::next());
        let cur = Expression::query(w, Rotation::cur());
        let step = next.sub(cur).sub(Expression::constant(Fe::one()));
        vec![Expression::query(s, Rotation::cur()).mul(step)]
    });
    cs.create_gate("start", || {
        let prev = Expression::query(s, Rotation::prev());
        let cur = Expression::query(s, Rotation::cur());
        let first = cur.sub(prev);
        vec![Expression::constant(fe(0)).mul(first)]
    });
    (cs, w, s)
}

fn count_from(cs: &ConstraintSystem, w: Column, s: Column, values: [u64; 4]) -> Layouter {
    let mut layouter = Layouter::new(cs, 2);
    layouter.begin_region("count");
    for (row, v) in values.iter().enumerate() {
        layouter.assign_advice(w, row, || Value::known(fe(*v))).unwrap();
        if row < 3 {
            layouter.assign_fixed(s, row, || Value::known(Fe::one())).unwrap();
        }
    }
    layouter
}

#[test]
fn a_gate_of_its_own_reads_the_next_row() {
    let (cs, w, s) = counting_system();
    assert_eq!(cs.gates.len(), 2);
    assert_eq!(cs.gates[0].name, "step");
    let layouter = count_from(&cs, w, s, [3, 4, 5, 6]);
    assert_eq!(layouter.rows_used(), 4);
    assert_eq!(verdict(&cs, &layouter, &[]), Ok(()));
    let layouter = count_from(&cs, w, s, [3, 4, 9, 10]);
    assert_eq!(verdict(&cs, &layouter, &[]), Err(vec![Error::UnsatisfiedGate("step".to_string(), 1)]));
    let layouter = count_from(&cs, w, s, [3, 4, 5, 7]);
    assert_eq!(verdict(&cs, &layouter, &[]), Err(vec![Error::UnsatisfiedGate("step".to_string(), 2)]));
}
