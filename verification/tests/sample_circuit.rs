use mini_plonk::circuit::SampleCircuit;
use mini_plonk::column::{Cell, Column};
use mini_plonk::constraint_system::ConstraintSystem;
use mini_plonk::error::Error;
use mini_plonk::field::Fe;
use mini_plonk::layouter::Layouter;
use mini_plonk::prover::MockProver;
use mini_plonk::value::Value;

fn fe(v: u64) -> Fe {
    Fe::from_u64(v)
}

fn sample() -> SampleCircuit {
    SampleCircuit { x: Value::known(fe(5)), y: Value::known(fe(9)), constant: fe(7) }
}

#[test]
fn sample_checks_with_its_public_input() {
    let prover = MockProver::run(4, &sample(), vec![fe(7), fe(25 * 81 + 7)]).unwrap();
    assert_eq!(prover.verify(), Ok(()));
}

#[test]
fn run_and_verify_accepts_the_sample() {
    assert_eq!(MockProver::run_and_verify(4, &sample(), vec![fe(7), fe(2032)]), Ok(()));
}

#[test]
fn wrong_output_is_a_public_input_mismatch_at_row_one() {
    let prover = MockProver::run(4, &sample(), vec![fe(7), fe(2031)]).unwrap();
    assert_eq!(prover.verify(), Err(vec![Error::PublicInputMismatch(1)]));
}

#[test]
fn two_wrong_rows_are_two_mismatches() {
    assert_eq!(
        MockProver::run_and_verify(4, &sample(), vec![fe(8), fe(2031)]),
        Err(vec![Error::PublicInputMismatch(0), Error::PublicInputMismatch(1)])
    );
    assert_eq!(
        MockProver::run_and_verify(4, &sample(), vec![fe(8)]),
        Err(vec![Error::PublicInputMismatch(0), Error::MissingPublicInput])
    );
}

#[test]
fn wrong_constant_is_a_public_input_mismatch_at_row_zero() {
    assert_eq!(
        MockProver::run_and_verify(4, &sample(), vec![fe(8), fe(2032)]),
        Err(vec![Error::PublicInputMismatch(0)])
    );
}

#[test]
fn short_public_input_is_missing() {
    assert_eq!(
        MockProver::run_and_verify(4, &sample(), vec![]),
        Err(vec![Error::MissingPublicInput, Error::MissingPublicInput])
    );
    assert_eq!(
        MockProver::run_and_verify(4, &sample(), vec![fe(7)]),
        Err(vec![Error::MissingPublicInput])
    );
}

#[test]
fn longer_public_input_is_accepted() {
    assert_eq!(MockProver::run_and_verify(4, &sample(), vec![fe(7), fe(2032), fe(1)]), Ok(()));
}

#[test]
fn grid_of_two_rows_overflows() {
    assert!(matches!(
        MockProver::run(1, &sample(), vec![fe(7), fe(2032)]),
        Err(Error::RegionOverflow)
    ));
    assert_eq!(
        MockProver::run_and_verify(0, &sample(), vec![fe(7), fe(2032)]),
        Err(vec![Error::RegionOverflow])
    );
}

#[test]
fn grid_of_four_rows_is_enough() {
    assert_eq!(MockProver::run_and_verify(2, &sample(), vec![fe(7), fe(2032)]), Ok(()));
}

#[test]
fn other_witnesses_give_their_own_output() {
    let circuit = SampleCircuit { x: Value::known(fe(2)), y: Value::known(fe(3)), constant: fe(1) };
    assert_eq!(MockProver::run_and_verify(3, &circuit, vec![fe(1), fe(37)]), Ok(()));
    assert_eq!(
        MockProver::run_and_verify(3, &circuit, vec![fe(1), fe(36)]),
        Err(vec![Error::PublicInputMismatch(1)])
    );
}

#[test]
fn output_wraps_around_the_modulus() {
    let minus_one = fe(1).neg();
    let circuit = SampleCircuit { x: Value::known(minus_one), y: Value::known(fe(2)), constant: fe(3) };
    assert_eq!(MockProver::run_and_verify(2, &circuit, vec![fe(3), fe(7)]), Ok(()));
}

#[test]
fn configure_declares_columns_and_gates() {
    let mut cs = ConstraintSystem::new();
    let config = SampleCircuit::configure(&mut cs).unwrap();
    assert_eq!(cs.witness_equality, vec![true, true, true]);
    assert_eq!(cs.num_fixed, 6);
    assert_eq!(cs.public_equality, vec![true]);
    assert_eq!(cs.gates.len(), 2);
    assert_eq!(cs.gates[0].name, "mini plonk");
    assert_eq!(cs.gates[1].name, "public input");
    assert_eq!(cs.gates[0].polys.len(), 1);
    assert_eq!(cs.gates[1].polys.len(), 1);
    assert!(config.is_wf());
    assert_eq!((config.l.index, config.r.index, config.o.index), (0, 1, 2));
    assert_eq!(config.sm.index, 0);
    assert_eq!(config.sp.index, 5);
    assert_eq!(config.pi.index, 0);
}

#[test]
fn shape_is_laid_out_without_witnesses() {
    let mut cs = ConstraintSystem::new();
    let config = SampleCircuit::configure(&mut cs).unwrap();
    let mut layouter = Layouter::new(&cs, 3);
    let shape = sample().without_witnesses();
    assert!(!shape.x.is_known());
    assert!(!shape.y.is_known());
    assert_eq!(shape.synthesize(config, &mut layouter), Ok(()));
    assert_eq!(layouter.rows_used(), 4);
    assert_eq!(layouter.bindings.len(), 2);
    assert!(layouter.grid.witness[0][0].is_zero());
    assert_eq!(layouter.grid.fixed[config.sm.index][0].to_u64(), Some(1));
}

#[test]
fn synthesize_fills_the_rows() {
    let mut cs = ConstraintSystem::new();
    let config = SampleCircuit::configure(&mut cs).unwrap();
    let mut layouter = Layouter::new(&cs, 2);
    assert!(config.is_fit(&layouter));
    assert_eq!(sample().synthesize(config, &mut layouter), Ok(()));
    let w = &layouter.grid.witness;
    let at = |c: usize, r: usize| w[c][r].to_u64().unwrap();
    assert_eq!((at(0, 0), at(1, 0), at(2, 0)), (5, 5, 25));
    assert_eq!((at(0, 1), at(1, 1), at(2, 1)), (9, 9, 81));
    assert_eq!((at(0, 2), at(1, 2), at(2, 2)), (25, 81, 2025));
    assert_eq!((at(0, 3), at(1, 3), at(2, 3)), (2025, 7, 2032));
    let f = &layouter.grid.fixed;
    let sel = |c: usize, r: usize| f[c][r].to_u64().unwrap();
    for row in 0..3 {
        assert_eq!(sel(config.sm.index, row), 1);
        assert_eq!(sel(config.so.index, row), 1);
        assert_eq!(sel(config.sl.index, row), 0);
        assert_eq!(sel(config.sr.index, row), 0);
    }
    assert_eq!(sel(config.sm.index, 3), 0);
    assert_eq!(sel(config.sl.index, 3), 1);
    assert_eq!(sel(config.sr.index, 3), 1);
    assert_eq!(sel(config.so.index, 3), 1);
    assert_eq!(layouter.rows_used(), 4);
}

#[test]
fn synthesize_on_a_used_grid_overflows() {
    let mut cs = ConstraintSystem::new();
    let config = SampleCircuit::configure(&mut cs).unwrap();
    let mut layouter = Layouter::new(&cs, 2);
    assert_eq!(sample().synthesize(config, &mut layouter), Ok(()));
    assert_eq!(sample().synthesize(config, &mut layouter), Err(Error::RegionOverflow));
}

#[test]
fn can_run_tells_what_fits() {
    assert!(MockProver::can_run(4));
    assert!(!MockProver::can_run(64));
}

#[test]
fn shape_alone_checks_against_zeros() {
    let shape = sample().without_witnesses();
    assert_eq!(MockProver::run_and_verify(2, &shape, vec![fe(0), fe(0)]), Ok(()));
    assert_eq!(
        MockProver::run_and_verify(2, &shape, vec![fe(7), fe(0)]),
        Err(vec![Error::PublicInputMismatch(0)])
    );
    assert_eq!(
        MockProver::run_and_verify(2, &shape, vec![fe(0), fe(2032)]),
        Err(vec![Error::PublicInputMismatch(1)])
    );
}

#[test]
fn a_lone_witness_breaks_a_copy() {
    let unknown: Value<Fe> = Value::unknown();
    let only_x = SampleCircuit { x: Value::known(fe(5)), y: unknown, constant: fe(7) };
    assert_eq!(
        MockProver::run_and_verify(2, &only_x, vec![fe(0), fe(0)]),
        Err(vec![Error::CopyMismatch(
            Cell { column: Column::witness(0), row: 2 },
            Cell { column: Column::witness(2), row: 0 }
        )])
    );
    let only_y = SampleCircuit { x: unknown, y: Value::known(fe(9)), constant: fe(7) };
    assert_eq!(
        MockProver::run_and_verify(3, &only_y, vec![fe(7), fe(2032)]),
        Err(vec![
            Error::CopyMismatch(
                Cell { column: Column::witness(1), row: 2 },
                Cell { column: Column::witness(2), row: 1 }
            ),
            Error::PublicInputMismatch(0),
            Error::PublicInputMismatch(1),
        ])
    );
    let only_zero = SampleCircuit { x: Value::known(fe(0)), y: unknown, constant: fe(7) };
    assert_eq!(MockProver::run_and_verify(2, &only_zero, vec![fe(0), fe(0)]), Ok(()));
}
