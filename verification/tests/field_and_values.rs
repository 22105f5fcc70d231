use mini_plonk::column::{Column, ColumnKind, Rotation};
use mini_plonk::field::Fe;
use mini_plonk::value::{triple, Value};

fn fe(v: u64) -> Fe {
    Fe::from_u64(v)
}

#[test]
fn field_adds_and_multiplies() {
    assert_eq!(fe(5).add(&fe(9)).to_u64(), Some(14));
    assert_eq!(fe(5).mul(&fe(9)).to_u64(), Some(45));
    assert_eq!(fe(9).sub(&fe(5)).to_u64(), Some(4));
    assert_eq!(fe(25).mul(&fe(81)).add(&fe(7)).to_u64(), Some(2032));
}

#[test]
fn field_wraps_at_the_modulus() {
    let minus_one = fe(0).sub(&fe(1));
    assert_eq!(minus_one.to_u64(), None);
    assert!(minus_one.add(&fe(1)).is_zero());
    assert_eq!(minus_one.mul(&minus_one).to_u64(), Some(1));
    assert!(minus_one.equals(&fe(1).neg()));
    assert_eq!(fe(5).sub(&fe(9)).add(&fe(9)).to_u64(), Some(5));
}

#[test]
fn field_negates() {
    assert!(fe(0).neg().is_zero());
    assert_eq!(fe(7).neg().neg().to_u64(), Some(7));
    assert!(fe(7).neg().add(&fe(7)).is_zero());
    assert!(!fe(7).neg().equals(&fe(7)));
}

#[test]
fn field_multiplies_past_one_limb() {
    let big = fe(u64::MAX);
    let square = big.mul(&big);
    assert_eq!(square.to_u64(), None);
    assert!(square.sub(&big.mul(&fe(u64::MAX - 1))).equals(&big));
}

#[test]
fn field_identities() {
    assert!(Fe::zero().is_zero());
    assert_eq!(Fe::one().to_u64(), Some(1));
    assert_eq!(Fe::zero().to_u64(), Some(0));
    assert!(fe(3).mul(&Fe::one()).equals(&fe(3)));
    assert!(fe(3).mul(&Fe::zero()).is_zero());
    assert!(fe(3).add(&Fe::zero()).equals(&fe(3)));
    assert_eq!(fe(3), fe(3));
    assert_ne!(fe(3), fe(4));
}

#[test]
fn known_values_compute() {
    let a = Value::known(fe(6));
    let b = Value::known(fe(7));
    match a.mul(b) {
        Value::Known(v) => assert_eq!(v.to_u64(), Some(42)),
        Value::Unknown => panic!("a product of known values is known"),
    }
    match a.add(b) {
        Value::Known(v) => assert_eq!(v.to_u64(), Some(13)),
        Value::Unknown => panic!("a sum of known values is known"),
    }
    match b.sub(a) {
        Value::Known(v) => assert_eq!(v.to_u64(), Some(1)),
        Value::Unknown => panic!("a difference of known values is known"),
    }
    match a.neg().add(a) {
        Value::Known(v) => assert!(v.is_zero()),
        Value::Unknown => panic!("a negation of a known value is known"),
    }
}

#[test]
fn unknown_values_propagate() {
    let a = Value::known(fe(6));
    let u: Value<Fe> = Value::unknown();
    assert!(!a.add(u).is_known());
    assert!(!u.add(a).is_known());
    assert!(!u.mul(u).is_known());
    assert!(!a.sub(u).is_known());
    assert!(!u.neg().is_known());
    assert!(!a.zip(u).is_known());
    assert!(a.zip(a).is_known());
    assert!(!triple(a, a, u).is_known());
    assert!(!triple(u, a, a).is_known());
    assert!(triple(a, a, a).is_known());
}

#[test]
fn rotations_wrap_around() {
    assert_eq!(Rotation::cur().resolve(3, 8), 3);
    assert_eq!(Rotation::next().resolve(7, 8), 0);
    assert_eq!(Rotation::prev().resolve(0, 8), 7);
    assert_eq!(Rotation(-9).resolve(0, 8), 7);
    assert_eq!(Rotation(17).resolve(5, 8), 6);
    assert_eq!(Rotation(i32::MIN).resolve(1, 8), 1);
    assert_eq!(Rotation(i32::MAX).resolve(0, 8), 7);
    assert_eq!(Rotation(-3).resolve(1, 5), 3);
}

#[test]
fn column_handles() {
    assert_eq!(Column::witness(2), Column { kind: ColumnKind::Witness, index: 2 });
    assert_eq!(Column::fixed(0), Column { kind: ColumnKind::Fixed, index: 0 });
    assert_eq!(Column::public(1), Column { kind: ColumnKind::Public, index: 1 });
}
