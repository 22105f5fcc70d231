//! A minimal PLONK-style arithmetic constraint system over the Pallas base
//! field: columns, gates, regions, copy constraints, public inputs, and a
//! satisfiability checker.

pub mod checker;
pub mod circuit;
pub mod classes;
pub mod column;
pub mod composer;
pub mod constraint_system;
pub mod error;
pub mod expression;
pub mod field;
pub mod gates;
pub mod grid;
pub mod layouter;
pub mod prover;
pub mod value;
