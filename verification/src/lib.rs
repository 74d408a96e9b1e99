//! A coral reef that lives by Conway-style rules and is eaten by disease.
use vstd::prelude::*;

pub mod assets;
pub mod constants;
pub mod controller;
pub mod conway_rules;
pub mod coral;
pub mod model;
pub mod player;
mod random;
pub mod rulebook;
pub mod rules;
pub mod stamps;
pub mod view;

verus! {

} // verus!
