use vstd::prelude::*;

verus! {

/// What the world needs of a type that plays the creature role: a canonical
/// default value to place on the grid.
pub trait Creature: Default {
}

/// What the world needs of a type that plays the food role: a canonical
/// default value to place on the grid.
pub trait Food: Default {
}

} // verus!
