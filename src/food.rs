use vstd::prelude::*;
use crate::traits::Food;

verus! {

/// The simplest piece of food: it carries no state of its own.
pub struct SimpleFood {}

impl Food for SimpleFood {
}

impl Default for SimpleFood {
    fn default() -> (r: Self)
        ensures
            r == (SimpleFood {}),
    {
        SimpleFood {}
    }
}

} // verus!
