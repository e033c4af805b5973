use vstd::prelude::*;
use crate::traits::Creature;

verus! {

/// The simplest creature: it carries no state of its own.
pub struct SimpleCreature {}

impl Creature for SimpleCreature {
}

impl Default for SimpleCreature {
    fn default() -> (r: Self)
        ensures
            r == (SimpleCreature {}),
    {
        SimpleCreature {}
    }
}

} // verus!
