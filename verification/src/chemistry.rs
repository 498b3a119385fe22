pub mod rule;
pub mod standard_units;

pub use crate::alchemy::cauldron::CauldronEvent;
pub use crate::alchemy::IngredientId;

use crate::alchemy::cauldron::spec_reqs_met;
use crate::entity_map::EntityId;
use rule::ChemistryRuleReqs;
use vstd::prelude::*;

verus! {

/// Whether a rule with the requirements `reqs` (if it has any) may work in a
/// cauldron that holds a nonzero volume of exactly the ingredients in
/// `nonzero_ingredients` and was stirred each way as the flags say: a rule
/// without requirements always may, one with requirements when all of them hold.
pub fn rule_may_apply(
    reqs: Option<&ChemistryRuleReqs>,
    nonzero_ingredients: &Vec<EntityId>,
    stirred_clockwise: bool,
    stirred_counter_clockwise: bool,
) -> (may: bool)
    ensures
        may == match reqs {
            None => true,
            Some(r) => spec_reqs_met(
                r.0@,
                nonzero_ingredients@,
                stirred_clockwise,
                stirred_counter_clockwise,
            ),
        },
{
    match reqs {
        None => true,
        Some(r) => r.are_met(nonzero_ingredients, stirred_clockwise, stirred_counter_clockwise),
    }
}

} // verus!
