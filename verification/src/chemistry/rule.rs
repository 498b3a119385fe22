pub use crate::alchemy::cauldron::Req;

use crate::alchemy::cauldron::{reqs_met, spec_reqs_met};
use crate::entity_map::{entity_map_view, remap_entities, remapped, EntityId};
use bevy::ecs::entity::EntityMap;
use vstd::prelude::*;

verus! {

/// Marks an ingredient whose rules are kept up to date.
#[derive(Clone, Copy, Debug)]
pub struct Registered;

/// A rule of chemistry; `V` is the type of a volume.
#[derive(Debug)]
pub enum ChemistryRule<V> {
    /// Turns the `consumes` volumes of ingredients into the `produces` volumes.
    Mix { consumes: Vec<(EntityId, V)>, produces: Vec<(EntityId, V)> },
}

/// The requirements that a rule puts on the cauldron it works in.
#[derive(Debug)]
pub struct ChemistryRuleReqs(pub Vec<Req>);

impl ChemistryRuleReqs {
    /// Whether every requirement holds of a cauldron that holds a nonzero volume
    /// of exactly the ingredients in `nonzero_ingredients` and was stirred each
    /// way as the flags say.
    pub fn are_met(
        &self,
        nonzero_ingredients: &Vec<EntityId>,
        stirred_clockwise: bool,
        stirred_counter_clockwise: bool,
    ) -> (met: bool)
        ensures
            met == spec_reqs_met(
                self.0@,
                nonzero_ingredients@,
                stirred_clockwise,
                stirred_counter_clockwise,
            ),
    {
        reqs_met(&self.0, nonzero_ingredients, stirred_clockwise, stirred_counter_clockwise)
    }
}

/// Kept on an ingredient: the rules that the ingredient takes part in.
#[derive(Debug)]
pub struct TriggerFor(pub Vec<EntityId>);

impl TriggerFor {
    /// Replaces each rule that `entity_map` has a pair for by that pair.
    pub fn map_entities(&mut self, entity_map: &EntityMap)
        ensures
            final(self).0@ == old(self).0@.map_values(
                |e: EntityId| remapped(entity_map_view(*entity_map), e),
            ),
    {
        remap_entities(&mut self.0, entity_map);
    }
}

} // verus!
