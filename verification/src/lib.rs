pub mod alchemy;
pub mod chemistry;
pub mod entity_map;
pub mod input;

pub use alchemy::standard_units::Temperature;
pub use alchemy::IngredientId;
pub use chemistry::CauldronEvent;

use vstd::prelude::*;

verus! {

/// A change that an action makes to a cauldron; `V` is the type of a volume.
#[derive(Debug)]
pub enum CauldronEffect<V> {
    RemoveIngredient(entity_map::EntityId, V),
    ProduceIngredient(entity_map::EntityId, V),
    RaiseHeatBy(Temperature),
    ReduceHeatBy(Temperature),
}

/// Something an ingredient does to the cauldron it is in when a matching event
/// happens.
pub trait CauldronAction {
    /// Whether the action answers `event`.
    fn applicable_event<V>(event: &CauldronEvent<V>) -> bool;

    /// The effects of the action on `cauldron`.
    fn apply<C, V>(&self, cauldron: &C) -> Vec<CauldronEffect<V>>;
}

/// Stirring clockwise heats the cauldron.
#[derive(Clone, Copy, Debug)]
pub struct StirClockwiseCauldronAction;

impl CauldronAction for StirClockwiseCauldronAction {
    /// Answers exactly the clockwise stirs.
    fn applicable_event<V>(event: &CauldronEvent<V>) -> (applies: bool)
        ensures
            applies == (*event is StirClockwise),
    {
        match event {
            CauldronEvent::StirClockwise(_) => true,
            _ => false,
        }
    }

    /// Raises the heat by 10 K, whatever the cauldron.
    fn apply<C, V>(&self, cauldron: &C) -> (effects: Vec<CauldronEffect<V>>)
        ensures
            effects@.len() == 1,
            effects@[0] matches CauldronEffect::RaiseHeatBy(t) && t@ == 10,
    {
        let mut effects = Vec::new();
        effects.push(CauldronEffect::RaiseHeatBy(Temperature::from_kelvin(10)));
        effects
    }
}

} // verus!
