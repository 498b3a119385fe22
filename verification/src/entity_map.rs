use bevy::ecs::entity::{Entity, EntityMap};
use vstd::prelude::*;

verus! {

/// An entity of the game world, held as the bits that `Entity::to_bits`
/// gives (generation in the high half, index in the low half); `Entity::from_bits`
/// turns them back into the same entity.
pub type EntityId = u64;

#[verifier::external_type_specification]
#[verifier::external_body]
pub struct ExEntityMap(EntityMap);

/// The pairs that an `EntityMap` holds, each entity taken by its bits.
pub uninterp spec fn entity_map_view(map: EntityMap) -> Map<u64, u64>;

/// Looks `entity` up with `EntityMap::get`, converting through
/// `Entity::from_bits` and `Entity::to_bits`. Trusted to give the entity that
/// the map pairs with `entity`, and `None` exactly where the map holds no
/// pair for it (the crate's `get` reads its inner `HashMap` and answers
/// `Err(EntityNotFound)` when the key is missing).
#[verifier::external_body]
fn entity_map_get(map: &EntityMap, entity: u64) -> (mapped: Option<u64>)
    ensures
        match mapped {
            Some(to) => entity_map_view(*map).contains_key(entity) && entity_map_view(*map)[entity]
                == to,
            None => !entity_map_view(*map).contains_key(entity),
        },
{
    match map.get(Entity::from_bits(entity)) {
        Ok(to) => Some(to.to_bits()),
        Err(_) => None,
    }
}

/// Where `map` sends `entity`: its pair if it has one, else `entity` itself.
pub open spec fn remapped(map: Map<u64, u64>, entity: EntityId) -> EntityId {
    if map.contains_key(entity) {
        map[entity]
    } else {
        entity
    }
}

/// Replaces each entity in `entities` that `entity_map` has a pair for by
/// that pair, and leaves the others as they are.
pub fn remap_entities(entities: &mut Vec<EntityId>, entity_map: &EntityMap)
    ensures
        final(entities)@ == old(entities)@.map_values(
            |e: EntityId| remapped(entity_map_view(*entity_map), e),
        ),
        final(entities)@.len() == old(entities)@.len(),
        forall|i: int|
            0 <= i < old(entities)@.len() && entity_map_view(*entity_map).contains_key(
                #[trigger] old(entities)@[i],
            ) ==> final(entities)@[i] == entity_map_view(*entity_map)[old(entities)@[i]],
        forall|i: int|
            0 <= i < old(entities)@.len() && !entity_map_view(*entity_map).contains_key(
                #[trigger] old(entities)@[i],
            ) ==> final(entities)@[i] == old(entities)@[i],
{
    let ghost original = entities@;
    let len = entities.len();
    let mut i: usize = 0;
    while i < len
        invariant
            i <= len,
            len == original.len(),
            entities@.len() == len,
            forall|j: int|
                0 <= j < i ==> entities@[j] == remapped(entity_map_view(*entity_map), original[j]),
            forall|j: int| i <= j < len ==> entities@[j] == original[j],
        decreases len - i,
    {
        let entity = entities[i];
        match entity_map_get(entity_map, entity) {
            Some(to) => {
                entities.set(i, to);
            },
            None => {},
        }
        i = i + 1;
    }
    assert(entities@ =~= original.map_values(
        |e: EntityId| remapped(entity_map_view(*entity_map), e),
    ));
}

/// Remapping is a single lookup: an entity that the map has a pair for goes
/// to that pair (even when the pair is itself a key of the map), and any
/// other entity stays as it is.
pub proof fn law_remap_is_one_lookup(map: Map<u64, u64>, entity: EntityId)
    ensures
        map.contains_key(entity) ==> remapped(map, entity) == map[entity],
        !map.contains_key(entity) ==> remapped(map, entity) == entity,
        forall|to: u64|
            map == Map::<u64, u64>::empty().insert(entity, to) ==> remapped(map, entity) == to,
{
}

} // verus!
