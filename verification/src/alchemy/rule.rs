use crate::alchemy::cauldron::{contains_entity, reqs_met, spec_reqs_met, Req};
use crate::entity_map::{entity_map_view, remap_entities, remapped, EntityId};
use bevy::ecs::entity::EntityMap;
use core::marker::PhantomData;
use vstd::prelude::*;

verus! {

/// Marks an ingredient whose rules are kept up to date.
#[derive(Clone, Copy, Debug)]
pub struct Registered;

/// The requirements of a rule, kept apart from it.
#[derive(Debug)]
pub struct AlchemyRuleReqs<R> {
    vec: Vec<R>,
}

/// A rule of alchemy: when its requirements `reqs` hold and every ingredient it
/// consumes is in the tool, it turns the `consumes` volumes into the `produces`
/// volumes. `R` is the tool's kind of requirement, `V` the type of a volume.
#[derive(Debug)]
pub struct AlchemyRule<R, V> {
    pub reqs: Vec<R>,
    pub consumes: Vec<(EntityId, V)>,
    pub produces: Vec<(EntityId, V)>,
}

impl<R, V> Default for AlchemyRule<R, V> {
    /// A rule with no requirements that consumes and produces nothing.
    fn default() -> (rule: Self)
        ensures
            rule.reqs@.len() == 0,
            rule.consumes@.len() == 0,
            rule.produces@.len() == 0,
    {
        AlchemyRule { reqs: Vec::new(), consumes: Vec::new(), produces: Vec::new() }
    }
}

/// Whether every ingredient that `consumes` names is among `ingredients`.
pub open spec fn spec_consumed_present<V>(
    consumes: Seq<(EntityId, V)>,
    ingredients: Seq<EntityId>,
) -> bool {
    forall|i: int| 0 <= i < consumes.len() ==> ingredients.contains(#[trigger] consumes[i].0)
}

impl<V> AlchemyRule<Req, V> {
    /// Whether every ingredient that this rule consumes is among `ingredients`,
    /// the ingredients that the tool holds.
    pub fn consumed_ingredients_present(&self, ingredients: &Vec<EntityId>) -> (present: bool)
        ensures
            present == spec_consumed_present(self.consumes@, ingredients@),
            present <==> (forall|i: int|
                0 <= i < self.consumes@.len() ==> ingredients@.contains(
                    #[trigger] self.consumes@[i].0,
                )),
    {
        let mut i: usize = 0;
        while i < self.consumes.len()
            invariant
                i <= self.consumes.len(),
                forall|j: int|
                    0 <= j < i ==> ingredients@.contains(#[trigger] self.consumes@[j].0),
            decreases self.consumes.len() - i,
        {
            if !contains_entity(ingredients, self.consumes[i].0) {
                return false;
            }
            i = i + 1;
        }
        true
    }

    /// Whether this rule may fire in a tool that holds `ingredients`, of which
    /// it holds a nonzero volume of exactly `nonzero_ingredients`, and that is
    /// stirred each way as the flags say: every requirement holds and every
    /// consumed ingredient is held.
    pub fn reqs_satisfied(
        &self,
        ingredients: &Vec<EntityId>,
        nonzero_ingredients: &Vec<EntityId>,
        stirred_clockwise: bool,
        stirred_counter_clockwise: bool,
    ) -> (satisfied: bool)
        ensures
            satisfied == (spec_reqs_met(
                self.reqs@,
                nonzero_ingredients@,
                stirred_clockwise,
                stirred_counter_clockwise,
            ) && spec_consumed_present(self.consumes@, ingredients@)),
    {
        if !reqs_met(&self.reqs, nonzero_ingredients, stirred_clockwise, stirred_counter_clockwise) {
            return false;
        }
        self.consumed_ingredients_present(ingredients)
    }
}

/// Kept on an ingredient: the rules that the ingredient takes part in, for
/// the tool type `T`.
pub struct AlchemyTrigger<T>(pub Vec<EntityId>, PhantomData<T>);

impl<T> AlchemyTrigger<T> {
    /// The rules that this trigger lists, in order.
    pub closed spec fn rules(self) -> Seq<EntityId> {
        self.0@
    }

    /// The trigger for the rules `rules`.
    pub fn new(rules: Vec<EntityId>) -> (trigger: AlchemyTrigger<T>)
        ensures
            trigger.rules() == rules@,
    {
        AlchemyTrigger(rules, PhantomData)
    }

    /// Replaces each rule that `entity_map` has a pair for by that pair.
    pub fn map_entities(&mut self, entity_map: &EntityMap)
        ensures
            final(self).rules() == old(self).rules().map_values(
                |e: EntityId| remapped(entity_map_view(*entity_map), e),
            ),
    {
        remap_entities(&mut self.0, entity_map);
    }
}

/// A rule's consumed ingredients are all present exactly when no ingredient
/// it consumes, at any position of its list, is missing from the tool; one
/// missing ingredient anywhere in the list is enough to make the answer false.
pub proof fn law_consumed_present_iff_none_missing<V>(
    consumes: Seq<(EntityId, V)>,
    ingredients: Seq<EntityId>,
)
    ensures
        spec_consumed_present(consumes, ingredients) <==> !(exists|i: int|
            0 <= i < consumes.len() && !ingredients.contains(#[trigger] consumes[i].0)),
        forall|i: int|
            0 <= i < consumes.len() && !ingredients.contains(#[trigger] consumes[i].0)
                ==> !spec_consumed_present(consumes, ingredients),
        forall|extra: (EntityId, V)|
            spec_consumed_present(consumes.push(extra), ingredients) == (spec_consumed_present(
                consumes,
                ingredients,
            ) && ingredients.contains(extra.0)),
{
    assert forall|extra: (EntityId, V)|
        spec_consumed_present(consumes.push(extra), ingredients) == (spec_consumed_present(
            consumes,
            ingredients,
        ) && ingredients.contains(extra.0)) by {
        let longer = consumes.push(extra);
        if spec_consumed_present(longer, ingredients) {
            assert(longer[consumes.len() as int] == extra);
            assert forall|i: int| 0 <= i < consumes.len() implies ingredients.contains(
                #[trigger] consumes[i].0,
            ) by {
                assert(longer[i] == consumes[i]);
            }
        }
        if spec_consumed_present(consumes, ingredients) && ingredients.contains(extra.0) {
            assert forall|i: int| 0 <= i < longer.len() implies ingredients.contains(
                #[trigger] longer[i].0,
            ) by {
                if i < consumes.len() {
                    assert(longer[i] == consumes[i]);
                }
            }
        }
    }
}

} // verus!
