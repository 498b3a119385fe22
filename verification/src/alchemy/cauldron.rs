use crate::alchemy::standard_units::Temperature;
use crate::entity_map::EntityId;
use vstd::prelude::*;

verus! {

/// A requirement that a rule puts on the cauldron it works in.
#[derive(Clone, Copy, Debug, PartialEq, Eq, Structural)]
pub enum Req {
    /// The cauldron holds a nonzero volume of this ingredient.
    Present(EntityId),
    /// The cauldron is being stirred clockwise.
    StirClockwise,
    /// The cauldron is being stirred counter-clockwise.
    StirCounterClockwise,
}

/// Whether `req` holds of a cauldron that holds a nonzero volume of exactly the
/// ingredients in `nonzero_ingredients` and is stirred clockwise and
/// counter-clockwise as the two flags say.
pub open spec fn spec_req_met(
    req: Req,
    nonzero_ingredients: Seq<EntityId>,
    stirred_clockwise: bool,
    stirred_counter_clockwise: bool,
) -> bool {
    match req {
        Req::Present(ingredient) => nonzero_ingredients.contains(ingredient),
        Req::StirClockwise => stirred_clockwise,
        Req::StirCounterClockwise => stirred_counter_clockwise,
    }
}

/// Whether every requirement in `reqs` holds, in the sense of `spec_req_met`.
pub open spec fn spec_reqs_met(
    reqs: Seq<Req>,
    nonzero_ingredients: Seq<EntityId>,
    stirred_clockwise: bool,
    stirred_counter_clockwise: bool,
) -> bool {
    forall|i: int|
        0 <= i < reqs.len() ==> #[trigger] spec_req_met(
            reqs[i],
            nonzero_ingredients,
            stirred_clockwise,
            stirred_counter_clockwise,
        )
}

impl Req {
    /// Whether this requirement holds of a cauldron that holds a nonzero volume
    /// of exactly the ingredients in `nonzero_ingredients` and is stirred each way
    /// as the flags say.
    pub fn is_met(
        &self,
        nonzero_ingredients: &Vec<EntityId>,
        stirred_clockwise: bool,
        stirred_counter_clockwise: bool,
    ) -> (met: bool)
        ensures
            met == spec_req_met(
                *self,
                nonzero_ingredients@,
                stirred_clockwise,
                stirred_counter_clockwise,
            ),
            *self == Req::StirClockwise ==> met == stirred_clockwise,
            *self == Req::StirCounterClockwise ==> met == stirred_counter_clockwise,
            forall|i: EntityId|
                *self == Req::Present(i) ==> met == nonzero_ingredients@.contains(i),
    {
        match self {
            Req::Present(ingredient) => contains_entity(nonzero_ingredients, *ingredient),
            Req::StirClockwise => stirred_clockwise,
            Req::StirCounterClockwise => stirred_counter_clockwise,
        }
    }
}

/// Whether `entity` occurs in `entities`.
pub fn contains_entity(entities: &Vec<EntityId>, entity: EntityId) -> (found: bool)
    ensures
        found == entities@.contains(entity),
{
    let mut i: usize = 0;
    while i < entities.len()
        invariant
            i <= entities.len(),
            forall|j: int| 0 <= j < i ==> entities@[j] != entity,
        decreases entities.len() - i,
    {
        if entities[i] == entity {
            assert(entities@[i as int] == entity);
            return true;
        }
        i = i + 1;
    }
    false
}

/// Whether every requirement in `reqs` holds of a cauldron that holds a nonzero
/// volume of exactly the ingredients in `nonzero_ingredients` and is stirred each
/// way as the flags say.
pub fn reqs_met(
    reqs: &Vec<Req>,
    nonzero_ingredients: &Vec<EntityId>,
    stirred_clockwise: bool,
    stirred_counter_clockwise: bool,
) -> (met: bool)
    ensures
        met == spec_reqs_met(
            reqs@,
            nonzero_ingredients@,
            stirred_clockwise,
            stirred_counter_clockwise,
        ),
{
    let mut i: usize = 0;
    while i < reqs.len()
        invariant
            i <= reqs.len(),
            forall|j: int|
                0 <= j < i ==> #[trigger] spec_req_met(
                    reqs@[j],
                    nonzero_ingredients@,
                    stirred_clockwise,
                    stirred_counter_clockwise,
                ),
        decreases reqs.len() - i,
    {
        if !reqs[i].is_met(nonzero_ingredients, stirred_clockwise, stirred_counter_clockwise) {
            return false;
        }
        i = i + 1;
    }
    true
}

/// The requirements of `first` followed by those of `second` are met exactly
/// when those of `first` are met and those of `second` are met; in
/// particular, no requirements at all are always met.
pub proof fn law_reqs_met_concat(
    first: Seq<Req>,
    second: Seq<Req>,
    nonzero_ingredients: Seq<EntityId>,
    stirred_clockwise: bool,
    stirred_counter_clockwise: bool,
)
    ensures
        spec_reqs_met(first + second, nonzero_ingredients, stirred_clockwise, stirred_counter_clockwise)
            == (spec_reqs_met(first, nonzero_ingredients, stirred_clockwise, stirred_counter_clockwise)
            && spec_reqs_met(second, nonzero_ingredients, stirred_clockwise, stirred_counter_clockwise)),
        spec_reqs_met(Seq::empty(), nonzero_ingredients, stirred_clockwise, stirred_counter_clockwise),
{
    let whole = first + second;
    if spec_reqs_met(whole, nonzero_ingredients, stirred_clockwise, stirred_counter_clockwise) {
        assert forall|i: int| 0 <= i < first.len() implies #[trigger] spec_req_met(
            first[i],
            nonzero_ingredients,
            stirred_clockwise,
            stirred_counter_clockwise,
        ) by {
            assert(whole[i] == first[i]);
        }
        assert forall|i: int| 0 <= i < second.len() implies #[trigger] spec_req_met(
            second[i],
            nonzero_ingredients,
            stirred_clockwise,
            stirred_counter_clockwise,
        ) by {
            assert(whole[first.len() + i] == second[i]);
        }
    }
    if spec_reqs_met(first, nonzero_ingredients, stirred_clockwise, stirred_counter_clockwise)
        && spec_reqs_met(second, nonzero_ingredients, stirred_clockwise, stirred_counter_clockwise) {
        assert forall|i: int| 0 <= i < whole.len() implies #[trigger] spec_req_met(
            whole[i],
            nonzero_ingredients,
            stirred_clockwise,
            stirred_counter_clockwise,
        ) by {
            if i < first.len() {
                assert(whole[i] == first[i]);
            } else {
                assert(whole[i] == second[i - first.len()]);
            }
        }
    }
}

/// Something that happens to a cauldron; `V` is the type of a volume in liters.
#[derive(Debug)]
pub enum CauldronEvent<V> {
    /// The cauldron is brought to this temperature.
    AdjustTemperature(EntityId, Temperature),
    /// The cauldron is stirred clockwise.
    StirClockwise(EntityId),
    /// The cauldron is stirred counter-clockwise.
    StirCounterClockwise(EntityId),
    /// `liters` of `ingredient` are poured into the cauldron.
    Add { cauldron: EntityId, ingredient: EntityId, liters: V },
}

impl<V> CauldronEvent<V> {
    /// The cauldron that this event happens to.
    pub open spec fn cauldron(self) -> EntityId {
        match self {
            CauldronEvent::AdjustTemperature(e, _) => e,
            CauldronEvent::StirClockwise(e) => e,
            CauldronEvent::StirCounterClockwise(e) => e,
            CauldronEvent::Add { cauldron, .. } => cauldron,
        }
    }

    /// The cauldron that this event happens to.
    pub fn get_cauldron_entity(&self) -> (e: EntityId)
        ensures
            e == self.cauldron(),
    {
        match self {
            CauldronEvent::AdjustTemperature(e, _) => *e,
            CauldronEvent::StirClockwise(e) => *e,
            CauldronEvent::StirCounterClockwise(e) => *e,
            CauldronEvent::Add { cauldron, .. } => *cauldron,
        }
    }
}

/// Each requirement depends only on the one condition it names: `Present(i)`
/// holds exactly when `i` has a nonzero volume, whatever the stirs;
/// `StirClockwise` exactly when the cauldron is stirred clockwise, whatever the
/// counter-clockwise stir and the ingredients; `StirCounterClockwise` exactly
/// when it is stirred counter-clockwise, whatever the clockwise stir and the
/// ingredients.
pub proof fn law_req_met_by_its_own_condition(
    ingredient: EntityId,
    nonzero_ingredients: Seq<EntityId>,
    stirred_clockwise: bool,
    stirred_counter_clockwise: bool,
)
    ensures
        spec_req_met(
            Req::Present(ingredient),
            nonzero_ingredients,
            stirred_clockwise,
            stirred_counter_clockwise,
        ) == (exists|k: int|
            0 <= k < nonzero_ingredients.len() && nonzero_ingredients[k] == ingredient),
        spec_req_met(
            Req::StirClockwise,
            nonzero_ingredients,
            stirred_clockwise,
            stirred_counter_clockwise,
        ) == stirred_clockwise,
        spec_req_met(
            Req::StirCounterClockwise,
            nonzero_ingredients,
            stirred_clockwise,
            stirred_counter_clockwise,
        ) == stirred_counter_clockwise,
        forall|other: Seq<EntityId>, cw: bool, ccw: bool|
            spec_req_met(Req::StirClockwise, other, stirred_clockwise, ccw) == spec_req_met(
                Req::StirClockwise,
                nonzero_ingredients,
                stirred_clockwise,
                stirred_counter_clockwise,
            ) && spec_req_met(Req::StirCounterClockwise, other, cw, stirred_counter_clockwise)
                == spec_req_met(
                Req::StirCounterClockwise,
                nonzero_ingredients,
                stirred_clockwise,
                stirred_counter_clockwise,
            ),
{
}

/// A list of requirements is met exactly when each of them is met on its own
/// terms: every ingredient it requires present has a nonzero volume, it asks
/// for a clockwise stir only if the cauldron is stirred clockwise, and for a
/// counter-clockwise stir only if it is stirred counter-clockwise.
pub proof fn law_reqs_met_iff_each_condition(
    reqs: Seq<Req>,
    nonzero_ingredients: Seq<EntityId>,
    stirred_clockwise: bool,
    stirred_counter_clockwise: bool,
)
    ensures
        spec_reqs_met(reqs, nonzero_ingredients, stirred_clockwise, stirred_counter_clockwise) <==> (
        (forall|i: int, e: EntityId|
            0 <= i < reqs.len() && reqs[i] == Req::Present(e) ==> nonzero_ingredients.contains(e))
            && (reqs.contains(Req::StirClockwise) ==> stirred_clockwise) && (reqs.contains(
            Req::StirCounterClockwise,
        ) ==> stirred_counter_clockwise)),
{
    let direct = (forall|i: int, e: EntityId|
        0 <= i < reqs.len() && reqs[i] == Req::Present(e) ==> nonzero_ingredients.contains(e))
        && (reqs.contains(Req::StirClockwise) ==> stirred_clockwise) && (reqs.contains(
        Req::StirCounterClockwise,
    ) ==> stirred_counter_clockwise);
    if spec_reqs_met(reqs, nonzero_ingredients, stirred_clockwise, stirred_counter_clockwise) {
        assert forall|i: int, e: EntityId|
            0 <= i < reqs.len() && reqs[i] == Req::Present(e) implies nonzero_ingredients.contains(
            e,
        ) by {
            assert(spec_req_met(
                reqs[i],
                nonzero_ingredients,
                stirred_clockwise,
                stirred_counter_clockwise,
            ));
        }
        if reqs.contains(Req::StirClockwise) {
            let i = choose|i: int| 0 <= i < reqs.len() && reqs[i] == Req::StirClockwise;
            assert(spec_req_met(
                reqs[i],
                nonzero_ingredients,
                stirred_clockwise,
                stirred_counter_clockwise,
            ));
        }
        if reqs.contains(Req::StirCounterClockwise) {
            let i = choose|i: int| 0 <= i < reqs.len() && reqs[i] == Req::StirCounterClockwise;
            assert(spec_req_met(
                reqs[i],
                nonzero_ingredients,
                stirred_clockwise,
                stirred_counter_clockwise,
            ));
        }
    }
    if direct {
        assert forall|i: int| 0 <= i < reqs.len() implies #[trigger] spec_req_met(
            reqs[i],
            nonzero_ingredients,
            stirred_clockwise,
            stirred_counter_clockwise,
        ) by {
            match reqs[i] {
                Req::Present(e) => {},
                Req::StirClockwise => {
                    assert(reqs.contains(Req::StirClockwise));
                },
                Req::StirCounterClockwise => {
                    assert(reqs.contains(Req::StirCounterClockwise));
                },
            }
        }
    }
}

/// The cauldron of an event is the one it names: the first field of a
/// temperature adjustment or a stir, and the `cauldron` field of an addition.
pub proof fn law_event_cauldron<V>(
    cauldron: EntityId,
    ingredient: EntityId,
    liters: V,
    t: Temperature,
)
    ensures
        CauldronEvent::<V>::AdjustTemperature(cauldron, t).cauldron() == cauldron,
        CauldronEvent::<V>::StirClockwise(cauldron).cauldron() == cauldron,
        CauldronEvent::<V>::StirCounterClockwise(cauldron).cauldron() == cauldron,
        (CauldronEvent::Add { cauldron, ingredient, liters }).cauldron() == cauldron,
{
}

} // verus!
