pub mod cauldron;
pub mod rule;
pub mod standard_units;

pub use cauldron::{CauldronEvent, Req as CauldronReq};

use crate::entity_map::EntityId;
use standard_units::Temperature;
use std::collections::{HashMap, HashSet};
use vstd::prelude::*;

verus! {

/// An ingredient, identified by a number.
#[derive(Clone, Copy, Debug, PartialEq, Eq, Structural)]
pub struct IngredientId(pub usize);

/// What the events of one batch do to one cauldron, apart from the volume
/// arithmetic: the temperature it is left at (if any event sets one), how many
/// times it is stirred each way, and, in order, the positions in the batch of
/// the events that pour an ingredient into it.
#[derive(Debug)]
pub struct CauldronUpdates {
    pub temperature: Option<Temperature>,
    pub clockwise_stirs: usize,
    pub counter_clockwise_stirs: usize,
    pub additions: Vec<usize>,
}

/// The temperature that the last event of `events` that sets the temperature
/// of `cauldron` sets, if there is one.
pub open spec fn spec_last_temperature<V>(
    cauldron: EntityId,
    events: Seq<CauldronEvent<V>>,
) -> Option<Temperature>
    decreases events.len(),
{
    if events.len() == 0 {
        None
    } else {
        match events.last() {
            CauldronEvent::AdjustTemperature(c, t) => if c == cauldron {
                Some(t)
            } else {
                spec_last_temperature(cauldron, events.drop_last())
            },
            _ => spec_last_temperature(cauldron, events.drop_last()),
        }
    }
}

/// How many events of `events` stir `cauldron` clockwise (`clockwise`) or
/// counter-clockwise (`!clockwise`).
pub open spec fn spec_stirs<V>(
    cauldron: EntityId,
    events: Seq<CauldronEvent<V>>,
    clockwise: bool,
) -> nat
    decreases events.len(),
{
    if events.len() == 0 {
        0
    } else {
        let counted: nat = match events.last() {
            CauldronEvent::StirClockwise(c) => if clockwise && c == cauldron {
                1
            } else {
                0
            },
            CauldronEvent::StirCounterClockwise(c) => if !clockwise && c == cauldron {
                1
            } else {
                0
            },
            _ => 0,
        };
        spec_stirs(cauldron, events.drop_last(), clockwise) + counted
    }
}

/// The positions, in increasing order, of the events of `events` that pour an
/// ingredient into `cauldron`.
pub open spec fn spec_additions<V>(cauldron: EntityId, events: Seq<CauldronEvent<V>>) -> Seq<int>
    decreases events.len(),
{
    if events.len() == 0 {
        Seq::empty()
    } else {
        let before = spec_additions(cauldron, events.drop_last());
        match events.last() {
            CauldronEvent::Add { cauldron: c, .. } => if c == cauldron {
                before.push(events.len() - 1)
            } else {
                before
            },
            _ => before,
        }
    }
}

proof fn lemma_stirs_bounded<V>(cauldron: EntityId, events: Seq<CauldronEvent<V>>, clockwise: bool)
    ensures
        spec_stirs(cauldron, events, clockwise) <= events.len(),
    decreases events.len(),
{
    if events.len() > 0 {
        lemma_stirs_bounded(cauldron, events.drop_last(), clockwise);
    }
}

/// What the events `events` do to the cauldron `cauldron`: the temperature set
/// by the last of them that sets one, the numbers of clockwise and
/// counter-clockwise stirs, and the positions of the additions, in order.
/// Events for other cauldrons are passed over.
pub fn cauldron_updates<V>(cauldron: EntityId, events: &Vec<CauldronEvent<V>>) -> (updates:
    CauldronUpdates)
    ensures
        updates.temperature == spec_last_temperature(cauldron, events@),
        updates.clockwise_stirs == spec_stirs(cauldron, events@, true),
        updates.counter_clockwise_stirs == spec_stirs(cauldron, events@, false),
        updates.additions@.map_values(|i: usize| i as int) == spec_additions(cauldron, events@),
        updates.temperature is None <==> (forall|k: int|
            0 <= k < events@.len() ==> !sets_temperature_of(#[trigger] events@[k], cauldron)),
        forall|k: int, t: Temperature|
            0 <= k < events@.len() && events@[k] == CauldronEvent::<V>::AdjustTemperature(
                cauldron,
                t,
            ) && (forall|j: int|
                k < j < events@.len() ==> !sets_temperature_of(#[trigger] events@[j], cauldron))
                ==> updates.temperature == Some(t),
{
    let mut temperature: Option<Temperature> = None;
    let mut clockwise_stirs: usize = 0;
    let mut counter_clockwise_stirs: usize = 0;
    let mut additions: Vec<usize> = Vec::new();
    let mut i: usize = 0;
    while i < events.len()
        invariant
            i <= events.len(),
            temperature == spec_last_temperature(cauldron, events@.take(i as int)),
            clockwise_stirs == spec_stirs(cauldron, events@.take(i as int), true),
            counter_clockwise_stirs == spec_stirs(cauldron, events@.take(i as int), false),
            additions@.map_values(|j: usize| j as int) == spec_additions(
                cauldron,
                events@.take(i as int),
            ),
        decreases events.len() - i,
    {
        let ghost before = events@.take(i as int);
        let ghost after = events@.take(i + 1);
        assert(after.drop_last() =~= before);
        assert(after.last() == events@[i as int]);
        proof {
            lemma_stirs_bounded(cauldron, before, true);
            lemma_stirs_bounded(cauldron, before, false);
        }
        let event = &events[i];
        if event.get_cauldron_entity() == cauldron {
            match event {
                CauldronEvent::AdjustTemperature(_, t) => {
                    temperature = Some(*t);
                },
                CauldronEvent::StirClockwise(_) => {
                    clockwise_stirs = clockwise_stirs + 1;
                },
                CauldronEvent::StirCounterClockwise(_) => {
                    counter_clockwise_stirs = counter_clockwise_stirs + 1;
                },
                CauldronEvent::Add { .. } => {
                    let ghost old_additions = additions@;
                    additions.push(i);
                    assert(additions@.map_values(|j: usize| j as int) =~= old_additions.map_values(
                        |j: usize| j as int,
                    ).push(i as int));
                },
            }
        }
        i = i + 1;
    }
    assert(events@.take(events@.len() as int) =~= events@);
    proof {
        law_last_temperature_wins(cauldron, events@);
    }
    CauldronUpdates { temperature, clockwise_stirs, counter_clockwise_stirs, additions }
}

/// The rules that some ingredient of `ingredients` triggers, where `triggers`
/// holds, for each ingredient that triggers rules, the rules it triggers.
pub open spec fn spec_relevant_rules(
    ingredients: Seq<EntityId>,
    triggers: Map<EntityId, Vec<EntityId>>,
) -> Set<EntityId> {
    Set::new(
        |rule: EntityId|
            exists|i: int|
                0 <= i < ingredients.len() && #[trigger] triggers.contains_key(ingredients[i])
                    && triggers[ingredients[i]]@.contains(rule),
    )
}

/// The set of rules that the ingredients `ingredients` of a tool trigger:
/// each rule that `triggers` lists for one of them. Ingredients that
/// `triggers` has no entry for trigger nothing.
pub fn relevant_rules(
    ingredients: &Vec<EntityId>,
    triggers: &HashMap<EntityId, Vec<EntityId>>,
) -> (rules: HashSet<EntityId>)
    ensures
        rules@ == spec_relevant_rules(ingredients@, triggers@),
{
    let mut rules: HashSet<EntityId> = HashSet::new();
    let mut i: usize = 0;
    while i < ingredients.len()
        invariant
            i <= ingredients.len(),
            rules@ == spec_relevant_rules(ingredients@.take(i as int), triggers@),
        decreases ingredients.len() - i,
    {
        let ghost before = rules@;
        let ingredient = ingredients[i];
        match triggers.get(&ingredient) {
            Some(listed) => {
                let mut j: usize = 0;
                while j < listed.len()
                    invariant
                        j <= listed.len(),
                        triggers@.contains_key(ingredient),
                        triggers@[ingredient] == *listed,
                        rules@ == before.union(listed@.take(j as int).to_set()),
                    decreases listed.len() - j,
                {
                    rules.insert(listed[j]);
                    assert(listed@.take(j + 1) =~= listed@.take(j as int).push(listed@[j as int]));
                    assert(listed@.take(j + 1).to_set() =~= listed@.take(j as int).to_set().insert(
                        listed@[j as int],
                    )) by {
                        broadcast use vstd::seq_lib::group_seq_properties;
                    }
                    assert(rules@ =~= before.union(listed@.take(j + 1).to_set()));
                    j = j + 1;
                }
                assert(listed@.take(listed@.len() as int) =~= listed@);
                assert(rules@ =~= spec_relevant_rules(ingredients@.take(i + 1), triggers@)) by {
                    let prefix = ingredients@.take(i as int);
                    let next = ingredients@.take(i + 1);
                    assert forall|rule: EntityId| rules@.contains(rule) implies spec_relevant_rules(
                        next,
                        triggers@,
                    ).contains(rule) by {
                        if before.contains(rule) {
                            let k = choose|k: int|
                                0 <= k < prefix.len() && #[trigger] triggers@.contains_key(
                                    prefix[k],
                                ) && triggers@[prefix[k]]@.contains(rule);
                            assert(next[k] == prefix[k]);
                        } else {
                            assert(listed@.to_set().contains(rule));
                            assert(next[i as int] == ingredient);
                        }
                    }
                    assert forall|rule: EntityId|
                        spec_relevant_rules(next, triggers@).contains(rule) implies rules@.contains(
                        rule,
                    ) by {
                        let k = choose|k: int|
                            0 <= k < next.len() && #[trigger] triggers@.contains_key(next[k])
                                && triggers@[next[k]]@.contains(rule);
                        if k < i {
                            assert(prefix[k] == next[k]);
                            assert(before.contains(rule));
                        } else {
                            assert(listed@.to_set().contains(rule));
                        }
                    }
                }
            },
            None => {
                assert(rules@ =~= spec_relevant_rules(ingredients@.take(i + 1), triggers@)) by {
                    let prefix = ingredients@.take(i as int);
                    let next = ingredients@.take(i + 1);
                    assert forall|rule: EntityId| rules@.contains(rule) implies spec_relevant_rules(
                        next,
                        triggers@,
                    ).contains(rule) by {
                        let k = choose|k: int|
                            0 <= k < prefix.len() && #[trigger] triggers@.contains_key(prefix[k])
                                && triggers@[prefix[k]]@.contains(rule);
                        assert(next[k] == prefix[k]);
                    }
                    assert forall|rule: EntityId|
                        spec_relevant_rules(next, triggers@).contains(rule) implies rules@.contains(
                        rule,
                    ) by {
                        let k = choose|k: int|
                            0 <= k < next.len() && #[trigger] triggers@.contains_key(next[k])
                                && triggers@[next[k]]@.contains(rule);
                        assert(k < i);
                        assert(prefix[k] == next[k]);
                    }
                }
            },
        }
        i = i + 1;
    }
    assert(ingredients@.take(ingredients@.len() as int) =~= ingredients@);
    rules
}

/// Handling the events of one batch as two batches, `first` and then
/// `second`, gives the same updates to a cauldron as handling them at once:
/// the temperature is the one the second batch sets, or else the one the
/// first sets; the stirs add up; the additions are those of the first batch
/// followed by those of the second, whose positions are shifted past the first.
pub proof fn law_updates_split_into_batches<V>(
    cauldron: EntityId,
    first: Seq<CauldronEvent<V>>,
    second: Seq<CauldronEvent<V>>,
)
    ensures
        spec_last_temperature(cauldron, first + second) == match spec_last_temperature(
            cauldron,
            second,
        ) {
            Some(t) => Some(t),
            None => spec_last_temperature(cauldron, first),
        },
        spec_stirs(cauldron, first + second, true) == spec_stirs(cauldron, first, true)
            + spec_stirs(cauldron, second, true),
        spec_stirs(cauldron, first + second, false) == spec_stirs(cauldron, first, false)
            + spec_stirs(cauldron, second, false),
        spec_additions(cauldron, first + second) == spec_additions(cauldron, first)
            + spec_additions(cauldron, second).map_values(|i: int| i + first.len()),
    decreases second.len(),
{
    if second.len() == 0 {
        assert(first + second =~= first);
        assert(spec_additions(cauldron, second).map_values(|i: int| i + first.len()) =~= Seq::<
            int,
        >::empty());
        assert(spec_additions(cauldron, first) + Seq::<int>::empty() =~= spec_additions(
            cauldron,
            first,
        ));
    } else {
        let whole = first + second;
        assert(whole.drop_last() =~= first + second.drop_last());
        assert(whole.last() == second.last());
        law_updates_split_into_batches(cauldron, first, second.drop_last());
        let shifted_before = spec_additions(cauldron, second.drop_last()).map_values(
            |i: int| i + first.len(),
        );
        match second.last() {
            CauldronEvent::Add { cauldron: c, .. } => {
                if c == cauldron {
                    assert(spec_additions(cauldron, second).map_values(|i: int| i + first.len())
                        =~= shifted_before.push(second.len() - 1 + first.len()));
                    assert(spec_additions(cauldron, first) + shifted_before.push(
                        second.len() - 1 + first.len(),
                    ) =~= (spec_additions(cauldron, first) + shifted_before).push(
                        whole.len() - 1,
                    ));
                }
            },
            _ => {},
        }
    }
}

/// The rules that a tool's ingredients trigger depend only on which
/// ingredients it holds, not on the order in which they are listed nor on
/// repetitions.
pub proof fn law_relevant_rules_depend_on_ingredient_set(
    ingredients: Seq<EntityId>,
    others: Seq<EntityId>,
    triggers: Map<EntityId, Vec<EntityId>>,
)
    requires
        ingredients.to_set() == others.to_set(),
    ensures
        spec_relevant_rules(ingredients, triggers) == spec_relevant_rules(others, triggers),
{
    assert forall|rule: EntityId|
        spec_relevant_rules(ingredients, triggers).contains(rule) implies spec_relevant_rules(
        others,
        triggers,
    ).contains(rule) by {
        let k = choose|k: int|
            0 <= k < ingredients.len() && #[trigger] triggers.contains_key(ingredients[k])
                && triggers[ingredients[k]]@.contains(rule);
        assert(ingredients.to_set().contains(ingredients[k]));
        assert(others.to_set().contains(ingredients[k]));
        let m = choose|m: int| 0 <= m < others.len() && others[m] == ingredients[k];
        assert(triggers.contains_key(others[m]));
    }
    assert forall|rule: EntityId|
        spec_relevant_rules(others, triggers).contains(rule) implies spec_relevant_rules(
        ingredients,
        triggers,
    ).contains(rule) by {
        let k = choose|k: int|
            0 <= k < others.len() && #[trigger] triggers.contains_key(others[k])
                && triggers[others[k]]@.contains(rule);
        assert(others.to_set().contains(others[k]));
        assert(ingredients.to_set().contains(others[k]));
        let m = choose|m: int| 0 <= m < ingredients.len() && ingredients[m] == others[k];
        assert(triggers.contains_key(ingredients[m]));
    }
    assert(spec_relevant_rules(ingredients, triggers) =~= spec_relevant_rules(others, triggers));
}

/// Whether `event` sets the temperature of `cauldron`.
pub open spec fn sets_temperature_of<V>(event: CauldronEvent<V>, cauldron: EntityId) -> bool {
    event matches CauldronEvent::AdjustTemperature(c, _) && c == cauldron
}

/// The temperature a batch leaves a cauldron at is the one set by the last
/// event of the batch that sets the temperature of that cauldron, whatever
/// the temperature, and there is none exactly when no event of the batch sets
/// it.
pub proof fn law_last_temperature_wins<V>(cauldron: EntityId, events: Seq<CauldronEvent<V>>)
    ensures
        spec_last_temperature(cauldron, events) is None <==> (forall|k: int|
            0 <= k < events.len() ==> !sets_temperature_of(#[trigger] events[k], cauldron)),
        forall|k: int, t: Temperature|
            0 <= k < events.len() && events[k] == CauldronEvent::<V>::AdjustTemperature(
                cauldron,
                t,
            ) && (forall|j: int|
                k < j < events.len() ==> !sets_temperature_of(#[trigger] events[j], cauldron))
                ==> spec_last_temperature(cauldron, events) == Some(t),
    decreases events.len(),
{
    if events.len() > 0 {
        let before = events.drop_last();
        law_last_temperature_wins(cauldron, before);
        let n = events.len() - 1;
        assert forall|k: int| 0 <= k < before.len() implies before[k] == events[k] by {}
        if sets_temperature_of(events[n], cauldron) {
            assert(spec_last_temperature(cauldron, events) is Some);
        } else {
            assert(spec_last_temperature(cauldron, events) == spec_last_temperature(
                cauldron,
                before,
            ));
            assert((forall|k: int|
                0 <= k < events.len() ==> !sets_temperature_of(#[trigger] events[k], cauldron))
                <==> (forall|k: int|
                0 <= k < before.len() ==> !sets_temperature_of(#[trigger] before[k], cauldron)))
                by {
                if forall|k: int|
                    0 <= k < before.len() ==> !sets_temperature_of(#[trigger] before[k], cauldron) {
                    assert forall|k: int|
                        0 <= k < events.len() implies !sets_temperature_of(
                        #[trigger] events[k],
                        cauldron,
                    ) by {
                        if k < n {
                            assert(events[k] == before[k]);
                        }
                    }
                }
            }
        }
        assert forall|k: int, t: Temperature|
            0 <= k < events.len() && events[k] == CauldronEvent::<V>::AdjustTemperature(
                cauldron,
                t,
            ) && (forall|j: int|
                k < j < events.len() ==> !sets_temperature_of(
                    #[trigger] events[j],
                    cauldron,
                )) implies spec_last_temperature(cauldron, events) == Some(t) by {
            if k == n {
            } else {
                assert(!sets_temperature_of(events[n], cauldron));
                assert(before[k] == events[k]);
                assert forall|j: int| k < j < before.len() implies !sets_temperature_of(
                    #[trigger] before[j],
                    cauldron,
                ) by {
                    assert(before[j] == events[j]);
                }
            }
        }
    }
}

/// A batch of no events leaves a cauldron alone; adding one more event to a
/// batch adds one to the clockwise stirs exactly when it stirs that cauldron
/// clockwise, one to the counter-clockwise stirs exactly when it stirs it
/// counter-clockwise, and its position to the additions exactly when it pours
/// an ingredient into it.
pub proof fn law_updates_count_each_event<V>(
    cauldron: EntityId,
    events: Seq<CauldronEvent<V>>,
    event: CauldronEvent<V>,
)
    ensures
        spec_last_temperature(cauldron, Seq::<CauldronEvent<V>>::empty()) is None,
        spec_stirs(cauldron, Seq::<CauldronEvent<V>>::empty(), true) == 0,
        spec_stirs(cauldron, Seq::<CauldronEvent<V>>::empty(), false) == 0,
        spec_additions(cauldron, Seq::<CauldronEvent<V>>::empty()).len() == 0,
        spec_stirs(cauldron, events.push(event), true) == spec_stirs(cauldron, events, true) + (
        if event matches CauldronEvent::StirClockwise(c) && c == cauldron {
            1int
        } else {
            0int
        }),
        spec_stirs(cauldron, events.push(event), false) == spec_stirs(cauldron, events, false) + (
        if event matches CauldronEvent::StirCounterClockwise(c) && c == cauldron {
            1int
        } else {
            0int
        }),
        spec_additions(cauldron, events.push(event)) == (if event matches CauldronEvent::Add {
            cauldron: c,
            ..
        } && c == cauldron {
            spec_additions(cauldron, events).push(events.len() as int)
        } else {
            spec_additions(cauldron, events)
        }),
{
    assert(events.push(event).drop_last() =~= events);
}

/// The additions of a batch to a cauldron are exactly the positions of the
/// events that pour an ingredient into that cauldron, in increasing order.
pub proof fn law_additions_are_the_pours<V>(cauldron: EntityId, events: Seq<CauldronEvent<V>>)
    ensures
        forall|k: int|
            spec_additions(cauldron, events).contains(k) <==> (0 <= k < events.len() && (
            events[k] matches CauldronEvent::Add { cauldron: c, .. } && c == cauldron)),
        forall|a: int, b: int|
            0 <= a < b < spec_additions(cauldron, events).len() ==> spec_additions(
                cauldron,
                events,
            )[a] < spec_additions(cauldron, events)[b],
    decreases events.len(),
{
    if events.len() > 0 {
        let before = events.drop_last();
        law_additions_are_the_pours(cauldron, before);
        let n = events.len() - 1;
        let prev = spec_additions(cauldron, before);
        assert forall|k: int| 0 <= k < before.len() implies before[k] == events[k] by {}
        assert forall|i: int| 0 <= i < prev.len() implies prev[i] < n by {
            assert(prev.contains(prev[i]));
        }
        assert forall|k: int|
            spec_additions(cauldron, events).contains(k) <==> (0 <= k < events.len() && (
            events[k] matches CauldronEvent::Add { cauldron: c, .. } && c == cauldron)) by {
            if spec_additions(cauldron, events).contains(k) {
                let i = choose|i: int|
                    0 <= i < spec_additions(cauldron, events).len() && spec_additions(
                        cauldron,
                        events,
                    )[i] == k;
                if i < prev.len() {
                    assert(prev[i] == k);
                    assert(prev.contains(k));
                }
            }
            if 0 <= k < events.len() && (events[k] matches CauldronEvent::Add { cauldron: c, .. }
                && c == cauldron) {
                if k < n {
                    assert(before[k] == events[k]);
                    assert(prev.contains(k));
                    let i = choose|i: int| 0 <= i < prev.len() && prev[i] == k;
                    assert(spec_additions(cauldron, events)[i] == k);
                } else {
                    assert(spec_additions(cauldron, events)[prev.len() as int] == k);
                }
            }
        }
    }
}

/// A rule is relevant to a tool exactly when some ingredient the tool holds
/// has a trigger that lists it; ingredients without a trigger add no rules,
/// and every rule listed by a held ingredient's trigger is relevant.
pub proof fn law_relevant_rules_membership(
    ingredients: Seq<EntityId>,
    triggers: Map<EntityId, Vec<EntityId>>,
    rule: EntityId,
)
    ensures
        spec_relevant_rules(ingredients, triggers).contains(rule) <==> (exists|i: int, j: int|
            0 <= i < ingredients.len() && triggers.contains_key(ingredients[i]) && 0 <= j
                < triggers[ingredients[i]]@.len() && triggers[ingredients[i]]@[j] == rule),
        forall|i: int|
            0 <= i < ingredients.len() && triggers.contains_key(#[trigger] ingredients[i])
                && triggers[ingredients[i]]@.contains(rule) ==> spec_relevant_rules(
                ingredients,
                triggers,
            ).contains(rule),
        (forall|i: int| 0 <= i < ingredients.len() ==> !triggers.contains_key(ingredients[i]))
            ==> !spec_relevant_rules(ingredients, triggers).contains(rule),
{
    if spec_relevant_rules(ingredients, triggers).contains(rule) {
        let i = choose|i: int|
            0 <= i < ingredients.len() && #[trigger] triggers.contains_key(ingredients[i])
                && triggers[ingredients[i]]@.contains(rule);
        let j = choose|j: int|
            0 <= j < triggers[ingredients[i]]@.len() && triggers[ingredients[i]]@[j] == rule;
    }
    if exists|i: int, j: int|
        0 <= i < ingredients.len() && triggers.contains_key(ingredients[i]) && 0 <= j
            < triggers[ingredients[i]]@.len() && triggers[ingredients[i]]@[j] == rule {
        let (i, j) = choose|i: int, j: int|
            0 <= i < ingredients.len() && triggers.contains_key(ingredients[i]) && 0 <= j
                < triggers[ingredients[i]]@.len() && triggers[ingredients[i]]@[j] == rule;
        assert(triggers[ingredients[i]]@.contains(rule));
    }
}

} // verus!
