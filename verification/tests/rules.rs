use khaldron::alchemy::cauldron::{contains_entity, reqs_met, Req};
use khaldron::alchemy::relevant_rules;
use khaldron::alchemy::rule::AlchemyRule;
use khaldron::chemistry::rule::{ChemistryRule, ChemistryRuleReqs};
use khaldron::chemistry::rule_may_apply;
use khaldron::{CauldronAction, CauldronEffect, CauldronEvent, StirClockwiseCauldronAction, Temperature};
use std::collections::{HashMap, HashSet};

#[test]
fn req_present_needs_nonzero_ingredient() {
    let nonzero = vec![3, 4];
    assert!(Req::Present(3).is_met(&nonzero, false, false));
    assert!(!Req::Present(5).is_met(&nonzero, true, true));
    assert!(!Req::Present(3).is_met(&vec![], true, true));
}

#[test]
fn req_stirs_follow_flags() {
    let none: Vec<u64> = vec![];
    assert!(Req::StirClockwise.is_met(&none, true, false));
    assert!(!Req::StirClockwise.is_met(&none, false, true));
    assert!(Req::StirCounterClockwise.is_met(&none, false, true));
    assert!(!Req::StirCounterClockwise.is_met(&none, true, false));
}

#[test]
fn reqs_met_needs_all() {
    let nonzero = vec![1];
    assert!(reqs_met(&vec![], &nonzero, false, false));
    assert!(reqs_met(&vec![Req::Present(1), Req::StirClockwise], &nonzero, true, false));
    assert!(!reqs_met(&vec![Req::Present(1), Req::StirClockwise], &nonzero, false, false));
    assert!(!reqs_met(&vec![Req::Present(2), Req::StirClockwise], &nonzero, true, false));
}

#[test]
fn reqs_met_of_concatenation() {
    let nonzero = vec![1, 2];
    let first = vec![Req::Present(1)];
    let second = vec![Req::StirCounterClockwise, Req::Present(2)];
    let both = vec![Req::Present(1), Req::StirCounterClockwise, Req::Present(2)];
    for (cw, ccw) in [(false, false), (true, false), (false, true), (true, true)] {
        assert_eq!(
            reqs_met(&both, &nonzero, cw, ccw),
            reqs_met(&first, &nonzero, cw, ccw) && reqs_met(&second, &nonzero, cw, ccw)
        );
    }
}

#[test]
fn contains_entity_finds_members() {
    assert!(contains_entity(&vec![4, 5, 6], 6));
    assert!(!contains_entity(&vec![4, 5, 6], 7));
    assert!(!contains_entity(&vec![], 0));
}

#[test]
fn default_rule_is_empty() {
    let rule: AlchemyRule<Req, f32> = AlchemyRule::default();
    assert!(rule.reqs.is_empty());
    assert!(rule.consumes.is_empty());
    assert!(rule.produces.is_empty());
}

#[test]
fn rule_needs_consumed_ingredients_and_reqs() {
    // Stir CCW + Eye of Newt (1) + Pepper (2) = Newt Pepper (3)
    let rule = AlchemyRule {
        reqs: vec![Req::StirCounterClockwise],
        consumes: vec![(1u64, 1.0f32), (2, 1.0)],
        produces: vec![(3u64, 2.0f32)],
    };
    assert!(rule.consumed_ingredients_present(&vec![2, 1, 7]));
    assert!(!rule.consumed_ingredients_present(&vec![2, 7]));
    assert!(rule.reqs_satisfied(&vec![1, 2], &vec![1, 2], false, true));
    assert!(!rule.reqs_satisfied(&vec![1, 2], &vec![1, 2], true, false));
    assert!(!rule.reqs_satisfied(&vec![1], &vec![1], false, true));
}

#[test]
fn rule_without_reqs_needs_only_ingredients() {
    // Dried Dryness (5) + Water (6) = Nothing
    let rule: AlchemyRule<Req, f32> = AlchemyRule {
        reqs: vec![],
        consumes: vec![(5, 0.05), (6, 1.0)],
        produces: vec![],
    };
    assert!(rule.reqs_satisfied(&vec![5, 6], &vec![], false, false));
    assert!(!rule.reqs_satisfied(&vec![6], &vec![6], true, true));
}

#[test]
fn chemistry_rule_may_apply() {
    let reqs = ChemistryRuleReqs(vec![Req::Present(9)]);
    assert!(rule_may_apply(None, &vec![], false, false));
    assert!(rule_may_apply(Some(&reqs), &vec![9], false, false));
    assert!(!rule_may_apply(Some(&reqs), &vec![8], true, true));
    assert!(reqs.are_met(&vec![9], false, false));
    let mix: ChemistryRule<f32> = ChemistryRule::Mix { consumes: vec![(1, 1.0)], produces: vec![] };
    match mix {
        ChemistryRule::Mix { consumes, produces } => {
            assert_eq!(consumes.len(), 1);
            assert!(produces.is_empty());
        }
    }
}

fn triggers() -> HashMap<u64, Vec<u64>> {
    let mut t = HashMap::new();
    // pepper and eye of newt trigger rules 101 and 102
    t.insert(1, vec![101, 102]);
    t.insert(2, vec![101, 102]);
    // newt pepper and a rock trigger rule 103
    t.insert(3, vec![103]);
    t.insert(4, vec![103]);
    t
}

#[test]
fn relevant_rules_of_ingredients() {
    let t = triggers();
    assert_eq!(relevant_rules(&vec![], &t), HashSet::new());
    assert_eq!(relevant_rules(&vec![1], &t), HashSet::from([101, 102]));
    assert_eq!(relevant_rules(&vec![1, 2], &t), HashSet::from([101, 102]));
    assert_eq!(relevant_rules(&vec![2, 4, 99], &t), HashSet::from([101, 102, 103]));
    assert_eq!(relevant_rules(&vec![99], &t), HashSet::new());
}

#[test]
fn relevant_rules_ignore_order_and_repeats() {
    let t = triggers();
    assert_eq!(relevant_rules(&vec![4, 1, 4], &t), relevant_rules(&vec![1, 4], &t));
}

#[test]
fn stir_clockwise_action() {
    assert!(StirClockwiseCauldronAction::applicable_event(&CauldronEvent::<f32>::StirClockwise(1)));
    assert!(!StirClockwiseCauldronAction::applicable_event(
        &CauldronEvent::<f32>::StirCounterClockwise(1)
    ));
    assert!(!StirClockwiseCauldronAction::applicable_event(&CauldronEvent::Add {
        cauldron: 1,
        ingredient: 2,
        liters: 1.0f32
    }));
    let effects: Vec<CauldronEffect<f32>> = StirClockwiseCauldronAction.apply(&());
    assert_eq!(effects.len(), 1);
    match &effects[0] {
        CauldronEffect::RaiseHeatBy(t) => assert_eq!(*t, Temperature::from_kelvin(10)),
        _ => panic!("expected a raise of heat"),
    }
}

#[test]
fn evaporation_rule_needs_a_rock() {
    // Newt Pepper (3) with A Rock (4) evaporates
    let rule: AlchemyRule<Req, f32> = AlchemyRule {
        reqs: vec![Req::Present(4)],
        consumes: vec![(3, 0.03)],
        produces: vec![],
    };
    assert!(rule.reqs_satisfied(&vec![3, 4], &vec![3, 4], false, false));
    // A rock held at zero volume does not count as present.
    assert!(!rule.reqs_satisfied(&vec![3, 4], &vec![3], false, false));
    assert!(!rule.reqs_satisfied(&vec![4], &vec![4], false, false));
}

#[test]
fn more_pepper_rule_needs_clockwise_stir() {
    // Stir CW + Eye of Newt (1) + Pepper (2) = More Pepper
    let rule = AlchemyRule {
        reqs: vec![Req::StirClockwise],
        consumes: vec![(1u64, 1.0f32), (2, 1.0)],
        produces: vec![(2u64, 1.5f32)],
    };
    assert!(rule.reqs_satisfied(&vec![1, 2], &vec![], true, false));
    assert!(!rule.reqs_satisfied(&vec![1, 2], &vec![], false, true));
}
