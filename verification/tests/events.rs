use khaldron::alchemy::cauldron::CauldronEvent;
use khaldron::alchemy::cauldron_updates;
use khaldron::alchemy::standard_units::Temperature;

fn add(cauldron: u64, ingredient: u64, liters: f32) -> CauldronEvent<f32> {
    CauldronEvent::Add { cauldron, ingredient, liters }
}

#[test]
fn get_cauldron_entity_of_each_variant() {
    assert_eq!(
        CauldronEvent::<f32>::AdjustTemperature(7, Temperature::boiling()).get_cauldron_entity(),
        7
    );
    assert_eq!(CauldronEvent::<f32>::StirClockwise(8).get_cauldron_entity(), 8);
    assert_eq!(CauldronEvent::<f32>::StirCounterClockwise(9).get_cauldron_entity(), 9);
    assert_eq!(add(10, 11, 1.0).get_cauldron_entity(), 10);
}

#[test]
fn updates_of_no_events() {
    let events: Vec<CauldronEvent<f32>> = vec![];
    let updates = cauldron_updates(1, &events);
    assert_eq!(updates.temperature, None);
    assert_eq!(updates.clockwise_stirs, 0);
    assert_eq!(updates.counter_clockwise_stirs, 0);
    assert!(updates.additions.is_empty());
}

#[test]
fn updates_pick_this_cauldron() {
    let events = vec![
        CauldronEvent::AdjustTemperature(1, Temperature::freezing()),
        CauldronEvent::StirClockwise(1),
        add(2, 5, 1.0),
        CauldronEvent::StirClockwise(2),
        add(1, 6, 2.5),
        CauldronEvent::AdjustTemperature(1, Temperature::boiling()),
        CauldronEvent::AdjustTemperature(2, Temperature::absolute_zero()),
        CauldronEvent::StirCounterClockwise(1),
        CauldronEvent::StirClockwise(1),
        add(1, 5, 0.5),
    ];
    let updates = cauldron_updates(1, &events);
    assert_eq!(updates.temperature, Some(Temperature::boiling()));
    assert_eq!(updates.clockwise_stirs, 2);
    assert_eq!(updates.counter_clockwise_stirs, 1);
    assert_eq!(updates.additions, vec![4, 9]);

    let other = cauldron_updates(2, &events);
    assert_eq!(other.temperature, Some(Temperature::absolute_zero()));
    assert_eq!(other.clockwise_stirs, 1);
    assert_eq!(other.counter_clockwise_stirs, 0);
    assert_eq!(other.additions, vec![2]);

    let none = cauldron_updates(3, &events);
    assert_eq!(none.temperature, None);
    assert_eq!(none.clockwise_stirs, 0);
    assert!(none.additions.is_empty());
}

#[test]
fn updates_split_into_batches() {
    let first = vec![
        CauldronEvent::AdjustTemperature(1, Temperature::freezing()),
        CauldronEvent::StirClockwise(1),
        add(1, 4, 1.0),
    ];
    let second = vec![CauldronEvent::StirClockwise(1), add(1, 5, 2.0), add(3, 5, 2.0)];
    let mut whole = vec![
        CauldronEvent::AdjustTemperature(1, Temperature::freezing()),
        CauldronEvent::StirClockwise(1),
        add(1, 4, 1.0),
    ];
    whole.extend(vec![CauldronEvent::StirClockwise(1), add(1, 5, 2.0), add(3, 5, 2.0)]);
    let a = cauldron_updates(1, &first);
    let b = cauldron_updates(1, &second);
    let w = cauldron_updates(1, &whole);
    // The second batch sets no temperature, so the first batch's stands.
    assert_eq!(b.temperature, None);
    assert_eq!(w.temperature, a.temperature);
    assert_eq!(w.clockwise_stirs, a.clockwise_stirs + b.clockwise_stirs);
    let mut additions = a.additions.clone();
    additions.extend(b.additions.iter().map(|i| i + first.len()));
    assert_eq!(w.additions, additions);
}
