use khaldron::alchemy::standard_units::Temperature;

#[test]
fn named_temperatures_in_kelvin() {
    assert_eq!(Temperature::absolute_zero().kelvin(), 0);
    assert_eq!(Temperature::freezing().kelvin(), 273);
    assert_eq!(Temperature::room_temperature().kelvin(), 293);
    assert_eq!(Temperature::boiling().kelvin(), 373);
}

#[test]
fn default_is_room_temperature() {
    assert_eq!(Temperature::default(), Temperature::room_temperature());
    assert_eq!(Temperature::default().kelvin(), 293);
}

#[test]
fn kelvin_round_trip() {
    for k in [0u16, 1, 273, 293, 373, 32767, 40000, u16::MAX] {
        assert_eq!(Temperature::from_kelvin(k).kelvin(), k);
    }
}

#[test]
fn celsius_of_named_temperatures() {
    assert_eq!(Temperature::absolute_zero().celsius(), -273);
    assert_eq!(Temperature::freezing().celsius(), 0);
    assert_eq!(Temperature::room_temperature().celsius(), 20);
    assert_eq!(Temperature::boiling().celsius(), 100);
}

#[test]
fn celsius_reads_kelvin_as_i16() {
    // 40000 read as an i16 is 40000 - 65536 = -25536.
    assert_eq!(Temperature::from_kelvin(40000).celsius(), -25809);
    assert_eq!(Temperature::from_kelvin(32767).celsius(), 32494);
}

#[test]
fn from_celsius_values() {
    assert_eq!(Temperature::from_celsius(0).kelvin(), 273);
    assert_eq!(Temperature::from_celsius(100).kelvin(), 373);
    assert_eq!(Temperature::from_celsius(-273).kelvin(), 0);
    assert_eq!(Temperature::from_celsius(32494).kelvin(), 32767);
    // Below absolute zero the kelvin value wraps around.
    assert_eq!(Temperature::from_celsius(-300).kelvin(), 65509);
}

#[test]
fn celsius_round_trip() {
    for c in [-273i16, -1, 0, 20, 100, 1000, 32494] {
        assert_eq!(Temperature::from_celsius(c).celsius(), c);
    }
    for k in [0u16, 5, 273, 1000, 32767] {
        let c = Temperature::from_kelvin(k).celsius();
        assert_eq!(Temperature::from_celsius(c).kelvin(), k);
    }
}

#[test]
fn aproximate_fahrenheit_values() {
    assert_eq!(Temperature::freezing().aproximate_fahrenheit(), 32);
    assert_eq!(Temperature::boiling().aproximate_fahrenheit(), 212);
    assert_eq!(Temperature::room_temperature().aproximate_fahrenheit(), 68);
    assert_eq!(Temperature::absolute_zero().aproximate_fahrenheit(), -459);
}

#[test]
fn aproximate_fahrenheit_rounds_toward_zero() {
    // -1 C: -9 / 5 rounds toward zero to -1.
    assert_eq!(Temperature::from_kelvin(272).aproximate_fahrenheit(), 31);
    // 1 C: 9 / 5 rounds down to 1.
    assert_eq!(Temperature::from_kelvin(274).aproximate_fahrenheit(), 33);
    // The largest Celsius value whose ninefold fits in an i16.
    assert_eq!(Temperature::from_kelvin(3913).aproximate_fahrenheit(), 6584);
}
