use khaldron::input::{command_for_key, InputCommand, Key, KeyIngredient};

#[test]
fn pressed_keys_map_to_commands() {
    assert_eq!(command_for_key(true, Some(Key::A)), InputCommand::ListIngredients);
    assert_eq!(
        command_for_key(true, Some(Key::S)),
        InputCommand::AddOneLiter(KeyIngredient::Pepper)
    );
    assert_eq!(
        command_for_key(true, Some(Key::D)),
        InputCommand::AddOneLiter(KeyIngredient::EyeOfNewt)
    );
    assert_eq!(
        command_for_key(true, Some(Key::F)),
        InputCommand::AddOneLiter(KeyIngredient::ARock)
    );
    assert_eq!(command_for_key(true, Some(Key::R)), InputCommand::StirCounterClockwise);
    assert_eq!(command_for_key(true, Some(Key::T)), InputCommand::StirClockwise);
    assert_eq!(command_for_key(true, Some(Key::Other)), InputCommand::Ignore);
}

#[test]
fn releases_and_missing_keys_are_ignored() {
    assert_eq!(command_for_key(false, Some(Key::A)), InputCommand::Ignore);
    assert_eq!(command_for_key(false, Some(Key::T)), InputCommand::Ignore);
    assert_eq!(command_for_key(true, None), InputCommand::Ignore);
    assert_eq!(command_for_key(false, None), InputCommand::Ignore);
}

#[test]
fn key_ingredient_names() {
    assert_eq!(KeyIngredient::Pepper.name(), "Pepper");
    assert_eq!(KeyIngredient::EyeOfNewt.name(), "Eye of Newt");
    assert_eq!(KeyIngredient::ARock.name(), "A Rock");
}
