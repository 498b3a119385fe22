use vstd::prelude::*;

verus! {

/// A key of the keyboard, as the ingredient game reads it: the keys it
/// answers, and every other key.
#[derive(Clone, Copy, Debug, PartialEq, Eq, Structural)]
pub enum Key {
    A,
    S,
    D,
    F,
    R,
    T,
    Other,
}

/// An ingredient that a key pours into the cauldron.
#[derive(Clone, Copy, Debug, PartialEq, Eq, Structural)]
pub enum KeyIngredient {
    Pepper,
    EyeOfNewt,
    ARock,
}

impl KeyIngredient {
    /// The name under which the ingredient is spawned.
    pub fn name(&self) -> (name: &'static str)
        ensures
            name@ == match *self {
                KeyIngredient::Pepper => "Pepper"@,
                KeyIngredient::EyeOfNewt => "Eye of Newt"@,
                KeyIngredient::ARock => "A Rock"@,
            },
    {
        match self {
            KeyIngredient::Pepper => "Pepper",
            KeyIngredient::EyeOfNewt => "Eye of Newt",
            KeyIngredient::ARock => "A Rock",
        }
    }
}

/// What a keyboard event asks the game to do.
#[derive(Clone, Copy, Debug, PartialEq, Eq, Structural)]
pub enum InputCommand {
    /// Nothing: a release, an event without a key, or a key the game ignores.
    Ignore,
    /// List every ingredient with its color.
    ListIngredients,
    /// Pour one liter of the ingredient into the cauldron.
    AddOneLiter(KeyIngredient),
    /// Stir the cauldron counter-clockwise.
    StirCounterClockwise,
    /// Stir the cauldron clockwise.
    StirClockwise,
}

/// The command that a keyboard event asks for, given whether the key was
/// pressed (rather than released) and the key, if the event names one.
pub open spec fn spec_command_for_key(pressed: bool, key: Option<Key>) -> InputCommand {
    if !pressed {
        InputCommand::Ignore
    } else {
        match key {
            None => InputCommand::Ignore,
            Some(Key::A) => InputCommand::ListIngredients,
            Some(Key::S) => InputCommand::AddOneLiter(KeyIngredient::Pepper),
            Some(Key::D) => InputCommand::AddOneLiter(KeyIngredient::EyeOfNewt),
            Some(Key::F) => InputCommand::AddOneLiter(KeyIngredient::ARock),
            Some(Key::R) => InputCommand::StirCounterClockwise,
            Some(Key::T) => InputCommand::StirClockwise,
            Some(Key::Other) => InputCommand::Ignore,
        }
    }
}

/// The command that a keyboard event asks for: A lists the ingredients; S, D
/// and F pour one liter of Pepper, Eye of Newt and A Rock; R stirs
/// counter-clockwise and T clockwise. Releases, events without a key and
/// other keys ask for nothing.
pub fn command_for_key(pressed: bool, key: Option<Key>) -> (command: InputCommand)
    ensures
        command == spec_command_for_key(pressed, key),
        !pressed ==> command == InputCommand::Ignore,
{
    if !pressed {
        return InputCommand::Ignore;
    }
    match key {
        None => InputCommand::Ignore,
        Some(Key::A) => InputCommand::ListIngredients,
        Some(Key::S) => InputCommand::AddOneLiter(KeyIngredient::Pepper),
        Some(Key::D) => InputCommand::AddOneLiter(KeyIngredient::EyeOfNewt),
        Some(Key::F) => InputCommand::AddOneLiter(KeyIngredient::ARock),
        Some(Key::R) => InputCommand::StirCounterClockwise,
        Some(Key::T) => InputCommand::StirClockwise,
        Some(Key::Other) => InputCommand::Ignore,
    }
}

/// A release never asks for anything, whatever the key; a press of S, D or F
/// pours one liter of Pepper, Eye of Newt or A Rock; a press of R stirs
/// counter-clockwise and of T clockwise; A lists the ingredients; a press
/// without a key or of another key asks for nothing.
pub proof fn law_only_presses_act(key: Option<Key>)
    ensures
        spec_command_for_key(false, key) == InputCommand::Ignore,
        spec_command_for_key(true, Some(Key::S)) == InputCommand::AddOneLiter(
            KeyIngredient::Pepper,
        ),
        spec_command_for_key(true, Some(Key::D)) == InputCommand::AddOneLiter(
            KeyIngredient::EyeOfNewt,
        ),
        spec_command_for_key(true, Some(Key::F)) == InputCommand::AddOneLiter(
            KeyIngredient::ARock,
        ),
        spec_command_for_key(true, Some(Key::R)) == InputCommand::StirCounterClockwise,
        spec_command_for_key(true, Some(Key::T)) == InputCommand::StirClockwise,
        spec_command_for_key(true, Some(Key::A)) == InputCommand::ListIngredients,
        spec_command_for_key(true, Some(Key::Other)) == InputCommand::Ignore,
        spec_command_for_key(true, None) == InputCommand::Ignore,
        spec_command_for_key(true, key) != InputCommand::Ignore ==> key is Some && key != Some(
            Key::Other,
        ),
{
}

} // verus!
