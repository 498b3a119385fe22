# khaldron

The rules of a small alchemy game, as a verified library, and the bevy game
around it.

- `src/` is the library, verified with Verus:
  - `alchemy::standard_units`: temperatures in kelvin, with Celsius and
    Fahrenheit readings;
  - `alchemy::cauldron`: cauldron events and the requirements that rules put
    on a cauldron;
  - `alchemy`: what a batch of events does to one cauldron, and which rules
    the ingredients in a tool trigger;
  - `alchemy::rule`, `chemistry::rule`: rules and the triggers kept on
    ingredients;
  - `entity_map`: entities as their bits, and remapping them through a bevy
    `EntityMap`;
  - `input`: what a key press asks the game to do.
- `app/` is the game: the bevy components and systems, and the volume
  arithmetic, which is done in `f32`.
- `tests/` runs the library on concrete values.
