# er_controls

Control and spell-selection logic for an Elden Ring mod that reworks how spells are selected
and cast, written in Verus and verified.

## What the library does

- **Spell selector** (`spell_selector`, `cast_slot`, `no_miscast`, `split_magic`): a persistent
  spell slot applied at the end of every frame, a temporary slot handed out once at the start
  of the next frame, commands such as `next`, `prev`, `to_N`, `temp_N`, `cast`, `cast_N` and the
  hand notifications, casting with the hand whose weapon can cast the selected spell, and
  redirection of a mismatched cast to a spell of the other school.
- **Key bindings** (`keybinds`, `action_reader`, `vk_input`): parsing key texts with their
  modifiers, building bindings from a configuration section, ordering them from the most keys
  to the fewest, finalising them once the player is in the world, and matching input events
  against them.
- **Configuration** (`config_file`, `settings`, `game_mod`): parsing the TOML documents (the
  user's file when it parses, else the built-in one), nested lookups in the built-in and the
  user's configuration, boolean switches, and which mods are enabled.
- **Game data** (`magic`, `player`, `actions`): spell and weapon parameters read into plain
  values, the equipped spells, spell changes and the input codes pressed in a frame.

Every public function states its result in its contract; the laws that relate several
operations (the temporary slot is taken once, `next` then `prev` comes back, a redirection
always crosses schools, the k-th spell of one school pairs with the k-th of the other, and so
on) are proof functions in `selector_laws`, `split_magic`, `text`, `keybinds`, `cast_slot` and
`no_miscast`.

## Layout

- `src/`: the verified library.
- `tests/`: tests of the library on concrete values.
- `app/`: the DLL around it: the Windows entry point, reading the configuration file, reading
  the game's memory and the input devices, and applying the library's decisions to the game.
