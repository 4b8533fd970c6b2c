//! Control and spell-selection logic of an Elden Ring mod that reworks how spells are selected
//! and cast: configuration lookup, key-binding parsing and matching, and the spell selector's
//! slot state machine.
pub mod text;
pub mod magic;
pub mod split_magic;
pub mod spell_selector;
pub mod cast_slot;
pub mod no_miscast;
pub mod selector_laws;
pub mod binding_laws;
pub mod settings;
pub mod config_file;
pub mod game_mod;
pub mod keybinds;
pub mod action_reader;
pub mod vk_input;
pub mod player;
pub mod actions;
pub mod errors;
