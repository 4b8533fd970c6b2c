//! The list of mods this library drives and the choice of which of them to start.
use vstd::prelude::*;
use crate::settings::{bool_setting, query_bool, Config};

verus! {

/// A mod: the name of its configuration section, which also names its entry point.
#[derive(Clone, Copy, Debug, PartialEq, Eq)]
pub struct GameMod {
    pub context: &'static str,
}

/// The mods, in the order their entry points run.
pub fn mod_list() -> (r: Vec<GameMod>)
    ensures
        r@.len() == 2,
        r@[0].context@ == "action_reader"@,
        r@[1].context@ == "spell_selector"@,
{
    let mut list: Vec<GameMod> = Vec::new();
    list.push(GameMod { context: "action_reader" });
    list.push(GameMod { context: "spell_selector" });
    list
}

/// Whether a mod is switched on: the boolean at `enabled.<context>`, on unless set.
pub open spec fn mod_enabled(config: Config, context: Seq<char>) -> bool {
    bool_setting(config, seq!["enabled"@, context], true)
}

/// The mods whose entry point runs, in order: those switched on in the general section.
pub open spec fn enabled_mods(config: Config, mods: Seq<GameMod>) -> Seq<GameMod> {
    mods.filter(|m: GameMod| mod_enabled(config, m.context@))
}

fn is_enabled(config: &Config, game_mod: &GameMod) -> (r: bool)
    ensures
        r == mod_enabled(*config, game_mod.context@),
{
    let mut path: Vec<&str> = Vec::new();
    path.push("enabled");
    path.push(game_mod.context);
    let r = query_bool(config, path.as_slice(), true);
    assert(crate::settings::path_view(path@) =~= seq!["enabled"@, game_mod.context@]);
    r
}

/// The mods to start, from the general configuration section.
pub fn entry_point(config: &Config, mods: &[GameMod]) -> (r: Vec<GameMod>)
    ensures
        r@ == enabled_mods(*config, mods@),
{
    let ghost pred = |m: GameMod| mod_enabled(*config, m.context@);
    let mut out: Vec<GameMod> = Vec::new();
    let mut i: usize = 0;
    while i < mods.len()
        invariant
            i <= mods@.len(),
            pred == (|m: GameMod| mod_enabled(*config, m.context@)),
            out@ == mods@.take(i as int).filter(pred),
        decreases mods@.len() - i,
    {
        proof {
            assert(mods@.take(i + 1) =~= mods@.take(i as int).push(mods@[i as int]));
            mods@.take(i as int).lemma_filter_push(mods@[i as int], pred);
        }
        if is_enabled(config, &mods[i]) {
            out.push(mods[i]);
        }
        i = i + 1;
    }
    assert(mods@.take(mods@.len() as int) =~= mods@);
    out
}

} // verus!
