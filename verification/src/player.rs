//! What the selector reads from and writes to the player: the equipped spell entries and the
//! change of the selected spell slot.
use vstd::prelude::*;

verus! {

/// An entry of the player's equipped-spell list.
#[derive(Clone, Copy, Debug, PartialEq, Eq, Structural)]
pub struct MagicEntry {
    pub param_id: i32,
    pub charges: i64,
}

/// Whether an entry holds a usable spell: it has charges and a spell id.
pub open spec fn is_usable(e: MagicEntry) -> bool {
    !(e.charges == 0 || e.param_id == -1)
}

/// The spell ids of the usable entries, in order.
pub open spec fn usable_ids(entries: Seq<MagicEntry>) -> Seq<i32> {
    entries.filter_map(|e: MagicEntry| if is_usable(e) { Some(e.param_id) } else { None })
}

/// The ids of the equipped spells that have charges.
pub fn equipped_magic(entries: &[MagicEntry]) -> (r: Vec<i32>)
    ensures
        r@ == usable_ids(entries@),
{
    let ghost f = |e: MagicEntry| if is_usable(e) { Some(e.param_id) } else { None };
    let mut out: Vec<i32> = Vec::new();
    let mut i: usize = 0;
    while i < entries.len()
        invariant
            i <= entries@.len(),
            f == (|e: MagicEntry| if is_usable(e) { Some(e.param_id) } else { None }),
            out@ == entries@.take(i as int).filter_map(f),
        decreases entries@.len() - i,
    {
        proof {
            entries@.lemma_filter_map_take_succ(f, i as int);
        }
        let e = entries[i];
        if !(e.charges == 0 || e.param_id == -1) {
            out.push(e.param_id);
        }
        i = i + 1;
    }
    assert(entries@.take(entries@.len() as int) =~= entries@);
    out
}

/// A change of the selected spell: the slot to select, and the id of the spell in it when the
/// slot holds an entry.
#[derive(Clone, Copy, Debug, PartialEq, Eq, Structural)]
pub struct SpellChange {
    pub selected_slot: i32,
    pub magic_id: Option<i32>,
}

/// The change of selecting `slot` among the equipped entries' ids: none for a negative slot.
pub open spec fn change_spell_spec(slot: i32, param_ids: Seq<i32>) -> Option<SpellChange> {
    if slot < 0 {
        None
    } else {
        Some(
            SpellChange {
                selected_slot: slot,
                magic_id: if slot < param_ids.len() {
                    Some(param_ids[slot as int])
                } else {
                    None
                },
            },
        )
    }
}

/// The change to make to select `slot`, given the spell id of each equipped entry.
pub fn change_spell(slot: i32, param_ids: &[i32]) -> (r: Option<SpellChange>)
    ensures
        r == change_spell_spec(slot, param_ids@),
{
    if slot < 0 {
        return None;
    }
    let index = slot as usize;
    let magic_id = if index < param_ids.len() {
        Some(param_ids[index])
    } else {
        None
    };
    Some(SpellChange { selected_slot: slot, magic_id })
}

} // verus!
