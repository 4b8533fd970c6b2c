//! Casting the selected spell: choosing the hand whose weapon can cast it, and turning the
//! chosen hand into the cast request made on the next behaviour update.
use vstd::prelude::*;
use crate::magic::{EquippedWeapons, Magic, MagicType};
use crate::no_miscast::RedirectError;
use crate::spell_selector::{
    SelectorView, SlotError, SpellSelector, after_bound, bound_slot_spec, ensure_magics,
    ensure_weapons, magic_count, to_slot, to_slot_spec, LEFT_HAND, RIGHT_HAND, NOT_CASTING,
};

verus! {

/// Why a cast or a hand notification did nothing.
#[derive(Clone, Copy, Debug, PartialEq, Eq, Structural)]
pub enum SpellError {
    /// The feature is switched off in the settings.
    Off,
    /// The weapons had to be read but none were handed in.
    WeaponsUnavailable,
    /// The persistent slot is negative.
    NegativeSlot,
    /// The persistent slot lies beyond the equipped spells.
    BadPersistIndex,
    /// The hand number is neither left nor right.
    BadHand,
    /// A mismatched spell could not be redirected.
    Redirect(RedirectError),
}

/// The hand whose weapon casts spells of `slot_type`: the left hand first, then the right,
/// else no hand.
pub open spec fn casting_hand(weapons: EquippedWeapons, slot_type: MagicType) -> u8 {
    if weapons.left.0.magic_type == slot_type {
        LEFT_HAND
    } else if weapons.right.0.magic_type == slot_type {
        RIGHT_HAND
    } else {
        NOT_CASTING
    }
}

/// The hand chosen to cast holds a weapon of the spell's school: the left hand whenever its
/// weapon has it, else the right hand when its weapon has it, else no hand.
pub proof fn law_casting_hand_has_school(weapons: EquippedWeapons, slot_type: MagicType)
    ensures
        casting_hand(weapons, slot_type) == LEFT_HAND <==> weapons.left.0.magic_type == slot_type,
        casting_hand(weapons, slot_type) == RIGHT_HAND <==> weapons.left.0.magic_type != slot_type
            && weapons.right.0.magic_type == slot_type,
        casting_hand(weapons, slot_type) == NOT_CASTING <==> weapons.left.0.magic_type
            != slot_type && weapons.right.0.magic_type != slot_type,
{
}

/// The school of the spell in the persistent slot, read after the spell table is read; an error
/// when the slot holds no spell.
pub open spec fn persist_school(v: SelectorView, fresh: Seq<Magic>) -> (SelectorView, Result<MagicType, SpellError>) {
    if v.slots.persist < 0 {
        (v, Err(SpellError::NegativeSlot))
    } else {
        let w = ensure_magics(v, fresh, false);
        let magics = match w.magics {
            Some(t) => t.0,
            None => Seq::empty(),
        };
        if v.slots.persist >= magics.len() {
            (w, Err(SpellError::BadPersistIndex))
        } else {
            (w, Ok(magics[v.slots.persist as int].magic_type))
        }
    }
}

/// What casting gives: with the feature on, the weapons are refreshed when the settings ask
/// for it, the persistent slot is moved to `raw_slot` when one is given, and the casting hand
/// becomes the hand able to cast the spell in the persistent slot.
pub open spec fn cast_slot_spec(
    v: SelectorView,
    raw_slot: Option<i32>,
    fresh_magics: Seq<Magic>,
    fresh_weapons: Option<EquippedWeapons>,
) -> (SelectorView, Result<(), SpellError>) {
    if !v.settings.cast_slot {
        (v, Err(SpellError::Off))
    } else {
        let refreshed = if v.settings.auto_refresh {
            ensure_weapons(v, fresh_weapons, true)
        } else {
            Some(v)
        };
        match refreshed {
            None => (v, Err(SpellError::WeaponsUnavailable)),
            Some(v1) => {
                let v2 = match raw_slot {
                    Some(raw) => to_slot_spec(v1, raw, fresh_magics),
                    None => v1,
                };
                match ensure_weapons(v2, fresh_weapons, false) {
                    None => (v2, Err(SpellError::WeaponsUnavailable)),
                    Some(v3) => {
                        let weapons = v3.weapons->0;
                        let (v4, school) = persist_school(v3, fresh_magics);
                        match school {
                            Err(e) => (v4, Err(e)),
                            Ok(t) => (
                                SelectorView { casting: casting_hand(weapons, t), ..v4 },
                                Ok(()),
                            ),
                        }
                    },
                }
            },
        }
    }
}

/// How selecting `raw_slot` before a cast went: an error when a slot was given, the cast got
/// that far, and the slot could not be brought into the range of the spells. The cast goes on
/// either way.
pub open spec fn cast_selection_spec(
    v: SelectorView,
    raw_slot: Option<i32>,
    fresh_magics: Seq<Magic>,
    fresh_weapons: Option<EquippedWeapons>,
) -> Result<(), SlotError> {
    let refreshed = if v.settings.auto_refresh {
        ensure_weapons(v, fresh_weapons, true)
    } else {
        Some(v)
    };
    if !v.settings.cast_slot {
        Ok(())
    } else {
        match refreshed {
            None => Ok(()),
            Some(v1) => match raw_slot {
                None => Ok(()),
                Some(raw) => if bound_slot_spec(raw, magic_count(after_bound(v1, fresh_magics))) is Some {
                    Ok(())
                } else {
                    Err(SlotError::NoBoundSlot)
                },
            },
        }
    }
}

fn read_weapons(sel: &mut SpellSelector, fresh: Option<EquippedWeapons>, refresh: bool) -> (r: bool)
    ensures
        r == ensure_weapons(old(sel)@, fresh, refresh) is Some,
        r ==> final(sel)@ == ensure_weapons(old(sel)@, fresh, refresh)->0,
        r ==> final(sel).cache.weapons is Some,
        !r ==> final(sel)@ == old(sel)@,
{
    if refresh || sel.cache.weapons.is_none() {
        match fresh {
            Some(w) => {
                sel.cache.weapons = Some(w);
                true
            },
            None => false,
        }
    } else {
        true
    }
}

/// Reads the school of the spell in the persistent slot.
fn read_persist_school(sel: &mut SpellSelector, fresh: &Vec<Magic>) -> (r: Result<MagicType, SpellError>)
    ensures
        (final(sel)@, r) == persist_school(old(sel)@, fresh@),
{
    let persist = sel.slots.persist;
    if persist < 0 {
        return Err(SpellError::NegativeSlot);
    }
    if sel.cache.magics.is_none() {
        let copy = fresh.clone();
        assert(copy@ =~= fresh@);
        sel.cache.magics = Some(crate::magic::init_magic(copy));
    }
    let index = persist as usize;
    match &sel.cache.magics {
        Some(t) => {
            if index < t.magics.len() {
                Ok(t.magics[index].magic_type)
            } else {
                Err(SpellError::BadPersistIndex)
            }
        },
        None => Err(SpellError::BadPersistIndex),
    }
}

/// Prepares a cast of the selected spell (or of `raw_slot`, selected first): records the hand
/// whose weapon can cast it, to be used on the next behaviour update.
pub fn cast_slot(
    sel: &mut SpellSelector,
    raw_slot: Option<i32>,
    fresh_magics: &Vec<Magic>,
    fresh_weapons: Option<EquippedWeapons>,
) -> (r: (Result<(), SlotError>, Result<(), SpellError>))
    ensures
        (final(sel)@, r.1) == cast_slot_spec(old(sel)@, raw_slot, fresh_magics@, fresh_weapons),
        r.0 == cast_selection_spec(old(sel)@, raw_slot, fresh_magics@, fresh_weapons),
{
    if !sel.settings.cast_slot {
        return (Ok(()), Err(SpellError::Off));
    }
    let auto = sel.settings.auto_refresh;
    if auto && !read_weapons(sel, fresh_weapons, true) {
        return (Ok(()), Err(SpellError::WeaponsUnavailable));
    }
    let selection = match raw_slot {
        Some(raw) => to_slot(sel, raw, fresh_magics),
        None => Ok(()),
    };
    assert(selection == cast_selection_spec(old(sel)@, raw_slot, fresh_magics@, fresh_weapons)) by {
        if let Ok(u) = selection {
            assert(u == ());
        }
        if let Err(e) = selection {
            assert(e == SlotError::NoBoundSlot);
        }
    }
    if !read_weapons(sel, fresh_weapons, false) {
        return (selection, Err(SpellError::WeaponsUnavailable));
    }
    let weapons = match sel.cache.weapons {
        Some(w) => w,
        None => return (selection, Err(SpellError::WeaponsUnavailable)),
    };
    match read_persist_school(sel, fresh_magics) {
        Err(e) => (selection, Err(e)),
        Ok(slot_type) => {
            let hand = if weapons.left.0.magic_type == slot_type {
                LEFT_HAND
            } else if weapons.right.0.magic_type == slot_type {
                RIGHT_HAND
            } else {
                NOT_CASTING
            };
            sel.casting = hand;
            (selection, Ok(()))
        },
    }
}

/// The hand that a cast request presses.
#[derive(Clone, Copy, Debug, PartialEq, Eq, Structural)]
pub enum CastHand {
    Left,
    Right,
}

/// The cast request made on a behaviour update: the recorded hand, when the player exists,
/// after which the record is cleared. Nothing changes when no hand is recorded or the player
/// is missing.
pub open spec fn request_actions_spec(v: SelectorView, player_present: bool) -> (Option<CastHand>, SelectorView) {
    if player_present && v.casting == LEFT_HAND {
        (Some(CastHand::Left), SelectorView { casting: NOT_CASTING, ..v })
    } else if player_present && v.casting == RIGHT_HAND {
        (Some(CastHand::Right), SelectorView { casting: NOT_CASTING, ..v })
    } else {
        (None, v)
    }
}

/// The cast request to make on a behaviour update, if any.
pub fn request_actions(sel: &mut SpellSelector, player_present: bool) -> (r: Option<CastHand>)
    ensures
        (r, final(sel)@) == request_actions_spec(old(sel)@, player_present),
{
    let hand = sel.casting;
    if hand == NOT_CASTING {
        return None;
    }
    if !player_present {
        return None;
    }
    if hand == LEFT_HAND {
        sel.casting = NOT_CASTING;
        Some(CastHand::Left)
    } else if hand == RIGHT_HAND {
        sel.casting = NOT_CASTING;
        Some(CastHand::Right)
    } else {
        None
    }
}

} // verus!
