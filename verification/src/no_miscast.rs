//! Miscast prevention: when a hand is about to cast and its weapon cannot cast the selected
//! spell, the selection is redirected for one frame to a spell of the other school.
use vstd::prelude::*;
use crate::cast_slot::{SpellError, persist_school};
use crate::magic::{EquippedWeapons, Magic, MagicType};
use crate::spell_selector::{
    SelectorView, SlotError, SpellSelector, after_bound, bound_slot_spec, ensure_weapons,
    magic_count, temp_slot, temp_slot_spec,
};
use crate::split_magic::{init_split_magic, schools, split_magic_spec};

verus! {

/// The hand numbers that a notification names.
pub const LEFT: i32 = 0;

/// See `LEFT`.
pub const RIGHT: i32 = 1;

/// How the weapon that casts relates to the selected spell.
#[derive(Clone, Copy, Debug, PartialEq, Eq, Structural)]
pub enum Miscast {
    /// The weapon cannot cast the spell but the other hand's weapon can: the player means to
    /// cast with the other hand's school.
    Intentional,
    /// Neither weapon can cast the spell.
    Unintentional,
    /// The weapon can cast the spell, or no spell school is involved.
    Match,
}

/// The relation between the casting weapon's school, the other hand's school and the selected
/// spell's school.
pub open spec fn miscast_spec(notify: MagicType, off: MagicType, slot_type: MagicType) -> Miscast {
    if (notify == MagicType::Sorcery && (off == MagicType::Both || off == MagicType::Incantation)
        && slot_type == MagicType::Incantation) || (notify == MagicType::Incantation && (off
        == MagicType::Both || off == MagicType::Sorcery) && slot_type == MagicType::Sorcery) {
        Miscast::Intentional
    } else if (notify == MagicType::Sorcery && (off == MagicType::Neither || off
        == MagicType::Sorcery) && slot_type == MagicType::Incantation) || (notify
        == MagicType::Incantation && (off == MagicType::Neither || off == MagicType::Incantation)
        && slot_type == MagicType::Sorcery) {
        Miscast::Unintentional
    } else {
        Miscast::Match
    }
}

/// Whether a weapon of school `weapon` can cast a spell of school `spell`.
pub open spec fn can_cast(weapon: MagicType, spell: MagicType) -> bool {
    weapon == spell || weapon == MagicType::Both
}

/// For a sorcery or incantation cast with a sorcery or incantation weapon: the cast matches
/// when the weapon can cast the spell; otherwise it is intentional when the other hand's weapon
/// can cast it, and unintentional when it cannot either. Casts that involve no spell school
/// always match.
pub proof fn law_miscast_classification(notify: MagicType, off: MagicType, slot_type: MagicType)
    ensures
        (notify == MagicType::Sorcery || notify == MagicType::Incantation) && (slot_type
            == MagicType::Sorcery || slot_type == MagicType::Incantation) ==> miscast_spec(
            notify,
            off,
            slot_type,
        ) == if can_cast(notify, slot_type) {
            Miscast::Match
        } else if can_cast(off, slot_type) {
            Miscast::Intentional
        } else {
            Miscast::Unintentional
        },
        !(notify == MagicType::Sorcery || notify == MagicType::Incantation) || !(slot_type
            == MagicType::Sorcery || slot_type == MagicType::Incantation) ==> miscast_spec(
            notify,
            off,
            slot_type,
        ) == Miscast::Match,
{
}

/// Classifies a cast by the casting weapon's school, the other weapon's school and the spell's.
pub fn miscast_kind(notify: MagicType, off: MagicType, slot_type: MagicType) -> (r: Miscast)
    ensures
        r == miscast_spec(notify, off, slot_type),
{
    match (notify, off, slot_type) {
        (MagicType::Sorcery, MagicType::Both, MagicType::Incantation)
        | (MagicType::Sorcery, MagicType::Incantation, MagicType::Incantation)
        | (MagicType::Incantation, MagicType::Both, MagicType::Sorcery)
        | (MagicType::Incantation, MagicType::Sorcery, MagicType::Sorcery) => Miscast::Intentional,
        (MagicType::Sorcery, MagicType::Neither, MagicType::Incantation)
        | (MagicType::Sorcery, MagicType::Sorcery, MagicType::Incantation)
        | (MagicType::Incantation, MagicType::Neither, MagicType::Sorcery)
        | (MagicType::Incantation, MagicType::Incantation, MagicType::Sorcery) => Miscast::Unintentional,
        _ => Miscast::Match,
    }
}

/// Why redirecting for one frame did nothing.
#[derive(Clone, Copy, Debug, PartialEq, Eq, Structural)]
pub enum RedirectError {
    /// The persistent slot is negative.
    NegativeSlot,
    /// The persistent slot has no entry in the redirection table.
    InvalidSplitIndex,
    /// The redirection target does not fit in an `i32`.
    TargetTooLarge,
    /// The target could not be set as the temporary slot.
    Slot(SlotError),
}

/// Redirecting for one frame: the persistent slot's entry in the redirection table becomes the
/// temporary slot. Nothing changes, and the reason is given, when the table has no such entry
/// or the target cannot be set.
pub open spec fn miscast_redirect_spec(v: SelectorView, fresh: Seq<Magic>) -> (SelectorView, Result<(), RedirectError>) {
    let magics = match v.magics {
        Some(t) => t.0,
        None => Seq::empty(),
    };
    let table = split_magic_spec(schools(magics));
    let p = v.slots.persist;
    if p < 0 {
        (v, Err(RedirectError::NegativeSlot))
    } else if p >= table.len() {
        (v, Err(RedirectError::InvalidSplitIndex))
    } else if table[p as int] > i32::MAX {
        (v, Err(RedirectError::TargetTooLarge))
    } else {
        let target = table[p as int] as i32;
        (
            temp_slot_spec(v, target, fresh),
            if bound_slot_spec(target, magic_count(after_bound(v, fresh))) is Some {
                Ok(())
            } else {
                Err(RedirectError::Slot(SlotError::NoBoundSlot))
            },
        )
    }
}

/// Redirects the selection for one frame to the persistent slot's partner of the other school.
pub fn miscast_intentional(sel: &mut SpellSelector, fresh: &Vec<Magic>) -> (r: Result<(), RedirectError>)
    ensures
        (final(sel)@, r) == miscast_redirect_spec(old(sel)@, fresh@),
{
    let table = match &sel.cache.magics {
        Some(t) => init_split_magic(t.magics.as_slice()),
        None => init_split_magic(Vec::<Magic>::new().as_slice()),
    };
    proof {
        assert(schools(Seq::<Magic>::empty()) =~= Seq::<MagicType>::empty());
    }
    let p = sel.slots.persist;
    if p < 0 {
        return Err(RedirectError::NegativeSlot);
    }
    let index = p as usize;
    if index >= table.len() {
        return Err(RedirectError::InvalidSplitIndex);
    }
    let target = table[index];
    if target > 0x7fff_ffff {
        return Err(RedirectError::TargetTooLarge);
    }
    match temp_slot(sel, target as i32, fresh) {
        Ok(()) => Ok(()),
        Err(e) => Err(RedirectError::Slot(e)),
    }
}

/// The schools of the weapon notified about and of the other hand's weapon.
pub open spec fn hand_schools(weapons: EquippedWeapons, hand: i32) -> Option<(MagicType, MagicType)> {
    if hand == LEFT {
        Some((weapons.left.0.magic_type, weapons.right.0.magic_type))
    } else if hand == RIGHT {
        Some((weapons.right.0.magic_type, weapons.left.0.magic_type))
    } else {
        None
    }
}

/// What a notification that `hand` is about to cast gives: with the feature on, the weapons are
/// refreshed when the settings ask for it, and a mismatch between the hand's weapon and the
/// selected spell redirects the selection for one frame.
pub open spec fn notify_hand_spec(
    v: SelectorView,
    hand: i32,
    fresh_magics: Seq<Magic>,
    fresh_weapons: Option<EquippedWeapons>,
) -> (SelectorView, Result<(), SpellError>) {
    if !v.settings.no_miscast {
        (v, Err(SpellError::Off))
    } else {
        match ensure_weapons(v, fresh_weapons, v.settings.auto_refresh) {
            None => (v, Err(SpellError::WeaponsUnavailable)),
            Some(v1) => match hand_schools(v1.weapons->0, hand) {
                None => (v1, Err(SpellError::BadHand)),
                Some((notify, off)) => {
                    let (v2, school) = persist_school(v1, fresh_magics);
                    match school {
                        Err(e) => (v2, Err(e)),
                        Ok(t) => if miscast_spec(notify, off, t) == Miscast::Match {
                            (v2, Ok(()))
                        } else {
                            let (v3, redirected) = miscast_redirect_spec(v2, fresh_magics);
                            (
                                v3,
                                match redirected {
                                    Ok(()) => Ok(()),
                                    Err(e) => Err(SpellError::Redirect(e)),
                                },
                            )
                        },
                    }
                },
            },
        }
    }
}

/// Handles a notification that `hand` (`LEFT` or `RIGHT`) is about to cast.
pub fn notify_hand(
    sel: &mut SpellSelector,
    hand: i32,
    fresh_magics: &Vec<Magic>,
    fresh_weapons: Option<EquippedWeapons>,
) -> (r: Result<(), SpellError>)
    ensures
        (final(sel)@, r) == notify_hand_spec(old(sel)@, hand, fresh_magics@, fresh_weapons),
{
    if !sel.settings.no_miscast {
        return Err(SpellError::Off);
    }
    let refresh = sel.settings.auto_refresh;
    if refresh || sel.cache.weapons.is_none() {
        match fresh_weapons {
            Some(w) => {
                sel.cache.weapons = Some(w);
            },
            None => return Err(SpellError::WeaponsUnavailable),
        }
    }
    let weapons = match sel.cache.weapons {
        Some(w) => w,
        None => return Err(SpellError::WeaponsUnavailable),
    };
    let (notify, off) = if hand == LEFT {
        (weapons.left.0.magic_type, weapons.right.0.magic_type)
    } else if hand == RIGHT {
        (weapons.right.0.magic_type, weapons.left.0.magic_type)
    } else {
        return Err(SpellError::BadHand);
    };
    let persist = sel.slots.persist;
    if persist < 0 {
        return Err(SpellError::NegativeSlot);
    }
    if sel.cache.magics.is_none() {
        let copy = fresh_magics.clone();
        assert(copy@ =~= fresh_magics@);
        sel.cache.magics = Some(crate::magic::init_magic(copy));
    }
    let index = persist as usize;
    let slot_type = match &sel.cache.magics {
        Some(t) => {
            if index < t.magics.len() {
                t.magics[index].magic_type
            } else {
                return Err(SpellError::BadPersistIndex);
            }
        },
        None => return Err(SpellError::BadPersistIndex),
    };
    match miscast_kind(notify, off, slot_type) {
        Miscast::Match => Ok(()),
        Miscast::Intentional | Miscast::Unintentional => match miscast_intentional(sel, fresh_magics) {
            Ok(()) => Ok(()),
            Err(e) => Err(SpellError::Redirect(e)),
        },
    }
}

} // verus!
