//! Spells and weapons as the selector sees them: which school of magic each belongs to, how a
//! game parameter entry is read into one, and the cached tables of equipped spells and weapons.
use vstd::prelude::*;

verus! {

/// The school of magic a spell belongs to, or that a weapon can cast.
#[derive(Clone, Copy, Debug, PartialEq, Eq, Structural)]
pub enum MagicType {
    Sorcery,
    Incantation,
    Neither,
    Both,
}

/// An equipped spell.
#[derive(Clone, Copy, Debug, PartialEq, Eq, Structural)]
pub struct Magic {
    pub magic_type: MagicType,
    pub cost: i16,
}

/// The fields of a spell's parameter entry that the selector reads.
#[derive(Clone, Copy, Debug, PartialEq, Eq, Structural)]
pub struct MagicParam {
    pub sp_effect_category: u8,
    pub mp: i16,
}

/// An equipped weapon.
#[derive(Clone, Copy, Debug, PartialEq, Eq, Structural)]
pub struct Weapon {
    pub magic_type: MagicType,
}

/// The fields of a weapon's parameter entry that the selector reads.
#[derive(Clone, Copy, Debug, PartialEq, Eq, Structural)]
pub struct WeaponParam {
    pub enable_magic: u8,
    pub enable_miracle: u8,
}

/// The weapons in both hands, each with the slot number recorded beside it.
#[derive(Clone, Copy, Debug, PartialEq, Eq)]
pub struct EquippedWeapons {
    pub left: (Weapon, u32),
    pub right: (Weapon, u32),
}

/// The selected weapon slot of each hand.
#[derive(Clone, Copy, Debug, PartialEq, Eq, Structural)]
pub struct WeaponSlots {
    pub left_weapon_slot: u32,
    pub right_weapon_slot: u32,
}

/// Why a spell or weapon could not be looked up.
#[derive(Clone, Copy, Debug, PartialEq, Eq, Structural)]
pub enum LookupError {
    /// A spell id below zero.
    NegativeId,
    /// A weapon id of zero.
    ZeroId,
    /// A weapon id that is not a valid unsigned id.
    IdOutOfRange,
    /// The parameter repository holds no entry for the id.
    ParamNotFound,
}

/// The school of a spell whose special-effect category is `category`.
pub open spec fn spell_school(category: u8) -> MagicType {
    if category == 3 {
        MagicType::Sorcery
    } else if category == 4 {
        MagicType::Incantation
    } else {
        MagicType::Neither
    }
}

/// The school(s) a weapon can cast from its two enable flags.
pub open spec fn weapon_school(enable_magic: u8, enable_miracle: u8) -> MagicType {
    if enable_magic == 1 && enable_miracle == 1 {
        MagicType::Both
    } else if enable_magic == 1 && enable_miracle == 0 {
        MagicType::Sorcery
    } else if enable_magic == 0 && enable_miracle == 1 {
        MagicType::Incantation
    } else {
        MagicType::Neither
    }
}

/// What looking up spell `id` gives when the repository holds `param` for it.
pub open spec fn magic_lookup_spec(id: i32, param: Option<MagicParam>) -> Result<Magic, LookupError> {
    if id < 0 {
        Err(LookupError::NegativeId)
    } else {
        match param {
            None => Err(LookupError::ParamNotFound),
            Some(p) => Ok(Magic { magic_type: spell_school(p.sp_effect_category), cost: p.mp }),
        }
    }
}

/// Reads spell `id` from `param`, the repository's entry for it (`None` when it has none).
pub fn magic_lookup(id: i32, param: Option<MagicParam>) -> (r: Result<Magic, LookupError>)
    ensures
        r == magic_lookup_spec(id, param),
{
    if id < 0 {
        return Err(LookupError::NegativeId);
    }
    match param {
        None => Err(LookupError::ParamNotFound),
        Some(p) => {
            let magic_type = if p.sp_effect_category == 3 {
                MagicType::Sorcery
            } else if p.sp_effect_category == 4 {
                MagicType::Incantation
            } else {
                MagicType::Neither
            };
            Ok(Magic { magic_type, cost: p.mp })
        },
    }
}

/// The spells among the lookup results, in order: the failed lookups are left out.
pub open spec fn found_magics(lookups: Seq<Result<Magic, LookupError>>) -> Seq<Magic> {
    lookups.filter_map(
        |r: Result<Magic, LookupError>|
            match r {
                Ok(m) => Some(m),
                Err(_) => None,
            },
    )
}

/// The equipped spells, from the lookup result of each equipped spell entry.
pub fn equipped_magic(lookups: &[Result<Magic, LookupError>]) -> (r: Vec<Magic>)
    ensures
        r@ == found_magics(lookups@),
{
    let mut out: Vec<Magic> = Vec::new();
    let mut i: usize = 0;
    while i < lookups.len()
        invariant
            i <= lookups@.len(),
            out@ == found_magics(lookups@.take(i as int)),
        decreases lookups@.len() - i,
    {
        proof {
            lookups@.lemma_filter_map_take_succ(
                |r: Result<Magic, LookupError>|
                    match r {
                        Ok(m) => Some(m),
                        Err(_) => None,
                    },
                i as int,
            );
        }
        match &lookups[i] {
            Ok(m) => out.push(*m),
            Err(_) => {},
        }
        i = i + 1;
    }
    assert(lookups@.take(lookups@.len() as int) =~= lookups@);
    out
}

/// The parameter id under which weapon `raw_id` is found: the id with its last four decimal
/// digits cleared.
pub open spec fn weapon_param_id_spec(raw_id: i32) -> Result<u32, LookupError> {
    if raw_id == 0 {
        Err(LookupError::ZeroId)
    } else if raw_id < 0 {
        Err(LookupError::IdOutOfRange)
    } else {
        Ok((raw_id - raw_id % 10000) as u32)
    }
}

/// The parameter id under which weapon `raw_id` is found.
pub fn weapon_param_id(raw_id: i32) -> (r: Result<u32, LookupError>)
    ensures
        r == weapon_param_id_spec(raw_id),
{
    if raw_id == 0 {
        return Err(LookupError::ZeroId);
    }
    if raw_id < 0 {
        return Err(LookupError::IdOutOfRange);
    }
    let id: u32 = raw_id as u32;
    Ok(id - id % 10000)
}

/// What looking up weapon `raw_id` gives when the repository holds `param` under its
/// parameter id.
pub open spec fn weapon_lookup_spec(raw_id: i32, param: Option<WeaponParam>) -> Result<
    Weapon,
    LookupError,
> {
    match weapon_param_id_spec(raw_id) {
        Err(e) => Err(e),
        Ok(_) => match param {
            None => Err(LookupError::ParamNotFound),
            Some(p) => Ok(Weapon { magic_type: weapon_school(p.enable_magic, p.enable_miracle) }),
        },
    }
}

/// Reads weapon `raw_id` from `param`, the repository's entry under `weapon_param_id(raw_id)`
/// (`None` when it has none).
pub fn weapon_lookup(raw_id: i32, param: Option<WeaponParam>) -> (r: Result<Weapon, LookupError>)
    ensures
        r == weapon_lookup_spec(raw_id, param),
{
    match weapon_param_id(raw_id) {
        Err(e) => Err(e),
        Ok(_) => match param {
            None => Err(LookupError::ParamNotFound),
            Some(p) => {
                let magic_type = if p.enable_magic == 1 && p.enable_miracle == 1 {
                    MagicType::Both
                } else if p.enable_magic == 1 && p.enable_miracle == 0 {
                    MagicType::Sorcery
                } else if p.enable_magic == 0 && p.enable_miracle == 1 {
                    MagicType::Incantation
                } else {
                    MagicType::Neither
                };
                Ok(Weapon { magic_type })
            },
        },
    }
}

/// Why the equipped weapons could not be read.
#[derive(Clone, Copy, Debug, PartialEq, Eq, Structural)]
pub enum WeaponError {
    /// The slot number is too large to index the equipment list.
    SlotOverflow,
    /// The equipment list has no entry at the slot's index.
    BadIndex,
    /// The weapon at the slot could not be looked up.
    Lookup(LookupError),
}

/// Which hand a weapon is held in.
#[derive(Clone, Copy, Debug, PartialEq, Eq, Structural)]
pub enum Side {
    Left,
    Right,
}

/// The index in the equipment list of the weapon in `slot`: left-hand weapons stand at even
/// indices, right-hand ones at the odd index after them.
pub open spec fn weapon_index_spec(slot: u32, side: Side) -> Option<int> {
    let base = slot as int * 2;
    let index = match side {
        Side::Left => base,
        Side::Right => base + 1,
    };
    if base > u32::MAX || index > u32::MAX {
        None
    } else {
        Some(index)
    }
}

/// The equipment-list entry of the weapon held in `side`'s selected slot.
pub open spec fn weapon_raw_id_spec(slots: WeaponSlots, param_ids: Seq<i32>, side: Side) -> Result<
    i32,
    WeaponError,
> {
    let slot = match side {
        Side::Left => slots.left_weapon_slot,
        Side::Right => slots.right_weapon_slot,
    };
    match weapon_index_spec(slot, side) {
        None => Err(WeaponError::SlotOverflow),
        Some(i) => if i < param_ids.len() {
            Ok(param_ids[i])
        } else {
            Err(WeaponError::BadIndex)
        },
    }
}

/// The raw id of the weapon held in `side`, read from the equipment list.
pub fn weapon_raw_id(slots: WeaponSlots, param_ids: &[i32], side: Side) -> (r: Result<i32, WeaponError>)
    ensures
        r == weapon_raw_id_spec(slots, param_ids@, side),
{
    let slot = match side {
        Side::Left => slots.left_weapon_slot,
        Side::Right => slots.right_weapon_slot,
    };
    let base = match slot.checked_mul(2) {
        Some(b) => b,
        None => return Err(WeaponError::SlotOverflow),
    };
    let index = match side {
        Side::Left => base,
        Side::Right => match base.checked_add(1) {
            Some(x) => x,
            None => return Err(WeaponError::SlotOverflow),
        },
    };
    let index = index as usize;
    if index < param_ids.len() {
        Ok(param_ids[index])
    } else {
        Err(WeaponError::BadIndex)
    }
}

/// The weapon in one hand, from its raw id and the repository entry found for it.
pub open spec fn hand_weapon_spec(
    slots: WeaponSlots,
    param_ids: Seq<i32>,
    side: Side,
    param: Option<WeaponParam>,
) -> Result<Weapon, WeaponError> {
    match weapon_raw_id_spec(slots, param_ids, side) {
        Err(e) => Err(e),
        Ok(raw) => match weapon_lookup_spec(raw, param) {
            Err(e) => Err(WeaponError::Lookup(e)),
            Ok(w) => Ok(w),
        },
    }
}

/// What reading both hands gives: the left hand is read first, and both entries keep the
/// left slot number beside the weapon.
pub open spec fn init_weapons_spec(
    slots: WeaponSlots,
    param_ids: Seq<i32>,
    left_param: Option<WeaponParam>,
    right_param: Option<WeaponParam>,
) -> Result<EquippedWeapons, (Side, WeaponError)> {
    match hand_weapon_spec(slots, param_ids, Side::Left, left_param) {
        Err(e) => Err((Side::Left, e)),
        Ok(l) => match hand_weapon_spec(slots, param_ids, Side::Right, right_param) {
            Err(e) => Err((Side::Right, e)),
            Ok(r) => Ok(
                EquippedWeapons {
                    left: (l, slots.left_weapon_slot),
                    right: (r, slots.left_weapon_slot),
                },
            ),
        },
    }
}

/// Reads the weapons in both hands. `left_param` and `right_param` are the repository's
/// entries under the parameter ids of the two raw ids that `weapon_raw_id` gives.
pub fn init_weapons(
    slots: WeaponSlots,
    param_ids: &[i32],
    left_param: Option<WeaponParam>,
    right_param: Option<WeaponParam>,
) -> (r: Result<EquippedWeapons, (Side, WeaponError)>)
    ensures
        r == init_weapons_spec(slots, param_ids@, left_param, right_param),
{
    let left = match weapon_raw_id(slots, param_ids, Side::Left) {
        Err(e) => return Err((Side::Left, e)),
        Ok(raw) => match weapon_lookup(raw, left_param) {
            Err(e) => return Err((Side::Left, WeaponError::Lookup(e))),
            Ok(w) => w,
        },
    };
    let right = match weapon_raw_id(slots, param_ids, Side::Right) {
        Err(e) => return Err((Side::Right, e)),
        Ok(raw) => match weapon_lookup(raw, right_param) {
            Err(e) => return Err((Side::Right, WeaponError::Lookup(e))),
            Ok(w) => w,
        },
    };
    Ok(
        EquippedWeapons {
            left: (left, slots.left_weapon_slot),
            right: (right, slots.left_weapon_slot),
        },
    )
}

/// The cached list of equipped spells with its length as an `i32`.
pub struct MagicTable {
    pub magics: Vec<Magic>,
    pub len: i32,
}

/// The length recorded for a list of `n` spells: `n` itself, or zero when it does not fit.
pub open spec fn recorded_len(n: nat) -> i32 {
    if n <= i32::MAX {
        n as i32
    } else {
        0
    }
}

/// Builds the spell table from the equipped spells.
pub fn init_magic(magics: Vec<Magic>) -> (r: MagicTable)
    ensures
        r.magics@ == magics@,
        r.len == recorded_len(magics@.len()),
{
    let len: i32 = if magics.len() <= 0x7fff_ffff {
        magics.len() as i32
    } else {
        0
    };
    MagicTable { magics, len }
}

/// What the game state last read holds: the equipped spells and weapons, each read on first use.
pub struct GameCache {
    pub magics: Option<MagicTable>,
    pub weapons: Option<EquippedWeapons>,
}

impl GameCache {
    /// A cache that has read nothing yet.
    pub fn new() -> (r: GameCache)
        ensures
            r.magics is None,
            r.weapons is None,
    {
        GameCache { magics: None, weapons: None }
    }
}

/// Replaces the cached spells by the spells equipped now.
pub fn refresh_magic(cache: &mut GameCache, equipped: Vec<Magic>)
    ensures
        final(cache).weapons == old(cache).weapons,
        final(cache).magics matches Some(t) && t.magics@ == equipped@ && t.len == recorded_len(
            equipped@.len(),
        ),
{
    cache.magics = Some(init_magic(equipped));
}

/// Replaces the cached weapons by the weapons held now.
pub fn refresh_weapons(cache: &mut GameCache, weapons: EquippedWeapons)
    ensures
        final(cache).magics == old(cache).magics,
        final(cache).weapons == Some(weapons),
{
    cache.weapons = Some(weapons);
}

/// Replaces both the cached spells and the cached weapons.
pub fn refresh_all(cache: &mut GameCache, equipped: Vec<Magic>, weapons: EquippedWeapons)
    ensures
        final(cache).magics matches Some(t) && t.magics@ == equipped@ && t.len == recorded_len(
            equipped@.len(),
        ),
        final(cache).weapons == Some(weapons),
{
    refresh_magic(cache, equipped);
    refresh_weapons(cache, weapons);
}

} // verus!
