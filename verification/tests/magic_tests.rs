use er_controls::magic::{
    equipped_magic, init_magic, init_weapons, magic_lookup, refresh_all, refresh_magic,
    refresh_weapons, weapon_lookup, weapon_param_id, weapon_raw_id, EquippedWeapons, GameCache,
    LookupError, Magic, MagicParam, MagicType, Side, Weapon, WeaponError, WeaponParam, WeaponSlots,
};

fn magic(t: MagicType) -> Magic {
    Magic { magic_type: t, cost: 10 }
}

#[test]
fn magic_lookup_reads_school_and_cost() {
    let p = |c| Some(MagicParam { sp_effect_category: c, mp: 25 });
    assert_eq!(magic_lookup(4000, p(3)), Ok(Magic { magic_type: MagicType::Sorcery, cost: 25 }));
    assert_eq!(magic_lookup(4000, p(4)), Ok(Magic { magic_type: MagicType::Incantation, cost: 25 }));
    assert_eq!(magic_lookup(4000, p(0)), Ok(Magic { magic_type: MagicType::Neither, cost: 25 }));
}

#[test]
fn magic_lookup_errors() {
    assert_eq!(magic_lookup(-1, Some(MagicParam { sp_effect_category: 3, mp: 1 })), Err(LookupError::NegativeId));
    assert_eq!(magic_lookup(12, None), Err(LookupError::ParamNotFound));
}

#[test]
fn equipped_magic_keeps_found_spells_in_order() {
    let lookups = vec![
        Ok(magic(MagicType::Sorcery)),
        Err(LookupError::NegativeId),
        Ok(magic(MagicType::Incantation)),
        Err(LookupError::ParamNotFound),
    ];
    assert_eq!(equipped_magic(&lookups), vec![magic(MagicType::Sorcery), magic(MagicType::Incantation)]);
}

#[test]
fn weapon_param_id_clears_last_four_digits() {
    assert_eq!(weapon_param_id(1234567), Ok(1230000));
    assert_eq!(weapon_param_id(9999), Ok(0));
    assert_eq!(weapon_param_id(0), Err(LookupError::ZeroId));
    assert_eq!(weapon_param_id(-5), Err(LookupError::IdOutOfRange));
}

#[test]
fn weapon_lookup_reads_school() {
    let p = |m, i| Some(WeaponParam { enable_magic: m, enable_miracle: i });
    assert_eq!(weapon_lookup(33000000, p(1, 1)), Ok(Weapon { magic_type: MagicType::Both }));
    assert_eq!(weapon_lookup(33000000, p(1, 0)), Ok(Weapon { magic_type: MagicType::Sorcery }));
    assert_eq!(weapon_lookup(33000000, p(0, 1)), Ok(Weapon { magic_type: MagicType::Incantation }));
    assert_eq!(weapon_lookup(33000000, p(0, 0)), Ok(Weapon { magic_type: MagicType::Neither }));
    assert_eq!(weapon_lookup(33000000, p(2, 1)), Ok(Weapon { magic_type: MagicType::Neither }));
    assert_eq!(weapon_lookup(33000000, None), Err(LookupError::ParamNotFound));
    assert_eq!(weapon_lookup(0, p(1, 1)), Err(LookupError::ZeroId));
}

#[test]
fn weapons_are_read_from_slot_indices() {
    let slots = WeaponSlots { left_weapon_slot: 1, right_weapon_slot: 0 };
    let ids = [10, 11, 12, 13];
    assert_eq!(weapon_raw_id(slots, &ids, Side::Left), Ok(12));
    assert_eq!(weapon_raw_id(slots, &ids, Side::Right), Ok(11));
    let far = WeaponSlots { left_weapon_slot: 2, right_weapon_slot: 0 };
    assert_eq!(weapon_raw_id(far, &ids, Side::Left), Err(WeaponError::BadIndex));
    let huge = WeaponSlots { left_weapon_slot: u32::MAX, right_weapon_slot: 0 };
    assert_eq!(weapon_raw_id(huge, &ids, Side::Left), Err(WeaponError::SlotOverflow));
}

#[test]
fn init_weapons_records_left_slot_in_both_hands() {
    let slots = WeaponSlots { left_weapon_slot: 1, right_weapon_slot: 0 };
    let ids = [10000, 20000, 30000, 40000];
    let staff = Some(WeaponParam { enable_magic: 1, enable_miracle: 0 });
    let seal = Some(WeaponParam { enable_magic: 0, enable_miracle: 1 });
    let w = init_weapons(slots, &ids, staff, seal).unwrap();
    assert_eq!(w.left, (Weapon { magic_type: MagicType::Sorcery }, 1));
    assert_eq!(w.right, (Weapon { magic_type: MagicType::Incantation }, 1));
    assert_eq!(
        init_weapons(slots, &ids, None, seal),
        Err((Side::Left, WeaponError::Lookup(LookupError::ParamNotFound)))
    );
    assert_eq!(
        init_weapons(slots, &ids, staff, None),
        Err((Side::Right, WeaponError::Lookup(LookupError::ParamNotFound)))
    );
}

#[test]
fn spell_table_and_cache_refresh() {
    let t = init_magic(vec![magic(MagicType::Sorcery), magic(MagicType::Neither)]);
    assert_eq!(t.len, 2);
    let mut cache = GameCache::new();
    assert!(cache.magics.is_none() && cache.weapons.is_none());
    refresh_magic(&mut cache, vec![magic(MagicType::Incantation)]);
    assert_eq!(cache.magics.as_ref().unwrap().len, 1);
    let w = EquippedWeapons {
        left: (Weapon { magic_type: MagicType::Sorcery }, 0),
        right: (Weapon { magic_type: MagicType::Both }, 0),
    };
    refresh_weapons(&mut cache, w);
    assert_eq!(cache.weapons, Some(w));
    refresh_all(&mut cache, vec![], w);
    assert_eq!(cache.magics.as_ref().unwrap().len, 0);
    assert_eq!(cache.weapons, Some(w));
}
