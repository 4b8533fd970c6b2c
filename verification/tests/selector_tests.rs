use er_controls::cast_slot::{cast_slot, request_actions, CastHand, SpellError};
use er_controls::magic::{EquippedWeapons, Magic, MagicType, Weapon};
use er_controls::magic::MagicType::{Both, Incantation, Neither, Sorcery};
use er_controls::no_miscast::{miscast_intentional, miscast_kind, notify_hand, Miscast, RedirectError, LEFT, RIGHT};
use er_controls::settings::{Config, ConfigValue};
use er_controls::spell_selector::{
    action, begin_slot, bound_slot, end_slot, frame_begin, frame_end, get_end_slot,
    needs_weapons, parse_command, temp_slot, to_slot, ActionError, Settings, SlotError,
    SpellCommand, SpellSelector,
};

fn magics(types: &[MagicType]) -> Vec<Magic> {
    types.iter().map(|&t| Magic { magic_type: t, cost: 0 }).collect()
}

fn weapons(left: MagicType, right: MagicType) -> EquippedWeapons {
    EquippedWeapons { left: (Weapon { magic_type: left }, 0), right: (Weapon { magic_type: right }, 0) }
}

fn settings(auto_refresh: bool, no_miscast: bool, cast_slot: bool) -> Settings {
    Settings { auto_refresh, no_miscast, cast_slot }
}

#[test]
fn new_selector_starts_at_slot_zero() {
    let sel = SpellSelector::new(settings(false, false, false));
    assert_eq!(end_slot(&sel), Some(0));
    assert_eq!(get_end_slot(&sel), 0);
    assert_eq!(sel.casting, 0);
    assert!(sel.cache.magics.is_none());
}

#[test]
fn bound_slot_wraps_around() {
    let fresh = magics(&[MagicType::Sorcery, MagicType::Incantation, MagicType::Neither]);
    let mut sel = SpellSelector::new(settings(false, false, false));
    assert_eq!(bound_slot(&mut sel, 4, &fresh), Some(1));
    assert_eq!(bound_slot(&mut sel, -1, &fresh), Some(2));
    assert_eq!(bound_slot(&mut sel, -3, &fresh), Some(0));
    assert_eq!(bound_slot(&mut sel, 2, &fresh), Some(2));
}

#[test]
fn bound_slot_without_spells_fails() {
    let mut sel = SpellSelector::new(settings(false, false, false));
    assert_eq!(bound_slot(&mut sel, 1, &vec![]), None);
    assert_eq!(to_slot(&mut sel, 1, &vec![]), Err(SlotError::NoBoundSlot));
    assert_eq!(end_slot(&sel), Some(0));
}

#[test]
fn cache_is_read_once_without_auto_refresh() {
    let mut sel = SpellSelector::new(settings(false, false, false));
    let first = magics(&[MagicType::Sorcery, MagicType::Sorcery]);
    let later = magics(&[MagicType::Sorcery; 5]);
    assert_eq!(to_slot(&mut sel, 3, &first), Ok(()));
    assert_eq!(end_slot(&sel), Some(1));
    assert_eq!(to_slot(&mut sel, 3, &later), Ok(()));
    assert_eq!(end_slot(&sel), Some(1));
}

#[test]
fn cache_is_refreshed_with_auto_refresh() {
    let mut sel = SpellSelector::new(settings(true, false, false));
    let first = magics(&[MagicType::Sorcery, MagicType::Sorcery]);
    let later = magics(&[MagicType::Sorcery; 5]);
    assert_eq!(to_slot(&mut sel, 3, &first), Ok(()));
    assert_eq!(end_slot(&sel), Some(1));
    assert_eq!(to_slot(&mut sel, 3, &later), Ok(()));
    assert_eq!(end_slot(&sel), Some(3));
}

#[test]
fn temporary_slot_is_taken_once() {
    let fresh = magics(&[MagicType::Sorcery; 4]);
    let mut sel = SpellSelector::new(settings(false, false, false));
    assert_eq!(begin_slot(&mut sel), None);
    assert_eq!(temp_slot(&mut sel, 6, &fresh), Ok(()));
    assert_eq!(begin_slot(&mut sel), Some(2));
    assert_eq!(begin_slot(&mut sel), None);
    assert_eq!(end_slot(&sel), Some(0));
}

#[test]
fn frames_apply_slots_only_with_a_player() {
    let fresh = magics(&[MagicType::Sorcery; 4]);
    let mut sel = SpellSelector::new(settings(false, false, false));
    temp_slot(&mut sel, 3, &fresh).unwrap();
    assert_eq!(frame_begin(&mut sel, false), None);
    assert_eq!(frame_begin(&mut sel, true), Some(3));
    assert_eq!(frame_begin(&mut sel, true), None);
    assert_eq!(frame_end(&sel, true), Some(0));
    assert_eq!(frame_end(&sel, false), None);
}

#[test]
fn commands_are_parsed() {
    assert_eq!(parse_command("notify_righthand"), Some(SpellCommand::NotifyRightHand));
    assert_eq!(parse_command("notify_lefthand"), Some(SpellCommand::NotifyLeftHand));
    assert_eq!(parse_command("next"), Some(SpellCommand::Next));
    assert_eq!(parse_command("prev"), Some(SpellCommand::Prev));
    assert_eq!(parse_command("cast"), Some(SpellCommand::Cast(None)));
    assert_eq!(parse_command("to_5"), Some(SpellCommand::To(5)));
    assert_eq!(parse_command("to_-2"), Some(SpellCommand::To(-2)));
    assert_eq!(parse_command("cast_3"), Some(SpellCommand::Cast(Some(3))));
    assert_eq!(parse_command("temp_1"), Some(SpellCommand::Temp(1)));
    assert_eq!(parse_command("to_x"), None);
    assert_eq!(parse_command("jump"), None);
    assert_eq!(parse_command("to_"), None);
}

#[test]
fn next_and_prev_walk_the_slots() {
    let fresh = magics(&[MagicType::Sorcery; 3]);
    let mut sel = SpellSelector::new(settings(false, false, false));
    assert_eq!(action(&mut sel, "next", &fresh, None), Ok(()));
    assert_eq!(end_slot(&sel), Some(1));
    assert_eq!(action(&mut sel, "prev", &fresh, None), Ok(()));
    assert_eq!(action(&mut sel, "prev", &fresh, None), Ok(()));
    assert_eq!(end_slot(&sel), Some(2));
    assert_eq!(action(&mut sel, "next", &fresh, None), Ok(()));
    assert_eq!(end_slot(&sel), Some(0));
}

#[test]
fn next_at_the_largest_slot_overflows() {
    let mut sel = SpellSelector::new(settings(false, false, false));
    sel.slots.persist = i32::MAX;
    assert_eq!(action(&mut sel, "next", &vec![], None), Err(ActionError::SlotOverflow));
    sel.slots.persist = i32::MIN;
    assert_eq!(action(&mut sel, "prev", &vec![], None), Err(ActionError::SlotOverflow));
}

#[test]
fn unknown_action_is_reported() {
    let mut sel = SpellSelector::new(settings(false, false, false));
    assert_eq!(action(&mut sel, "fly", &vec![], None), Err(ActionError::UnknownControl));
}

#[test]
fn to_and_temp_actions() {
    let fresh = magics(&[MagicType::Sorcery; 5]);
    let mut sel = SpellSelector::new(settings(false, false, false));
    assert_eq!(action(&mut sel, "to_7", &fresh, None), Ok(()));
    assert_eq!(end_slot(&sel), Some(2));
    assert_eq!(action(&mut sel, "temp_4", &fresh, None), Ok(()));
    assert_eq!(begin_slot(&mut sel), Some(4));
}

#[test]
fn cast_picks_the_hand_able_to_cast() {
    let fresh = magics(&[MagicType::Sorcery, MagicType::Incantation]);
    let w = weapons(MagicType::Incantation, MagicType::Sorcery);
    let mut sel = SpellSelector::new(settings(false, false, true));
    assert_eq!(cast_slot(&mut sel, None, &fresh, Some(w)), (Ok(()), Ok(())));
    assert_eq!(sel.casting, 1);
    assert_eq!(cast_slot(&mut sel, Some(1), &fresh, Some(w)), (Ok(()), Ok(())));
    assert_eq!(end_slot(&sel), Some(1));
    assert_eq!(sel.casting, 0);
    let none = weapons(MagicType::Neither, MagicType::Neither);
    let mut other = SpellSelector::new(settings(false, false, true));
    assert_eq!(cast_slot(&mut other, None, &fresh, Some(none)), (Ok(()), Ok(())));
    assert_eq!(other.casting, 2);
}

#[test]
fn cast_errors() {
    let fresh = magics(&[MagicType::Sorcery]);
    let w = weapons(MagicType::Sorcery, MagicType::Sorcery);
    let mut off = SpellSelector::new(settings(false, false, false));
    assert_eq!(cast_slot(&mut off, None, &fresh, Some(w)), (Ok(()), Err(SpellError::Off)));
    let mut on = SpellSelector::new(settings(false, false, true));
    assert_eq!(cast_slot(&mut on, None, &fresh, None), (Ok(()), Err(SpellError::WeaponsUnavailable)));
    on.slots.persist = 3;
    assert_eq!(cast_slot(&mut on, None, &fresh, Some(w)), (Ok(()), Err(SpellError::BadPersistIndex)));
    on.slots.persist = -1;
    assert_eq!(cast_slot(&mut on, None, &fresh, Some(w)), (Ok(()), Err(SpellError::NegativeSlot)));
}

#[test]
fn cast_request_is_made_once() {
    let fresh = magics(&[MagicType::Sorcery]);
    let mut sel = SpellSelector::new(settings(false, false, true));
    cast_slot(&mut sel, None, &fresh, Some(weapons(MagicType::Neither, MagicType::Sorcery))).1.unwrap();
    assert_eq!(request_actions(&mut sel, false), None);
    assert_eq!(request_actions(&mut sel, true), Some(CastHand::Right));
    assert_eq!(request_actions(&mut sel, true), None);
    assert_eq!(sel.casting, 2);
}

#[test]
fn initial_casting_record_is_the_left_hand() {
    let mut sel = SpellSelector::new(settings(false, false, false));
    assert_eq!(request_actions(&mut sel, true), Some(CastHand::Left));
}

#[test]
fn miscast_kinds() {
    assert_eq!(miscast_kind(Sorcery, Incantation, Incantation), Miscast::Intentional);
    assert_eq!(miscast_kind(Sorcery, Both, Incantation), Miscast::Intentional);
    assert_eq!(miscast_kind(Incantation, Sorcery, Sorcery), Miscast::Intentional);
    assert_eq!(miscast_kind(Sorcery, Neither, Incantation), Miscast::Unintentional);
    assert_eq!(miscast_kind(Incantation, Incantation, Sorcery), Miscast::Unintentional);
    assert_eq!(miscast_kind(Sorcery, Incantation, Sorcery), Miscast::Match);
    assert_eq!(miscast_kind(Both, Neither, Sorcery), Miscast::Match);
    assert_eq!(miscast_kind(Sorcery, Neither, Neither), Miscast::Match);
}

#[test]
fn notify_redirects_a_mismatched_spell() {
    // Spells: 0 sorcery, 1 incantation. Left hand holds a seal, right hand a staff.
    let fresh = magics(&[Sorcery, Incantation]);
    let w = weapons(Incantation, Sorcery);
    let mut sel = SpellSelector::new(settings(false, true, false));
    assert_eq!(notify_hand(&mut sel, LEFT, &fresh, Some(w)), Ok(()));
    assert_eq!(begin_slot(&mut sel), Some(1));
    assert_eq!(notify_hand(&mut sel, RIGHT, &fresh, Some(w)), Ok(()));
    assert_eq!(begin_slot(&mut sel), None);
    assert_eq!(notify_hand(&mut sel, 7, &fresh, Some(w)), Err(SpellError::BadHand));
}

#[test]
fn notify_also_redirects_when_neither_hand_can_cast() {
    let fresh = magics(&[Sorcery, Incantation]);
    let w = weapons(Incantation, Neither);
    let mut sel = SpellSelector::new(settings(false, true, false));
    assert_eq!(notify_hand(&mut sel, LEFT, &fresh, Some(w)), Ok(()));
    assert_eq!(begin_slot(&mut sel), Some(1));
}

#[test]
fn notify_is_off_unless_enabled() {
    let mut sel = SpellSelector::new(settings(false, false, false));
    assert_eq!(notify_hand(&mut sel, LEFT, &vec![], None), Err(SpellError::Off));
}

#[test]
fn miscast_redirect_uses_the_pairing_table() {
    let fresh = magics(&[Sorcery, Incantation, Sorcery, Incantation]);
    let mut sel = SpellSelector::new(settings(false, false, false));
    to_slot(&mut sel, 2, &fresh).unwrap();
    assert_eq!(miscast_intentional(&mut sel, &fresh), Ok(()));
    assert_eq!(begin_slot(&mut sel), Some(3));
}

#[test]
fn miscast_redirect_errors() {
    let only_sorceries = magics(&[Sorcery, Sorcery]);
    let mut sel = SpellSelector::new(settings(false, false, false));
    to_slot(&mut sel, 1, &only_sorceries).unwrap();
    assert_eq!(miscast_intentional(&mut sel, &only_sorceries), Err(RedirectError::InvalidSplitIndex));
    assert_eq!(begin_slot(&mut sel), None);
    sel.slots.persist = -1;
    assert_eq!(miscast_intentional(&mut sel, &only_sorceries), Err(RedirectError::NegativeSlot));
}

#[test]
fn notify_reports_a_failed_redirect() {
    let fresh = magics(&[Sorcery, Sorcery]);
    let w = weapons(Incantation, Neither);
    let mut sel = SpellSelector::new(settings(false, true, false));
    assert_eq!(
        notify_hand(&mut sel, LEFT, &fresh, Some(w)),
        Err(SpellError::Redirect(RedirectError::InvalidSplitIndex))
    );
    assert_eq!(
        action(&mut sel, "notify_lefthand", &fresh, None),
        Err(ActionError::Spell(SpellError::Redirect(RedirectError::InvalidSplitIndex)))
    );
}

#[test]
fn inner_failures_are_reported_by_actions() {
    let mut sel = SpellSelector::new(settings(false, false, false));
    assert_eq!(action(&mut sel, "to_3", &vec![], None), Err(ActionError::Slot(SlotError::NoBoundSlot)));
    assert_eq!(action(&mut sel, "temp_3", &vec![], None), Err(ActionError::Slot(SlotError::NoBoundSlot)));
    assert_eq!(action(&mut sel, "next", &vec![], None), Err(ActionError::Slot(SlotError::NoBoundSlot)));
    assert_eq!(action(&mut sel, "cast", &vec![], None), Ok(()));
    assert_eq!(action(&mut sel, "notify_righthand", &vec![], None), Ok(()));
    let w = weapons(Sorcery, Sorcery);
    let mut on = SpellSelector::new(settings(false, false, true));
    assert_eq!(
        action(&mut on, "cast_2", &vec![], Some(w)),
        Err(ActionError::SlotAndSpell(SlotError::NoBoundSlot, SpellError::BadPersistIndex))
    );
    let fresh = magics(&[Sorcery]);
    let mut on = SpellSelector::new(settings(false, false, true));
    assert_eq!(action(&mut on, "cast_5", &fresh, Some(w)), Ok(()));
    on.slots.persist = 4;
    assert_eq!(action(&mut on, "cast", &fresh, None), Err(ActionError::Spell(SpellError::BadPersistIndex)));
    assert_eq!(cast_slot(&mut on, Some(0), &vec![], None).0, Ok(()));
}

#[test]
fn weapons_are_needed_only_by_enabled_features() {
    let mut sel = SpellSelector::new(settings(false, true, false));
    assert!(needs_weapons(&sel, "notify_lefthand"));
    assert!(!needs_weapons(&sel, "cast"));
    assert!(!needs_weapons(&sel, "next"));
    sel.cache.weapons = Some(weapons(MagicType::Sorcery, MagicType::Sorcery));
    assert!(!needs_weapons(&sel, "notify_lefthand"));
    sel.settings.auto_refresh = true;
    assert!(needs_weapons(&sel, "notify_righthand"));
}

#[test]
fn settings_are_read_from_the_section() {
    let section = ConfigValue::Table(vec![
        ("auto_refresh".to_string(), ConfigValue::Boolean(true)),
        ("no_miscast".to_string(), ConfigValue::Integer(1)),
    ]);
    let config = Config { defaults: None, file: Some(section) };
    let s = Settings::from_config(&config);
    assert_eq!(s, Settings { auto_refresh: true, no_miscast: false, cast_slot: false });
}
