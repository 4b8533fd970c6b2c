//! Properties of the spell selector that relate several of its operations.
use vstd::prelude::*;
use vstd::arithmetic::div_mod::{lemma_mod_twice, lemma_sub_mod_noop};
use crate::cast_slot::request_actions_spec;
use crate::no_miscast::{can_cast, miscast_redirect_spec, law_miscast_classification};
use crate::split_magic::is_spell_school;
use crate::magic::{EquippedWeapons, Magic};
use crate::spell_selector::{
    action_spec, after_bound, begin_slot_spec, bound_slot_spec, command_spec, magic_count,
    needs_weapons_spec, temp_slot_spec, to_slot_spec, SelectorView, SpellCommand,
};

verus! {

/// A spell table is valid when its recorded length is the one recorded for its spells.
pub open spec fn table_valid(v: SelectorView) -> bool {
    v.magics matches Some(t) ==> t.1 == crate::magic::recorded_len(t.0.len())
}

/// A bound slot lies in the range of the spells and differs from the raw slot by a multiple of
/// their number.
pub proof fn law_bound_slot_in_range(raw_slot: i32, len: i32)
    requires
        len > 0,
    ensures
        bound_slot_spec(raw_slot, len) matches Some(s) && 0 <= s < len && s == raw_slot % len,
{
}

/// A temporary slot is handed out exactly once: the first frame after it is set takes it and
/// the next frame finds none.
pub proof fn law_temp_slot_taken_once(v: SelectorView, raw_slot: i32, fresh: Seq<Magic>)
    requires
        bound_slot_spec(raw_slot, magic_count(after_bound(v, fresh))) is Some,
    ensures
        ({
            let set = temp_slot_spec(v, raw_slot, fresh);
            let (first, after) = begin_slot_spec(set);
            let (second, _) = begin_slot_spec(after);
            &&& first == bound_slot_spec(raw_slot, magic_count(after_bound(v, fresh)))
            &&& second is None
            &&& after.slots.persist == v.slots.persist
        }),
{
}

/// After moving to a slot, the slot applied at the end of each frame is that slot brought into
/// range; a slot that cannot be brought into range leaves the persistent slot as it was.
pub proof fn law_to_slot_then_end_slot(v: SelectorView, raw_slot: i32, fresh: Seq<Magic>)
    ensures
        to_slot_spec(v, raw_slot, fresh).slots.persist == match bound_slot_spec(
            raw_slot,
            magic_count(after_bound(v, fresh)),
        ) {
            Some(s) => s,
            None => v.slots.persist,
        },
        to_slot_spec(v, raw_slot, fresh).slots.temp == v.slots.temp,
{
}

/// Moving to the next slot and then to the previous one, with the same spells equipped, comes
/// back to the starting slot (brought into the range of the spells); both moves succeed
/// exactly when some spell is equipped, and without one the slot stays where it was.
pub proof fn law_next_then_prev(v: SelectorView, fresh: Seq<Magic>, weapons: Option<EquippedWeapons>)
    requires
        i32::MIN < v.slots.persist < i32::MAX,
        table_valid(v),
    ensures
        ({
            let (v1, r1) = action_spec(v, "next"@, fresh, weapons);
            let (v2, r2) = action_spec(v1, "prev"@, fresh, weapons);
            let len = magic_count(after_bound(v, fresh)) as int;
            &&& r1 is Ok <==> len != 0
            &&& r2 is Ok <==> len != 0
            &&& v2.slots.persist == if len == 0 {
                v.slots.persist as int
            } else {
                (v.slots.persist as int) % len
            }
        }),
{
    reveal_strlit("next");
    reveal_strlit("prev");
    reveal_strlit("notify_righthand");
    reveal_strlit("notify_lefthand");
    reveal_strlit("cast");
    reveal_strlit("to_");
    reveal_strlit("cast_");
    reveal_strlit("temp_");
    assert("next"@.len() == 4);
    assert("notify_righthand"@.len() == 16);
    assert("next"@ != "notify_righthand"@);
    assert(command_spec("next"@) == Some(SpellCommand::Next));
    assert("notify_lefthand"@.len() == 15);
    assert("prev"@.len() == 4);
    assert("prev"@[0] == 'p' && "next"@[0] == 'n');
    assert("prev"@ != "next"@);
    assert("prev"@ != "notify_righthand"@);
    assert("prev"@ != "notify_lefthand"@);
    assert(command_spec("prev"@) == Some(SpellCommand::Prev));
    let p = v.slots.persist as int;
    let w = after_bound(v, fresh);
    let len = magic_count(w) as int;
    assert(len >= 0);
    let (v1, r1) = action_spec(v, "next"@, fresh, weapons);
    assert(v1 == to_slot_spec(v, (p + 1) as i32, fresh));
    assert(after_bound(v1, fresh).magics == w.magics);
    assert(magic_count(after_bound(v1, fresh)) as int == len);
    let (v2, r2) = action_spec(v1, "prev"@, fresh, weapons);
    assert(v1.slots.persist - 1 >= i32::MIN);
    assert(v2 == to_slot_spec(v1, (v1.slots.persist - 1) as i32, fresh));
    if len != 0 {
        let p1 = (p + 1) % len;
        assert(v1.slots.persist == p1);
        assert(0 <= p1 < len);
        lemma_sub_mod_noop(p + 1, 1, len);
        if len == 1 {
            assert((p1 - 1) % len == 0);
            assert(p % len == 0);
        } else {
            vstd::arithmetic::div_mod::lemma_small_mod(1, len as nat);
            assert(1int % len == 1);
            assert((p1 - 1) % len == p % len);
            assert(bound_slot_spec((p1 - 1) as i32, len as i32) == Some(((p1 - 1) % len) as i32));
        }
    }
}

/// A cast request is made at most once for each recorded hand: right after a request, another
/// request makes none.
pub proof fn law_cast_request_made_once(v: SelectorView, player_present: bool)
    ensures
        ({
            let (_, after) = request_actions_spec(v, player_present);
            let (second, _) = request_actions_spec(after, player_present);
            request_actions_spec(v, player_present).0 is Some ==> second is None
        }),
{
}

/// The weapons held now matter to an action only when `needs_weapons` says so: otherwise the
/// action gives the same state and result whatever weapons are handed in.
pub proof fn law_weapons_read_only_when_needed(
    v: SelectorView,
    action: Seq<char>,
    fresh: Seq<Magic>,
    first: Option<EquippedWeapons>,
    second: Option<EquippedWeapons>,
)
    requires
        !needs_weapons_spec(v, action),
    ensures
        action_spec(v, action, fresh, first) == action_spec(v, action, fresh, second),
{
}

/// A hand notification is about the weapon in the hand it names. When that hand's weapon can
/// cast the spell in the persistent slot, the notification changes nothing and reports nothing;
/// when that weapon is of one spell school and the spell of the other, the selection is
/// redirected for one frame. (Here the weapons and spells are already read and not refreshed.)
pub proof fn law_notify_uses_the_named_hand(v: SelectorView, fresh: Seq<Magic>, weapons: Option<EquippedWeapons>)
    requires
        v.settings.no_miscast,
        !v.settings.auto_refresh,
        v.weapons is Some,
        v.magics is Some,
        0 <= v.slots.persist < (v.magics->0).0.len(),
    ensures
        ({
            let right = v.weapons->0.right.0.magic_type;
            let left = v.weapons->0.left.0.magic_type;
            let spell = (v.magics->0).0[v.slots.persist as int].magic_type;
            &&& can_cast(right, spell) ==> action_spec(v, "notify_righthand"@, fresh, weapons) == (v, Ok::<(), crate::spell_selector::ActionError>(()))
            &&& can_cast(left, spell) ==> action_spec(v, "notify_lefthand"@, fresh, weapons) == (v, Ok::<(), crate::spell_selector::ActionError>(()))
            &&& is_spell_school(right) && is_spell_school(spell) && !can_cast(right, spell) ==> action_spec(
                v,
                "notify_righthand"@,
                fresh,
                weapons,
            ).0 == miscast_redirect_spec(v, fresh).0
            &&& is_spell_school(left) && is_spell_school(spell) && !can_cast(left, spell) ==> action_spec(
                v,
                "notify_lefthand"@,
                fresh,
                weapons,
            ).0 == miscast_redirect_spec(v, fresh).0
        }),
{
    reveal_strlit("notify_righthand");
    reveal_strlit("notify_lefthand");
    assert("notify_righthand"@.len() == 16);
    assert("notify_lefthand"@.len() == 15);
    assert("notify_lefthand"@ != "notify_righthand"@);
    assert(command_spec("notify_righthand"@) == Some(SpellCommand::NotifyRightHand));
    assert(command_spec("notify_lefthand"@) == Some(SpellCommand::NotifyLeftHand));
    let w = v.weapons->0;
    let spell = (v.magics->0).0[v.slots.persist as int].magic_type;
    law_miscast_classification(w.right.0.magic_type, w.left.0.magic_type, spell);
    law_miscast_classification(w.left.0.magic_type, w.right.0.magic_type, spell);
}

} // verus!
