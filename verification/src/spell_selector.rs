//! The spell selector: a persistent slot kept across frames, a temporary slot used for a single
//! frame, the hand that is about to cast, and the cached spells and weapons these are checked
//! against. Every operation takes the spells equipped now (and, where it needs them, the weapons
//! held now) and decides itself whether to refresh its cache from them.
use vstd::prelude::*;
use crate::magic::{EquippedWeapons, GameCache, Magic, MagicTable, MagicType, recorded_len};
use crate::text::{parse_i32, parse_i32_spec, str_eq, strip_prefix};
use crate::settings::{bool_setting, query_bool, Config};
use crate::cast_slot::{cast_selection_spec, cast_slot, cast_slot_spec, SpellError};
use crate::no_miscast::{notify_hand, notify_hand_spec, LEFT, RIGHT};

verus! {

/// The switches read from the selector's configuration section.
#[derive(Clone, Copy, Debug, PartialEq, Eq, Structural)]
pub struct Settings {
    pub auto_refresh: bool,
    pub no_miscast: bool,
    pub cast_slot: bool,
}

/// The boolean stored directly under `key`, off unless set.
fn switch(config: &Config, key: &str) -> (r: bool)
    ensures
        r == bool_setting(*config, seq![key@], false),
{
    let mut path: Vec<&str> = Vec::new();
    path.push(key);
    let r = query_bool(config, path.as_slice(), false);
    assert(crate::settings::path_view(path@) =~= seq![key@]);
    r
}

impl Settings {
    /// The switches of the selector's configuration section; each is off unless set.
    pub fn from_config(config: &Config) -> (r: Settings)
        ensures
            r.auto_refresh == bool_setting(*config, seq!["auto_refresh"@], false),
            r.no_miscast == bool_setting(*config, seq!["no_miscast"@], false),
            r.cast_slot == bool_setting(*config, seq!["cast_slot"@], false),
    {
        let auto_refresh = switch(config, "auto_refresh");
        let no_miscast = switch(config, "no_miscast");
        let cast_slot = switch(config, "cast_slot");
        Settings { auto_refresh, no_miscast, cast_slot }
    }
}

/// The persistent slot, and the temporary slot with the flag that says it is waiting.
#[derive(Clone, Copy, Debug, PartialEq, Eq)]
pub struct MagicSlots {
    pub persist: i32,
    pub temp: (i32, bool),
}

/// The hand that casts: 0 is the left hand, 1 the right hand, 2 means that nothing is cast.
pub const LEFT_HAND: u8 = 0;

/// See `LEFT_HAND`.
pub const RIGHT_HAND: u8 = 1;

/// See `LEFT_HAND`.
pub const NOT_CASTING: u8 = 2;

/// The whole state of the spell selector.
pub struct SpellSelector {
    pub settings: Settings,
    pub slots: MagicSlots,
    pub casting: u8,
    pub cache: GameCache,
}

/// The abstract state of the selector: the cached spell table is seen as its spells and its
/// recorded length.
pub struct SelectorView {
    pub settings: Settings,
    pub slots: MagicSlots,
    pub casting: u8,
    pub magics: Option<(Seq<Magic>, i32)>,
    pub weapons: Option<EquippedWeapons>,
}

/// The abstract view of a spell table.
pub open spec fn table_view(t: Option<MagicTable>) -> Option<(Seq<Magic>, i32)> {
    match t {
        Some(t) => Some((t.magics@, t.len)),
        None => None,
    }
}

impl View for SpellSelector {
    type V = SelectorView;

    open spec fn view(&self) -> SelectorView {
        SelectorView {
            settings: self.settings,
            slots: self.slots,
            casting: self.casting,
            magics: table_view(self.cache.magics),
            weapons: self.cache.weapons,
        }
    }
}

impl SpellSelector {
    /// A selector at slot 0, with no temporary slot, the casting hand at 0 and nothing read yet.
    pub fn new(settings: Settings) -> (r: SpellSelector)
        ensures
            r@.settings == settings,
            r@.slots == (MagicSlots { persist: 0, temp: (0, false) }),
            r@.casting == 0,
            r@.magics is None,
            r@.weapons is None,
    {
        SpellSelector {
            settings,
            slots: MagicSlots { persist: 0, temp: (0, false) },
            casting: 0,
            cache: GameCache::new(),
        }
    }
}

/// The state with the spell table rebuilt from `fresh`.
pub open spec fn with_magics(v: SelectorView, fresh: Seq<Magic>) -> SelectorView {
    SelectorView { magics: Some((fresh, recorded_len(fresh.len()))), ..v }
}

/// The state once the spell table is read: rebuilt from `fresh` when `refresh` is asked for or
/// when nothing was read yet.
pub open spec fn ensure_magics(v: SelectorView, fresh: Seq<Magic>, refresh: bool) -> SelectorView {
    if refresh || v.magics is None {
        with_magics(v, fresh)
    } else {
        v
    }
}

/// The state once the weapons are read: taken from `fresh` when `refresh` is asked for or when
/// nothing was read yet; `None` when they had to be read and `fresh` holds none.
pub open spec fn ensure_weapons(
    v: SelectorView,
    fresh: Option<EquippedWeapons>,
    refresh: bool,
) -> Option<SelectorView> {
    if refresh || v.weapons is None {
        match fresh {
            Some(w) => Some(SelectorView { weapons: Some(w), ..v }),
            None => None,
        }
    } else {
        Some(v)
    }
}

/// The recorded length of the cached spell table.
pub open spec fn magic_count(v: SelectorView) -> i32 {
    match v.magics {
        Some(t) => t.1,
        None => 0,
    }
}

/// A raw slot number brought into the range from zero up to the magnitude of `len` by Euclidean remainder; `None` when there is no
/// spell or the remainder overflows.
pub open spec fn bound_slot_spec(raw_slot: i32, len: i32) -> Option<i32> {
    if len == 0 || (raw_slot == i32::MIN && len == -1) {
        None
    } else {
        Some((raw_slot % len) as i32)
    }
}

/// The state after the spell table is read for bounding a slot.
pub open spec fn after_bound(v: SelectorView, fresh: Seq<Magic>) -> SelectorView {
    ensure_magics(v, fresh, v.settings.auto_refresh)
}

/// The state after moving the persistent slot to `raw_slot`.
pub open spec fn to_slot_spec(v: SelectorView, raw_slot: i32, fresh: Seq<Magic>) -> SelectorView {
    let w = after_bound(v, fresh);
    match bound_slot_spec(raw_slot, magic_count(w)) {
        Some(s) => SelectorView { slots: MagicSlots { persist: s, ..w.slots }, ..w },
        None => w,
    }
}

/// The state after setting the temporary slot to `raw_slot`.
pub open spec fn temp_slot_spec(v: SelectorView, raw_slot: i32, fresh: Seq<Magic>) -> SelectorView {
    let w = after_bound(v, fresh);
    match bound_slot_spec(raw_slot, magic_count(w)) {
        Some(s) => SelectorView { slots: MagicSlots { temp: (s, true), ..w.slots }, ..w },
        None => w,
    }
}

/// Why a slot could not be set.
#[derive(Clone, Copy, Debug, PartialEq, Eq, Structural)]
pub enum SlotError {
    /// There is no spell to select, or the slot number cannot be brought into range.
    NoBoundSlot,
}

fn read_magics(sel: &mut SpellSelector, fresh: &Vec<Magic>, refresh: bool)
    ensures
        final(sel)@ == ensure_magics(old(sel)@, fresh@, refresh),
        final(sel).cache.magics is Some,
{
    if refresh || sel.cache.magics.is_none() {
        let copy = fresh.clone();
        assert(copy@ =~= fresh@);
        sel.cache.magics = Some(crate::magic::init_magic(copy));
    }
}

/// Brings `raw_slot` into the range of the equipped spells, refreshing them first when the
/// settings ask for it.
pub fn bound_slot(sel: &mut SpellSelector, raw_slot: i32, fresh: &Vec<Magic>) -> (r: Option<i32>)
    ensures
        final(sel)@ == after_bound(old(sel)@, fresh@),
        r == bound_slot_spec(raw_slot, magic_count(final(sel)@)),
        r matches Some(s) ==> 0 <= s < (if magic_count(final(sel)@) < 0 {
            -magic_count(final(sel)@)
        } else {
            magic_count(final(sel)@) as int
        }),
{
    let auto = sel.settings.auto_refresh;
    read_magics(sel, fresh, auto);
    let len = match &sel.cache.magics {
        Some(t) => t.len,
        None => 0,
    };
    if len == 0 {
        return None;
    }
    raw_slot.checked_rem_euclid(len)
}

/// Moves the persistent slot to `raw_slot`, brought into the range of the equipped spells.
pub fn to_slot(sel: &mut SpellSelector, raw_slot: i32, fresh: &Vec<Magic>) -> (r: Result<(), SlotError>)
    ensures
        final(sel)@ == to_slot_spec(old(sel)@, raw_slot, fresh@),
        r is Ok <==> bound_slot_spec(raw_slot, magic_count(after_bound(old(sel)@, fresh@))) is Some,
        r matches Err(e) ==> e == SlotError::NoBoundSlot,
{
    match bound_slot(sel, raw_slot, fresh) {
        Some(slot) => {
            sel.slots.persist = slot;
            Ok(())
        },
        None => Err(SlotError::NoBoundSlot),
    }
}

/// Sets the temporary slot to `raw_slot`, brought into the range of the equipped spells, for
/// the next frame.
pub fn temp_slot(sel: &mut SpellSelector, raw_slot: i32, fresh: &Vec<Magic>) -> (r: Result<(), SlotError>)
    ensures
        final(sel)@ == temp_slot_spec(old(sel)@, raw_slot, fresh@),
        r is Ok <==> bound_slot_spec(raw_slot, magic_count(after_bound(old(sel)@, fresh@))) is Some,
        r matches Err(e) ==> e == SlotError::NoBoundSlot,
{
    match bound_slot(sel, raw_slot, fresh) {
        Some(slot) => {
            sel.slots.temp = (slot, true);
            Ok(())
        },
        None => Err(SlotError::NoBoundSlot),
    }
}

/// Taking the temporary slot: when one is waiting it is handed out and its flag cleared.
pub open spec fn begin_slot_spec(v: SelectorView) -> (Option<i32>, SelectorView) {
    if v.slots.temp.1 {
        (
            Some(v.slots.temp.0),
            SelectorView { slots: MagicSlots { temp: (v.slots.temp.0, false), ..v.slots }, ..v },
        )
    } else {
        (None, v)
    }
}

/// Takes the temporary slot if one is waiting: it is handed out once and then cleared.
pub fn begin_slot(sel: &mut SpellSelector) -> (r: Option<i32>)
    ensures
        (r, final(sel)@) == begin_slot_spec(old(sel)@),
{
    if sel.slots.temp.1 {
        sel.slots.temp.1 = false;
        Some(sel.slots.temp.0)
    } else {
        None
    }
}

/// The persistent slot, which is applied at the end of every frame.
pub fn end_slot(sel: &SpellSelector) -> (r: Option<i32>)
    ensures
        r == Some(sel@.slots.persist),
{
    Some(get_end_slot(sel))
}

/// The persistent slot.
pub fn get_end_slot(sel: &SpellSelector) -> (r: i32)
    ensures
        r == sel@.slots.persist,
{
    sel.slots.persist
}

/// The slot to switch to at the start of a frame: the waiting temporary slot, taken only when
/// the player exists.
pub fn frame_begin(sel: &mut SpellSelector, player_present: bool) -> (r: Option<i32>)
    ensures
        !player_present ==> r is None && final(sel)@ == old(sel)@,
        player_present ==> (r, final(sel)@) == begin_slot_spec(old(sel)@),
{
    if !player_present {
        return None;
    }
    begin_slot(sel)
}

/// The slot to switch back to at the end of a frame: the persistent slot, when the player
/// exists.
pub fn frame_end(sel: &SpellSelector, player_present: bool) -> (r: Option<i32>)
    ensures
        r == if player_present {
            Some(sel@.slots.persist)
        } else {
            None
        },
{
    if !player_present {
        return None;
    }
    end_slot(sel)
}

/// A command of the selector's controls.
#[derive(Clone, Copy, Debug, PartialEq, Eq, Structural)]
pub enum SpellCommand {
    NotifyRightHand,
    NotifyLeftHand,
    Next,
    Prev,
    Cast(Option<i32>),
    To(i32),
    Temp(i32),
}

/// The slot number after `prefix` in `s`, when `s` starts with it and the rest is a number.
pub open spec fn prefixed_slot(s: Seq<char>, prefix: Seq<char>) -> Option<i32> {
    if prefix.is_prefix_of(s) {
        parse_i32_spec(s.skip(prefix.len() as int), 10)
    } else {
        None
    }
}

/// The command that a control's action name stands for, if any.
pub open spec fn command_spec(s: Seq<char>) -> Option<SpellCommand> {
    if s == "notify_righthand"@ {
        Some(SpellCommand::NotifyRightHand)
    } else if s == "notify_lefthand"@ {
        Some(SpellCommand::NotifyLeftHand)
    } else if s == "next"@ {
        Some(SpellCommand::Next)
    } else if s == "prev"@ {
        Some(SpellCommand::Prev)
    } else if s == "cast"@ {
        Some(SpellCommand::Cast(None))
    } else if prefixed_slot(s, "to_"@) is Some {
        Some(SpellCommand::To(prefixed_slot(s, "to_"@)->0))
    } else if prefixed_slot(s, "cast_"@) is Some {
        Some(SpellCommand::Cast(Some(prefixed_slot(s, "cast_"@)->0)))
    } else if prefixed_slot(s, "temp_"@) is Some {
        Some(SpellCommand::Temp(prefixed_slot(s, "temp_"@)->0))
    } else {
        None
    }
}

fn prefixed_slot_of(s: &str, prefix: &str) -> (r: Option<i32>)
    ensures
        r == prefixed_slot(s@, prefix@),
{
    match strip_prefix(s, prefix) {
        Some(rest) => parse_i32(rest, 10),
        None => None,
    }
}

/// Reads a control's action name as a command.
pub fn parse_command(action: &str) -> (r: Option<SpellCommand>)
    ensures
        r == command_spec(action@),
{
    if str_eq(action, "notify_righthand") {
        Some(SpellCommand::NotifyRightHand)
    } else if str_eq(action, "notify_lefthand") {
        Some(SpellCommand::NotifyLeftHand)
    } else if str_eq(action, "next") {
        Some(SpellCommand::Next)
    } else if str_eq(action, "prev") {
        Some(SpellCommand::Prev)
    } else if str_eq(action, "cast") {
        Some(SpellCommand::Cast(None))
    } else if let Some(slot) = prefixed_slot_of(action, "to_") {
        Some(SpellCommand::To(slot))
    } else if let Some(slot) = prefixed_slot_of(action, "cast_") {
        Some(SpellCommand::Cast(Some(slot)))
    } else if let Some(slot) = prefixed_slot_of(action, "temp_") {
        Some(SpellCommand::Temp(slot))
    } else {
        None
    }
}

/// Why a control's action did nothing, or did only part of its work.
#[derive(Clone, Copy, Debug, PartialEq, Eq, Structural)]
pub enum ActionError {
    /// Moving to the next or previous slot overflows.
    SlotOverflow,
    /// The action name is not a command of the selector.
    UnknownControl,
    /// The slot could not be moved or set.
    Slot(SlotError),
    /// A hand notification or a cast failed.
    Spell(SpellError),
    /// A cast could not select the slot it names, and then failed too.
    SlotAndSpell(SlotError, SpellError),
}

/// How moving or setting a slot to `raw_slot` went.
pub open spec fn slot_result(v: SelectorView, raw_slot: i32, fresh: Seq<Magic>) -> Result<(), ActionError> {
    if bound_slot_spec(raw_slot, magic_count(after_bound(v, fresh))) is Some {
        Ok(())
    } else {
        Err(ActionError::Slot(SlotError::NoBoundSlot))
    }
}

/// The report of a hand notification or a cast: a feature that is switched off is not
/// reported.
pub open spec fn spell_report(r: Result<(), SpellError>) -> Option<SpellError> {
    match r {
        Err(e) => if e == SpellError::Off {
            None
        } else {
            Some(e)
        },
        Ok(_) => None,
    }
}

/// The report of a cast: that of selecting its slot and that of the cast itself.
pub open spec fn cast_report(selection: Result<(), SlotError>, cast: Result<(), SpellError>) -> Result<(), ActionError> {
    match selection {
        Ok(_) => match spell_report(cast) {
            None => Ok(()),
            Some(e) => Err(ActionError::Spell(e)),
        },
        Err(s) => match spell_report(cast) {
            None => Err(ActionError::Slot(s)),
            Some(e) => Err(ActionError::SlotAndSpell(s, e)),
        },
    }
}

/// What performing a control's action gives: the new state, and the failures that are
/// reported (an unknown action, a slot overflow, a slot that cannot be moved or set, and a
/// notification or cast that fails for any reason but its feature being switched off).
pub open spec fn action_spec(
    v: SelectorView,
    action: Seq<char>,
    fresh_magics: Seq<Magic>,
    fresh_weapons: Option<EquippedWeapons>,
) -> (SelectorView, Result<(), ActionError>) {
    match command_spec(action) {
        None => (v, Err(ActionError::UnknownControl)),
        Some(SpellCommand::NotifyRightHand) => {
            let (w, r) = notify_hand_spec(v, RIGHT, fresh_magics, fresh_weapons);
            (w, cast_report(Ok(()), r))
        },
        Some(SpellCommand::NotifyLeftHand) => {
            let (w, r) = notify_hand_spec(v, LEFT, fresh_magics, fresh_weapons);
            (w, cast_report(Ok(()), r))
        },
        Some(SpellCommand::Next) => if v.slots.persist + 1 > i32::MAX {
            (v, Err(ActionError::SlotOverflow))
        } else {
            (
                to_slot_spec(v, (v.slots.persist + 1) as i32, fresh_magics),
                slot_result(v, (v.slots.persist + 1) as i32, fresh_magics),
            )
        },
        Some(SpellCommand::Prev) => if v.slots.persist - 1 < i32::MIN {
            (v, Err(ActionError::SlotOverflow))
        } else {
            (
                to_slot_spec(v, (v.slots.persist - 1) as i32, fresh_magics),
                slot_result(v, (v.slots.persist - 1) as i32, fresh_magics),
            )
        },
        Some(SpellCommand::Cast(raw)) => (
            cast_slot_spec(v, raw, fresh_magics, fresh_weapons).0,
            cast_report(
                cast_selection_spec(v, raw, fresh_magics, fresh_weapons),
                cast_slot_spec(v, raw, fresh_magics, fresh_weapons).1,
            ),
        ),
        Some(SpellCommand::To(raw)) => (to_slot_spec(v, raw, fresh_magics), slot_result(v, raw, fresh_magics)),
        Some(SpellCommand::Temp(raw)) => (temp_slot_spec(v, raw, fresh_magics), slot_result(v, raw, fresh_magics)),
    }
}

fn report_cast(selection: Result<(), SlotError>, cast: Result<(), SpellError>) -> (r: Result<(), ActionError>)
    ensures
        r == cast_report(selection, cast),
{
    let spell = match cast {
        Err(e) => if e == SpellError::Off {
            None
        } else {
            Some(e)
        },
        Ok(_) => None,
    };
    match selection {
        Ok(_) => match spell {
            None => Ok(()),
            Some(e) => Err(ActionError::Spell(e)),
        },
        Err(s) => match spell {
            None => Err(ActionError::Slot(s)),
            Some(e) => Err(ActionError::SlotAndSpell(s, e)),
        },
    }
}

fn report_slot(r: Result<(), SlotError>) -> (out: Result<(), ActionError>)
    ensures
        out == (match r {
            Ok(_) => Ok(()),
            Err(e) => Err(ActionError::Slot(e)),
        }),
{
    match r {
        Ok(_) => Ok(()),
        Err(e) => Err(ActionError::Slot(e)),
    }
}

/// Whether performing `action` reads the weapons held now: hand notifications and casts do,
/// when their feature is on and the settings ask for a refresh or nothing was read yet.
pub open spec fn needs_weapons_spec(v: SelectorView, action: Seq<char>) -> bool {
    let unread = v.settings.auto_refresh || v.weapons is None;
    match command_spec(action) {
        Some(SpellCommand::NotifyRightHand) | Some(SpellCommand::NotifyLeftHand) => v.settings.no_miscast
            && unread,
        Some(SpellCommand::Cast(_)) => v.settings.cast_slot && unread,
        _ => false,
    }
}

/// Whether `action` needs the weapons held now, so that they are read only then.
pub fn needs_weapons(sel: &SpellSelector, action: &str) -> (r: bool)
    ensures
        r == needs_weapons_spec(sel@, action@),
{
    let unread = sel.settings.auto_refresh || sel.cache.weapons.is_none();
    match parse_command(action) {
        Some(SpellCommand::NotifyRightHand) | Some(SpellCommand::NotifyLeftHand) => sel.settings.no_miscast
            && unread,
        Some(SpellCommand::Cast(_)) => sel.settings.cast_slot && unread,
        _ => false,
    }
}

/// Performs a control's action. `fresh_magics` are the spells equipped now; `fresh_weapons`
/// the weapons held now, which need only be given when `needs_weapons` says so. A failure
/// inside a command leaves the effects made before it in place, and is reported.
pub fn action(
    sel: &mut SpellSelector,
    control: &str,
    fresh_magics: &Vec<Magic>,
    fresh_weapons: Option<EquippedWeapons>,
) -> (r: Result<(), ActionError>)
    ensures
        (final(sel)@, r) == action_spec(old(sel)@, control@, fresh_magics@, fresh_weapons),
{
    match parse_command(control) {
        None => Err(ActionError::UnknownControl),
        Some(SpellCommand::NotifyRightHand) => {
            let r = notify_hand(sel, RIGHT, fresh_magics, fresh_weapons);
            report_cast(Ok(()), r)
        },
        Some(SpellCommand::NotifyLeftHand) => {
            let r = notify_hand(sel, LEFT, fresh_magics, fresh_weapons);
            report_cast(Ok(()), r)
        },
        Some(SpellCommand::Next) => match get_end_slot(sel).checked_add(1) {
            None => Err(ActionError::SlotOverflow),
            Some(slot) => {
                let r = to_slot(sel, slot, fresh_magics);
                report_slot(r)
            },
        },
        Some(SpellCommand::Prev) => match get_end_slot(sel).checked_sub(1) {
            None => Err(ActionError::SlotOverflow),
            Some(slot) => {
                let r = to_slot(sel, slot, fresh_magics);
                report_slot(r)
            },
        },
        Some(SpellCommand::Cast(raw)) => {
            let (selection, cast) = cast_slot(sel, raw, fresh_magics, fresh_weapons);
            report_cast(selection, cast)
        },
        Some(SpellCommand::To(raw)) => {
            let r = to_slot(sel, raw, fresh_magics);
            report_slot(r)
        },
        Some(SpellCommand::Temp(raw)) => {
            let r = temp_slot(sel, raw, fresh_magics);
            report_slot(r)
        },
    }
}

} // verus!
