//! `TeamEntry`: the version-independent team model. The save keeps a team's
//! data in three records (team, roster, tactics) keyed by team id; the entry
//! merges all three. Fields a version lacks are `Option`/`None`; the schema
//! decides what is read and written.
use vstd::prelude::*;

use crate::codec::{index, missing, CodecError};
use crate::model::player::{flag, stored, FieldKind};
use crate::model::tactics::TeamTactics;
use crate::schema::{RosterField, TeamField};

verus! {

/// One team of the save: identity, colours, the game's edit flags, kit slots,
/// the roster and the tactics record's contents.
#[derive(Debug, Clone, PartialEq)]
pub struct TeamEntry {
    /// The team id.
    pub id: u32,
    /// Team name (UTF-8 on disk).
    pub name: String,
    /// Three-letter short name (single-byte text on disk).
    pub short_name: String,
    /// Manager id (PES 19+).
    pub manager_id: Option<u32>,
    /// Home stadium id (PES 19+).
    pub stadium_id: Option<u16>,
    /// The two team colours (PES 17+).
    pub colors: Option<[TeamColor; 2]>,
    /// The game's own "was edited" flags.
    pub edit_flags: TeamEditFlags,
    /// The ten kit slots: kit number to bound team (PES 17 only).
    pub kit_slots: Option<[KitSlot; 10]>,
    /// The roster: one slot per roster array entry (32 or 40 by version).
    pub roster: Vec<RosterSlot>,
    /// The tactics record's contents.
    pub tactics: TeamTactics,
}

/// One team colour, 6 bits per channel.
#[derive(Debug, Clone, Copy, PartialEq)]
pub struct TeamColor {
    /// Red channel.
    pub red: u8,
    /// Green channel.
    pub green: u8,
    /// Blue channel.
    pub blue: u8,
}

/// The game's own "was edited" flags on the team record.
#[derive(Debug, Clone, Copy, PartialEq)]
pub struct TeamEditFlags {
    /// The team name was edited.
    pub name: bool,
    /// The short name was edited (PES 15 only).
    pub short_name: Option<bool>,
    /// The home stadium was edited (PES 20/21 only).
    pub stadium: Option<bool>,
    /// The strips were edited (PES 17 only).
    pub strip: Option<bool>,
}

/// One kit slot: a kit number bound to a team.
#[derive(Debug, Clone, Copy, PartialEq)]
pub struct KitSlot {
    /// Kit number from 0, or 0x80 for a goalkeeper kit.
    pub number: u8,
    /// The bound team id x 0x40, kept raw.
    pub binding: u32,
}

/// One roster entry.
#[derive(Debug, Clone, Copy, PartialEq)]
pub struct RosterSlot {
    /// The player id, 0 when the slot is empty.
    pub player_id: u32,
    /// Shirt number; a 16-bit field on PES 19+ (values above 99 exist).
    pub number: u16,
}

impl TeamColor {
    /// All three channels are 0.
    pub open spec fn is_default(&self) -> bool {
        self.red == 0 && self.green == 0 && self.blue == 0
    }
}

impl Default for TeamColor {
    fn default() -> (r: Self)
        ensures
            r.is_default(),
    {
        TeamColor { red: 0, green: 0, blue: 0 }
    }
}

impl TeamEditFlags {
    /// No flag set and every gated flag absent.
    pub open spec fn is_default(&self) -> bool {
        !self.name && self.short_name is None && self.stadium is None && self.strip is None
    }
}

impl Default for TeamEditFlags {
    fn default() -> (r: Self)
        ensures
            r.is_default(),
    {
        TeamEditFlags { name: false, short_name: None, stadium: None, strip: None }
    }
}

impl KitSlot {
    /// Kit number 0 bound to nothing.
    pub open spec fn is_default(&self) -> bool {
        self.number == 0 && self.binding == 0
    }
}

impl Default for KitSlot {
    fn default() -> (r: Self)
        ensures
            r.is_default(),
    {
        KitSlot { number: 0, binding: 0 }
    }
}

impl RosterSlot {
    /// An empty slot.
    pub open spec fn is_default(&self) -> bool {
        self.player_id == 0 && self.number == 0
    }
}

impl Default for RosterSlot {
    fn default() -> (r: Self)
        ensures
            r.is_default(),
    {
        RosterSlot { player_id: 0, number: 0 }
    }
}

impl TeamEntry {
    /// Id 0, empty texts, no gated field, an empty roster and empty tactics.
    pub open spec fn is_default(&self) -> bool {
        &&& self.id == 0
        &&& self.name@.len() == 0
        &&& self.short_name@.len() == 0
        &&& self.manager_id is None
        &&& self.stadium_id is None
        &&& self.colors is None
        &&& self.edit_flags.is_default()
        &&& self.kit_slots is None
        &&& self.roster@.len() == 0
        &&& self.tactics.is_default()
    }
}

impl Default for TeamEntry {
    fn default() -> (r: Self)
        ensures
            r.is_default(),
    {
        TeamEntry {
            id: 0,
            name: String::new(),
            short_name: String::new(),
            manager_id: None,
            stadium_id: None,
            colors: None,
            edit_flags: TeamEditFlags::default(),
            kit_slots: None,
            roster: Vec::new(),
            tactics: TeamTactics::default(),
        }
    }
}

/// Channel `c` (0 red, 1 green, 2 blue) of colour `k`, when the version has colours.
pub open spec fn color_value(colors: Option<[TeamColor; 2]>, k: int, c: int) -> Option<u32> {
    match colors {
        Some(cs) => Some(
            if c == 0 {
                cs@[k].red as u32
            } else if c == 1 {
                cs@[k].green as u32
            } else {
                cs@[k].blue as u32
            },
        ),
        None => None,
    }
}

/// Kit slot `i`'s number (`number`) or binding, when the version has kit slots.
pub open spec fn kit_value(kits: Option<[KitSlot; 10]>, i: u8, number: bool) -> Option<u32> {
    match kits {
        Some(ks) => if i < 10 {
            Some(if number { ks@[i as int].number as u32 } else { ks@[i as int].binding })
        } else {
            None
        },
        None => None,
    }
}

/// The value a team bit run reads as: `None` when the version lacks the field
/// or the index is past the kit slots.
pub open spec fn team_field_value(t: TeamEntry, field: TeamField) -> Option<u32> {
    match field {
        TeamField::Id => Some(t.id),
        TeamField::ManagerId => t.manager_id,
        TeamField::StadiumId => match t.stadium_id {
            Some(v) => Some(v as u32),
            None => None,
        },
        TeamField::EditedName => Some(flag(t.edit_flags.name)),
        TeamField::EditedShortName => match t.edit_flags.short_name {
            Some(b) => Some(flag(b)),
            None => None,
        },
        TeamField::EditedStadium => match t.edit_flags.stadium {
            Some(b) => Some(flag(b)),
            None => None,
        },
        TeamField::EditedStrip => match t.edit_flags.strip {
            Some(b) => Some(flag(b)),
            None => None,
        },
        TeamField::Color1Red => color_value(t.colors, 0, 0),
        TeamField::Color1Green => color_value(t.colors, 0, 1),
        TeamField::Color1Blue => color_value(t.colors, 0, 2),
        TeamField::Color2Red => color_value(t.colors, 1, 0),
        TeamField::Color2Green => color_value(t.colors, 1, 1),
        TeamField::Color2Blue => color_value(t.colors, 1, 2),
        TeamField::KitSlotNumber(i) => kit_value(t.kit_slots, i, true),
        TeamField::KitSlotTeam(i) => kit_value(t.kit_slots, i, false),
    }
}

/// How a team field is held in the model.
pub open spec fn team_field_kind(field: TeamField) -> FieldKind {
    match field {
        TeamField::Id | TeamField::ManagerId | TeamField::KitSlotTeam(_) => FieldKind::Word,
        TeamField::StadiumId => FieldKind::Short,
        TeamField::EditedName | TeamField::EditedShortName | TeamField::EditedStadium
        | TeamField::EditedStrip => FieldKind::Flag,
        _ => FieldKind::Byte,
    }
}

/// The colour fields, which one `Option` holds together.
pub open spec fn is_color_field(field: TeamField) -> bool {
    match field {
        TeamField::Color1Red | TeamField::Color1Green | TeamField::Color1Blue | TeamField::Color2Red
        | TeamField::Color2Green | TeamField::Color2Blue => true,
        _ => false,
    }
}

/// The kit-slot fields, which one `Option` holds together.
pub open spec fn is_kit_field(field: TeamField) -> bool {
    match field {
        TeamField::KitSlotNumber(_) | TeamField::KitSlotTeam(_) => true,
        _ => false,
    }
}

/// What a team field reads as right after its group was created empty: 0, or
/// `None` for a kit index past the ten slots.
pub open spec fn team_group_default(field: TeamField) -> Option<u32> {
    match field {
        TeamField::KitSlotNumber(i) | TeamField::KitSlotTeam(i) => if i < 10 {
            Some(0)
        } else {
            None
        },
        _ => Some(0),
    }
}

/// Whether writing `field` on `t` first creates its group (colours or kit
/// slots) empty.
pub open spec fn creates_group(t: TeamEntry, field: TeamField, g: TeamField) -> bool {
    ||| is_color_field(field) && is_color_field(g) && t.colors is None
    ||| is_kit_field(field) && is_kit_field(g) && t.kit_slots is None
}

/// Whether an indexed team field names one of the ten kit slots.
pub open spec fn team_index_in_range(field: TeamField) -> bool {
    match field {
        TeamField::KitSlotNumber(i) | TeamField::KitSlotTeam(i) => i < 10,
        _ => true,
    }
}

/// Everything outside the team record's runs is as it was.
pub open spec fn same_outside_team_record(old: TeamEntry, new: TeamEntry) -> bool {
    &&& new.name == old.name
    &&& new.short_name == old.short_name
    &&& new.roster == old.roster
    &&& new.tactics == old.tactics
}

/// The value a roster bit run reads as: `None` for a slot past the roster.
pub open spec fn roster_field_value(t: TeamEntry, field: RosterField) -> Option<u32> {
    match field {
        RosterField::TeamId => Some(t.id),
        RosterField::Player(i) => if i < t.roster@.len() {
            Some(t.roster@[i as int].player_id)
        } else {
            None
        },
        RosterField::Number(i) => if i < t.roster@.len() {
            Some(t.roster@[i as int].number as u32)
        } else {
            None
        },
    }
}

/// The roster after slot `i` was written with `slot`: grown with empty slots
/// to reach `i` first.
pub open spec fn roster_with(roster: Seq<RosterSlot>, i: int, slot: RosterSlot) -> Seq<RosterSlot> {
    let grown = if i < roster.len() {
        roster
    } else {
        roster + Seq::new((i + 1 - roster.len()) as nat, |k: int| RosterSlot { player_id: 0, number: 0 })
    };
    grown.update(i, slot)
}

impl TeamEntry {
    /// The model value a team bit run carries.
    pub fn get(&self, field: TeamField) -> (r: Result<u32, CodecError>)
        ensures
            match team_field_value(*self, field) {
                Some(v) => r == Ok::<u32, CodecError>(v),
                None => r matches Err(e) && if !team_index_in_range(field) && self.kit_slots is Some {
                    e is Index
                } else {
                    e is Missing
                },
            },
    {
        let v = match field {
            TeamField::Id => Some(self.id),
            TeamField::ManagerId => self.manager_id,
            TeamField::StadiumId => match self.stadium_id {
                Some(v) => Some(v as u32),
                None => None,
            },
            TeamField::EditedName => Some(if self.edit_flags.name { 1 } else { 0 }),
            TeamField::EditedShortName => match self.edit_flags.short_name {
                Some(b) => Some(if b { 1 } else { 0 }),
                None => None,
            },
            TeamField::EditedStadium => match self.edit_flags.stadium {
                Some(b) => Some(if b { 1 } else { 0 }),
                None => None,
            },
            TeamField::EditedStrip => match self.edit_flags.strip {
                Some(b) => Some(if b { 1 } else { 0 }),
                None => None,
            },
            TeamField::Color1Red => match &self.colors {
                Some(cs) => Some(cs[0].red as u32),
                None => None,
            },
            TeamField::Color1Green => match &self.colors {
                Some(cs) => Some(cs[0].green as u32),
                None => None,
            },
            TeamField::Color1Blue => match &self.colors {
                Some(cs) => Some(cs[0].blue as u32),
                None => None,
            },
            TeamField::Color2Red => match &self.colors {
                Some(cs) => Some(cs[1].red as u32),
                None => None,
            },
            TeamField::Color2Green => match &self.colors {
                Some(cs) => Some(cs[1].green as u32),
                None => None,
            },
            TeamField::Color2Blue => match &self.colors {
                Some(cs) => Some(cs[1].blue as u32),
                None => None,
            },
            TeamField::KitSlotNumber(i) => match &self.kit_slots {
                Some(ks) => if i < 10 {
                    Some(ks[i as usize].number as u32)
                } else {
                    None
                },
                None => None,
            },
            TeamField::KitSlotTeam(i) => match &self.kit_slots {
                Some(ks) => if i < 10 {
                    Some(ks[i as usize].binding)
                } else {
                    None
                },
                None => None,
            },
        };
        match v {
            Some(v) => Ok(v),
            None => match field {
                TeamField::KitSlotNumber(i) | TeamField::KitSlotTeam(i) => if self.kit_slots.is_some() {
                    Err(index(field, i))
                } else {
                    Err(missing(field))
                },
                _ => Err(missing(field)),
            },
        }
    }

    /// Patches a team bit-run value into the model. A colour or kit-slot field of
    /// a team without colours (kit slots) first creates them, all zero.
    pub fn set(&mut self, field: TeamField, value: u32) -> (r: Result<(), CodecError>)
        ensures
            r is Ok <==> team_index_in_range(field),
            r is Err ==> r->Err_0 is Index,
            forall|g: TeamField| #[trigger] team_field_value(*final(self), g) == if g == field && r is Ok {
                Some(stored(team_field_kind(field), value))
            } else if creates_group(*old(self), field, g) {
                team_group_default(g)
            } else {
                team_field_value(*old(self), g)
            },
            same_outside_team_record(*old(self), *final(self)),
    {
        match field {
            TeamField::Id => self.id = value,
            TeamField::ManagerId => self.manager_id = Some(value),
            TeamField::StadiumId => self.stadium_id = Some(value as u16),
            TeamField::EditedName => self.edit_flags.name = value != 0,
            TeamField::EditedShortName => self.edit_flags.short_name = Some(value != 0),
            TeamField::EditedStadium => self.edit_flags.stadium = Some(value != 0),
            TeamField::EditedStrip => self.edit_flags.strip = Some(value != 0),
            TeamField::Color1Red | TeamField::Color1Green | TeamField::Color1Blue | TeamField::Color2Red
            | TeamField::Color2Green | TeamField::Color2Blue => {
                let mut cs = match self.colors {
                    Some(cs) => cs,
                    None => [TeamColor::default(), TeamColor::default()],
                };
                let v = value as u8;
                match field {
                    TeamField::Color1Red => cs[0].red = v,
                    TeamField::Color1Green => cs[0].green = v,
                    TeamField::Color1Blue => cs[0].blue = v,
                    TeamField::Color2Red => cs[1].red = v,
                    TeamField::Color2Green => cs[1].green = v,
                    _ => cs[1].blue = v,
                }
                self.colors = Some(cs);
            },
            TeamField::KitSlotNumber(i) | TeamField::KitSlotTeam(i) => {
                let mut ks = match self.kit_slots {
                    Some(ks) => ks,
                    None => [KitSlot::default(); 10],
                };
                if i >= 10 {
                    self.kit_slots = Some(ks);
                    return Err(index(field, i));
                }
                match field {
                    TeamField::KitSlotNumber(_) => ks[i as usize].number = value as u8,
                    _ => ks[i as usize].binding = value,
                }
                self.kit_slots = Some(ks);
            },
        }
        Ok(())
    }

    /// The model value a roster bit run carries. `TeamId` is the owning team's
    /// id; indexed variants bound-check against the roster's length.
    pub fn roster_get(&self, field: RosterField) -> (r: Result<u32, CodecError>)
        ensures
            match roster_field_value(*self, field) {
                Some(v) => r == Ok::<u32, CodecError>(v),
                None => r is Err && r->Err_0 is Index,
            },
    {
        match field {
            RosterField::TeamId => Ok(self.id),
            RosterField::Player(i) => if (i as usize) < self.roster.len() {
                Ok(self.roster[i as usize].player_id)
            } else {
                Err(index(field, i))
            },
            RosterField::Number(i) => if (i as usize) < self.roster.len() {
                Ok(self.roster[i as usize].number as u32)
            } else {
                Err(index(field, i))
            },
        }
    }

    /// Patches a roster bit-run value into the model; the roster grows to the
    /// schema's slot count as the array elements arrive.
    pub fn roster_set(&mut self, field: RosterField, value: u32) -> (r: Result<(), CodecError>)
        ensures
            r is Ok,
            match field {
                RosterField::TeamId => final(self).id == value && final(self).roster == old(self).roster,
                RosterField::Player(i) => final(self).id == old(self).id && final(self).roster@ == roster_with(
                    old(self).roster@,
                    i as int,
                    RosterSlot {
                        player_id: value,
                        number: if i < old(self).roster@.len() { old(self).roster@[i as int].number } else { 0 },
                    },
                ),
                RosterField::Number(i) => final(self).id == old(self).id && final(self).roster@ == roster_with(
                    old(self).roster@,
                    i as int,
                    RosterSlot {
                        player_id: if i < old(self).roster@.len() { old(self).roster@[i as int].player_id } else { 0 },
                        number: value as u16,
                    },
                ),
            },
            final(self).name == old(self).name,
            final(self).short_name == old(self).short_name,
            final(self).manager_id == old(self).manager_id,
            final(self).stadium_id == old(self).stadium_id,
            final(self).colors == old(self).colors,
            final(self).edit_flags == old(self).edit_flags,
            final(self).kit_slots == old(self).kit_slots,
            final(self).tactics == old(self).tactics,
    {
        match field {
            RosterField::TeamId => {
                self.id = value;
            },
            RosterField::Player(i) | RosterField::Number(i) => {
                let ghost old_roster = self.roster@;
                let idx = i as usize;
                while self.roster.len() <= idx
                    invariant
                        old_roster.len() <= self.roster@.len() <= idx + 1 || self.roster@.len() == old_roster.len(),
                        self.roster@.len() >= old_roster.len(),
                        self.roster@.len() <= if idx + 1 > old_roster.len() { idx + 1 } else { old_roster.len() as int },
                        forall|k: int| 0 <= k < old_roster.len() ==> #[trigger] self.roster@[k] == old_roster[k],
                        forall|k: int|
                            old_roster.len() <= k < self.roster@.len() ==> #[trigger] self.roster@[k] == (
                            RosterSlot { player_id: 0, number: 0 }),
                        self.name == old(self).name,
                        self.short_name == old(self).short_name,
                        self.manager_id == old(self).manager_id,
                        self.stadium_id == old(self).stadium_id,
                        self.colors == old(self).colors,
                        self.edit_flags == old(self).edit_flags,
                        self.kit_slots == old(self).kit_slots,
                        self.tactics == old(self).tactics,
                        self.id == old(self).id,
                    decreases idx + 1 - self.roster@.len(),
                {
                    self.roster.push(RosterSlot { player_id: 0, number: 0 });
                }
                let mut slot = self.roster[idx];
                match field {
                    RosterField::Player(_) => slot.player_id = value,
                    _ => slot.number = value as u16,
                }
                self.roster.set(idx, slot);
                assert(self.roster@ =~= roster_with(old_roster, i as int, slot));
            },
        }
        Ok(())
    }
}

} // verus!
