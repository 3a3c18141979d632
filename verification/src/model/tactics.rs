//! `TeamTactics`: the tactics record's contents, version-independent. The
//! record carries three presets of style flags, sliders, three formations each
//! and (PES 17+) advanced instructions, plus the shared starting eleven, bench
//! order, set-piece takers and auto flags.
use vstd::prelude::*;

use crate::codec::{FieldName, boolean, index, missing, CodecError};
use crate::model::player::{flag, opt_byte};
use crate::model::team::TeamEntry;
use crate::schema::{FormationPart, InstructionPart, InstructionSide, PresetField, TacticsField};

verus! {

/// A tactics record's contents: the three presets and the team-wide settings.
#[derive(Debug, Clone, Copy, PartialEq)]
pub struct TeamTactics {
    /// The three presets the game cycles through.
    pub presets: [TacticsPreset; 3],
    /// Starting eleven as roster slots.
    pub starting_eleven: [u8; 11],
    /// Bench order as roster slots.
    pub bench_order: [u8; 21],
    /// The set-piece takers (roster slots, 0xFF none).
    pub set_pieces: SetPieceTakers,
    /// Players joining the attack (roster slots).
    pub players_to_join_attack: [u8; 3],
    /// The automatic-settings flags.
    pub auto: TeamAutoFlags,
}

/// One preset: a style block, the sliders, three formations and the advanced
/// instructions.
#[derive(Debug, Clone, Copy, PartialEq)]
pub struct TacticsPreset {
    /// The eight style switches.
    pub style: TacticStyle,
    /// The five sliders.
    pub sliders: TacticSliders,
    /// Kick-off, in-possession and out-of-possession formations.
    pub formations: [Formation; 3],
    /// The two attacking instructions (PES 17+).
    pub attack_instructions: Option<[AdvancedInstruction; 2]>,
    /// The two defending instructions (PES 17+).
    pub defence_instructions: Option<[AdvancedInstruction; 2]>,
}

/// The style switches; each is one byte on disk carrying 0 or 1.
#[derive(Debug, Clone, Copy, PartialEq)]
pub struct TacticStyle {
    /// 0 counter attack, 1 possession.
    pub attacking_style: bool,
    /// 0 centre, 1 wide.
    pub attacking_zone: bool,
    /// 0 long pass, 1 short pass.
    pub buildup: bool,
    /// 0 maintain, 1 flexible.
    pub positioning: bool,
    /// 0 frontline pressure, 1 all-out defence.
    pub defensive_style: bool,
    /// 0 middle, 1 wide.
    pub containment_area: bool,
    /// 0 aggressive, 1 conservative.
    pub pressure: bool,
    /// Fluid formation on/off (PES 16+).
    pub fluid: Option<bool>,
}

/// The five sliders.
#[derive(Debug, Clone, Copy, PartialEq)]
pub struct TacticSliders {
    /// Support range, 1 to 10.
    pub support_range: u8,
    /// Defensive line, 1 to 10.
    pub defensive_line: u8,
    /// Compactness, 1 to 10.
    pub compactness: u8,
    /// Numbers in attack, 1 few to 3 many.
    pub numbers_in_attack: u8,
    /// Numbers in defence, 1 few to 3 many.
    pub numbers_in_defence: u8,
}

/// One formation: eleven slot layouts.
#[derive(Debug, Clone, Copy, PartialEq)]
pub struct Formation {
    /// The eleven players' position and coordinates.
    pub players: [FormationSlot; 11],
}

/// One formation slot.
#[derive(Debug, Clone, Copy, PartialEq)]
pub struct FormationSlot {
    /// Position, GK 0 to CF 12.
    pub position: u8,
    /// Horizontal coordinate.
    pub x: u8,
    /// Vertical coordinate.
    pub y: u8,
}

/// One advanced instruction (PES 17+).
#[derive(Debug, Clone, Copy, PartialEq)]
pub struct AdvancedInstruction {
    /// The instruction id (version-specific meaning).
    pub instruction: u8,
    /// The targeted player, for instructions that take one (roster slot).
    pub player: u8,
}

/// The set-piece takers, roster slots with 0xFF for none.
#[derive(Debug, Clone, Copy, PartialEq)]
pub struct SetPieceTakers {
    /// Long free kick taker.
    pub free_kick_long: u8,
    /// Short free kick taker.
    pub free_kick_short: u8,
    /// Second free kick taker.
    pub free_kick_second: u8,
    /// Left corner taker.
    pub corner_left: u8,
    /// Right corner taker.
    pub corner_right: u8,
    /// Penalty taker.
    pub penalty: u8,
    /// Captain.
    pub captain: u8,
}

/// The automatic-settings flags; each is one byte on disk carrying 0 or 1
/// except `substitution`, a setting byte.
#[derive(Debug, Clone, Copy, PartialEq)]
pub struct TeamAutoFlags {
    /// Auto substitution setting (PES 16+).
    pub substitution: Option<u8>,
    /// Auto offside trap (PES 16+).
    pub offside_trap: Option<bool>,
    /// Auto preset change (PES 16+).
    pub preset_change: Option<bool>,
    /// Auto attack/defence level change (PES 17+).
    pub attack_defence_levels: Option<bool>,
}

impl TacticStyle {
    /// Every switch off and fluid formation absent.
    pub open spec fn is_default(&self) -> bool {
        !self.attacking_style && !self.attacking_zone && !self.buildup && !self.positioning
            && !self.defensive_style && !self.containment_area && !self.pressure && self.fluid is None
    }
}

impl Default for TacticStyle {
    fn default() -> (r: Self)
        ensures
            r.is_default(),
    {
        TacticStyle {
            attacking_style: false,
            attacking_zone: false,
            buildup: false,
            positioning: false,
            defensive_style: false,
            containment_area: false,
            pressure: false,
            fluid: None,
        }
    }
}

impl TacticSliders {
    /// Every slider 0.
    pub open spec fn is_default(&self) -> bool {
        self.support_range == 0 && self.defensive_line == 0 && self.compactness == 0
            && self.numbers_in_attack == 0 && self.numbers_in_defence == 0
    }
}

impl Default for TacticSliders {
    fn default() -> (r: Self)
        ensures
            r.is_default(),
    {
        TacticSliders {
            support_range: 0,
            defensive_line: 0,
            compactness: 0,
            numbers_in_attack: 0,
            numbers_in_defence: 0,
        }
    }
}

impl FormationSlot {
    /// Position and coordinates 0.
    pub open spec fn is_default(&self) -> bool {
        self.position == 0 && self.x == 0 && self.y == 0
    }
}

impl Default for FormationSlot {
    fn default() -> (r: Self)
        ensures
            r.is_default(),
    {
        FormationSlot { position: 0, x: 0, y: 0 }
    }
}

impl Formation {
    /// Every slot empty.
    pub open spec fn is_default(&self) -> bool {
        forall|i: int| 0 <= i < 11 ==> #[trigger] self.players@[i].is_default()
    }
}

impl Default for Formation {
    fn default() -> (r: Self)
        ensures
            r.is_default(),
    {
        Formation { players: [FormationSlot { position: 0, x: 0, y: 0 }; 11] }
    }
}

impl AdvancedInstruction {
    /// Instruction 0 aimed at slot 0.
    pub open spec fn is_default(&self) -> bool {
        self.instruction == 0 && self.player == 0
    }
}

impl Default for AdvancedInstruction {
    fn default() -> (r: Self)
        ensures
            r.is_default(),
    {
        AdvancedInstruction { instruction: 0, player: 0 }
    }
}

impl TacticsPreset {
    /// Empty style, sliders and formations, no instructions.
    pub open spec fn is_default(&self) -> bool {
        &&& self.style.is_default()
        &&& self.sliders.is_default()
        &&& forall|i: int| 0 <= i < 3 ==> #[trigger] self.formations@[i].is_default()
        &&& self.attack_instructions is None
        &&& self.defence_instructions is None
    }
}

impl Default for TacticsPreset {
    fn default() -> (r: Self)
        ensures
            r.is_default(),
    {
        let f = Formation::default();
        TacticsPreset {
            style: TacticStyle::default(),
            sliders: TacticSliders::default(),
            formations: [f, f, f],
            attack_instructions: None,
            defence_instructions: None,
        }
    }
}

impl SetPieceTakers {
    /// Every taker slot 0.
    pub open spec fn is_default(&self) -> bool {
        self.free_kick_long == 0 && self.free_kick_short == 0 && self.free_kick_second == 0
            && self.corner_left == 0 && self.corner_right == 0 && self.penalty == 0 && self.captain == 0
    }
}

impl Default for SetPieceTakers {
    fn default() -> (r: Self)
        ensures
            r.is_default(),
    {
        SetPieceTakers {
            free_kick_long: 0,
            free_kick_short: 0,
            free_kick_second: 0,
            corner_left: 0,
            corner_right: 0,
            penalty: 0,
            captain: 0,
        }
    }
}

impl TeamAutoFlags {
    /// Every gated flag absent.
    pub open spec fn is_default(&self) -> bool {
        self.substitution is None && self.offside_trap is None && self.preset_change is None
            && self.attack_defence_levels is None
    }
}

impl Default for TeamAutoFlags {
    fn default() -> (r: Self)
        ensures
            r.is_default(),
    {
        TeamAutoFlags { substitution: None, offside_trap: None, preset_change: None, attack_defence_levels: None }
    }
}

impl TeamTactics {
    /// Empty presets, orders, takers and flags.
    pub open spec fn is_default(&self) -> bool {
        &&& forall|i: int| 0 <= i < 3 ==> #[trigger] self.presets@[i].is_default()
        &&& forall|i: int| 0 <= i < 11 ==> #[trigger] self.starting_eleven@[i] == 0
        &&& forall|i: int| 0 <= i < 21 ==> #[trigger] self.bench_order@[i] == 0
        &&& self.set_pieces.is_default()
        &&& forall|i: int| 0 <= i < 3 ==> #[trigger] self.players_to_join_attack@[i] == 0
        &&& self.auto.is_default()
    }
}

impl Default for TeamTactics {
    fn default() -> (r: Self)
        ensures
            r.is_default(),
    {
        let p = TacticsPreset::default();
        TeamTactics {
            presets: [p, p, p],
            starting_eleven: [0; 11],
            bench_order: [0; 21],
            set_pieces: SetPieceTakers::default(),
            players_to_join_attack: [0; 3],
            auto: TeamAutoFlags::default(),
        }
    }
}

/// The value a preset byte reads as.
pub open spec fn preset_value(p: TacticsPreset, field: PresetField) -> Option<u32> {
    match field {
        PresetField::AttackingStyle => Some(flag(p.style.attacking_style)),
        PresetField::Buildup => Some(flag(p.style.buildup)),
        PresetField::AttackingZone => Some(flag(p.style.attacking_zone)),
        PresetField::Positioning => Some(flag(p.style.positioning)),
        PresetField::DefensiveStyle => Some(flag(p.style.defensive_style)),
        PresetField::ContainmentArea => Some(flag(p.style.containment_area)),
        PresetField::Pressure => Some(flag(p.style.pressure)),
        PresetField::FluidFormation => match p.style.fluid {
            Some(b) => Some(flag(b)),
            None => None,
        },
        PresetField::SupportRange => Some(p.sliders.support_range as u32),
        PresetField::DefensiveLine => Some(p.sliders.defensive_line as u32),
        PresetField::Compactness => Some(p.sliders.compactness as u32),
        PresetField::NumbersInAttack => Some(p.sliders.numbers_in_attack as u32),
        PresetField::NumbersInDefence => Some(p.sliders.numbers_in_defence as u32),
    }
}

/// Whether a preset byte holds a switch (0 or 1 on disk).
pub open spec fn is_switch(field: PresetField) -> bool {
    match field {
        PresetField::SupportRange | PresetField::DefensiveLine | PresetField::Compactness
        | PresetField::NumbersInAttack | PresetField::NumbersInDefence => false,
        _ => true,
    }
}

/// A preset's instruction pair on `side`.
pub open spec fn side_of(p: TacticsPreset, side: InstructionSide) -> Option<[AdvancedInstruction; 2]> {
    match side {
        InstructionSide::Attack => p.attack_instructions,
        InstructionSide::Defence => p.defence_instructions,
    }
}

/// The value a tactics bit run reads as: `None` when the version lacks the
/// field or an index is past its array.
pub open spec fn tactics_value(t: TeamEntry, field: TacticsField) -> Option<u32> {
    let tt = t.tactics;
    match field {
        TacticsField::TeamId => Some(t.id),
        TacticsField::Preset { preset, field: pf } => if preset < 3 {
            preset_value(tt.presets@[preset as int], pf)
        } else {
            None
        },
        TacticsField::Formation { preset, formation, slot, part } => if preset < 3 && formation < 3 && slot < 11 {
            let s = tt.presets@[preset as int].formations@[formation as int].players@[slot as int];
            Some(
                match part {
                    FormationPart::Position => s.position as u32,
                    FormationPart::X => s.x as u32,
                    FormationPart::Y => s.y as u32,
                },
            )
        } else {
            None
        },
        TacticsField::Instruction { preset, side, index, part } => if preset < 3 {
            match side_of(tt.presets@[preset as int], side) {
                Some(pair) => if index < 2 {
                    Some(
                        match part {
                            InstructionPart::Instruction => pair@[index as int].instruction as u32,
                            InstructionPart::PlayerId => pair@[index as int].player as u32,
                        },
                    )
                } else {
                    None
                },
                None => None,
            }
        } else {
            None
        },
        TacticsField::FreeKickTakerLong => Some(tt.set_pieces.free_kick_long as u32),
        TacticsField::FreeKickTakerShort => Some(tt.set_pieces.free_kick_short as u32),
        TacticsField::FreeKickTakerSecond => Some(tt.set_pieces.free_kick_second as u32),
        TacticsField::CornerTakerLeft => Some(tt.set_pieces.corner_left as u32),
        TacticsField::CornerTakerRight => Some(tt.set_pieces.corner_right as u32),
        TacticsField::PenaltyTaker => Some(tt.set_pieces.penalty as u32),
        TacticsField::Captain => Some(tt.set_pieces.captain as u32),
        TacticsField::AutoSubstitution => opt_byte(tt.auto.substitution),
        TacticsField::AutoOffsideTrap => match tt.auto.offside_trap {
            Some(b) => Some(flag(b)),
            None => None,
        },
        TacticsField::AutoPresetChange => match tt.auto.preset_change {
            Some(b) => Some(flag(b)),
            None => None,
        },
        TacticsField::AutoAttackDefenceLevels => match tt.auto.attack_defence_levels {
            Some(b) => Some(flag(b)),
            None => None,
        },
        TacticsField::Starting(i) => if i < 11 {
            Some(tt.starting_eleven@[i as int] as u32)
        } else {
            None
        },
        TacticsField::Bench(i) => if i < 21 {
            Some(tt.bench_order@[i as int] as u32)
        } else {
            None
        },
        TacticsField::PlayerToJoinAttack(i) => if i < 3 {
            Some(tt.players_to_join_attack@[i as int] as u32)
        } else {
            None
        },
    }
}

/// Whether reading `field` from `t` fails on an index (rather than on a field
/// the version lacks).
pub open spec fn tactics_index_error(t: TeamEntry, field: TacticsField) -> bool {
    match field {
        TacticsField::Preset { preset, .. } => preset >= 3,
        TacticsField::Formation { preset, formation, slot, .. } => !(preset < 3 && formation < 3 && slot < 11),
        TacticsField::Instruction { preset, side, index, .. } => preset >= 3 || (side_of(
            t.tactics.presets@[preset as int],
            side,
        ) is Some && index >= 2),
        TacticsField::Starting(i) => i >= 11,
        TacticsField::Bench(i) => i >= 21,
        TacticsField::PlayerToJoinAttack(i) => i >= 3,
        _ => false,
    }
}

/// Whether the fields a write of `field` stores as `bool` accept `value`.
pub open spec fn tactics_switch_field(field: TacticsField) -> bool {
    match field {
        TacticsField::Preset { field: pf, .. } => is_switch(pf),
        TacticsField::AutoOffsideTrap | TacticsField::AutoPresetChange | TacticsField::AutoAttackDefenceLevels => true,
        _ => false,
    }
}

/// Whether every index of `field` is inside its array.
pub open spec fn tactics_indices_in_range(field: TacticsField) -> bool {
    match field {
        TacticsField::Preset { preset, .. } => preset < 3,
        TacticsField::Formation { preset, formation, slot, .. } => preset < 3 && formation < 3 && slot < 11,
        TacticsField::Instruction { preset, index, .. } => preset < 3 && index < 2,
        TacticsField::Starting(i) => i < 11,
        TacticsField::Bench(i) => i < 21,
        TacticsField::PlayerToJoinAttack(i) => i < 3,
        _ => true,
    }
}

/// What a tactics field holds after `value` is written: the byte, or the
/// switch (0 or 1) itself.
pub open spec fn tactics_stored(field: TacticsField, value: u32) -> u32 {
    if field is TeamId {
        value
    } else if tactics_switch_field(field) {
        value
    } else {
        (value as u8) as u32
    }
}

/// Whether writing `field` on `t` first creates `g`'s instruction pair empty.
pub open spec fn creates_instructions(t: TeamEntry, field: TacticsField, g: TacticsField) -> bool {
    match (field, g) {
        (
            TacticsField::Instruction { preset: p, side: s, .. },
            TacticsField::Instruction { preset: q, side: z, .. },
        ) => p < 3 && p == q && s == z && side_of(t.tactics.presets@[p as int], s) is None,
        _ => false,
    }
}

/// What an instruction field reads as in a pair just created empty.
pub open spec fn created_instruction_value(g: TacticsField) -> Option<u32> {
    match g {
        TacticsField::Instruction { index, .. } => if index < 2 {
            Some(0)
        } else {
            None
        },
        _ => None,
    }
}

/// Everything outside the tactics record's runs is as it was.
pub open spec fn same_outside_tactics_record(old: TeamEntry, new: TeamEntry) -> bool {
    &&& new.name == old.name
    &&& new.short_name == old.short_name
    &&& new.manager_id == old.manager_id
    &&& new.stadium_id == old.stadium_id
    &&& new.colors == old.colors
    &&& new.edit_flags == old.edit_flags
    &&& new.kit_slots == old.kit_slots
    &&& new.roster == old.roster
}

fn preset_get(p: &TacticsPreset, field: PresetField) -> (r: Option<u32>)
    ensures
        r == preset_value(*p, field),
{
    match field {
        PresetField::AttackingStyle => Some(if p.style.attacking_style { 1 } else { 0 }),
        PresetField::Buildup => Some(if p.style.buildup { 1 } else { 0 }),
        PresetField::AttackingZone => Some(if p.style.attacking_zone { 1 } else { 0 }),
        PresetField::Positioning => Some(if p.style.positioning { 1 } else { 0 }),
        PresetField::DefensiveStyle => Some(if p.style.defensive_style { 1 } else { 0 }),
        PresetField::ContainmentArea => Some(if p.style.containment_area { 1 } else { 0 }),
        PresetField::Pressure => Some(if p.style.pressure { 1 } else { 0 }),
        PresetField::FluidFormation => match p.style.fluid {
            Some(b) => Some(if b { 1 } else { 0 }),
            None => None,
        },
        PresetField::SupportRange => Some(p.sliders.support_range as u32),
        PresetField::DefensiveLine => Some(p.sliders.defensive_line as u32),
        PresetField::Compactness => Some(p.sliders.compactness as u32),
        PresetField::NumbersInAttack => Some(p.sliders.numbers_in_attack as u32),
        PresetField::NumbersInDefence => Some(p.sliders.numbers_in_defence as u32),
    }
}

fn preset_set(p: &mut TacticsPreset, field: PresetField, b: bool, byte: u8)
    ensures
        forall|g: PresetField| #[trigger] preset_value(*final(p), g) == if g == field {
            Some(if is_switch(field) { flag(b) } else { byte as u32 })
        } else {
            preset_value(*old(p), g)
        },
        final(p).formations == old(p).formations,
        final(p).attack_instructions == old(p).attack_instructions,
        final(p).defence_instructions == old(p).defence_instructions,
{
    match field {
        PresetField::AttackingStyle => p.style.attacking_style = b,
        PresetField::Buildup => p.style.buildup = b,
        PresetField::AttackingZone => p.style.attacking_zone = b,
        PresetField::Positioning => p.style.positioning = b,
        PresetField::DefensiveStyle => p.style.defensive_style = b,
        PresetField::ContainmentArea => p.style.containment_area = b,
        PresetField::Pressure => p.style.pressure = b,
        PresetField::FluidFormation => p.style.fluid = Some(b),
        PresetField::SupportRange => p.sliders.support_range = byte,
        PresetField::DefensiveLine => p.sliders.defensive_line = byte,
        PresetField::Compactness => p.sliders.compactness = byte,
        PresetField::NumbersInAttack => p.sliders.numbers_in_attack = byte,
        PresetField::NumbersInDefence => p.sliders.numbers_in_defence = byte,
    }
}

impl TeamEntry {
    /// The model value a tactics bit run carries.
    pub fn tactics_get(&self, field: TacticsField) -> (r: Result<u32, CodecError>)
        ensures
            match tactics_value(*self, field) {
                Some(v) => r == Ok::<u32, CodecError>(v),
                None => r matches Err(e) && if tactics_index_error(*self, field) {
                    e is Index
                } else {
                    e is Missing
                },
            },
    {
        let tt = &self.tactics;
        match field {
            TacticsField::TeamId => Ok(self.id),
            TacticsField::Preset { preset, field: pf } => {
                if preset >= 3 {
                    return Err(index(field, preset));
                }
                match preset_get(&tt.presets[preset as usize], pf) {
                    Some(v) => Ok(v),
                    None => Err(missing(field)),
                }
            },
            TacticsField::Formation { preset, formation, slot, part } => {
                if preset >= 3 || formation >= 3 || slot >= 11 {
                    return Err(index(field, slot));
                }
                let s = tt.presets[preset as usize].formations[formation as usize].players[slot as usize];
                Ok(
                    match part {
                        FormationPart::Position => s.position as u32,
                        FormationPart::X => s.x as u32,
                        FormationPart::Y => s.y as u32,
                    },
                )
            },
            TacticsField::Instruction { preset, side, index: i, part } => {
                if preset >= 3 {
                    return Err(index(field, preset));
                }
                let p = &tt.presets[preset as usize];
                let pair = match side {
                    InstructionSide::Attack => p.attack_instructions,
                    InstructionSide::Defence => p.defence_instructions,
                };
                match pair {
                    Some(pair) => if i < 2 {
                        Ok(
                            match part {
                                InstructionPart::Instruction => pair[i as usize].instruction as u32,
                                InstructionPart::PlayerId => pair[i as usize].player as u32,
                            },
                        )
                    } else {
                        Err(index(field, i))
                    },
                    None => Err(missing(field)),
                }
            },
            TacticsField::FreeKickTakerLong => Ok(tt.set_pieces.free_kick_long as u32),
            TacticsField::FreeKickTakerShort => Ok(tt.set_pieces.free_kick_short as u32),
            TacticsField::FreeKickTakerSecond => Ok(tt.set_pieces.free_kick_second as u32),
            TacticsField::CornerTakerLeft => Ok(tt.set_pieces.corner_left as u32),
            TacticsField::CornerTakerRight => Ok(tt.set_pieces.corner_right as u32),
            TacticsField::PenaltyTaker => Ok(tt.set_pieces.penalty as u32),
            TacticsField::Captain => Ok(tt.set_pieces.captain as u32),
            TacticsField::AutoSubstitution => match tt.auto.substitution {
                Some(v) => Ok(v as u32),
                None => Err(missing(field)),
            },
            TacticsField::AutoOffsideTrap => match tt.auto.offside_trap {
                Some(b) => Ok(if b { 1 } else { 0 }),
                None => Err(missing(field)),
            },
            TacticsField::AutoPresetChange => match tt.auto.preset_change {
                Some(b) => Ok(if b { 1 } else { 0 }),
                None => Err(missing(field)),
            },
            TacticsField::AutoAttackDefenceLevels => match tt.auto.attack_defence_levels {
                Some(b) => Ok(if b { 1 } else { 0 }),
                None => Err(missing(field)),
            },
            TacticsField::Starting(i) => if i < 11 {
                Ok(tt.starting_eleven[i as usize] as u32)
            } else {
                Err(index(field, i))
            },
            TacticsField::Bench(i) => if i < 21 {
                Ok(tt.bench_order[i as usize] as u32)
            } else {
                Err(index(field, i))
            },
            TacticsField::PlayerToJoinAttack(i) => if i < 3 {
                Ok(tt.players_to_join_attack[i as usize] as u32)
            } else {
                Err(index(field, i))
            },
        }
    }

    /// Patches a tactics bit-run value into the model. A switch byte accepts 0
    /// and 1 only; an instruction of a preset without instructions first creates
    /// the pair, zeroed.
    pub fn tactics_set(&mut self, field: TacticsField, value: u32) -> (r: Result<(), CodecError>)
        ensures
            r is Ok <==> (tactics_indices_in_range(field) && (tactics_switch_field(field) ==> value <= 1)),
            r is Err && !tactics_indices_in_range(field) ==> r->Err_0 is Index,
            r is Err && tactics_indices_in_range(field) ==> (r matches Err(
                CodecError::NotBoolean { field: text, value: v },
            ) && v == value && text@ == field.spec_name()),
            forall|g: TacticsField| #[trigger] tactics_value(*final(self), g) == if g == field && r is Ok {
                Some(tactics_stored(field, value))
            } else if creates_instructions(*old(self), field, g) {
                created_instruction_value(g)
            } else {
                tactics_value(*old(self), g)
            },
            same_outside_tactics_record(*old(self), *final(self)),
    {
        match field {
            TacticsField::TeamId => {
                self.id = value;
            },
            TacticsField::Preset { preset, field: pf } => {
                if preset >= 3 {
                    return Err(index(field, preset));
                }
                let b = if is_switch_field(pf) {
                    match boolean(field, value) {
                        Ok(b) => b,
                        Err(e) => {
                            return Err(e);
                        },
                    }
                } else {
                    false
                };
                let mut p = self.tactics.presets[preset as usize];
                preset_set(&mut p, pf, b, value as u8);
                self.tactics.presets[preset as usize] = p;
            },
            TacticsField::Formation { preset, formation, slot, part } => {
                if preset >= 3 || formation >= 3 || slot >= 11 {
                    return Err(index(field, slot));
                }
                let mut p = self.tactics.presets[preset as usize];
                let mut f = p.formations[formation as usize];
                let mut s = f.players[slot as usize];
                match part {
                    FormationPart::Position => s.position = value as u8,
                    FormationPart::X => s.x = value as u8,
                    FormationPart::Y => s.y = value as u8,
                }
                f.players[slot as usize] = s;
                p.formations[formation as usize] = f;
                self.tactics.presets[preset as usize] = p;
            },
            TacticsField::Instruction { preset, side, index: i, part } => {
                if preset >= 3 {
                    return Err(index(field, preset));
                }
                let mut p = self.tactics.presets[preset as usize];
                let current = match side {
                    InstructionSide::Attack => p.attack_instructions,
                    InstructionSide::Defence => p.defence_instructions,
                };
                let mut pair = match current {
                    Some(pair) => pair,
                    None => [AdvancedInstruction { instruction: 0, player: 0 }; 2],
                };
                let result = if i < 2 {
                    let mut a = pair[i as usize];
                    match part {
                        InstructionPart::Instruction => a.instruction = value as u8,
                        InstructionPart::PlayerId => a.player = value as u8,
                    }
                    pair[i as usize] = a;
                    Ok(())
                } else {
                    Err(index(field, i))
                };
                match side {
                    InstructionSide::Attack => p.attack_instructions = Some(pair),
                    InstructionSide::Defence => p.defence_instructions = Some(pair),
                }
                self.tactics.presets[preset as usize] = p;
                return result;
            },
            TacticsField::FreeKickTakerLong => self.tactics.set_pieces.free_kick_long = value as u8,
            TacticsField::FreeKickTakerShort => self.tactics.set_pieces.free_kick_short = value as u8,
            TacticsField::FreeKickTakerSecond => self.tactics.set_pieces.free_kick_second = value as u8,
            TacticsField::CornerTakerLeft => self.tactics.set_pieces.corner_left = value as u8,
            TacticsField::CornerTakerRight => self.tactics.set_pieces.corner_right = value as u8,
            TacticsField::PenaltyTaker => self.tactics.set_pieces.penalty = value as u8,
            TacticsField::Captain => self.tactics.set_pieces.captain = value as u8,
            TacticsField::AutoSubstitution => self.tactics.auto.substitution = Some(value as u8),
            TacticsField::AutoOffsideTrap => match boolean(field, value) {
                Ok(b) => self.tactics.auto.offside_trap = Some(b),
                Err(e) => {
                    return Err(e);
                },
            },
            TacticsField::AutoPresetChange => match boolean(field, value) {
                Ok(b) => self.tactics.auto.preset_change = Some(b),
                Err(e) => {
                    return Err(e);
                },
            },
            TacticsField::AutoAttackDefenceLevels => match boolean(field, value) {
                Ok(b) => self.tactics.auto.attack_defence_levels = Some(b),
                Err(e) => {
                    return Err(e);
                },
            },
            TacticsField::Starting(i) => {
                if i >= 11 {
                    return Err(index(field, i));
                }
                self.tactics.starting_eleven[i as usize] = value as u8;
            },
            TacticsField::Bench(i) => {
                if i >= 21 {
                    return Err(index(field, i));
                }
                self.tactics.bench_order[i as usize] = value as u8;
            },
            TacticsField::PlayerToJoinAttack(i) => {
                if i >= 3 {
                    return Err(index(field, i));
                }
                self.tactics.players_to_join_attack[i as usize] = value as u8;
            },
        }
        Ok(())
    }
}

fn is_switch_field(field: PresetField) -> (b: bool)
    ensures
        b == is_switch(field),
{
    match field {
        PresetField::SupportRange | PresetField::DefensiveLine | PresetField::Compactness
        | PresetField::NumbersInAttack | PresetField::NumbersInDefence => false,
        _ => true,
    }
}

} // verus!
