//! The names error messages give record fields: the text each field's
//! derived `Debug` writes, spelled out field by field.
use vstd::prelude::*;

use crate::codec::push_char;
use crate::model::ingame_face::IngameFaceField;
use crate::schema::{
    FormationPart, InstructionPart, InstructionSide, PlayerField, PlayerText, PresetField,
    RosterField, TacticsField, TeamField, TeamText,
};

verus! {

/// The ten decimal digits.
pub open spec fn digits() -> Seq<char> {
    seq!['0', '1', '2', '3', '4', '5', '6', '7', '8', '9']
}

/// `n` written in decimal, without leading zeros.
pub open spec fn decimal(n: nat) -> Seq<char>
    decreases n,
{
    if n < 10 {
        seq![digits()[n as int]]
    } else {
        decimal(n / 10) + seq![digits()[(n % 10) as int]]
    }
}

/// Digit `d`.
fn digit(d: u32) -> (c: char)
    requires
        d < 10,
    ensures
        c == digits()[d as int],
{
    match d {
        0 => '0',
        1 => '1',
        2 => '2',
        3 => '3',
        4 => '4',
        5 => '5',
        6 => '6',
        7 => '7',
        8 => '8',
        _ => '9',
    }
}

/// `n` in decimal appended to `s`.
pub fn push_decimal(s: &mut String, n: u32)
    ensures
        final(s)@ == old(s)@ + decimal(n as nat),
    decreases n,
{
    if n >= 10 {
        push_decimal(s, n / 10);
    }
    push_char(s, digit(n % 10));
    proof {
        if n < 10 {
            assert(n % 10 == n);
        }
    }
}

/// `t` appended to `s`.
pub fn append_str(s: &mut String, t: &str)
    ensures
        final(s)@ == old(s)@ + t@,
{
    broadcast use vstd::string::axiom_spec_iter;
    let ghost start = s@;
    for c in it: t.chars()
        invariant
            s@ == start + it.seq().take(it.index()),
    {
        push_char(s, c);
    }
}

/// A record field that error messages name.
pub trait FieldName: Sized {
    /// The field's name: the text its derived `Debug` writes.
    spec fn spec_name(&self) -> Seq<char>;

    /// The field's name.
    fn name(&self) -> (s: String)
        ensures
            s@ == self.spec_name(),
    ;
}


/// The name of a `PlayerField`: its variant, with its indices in decimal.
pub open spec fn player_field_name(f: PlayerField) -> Seq<char> {
    match f {
        PlayerField::Id => "Id"@,
        PlayerField::Nationality => "Nationality"@,
        PlayerField::Height => "Height"@,
        PlayerField::Weight => "Weight"@,
        PlayerField::GoalCelebration1 => "GoalCelebration1"@,
        PlayerField::GoalCelebration2 => "GoalCelebration2"@,
        PlayerField::AttackingProwess => "AttackingProwess"@,
        PlayerField::DefensiveProwess => "DefensiveProwess"@,
        PlayerField::Goalkeeping => "Goalkeeping"@,
        PlayerField::Dribbling => "Dribbling"@,
        PlayerField::FreeKickMotion => "FreeKickMotion"@,
        PlayerField::Finishing => "Finishing"@,
        PlayerField::LowPass => "LowPass"@,
        PlayerField::LoftedPass => "LoftedPass"@,
        PlayerField::Heading => "Heading"@,
        PlayerField::Form => "Form"@,
        PlayerField::EditedPlayer => "EditedPlayer"@,
        PlayerField::Swerve => "Swerve"@,
        PlayerField::Catching => "Catching"@,
        PlayerField::Clearing => "Clearing"@,
        PlayerField::Reflexes => "Reflexes"@,
        PlayerField::InjuryResistance => "InjuryResistance"@,
        PlayerField::EditedBasicSettings => "EditedBasicSettings"@,
        PlayerField::BodyControl => "BodyControl"@,
        PlayerField::PhysicalContact => "PhysicalContact"@,
        PlayerField::KickingPower => "KickingPower"@,
        PlayerField::ExplosivePower => "ExplosivePower"@,
        PlayerField::ArmMovementDribbling => "ArmMovementDribbling"@,
        PlayerField::EditedRegisteredPosition => "EditedRegisteredPosition"@,
        PlayerField::Age => "Age"@,
        PlayerField::RegisteredPosition => "RegisteredPosition"@,
        PlayerField::PlayingStyle => "PlayingStyle"@,
        PlayerField::BallControl => "BallControl"@,
        PlayerField::BallWinning => "BallWinning"@,
        PlayerField::WeakFootAccuracy => "WeakFootAccuracy"@,
        PlayerField::Jump => "Jump"@,
        PlayerField::ArmMovementRunning => "ArmMovementRunning"@,
        PlayerField::CornerKickMotion => "CornerKickMotion"@,
        PlayerField::Coverage => "Coverage"@,
        PlayerField::WeakFootUsage => "WeakFootUsage"@,
        PlayerField::PlayablePosition(i) => "PlayablePosition("@ + decimal(i as nat) + ")"@,
        PlayerField::HunchingDribbling => "HunchingDribbling"@,
        PlayerField::HunchingRunning => "HunchingRunning"@,
        PlayerField::PenaltyKickMotion => "PenaltyKickMotion"@,
        PlayerField::PlaceKicking => "PlaceKicking"@,
        PlayerField::EditedPlayablePositions => "EditedPlayablePositions"@,
        PlayerField::EditedAbilities => "EditedAbilities"@,
        PlayerField::EditedSkills => "EditedSkills"@,
        PlayerField::Stamina => "Stamina"@,
        PlayerField::Speed => "Speed"@,
        PlayerField::EditedPlayingStyle => "EditedPlayingStyle"@,
        PlayerField::EditedComStyles => "EditedComStyles"@,
        PlayerField::EditedMotion => "EditedMotion"@,
        PlayerField::BaseCopy => "BaseCopy"@,
        PlayerField::StrongerFoot => "StrongerFoot"@,
        PlayerField::ComStyle(i) => "ComStyle("@ + decimal(i as nat) + ")"@,
        PlayerField::Skill(i) => "Skill("@ + decimal(i as nat) + ")"@,
        PlayerField::Star => "Star"@,
        PlayerField::DribblingMotion => "DribblingMotion"@,
        PlayerField::TightPossession => "TightPossession"@,
        PlayerField::Aggression => "Aggression"@,
        PlayerField::PlayingAttitude => "PlayingAttitude"@,
        PlayerField::StrongerHand => "StrongerHand"@,
        PlayerField::EditedFace => "EditedFace"@,
        PlayerField::EditedHair => "EditedHair"@,
        PlayerField::EditedPhysique => "EditedPhysique"@,
        PlayerField::EditedStrip => "EditedStrip"@,
        PlayerField::BootsId => "BootsId"@,
        PlayerField::GlovesId => "GlovesId"@,
        PlayerField::BaseCopyId => "BaseCopyId"@,
        PlayerField::NeckLength => "NeckLength"@,
        PlayerField::NeckSize => "NeckSize"@,
        PlayerField::ShoulderHeight => "ShoulderHeight"@,
        PlayerField::ShoulderWidth => "ShoulderWidth"@,
        PlayerField::Chest => "Chest"@,
        PlayerField::Waist => "Waist"@,
        PlayerField::ArmSize => "ArmSize"@,
        PlayerField::ArmLength => "ArmLength"@,
        PlayerField::Thigh => "Thigh"@,
        PlayerField::Calf => "Calf"@,
        PlayerField::LegLength => "LegLength"@,
        PlayerField::HeadLength => "HeadLength"@,
        PlayerField::HeadWidth => "HeadWidth"@,
        PlayerField::HeadDepth => "HeadDepth"@,
        PlayerField::WristTapeColorLeft => "WristTapeColorLeft"@,
        PlayerField::WristTapeColorRight => "WristTapeColorRight"@,
        PlayerField::WristTaping => "WristTaping"@,
        PlayerField::SpectaclesColor => "SpectaclesColor"@,
        PlayerField::SpectaclesStyle => "SpectaclesStyle"@,
        PlayerField::Sleeves => "Sleeves"@,
        PlayerField::Inners => "Inners"@,
        PlayerField::Socks => "Socks"@,
        PlayerField::Undershorts => "Undershorts"@,
        PlayerField::Untucked => "Untucked"@,
        PlayerField::AnkleTaping => "AnkleTaping"@,
        PlayerField::PlayerGloves => "PlayerGloves"@,
        PlayerField::PlayerGlovesColor => "PlayerGlovesColor"@,
        PlayerField::SkinColor => "SkinColor"@,
        PlayerField::IrisColor => "IrisColor"@,
    }
}

impl FieldName for PlayerField {
    open spec fn spec_name(&self) -> Seq<char> {
        player_field_name(*self)
    }

    fn name(&self) -> (s: String) {
        match *self {
            PlayerField::Id => "Id".to_owned(),
            PlayerField::Nationality => "Nationality".to_owned(),
            PlayerField::Height => "Height".to_owned(),
            PlayerField::Weight => "Weight".to_owned(),
            PlayerField::GoalCelebration1 => "GoalCelebration1".to_owned(),
            PlayerField::GoalCelebration2 => "GoalCelebration2".to_owned(),
            PlayerField::AttackingProwess => "AttackingProwess".to_owned(),
            PlayerField::DefensiveProwess => "DefensiveProwess".to_owned(),
            PlayerField::Goalkeeping => "Goalkeeping".to_owned(),
            PlayerField::Dribbling => "Dribbling".to_owned(),
            PlayerField::FreeKickMotion => "FreeKickMotion".to_owned(),
            PlayerField::Finishing => "Finishing".to_owned(),
            PlayerField::LowPass => "LowPass".to_owned(),
            PlayerField::LoftedPass => "LoftedPass".to_owned(),
            PlayerField::Heading => "Heading".to_owned(),
            PlayerField::Form => "Form".to_owned(),
            PlayerField::EditedPlayer => "EditedPlayer".to_owned(),
            PlayerField::Swerve => "Swerve".to_owned(),
            PlayerField::Catching => "Catching".to_owned(),
            PlayerField::Clearing => "Clearing".to_owned(),
            PlayerField::Reflexes => "Reflexes".to_owned(),
            PlayerField::InjuryResistance => "InjuryResistance".to_owned(),
            PlayerField::EditedBasicSettings => "EditedBasicSettings".to_owned(),
            PlayerField::BodyControl => "BodyControl".to_owned(),
            PlayerField::PhysicalContact => "PhysicalContact".to_owned(),
            PlayerField::KickingPower => "KickingPower".to_owned(),
            PlayerField::ExplosivePower => "ExplosivePower".to_owned(),
            PlayerField::ArmMovementDribbling => "ArmMovementDribbling".to_owned(),
            PlayerField::EditedRegisteredPosition => "EditedRegisteredPosition".to_owned(),
            PlayerField::Age => "Age".to_owned(),
            PlayerField::RegisteredPosition => "RegisteredPosition".to_owned(),
            PlayerField::PlayingStyle => "PlayingStyle".to_owned(),
            PlayerField::BallControl => "BallControl".to_owned(),
            PlayerField::BallWinning => "BallWinning".to_owned(),
            PlayerField::WeakFootAccuracy => "WeakFootAccuracy".to_owned(),
            PlayerField::Jump => "Jump".to_owned(),
            PlayerField::ArmMovementRunning => "ArmMovementRunning".to_owned(),
            PlayerField::CornerKickMotion => "CornerKickMotion".to_owned(),
            PlayerField::Coverage => "Coverage".to_owned(),
            PlayerField::WeakFootUsage => "WeakFootUsage".to_owned(),
            PlayerField::PlayablePosition(i) => {
                let mut s = "PlayablePosition(".to_owned();
                push_decimal(&mut s, i as u32);
                append_str(&mut s, ")");
                s
            },
            PlayerField::HunchingDribbling => "HunchingDribbling".to_owned(),
            PlayerField::HunchingRunning => "HunchingRunning".to_owned(),
            PlayerField::PenaltyKickMotion => "PenaltyKickMotion".to_owned(),
            PlayerField::PlaceKicking => "PlaceKicking".to_owned(),
            PlayerField::EditedPlayablePositions => "EditedPlayablePositions".to_owned(),
            PlayerField::EditedAbilities => "EditedAbilities".to_owned(),
            PlayerField::EditedSkills => "EditedSkills".to_owned(),
            PlayerField::Stamina => "Stamina".to_owned(),
            PlayerField::Speed => "Speed".to_owned(),
            PlayerField::EditedPlayingStyle => "EditedPlayingStyle".to_owned(),
            PlayerField::EditedComStyles => "EditedComStyles".to_owned(),
            PlayerField::EditedMotion => "EditedMotion".to_owned(),
            PlayerField::BaseCopy => "BaseCopy".to_owned(),
            PlayerField::StrongerFoot => "StrongerFoot".to_owned(),
            PlayerField::ComStyle(i) => {
                let mut s = "ComStyle(".to_owned();
                push_decimal(&mut s, i as u32);
                append_str(&mut s, ")");
                s
            },
            PlayerField::Skill(i) => {
                let mut s = "Skill(".to_owned();
                push_decimal(&mut s, i as u32);
                append_str(&mut s, ")");
                s
            },
            PlayerField::Star => "Star".to_owned(),
            PlayerField::DribblingMotion => "DribblingMotion".to_owned(),
            PlayerField::TightPossession => "TightPossession".to_owned(),
            PlayerField::Aggression => "Aggression".to_owned(),
            PlayerField::PlayingAttitude => "PlayingAttitude".to_owned(),
            PlayerField::StrongerHand => "StrongerHand".to_owned(),
            PlayerField::EditedFace => "EditedFace".to_owned(),
            PlayerField::EditedHair => "EditedHair".to_owned(),
            PlayerField::EditedPhysique => "EditedPhysique".to_owned(),
            PlayerField::EditedStrip => "EditedStrip".to_owned(),
            PlayerField::BootsId => "BootsId".to_owned(),
            PlayerField::GlovesId => "GlovesId".to_owned(),
            PlayerField::BaseCopyId => "BaseCopyId".to_owned(),
            PlayerField::NeckLength => "NeckLength".to_owned(),
            PlayerField::NeckSize => "NeckSize".to_owned(),
            PlayerField::ShoulderHeight => "ShoulderHeight".to_owned(),
            PlayerField::ShoulderWidth => "ShoulderWidth".to_owned(),
            PlayerField::Chest => "Chest".to_owned(),
            PlayerField::Waist => "Waist".to_owned(),
            PlayerField::ArmSize => "ArmSize".to_owned(),
            PlayerField::ArmLength => "ArmLength".to_owned(),
            PlayerField::Thigh => "Thigh".to_owned(),
            PlayerField::Calf => "Calf".to_owned(),
            PlayerField::LegLength => "LegLength".to_owned(),
            PlayerField::HeadLength => "HeadLength".to_owned(),
            PlayerField::HeadWidth => "HeadWidth".to_owned(),
            PlayerField::HeadDepth => "HeadDepth".to_owned(),
            PlayerField::WristTapeColorLeft => "WristTapeColorLeft".to_owned(),
            PlayerField::WristTapeColorRight => "WristTapeColorRight".to_owned(),
            PlayerField::WristTaping => "WristTaping".to_owned(),
            PlayerField::SpectaclesColor => "SpectaclesColor".to_owned(),
            PlayerField::SpectaclesStyle => "SpectaclesStyle".to_owned(),
            PlayerField::Sleeves => "Sleeves".to_owned(),
            PlayerField::Inners => "Inners".to_owned(),
            PlayerField::Socks => "Socks".to_owned(),
            PlayerField::Undershorts => "Undershorts".to_owned(),
            PlayerField::Untucked => "Untucked".to_owned(),
            PlayerField::AnkleTaping => "AnkleTaping".to_owned(),
            PlayerField::PlayerGloves => "PlayerGloves".to_owned(),
            PlayerField::PlayerGlovesColor => "PlayerGlovesColor".to_owned(),
            PlayerField::SkinColor => "SkinColor".to_owned(),
            PlayerField::IrisColor => "IrisColor".to_owned(),
        }
    }
}

/// The name of a `PlayerText`: its variant, with its indices in decimal.
pub open spec fn player_text_name(f: PlayerText) -> Seq<char> {
    match f {
        PlayerText::Name => "Name"@,
        PlayerText::ShirtName => "ShirtName"@,
    }
}

impl FieldName for PlayerText {
    open spec fn spec_name(&self) -> Seq<char> {
        player_text_name(*self)
    }

    fn name(&self) -> (s: String) {
        match *self {
            PlayerText::Name => "Name".to_owned(),
            PlayerText::ShirtName => "ShirtName".to_owned(),
        }
    }
}

/// The name of a `TeamField`: its variant, with its indices in decimal.
pub open spec fn team_field_name(f: TeamField) -> Seq<char> {
    match f {
        TeamField::Id => "Id"@,
        TeamField::ManagerId => "ManagerId"@,
        TeamField::StadiumId => "StadiumId"@,
        TeamField::EditedName => "EditedName"@,
        TeamField::EditedShortName => "EditedShortName"@,
        TeamField::EditedStadium => "EditedStadium"@,
        TeamField::EditedStrip => "EditedStrip"@,
        TeamField::Color1Red => "Color1Red"@,
        TeamField::Color1Green => "Color1Green"@,
        TeamField::Color1Blue => "Color1Blue"@,
        TeamField::Color2Red => "Color2Red"@,
        TeamField::Color2Green => "Color2Green"@,
        TeamField::Color2Blue => "Color2Blue"@,
        TeamField::KitSlotNumber(i) => "KitSlotNumber("@ + decimal(i as nat) + ")"@,
        TeamField::KitSlotTeam(i) => "KitSlotTeam("@ + decimal(i as nat) + ")"@,
    }
}

impl FieldName for TeamField {
    open spec fn spec_name(&self) -> Seq<char> {
        team_field_name(*self)
    }

    fn name(&self) -> (s: String) {
        match *self {
            TeamField::Id => "Id".to_owned(),
            TeamField::ManagerId => "ManagerId".to_owned(),
            TeamField::StadiumId => "StadiumId".to_owned(),
            TeamField::EditedName => "EditedName".to_owned(),
            TeamField::EditedShortName => "EditedShortName".to_owned(),
            TeamField::EditedStadium => "EditedStadium".to_owned(),
            TeamField::EditedStrip => "EditedStrip".to_owned(),
            TeamField::Color1Red => "Color1Red".to_owned(),
            TeamField::Color1Green => "Color1Green".to_owned(),
            TeamField::Color1Blue => "Color1Blue".to_owned(),
            TeamField::Color2Red => "Color2Red".to_owned(),
            TeamField::Color2Green => "Color2Green".to_owned(),
            TeamField::Color2Blue => "Color2Blue".to_owned(),
            TeamField::KitSlotNumber(i) => {
                let mut s = "KitSlotNumber(".to_owned();
                push_decimal(&mut s, i as u32);
                append_str(&mut s, ")");
                s
            },
            TeamField::KitSlotTeam(i) => {
                let mut s = "KitSlotTeam(".to_owned();
                push_decimal(&mut s, i as u32);
                append_str(&mut s, ")");
                s
            },
        }
    }
}

/// The name of a `TeamText`: its variant, with its indices in decimal.
pub open spec fn team_text_name(f: TeamText) -> Seq<char> {
    match f {
        TeamText::Name => "Name"@,
        TeamText::ShortName => "ShortName"@,
    }
}

impl FieldName for TeamText {
    open spec fn spec_name(&self) -> Seq<char> {
        team_text_name(*self)
    }

    fn name(&self) -> (s: String) {
        match *self {
            TeamText::Name => "Name".to_owned(),
            TeamText::ShortName => "ShortName".to_owned(),
        }
    }
}

/// The name of a `RosterField`: its variant, with its indices in decimal.
pub open spec fn roster_field_name(f: RosterField) -> Seq<char> {
    match f {
        RosterField::TeamId => "TeamId"@,
        RosterField::Player(i) => "Player("@ + decimal(i as nat) + ")"@,
        RosterField::Number(i) => "Number("@ + decimal(i as nat) + ")"@,
    }
}

impl FieldName for RosterField {
    open spec fn spec_name(&self) -> Seq<char> {
        roster_field_name(*self)
    }

    fn name(&self) -> (s: String) {
        match *self {
            RosterField::TeamId => "TeamId".to_owned(),
            RosterField::Player(i) => {
                let mut s = "Player(".to_owned();
                push_decimal(&mut s, i as u32);
                append_str(&mut s, ")");
                s
            },
            RosterField::Number(i) => {
                let mut s = "Number(".to_owned();
                push_decimal(&mut s, i as u32);
                append_str(&mut s, ")");
                s
            },
        }
    }
}

/// The name of a `PresetField`: its variant, with its indices in decimal.
pub open spec fn preset_field_name(f: PresetField) -> Seq<char> {
    match f {
        PresetField::AttackingStyle => "AttackingStyle"@,
        PresetField::Buildup => "Buildup"@,
        PresetField::AttackingZone => "AttackingZone"@,
        PresetField::Positioning => "Positioning"@,
        PresetField::DefensiveStyle => "DefensiveStyle"@,
        PresetField::ContainmentArea => "ContainmentArea"@,
        PresetField::Pressure => "Pressure"@,
        PresetField::FluidFormation => "FluidFormation"@,
        PresetField::SupportRange => "SupportRange"@,
        PresetField::DefensiveLine => "DefensiveLine"@,
        PresetField::Compactness => "Compactness"@,
        PresetField::NumbersInAttack => "NumbersInAttack"@,
        PresetField::NumbersInDefence => "NumbersInDefence"@,
    }
}

impl FieldName for PresetField {
    open spec fn spec_name(&self) -> Seq<char> {
        preset_field_name(*self)
    }

    fn name(&self) -> (s: String) {
        match *self {
            PresetField::AttackingStyle => "AttackingStyle".to_owned(),
            PresetField::Buildup => "Buildup".to_owned(),
            PresetField::AttackingZone => "AttackingZone".to_owned(),
            PresetField::Positioning => "Positioning".to_owned(),
            PresetField::DefensiveStyle => "DefensiveStyle".to_owned(),
            PresetField::ContainmentArea => "ContainmentArea".to_owned(),
            PresetField::Pressure => "Pressure".to_owned(),
            PresetField::FluidFormation => "FluidFormation".to_owned(),
            PresetField::SupportRange => "SupportRange".to_owned(),
            PresetField::DefensiveLine => "DefensiveLine".to_owned(),
            PresetField::Compactness => "Compactness".to_owned(),
            PresetField::NumbersInAttack => "NumbersInAttack".to_owned(),
            PresetField::NumbersInDefence => "NumbersInDefence".to_owned(),
        }
    }
}

/// The name of a `FormationPart`: its variant, with its indices in decimal.
pub open spec fn formation_part_name(f: FormationPart) -> Seq<char> {
    match f {
        FormationPart::Position => "Position"@,
        FormationPart::Y => "Y"@,
        FormationPart::X => "X"@,
    }
}

impl FieldName for FormationPart {
    open spec fn spec_name(&self) -> Seq<char> {
        formation_part_name(*self)
    }

    fn name(&self) -> (s: String) {
        match *self {
            FormationPart::Position => "Position".to_owned(),
            FormationPart::Y => "Y".to_owned(),
            FormationPart::X => "X".to_owned(),
        }
    }
}

/// The name of a `InstructionSide`: its variant, with its indices in decimal.
pub open spec fn instruction_side_name(f: InstructionSide) -> Seq<char> {
    match f {
        InstructionSide::Attack => "Attack"@,
        InstructionSide::Defence => "Defence"@,
    }
}

impl FieldName for InstructionSide {
    open spec fn spec_name(&self) -> Seq<char> {
        instruction_side_name(*self)
    }

    fn name(&self) -> (s: String) {
        match *self {
            InstructionSide::Attack => "Attack".to_owned(),
            InstructionSide::Defence => "Defence".to_owned(),
        }
    }
}

/// The name of a `InstructionPart`: its variant, with its indices in decimal.
pub open spec fn instruction_part_name(f: InstructionPart) -> Seq<char> {
    match f {
        InstructionPart::Instruction => "Instruction"@,
        InstructionPart::PlayerId => "PlayerId"@,
    }
}

impl FieldName for InstructionPart {
    open spec fn spec_name(&self) -> Seq<char> {
        instruction_part_name(*self)
    }

    fn name(&self) -> (s: String) {
        match *self {
            InstructionPart::Instruction => "Instruction".to_owned(),
            InstructionPart::PlayerId => "PlayerId".to_owned(),
        }
    }
}

/// The name of a `TacticsField`: its variant, with its indices in decimal.
pub open spec fn tactics_field_name(f: TacticsField) -> Seq<char> {
    match f {
        TacticsField::TeamId => "TeamId"@,
        TacticsField::Preset { preset, field } => "Preset { preset: "@ + decimal(preset as nat) + ", field: "@ + preset_field_name(field) + " }"@,
        TacticsField::Formation { preset, formation, slot, part } => "Formation { preset: "@ + decimal(preset as nat) + ", formation: "@ + decimal(formation as nat) + ", slot: "@ + decimal(slot as nat) + ", part: "@ + formation_part_name(part) + " }"@,
        TacticsField::Instruction { preset, side, index, part } => "Instruction { preset: "@ + decimal(preset as nat) + ", side: "@ + instruction_side_name(side) + ", index: "@ + decimal(index as nat) + ", part: "@ + instruction_part_name(part) + " }"@,
        TacticsField::FreeKickTakerLong => "FreeKickTakerLong"@,
        TacticsField::FreeKickTakerShort => "FreeKickTakerShort"@,
        TacticsField::FreeKickTakerSecond => "FreeKickTakerSecond"@,
        TacticsField::CornerTakerLeft => "CornerTakerLeft"@,
        TacticsField::CornerTakerRight => "CornerTakerRight"@,
        TacticsField::PenaltyTaker => "PenaltyTaker"@,
        TacticsField::Captain => "Captain"@,
        TacticsField::AutoSubstitution => "AutoSubstitution"@,
        TacticsField::AutoOffsideTrap => "AutoOffsideTrap"@,
        TacticsField::AutoPresetChange => "AutoPresetChange"@,
        TacticsField::AutoAttackDefenceLevels => "AutoAttackDefenceLevels"@,
        TacticsField::Starting(i) => "Starting("@ + decimal(i as nat) + ")"@,
        TacticsField::Bench(i) => "Bench("@ + decimal(i as nat) + ")"@,
        TacticsField::PlayerToJoinAttack(i) => "PlayerToJoinAttack("@ + decimal(i as nat) + ")"@,
    }
}

impl FieldName for TacticsField {
    open spec fn spec_name(&self) -> Seq<char> {
        tactics_field_name(*self)
    }

    fn name(&self) -> (s: String) {
        match *self {
            TacticsField::TeamId => "TeamId".to_owned(),
            TacticsField::Preset { preset, field } => {
                let mut s = "Preset { preset: ".to_owned();
                push_decimal(&mut s, preset as u32);
                append_str(&mut s, ", field: ");
                let text = field.name();
                append_str(&mut s, text.as_str());
                append_str(&mut s, " }");
                s
            },
            TacticsField::Formation { preset, formation, slot, part } => {
                let mut s = "Formation { preset: ".to_owned();
                push_decimal(&mut s, preset as u32);
                append_str(&mut s, ", formation: ");
                push_decimal(&mut s, formation as u32);
                append_str(&mut s, ", slot: ");
                push_decimal(&mut s, slot as u32);
                append_str(&mut s, ", part: ");
                let text = part.name();
                append_str(&mut s, text.as_str());
                append_str(&mut s, " }");
                s
            },
            TacticsField::Instruction { preset, side, index, part } => {
                let mut s = "Instruction { preset: ".to_owned();
                push_decimal(&mut s, preset as u32);
                append_str(&mut s, ", side: ");
                let text = side.name();
                append_str(&mut s, text.as_str());
                append_str(&mut s, ", index: ");
                push_decimal(&mut s, index as u32);
                append_str(&mut s, ", part: ");
                let text = part.name();
                append_str(&mut s, text.as_str());
                append_str(&mut s, " }");
                s
            },
            TacticsField::FreeKickTakerLong => "FreeKickTakerLong".to_owned(),
            TacticsField::FreeKickTakerShort => "FreeKickTakerShort".to_owned(),
            TacticsField::FreeKickTakerSecond => "FreeKickTakerSecond".to_owned(),
            TacticsField::CornerTakerLeft => "CornerTakerLeft".to_owned(),
            TacticsField::CornerTakerRight => "CornerTakerRight".to_owned(),
            TacticsField::PenaltyTaker => "PenaltyTaker".to_owned(),
            TacticsField::Captain => "Captain".to_owned(),
            TacticsField::AutoSubstitution => "AutoSubstitution".to_owned(),
            TacticsField::AutoOffsideTrap => "AutoOffsideTrap".to_owned(),
            TacticsField::AutoPresetChange => "AutoPresetChange".to_owned(),
            TacticsField::AutoAttackDefenceLevels => "AutoAttackDefenceLevels".to_owned(),
            TacticsField::Starting(i) => {
                let mut s = "Starting(".to_owned();
                push_decimal(&mut s, i as u32);
                append_str(&mut s, ")");
                s
            },
            TacticsField::Bench(i) => {
                let mut s = "Bench(".to_owned();
                push_decimal(&mut s, i as u32);
                append_str(&mut s, ")");
                s
            },
            TacticsField::PlayerToJoinAttack(i) => {
                let mut s = "PlayerToJoinAttack(".to_owned();
                push_decimal(&mut s, i as u32);
                append_str(&mut s, ")");
                s
            },
        }
    }
}

/// The name of a `IngameFaceField`: its variant, with its indices in decimal.
pub open spec fn ingame_face_field_name(f: IngameFaceField) -> Seq<char> {
    match f {
        IngameFaceField::PlayerGloves => "PlayerGloves"@,
        IngameFaceField::PlayerGlovesColor => "PlayerGlovesColor"@,
        IngameFaceField::SkinColor => "SkinColor"@,
    }
}

impl FieldName for IngameFaceField {
    open spec fn spec_name(&self) -> Seq<char> {
        ingame_face_field_name(*self)
    }

    fn name(&self) -> (s: String) {
        match *self {
            IngameFaceField::PlayerGloves => "PlayerGloves".to_owned(),
            IngameFaceField::PlayerGlovesColor => "PlayerGlovesColor".to_owned(),
            IngameFaceField::SkinColor => "SkinColor".to_owned(),
        }
    }
}

} // verus!
