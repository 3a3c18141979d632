//! `PlayerEntry`: the version-independent player model. Fields a version lacks
//! are `Option` (the record has no run for them) or defaulted to 0/false; the
//! schema decides what is read and written, the model just holds the result.
use vstd::prelude::*;

use crate::codec::{index, missing, CodecError};
use crate::schema::PlayerField;
use crate::model::ingame_face::IngameFace;

verus! {

/// One player of the save: identity, abilities, positions, skills, motion, the
/// game's own edit flags and the appearance block (a separate record on PES
/// 15/16, part of the player record later).
#[derive(Debug, Clone, PartialEq)]
pub struct PlayerEntry {
    /// The player id (team id x 100 + slot for cup players).
    pub id: u32,
    /// Display name, colour codes included.
    pub name: String,
    /// Shirt name (single-byte text on disk).
    pub shirt_name: String,
    /// Nationality and physique basics.
    pub basic: PlayerBasics,
    /// The ability numbers plus form, injury and the version-gated ratings.
    pub stats: PlayerStats,
    /// Registered/playable positions and the playing style.
    pub positions: PlayerPositions,
    /// Skill and COM-playing-style flags.
    pub skills: PlayerSkills,
    /// Motion selections (hunching, arms, kick motions, celebrations).
    pub motion: PlayerMotion,
    /// The game's own "was edited" flags, one per editor section.
    pub edit_flags: PlayerEditFlags,
    /// Boots/gloves/base-copy ids, physique measurements and kit styling.
    pub appearance: PlayerAppearance,
}

/// Nationality and physique basics.
#[derive(Debug, Clone, Copy, PartialEq)]
pub struct PlayerBasics {
    /// Nationality id.
    pub nationality: u16,
    /// Age.
    pub age: u8,
    /// Height in cm.
    pub height: u8,
    /// Weight in kg.
    pub weight: u8,
}

/// The ability numbers. The `Option` fields exist only from the version on
/// that introduced them (`None` = this save's version has no such stat).
#[derive(Debug, Clone, Copy, PartialEq)]
pub struct PlayerStats {
    /// Attacking Prowess (Offensive Awareness).
    pub attacking_prowess: u8,
    /// Ball Control.
    pub ball_control: u8,
    /// Dribbling.
    pub dribbling: u8,
    /// Low Pass.
    pub low_pass: u8,
    /// Lofted Pass.
    pub lofted_pass: u8,
    /// Finishing.
    pub finishing: u8,
    /// Place Kicking.
    pub place_kicking: u8,
    /// Swerve (Curl).
    pub swerve: u8,
    /// Header (Heading).
    pub heading: u8,
    /// Defensive Prowess (Defensive Awareness).
    pub defensive_prowess: u8,
    /// Ball Winning (Tackling).
    pub ball_winning: u8,
    /// Kicking Power.
    pub kicking_power: u8,
    /// Speed.
    pub speed: u8,
    /// Explosive Power (Acceleration).
    pub explosive_power: u8,
    /// Body Control (Body Balance on PES 16).
    pub body_control: u8,
    /// Physical Contact (PES 17+).
    pub physical_contact: Option<u8>,
    /// Jump.
    pub jump: u8,
    /// Goalkeeping (GK Awareness).
    pub goalkeeping: u8,
    /// Catching (Saving on PES 15; folded into the GK set from PES 16).
    pub catching: Option<u8>,
    /// Clearing (PES 16+).
    pub clearing: Option<u8>,
    /// Reflexes (PES 16+).
    pub reflexes: Option<u8>,
    /// Coverage (PES 16+).
    pub coverage: Option<u8>,
    /// Stamina.
    pub stamina: u8,
    /// Weak Foot Usage.
    pub weak_foot_usage: u8,
    /// Weak Foot Accuracy.
    pub weak_foot_accuracy: u8,
    /// Form (Condition), 1 to 8 stored 0 to 7.
    pub form: u8,
    /// Injury Resistance.
    pub injury_resistance: u8,
    /// Star rating (PES 19+).
    pub star: Option<u8>,
    /// Tight Possession (PES 20+).
    pub tight_possession: Option<u8>,
    /// Aggression (PES 20+).
    pub aggression: Option<u8>,
    /// Playing attitude (PES 20+).
    pub playing_attitude: Option<u8>,
}

/// Registered/playable positions and the playing style.
#[derive(Debug, Clone, Copy, PartialEq)]
pub struct PlayerPositions {
    /// Registered position, GK 0 to CF 12.
    pub registered: u8,
    /// Playable position rating (0 none, 1 C, 2 B, 3 A), CF 0 to GK 12.
    pub playable: [u8; 13],
    /// Playing style, a version-specific index.
    pub playing_style: u8,
    /// Stronger foot (0 right, 1 left).
    pub stronger_foot: u8,
    /// Stronger hand (PES 20+).
    pub stronger_hand: Option<u8>,
}

/// Skill and COM-playing-style flags.
#[derive(Debug, Clone, Copy, PartialEq)]
pub struct PlayerSkills {
    /// Player skills, 0 Scissors Feint to 40 Through Passing. Older versions
    /// carry fewer skills; the schema maps them into these canonical slots.
    pub skills: [bool; 41],
    /// COM playing styles, 0 Trickster to 6 Long Ranger.
    pub com_styles: [bool; 7],
}

/// Motion selections.
#[derive(Debug, Clone, Copy, PartialEq)]
pub struct PlayerMotion {
    /// Hunching while dribbling.
    pub hunching_dribbling: u8,
    /// Hunching while running.
    pub hunching_running: u8,
    /// Arm movement while dribbling.
    pub arm_movement_dribbling: u8,
    /// Arm movement while running.
    pub arm_movement_running: u8,
    /// Corner kick motion.
    pub corner_kick: u8,
    /// Free kick motion.
    pub free_kick: u8,
    /// Penalty kick motion.
    pub penalty_kick: u8,
    /// Dribbling motion (PES 20+).
    pub dribbling: Option<u8>,
    /// First goal celebration.
    pub goal_celebration_1: u8,
    /// Second goal celebration.
    pub goal_celebration_2: u8,
}

/// The game's own per-section "was edited" flags.
#[derive(Debug, Clone, Copy, PartialEq)]
pub struct PlayerEditFlags {
    /// The player was created or edited.
    pub player: bool,
    /// The basic settings were edited.
    pub basic_settings: bool,
    /// The registered position was edited.
    pub registered_position: bool,
    /// The playable positions were edited.
    pub playable_positions: bool,
    /// The abilities were edited.
    pub abilities: bool,
    /// The skills were edited.
    pub skills: bool,
    /// The playing style was edited.
    pub playing_style: bool,
    /// The COM playing styles were edited.
    pub com_styles: bool,
    /// The motions were edited.
    pub motion: bool,
    /// The player is a base copy of another.
    pub base_copy: bool,
    /// The face was edited.
    pub face: bool,
    /// The hairstyle was edited.
    pub hair: bool,
    /// The physique was edited.
    pub physique: bool,
    /// The strip style was edited.
    pub strip: bool,
}

/// Boots/gloves/base-copy ids, physique measurements and kit styling, and
/// the ingame-face run.
#[derive(Debug, Clone, PartialEq)]
pub struct PlayerAppearance {
    /// Boots model id.
    pub boots_id: u32,
    /// Goalkeeper gloves model id.
    pub gloves_id: u32,
    /// Base copy player id (the player's own id when unset).
    pub base_copy_id: u32,
    /// Neck length.
    pub neck_length: u8,
    /// Neck size.
    pub neck_size: u8,
    /// Shoulder height.
    pub shoulder_height: u8,
    /// Shoulder width.
    pub shoulder_width: u8,
    /// Chest measurement.
    pub chest: u8,
    /// Waist size.
    pub waist: u8,
    /// Arm size.
    pub arm_size: u8,
    /// Arm length.
    pub arm_length: u8,
    /// Thigh size.
    pub thigh: u8,
    /// Calf size.
    pub calf: u8,
    /// Leg length.
    pub leg_length: u8,
    /// Head length.
    pub head_length: u8,
    /// Head width.
    pub head_width: u8,
    /// Head depth.
    pub head_depth: u8,
    /// Left wrist tape colour.
    pub wrist_tape_color_left: u8,
    /// Right wrist tape colour.
    pub wrist_tape_color_right: u8,
    /// Wrist taping.
    pub wrist_taping: u8,
    /// Spectacles frame colour.
    pub spectacles_color: u8,
    /// Spectacles style.
    pub spectacles_style: u8,
    /// Sleeves.
    pub sleeves: u8,
    /// Long-sleeved inners.
    pub inners: u8,
    /// Sock length.
    pub socks: u8,
    /// Undershorts.
    pub undershorts: u8,
    /// Shirttail out.
    pub untucked: bool,
    /// Ankle taping.
    pub ankle_taping: bool,
    /// Player (outfield) gloves.
    pub player_gloves: bool,
    /// Player gloves colour.
    pub player_gloves_color: u8,
    /// Skin colour.
    pub skin_color: u8,
    /// Iris colour.
    pub iris_color: u8,
    /// The ingame-face run, as read from the record that carries it (empty
    /// until one is read).
    pub ingame_face: IngameFace,
}

/// How a record value is held in the model: the low 8 or 16 bits, the whole
/// word, or a flag that is set for any non-zero value.
#[derive(Debug, Clone, Copy, PartialEq, Eq, Structural)]
pub enum FieldKind {
    /// A `u8` model field.
    Byte,
    /// A `u16` model field.
    Short,
    /// A `u32` model field.
    Word,
    /// A `bool` model field.
    Flag,
}

/// What a model field of `kind` holds after `value` is stored into it.
pub open spec fn stored(kind: FieldKind, value: u32) -> u32 {
    match kind {
        FieldKind::Byte => (value as u8) as u32,
        FieldKind::Short => (value as u16) as u32,
        FieldKind::Word => value,
        FieldKind::Flag => if value != 0 { 1 } else { 0 },
    }
}

/// The value a flag reads as.
pub open spec fn flag(b: bool) -> u32 {
    if b { 1 } else { 0 }
}

/// The value an optional byte reads as: none while the version lacks the field.
pub open spec fn opt_byte(b: Option<u8>) -> Option<u32> {
    match b {
        Some(v) => Some(v as u32),
        None => None,
    }
}

/// How `field` is held in the model.
pub open spec fn player_field_kind(field: PlayerField) -> FieldKind {
    match field {
        PlayerField::Height | PlayerField::Weight | PlayerField::GoalCelebration1 | PlayerField::GoalCelebration2 | PlayerField::AttackingProwess | PlayerField::DefensiveProwess | PlayerField::Goalkeeping | PlayerField::Dribbling | PlayerField::FreeKickMotion | PlayerField::Finishing | PlayerField::LowPass | PlayerField::LoftedPass | PlayerField::Heading | PlayerField::Form | PlayerField::Swerve | PlayerField::Catching | PlayerField::Clearing | PlayerField::Reflexes | PlayerField::InjuryResistance | PlayerField::BodyControl | PlayerField::PhysicalContact | PlayerField::KickingPower | PlayerField::ExplosivePower | PlayerField::ArmMovementDribbling | PlayerField::Age | PlayerField::RegisteredPosition | PlayerField::PlayingStyle | PlayerField::BallControl | PlayerField::BallWinning | PlayerField::WeakFootAccuracy | PlayerField::Jump | PlayerField::ArmMovementRunning | PlayerField::CornerKickMotion | PlayerField::Coverage | PlayerField::WeakFootUsage | PlayerField::HunchingDribbling | PlayerField::HunchingRunning | PlayerField::PenaltyKickMotion | PlayerField::PlaceKicking | PlayerField::Stamina | PlayerField::Speed | PlayerField::StrongerFoot | PlayerField::Star | PlayerField::DribblingMotion | PlayerField::TightPossession | PlayerField::Aggression | PlayerField::PlayingAttitude | PlayerField::StrongerHand | PlayerField::NeckLength | PlayerField::NeckSize | PlayerField::ShoulderHeight | PlayerField::ShoulderWidth | PlayerField::Chest | PlayerField::Waist | PlayerField::ArmSize | PlayerField::ArmLength | PlayerField::Thigh | PlayerField::Calf | PlayerField::LegLength | PlayerField::HeadLength | PlayerField::HeadWidth | PlayerField::HeadDepth | PlayerField::WristTapeColorLeft | PlayerField::WristTapeColorRight | PlayerField::WristTaping | PlayerField::SpectaclesColor | PlayerField::SpectaclesStyle | PlayerField::Sleeves | PlayerField::Inners | PlayerField::Socks | PlayerField::Undershorts | PlayerField::PlayerGlovesColor | PlayerField::SkinColor | PlayerField::IrisColor | PlayerField::PlayablePosition(_) => FieldKind::Byte,
        PlayerField::Nationality => FieldKind::Short,
        PlayerField::Id | PlayerField::BootsId | PlayerField::GlovesId | PlayerField::BaseCopyId => FieldKind::Word,
        PlayerField::EditedPlayer | PlayerField::EditedBasicSettings | PlayerField::EditedRegisteredPosition | PlayerField::EditedPlayablePositions | PlayerField::EditedAbilities | PlayerField::EditedSkills | PlayerField::EditedPlayingStyle | PlayerField::EditedComStyles | PlayerField::EditedMotion | PlayerField::BaseCopy | PlayerField::EditedFace | PlayerField::EditedHair | PlayerField::EditedPhysique | PlayerField::EditedStrip | PlayerField::Untucked | PlayerField::AnkleTaping | PlayerField::PlayerGloves | PlayerField::ComStyle(_) | PlayerField::Skill(_) => FieldKind::Flag,
    }
}

/// Whether an indexed field names an element of its array (always true of the
/// other fields).
pub open spec fn player_index_in_range(field: PlayerField) -> bool {
    match field {
        PlayerField::PlayablePosition(i) => i < 13,
        PlayerField::ComStyle(i) => i < 7,
        PlayerField::Skill(i) => i < 41,
        _ => true,
    }
}

impl PlayerBasics {
    /// Whether `field` is held in this section.
    pub open spec fn holds(field: PlayerField) -> bool {
        match field {
            PlayerField::Nationality | PlayerField::Height | PlayerField::Weight | PlayerField::Age => true,
            _ => false,
        }
    }

    /// The value `field` reads as, if this section holds it.
    pub open spec fn value(self, field: PlayerField) -> Option<u32> {
        match field {
            PlayerField::Nationality => Some(self.nationality as u32),
            PlayerField::Height => Some(self.height as u32),
            PlayerField::Weight => Some(self.weight as u32),
            PlayerField::Age => Some(self.age as u32),
            _ => None,
        }
    }

    fn get_field(&self, field: PlayerField) -> (r: Option<u32>)
        ensures
            r == self.value(field),
    {
        match field {
            PlayerField::Nationality => Some(self.nationality as u32),
            PlayerField::Height => Some(self.height as u32),
            PlayerField::Weight => Some(self.weight as u32),
            PlayerField::Age => Some(self.age as u32),
            _ => None,
        }
    }

    fn set_field(&mut self, field: PlayerField, value: u32) -> (ok: bool)
        requires
            Self::holds(field),
        ensures
            ok == player_index_in_range(field),
            ok ==> forall|g: PlayerField|
                Self::holds(g) ==> #[trigger] final(self).value(g) == if g == field {
                    Some(stored(player_field_kind(field), value))
                } else {
                    old(self).value(g)
                },
            !ok ==> *final(self) == *old(self),
    {
        match field {
            PlayerField::Nationality => { self.nationality = value as u16; true },
            PlayerField::Height => { self.height = value as u8; true },
            PlayerField::Weight => { self.weight = value as u8; true },
            PlayerField::Age => { self.age = value as u8; true },
            _ => false,
        }
    }
}

impl PlayerStats {
    /// Whether `field` is held in this section.
    pub open spec fn holds(field: PlayerField) -> bool {
        match field {
            PlayerField::AttackingProwess | PlayerField::DefensiveProwess | PlayerField::Goalkeeping | PlayerField::Dribbling | PlayerField::Finishing | PlayerField::LowPass | PlayerField::LoftedPass | PlayerField::Heading | PlayerField::Form | PlayerField::Swerve | PlayerField::Catching | PlayerField::Clearing | PlayerField::Reflexes | PlayerField::InjuryResistance | PlayerField::BodyControl | PlayerField::PhysicalContact | PlayerField::KickingPower | PlayerField::ExplosivePower | PlayerField::BallControl | PlayerField::BallWinning | PlayerField::WeakFootAccuracy | PlayerField::Jump | PlayerField::Coverage | PlayerField::WeakFootUsage | PlayerField::PlaceKicking | PlayerField::Stamina | PlayerField::Speed | PlayerField::Star | PlayerField::TightPossession | PlayerField::Aggression | PlayerField::PlayingAttitude => true,
            _ => false,
        }
    }

    /// The value `field` reads as, if this section holds it.
    pub open spec fn value(self, field: PlayerField) -> Option<u32> {
        match field {
            PlayerField::AttackingProwess => Some(self.attacking_prowess as u32),
            PlayerField::DefensiveProwess => Some(self.defensive_prowess as u32),
            PlayerField::Goalkeeping => Some(self.goalkeeping as u32),
            PlayerField::Dribbling => Some(self.dribbling as u32),
            PlayerField::Finishing => Some(self.finishing as u32),
            PlayerField::LowPass => Some(self.low_pass as u32),
            PlayerField::LoftedPass => Some(self.lofted_pass as u32),
            PlayerField::Heading => Some(self.heading as u32),
            PlayerField::Form => Some(self.form as u32),
            PlayerField::Swerve => Some(self.swerve as u32),
            PlayerField::Catching => opt_byte(self.catching),
            PlayerField::Clearing => opt_byte(self.clearing),
            PlayerField::Reflexes => opt_byte(self.reflexes),
            PlayerField::InjuryResistance => Some(self.injury_resistance as u32),
            PlayerField::BodyControl => Some(self.body_control as u32),
            PlayerField::PhysicalContact => opt_byte(self.physical_contact),
            PlayerField::KickingPower => Some(self.kicking_power as u32),
            PlayerField::ExplosivePower => Some(self.explosive_power as u32),
            PlayerField::BallControl => Some(self.ball_control as u32),
            PlayerField::BallWinning => Some(self.ball_winning as u32),
            PlayerField::WeakFootAccuracy => Some(self.weak_foot_accuracy as u32),
            PlayerField::Jump => Some(self.jump as u32),
            PlayerField::Coverage => opt_byte(self.coverage),
            PlayerField::WeakFootUsage => Some(self.weak_foot_usage as u32),
            PlayerField::PlaceKicking => Some(self.place_kicking as u32),
            PlayerField::Stamina => Some(self.stamina as u32),
            PlayerField::Speed => Some(self.speed as u32),
            PlayerField::Star => opt_byte(self.star),
            PlayerField::TightPossession => opt_byte(self.tight_possession),
            PlayerField::Aggression => opt_byte(self.aggression),
            PlayerField::PlayingAttitude => opt_byte(self.playing_attitude),
            _ => None,
        }
    }

    fn get_field(&self, field: PlayerField) -> (r: Option<u32>)
        ensures
            r == self.value(field),
    {
        match field {
            PlayerField::AttackingProwess => Some(self.attacking_prowess as u32),
            PlayerField::DefensiveProwess => Some(self.defensive_prowess as u32),
            PlayerField::Goalkeeping => Some(self.goalkeeping as u32),
            PlayerField::Dribbling => Some(self.dribbling as u32),
            PlayerField::Finishing => Some(self.finishing as u32),
            PlayerField::LowPass => Some(self.low_pass as u32),
            PlayerField::LoftedPass => Some(self.lofted_pass as u32),
            PlayerField::Heading => Some(self.heading as u32),
            PlayerField::Form => Some(self.form as u32),
            PlayerField::Swerve => Some(self.swerve as u32),
            PlayerField::Catching => match self.catching { Some(v) => Some(v as u32), None => None },
            PlayerField::Clearing => match self.clearing { Some(v) => Some(v as u32), None => None },
            PlayerField::Reflexes => match self.reflexes { Some(v) => Some(v as u32), None => None },
            PlayerField::InjuryResistance => Some(self.injury_resistance as u32),
            PlayerField::BodyControl => Some(self.body_control as u32),
            PlayerField::PhysicalContact => match self.physical_contact { Some(v) => Some(v as u32), None => None },
            PlayerField::KickingPower => Some(self.kicking_power as u32),
            PlayerField::ExplosivePower => Some(self.explosive_power as u32),
            PlayerField::BallControl => Some(self.ball_control as u32),
            PlayerField::BallWinning => Some(self.ball_winning as u32),
            PlayerField::WeakFootAccuracy => Some(self.weak_foot_accuracy as u32),
            PlayerField::Jump => Some(self.jump as u32),
            PlayerField::Coverage => match self.coverage { Some(v) => Some(v as u32), None => None },
            PlayerField::WeakFootUsage => Some(self.weak_foot_usage as u32),
            PlayerField::PlaceKicking => Some(self.place_kicking as u32),
            PlayerField::Stamina => Some(self.stamina as u32),
            PlayerField::Speed => Some(self.speed as u32),
            PlayerField::Star => match self.star { Some(v) => Some(v as u32), None => None },
            PlayerField::TightPossession => match self.tight_possession { Some(v) => Some(v as u32), None => None },
            PlayerField::Aggression => match self.aggression { Some(v) => Some(v as u32), None => None },
            PlayerField::PlayingAttitude => match self.playing_attitude { Some(v) => Some(v as u32), None => None },
            _ => None,
        }
    }

    fn set_field(&mut self, field: PlayerField, value: u32) -> (ok: bool)
        requires
            Self::holds(field),
        ensures
            ok == player_index_in_range(field),
            ok ==> forall|g: PlayerField|
                Self::holds(g) ==> #[trigger] final(self).value(g) == if g == field {
                    Some(stored(player_field_kind(field), value))
                } else {
                    old(self).value(g)
                },
            !ok ==> *final(self) == *old(self),
    {
        match field {
            PlayerField::AttackingProwess => { self.attacking_prowess = value as u8; true },
            PlayerField::DefensiveProwess => { self.defensive_prowess = value as u8; true },
            PlayerField::Goalkeeping => { self.goalkeeping = value as u8; true },
            PlayerField::Dribbling => { self.dribbling = value as u8; true },
            PlayerField::Finishing => { self.finishing = value as u8; true },
            PlayerField::LowPass => { self.low_pass = value as u8; true },
            PlayerField::LoftedPass => { self.lofted_pass = value as u8; true },
            PlayerField::Heading => { self.heading = value as u8; true },
            PlayerField::Form => { self.form = value as u8; true },
            PlayerField::Swerve => { self.swerve = value as u8; true },
            PlayerField::Catching => { self.catching = Some(value as u8); true },
            PlayerField::Clearing => { self.clearing = Some(value as u8); true },
            PlayerField::Reflexes => { self.reflexes = Some(value as u8); true },
            PlayerField::InjuryResistance => { self.injury_resistance = value as u8; true },
            PlayerField::BodyControl => { self.body_control = value as u8; true },
            PlayerField::PhysicalContact => { self.physical_contact = Some(value as u8); true },
            PlayerField::KickingPower => { self.kicking_power = value as u8; true },
            PlayerField::ExplosivePower => { self.explosive_power = value as u8; true },
            PlayerField::BallControl => { self.ball_control = value as u8; true },
            PlayerField::BallWinning => { self.ball_winning = value as u8; true },
            PlayerField::WeakFootAccuracy => { self.weak_foot_accuracy = value as u8; true },
            PlayerField::Jump => { self.jump = value as u8; true },
            PlayerField::Coverage => { self.coverage = Some(value as u8); true },
            PlayerField::WeakFootUsage => { self.weak_foot_usage = value as u8; true },
            PlayerField::PlaceKicking => { self.place_kicking = value as u8; true },
            PlayerField::Stamina => { self.stamina = value as u8; true },
            PlayerField::Speed => { self.speed = value as u8; true },
            PlayerField::Star => { self.star = Some(value as u8); true },
            PlayerField::TightPossession => { self.tight_possession = Some(value as u8); true },
            PlayerField::Aggression => { self.aggression = Some(value as u8); true },
            PlayerField::PlayingAttitude => { self.playing_attitude = Some(value as u8); true },
            _ => false,
        }
    }
}

impl PlayerPositions {
    /// Whether `field` is held in this section.
    pub open spec fn holds(field: PlayerField) -> bool {
        match field {
            PlayerField::RegisteredPosition | PlayerField::PlayingStyle | PlayerField::StrongerFoot | PlayerField::StrongerHand | PlayerField::PlayablePosition(_) => true,
            _ => false,
        }
    }

    /// The value `field` reads as, if this section holds it.
    pub open spec fn value(self, field: PlayerField) -> Option<u32> {
        match field {
            PlayerField::RegisteredPosition => Some(self.registered as u32),
            PlayerField::PlayingStyle => Some(self.playing_style as u32),
            PlayerField::StrongerFoot => Some(self.stronger_foot as u32),
            PlayerField::StrongerHand => opt_byte(self.stronger_hand),
            PlayerField::PlayablePosition(i) => if i < 13 { Some(self.playable@[i as int] as u32) } else { None },
            _ => None,
        }
    }

    fn get_field(&self, field: PlayerField) -> (r: Option<u32>)
        ensures
            r == self.value(field),
    {
        match field {
            PlayerField::RegisteredPosition => Some(self.registered as u32),
            PlayerField::PlayingStyle => Some(self.playing_style as u32),
            PlayerField::StrongerFoot => Some(self.stronger_foot as u32),
            PlayerField::StrongerHand => match self.stronger_hand { Some(v) => Some(v as u32), None => None },
            PlayerField::PlayablePosition(i) => if i < 13 { Some(self.playable[i as usize] as u32) } else { None },
            _ => None,
        }
    }

    fn set_field(&mut self, field: PlayerField, value: u32) -> (ok: bool)
        requires
            Self::holds(field),
        ensures
            ok == player_index_in_range(field),
            ok ==> forall|g: PlayerField|
                Self::holds(g) ==> #[trigger] final(self).value(g) == if g == field {
                    Some(stored(player_field_kind(field), value))
                } else {
                    old(self).value(g)
                },
            !ok ==> *final(self) == *old(self),
    {
        match field {
            PlayerField::RegisteredPosition => { self.registered = value as u8; true },
            PlayerField::PlayingStyle => { self.playing_style = value as u8; true },
            PlayerField::StrongerFoot => { self.stronger_foot = value as u8; true },
            PlayerField::StrongerHand => { self.stronger_hand = Some(value as u8); true },
            PlayerField::PlayablePosition(i) => if i < 13 { self.playable.set(i as usize, value as u8); true } else { false },
            _ => false,
        }
    }
}

impl PlayerSkills {
    /// Whether `field` is held in this section.
    pub open spec fn holds(field: PlayerField) -> bool {
        match field {
            PlayerField::ComStyle(_) | PlayerField::Skill(_) => true,
            _ => false,
        }
    }

    /// The value `field` reads as, if this section holds it.
    pub open spec fn value(self, field: PlayerField) -> Option<u32> {
        match field {
            PlayerField::ComStyle(i) => if i < 7 { Some(flag(self.com_styles@[i as int])) } else { None },
            PlayerField::Skill(i) => if i < 41 { Some(flag(self.skills@[i as int])) } else { None },
            _ => None,
        }
    }

    fn get_field(&self, field: PlayerField) -> (r: Option<u32>)
        ensures
            r == self.value(field),
    {
        match field {
            PlayerField::ComStyle(i) => if i < 7 { Some(if self.com_styles[i as usize] { 1 } else { 0 }) } else { None },
            PlayerField::Skill(i) => if i < 41 { Some(if self.skills[i as usize] { 1 } else { 0 }) } else { None },
            _ => None,
        }
    }

    fn set_field(&mut self, field: PlayerField, value: u32) -> (ok: bool)
        requires
            Self::holds(field),
        ensures
            ok == player_index_in_range(field),
            ok ==> forall|g: PlayerField|
                Self::holds(g) ==> #[trigger] final(self).value(g) == if g == field {
                    Some(stored(player_field_kind(field), value))
                } else {
                    old(self).value(g)
                },
            !ok ==> *final(self) == *old(self),
    {
        match field {
            PlayerField::ComStyle(i) => if i < 7 { self.com_styles.set(i as usize, value != 0); true } else { false },
            PlayerField::Skill(i) => if i < 41 { self.skills.set(i as usize, value != 0); true } else { false },
            _ => false,
        }
    }
}

impl PlayerMotion {
    /// Whether `field` is held in this section.
    pub open spec fn holds(field: PlayerField) -> bool {
        match field {
            PlayerField::GoalCelebration1 | PlayerField::GoalCelebration2 | PlayerField::FreeKickMotion | PlayerField::ArmMovementDribbling | PlayerField::ArmMovementRunning | PlayerField::CornerKickMotion | PlayerField::HunchingDribbling | PlayerField::HunchingRunning | PlayerField::PenaltyKickMotion | PlayerField::DribblingMotion => true,
            _ => false,
        }
    }

    /// The value `field` reads as, if this section holds it.
    pub open spec fn value(self, field: PlayerField) -> Option<u32> {
        match field {
            PlayerField::GoalCelebration1 => Some(self.goal_celebration_1 as u32),
            PlayerField::GoalCelebration2 => Some(self.goal_celebration_2 as u32),
            PlayerField::FreeKickMotion => Some(self.free_kick as u32),
            PlayerField::ArmMovementDribbling => Some(self.arm_movement_dribbling as u32),
            PlayerField::ArmMovementRunning => Some(self.arm_movement_running as u32),
            PlayerField::CornerKickMotion => Some(self.corner_kick as u32),
            PlayerField::HunchingDribbling => Some(self.hunching_dribbling as u32),
            PlayerField::HunchingRunning => Some(self.hunching_running as u32),
            PlayerField::PenaltyKickMotion => Some(self.penalty_kick as u32),
            PlayerField::DribblingMotion => opt_byte(self.dribbling),
            _ => None,
        }
    }

    fn get_field(&self, field: PlayerField) -> (r: Option<u32>)
        ensures
            r == self.value(field),
    {
        match field {
            PlayerField::GoalCelebration1 => Some(self.goal_celebration_1 as u32),
            PlayerField::GoalCelebration2 => Some(self.goal_celebration_2 as u32),
            PlayerField::FreeKickMotion => Some(self.free_kick as u32),
            PlayerField::ArmMovementDribbling => Some(self.arm_movement_dribbling as u32),
            PlayerField::ArmMovementRunning => Some(self.arm_movement_running as u32),
            PlayerField::CornerKickMotion => Some(self.corner_kick as u32),
            PlayerField::HunchingDribbling => Some(self.hunching_dribbling as u32),
            PlayerField::HunchingRunning => Some(self.hunching_running as u32),
            PlayerField::PenaltyKickMotion => Some(self.penalty_kick as u32),
            PlayerField::DribblingMotion => match self.dribbling { Some(v) => Some(v as u32), None => None },
            _ => None,
        }
    }

    fn set_field(&mut self, field: PlayerField, value: u32) -> (ok: bool)
        requires
            Self::holds(field),
        ensures
            ok == player_index_in_range(field),
            ok ==> forall|g: PlayerField|
                Self::holds(g) ==> #[trigger] final(self).value(g) == if g == field {
                    Some(stored(player_field_kind(field), value))
                } else {
                    old(self).value(g)
                },
            !ok ==> *final(self) == *old(self),
    {
        match field {
            PlayerField::GoalCelebration1 => { self.goal_celebration_1 = value as u8; true },
            PlayerField::GoalCelebration2 => { self.goal_celebration_2 = value as u8; true },
            PlayerField::FreeKickMotion => { self.free_kick = value as u8; true },
            PlayerField::ArmMovementDribbling => { self.arm_movement_dribbling = value as u8; true },
            PlayerField::ArmMovementRunning => { self.arm_movement_running = value as u8; true },
            PlayerField::CornerKickMotion => { self.corner_kick = value as u8; true },
            PlayerField::HunchingDribbling => { self.hunching_dribbling = value as u8; true },
            PlayerField::HunchingRunning => { self.hunching_running = value as u8; true },
            PlayerField::PenaltyKickMotion => { self.penalty_kick = value as u8; true },
            PlayerField::DribblingMotion => { self.dribbling = Some(value as u8); true },
            _ => false,
        }
    }
}

impl PlayerEditFlags {
    /// Whether `field` is held in this section.
    pub open spec fn holds(field: PlayerField) -> bool {
        match field {
            PlayerField::EditedPlayer | PlayerField::EditedBasicSettings | PlayerField::EditedRegisteredPosition | PlayerField::EditedPlayablePositions | PlayerField::EditedAbilities | PlayerField::EditedSkills | PlayerField::EditedPlayingStyle | PlayerField::EditedComStyles | PlayerField::EditedMotion | PlayerField::BaseCopy | PlayerField::EditedFace | PlayerField::EditedHair | PlayerField::EditedPhysique | PlayerField::EditedStrip => true,
            _ => false,
        }
    }

    /// The value `field` reads as, if this section holds it.
    pub open spec fn value(self, field: PlayerField) -> Option<u32> {
        match field {
            PlayerField::EditedPlayer => Some(flag(self.player)),
            PlayerField::EditedBasicSettings => Some(flag(self.basic_settings)),
            PlayerField::EditedRegisteredPosition => Some(flag(self.registered_position)),
            PlayerField::EditedPlayablePositions => Some(flag(self.playable_positions)),
            PlayerField::EditedAbilities => Some(flag(self.abilities)),
            PlayerField::EditedSkills => Some(flag(self.skills)),
            PlayerField::EditedPlayingStyle => Some(flag(self.playing_style)),
            PlayerField::EditedComStyles => Some(flag(self.com_styles)),
            PlayerField::EditedMotion => Some(flag(self.motion)),
            PlayerField::BaseCopy => Some(flag(self.base_copy)),
            PlayerField::EditedFace => Some(flag(self.face)),
            PlayerField::EditedHair => Some(flag(self.hair)),
            PlayerField::EditedPhysique => Some(flag(self.physique)),
            PlayerField::EditedStrip => Some(flag(self.strip)),
            _ => None,
        }
    }

    fn get_field(&self, field: PlayerField) -> (r: Option<u32>)
        ensures
            r == self.value(field),
    {
        match field {
            PlayerField::EditedPlayer => Some(if self.player { 1 } else { 0 }),
            PlayerField::EditedBasicSettings => Some(if self.basic_settings { 1 } else { 0 }),
            PlayerField::EditedRegisteredPosition => Some(if self.registered_position { 1 } else { 0 }),
            PlayerField::EditedPlayablePositions => Some(if self.playable_positions { 1 } else { 0 }),
            PlayerField::EditedAbilities => Some(if self.abilities { 1 } else { 0 }),
            PlayerField::EditedSkills => Some(if self.skills { 1 } else { 0 }),
            PlayerField::EditedPlayingStyle => Some(if self.playing_style { 1 } else { 0 }),
            PlayerField::EditedComStyles => Some(if self.com_styles { 1 } else { 0 }),
            PlayerField::EditedMotion => Some(if self.motion { 1 } else { 0 }),
            PlayerField::BaseCopy => Some(if self.base_copy { 1 } else { 0 }),
            PlayerField::EditedFace => Some(if self.face { 1 } else { 0 }),
            PlayerField::EditedHair => Some(if self.hair { 1 } else { 0 }),
            PlayerField::EditedPhysique => Some(if self.physique { 1 } else { 0 }),
            PlayerField::EditedStrip => Some(if self.strip { 1 } else { 0 }),
            _ => None,
        }
    }

    fn set_field(&mut self, field: PlayerField, value: u32) -> (ok: bool)
        requires
            Self::holds(field),
        ensures
            ok == player_index_in_range(field),
            ok ==> forall|g: PlayerField|
                Self::holds(g) ==> #[trigger] final(self).value(g) == if g == field {
                    Some(stored(player_field_kind(field), value))
                } else {
                    old(self).value(g)
                },
            !ok ==> *final(self) == *old(self),
    {
        match field {
            PlayerField::EditedPlayer => { self.player = value != 0; true },
            PlayerField::EditedBasicSettings => { self.basic_settings = value != 0; true },
            PlayerField::EditedRegisteredPosition => { self.registered_position = value != 0; true },
            PlayerField::EditedPlayablePositions => { self.playable_positions = value != 0; true },
            PlayerField::EditedAbilities => { self.abilities = value != 0; true },
            PlayerField::EditedSkills => { self.skills = value != 0; true },
            PlayerField::EditedPlayingStyle => { self.playing_style = value != 0; true },
            PlayerField::EditedComStyles => { self.com_styles = value != 0; true },
            PlayerField::EditedMotion => { self.motion = value != 0; true },
            PlayerField::BaseCopy => { self.base_copy = value != 0; true },
            PlayerField::EditedFace => { self.face = value != 0; true },
            PlayerField::EditedHair => { self.hair = value != 0; true },
            PlayerField::EditedPhysique => { self.physique = value != 0; true },
            PlayerField::EditedStrip => { self.strip = value != 0; true },
            _ => false,
        }
    }
}

impl PlayerAppearance {
    /// Whether `field` is held in this section.
    pub open spec fn holds(field: PlayerField) -> bool {
        match field {
            PlayerField::BootsId | PlayerField::GlovesId | PlayerField::BaseCopyId | PlayerField::NeckLength | PlayerField::NeckSize | PlayerField::ShoulderHeight | PlayerField::ShoulderWidth | PlayerField::Chest | PlayerField::Waist | PlayerField::ArmSize | PlayerField::ArmLength | PlayerField::Thigh | PlayerField::Calf | PlayerField::LegLength | PlayerField::HeadLength | PlayerField::HeadWidth | PlayerField::HeadDepth | PlayerField::WristTapeColorLeft | PlayerField::WristTapeColorRight | PlayerField::WristTaping | PlayerField::SpectaclesColor | PlayerField::SpectaclesStyle | PlayerField::Sleeves | PlayerField::Inners | PlayerField::Socks | PlayerField::Undershorts | PlayerField::Untucked | PlayerField::AnkleTaping | PlayerField::PlayerGloves | PlayerField::PlayerGlovesColor | PlayerField::SkinColor | PlayerField::IrisColor => true,
            _ => false,
        }
    }

    /// The value `field` reads as, if this section holds it.
    pub open spec fn value(self, field: PlayerField) -> Option<u32> {
        match field {
            PlayerField::BootsId => Some(self.boots_id),
            PlayerField::GlovesId => Some(self.gloves_id),
            PlayerField::BaseCopyId => Some(self.base_copy_id),
            PlayerField::NeckLength => Some(self.neck_length as u32),
            PlayerField::NeckSize => Some(self.neck_size as u32),
            PlayerField::ShoulderHeight => Some(self.shoulder_height as u32),
            PlayerField::ShoulderWidth => Some(self.shoulder_width as u32),
            PlayerField::Chest => Some(self.chest as u32),
            PlayerField::Waist => Some(self.waist as u32),
            PlayerField::ArmSize => Some(self.arm_size as u32),
            PlayerField::ArmLength => Some(self.arm_length as u32),
            PlayerField::Thigh => Some(self.thigh as u32),
            PlayerField::Calf => Some(self.calf as u32),
            PlayerField::LegLength => Some(self.leg_length as u32),
            PlayerField::HeadLength => Some(self.head_length as u32),
            PlayerField::HeadWidth => Some(self.head_width as u32),
            PlayerField::HeadDepth => Some(self.head_depth as u32),
            PlayerField::WristTapeColorLeft => Some(self.wrist_tape_color_left as u32),
            PlayerField::WristTapeColorRight => Some(self.wrist_tape_color_right as u32),
            PlayerField::WristTaping => Some(self.wrist_taping as u32),
            PlayerField::SpectaclesColor => Some(self.spectacles_color as u32),
            PlayerField::SpectaclesStyle => Some(self.spectacles_style as u32),
            PlayerField::Sleeves => Some(self.sleeves as u32),
            PlayerField::Inners => Some(self.inners as u32),
            PlayerField::Socks => Some(self.socks as u32),
            PlayerField::Undershorts => Some(self.undershorts as u32),
            PlayerField::Untucked => Some(flag(self.untucked)),
            PlayerField::AnkleTaping => Some(flag(self.ankle_taping)),
            PlayerField::PlayerGloves => Some(flag(self.player_gloves)),
            PlayerField::PlayerGlovesColor => Some(self.player_gloves_color as u32),
            PlayerField::SkinColor => Some(self.skin_color as u32),
            PlayerField::IrisColor => Some(self.iris_color as u32),
            _ => None,
        }
    }

    fn get_field(&self, field: PlayerField) -> (r: Option<u32>)
        ensures
            r == self.value(field),
    {
        match field {
            PlayerField::BootsId => Some(self.boots_id),
            PlayerField::GlovesId => Some(self.gloves_id),
            PlayerField::BaseCopyId => Some(self.base_copy_id),
            PlayerField::NeckLength => Some(self.neck_length as u32),
            PlayerField::NeckSize => Some(self.neck_size as u32),
            PlayerField::ShoulderHeight => Some(self.shoulder_height as u32),
            PlayerField::ShoulderWidth => Some(self.shoulder_width as u32),
            PlayerField::Chest => Some(self.chest as u32),
            PlayerField::Waist => Some(self.waist as u32),
            PlayerField::ArmSize => Some(self.arm_size as u32),
            PlayerField::ArmLength => Some(self.arm_length as u32),
            PlayerField::Thigh => Some(self.thigh as u32),
            PlayerField::Calf => Some(self.calf as u32),
            PlayerField::LegLength => Some(self.leg_length as u32),
            PlayerField::HeadLength => Some(self.head_length as u32),
            PlayerField::HeadWidth => Some(self.head_width as u32),
            PlayerField::HeadDepth => Some(self.head_depth as u32),
            PlayerField::WristTapeColorLeft => Some(self.wrist_tape_color_left as u32),
            PlayerField::WristTapeColorRight => Some(self.wrist_tape_color_right as u32),
            PlayerField::WristTaping => Some(self.wrist_taping as u32),
            PlayerField::SpectaclesColor => Some(self.spectacles_color as u32),
            PlayerField::SpectaclesStyle => Some(self.spectacles_style as u32),
            PlayerField::Sleeves => Some(self.sleeves as u32),
            PlayerField::Inners => Some(self.inners as u32),
            PlayerField::Socks => Some(self.socks as u32),
            PlayerField::Undershorts => Some(self.undershorts as u32),
            PlayerField::Untucked => Some(if self.untucked { 1 } else { 0 }),
            PlayerField::AnkleTaping => Some(if self.ankle_taping { 1 } else { 0 }),
            PlayerField::PlayerGloves => Some(if self.player_gloves { 1 } else { 0 }),
            PlayerField::PlayerGlovesColor => Some(self.player_gloves_color as u32),
            PlayerField::SkinColor => Some(self.skin_color as u32),
            PlayerField::IrisColor => Some(self.iris_color as u32),
            _ => None,
        }
    }

    fn set_field(&mut self, field: PlayerField, value: u32) -> (ok: bool)
        requires
            Self::holds(field),
        ensures
            ok == player_index_in_range(field),
            ok ==> forall|g: PlayerField|
                Self::holds(g) ==> #[trigger] final(self).value(g) == if g == field {
                    Some(stored(player_field_kind(field), value))
                } else {
                    old(self).value(g)
                },
            !ok ==> *final(self) == *old(self),
            final(self).ingame_face == old(self).ingame_face,
    {
        match field {
            PlayerField::BootsId => { self.boots_id = value; true },
            PlayerField::GlovesId => { self.gloves_id = value; true },
            PlayerField::BaseCopyId => { self.base_copy_id = value; true },
            PlayerField::NeckLength => { self.neck_length = value as u8; true },
            PlayerField::NeckSize => { self.neck_size = value as u8; true },
            PlayerField::ShoulderHeight => { self.shoulder_height = value as u8; true },
            PlayerField::ShoulderWidth => { self.shoulder_width = value as u8; true },
            PlayerField::Chest => { self.chest = value as u8; true },
            PlayerField::Waist => { self.waist = value as u8; true },
            PlayerField::ArmSize => { self.arm_size = value as u8; true },
            PlayerField::ArmLength => { self.arm_length = value as u8; true },
            PlayerField::Thigh => { self.thigh = value as u8; true },
            PlayerField::Calf => { self.calf = value as u8; true },
            PlayerField::LegLength => { self.leg_length = value as u8; true },
            PlayerField::HeadLength => { self.head_length = value as u8; true },
            PlayerField::HeadWidth => { self.head_width = value as u8; true },
            PlayerField::HeadDepth => { self.head_depth = value as u8; true },
            PlayerField::WristTapeColorLeft => { self.wrist_tape_color_left = value as u8; true },
            PlayerField::WristTapeColorRight => { self.wrist_tape_color_right = value as u8; true },
            PlayerField::WristTaping => { self.wrist_taping = value as u8; true },
            PlayerField::SpectaclesColor => { self.spectacles_color = value as u8; true },
            PlayerField::SpectaclesStyle => { self.spectacles_style = value as u8; true },
            PlayerField::Sleeves => { self.sleeves = value as u8; true },
            PlayerField::Inners => { self.inners = value as u8; true },
            PlayerField::Socks => { self.socks = value as u8; true },
            PlayerField::Undershorts => { self.undershorts = value as u8; true },
            PlayerField::Untucked => { self.untucked = value != 0; true },
            PlayerField::AnkleTaping => { self.ankle_taping = value != 0; true },
            PlayerField::PlayerGloves => { self.player_gloves = value != 0; true },
            PlayerField::PlayerGlovesColor => { self.player_gloves_color = value as u8; true },
            PlayerField::SkinColor => { self.skin_color = value as u8; true },
            PlayerField::IrisColor => { self.iris_color = value as u8; true },
            _ => false,
        }
    }
}

/// The value `field` reads as in `p`: `None` when the version lacks the field
/// or the index is past its array.
pub open spec fn player_field_value(p: PlayerEntry, field: PlayerField) -> Option<u32> {
    match field {
        PlayerField::Id => Some(p.id),
        PlayerField::Nationality | PlayerField::Height | PlayerField::Weight | PlayerField::Age => p.basic.value(field),
        PlayerField::AttackingProwess | PlayerField::DefensiveProwess | PlayerField::Goalkeeping | PlayerField::Dribbling | PlayerField::Finishing | PlayerField::LowPass | PlayerField::LoftedPass | PlayerField::Heading | PlayerField::Form | PlayerField::Swerve | PlayerField::Catching | PlayerField::Clearing | PlayerField::Reflexes | PlayerField::InjuryResistance | PlayerField::BodyControl | PlayerField::PhysicalContact | PlayerField::KickingPower | PlayerField::ExplosivePower | PlayerField::BallControl | PlayerField::BallWinning | PlayerField::WeakFootAccuracy | PlayerField::Jump | PlayerField::Coverage | PlayerField::WeakFootUsage | PlayerField::PlaceKicking | PlayerField::Stamina | PlayerField::Speed | PlayerField::Star | PlayerField::TightPossession | PlayerField::Aggression | PlayerField::PlayingAttitude => p.stats.value(field),
        PlayerField::RegisteredPosition | PlayerField::PlayingStyle | PlayerField::StrongerFoot | PlayerField::StrongerHand | PlayerField::PlayablePosition(_) => p.positions.value(field),
        PlayerField::ComStyle(_) | PlayerField::Skill(_) => p.skills.value(field),
        PlayerField::GoalCelebration1 | PlayerField::GoalCelebration2 | PlayerField::FreeKickMotion | PlayerField::ArmMovementDribbling | PlayerField::ArmMovementRunning | PlayerField::CornerKickMotion | PlayerField::HunchingDribbling | PlayerField::HunchingRunning | PlayerField::PenaltyKickMotion | PlayerField::DribblingMotion => p.motion.value(field),
        PlayerField::EditedPlayer | PlayerField::EditedBasicSettings | PlayerField::EditedRegisteredPosition | PlayerField::EditedPlayablePositions | PlayerField::EditedAbilities | PlayerField::EditedSkills | PlayerField::EditedPlayingStyle | PlayerField::EditedComStyles | PlayerField::EditedMotion | PlayerField::BaseCopy | PlayerField::EditedFace | PlayerField::EditedHair | PlayerField::EditedPhysique | PlayerField::EditedStrip => p.edit_flags.value(field),
        PlayerField::BootsId | PlayerField::GlovesId | PlayerField::BaseCopyId | PlayerField::NeckLength | PlayerField::NeckSize | PlayerField::ShoulderHeight | PlayerField::ShoulderWidth | PlayerField::Chest | PlayerField::Waist | PlayerField::ArmSize | PlayerField::ArmLength | PlayerField::Thigh | PlayerField::Calf | PlayerField::LegLength | PlayerField::HeadLength | PlayerField::HeadWidth | PlayerField::HeadDepth | PlayerField::WristTapeColorLeft | PlayerField::WristTapeColorRight | PlayerField::WristTaping | PlayerField::SpectaclesColor | PlayerField::SpectaclesStyle | PlayerField::Sleeves | PlayerField::Inners | PlayerField::Socks | PlayerField::Undershorts | PlayerField::Untucked | PlayerField::AnkleTaping | PlayerField::PlayerGloves | PlayerField::PlayerGlovesColor | PlayerField::SkinColor | PlayerField::IrisColor => p.appearance.value(field),
    }
}

/// `new` is `old` with `field` holding `value` as the model stores it, and every
/// other field and both texts as they were.
pub open spec fn player_set_post(old: PlayerEntry, new: PlayerEntry, field: PlayerField, value: u32) -> bool {
    &&& forall|g: PlayerField| #[trigger] player_field_value(new, g) == if g == field {
        Some(stored(player_field_kind(field), value))
    } else {
        player_field_value(old, g)
    }
    &&& new.name == old.name
    &&& new.shirt_name == old.shirt_name
    &&& new.appearance.ingame_face == old.appearance.ingame_face
}

impl PlayerEntry {
    /// The model value a bit run carries, in codec field order.
    pub fn get(&self, field: PlayerField) -> (r: Result<u32, CodecError>)
        ensures
            match player_field_value(*self, field) {
                Some(v) => r == Ok::<u32, CodecError>(v),
                None => r matches Err(e) && if player_index_in_range(field) {
                    e is Missing
                } else {
                    e is Index
                },
            },
    {
        let v = match field {
            PlayerField::Id => Some(self.id),
            PlayerField::Nationality | PlayerField::Height | PlayerField::Weight | PlayerField::Age => self.basic.get_field(field),
            PlayerField::AttackingProwess | PlayerField::DefensiveProwess | PlayerField::Goalkeeping | PlayerField::Dribbling | PlayerField::Finishing | PlayerField::LowPass | PlayerField::LoftedPass | PlayerField::Heading | PlayerField::Form | PlayerField::Swerve | PlayerField::Catching | PlayerField::Clearing | PlayerField::Reflexes | PlayerField::InjuryResistance | PlayerField::BodyControl | PlayerField::PhysicalContact | PlayerField::KickingPower | PlayerField::ExplosivePower | PlayerField::BallControl | PlayerField::BallWinning | PlayerField::WeakFootAccuracy | PlayerField::Jump | PlayerField::Coverage | PlayerField::WeakFootUsage | PlayerField::PlaceKicking | PlayerField::Stamina | PlayerField::Speed | PlayerField::Star | PlayerField::TightPossession | PlayerField::Aggression | PlayerField::PlayingAttitude => self.stats.get_field(field),
            PlayerField::RegisteredPosition | PlayerField::PlayingStyle | PlayerField::StrongerFoot | PlayerField::StrongerHand | PlayerField::PlayablePosition(_) => self.positions.get_field(field),
            PlayerField::ComStyle(_) | PlayerField::Skill(_) => self.skills.get_field(field),
            PlayerField::GoalCelebration1 | PlayerField::GoalCelebration2 | PlayerField::FreeKickMotion | PlayerField::ArmMovementDribbling | PlayerField::ArmMovementRunning | PlayerField::CornerKickMotion | PlayerField::HunchingDribbling | PlayerField::HunchingRunning | PlayerField::PenaltyKickMotion | PlayerField::DribblingMotion => self.motion.get_field(field),
            PlayerField::EditedPlayer | PlayerField::EditedBasicSettings | PlayerField::EditedRegisteredPosition | PlayerField::EditedPlayablePositions | PlayerField::EditedAbilities | PlayerField::EditedSkills | PlayerField::EditedPlayingStyle | PlayerField::EditedComStyles | PlayerField::EditedMotion | PlayerField::BaseCopy | PlayerField::EditedFace | PlayerField::EditedHair | PlayerField::EditedPhysique | PlayerField::EditedStrip => self.edit_flags.get_field(field),
            PlayerField::BootsId | PlayerField::GlovesId | PlayerField::BaseCopyId | PlayerField::NeckLength | PlayerField::NeckSize | PlayerField::ShoulderHeight | PlayerField::ShoulderWidth | PlayerField::Chest | PlayerField::Waist | PlayerField::ArmSize | PlayerField::ArmLength | PlayerField::Thigh | PlayerField::Calf | PlayerField::LegLength | PlayerField::HeadLength | PlayerField::HeadWidth | PlayerField::HeadDepth | PlayerField::WristTapeColorLeft | PlayerField::WristTapeColorRight | PlayerField::WristTaping | PlayerField::SpectaclesColor | PlayerField::SpectaclesStyle | PlayerField::Sleeves | PlayerField::Inners | PlayerField::Socks | PlayerField::Undershorts | PlayerField::Untucked | PlayerField::AnkleTaping | PlayerField::PlayerGloves | PlayerField::PlayerGlovesColor | PlayerField::SkinColor | PlayerField::IrisColor => self.appearance.get_field(field),
        };
        match v {
            Some(v) => Ok(v),
            None => match field {
                PlayerField::PlayablePosition(i) if i >= 13 => Err(index(field, i)),
                PlayerField::ComStyle(i) if i >= 7 => Err(index(field, i)),
                PlayerField::Skill(i) if i >= 41 => Err(index(field, i)),
                _ => Err(missing(field)),
            },
        }
    }

    /// Patches a bit-run value into the model, in codec field order. A gated
    /// field becomes `Some` because the schema that produced it has the run.
    pub fn set(&mut self, field: PlayerField, value: u32) -> (r: Result<(), CodecError>)
        ensures
            player_index_in_range(field) ==> r is Ok && player_set_post(*old(self), *final(self), field, value),
            !player_index_in_range(field) ==> r is Err && r->Err_0 is Index && *final(self) == *old(self),
    {
        let ok = match field {
            PlayerField::Id => {
                self.id = value;
                true
            },
            PlayerField::Nationality | PlayerField::Height | PlayerField::Weight | PlayerField::Age => self.basic.set_field(field, value),
            PlayerField::AttackingProwess | PlayerField::DefensiveProwess | PlayerField::Goalkeeping | PlayerField::Dribbling | PlayerField::Finishing | PlayerField::LowPass | PlayerField::LoftedPass | PlayerField::Heading | PlayerField::Form | PlayerField::Swerve | PlayerField::Catching | PlayerField::Clearing | PlayerField::Reflexes | PlayerField::InjuryResistance | PlayerField::BodyControl | PlayerField::PhysicalContact | PlayerField::KickingPower | PlayerField::ExplosivePower | PlayerField::BallControl | PlayerField::BallWinning | PlayerField::WeakFootAccuracy | PlayerField::Jump | PlayerField::Coverage | PlayerField::WeakFootUsage | PlayerField::PlaceKicking | PlayerField::Stamina | PlayerField::Speed | PlayerField::Star | PlayerField::TightPossession | PlayerField::Aggression | PlayerField::PlayingAttitude => self.stats.set_field(field, value),
            PlayerField::RegisteredPosition | PlayerField::PlayingStyle | PlayerField::StrongerFoot | PlayerField::StrongerHand | PlayerField::PlayablePosition(_) => self.positions.set_field(field, value),
            PlayerField::ComStyle(_) | PlayerField::Skill(_) => self.skills.set_field(field, value),
            PlayerField::GoalCelebration1 | PlayerField::GoalCelebration2 | PlayerField::FreeKickMotion | PlayerField::ArmMovementDribbling | PlayerField::ArmMovementRunning | PlayerField::CornerKickMotion | PlayerField::HunchingDribbling | PlayerField::HunchingRunning | PlayerField::PenaltyKickMotion | PlayerField::DribblingMotion => self.motion.set_field(field, value),
            PlayerField::EditedPlayer | PlayerField::EditedBasicSettings | PlayerField::EditedRegisteredPosition | PlayerField::EditedPlayablePositions | PlayerField::EditedAbilities | PlayerField::EditedSkills | PlayerField::EditedPlayingStyle | PlayerField::EditedComStyles | PlayerField::EditedMotion | PlayerField::BaseCopy | PlayerField::EditedFace | PlayerField::EditedHair | PlayerField::EditedPhysique | PlayerField::EditedStrip => self.edit_flags.set_field(field, value),
            PlayerField::BootsId | PlayerField::GlovesId | PlayerField::BaseCopyId | PlayerField::NeckLength | PlayerField::NeckSize | PlayerField::ShoulderHeight | PlayerField::ShoulderWidth | PlayerField::Chest | PlayerField::Waist | PlayerField::ArmSize | PlayerField::ArmLength | PlayerField::Thigh | PlayerField::Calf | PlayerField::LegLength | PlayerField::HeadLength | PlayerField::HeadWidth | PlayerField::HeadDepth | PlayerField::WristTapeColorLeft | PlayerField::WristTapeColorRight | PlayerField::WristTaping | PlayerField::SpectaclesColor | PlayerField::SpectaclesStyle | PlayerField::Sleeves | PlayerField::Inners | PlayerField::Socks | PlayerField::Undershorts | PlayerField::Untucked | PlayerField::AnkleTaping | PlayerField::PlayerGloves | PlayerField::PlayerGlovesColor | PlayerField::SkinColor | PlayerField::IrisColor => self.appearance.set_field(field, value),
        };
        if ok {
            Ok(())
        } else {
            match field {
                PlayerField::PlayablePosition(i) => Err(index(field, i)),
                PlayerField::ComStyle(i) => Err(index(field, i)),
                PlayerField::Skill(i) => Err(index(field, i)),
                _ => Err(index(field, 0)),
            }
        }
    }
}

impl PlayerBasics {
    /// Every field holds its empty value: 0, `false`, `None` or an empty text.
    pub open spec fn is_default(&self) -> bool {
        self.nationality == 0
        && self.age == 0
        && self.height == 0
        && self.weight == 0
    }
}

impl Default for PlayerBasics {
    fn default() -> (r: Self)
        ensures
            r.is_default(),
    {
        PlayerBasics { nationality: 0, age: 0, height: 0, weight: 0 }
    }
}

impl PlayerStats {
    /// Every field holds its empty value: 0, `false`, `None` or an empty text.
    pub open spec fn is_default(&self) -> bool {
        self.attacking_prowess == 0
        && self.ball_control == 0
        && self.dribbling == 0
        && self.low_pass == 0
        && self.lofted_pass == 0
        && self.finishing == 0
        && self.place_kicking == 0
        && self.swerve == 0
        && self.heading == 0
        && self.defensive_prowess == 0
        && self.ball_winning == 0
        && self.kicking_power == 0
        && self.speed == 0
        && self.explosive_power == 0
        && self.body_control == 0
        && self.physical_contact is None
        && self.jump == 0
        && self.goalkeeping == 0
        && self.catching is None
        && self.clearing is None
        && self.reflexes is None
        && self.coverage is None
        && self.stamina == 0
        && self.weak_foot_usage == 0
        && self.weak_foot_accuracy == 0
        && self.form == 0
        && self.injury_resistance == 0
        && self.star is None
        && self.tight_possession is None
        && self.aggression is None
        && self.playing_attitude is None
    }
}

impl Default for PlayerStats {
    fn default() -> (r: Self)
        ensures
            r.is_default(),
    {
        PlayerStats { attacking_prowess: 0, ball_control: 0, dribbling: 0, low_pass: 0, lofted_pass: 0, finishing: 0, place_kicking: 0, swerve: 0, heading: 0, defensive_prowess: 0, ball_winning: 0, kicking_power: 0, speed: 0, explosive_power: 0, body_control: 0, physical_contact: None, jump: 0, goalkeeping: 0, catching: None, clearing: None, reflexes: None, coverage: None, stamina: 0, weak_foot_usage: 0, weak_foot_accuracy: 0, form: 0, injury_resistance: 0, star: None, tight_possession: None, aggression: None, playing_attitude: None }
    }
}

impl PlayerPositions {
    /// Every field holds its empty value: 0, `false`, `None` or an empty text.
    pub open spec fn is_default(&self) -> bool {
        self.registered == 0
        && (forall|i: int| 0 <= i < 13 ==> #[trigger] self.playable@[i] == 0)
        && self.playing_style == 0
        && self.stronger_foot == 0
        && self.stronger_hand is None
    }
}

impl Default for PlayerPositions {
    fn default() -> (r: Self)
        ensures
            r.is_default(),
    {
        PlayerPositions { registered: 0, playable: [0; 13], playing_style: 0, stronger_foot: 0, stronger_hand: None }
    }
}

impl PlayerSkills {
    /// Every field holds its empty value: 0, `false`, `None` or an empty text.
    pub open spec fn is_default(&self) -> bool {
        (forall|i: int| 0 <= i < 41 ==> #[trigger] self.skills@[i] == false)
        && (forall|i: int| 0 <= i < 7 ==> #[trigger] self.com_styles@[i] == false)
    }
}

impl Default for PlayerSkills {
    fn default() -> (r: Self)
        ensures
            r.is_default(),
    {
        PlayerSkills { skills: [false; 41], com_styles: [false; 7] }
    }
}

impl PlayerMotion {
    /// Every field holds its empty value: 0, `false`, `None` or an empty text.
    pub open spec fn is_default(&self) -> bool {
        self.hunching_dribbling == 0
        && self.hunching_running == 0
        && self.arm_movement_dribbling == 0
        && self.arm_movement_running == 0
        && self.corner_kick == 0
        && self.free_kick == 0
        && self.penalty_kick == 0
        && self.dribbling is None
        && self.goal_celebration_1 == 0
        && self.goal_celebration_2 == 0
    }
}

impl Default for PlayerMotion {
    fn default() -> (r: Self)
        ensures
            r.is_default(),
    {
        PlayerMotion { hunching_dribbling: 0, hunching_running: 0, arm_movement_dribbling: 0, arm_movement_running: 0, corner_kick: 0, free_kick: 0, penalty_kick: 0, dribbling: None, goal_celebration_1: 0, goal_celebration_2: 0 }
    }
}

impl PlayerEditFlags {
    /// Every field holds its empty value: 0, `false`, `None` or an empty text.
    pub open spec fn is_default(&self) -> bool {
        self.player == false
        && self.basic_settings == false
        && self.registered_position == false
        && self.playable_positions == false
        && self.abilities == false
        && self.skills == false
        && self.playing_style == false
        && self.com_styles == false
        && self.motion == false
        && self.base_copy == false
        && self.face == false
        && self.hair == false
        && self.physique == false
        && self.strip == false
    }
}

impl Default for PlayerEditFlags {
    fn default() -> (r: Self)
        ensures
            r.is_default(),
    {
        PlayerEditFlags { player: false, basic_settings: false, registered_position: false, playable_positions: false, abilities: false, skills: false, playing_style: false, com_styles: false, motion: false, base_copy: false, face: false, hair: false, physique: false, strip: false }
    }
}

impl PlayerAppearance {
    /// Every field holds its empty value: 0, `false`, `None` or an empty text.
    pub open spec fn is_default(&self) -> bool {
        self.boots_id == 0
        && self.gloves_id == 0
        && self.base_copy_id == 0
        && self.neck_length == 0
        && self.neck_size == 0
        && self.shoulder_height == 0
        && self.shoulder_width == 0
        && self.chest == 0
        && self.waist == 0
        && self.arm_size == 0
        && self.arm_length == 0
        && self.thigh == 0
        && self.calf == 0
        && self.leg_length == 0
        && self.head_length == 0
        && self.head_width == 0
        && self.head_depth == 0
        && self.wrist_tape_color_left == 0
        && self.wrist_tape_color_right == 0
        && self.wrist_taping == 0
        && self.spectacles_color == 0
        && self.spectacles_style == 0
        && self.sleeves == 0
        && self.inners == 0
        && self.socks == 0
        && self.undershorts == 0
        && self.untucked == false
        && self.ankle_taping == false
        && self.player_gloves == false
        && self.player_gloves_color == 0
        && self.skin_color == 0
        && self.iris_color == 0
        && self.ingame_face@.len() == 0
    }
}

impl PlayerAppearance {
    /// The same appearance: every field equal, the ingame-face run byte for
    /// byte.
    pub open spec fn same_as(self, other: PlayerAppearance) -> bool {
        &&& self == (PlayerAppearance { ingame_face: self.ingame_face, ..other })
        &&& self.ingame_face@ == other.ingame_face@
    }

    /// A copy of the appearance, the ingame-face run included.
    pub fn duplicate(&self) -> (r: Self)
        ensures
            r.same_as(*self),
    {
        PlayerAppearance { ingame_face: self.ingame_face.duplicate(), ..*self }
    }
}

impl Default for PlayerAppearance {
    fn default() -> (r: Self)
        ensures
            r.is_default(),
    {
        PlayerAppearance { boots_id: 0, gloves_id: 0, base_copy_id: 0, neck_length: 0, neck_size: 0, shoulder_height: 0, shoulder_width: 0, chest: 0, waist: 0, arm_size: 0, arm_length: 0, thigh: 0, calf: 0, leg_length: 0, head_length: 0, head_width: 0, head_depth: 0, wrist_tape_color_left: 0, wrist_tape_color_right: 0, wrist_taping: 0, spectacles_color: 0, spectacles_style: 0, sleeves: 0, inners: 0, socks: 0, undershorts: 0, untucked: false, ankle_taping: false, player_gloves: false, player_gloves_color: 0, skin_color: 0, iris_color: 0, ingame_face: IngameFace::default() }
    }
}

impl PlayerEntry {
    /// Every field holds its empty value: 0, `false`, `None` or an empty text.
    pub open spec fn is_default(&self) -> bool {
        self.id == 0
        && self.name@.len() == 0
        && self.shirt_name@.len() == 0
        && self.basic.is_default()
        && self.stats.is_default()
        && self.positions.is_default()
        && self.skills.is_default()
        && self.motion.is_default()
        && self.edit_flags.is_default()
        && self.appearance.is_default()
    }
}

impl Default for PlayerEntry {
    fn default() -> (r: Self)
        ensures
            r.is_default(),
    {
        PlayerEntry { id: 0, name: String::new(), shirt_name: String::new(), basic: PlayerBasics::default(), stats: PlayerStats::default(), positions: PlayerPositions::default(), skills: PlayerSkills::default(), motion: PlayerMotion::default(), edit_flags: PlayerEditFlags::default(), appearance: PlayerAppearance::default() }
    }
}

} // verus!
