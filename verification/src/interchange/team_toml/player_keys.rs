//! The `[players.NN]` scalar-key table: one `PlayerKey` per scalar key of a
//! player's table, in the format's order, with its path, value kind, model
//! field and comment. The non-scalar keys (`name`, `shirt_name`, `number`,
//! `ingame_face`, `positions.playable`, `positions.playing_style`,
//! `skills.skills`, `skills.com_styles`) are written individually.
use vstd::prelude::*;

use crate::codec::names::{append_str, decimal, push_decimal};
use crate::interchange::team_toml::labels::{FOOT, POSITIONS};
use crate::interchange::team_toml::{PlayerSection, TeamTomlError};
use crate::schema::PlayerField;

verus! {

/// A label list a key's value indexes.
#[derive(Debug, Clone, Copy, PartialEq, Eq, Structural)]
pub enum LabelList {
    /// The position names, GK first.
    Positions,
    /// `"right"`, `"left"`.
    Foot,
}

/// How a key's TOML value maps to the stored `u32`.
#[derive(Debug, Clone, Copy, PartialEq, Eq, Structural)]
pub enum Kind {
    /// An ability stat (the game shows 40 to 99).
    Ability,
    /// A stored integer, as the record holds it.
    Stored,
    /// true | false.
    Bool,
    /// 0 to 65535.
    U16,
    /// 0 to 4294967295.
    U32,
    /// The label's index into the list.
    Label(LabelList),
}

/// The columns of one key-table row.
#[derive(Debug, Clone, Copy, PartialEq, Eq)]
pub struct KeySpec {
    /// The key's dotted path within the player (`"stats.finishing"`).
    pub path: &'static str,
    /// How the TOML value maps to the stored `u32`.
    pub kind: Kind,
    /// The savefile field: the model accessor and the apply-time gate.
    pub field: PlayerField,
    /// The comment written after the key.
    pub comment: &'static str,
}

/// One scalar key of `[players.NN]` and its `stats`/`positions`/`edit_flags`
/// subtables, in the format's order.
#[derive(Debug, Clone, Copy, PartialEq, Eq, Structural)]
pub enum PlayerKey {
    /// `nationality`
    Nationality,
    /// `age`
    Age,
    /// `boots_id`
    BootsId,
    /// `gloves_id`
    GlovesId,
    /// `base_copy_id`
    BaseCopyId,
    /// `stats.attacking_prowess`
    AttackingProwess,
    /// `stats.ball_control`
    BallControl,
    /// `stats.dribbling`
    Dribbling,
    /// `stats.tight_possession`
    TightPossession,
    /// `stats.low_pass`
    LowPass,
    /// `stats.lofted_pass`
    LoftedPass,
    /// `stats.finishing`
    Finishing,
    /// `stats.heading`
    Heading,
    /// `stats.place_kicking`
    PlaceKicking,
    /// `stats.swerve`
    Swerve,
    /// `stats.defensive_prowess`
    DefensiveProwess,
    /// `stats.ball_winning`
    BallWinning,
    /// `stats.aggression`
    Aggression,
    /// `stats.kicking_power`
    KickingPower,
    /// `stats.speed`
    Speed,
    /// `stats.explosive_power`
    ExplosivePower,
    /// `stats.body_control`
    BodyControl,
    /// `stats.physical_contact`
    PhysicalContact,
    /// `stats.jump`
    Jump,
    /// `stats.stamina`
    Stamina,
    /// `stats.goalkeeping`
    Goalkeeping,
    /// `stats.catching`
    Catching,
    /// `stats.clearing`
    Clearing,
    /// `stats.reflexes`
    Reflexes,
    /// `stats.coverage`
    Coverage,
    /// `stats.weak_foot_usage`
    WeakFootUsage,
    /// `stats.weak_foot_accuracy`
    WeakFootAccuracy,
    /// `stats.form`
    Form,
    /// `stats.injury_resistance`
    InjuryResistance,
    /// `stats.star`
    Star,
    /// `stats.playing_attitude`
    PlayingAttitude,
    /// `positions.registered`
    Registered,
    /// `positions.stronger_foot`
    StrongerFoot,
    /// `positions.stronger_hand`
    StrongerHand,
    /// `edit_flags.player`
    EditedPlayer,
    /// `edit_flags.basic_settings`
    EditedBasicSettings,
    /// `edit_flags.registered_position`
    EditedRegisteredPosition,
    /// `edit_flags.playable_positions`
    EditedPlayablePositions,
    /// `edit_flags.abilities`
    EditedAbilities,
    /// `edit_flags.skills`
    EditedSkills,
    /// `edit_flags.playing_style`
    EditedPlayingStyle,
    /// `edit_flags.com_styles`
    EditedComStyles,
    /// `edit_flags.motion`
    EditedMotion,
    /// `edit_flags.base_copy`
    EditedBaseCopy,
    /// `edit_flags.face`
    EditedFace,
    /// `edit_flags.hair`
    EditedHair,
    /// `edit_flags.physique`
    EditedPhysique,
    /// `edit_flags.strip`
    EditedStrip,
}

/// The row of `key`: path, kind, model field, comment.
pub open spec fn key_spec(key: PlayerKey) -> KeySpec {
    match key {
        PlayerKey::Nationality => KeySpec { path: "nationality", kind: Kind::U16, field: PlayerField::Nationality, comment: "" },
        PlayerKey::Age => KeySpec { path: "age", kind: Kind::Stored, field: PlayerField::Age, comment: "" },
        PlayerKey::BootsId => KeySpec { path: "boots_id", kind: Kind::U32, field: PlayerField::BootsId, comment: "" },
        PlayerKey::GlovesId => KeySpec { path: "gloves_id", kind: Kind::U32, field: PlayerField::GlovesId, comment: "" },
        PlayerKey::BaseCopyId => KeySpec { path: "base_copy_id", kind: Kind::U32, field: PlayerField::BaseCopyId, comment: "equal to the player's own id in the file = unset; becomes the target's own id" },
        PlayerKey::AttackingProwess => KeySpec { path: "stats.attacking_prowess", kind: Kind::Ability, field: PlayerField::AttackingProwess, comment: "" },
        PlayerKey::BallControl => KeySpec { path: "stats.ball_control", kind: Kind::Ability, field: PlayerField::BallControl, comment: "" },
        PlayerKey::Dribbling => KeySpec { path: "stats.dribbling", kind: Kind::Ability, field: PlayerField::Dribbling, comment: "" },
        PlayerKey::TightPossession => KeySpec { path: "stats.tight_possession", kind: Kind::Ability, field: PlayerField::TightPossession, comment: "PES 20+" },
        PlayerKey::LowPass => KeySpec { path: "stats.low_pass", kind: Kind::Ability, field: PlayerField::LowPass, comment: "" },
        PlayerKey::LoftedPass => KeySpec { path: "stats.lofted_pass", kind: Kind::Ability, field: PlayerField::LoftedPass, comment: "" },
        PlayerKey::Finishing => KeySpec { path: "stats.finishing", kind: Kind::Ability, field: PlayerField::Finishing, comment: "" },
        PlayerKey::Heading => KeySpec { path: "stats.heading", kind: Kind::Ability, field: PlayerField::Heading, comment: "" },
        PlayerKey::PlaceKicking => KeySpec { path: "stats.place_kicking", kind: Kind::Ability, field: PlayerField::PlaceKicking, comment: "" },
        PlayerKey::Swerve => KeySpec { path: "stats.swerve", kind: Kind::Ability, field: PlayerField::Swerve, comment: "" },
        PlayerKey::DefensiveProwess => KeySpec { path: "stats.defensive_prowess", kind: Kind::Ability, field: PlayerField::DefensiveProwess, comment: "" },
        PlayerKey::BallWinning => KeySpec { path: "stats.ball_winning", kind: Kind::Ability, field: PlayerField::BallWinning, comment: "" },
        PlayerKey::Aggression => KeySpec { path: "stats.aggression", kind: Kind::Ability, field: PlayerField::Aggression, comment: "PES 20+" },
        PlayerKey::KickingPower => KeySpec { path: "stats.kicking_power", kind: Kind::Ability, field: PlayerField::KickingPower, comment: "" },
        PlayerKey::Speed => KeySpec { path: "stats.speed", kind: Kind::Ability, field: PlayerField::Speed, comment: "" },
        PlayerKey::ExplosivePower => KeySpec { path: "stats.explosive_power", kind: Kind::Ability, field: PlayerField::ExplosivePower, comment: "" },
        PlayerKey::BodyControl => KeySpec { path: "stats.body_control", kind: Kind::Ability, field: PlayerField::BodyControl, comment: "" },
        PlayerKey::PhysicalContact => KeySpec { path: "stats.physical_contact", kind: Kind::Ability, field: PlayerField::PhysicalContact, comment: "PES 17+" },
        PlayerKey::Jump => KeySpec { path: "stats.jump", kind: Kind::Ability, field: PlayerField::Jump, comment: "" },
        PlayerKey::Stamina => KeySpec { path: "stats.stamina", kind: Kind::Ability, field: PlayerField::Stamina, comment: "" },
        PlayerKey::Goalkeeping => KeySpec { path: "stats.goalkeeping", kind: Kind::Ability, field: PlayerField::Goalkeeping, comment: "" },
        PlayerKey::Catching => KeySpec { path: "stats.catching", kind: Kind::Ability, field: PlayerField::Catching, comment: "" },
        PlayerKey::Clearing => KeySpec { path: "stats.clearing", kind: Kind::Ability, field: PlayerField::Clearing, comment: "PES 16+" },
        PlayerKey::Reflexes => KeySpec { path: "stats.reflexes", kind: Kind::Ability, field: PlayerField::Reflexes, comment: "PES 16+" },
        PlayerKey::Coverage => KeySpec { path: "stats.coverage", kind: Kind::Ability, field: PlayerField::Coverage, comment: "PES 16+" },
        PlayerKey::WeakFootUsage => KeySpec { path: "stats.weak_foot_usage", kind: Kind::Stored, field: PlayerField::WeakFootUsage, comment: "0-3 stored" },
        PlayerKey::WeakFootAccuracy => KeySpec { path: "stats.weak_foot_accuracy", kind: Kind::Stored, field: PlayerField::WeakFootAccuracy, comment: "0-3 stored" },
        PlayerKey::Form => KeySpec { path: "stats.form", kind: Kind::Stored, field: PlayerField::Form, comment: "0-7 stored" },
        PlayerKey::InjuryResistance => KeySpec { path: "stats.injury_resistance", kind: Kind::Stored, field: PlayerField::InjuryResistance, comment: "0-2 stored" },
        PlayerKey::Star => KeySpec { path: "stats.star", kind: Kind::Stored, field: PlayerField::Star, comment: "PES 19+, 0-7 stored" },
        PlayerKey::PlayingAttitude => KeySpec { path: "stats.playing_attitude", kind: Kind::Stored, field: PlayerField::PlayingAttitude, comment: "PES 20+, stored" },
        PlayerKey::Registered => KeySpec { path: "positions.registered", kind: Kind::Label(LabelList::Positions), field: PlayerField::RegisteredPosition, comment: "\"GK\" \"CB\" \"LB\" \"RB\" \"DMF\" \"CMF\" \"LMF\" \"RMF\" \"AMF\" \"LWF\" \"RWF\" \"SS\" \"CF\"" },
        PlayerKey::StrongerFoot => KeySpec { path: "positions.stronger_foot", kind: Kind::Label(LabelList::Foot), field: PlayerField::StrongerFoot, comment: "\"right\" | \"left\"" },
        PlayerKey::StrongerHand => KeySpec { path: "positions.stronger_hand", kind: Kind::Label(LabelList::Foot), field: PlayerField::StrongerHand, comment: "PES 20+; \"right\" | \"left\"" },
        PlayerKey::EditedPlayer => KeySpec { path: "edit_flags.player", kind: Kind::Bool, field: PlayerField::EditedPlayer, comment: "" },
        PlayerKey::EditedBasicSettings => KeySpec { path: "edit_flags.basic_settings", kind: Kind::Bool, field: PlayerField::EditedBasicSettings, comment: "" },
        PlayerKey::EditedRegisteredPosition => KeySpec { path: "edit_flags.registered_position", kind: Kind::Bool, field: PlayerField::EditedRegisteredPosition, comment: "" },
        PlayerKey::EditedPlayablePositions => KeySpec { path: "edit_flags.playable_positions", kind: Kind::Bool, field: PlayerField::EditedPlayablePositions, comment: "" },
        PlayerKey::EditedAbilities => KeySpec { path: "edit_flags.abilities", kind: Kind::Bool, field: PlayerField::EditedAbilities, comment: "" },
        PlayerKey::EditedSkills => KeySpec { path: "edit_flags.skills", kind: Kind::Bool, field: PlayerField::EditedSkills, comment: "" },
        PlayerKey::EditedPlayingStyle => KeySpec { path: "edit_flags.playing_style", kind: Kind::Bool, field: PlayerField::EditedPlayingStyle, comment: "" },
        PlayerKey::EditedComStyles => KeySpec { path: "edit_flags.com_styles", kind: Kind::Bool, field: PlayerField::EditedComStyles, comment: "" },
        PlayerKey::EditedMotion => KeySpec { path: "edit_flags.motion", kind: Kind::Bool, field: PlayerField::EditedMotion, comment: "" },
        PlayerKey::EditedBaseCopy => KeySpec { path: "edit_flags.base_copy", kind: Kind::Bool, field: PlayerField::BaseCopy, comment: "" },
        PlayerKey::EditedFace => KeySpec { path: "edit_flags.face", kind: Kind::Bool, field: PlayerField::EditedFace, comment: "" },
        PlayerKey::EditedHair => KeySpec { path: "edit_flags.hair", kind: Kind::Bool, field: PlayerField::EditedHair, comment: "" },
        PlayerKey::EditedPhysique => KeySpec { path: "edit_flags.physique", kind: Kind::Bool, field: PlayerField::EditedPhysique, comment: "" },
        PlayerKey::EditedStrip => KeySpec { path: "edit_flags.strip", kind: Kind::Bool, field: PlayerField::EditedStrip, comment: "" },
    }
}

/// The sub-table `key` sits in: `""`, `"stats"`, `"positions"` or
/// `"edit_flags"`.
pub open spec fn key_table(key: PlayerKey) -> &'static str {
    match key {
        PlayerKey::Nationality => "",
        PlayerKey::Age => "",
        PlayerKey::BootsId => "",
        PlayerKey::GlovesId => "",
        PlayerKey::BaseCopyId => "",
        PlayerKey::AttackingProwess => "stats",
        PlayerKey::BallControl => "stats",
        PlayerKey::Dribbling => "stats",
        PlayerKey::TightPossession => "stats",
        PlayerKey::LowPass => "stats",
        PlayerKey::LoftedPass => "stats",
        PlayerKey::Finishing => "stats",
        PlayerKey::Heading => "stats",
        PlayerKey::PlaceKicking => "stats",
        PlayerKey::Swerve => "stats",
        PlayerKey::DefensiveProwess => "stats",
        PlayerKey::BallWinning => "stats",
        PlayerKey::Aggression => "stats",
        PlayerKey::KickingPower => "stats",
        PlayerKey::Speed => "stats",
        PlayerKey::ExplosivePower => "stats",
        PlayerKey::BodyControl => "stats",
        PlayerKey::PhysicalContact => "stats",
        PlayerKey::Jump => "stats",
        PlayerKey::Stamina => "stats",
        PlayerKey::Goalkeeping => "stats",
        PlayerKey::Catching => "stats",
        PlayerKey::Clearing => "stats",
        PlayerKey::Reflexes => "stats",
        PlayerKey::Coverage => "stats",
        PlayerKey::WeakFootUsage => "stats",
        PlayerKey::WeakFootAccuracy => "stats",
        PlayerKey::Form => "stats",
        PlayerKey::InjuryResistance => "stats",
        PlayerKey::Star => "stats",
        PlayerKey::PlayingAttitude => "stats",
        PlayerKey::Registered => "positions",
        PlayerKey::StrongerFoot => "positions",
        PlayerKey::StrongerHand => "positions",
        PlayerKey::EditedPlayer => "edit_flags",
        PlayerKey::EditedBasicSettings => "edit_flags",
        PlayerKey::EditedRegisteredPosition => "edit_flags",
        PlayerKey::EditedPlayablePositions => "edit_flags",
        PlayerKey::EditedAbilities => "edit_flags",
        PlayerKey::EditedSkills => "edit_flags",
        PlayerKey::EditedPlayingStyle => "edit_flags",
        PlayerKey::EditedComStyles => "edit_flags",
        PlayerKey::EditedMotion => "edit_flags",
        PlayerKey::EditedBaseCopy => "edit_flags",
        PlayerKey::EditedFace => "edit_flags",
        PlayerKey::EditedHair => "edit_flags",
        PlayerKey::EditedPhysique => "edit_flags",
        PlayerKey::EditedStrip => "edit_flags",
    }
}

/// The key's own name: the last segment of its path.
pub open spec fn key_name(key: PlayerKey) -> &'static str {
    match key {
        PlayerKey::Nationality => "nationality",
        PlayerKey::Age => "age",
        PlayerKey::BootsId => "boots_id",
        PlayerKey::GlovesId => "gloves_id",
        PlayerKey::BaseCopyId => "base_copy_id",
        PlayerKey::AttackingProwess => "attacking_prowess",
        PlayerKey::BallControl => "ball_control",
        PlayerKey::Dribbling => "dribbling",
        PlayerKey::TightPossession => "tight_possession",
        PlayerKey::LowPass => "low_pass",
        PlayerKey::LoftedPass => "lofted_pass",
        PlayerKey::Finishing => "finishing",
        PlayerKey::Heading => "heading",
        PlayerKey::PlaceKicking => "place_kicking",
        PlayerKey::Swerve => "swerve",
        PlayerKey::DefensiveProwess => "defensive_prowess",
        PlayerKey::BallWinning => "ball_winning",
        PlayerKey::Aggression => "aggression",
        PlayerKey::KickingPower => "kicking_power",
        PlayerKey::Speed => "speed",
        PlayerKey::ExplosivePower => "explosive_power",
        PlayerKey::BodyControl => "body_control",
        PlayerKey::PhysicalContact => "physical_contact",
        PlayerKey::Jump => "jump",
        PlayerKey::Stamina => "stamina",
        PlayerKey::Goalkeeping => "goalkeeping",
        PlayerKey::Catching => "catching",
        PlayerKey::Clearing => "clearing",
        PlayerKey::Reflexes => "reflexes",
        PlayerKey::Coverage => "coverage",
        PlayerKey::WeakFootUsage => "weak_foot_usage",
        PlayerKey::WeakFootAccuracy => "weak_foot_accuracy",
        PlayerKey::Form => "form",
        PlayerKey::InjuryResistance => "injury_resistance",
        PlayerKey::Star => "star",
        PlayerKey::PlayingAttitude => "playing_attitude",
        PlayerKey::Registered => "registered",
        PlayerKey::StrongerFoot => "stronger_foot",
        PlayerKey::StrongerHand => "stronger_hand",
        PlayerKey::EditedPlayer => "player",
        PlayerKey::EditedBasicSettings => "basic_settings",
        PlayerKey::EditedRegisteredPosition => "registered_position",
        PlayerKey::EditedPlayablePositions => "playable_positions",
        PlayerKey::EditedAbilities => "abilities",
        PlayerKey::EditedSkills => "skills",
        PlayerKey::EditedPlayingStyle => "playing_style",
        PlayerKey::EditedComStyles => "com_styles",
        PlayerKey::EditedMotion => "motion",
        PlayerKey::EditedBaseCopy => "base_copy",
        PlayerKey::EditedFace => "face",
        PlayerKey::EditedHair => "hair",
        PlayerKey::EditedPhysique => "physique",
        PlayerKey::EditedStrip => "strip",
    }
}

/// The value the section holds for `key`, `bool` as 0/1.
pub open spec fn section_value(key: PlayerKey, s: PlayerSection) -> Option<u32> {
    match key {
        PlayerKey::Nationality => match s.nationality { Some(x) => Some(x as u32), None => None },
        PlayerKey::Age => match s.age { Some(x) => Some(x as u32), None => None },
        PlayerKey::BootsId => s.boots_id,
        PlayerKey::GlovesId => s.gloves_id,
        PlayerKey::BaseCopyId => s.base_copy_id,
        PlayerKey::AttackingProwess => match s.stats.attacking_prowess { Some(x) => Some(x as u32), None => None },
        PlayerKey::BallControl => match s.stats.ball_control { Some(x) => Some(x as u32), None => None },
        PlayerKey::Dribbling => match s.stats.dribbling { Some(x) => Some(x as u32), None => None },
        PlayerKey::TightPossession => match s.stats.tight_possession { Some(x) => Some(x as u32), None => None },
        PlayerKey::LowPass => match s.stats.low_pass { Some(x) => Some(x as u32), None => None },
        PlayerKey::LoftedPass => match s.stats.lofted_pass { Some(x) => Some(x as u32), None => None },
        PlayerKey::Finishing => match s.stats.finishing { Some(x) => Some(x as u32), None => None },
        PlayerKey::Heading => match s.stats.heading { Some(x) => Some(x as u32), None => None },
        PlayerKey::PlaceKicking => match s.stats.place_kicking { Some(x) => Some(x as u32), None => None },
        PlayerKey::Swerve => match s.stats.swerve { Some(x) => Some(x as u32), None => None },
        PlayerKey::DefensiveProwess => match s.stats.defensive_prowess { Some(x) => Some(x as u32), None => None },
        PlayerKey::BallWinning => match s.stats.ball_winning { Some(x) => Some(x as u32), None => None },
        PlayerKey::Aggression => match s.stats.aggression { Some(x) => Some(x as u32), None => None },
        PlayerKey::KickingPower => match s.stats.kicking_power { Some(x) => Some(x as u32), None => None },
        PlayerKey::Speed => match s.stats.speed { Some(x) => Some(x as u32), None => None },
        PlayerKey::ExplosivePower => match s.stats.explosive_power { Some(x) => Some(x as u32), None => None },
        PlayerKey::BodyControl => match s.stats.body_control { Some(x) => Some(x as u32), None => None },
        PlayerKey::PhysicalContact => match s.stats.physical_contact { Some(x) => Some(x as u32), None => None },
        PlayerKey::Jump => match s.stats.jump { Some(x) => Some(x as u32), None => None },
        PlayerKey::Stamina => match s.stats.stamina { Some(x) => Some(x as u32), None => None },
        PlayerKey::Goalkeeping => match s.stats.goalkeeping { Some(x) => Some(x as u32), None => None },
        PlayerKey::Catching => match s.stats.catching { Some(x) => Some(x as u32), None => None },
        PlayerKey::Clearing => match s.stats.clearing { Some(x) => Some(x as u32), None => None },
        PlayerKey::Reflexes => match s.stats.reflexes { Some(x) => Some(x as u32), None => None },
        PlayerKey::Coverage => match s.stats.coverage { Some(x) => Some(x as u32), None => None },
        PlayerKey::WeakFootUsage => match s.stats.weak_foot_usage { Some(x) => Some(x as u32), None => None },
        PlayerKey::WeakFootAccuracy => match s.stats.weak_foot_accuracy { Some(x) => Some(x as u32), None => None },
        PlayerKey::Form => match s.stats.form { Some(x) => Some(x as u32), None => None },
        PlayerKey::InjuryResistance => match s.stats.injury_resistance { Some(x) => Some(x as u32), None => None },
        PlayerKey::Star => match s.stats.star { Some(x) => Some(x as u32), None => None },
        PlayerKey::PlayingAttitude => match s.stats.playing_attitude { Some(x) => Some(x as u32), None => None },
        PlayerKey::Registered => match s.positions.registered { Some(x) => Some(x as u32), None => None },
        PlayerKey::StrongerFoot => match s.positions.stronger_foot { Some(x) => Some(x as u32), None => None },
        PlayerKey::StrongerHand => match s.positions.stronger_hand { Some(x) => Some(x as u32), None => None },
        PlayerKey::EditedPlayer => match s.edit_flags.player { Some(b) => Some(if b { 1u32 } else { 0u32 }), None => None },
        PlayerKey::EditedBasicSettings => match s.edit_flags.basic_settings { Some(b) => Some(if b { 1u32 } else { 0u32 }), None => None },
        PlayerKey::EditedRegisteredPosition => match s.edit_flags.registered_position { Some(b) => Some(if b { 1u32 } else { 0u32 }), None => None },
        PlayerKey::EditedPlayablePositions => match s.edit_flags.playable_positions { Some(b) => Some(if b { 1u32 } else { 0u32 }), None => None },
        PlayerKey::EditedAbilities => match s.edit_flags.abilities { Some(b) => Some(if b { 1u32 } else { 0u32 }), None => None },
        PlayerKey::EditedSkills => match s.edit_flags.skills { Some(b) => Some(if b { 1u32 } else { 0u32 }), None => None },
        PlayerKey::EditedPlayingStyle => match s.edit_flags.playing_style { Some(b) => Some(if b { 1u32 } else { 0u32 }), None => None },
        PlayerKey::EditedComStyles => match s.edit_flags.com_styles { Some(b) => Some(if b { 1u32 } else { 0u32 }), None => None },
        PlayerKey::EditedMotion => match s.edit_flags.motion { Some(b) => Some(if b { 1u32 } else { 0u32 }), None => None },
        PlayerKey::EditedBaseCopy => match s.edit_flags.base_copy { Some(b) => Some(if b { 1u32 } else { 0u32 }), None => None },
        PlayerKey::EditedFace => match s.edit_flags.face { Some(b) => Some(if b { 1u32 } else { 0u32 }), None => None },
        PlayerKey::EditedHair => match s.edit_flags.hair { Some(b) => Some(if b { 1u32 } else { 0u32 }), None => None },
        PlayerKey::EditedPhysique => match s.edit_flags.physique { Some(b) => Some(if b { 1u32 } else { 0u32 }), None => None },
        PlayerKey::EditedStrip => match s.edit_flags.strip { Some(b) => Some(if b { 1u32 } else { 0u32 }), None => None },
    }
}

impl PlayerKey {
    /// Every scalar key, in the format's order (top level, stats, positions
    /// scalars, edit flags).
    pub const ALL: [PlayerKey; 53] = [
        PlayerKey::Nationality,
        PlayerKey::Age,
        PlayerKey::BootsId,
        PlayerKey::GlovesId,
        PlayerKey::BaseCopyId,
        PlayerKey::AttackingProwess,
        PlayerKey::BallControl,
        PlayerKey::Dribbling,
        PlayerKey::TightPossession,
        PlayerKey::LowPass,
        PlayerKey::LoftedPass,
        PlayerKey::Finishing,
        PlayerKey::Heading,
        PlayerKey::PlaceKicking,
        PlayerKey::Swerve,
        PlayerKey::DefensiveProwess,
        PlayerKey::BallWinning,
        PlayerKey::Aggression,
        PlayerKey::KickingPower,
        PlayerKey::Speed,
        PlayerKey::ExplosivePower,
        PlayerKey::BodyControl,
        PlayerKey::PhysicalContact,
        PlayerKey::Jump,
        PlayerKey::Stamina,
        PlayerKey::Goalkeeping,
        PlayerKey::Catching,
        PlayerKey::Clearing,
        PlayerKey::Reflexes,
        PlayerKey::Coverage,
        PlayerKey::WeakFootUsage,
        PlayerKey::WeakFootAccuracy,
        PlayerKey::Form,
        PlayerKey::InjuryResistance,
        PlayerKey::Star,
        PlayerKey::PlayingAttitude,
        PlayerKey::Registered,
        PlayerKey::StrongerFoot,
        PlayerKey::StrongerHand,
        PlayerKey::EditedPlayer,
        PlayerKey::EditedBasicSettings,
        PlayerKey::EditedRegisteredPosition,
        PlayerKey::EditedPlayablePositions,
        PlayerKey::EditedAbilities,
        PlayerKey::EditedSkills,
        PlayerKey::EditedPlayingStyle,
        PlayerKey::EditedComStyles,
        PlayerKey::EditedMotion,
        PlayerKey::EditedBaseCopy,
        PlayerKey::EditedFace,
        PlayerKey::EditedHair,
        PlayerKey::EditedPhysique,
        PlayerKey::EditedStrip,
    ];

    /// The key's row: path, kind, model field, comment.
    pub fn spec(self) -> (s: KeySpec)
        ensures
            s == key_spec(self),
    {
        match self {
            PlayerKey::Nationality => KeySpec { path: "nationality", kind: Kind::U16, field: PlayerField::Nationality, comment: "" },
            PlayerKey::Age => KeySpec { path: "age", kind: Kind::Stored, field: PlayerField::Age, comment: "" },
            PlayerKey::BootsId => KeySpec { path: "boots_id", kind: Kind::U32, field: PlayerField::BootsId, comment: "" },
            PlayerKey::GlovesId => KeySpec { path: "gloves_id", kind: Kind::U32, field: PlayerField::GlovesId, comment: "" },
            PlayerKey::BaseCopyId => KeySpec { path: "base_copy_id", kind: Kind::U32, field: PlayerField::BaseCopyId, comment: "equal to the player's own id in the file = unset; becomes the target's own id" },
            PlayerKey::AttackingProwess => KeySpec { path: "stats.attacking_prowess", kind: Kind::Ability, field: PlayerField::AttackingProwess, comment: "" },
            PlayerKey::BallControl => KeySpec { path: "stats.ball_control", kind: Kind::Ability, field: PlayerField::BallControl, comment: "" },
            PlayerKey::Dribbling => KeySpec { path: "stats.dribbling", kind: Kind::Ability, field: PlayerField::Dribbling, comment: "" },
            PlayerKey::TightPossession => KeySpec { path: "stats.tight_possession", kind: Kind::Ability, field: PlayerField::TightPossession, comment: "PES 20+" },
            PlayerKey::LowPass => KeySpec { path: "stats.low_pass", kind: Kind::Ability, field: PlayerField::LowPass, comment: "" },
            PlayerKey::LoftedPass => KeySpec { path: "stats.lofted_pass", kind: Kind::Ability, field: PlayerField::LoftedPass, comment: "" },
            PlayerKey::Finishing => KeySpec { path: "stats.finishing", kind: Kind::Ability, field: PlayerField::Finishing, comment: "" },
            PlayerKey::Heading => KeySpec { path: "stats.heading", kind: Kind::Ability, field: PlayerField::Heading, comment: "" },
            PlayerKey::PlaceKicking => KeySpec { path: "stats.place_kicking", kind: Kind::Ability, field: PlayerField::PlaceKicking, comment: "" },
            PlayerKey::Swerve => KeySpec { path: "stats.swerve", kind: Kind::Ability, field: PlayerField::Swerve, comment: "" },
            PlayerKey::DefensiveProwess => KeySpec { path: "stats.defensive_prowess", kind: Kind::Ability, field: PlayerField::DefensiveProwess, comment: "" },
            PlayerKey::BallWinning => KeySpec { path: "stats.ball_winning", kind: Kind::Ability, field: PlayerField::BallWinning, comment: "" },
            PlayerKey::Aggression => KeySpec { path: "stats.aggression", kind: Kind::Ability, field: PlayerField::Aggression, comment: "PES 20+" },
            PlayerKey::KickingPower => KeySpec { path: "stats.kicking_power", kind: Kind::Ability, field: PlayerField::KickingPower, comment: "" },
            PlayerKey::Speed => KeySpec { path: "stats.speed", kind: Kind::Ability, field: PlayerField::Speed, comment: "" },
            PlayerKey::ExplosivePower => KeySpec { path: "stats.explosive_power", kind: Kind::Ability, field: PlayerField::ExplosivePower, comment: "" },
            PlayerKey::BodyControl => KeySpec { path: "stats.body_control", kind: Kind::Ability, field: PlayerField::BodyControl, comment: "" },
            PlayerKey::PhysicalContact => KeySpec { path: "stats.physical_contact", kind: Kind::Ability, field: PlayerField::PhysicalContact, comment: "PES 17+" },
            PlayerKey::Jump => KeySpec { path: "stats.jump", kind: Kind::Ability, field: PlayerField::Jump, comment: "" },
            PlayerKey::Stamina => KeySpec { path: "stats.stamina", kind: Kind::Ability, field: PlayerField::Stamina, comment: "" },
            PlayerKey::Goalkeeping => KeySpec { path: "stats.goalkeeping", kind: Kind::Ability, field: PlayerField::Goalkeeping, comment: "" },
            PlayerKey::Catching => KeySpec { path: "stats.catching", kind: Kind::Ability, field: PlayerField::Catching, comment: "" },
            PlayerKey::Clearing => KeySpec { path: "stats.clearing", kind: Kind::Ability, field: PlayerField::Clearing, comment: "PES 16+" },
            PlayerKey::Reflexes => KeySpec { path: "stats.reflexes", kind: Kind::Ability, field: PlayerField::Reflexes, comment: "PES 16+" },
            PlayerKey::Coverage => KeySpec { path: "stats.coverage", kind: Kind::Ability, field: PlayerField::Coverage, comment: "PES 16+" },
            PlayerKey::WeakFootUsage => KeySpec { path: "stats.weak_foot_usage", kind: Kind::Stored, field: PlayerField::WeakFootUsage, comment: "0-3 stored" },
            PlayerKey::WeakFootAccuracy => KeySpec { path: "stats.weak_foot_accuracy", kind: Kind::Stored, field: PlayerField::WeakFootAccuracy, comment: "0-3 stored" },
            PlayerKey::Form => KeySpec { path: "stats.form", kind: Kind::Stored, field: PlayerField::Form, comment: "0-7 stored" },
            PlayerKey::InjuryResistance => KeySpec { path: "stats.injury_resistance", kind: Kind::Stored, field: PlayerField::InjuryResistance, comment: "0-2 stored" },
            PlayerKey::Star => KeySpec { path: "stats.star", kind: Kind::Stored, field: PlayerField::Star, comment: "PES 19+, 0-7 stored" },
            PlayerKey::PlayingAttitude => KeySpec { path: "stats.playing_attitude", kind: Kind::Stored, field: PlayerField::PlayingAttitude, comment: "PES 20+, stored" },
            PlayerKey::Registered => KeySpec { path: "positions.registered", kind: Kind::Label(LabelList::Positions), field: PlayerField::RegisteredPosition, comment: "\"GK\" \"CB\" \"LB\" \"RB\" \"DMF\" \"CMF\" \"LMF\" \"RMF\" \"AMF\" \"LWF\" \"RWF\" \"SS\" \"CF\"" },
            PlayerKey::StrongerFoot => KeySpec { path: "positions.stronger_foot", kind: Kind::Label(LabelList::Foot), field: PlayerField::StrongerFoot, comment: "\"right\" | \"left\"" },
            PlayerKey::StrongerHand => KeySpec { path: "positions.stronger_hand", kind: Kind::Label(LabelList::Foot), field: PlayerField::StrongerHand, comment: "PES 20+; \"right\" | \"left\"" },
            PlayerKey::EditedPlayer => KeySpec { path: "edit_flags.player", kind: Kind::Bool, field: PlayerField::EditedPlayer, comment: "" },
            PlayerKey::EditedBasicSettings => KeySpec { path: "edit_flags.basic_settings", kind: Kind::Bool, field: PlayerField::EditedBasicSettings, comment: "" },
            PlayerKey::EditedRegisteredPosition => KeySpec { path: "edit_flags.registered_position", kind: Kind::Bool, field: PlayerField::EditedRegisteredPosition, comment: "" },
            PlayerKey::EditedPlayablePositions => KeySpec { path: "edit_flags.playable_positions", kind: Kind::Bool, field: PlayerField::EditedPlayablePositions, comment: "" },
            PlayerKey::EditedAbilities => KeySpec { path: "edit_flags.abilities", kind: Kind::Bool, field: PlayerField::EditedAbilities, comment: "" },
            PlayerKey::EditedSkills => KeySpec { path: "edit_flags.skills", kind: Kind::Bool, field: PlayerField::EditedSkills, comment: "" },
            PlayerKey::EditedPlayingStyle => KeySpec { path: "edit_flags.playing_style", kind: Kind::Bool, field: PlayerField::EditedPlayingStyle, comment: "" },
            PlayerKey::EditedComStyles => KeySpec { path: "edit_flags.com_styles", kind: Kind::Bool, field: PlayerField::EditedComStyles, comment: "" },
            PlayerKey::EditedMotion => KeySpec { path: "edit_flags.motion", kind: Kind::Bool, field: PlayerField::EditedMotion, comment: "" },
            PlayerKey::EditedBaseCopy => KeySpec { path: "edit_flags.base_copy", kind: Kind::Bool, field: PlayerField::BaseCopy, comment: "" },
            PlayerKey::EditedFace => KeySpec { path: "edit_flags.face", kind: Kind::Bool, field: PlayerField::EditedFace, comment: "" },
            PlayerKey::EditedHair => KeySpec { path: "edit_flags.hair", kind: Kind::Bool, field: PlayerField::EditedHair, comment: "" },
            PlayerKey::EditedPhysique => KeySpec { path: "edit_flags.physique", kind: Kind::Bool, field: PlayerField::EditedPhysique, comment: "" },
            PlayerKey::EditedStrip => KeySpec { path: "edit_flags.strip", kind: Kind::Bool, field: PlayerField::EditedStrip, comment: "" },
        }
    }

    /// The sub-table the key sits in.
    pub fn table(self) -> (t: &'static str)
        ensures
            t == key_table(self),
    {
        match self {
            PlayerKey::Nationality => "",
            PlayerKey::Age => "",
            PlayerKey::BootsId => "",
            PlayerKey::GlovesId => "",
            PlayerKey::BaseCopyId => "",
            PlayerKey::AttackingProwess => "stats",
            PlayerKey::BallControl => "stats",
            PlayerKey::Dribbling => "stats",
            PlayerKey::TightPossession => "stats",
            PlayerKey::LowPass => "stats",
            PlayerKey::LoftedPass => "stats",
            PlayerKey::Finishing => "stats",
            PlayerKey::Heading => "stats",
            PlayerKey::PlaceKicking => "stats",
            PlayerKey::Swerve => "stats",
            PlayerKey::DefensiveProwess => "stats",
            PlayerKey::BallWinning => "stats",
            PlayerKey::Aggression => "stats",
            PlayerKey::KickingPower => "stats",
            PlayerKey::Speed => "stats",
            PlayerKey::ExplosivePower => "stats",
            PlayerKey::BodyControl => "stats",
            PlayerKey::PhysicalContact => "stats",
            PlayerKey::Jump => "stats",
            PlayerKey::Stamina => "stats",
            PlayerKey::Goalkeeping => "stats",
            PlayerKey::Catching => "stats",
            PlayerKey::Clearing => "stats",
            PlayerKey::Reflexes => "stats",
            PlayerKey::Coverage => "stats",
            PlayerKey::WeakFootUsage => "stats",
            PlayerKey::WeakFootAccuracy => "stats",
            PlayerKey::Form => "stats",
            PlayerKey::InjuryResistance => "stats",
            PlayerKey::Star => "stats",
            PlayerKey::PlayingAttitude => "stats",
            PlayerKey::Registered => "positions",
            PlayerKey::StrongerFoot => "positions",
            PlayerKey::StrongerHand => "positions",
            PlayerKey::EditedPlayer => "edit_flags",
            PlayerKey::EditedBasicSettings => "edit_flags",
            PlayerKey::EditedRegisteredPosition => "edit_flags",
            PlayerKey::EditedPlayablePositions => "edit_flags",
            PlayerKey::EditedAbilities => "edit_flags",
            PlayerKey::EditedSkills => "edit_flags",
            PlayerKey::EditedPlayingStyle => "edit_flags",
            PlayerKey::EditedComStyles => "edit_flags",
            PlayerKey::EditedMotion => "edit_flags",
            PlayerKey::EditedBaseCopy => "edit_flags",
            PlayerKey::EditedFace => "edit_flags",
            PlayerKey::EditedHair => "edit_flags",
            PlayerKey::EditedPhysique => "edit_flags",
            PlayerKey::EditedStrip => "edit_flags",
        }
    }

    /// The key's own name (the last path segment).
    pub fn name(self) -> (n: &'static str)
        ensures
            n == key_name(self),
    {
        match self {
            PlayerKey::Nationality => "nationality",
            PlayerKey::Age => "age",
            PlayerKey::BootsId => "boots_id",
            PlayerKey::GlovesId => "gloves_id",
            PlayerKey::BaseCopyId => "base_copy_id",
            PlayerKey::AttackingProwess => "attacking_prowess",
            PlayerKey::BallControl => "ball_control",
            PlayerKey::Dribbling => "dribbling",
            PlayerKey::TightPossession => "tight_possession",
            PlayerKey::LowPass => "low_pass",
            PlayerKey::LoftedPass => "lofted_pass",
            PlayerKey::Finishing => "finishing",
            PlayerKey::Heading => "heading",
            PlayerKey::PlaceKicking => "place_kicking",
            PlayerKey::Swerve => "swerve",
            PlayerKey::DefensiveProwess => "defensive_prowess",
            PlayerKey::BallWinning => "ball_winning",
            PlayerKey::Aggression => "aggression",
            PlayerKey::KickingPower => "kicking_power",
            PlayerKey::Speed => "speed",
            PlayerKey::ExplosivePower => "explosive_power",
            PlayerKey::BodyControl => "body_control",
            PlayerKey::PhysicalContact => "physical_contact",
            PlayerKey::Jump => "jump",
            PlayerKey::Stamina => "stamina",
            PlayerKey::Goalkeeping => "goalkeeping",
            PlayerKey::Catching => "catching",
            PlayerKey::Clearing => "clearing",
            PlayerKey::Reflexes => "reflexes",
            PlayerKey::Coverage => "coverage",
            PlayerKey::WeakFootUsage => "weak_foot_usage",
            PlayerKey::WeakFootAccuracy => "weak_foot_accuracy",
            PlayerKey::Form => "form",
            PlayerKey::InjuryResistance => "injury_resistance",
            PlayerKey::Star => "star",
            PlayerKey::PlayingAttitude => "playing_attitude",
            PlayerKey::Registered => "registered",
            PlayerKey::StrongerFoot => "stronger_foot",
            PlayerKey::StrongerHand => "stronger_hand",
            PlayerKey::EditedPlayer => "player",
            PlayerKey::EditedBasicSettings => "basic_settings",
            PlayerKey::EditedRegisteredPosition => "registered_position",
            PlayerKey::EditedPlayablePositions => "playable_positions",
            PlayerKey::EditedAbilities => "abilities",
            PlayerKey::EditedSkills => "skills",
            PlayerKey::EditedPlayingStyle => "playing_style",
            PlayerKey::EditedComStyles => "com_styles",
            PlayerKey::EditedMotion => "motion",
            PlayerKey::EditedBaseCopy => "base_copy",
            PlayerKey::EditedFace => "face",
            PlayerKey::EditedHair => "hair",
            PlayerKey::EditedPhysique => "physique",
            PlayerKey::EditedStrip => "strip",
        }
    }

    /// The section's value, `bool` as 0/1.
    pub fn get_section(self, s: &PlayerSection) -> (v: Option<u32>)
        ensures
            v == section_value(self, *s),
    {
        match self {
            PlayerKey::Nationality => match s.nationality { Some(x) => Some(x as u32), None => None },
            PlayerKey::Age => match s.age { Some(x) => Some(x as u32), None => None },
            PlayerKey::BootsId => s.boots_id,
            PlayerKey::GlovesId => s.gloves_id,
            PlayerKey::BaseCopyId => s.base_copy_id,
            PlayerKey::AttackingProwess => match s.stats.attacking_prowess { Some(x) => Some(x as u32), None => None },
            PlayerKey::BallControl => match s.stats.ball_control { Some(x) => Some(x as u32), None => None },
            PlayerKey::Dribbling => match s.stats.dribbling { Some(x) => Some(x as u32), None => None },
            PlayerKey::TightPossession => match s.stats.tight_possession { Some(x) => Some(x as u32), None => None },
            PlayerKey::LowPass => match s.stats.low_pass { Some(x) => Some(x as u32), None => None },
            PlayerKey::LoftedPass => match s.stats.lofted_pass { Some(x) => Some(x as u32), None => None },
            PlayerKey::Finishing => match s.stats.finishing { Some(x) => Some(x as u32), None => None },
            PlayerKey::Heading => match s.stats.heading { Some(x) => Some(x as u32), None => None },
            PlayerKey::PlaceKicking => match s.stats.place_kicking { Some(x) => Some(x as u32), None => None },
            PlayerKey::Swerve => match s.stats.swerve { Some(x) => Some(x as u32), None => None },
            PlayerKey::DefensiveProwess => match s.stats.defensive_prowess { Some(x) => Some(x as u32), None => None },
            PlayerKey::BallWinning => match s.stats.ball_winning { Some(x) => Some(x as u32), None => None },
            PlayerKey::Aggression => match s.stats.aggression { Some(x) => Some(x as u32), None => None },
            PlayerKey::KickingPower => match s.stats.kicking_power { Some(x) => Some(x as u32), None => None },
            PlayerKey::Speed => match s.stats.speed { Some(x) => Some(x as u32), None => None },
            PlayerKey::ExplosivePower => match s.stats.explosive_power { Some(x) => Some(x as u32), None => None },
            PlayerKey::BodyControl => match s.stats.body_control { Some(x) => Some(x as u32), None => None },
            PlayerKey::PhysicalContact => match s.stats.physical_contact { Some(x) => Some(x as u32), None => None },
            PlayerKey::Jump => match s.stats.jump { Some(x) => Some(x as u32), None => None },
            PlayerKey::Stamina => match s.stats.stamina { Some(x) => Some(x as u32), None => None },
            PlayerKey::Goalkeeping => match s.stats.goalkeeping { Some(x) => Some(x as u32), None => None },
            PlayerKey::Catching => match s.stats.catching { Some(x) => Some(x as u32), None => None },
            PlayerKey::Clearing => match s.stats.clearing { Some(x) => Some(x as u32), None => None },
            PlayerKey::Reflexes => match s.stats.reflexes { Some(x) => Some(x as u32), None => None },
            PlayerKey::Coverage => match s.stats.coverage { Some(x) => Some(x as u32), None => None },
            PlayerKey::WeakFootUsage => match s.stats.weak_foot_usage { Some(x) => Some(x as u32), None => None },
            PlayerKey::WeakFootAccuracy => match s.stats.weak_foot_accuracy { Some(x) => Some(x as u32), None => None },
            PlayerKey::Form => match s.stats.form { Some(x) => Some(x as u32), None => None },
            PlayerKey::InjuryResistance => match s.stats.injury_resistance { Some(x) => Some(x as u32), None => None },
            PlayerKey::Star => match s.stats.star { Some(x) => Some(x as u32), None => None },
            PlayerKey::PlayingAttitude => match s.stats.playing_attitude { Some(x) => Some(x as u32), None => None },
            PlayerKey::Registered => match s.positions.registered { Some(x) => Some(x as u32), None => None },
            PlayerKey::StrongerFoot => match s.positions.stronger_foot { Some(x) => Some(x as u32), None => None },
            PlayerKey::StrongerHand => match s.positions.stronger_hand { Some(x) => Some(x as u32), None => None },
            PlayerKey::EditedPlayer => match s.edit_flags.player { Some(b) => Some(if b { 1u32 } else { 0u32 }), None => None },
            PlayerKey::EditedBasicSettings => match s.edit_flags.basic_settings { Some(b) => Some(if b { 1u32 } else { 0u32 }), None => None },
            PlayerKey::EditedRegisteredPosition => match s.edit_flags.registered_position { Some(b) => Some(if b { 1u32 } else { 0u32 }), None => None },
            PlayerKey::EditedPlayablePositions => match s.edit_flags.playable_positions { Some(b) => Some(if b { 1u32 } else { 0u32 }), None => None },
            PlayerKey::EditedAbilities => match s.edit_flags.abilities { Some(b) => Some(if b { 1u32 } else { 0u32 }), None => None },
            PlayerKey::EditedSkills => match s.edit_flags.skills { Some(b) => Some(if b { 1u32 } else { 0u32 }), None => None },
            PlayerKey::EditedPlayingStyle => match s.edit_flags.playing_style { Some(b) => Some(if b { 1u32 } else { 0u32 }), None => None },
            PlayerKey::EditedComStyles => match s.edit_flags.com_styles { Some(b) => Some(if b { 1u32 } else { 0u32 }), None => None },
            PlayerKey::EditedMotion => match s.edit_flags.motion { Some(b) => Some(if b { 1u32 } else { 0u32 }), None => None },
            PlayerKey::EditedBaseCopy => match s.edit_flags.base_copy { Some(b) => Some(if b { 1u32 } else { 0u32 }), None => None },
            PlayerKey::EditedFace => match s.edit_flags.face { Some(b) => Some(if b { 1u32 } else { 0u32 }), None => None },
            PlayerKey::EditedHair => match s.edit_flags.hair { Some(b) => Some(if b { 1u32 } else { 0u32 }), None => None },
            PlayerKey::EditedPhysique => match s.edit_flags.physique { Some(b) => Some(if b { 1u32 } else { 0u32 }), None => None },
            PlayerKey::EditedStrip => match s.edit_flags.strip { Some(b) => Some(if b { 1u32 } else { 0u32 }), None => None },
        }
    }
}

/// How many labels a list holds.
pub open spec fn label_count(l: LabelList) -> nat {
    match l {
        LabelList::Positions => 13,
        LabelList::Foot => 2,
    }
}

/// Label `v` of a list.
pub open spec fn label_at(l: LabelList, v: int) -> Seq<char> {
    match l {
        LabelList::Positions => POSITIONS[v]@,
        LabelList::Foot => FOOT[v]@,
    }
}

/// The labels a list allows, each quoted, as an error reports them.
pub open spec fn label_range(l: LabelList) -> Seq<char> {
    match l {
        LabelList::Positions => "\"GK\", \"CB\", \"LB\", \"RB\", \"DMF\", \"CMF\", \"LMF\", \"RMF\", \"AMF\", \"LWF\", \"RWF\", \"SS\", \"CF\""@,
        LabelList::Foot => "\"right\", \"left\""@,
    }
}

/// The TOML text of a stored value under a kind: a label quoted, a bool as
/// `true`/`false`, a number in decimal; `None` for a label index past its
/// list.
pub open spec fn kind_text(kind: Kind, v: u32) -> Option<Seq<char>> {
    match kind {
        Kind::Label(l) => if (v as nat) < label_count(l) {
            Some("\""@ + label_at(l, v as int) + "\""@)
        } else {
            None
        },
        Kind::Bool => Some(if v == 0 { "false"@ } else { "true"@ }),
        _ => Some(decimal(v as nat)),
    }
}

/// The value an unset key's commented line shows.
pub open spec fn kind_neutral(kind: Kind) -> Seq<char> {
    match kind {
        Kind::Ability => "40"@,
        Kind::Bool => "false"@,
        Kind::Label(l) => "\""@ + label_at(l, 0) + "\""@,
        _ => "0"@,
    }
}

impl PlayerKey {
    /// The TOML text of a stored value (`"left"`, `true`, `42`); a label
    /// index past its list is `OutOfRange` under the key's path.
    pub fn text(self, value: u32) -> (r: Result<String, TeamTomlError>)
        ensures
            match kind_text(key_spec(self).kind, value) {
                Some(t) => r matches Ok(s) && s@ == t,
                None => r matches Err(TeamTomlError::OutOfRange { key, value: v, range }) && key@
                    == key_spec(self).path@ && v == value as i64 && (key_spec(self).kind matches Kind::Label(l)
                    && range@ == label_range(l)),
            },
    {
        let spec = self.spec();
        match spec.kind {
            Kind::Label(l) => {
                let (ok, range) = match l {
                    LabelList::Positions => (
                        value < 13,
                        "\"GK\", \"CB\", \"LB\", \"RB\", \"DMF\", \"CMF\", \"LMF\", \"RMF\", \"AMF\", \"LWF\", \"RWF\", \"SS\", \"CF\"",
                    ),
                    LabelList::Foot => (value < 2, "\"right\", \"left\""),
                };
                if !ok {
                    return Err(
                        TeamTomlError::OutOfRange {
                            key: spec.path.to_owned(),
                            value: value as i64,
                            range: range.to_owned(),
                        },
                    );
                }
                let mut s = "\"".to_owned();
                match l {
                    LabelList::Positions => append_str(&mut s, POSITIONS[value as usize]),
                    LabelList::Foot => append_str(&mut s, FOOT[value as usize]),
                }
                append_str(&mut s, "\"");
                Ok(s)
            },
            Kind::Bool => Ok(
                if value == 0 {
                    "false".to_owned()
                } else {
                    "true".to_owned()
                },
            ),
            _ => {
                let mut s = String::new();
                push_decimal(&mut s, value);
                assert(s@ =~= decimal(value as nat));
                Ok(s)
            },
        }
    }

    /// The value an unset key's commented line shows.
    pub fn neutral(self) -> (r: String)
        ensures
            r@ == kind_neutral(key_spec(self).kind),
    {
        match self.spec().kind {
            Kind::Ability => "40".to_owned(),
            Kind::Bool => "false".to_owned(),
            Kind::Label(l) => {
                let mut s = "\"".to_owned();
                match l {
                    LabelList::Positions => append_str(&mut s, POSITIONS[0]),
                    LabelList::Foot => append_str(&mut s, FOOT[0]),
                }
                append_str(&mut s, "\"");
                s
            },
            _ => "0".to_owned(),
        }
    }
}

} // verus!
