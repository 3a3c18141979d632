//! Record layouts: which model field each bit run of a record carries. The
//! per-version layout tables are data the caller supplies; this module holds
//! their shape and the field enums the codec moves values through.
use vstd::prelude::*;

use crate::version::PesVersion;

verus! {

/// A player record field, one bit run each; indexed variants name one element
/// of a model array.
#[derive(Debug, Clone, Copy, PartialEq, Eq, Structural)]
pub enum PlayerField {
    Id,
    Nationality,
    Height,
    Weight,
    GoalCelebration1,
    GoalCelebration2,
    AttackingProwess,
    DefensiveProwess,
    Goalkeeping,
    Dribbling,
    FreeKickMotion,
    Finishing,
    LowPass,
    LoftedPass,
    Heading,
    Form,
    EditedPlayer,
    Swerve,
    Catching,
    Clearing,
    Reflexes,
    InjuryResistance,
    EditedBasicSettings,
    BodyControl,
    PhysicalContact,
    KickingPower,
    ExplosivePower,
    ArmMovementDribbling,
    EditedRegisteredPosition,
    Age,
    RegisteredPosition,
    PlayingStyle,
    BallControl,
    BallWinning,
    WeakFootAccuracy,
    Jump,
    ArmMovementRunning,
    CornerKickMotion,
    Coverage,
    WeakFootUsage,
    PlayablePosition(u8),
    HunchingDribbling,
    HunchingRunning,
    PenaltyKickMotion,
    PlaceKicking,
    EditedPlayablePositions,
    EditedAbilities,
    EditedSkills,
    Stamina,
    Speed,
    EditedPlayingStyle,
    EditedComStyles,
    EditedMotion,
    BaseCopy,
    StrongerFoot,
    ComStyle(u8),
    Skill(u8),
    Star,
    DribblingMotion,
    TightPossession,
    Aggression,
    PlayingAttitude,
    StrongerHand,
    EditedFace,
    EditedHair,
    EditedPhysique,
    EditedStrip,
    BootsId,
    GlovesId,
    BaseCopyId,
    NeckLength,
    NeckSize,
    ShoulderHeight,
    ShoulderWidth,
    Chest,
    Waist,
    ArmSize,
    ArmLength,
    Thigh,
    Calf,
    LegLength,
    HeadLength,
    HeadWidth,
    HeadDepth,
    WristTapeColorLeft,
    WristTapeColorRight,
    WristTaping,
    SpectaclesColor,
    SpectaclesStyle,
    Sleeves,
    Inners,
    Socks,
    Undershorts,
    Untucked,
    AnkleTaping,
    PlayerGloves,
    PlayerGlovesColor,
    SkinColor,
    IrisColor,
}

/// A player record's text fields.
#[derive(Debug, Clone, Copy, PartialEq, Eq, Structural)]
pub enum PlayerText {
    /// The display name, UTF-8.
    Name,
    /// The shirt name, one byte per char.
    ShirtName,
}

/// A team record field.
#[derive(Debug, Clone, Copy, PartialEq, Eq, Structural)]
pub enum TeamField {
    Id,
    ManagerId,
    StadiumId,
    EditedName,
    EditedShortName,
    EditedStadium,
    EditedStrip,
    Color1Red,
    Color1Green,
    Color1Blue,
    Color2Red,
    Color2Green,
    Color2Blue,
    KitSlotNumber(u8),
    KitSlotTeam(u8),
}

/// A team record's text fields.
#[derive(Debug, Clone, Copy, PartialEq, Eq, Structural)]
pub enum TeamText {
    /// The team name, UTF-8.
    Name,
    /// The short name, one byte per char.
    ShortName,
}

/// A roster record field.
#[derive(Debug, Clone, Copy, PartialEq, Eq, Structural)]
pub enum RosterField {
    /// The owning team's id.
    TeamId,
    /// The player id of roster slot `i`.
    Player(u8),
    /// The shirt number of roster slot `i`.
    Number(u8),
}

/// A per-preset byte of a tactics record.
#[derive(Debug, Clone, Copy, PartialEq, Eq, Structural)]
pub enum PresetField {
    AttackingStyle,
    Buildup,
    AttackingZone,
    Positioning,
    DefensiveStyle,
    ContainmentArea,
    Pressure,
    FluidFormation,
    SupportRange,
    DefensiveLine,
    Compactness,
    NumbersInAttack,
    NumbersInDefence,
}

/// One of a formation slot's three bytes.
#[derive(Debug, Clone, Copy, PartialEq, Eq, Structural)]
pub enum FormationPart {
    Position,
    Y,
    X,
}

/// The attacking or the defending instruction pair.
#[derive(Debug, Clone, Copy, PartialEq, Eq, Structural)]
pub enum InstructionSide {
    Attack,
    Defence,
}

/// An advanced instruction's two bytes.
#[derive(Debug, Clone, Copy, PartialEq, Eq, Structural)]
pub enum InstructionPart {
    Instruction,
    PlayerId,
}

/// A tactics record field.
#[derive(Debug, Clone, Copy, PartialEq, Eq, Structural)]
pub enum TacticsField {
    TeamId,
    Preset { preset: u8, field: PresetField },
    Formation { preset: u8, formation: u8, slot: u8, part: FormationPart },
    Instruction { preset: u8, side: InstructionSide, index: u8, part: InstructionPart },
    FreeKickTakerLong,
    FreeKickTakerShort,
    FreeKickTakerSecond,
    CornerTakerLeft,
    CornerTakerRight,
    PenaltyTaker,
    Captain,
    AutoSubstitution,
    AutoOffsideTrap,
    AutoPresetChange,
    AutoAttackDefenceLevels,
    Starting(u8),
    Bench(u8),
    PlayerToJoinAttack(u8),
}

/// A field enum whose indexed variants an array row expands: `element(i)` is
/// the same variant naming element `i`.
pub trait RecordField: Sized + Copy {
    spec fn spec_element(self, i: u8) -> Self;

    fn element(&self, i: u8) -> (f: Self)
        ensures
            f == self.spec_element(i),
    ;
}

impl RecordField for PlayerField {
    open spec fn spec_element(self, i: u8) -> Self {
        match self {
            PlayerField::PlayablePosition(_) => PlayerField::PlayablePosition(i),
            PlayerField::ComStyle(_) => PlayerField::ComStyle(i),
            PlayerField::Skill(_) => PlayerField::Skill(i),
            other => other,
        }
    }

    fn element(&self, i: u8) -> (f: Self) {
        match *self {
            PlayerField::PlayablePosition(_) => PlayerField::PlayablePosition(i),
            PlayerField::ComStyle(_) => PlayerField::ComStyle(i),
            PlayerField::Skill(_) => PlayerField::Skill(i),
            other => other,
        }
    }
}

impl RecordField for TeamField {
    open spec fn spec_element(self, i: u8) -> Self {
        match self {
            TeamField::KitSlotNumber(_) => TeamField::KitSlotNumber(i),
            TeamField::KitSlotTeam(_) => TeamField::KitSlotTeam(i),
            other => other,
        }
    }

    fn element(&self, i: u8) -> (f: Self) {
        match *self {
            TeamField::KitSlotNumber(_) => TeamField::KitSlotNumber(i),
            TeamField::KitSlotTeam(_) => TeamField::KitSlotTeam(i),
            other => other,
        }
    }
}

impl RecordField for RosterField {
    open spec fn spec_element(self, i: u8) -> Self {
        match self {
            RosterField::Player(_) => RosterField::Player(i),
            RosterField::Number(_) => RosterField::Number(i),
            other => other,
        }
    }

    fn element(&self, i: u8) -> (f: Self) {
        match *self {
            RosterField::Player(_) => RosterField::Player(i),
            RosterField::Number(_) => RosterField::Number(i),
            other => other,
        }
    }
}

impl RecordField for TacticsField {
    open spec fn spec_element(self, i: u8) -> Self {
        match self {
            TacticsField::Starting(_) => TacticsField::Starting(i),
            TacticsField::Bench(_) => TacticsField::Bench(i),
            TacticsField::PlayerToJoinAttack(_) => TacticsField::PlayerToJoinAttack(i),
            other => other,
        }
    }

    fn element(&self, i: u8) -> (f: Self) {
        match *self {
            TacticsField::Starting(_) => TacticsField::Starting(i),
            TacticsField::Bench(_) => TacticsField::Bench(i),
            TacticsField::PlayerToJoinAttack(_) => TacticsField::PlayerToJoinAttack(i),
            other => other,
        }
    }
}

/// One field's bit run.
#[derive(Debug, Clone, Copy, PartialEq, Eq)]
pub struct FieldSpec<F> {
    /// The model field the run carries.
    pub field: F,
    /// The run's first bit, counted LSB-first from the record's first byte.
    pub bit_offset: u32,
    /// The run's width in bits (at most 32).
    pub bit_width: u32,
}

/// `count` equally spaced runs, element `i` of the array `field` names.
#[derive(Debug, Clone, Copy, PartialEq, Eq)]
pub struct ArraySpec<F> {
    /// Any element of the array; `element(i)` names element `i`.
    pub field: F,
    /// How many elements the record stores.
    pub count: u8,
    /// Element 0's first bit.
    pub base_bit: u32,
    /// The distance between two elements' first bits.
    pub stride_bits: u32,
    /// Each element's width in bits.
    pub bit_width: u32,
}

/// A text field: `len` bytes at `byte_offset`, NUL-terminated inside them.
#[derive(Debug, Clone, Copy, PartialEq, Eq)]
pub struct TextSpec<T> {
    /// Which text.
    pub text: T,
    /// The field's first byte.
    pub byte_offset: u32,
    /// The field's byte count, terminator included.
    pub len: u32,
}

/// One record kind's layout.
#[derive(Debug, Clone, PartialEq, Eq)]
pub struct RecordSchema<F, T> {
    /// The record's byte count.
    pub size: usize,
    /// Single-field runs.
    pub fields: Vec<FieldSpec<F>>,
    /// Array runs.
    pub arrays: Vec<ArraySpec<F>>,
    /// Text fields.
    pub texts: Vec<TextSpec<T>>,
    /// The ingame-face run the record carries, copied verbatim (player
    /// records that hold the appearance block).
    pub ingame_face: Option<FaceRun>,
}

/// Where the ingame-face run sits in a record: `len` bytes at `byte_offset`.
#[derive(Debug, Clone, Copy, PartialEq, Eq)]
pub struct FaceRun {
    /// The run's first byte.
    pub byte_offset: u32,
    /// The run's byte count.
    pub len: u32,
}

/// A preset byte of the tactics record, relative to the preset's start.
#[derive(Debug, Clone, Copy, PartialEq, Eq)]
pub struct PresetSpec {
    /// Which preset byte.
    pub field: PresetField,
    /// Its bit offset inside the preset.
    pub bit_offset: u32,
}

/// Where a preset's three formations sit.
#[derive(Debug, Clone, Copy, PartialEq, Eq)]
pub struct FormationLayout {
    /// Formation 0's first bit inside the preset.
    pub base_bit: u32,
    /// The distance between two formations.
    pub formation_stride_bits: u32,
    /// The distance between two slots' position bytes.
    pub slot_stride_bits: u32,
    /// Where the y bytes start inside a formation.
    pub y_offset_bits: u32,
    /// Where the x bytes start inside a formation.
    pub x_offset_bits: u32,
    /// The distance between two slots' y (or x) bytes.
    pub pair_stride_bits: u32,
}

/// Where a preset's advanced instructions sit (PES 17+).
#[derive(Debug, Clone, Copy, PartialEq, Eq)]
pub struct InstructionLayout {
    /// The attack side's first instruction byte inside the preset.
    pub base_bit: u32,
    /// The distance between the attack and the defence pairs.
    pub side_stride_bits: u32,
    /// The distance between a pair's two instructions.
    pub index_stride_bits: u32,
    /// The distance between an instruction's two bytes.
    pub part_stride_bits: u32,
}

/// The tactics record's layout.
#[derive(Debug, Clone, PartialEq, Eq)]
pub struct TacticsSchema {
    /// The record's byte count.
    pub size: usize,
    /// Single-field runs.
    pub fields: Vec<FieldSpec<TacticsField>>,
    /// Array runs.
    pub arrays: Vec<ArraySpec<TacticsField>>,
    /// The per-preset bytes.
    pub presets: Vec<PresetSpec>,
    /// The distance between two presets.
    pub preset_stride_bits: u32,
    /// The formations inside a preset.
    pub formations: FormationLayout,
    /// The instructions inside a preset, on versions that have them.
    pub instructions: Option<InstructionLayout>,
}

/// A run: (field, first bit, width).
pub type Run<F> = (F, u32, u32);

/// Element `i` of `array`'s runs.
pub open spec fn array_run<F: RecordField>(array: ArraySpec<F>, i: int) -> Run<F> {
    (array.field.spec_element(i as u8), (array.base_bit + i * array.stride_bits) as u32, array.bit_width)
}

/// The runs `arrays[0..k]` expand to, in order.
pub open spec fn array_runs<F: RecordField>(arrays: Seq<ArraySpec<F>>) -> Seq<Run<F>>
    decreases arrays.len(),
{
    if arrays.len() == 0 {
        Seq::empty()
    } else {
        let last = arrays.last();
        array_runs(arrays.drop_last()) + Seq::new(last.count as nat, |i: int| array_run(last, i))
    }
}

/// The single-field runs, in order.
pub open spec fn field_runs<F>(fields: Seq<FieldSpec<F>>) -> Seq<Run<F>> {
    fields.map_values(|s: FieldSpec<F>| (s.field, s.bit_offset, s.bit_width))
}

/// Every run of a record schema: the fields, then each array's elements.
pub open spec fn schema_runs<F: RecordField, T>(schema: RecordSchema<F, T>) -> Seq<Run<F>> {
    field_runs(schema.fields@) + array_runs(schema.arrays@)
}

/// Every array element's first bit fits a `u32`.
pub open spec fn arrays_fit<F>(arrays: Seq<ArraySpec<F>>) -> bool {
    forall|k: int| 0 <= k < arrays.len() ==> #[trigger] arrays[k].base_bit + arrays[k].count * arrays[k].stride_bits <= u32::MAX
}


/// Where a payload section's records start and where its record count sits.
#[derive(Debug, Clone, Copy, PartialEq, Eq)]
pub struct SectionLayout {
    /// The first record's byte offset in the payload.
    pub offset: usize,
    /// The byte offset of the section's little-endian `u16` record count.
    pub count_offset: usize,
}

/// One version's payload layout: where each section sits and how its records
/// are laid out.
#[derive(Debug, Clone, PartialEq, Eq)]
pub struct VersionSchema {
    /// The version the layout belongs to.
    pub version: PesVersion,
    /// The player section.
    pub players: SectionLayout,
    /// The player record.
    pub player: RecordSchema<PlayerField, PlayerText>,
    /// The separate appearance section and record (PES 15/16 only).
    pub appearance: Option<(SectionLayout, RecordSchema<PlayerField, PlayerText>)>,
    /// The team section.
    pub teams: SectionLayout,
    /// The team record.
    pub team: RecordSchema<TeamField, TeamText>,
    /// The roster section.
    pub rosters: SectionLayout,
    /// The roster record.
    pub roster: RecordSchema<RosterField, TeamText>,
    /// The tactics section.
    pub tactics: SectionLayout,
    /// The tactics record.
    pub tactic: TacticsSchema,
}

} // verus!
