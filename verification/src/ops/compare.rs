//! The comparator: every difference between two players of the same
//! version, whether a row is an aesthetics change or a gameplay one, and the
//! save-level diff pairing players by id.
use vstd::prelude::*;

use crate::codec::{runs, CodecError};
use crate::file::{
    first_player_with_id, lemma_first_player_facts, position_of_player, version_schema_wf, view_version, EditFile,
};
use crate::codec::bits::run_value;
use crate::model::ingame_face::{face_covers, face_field_spec, masked_spec, IngameFace, IngameFaceField};
use crate::model::player::{player_field_value, PlayerEntry};
use crate::ops::fingerprint::{face_hash, face_hash_of, FaceHash};
use crate::ops::transplant::transplanted;
use crate::version::PesVersion;
use crate::schema::{arrays_fit, schema_runs, PlayerField, PlayerText, Run, VersionSchema};

verus! {

/// Every difference between two players of the same version.
#[derive(Debug, Clone, PartialEq, Eq)]
pub enum PlayerDiff {
    /// A bit-run field of the record.
    Field {
        /// The schema field that differs.
        field: PlayerField,
        /// `a`'s stored value.
        old: u32,
        /// `b`'s stored value.
        new: u32,
    },
    /// The name or shirt name.
    Text {
        /// The text field that differs.
        text: PlayerText,
        /// `a`'s text.
        old: String,
        /// `b`'s text.
        new: String,
    },
    /// A known bit run of the ingame-face block.
    Face {
        /// The ingame-face field that differs.
        field: IngameFaceField,
        /// `a`'s value.
        old: u8,
        /// `b`'s value.
        new: u8,
    },
    /// Bits of the run no `IngameFaceField` names differ; the hashes are the
    /// reference's fingerprints of the two runs.
    FaceRun {
        /// `a`'s fingerprint.
        old: FaceHash,
        /// `b`'s fingerprint.
        new: FaceHash,
    },
}

/// Whether a diff row is an aesthetics change or a gameplay one.
#[derive(Debug, Clone, Copy, PartialEq, Eq, Structural)]
pub enum DiffScope {
    /// A gameplay field.
    Gameplay,
    /// An aesthetics field: what `transplant_player` moves.
    Aesthetics,
}

/// Aesthetics is what `transplant_player` moves: the appearance-block
/// fields (the four appearance edit flags, boots/gloves/base-copy ids,
/// physique, strip), every `Face` and `FaceRun` row. Everything else
/// (motion and the other edit flags included) is gameplay.
pub open spec fn field_scope(field: PlayerField) -> DiffScope {
    match field {
    PlayerField::EditedFace
        | PlayerField::EditedHair
        | PlayerField::EditedPhysique
        | PlayerField::EditedStrip
        | PlayerField::BootsId
        | PlayerField::GlovesId
        | PlayerField::BaseCopyId
        | PlayerField::NeckLength
        | PlayerField::NeckSize
        | PlayerField::ShoulderHeight
        | PlayerField::ShoulderWidth
        | PlayerField::Chest
        | PlayerField::Waist
        | PlayerField::ArmSize
        | PlayerField::ArmLength
        | PlayerField::Thigh
        | PlayerField::Calf
        | PlayerField::LegLength
        | PlayerField::HeadLength
        | PlayerField::HeadWidth
        | PlayerField::HeadDepth
        | PlayerField::WristTapeColorLeft
        | PlayerField::WristTapeColorRight
        | PlayerField::WristTaping
        | PlayerField::SpectaclesColor
        | PlayerField::SpectaclesStyle
        | PlayerField::Sleeves
        | PlayerField::Inners
        | PlayerField::Socks
        | PlayerField::Undershorts
        | PlayerField::Untucked
        | PlayerField::AnkleTaping
            | PlayerField::PlayerGloves
            | PlayerField::PlayerGlovesColor
            | PlayerField::SkinColor
            | PlayerField::IrisColor => DiffScope::Aesthetics,
        PlayerField::Id
        | PlayerField::Nationality
        | PlayerField::Height
        | PlayerField::Weight
        | PlayerField::GoalCelebration1
        | PlayerField::GoalCelebration2
        | PlayerField::AttackingProwess
        | PlayerField::DefensiveProwess
        | PlayerField::Goalkeeping
        | PlayerField::Dribbling
        | PlayerField::FreeKickMotion
        | PlayerField::Finishing
        | PlayerField::LowPass
        | PlayerField::LoftedPass
        | PlayerField::Heading
        | PlayerField::Form
        | PlayerField::EditedPlayer
        | PlayerField::Swerve
        | PlayerField::Catching
        | PlayerField::Clearing
        | PlayerField::Reflexes
        | PlayerField::InjuryResistance
        | PlayerField::EditedBasicSettings
        | PlayerField::BodyControl
        | PlayerField::PhysicalContact
        | PlayerField::KickingPower
        | PlayerField::ExplosivePower
        | PlayerField::ArmMovementDribbling
        | PlayerField::EditedRegisteredPosition
        | PlayerField::Age
        | PlayerField::RegisteredPosition
        | PlayerField::PlayingStyle
        | PlayerField::BallControl
        | PlayerField::BallWinning
        | PlayerField::WeakFootAccuracy
        | PlayerField::Jump
        | PlayerField::ArmMovementRunning
        | PlayerField::CornerKickMotion
        | PlayerField::Coverage
        | PlayerField::WeakFootUsage
        | PlayerField::PlayablePosition(_)
        | PlayerField::HunchingDribbling
        | PlayerField::HunchingRunning
        | PlayerField::PenaltyKickMotion
        | PlayerField::PlaceKicking
        | PlayerField::EditedPlayablePositions
        | PlayerField::EditedAbilities
        | PlayerField::EditedSkills
        | PlayerField::Stamina
        | PlayerField::Speed
        | PlayerField::EditedPlayingStyle
        | PlayerField::EditedComStyles
        | PlayerField::EditedMotion
        | PlayerField::BaseCopy
        | PlayerField::StrongerFoot
        | PlayerField::ComStyle(_)
        | PlayerField::Skill(_)
        | PlayerField::Star
        | PlayerField::DribblingMotion
        | PlayerField::TightPossession
        | PlayerField::Aggression
        | PlayerField::PlayingAttitude
        | PlayerField::StrongerHand => DiffScope::Gameplay,
    }
}

/// The scope of a diff row.
pub open spec fn diff_scope(d: PlayerDiff) -> DiffScope {
    match d {
        PlayerDiff::Field { field, .. } => field_scope(field),
        PlayerDiff::Text { .. } => DiffScope::Gameplay,
        PlayerDiff::Face { .. } | PlayerDiff::FaceRun { .. } => DiffScope::Aesthetics,
    }
}

impl PlayerDiff {
    /// Aesthetics is what `transplant_player` moves: the appearance-block
    /// fields (the four appearance edit flags, boots/gloves/base-copy IDs,
    /// physique, strip), every `Face` and `FaceRun` row. Everything else
    /// (motion and the other edit flags included) is gameplay.
    pub fn scope(&self) -> (s: DiffScope)
        ensures
            s == diff_scope(*self),
    {
        let field = match self {
            PlayerDiff::Field { field, .. } => *field,
            PlayerDiff::Text { .. } => return DiffScope::Gameplay,
            PlayerDiff::Face { .. } | PlayerDiff::FaceRun { .. } => {
                return DiffScope::Aesthetics;
            }
        };
        match field {
            PlayerField::EditedFace
            | PlayerField::EditedHair
            | PlayerField::EditedPhysique
            | PlayerField::EditedStrip
            | PlayerField::BootsId
            | PlayerField::GlovesId
            | PlayerField::BaseCopyId
            | PlayerField::NeckLength
            | PlayerField::NeckSize
            | PlayerField::ShoulderHeight
            | PlayerField::ShoulderWidth
            | PlayerField::Chest
            | PlayerField::Waist
            | PlayerField::ArmSize
            | PlayerField::ArmLength
            | PlayerField::Thigh
            | PlayerField::Calf
            | PlayerField::LegLength
            | PlayerField::HeadLength
            | PlayerField::HeadWidth
            | PlayerField::HeadDepth
            | PlayerField::WristTapeColorLeft
            | PlayerField::WristTapeColorRight
            | PlayerField::WristTaping
            | PlayerField::SpectaclesColor
            | PlayerField::SpectaclesStyle
            | PlayerField::Sleeves
            | PlayerField::Inners
            | PlayerField::Socks
            | PlayerField::Undershorts
            | PlayerField::Untucked
            | PlayerField::AnkleTaping
            | PlayerField::PlayerGloves
            | PlayerField::PlayerGlovesColor
            | PlayerField::SkinColor
            | PlayerField::IrisColor => DiffScope::Aesthetics,
            PlayerField::Id
            | PlayerField::Nationality
            | PlayerField::Height
            | PlayerField::Weight
            | PlayerField::GoalCelebration1
            | PlayerField::GoalCelebration2
            | PlayerField::AttackingProwess
            | PlayerField::DefensiveProwess
            | PlayerField::Goalkeeping
            | PlayerField::Dribbling
            | PlayerField::FreeKickMotion
            | PlayerField::Finishing
            | PlayerField::LowPass
            | PlayerField::LoftedPass
            | PlayerField::Heading
            | PlayerField::Form
            | PlayerField::EditedPlayer
            | PlayerField::Swerve
            | PlayerField::Catching
            | PlayerField::Clearing
            | PlayerField::Reflexes
            | PlayerField::InjuryResistance
            | PlayerField::EditedBasicSettings
            | PlayerField::BodyControl
            | PlayerField::PhysicalContact
            | PlayerField::KickingPower
            | PlayerField::ExplosivePower
            | PlayerField::ArmMovementDribbling
            | PlayerField::EditedRegisteredPosition
            | PlayerField::Age
            | PlayerField::RegisteredPosition
            | PlayerField::PlayingStyle
            | PlayerField::BallControl
            | PlayerField::BallWinning
            | PlayerField::WeakFootAccuracy
            | PlayerField::Jump
            | PlayerField::ArmMovementRunning
            | PlayerField::CornerKickMotion
            | PlayerField::Coverage
            | PlayerField::WeakFootUsage
            | PlayerField::PlayablePosition(_)
            | PlayerField::HunchingDribbling
            | PlayerField::HunchingRunning
            | PlayerField::PenaltyKickMotion
            | PlayerField::PlaceKicking
            | PlayerField::EditedPlayablePositions
            | PlayerField::EditedAbilities
            | PlayerField::EditedSkills
            | PlayerField::Stamina
            | PlayerField::Speed
            | PlayerField::EditedPlayingStyle
            | PlayerField::EditedComStyles
            | PlayerField::EditedMotion
            | PlayerField::BaseCopy
            | PlayerField::StrongerFoot
            | PlayerField::ComStyle(_)
            | PlayerField::Skill(_)
            | PlayerField::Star
            | PlayerField::DribblingMotion
            | PlayerField::TightPossession
            | PlayerField::Aggression
            | PlayerField::PlayingAttitude
            | PlayerField::StrongerHand => DiffScope::Gameplay,
        }
    }
}

/// Some run of `runs` carries `field`.
pub open spec fn runs_have(runs: Seq<Run<PlayerField>>, field: PlayerField) -> bool {
    exists|k: int| 0 <= k < runs.len() && (#[trigger] runs[k]).0 == field
}

/// The `Field` rows of `runs` whose field `seen` does not carry, in run
/// order: one per run whose values differ between `a` and `b`.
pub open spec fn field_rows(
    a: PlayerEntry,
    b: PlayerEntry,
    runs: Seq<Run<PlayerField>>,
    seen: Seq<Run<PlayerField>>,
) -> Seq<PlayerDiff>
    decreases runs.len(),
{
    if runs.len() == 0 {
        Seq::empty()
    } else {
        let prev = field_rows(a, b, runs.drop_last(), seen);
        let f = runs.last().0;
        if runs_have(seen, f) {
            prev
        } else {
            match (player_field_value(a, f), player_field_value(b, f)) {
                (Some(x), Some(y)) => if x != y {
                    prev.push(PlayerDiff::Field { field: f, old: x, new: y })
                } else {
                    prev
                },
                _ => prev,
            }
        }
    }
}

/// Every run of `runs` whose field `seen` does not carry has a value on both
/// sides.
pub open spec fn rows_readable(
    a: PlayerEntry,
    b: PlayerEntry,
    runs: Seq<Run<PlayerField>>,
    seen: Seq<Run<PlayerField>>,
) -> bool {
    forall|k: int|
        0 <= k < runs.len() && !runs_have(seen, (#[trigger] runs[k]).0) ==> player_field_value(a, runs[k].0) is Some
            && player_field_value(b, runs[k].0) is Some
}

/// The `Text` rows: the name, then the shirt name, where they differ.
pub open spec fn text_rows(a: PlayerEntry, b: PlayerEntry) -> Seq<PlayerDiff> {
    let name: Seq<PlayerDiff> = if a.name@ != b.name@ {
        seq![PlayerDiff::Text { text: PlayerText::Name, old: a.name, new: b.name }]
    } else {
        Seq::empty()
    };
    let shirt: Seq<PlayerDiff> = if a.shirt_name@ != b.shirt_name@ {
        seq![PlayerDiff::Text { text: PlayerText::ShirtName, old: a.shirt_name, new: b.shirt_name }]
    } else {
        Seq::empty()
    };
    name + shirt
}

/// The value an ingame-face field holds in a run.
pub open spec fn face_value(face: Seq<u8>, field: IngameFaceField) -> u8 {
    run_value(face, face_field_spec(field).bit_offset as int, face_field_spec(field).bit_width) as u8
}

/// The `Face` row of `field` when the two runs hold different values in it.
pub open spec fn face_row(a: Seq<u8>, b: Seq<u8>, field: IngameFaceField) -> Seq<PlayerDiff> {
    if face_value(a, field) != face_value(b, field) {
        seq![PlayerDiff::Face { field, old: face_value(a, field), new: face_value(b, field) }]
    } else {
        Seq::empty()
    }
}

/// The ingame-face rows: each known field that differs, in field order, then
/// one `FaceRun` row with the two fingerprints when the bits no field names
/// differ.
pub open spec fn face_rows(a: PlayerEntry, b: PlayerEntry) -> Seq<PlayerDiff> {
    let fa = a.appearance.ingame_face@;
    let fb = b.appearance.ingame_face@;
    let rest: Seq<PlayerDiff> = if masked_spec(fa, IngameFaceField::ALL@) != masked_spec(fb, IngameFaceField::ALL@) {
        seq![PlayerDiff::FaceRun { old: face_hash_of(fa), new: face_hash_of(fb) }]
    } else {
        Seq::empty()
    };
    face_row(fa, fb, IngameFaceField::PlayerGloves) + face_row(fa, fb, IngameFaceField::PlayerGlovesColor)
        + face_row(fa, fb, IngameFaceField::SkinColor) + rest
}

/// Every difference between `a` and `b` under `s`: the player record's
/// fields, the appearance record's fields the player record does not repeat,
/// the texts, then the ingame-face rows.
pub open spec fn player_diff_rows(a: PlayerEntry, b: PlayerEntry, s: VersionSchema) -> Seq<PlayerDiff> {
    let own = field_rows(a, b, schema_runs(s.player), Seq::empty());
    let app = match s.appearance {
        Some((_, ap)) => field_rows(a, b, schema_runs(ap), schema_runs(s.player)),
        None => Seq::empty(),
    };
    own + app + text_rows(a, b) + face_rows(a, b)
}

/// The two ingame-face runs have one length and are not empty: both players
/// were read from records of one layout.
pub open spec fn faces_comparable(a: PlayerEntry, b: PlayerEntry) -> bool {
    &&& a.appearance.ingame_face@.len() == b.appearance.ingame_face@.len()
    &&& a.appearance.ingame_face@.len() > 0
}

/// A run of `len` bytes reaches every known ingame-face field.
pub open spec fn face_fields_covered(len: nat) -> bool {
    &&& face_covers(len, IngameFaceField::PlayerGloves)
    &&& face_covers(len, IngameFaceField::PlayerGlovesColor)
    &&& face_covers(len, IngameFaceField::SkinColor)
}

/// Every field `s` stores has a value on both sides, and both ingame-face
/// runs have one length and reach every known ingame-face field.
pub open spec fn players_comparable(a: PlayerEntry, b: PlayerEntry, s: VersionSchema) -> bool {
    &&& faces_comparable(a, b)
    &&& rows_readable(a, b, schema_runs(s.player), Seq::empty())
    &&& match s.appearance {
        Some((_, ap)) => rows_readable(a, b, schema_runs(ap), schema_runs(s.player)),
        None => true,
    }
    &&& face_fields_covered(a.appearance.ingame_face@.len())
}

/// Appends the `Face` row of `field` when the two runs hold different
/// values in it.
fn push_face_row(fa: &IngameFace, fb: &IngameFace, field: IngameFaceField, diffs: &mut Vec<PlayerDiff>) -> (r: Result<
    (),
    CodecError,
>)
    requires
        fa@.len() == fb@.len(),
    ensures
        face_covers(fa@.len(), field) ==> r is Ok && final(diffs)@ == old(diffs)@ + face_row(fa@, fb@, field),
        !face_covers(fa@.len(), field) ==> (r matches Err(e) && e is NoIngameFaceRun),
{
    let old_value = match fa.get(field) {
        Ok(v) => v,
        Err(e) => {
            return Err(e);
        },
    };
    let new_value = match fb.get(field) {
        Ok(v) => v,
        Err(e) => {
            return Err(e);
        },
    };
    if old_value != new_value {
        diffs.push(PlayerDiff::Face { field, old: old_value, new: new_value });
        assert(diffs@ =~= old(diffs)@ + face_row(fa@, fb@, field));
    } else {
        assert(diffs@ =~= old(diffs)@ + face_row(fa@, fb@, field));
    }
    Ok(())
}

/// Appends the ingame-face rows of two runs of one length.
fn face_diffs(a: &PlayerEntry, b: &PlayerEntry, diffs: &mut Vec<PlayerDiff>) -> (r: Result<(), CodecError>)
    requires
        faces_comparable(*a, *b),
    ensures
        r is Ok <==> face_fields_covered(a.appearance.ingame_face@.len()),
        r is Ok ==> final(diffs)@ == old(diffs)@ + face_rows(*a, *b),
        r matches Err(e) ==> e is NoIngameFaceRun,
{
    let fa = &a.appearance.ingame_face;
    let fb = &b.appearance.ingame_face;
    match push_face_row(fa, fb, IngameFaceField::PlayerGloves, diffs) {
        Ok(()) => {},
        Err(e) => {
            return Err(e);
        },
    }
    match push_face_row(fa, fb, IngameFaceField::PlayerGlovesColor, diffs) {
        Ok(()) => {},
        Err(e) => {
            return Err(e);
        },
    }
    match push_face_row(fa, fb, IngameFaceField::SkinColor, diffs) {
        Ok(()) => {},
        Err(e) => {
            return Err(e);
        },
    }
    let ua = fa.undecoded();
    let ub = fb.undecoded();
    if !same_bytes(ua.as_slice(), ub.as_slice()) {
        diffs.push(PlayerDiff::FaceRun { old: face_hash(fa), new: face_hash(fb) });
    }
    assert(diffs@ =~= old(diffs)@ + face_rows(*a, *b));
    Ok(())
}

/// Whether two byte strings are equal.
fn same_bytes(x: &[u8], y: &[u8]) -> (b: bool)
    ensures
        b == (x@ == y@),
{
    if x.len() != y.len() {
        return false;
    }
    let mut i: usize = 0;
    while i < x.len()
        invariant
            i <= x@.len(),
            x@.len() == y@.len(),
            forall|j: int| 0 <= j < i ==> x@[j] == y@[j],
        decreases x@.len() - i,
    {
        if x[i] != y[i] {
            return false;
        }
        i = i + 1;
    }
    assert(x@ =~= y@);
    true
}

/// Whether some run of `runs` carries `field`.
pub(crate) fn runs_contain(runs: &Vec<Run<PlayerField>>, field: PlayerField) -> (b: bool)
    ensures
        b == runs_have(runs@, field),
{
    let mut k: usize = 0;
    while k < runs.len()
        invariant
            k <= runs@.len(),
            forall|j: int| 0 <= j < k ==> (#[trigger] runs@[j]).0 != field,
        decreases runs@.len() - k,
    {
        if runs[k].0 == field {
            return true;
        }
        k = k + 1;
    }
    false
}

/// Appends the `Field` rows of `runs` whose field `seen` does not carry; an
/// unreadable field fails the whole walk.
fn record_diffs(
    a: &PlayerEntry,
    b: &PlayerEntry,
    runs: &Vec<Run<PlayerField>>,
    seen: &Vec<Run<PlayerField>>,
    diffs: &mut Vec<PlayerDiff>,
) -> (r: Result<(), CodecError>)
    ensures
        r is Ok <==> rows_readable(*a, *b, runs@, seen@),
        r is Ok ==> final(diffs)@ == old(diffs)@ + field_rows(*a, *b, runs@, seen@),
        r matches Err(e) ==> e is Missing || e is Index,
{
    let mut k: usize = 0;
    while k < runs.len()
        invariant
            k <= runs@.len(),
            diffs@ == old(diffs)@ + field_rows(*a, *b, runs@.take(k as int), seen@),
            rows_readable(*a, *b, runs@.take(k as int), seen@),
        decreases runs@.len() - k,
    {
        let field = runs[k].0;
        proof {
            assert(runs@.take(k + 1).drop_last() =~= runs@.take(k as int));
            assert(runs@.take(k + 1).last() == runs@[k as int]);
        }
        if !runs_contain(seen, field) {
            let old_value = match a.get(field) {
                Ok(v) => v,
                Err(e) => {
                    proof {
                        assert(!rows_readable(*a, *b, runs@, seen@)) by {
                            assert(runs@[k as int].0 == field);
                        }
                    }
                    return Err(e);
                },
            };
            let new_value = match b.get(field) {
                Ok(v) => v,
                Err(e) => {
                    proof {
                        assert(!rows_readable(*a, *b, runs@, seen@)) by {
                            assert(runs@[k as int].0 == field);
                        }
                    }
                    return Err(e);
                },
            };
            if old_value != new_value {
                diffs.push(PlayerDiff::Field { field, old: old_value, new: new_value });
            }
        }
        proof {
            assert forall|j: int|
                0 <= j < k + 1 && !runs_have(seen@, (#[trigger] runs@.take(k + 1)[j]).0) implies player_field_value(
                *a,
                runs@.take(k + 1)[j].0,
            ) is Some && player_field_value(*b, runs@.take(k + 1)[j].0) is Some by {
                if j < k {
                    assert(runs@.take(k + 1)[j] == runs@.take(k as int)[j]);
                }
            }
        }
        k = k + 1;
    }
    proof {
        assert(runs@.take(k as int) =~= runs@);
    }
    Ok(())
}

/// Every difference between two players of the same version: the schema's
/// stored fields (the player record's, plus the appearance record's where
/// the version keeps one) through the model, the two texts, the known
/// ingame-face bits, and the run's undecoded bits as one row. `Err` when the
/// two ingame-face runs differ in length or are empty (an entry never read
/// from a record), when a gated field the schema stores is `None` on either
/// side (an entry not read from a save of this version), or when the run does
/// not reach a known ingame-face field.
pub fn compare_players(a: &PlayerEntry, b: &PlayerEntry, schema: &VersionSchema) -> (r: Result<
    Vec<PlayerDiff>,
    CodecError,
>)
    requires
        arrays_fit(schema.player.arrays@),
        match schema.appearance {
            Some((_, ap)) => arrays_fit(ap.arrays@),
            None => true,
        },
    ensures
        r is Ok <==> players_comparable(*a, *b, *schema),
        r matches Ok(v) ==> v@ == player_diff_rows(*a, *b, *schema),
        !faces_comparable(*a, *b) ==> (r matches Err(CodecError::NoIngameFaceRun { field }) && field@
            == "ingame_face"@),
        r matches Err(e) ==> e is Missing || e is Index || e is NoIngameFaceRun,
{
    let fa = &a.appearance.ingame_face;
    let fb = &b.appearance.ingame_face;
    if fa.bytes().len() != fb.bytes().len() || fa.bytes().len() == 0 {
        return Err(CodecError::NoIngameFaceRun { field: "ingame_face".to_string() });
    }
    let mut diffs: Vec<PlayerDiff> = Vec::new();
    let own = runs(&schema.player);
    let none: Vec<Run<PlayerField>> = Vec::new();
    match record_diffs(a, b, &own, &none, &mut diffs) {
        Ok(()) => {},
        Err(e) => {
            return Err(e);
        },
    }
    match &schema.appearance {
        Some((_, appearance)) => {
            let app = runs(appearance);
            match record_diffs(a, b, &app, &own, &mut diffs) {
                Ok(()) => {},
                Err(e) => {
                    return Err(e);
                },
            }
        },
        None => {},
    }
    let ghost fields = diffs@;
    if a.name != b.name {
        diffs.push(PlayerDiff::Text { text: PlayerText::Name, old: a.name.clone(), new: b.name.clone() });
    }
    if a.shirt_name != b.shirt_name {
        diffs.push(
            PlayerDiff::Text { text: PlayerText::ShirtName, old: a.shirt_name.clone(), new: b.shirt_name.clone() },
        );
    }
    proof {
        assert(diffs@ =~= fields + text_rows(*a, *b));
        assert(own@ == schema_runs(schema.player));
    }
    match face_diffs(a, b, &mut diffs) {
        Ok(()) => {},
        Err(e) => {
            return Err(e);
        },
    }
    Ok(diffs)
}

/// The player-level diff of two saves, players paired by id (a reshuffle
/// of the roster is not reported as edits).
#[derive(Debug, Default)]
pub struct SaveDiff {
    /// Players in both saves with at least one difference, in `a`'s record
    /// order.
    pub players: Vec<(u32, Vec<PlayerDiff>)>,
    /// Ids `a` has and `b` lacks, in `a`'s record order.
    pub only_in_a: Vec<u32>,
    /// Ids `b` has and `a` lacks, in `b`'s record order.
    pub only_in_b: Vec<u32>,
}

/// Each paired player's id with its rows as a sequence.
pub open spec fn rows_view(v: Seq<(u32, Vec<PlayerDiff>)>) -> Seq<(u32, Seq<PlayerDiff>)> {
    v.map_values(|x: (u32, Vec<PlayerDiff>)| (x.0, x.1@))
}

impl View for SaveDiff {
    type V = (Seq<(u32, Seq<PlayerDiff>)>, Seq<u32>, Seq<u32>);

    open spec fn view(&self) -> Self::V {
        (rows_view(self.players@), self.only_in_a@, self.only_in_b@)
    }
}

/// A save-level compare that could not run.
#[derive(Debug, Clone, PartialEq, Eq)]
pub enum CompareError {
    /// The two saves are not of the same game version.
    VersionMismatch {
        /// `a`'s version.
        a: PesVersion,
        /// `b`'s version.
        b: PesVersion,
    },
    /// A field the schema stores had no value on one side.
    Codec(CodecError),
}

/// The rows of `a[0..n]` paired by id with `b`: each player `b` also holds
/// (its first player of that id) and differs from, as (id, rows).
pub open spec fn paired_rows(a: Seq<PlayerEntry>, b: Seq<PlayerEntry>, s: VersionSchema, n: nat) -> Seq<
    (u32, Seq<PlayerDiff>),
>
    decreases n,
{
    if n == 0 {
        Seq::empty()
    } else {
        let prev = paired_rows(a, b, s, (n - 1) as nat);
        let p = a[n - 1];
        match first_player_with_id(b, p.id) {
            Some(j) => {
                let rows = player_diff_rows(p, b[j], s);
                if rows.len() > 0 {
                    prev.push((p.id, rows))
                } else {
                    prev
                }
            },
            None => prev,
        }
    }
}

/// The ids of `a[0..n]` no player of `b` carries, in `a`'s order.
pub open spec fn unpaired_ids(a: Seq<PlayerEntry>, b: Seq<PlayerEntry>, n: nat) -> Seq<u32>
    decreases n,
{
    if n == 0 {
        Seq::empty()
    } else {
        let prev = unpaired_ids(a, b, (n - 1) as nat);
        if first_player_with_id(b, a[n - 1].id) is None {
            prev.push(a[n - 1].id)
        } else {
            prev
        }
    }
}

/// Every player of `a[0..n]` that `b` also holds can be compared with it.
pub open spec fn pairs_comparable(a: Seq<PlayerEntry>, b: Seq<PlayerEntry>, s: VersionSchema, n: nat) -> bool {
    forall|i: int|
        0 <= i < n ==> match first_player_with_id(b, (#[trigger] a[i]).id) {
            Some(j) => players_comparable(a[i], b[j], s),
            None => true,
        }
}

/// Two saves, players paired by id: `b`'s first player of an id is the one
/// compared, under `a`'s layout.
pub fn compare(a: &EditFile, b: &EditFile) -> (r: Result<SaveDiff, CompareError>)
    requires
        version_schema_wf(a@.1),
    ensures
        view_version(a@.0) != view_version(b@.0) ==> r == Err::<SaveDiff, CompareError>(
            CompareError::VersionMismatch { a: view_version(a@.0), b: view_version(b@.0) },
        ),
        view_version(a@.0) == view_version(b@.0) ==> (r is Ok <==> pairs_comparable(
            a@.2,
            b@.2,
            a@.1,
            a@.2.len(),
        )),
        r matches Ok(d) ==> d@ == (
            paired_rows(a@.2, b@.2, a@.1, a@.2.len()),
            unpaired_ids(a@.2, b@.2, a@.2.len()),
            unpaired_ids(b@.2, a@.2, b@.2.len()),
        ),
        r matches Err(CompareError::Codec(e)) ==> e is Missing || e is Index || e is NoIngameFaceRun,
{
    let va = a.version();
    let vb = b.version();
    if va != vb {
        return Err(CompareError::VersionMismatch { a: va, b: vb });
    }
    let schema = a.schema();
    let pa = a.players();
    let pb = b.players();
    let mut players: Vec<(u32, Vec<PlayerDiff>)> = Vec::new();
    let mut only_in_a: Vec<u32> = Vec::new();
    let mut i: usize = 0;
    while i < pa.len()
        invariant
            i <= pa@.len(),
            pa@ == a@.2,
            pb@ == b@.2,
            *schema == a@.1,
            view_version(a@.0) == view_version(b@.0),
            version_schema_wf(*schema),
            rows_view(players@) == paired_rows(pa@, pb@, *schema, i as nat),
            only_in_a@ == unpaired_ids(pa@, pb@, i as nat),
            pairs_comparable(pa@, pb@, *schema, i as nat),
        decreases pa@.len() - i,
    {
        let p = &pa[i];
        match position_of_player(pb, p.id) {
            Some(j) => {
                match compare_players(p, &pb[j], schema) {
                    Ok(rows) => {
                        if rows.len() > 0 {
                            let ghost before = players@;
                            players.push((p.id, rows));
                            proof {
                                assert(rows_view(players@) =~= rows_view(before).push((p.id, rows@)));
                            }
                        }
                    },
                    Err(e) => {
                        proof {
                            assert(!pairs_comparable(pa@, pb@, *schema, pa@.len())) by {
                                assert(pa@[i as int] == *p);
                            }
                        }
                        return Err(CompareError::Codec(e));
                    },
                }
            },
            None => {
                only_in_a.push(p.id);
            },
        }
        proof {
            assert forall|k: int| 0 <= k < i + 1 implies match first_player_with_id(pb@, (#[trigger] pa@[k]).id) {
                Some(j) => players_comparable(pa@[k], pb@[j], *schema),
                None => true,
            } by {
                if k < i {
                    assert(pa@[k] == pa@[k]);
                }
            }
        }
        i = i + 1;
    }
    let mut only_in_b: Vec<u32> = Vec::new();
    let mut k: usize = 0;
    while k < pb.len()
        invariant
            k <= pb@.len(),
            pa@ == a@.2,
            pb@ == b@.2,
            only_in_b@ == unpaired_ids(pb@, pa@, k as nat),
        decreases pb@.len() - k,
    {
        if position_of_player(pa, pb[k].id).is_none() {
            only_in_b.push(pb[k].id);
        }
        k = k + 1;
    }
    Ok(SaveDiff { players, only_in_a, only_in_b })
}

/// A player walked against itself gives no `Field` rows.
proof fn lemma_no_field_rows_against_itself(p: PlayerEntry, runs: Seq<Run<PlayerField>>, seen: Seq<Run<PlayerField>>)
    ensures
        field_rows(p, p, runs, seen) == Seq::<PlayerDiff>::empty(),
    decreases runs.len(),
{
    if runs.len() > 0 {
        lemma_no_field_rows_against_itself(p, runs.drop_last(), seen);
    }
}

/// A player equals its own copy: comparing a player with itself gives no
/// rows, whatever the layout.
pub proof fn law_a_player_equals_its_own_copy(p: PlayerEntry, s: VersionSchema)
    ensures
        player_diff_rows(p, p, s) == Seq::<PlayerDiff>::empty(),
{
    lemma_no_field_rows_against_itself(p, schema_runs(s.player), Seq::empty());
    assert(face_rows(p, p) =~= Seq::<PlayerDiff>::empty());
    match s.appearance {
        Some((_, ap)) => lemma_no_field_rows_against_itself(p, schema_runs(ap), schema_runs(s.player)),
        None => {},
    }
    assert(player_diff_rows(p, p, s) =~= Seq::<PlayerDiff>::empty());
}

/// A save compared with itself leaves no id unpaired on either side, and,
/// where no two players share an id, reports no player.
pub proof fn law_a_save_equals_itself(players: Seq<PlayerEntry>, s: VersionSchema, n: nat)
    requires
        n <= players.len(),
    ensures
        unpaired_ids(players, players, n) == Seq::<u32>::empty(),
        (forall|i: int, j: int|
            0 <= i < j < players.len() ==> (#[trigger] players[i]).id != (#[trigger] players[j]).id)
            ==> paired_rows(players, players, s, n) == Seq::<(u32, Seq<PlayerDiff>)>::empty(),
    decreases n,
{
    if n > 0 {
        law_a_save_equals_itself(players, s, (n - 1) as nat);
        let p = players[n - 1];
        lemma_first_player_facts(players, p.id, 0);
        assert(first_player_with_id(players, p.id) is Some);
        if forall|i: int, j: int|
            0 <= i < j < players.len() ==> (#[trigger] players[i]).id != (#[trigger] players[j]).id {
            let j = first_player_with_id(players, p.id)->Some_0;
            assert(j == n - 1);
            law_a_player_equals_its_own_copy(p, s);
        }
    }
}

/// Aesthetics is exactly what a transplant moves: after one, every field of
/// aesthetics scope holds the donor's value and every gameplay field the
/// target's own.
pub proof fn law_aesthetics_is_what_transplant_moves(
    target: PlayerEntry,
    donor: PlayerEntry,
    after: PlayerEntry,
    field: PlayerField,
)
    requires
        transplanted(target, donor, after),
    ensures
        field_scope(field) == DiffScope::Aesthetics ==> player_field_value(after, field) == player_field_value(
            donor,
            field,
        ),
        field_scope(field) == DiffScope::Gameplay ==> player_field_value(after, field) == player_field_value(
            target,
            field,
        ),
{
}

} // verus!
