//! FPC presets on a player: `apply` writes one preset's appearance,
//! `strip_style` reads the strip settings an FPC check reasons over,
//! `is_fpc_player` is the 4cc convention's hidden-player test.
use vstd::prelude::*;

use crate::codec::bits::{fits, is_patched, law_read_after_write, lemma_run_value_facts, pow2_32, run_value};
use crate::codec::{CodecError, FieldName};
use crate::model::ingame_face::{face_covers, face_field_spec, IngameFaceField};
use crate::model::player::{PlayerAppearance, PlayerEntry};
use crate::version::PesVersion;

verus! {

/// Whether the skin is one of the game's presets or the custom skin (7).
#[derive(Debug, Clone, Copy, PartialEq, Eq, Structural)]
pub enum SkinColor {
    /// One of the preset skins.
    Preset,
    /// The custom skin, stored as 7.
    Custom,
}

/// The strip settings that decide whether a hiding preset interferes.
#[derive(Debug, Clone, Copy, PartialEq, Eq, Structural)]
pub struct StripStyle {
    /// Inners are worn.
    pub inners_worn: bool,
    /// Undershorts are worn.
    pub undershorts_worn: bool,
    /// Wrist taping is on.
    pub wrist_taping: bool,
    /// Ankle taping is on.
    pub ankle_taping: bool,
    /// The player-gloves checkbox.
    pub gloves_checkbox: bool,
    /// The gloves model id.
    pub gloves_id: u16,
    /// Preset or custom skin.
    pub skin_color: SkinColor,
}

/// Sleeve length.
#[derive(Debug, Clone, Copy, PartialEq, Eq, Structural)]
pub enum Sleeves {
    /// Short sleeves, stored as 1.
    Short,
    /// Long sleeves, stored as 2.
    Long,
}

/// Whether the shirt is tucked in.
#[derive(Debug, Clone, Copy, PartialEq, Eq, Structural)]
pub enum Tuck {
    /// Tucked in.
    Tucked,
    /// Shirttail out.
    Untucked,
}

/// Sock length.
#[derive(Debug, Clone, Copy, PartialEq, Eq, Structural)]
pub enum Socks {
    /// Standard socks, stored as 0.
    Standard,
    /// Long socks, stored as 1.
    Long,
    /// Short socks, stored as 2.
    Short,
}

/// One FPC preset's appearance: what `apply` writes.
#[derive(Debug, Clone, Copy, PartialEq, Eq, Structural)]
pub struct Appearance {
    /// Sleeve length.
    pub sleeves: Sleeves,
    /// Tuck.
    pub tuck: Tuck,
    /// Sock length.
    pub socks: Socks,
    /// Boots model id.
    pub boots_id: u16,
    /// Gloves model id.
    pub gloves_id: u16,
    /// Preset or custom skin.
    pub skin_color: SkinColor,
}

/// An FPC preset could not be applied or read back.
#[derive(Debug, Clone, PartialEq, Eq)]
pub enum FpcError {
    /// The version has no Custom skin colour.
    CustomSkinUnavailable {
        /// The player's game version.
        version: PesVersion,
    },
    /// A codec read or write failed (a player never read from a record has no
    /// ingame-face run to read or write through).
    Codec(CodecError),
}

/// The skin the ingame-face run holds.
pub open spec fn face_skin(face: Seq<u8>) -> u32 {
    let s = face_field_spec(IngameFaceField::SkinColor);
    run_value(face, s.bit_offset as int, s.bit_width)
}

/// `after` is the run `before` with the skin set to `v`.
pub open spec fn skin_set(before: Seq<u8>, after: Seq<u8>, v: u32) -> bool {
    let s = face_field_spec(IngameFaceField::SkinColor);
    is_patched(before, after, s.bit_offset as int, s.bit_width, v)
}

/// `after` is `before` with `appearance` written: sleeves, tuck, socks,
/// boots and gloves ids, and the skin in the ingame-face run (7 for the
/// custom skin; a preset skin turns a skin of 7 into 1 and leaves any other
/// alone); everything else as it was.
pub open spec fn fpc_applied(before: PlayerEntry, appearance: Appearance, after: PlayerEntry) -> bool {
    &&& after == (PlayerEntry {
        appearance: PlayerAppearance {
            sleeves: match appearance.sleeves {
                Sleeves::Short => 1u8,
                Sleeves::Long => 2u8,
            },
            untucked: appearance.tuck == Tuck::Untucked,
            socks: match appearance.socks {
                Socks::Standard => 0u8,
                Socks::Long => 1u8,
                Socks::Short => 2u8,
            },
            boots_id: appearance.boots_id as u32,
            gloves_id: appearance.gloves_id as u32,
            ingame_face: after.appearance.ingame_face,
            ..before.appearance
        },
        ..before
    })
    &&& match appearance.skin_color {
        SkinColor::Custom => skin_set(before.appearance.ingame_face@, after.appearance.ingame_face@, 7),
        SkinColor::Preset => if face_skin(before.appearance.ingame_face@) == 7 {
            skin_set(before.appearance.ingame_face@, after.appearance.ingame_face@, 1)
        } else {
            after.appearance.ingame_face@ == before.appearance.ingame_face@
        },
    }
}

/// The run of `len` bytes reaches the skin.
pub open spec fn covers_skin(len: nat) -> bool {
    face_covers(len, IngameFaceField::SkinColor)
}

/// `e` is the error for a run that does not reach `field`.
pub open spec fn no_run_for(e: FpcError, field: IngameFaceField) -> bool {
    e matches FpcError::Codec(CodecError::NoIngameFaceRun { field: text }) && text@ == field.spec_name()
}

/// The skin values of the run fit its three bits.
pub(crate) proof fn lemma_skin_bits()
    ensures
        face_field_spec(IngameFaceField::SkinColor).bit_width == 3,
        pow2_32(3) == 8,
        fits(7, 3),
        fits(1, 3),
{
    assert((1u64 << 3u32) == 8) by (bit_vector);
}

/// Writes one preset's appearance, all or nothing: the custom-skin check
/// and the check that the player carries an ingame-face run reaching the
/// skin run before the first write. `custom_skin_available` says whether
/// `version` has a custom skin; `SkinColor::Custom` writes skin 7 where it
/// does and is `CustomSkinUnavailable` elsewhere; `SkinColor::Preset` resets
/// a skin of 7 to 1 (light) and leaves any other skin alone.
pub fn apply(
    player: &mut PlayerEntry,
    appearance: &Appearance,
    version: PesVersion,
    custom_skin_available: bool,
) -> (r: Result<(), FpcError>)
    ensures
        appearance.skin_color == SkinColor::Custom && !custom_skin_available ==> r == Err::<(), FpcError>(
            FpcError::CustomSkinUnavailable { version },
        ) && *final(player) == *old(player),
        !(appearance.skin_color == SkinColor::Custom && !custom_skin_available)
            && !covers_skin(old(player).appearance.ingame_face@.len()) ==> (r matches Err(e) && no_run_for(
            e,
            IngameFaceField::SkinColor,
        )) && *final(player) == *old(player),
        !(appearance.skin_color == SkinColor::Custom && !custom_skin_available)
            && covers_skin(old(player).appearance.ingame_face@.len()) ==> r is Ok && fpc_applied(
            *old(player),
            *appearance,
            *final(player),
        ),
{
    if appearance.skin_color == SkinColor::Custom && !custom_skin_available {
        return Err(FpcError::CustomSkinUnavailable { version });
    }
    let current = match player.appearance.ingame_face.get(IngameFaceField::SkinColor) {
        Ok(v) => v,
        Err(e) => {
            return Err(FpcError::Codec(e));
        },
    };
    proof {
        lemma_skin_bits();
        let sk = face_field_spec(IngameFaceField::SkinColor);
        lemma_run_value_facts(player.appearance.ingame_face@, sk.bit_offset as int, sk.bit_width);
    }
    let ghost start = *player;
    player.appearance.sleeves = match appearance.sleeves {
        Sleeves::Short => 1,
        Sleeves::Long => 2,
    };
    player.appearance.untucked = match appearance.tuck {
        Tuck::Tucked => false,
        Tuck::Untucked => true,
    };
    player.appearance.socks = match appearance.socks {
        Socks::Standard => 0,
        Socks::Long => 1,
        Socks::Short => 2,
    };
    player.appearance.boots_id = appearance.boots_id as u32;
    player.appearance.gloves_id = appearance.gloves_id as u32;
    assert(player.appearance.ingame_face == start.appearance.ingame_face);
    match appearance.skin_color {
        SkinColor::Custom => {
            match player.appearance.ingame_face.set(IngameFaceField::SkinColor, 7) {
                Ok(()) => {},
                Err(e) => {
                    return Err(FpcError::Codec(e));
                },
            }
        },
        SkinColor::Preset => {
            if current == 7 {
                match player.appearance.ingame_face.set(IngameFaceField::SkinColor, 1) {
                    Ok(()) => {},
                    Err(e) => {
                        return Err(FpcError::Codec(e));
                    },
                }
            }
        },
    }
    Ok(())
}

/// The player's strip settings as the interference inputs: the gloves
/// checkbox and the skin are read through the ingame-face run, the gloves
/// checkbox first; a gloves id past 16 bits is `ValueTooWide`.
pub fn strip_style(player: &PlayerEntry) -> (r: Result<StripStyle, FpcError>)
    ensures
        ({
            let a = player.appearance;
            let face = a.ingame_face@;
            let gl = face_field_spec(IngameFaceField::PlayerGloves);
            &&& !face_covers(face.len(), IngameFaceField::PlayerGloves) ==> (r matches Err(e) && no_run_for(
                e,
                IngameFaceField::PlayerGloves,
            ))
            &&& face_covers(face.len(), IngameFaceField::PlayerGloves) && a.gloves_id > u16::MAX ==> (r matches Err(
                FpcError::Codec(CodecError::ValueTooWide { value, width, .. }),
            ) && value == a.gloves_id && width == 16)
            &&& face_covers(face.len(), IngameFaceField::PlayerGloves) && a.gloves_id <= u16::MAX
                && !covers_skin(face.len()) ==> (r matches Err(e) && no_run_for(e, IngameFaceField::SkinColor))
            &&& face_covers(face.len(), IngameFaceField::PlayerGloves) && a.gloves_id <= u16::MAX
                && covers_skin(face.len()) ==> r == Ok::<StripStyle, FpcError>(
                StripStyle {
                    inners_worn: a.inners != 0,
                    undershorts_worn: a.undershorts != 0,
                    wrist_taping: a.wrist_taping != 0,
                    ankle_taping: a.ankle_taping,
                    gloves_checkbox: run_value(face, gl.bit_offset as int, gl.bit_width) != 0,
                    gloves_id: a.gloves_id as u16,
                    skin_color: if face_skin(face) == 7 {
                        SkinColor::Custom
                    } else {
                        SkinColor::Preset
                    },
                },
            )
        }),
{
    let a = &player.appearance;
    let gloves = match a.ingame_face.get(IngameFaceField::PlayerGloves) {
        Ok(v) => v,
        Err(e) => {
            return Err(FpcError::Codec(e));
        },
    };
    if a.gloves_id > 0xffff {
        return Err(
            FpcError::Codec(
                CodecError::ValueTooWide { field: "GlovesId".to_string(), value: a.gloves_id, width: 16 },
            ),
        );
    }
    let skin = match a.ingame_face.get(IngameFaceField::SkinColor) {
        Ok(v) => v,
        Err(e) => {
            return Err(FpcError::Codec(e));
        },
    };
    proof {
        lemma_skin_bits();
        let sk = face_field_spec(IngameFaceField::SkinColor);
        let gl = face_field_spec(IngameFaceField::PlayerGloves);
        lemma_run_value_facts(a.ingame_face@, sk.bit_offset as int, sk.bit_width);
        lemma_run_value_facts(a.ingame_face@, gl.bit_offset as int, gl.bit_width);
        assert((1u64 << 1u32) == 2) by (bit_vector);
    }
    Ok(
        StripStyle {
            inners_worn: a.inners != 0,
            undershorts_worn: a.undershorts != 0,
            wrist_taping: a.wrist_taping != 0,
            ankle_taping: a.ankle_taping,
            gloves_checkbox: gloves != 0,
            gloves_id: a.gloves_id as u16,
            skin_color: if skin == 7 {
                SkinColor::Custom
            } else {
                SkinColor::Preset
            },
        },
    )
}

/// The player shows the 4cc convention's marks: the nonexistent boots id, or
/// the custom skin in an ingame-face run that reaches the skin.
pub open spec fn shows_fpc(player: PlayerEntry, nonexistent_boots_id: u16) -> bool {
    ||| player.appearance.boots_id == nonexistent_boots_id as u32
    ||| covers_skin(player.appearance.ingame_face@.len()) && face_skin(player.appearance.ingame_face@) == 7
}

/// What the save shows, not what the team intends: the nonexistent boots id
/// of the 4cc convention (`nonexistent_boots_id`), or a custom skin. A hide
/// preset applied with a substituted (real) boots id is indistinguishable
/// from a dressed player by construction, so this is the save editor's
/// read-only classifier. The skin is read through the ingame-face run, and
/// only when the boots id does not already decide.
pub fn is_fpc_player(player: &PlayerEntry, nonexistent_boots_id: u16) -> (r: Result<bool, FpcError>)
    ensures
        player.appearance.boots_id == nonexistent_boots_id as u32
            || covers_skin(player.appearance.ingame_face@.len()) ==> r == Ok::<bool, FpcError>(
            shows_fpc(*player, nonexistent_boots_id),
        ),
        player.appearance.boots_id != nonexistent_boots_id as u32 && !covers_skin(
            player.appearance.ingame_face@.len(),
        ) ==> (r matches Err(e) && no_run_for(e, IngameFaceField::SkinColor)),
{
    if player.appearance.boots_id == nonexistent_boots_id as u32 {
        return Ok(true);
    }
    match player.appearance.ingame_face.get(IngameFaceField::SkinColor) {
        Ok(skin) => {
            proof {
                lemma_skin_bits();
                let sk = face_field_spec(IngameFaceField::SkinColor);
                lemma_run_value_facts(player.appearance.ingame_face@, sk.bit_offset as int, sk.bit_width);
            }
            Ok(skin == 7)
        },
        Err(e) => Err(FpcError::Codec(e)),
    }
}

/// A preset read back: after `apply` on a player whose ingame-face run
/// reaches the skin, the player shows the FPC marks exactly when the preset
/// writes the nonexistent boots id or the custom skin.
pub proof fn law_applied_preset_reads_back(
    before: PlayerEntry,
    appearance: Appearance,
    after: PlayerEntry,
    nonexistent_boots_id: u16,
)
    requires
        covers_skin(before.appearance.ingame_face@.len()),
        fpc_applied(before, appearance, after),
    ensures
        shows_fpc(after, nonexistent_boots_id) <==> (appearance.boots_id == nonexistent_boots_id
            || appearance.skin_color == SkinColor::Custom),
{
    lemma_skin_bits();
    let sk = face_field_spec(IngameFaceField::SkinColor);
    let f0 = before.appearance.ingame_face@;
    let f1 = after.appearance.ingame_face@;
    lemma_run_value_facts(f1, sk.bit_offset as int, sk.bit_width);
    match appearance.skin_color {
        SkinColor::Custom => {
            law_read_after_write(f0, f1, sk.bit_offset as int, sk.bit_width, 7, face_skin(f1));
        },
        SkinColor::Preset => {
            if face_skin(f0) == 7 {
                law_read_after_write(f0, f1, sk.bit_offset as int, sk.bit_width, 1, face_skin(f1));
            }
        },
    }
}

} // verus!
