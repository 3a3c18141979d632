use pes_savefile::codec::CodecError;
use pes_savefile::model::ingame_face::{IngameFace, IngameFaceField};
use pes_savefile::model::player::PlayerEntry;
use pes_savefile::ops::fpc::{
    apply, is_fpc_player, strip_style, Appearance, FpcError, SkinColor, Sleeves, Socks, Tuck,
};
use pes_savefile::version::PesVersion;

/// The 4cc convention's boots and gloves ids that name no model.
const NONEXISTENT_BOOTS_ID: u16 = 0x3fff;
const NONEXISTENT_GLOVES_ID: u16 = 0x3ff;

fn hide_preset() -> Appearance {
    Appearance {
        sleeves: Sleeves::Long,
        tuck: Tuck::Tucked,
        socks: Socks::Short,
        boots_id: NONEXISTENT_BOOTS_ID,
        gloves_id: NONEXISTENT_GLOVES_ID,
        skin_color: SkinColor::Preset,
    }
}

fn unhide_preset() -> Appearance {
    Appearance {
        sleeves: Sleeves::Short,
        tuck: Tuck::Untucked,
        socks: Socks::Standard,
        boots_id: 0,
        gloves_id: 0,
        skin_color: SkinColor::Preset,
    }
}

fn partial_hide_preset() -> Appearance {
    Appearance { skin_color: SkinColor::Custom, ..hide_preset() }
}

fn dressed_player() -> PlayerEntry {
    let mut p = PlayerEntry::default();
    p.id = 70101;
    p.appearance.sleeves = 1;
    p.appearance.untucked = true;
    p.appearance.boots_id = 55;
    p.appearance.gloves_id = 7;
    p.appearance.inners = 1;
    p.appearance.ingame_face = IngameFace::from_bytes(vec![0; 50]);
    p.appearance.ingame_face.set(IngameFaceField::SkinColor, 2).expect("set");
    p
}

fn skin(p: &PlayerEntry) -> u8 {
    p.appearance.ingame_face.get(IngameFaceField::SkinColor).expect("read run")
}

#[test]
fn the_hide_preset_writes_long_sleeves_and_the_nonexistent_ids() {
    let mut player = dressed_player();
    apply(&mut player, &hide_preset(), PesVersion::Pes19, false).expect("apply");
    assert_eq!(player.appearance.sleeves, 2);
    assert!(!player.appearance.untucked);
    assert_eq!(player.appearance.socks, 2);
    assert_eq!(player.appearance.boots_id, u32::from(NONEXISTENT_BOOTS_ID));
    assert_eq!(player.appearance.gloves_id, u32::from(NONEXISTENT_GLOVES_ID));
    assert!(is_fpc_player(&player, NONEXISTENT_BOOTS_ID).expect("is_fpc_player"));
}

#[test]
fn the_unhide_preset_restores_the_stock_strip() {
    let mut player = dressed_player();
    assert_ne!(skin(&player), 7, "the skin is not custom");
    apply(&mut player, &unhide_preset(), PesVersion::Pes19, false).expect("apply");
    assert_eq!(player.appearance.sleeves, 1);
    assert!(player.appearance.untucked);
    assert_eq!(player.appearance.socks, 0);
    assert_eq!(player.appearance.boots_id, 0);
    assert_eq!(player.appearance.gloves_id, 0);
    assert_eq!(skin(&player), 2);
    assert!(!is_fpc_player(&player, NONEXISTENT_BOOTS_ID).expect("is_fpc_player"));
}

#[test]
fn partial_hide_needs_a_version_with_custom_skin() {
    let mut player = dressed_player();
    let before = player.clone();
    match apply(&mut player, &partial_hide_preset(), PesVersion::Pes19, false) {
        Err(FpcError::CustomSkinUnavailable { version }) => assert_eq!(version, PesVersion::Pes19),
        other => panic!("expected CustomSkinUnavailable, got {other:?}"),
    }
    assert_eq!(player, before, "the refused preset wrote nothing");

    let mut player = dressed_player();
    apply(&mut player, &partial_hide_preset(), PesVersion::Pes16, true).expect("apply");
    assert_eq!(skin(&player), 7);
    assert!(is_fpc_player(&player, NONEXISTENT_BOOTS_ID).expect("is_fpc_player"));
}

#[test]
fn a_preset_skin_resets_a_custom_skin_to_light() {
    let mut player = dressed_player();
    player.appearance.ingame_face.set(IngameFaceField::SkinColor, 7).expect("set");
    apply(&mut player, &unhide_preset(), PesVersion::Pes16, true).expect("apply");
    assert_eq!(skin(&player), 1);
}

#[test]
fn strip_style_reads_the_booleans_and_the_skin_in_both_directions() {
    let mut player = dressed_player();
    player.appearance.undershorts = 0;
    player.appearance.wrist_taping = 0;
    player.appearance.ingame_face.set(IngameFaceField::SkinColor, 1).expect("set");
    let style = strip_style(&player).expect("strip_style");
    assert!(!style.undershorts_worn);
    assert!(!style.wrist_taping);
    assert_eq!(style.skin_color, SkinColor::Preset);

    player.appearance.undershorts = 2;
    player.appearance.wrist_taping = 3;
    player.appearance.ingame_face.set(IngameFaceField::SkinColor, 7).expect("set");
    let style = strip_style(&player).expect("strip_style");
    assert!(style.undershorts_worn);
    assert!(style.wrist_taping);
    assert_eq!(style.skin_color, SkinColor::Custom);
}

#[test]
fn a_gloves_id_past_sixteen_bits_is_too_wide_for_the_check() {
    let mut player = dressed_player();
    player.appearance.gloves_id = 0x1_0000;
    assert!(matches!(strip_style(&player), Err(FpcError::Codec(_))));
    player.appearance.gloves_id = 0xffff;
    assert_eq!(strip_style(&player).expect("fits").gloves_id, 0xffff);
}

#[test]
fn apply_touches_only_the_preset_fields() {
    let before = dressed_player();
    let mut player = before.clone();
    apply(&mut player, &hide_preset(), PesVersion::Pes19, false).expect("apply");
    let mut expected = before.clone();
    expected.appearance.sleeves = 2;
    expected.appearance.untucked = false;
    expected.appearance.socks = 2;
    expected.appearance.boots_id = u32::from(NONEXISTENT_BOOTS_ID);
    expected.appearance.gloves_id = u32::from(NONEXISTENT_GLOVES_ID);
    assert_eq!(player, expected);
}

#[test]
fn apply_on_an_entry_never_read_is_an_error_and_changes_nothing() {
    let mut player = PlayerEntry::default();
    match apply(&mut player, &hide_preset(), PesVersion::Pes19, false) {
        Err(FpcError::Codec(CodecError::NoIngameFaceRun { .. })) => {}
        other => panic!("expected Codec(NoIngameFaceRun), got {other:?}"),
    }
    assert_eq!(player, PlayerEntry::default());
}

#[test]
fn the_gloves_checkbox_and_the_skin_are_read_through_the_run() {
    let mut player = dressed_player();
    player.appearance.ingame_face.set(IngameFaceField::PlayerGloves, 1).expect("set");
    assert!(strip_style(&player).expect("strip_style").gloves_checkbox);
    player.appearance.ingame_face.set(IngameFaceField::PlayerGloves, 0).expect("set");
    assert!(!strip_style(&player).expect("strip_style").gloves_checkbox);

    let unread = PlayerEntry::default();
    match strip_style(&unread) {
        Err(FpcError::Codec(CodecError::NoIngameFaceRun { field })) => assert_eq!(field, "PlayerGloves"),
        other => panic!("expected Codec(NoIngameFaceRun), got {other:?}"),
    }
    match is_fpc_player(&unread, NONEXISTENT_BOOTS_ID) {
        Err(FpcError::Codec(CodecError::NoIngameFaceRun { field })) => assert_eq!(field, "SkinColor"),
        other => panic!("expected Codec(NoIngameFaceRun), got {other:?}"),
    }
    let mut hidden = PlayerEntry::default();
    hidden.appearance.boots_id = u32::from(NONEXISTENT_BOOTS_ID);
    assert!(is_fpc_player(&hidden, NONEXISTENT_BOOTS_ID).expect("the boots decide"));
}
