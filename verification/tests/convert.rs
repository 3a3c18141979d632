use pes_savefile::convert::{convert_player, ConvertError, ConvertNote as N, VersionRules};
use pes_savefile::codec::CodecError;
use pes_savefile::model::ingame_face::{IngameFace, IngameFaceField as F};
use pes_savefile::model::player::PlayerEntry;
use pes_savefile::model::playstyle::PlayStyle;
use pes_savefile::schema::{ArraySpec, PlayerField, PlayerText, RecordSchema, TextSpec};
use pes_savefile::version::PesVersion as V;

/// Each version's playing-style list and custom skin: 16 lacks the
/// roaming-flank style and has a hole at 16; 19 and 21 hold the whole list.
fn rules(v: V) -> VersionRules {
    let play_styles = match v {
        V::Pes15 | V::Pes16 | V::Pes17 | V::Pes18 => {
            let mut list: Vec<Option<PlayStyle>> = PlayStyle::ALL[..16]
                .iter()
                .copied()
                .filter(|&s| s != PlayStyle::RoamingFlank)
                .map(Some)
                .collect();
            list.push(Some(PlayStyle::DefensiveFullback));
            list.push(None);
            list.push(Some(PlayStyle::OffensiveGoalkeeper));
            list
        }
        _ => PlayStyle::ALL.iter().copied().map(Some).collect(),
    };
    VersionRules { version: v, play_styles, custom_skin: matches!(v, V::Pes16 | V::Pes17) }
}

/// A player layout: the name in 46 bytes, the shirt name in 16, and the
/// skills (PES 15 stores the first 30 only).
fn layout(v: V) -> RecordSchema<PlayerField, PlayerText> {
    RecordSchema {
        size: 128,
        fields: vec![],
        arrays: vec![ArraySpec {
            field: PlayerField::Skill(0),
            count: if v == V::Pes15 { 30 } else { 41 },
            base_bit: 0,
            stride_bits: 1,
            bit_width: 1,
        }],
        texts: vec![
            TextSpec { text: PlayerText::Name, byte_offset: 8, len: 46 },
            TextSpec { text: PlayerText::ShirtName, byte_offset: 54, len: 16 },
        ],
        ingame_face: None,
    }
}

/// A player as read from a save of `v`: a run of the version's length,
/// gated values where the version stores them.
fn first(v: V) -> PlayerEntry {
    let mut p = PlayerEntry::default();
    p.id = 70101;
    p.name = "PLAYER".to_string();
    p.shirt_name = "PLYR".to_string();
    p.basic.age = 24;
    p.stats.speed = 80;
    p.positions.playing_style = 1;
    p.appearance.boots_id = 12;
    let len = if v == V::Pes15 { 46 } else { 50 };
    let mut run: Vec<u8> = (0..len).map(|i| (i as u8).wrapping_mul(29) ^ (v as u8)).collect();
    run[23] = 0;
    p.appearance.ingame_face = IngameFace::from_bytes(run);
    p.appearance.ingame_face.set(F::SkinColor, 2).expect("fits");
    if matches!(v, V::Pes19 | V::Pes21) {
        p.stats.star = Some(2);
    }
    p
}

fn convert(source: &PlayerEntry, from: V, target: &mut PlayerEntry, to: V) -> Result<Vec<N>, ConvertError> {
    convert_player(source, &rules(from), target, &rules(to), &layout(to))
}

#[test]
fn the_run_truncates_on_15_and_keeps_the_target_tail_on_16() {
    let source16 = first(V::Pes16);
    let mut target15 = first(V::Pes15);
    let notes = convert(&source16, V::Pes16, &mut target15, V::Pes15).expect("converts");
    assert_eq!(
        notes.iter().filter(|note| matches!(note, N::FaceRunTruncated { .. })).collect::<Vec<_>>(),
        [&N::FaceRunTruncated { bytes: 4 }]
    );
    assert_eq!(target15.appearance.ingame_face.bytes().len(), 46);
    assert_eq!(target15.appearance.ingame_face.bytes(), &source16.appearance.ingame_face.bytes()[..46]);

    let source15 = first(V::Pes15);
    let mut target16 = first(V::Pes16);
    let kept: Vec<u8> = target16.appearance.ingame_face.bytes()[46..].to_vec();
    let notes = convert(&source15, V::Pes15, &mut target16, V::Pes16).expect("converts");
    assert!(notes.iter().all(|note| !matches!(note, N::FaceRunTruncated { .. })));
    assert_eq!(target16.appearance.ingame_face.bytes()[46..], kept[..], "the longer target keeps its own tail");
    assert_eq!(target16.appearance.ingame_face.bytes()[..46], source15.appearance.ingame_face.bytes()[..]);
}

#[test]
fn custom_skin_survives_only_between_versions_that_have_it() {
    let mut source = first(V::Pes16);
    source.appearance.ingame_face.set(F::SkinColor, 7).expect("fits");
    let mut target17 = first(V::Pes17);
    let notes = convert(&source, V::Pes16, &mut target17, V::Pes17).expect("converts");
    assert_eq!(target17.appearance.ingame_face.get(F::SkinColor).expect("covered"), 7);
    assert!(!notes.contains(&N::CustomSkinReset));

    let mut target18 = first(V::Pes18);
    let notes = convert(&source, V::Pes16, &mut target18, V::Pes18).expect("converts");
    assert_eq!(target18.appearance.ingame_face.get(F::SkinColor).expect("covered"), 1);
    assert!(notes.contains(&N::CustomSkinReset));

    let mut source19 = first(V::Pes19);
    source19.appearance.ingame_face.set(F::SkinColor, 7).expect("fits");
    let mut target16 = first(V::Pes16);
    let notes = convert(&source19, V::Pes19, &mut target16, V::Pes16).expect("converts");
    assert_eq!(target16.appearance.ingame_face.get(F::SkinColor).expect("covered"), 1);
    assert!(notes.contains(&N::CustomSkinReset));
}

#[test]
fn the_playing_style_translates_drops_and_refuses() {
    let mut source = first(V::Pes19);
    source.positions.playing_style = 7; // RoamingFlank, absent on 16
    let mut target = first(V::Pes16);
    let notes = convert(&source, V::Pes19, &mut target, V::Pes16).expect("converts");
    assert_eq!(target.positions.playing_style, 0);
    assert!(notes.contains(&N::PlayingStyleDropped { style: PlayStyle::RoamingFlank }));

    let mut source = first(V::Pes16);
    source.positions.playing_style = 17; // OffensiveGoalkeeper
    let mut target = first(V::Pes19);
    let notes = convert(&source, V::Pes16, &mut target, V::Pes19).expect("converts");
    assert_eq!(target.positions.playing_style, 20);
    assert!(!notes.iter().any(|note| matches!(note, N::PlayingStyleDropped { .. })));

    let mut source = first(V::Pes16);
    source.positions.playing_style = 16; // the hole
    let mut target = first(V::Pes19);
    let before = target.clone();
    match convert(&source, V::Pes16, &mut target, V::Pes19) {
        Err(ConvertError::Codec(CodecError::UnknownPlayingStyle { version, value })) => {
            assert_eq!((version, value), (V::Pes16, 16));
        }
        other => panic!("expected UnknownPlayingStyle, got {other:?}"),
    }
    assert_eq!(target, before, "all-or-nothing");
}

#[test]
fn skills_the_target_lacks_are_dropped_with_notes() {
    let mut source = first(V::Pes21);
    source.skills.skills = [true; 41];
    let missing: Vec<u8> = (30..41).collect();
    let mut target = first(V::Pes15);
    let notes = convert(&source, V::Pes21, &mut target, V::Pes15).expect("converts");
    let dropped: Vec<u8> = notes
        .iter()
        .filter_map(|note| if let N::SkillDropped { index } = note { Some(*index) } else { None })
        .collect();
    assert_eq!(dropped, missing);
    for i in 0..41 {
        assert_eq!(target.skills.skills[i], i < 30, "skill {i}");
    }

    let mut target21 = first(V::Pes21);
    let notes = convert(&source, V::Pes21, &mut target21, V::Pes21).expect("converts");
    assert!(!notes.iter().any(|note| matches!(note, N::SkillDropped { .. })), "PES 21 has every skill");
}

#[test]
fn gated_fields_carry_only_where_the_target_has_them() {
    let source = first(V::Pes16);
    assert_eq!(source.stats.star, None, "PES 16 has no star");
    let mut target = first(V::Pes19);
    let kept = target.stats.star;
    assert!(kept.is_some());
    convert(&source, V::Pes16, &mut target, V::Pes19).expect("converts");
    assert_eq!(target.stats.star, kept, "the template's star stands");

    let source = first(V::Pes19);
    let mut target = first(V::Pes16);
    convert(&source, V::Pes19, &mut target, V::Pes16).expect("converts");
    assert_eq!(target.stats.star, None);

    let mut source = first(V::Pes19);
    source.stats.star = Some(4);
    let mut target = first(V::Pes21);
    target.stats.star = Some(1);
    convert(&source, V::Pes19, &mut target, V::Pes21).expect("converts");
    assert_eq!(target.stats.star, Some(4), "both sides have it: carried");
}

#[test]
fn an_entry_without_a_run_is_refused() {
    let mut target = first(V::Pes16);
    let before = target.clone();
    assert!(matches!(
        convert(&PlayerEntry::default(), V::Pes19, &mut target, V::Pes16),
        Err(ConvertError::NoIngameFaceRun)
    ));
    assert_eq!(target, before);

    let source = first(V::Pes16);
    let mut empty = PlayerEntry::default();
    assert!(matches!(convert(&source, V::Pes16, &mut empty, V::Pes19), Err(ConvertError::NoIngameFaceRun)));
    assert_eq!(empty, PlayerEntry::default());
}

#[test]
fn text_cuts_at_the_target_length_on_a_char_boundary() {
    let mut source = first(V::Pes19);
    source.name = "A".repeat(60);
    source.shirt_name = String::from("SHORT");
    let mut target = first(V::Pes16);
    let notes = convert(&source, V::Pes19, &mut target, V::Pes16).expect("converts");
    assert_eq!(target.name.len(), 45);
    assert_eq!(target.shirt_name, "SHORT");
    assert_eq!(
        notes.iter().filter(|note| matches!(note, N::TextTruncated { .. })).collect::<Vec<_>>(),
        [&N::TextTruncated { text: PlayerText::Name }]
    );

    // Byte 45 lands inside the 3-byte '€': the cut backs off to 44.
    source.name = format!("{}€{}", "a".repeat(44), "b".repeat(10));
    let mut target = first(V::Pes16);
    convert(&source, V::Pes19, &mut target, V::Pes16).expect("converts");
    assert_eq!(target.name.len(), 44);
    assert!(target.name.is_char_boundary(target.name.len()));
}

#[test]
fn the_target_keeps_its_id_and_takes_the_rest() {
    let mut source = first(V::Pes19);
    source.id = 123;
    source.basic.age = 31;
    source.appearance.sleeves = 2;
    source.appearance.player_gloves = true;
    let mut target = first(V::Pes21);
    let notes = convert(&source, V::Pes19, &mut target, V::Pes21).expect("converts");
    assert!(notes.is_empty(), "{notes:?}");
    assert_eq!(target.id, 70101);
    assert_eq!(target.basic.age, 31);
    assert_eq!(target.appearance.sleeves, 2);
    assert!(!target.appearance.player_gloves, "the gloves flag stays the target's");
    assert_eq!(target.positions.playing_style, 1);
}
