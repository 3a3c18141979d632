use pes_savefile::codec::{
    read_player, read_player_into, read_roster_into, read_tactics_into, read_team, write_player,
    write_roster, write_tactics, write_team, CodecError,
};
use pes_savefile::model::ingame_face::{IngameFace, IngameFaceField};
use pes_savefile::model::player::PlayerEntry;
use pes_savefile::model::team::TeamEntry;
use pes_savefile::schema::{
    ArraySpec, FaceRun, FieldSpec, FormationLayout, InstructionLayout, PlayerField, PlayerText,
    PresetField, PresetSpec, RecordSchema, RosterField, TacticsField, TacticsSchema, TeamField,
    TeamText, TextSpec,
};

/// A small player record: id, age, height, thirteen 2-bit position ratings,
/// the name and the shirt name.
fn player_schema() -> RecordSchema<PlayerField, PlayerText> {
    RecordSchema {
        size: 26,
        fields: vec![
            FieldSpec { field: PlayerField::Id, bit_offset: 0, bit_width: 32 },
            FieldSpec { field: PlayerField::Age, bit_offset: 32, bit_width: 6 },
            FieldSpec { field: PlayerField::Height, bit_offset: 38, bit_width: 8 },
        ],
        arrays: vec![ArraySpec {
            field: PlayerField::PlayablePosition(0),
            count: 13,
            base_bit: 176,
            stride_bits: 2,
            bit_width: 2,
        }],
        texts: vec![
            TextSpec { text: PlayerText::Name, byte_offset: 6, len: 10 },
            TextSpec { text: PlayerText::ShirtName, byte_offset: 16, len: 6 },
        ],
        ingame_face: None,
    }
}

fn player_record() -> Vec<u8> {
    let mut record = vec![0u8; 26];
    record[..4].copy_from_slice(&70101u32.to_le_bytes());
    // age 25 in bits 32..38, height 180 in bits 38..46.
    let bits: u64 = 25 | (180 << 6);
    record[4] = bits as u8;
    record[5] = (bits >> 8) as u8;
    record[6..11].copy_from_slice(b"LORD\0");
    record[11..16].copy_from_slice(&[7, 7, 7, 7, 7]);
    record[16..20].copy_from_slice(&[b'F', 0xC9, b'X', 0]);
    record[20] = 0x5A;
    record[22] = 0b1110_0100;
    record[23] = 0xFF;
    record[24] = 0b0000_0011;
    record[25] = 0b0000_0011;
    record
}

#[test]
fn a_player_record_reads_its_fields_and_texts() {
    let schema = player_schema();
    let player = read_player(&player_record(), &schema).expect("reads");
    assert_eq!(player.id, 70101);
    assert_eq!(player.basic.age, 25);
    assert_eq!(player.basic.height, 180);
    assert_eq!(player.name, "LORD");
    assert_eq!(player.shirt_name, "F\u{c9}X");
    assert_eq!(&player.positions.playable[..5], &[0, 1, 2, 3, 3]);
    assert_eq!(player.positions.playable[8], 3);
    assert_eq!(player.positions.playable[9], 0);
    assert_eq!(player.positions.playable[12], 3);
}

#[test]
fn a_read_player_writes_back_byte_for_byte() {
    let schema = player_schema();
    let record = player_record();
    let player = read_player(&record, &schema).expect("reads");
    let mut out = record.clone();
    write_player(&player, &mut out, &schema).expect("writes");
    assert_eq!(out, record);
    // Onto zeros, only the runs and texts appear; the rest stays zero.
    let mut fresh = vec![0u8; 26];
    write_player(&player, &mut fresh, &schema).expect("writes");
    assert_eq!(&fresh[11..16], &[0; 5]);
    assert_eq!(fresh[20], 0);
    assert_eq!(read_player(&fresh, &schema).expect("reads"), player);
}

#[test]
fn player_codec_errors() {
    let schema = player_schema();
    assert!(matches!(
        read_player(&[0u8; 25], &schema),
        Err(CodecError::RecordSize { expected: 26, got: 25 })
    ));
    let mut player = read_player(&player_record(), &schema).expect("reads");
    let mut out = player_record();
    assert!(matches!(
        write_player(&player, &mut out[..25], &schema),
        Err(CodecError::RecordSize { expected: 26, got: 25 })
    ));
    player.basic.age = 64;
    assert!(matches!(
        write_player(&player, &mut out, &schema),
        Err(CodecError::ValueTooWide { value: 64, width: 6, .. })
    ));
    player.basic.age = 63;
    player.name = "TOO LONG NAME".to_string();
    assert!(matches!(write_player(&player, &mut out, &schema), Err(CodecError::Text { .. })));
    player.name = "OK".to_string();
    player.shirt_name = "\u{100}".to_string();
    assert!(matches!(write_player(&player, &mut out, &schema), Err(CodecError::Text { .. })));
    // A name that is not UTF-8.
    let mut bad = player_record();
    bad[6] = 0xFF;
    assert!(matches!(read_player(&bad, &schema), Err(CodecError::Text { .. })));
    // An array past the model's thirteen playable positions.
    let mut wide = player_schema();
    wide.arrays[0].count = 14;
    wide.size = 27;
    let mut record = player_record();
    record.push(0);
    assert!(matches!(read_player(&record, &wide), Err(CodecError::Index { index: 13, .. })));
}

#[test]
fn read_player_into_touches_only_the_schemas_fields() {
    let schema = RecordSchema {
        size: 5,
        fields: vec![FieldSpec { field: PlayerField::Weight, bit_offset: 32, bit_width: 8 }],
        arrays: vec![],
        texts: vec![],
        ingame_face: None,
    };
    let mut player = read_player(&player_record(), &player_schema()).expect("reads");
    let before = player.clone();
    read_player_into(&mut player, &[1, 2, 3, 4, 77], &schema).expect("applies");
    assert_eq!(player.basic.weight, 77);
    player.basic.weight = before.basic.weight;
    assert_eq!(player, before);
}

fn team_schema() -> RecordSchema<TeamField, TeamText> {
    RecordSchema {
        size: 28,
        fields: vec![
            FieldSpec { field: TeamField::Id, bit_offset: 0, bit_width: 32 },
            FieldSpec { field: TeamField::EditedName, bit_offset: 32, bit_width: 1 },
            FieldSpec { field: TeamField::Color1Red, bit_offset: 40, bit_width: 6 },
        ],
        arrays: vec![],
        texts: vec![
            TextSpec { text: TeamText::Name, byte_offset: 8, len: 16 },
            TextSpec { text: TeamText::ShortName, byte_offset: 24, len: 4 },
        ],
        ingame_face: None,
    }
}

fn roster_schema() -> RecordSchema<RosterField, TeamText> {
    RecordSchema {
        size: 19,
        fields: vec![FieldSpec { field: RosterField::TeamId, bit_offset: 0, bit_width: 32 }],
        arrays: vec![
            ArraySpec { field: RosterField::Player(0), count: 3, base_bit: 32, stride_bits: 32, bit_width: 32 },
            ArraySpec { field: RosterField::Number(0), count: 3, base_bit: 128, stride_bits: 8, bit_width: 8 },
        ],
        texts: vec![],
        ingame_face: None,
    }
}

fn tactics_schema() -> TacticsSchema {
    TacticsSchema {
        size: 380,
        fields: vec![
            FieldSpec { field: TacticsField::TeamId, bit_offset: 0, bit_width: 32 },
            FieldSpec { field: TacticsField::Captain, bit_offset: 32, bit_width: 8 },
            FieldSpec { field: TacticsField::AutoOffsideTrap, bit_offset: 40, bit_width: 8 },
        ],
        arrays: vec![],
        presets: vec![
            PresetSpec { field: PresetField::AttackingStyle, bit_offset: 64 },
            PresetSpec { field: PresetField::SupportRange, bit_offset: 72 },
            PresetSpec { field: PresetField::FluidFormation, bit_offset: 80 },
        ],
        preset_stride_bits: 123 * 8,
        formations: FormationLayout {
            base_bit: 24 * 8,
            formation_stride_bits: 33 * 8,
            slot_stride_bits: 8,
            y_offset_bits: 11 * 8,
            x_offset_bits: 22 * 8,
            pair_stride_bits: 8,
        },
        instructions: Some(InstructionLayout {
            base_bit: 123 * 8,
            side_stride_bits: 4 * 8,
            index_stride_bits: 2 * 8,
            part_stride_bits: 8,
        }),
    }
}

fn team_records() -> (Vec<u8>, Vec<u8>, Vec<u8>) {
    let mut team = vec![0u8; 28];
    team[..4].copy_from_slice(&701u32.to_le_bytes());
    team[4] = 1;
    team[5] = 0x2A;
    team[8..14].copy_from_slice(b"Japan\0");
    team[24..28].copy_from_slice(b"JPN\0");
    let mut roster = vec![0u8; 19];
    roster[..4].copy_from_slice(&701u32.to_le_bytes());
    for (i, id) in [70101u32, 70102, 70103].iter().enumerate() {
        roster[4 + 4 * i..8 + 4 * i].copy_from_slice(&id.to_le_bytes());
        roster[16 + i] = (i as u8) + 1;
    }
    let mut tactics: Vec<u8> = (0..380).map(|i| (i % 5) as u8).collect();
    tactics[..4].copy_from_slice(&701u32.to_le_bytes());
    tactics[4] = 4;
    tactics[5] = 1;
    for p in 0..3 {
        tactics[8 + 123 * p] = 1;
        tactics[9 + 123 * p] = 7;
        tactics[10 + 123 * p] = 0;
    }
    (team, roster, tactics)
}

#[test]
fn a_team_reads_and_writes_back_through_all_three_records() {
    let (team_rec, roster_rec, tactics_rec) = team_records();
    let mut team = read_team(&team_rec, &team_schema()).expect("team");
    assert_eq!(team.id, 701);
    assert_eq!(team.name, "Japan");
    assert_eq!(team.short_name, "JPN");
    assert!(team.edit_flags.name);
    assert_eq!(team.colors.expect("colours")[0].red, 0x2A);
    read_roster_into(&mut team, &roster_rec, &roster_schema()).expect("roster");
    assert_eq!(team.roster.len(), 3);
    assert_eq!(team.roster[2].player_id, 70103);
    assert_eq!(team.roster[2].number, 3);
    read_tactics_into(&mut team, &tactics_rec, &tactics_schema()).expect("tactics");
    assert_eq!(team.tactics.set_pieces.captain, 4);
    assert_eq!(team.tactics.auto.offside_trap, Some(true));
    assert!(team.tactics.presets[1].style.attacking_style);
    assert_eq!(team.tactics.presets[2].sliders.support_range, 7);
    assert!(team.tactics.presets[0].attack_instructions.is_some());

    let mut out = vec![0u8; 28];
    write_team(&team, &mut out, &team_schema()).expect("team writes");
    assert_eq!(out, team_rec);
    let mut out = vec![0u8; 19];
    write_roster(&team, &mut out, &roster_schema()).expect("roster writes");
    assert_eq!(out, roster_rec);
    let mut out = tactics_rec.clone();
    write_tactics(&team, &mut out, &tactics_schema()).expect("tactics writes");
    assert_eq!(out, tactics_rec);
}

#[test]
fn team_codec_errors() {
    let (team_rec, roster_rec, tactics_rec) = team_records();
    let mut team = read_team(&team_rec, &team_schema()).expect("team");
    let mut other = team.clone();
    other.id = 702;
    assert!(matches!(
        read_roster_into(&mut other, &roster_rec, &roster_schema()),
        Err(CodecError::TeamIdMismatch { expected: 702, got: 701 })
    ));
    assert!(matches!(
        read_tactics_into(&mut other, &tactics_rec, &tactics_schema()),
        Err(CodecError::TeamIdMismatch { expected: 702, got: 701 })
    ));
    // A switch byte other than 0 or 1.
    let mut bad = tactics_rec.clone();
    bad[5] = 2;
    assert!(matches!(
        read_tactics_into(&mut team, &bad, &tactics_schema()),
        Err(CodecError::NotBoolean { value: 2, .. })
    ));
    // A fresh team has no roster slots and no tactics switches to write.
    let fresh = TeamEntry::default();
    let mut out = vec![0u8; 19];
    assert!(matches!(
        write_roster(&fresh, &mut out, &roster_schema()),
        Err(CodecError::Index { index: 0, .. })
    ));
    let mut out = vec![0u8; 380];
    assert!(matches!(
        write_tactics(&fresh, &mut out, &tactics_schema()),
        Err(CodecError::Missing { .. })
    ));
    let mut out = vec![0u8; 28];
    assert!(matches!(
        write_team(&fresh, &mut out, &team_schema()),
        Err(CodecError::Missing { .. })
    ));
}

#[test]
fn a_default_player_is_empty() {
    let p = PlayerEntry::default();
    assert_eq!(p.id, 0);
    assert!(p.name.is_empty());
    assert_eq!(p.positions.stronger_hand, None);
}

#[test]
fn a_missing_field_is_named_by_its_debug_text() {
    let player = PlayerEntry::default();
    match player.get(PlayerField::Star) {
        Err(CodecError::Missing { field }) => assert_eq!(field, "Star"),
        other => panic!("{other:?}"),
    }
    let team = TeamEntry::default();
    match team.get(TeamField::ManagerId) {
        Err(CodecError::Missing { field }) => assert_eq!(field, "ManagerId"),
        other => panic!("{other:?}"),
    }
    match team.tactics_get(TacticsField::AutoSubstitution) {
        Err(CodecError::Missing { field }) => assert_eq!(field, "AutoSubstitution"),
        other => panic!("{other:?}"),
    }
}

#[test]
fn a_value_too_wide_for_its_run_is_refused() {
    let schema = RecordSchema {
        size: 2,
        fields: vec![FieldSpec { field: PlayerField::Form, bit_offset: 0, bit_width: 3 }],
        arrays: vec![],
        texts: vec![],
        ingame_face: None,
    };
    let mut player = PlayerEntry::default();
    player.stats.form = 8;
    let mut record = [0u8; 2];
    match write_player(&player, &mut record, &schema) {
        Err(CodecError::ValueTooWide { field, value, width }) => {
            assert_eq!(field, "Form");
            assert_eq!(value, 8);
            assert_eq!(width, 3);
        },
        other => panic!("{other:?}"),
    }
    assert_eq!(record, [0u8; 2]);
}

#[test]
fn a_tactics_switch_takes_only_zero_or_one() {
    let mut team = TeamEntry::default();
    let field = TacticsField::Preset { preset: 0, field: PresetField::AttackingStyle };
    match team.tactics_set(field, 2) {
        Err(CodecError::NotBoolean { field, value }) => {
            assert_eq!(field, "Preset { preset: 0, field: AttackingStyle }");
            assert_eq!(value, 2);
        },
        other => panic!("{other:?}"),
    }
    assert_eq!(team, TeamEntry::default());
    team.tactics_set(field, 1).expect("one is a value");
    assert!(team.tactics.presets[0].style.attacking_style);
    team.tactics_set(field, 0).expect("zero is a value");
    assert!(!team.tactics.presets[0].style.attacking_style);
}

#[test]
fn an_index_past_its_array_is_named_with_its_index() {
    let player = PlayerEntry::default();
    match player.get(PlayerField::Skill(41)) {
        Err(CodecError::Index { field, index }) => {
            assert_eq!(field, "Skill(41)");
            assert_eq!(index, 41);
        },
        other => panic!("{other:?}"),
    }
    let team = TeamEntry::default();
    let field = TacticsField::Formation { preset: 3, formation: 0, slot: 10, part: pes_savefile::schema::FormationPart::Y };
    match team.tactics_get(field) {
        Err(CodecError::Index { field, .. }) => {
            assert_eq!(field, "Formation { preset: 3, formation: 0, slot: 10, part: Y }");
        },
        other => panic!("{other:?}"),
    }
}

/// A record carrying an id and an ingame-face run of `len` bytes from byte 4.
fn face_schema(len: u32) -> RecordSchema<PlayerField, PlayerText> {
    RecordSchema {
        size: 4 + len as usize,
        fields: vec![FieldSpec { field: PlayerField::Id, bit_offset: 0, bit_width: 32 }],
        arrays: vec![],
        texts: vec![],
        ingame_face: Some(FaceRun { byte_offset: 4, len }),
    }
}

#[test]
fn the_ingame_face_run_has_the_versions_length() {
    for len in [46u32, 50] {
        let schema = face_schema(len);
        let mut record: Vec<u8> = (0..schema.size).map(|i| i as u8).collect();
        record[..4].copy_from_slice(&70101u32.to_le_bytes());
        let player = read_player(&record, &schema).expect("decode");
        assert_eq!(player.appearance.ingame_face.bytes().len(), len as usize, "{len} run length");
        assert_eq!(player.appearance.ingame_face.bytes(), &record[4..]);
    }
    // A record whose schema has no run leaves the entry's run as it was.
    let schema = RecordSchema { ingame_face: None, size: 4, ..face_schema(0) };
    let player = read_player(&70101u32.to_le_bytes(), &schema).expect("decode");
    assert!(player.appearance.ingame_face.bytes().is_empty());
}

#[test]
fn a_wrong_length_ingame_face_run_is_refused() {
    let schema = face_schema(50);
    let mut player = PlayerEntry::default();
    player.id = 70101;
    player.appearance.ingame_face = IngameFace::from_bytes(vec![0; 49]);
    let mut record = vec![0xAAu8; schema.size];
    match write_player(&player, &mut record, &schema) {
        Err(CodecError::RunSize { expected, got }) => {
            assert_eq!((expected, got), (50, 49));
        }
        other => panic!("expected CodecError::RunSize, got {other:?}"),
    }
    assert_eq!(record, vec![0xAAu8; schema.size], "a refused write changes nothing");
    // A run written into a record whose schema has none is ignored.
    let plain = RecordSchema { ingame_face: None, size: 4, ..face_schema(0) };
    let mut record = [0u8; 4];
    write_player(&player, &mut record, &plain).expect("no run on this record");
    assert_eq!(record, 70101u32.to_le_bytes());
}

#[test]
fn a_read_run_is_written_back_byte_for_byte() {
    let schema = face_schema(50);
    let mut record: Vec<u8> = (0..schema.size).map(|i| (i * 7) as u8).collect();
    record[..4].copy_from_slice(&70101u32.to_le_bytes());
    let mut player = read_player(&record, &schema).expect("decode");
    let mut out = vec![0u8; schema.size];
    write_player(&player, &mut out, &schema).expect("encode");
    assert_eq!(out, record);
    player.appearance.ingame_face.set(IngameFaceField::SkinColor, 7).expect("set");
    write_player(&player, &mut out, &schema).expect("encode");
    assert_eq!(read_player(&out, &schema).expect("decode").appearance.ingame_face, player.appearance.ingame_face);
    assert_ne!(out, record);
}

#[test]
fn a_team_value_too_wide_is_named_with_its_value_and_width() {
    let schema = RecordSchema {
        size: 8,
        fields: vec![
            FieldSpec { field: TeamField::Id, bit_offset: 0, bit_width: 8 },
            FieldSpec { field: TeamField::EditedName, bit_offset: 8, bit_width: 1 },
        ],
        arrays: vec![],
        texts: vec![],
        ingame_face: None,
    };
    let mut team = TeamEntry::default();
    team.id = 300;
    let mut record = [0x55u8; 8];
    match write_team(&team, &mut record, &schema) {
        Err(CodecError::ValueTooWide { field, value, width }) => {
            assert_eq!((field.as_str(), value, width), ("Id", 300, 8));
        }
        other => panic!("{other:?}"),
    }
    assert_eq!(record, [0x55u8; 8], "the first run refused, nothing written");
}
