use pes_savefile::codec::CodecError;
use pes_savefile::model::ingame_face::{IngameFace, IngameFaceField};
use pes_savefile::model::player::PlayerEntry;
use pes_savefile::ops::fingerprint::face_hash;
use pes_savefile::ops::compare::{compare_players, DiffScope, PlayerDiff};
use pes_savefile::ops::transplant::transplant_player;
use pes_savefile::schema::{
    FieldSpec, FormationLayout, PlayerField, PlayerText, RecordSchema, SectionLayout, TacticsSchema,
    TextSpec, VersionSchema,
};
use pes_savefile::version::PesVersion;

const VERSIONS: [PesVersion; 7] = [
    PesVersion::Pes15,
    PesVersion::Pes16,
    PesVersion::Pes17,
    PesVersion::Pes18,
    PesVersion::Pes19,
    PesVersion::Pes20,
    PesVersion::Pes21,
];

fn field(field: PlayerField, bit_offset: u32, bit_width: u32) -> FieldSpec<PlayerField> {
    FieldSpec { field, bit_offset, bit_width }
}

fn empty<F, T>() -> RecordSchema<F, T> {
    RecordSchema { size: 8, fields: vec![], arrays: vec![], texts: vec![], ingame_face: None }
}

/// A player record with an id, a few stats and strip fields; PES 15 and 16
/// keep the boots in a separate appearance record that repeats the id.
fn schema(version: PesVersion) -> VersionSchema {
    let split = matches!(version, PesVersion::Pes15 | PesVersion::Pes16);
    let mut fields = vec![
        field(PlayerField::Id, 0, 32),
        field(PlayerField::Age, 32, 6),
        field(PlayerField::Speed, 38, 7),
        field(PlayerField::Sleeves, 45, 2),
        field(PlayerField::Catching, 47, 7),
    ];
    if !split {
        fields.push(field(PlayerField::BootsId, 54, 14));
    }
    let appearance = split.then(|| {
        (
            SectionLayout { offset: 0, count_offset: 0 },
            RecordSchema {
                size: 8,
                fields: vec![field(PlayerField::Id, 0, 32), field(PlayerField::BootsId, 32, 14)],
                arrays: vec![],
                texts: vec![],
                ingame_face: None,
            },
        )
    });
    VersionSchema {
        version,
        players: SectionLayout { offset: 0, count_offset: 0 },
        player: RecordSchema {
            size: 40,
            fields,
            arrays: vec![],
            texts: vec![
                TextSpec { text: PlayerText::Name, byte_offset: 10, len: 20 },
                TextSpec { text: PlayerText::ShirtName, byte_offset: 30, len: 10 },
            ],
            ingame_face: None,
        },
        appearance,
        teams: SectionLayout { offset: 0, count_offset: 0 },
        team: empty(),
        rosters: SectionLayout { offset: 0, count_offset: 0 },
        roster: empty(),
        tactics: SectionLayout { offset: 0, count_offset: 0 },
        tactic: TacticsSchema {
            size: 8,
            fields: vec![],
            arrays: vec![],
            presets: vec![],
            preset_stride_bits: 0,
            formations: FormationLayout {
                base_bit: 0,
                formation_stride_bits: 0,
                slot_stride_bits: 0,
                y_offset_bits: 0,
                x_offset_bits: 0,
                pair_stride_bits: 0,
            },
            instructions: None,
        },
    }
}

/// A player as a read of `schema` leaves it: every gated field it stores is set.
fn player(id: u32) -> PlayerEntry {
    let mut p = PlayerEntry::default();
    p.id = id;
    p.basic.age = 27;
    p.stats.speed = 80;
    p.stats.catching = Some(45);
    p.appearance.sleeves = 1;
    p.appearance.boots_id = 12;
    p.name = "PLAYER".to_string();
    p.shirt_name = "PLYR".to_string();
    let mut run: Vec<u8> = (0..50u8).map(|b| b.wrapping_mul(37)).collect();
    run[0] = 0;
    run[23] = 0;
    p.appearance.ingame_face = IngameFace::from_bytes(run);
    p
}

#[test]
fn a_player_equals_its_own_copy_on_every_version() {
    for version in VERSIONS {
        let p = player(70101);
        assert!(
            compare_players(&p, &p, &schema(version)).expect("compares").is_empty(),
            "{version:?}"
        );
    }
}

#[test]
fn each_single_edit_is_one_row_of_the_right_scope() {
    let a = player(70101);
    let schema = schema(PesVersion::Pes21);

    let mut b = a.clone();
    b.stats.speed += 1;
    let diffs = compare_players(&a, &b, &schema).expect("compares");
    assert_eq!(
        diffs,
        [PlayerDiff::Field {
            field: PlayerField::Speed,
            old: u32::from(a.stats.speed),
            new: u32::from(b.stats.speed),
        }]
    );
    assert_eq!(diffs[0].scope(), DiffScope::Gameplay);

    let mut b = a.clone();
    b.name.push('X');
    let diffs = compare_players(&a, &b, &schema).expect("compares");
    assert_eq!(
        diffs,
        [PlayerDiff::Text { text: PlayerText::Name, old: a.name.clone(), new: b.name.clone() }]
    );
    assert_eq!(diffs[0].scope(), DiffScope::Gameplay);

    let mut b = a.clone();
    b.shirt_name.push('X');
    let diffs = compare_players(&a, &b, &schema).expect("compares");
    assert_eq!(
        diffs,
        [PlayerDiff::Text {
            text: PlayerText::ShirtName,
            old: a.shirt_name.clone(),
            new: b.shirt_name.clone(),
        }]
    );

    let mut b = a.clone();
    b.appearance.sleeves = (b.appearance.sleeves + 1) % 3;
    let diffs = compare_players(&a, &b, &schema).expect("compares");
    assert_eq!(
        diffs,
        [PlayerDiff::Field {
            field: PlayerField::Sleeves,
            old: u32::from(a.appearance.sleeves),
            new: u32::from(b.appearance.sleeves),
        }]
    );
    assert_eq!(diffs[0].scope(), DiffScope::Aesthetics);
}

#[test]
fn a_field_is_aesthetics_exactly_when_transplant_moves_it() {
    let schema = schema(PesVersion::Pes21);
    let a = player(70101);
    for f in &schema.player.fields {
        let field = f.field;
        let old = a.get(field).expect("covered");
        let new = if old == 0 { 1 } else { 0 };
        let mut b = a.clone();
        b.set(field, new).expect("fits");
        let diffs = compare_players(&a, &b, &schema).expect("compares");
        assert_eq!(diffs, [PlayerDiff::Field { field, old, new }], "{field:?}");
        let mut c = a.clone();
        transplant_player(&mut c, &b);
        let moved = c.get(field).expect("covered") == new;
        assert_eq!(diffs[0].scope() == DiffScope::Aesthetics, moved, "{field:?}");
    }
    let mut b = a.clone();
    b.name.push('X');
    b.shirt_name.push('X');
    let diffs = compare_players(&a, &b, &schema).expect("compares");
    assert_eq!(diffs.len(), 2, "{diffs:?}");
    for diff in &diffs {
        assert_eq!(diff.scope(), DiffScope::Gameplay, "{diff:?}");
    }
}

#[test]
fn the_appearance_records_id_is_not_a_second_id_row() {
    let schema = schema(PesVersion::Pes16);
    let a = player(70101);
    let b = player(70202);
    assert_ne!(a.id, b.id);
    let ids: Vec<PlayerDiff> = compare_players(&a, &b, &schema)
        .expect("compares")
        .into_iter()
        .filter(|d| matches!(d, PlayerDiff::Field { field: PlayerField::Id, .. }))
        .collect();
    assert_eq!(ids.len(), 1, "{ids:?}");
}

#[test]
fn the_appearance_record_is_walked_on_pes16() {
    let a = player(70101);
    let schema = schema(PesVersion::Pes16);
    assert!(schema.appearance.is_some());
    let mut b = a.clone();
    b.appearance.boots_id = b.appearance.boots_id.wrapping_add(1) % 0x4000;
    let diffs = compare_players(&a, &b, &schema).expect("compares");
    assert_eq!(
        diffs,
        [PlayerDiff::Field {
            field: PlayerField::BootsId,
            old: a.appearance.boots_id,
            new: b.appearance.boots_id,
        }]
    );
}

#[test]
fn an_entry_never_read_has_a_gated_field_to_miss() {
    let schema = schema(PesVersion::Pes21);
    let read = player(70101);
    // An entry with a run but no gated field set.
    let mut unread = PlayerEntry::default();
    unread.appearance.ingame_face = read.appearance.ingame_face.clone();
    assert!(matches!(
        compare_players(&unread, &read, &schema),
        Err(CodecError::Missing { .. })
    ));
    assert!(matches!(
        compare_players(&read, &unread, &schema),
        Err(CodecError::Missing { .. })
    ));
}

#[test]
fn rows_come_in_record_order_then_the_texts() {
    let schema = schema(PesVersion::Pes15);
    let a = player(70101);
    let mut b = player(70102);
    b.appearance.boots_id = 99;
    b.stats.catching = Some(46);
    b.name = "OTHER".to_string();
    let diffs = compare_players(&a, &b, &schema).expect("compares");
    assert_eq!(
        diffs,
        [
            PlayerDiff::Field { field: PlayerField::Id, old: 70101, new: 70102 },
            PlayerDiff::Field { field: PlayerField::Catching, old: 45, new: 46 },
            PlayerDiff::Field { field: PlayerField::BootsId, old: 12, new: 99 },
            PlayerDiff::Text { text: PlayerText::Name, old: "PLAYER".to_string(), new: "OTHER".to_string() },
        ]
    );
}

#[test]
fn a_face_field_is_one_face_row_an_unknown_bit_is_one_run_row() {
    let a = player(70101);
    let schema = schema(PesVersion::Pes21);
    let face = &a.appearance.ingame_face;

    // A known field: one Face row, no run row.
    let mut b = a.clone();
    let color = face.get(IngameFaceField::PlayerGlovesColor).expect("covered");
    b.appearance.ingame_face.set(IngameFaceField::PlayerGlovesColor, color ^ 1).expect("fits");
    let diffs = compare_players(&a, &b, &schema).expect("compares");
    assert_eq!(
        diffs,
        [PlayerDiff::Face { field: IngameFaceField::PlayerGlovesColor, old: color, new: color ^ 1 }]
    );

    // A bit no field covers: one FaceRun row with the two fingerprints.
    let mut run = face.bytes().to_vec();
    run[10] ^= 1;
    let mut b = a.clone();
    b.appearance.ingame_face = IngameFace::from_bytes(run);
    let diffs = compare_players(&a, &b, &schema).expect("compares");
    assert_eq!(
        diffs,
        [PlayerDiff::FaceRun { old: face_hash(face), new: face_hash(&b.appearance.ingame_face) }]
    );
    assert_ne!(face_hash(face), face_hash(&b.appearance.ingame_face));

    // The skin bit is a known field: a Face row, and masked out of the run
    // row either way.
    let mut b = a.clone();
    let skin = face.get(IngameFaceField::SkinColor).expect("covered");
    b.appearance.ingame_face.set(IngameFaceField::SkinColor, skin ^ 1).expect("fits");
    let diffs = compare_players(&a, &b, &schema).expect("compares");
    assert_eq!(
        diffs,
        [PlayerDiff::Face { field: IngameFaceField::SkinColor, old: skin, new: skin ^ 1 }]
    );
}

#[test]
fn an_entry_never_read_has_no_face_run_to_compare() {
    let schema = schema(PesVersion::Pes21);
    let fixture = player(70101);
    assert!(matches!(
        compare_players(&PlayerEntry::default(), &fixture, &schema),
        Err(CodecError::NoIngameFaceRun { .. })
    ));
    assert!(matches!(
        compare_players(&PlayerEntry::default(), &PlayerEntry::default(), &schema),
        Err(CodecError::NoIngameFaceRun { .. })
    ));
    let mut short = fixture.clone();
    short.appearance.ingame_face = IngameFace::from_bytes(vec![0; 49]);
    match compare_players(&fixture, &short, &schema) {
        Err(CodecError::NoIngameFaceRun { field }) => assert_eq!(field, "ingame_face"),
        other => panic!("expected NoIngameFaceRun, got {other:?}"),
    }
}
