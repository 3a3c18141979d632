use pes_savefile::file::schemas_cover_every_version;
use pes_savefile::interchange::team_toml::shirt_name_from;
use pes_savefile::schema::{
    FieldSpec, FormationLayout, PlayerField, PlayerText, RecordSchema, RosterField, SectionLayout,
    TacticsField, TacticsSchema, TeamField, TextSpec, VersionSchema,
};
use pes_savefile::version::PesVersion;

const VERSIONS: [PesVersion; 7] = [
    PesVersion::Pes15,
    PesVersion::Pes16,
    PesVersion::Pes17,
    PesVersion::Pes18,
    PesVersion::Pes19,
    PesVersion::Pes20,
    PesVersion::Pes21,
];

/// Layouts whose player record keeps an 18-byte shirt name, as every
/// version's does.
fn schemas() -> &'static [VersionSchema] {
    let schema = |version| VersionSchema {
        version,
        players: SectionLayout { offset: 0, count_offset: 0 },
        player: RecordSchema {
            size: 80,
            fields: vec![FieldSpec { field: PlayerField::Id, bit_offset: 0, bit_width: 32 }],
            arrays: vec![],
            texts: vec![
                TextSpec { text: PlayerText::Name, byte_offset: 4, len: 46 },
                TextSpec { text: PlayerText::ShirtName, byte_offset: 50, len: 18 },
            ],
            ingame_face: None,
        },
        appearance: None,
        teams: SectionLayout { offset: 0, count_offset: 0 },
        team: RecordSchema {
            size: 8,
            fields: vec![FieldSpec { field: TeamField::Id, bit_offset: 0, bit_width: 32 }],
            arrays: vec![],
            texts: vec![],
            ingame_face: None,
        },
        rosters: SectionLayout { offset: 0, count_offset: 0 },
        roster: RecordSchema {
            size: 8,
            fields: vec![FieldSpec { field: RosterField::TeamId, bit_offset: 0, bit_width: 32 }],
            arrays: vec![],
            texts: vec![],
            ingame_face: None,
        },
        tactics: SectionLayout { offset: 0, count_offset: 0 },
        tactic: TacticsSchema {
            size: 8,
            fields: vec![FieldSpec { field: TacticsField::TeamId, bit_offset: 0, bit_width: 32 }],
            arrays: vec![],
            presets: vec![],
            preset_stride_bits: 0,
            formations: FormationLayout {
                base_bit: 0,
                formation_stride_bits: 0,
                slot_stride_bits: 0,
                y_offset_bits: 0,
                x_offset_bits: 0,
                pair_stride_bits: 0,
            },
            instructions: None,
        },
    };
    Box::leak(VERSIONS.iter().map(|&v| schema(v)).collect::<Vec<_>>().into_boxed_slice())
}

#[test]
fn every_version_stores_a_shirt_name() {
    let schemas = schemas();
    assert!(schemas_cover_every_version(schemas));
    for version in VERSIONS {
        let schema = schemas.iter().find(|s| s.version == version).expect("a layout");
        assert!(
            schema.player.texts.iter().any(|spec| spec.text == PlayerText::ShirtName),
            "{version:?}"
        );
    }
    assert_eq!(shirt_name_from("lord fulp", PesVersion::Pes19, schemas), "LORD FULP");
}

#[test]
fn shirt_name_from_uppercases_strips_and_cuts_by_chars() {
    let schemas = schemas();
    assert_eq!(shirt_name_from("Snuffy", PesVersion::Pes19, schemas), "SNUFFY");
    // A `\x11c` colour code and its eight payload bytes are stripped.
    assert_eq!(
        shirt_name_from("\x11c\x00\x00\x00\x00\x00\x00\x00\x00Snuffy", PesVersion::Pes19, schemas),
        "SNUFFY"
    );
    // `ShirtName` is `len: 18`: 17 chars + terminator.
    let long = "a".repeat(30);
    assert_eq!(shirt_name_from(&long, PesVersion::Pes19, schemas), "A".repeat(17));
    assert_eq!(shirt_name_from(&long, PesVersion::Pes15, schemas), "A".repeat(17));
    // Accented chars upper-case and count once, not per UTF-8 byte.
    assert_eq!(shirt_name_from("aéü", PesVersion::Pes19, schemas), "AÉÜ");
    let accented = "é".repeat(30);
    assert_eq!(shirt_name_from(&accented, PesVersion::Pes19, schemas).chars().count(), 17);
}
