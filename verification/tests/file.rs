use pes_savefile::codec::{write_player, write_roster, write_tactics, write_team, CodecError};
use pes_savefile::container::{ContainerError, MasterKey, SaveContainer, Scheme};
use pes_savefile::file::{schemas_cover_every_version, EditFile, LayoutDetail, SaveError};
use pes_savefile::model::ingame_face::IngameFace;
use pes_savefile::model::player::PlayerEntry;
use pes_savefile::model::team::{RosterSlot, TeamEntry};
use pes_savefile::ops::compare::{compare, CompareError, PlayerDiff};
use pes_savefile::schema::{
    ArraySpec, FaceRun, FieldSpec, FormationLayout, PlayerField, PlayerText, PresetField, PresetSpec,
    RecordSchema, RosterField, SectionLayout, TacticsField, TacticsSchema, TeamField, TeamText,
    TextSpec, VersionSchema,
};
use pes_savefile::version::PesVersion;

const VERSIONS: [PesVersion; 7] = [
    PesVersion::Pes15,
    PesVersion::Pes16,
    PesVersion::Pes17,
    PesVersion::Pes18,
    PesVersion::Pes19,
    PesVersion::Pes20,
    PesVersion::Pes21,
];

/// Stand-in master keys: the real effective keys are data the caller supplies.
fn keys() -> Vec<MasterKey> {
    VERSIONS[1..]
        .iter()
        .enumerate()
        .map(|(k, &version)| MasterKey {
            version,
            effective: std::array::from_fn(|i| (i * 13 + k * 41 + 5) as u8),
        })
        .collect()
}

fn test_salt() -> [u8; 320] {
    std::array::from_fn(|i| (i % 251) as u8 + 1)
}

const PLAYERS: usize = 4;
const TEAMS: usize = 2;
const PLAYER_SIZE: usize = 44;
/// The ingame-face run's place in a player record.
const FACE_AT: u32 = 20;
const FACE_LEN: u32 = 24;
const TEAM_SIZE: usize = 16;
const ROSTER_SIZE: usize = 16;
const TACTIC_SIZE: usize = 305;
const PLAYERS_AT: usize = 16;
const TEAMS_AT: usize = PLAYERS_AT + PLAYERS * PLAYER_SIZE;
const ROSTERS_AT: usize = TEAMS_AT + TEAMS * TEAM_SIZE;
const TACTICS_AT: usize = ROSTERS_AT + TEAMS * ROSTER_SIZE;
const PAYLOAD_SIZE: usize = TACTICS_AT + TEAMS * TACTIC_SIZE + 7;

/// One synthetic layout, the same for every version.
fn schema(version: PesVersion) -> VersionSchema {
    VersionSchema {
        version,
        players: SectionLayout { offset: PLAYERS_AT, count_offset: 0 },
        player: RecordSchema {
            size: PLAYER_SIZE,
            fields: vec![
                FieldSpec { field: PlayerField::Id, bit_offset: 0, bit_width: 32 },
                FieldSpec { field: PlayerField::Age, bit_offset: 32, bit_width: 8 },
            ],
            arrays: vec![],
            texts: vec![
                TextSpec { text: PlayerText::Name, byte_offset: 5, len: 10 },
                TextSpec { text: PlayerText::ShirtName, byte_offset: 15, len: 5 },
            ],
            ingame_face: Some(FaceRun { byte_offset: FACE_AT, len: FACE_LEN }),
        },
        appearance: None,
        teams: SectionLayout { offset: TEAMS_AT, count_offset: 2 },
        team: RecordSchema {
            size: TEAM_SIZE,
            fields: vec![FieldSpec { field: TeamField::Id, bit_offset: 0, bit_width: 32 }],
            arrays: vec![],
            texts: vec![TextSpec { text: TeamText::Name, byte_offset: 4, len: 12 }],
            ingame_face: None,
        },
        rosters: SectionLayout { offset: ROSTERS_AT, count_offset: 4 },
        roster: RecordSchema {
            size: ROSTER_SIZE,
            fields: vec![FieldSpec { field: RosterField::TeamId, bit_offset: 0, bit_width: 32 }],
            arrays: vec![ArraySpec {
                field: RosterField::Player(0),
                count: 2,
                base_bit: 32,
                stride_bits: 32,
                bit_width: 32,
            }],
            texts: vec![],
            ingame_face: None,
        },
        tactics: SectionLayout { offset: TACTICS_AT, count_offset: 6 },
        tactic: TacticsSchema {
            size: TACTIC_SIZE,
            fields: vec![
                FieldSpec { field: TacticsField::TeamId, bit_offset: 0, bit_width: 32 },
                FieldSpec { field: TacticsField::Captain, bit_offset: 32, bit_width: 8 },
            ],
            arrays: vec![],
            presets: vec![PresetSpec { field: PresetField::SupportRange, bit_offset: 40 }],
            preset_stride_bits: 100 * 8,
            formations: FormationLayout {
                base_bit: 6 * 8,
                formation_stride_bits: 33 * 8,
                slot_stride_bits: 8,
                y_offset_bits: 11 * 8,
                x_offset_bits: 22 * 8,
                pair_stride_bits: 8,
            },
            instructions: None,
        },
    }
}

fn schemas() -> &'static [VersionSchema] {
    Box::leak(VERSIONS.iter().map(|&v| schema(v)).collect::<Vec<_>>().into_boxed_slice())
}

fn player(id: u32, age: u8, name: &str) -> PlayerEntry {
    let mut p = PlayerEntry::default();
    p.id = id;
    p.basic.age = age;
    p.name = name.to_string();
    p.shirt_name = name.chars().take(4).collect();
    p.appearance.ingame_face = IngameFace::from_bytes(vec![id as u8; FACE_LEN as usize]);
    p
}

/// A payload holding four players and two teams, every record written by the codec.
fn payload(version: PesVersion) -> Vec<u8> {
    let s = schema(version);
    let mut payload: Vec<u8> = (0..PAYLOAD_SIZE).map(|i| (i % 3) as u8).collect();
    for (offset, count) in [(0, PLAYERS), (2, TEAMS), (4, TEAMS), (6, TEAMS)] {
        payload[offset..offset + 2].copy_from_slice(&(count as u16).to_le_bytes());
    }
    let players = [
        player(70101, 25, "LORD"),
        player(70102, 31, "FULP"),
        player(70201, 19, "PEP"),
        player(70202, 22, "SI"),
    ];
    for (i, p) in players.iter().enumerate() {
        let at = PLAYERS_AT + i * PLAYER_SIZE;
        write_player(p, &mut payload[at..at + PLAYER_SIZE], &s.player).expect("player");
    }
    for (i, (id, name)) in [(701u32, "Japan"), (702, "Korea")].iter().enumerate() {
        let mut team = TeamEntry::default();
        team.id = *id;
        team.name = name.to_string();
        team.roster = vec![
            RosterSlot { player_id: id * 100 + 1, number: 1 },
            RosterSlot { player_id: id * 100 + 2, number: 2 },
        ];
        team.tactics.set_pieces.captain = i as u8 + 1;
        for p in team.tactics.presets.iter_mut() {
            p.sliders.support_range = 5;
        }
        let at = TEAMS_AT + i * TEAM_SIZE;
        write_team(&team, &mut payload[at..at + TEAM_SIZE], &s.team).expect("team");
        let at = ROSTERS_AT + i * ROSTER_SIZE;
        write_roster(&team, &mut payload[at..at + ROSTER_SIZE], &s.roster).expect("roster");
        let at = TACTICS_AT + i * TACTIC_SIZE;
        write_tactics(&team, &mut payload[at..at + TACTIC_SIZE], &s.tactic).expect("tactics");
    }
    payload
}

fn container(version: PesVersion) -> SaveContainer {
    let mut description = b"Edit Data".to_vec();
    description.resize(384, 0);
    match version {
        PesVersion::Pes15 => SaveContainer {
            scheme: Scheme::Pes15,
            description,
            logo: Vec::new(),
            payload: payload(version),
            identifier: Vec::new(),
            serial: Vec::new(),
        },
        _ => {
            let key = *keys().iter().find(|k| k.version == version).expect("a key");
            SaveContainer {
                scheme: Scheme::Keyed(key),
                description,
                logo: Vec::new(),
                payload: payload(version),
                identifier: vec![0; key.header_size() - 80],
                serial: Vec::new(),
            }
        }
    }
}

fn open(version: PesVersion) -> (EditFile, Vec<u8>) {
    let bytes = container(version).to_bytes(&test_salt()).expect("container encodes");
    let file = EditFile::from_bytes(&bytes, &keys(), schemas()).expect("the save opens");
    (file, bytes)
}

#[test]
fn every_version_opens_and_rewrites_byte_for_byte() {
    for version in VERSIONS {
        let (file, bytes) = open(version);
        assert_eq!(file.version(), version);
        assert_eq!(file.players().len(), PLAYERS);
        assert_eq!(file.teams().len(), TEAMS);
        assert_eq!(file.player(70101).expect("player").basic.age, 25);
        assert_eq!(file.player(70202).expect("player").name, "SI");
        let team = file.team(702).expect("team");
        assert_eq!(team.name, "Korea");
        assert_eq!(
            team.roster.iter().map(|s| s.player_id).collect::<Vec<_>>(),
            [70201, 70202]
        );
        assert_eq!(team.tactics.set_pieces.captain, 2);
        assert!(file.player(99).is_none());
        assert!(file.team(99).is_none());
        assert_eq!(file.to_bytes(&test_salt()).expect("the save writes"), bytes, "{version:?}");
    }
}

#[test]
fn an_edit_round_trip_touches_only_the_edited_records() {
    let (mut file, bytes) = open(PesVersion::Pes17);
    file.player_mut(70101).expect("player").basic.age = 33;
    file.player_mut(70101).expect("player").name = "EDITED".to_string();
    file.team_mut(701).expect("team").tactics.set_pieces.captain = 4;
    let out = file.to_bytes(&test_salt()).expect("the save writes");
    let back = EditFile::from_bytes(&out, &keys(), schemas()).expect("the save reopens");
    let p = back.player(70101).expect("player");
    assert_eq!(p.basic.age, 33);
    assert_eq!(p.name, "EDITED");
    assert_eq!(back.team(701).expect("team").tactics.set_pieces.captain, 4);
    for (a, b) in file.players().iter().zip(back.players()) {
        assert_eq!(a, b, "player {}", a.id);
    }
    for (a, b) in file.teams().iter().zip(back.teams()) {
        assert_eq!(a, b, "team {}", a.id);
    }
    let old_payload = SaveContainer::decrypt(&bytes, &keys()).expect("decrypt").payload;
    let new_payload = SaveContainer::decrypt(&out, &keys()).expect("decrypt").payload;
    let ranges = [(PLAYERS_AT, PLAYER_SIZE), (TACTICS_AT, TACTIC_SIZE)];
    assert_eq!(old_payload.len(), new_payload.len());
    let diffs: Vec<usize> = (0..old_payload.len())
        .filter(|&i| old_payload[i] != new_payload[i])
        .collect();
    assert!(!diffs.is_empty(), "the edit changed something");
    for i in diffs {
        assert!(
            ranges.iter().any(|(at, size)| i >= *at && i < at + size),
            "payload byte {i} changed outside the edited records"
        );
    }
    // Through the slices too.
    file.players_mut()[3].basic.age = 40;
    file.teams_mut()[1].name = "KOR".to_string();
    let out = file.to_bytes(&test_salt()).expect("writes");
    let back = EditFile::from_bytes(&out, &keys(), schemas()).expect("reopens");
    assert_eq!(back.players()[3].basic.age, 40);
    assert_eq!(back.teams()[1].name, "KOR");
}

#[test]
fn a_name_too_long_for_its_field_is_a_codec_error() {
    let (mut file, _) = open(PesVersion::Pes21);
    file.player_mut(70102).expect("player").name = "A NAME TOO LONG".to_string();
    assert!(matches!(
        file.to_bytes(&test_salt()),
        Err(SaveError::Codec(CodecError::Text { .. }))
    ));
}

fn with_payload(version: PesVersion, edit: impl Fn(&mut Vec<u8>)) -> Vec<u8> {
    let mut c = container(version);
    edit(&mut c.payload);
    c.to_bytes(&test_salt()).expect("encodes")
}

#[test]
fn layout_errors() {
    let schemas = schemas();
    // Garbage is not a container.
    assert!(matches!(
        EditFile::from_bytes(&[0u8; 500], &keys(), schemas),
        Err(SaveError::Container(ContainerError::Unrecognized))
    ));
    // A player count past the payload.
    let bytes = with_payload(PesVersion::Pes18, |p| p[0] = 200);
    match EditFile::from_bytes(&bytes, &keys(), schemas) {
        Err(SaveError::Layout { section: "players", detail: LayoutDetail::PastPayload { count: 200, size: 44, end, len } }) => {
            assert_eq!(end, PLAYERS_AT + 200 * PLAYER_SIZE);
            assert_eq!(len, PAYLOAD_SIZE);
        }
        other => panic!("{:?}", other.err()),
    }
    // A payload too short for the count field.
    let bytes = with_payload(PesVersion::Pes18, |p| p.truncate(1));
    assert!(matches!(
        EditFile::from_bytes(&bytes, &keys(), schemas),
        Err(SaveError::Layout { section: "players", detail: LayoutDetail::CountPastPayload { count_offset: 0, len: 1 } })
    ));
    // A roster section of another length.
    let bytes = with_payload(PesVersion::Pes18, |p| p[4] = 1);
    assert!(matches!(
        EditFile::from_bytes(&bytes, &keys(), schemas),
        Err(SaveError::Layout { section: "rosters", detail: LayoutDetail::CountMismatch { records: 1, teams: 2 } })
    ));
    // Tactics records in the other order, then one with an unknown id.
    let bytes = with_payload(PesVersion::Pes18, |p| {
        let (a, b) = (TACTICS_AT, TACTICS_AT + TACTIC_SIZE);
        for k in 0..TACTIC_SIZE {
            p.swap(a + k, b + k);
        }
    });
    assert!(matches!(
        EditFile::from_bytes(&bytes, &keys(), schemas),
        Err(SaveError::Layout { section: "tactics", detail: LayoutDetail::OrderMismatch { index: 0, id: 702, expected: 701 } })
    ));
    let bytes = with_payload(PesVersion::Pes18, |p| p[ROSTERS_AT] = 9);
    assert!(matches!(
        EditFile::from_bytes(&bytes, &keys(), schemas),
        Err(SaveError::RecordId { section: "rosters", .. })
    ));
    // A player name that is not UTF-8.
    let bytes = with_payload(PesVersion::Pes18, |p| p[PLAYERS_AT + 5] = 0xFF);
    assert!(matches!(
        EditFile::from_bytes(&bytes, &keys(), schemas),
        Err(SaveError::Codec(CodecError::Text { .. }))
    ));
}

#[test]
fn compare_pairs_by_id_and_reports_unmatched() {
    let (a, _) = open(PesVersion::Pes16);
    let (b, _) = open(PesVersion::Pes16);
    let diff = compare(&a, &b).expect("same save");
    assert!(diff.players.is_empty());
    assert!(diff.only_in_a.is_empty());
    assert!(diff.only_in_b.is_empty());

    let mut b = b;
    b.player_mut(70102).expect("in b").basic.age += 1;
    let renamed = 70201;
    assert!(b.player(renamed).is_some());
    let new_id = 999999;
    assert!(a.player(new_id).is_none());
    b.player_mut(renamed).expect("in b").id = new_id;

    let diff = compare(&a, &b).expect("compares");
    assert_eq!(diff.players.len(), 1);
    assert_eq!(diff.players[0].0, 70102);
    assert_eq!(
        diff.players[0].1,
        [PlayerDiff::Field {
            field: PlayerField::Age,
            old: a.player(70102).expect("in a").basic.age.into(),
            new: b.player(70102).expect("in b").basic.age.into(),
        }]
    );
    assert_eq!(diff.only_in_a, [renamed]);
    assert_eq!(diff.only_in_b, [new_id]);
}

#[test]
fn compare_refuses_a_version_mismatch() {
    let (a, _) = open(PesVersion::Pes16);
    let (b, _) = open(PesVersion::Pes17);
    assert!(matches!(
        compare(&a, &b),
        Err(CompareError::VersionMismatch { a: PesVersion::Pes16, b: PesVersion::Pes17 })
    ));
}

#[test]
fn the_layout_table_check_accepts_a_whole_table_and_refuses_gaps() {
    assert!(schemas_cover_every_version(schemas()));
    // A version without a layout.
    assert!(!schemas_cover_every_version(&schemas()[1..]));
    // A run that starts past the record's end.
    let mut table: Vec<VersionSchema> = VERSIONS.iter().map(|&v| schema(v)).collect();
    table[1].player.fields.push(FieldSpec {
        field: PlayerField::Height,
        bit_offset: (PLAYER_SIZE as u32 + 1) * 8,
        bit_width: 8,
    });
    assert!(!schemas_cover_every_version(&table));
    // An ingame-face run that ends past the record's end.
    let mut table: Vec<VersionSchema> = VERSIONS.iter().map(|&v| schema(v)).collect();
    table[2].player.ingame_face = Some(FaceRun { byte_offset: FACE_AT, len: FACE_LEN + 1 });
    assert!(!schemas_cover_every_version(&table));
    // A run wider than 32 bits.
    let mut table: Vec<VersionSchema> = VERSIONS.iter().map(|&v| schema(v)).collect();
    table[6].team.fields[0].bit_width = 33;
    assert!(!schemas_cover_every_version(&table));
    // A text past the record's end.
    let mut table: Vec<VersionSchema> = VERSIONS.iter().map(|&v| schema(v)).collect();
    table[3].team.texts[0].len = 13;
    assert!(!schemas_cover_every_version(&table));
    // A roster record too short for its id.
    let mut table: Vec<VersionSchema> = VERSIONS.iter().map(|&v| schema(v)).collect();
    table[2].roster.size = 3;
    table[2].roster.fields.clear();
    table[2].roster.arrays.clear();
    assert!(!schemas_cover_every_version(&table));
}
