use pes_savefile::codec::{write_player, write_tactics, CodecError};
use pes_savefile::container::{MasterKey, SaveContainer, Scheme};
use pes_savefile::interchange::texport::{
    OldTexport, Texport, TexportError, TexportLayout, TexportTables, BLOCK, COACH, HEADER, KEY, TAIL,
};
use pes_savefile::model::player::PlayerEntry;
use pes_savefile::model::team::{RosterSlot, TeamEntry};
use pes_savefile::schema::{
    ArraySpec, FieldSpec, FormationLayout, PlayerField, PlayerText, PresetField, PresetSpec,
    RecordSchema, RosterField, SectionLayout, TacticsField, TacticsSchema, TeamField, TeamText,
    TextSpec, VersionSchema,
};
use pes_savefile::version::PesVersion;

const VERSIONS: [PesVersion; 7] = [
    PesVersion::Pes15,
    PesVersion::Pes16,
    PesVersion::Pes17,
    PesVersion::Pes18,
    PesVersion::Pes19,
    PesVersion::Pes20,
    PesVersion::Pes21,
];

const PLAYER_SIZE: usize = 20;
const APPEARANCE_SIZE: usize = 8;
const TEAM_SIZE: usize = 16;
const ROSTER_SIZE: usize = 24;
const TACTIC_SIZE: usize = 305;
const WIDTH: usize = 3;

fn keys() -> Vec<MasterKey> {
    VERSIONS[1..]
        .iter()
        .enumerate()
        .map(|(k, &version)| MasterKey {
            version,
            effective: std::array::from_fn(|i| (i * 13 + k * 41 + 5) as u8),
        })
        .collect()
}

fn test_salt() -> [u8; 320] {
    std::array::from_fn(|i| (i % 251) as u8 + 1)
}

/// PES 15/16 keep boots in an appearance record after each player record.
fn split(version: PesVersion) -> bool {
    matches!(version, PesVersion::Pes15 | PesVersion::Pes16)
}

fn schema(version: PesVersion) -> VersionSchema {
    let appearance = split(version).then(|| {
        (
            SectionLayout { offset: 0, count_offset: 0 },
            RecordSchema {
                size: APPEARANCE_SIZE,
                fields: vec![FieldSpec { field: PlayerField::BootsId, bit_offset: 32, bit_width: 14 }],
                arrays: vec![],
                texts: vec![],
                ingame_face: None,
            },
        )
    });
    VersionSchema {
        version,
        players: SectionLayout { offset: 0, count_offset: 0 },
        player: RecordSchema {
            size: PLAYER_SIZE,
            fields: vec![
                FieldSpec { field: PlayerField::Id, bit_offset: 0, bit_width: 32 },
                FieldSpec { field: PlayerField::Age, bit_offset: 32, bit_width: 8 },
            ],
            arrays: vec![],
            texts: vec![
                TextSpec { text: PlayerText::Name, byte_offset: 5, len: 10 },
                TextSpec { text: PlayerText::ShirtName, byte_offset: 15, len: 5 },
            ],
            ingame_face: None,
        },
        appearance,
        teams: SectionLayout { offset: 0, count_offset: 0 },
        team: RecordSchema {
            size: TEAM_SIZE,
            fields: vec![FieldSpec { field: TeamField::Id, bit_offset: 0, bit_width: 32 }],
            arrays: vec![],
            texts: vec![TextSpec { text: TeamText::Name, byte_offset: 4, len: 12 }],
            ingame_face: None,
        },
        rosters: SectionLayout { offset: 0, count_offset: 0 },
        roster: RecordSchema {
            size: ROSTER_SIZE,
            fields: vec![FieldSpec { field: RosterField::TeamId, bit_offset: 0, bit_width: 32 }],
            arrays: vec![ArraySpec {
                field: RosterField::Player(0),
                count: WIDTH as u8,
                base_bit: 32,
                stride_bits: 32,
                bit_width: 32,
            }],
            texts: vec![],
            ingame_face: None,
        },
        tactics: SectionLayout { offset: 0, count_offset: 0 },
        tactic: TacticsSchema {
            size: TACTIC_SIZE,
            fields: vec![
                FieldSpec { field: TacticsField::TeamId, bit_offset: 0, bit_width: 32 },
                FieldSpec { field: TacticsField::Captain, bit_offset: 32, bit_width: 8 },
            ],
            arrays: vec![],
            presets: vec![PresetSpec { field: PresetField::SupportRange, bit_offset: 40 }],
            preset_stride_bits: 100 * 8,
            formations: FormationLayout {
                base_bit: 6 * 8,
                formation_stride_bits: 33 * 8,
                slot_stride_bits: 8,
                y_offset_bits: 11 * 8,
                x_offset_bits: 22 * 8,
                pair_stride_bits: 8,
            },
            instructions: None,
        },
    }
}

/// The size a `.ted` of `WIDTH` player records has under `schema`.
fn ted_size() -> usize {
    HEADER + TEAM_SIZE + COACH + ROSTER_SIZE + TACTIC_SIZE + BLOCK + WIDTH * PLAYER_SIZE + TAIL
}

fn layout(version: PesVersion, key_index: usize) -> TexportLayout {
    TexportLayout {
        version,
        size: ted_size(),
        key_index,
        header: std::array::from_fn(|i| b"Team Export"[i % 11]),
        coach: std::array::from_fn(|i| if i < 4 { 0 } else { i as u8 }),
        tail: std::array::from_fn(|i| 0xA0 + i as u8),
    }
}

/// PES 18 and 19 have sizes of their own in the game; here 18 and 19 differ
/// from 20 and 21 by a trailing player record, and 20 and 21 share a size
/// and differ by the key index.
fn tables() -> &'static TexportTables {
    let schemas: &'static [VersionSchema] =
        Box::leak(VERSIONS.iter().map(|&v| schema(v)).collect::<Vec<_>>().into_boxed_slice());
    let layouts: &'static [TexportLayout] = Box::leak(
        vec![
            TexportLayout { size: ted_size() + 2 * PLAYER_SIZE, ..layout(PesVersion::Pes18, 3) },
            TexportLayout { size: ted_size() + PLAYER_SIZE, ..layout(PesVersion::Pes19, 7) },
            layout(PesVersion::Pes20, 11),
            layout(PesVersion::Pes21, 29),
        ]
        .into_boxed_slice(),
    );
    let old: &'static [OldTexport] = Box::leak(
        VERSIONS[..3]
            .iter()
            .map(|&version| OldTexport { version, tactics_at: 0x40, players_at: 0x200 })
            .collect::<Vec<_>>()
            .into_boxed_slice(),
    );
    Box::leak(Box::new(TexportTables { schemas, layouts, old }))
}

fn player(id: u32, age: u8, name: &str) -> PlayerEntry {
    let mut p = PlayerEntry::default();
    p.id = id;
    p.basic.age = age;
    p.appearance.boots_id = 100 + id % 100;
    p.name = name.to_string();
    p.shirt_name = name.chars().take(4).collect();
    p
}

/// Team 701 with slots 1 and 3 filled, slot 2 empty.
fn team_and_players() -> (TeamEntry, Vec<PlayerEntry>) {
    let mut team = TeamEntry::default();
    team.id = 701;
    team.name = "Japan".to_string();
    team.roster = vec![
        RosterSlot { player_id: 70101, number: 0 },
        RosterSlot { player_id: 0, number: 0 },
        RosterSlot { player_id: 70103, number: 0 },
    ];
    team.tactics.set_pieces.captain = 2;
    for p in team.tactics.presets.iter_mut() {
        p.sliders.support_range = 5;
    }
    (team, vec![player(70101, 25, "LORD"), player(70103, 31, "FULP")])
}

fn ted(version: PesVersion) -> Vec<u8> {
    let (team, players) = team_and_players();
    Texport::new(version, team, players, &test_salt(), tables())
        .expect("synthesizes")
        .to_bytes(&test_salt())
        .expect("encodes")
}

#[test]
fn new_synthesizes_a_file_the_records_round_trip_through() {
    let (team, players) = team_and_players();
    for version in [PesVersion::Pes18, PesVersion::Pes19, PesVersion::Pes21] {
        let out = ted(version);
        let layout = tables().layouts.iter().find(|l| l.version == version).expect("a layout");
        assert_eq!(out.len(), layout.size, "{version:?}");
        // The header and key pass through the cipher.
        assert_eq!(&out[..KEY], &layout.header[..]);
        assert_eq!(&out[KEY..HEADER], &test_salt()[..32]);
        let back = Texport::from_bytes(&out, Some(version), &keys(), tables()).expect("reopens");
        assert_eq!(back.version(), version);
        let mut expected = team.clone();
        expected.roster = team.roster.clone();
        assert_eq!(back.team().name, "Japan");
        assert_eq!(back.team().id, 701);
        assert_eq!(back.team().tactics.set_pieces.captain, 2);
        assert_eq!(
            back.team().roster.iter().map(|s| s.player_id).collect::<Vec<_>>(),
            [70101, 0, 70103]
        );
        assert_eq!(back.players().len(), 2);
        for (a, b) in back.players().iter().zip(&players) {
            assert_eq!(a.id, b.id);
            assert_eq!(a.name, b.name);
            assert_eq!(a.basic.age, b.basic.age);
        }
        // Detection finds the same version from the bytes alone.
        let detected = Texport::from_bytes(&out, None, &keys(), tables()).expect("detects");
        assert_eq!(detected.version(), version);
        // Rewriting the unedited file gives its bytes back.
        assert_eq!(back.to_bytes(&test_salt()).expect("encodes"), out, "{version:?}");
    }
}

#[test]
fn new_refuses_players_out_of_roster_order() {
    let (team, mut players) = team_and_players();
    players.swap(0, 1);
    let err = Texport::new(PesVersion::Pes19, team, players, &test_salt(), tables())
        .err()
        .expect("order is the roster's");
    assert!(matches!(err, TexportError::RosterMismatch { slot: 0, roster: 70101, player: 70103 }), "{err:?}");

    let (team, mut players) = team_and_players();
    players.pop();
    let err = Texport::new(PesVersion::Pes19, team, players, &test_salt(), tables())
        .err()
        .expect("a slot lacks its player");
    assert!(matches!(err, TexportError::RosterMismatch { slot: 2, roster: 70103, player: 0 }), "{err:?}");

    let (team, mut players) = team_and_players();
    players.push(player(70199, 20, "EXTRA"));
    let err = Texport::new(PesVersion::Pes19, team, players, &test_salt(), tables())
        .err()
        .expect("a player past the roster");
    // PES 19's layout here holds one player record past the roster's three.
    assert!(matches!(err, TexportError::RosterMismatch { slot: 4, roster: 0, player: 70199 }), "{err:?}");
}

#[test]
fn new_has_no_template_for_15_to_17() {
    let (team, players) = team_and_players();
    assert!(matches!(
        Texport::new(PesVersion::Pes17, team, players, &test_salt(), tables()),
        Err(TexportError::NoTemplate(PesVersion::Pes17))
    ));
}

#[test]
fn edits_through_team_mut_and_players_mut_survive_the_round_trip() {
    let bytes = ted(PesVersion::Pes19);
    let original = Texport::from_bytes(&bytes, None, &keys(), tables()).expect("opens");
    let mut t = Texport::from_bytes(&bytes, None, &keys(), tables()).expect("opens");
    t.team_mut().name = "EDITED".to_string();
    t.players_mut()[0].basic.age = 99;
    let out = t.to_bytes(&test_salt()).expect("encodes");
    let back = Texport::from_bytes(&out, None, &keys(), tables()).expect("reopens");
    assert_eq!(back.team().name, "EDITED");
    assert_eq!(back.players()[0].basic.age, 99);
    let mut expected_team = original.team().clone();
    expected_team.name = "EDITED".to_string();
    assert_eq!(back.team(), &expected_team);
    let mut expected_players = original.players().to_vec();
    expected_players[0].basic.age = 99;
    assert_eq!(back.players(), &expected_players[..]);
}

/// XOR with the 32-byte key at 0x30 from `key_index`, wrapping at 32.
fn crypt(bytes: &[u8], key_index: usize) -> Vec<u8> {
    let mut out = bytes.to_vec();
    let mut k = key_index;
    for i in HEADER..out.len() {
        out[i] ^= bytes[KEY + k];
        k = (k + 1) % 32;
    }
    out
}

#[test]
fn a_shared_size_with_disagreeing_ids_is_unknown() {
    let bytes = ted(PesVersion::Pes21);
    // The bytes fit 21's key index only: detection picks it.
    let t = Texport::from_bytes(&bytes, None, &keys(), tables()).expect("detects");
    assert_eq!(t.version(), PesVersion::Pes21);

    let roster_at = HEADER + TEAM_SIZE + COACH;
    let mut plain = crypt(&bytes, 29);
    plain[roster_at] ^= 0xff;
    let corrupt = crypt(&plain, 29);
    assert!(matches!(
        Texport::from_bytes(&corrupt, None, &keys(), tables()),
        Err(TexportError::UnknownVersion)
    ));

    // Only the team record's id corrupted: roster and tactics still agree
    // with each other, so agreement must be of all three.
    let mut plain = crypt(&bytes, 29);
    plain[HEADER] ^= 0xff;
    let corrupt = crypt(&plain, 29);
    assert!(matches!(
        Texport::from_bytes(&corrupt, None, &keys(), tables()),
        Err(TexportError::UnknownVersion)
    ));
}

#[test]
fn pes20s_derived_size_refuses_the_19_file() {
    let bytes = ted(PesVersion::Pes19);
    let err = Texport::from_bytes(&bytes, Some(PesVersion::Pes20), &keys(), tables())
        .err()
        .expect("refused");
    assert!(
        matches!(err, TexportError::WrongSize { version: PesVersion::Pes20, expected, actual }
            if expected == ted_size() && actual == bytes.len()),
        "{err:?}"
    );
}

fn old_container(version: PesVersion, payload: Vec<u8>) -> SaveContainer {
    let mut description = b"Team Export Data 01".to_vec();
    description.resize(384, 0);
    let key = *keys().iter().find(|k| k.version == version).expect("a key");
    SaveContainer {
        scheme: Scheme::Keyed(key),
        description,
        logo: Vec::new(),
        payload,
        identifier: vec![0; key.header_size() - 80],
        serial: Vec::new(),
    }
}

#[test]
fn a_synthesized_pes16_texport_round_trips_through_the_old_path() {
    let s = schema(PesVersion::Pes16);
    let stride = PLAYER_SIZE + APPEARANCE_SIZE;
    let (team, _) = team_and_players();
    let rostered = [player(70101, 25, "LORD"), player(70102, 28, "PEP"), player(70103, 31, "FULP")];
    let mut payload = vec![0u8; 0x200 + 40 * stride + 64];
    write_tactics(&team, &mut payload[0x40..0x40 + TACTIC_SIZE], &s.tactic).expect("tactics write");
    for (i, p) in rostered.iter().enumerate() {
        let at = 0x200 + i * stride;
        write_player(p, &mut payload[at..at + PLAYER_SIZE], &s.player).expect("player write");
        let (_, appearance) = s.appearance.as_ref().expect("a split record");
        write_player(p, &mut payload[at + PLAYER_SIZE..at + stride], appearance).expect("appearance write");
    }
    // A trailing record whose id is not the next consecutive id: the reader
    // stops at the run's end.
    let at = 0x200 + rostered.len() * stride;
    write_player(&rostered[0], &mut payload[at..at + PLAYER_SIZE], &s.player).expect("stray write");

    let bytes = old_container(PesVersion::Pes16, payload).to_bytes(&test_salt()).expect("encodes");
    let t = Texport::from_bytes(&bytes, None, &keys(), tables()).expect("opens");
    assert_eq!(t.version(), PesVersion::Pes16);
    assert_eq!(t.team().id, 701);
    assert!(t.team().roster.is_empty());
    assert_eq!(t.team().tactics.set_pieces.captain, 2);
    assert_eq!(t.players().len(), rostered.len());
    for (a, b) in t.players().iter().zip(&rostered) {
        assert_eq!(a.id, b.id);
        assert_eq!(a.name, b.name);
        assert_eq!(a.appearance.boots_id, b.appearance.boots_id);
    }
    assert_eq!(t.to_bytes(&test_salt()).expect("encodes"), bytes);
}

#[test]
fn a_save_shorter_than_the_old_offsets_is_an_error_not_a_panic() {
    let bytes = old_container(PesVersion::Pes17, vec![0u8; 0x100]).to_bytes(&test_salt()).expect("encodes");
    let err = Texport::from_bytes(&bytes, None, &keys(), tables()).err().expect("not a texport");
    assert!(
        matches!(err, TexportError::Codec(CodecError::RecordSize { expected: TACTIC_SIZE, got: 0xC0 })),
        "{err:?}"
    );
}

#[test]
fn garbage_is_an_unknown_version_and_a_named_old_version_a_container_error() {
    assert!(matches!(
        Texport::from_bytes(&[7u8; 900], None, &keys(), tables()),
        Err(TexportError::UnknownVersion)
    ));
    assert!(matches!(
        Texport::from_bytes(&[7u8; 900], Some(PesVersion::Pes16), &keys(), tables()),
        Err(TexportError::Container(_))
    ));
}
