use std::collections::BTreeMap;

use pes_savefile::interchange::team_toml::player::{emit_player, emit_players};
use pes_savefile::interchange::team_toml::player_keys::{Kind, LabelList, PlayerKey};
use pes_savefile::interchange::team_toml::{
    PlayerSection, TacticsSection, TeamSection, TeamToml, TeamTomlError,
};
use pes_savefile::model::playstyle::PlayStyle;
use pes_savefile::model::tactics::FormationSlot;
use pes_savefile::schema::PlayerField;
use pes_savefile::version::PesVersion;

fn section() -> PlayerSection {
    let mut s = PlayerSection::default();
    s.name = Some("Kazu".to_string());
    s.number = Some(11);
    s.age = Some(25);
    s.ingame_face = Some(vec![0x0a, 0xff]);
    s.stats.finishing = Some(88);
    s.positions.registered = Some(12);
    s.positions.playable = Some([3, 2, 1, 0, 0, 0, 0, 0, 0, 0, 0, 0, 0]);
    s.positions.playing_style = Some(PlayStyle::GoalPoacher);
    s.positions.stronger_foot = Some(1);
    let mut skills = [false; 41];
    skills[0] = true;
    skills[2] = true;
    s.skills.skills = Some(skills);
    s.edit_flags.player = Some(true);
    s
}

#[test]
fn the_key_table_gives_each_keys_path_kind_field_and_comment() {
    assert_eq!(PlayerKey::ALL.len(), 53);
    let star = PlayerKey::Star.spec();
    assert_eq!(star.path, "stats.star");
    assert_eq!(star.kind, Kind::Stored);
    assert_eq!(star.field, PlayerField::Star);
    assert_eq!(star.comment, "PES 19+, 0-7 stored");
    assert_eq!((PlayerKey::Star.table(), PlayerKey::Star.name()), ("stats", "star"));
    assert_eq!((PlayerKey::Age.table(), PlayerKey::Age.name()), ("", "age"));
    assert_eq!(PlayerKey::EditedBaseCopy.spec().field, PlayerField::BaseCopy);
    assert_eq!(PlayerKey::StrongerHand.spec().kind, Kind::Label(LabelList::Foot));
    assert_eq!(PlayerKey::Registered.text(12).expect("CF"), "\"CF\"");
    assert_eq!(PlayerKey::EditedFace.text(1).expect("bool"), "true");
    assert_eq!(PlayerKey::BootsId.text(4_000_000).expect("u32"), "4000000");
    assert_eq!(PlayerKey::Speed.neutral(), "40");
    assert_eq!(PlayerKey::StrongerFoot.neutral(), "\"right\"");
    match PlayerKey::StrongerFoot.text(2) {
        Err(TeamTomlError::OutOfRange { key, value, range }) => {
            assert_eq!((key.as_str(), value, range.as_str()), ("positions.stronger_foot", 2, "\"right\", \"left\""));
        }
        other => panic!("{other:?}"),
    }
}

#[test]
fn a_key_the_version_lacks_emits_its_commented_neutral_line() {
    // The section holds no star (a PES 18 player): `# star = 0`.
    let mut out = String::new();
    emit_player(&mut out, 1, &section()).expect("every label named");
    let line = out.lines().find(|line| line.contains("star =")).expect("a star line");
    assert!(line.starts_with("# star = 0"), "{line}");
    assert!(line.contains("# PES 19+, 0-7 stored"), "{line}");
}

#[test]
fn a_player_table_writes_every_key_in_the_formats_order() {
    let mut out = String::new();
    emit_player(&mut out, 7, &section()).expect("every label named");
    let lines: Vec<&str> = out.lines().collect();
    assert_eq!(lines[0], "");
    assert_eq!(lines[1], format!("[players.07]{}# roster slot 01 .. 40 (32 on PES 15-18)", " ".repeat(20)));
    assert_eq!(lines[2], "name = \"Kazu\"");
    assert_eq!(lines[3], "# shirt_name = \"\"");
    assert!(lines[4].starts_with("number = 11") && lines[4].ends_with("# shirt number, the roster's"));
    assert_eq!(lines[5], "# nationality = 0");
    assert_eq!(lines[6], "age = 25");
    assert!(out.contains("\ningame_face = \"0aff\" "));
    assert!(out.contains("applied before [players.07.appearance]\n"));
    assert!(out.contains("\n[players.07.stats]\n# attacking_prowess = 40\n"));
    assert!(out.contains("\nfinishing = 88\n"));
    assert!(out.contains("\n[players.07.positions]\nregistered = \"CF\" "));
    assert!(out.contains("\nplayable = { CF = \"A\", SS = \"B\", RWF = \"C\", LWF = \"none\""));
    assert!(out.contains("\nplaying_style = \"goal_poacher\" "));
    assert!(out.contains("\nstronger_foot = \"left\" "));
    assert!(out.contains("\n# stronger_hand = \"right\" "));
    assert!(out.contains("\n[players.07.skills]\nskills = [\"scissors_feint\", "));
    assert!(out.contains("\n# com_styles = [] "));
    assert!(out.contains("\n[players.07.edit_flags]         # the game's own flags, all bool\nplayer = true\n"));
    assert!(out.ends_with("\n# strip = false\n"));
}

#[test]
fn a_label_past_its_list_is_refused_after_the_text_before_it() {
    let mut s = section();
    s.positions.stronger_foot = Some(2);
    let mut out = String::from("keep");
    match emit_player(&mut out, 3, &s) {
        Err(TeamTomlError::OutOfRange { key, value, range }) => {
            assert_eq!(key, "positions.stronger_foot");
            assert_eq!(value, 2);
            assert_eq!(range, "\"right\", \"left\"");
        }
        other => panic!("{other:?}"),
    }
    assert!(out.starts_with("keep\n[players.03]"));
    assert!(out.contains("\nplaying_style = \"goal_poacher\" "));
    assert!(!out.contains("stronger_foot"));

    let mut s = section();
    s.positions.registered = Some(13);
    let mut out = String::new();
    assert!(matches!(emit_player(&mut out, 3, &s), Err(TeamTomlError::OutOfRange { value: 13, .. })));
    assert!(out.ends_with("\n[players.03.positions]\n"));
}

#[test]
fn the_document_writes_the_version_the_tables_and_the_players_in_slot_order() {
    let mut players = BTreeMap::new();
    players.insert(12u8, section());
    players.insert(3u8, section());
    let doc = TeamToml {
        pes_version: Some(PesVersion::Pes19),
        team: TeamSection::default(),
        tactics: TacticsSection::default(),
        players,
    };
    let text = doc.to_toml().expect("to_toml");
    assert!(text.starts_with(&format!(
        "pes_version = 19{}# the save this was written from; import into another version converts\n\n[team]\n",
        " ".repeat(16)
    )));
    let first = text.find("[players.03]").expect("slot 3");
    let second = text.find("[players.12]").expect("slot 12");
    assert!(first < second);
    assert!(text.contains("\n[tactics]\n"));

    let unversioned = TeamToml { pes_version: None, ..doc.clone() };
    assert!(unversioned.to_toml().expect("to_toml").starts_with("# pes_version = 19 "));

    let mut bad = doc.clone();
    bad.players.get_mut(&3).expect("slot 3").positions.registered = Some(20);
    assert!(matches!(bad.to_toml(), Err(TeamTomlError::OutOfRange { value: 20, .. })));
    bad.tactics.presets[0].formations[0] = Some([FormationSlot { position: 14, x: 0, y: 0 }; 11]);
    assert!(matches!(bad.to_toml(), Err(TeamTomlError::OutOfRange { value: 14, .. })), "tactics first");
}

#[test]
fn the_players_tables_follow_one_another() {
    let mut players = BTreeMap::new();
    players.insert(2u8, section());
    let mut out = String::new();
    emit_players(&mut out, &players).expect("every label named");
    let mut single = String::new();
    emit_player(&mut single, 2, &section()).expect("every label named");
    assert_eq!(out, single);
}
