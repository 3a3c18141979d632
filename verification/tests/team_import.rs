use pes_savefile::interchange::team_toml::team::{
    apply_tactics, apply_team, apply_team_tables, encode_side, gated,
};
use pes_savefile::interchange::team_toml::{
    ImportNote, InstructionEntry, InstructionsSection, TacticsSection, TeamSection, TeamTomlError,
};
use pes_savefile::model::instruction::Instruction;
use pes_savefile::interchange::team_toml::emit::{emit_tactics, emit_team};
use pes_savefile::model::tactics::{AdvancedInstruction, FormationSlot};
use pes_savefile::model::team::{TeamColor, TeamEntry};
use pes_savefile::schema::{
    ArraySpec, FieldSpec, FormationLayout, InstructionLayout, PresetField, PresetSpec, RecordSchema,
    TacticsField, TacticsSchema, TeamField, TeamText,
};

fn team_schema(fields: &[TeamField]) -> RecordSchema<TeamField, TeamText> {
    RecordSchema {
        size: 64,
        fields: fields
            .iter()
            .enumerate()
            .map(|(k, f)| FieldSpec { field: *f, bit_offset: 8 * k as u32, bit_width: 8 })
            .collect(),
        arrays: vec![],
        texts: vec![],
        ingame_face: None,
    }
}

fn tactics_schema(
    fields: &[TacticsField],
    presets: &[PresetField],
    instructions: bool,
) -> TacticsSchema {
    TacticsSchema {
        size: 512,
        fields: fields
            .iter()
            .enumerate()
            .map(|(k, f)| FieldSpec { field: *f, bit_offset: 8 * k as u32, bit_width: 8 })
            .collect(),
        arrays: vec![
            ArraySpec {
                field: TacticsField::Starting(0),
                count: 11,
                base_bit: 800,
                stride_bits: 8,
                bit_width: 8,
            },
            ArraySpec {
                field: TacticsField::Bench(0),
                count: 21,
                base_bit: 888,
                stride_bits: 8,
                bit_width: 8,
            },
        ],
        presets: presets
            .iter()
            .enumerate()
            .map(|(k, f)| PresetSpec { field: *f, bit_offset: 8 * k as u32 })
            .collect(),
        preset_stride_bits: 1000,
        formations: FormationLayout {
            base_bit: 200,
            formation_stride_bits: 264,
            slot_stride_bits: 8,
            y_offset_bits: 88,
            x_offset_bits: 176,
            pair_stride_bits: 8,
        },
        instructions: if instructions {
            Some(InstructionLayout {
                base_bit: 900,
                side_stride_bits: 32,
                index_stride_bits: 16,
                part_stride_bits: 8,
            })
        } else {
            None
        },
    }
}

/// PES 17's instructions in stored order: the first thirteen of the
/// canonical order.
fn pes17_table() -> Vec<Instruction> {
    Instruction::ALL[..13].to_vec()
}

fn base_team() -> TeamEntry {
    let mut team = TeamEntry::default();
    team.id = 101;
    team.name = "Kanto".to_string();
    team.tactics.set_pieces.penalty = 9;
    team
}

#[test]
fn a_one_key_document_changes_exactly_that_key() {
    let team_section = TeamSection::default();
    let mut tactics_section = TacticsSection::default();
    tactics_section.set_pieces.penalty = Some(3);
    let tactics = tactics_schema(&[TacticsField::PenaltyTaker], &[], true);
    let mut target = base_team();
    let notes = apply_team_tables(
        &team_section,
        &tactics_section,
        &team_schema(&[]),
        &tactics,
        &pes17_table(),
        false,
        &mut target,
    )
    .expect("applies");
    assert!(notes.is_empty());
    let mut expected = base_team();
    expected.tactics.set_pieces.penalty = 3;
    assert_eq!(target, expected);
}

#[test]
fn an_empty_document_changes_nothing() {
    let mut target = base_team();
    let notes = apply_team_tables(
        &TeamSection::default(),
        &TacticsSection::default(),
        &team_schema(&[]),
        &tactics_schema(&[], &[], false),
        &[],
        false,
        &mut target,
    )
    .expect("applies");
    assert!(notes.is_empty());
    assert_eq!(target, base_team());
}

#[test]
fn a_version_gated_team_field_is_a_note_across_versions_and_an_error_within() {
    let mut section = TeamSection::default();
    section.manager_id = Some(5);
    let schema = team_schema(&[TeamField::Id]);
    let tactics = tactics_schema(&[], &[], false);

    let mut target = base_team();
    let notes = apply_team_tables(
        &section,
        &TacticsSection::default(),
        &schema,
        &tactics,
        &[],
        true,
        &mut target,
    )
    .expect("note, not error");
    assert_eq!(
        notes,
        vec![ImportNote::NotInThisVersion { path: "team.manager_id".to_string() }]
    );
    assert_eq!(target, base_team());

    let mut target = base_team();
    let err = apply_team_tables(
        &section,
        &TacticsSection::default(),
        &schema,
        &tactics,
        &[],
        false,
        &mut target,
    )
    .expect_err("hard error");
    assert!(
        matches!(&err, TeamTomlError::NotInThisVersion { path } if path == "team.manager_id"),
        "{err:?}"
    );
    assert_eq!(target, base_team());
}

#[test]
fn a_refused_tactics_key_leaves_the_team_keys_unwritten_too() {
    let mut team_section = TeamSection::default();
    team_section.name = Some("Johto".to_string());
    let mut tactics_section = TacticsSection::default();
    tactics_section.presets[1].style.fluid = Some(true);
    let tactics = tactics_schema(&[], &[PresetField::AttackingStyle], true);
    let mut target = base_team();
    let err = apply_team_tables(
        &team_section,
        &tactics_section,
        &team_schema(&[]),
        &tactics,
        &pes17_table(),
        false,
        &mut target,
    )
    .expect_err("hard error");
    assert!(
        matches!(&err, TeamTomlError::NotInThisVersion { path } if path == "tactics.preset_2.style.fluid"),
        "{err:?}"
    );
    assert_eq!(target, base_team());

    let notes = apply_team_tables(
        &team_section,
        &tactics_section,
        &team_schema(&[]),
        &tactics,
        &pes17_table(),
        true,
        &mut target,
    )
    .expect("a note across versions");
    assert_eq!(
        notes,
        vec![ImportNote::NotInThisVersion { path: "tactics.preset_2.style.fluid".to_string() }]
    );
    assert_eq!(target.name, "Johto");
    assert_eq!(target.tactics.presets[1].style.fluid, None);
}

#[test]
fn an_unencodable_instruction_is_a_note_and_no_table_is_silent() {
    let mut section = TacticsSection::default();
    section.presets[0].instructions = Some(InstructionsSection {
        attack: [
            InstructionEntry { instruction: Instruction::WingBack, player: 2 },
            InstructionEntry { instruction: Instruction::Off, player: 0 },
        ],
        defence: [
            InstructionEntry { instruction: Instruction::Off, player: 0 },
            InstructionEntry { instruction: Instruction::Off, player: 0 },
        ],
    });

    let mut target = base_team();
    let mut notes = Vec::new();
    apply_tactics(
        &section,
        &tactics_schema(&[], &[], true),
        &pes17_table(),
        true,
        &mut target,
        &mut notes,
    )
    .expect("applies");
    assert_eq!(
        notes,
        vec![ImportNote::NotEncodable {
            path: "tactics.preset_1.instructions.attack".to_string(),
            label: "wing_back".to_string(),
        }]
    );
    let stored = target.tactics.presets[0].attack_instructions.expect("instructions written");
    assert_eq!(stored[0].instruction, 0, "wing_back fell back to Off");
    assert_eq!(stored[0].player, 2);
    assert_eq!(
        target.tactics.presets[0].defence_instructions,
        Some([AdvancedInstruction { instruction: 0, player: 0 }; 2])
    );

    let mut target = base_team();
    let mut notes = Vec::new();
    apply_tactics(
        &section,
        &tactics_schema(&[], &[], false),
        &[],
        true,
        &mut target,
        &mut notes,
    )
    .expect("applies");
    assert!(notes.is_empty(), "{notes:?}");
    assert!(target.tactics.presets[0].attack_instructions.is_none());
}

#[test]
fn an_instruction_is_stored_as_its_position_in_the_versions_table() {
    let table = pes17_table();
    let mut notes = Vec::new();
    let stored = encode_side(
        &table,
        [
            InstructionEntry { instruction: Instruction::HugTheTouchline, player: 7 },
            InstructionEntry { instruction: Instruction::CounterTarget, player: 0 },
        ],
        &mut notes,
        "tactics.preset_3.instructions.defence",
    );
    assert!(notes.is_empty());
    assert_eq!(
        stored,
        [
            AdvancedInstruction { instruction: 1, player: 7 },
            AdvancedInstruction { instruction: 12, player: 0 },
        ]
    );
}

#[test]
fn a_colour_on_a_team_without_colours_starts_from_black() {
    let mut section = TeamSection::default();
    section.color_2 = Some(TeamColor { red: 10, green: 20, blue: 30 });
    let mut target = base_team();
    let mut notes = Vec::new();
    apply_team(
        &section,
        &team_schema(&[TeamField::Color1Red, TeamField::Color2Red]),
        false,
        &mut target,
        &mut notes,
    )
    .expect("applies");
    assert!(notes.is_empty());
    assert_eq!(
        target.colors,
        Some([
            TeamColor { red: 0, green: 0, blue: 0 },
            TeamColor { red: 10, green: 20, blue: 30 },
        ])
    );
}

#[test]
fn array_fields_are_stored_through_their_first_element() {
    let mut section = TacticsSection::default();
    section.starting_eleven = Some([1, 2, 3, 4, 5, 6, 7, 8, 9, 10, 11]);
    section.bench_order = Some([0; 21]);
    section.presets[2].sliders.compactness = Some(7);
    section.presets[2].style.pressure = Some(true);
    let schema = tactics_schema(&[], &[PresetField::Compactness, PresetField::Pressure], false);
    let mut target = base_team();
    let mut notes = Vec::new();
    apply_tactics(&section, &schema, &[], false, &mut target, &mut notes).expect("applies");
    assert!(notes.is_empty());
    assert_eq!(target.tactics.starting_eleven, [1, 2, 3, 4, 5, 6, 7, 8, 9, 10, 11]);
    assert_eq!(target.tactics.presets[2].sliders.compactness, 7);
    assert!(target.tactics.presets[2].style.pressure);
    assert_eq!(target.tactics.presets[0], base_team().tactics.presets[0]);
}

#[test]
fn a_key_the_target_lacks_is_kept_skipped_or_refused() {
    let mut notes = Vec::new();
    assert!(matches!(gated(&mut notes, false, true, "a.b"), Ok(true)));
    assert!(notes.is_empty());
    assert!(matches!(gated(&mut notes, true, false, "a.b"), Ok(false)));
    assert_eq!(notes, vec![ImportNote::NotInThisVersion { path: "a.b".to_string() }]);
    let err = gated(&mut notes, false, false, "c.d").expect_err("refused");
    assert!(matches!(&err, TeamTomlError::NotInThisVersion { path } if path == "c.d"));
    assert_eq!(notes.len(), 1);
}

#[test]
fn the_tactics_text_writes_one_line_per_key_with_aligned_comments() {
    let mut section = TacticsSection::default();
    section.players_to_join_attack = Some([1, 2, 3]);
    section.set_pieces.penalty = Some(3);
    section.presets[0].style.buildup = Some(true);
    section.presets[0].formations[0] =
        Some([FormationSlot { position: 0, x: 5, y: 7 }; 11]);
    section.presets[1].instructions = Some(InstructionsSection {
        attack: [
            InstructionEntry { instruction: Instruction::WingBack, player: 2 },
            InstructionEntry { instruction: Instruction::Off, player: 0 },
        ],
        defence: [InstructionEntry { instruction: Instruction::Off, player: 0 }; 2],
    });
    let mut out = "pes_version = 19\n".to_string();
    emit_tactics(&mut out, &section).expect("every position is named");
    let lines: Vec<&str> = out.lines().collect();
    assert_eq!(lines[0], "pes_version = 19");
    assert_eq!(lines[2], "[tactics]");
    assert_eq!(lines[3], "# starting_eleven = []");
    assert_eq!(lines[5], "players_to_join_attack = [1, 2, 3] # roster slots; 255 = none");
    assert!(out.contains("\n# free_kick_long = 255".to_string().as_str()));
    assert!(out.contains("\npenalty = 3                     # roster slots; 255 = none\n"));
    assert!(out.contains(
        "\n[tactics.preset_1.style]\n# attacking_style = \"counter_attack\" # \"counter_attack\" | \"possession\"\n"
    ));
    assert!(out.contains("\nbuildup = \"short_pass\"          # \"long_pass\" | \"short_pass\"\n"));
    assert!(out.contains("\n# support_range = 1               # 1 to 10\n"));
    assert!(out.contains(
        "\n[tactics.preset_1.formation_1]\nplayers = [\n    { position = \"GK\", x = 5, y = 7 },\n"
    ));
    assert_eq!(out.matches("    { position = \"GK\", x = 5, y = 7 },\n").count(), 11);
    assert!(out.contains(
        "\n[tactics.preset_2.instructions]\nattack = [{ instruction = \"wing_back\", player = 2 }, { instruction = \"off\", player = 0 }]\n"
    ));
    assert!(!out.contains("[tactics.preset_1.instructions]"));
}

#[test]
fn a_slot_whose_position_names_nothing_is_refused_after_what_precedes_it() {
    let mut section = TacticsSection::default();
    let mut slots = [FormationSlot { position: 1, x: 0, y: 0 }; 11];
    slots[4].position = 13;
    section.presets[1].formations[2] = Some(slots);
    let mut out = String::from("keep");
    match emit_tactics(&mut out, &section) {
        Err(TeamTomlError::OutOfRange { key, value, range }) => {
            assert_eq!(key, "tactics.preset_2.formation_3.players");
            assert_eq!(value, 13);
            assert_eq!(range, "0 to 12");
        },
        other => panic!("{other:?}"),
    }
    // The text up to the bad slot is already written: the table's head, the
    // first preset, the second preset's style and sliders, and the four
    // slots before the bad one.
    assert!(out.starts_with("keep\n[tactics]\n"));
    assert!(out.contains("\n[tactics.preset_1.style]\n"));
    assert!(out.contains("\n[tactics.preset_2.sliders]\n"));
    assert!(out.ends_with(
        "\n[tactics.preset_2.formation_3]\nplayers = [\n    { position = \"CB\", x = 0, y = 0 },\n    { position = \"CB\", x = 0, y = 0 },\n    { position = \"CB\", x = 0, y = 0 },\n    { position = \"CB\", x = 0, y = 0 },\n"
    ));
    assert!(!out.contains("[tactics.preset_3"));
}

#[test]
fn a_bad_slot_in_the_first_formation_leaves_the_heading_written() {
    let mut section = TacticsSection::default();
    section.presets[0].formations[0] = Some([FormationSlot { position: 13, x: 0, y: 0 }; 11]);
    let mut out = String::new();
    match emit_tactics(&mut out, &section) {
        Err(TeamTomlError::OutOfRange { key, value, range }) => {
            assert_eq!(key, "tactics.preset_1.formation_1.players");
            assert_eq!((value, range.as_str()), (13, "0 to 12"));
        },
        other => panic!("{other:?}"),
    }
    assert!(out.starts_with("\n[tactics]\n"));
    assert!(out.ends_with("\n[tactics.preset_1.formation_1]\nplayers = [\n"));
}

#[test]
fn the_team_text_quotes_names_and_writes_the_flags_only_when_held() {
    let mut section = TeamSection::default();
    section.id = Some(101);
    section.name = Some("Kanto".to_string());
    section.color_2 = Some(TeamColor { red: 1, green: 2, blue: 3 });
    let mut out = String::new();
    emit_team(&mut out, &section);
    let expected_id = format!("id = 101{}# informational: the caller chooses the target team", " ".repeat(24));
    assert!(out.starts_with("\n[team]\n"));
    assert!(out.contains(&format!("\n{expected_id}\n")));
    assert!(out.contains("\nname = \"Kanto\"\n"));
    assert!(out.contains("\n# short_name = \"\"\n"));
    assert!(out.contains(&format!("\n# manager_id = 0{}# PES 19+\n", " ".repeat(18))));
    assert!(out.contains(&format!("\ncolor_2 = [1, 2, 3]{}# PES 17+; stored channels, 0-63 each\n", " ".repeat(13))));
    assert!(!out.contains("[team.edit_flags]"));

    section.edit_flags.name = Some(true);
    let mut out = String::new();
    emit_team(&mut out, &section);
    assert!(out.ends_with(&format!(
        "\n[team.edit_flags]\nname = true\n# short_name = false{}# PES 15 only\n# stadium = false{}# PES 20+\n# strip = false{}# PES 17 only\n",
        " ".repeat(14),
        " ".repeat(17),
        " ".repeat(19)
    )));
}
