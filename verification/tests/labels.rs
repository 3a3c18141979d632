use pes_savefile::interchange::team_toml::labels::{
    COM_STYLES, FOOT, INSTRUCTIONS, PLAY_STYLES, POSITIONS, RATINGS, SKILLS, STYLE_SWITCHES,
};
use pes_savefile::model::instruction::Instruction;
use pes_savefile::model::playstyle::PlayStyle;

/// Lowercase ASCII, digits and underscores only.
fn is_snake_case(label: &str) -> bool {
    !label.is_empty()
        && label
            .bytes()
            .all(|b| b.is_ascii_lowercase() || b.is_ascii_digit() || b == b'_')
}

fn unique(table: &[&str]) -> bool {
    let mut sorted = table.to_vec();
    sorted.sort_unstable();
    sorted.dedup();
    sorted.len() == table.len()
}

#[test]
fn every_label_table_is_sized_and_unique() {
    assert_eq!(INSTRUCTIONS.len(), Instruction::ALL.len());
    assert_eq!(PLAY_STYLES.len(), PlayStyle::ALL.len());
    assert_eq!(POSITIONS.len(), 13);
    assert_eq!(RATINGS.len(), 4);
    assert_eq!(SKILLS.len(), 41);
    assert_eq!(COM_STYLES.len(), 7);
    assert_eq!(FOOT.len(), 2);
    for table in [
        POSITIONS.as_slice(),
        INSTRUCTIONS.as_slice(),
        RATINGS.as_slice(),
        PLAY_STYLES.as_slice(),
        SKILLS.as_slice(),
        COM_STYLES.as_slice(),
        FOOT.as_slice(),
    ] {
        assert!(unique(table), "duplicates in {table:?}");
    }
    for (_, pair) in STYLE_SWITCHES {
        assert_ne!(pair[0], pair[1]);
    }
}

#[test]
fn labels_are_snake_case_or_the_uppercase_short_forms() {
    // Positions ("GK") and the ratings' letter grades are uppercase;
    // everything else is snake_case.
    for label in INSTRUCTIONS
        .iter()
        .chain(PLAY_STYLES.iter())
        .chain(SKILLS.iter())
        .chain(COM_STYLES.iter())
        .chain(FOOT.iter())
        .chain(RATINGS.iter().filter(|l| **l == "none"))
        .chain(STYLE_SWITCHES.iter().flat_map(|(key, pair)| {
            assert!(is_snake_case(key), "{key}");
            pair.iter()
        }))
    {
        assert!(is_snake_case(label), "{label}");
    }
}

#[test]
fn the_canonical_orders_start_with_the_empty_value() {
    assert_eq!(Instruction::ALL[0], Instruction::Off);
    assert_eq!(Instruction::default(), Instruction::Off);
    assert_eq!(PlayStyle::ALL[0], PlayStyle::NoStyle);
    assert_eq!(INSTRUCTIONS[0], "off");
    assert_eq!(PLAY_STYLES[0], "none");
    assert_eq!(Instruction::ALL[16], Instruction::Anchoring);
    assert_eq!(PlayStyle::ALL[21], PlayStyle::DefensiveGoalkeeper);
}
