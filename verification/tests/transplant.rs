use pes_savefile::model::player::PlayerEntry;
use pes_savefile::ops::transplant::{parse_selection, transplant_player, SelectionError};

use SelectionError as E;

#[test]
fn parse_selection_expands_the_scripts_four_forms() {
    assert_eq!(parse_selection("70103"), Ok(vec![(70103, 70103)]));
    assert_eq!(parse_selection("70103:70205"), Ok(vec![(70103, 70205)]));

    let team = parse_selection("701").expect("a team");
    assert_eq!(team.len(), 23);
    assert_eq!(team[0], (70101, 70101));
    assert_eq!(team[22], (70123, 70123));

    let range = parse_selection("701-702").expect("a range");
    assert_eq!(range.len(), 46);
    assert_eq!(range[0], (70101, 70101));
    assert_eq!(range[22], (70123, 70123));
    assert_eq!(range[23], (70201, 70201));
    assert_eq!(range[45], (70223, 70223));

    assert_eq!(
        parse_selection("1000-1001"),
        Err(E::BadRange("1000-1001".to_string()))
    );
    assert_eq!(
        parse_selection("999-1000"),
        Err(E::BadRange("999-1000".to_string()))
    );
    assert_eq!(
        parse_selection("702-701"),
        Err(E::BadRange("702-701".to_string()))
    );
    assert_eq!(
        parse_selection("701-701").expect("a one-team range").len(),
        23
    );
    assert_eq!(parse_selection("1000"), Ok(vec![(1000, 1000)]));
    let team = parse_selection("999").expect("a team");
    assert_eq!(team.len(), 23);
    assert_eq!(team[0], (99901, 99901));
    assert_eq!(team[22], (99923, 99923));
    for bad in ["a", "1:2:3", "1-2-3", ""] {
        assert_eq!(
            parse_selection(bad),
            Err(E::Malformed(bad.to_string())),
            "{bad:?}"
        );
    }
}

#[test]
fn numbers_read_as_u32_from_str_reads_them() {
    assert_eq!(parse_selection("+70103"), Ok(vec![(70103, 70103)]));
    assert_eq!(parse_selection("0070103"), Ok(vec![(70103, 70103)]));
    assert_eq!(parse_selection("4294967295"), Ok(vec![(4294967295, 4294967295)]));
    assert_eq!(
        parse_selection("4294967296"),
        Err(E::Malformed("4294967296".to_string()))
    );
    assert_eq!(parse_selection("+"), Err(E::Malformed("+".to_string())));
    assert_eq!(parse_selection("-5"), Err(E::Malformed("-5".to_string())));
    assert_eq!(parse_selection("1:"), Err(E::Malformed("1:".to_string())));
    // A colon wins over a dash.
    assert_eq!(parse_selection("1-2:3"), Err(E::Malformed("1-2:3".to_string())));
    assert_eq!(parse_selection("0"), Ok((1..=23).map(|s| (s, s)).collect()));
}

#[test]
fn transplant_player_moves_the_appearance_and_four_flags() {
    let mut donor = PlayerEntry::default();
    donor.id = 70205;
    donor.appearance.boots_id = 42;
    donor.appearance.skin_color = 3;
    donor.edit_flags.face = true;
    donor.edit_flags.hair = true;
    donor.edit_flags.physique = false;
    donor.edit_flags.strip = true;
    donor.edit_flags.abilities = true;
    donor.basic.age = 30;

    let mut target = PlayerEntry::default();
    target.id = 70103;
    target.name = "TARGET".to_string();
    target.edit_flags.physique = true;
    target.basic.age = 21;

    let mut moved = target.clone();
    transplant_player(&mut moved, &donor);
    let mut expected = target.clone();
    expected.appearance = donor.appearance;
    expected.edit_flags.face = donor.edit_flags.face;
    expected.edit_flags.hair = donor.edit_flags.hair;
    expected.edit_flags.physique = donor.edit_flags.physique;
    expected.edit_flags.strip = donor.edit_flags.strip;
    assert_eq!(moved, expected);
    assert_eq!(moved.id, 70103);
    assert_eq!(moved.basic.age, 21);
    assert!(!moved.edit_flags.abilities);
}
