use pes_savefile::interchange::legacy::{read_tactics, LegacyError};
use pes_savefile::model::instruction::Instruction;
use pes_savefile::version::PesVersion;

/// A nightly file for team 713 of PES 19: every formation slot, style switch
/// and slider numbered by its offset inside the block, every instruction byte
/// a canonical one.
fn nightly() -> Vec<u8> {
    let mut bytes = b"00119713\0\0\0\0\0".to_vec();
    let mut block = vec![0u8; 405];
    for (i, b) in block.iter_mut().enumerate() {
        *b = (i % 200) as u8;
    }
    for preset in 0..3 {
        for entry in 0..4 {
            block[120 * preset + 106 + 2 * entry] = (entry + 4 * preset) as u8;
        }
    }
    bytes.extend_from_slice(&block);
    bytes
}

#[test]
fn a_nightly_file_decodes_the_block_in_its_walk_order() {
    let bytes = nightly();
    let doc = read_tactics(&bytes).expect("a valid .4cct");
    assert_eq!(doc.pes_version, Some(PesVersion::Pes19));
    assert_eq!(doc.team.id, Some(713));
    assert!(doc.team.name.is_none());
    assert!(doc.players.is_empty());
    let t = &doc.tactics;
    let slots = t.presets[1].formations[2].expect("formation");
    // Preset 1 starts at 120; formation 2 at 66 inside it.
    assert_eq!(slots[0].position, 186);
    assert_eq!(slots[0].y, (186 + 11) as u8);
    assert_eq!(slots[0].x, (186 + 12) as u8);
    assert_eq!(t.presets[0].style.buildup, Some(true));
    let ins = t.presets[2].instructions.expect("instructions");
    assert_eq!(ins.attack[0].instruction, Instruction::ALL[8]);
    assert_eq!(ins.defence[1].instruction, Instruction::ALL[11]);
    assert_eq!(ins.attack[0].player, ((240 + 107) % 200) as u8);
    assert_eq!(t.presets[0].sliders.support_range, Some(114));
    assert_eq!(t.presets[0].sliders.numbers_in_attack, Some(115));
    assert_eq!(t.presets[0].style.fluid, Some(true));
    assert_eq!(t.starting_eleven.expect("eleven")[0], 160);
    assert_eq!(t.bench_order.expect("bench")[20], 191);
    assert_eq!(t.set_pieces.penalty, Some(197));
    assert_eq!(t.set_pieces.captain, None);
    assert_eq!(t.players_to_join_attack, Some([198, 199, 0]));
    assert_eq!(t.auto.substitution, Some(1));
    assert_eq!(t.auto.attack_defence_levels, Some(true));
}

#[test]
fn a_short_tactics_block_is_truncated() {
    let bytes = nightly();
    let err = read_tactics(&bytes[..bytes.len() - 1]).expect_err("one byte short");
    assert!(matches!(err, LegacyError::Truncated { needed: 418, len: 417 }), "{err:?}");
}

#[test]
fn an_out_of_table_instruction_is_an_error() {
    // First instruction byte of preset 1: 3 formations * 33 + 7 style.
    let mut bad = nightly();
    bad[13 + 106] = 0x20;
    assert!(matches!(read_tactics(&bad), Err(LegacyError::BadInstruction(0x20))));
}

#[test]
fn a_wrong_tag_version_or_team_id_is_refused() {
    let err = read_tactics(b"21a19").expect_err("a .4ccs is not a .4cct");
    assert!(
        matches!(&err, LegacyError::BadTag { expected: "001", found } if found == "21a"),
        "{err:?}"
    );
    let err = read_tactics(b"0").expect_err("too short for a tag");
    assert!(matches!(&err, LegacyError::BadTag { found, .. } if found.is_empty()), "{err:?}");
    let mut bad = nightly();
    bad[3..5].copy_from_slice(b"1x");
    let err = read_tactics(&bad).expect_err("version digits");
    assert!(matches!(&err, LegacyError::BadVersion(d) if d == "1x"), "{err:?}");
    let mut bad = nightly();
    bad[3..5].copy_from_slice(b"14");
    assert!(matches!(read_tactics(&bad), Err(LegacyError::BadVersion(_))));
    let mut bad = nightly();
    bad[5..13].copy_from_slice(b"7a3\0\0\0\0\0");
    let err = read_tactics(&bad).expect_err("team id");
    assert!(matches!(&err, LegacyError::BadTeamId(t) if t == "7a3"), "{err:?}");
    let mut plus = nightly();
    plus[5..13].copy_from_slice(b"+42\0\0\0\0\0");
    assert_eq!(read_tactics(&plus).expect("a leading plus parses").team.id, Some(42));
}
