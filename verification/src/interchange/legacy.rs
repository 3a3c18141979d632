//! The legacy 4ccEditor tactics format, read-only: the `.4cct` "nightly"
//! tactics file, decoded into a [`TeamToml`] so that the team import is the
//! only code that writes interchange data into a save.
use vstd::prelude::*;
use vstd::utf8::{decode_utf8, valid_utf8};

use crate::codec::{first_nul, lemma_first_nul, utf8_text};
use vstd::slice::{slice_subrange, slice_to_vec};
use crate::interchange::team_toml::team::{instruction_index, team_section_is_empty};
use crate::interchange::team_toml::{
    AutoSection, InstructionEntry, InstructionsSection, PresetSection, SetPiecesSection,
    SlidersSection, StyleSection, TacticsSection, TeamSection, TeamEditFlagsSection, TeamToml,
    TeamTomlError,
};
use crate::model::instruction::Instruction;
use crate::model::tactics::FormationSlot;
use crate::version::PesVersion;

verus! {

/// What a legacy file cannot be read as.
#[derive(Debug)]
pub enum LegacyError {
    /// The file's tag is not the format's.
    BadTag {
        /// The tag the format carries.
        expected: &'static str,
        /// What the file starts with.
        found: String,
    },
    /// The two version digits are not a supported PES version.
    BadVersion(String),
    /// The 8-byte team id field is not ASCII decimal.
    BadTeamId(String),
    /// The file ends mid-structure.
    Truncated {
        /// The smallest size that would parse.
        needed: usize,
        /// The file's size.
        len: usize,
    },
    /// A stored playing-style byte the exporting version's list does not hold.
    UnknownPlayingStyle {
        /// The exporting version.
        version: PesVersion,
        /// The stored byte.
        value: u8,
    },
    /// An instruction byte outside the canonical table.
    BadInstruction(u8),
    /// A field value the field cannot hold.
    Value(TeamTomlError),
    /// A name/shirt-name field that does not decode.
    Text(String),
}

/// The tactics block both legacy formats carry.
pub const TACTICS: usize = 405;

/// A nightly file's length: tag, two version digits, the 8-byte team id and
/// the tactics block.
pub const NIGHTLY: usize = 418;

/// The text `String::from_utf8_lossy` makes of `bytes`.
pub uninterp spec fn lossy_text(bytes: Seq<u8>) -> Seq<char>;

/// `String::from_utf8_lossy` (std): the bytes' text, each invalid sequence
/// replaced by U+FFFD; on valid UTF-8 the decoded text itself.
#[verifier::external_body]
fn utf8_lossy(bytes: &[u8]) -> (s: String)
    ensures
        s@ == lossy_text(bytes@),
        valid_utf8(bytes@) ==> s@ == decode_utf8(bytes@),
{
    String::from_utf8_lossy(bytes).into_owned()
}

/// The canonical instruction a legacy byte names: its index in
/// `Instruction::ALL`.
pub open spec fn canonical_instruction(b: u8) -> Option<Instruction> {
    match b {
        0 => Some(Instruction::Off),
        1 => Some(Instruction::HugTheTouchline),
        2 => Some(Instruction::FalseNo9),
        3 => Some(Instruction::FalseFullBacks),
        4 => Some(Instruction::AttackingFullBacks),
        5 => Some(Instruction::WingRotation),
        6 => Some(Instruction::TikiTaka),
        7 => Some(Instruction::CenteringTargets),
        8 => Some(Instruction::SwarmTheBox),
        9 => Some(Instruction::DeepDefensiveLine),
        10 => Some(Instruction::Gegenpress),
        11 => Some(Instruction::TightMarking),
        12 => Some(Instruction::CounterTarget),
        13 => Some(Instruction::Defensive),
        14 => Some(Instruction::FalseWinger),
        15 => Some(Instruction::WingBack),
        16 => Some(Instruction::Anchoring),
        _ => None,
    }
}

/// `canonical_instruction(b)`.
fn instruction_of(b: u8) -> (r: Option<Instruction>)
    ensures
        r == canonical_instruction(b),
{
    match b {
        0 => Some(Instruction::Off),
        1 => Some(Instruction::HugTheTouchline),
        2 => Some(Instruction::FalseNo9),
        3 => Some(Instruction::FalseFullBacks),
        4 => Some(Instruction::AttackingFullBacks),
        5 => Some(Instruction::WingRotation),
        6 => Some(Instruction::TikiTaka),
        7 => Some(Instruction::CenteringTargets),
        8 => Some(Instruction::SwarmTheBox),
        9 => Some(Instruction::DeepDefensiveLine),
        10 => Some(Instruction::Gegenpress),
        11 => Some(Instruction::TightMarking),
        12 => Some(Instruction::CounterTarget),
        13 => Some(Instruction::Defensive),
        14 => Some(Instruction::FalseWinger),
        15 => Some(Instruction::WingBack),
        16 => Some(Instruction::Anchoring),
        _ => None,
    }
}

/// A legacy instruction byte is an index into `Instruction::ALL`: every byte
/// below 17 names the instruction at that index (13 `Defensive`, 14
/// `FalseWinger`), whose canonical index is the byte itself, and no other byte
/// names one.
pub proof fn law_instruction_byte_indexes_the_canonical_list(b: u8)
    ensures
        b < 17 ==> canonical_instruction(b) == Some(Instruction::ALL@[b as int]),
        b < 17 ==> instruction_index(canonical_instruction(b)->0) == b,
        b >= 17 ==> canonical_instruction(b) is None,
{
}

/// `a`, else `b`.
pub open spec fn first_of(a: Option<u8>, b: Option<u8>) -> Option<u8> {
    if a is Some {
        a
    } else {
        b
    }
}

/// The byte at `i` when it names no canonical instruction.
pub open spec fn bad_byte(block: Seq<u8>, i: int) -> Option<u8> {
    if canonical_instruction(block[i]) is None {
        Some(block[i])
    } else {
        None
    }
}

/// The first instruction byte of the preset at `b` that names no canonical
/// instruction: two attack then two defence entries, two bytes each.
pub open spec fn first_bad_in_preset(block: Seq<u8>, b: int) -> Option<u8> {
    first_of(
        bad_byte(block, b + 106),
        first_of(bad_byte(block, b + 108), first_of(bad_byte(block, b + 110), bad_byte(block, b + 112))),
    )
}

/// The first instruction byte of the block that names no canonical
/// instruction, the presets in order.
pub open spec fn first_bad_instruction(block: Seq<u8>) -> Option<u8> {
    first_of(
        first_bad_in_preset(block, 0),
        first_of(first_bad_in_preset(block, 120), first_bad_in_preset(block, 240)),
    )
}

/// The entry at `i`: the instruction byte, then the player.
pub open spec fn entry_at(block: Seq<u8>, i: int) -> InstructionEntry {
    InstructionEntry { instruction: canonical_instruction(block[i])->Some_0, player: block[i + 1] }
}

/// Formation slots read from `at`: eleven position bytes, then eleven
/// (y, x) pairs.
pub open spec fn slots_from(block: Seq<u8>, at: int, slots: [FormationSlot; 11]) -> bool {
    forall|k: int|
        0 <= k < 11 ==> #[trigger] slots[k] == FormationSlot {
            position: block[at + k],
            y: block[at + 11 + 2 * k],
            x: block[at + 12 + 2 * k],
        }
}

/// `ps` is the 120-byte preset at `b`: three formations of 33 bytes, the
/// seven style switches, four instruction entries, five sliders and the
/// fluid-formation flag.
pub open spec fn preset_from(block: Seq<u8>, b: int, ps: PresetSection) -> bool {
    &&& ps.formations[0] matches Some(s) && slots_from(block, b, s)
    &&& ps.formations[1] matches Some(s) && slots_from(block, b + 33, s)
    &&& ps.formations[2] matches Some(s) && slots_from(block, b + 66, s)
    &&& ps.style == StyleSection {
        attacking_style: Some(block[b + 99] != 0),
        buildup: Some(block[b + 100] != 0),
        attacking_zone: Some(block[b + 101] != 0),
        positioning: Some(block[b + 102] != 0),
        defensive_style: Some(block[b + 103] != 0),
        containment_area: Some(block[b + 104] != 0),
        pressure: Some(block[b + 105] != 0),
        fluid: Some(block[b + 119] != 0),
    }
    &&& ps.instructions == Some(
        InstructionsSection {
            attack: [entry_at(block, b + 106), entry_at(block, b + 108)],
            defence: [entry_at(block, b + 110), entry_at(block, b + 112)],
        },
    )
    &&& ps.sliders == SlidersSection {
        support_range: Some(block[b + 114]),
        numbers_in_attack: Some(block[b + 115]),
        defensive_line: Some(block[b + 116]),
        compactness: Some(block[b + 117]),
        numbers_in_defence: Some(block[b + 118]),
    }
}

/// `t` is the tactics of the 405-byte block: three presets of 120 bytes,
/// then the starting eleven, the bench order, six set-piece takers (no
/// captain), three players joining the attack and four auto flags.
pub open spec fn tactics_from(block: Seq<u8>, t: TacticsSection) -> bool {
    &&& preset_from(block, 0, t.presets[0])
    &&& preset_from(block, 120, t.presets[1])
    &&& preset_from(block, 240, t.presets[2])
    &&& t.starting_eleven matches Some(a) && forall|k: int| 0 <= k < 11 ==> #[trigger] a[k] == block[360 + k]
    &&& t.bench_order matches Some(a) && forall|k: int| 0 <= k < 21 ==> #[trigger] a[k] == block[371 + k]
    &&& t.set_pieces == SetPiecesSection {
        free_kick_long: Some(block[392]),
        free_kick_short: Some(block[393]),
        free_kick_second: Some(block[394]),
        corner_left: Some(block[395]),
        corner_right: Some(block[396]),
        penalty: Some(block[397]),
        captain: None,
    }
    &&& t.players_to_join_attack matches Some(a) && forall|k: int| 0 <= k < 3 ==> #[trigger] a[k] == block[398 + k]
    &&& t.auto == AutoSection {
        substitution: Some(block[401]),
        offside_trap: Some(block[402] != 0),
        preset_change: Some(block[403] != 0),
        attack_defence_levels: Some(block[404] != 0),
    }
}

/// The eleven formation slots at `at`.
fn formation_slots(block: &[u8], at: usize) -> (r: [FormationSlot; 11])
    requires
        at + 33 <= block@.len(),
    ensures
        slots_from(block@, at as int, r),
{
    [
        FormationSlot { position: block[at + 0], y: block[at + 11], x: block[at + 12] },
        FormationSlot { position: block[at + 1], y: block[at + 13], x: block[at + 14] },
        FormationSlot { position: block[at + 2], y: block[at + 15], x: block[at + 16] },
        FormationSlot { position: block[at + 3], y: block[at + 17], x: block[at + 18] },
        FormationSlot { position: block[at + 4], y: block[at + 19], x: block[at + 20] },
        FormationSlot { position: block[at + 5], y: block[at + 21], x: block[at + 22] },
        FormationSlot { position: block[at + 6], y: block[at + 23], x: block[at + 24] },
        FormationSlot { position: block[at + 7], y: block[at + 25], x: block[at + 26] },
        FormationSlot { position: block[at + 8], y: block[at + 27], x: block[at + 28] },
        FormationSlot { position: block[at + 9], y: block[at + 29], x: block[at + 30] },
        FormationSlot { position: block[at + 10], y: block[at + 31], x: block[at + 32] },
    ]
}

/// The entry at `i`, or the byte that names no canonical instruction.
fn entry(block: &[u8], i: usize) -> (r: Result<InstructionEntry, LegacyError>)
    requires
        i + 2 <= block@.len(),
    ensures
        match bad_byte(block@, i as int) {
            Some(b) => r matches Err(LegacyError::BadInstruction(x)) && x == b,
            None => r matches Ok(e) && e == entry_at(block@, i as int),
        },
{
    match instruction_of(block[i]) {
        Some(instruction) => Ok(InstructionEntry { instruction, player: block[i + 1] }),
        None => Err(LegacyError::BadInstruction(block[i])),
    }
}

/// The 120-byte preset at `b`.
fn preset_at(block: &[u8], b: usize) -> (r: Result<PresetSection, LegacyError>)
    requires
        b + 120 <= block@.len(),
    ensures
        match first_bad_in_preset(block@, b as int) {
            Some(x) => r matches Err(LegacyError::BadInstruction(y)) && y == x,
            None => r matches Ok(ps) && preset_from(block@, b as int, ps),
        },
{
    assert(b + 120 <= block.len());
    let f0 = formation_slots(block, b);
    let f1 = formation_slots(block, b + 33);
    let f2 = formation_slots(block, b + 66);
    let a0 = match entry(block, b + 106) {
        Ok(e) => e,
        Err(e) => {
            return Err(e);
        },
    };
    let a1 = match entry(block, b + 108) {
        Ok(e) => e,
        Err(e) => {
            return Err(e);
        },
    };
    let d0 = match entry(block, b + 110) {
        Ok(e) => e,
        Err(e) => {
            return Err(e);
        },
    };
    let d1 = match entry(block, b + 112) {
        Ok(e) => e,
        Err(e) => {
            return Err(e);
        },
    };
    Ok(
        PresetSection {
            style: StyleSection {
                attacking_style: Some(block[b + 99] != 0),
                buildup: Some(block[b + 100] != 0),
                attacking_zone: Some(block[b + 101] != 0),
                positioning: Some(block[b + 102] != 0),
                defensive_style: Some(block[b + 103] != 0),
                containment_area: Some(block[b + 104] != 0),
                pressure: Some(block[b + 105] != 0),
                fluid: Some(block[b + 119] != 0),
            },
            sliders: SlidersSection {
                support_range: Some(block[b + 114]),
                numbers_in_attack: Some(block[b + 115]),
                defensive_line: Some(block[b + 116]),
                compactness: Some(block[b + 117]),
                numbers_in_defence: Some(block[b + 118]),
            },
            formations: [Some(f0), Some(f1), Some(f2)],
            instructions: Some(InstructionsSection { attack: [a0, a1], defence: [d0, d1] }),
        },
    )
}

/// The 405-byte tactics block both legacy formats carry; the byte order is
/// the reference editor's write walk.
pub fn tactics_block(block: &[u8]) -> (r: Result<TacticsSection, LegacyError>)
    requires
        block@.len() == TACTICS,
    ensures
        match first_bad_instruction(block@) {
            Some(x) => r matches Err(LegacyError::BadInstruction(y)) && y == x,
            None => r matches Ok(t) && tactics_from(block@, t),
        },
{
    let p0 = match preset_at(block, 0) {
        Ok(p) => p,
        Err(e) => {
            return Err(e);
        },
    };
    let p1 = match preset_at(block, 120) {
        Ok(p) => p,
        Err(e) => {
            return Err(e);
        },
    };
    let p2 = match preset_at(block, 240) {
        Ok(p) => p,
        Err(e) => {
            return Err(e);
        },
    };
    Ok(
        TacticsSection {
            starting_eleven: Some([block[360], block[361], block[362], block[363], block[364], block[365], block[366], block[367], block[368], block[369], block[370]]),
            bench_order: Some([block[371], block[372], block[373], block[374], block[375], block[376], block[377], block[378], block[379], block[380], block[381], block[382], block[383], block[384], block[385], block[386], block[387], block[388], block[389], block[390], block[391]]),
            set_pieces: SetPiecesSection {
                free_kick_long: Some(block[392]),
                free_kick_short: Some(block[393]),
                free_kick_second: Some(block[394]),
                corner_left: Some(block[395]),
                corner_right: Some(block[396]),
                penalty: Some(block[397]),
                captain: None,
            },
            players_to_join_attack: Some([block[398], block[399], block[400]]),
            auto: AutoSection {
                substitution: Some(block[401]),
                offside_trap: Some(block[402] != 0),
                preset_change: Some(block[403] != 0),
                attack_defence_levels: Some(block[404] != 0),
            },
            presets: [p0, p1, p2],
        },
    )
}

/// The file starts with the nightly tag `001`.
pub open spec fn nightly_tag(bytes: Seq<u8>) -> bool {
    bytes.len() >= 3 && bytes[0] == 48 && bytes[1] == 48 && bytes[2] == 49
}

/// What a `BadTag` error reports as found: the first three bytes, or none
/// when the file is shorter, as text.
pub open spec fn tag_text(bytes: Seq<u8>) -> Seq<char> {
    lossy_text(if bytes.len() >= 3 { bytes.subrange(0, 3) } else { Seq::empty() })
}

/// An ASCII digit.
pub open spec fn is_digit(b: u8) -> bool {
    48 <= b <= 57
}

/// The value of a run of ASCII digits.
pub open spec fn digits_value(s: Seq<u8>) -> nat
    decreases s.len(),
{
    if s.len() == 0 {
        0
    } else {
        digits_value(s.drop_last()) * 10 + (s.last() - 48) as nat
    }
}

/// Every byte of `s` is an ASCII digit.
pub open spec fn all_digits(s: Seq<u8>) -> bool {
    forall|i: int| 0 <= i < s.len() ==> is_digit(#[trigger] s[i])
}

/// The number a decimal text reads as, as std's unsigned parse reads it: an
/// optional `+`, then one digit or more.
pub open spec fn decimal_number(s: Seq<u8>) -> Option<nat> {
    if s.len() > 0 && all_digits(s) {
        Some(digits_value(s))
    } else if s.len() > 1 && s[0] == 43 && all_digits(s.skip(1)) {
        Some(digits_value(s.skip(1)))
    } else {
        None
    }
}

/// The version a two-digit number names.
pub open spec fn version_of_number(n: nat) -> Option<PesVersion> {
    if n == 15 {
        Some(PesVersion::Pes15)
    } else if n == 16 {
        Some(PesVersion::Pes16)
    } else if n == 17 {
        Some(PesVersion::Pes17)
    } else if n == 18 {
        Some(PesVersion::Pes18)
    } else if n == 19 {
        Some(PesVersion::Pes19)
    } else if n == 20 {
        Some(PesVersion::Pes20)
    } else if n == 21 {
        Some(PesVersion::Pes21)
    } else {
        None
    }
}

/// The version the two digits at bytes 3 and 4 name.
pub open spec fn file_version(bytes: Seq<u8>) -> Option<PesVersion> {
    match decimal_number(bytes.subrange(3, 5)) {
        Some(n) => version_of_number(n),
        None => None,
    }
}

/// What a `BadVersion` error reports: the two digits' text, or `??` when
/// they are no UTF-8.
pub open spec fn version_text(bytes: Seq<u8>) -> Seq<char> {
    let d = bytes.subrange(3, 5);
    if valid_utf8(d) {
        decode_utf8(d)
    } else {
        "??"@
    }
}

/// The team id field: bytes 5 to 13, up to the first NUL.
pub open spec fn id_field(bytes: Seq<u8>) -> Seq<u8> {
    let f = bytes.subrange(5, 13);
    f.subrange(0, first_nul(f))
}

/// What a `BadTeamId` error reports: the id field's text, or `?` when it is
/// no UTF-8.
pub open spec fn id_text(bytes: Seq<u8>) -> Seq<char> {
    let f = id_field(bytes);
    if valid_utf8(f) {
        decode_utf8(f)
    } else {
        "?"@
    }
}

/// Ten to the `n`.
pub open spec fn pow10(n: nat) -> nat
    decreases n,
{
    if n == 0 {
        1
    } else {
        10 * pow10((n - 1) as nat)
    }
}

/// A run of digits is below ten to its length.
proof fn lemma_digits_bound(s: Seq<u8>)
    requires
        all_digits(s),
    ensures
        digits_value(s) < pow10(s.len()),
    decreases s.len(),
{
    if s.len() > 0 {
        assert(all_digits(s.drop_last())) by {
            assert forall|i: int| 0 <= i < s.drop_last().len() implies is_digit(#[trigger] s.drop_last()[i]) by {
                assert(s.drop_last()[i] == s[i]);
            }
        }
        lemma_digits_bound(s.drop_last());
        assert(is_digit(s[s.len() - 1]));
    }
}

/// The value of the digits `s`, at most eight of them.
fn digits(s: &[u8]) -> (r: Option<u32>)
    requires
        s@.len() <= 8,
    ensures
        r is Some <==> all_digits(s@),
        r matches Some(v) ==> v == digits_value(s@),
{
    proof {
        reveal_with_fuel(pow10, 9);
    }
    let mut value: u32 = 0;
    let mut i: usize = 0;
    while i < s.len()
        invariant
            i <= s@.len(),
            s@.len() <= 8,
            all_digits(s@.subrange(0, i as int)),
            value == digits_value(s@.subrange(0, i as int)),
            pow10(7) == 10000000,
        decreases s@.len() - i,
    {
        let b = s[i];
        if b < 48 || b > 57 {
            proof {
                assert(!is_digit(s@[i as int]));
            }
            return None;
        }
        proof {
            lemma_digits_bound(s@.subrange(0, i as int));
            lemma_pow10_mono(i as nat, 7);
            assert(s@.subrange(0, i + 1).drop_last() =~= s@.subrange(0, i as int));
            assert forall|j: int| 0 <= j < i + 1 implies is_digit(#[trigger] s@.subrange(0, i + 1)[j]) by {
                if j < i {
                    assert(s@.subrange(0, i + 1)[j] == s@.subrange(0, i as int)[j]);
                }
            }
        }
        value = value * 10 + (b - 48) as u32;
        i = i + 1;
    }
    proof {
        assert(s@.subrange(0, s@.len() as int) =~= s@);
    }
    Some(value)
}

/// Powers of ten grow with the exponent.
proof fn lemma_pow10_mono(a: nat, b: nat)
    requires
        a <= b,
    ensures
        pow10(a) <= pow10(b),
    decreases b,
{
    if a < b {
        lemma_pow10_mono(a, (b - 1) as nat);
    }
}

/// `decimal_number` of at most eight bytes.
fn decimal(s: &[u8]) -> (r: Option<u32>)
    requires
        s@.len() <= 8,
    ensures
        match decimal_number(s@) {
            Some(n) => r matches Some(v) && v == n,
            None => r is None,
        },
{
    if s.len() > 0 {
        match digits(s) {
            Some(v) => {
                return Some(v);
            },
            None => {},
        }
        if s.len() > 1 && s[0] == 43 {
            let rest = slice_subrange(s, 1, s.len());
            assert(rest@ == s@.skip(1));
            return digits(rest);
        }
    }
    None
}

/// The version a number names.
fn version_number(n: u32) -> (r: Option<PesVersion>)
    ensures
        r == version_of_number(n as nat),
{
    match n {
        15 => Some(PesVersion::Pes15),
        16 => Some(PesVersion::Pes16),
        17 => Some(PesVersion::Pes17),
        18 => Some(PesVersion::Pes18),
        19 => Some(PesVersion::Pes19),
        20 => Some(PesVersion::Pes20),
        21 => Some(PesVersion::Pes21),
        _ => None,
    }
}

/// A `.4cct` "nightly" tactics file: `001`, two version digits, an 8-byte
/// ASCII team id, the 405-byte tactics block.
pub fn read_tactics(bytes: &[u8]) -> (r: Result<TeamToml, LegacyError>)
    ensures
        !nightly_tag(bytes@) ==> (r matches Err(LegacyError::BadTag { expected, found })
            && expected@ == "001"@ && found@ == tag_text(bytes@)),
        nightly_tag(bytes@) && bytes@.len() != NIGHTLY ==> (r matches Err(
            LegacyError::Truncated { needed, len },
        ) && needed == NIGHTLY && len == bytes@.len()),
        nightly_tag(bytes@) && bytes@.len() == NIGHTLY ==> match file_version(bytes@) {
            None => r matches Err(LegacyError::BadVersion(t)) && t@ == version_text(bytes@),
            Some(v) => match decimal_number(id_field(bytes@)) {
                None => r matches Err(LegacyError::BadTeamId(t)) && t@ == id_text(bytes@),
                Some(id) => match first_bad_instruction(bytes@.subrange(13, 418)) {
                    Some(x) => r matches Err(LegacyError::BadInstruction(y)) && y == x,
                    None => r matches Ok(doc) && doc.pes_version == Some(v) && doc.team.id == Some(
                        id as u32,
                    ) && team_section_is_empty(doc.team) && tactics_from(
                        bytes@.subrange(13, 418),
                        doc.tactics,
                    ) && doc.players@ == Map::<u8, crate::interchange::team_toml::PlayerSection>::empty(),
                },
            },
        },
{
    if bytes.len() < 3 || bytes[0] != 48 || bytes[1] != 48 || bytes[2] != 49 {
        let head = if bytes.len() >= 3 {
            slice_subrange(bytes, 0, 3)
        } else {
            slice_subrange(bytes, 0, 0)
        };
        proof {
            assert(head@ == (if bytes@.len() >= 3 { bytes@.subrange(0, 3) } else { Seq::<u8>::empty() }));
        }
        return Err(LegacyError::BadTag { expected: "001", found: utf8_lossy(head) });
    }
    if bytes.len() != NIGHTLY {
        return Err(LegacyError::Truncated { needed: NIGHTLY, len: bytes.len() });
    }
    let digit_bytes = slice_subrange(bytes, 3, 5);
    let version = match decimal(digit_bytes) {
        Some(n) => version_number(n),
        None => None,
    };
    let version = match version {
        Some(v) => v,
        None => {
            let text = match utf8_text(slice_to_vec(digit_bytes)) {
                Some(t) => t,
                None => "??".to_owned(),
            };
            return Err(LegacyError::BadVersion(text));
        },
    };
    let field = slice_subrange(bytes, 5, 13);
    let mut end: usize = 0;
    while end < field.len() && field[end] != 0
        invariant
            end <= field@.len(),
            forall|j: int| 0 <= j < end ==> field@[j] != 0,
        decreases field@.len() - end,
    {
        end = end + 1;
    }
    proof {
        lemma_first_nul(field@, end as int);
    }
    let id_bytes = slice_subrange(field, 0, end);
    assert(field@ == bytes@.subrange(5, 13));
    assert(id_bytes@ == id_field(bytes@));
    let team_id = match decimal(id_bytes) {
        Some(id) => id,
        None => {
            let text = match utf8_text(slice_to_vec(id_bytes)) {
                Some(t) => t,
                None => "?".to_owned(),
            };
            return Err(LegacyError::BadTeamId(text));
        },
    };
    let block = slice_subrange(bytes, 13, NIGHTLY);
    assert(block@ == bytes@.subrange(13, 418));
    let tactics = match tactics_block(block) {
        Ok(t) => t,
        Err(e) => {
            return Err(e);
        },
    };
    let team = TeamSection {
        id: Some(team_id),
        name: None,
        short_name: None,
        manager_id: None,
        stadium_id: None,
        color_1: None,
        color_2: None,
        kit_slots: None,
        edit_flags: TeamEditFlagsSection { name: None, short_name: None, stadium: None, strip: None },
    };
    Ok(TeamToml { pes_version: Some(version), team, tactics, players: std::collections::BTreeMap::new() })
}

} // verus!
