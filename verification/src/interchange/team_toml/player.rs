//! The document text of a `[players.NN]` table (its scalar keys through the
//! key table, the texts quoted as TOML strings, the ingame-face run in hex,
//! the positions, skills and edit flags) and of a whole team document.
use vstd::prelude::*;
use vstd::std_specs::iter::IteratorSpec;

use crate::codec::names::{append_str, decimal, push_decimal};
use crate::codec::push_char;
use crate::interchange::team_toml::emit::{
    emit, emit_tactics, emit_team, formation_key, joined, key_line, opt_view, padded, padded_string,
    quoted, tactics_bad_slot, tactics_text, team_text, toml_quoted, toml_string,
};
use crate::interchange::team_toml::labels::{COM_STYLES, PLAY_STYLES, POSITIONS, RATINGS, SKILLS};
use crate::interchange::team_toml::player_keys::{
    key_name, key_spec, kind_neutral, kind_text, label_range, section_value, Kind, PlayerKey,
};
use crate::interchange::team_toml::{PlayerSection, TeamToml, TeamTomlError};
use crate::version::PesVersion;
use crate::model::playstyle::PlayStyle;
use crate::ops::fingerprint::{hex_digit, hex_text};

verus! {

/// The slot as at least two decimal digits.
pub open spec fn slot_digits(slot: u8) -> Seq<char> {
    if slot < 10 {
        "0"@ + decimal(slot as nat)
    } else {
        decimal(slot as nat)
    }
}

/// The player's table path: `players.NN`.
pub open spec fn player_path(slot: u8) -> Seq<char> {
    "players."@ + slot_digits(slot)
}

/// The text of `key`'s value in the section: `None` where the section holds
/// none, or where a label index is past its list.
pub open spec fn key_value_text(key: PlayerKey, s: PlayerSection) -> Option<Seq<char>> {
    match section_value(key, s) {
        Some(v) => kind_text(key_spec(key).kind, v),
        None => None,
    }
}

/// A key's line, its value written where the section holds one.
pub open spec fn plain_key_line(key: PlayerKey, s: PlayerSection) -> Seq<char> {
    key_line(key_name(key)@, key_value_text(key, s), kind_neutral(key_spec(key).kind), key_spec(key).comment@)
}

/// The lines of `keys`, in order.
pub open spec fn keys_lines(keys: Seq<PlayerKey>, s: PlayerSection) -> Seq<char>
    decreases keys.len(),
{
    if keys.len() == 0 {
        Seq::empty()
    } else {
        keys_lines(keys.drop_last(), s) + plain_key_line(keys.last(), s)
    }
}

/// The keys at the table's top level.
pub open spec fn top_keys() -> Seq<PlayerKey> {
    seq![PlayerKey::Nationality, PlayerKey::Age, PlayerKey::BootsId, PlayerKey::GlovesId, PlayerKey::BaseCopyId]
}

/// The keys of the `[stats]` table.
pub open spec fn stats_keys() -> Seq<PlayerKey> {
    seq![PlayerKey::AttackingProwess, PlayerKey::BallControl, PlayerKey::Dribbling, PlayerKey::TightPossession, PlayerKey::LowPass, PlayerKey::LoftedPass, PlayerKey::Finishing, PlayerKey::Heading, PlayerKey::PlaceKicking, PlayerKey::Swerve, PlayerKey::DefensiveProwess, PlayerKey::BallWinning, PlayerKey::Aggression, PlayerKey::KickingPower, PlayerKey::Speed, PlayerKey::ExplosivePower, PlayerKey::BodyControl, PlayerKey::PhysicalContact, PlayerKey::Jump, PlayerKey::Stamina, PlayerKey::Goalkeeping, PlayerKey::Catching, PlayerKey::Clearing, PlayerKey::Reflexes, PlayerKey::Coverage, PlayerKey::WeakFootUsage, PlayerKey::WeakFootAccuracy, PlayerKey::Form, PlayerKey::InjuryResistance, PlayerKey::Star, PlayerKey::PlayingAttitude]
}

/// The keys of the `[edit_flags]` table.
pub open spec fn flag_keys() -> Seq<PlayerKey> {
    seq![PlayerKey::EditedPlayer, PlayerKey::EditedBasicSettings, PlayerKey::EditedRegisteredPosition, PlayerKey::EditedPlayablePositions, PlayerKey::EditedAbilities, PlayerKey::EditedSkills, PlayerKey::EditedPlayingStyle, PlayerKey::EditedComStyles, PlayerKey::EditedMotion, PlayerKey::EditedBaseCopy, PlayerKey::EditedFace, PlayerKey::EditedHair, PlayerKey::EditedPhysique, PlayerKey::EditedStrip]
}

/// A label key whose held value names no label.
pub open spec fn label_key_bad(key: PlayerKey, s: PlayerSection) -> bool {
    section_value(key, s) is Some && key_value_text(key, s) is None
}

/// The canonical index of a playing style.
pub open spec fn play_style_index(style: PlayStyle) -> int {
    match style {
        PlayStyle::NoStyle => 0,
        PlayStyle::GoalPoacher => 1,
        PlayStyle::DummyRunner => 2,
        PlayStyle::FoxInTheBox => 3,
        PlayStyle::TargetMan => 4,
        PlayStyle::CreativePlaymaker => 5,
        PlayStyle::ProlificWinger => 6,
        PlayStyle::RoamingFlank => 7,
        PlayStyle::CrossingSpecialist => 8,
        PlayStyle::ClassicNo10 => 9,
        PlayStyle::HolePlayer => 10,
        PlayStyle::BoxToBox => 11,
        PlayStyle::TheDestroyer => 12,
        PlayStyle::Orchestrator => 13,
        PlayStyle::AnchorMan => 14,
        PlayStyle::OffensiveFullback => 15,
        PlayStyle::FullbackFinisher => 16,
        PlayStyle::DefensiveFullback => 17,
        PlayStyle::BuildUp => 18,
        PlayStyle::ExtraFrontman => 19,
        PlayStyle::OffensiveGoalkeeper => 20,
        PlayStyle::DefensiveGoalkeeper => 21,
    }
}

/// A playing style's quoted label.
pub open spec fn play_style_text(style: PlayStyle) -> Seq<char> {
    quoted(PLAY_STYLES[play_style_index(style)]@)
}

/// The playable ratings, CF first: `{ CF = "A", SS = "B", ... }`.
pub open spec fn playable_text(p: Seq<u8>) -> Seq<char> {
    "{ "@ + joined(
        Seq::new(13, |i: int| POSITIONS[12 - i]@ + " = \""@ + RATINGS[p[i] as int]@ + "\""@),
    ) + " }"@
}

/// The playable line a document without ratings shows: every position
/// rated `"none"`.
pub open spec fn playable_neutral() -> Seq<char> {
    "{ CF = \"none\", SS = \"none\", RWF = \"none\", LWF = \"none\", AMF = \"none\", RMF = \"none\", LMF = \"none\", CMF = \"none\", DMF = \"none\", RB = \"none\", LB = \"none\", CB = \"none\", GK = \"none\" }"@
}

/// The quoted names of the set flags among the first `n`, in order.
pub open spec fn set_names(flags: Seq<bool>, names: Seq<&'static str>, n: nat) -> Seq<Seq<char>>
    decreases n,
{
    if n == 0 {
        Seq::empty()
    } else if flags[n - 1] {
        set_names(flags, names, (n - 1) as nat).push(quoted(names[n - 1]@))
    } else {
        set_names(flags, names, (n - 1) as nat)
    }
}

/// The set flags' names as a TOML array.
pub open spec fn flag_list_text(flags: Seq<bool>, names: Seq<&'static str>) -> Seq<char> {
    "["@ + joined(set_names(flags, names, flags.len())) + "]"@
}

/// The table's heading line and the keys before the `[stats]` table.
pub open spec fn player_top_text(slot: u8, s: PlayerSection) -> Seq<char> {
    let path = player_path(slot);
    "\n"@ + padded("["@ + path + "]"@, "roster slot 01 .. 40 (32 on PES 15-18)"@) + "\n"@
        + key_line(
        "name"@,
        match s.name {
            Some(n) => Some(toml_string(n@)),
            None => None,
        },
        "\"\""@,
        ""@,
    ) + key_line(
        "shirt_name"@,
        match s.shirt_name {
            Some(n) => Some(toml_string(n@)),
            None => None,
        },
        "\"\""@,
        ""@,
    ) + key_line(
        "number"@,
        match s.number {
            Some(n) => Some(decimal(n as nat)),
            None => None,
        },
        "1"@,
        "shirt number, the roster's"@,
    ) + keys_lines(top_keys(), s)
        + key_line(
        "ingame_face"@,
        match s.ingame_face {
            Some(b) => Some(quoted(hex_text(b@))),
            None => None,
        },
        "\"\""@,
        "the appearance block's undecoded run, hex, 50 bytes (46 on PES 15); applied before ["@ + path
            + ".appearance]"@,
    )
}

/// The `[stats]` table.
pub open spec fn player_stats_text(slot: u8, s: PlayerSection) -> Seq<char> {
    "\n["@ + player_path(slot) + ".stats]\n"@
        + keys_lines(stats_keys(), s)
}

/// The positions' playable and playing-style lines.
pub open spec fn positions_middle_text(s: PlayerSection) -> Seq<char> {
    key_line(
        "playable"@,
        match s.positions.playable {
            Some(p) => Some(playable_text(p@)),
            None => None,
        },
        playable_neutral(),
        "\"none\" | \"C\" | \"B\" | \"A\""@,
    ) + key_line(
        "playing_style"@,
        match s.positions.playing_style {
            Some(st) => Some(play_style_text(st)),
            None => None,
        },
        "\"none\""@,
        "canonical PlayStyle name; \"none\" for none"@,
    )
}

/// The `[skills]` and `[edit_flags]` tables.
pub open spec fn player_tail_text(slot: u8, s: PlayerSection) -> Seq<char> {
    let path = player_path(slot);
    "\n["@ + path + ".skills]\n"@ + key_line(
        "skills"@,
        match s.skills.skills {
            Some(f) => Some(flag_list_text(f@, SKILLS@)),
            None => None,
        },
        "[]"@,
        "the set skills, canonical names"@,
    ) + key_line(
        "com_styles"@,
        match s.skills.com_styles {
            Some(f) => Some(flag_list_text(f@, COM_STYLES@)),
            None => None,
        },
        "[]"@,
        "\"trickster\" \"mazing_run\" \"speeding_bullet\" \"incisive_run\" \"long_ball_expert\" \"early_cross\" \"long_ranger\""@,
    ) + "\n["@ + path + ".edit_flags]         # the game's own flags, all bool\n"@
        + keys_lines(flag_keys(), s)
}

/// What the table writes up to and including the `[positions]` heading.
pub open spec fn player_upper_text(slot: u8, s: PlayerSection) -> Seq<char> {
    player_top_text(slot, s) + player_stats_text(slot, s) + "\n["@ + player_path(slot) + ".positions]\n"@
}

/// A `[players.NN]` table's whole text.
pub open spec fn player_text(slot: u8, s: PlayerSection) -> Seq<char> {
    player_upper_text(slot, s) + plain_key_line(PlayerKey::Registered, s) + positions_middle_text(s)
        + plain_key_line(PlayerKey::StrongerFoot, s) + plain_key_line(PlayerKey::StrongerHand, s)
        + player_tail_text(slot, s)
}

/// The first positions key whose held value names no label.
pub open spec fn player_bad_key(s: PlayerSection) -> Option<PlayerKey> {
    if label_key_bad(PlayerKey::Registered, s) {
        Some(PlayerKey::Registered)
    } else if label_key_bad(PlayerKey::StrongerFoot, s) {
        Some(PlayerKey::StrongerFoot)
    } else if label_key_bad(PlayerKey::StrongerHand, s) {
        Some(PlayerKey::StrongerHand)
    } else {
        None
    }
}

/// `e` reports the first positions key of `s` whose value names no label:
/// `OutOfRange` under the key's path, with the value and the labels allowed.
#[verifier::opaque]
pub open spec fn player_key_error(e: TeamTomlError, s: PlayerSection) -> bool {
    player_bad_key(s) matches Some(key) && e matches TeamTomlError::OutOfRange { key: k, value, range }
        && k@ == key_spec(key).path@ && value == section_value(key, s)->0 as i64 && range@ == label_range(
        key_spec(key).kind->Label_0,
    )
}

/// What the table writes before the first positions key whose value names no
/// label.
pub open spec fn player_partial(slot: u8, s: PlayerSection) -> Seq<char> {
    match player_bad_key(s) {
        Some(PlayerKey::Registered) => player_upper_text(slot, s),
        Some(PlayerKey::StrongerFoot) => player_upper_text(slot, s) + plain_key_line(PlayerKey::Registered, s)
            + positions_middle_text(s),
        Some(_) => player_upper_text(slot, s) + plain_key_line(PlayerKey::Registered, s)
            + positions_middle_text(s) + plain_key_line(PlayerKey::StrongerFoot, s),
        None => Seq::empty(),
    }
}

/// Appends the line of a key whose value is not a label.
fn emit_plain_key(out: &mut String, s: &PlayerSection, key: PlayerKey)
    ensures
        final(out)@ == old(out)@ + plain_key_line(key, *s),
{
    let spec = key.spec();
    let value = match key.get_section(s) {
        Some(v) => match key.text(v) {
            Ok(t) => Some(t),
            Err(_) => None,
        },
        None => None,
    };
    let neutral = key.neutral();
    emit(out, key.name(), value, neutral.as_str(), spec.comment);
}

/// Appends the lines of `keys`.
fn emit_keys(out: &mut String, s: &PlayerSection, keys: &[PlayerKey], Ghost(expected): Ghost<Seq<PlayerKey>>)
    requires
        keys@ == expected,
    ensures
        final(out)@ == old(out)@ + keys_lines(expected, *s),
{
    let mut i: usize = 0;
    while i < keys.len()
        invariant
            i <= keys@.len(),
            out@ == old(out)@ + keys_lines(keys@.take(i as int), *s),
        decreases keys@.len() - i,
    {
        emit_plain_key(out, s, keys[i]);
        proof {
            assert(keys@.take(i + 1).drop_last() =~= keys@.take(i as int));
        }
        i = i + 1;
    }
    assert(keys@.take(keys@.len() as int) =~= keys@);
}

/// Appends the line of a label key; a held value past the label list is
/// `OutOfRange` under the key's path, and nothing is written.
fn emit_label_key(out: &mut String, s: &PlayerSection, key: PlayerKey) -> (r: Result<(), TeamTomlError>)
    requires
        key_spec(key).kind is Label,
    ensures
        label_key_bad(key, *s) ==> (r matches Err(TeamTomlError::OutOfRange { key: k, value, range })
            && k@ == key_spec(key).path@ && value == section_value(key, *s)->0 as i64 && range@
            == label_range(key_spec(key).kind->Label_0)) && final(out)@ == old(out)@,
        !label_key_bad(key, *s) ==> r is Ok && final(out)@ == old(out)@ + plain_key_line(key, *s),
{
    let spec = key.spec();
    let value = match key.get_section(s) {
        Some(v) => match key.text(v) {
            Ok(t) => Some(t),
            Err(e) => {
                return Err(e);
            },
        },
        None => None,
    };
    let neutral = key.neutral();
    emit(out, key.name(), value, neutral.as_str(), spec.comment);
    Ok(())
}

/// The canonical index of a playing style.
fn play_style_position(style: PlayStyle) -> (i: usize)
    ensures
        i == play_style_index(style),
        i < 22,
{
    match style {
        PlayStyle::NoStyle => 0,
        PlayStyle::GoalPoacher => 1,
        PlayStyle::DummyRunner => 2,
        PlayStyle::FoxInTheBox => 3,
        PlayStyle::TargetMan => 4,
        PlayStyle::CreativePlaymaker => 5,
        PlayStyle::ProlificWinger => 6,
        PlayStyle::RoamingFlank => 7,
        PlayStyle::CrossingSpecialist => 8,
        PlayStyle::ClassicNo10 => 9,
        PlayStyle::HolePlayer => 10,
        PlayStyle::BoxToBox => 11,
        PlayStyle::TheDestroyer => 12,
        PlayStyle::Orchestrator => 13,
        PlayStyle::AnchorMan => 14,
        PlayStyle::OffensiveFullback => 15,
        PlayStyle::FullbackFinisher => 16,
        PlayStyle::DefensiveFullback => 17,
        PlayStyle::BuildUp => 18,
        PlayStyle::ExtraFrontman => 19,
        PlayStyle::OffensiveGoalkeeper => 20,
        PlayStyle::DefensiveGoalkeeper => 21,
    }
}

/// Appends `t` in quotes.
fn push_quoted(s: &mut String, t: &str)
    ensures
        final(s)@ == old(s)@ + quoted(t@),
{
    append_str(s, "\"");
    append_str(s, t);
    append_str(s, "\"");
}

/// The playable ratings' inline table.
fn playable_string(p: [u8; 13]) -> (r: String)
    requires
        forall|i: int| 0 <= i < 13 ==> p[i] < 4,
    ensures
        r@ == playable_text(p@),
{
    let ghost items = Seq::new(13, |i: int| POSITIONS[12 - i]@ + " = \""@ + RATINGS[p[i] as int]@ + "\""@);
    let mut s = "{ ".to_owned();
    let ghost start = s@;
    let mut i: usize = 0;
    while i < 13
        invariant
            i <= 13,
            forall|j: int| 0 <= j < 13 ==> p[j] < 4,
            items == Seq::new(13, |j: int| POSITIONS[12 - j]@ + " = \""@ + RATINGS[p[j] as int]@ + "\""@),
            s@ == start + joined(items.subrange(0, i as int)),
        decreases 13 - i,
    {
        if i > 0 {
            append_str(&mut s, ", ");
        }
        append_str(&mut s, POSITIONS[12 - i]);
        append_str(&mut s, " = \"");
        append_str(&mut s, RATINGS[p[i] as usize]);
        append_str(&mut s, "\"");
        proof {
            let q = items.subrange(0, i + 1);
            assert(q.drop_last() =~= items.subrange(0, i as int));
            if i == 0 {
                assert(q =~= seq![items[0]]);
            }
        }
        i = i + 1;
    }
    assert(items.subrange(0, 13) =~= items);
    append_str(&mut s, " }");
    s
}

/// The set flags' names as a TOML array.
fn flag_list_string(flags: &[bool], names: &[&'static str]) -> (r: String)
    requires
        flags@.len() <= names@.len(),
    ensures
        r@ == flag_list_text(flags@, names@),
{
    let mut s = "[".to_owned();
    let ghost start = s@;
    let mut i: usize = 0;
    let mut count: usize = 0;
    while i < flags.len()
        invariant
            i <= flags@.len(),
            flags@.len() <= names@.len(),
            count == set_names(flags@, names@, i as nat).len(),
            count <= i,
            s@ == start + joined(set_names(flags@, names@, i as nat)),
        decreases flags@.len() - i,
    {
        let ghost prev = set_names(flags@, names@, i as nat);
        if flags[i] {
            if count > 0 {
                append_str(&mut s, ", ");
            }
            count = count + 1;
            push_quoted(&mut s, names[i]);
            proof {
                let q = prev.push(quoted(names@[i as int]@));
                assert(q.drop_last() =~= prev);
                if prev.len() == 0 {
                    assert(q =~= seq![q[0]]);
                }
            }
        }
        i = i + 1;
    }
    append_str(&mut s, "]");
    s
}

/// A nibble's lower-case hex digit.
fn hex_char(n: u8) -> (c: char)
    requires
        n < 16,
    ensures
        c == hex_digit(n),
{
    if n < 10 {
        ((n + 48) as char)
    } else {
        ((n + 87) as char)
    }
}

/// The bytes in lower-case hex, quoted.
fn hex_string(bytes: &[u8]) -> (r: String)
    ensures
        r@ == quoted(hex_text(bytes@)),
{
    let mut s = "\"".to_owned();
    let ghost start = s@;
    let mut i: usize = 0;
    while i < bytes.len()
        invariant
            i <= bytes@.len(),
            s@ == start + hex_text(bytes@).take(2 * i as int),
        decreases bytes@.len() - i,
    {
        let b = bytes[i];
        push_char(&mut s, hex_char(b / 16));
        push_char(&mut s, hex_char(b % 16));
        assert(hex_text(bytes@).take(2 * (i + 1) as int) =~= hex_text(bytes@).take(2 * i as int).push(
            hex_digit(b / 16),
        ).push(hex_digit(b % 16)));
        i = i + 1;
    }
    assert(hex_text(bytes@).take(2 * bytes@.len() as int) =~= hex_text(bytes@));
    append_str(&mut s, "\"");
    s
}

/// Appends the table path: `players.NN`.
fn push_player_path(s: &mut String, slot: u8)
    ensures
        final(s)@ == old(s)@ + player_path(slot),
{
    append_str(s, "players.");
    if slot < 10 {
        append_str(s, "0");
    }
    push_decimal(s, slot as u32);
}

fn emit_top(out: &mut String, slot: u8, s: &PlayerSection)
    ensures
        final(out)@ == old(out)@ + player_top_text(slot, *s),
{
    append_str(out, "\n");
    let mut heading = "[".to_owned();
    push_player_path(&mut heading, slot);
    append_str(&mut heading, "]");
    let line = padded_string(heading.as_str(), "roster slot 01 .. 40 (32 on PES 15-18)");
    append_str(out, line.as_str());
    append_str(out, "\n");
    let name = match &s.name {
        Some(n) => Some(toml_quoted(n.as_str())),
        None => None,
    };
    emit(out, "name", name, "\"\"", "");
    let shirt = match &s.shirt_name {
        Some(n) => Some(toml_quoted(n.as_str())),
        None => None,
    };
    emit(out, "shirt_name", shirt, "\"\"", "");
    let number = match s.number {
        Some(n) => {
            let mut t = String::new();
            push_decimal(&mut t, n as u32);
            assert(t@ =~= decimal(n as nat));
            Some(t)
        },
        None => None,
    };
    emit(out, "number", number, "1", "shirt number, the roster's");
    emit_keys(out, s, &[PlayerKey::Nationality, PlayerKey::Age, PlayerKey::BootsId, PlayerKey::GlovesId, PlayerKey::BaseCopyId], Ghost(top_keys()));
    let face = match &s.ingame_face {
        Some(b) => Some(hex_string(b.as_slice())),
        None => None,
    };
    let mut comment = "the appearance block's undecoded run, hex, 50 bytes (46 on PES 15); applied before [".to_owned();
    push_player_path(&mut comment, slot);
    append_str(&mut comment, ".appearance]");
    emit(out, "ingame_face", face, "\"\"", comment.as_str());
    proof {
        assert(out@ =~= old(out)@ + player_top_text(slot, *s));
    }
}

fn emit_stats(out: &mut String, slot: u8, s: &PlayerSection)
    ensures
        final(out)@ == old(out)@ + player_stats_text(slot, *s),
{
    append_str(out, "\n[");
    push_player_path(out, slot);
    append_str(out, ".stats]\n");
    emit_keys(out, s, &[PlayerKey::AttackingProwess, PlayerKey::BallControl, PlayerKey::Dribbling, PlayerKey::TightPossession, PlayerKey::LowPass, PlayerKey::LoftedPass, PlayerKey::Finishing, PlayerKey::Heading, PlayerKey::PlaceKicking, PlayerKey::Swerve, PlayerKey::DefensiveProwess, PlayerKey::BallWinning, PlayerKey::Aggression, PlayerKey::KickingPower, PlayerKey::Speed, PlayerKey::ExplosivePower, PlayerKey::BodyControl, PlayerKey::PhysicalContact, PlayerKey::Jump, PlayerKey::Stamina, PlayerKey::Goalkeeping, PlayerKey::Catching, PlayerKey::Clearing, PlayerKey::Reflexes, PlayerKey::Coverage, PlayerKey::WeakFootUsage, PlayerKey::WeakFootAccuracy, PlayerKey::Form, PlayerKey::InjuryResistance, PlayerKey::Star, PlayerKey::PlayingAttitude], Ghost(stats_keys()));
    proof {
        assert(out@ =~= old(out)@ + player_stats_text(slot, *s));
    }
}

fn emit_positions_middle(out: &mut String, s: &PlayerSection)
    requires
        s.positions.playable matches Some(p) ==> forall|i: int| 0 <= i < 13 ==> p[i] < 4,
    ensures
        final(out)@ == old(out)@ + positions_middle_text(*s),
{
    let playable = match s.positions.playable {
        Some(p) => Some(playable_string(p)),
        None => None,
    };
    emit(out, "playable", playable, "{ CF = \"none\", SS = \"none\", RWF = \"none\", LWF = \"none\", AMF = \"none\", RMF = \"none\", LMF = \"none\", CMF = \"none\", DMF = \"none\", RB = \"none\", LB = \"none\", CB = \"none\", GK = \"none\" }", "\"none\" | \"C\" | \"B\" | \"A\"");
    let style = match s.positions.playing_style {
        Some(st) => {
            let mut t = String::new();
            push_quoted(&mut t, PLAY_STYLES[play_style_position(st)]);
            Some(t)
        },
        None => None,
    };
    emit(out, "playing_style", style, "\"none\"", "canonical PlayStyle name; \"none\" for none");
    proof {
        assert(out@ =~= old(out)@ + positions_middle_text(*s));
    }
}

fn emit_tail(out: &mut String, slot: u8, s: &PlayerSection)
    ensures
        final(out)@ == old(out)@ + player_tail_text(slot, *s),
{
    append_str(out, "\n[");
    push_player_path(out, slot);
    append_str(out, ".skills]\n");
    let skills = match s.skills.skills {
        Some(f) => Some(flag_list_string(f.as_slice(), SKILLS.as_slice())),
        None => None,
    };
    emit(out, "skills", skills, "[]", "the set skills, canonical names");
    let com = match s.skills.com_styles {
        Some(f) => Some(flag_list_string(f.as_slice(), COM_STYLES.as_slice())),
        None => None,
    };
    emit(
        out,
        "com_styles",
        com,
        "[]",
        "\"trickster\" \"mazing_run\" \"speeding_bullet\" \"incisive_run\" \"long_ball_expert\" \"early_cross\" \"long_ranger\"",
    );
    append_str(out, "\n[");
    push_player_path(out, slot);
    append_str(out, ".edit_flags]         # the game's own flags, all bool\n");
    emit_keys(out, s, &[PlayerKey::EditedPlayer, PlayerKey::EditedBasicSettings, PlayerKey::EditedRegisteredPosition, PlayerKey::EditedPlayablePositions, PlayerKey::EditedAbilities, PlayerKey::EditedSkills, PlayerKey::EditedPlayingStyle, PlayerKey::EditedComStyles, PlayerKey::EditedMotion, PlayerKey::EditedBaseCopy, PlayerKey::EditedFace, PlayerKey::EditedHair, PlayerKey::EditedPhysique, PlayerKey::EditedStrip], Ghost(flag_keys()));
    proof {
        assert(out@ =~= old(out)@ + player_tail_text(slot, *s));
    }
}

/// Appends one `[players.NN]` table. A registered position, stronger foot
/// or stronger hand that names no label is `OutOfRange` under the key's
/// path, the first such key in order; the text before it is already
/// written.
pub fn emit_player(out: &mut String, slot: u8, s: &PlayerSection) -> (r: Result<(), TeamTomlError>)
    requires
        s.positions.playable matches Some(p) ==> forall|i: int| 0 <= i < 13 ==> p[i] < 4,
    ensures
        r is Ok <==> player_bad_key(*s) is None,
        r is Ok ==> final(out)@ == old(out)@ + player_text(slot, *s),
        r is Err ==> final(out)@ == old(out)@ + player_partial(slot, *s),
        r matches Err(e) ==> player_key_error(e, *s),
{
    reveal(player_key_error);
    emit_top(out, slot, s);
    emit_stats(out, slot, s);
    append_str(out, "\n[");
    push_player_path(out, slot);
    append_str(out, ".positions]\n");
    let ghost upper = out@;
    proof {
        assert(upper =~= old(out)@ + player_upper_text(slot, *s));
    }
    match emit_label_key(out, s, PlayerKey::Registered) {
        Ok(()) => {},
        Err(e) => {
            return Err(e);
        },
    }
    emit_positions_middle(out, s);
    let ghost middle = out@;
    match emit_label_key(out, s, PlayerKey::StrongerFoot) {
        Ok(()) => {},
        Err(e) => {
            proof {
                assert(out@ =~= old(out)@ + player_partial(slot, *s));
            }
            return Err(e);
        },
    }
    match emit_label_key(out, s, PlayerKey::StrongerHand) {
        Ok(()) => {},
        Err(e) => {
            proof {
                assert(out@ =~= old(out)@ + player_partial(slot, *s));
            }
            return Err(e);
        },
    }
    emit_tail(out, slot, s);
    proof {
        assert(out@ =~= old(out)@ + player_text(slot, *s));
    }
    Ok(())
}


/// Every playable rating of the section names a rating.
pub open spec fn ratings_named(s: PlayerSection) -> bool {
    s.positions.playable matches Some(p) ==> forall|i: int| 0 <= i < 13 ==> p[i] < 4
}

/// The tables of `entries`' players, in order.
pub open spec fn players_text(entries: Seq<(&u8, &PlayerSection)>) -> Seq<char>
    decreases entries.len(),
{
    if entries.len() == 0 {
        Seq::empty()
    } else {
        players_text(entries.drop_last()) + player_text(*entries.last().0, *entries.last().1)
    }
}

/// The index of the first entry whose table has a positions key that names
/// no label.
pub open spec fn first_bad_player(entries: Seq<(&u8, &PlayerSection)>) -> Option<int>
    decreases entries.len(),
{
    if entries.len() == 0 {
        None
    } else {
        match first_bad_player(entries.drop_last()) {
            Some(i) => Some(i),
            None => if player_bad_key(*entries.last().1) is Some {
                Some(entries.len() - 1)
            } else {
                None
            },
        }
    }
}

/// The players' tables in slot order, each as `emit_player` writes it. At
/// the first player whose registered position, stronger foot or stronger
/// hand names no label, stops with that player's `OutOfRange`, the tables
/// before it and its own text before the key already written.
pub fn emit_players(out: &mut String, players: &std::collections::BTreeMap<u8, PlayerSection>) -> (r: Result<
    (),
    TeamTomlError,
>)
    requires
        forall|k: u8| #[trigger] players@.contains_key(k) ==> ratings_named(players@[k]),
    ensures
        ({
            let entries = vstd::std_specs::btree::spec_btree_map_iter(players).remaining();
            &&& r is Ok <==> first_bad_player(entries) is None
            &&& r is Ok ==> final(out)@ == old(out)@ + players_text(entries)
            &&& r is Err ==> (first_bad_player(entries) matches Some(i) && final(out)@ == old(out)@
                + players_text(entries.take(i)) + player_partial(*entries[i].0, *entries[i].1))
            &&& r matches Err(e) ==> (first_bad_player(entries) matches Some(i) && player_key_error(
                e,
                *entries[i].1,
            ))
        }),
{
    broadcast use vstd::std_specs::btree::group_btree_axioms;
    let ghost entries = vstd::std_specs::btree::spec_btree_map_iter(players).remaining();
    for e in it: players.iter()
        invariant
            it.seq() == entries,
            forall|k: u8| #[trigger] players@.contains_key(k) ==> ratings_named(players@[k]),
            out@ == old(out)@ + players_text(entries.take(it.index() as int)),
            first_bad_player(entries.take(it.index() as int)) is None,
    {
        let ghost i = it.index();
        let (slot, section) = e;
        proof {
            assert(entries.take(i + 1).drop_last() =~= entries.take(i as int));
            assert(players@.contains_key(*entries[i as int].0));
        }
        match emit_player(out, *slot, section) {
            Ok(()) => {},
            Err(e) => {
                proof {
                    assert(first_bad_player(entries.take(i + 1)) == Some(i as int));
                    lemma_first_bad_prefix(entries, i + 1);
                }
                return Err(e);
            },
        }
    }
    proof {
        assert(entries.take(entries.len() as int) =~= entries);
    }
    Ok(())
}

/// A bad entry found in a prefix is the first of the whole sequence.
proof fn lemma_first_bad_prefix(entries: Seq<(&u8, &PlayerSection)>, n: int)
    requires
        0 <= n <= entries.len(),
        first_bad_player(entries.take(n)) is Some,
    ensures
        first_bad_player(entries) == first_bad_player(entries.take(n)),
    decreases entries.len(),
{
    if n < entries.len() {
        assert(entries.drop_last().take(n) =~= entries.take(n));
        lemma_first_bad_prefix(entries.drop_last(), n);
    } else {
        assert(entries.take(n) =~= entries);
    }
}

/// A version's number in the document: 15 to 21.
pub open spec fn version_number(v: PesVersion) -> nat {
    match v {
        PesVersion::Pes15 => 15,
        PesVersion::Pes16 => 16,
        PesVersion::Pes17 => 17,
        PesVersion::Pes18 => 18,
        PesVersion::Pes19 => 19,
        PesVersion::Pes20 => 20,
        PesVersion::Pes21 => 21,
    }
}

/// The document's first line: `pes_version`, commented out (showing 19)
/// when the document names no version.
pub open spec fn version_line(v: Option<PesVersion>) -> Seq<char> {
    let comment = "the save this was written from; import into another version converts"@;
    match v {
        Some(v) => padded("pes_version = "@ + decimal(version_number(v)), comment) + "\n"@,
        None => "# "@ + padded("pes_version = "@ + "19"@, comment) + "\n"@,
    }
}

/// The whole document's text: the version line, `[team]`, `[tactics]` and
/// the players' tables in the order of `entries`, the document's players
/// as its map yields them (slot order).
pub open spec fn document_text(d: TeamToml, entries: Seq<(&u8, &PlayerSection)>) -> Seq<char> {
    version_line(d.pes_version) + team_text(d.team) + tactics_text(d.tactics) + players_text(entries)
}

fn version_number_of(v: PesVersion) -> (n: u32)
    ensures
        n == version_number(v),
{
    match v {
        PesVersion::Pes15 => 15,
        PesVersion::Pes16 => 16,
        PesVersion::Pes17 => 17,
        PesVersion::Pes18 => 18,
        PesVersion::Pes19 => 19,
        PesVersion::Pes20 => 20,
        PesVersion::Pes21 => 21,
    }
}

/// The document's first line.
fn version_line_string(v: Option<PesVersion>) -> (r: String)
    ensures
        r@ == version_line(v),
{
    let mut body = "pes_version = ".to_owned();
    match v {
        Some(v) => push_decimal(&mut body, version_number_of(v)),
        None => append_str(&mut body, "19"),
    }
    let line = padded_string(
        body.as_str(),
        "the save this was written from; import into another version converts",
    );
    let mut out = String::new();
    if v.is_none() {
        append_str(&mut out, "# ");
    }
    append_str(&mut out, line.as_str());
    append_str(&mut out, "\n");
    proof {
        assert(out@ =~= version_line(v));
    }
    out
}

impl TeamToml {
    /// The document's text. A formation slot that names no position is the
    /// tactics table's `OutOfRange`; a player's registered position,
    /// stronger foot or stronger hand that names no label is that player's
    /// `OutOfRange`, the tactics checked first.
    pub fn to_toml(&self) -> (r: Result<String, TeamTomlError>)
        requires
            forall|k: u8| #[trigger] self.players@.contains_key(k) ==> ratings_named(self.players@[k]),
        ensures
            ({
                let entries = vstd::std_specs::btree::spec_btree_map_iter(&self.players).remaining();
                &&& r is Ok <==> tactics_bad_slot(self.tactics) is None && first_bad_player(entries) is None
                &&& r matches Ok(s) ==> s@ == document_text(*self, entries)
                &&& tactics_bad_slot(self.tactics) matches Some((p, f, x)) ==> (r matches Err(
                    TeamTomlError::OutOfRange { key, value, range },
                ) && key@ == formation_key(p, f) && value == x as i64 && range@ == "0 to 12"@)
                &&& tactics_bad_slot(self.tactics) is None ==> (first_bad_player(entries) matches Some(i) ==> (
                r matches Err(e) && player_key_error(e, *entries[i].1)))
            }),
    {
        let mut out = version_line_string(self.pes_version);
        emit_team(&mut out, &self.team);
        match emit_tactics(&mut out, &self.tactics) {
            Ok(()) => {},
            Err(e) => {
                return Err(e);
            },
        }
        match emit_players(&mut out, &self.players) {
            Ok(()) => {},
            Err(e) => {
                return Err(e);
            },
        }

        Ok(out)
    }
}

} // verus!
