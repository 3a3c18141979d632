//! The document text of the `[team]` and `[tactics]` tables: one `key = value` line per
//! key in the format's order, a key the document does not hold written as a
//! commented line with its neutral value, comments aligned at column 33.
use vstd::prelude::*;
use vstd::string::StringSliceAdditionalSpecFns;
use vstd::utf8::encode_utf8;

use crate::codec::names::{append_str, decimal, push_decimal};
use crate::codec::push_char;
use crate::interchange::team_toml::labels::{INSTRUCTIONS, POSITIONS, STYLE_SWITCHES};
use crate::interchange::team_toml::team::{instruction_index, instruction_position};
use crate::interchange::team_toml::{
    InstructionEntry, PresetSection, TacticsSection, TeamEditFlagsSection, TeamSection,
    TeamTomlError,
};
use crate::model::team::{KitSlot, TeamColor};
use crate::model::instruction::Instruction;
use crate::model::tactics::FormationSlot;

verus! {

/// `n` spaces.
pub open spec fn spaces(n: nat) -> Seq<char> {
    Seq::new(n, |i: int| ' ')
}

/// A line body with its comment: padded with spaces so the `#` stands at
/// column 33 (one space at least), or the body alone when the comment is
/// empty.
pub open spec fn padded(body: Seq<char>, comment: Seq<char>) -> Seq<char> {
    if comment.len() == 0 {
        body
    } else {
        let width = encode_utf8(body).len();
        let pad: nat = if width < 32 { (32 - width) as nat } else { 1 };
        body + spaces(pad) + "# "@ + comment
    }
}

/// One key's line: `name = value`, or, for a key the document does not
/// hold, `# name = neutral`; then the comment and a newline.
#[verifier::opaque]
pub open spec fn key_line(
    name: Seq<char>,
    value: Option<Seq<char>>,
    neutral: Seq<char>,
    comment: Seq<char>,
) -> Seq<char> {
    let body = name + " = "@ + match value {
        Some(v) => v,
        None => neutral,
    };
    let line = padded(body, comment);
    (if value is Some { line } else { "# "@ + line }) + "\n"@
}

/// The views of an optional text.
pub open spec fn opt_view(value: Option<String>) -> Option<Seq<char>> {
    match value {
        Some(v) => Some(v@),
        None => None,
    }
}

/// A boolean as TOML writes it.
pub open spec fn bool_text(b: bool) -> Seq<char> {
    if b {
        "true"@
    } else {
        "false"@
    }
}

/// An optional byte in decimal.
pub open spec fn opt_u8_text(v: Option<u8>) -> Option<Seq<char>> {
    match v {
        Some(x) => Some(decimal(x as nat)),
        None => None,
    }
}

/// An optional boolean as TOML writes it.
pub open spec fn opt_bool_text(v: Option<bool>) -> Option<Seq<char>> {
    match v {
        Some(b) => Some(bool_text(b)),
        None => None,
    }
}

/// Texts joined by `, `.
pub open spec fn joined(items: Seq<Seq<char>>) -> Seq<char>
    decreases items.len(),
{
    if items.len() == 0 {
        Seq::empty()
    } else if items.len() == 1 {
        items[0]
    } else {
        joined(items.drop_last()) + ", "@ + items.last()
    }
}

/// A byte array as a TOML array: `[1, 2, 3]`.
pub open spec fn array_text(a: Seq<u8>) -> Seq<char> {
    "["@ + joined(a.map_values(|v: u8| decimal(v as nat))) + "]"@
}

/// An optional eleven-byte array as a TOML array.
pub open spec fn opt_array_text11(v: Option<[u8; 11]>) -> Option<Seq<char>> {
    match v {
        Some(a) => Some(array_text(a@)),
        None => None,
    }
}

/// An optional twenty-one-byte array as a TOML array.
pub open spec fn opt_array_text21(v: Option<[u8; 21]>) -> Option<Seq<char>> {
    match v {
        Some(a) => Some(array_text(a@)),
        None => None,
    }
}

/// An optional three-byte array as a TOML array.
pub open spec fn opt_array_text3(v: Option<[u8; 3]>) -> Option<Seq<char>> {
    match v {
        Some(a) => Some(array_text(a@)),
        None => None,
    }
}

/// A label in double quotes.
pub open spec fn quoted(label: Seq<char>) -> Seq<char> {
    "\""@ + label + "\""@
}

/// Style switch `k`'s line: its label pair's `false` or `true` label,
/// quoted, with both labels in the comment.
#[verifier::opaque]
pub open spec fn switch_line(k: int, value: Option<bool>) -> Seq<char> {
    let (key, pair) = STYLE_SWITCHES[k];
    key_line(
        key@,
        match value {
            Some(on) => Some(quoted(if on { pair[1]@ } else { pair[0]@ })),
            None => None,
        },
        quoted(pair[0]@),
        quoted(pair[0]@) + " | "@ + quoted(pair[1]@),
    )
}

/// The `[tactics]` table's keys outside the presets, with the set-piece and
/// auto subtables.
#[verifier::opaque]
pub open spec fn tactics_head_text(t: TacticsSection) -> Seq<char> {
    "\n[tactics]\n"@
    + key_line("starting_eleven"@, opt_array_text11(t.starting_eleven), "[]"@, ""@)
    + key_line("bench_order"@, opt_array_text21(t.bench_order), "[]"@, ""@)
    + key_line("players_to_join_attack"@, opt_array_text3(t.players_to_join_attack), "[]"@, "roster slots; 255 = none"@)
    + "\n[tactics.set_pieces]\n"@
    + key_line("free_kick_long"@, opt_u8_text(t.set_pieces.free_kick_long), "255"@, "roster slots; 255 = none"@)
    + key_line("free_kick_short"@, opt_u8_text(t.set_pieces.free_kick_short), "255"@, "roster slots; 255 = none"@)
    + key_line("free_kick_second"@, opt_u8_text(t.set_pieces.free_kick_second), "255"@, "roster slots; 255 = none"@)
    + key_line("corner_left"@, opt_u8_text(t.set_pieces.corner_left), "255"@, "roster slots; 255 = none"@)
    + key_line("corner_right"@, opt_u8_text(t.set_pieces.corner_right), "255"@, "roster slots; 255 = none"@)
    + key_line("penalty"@, opt_u8_text(t.set_pieces.penalty), "255"@, "roster slots; 255 = none"@)
    + key_line("captain"@, opt_u8_text(t.set_pieces.captain), "255"@, "roster slots; 255 = none"@)
    + "\n[tactics.auto]\n"@
    + key_line("substitution"@, opt_u8_text(t.auto.substitution), "255"@, "PES 16+; the stored setting byte"@)
    + key_line("offside_trap"@, opt_bool_text(t.auto.offside_trap), "false"@, "PES 16+"@)
    + key_line("preset_change"@, opt_bool_text(t.auto.preset_change), "false"@, "PES 16+"@)
    + key_line("attack_defence_levels"@, opt_bool_text(t.auto.attack_defence_levels), "false"@, "PES 17+"@)
}

/// A formation slot's inline table.
#[verifier::opaque]
pub open spec fn slot_text(slot: FormationSlot) -> Seq<char> {
    "{ position = \""@ + POSITIONS[slot.position as int]@ + "\", x = "@ + decimal(slot.x as nat) + ", y = "@
        + decimal(slot.y as nat) + " }"@
}

/// The index of the first slot from `k` whose position byte names no
/// position.
pub open spec fn bad_index_from(s: [FormationSlot; 11], k: nat) -> Option<nat>
    decreases 11 - k,
{
    if k >= 11 {
        None
    } else if s[k as int].position > 12 {
        Some(k)
    } else {
        bad_index_from(s, k + 1)
    }
}

/// The position byte of the first slot from `k` that names no position.
pub open spec fn bad_position_from(s: [FormationSlot; 11], k: nat) -> Option<u8> {
    match bad_index_from(s, k) {
        Some(j) => Some(s[j as int].position),
        None => None,
    }
}

/// A slot's line inside the `players` array.
pub open spec fn slot_line(slot: FormationSlot) -> Seq<char> {
    "    "@ + slot_text(slot) + ",\n"@
}

/// The lines of the formation's first `n` slots.
pub open spec fn slot_lines_to(s: [FormationSlot; 11], n: nat) -> Seq<char>
    decreases n,
{
    if n == 0 {
        Seq::empty()
    } else {
        slot_lines_to(s, (n - 1) as nat) + slot_line(s[n - 1])
    }
}

/// `n` + 1 in decimal: the 1-based number the text gives preset or
/// formation `n`.
pub open spec fn ordinal(n: int) -> Seq<char> {
    decimal((n + 1) as nat)
}

/// The key an out-of-range formation slot is reported under.
pub open spec fn formation_key(p: int, f: int) -> Seq<char> {
    "tactics.preset_"@ + ordinal(p) + ".formation_"@ + ordinal(f) + ".players"@
}

/// The heading of formation `f` of preset `p` and the opening of its
/// `players` array.
pub open spec fn formation_head(p: int, f: int) -> Seq<char> {
    "\n[tactics.preset_"@ + ordinal(p) + ".formation_"@ + ordinal(f) + "]\n"@ + "players = [\n"@
}

/// Formation `f` of preset `p`'s table, when the document holds it.
pub open spec fn formation_text(p: int, f: int, v: Option<[FormationSlot; 11]>) -> Seq<char> {
    match v {
        Some(s) => formation_head(p, f) + slot_lines_to(s, 11) + "]\n"@,
        None => Seq::empty(),
    }
}

/// What is written of formation `f` of preset `p` before its first slot
/// that names no position: the heading and the lines of the slots before it.
pub open spec fn formation_partial(p: int, f: int, s: [FormationSlot; 11]) -> Seq<char> {
    formation_head(p, f) + slot_lines_to(s, bad_index_from(s, 0)->0)
}

/// An instruction entry's inline table.
#[verifier::opaque]
pub open spec fn entry_text(e: InstructionEntry) -> Seq<char> {
    "{ instruction = \""@ + INSTRUCTIONS[instruction_index(e.instruction)]@ + "\", player = "@
        + decimal(e.player as nat) + " }"@
}

/// A preset's style and sliders tables.
#[verifier::opaque]
pub open spec fn preset_top_text(p: int, ps: PresetSection) -> Seq<char> {
    "\n[tactics.preset_"@ + ordinal(p) + ".style]\n"@
    + switch_line(0, ps.style.attacking_style)
    + switch_line(1, ps.style.attacking_zone)
    + switch_line(2, ps.style.buildup)
    + switch_line(3, ps.style.positioning)
    + switch_line(4, ps.style.defensive_style)
    + switch_line(5, ps.style.containment_area)
    + switch_line(6, ps.style.pressure)
    + key_line("fluid"@, opt_bool_text(ps.style.fluid), "false"@, "PES 16+"@)
    + "\n[tactics.preset_"@ + ordinal(p) + ".sliders]\n"@
    + key_line("support_range"@, opt_u8_text(ps.sliders.support_range), "1"@, "1 to 10"@)
    + key_line("defensive_line"@, opt_u8_text(ps.sliders.defensive_line), "1"@, "1 to 10"@)
    + key_line("compactness"@, opt_u8_text(ps.sliders.compactness), "1"@, "1 to 10"@)
    + key_line("numbers_in_attack"@, opt_u8_text(ps.sliders.numbers_in_attack), "1"@, "1 few to 3 many"@)
    + key_line("numbers_in_defence"@, opt_u8_text(ps.sliders.numbers_in_defence), "1"@, "1 few to 3 many"@)
}

/// A preset's instructions table, when the document holds one.
pub open spec fn instructions_text(p: int, ps: PresetSection) -> Seq<char> {
    match ps.instructions {
        Some(ins) => "\n[tactics.preset_"@ + ordinal(p) + ".instructions]\n"@ + "attack = ["@
            + entry_text(ins.attack[0]) + ", "@ + entry_text(ins.attack[1]) + "]\n"@ + "defence = ["@
            + entry_text(ins.defence[0]) + ", "@ + entry_text(ins.defence[1]) + "]\n"@,
        None => Seq::empty(),
    }
}

/// A preset's text: the style table, the sliders table, each formation the
/// document holds and the instructions table when it holds one.
pub open spec fn preset_text(p: int, ps: PresetSection) -> Seq<char> {
    preset_top_text(p, ps) + formation_text(p, 0, ps.formations[0]) + formation_text(p, 1, ps.formations[1])
        + formation_text(p, 2, ps.formations[2]) + instructions_text(p, ps)
}

/// The first formation slot of preset `ps` whose position names no
/// position: its formation and position byte.
#[verifier::opaque]
pub open spec fn preset_bad_slot(ps: PresetSection) -> Option<(int, u8)> {
    let at = |f: int| match ps.formations[f] {
        Some(s) => match bad_position_from(s, 0) {
            Some(x) => Some((f, x)),
            None => None,
        },
        None => None,
    };
    if at(0) is Some {
        at(0)
    } else if at(1) is Some {
        at(1)
    } else {
        at(2)
    }
}

/// The first formation slot of the table whose position names no position:
/// its preset, formation and position byte.
pub open spec fn tactics_bad_slot(t: TacticsSection) -> Option<(int, int, u8)> {
    let at = |p: int| match preset_bad_slot(t.presets[p]) {
        Some((f, x)) => Some((p, f, x)),
        None => None,
    };
    if at(0) is Some {
        at(0)
    } else if at(1) is Some {
        at(1)
    } else {
        at(2)
    }
}

/// The whole `[tactics]` table's text.
pub open spec fn tactics_text(t: TacticsSection) -> Seq<char> {
    tactics_head_text(t) + preset_text(0, t.presets[0]) + preset_text(1, t.presets[1]) + preset_text(
        2,
        t.presets[2],
    )
}

/// What is written of preset `p` before its first formation slot that names
/// no position: the style and sliders tables, the formations before that
/// slot's, and that formation's heading and slots before it.
pub open spec fn preset_partial(p: int, ps: PresetSection) -> Seq<char> {
    match preset_bad_slot(ps) {
        Some((f, _)) => preset_top_text(p, ps) + (if f >= 1 {
            formation_text(p, 0, ps.formations[0])
        } else {
            Seq::empty()
        }) + (if f >= 2 {
            formation_text(p, 1, ps.formations[1])
        } else {
            Seq::empty()
        }) + formation_partial(p, f, ps.formations[f]->Some_0),
        None => Seq::empty(),
    }
}

/// What is written of the `[tactics]` table before its first formation slot
/// that names no position: the keys outside the presets, the presets before
/// that slot's, and what that preset writes before it.
pub open spec fn tactics_partial(t: TacticsSection) -> Seq<char> {
    match tactics_bad_slot(t) {
        Some((p, _, _)) => tactics_head_text(t) + (if p >= 1 {
            preset_text(0, t.presets[0])
        } else {
            Seq::empty()
        }) + (if p >= 2 {
            preset_text(1, t.presets[1])
        } else {
            Seq::empty()
        }) + preset_partial(p, t.presets[p]),
        None => Seq::empty(),
    }
}

/// `padded(body, comment)`.
pub(crate) fn padded_string(body: &str, comment: &str) -> (r: String)
    ensures
        r@ == padded(body@, comment@),
{
    let mut s = body.to_owned();
    if comment.is_empty() {
        return s;
    }
    let width = body.as_bytes().len();
    let pad: usize = if width < 32 {
        32 - width
    } else {
        1
    };
    let ghost start = s@;
    let mut i: usize = 0;
    while i < pad
        invariant
            i <= pad,
            s@ == start + spaces(i as nat),
        decreases pad - i,
    {
        push_char(&mut s, ' ');
        i = i + 1;
        assert(s@ =~= start + spaces(i as nat));
    }
    append_str(&mut s, "# ");
    append_str(&mut s, comment);
    proof {
        assert(pad as nat == (if encode_utf8(body@).len() < 32 { (32 - encode_utf8(body@).len()) as nat } else { 1nat }));
    }
    s
}

/// Appends one key's line.
pub fn emit(out: &mut String, name: &str, value: Option<String>, neutral: &str, comment: &str)
    ensures
        final(out)@ == old(out)@ + key_line(name@, opt_view(value), neutral@, comment@),
{
    reveal(key_line);
    let set = value.is_some();
    let mut body = name.to_owned();
    append_str(&mut body, " = ");
    match &value {
        Some(v) => append_str(&mut body, v.as_str()),
        None => append_str(&mut body, neutral),
    }
    let line = padded_string(body.as_str(), comment);
    if !set {
        append_str(out, "# ");
    }
    append_str(out, line.as_str());
    append_str(out, "\n");
}

/// `opt_u8_text(v)` as a string.
fn opt_u8_string(v: Option<u8>) -> (r: Option<String>)
    ensures
        opt_view(r) == opt_u8_text(v),
{
    match v {
        Some(x) => {
            let mut s = String::new();
            push_decimal(&mut s, x as u32);
            Some(s)
        },
        None => None,
    }
}

/// `opt_bool_text(v)` as a string.
fn opt_bool_string(v: Option<bool>) -> (r: Option<String>)
    ensures
        opt_view(r) == opt_bool_text(v),
{
    match v {
        Some(true) => Some("true".to_owned()),
        Some(false) => Some("false".to_owned()),
        None => None,
    }
}

/// `array_text(a)` as a string.
fn array_string(a: &[u8]) -> (r: String)
    ensures
        r@ == array_text(a@),
{
    let ghost items = a@.map_values(|v: u8| decimal(v as nat));
    let mut s = "[".to_owned();
    let ghost start = s@;
    let mut i: usize = 0;
    while i < a.len()
        invariant
            i <= a@.len(),
            items == a@.map_values(|v: u8| decimal(v as nat)),
            s@ == start + joined(items.subrange(0, i as int)),
        decreases a@.len() - i,
    {
        let ghost before = s@;
        if i > 0 {
            append_str(&mut s, ", ");
        }
        push_decimal(&mut s, a[i] as u32);
        proof {
            let q = items.subrange(0, i + 1);
            assert(q.drop_last() =~= items.subrange(0, i as int));
            assert(q.last() == decimal(a@[i as int] as nat));
            if i == 0 {
                assert(q =~= seq![items[0]]);
            }
        }
        i = i + 1;
    }
    proof {
        assert(items.subrange(0, a@.len() as int) =~= items);
    }
    append_str(&mut s, "]");
    s
}

/// Appends style switch `k`'s line.
fn emit_switch(out: &mut String, k: usize, value: Option<bool>)
    requires
        k < 7,
    ensures
        final(out)@ == old(out)@ + switch_line(k as int, value),
{
    reveal(switch_line);
    let (key, pair) = STYLE_SWITCHES[k];
    let mut neutral = "\"".to_owned();
    append_str(&mut neutral, pair[0]);
    append_str(&mut neutral, "\"");
    let mut comment = neutral.clone();
    append_str(&mut comment, " | \"");
    append_str(&mut comment, pair[1]);
    append_str(&mut comment, "\"");
    let text = match value {
        Some(on) => {
            let mut t = "\"".to_owned();
            append_str(&mut t, if on { pair[1] } else { pair[0] });
            append_str(&mut t, "\"");
            Some(t)
        },
        None => None,
    };
    proof {
        assert(" | \""@ =~= " | "@ + "\""@) by {
            reveal_strlit(" | \"");
            reveal_strlit(" | ");
            reveal_strlit("\"");
        }
    }
    proof {
        assert(neutral@ =~= quoted(pair[0]@));
        assert(comment@ =~= quoted(pair[0]@) + " | "@ + quoted(pair[1]@));
        assert(opt_view(text) == match value {
            Some(on) => Some(quoted(if on { pair[1]@ } else { pair[0]@ })),
            None => None,
        }) by {
            if let Some(t) = text {
                assert(t@ =~= quoted(if value->0 { pair[1]@ } else { pair[0]@ }));
            }
        }
    }
    emit(out, key, text, neutral.as_str(), comment.as_str());
}

/// The table's keys outside the presets.
fn head_string(t: &TacticsSection) -> (r: String)
    ensures
        r@ == tactics_head_text(*t),
{
    reveal(tactics_head_text);
    let mut s = "\n[tactics]\n".to_owned();
    let v = match t.starting_eleven {
        Some(a) => Some(array_string(a.as_slice())),
        None => None,
    };
    emit(&mut s, "starting_eleven", v, "[]", "");
    let v = match t.bench_order {
        Some(a) => Some(array_string(a.as_slice())),
        None => None,
    };
    emit(&mut s, "bench_order", v, "[]", "");
    let v = match t.players_to_join_attack {
        Some(a) => Some(array_string(a.as_slice())),
        None => None,
    };
    emit(&mut s, "players_to_join_attack", v, "[]", "roster slots; 255 = none");
    append_str(&mut s, "\n[tactics.set_pieces]\n");
    emit(&mut s, "free_kick_long", opt_u8_string(t.set_pieces.free_kick_long), "255", "roster slots; 255 = none");
    emit(&mut s, "free_kick_short", opt_u8_string(t.set_pieces.free_kick_short), "255", "roster slots; 255 = none");
    emit(&mut s, "free_kick_second", opt_u8_string(t.set_pieces.free_kick_second), "255", "roster slots; 255 = none");
    emit(&mut s, "corner_left", opt_u8_string(t.set_pieces.corner_left), "255", "roster slots; 255 = none");
    emit(&mut s, "corner_right", opt_u8_string(t.set_pieces.corner_right), "255", "roster slots; 255 = none");
    emit(&mut s, "penalty", opt_u8_string(t.set_pieces.penalty), "255", "roster slots; 255 = none");
    emit(&mut s, "captain", opt_u8_string(t.set_pieces.captain), "255", "roster slots; 255 = none");
    append_str(&mut s, "\n[tactics.auto]\n");
    emit(&mut s, "substitution", opt_u8_string(t.auto.substitution), "255", "PES 16+; the stored setting byte");
    emit(&mut s, "offside_trap", opt_bool_string(t.auto.offside_trap), "false", "PES 16+");
    emit(&mut s, "preset_change", opt_bool_string(t.auto.preset_change), "false", "PES 16+");
    emit(&mut s, "attack_defence_levels", opt_bool_string(t.auto.attack_defence_levels), "false", "PES 17+");
    s
}

/// `n` + 1 appended in decimal.
fn push_ordinal(s: &mut String, n: usize)
    requires
        n < 3,
    ensures
        final(s)@ == old(s)@ + ordinal(n as int),
{
    push_decimal(s, (n + 1) as u32);
}

/// A slot's inline table, its position naming a position.
fn slot_string(slot: FormationSlot) -> (r: String)
    requires
        slot.position <= 12,
    ensures
        r@ == slot_text(slot),
{
    reveal(slot_text);
    let mut s = "{ position = \"".to_owned();
    append_str(&mut s, POSITIONS[slot.position as usize]);
    append_str(&mut s, "\", x = ");
    push_decimal(&mut s, slot.x as u32);
    append_str(&mut s, ", y = ");
    push_decimal(&mut s, slot.y as u32);
    append_str(&mut s, " }");
    s
}

/// Appends formation `f` of preset `p`'s table; at the first slot whose
/// position names no position, stops there with `OutOfRange`, the heading
/// and the slots before it already written.
fn emit_formation(out: &mut String, p: usize, f: usize, v: Option<[FormationSlot; 11]>) -> (r: Result<
    (),
    TeamTomlError,
>)
    requires
        p < 3,
        f < 3,
    ensures
        match v {
            Some(s) => match bad_index_from(s, 0) {
                Some(j) => r matches Err(TeamTomlError::OutOfRange { key, value, range }) && key@
                    == formation_key(p as int, f as int) && value == s[j as int].position as i64 && range@
                    == "0 to 12"@ && final(out)@ == old(out)@ + formation_partial(p as int, f as int, s),
                None => r is Ok && final(out)@ == old(out)@ + formation_text(p as int, f as int, v),
            },
            None => r is Ok && final(out)@ == old(out)@,
        },
{
    let slots = match v {
        Some(s) => s,
        None => {
            assert(old(out)@ =~= old(out)@ + Seq::<char>::empty());
            return Ok(());
        },
    };
    append_str(out, "\n[tactics.preset_");
    push_ordinal(out, p);
    append_str(out, ".formation_");
    push_ordinal(out, f);
    append_str(out, "]\n");
    append_str(out, "players = [\n");
    let ghost start = out@;
    proof {
        assert(start =~= old(out)@ + formation_head(p as int, f as int));
        assert(slot_lines_to(slots, 0) =~= Seq::<char>::empty());
    }
    let mut j: usize = 0;
    while j < 11
        invariant
            j <= 11,
            p < 3,
            f < 3,
            v == Some(slots),
            start == old(out)@ + formation_head(p as int, f as int),
            bad_index_from(slots, 0) == bad_index_from(slots, j as nat),
            out@ == start + slot_lines_to(slots, j as nat),
        decreases 11 - j,
    {
        if slots[j].position > 12 {
            let mut key = "tactics.preset_".to_owned();
            push_ordinal(&mut key, p);
            append_str(&mut key, ".formation_");
            push_ordinal(&mut key, f);
            append_str(&mut key, ".players");
            proof {
                assert(bad_index_from(slots, j as nat) == Some(j as nat));
                assert(out@ =~= old(out)@ + formation_partial(p as int, f as int, slots));
                assert(key@ == formation_key(p as int, f as int));
            }
            let range = "0 to 12".to_owned();
            assert(range@ == "0 to 12"@);
            let value = slots[j].position as i64;
            assert(value == slots[j as int].position as i64);
            return Err(TeamTomlError::OutOfRange { key, value, range });
        }
        append_str(out, "    ");
        let text = slot_string(slots[j]);
        append_str(out, text.as_str());
        append_str(out, ",\n");
        proof {
            assert(out@ =~= start + slot_lines_to(slots, (j + 1) as nat));
        }
        j = j + 1;
    }
    append_str(out, "]\n");
    proof {
        assert(out@ =~= old(out)@ + formation_text(p as int, f as int, v));
    }
    Ok(())
}

/// An instruction entry's inline table.
fn entry_string(e: InstructionEntry) -> (r: String)
    ensures
        r@ == entry_text(e),
{
    reveal(entry_text);
    let mut s = "{ instruction = \"".to_owned();
    append_str(&mut s, INSTRUCTIONS[instruction_position(e.instruction)]);
    append_str(&mut s, "\", player = ");
    push_decimal(&mut s, e.player as u32);
    append_str(&mut s, " }");
    s
}

/// Preset `p`'s style and sliders tables.
fn preset_top_string(p: usize, ps: &PresetSection) -> (r: String)
    requires
        p < 3,
    ensures
        r@ == preset_top_text(p as int, *ps),
{
    reveal(preset_top_text);
    let mut s = "\n[tactics.preset_".to_owned();
    push_ordinal(&mut s, p);
    append_str(&mut s, ".style]\n");
    emit_switch(&mut s, 0, ps.style.attacking_style);
    emit_switch(&mut s, 1, ps.style.attacking_zone);
    emit_switch(&mut s, 2, ps.style.buildup);
    emit_switch(&mut s, 3, ps.style.positioning);
    emit_switch(&mut s, 4, ps.style.defensive_style);
    emit_switch(&mut s, 5, ps.style.containment_area);
    emit_switch(&mut s, 6, ps.style.pressure);
    emit(&mut s, "fluid", opt_bool_string(ps.style.fluid), "false", "PES 16+");
    append_str(&mut s, "\n[tactics.preset_");
    push_ordinal(&mut s, p);
    append_str(&mut s, ".sliders]\n");
    emit(&mut s, "support_range", opt_u8_string(ps.sliders.support_range), "1", "1 to 10");
    emit(&mut s, "defensive_line", opt_u8_string(ps.sliders.defensive_line), "1", "1 to 10");
    emit(&mut s, "compactness", opt_u8_string(ps.sliders.compactness), "1", "1 to 10");
    emit(&mut s, "numbers_in_attack", opt_u8_string(ps.sliders.numbers_in_attack), "1", "1 few to 3 many");
    emit(&mut s, "numbers_in_defence", opt_u8_string(ps.sliders.numbers_in_defence), "1", "1 few to 3 many");
    s
}

/// Preset `p`'s instructions table, when the document holds one.
fn instructions_string(p: usize, ps: &PresetSection) -> (r: String)
    requires
        p < 3,
    ensures
        r@ == instructions_text(p as int, *ps),
{
    match ps.instructions {
        Some(ins) => {
            let mut s = "\n[tactics.preset_".to_owned();
            push_ordinal(&mut s, p);
            append_str(&mut s, ".instructions]\n");
            append_str(&mut s, "attack = [");
            let a0 = entry_string(ins.attack[0]);
            append_str(&mut s, a0.as_str());
            append_str(&mut s, ", ");
            let a1 = entry_string(ins.attack[1]);
            append_str(&mut s, a1.as_str());
            append_str(&mut s, "]\n");
            append_str(&mut s, "defence = [");
            let d0 = entry_string(ins.defence[0]);
            append_str(&mut s, d0.as_str());
            append_str(&mut s, ", ");
            let d1 = entry_string(ins.defence[1]);
            append_str(&mut s, d1.as_str());
            append_str(&mut s, "]\n");
            s
        },
        None => String::new(),
    }
}

/// Appends preset `p`'s text; at the first formation slot whose position
/// names no position, stops there with `OutOfRange`, what comes before it
/// already written.
#[verifier::spinoff_prover]
#[verifier::rlimit(80)]
fn emit_preset(out: &mut String, p: usize, ps: &PresetSection) -> (r: Result<(), TeamTomlError>)
    requires
        p < 3,
    ensures
        match preset_bad_slot(*ps) {
            Some((f, x)) => r matches Err(TeamTomlError::OutOfRange { key, value, range }) && key@
                == formation_key(p as int, f) && value == x as i64 && range@ == "0 to 12"@ && final(out)@
                == old(out)@ + preset_partial(p as int, *ps),
            None => r is Ok && final(out)@ == old(out)@ + preset_text(p as int, *ps),
        },
{
    reveal(preset_bad_slot);
    let top = preset_top_string(p, ps);
    append_str(out, top.as_str());
    match emit_formation(out, p, 0, ps.formations[0]) {
        Ok(()) => {},
        Err(e) => {
            proof {
                assert(out@ =~= old(out)@ + preset_partial(p as int, *ps));
            }
            return Err(e);
        },
    }
    match emit_formation(out, p, 1, ps.formations[1]) {
        Ok(()) => {},
        Err(e) => {
            proof {
                assert(out@ =~= old(out)@ + preset_partial(p as int, *ps));
            }
            return Err(e);
        },
    }
    match emit_formation(out, p, 2, ps.formations[2]) {
        Ok(()) => {},
        Err(e) => {
            proof {
                assert(out@ =~= old(out)@ + preset_partial(p as int, *ps));
            }
            return Err(e);
        },
    }
    let ins = instructions_string(p, ps);
    append_str(out, ins.as_str());
    proof {
        assert(out@ =~= old(out)@ + preset_text(p as int, *ps));
    }
    Ok(())
}

/// Appends the `[tactics]` table's text to `out`: the keys outside the
/// presets, then each preset's. A formation slot whose position byte names
/// no position is refused with `OutOfRange` under the formation's key, the
/// first such slot in order; the text before that slot is already written.
pub fn emit_tactics(out: &mut String, t: &TacticsSection) -> (r: Result<(), TeamTomlError>)
    ensures
        r is Ok <==> tactics_bad_slot(*t) is None,
        r is Ok ==> final(out)@ == old(out)@ + tactics_text(*t),
        r is Err ==> final(out)@ == old(out)@ + tactics_partial(*t),
        r matches Err(e) ==> (tactics_bad_slot(*t) matches Some((p, f, x)) && e matches TeamTomlError::OutOfRange {
            key,
            value,
            range,
        } && key@ == formation_key(p, f) && value == x as i64 && range@ == "0 to 12"@),
{
    let head = head_string(t);
    append_str(out, head.as_str());
    match emit_preset(out, 0, &t.presets[0]) {
        Ok(()) => {},
        Err(e) => {
            proof {
                assert(out@ =~= old(out)@ + tactics_partial(*t));
            }
            return Err(e);
        },
    }
    match emit_preset(out, 1, &t.presets[1]) {
        Ok(()) => {},
        Err(e) => {
            proof {
                assert(out@ =~= old(out)@ + tactics_partial(*t));
            }
            return Err(e);
        },
    }
    match emit_preset(out, 2, &t.presets[2]) {
        Ok(()) => {},
        Err(e) => {
            proof {
                assert(out@ =~= old(out)@ + tactics_partial(*t));
            }
            return Err(e);
        },
    }
    proof {
        assert(out@ =~= old(out)@ + tactics_text(*t));
    }
    Ok(())
}

/// The TOML text `toml_edit` writes for the string value `s`, quotes and
/// escapes included.
pub uninterp spec fn toml_string(s: Seq<char>) -> Seq<char>;

/// `toml_edit::Value::from(s).to_string()`: the string as a TOML value, in
/// the quoting `toml_edit` picks for it.
#[verifier::external_body]
pub(crate) fn toml_quoted(s: &str) -> (r: String)
    ensures
        r@ == toml_string(s@),
{
    toml_edit::Value::from(s).to_string()
}

/// An optional number in decimal.
pub open spec fn opt_number_text(v: Option<nat>) -> Option<Seq<char>> {
    match v {
        Some(x) => Some(decimal(x)),
        None => None,
    }
}

/// An optional text as a TOML string.
pub open spec fn opt_toml_text(v: Option<String>) -> Option<Seq<char>> {
    match v {
        Some(x) => Some(toml_string(x@)),
        None => None,
    }
}

/// A colour as a TOML array of its three channels.
pub open spec fn color_text(c: TeamColor) -> Seq<char> {
    "["@ + decimal(c.red as nat) + ", "@ + decimal(c.green as nat) + ", "@ + decimal(c.blue as nat) + "]"@
}

/// An optional colour's text.
pub open spec fn opt_color_text(v: Option<TeamColor>) -> Option<Seq<char>> {
    match v {
        Some(c) => Some(color_text(c)),
        None => None,
    }
}

/// A kit slot's inline table.
pub open spec fn kit_slot_text(k: KitSlot) -> Seq<char> {
    "{ number = "@ + decimal(k.number as nat) + ", binding = "@ + decimal(k.binding as nat) + " }"@
}

/// The ten kit slots as a TOML array of inline tables.
pub open spec fn kit_slots_text(slots: [KitSlot; 10]) -> Seq<char> {
    "["@ + joined(slots@.map_values(|k: KitSlot| kit_slot_text(k))) + "]"@
}

/// Optional kit slots' text.
pub open spec fn opt_kit_slots_text(v: Option<[KitSlot; 10]>) -> Option<Seq<char>> {
    match v {
        Some(a) => Some(kit_slots_text(a)),
        None => None,
    }
}

/// The `[team]` table's keys, one line each.
#[verifier::opaque]
pub open spec fn team_keys_text(team: TeamSection) -> Seq<char> {
    key_line("id"@, opt_number_text(match team.id { Some(v) => Some(v as nat), None => None }), "0"@, "informational: the caller chooses the target team"@)
    + key_line("name"@, opt_toml_text(team.name), "\"\""@, ""@)
    + key_line("short_name"@, opt_toml_text(team.short_name), "\"\""@, ""@)
    + key_line("manager_id"@, opt_number_text(match team.manager_id { Some(v) => Some(v as nat), None => None }), "0"@, "PES 19+"@)
    + key_line("stadium_id"@, opt_number_text(match team.stadium_id { Some(v) => Some(v as nat), None => None }), "0"@, "PES 19+"@)
    + key_line("color_1"@, opt_color_text(team.color_1), "[0, 0, 0]"@, "PES 17+; stored channels, 0-63 each"@)
    + key_line("color_2"@, opt_color_text(team.color_2), "[0, 0, 0]"@, "PES 17+; stored channels, 0-63 each"@)
    + key_line("kit_slots"@, opt_kit_slots_text(team.kit_slots), "[{ number = 0, binding = 0 }]"@, "PES 17"@)
}

/// The `[team.edit_flags]` subtable, only when it holds a key.
#[verifier::opaque]
pub open spec fn team_flags_text(flags: TeamEditFlagsSection) -> Seq<char> {
    if flags.name is None && flags.short_name is None && flags.stadium is None && flags.strip is None {
        Seq::empty()
    } else {
        "\n[team.edit_flags]\n"@
        + key_line("name"@, opt_bool_text(flags.name), "false"@, ""@)
        + key_line("short_name"@, opt_bool_text(flags.short_name), "false"@, "PES 15 only"@)
        + key_line("stadium"@, opt_bool_text(flags.stadium), "false"@, "PES 20+"@)
        + key_line("strip"@, opt_bool_text(flags.strip), "false"@, "PES 17 only"@)
    }
}

/// The `[team]` table's text.
pub open spec fn team_text(team: TeamSection) -> Seq<char> {
    "\n[team]\n"@ + team_keys_text(team) + team_flags_text(team.edit_flags)
}

/// An optional number's decimal string.
fn opt_number_string(v: Option<u32>) -> (r: Option<String>)
    ensures
        opt_view(r) == opt_number_text(match v { Some(x) => Some(x as nat), None => None }),
{
    match v {
        Some(x) => {
            let mut s = String::new();
            push_decimal(&mut s, x);
            Some(s)
        },
        None => None,
    }
}

/// An optional text's TOML string.
fn opt_toml_string(v: &Option<String>) -> (r: Option<String>)
    ensures
        opt_view(r) == opt_toml_text(*v),
{
    match v {
        Some(x) => Some(toml_quoted(x.as_str())),
        None => None,
    }
}

/// A colour's text.
fn color_string(c: TeamColor) -> (r: String)
    ensures
        r@ == color_text(c),
{
    let mut s = "[".to_owned();
    push_decimal(&mut s, c.red as u32);
    append_str(&mut s, ", ");
    push_decimal(&mut s, c.green as u32);
    append_str(&mut s, ", ");
    push_decimal(&mut s, c.blue as u32);
    append_str(&mut s, "]");
    s
}

/// The kit slots' text.
fn kit_slots_string(slots: &[KitSlot; 10]) -> (r: String)
    ensures
        r@ == kit_slots_text(*slots),
{
    let ghost items = slots@.map_values(|k: KitSlot| kit_slot_text(k));
    let mut s = "[".to_owned();
    let ghost start = s@;
    let mut i: usize = 0;
    while i < 10
        invariant
            i <= 10,
            slots@.len() == 10,
            items == slots@.map_values(|k: KitSlot| kit_slot_text(k)),
            s@ == start + joined(items.subrange(0, i as int)),
        decreases 10 - i,
    {
        if i > 0 {
            append_str(&mut s, ", ");
        }
        let k = slots[i];
        append_str(&mut s, "{ number = ");
        push_decimal(&mut s, k.number as u32);
        append_str(&mut s, ", binding = ");
        push_decimal(&mut s, k.binding);
        append_str(&mut s, " }");
        proof {
            let q = items.subrange(0, i + 1);
            assert(q.drop_last() =~= items.subrange(0, i as int));
            assert(q.last() == kit_slot_text(slots@[i as int]));
            if i == 0 {
                assert(q =~= seq![items[0]]);
            }
        }
        i = i + 1;
    }
    proof {
        assert(items.subrange(0, 10) =~= items);
    }
    append_str(&mut s, "]");
    s
}

/// The `[team]` table's keys.
fn team_keys_string(team: &TeamSection) -> (r: String)
    ensures
        r@ == team_keys_text(*team),
{
    reveal(team_keys_text);
    let mut s = String::new();
    emit(&mut s, "id", opt_number_string(team.id), "0", "informational: the caller chooses the target team");
    emit(&mut s, "name", opt_toml_string(&team.name), "\"\"", "");
    emit(&mut s, "short_name", opt_toml_string(&team.short_name), "\"\"", "");
    emit(&mut s, "manager_id", opt_number_string(team.manager_id), "0", "PES 19+");
    let stadium = match team.stadium_id {
        Some(v) => Some(v as u32),
        None => None,
    };
    emit(&mut s, "stadium_id", opt_number_string(stadium), "0", "PES 19+");
    let c1 = match team.color_1 {
        Some(c) => Some(color_string(c)),
        None => None,
    };
    emit(&mut s, "color_1", c1, "[0, 0, 0]", "PES 17+; stored channels, 0-63 each");
    let c2 = match team.color_2 {
        Some(c) => Some(color_string(c)),
        None => None,
    };
    emit(&mut s, "color_2", c2, "[0, 0, 0]", "PES 17+; stored channels, 0-63 each");
    let kits = match &team.kit_slots {
        Some(k) => Some(kit_slots_string(k)),
        None => None,
    };
    emit(&mut s, "kit_slots", kits, "[{ number = 0, binding = 0 }]", "PES 17");
    s
}

/// The `[team.edit_flags]` subtable.
fn team_flags_string(flags: TeamEditFlagsSection) -> (r: String)
    ensures
        r@ == team_flags_text(flags),
{
    reveal(team_flags_text);
    let mut s = String::new();
    if flags.name.is_some() || flags.short_name.is_some() || flags.stadium.is_some() || flags.strip.is_some() {
        append_str(&mut s, "\n[team.edit_flags]\n");
        emit(&mut s, "name", opt_bool_string(flags.name), "false", "");
        emit(&mut s, "short_name", opt_bool_string(flags.short_name), "false", "PES 15 only");
        emit(&mut s, "stadium", opt_bool_string(flags.stadium), "false", "PES 20+");
        emit(&mut s, "strip", opt_bool_string(flags.strip), "false", "PES 17 only");
    }
    s
}

/// Appends the `[team]` table's text to `out`.
pub fn emit_team(out: &mut String, team: &TeamSection)
    ensures
        final(out)@ == old(out)@ + team_text(*team),
{
    let keys = team_keys_string(team);
    let flags = team_flags_string(team.edit_flags);
    append_str(out, "\n[team]\n");
    append_str(out, keys.as_str());
    append_str(out, flags.as_str());
}

/// `line` stands in `text` as one contiguous piece.
pub open spec fn has_line(text: Seq<char>, line: Seq<char>) -> bool {
    exists|p: Seq<char>, q: Seq<char>| text == #[trigger] (p + line + q)
}

/// Each key line of the `[tactics]` head carries the section field of its own
/// name: the line keyed `corner_left` holds `corner_left`'s value (or is the
/// commented-out neutral line when the section lacks it), and likewise for
/// every other set-piece taker.
pub proof fn law_each_set_piece_line_carries_its_own_field(t: TacticsSection)
    ensures
        ({
            let text = tactics_head_text(t);
            let sp = t.set_pieces;
            let c = "roster slots; 255 = none"@;
            &&& has_line(text, key_line("free_kick_long"@, opt_u8_text(sp.free_kick_long), "255"@, c))
            &&& has_line(text, key_line("free_kick_short"@, opt_u8_text(sp.free_kick_short), "255"@, c))
            &&& has_line(text, key_line("free_kick_second"@, opt_u8_text(sp.free_kick_second), "255"@, c))
            &&& has_line(text, key_line("corner_left"@, opt_u8_text(sp.corner_left), "255"@, c))
            &&& has_line(text, key_line("corner_right"@, opt_u8_text(sp.corner_right), "255"@, c))
            &&& has_line(text, key_line("penalty"@, opt_u8_text(sp.penalty), "255"@, c))
            &&& has_line(text, key_line("captain"@, opt_u8_text(sp.captain), "255"@, c))
        }),
{
    reveal(tactics_head_text);
    let sp = t.set_pieces;
    let c = "roster slots; 255 = none"@;
    let a = "\n[tactics]\n"@ + key_line("starting_eleven"@, opt_array_text11(t.starting_eleven), "[]"@, ""@) + key_line(
        "bench_order"@,
        opt_array_text21(t.bench_order),
        "[]"@,
        ""@,
    ) + key_line("players_to_join_attack"@, opt_array_text3(t.players_to_join_attack), "[]"@, c)
        + "\n[tactics.set_pieces]\n"@;
    let l0 = key_line("free_kick_long"@, opt_u8_text(sp.free_kick_long), "255"@, c);
    let l1 = key_line("free_kick_short"@, opt_u8_text(sp.free_kick_short), "255"@, c);
    let l2 = key_line("free_kick_second"@, opt_u8_text(sp.free_kick_second), "255"@, c);
    let l3 = key_line("corner_left"@, opt_u8_text(sp.corner_left), "255"@, c);
    let l4 = key_line("corner_right"@, opt_u8_text(sp.corner_right), "255"@, c);
    let l5 = key_line("penalty"@, opt_u8_text(sp.penalty), "255"@, c);
    let l6 = key_line("captain"@, opt_u8_text(sp.captain), "255"@, c);
    let z = "\n[tactics.auto]\n"@ + key_line(
        "substitution"@,
        opt_u8_text(t.auto.substitution),
        "255"@,
        "PES 16+; the stored setting byte"@,
    ) + key_line("offside_trap"@, opt_bool_text(t.auto.offside_trap), "false"@, "PES 16+"@) + key_line(
        "preset_change"@,
        opt_bool_text(t.auto.preset_change),
        "false"@,
        "PES 16+"@,
    ) + key_line("attack_defence_levels"@, opt_bool_text(t.auto.attack_defence_levels), "false"@, "PES 17+"@);
    let text = tactics_head_text(t);
    assert(text =~= a + l0 + l1 + l2 + l3 + l4 + l5 + l6 + z);
    assert(text =~= a + l0 + (l1 + l2 + l3 + l4 + l5 + l6 + z));
    assert(text =~= (a + l0) + l1 + (l2 + l3 + l4 + l5 + l6 + z));
    assert(text =~= (a + l0 + l1) + l2 + (l3 + l4 + l5 + l6 + z));
    assert(text =~= (a + l0 + l1 + l2) + l3 + (l4 + l5 + l6 + z));
    assert(text =~= (a + l0 + l1 + l2 + l3) + l4 + (l5 + l6 + z));
    assert(text =~= (a + l0 + l1 + l2 + l3 + l4) + l5 + (l6 + z));
    assert(text =~= (a + l0 + l1 + l2 + l3 + l4 + l5) + l6 + z);
}

} // verus!
