//! Applying a document's `[team]` and `[tactics]` tables to a team.
use vstd::prelude::*;

use crate::codec::names::append_str;
use crate::codec::push_char;
use crate::interchange::team_toml::labels::INSTRUCTIONS;
use crate::interchange::team_toml::{
    note_views, ImportNote, InstructionEntry, NoteView, TacticsSection, TeamSection, TeamTomlError,
};
use crate::model::instruction::Instruction;
use crate::model::tactics::{
    AdvancedInstruction, Formation, SetPieceTakers, TacticSliders, TacticStyle, TacticsPreset,
    TeamAutoFlags, TeamTactics,
};
use crate::model::team::{TeamColor, TeamEditFlags, TeamEntry};
use crate::schema::{
    PresetField, RecordField, RecordSchema, TacticsField, TacticsSchema, TeamField, TeamText,
};

verus! {

/// The colour pair after colour `i` (0 or 1) is set to `c`: an absent pair
/// starts as two black colours.
pub open spec fn with_color(colors: Option<[TeamColor; 2]>, i: int, c: TeamColor) -> [TeamColor; 2] {
    let z = TeamColor { red: 0, green: 0, blue: 0 };
    let base = match colors {
        Some(a) => a,
        None => [z, z],
    };
    if i == 0 { [c, base[1]] } else { [base[0], c] }
}

/// `with_color(colors, i, c)`.
fn set_color(colors: Option<[TeamColor; 2]>, i: usize, c: TeamColor) -> (r: [TeamColor; 2])
    requires
        i < 2,
    ensures
        r == with_color(colors, i as int, c),
{
    let base = match colors {
        Some(a) => a,
        None => [TeamColor::default(), TeamColor::default()],
    };
    if i == 0 {
        [c, base[1]]
    } else {
        [base[0], c]
    }
}

/// One key of an import, in the order the import walks them: whether the
/// document holds it, whether the target version stores it, its dotted path,
/// what writing it does to the team, and the notes writing it adds.
pub type Step = (bool, bool, Seq<char>, spec_fn(TeamEntry) -> TeamEntry, Seq<NoteView>);

/// The document holds the key and the target version does not store it.
pub open spec fn refused(step: Step) -> bool {
    step.0 && !step.1
}

/// `t` after every held, stored key of `steps` is written, in order.
pub open spec fn walk(t: TeamEntry, steps: Seq<Step>) -> TeamEntry
    decreases steps.len(),
{
    if steps.len() == 0 {
        t
    } else {
        let u = walk(t, steps.drop_last());
        let step = steps.last();
        if step.0 && step.1 {
            (step.3)(u)
        } else {
            u
        }
    }
}

/// The notes of one key: `NotInThisVersion` when it is refused, its own
/// notes when it is written, else none.
pub open spec fn step_notes(step: Step) -> Seq<NoteView> {
    if refused(step) {
        seq![NoteView::NotInThisVersion { path: step.2 }]
    } else if step.0 && step.1 {
        step.4
    } else {
        Seq::empty()
    }
}

/// The notes of `steps`, in order.
pub open spec fn import_notes(steps: Seq<Step>) -> Seq<NoteView>
    decreases steps.len(),
{
    if steps.len() == 0 {
        Seq::empty()
    } else {
        import_notes(steps.drop_last()) + step_notes(steps.last())
    }
}

/// The index of the first refused key of `steps`.
pub open spec fn first_refused(steps: Seq<Step>) -> Option<int>
    decreases steps.len(),
{
    if steps.len() == 0 {
        None
    } else {
        match first_refused(steps.drop_last()) {
            Some(k) => Some(k),
            None => if refused(steps.last()) {
                Some(steps.len() - 1)
            } else {
                None
            },
        }
    }
}

/// A key is kept when the target stores it; a key the target lacks is
/// skipped with a `NotInThisVersion` note when the document was written for
/// another version (`foreign`), and refused with an error when it was written
/// for the target's own.
pub fn gated(notes: &mut Vec<ImportNote>, foreign: bool, supported: bool, path: &str) -> (r:
    Result<bool, TeamTomlError>)
    ensures
        supported ==> (r matches Ok(true) && final(notes)@ == old(notes)@),
        !supported && foreign ==> (r matches Ok(false) && note_views(final(notes)@) == note_views(
            old(notes)@,
        ).push(NoteView::NotInThisVersion { path: path@ })),
        !supported && !foreign ==> (r matches Err(TeamTomlError::NotInThisVersion { path: p })
            && p@ == path@),
        !supported && !foreign ==> final(notes)@ == old(notes)@,
{
    if supported {
        return Ok(true);
    }
    if foreign {
        let note = ImportNote::NotInThisVersion { path: path.to_owned() };
        let ghost before = notes@;
        notes.push(note);
        proof {
            assert(note_views(notes@) =~= note_views(before).push(NoteView::NotInThisVersion { path: path@ }));
        }
        Ok(false)
    } else {
        Err(TeamTomlError::NotInThisVersion { path: path.to_owned() })
    }
}

/// The team record schema stores `f`: as a single field, or as an element
/// of one of its arrays.
pub open spec fn team_has(schema: RecordSchema<TeamField, TeamText>, f: TeamField) -> bool {
    ||| exists|k: int| 0 <= k < schema.fields@.len() && #[trigger] schema.fields@[k].field == f
    ||| exists|k: int, i: int|
        0 <= k < schema.arrays@.len() && 0 <= i < schema.arrays@[k].count
            && #[trigger] schema.arrays@[k].field.spec_element(i as u8) == f
}

/// Whether the team record schema stores `f`.
pub fn team_has_check(schema: &RecordSchema<TeamField, TeamText>, f: TeamField) -> (b: bool)
    ensures
        b == team_has(*schema, f),
{
    let mut k: usize = 0;
    while k < schema.fields.len()
        invariant
            k <= schema.fields@.len(),
            forall|j: int| 0 <= j < k ==> #[trigger] schema.fields@[j].field != f,
        decreases schema.fields@.len() - k,
    {
        if schema.fields[k].field == f {
            return true;
        }
        k = k + 1;
    }
    let mut a: usize = 0;
    while a < schema.arrays.len()
        invariant
            a <= schema.arrays@.len(),
            forall|j: int| 0 <= j < schema.fields@.len() ==> #[trigger] schema.fields@[j].field != f,
            forall|j: int, i: int|
                0 <= j < a && 0 <= i < schema.arrays@[j].count
                    ==> #[trigger] schema.arrays@[j].field.spec_element(i as u8) != f,
        decreases schema.arrays@.len() - a,
    {
        let array = &schema.arrays[a];
        let mut i: u8 = 0;
        while i < array.count
            invariant
                a < schema.arrays@.len(),
                *array == schema.arrays@[a as int],
                i <= array.count,
                forall|j: int| 0 <= j < i ==> #[trigger] array.field.spec_element(j as u8) != f,
            decreases array.count - i,
        {
            if array.field.element(i) == f {
                proof {
                    let ii: int = i as int;
                    assert(ii as u8 == i);
                    assert(schema.arrays@[a as int].field.spec_element(ii as u8) == f);
                }
                return true;
            }
            i = i + 1;
        }
        a = a + 1;
    }
    false
}

/// The keys of `[team]`, in walk order. The name and short name are stored by
/// every version; `id` is never written.
pub open spec fn team_steps(section: TeamSection, schema: RecordSchema<TeamField, TeamText>) -> Seq<
    Step,
> {
    let flags = section.edit_flags;
    seq![
        (
            section.name is Some,
            true,
            "team.name"@,
            |t: TeamEntry| TeamEntry { name: section.name->0, ..t },
            Seq::empty(),
        ),
        (
            section.short_name is Some,
            true,
            "team.short_name"@,
            |t: TeamEntry| TeamEntry { short_name: section.short_name->0, ..t },
            Seq::empty(),
        ),
        (
            section.manager_id is Some,
            team_has(schema, TeamField::ManagerId),
            "team.manager_id"@,
            |t: TeamEntry| TeamEntry { manager_id: section.manager_id, ..t },
            Seq::empty(),
        ),
        (
            section.stadium_id is Some,
            team_has(schema, TeamField::StadiumId),
            "team.stadium_id"@,
            |t: TeamEntry| TeamEntry { stadium_id: section.stadium_id, ..t },
            Seq::empty(),
        ),
        (
            section.color_1 is Some,
            team_has(schema, TeamField::Color1Red),
            "team.color_1"@,
            |t: TeamEntry| TeamEntry { colors: Some(with_color(t.colors, 0, section.color_1->0)), ..t },
            Seq::empty(),
        ),
        (
            section.color_2 is Some,
            team_has(schema, TeamField::Color2Red),
            "team.color_2"@,
            |t: TeamEntry| TeamEntry { colors: Some(with_color(t.colors, 1, section.color_2->0)), ..t },
            Seq::empty(),
        ),
        (
            section.kit_slots is Some,
            team_has(schema, TeamField::KitSlotNumber(0)),
            "team.kit_slots"@,
            |t: TeamEntry| TeamEntry { kit_slots: section.kit_slots, ..t },
            Seq::empty(),
        ),
        (
            flags.name is Some,
            team_has(schema, TeamField::EditedName),
            "team.edit_flags.name"@,
            |t: TeamEntry| TeamEntry { edit_flags: TeamEditFlags { name: flags.name->0, ..t.edit_flags }, ..t },
            Seq::empty(),
        ),
        (
            flags.short_name is Some,
            team_has(schema, TeamField::EditedShortName),
            "team.edit_flags.short_name"@,
            |t: TeamEntry|
                TeamEntry { edit_flags: TeamEditFlags { short_name: flags.short_name, ..t.edit_flags }, ..t },
            Seq::empty(),
        ),
        (
            flags.stadium is Some,
            team_has(schema, TeamField::EditedStadium),
            "team.edit_flags.stadium"@,
            |t: TeamEntry|
                TeamEntry { edit_flags: TeamEditFlags { stadium: flags.stadium, ..t.edit_flags }, ..t },
            Seq::empty(),
        ),
        (
            flags.strip is Some,
            team_has(schema, TeamField::EditedStrip),
            "team.edit_flags.strip"@,
            |t: TeamEntry| TeamEntry { edit_flags: TeamEditFlags { strip: flags.strip, ..t.edit_flags }, ..t },
            Seq::empty(),
        ),
    ]
}

/// The walk over `steps[0..i + 1]` is the walk over `steps[0..i]` followed
/// by key `i`.
pub proof fn lemma_step(t: TeamEntry, steps: Seq<Step>, i: int)
    requires
        0 <= i < steps.len(),
    ensures
        walk(t, steps.take(i + 1)) == (if steps[i].0 && steps[i].1 {
            (steps[i].3)(walk(t, steps.take(i)))
        } else {
            walk(t, steps.take(i))
        }),
        import_notes(steps.take(i + 1)) == import_notes(steps.take(i)) + step_notes(steps[i]),
        first_refused(steps.take(i + 1)) == match first_refused(steps.take(i)) {
            Some(k) => Some(k),
            None => if refused(steps[i]) {
                Some(i)
            } else {
                None
            },
        },
{
    assert(steps.take(i + 1).drop_last() =~= steps.take(i));
}

/// A key refused within a prefix of `steps` is the first refused key of all
/// of them.
pub proof fn lemma_first_refused_prefix(steps: Seq<Step>, j: int)
    requires
        0 <= j <= steps.len(),
        first_refused(steps.take(j)) is Some,
    ensures
        first_refused(steps) == first_refused(steps.take(j)),
    decreases steps.len(),
{
    if j == steps.len() {
        assert(steps.take(j) =~= steps);
    } else {
        assert(steps.drop_last().take(j) =~= steps.take(j));
        lemma_first_refused_prefix(steps.drop_last(), j);
    }
}

/// Key `k` of `[team]`: whether the document holds it, whether the target
/// stores it, and its path.
fn team_key(section: &TeamSection, schema: &RecordSchema<TeamField, TeamText>, k: usize) -> (r: (
    bool,
    bool,
    &'static str,
))
    requires
        k < 11,
    ensures
        r.0 == team_steps(*section, *schema)[k as int].0,
        r.1 == team_steps(*section, *schema)[k as int].1,
        r.2@ == team_steps(*section, *schema)[k as int].2,
{
    match k {
        0 => (section.name.is_some(), true, "team.name"),
        1 => (section.short_name.is_some(), true, "team.short_name"),
        2 => (section.manager_id.is_some(), team_has_check(schema, TeamField::ManagerId), "team.manager_id"),
        3 => (section.stadium_id.is_some(), team_has_check(schema, TeamField::StadiumId), "team.stadium_id"),
        4 => (section.color_1.is_some(), team_has_check(schema, TeamField::Color1Red), "team.color_1"),
        5 => (section.color_2.is_some(), team_has_check(schema, TeamField::Color2Red), "team.color_2"),
        6 => (section.kit_slots.is_some(), team_has_check(schema, TeamField::KitSlotNumber(0)), "team.kit_slots"),
        7 => (section.edit_flags.name.is_some(), team_has_check(schema, TeamField::EditedName), "team.edit_flags.name"),
        8 => (section.edit_flags.short_name.is_some(), team_has_check(schema, TeamField::EditedShortName), "team.edit_flags.short_name"),
        9 => (section.edit_flags.stadium.is_some(), team_has_check(schema, TeamField::EditedStadium), "team.edit_flags.stadium"),
        _ => (section.edit_flags.strip.is_some(), team_has_check(schema, TeamField::EditedStrip), "team.edit_flags.strip"),
    }
}

/// Writes key `k` of `[team]`, which the document holds, to `next`.
fn write_team_key(
    section: &TeamSection,
    Ghost(schema): Ghost<RecordSchema<TeamField, TeamText>>,
    k: usize,
    next: &mut TeamEntry,
)
    requires
        k < 11,
        team_steps(*section, schema)[k as int].0,
    ensures
        *final(next) == (team_steps(*section, schema)[k as int].3)(*old(next)),
{
    match k {
        0 => {
            if let Some(name) = &section.name {
                next.name = name.clone();
            }
        },
        1 => {
            if let Some(short_name) = &section.short_name {
                next.short_name = short_name.clone();
            }
        },
        2 => {
            next.manager_id = section.manager_id;
        },
        3 => {
            next.stadium_id = section.stadium_id;
        },
        4 => {
            if let Some(color) = section.color_1 {
                next.colors = Some(set_color(next.colors, 0, color));
            }
        },
        5 => {
            if let Some(color) = section.color_2 {
                next.colors = Some(set_color(next.colors, 1, color));
            }
        },
        6 => {
            next.kit_slots = section.kit_slots;
        },
        7 => {
            if let Some(name) = section.edit_flags.name {
                next.edit_flags.name = name;
            }
        },
        8 => {
            next.edit_flags.short_name = section.edit_flags.short_name;
        },
        9 => {
            next.edit_flags.stadium = section.edit_flags.stadium;
        },
        _ => {
            next.edit_flags.strip = section.edit_flags.strip;
        },
    }
}

/// Applies a document's `[team]` table to `next`: each key the document
/// holds is written, in walk order, where the target version stores it. A
/// key the target lacks is a `NotInThisVersion` note when the document was
/// written for another version (`foreign`), and otherwise ends the import
/// with `TeamTomlError::NotInThisVersion`, the keys before it written.
pub fn apply_team(
    section: &TeamSection,
    schema: &RecordSchema<TeamField, TeamText>,
    foreign: bool,
    next: &mut TeamEntry,
    notes: &mut Vec<ImportNote>,
) -> (r: Result<(), TeamTomlError>)
    ensures
        r is Ok <==> (foreign || first_refused(team_steps(*section, *schema)) is None),
        r is Ok ==> *final(next) == walk(*old(next), team_steps(*section, *schema)),
        r is Ok ==> note_views(final(notes)@) == note_views(old(notes)@) + import_notes(
            team_steps(*section, *schema),
        ),
        r matches Err(e) ==> ({
            let steps = team_steps(*section, *schema);
            &&& first_refused(steps) matches Some(k)
            &&& e matches TeamTomlError::NotInThisVersion { path } && path@ == steps[k].2
            &&& *final(next) == walk(*old(next), steps.take(k))
            &&& note_views(final(notes)@) == note_views(old(notes)@) + import_notes(steps.take(k))
        }),
{
    let ghost steps = team_steps(*section, *schema);
    let ghost t0 = *next;
    let ghost n0 = notes@;
    assert(steps.take(0) =~= Seq::<Step>::empty());
    let mut k: usize = 0;
    while k < 11
        invariant
            k <= 11,
            steps == team_steps(*section, *schema),
            steps.len() == 11,
            t0 == *old(next),
            n0 == old(notes)@,
            *next == walk(t0, steps.take(k as int)),
            note_views(notes@) == note_views(n0) + import_notes(steps.take(k as int)),
            foreign || first_refused(steps.take(k as int)) is None,
        decreases 11 - k,
    {
        proof {
            lemma_step(t0, steps, k as int);
        }
        let (held, supported, path) = team_key(section, schema, k);
        if held {
            let keep = match gated(notes, foreign, supported, path) {
                Ok(keep) => keep,
                Err(e) => {
                    proof {
                        lemma_first_refused_prefix(steps, k + 1);
                    }
                    return Err(e);
                },
            };
            if keep {
                write_team_key(section, Ghost(*schema), k, next);
            }
        }
        k = k + 1;
    }
    proof {
        assert(steps.take(11) =~= steps);
    }
    Ok(())
}

/// The tactics record schema stores `f`: as a single field, or as an element
/// of one of its arrays.
pub open spec fn tactics_has(schema: TacticsSchema, f: TacticsField) -> bool {
    ||| exists|k: int| 0 <= k < schema.fields@.len() && #[trigger] schema.fields@[k].field == f
    ||| exists|k: int, i: int|
        0 <= k < schema.arrays@.len() && 0 <= i < schema.arrays@[k].count
            && #[trigger] schema.arrays@[k].field.spec_element(i as u8) == f
}

/// The tactics record schema stores the preset byte `f`.
pub open spec fn preset_has(schema: TacticsSchema, f: PresetField) -> bool {
    exists|k: int| 0 <= k < schema.presets@.len() && #[trigger] schema.presets@[k].field == f
}

/// `t` with its tactics replaced by `tactics`.
pub open spec fn with_tactics(t: TeamEntry, tactics: TeamTactics) -> TeamEntry {
    TeamEntry { tactics, ..t }
}

/// The three presets with preset `p` replaced by `x`.
pub open spec fn presets_update(a: [TacticsPreset; 3], p: int, x: TacticsPreset) -> [TacticsPreset; 3] {
    if p == 0 {
        [x, a[1], a[2]]
    } else if p == 1 {
        [a[0], x, a[2]]
    } else {
        [a[0], a[1], x]
    }
}

/// The three formations with formation `f` replaced by `x`.
pub open spec fn formations_update(a: [Formation; 3], f: int, x: Formation) -> [Formation; 3] {
    if f == 0 {
        [x, a[1], a[2]]
    } else if f == 1 {
        [a[0], x, a[2]]
    } else {
        [a[0], a[1], x]
    }
}

/// `t` with preset `p` of its tactics replaced by `x`.
pub open spec fn with_preset(t: TeamEntry, p: int, x: TacticsPreset) -> TeamEntry {
    with_tactics(t, TeamTactics { presets: presets_update(t.tactics.presets, p, x), ..t.tactics })
}

/// The path of key `tail` in `[tactics.preset_N]`, N = `p + 1`.
pub open spec fn preset_path(p: int, tail: Seq<char>) -> Seq<char> {
    "tactics.preset_"@ + seq![if p == 0 { '1' } else if p == 1 { '2' } else { '3' }] + "."@ + tail
}

/// The stored value of instruction `i` in a version whose instructions are
/// `table` in stored order: its first position there.
pub open spec fn instruction_code(table: Seq<Instruction>, i: Instruction) -> Option<int> {
    if exists|k: int| 0 <= k < table.len() && table[k] == i && (forall|j: int| 0 <= j < k ==> table[j] != i) {
        Some(choose|k: int| 0 <= k < table.len() && table[k] == i && (forall|j: int| 0 <= j < k ==> table[j] != i))
    } else {
        None
    }
}

/// `i`'s position in `Instruction::ALL`, which indexes its label.
pub open spec fn instruction_index(i: Instruction) -> int {
    match i {
        Instruction::Off => 0,
        Instruction::HugTheTouchline => 1,
        Instruction::FalseNo9 => 2,
        Instruction::FalseFullBacks => 3,
        Instruction::AttackingFullBacks => 4,
        Instruction::WingRotation => 5,
        Instruction::TikiTaka => 6,
        Instruction::CenteringTargets => 7,
        Instruction::SwarmTheBox => 8,
        Instruction::DeepDefensiveLine => 9,
        Instruction::Gegenpress => 10,
        Instruction::TightMarking => 11,
        Instruction::CounterTarget => 12,
        Instruction::Defensive => 13,
        Instruction::FalseWinger => 14,
        Instruction::WingBack => 15,
        Instruction::Anchoring => 16,
    }
}

/// One document entry as stored: the instruction's stored value, or `Off`
/// (0) where the version cannot store it.
pub open spec fn encoded_entry(table: Seq<Instruction>, e: InstructionEntry) -> AdvancedInstruction {
    AdvancedInstruction {
        instruction: match instruction_code(table, e.instruction) {
            Some(k) => k as u8,
            None => 0,
        },
        player: e.player,
    }
}

/// One instruction side as stored.
pub open spec fn encoded_side(table: Seq<Instruction>, es: [InstructionEntry; 2]) -> [AdvancedInstruction; 2] {
    [encoded_entry(table, es[0]), encoded_entry(table, es[1])]
}

/// The `NotEncodable` note of an entry the version cannot store.
pub open spec fn entry_notes(table: Seq<Instruction>, e: InstructionEntry, path: Seq<char>) -> Seq<NoteView> {
    if instruction_code(table, e.instruction) is None {
        seq![NoteView::NotEncodable { path, label: INSTRUCTIONS[instruction_index(e.instruction)]@ }]
    } else {
        Seq::empty()
    }
}

/// The notes of one instruction side, entry by entry.
pub open spec fn side_notes(table: Seq<Instruction>, es: [InstructionEntry; 2], path: Seq<char>) -> Seq<NoteView> {
    entry_notes(table, es[0], path) + entry_notes(table, es[1], path)
}

/// Key `k` (0 to 13) of `[tactics]` outside the presets: the squad order,
/// the set-piece takers, then the auto flags.
#[verifier::opaque]
pub open spec fn tactics_head_step(section: TacticsSection, schema: TacticsSchema, k: int) -> Step {
    let sp = section.set_pieces;
    let auto = section.auto;
    if k == 0 {
        (
            section.starting_eleven is Some,
            tactics_has(schema, TacticsField::Starting(0)),
            "tactics.starting_eleven"@,
            |t: TeamEntry| with_tactics(t, TeamTactics { starting_eleven: section.starting_eleven->0, ..t.tactics }),
            Seq::empty(),
        )
    } else if k == 1 {
        (
            section.bench_order is Some,
            tactics_has(schema, TacticsField::Bench(0)),
            "tactics.bench_order"@,
            |t: TeamEntry| with_tactics(t, TeamTactics { bench_order: section.bench_order->0, ..t.tactics }),
            Seq::empty(),
        )
    } else if k == 2 {
        (
            section.players_to_join_attack is Some,
            tactics_has(schema, TacticsField::PlayerToJoinAttack(0)),
            "tactics.players_to_join_attack"@,
            |t: TeamEntry| with_tactics(t, TeamTactics { players_to_join_attack: section.players_to_join_attack->0, ..t.tactics }),
            Seq::empty(),
        )
    } else if k == 3 {
        (
            sp.free_kick_long is Some,
            tactics_has(schema, TacticsField::FreeKickTakerLong),
            "tactics.set_pieces.free_kick_long"@,
            |t: TeamEntry| with_tactics(t, TeamTactics { set_pieces: SetPieceTakers { free_kick_long: sp.free_kick_long->0, ..t.tactics.set_pieces }, ..t.tactics }),
            Seq::empty(),
        )
    } else if k == 4 {
        (
            sp.free_kick_short is Some,
            tactics_has(schema, TacticsField::FreeKickTakerShort),
            "tactics.set_pieces.free_kick_short"@,
            |t: TeamEntry| with_tactics(t, TeamTactics { set_pieces: SetPieceTakers { free_kick_short: sp.free_kick_short->0, ..t.tactics.set_pieces }, ..t.tactics }),
            Seq::empty(),
        )
    } else if k == 5 {
        (
            sp.free_kick_second is Some,
            tactics_has(schema, TacticsField::FreeKickTakerSecond),
            "tactics.set_pieces.free_kick_second"@,
            |t: TeamEntry| with_tactics(t, TeamTactics { set_pieces: SetPieceTakers { free_kick_second: sp.free_kick_second->0, ..t.tactics.set_pieces }, ..t.tactics }),
            Seq::empty(),
        )
    } else if k == 6 {
        (
            sp.corner_left is Some,
            tactics_has(schema, TacticsField::CornerTakerLeft),
            "tactics.set_pieces.corner_left"@,
            |t: TeamEntry| with_tactics(t, TeamTactics { set_pieces: SetPieceTakers { corner_left: sp.corner_left->0, ..t.tactics.set_pieces }, ..t.tactics }),
            Seq::empty(),
        )
    } else if k == 7 {
        (
            sp.corner_right is Some,
            tactics_has(schema, TacticsField::CornerTakerRight),
            "tactics.set_pieces.corner_right"@,
            |t: TeamEntry| with_tactics(t, TeamTactics { set_pieces: SetPieceTakers { corner_right: sp.corner_right->0, ..t.tactics.set_pieces }, ..t.tactics }),
            Seq::empty(),
        )
    } else if k == 8 {
        (
            sp.penalty is Some,
            tactics_has(schema, TacticsField::PenaltyTaker),
            "tactics.set_pieces.penalty"@,
            |t: TeamEntry| with_tactics(t, TeamTactics { set_pieces: SetPieceTakers { penalty: sp.penalty->0, ..t.tactics.set_pieces }, ..t.tactics }),
            Seq::empty(),
        )
    } else if k == 9 {
        (
            sp.captain is Some,
            tactics_has(schema, TacticsField::Captain),
            "tactics.set_pieces.captain"@,
            |t: TeamEntry| with_tactics(t, TeamTactics { set_pieces: SetPieceTakers { captain: sp.captain->0, ..t.tactics.set_pieces }, ..t.tactics }),
            Seq::empty(),
        )
    } else if k == 10 {
        (
            auto.substitution is Some,
            tactics_has(schema, TacticsField::AutoSubstitution),
            "tactics.auto.substitution"@,
            |t: TeamEntry| with_tactics(t, TeamTactics { auto: TeamAutoFlags { substitution: auto.substitution, ..t.tactics.auto }, ..t.tactics }),
            Seq::empty(),
        )
    } else if k == 11 {
        (
            auto.offside_trap is Some,
            tactics_has(schema, TacticsField::AutoOffsideTrap),
            "tactics.auto.offside_trap"@,
            |t: TeamEntry| with_tactics(t, TeamTactics { auto: TeamAutoFlags { offside_trap: auto.offside_trap, ..t.tactics.auto }, ..t.tactics }),
            Seq::empty(),
        )
    } else if k == 12 {
        (
            auto.preset_change is Some,
            tactics_has(schema, TacticsField::AutoPresetChange),
            "tactics.auto.preset_change"@,
            |t: TeamEntry| with_tactics(t, TeamTactics { auto: TeamAutoFlags { preset_change: auto.preset_change, ..t.tactics.auto }, ..t.tactics }),
            Seq::empty(),
        )
    } else {
        (
            auto.attack_defence_levels is Some,
            tactics_has(schema, TacticsField::AutoAttackDefenceLevels),
            "tactics.auto.attack_defence_levels"@,
            |t: TeamEntry| with_tactics(t, TeamTactics { auto: TeamAutoFlags { attack_defence_levels: auto.attack_defence_levels, ..t.tactics.auto }, ..t.tactics }),
            Seq::empty(),
        )
    }
}

/// Key `j` (0 to 17) of `[tactics.preset_N]`, N = `p + 1`: the style
/// switches, fluid formation, the sliders, the three formations (stored by
/// every version), then the two instruction sides, which are written only
/// where the version has instructions and dropped silently elsewhere.
#[verifier::opaque]
pub open spec fn preset_step(
    section: TacticsSection,
    schema: TacticsSchema,
    table: Seq<Instruction>,
    p: int,
    j: int,
) -> Step {
    let ps = section.presets[p];
    if j == 0 {
        (
            ps.style.attacking_style is Some,
            preset_has(schema, PresetField::AttackingStyle),
            preset_path(p, "style.attacking_style"@),
            |t: TeamEntry| with_preset(t, p, TacticsPreset { style: TacticStyle { attacking_style: ps.style.attacking_style->0, ..t.tactics.presets[p].style }, ..t.tactics.presets[p] }),
            Seq::empty(),
        )
    } else if j == 1 {
        (
            ps.style.attacking_zone is Some,
            preset_has(schema, PresetField::AttackingZone),
            preset_path(p, "style.attacking_zone"@),
            |t: TeamEntry| with_preset(t, p, TacticsPreset { style: TacticStyle { attacking_zone: ps.style.attacking_zone->0, ..t.tactics.presets[p].style }, ..t.tactics.presets[p] }),
            Seq::empty(),
        )
    } else if j == 2 {
        (
            ps.style.buildup is Some,
            preset_has(schema, PresetField::Buildup),
            preset_path(p, "style.buildup"@),
            |t: TeamEntry| with_preset(t, p, TacticsPreset { style: TacticStyle { buildup: ps.style.buildup->0, ..t.tactics.presets[p].style }, ..t.tactics.presets[p] }),
            Seq::empty(),
        )
    } else if j == 3 {
        (
            ps.style.positioning is Some,
            preset_has(schema, PresetField::Positioning),
            preset_path(p, "style.positioning"@),
            |t: TeamEntry| with_preset(t, p, TacticsPreset { style: TacticStyle { positioning: ps.style.positioning->0, ..t.tactics.presets[p].style }, ..t.tactics.presets[p] }),
            Seq::empty(),
        )
    } else if j == 4 {
        (
            ps.style.defensive_style is Some,
            preset_has(schema, PresetField::DefensiveStyle),
            preset_path(p, "style.defensive_style"@),
            |t: TeamEntry| with_preset(t, p, TacticsPreset { style: TacticStyle { defensive_style: ps.style.defensive_style->0, ..t.tactics.presets[p].style }, ..t.tactics.presets[p] }),
            Seq::empty(),
        )
    } else if j == 5 {
        (
            ps.style.containment_area is Some,
            preset_has(schema, PresetField::ContainmentArea),
            preset_path(p, "style.containment_area"@),
            |t: TeamEntry| with_preset(t, p, TacticsPreset { style: TacticStyle { containment_area: ps.style.containment_area->0, ..t.tactics.presets[p].style }, ..t.tactics.presets[p] }),
            Seq::empty(),
        )
    } else if j == 6 {
        (
            ps.style.pressure is Some,
            preset_has(schema, PresetField::Pressure),
            preset_path(p, "style.pressure"@),
            |t: TeamEntry| with_preset(t, p, TacticsPreset { style: TacticStyle { pressure: ps.style.pressure->0, ..t.tactics.presets[p].style }, ..t.tactics.presets[p] }),
            Seq::empty(),
        )
    } else if j == 7 {
        (
            ps.style.fluid is Some,
            preset_has(schema, PresetField::FluidFormation),
            preset_path(p, "style.fluid"@),
            |t: TeamEntry| with_preset(t, p, TacticsPreset { style: TacticStyle { fluid: ps.style.fluid, ..t.tactics.presets[p].style }, ..t.tactics.presets[p] }),
            Seq::empty(),
        )
    } else if j == 8 {
        (
            ps.sliders.support_range is Some,
            preset_has(schema, PresetField::SupportRange),
            preset_path(p, "sliders.support_range"@),
            |t: TeamEntry| with_preset(t, p, TacticsPreset { sliders: TacticSliders { support_range: ps.sliders.support_range->0, ..t.tactics.presets[p].sliders }, ..t.tactics.presets[p] }),
            Seq::empty(),
        )
    } else if j == 9 {
        (
            ps.sliders.defensive_line is Some,
            preset_has(schema, PresetField::DefensiveLine),
            preset_path(p, "sliders.defensive_line"@),
            |t: TeamEntry| with_preset(t, p, TacticsPreset { sliders: TacticSliders { defensive_line: ps.sliders.defensive_line->0, ..t.tactics.presets[p].sliders }, ..t.tactics.presets[p] }),
            Seq::empty(),
        )
    } else if j == 10 {
        (
            ps.sliders.compactness is Some,
            preset_has(schema, PresetField::Compactness),
            preset_path(p, "sliders.compactness"@),
            |t: TeamEntry| with_preset(t, p, TacticsPreset { sliders: TacticSliders { compactness: ps.sliders.compactness->0, ..t.tactics.presets[p].sliders }, ..t.tactics.presets[p] }),
            Seq::empty(),
        )
    } else if j == 11 {
        (
            ps.sliders.numbers_in_attack is Some,
            preset_has(schema, PresetField::NumbersInAttack),
            preset_path(p, "sliders.numbers_in_attack"@),
            |t: TeamEntry| with_preset(t, p, TacticsPreset { sliders: TacticSliders { numbers_in_attack: ps.sliders.numbers_in_attack->0, ..t.tactics.presets[p].sliders }, ..t.tactics.presets[p] }),
            Seq::empty(),
        )
    } else if j == 12 {
        (
            ps.sliders.numbers_in_defence is Some,
            preset_has(schema, PresetField::NumbersInDefence),
            preset_path(p, "sliders.numbers_in_defence"@),
            |t: TeamEntry| with_preset(t, p, TacticsPreset { sliders: TacticSliders { numbers_in_defence: ps.sliders.numbers_in_defence->0, ..t.tactics.presets[p].sliders }, ..t.tactics.presets[p] }),
            Seq::empty(),
        )
    } else if j == 13 {
        (
            ps.formations[0] is Some,
            true,
            preset_path(p, "formation_1"@),
            |t: TeamEntry| with_preset(t, p, TacticsPreset { formations: formations_update(t.tactics.presets[p].formations, 0, Formation { players: ps.formations[0]->0 }), ..t.tactics.presets[p] }),
            Seq::empty(),
        )
    } else if j == 14 {
        (
            ps.formations[1] is Some,
            true,
            preset_path(p, "formation_2"@),
            |t: TeamEntry| with_preset(t, p, TacticsPreset { formations: formations_update(t.tactics.presets[p].formations, 1, Formation { players: ps.formations[1]->0 }), ..t.tactics.presets[p] }),
            Seq::empty(),
        )
    } else if j == 15 {
        (
            ps.formations[2] is Some,
            true,
            preset_path(p, "formation_3"@),
            |t: TeamEntry| with_preset(t, p, TacticsPreset { formations: formations_update(t.tactics.presets[p].formations, 2, Formation { players: ps.formations[2]->0 }), ..t.tactics.presets[p] }),
            Seq::empty(),
        )
    } else if j == 16 {
        (
            ps.instructions is Some && schema.instructions is Some,
            true,
            preset_path(p, "instructions.attack"@),
            |t: TeamEntry| with_preset(t, p, TacticsPreset { attack_instructions: Some(encoded_side(table, ps.instructions->0.attack)), ..t.tactics.presets[p] }),
            side_notes(table, ps.instructions->0.attack, preset_path(p, "instructions.attack"@)),
        )
    } else {
        (
            ps.instructions is Some && schema.instructions is Some,
            true,
            preset_path(p, "instructions.defence"@),
            |t: TeamEntry| with_preset(t, p, TacticsPreset { defence_instructions: Some(encoded_side(table, ps.instructions->0.defence)), ..t.tactics.presets[p] }),
            side_notes(table, ps.instructions->0.defence, preset_path(p, "instructions.defence"@)),
        )
    }
}

/// Every key of `[tactics]`, in walk order: the keys outside the presets,
/// then each preset's.
pub open spec fn tactics_steps(section: TacticsSection, schema: TacticsSchema, table: Seq<Instruction>) -> Seq<
    Step,
> {
    Seq::new(
        68,
        |i: int|
            if i < 14 {
                tactics_head_step(section, schema, i)
            } else {
                preset_step(section, schema, table, (i - 14) / 18, (i - 14) % 18)
            },
    )
}

/// Whether the tactics record schema stores `f`.
pub fn tactics_has_check(schema: &TacticsSchema, f: TacticsField) -> (b: bool)
    ensures
        b == tactics_has(*schema, f),
{
    let mut k: usize = 0;
    while k < schema.fields.len()
        invariant
            k <= schema.fields@.len(),
            forall|j: int| 0 <= j < k ==> #[trigger] schema.fields@[j].field != f,
        decreases schema.fields@.len() - k,
    {
        if schema.fields[k].field == f {
            return true;
        }
        k = k + 1;
    }
    let mut a: usize = 0;
    while a < schema.arrays.len()
        invariant
            a <= schema.arrays@.len(),
            forall|j: int| 0 <= j < schema.fields@.len() ==> #[trigger] schema.fields@[j].field != f,
            forall|j: int, i: int|
                0 <= j < a && 0 <= i < schema.arrays@[j].count
                    ==> #[trigger] schema.arrays@[j].field.spec_element(i as u8) != f,
        decreases schema.arrays@.len() - a,
    {
        let array = &schema.arrays[a];
        let mut i: u8 = 0;
        while i < array.count
            invariant
                a < schema.arrays@.len(),
                *array == schema.arrays@[a as int],
                i <= array.count,
                forall|j: int| 0 <= j < i ==> #[trigger] array.field.spec_element(j as u8) != f,
            decreases array.count - i,
        {
            if array.field.element(i) == f {
                proof {
                    let ii: int = i as int;
                    assert(ii as u8 == i);
                    assert(schema.arrays@[a as int].field.spec_element(ii as u8) == f);
                }
                return true;
            }
            i = i + 1;
        }
        a = a + 1;
    }
    false
}

/// Whether the tactics record schema stores the preset byte `f`.
pub fn preset_has_check(schema: &TacticsSchema, f: PresetField) -> (b: bool)
    ensures
        b == preset_has(*schema, f),
{
    let mut k: usize = 0;
    while k < schema.presets.len()
        invariant
            k <= schema.presets@.len(),
            forall|j: int| 0 <= j < k ==> #[trigger] schema.presets@[j].field != f,
        decreases schema.presets@.len() - k,
    {
        if schema.presets[k].field == f {
            return true;
        }
        k = k + 1;
    }
    false
}

/// The stored value of `i` in a version whose instructions are `table` in
/// stored order.
pub fn encode_instruction(table: &[Instruction], i: Instruction) -> (r: Option<u8>)
    requires
        table@.len() <= 256,
    ensures
        r == (match instruction_code(table@, i) {
            Some(k) => Some(k as u8),
            None => None::<u8>,
        }),
{
    let mut k: usize = 0;
    while k < table.len()
        invariant
            k <= table@.len(),
            table@.len() <= 256,
            forall|j: int| 0 <= j < k ==> table@[j] != i,
        decreases table@.len() - k,
    {
        if table[k] == i {
            proof {
                let kk = k as int;
                assert(0 <= kk < table@.len() && table@[kk] == i && (forall|j: int| 0 <= j < kk ==> table@[j] != i));
                let c = choose|c: int| 0 <= c < table@.len() && table@[c] == i && (forall|j: int| 0 <= j < c ==> table@[j] != i);
                assert(c == kk) by {
                    if c < kk {
                        assert(table@[c] != i);
                    } else if c > kk {
                        assert(table@[kk] != i);
                    }
                }
            }
            return Some(k as u8);
        }
        k = k + 1;
    }
    None
}

/// `i`'s position in `Instruction::ALL`.
pub(crate) fn instruction_position(i: Instruction) -> (k: usize)
    ensures
        k == instruction_index(i),
        k < 17,
{
    match i {
        Instruction::Off => 0,
        Instruction::HugTheTouchline => 1,
        Instruction::FalseNo9 => 2,
        Instruction::FalseFullBacks => 3,
        Instruction::AttackingFullBacks => 4,
        Instruction::WingRotation => 5,
        Instruction::TikiTaka => 6,
        Instruction::CenteringTargets => 7,
        Instruction::SwarmTheBox => 8,
        Instruction::DeepDefensiveLine => 9,
        Instruction::Gegenpress => 10,
        Instruction::TightMarking => 11,
        Instruction::CounterTarget => 12,
        Instruction::Defensive => 13,
        Instruction::FalseWinger => 14,
        Instruction::WingBack => 15,
        Instruction::Anchoring => 16,
    }
}

/// One instruction side re-encoded for the target version: an instruction
/// it cannot store becomes `Off` (stored 0) with a `NotEncodable` note.
pub fn encode_side(
    table: &[Instruction],
    entries: [InstructionEntry; 2],
    notes: &mut Vec<ImportNote>,
    path: &str,
) -> (r: [AdvancedInstruction; 2])
    requires
        table@.len() <= 256,
    ensures
        r == encoded_side(table@, entries),
        note_views(final(notes)@) == note_views(old(notes)@) + side_notes(table@, entries, path@),
{
    let ghost n0 = notes@;
    let first = encode_entry(table, entries[0], notes, path);
    let ghost n1 = notes@;
    let second = encode_entry(table, entries[1], notes, path);
    proof {
        assert(note_views(notes@) =~= note_views(n0) + side_notes(table@, entries, path@));
    }
    [first, second]
}

/// One entry re-encoded for the target version.
fn encode_entry(
    table: &[Instruction],
    entry: InstructionEntry,
    notes: &mut Vec<ImportNote>,
    path: &str,
) -> (r: AdvancedInstruction)
    requires
        table@.len() <= 256,
    ensures
        r == encoded_entry(table@, entry),
        note_views(final(notes)@) == note_views(old(notes)@) + entry_notes(table@, entry, path@),
{
    let stored = match encode_instruction(table, entry.instruction) {
        Some(stored) => {
            proof {
                assert(note_views(notes@) =~= note_views(notes@) + entry_notes(table@, entry, path@));
            }
            stored
        },
        None => {
            let k = instruction_position(entry.instruction);
            let label = INSTRUCTIONS[k];
            let note = ImportNote::NotEncodable { path: path.to_owned(), label: label.to_owned() };
            let ghost before = notes@;
            notes.push(note);
            proof {
                assert(note_views(notes@) =~= note_views(before) + entry_notes(table@, entry, path@));
            }
            0
        },
    };
    AdvancedInstruction { instruction: stored, player: entry.player }
}

/// `preset_path(p, tail)` as a string.
fn preset_path_string(p: usize, tail: &str) -> (r: String)
    requires
        p < 3,
    ensures
        r@ == preset_path(p as int, tail@),
{
    let mut s = "tactics.preset_".to_owned();
    let digit = if p == 0 {
        '1'
    } else if p == 1 {
        '2'
    } else {
        '3'
    };
    push_char(&mut s, digit);
    append_str(&mut s, ".");
    append_str(&mut s, tail);
    s
}

/// `presets_update(a, p, x)`.
fn set_preset(a: [TacticsPreset; 3], p: usize, x: TacticsPreset) -> (r: [TacticsPreset; 3])
    requires
        p < 3,
    ensures
        r == presets_update(a, p as int, x),
{
    if p == 0 {
        [x, a[1], a[2]]
    } else if p == 1 {
        [a[0], x, a[2]]
    } else {
        [a[0], a[1], x]
    }
}

/// `formations_update(a, f, x)`.
fn set_formation(a: [Formation; 3], f: usize, x: Formation) -> (r: [Formation; 3])
    requires
        f < 3,
    ensures
        r == formations_update(a, f as int, x),
{
    if f == 0 {
        [x, a[1], a[2]]
    } else if f == 1 {
        [a[0], x, a[2]]
    } else {
        [a[0], a[1], x]
    }
}

/// Key `k` of `[tactics]` outside the presets: whether the document holds
/// it, whether the target stores it, and its path.
fn tactics_head_key(section: &TacticsSection, schema: &TacticsSchema, k: usize) -> (r: (
    bool,
    bool,
    &'static str,
))
    requires
        k < 14,
    ensures
        r.0 == tactics_head_step(*section, *schema, k as int).0,
        r.1 == tactics_head_step(*section, *schema, k as int).1,
        r.2@ == tactics_head_step(*section, *schema, k as int).2,
        tactics_head_step(*section, *schema, k as int).4 == Seq::<NoteView>::empty(),
{
    reveal(tactics_head_step);
    match k {
        0 => (section.starting_eleven.is_some(), tactics_has_check(schema, TacticsField::Starting(0)), "tactics.starting_eleven"),
        1 => (section.bench_order.is_some(), tactics_has_check(schema, TacticsField::Bench(0)), "tactics.bench_order"),
        2 => (section.players_to_join_attack.is_some(), tactics_has_check(schema, TacticsField::PlayerToJoinAttack(0)), "tactics.players_to_join_attack"),
        3 => (section.set_pieces.free_kick_long.is_some(), tactics_has_check(schema, TacticsField::FreeKickTakerLong), "tactics.set_pieces.free_kick_long"),
        4 => (section.set_pieces.free_kick_short.is_some(), tactics_has_check(schema, TacticsField::FreeKickTakerShort), "tactics.set_pieces.free_kick_short"),
        5 => (section.set_pieces.free_kick_second.is_some(), tactics_has_check(schema, TacticsField::FreeKickTakerSecond), "tactics.set_pieces.free_kick_second"),
        6 => (section.set_pieces.corner_left.is_some(), tactics_has_check(schema, TacticsField::CornerTakerLeft), "tactics.set_pieces.corner_left"),
        7 => (section.set_pieces.corner_right.is_some(), tactics_has_check(schema, TacticsField::CornerTakerRight), "tactics.set_pieces.corner_right"),
        8 => (section.set_pieces.penalty.is_some(), tactics_has_check(schema, TacticsField::PenaltyTaker), "tactics.set_pieces.penalty"),
        9 => (section.set_pieces.captain.is_some(), tactics_has_check(schema, TacticsField::Captain), "tactics.set_pieces.captain"),
        10 => (section.auto.substitution.is_some(), tactics_has_check(schema, TacticsField::AutoSubstitution), "tactics.auto.substitution"),
        11 => (section.auto.offside_trap.is_some(), tactics_has_check(schema, TacticsField::AutoOffsideTrap), "tactics.auto.offside_trap"),
        12 => (section.auto.preset_change.is_some(), tactics_has_check(schema, TacticsField::AutoPresetChange), "tactics.auto.preset_change"),
        _ => (section.auto.attack_defence_levels.is_some(), tactics_has_check(schema, TacticsField::AutoAttackDefenceLevels), "tactics.auto.attack_defence_levels"),
    }
}

/// Writes key `k` of `[tactics]` outside the presets to `next`.
fn write_tactics_head_key(
    section: &TacticsSection,
    Ghost(schema): Ghost<TacticsSchema>,
    k: usize,
    next: &mut TeamEntry,
)
    requires
        k < 14,
        tactics_head_step(*section, schema, k as int).0,
    ensures
        *final(next) == (tactics_head_step(*section, schema, k as int).3)(*old(next)),
{
    reveal(tactics_head_step);
    match k {
        0 => {
            if let Some(v) = section.starting_eleven {
                next.tactics.starting_eleven = v;
            }
        },
        1 => {
            if let Some(v) = section.bench_order {
                next.tactics.bench_order = v;
            }
        },
        2 => {
            if let Some(v) = section.players_to_join_attack {
                next.tactics.players_to_join_attack = v;
            }
        },
        3 => {
            if let Some(v) = section.set_pieces.free_kick_long {
                next.tactics.set_pieces.free_kick_long = v;
            }
        },
        4 => {
            if let Some(v) = section.set_pieces.free_kick_short {
                next.tactics.set_pieces.free_kick_short = v;
            }
        },
        5 => {
            if let Some(v) = section.set_pieces.free_kick_second {
                next.tactics.set_pieces.free_kick_second = v;
            }
        },
        6 => {
            if let Some(v) = section.set_pieces.corner_left {
                next.tactics.set_pieces.corner_left = v;
            }
        },
        7 => {
            if let Some(v) = section.set_pieces.corner_right {
                next.tactics.set_pieces.corner_right = v;
            }
        },
        8 => {
            if let Some(v) = section.set_pieces.penalty {
                next.tactics.set_pieces.penalty = v;
            }
        },
        9 => {
            if let Some(v) = section.set_pieces.captain {
                next.tactics.set_pieces.captain = v;
            }
        },
        10 => {
            if let Some(v) = section.auto.substitution {
                next.tactics.auto.substitution = Some(v);
            }
        },
        11 => {
            if let Some(v) = section.auto.offside_trap {
                next.tactics.auto.offside_trap = Some(v);
            }
        },
        12 => {
            if let Some(v) = section.auto.preset_change {
                next.tactics.auto.preset_change = Some(v);
            }
        },
        _ => {
            if let Some(v) = section.auto.attack_defence_levels {
                next.tactics.auto.attack_defence_levels = Some(v);
            }
        },
    }
}

/// Key `j` of `[tactics.preset_N]`, N = `p + 1`: whether the document holds
/// it, whether the target stores it, and its path.
fn preset_key(
    section: &TacticsSection,
    schema: &TacticsSchema,
    Ghost(table): Ghost<Seq<Instruction>>,
    p: usize,
    j: usize,
) -> (r: (bool, bool, String))
    requires
        p < 3,
        j < 18,
    ensures
        r.0 == preset_step(*section, *schema, table, p as int, j as int).0,
        r.1 == preset_step(*section, *schema, table, p as int, j as int).1,
        r.2@ == preset_step(*section, *schema, table, p as int, j as int).2,
{
    reveal(preset_step);
    let ps = &section.presets[p];
    let (held, supported, tail) = match j {
        0 => (ps.style.attacking_style.is_some(), preset_has_check(schema, PresetField::AttackingStyle), "style.attacking_style"),
        1 => (ps.style.attacking_zone.is_some(), preset_has_check(schema, PresetField::AttackingZone), "style.attacking_zone"),
        2 => (ps.style.buildup.is_some(), preset_has_check(schema, PresetField::Buildup), "style.buildup"),
        3 => (ps.style.positioning.is_some(), preset_has_check(schema, PresetField::Positioning), "style.positioning"),
        4 => (ps.style.defensive_style.is_some(), preset_has_check(schema, PresetField::DefensiveStyle), "style.defensive_style"),
        5 => (ps.style.containment_area.is_some(), preset_has_check(schema, PresetField::ContainmentArea), "style.containment_area"),
        6 => (ps.style.pressure.is_some(), preset_has_check(schema, PresetField::Pressure), "style.pressure"),
        7 => (ps.style.fluid.is_some(), preset_has_check(schema, PresetField::FluidFormation), "style.fluid"),
        8 => (ps.sliders.support_range.is_some(), preset_has_check(schema, PresetField::SupportRange), "sliders.support_range"),
        9 => (ps.sliders.defensive_line.is_some(), preset_has_check(schema, PresetField::DefensiveLine), "sliders.defensive_line"),
        10 => (ps.sliders.compactness.is_some(), preset_has_check(schema, PresetField::Compactness), "sliders.compactness"),
        11 => (ps.sliders.numbers_in_attack.is_some(), preset_has_check(schema, PresetField::NumbersInAttack), "sliders.numbers_in_attack"),
        12 => (ps.sliders.numbers_in_defence.is_some(), preset_has_check(schema, PresetField::NumbersInDefence), "sliders.numbers_in_defence"),
        13 => (ps.formations[0].is_some(), true, "formation_1"),
        14 => (ps.formations[1].is_some(), true, "formation_2"),
        15 => (ps.formations[2].is_some(), true, "formation_3"),
        16 => (ps.instructions.is_some() && schema.instructions.is_some(), true, "instructions.attack"),
        _ => (ps.instructions.is_some() && schema.instructions.is_some(), true, "instructions.defence"),
    };
    (held, supported, preset_path_string(p, tail))
}

/// Writes key `j` of `[tactics.preset_N]`, N = `p + 1`, to `next`, adding its
/// notes.
#[verifier::rlimit(60)]
fn write_preset_key(
    section: &TacticsSection,
    Ghost(schema): Ghost<TacticsSchema>,
    table: &[Instruction],
    p: usize,
    j: usize,
    next: &mut TeamEntry,
    notes: &mut Vec<ImportNote>,
)
    requires
        p < 3,
        j < 18,
        table@.len() <= 256,
        preset_step(*section, schema, table@, p as int, j as int).0,
    ensures
        *final(next) == (preset_step(*section, schema, table@, p as int, j as int).3)(*old(next)),
        note_views(final(notes)@) == note_views(old(notes)@) + preset_step(
            *section,
            schema,
            table@,
            p as int,
            j as int,
        ).4,
{
    reveal(preset_step);
    let ps = section.presets[p];
    let mut pr = next.tactics.presets[p];
    let ghost n0 = notes@;
    match j {
        0 => {
            if let Some(v) = ps.style.attacking_style {
                pr.style.attacking_style = v;
            }
        },
        1 => {
            if let Some(v) = ps.style.attacking_zone {
                pr.style.attacking_zone = v;
            }
        },
        2 => {
            if let Some(v) = ps.style.buildup {
                pr.style.buildup = v;
            }
        },
        3 => {
            if let Some(v) = ps.style.positioning {
                pr.style.positioning = v;
            }
        },
        4 => {
            if let Some(v) = ps.style.defensive_style {
                pr.style.defensive_style = v;
            }
        },
        5 => {
            if let Some(v) = ps.style.containment_area {
                pr.style.containment_area = v;
            }
        },
        6 => {
            if let Some(v) = ps.style.pressure {
                pr.style.pressure = v;
            }
        },
        7 => {
            pr.style.fluid = ps.style.fluid;
        },
        8 => {
            if let Some(v) = ps.sliders.support_range {
                pr.sliders.support_range = v;
            }
        },
        9 => {
            if let Some(v) = ps.sliders.defensive_line {
                pr.sliders.defensive_line = v;
            }
        },
        10 => {
            if let Some(v) = ps.sliders.compactness {
                pr.sliders.compactness = v;
            }
        },
        11 => {
            if let Some(v) = ps.sliders.numbers_in_attack {
                pr.sliders.numbers_in_attack = v;
            }
        },
        12 => {
            if let Some(v) = ps.sliders.numbers_in_defence {
                pr.sliders.numbers_in_defence = v;
            }
        },
        13 => {
            if let Some(players) = ps.formations[0] {
                pr.formations = set_formation(pr.formations, 0, Formation { players });
            }
        },
        14 => {
            if let Some(players) = ps.formations[1] {
                pr.formations = set_formation(pr.formations, 1, Formation { players });
            }
        },
        15 => {
            if let Some(players) = ps.formations[2] {
                pr.formations = set_formation(pr.formations, 2, Formation { players });
            }
        },
        16 => {
            if let Some(ins) = ps.instructions {
                let path = preset_path_string(p, "instructions.attack");
                pr.attack_instructions = Some(encode_side(table, ins.attack, notes, path.as_str()));
            }
        },
        _ => {
            if let Some(ins) = ps.instructions {
                let path = preset_path_string(p, "instructions.defence");
                pr.defence_instructions = Some(encode_side(table, ins.defence, notes, path.as_str()));
            }
        },
    }
    proof {
        if j < 16 {
            assert(note_views(notes@) =~= note_views(n0) + Seq::<NoteView>::empty());
        }
    }
    next.tactics.presets = set_preset(next.tactics.presets, p, pr);
}

/// Where key `j` of preset `p` stands among all the keys of `[tactics]`.
pub proof fn lemma_preset_step_index(
    section: TacticsSection,
    schema: TacticsSchema,
    table: Seq<Instruction>,
    p: int,
    j: int,
)
    requires
        0 <= p < 3,
        0 <= j < 18,
    ensures
        tactics_steps(section, schema, table)[14 + 18 * p + j] == preset_step(
            section,
            schema,
            table,
            p,
            j,
        ),
{
    assert((18 * p + j) / 18 == p && (18 * p + j) % 18 == j) by (nonlinear_arith)
        requires
            0 <= p < 3,
            0 <= j < 18,
    ;
}

/// Applies a document's `[tactics]` table to `next`, `table` listing the
/// target version's instructions in stored order: each key the document
/// holds is written, in walk order, where the target version stores it. A
/// key the target lacks is a `NotInThisVersion` note when the document was
/// written for another version (`foreign`), and otherwise ends the import
/// with `TeamTomlError::NotInThisVersion`, the keys before it written. An
/// instruction the target cannot store is written as `Off` with a
/// `NotEncodable` note; the instruction tables are dropped silently where the
/// target has no instructions.
pub fn apply_tactics(
    section: &TacticsSection,
    schema: &TacticsSchema,
    table: &[Instruction],
    foreign: bool,
    next: &mut TeamEntry,
    notes: &mut Vec<ImportNote>,
) -> (r: Result<(), TeamTomlError>)
    requires
        table@.len() <= 256,
    ensures
        r is Ok <==> (foreign || first_refused(tactics_steps(*section, *schema, table@)) is None),
        r is Ok ==> *final(next) == walk(*old(next), tactics_steps(*section, *schema, table@)),
        r is Ok ==> note_views(final(notes)@) == note_views(old(notes)@) + import_notes(
            tactics_steps(*section, *schema, table@),
        ),
        r matches Err(e) ==> ({
            let steps = tactics_steps(*section, *schema, table@);
            &&& first_refused(steps) matches Some(k)
            &&& e matches TeamTomlError::NotInThisVersion { path } && path@ == steps[k].2
            &&& *final(next) == walk(*old(next), steps.take(k))
            &&& note_views(final(notes)@) == note_views(old(notes)@) + import_notes(steps.take(k))
        }),
{
    let ghost steps = tactics_steps(*section, *schema, table@);
    let ghost t0 = *next;
    let ghost n0 = notes@;
    assert(steps.take(0) =~= Seq::<Step>::empty());
    let mut k: usize = 0;
    while k < 14
        invariant
            k <= 14,
            steps == tactics_steps(*section, *schema, table@),
            steps.len() == 68,
            t0 == *old(next),
            n0 == old(notes)@,
            *next == walk(t0, steps.take(k as int)),
            note_views(notes@) == note_views(n0) + import_notes(steps.take(k as int)),
            foreign || first_refused(steps.take(k as int)) is None,
        decreases 14 - k,
    {
        proof {
            lemma_step(t0, steps, k as int);
        }
        let (held, supported, path) = tactics_head_key(section, schema, k);
        if held {
            let keep = match gated(notes, foreign, supported, path) {
                Ok(keep) => keep,
                Err(e) => {
                    proof {
                        lemma_first_refused_prefix(steps, k + 1);
                    }
                    return Err(e);
                },
            };
            if keep {
                assert(note_views(notes@) =~= note_views(notes@) + Seq::<NoteView>::empty());
                write_tactics_head_key(section, Ghost(*schema), k, next);
            }
        }
        k = k + 1;
    }
    let mut idx: usize = 14;
    let mut p: usize = 0;
    let mut j: usize = 0;
    while p < 3
        invariant
            p <= 3,
            j < 18,
            p == 3 ==> j == 0,
            idx == 14 + 18 * p + j,
            table@.len() <= 256,
            steps == tactics_steps(*section, *schema, table@),
            steps.len() == 68,
            t0 == *old(next),
            n0 == old(notes)@,
            *next == walk(t0, steps.take(idx as int)),
            note_views(notes@) == note_views(n0) + import_notes(steps.take(idx as int)),
            foreign || first_refused(steps.take(idx as int)) is None,
        decreases 68 - idx,
    {
        proof {
            lemma_step(t0, steps, idx as int);
            lemma_preset_step_index(*section, *schema, table@, p as int, j as int);
        }
        let (held, supported, path) = preset_key(section, schema, Ghost(table@), p, j);
        if held {
            let keep = match gated(notes, foreign, supported, path.as_str()) {
                Ok(keep) => keep,
                Err(e) => {
                    proof {
                        lemma_first_refused_prefix(steps, idx + 1);
                    }
                    return Err(e);
                },
            };
            if keep {
                write_preset_key(section, Ghost(*schema), table, p, j, next, notes);
            }
        }
        idx = idx + 1;
        if j == 17 {
            j = 0;
            p = p + 1;
        } else {
            j = j + 1;
        }
    }
    proof {
        assert(steps.take(68) =~= steps);
    }
    Ok(())
}

/// The first refused key of `a + b` is `a`'s, else `b`'s shifted past `a`.
pub proof fn lemma_first_refused_concat(a: Seq<Step>, b: Seq<Step>)
    ensures
        first_refused(a + b) == match first_refused(a) {
            Some(k) => Some(k),
            None => match first_refused(b) {
                Some(k) => Some(k + a.len()),
                None => None,
            },
        },
    decreases b.len(),
{
    if b.len() == 0 {
        assert(a + b =~= a);
    } else {
        assert((a + b).drop_last() =~= a + b.drop_last());
        lemma_first_refused_concat(a, b.drop_last());
    }
}

/// The path of the first key of the `[team]` and `[tactics]` tables together
/// (team keys first) that the document holds and the target does not store.
fn first_refused_path(
    team: &TeamSection,
    tactics: &TacticsSection,
    team_schema: &RecordSchema<TeamField, TeamText>,
    tactics_schema: &TacticsSchema,
    Ghost(table): Ghost<Seq<Instruction>>,
) -> (r: Option<String>)
    ensures
        r is None <==> first_refused(team_steps(*team, *team_schema) + tactics_steps(*tactics, *tactics_schema, table)) is None,
        r matches Some(path) ==> ({
            let all = team_steps(*team, *team_schema) + tactics_steps(*tactics, *tactics_schema, table);
            first_refused(all) matches Some(k) && path@ == all[k].2
        }),
{
    let ghost ts = team_steps(*team, *team_schema);
    let ghost cs = tactics_steps(*tactics, *tactics_schema, table);
    proof {
        lemma_first_refused_concat(ts, cs);
        assert(ts.take(0) =~= Seq::<Step>::empty());
        assert(cs.take(0) =~= Seq::<Step>::empty());
        lemma_preset_step_index(*tactics, *tactics_schema, table, 0, 0);
    }
    let mut k: usize = 0;
    while k < 11
        invariant
            k <= 11,
            ts == team_steps(*team, *team_schema),
            cs == tactics_steps(*tactics, *tactics_schema, table),
            ts.len() == 11,
            first_refused(ts.take(k as int)) is None,
        decreases 11 - k,
    {
        proof {
            lemma_step(arbitrary(), ts, k as int);
        }
        let (held, supported, path) = team_key(team, team_schema, k);
        if held && !supported {
            proof {
                lemma_first_refused_prefix(ts, k + 1);
                lemma_first_refused_concat(ts, cs);
            }
            return Some(path.to_owned());
        }
        k = k + 1;
    }
    proof {
        assert(ts.take(11) =~= ts);
    }
    let mut k: usize = 0;
    while k < 14
        invariant
            k <= 14,
            ts == team_steps(*team, *team_schema),
            cs == tactics_steps(*tactics, *tactics_schema, table),
            cs.len() == 68,
            first_refused(ts) is None,
            first_refused(cs.take(k as int)) is None,
        decreases 14 - k,
    {
        proof {
            lemma_step(arbitrary(), cs, k as int);
        }
        let (held, supported, path) = tactics_head_key(tactics, tactics_schema, k);
        if held && !supported {
            proof {
                lemma_first_refused_prefix(cs, k + 1);
                lemma_first_refused_concat(ts, cs);
            }
            return Some(path.to_owned());
        }
        k = k + 1;
    }
    let mut idx: usize = 14;
    let mut p: usize = 0;
    let mut j: usize = 0;
    while p < 3
        invariant
            p <= 3,
            j < 18,
            p == 3 ==> j == 0,
            idx == 14 + 18 * p + j,
            ts == team_steps(*team, *team_schema),
            cs == tactics_steps(*tactics, *tactics_schema, table),
            cs.len() == 68,
            first_refused(ts) is None,
            first_refused(cs.take(idx as int)) is None,
        decreases 68 - idx,
    {
        proof {
            lemma_step(arbitrary(), cs, idx as int);
            lemma_preset_step_index(*tactics, *tactics_schema, table, p as int, j as int);
        }
        let (held, supported, path) = preset_key(tactics, tactics_schema, Ghost(table), p, j);
        if held && !supported {
            proof {
                lemma_first_refused_prefix(cs, idx + 1);
                lemma_first_refused_concat(ts, cs);
            }
            return Some(path);
        }
        idx = idx + 1;
        if j == 17 {
            j = 0;
            p = p + 1;
        } else {
            j = j + 1;
        }
    }
    proof {
        assert(cs.take(68) =~= cs);
        lemma_first_refused_concat(ts, cs);
    }
    None
}

/// Applies a document's `[team]` and `[tactics]` tables to `team` as one
/// import, `table` listing the target version's instructions in stored
/// order, and returns the import's notes. A key the target lacks is a note
/// when the document was written for another version (`foreign`); otherwise
/// the import is refused with `TeamTomlError::NotInThisVersion` naming the
/// first such key, and `team` is left as it was.
pub fn apply_team_tables(
    team_section: &TeamSection,
    tactics_section: &TacticsSection,
    team_schema: &RecordSchema<TeamField, TeamText>,
    tactics_schema: &TacticsSchema,
    table: &[Instruction],
    foreign: bool,
    team: &mut TeamEntry,
) -> (r: Result<Vec<ImportNote>, TeamTomlError>)
    requires
        table@.len() <= 256,
    ensures
        ({
            let ts = team_steps(*team_section, *team_schema);
            let cs = tactics_steps(*tactics_section, *tactics_schema, table@);
            &&& r is Ok <==> (foreign || first_refused(ts + cs) is None)
            &&& r matches Ok(notes) ==> *final(team) == walk(walk(*old(team), ts), cs) && note_views(notes@)
                == import_notes(ts) + import_notes(cs)
            &&& r is Err ==> *final(team) == *old(team)
            &&& r matches Err(e) ==> (first_refused(ts + cs) matches Some(k) && e matches TeamTomlError::NotInThisVersion { path } && path@ == (ts + cs)[k].2)
        }),
{
    let ghost ts = team_steps(*team_section, *team_schema);
    let ghost cs = tactics_steps(*tactics_section, *tactics_schema, table@);
    if !foreign {
        if let Some(path) = first_refused_path(team_section, tactics_section, team_schema, tactics_schema, Ghost(table@)) {
            return Err(TeamTomlError::NotInThisVersion { path });
        }
    }
    proof {
        lemma_first_refused_concat(ts, cs);
    }
    let mut notes: Vec<ImportNote> = Vec::new();
    proof {
        assert(note_views(notes@) =~= Seq::<NoteView>::empty());
    }
    let team_result = apply_team(team_section, team_schema, foreign, team, &mut notes);
    assert(team_result is Ok);
    let tactics_result = apply_tactics(tactics_section, tactics_schema, table, foreign, team, &mut notes);
    assert(tactics_result is Ok);
    Ok(notes)
}

/// The `[team]` table holds no key.
pub open spec fn team_section_is_empty(section: TeamSection) -> bool {
    let flags = section.edit_flags;
    &&& section.name is None
    &&& section.short_name is None
    &&& section.manager_id is None
    &&& section.stadium_id is None
    &&& section.color_1 is None
    &&& section.color_2 is None
    &&& section.kit_slots is None
    &&& flags.name is None
    &&& flags.short_name is None
    &&& flags.stadium is None
    &&& flags.strip is None
}

/// The `[tactics]` table holds no key.
pub open spec fn tactics_section_is_empty(section: TacticsSection) -> bool {
    let sp = section.set_pieces;
    let auto = section.auto;
    &&& section.starting_eleven is None
    &&& section.bench_order is None
    &&& section.players_to_join_attack is None
    &&& sp.free_kick_long is None
    &&& sp.free_kick_short is None
    &&& sp.free_kick_second is None
    &&& sp.corner_left is None
    &&& sp.corner_right is None
    &&& sp.penalty is None
    &&& sp.captain is None
    &&& auto.substitution is None
    &&& auto.offside_trap is None
    &&& auto.preset_change is None
    &&& auto.attack_defence_levels is None
    &&& forall|p: int| 0 <= p < 3 ==> {
        let ps = #[trigger] section.presets[p];
        &&& ps.style.attacking_style is None
        &&& ps.style.attacking_zone is None
        &&& ps.style.buildup is None
        &&& ps.style.positioning is None
        &&& ps.style.defensive_style is None
        &&& ps.style.containment_area is None
        &&& ps.style.pressure is None
        &&& ps.style.fluid is None
        &&& ps.sliders.support_range is None
        &&& ps.sliders.defensive_line is None
        &&& ps.sliders.compactness is None
        &&& ps.sliders.numbers_in_attack is None
        &&& ps.sliders.numbers_in_defence is None
        &&& ps.formations[0] is None
        &&& ps.formations[1] is None
        &&& ps.formations[2] is None
        &&& ps.instructions is None
    }
}

/// Keys a document does not hold are neither written, noted nor refused.
pub proof fn lemma_unheld_steps(t: TeamEntry, steps: Seq<Step>)
    requires
        forall|i: int| 0 <= i < steps.len() ==> !(#[trigger] steps[i]).0,
    ensures
        walk(t, steps) == t,
        import_notes(steps) == Seq::<NoteView>::empty(),
        first_refused(steps) is None,
    decreases steps.len(),
{
    if steps.len() > 0 {
        let rest = steps.drop_last();
        assert forall|i: int| 0 <= i < rest.len() implies !(#[trigger] rest[i]).0 by {
            assert(rest[i] == steps[i]);
        }
        lemma_unheld_steps(t, rest);
        assert(!steps.last().0);
        assert(import_notes(steps) =~= import_notes(rest));
    }
}

/// An absent key is "leave untouched": importing a document whose `[team]`
/// and `[tactics]` tables hold no key leaves every team as it was, adds no
/// note and is refused by no target version.
pub proof fn law_an_empty_document_leaves_the_team_untouched(
    t: TeamEntry,
    team_section: TeamSection,
    tactics_section: TacticsSection,
    team_schema: RecordSchema<TeamField, TeamText>,
    tactics_schema: TacticsSchema,
    table: Seq<Instruction>,
)
    requires
        team_section_is_empty(team_section),
        tactics_section_is_empty(tactics_section),
    ensures
        ({
            let ts = team_steps(team_section, team_schema);
            let cs = tactics_steps(tactics_section, tactics_schema, table);
            &&& walk(walk(t, ts), cs) == t
            &&& import_notes(ts) + import_notes(cs) == Seq::<NoteView>::empty()
            &&& first_refused(ts + cs) is None
        }),
{
    let ts = team_steps(team_section, team_schema);
    let cs = tactics_steps(tactics_section, tactics_schema, table);
    assert forall|i: int| 0 <= i < ts.len() implies !(#[trigger] ts[i]).0 by {}
    assert forall|i: int| 0 <= i < cs.len() implies !(#[trigger] cs[i]).0 by {
        if i < 14 {
            reveal(tactics_head_step);
        } else {
            let p = (i - 14) / 18;
            let j = (i - 14) % 18;
            assert(0 <= p < 3 && 0 <= j < 18);
            reveal(preset_step);
            let ps = tactics_section.presets[p];
            assert(ps == tactics_section.presets[p]);
        }
    }
    lemma_unheld_steps(t, ts);
    lemma_unheld_steps(t, cs);
    lemma_first_refused_concat(ts, cs);
    assert(import_notes(ts) + import_notes(cs) =~= Seq::<NoteView>::empty());
}

/// Walking two step lists in turn is walking them joined.
proof fn lemma_walk_concat(t: TeamEntry, a: Seq<Step>, b: Seq<Step>)
    ensures
        walk(walk(t, a), b) == walk(t, a + b),
        import_notes(a) + import_notes(b) == import_notes(a + b),
    decreases b.len(),
{
    if b.len() == 0 {
        assert(a + b =~= a);
        assert(import_notes(a) + import_notes(b) =~= import_notes(a));
    } else {
        assert((a + b).drop_last() =~= a + b.drop_last());
        lemma_walk_concat(t, a, b.drop_last());
        assert(import_notes(a) + import_notes(b) =~= (import_notes(a) + import_notes(b.drop_last()))
            + step_notes(b.last()));
    }
}

/// A step list that holds only its key `k` writes only that key.
proof fn lemma_walk_one(t: TeamEntry, steps: Seq<Step>, k: int)
    requires
        0 <= k < steps.len(),
        forall|i: int| 0 <= i < steps.len() && i != k ==> !(#[trigger] steps[i]).0,
    ensures
        walk(t, steps) == (if steps[k].0 && steps[k].1 {
            (steps[k].3)(t)
        } else {
            t
        }),
        import_notes(steps) == step_notes(steps[k]),
        first_refused(steps) == (if refused(steps[k]) {
            Some(k)
        } else {
            None
        }),
    decreases steps.len(),
{
    let rest = steps.drop_last();
    if k == steps.len() - 1 {
        assert forall|i: int| 0 <= i < rest.len() implies !(#[trigger] rest[i]).0 by {
            assert(rest[i] == steps[i]);
        }
        lemma_unheld_steps(t, rest);
        assert(import_notes(steps) =~= step_notes(steps[k]));
    } else {
        assert forall|i: int| 0 <= i < rest.len() && i != k implies !(#[trigger] rest[i]).0 by {
            assert(rest[i] == steps[i]);
        }
        assert(rest[k] == steps[k]);
        lemma_walk_one(t, rest, k);
        assert(!steps.last().0);
        assert(import_notes(steps) =~= import_notes(rest));
    }
}

/// An absent key is "leave untouched": a document whose `[team]` and
/// `[tactics]` tables hold a single key (key `k` of the import's walk, team
/// keys first) writes that key alone, when the target stores it, and leaves
/// every other field of the team as it was; its notes are that key's, and
/// it is refused exactly when the target does not store that key.
pub proof fn law_a_one_key_document_changes_exactly_that_key(
    t: TeamEntry,
    team_section: TeamSection,
    tactics_section: TacticsSection,
    team_schema: RecordSchema<TeamField, TeamText>,
    tactics_schema: TacticsSchema,
    table: Seq<Instruction>,
    k: int,
)
    requires
        ({
            let steps = team_steps(team_section, team_schema) + tactics_steps(tactics_section, tactics_schema, table);
            &&& 0 <= k < steps.len()
            &&& forall|i: int| 0 <= i < steps.len() && i != k ==> !(#[trigger] steps[i]).0
        }),
    ensures
        ({
            let ts = team_steps(team_section, team_schema);
            let cs = tactics_steps(tactics_section, tactics_schema, table);
            let step = (ts + cs)[k];
            &&& walk(walk(t, ts), cs) == (if step.0 && step.1 {
                (step.3)(t)
            } else {
                t
            })
            &&& import_notes(ts) + import_notes(cs) == step_notes(step)
            &&& first_refused(ts + cs) == (if refused(step) {
                Some(k)
            } else {
                None
            })
        }),
{
    let ts = team_steps(team_section, team_schema);
    let cs = tactics_steps(tactics_section, tactics_schema, table);
    lemma_walk_concat(t, ts, cs);
    lemma_walk_one(t, ts + cs, k);
}

} // verus!
