//! The team, roster and tactics record codecs: the three record kinds the
//! `TeamEntry` merges.
use vstd::prelude::*;

use crate::codec::bits::{fits, is_run_value, lemma_run_value_facts, read_bits, run_value, write_bits};
use crate::codec::player::{kind_width, lemma_fits_wider, lemma_latin1_round_trip, lemma_stored_fitting};
use crate::codec::{
    FieldName, first_unwritable, lemma_first_unwritable_unique,
    field_array_runs, first_nul, last_run_index, last_text_index, latin1_bytes,
    latin1_chars, latin1_text, lemma_first_nul_facts, lemma_last_run_index_facts,
    lemma_last_run_index_step, lemma_last_text_index_facts, lemma_last_text_index_step,
    lemma_write_own_texts, lemma_write_own_values, lemma_write_runs_step, lemma_write_texts_step,
    record_schema_wf, run_writes, runs, runs_writable, single_byte, text_bytes, text_field,
    text_writes, texts_writable, utf8_text, write_runs_spec, write_text, write_texts_spec,
    CodecError,
};
use crate::model::player::stored;
use crate::model::tactics::{
    created_instruction_value, creates_instructions, same_outside_tactics_record, side_of,
    tactics_indices_in_range, tactics_stored, tactics_switch_field, tactics_value,
};
use crate::model::team::{
    creates_group, is_color_field, is_kit_field, roster_field_value, roster_with,
    team_field_kind, team_field_value, team_group_default, team_index_in_range, RosterSlot,
    TeamEntry,
};
use crate::schema::{
    array_runs, arrays_fit, field_runs, schema_runs, FormationPart, InstructionLayout,
    InstructionPart, InstructionSide, PresetSpec, RecordSchema, RosterField, Run, TacticsField,
    TacticsSchema, TeamField, TeamText, TextSpec,
};
use vstd::utf8::{decode_utf8, encode_utf8, valid_utf8};

verus! {

/// Every run of a team record names one of the ten kit slots where it names one.
pub open spec fn team_runs_in_range(runs: Seq<Run<TeamField>>) -> bool {
    forall|k: int| 0 <= k < runs.len() ==> team_index_in_range((#[trigger] runs[k]).0)
}

/// Some run carries a colour field.
pub open spec fn touches_colors(runs: Seq<Run<TeamField>>) -> bool {
    exists|k: int| 0 <= k < runs.len() && is_color_field((#[trigger] runs[k]).0)
}

/// Some run carries a kit-slot field.
pub open spec fn touches_kits(runs: Seq<Run<TeamField>>) -> bool {
    exists|k: int| 0 <= k < runs.len() && is_kit_field((#[trigger] runs[k]).0)
}

/// `g`'s group (colours or kit slots) was absent from `t0` and some run
/// created it.
pub open spec fn team_group_created(t0: TeamEntry, runs: Seq<Run<TeamField>>, g: TeamField) -> bool {
    ||| is_color_field(g) && t0.colors is None && touches_colors(runs)
    ||| is_kit_field(g) && t0.kit_slots is None && touches_kits(runs)
}

/// What a team field reads as once the runs are applied in order onto `t0`:
/// the last run that carries it, else the empty value of a group a run
/// created, else what it read as in `t0`.
pub open spec fn team_value_after(
    t0: TeamEntry,
    record: Seq<u8>,
    runs: Seq<Run<TeamField>>,
    g: TeamField,
) -> Option<u32> {
    match last_run_index(runs, g) {
        Some(k) => Some(stored(team_field_kind(g), run_value(record, runs[k].1 as int, runs[k].2))),
        None => if team_group_created(t0, runs, g) {
            team_group_default(g)
        } else {
            team_field_value(t0, g)
        },
    }
}

/// Every name field of the record holds UTF-8.
pub open spec fn team_texts_decode(record: Seq<u8>, texts: Seq<TextSpec<TeamText>>) -> bool {
    forall|k: int|
        0 <= k < texts.len() && (#[trigger] texts[k]).text == TeamText::Name ==> valid_utf8(
            text_field(record, texts[k].byte_offset as int, texts[k].len as int),
        )
}

/// The chars a team text field's bytes read as: the name decodes UTF-8, the
/// short name is one char per byte.
pub open spec fn team_text_chars(text: TeamText, bytes: Seq<u8>) -> Seq<char> {
    match text {
        TeamText::Name => decode_utf8(bytes),
        TeamText::ShortName => latin1_chars(bytes),
    }
}

/// What `text` reads as once the text fields are applied in order.
pub open spec fn team_text_after(
    before: Seq<char>,
    record: Seq<u8>,
    texts: Seq<TextSpec<TeamText>>,
    text: TeamText,
) -> Seq<char> {
    match last_text_index(texts, text) {
        Some(k) => team_text_chars(
            text,
            text_field(record, texts[k].byte_offset as int, texts[k].len as int),
        ),
        None => before,
    }
}

/// `new` is `old` with every run and text field of the team record applied;
/// the roster and tactics are untouched.
pub open spec fn team_read_post(
    old: TeamEntry,
    new: TeamEntry,
    record: Seq<u8>,
    schema: RecordSchema<TeamField, TeamText>,
) -> bool {
    &&& forall|g: TeamField| #[trigger]
        team_field_value(new, g) == team_value_after(old, record, schema_runs(schema), g)
    &&& new.name@ == team_text_after(old.name@, record, schema.texts@, TeamText::Name)
    &&& new.short_name@ == team_text_after(
        old.short_name@,
        record,
        schema.texts@,
        TeamText::ShortName,
    )
    &&& new.roster == old.roster
    &&& new.tactics == old.tactics
}

/// Two teams whose record fields agree read the same on every team field.
pub proof fn lemma_team_values_ignore_texts(a: TeamEntry, b: TeamEntry)
    requires
        a.id == b.id,
        a.manager_id == b.manager_id,
        a.stadium_id == b.stadium_id,
        a.colors == b.colors,
        a.edit_flags == b.edit_flags,
        a.kit_slots == b.kit_slots,
    ensures
        forall|g: TeamField| #[trigger] team_field_value(a, g) == team_field_value(b, g),
{
}

/// One more team run applied, from a state that holds the runs before it.
proof fn lemma_team_value_step(
    t0: TeamEntry,
    before: TeamEntry,
    after: TeamEntry,
    record: Seq<u8>,
    runs: Seq<Run<TeamField>>,
    k: int,
    v: u32,
    g: TeamField,
)
    requires
        0 <= k < runs.len(),
        v == run_value(record, runs[k].1 as int, runs[k].2),
        team_index_in_range(runs[k].0),
        before.colors is None <==> (t0.colors is None && !touches_colors(runs.take(k))),
        before.kit_slots is None <==> (t0.kit_slots is None && !touches_kits(runs.take(k))),
        team_field_value(before, g) == team_value_after(t0, record, runs.take(k), g),
        team_field_value(after, g) == if g == runs[k].0 {
            Some(stored(team_field_kind(runs[k].0), v))
        } else if creates_group(before, runs[k].0, g) {
            team_group_default(g)
        } else {
            team_field_value(before, g)
        },
    ensures
        team_field_value(after, g) == team_value_after(t0, record, runs.take(k + 1), g),
{
    let f = runs[k].0;
    let p = runs.take(k);
    let q = runs.take(k + 1);
    lemma_last_run_index_step(runs, k, g);
    lemma_last_run_index_facts(p, g);
    assert(q[k] == runs[k]);
    assert forall|j: int| 0 <= j < p.len() implies #[trigger] p[j] == q[j] by {}
    if is_color_field(f) {
        assert(touches_colors(q)) by {
            assert(is_color_field(q[k].0));
        }
    }
    if is_kit_field(f) {
        assert(touches_kits(q)) by {
            assert(is_kit_field(q[k].0));
        }
    }
    if touches_colors(p) {
        let j = choose|j: int| 0 <= j < p.len() && is_color_field((#[trigger] p[j]).0);
        assert(is_color_field(q[j].0));
    }
    if touches_kits(p) {
        let j = choose|j: int| 0 <= j < p.len() && is_kit_field((#[trigger] p[j]).0);
        assert(is_kit_field(q[j].0));
    }
    if !is_color_field(f) && touches_colors(q) {
        let j = choose|j: int| 0 <= j < q.len() && is_color_field((#[trigger] q[j]).0);
        assert(j != k);
        assert(is_color_field(p[j].0));
    }
    if !is_kit_field(f) && touches_kits(q) {
        let j = choose|j: int| 0 <= j < q.len() && is_kit_field((#[trigger] q[j]).0);
        assert(j != k);
        assert(is_kit_field(p[j].0));
    }
    if g != f && creates_group(before, f, g) {
        match last_run_index(p, g) {
            Some(j) => {
                if is_color_field(g) {
                    assert(is_color_field(p[j].0));
                } else {
                    assert(is_kit_field(p[j].0));
                }
            },
            None => {},
        }
    }
}

/// Decodes one team record into a fresh `TeamEntry` (id, name, colours, edit
/// flags, kit slots; roster and tactics come from their own records).
pub fn read_team(record: &[u8], schema: &RecordSchema<TeamField, TeamText>) -> (r: Result<
    TeamEntry,
    CodecError,
>)
    requires
        record_schema_wf(*schema),
    ensures
        record@.len() != schema.size ==> r == Err::<TeamEntry, CodecError>(
            CodecError::RecordSize { expected: schema.size, got: record@.len() as usize },
        ),
        record@.len() == schema.size && !team_runs_in_range(schema_runs(*schema)) ==> (r matches Err(
            e,
        ) && e is Index),
        record@.len() == schema.size && team_runs_in_range(schema_runs(*schema))
            && !team_texts_decode(record@, schema.texts@) ==> (r matches Err(e) && e is Text),
        record@.len() == schema.size && team_runs_in_range(schema_runs(*schema))
            && team_texts_decode(record@, schema.texts@) ==> (r matches Ok(t) && exists|d: TeamEntry|
            d.is_default() && team_read_post(d, t, record@, *schema)),
{
    let mut team = TeamEntry::default();
    let ghost start = team;
    if record.len() != schema.size {
        return Err(CodecError::RecordSize { expected: schema.size, got: record.len() });
    }
    let rs = runs(schema);
    let mut k: usize = 0;
    while k < rs.len()
        invariant
            k <= rs@.len(),
            rs@ == schema_runs(*schema),
            record_schema_wf(*schema),
            record@.len() == schema.size,
            start.is_default(),
            forall|j: int| 0 <= j < k ==> team_index_in_range((#[trigger] rs@[j]).0),
            forall|g: TeamField| #[trigger]
                team_field_value(team, g) == team_value_after(start, record@, rs@.take(k as int), g),
            team.colors is None <==> (start.colors is None && !touches_colors(rs@.take(k as int))),
            team.kit_slots is None <==> (start.kit_slots is None && !touches_kits(rs@.take(k as int))),
            team.name == start.name,
            team.short_name == start.short_name,
            team.roster == start.roster,
            team.tactics == start.tactics,
        decreases rs@.len() - k,
    {
        let (field, offset, width) = rs[k];
        proof {
            assert(schema_runs(*schema)[k as int] == rs@[k as int]);
        }
        let v = read_bits(record, offset, width);
        let ghost before = team;
        match team.set(field, v) {
            Ok(()) => {},
            Err(e) => {
                return Err(e);
            },
        }
        proof {
            assert forall|g: TeamField| #[trigger]
                team_field_value(team, g) == team_value_after(start, record@, rs@.take(k + 1), g) by {
                lemma_team_value_step(start, before, team, record@, rs@, k as int, v, g);
            }
            let q = rs@.take(k + 1);
            let p = rs@.take(k as int);
            assert(q[k as int] == rs@[k as int]);
            // The colours are absent exactly while no colour run has come.
            assert(team_field_value(team, TeamField::Color1Red) == team_value_after(
                start,
                record@,
                q,
                TeamField::Color1Red,
            ));
            assert(team_field_value(before, TeamField::Color1Red) == team_value_after(
                start,
                record@,
                p,
                TeamField::Color1Red,
            ));
            assert(team_field_value(team, TeamField::KitSlotNumber(0)) == team_value_after(
                start,
                record@,
                q,
                TeamField::KitSlotNumber(0),
            ));
            assert(team_field_value(before, TeamField::KitSlotNumber(0)) == team_value_after(
                start,
                record@,
                p,
                TeamField::KitSlotNumber(0),
            ));
            if is_color_field(field) {
                assert(touches_colors(q)) by {
                    assert(is_color_field(q[k as int].0));
                }
            } else if touches_colors(q) {
                let j = choose|j: int| 0 <= j < q.len() && is_color_field((#[trigger] q[j]).0);
                assert(is_color_field(p[j].0));
            }
            if touches_colors(p) {
                let j = choose|j: int| 0 <= j < p.len() && is_color_field((#[trigger] p[j]).0);
                assert(is_color_field(q[j].0));
            }
            if is_kit_field(field) {
                assert(touches_kits(q)) by {
                    assert(is_kit_field(q[k as int].0));
                }
            } else if touches_kits(q) {
                let j = choose|j: int| 0 <= j < q.len() && is_kit_field((#[trigger] q[j]).0);
                assert(is_kit_field(p[j].0));
            }
            if touches_kits(p) {
                let j = choose|j: int| 0 <= j < p.len() && is_kit_field((#[trigger] p[j]).0);
                assert(is_kit_field(q[j].0));
            }
        }
        k = k + 1;
    }
    proof {
        assert(rs@.take(rs@.len() as int) =~= rs@);
    }
    let ghost mid = team;
    let mut t: usize = 0;
    while t < schema.texts.len()
        invariant
            t <= schema.texts@.len(),
            record_schema_wf(*schema),
            record@.len() == schema.size,
            team_runs_in_range(schema_runs(*schema)),
            team.id == mid.id,
            team.manager_id == mid.manager_id,
            team.stadium_id == mid.stadium_id,
            team.colors == mid.colors,
            team.edit_flags == mid.edit_flags,
            team.kit_slots == mid.kit_slots,
            team.roster == mid.roster,
            team.tactics == mid.tactics,
            forall|j: int|
                0 <= j < t && (#[trigger] schema.texts@[j]).text == TeamText::Name ==> valid_utf8(
                    text_field(record@, schema.texts@[j].byte_offset as int, schema.texts@[j].len as int),
                ),
            team.name@ == team_text_after(start.name@, record@, schema.texts@.take(t as int), TeamText::Name),
            team.short_name@ == team_text_after(
                start.short_name@,
                record@,
                schema.texts@.take(t as int),
                TeamText::ShortName,
            ),
        decreases schema.texts@.len() - t,
    {
        let spec = schema.texts[t];
        proof {
            assert(schema.texts@[t as int] == spec);
        }
        let bytes = text_bytes(record, spec.byte_offset, spec.len);
        match spec.text {
            TeamText::Name => {
                match utf8_text(bytes) {
                    Some(s) => {
                        team.name = s;
                    },
                    None => {
                        return Err(
                            CodecError::Text {
                                text: "Name".to_string(),
                                reason: "team name is not UTF-8",
                            },
                        );
                    },
                }
            },
            TeamText::ShortName => {
                team.short_name = latin1_text(bytes.as_slice());
            },
        }
        proof {
            lemma_last_text_index_step(schema.texts@, t as int, TeamText::Name);
            lemma_last_text_index_facts(schema.texts@.take(t as int), TeamText::Name);
            lemma_last_text_index_step(schema.texts@, t as int, TeamText::ShortName);
            lemma_last_text_index_facts(schema.texts@.take(t as int), TeamText::ShortName);
        }
        t = t + 1;
    }
    proof {
        assert(schema.texts@.take(schema.texts@.len() as int) =~= schema.texts@);
        lemma_team_values_ignore_texts(team, mid);
        assert(start.is_default() && team_read_post(start, team, record@, *schema));
    }
    Ok(team)
}

/// The bytes a team text is written as: the name as UTF-8, the short name one
/// byte per char (none when a char is above U+00FF).
pub open spec fn team_text_bytes(t: TeamEntry, text: TeamText) -> Option<Seq<u8>> {
    match text {
        TeamText::Name => Some(encode_utf8(t.name@)),
        TeamText::ShortName => latin1_bytes(t.short_name@),
    }
}

/// The record after `t` is written into it: the runs, then the texts.
pub open spec fn team_written(
    t: TeamEntry,
    record: Seq<u8>,
    schema: RecordSchema<TeamField, TeamText>,
) -> Seq<u8> {
    write_texts_spec(
        write_runs_spec(
            record,
            run_writes(|g: TeamField| team_field_value(t, g), schema_runs(schema)),
        ),
        text_writes(|x: TeamText| team_text_bytes(t, x), schema.texts@),
    )
}

/// The value each team field holds in `team`.
pub open spec fn team_values(team: TeamEntry) -> spec_fn(TeamField) -> Option<u32> {
    |g: TeamField| team_field_value(team, g)
}

/// Patches the schema's fields and texts of `team` into `record`.
pub fn write_team(
    team: &TeamEntry,
    record: &mut [u8],
    schema: &RecordSchema<TeamField, TeamText>,
) -> (r: Result<(), CodecError>)
    requires
        record_schema_wf(*schema),
    ensures
        final(record)@.len() == old(record)@.len(),
        old(record)@.len() != schema.size ==> r == Err::<(), CodecError>(
            CodecError::RecordSize { expected: schema.size, got: old(record)@.len() as usize },
        ) && final(record)@ == old(record)@,
        old(record)@.len() == schema.size && !runs_writable(
            |g: TeamField| team_field_value(*team, g),
            schema_runs(*schema),
        ) ==> (r matches Err(e) && (e is Missing || e is Index || e is ValueTooWide)),
        old(record)@.len() == schema.size ==> forall|k: int| #[trigger]
            first_unwritable(team_values(*team), schema_runs(*schema), k) ==> ({
                let run = schema_runs(*schema)[k];
                &&& final(record)@ == write_runs_spec(
                    old(record)@,
                    run_writes(team_values(*team), schema_runs(*schema)).take(k),
                )
                &&& match team_field_value(*team, run.0) {
                    Some(v) => r matches Err(CodecError::ValueTooWide { field: text, value, width })
                        && value == v && width == run.2 && text@ == run.0.spec_name(),
                    None => r matches Err(e) && (e is Missing || e is Index),
                }
            }),
        old(record)@.len() == schema.size && runs_writable(
            |g: TeamField| team_field_value(*team, g),
            schema_runs(*schema),
        ) && !texts_writable(|x: TeamText| team_text_bytes(*team, x), schema.texts@) ==> (r matches Err(
            e,
        ) && e is Text),
        old(record)@.len() == schema.size && runs_writable(
            |g: TeamField| team_field_value(*team, g),
            schema_runs(*schema),
        ) && texts_writable(|x: TeamText| team_text_bytes(*team, x), schema.texts@) ==> r is Ok
            && final(record)@ == team_written(*team, old(record)@, *schema),
{
    if record.len() != schema.size {
        return Err(CodecError::RecordSize { expected: schema.size, got: record.len() });
    }
    let rs = runs(schema);
    let ghost values = |g: TeamField| team_field_value(*team, g);
    let ghost writes = run_writes(values, rs@);
    let mut k: usize = 0;
    while k < rs.len()
        invariant
            k <= rs@.len(),
            rs@ == schema_runs(*schema),
            values == (|g: TeamField| team_field_value(*team, g)),
            writes == run_writes(values, rs@),
            record_schema_wf(*schema),
            record@.len() == schema.size,
            old(record)@.len() == schema.size,
            forall|j: int|
                0 <= j < k ==> {
                    let v = values((#[trigger] rs@[j]).0);
                    v is Some && fits(v->0, rs@[j].2)
                },
            record@ == write_runs_spec(old(record)@, writes.take(k as int)),
        decreases rs@.len() - k,
    {
        let (field, offset, width) = rs[k];
        proof {
            assert(schema_runs(*schema)[k as int] == rs@[k as int]);
        }
        let value = match team.get(field) {
            Ok(v) => v,
            Err(e) => {
                proof {
                    lemma_first_unwritable_unique(values, rs@, k as int);
                }
                return Err(e);
            },
        };
        proof {
            if width < 32 {
                assert((1u32 << width) as int == (1u64 << width) as int) by (bit_vector)
                    requires
                        width < 32,
                ;
            }
        }
        if width < 32 && value >= (1u32 << width) {
            proof {
                assert(!fits(value, width));
                assert(values(rs@[k as int].0) == Some(value));
                lemma_first_unwritable_unique(values, rs@, k as int);
            }
            return Err(CodecError::ValueTooWide { field: field.name(), value, width });
        }
        proof {
            assert(fits(value, width));
            lemma_write_runs_step(old(record)@, writes, k as int);
        }
        write_bits(record, offset, width, value);
        k = k + 1;
    }
    proof {
        assert(rs@.take(rs@.len() as int) =~= rs@);
        assert(writes.take(writes.len() as int) =~= writes);
    }
    let ghost mid = record@;
    let ghost tbytes = |x: TeamText| team_text_bytes(*team, x);
    let ghost twrites = text_writes(tbytes, schema.texts@);
    let mut t: usize = 0;
    while t < schema.texts.len()
        invariant
            t <= schema.texts@.len(),
            tbytes == (|x: TeamText| team_text_bytes(*team, x)),
            twrites == text_writes(tbytes, schema.texts@),
            record_schema_wf(*schema),
            record@.len() == schema.size,
            old(record)@.len() == schema.size,
            runs_writable(|g: TeamField| team_field_value(*team, g), schema_runs(*schema)),
            mid == write_runs_spec(
                old(record)@,
                run_writes(|g: TeamField| team_field_value(*team, g), schema_runs(*schema)),
            ),
            forall|j: int|
                0 <= j < t ==> {
                    let b = tbytes((#[trigger] schema.texts@[j]).text);
                    b is Some && b->0.len() < schema.texts@[j].len
                },
            record@ == write_texts_spec(mid, twrites.take(t as int)),
        decreases schema.texts@.len() - t,
    {
        let spec = schema.texts[t];
        proof {
            assert(schema.texts@[t as int] == spec);
            lemma_write_texts_step(mid, twrites, t as int);
        }
        match spec.text {
            TeamText::Name => {
                let bytes = team.name.as_str().as_bytes();
                if bytes.len() >= spec.len as usize {
                    return Err(
                        CodecError::Text {
                            text: spec.text.name(),
                            reason: "the text does not fit its field",
                        },
                    );
                }
                write_text(record, spec.byte_offset, spec.len, bytes);
            },
            TeamText::ShortName => {
                let bytes = match single_byte(team.short_name.as_str(), "ShortName") {
                    Ok(b) => b,
                    Err(e) => {
                        return Err(e);
                    },
                };
                if bytes.len() >= spec.len as usize {
                    return Err(
                        CodecError::Text {
                            text: spec.text.name(),
                            reason: "the text does not fit its field",
                        },
                    );
                }
                write_text(record, spec.byte_offset, spec.len, bytes.as_slice());
            },
        }
        t = t + 1;
    }
    proof {
        assert(twrites.take(twrites.len() as int) =~= twrites);
    }
    Ok(())
}


/// The roster after the roster record's runs are applied in order onto
/// `roster`: each slot run writes its slot, growing the roster with empty slots
/// to reach it.
pub open spec fn roster_after(
    roster: Seq<RosterSlot>,
    record: Seq<u8>,
    runs: Seq<Run<RosterField>>,
) -> Seq<RosterSlot>
    decreases runs.len(),
{
    if runs.len() == 0 {
        roster
    } else {
        let prev = roster_after(roster, record, runs.drop_last());
        let run = runs.last();
        let v = run_value(record, run.1 as int, run.2);
        match run.0 {
            RosterField::TeamId => prev,
            RosterField::Player(i) => roster_with(
                prev,
                i as int,
                RosterSlot {
                    player_id: v,
                    number: if i < prev.len() { prev[i as int].number } else { 0 },
                },
            ),
            RosterField::Number(i) => roster_with(
                prev,
                i as int,
                RosterSlot {
                    player_id: if i < prev.len() { prev[i as int].player_id } else { 0 },
                    number: v as u16,
                },
            ),
        }
    }
}

/// Every team-id run of the record holds `id`.
pub open spec fn team_id_runs_match<F>(
    id: u32,
    record: Seq<u8>,
    runs: Seq<Run<F>>,
    team_id: F,
) -> bool {
    forall|k: int|
        0 <= k < runs.len() && (#[trigger] runs[k]).0 == team_id ==> run_value(
            record,
            runs[k].1 as int,
            runs[k].2,
        ) == id
}

/// `e` is the mismatch a team-id run other than `id` is answered with.
pub open spec fn is_team_id_mismatch<F>(
    e: CodecError,
    id: u32,
    record: Seq<u8>,
    runs: Seq<Run<F>>,
    team_id: F,
) -> bool {
    exists|k: int|
        0 <= k < runs.len() && (#[trigger] runs[k]).0 == team_id && e == CodecError::TeamIdMismatch {
            expected: id,
            got: run_value(record, runs[k].1 as int, runs[k].2),
        } && run_value(record, runs[k].1 as int, runs[k].2) != id
}

/// One more roster run applied.
proof fn lemma_roster_after_step(
    roster: Seq<RosterSlot>,
    record: Seq<u8>,
    runs: Seq<Run<RosterField>>,
    k: int,
)
    requires
        0 <= k < runs.len(),
    ensures
        roster_after(roster, record, runs.take(k + 1)) == ({
            let prev = roster_after(roster, record, runs.take(k));
            let v = run_value(record, runs[k].1 as int, runs[k].2);
            match runs[k].0 {
                RosterField::TeamId => prev,
                RosterField::Player(i) => roster_with(
                    prev,
                    i as int,
                    RosterSlot {
                        player_id: v,
                        number: if i < prev.len() { prev[i as int].number } else { 0 },
                    },
                ),
                RosterField::Number(i) => roster_with(
                    prev,
                    i as int,
                    RosterSlot {
                        player_id: if i < prev.len() { prev[i as int].player_id } else { 0 },
                        number: v as u16,
                    },
                ),
            }
        }),
{
    let t = runs.take(k + 1);
    assert(t.drop_last() =~= runs.take(k));
    assert(t.last() == runs[k]);
}

/// Applies a roster record onto an existing `TeamEntry` whose `id` must match
/// the record's team id.
pub fn read_roster_into(
    team: &mut TeamEntry,
    record: &[u8],
    schema: &RecordSchema<RosterField, TeamText>,
) -> (r: Result<(), CodecError>)
    requires
        record_schema_wf(*schema),
    ensures
        record@.len() != schema.size ==> r == Err::<(), CodecError>(
            CodecError::RecordSize { expected: schema.size, got: record@.len() as usize },
        ) && *final(team) == *old(team),
        record@.len() == schema.size ==> (r is Ok <==> team_id_runs_match(
            old(team).id,
            record@,
            schema_runs(*schema),
            RosterField::TeamId,
        )),
        record@.len() == schema.size && r is Err ==> is_team_id_mismatch(
            r->Err_0,
            old(team).id,
            record@,
            schema_runs(*schema),
            RosterField::TeamId,
        ),
        r is Ok ==> final(team).roster@ == roster_after(old(team).roster@, record@, schema_runs(*schema)),
        final(team).id == old(team).id,
        final(team).name == old(team).name,
        final(team).short_name == old(team).short_name,
        final(team).manager_id == old(team).manager_id,
        final(team).stadium_id == old(team).stadium_id,
        final(team).colors == old(team).colors,
        final(team).edit_flags == old(team).edit_flags,
        final(team).kit_slots == old(team).kit_slots,
        final(team).tactics == old(team).tactics,
{
    if record.len() != schema.size {
        return Err(CodecError::RecordSize { expected: schema.size, got: record.len() });
    }
    let rs = runs(schema);
    let ghost start = *team;
    let mut k: usize = 0;
    while k < rs.len()
        invariant
            k <= rs@.len(),
            rs@ == schema_runs(*schema),
            record_schema_wf(*schema),
            record@.len() == schema.size,
            *old(team) == start,
            team.id == start.id,
            team_id_runs_match(start.id, record@, rs@.take(k as int), RosterField::TeamId),
            team.roster@ == roster_after(start.roster@, record@, rs@.take(k as int)),
            team.name == start.name,
            team.short_name == start.short_name,
            team.manager_id == start.manager_id,
            team.stadium_id == start.stadium_id,
            team.colors == start.colors,
            team.edit_flags == start.edit_flags,
            team.kit_slots == start.kit_slots,
            team.tactics == start.tactics,
        decreases rs@.len() - k,
    {
        let (field, offset, width) = rs[k];
        proof {
            assert(schema_runs(*schema)[k as int] == rs@[k as int]);
            lemma_roster_after_step(start.roster@, record@, rs@, k as int);
        }
        let value = read_bits(record, offset, width);
        if field == RosterField::TeamId && value != team.id {
            proof {
                assert(rs@[k as int].0 == RosterField::TeamId);
                assert(!team_id_runs_match(start.id, record@, rs@, RosterField::TeamId));
            }
            return Err(CodecError::TeamIdMismatch { expected: team.id, got: value });
        }
        let _ = team.roster_set(field, value);
        proof {
            let q = rs@.take(k + 1);
            assert forall|j: int| 0 <= j < q.len() && (#[trigger] q[j]).0 == RosterField::TeamId implies run_value(
                record@,
                q[j].1 as int,
                q[j].2,
            ) == start.id by {
                if j < k {
                    assert(rs@.take(k as int)[j] == q[j]);
                }
            }
        }
        k = k + 1;
    }
    proof {
        assert(rs@.take(rs@.len() as int) =~= rs@);
    }
    Ok(())
}

/// The value each field of the record holds in `team`.
pub open spec fn roster_values(team: TeamEntry) -> spec_fn(RosterField) -> Option<u32> {
    |g: RosterField| roster_field_value(team, g)
}

/// Patches the schema's roster fields of `team` into `record`.
pub fn write_roster(
    team: &TeamEntry,
    record: &mut [u8],
    schema: &RecordSchema<RosterField, TeamText>,
) -> (r: Result<(), CodecError>)
    requires
        record_schema_wf(*schema),
    ensures
        final(record)@.len() == old(record)@.len(),
        old(record)@.len() != schema.size ==> r == Err::<(), CodecError>(
            CodecError::RecordSize { expected: schema.size, got: old(record)@.len() as usize },
        ) && final(record)@ == old(record)@,
        old(record)@.len() == schema.size ==> forall|k: int| #[trigger]
            first_unwritable(roster_values(*team), schema_runs(*schema), k) ==> ({
                let run = schema_runs(*schema)[k];
                &&& final(record)@ == write_runs_spec(old(record)@, run_writes(roster_values(*team), schema_runs(*schema)).take(k))
                &&& match roster_field_value(*team, run.0) {
                    Some(v) => r matches Err(CodecError::ValueTooWide { field: text, value, width })
                        && value == v && width == run.2 && text@ == run.0.spec_name(),
                    None => r matches Err(e) && (e is Index),
                }
            }),
        old(record)@.len() == schema.size ==> (r is Ok <==> runs_writable(
            |g: RosterField| roster_field_value(*team, g),
            schema_runs(*schema),
        )),
        old(record)@.len() == schema.size && r is Err ==> (r->Err_0 is Index || r->Err_0 is ValueTooWide),
        r is Ok ==> final(record)@ == write_runs_spec(
            old(record)@,
            run_writes(|g: RosterField| roster_field_value(*team, g), schema_runs(*schema)),
        ),
{
    if record.len() != schema.size {
        return Err(CodecError::RecordSize { expected: schema.size, got: record.len() });
    }
    let rs = runs(schema);
    let ghost values = |g: RosterField| roster_field_value(*team, g);
    let ghost writes = run_writes(values, rs@);
    let mut k: usize = 0;
    while k < rs.len()
        invariant
            k <= rs@.len(),
            rs@ == schema_runs(*schema),
            values == (|g: RosterField| roster_field_value(*team, g)),
            writes == run_writes(values, rs@),
            record_schema_wf(*schema),
            record@.len() == schema.size,
            old(record)@.len() == schema.size,
            forall|j: int|
                0 <= j < k ==> {
                    let v = values((#[trigger] rs@[j]).0);
                    v is Some && fits(v->0, rs@[j].2)
                },
            record@ == write_runs_spec(old(record)@, writes.take(k as int)),
        decreases rs@.len() - k,
    {
        let (field, offset, width) = rs[k];
        proof {
            assert(schema_runs(*schema)[k as int] == rs@[k as int]);
        }
        let value = match team.roster_get(field) {
            Ok(v) => v,
            Err(e) => {
                proof {
                    lemma_first_unwritable_unique(values, rs@, k as int);
                }
                return Err(e);
            },
        };
        proof {
            if width < 32 {
                assert((1u32 << width) as int == (1u64 << width) as int) by (bit_vector)
                    requires
                        width < 32,
                ;
            }
        }
        if width < 32 && value >= (1u32 << width) {
            proof {
                assert(!fits(value, width));
                assert(values(rs@[k as int].0) == Some(value));
                lemma_first_unwritable_unique(values, rs@, k as int);
            }
            return Err(CodecError::ValueTooWide { field: field.name(), value, width });
        }
        proof {
            assert(fits(value, width));
            lemma_write_runs_step(old(record)@, writes, k as int);
        }
        write_bits(record, offset, width, value);
        k = k + 1;
    }
    proof {
        assert(rs@.take(rs@.len() as int) =~= rs@);
        assert(writes.take(writes.len() as int) =~= writes);
    }
    Ok(())
}


/// The run of preset `p`'s byte `spec`.
pub open spec fn preset_byte_run(schema: TacticsSchema, p: int, spec: PresetSpec) -> Run<TacticsField> {
    (
        TacticsField::Preset { preset: p as u8, field: spec.field },
        (p * schema.preset_stride_bits + spec.bit_offset) as u32,
        8u32,
    )
}

/// Run `n` (0 to 98) of preset `p`'s formations: formation `n / 33`, slot
/// `n % 33 / 3`, and byte `n % 3` of the slot (position, y, x).
pub open spec fn formation_run(schema: TacticsSchema, p: int, n: int) -> Run<TacticsField> {
    let f = schema.formations;
    let formation = n / 33;
    let slot = n % 33 / 3;
    let part = n % 3;
    let base = p * schema.preset_stride_bits + f.base_bit + formation * f.formation_stride_bits;
    let fp = if part == 0 {
        FormationPart::Position
    } else if part == 1 {
        FormationPart::Y
    } else {
        FormationPart::X
    };
    let offset = if part == 0 {
        base + slot * f.slot_stride_bits
    } else if part == 1 {
        base + f.y_offset_bits + slot * f.pair_stride_bits
    } else {
        base + f.x_offset_bits + slot * f.pair_stride_bits
    };
    (
        TacticsField::Formation { preset: p as u8, formation: formation as u8, slot: slot as u8, part: fp },
        offset as u32,
        8u32,
    )
}

/// Run `n` (0 to 7) of preset `p`'s instructions: side `n / 4` (attack,
/// defence), index `n % 4 / 2`, and byte `n % 2` (instruction, player).
pub open spec fn instruction_run(
    schema: TacticsSchema,
    ins: InstructionLayout,
    p: int,
    n: int,
) -> Run<TacticsField> {
    let side = n / 4;
    let index = n % 4 / 2;
    let part = n % 2;
    (
        TacticsField::Instruction {
            preset: p as u8,
            side: if side == 0 { InstructionSide::Attack } else { InstructionSide::Defence },
            index: index as u8,
            part: if part == 0 { InstructionPart::Instruction } else { InstructionPart::PlayerId },
        },
        (p * schema.preset_stride_bits + ins.base_bit + side * ins.side_stride_bits + index
            * ins.index_stride_bits + part * ins.part_stride_bits) as u32,
        8u32,
    )
}

/// Every run of preset `p`: its bytes, its formation slots, and its
/// instructions when the version has them.
pub open spec fn preset_runs(schema: TacticsSchema, p: int) -> Seq<Run<TacticsField>> {
    schema.presets@.map_values(|spec: PresetSpec| preset_byte_run(schema, p, spec)) + Seq::new(
        99,
        |n: int| formation_run(schema, p, n),
    ) + match schema.instructions {
        Some(ins) => Seq::new(8, |n: int| instruction_run(schema, ins, p, n)),
        None => Seq::empty(),
    }
}

/// The runs of presets `0..n`, in order.
pub open spec fn presets_runs(schema: TacticsSchema, n: nat) -> Seq<Run<TacticsField>>
    decreases n,
{
    if n == 0 {
        Seq::empty()
    } else {
        presets_runs(schema, (n - 1) as nat) + preset_runs(schema, n - 1)
    }
}

/// Every bit run of a tactics record: the fields, the expanded arrays, then
/// the three presets' runs.
pub open spec fn tactics_runs_spec(schema: TacticsSchema) -> Seq<Run<TacticsField>> {
    field_runs(schema.fields@) + array_runs(schema.arrays@) + presets_runs(schema, 3)
}

/// Every offset the tactics runs are computed with fits a `u32`.
pub open spec fn tactics_offsets_fit(schema: TacticsSchema) -> bool {
    let s = schema.preset_stride_bits;
    let f = schema.formations;
    let fbase = 2 * s + f.base_bit + 2 * f.formation_stride_bits;
    &&& arrays_fit(schema.arrays@)
    &&& forall|k: int|
        0 <= k < schema.presets@.len() ==> 2 * s + (#[trigger] schema.presets@[k]).bit_offset
            <= u32::MAX
    &&& fbase + 10 * f.slot_stride_bits <= u32::MAX
    &&& fbase + f.y_offset_bits + 10 * f.pair_stride_bits <= u32::MAX
    &&& fbase + f.x_offset_bits + 10 * f.pair_stride_bits <= u32::MAX
    &&& match schema.instructions {
        Some(ins) => 2 * s + ins.base_bit + ins.side_stride_bits + ins.index_stride_bits
            + ins.part_stride_bits <= u32::MAX,
        None => true,
    }
}

/// The tactics schema's offsets fit, and its runs all lie inside a record of
/// its size, each at most 32 bits wide.
pub open spec fn tactics_schema_wf(schema: TacticsSchema) -> bool {
    &&& tactics_offsets_fit(schema)
    &&& forall|k: int|
        0 <= k < tactics_runs_spec(schema).len() ==> {
            let r = #[trigger] tactics_runs_spec(schema)[k];
            r.2 <= 32 && r.1 / 8 <= schema.size
        }
}

/// Whether a tactics layout is one the codec can walk: its offsets fit, and
/// its runs lie inside its records.
pub fn tactics_schema_check(schema: &TacticsSchema) -> (b: bool)
    ensures
        b == tactics_schema_wf(*schema),
{
    if !crate::codec::arrays_fit_check(&schema.arrays) {
        return false;
    }
    let max: u64 = 0xffff_ffff;
    let s = schema.preset_stride_bits as u64;
    let mut k: usize = 0;
    while k < schema.presets.len()
        invariant
            k <= schema.presets@.len(),
            s == schema.preset_stride_bits,
            max == 0xffff_ffff,
            forall|j: int|
                0 <= j < k ==> 2 * schema.preset_stride_bits + (#[trigger] schema.presets@[j]).bit_offset <= u32::MAX,
        decreases schema.presets@.len() - k,
    {
        let off = schema.presets[k].bit_offset as u64;
        proof {
            assert(off == schema.presets@[k as int].bit_offset);
        }
        if 2 * s + off > max {
            return false;
        }
        k = k + 1;
    }
    let f = schema.formations;
    let fbase: u64 = 2 * s + (f.base_bit as u64) + 2 * (f.formation_stride_bits as u64);
    if fbase + 10 * (f.slot_stride_bits as u64) > max {
        return false;
    }
    if fbase + (f.y_offset_bits as u64) + 10 * (f.pair_stride_bits as u64) > max {
        return false;
    }
    if fbase + (f.x_offset_bits as u64) + 10 * (f.pair_stride_bits as u64) > max {
        return false;
    }
    match schema.instructions {
        Some(ins) => {
            if 2 * s + (ins.base_bit as u64) + (ins.side_stride_bits as u64) + (ins.index_stride_bits as u64)
                + (ins.part_stride_bits as u64) > max {
                return false;
            }
        },
        None => {},
    }
    let rs = tactics_runs(schema);
    crate::codec::runs_inside_check(&rs, schema.size)
}

/// Every bit run of a tactics record: the `fields`, the expanded `arrays`,
/// then for each of the three presets every `PresetSpec` byte, every formation
/// slot (position, y, x), and every instruction part when the version has them.
pub fn tactics_runs(schema: &TacticsSchema) -> (r: Vec<Run<TacticsField>>)
    requires
        tactics_offsets_fit(*schema),
    ensures
        r@ == tactics_runs_spec(*schema),
{
    let mut out = field_array_runs(&schema.fields, &schema.arrays);
    let ghost head = out@;
    let stride = schema.preset_stride_bits;
    let f = schema.formations;
    let mut p: u8 = 0;
    while p < 3
        invariant
            p <= 3,
            tactics_offsets_fit(*schema),
            stride == schema.preset_stride_bits,
            f == schema.formations,
            out@ == head + presets_runs(*schema, p as nat),
        decreases 3 - p,
    {
        proof {
            assert((p as u32) * stride <= 2 * stride) by (nonlinear_arith)
                requires
                    p <= 2,
            ;
        }
        let preset_base = (p as u32) * stride;
        let ghost before = out@;
        let mut k: usize = 0;
        while k < schema.presets.len()
            invariant
                k <= schema.presets@.len(),
                p < 3,
                tactics_offsets_fit(*schema),
                stride == schema.preset_stride_bits,
                preset_base == p * stride,
                preset_base <= 2 * stride,
                out@ == before + schema.presets@.subrange(0, k as int).map_values(
                    |spec: PresetSpec| preset_byte_run(*schema, p as int, spec),
                ),
            decreases schema.presets@.len() - k,
        {
            let spec = schema.presets[k];
            proof {
                assert(2 * stride + schema.presets@[k as int].bit_offset <= u32::MAX);
            }
            out.push((TacticsField::Preset { preset: p, field: spec.field }, preset_base + spec.bit_offset, 8));
            k = k + 1;
            assert(out@ =~= before + schema.presets@.subrange(0, k as int).map_values(
                |spec: PresetSpec| preset_byte_run(*schema, p as int, spec),
            ));
        }
        assert(schema.presets@.subrange(0, schema.presets@.len() as int) =~= schema.presets@);
        let ghost before_f = out@;
        let mut n: u32 = 0;
        while n < 99
            invariant
                n <= 99,
                p < 3,
                tactics_offsets_fit(*schema),
                stride == schema.preset_stride_bits,
                f == schema.formations,
                preset_base == p * stride,
                preset_base <= 2 * stride,
                out@ == before_f + Seq::new(n as nat, |j: int| formation_run(*schema, p as int, j)),
            decreases 99 - n,
        {
            let formation = n / 33;
            let slot = n % 33 / 3;
            let part = n % 3;
            proof {
                assert(formation * f.formation_stride_bits <= 2 * f.formation_stride_bits) by (nonlinear_arith)
                    requires
                        formation <= 2,
                ;
                assert(slot * f.slot_stride_bits <= 10 * f.slot_stride_bits) by (nonlinear_arith)
                    requires
                        slot <= 10,
                ;
                assert(slot * f.pair_stride_bits <= 10 * f.pair_stride_bits) by (nonlinear_arith)
                    requires
                        slot <= 10,
                ;
            }
            let base = preset_base + f.base_bit + formation * f.formation_stride_bits;
            let (fp, offset) = if part == 0 {
                (FormationPart::Position, base + slot * f.slot_stride_bits)
            } else if part == 1 {
                (FormationPart::Y, base + f.y_offset_bits + slot * f.pair_stride_bits)
            } else {
                (FormationPart::X, base + f.x_offset_bits + slot * f.pair_stride_bits)
            };
            out.push(
                (
                    TacticsField::Formation { preset: p, formation: formation as u8, slot: slot as u8, part: fp },
                    offset,
                    8,
                ),
            );
            n = n + 1;
            assert(out@ =~= before_f + Seq::new(n as nat, |j: int| formation_run(*schema, p as int, j)));
        }
        let ghost before_i = out@;
        match &schema.instructions {
            Some(ins) => {
                let mut n: u32 = 0;
                while n < 8
                    invariant
                        n <= 8,
                        p < 3,
                        tactics_offsets_fit(*schema),
                        schema.instructions == Some(*ins),
                        stride == schema.preset_stride_bits,
                        preset_base == p * stride,
                        preset_base <= 2 * stride,
                        out@ == before_i + Seq::new(n as nat, |j: int| instruction_run(*schema, *ins, p as int, j)),
                    decreases 8 - n,
                {
                    let side = n / 4;
                    let index = n % 4 / 2;
                    let part = n % 2;
                    proof {
                        assert(side * ins.side_stride_bits <= ins.side_stride_bits) by (nonlinear_arith)
                            requires
                                side <= 1,
                        ;
                        assert(index * ins.index_stride_bits <= ins.index_stride_bits) by (nonlinear_arith)
                            requires
                                index <= 1,
                        ;
                        assert(part * ins.part_stride_bits <= ins.part_stride_bits) by (nonlinear_arith)
                            requires
                                part <= 1,
                        ;
                    }
                    let offset = preset_base + ins.base_bit + side * ins.side_stride_bits + index
                        * ins.index_stride_bits + part * ins.part_stride_bits;
                    out.push(
                        (
                            TacticsField::Instruction {
                                preset: p,
                                side: if side == 0 { InstructionSide::Attack } else { InstructionSide::Defence },
                                index: index as u8,
                                part: if part == 0 { InstructionPart::Instruction } else { InstructionPart::PlayerId },
                            },
                            offset,
                            8,
                        ),
                    );
                    n = n + 1;
                    assert(out@ =~= before_i + Seq::new(n as nat, |j: int| instruction_run(*schema, *ins, p as int, j)));
                }
            },
            None => {},
        }
        p = p + 1;
        assert(out@ =~= head + presets_runs(*schema, p as nat));
    }
    out
}


/// `f` is an instruction of preset `q`'s `z` side.
pub open spec fn is_pair_field(f: TacticsField, q: u8, z: InstructionSide) -> bool {
    f matches TacticsField::Instruction { preset, side, .. } && preset == q && side == z
}

/// Some run carries an instruction of preset `q`'s `z` side.
pub open spec fn touches_pair(runs: Seq<Run<TacticsField>>, q: u8, z: InstructionSide) -> bool {
    exists|k: int| 0 <= k < runs.len() && is_pair_field((#[trigger] runs[k]).0, q, z)
}

/// `g`'s instruction pair was absent from `t0` and some run created it.
pub open spec fn pair_created(t0: TeamEntry, runs: Seq<Run<TacticsField>>, g: TacticsField) -> bool {
    match g {
        TacticsField::Instruction { preset: q, side: z, .. } => q < 3 && side_of(
            t0.tactics.presets@[q as int],
            z,
        ) is None && touches_pair(runs, q, z),
        _ => false,
    }
}

/// What a tactics field reads as once the runs are applied in order onto `t0`:
/// the last run that carries it, else the empty value of an instruction pair a
/// run created, else what it read as in `t0`.
pub open spec fn tactics_value_after(
    t0: TeamEntry,
    record: Seq<u8>,
    runs: Seq<Run<TacticsField>>,
    g: TacticsField,
) -> Option<u32> {
    match last_run_index(runs, g) {
        Some(k) => Some(tactics_stored(g, run_value(record, runs[k].1 as int, runs[k].2))),
        None => if pair_created(t0, runs, g) {
            created_instruction_value(g)
        } else {
            tactics_value(t0, g)
        },
    }
}

/// A run the tactics reader accepts onto a team of id `id`: a team id that
/// matches, indices inside their arrays, and 0 or 1 in a switch byte.
pub open spec fn tactics_run_accepted(id: u32, f: TacticsField, v: u32) -> bool {
    &&& f is TeamId ==> v == id
    &&& tactics_indices_in_range(f)
    &&& tactics_switch_field(f) ==> v <= 1
}

/// Every run of the record is accepted.
pub open spec fn tactics_runs_accepted(id: u32, record: Seq<u8>, runs: Seq<Run<TacticsField>>) -> bool {
    forall|k: int|
        0 <= k < runs.len() ==> tactics_run_accepted(
            id,
            (#[trigger] runs[k]).0,
            run_value(record, runs[k].1 as int, runs[k].2),
        )
}

/// The instruction pair of `t`'s preset `q`, side `z`, is absent exactly when
/// it was absent from `t0` and no run touched it.
pub open spec fn pairs_tracked(t0: TeamEntry, t: TeamEntry, runs: Seq<Run<TacticsField>>) -> bool {
    forall|q: u8, z: InstructionSide|
        q < 3 ==> (#[trigger] side_of(t.tactics.presets@[q as int], z) is None <==> (side_of(
            t0.tactics.presets@[q as int],
            z,
        ) is None && !touches_pair(runs, q, z)))
}

/// One more tactics run applied, from a state that holds the runs before it.
proof fn lemma_tactics_value_step(
    t0: TeamEntry,
    before: TeamEntry,
    after: TeamEntry,
    record: Seq<u8>,
    runs: Seq<Run<TacticsField>>,
    k: int,
    v: u32,
    g: TacticsField,
)
    requires
        0 <= k < runs.len(),
        v == run_value(record, runs[k].1 as int, runs[k].2),
        tactics_indices_in_range(runs[k].0),
        pairs_tracked(t0, before, runs.take(k)),
        tactics_value(before, g) == tactics_value_after(t0, record, runs.take(k), g),
        tactics_value(after, g) == if g == runs[k].0 {
            Some(tactics_stored(runs[k].0, v))
        } else if creates_instructions(before, runs[k].0, g) {
            created_instruction_value(g)
        } else {
            tactics_value(before, g)
        },
    ensures
        tactics_value(after, g) == tactics_value_after(t0, record, runs.take(k + 1), g),
{
    let f = runs[k].0;
    let p = runs.take(k);
    let q = runs.take(k + 1);
    lemma_last_run_index_step(runs, k, g);
    lemma_last_run_index_facts(p, g);
    assert(q[k] == runs[k]);
    assert forall|j: int| 0 <= j < p.len() implies #[trigger] p[j] == q[j] by {}
    match g {
        TacticsField::Instruction { preset: gq, side: gz, .. } => {
            if is_pair_field(f, gq, gz) {
                assert(touches_pair(q, gq, gz)) by {
                    assert(is_pair_field(q[k].0, gq, gz));
                }
            } else if touches_pair(q, gq, gz) {
                let j = choose|j: int| 0 <= j < q.len() && is_pair_field((#[trigger] q[j]).0, gq, gz);
                assert(j != k);
                assert(is_pair_field(p[j].0, gq, gz));
            }
            if touches_pair(p, gq, gz) {
                let j = choose|j: int| 0 <= j < p.len() && is_pair_field((#[trigger] p[j]).0, gq, gz);
                assert(is_pair_field(q[j].0, gq, gz));
            }
            if gq < 3 {
                assert(side_of(before.tactics.presets@[gq as int], gz) is None <==> (side_of(
                    t0.tactics.presets@[gq as int],
                    gz,
                ) is None && !touches_pair(p, gq, gz)));
            }
            if g != f && creates_instructions(before, f, g) {
                match last_run_index(p, g) {
                    Some(j) => {
                        assert(is_pair_field(p[j].0, gq, gz));
                    },
                    None => {},
                }
            }
        },
        _ => {},
    }
}

/// Applies a tactics record onto an existing `TeamEntry` whose `id` must match
/// the record's team id.
pub fn read_tactics_into(
    team: &mut TeamEntry,
    record: &[u8],
    schema: &TacticsSchema,
) -> (r: Result<(), CodecError>)
    requires
        tactics_schema_wf(*schema),
    ensures
        record@.len() != schema.size ==> r == Err::<(), CodecError>(
            CodecError::RecordSize { expected: schema.size, got: record@.len() as usize },
        ) && *final(team) == *old(team),
        record@.len() == schema.size ==> (r is Ok <==> tactics_runs_accepted(
            old(team).id,
            record@,
            tactics_runs_spec(*schema),
        )),
        record@.len() == schema.size && r is Err ==> (r->Err_0 is TeamIdMismatch || r->Err_0 is Index
            || r->Err_0 is NotBoolean),
        r is Err && r->Err_0 is TeamIdMismatch ==> is_team_id_mismatch(
            r->Err_0,
            old(team).id,
            record@,
            tactics_runs_spec(*schema),
            TacticsField::TeamId,
        ),
        r is Ok ==> forall|g: TacticsField| #[trigger]
            tactics_value(*final(team), g) == tactics_value_after(
                *old(team),
                record@,
                tactics_runs_spec(*schema),
                g,
            ),
        same_outside_tactics_record(*old(team), *final(team)),
{
    if record.len() != schema.size {
        return Err(CodecError::RecordSize { expected: schema.size, got: record.len() });
    }
    let rs = tactics_runs(schema);
    let ghost start = *team;
    let mut k: usize = 0;
    while k < rs.len()
        invariant
            k <= rs@.len(),
            rs@ == tactics_runs_spec(*schema),
            tactics_schema_wf(*schema),
            record@.len() == schema.size,
            *old(team) == start,
            team.id == start.id,
            tactics_runs_accepted(start.id, record@, rs@.take(k as int)),
            pairs_tracked(start, *team, rs@.take(k as int)),
            forall|g: TacticsField| #[trigger]
                tactics_value(*team, g) == tactics_value_after(start, record@, rs@.take(k as int), g),
            same_outside_tactics_record(start, *team),
        decreases rs@.len() - k,
    {
        let (field, offset, width) = rs[k];
        proof {
            assert(tactics_runs_spec(*schema)[k as int] == rs@[k as int]);
        }
        let value = read_bits(record, offset, width);
        if field == TacticsField::TeamId && value != team.id {
            proof {
                assert(rs@[k as int].0 == TacticsField::TeamId);
                assert(!tactics_run_accepted(start.id, rs@[k as int].0, value));
            }
            return Err(CodecError::TeamIdMismatch { expected: team.id, got: value });
        }
        let ghost before = *team;
        match team.tactics_set(field, value) {
            Ok(()) => {},
            Err(e) => {
                proof {
                    assert(!tactics_run_accepted(start.id, rs@[k as int].0, value));
                }
                return Err(e);
            },
        }
        proof {
            let q = rs@.take(k + 1);
            let p = rs@.take(k as int);
            assert(q[k as int] == rs@[k as int]);
            assert(tactics_value(*team, TacticsField::TeamId) == Some(team.id));
            assert(tactics_value(before, TacticsField::TeamId) == Some(before.id));
            assert forall|g: TacticsField| #[trigger]
                tactics_value(*team, g) == tactics_value_after(start, record@, q, g) by {
                lemma_tactics_value_step(start, before, *team, record@, rs@, k as int, value, g);
            }
            assert forall|j: int| 0 <= j < q.len() implies tactics_run_accepted(
                start.id,
                (#[trigger] q[j]).0,
                run_value(record@, q[j].1 as int, q[j].2),
            ) by {
                if j < k {
                    assert(p[j] == q[j]);
                }
            }
            assert forall|gq: u8, gz: InstructionSide| gq < 3 implies (#[trigger] side_of(
                team.tactics.presets@[gq as int],
                gz,
            ) is None <==> (side_of(start.tactics.presets@[gq as int], gz) is None
                && !touches_pair(q, gq, gz))) by {
                let g = TacticsField::Instruction {
                    preset: gq,
                    side: gz,
                    index: 0,
                    part: InstructionPart::Instruction,
                };
                lemma_tactics_value_step(start, before, *team, record@, rs@, k as int, value, g);
                assert(tactics_value(*team, g) == tactics_value_after(start, record@, q, g));
                assert(side_of(before.tactics.presets@[gq as int], gz) is None <==> (side_of(
                    start.tactics.presets@[gq as int],
                    gz,
                ) is None && !touches_pair(p, gq, gz)));
                lemma_last_run_index_facts(q, g);
                if is_pair_field(field, gq, gz) {
                    assert(touches_pair(q, gq, gz)) by {
                        assert(is_pair_field(q[k as int].0, gq, gz));
                    }
                } else if touches_pair(q, gq, gz) {
                    let j = choose|j: int| 0 <= j < q.len() && is_pair_field((#[trigger] q[j]).0, gq, gz);
                    assert(is_pair_field(p[j].0, gq, gz));
                }
                if touches_pair(p, gq, gz) {
                    let j = choose|j: int| 0 <= j < p.len() && is_pair_field((#[trigger] p[j]).0, gq, gz);
                    assert(is_pair_field(q[j].0, gq, gz));
                }
            }
        }
        k = k + 1;
    }
    proof {
        assert(rs@.take(rs@.len() as int) =~= rs@);
    }
    Ok(())
}

/// The value each field of the record holds in `team`.
pub open spec fn tactics_values(team: TeamEntry) -> spec_fn(TacticsField) -> Option<u32> {
    |g: TacticsField| tactics_value(team, g)
}

/// Patches the schema's tactics fields of `team` into `record`.
pub fn write_tactics(
    team: &TeamEntry,
    record: &mut [u8],
    schema: &TacticsSchema,
) -> (r: Result<(), CodecError>)
    requires
        tactics_schema_wf(*schema),
    ensures
        final(record)@.len() == old(record)@.len(),
        old(record)@.len() != schema.size ==> r == Err::<(), CodecError>(
            CodecError::RecordSize { expected: schema.size, got: old(record)@.len() as usize },
        ) && final(record)@ == old(record)@,
        old(record)@.len() == schema.size ==> forall|k: int| #[trigger]
            first_unwritable(tactics_values(*team), tactics_runs_spec(*schema), k) ==> ({
                let run = tactics_runs_spec(*schema)[k];
                &&& final(record)@ == write_runs_spec(old(record)@, run_writes(tactics_values(*team), tactics_runs_spec(*schema)).take(k))
                &&& match tactics_value(*team, run.0) {
                    Some(v) => r matches Err(CodecError::ValueTooWide { field: text, value, width })
                        && value == v && width == run.2 && text@ == run.0.spec_name(),
                    None => r matches Err(e) && (e is Missing || e is Index),
                }
            }),
        old(record)@.len() == schema.size ==> (r is Ok <==> runs_writable(
            |g: TacticsField| tactics_value(*team, g),
            tactics_runs_spec(*schema),
        )),
        old(record)@.len() == schema.size && r is Err ==> (r->Err_0 is Missing || r->Err_0 is Index
            || r->Err_0 is ValueTooWide),
        r is Ok ==> final(record)@ == write_runs_spec(
            old(record)@,
            run_writes(|g: TacticsField| tactics_value(*team, g), tactics_runs_spec(*schema)),
        ),
{
    if record.len() != schema.size {
        return Err(CodecError::RecordSize { expected: schema.size, got: record.len() });
    }
    let rs = tactics_runs(schema);
    let ghost values = |g: TacticsField| tactics_value(*team, g);
    let ghost writes = run_writes(values, rs@);
    let mut k: usize = 0;
    while k < rs.len()
        invariant
            k <= rs@.len(),
            rs@ == tactics_runs_spec(*schema),
            values == (|g: TacticsField| tactics_value(*team, g)),
            writes == run_writes(values, rs@),
            tactics_schema_wf(*schema),
            record@.len() == schema.size,
            old(record)@.len() == schema.size,
            forall|j: int|
                0 <= j < k ==> {
                    let v = values((#[trigger] rs@[j]).0);
                    v is Some && fits(v->0, rs@[j].2)
                },
            record@ == write_runs_spec(old(record)@, writes.take(k as int)),
        decreases rs@.len() - k,
    {
        let (field, offset, width) = rs[k];
        proof {
            assert(tactics_runs_spec(*schema)[k as int] == rs@[k as int]);
        }
        let value = match team.tactics_get(field) {
            Ok(v) => v,
            Err(e) => {
                proof {
                    lemma_first_unwritable_unique(values, rs@, k as int);
                }
                return Err(e);
            },
        };
        proof {
            if width < 32 {
                assert((1u32 << width) as int == (1u64 << width) as int) by (bit_vector)
                    requires
                        width < 32,
                ;
            }
        }
        if width < 32 && value >= (1u32 << width) {
            proof {
                assert(!fits(value, width));
                assert(values(rs@[k as int].0) == Some(value));
                lemma_first_unwritable_unique(values, rs@, k as int);
            }
            return Err(CodecError::ValueTooWide { field: field.name(), value, width });
        }
        proof {
            assert(fits(value, width));
            lemma_write_runs_step(old(record)@, writes, k as int);
        }
        write_bits(record, offset, width, value);
        k = k + 1;
    }
    proof {
        assert(rs@.take(rs@.len() as int) =~= rs@);
        assert(writes.take(writes.len() as int) =~= writes);
    }
    Ok(())
}


/// No two runs carry one team field, and no run is wider than the model's
/// hold of its field.
pub open spec fn team_runs_round_trip(runs: Seq<Run<TeamField>>) -> bool {
    &&& forall|i: int, j: int|
        0 <= i < j < runs.len() ==> (#[trigger] runs[i]).0 != (#[trigger] runs[j]).0
    &&& forall|k: int|
        0 <= k < runs.len() ==> (#[trigger] runs[k]).2 <= kind_width(team_field_kind(runs[k].0))
}

/// No two text fields carry one team text, and every text field of the record
/// holds a NUL.
pub open spec fn team_texts_round_trip(record: Seq<u8>, texts: Seq<TextSpec<TeamText>>) -> bool {
    &&& forall|i: int, j: int|
        0 <= i < j < texts.len() ==> (#[trigger] texts[i]).text != (#[trigger] texts[j]).text
    &&& forall|k: int|
        0 <= k < texts.len() ==> first_nul(
            record.subrange(
                (#[trigger] texts[k]).byte_offset as int,
                texts[k].byte_offset + texts[k].len,
            ),
        ) < texts[k].len
}

/// The run of a field that no other run carries is its last run.
proof fn lemma_distinct_last<F>(runs: Seq<Run<F>>, k: int)
    requires
        0 <= k < runs.len(),
        forall|i: int, j: int| 0 <= i < j < runs.len() ==> (#[trigger] runs[i]).0 != (#[trigger] runs[j]).0,
    ensures
        last_run_index(runs, runs[k].0) == Some(k),
{
    lemma_last_run_index_facts(runs, runs[k].0);
    match last_run_index(runs, runs[k].0) {
        Some(j) => {
            if j < k {
                assert(runs[j].0 != runs[k].0);
            } else if j > k {
                assert(runs[k].0 != runs[j].0);
            }
        },
        None => {},
    }
}

/// Reading a team record onto a team and writing that team back leaves the
/// record byte-identical: the read succeeded, no two runs carry one field, no
/// run is wider than the model holds its field, no two text fields carry one
/// text, and every text field holds a NUL.
pub proof fn law_team_write_after_read_keeps_the_record(
    before: TeamEntry,
    t: TeamEntry,
    record: Seq<u8>,
    schema: RecordSchema<TeamField, TeamText>,
)
    requires
        record_schema_wf(schema),
        record.len() == schema.size,
        team_runs_in_range(schema_runs(schema)),
        team_texts_decode(record, schema.texts@),
        team_read_post(before, t, record, schema),
        team_runs_round_trip(schema_runs(schema)),
        team_texts_round_trip(record, schema.texts@),
    ensures
        runs_writable(|g: TeamField| team_field_value(t, g), schema_runs(schema)),
        texts_writable(|x: TeamText| team_text_bytes(t, x), schema.texts@),
        team_written(t, record, schema) == record,
{
    let runs = schema_runs(schema);
    let values = |g: TeamField| team_field_value(t, g);
    let writes = run_writes(values, runs);
    assert forall|k: int| 0 <= k < runs.len() implies {
        &&& values((#[trigger] runs[k]).0) == Some(run_value(record, runs[k].1 as int, runs[k].2))
        &&& fits(run_value(record, runs[k].1 as int, runs[k].2), runs[k].2)
        &&& is_run_value(record, runs[k].1 as int, runs[k].2, run_value(record, runs[k].1 as int, runs[k].2))
    } by {
        let g = runs[k].0;
        assert(runs[k].2 <= 32);
        lemma_distinct_last(runs, k);
        lemma_run_value_facts(record, runs[k].1 as int, runs[k].2);
        lemma_stored_fitting(team_field_kind(g), run_value(record, runs[k].1 as int, runs[k].2), runs[k].2);
        assert(team_field_value(t, g) == team_value_after(before, record, runs, g));
    }
    assert forall|k: int| 0 <= k < writes.len() implies #[trigger] writes[k].1 <= 32 && is_run_value(
        record,
        writes[k].0 as int,
        writes[k].1,
        writes[k].2,
    ) by {
        assert(writes[k] == (runs[k].1, runs[k].2, values(runs[k].0)->0));
        assert(runs[k].2 <= 32);
    }
    lemma_write_own_values(record, writes);
    let texts = schema.texts@;
    let tb = |x: TeamText| team_text_bytes(t, x);
    let twrites = text_writes(tb, texts);
    let lens = texts.map_values(|x: TextSpec<TeamText>| x.len);
    assert forall|k: int| 0 <= k < texts.len() implies tb((#[trigger] texts[k]).text) == Some(
        text_field(record, texts[k].byte_offset as int, texts[k].len as int),
    ) by {
        let x = texts[k].text;
        let b = text_field(record, texts[k].byte_offset as int, texts[k].len as int);
        lemma_last_text_index_facts(texts, x);
        match last_text_index(texts, x) {
            Some(j) => {
                if j < k {
                    assert(texts[j].text != texts[k].text);
                } else if j > k {
                    assert(texts[k].text != texts[j].text);
                }
            },
            None => {},
        }
        match x {
            TeamText::Name => {
                vstd::utf8::decode_utf8_encode_utf8(b);
            },
            TeamText::ShortName => {
                lemma_latin1_round_trip(b);
            },
        }
    }
    assert forall|k: int| 0 <= k < twrites.len() implies {
        &&& (#[trigger] twrites[k]).0 + lens[k] <= record.len()
        &&& first_nul(record.subrange(twrites[k].0 as int, twrites[k].0 + lens[k])) < lens[k]
        &&& twrites[k].1 == text_field(record, twrites[k].0 as int, lens[k] as int)
    } by {
        assert(texts[k].byte_offset + texts[k].len <= schema.size);
    }
    assert forall|k: int| 0 <= k < texts.len() implies {
        let b = tb((#[trigger] texts[k]).text);
        b is Some && b->0.len() < texts[k].len
    } by {
        assert(texts[k].byte_offset + texts[k].len <= schema.size);
        let f = record.subrange(texts[k].byte_offset as int, texts[k].byte_offset + texts[k].len);
        lemma_first_nul_facts(f);
    }
    lemma_write_own_texts(record, twrites, lens);
}

/// No two runs carry one tactics field, and every run but the team id and the
/// switches is at most a byte wide.
pub open spec fn tactics_runs_round_trip(runs: Seq<Run<TacticsField>>) -> bool {
    &&& forall|i: int, j: int|
        0 <= i < j < runs.len() ==> (#[trigger] runs[i]).0 != (#[trigger] runs[j]).0
    &&& forall|k: int|
        0 <= k < runs.len() && !((#[trigger] runs[k]).0 is TeamId) && !tactics_switch_field(runs[k].0)
            ==> runs[k].2 <= 8
}

/// Reading a tactics record onto a team and writing that team back leaves the
/// record byte-identical: the read succeeded, no two runs carry one field, and
/// every byte field's run is at most a byte wide.
pub proof fn law_tactics_write_after_read_keeps_the_record(
    before: TeamEntry,
    t: TeamEntry,
    record: Seq<u8>,
    schema: TacticsSchema,
)
    requires
        tactics_schema_wf(schema),
        record.len() == schema.size,
        tactics_runs_accepted(before.id, record, tactics_runs_spec(schema)),
        forall|g: TacticsField| #[trigger]
            tactics_value(t, g) == tactics_value_after(before, record, tactics_runs_spec(schema), g),
        tactics_runs_round_trip(tactics_runs_spec(schema)),
    ensures
        runs_writable(|g: TacticsField| tactics_value(t, g), tactics_runs_spec(schema)),
        write_runs_spec(record, run_writes(|g: TacticsField| tactics_value(t, g), tactics_runs_spec(schema)))
            == record,
{
    let runs = tactics_runs_spec(schema);
    let values = |g: TacticsField| tactics_value(t, g);
    let writes = run_writes(values, runs);
    assert forall|k: int| 0 <= k < runs.len() implies {
        &&& values((#[trigger] runs[k]).0) == Some(run_value(record, runs[k].1 as int, runs[k].2))
        &&& fits(run_value(record, runs[k].1 as int, runs[k].2), runs[k].2)
        &&& is_run_value(record, runs[k].1 as int, runs[k].2, run_value(record, runs[k].1 as int, runs[k].2))
    } by {
        let g = runs[k].0;
        let v = run_value(record, runs[k].1 as int, runs[k].2);
        assert(runs[k].2 <= 32);
        lemma_distinct_last(runs, k);
        lemma_run_value_facts(record, runs[k].1 as int, runs[k].2);
        assert(tactics_value(t, g) == tactics_value_after(before, record, runs, g));
        assert(tactics_run_accepted(before.id, g, v));
        if !(g is TeamId) && !tactics_switch_field(g) {
            lemma_fits_wider(v, runs[k].2, 8);
            assert((1u64 << 8u32) == 256) by (bit_vector);
        }
    }
    assert forall|k: int| 0 <= k < writes.len() implies #[trigger] writes[k].1 <= 32 && is_run_value(
        record,
        writes[k].0 as int,
        writes[k].1,
        writes[k].2,
    ) by {
        assert(writes[k] == (runs[k].1, runs[k].2, values(runs[k].0)->0));
        assert(runs[k].2 <= 32);
    }
    lemma_write_own_values(record, writes);
}

/// No two runs carry one roster field, and no shirt-number run is wider than
/// the model's 16 bits.
pub open spec fn roster_runs_round_trip(runs: Seq<Run<RosterField>>) -> bool {
    &&& forall|i: int, j: int|
        0 <= i < j < runs.len() ==> (#[trigger] runs[i]).0 != (#[trigger] runs[j]).0
    &&& forall|k: int| 0 <= k < runs.len() && (#[trigger] runs[k]).0 is Number ==> runs[k].2 <= 16
}

/// Applying roster runs never shrinks the roster.
proof fn lemma_roster_after_grows(roster: Seq<RosterSlot>, record: Seq<u8>, runs: Seq<Run<RosterField>>)
    ensures
        roster_after(roster, record, runs).len() >= roster.len(),
    decreases runs.len(),
{
    if runs.len() > 0 {
        lemma_roster_after_grows(roster, record, runs.drop_last());
    }
}

/// The slot a roster run writes holds that run's value afterwards, when no
/// later run carries the same field.
proof fn lemma_roster_after_holds(roster: Seq<RosterSlot>, record: Seq<u8>, runs: Seq<Run<RosterField>>, k: int)
    requires
        0 <= k < runs.len(),
        forall|j: int| k < j < runs.len() ==> (#[trigger] runs[j]).0 != runs[k].0,
    ensures
        ({
            let r = roster_after(roster, record, runs);
            let v = run_value(record, runs[k].1 as int, runs[k].2);
            match runs[k].0 {
                RosterField::Player(i) => i < r.len() && r[i as int].player_id == v,
                RosterField::Number(i) => i < r.len() && r[i as int].number == v as u16,
                RosterField::TeamId => true,
            }
        }),
    decreases runs.len(),
{
    let n = runs.len() - 1;
    let d = runs.drop_last();
    let prev = roster_after(roster, record, d);
    assert(runs.last() == runs[n]);
    if k < n {
        assert forall|j: int| k < j < d.len() implies (#[trigger] d[j]).0 != d[k].0 by {
            assert(d[j] == runs[j]);
        }
        assert(d[k] == runs[k]);
        lemma_roster_after_holds(roster, record, d, k);
        assert(runs[n].0 != runs[k].0);
    }
}

/// Reading a roster record onto a team and writing that team back leaves the
/// record byte-identical: the read succeeded, no two runs carry one field, and
/// no shirt-number run is wider than 16 bits.
pub proof fn law_roster_write_after_read_keeps_the_record(
    before: TeamEntry,
    after: TeamEntry,
    record: Seq<u8>,
    schema: RecordSchema<RosterField, TeamText>,
)
    requires
        record_schema_wf(schema),
        record.len() == schema.size,
        team_id_runs_match(before.id, record, schema_runs(schema), RosterField::TeamId),
        after.roster@ == roster_after(before.roster@, record, schema_runs(schema)),
        after.id == before.id,
        roster_runs_round_trip(schema_runs(schema)),
    ensures
        runs_writable(|g: RosterField| roster_field_value(after, g), schema_runs(schema)),
        write_runs_spec(record, run_writes(|g: RosterField| roster_field_value(after, g), schema_runs(schema)))
            == record,
{
    let runs = schema_runs(schema);
    let values = |g: RosterField| roster_field_value(after, g);
    let writes = run_writes(values, runs);
    assert forall|k: int| 0 <= k < runs.len() implies {
        &&& values((#[trigger] runs[k]).0) == Some(run_value(record, runs[k].1 as int, runs[k].2))
        &&& fits(run_value(record, runs[k].1 as int, runs[k].2), runs[k].2)
        &&& is_run_value(record, runs[k].1 as int, runs[k].2, run_value(record, runs[k].1 as int, runs[k].2))
    } by {
        let v = run_value(record, runs[k].1 as int, runs[k].2);
        assert(runs[k].2 <= 32);
        assert forall|j: int| k < j < runs.len() implies (#[trigger] runs[j]).0 != runs[k].0 by {
            assert(runs[k].0 != runs[j].0);
        }
        lemma_roster_after_holds(before.roster@, record, runs, k);
        lemma_run_value_facts(record, runs[k].1 as int, runs[k].2);
        match runs[k].0 {
            RosterField::Number(i) => {
                lemma_fits_wider(v, runs[k].2, 16);
                assert((1u64 << 16u32) == 65536) by (bit_vector);
            },
            _ => {},
        }
    }
    assert forall|k: int| 0 <= k < writes.len() implies #[trigger] writes[k].1 <= 32 && is_run_value(
        record,
        writes[k].0 as int,
        writes[k].1,
        writes[k].2,
    ) by {
        assert(writes[k] == (runs[k].1, runs[k].2, values(runs[k].0)->0));
        assert(runs[k].2 <= 32);
    }
    lemma_write_own_values(record, writes);
}

} // verus!
