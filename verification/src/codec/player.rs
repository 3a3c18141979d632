//! The player record codec: `read_player`/`read_player_into`/`write_player`.
use vstd::prelude::*;

use crate::codec::bits::{fits, lemma_run_value_facts, read_bits, run_value, write_bits};
use crate::codec::{
    FieldName,
    first_nul, last_run_index, last_text_index, latin1_bytes, latin1_chars,
    latin1_text, lemma_first_nul_facts, lemma_last_run_index_facts, lemma_last_run_index_step,
    lemma_last_text_index_facts, lemma_last_text_index_step, lemma_write_own_texts,
    lemma_write_own_values, lemma_write_runs_step, lemma_write_texts_step, record_schema_wf,
    runs, single_byte, text_bytes, text_field, utf8_text, write_runs_spec, write_text,
    write_texts_spec, CodecError, RunWrite, TextWrite,
};
use crate::model::ingame_face::IngameFace;
use crate::model::player::{
    player_field_kind, player_field_value, player_index_in_range, stored, FieldKind, PlayerAppearance,
    PlayerEntry,
};
use crate::schema::{schema_runs, PlayerField, PlayerText, RecordSchema, Run, TextSpec};
use vstd::utf8::{decode_utf8, encode_utf8, valid_utf8};

verus! {

/// Every run names an element inside its model array.
pub open spec fn player_runs_in_range(runs: Seq<Run<PlayerField>>) -> bool {
    forall|k: int| 0 <= k < runs.len() ==> player_index_in_range((#[trigger] runs[k]).0)
}

/// Every name field of the record holds UTF-8.
pub open spec fn player_texts_decode(record: Seq<u8>, texts: Seq<TextSpec<PlayerText>>) -> bool {
    forall|k: int|
        0 <= k < texts.len() && (#[trigger] texts[k]).text == PlayerText::Name ==> valid_utf8(
            text_field(record, texts[k].byte_offset as int, texts[k].len as int),
        )
}

/// What `field` reads as once the runs are applied in order, when it read as
/// `before`: the model's hold of the last run that carries it.
pub open spec fn field_after_runs(
    before: Option<u32>,
    record: Seq<u8>,
    runs: Seq<Run<PlayerField>>,
    field: PlayerField,
) -> Option<u32> {
    match last_run_index(runs, field) {
        Some(k) => Some(stored(player_field_kind(field), run_value(record, runs[k].1 as int, runs[k].2))),
        None => before,
    }
}

/// The chars a text field's bytes read as: the name decodes UTF-8, the shirt
/// name is one char per byte.
pub open spec fn player_text_chars(text: PlayerText, bytes: Seq<u8>) -> Seq<char> {
    match text {
        PlayerText::Name => decode_utf8(bytes),
        PlayerText::ShirtName => latin1_chars(bytes),
    }
}

/// What `text` reads as once the text fields are applied in order, when it
/// read as `before`: the last field of that text.
pub open spec fn text_after(
    before: Seq<char>,
    record: Seq<u8>,
    texts: Seq<TextSpec<PlayerText>>,
    text: PlayerText,
) -> Seq<char> {
    match last_text_index(texts, text) {
        Some(k) => player_text_chars(
            text,
            text_field(record, texts[k].byte_offset as int, texts[k].len as int),
        ),
        None => before,
    }
}

/// The ingame-face run once the record is read, when it was `before`: the
/// record's run bytes where the schema has a run.
pub open spec fn face_after_read(
    before: Seq<u8>,
    record: Seq<u8>,
    schema: RecordSchema<PlayerField, PlayerText>,
) -> Seq<u8> {
    match schema.ingame_face {
        Some(run) => record.subrange(run.byte_offset as int, run.byte_offset + run.len),
        None => before,
    }
}

/// `record` with `bytes` in place from `at` on.
pub open spec fn bytes_patched(record: Seq<u8>, at: int, bytes: Seq<u8>) -> Seq<u8> {
    record.take(at) + bytes + record.skip(at + bytes.len())
}

/// The `len` bytes at `byte_offset`.
fn run_bytes(record: &[u8], byte_offset: u32, len: u32) -> (r: Vec<u8>)
    requires
        byte_offset + len <= record@.len(),
    ensures
        r@ == record@.subrange(byte_offset as int, byte_offset + len),
{
    let rl = record.len();
    let start = byte_offset as usize;
    let end = start + len as usize;
    let mut out: Vec<u8> = Vec::new();
    let mut i: usize = start;
    while i < end
        invariant
            start <= i <= end,
            end <= record@.len(),
            out@ == record@.subrange(start as int, i as int),
        decreases end - i,
    {
        out.push(record[i]);
        assert(out@ =~= record@.subrange(start as int, i + 1));
        i = i + 1;
    }
    out
}

/// Writes `bytes` over the record from `at` on.
fn put_bytes(record: &mut [u8], at: usize, bytes: &[u8])
    requires
        at + bytes@.len() <= old(record)@.len(),
    ensures
        final(record)@ == bytes_patched(old(record)@, at as int, bytes@),
{
    let rl = record.len();
    let mut i: usize = 0;
    while i < bytes.len()
        invariant
            rl == record@.len(),
            i <= bytes@.len(),
            at + bytes@.len() <= record@.len(),
            record@.len() == old(record)@.len(),
            record@ == old(record)@.take(at as int) + bytes@.take(i as int) + old(record)@.skip(at + i),
        decreases bytes@.len() - i,
    {
        record[at + i] = bytes[i];
        assert(record@ =~= old(record)@.take(at as int) + bytes@.take(i + 1) + old(record)@.skip(at + i + 1));
        i = i + 1;
    }
    assert(bytes@.take(bytes@.len() as int) =~= bytes@);
}

/// `new` is `old` with every run and text field of the record applied.
pub open spec fn player_read_post(
    old: PlayerEntry,
    new: PlayerEntry,
    record: Seq<u8>,
    schema: RecordSchema<PlayerField, PlayerText>,
) -> bool {
    &&& forall|g: PlayerField| #[trigger]
        player_field_value(new, g) == field_after_runs(
            player_field_value(old, g),
            record,
            schema_runs(schema),
            g,
        )
    &&& new.name@ == text_after(old.name@, record, schema.texts@, PlayerText::Name)
    &&& new.shirt_name@ == text_after(
        old.shirt_name@,
        record,
        schema.texts@,
        PlayerText::ShirtName,
    )
    &&& new.appearance.ingame_face@ == face_after_read(old.appearance.ingame_face@, record, schema)
}

/// Two players whose non-text fields agree read the same on every field.
proof fn lemma_values_ignore_texts(a: PlayerEntry, b: PlayerEntry)
    requires
        a.id == b.id,
        a.basic == b.basic,
        a.stats == b.stats,
        a.positions == b.positions,
        a.skills == b.skills,
        a.motion == b.motion,
        a.edit_flags == b.edit_flags,
        a.appearance == b.appearance,
    ensures
        forall|g: PlayerField| #[trigger] player_field_value(a, g) == player_field_value(b, g),
{
}

/// Two players who differ at most in the ingame-face run read the same on
/// every field.
proof fn lemma_values_ignore_face(a: PlayerEntry, b: PlayerEntry)
    requires
        a == (PlayerEntry {
            appearance: PlayerAppearance { ingame_face: a.appearance.ingame_face, ..b.appearance },
            ..b
        }),
    ensures
        forall|g: PlayerField| #[trigger] player_field_value(a, g) == player_field_value(b, g),
{
}

/// One more run applied.
proof fn lemma_field_after_step(
    before: Option<u32>,
    record: Seq<u8>,
    runs: Seq<Run<PlayerField>>,
    k: int,
    g: PlayerField,
)
    requires
        0 <= k < runs.len(),
    ensures
        field_after_runs(before, record, runs.take(k + 1), g) == if runs[k].0 == g {
            Some(stored(player_field_kind(g), run_value(record, runs[k].1 as int, runs[k].2)))
        } else {
            field_after_runs(before, record, runs.take(k), g)
        },
{
    lemma_last_run_index_step(runs, k, g);
    lemma_last_run_index_facts(runs.take(k), g);
}

/// One more text field applied.
proof fn lemma_text_after_step(
    before: Seq<char>,
    record: Seq<u8>,
    texts: Seq<TextSpec<PlayerText>>,
    k: int,
    t: PlayerText,
)
    requires
        0 <= k < texts.len(),
    ensures
        text_after(before, record, texts.take(k + 1), t) == if texts[k].text == t {
            player_text_chars(
                t,
                text_field(record, texts[k].byte_offset as int, texts[k].len as int),
            )
        } else {
            text_after(before, record, texts.take(k), t)
        },
{
    lemma_last_text_index_step(texts, k, t);
    lemma_last_text_index_facts(texts.take(k), t);
}

/// Applies a record's fields onto an existing `PlayerEntry`: what the PES 15/16
/// appearance record is applied with. Only the fields and texts the schema
/// lists are touched.
pub fn read_player_into(
    player: &mut PlayerEntry,
    record: &[u8],
    schema: &RecordSchema<PlayerField, PlayerText>,
) -> (r: Result<(), CodecError>)
    requires
        record_schema_wf(*schema),
    ensures
        record@.len() != schema.size ==> r == Err::<(), CodecError>(
            CodecError::RecordSize { expected: schema.size, got: record@.len() as usize },
        ) && *final(player) == *old(player),
        record@.len() == schema.size && !player_runs_in_range(schema_runs(*schema)) ==> (r matches Err(
            e,
        ) && e is Index),
        record@.len() == schema.size && player_runs_in_range(schema_runs(*schema))
            && !player_texts_decode(record@, schema.texts@) ==> (r matches Err(e) && e is Text),
        record@.len() == schema.size && player_runs_in_range(schema_runs(*schema))
            && player_texts_decode(record@, schema.texts@) ==> r is Ok && player_read_post(
            *old(player),
            *final(player),
            record@,
            *schema,
        ),
{
    if record.len() != schema.size {
        return Err(CodecError::RecordSize { expected: schema.size, got: record.len() });
    }
    let rs = runs(schema);
    let ghost start = *player;
    let mut k: usize = 0;
    while k < rs.len()
        invariant
            k <= rs@.len(),
            rs@ == schema_runs(*schema),
            record_schema_wf(*schema),
            record@.len() == schema.size,
            *old(player) == start,
            forall|j: int| 0 <= j < k ==> player_index_in_range((#[trigger] rs@[j]).0),
            forall|g: PlayerField| #[trigger]
                player_field_value(*player, g) == field_after_runs(
                    player_field_value(start, g),
                    record@,
                    rs@.take(k as int),
                    g,
                ),
            player.name == start.name,
            player.shirt_name == start.shirt_name,
            player.appearance.ingame_face == start.appearance.ingame_face,
        decreases rs@.len() - k,
    {
        let (field, offset, width) = rs[k];
        proof {
            assert(schema_runs(*schema)[k as int] == rs@[k as int]);
        }
        let v = read_bits(record, offset, width);
        let ghost before = *player;
        match player.set(field, v) {
            Ok(()) => {},
            Err(e) => {
                return Err(e);
            },
        }
        proof {
            assert forall|g: PlayerField| #[trigger]
                player_field_value(*player, g) == field_after_runs(
                    player_field_value(start, g),
                    record@,
                    rs@.take(k + 1),
                    g,
                ) by {
                lemma_field_after_step(player_field_value(start, g), record@, rs@, k as int, g);
                assert(player_field_value(before, g) == field_after_runs(
                    player_field_value(start, g),
                    record@,
                    rs@.take(k as int),
                    g,
                ));
            }
        }
        k = k + 1;
    }
    proof {
        assert(rs@.take(rs@.len() as int) =~= rs@);
    }
    let ghost mid = *player;
    let mut t: usize = 0;
    while t < schema.texts.len()
        invariant
            t <= schema.texts@.len(),
            record_schema_wf(*schema),
            record@.len() == schema.size,
            player_runs_in_range(schema_runs(*schema)),
            player.id == mid.id,
            player.basic == mid.basic,
            player.stats == mid.stats,
            player.positions == mid.positions,
            player.skills == mid.skills,
            player.motion == mid.motion,
            player.edit_flags == mid.edit_flags,
            player.appearance == mid.appearance,
            forall|j: int|
                0 <= j < t && (#[trigger] schema.texts@[j]).text == PlayerText::Name ==> valid_utf8(
                    text_field(record@, schema.texts@[j].byte_offset as int, schema.texts@[j].len as int),
                ),
            player.name@ == text_after(start.name@, record@, schema.texts@.take(t as int), PlayerText::Name),
            player.shirt_name@ == text_after(
                start.shirt_name@,
                record@,
                schema.texts@.take(t as int),
                PlayerText::ShirtName,
            ),
        decreases schema.texts@.len() - t,
    {
        let spec = schema.texts[t];
        proof {
            assert(schema.texts@[t as int] == spec);
        }
        let bytes = text_bytes(record, spec.byte_offset, spec.len);
        match spec.text {
            PlayerText::Name => {
                match utf8_text(bytes) {
                    Some(s) => {
                        player.name = s;
                    },
                    None => {
                        return Err(
                            CodecError::Text {
                                text: "Name".to_string(),
                                reason: "player name is not UTF-8",
                            },
                        );
                    },
                }
            },
            PlayerText::ShirtName => {
                player.shirt_name = latin1_text(bytes.as_slice());
            },
        }
        proof {
            lemma_text_after_step(start.name@, record@, schema.texts@, t as int, PlayerText::Name);
            lemma_text_after_step(start.shirt_name@, record@, schema.texts@, t as int, PlayerText::ShirtName);
        }
        t = t + 1;
    }
    proof {
        assert(schema.texts@.take(schema.texts@.len() as int) =~= schema.texts@);
        lemma_values_ignore_texts(*player, mid);
    }
    match schema.ingame_face {
        Some(run) => {
            let ghost texted = *player;
            player.appearance.ingame_face = IngameFace::from_bytes(
                run_bytes(record, run.byte_offset, run.len),
            );
            proof {
                lemma_values_ignore_face(*player, texted);
            }
        },
        None => {},
    }
    Ok(())
}

/// Decodes one player record into a fresh `PlayerEntry`.
pub fn read_player(record: &[u8], schema: &RecordSchema<PlayerField, PlayerText>) -> (r: Result<
    PlayerEntry,
    CodecError,
>)
    requires
        record_schema_wf(*schema),
    ensures
        record@.len() != schema.size ==> r == Err::<PlayerEntry, CodecError>(
            CodecError::RecordSize { expected: schema.size, got: record@.len() as usize },
        ),
        record@.len() == schema.size && !player_runs_in_range(schema_runs(*schema)) ==> (r matches Err(
            e,
        ) && e is Index),
        record@.len() == schema.size && player_runs_in_range(schema_runs(*schema))
            && !player_texts_decode(record@, schema.texts@) ==> (r matches Err(e) && e is Text),
        record@.len() == schema.size && player_runs_in_range(schema_runs(*schema))
            && player_texts_decode(record@, schema.texts@) ==> (r matches Ok(p) && exists|d: PlayerEntry|
            d.is_default() && player_read_post(d, p, record@, *schema)),
{
    let mut player = PlayerEntry::default();
    let ghost d = player;
    match read_player_into(&mut player, record, schema) {
        Ok(()) => {
            assert(d.is_default() && player_read_post(d, player, record@, *schema));
            Ok(player)
        },
        Err(e) => Err(e),
    }
}

/// The bytes a text is written as: the name as UTF-8, the shirt name one byte
/// per char (none when a char is above U+00FF).
pub open spec fn player_text_bytes(p: PlayerEntry, text: PlayerText) -> Option<Seq<u8>> {
    match text {
        PlayerText::Name => Some(encode_utf8(p.name@)),
        PlayerText::ShirtName => latin1_bytes(p.shirt_name@),
    }
}

/// Every run's field has a value in `p`, and the value fits the run.
pub open spec fn player_runs_writable(p: PlayerEntry, runs: Seq<Run<PlayerField>>) -> bool {
    forall|k: int|
        0 <= k < runs.len() ==> {
            let v = player_field_value(p, (#[trigger] runs[k]).0);
            v is Some && fits(v->0, runs[k].2)
        }
}

/// Run `k` is the first of `runs` that `p` cannot write: its field has no
/// value in `p`, or a value too wide for the run, while every run before it
/// can be written.
pub open spec fn first_unwritable_run(p: PlayerEntry, runs: Seq<Run<PlayerField>>, k: int) -> bool {
    &&& 0 <= k < runs.len()
    &&& !({
        let v = player_field_value(p, runs[k].0);
        v is Some && fits(v->0, runs[k].2)
    })
    &&& forall|j: int|
        0 <= j < k ==> {
            let v = player_field_value(p, (#[trigger] runs[j]).0);
            v is Some && fits(v->0, runs[j].2)
        }
}

/// The first unwritable run is unique.
proof fn lemma_first_unwritable_unique(p: PlayerEntry, runs: Seq<Run<PlayerField>>, k: int)
    requires
        first_unwritable_run(p, runs, k),
    ensures
        forall|k2: int| #[trigger] first_unwritable_run(p, runs, k2) ==> k2 == k,
{
    assert forall|k2: int| #[trigger] first_unwritable_run(p, runs, k2) implies k2 == k by {
        if k2 < k {
            assert({
                let v = player_field_value(p, runs[k2].0);
                v is Some && fits(v->0, runs[k2].2)
            });
        } else if k2 > k {
            assert({
                let v = player_field_value(p, runs[k].0);
                v is Some && fits(v->0, runs[k].2)
            });
        }
    }
}

/// Every text field can hold its text and the NUL after it.
pub open spec fn player_texts_writable(p: PlayerEntry, texts: Seq<TextSpec<PlayerText>>) -> bool {
    forall|k: int|
        0 <= k < texts.len() ==> {
            let b = player_text_bytes(p, (#[trigger] texts[k]).text);
            b is Some && b->0.len() < texts[k].len
        }
}

/// The run writes `p` makes: each run with its field's value.
pub open spec fn player_run_writes(p: PlayerEntry, runs: Seq<Run<PlayerField>>) -> Seq<RunWrite> {
    runs.map_values(|r: Run<PlayerField>| (r.1, r.2, player_field_value(p, r.0)->0))
}

/// The text writes `p` makes: each text field with its text's bytes.
pub open spec fn player_text_writes(p: PlayerEntry, texts: Seq<TextSpec<PlayerText>>) -> Seq<
    TextWrite,
> {
    texts.map_values(|t: TextSpec<PlayerText>| (t.byte_offset, player_text_bytes(p, t.text)->0))
}

/// The player's ingame-face run has the length of the schema's run, where
/// the schema has one.
pub open spec fn player_face_fits(p: PlayerEntry, schema: RecordSchema<PlayerField, PlayerText>) -> bool {
    match schema.ingame_face {
        Some(run) => p.appearance.ingame_face@.len() == run.len,
        None => true,
    }
}

/// The record with the player's ingame-face run in the schema's run, where
/// the schema has one.
pub open spec fn face_written(
    p: PlayerEntry,
    record: Seq<u8>,
    schema: RecordSchema<PlayerField, PlayerText>,
) -> Seq<u8> {
    match schema.ingame_face {
        Some(run) => bytes_patched(record, run.byte_offset as int, p.appearance.ingame_face@),
        None => record,
    }
}

/// The record after `p` is written into it: the runs, then the texts, then
/// the ingame-face run.
pub open spec fn player_written(
    p: PlayerEntry,
    record: Seq<u8>,
    schema: RecordSchema<PlayerField, PlayerText>,
) -> Seq<u8> {
    face_written(
        p,
        write_texts_spec(
            write_runs_spec(record, player_run_writes(p, schema_runs(schema))),
            player_text_writes(p, schema.texts@),
        ),
        schema,
    )
}

/// Patches the schema's fields and texts of `player` into `record`; every byte
/// outside those runs is left as it was.
pub fn write_player(
    player: &PlayerEntry,
    record: &mut [u8],
    schema: &RecordSchema<PlayerField, PlayerText>,
) -> (r: Result<(), CodecError>)
    requires
        record_schema_wf(*schema),
    ensures
        final(record)@.len() == old(record)@.len(),
        old(record)@.len() != schema.size ==> r == Err::<(), CodecError>(
            CodecError::RecordSize { expected: schema.size, got: old(record)@.len() as usize },
        ) && final(record)@ == old(record)@,
        old(record)@.len() == schema.size && !player_face_fits(*player, *schema) ==> r
            == Err::<(), CodecError>(
            CodecError::RunSize {
                expected: schema.ingame_face->0.len as usize,
                got: player.appearance.ingame_face@.len() as usize,
            },
        ) && final(record)@ == old(record)@,
        old(record)@.len() == schema.size && player_face_fits(*player, *schema)
            && !player_runs_writable(*player, schema_runs(*schema))
            ==> (r matches Err(e) && (e is Missing || e is Index || e is ValueTooWide)),
        old(record)@.len() == schema.size && player_face_fits(*player, *schema) ==> forall|k: int| #[trigger]
            first_unwritable_run(*player, schema_runs(*schema), k) ==> ({
                let run = schema_runs(*schema)[k];
                &&& final(record)@ == write_runs_spec(
                    old(record)@,
                    player_run_writes(*player, schema_runs(*schema)).take(k),
                )
                &&& match player_field_value(*player, run.0) {
                    Some(v) => r matches Err(CodecError::ValueTooWide { field: text, value, width })
                        && value == v && width == run.2 && text@ == run.0.spec_name(),
                    None => r matches Err(e) && (e is Missing || e is Index),
                }
            }),
        old(record)@.len() == schema.size && player_face_fits(*player, *schema)
            && player_runs_writable(*player, schema_runs(*schema))
            && !player_texts_writable(*player, schema.texts@) ==> (r matches Err(e) && e is Text),
        old(record)@.len() == schema.size && player_face_fits(*player, *schema)
            && player_runs_writable(*player, schema_runs(*schema))
            && player_texts_writable(*player, schema.texts@) ==> r is Ok && final(record)@
            == player_written(*player, old(record)@, *schema),
{
    if record.len() != schema.size {
        return Err(CodecError::RecordSize { expected: schema.size, got: record.len() });
    }
    let face = player.appearance.ingame_face.bytes();
    match schema.ingame_face {
        Some(run) => {
            if face.len() != run.len as usize {
                return Err(CodecError::RunSize { expected: run.len as usize, got: face.len() });
            }
        },
        None => {},
    }
    let rs = runs(schema);
    let ghost writes = player_run_writes(*player, rs@);
    let mut k: usize = 0;
    while k < rs.len()
        invariant
            k <= rs@.len(),
            rs@ == schema_runs(*schema),
            writes == player_run_writes(*player, rs@),
            player_face_fits(*player, *schema),
            record_schema_wf(*schema),
            record@.len() == schema.size,
            old(record)@.len() == schema.size,
            forall|j: int|
                0 <= j < k ==> {
                    let v = player_field_value(*player, (#[trigger] rs@[j]).0);
                    v is Some && fits(v->0, rs@[j].2)
                },
            record@ == write_runs_spec(old(record)@, writes.take(k as int)),
        decreases rs@.len() - k,
    {
        let (field, offset, width) = rs[k];
        proof {
            assert(schema_runs(*schema)[k as int] == rs@[k as int]);
        }
        let value = match player.get(field) {
            Ok(v) => v,
            Err(e) => {
                proof {
                    lemma_first_unwritable_unique(*player, rs@, k as int);
                }
                return Err(e);
            },
        };
        proof {
            if width < 32 {
                assert((1u32 << width) as int == (1u64 << width) as int) by (bit_vector)
                    requires
                        width < 32,
                ;
            }
        }
        if width < 32 && value >= (1u32 << width) {
            proof {
                assert(!fits(value, width));
                assert(player_field_value(*player, rs@[k as int].0) == Some(value));
                lemma_first_unwritable_unique(*player, rs@, k as int);
            }
            return Err(CodecError::ValueTooWide { field: field.name(), value, width });
        }
        proof {
            assert(fits(value, width));
            lemma_write_runs_step(old(record)@, writes, k as int);
        }
        write_bits(record, offset, width, value);
        k = k + 1;
    }
    proof {
        assert(rs@.take(rs@.len() as int) =~= rs@);
        assert(writes.take(writes.len() as int) =~= writes);
    }
    let ghost mid = record@;
    let ghost twrites = player_text_writes(*player, schema.texts@);
    let mut t: usize = 0;
    while t < schema.texts.len()
        invariant
            t <= schema.texts@.len(),
            twrites == player_text_writes(*player, schema.texts@),
            player_face_fits(*player, *schema),
            record_schema_wf(*schema),
            record@.len() == schema.size,
            old(record)@.len() == schema.size,
            player_runs_writable(*player, schema_runs(*schema)),
            mid == write_runs_spec(old(record)@, player_run_writes(*player, schema_runs(*schema))),
            forall|j: int|
                0 <= j < t ==> {
                    let b = player_text_bytes(*player, (#[trigger] schema.texts@[j]).text);
                    b is Some && b->0.len() < schema.texts@[j].len
                },
            record@ == write_texts_spec(mid, twrites.take(t as int)),
        decreases schema.texts@.len() - t,
    {
        let spec = schema.texts[t];
        proof {
            assert(schema.texts@[t as int] == spec);
            lemma_write_texts_step(mid, twrites, t as int);
        }
        match spec.text {
            PlayerText::Name => {
                let bytes = player.name.as_str().as_bytes();
                if bytes.len() >= spec.len as usize {
                    return Err(
                        CodecError::Text {
                            text: spec.text.name(),
                            reason: "the text does not fit its field",
                        },
                    );
                }
                write_text(record, spec.byte_offset, spec.len, bytes);
            },
            PlayerText::ShirtName => {
                let bytes = match single_byte(player.shirt_name.as_str(), "ShirtName") {
                    Ok(b) => b,
                    Err(e) => {
                        return Err(e);
                    },
                };
                if bytes.len() >= spec.len as usize {
                    return Err(
                        CodecError::Text {
                            text: spec.text.name(),
                            reason: "the text does not fit its field",
                        },
                    );
                }
                write_text(record, spec.byte_offset, spec.len, bytes.as_slice());
            },
        }
        t = t + 1;
    }
    proof {
        assert(twrites.take(twrites.len() as int) =~= twrites);
    }
    match schema.ingame_face {
        Some(run) => {
            put_bytes(record, run.byte_offset as usize, face);
        },
        None => {},
    }
    Ok(())
}


/// How many bits the model holds of a field of `kind`.
pub open spec fn kind_width(kind: FieldKind) -> u32 {
    match kind {
        FieldKind::Byte => 8,
        FieldKind::Short => 16,
        FieldKind::Word => 32,
        FieldKind::Flag => 1,
    }
}

/// No two runs carry one field, and no run is wider than the model's hold of
/// its field.
pub open spec fn player_runs_round_trip(runs: Seq<Run<PlayerField>>) -> bool {
    &&& forall|i: int, j: int|
        0 <= i < j < runs.len() ==> (#[trigger] runs[i]).0 != (#[trigger] runs[j]).0
    &&& forall|k: int|
        0 <= k < runs.len() ==> (#[trigger] runs[k]).2 <= kind_width(player_field_kind(runs[k].0))
}

/// No two text fields carry one text, and every text field of the record holds
/// a NUL.
pub open spec fn player_texts_round_trip(record: Seq<u8>, texts: Seq<TextSpec<PlayerText>>) -> bool {
    &&& forall|i: int, j: int|
        0 <= i < j < texts.len() ==> (#[trigger] texts[i]).text != (#[trigger] texts[j]).text
    &&& forall|k: int|
        0 <= k < texts.len() ==> first_nul(
            record.subrange(
                (#[trigger] texts[k]).byte_offset as int,
                texts[k].byte_offset + texts[k].len,
            ),
        ) < texts[k].len
}

/// A value that fits `w` bits fits any wider run.
pub proof fn lemma_fits_wider(v: u32, w: u32, m: u32)
    requires
        fits(v, w),
        w <= m < 32,
    ensures
        (v as u64) < (1u64 << m),
{
    assert((v as u64) < (1u64 << m)) by (bit_vector)
        requires
            (v as u64) < (1u64 << w),
            w <= m < 32,
    ;
}

/// A run value at most as wide as the model's hold of `kind` is stored as is.
pub proof fn lemma_stored_fitting(kind: FieldKind, v: u32, w: u32)
    requires
        fits(v, w),
        w <= kind_width(kind),
    ensures
        stored(kind, v) == v,
{
    match kind {
        FieldKind::Byte => {
            lemma_fits_wider(v, w, 8);
            assert((1u64 << 8u32) == 256) by (bit_vector);
        },
        FieldKind::Short => {
            lemma_fits_wider(v, w, 16);
            assert((1u64 << 16u32) == 65536) by (bit_vector);
        },
        FieldKind::Word => {},
        FieldKind::Flag => {
            lemma_fits_wider(v, w, 1);
            assert((1u64 << 1u32) == 2) by (bit_vector);
        },
    }
}

/// One byte per char and back gives the bytes again.
pub proof fn lemma_latin1_round_trip(b: Seq<u8>)
    ensures
        latin1_bytes(latin1_chars(b)) == Some(b),
{
    let c = latin1_chars(b);
    assert forall|i: int| 0 <= i < c.len() implies (c[i] as u32) <= 0xFF by {}
    assert(Seq::new(c.len(), |i: int| c[i] as u8) =~= b);
}

/// Reading a record into a player and writing that player back leaves the
/// record byte-identical, its ingame-face run included: the read succeeded, no two runs carry one field, no
/// run is wider than the model holds its field, no two text fields carry one
/// text, and every text field holds a NUL.
pub proof fn law_write_after_read_keeps_the_record(
    before: PlayerEntry,
    p: PlayerEntry,
    record: Seq<u8>,
    schema: RecordSchema<PlayerField, PlayerText>,
)
    requires
        record_schema_wf(schema),
        record.len() == schema.size,
        player_runs_in_range(schema_runs(schema)),
        player_texts_decode(record, schema.texts@),
        player_read_post(before, p, record, schema),
        player_runs_round_trip(schema_runs(schema)),
        player_texts_round_trip(record, schema.texts@),
    ensures
        player_face_fits(p, schema),
        player_runs_writable(p, schema_runs(schema)),
        player_texts_writable(p, schema.texts@),
        player_written(p, record, schema) == record,
{
    let runs = schema_runs(schema);
    let writes = player_run_writes(p, runs);
    assert forall|k: int| 0 <= k < runs.len() implies {
        &&& player_field_value(p, (#[trigger] runs[k]).0) == Some(
            run_value(record, runs[k].1 as int, runs[k].2),
        )
        &&& fits(run_value(record, runs[k].1 as int, runs[k].2), runs[k].2)
        &&& crate::codec::bits::is_run_value(
            record,
            runs[k].1 as int,
            runs[k].2,
            run_value(record, runs[k].1 as int, runs[k].2),
        )
    } by {
        let g = runs[k].0;
        assert(runs[k].2 <= 32);
        lemma_last_run_index_facts(runs, g);
        match last_run_index(runs, g) {
            Some(j) => {
                if j < k {
                    assert(runs[j].0 != runs[k].0);
                } else if j > k {
                    assert(runs[k].0 != runs[j].0);
                }
            },
            None => {},
        }
        assert(last_run_index(runs, g) == Some(k));
        lemma_run_value_facts(record, runs[k].1 as int, runs[k].2);
        lemma_stored_fitting(
            player_field_kind(g),
            run_value(record, runs[k].1 as int, runs[k].2),
            runs[k].2,
        );
        assert(player_field_value(p, g) == field_after_runs(
            player_field_value(before, g),
            record,
            runs,
            g,
        ));
    }
    assert forall|k: int| 0 <= k < writes.len() implies #[trigger] writes[k].1 <= 32
        && crate::codec::bits::is_run_value(record, writes[k].0 as int, writes[k].1, writes[k].2) by {
        assert(writes[k] == (runs[k].1, runs[k].2, player_field_value(p, runs[k].0)->0));
        assert(runs[k].2 <= 32);
    }
    lemma_write_own_values(record, writes);
    let texts = schema.texts@;
    let twrites = player_text_writes(p, texts);
    let lens = texts.map_values(|t: TextSpec<PlayerText>| t.len);
    assert forall|k: int| 0 <= k < texts.len() implies player_text_bytes(p, (#[trigger] texts[k]).text)
        == Some(text_field(record, texts[k].byte_offset as int, texts[k].len as int)) by {
        let t = texts[k].text;
        let b = text_field(record, texts[k].byte_offset as int, texts[k].len as int);
        lemma_last_text_index_facts(texts, t);
        match last_text_index(texts, t) {
            Some(j) => {
                if j < k {
                    assert(texts[j].text != texts[k].text);
                } else if j > k {
                    assert(texts[k].text != texts[j].text);
                }
            },
            None => {},
        }
        assert(last_text_index(texts, t) == Some(k));
        match t {
            PlayerText::Name => {
                vstd::utf8::decode_utf8_encode_utf8(b);
            },
            PlayerText::ShirtName => {
                lemma_latin1_round_trip(b);
            },
        }
    }
    assert forall|k: int| 0 <= k < twrites.len() implies {
        &&& (#[trigger] twrites[k]).0 + lens[k] <= record.len()
        &&& first_nul(record.subrange(twrites[k].0 as int, twrites[k].0 + lens[k])) < lens[k]
        &&& twrites[k].1 == text_field(record, twrites[k].0 as int, lens[k] as int)
    } by {
        assert(texts[k].byte_offset + texts[k].len <= schema.size);
    }
    assert forall|k: int| 0 <= k < texts.len() implies {
        let b = player_text_bytes(p, (#[trigger] texts[k]).text);
        b is Some && b->0.len() < texts[k].len
    } by {
        assert(texts[k].byte_offset + texts[k].len <= schema.size);
        let f = record.subrange(texts[k].byte_offset as int, texts[k].byte_offset + texts[k].len);
        lemma_first_nul_facts(f);
    }
    lemma_write_own_texts(record, twrites, lens);
}

} // verus!
