//! The generic record codec: the one engine that walks a record schema's field
//! table and moves values between record bytes and the model. It knows nothing
//! about versions or encryption; every offset lives in the schema.
use vstd::prelude::*;

use crate::codec::bits::{fits, patch, lemma_patch_with_own_value, is_run_value};
use crate::schema::{array_run, array_runs, arrays_fit, field_runs, schema_runs, ArraySpec, FieldSpec, RecordField, RecordSchema, Run, TextSpec};
use vstd::utf8::{decode_utf8, valid_utf8};
use crate::version::PesVersion;

/// LSB-first bit-run reads and writes.
pub mod bits;
/// The player record codec.
pub mod player;
/// The team, roster and tactics record codecs.
pub mod team;
/// The names error messages give record fields.
pub mod names;

pub use names::FieldName;

pub use player::{read_player, read_player_into, write_player};
pub use team::{
    read_roster_into, read_tactics_into, read_team, write_roster, write_tactics, write_team,
};

verus! {

broadcast use vstd::string::axiom_spec_iter;

/// A player/team record could not be decoded or re-encoded.
#[derive(Debug, Clone, PartialEq, Eq)]
pub enum CodecError {
    /// A model value does not fit the schema's bit run.
    ValueTooWide {
        /// The field whose value is too wide.
        field: String,
        /// The offending value.
        value: u32,
        /// The run's width in bits.
        width: u32,
    },
    /// The version's schema stores a field the player has no value for.
    Missing {
        /// The gated field that is `None`.
        field: String,
    },
    /// A text field could not be decoded or encoded.
    Text {
        /// The field (`"Name"`, `"ShirtName"`).
        text: String,
        /// Why the text failed.
        reason: &'static str,
    },
    /// A record slice is not the schema's size.
    RecordSize {
        /// The schema's record size.
        expected: usize,
        /// The slice's actual length.
        got: usize,
    },
    /// The model's ingame-face run is not the schema run's length.
    RunSize {
        /// The schema's run length.
        expected: usize,
        /// The run's actual length.
        got: usize,
    },
    /// An ingame-face field was read or written on a run that does not reach it.
    NoIngameFaceRun {
        /// The field past the run's end.
        field: String,
    },
    /// An indexed field named an element past its array.
    Index {
        /// The field whose index is out of range.
        field: String,
        /// The offending element index.
        index: u8,
    },
    /// A byte the format treats as boolean holds another value.
    NotBoolean {
        /// The boolean field whose byte is out of range.
        field: String,
        /// The offending value.
        value: u32,
    },
    /// A roster or tactics record names another team's id.
    TeamIdMismatch {
        /// The id of the team the record is applied to.
        expected: u32,
        /// The id the record carries.
        got: u32,
    },
    /// A stored playing-style index names no style of the version's list.
    UnknownPlayingStyle {
        /// The version whose list was consulted.
        version: PesVersion,
        /// The stored index (out of range or a hole).
        value: u8,
    },
}

/// A version-gated field that is `None` while the schema has a run for it:
/// the error names the field.
pub fn missing<F: FieldName>(field: F) -> (e: CodecError)
    ensures
        e matches CodecError::Missing { field: text } && text@ == field.spec_name(),
{
    CodecError::Missing { field: field.name() }
}

/// An indexed variant naming an element past its array.
pub fn index<F: FieldName>(field: F, i: u8) -> (e: CodecError)
    ensures
        e matches CodecError::Index { field: text, index } && index == i && text@ == field.spec_name(),
{
    CodecError::Index { field: field.name(), index: i }
}

/// A byte boolean on disk: only 0 and 1 are values, anything else means the
/// read is misaligned rather than a third truth value.
pub fn boolean<F: FieldName>(field: F, value: u32) -> (r: Result<bool, CodecError>)
    ensures
        value == 0 ==> r == Ok::<bool, CodecError>(false),
        value == 1 ==> r == Ok::<bool, CodecError>(true),
        value > 1 ==> (r matches Err(CodecError::NotBoolean { field: text, value: v }) && v == value
            && text@ == field.spec_name()),
{
    match value {
        0 => Ok(false),
        1 => Ok(true),
        _ => Err(CodecError::NotBoolean { field: field.name(), value }),
    }
}

proof fn lemma_array_runs_step<F: RecordField>(arrays: Seq<ArraySpec<F>>, k: int)
    requires
        0 <= k < arrays.len(),
    ensures
        array_runs(arrays.subrange(0, k + 1)) == array_runs(arrays.subrange(0, k)) + Seq::new(
            arrays[k].count as nat,
            |i: int| array_run(arrays[k], i),
        ),
{
    let s = arrays.subrange(0, k + 1);
    assert(s.drop_last() =~= arrays.subrange(0, k));
    assert(s.last() == arrays[k]);
}

/// Every `FieldSpec` and every expanded `ArraySpec` element of a record schema
/// as `(field, bit_offset, bit_width)`; the three record kinds reuse it.
pub fn runs<F: RecordField, T>(schema: &RecordSchema<F, T>) -> (r: Vec<Run<F>>)
    requires
        arrays_fit(schema.arrays@),
    ensures
        r@ == schema_runs(*schema),
{
    field_array_runs(&schema.fields, &schema.arrays)
}

/// The single-field runs, then every array element's run.
pub fn field_array_runs<F: RecordField>(fields: &Vec<FieldSpec<F>>, arrays: &Vec<ArraySpec<F>>) -> (r: Vec<Run<F>>)
    requires
        arrays_fit(arrays@),
    ensures
        r@ == field_runs(fields@) + array_runs(arrays@),
{
    let mut out: Vec<Run<F>> = Vec::new();
    let mut k: usize = 0;
    while k < fields.len()
        invariant
            k <= fields@.len(),
            out@ == fields@.subrange(0, k as int).map_values(
                |s: FieldSpec<F>| (s.field, s.bit_offset, s.bit_width),
            ),
        decreases fields@.len() - k,
    {
        let s = fields[k];
        out.push((s.field, s.bit_offset, s.bit_width));
        k = k + 1;
        assert(out@ =~= fields@.subrange(0, k as int).map_values(
            |s: FieldSpec<F>| (s.field, s.bit_offset, s.bit_width),
        ));
    }
    let ghost fields_part = out@;
    assert(fields@.subrange(0, fields@.len() as int) =~= fields@);
    assert(array_runs(arrays@.subrange(0, 0)) =~= Seq::<Run<F>>::empty());
    assert(out@ =~= fields_part + array_runs(arrays@.subrange(0, 0)));
    let mut a: usize = 0;
    while a < arrays.len()
        invariant
            a <= arrays@.len(),
            arrays_fit(arrays@),
            out@ == fields_part + array_runs(arrays@.subrange(0, a as int)),
        decreases arrays@.len() - a,
    {
        let array = arrays[a];
        proof {
            lemma_array_runs_step(arrays@, a as int);
            assert(arrays@[a as int] == array);
        }
        let ghost before = out@;
        let mut i: u8 = 0;
        while i < array.count
            invariant
                i <= array.count,
                array.base_bit + array.count * array.stride_bits <= u32::MAX,
                out@ == before + Seq::new(i as nat, |j: int| array_run(array, j)),
            decreases array.count - i,
        {
            proof {
                assert(i * array.stride_bits <= array.count * array.stride_bits) by (nonlinear_arith)
                    requires
                        i <= array.count,
                ;
            }
            let f = array.field.element(i);
            out.push((f, array.base_bit + (i as u32) * array.stride_bits, array.bit_width));
            i = i + 1;
            assert(out@ =~= before + Seq::new(i as nat, |j: int| array_run(array, j)));
        }
        a = a + 1;
    }
    assert(arrays@.subrange(0, arrays@.len() as int) =~= arrays@);
    out
}

/// The index of the first NUL of `s`, or its length when it holds none.
pub open spec fn first_nul(s: Seq<u8>) -> int
    decreases s.len(),
{
    if s.len() == 0 {
        0
    } else if s[0] == 0 {
        0
    } else {
        1 + first_nul(s.drop_first())
    }
}

/// `k` is the first NUL's index when no byte before it is NUL and it is NUL or
/// the end.
pub proof fn lemma_first_nul(s: Seq<u8>, k: int)
    requires
        0 <= k <= s.len(),
        forall|i: int| 0 <= i < k ==> s[i] != 0,
        k == s.len() || s[k] == 0,
    ensures
        first_nul(s) == k,
    decreases s.len(),
{
    if s.len() > 0 && k > 0 {
        lemma_first_nul(s.drop_first(), k - 1);
    }
}

/// The bytes a text field stores: everything up to the first NUL or the field end.
pub open spec fn text_field(record: Seq<u8>, byte_offset: int, len: int) -> Seq<u8> {
    let field = record.subrange(byte_offset, byte_offset + len);
    field.take(first_nul(field))
}

/// The bytes a text field currently stores: everything up to the first NUL or
/// the field end.
pub fn text_bytes(record: &[u8], byte_offset: u32, len: u32) -> (r: Vec<u8>)
    requires
        byte_offset + len <= record@.len(),
    ensures
        r@ == text_field(record@, byte_offset as int, len as int),
{
    let rl = record.len();
    let start = byte_offset as usize;
    let end = start + len as usize;
    let mut i: usize = start;
    let mut out: Vec<u8> = Vec::new();
    while i < end && record[i] != 0
        invariant
            start <= i <= end,
            end <= record@.len(),
            out@ == record@.subrange(start as int, i as int),
            forall|t: int| start <= t < i ==> record@[t] != 0,
        decreases end - i,
    {
        out.push(record[i]);
        i = i + 1;
        assert(out@ =~= record@.subrange(start as int, i as int));
    }
    proof {
        let field = record@.subrange(start as int, end as int);
        lemma_first_nul(field, i - start);
        assert(out@ =~= field.take(i - start));
    }
    out
}

/// `data` with `bytes` and one NUL after them written at `byte_offset`.
pub open spec fn text_patch(data: Seq<u8>, byte_offset: int, bytes: Seq<u8>) -> Seq<u8> {
    data.subrange(0, byte_offset) + bytes + seq![0u8] + data.subrange(byte_offset + bytes.len() + 1, data.len() as int)
}

/// Writes `bytes` at the field's start, one NUL after them, and leaves the
/// remaining bytes of the field untouched (real saves carry old bytes there).
pub fn write_text(record: &mut [u8], byte_offset: u32, len: u32, bytes: &[u8])
    requires
        byte_offset + len <= old(record)@.len(),
        bytes@.len() < len,
    ensures
        final(record)@ == text_patch(old(record)@, byte_offset as int, bytes@),
{
    let rl = record.len();
    let start = byte_offset as usize;
    let mut i: usize = 0;
    while i < bytes.len()
        invariant
            i <= bytes@.len(),
            start + bytes@.len() < record@.len(),
            rl == record@.len(),
            record@.len() == old(record)@.len(),
            forall|t: int| 0 <= t < record@.len() && !(start <= t < start + i) ==> record@[t] == old(record)@[t],
            forall|t: int| 0 <= t < i ==> record@[start + t] == bytes@[t],
        decreases bytes@.len() - i,
    {
        record[start + i] = bytes[i];
        i = i + 1;
    }
    record[start + bytes.len()] = 0;
    assert(final(record)@ =~= text_patch(old(record)@, byte_offset as int, bytes@));
}

/// The single bytes of a text whose chars are all U+0000 to U+00FF.
pub open spec fn latin1_bytes(chars: Seq<char>) -> Option<Seq<u8>> {
    if forall|i: int| 0 <= i < chars.len() ==> (chars[i] as u32) <= 0xFF {
        Some(Seq::new(chars.len(), |i: int| chars[i] as u8))
    } else {
        None
    }
}

/// The single-byte encoding shared by shirt and team short names: each char is
/// one byte U+00XX.
pub fn single_byte(text: &str, name: &str) -> (r: Result<Vec<u8>, CodecError>)
    ensures
        match latin1_bytes(text@) {
            Some(b) => r matches Ok(v) && v@ == b,
            None => r matches Err(CodecError::Text { .. }),
        },
{
    let mut encoded: Vec<u8> = Vec::new();
    let ghost chars = text@;
    for c in it: text.chars()
        invariant
            it.seq() == chars,
            chars == text@,
            encoded@.len() == it.index(),
            forall|i: int| 0 <= i < it.index() ==> (#[trigger] chars[i] as u32) <= 0xFF,
            forall|i: int| 0 <= i < it.index() ==> #[trigger] encoded@[i] == chars[i] as u8,
    {
        assert(c == chars[it.index() as int]);
        if (c as u32) > 0xFF {
            assert(!((chars[it.index() as int] as u32) <= 0xFF));

            return Err(CodecError::Text { text: name.to_string(), reason: "a char is above U+00FF" });
        }
        encoded.push(c as u8);
    }
    assert(encoded@ =~= Seq::new(chars.len(), |i: int| chars[i] as u8));
    Ok(encoded)
}

/// A run write: (first bit, width, value).
pub type RunWrite = (u32, u32, u32);

/// `data` after the run writes, in order.
pub open spec fn write_runs_spec(data: Seq<u8>, writes: Seq<RunWrite>) -> Seq<u8>
    decreases writes.len(),
{
    if writes.len() == 0 {
        data
    } else {
        let w = writes.last();
        patch(write_runs_spec(data, writes.drop_last()), w.0 as int, w.1, w.2)
    }
}

/// Writing every run back with the value it already holds changes nothing.
pub proof fn lemma_write_own_values(data: Seq<u8>, writes: Seq<RunWrite>)
    requires
        forall|k: int| 0 <= k < writes.len() ==> #[trigger] writes[k].1 <= 32 && is_run_value(
            data,
            writes[k].0 as int,
            writes[k].1,
            writes[k].2,
        ),
    ensures
        write_runs_spec(data, writes) == data,
    decreases writes.len(),
{
    if writes.len() > 0 {
        let w = writes.last();
        assert(writes[writes.len() - 1] == w);
        lemma_write_own_values(data, writes.drop_last());
        lemma_patch_with_own_value(data, w.0 as int, w.1, w.2);
    }
}

/// A text write: (first byte, the text's bytes).
pub type TextWrite = (u32, Seq<u8>);

/// `data` after the text writes, in order.
pub open spec fn write_texts_spec(data: Seq<u8>, writes: Seq<TextWrite>) -> Seq<u8>
    decreases writes.len(),
{
    if writes.len() == 0 {
        data
    } else {
        let w = writes.last();
        text_patch(write_texts_spec(data, writes.drop_last()), w.0 as int, w.1)
    }
}

/// The first NUL's index is inside the sequence or its end; every byte before it
/// is not NUL, and the byte at it is NUL when it is inside.
pub proof fn lemma_first_nul_facts(s: Seq<u8>)
    ensures
        0 <= first_nul(s) <= s.len(),
        forall|i: int| 0 <= i < first_nul(s) ==> s[i] != 0,
        first_nul(s) < s.len() ==> s[first_nul(s)] == 0,
    decreases s.len(),
{
    if s.len() > 0 && s[0] != 0 {
        lemma_first_nul_facts(s.drop_first());
        assert forall|i: int| 0 <= i < first_nul(s) implies s[i] != 0 by {
            if i > 0 {
                assert(s[i] == s.drop_first()[i - 1]);
            }
        }
    }
}

/// Writing a text field back with the text it holds changes nothing, when the
/// field holds a NUL.
pub proof fn lemma_text_patch_with_own_text(data: Seq<u8>, byte_offset: int, len: int)
    requires
        0 <= byte_offset,
        byte_offset + len <= data.len(),
        first_nul(data.subrange(byte_offset, byte_offset + len)) < len,
    ensures
        text_patch(data, byte_offset, text_field(data, byte_offset, len)) == data,
{
    let f = data.subrange(byte_offset, byte_offset + len);
    lemma_first_nul_facts(f);
    let k = first_nul(f);
    let t = text_field(data, byte_offset, len);
    assert(t.len() == k);
    assert(data[byte_offset + k] == f[k]);
    assert(text_patch(data, byte_offset, t) =~= data);
}

/// The index of the last run of `field`, if any.
pub open spec fn last_run_index<F>(runs: Seq<Run<F>>, field: F) -> Option<int>
    decreases runs.len(),
{
    if runs.len() == 0 {
        None
    } else if runs.last().0 == field {
        Some(runs.len() - 1)
    } else {
        last_run_index(runs.drop_last(), field)
    }
}

/// The index of the last text spec of `text`, if any.
pub open spec fn last_text_index<T>(texts: Seq<TextSpec<T>>, text: T) -> Option<int>
    decreases texts.len(),
{
    if texts.len() == 0 {
        None
    } else if texts.last().text == text {
        Some(texts.len() - 1)
    } else {
        last_text_index(texts.drop_last(), text)
    }
}

/// The schema's runs, texts and ingame-face run all lie inside a record of
/// its size, and every run is at most 32 bits wide.
pub open spec fn record_schema_wf<F: RecordField, T>(schema: RecordSchema<F, T>) -> bool {
    &&& arrays_fit(schema.arrays@)
    &&& forall|k: int| 0 <= k < schema_runs(schema).len() ==> {
        let r = #[trigger] schema_runs(schema)[k];
        r.2 <= 32 && r.1 / 8 <= schema.size
    }
    &&& forall|k: int| 0 <= k < schema.texts@.len() ==> #[trigger] schema.texts@[k].byte_offset
        + schema.texts@[k].len <= schema.size
    &&& match schema.ingame_face {
        Some(run) => run.byte_offset + run.len <= schema.size,
        None => true,
    }
}

/// Whether every array element's first bit fits a `u32`.
pub fn arrays_fit_check<F>(arrays: &Vec<ArraySpec<F>>) -> (b: bool)
    ensures
        b == arrays_fit(arrays@),
{
    let mut k: usize = 0;
    while k < arrays.len()
        invariant
            k <= arrays@.len(),
            forall|j: int|
                0 <= j < k ==> #[trigger] arrays@[j].base_bit + arrays@[j].count * arrays@[j].stride_bits <= u32::MAX,
        decreases arrays@.len() - k,
    {
        let a = &arrays[k];
        let count = a.count as u64;
        let stride = a.stride_bits as u64;
        proof {
            assert(count * stride <= 255 * 0xffff_ffff) by (nonlinear_arith)
                requires
                    count <= 255,
                    stride <= 0xffff_ffff,
            ;
        }
        let end: u64 = (a.base_bit as u64) + count * stride;
        if end > 0xffff_ffff {
            return false;
        }
        k = k + 1;
    }
    true
}

/// Every run is at most 32 bits wide and starts inside a record of `size`
/// bytes.
pub open spec fn runs_inside<F>(runs: Seq<Run<F>>, size: usize) -> bool {
    forall|k: int| 0 <= k < runs.len() ==> {
        let r = #[trigger] runs[k];
        r.2 <= 32 && r.1 / 8 <= size
    }
}

/// Whether every run is at most 32 bits wide and starts inside a record of
/// `size` bytes.
pub fn runs_inside_check<F>(runs: &Vec<Run<F>>, size: usize) -> (b: bool)
    ensures
        b == runs_inside(runs@, size),
{
    let mut k: usize = 0;
    while k < runs.len()
        invariant
            k <= runs@.len(),
            forall|j: int| 0 <= j < k ==> {
                let r = #[trigger] runs@[j];
                r.2 <= 32 && r.1 / 8 <= size
            },
        decreases runs@.len() - k,
    {
        if runs[k].2 > 32 || (runs[k].1 / 8) as usize > size {
            return false;
        }
        k = k + 1;
    }
    true
}

/// Whether a record layout is one the codec can walk: its arrays' offsets
/// fit, and its runs and texts lie inside its records.
pub fn record_schema_check<F: RecordField, T>(schema: &RecordSchema<F, T>) -> (b: bool)
    ensures
        b == record_schema_wf(*schema),
{
    if !arrays_fit_check(&schema.arrays) {
        return false;
    }
    let rs = runs(schema);
    if !runs_inside_check(&rs, schema.size) {
        return false;
    }
    let mut k: usize = 0;
    while k < schema.texts.len()
        invariant
            k <= schema.texts@.len(),
            forall|j: int|
                0 <= j < k ==> #[trigger] schema.texts@[j].byte_offset + schema.texts@[j].len <= schema.size,
        decreases schema.texts@.len() - k,
    {
        let t = &schema.texts[k];
        if (t.byte_offset as u64) + (t.len as u64) > schema.size as u64 {
            return false;
        }
        k = k + 1;
    }
    match schema.ingame_face {
        Some(run) => (run.byte_offset as u64) + (run.len as u64) <= schema.size as u64,
        None => true,
    }
}

/// The chars of single-byte text: byte `b` is U+00bb.
pub open spec fn latin1_chars(bytes: Seq<u8>) -> Seq<char> {
    Seq::new(bytes.len(), |i: int| bytes[i] as char)
}

/// `String::from_utf8` of std: the text the bytes encode, when they are UTF-8.
#[verifier::external_body]
pub(crate) fn utf8_text(bytes: Vec<u8>) -> (r: Option<String>)
    ensures
        r is Some <==> valid_utf8(bytes@),
        r matches Some(s) ==> s@ == decode_utf8(bytes@),
{
    String::from_utf8(bytes).ok()
}

/// `String::push` of std: `c` appended.
#[verifier::external_body]
pub(crate) fn push_char(s: &mut String, c: char)
    ensures
        final(s)@ == old(s)@.push(c),
{
    s.push(c)
}

/// Single-byte text as a `String`: byte `b` is the char U+00bb.
pub fn latin1_text(bytes: &[u8]) -> (s: String)
    ensures
        s@ == latin1_chars(bytes@),
{
    let mut s = String::new();
    let mut i: usize = 0;
    while i < bytes.len()
        invariant
            i <= bytes@.len(),
            s@ == latin1_chars(bytes@.subrange(0, i as int)),
        decreases bytes@.len() - i,
    {
        push_char(&mut s, bytes[i] as char);
        i = i + 1;
        assert(s@ =~= latin1_chars(bytes@.subrange(0, i as int)));
    }
    assert(bytes@.subrange(0, bytes@.len() as int) =~= bytes@);
    s
}


/// Where the last run of `field` stands: no later run carries `field`, and
/// none at all when there is no such run.
pub proof fn lemma_last_run_index_facts<F>(runs: Seq<Run<F>>, field: F)
    ensures
        match last_run_index(runs, field) {
            Some(k) => 0 <= k < runs.len() && runs[k].0 == field && forall|j: int|
                k < j < runs.len() ==> (#[trigger] runs[j]).0 != field,
            None => forall|j: int| 0 <= j < runs.len() ==> (#[trigger] runs[j]).0 != field,
        },
    decreases runs.len(),
{
    if runs.len() > 0 {
        let d = runs.drop_last();
        lemma_last_run_index_facts(d, field);
        let n = runs.len() - 1;
        assert(runs.last() == runs[n]);
        if runs[n].0 != field {
            assert(last_run_index(runs, field) == last_run_index(d, field));
            match last_run_index(d, field) {
                Some(k) => {
                    assert forall|j: int| k < j < runs.len() implies (#[trigger] runs[j]).0 != field by {
                        if j < n {
                            assert(d[j] == runs[j]);
                        }
                    }
                },
                None => {
                    assert forall|j: int| 0 <= j < runs.len() implies (#[trigger] runs[j]).0 != field by {
                        if j < n {
                            assert(d[j] == runs[j]);
                        }
                    }
                },
            }
        }
    }
}

/// One more run: the last run of its own field becomes that run.
pub proof fn lemma_last_run_index_step<F>(runs: Seq<Run<F>>, k: int, field: F)
    requires
        0 <= k < runs.len(),
    ensures
        last_run_index(runs.take(k + 1), field) == if runs[k].0 == field {
            Some(k)
        } else {
            last_run_index(runs.take(k), field)
        },
{
    let t = runs.take(k + 1);
    assert(t.drop_last() =~= runs.take(k));
    assert(t.last() == runs[k]);
}

/// Where the last text spec of `text` stands.
pub proof fn lemma_last_text_index_facts<T>(texts: Seq<TextSpec<T>>, field: T)
    ensures
        match last_text_index(texts, field) {
            Some(k) => 0 <= k < texts.len() && texts[k].text == field && forall|j: int|
                k < j < texts.len() ==> (#[trigger] texts[j]).text != field,
            None => forall|j: int| 0 <= j < texts.len() ==> (#[trigger] texts[j]).text != field,
        },
    decreases texts.len(),
{
    if texts.len() > 0 {
        let d = texts.drop_last();
        lemma_last_text_index_facts(d, field);
        let n = texts.len() - 1;
        assert(texts.last() == texts[n]);
        if texts[n].text != field {
            assert(last_text_index(texts, field) == last_text_index(d, field));
            match last_text_index(d, field) {
                Some(k) => {
                    assert forall|j: int| k < j < texts.len() implies (#[trigger] texts[j]).text != field by {
                        if j < n {
                            assert(d[j] == texts[j]);
                        }
                    }
                },
                None => {
                    assert forall|j: int| 0 <= j < texts.len() implies (#[trigger] texts[j]).text != field by {
                        if j < n {
                            assert(d[j] == texts[j]);
                        }
                    }
                },
            }
        }
    }
}

/// One more text spec: the last spec of its own text becomes that spec.
pub proof fn lemma_last_text_index_step<T>(texts: Seq<TextSpec<T>>, k: int, text: T)
    requires
        0 <= k < texts.len(),
    ensures
        last_text_index(texts.take(k + 1), text) == if texts[k].text == text {
            Some(k)
        } else {
            last_text_index(texts.take(k), text)
        },
{
    let t = texts.take(k + 1);
    assert(t.drop_last() =~= texts.take(k));
    assert(t.last() == texts[k]);
}

/// One more run write.
pub proof fn lemma_write_runs_step(data: Seq<u8>, writes: Seq<RunWrite>, k: int)
    requires
        0 <= k < writes.len(),
    ensures
        write_runs_spec(data, writes.take(k + 1)) == patch(
            write_runs_spec(data, writes.take(k)),
            writes[k].0 as int,
            writes[k].1,
            writes[k].2,
        ),
{
    let t = writes.take(k + 1);
    assert(t.drop_last() =~= writes.take(k));
    assert(t.last() == writes[k]);
}

/// One more text write.
pub proof fn lemma_write_texts_step(data: Seq<u8>, writes: Seq<TextWrite>, k: int)
    requires
        0 <= k < writes.len(),
    ensures
        write_texts_spec(data, writes.take(k + 1)) == text_patch(
            write_texts_spec(data, writes.take(k)),
            writes[k].0 as int,
            writes[k].1,
        ),
{
    let t = writes.take(k + 1);
    assert(t.drop_last() =~= writes.take(k));
    assert(t.last() == writes[k]);
}

/// Writing every text field back with the text it holds changes nothing, when
/// each field holds a NUL.
pub proof fn lemma_write_own_texts(data: Seq<u8>, writes: Seq<TextWrite>, lens: Seq<u32>)
    requires
        writes.len() == lens.len(),
        forall|k: int| 0 <= k < writes.len() ==> {
            &&& (#[trigger] writes[k]).0 + lens[k] <= data.len()
            &&& first_nul(data.subrange(writes[k].0 as int, writes[k].0 + lens[k])) < lens[k]
            &&& writes[k].1 == text_field(data, writes[k].0 as int, lens[k] as int)
        },
    ensures
        write_texts_spec(data, writes) == data,
    decreases writes.len(),
{
    if writes.len() > 0 {
        let n = writes.len() - 1;
        assert forall|k: int| 0 <= k < writes.drop_last().len() implies {
            &&& (#[trigger] writes.drop_last()[k]).0 + lens.drop_last()[k] <= data.len()
            &&& first_nul(data.subrange(writes.drop_last()[k].0 as int, writes.drop_last()[k].0 + lens.drop_last()[k])) < lens.drop_last()[k]
            &&& writes.drop_last()[k].1 == text_field(data, writes.drop_last()[k].0 as int, lens.drop_last()[k] as int)
        } by {
            assert(writes.drop_last()[k] == writes[k]);
        }
        lemma_write_own_texts(data, writes.drop_last(), lens.drop_last());
        assert(writes[n] == writes.last());
        lemma_text_patch_with_own_text(data, writes[n].0 as int, lens[n] as int);
    }
}


/// Every run's field has a value, and the value fits the run.
pub open spec fn runs_writable<F>(values: spec_fn(F) -> Option<u32>, runs: Seq<Run<F>>) -> bool {
    forall|k: int|
        0 <= k < runs.len() ==> {
            let v = values((#[trigger] runs[k]).0);
            v is Some && fits(v->0, runs[k].2)
        }
}

/// Run `k` is the first of `runs` whose field has no value, or a value too
/// wide for the run, while every run before it can be written.
pub open spec fn first_unwritable<F>(values: spec_fn(F) -> Option<u32>, runs: Seq<Run<F>>, k: int) -> bool {
    &&& 0 <= k < runs.len()
    &&& !({
        let v = values(runs[k].0);
        v is Some && fits(v->0, runs[k].2)
    })
    &&& forall|j: int|
        0 <= j < k ==> {
            let v = values((#[trigger] runs[j]).0);
            v is Some && fits(v->0, runs[j].2)
        }
}

/// The first unwritable run is unique.
pub proof fn lemma_first_unwritable_unique<F>(values: spec_fn(F) -> Option<u32>, runs: Seq<Run<F>>, k: int)
    requires
        first_unwritable(values, runs, k),
    ensures
        forall|k2: int| #[trigger] first_unwritable(values, runs, k2) ==> k2 == k,
{
    assert forall|k2: int| #[trigger] first_unwritable(values, runs, k2) implies k2 == k by {
        if k2 < k {
            assert({
                let v = values(runs[k2].0);
                v is Some && fits(v->0, runs[k2].2)
            });
        } else if k2 > k {
            assert({
                let v = values(runs[k].0);
                v is Some && fits(v->0, runs[k].2)
            });
        }
    }
}

/// The run writes of a record: each run with its field's value.
pub open spec fn run_writes<F>(values: spec_fn(F) -> Option<u32>, runs: Seq<Run<F>>) -> Seq<RunWrite> {
    runs.map_values(|r: Run<F>| (r.1, r.2, values(r.0)->0))
}

/// Every text field can hold its text's bytes and the NUL after them.
pub open spec fn texts_writable<T>(bytes: spec_fn(T) -> Option<Seq<u8>>, texts: Seq<TextSpec<T>>) -> bool {
    forall|k: int|
        0 <= k < texts.len() ==> {
            let b = bytes((#[trigger] texts[k]).text);
            b is Some && b->0.len() < texts[k].len
        }
}

/// The text writes of a record: each text field with its text's bytes.
pub open spec fn text_writes<T>(bytes: spec_fn(T) -> Option<Seq<u8>>, texts: Seq<TextSpec<T>>) -> Seq<TextWrite> {
    texts.map_values(|t: TextSpec<T>| (t.byte_offset, bytes(t.text)->0))
}

} // verus!
