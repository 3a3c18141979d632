//! `IngameFace`: the appearance block's byte-22-to-end run, carried verbatim
//! as opaque bytes with typed accessors for the known bits.
use vstd::prelude::*;

use crate::codec::bits::{
    data_bit, fits, is_patched, law_read_after_write, lemma_run_value_facts,
    patch, pow2_32, read_bits, run_value, value_bit, write_bits,
};
use crate::codec::{CodecError, FieldName};
use crate::schema::FieldSpec;

verus! {

/// A field of the ingame-face run.
#[derive(Debug, Clone, Copy, PartialEq, Eq, Hash, Structural)]
pub enum IngameFaceField {
    /// The player-gloves checkbox.
    PlayerGloves,
    /// The player-gloves colour.
    PlayerGlovesColor,
    /// The skin colour (7 is the custom skin).
    SkinColor,
}

impl IngameFaceField {
    /// Every known field.
    pub const ALL: [IngameFaceField; 3] = [
        IngameFaceField::PlayerGloves,
        IngameFaceField::PlayerGlovesColor,
        IngameFaceField::SkinColor,
    ];
}

/// Where a field sits inside the run: its first bit and its width.
pub open spec fn face_field_spec(field: IngameFaceField) -> FieldSpec<IngameFaceField> {
    match field {
        IngameFaceField::PlayerGloves => FieldSpec { field, bit_offset: 0, bit_width: 1 },
        IngameFaceField::PlayerGlovesColor => FieldSpec { field, bit_offset: 1, bit_width: 3 },
        IngameFaceField::SkinColor => FieldSpec { field, bit_offset: 184, bit_width: 3 },
    }
}

/// The `FieldSpec` row of `field`.
pub fn spec(field: IngameFaceField) -> (s: FieldSpec<IngameFaceField>)
    ensures
        s == face_field_spec(field),
{
    match field {
        IngameFaceField::PlayerGloves => FieldSpec { field, bit_offset: 0, bit_width: 1 },
        IngameFaceField::PlayerGlovesColor => FieldSpec { field, bit_offset: 1, bit_width: 3 },
        IngameFaceField::SkinColor => FieldSpec { field, bit_offset: 184, bit_width: 3 },
    }
}

/// The ingame-face run (50 bytes, 46 on PES 15). `Default` is empty: a fresh
/// entry has no run until one is read.
#[derive(Debug, Clone, PartialEq)]
pub struct IngameFace(Vec<u8>);

impl View for IngameFace {
    type V = Seq<u8>;

    closed spec fn view(&self) -> Seq<u8> {
        self.0@
    }
}

/// Whether a run of `len` bytes reaches the field's last bit.
pub open spec fn face_covers(len: nat, field: IngameFaceField) -> bool {
    let s = face_field_spec(field);
    (s.bit_offset + s.bit_width + 7) / 8 <= len
}

/// `data` with each listed field's bits zeroed, where the run reaches it.
pub open spec fn masked_spec(data: Seq<u8>, fields: Seq<IngameFaceField>) -> Seq<u8>
    decreases fields.len(),
{
    if fields.len() == 0 {
        data
    } else {
        let prev = masked_spec(data, fields.drop_last());
        let f = fields.last();
        if face_covers(data.len(), f) {
            let s = face_field_spec(f);
            patch(prev, s.bit_offset as int, s.bit_width, 0)
        } else {
            prev
        }
    }
}

/// Bit `k` of a run lies inside a listed field the run reaches.
pub open spec fn in_masked_field(len: nat, fields: Seq<IngameFaceField>, k: int) -> bool {
    exists|i: int|
        0 <= i < fields.len() && face_covers(len, #[trigger] fields[i]) && face_field_spec(fields[i]).bit_offset
            <= k < face_field_spec(fields[i]).bit_offset + face_field_spec(fields[i]).bit_width
}

/// The fields the fingerprint masks: the player-gloves bits and the skin.
pub open spec fn normalized_fields() -> Seq<IngameFaceField> {
    seq![IngameFaceField::PlayerGloves, IngameFaceField::PlayerGlovesColor, IngameFaceField::SkinColor]
}

impl Default for IngameFace {
    fn default() -> (r: Self)
        ensures
            r@.len() == 0,
    {
        IngameFace(Vec::new())
    }
}

impl IngameFace {
    /// Whether the run's bytes reach the field's last bit.
    fn covers(&self, s: FieldSpec<IngameFaceField>) -> (b: bool)
        requires
            s == face_field_spec(s.field),
        ensures
            b == face_covers(self@.len(), s.field),
    {
        ((s.bit_offset + s.bit_width + 7) / 8) as usize <= self.0.len()
    }

    /// The field's value inside the run: `CodecError::NoIngameFaceRun` when the
    /// run does not reach the field (an entry never read from a record), an
    /// error, not a silent 0, as for an unset gated field.
    pub fn get(&self, field: IngameFaceField) -> (r: Result<u8, CodecError>)
        ensures
            face_covers(self@.len(), field) ==> r == Ok::<u8, CodecError>(
                run_value(self@, face_field_spec(field).bit_offset as int, face_field_spec(field).bit_width) as u8,
            ),
            !face_covers(self@.len(), field) ==> (r matches Err(CodecError::NoIngameFaceRun { field: text })
                && text@ == field.spec_name()),
    {
        let s = spec(field);
        if !self.covers(s) {
            return Err(CodecError::NoIngameFaceRun { field: field.name() });
        }
        Ok(read_bits(self.0.as_slice(), s.bit_offset, s.bit_width) as u8)
    }

    /// Writes `value` into the field's bits: `CodecError::NoIngameFaceRun` as
    /// for `get`, `ValueTooWide` when the value does not fit the field's bits.
    pub fn set(&mut self, field: IngameFaceField, value: u8) -> (r: Result<(), CodecError>)
        ensures
            !face_covers(old(self)@.len(), field) ==> (r matches Err(CodecError::NoIngameFaceRun { field: text })
                && text@ == field.spec_name()) && final(self)@ == old(self)@,
            face_covers(old(self)@.len(), field) && !fits(value as u32, face_field_spec(field).bit_width) ==> (
            r matches Err(CodecError::ValueTooWide { field: text, value: v, width: w }) && v == value as u32
                && w == face_field_spec(field).bit_width && text@ == field.spec_name())
                && final(self)@ == old(self)@,
            face_covers(old(self)@.len(), field) && fits(value as u32, face_field_spec(field).bit_width)
                ==> r is Ok && final(self)@ == patch(
                old(self)@,
                face_field_spec(field).bit_offset as int,
                face_field_spec(field).bit_width,
                value as u32,
            ) && is_patched(
                old(self)@,
                final(self)@,
                face_field_spec(field).bit_offset as int,
                face_field_spec(field).bit_width,
                value as u32,
            ),
    {
        let s = spec(field);
        if !self.covers(s) {
            return Err(CodecError::NoIngameFaceRun { field: field.name() });
        }
        proof {
            let w = s.bit_width;
            assert((1u32 << w) as int == pow2_32(w)) by (bit_vector)
                requires
                    w <= 3,
            ;
        }
        if (value as u32) >= (1u32 << s.bit_width) {
            return Err(CodecError::ValueTooWide { field: field.name(), value: value as u32, width: s.bit_width });
        }
        write_bits(self.0.as_mut_slice(), s.bit_offset, s.bit_width, value as u32);
        Ok(())
    }

    /// The run's bytes.
    pub fn bytes(&self) -> (r: &[u8])
        ensures
            r@ == self@,
    {
        self.0.as_slice()
    }

    /// The run with `fields`' bits zeroed.
    fn masked(&self, fields: &[IngameFaceField]) -> (out: Vec<u8>)
        ensures
            out@ == masked_spec(self@, fields@),
            out@.len() == self@.len(),
            forall|k: int|
                0 <= k < 8 * self@.len() ==> #[trigger] data_bit(out@, k) == if in_masked_field(
                    self@.len(),
                    fields@,
                    k,
                ) {
                    false
                } else {
                    data_bit(self@, k)
                },
    {
        let mut out = vstd::slice::slice_to_vec(self.0.as_slice());
        let mut i: usize = 0;
        while i < fields.len()
            invariant
                i <= fields@.len(),
                out@.len() == self@.len(),
                out@ == masked_spec(self@, fields@.take(i as int)),
                forall|k: int|
                    0 <= k < 8 * self@.len() ==> #[trigger] data_bit(out@, k) == if in_masked_field(
                        self@.len(),
                        fields@.take(i as int),
                        k,
                    ) {
                        false
                    } else {
                        data_bit(self@, k)
                    },
            decreases fields@.len() - i,
        {
            let f = fields[i];
            let s = spec(f);
            let ghost before = out@;
            proof {
                let t = fields@.take(i + 1);
                assert(t.drop_last() =~= fields@.take(i as int));
                assert(t.last() == f);
            }
            if self.covers(s) {
                proof {
                    let w = s.bit_width;
                    assert(0 < (1u64 << w)) by (bit_vector)
                        requires
                            w <= 3,
                    ;
                }
                write_bits(out.as_mut_slice(), s.bit_offset, s.bit_width, 0);
                proof {
                    assert forall|k: int| 0 <= k < 8 * self@.len() implies #[trigger] data_bit(out@, k) == if in_masked_field(
                        self@.len(),
                        fields@.take(i + 1),
                        k,
                    ) {
                        false
                    } else {
                        data_bit(self@, k)
                    } by {
                        let t = fields@.take(i + 1);
                        if s.bit_offset <= k < s.bit_offset + s.bit_width {
                            assert(!value_bit(0u32, k - s.bit_offset)) by {
                                let j = (k - s.bit_offset) as u32;
                                assert((0u32 >> j) & 1u32 == 0u32) by (bit_vector);
                            }
                            assert(t[i as int] == f);
                        } else {
                            if in_masked_field(self@.len(), t, k) {
                                let w = choose|w: int|
                                    0 <= w < t.len() && face_covers(self@.len(), #[trigger] t[w])
                                        && face_field_spec(t[w]).bit_offset <= k < face_field_spec(t[w]).bit_offset
                                        + face_field_spec(t[w]).bit_width;
                                assert(w != i);
                                assert(fields@.take(i as int)[w] == t[w]);
                            }
                            if in_masked_field(self@.len(), fields@.take(i as int), k) {
                                let w = choose|w: int|
                                    0 <= w < i && face_covers(self@.len(), #[trigger] fields@.take(i as int)[w])
                                        && face_field_spec(fields@.take(i as int)[w]).bit_offset <= k
                                        < face_field_spec(fields@.take(i as int)[w]).bit_offset + face_field_spec(
                                        fields@.take(i as int)[w],
                                    ).bit_width;
                                assert(t[w] == fields@.take(i as int)[w]);
                            }
                        }
                    }
                }
            } else {
                proof {
                    assert forall|k: int| 0 <= k < 8 * self@.len() implies #[trigger] data_bit(out@, k) == if in_masked_field(
                        self@.len(),
                        fields@.take(i + 1),
                        k,
                    ) {
                        false
                    } else {
                        data_bit(self@, k)
                    } by {
                        let t = fields@.take(i + 1);
                        if in_masked_field(self@.len(), t, k) {
                            let w = choose|w: int|
                                0 <= w < t.len() && face_covers(self@.len(), #[trigger] t[w])
                                    && face_field_spec(t[w]).bit_offset <= k < face_field_spec(t[w]).bit_offset
                                    + face_field_spec(t[w]).bit_width;
                            assert(w != i);
                            assert(fields@.take(i as int)[w] == t[w]);
                        }
                        if in_masked_field(self@.len(), fields@.take(i as int), k) {
                            let w = choose|w: int|
                                0 <= w < i && face_covers(self@.len(), #[trigger] fields@.take(i as int)[w])
                                    && face_field_spec(fields@.take(i as int)[w]).bit_offset <= k
                                    < face_field_spec(fields@.take(i as int)[w]).bit_offset + face_field_spec(
                                    fields@.take(i as int)[w],
                                ).bit_width;
                            assert(t[w] == fields@.take(i as int)[w]);
                        }
                    }
                }
            }
            i = i + 1;
        }
        proof {
            assert(fields@.take(fields@.len() as int) =~= fields@);
        }
        out
    }

    /// The run with the player-gloves and skin bits zeroed: what the
    /// fingerprint hashes (they overlap fields listed separately).
    pub fn normalized(&self) -> (out: Vec<u8>)
        ensures
            out@ == masked_spec(self@, normalized_fields()),
            out@.len() == self@.len(),
            forall|k: int|
                0 <= k < 8 * self@.len() ==> #[trigger] data_bit(out@, k) == if in_masked_field(
                    self@.len(),
                    normalized_fields(),
                    k,
                ) {
                    false
                } else {
                    data_bit(self@, k)
                },
    {
        let fields = [IngameFaceField::PlayerGloves, IngameFaceField::PlayerGlovesColor, IngameFaceField::SkinColor];
        let out = self.masked(vstd::array::array_as_slice(&fields));
        proof {
            assert(fields@ =~= normalized_fields());
        }
        out
    }

    /// The run with every known field's bits zeroed: the part of the run no
    /// `IngameFaceField` names.
    pub fn undecoded(&self) -> (out: Vec<u8>)
        ensures
            out@ == masked_spec(self@, IngameFaceField::ALL@),
    {
        let fields = IngameFaceField::ALL;
        self.masked(vstd::array::array_as_slice(&fields))
    }

    /// Copies `source`'s bytes over this run's prefix (`min` of the two
    /// lengths) and returns how many source bytes did not fit: 0 unless the
    /// target run is shorter (a 50-byte source onto PES 15's 46 returns 4).
    pub fn copy_from(&mut self, source: &IngameFace) -> (dropped: usize)
        ensures
            ({
                let n = if old(self)@.len() < source@.len() { old(self)@.len() } else { source@.len() };
                &&& final(self)@ == source@.take(n as int) + old(self)@.skip(n as int)
                &&& dropped == source@.len() - n
            }),
    {
        let n = if self.0.len() < source.0.len() {
            self.0.len()
        } else {
            source.0.len()
        };
        let mut k: usize = 0;
        while k < n
            invariant
                k <= n,
                n <= self.0@.len(),
                n <= source.0@.len(),
                self.0@.len() == old(self).0@.len(),
                forall|t: int| 0 <= t < k ==> self.0@[t] == source.0@[t],
                forall|t: int| k <= t < self.0@.len() ==> self.0@[t] == old(self).0@[t],
            decreases n - k,
        {
            let b = source.0[k];
            self.0.set(k, b);
            k = k + 1;
        }
        assert(self.0@ =~= source.0@.take(n as int) + old(self).0@.skip(n as int));
        source.0.len() - n
    }

    /// A copy of the run.
    pub fn duplicate(&self) -> (r: Self)
        ensures
            r@ == self@,
    {
        let v = self.0.clone();
        assert(v@ =~= self.0@);
        IngameFace(v)
    }

    /// A run around `bytes`, as copied out of a record.
    pub fn from_bytes(bytes: Vec<u8>) -> (face: Self)
        ensures
            face@ == bytes@,
    {
        IngameFace(bytes)
    }
}

/// A run written with a value that fits it reads that value back.
pub proof fn law_get_after_set(before: IngameFace, after: IngameFace, field: IngameFaceField, value: u8)
    requires
        face_covers(before@.len(), field),
        fits(value as u32, face_field_spec(field).bit_width),
        is_patched(
            before@,
            after@,
            face_field_spec(field).bit_offset as int,
            face_field_spec(field).bit_width,
            value as u32,
        ),
    ensures
        face_covers(after@.len(), field),
        run_value(after@, face_field_spec(field).bit_offset as int, face_field_spec(field).bit_width) == value
            as u32,
{
    let s = face_field_spec(field);
    lemma_run_value_facts(after@, s.bit_offset as int, s.bit_width);
    law_read_after_write(
        before@,
        after@,
        s.bit_offset as int,
        s.bit_width,
        value as u32,
        run_value(after@, s.bit_offset as int, s.bit_width),
    );
}

} // verus!
