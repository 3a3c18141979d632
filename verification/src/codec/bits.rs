//! Bit-run reads and writes. Every run is LSB-first little-endian across byte
//! boundaries: field bit `i` is bit `(offset + i) % 8` of byte `(offset + i) / 8`.
//! A run is at most 32 bits, so a little-endian window of eight bytes covers it.
use vstd::prelude::*;

verus! {

/// Bit `k` of `data`, counting LSB-first through the bytes; bits past the
/// end of `data` read as clear.
pub open spec fn data_bit(data: Seq<u8>, k: int) -> bool {
    0 <= k && k / 8 < data.len() && (data[k / 8] >> ((k % 8) as u8)) & 1u8 == 1u8
}

/// Bit `i` (0 to 31) of a 32-bit value.
pub open spec fn value_bit(v: u32, i: int) -> bool {
    (v >> (i as u32)) & 1u32 == 1u32
}

/// `v` fits a run of `width` bits.
pub open spec fn fits(v: u32, width: u32) -> bool {
    width >= 32 || (v as int) < pow2_32(width)
}

/// `2^w` for a run width under 32.
pub open spec fn pow2_32(w: u32) -> int {
    (1u64 << w) as int
}

/// The value a run holds: bit `i` of the result is bit `bit_offset + i` of
/// `data` for `i < width`, and clear from `width` on.
pub open spec fn is_run_value(data: Seq<u8>, bit_offset: int, width: u32, r: u32) -> bool {
    forall|i: int| 0 <= i < 32 ==> #[trigger] value_bit(r, i) == (i < width && data_bit(data, bit_offset + i))
}

/// `after` is `before` with the `width`-bit run at `bit_offset` holding
/// `value`'s low bits (bits of the run past the end are dropped) and every
/// other bit kept.
pub open spec fn is_patched(before: Seq<u8>, after: Seq<u8>, bit_offset: int, width: u32, value: u32) -> bool {
    &&& after.len() == before.len()
    &&& forall|k: int| #![trigger data_bit(after, k)]
        0 <= k < 8 * before.len() ==> data_bit(after, k) == if bit_offset <= k < bit_offset + width {
            value_bit(value, k - bit_offset)
        } else {
            data_bit(before, k)
        }
}

/// Two 32-bit values with the same bits are equal.
pub proof fn lemma_same_bits_same_value(a: u32, b: u32)
    requires
        forall|i: int| 0 <= i < 32 ==> #[trigger] value_bit(a, i) == value_bit(b, i),
    ensures
        a == b,
{
    assert(value_bit(a, 0) == value_bit(b, 0));
    assert(value_bit(a, 1) == value_bit(b, 1));
    assert(value_bit(a, 2) == value_bit(b, 2));
    assert(value_bit(a, 3) == value_bit(b, 3));
    assert(value_bit(a, 4) == value_bit(b, 4));
    assert(value_bit(a, 5) == value_bit(b, 5));
    assert(value_bit(a, 6) == value_bit(b, 6));
    assert(value_bit(a, 7) == value_bit(b, 7));
    assert(value_bit(a, 8) == value_bit(b, 8));
    assert(value_bit(a, 9) == value_bit(b, 9));
    assert(value_bit(a, 10) == value_bit(b, 10));
    assert(value_bit(a, 11) == value_bit(b, 11));
    assert(value_bit(a, 12) == value_bit(b, 12));
    assert(value_bit(a, 13) == value_bit(b, 13));
    assert(value_bit(a, 14) == value_bit(b, 14));
    assert(value_bit(a, 15) == value_bit(b, 15));
    assert(value_bit(a, 16) == value_bit(b, 16));
    assert(value_bit(a, 17) == value_bit(b, 17));
    assert(value_bit(a, 18) == value_bit(b, 18));
    assert(value_bit(a, 19) == value_bit(b, 19));
    assert(value_bit(a, 20) == value_bit(b, 20));
    assert(value_bit(a, 21) == value_bit(b, 21));
    assert(value_bit(a, 22) == value_bit(b, 22));
    assert(value_bit(a, 23) == value_bit(b, 23));
    assert(value_bit(a, 24) == value_bit(b, 24));
    assert(value_bit(a, 25) == value_bit(b, 25));
    assert(value_bit(a, 26) == value_bit(b, 26));
    assert(value_bit(a, 27) == value_bit(b, 27));
    assert(value_bit(a, 28) == value_bit(b, 28));
    assert(value_bit(a, 29) == value_bit(b, 29));
    assert(value_bit(a, 30) == value_bit(b, 30));
    assert(value_bit(a, 31) == value_bit(b, 31));
    assert(a == b) by (bit_vector)
        requires
            ((a >> 0u32) & 1 == 1) == ((b >> 0u32) & 1 == 1),
            ((a >> 1u32) & 1 == 1) == ((b >> 1u32) & 1 == 1),
            ((a >> 2u32) & 1 == 1) == ((b >> 2u32) & 1 == 1),
            ((a >> 3u32) & 1 == 1) == ((b >> 3u32) & 1 == 1),
            ((a >> 4u32) & 1 == 1) == ((b >> 4u32) & 1 == 1),
            ((a >> 5u32) & 1 == 1) == ((b >> 5u32) & 1 == 1),
            ((a >> 6u32) & 1 == 1) == ((b >> 6u32) & 1 == 1),
            ((a >> 7u32) & 1 == 1) == ((b >> 7u32) & 1 == 1),
            ((a >> 8u32) & 1 == 1) == ((b >> 8u32) & 1 == 1),
            ((a >> 9u32) & 1 == 1) == ((b >> 9u32) & 1 == 1),
            ((a >> 10u32) & 1 == 1) == ((b >> 10u32) & 1 == 1),
            ((a >> 11u32) & 1 == 1) == ((b >> 11u32) & 1 == 1),
            ((a >> 12u32) & 1 == 1) == ((b >> 12u32) & 1 == 1),
            ((a >> 13u32) & 1 == 1) == ((b >> 13u32) & 1 == 1),
            ((a >> 14u32) & 1 == 1) == ((b >> 14u32) & 1 == 1),
            ((a >> 15u32) & 1 == 1) == ((b >> 15u32) & 1 == 1),
            ((a >> 16u32) & 1 == 1) == ((b >> 16u32) & 1 == 1),
            ((a >> 17u32) & 1 == 1) == ((b >> 17u32) & 1 == 1),
            ((a >> 18u32) & 1 == 1) == ((b >> 18u32) & 1 == 1),
            ((a >> 19u32) & 1 == 1) == ((b >> 19u32) & 1 == 1),
            ((a >> 20u32) & 1 == 1) == ((b >> 20u32) & 1 == 1),
            ((a >> 21u32) & 1 == 1) == ((b >> 21u32) & 1 == 1),
            ((a >> 22u32) & 1 == 1) == ((b >> 22u32) & 1 == 1),
            ((a >> 23u32) & 1 == 1) == ((b >> 23u32) & 1 == 1),
            ((a >> 24u32) & 1 == 1) == ((b >> 24u32) & 1 == 1),
            ((a >> 25u32) & 1 == 1) == ((b >> 25u32) & 1 == 1),
            ((a >> 26u32) & 1 == 1) == ((b >> 26u32) & 1 == 1),
            ((a >> 27u32) & 1 == 1) == ((b >> 27u32) & 1 == 1),
            ((a >> 28u32) & 1 == 1) == ((b >> 28u32) & 1 == 1),
            ((a >> 29u32) & 1 == 1) == ((b >> 29u32) & 1 == 1),
            ((a >> 30u32) & 1 == 1) == ((b >> 30u32) & 1 == 1),
            ((a >> 31u32) & 1 == 1) == ((b >> 31u32) & 1 == 1),
    ;
}

/// A value that fits `width` bits has no bit set from `width` on.
pub proof fn lemma_fits_high_bits_clear(v: u32, width: u32, i: int)
    requires
        fits(v, width),
        width <= i < 32,
    ensures
        !value_bit(v, i),
{
    let iu = i as u32;
    assert(width < 32);
    assert((v >> iu) & 1u32 == 0u32) by (bit_vector)
        requires
            width < 32,
            width <= iu < 32,
            (v as u64) < (1u64 << width),
    ;
}

/// The `width` low bits set.
fn mask(width: u32) -> (m: u64)
    ensures
        width >= 32 ==> m == 0xffff_ffffu64,
        width < 32 ==> m == (1u64 << width) - 1,
{
    if width >= 32 {
        0xffff_ffffu64
    } else {
        assert(1u64 << width >= 1) by (bit_vector)
            requires
                width < 32,
        ;
        (1u64 << width) - 1
    }
}

/// Bit `8 * j + t` of a little-endian window is bit `t` of its byte `j`.
pub open spec fn window_holds(w: u64, data: Seq<u8>, start: int, n: int) -> bool {
    &&& forall|p: u64| #![trigger (w >> p)]
        p < 64 && (p / 8) < n ==> (w >> p) & 1 == ((data[start + (p / 8)] >> ((p % 8) as u8)) & 1u8) as u64
    &&& forall|p: u64| #![trigger (w >> p)] p < 64 && (p / 8) >= n ==> (w >> p) & 1 == 0
}

proof fn lemma_or_byte_bit(w: u64, b: u8, i: u64, p: u64)
    by (bit_vector)
    requires
        i < 8,
        p < 64,
        p >= 8 * i ==> (w >> p) & 1 == 0,
    ensures
        p < 8 * i ==> ((w | ((b as u64) << (8 * i))) >> p) & 1 == (w >> p) & 1,
        8 * i <= p < 8 * i + 8 ==> ((w | ((b as u64) << (8 * i))) >> p) & 1 == ((b >> ((p - 8 * i) as u8)) & 1u8) as u64,
        p >= 8 * i + 8 ==> ((w | ((b as u64) << (8 * i))) >> p) & 1 == 0,
{
}

/// The record's bytes at `byte_offset` onward (at most eight) as a
/// little-endian u64 window.
fn window(data: &[u8], byte_offset: usize) -> (w: u64)
    requires
        byte_offset <= data.len(),
    ensures
        window_holds(w, data@, byte_offset as int, if data.len() - byte_offset < 8 { data.len() - byte_offset } else { 8 }),
{
    let n: usize = if data.len() - byte_offset < 8 { data.len() - byte_offset } else { 8 };
    let mut w: u64 = 0;
    let mut i: usize = 0;
    assert forall|p: u64| #![trigger (w >> p)] p < 64 implies (w >> p) & 1 == 0 by {
        assert((0u64 >> p) & 1 == 0) by (bit_vector);
    }
    while i < n
        invariant
            n <= 8,
            byte_offset + n <= data.len(),
            i <= n,
            forall|p: u64| #![trigger (w >> p)]
                p < 64 && (p / 8) < i ==> (w >> p) & 1 == ((data@[byte_offset + (p / 8)] >> ((p % 8) as u8)) & 1u8) as u64,
            forall|p: u64| #![trigger (w >> p)] p < 64 && p >= 8 * i ==> (w >> p) & 1 == 0,
        decreases n - i,
    {
        let b = data[byte_offset + i];
        let ghost old_w = w;
        w = w | ((b as u64) << (8 * i as u64));
        assert forall|p: u64| #![trigger (w >> p)] p < 64 implies {
            &&& p < 8 * (i as u64) ==> (w >> p) & 1 == (old_w >> p) & 1
            &&& 8 * (i as u64) <= p < 8 * (i as u64) + 8 ==> (w >> p) & 1 == ((b >> ((p - 8 * (i as u64)) as u8)) & 1u8) as u64
            &&& p >= 8 * (i as u64) + 8 ==> (w >> p) & 1 == 0
        } by {
            assert(p >= 8 * (i as u64) ==> (old_w >> p) & 1 == 0);
            lemma_or_byte_bit(old_w, b, i as u64, p);
        }
        assert forall|p: u64| #![trigger (w >> p)]
            p < 64 && (p / 8) < i + 1 implies (w >> p) & 1 == ((data@[byte_offset + (p / 8)] >> ((p % 8) as u8)) & 1u8) as u64 by {
            if p / 8 < i {
                assert(p < 8 * i);
                assert((old_w >> p) & 1 == ((data@[byte_offset + (p / 8)] >> ((p % 8) as u8)) & 1u8) as u64);
            } else {
                assert(p / 8 == i);
                assert(8 * (i as u64) <= p < 8 * (i as u64) + 8);
                assert((p - 8 * (i as u64)) as u8 == (p % 8) as u8);
            }
        }
        i = i + 1;
    }
    w
}

/// The `width`-bit run at `bit_offset`, LSB-first.
pub fn read_bits(data: &[u8], bit_offset: u32, width: u32) -> (r: u32)
    requires
        width <= 32,
        bit_offset / 8 <= data.len(),
    ensures
        is_run_value(data@, bit_offset as int, width, r),
        r == run_value(data@, bit_offset as int, width),
        fits(r, width),
{
    let shift = bit_offset % 8;
    let byte = (bit_offset / 8) as usize;
    let w = window(data, byte);
    let n: usize = if data.len() - byte < 8 { data.len() - byte } else { 8 };
    let m = mask(width);
    let x = (w >> (shift as u64)) & m;
    assert(x <= 0xffff_ffffu64) by (bit_vector)
        requires
            width >= 32 ==> m == 0xffff_ffffu64,
            width < 32 ==> m == (1u64 << width) - 1,
            x == (w >> (shift as u64)) & m,
    ;
    let r = x as u32;
    assert forall|i: int| 0 <= i < 32 implies #[trigger] value_bit(r, i) == (i < width && data_bit(data@, bit_offset + i)) by {
        let iu = i as u32;
        let p: u64 = (shift + iu) as u64;
        let s64: u64 = shift as u64;
        assert(p < 64);
        assert((r >> iu) & 1u32 == (if iu < width { ((w >> p) & 1) as u32 } else { 0u32 })) by (bit_vector)
            requires
                shift < 8,
                iu < 32,
                p == s64 + (iu as u64),
                s64 == shift as u64,
                width <= 32,
                width >= 32 ==> m == 0xffff_ffffu64,
                width < 32 ==> m == (1u64 << width) - 1,
                x == (w >> s64) & m,
                r == x as u32,
        ;
        if iu < width {
            let k = bit_offset + i;
            assert(k / 8 == byte + p / 8);
            assert(k % 8 == p % 8);
            if (p / 8) < n {
                assert((w >> p) & 1 == ((data@[byte + (p / 8)] >> ((p % 8) as u8)) & 1u8) as u64);
                let bb: u8 = data@[byte + (p / 8)];
                let t: u8 = (p % 8) as u8;
                assert((bb >> t) & 1u8 <= 1) by (bit_vector);
            } else {
                assert((w >> p) & 1 == 0);
                assert(byte + p / 8 >= data.len());
            }
        }
    }
    proof {
        lemma_run_value_unique(data@, bit_offset as int, width, r);
        if width < 32 {
            assert((r as int) < pow2_32(width)) by {
                assert((x as u64) < (1u64 << width)) by (bit_vector)
                    requires
                        width < 32,
                        m == (1u64 << width) - 1,
                        x == (w >> (shift as u64)) & m,
                ;
            }
        }
    }
    r
}

proof fn lemma_patch_window_bit(w: u64, m: u64, shift: u32, width: u32, value: u32, p: u64)
    by (bit_vector)
    requires
        shift < 8,
        width <= 32,
        p < 64,
        width >= 32 ==> m == 0xffff_ffffu64,
        width < 32 ==> m == (1u64 << width) - 1,
        width < 32 ==> (value as u64) < (1u64 << width),
    ensures
        ((shift as u64) <= p && p < (shift as u64) + (width as u64)) ==> ((((w & !(m << (shift as u64))) | ((value as u64) << (shift as u64))) >> p) & 1) == ((value >> ((p - (shift as u64)) as u32)) & 1u32) as u64,
        !((shift as u64) <= p && p < (shift as u64) + (width as u64)) ==> ((((w & !(m << (shift as u64))) | ((value as u64) << (shift as u64))) >> p) & 1) == (w >> p) & 1,
{
}

proof fn lemma_byte_of_window(x: u64, j: u64, t: u64)
    by (bit_vector)
    requires
        j < 8,
        t < 8,
    ensures
        (((x >> (8 * j)) as u8 >> (t as u8)) & 1u8) as u64 == (x >> (8 * j + t)) & 1,
{
}

/// Patches `value` into the `width`-bit run at `bit_offset`, LSB-first. Every
/// bit outside the run keeps its value; `value` must already fit `width`.
pub fn write_bits(data: &mut [u8], bit_offset: u32, width: u32, value: u32)
    requires
        width <= 32,
        bit_offset / 8 <= old(data).len(),
        fits(value, width),
    ensures
        is_patched(old(data)@, final(data)@, bit_offset as int, width, value),
        final(data)@ == patch(old(data)@, bit_offset as int, width, value),
{
    let byte = (bit_offset / 8) as usize;
    let take: usize = if data.len() - byte < 8 { data.len() - byte } else { 8 };
    let shift = bit_offset % 8;
    let m = mask(width);
    let w0 = window(data, byte);
    let w = (w0 & !(m << (shift as u64))) | ((value as u64) << (shift as u64));
    proof {
        if width < 32 {
            assert((value as u64) < (1u64 << width));
        }
    }
    assert forall|p: u64| #![trigger (w >> p)] p < 64 implies {
        &&& ((shift as u64) <= p && p < (shift as u64) + (width as u64)) ==> (w >> p) & 1 == ((value >> ((p - (shift as u64)) as u32)) & 1u32) as u64
        &&& !((shift as u64) <= p && p < (shift as u64) + (width as u64)) ==> (w >> p) & 1 == (w0 >> p) & 1
    } by {
        lemma_patch_window_bit(w0, m, shift, width, value, p);
    }
    let ghost before = data@;
    let mut i: usize = 0;
    while i < take
        invariant
            take <= 8,
            byte + take <= data.len(),
            data@.len() == before.len(),
            i <= take,
            forall|q: int| 0 <= q < data@.len() && (q < byte || q >= byte + i) ==> data@[q] == before[q],
            forall|j: int| 0 <= j < i ==> #[trigger] data@[byte + j] == (w >> ((8 * j) as u64)) as u8,
        decreases take - i,
    {
        data[byte + i] = (w >> (8 * i as u64)) as u8;
        i = i + 1;
    }
    assert forall|k: int| #![trigger data_bit(data@, k)] 0 <= k < 8 * before.len() implies data_bit(data@, k) == if bit_offset <= k < bit_offset + width {
        value_bit(value, k - bit_offset)
    } else {
        data_bit(before, k)
    } by {
        let q = k / 8;
        let t = k % 8;
        if byte <= q < byte + take {
            let j = q - byte;
            let p: u64 = (8 * j + t) as u64;
            lemma_byte_of_window(w, j as u64, t as u64);
            assert(data@[byte + j] == (w >> ((8 * j) as u64)) as u8);
            if (shift as u64) <= p && p < (shift as u64) + (width as u64) {
                assert(bit_offset <= k < bit_offset + width);
                assert((p - (shift as u64)) as u32 == (k - bit_offset) as u32);
            } else {
                assert(!(bit_offset <= k < bit_offset + width));
                assert((w0 >> p) & 1 == ((before[byte + (p / 8)] >> ((p % 8) as u8)) & 1u8) as u64);
                assert(p / 8 == j);
                assert(p % 8 == t);
                let bb: u8 = before[q];
                let tt: u8 = t as u8;
                assert((bb >> tt) & 1u8 <= 1) by (bit_vector);
            }
        } else {
            assert(data@[q] == before[q]);
            assert(!(bit_offset <= k < bit_offset + width));
        }
    }
    proof {
        lemma_patch_unique(before, data@, bit_offset as int, width, value);
    }
}

/// A run read right after `value` was written into it holds `value`, when
/// the whole run lies inside the data.
pub proof fn law_read_after_write(before: Seq<u8>, after: Seq<u8>, bit_offset: int, width: u32, value: u32, read: u32)
    requires
        width <= 32,
        0 <= bit_offset,
        bit_offset + width <= 8 * before.len(),
        fits(value, width),
        is_patched(before, after, bit_offset, width, value),
        is_run_value(after, bit_offset, width, read),
    ensures
        read == value,
{
    assert forall|i: int| 0 <= i < 32 implies #[trigger] value_bit(read, i) == value_bit(value, i) by {
        if i < width {
            assert(data_bit(after, bit_offset + i) == value_bit(value, i));
        } else {
            lemma_fits_high_bits_clear(value, width, i);
        }
    }
    lemma_same_bits_same_value(read, value);
}

/// Writing one run leaves the value of every run that does not overlap it
/// unchanged.
pub proof fn law_write_keeps_other_runs(
    before: Seq<u8>,
    after: Seq<u8>,
    bit_offset: int,
    width: u32,
    value: u32,
    other_offset: int,
    other_width: u32,
    read_before: u32,
    read_after: u32,
)
    requires
        is_patched(before, after, bit_offset, width, value),
        0 <= other_offset,
        other_offset + other_width <= bit_offset || bit_offset + width <= other_offset,
        is_run_value(before, other_offset, other_width, read_before),
        is_run_value(after, other_offset, other_width, read_after),
    ensures
        read_before == read_after,
{
    assert forall|i: int| 0 <= i < 32 implies #[trigger] value_bit(read_before, i) == value_bit(read_after, i) by {
        if i < other_width {
            let k = other_offset + i;
            if k < 8 * before.len() {
                assert(data_bit(after, k) == data_bit(before, k));
            } else {
                assert(!data_bit(after, k));
                assert(!data_bit(before, k));
            }
        }
    }
    lemma_same_bits_same_value(read_before, read_after);
}

/// The value the `width`-bit run at `bit_offset` of `data` holds.
pub open spec fn run_value(data: Seq<u8>, bit_offset: int, width: u32) -> u32 {
    choose|r: u32| is_run_value(data, bit_offset, width, r)
}

/// `data` with the `width`-bit run at `bit_offset` holding `value`.
pub open spec fn patch(data: Seq<u8>, bit_offset: int, width: u32, value: u32) -> Seq<u8> {
    choose|s: Seq<u8>| is_patched(data, s, bit_offset, width, value)
}

/// A run has exactly one value.
pub proof fn lemma_run_value_unique(data: Seq<u8>, bit_offset: int, width: u32, r: u32)
    requires
        is_run_value(data, bit_offset, width, r),
    ensures
        r == run_value(data, bit_offset, width),
{
    let c = run_value(data, bit_offset, width);
    assert(is_run_value(data, bit_offset, width, c));
    assert forall|i: int| 0 <= i < 32 implies #[trigger] value_bit(r, i) == value_bit(c, i) by {
        assert(value_bit(r, i) == (i < width && data_bit(data, bit_offset + i)));
        assert(value_bit(c, i) == (i < width && data_bit(data, bit_offset + i)));
    }
    lemma_same_bits_same_value(r, c);
}

/// Two bytes with the same eight bits are equal.
proof fn lemma_same_byte_bits(a: u8, b: u8)
    requires
        forall|t: u8| #![trigger (a >> t)] t < 8 ==> ((a >> t) & 1u8 == 1u8) == ((b >> t) & 1u8 == 1u8),
    ensures
        a == b,
{
    assert(((a >> 0u8) & 1u8 == 1u8) == ((b >> 0u8) & 1u8 == 1u8));
    assert(((a >> 1u8) & 1u8 == 1u8) == ((b >> 1u8) & 1u8 == 1u8));
    assert(((a >> 2u8) & 1u8 == 1u8) == ((b >> 2u8) & 1u8 == 1u8));
    assert(((a >> 3u8) & 1u8 == 1u8) == ((b >> 3u8) & 1u8 == 1u8));
    assert(((a >> 4u8) & 1u8 == 1u8) == ((b >> 4u8) & 1u8 == 1u8));
    assert(((a >> 5u8) & 1u8 == 1u8) == ((b >> 5u8) & 1u8 == 1u8));
    assert(((a >> 6u8) & 1u8 == 1u8) == ((b >> 6u8) & 1u8 == 1u8));
    assert(((a >> 7u8) & 1u8 == 1u8) == ((b >> 7u8) & 1u8 == 1u8));
    assert(a == b) by (bit_vector)
        requires
            ((a >> 0u8) & 1u8 == 1u8) == ((b >> 0u8) & 1u8 == 1u8),
            ((a >> 1u8) & 1u8 == 1u8) == ((b >> 1u8) & 1u8 == 1u8),
            ((a >> 2u8) & 1u8 == 1u8) == ((b >> 2u8) & 1u8 == 1u8),
            ((a >> 3u8) & 1u8 == 1u8) == ((b >> 3u8) & 1u8 == 1u8),
            ((a >> 4u8) & 1u8 == 1u8) == ((b >> 4u8) & 1u8 == 1u8),
            ((a >> 5u8) & 1u8 == 1u8) == ((b >> 5u8) & 1u8 == 1u8),
            ((a >> 6u8) & 1u8 == 1u8) == ((b >> 6u8) & 1u8 == 1u8),
            ((a >> 7u8) & 1u8 == 1u8) == ((b >> 7u8) & 1u8 == 1u8),
    ;
}

/// Two byte sequences of one length with the same bits are equal.
pub proof fn lemma_same_data_bits(a: Seq<u8>, b: Seq<u8>)
    requires
        a.len() == b.len(),
        forall|k: int| 0 <= k < 8 * a.len() ==> #[trigger] data_bit(a, k) == data_bit(b, k),
    ensures
        a == b,
{
    assert forall|q: int| 0 <= q < a.len() implies a[q] == b[q] by {
        let x = a[q];
        let y = b[q];
        assert forall|t: u8| #![trigger (x >> t)] t < 8 implies ((x >> t) & 1u8 == 1u8) == ((y >> t) & 1u8 == 1u8) by {
            let k = 8 * q + t;
            assert(data_bit(a, k) == data_bit(b, k));
            assert(k / 8 == q);
            assert(k % 8 == t);
        }
        lemma_same_byte_bits(x, y);
    }
    assert(a =~= b);
}

/// A patch is unique.
pub proof fn lemma_patch_unique(data: Seq<u8>, s: Seq<u8>, bit_offset: int, width: u32, value: u32)
    requires
        is_patched(data, s, bit_offset, width, value),
    ensures
        s == patch(data, bit_offset, width, value),
{
    let c = patch(data, bit_offset, width, value);
    assert(is_patched(data, c, bit_offset, width, value));
    assert forall|k: int| 0 <= k < 8 * s.len() implies #[trigger] data_bit(s, k) == data_bit(c, k) by {
        assert(data_bit(s, k) == data_bit(c, k));
    }
    lemma_same_data_bits(s, c);
}

/// Writing back the value a run already holds changes nothing.
pub proof fn lemma_patch_with_own_value(data: Seq<u8>, bit_offset: int, width: u32, r: u32)
    requires
        0 <= bit_offset,
        width <= 32,
        is_run_value(data, bit_offset, width, r),
    ensures
        patch(data, bit_offset, width, r) == data,
{
    assert forall|k: int| #![trigger data_bit(data, k)] 0 <= k < 8 * data.len() implies data_bit(data, k) == if bit_offset <= k < bit_offset + width {
        value_bit(r, k - bit_offset)
    } else {
        data_bit(data, k)
    } by {
        if bit_offset <= k < bit_offset + width {
            assert(value_bit(r, k - bit_offset) == ((k - bit_offset) < width && data_bit(data, bit_offset + (k - bit_offset))));
        }
    }
    lemma_patch_unique(data, data, bit_offset, width, r);
}


/// The value built from the first `i` bits of the run at `bit_offset`.
spec fn run_prefix(data: Seq<u8>, bit_offset: int, i: nat) -> u32
    decreases i,
{
    if i == 0 {
        0
    } else {
        let r = run_prefix(data, bit_offset, (i - 1) as nat);
        if data_bit(data, bit_offset + i - 1) {
            r | (1u32 << ((i - 1) as u32))
        } else {
            r
        }
    }
}

proof fn lemma_or_bit(r: u32, k: u32, j: u32)
    requires
        k < 32,
        j < 32,
    ensures
        (((r | (1u32 << k)) >> j) & 1u32 == 1u32) == (((r >> j) & 1u32 == 1u32) || j == k),
{
    assert((((r | (1u32 << k)) >> j) & 1u32 == 1u32) == (((r >> j) & 1u32 == 1u32) || j == k))
        by (bit_vector)
        requires
            k < 32,
            j < 32,
    ;
}

proof fn lemma_or_bit_bound(r: u32, k: u32)
    requires
        k < 32,
        (r as u64) < (1u64 << k),
    ensures
        ((r | (1u32 << k)) as u64) < (1u64 << (k + 1) as u64),
{
    assert(((r | (1u32 << k)) as u64) < (1u64 << (k + 1) as u64)) by (bit_vector)
        requires
            k < 32,
            (r as u64) < (1u64 << k),
    ;
}

proof fn lemma_shift_grows(k: u32)
    requires
        k < 32,
    ensures
        (1u64 << k) < (1u64 << (k + 1) as u64),
{
    assert((1u64 << k) < (1u64 << (k + 1) as u64)) by (bit_vector)
        requires
            k < 32,
    ;
}

proof fn lemma_run_prefix(data: Seq<u8>, bit_offset: int, i: nat)
    requires
        i <= 32,
    ensures
        forall|j: int| 0 <= j < 32 ==> #[trigger] value_bit(run_prefix(data, bit_offset, i), j) == (j < i
            && data_bit(data, bit_offset + j)),
        (run_prefix(data, bit_offset, i) as u64) < (1u64 << (i as u64)) || i == 32,
    decreases i,
{
    if i > 0 {
        let k = (i - 1) as u32;
        lemma_run_prefix(data, bit_offset, (i - 1) as nat);
        let r = run_prefix(data, bit_offset, (i - 1) as nat);
        if data_bit(data, bit_offset + i - 1) {
            assert forall|j: int| 0 <= j < 32 implies #[trigger] value_bit(r | (1u32 << k), j) == (j < i
                && data_bit(data, bit_offset + j)) by {
                lemma_or_bit(r, k, j as u32);
                assert(value_bit(r, j) == (j < i - 1 && data_bit(data, bit_offset + j)));
                assert((j as u32 == k) == (j == i - 1));
            }
            if i < 32 {
                lemma_or_bit_bound(r, k);
            }
        } else {
            assert forall|j: int| 0 <= j < 32 implies #[trigger] value_bit(r, j) == (j < i
                && data_bit(data, bit_offset + j)) by {
                assert(value_bit(r, j) == (j < i - 1 && data_bit(data, bit_offset + j)));
            }
            if i < 32 {
                lemma_shift_grows(k);
            }
        }
    } else {
        assert forall|j: int| 0 <= j < 32 implies !#[trigger] value_bit(0u32, j) by {
            let ju = j as u32;
            assert((0u32 >> ju) & 1u32 == 0u32) by (bit_vector);
        }
        assert((0u32 as u64) < (1u64 << 0u64)) by (bit_vector);
    }
}

/// Every run has a value, and that value fits the run's width.
pub proof fn lemma_run_value_facts(data: Seq<u8>, bit_offset: int, width: u32)
    requires
        width <= 32,
    ensures
        is_run_value(data, bit_offset, width, run_value(data, bit_offset, width)),
        fits(run_value(data, bit_offset, width), width),
{
    let r = run_prefix(data, bit_offset, width as nat);
    lemma_run_prefix(data, bit_offset, width as nat);
    assert(is_run_value(data, bit_offset, width, r));
    lemma_run_value_unique(data, bit_offset, width, r);
}

} // verus!
