//! The Mersenne Twister (MT19937) the keyed container's keystream is generated with:
//! the standard `init_by_array` seeding, then the rotation/XOR whitening cascade a
//! section is XORed against.
use vstd::prelude::*;
use vstd::wrapping::u32_specs;

verus! {

/// The MT19937 state size.
pub const N: usize = 624;
/// The twist's middle-word offset.
pub const M: usize = 397;
/// The twist matrix.
pub const MATRIX_A: u32 = 0x9908_b0df;
/// The twist's high/low bit split.
pub const UPPER_MASK: u32 = 0x8000_0000;
pub const LOWER_MASK: u32 = 0x7fff_ffff;

// ----------------------------------------------------------------------------
// The generator, as mathematics.
// ----------------------------------------------------------------------------

/// Word `i` of the state `init_genrand(seed)` builds.
pub open spec fn genrand_word(seed: u32, i: nat) -> u32
    decreases i,
{
    if i == 0 {
        seed
    } else {
        let p = genrand_word(seed, (i - 1) as nat);
        u32_specs::wrapping_add(u32_specs::wrapping_mul(1812433253u32, p ^ (p >> 30u32)), i as u32)
    }
}

/// The state `init_genrand(seed)` builds.
pub open spec fn genrand_state(seed: u32) -> Seq<u32> {
    Seq::new(N as nat, |i: int| genrand_word(seed, i as nat))
}

/// One step of `init_by_array`'s first loop on `(state, i, j)`.
pub open spec fn seed_step(key: Seq<u32>, st: (Seq<u32>, int, int)) -> (Seq<u32>, int, int) {
    let (s, i, j) = st;
    let prev = s[i - 1];
    let v = u32_specs::wrapping_add(
        u32_specs::wrapping_add(s[i] ^ u32_specs::wrapping_mul(prev ^ (prev >> 30u32), 1664525u32), key[j]),
        j as u32,
    );
    let s1 = s.update(i, v);
    let (s2, i2) = if i + 1 >= N { (s1.update(0, s1[N - 1]), 1int) } else { (s1, i + 1) };
    let j2 = if j + 1 >= key.len() { 0int } else { j + 1 };
    (s2, i2, j2)
}

/// `init_by_array`'s first loop after `k` steps.
pub open spec fn seed_phase1(key: Seq<u32>, k: nat) -> (Seq<u32>, int, int)
    decreases k,
{
    if k == 0 {
        (genrand_state(19650218u32), 1int, 0int)
    } else {
        seed_step(key, seed_phase1(key, (k - 1) as nat))
    }
}

/// How many steps `init_by_array`'s first loop takes.
pub open spec fn phase1_steps(key: Seq<u32>) -> nat {
    if key.len() > N { key.len() } else { N as nat }
}

/// One step of `init_by_array`'s second loop on `(state, i)`.
pub open spec fn mix_step(st: (Seq<u32>, int)) -> (Seq<u32>, int) {
    let (s, i) = st;
    let prev = s[i - 1];
    let v = u32_specs::wrapping_sub(s[i] ^ u32_specs::wrapping_mul(prev ^ (prev >> 30u32), 1566083941u32), i as u32);
    let s1 = s.update(i, v);
    if i + 1 >= N { (s1.update(0, s1[N - 1]), 1int) } else { (s1, i + 1) }
}

/// `init_by_array`'s second loop after `k` steps.
pub open spec fn seed_phase2(key: Seq<u32>, k: nat) -> (Seq<u32>, int)
    decreases k,
{
    if k == 0 {
        let p = seed_phase1(key, phase1_steps(key));
        (p.0, p.1)
    } else {
        mix_step(seed_phase2(key, (k - 1) as nat))
    }
}

/// The state `init_by_array(key)` seeds.
pub open spec fn seeded_state(key: Seq<u32>) -> Seq<u32> {
    seed_phase2(key, (N - 1) as nat).0.update(0, UPPER_MASK)
}

/// The twist's update of word `kk`, reading the state as it stands.
pub open spec fn twist_step(s: Seq<u32>, kk: int) -> Seq<u32> {
    let y = (s[kk] & UPPER_MASK) | (s[(kk + 1) % (N as int)] & LOWER_MASK);
    let mag: u32 = if y & 1u32 != 0 { MATRIX_A } else { 0u32 };
    s.update(kk, s[(kk + M) % (N as int)] ^ (y >> 1u32) ^ mag)
}

/// The first `k` word updates of the twist, in index order.
pub open spec fn twist_prefix(s: Seq<u32>, k: nat) -> Seq<u32>
    decreases k,
{
    if k == 0 {
        s
    } else {
        twist_step(twist_prefix(s, (k - 1) as nat), k - 1)
    }
}

/// The tempering of a state word into a draw.
pub open spec fn temper(y0: u32) -> u32 {
    let y1 = y0 ^ (y0 >> 11u32);
    let y2 = y1 ^ ((y1 << 7u32) & 0x9d2c_5680u32);
    let y3 = y2 ^ ((y2 << 15u32) & 0xefc6_0000u32);
    y3 ^ (y3 >> 18u32)
}

/// One draw from `(state, index)`: the next state and index, and the draw.
pub open spec fn draw(s: Seq<u32>, mti: int) -> (Seq<u32>, int, u32) {
    let (s2, m2) = if mti >= N { (twist_prefix(s, N as nat), 0int) } else { (s, mti) };
    (s2, m2 + 1, temper(s2[m2]))
}

/// The generator after `k` draws.
pub open spec fn after_draws(s: Seq<u32>, mti: int, k: nat) -> (Seq<u32>, int)
    decreases k,
{
    if k == 0 {
        (s, mti)
    } else {
        let p = after_draws(s, mti, (k - 1) as nat);
        let d = draw(p.0, p.1);
        (d.0, d.1)
    }
}

/// Draw number `k` (from 0) of the generator seeded with `key`.
pub open spec fn keyed_draw(key: Seq<u32>, k: nat) -> u32 {
    let p = after_draws(seeded_state(key), N as int, k);
    draw(p.0, p.1).2
}

/// `x` rotated right by `r` bits (0 < r < 32).
pub open spec fn rotr(x: u32, r: u32) -> u32 {
    (x >> r) | (x << ((32 - r) as u32))
}

/// `x` rotated left by `r` bits (0 < r < 32).
pub open spec fn rotl(x: u32, r: u32) -> u32 {
    (x << r) | (x >> ((32 - r) as u32))
}

/// The little-endian u32 of four bytes.
pub open spec fn le_word(b0: u8, b1: u8, b2: u8, b3: u8) -> u32 {
    (b0 as u32) | ((b1 as u32) << 8u32) | ((b2 as u32) << 16u32) | ((b3 as u32) << 24u32)
}

/// A 64-byte key as the 16 little-endian words `init_by_array` takes.
pub open spec fn key_words(key: Seq<u8>) -> Seq<u32> {
    Seq::new(16, |w: int| le_word(key[4 * w], key[4 * w + 1], key[4 * w + 2], key[4 * w + 3]))
}

/// The four whitening words before output word `c`.
pub open spec fn cascade(key: Seq<u8>, c: nat) -> (u32, u32, u32, u32)
    decreases c,
{
    let kw = key_words(key);
    if c == 0 {
        (keyed_draw(kw, 0), keyed_draw(kw, 1), keyed_draw(kw, 2), keyed_draw(kw, 3))
    } else {
        let (c0, c1, c2, c3) = cascade(key, (c - 1) as nat);
        let c4 = keyed_draw(kw, (4 + c - 1) as nat);
        (rotr(c1, 15), rotl(c2, 11), rotl(c3, 7), rotr(c4, 13))
    }
}

/// Keystream word `c` under `key`.
pub open spec fn keystream_word(key: Seq<u8>, c: nat) -> u32 {
    let (c0, c1, c2, c3) = cascade(key, c);
    keyed_draw(key_words(key), 4 + c) ^ c3 ^ c2 ^ c1 ^ c0
}

/// Keystream byte `i` under `key`: byte `i % 4` of word `i / 4`, little-endian.
pub open spec fn keystream_byte(key: Seq<u8>, i: int) -> u8 {
    (keystream_word(key, (i / 4) as nat) >> ((8 * (i % 4)) as u32)) as u8
}

/// `data` XORed with the keystream of `key`.
pub open spec fn crypt_spec(key: Seq<u8>, data: Seq<u8>) -> Seq<u8> {
    Seq::new(data.len(), |i: int| data[i] ^ keystream_byte(key, i))
}

// ----------------------------------------------------------------------------
// The generator, as code.
// ----------------------------------------------------------------------------

/// An MT19937 generator; the only seeding the container uses is `init_by_array`.
pub struct Mt19937 {
    mt: Vec<u32>,
    mti: usize,
}

impl Mt19937 {
    /// The state words.
    pub closed spec fn words(&self) -> Seq<u32> {
        self.mt@
    }

    /// The index of the next state word to temper.
    pub closed spec fn index(&self) -> int {
        self.mti as int
    }

    /// The state has its 624 words and an index no past them.
    pub closed spec fn wf(&self) -> bool {
        self.mt@.len() == N && self.mti <= N
    }

    /// `init_genrand`: the scalar seed `init_by_array` primes the state with.
    fn init_genrand(seed: u32) -> (r: Self)
        ensures
            r.wf(),
            r.words() == genrand_state(seed),
            r.index() == N,
    {
        let mut mt: Vec<u32> = Vec::new();
        mt.push(seed);
        let mut i: usize = 1;
        while i < N
            invariant
                1 <= i <= N,
                mt@.len() == i,
                forall|t: int| 0 <= t < i ==> #[trigger] mt@[t] == genrand_word(seed, t as nat),
            decreases N - i,
        {
            let prev = mt[i - 1];
            let v = 1812433253u32.wrapping_mul(prev ^ (prev >> 30)).wrapping_add(i as u32);
            assert(v == genrand_word(seed, i as nat));
            mt.push(v);
            i = i + 1;
        }
        assert(mt@ =~= genrand_state(seed));
        Mt19937 { mt, mti: N }
    }

    /// `init_by_array`: seed from an array of key words (the 64-byte section key as
    /// 16 little-endian u32).
    pub fn init_by_array(key: &[u32]) -> (r: Self)
        requires
            key.len() > 0,
        ensures
            r.wf(),
            r.words() == seeded_state(key@),
            r.index() == N,
    {
        let mut twister = Self::init_genrand(19650218);
        let mut i: usize = 1;
        let mut j: usize = 0;
        let steps: usize = if N > key.len() { N } else { key.len() };
        let mut k: usize = 0;
        while k < steps
            invariant
                steps == phase1_steps(key@),
                k <= steps,
                key@.len() > 0,
                twister.mt@.len() == N,
                twister.mti == N,
                1 <= i < N,
                j < key@.len(),
                (twister.mt@, i as int, j as int) == seed_phase1(key@, k as nat),
            decreases steps - k,
        {
            let prev = twister.mt[i - 1];
            let v = (twister.mt[i] ^ (prev ^ (prev >> 30)).wrapping_mul(1664525)).wrapping_add(
                key[j],
            ).wrapping_add(j as u32);
            twister.mt.set(i, v);
            i = i + 1;
            j = j + 1;
            if i >= N {
                let last = twister.mt[N - 1];
                twister.mt.set(0, last);
                i = 1;
            }
            if j >= key.len() {
                j = 0;
            }
            k = k + 1;
            proof {
                let prev_st = seed_phase1(key@, (k - 1) as nat);
                assert(seed_phase1(key@, k as nat) == seed_step(key@, prev_st));
                assert((twister.mt@, i as int, j as int) == seed_step(key@, prev_st));
            }
        }
        let mut k: usize = 0;
        while k < N - 1
            invariant
                k <= N - 1,
                twister.mt@.len() == N,
                twister.mti == N,
                1 <= i < N,
                (twister.mt@, i as int) == seed_phase2(key@, k as nat),
            decreases N - 1 - k,
        {
            let prev = twister.mt[i - 1];
            let v = (twister.mt[i] ^ (prev ^ (prev >> 30)).wrapping_mul(1566083941)).wrapping_sub(
                i as u32,
            );
            twister.mt.set(i, v);
            i = i + 1;
            if i >= N {
                let last = twister.mt[N - 1];
                twister.mt.set(0, last);
                i = 1;
            }
            k = k + 1;
            proof {
                let prev_st = seed_phase2(key@, (k - 1) as nat);
                assert(seed_phase2(key@, k as nat) == mix_step(prev_st));
                assert((twister.mt@, i as int) == mix_step(prev_st));
            }
        }
        twister.mt.set(0, UPPER_MASK);
        twister
    }

    /// The twist: every word updated in index order.
    fn twist(&mut self)
        requires
            old(self).wf(),
        ensures
            final(self).mt@ == twist_prefix(old(self).mt@, N as nat),
            final(self).mti == old(self).mti,
            final(self).wf(),
    {
        let ghost s0 = self.mt@;
        let mut kk: usize = 0;
        while kk < N - M
            invariant
                kk <= N - M,
                self.mt@.len() == N,
                self.mti == old(self).mti,
                self.mti <= N,
                s0 == old(self).mt@,
                self.mt@ == twist_prefix(s0, kk as nat),
            decreases N - M - kk,
        {
            let y = (self.mt[kk] & UPPER_MASK) | (self.mt[kk + 1] & LOWER_MASK);
            let mag: u32 = if y & 1 != 0 { MATRIX_A } else { 0 };
            let v = self.mt[kk + M] ^ (y >> 1) ^ mag;
            proof {
                assert((kk as int + 1) % (N as int) == kk + 1);
                assert((kk as int + M) % (N as int) == kk + M);
            }
            self.mt.set(kk, v);
            kk = kk + 1;
        }
        while kk < N - 1
            invariant
                N - M <= kk <= N - 1,
                self.mt@.len() == N,
                self.mti == old(self).mti,
                self.mti <= N,
                s0 == old(self).mt@,
                self.mt@ == twist_prefix(s0, kk as nat),
            decreases N - 1 - kk,
        {
            let y = (self.mt[kk] & UPPER_MASK) | (self.mt[kk + 1] & LOWER_MASK);
            let mag: u32 = if y & 1 != 0 { MATRIX_A } else { 0 };
            let v = self.mt[kk + M - N] ^ (y >> 1) ^ mag;
            proof {
                assert((kk as int + 1) % (N as int) == kk + 1);
                assert((kk as int + M) % (N as int) == kk + M - N);
            }
            self.mt.set(kk, v);
            kk = kk + 1;
        }
        let y = (self.mt[N - 1] & UPPER_MASK) | (self.mt[0] & LOWER_MASK);
        let mag: u32 = if y & 1 != 0 { MATRIX_A } else { 0 };
        let v = self.mt[M - 1] ^ (y >> 1) ^ mag;
        proof {
            assert((N as int - 1 + 1) % (N as int) == 0);
            assert((N as int - 1 + M) % (N as int) == M - 1);
        }
        self.mt.set(N - 1, v);
    }

    /// `genrand_int32`: the next tempered 32-bit draw.
    pub fn next_u32(&mut self) -> (r: u32)
        requires
            old(self).wf(),
        ensures
            final(self).wf(),
            (final(self).words(), final(self).index(), r) == draw(old(self).words(), old(self).index()),
    {
        if self.mti >= N {
            self.twist();
            self.mti = 0;
        }
        let mut y = self.mt[self.mti];
        self.mti = self.mti + 1;
        y = y ^ (y >> 11);
        y = y ^ ((y << 7) & 0x9d2c_5680);
        y = y ^ ((y << 15) & 0xefc6_0000);
        y = y ^ (y >> 18);
        y
    }
}

fn rotate_right(x: u32, r: u32) -> (y: u32)
    requires
        0 < r < 32,
    ensures
        y == rotr(x, r),
{
    (x >> r) | (x << (32 - r))
}

fn rotate_left(x: u32, r: u32) -> (y: u32)
    requires
        0 < r < 32,
    ensures
        y == rotl(x, r),
{
    (x << r) | (x >> (32 - r))
}

/// `data` XORed with the keystream `key` generates: the 64-byte key as 16 little-endian
/// u32 to `init_by_array`, four priming draws `c0..c3`, then per output word
/// `c4 ^ c3 ^ c2 ^ c1 ^ c0` with the rotation cascade; a tail under four bytes uses
/// the low bytes of one more word. The same routine encrypts and decrypts.
pub fn crypt(key: &[u8], data: &[u8]) -> (out: Vec<u8>)
    requires
        key@.len() == 64,
    ensures
        out@ == crypt_spec(key@, data@),
{
    let ghost kb = key@;
    let mut words: Vec<u32> = Vec::new();
    let mut w: usize = 0;
    while w < 16
        invariant
            w <= 16,
            kb == key@,
            kb.len() == 64,
            words@.len() == w,
            forall|t: int| 0 <= t < w ==> #[trigger] words@[t] == key_words(kb)[t],
        decreases 16 - w,
    {
        let word = (key[4 * w] as u32) | ((key[4 * w + 1] as u32) << 8) | ((key[4 * w + 2] as u32) << 16)
            | ((key[4 * w + 3] as u32) << 24);
        words.push(word);
        w = w + 1;
    }
    let ghost kw = key_words(kb);
    assert(words@ =~= kw);
    let mut twister = Mt19937::init_by_array(words.as_slice());
    let ghost s0 = twister.words();
    assert((twister.words(), twister.index()) == after_draws(s0, N as int, 0));
    let c0 = twister.next_u32();
    assert((twister.words(), twister.index()) == after_draws(s0, N as int, 1));
    let c1 = twister.next_u32();
    assert((twister.words(), twister.index()) == after_draws(s0, N as int, 2));
    let c2 = twister.next_u32();
    assert((twister.words(), twister.index()) == after_draws(s0, N as int, 3));
    let c3 = twister.next_u32();
    assert((twister.words(), twister.index()) == after_draws(s0, N as int, 4));
    let (mut c0, mut c1, mut c2, mut c3) = (c0, c1, c2, c3);
    let mut out: Vec<u8> = Vec::new();
    let mut c: usize = 0;
    let chunks: usize = if data.len() % 4 == 0 { data.len() / 4 } else { data.len() / 4 + 1 };
    while c < chunks
        invariant
            chunks as int == if data.len() % 4 == 0 { (data.len() / 4) as int } else { data.len() / 4 + 1 },
            s0 == seeded_state(kw),
            kw == key_words(kb),
            kb == key@,
            twister.wf(),
            c <= chunks,
            (twister.words(), twister.index()) == after_draws(s0, N as int, (4 + c) as nat),
            (c0, c1, c2, c3) == cascade(kb, c as nat),
            out@.len() == if 4 * c <= data.len() { 4 * c } else { data.len() as int },
            forall|i: int| 0 <= i < out@.len() ==> #[trigger] out@[i] == data@[i] ^ keystream_byte(kb, i),
        decreases chunks - c,
    {
        let ghost before = (twister.words(), twister.index());
        let c4 = twister.next_u32();
        assert(c4 == keyed_draw(kw, (4 + c) as nat));
        assert((twister.words(), twister.index()) == after_draws(s0, N as int, (4 + c + 1) as nat));
        let word = c4 ^ c3 ^ c2 ^ c1 ^ c0;
        assert(word == keystream_word(kb, c as nat));
        let start = 4 * c;
        let end: usize = if data.len() - start < 4 { data.len() } else { start + 4 };
        let mut t: usize = start;
        while t < end
            invariant
                start == 4 * c,
                start < data.len(),
                start <= t <= end,
                end <= data.len(),
                end <= start + 4,
                word == keystream_word(kb, c as nat),
                out@.len() == t,
                forall|i: int| 0 <= i < out@.len() ==> #[trigger] out@[i] == data@[i] ^ keystream_byte(kb, i),
            decreases end - t,
        {
            let b = data[t] ^ ((word >> (8 * (t - start) as u32)) as u8);
            assert(t as int / 4 == c);
            assert(t as int % 4 == t - start);
            out.push(b);
            t = t + 1;
        }
        let n0 = rotate_right(c1, 15);
        let n1 = rotate_left(c2, 11);
        let n2 = rotate_left(c3, 7);
        let n3 = rotate_right(c4, 13);
        c0 = n0;
        c1 = n1;
        c2 = n2;
        c3 = n3;
        c = c + 1;
    }
    assert(out@ =~= crypt_spec(kb, data@));
    out
}

/// Running the keystream twice under one key gives the data back: the same
/// routine encrypts and decrypts.
pub proof fn law_crypt_is_an_involution(key: Seq<u8>, data: Seq<u8>)
    ensures
        crypt_spec(key, crypt_spec(key, data)) == data,
{
    let once = crypt_spec(key, data);
    let twice = crypt_spec(key, once);
    assert forall|i: int| 0 <= i < data.len() implies #[trigger] twice[i] == data[i] by {
        let d = data[i];
        let k = keystream_byte(key, i);
        assert((d ^ k) ^ k == d) by (bit_vector);
    }
    assert(twice =~= data);
}

} // verus!
