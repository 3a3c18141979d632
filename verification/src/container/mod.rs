//! The savefile container: bytes <-> decrypted sections. Two schemes exist — the PES
//! 16-21 MT19937 stream under one of the master keys, and the PES 15 LCG/MD5 chunk
//! format — but the API is one struct: `file.rs` composes it with the codec the same
//! way whichever scheme held the bytes.
//!
//! `decrypt` tries the master keys it is given (header decrypt + 64-byte effective-key
//! compare, cheap), then the PES 15 shape; `to_bytes` dispatches on the container's
//! scheme.
use vstd::prelude::*;

use crate::version::PesVersion;
use self::mt19937::le_word;

/// The MT19937 keystream of the keyed container.
pub mod mt19937;
/// The PES 15 chunk format.
pub mod pes15;
/// The PES 16-21 keyed format.
pub mod pes16_21;

verus! {

/// One of the game's master keys: the version it belongs to and the 64-byte
/// effective key the decrypted file header starts with.
#[derive(Debug, Clone, Copy, PartialEq, Eq)]
pub struct MasterKey {
    /// The game version the key opens.
    pub version: PesVersion,
    /// The effective key: the first 64 bytes of every decrypted file header.
    pub effective: [u8; 64],
}

/// The encrypted file header's byte count under `version`: 176 on PES 16/17,
/// 208 on 18-21.
pub open spec fn header_size_of(version: PesVersion) -> nat {
    match version {
        PesVersion::Pes15 | PesVersion::Pes16 | PesVersion::Pes17 => 176,
        _ => 208,
    }
}

impl MasterKey {
    /// The encrypted file header's byte count under this key.
    pub fn header_size(&self) -> (n: usize)
        ensures
            n == header_size_of(self.version),
    {
        match self.version {
            PesVersion::Pes15 | PesVersion::Pes16 | PesVersion::Pes17 => 176,
            _ => 208,
        }
    }
}

/// Which encryption scheme a save uses and, for the keyed one, which master key
/// opened it.
#[derive(Debug, Clone, Copy, PartialEq, Eq)]
pub enum Scheme {
    /// PES 15: keyless LCG stream, three MD5 digests.
    Pes15,
    /// PES 16-21: MT19937 stream under one of the master keys.
    Keyed(MasterKey),
}

/// A save's decrypted sections plus everything needed to write it back.
#[derive(Debug, Clone, PartialEq, Eq)]
pub struct SaveContainer {
    /// Which scheme holds the bytes.
    pub scheme: Scheme,
    /// 384 bytes, `Edit Data` then zeros.
    pub description: Vec<u8>,
    /// A PNG.
    pub logo: Vec<u8>,
    /// The EDIT data the codec parses.
    pub payload: Vec<u8>,
    /// Header bytes 80.. on 16-21 (96 or 128 bytes), retained verbatim; empty on
    /// PES 15.
    pub identifier: Vec<u8>,
    /// UTF-16LE text on 16-21 (even length); empty on PES 15.
    pub serial: Vec<u8>,
}

/// Why a buffer is not a savefile container, or a container cannot be written.
#[derive(Debug, Clone, PartialEq, Eq)]
pub enum ContainerError {
    /// Neither a keyed header nor the PES 15 shape/digests matched.
    Unrecognized,
    /// The file ends before the declared sizes.
    Truncated {
        /// The byte count the declared sizes require.
        needed: usize,
        /// The input's byte count.
        available: usize,
    },
    /// The declared sizes end before the file does.
    TrailingBytes(usize),
    /// `to_bytes` got a serial that is not a whole number of UTF-16 units.
    OddSerial(usize),
    /// `to_bytes` got an identifier that is not the header's tail length.
    BadIdentifier {
        /// `header_size - 80` for the container's scheme.
        expected: usize,
        /// The identifier's actual byte count.
        got: usize,
    },
    /// A section is too large for the header's 32-bit size field.
    SectionTooLarge {
        /// The header slot (0 payload, 1 logo, 2 description, 3 serial units).
        section: u8,
        /// The section's size.
        size: usize,
    },
}

/// The little-endian u32 at `at`.
pub open spec fn le_u32_at(s: Seq<u8>, at: int) -> u32 {
    le_word(s[at], s[at + 1], s[at + 2], s[at + 3])
}

/// The four little-endian bytes of `v`.
pub open spec fn le_bytes(v: u32) -> Seq<u8> {
    seq![v as u8, (v >> 8u32) as u8, (v >> 16u32) as u8, (v >> 24u32) as u8]
}

/// Reading back the little-endian bytes of a value gives the value.
pub proof fn lemma_le_round_trip(v: u32)
    ensures
        le_bytes(v).len() == 4,
        le_word(le_bytes(v)[0], le_bytes(v)[1], le_bytes(v)[2], le_bytes(v)[3]) == v,
{
    let b0 = v as u8;
    let b1 = (v >> 8u32) as u8;
    let b2 = (v >> 16u32) as u8;
    let b3 = (v >> 24u32) as u8;
    assert(le_word(b0, b1, b2, b3) == v) by (bit_vector)
        requires
            b0 == v as u8,
            b1 == (v >> 8u32) as u8,
            b2 == (v >> 16u32) as u8,
            b3 == (v >> 24u32) as u8,
    ;
}

/// The little-endian u32 at `at` of `bytes`.
pub fn read_u32_le(bytes: &[u8], at: usize) -> (v: u32)
    requires
        at + 4 <= bytes@.len(),
    ensures
        v == le_u32_at(bytes@, at as int),
{
    (bytes[at] as u32) | ((bytes[at + 1] as u32) << 8) | ((bytes[at + 2] as u32) << 16) | ((
    bytes[at + 3] as u32) << 24)
}

/// Appends the little-endian bytes of `v`.
pub fn push_u32_le(out: &mut Vec<u8>, v: u32)
    ensures
        final(out)@ == old(out)@ + le_bytes(v),
{
    out.push(v as u8);
    out.push((v >> 8) as u8);
    out.push((v >> 16) as u8);
    out.push((v >> 24) as u8);
    assert(final(out)@ =~= old(out)@ + le_bytes(v));
}

/// Appends every byte of `src`.
pub fn append_bytes(out: &mut Vec<u8>, src: &[u8])
    ensures
        final(out)@ == old(out)@ + src@,
{
    let mut i: usize = 0;
    while i < src.len()
        invariant
            i <= src@.len(),
            out@ == old(out)@ + src@.subrange(0, i as int),
        decreases src@.len() - i,
    {
        out.push(src[i]);
        i = i + 1;
        assert(out@ =~= old(out)@ + src@.subrange(0, i as int));
    }
    assert(src@.subrange(0, src@.len() as int) =~= src@);
}

/// Whether `a` equals `b[start..start + a.len()]`.
pub fn bytes_equal_at(a: &[u8], b: &[u8], start: usize) -> (eq: bool)
    requires
        start + a@.len() <= b@.len(),
    ensures
        eq == (a@ == b@.subrange(start as int, start + a@.len())),
{
    let mut i: usize = 0;
    while i < a.len()
        invariant
            i <= a@.len(),
            start + a@.len() <= b@.len(),
            b@.len() == b.len(),
            forall|t: int| 0 <= t < i ==> a@[t] == b@[start + t],
        decreases a@.len() - i,
    {
        if a[i] != b[start + i] {
            assert(a@[i as int] != b@.subrange(start as int, start + a@.len())[i as int]);
            return false;
        }
        i = i + 1;
    }
    assert(a@ =~= b@.subrange(start as int, start + a@.len()));
    true
}

/// What a container holds: its scheme and its five sections (description, logo,
/// payload, identifier, serial).
pub type ContainerView = (Scheme, Seq<u8>, Seq<u8>, Seq<u8>, Seq<u8>, Seq<u8>);

impl View for SaveContainer {
    type V = ContainerView;

    open spec fn view(&self) -> ContainerView {
        (self.scheme, self.description@, self.logo@, self.payload@, self.identifier@, self.serial@)
    }
}

/// What `bytes` decrypts to when the keys are tried in order and then the PES 15
/// shape: the first key that does not call the bytes `Unrecognized` decides.
pub open spec fn decrypt_spec(bytes: Seq<u8>, keys: Seq<MasterKey>) -> Result<ContainerView, ContainerError>
    decreases keys.len(),
{
    if keys.len() == 0 {
        match pes15::decrypt_spec(bytes) {
            Ok((d, l, p)) => Ok((Scheme::Pes15, d, l, p, Seq::empty(), Seq::empty())),
            Err(e) => Err(e),
        }
    } else {
        match pes16_21::decrypt_spec(bytes, keys[0]) {
            Ok((d, l, p, i, s)) => Ok((Scheme::Keyed(keys[0]), d, l, p, i, s)),
            Err(ContainerError::Unrecognized) => decrypt_spec(bytes, keys.drop_first()),
            Err(e) => Err(e),
        }
    }
}

/// The bytes a container is written as with `salt`: PES 15 uses `salt[0]` as its
/// seed byte, 16-21 use all 320 bytes.
pub open spec fn to_bytes_spec(c: ContainerView, salt: Seq<u8>) -> Result<Seq<u8>, ContainerError> {
    match c.0 {
        Scheme::Pes15 => Ok(pes15::encrypt_spec(salt[0], c.1, c.2, c.3)),
        Scheme::Keyed(key) => pes16_21::encrypt_spec(key, salt, c.1, c.2, c.3, c.4, c.5),
    }
}

impl SaveContainer {
    /// The game version the container belongs to.
    pub fn version(&self) -> (v: PesVersion)
        ensures
            v == match self.scheme {
                Scheme::Pes15 => PesVersion::Pes15,
                Scheme::Keyed(key) => key.version,
            },
    {
        match self.scheme {
            Scheme::Pes15 => PesVersion::Pes15,
            Scheme::Keyed(key) => key.version,
        }
    }

    /// Tries `keys` in order (header decrypt + 64-byte compare, cheap), then PES 15's
    /// shape (the description digest identifies it, then the declared lengths and the
    /// remaining digests). The first match wins.
    pub fn decrypt(bytes: &[u8], keys: &[MasterKey]) -> (r: Result<SaveContainer, ContainerError>)
        ensures
            match decrypt_spec(bytes@, keys@) {
                Ok(v) => r matches Ok(c) && c@ == v,
                Err(e) => r == Err::<SaveContainer, ContainerError>(e),
            },
    {
        let mut i: usize = 0;
        assert(keys@.subrange(0, keys@.len() as int) =~= keys@);
        while i < keys.len()
            invariant
                i <= keys@.len(),
                decrypt_spec(bytes@, keys@) == decrypt_spec(bytes@, keys@.subrange(i as int, keys@.len() as int)),
            decreases keys@.len() - i,
        {
            let ghost rest = keys@.subrange(i as int, keys@.len() as int);
            assert(rest[0] == keys@[i as int]);
            assert(rest.drop_first() =~= keys@.subrange(i + 1, keys@.len() as int));
            let result = pes16_21::decrypt(bytes, &keys[i]);
            match result {
                Err(ContainerError::Unrecognized) => {},
                _ => {
                    return result;
                },
            }
            i = i + 1;
        }
        assert(keys@.subrange(i as int, keys@.len() as int).len() == 0);
        pes15::decrypt(bytes)
    }

    /// The container written back to bytes. PES 15 uses `salt[0]` as its seed byte;
    /// 16-21 use all 320 bytes.
    pub fn to_bytes(&self, salt: &[u8; 320]) -> (r: Result<Vec<u8>, ContainerError>)
        ensures
            match to_bytes_spec(self@, salt@) {
                Ok(b) => r matches Ok(out) && out@ == b,
                Err(e) => r == Err::<Vec<u8>, ContainerError>(e),
            },
    {
        match self.scheme {
            Scheme::Pes15 => Ok(pes15::encrypt(self, salt[0])),
            Scheme::Keyed(key) => pes16_21::encrypt(self, vstd::array::array_as_slice(salt), &key),
        }
    }
}

/// A keyed container written with `to_bytes` opens again, with `decrypt` trying
/// its own key first, as the same container.
pub proof fn law_keyed_container_round_trip(c: ContainerView, salt: Seq<u8>, keys: Seq<MasterKey>, bytes: Seq<u8>)
    requires
        salt.len() == 320,
        c.0 is Keyed,
        keys.len() > 0,
        keys[0] == c.0->Keyed_0,
        to_bytes_spec(c, salt) == Ok::<_, ContainerError>(bytes),
        bytes.len() <= usize::MAX,
    ensures
        decrypt_spec(bytes, keys) == Ok::<_, ContainerError>(c),
{
    let key = c.0->Keyed_0;
    pes16_21::law_decrypt_undoes_encrypt(key, salt, c.1, c.2, c.3, c.4, c.5, bytes);
}

/// A PES 15 container with a 384-byte description and sections whose lengths fit
/// the 32-bit length fields, written with `to_bytes`, opens again as the same
/// container when no key is tried.
pub proof fn law_pes15_container_round_trip(c: ContainerView, salt: Seq<u8>, bytes: Seq<u8>)
    requires
        salt.len() == 320,
        c.0 is Pes15,
        c.1.len() == pes15::DESCRIPTION_SIZE,
        c.2.len() <= u32::MAX,
        c.3.len() <= u32::MAX,
        c.4.len() == 0,
        c.5.len() == 0,
        pes15::HEAD_SIZE + 8 + c.2.len() + c.3.len() <= usize::MAX,
        to_bytes_spec(c, salt) == Ok::<_, ContainerError>(bytes),
    ensures
        decrypt_spec(bytes, Seq::empty()) == Ok::<_, ContainerError>(c),
{
    pes15::law_decrypt_undoes_encrypt(salt[0], c.1, c.2, c.3);
    assert(c.4 =~= Seq::<u8>::empty());
    assert(c.5 =~= Seq::<u8>::empty());
}

} // verus!
