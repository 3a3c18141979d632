//! The PES 15 container: a keyless chunk format. One seed byte, three MD5 digests
//! (description, logo, payload), the fixed 384-byte description, then `u32 length +
//! data` for the logo and the payload. Every section is XORed with the same
//! byte-wise stream restarted at the seed: `c = (c * 21 + 7) % 32768`, byte key
//! `c % 255`.
use md5::{Digest, Md5};
use vstd::prelude::*;

use super::{
    append_bytes, bytes_equal_at, le_bytes, le_u32_at, lemma_le_round_trip, push_u32_le,
    read_u32_le, ContainerError, SaveContainer, Scheme,
};

verus! {

/// Seed byte + three 16-byte digests + the 384-byte description.
pub const HEAD_SIZE: usize = 433;

/// The description's fixed byte count.
pub const DESCRIPTION_SIZE: usize = 384;

/// The LCG state after `k` steps from `seed`.
pub open spec fn lcg_state(seed: u8, k: nat) -> u32
    decreases k,
{
    if k == 0 {
        seed as u32
    } else {
        ((lcg_state(seed, (k - 1) as nat) * 21 + 7) % 32768) as u32
    }
}

/// `data` XORed with the LCG stream restarted at `seed`.
pub open spec fn lcg_spec(seed: u8, data: Seq<u8>) -> Seq<u8> {
    Seq::new(data.len(), |i: int| data[i] ^ ((lcg_state(seed, (i + 1) as nat) % 255) as u8))
}

/// The MD5 digest of `data`.
pub uninterp spec fn md5(data: Seq<u8>) -> [u8; 16];

/// The LCG stream XORed over `data`, restarted at `seed` for every section. The same
/// routine encrypts and decrypts.
pub fn lcg(seed: u8, data: &[u8]) -> (out: Vec<u8>)
    ensures
        out@ == lcg_spec(seed, data@),
{
    let mut c: u32 = seed as u32;
    let mut out: Vec<u8> = Vec::new();
    let mut i: usize = 0;
    while i < data.len()
        invariant
            i <= data@.len(),
            c == lcg_state(seed, i as nat),
            c < 32768 || i == 0,
            c < 32768,
            out@.len() == i,
            forall|t: int| 0 <= t < i ==> #[trigger] out@[t] == data@[t] ^ ((lcg_state(seed, (t + 1) as nat) % 255) as u8),
        decreases data@.len() - i,
    {
        c = (c * 21 + 7) % 32768;
        out.push(data[i] ^ (c % 255) as u8);
        i = i + 1;
    }
    assert(out@ =~= lcg_spec(seed, data@));
    out
}

/// Running the stream twice from one seed gives the data back.
pub proof fn law_lcg_is_an_involution(seed: u8, data: Seq<u8>)
    ensures
        lcg_spec(seed, lcg_spec(seed, data)) == data,
{
    let twice = lcg_spec(seed, lcg_spec(seed, data));
    assert forall|i: int| 0 <= i < data.len() implies #[trigger] twice[i] == data[i] by {
        let d = data[i];
        let k = (lcg_state(seed, (i + 1) as nat) % 255) as u8;
        assert((d ^ k) ^ k == d) by (bit_vector);
    }
    assert(twice =~= data);
}

/// The 16-byte MD5 digest of `data`, computed by the `md-5` crate's `Md5::digest`.
/// The contract claims only that the digest is 16 bytes and a function of the
/// bytes alone.
#[verifier::external_body]
fn digest(data: &[u8]) -> (d: [u8; 16])
    ensures
        d == md5(data@),
{
    Md5::digest(data).into()
}

/// The sections a PES 15 file holds, or why it holds none: the description's
/// digest identifies the format, the declared lengths must land exactly on the
/// end of the input and the logo and payload digests must match.
pub open spec fn decrypt_spec(b: Seq<u8>) -> Result<(Seq<u8>, Seq<u8>, Seq<u8>), ContainerError> {
    if b.len() < HEAD_SIZE {
        Err(ContainerError::Unrecognized)
    } else {
        let seed = b[0];
        let description = lcg_spec(seed, b.subrange(49, 433));
        if md5(description)@ != b.subrange(1, 17) {
            Err(ContainerError::Unrecognized)
        } else if b.len() < 437 {
            Err(ContainerError::Truncated { needed: 437, available: b.len() as usize })
        } else {
            let logo_len = le_u32_at(b, 433) as int;
            let payload_len_at = 437 + logo_len + 4;
            if payload_len_at > usize::MAX {
                Err(ContainerError::Truncated { needed: usize::MAX, available: b.len() as usize })
            } else if b.len() < payload_len_at {
                Err(ContainerError::Truncated { needed: payload_len_at as usize, available: b.len() as usize })
            } else {
                let logo = lcg_spec(seed, b.subrange(437, 437 + logo_len));
                let end = payload_len_at + le_u32_at(b, 437 + logo_len) as int;
                if end > usize::MAX {
                    Err(ContainerError::Truncated { needed: usize::MAX, available: b.len() as usize })
                } else if b.len() < end {
                    Err(ContainerError::Truncated { needed: end as usize, available: b.len() as usize })
                } else if b.len() > end {
                    Err(ContainerError::TrailingBytes((b.len() - end) as usize))
                } else {
                    let payload = lcg_spec(seed, b.subrange(payload_len_at, end));
                    if md5(logo)@ != b.subrange(17, 33) || md5(payload)@ != b.subrange(33, 49) {
                        Err(ContainerError::Unrecognized)
                    } else {
                        Ok((description, logo, payload))
                    }
                }
            }
        }
    }
}

/// The bytes a PES 15 file of these sections is written as, with `seed` as byte 0.
pub open spec fn encrypt_spec(seed: u8, description: Seq<u8>, logo: Seq<u8>, payload: Seq<u8>) -> Seq<u8> {
    seq![seed] + md5(description)@ + md5(logo)@ + md5(payload)@ + lcg_spec(seed, description) + le_bytes(
        logo.len() as u32,
    ) + lcg_spec(seed, logo) + le_bytes(payload.len() as u32) + lcg_spec(seed, payload)
}

/// `bytes` decrypted as a PES 15 save. The description's digest identifies the
/// format (a mismatch is `Unrecognized`); the declared lengths must then land
/// exactly on the end of the input and the remaining two digests must match.
pub fn decrypt(bytes: &[u8]) -> (r: Result<SaveContainer, ContainerError>)
    ensures
        match decrypt_spec(bytes@) {
            Ok((d, l, p)) => r matches Ok(c) && c.scheme == Scheme::Pes15 && c.description@ == d
                && c.logo@ == l && c.payload@ == p && c.identifier@.len() == 0 && c.serial@.len() == 0,
            Err(e) => r == Err::<SaveContainer, ContainerError>(e),
        },
{
    let len = bytes.len();
    if len < HEAD_SIZE {
        return Err(ContainerError::Unrecognized);
    }
    let seed = bytes[0];
    let description = lcg(seed, vstd::slice::slice_subrange(bytes, 49, 433));
    let d0 = digest(description.as_slice());
    if !bytes_equal_at(vstd::array::array_as_slice(&d0), bytes, 1) {
        return Err(ContainerError::Unrecognized);
    }
    if len < 437 {
        return Err(ContainerError::Truncated { needed: 437, available: len });
    }
    let logo_len = read_u32_le(bytes, 433) as usize;
    let payload_len_at = match 437usize.checked_add(logo_len) {
        Some(end) => end.checked_add(4),
        None => None,
    };
    let payload_len_at = match payload_len_at {
        Some(at) => at,
        None => {
            return Err(ContainerError::Truncated { needed: usize::MAX, available: len });
        },
    };
    if len < payload_len_at {
        return Err(ContainerError::Truncated { needed: payload_len_at, available: len });
    }
    let logo = lcg(seed, vstd::slice::slice_subrange(bytes, 437, 437 + logo_len));
    let payload_len = read_u32_le(bytes, 437 + logo_len) as usize;
    let end = match payload_len_at.checked_add(payload_len) {
        Some(end) => end,
        None => {
            return Err(ContainerError::Truncated { needed: usize::MAX, available: len });
        },
    };
    if len < end {
        return Err(ContainerError::Truncated { needed: end, available: len });
    }
    if len > end {
        return Err(ContainerError::TrailingBytes(len - end));
    }
    let payload = lcg(seed, vstd::slice::slice_subrange(bytes, payload_len_at, end));
    let d1 = digest(logo.as_slice());
    let d2 = digest(payload.as_slice());
    if !bytes_equal_at(vstd::array::array_as_slice(&d1), bytes, 17) || !bytes_equal_at(vstd::array::array_as_slice(&d2), bytes, 33) {
        return Err(ContainerError::Unrecognized);
    }
    Ok(
        SaveContainer {
            scheme: Scheme::Pes15,
            description,
            logo,
            payload,
            identifier: Vec::new(),
            serial: Vec::new(),
        },
    )
}

/// `container`'s sections encrypted with `seed` as byte 0; the three digests are
/// recomputed.
pub fn encrypt(container: &SaveContainer, seed: u8) -> (out: Vec<u8>)
    ensures
        out@ == encrypt_spec(seed, container.description@, container.logo@, container.payload@),
{
    let mut out: Vec<u8> = Vec::new();
    out.push(seed);
    let d = digest(container.description.as_slice());
    append_bytes(&mut out, vstd::array::array_as_slice(&d));
    let d = digest(container.logo.as_slice());
    append_bytes(&mut out, vstd::array::array_as_slice(&d));
    let d = digest(container.payload.as_slice());
    append_bytes(&mut out, vstd::array::array_as_slice(&d));
    let s = lcg(seed, container.description.as_slice());
    append_bytes(&mut out, s.as_slice());
    push_u32_le(&mut out, container.logo.len() as u32);
    let s = lcg(seed, container.logo.as_slice());
    append_bytes(&mut out, s.as_slice());
    push_u32_le(&mut out, container.payload.len() as u32);
    let s = lcg(seed, container.payload.as_slice());
    append_bytes(&mut out, s.as_slice());
    assert(out@ =~= encrypt_spec(seed, container.description@, container.logo@, container.payload@));
    out
}

/// A PES 15 file written from a 384-byte description and sections whose lengths
/// fit the 32-bit length fields decrypts back to the same sections.
pub proof fn law_decrypt_undoes_encrypt(seed: u8, description: Seq<u8>, logo: Seq<u8>, payload: Seq<u8>)
    requires
        description.len() == DESCRIPTION_SIZE,
        logo.len() <= u32::MAX,
        payload.len() <= u32::MAX,
        HEAD_SIZE + 8 + logo.len() + payload.len() <= usize::MAX,
    ensures
        decrypt_spec(encrypt_spec(seed, description, logo, payload)) == Ok::<_, ContainerError>((description, logo, payload)),
{
    let b = encrypt_spec(seed, description, logo, payload);
    let ld = lcg_spec(seed, description);
    let ll = lcg_spec(seed, logo);
    let lp = lcg_spec(seed, payload);
    let logo_len = logo.len() as int;
    let payload_len = payload.len() as int;
    lemma_le_round_trip(logo.len() as u32);
    lemma_le_round_trip(payload.len() as u32);
    law_lcg_is_an_involution(seed, description);
    law_lcg_is_an_involution(seed, logo);
    law_lcg_is_an_involution(seed, payload);
    assert(md5(description)@.len() == 16);
    assert(md5(logo)@.len() == 16);
    assert(md5(payload)@.len() == 16);
    assert(b.len() == 441 + logo_len + payload_len);
    assert(b[0] == seed);
    assert(b.subrange(49, 433) =~= ld);
    assert(b.subrange(1, 17) =~= md5(description)@);
    assert(le_u32_at(b, 433) == logo.len() as u32);
    assert(b.subrange(437, 437 + logo_len) =~= ll);
    assert(le_u32_at(b, 437 + logo_len) == payload.len() as u32);
    assert(b.subrange(441 + logo_len, 441 + logo_len + payload_len) =~= lp);
    assert(b.subrange(17, 33) =~= md5(logo)@);
    assert(b.subrange(33, 49) =~= md5(payload)@);
}

} // verus!
