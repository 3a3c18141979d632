//! The aesthetics fingerprint: a hash of the ingame-face run normalized by
//! masking the player-gloves and skin-color bits (`IngameFace::normalized`,
//! the same two the compare script masks because they overlap fields it lists
//! separately). It is how the comparator says "the face changed" without
//! decoding every facial parameter, and how a fingerprint printed by the
//! script can be checked against ours.
use sha2::{Digest, Sha256};
use vstd::prelude::*;

use crate::codec::push_char;
use crate::model::ingame_face::{masked_spec, normalized_fields, IngameFace};

verus! {

/// The SHA-256 digest of `data`.
pub uninterp spec fn sha256(data: Seq<u8>) -> [u8; 32];

/// `Sha256::digest` of the sha2 crate: the 32-byte SHA-256 digest of `data`.
#[verifier::external_body]
fn sha256_digest(data: &[u8]) -> (d: [u8; 32])
    ensures
        d == sha256(data@),
{
    Sha256::digest(data).into()
}

/// The first four bytes of SHA-256 over `IngameFace::normalized()`; its text
/// is the eight lower-case hex characters the reference prints.
#[derive(Debug, Clone, Copy, PartialEq, Eq, Hash)]
pub struct FaceHash(pub [u8; 4]);

/// The lower-case hex digit of a nibble.
pub open spec fn hex_digit(n: u8) -> char {
    if n < 10 {
        ((n as u32) + 48) as char
    } else {
        ((n as u32) + 87) as char
    }
}

/// Two hex digits per byte, high nibble first.
pub open spec fn hex_text(bytes: Seq<u8>) -> Seq<char> {
    Seq::new(
        2 * bytes.len(),
        |i: int| if i % 2 == 0 { hex_digit(bytes[i / 2] / 16) } else { hex_digit(bytes[i / 2] % 16) },
    )
}

fn hex_char(n: u8) -> (c: char)
    requires
        n < 16,
    ensures
        c == hex_digit(n),
{
    if n < 10 {
        ((n + 48) as char)
    } else {
        ((n + 87) as char)
    }
}

impl FaceHash {
    /// The eight lower-case hex characters the reference prints.
    pub fn to_string(&self) -> (s: String)
        ensures
            s@ == hex_text(self.0@),
    {
        let mut s = String::new();
        let mut i: usize = 0;
        while i < 4
            invariant
                i <= 4,
                s@ == hex_text(self.0@).take(2 * i as int),
            decreases 4 - i,
        {
            let b = self.0[i];
            push_char(&mut s, hex_char(b / 16));
            push_char(&mut s, hex_char(b % 16));
            i = i + 1;
            assert(s@ =~= hex_text(self.0@).take(2 * i as int));
        }
        assert(hex_text(self.0@).take(8) =~= hex_text(self.0@));
        s
    }
}

/// The fingerprint of a run: the first four bytes of the SHA-256 digest of
/// the run with the player-gloves and skin bits zeroed.
pub open spec fn face_hash_of(face: Seq<u8>) -> FaceHash {
    let d = sha256(masked_spec(face, normalized_fields()));
    FaceHash([d[0], d[1], d[2], d[3]])
}

/// `face`'s fingerprint.
pub fn face_hash(face: &IngameFace) -> (h: FaceHash)
    ensures
        h.0@ == sha256(masked_spec(face@, normalized_fields()))@.take(4),
        h == face_hash_of(face@),
{
    let normalized = face.normalized();
    let digest = sha256_digest(normalized.as_slice());
    let h = FaceHash([digest[0], digest[1], digest[2], digest[3]]);
    assert(h.0@ =~= digest@.take(4));
    h
}

} // verus!
