//! `display_name`: a raw save name without its colour codes. `name` keeps the
//! raw form for the editor's colour rendering; this is the text consumers show.
use vstd::prelude::*;

use crate::codec::utf8_text;
use vstd::string::StringSliceAdditionalSpecFns;
use vstd::utf8::{
    decode_utf8, encode_utf8, is_char_boundary, is_char_boundary_iff_not_is_continuation_byte,
    is_char_boundary_start_end_of_seq, is_continuation_byte, valid_utf8, valid_utf8_concat,
    valid_utf8_split,
};

verus! {

broadcast use vstd::utf8::encode_utf8_valid_utf8;

/// How many bytes a colour code at `i` spans: 10 for `\x11c` plus eight bytes
/// that end on a char boundary, 2 for a `\x11d` reset that ends on one, and 0
/// where no code starts.
pub open spec fn code_len(b: Seq<u8>, i: int) -> int {
    if b[i] == 0x11 && i + 1 < b.len() && b[i + 1] == 0x63 && i + 10 <= b.len() && is_char_boundary(b, i + 10) {
        10
    } else if b[i] == 0x11 && i + 1 < b.len() && b[i + 1] == 0x64 && is_char_boundary(b, i + 2) {
        2
    } else {
        0
    }
}

/// The bytes from `i` on with every colour code taken out.
pub open spec fn shown_bytes(b: Seq<u8>, i: int) -> Seq<u8>
    decreases b.len() - i,
{
    if i < 0 || i >= b.len() {
        Seq::empty()
    } else if code_len(b, i) > 0 {
        shown_bytes(b, i + code_len(b, i))
    } else {
        seq![b[i]] + shown_bytes(b, i + 1)
    }
}

/// A boundary of a valid byte string is a boundary of its tail from an earlier
/// boundary.
proof fn lemma_boundary_in_tail(b: Seq<u8>, seg: int, i: int)
    requires
        valid_utf8(b),
        0 <= seg <= i <= b.len(),
        is_char_boundary(b, seg),
        is_char_boundary(b, i),
    ensures
        valid_utf8(b.subrange(seg, b.len() as int)),
        is_char_boundary(b.subrange(seg, b.len() as int), i - seg),
{
    let t = b.subrange(seg, b.len() as int);
    valid_utf8_split(b, seg);
    is_char_boundary_start_end_of_seq(t);
    if i < b.len() {
        is_char_boundary_iff_not_is_continuation_byte(b, i);
        is_char_boundary_iff_not_is_continuation_byte(t, i - seg);
        assert(t[i - seg] == b[i]);
    } else {
        assert(i - seg == t.len());
    }
}

/// The bytes between two boundaries of a valid byte string are valid.
proof fn lemma_valid_between(b: Seq<u8>, seg: int, i: int)
    requires
        valid_utf8(b),
        0 <= seg <= i <= b.len(),
        is_char_boundary(b, seg),
        is_char_boundary(b, i),
    ensures
        valid_utf8(b.subrange(seg, i)),
{
    lemma_boundary_in_tail(b, seg, i);
    let t = b.subrange(seg, b.len() as int);
    valid_utf8_split(t, i - seg);
    assert(t.subrange(0, i - seg) =~= b.subrange(seg, i));
}

/// The name without its colour codes: every `\x11c` plus the exactly eight
/// bytes that follow it (any bytes: the game does not check they are hex, so
/// a code at the string's end shorter than that is not a code and stays) and
/// every two-byte `\x11d` reset. Any other `0x11` sequence is untouched.
/// Stripping happens on bytes at char boundaries only, so the result is always
/// valid UTF-8.
pub fn display_name(raw: &str) -> (shown: String)
    ensures
        shown@ == decode_utf8(shown_bytes(encode_utf8(raw@), 0)),
{
    let bytes = raw.as_bytes();
    let ghost b = bytes@;
    let len = bytes.len();
    proof {
        assert(b == encode_utf8(raw@));
        assert(valid_utf8(b));
        is_char_boundary_start_end_of_seq(b);
    }
    let mut out: Vec<u8> = Vec::new();
    let mut seg: usize = 0;
    let mut i: usize = 0;
    while i < len
        invariant
            len == b.len(),
            b == bytes@,
            b == raw.spec_bytes(),
            valid_utf8(b),
            seg <= i <= len,
            is_char_boundary(b, seg as int),
            valid_utf8(out@),
            out@ + b.subrange(seg as int, i as int) + shown_bytes(b, i as int) == shown_bytes(b, 0),
        decreases len - i,
    {
        let strip: usize = if bytes[i] == 0x11 && i + 1 < len && bytes[i + 1] == 0x63 {
            if len - i >= 10 && raw.is_char_boundary(i + 10) {
                10
            } else {
                0
            }
        } else if bytes[i] == 0x11 && i + 1 < len && bytes[i + 1] == 0x64 {
            if raw.is_char_boundary(i + 2) {
                2
            } else {
                0
            }
        } else {
            0
        };
        proof {
            assert(strip == code_len(b, i as int));
        }
        if strip > 0 {
            proof {
                is_char_boundary_iff_not_is_continuation_byte(b, i as int);
                assert(!is_continuation_byte(b[i as int]));
                lemma_valid_between(b, seg as int, i as int);
                valid_utf8_concat(out@, b.subrange(seg as int, i as int));
            }
            let mut k = seg;
            let ghost before = out@;
            while k < i
                invariant
                    seg <= k <= i <= len,
                    len == b.len(),
                    b == bytes@,
                    out@ == before + b.subrange(seg as int, k as int),
                decreases i - k,
            {
                out.push(bytes[k]);
                k = k + 1;
                assert(out@ =~= before + b.subrange(seg as int, k as int));
            }
            proof {
                assert(b.subrange(i as int, i as int).len() == 0);
                assert(out@ + b.subrange((i + strip) as int, (i + strip) as int) =~= out@);
            }
            i = i + strip;
            seg = i;
        } else {
            proof {
                assert(b.subrange(seg as int, i as int) + seq![b[i as int]] =~= b.subrange(seg as int, i + 1));
            }
            i = i + 1;
        }
    }
    proof {
        lemma_valid_between(b, seg as int, len as int);
        valid_utf8_concat(out@, b.subrange(seg as int, len as int));
    }
    let mut k = seg;
    let ghost before = out@;
    while k < len
        invariant
            seg <= k <= len,
            len == b.len(),
            b == bytes@,
            out@ == before + b.subrange(seg as int, k as int),
        decreases len - k,
    {
        out.push(bytes[k]);
        k = k + 1;
        assert(out@ =~= before + b.subrange(seg as int, k as int));
    }
    proof {
        assert(out@ =~= shown_bytes(b, 0));
    }
    match utf8_text(out) {
        Some(s) => s,
        None => String::new(),
    }
}

} // verus!
