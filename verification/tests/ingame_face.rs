use pes_savefile::codec::CodecError;
use pes_savefile::model::ingame_face::{spec, IngameFace, IngameFaceField};
use pes_savefile::ops::fingerprint::face_hash;
use pes_savefile::schema::FieldSpec;

/// The bits `spec` covers as a per-byte mask.
fn covered(spec: &FieldSpec<IngameFaceField>, byte: usize) -> u8 {
    let mut mask = 0u8;
    for i in 0..spec.bit_width {
        let pos = spec.bit_offset + i;
        if pos / 8 == byte as u32 {
            mask |= 1 << (pos % 8);
        }
    }
    mask
}

/// A run with no two equal bytes.
fn run() -> Vec<u8> {
    (0..50u8)
        .map(|i| i.wrapping_mul(37).wrapping_add(11))
        .collect()
}

#[test]
fn set_then_get_round_trips_every_field_and_touches_only_its_bits() {
    for field in IngameFaceField::ALL {
        let spec = spec(field);
        let mut face = IngameFace::from_bytes(run());
        let before = face.bytes().to_vec();
        let max = (1u8 << spec.bit_width) - 1;
        face.set(spec.field, max).expect("the max fits");
        assert_eq!(face.get(spec.field).expect("covered"), max, "{:?}", spec.field);
        for (byte, (&after, &was)) in face.bytes().iter().zip(&before).enumerate() {
            let keep = !covered(&spec, byte);
            assert_eq!(
                after & keep,
                was & keep,
                "{:?} changed bits outside its run in byte {byte}",
                spec.field
            );
        }
        assert!(matches!(
            face.set(spec.field, max + 1),
            Err(CodecError::ValueTooWide { .. })
        ));
    }
}

#[test]
fn an_unread_run_is_no_ingame_face_run_not_a_panic() {
    let mut face = IngameFace::default();
    assert!(matches!(
        face.get(IngameFaceField::SkinColor),
        Err(CodecError::NoIngameFaceRun { .. })
    ));
    assert!(matches!(
        face.set(IngameFaceField::SkinColor, 1),
        Err(CodecError::NoIngameFaceRun { .. })
    ));
    assert!(face.normalized().is_empty());
}

#[test]
fn normalized_zeroes_exactly_the_gloves_and_skin_bits() {
    let face = IngameFace::from_bytes(run());
    let out = face.normalized();
    let mut masked = vec![0u8; out.len()];
    for field in [
        IngameFaceField::PlayerGloves,
        IngameFaceField::PlayerGlovesColor,
        IngameFaceField::SkinColor,
    ] {
        for (byte, mask) in masked.iter_mut().enumerate() {
            *mask |= covered(&spec(field), byte);
        }
    }
    for byte in 0..out.len() {
        assert_eq!(out[byte] & masked[byte], 0, "byte {byte} keeps a masked bit");
        assert_eq!(
            out[byte] & !masked[byte],
            face.bytes()[byte] & !masked[byte],
            "byte {byte} lost an unmasked bit"
        );
    }
    // Seven bits exactly: byte 0 low 4, byte 23 low 3.
    assert_eq!(masked.iter().map(|m| m.count_ones()).sum::<u32>(), 7);
    assert_eq!(masked[0], 0x0F);
    assert_eq!(masked[23], 0x07);
}

#[test]
fn the_skin_reads_its_three_bits_of_byte_23() {
    let mut bytes = vec![0u8; 50];
    bytes[23] = 0b1111_1101;
    let mut face = IngameFace::from_bytes(bytes);
    assert_eq!(face.get(IngameFaceField::SkinColor).unwrap(), 5);
    face.set(IngameFaceField::SkinColor, 2).unwrap();
    assert_eq!(face.bytes()[23], 0b1111_1010);
    // A 23-byte run does not reach byte 23.
    let short = IngameFace::from_bytes(vec![0xFF; 23]);
    assert!(matches!(
        short.get(IngameFaceField::SkinColor),
        Err(CodecError::NoIngameFaceRun { .. })
    ));
    assert_eq!(short.get(IngameFaceField::PlayerGlovesColor).unwrap(), 7);
}

#[test]
fn copy_from_fills_the_prefix_and_counts_the_dropped_tail() {
    let mut target = IngameFace::from_bytes(vec![1; 46]);
    let source = IngameFace::from_bytes(vec![2; 50]);
    assert_eq!(target.copy_from(&source), 4);
    assert_eq!(target.bytes(), &[2u8; 46][..]);
    let mut longer = IngameFace::from_bytes(vec![3; 50]);
    let shorter = IngameFace::from_bytes(vec![4; 46]);
    assert_eq!(longer.copy_from(&shorter), 0);
    assert_eq!(&longer.bytes()[..46], &[4u8; 46][..]);
    assert_eq!(&longer.bytes()[46..], &[3u8; 4][..]);
}

#[test]
fn the_fingerprint_is_the_sha256_prefix_of_the_normalized_run() {
    // An all-zero run is its own normalized form.
    let zero = IngameFace::from_bytes(vec![0u8; 46]);
    assert_eq!(face_hash(&zero).to_string(), "878f32f7");
    // The gloves, gloves-colour and skin bits are masked before hashing.
    let ones = IngameFace::from_bytes(vec![0xffu8; 46]);
    let mut masked = vec![0xffu8; 46];
    masked[0] = 0xf0;
    masked[23] = 0xf8;
    assert_eq!(ones.normalized(), masked);
    assert_eq!(face_hash(&ones).to_string(), "2c6dd23e");
    // Only masked bits differ: the same fingerprint.
    let mut other = vec![0xffu8; 46];
    other[0] = 0xf3;
    other[23] = 0xf9;
    assert_eq!(face_hash(&IngameFace::from_bytes(other)), face_hash(&ones));
}

#[test]
fn the_undecoded_bits_leave_out_every_known_field() {
    let face = IngameFace::from_bytes(vec![0xffu8; 46]);
    let mut expected = vec![0xffu8; 46];
    for field in IngameFaceField::ALL {
        let s = spec(field);
        for byte in 0..expected.len() {
            expected[byte] &= !covered(&s, byte);
        }
    }
    assert_eq!(face.undecoded(), expected);
}
