//! The PES 16-21 keyed container: a 320-byte salt encoding the file key, an
//! encrypted file header (176 bytes on 16/17, 208 on 18-21), then four sections
//! (description, logo, payload, serial) each encrypted under a per-section key.
use vstd::prelude::*;

use super::mt19937::{crypt, crypt_spec, law_crypt_is_an_involution};
use super::{
    append_bytes, bytes_equal_at, header_size_of, le_bytes, le_u32_at, lemma_le_round_trip,
    push_u32_le, read_u32_le, ContainerError, MasterKey, SaveContainer, Scheme,
};

verus! {

/// The encryption-header ("salt") byte count at the start of every keyed save.
pub const SALT_SIZE: usize = 320;

/// The file header carries the effective key in `[0..64]`, four u32 sizes in
/// `[64..80]` (payload, logo, description, serial units), then the identifier.
pub const SIZES_OFFSET: usize = 64;

/// Where the identifier starts in the file header.
pub const IDENTIFIER_OFFSET: usize = 80;

/// The key the salt's first 256 bytes are encrypted under: the effective key XOR
/// the salt's last 64 bytes.
pub open spec fn salt_key_spec(effective: Seq<u8>, salt: Seq<u8>) -> Seq<u8> {
    Seq::new(64, |i: int| effective[i] ^ salt[256 + i])
}

/// The decrypted salt: its first 256 bytes decrypted under the salt key, then its
/// last 64 bytes verbatim.
pub open spec fn decrypted_salt_spec(effective: Seq<u8>, salt: Seq<u8>) -> Seq<u8> {
    crypt_spec(salt_key_spec(effective, salt), salt.subrange(0, 256)) + salt.subrange(256, 320)
}

/// The file key: the XOR of a decrypted salt's five 64-byte blocks.
pub open spec fn file_key_spec(ds: Seq<u8>) -> Seq<u8> {
    Seq::new(64, |i: int| ds[i] ^ ds[64 + i] ^ ds[128 + i] ^ ds[192 + i] ^ ds[256 + i])
}

/// The file key of `salt` under the effective key.
pub open spec fn salt_file_key_spec(effective: Seq<u8>, salt: Seq<u8>) -> Seq<u8> {
    file_key_spec(decrypted_salt_spec(effective, salt))
}

/// Section key `n`: every 8-byte lane of the file key XOR `n` as a little-endian u64.
pub open spec fn section_key_spec(file_key: Seq<u8>, n: u64) -> Seq<u8> {
    Seq::new(64, |i: int| file_key[i] ^ ((n >> ((8 * (i % 8)) as u64)) as u8))
}

/// The sections a keyed file holds under `key`, as (description, logo, payload,
/// identifier, serial), or why it holds none.
pub open spec fn decrypt_spec(b: Seq<u8>, key: MasterKey) -> Result<
    (Seq<u8>, Seq<u8>, Seq<u8>, Seq<u8>, Seq<u8>),
    ContainerError,
> {
    let hs = header_size_of(key.version) as int;
    let len = b.len() as int;
    if len < SALT_SIZE || len - SALT_SIZE < 64 {
        Err(ContainerError::Unrecognized)
    } else {
        let hb = len - SALT_SIZE;
        let fk = salt_file_key_spec(key.effective@, b.subrange(0, 320));
        let header = crypt_spec(
            section_key_spec(fk, hs as u64),
            b.subrange(320, 320 + if hb < hs { hb } else { hs }),
        );
        if header.subrange(0, 64) != key.effective@ {
            Err(ContainerError::Unrecognized)
        } else if hb < hs {
            Err(ContainerError::Truncated { needed: (320 + hs) as usize, available: len as usize })
        } else {
            let payload_size = le_u32_at(header, 64) as int;
            let logo_size = le_u32_at(header, 68) as int;
            let description_size = le_u32_at(header, 72) as int;
            let serial_size = 2 * le_u32_at(header, 76) as int;
            let needed = 320 + hs + description_size + logo_size + payload_size + serial_size;
            if serial_size > usize::MAX || needed > usize::MAX {
                Err(ContainerError::Truncated { needed: usize::MAX, available: len as usize })
            } else if len < needed {
                Err(ContainerError::Truncated { needed: needed as usize, available: len as usize })
            } else if len > needed {
                Err(ContainerError::TrailingBytes((len - needed) as usize))
            } else {
                let o0 = 320 + hs;
                let o1 = o0 + description_size;
                let o2 = o1 + logo_size;
                let o3 = o2 + payload_size;
                Ok(
                    (
                        crypt_spec(section_key_spec(fk, 0), b.subrange(o0, o1)),
                        crypt_spec(section_key_spec(fk, 1), b.subrange(o1, o2)),
                        crypt_spec(section_key_spec(fk, 2), b.subrange(o2, o3)),
                        header.subrange(80, hs),
                        crypt_spec(section_key_spec(fk, 3), b.subrange(o3, needed)),
                    ),
                )
            }
        }
    }
}

/// The decrypted file header a keyed file of these sections carries.
pub open spec fn header_spec(
    key: MasterKey,
    description: Seq<u8>,
    logo: Seq<u8>,
    payload: Seq<u8>,
    identifier: Seq<u8>,
    serial: Seq<u8>,
) -> Seq<u8> {
    key.effective@ + le_bytes(payload.len() as u32) + le_bytes(logo.len() as u32) + le_bytes(
        description.len() as u32,
    ) + le_bytes((serial.len() / 2) as u32) + identifier
}

/// The bytes a keyed file of these sections is written as under `key` with `salt`
/// as its first 320 bytes, or why it cannot be written.
pub open spec fn encrypt_spec(
    key: MasterKey,
    salt: Seq<u8>,
    description: Seq<u8>,
    logo: Seq<u8>,
    payload: Seq<u8>,
    identifier: Seq<u8>,
    serial: Seq<u8>,
) -> Result<Seq<u8>, ContainerError> {
    let hs = header_size_of(key.version) as int;
    if serial.len() % 2 != 0 {
        Err(ContainerError::OddSerial(serial.len() as usize))
    } else if identifier.len() != hs - 80 {
        Err(ContainerError::BadIdentifier { expected: (hs - 80) as usize, got: identifier.len() as usize })
    } else if payload.len() > u32::MAX {
        Err(ContainerError::SectionTooLarge { section: 0, size: payload.len() as usize })
    } else if logo.len() > u32::MAX {
        Err(ContainerError::SectionTooLarge { section: 1, size: logo.len() as usize })
    } else if description.len() > u32::MAX {
        Err(ContainerError::SectionTooLarge { section: 2, size: description.len() as usize })
    } else if serial.len() / 2 > u32::MAX {
        Err(ContainerError::SectionTooLarge { section: 3, size: (serial.len() / 2) as usize })
    } else {
        let fk = salt_file_key_spec(key.effective@, salt);
        Ok(
            salt + crypt_spec(
                section_key_spec(fk, hs as u64),
                header_spec(key, description, logo, payload, identifier, serial),
            ) + crypt_spec(section_key_spec(fk, 0), description) + crypt_spec(
                section_key_spec(fk, 1),
                logo,
            ) + crypt_spec(section_key_spec(fk, 2), payload) + crypt_spec(section_key_spec(fk, 3), serial),
        )
    }
}

/// The decrypted salt: `header_key = effective ^ salt[256..320]`, the keystream under
/// `header_key` XORed onto `salt[0..256]`, then `salt[256..320]` verbatim. The same
/// routine runs on write, so the file key derivation is shared by decrypt and encrypt.
fn decrypt_salt(key: &MasterKey, salt: &[u8]) -> (ds: Vec<u8>)
    requires
        salt@.len() >= SALT_SIZE,
    ensures
        ds@ == decrypted_salt_spec(key.effective@, salt@),
{
    let mut header_key: Vec<u8> = Vec::new();
    let mut i: usize = 0;
    while i < 64
        invariant
            i <= 64,
            salt@.len() >= SALT_SIZE,
            header_key@.len() == i,
            forall|t: int| 0 <= t < i ==> #[trigger] header_key@[t] == key.effective@[t] ^ salt@[256 + t],
        decreases 64 - i,
    {
        header_key.push(key.effective[i] ^ salt[256 + i]);
        i = i + 1;
    }
    assert(header_key@ =~= salt_key_spec(key.effective@, salt@));
    let mut ds = crypt(header_key.as_slice(), vstd::slice::slice_subrange(salt, 0, 256));
    append_bytes(&mut ds, vstd::slice::slice_subrange(salt, 256, 320));
    ds
}

/// The file key: the XOR of the decrypted salt's five 64-byte blocks.
fn file_key(ds: &[u8]) -> (key: Vec<u8>)
    requires
        ds@.len() == SALT_SIZE,
    ensures
        key@ == file_key_spec(ds@),
{
    let mut key: Vec<u8> = Vec::new();
    let mut i: usize = 0;
    while i < 64
        invariant
            i <= 64,
            ds@.len() == SALT_SIZE,
            key@.len() == i,
            forall|t: int| 0 <= t < i ==> #[trigger] key@[t] == file_key_spec(ds@)[t],
        decreases 64 - i,
    {
        key.push(ds[i] ^ ds[64 + i] ^ ds[128 + i] ^ ds[192 + i] ^ ds[256 + i]);
        i = i + 1;
    }
    assert(key@ =~= file_key_spec(ds@));
    key
}

/// The file key of `salt` under `key`, without decrypting anything else.
pub fn salt_file_key(key: &MasterKey, salt: &[u8]) -> (fk: Vec<u8>)
    requires
        salt@.len() >= SALT_SIZE,
    ensures
        fk@ == salt_file_key_spec(key.effective@, salt@),
{
    let ds = decrypt_salt(key, salt);
    file_key(ds.as_slice())
}

/// Section key `n`: every 8-byte lane of the file key XOR `n` as a little-endian u64.
/// `n` is the header's byte length for the header itself, then 0 description, 1 logo,
/// 2 payload, 3 serial.
pub fn section_key(file_key: &[u8], n: u64) -> (key: Vec<u8>)
    requires
        file_key@.len() == 64,
    ensures
        key@ == section_key_spec(file_key@, n),
{
    let mut key: Vec<u8> = Vec::new();
    let mut i: usize = 0;
    while i < 64
        invariant
            i <= 64,
            file_key@.len() == 64,
            key@.len() == i,
            forall|t: int| 0 <= t < i ==> #[trigger] key@[t] == section_key_spec(file_key@, n)[t],
        decreases 64 - i,
    {
        key.push(file_key[i] ^ ((n >> (8 * (i % 8)) as u64) as u8));
        i = i + 1;
    }
    assert(key@ =~= section_key_spec(file_key@, n));
    key
}

/// Eight bytes read as a little-endian u64: the first byte is the least significant.
pub open spec fn le_u64_of_bytes(b0: u8, b1: u8, b2: u8, b3: u8, b4: u8, b5: u8, b6: u8, b7: u8) -> u64 {
    (b0 as u64) | ((b1 as u64) << 8u64) | ((b2 as u64) << 16u64) | ((b3 as u64) << 24u64) | ((
    b4 as u64) << 32u64) | ((b5 as u64) << 40u64) | ((b6 as u64) << 48u64) | ((b7 as u64) << 56u64)
}

/// The 8-byte lane `j` of a 64-byte key, read as a little-endian u64.
pub open spec fn lane_u64(key: Seq<u8>, j: int) -> u64 {
    le_u64_of_bytes(
        key[8 * j],
        key[8 * j + 1],
        key[8 * j + 2],
        key[8 * j + 3],
        key[8 * j + 4],
        key[8 * j + 5],
        key[8 * j + 6],
        key[8 * j + 7],
    )
}

proof fn lemma_xor_bytes_is_xor_of_lane(a0: u8, a1: u8, a2: u8, a3: u8, a4: u8, a5: u8, a6: u8, a7: u8, n: u64)
    by (bit_vector)
    ensures
        le_u64_of_bytes(
            a0 ^ (n as u8),
            a1 ^ ((n >> 8u64) as u8),
            a2 ^ ((n >> 16u64) as u8),
            a3 ^ ((n >> 24u64) as u8),
            a4 ^ ((n >> 32u64) as u8),
            a5 ^ ((n >> 40u64) as u8),
            a6 ^ ((n >> 48u64) as u8),
            a7 ^ ((n >> 56u64) as u8),
        ) == le_u64_of_bytes(a0, a1, a2, a3, a4, a5, a6, a7) ^ n,
{
}

/// Section key `n` is the file key with `n` XORed into each of its eight 8-byte
/// lanes, every lane read as a little-endian u64: `n`'s low byte lands on the
/// first byte of each lane (so section key 1 differs from the file key exactly in
/// bytes 0, 8, ..., 56, each XOR 1), and the rest of the key is the file key's.
pub proof fn law_section_key_xors_n_into_each_little_endian_lane(file_key: Seq<u8>, n: u64)
    requires
        file_key.len() == 64,
    ensures
        section_key_spec(file_key, n).len() == 64,
        forall|j: int|
            0 <= j < 8 ==> #[trigger] lane_u64(section_key_spec(file_key, n), j) == lane_u64(file_key, j) ^ n,
        forall|i: int| 0 <= i < 64 && i % 8 == 0 ==> #[trigger] section_key_spec(file_key, n)[i] == file_key[i] ^ (n as u8),
        n < 256 ==> forall|i: int| 0 <= i < 64 && i % 8 != 0 ==> #[trigger] section_key_spec(file_key, n)[i] == file_key[i],
{
    let k = section_key_spec(file_key, n);
    assert forall|j: int| 0 <= j < 8 implies #[trigger] lane_u64(k, j) == lane_u64(file_key, j) ^ n by {
        assert((8 * j) % 8 == 0);
        assert((8 * j + 1) % 8 == 1);
        assert((8 * j + 2) % 8 == 2);
        assert((8 * j + 3) % 8 == 3);
        assert((8 * j + 4) % 8 == 4);
        assert((8 * j + 5) % 8 == 5);
        assert((8 * j + 6) % 8 == 6);
        assert((8 * j + 7) % 8 == 7);
        assert(n >> 0u64 == n) by (bit_vector);
        lemma_xor_bytes_is_xor_of_lane(
            file_key[8 * j],
            file_key[8 * j + 1],
            file_key[8 * j + 2],
            file_key[8 * j + 3],
            file_key[8 * j + 4],
            file_key[8 * j + 5],
            file_key[8 * j + 6],
            file_key[8 * j + 7],
            n,
        );
    }
    assert forall|i: int| 0 <= i < 64 && i % 8 == 0 implies #[trigger] k[i] == file_key[i] ^ (n as u8) by {
        assert(n >> 0u64 == n) by (bit_vector);
    }
    if n < 256 {
        assert forall|i: int| 0 <= i < 64 && i % 8 != 0 implies #[trigger] k[i] == file_key[i] by {
            let s: u64 = (8 * (i % 8)) as u64;
            assert(8 <= s <= 56);
            assert(n < 256 && 8 <= s <= 56 ==> (n >> s) as u8 == 0u8) by (bit_vector);
            let x: u8 = file_key[i];
            assert(x ^ 0u8 == x) by (bit_vector);
        }
    }
}

/// A copy of `bytes[start..end]`.
fn copy_range(bytes: &[u8], start: usize, end: usize) -> (out: Vec<u8>)
    requires
        start <= end <= bytes@.len(),
    ensures
        out@ == bytes@.subrange(start as int, end as int),
{
    let mut out: Vec<u8> = Vec::new();
    append_bytes(&mut out, vstd::slice::slice_subrange(bytes, start, end));
    assert(out@ =~= bytes@.subrange(start as int, end as int));
    out
}

/// `bytes[start..end]` decrypted under section key `n` of `file_key`.
fn section(file_key: &[u8], n: u64, bytes: &[u8], start: usize, end: usize) -> (out: Vec<u8>)
    requires
        file_key@.len() == 64,
        start <= end <= bytes@.len(),
    ensures
        out@ == crypt_spec(section_key_spec(file_key@, n), bytes@.subrange(start as int, end as int)),
{
    let k = section_key(file_key, n);
    crypt(k.as_slice(), vstd::slice::slice_subrange(bytes, start, end))
}

/// `bytes` decrypted under `key`, or `Unrecognized` when the header's first 64 bytes
/// do not come out as the effective key. A matching key whose declared sizes do not
/// land exactly on the end of the input is `Truncated`/`TrailingBytes`.
pub fn decrypt(bytes: &[u8], key: &MasterKey) -> (r: Result<SaveContainer, ContainerError>)
    ensures
        match decrypt_spec(bytes@, *key) {
            Ok((d, l, p, i, s)) => r matches Ok(c) && c.scheme == Scheme::Keyed(*key) && c.description@ == d
                && c.logo@ == l && c.payload@ == p && c.identifier@ == i && c.serial@ == s,
            Err(e) => r == Err::<SaveContainer, ContainerError>(e),
        },
{
    let hs = key.header_size();
    let len = bytes.len();
    if len < SALT_SIZE {
        return Err(ContainerError::Unrecognized);
    }
    let hb = len - SALT_SIZE;
    if hb < 64 {
        return Err(ContainerError::Unrecognized);
    }
    let fk = salt_file_key(key, vstd::slice::slice_subrange(bytes, 0, SALT_SIZE));
    let take = if hb < hs { hb } else { hs };
    let header = section(fk.as_slice(), hs as u64, bytes, SALT_SIZE, SALT_SIZE + take);
    if !bytes_equal_at(vstd::array::array_as_slice(&key.effective), header.as_slice(), 0) {
        return Err(ContainerError::Unrecognized);
    }
    if hb < hs {
        return Err(ContainerError::Truncated { needed: SALT_SIZE + hs, available: len });
    }
    let payload_size = read_u32_le(header.as_slice(), SIZES_OFFSET) as usize;
    let logo_size = read_u32_le(header.as_slice(), SIZES_OFFSET + 4) as usize;
    let description_size = read_u32_le(header.as_slice(), SIZES_OFFSET + 8) as usize;
    let serial_units = read_u32_le(header.as_slice(), SIZES_OFFSET + 12) as usize;
    let serial_size = match serial_units.checked_mul(2) {
        Some(size) => size,
        None => {
            return Err(ContainerError::Truncated { needed: usize::MAX, available: len });
        },
    };
    let needed = match (SALT_SIZE + hs).checked_add(description_size) {
        Some(t) => match t.checked_add(logo_size) {
            Some(t) => match t.checked_add(payload_size) {
                Some(t) => t.checked_add(serial_size),
                None => None,
            },
            None => None,
        },
        None => None,
    };
    let needed = match needed {
        Some(needed) => needed,
        None => {
            return Err(ContainerError::Truncated { needed: usize::MAX, available: len });
        },
    };
    if len < needed {
        return Err(ContainerError::Truncated { needed, available: len });
    }
    if len > needed {
        return Err(ContainerError::TrailingBytes(len - needed));
    }
    let o0 = SALT_SIZE + hs;
    let o1 = o0 + description_size;
    let o2 = o1 + logo_size;
    let o3 = o2 + payload_size;
    let description = section(fk.as_slice(), 0, bytes, o0, o1);
    let logo = section(fk.as_slice(), 1, bytes, o1, o2);
    let payload = section(fk.as_slice(), 2, bytes, o2, o3);
    let serial = section(fk.as_slice(), 3, bytes, o3, needed);
    let identifier = copy_range(header.as_slice(), IDENTIFIER_OFFSET, hs);
    Ok(SaveContainer { scheme: Scheme::Keyed(*key), description, logo, payload, identifier, serial })
}

/// `container`'s sections encrypted under `key` with `salt` as the file's first 320
/// bytes. `serial.len()` must be even and `identifier.len()` must be
/// `header_size - 80`.
pub fn encrypt(container: &SaveContainer, salt: &[u8], key: &MasterKey) -> (r: Result<Vec<u8>, ContainerError>)
    requires
        salt@.len() == SALT_SIZE,
    ensures
        match encrypt_spec(
            *key,
            salt@,
            container.description@,
            container.logo@,
            container.payload@,
            container.identifier@,
            container.serial@,
        ) {
            Ok(b) => r matches Ok(out) && out@ == b,
            Err(e) => r == Err::<Vec<u8>, ContainerError>(e),
        },
{
    let hs = key.header_size();
    if container.serial.len() % 2 != 0 {
        return Err(ContainerError::OddSerial(container.serial.len()));
    }
    let expected = hs - IDENTIFIER_OFFSET;
    if container.identifier.len() != expected {
        return Err(ContainerError::BadIdentifier { expected, got: container.identifier.len() });
    }
    let max = u32::MAX as usize;
    if container.payload.len() > max {
        return Err(ContainerError::SectionTooLarge { section: 0, size: container.payload.len() });
    }
    if container.logo.len() > max {
        return Err(ContainerError::SectionTooLarge { section: 1, size: container.logo.len() });
    }
    if container.description.len() > max {
        return Err(ContainerError::SectionTooLarge { section: 2, size: container.description.len() });
    }
    if container.serial.len() / 2 > max {
        return Err(ContainerError::SectionTooLarge { section: 3, size: container.serial.len() / 2 });
    }
    let mut header: Vec<u8> = Vec::new();
    append_bytes(&mut header, vstd::array::array_as_slice(&key.effective));
    push_u32_le(&mut header, container.payload.len() as u32);
    push_u32_le(&mut header, container.logo.len() as u32);
    push_u32_le(&mut header, container.description.len() as u32);
    push_u32_le(&mut header, (container.serial.len() / 2) as u32);
    append_bytes(&mut header, container.identifier.as_slice());
    assert(header@ =~= header_spec(
        *key,
        container.description@,
        container.logo@,
        container.payload@,
        container.identifier@,
        container.serial@,
    ));
    let fk = salt_file_key(key, salt);
    let mut out: Vec<u8> = Vec::new();
    append_bytes(&mut out, salt);
    let h = section(fk.as_slice(), hs as u64, header.as_slice(), 0, header.len());
    append_bytes(&mut out, h.as_slice());
    let d = section(fk.as_slice(), 0, container.description.as_slice(), 0, container.description.len());
    append_bytes(&mut out, d.as_slice());
    let l = section(fk.as_slice(), 1, container.logo.as_slice(), 0, container.logo.len());
    append_bytes(&mut out, l.as_slice());
    let p = section(fk.as_slice(), 2, container.payload.as_slice(), 0, container.payload.len());
    append_bytes(&mut out, p.as_slice());
    let s = section(fk.as_slice(), 3, container.serial.as_slice(), 0, container.serial.len());
    append_bytes(&mut out, s.as_slice());
    assert(header@.subrange(0, header@.len() as int) =~= header@);
    assert(container.description@.subrange(0, container.description@.len() as int) =~= container.description@);
    assert(container.logo@.subrange(0, container.logo@.len() as int) =~= container.logo@);
    assert(container.payload@.subrange(0, container.payload@.len() as int) =~= container.payload@);
    assert(container.serial@.subrange(0, container.serial@.len() as int) =~= container.serial@);
    Ok(out)
}

/// A keyed file written under `key` decrypts back, under the same key, to the
/// sections it was written from.
pub proof fn law_decrypt_undoes_encrypt(
    key: MasterKey,
    salt: Seq<u8>,
    description: Seq<u8>,
    logo: Seq<u8>,
    payload: Seq<u8>,
    identifier: Seq<u8>,
    serial: Seq<u8>,
    bytes: Seq<u8>,
)
    requires
        salt.len() == SALT_SIZE,
        encrypt_spec(key, salt, description, logo, payload, identifier, serial) == Ok::<_, ContainerError>(bytes),
        bytes.len() <= usize::MAX,
    ensures
        decrypt_spec(bytes, key) == Ok::<_, ContainerError>((description, logo, payload, identifier, serial)),
{
    let hs = header_size_of(key.version) as int;
    let fk = salt_file_key_spec(key.effective@, salt);
    let header = header_spec(key, description, logo, payload, identifier, serial);
    let hk = section_key_spec(fk, hs as u64);
    let k0 = section_key_spec(fk, 0);
    let k1 = section_key_spec(fk, 1);
    let k2 = section_key_spec(fk, 2);
    let k3 = section_key_spec(fk, 3);
    lemma_le_round_trip(payload.len() as u32);
    lemma_le_round_trip(logo.len() as u32);
    lemma_le_round_trip(description.len() as u32);
    lemma_le_round_trip((serial.len() / 2) as u32);
    law_crypt_is_an_involution(hk, header);
    law_crypt_is_an_involution(k0, description);
    law_crypt_is_an_involution(k1, logo);
    law_crypt_is_an_involution(k2, payload);
    law_crypt_is_an_involution(k3, serial);
    assert(header.len() == hs);
    let o0 = 320 + hs;
    let o1 = o0 + description.len();
    let o2 = o1 + logo.len();
    let o3 = o2 + payload.len();
    let end = o3 + serial.len();
    assert(bytes.len() == end);
    assert(bytes.subrange(0, 320) =~= salt);
    assert(bytes.subrange(320, 320 + hs) =~= crypt_spec(hk, header));
    assert(bytes.subrange(o0, o1) =~= crypt_spec(k0, description));
    assert(bytes.subrange(o1, o2) =~= crypt_spec(k1, logo));
    assert(bytes.subrange(o2, o3) =~= crypt_spec(k2, payload));
    assert(bytes.subrange(o3, end) =~= crypt_spec(k3, serial));
    assert(header.subrange(0, 64) =~= key.effective@);
    assert(header.subrange(80, hs) =~= identifier);
    assert(le_u32_at(header, 64) == payload.len() as u32);
    assert(le_u32_at(header, 68) == logo.len() as u32);
    assert(le_u32_at(header, 72) == description.len() as u32);
    assert(le_u32_at(header, 76) == (serial.len() / 2) as u32);
}

} // verus!
