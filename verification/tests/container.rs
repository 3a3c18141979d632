use pes_savefile::container::{ContainerError, MasterKey, SaveContainer, Scheme};
use pes_savefile::version::PesVersion;

/// Stand-in master keys: the real effective keys are data the caller supplies.
fn keys() -> Vec<MasterKey> {
    [
        PesVersion::Pes16,
        PesVersion::Pes17,
        PesVersion::Pes18,
        PesVersion::Pes19,
        PesVersion::Pes20,
        PesVersion::Pes21,
    ]
    .iter()
    .enumerate()
    .map(|(k, &version)| MasterKey {
        version,
        effective: std::array::from_fn(|i| (i * 13 + k * 41 + 5) as u8),
    })
    .collect()
}

fn key(version: PesVersion) -> MasterKey {
    *keys().iter().find(|k| k.version == version).expect("a key")
}

/// A fixed non-zero salt for the synthetic round trips.
fn test_salt() -> [u8; 320] {
    std::array::from_fn(|i| (i % 251) as u8 + 1)
}

/// A small synthetic container for `key`.
fn synthetic(key: MasterKey) -> SaveContainer {
    SaveContainer {
        scheme: Scheme::Keyed(key),
        description: (0..384).map(|i| (i % 13) as u8).collect(),
        logo: vec![9; 37],
        payload: (0..1029).map(|i| (i % 7) as u8).collect(),
        identifier: (0..key.header_size() - 80)
            .map(|i| (i % 11) as u8)
            .collect(),
        serial: vec![b'S'; 46 * 2],
    }
}

#[test]
fn every_key_round_trips() {
    for key in keys() {
        let container = synthetic(key);
        let bytes = container.to_bytes(&test_salt()).expect("to_bytes");
        let back = SaveContainer::decrypt(&bytes, &keys()).expect("decrypt");
        assert_eq!(back, container, "{key:?}");
        assert_eq!(back.version(), key.version);
    }
}

#[test]
fn to_bytes_rejects_a_malformed_container() {
    let mut container = synthetic(key(PesVersion::Pes17));
    container.serial = vec![0; 3];
    assert_eq!(
        container.to_bytes(&test_salt()),
        Err(ContainerError::OddSerial(3))
    );
    let mut container = synthetic(key(PesVersion::Pes17));
    container.identifier = vec![0; 10];
    assert_eq!(
        container.to_bytes(&test_salt()),
        Err(ContainerError::BadIdentifier {
            expected: 96,
            got: 10
        })
    );
}

#[test]
fn pes15_round_trips() {
    let container = SaveContainer {
        scheme: Scheme::Pes15,
        description: (0..384).map(|i| (i % 9) as u8).collect(),
        logo: vec![5; 41],
        payload: (0..777).map(|i| (i % 5) as u8).collect(),
        identifier: Vec::new(),
        serial: Vec::new(),
    };
    let bytes = container.to_bytes(&test_salt()).expect("to_bytes");
    assert_eq!(bytes.len(), 433 + 4 + 41 + 4 + 777);
    assert_eq!(bytes[0], 1, "salt[0] is the seed");
    assert_eq!(SaveContainer::decrypt(&bytes, &keys()), Ok(container));
}

#[test]
fn short_or_unkeyed_bytes_are_unrecognized() {
    assert_eq!(
        SaveContainer::decrypt(&[], &keys()),
        Err(ContainerError::Unrecognized)
    );
    assert_eq!(
        SaveContainer::decrypt(&[0; 100], &keys()),
        Err(ContainerError::Unrecognized)
    );
    // A flipped salt byte or a flipped byte inside the header's 64-byte compare:
    // no key's compare holds.
    let bytes = synthetic(key(PesVersion::Pes16))
        .to_bytes(&test_salt())
        .expect("to_bytes");
    for at in [0usize, 320 + 10] {
        let mut corrupt = bytes.clone();
        corrupt[at] ^= 0xff;
        assert_eq!(
            SaveContainer::decrypt(&corrupt, &keys()),
            Err(ContainerError::Unrecognized)
        );
    }
}

#[test]
fn declared_sizes_must_land_on_the_end() {
    let container = synthetic(key(PesVersion::Pes19));
    let bytes = container.to_bytes(&test_salt()).expect("to_bytes");
    let short = &bytes[..bytes.len() - 20];
    assert_eq!(
        SaveContainer::decrypt(short, &keys()),
        Err(ContainerError::Truncated {
            needed: bytes.len(),
            available: short.len()
        })
    );
    let mut long = bytes.clone();
    long.push(0);
    assert_eq!(
        SaveContainer::decrypt(&long, &keys()),
        Err(ContainerError::TrailingBytes(1))
    );
    // The key's compare holds on a file cut inside the header.
    let head = &bytes[..320 + 100];
    assert_eq!(
        SaveContainer::decrypt(head, &keys()),
        Err(ContainerError::Truncated {
            needed: 320 + 208,
            available: 420
        })
    );
}

#[test]
fn the_pes15_lcg_stream_starts_from_the_seed() {
    let container = SaveContainer {
        scheme: Scheme::Pes15,
        description: vec![0; 384],
        logo: Vec::new(),
        payload: Vec::new(),
        identifier: Vec::new(),
        serial: Vec::new(),
    };
    let mut salt = test_salt();
    salt[0] = 195;
    let bytes = container.to_bytes(&salt).expect("to_bytes");
    // c = (195 * 21 + 7) % 32768 = 4102, key byte 4102 % 255 = 22; then
    // c = (4102 * 21 + 7) % 32768 = 20613, key byte 213.
    assert_eq!(bytes[49], 22);
    assert_eq!(bytes[50], 213);
}

#[test]
fn errors() {
    assert_eq!(SaveContainer::decrypt(&[], &keys()), Err(ContainerError::Unrecognized));
    assert_eq!(SaveContainer::decrypt(&[0; 100], &keys()), Err(ContainerError::Unrecognized));
    // A salt byte flipped or a byte inside the header's 64-byte integrity
    // compare flipped: no key's compare holds.
    let head = synthetic(key(PesVersion::Pes16)).to_bytes(&test_salt()).expect("to_bytes");
    for at in [0usize, 320 + 10] {
        let mut corrupt = head.clone();
        corrupt[at] ^= 0xff;
        assert_eq!(SaveContainer::decrypt(&corrupt, &keys()), Err(ContainerError::Unrecognized));
    }
    let container = synthetic(key(PesVersion::Pes19));
    let bytes = container.to_bytes(&test_salt()).expect("to_bytes");
    let short = &bytes[..bytes.len() - 20];
    assert_eq!(
        SaveContainer::decrypt(short, &keys()),
        Err(ContainerError::Truncated { needed: bytes.len(), available: short.len() })
    );
    let mut long = bytes.clone();
    long.push(0);
    assert_eq!(SaveContainer::decrypt(&long, &keys()), Err(ContainerError::TrailingBytes(1)));
}
