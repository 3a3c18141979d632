use pes_savefile::container::mt19937::{crypt, Mt19937};

/// The published `mt19937ar.out` vectors for `init_by_array`.
#[test]
fn init_by_array_known_answers() {
    let mut twister = Mt19937::init_by_array(&[0x123, 0x234, 0x345, 0x456]);
    let draws: Vec<u32> = (0..5).map(|_| twister.next_u32()).collect();
    assert_eq!(
        draws,
        [1067595299, 955945823, 477289528, 4107218783, 4228976476]
    );
    let key: Vec<u32> = (0..16).collect();
    let mut twister = Mt19937::init_by_array(&key);
    let draws: Vec<u32> = (0..8).map(|_| twister.next_u32()).collect();
    assert_eq!(
        draws,
        [
            420751713, 1317948889, 718696439, 3740536405, 324974999, 2940687479, 1494208090,
            2664957016
        ]
    );
}

#[test]
fn keystream_known_answer() {
    let key: [u8; 64] = std::array::from_fn(|i| i as u8);
    assert_eq!(
        crypt(&key, &[0; 20]),
        [
            0x49, 0x17, 0x36, 0x3b, 0xdb, 0xb9, 0xc2, 0x56, 0x70, 0xa5, 0x17, 0x87, 0xbb, 0x1c,
            0xbb, 0xe1, 0xf8, 0x2c, 0xe8, 0x00
        ]
    );
    // A tail under four bytes uses the low bytes of the next word.
    assert_eq!(crypt(&key, &[0; 18]), crypt(&key, &[0; 20])[..18]);
}

#[test]
fn crypt_twice_gives_the_data_back() {
    let key: [u8; 64] = std::array::from_fn(|i| (i * 7 + 3) as u8);
    let data: Vec<u8> = (0..1031u32).map(|i| (i % 251) as u8).collect();
    let once = crypt(&key, &data);
    assert_ne!(once, data);
    assert_eq!(crypt(&key, &once), data);
}
