use pes_savefile::codec::bits::{read_bits, write_bits};

#[test]
fn a_run_crossing_a_byte_boundary_reads_and_writes() {
    let mut buf = [0xFFu8; 3];
    // A 7-bit run at bit 5 spans byte 0 bit 5 through byte 1 bit 3.
    write_bits(&mut buf, 5, 7, 0b101_1010);
    assert_eq!(read_bits(&buf, 5, 7), 0b101_1010);
    assert_eq!(buf, [0x5F, 0xFB, 0xFF]);
}

#[test]
fn a_write_touches_only_the_runs_bits() {
    let mut buf = [0xA5, 0x5A, 0xFF];
    write_bits(&mut buf, 5, 7, 0);
    assert_eq!(buf[0] & 0b0001_1111, 0xA5 & 0b0001_1111);
    assert_eq!(buf[0] & 0b1110_0000, 0);
    assert_eq!(buf[1] & 0b1111_0000, 0x5A & 0b1111_0000);
    assert_eq!(buf[2], 0xFF);
    write_bits(&mut buf, 5, 7, 0x7F);
    assert_eq!(buf, [0xE5, 0x5F, 0xFF]);
}

#[test]
fn reads_and_writes_at_the_records_edges() {
    let mut buf = [0u8; 5];
    write_bits(&mut buf, 0, 32, 0xDEAD_BEEF);
    assert_eq!(read_bits(&buf, 0, 32), 0xDEAD_BEEF);
    // Setting bit 8 (byte 1 bit 0) changes the word: 0xBE -> 0xBF.
    write_bits(&mut buf, 8, 1, 1);
    assert_eq!(read_bits(&buf, 0, 32), 0xDEAD_BFEF);
    write_bits(&mut buf, 39, 1, 1);
    assert_eq!(read_bits(&buf, 39, 1), 1);
    assert_eq!(buf[4], 0x80);
}

#[test]
fn a_run_past_the_end_reads_its_missing_bits_as_clear() {
    let buf = [0xFFu8; 2];
    // A 12-bit run at bit 8 has only its low 8 bits inside the data.
    assert_eq!(read_bits(&buf, 8, 12), 0xFF);
    let mut buf = [0u8; 2];
    write_bits(&mut buf, 12, 8, 0xAB);
    assert_eq!(buf, [0x00, 0xB0]);
}

#[test]
fn a_written_value_reads_back_and_the_neighbours_stay() {
    let mut buf = [0x3Cu8; 6];
    let before_low = read_bits(&buf, 0, 11);
    let before_high = read_bits(&buf, 30, 13);
    write_bits(&mut buf, 11, 19, 0x5_A5A5);
    assert_eq!(read_bits(&buf, 11, 19), 0x5_A5A5);
    assert_eq!(read_bits(&buf, 0, 11), before_low);
    assert_eq!(read_bits(&buf, 30, 13), before_high);
}
