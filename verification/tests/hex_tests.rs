//! The HEX parser: record framing, address mapping, checksums, and the
//! derived write-set.

use midi_studio_loader::hex::{checksum_ihex, FirmwareImage, HexError};
use midi_studio_loader::teensy41;

fn ihex_record(addr: u16, rec_type: u8, payload: &[u8]) -> String {
    let mut bytes: Vec<u8> = Vec::new();
    bytes.push(payload.len() as u8);
    bytes.extend_from_slice(&addr.to_be_bytes());
    bytes.push(rec_type);
    bytes.extend_from_slice(payload);
    let cksum = checksum_ihex(&bytes);
    bytes.push(cksum);

    let mut s = String::from(":");
    for b in bytes {
        s.push_str(&format!("{b:02X}"));
    }
    s
}

fn parse(content: &str) -> Result<FirmwareImage, HexError> {
    let bytes: Vec<u8> = content.as_bytes().to_vec();
    FirmwareImage::parse_teensy41(&bytes)
}

#[test]
fn test_load_teensy41_maps_flexspi_base() {
    // Set extended linear address = 0x6000 -> 0x60000000 (FlexSPI base)
    let ext = ihex_record(0x0000, 0x04, &[0x60, 0x00]);
    let data = ihex_record(0x0010, 0x00, &[0xDE, 0xAD, 0xBE, 0xEF]);
    let eof = ihex_record(0x0000, 0x01, &[]);

    let content = format!("{ext}\n{data}\n{eof}\n");
    let fw = parse(&content).unwrap();
    assert_eq!(fw.data[0x10], 0xDE);
    assert_eq!(fw.data[0x11], 0xAD);
    assert_eq!(fw.data[0x12], 0xBE);
    assert_eq!(fw.data[0x13], 0xEF);
    assert!(fw.blocks_to_write.contains(&0));
}

#[test]
fn test_load_teensy41_rejects_out_of_range_address() {
    // ext linear address = 0x607C -> 0x607C0000 (just beyond FlexSPI mapped range)
    let ext = ihex_record(0x0000, 0x04, &[0x60, 0x7C]);
    let data = ihex_record(0x0000, 0x00, &[0x01]);
    let eof = ihex_record(0x0000, 0x01, &[]);

    let content = format!("{ext}\n{data}\n{eof}\n");
    let err = match parse(&content) {
        Ok(_) => panic!("expected AddressOutOfRange"),
        Err(e) => e,
    };
    match err {
        HexError::AddressOutOfRange { .. } => {}
        _ => panic!("expected AddressOutOfRange, got {err:?}"),
    }
}

#[test]
fn test_load_teensy41_detects_bad_checksum() {
    // Record with wrong checksum (last byte '00')
    let bad = ":04001000DEADBEEF00".to_string();
    let eof = ihex_record(0x0000, 0x01, &[]);
    let content = format!("{bad}\n{eof}\n");
    let err = match parse(&content) {
        Ok(_) => panic!("expected InvalidChecksum"),
        Err(e) => e,
    };
    match err {
        HexError::InvalidChecksum { .. } => {}
        _ => panic!("expected InvalidChecksum, got {err:?}"),
    }
}

#[test]
fn sparse_write_set_lists_touched_blocks_only() {
    // One byte in block 2 and one 0xFF byte in block 3: only block 0
    // and block 2 are written.
    let d2 = ihex_record(2048, 0x00, &[0x42]);
    let d3 = ihex_record(3072, 0x00, &[0xFF]);
    let eof = ihex_record(0x0000, 0x01, &[]);
    let content = format!("{d2}\n{d3}\n{eof}\n");
    let fw = parse(&content).unwrap();
    assert!(fw.blocks_to_write.contains(&0));
    assert!(fw.blocks_to_write.contains(&2048));
    assert!(!fw.blocks_to_write.contains(&1024));
    assert!(!fw.blocks_to_write.contains(&3072));
    assert_eq!(fw.byte_count, 2);
    assert_eq!(fw.num_blocks, teensy41::NUM_BLOCKS);
}

#[test]
fn extended_linear_outside_window_passes_through() {
    // ext linear 0x0001 -> 0x00010000, inside flash, no normalization.
    let ext = ihex_record(0x0000, 0x04, &[0x00, 0x01]);
    let data = ihex_record(0x0010, 0x00, &[0x5A]);
    let eof = ihex_record(0x0000, 0x01, &[]);
    let content = format!("{ext}\n{data}\n{eof}\n");
    let fw = parse(&content).unwrap();
    assert_eq!(fw.data[0x10010], 0x5A);
}

#[test]
fn extended_segment_shifts_by_four_bits() {
    let seg = ihex_record(0x0000, 0x02, &[0x10, 0x00]);
    let data = ihex_record(0x0000, 0x00, &[0x77]);
    let eof = ihex_record(0x0000, 0x01, &[]);
    let content = format!("{seg}\n{data}\n{eof}\n");
    let fw = parse(&content).unwrap();
    assert_eq!(fw.data[0x1000 << 4], 0x77);
}

#[test]
fn records_after_eof_are_ignored() {
    let data = ihex_record(0x0000, 0x00, &[0x11]);
    let eof = ihex_record(0x0000, 0x01, &[]);
    let late = ihex_record(0x0020, 0x00, &[0x22]);
    let content = format!("{data}\n{eof}\n{late}\n");
    let fw = parse(&content).unwrap();
    assert_eq!(fw.data[0x0000], 0x11);
    assert_eq!(fw.data[0x0020], 0xFF);
}

#[test]
fn missing_colon_is_invalid_line() {
    let content = "0B0010006164647265737320676170A7\n";
    match parse(content) {
        Err(HexError::InvalidLine { line_no, msg }) => {
            assert_eq!(line_no, 1);
            assert_eq!(msg, "missing ':' prefix");
        }
        other => panic!("expected InvalidLine, got {other:?}"),
    }
}

#[test]
fn odd_digit_count_is_invalid_line() {
    match parse(":0400100\n") {
        Err(HexError::InvalidLine { msg, .. }) => {
            assert_eq!(msg, "odd number of hex digits");
        }
        other => panic!("expected InvalidLine, got {other:?}"),
    }
}

#[test]
fn bad_digit_is_invalid_line() {
    match parse(":0400100G\n") {
        Err(HexError::InvalidLine { msg, .. }) => {
            assert_eq!(msg, "invalid hex digit");
        }
        other => panic!("expected InvalidLine, got {other:?}"),
    }
}

#[test]
fn short_record_is_invalid_line() {
    match parse(":0011\n") {
        Err(HexError::InvalidLine { msg, .. }) => {
            assert_eq!(msg, "record too short");
        }
        other => panic!("expected InvalidLine, got {other:?}"),
    }
}

#[test]
fn length_field_mismatch_is_invalid_line() {
    // Length field says 4 but only two payload bytes follow.
    match parse(":04001000DEAD00\n") {
        Err(HexError::InvalidLine { msg, .. }) => {
            assert!(msg.starts_with("bad length (expected "));
        }
        other => panic!("expected InvalidLine, got {other:?}"),
    }
}

#[test]
fn non_ascii_text_is_an_invalid_line_not_binary() {
    // A valid UTF-8 line with an accented letter is text: it fails the
    // digit check, not the text check.  The letter is two bytes, so a
    // trailing digit pair keeps the count even.
    match parse(":\u{e9}99\n") {
        Err(HexError::InvalidLine { msg, .. }) => {
            assert_eq!(msg, "invalid hex digit");
        }
        other => panic!("expected InvalidLine, got {other:?}"),
    }
}

#[test]
fn binary_bytes_are_not_text() {
    let content: Vec<u8> = vec![0x7F, 0x45, 0x4C, 0x46, 0xFF, 0xFE, 0x0A];
    match FirmwareImage::parse_teensy41(&content) {
        Err(HexError::NotText { line_no }) => assert_eq!(line_no, 1),
        other => panic!("expected NotText, got {other:?}"),
    }
}

#[test]
fn blank_lines_are_skipped_and_numbering_kept() {
    let bad = ":04001000DEADBEEF00";
    let content = format!("\n  \n{bad}\n");
    match parse(&content) {
        Err(HexError::InvalidChecksum { line_no }) => assert_eq!(line_no, 3),
        other => panic!("expected InvalidChecksum, got {other:?}"),
    }
}

#[test]
fn checksum_of_known_record_bytes() {
    // :0B0010006164647265737320676170A7 from the format's description.
    let bytes = [
        0x0Bu8, 0x00, 0x10, 0x00, 0x61, 0x64, 0x64, 0x72, 0x65, 0x73, 0x73, 0x20, 0x67, 0x61,
        0x70,
    ];
    assert_eq!(checksum_ihex(&bytes), 0xA7);
}
