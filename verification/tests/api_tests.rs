//! The flash plan, error taxonomy, and the small rendering helpers.

use midi_studio_loader::api::{
    plan_teensy41_with_selection, settle_flash_result, wait_timeout, FlashError, FlashErrorKind,
    FlashOptions, FlashSelection,
};
use midi_studio_loader::halfkay::block_write_timeout_ms;
use midi_studio_loader::hex::checksum_ihex;
use midi_studio_loader::operation::OperationEvent;
use midi_studio_loader::operation_runner::RunOutcome;
use midi_studio_loader::reboot_api::{
    map_wait_error, select_error_for_reboot, settle_reboot_result, RebootError, RebootErrorKind,
};
use midi_studio_loader::strutil::{parse_usize, u64_to_hex_string, u64_to_string};
use midi_studio_loader::targets::{HalfKayTarget, SerialTarget, Target};

fn ihex_record(addr: u16, rec_type: u8, payload: &[u8]) -> String {
    let mut bytes: Vec<u8> = Vec::new();
    bytes.push(payload.len() as u8);
    bytes.extend_from_slice(&addr.to_be_bytes());
    bytes.push(rec_type);
    bytes.extend_from_slice(payload);
    let cksum = checksum_ihex(&bytes);
    bytes.push(cksum);
    let mut s = String::from(":");
    for b in bytes {
        s.push_str(&format!("{b:02X}"));
    }
    s
}

fn serial(port: &str) -> Target {
    Target::Serial(SerialTarget {
        port_name: port.to_string(),
        vid: 0x16C0,
        pid: 0x0483,
        serial_number: None,
        manufacturer: None,
        product: None,
    })
}

fn halfkay(path: &str) -> Target {
    Target::HalfKay(HalfKayTarget {
        vid: 0x16C0,
        pid: 0x0478,
        path: path.to_string(),
    })
}

#[test]
fn plan_reports_load_selection_and_bridge_need() {
    let ext = ihex_record(0x0000, 0x04, &[0x60, 0x00]);
    let data = ihex_record(0x0010, 0x00, &[0xDE, 0xAD, 0xBE, 0xEF]);
    let eof = ihex_record(0x0000, 0x01, &[]);
    let content: Vec<u8> = format!("{ext}\n{data}\n{eof}\n").into_bytes();

    let targets = vec![serial("COM5"), serial("COM6")];
    let opts = FlashOptions {
        serial_port: Some("COM6".to_string()),
        ..Default::default()
    };
    let mut events: Vec<OperationEvent> = Vec::new();
    let plan = plan_teensy41_with_selection(
        &content,
        &opts,
        &targets,
        &FlashSelection::Auto,
        &mut events,
    )
    .unwrap();
    assert_eq!(plan.selected_targets.len(), 1);
    assert_eq!(plan.selected_targets[0].id(), "serial:COM6");
    assert!(plan.needs_serial);
    assert_eq!(plan.firmware.byte_count, 4);
    assert!(events
        .iter()
        .any(|e| matches!(e, OperationEvent::HexLoaded { bytes: 4, .. })));
}

#[test]
fn plan_with_halfkay_needs_no_bridge() {
    let data = ihex_record(0x0000, 0x00, &[0x01]);
    let eof = ihex_record(0x0000, 0x01, &[]);
    let content: Vec<u8> = format!("{data}\n{eof}\n").into_bytes();
    let targets = vec![halfkay("HK1")];
    let mut events: Vec<OperationEvent> = Vec::new();
    let plan = plan_teensy41_with_selection(
        &content,
        &FlashOptions::default(),
        &targets,
        &FlashSelection::Auto,
        &mut events,
    )
    .unwrap();
    assert!(!plan.needs_serial);
}

#[test]
fn plan_rejects_bad_hex() {
    let content: Vec<u8> = ":04001000DEADBEEF00\n".as_bytes().to_vec();
    let targets = vec![halfkay("HK1")];
    let mut events: Vec<OperationEvent> = Vec::new();
    match plan_teensy41_with_selection(
        &content,
        &FlashOptions::default(),
        &targets,
        &FlashSelection::Auto,
        &mut events,
    ) {
        Err(FlashError::InvalidHex { .. }) => {}
        other => panic!("expected InvalidHex, got {other:?}"),
    }
}

#[test]
fn flash_error_kinds_map_to_exit_classes() {
    assert_eq!(FlashError::NoTargets.kind(), FlashErrorKind::NoDevice);
    assert_eq!(
        FlashError::AmbiguousTarget {
            message: "x".to_string()
        }
        .kind(),
        FlashErrorKind::AmbiguousTarget
    );
    assert_eq!(
        FlashError::WriteFailed {
            addr: 0x123400,
            attempts: 4,
            message: "io".to_string()
        }
        .kind(),
        FlashErrorKind::WriteFailed
    );
    assert_eq!(
        FlashError::MultiTargetFailed {
            failed: 1,
            total: 2
        }
        .kind(),
        FlashErrorKind::WriteFailed
    );
    assert_eq!(
        RebootError::HalfKayTimeout.kind(),
        RebootErrorKind::NoDevice
    );
}

#[test]
fn flash_error_messages_render_addresses_in_hex() {
    let e = FlashError::WriteFailed {
        addr: 0x123400,
        attempts: 4,
        message: "io".to_string(),
    };
    assert_eq!(
        e.message(),
        "write failed at addr=0x123400 after 4 attempts: io"
    );
    let m = FlashError::MultiTargetFailed {
        failed: 1,
        total: 3,
    };
    assert_eq!(m.message(), "flash failed for 1/3 targets");
}

#[test]
fn flash_wait_error_mapping() {
    match midi_studio_loader::api::map_wait_error(
        midi_studio_loader::bootloader::WaitHalfKayError::Timeout,
    ) {
        FlashError::HalfKayTimeout => {}
        other => panic!("expected HalfKayTimeout, got {other:?}"),
    }
    assert_eq!(
        FlashError::HalfKayTimeout.kind(),
        FlashErrorKind::NoDevice
    );
    match midi_studio_loader::api::map_wait_error(
        midi_studio_loader::bootloader::WaitHalfKayError::Ambiguous { count: 3 },
    ) {
        FlashError::AmbiguousTarget { message } => {
            assert_eq!(message, "multiple new HalfKay devices appeared (3)");
        }
        other => panic!("expected AmbiguousTarget, got {other:?}"),
    }
}

#[test]
fn run_results_settle_by_precedence() {
    assert!(settle_flash_result(RunOutcome::Success, None).is_ok());
    match settle_flash_result(
        RunOutcome::MultiFailed {
            failed: 2,
            total: 5,
        },
        None,
    ) {
        Err(FlashError::MultiTargetFailed { failed: 2, total: 5 }) => {}
        other => panic!("expected MultiTargetFailed, got {other:?}"),
    }
    match settle_flash_result(
        RunOutcome::Fatal {
            index: 0,
            ambiguous: false,
            message: "boom".to_string(),
        },
        Some(FlashError::HalfKayTimeout),
    ) {
        Err(FlashError::HalfKayTimeout) => {}
        other => panic!("expected the kept error, got {other:?}"),
    }
    match settle_reboot_result(
        RunOutcome::Ambiguous {
            message: "several".to_string(),
        },
        None,
    ) {
        Err(RebootError::AmbiguousTarget { message }) => assert_eq!(message, "several"),
        other => panic!("expected AmbiguousTarget, got {other:?}"),
    }
    match select_error_for_reboot(FlashError::NoTargets) {
        RebootError::NoTargets => {}
        other => panic!("expected NoTargets, got {other:?}"),
    }
    match select_error_for_reboot(FlashError::HalfKayTimeout) {
        RebootError::Unexpected { message } => {
            assert_eq!(message, "HalfKay did not appear after soft reboot");
        }
        other => panic!("expected Unexpected, got {other:?}"),
    }
}

#[test]
fn wait_error_mapping() {
    match map_wait_error(midi_studio_loader::bootloader::WaitHalfKayError::Ambiguous { count: 2 })
    {
        RebootError::AmbiguousTarget { message } => {
            assert_eq!(message, "multiple new HalfKay devices appeared (2)");
        }
        other => panic!("expected AmbiguousTarget, got {other:?}"),
    }
    assert!(matches!(
        map_wait_error(midi_studio_loader::bootloader::WaitHalfKayError::Timeout),
        RebootError::HalfKayTimeout
    ));
}

#[test]
fn wait_timeout_treats_zero_as_forever() {
    assert_eq!(wait_timeout(0), None);
    assert_eq!(wait_timeout(250), Some(250));
}

#[test]
fn erase_blocks_get_the_long_write_budget() {
    assert_eq!(block_write_timeout_ms(0), 45_000);
    assert_eq!(block_write_timeout_ms(4), 45_000);
    assert_eq!(block_write_timeout_ms(5), 500);
    assert_eq!(block_write_timeout_ms(4000), 500);
}

#[test]
fn decimal_and_hex_rendering() {
    assert_eq!(u64_to_string(0), "0");
    assert_eq!(u64_to_string(42), "42");
    assert_eq!(u64_to_string(18446744073709551615), "18446744073709551615");
    assert_eq!(u64_to_hex_string(0x123400, 6), "123400");
    assert_eq!(u64_to_hex_string(0x1A, 8), "0000001A");
    assert_eq!(u64_to_hex_string(0, 1), "0");
}

#[test]
fn parse_usize_accepts_digits_and_rejects_junk() {
    assert_eq!(parse_usize("0"), Some(0));
    assert_eq!(parse_usize("17"), Some(17));
    assert_eq!(parse_usize("+17"), Some(17));
    assert_eq!(parse_usize(""), None);
    assert_eq!(parse_usize("x7"), None);
    assert_eq!(parse_usize("99999999999999999999999999"), None);
}
