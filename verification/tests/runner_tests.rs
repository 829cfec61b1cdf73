//! The operation runner: bridge safety, resume guarantees, and the
//! HalfKay report formats.

use midi_studio_loader::api::{BlockStream, WriteStep};
use midi_studio_loader::halfkay::{build_block_report_teensy41, build_boot_report_teensy41};
use midi_studio_loader::bridge_control::{
    BridgeControlErrorInfo, BridgeGuard, BridgePause, BridgePauseInfo, BridgePauseMethod,
    BridgePauseOutcome, Platform, ResumePlan,
};
use midi_studio_loader::operation::OperationEvent;
use midi_studio_loader::operation_runner::{RunOutcome, TargetFailure, TargetRunner};
use midi_studio_loader::targets::{HalfKayTarget, SerialTarget, Target, PJRC_VID};
use midi_studio_loader::teensy41;

fn serial_target(port: &str) -> Target {
    Target::Serial(SerialTarget {
        port_name: port.to_string(),
        vid: PJRC_VID,
        pid: 0x0489,
        serial_number: None,
        manufacturer: None,
        product: None,
    })
}

fn halfkay_target(path: &str) -> Target {
    Target::HalfKay(HalfKayTarget {
        vid: PJRC_VID,
        pid: teensy41::PID_HALFKAY,
        path: path.to_string(),
    })
}

#[test]
fn pause_failed_aborts_before_touching_device() {
    let selected = vec![serial_target("COM6")];
    let mut events: Vec<OperationEvent> = Vec::new();
    let mut runner = TargetRunner::new(selected);
    runner.start(&mut events);
    assert!(runner.needs_pause());

    let mut ran = false;
    runner.on_bridge_pause(
        BridgePause {
            guard: None,
            outcome: BridgePauseOutcome::Failed(BridgeControlErrorInfo {
                message: "pause failed".to_string(),
                hint: None,
            }),
        },
        &mut events,
    );
    // The runner never asks for a target after a failed pause.
    while let Some(_) = runner.next_target() {
        ran = true;
        break;
    }
    assert!(!ran);
    match runner.outcome() {
        Some(RunOutcome::BridgePauseFailed { error }) => {
            assert_eq!(error.message, "pause failed");
        }
        other => panic!("expected BridgePauseFailed, got {other:?}"),
    }

    assert!(events
        .iter()
        .any(|e| matches!(e, OperationEvent::BridgePauseStart)));
    assert!(events
        .iter()
        .any(|e| matches!(e, OperationEvent::BridgePauseFailed { .. })));
    assert!(!events
        .iter()
        .any(|e| matches!(e, OperationEvent::SoftReboot { .. })));
    assert!(!events
        .iter()
        .any(|e| matches!(e, OperationEvent::Block { .. })));
}

#[test]
fn resume_events_emitted_even_when_target_fails() {
    let selected = vec![serial_target("COM6")];
    let mut events: Vec<OperationEvent> = Vec::new();
    let mut runner = TargetRunner::new(selected);
    runner.start(&mut events);
    assert!(runner.needs_pause());
    runner.on_bridge_pause(
        BridgePause {
            guard: Some(BridgeGuard {
                resume: Some(ResumePlan::Control {
                    port: 7999,
                    timeout_ms: 1,
                }),
                timeout_ms: 1,
                platform: Platform::Linux,
            }),
            outcome: BridgePauseOutcome::Paused(BridgePauseInfo {
                method: BridgePauseMethod::Control,
                id: "127.0.0.1:7999".to_string(),
                pids: Vec::new(),
            }),
        },
        &mut events,
    );

    while let Some(_i) = runner.next_target() {
        runner.begin_target(&mut events);
        runner.on_target_result(
            Err(TargetFailure {
                ambiguous: false,
                message: "boom".to_string(),
            }),
            &mut events,
        );
    }
    assert!(runner.needs_resume());
    runner.on_resume_result(Ok(()), &mut events);

    assert!(matches!(runner.outcome(), Some(RunOutcome::Fatal { .. })));

    let resume_starts = events
        .iter()
        .filter(|e| matches!(e, OperationEvent::BridgeResumeStart))
        .count();
    let resumed = events
        .iter()
        .filter(|e| matches!(e, OperationEvent::BridgeResumed))
        .count();
    assert_eq!(resume_starts, 1);
    assert_eq!(resumed, 1);
}

#[test]
fn halfkay_targets_do_not_pause_bridge() {
    let selected = vec![halfkay_target("\\\\?\\HID#VID_16C0&PID_0478#TEST")];
    let mut events: Vec<OperationEvent> = Vec::new();
    let mut runner = TargetRunner::new(selected);
    runner.start(&mut events);
    // The pause must never be requested for HalfKay-only selections.
    assert!(!runner.needs_pause());

    while let Some(_i) = runner.next_target() {
        runner.begin_target(&mut events);
        runner.on_target_result(Ok(()), &mut events);
    }
    assert!(!runner.needs_resume());
    assert!(matches!(runner.outcome(), Some(RunOutcome::Success)));

    assert!(!events
        .iter()
        .any(|e| matches!(e, OperationEvent::BridgePauseStart)));
    assert!(!events
        .iter()
        .any(|e| matches!(e, OperationEvent::BridgePaused { .. })));
    assert!(!events
        .iter()
        .any(|e| matches!(e, OperationEvent::BridgePauseFailed { .. })));
    assert!(!events
        .iter()
        .any(|e| matches!(e, OperationEvent::BridgeResumeStart)));
    assert!(!events
        .iter()
        .any(|e| matches!(e, OperationEvent::BridgeResumed)));
}

#[test]
fn multi_target_failures_aggregate() {
    let selected = vec![halfkay_target("A"), halfkay_target("B"), halfkay_target("C")];
    let mut events: Vec<OperationEvent> = Vec::new();
    let mut runner = TargetRunner::new(selected);
    runner.start(&mut events);
    let mut step = 0;
    while let Some(i) = runner.next_target() {
        runner.begin_target(&mut events);
        if i == 1 {
            runner.on_target_result(
                Err(TargetFailure {
                    ambiguous: false,
                    message: "boom".to_string(),
                }),
                &mut events,
            );
        } else {
            runner.on_target_result(Ok(()), &mut events);
        }
        step += 1;
    }
    assert_eq!(step, 3);
    match runner.outcome() {
        Some(RunOutcome::MultiFailed { failed, total }) => {
            assert_eq!(*failed, 1);
            assert_eq!(*total, 3);
        }
        other => panic!("expected MultiFailed, got {other:?}"),
    }
}

#[test]
fn first_ambiguous_message_wins() {
    let selected = vec![halfkay_target("A"), halfkay_target("B")];
    let mut events: Vec<OperationEvent> = Vec::new();
    let mut runner = TargetRunner::new(selected);
    runner.start(&mut events);
    let mut n = 0;
    while let Some(_) = runner.next_target() {
        runner.begin_target(&mut events);
        let msg = if n == 0 { "first" } else { "second" };
        runner.on_target_result(
            Err(TargetFailure {
                ambiguous: true,
                message: msg.to_string(),
            }),
            &mut events,
        );
        n += 1;
    }
    match runner.outcome() {
        Some(RunOutcome::Ambiguous { message }) => assert_eq!(message, "first"),
        other => panic!("expected Ambiguous, got {other:?}"),
    }
}

#[test]
fn test_block_report_format() {
    let block_addr = 0x0012_3400usize;
    let mut data = vec![0u8; teensy41::BLOCK_SIZE];
    data[0] = 0xAA;
    data[1] = 0xBB;
    data[teensy41::BLOCK_SIZE - 1] = 0xCC;

    let report = build_block_report_teensy41(block_addr, &data);
    assert_eq!(report.len(), teensy41::PACKET_SIZE + 1);
    assert_eq!(report[0], 0);

    // addr bytes (little endian 24-bit)
    assert_eq!(report[1], 0x00);
    assert_eq!(report[2], 0x34);
    assert_eq!(report[3], 0x12);

    // padding is zero
    for b in &report[4..(1 + teensy41::HEADER_SIZE)] {
        assert_eq!(*b, 0);
    }

    // payload
    let payload = &report[(1 + teensy41::HEADER_SIZE)..];
    assert_eq!(payload.len(), teensy41::BLOCK_SIZE);
    assert_eq!(payload[0], 0xAA);
    assert_eq!(payload[1], 0xBB);
    assert_eq!(payload[teensy41::BLOCK_SIZE - 1], 0xCC);
}

#[test]
fn test_boot_report_format() {
    let report = build_boot_report_teensy41();
    assert_eq!(report.len(), teensy41::PACKET_SIZE + 1);
    assert_eq!(report[0], 0);
    assert_eq!(report[1], 0xFF);
    assert_eq!(report[2], 0xFF);
    assert_eq!(report[3], 0xFF);
    for b in &report[4..] {
        assert_eq!(*b, 0);
    }
}

#[test]
fn block_stream_retries_then_gives_up() {
    let blocks = vec![0usize, 1024];
    let mut events: Vec<OperationEvent> = Vec::new();
    let mut stream = BlockStream::new("halfkay:HK1", "HK1", blocks, 2);

    assert!(stream.more_blocks());
    let (i, addr) = stream.begin_block(&mut events);
    assert_eq!((i, addr), (0, 0));
    // Two failures stay within the budget; each asks for a reopen.
    for attempt in 1..=2u32 {
        match stream.on_write_result(&Err("io".to_string()), &mut events) {
            WriteStep::Reopen => {}
            other => panic!("expected Reopen, got {other:?}"),
        }
        assert!(events.iter().any(|e| matches!(
            e,
            OperationEvent::Retry { attempt: a, retries: 2, .. } if *a == attempt
        )));
        match stream.on_reopen_result(&Ok(())) {
            WriteStep::Advanced => {}
            other => panic!("expected Advanced, got {other:?}"),
        }
    }
    // The third failure exhausts the budget.
    match stream.on_write_result(&Err("io".to_string()), &mut events) {
        WriteStep::GiveUp(midi_studio_loader::api::FlashError::WriteFailed {
            addr,
            attempts,
            ..
        }) => {
            assert_eq!(addr, 0);
            assert_eq!(attempts, 3);
        }
        other => panic!("expected GiveUp, got {other:?}"),
    }
}

#[test]
fn block_stream_walks_the_write_set() {
    let blocks = vec![0usize, 2048, 4096];
    let mut events: Vec<OperationEvent> = Vec::new();
    let mut stream = BlockStream::new("halfkay:HK1", "HK1", blocks.clone(), 3);
    let mut seen: Vec<usize> = Vec::new();
    while stream.more_blocks() {
        let (_i, addr) = stream.begin_block(&mut events);
        seen.push(addr);
        match stream.on_write_result(&Ok(()), &mut events) {
            WriteStep::Advanced => {}
            other => panic!("expected Advanced, got {other:?}"),
        }
    }
    assert_eq!(seen, blocks);
    let block_events = events
        .iter()
        .filter(|e| matches!(e, OperationEvent::Block { .. }))
        .count();
    assert_eq!(block_events, 3);
}
