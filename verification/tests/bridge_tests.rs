//! Bridge coordination: service state parsing, the control protocol,
//! the pause escalation, and the snapshot diff.

use midi_studio_loader::bootloader::{diff_new_halfkay, WaitHalfKayError};
use midi_studio_loader::bridge_control::{
    check_pause_response, check_resume_response, control_request_line,
    default_service_id_for_platform, hint_query_service, hint_start_service, hint_stop_service,
    interpret_sc_query, interpret_systemctl_is_active, is_oc_bridge_name,
    list_oc_bridge_processes, parse_control_response, parse_launchctl_list_status, parse_sc_state,
    pause_after_control, pause_after_process_list, pause_after_service_query,
    pause_after_service_stop, pause_start, plan_process_pause, BridgeControlError,
    BridgeControlMethod, BridgeControlOptions, BridgeGuard, BridgePauseMethod, BridgePauseOutcome,
    BridgePauseSkipReason, PauseNext, Platform, ProcessPauseDecision, ProcessSnapshot, ResumePlan,
    ServiceStatus,
};
use midi_studio_loader::operation::OperationEvent;
use midi_studio_loader::report::OperationRecorder;

#[test]
fn bridge_control_test_parse_sc_state_running() {
    let s = "STATE              : 4  RUNNING\r\n";
    assert_eq!(parse_sc_state(s), Some(4));
}

#[test]
fn bridge_control_test_parse_sc_state_stopped() {
    let s = "STATE              : 1  STOPPED\r\n";
    assert_eq!(parse_sc_state(s), Some(1));
}

#[test]
fn service_test_parse_sc_state_running() {
    let s = "STATE              : 4  RUNNING\r\n";
    assert_eq!(parse_sc_state(s), Some(4));
}

#[test]
fn service_test_parse_sc_state_stopped() {
    let s = "STATE              : 1  STOPPED\r\n";
    assert_eq!(parse_sc_state(s), Some(1));
}

#[test]
fn parse_sc_state_reads_localized_and_multiline_output() {
    let s = "SERVICE_NAME: x\r\n        ETAT               : 4  EN COURS\r\n";
    assert_eq!(parse_sc_state(s), Some(4));
    assert_eq!(parse_sc_state("no state here"), None);
    assert_eq!(parse_sc_state("STATE missing colon"), None);
}

#[test]
fn test_diff_new_halfkay() {
    let before = vec!["A".to_string()];

    let now = vec!["A".to_string(), "B".to_string()];
    assert_eq!(
        diff_new_halfkay(&before, &now).unwrap(),
        Some("B".to_string())
    );

    let now2 = vec!["A".to_string(), "B".to_string(), "C".to_string()];
    let err = diff_new_halfkay(&before, &now2).unwrap_err();
    assert!(matches!(err, WaitHalfKayError::Ambiguous { count: 2 }));
}

#[test]
fn diff_without_new_paths_keeps_waiting() {
    let before = vec!["A".to_string(), "B".to_string()];
    let now = vec!["B".to_string(), "A".to_string()];
    assert_eq!(diff_new_halfkay(&before, &now).unwrap(), None);
}

#[test]
fn control_request_line_is_one_json_line() {
    assert_eq!(control_request_line("pause"), "{\"cmd\":\"pause\"}\n");
    assert_eq!(control_request_line("status"), "{\"cmd\":\"status\"}\n");
}

#[test]
fn control_response_fields_are_probed() {
    let r = parse_control_response("  {\"ok\": true, \"paused\": true}\n");
    assert!(r.ok);
    assert!(r.paused);
    assert_eq!(r.serial_open, None);

    let r2 = parse_control_response("{\"ok\":true,\"paused\":true,\"serial_open\":false}");
    assert_eq!(r2.serial_open, Some(false));

    let r3 = parse_control_response("{\"ok\":false,\"message\":\"busy\"}");
    assert!(!r3.ok);
    assert_eq!(r3.message.as_deref(), Some("busy"));
}

#[test]
fn pause_response_requires_ok_paused_and_closed_port() {
    let good = parse_control_response("{\"ok\":true,\"paused\":true,\"serial_open\":false}");
    assert!(check_pause_response(7999, &good).is_ok());

    let still_open = parse_control_response("{\"ok\":true,\"paused\":true,\"serial_open\":true}");
    assert!(check_pause_response(7999, &still_open).is_err());

    let not_paused = parse_control_response("{\"ok\":true,\"paused\":false}");
    assert!(check_pause_response(7999, &not_paused).is_err());

    let resumed = parse_control_response("{\"ok\":true,\"paused\":false}");
    assert!(check_resume_response(7999, &resumed).is_ok());
    let stuck = parse_control_response("{\"ok\":true,\"paused\":true}");
    assert!(check_resume_response(7999, &stuck).is_err());
}

fn opts(method: BridgeControlMethod) -> BridgeControlOptions {
    BridgeControlOptions {
        enabled: true,
        method,
        allow_process_fallback: true,
        service_id: None,
        timeout_ms: 5000,
        control_port: 7999,
        control_timeout_ms: 2500,
    }
}

#[test]
fn pause_start_disabled_skips() {
    let mut o = opts(BridgeControlMethod::Auto);
    o.enabled = false;
    match pause_start(&o, Platform::Linux) {
        PauseNext::Done(p) => {
            assert!(p.guard.is_none());
            assert!(matches!(
                p.outcome,
                BridgePauseOutcome::Skipped(BridgePauseSkipReason::Disabled)
            ));
        }
        _ => panic!("expected Done"),
    }
}

#[test]
fn pause_start_auto_tries_control_first() {
    match pause_start(&opts(BridgeControlMethod::Auto), Platform::Linux) {
        PauseNext::TryControl { port, timeout_ms } => {
            assert_eq!(port, 7999);
            assert_eq!(timeout_ms, 2500);
        }
        _ => panic!("expected TryControl"),
    }
}

#[test]
fn pause_control_failure_falls_through_to_service_under_auto() {
    let o = opts(BridgeControlMethod::Auto);
    let err = Err(BridgeControlError::Timeout);
    match pause_after_control(&o, Platform::Linux, &err) {
        PauseNext::QueryService { id } => assert_eq!(id, "open-control-bridge"),
        _ => panic!("expected QueryService"),
    }
}

#[test]
fn pause_control_failure_fails_control_only() {
    let o = opts(BridgeControlMethod::Control);
    let err = Err(BridgeControlError::Timeout);
    match pause_after_control(&o, Platform::Linux, &err) {
        PauseNext::Done(p) => match p.outcome {
            BridgePauseOutcome::Failed(info) => {
                assert_eq!(info.message, "oc-bridge control pause failed: timeout");
                assert_eq!(
                    info.hint.as_deref(),
                    Some("Try: oc-bridge ctl pause --control-port 7999")
                );
            }
            _ => panic!("expected Failed"),
        },
        _ => panic!("expected Done"),
    }
}

#[test]
fn pause_control_success_carries_resume_plan() {
    let o = opts(BridgeControlMethod::Auto);
    match pause_after_control(&o, Platform::Linux, &Ok(())) {
        PauseNext::Done(p) => {
            match &p.outcome {
                BridgePauseOutcome::Paused(info) => {
                    assert_eq!(info.method, BridgePauseMethod::Control);
                    assert_eq!(info.id, "127.0.0.1:7999");
                }
                _ => panic!("expected Paused"),
            }
            let guard = p.guard.expect("paused outcome must carry a guard");
            assert!(matches!(
                guard.resume,
                Some(ResumePlan::Control { port: 7999, .. })
            ));
            assert_eq!(
                guard.resume_hint().as_deref(),
                Some("Try: oc-bridge ctl resume --control-port 7999")
            );
        }
        _ => panic!("expected Done"),
    }
}

#[test]
fn service_query_outcomes_drive_the_escalation() {
    let o = opts(BridgeControlMethod::Auto);
    match pause_after_service_query(&o, Platform::Linux, "open-control-bridge", &Ok(ServiceStatus::Running)) {
        PauseNext::StopService { id } => assert_eq!(id, "open-control-bridge"),
        _ => panic!("expected StopService"),
    }
    match pause_after_service_query(&o, Platform::Linux, "open-control-bridge", &Ok(ServiceStatus::Stopped)) {
        PauseNext::Done(p) => assert!(matches!(
            p.outcome,
            BridgePauseOutcome::Skipped(BridgePauseSkipReason::NotRunning)
        )),
        _ => panic!("expected Done"),
    }
    // Auto with the fallback allowed goes on to the process table.
    match pause_after_service_query(
        &o,
        Platform::Linux,
        "open-control-bridge",
        &Ok(ServiceStatus::NotInstalled),
    ) {
        PauseNext::ListProcesses => {}
        _ => panic!("expected ListProcesses"),
    }
    // A query failure is fail-safe: the pause fails outright.
    match pause_after_service_query(
        &o,
        Platform::Linux,
        "open-control-bridge",
        &Err(BridgeControlError::Timeout),
    ) {
        PauseNext::Done(p) => match p.outcome {
            BridgePauseOutcome::Failed(info) => {
                assert_eq!(
                    info.message,
                    "unable to query bridge service 'open-control-bridge': timeout"
                );
                assert_eq!(
                    info.hint.as_deref(),
                    Some("Try: systemctl --user status open-control-bridge")
                );
            }
            _ => panic!("expected Failed"),
        },
        _ => panic!("expected Done"),
    }
}

#[test]
fn service_stop_outcomes() {
    let o = opts(BridgeControlMethod::Auto);
    match pause_after_service_stop(&o, Platform::Linux, "open-control-bridge", &Ok(())) {
        PauseNext::Done(p) => {
            assert!(matches!(p.outcome, BridgePauseOutcome::Paused(_)));
            let g = p.guard.unwrap();
            assert!(matches!(g.resume, Some(ResumePlan::Service { .. })));
        }
        _ => panic!("expected Done"),
    }
    match pause_after_service_stop(
        &o,
        Platform::Linux,
        "open-control-bridge",
        &Err("timeout".to_string()),
    ) {
        PauseNext::Done(p) => match p.outcome {
            BridgePauseOutcome::Failed(info) => {
                assert_eq!(
                    info.message,
                    "unable to stop bridge service 'open-control-bridge': timeout"
                );
            }
            _ => panic!("expected Failed"),
        },
        _ => panic!("expected Done"),
    }
}

fn snap(pid: u32, name: &str, exe: Option<&str>, cmd: Option<Vec<&str>>) -> ProcessSnapshot {
    ProcessSnapshot {
        pid,
        name: name.to_string(),
        exe: exe.map(|s| s.to_string()),
        cmd: cmd.map(|v| v.into_iter().map(|s| s.to_string()).collect()),
    }
}

#[test]
fn process_plan_refuses_unrestartable_processes() {
    let procs = vec![
        snap(7, "oc-bridge", Some("/usr/bin/oc-bridge"), None),
        snap(9, "OC-Bridge.exe", None, None),
    ];
    assert!(matches!(
        plan_process_pause(procs),
        ProcessPauseDecision::NotRestartable
    ));
}

#[test]
fn process_plan_records_relaunch_commands() {
    let procs = vec![
        snap(3, "emacs", Some("/usr/bin/emacs"), None),
        snap(7, "oc-bridge", Some("/usr/bin/oc-bridge"), None),
        snap(
            9,
            "oc-bridge",
            Some("/opt/oc-bridge"),
            Some(vec!["--port", "7999"]),
        ),
    ];
    match plan_process_pause(procs) {
        ProcessPauseDecision::Stop { pids, relaunch } => {
            assert_eq!(pids, vec![7, 9]);
            assert_eq!(relaunch.len(), 2);
            assert_eq!(relaunch[0].exe, "/usr/bin/oc-bridge");
            // The default daemon arguments where no command line is known.
            assert_eq!(relaunch[0].args, vec!["--daemon", "--no-relaunch"]);
            assert_eq!(relaunch[1].exe, "/opt/oc-bridge");
            assert_eq!(relaunch[1].args, vec!["--port", "7999"]);
        }
        other => panic!("expected Stop, got {other:?}"),
    }
}

#[test]
fn process_plan_skips_when_nothing_runs() {
    let procs = vec![snap(3, "emacs", Some("/usr/bin/emacs"), None)];
    assert!(matches!(
        plan_process_pause(procs),
        ProcessPauseDecision::NotRunning
    ));
    let o = opts(BridgeControlMethod::Auto);
    match pause_after_process_list(&o, ProcessPauseDecision::NotRunning) {
        PauseNext::Done(p) => assert!(matches!(
            p.outcome,
            BridgePauseOutcome::Skipped(BridgePauseSkipReason::NotRunning)
        )),
        _ => panic!("expected Done"),
    }
}

#[test]
fn is_oc_bridge_name_is_case_insensitive() {
    assert!(is_oc_bridge_name("oc-bridge"));
    assert!(is_oc_bridge_name("OC-Bridge.EXE"));
    assert!(!is_oc_bridge_name("oc-bridged"));
    assert!(!is_oc_bridge_name("bridge"));
}

#[test]
fn listing_processes_marks_restartable_by_exe() {
    for p in list_oc_bridge_processes() {
        assert_eq!(p.restartable, p.exe.is_some());
    }
}

#[test]
fn platform_service_identifiers_and_hints() {
    assert_eq!(
        default_service_id_for_platform(Platform::Windows),
        "OpenControlBridge"
    );
    assert_eq!(
        default_service_id_for_platform(Platform::Linux),
        "open-control-bridge"
    );
    assert_eq!(
        default_service_id_for_platform(Platform::MacOs),
        "com.petitechose.open-control-bridge"
    );
    assert_eq!(hint_stop_service(Platform::Windows, "S"), "Try: sc stop S");
    assert_eq!(
        hint_start_service(Platform::Linux, "S"),
        "Try: systemctl --user start S"
    );
    assert_eq!(
        hint_query_service(Platform::MacOs, "S"),
        "Try: launchctl list S"
    );
}

#[test]
fn windows_query_interpretation() {
    assert_eq!(
        interpret_sc_query("S", 0, "STATE : 4 RUNNING").unwrap(),
        ServiceStatus::Running
    );
    assert_eq!(
        interpret_sc_query("S", 0, "STATE : 1 STOPPED").unwrap(),
        ServiceStatus::Stopped
    );
    assert_eq!(
        interpret_sc_query("S", 1060, "error 1060: not installed").unwrap(),
        ServiceStatus::NotInstalled
    );
    assert!(interpret_sc_query("S", 5, "access denied").is_err());
    assert!(interpret_sc_query("S", 0, "garbage").is_err());
}

#[test]
fn linux_is_active_interpretation() {
    assert_eq!(
        interpret_systemctl_is_active(0, "active\n"),
        ServiceStatus::Running
    );
    assert_eq!(
        interpret_systemctl_is_active(3, "inactive\n"),
        ServiceStatus::Stopped
    );
    assert_eq!(
        interpret_systemctl_is_active(4, "unknown\n"),
        ServiceStatus::NotInstalled
    );
    assert_eq!(
        interpret_systemctl_is_active(4, "weird: unit could not be found.\n"),
        ServiceStatus::NotInstalled
    );
}

#[test]
fn launchctl_row_interpretation() {
    assert_eq!(
        parse_launchctl_list_status("123\t0\tcom.x\n"),
        Some(ServiceStatus::Running)
    );
    assert_eq!(
        parse_launchctl_list_status("-\t0\tcom.x\n"),
        Some(ServiceStatus::Stopped)
    );
    assert_eq!(parse_launchctl_list_status("???\n"), None);
}

#[test]
fn guard_keeps_plan_until_marked_resumed() {
    let mut g = BridgeGuard {
        resume: Some(ResumePlan::Service {
            id: "open-control-bridge".to_string(),
        }),
        timeout_ms: 5000,
        platform: Platform::Linux,
    };
    assert_eq!(
        g.resume_hint().as_deref(),
        Some("Try: systemctl --user start open-control-bridge")
    );
    g.mark_resumed();
    assert!(g.resume.is_none());
    assert_eq!(g.resume_hint(), None);
}

#[test]
fn recorder_counts_blocks_and_retries() {
    let mut rec = OperationRecorder::new("flash");
    rec.observe(&OperationEvent::BridgePauseStart);
    rec.observe(&OperationEvent::Block {
        target_id: "halfkay:HK1".to_string(),
        index: 0,
        total: 2,
        addr: 0,
    });
    rec.observe(&OperationEvent::Retry {
        target_id: "halfkay:HK1".to_string(),
        addr: 0,
        attempt: 1,
        retries: 3,
        error: "io".to_string(),
    });
    rec.observe(&OperationEvent::Block {
        target_id: "halfkay:HK1".to_string(),
        index: 1,
        total: 2,
        addr: 1024,
    });
    rec.observe(&OperationEvent::TargetDone {
        target_id: "halfkay:HK1".to_string(),
        ok: true,
        message: None,
    });
    let summary = rec.finish(0, None);
    assert_eq!(summary.blocks, 2);
    assert_eq!(summary.retries, 1);
    assert_eq!(summary.bridge_pause, "attempted");
    assert_eq!(summary.targets_ok, vec!["halfkay:HK1".to_string()]);
    assert!(summary.targets_failed.is_empty());
    assert_eq!(summary.exit_code, 0);
}
