//! Selectors and the auto-disambiguation rules.

use midi_studio_loader::api::{select_targets, FlashError, FlashSelection};
use midi_studio_loader::operation::OperationEvent;
use midi_studio_loader::selector::{parse_selector, resolve, resolve_one, TargetSelector};
use midi_studio_loader::targets::{HalfKayTarget, SerialTarget, Target, PJRC_VID};

fn serial(port: &str) -> Target {
    Target::Serial(SerialTarget {
        port_name: port.to_string(),
        vid: 0x16C0,
        pid: 0x0483,
        serial_number: None,
        manufacturer: None,
        product: None,
    })
}

fn halfkay(path: &str) -> Target {
    Target::HalfKay(HalfKayTarget {
        vid: 0x16C0,
        pid: 0x0478,
        path: path.to_string(),
    })
}

#[test]
fn select_targets_auto_prefers_single_halfkay() {
    let targets = vec![serial("COM5"), halfkay("HK1"), serial("COM6")];
    let mut events: Vec<OperationEvent> = Vec::new();

    let selected =
        select_targets(&FlashSelection::Auto, None, &targets, true, &mut events).unwrap();

    assert_eq!(selected.len(), 1);
    assert_eq!(selected[0].id(), "halfkay:HK1");
    assert!(events.iter().any(
        |e| matches!(e, OperationEvent::TargetSelected { target_id } if target_id == "halfkay:HK1")
    ));
}

#[test]
fn select_targets_auto_prefers_named_serial_port() {
    let targets = vec![serial("COM5"), serial("COM6")];
    let mut events: Vec<OperationEvent> = Vec::new();
    let port = "COM6".to_string();

    let selected =
        select_targets(&FlashSelection::Auto, Some(&port), &targets, true, &mut events).unwrap();

    assert_eq!(selected.len(), 1);
    assert_eq!(selected[0].id(), "serial:COM6");
    assert!(events.iter().any(
        |e| matches!(e, OperationEvent::TargetSelected { target_id } if target_id == "serial:COM6")
    ));
}

#[test]
fn select_targets_does_not_emit_selected_when_disabled() {
    let targets = vec![serial("COM6")];
    let mut events: Vec<OperationEvent> = Vec::new();

    let selected =
        select_targets(&FlashSelection::Auto, None, &targets, false, &mut events).unwrap();

    assert_eq!(selected.len(), 1);
    assert!(!events
        .iter()
        .any(|e| matches!(e, OperationEvent::TargetSelected { .. })));
}

#[test]
fn select_targets_refuses_multiple_halfkays() {
    let targets = vec![halfkay("HK1"), halfkay("HK2")];
    let mut events: Vec<OperationEvent> = Vec::new();
    match select_targets(&FlashSelection::Auto, None, &targets, true, &mut events) {
        Err(FlashError::AmbiguousTarget { message }) => {
            assert_eq!(
                message,
                "multiple HalfKay devices detected (2); use --device or --all"
            );
        }
        other => panic!("expected AmbiguousTarget, got {other:?}"),
    }
}

#[test]
fn preferred_port_matching_nothing_is_ambiguous() {
    let targets = vec![serial("COM5"), serial("COM6")];
    let mut events: Vec<OperationEvent> = Vec::new();
    let port = "COM9".to_string();
    match select_targets(&FlashSelection::Auto, Some(&port), &targets, true, &mut events) {
        Err(FlashError::AmbiguousTarget { message }) => {
            assert_eq!(
                message,
                "no target matched preferred serial port COM9; use --device"
            );
        }
        other => panic!("expected AmbiguousTarget, got {other:?}"),
    }
}

#[test]
fn select_targets_refuses_empty_discovery() {
    let targets: Vec<Target> = Vec::new();
    let mut events: Vec<OperationEvent> = Vec::new();
    match select_targets(&FlashSelection::Auto, None, &targets, true, &mut events) {
        Err(FlashError::NoTargets) => {}
        other => panic!("expected NoTargets, got {other:?}"),
    }
}

#[test]
fn select_targets_all_takes_everything() {
    let targets = vec![serial("COM5"), halfkay("HK1")];
    let mut events: Vec<OperationEvent> = Vec::new();
    let selected =
        select_targets(&FlashSelection::All, None, &targets, true, &mut events).unwrap();
    assert_eq!(selected.len(), 2);
    assert!(events.is_empty());
}

#[test]
fn select_targets_device_by_id() {
    let targets = vec![serial("COM5"), halfkay("HK1")];
    let mut events: Vec<OperationEvent> = Vec::new();
    let selected = select_targets(
        &FlashSelection::Device("halfkay:HK1".to_string()),
        None,
        &targets,
        true,
        &mut events,
    )
    .unwrap();
    assert_eq!(selected.len(), 1);
    assert_eq!(selected[0].id(), "halfkay:HK1");
}

#[test]
fn test_parse_selector() {
    assert_eq!(parse_selector("index:0").unwrap(), TargetSelector::Index(0));
    assert_eq!(
        parse_selector("serial:COM6").unwrap(),
        TargetSelector::Id("serial:COM6".to_string())
    );
    assert_eq!(
        parse_selector("COM6").unwrap(),
        TargetSelector::Id("serial:COM6".to_string())
    );
}

#[test]
fn test_resolve_one_by_id() {
    let targets = vec![
        Target::HalfKay(HalfKayTarget {
            vid: 0x16C0,
            pid: 0x0478,
            path: "HK1".to_string(),
        }),
        Target::Serial(SerialTarget {
            port_name: "COM6".to_string(),
            vid: 0x16C0,
            pid: 0x0489,
            serial_number: None,
            manufacturer: None,
            product: None,
        }),
    ];

    let sel = parse_selector("serial:COM6").unwrap();
    let idx = resolve_one(&sel, &targets).unwrap();
    assert_eq!(idx, 1);
}

#[test]
fn selector_round_trip_resolves_each_discovered_target() {
    let targets = vec![halfkay("HK1"), serial("COM5"), serial("COM6")];
    for (i, t) in targets.iter().enumerate() {
        let sel = parse_selector(&t.id()).unwrap();
        let idx = resolve_one(&sel, &targets).unwrap();
        assert_eq!(idx, i);
    }
}

#[test]
fn bare_digits_select_by_index() {
    let targets = vec![halfkay("HK1"), serial("COM5")];
    let sel = parse_selector("1").unwrap();
    assert_eq!(sel, TargetSelector::Index(1));
    let idx = resolve_one(&sel, &targets).unwrap();
    assert_eq!(idx, 1);
}

#[test]
fn index_out_of_range_is_reported() {
    let targets = vec![halfkay("HK1")];
    let sel = parse_selector("index:5").unwrap();
    match resolve(&sel, &targets) {
        Err(midi_studio_loader::selector::SelectorError::IndexOutOfRange { index, len }) => {
            assert_eq!(index, 5);
            assert_eq!(len, 1);
        }
        other => panic!("expected IndexOutOfRange, got {other:?}"),
    }
}

#[test]
fn empty_selector_is_invalid() {
    match parse_selector("   ") {
        Err(midi_studio_loader::selector::SelectorError::InvalidSelector(m)) => {
            assert_eq!(m, "empty");
        }
        other => panic!("expected InvalidSelector, got {other:?}"),
    }
}

#[test]
fn test_target_id_format() {
    let t1 = Target::Serial(SerialTarget {
        port_name: "COM6".to_string(),
        vid: PJRC_VID,
        pid: 0x0489,
        serial_number: None,
        manufacturer: None,
        product: None,
    });
    assert_eq!(t1.id(), "serial:COM6");

    let t2 = Target::HalfKay(HalfKayTarget {
        vid: PJRC_VID,
        pid: midi_studio_loader::teensy41::PID_HALFKAY,
        path: "\\\\?\\HID#VID_16C0&PID_0478#...".to_string(),
    });
    assert!(t2.id().starts_with("halfkay:"));
}

#[test]
fn discovery_sorts_halfkay_first_then_lexicographic() {
    let hids = vec![
        HalfKayTarget {
            vid: PJRC_VID,
            pid: 0x0478,
            path: "B".to_string(),
        },
        HalfKayTarget {
            vid: PJRC_VID,
            pid: 0x0478,
            path: "A".to_string(),
        },
    ];
    let serials = vec![
        SerialTarget {
            port_name: "COM7".to_string(),
            vid: PJRC_VID,
            pid: 0x0489,
            serial_number: None,
            manufacturer: None,
            product: None,
        },
        SerialTarget {
            port_name: "COM5".to_string(),
            vid: 0x1234,
            pid: 0x0489,
            serial_number: None,
            manufacturer: None,
            product: None,
        },
        SerialTarget {
            port_name: "COM6".to_string(),
            vid: PJRC_VID,
            pid: 0x0489,
            serial_number: None,
            manufacturer: None,
            product: None,
        },
    ];
    let targets = midi_studio_loader::targets::discover_from_snapshots(hids, serials);
    let ids: Vec<String> = targets.iter().map(|t| t.id()).collect();
    // The vendor filter drops COM5; HalfKay sorts first, then ports.
    assert_eq!(
        ids,
        vec!["halfkay:A", "halfkay:B", "serial:COM6", "serial:COM7"]
    );
}
