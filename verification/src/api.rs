//! The flash operation: its options, errors, auto-selection rules, and
//! the per-target block streaming machine with retry and reopen.

use vstd::prelude::*;

use crate::bridge_control::{BridgeControlErrorInfo, BridgeControlOptions};
use crate::hex::HexError;
use crate::operation::OperationEvent;
use crate::selector;
use crate::strutil;
use crate::targets::{Target, TargetKind};

verus! {

/// How targets are chosen for a flash or reboot run.
#[derive(Debug, Clone)]
pub enum FlashSelection {
    /// The auto-disambiguation rules below.
    Auto,
    /// Every discovered target.
    All,
    /// One target named by a selector token.
    Device(String),
}

/// The knobs of a flash run.
#[derive(Debug, Clone)]
pub struct FlashOptions {
    /// Wait for at least one target to be detected.
    pub wait: bool,
    /// Longest wait when `wait` is set, in milliseconds; none waits
    /// forever.
    pub wait_timeout_ms: Option<u64>,
    /// Do not reboot after programming.
    pub no_reboot: bool,
    /// Retries per block on write failure.
    pub retries: u32,
    /// Prefer this serial port name among several serial targets.
    pub serial_port: Option<String>,
    /// How the bridge is paused and resumed.
    pub bridge: BridgeControlOptions,
    /// Budget for reopening the device during a retry, in
    /// milliseconds.
    pub reopen_timeout_ms: u64,
    /// Pause around a reopen, in milliseconds.
    pub reopen_delay_ms: u64,
    /// Pause after a soft reboot before polling, in milliseconds.
    pub soft_reboot_delay_ms: u64,
}

impl Default for FlashOptions {
    /// No waiting, reboot after programming, three retries per block,
    /// a ten second reopen budget, and the default bridge control.
    fn default() -> (r: Self)
        ensures
            !r.wait,
            r.wait_timeout_ms is None,
            !r.no_reboot,
            r.retries == 3,
            r.serial_port is None,
            r.bridge.enabled,
            r.bridge.method == crate::bridge_control::BridgeControlMethod::Auto,
            r.bridge.control_port == 7999,
            r.reopen_timeout_ms == 10_000,
            r.reopen_delay_ms == 150,
            r.soft_reboot_delay_ms == 250,
    {
        FlashOptions {
            wait: false,
            wait_timeout_ms: None,
            no_reboot: false,
            retries: 3,
            serial_port: None,
            bridge: Default::default(),
            reopen_timeout_ms: 10_000,
            reopen_delay_ms: 150,
            soft_reboot_delay_ms: 250,
        }
    }
}

/// The kind of a flash failure, for exit-code mapping.
#[derive(Debug, Copy, Clone, PartialEq, Eq, Structural)]
pub enum FlashErrorKind {
    NoDevice,
    AmbiguousTarget,
    InvalidHex,
    WriteFailed,
    BridgePauseFailed,
    Unexpected,
}

/// Why a flash run failed.
#[derive(Debug)]
pub enum FlashError {
    /// No target was detected.
    NoTargets,
    /// Selection could not pick one target.
    AmbiguousTarget { message: String },
    /// Enumerating targets failed.
    DiscoveryFailed { message: String },
    /// The HEX file was rejected.
    InvalidHex { source: HexError },
    /// The serial soft reboot failed before any device contact.
    SoftRebootFailed { port: String, message: String },
    /// The HalfKay device could not be opened.
    OpenHalfKay { path: String, message: String },
    /// A block write exhausted its retries.
    WriteFailed { addr: usize, attempts: u32, message: String },
    /// Reopening the device during a retry failed.
    ReopenFailed { path: String, addr: usize, message: String },
    /// No HalfKay device appeared after the soft reboot.
    HalfKayTimeout,
    /// Several targets ran and some failed.
    MultiTargetFailed { failed: usize, total: usize },
    /// The bridge could not be paused; no target was touched.
    BridgePauseFailed { error: BridgeControlErrorInfo },
}

impl FlashError {
    /// The kind of this failure.
    pub fn kind(&self) -> (k: FlashErrorKind)
        ensures
            k == match self {
                FlashError::NoTargets => FlashErrorKind::NoDevice,
                FlashError::AmbiguousTarget { .. } => FlashErrorKind::AmbiguousTarget,
                FlashError::DiscoveryFailed { .. } => FlashErrorKind::Unexpected,
                FlashError::InvalidHex { .. } => FlashErrorKind::InvalidHex,
                FlashError::SoftRebootFailed { .. } => FlashErrorKind::NoDevice,
                FlashError::OpenHalfKay { .. } => FlashErrorKind::NoDevice,
                FlashError::WriteFailed { .. } => FlashErrorKind::WriteFailed,
                FlashError::ReopenFailed { .. } => FlashErrorKind::WriteFailed,
                FlashError::HalfKayTimeout => FlashErrorKind::NoDevice,
                FlashError::MultiTargetFailed { .. } => FlashErrorKind::WriteFailed,
                FlashError::BridgePauseFailed { .. } => FlashErrorKind::BridgePauseFailed,
            },
    {
        match self {
            FlashError::NoTargets => FlashErrorKind::NoDevice,
            FlashError::AmbiguousTarget { .. } => FlashErrorKind::AmbiguousTarget,
            FlashError::DiscoveryFailed { .. } => FlashErrorKind::Unexpected,
            FlashError::InvalidHex { .. } => FlashErrorKind::InvalidHex,
            FlashError::SoftRebootFailed { .. } => FlashErrorKind::NoDevice,
            FlashError::OpenHalfKay { .. } => FlashErrorKind::NoDevice,
            FlashError::WriteFailed { .. } => FlashErrorKind::WriteFailed,
            FlashError::ReopenFailed { .. } => FlashErrorKind::WriteFailed,
            FlashError::HalfKayTimeout => FlashErrorKind::NoDevice,
            FlashError::MultiTargetFailed { .. } => FlashErrorKind::WriteFailed,
            FlashError::BridgePauseFailed { .. } => FlashErrorKind::BridgePauseFailed,
        }
    }

    /// Does this failure classify as ambiguity?
    pub fn is_ambiguous(&self) -> (r: bool)
        ensures
            r == (self is AmbiguousTarget),
    {
        matches!(self, FlashError::AmbiguousTarget { .. })
    }

    /// The error as text.
    pub open spec fn spec_message(&self) -> Seq<char> {
        match self {
            FlashError::NoTargets => "no target device found"@,
            FlashError::AmbiguousTarget { message } => "ambiguous target: "@ + message@,
            FlashError::DiscoveryFailed { message } => "target discovery failed: "@ + message@,
            FlashError::InvalidHex { source } => "invalid HEX: "@ + source.spec_message(),
            FlashError::SoftRebootFailed { port, message } => "soft reboot failed on "@ + port@
                + ": "@ + message@,
            FlashError::OpenHalfKay { path, message } => "unable to open HalfKay device at "@
                + path@ + ": "@ + message@,
            FlashError::WriteFailed { addr, attempts, message } => "write failed at addr=0x"@
                + strutil::u64_hex_chars(*addr as u64, 6) + " after "@ + strutil::u64_chars(
                *attempts as u64,
            ) + " attempts: "@ + message@,
            FlashError::ReopenFailed { path, addr, message } => "unable to reopen HalfKay device at "@
                + path@ + " while writing addr=0x"@ + strutil::u64_hex_chars(*addr as u64, 6)
                + ": "@ + message@,
            FlashError::HalfKayTimeout => "HalfKay did not appear after soft reboot"@,
            FlashError::MultiTargetFailed { failed, total } => "flash failed for "@
                + strutil::u64_chars(*failed as u64) + "/"@ + strutil::u64_chars(*total as u64)
                + " targets"@,
            FlashError::BridgePauseFailed { error } => "bridge pause failed: "@ + error.message@,
        }
    }

    /// Renders the error as text.
    pub fn message(&self) -> (r: String)
        ensures
            r@ == self.spec_message(),
    {
        match self {
            FlashError::NoTargets => "no target device found".to_owned(),
            FlashError::AmbiguousTarget { message } => {
                let mut s = "ambiguous target: ".to_owned();
                s.append(message.as_str());
                s
            },
            FlashError::DiscoveryFailed { message } => {
                let mut s = "target discovery failed: ".to_owned();
                s.append(message.as_str());
                s
            },
            FlashError::InvalidHex { source } => {
                let mut s = "invalid HEX: ".to_owned();
                s.append(source.message().as_str());
                s
            },
            FlashError::SoftRebootFailed { port, message } => {
                let mut s = "soft reboot failed on ".to_owned();
                s.append(port.as_str());
                s.append(": ");
                s.append(message.as_str());
                s
            },
            FlashError::OpenHalfKay { path, message } => {
                let mut s = "unable to open HalfKay device at ".to_owned();
                s.append(path.as_str());
                s.append(": ");
                s.append(message.as_str());
                s
            },
            FlashError::WriteFailed { addr, attempts, message } => {
                let mut s = "write failed at addr=0x".to_owned();
                s.append(strutil::u64_to_hex_string(*addr as u64, 6).as_str());
                s.append(" after ");
                s.append(strutil::u64_to_string(*attempts as u64).as_str());
                s.append(" attempts: ");
                s.append(message.as_str());
                s
            },
            FlashError::ReopenFailed { path, addr, message } => {
                let mut s = "unable to reopen HalfKay device at ".to_owned();
                s.append(path.as_str());
                s.append(" while writing addr=0x");
                s.append(strutil::u64_to_hex_string(*addr as u64, 6).as_str());
                s.append(": ");
                s.append(message.as_str());
                s
            },
            FlashError::HalfKayTimeout => {
                "HalfKay did not appear after soft reboot".to_owned()
            },
            FlashError::MultiTargetFailed { failed, total } => {
                let mut s = "flash failed for ".to_owned();
                s.append(strutil::usize_to_string(*failed).as_str());
                s.append("/");
                s.append(strutil::usize_to_string(*total).as_str());
                s.append(" targets");
                s
            },
            FlashError::BridgePauseFailed { error } => {
                let mut s = "bridge pause failed: ".to_owned();
                s.append(error.message.as_str());
                s
            },
        }
    }
}

// ---------------------------------------------------------------------
// Target selection.
// ---------------------------------------------------------------------

/// The HalfKay targets of a list, in order.
pub open spec fn halfkays_of(ts: Seq<Target>) -> Seq<Target> {
    ts.filter(|t: Target| t.spec_kind() == TargetKind::HalfKay)
}

/// The serial targets whose port name is `port`, in order.
pub open spec fn serial_port_matches(ts: Seq<Target>, port: Seq<char>) -> Seq<Target> {
    ts.filter(
        |t: Target| t.spec_kind() == TargetKind::Serial && t.spec_key() == port,
    )
}

/// What selection must yield.
pub enum SelectionOutcome {
    /// These targets, in order.
    Selected(Seq<Target>),
    /// Nothing to select.
    NoTargets,
    /// More than one candidate and no rule to pick one.
    Ambiguous(Seq<char>),
}

/// Message when several HalfKay devices are present.
pub open spec fn msg_multiple_halfkay(n: int) -> Seq<char> {
    "multiple HalfKay devices detected ("@ + strutil::u64_chars(n as u64)
        + "); use --device or --all"@
}

/// Message when the preferred serial port matches several targets.
pub open spec fn msg_multiple_preferred(port: Seq<char>) -> Seq<char> {
    "multiple targets matched preferred serial port "@ + port + "; use --device"@
}

/// Message when the preferred serial port matches no target.
pub open spec fn msg_no_preferred(port: Seq<char>) -> Seq<char> {
    "no target matched preferred serial port "@ + port + "; use --device"@
}

/// Message when several targets are present and no rule picks one.
pub open spec fn msg_multiple_targets(n: int) -> Seq<char> {
    "multiple targets detected ("@ + strutil::u64_chars(n as u64) + "); use --device or --all"@
}

/// The selection rules.
///
/// `All` takes everything.  `Device` resolves a selector to exactly one
/// target.  Under `Auto`: exactly one HalfKay wins even among serial
/// targets — bootloader mode is a strong user signal; several HalfKay
/// devices are refused; with none, a preferred serial port must match
/// exactly one serial target; without a preference a single target of
/// any kind wins; anything else is refused as ambiguous.
pub open spec fn spec_select(
    sel: FlashSelection,
    serial_port: Option<Seq<char>>,
    ts: Seq<Target>,
) -> SelectionOutcome {
    if ts.len() == 0 {
        SelectionOutcome::NoTargets
    } else {
        match sel {
            FlashSelection::All => SelectionOutcome::Selected(ts),
            FlashSelection::Device(tok) => spec_select_device(tok@, ts),
            FlashSelection::Auto => {
                let hk = halfkays_of(ts);
                if hk.len() == 1 {
                    SelectionOutcome::Selected(seq![hk[0]])
                } else if hk.len() > 1 {
                    SelectionOutcome::Ambiguous(msg_multiple_halfkay(hk.len() as int))
                } else {
                    match serial_port {
                        Some(port) => {
                            let m = serial_port_matches(ts, port);
                            if m.len() == 1 {
                                SelectionOutcome::Selected(seq![m[0]])
                            } else if m.len() == 0 {
                                SelectionOutcome::Ambiguous(msg_no_preferred(port))
                            } else {
                                SelectionOutcome::Ambiguous(msg_multiple_preferred(port))
                            }
                        },
                        None => {
                            if ts.len() == 1 {
                                SelectionOutcome::Selected(seq![ts[0]])
                            } else {
                                SelectionOutcome::Ambiguous(msg_multiple_targets(ts.len() as int))
                            }
                        },
                    }
                }
            },
        }
    }
}

/// A parsed `Device` selector, resolved against the list: exactly one
/// match is required.
pub open spec fn spec_select_device(tok: Seq<char>, ts: Seq<Target>) -> SelectionOutcome {
    match selector::classify_selector(tok) {
        selector::SelClass::Invalid(m) => SelectionOutcome::Ambiguous("invalid selector: "@ + m),
        selector::SelClass::Index(n) => {
            if 0 <= n < ts.len() {
                SelectionOutcome::Selected(seq![ts[n]])
            } else {
                SelectionOutcome::Ambiguous(
                    "index out of range: "@ + strutil::u64_chars(n as u64) + " (have "@
                        + strutil::u64_chars(ts.len() as u64) + ")"@,
                )
            }
        },
        selector::SelClass::Id(id) => {
            let ms = selector::matching_indices(id, ts);
            if ms.len() == 0 {
                SelectionOutcome::Ambiguous("no target matched: "@ + id)
            } else if ms.len() > 1 {
                SelectionOutcome::Ambiguous("multiple targets matched: "@ + id)
            } else {
                SelectionOutcome::Selected(seq![ts[ms[0] as int]])
            }
        },
    }
}

/// Ambiguity-first disambiguation: with exactly one HalfKay present
/// among any number of serial targets, `Auto` selects that HalfKay.
pub proof fn lemma_auto_prefers_single_halfkay(ts: Seq<Target>, serial_port: Option<Seq<char>>)
    requires
        halfkays_of(ts).len() == 1,
        ts.len() > 0,
    ensures
        spec_select(FlashSelection::Auto, serial_port, ts) == SelectionOutcome::Selected(
            seq![halfkays_of(ts)[0]],
        ),
{
}

/// Does the executable result present the outcome, with the
/// `TargetSelected` event where exactly one target was chosen and
/// events are wanted?
pub open spec fn selection_matches(
    r: Result<Vec<Target>, FlashError>,
    o: SelectionOutcome,
) -> bool {
    match o {
        SelectionOutcome::Selected(ts) => r matches Ok(v) && v@ == ts,
        SelectionOutcome::NoTargets => r is Err && r->Err_0 is NoTargets,
        SelectionOutcome::Ambiguous(m) => r matches Err(FlashError::AmbiguousTarget { message })
            && message@ == m,
    }
}


/// A copy of a target, field by field.
pub fn clone_target(t: &Target) -> (r: Target)
    ensures
        r == *t,
{
    match t {
        Target::HalfKay(h) => Target::HalfKay(
            crate::targets::HalfKayTarget { vid: h.vid, pid: h.pid, path: h.path.clone() },
        ),
        Target::Serial(s) => Target::Serial(
            crate::targets::SerialTarget {
                port_name: s.port_name.clone(),
                vid: s.vid,
                pid: s.pid,
                serial_number: clone_opt_string(&s.serial_number),
                manufacturer: clone_opt_string(&s.manufacturer),
                product: clone_opt_string(&s.product),
            },
        ),
    }
}

/// A copy of an optional string.
fn clone_opt_string(s: &Option<String>) -> (r: Option<String>)
    ensures
        r == *s,
{
    match s {
        Some(x) => Some(x.clone()),
        None => None,
    }
}

/// Applies the selection rules and, when exactly one target was chosen
/// and events are wanted, announces it.
pub fn select_targets(
    selection: &FlashSelection,
    serial_port: Option<&String>,
    targets: &Vec<Target>,
    emit_selected_event: bool,
    events: &mut Vec<OperationEvent>,
) -> (r: Result<Vec<Target>, FlashError>)
    ensures
        selection_matches(
            r,
            spec_select(
                *selection,
                match serial_port {
                    Some(p) => Some(p@),
                    None => None,
                },
                targets@,
            ),
        ),
        ({
            let emits = r matches Ok(v) && v@.len() == 1 && emit_selected_event;
            if emits {
                final(events)@.len() == old(events)@.len() + 1 && final(events)@ == old(events)@.push(final(events)@.last()) && (final(events)@.last() matches
                    OperationEvent::TargetSelected { target_id } && target_id@
                    == r->Ok_0@[0].spec_id())
            } else {
                final(events)@ == old(events)@
            }
        }),
{
    let n = targets.len();
    if n == 0 {
        return Err(FlashError::NoTargets);
    }
    let selected: Vec<Target> = match selection {
        FlashSelection::All => {
            let mut v: Vec<Target> = Vec::new();
            let mut i: usize = 0;
            while i < n
                invariant
                    0 <= i <= n,
                    n == targets@.len(),
                    v@ =~= targets@.take(i as int),
                decreases n - i,
            {
                v.push(clone_target(&targets[i]));
                assert(v@ =~= targets@.take(i + 1));
                i = i + 1;
            }
            assert(v@ =~= targets@);
            v
        },
        FlashSelection::Device(tok) => {
            let parsed = match selector::parse_selector(tok.as_str()) {
                Ok(p) => p,
                Err(e) => {
                    return Err(FlashError::AmbiguousTarget { message: e.message() });
                },
            };
            let idx = match selector::resolve_one(&parsed, targets) {
                Ok(i) => {
                    proof {
                        if parsed is Id {
                            selector::lemma_matching_in_range(
                                parsed->Id_0@,
                                targets@,
                                targets@.len() as int,
                            );
                        }
                    }
                    i
                },
                Err(e) => {
                    return Err(FlashError::AmbiguousTarget { message: e.message() });
                },
            };
            let mut v: Vec<Target> = Vec::new();
            v.push(clone_target(&targets[idx]));
            assert(v@ =~= seq![targets@[idx as int]]);
            v
        },
        FlashSelection::Auto => {
            let ghost hk = halfkays_of(targets@);
            let mut hk_count: usize = 0;
            let mut hk_first: usize = 0;
            let mut i: usize = 0;
            proof {
                reveal(Seq::filter);
                assert(targets@.take(0) =~= Seq::<Target>::empty());
            }
            while i < n
                invariant
                    0 <= i <= n,
                    n == targets@.len(),
                    hk == halfkays_of(targets@),
                    hk_count == halfkays_of(targets@.take(i as int)).len(),
                    hk_count > 0 ==> hk_first < i && targets@[hk_first as int] == halfkays_of(
                        targets@.take(i as int),
                    )[0],
                decreases n - i,
            {
                proof {
                    reveal(Seq::filter);
                    assert(targets@.take(i + 1).drop_last() =~= targets@.take(i as int));
                    assert(targets@.take(i + 1).last() == targets@[i as int]);
                }
                let is_hk = match &targets[i] {
                    Target::HalfKay(_) => true,
                    Target::Serial(_) => false,
                };
                if is_hk {
                    if hk_count == 0 {
                        hk_first = i;
                        assert(halfkays_of(targets@.take(i + 1))[0] == targets@[i as int]);
                    } else {
                        assert(halfkays_of(targets@.take(i + 1))[0] == halfkays_of(
                            targets@.take(i as int),
                        )[0]);
                    }
                    hk_count = hk_count + 1;
                } else {
                    assert(halfkays_of(targets@.take(i + 1)) == halfkays_of(
                        targets@.take(i as int),
                    ));
                }
                i = i + 1;
            }
            proof {
                assert(targets@.take(n as int) =~= targets@);
            }
            if hk_count == 1 {
                let mut v: Vec<Target> = Vec::new();
                v.push(clone_target(&targets[hk_first]));
                assert(v@ =~= seq![hk[0]]);
                v
            } else if hk_count > 1 {
                let mut message = "multiple HalfKay devices detected (".to_owned();
                message.append(strutil::usize_to_string(hk_count).as_str());
                message.append("); use --device or --all");
                assert(message@ =~= msg_multiple_halfkay(hk.len() as int));
                return Err(FlashError::AmbiguousTarget { message });
            } else {
                match serial_port {
                    Some(port) => {
                        let ghost pm = serial_port_matches(targets@, port@);
                        let mut m_count: usize = 0;
                        let mut m_first: usize = 0;
                        let mut j: usize = 0;
                        proof {
                            reveal(Seq::filter);
                            assert(targets@.take(0) =~= Seq::<Target>::empty());
                        }
                        while j < n
                            invariant
                                0 <= j <= n,
                                n == targets@.len(),
                                pm == serial_port_matches(targets@, port@),
                                m_count == serial_port_matches(targets@.take(j as int), port@).len(),
                                m_count > 0 ==> m_first < j && targets@[m_first as int]
                                    == serial_port_matches(targets@.take(j as int), port@)[0],
                            decreases n - j,
                        {
                            proof {
                                reveal(Seq::filter);
                                assert(targets@.take(j + 1).drop_last() =~= targets@.take(j as int));
                                assert(targets@.take(j + 1).last() == targets@[j as int]);
                            }
                            let hit = match &targets[j] {
                                Target::Serial(s) => strutil::str_eq(
                                    s.port_name.as_str(),
                                    port.as_str(),
                                ),
                                Target::HalfKay(_) => false,
                            };
                            if hit {
                                if m_count == 0 {
                                    m_first = j;
                                    assert(serial_port_matches(targets@.take(j + 1), port@)[0]
                                        == targets@[j as int]);
                                } else {
                                    assert(serial_port_matches(targets@.take(j + 1), port@)[0]
                                        == serial_port_matches(targets@.take(j as int), port@)[0]);
                                }
                                m_count = m_count + 1;
                            } else {
                                assert(serial_port_matches(targets@.take(j + 1), port@)
                                    == serial_port_matches(targets@.take(j as int), port@));
                            }
                            j = j + 1;
                        }
                        proof {
                            assert(targets@.take(n as int) =~= targets@);
                        }
                        if m_count == 1 {
                            let mut v: Vec<Target> = Vec::new();
                            v.push(clone_target(&targets[m_first]));
                            assert(v@ =~= seq![pm[0]]);
                            v
                        } else if m_count == 0 {
                            let mut message =
                                "no target matched preferred serial port ".to_owned();
                            message.append(port.as_str());
                            message.append("; use --device");
                            assert(message@ =~= msg_no_preferred(port@));
                            return Err(FlashError::AmbiguousTarget { message });
                        } else {
                            let mut message =
                                "multiple targets matched preferred serial port ".to_owned();
                            message.append(port.as_str());
                            message.append("; use --device");
                            assert(message@ =~= msg_multiple_preferred(port@));
                            return Err(FlashError::AmbiguousTarget { message });
                        }
                    },
                    None => {
                        if n == 1 {
                            let mut v: Vec<Target> = Vec::new();
                            v.push(clone_target(&targets[0]));
                            assert(v@ =~= seq![targets@[0]]);
                            v
                        } else {
                            let mut message = "multiple targets detected (".to_owned();
                            message.append(strutil::usize_to_string(n).as_str());
                            message.append("); use --device or --all");
                            assert(message@ =~= msg_multiple_targets(targets@.len() as int));
                            return Err(FlashError::AmbiguousTarget { message });
                        }
                    },
                }
            }
        },
    };
    if emit_selected_event && selected.len() == 1 {
        let id = selected[0].id();
        events.push(OperationEvent::TargetSelected { target_id: id });
    }
    Ok(selected)
}



// ---------------------------------------------------------------------
// Planning and per-target helpers.
// ---------------------------------------------------------------------

/// What a dry run yields: the parsed image, the chosen targets, and
/// whether a serial target (and so the bridge) is involved.
#[derive(Debug)]
pub struct FlashPlan {
    pub firmware: crate::hex::FirmwareImage,
    pub selected_targets: Vec<Target>,
    pub needs_serial: bool,
}

/// Builds the plan of a flash run from the HEX bytes and the
/// discovered targets: parse, announce the load, select, and note
/// whether the bridge will be needed.
pub fn plan_teensy41_with_selection(
    content: &Vec<u8>,
    opts: &FlashOptions,
    targets: &Vec<Target>,
    selection: &FlashSelection,
    events: &mut Vec<OperationEvent>,
) -> (r: Result<FlashPlan, FlashError>)
    ensures
        ({
            match crate::hex::spec_parse(content@) {
                Err(em) => r matches Err(FlashError::InvalidHex { source }) && crate::hex::err_matches(
                    source,
                    em,
                ) && final(events)@ == old(events)@,
                Ok(m) => {
                    let sel = spec_select(
                        *selection,
                        match opts.serial_port {
                            Some(ref p) => Some(p@),
                            None => None,
                        },
                        targets@,
                    );
                    let loaded = OperationEvent::HexLoaded {
                        bytes: m.byte_count,
                        blocks: crate::teensy41::NUM_BLOCKS,
                    };
                    match sel {
                        SelectionOutcome::Selected(ts) => r matches Ok(p) && crate::hex::image_matches(
                            p.firmware,
                            m,
                        ) && p.selected_targets@ == ts && p.needs_serial
                            == crate::operation_runner::seq_needs_serial(ts) && (if ts.len() == 1 {
                            final(events)@ == old(events)@.push(loaded).push(
                                final(events)@.last(),
                            ) && (final(events)@.last() matches OperationEvent::TargetSelected {
                                target_id,
                            } && target_id@ == ts[0].spec_id())
                        } else {
                            final(events)@ == old(events)@.push(loaded)
                        }),
                        SelectionOutcome::NoTargets => r is Err && r->Err_0 is NoTargets && final(events)@ == old(events)@.push(loaded),
                        SelectionOutcome::Ambiguous(msg) => r matches Err(
                            FlashError::AmbiguousTarget { message },
                        ) && message@ == msg && final(events)@ == old(events)@.push(loaded),
                    }
                },
            }
        }),
{
    let fw = match crate::hex::FirmwareImage::parse_teensy41(content) {
        Ok(fw) => fw,
        Err(e) => {
            return Err(FlashError::InvalidHex { source: e });
        },
    };
    events.push(
        OperationEvent::HexLoaded { bytes: fw.byte_count, blocks: fw.num_blocks },
    );
    let serial_port = match &opts.serial_port {
        Some(p) => Some(p),
        None => None,
    };
    let selected = match select_targets(selection, serial_port, targets, true, events) {
        Ok(v) => v,
        Err(e) => {
            return Err(e);
        },
    };
    let runner_probe = crate::operation_runner::TargetRunner::new(selected);
    let needs_serial = {
        let mut ns = false;
        let mut i: usize = 0;
        let n = runner_probe.target_count();
        while i < n
            invariant
                0 <= i <= n,
                n == runner_probe.targets().len(),
                ns == crate::operation_runner::seq_needs_serial(runner_probe.targets().take(i as int)),
            decreases n - i,
        {
            proof {
                if ns {
                    let w = choose|k: int|
                        0 <= k < i && (#[trigger] runner_probe.targets().take(i as int)[k]).spec_kind()
                            == TargetKind::Serial;
                    assert(runner_probe.targets().take(i + 1)[w].spec_kind()
                        == TargetKind::Serial);
                }
            }
            let is_serial = match runner_probe.target_at(i) {
                Target::Serial(_) => true,
                Target::HalfKay(_) => false,
            };
            if is_serial {
                assert(runner_probe.targets().take(i + 1)[i as int].spec_kind()
                    == TargetKind::Serial);
                ns = true;
            } else {
                proof {
                    if !ns && crate::operation_runner::seq_needs_serial(
                        runner_probe.targets().take(i + 1),
                    ) {
                        let w = choose|k: int|
                            0 <= k < i + 1 && (#[trigger] runner_probe.targets().take(i + 1)[k]).spec_kind()
                                == TargetKind::Serial;
                        if w < i {
                            assert(runner_probe.targets().take(i as int)[w].spec_kind()
                                == TargetKind::Serial);
                        }
                        assert(false);
                    }
                }
            }
            i = i + 1;
        }
        proof {
            assert(runner_probe.targets().take(n as int) =~= runner_probe.targets());
        }
        ns
    };
    let mut selected2: Vec<Target> = Vec::new();
    let mut i: usize = 0;
    let n = runner_probe.target_count();
    while i < n
        invariant
            0 <= i <= n,
            n == runner_probe.targets().len(),
            selected2@ =~= runner_probe.targets().take(i as int),
        decreases n - i,
    {
        selected2.push(clone_target(runner_probe.target_at(i)));
        assert(selected2@ =~= runner_probe.targets().take(i + 1));
        i = i + 1;
    }
    proof {
        assert(selected2@ =~= runner_probe.targets());
    }
    Ok(FlashPlan { firmware: fw, selected_targets: selected2, needs_serial })
}

/// Maps a bootloader wait failure to a flash failure: ambiguity is
/// reported with its count, a timeout as a missing device, and a
/// listing failure as a discovery failure.
pub fn map_wait_error(e: crate::bootloader::WaitHalfKayError) -> (r: FlashError)
    ensures
        match e {
            crate::bootloader::WaitHalfKayError::Ambiguous { count } => r matches
                FlashError::AmbiguousTarget { message } && message@
                == "multiple new HalfKay devices appeared ("@ + strutil::u64_chars(count as u64)
                + ")"@,
            crate::bootloader::WaitHalfKayError::Timeout => r is HalfKayTimeout,
            crate::bootloader::WaitHalfKayError::ListFailed { message: m } => r matches
                FlashError::DiscoveryFailed { message } && message@ == "HalfKay list failed: "@
                + m@,
        },
{
    match e {
        crate::bootloader::WaitHalfKayError::Ambiguous { count } => {
            let mut message = "multiple new HalfKay devices appeared (".to_owned();
            message.append(strutil::usize_to_string(count).as_str());
            message.append(")");
            FlashError::AmbiguousTarget { message }
        },
        crate::bootloader::WaitHalfKayError::Timeout => FlashError::HalfKayTimeout,
        crate::bootloader::WaitHalfKayError::ListFailed { message } => {
            let mut s = "HalfKay list failed: ".to_owned();
            s.append(message.as_str());
            FlashError::DiscoveryFailed { message: s }
        },
    }
}

/// Settles a finished run as the flash result: success passes, a
/// fatal single-target failure returns the error the caller kept (or
/// its message as ambiguity where none was kept), sticky ambiguity and
/// aggregate failures map to their variants, and a failed pause aborts
/// with its error.
pub fn settle_flash_result(
    outcome: crate::operation_runner::RunOutcome,
    kept: Option<FlashError>,
) -> (r: Result<(), FlashError>)
    ensures
        match outcome {
            crate::operation_runner::RunOutcome::Success => r is Ok,
            crate::operation_runner::RunOutcome::Fatal { message, .. } => r is Err && (match kept {
                Some(e) => r->Err_0 == e,
                None => r->Err_0 matches FlashError::AmbiguousTarget { message: m2 } && m2
                    == message,
            }),
            crate::operation_runner::RunOutcome::Ambiguous { message } => r matches Err(
                FlashError::AmbiguousTarget { message: m2 },
            ) && m2 == message,
            crate::operation_runner::RunOutcome::MultiFailed { failed, total } => r matches Err(
                FlashError::MultiTargetFailed { failed: f2, total: t2 },
            ) && f2 == failed && t2 == total,
            crate::operation_runner::RunOutcome::BridgePauseFailed { error } => r matches Err(
                FlashError::BridgePauseFailed { error: e2 },
            ) && e2 == error,
        },
{
    match outcome {
        crate::operation_runner::RunOutcome::Success => Ok(()),
        crate::operation_runner::RunOutcome::Fatal { message, .. } => match kept {
            Some(e) => Err(e),
            None => Err(FlashError::AmbiguousTarget { message }),
        },
        crate::operation_runner::RunOutcome::Ambiguous { message } => Err(
            FlashError::AmbiguousTarget { message },
        ),
        crate::operation_runner::RunOutcome::MultiFailed { failed, total } => Err(
            FlashError::MultiTargetFailed { failed, total },
        ),
        crate::operation_runner::RunOutcome::BridgePauseFailed { error } => Err(
            FlashError::BridgePauseFailed { error },
        ),
    }
}

/// The longest wait as an option: zero means wait forever.
pub fn wait_timeout(ms: u64) -> (r: Option<u64>)
    ensures
        r == if ms == 0 {
            None::<u64>
        } else {
            Some(ms)
        },
{
    if ms == 0 {
        None
    } else {
        Some(ms)
    }
}

/// Announces a soft reboot's outcome: the reboot itself, or why it was
/// skipped; a failure here stops the target before any device contact.
pub fn note_soft_reboot(
    target_id: &str,
    port: &str,
    r: &Result<(), String>,
    events: &mut Vec<OperationEvent>,
) -> (ok: bool)
    ensures
        ok == (r is Ok),
        final(events)@.len() == old(events)@.len() + 1,
        final(events)@ == old(events)@.push(final(events)@.last()),
        match r {
            Ok(()) => final(events)@.last() matches OperationEvent::SoftReboot {
                target_id: t2,
                port: p2,
            } && t2@ == target_id@ && p2@ == port@,
            Err(m) => final(events)@.last() matches OperationEvent::SoftRebootSkipped {
                target_id: t2,
                error,
            } && t2@ == target_id@ && error@ == m@,
        },
{
    match r {
        Ok(()) => {
            events.push(
                OperationEvent::SoftReboot { target_id: target_id.to_owned(), port: port.to_owned() },
            );
            true
        },
        Err(m) => {
            events.push(
                OperationEvent::SoftRebootSkipped {
                    target_id: target_id.to_owned(),
                    error: m.clone(),
                },
            );
            false
        },
    }
}

/// Announces that a new HalfKay device appeared at `path`.
pub fn note_halfkay_appeared(target_id: &str, path: &str, events: &mut Vec<OperationEvent>)
    ensures
        final(events)@ == old(events)@.push(final(events)@.last()),
        final(events)@.len() == old(events)@.len() + 1,
        final(events)@.last() matches OperationEvent::HalfKayAppeared { target_id: t2, path: p2 }
            && t2@ == target_id@ && p2@ == path@,
{
    events.push(
        OperationEvent::HalfKayAppeared {
            target_id: target_id.to_owned(),
            path: path.to_owned(),
        },
    );
}

/// Announces that the HalfKay device at `path` is open.
pub fn note_halfkay_open(target_id: &str, path: &str, events: &mut Vec<OperationEvent>)
    ensures
        final(events)@ == old(events)@.push(final(events)@.last()),
        final(events)@.len() == old(events)@.len() + 1,
        final(events)@.last() matches OperationEvent::HalfKayOpen { target_id: t2, path: p2 }
            && t2@ == target_id@ && p2@ == path@,
{
    events.push(
        OperationEvent::HalfKayOpen { target_id: target_id.to_owned(), path: path.to_owned() },
    );
}

/// Announces the boot command.
pub fn note_boot(target_id: &str, events: &mut Vec<OperationEvent>)
    ensures
        final(events)@ == old(events)@.push(final(events)@.last()),
        final(events)@.len() == old(events)@.len() + 1,
        final(events)@.last() matches OperationEvent::Boot { target_id: t2 } && t2@ == target_id@,
{
    events.push(OperationEvent::Boot { target_id: target_id.to_owned() });
}

/// Announces that the target is done.
pub fn note_done(target_id: &str, events: &mut Vec<OperationEvent>)
    ensures
        final(events)@ == old(events)@.push(final(events)@.last()),
        final(events)@.len() == old(events)@.len() + 1,
        final(events)@.last() matches OperationEvent::Done { target_id: t2 } && t2@ == target_id@,
{
    events.push(OperationEvent::Done { target_id: target_id.to_owned() });
}

// ---------------------------------------------------------------------
// Block streaming.
// ---------------------------------------------------------------------

/// Where the block stream stands.
#[derive(PartialEq, Eq, Structural, Clone, Copy, Debug)]
pub enum StreamPhase {
    /// Ready to announce the next block.
    NextBlock,
    /// Waiting for the write result of the current block.
    AwaitWrite,
    /// Waiting for the device to be reopened.
    AwaitReopen,
    /// Every block is written.
    AllWritten,
    /// A block failed for good.
    Failed,
}

/// What the caller must do after a write result.
#[derive(Debug)]
pub enum WriteStep {
    /// The block is written; ask for the next.
    Advanced,
    /// Reopen the device by the same path, then retry the block.
    Reopen,
    /// The block failed for good; stop with the error.
    GiveUp(FlashError),
}

/// Streams the write-set of blocks to one device, with a retry and
/// reopen budget per block.
pub struct BlockStream {
    target_id: String,
    path: String,
    blocks: Vec<usize>,
    pos: usize,
    attempt: u32,
    retries: u32,
    phase: StreamPhase,
}

impl BlockStream {
    /// Where the stream stands.
    pub closed spec fn phase(&self) -> StreamPhase {
        self.phase
    }

    /// The block start addresses to write, in order.
    pub closed spec fn blocks_spec(&self) -> Seq<usize> {
        self.blocks@
    }

    /// How many blocks are fully written.
    pub closed spec fn pos_spec(&self) -> int {
        self.pos as int
    }

    /// Write attempts made for the current block.
    pub closed spec fn attempt_spec(&self) -> int {
        self.attempt as int
    }

    /// Retries allowed per block.
    pub closed spec fn retries_spec(&self) -> int {
        self.retries as int
    }

    /// The stream's invariant.
    pub closed spec fn wf(&self) -> bool {
        &&& self.pos <= self.blocks@.len()
        &&& self.attempt <= self.retries || self.phase == StreamPhase::Failed
        &&& (self.phase == StreamPhase::NextBlock || self.phase == StreamPhase::AwaitWrite
            || self.phase == StreamPhase::AwaitReopen ==> self.pos < self.blocks@.len())
        &&& (self.phase == StreamPhase::AllWritten ==> self.pos == self.blocks@.len())
    }

    /// A fresh stream over the write-set.
    pub fn new(target_id: &str, path: &str, blocks: Vec<usize>, retries: u32) -> (r: BlockStream)
        ensures
            r.wf(),
            r.blocks_spec() == blocks@,
            r.pos_spec() == 0,
            r.attempt_spec() == 0,
            r.retries_spec() == retries as int,
            r.target_id_spec() == target_id@,
            r.path_spec() == path@,
            blocks@.len() == 0 ==> r.phase() == StreamPhase::AllWritten,
            blocks@.len() > 0 ==> r.phase() == StreamPhase::NextBlock,
    {
        let phase = if blocks.len() == 0 {
            StreamPhase::AllWritten
        } else {
            StreamPhase::NextBlock
        };
        BlockStream {
            target_id: target_id.to_owned(),
            path: path.to_owned(),
            blocks,
            pos: 0,
            attempt: 0,
            retries,
            phase,
        }
    }

    /// Announces the next block and hands out its start address and
    /// position; the caller writes it and reports back.
    pub fn begin_block(&mut self, events: &mut Vec<OperationEvent>) -> (r: (usize, usize))
        requires
            old(self).wf(),
            old(self).phase() == StreamPhase::NextBlock,
        ensures
            final(self).wf(),
            final(self).phase() == StreamPhase::AwaitWrite,
            final(self).blocks_spec() == old(self).blocks_spec(),
            final(self).pos_spec() == old(self).pos_spec(),
            final(self).attempt_spec() == old(self).attempt_spec(),
            final(self).retries_spec() == old(self).retries_spec(),
            final(self).target_id_spec() == old(self).target_id_spec(),
            final(self).path_spec() == old(self).path_spec(),
            r.0 == old(self).pos_spec(),
            r.1 == old(self).blocks_spec()[old(self).pos_spec()],
            final(events)@ == old(events)@.push(final(events)@.last()),
            final(events)@.len() == old(events)@.len() + 1,
            final(events)@.last() matches OperationEvent::Block { target_id, index, total, addr }
                && target_id@ == old(self).target_id_spec() && index == old(self).pos_spec()
                && total == old(self).blocks_spec().len() && addr == old(self).blocks_spec()[old(self).pos_spec()],
    {
        let i = self.pos;
        let addr = self.blocks[i];
        events.push(
            OperationEvent::Block {
                target_id: self.target_id.clone(),
                index: i,
                total: self.blocks.len(),
                addr,
            },
        );
        self.phase = StreamPhase::AwaitWrite;
        (i, addr)
    }

    /// Takes the write result: success advances to the next block or
    /// finishes; a failure within the retry budget announces the retry
    /// and asks for a reopen; past the budget the block fails for good.
    pub fn on_write_result(&mut self, r: &Result<(), String>, events: &mut Vec<OperationEvent>)
        -> (step: WriteStep)
        requires
            old(self).wf(),
            old(self).phase() == StreamPhase::AwaitWrite,
        ensures
            final(self).wf(),
            final(self).blocks_spec() == old(self).blocks_spec(),
            final(self).retries_spec() == old(self).retries_spec(),
            final(self).target_id_spec() == old(self).target_id_spec(),
            final(self).path_spec() == old(self).path_spec(),
            match r {
                Ok(()) => {
                    &&& step is Advanced
                    &&& final(self).pos_spec() == old(self).pos_spec() + 1
                    &&& final(self).attempt_spec() == 0
                    &&& (final(self).pos_spec() == final(self).blocks_spec().len() ==> final(self).phase() == StreamPhase::AllWritten)
                    &&& (final(self).pos_spec() < final(self).blocks_spec().len() ==> final(self).phase() == StreamPhase::NextBlock)
                    &&& final(events)@ == old(events)@
                },
                Err(m) => {
                    if old(self).attempt_spec() + 1 > old(self).retries_spec() {
                        &&& (step matches WriteStep::GiveUp(FlashError::WriteFailed {
                            addr,
                            attempts,
                            message,
                        }) && addr == old(self).blocks_spec()[old(self).pos_spec()] && attempts
                            == (if old(self).attempt_spec() < u32::MAX {
                            old(self).attempt_spec() + 1
                        } else {
                            u32::MAX as int
                        }) && message@ == m@)
                        &&& final(self).phase() == StreamPhase::Failed
                        &&& final(events)@ == old(events)@
                    } else {
                        &&& step is Reopen
                        &&& final(self).phase() == StreamPhase::AwaitReopen
                        &&& final(self).pos_spec() == old(self).pos_spec()
                        &&& final(self).attempt_spec() == old(self).attempt_spec() + 1
                        &&& final(events)@ == old(events)@.push(final(events)@.last())
                        &&& (final(events)@.last() matches OperationEvent::Retry {
                            target_id,
                            addr,
                            attempt,
                            retries,
                            error,
                        } && target_id@ == old(self).target_id_spec() && addr == old(self).blocks_spec()[old(self).pos_spec()] && attempt
                            == old(self).attempt_spec() + 1 && retries == old(self).retries_spec() && error@ == m@)
                    }
                },
            },
    {
        let nblocks = self.blocks.len();
        match r {
            Ok(()) => {
                self.pos = self.pos + 1;
                self.attempt = 0;
                self.phase = if self.pos == self.blocks.len() {
                    StreamPhase::AllWritten
                } else {
                    StreamPhase::NextBlock
                };
                WriteStep::Advanced
            },
            Err(m) => {
                let addr = self.blocks[self.pos];
                if self.attempt >= self.retries {
                    let attempts = if self.attempt < u32::MAX {
                        self.attempt + 1
                    } else {
                        u32::MAX
                    };
                    self.phase = StreamPhase::Failed;
                    WriteStep::GiveUp(
                        FlashError::WriteFailed { addr, attempts, message: m.clone() },
                    )
                } else {
                    self.attempt = self.attempt + 1;
                    events.push(
                        OperationEvent::Retry {
                            target_id: self.target_id.clone(),
                            addr,
                            attempt: self.attempt,
                            retries: self.retries,
                            error: m.clone(),
                        },
                    );
                    self.phase = StreamPhase::AwaitReopen;
                    WriteStep::Reopen
                }
            },
        }
    }

    /// Takes the reopen result: success retries the same block; a
    /// failure stops the target for good.
    pub fn on_reopen_result(&mut self, r: &Result<(), String>) -> (step: WriteStep)
        requires
            old(self).wf(),
            old(self).phase() == StreamPhase::AwaitReopen,
        ensures
            final(self).wf(),
            final(self).blocks_spec() == old(self).blocks_spec(),
            final(self).retries_spec() == old(self).retries_spec(),
            final(self).pos_spec() == old(self).pos_spec(),
            final(self).attempt_spec() == old(self).attempt_spec(),
            final(self).target_id_spec() == old(self).target_id_spec(),
            final(self).path_spec() == old(self).path_spec(),
            match r {
                Ok(()) => step is Advanced && final(self).phase() == StreamPhase::AwaitWrite,
                Err(m) => step matches WriteStep::GiveUp(FlashError::ReopenFailed {
                    path,
                    addr,
                    message,
                }) && path@ == final(self).path_spec() && addr == old(self).blocks_spec()[old(self).pos_spec()] && message@ == m@ && final(self).phase() == StreamPhase::Failed,
            },
    {
        match r {
            Ok(()) => {
                self.phase = StreamPhase::AwaitWrite;
                WriteStep::Advanced
            },
            Err(m) => {
                let addr = self.blocks[self.pos];
                self.phase = StreamPhase::Failed;
                WriteStep::GiveUp(
                    FlashError::ReopenFailed {
                        path: self.path.clone(),
                        addr,
                        message: m.clone(),
                    },
                )
            },
        }
    }

    /// The device path the stream writes to.
    pub closed spec fn path_spec(&self) -> Seq<char> {
        self.path@
    }

    /// The identifier of the target being streamed.
    pub closed spec fn target_id_spec(&self) -> Seq<char> {
        self.target_id@
    }

    /// The next block to announce, while one is left.
    pub fn more_blocks(&self) -> (r: bool)
        ensures
            r == (self.phase() == StreamPhase::NextBlock),
    {
        matches!(self.phase, StreamPhase::NextBlock)
    }
}


} // verus!
