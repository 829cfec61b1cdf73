//! The reboot operation: coerce selected targets into HalfKay
//! bootloader mode without flashing anything.

use vstd::prelude::*;

use crate::bootloader::WaitHalfKayError;
use crate::bridge_control::{BridgeControlErrorInfo, BridgeControlOptions};
use crate::strutil;

verus! {

/// The knobs of a reboot run.
#[derive(Debug, Clone)]
pub struct RebootOptions {
    /// Prefer this serial port name among several serial targets.
    pub serial_port: Option<String>,
    /// Longest wait for HalfKay after a soft reboot, in milliseconds;
    /// none waits forever.
    pub wait_timeout_ms: Option<u64>,
    /// Poll interval while waiting, in milliseconds.
    pub poll_interval_ms: u64,
    /// Pause after a soft reboot before polling, in milliseconds.
    pub soft_reboot_delay_ms: u64,
    /// How the bridge is paused and resumed.
    pub bridge: BridgeControlOptions,
}

impl Default for RebootOptions {
    /// A one minute wait with a 50 ms poll, a 250 ms settle after the
    /// soft reboot, and the default bridge control.
    fn default() -> (r: Self)
        ensures
            r.serial_port is None,
            r.wait_timeout_ms == Some(60_000u64),
            r.poll_interval_ms == 50,
            r.soft_reboot_delay_ms == 250,
    {
        RebootOptions {
            serial_port: None,
            wait_timeout_ms: Some(60_000),
            poll_interval_ms: 50,
            soft_reboot_delay_ms: 250,
            bridge: Default::default(),
        }
    }
}

/// The kind of a reboot failure, for exit-code mapping.
#[derive(Debug, Copy, Clone, PartialEq, Eq, Structural)]
pub enum RebootErrorKind {
    NoDevice,
    AmbiguousTarget,
    BridgePauseFailed,
    Unexpected,
}

/// Why a reboot run failed.
#[derive(Debug)]
pub enum RebootError {
    /// No target was detected.
    NoTargets,
    /// Selection could not pick one target.
    AmbiguousTarget { message: String },
    /// Enumerating targets failed.
    DiscoveryFailed { message: String },
    /// The serial soft reboot failed before any device contact.
    SoftRebootFailed { port: String, message: String },
    /// No HalfKay device appeared after the soft reboot.
    HalfKayTimeout,
    /// Several targets ran and some failed.
    MultiTargetFailed { failed: usize, total: usize },
    /// The bridge could not be paused; no target was touched.
    BridgePauseFailed { error: BridgeControlErrorInfo },
    /// Anything that fits nowhere above.
    Unexpected { message: String },
}

impl RebootError {
    /// The kind of this failure.
    pub fn kind(&self) -> (k: RebootErrorKind)
        ensures
            k == match self {
                RebootError::NoTargets => RebootErrorKind::NoDevice,
                RebootError::AmbiguousTarget { .. } => RebootErrorKind::AmbiguousTarget,
                RebootError::DiscoveryFailed { .. } => RebootErrorKind::Unexpected,
                RebootError::SoftRebootFailed { .. } => RebootErrorKind::NoDevice,
                RebootError::HalfKayTimeout => RebootErrorKind::NoDevice,
                RebootError::MultiTargetFailed { .. } => RebootErrorKind::NoDevice,
                RebootError::BridgePauseFailed { .. } => RebootErrorKind::BridgePauseFailed,
                RebootError::Unexpected { .. } => RebootErrorKind::Unexpected,
            },
    {
        match self {
            RebootError::NoTargets => RebootErrorKind::NoDevice,
            RebootError::AmbiguousTarget { .. } => RebootErrorKind::AmbiguousTarget,
            RebootError::DiscoveryFailed { .. } => RebootErrorKind::Unexpected,
            RebootError::SoftRebootFailed { .. } => RebootErrorKind::NoDevice,
            RebootError::HalfKayTimeout => RebootErrorKind::NoDevice,
            RebootError::MultiTargetFailed { .. } => RebootErrorKind::NoDevice,
            RebootError::BridgePauseFailed { .. } => RebootErrorKind::BridgePauseFailed,
            RebootError::Unexpected { .. } => RebootErrorKind::Unexpected,
        }
    }

    /// Does this failure classify as ambiguity?
    pub fn is_ambiguous(&self) -> (r: bool)
        ensures
            r == (self is AmbiguousTarget),
    {
        matches!(self, RebootError::AmbiguousTarget { .. })
    }

    /// The error as text.
    pub open spec fn spec_message(&self) -> Seq<char> {
        match self {
            RebootError::NoTargets => "no target device found"@,
            RebootError::AmbiguousTarget { message } => "ambiguous target: "@ + message@,
            RebootError::DiscoveryFailed { message } => "target discovery failed: "@ + message@,
            RebootError::SoftRebootFailed { port, message } => "soft reboot failed on "@ + port@
                + ": "@ + message@,
            RebootError::HalfKayTimeout => "HalfKay did not appear after soft reboot"@,
            RebootError::MultiTargetFailed { failed, total } => "reboot failed for "@
                + strutil::u64_chars(*failed as u64) + "/"@ + strutil::u64_chars(*total as u64)
                + " targets"@,
            RebootError::BridgePauseFailed { error } => "bridge pause failed: "@ + error.message@,
            RebootError::Unexpected { message } => message@,
        }
    }

    /// Renders the error as text.
    pub fn message(&self) -> (r: String)
        ensures
            r@ == self.spec_message(),
    {
        match self {
            RebootError::NoTargets => "no target device found".to_owned(),
            RebootError::AmbiguousTarget { message } => {
                let mut s = "ambiguous target: ".to_owned();
                s.append(message.as_str());
                s
            },
            RebootError::DiscoveryFailed { message } => {
                let mut s = "target discovery failed: ".to_owned();
                s.append(message.as_str());
                s
            },
            RebootError::SoftRebootFailed { port, message } => {
                let mut s = "soft reboot failed on ".to_owned();
                s.append(port.as_str());
                s.append(": ");
                s.append(message.as_str());
                s
            },
            RebootError::HalfKayTimeout => "HalfKay did not appear after soft reboot".to_owned(),
            RebootError::MultiTargetFailed { failed, total } => {
                let mut s = "reboot failed for ".to_owned();
                s.append(strutil::usize_to_string(*failed).as_str());
                s.append("/");
                s.append(strutil::usize_to_string(*total).as_str());
                s.append(" targets");
                s
            },
            RebootError::BridgePauseFailed { error } => {
                let mut s = "bridge pause failed: ".to_owned();
                s.append(error.message.as_str());
                s
            },
            RebootError::Unexpected { message } => message.clone(),
        }
    }
}

/// Maps a bootloader wait failure to a reboot failure: ambiguity is
/// reported with its count, a timeout as such, and a listing failure
/// as a discovery failure.
pub fn map_wait_error(e: WaitHalfKayError) -> (r: RebootError)
    ensures
        match e {
            WaitHalfKayError::Ambiguous { count } => r matches RebootError::AmbiguousTarget {
                message,
            } && message@ == "multiple new HalfKay devices appeared ("@ + strutil::u64_chars(
                count as u64,
            ) + ")"@,
            WaitHalfKayError::Timeout => r is HalfKayTimeout,
            WaitHalfKayError::ListFailed { message: m } => r matches
                RebootError::DiscoveryFailed { message } && message@ == "HalfKay list failed: "@
                + m@,
        },
{
    match e {
        WaitHalfKayError::Ambiguous { count } => {
            let mut message = "multiple new HalfKay devices appeared (".to_owned();
            message.append(strutil::usize_to_string(count).as_str());
            message.append(")");
            RebootError::AmbiguousTarget { message }
        },
        WaitHalfKayError::Timeout => RebootError::HalfKayTimeout,
        WaitHalfKayError::ListFailed { message } => {
            let mut s = "HalfKay list failed: ".to_owned();
            s.append(message.as_str());
            RebootError::DiscoveryFailed { message: s }
        },
    }
}


/// A selection failure of the shared rules, as a reboot failure: no
/// targets and ambiguity keep their meaning, anything else is
/// unexpected here.
pub fn select_error_for_reboot(e: crate::api::FlashError) -> (r: RebootError)
    ensures
        match e {
            crate::api::FlashError::NoTargets => r is NoTargets,
            crate::api::FlashError::AmbiguousTarget { message } => r matches
                RebootError::AmbiguousTarget { message: m2 } && m2 == message,
            _ => r matches RebootError::Unexpected { message } && message@ == e.spec_message(),
        },
{
    match e {
        crate::api::FlashError::NoTargets => RebootError::NoTargets,
        crate::api::FlashError::AmbiguousTarget { message } => RebootError::AmbiguousTarget {
            message,
        },
        other => RebootError::Unexpected { message: other.message() },
    }
}

/// Settles a finished run as the reboot result, with the same
/// precedence as the flash side.
pub fn settle_reboot_result(
    outcome: crate::operation_runner::RunOutcome,
    kept: Option<RebootError>,
) -> (r: Result<(), RebootError>)
    ensures
        match outcome {
            crate::operation_runner::RunOutcome::Success => r is Ok,
            crate::operation_runner::RunOutcome::Fatal { message, .. } => r is Err && (match kept {
                Some(e) => r->Err_0 == e,
                None => r->Err_0 matches RebootError::AmbiguousTarget { message: m2 } && m2
                    == message,
            }),
            crate::operation_runner::RunOutcome::Ambiguous { message } => r matches Err(
                RebootError::AmbiguousTarget { message: m2 },
            ) && m2 == message,
            crate::operation_runner::RunOutcome::MultiFailed { failed, total } => r matches Err(
                RebootError::MultiTargetFailed { failed: f2, total: t2 },
            ) && f2 == failed && t2 == total,
            crate::operation_runner::RunOutcome::BridgePauseFailed { error } => r matches Err(
                RebootError::BridgePauseFailed { error: e2 },
            ) && e2 == error,
        },
{
    match outcome {
        crate::operation_runner::RunOutcome::Success => Ok(()),
        crate::operation_runner::RunOutcome::Fatal { message, .. } => match kept {
            Some(e) => Err(e),
            None => Err(RebootError::AmbiguousTarget { message }),
        },
        crate::operation_runner::RunOutcome::Ambiguous { message } => Err(
            RebootError::AmbiguousTarget { message },
        ),
        crate::operation_runner::RunOutcome::MultiFailed { failed, total } => Err(
            RebootError::MultiTargetFailed { failed, total },
        ),
        crate::operation_runner::RunOutcome::BridgePauseFailed { error } => Err(
            RebootError::BridgePauseFailed { error },
        ),
    }
}


} // verus!
