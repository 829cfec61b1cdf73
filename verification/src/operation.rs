//! The operation event stream: one tagged variant that every
//! operation emits, in causal order, for observers.  Events are
//! advisory; losing them changes no outcome.

use vstd::prelude::*;

use crate::bridge_control::{BridgeControlErrorInfo, BridgePauseInfo, BridgePauseSkipReason};
use crate::targets::{Target, TargetKind};

verus! {

/// One event of an operation, in the order the operation emits them.
#[derive(Debug, Clone)]
pub enum OperationEvent {
    /// Target discovery begins.
    DiscoverStart,
    /// A target was observed during discovery.
    TargetDetected { index: usize, target: Target },
    /// Target discovery finished for this poll.
    DiscoverDone { count: usize },
    /// A single target has been chosen for operation.
    TargetSelected { target_id: String },
    BridgePauseStart,
    BridgePaused { info: BridgePauseInfo },
    BridgePauseSkipped { reason: BridgePauseSkipReason },
    BridgePauseFailed { error: BridgeControlErrorInfo },
    BridgeResumeStart,
    BridgeResumed,
    BridgeResumeFailed { error: BridgeControlErrorInfo },
    HexLoaded { bytes: usize, blocks: usize },
    /// Operation begins on a target.
    TargetStart { target_id: String, kind: TargetKind },
    /// Operation finished on a target.
    TargetDone { target_id: String, ok: bool, message: Option<String> },
    SoftReboot { target_id: String, port: String },
    SoftRebootSkipped { target_id: String, error: String },
    HalfKayAppeared { target_id: String, path: String },
    HalfKayOpen { target_id: String, path: String },
    Block { target_id: String, index: usize, total: usize, addr: usize },
    Retry { target_id: String, addr: usize, attempt: u32, retries: u32, error: String },
    Boot { target_id: String },
    Done { target_id: String },
}

/// Is `e` part of the bridge pause or resume lifecycle?
pub open spec fn is_bridge_event(e: OperationEvent) -> bool {
    match e {
        OperationEvent::BridgePauseStart => true,
        OperationEvent::BridgePaused { .. } => true,
        OperationEvent::BridgePauseSkipped { .. } => true,
        OperationEvent::BridgePauseFailed { .. } => true,
        OperationEvent::BridgeResumeStart => true,
        OperationEvent::BridgeResumed => true,
        OperationEvent::BridgeResumeFailed { .. } => true,
        _ => false,
    }
}

/// Counts the events of `s` that satisfy `f`.
pub open spec fn count_events(s: Seq<OperationEvent>, f: spec_fn(OperationEvent) -> bool) -> int
    decreases s.len(),
{
    if s.len() == 0 {
        0
    } else {
        count_events(s.drop_last(), f) + if f(s.last()) {
            1int
        } else {
            0int
        }
    }
}

/// Counting one more event.
pub proof fn lemma_count_events_push(s: Seq<OperationEvent>, f: spec_fn(OperationEvent) -> bool, e: OperationEvent)
    ensures
        count_events(s.push(e), f) == count_events(s, f) + if f(e) {
            1int
        } else {
            0int
        },
{
    assert(s.push(e).drop_last() =~= s);
}

/// A count is never negative.
pub proof fn lemma_count_events_nonneg(s: Seq<OperationEvent>, f: spec_fn(OperationEvent) -> bool)
    ensures
        count_events(s, f) >= 0,
    decreases s.len(),
{
    if s.len() > 0 {
        lemma_count_events_nonneg(s.drop_last(), f);
    }
}

} // verus!
