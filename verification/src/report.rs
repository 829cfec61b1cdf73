//! Summaries of an operation for observers: a recorder that folds the
//! event stream into counters, and the plain records that renderers
//! consume.

use vstd::prelude::*;

use crate::bridge_control::{BridgePauseMethod, BridgePauseSkipReason};
use crate::operation::OperationEvent;

verus! {

/// How output is rendered; carried by the callers, read by renderers.
#[derive(Debug, Clone, Copy)]
pub struct OutputOptions {
    pub verbose: bool,
    pub quiet: bool,
    pub json_timestamps: bool,
    pub json_progress: JsonProgressMode,
}

/// How block progress is rendered in machine output.
#[derive(Debug, Clone, Copy, PartialEq, Eq, Structural)]
pub enum JsonProgressMode {
    Blocks,
    Percent,
    Quiet,
}

/// What a dry run reports.
#[derive(Debug, Clone)]
pub struct DryRunSummary {
    pub bytes: usize,
    pub blocks: usize,
    pub blocks_to_write: usize,
    pub target_ids: Vec<String>,
    pub needs_serial: bool,
    pub bridge_enabled: bool,
    pub bridge_control_port: u16,
}

/// What a finished operation reports.
#[derive(Debug, Clone)]
pub struct OperationSummary {
    pub operation: &'static str,
    pub exit_code: i32,
    pub message: Option<String>,
    pub targets_ok: Vec<String>,
    pub targets_failed: Vec<String>,
    pub blocks: u64,
    pub retries: u64,
    pub bridge_pause: String,
    pub bridge_method: Option<String>,
    pub bridge_reason: Option<String>,
}

/// Folds the event stream into the summary counters.
pub struct OperationRecorder {
    operation: &'static str,
    targets_ok: Vec<String>,
    targets_failed: Vec<String>,
    blocks: u64,
    retries: u64,
    bridge_pause: String,
    bridge_method: Option<String>,
    bridge_reason: Option<String>,
}

impl OperationRecorder {
    /// How many block events were seen.
    pub closed spec fn blocks_spec(&self) -> int {
        self.blocks as int
    }

    /// How many retry events were seen.
    pub closed spec fn retries_spec(&self) -> int {
        self.retries as int
    }

    /// The bridge pause state as text.
    pub closed spec fn bridge_pause_spec(&self) -> Seq<char> {
        self.bridge_pause@
    }

    /// The identifiers of targets that finished well.
    pub closed spec fn ok_ids(&self) -> Seq<String> {
        self.targets_ok@
    }

    /// The identifiers of targets that failed.
    pub closed spec fn failed_ids(&self) -> Seq<String> {
        self.targets_failed@
    }

    /// A fresh recorder for the named operation.
    pub fn new(operation: &'static str) -> (r: OperationRecorder)
        ensures
            r.blocks_spec() == 0,
            r.retries_spec() == 0,
            r.bridge_pause_spec() == "not_attempted"@,
            r.ok_ids().len() == 0,
            r.failed_ids().len() == 0,
    {
        OperationRecorder {
            operation,
            targets_ok: Vec::new(),
            targets_failed: Vec::new(),
            blocks: 0,
            retries: 0,
            bridge_pause: "not_attempted".to_owned(),
            bridge_method: None,
            bridge_reason: None,
        }
    }

    /// Folds one event in: bridge lifecycle updates the pause state,
    /// target completions are sorted into the two lists, and block and
    /// retry events are counted, saturating.
    pub fn observe(&mut self, ev: &OperationEvent)
        ensures
            match ev {
                OperationEvent::Block { .. } => final(self).blocks_spec() == (if old(self).blocks_spec() < u64::MAX {
                    old(self).blocks_spec() + 1
                } else {
                    old(self).blocks_spec()
                }) && final(self).retries_spec() == old(self).retries_spec(),
                OperationEvent::Retry { .. } => final(self).retries_spec() == (if old(self).retries_spec() < u64::MAX {
                    old(self).retries_spec() + 1
                } else {
                    old(self).retries_spec()
                }) && final(self).blocks_spec() == old(self).blocks_spec(),
                OperationEvent::BridgePauseStart => final(self).bridge_pause_spec()
                    == "attempted"@,
                OperationEvent::BridgePaused { .. } => final(self).bridge_pause_spec()
                    == "paused"@,
                OperationEvent::BridgePauseSkipped { .. } => final(self).bridge_pause_spec()
                    == "skipped"@,
                OperationEvent::BridgePauseFailed { .. } => final(self).bridge_pause_spec()
                    == "failed"@,
                OperationEvent::TargetDone { target_id, ok, .. } => {
                    if *ok {
                        final(self).ok_ids() == old(self).ok_ids().push(*target_id) && final(self).failed_ids() == old(self).failed_ids()
                    } else {
                        final(self).failed_ids() == old(self).failed_ids().push(*target_id)
                            && final(self).ok_ids() == old(self).ok_ids()
                    }
                },
                _ => final(self).blocks_spec() == old(self).blocks_spec() && final(self).retries_spec() == old(self).retries_spec() && final(self).bridge_pause_spec()
                    == old(self).bridge_pause_spec(),
            },
    {
        match ev {
            OperationEvent::BridgePauseStart => {
                self.bridge_pause = "attempted".to_owned();
            },
            OperationEvent::BridgePaused { info } => {
                self.bridge_pause = "paused".to_owned();
                self.bridge_method = Some(
                    match info.method {
                        BridgePauseMethod::Control => "control".to_owned(),
                        BridgePauseMethod::Service => "service".to_owned(),
                        BridgePauseMethod::Process => "process".to_owned(),
                    },
                );
            },
            OperationEvent::BridgePauseSkipped { reason } => {
                self.bridge_pause = "skipped".to_owned();
                self.bridge_reason = Some(
                    match reason {
                        BridgePauseSkipReason::Disabled => "disabled".to_owned(),
                        BridgePauseSkipReason::NotRunning => "not_running".to_owned(),
                        BridgePauseSkipReason::NotInstalled => "not_installed".to_owned(),
                        BridgePauseSkipReason::ProcessNotRestartable => {
                            "process_not_restartable".to_owned()
                        },
                    },
                );
            },
            OperationEvent::BridgePauseFailed { .. } => {
                self.bridge_pause = "failed".to_owned();
            },
            OperationEvent::TargetDone { target_id, ok, .. } => {
                if *ok {
                    self.targets_ok.push(target_id.clone());
                } else {
                    self.targets_failed.push(target_id.clone());
                }
            },
            OperationEvent::Block { .. } => {
                if self.blocks < u64::MAX {
                    self.blocks = self.blocks + 1;
                }
            },
            OperationEvent::Retry { .. } => {
                if self.retries < u64::MAX {
                    self.retries = self.retries + 1;
                }
            },
            _ => {},
        }
    }

    /// Closes the recorder into a summary.
    pub fn finish(self, exit_code: i32, message: Option<String>) -> (r: OperationSummary)
        ensures
            r.exit_code == exit_code,
            r.message == message,
            r.blocks as int == self.blocks_spec(),
            r.retries as int == self.retries_spec(),
            r.bridge_pause@ == self.bridge_pause_spec(),
            r.targets_ok@ == self.ok_ids(),
            r.targets_failed@ == self.failed_ids(),
    {
        OperationSummary {
            operation: self.operation,
            exit_code,
            message,
            targets_ok: self.targets_ok,
            targets_failed: self.targets_failed,
            blocks: self.blocks,
            retries: self.retries,
            bridge_pause: self.bridge_pause,
            bridge_method: self.bridge_method,
            bridge_reason: self.bridge_reason,
        }
    }
}

} // verus!
