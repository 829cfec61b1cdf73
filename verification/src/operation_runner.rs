//! The shared operation runner: pause the bridge when a serial target
//! is selected, run each target, aggregate failures, and resume the
//! bridge on every exit path.
//!
//! The runner is a state machine.  The caller performs the outside
//! work — pausing, per-target device work, resuming — and feeds each
//! observation back; the runner decides every step, emits the event
//! stream, and keeps a ghost log of its own emissions, over which the
//! bridge-safety laws at the end of this file are stated.

use vstd::prelude::*;

use crate::bridge_control::{BridgeControlErrorInfo, BridgeGuard, BridgePause, BridgePauseOutcome};
use crate::operation::{count_events, is_bridge_event, lemma_count_events_push, OperationEvent};
use crate::targets::{Target, TargetKind};

verus! {

/// A per-target failure as the runner records it.
pub struct TargetFailure {
    /// Does this failure classify as ambiguity?
    pub ambiguous: bool,
    /// The failure as text, for the `TargetDone` event.
    pub message: String,
}

/// The outcome of a whole run, in precedence order: a single-target
/// failure is fatal; otherwise the first ambiguity wins; otherwise any
/// failure counts; otherwise success.
#[derive(Debug)]
pub enum RunOutcome {
    /// Every target succeeded.
    Success,
    /// The single selected target failed; the run stopped there.
    Fatal { index: usize, ambiguous: bool, message: String },
    /// Some target failed with ambiguity; the first such message wins.
    Ambiguous { message: String },
    /// Several targets ran and some failed.
    MultiFailed { failed: usize, total: usize },
    /// The bridge could not be paused; no target was touched.
    BridgePauseFailed { error: BridgeControlErrorInfo },
}

/// Where the runner stands.
#[derive(PartialEq, Eq, Structural, Clone, Copy, Debug)]
pub enum RunnerPhase {
    /// Created; `start` has not run.
    Created,
    /// Waiting for the bridge pause observation.
    AwaitPause,
    /// Ready to start the next target.
    Running,
    /// Waiting for the current target's result.
    TargetInFlight,
    /// Waiting for the resume observation.
    AwaitResume,
    /// Finished; the outcome is set.
    Done,
}

/// Is `e` a `BridgePaused` event?
pub open spec fn is_paused_event(e: OperationEvent) -> bool {
    e is BridgePaused
}

/// Is `e` the final event of a resume: `BridgeResumed` or
/// `BridgeResumeFailed`?
pub open spec fn is_resume_final_event(e: OperationEvent) -> bool {
    e is BridgeResumed || e is BridgeResumeFailed
}

/// Is `e` a `TargetStart` event?
pub open spec fn is_target_start_event(e: OperationEvent) -> bool {
    e is TargetStart
}

/// Is `e` a `BridgeResumeStart` event?
pub open spec fn is_resume_start_event(e: OperationEvent) -> bool {
    e is BridgeResumeStart
}

/// The `BridgePaused` predicate, shared by every count.
pub open spec fn paused_pred() -> spec_fn(OperationEvent) -> bool {
    |e: OperationEvent| is_paused_event(e)
}

/// The resume-final predicate, shared by every count.
pub open spec fn resume_final_pred() -> spec_fn(OperationEvent) -> bool {
    |e: OperationEvent| is_resume_final_event(e)
}

/// The `TargetStart` predicate, shared by every count.
pub open spec fn target_start_pred() -> spec_fn(OperationEvent) -> bool {
    |e: OperationEvent| is_target_start_event(e)
}

/// The `BridgeResumeStart` predicate, shared by every count.
pub open spec fn resume_start_pred() -> spec_fn(OperationEvent) -> bool {
    |e: OperationEvent| is_resume_start_event(e)
}

/// Does the selection hold a serial target?
pub open spec fn seq_needs_serial(s: Seq<Target>) -> bool {
    exists|i: int| 0 <= i < s.len() && (#[trigger] s[i]).spec_kind() == TargetKind::Serial
}

/// Runs one operation over the selected targets.
pub struct TargetRunner {
    selected: Vec<Target>,
    phase: RunnerPhase,
    needs_serial: bool,
    pos: usize,
    failed: usize,
    ambiguous_message: Option<String>,
    guard: Option<BridgeGuard>,
    outcome: Option<RunOutcome>,
    paused_emitted: bool,
    resume_start_emitted: bool,
    resume_emitted: bool,
    log: Ghost<Seq<OperationEvent>>,
}

/// All three event counts across one more event.
proof fn lemma_push_all_counts(s: Seq<OperationEvent>, e: OperationEvent)
    ensures
        count_events(s.push(e), paused_pred()) == count_events(
            s,
            paused_pred(),
        ) + if is_paused_event(e) {
            1int
        } else {
            0int
        },
        count_events(s.push(e), resume_final_pred()) == count_events(
            s,
            resume_final_pred(),
        ) + if is_resume_final_event(e) {
            1int
        } else {
            0int
        },
        count_events(s.push(e), target_start_pred()) == count_events(
            s,
            target_start_pred(),
        ) + if is_target_start_event(e) {
            1int
        } else {
            0int
        },
        count_events(s.push(e), resume_start_pred()) == count_events(
            s,
            resume_start_pred(),
        ) + if is_resume_start_event(e) {
            1int
        } else {
            0int
        },
{
    lemma_count_events_push(s, paused_pred(), e);
    lemma_count_events_push(s, resume_final_pred(), e);
    lemma_count_events_push(s, target_start_pred(), e);
    lemma_count_events_push(s, resume_start_pred(), e);
}

impl TargetRunner {
    /// The events this runner has emitted, in order.
    pub closed spec fn log(&self) -> Seq<OperationEvent> {
        self.log@
    }

    /// The selected targets, in run order.
    pub closed spec fn targets(&self) -> Seq<Target> {
        self.selected@
    }

    /// One selected target.
    pub fn target_at(&self, i: usize) -> (r: &Target)
        requires
            i < self.targets().len(),
        ensures
            *r == self.targets()[i as int],
    {
        &self.selected[i]
    }

    /// How many targets are selected.
    pub fn target_count(&self) -> (r: usize)
        ensures
            r == self.targets().len(),
    {
        self.selected.len()
    }

    /// Where the runner stands.
    pub closed spec fn phase(&self) -> RunnerPhase {
        self.phase
    }

    /// Does the selection hold a serial target?
    pub closed spec fn needs_serial(&self) -> bool {
        self.needs_serial
    }

    /// The outcome, once decided.
    pub closed spec fn spec_outcome(&self) -> Option<RunOutcome> {
        self.outcome
    }

    /// Was a `BridgePaused` event emitted?
    pub closed spec fn paused(&self) -> bool {
        self.paused_emitted
    }

    /// How many targets have finished.
    pub closed spec fn pos_spec(&self) -> int {
        self.pos as int
    }

    /// How many targets have failed.
    pub closed spec fn failed_spec(&self) -> int {
        self.failed as int
    }

    /// The first ambiguous failure message, where one was seen.
    pub closed spec fn ambiguous_spec(&self) -> Option<String> {
        self.ambiguous_message
    }

    /// Does the runner hold a guard to resume?
    pub closed spec fn has_guard(&self) -> bool {
        self.guard is Some
    }

    /// The guard held for the resume, where one is.
    pub closed spec fn guard_spec(&self) -> Option<BridgeGuard> {
        self.guard
    }

    /// The runner's invariant.
    pub closed spec fn wf(&self) -> bool {
        &&& self.needs_serial == seq_needs_serial(self.selected@)
        &&& self.pos <= self.targets().len()
        &&& self.failed <= self.pos
        &&& (!self.needs_serial ==> (forall|i: int|
            0 <= i < self.log@.len() ==> !is_bridge_event(#[trigger] self.log@[i]))
            && self.guard is None)
        &&& count_events(self.log@, paused_pred()) == if self
            .paused_emitted {
            1int
        } else {
            0int
        }
        &&& count_events(self.log@, resume_final_pred()) == if self
            .resume_emitted {
            1int
        } else {
            0int
        }
        &&& count_events(self.log@, resume_start_pred()) == if self.resume_start_emitted {
            1int
        } else {
            0int
        }
        &&& (self.resume_emitted ==> self.resume_start_emitted)
        &&& (self.phase == RunnerPhase::AwaitResume ==> self.resume_start_emitted
            && !self.resume_emitted)
        &&& ((self.phase == RunnerPhase::Created || self.phase == RunnerPhase::AwaitPause
            || self.phase == RunnerPhase::Running || self.phase == RunnerPhase::TargetInFlight)
            ==> !self.resume_start_emitted)
        &&& (self.resume_emitted ==> self.phase == RunnerPhase::Done)
        &&& (self.outcome is Some <==> (self.phase == RunnerPhase::Done || self.phase
            == RunnerPhase::AwaitResume))
        &&& (self.phase == RunnerPhase::Done && self.paused_emitted ==> self.resume_emitted)
        &&& (self.paused_emitted && self.phase != RunnerPhase::Done ==> self.guard is Some)
        &&& (self.phase == RunnerPhase::AwaitResume ==> self.guard is Some)
        &&& ((self.outcome matches Some(RunOutcome::BridgePauseFailed { .. })) ==> count_events(
            self.log@,
            target_start_pred(),
        ) == 0)
        &&& ((self.phase == RunnerPhase::Created || self.phase == RunnerPhase::AwaitPause)
            ==> count_events(self.log@, target_start_pred()) == 0)
        &&& (self.phase == RunnerPhase::AwaitPause ==> self.needs_serial)
        &&& ((self.phase == RunnerPhase::Created || self.phase == RunnerPhase::AwaitPause)
            ==> !self.paused_emitted && self.guard is None)
    }

    /// A fresh runner over the selection.
    pub fn new(selected: Vec<Target>) -> (r: TargetRunner)
        ensures
            r.wf(),
            r.log() == Seq::<OperationEvent>::empty(),
            r.phase() == RunnerPhase::Created,
            r.targets() == selected@,
            r.needs_serial() == seq_needs_serial(selected@),
            !r.paused(),
            r.pos_spec() == 0,
            r.failed_spec() == 0,
            r.ambiguous_spec() is None,
            !r.has_guard(),
    {
        let n = selected.len();
        let mut needs_serial = false;
        let mut i: usize = 0;
        while i < n
            invariant
                0 <= i <= n,
                n == selected@.len(),
                needs_serial == seq_needs_serial(selected@.take(i as int)),
            decreases n - i,
        {
            proof {
                if needs_serial {
                    let w = choose|k: int|
                        0 <= k < i && (#[trigger] selected@.take(i as int)[k]).spec_kind()
                            == TargetKind::Serial;
                    assert(selected@.take(i + 1)[w].spec_kind() == TargetKind::Serial);
                }
            }
            let is_serial = match &selected[i] {
                Target::Serial(_) => true,
                Target::HalfKay(_) => false,
            };
            if is_serial {
                assert(selected@.take(i + 1)[i as int].spec_kind() == TargetKind::Serial);
                needs_serial = true;
            } else {
                proof {
                    if !needs_serial && seq_needs_serial(selected@.take(i + 1)) {
                        let w = choose|k: int|
                            0 <= k < i + 1 && (#[trigger] selected@.take(i + 1)[k]).spec_kind()
                                == TargetKind::Serial;
                        if w < i {
                            assert(selected@.take(i as int)[w].spec_kind() == TargetKind::Serial);
                        }
                        assert(false);
                    }
                }
            }
            i = i + 1;
        }
        proof {
            assert(selected@.take(n as int) =~= selected@);
        }
        TargetRunner {
            selected,
            phase: RunnerPhase::Created,
            needs_serial,
            pos: 0,
            failed: 0,
            ambiguous_message: None,
            guard: None,
            outcome: None,
            paused_emitted: false,
            resume_start_emitted: false,
            resume_emitted: false,
            log: Ghost(Seq::empty()),
        }
    }

    /// Begins the run: a selection holding a serial target first asks
    /// for the bridge to be paused, announcing it; a HalfKay-only
    /// selection goes straight to its targets.
    pub fn start(&mut self, events: &mut Vec<OperationEvent>)
        requires
            old(self).wf(),
            old(self).phase() == RunnerPhase::Created,
        ensures
            final(self).wf(),
            final(self).targets() == old(self).targets(),
            final(self).needs_serial() == old(self).needs_serial(),
            final(self).paused() == old(self).paused(),
            final(self).spec_outcome() is None,
            final(self).pos_spec() == old(self).pos_spec(),
            final(self).failed_spec() == old(self).failed_spec(),
            final(self).ambiguous_spec() == old(self).ambiguous_spec(),
            final(self).has_guard() == old(self).has_guard(),
            old(self).needs_serial() ==> final(self).phase() == RunnerPhase::AwaitPause && final(self).log() == old(self).log().push(OperationEvent::BridgePauseStart) && final(events)@
                == old(events)@.push(OperationEvent::BridgePauseStart),
            !old(self).needs_serial() ==> final(self).phase() == RunnerPhase::Running && final(self).log() == old(self).log() && final(events)@ == old(events)@,
    {
        if self.needs_serial {
            proof {
                lemma_push_all_counts(self.log@, OperationEvent::BridgePauseStart);
            }
            events.push(OperationEvent::BridgePauseStart);
            proof {
                self.log@ = self.log@.push(OperationEvent::BridgePauseStart);
            }
            self.phase = RunnerPhase::AwaitPause;
        } else {
            self.phase = RunnerPhase::Running;
        }
    }

    /// Is the runner waiting for a pause observation?
    pub fn needs_pause(&self) -> (r: bool)
        ensures
            r == (self.phase() == RunnerPhase::AwaitPause),
    {
        matches!(self.phase, RunnerPhase::AwaitPause)
    }

    /// Takes the pause observation.  A failure decides the whole run
    /// at once — no target is touched — while a pause or a skip
    /// records the guard and proceeds to the targets.
    pub fn on_bridge_pause(&mut self, pause: BridgePause, events: &mut Vec<OperationEvent>)
        requires
            old(self).wf(),
            old(self).phase() == RunnerPhase::AwaitPause,
            pause.wf(),
        ensures
            final(self).wf(),
            final(self).targets() == old(self).targets(),
            final(self).needs_serial() == old(self).needs_serial(),
            final(self).pos_spec() == old(self).pos_spec(),
            final(self).failed_spec() == old(self).failed_spec(),
            final(self).ambiguous_spec() == old(self).ambiguous_spec(),
            final(self).log().len() == old(self).log().len() + 1,
            final(self).log() == old(self).log().push(final(self).log().last()),
            final(events)@ == old(events)@.push(final(self).log().last()),
            match pause.outcome {
                BridgePauseOutcome::Paused(info) => {
                    &&& final(self).phase() == RunnerPhase::Running
                    &&& final(self).log().last() == (OperationEvent::BridgePaused { info })
                    &&& final(self).paused()
                    &&& final(self).has_guard()
                },
                BridgePauseOutcome::Skipped(reason) => {
                    &&& final(self).phase() == RunnerPhase::Running
                    &&& final(self).log().last() == (OperationEvent::BridgePauseSkipped { reason })
                    &&& final(self).paused() == old(self).paused()
                },
                BridgePauseOutcome::Failed(error) => {
                    &&& final(self).phase() == RunnerPhase::Done
                    &&& final(self).log().last() == (OperationEvent::BridgePauseFailed { error })
                    &&& (final(self).spec_outcome() matches Some(
                        RunOutcome::BridgePauseFailed { error: e2 },
                    ) && e2 == error)
                    &&& final(self).paused() == old(self).paused()
                    &&& count_events(
                        final(self).log(),
                        target_start_pred(),
                    ) == 0
                },
            },
    {
        let BridgePause { guard, outcome } = pause;
        proof {
            assert(guard == pause.guard);
            assert(outcome == pause.outcome);
        }
        match outcome {
            BridgePauseOutcome::Paused(info) => {
                assert(guard is Some);
                let ghost gi = info;
                proof {
                    lemma_push_all_counts(self.log@, OperationEvent::BridgePaused { info: gi });
                }
                events.push(OperationEvent::BridgePaused { info });
                proof {
                    self.log@ = self.log@.push(OperationEvent::BridgePaused { info: gi });
                }
                self.guard = guard;
                self.paused_emitted = true;
                self.phase = RunnerPhase::Running;
            },
            BridgePauseOutcome::Skipped(reason) => {
                proof {
                    lemma_push_all_counts(self.log@, OperationEvent::BridgePauseSkipped { reason });
                }
                events.push(OperationEvent::BridgePauseSkipped { reason });
                proof {
                    self.log@ = self.log@.push(OperationEvent::BridgePauseSkipped { reason });
                }
                self.guard = guard;
                self.phase = RunnerPhase::Running;
            },
            BridgePauseOutcome::Failed(error) => {
                let ghost ge = error;
                proof {
                    lemma_push_all_counts(
                        self.log@,
                        OperationEvent::BridgePauseFailed { error: ge },
                    );
                }
                let message = error.message.clone();
                let hint = match &error.hint {
                    Some(h) => Some(h.clone()),
                    None => None,
                };
                events.push(OperationEvent::BridgePauseFailed { error });
                proof {
                    self.log@ = self.log@.push(OperationEvent::BridgePauseFailed { error: ge });
                }
                let kept = BridgeControlErrorInfo { message, hint };
                assert(kept == ge);
                self.outcome = Some(RunOutcome::BridgePauseFailed { error: kept });
                self.phase = RunnerPhase::Done;
            },
        }
    }

    /// The index of the target to run next, when one is ready.
    pub fn next_target(&self) -> (r: Option<usize>)
        ensures
            r == if self.phase() == RunnerPhase::Running && self.pos_spec()
                < self.targets().len() {
                Some(self.pos_spec() as usize)
            } else {
                None::<usize>
            },
    {
        if matches!(self.phase, RunnerPhase::Running) && self.pos < self.selected.len() {
            Some(self.pos)
        } else {
            None
        }
    }

    /// Are all targets dealt with, with only the resume left?
    pub fn needs_resume(&self) -> (r: bool)
        ensures
            r == (self.phase() == RunnerPhase::AwaitResume),
    {
        matches!(self.phase, RunnerPhase::AwaitResume)
    }

    /// The guard to resume with, while one is held.
    pub fn guard_ref(&self) -> (r: &Option<BridgeGuard>)
        ensures
            r is Some == self.has_guard(),
    {
        &self.guard
    }

    /// Announces the next target and hands out its index: the caller
    /// runs it and reports back.
    pub fn begin_target(&mut self, events: &mut Vec<OperationEvent>) -> (r: usize)
        requires
            old(self).wf(),
            old(self).phase() == RunnerPhase::Running,
            old(self).pos_spec() < old(self).targets().len(),
        ensures
            final(self).wf(),
            final(self).targets() == old(self).targets(),
            final(self).needs_serial() == old(self).needs_serial(),
            final(self).phase() == RunnerPhase::TargetInFlight,
            r == old(self).pos_spec(),
            final(self).pos_spec() == old(self).pos_spec(),
            final(self).failed_spec() == old(self).failed_spec(),
            final(self).ambiguous_spec() == old(self).ambiguous_spec(),
            final(self).has_guard() == old(self).has_guard(),
            final(self).paused() == old(self).paused(),
            final(self).spec_outcome() is None,
            final(self).log() == old(self).log().push(final(self).log().last()),
            final(events)@ == old(events)@.push(final(self).log().last()),
            ({
                let t = old(self).targets()[old(self).pos_spec()];
                final(self).log().last() matches OperationEvent::TargetStart { target_id, kind }
                    && target_id@ == t.spec_id() && kind == t.spec_kind()
            }),
    {
        let i = self.pos;
        let id = self.selected[i].id();
        let kind = self.selected[i].kind();
        let ghost gid = id;
        proof {
            lemma_push_all_counts(
                self.log@,
                OperationEvent::TargetStart { target_id: gid, kind },
            );
        }
        events.push(OperationEvent::TargetStart { target_id: id, kind });
        proof {
            self.log@ = self.log@.push(OperationEvent::TargetStart { target_id: gid, kind });
        }
        self.phase = RunnerPhase::TargetInFlight;
        i
    }

    /// Takes the current target's result: announces how it went, keeps
    /// the failure bookkeeping — the first ambiguous message wins, a
    /// single-target failure ends the run — and, once no target is
    /// left, settles the outcome and asks for the resume where a guard
    /// is held.
    pub fn on_target_result(
        &mut self,
        r: Result<(), TargetFailure>,
        events: &mut Vec<OperationEvent>,
    )
        requires
            old(self).wf(),
            old(self).phase() == RunnerPhase::TargetInFlight,
            old(self).pos_spec() < old(self).targets().len(),
        ensures
            final(self).wf(),
            final(self).targets() == old(self).targets(),
            final(self).needs_serial() == old(self).needs_serial(),
            final(self).paused() == old(self).paused(),
            final(self).has_guard() == old(self).has_guard(),
            final(self).pos_spec() == old(self).pos_spec() + 1,
            ({
                let t = old(self).targets()[old(self).pos_spec()];
                let done = final(self).log()[old(self).log().len() as int];
                &&& (done matches OperationEvent::TargetDone { target_id, ok, message } && (
                target_id@ == t.spec_id() && ok == (r is Ok) && (match r {
                    Ok(()) => message is None,
                    Err(f) => message matches Some(m) && m@ == f.message@,
                })))
                &&& final(self).failed_spec() == old(self).failed_spec() + if r is Err {
                    1int
                } else {
                    0int
                }
                &&& (match r {
                    Ok(()) => final(self).ambiguous_spec() == old(self).ambiguous_spec(),
                    Err(f) => {
                        if f.ambiguous && old(self).ambiguous_spec() is None {
                            final(self).ambiguous_spec() matches Some(m) && m@ == f.message@
                        } else {
                            final(self).ambiguous_spec() == old(self).ambiguous_spec()
                        }
                    },
                })
            }),
            ({
                let stops = (r is Err && old(self).targets().len() <= 1) || old(self).pos_spec() + 1
                    == old(self).targets().len();
                if !stops {
                    &&& final(self).phase() == RunnerPhase::Running
                    &&& final(self).spec_outcome() is None
                    &&& final(self).log() == old(self).log().push(
                        final(self).log()[old(self).log().len() as int],
                    )
                    &&& final(events)@ == old(events)@.push(
                        final(self).log()[old(self).log().len() as int],
                    )
                } else {
                    &&& (final(self).spec_outcome() matches Some(o) && outcome_settles(
                        o,
                        r,
                        old(self).pos_spec(),
                        old(self).ambiguous_spec(),
                        old(self).failed_spec(),
                        old(self).targets().len() as int,
                    ))
                    &&& (if old(self).has_guard() {
                        final(self).phase() == RunnerPhase::AwaitResume && final(self).log() == old(self).log().push(final(self).log()[old(self).log().len() as int]).push(
                            OperationEvent::BridgeResumeStart,
                        ) && final(events)@ == old(events)@.push(
                            final(self).log()[old(self).log().len() as int],
                        ).push(OperationEvent::BridgeResumeStart)
                    } else {
                        final(self).phase() == RunnerPhase::Done && final(self).log() == old(self).log().push(final(self).log()[old(self).log().len() as int]) && final(events)@ == old(events)@.push(final(self).log()[old(self).log().len() as int])
                    })
                }
            }),
    {
        let i = self.pos;
        let id = self.selected[i].id();
        let multi = self.selected.len() > 1;
        let mut fatal = false;
        match r {
            Ok(()) => {
                let ghost gid = id;
                proof {
                    lemma_push_all_counts(
                        self.log@,
                        OperationEvent::TargetDone { target_id: gid, ok: true, message: None },
                    );
                }
                events.push(OperationEvent::TargetDone { target_id: id, ok: true, message: None });
                proof {
                    self.log@ = self.log@.push(
                        OperationEvent::TargetDone { target_id: gid, ok: true, message: None },
                    );
                }
            },
            Err(f) => {
                self.failed = self.failed + 1;
                if f.ambiguous && self.ambiguous_message.is_none() {
                    self.ambiguous_message = Some(f.message.clone());
                }
                let msg2 = f.message.clone();
                let ghost gid = id;
                let ghost gmsg = msg2;
                proof {
                    lemma_push_all_counts(
                        self.log@,
                        OperationEvent::TargetDone {
                            target_id: gid,
                            ok: false,
                            message: Some(gmsg),
                        },
                    );
                }
                events.push(
                    OperationEvent::TargetDone { target_id: id, ok: false, message: Some(msg2) },
                );
                proof {
                    self.log@ = self.log@.push(
                        OperationEvent::TargetDone {
                            target_id: gid,
                            ok: false,
                            message: Some(gmsg),
                        },
                    );
                }
                if !multi {
                    fatal = true;
                    self.outcome = Some(
                        RunOutcome::Fatal { index: i, ambiguous: f.ambiguous, message: f.message },
                    );
                }
            },
        }
        self.pos = self.pos + 1;
        if fatal || self.pos == self.selected.len() {
            if !fatal {
                let o = self.settle_outcome();
                self.outcome = Some(o);
            }
            if self.guard.is_some() {
                proof {
                    lemma_push_all_counts(self.log@, OperationEvent::BridgeResumeStart);
                }
                events.push(OperationEvent::BridgeResumeStart);
                proof {
                    self.log@ = self.log@.push(OperationEvent::BridgeResumeStart);
                }
                self.resume_start_emitted = true;
                self.phase = RunnerPhase::AwaitResume;
            } else {
                self.phase = RunnerPhase::Done;
            }
        } else {
            self.phase = RunnerPhase::Running;
        }
    }

    /// The outcome of a completed loop without a fatal failure.
    fn settle_outcome(&self) -> (o: RunOutcome)
        ensures
            ({
                match self.ambiguous_spec() {
                    Some(m) => o matches RunOutcome::Ambiguous { message } && message@ == m@,
                    None => {
                        if self.failed_spec() > 0 {
                            o matches RunOutcome::MultiFailed { failed, total } && failed
                                == self.failed_spec() && total == self.targets().len()
                        } else {
                            o is Success
                        }
                    },
                }
            }),
    {
        match &self.ambiguous_message {
            Some(message) => RunOutcome::Ambiguous { message: message.clone() },
            None => {
                if self.failed > 0 {
                    RunOutcome::MultiFailed { failed: self.failed, total: self.selected.len() }
                } else {
                    RunOutcome::Success
                }
            },
        }
    }

    /// Takes the resume observation: success clears the guard's plan;
    /// failure reports the message with the guard's hint.  Neither
    /// changes the outcome.
    pub fn on_resume_result(&mut self, r: Result<(), String>, events: &mut Vec<OperationEvent>)
        requires
            old(self).wf(),
            old(self).phase() == RunnerPhase::AwaitResume,
        ensures
            final(self).wf(),
            final(self).targets() == old(self).targets(),
            final(self).needs_serial() == old(self).needs_serial(),
            final(self).paused() == old(self).paused(),
            final(self).phase() == RunnerPhase::Done,
            final(self).spec_outcome() == old(self).spec_outcome(),
            final(self).log() == old(self).log().push(final(self).log().last()),
            final(events)@ == old(events)@.push(final(self).log().last()),
            match r {
                Ok(()) => final(self).log().last() == OperationEvent::BridgeResumed,
                Err(m) => final(self).log().last() matches OperationEvent::BridgeResumeFailed {
                    error,
                } && error.message@ == "bridge resume failed: "@ + m@ && (match old(self).guard_spec() {
                    Some(g) => match crate::bridge_control::spec_resume_hint(g) {
                        Some(sh) => error.hint matches Some(h) && h@ == sh,
                        None => error.hint is None,
                    },
                    None => error.hint is None,
                }),
            },
    {
        match r {
            Ok(()) => {
                proof {
                    lemma_push_all_counts(self.log@, OperationEvent::BridgeResumed);
                }
                events.push(OperationEvent::BridgeResumed);
                proof {
                    self.log@ = self.log@.push(OperationEvent::BridgeResumed);
                }
                match &mut self.guard {
                    Some(g) => g.mark_resumed(),
                    None => (),
                }
            },
            Err(m) => {
                let hint = match &self.guard {
                    Some(g) => g.resume_hint(),
                    None => None,
                };
                let mut message = "bridge resume failed: ".to_owned();
                message.append(m.as_str());
                let error = BridgeControlErrorInfo { message, hint };
                let ghost ge = error;
                proof {
                    lemma_push_all_counts(
                        self.log@,
                        OperationEvent::BridgeResumeFailed { error: ge },
                    );
                }
                events.push(OperationEvent::BridgeResumeFailed { error });
                proof {
                    self.log@ = self.log@.push(OperationEvent::BridgeResumeFailed { error: ge });
                }
            },
        }
        self.resume_emitted = true;
        self.phase = RunnerPhase::Done;
    }

    /// The outcome, once the run is done.
    pub fn outcome(&self) -> (r: &Option<RunOutcome>)
        ensures
            r == self.spec_outcome(),
    {
        &self.outcome
    }
}

/// Does `o` settle a finished target loop correctly?  A fatal
/// single-target failure wins; then the first ambiguity; then the
/// failure count; otherwise success.
pub open spec fn outcome_settles(
    o: RunOutcome,
    last: Result<(), TargetFailure>,
    last_index: int,
    ambiguous_before: Option<String>,
    failed_before: int,
    total: int,
) -> bool {
    if last is Err && total <= 1 {
        o matches RunOutcome::Fatal { index, ambiguous, message } && index == last_index
            && ambiguous == last->Err_0.ambiguous && message == last->Err_0.message
    } else {
        match ambiguous_before {
            Some(m) => o matches RunOutcome::Ambiguous { message } && message@ == m@,
            None => {
                if last is Err && last->Err_0.ambiguous {
                    o matches RunOutcome::Ambiguous { message } && message@ == last->Err_0.message@
                } else if failed_before > 0 || last is Err {
                    o matches RunOutcome::MultiFailed { failed, total: t2 } && failed
                        == failed_before + (if last is Err {
                        1int
                    } else {
                        0int
                    }) && t2 == total
                } else {
                    o is Success
                }
            },
        }
    }
}

// ---------------------------------------------------------------------
// The bridge-safety laws.
// ---------------------------------------------------------------------

/// Bridge safety: when the pause failed, the run never started a
/// target — no target was touched.
pub proof fn lemma_pause_failed_aborts(r: &TargetRunner)
    requires
        r.wf(),
        r.spec_outcome() matches Some(RunOutcome::BridgePauseFailed { .. }),
    ensures
        count_events(r.log(), target_start_pred()) == 0,
{
}

/// Resume guarantee: a finished run that announced `BridgePaused`
/// announces `BridgeResumeStart` exactly once and then `BridgeResumed`
/// or `BridgeResumeFailed` exactly once.
pub proof fn lemma_resume_guarantee(r: &TargetRunner)
    requires
        r.wf(),
        r.phase() == RunnerPhase::Done,
    ensures
        count_events(r.log(), paused_pred()) == 1 ==> count_events(
            r.log(),
            resume_final_pred(),
        ) == 1 && count_events(r.log(), resume_start_pred()) == 1,
{
}

/// HalfKay-only selections never touch the bridge: no pause or resume
/// event appears in the run's stream.
pub proof fn lemma_halfkay_only_no_bridge_events(r: &TargetRunner)
    requires
        r.wf(),
        !seq_needs_serial(r.targets()),
    ensures
        forall|i: int| 0 <= i < r.log().len() ==> !is_bridge_event(#[trigger] r.log()[i]),
{
}

} // verus!
