//! The cancellation coordinator: "stop this session", attempted in escalating order.
//!
//! 1. By session id, through the registry: the run that carries the session id is killed
//!    through its own handle.
//! 2. By the legacy slot: whoever occupies the slot is taken out and killed, whichever
//!    session that is.
//! 3. By process group, through the operating system, with the last known pid: when
//!    no handle is left to kill through, or when killing through the handle failed.
//!
//! A process that is found to be gone already counts as stopped at every tier. Whatever
//! the tiers achieve, the coordinator ends by telling listeners that the session was
//! cancelled and is complete, so that their state converges.
//!
//! The coordinator decides; the caller kills. Each step hands the caller one request,
//! and the caller reports back how it went.

use crate::event::{
    flag_effect, flag_event, Channel, Effect, EffectView, SETTLE_MILLIS,
};
use crate::registry::{lemma_finished_wf, Registry, RegistryView, Transition};
use crate::router::{no_effects, push_effect};
use crate::run::{Outcome, OutcomeView, RunId, RunStatusView, ToolKind};
use crate::slot::{LegacySlot, OccupantView};
use vstd::prelude::*;
use vstd::string::*;

verus! {

/// The ways of stopping a process, in the order they are tried.
#[derive(Clone, Copy, Debug, PartialEq, Eq, Structural)]
pub enum Tier {
    Registry,
    LegacySlot,
    ProcessGroup,
}

/// How an attempt to kill a process went.
#[derive(Clone, Copy, Debug, PartialEq, Eq, Structural)]
pub enum KillReport {
    /// The process was running and has been signalled.
    Killed,
    /// The process had exited before; there was nothing left to kill.
    AlreadyExited,
    /// The attempt failed for another reason than the process being gone.
    Failed,
}

impl KillReport {
    /// The process is not running any more, as far as the report tells.
    pub open spec fn stopped(self) -> bool {
        self != KillReport::Failed
    }
}

/// The run that carries the session the caller named, with the pid of its process; a pid
/// of 0 stands for "unknown".
#[derive(Clone, Copy, Debug, PartialEq, Eq, Structural)]
pub struct NamedRun {
    pub run_id: RunId,
    pub pid: u32,
}

/// What the coordinator asks the caller to kill.
#[derive(Clone, Copy, Debug, PartialEq, Eq, Structural)]
pub enum KillRequest {
    /// The process of a registered run, through the handle kept for that run.
    Run { run_id: RunId, pid: u32 },
    /// The process that was taken out of the legacy slot, through its handle.
    Occupant { pid: u32 },
    /// The process group led by `pid`, through the operating system.
    Group { pid: u32 },
}

impl KillRequest {
    /// The tier a request belongs to.
    pub open spec fn tier(self) -> Tier {
        match self {
            KillRequest::Run { .. } => Tier::Registry,
            KillRequest::Occupant { .. } => Tier::LegacySlot,
            KillRequest::Group { .. } => Tier::ProcessGroup,
        }
    }
}

/// The coordinator as a mathematical value: a cancellation that waits for a kill report.
pub struct CoordinatorView {
    pub tool: ToolKind,
    /// The session the caller named, if it named one.
    pub session_id: Option<Seq<char>>,
    /// The active run that carries the named session, where there is one.
    pub named: Option<NamedRun>,
    /// The run whose process the pending request stops, where that is known.
    pub target: Option<RunId>,
    /// The request whose report is awaited.
    pub pending: KillRequest,
    /// The tiers tried before the pending one.
    pub attempted: Seq<Tier>,
}

/// What a finished cancellation hands back.
pub struct SummaryView {
    /// Some tier found the process stopped or stopped it.
    pub killed: bool,
    /// The tiers that were tried, in order.
    pub attempted: Seq<Tier>,
    /// What listeners are told.
    pub effects: Seq<EffectView>,
}

/// One step of a cancellation.
pub enum CancelStepView {
    /// The caller carries out the pending request and reports back.
    Ask(CoordinatorView),
    /// The cancellation is over.
    Done(SummaryView),
}

/// A step together with the registry and the legacy slot it leaves.
pub struct Cancelling {
    pub step: CancelStepView,
    pub registry: RegistryView,
    pub slot: Option<OccupantView>,
}

/// What listeners are told at the end of every cancellation: cancelled and complete, for
/// the session where one was named, then for the tool as a whole, each pair with a pause
/// in between.
pub open spec fn closing_effects(tool: ToolKind, session_id: Option<Seq<char>>) -> Seq<EffectView> {
    let generic = seq![
        flag_effect(tool, Channel::Cancelled, None, true),
        EffectView::Pause { millis: SETTLE_MILLIS },
        flag_effect(tool, Channel::Complete, None, false),
    ];
    match session_id {
        Some(sid) => seq![
            flag_effect(tool, Channel::Cancelled, Some(sid), true),
            EffectView::Pause { millis: SETTLE_MILLIS },
            flag_effect(tool, Channel::Complete, Some(sid), false),
        ] + generic,
        None => generic,
    }
}

/// The end of a cancellation: where a process was stopped and the run it belongs to is
/// known, that run is recorded as cancelled, unless it already carries a terminal status.
pub open spec fn concluded(
    tool: ToolKind,
    session_id: Option<Seq<char>>,
    target: Option<RunId>,
    killed: bool,
    attempted: Seq<Tier>,
    registry: RegistryView,
    slot: Option<OccupantView>,
) -> Cancelling {
    Cancelling {
        step: CancelStepView::Done(
            SummaryView { killed, attempted, effects: closing_effects(tool, session_id) },
        ),
        registry: match target {
            Some(id) => if killed {
                registry.finished(id, OutcomeView::Cancelled)
            } else {
                registry
            },
            None => registry,
        },
        slot,
    }
}

/// The run that the occupant of the legacy slot belongs to: the one the slot notes for
/// it, or else the named run where the occupant is its process.
pub open spec fn occupant_run(occupant: OccupantView, named: Option<NamedRun>) -> Option<RunId> {
    match occupant.run_id {
        Some(id) => Some(id),
        None => match named {
            Some(run) => if run.pid == occupant.pid && run.pid != 0 {
                Some(run.run_id)
            } else {
                None
            },
            None => None,
        },
    }
}

/// The third tier: the process group of the last known pid is to be killed. Without a
/// known pid there is nothing left to try.
pub open spec fn group_tier(
    tool: ToolKind,
    session_id: Option<Seq<char>>,
    named: Option<NamedRun>,
    target: Option<RunId>,
    pid: u32,
    attempted: Seq<Tier>,
    registry: RegistryView,
    slot: Option<OccupantView>,
) -> Cancelling {
    if pid != 0 {
        Cancelling {
            step: CancelStepView::Ask(
                CoordinatorView {
                    tool,
                    session_id,
                    named,
                    target,
                    pending: KillRequest::Group { pid },
                    attempted,
                },
            ),
            registry,
            slot,
        }
    } else {
        concluded(tool, session_id, target, false, attempted, registry, slot)
    }
}

/// The pid of the named run; 0 where no run is named.
pub open spec fn named_pid(named: Option<NamedRun>) -> u32 {
    match named {
        Some(run) => run.pid,
        None => 0,
    }
}

/// The id of the named run.
pub open spec fn named_id(named: Option<NamedRun>) -> Option<RunId> {
    match named {
        Some(run) => Some(run.run_id),
        None => None,
    }
}

/// The second tier: the occupant of the legacy slot is taken out to be killed through
/// its handle. With an empty slot no handle is left, and the third tier follows with the
/// pid of the named run.
pub open spec fn slot_tier(
    tool: ToolKind,
    session_id: Option<Seq<char>>,
    named: Option<NamedRun>,
    attempted: Seq<Tier>,
    registry: RegistryView,
    slot: Option<OccupantView>,
) -> Cancelling {
    match slot {
        Some(occupant) => Cancelling {
            step: CancelStepView::Ask(
                CoordinatorView {
                    tool,
                    session_id,
                    named,
                    target: occupant_run(occupant, named),
                    pending: KillRequest::Occupant { pid: occupant.pid },
                    attempted,
                },
            ),
            registry,
            slot: None,
        },
        None => group_tier(
            tool,
            session_id,
            named,
            named_id(named),
            named_pid(named),
            attempted,
            registry,
            slot,
        ),
    }
}

/// The start of a cancellation.
///
/// Where the named session has a registered run that is still active, the run is to be
/// killed. Where that run already carries a terminal status, the process is known to be
/// stopped and nothing is killed. Otherwise the legacy slot is tried.
pub open spec fn begun(
    tool: ToolKind,
    session_id: Option<Seq<char>>,
    registry: RegistryView,
    slot: Option<OccupantView>,
) -> Cancelling {
    let found = match session_id {
        Some(sid) => registry.by_session(sid),
        None => None,
    };
    match found {
        Some(record) => if record.is_active() {
            Cancelling {
                step: CancelStepView::Ask(
                    CoordinatorView {
                        tool,
                        session_id,
                        named: Some(NamedRun { run_id: record.run_id, pid: record.pid }),
                        target: Some(record.run_id),
                        pending: KillRequest::Run { run_id: record.run_id, pid: record.pid },
                        attempted: Seq::empty(),
                    },
                ),
                registry,
                slot,
            }
        } else {
            concluded(tool, session_id, Some(record.run_id), true, Seq::empty(), registry, slot)
        },
        None => slot_tier(tool, session_id, None, Seq::empty(), registry, slot),
    }
}

impl CoordinatorView {
    /// The step after the pending request was reported on.
    ///
    /// A process reported stopped ends the cancellation, and the run it belongs to is
    /// recorded as cancelled. A failed kill escalates. After the registry comes the legacy
    /// slot. After the slot's occupant comes the process group of the last known pid: the
    /// occupant's, or, where that is not known, that of the named run, which is then the
    /// run the kill is about. After the process group nothing is left.
    pub open spec fn advanced(
        self,
        report: KillReport,
        registry: RegistryView,
        slot: Option<OccupantView>,
    ) -> Cancelling {
        let attempted = self.attempted.push(self.pending.tier());
        if report.stopped() {
            concluded(self.tool, self.session_id, self.target, true, attempted, registry, slot)
        } else {
            match self.pending {
                KillRequest::Run { .. } => slot_tier(
                    self.tool,
                    self.session_id,
                    self.named,
                    attempted,
                    registry,
                    slot,
                ),
                KillRequest::Occupant { pid } => if pid != 0 {
                    group_tier(
                        self.tool,
                        self.session_id,
                        self.named,
                        self.target,
                        pid,
                        attempted,
                        registry,
                        slot,
                    )
                } else {
                    group_tier(
                        self.tool,
                        self.session_id,
                        self.named,
                        named_id(self.named),
                        named_pid(self.named),
                        attempted,
                        registry,
                        slot,
                    )
                },
                KillRequest::Group { .. } => concluded(
                    self.tool,
                    self.session_id,
                    self.target,
                    false,
                    attempted,
                    registry,
                    slot,
                ),
            }
        }
    }
}

/// A cancellation that waits for a kill report.
#[derive(Debug)]
pub struct Coordinator {
    tool: ToolKind,
    session_id: Option<String>,
    named: Option<NamedRun>,
    target: Option<RunId>,
    pending: KillRequest,
    attempted: Vec<Tier>,
}

/// What a finished cancellation hands back. A cancellation never fails.
#[derive(Debug)]
pub struct CancelSummary {
    /// Some tier found the process stopped or stopped it.
    pub killed: bool,
    /// The tiers that were tried, in order.
    pub attempted: Vec<Tier>,
    /// What listeners are to be told, in order.
    pub effects: Vec<Effect>,
}

/// One step of a cancellation.
#[derive(Debug)]
pub enum CancelStep {
    /// Carry out `coordinator.request()` and report back with [`Coordinator::advance`].
    Ask(Coordinator),
    /// The cancellation is over.
    Done(CancelSummary),
}

impl View for Coordinator {
    type V = CoordinatorView;

    closed spec fn view(&self) -> CoordinatorView {
        CoordinatorView {
            tool: self.tool,
            session_id: self.session_id.deep_view(),
            named: self.named,
            target: self.target,
            pending: self.pending,
            attempted: self.attempted@,
        }
    }
}

impl View for CancelSummary {
    type V = SummaryView;

    open spec fn view(&self) -> SummaryView {
        SummaryView {
            killed: self.killed,
            attempted: self.attempted@,
            effects: self.effects.deep_view(),
        }
    }
}

impl View for CancelStep {
    type V = CancelStepView;

    open spec fn view(&self) -> CancelStepView {
        match self {
            CancelStep::Ask(coordinator) => CancelStepView::Ask(coordinator@),
            CancelStep::Done(summary) => CancelStepView::Done(summary@),
        }
    }
}

/// Builds what listeners are told at the end of a cancellation.
pub fn closing_notifications(tool: ToolKind, session_id: &Option<String>) -> (r: Vec<Effect>)
    ensures
        r.deep_view() == closing_effects(tool, session_id.deep_view()),
{
    let mut effects = no_effects();
    match session_id {
        Some(sid) => {
            push_effect(&mut effects, flag_event(tool, Channel::Cancelled, Some(sid.clone()), true));
            push_effect(&mut effects, Effect::Pause { millis: SETTLE_MILLIS });
            push_effect(&mut effects, flag_event(tool, Channel::Complete, Some(sid.clone()), false));
        },
        None => {},
    }
    push_effect(&mut effects, flag_event(tool, Channel::Cancelled, None, true));
    push_effect(&mut effects, Effect::Pause { millis: SETTLE_MILLIS });
    push_effect(&mut effects, flag_event(tool, Channel::Complete, None, false));
    assert(effects.deep_view() =~= closing_effects(tool, session_id.deep_view()));
    effects
}

fn conclude(
    tool: ToolKind,
    session_id: Option<String>,
    target: Option<RunId>,
    killed: bool,
    attempted: Vec<Tier>,
    registry: &mut Registry,
) -> (step: CancelStep)
    requires
        old(registry).wf(),
    ensures
        final(registry).wf(),
        step@ == concluded(
            tool,
            session_id.deep_view(),
            target,
            killed,
            attempted@,
            old(registry)@,
            None,
        ).step,
        final(registry)@ == concluded(
            tool,
            session_id.deep_view(),
            target,
            killed,
            attempted@,
            old(registry)@,
            None,
        ).registry,
{
    match target {
        Some(id) => {
            if killed {
                registry.finish(id, Outcome::Cancelled);
            }
        },
        None => {},
    }
    let effects = closing_notifications(tool, &session_id);
    CancelStep::Done(CancelSummary { killed, attempted, effects })
}

fn try_group(
    tool: ToolKind,
    session_id: Option<String>,
    named: Option<NamedRun>,
    target: Option<RunId>,
    pid: u32,
    attempted: Vec<Tier>,
    registry: &mut Registry,
) -> (step: CancelStep)
    requires
        old(registry).wf(),
    ensures
        final(registry).wf(),
        step@ == group_tier(
            tool,
            session_id.deep_view(),
            named,
            target,
            pid,
            attempted@,
            old(registry)@,
            None,
        ).step,
        final(registry)@ == group_tier(
            tool,
            session_id.deep_view(),
            named,
            target,
            pid,
            attempted@,
            old(registry)@,
            None,
        ).registry,
{
    if pid != 0 {
        CancelStep::Ask(
            Coordinator {
                tool,
                session_id,
                named,
                target,
                pending: KillRequest::Group { pid },
                attempted,
            },
        )
    } else {
        conclude(tool, session_id, target, false, attempted, registry)
    }
}

fn pid_of(named: Option<NamedRun>) -> (r: u32)
    ensures
        r == named_pid(named),
{
    match named {
        Some(run) => run.pid,
        None => 0,
    }
}

fn id_of(named: Option<NamedRun>) -> (r: Option<RunId>)
    ensures
        r == named_id(named),
{
    match named {
        Some(run) => Some(run.run_id),
        None => None,
    }
}

fn try_slot(
    tool: ToolKind,
    session_id: Option<String>,
    named: Option<NamedRun>,
    attempted: Vec<Tier>,
    registry: &mut Registry,
    slot: &mut LegacySlot,
) -> (step: CancelStep)
    requires
        old(registry).wf(),
    ensures
        final(registry).wf(),
        step@ == slot_tier(
            tool,
            session_id.deep_view(),
            named,
            attempted@,
            old(registry)@,
            old(slot)@,
        ).step,
        final(registry)@ == slot_tier(
            tool,
            session_id.deep_view(),
            named,
            attempted@,
            old(registry)@,
            old(slot)@,
        ).registry,
        final(slot)@ == slot_tier(
            tool,
            session_id.deep_view(),
            named,
            attempted@,
            old(registry)@,
            old(slot)@,
        ).slot,
{
    match slot.take() {
        Some(occupant) => {
            let target = match occupant.run_id {
                Some(id) => Some(id),
                None => match named {
                    Some(run) => if run.pid == occupant.pid && run.pid != 0 {
                        Some(run.run_id)
                    } else {
                        None
                    },
                    None => None,
                },
            };
            CancelStep::Ask(
                Coordinator {
                    tool,
                    session_id,
                    named,
                    target,
                    pending: KillRequest::Occupant { pid: occupant.pid },
                    attempted,
                },
            )
        },
        None => try_group(
            tool,
            session_id,
            named,
            id_of(named),
            pid_of(named),
            attempted,
            registry,
        ),
    }
}

impl Coordinator {
    /// Starts cancelling. `session_id` is the session the caller wants stopped, if it
    /// knows one.
    pub fn begin(
        tool: ToolKind,
        session_id: Option<String>,
        registry: &mut Registry,
        slot: &mut LegacySlot,
    ) -> (step: CancelStep)
        requires
            old(registry).wf(),
        ensures
            final(registry).wf(),
            step@ == begun(tool, session_id.deep_view(), old(registry)@, old(slot)@).step,
            final(registry)@ == begun(
                tool,
                session_id.deep_view(),
                old(registry)@,
                old(slot)@,
            ).registry,
            final(slot)@ == begun(tool, session_id.deep_view(), old(registry)@, old(slot)@).slot,
    {
        let found = match &session_id {
            Some(sid) => match registry.lookup_by_session(sid.as_str()) {
                Some(record) => Some((record.run_id, record.pid, record.status.is_terminal())),
                None => None,
            },
            None => None,
        };
        match found {
            Some((run_id, pid, terminal)) => {
                if terminal {
                    conclude(tool, session_id, Some(run_id), true, Vec::new(), registry)
                } else {
                    CancelStep::Ask(
                        Coordinator {
                            tool,
                            session_id,
                            named: Some(NamedRun { run_id, pid }),
                            target: Some(run_id),
                            pending: KillRequest::Run { run_id, pid },
                            attempted: Vec::new(),
                        },
                    )
                }
            },
            None => try_slot(tool, session_id, None, Vec::new(), registry, slot),
        }
    }

    /// The request the caller is to carry out now.
    pub fn request(&self) -> (r: KillRequest)
        ensures
            r == self@.pending,
    {
        self.pending
    }

    /// Takes the report on the pending request and decides what follows.
    pub fn advance(self, report: KillReport, registry: &mut Registry, slot: &mut LegacySlot) -> (step:
        CancelStep)
        requires
            old(registry).wf(),
        ensures
            final(registry).wf(),
            step@ == self@.advanced(report, old(registry)@, old(slot)@).step,
            final(registry)@ == self@.advanced(report, old(registry)@, old(slot)@).registry,
            final(slot)@ == self@.advanced(report, old(registry)@, old(slot)@).slot,
    {
        let Coordinator { tool, session_id, named, target, pending, attempted } = self;
        let mut attempted = attempted;
        let tier = match pending {
            KillRequest::Run { .. } => Tier::Registry,
            KillRequest::Occupant { .. } => Tier::LegacySlot,
            KillRequest::Group { .. } => Tier::ProcessGroup,
        };
        attempted.push(tier);
        let stopped = match report {
            KillReport::Failed => false,
            _ => true,
        };
        if stopped {
            return conclude(tool, session_id, target, true, attempted, registry);
        }
        match pending {
            KillRequest::Run { .. } => try_slot(tool, session_id, named, attempted, registry, slot),
            KillRequest::Occupant { pid } => {
                if pid != 0 {
                    try_group(tool, session_id, named, target, pid, attempted, registry)
                } else {
                    try_group(
                        tool,
                        session_id,
                        named,
                        id_of(named),
                        pid_of(named),
                        attempted,
                        registry,
                    )
                }
            },
            KillRequest::Group { .. } => conclude(
                tool,
                session_id,
                target,
                false,
                attempted,
                registry,
            ),
        }
    }
}

/// Cancel of an unknown session. When no registered run carries the named session id and
/// the legacy slot is empty, nothing is killed, the registry stays as it is, and
/// listeners are still told, on the session's events and on the generic ones, that the
/// session was cancelled and is complete without success.
pub proof fn lemma_cancel_unknown_session(
    tool: ToolKind,
    session_id: Seq<char>,
    registry: RegistryView,
)
    requires
        !registry.session_known(session_id),
    ensures
        begun(tool, Some(session_id), registry, None).registry == registry,
        begun(tool, Some(session_id), registry, None).step == CancelStepView::Done(
            SummaryView {
                killed: false,
                attempted: Seq::empty(),
                effects: closing_effects(tool, Some(session_id)),
            },
        ),
        closing_effects(tool, Some(session_id)).contains(
            flag_effect(tool, Channel::Cancelled, None, true),
        ),
        closing_effects(tool, Some(session_id)).contains(
            flag_effect(tool, Channel::Complete, None, false),
        ),
{
    let effects = closing_effects(tool, Some(session_id));
    assert(effects[3] == flag_effect(tool, Channel::Cancelled, None, true));
    assert(effects[5] == flag_effect(tool, Channel::Complete, None, false));
}

/// Every way a cancellation can end tells listeners the same, whatever was killed.
pub proof fn lemma_cancel_always_notifies(
    c: CoordinatorView,
    report: KillReport,
    registry: RegistryView,
    slot: Option<OccupantView>,
)
    ensures
        c.advanced(report, registry, slot).step matches CancelStepView::Done(summary)
            ==> summary.effects == closing_effects(c.tool, c.session_id),
        begun(c.tool, c.session_id, registry, slot).step matches CancelStepView::Done(summary)
            ==> summary.effects == closing_effects(c.tool, c.session_id),
{
}

/// The last resort. When killing the named run through the registry has failed and the
/// legacy slot is empty, so that no handle is left, the process group of the run's pid is
/// to be killed next, where that pid is known; the cancellation does not end before.
pub proof fn lemma_last_resort(
    c: CoordinatorView,
    registry: RegistryView,
    run_id: RunId,
    pid: u32,
)
    requires
        c.named == Some(NamedRun { run_id, pid }),
        c.pending == (KillRequest::Run { run_id, pid }),
        pid != 0,
    ensures
        c.advanced(KillReport::Failed, registry, None).registry == registry,
        c.advanced(KillReport::Failed, registry, None).step == CancelStepView::Ask(
            CoordinatorView {
                target: Some(run_id),
                pending: KillRequest::Group { pid },
                attempted: c.attempted.push(Tier::Registry),
                ..c
            },
        ),
{
}

/// A cancellation records an outcome only for the run whose process it stopped: when the
/// occupant of the legacy slot belongs to another run than the named one, stopping the
/// occupant leaves the record of the named run as it was.
pub proof fn lemma_outcome_goes_to_the_stopped_run(
    c: CoordinatorView,
    report: KillReport,
    registry: RegistryView,
    occupant: OccupantView,
    named: NamedRun,
    other: RunId,
)
    requires
        c.named == Some(named),
        c.pending is Run,
        occupant.run_id == Some(other),
        other != named.run_id,
        registry.runs.dom().contains(named.run_id),
        report.stopped(),
    ensures
        ({
            let at_slot = c.advanced(KillReport::Failed, registry, Some(occupant));
            &&& at_slot.step matches CancelStepView::Ask(next) && next.target == Some(other)
                && next.pending == (KillRequest::Occupant { pid: occupant.pid }) && ({
                let end = next.advanced(report, at_slot.registry, at_slot.slot);
                &&& end.registry == registry.finished(other, OutcomeView::Cancelled)
                &&& end.registry.runs.dom().contains(named.run_id)
                &&& end.registry.runs[named.run_id] == registry.runs[named.run_id]
            })
        }),
{
}

/// Idempotent cancel. Once a cancellation has stopped the run of a session, the run is
/// recorded as cancelled; cancelling the same session again, while the run is still
/// registered, kills nothing, leaves that record as it is, and tells listeners the same.
pub proof fn lemma_cancel_twice(
    c: CoordinatorView,
    report: KillReport,
    registry: RegistryView,
    slot: Option<OccupantView>,
    session_id: Seq<char>,
    run_id: RunId,
)
    requires
        registry.wf(),
        registry.holds(run_id, session_id),
        registry.runs[run_id].is_active(),
        c.session_id == Some(session_id),
        c.target == Some(run_id),
        c.pending == (KillRequest::Run { run_id, pid: registry.runs[run_id].pid }),
        report.stopped(),
    ensures
        ({
            let first = c.advanced(report, registry, slot);
            let second = begun(c.tool, Some(session_id), first.registry, first.slot);
            &&& first.registry.runs[run_id].status == RunStatusView::Cancelled
            &&& second.registry == first.registry
            &&& second.slot == first.slot
            &&& first.step matches CancelStepView::Done(a) && second.step
                matches CancelStepView::Done(b) && a.effects == b.effects && a.killed && b.killed
        }),
{
    let first = c.advanced(report, registry, slot);
    lemma_finished_wf(registry, run_id, OutcomeView::Cancelled);
    assert(first.registry.holds(run_id, session_id));
    let owner = choose|id: RunId| first.registry.holds(id, session_id);
    assert(first.registry.holds(owner, session_id));
    assert(owner == run_id);
    assert(!first.registry.runs[run_id].is_active());
    assert(first.registry.finished(run_id, OutcomeView::Cancelled) == first.registry);
}

/// The first outcome stays. Whatever is reported for a run after it has taken a terminal
/// status changes nothing: two reports never leave two different terminal outcomes.
pub proof fn lemma_outcome_is_final(
    registry: RegistryView,
    run_id: RunId,
    first: OutcomeView,
    second: OutcomeView,
)
    ensures
        registry.finished(run_id, first).finished(run_id, second) == registry.finished(
            run_id,
            first,
        ),
        registry.finished(run_id, first).transition(run_id) != Transition::Applied,
{
}

} // verus!
