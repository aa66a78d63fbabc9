//! The life of one session from launch to retirement, as far as the engine decides it.
//!
//! The caller spawns the process, reads its streams through a [`Router`], waits for it to
//! exit, and reports each of these here. What comes back is what to tell listeners and,
//! at launch, which process lost the legacy slot and has to be killed.

use crate::event::{
    flag_effect, flag_event, Channel, Effect, EffectView, Notification, NotificationView, Payload,
    PayloadView, SessionState, SessionStateView, SETTLE_MILLIS,
};
use crate::registry::{Registry, RegistryView};
use crate::router::{no_effects, push_effect, Router, RouterView};
use crate::run::{LaunchInfo, LaunchInfoView, Outcome, OutcomeView, RunId, ToolKind};
use crate::slot::{vacated, LegacySlot, Occupant, OccupantView};
use vstd::prelude::*;
use vstd::string::*;

verus! {

/// When a run enters the registry.
#[derive(Clone, Copy, Debug, PartialEq, Eq, Structural)]
pub enum Registration {
    /// As soon as the process runs, in status `Starting`.
    AtLaunch,
    /// Only when the child has announced its session id.
    OnAnnouncement,
}

/// What the caller reports of its attempt to spawn the process.
#[derive(Debug)]
pub enum SpawnReport {
    /// The process runs under the given pid; 0 where the pid is not known.
    Spawned { pid: u32 },
    /// The process could not be spawned: the executable is missing or cannot be run, or
    /// the working directory is invalid. The text says why.
    Failed { reason: String },
}

/// A session could not be started.
#[derive(Debug)]
pub struct SpawnError {
    pub tool: ToolKind,
    pub reason: String,
}

impl SpawnError {
    /// The error as a message for the user; `title` is the name the tool is shown under.
    pub fn message(&self, title: &str) -> (r: String)
        ensures
            r@ == "Failed to spawn "@ + title@ + ": "@ + self.reason@,
    {
        let mut text = String::from_str("Failed to spawn ");
        text.append(title);
        text.append(": ");
        text.append(self.reason.as_str());
        text
    }
}

/// What is known of a launch before the process is spawned.
#[derive(Debug)]
pub struct LaunchRequest {
    pub tool_kind: ToolKind,
    pub project_path: String,
    pub prompt: String,
    pub model: String,
}

/// A session that is under way.
#[derive(Debug)]
pub struct Started {
    /// The router for the streams of the new process.
    pub router: Router,
    /// The process that occupied the legacy slot before; the caller kills it.
    pub displaced: Option<Occupant>,
}

/// The launch data of a request whose process runs under `pid`.
pub open spec fn launched(
    tool_kind: ToolKind,
    project_path: Seq<char>,
    prompt: Seq<char>,
    model: Seq<char>,
    pid: u32,
) -> LaunchInfoView {
    LaunchInfoView { pid, tool_kind, project_path, initial_prompt: prompt, model }
}

/// The run id a new session works with from the start.
pub open spec fn run_id_at_launch(registration: Registration, registry: RegistryView) -> Option<
    RunId,
> {
    if registration == Registration::AtLaunch && registry.can_register() {
        Some(registry.next_run_id)
    } else {
        None
    }
}

/// The registry after a session was started.
pub open spec fn registry_at_launch(
    registration: Registration,
    registry: RegistryView,
    launch: LaunchInfoView,
) -> RegistryView {
    if registration == Registration::AtLaunch && registry.can_register() {
        registry.registered(launch)
    } else {
        registry
    }
}

/// Takes the report on a spawn attempt.
///
/// A failed spawn is an error for the caller to return at once: nothing is registered,
/// the legacy slot keeps its occupant, and nothing is emitted. A process that runs takes
/// the legacy slot, is registered where registration is at launch, and gets its router.
pub fn start_session(
    request: LaunchRequest,
    report: SpawnReport,
    registration: Registration,
    registry: &mut Registry,
    slot: &mut LegacySlot,
) -> (r: Result<Started, SpawnError>)
    requires
        old(registry).wf(),
    ensures
        final(registry).wf(),
        match report {
            SpawnReport::Failed { reason } => {
                &&& r matches Err(e) && e.tool == request.tool_kind && e.reason@ == reason@
                &&& final(registry)@ == old(registry)@
                &&& final(slot)@ == old(slot)@
            },
            SpawnReport::Spawned { pid } => {
                let launch = launched(
                    request.tool_kind,
                    request.project_path@,
                    request.prompt@,
                    request.model@,
                    pid,
                );
                let run_id = run_id_at_launch(registration, old(registry)@);
                &&& r matches Ok(started) && started.displaced.deep_view() == old(slot)@
                    && started.router@ == (RouterView { launch, run_id, session_id: None })
                &&& final(registry)@ == registry_at_launch(registration, old(registry)@, launch)
                &&& final(slot)@ == Some(OccupantView { pid, run_id, session_id: None })
            },
        },
{
    let pid = match report {
        SpawnReport::Spawned { pid } => pid,
        SpawnReport::Failed { reason } => {
            return Err(SpawnError { tool: request.tool_kind, reason });
        },
    };
    let launch = LaunchInfo {
        pid,
        tool_kind: request.tool_kind,
        project_path: request.project_path,
        initial_prompt: request.prompt,
        model: request.model,
    };
    let run_id = match registration {
        Registration::AtLaunch => match registry.register_run(launch.clone()) {
            Ok(id) => Some(id),
            Err(_) => None,
        },
        Registration::OnAnnouncement => None,
    };
    let displaced = slot.occupy(Occupant { pid, run_id, session_id: None });
    Ok(Started { router: Router::new(launch, run_id), displaced })
}

/// What the caller reports when the streams have ended and it has waited for the process.
#[derive(Debug)]
pub enum ExitReport {
    /// The process exited; the flag is its exit success.
    Exited(bool),
    /// Waiting for the process failed; the text says why.
    WaitFailed(String),
    /// The process handle was gone: a cancellation had taken it and has told listeners.
    HandleGone,
}

/// View of [`ExitReport`].
pub enum ExitReportView {
    Exited(bool),
    WaitFailed(Seq<char>),
    HandleGone,
}

impl View for ExitReport {
    type V = ExitReportView;

    open spec fn view(&self) -> ExitReportView {
        match self {
            ExitReport::Exited(success) => ExitReportView::Exited(*success),
            ExitReport::WaitFailed(error) => ExitReportView::WaitFailed(error@),
            ExitReport::HandleGone => ExitReportView::HandleGone,
        }
    }
}

impl ExitReportView {
    /// The outcome to record for the run, where the report tells one.
    pub open spec fn outcome(self) -> Option<OutcomeView> {
        match self {
            ExitReportView::Exited(success) => Some(OutcomeView::Completed(success)),
            ExitReportView::WaitFailed(error) => Some(OutcomeView::Failed(error)),
            ExitReportView::HandleGone => None,
        }
    }

    /// Whether the session counts as a success.
    pub open spec fn success(self) -> bool {
        self matches ExitReportView::Exited(true)
    }
}

/// The notification that a session has stopped.
pub open spec fn stopped_effect(
    tool: ToolKind,
    session_id: Seq<char>,
    success: bool,
    error: Option<Seq<char>>,
) -> EffectView {
    EffectView::Emit(
        NotificationView {
            tool,
            channel: Channel::SessionState,
            session: None,
            payload: PayloadView::State(
                SessionStateView {
                    session_id,
                    started: false,
                    project_path: None,
                    model: None,
                    pid: None,
                    run_id: None,
                    success: Some(success),
                    error,
                },
            ),
        },
    )
}

/// What listeners are told when a session is over: after a pause, that the session has
/// stopped and is complete, for the session where it is known, and that the tool's run is
/// complete. Nothing where a cancellation has told them already.
pub open spec fn exit_effects(router: RouterView, report: ExitReportView) -> Seq<EffectView> {
    let tool = router.launch.tool_kind;
    let success = report.success();
    let error = match report {
        ExitReportView::WaitFailed(e) => Some(e),
        _ => None,
    };
    match report {
        ExitReportView::HandleGone => Seq::empty(),
        _ => seq![EffectView::Pause { millis: SETTLE_MILLIS }] + (match router.session_id {
            Some(sid) => seq![
                stopped_effect(tool, sid, success, error),
                flag_effect(tool, Channel::Complete, Some(sid), success),
            ],
            None => Seq::empty(),
        }) + seq![flag_effect(tool, Channel::Complete, None, success)],
    }
}

/// The registry after the outcome of the router's run was recorded.
pub open spec fn registry_at_exit(
    router: RouterView,
    report: ExitReportView,
    registry: RegistryView,
) -> RegistryView {
    match (router.run_id, report.outcome()) {
        (Some(id), Some(outcome)) => registry.finished(id, outcome),
        _ => registry,
    }
}

/// Takes the report on the end of the process: records the outcome for the run, unless
/// it already carries a terminal status, and says what to tell listeners.
pub fn conclude_session(router: &Router, report: ExitReport, registry: &mut Registry) -> (effects:
    Vec<Effect>)
    requires
        old(registry).wf(),
    ensures
        final(registry).wf(),
        final(registry)@ == registry_at_exit(router@, report@, old(registry)@),
        effects.deep_view() == exit_effects(router@, report@),
{
    let tool = router.launch().tool_kind;
    let mut effects = no_effects();
    let (success, error, outcome) = match report {
        ExitReport::Exited(success) => (success, None, Outcome::Completed(success)),
        ExitReport::WaitFailed(error) => (false, Some(error.clone()), Outcome::Failed(error)),
        ExitReport::HandleGone => {
            return effects;
        },
    };
    match router.run_id() {
        Some(id) => {
            registry.finish(id, outcome);
        },
        None => {},
    }
    push_effect(&mut effects, Effect::Pause { millis: SETTLE_MILLIS });
    match router.session_id() {
        Some(sid) => {
            push_effect(
                &mut effects,
                Effect::Emit(
                    Notification {
                        tool,
                        channel: Channel::SessionState,
                        session: None,
                        payload: Payload::State(
                            SessionState {
                                session_id: sid.clone(),
                                started: false,
                                project_path: None,
                                model: None,
                                pid: None,
                                run_id: None,
                                success: Some(success),
                                error,
                            },
                        ),
                    },
                ),
            );
            push_effect(&mut effects, flag_event(tool, Channel::Complete, Some(sid.clone()), success));
        },
        None => {},
    }
    push_effect(&mut effects, flag_event(tool, Channel::Complete, None, success));
    assert(effects.deep_view() =~= exit_effects(router@, report@));
    effects
}

/// Retires a session whose end has been told: its run leaves the registry and its process
/// leaves the legacy slot, if it still occupies it.
pub fn retire_session(router: &Router, registry: &mut Registry, slot: &mut LegacySlot)
    requires
        old(registry).wf(),
    ensures
        final(registry).wf(),
        final(registry)@ == (match router@.run_id {
            Some(id) => old(registry)@.deregistered(id),
            None => old(registry)@,
        }),
        final(slot)@ == vacated(old(slot)@, router@.launch.pid),
{
    match router.run_id() {
        Some(id) => {
            registry.deregister(id);
        },
        None => {},
    }
    slot.vacate(router.launch().pid);
}

/// Every session that ends by itself is told to listeners: whatever the process reports,
/// short of a cancellation having taken its handle, the last thing listeners hear is
/// that the tool's run is complete, with the success of the exit.
pub proof fn lemma_exit_is_told(router: RouterView, report: ExitReportView)
    requires
        report != ExitReportView::HandleGone,
    ensures
        exit_effects(router, report).len() > 0,
        exit_effects(router, report).last() == flag_effect(
            router.launch.tool_kind,
            Channel::Complete,
            None,
            report.success(),
        ),
{
}

/// A retired run is gone from the registry, whatever happened before.
pub proof fn lemma_retired_run_is_gone(registry: RegistryView, id: RunId)
    ensures
        !registry.deregistered(id).runs.dom().contains(id),
        registry.deregistered(id).deregistered(id) == registry.deregistered(id),
{
    assert(registry.runs.remove(id).remove(id) =~= registry.runs.remove(id));
}

} // verus!
