use session_supervisor::cancel::{CancelStep, Coordinator, KillReport, KillRequest, Tier};
use session_supervisor::envelope::decode;
use session_supervisor::event::{Channel, Effect, Notification, Payload};
use session_supervisor::feeder::{is_slash_command, plan_input, select_route, InputRoute};
use session_supervisor::registry::{Registry, RegistryError, Transition};
use session_supervisor::router::Router;
use session_supervisor::run::{LaunchInfo, Outcome, RunStatus, ToolKind};
use session_supervisor::session::{
    conclude_session, retire_session, start_session, ExitReport, LaunchRequest, Registration,
    SpawnReport,
};
use session_supervisor::slot::{LegacySlot, Occupant};

const INIT_ABC: &str = r#"{"type":"system","subtype":"init","session_id":"abc123"}"#;
const INIT_OTHER: &str = r#"{"type":"system","subtype":"init","session_id":"zzz999"}"#;
const USAGE: &str = r#"{"usage":{"input_tokens":10,"output_tokens":5}}"#;

fn launch(pid: u32, kind: ToolKind) -> LaunchInfo {
    LaunchInfo {
        pid,
        tool_kind: kind,
        project_path: "/work/project".to_string(),
        initial_prompt: "hello".to_string(),
        model: "sonnet".to_string(),
    }
}

fn request(kind: ToolKind) -> LaunchRequest {
    LaunchRequest {
        tool_kind: kind,
        project_path: "/work/project".to_string(),
        prompt: "hello".to_string(),
        model: "sonnet".to_string(),
    }
}

fn emitted(effects: &[Effect]) -> Vec<&Notification> {
    effects
        .iter()
        .filter_map(|e| match e {
            Effect::Emit(n) => Some(n),
            _ => None,
        })
        .collect()
}

fn names(effects: &[Effect], label: &str) -> Vec<String> {
    emitted(effects).iter().map(|n| n.name(label)).collect()
}

fn started_count(effects: &[Effect]) -> usize {
    emitted(effects)
        .iter()
        .filter(|n| match &n.payload {
            Payload::State(s) => n.channel == Channel::SessionState && s.started,
            _ => false,
        })
        .count()
}

fn generic_output_lines(effects: &[Effect]) -> Vec<String> {
    emitted(effects)
        .iter()
        .filter_map(|n| match &n.payload {
            Payload::Line(line) if n.channel == Channel::Output && n.session.is_none() => {
                Some(line.clone())
            }
            _ => None,
        })
        .collect()
}

#[test]
fn first_init_line_wins() {
    let mut registry = Registry::new();
    let mut slot = LegacySlot::new();
    let run_id = registry.register_run(launch(41, ToolKind::Codex)).unwrap();
    let mut router = Router::new(launch(41, ToolKind::Codex), Some(run_id));
    let mut all = Vec::new();
    for line in ["not json", INIT_ABC, INIT_OTHER, INIT_ABC, "{}"] {
        all.extend(router.route_stdout_line(&mut registry, &mut slot, line));
    }
    assert_eq!(router.session_id().map(|s| s.as_str()), Some("abc123"));
    assert_eq!(started_count(&all), 1);
    let record = registry.get(run_id).unwrap();
    assert_eq!(record.session_id.as_deref(), Some("abc123"));
    assert!(matches!(record.status, RunStatus::Running));
    assert!(registry.lookup_by_session("zzz999").is_none());
}

#[test]
fn promotion_is_idempotent_and_first_wins() {
    let mut registry = Registry::new();
    let id = registry.register_run(launch(1, ToolKind::Claude)).unwrap();
    assert_eq!(id, 1);
    assert_eq!(registry.promote_to_session(id, "s-1"), Ok(()));
    assert_eq!(registry.promote_to_session(id, "s-1"), Ok(()));
    assert_eq!(registry.promote_to_session(id, "s-2"), Err(RegistryError::AlreadyPromoted));
    assert_eq!(registry.get(id).unwrap().session_id.as_deref(), Some("s-1"));
    assert_eq!(registry.promote_to_session(77, "s-3"), Err(RegistryError::UnknownRun));
    let second = registry.register_run(launch(2, ToolKind::Claude)).unwrap();
    assert_eq!(second, 2);
    assert_eq!(registry.promote_to_session(second, "s-1"), Err(RegistryError::SessionInUse));
    assert_eq!(registry.finish(second, Outcome::Cancelled), Transition::Applied);
    assert_eq!(registry.promote_to_session(second, "s-9"), Err(RegistryError::NotActive));
}

#[test]
fn cancel_twice_gives_one_outcome() {
    let mut registry = Registry::new();
    let mut slot = LegacySlot::new();
    let id = registry.register_run(launch(50, ToolKind::Gemini)).unwrap();
    registry.promote_to_session(id, "sess").unwrap();

    let first = Coordinator::begin(ToolKind::Gemini, Some("sess".to_string()), &mut registry, &mut slot);
    let coordinator = match first {
        CancelStep::Ask(c) => c,
        CancelStep::Done(_) => panic!("an active run has to be killed"),
    };
    assert_eq!(coordinator.request(), KillRequest::Run { run_id: id, pid: 50 });
    let done = match coordinator.advance(KillReport::Killed, &mut registry, &mut slot) {
        CancelStep::Done(summary) => summary,
        CancelStep::Ask(_) => panic!("a stopped process ends the cancellation"),
    };
    assert!(done.killed);
    assert_eq!(done.attempted, vec![Tier::Registry]);
    assert!(matches!(registry.get(id).unwrap().status, RunStatus::Cancelled));

    let again = match Coordinator::begin(ToolKind::Gemini, Some("sess".to_string()), &mut registry, &mut slot) {
        CancelStep::Done(summary) => summary,
        CancelStep::Ask(_) => panic!("a terminal run is not killed again"),
    };
    assert!(again.killed);
    assert!(again.attempted.is_empty());
    assert!(matches!(registry.get(id).unwrap().status, RunStatus::Cancelled));
    assert_eq!(names(&done.effects, "gemini"), names(&again.effects, "gemini"));
    assert_eq!(
        names(&again.effects, "gemini"),
        vec!["gemini-cancelled:sess", "gemini-complete:sess", "gemini-cancelled", "gemini-complete"]
    );
    assert_eq!(registry.finish(id, Outcome::Completed(true)), Transition::AlreadyTerminal);
    assert!(matches!(registry.get(id).unwrap().status, RunStatus::Cancelled));
}

#[test]
fn cancel_of_unknown_session_still_notifies() {
    let mut registry = Registry::new();
    let mut slot = LegacySlot::new();
    let step = Coordinator::begin(ToolKind::Codex, Some("ghost".to_string()), &mut registry, &mut slot);
    let summary = match step {
        CancelStep::Done(summary) => summary,
        CancelStep::Ask(_) => panic!("nothing to kill"),
    };
    assert!(!summary.killed);
    assert!(summary.attempted.is_empty());
    assert_eq!(summary.effects.len(), 6);
    let events = emitted(&summary.effects);
    assert_eq!(events.len(), 4);
    assert_eq!(events[0].name("codex"), "codex-cancelled:ghost");
    assert!(matches!(events[0].payload, Payload::Flag(true)));
    assert_eq!(events[1].name("codex"), "codex-complete:ghost");
    assert!(matches!(events[1].payload, Payload::Flag(false)));
    assert_eq!(events[2].name("codex"), "codex-cancelled");
    assert!(matches!(events[2].payload, Payload::Flag(true)));
    assert_eq!(events[3].name("codex"), "codex-complete");
    assert!(matches!(events[3].payload, Payload::Flag(false)));
    assert!(matches!(summary.effects[1], Effect::Pause { millis: 100 }));
    assert!(matches!(summary.effects[4], Effect::Pause { millis: 100 }));
    assert_eq!(registry.len(), 0);
}

#[test]
fn cancel_without_session_uses_the_slot_and_escalates() {
    let mut registry = Registry::new();
    let mut slot = LegacySlot::new();
    slot.occupy(Occupant { pid: 900, run_id: None, session_id: None });
    let step = Coordinator::begin(ToolKind::Codex, None, &mut registry, &mut slot);
    let coordinator = match step {
        CancelStep::Ask(c) => c,
        CancelStep::Done(_) => panic!("the occupant has to be killed"),
    };
    assert!(!slot.is_occupied());
    assert_eq!(coordinator.request(), KillRequest::Occupant { pid: 900 });
    let coordinator = match coordinator.advance(KillReport::Failed, &mut registry, &mut slot) {
        CancelStep::Ask(c) => c,
        CancelStep::Done(_) => panic!("a failed kill escalates to the process group"),
    };
    assert_eq!(coordinator.request(), KillRequest::Group { pid: 900 });
    let summary = match coordinator.advance(KillReport::AlreadyExited, &mut registry, &mut slot) {
        CancelStep::Done(summary) => summary,
        CancelStep::Ask(_) => panic!("no tier is left"),
    };
    assert!(summary.killed);
    assert_eq!(summary.attempted, vec![Tier::LegacySlot, Tier::ProcessGroup]);
    assert_eq!(names(&summary.effects, "codex"), vec!["codex-cancelled", "codex-complete"]);
}

#[test]
fn failed_registry_kill_falls_back_to_the_slot() {
    let mut registry = Registry::new();
    let mut slot = LegacySlot::new();
    let id = registry.register_run(launch(7, ToolKind::Codex)).unwrap();
    registry.promote_to_session(id, "s").unwrap();
    slot.occupy(Occupant { pid: 0, run_id: Some(id), session_id: Some("s".to_string()) });
    let coordinator = match Coordinator::begin(ToolKind::Codex, Some("s".to_string()), &mut registry, &mut slot) {
        CancelStep::Ask(c) => c,
        CancelStep::Done(_) => panic!("an active run has to be killed"),
    };
    let coordinator = match coordinator.advance(KillReport::Failed, &mut registry, &mut slot) {
        CancelStep::Ask(c) => c,
        CancelStep::Done(_) => panic!("the slot is the next tier"),
    };
    assert_eq!(coordinator.request(), KillRequest::Occupant { pid: 0 });
    let coordinator = match coordinator.advance(KillReport::Failed, &mut registry, &mut slot) {
        CancelStep::Ask(c) => c,
        CancelStep::Done(_) => panic!("the pid of the named run is still to be tried"),
    };
    assert_eq!(coordinator.request(), KillRequest::Group { pid: 7 });
    let summary = match coordinator.advance(KillReport::Failed, &mut registry, &mut slot) {
        CancelStep::Done(summary) => summary,
        CancelStep::Ask(_) => panic!("no tier is left"),
    };
    assert!(!summary.killed);
    assert_eq!(summary.attempted, vec![Tier::Registry, Tier::LegacySlot, Tier::ProcessGroup]);
    assert!(matches!(registry.get(id).unwrap().status, RunStatus::Running));
    assert_eq!(emitted(&summary.effects).len(), 4);
}

#[test]
fn failed_registry_kill_with_an_empty_slot_goes_for_the_process_group() {
    let mut registry = Registry::new();
    let mut slot = LegacySlot::new();
    let id = registry.register_run(launch(4711, ToolKind::Codex)).unwrap();
    registry.promote_to_session(id, "s").unwrap();
    let coordinator = match Coordinator::begin(ToolKind::Codex, Some("s".to_string()), &mut registry, &mut slot) {
        CancelStep::Ask(c) => c,
        CancelStep::Done(_) => panic!("an active run has to be killed"),
    };
    assert_eq!(coordinator.request(), KillRequest::Run { run_id: id, pid: 4711 });
    let coordinator = match coordinator.advance(KillReport::Failed, &mut registry, &mut slot) {
        CancelStep::Ask(c) => c,
        CancelStep::Done(_) => panic!("the process group is the last resort"),
    };
    assert_eq!(coordinator.request(), KillRequest::Group { pid: 4711 });
    let summary = match coordinator.advance(KillReport::Killed, &mut registry, &mut slot) {
        CancelStep::Done(summary) => summary,
        CancelStep::Ask(_) => panic!("a stopped process ends the cancellation"),
    };
    assert!(summary.killed);
    assert_eq!(summary.attempted, vec![Tier::Registry, Tier::ProcessGroup]);
    assert!(matches!(registry.get(id).unwrap().status, RunStatus::Cancelled));
    assert_eq!(
        names(&summary.effects, "codex"),
        vec!["codex-cancelled:s", "codex-complete:s", "codex-cancelled", "codex-complete"]
    );
}

#[test]
fn failed_registry_kill_without_a_pid_ends_the_cancellation() {
    let mut registry = Registry::new();
    let mut slot = LegacySlot::new();
    let id = registry.register_run(launch(0, ToolKind::Codex)).unwrap();
    registry.promote_to_session(id, "s").unwrap();
    let coordinator = match Coordinator::begin(ToolKind::Codex, Some("s".to_string()), &mut registry, &mut slot) {
        CancelStep::Ask(c) => c,
        CancelStep::Done(_) => panic!("an active run has to be killed"),
    };
    let summary = match coordinator.advance(KillReport::Failed, &mut registry, &mut slot) {
        CancelStep::Done(summary) => summary,
        CancelStep::Ask(_) => panic!("without a pid there is no process group to kill"),
    };
    assert!(!summary.killed);
    assert_eq!(summary.attempted, vec![Tier::Registry]);
    assert!(matches!(registry.get(id).unwrap().status, RunStatus::Running));
}

#[test]
fn stopping_another_runs_process_does_not_cancel_the_named_run() {
    let mut registry = Registry::new();
    let mut slot = LegacySlot::new();
    let named = registry.register_run(launch(10, ToolKind::Codex)).unwrap();
    let other = registry.register_run(launch(20, ToolKind::Codex)).unwrap();
    registry.promote_to_session(named, "a").unwrap();
    registry.promote_to_session(other, "b").unwrap();
    slot.occupy(Occupant { pid: 20, run_id: Some(other), session_id: Some("b".to_string()) });
    let coordinator = match Coordinator::begin(ToolKind::Codex, Some("a".to_string()), &mut registry, &mut slot) {
        CancelStep::Ask(c) => c,
        CancelStep::Done(_) => panic!("an active run has to be killed"),
    };
    let coordinator = match coordinator.advance(KillReport::Failed, &mut registry, &mut slot) {
        CancelStep::Ask(c) => c,
        CancelStep::Done(_) => panic!("the slot is the next tier"),
    };
    assert_eq!(coordinator.request(), KillRequest::Occupant { pid: 20 });
    let summary = match coordinator.advance(KillReport::Killed, &mut registry, &mut slot) {
        CancelStep::Done(summary) => summary,
        CancelStep::Ask(_) => panic!("a stopped process ends the cancellation"),
    };
    assert!(summary.killed);
    assert!(matches!(registry.get(named).unwrap().status, RunStatus::Running));
    assert!(matches!(registry.get(other).unwrap().status, RunStatus::Cancelled));
    let again = Coordinator::begin(ToolKind::Codex, Some("a".to_string()), &mut registry, &mut slot);
    assert!(matches!(again, CancelStep::Ask(_)));
}

#[test]
fn an_occupant_without_a_run_counts_for_the_named_run_by_its_pid() {
    let mut registry = Registry::new();
    let mut slot = LegacySlot::new();
    let named = registry.register_run(launch(10, ToolKind::Codex)).unwrap();
    registry.promote_to_session(named, "a").unwrap();
    slot.occupy(Occupant { pid: 10, run_id: None, session_id: None });
    let coordinator = match Coordinator::begin(ToolKind::Codex, Some("a".to_string()), &mut registry, &mut slot) {
        CancelStep::Ask(c) => c,
        CancelStep::Done(_) => panic!("an active run has to be killed"),
    };
    let coordinator = match coordinator.advance(KillReport::Failed, &mut registry, &mut slot) {
        CancelStep::Ask(c) => c,
        CancelStep::Done(_) => panic!("the slot is the next tier"),
    };
    let summary = match coordinator.advance(KillReport::AlreadyExited, &mut registry, &mut slot) {
        CancelStep::Done(summary) => summary,
        CancelStep::Ask(_) => panic!("a stopped process ends the cancellation"),
    };
    assert!(summary.killed);
    assert!(matches!(registry.get(named).unwrap().status, RunStatus::Cancelled));
}

#[test]
fn slash_commands_travel_as_arguments() {
    assert!(is_slash_command("/clear"));
    assert_eq!(select_route("/clear"), InputRoute::Argument);
    let long = "x".repeat(10_000);
    assert!(!is_slash_command(&long));
    assert_eq!(select_route(&long), InputRoute::Stdin);
    assert!(!is_slash_command("/help\nbody"));
    assert_eq!(select_route("/help\nbody"), InputRoute::Stdin);
    assert!(is_slash_command("  /compact \n"));
    assert!(!is_slash_command(""));
    assert!(!is_slash_command("   "));
    assert!(!is_slash_command("hello /clear"));
}

#[test]
fn slash_command_limit_counts_bytes() {
    let just_fits = format!("/{}", "a".repeat(254));
    assert_eq!(just_fits.len(), 255);
    assert!(is_slash_command(&just_fits));
    let too_long = format!("/{}", "a".repeat(255));
    assert!(!is_slash_command(&too_long));
    let wide = format!("/{}", "é".repeat(128));
    assert_eq!(wide.chars().count(), 129);
    assert!(!is_slash_command(&wide));
    let padded = format!("   /{}   ", "a".repeat(254));
    assert!(is_slash_command(&padded));
}

#[test]
fn input_plan_appends_the_command_or_pipes_the_prompt() {
    let base = vec!["--output-format".to_string(), "stream-json".to_string()];
    let plan = plan_input(base.clone(), " /clear ");
    assert_eq!(plan.args, vec!["--output-format", "stream-json", "-p", " /clear "]);
    assert_eq!(plan.stdin, None);
    let plan = plan_input(base.clone(), "explain this");
    assert_eq!(plan.args, base);
    assert_eq!(plan.stdin.as_deref(), Some("explain this"));
}

#[test]
fn output_order_is_kept() {
    let mut registry = Registry::new();
    let mut slot = LegacySlot::new();
    let run_id = registry.register_run(launch(5, ToolKind::Codex)).unwrap();
    let mut router = Router::new(launch(5, ToolKind::Codex), Some(run_id));
    let lines = ["L1", INIT_ABC, "L2", "L3"];
    let mut all = Vec::new();
    for line in lines {
        all.extend(router.route_stdout_line(&mut registry, &mut slot, line));
    }
    assert_eq!(generic_output_lines(&all), lines);
    assert_eq!(registry.get(run_id).unwrap().live_output, lines);
    assert_eq!(registry.get_live_output(run_id), format!("L1\n{}\nL2\nL3\n", INIT_ABC));
    let scoped: Vec<String> = emitted(&all)
        .iter()
        .filter(|n| n.channel == Channel::Output && n.session.is_some())
        .map(|n| match &n.payload {
            Payload::Line(l) => l.clone(),
            _ => panic!("an output event carries a line"),
        })
        .collect();
    assert_eq!(scoped, vec![INIT_ABC, "L2", "L3"]);
}

#[test]
fn session_scoped_event_comes_before_the_generic_one() {
    let mut registry = Registry::new();
    let mut slot = LegacySlot::new();
    let mut router = Router::new(launch(5, ToolKind::Codex), None);
    router.route_stdout_line(&mut registry, &mut slot, INIT_ABC);
    let effects = router.route_stdout_line(&mut registry, &mut slot, "text");
    assert_eq!(names(&effects, "codex"), vec!["codex-output:abc123", "codex-output"]);
    let errors = router.route_stderr_line("oops");
    assert_eq!(names(&errors, "codex"), vec!["codex-error:abc123", "codex-error"]);
    assert_eq!(registry.get(router.run_id().unwrap()).unwrap().live_output.len(), 2);
}

#[test]
fn buffers_are_isolated() {
    let mut registry = Registry::new();
    let mut slot = LegacySlot::new();
    let a = registry.register_run(launch(1, ToolKind::Codex)).unwrap();
    let b = registry.register_run(launch(2, ToolKind::Codex)).unwrap();
    registry.append_live_output(b, "b-0");
    let mut router = Router::new(launch(1, ToolKind::Codex), Some(a));
    for line in ["a-1", INIT_ABC, USAGE, "a-2"] {
        router.route_stdout_line(&mut registry, &mut slot, line);
    }
    registry.append_live_output(a, "a-3");
    assert_eq!(registry.get(b).unwrap().live_output, vec!["b-0"]);
    assert_eq!(registry.get(b).unwrap().session_id, None);
    assert_eq!(registry.get(a).unwrap().live_output.len(), 5);
    registry.append_live_output(99, "nobody");
    assert_eq!(registry.len(), 2);
    assert_eq!(registry.get_live_output(99), "");
}

#[test]
fn whole_session_scenario() {
    let mut registry = Registry::new();
    let mut slot = LegacySlot::new();
    let started = start_session(
        request(ToolKind::Codex),
        SpawnReport::Spawned { pid: 4242 },
        Registration::OnAnnouncement,
        &mut registry,
        &mut slot,
    )
    .unwrap();
    assert!(started.displaced.is_none());
    assert_eq!(registry.len(), 0);
    let mut router = started.router;

    let effects = router.route_stdout_line(&mut registry, &mut slot, INIT_ABC);
    assert_eq!(effects.len(), 3);
    match &effects[0] {
        Effect::Emit(n) => {
            assert_eq!(n.name("codex"), "codex-session-state");
            match &n.payload {
                Payload::State(state) => {
                    assert_eq!(state.session_id, "abc123");
                    assert!(state.started);
                    assert_eq!(state.project_path.as_deref(), Some("/work/project"));
                    assert_eq!(state.model.as_deref(), Some("sonnet"));
                    assert_eq!(state.pid, Some(4242));
                    assert_eq!(state.run_id, Some(1));
                    assert_eq!(state.success, None);
                    assert_eq!(state.error, None);
                }
                _ => panic!("a session-state event carries a state"),
            }
        }
        _ => panic!("the session start is announced first"),
    }
    let run_id = router.run_id().unwrap();
    assert_eq!(registry.list_running(ToolKind::Codex).len(), 1);
    assert_eq!(registry.list_running(ToolKind::Gemini).len(), 0);

    let effects = router.route_stdout_line(&mut registry, &mut slot, USAGE);
    match &effects[0] {
        Effect::ReportUsage { session_id, total_tokens } => {
            assert_eq!(session_id, "abc123");
            assert_eq!(*total_tokens, 15);
        }
        _ => panic!("usage is reported before the line is forwarded"),
    }

    let effects = conclude_session(&router, ExitReport::Exited(true), &mut registry);
    assert_eq!(registry.list_running(ToolKind::Codex).len(), 0);
    assert!(matches!(effects[0], Effect::Pause { millis: 100 }));
    let events = emitted(&effects);
    assert_eq!(events.len(), 3);
    assert_eq!(events[0].name("codex"), "codex-session-state");
    match &events[0].payload {
        Payload::State(state) => {
            assert_eq!(state.session_id, "abc123");
            assert!(!state.started);
            assert_eq!(state.success, Some(true));
            assert_eq!(state.error, None);
        }
        _ => panic!("a session-state event carries a state"),
    }
    assert_eq!(events[1].name("codex"), "codex-complete:abc123");
    assert!(matches!(events[1].payload, Payload::Flag(true)));
    assert_eq!(events[2].name("codex"), "codex-complete");
    assert!(matches!(events[2].payload, Payload::Flag(true)));

    retire_session(&router, &mut registry, &mut slot);
    assert!(registry.get(run_id).is_none());
    assert!(registry.lookup_by_session("abc123").is_none());
    assert!(!slot.is_occupied());
}

#[test]
fn failed_spawn_registers_and_emits_nothing() {
    let mut registry = Registry::new();
    let mut slot = LegacySlot::new();
    slot.occupy(Occupant { pid: 3, run_id: None, session_id: None });
    let result = start_session(
        request(ToolKind::Gemini),
        SpawnReport::Failed { reason: "No such file or directory (os error 2)".to_string() },
        Registration::AtLaunch,
        &mut registry,
        &mut slot,
    );
    let error = result.err().unwrap();
    assert_eq!(error.tool, ToolKind::Gemini);
    assert_eq!(
        error.message("Gemini"),
        "Failed to spawn Gemini: No such file or directory (os error 2)"
    );
    assert_eq!(registry.len(), 0);
    assert_eq!(registry.next_run_id(), 1);
    assert!(slot.is_occupied());
}

#[test]
fn new_session_displaces_the_occupant() {
    let mut registry = Registry::new();
    let mut slot = LegacySlot::new();
    let first = start_session(
        request(ToolKind::Codex),
        SpawnReport::Spawned { pid: 10 },
        Registration::AtLaunch,
        &mut registry,
        &mut slot,
    )
    .unwrap();
    assert_eq!(first.router.run_id(), Some(1));
    let second = start_session(
        request(ToolKind::Codex),
        SpawnReport::Spawned { pid: 11 },
        Registration::AtLaunch,
        &mut registry,
        &mut slot,
    )
    .unwrap();
    let displaced = second.displaced.unwrap();
    assert_eq!(displaced.pid, 10);
    assert_eq!(displaced.run_id, Some(1));
    assert_eq!(second.router.run_id(), Some(2));
    assert!(!slot.vacate(10));
    assert!(slot.vacate(11));
}

#[test]
fn exit_reports_decide_the_terminal_events() {
    let mut registry = Registry::new();
    let mut slot = LegacySlot::new();
    let id = registry.register_run(launch(8, ToolKind::Codex)).unwrap();
    let mut router = Router::new(launch(8, ToolKind::Codex), Some(id));
    router.route_stdout_line(&mut registry, &mut slot, INIT_ABC);

    let effects = conclude_session(&router, ExitReport::WaitFailed("gone".to_string()), &mut registry);
    let events = emitted(&effects);
    assert_eq!(events.len(), 3);
    match &events[0].payload {
        Payload::State(state) => {
            assert_eq!(state.success, Some(false));
            assert_eq!(state.error.as_deref(), Some("gone"));
        }
        _ => panic!("a session-state event carries a state"),
    }
    assert!(matches!(events[2].payload, Payload::Flag(false)));
    match &registry.get(id).unwrap().status {
        RunStatus::Failed(reason) => assert_eq!(reason, "gone"),
        other => panic!("unexpected status {:?}", other),
    }

    let effects = conclude_session(&router, ExitReport::HandleGone, &mut registry);
    assert!(effects.is_empty());

    let anonymous = Router::new(launch(9, ToolKind::Codex), None);
    let effects = conclude_session(&anonymous, ExitReport::Exited(false), &mut registry);
    assert_eq!(names(&effects, "codex"), vec!["codex-complete"]);
}

#[test]
fn registry_hands_out_increasing_ids_and_lists_by_kind() {
    let mut registry = Registry::new();
    let a = registry.register_run(launch(1, ToolKind::Claude)).unwrap();
    let b = registry.register_run(launch(2, ToolKind::Codex)).unwrap();
    let c = registry.register_run(launch(3, ToolKind::Claude)).unwrap();
    assert_eq!((a, b, c), (1, 2, 3));
    assert_eq!(registry.finish(a, Outcome::Completed(false)), Transition::Applied);
    let running: Vec<u64> = registry.list_running(ToolKind::Claude).iter().map(|r| r.run_id).collect();
    assert_eq!(running, vec![3]);
    assert!(registry.deregister(b).is_some());
    assert!(registry.deregister(b).is_none());
    assert_eq!(registry.finish(b, Outcome::Cancelled), Transition::UnknownRun);
    let d = registry.register_run(launch(4, ToolKind::Codex)).unwrap();
    assert_eq!(d, 4);
    assert_eq!(registry.len(), 3);
}

#[test]
fn envelope_reads_only_what_is_there() {
    let init = decode(INIT_ABC).unwrap();
    assert_eq!(init.kind.as_deref(), Some("system"));
    assert_eq!(init.subtype.as_deref(), Some("init"));
    assert_eq!(init.announced_session().map(|s| s.as_str()), Some("abc123"));
    assert_eq!(init.token_total(), None);

    let usage = decode(r#"{"type":"assistant","usage":{"input_tokens":7,"output_tokens":8,"cache_read_input_tokens":3}}"#).unwrap();
    assert_eq!(usage.token_total(), Some(15));
    assert_eq!(usage.usage.unwrap().cache_read_input_tokens, Some(3));
    assert_eq!(usage.usage.unwrap().cache_creation_input_tokens, None);
    assert_eq!(usage.announced_session(), None);

    assert!(decode("plain text").is_none());
    assert!(decode("").is_none());
    let scalar = decode("42").unwrap();
    assert_eq!(scalar.kind, None);
    assert!(scalar.usage.is_none());

    let wrong_types = decode(r#"{"type":"system","subtype":"init","session_id":17}"#).unwrap();
    assert_eq!(wrong_types.announced_session(), None);
    let half = decode(r#"{"usage":{"input_tokens":1}}"#).unwrap();
    assert_eq!(half.token_total(), None);
    let negative = decode(r#"{"usage":{"input_tokens":-1,"output_tokens":2}}"#).unwrap();
    assert_eq!(negative.token_total(), None);
    let huge = decode(r#"{"usage":{"input_tokens":18446744073709551615,"output_tokens":2}}"#).unwrap();
    assert_eq!(huge.token_total(), Some(u64::MAX));
}

#[test]
fn usage_before_the_session_is_known_is_not_reported() {
    let mut registry = Registry::new();
    let mut slot = LegacySlot::new();
    let mut router = Router::new(launch(5, ToolKind::Codex), None);
    let effects = router.route_stdout_line(&mut registry, &mut slot, USAGE);
    assert_eq!(effects.len(), 1);
    assert_eq!(names(&effects, "codex"), vec!["codex-output"]);
    assert_eq!(registry.len(), 0);
}
