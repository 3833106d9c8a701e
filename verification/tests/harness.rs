//! Session workers: routing, replay, activity, and the course of a connection.
use std::collections::VecDeque;
use std::sync::mpsc::channel;

use jcode_desktop_ui::bridge::{take_update, Bridge};
use jcode_desktop_ui::events::{ApiEvent, SessionEvent, SessionInfo};
use jcode_desktop_ui::harness::{
    collect_disconnected_commands, create_failed, create_remote_session, event_session_id,
    is_already_processing_error, is_daemon_connection_closed, namespace_event, next_worker_command,
    queue_wrong_session_retry, recover_async_attachment_mismatch, recover_async_busy, remote_host,
    session_info, session_recency_ms, should_detach_on_drop, supersedes_recovery, switch_account,
    switchable, update_turn_activity, Action, Command, FailedRequest, IdleStep, Received, RemoteStage,
    Request, SendOutcome, SessionCommand, SessionOperation, Update, Worker, WorkerCommand,
    WorkerEvent, WorkerStep, Workers,
};
use jcode_desktop_ui::remote::{is_remote, namespace, SessionAddress};

fn info(id: &str) -> SessionInfo {
    SessionInfo {
        session_id: id.into(),
        working_dir: None,
        title: None,
        status: "idle".into(),
        transcript_bytes: None,
        saved: false,
        updated_at_ms: None,
        last_active_at_ms: None,
        archived: false,
        archived_at_ms: None,
        parent_session_id: None,
        agent_label: None,
        swarm_status: None,
        edit_stats: None,
    }
}

fn event(session_id: &str, event: SessionEvent) -> ApiEvent {
    ApiEvent::Session { session_id: session_id.into(), event }
}

fn status(session_id: &str, status: &str) -> ApiEvent {
    event(session_id, SessionEvent::SessionStatus { status: status.into() })
}

fn error(message: &str) -> ApiEvent {
    ApiEvent::Error { message: message.into() }
}

fn send(content: &str) -> SessionCommand {
    SessionCommand::Send { content: content.into(), images: vec![] }
}

const MISMATCH: &str = "this connection is attached to `old`, not `wanted`; attach to it first or use another connection";

#[test]
fn bounded_bridge_batches_preserve_order_and_leave_backlog_queued() {
    let (updates, receiver) = async_channel::unbounded();
    let (commands, _command_rx) = channel();
    let bridge = Bridge { commands, updates: receiver };
    for index in 0..1000 {
        updates.try_send(Update::Status(index.to_string())).unwrap();
    }
    assert!(bridge.drain_up_to(0).is_empty());
    assert_eq!(bridge.updates.len(), 1000);
    let mut received = Vec::new();
    while !bridge.updates.is_empty() {
        let batch = bridge.drain_up_to(128);
        assert!(!batch.is_empty() && batch.len() <= 128);
        received.extend(batch.into_iter().map(|update| match update {
            Update::Status(value) => value,
            _ => panic!("unexpected event"),
        }));
    }
    assert_eq!(received, (0..1000).map(|i| i.to_string()).collect::<Vec<_>>());
    assert!(bridge.drain_up_to(128).is_empty());
    drop(updates);
    assert!(bridge.drain_up_to(128).is_empty());
}

#[test]
fn commands_reach_the_other_end_of_the_bridge() {
    let (_updates, receiver) = async_channel::unbounded();
    let (commands, taken) = channel();
    let bridge = Bridge { commands, updates: receiver };
    bridge.send(Command::Watch { session_id: "s1".into() });
    bridge.send(Command::RefreshSessions);
    assert_eq!(taken.try_recv().unwrap(), Command::Watch { session_id: "s1".into() });
    assert_eq!(taken.try_recv().unwrap(), Command::RefreshSessions);
    assert!(taken.try_recv().is_err());
    drop(taken);
    bridge.send(Command::Shutdown);
}

#[test]
fn updates_are_taken_until_the_limit_or_the_end() {
    let mut taken = Vec::new();
    assert!(take_update(&mut taken, Some(Update::Connected), 2));
    assert!(!take_update(&mut taken, None, 2));
    assert_eq!(taken.len(), 1);
    assert!(!take_update(&mut taken, Some(Update::Status("last".into())), 2));
    assert_eq!(taken, [Update::Connected, Update::Status("last".into())]);
}

#[test]
fn session_recency_uses_timestamp_from_modern_and_legacy_ids() {
    assert_eq!(
        session_recency_ms("session_wolf_1787082160300_cab86a9cb334fa3f"),
        Some(1_787_082_160_300)
    );
    assert_eq!(
        session_recency_ms("session_1768160401354_2233921634250370970"),
        Some(1_768_160_401_354)
    );
    assert_eq!(session_recency_ms("legacy-name"), None);
}

#[test]
fn daemon_connection_closed_is_a_transport_event() {
    let event = error("daemon connection closed");
    assert!(is_daemon_connection_closed(&event));
    assert!(is_daemon_connection_closed(&error("Daemon Connection Closed")));
    assert!(!is_daemon_connection_closed(&error("daemon connection closed.")));
}

#[test]
fn wrong_session_attachment_is_retried_as_a_transport_failure() {
    let mismatch = "this connection is attached to `session_old`, not `session_new`; attach to it first or use another connection";
    let images: Vec<(String, String)> = vec![("image/png".into(), "payload".into())];
    let mut pending = VecDeque::new();
    assert!(queue_wrong_session_retry(
        mismatch,
        &mut pending,
        "original prompt".into(),
        images.clone(),
    ));
    let Some(SessionCommand::Send { content, images: queued_images }) = pending.pop_front() else {
        panic!("original send was not queued for retry");
    };
    assert_eq!(content, "original prompt");
    assert_eq!(queued_images, images);

    assert!(!queue_wrong_session_retry(
        "ordinary provider error",
        &mut pending,
        "must not retry".into(),
        Vec::new(),
    ));
    assert!(pending.is_empty());
}

#[test]
fn asynchronous_attachment_error_replays_the_unaccepted_prompt() {
    let event = error("this connection is attached to `old`, not `wanted`; attach to it first or use another connection");
    let images: Vec<(String, String)> = vec![("image/png".into(), "payload".into())];
    let mut unaccepted =
        VecDeque::from([SessionCommand::Send { content: "hi".into(), images: images.clone() }]);
    let mut pending = VecDeque::new();

    assert!(recover_async_attachment_mismatch(&event, &mut unaccepted, &mut pending));
    assert!(unaccepted.is_empty());
    assert!(matches!(
        pending.pop_front(),
        Some(SessionCommand::Send { content, images: queued })
            if content == "hi" && queued == images
    ));
}

#[test]
fn a_replay_puts_the_oldest_submission_in_front() {
    let mut unaccepted = VecDeque::from([send("first"), send("second")]);
    let mut pending = VecDeque::from([SessionCommand::Cancel]);
    let busy = error("Already processing a message");
    assert!(recover_async_busy(&busy, &mut unaccepted, &mut pending));
    assert_eq!(unaccepted, [send("second")]);
    assert_eq!(pending, [send("first"), SessionCommand::Cancel]);
    assert!(!recover_async_busy(&error("quota"), &mut unaccepted, &mut pending));
    assert!(!recover_async_attachment_mismatch(&busy, &mut unaccepted, &mut pending));
    assert_eq!(unaccepted, [send("second")]);
    unaccepted.clear();
    assert!(!recover_async_busy(&busy, &mut unaccepted, &mut pending));
    assert_eq!(pending.len(), 2);
}

#[test]
fn session_event_identity_prevents_cross_session_activity() {
    let event = status("other-session", "generating");
    assert_eq!(event_session_id(&event), Some("other-session"));
    assert_ne!(event_session_id(&event), Some("this-session"));
    assert_eq!(event_session_id(&error("no session")), None);
}

#[test]
fn sending_without_a_watched_worker_starts_one_and_delivers() {
    let mut workers = Workers::new();
    let action = workers.deliver(
        "new-session".into(),
        SessionCommand::Send { content: "hello".into(), images: vec![] },
    );
    assert!(workers.ids.iter().any(|id| id == "new-session"));
    assert!(matches!(
        action,
        Action::Deliver { session_id, command: SessionCommand::Send { content, .. }, start: true }
            if content == "hello" && session_id == "new-session"
    ));
}

#[test]
fn sending_to_a_disconnected_worker_restarts_it_without_losing_the_message() {
    let mut workers = Workers::new();
    workers.route(Command::Watch { session_id: "stale-session".into() });
    let action = workers.deliver(
        "stale-session".into(),
        SessionCommand::Send { content: "do not drop me".into(), images: vec![] },
    );
    let Action::Deliver { session_id, command, start } = action else {
        panic!("the message goes to the session's worker");
    };
    assert!(!start, "a worker is known");
    let action = workers.undelivered(session_id, command);
    assert!(matches!(
        action,
        Action::Deliver { command: SessionCommand::Send { content, .. }, start: true, .. }
            if content == "do not drop me"
    ));
    assert_eq!(workers.ids, ["stale-session"]);
}

#[test]
fn messages_are_retained_while_the_runtime_is_disconnected() {
    let mut commands = VecDeque::new();
    commands.push_back(SessionCommand::Send {
        content: "hi".into(),
        images: vec![("image/png".into(), "cG5n".into())],
    });
    commands.push_back(SessionCommand::Cancel);
    let mut pending = VecDeque::new();

    assert!(!collect_disconnected_commands(&mut commands, &mut pending));
    assert_eq!(pending.len(), 2);
    assert!(matches!(
        pending.pop_front(),
        Some(SessionCommand::Send { content, images })
            if content == "hi" && images == [("image/png".into(), "cG5n".into())]
    ));
    assert!(matches!(pending.pop_front(), Some(SessionCommand::Cancel)));
}

#[test]
fn closing_a_disconnected_panel_stops_its_worker() {
    let mut commands = VecDeque::from([SessionCommand::Stop]);
    let mut pending = VecDeque::new();

    assert!(collect_disconnected_commands(&mut commands, &mut pending));
    assert!(pending.is_empty());
}

#[test]
fn commands_behind_a_stop_are_left_alone() {
    let mut commands = VecDeque::from([send("kept"), SessionCommand::Stop, send("left")]);
    let mut pending = VecDeque::from([SessionCommand::Fork]);
    assert!(collect_disconnected_commands(&mut commands, &mut pending));
    assert_eq!(pending, [SessionCommand::Fork, send("kept")]);
    assert_eq!(commands, [send("left")]);
}

#[test]
fn active_worker_observes_command_channel_disconnect_after_pending_work() {
    let mut commands = VecDeque::new();
    let mut pending = VecDeque::from([SessionCommand::Cancel]);

    assert!(matches!(
        next_worker_command(&mut commands, false, &mut pending),
        WorkerCommand::Command(SessionCommand::Cancel)
    ));
    assert!(matches!(
        next_worker_command(&mut commands, false, &mut pending),
        WorkerCommand::Disconnected
    ));
    assert!(matches!(
        next_worker_command(&mut commands, true, &mut pending),
        WorkerCommand::Idle
    ));
    commands.push_back(SessionCommand::Fork);
    assert!(matches!(
        next_worker_command(&mut commands, false, &mut pending),
        WorkerCommand::Command(SessionCommand::Fork)
    ));
}

#[test]
fn turn_activity_tracks_acceptance_completion_and_session_status() {
    let mut active = false;
    update_turn_activity(&status("s1", "attached"), &mut active);
    assert!(!active, "attaching an idle session is not an active turn");

    update_turn_activity(&event("s1", SessionEvent::MessageAccepted), &mut active);
    assert!(active);

    update_turn_activity(&status("s1", "idle"), &mut active);
    assert!(!active);
}

#[test]
fn completed_worker_can_detach_without_waiting_for_idle_status() {
    let mut active = true;
    update_turn_activity(&event("s1", SessionEvent::TurnDone), &mut active);
    assert!(!active);
    assert!(should_detach_on_drop(active));

    update_turn_activity(&event("s1", SessionEvent::MessageAccepted), &mut active);
    assert!(!should_detach_on_drop(active));
}

#[test]
fn streaming_worker_disconnect_keeps_crash_detection_armed() {
    assert!(!should_detach_on_drop(true));
    assert!(should_detach_on_drop(false));
}

#[test]
fn active_turn_race_error_is_recognized_for_interrupt_retry() {
    assert!(is_already_processing_error("Already processing a message"));
    assert!(is_already_processing_error("request failed: ALREADY PROCESSING A MESSAGE"));
    assert!(!is_already_processing_error("daemon connection closed"));
}

#[test]
fn observer_activity_and_reconnect_status_control_worker_steering() {
    let mut active = false;
    update_turn_activity(
        &event("s1", SessionEvent::TextDelta { text: "observed".into() }),
        &mut active,
    );
    assert!(active);
    for settled in ["idle", "cancelled", "canceled"] {
        update_turn_activity(&status("s1", "processing"), &mut active);
        assert!(active);
        update_turn_activity(&status("s1", "attached"), &mut active);
        assert!(active, "transport notification must not change steering");
        update_turn_activity(&status("s1", settled), &mut active);
        assert!(!active);
    }
}

#[test]
fn side_panel_events_keep_remote_session_namespace_and_content() {
    let address = SessionAddress::parse("ssh://example/session_one").unwrap();
    let snapshot = "{\"focus_revision\":7,\"focused_page_id\":\"notes\",\"pages\":[{\"id\":\"notes\",\"content\":\"# Remote PDF\",\"format\":\"pdf\",\"pdf_data\":\"JVBERi0xLjcK\",\"file_path\":\"/remote-only/report.pdf\"}]}";
    let event = namespace_event(
        event(
            "session_one",
            SessionEvent::Other { name: "side_panel_state".into(), body: snapshot.into() },
        ),
        &address,
    );
    assert_eq!(event_session_id(&event), Some("ssh://example/session_one"));
    match event {
        ApiEvent::Session { event: SessionEvent::Other { body: actual, .. }, .. } => {
            assert_eq!(actual, snapshot)
        }
        _ => panic!("wrong event"),
    }
}

#[test]
fn legacy_abnormal_statuses_settle_worker_activity() {
    for settled in ["cancelled", "canceled", "interrupted", "crashed", "error", "failed"] {
        let mut active = true;
        update_turn_activity(&status("legacy", settled), &mut active);
        assert!(!active, "{settled}");
    }
}

const REASONS: [&str; 6] =
    ["interrupted", "failure", "crash", "provider_guardrail", "limit_reached", "unknown"];

fn stop(reason: &str) -> ApiEvent {
    event(
        "session_one",
        SessionEvent::TurnStopped {
            reason: reason.into(),
            message: "Provider stopped the response".into(),
            provider_stop_reason: Some("content_filter".into()),
        },
    )
}

#[test]
fn stopped_events_preserve_details_and_route_to_local_or_remote_session() {
    for (address, expected_session) in [
        ("session_one", "session_one"),
        ("ssh://example/session_one", "ssh://example/session_one"),
    ] {
        let address = SessionAddress::parse(address).unwrap();
        for reason in REASONS {
            let original = stop(reason);
            assert_eq!(event_session_id(&original), Some("session_one"));
            let routed = namespace_event(original, &address);
            assert_eq!(event_session_id(&routed), Some(expected_session));
            match routed {
                ApiEvent::Session {
                    event:
                        SessionEvent::TurnStopped {
                            reason: actual_reason,
                            message,
                            provider_stop_reason,
                        },
                    ..
                } => {
                    assert_eq!(actual_reason, reason);
                    assert_eq!(message, "Provider stopped the response");
                    assert_eq!(provider_stop_reason.as_deref(), Some("content_filter"));
                }
                _ => panic!("routing changed the stop event type"),
            }
        }
    }
}

#[test]
fn every_stop_reason_settles_worker_activity_without_waiting_for_done_or_idle() {
    for reason in REASONS {
        for initially_active in [false, true] {
            let mut active = initially_active;
            update_turn_activity(&stop(reason), &mut active);
            assert!(!active, "{reason:?}");
            assert!(should_detach_on_drop(active));
            update_turn_activity(&stop(reason), &mut active);
            update_turn_activity(&status("session_one", "attached"), &mut active);
            assert!(!active, "a replay or transport attach cannot revive the turn");
            update_turn_activity(&event("session_one", SessionEvent::MessageAccepted), &mut active);
            assert!(active, "a new accepted turn must restore steering");
            assert!(!should_detach_on_drop(active));
        }
    }
}

#[test]
fn remote_ids_name_their_host() {
    assert_eq!(remote_host("ssh://example/session_one").as_deref(), Some("example"));
    assert_eq!(remote_host("session_one"), None);
    assert_eq!(remote_host("ssh://example"), None);
    assert_eq!(namespace("example", "session_one"), "ssh://example/session_one");
    assert!(is_remote("ssh://example/session_one"));
    assert!(!is_remote("session_one"));
    let error = SessionAddress::parse("ssh:///session").unwrap_err();
    assert_eq!(error, "Invalid remote session id: ssh:///session");
    let address = SessionAddress::parse("ssh://example/a/b").unwrap();
    assert_eq!(address.session_id, "a/b");
    assert_eq!(address.ui_id("c"), "ssh://example/c");
    assert_eq!(session_info(&address, info("forked")).session_id, "ssh://example/forked");
}

#[test]
fn lists_of_sessions_are_routed_to_their_host() {
    let address = SessionAddress::parse("ssh://example/session_one").unwrap();
    let listed =
        namespace_event(ApiEvent::Sessions { sessions: vec![info("a"), info("b")] }, &address);
    let ApiEvent::Sessions { sessions } = listed else { panic!("still a list") };
    assert_eq!(sessions[0].session_id, "ssh://example/a");
    assert_eq!(sessions[1].session_id, "ssh://example/b");
    let attached = namespace_event(ApiEvent::Attached { session: info("a") }, &address);
    assert_eq!(attached, ApiEvent::Attached { session: info("ssh://example/a") });
    assert_eq!(namespace_event(error("none"), &address), error("none"));
}

#[test]
fn a_worker_sends_one_turn_and_steers_the_rest_into_it() {
    let mut worker = Worker::start("s1".into()).unwrap();
    assert_eq!(worker.reconnect_delay_ms(), 300);
    assert_eq!(worker.attached(), Update::SessionConnected { session_id: "s1".into() });
    assert!(matches!(worker.request(send("one")), Request::Send { content, .. } if content == "one"));
    let outcome = worker.sent("one".into(), vec![], Ok(()));
    assert_eq!(
        outcome,
        SendOutcome::Submitted(Update::MessageSubmitted { session_id: "s1".into() })
    );
    assert!(worker.is_steering());
    assert!(matches!(worker.request(send("two")), Request::Steer { content, .. } if content == "two"));
    worker.sent("two".into(), vec![], Ok(()));
    assert_eq!(worker.unaccepted, [send("one")], "steering is acknowledged at once");
    let passed = worker.observe(event("s1", SessionEvent::MessageAccepted), false);
    assert_eq!(
        passed,
        Some(Update::Event {
            session_id: "s1".into(),
            event: event("s1", SessionEvent::MessageAccepted)
        })
    );
    assert!(worker.unaccepted.is_empty());
    worker.observe(event("s1", SessionEvent::TurnDone), false);
    assert!(!worker.is_steering());
}

#[test]
fn a_submission_to_the_wrong_session_waits_for_a_new_connection() {
    let mut worker = Worker::start("s1".into()).unwrap();
    worker.attached();
    let lost = Update::SessionLost {
        session_id: "s1".into(),
        reason: "session connection changed; reconnecting".into(),
    };
    let outcome = worker.sent("one".into(), vec![], Err(MISMATCH.into()));
    assert_eq!(outcome, SendOutcome::Reconnect(lost));
    assert_eq!(worker.pending, [send("one")]);
    let outcome = worker.sent("two".into(), vec![], Err("quota".into()));
    assert_eq!(
        outcome,
        SendOutcome::Failed(Update::SendFailed { session_id: "s1".into(), reason: "quota".into() })
    );
    assert_eq!(worker.pending, [send("one")]);
}

#[test]
fn events_end_a_connection_or_are_passed_over() {
    let mut worker = Worker::start("s1".into()).unwrap();
    worker.attached();
    assert_eq!(worker.receive(status("s2", "idle")), Received::Ignored);
    let closed = Update::SessionLost {
        session_id: "s1".into(),
        reason: "runtime connection closed; reconnecting".into(),
    };
    assert_eq!(worker.receive(error("daemon connection closed")), Received::Closed(closed));
    let recovery = SessionEvent::SessionRecovery { continuation_message: "go on".into() };
    assert_eq!(
        worker.receive(event("s1", recovery)),
        Received::Continuation { message: "go on".into(), busy: false }
    );
    assert_eq!(
        worker.continued(Err("gone".into())),
        Update::CommandFailed {
            session_id: "s1".into(),
            reason: "Failed to continue interrupted work: gone".into()
        }
    );
    assert!(!worker.turn_active);
    assert_eq!(
        worker.continued(Ok(())),
        Update::Event { session_id: "s1".into(), event: status("s1", "running") }
    );
    assert!(worker.turn_active);
    let mine = worker.receive(status("s1", "idle"));
    assert_eq!(mine, Received::Mine(status("s1", "idle")));
    assert_eq!(worker.observe(status("s1", "idle"), true), None);
    assert!(worker.turn_active, "another client runs the turn");
}

#[test]
fn a_busy_reply_replays_and_another_error_settles() {
    let mut worker = Worker::start("ssh://host/s1".into()).unwrap();
    assert_eq!(worker.reconnect_delay_ms(), 2000);
    worker.attached();
    worker.sent("one".into(), vec![], Ok(()));
    assert_eq!(worker.observe(error("already processing a message"), false), None);
    assert_eq!(worker.pending, [send("one")]);
    worker.sent("two".into(), vec![], Ok(()));
    worker.observe(error("overloaded"), false);
    assert!(worker.unaccepted.is_empty());
    assert!(!worker.turn_active);
    let passed = worker.observe(status("s1", "running"), false);
    assert_eq!(
        passed,
        Some(Update::Event {
            session_id: "ssh://host/s1".into(),
            event: status("ssh://host/s1", "running")
        })
    );
}

#[test]
fn a_stream_that_ends_at_once_backs_off_and_tells_so_once() {
    let mut worker = Worker::start("s1".into()).unwrap();
    assert_eq!(worker.no_event(false, 3), IdleStep::BackOff { report: true });
    assert_eq!(worker.no_event(false, 3), IdleStep::BackOff { report: false });
    assert_eq!(worker.no_event(false, 100), IdleStep::Wait);
    assert!(matches!(worker.no_event(true, 3), IdleStep::Closed(_)));
    worker.receive(status("s2", "idle"));
    assert_eq!(worker.no_event(false, 0), IdleStep::BackOff { report: true });
}

#[test]
fn a_worker_cannot_start_on_an_id_without_a_session() {
    let (status, lost) = Worker::start("ssh://host/".into()).unwrap_err();
    assert_eq!(status, Update::Status("Invalid remote session id: ssh://host/".into()));
    assert_eq!(
        lost,
        Update::SessionLost {
            session_id: "ssh://host/".into(),
            reason: "Invalid remote session id: ssh://host/".into()
        }
    );
    let worker = Worker::start("s1".into()).unwrap();
    assert_eq!(
        worker.connection_failed("refused"),
        Update::SessionLost { session_id: "s1".into(), reason: "refused; reconnecting".into() }
    );
    for (kind, reason) in [
        (FailedRequest::Fork, "Failed to fork session: no"),
        (FailedRequest::Model, "Failed to switch model: no"),
        (FailedRequest::Operation, "Command failed: no"),
        (FailedRequest::Continuation, "Failed to continue interrupted work: no"),
        (FailedRequest::Account, "no"),
    ] {
        assert_eq!(
            worker.failed(kind, "no"),
            Update::CommandFailed { session_id: "s1".into(), reason: reason.into() }
        );
    }
}

#[test]
fn one_session_has_one_worker() {
    let mut workers = Workers::new();
    let watch = || Command::Watch { session_id: "s1".into() };
    assert_eq!(workers.route(watch()), Action::Start { session_id: "s1".into() });
    assert_eq!(workers.route(watch()), Action::Nothing);
    let adopted = workers.route(Command::CreatedInternal { session: info("s1"), request_id: None });
    assert_eq!(
        adopted,
        Action::Adopt { session: info("s1"), request_id: None, replaces: true }
    );
    assert_eq!(workers.ids, ["s1"]);
    assert_eq!(
        workers.route(Command::Unwatch { session_id: "s1".into() }),
        Action::Stop { session_id: "s1".into() }
    );
    assert!(workers.ids.is_empty());
    assert_eq!(workers.route(Command::Unwatch { session_id: "s1".into() }), Action::Nothing);
}

#[test]
fn a_cancel_starts_no_worker_but_other_commands_do() {
    let mut workers = Workers::new();
    assert_eq!(workers.route(Command::Cancel { session_id: "s1".into() }), Action::Nothing);
    let action = workers.route(Command::SessionOperation {
        session_id: "s1".into(),
        operation: SessionOperation::Compact,
    });
    assert_eq!(
        action,
        Action::Deliver {
            session_id: "s1".into(),
            command: SessionCommand::Operation(SessionOperation::Compact),
            start: true
        }
    );
    assert_eq!(
        workers.route(Command::Cancel { session_id: "s1".into() }),
        Action::Deliver {
            session_id: "s1".into(),
            command: SessionCommand::Cancel,
            start: false
        }
    );
    let action = workers.route(Command::SetModel { session_id: "s2".into(), model: "m".into() });
    assert!(matches!(action, Action::Deliver { start: true, .. }));
    assert_eq!(
        workers.route(Command::Shutdown),
        Action::Shutdown { stop: vec!["s1".into(), "s2".into()] }
    );
    assert!(workers.ids.is_empty());
}

#[test]
fn accounts_switch_where_the_provider_can() {
    assert_eq!(switchable("aurora", "aurora"), Ok(()));
    assert_eq!(switchable("openai", "aurora"), Ok(()));
    assert_eq!(
        switchable("xai", "aurora").unwrap_err(),
        "Switching accounts is not supported for `xai`. Use /login to connect it."
    );
    assert_eq!(switch_account(Ok(()), Ok(())), Ok(()));
    assert_eq!(
        switch_account(Err("locked".into()), Ok(())).unwrap_err(),
        "Failed to switch account: locked"
    );
    assert_eq!(
        switch_account(Ok(()), Err("gone".into())).unwrap_err(),
        "Switched the stored account, but the runtime kept the previous credentials: gone"
    );
}

#[test]
fn a_new_prompt_and_a_changed_history_supersede_recovery() {
    assert!(supersedes_recovery(&send("new")));
    assert!(supersedes_recovery(&SessionCommand::Cancel));
    assert!(supersedes_recovery(&SessionCommand::Operation(SessionOperation::Clear)));
    assert!(supersedes_recovery(&SessionCommand::Operation(SessionOperation::Rewind(2))));
    assert!(supersedes_recovery(&SessionCommand::Operation(SessionOperation::RewindUndo)));
    assert!(!supersedes_recovery(&SessionCommand::Operation(SessionOperation::Compact)));
    assert!(!supersedes_recovery(&SessionCommand::Fork));
    assert!(!supersedes_recovery(&SessionCommand::SetModel("m".into())));
}

#[test]
fn a_remote_session_reports_each_stage() {
    let told = |stage| match create_remote_session("host", Some("r1".into()), stage) {
        Update::RemoteStatus { host, message, request_id, failed } => {
            assert_eq!(host, "host");
            assert_eq!(request_id.as_deref(), Some("r1"));
            (message, failed)
        }
        _ => panic!("a remote status"),
    };
    assert_eq!(
        told(RemoteStage::Connecting),
        ("Connecting to host over SSH...".into(), false)
    );
    assert_eq!(
        told(RemoteStage::Creating),
        ("SSH connected. Creating Jcode session...".into(), false)
    );
    assert_eq!(told(RemoteStage::Connected), ("Connected to host".into(), false));
    assert_eq!(
        told(RemoteStage::Failed("refused".into())),
        ("Remote session failed: refused".into(), true)
    );
}

#[test]
fn a_session_that_cannot_start_answers_the_request_it_gives_up() {
    let (answer, told) = create_failed(Some("startup".into()), false, "no runtime");
    assert_eq!(
        answer,
        Some(Update::CommandFailed {
            session_id: "startup".into(),
            reason: "Could not start session: no runtime".into()
        })
    );
    assert_eq!(told, Update::Status("create session failed: no runtime".into()));
    assert_eq!(create_failed(Some("startup".into()), true, "no runtime").0, None);
    assert_eq!(create_failed(None, false, "no runtime").0, None);
}

#[test]
fn a_cancel_for_a_worker_that_has_gone_starts_none() {
    let mut workers = Workers::new();
    workers.route(Command::Watch { session_id: "gone".into() });
    let action = workers.undelivered("gone".into(), SessionCommand::Cancel);
    assert_eq!(action, Action::Nothing);
    assert_eq!(workers.ids, ["gone"]);
}

fn ready(commands: Vec<SessionCommand>) -> WorkerEvent {
    WorkerEvent::Ready { commands: commands.into() }
}

fn looked(commands: Vec<SessionCommand>) -> WorkerEvent {
    WorkerEvent::Looked { commands: commands.into(), open: true }
}

fn lost(session_id: &str, reason: &str) -> Update {
    Update::SessionLost { session_id: session_id.into(), reason: reason.into() }
}

#[test]
fn a_stop_that_waits_ends_the_worker() {
    let mut worker = Worker::start("s1".into()).unwrap();
    let step = worker.next(ready(vec![send("kept"), SessionCommand::Stop, send("left")]));
    assert_eq!(step, WorkerStep::End { tell: None });
    assert_eq!(worker.pending, [send("kept")]);

    let mut worker = Worker::start("s1".into()).unwrap();
    assert_eq!(worker.next(ready(vec![])), WorkerStep::Connect);
    let commands = VecDeque::from([SessionCommand::Stop]);
    let step = worker.next(WorkerEvent::ConnectionFailed { error: "no route".into(), commands });
    assert_eq!(step, WorkerStep::End { tell: Some(lost("s1", "no route; reconnecting")) });

    let mut worker = Worker::start("s1".into()).unwrap();
    worker.next(ready(vec![]));
    worker.next(WorkerEvent::Attached);
    let step = worker.next(looked(vec![SessionCommand::Stop, send("left")]));
    assert_eq!(step, WorkerStep::End { tell: None });
}

#[test]
fn what_waits_is_asked_for_on_the_next_connection() {
    let mut worker = Worker::start("s1".into()).unwrap();
    assert_eq!(worker.next(ready(vec![send("first")])), WorkerStep::Connect);
    let commands = VecDeque::from([SessionCommand::Fork]);
    let step = worker.next(WorkerEvent::ConnectionFailed { error: "down".into(), commands });
    let tell = lost("s1", "down; reconnecting");
    assert_eq!(step, WorkerStep::Retry { tell, wait_ms: 300 });
    assert_eq!(worker.next(ready(vec![])), WorkerStep::Connect);
    let step = worker.next(WorkerEvent::Attached);
    let tell = Update::SessionConnected { session_id: "s1".into() };
    assert_eq!(step, WorkerStep::Serve { tell });
    let step = worker.next(looked(vec![SessionCommand::Cancel]));
    let request = Request::Send { content: "first".into(), images: vec![] };
    assert_eq!(step, WorkerStep::Perform { request, supersedes: true });
    let step = worker.next(WorkerEvent::Sent {
        content: "first".into(),
        images: vec![],
        result: Ok(()),
    });
    let tell = Some(Update::MessageSubmitted { session_id: "s1".into() });
    assert_eq!(step, WorkerStep::Look { tell });
    let step = worker.next(looked(vec![]));
    assert_eq!(step, WorkerStep::Perform { request: Request::Fork, supersedes: false });
    let step = worker.next(looked(vec![]));
    assert_eq!(step, WorkerStep::Perform { request: Request::Cancel, supersedes: true });
    assert_eq!(worker.next(looked(vec![])), WorkerStep::Await);
    let step = worker.next(WorkerEvent::Looked { commands: VecDeque::new(), open: false });
    assert_eq!(step, WorkerStep::End { tell: None });
}

#[test]
fn connections_are_replaced_in_their_own_time() {
    let closed = WorkerEvent::Quiet { closed: true, waited_ms: 100 };
    let reason = "runtime connection closed; reconnecting";
    let mut local = Worker::start("s1".into()).unwrap();
    let tell = lost("s1", reason);
    assert_eq!(local.next(closed), WorkerStep::Retry { tell, wait_ms: 0 });

    let mut far = Worker::start("ssh://host/s1".into()).unwrap();
    let closed = WorkerEvent::Quiet { closed: true, waited_ms: 100 };
    let tell = lost("ssh://host/s1", reason);
    assert_eq!(far.next(closed), WorkerStep::Retry { tell, wait_ms: 2000 });
    let step = far.next(WorkerEvent::ConnectionFailed {
        error: "down".into(),
        commands: VecDeque::new(),
    });
    let tell = lost("ssh://host/s1", "down; reconnecting");
    assert_eq!(step, WorkerStep::Retry { tell, wait_ms: 2000 });

    let step = far.next(WorkerEvent::Sent {
        content: "again".into(),
        images: vec![],
        result: Err(MISMATCH.into()),
    });
    let tell = lost("ssh://host/s1", "session connection changed; reconnecting");
    assert_eq!(step, WorkerStep::Retry { tell, wait_ms: 0 });
    assert_eq!(far.pending, [send("again")]);

    let pause = WorkerEvent::Quiet { closed: false, waited_ms: 3 };
    assert_eq!(local.next(pause), WorkerStep::Pause { report: true });
    let pause = WorkerEvent::Quiet { closed: false, waited_ms: 3 };
    assert_eq!(local.next(pause), WorkerStep::Pause { report: false });
    let quiet = WorkerEvent::Quiet { closed: false, waited_ms: 100 };
    assert_eq!(local.next(quiet), WorkerStep::Look { tell: None });
}

#[test]
fn events_are_weighed_before_they_are_passed_on() {
    let mut worker = Worker::start("s1".into()).unwrap();
    let step = worker.next(WorkerEvent::Came(status("s2", "running")));
    assert_eq!(step, WorkerStep::Look { tell: None });
    let step = worker.next(WorkerEvent::Came(status("s1", "running")));
    assert_eq!(step, WorkerStep::Weigh(status("s1", "running")));
    let step =
        worker.next(WorkerEvent::Weighed { event: status("s1", "running"), elsewhere: false });
    let tell = Update::Event { session_id: "s1".into(), event: status("s1", "running") };
    assert_eq!(step, WorkerStep::Look { tell: Some(tell) });
    assert!(worker.turn_active);
    let recovery = SessionEvent::SessionRecovery { continuation_message: "go on".into() };
    let step = worker.next(WorkerEvent::Came(event("s1", recovery)));
    assert_eq!(step, WorkerStep::Claim { message: "go on".into(), busy: true });
    let step = worker.next(WorkerEvent::Continued(Ok(())));
    let tell = Update::Event { session_id: "s1".into(), event: status("s1", "running") };
    assert_eq!(step, WorkerStep::Look { tell: Some(tell) });
}
