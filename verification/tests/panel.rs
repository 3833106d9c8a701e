//! A panel's conversation: events, history, commands, what it shows and what it keeps.
use jcode_desktop_ui::activity::MinimapSessionState;
use jcode_desktop_ui::composer::{
    parse_slash, Claim, OverlayCancel, SlashCommand, SlashEffect, Submission, SubmissionContext,
    UpdateRequest,
};
use jcode_desktop_ui::events::{
    ApiEvent, HistoryMessage, ImageAnchor, ImageSource, ModelRoute, RenderedImage, ResponseStats,
    SessionEvent, SessionInfo,
};
use jcode_desktop_ui::harness::{Command, SessionOperation};
use jcode_desktop_ui::panel::{EventContext, Panel};
use jcode_desktop_ui::sessions::{UnfinishedSession, UnfinishedTodo};
use jcode_desktop_ui::surface::{
    Handed, Keepsakes,
    code_rows, set_unfinished_work, todo_mark, too_large, unreadable, Escape, FocusTarget, Surface,
    MAX_FILE_BYTES,
};
use jcode_desktop_ui::todos::{TodoCardItem, TodoCardPayload, TodoCardPlan};
use jcode_desktop_ui::transcript::{
    transcript_render_rows, Item, Speaker, StopNotice, TranscriptRowSource,
};
use jcode_desktop_ui::activity::TokenSeverity;
use jcode_desktop_ui::rows::{toggle_tool, ItemContext, ItemRow};
use jcode_desktop_ui::todos::Tone;
use jcode_desktop_ui::view::{prompt_rows, DrawContext, Placement};

fn panel(id: &str) -> Panel {
    Panel::new(id.into(), None, None, vec![])
}

fn context() -> EventContext {
    EventContext { stats: None, stop: None, context_tokens: 0, now: 5, family: "aurora".into() }
}

fn event(event: SessionEvent) -> ApiEvent {
    ApiEvent::Session { session_id: "session-a".into(), event }
}

fn apply(panel: &mut Panel, what: SessionEvent) -> Option<StopNotice> {
    assert!(panel.room_for(10));
    panel.apply(event(what), context())
}

fn todos(statuses: &[&str]) -> Item {
    Item::Todos(TodoCardPayload {
        todos: statuses
            .iter()
            .map(|status| TodoCardItem {
                content: "task".into(),
                status: status.to_string(),
                group: None,
                blocked_by: vec![],
            })
            .collect(),
        plan: TodoCardPlan { user_intention: None },
    })
}

fn call(id: &str) -> Item {
    Item::Tool {
        call_id: id.into(),
        name: "read".into(),
        input: r#"{"file_path":"chart.png"}"#.into(),
        output: "image loaded".into(),
        done: true,
        error: None,
    }
}

fn image(anchor: Option<ImageAnchor>, at: Option<usize>, label: &str) -> RenderedImage {
    RenderedImage {
        media_type: "image/png".into(),
        data: "iVBORw0KGgo=".into(),
        label: Some(label.into()),
        source: ImageSource::ToolResult { tool_name: "read".into() },
        anchor,
        history_message_index: at,
        displayable: true,
    }
}

fn message(role: &str, content: &str) -> HistoryMessage {
    HistoryMessage { role: role.into(), content: content.into(), response_stats: None }
}

#[test]
fn minimap_marks_the_session_and_its_todos() {
    let mut panel = panel("minimap-state");
    assert_eq!(panel.minimap_state(), MinimapSessionState::Idle);
    assert_eq!(panel.latest_todo_progress(), None);
    panel.status = "running_tools".into();
    assert_eq!(panel.minimap_state(), MinimapSessionState::Working);
    panel.streaming_text = "live token".into();
    assert_eq!(panel.minimap_state(), MinimapSessionState::Streaming);
    panel.streaming_text.clear();
    panel.status = "idle".into();
    panel.items.push(todos(&["completed", "pending"]));
    assert_eq!(panel.latest_todo_progress(), Some((1, 2)));
    assert_eq!(panel.minimap_state(), MinimapSessionState::Idle);
    panel.items.push(todos(&["completed"]));
    assert_eq!(panel.latest_todo_progress(), Some((1, 1)));
    assert_eq!(panel.minimap_state(), MinimapSessionState::Complete);
    panel.items.push(Item::Error("provider failed".into()));
    assert_eq!(panel.minimap_state(), MinimapSessionState::Error);
    panel.items.clear();
    panel.status = "crashed".into();
    assert_eq!(panel.minimap_state(), MinimapSessionState::Error);
}

#[test]
fn rows_preserve_their_sources() {
    let items = vec![
        Item::User("Question".into()),
        Item::Reasoning("First α".into()),
        Item::Todos(TodoCardPayload::empty()),
        Item::Reasoning("Second β".into()),
        Item::Reasoning("Third γ".into()),
        Item::Assistant("Answer".into()),
        Item::Reasoning("Separate thought".into()),
    ];
    let rows = transcript_render_rows(&items, &"Live δ".into(), &"Live answer".into());
    assert_eq!(rows.len(), 6);
    assert_eq!(rows[0].source, TranscriptRowSource::Settled(0));
    assert_eq!(rows[0].role, Some(Speaker::You));
    assert!(rows[0].show_label);
    assert_eq!(rows[1].index, 1);
    assert_eq!(
        rows[1].source,
        TranscriptRowSource::Owned(Item::Reasoning("First α\n\nSecond β\n\nThird γ".into()))
    );
    assert_eq!(rows[2].source, TranscriptRowSource::Settled(5));
    assert!(rows[2].show_label);
    assert_eq!(rows[3].source, TranscriptRowSource::Settled(6));
    assert_eq!(rows[4].index, usize::MAX - 1);
    assert_eq!(rows[4].source, TranscriptRowSource::Owned(Item::Reasoning("Live δ".into())));
    assert_eq!(rows[5].index, usize::MAX);
    assert_eq!(rows[5].source, TranscriptRowSource::Owned(Item::Assistant("Live answer".into())));
    for index in [1, 3, 4] {
        assert_eq!(rows[index].role, None);
        assert!(!rows[index].show_label);
    }
    assert!(!rows[5].show_label, "same speaker after reasoning stays unlabelled");
    assert_eq!(items[1], Item::Reasoning("First α".into()));
}

#[test]
fn a_missed_response_is_recovered_once() {
    let mut panel = panel("session-a");
    panel.history_loaded = true;
    panel.items = vec![Item::User("hello".into())];
    let messages = vec![message("user", "hello"), message("assistant", "recovered response")];
    panel.load_history(&messages, &vec![], None);
    assert_eq!(panel.items.last(), Some(&Item::Assistant("recovered response".into())));
    panel.load_history(&messages, &vec![], None);
    assert_eq!(panel.items.len(), 2);

    panel.items = vec![Item::User("next".into())];
    panel.streaming_text = "partial".into();
    let messages = vec![message("assistant", "partial response completed")];
    panel.load_history(&messages, &vec![], None);
    assert_eq!(panel.streaming_text, "partial response completed");
}

#[test]
fn images_stand_behind_their_call_and_come_in_once() {
    let mut panel = panel("session-a");
    panel.items = vec![call("read-1"), Item::User("later".into())];
    panel.pending_users.push_back(1);
    let anchor = || Some(ImageAnchor::ToolCall { id: "read-1".into() });
    for _ in 0..2 {
        let images = vec![image(anchor(), None, "chart.png")];
        apply(&mut panel, SessionEvent::SidePaneImages { images });
    }
    assert_eq!(panel.items.len(), 3, "replayed image events are deduplicated");
    assert!(matches!(&panel.items[1], Item::Image(image) if image.label.as_deref() == Some("chart.png")));
    assert_eq!(panel.pending_users, [2], "a noted prompt keeps its item");
}

#[test]
fn history_shows_every_image_once() {
    let mut panel = panel("session-a");
    let messages = vec![
        message("user", "what is in this?"),
        message("tool", "hidden"),
        message("assistant", "A chart."),
    ];
    let prompt = |ordinal| Some(ImageAnchor::UserPrompt { ordinal });
    let images = vec![
        image(None, None, "loose"),
        image(prompt(0), None, "pasted"),
        image(prompt(7), None, "stray"),
        image(None, Some(2), "before the answer"),
        image(None, Some(99), "behind the last"),
    ];
    panel.load_history(&messages, &images, None);
    assert!(panel.history_loaded);
    let shown: Vec<String> = panel
        .items
        .iter()
        .map(|item| match item {
            Item::Image(image) => image.label.clone().unwrap(),
            Item::User(text) | Item::Assistant(text) => text.clone(),
            _ => panic!("nothing else was loaded"),
        })
        .collect();
    assert_eq!(
        shown,
        [
            "what is in this?",
            "pasted",
            "before the answer",
            "A chart.",
            "behind the last",
            "loose",
            "stray"
        ]
    );
}

#[test]
fn what_was_typed_before_the_history_follows_it() {
    let mut panel = panel("session-a");
    panel.items = vec![Item::User("echoed".into()), Item::User("new".into())];
    panel.pending_users.push_back(1);
    panel.load_history(&vec![message("user", "echoed")], &vec![], None);
    assert_eq!(panel.items, [Item::User("echoed".into()), Item::User("new".into())]);
    assert_eq!(panel.pending_users, [2]);
}

#[test]
fn a_turn_streams_settles_and_ends() {
    let mut panel = panel("session-a");
    apply(&mut panel, SessionEvent::SessionStatus { status: "processing".into() });
    assert_eq!(panel.status, "running");
    assert!(panel.is_busy() && panel.activity_active());
    apply(&mut panel, SessionEvent::ReasoningDelta { text: "hm".into() });
    assert_eq!(panel.status_line(), "Thinking");
    apply(&mut panel, SessionEvent::TextDelta { text: "Hello".into() });
    assert_eq!(panel.items, [Item::Reasoning("hm".into())]);
    assert_eq!(panel.status_line(), "Responding");
    apply(&mut panel, SessionEvent::ToolStart { call_id: "1".into(), name: "bash".into() });
    assert_eq!(panel.items.len(), 3);
    apply(&mut panel, SessionEvent::ToolInputDelta { call_id: "".into(), delta: "{}".into() });
    apply(
        &mut panel,
        SessionEvent::ToolDone {
            call_id: "1".into(),
            name: "bash".into(),
            output: "ok".into(),
            error: None,
        },
    );
    assert!(matches!(
        &panel.items[2],
        Item::Tool { input, output, done: true, .. } if input == "{}" && output == "ok"
    ));
    apply(&mut panel, SessionEvent::TextDelta { text: "Done.".into() });
    apply(&mut panel, SessionEvent::TurnDone);
    assert_eq!(panel.items.last(), Some(&Item::Assistant("Done.".into())));
    assert_eq!(panel.status, "idle");
    assert!(!panel.is_busy());
    apply(&mut panel, SessionEvent::SessionStatus { status: "attached".into() });
    assert_eq!(panel.status, "idle", "attaching revives nothing");
}

#[test]
fn stops_are_told_once_and_errors_shown() {
    let notice = |provisional| StopNotice { detail: "Stopped".into(), provisional };
    let mut panel = panel("session-a");
    let stopped = || SessionEvent::TurnStopped {
        reason: "crash".into(),
        message: "Stopped".into(),
        provider_stop_reason: None,
    };
    let with_stop = || EventContext { stop: Some(notice(false)), ..context() };
    assert_eq!(panel.apply(event(stopped()), with_stop()), Some(notice(false)));
    panel.items.push(Item::Stopped(notice(false)));
    let status = SessionEvent::SessionStatus { status: "crashed".into() };
    assert_eq!(panel.apply(event(status), with_stop()), None);
    panel.apply(ApiEvent::Error { message: "Stopped".into() }, context());
    assert_eq!(panel.items.len(), 1, "the notice already says so");
    panel.apply(ApiEvent::Error { message: "Another".into() }, context());
    assert_eq!(panel.items.last(), Some(&Item::Error("Another".into())));
    panel.message_failed("not sent".into(), None);
    assert_eq!(panel.items.last(), Some(&Item::Error("not sent".into())));
    assert!(panel.queue_paused && panel.stick_to_bottom);
}

#[test]
fn a_runtime_report_fills_the_choice_of_models() {
    let mut panel = panel("session-a");
    let route = |model: &str, available| ModelRoute {
        model: model.into(),
        provider: "openai".into(),
        api_method: "openai-oauth".into(),
        available,
    };
    apply(
        &mut panel,
        SessionEvent::RuntimeInfo {
            provider: Some("openai".into()),
            model: Some("gpt-5.6-sol".into()),
            routes: vec![route("gpt-5.6-sol", true), route("luna", false)],
            reasoning_effort: None,
        },
    );
    assert_eq!(panel.available_models, ["gpt-5.6-sol"]);
    assert_eq!(panel.auth_method.as_deref(), Some("oauth"));
    apply(
        &mut panel,
        SessionEvent::ModelInfo { provider: None, model: Some("gpt-5.6-sol".into()) },
    );
    assert_eq!(panel.auth_method.as_deref(), Some("oauth"), "the same model keeps its method");
    apply(&mut panel, SessionEvent::ModelInfo { provider: None, model: Some("other".into()) });
    assert_eq!(panel.auth_method, None);
}

#[test]
fn progress_updates_one_card() {
    let mut panel = panel("session-a");
    let progress = |summary: &str, done| SessionEvent::BackgroundProgress {
        task_id: "t".into(),
        label: "Build".into(),
        summary: summary.into(),
        percent_bits: Some(50f32.to_bits()),
        done,
    };
    apply(&mut panel, progress("half", false));
    apply(&mut panel, progress("all", true));
    assert_eq!(panel.items.len(), 1);
    assert!(matches!(
        &panel.items[0],
        Item::BackgroundTask { summary, done: true, .. } if summary == "all"
    ));
}

#[test]
fn slash_commands_ask_the_session() {
    let mut panel = panel("session-a");
    let operation = |operation| {
        SlashEffect::Send(Command::SessionOperation { session_id: "session-a".into(), operation })
    };
    let mut run = |line: &str| panel.handle_slash_command(line, Claim::Unclaimed, None, "all commands");
    assert_eq!(
        run("/effort xhigh"),
        operation(SessionOperation::SetEffort("xhigh".into()))
    );
    assert_eq!(run("/clear"), operation(SessionOperation::Clear));
    assert_eq!(run(" /rewind 3 "), operation(SessionOperation::Rewind(2)));
    assert_eq!(run("/rewind undo"), operation(SessionOperation::RewindUndo));
    assert_eq!(
        run("/rename New name"),
        operation(SessionOperation::Rename(Some("New name".into())))
    );
    assert_eq!(run("/rename --clear"), operation(SessionOperation::Rename(None)));
    assert_eq!(run("/effort x"), SlashEffect::Handled);
    assert_eq!(run("/rewind 0"), SlashEffect::Handled);
    assert_eq!(run("/rewind soon"), SlashEffect::Handled);
    assert_eq!(run("/help"), SlashEffect::Handled);
    assert_eq!(run("/nope"), SlashEffect::Handled);
    assert_eq!(run("hello"), SlashEffect::NotHandled);
    assert_eq!(run("/model"), SlashEffect::OpenRecoveryModels);
    assert_eq!(run("/update"), SlashEffect::RequestUpdate);
    assert_eq!(
        run("/model m"),
        SlashEffect::Send(Command::SetModel {
            session_id: "session-a".into(),
            model: "m".into()
        })
    );
    assert_eq!(
        run("/cancel"),
        SlashEffect::Cancel(Command::Cancel { session_id: "session-a".into() })
    );
    let said: Vec<&str> = panel
        .items
        .iter()
        .map(|item| match item {
            Item::Assistant(text) | Item::Error(text) => text.as_str(),
            _ => "",
        })
        .collect();
    assert_eq!(said[0], "Reasoning effort set to `xhigh`.");
    assert_eq!(said[2], "Rewound to message 3.");
    assert_eq!(said[6], "Usage: `/effort <none|minimal|low|medium|high|xhigh|max>`");
    assert_eq!(said[7], "Rewind numbering starts at 1.");
    assert_eq!(said[9], "all commands");
    assert_eq!(said[10], "Unknown command: `/nope`. Type `/help` for available commands.");
    assert_eq!(said[11], "Switching model to `m`…");
    panel.update_requested(UpdateRequest::AlreadyChecking);
    assert_eq!(
        panel.items.last(),
        Some(&Item::Assistant("Jcode Desktop is already checking for updates.".into()))
    );
    panel.update_concluded(Err("no network".into()));
    assert_eq!(panel.items.last(), Some(&Item::Error("no network".into())));
}

#[test]
fn commit_commands_wait_like_any_prompt() {
    let mut panel = panel("session-a");
    panel.items.push(Item::User("before".into()));
    let effect = panel.handle_slash_command("/commit", Claim::Unclaimed, None, "");
    assert!(matches!(
        effect,
        SlashEffect::SendPrompt(Command::Send { content, .. })
            if content.starts_with("Make interactive, logical commits")
    ));
    assert_eq!(panel.pending_users, [1]);
    panel.handle_slash_command("/cls", Claim::Unclaimed, None, "");
    assert!(panel.items.is_empty());
    panel.items.push(todos(&["pending"]));
    panel.items.push(Item::User("after".into()));
    panel.handle_slash_command("/todos", Claim::Unclaimed, None, "");
    assert_eq!(panel.items.last(), Some(&todos(&["pending"])));
}

#[test]
fn a_claimed_line_runs_no_command() {
    let mut panel = panel("session-a");
    panel.items.push(Item::User("kept".into()));
    panel.stick_to_bottom = false;
    let effect = panel.handle_slash_command("/cls", Claim::Login, None, "");
    assert_eq!(effect, SlashEffect::Handled);
    assert_eq!(panel.items, [Item::User("kept".into())]);
    assert!(!panel.stick_to_bottom, "a login leaves the conversation where it is");
    let effect = panel.handle_slash_command("/account", Claim::Account, None, "");
    assert_eq!(effect, SlashEffect::Handled);
    assert_eq!(panel.items, [Item::User("kept".into())]);
    assert!(panel.stick_to_bottom, "an answer is shown at the end of the conversation");
    let effect = panel.handle_slash_command("/cls", Claim::Unclaimed, None, "");
    assert_eq!(effect, SlashEffect::ResetStats);
    assert!(panel.items.is_empty());
}

#[test]
fn side_documents_and_previews_have_no_commands() {
    let mut panel = panel("session-a");
    panel.contents.preview = true;
    assert_eq!(panel.handle_slash_command("/clear", Claim::Unclaimed, None, ""), SlashEffect::Preview);
    panel.contents.side_document = true;
    assert_eq!(panel.handle_slash_command("/clear", Claim::Unclaimed, None, ""), SlashEffect::Handled);
    apply(&mut panel, SessionEvent::TextDelta { text: "ignored".into() });
    assert!(panel.streaming_text.is_empty() && panel.items.is_empty());
    assert_eq!(panel.connect_input(), None);
}

#[test]
fn lines_are_read_as_commands() {
    assert_eq!(parse_slash("/model  "), SlashCommand::Models);
    assert_eq!(parse_slash("/rename   "), SlashCommand::BadRename);
    assert_eq!(parse_slash("/rewind +4"), SlashCommand::Rewind(4));
    assert_eq!(parse_slash("/commit-and-push"), SlashCommand::CommitPush);
    assert_eq!(parse_slash("/?"), SlashCommand::Help);
    assert_eq!(parse_slash("/todo"), SlashCommand::Todos);
    assert_eq!(parse_slash("/"), SlashCommand::Unavailable);
    assert_eq!(parse_slash(""), SlashCommand::NotACommand);
}

#[test]
fn submissions_go_where_they_belong() {
    let plain = SubmissionContext {
        has_images: false,
        is_resume: false,
        opens_account: false,
        waiting_for_connection: false,
    };
    let mut panel = panel("session-a");
    let to = |panel: &Panel, line: &str, context| panel.submission_of(line, context);
    assert_eq!(to(&panel, "hi", plain), Submission::TryCommand);
    assert_eq!(to(&panel, " /changelog ", plain), Submission::OpenChangelog);
    assert_eq!(to(&panel, "/onboarding-sim", plain), Submission::ToggleOnboarding);
    assert_eq!(to(&panel, "/login now", plain), Submission::OpenAccounts { login: true });
    assert_eq!(to(&panel, "/account", plain), Submission::TryCommand);
    let account = SubmissionContext { opens_account: true, ..plain };
    assert_eq!(to(&panel, "/account", account), Submission::OpenAccounts { login: false });
    let images = SubmissionContext { has_images: true, ..plain };
    assert_eq!(to(&panel, "/changelog", images), Submission::SubmitOrQueue);
    let resume = SubmissionContext { is_resume: true, ..plain };
    assert_eq!(to(&panel, "/resume", resume), Submission::OpenResume);
    let waiting = SubmissionContext { waiting_for_connection: true, ..plain };
    assert_eq!(to(&panel, "/changelog", waiting), Submission::SubmitOrQueue);
    panel.session_id = "startup://draft/1".into();
    assert_eq!(to(&panel, "/changelog", plain), Submission::SubmitOrQueue);
    assert_eq!(panel.connect_input(), Some(true));
    assert_eq!(panel.status, "Starting session · you can type now");
}

#[test]
fn escape_cancels_overlays_before_the_turn() {
    let mut panel = panel("session-a");
    assert_eq!(panel.overlay_cancelled(), OverlayCancel::Nothing);
    assert!(panel.input_changed("/model "));
    assert!(panel.model_picker_open);
    assert!(!panel.input_changed("/model x") || panel.model_picker_open);
    panel.recovery_picker_open = true;
    panel.streaming_text = "live".into();
    assert_eq!(panel.overlay_cancelled(), OverlayCancel::ClosedRecovery);
    assert_eq!(panel.overlay_cancelled(), OverlayCancel::ClosedModels);
    assert_eq!(panel.overlay_cancelled(), OverlayCancel::StoppedTurn { send: true });
    assert!(panel.queue_paused);
    panel.model_picker_open = true;
    assert!(panel.input_changed("hello"));
    assert!(!panel.model_picker_open);
}

#[test]
fn panels_know_what_they_are() {
    let session = panel("session-a");
    assert!(session.can_fork() && session.can_refresh_account_runtime());
    assert_eq!(session.surface(), Surface::Conversation);
    assert_eq!(session.input_focus(false, false), FocusTarget::Input);
    assert_eq!(session.input_focus(true, true), FocusTarget::Login);
    assert!(!session.has_scrollable_conversation());
    for id in ["desktop://changelog", "settings://machines", "settings://default-directory"] {
        assert!(!panel(id).can_fork());
        assert!(panel(id).has_scrollable_conversation());
    }
    assert!(panel("startup://draft").is_startup_draft());
    assert!(panel("startup://draft/2").is_pending_session());
    assert!(!panel("startup://drafts").is_pending_session());
    assert!(!Panel::is_pending_session_id("session-a"));
    let accounts = Panel::new_accounts("session-a", true);
    assert_eq!(accounts.session_id, "accounts://session-a");
    assert_eq!(accounts.surface(), Surface::Accounts);
    assert!(accounts.contents.preview && accounts.contents.login);
    assert_eq!(Panel::new_gmail().surface(), Surface::Mail);
    assert!(!Panel::new_gmail().can_refresh_account_runtime());
    assert_eq!(Panel::new_todoist().title, "todos");
    assert_eq!(Panel::new_todoist().surface(), Surface::Tasks);
    let terminal = Panel::new_terminal(Some("/tmp".into()), vec![]);
    assert_eq!(terminal.input_focus(false, false), FocusTarget::Terminal);
    let unfinished = Panel::new_unfinished_work(vec![]);
    assert_eq!(unfinished.surface(), Surface::UnfinishedWork);
    assert!(!unfinished.can_fork());
    let file = Panel::new_code_file("/a/b.rs", Some("b.rs".into()), Some("/a".into()));
    assert_eq!((file.session_id.as_str(), file.title.as_str()), ("file:///a/b.rs", "b.rs"));
    assert_eq!(file.input_focus(false, false), FocusTarget::Panel);
}

#[test]
fn escape_closes_the_foremost_layer() {
    let mut panel = panel("session-a");
    panel.contents.login = true;
    panel.recovery_picker_open = true;
    panel.contents.diff_review = true;
    panel.contents.image_preview = true;
    assert_eq!(panel.escape_pressed(), Escape::Login { panel: false });
    assert_eq!(panel.escape_pressed(), Escape::Recovery);
    assert_eq!(panel.escape_pressed(), Escape::DiffReview);
    assert_eq!(panel.escape_pressed(), Escape::ImagePreview);
    assert_eq!(panel.escape_pressed(), Escape::Nothing);
    let mut accounts = Panel::new_accounts("session-a", false);
    assert_eq!(accounts.escape_pressed(), Escape::Login { panel: true });
}

#[test]
fn a_draft_takes_up_its_session_in_place() {
    let mut panel = panel("startup://draft");
    panel.items.push(Item::User("typed early".into()));
    let waiting = panel.attach_startup_session(SessionInfo {
        session_id: "session_fox_1".into(),
        working_dir: Some("/work".into()),
        title: Some("Named".into()),
        status: "idle".into(),
        transcript_bytes: None,
        saved: false,
        updated_at_ms: None,
        last_active_at_ms: None,
        archived: false,
        archived_at_ms: None,
        parent_session_id: None,
        agent_label: None,
        swarm_status: None,
        edit_stats: None,
    });
    assert!(waiting);
    assert_eq!(panel.title, "Named");
    assert_eq!(panel.working_dir.as_deref(), Some("/work"));
    assert_eq!(panel.items.len(), 1);
}

#[test]
fn what_is_kept_of_a_panel_comes_back() {
    let mut panel = panel("session-a");
    panel.title = "Kept".into();
    panel.stick_to_bottom = false;
    panel.image_pane_open = true;
    panel.startup_layout = Some(false);
    let keepsakes = || Keepsakes {
        prompt_queue: "queue".into(),
        draft: "half a thought".into(),
        side_document: Some("page".into()),
    };
    let kept = panel.snapshot(1, 2, Some((None, 9)), keepsakes());
    assert_eq!(kept.startup_layout, None, "only a layout that was taken up is kept");
    assert_eq!(kept.terminal_output_cursor, Some(9));
    let mut again = Panel::new("session-a".into(), None, None, vec![]);
    assert_eq!(
        again.restore_snapshot(panel.snapshot(1, 2, None, keepsakes())),
        Handed::Conversation { prompt_queue: "queue".into(), draft: "half a thought".into() }
    );
    assert_eq!(again.pending_history_scroll, Some((1, 2)));
    assert!(again.image_pane_open && !again.stick_to_bottom);
    assert_eq!(
        again.snapshot(1, 2, None, keepsakes()),
        panel.snapshot(1, 2, None, keepsakes())
    );
    again.contents.side_document = true;
    again.title = "Document".into();
    assert_eq!(
        again.restore_snapshot(panel.snapshot(1, 2, None, keepsakes())),
        Handed::Document(Some("page".into()))
    );
    assert_eq!(again.title, "Document");
}

#[test]
fn files_are_numbered_or_refused() {
    assert_eq!(
        code_rows("a\n\nb"),
        [("1".into(), "a".into()), ("2".into(), " ".into()), ("3".into(), "b".into())]
    );
    assert!(code_rows("").is_empty());
    assert_eq!(too_large(MAX_FILE_BYTES), None);
    assert_eq!(
        too_large(2_097_153).as_deref(),
        Some("file is too large to preview (2097153 bytes)")
    );
    assert_eq!(unreadable(false, "stream did not contain"), "binary files cannot be previewed");
    assert_eq!(unreadable(true, "denied"), "denied");
}

#[test]
fn unfinished_work_changes_only_when_it_differs() {
    let work = |status: &str| {
        vec![UnfinishedSession {
            session_id: "s".into(),
            title: "t".into(),
            working_dir: None,
            todos: vec![UnfinishedTodo {
                content: "c".into(),
                status: status.into(),
                group: None,
            }],
        }]
    };
    let mut shown = None;
    assert!(set_unfinished_work(&mut shown, work("pending")));
    assert!(!set_unfinished_work(&mut shown, work("pending")));
    assert!(set_unfinished_work(&mut shown, work("In_Progress")));
    let todo = &shown.as_ref().unwrap()[0].todos[0];
    assert_eq!(todo_mark(todo), "◐");
    assert_eq!(todo_mark(&work("pending")[0].todos[0]), "○");
}

#[test]
fn a_drawn_panel_needs_no_drawing() {
    let mut panel = panel("ssh://host/session");
    let context = || DrawContext {
        home: Some("/home/me"),
        end_visible: false,
        startup_preview: false,
        fonts: ("ui", "ai", "mono"),
    };
    let view = panel.render(context());
    assert!(view.plan.fresh && view.plan.spacious && !view.input_below);
    assert_eq!(view.remote.as_deref(), Some("SSH · host"));
    assert_eq!(view.model, "Choose model");
    assert_eq!(view.account, "Accounts");
    assert_eq!(view.status, "Ready");
    assert_eq!(view.latest, None);
    assert_eq!(view.placement, Placement::End);

    panel.stick_to_bottom = false;
    panel.working_dir = Some("/home/me/code".into());
    panel.status = "running".into();
    panel.items.push(Item::User("hi".into()));
    panel.items.push(todos(&["pending"]));
    panel.pending_history_scroll = Some((3, 4));
    let view = panel.render(context());
    assert_eq!(view.plan.row_count, 2);
    assert_eq!(view.plan.splice, Some((0, 0, 2)));
    assert_eq!(view.stale, Some((0, 2)));
    assert_eq!(view.scroll, Some((3, 4)));
    assert_eq!(view.folder.as_deref(), Some("~/code"));
    assert_eq!(view.latest, Some(Some("Working".into())));
    assert_eq!(view.pinned.map(|payload| payload.todos.len()), Some(1));
    assert!(!view.unfolded && view.build && view.effort.is_none());
    assert_eq!(prompt_rows(&view.rows, &vec![true, true]), [(0, 0)]);
    assert!(prompt_rows(&view.rows, &vec![false]).is_empty());
    assert!(view.input_below && !view.plan.fresh);
    assert_eq!(view.placement, Placement::Kept);
    let start = DrawContext { startup_preview: true, ..context() };
    assert_eq!(panel.render(start).placement, Placement::Start);

    panel.reasoning_effort = Some("high".into());
    panel.show_build_footer = false;
    panel.toggle_pinned_todos();
    panel.toggle_model_choice();
    let view = panel.render(context());
    assert!(view.unfolded && !view.build && view.recovery);
    assert_eq!(view.effort.as_deref(), Some("high"));
    assert_eq!((view.plan.splice, view.stale, view.scroll), (None, None, None));
    panel.status = "idle".into();
    let view = panel.render(context());
    assert_eq!(view.plan.splice, Some((1, 2, 0)), "only the end is trimmed");
}

#[test]
fn status_lines_prefer_what_the_transport_does() {
    let mut panel = panel("session-a");
    panel.connection_phase = "waiting_for_slot".into();
    assert_eq!(panel.status_line(), "waiting for slot");
    panel.connection_phase = " streaming ".into();
    assert_eq!(panel.status_line(), "Responding");
    panel.status = "running_tools".into();
    assert_eq!(panel.status_line(), "Running tools");
    panel.status = "lost: gone".into();
    assert!(!panel.activity_active());
    panel.connection_phase.clear();
    panel.status = "rate_limited".into();
    assert_eq!(panel.status_line(), "rate limited");
}

#[test]
fn images_are_links_while_their_pane_is_open() {
    let mut panel = panel("session-a");
    let images = vec![image(None, None, "chart")];
    apply(&mut panel, SessionEvent::SidePaneImages { images });
    let chart = panel.render_item(&panel.items[0], item_context());
    let Item::Image(shown) = &panel.items[0] else { panic!("not an image") };
    let displayed = shown.preview.is_some();
    assert!(matches!(chart, ItemRow::Image { displayed: drawn, .. } if drawn == displayed));
    panel.image_pane_open = true;
    assert_eq!(panel.render_item(&panel.items[0], item_context()), ItemRow::ImageLink);
    assert_eq!(panel.render_item(&Item::Error("no".into()), item_context()), ItemRow::Failure);
    let stats = ResponseStats {
        duration_secs_bits: None,
        tool_calls: 0,
        summary: String::new(),
        empty: false,
    };
    assert_eq!(panel.render_item(&Item::ResponseStats(stats), item_context()), ItemRow::Figures);
}

fn item_context() -> ItemContext<'static> {
    ItemContext {
        summary: Some("run the suite"),
        edit: false,
        expanded: false,
        moving: false,
        tokens: "1.9k",
        severity: TokenSeverity::Warning,
    }
}

#[test]
fn tool_calls_are_lines_that_unfold() {
    let panel = panel("session-a");
    let call = |name: &str, output: &str, done, error: Option<&str>| Item::Tool {
        call_id: "1".into(),
        name: name.into(),
        input: "{}".into(),
        output: output.into(),
        done,
        error: error.map(Into::into),
    };
    let bash = call("bash", "all good", false, Some("\u{1b}[31mbad\u{1b}[0m"));
    let ItemRow::Tool(line) = panel.render_item(&bash, item_context()) else {
        panic!("a call is a line")
    };
    assert_eq!(line.summary.as_deref(), Some("run the suite"));
    assert!(line.running);
    assert_eq!(line.badge, Some(("~1.9k".into(), Tone::Warn)));
    assert_eq!(line.detail, None);
    assert_eq!(line.error.as_deref(), Some("bad"));
    let unfolded = ItemContext { expanded: true, ..item_context() };
    let ItemRow::Tool(line) = panel.render_item(&bash, unfolded) else {
        panic!("a call is a line")
    };
    assert!(line.detail.unwrap().contains("all good"));
    let edit = ItemContext { edit: true, ..item_context() };
    assert_eq!(panel.render_item(&bash, edit), ItemRow::Edit);
    let list = r#"[{"content":"one","status":"pending","priority":"high","id":"1"}]"#;
    let edit = ItemContext { edit: true, ..item_context() };
    assert!(matches!(
        panel.render_item(&call("todo", list, true, None), edit),
        ItemRow::Card(card) if card.progress == "0 of 1 complete"
    ));
}

#[test]
fn unfolding_twice_changes_nothing() {
    let mut expanded = vec!["a".to_owned()];
    assert!(!toggle_tool(&mut expanded, "b"));
    assert_eq!(expanded, ["a", "b"]);
    assert!(toggle_tool(&mut expanded, "b"));
    assert_eq!(expanded, ["a"]);
}
