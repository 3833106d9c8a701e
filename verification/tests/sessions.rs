//! What the store keeps of sessions, and the sidebar made of it.
use jcode_desktop_ui::events::SessionInfo;
use jcode_desktop_ui::json::{parse_json, Json};
use jcode_desktop_ui::sessions::{
    json_string_field, json_value_field, merge_persisted_sessions, persisted_session_status,
    persisted_todo_title, read_archive, read_persisted_session, recent_files, title_of_todos,
    unfinished_sessions, PersistedSession, PersistedTodo, SessionFile, SessionStore, TodoFile,
    MAX_PERSISTED_SIDEBAR_SESSIONS, SIDEBAR_METADATA_WINDOW,
};

fn session_info(id: &str) -> SessionInfo {
    SessionInfo {
        session_id: id.into(),
        working_dir: None,
        title: None,
        status: "idle".into(),
        transcript_bytes: None,
        saved: false,
        updated_at_ms: None,
        last_active_at_ms: None,
        archived: false,
        archived_at_ms: None,
        parent_session_id: None,
        agent_label: None,
        swarm_status: None,
        edit_stats: None,
    }
}

fn record(json: &str) -> Option<PersistedSession> {
    let value = parse_json(json)?;
    let text = |name: &str| value.field_text(name).map(|text| text.to_string());
    Some(PersistedSession {
        working_dir: text("working_dir"),
        title: text("title"),
        custom_title: text("custom_title"),
        saved: false,
        status: parse_json("null").unwrap(),
    })
}

fn file(id: &str, modified_ms: u128, json: &str) -> SessionFile {
    SessionFile {
        id: id.into(),
        modified_ms,
        transcript_bytes: Some(json.len() as u64),
        record: record(json),
    }
}

fn store(archived: &[&str], files: Vec<SessionFile>) -> SessionStore {
    SessionStore {
        archived: archived.iter().map(|id| id.to_string()).collect(),
        files,
        todo_files: vec![],
    }
}

fn ids(sessions: &[SessionInfo]) -> Vec<&str> {
    sessions.iter().map(|session| session.session_id.as_str()).collect()
}

fn todo(content: &str, status: &str, group: Option<&str>) -> PersistedTodo {
    PersistedTodo {
        content: content.into(),
        status: status.into(),
        group: group.map(|group| group.to_string()),
    }
}

#[test]
fn persisted_status_handles_unit_and_detail_variants() {
    assert_eq!(persisted_session_status(&parse_json("\"Closed\"").unwrap()), "closed");
    assert_eq!(
        persisted_session_status(
            &parse_json(r#"{"Crashed": { "message": "process exited" }}"#).unwrap()
        ),
        "crashed"
    );
    assert_eq!(persisted_session_status(&parse_json("null").unwrap()), "idle");
    assert_eq!(persisted_session_status(&Json::Text("RATE_LIMITED".into())), "rate_limited");
    assert_eq!(persisted_session_status(&Json::Text("Sleeping".into())), "idle");
}

#[test]
fn persisted_sessions_fill_sidebar_in_last_interaction_order_without_duplicates_or_archives() {
    let archived = read_archive(r#"{"sessions":{"archived":123}}"#);
    assert_eq!(archived, ["archived"]);
    let files = |older: u128| {
        vec![
            file("older", older, r#"{"working_dir":"/old","title":"Old title"}"#),
            file(
                "newer",
                2_000,
                r#"{"working_dir":"/new","title":"Generated","custom_title":"Latest title"}"#,
            ),
            file("archived", 2_001, r#"{"title":"Hidden"}"#),
            file("malformed", 2_002, "not json"),
        ]
    };
    let home = store(&["archived"], files(1_000));
    let merged = merge_persisted_sessions(vec![session_info("older")], Some(&home));
    assert_eq!(ids(&merged), ["older", "newer"]);
    assert_eq!(merged[1].title.as_deref(), Some("Latest title"));
    assert_eq!(merged[1].working_dir.as_deref(), Some("/new"));
    assert!(merged[1].transcript_bytes.is_some());

    let home = store(&["archived"], files(3_000));
    let merged = merge_persisted_sessions(Vec::new(), Some(&home));
    assert_eq!(ids(&merged), ["newer", "older"]);
}

#[test]
fn persisted_sidebar_bounds_transcript_parsing_to_recent_sessions() {
    let files = (0..MAX_PERSISTED_SIDEBAR_SESSIONS + 20)
        .map(|index| {
            file(
                &format!("session-{index:03}"),
                1_000 + index as u128,
                &format!(r#"{{"title":"Session {index}"}}"#),
            )
        })
        .collect();
    let home = store(&[], files);
    let recent = recent_files(&home, &vec![]);
    assert_eq!(recent.len(), MAX_PERSISTED_SIDEBAR_SESSIONS);
    assert_eq!(recent[0].id, "session-119");
    assert_eq!(recent[99].id, "session-020");
    let merged = merge_persisted_sessions(Vec::new(), Some(&home));
    assert_eq!(merged.len(), MAX_PERSISTED_SIDEBAR_SESSIONS);
    assert_eq!(merged[0].session_id, "session-020");
}

#[test]
fn persisted_sidebar_reads_large_transcript_metadata_from_file_edges() {
    let padding = "x".repeat(SIDEBAR_METADATA_WINDOW * 3);
    let document = format!(
        r#"{{"title":"Quick title","messages":[{{"text":"{padding}"}}],"working_dir":"/large/project"}}"#
    );
    let bytes = document.as_bytes();
    let head = &bytes[..SIDEBAR_METADATA_WINDOW];
    let tail = &bytes[bytes.len() - SIDEBAR_METADATA_WINDOW..];
    let record = read_persisted_session(head, tail);
    assert_eq!(record.title.as_deref(), Some("Quick title"));
    assert_eq!(record.working_dir.as_deref(), Some("/large/project"));
}

#[test]
fn persisted_sidebar_uses_tui_todo_title_for_live_sessions() {
    let mut home = store(&[], vec![]);
    home.todo_files.push(TodoFile {
        session_id: "live".into(),
        todos: Some(vec![todo("Fallback item", "in_progress", Some("Sidebar performance"))]),
        user_intention: None,
    });
    let mut live = session_info("live");
    live.title = None;

    let merged = merge_persisted_sessions(vec![live], Some(&home));
    assert_eq!(merged[0].title.as_deref(), Some("Sidebar performance"));
}

#[test]
fn full_api_page_is_ready_without_scanning_persisted_transcripts() {
    let home = store(
        &[],
        vec![file("disk-only", 5_000, r#"{"title":"Must not delay the API page"}"#)],
    );
    let api_sessions = (0..MAX_PERSISTED_SIDEBAR_SESSIONS)
        .map(|index| session_info(&format!("api-{index:03}")))
        .collect::<Vec<_>>();
    let merged = merge_persisted_sessions(api_sessions, Some(&home));

    assert_eq!(merged.len(), MAX_PERSISTED_SIDEBAR_SESSIONS);
    assert_eq!(merged[0].session_id, "api-099");
    assert_eq!(merged.last().unwrap().session_id, "api-000");
    assert!(merged.iter().all(|session| session.session_id != "disk-only"));
}

#[test]
fn without_a_store_the_runtime_stands_alone() {
    let merged =
        merge_persisted_sessions(vec![session_info("b"), session_info("a")], None);
    assert_eq!(merged.len(), 2);
}

#[test]
fn fields_are_found_from_either_edge() {
    let bytes = br#"{"title": "first", "nested": {"title":"second \"quoted\""}}"#;
    assert_eq!(json_string_field(bytes, "title", false).as_deref(), Some("first"));
    assert_eq!(json_string_field(bytes, "title", true).as_deref(), Some("second \"quoted\""));
    assert_eq!(json_string_field(bytes, "missing", false), None);
    assert_eq!(json_string_field(br#"{"title" : "apart"}"#, "title", false), None);
    assert_eq!(json_string_field(br#"{"title": 3}"#, "title", false), None);
    assert_eq!(json_value_field(br#"{"saved":true,"x":1"#, "saved", false), Some(Json::Bool(true)));
    assert_eq!(json_value_field(br#"{"saved":"#, "saved", false), None);
}

#[test]
fn titles_come_from_the_todo_in_progress() {
    let todos = vec![
        todo("Done", "completed", Some("Old")),
        todo("Now", "In_Progress", Some("  ")),
        todo("Later", "pending", Some("Next")),
    ];
    assert_eq!(title_of_todos(&todos, None).as_deref(), Some("Now"));
    let home = store(&[], vec![]);
    assert_eq!(persisted_todo_title(&home, "unknown"), None);
}

#[test]
fn closed_sessions_leave_their_open_todos() {
    let mut home = store(&[], vec![]);
    home.todo_files.push(TodoFile {
        session_id: "left".into(),
        todos: Some(vec![
            todo("Done", "completed", None),
            todo("Open", "pending", Some("Group")),
        ]),
        user_intention: None,
    });
    let mut left = session_info("left");
    left.status = "closed".into();
    left.title = Some("Left work".into());
    let mut running = session_info("running");
    running.status = "running".into();
    let unfinished = unfinished_sessions(&vec![left, running], &home);
    assert_eq!(unfinished.len(), 1);
    assert_eq!(unfinished[0].session_id, "left");
    assert_eq!(unfinished[0].title, "Left work");
    assert_eq!(unfinished[0].todos.len(), 1);
    assert_eq!(unfinished[0].todos[0].content, "Open");
    assert_eq!(unfinished[0].todos[0].group.as_deref(), Some("Group"));
}
