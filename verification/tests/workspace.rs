//! Tabs, tasks and the mailbox.
use jcode_desktop_ui::events::ImageSource;
use jcode_desktop_ui::mail::{
    badges_of, initial_of, GmailInboxState, GmailMessageState, GmailMessageSummary, MailBody, Mailbox,
};
use jcode_desktop_ui::order::stable_order;
use jcode_desktop_ui::tabs::{
    active_group, entries, group_count, groups, paint_order, selected, tab_hint, tab_key, tab_label,
    Slot, TabSession,
};
use jcode_desktop_ui::todoist::{
    todoist_named_color, todoist_priority_color, TodoistLoadState, TodoistPanelState,
    TodoistProject, TodoistTask,
};
use jcode_desktop_ui::todos::Tone;
use jcode_desktop_ui::transcript::TranscriptImage;

fn slot(row: usize, closing: bool, key: u64) -> Slot {
    Slot { row, closing, key }
}

#[test]
fn rows_sort_by_both_keys_and_keep_ties_in_place() {
    assert_eq!(stable_order(&vec![(2, 0), (1, 9), (1, 3), (2, 0)]), [2, 1, 0, 3]);
}

#[test]
fn tabs_follow_the_rows_and_leave_with_their_panels() {
    let slots = vec![slot(1, false, 10), slot(0, false, 11), slot(1, true, 12), slot(1, false, 13)];
    let tabs = entries(&slots, 3, 2);
    let seen: Vec<_> = tabs.iter().map(|tab| (tab.slot, tab.row, tab.position)).collect();
    assert_eq!(
        seen,
        [(Some(1), 0, 0), (Some(0), 1, 0), (Some(3), 1, 1), (None, 2, 0)]
    );
    assert_eq!(selected(&tabs, 2, 0), 3, "an empty row is in focus by itself");
    assert_eq!(selected(&tabs, 1, 3), 2);
    assert_eq!(selected(&tabs, 1, 2), 0, "a closing panel has no tab");
    assert_eq!(tab_key(tabs[2], &slots), 13);
    assert_eq!(tab_key(tabs[3], &slots), u64::MAX - 2);
    let rows = tabs.iter().map(|tab| tab.row).collect();
    assert_eq!(groups(&rows), [(0, 1), (1, 3), (3, 4)]);
    assert_eq!(group_count(&tabs), 3);
    assert_eq!(active_group(&groups(&rows), 2), Some(1));
    assert_eq!(active_group(&groups(&rows), 9), None);
    assert_eq!(tab_hint(2, "Empty workspace"), "Workspace 3 · Empty workspace");
}

#[test]
fn the_tab_in_focus_is_painted_last() {
    assert_eq!(paint_order(5, 2), [0, 1, 4, 3, 2]);
    assert_eq!(paint_order(1, 0), [0]);
    assert_eq!(paint_order(3, 0), [2, 1, 0]);
    assert_eq!(groups(&vec![0, 0, 1, 1, 1, 3, 3]), [(0, 2), (2, 5), (5, 7)]);
    assert!(groups(&vec![]).is_empty());
}

fn task(id: &str, priority: u8) -> TodoistTask {
    TodoistTask {
        id: id.into(),
        content: id.into(),
        project_id: "p".into(),
        priority,
        due: None,
    }
}

#[test]
fn a_completed_task_is_gone() {
    let mut state = TodoistPanelState::new();
    state.refreshed(Ok((vec![task("a", 1), task("b", 4)], vec![])));
    assert_eq!(state.load, TodoistLoadState::Ready);
    assert_eq!(state.new_task("  "), None);
    assert_eq!(state.new_task(" write "), Some(("write".into(), None)));
    state.complete("a");
    state.complete("a");
    assert_eq!(state.busy_tasks, ["a"]);
    state.completed(Ok("a".into()));
    let left: Vec<_> = state.tasks.iter().map(|task| task.id.as_str()).collect();
    assert_eq!(left, ["b"]);
    assert!(state.busy_tasks.is_empty());
    state.completed(Err("offline".into()));
    assert_eq!(state.load, TodoistLoadState::Error("offline".into()));
    state.created(Ok(task("c", 2)));
    assert_eq!(state.tasks.len(), 2);
    assert_eq!(todoist_priority_color(4), Tone::Bad);
    assert_eq!(todoist_named_color(None), Tone::Faint);
    assert_eq!(todoist_named_color(Some("teal")), Tone::Accent);
}

fn mail(id: &str) -> GmailMessageSummary {
    GmailMessageSummary {
        id: id.into(),
        from: "ada".into(),
        subject: format!("about {id}"),
        date: String::new(),
        snippet: String::new(),
        unread: false,
        important: false,
        starred: false,
        category: None,
    }
}

#[test]
fn the_mailbox_shows_the_message_before_the_list() {
    let mut mailbox = Mailbox { inbox: GmailInboxState::Loading, message: None };
    assert_eq!(mailbox.body(), MailBody::InboxLoading);
    mailbox.inbox_loaded(Ok(vec![]));
    assert_eq!(mailbox.body(), MailBody::InboxEmpty);
    mailbox.inbox_loaded(Err("no token".into()));
    assert_eq!(mailbox.body(), MailBody::InboxFailed { error: "no token".into() });
    mailbox.open(mail("a"));
    assert_eq!(mailbox.body(), MailBody::MessageLoading { subject: "about a".into() });
    assert_eq!(mailbox.title(), "Gmail  ·  Message");
    mailbox.message_loaded(Err("gone".into()));
    assert_eq!(
        mailbox.body(),
        MailBody::MessageFailed { subject: "about a".into(), error: "gone".into() }
    );
    assert!(matches!(mailbox.message, Some(GmailMessageState::Error(..))));
    mailbox.close();
    assert_eq!(mailbox.body(), MailBody::InboxFailed { error: "no token".into() });
    mailbox.refresh();
    assert_eq!(mailbox.title(), "Gmail  ·  Email");
    assert_eq!(initial_of("ada"), "A");
}

#[test]
fn urgent_tasks_of_the_project_come_first() {
    let mut state = TodoistPanelState::new();
    assert_eq!(state.empty_message(), "Loading Todoist…");
    let mut elsewhere = task("b", 4);
    elsewhere.project_id = "q".into();
    let project = TodoistProject { id: "p".into(), name: "Home".into(), color: None };
    let mut due = task("d", 4);
    due.due = Some("today".into());
    state.refreshed(Ok((vec![task("a", 1), elsewhere, task("c", 3), due], vec![project])));
    assert_eq!(state.listed_tasks(), [1, 3, 2, 0]);
    state.selected_project = Some("p".into());
    assert_eq!(state.listed_tasks(), [3, 2, 0]);
    assert_eq!(state.heading(), "4 open · synced with Todoist");
    assert_eq!(state.empty_message(), "No open tasks in this view.");
    state.complete("d");
    let notes = state.notes(&state.tasks[3]);
    assert_eq!(notes.due.as_deref(), Some("◷ today"));
    assert_eq!(notes.project.as_deref(), Some("# Home"));
    assert_eq!(notes.priority.as_deref(), Some("P1"));
    assert!(notes.busy);
    assert_eq!(state.notes(&state.tasks[0]).priority, None);
    state.refreshed(Err("no token".into()));
    assert_eq!(
        state.empty_message(),
        "no token\n\nSet TODOIST_API_TOKEN, then refresh. The token is never written to Jcode config."
    );
}

#[test]
fn badges_show_what_a_message_is() {
    assert!(badges_of(&mail("a")).is_empty());
    assert_eq!(badges_of(&GmailMessageSummary { starred: true, ..mail("a") }), ["Starred"]);
    let all = GmailMessageSummary {
        unread: true,
        important: true,
        starred: true,
        category: Some("Updates".into()),
        ..mail("a")
    };
    assert_eq!(badges_of(&all), ["Unread", "Important", "Starred", "Updates"]);
}

#[test]
fn images_for_the_model_say_so() {
    let image = |source| TranscriptImage {
        media_type: "image/png".into(),
        data: String::new(),
        label: None,
        preview: None,
        source,
        anchor: None,
    };
    let read = ImageSource::ToolResult { tool_name: "read".into() };
    assert_eq!(image(read).model_input_caption(), Some("Image provided to model"));
    assert_eq!(image(ImageSource::UserInput).model_input_caption(), None);
}

#[test]
fn a_row_without_sessions_says_so() {
    let label = |title: &str, icon: &str| (title.to_owned(), icon.to_owned());
    assert_eq!(tab_label(None), label("Empty workspace", "📁"));
    let session = TabSession { session_id: "session_fox_1", title: "Fix  the\nbuild", icon: Some("🦊") };
    assert_eq!(tab_label(Some(session)), label("Fix the build", "🦊"));
    assert_eq!(
        tab_label(Some(TabSession { title: "", icon: None, ..session })),
        label("New session", "💫")
    );
}
