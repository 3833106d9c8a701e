//! Sample transcripts, the todo card, and scrolling.
use jcode_desktop_ui::cards::{
    render_pinned_todo_summary, render_todo_card, render_todo_marker, TodoMarker,
};
use jcode_desktop_ui::demo::{demo_item_fixtures, demo_items, demo_runtime, demo_usage, Material};
use jcode_desktop_ui::events::{
    ApiEvent, ImageAnchor, ImageSource, ModelUsage, ResponseStats, SessionEvent,
};
use jcode_desktop_ui::panel::Panel;
use jcode_desktop_ui::scroll::{wheel_frame, ScrollInput, WheelFrame};
use jcode_desktop_ui::todoist::{TodoistLoadState, TodoistPanelState};
use jcode_desktop_ui::todos::{
    pinned_todo_label, PinnedTodoSummary, TodoCardItem, TodoCardPayload, TodoCardPlan, Tone,
};
use jcode_desktop_ui::transcript::{Item, TranscriptImage};

fn stats() -> ResponseStats {
    ResponseStats {
        duration_secs_bits: Some(2.5_f64.to_bits()),
        tool_calls: 3,
        summary: "2.5s".into(),
        empty: false,
    }
}

fn material() -> Material {
    Material {
        stats: stats(),
        prompts: vec![Item::User("prompt".into())],
        tool_streaming: vec![Item::Error("arriving".into())],
        diff: vec![Item::Assistant("diff".into())],
        image: TranscriptImage {
            media_type: "image/png".into(),
            data: "AAAA".into(),
            label: Some("chart".into()),
            preview: None,
            source: ImageSource::UserInput,
            anchor: None,
        },
        change_review: "+line\n".into(),
        font_pairings: "<p>".into(),
        mermaid: None,
        first_thought: "one".into(),
        second_thought: "two".into(),
    }
}

fn pictured(name: &str) -> Vec<Item> {
    demo_items(true, Some(name), false, material())
}

#[test]
fn samples_appear_only_where_they_are_asked_for() {
    assert!(demo_items(false, Some("tokens"), false, material()).is_empty());
    assert_eq!(demo_items(false, Some("tokens"), true, material()).len(), 9);
    assert_eq!(demo_items(true, None, false, material()), demo_item_fixtures(stats()));
    assert_eq!(pictured("no such sample"), demo_item_fixtures(stats()));
    assert!(pictured("empty").is_empty());
    assert_eq!(pictured("prompts"), [Item::User("prompt".into())]);
    assert_eq!(pictured("tool-streaming"), [Item::Error("arriving".into())]);
    assert_eq!(pictured("diff"), [Item::Assistant("diff".into())]);
}

#[test]
fn the_percentage_of_a_sample_task_is_a_number() {
    let items = pictured("background-tasks");
    assert_eq!(items.len(), 4);
    assert_eq!(
        items[1],
        Item::BackgroundTask {
            task_id: "running".into(),
            label: "Workspace tests".into(),
            summary: "35% · Running integration tests".into(),
            percent_bits: Some(35.0_f32.to_bits()),
            done: false,
        }
    );
}

#[test]
fn every_tool_has_a_sample_call() {
    let items = pictured("tool-icons");
    assert_eq!(items.len(), 19);
    let tool = |index: usize, name: &str, done, error: Option<&str>| Item::Tool {
        call_id: format!("icon-{index}"),
        name: name.into(),
        input: format!("{{\"intent\":\"{name} tool\"}}"),
        output: "Done".into(),
        done,
        error: error.map(Into::into),
    };
    assert_eq!(items[0], tool(0, "read", true, None));
    assert_eq!(items[5], tool(5, "bash", false, None));
    assert_eq!(items[11], tool(11, "gmail", true, Some("Example error")));
    assert_eq!(items[18], tool(18, "custom_tool", true, None));
}

#[test]
fn sample_inputs_are_json() {
    for name in ["tool-icons", "tokens", "image"] {
        for item in pictured(name) {
            if let Item::Tool { input, .. } = item {
                assert!(serde_json::from_str::<serde_json::Value>(&input).is_ok());
            }
        }
    }
}

#[test]
fn the_long_sample_takes_turns() {
    let items = pictured("long-history");
    assert_eq!(items.len(), 10_000);
    let text = |index: usize| {
        format!("Message {index}: **formatted** text and `inline code`.\n\nA second paragraph for layout.")
    };
    assert_eq!(items[0], Item::User(text(0)));
    assert_eq!(items[9_999], Item::Assistant(text(9_999)));
}

#[test]
fn token_samples_go_from_nothing_to_far_too_much() {
    let items = pictured("tokens");
    let outputs: Vec<usize> = items
        .iter()
        .filter_map(|item| match item {
            Item::Tool { output, .. } => Some(output.len()),
            _ => None,
        })
        .collect();
    assert_eq!(outputs, [7_600, 16_000, 48_000, 0, 4]);
    assert_eq!(items[7], Item::ResponseStats(stats()));
}

#[test]
fn samples_are_put_together_from_their_parts() {
    let said = |name: &str| match pictured(name).pop() {
        Some(Item::Assistant(text)) => text,
        other => panic!("{other:?}"),
    };
    assert_eq!(
        said("diff-rich"),
        "The title now has a clearer fallback and a Unicode-safe length limit.\n\n```diff\n+line\n```"
    );
    assert!(said("mermaid").starts_with("Here is a Mermaid diagram:\n\n```mermaid\nflowchart LR\n"));
    assert!(said("html").ends_with("```html-preview\n<p>\n```"));
    assert!(said("reasoning").starts_with("one\ntwo\nThinking now appears"));
    let own = Material { mermaid: Some("graph".into()), ..material() };
    assert_eq!(
        demo_items(true, Some("mermaid"), false, own)[1],
        Item::Assistant("Here is a Mermaid diagram:\n\n```mermaid\ngraph\n```".into())
    );
    match &pictured("image")[2] {
        Item::Image(image) => {
            assert_eq!(image.source, ImageSource::ToolResult { tool_name: "read".into() });
            assert_eq!(image.anchor, Some(ImageAnchor::ToolCall { id: "read-chart".into() }));
            assert_eq!(image.label.as_deref(), Some("chart"));
        }
        other => panic!("{other:?}"),
    }
    assert_eq!(pictured("todos-completed").len(), 3);
    assert_eq!(pictured("streaming").len(), 2);
}

#[test]
fn the_survey_builds_ninety_crates() {
    match &demo_item_fixtures(stats())[4] {
        Item::Tool { output, .. } => {
            assert_eq!(output.lines().count(), 90);
            assert_eq!(
                output.lines().last(),
                Some("\u{1b}[32m   Compiling\u{1b}[0m crate-89 v0.1.89")
            );
        }
        other => panic!("{other:?}"),
    }
}

fn todo(content: &str, status: &str, group: Option<&str>) -> TodoCardItem {
    TodoCardItem {
        content: content.into(),
        status: status.into(),
        group: group.map(Into::into),
        blocked_by: vec![],
    }
}

fn payload(todos: Vec<TodoCardItem>, intention: Option<&str>) -> TodoCardPayload {
    TodoCardPayload { todos, plan: TodoCardPlan { user_intention: intention.map(Into::into) } }
}

#[test]
fn the_card_lists_every_todo_in_its_section() {
    let card = render_todo_card(&payload(
        vec![
            todo("loose", "pending", None),
            todo("a", "completed", Some(" One ")),
            todo("b", "in_progress", Some("Two")),
            todo("c", "pending", Some("One")),
            todo("blank", "cancelled", Some("  ")),
        ],
        Some("  Ship it "),
    ));
    assert_eq!(card.intention.as_deref(), Some("Ship it"));
    assert_eq!(card.progress, "1 of 5 complete");
    assert_eq!(card.empty, None);
    let seen: Vec<_> = card
        .sections
        .iter()
        .map(|section| {
            let rows: Vec<_> = section.rows.iter().map(|row| row.content.as_str()).collect();
            (section.heading.clone().unwrap(), rows)
        })
        .collect();
    let heading = |name: &str, count: &str| (name.to_owned(), count.to_owned());
    assert_eq!(
        seen,
        [
            (heading("One", "1/2"), vec!["a", "c"]),
            (heading("Two", "0/1"), vec!["b"]),
            (heading("Other", "0/2"), vec!["loose", "blank"]),
        ]
    );
    assert!(card.sections[0].rows[0].dim);
    assert!(!card.sections[0].rows[1].dim);
}

#[test]
fn a_card_without_groups_has_no_headings() {
    let card = render_todo_card(&payload(vec![todo("only", "pending", None)], Some("  ")));
    assert_eq!(card.intention, None);
    assert_eq!(card.sections.len(), 1);
    assert_eq!(card.sections[0].heading, None);
    let empty = render_todo_card(&payload(vec![], None));
    assert_eq!(
        empty.empty,
        Some("No tasks yet. Jcode will populate them as work is planned.")
    );
    assert!(empty.sections.is_empty());
    assert_eq!(empty.progress, "0 of 0 complete");
}

#[test]
fn marks_fill_while_at_work_and_once_done() {
    let mark = |status: &str| render_todo_marker(&todo("x", status, None));
    assert_eq!(mark("completed"), TodoMarker { ring: Tone::Good, fill: Some(Tone::Good) });
    assert_eq!(mark("in_progress"), TodoMarker { ring: Tone::Accent, fill: Some(Tone::Accent) });
    assert_eq!(mark("pending"), TodoMarker { ring: Tone::Faint, fill: None });
    let mut blocked = todo("x", "in_progress", None);
    blocked.blocked_by = vec!["y".into()];
    assert_eq!(
        render_todo_marker(&blocked),
        TodoMarker { ring: Tone::Warn, fill: Some(Tone::Accent) }
    );
}

#[test]
fn the_pinned_line_counts_what_has_no_dot() {
    let mut todos: Vec<_> = (0..10).map(|n| todo(&format!("t{n}"), "completed", None)).collect();
    todos.push(todo("gone", "cancelled", None));
    let line = render_pinned_todo_summary(&payload(todos, None));
    assert_eq!(line.task, "t9");
    assert_eq!(line.count, "10/10");
    assert_eq!(line.dots, [true; 8]);
    assert_eq!(line.overflow.as_deref(), Some("+2"));
    let short = render_pinned_todo_summary(&payload(vec![todo("now", "pending", None)], None));
    assert_eq!((short.task.as_str(), short.count.as_str()), ("now", "0/1"));
    assert_eq!(short.overflow, None);
}

#[test]
fn the_pinned_words_go_by_the_figures_given() {
    let figures = |current: Option<&str>, completed, total| PinnedTodoSummary {
        completed,
        total,
        current: current.map(Into::into),
        dots: vec![],
    };
    let list = payload(vec![todo("t", "pending", Some("Group"))], None);
    assert_eq!(pinned_todo_label(&list, &figures(Some("own"), 0, 0)), "own");
    assert_eq!(pinned_todo_label(&list, &figures(None, 0, 1)), "No active task");
    assert_eq!(pinned_todo_label(&list, &figures(None, 1, 1)), "Group");
}

#[test]
fn sample_tasks_are_numbered() {
    let state = TodoistPanelState::fixture(12);
    assert_eq!(state.load, TodoistLoadState::Ready);
    assert_eq!(state.tasks.len(), 12);
    assert_eq!(state.tasks[11].id, "task-11");
    assert_eq!(state.tasks[11].content, "Task 11: review the scrolling task list");
    assert_eq!((state.tasks[11].project_id.as_str(), state.tasks[11].priority), ("inbox", 1));
    assert!(state.projects.is_empty() && state.busy_tasks.is_empty());
}

#[test]
fn only_scrolling_up_leaves_the_end() {
    let mut panel = Panel::new("session".into(), None, None, vec![]);
    assert!(panel.stick_to_bottom);
    assert_eq!(panel.scroll_input(false, true, false), ScrollInput::Ignored);
    assert_eq!(panel.scroll_input(true, false, false), ScrollInput::Glide);
    assert!(panel.stick_to_bottom);
    assert_eq!(panel.scroll_input(true, true, true), ScrollInput::Direct);
    assert!(!panel.stick_to_bottom);
}

#[test]
fn a_stale_glide_is_dropped() {
    assert_eq!(wheel_frame(None, 7), WheelFrame::Nothing);
    assert_eq!(wheel_frame(Some(7), 7), WheelFrame::Again);
    assert_eq!(wheel_frame(Some(9), 7), WheelFrame::Again);
    assert_eq!(wheel_frame(Some(0), 250_000_000), WheelFrame::Advance);
    assert_eq!(wheel_frame(Some(0), 250_000_001), WheelFrame::Cancel);
}

#[test]
fn screenshots_pose_their_panels() {
    let open = |id: &str| Panel::new(id.into(), None, None, vec![]);
    let mut panel = open("screenshot-fixture");
    assert_eq!(panel.pose(false, Some("streaming")), None);
    assert_eq!(panel, open("screenshot-fixture"));
    assert_eq!(panel.pose(true, Some("mermaid")), None);
    assert!(panel.streaming_text.starts_with("I’m checking the implementation"));
    let mut other = open("another");
    assert_eq!(other.pose(true, Some("streaming")), None);
    assert_eq!(other, open("another"));
    assert_eq!(other.pose(true, Some("tokens")), None);
    assert_eq!(other.model.as_deref(), Some("gpt-5.6-sol"));
    assert_eq!(other.provider.as_deref(), Some("openai"));
    assert_eq!(other.auth_method.as_deref(), Some("oauth"));
    assert_eq!(other.context_tokens, Some(100_000));
    let tasks = open("another").pose(true, Some("todos"));
    assert_eq!(tasks, Some(TodoistPanelState::fixture(80)));
    assert_eq!(open("another").pose(true, None), None);
}

#[test]
fn screenshots_show_fourteen_models() {
    let ApiEvent::Session {
        session_id,
        event: SessionEvent::RuntimeInfo { provider, model, routes, reasoning_effort },
    } = demo_runtime("s".into())
    else {
        panic!("not about the runtime")
    };
    assert_eq!(session_id, "s");
    assert_eq!(provider.as_deref(), Some("openai"));
    assert_eq!(model.as_deref(), Some("openai:atlas-01"));
    assert_eq!(reasoning_effort, None);
    let names: Vec<_> = routes.iter().map(|route| route.model.as_str()).collect();
    assert_eq!(names.len(), 14);
    assert_eq!(names[..3], ["anthropic:sonnet-review", "google:gemini-review", "openai:atlas-01"]);
    assert_eq!(names[13], "openai:atlas-12");
    assert_eq!(routes[1].api_method, "google-api-key");
    assert!(routes.iter().all(|route| route.available));
    assert_eq!(
        demo_usage("anthropic", 2_000_000),
        Some(ModelUsage {
            count: 42,
            last_used: 1_992_800,
            tracking_started: 790_400,
            selection_count: 5,
            last_selected: 1_992_800,
        })
    );
    assert_eq!(demo_usage("google", 2_000_000).map(|usage| usage.last_used), Some(1_740_800));
    assert_eq!(demo_usage("openai", 2_000_000), None);
}
