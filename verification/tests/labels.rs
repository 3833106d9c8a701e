//! Labels, models, todos, mail and reasoning: what the panel says and how it is cut.
use std::collections::VecDeque;

use jcode_desktop_ui::activity::{
    counted_tokens, image_caption, is_packed, progress_label, tool_output_token_badge, tool_row,
    TokenSeverity, ToolRow,
};
use jcode_desktop_ui::events::ModelRoute;
use jcode_desktop_ui::labels::{
    account_method_label, clip_lines, command_name, command_unavailable_message, compact_dir, condense,
    condense_tail, context_usage_label, custom_session_title, first_prompt_title,
    folder_session_title, json_scalar, short_id, strip_ansi, tool_detail, tool_summary,
};
use jcode_desktop_ui::json::{
    find_only, parse_json, read_field, split_elements, split_fields, Json,
};
use jcode_desktop_ui::mail::{
    detail_of, gmail_metadata, in_list_order, summary_of, GmailMetadata, MessageHeaders,
};
use jcode_desktop_ui::models::{
    auth_method_for_model, available_model_logo_providers, available_model_names,
    model_logo_provider,
};
use jcode_desktop_ui::todos::{
    card_from, parse_todo_tool_output, pinned_todo_label, pinned_todo_summary, todo_groups,
    todo_status_color, PinnedTodoSummary, TodoCardItem, TodoCardPayload, TodoCardPlan, Tone,
    PINNED_TODO_DOT_LIMIT,
};
use jcode_desktop_ui::transcript::{
    acknowledge_next, append_reasoning, coalesce_reasoning_rows, transcript_render_rows, Item,
    TranscriptImage, TranscriptRowSource,
};

fn labels(values: &[&str]) -> Vec<String> {
    values.iter().map(|value| (*value).to_owned()).collect()
}

#[test]
fn identifies_gmail_attention_metadata_and_category() {
    assert_eq!(
        gmail_metadata(&labels(&[
            "INBOX",
            "UNREAD",
            "IMPORTANT",
            "STARRED",
            "CATEGORY_PROMOTIONS",
        ])),
        GmailMetadata {
            unread: true,
            important: true,
            starred: true,
            category: Some("Promotions".into()),
        }
    );
}

#[test]
fn ordinary_and_custom_labels_do_not_create_false_priority() {
    assert_eq!(
        gmail_metadata(&labels(&["INBOX", "Label_42"])),
        GmailMetadata { unread: false, important: false, starred: false, category: None }
    );
}

#[test]
fn messages_go_back_into_the_order_of_the_list() {
    let message = |id: &str| {
        let headers = MessageHeaders { from: None, subject: None, date: None, snippet: None };
        summary_of(id.into(), headers, &labels(&["UNREAD"]))
    };
    let ordered = in_list_order(&vec![(2, message("c")), (0, message("a")), (1, message("b"))]);
    let ids: Vec<_> = ordered.iter().map(|message| message.id.as_str()).collect();
    assert_eq!(ids, ["a", "b", "c"]);
    assert_eq!(ordered[0].from, "Unknown sender");
    assert_eq!(ordered[0].subject, "(no subject)");
    assert!(ordered[0].unread);
}

#[test]
fn a_message_without_a_body_shows_its_snippet() {
    let headers = |snippet: &str| MessageHeaders {
        from: None,
        subject: None,
        date: None,
        snippet: Some(snippet.into()),
    };
    let summary = summary_of("a".into(), headers("short"), &vec![]);
    assert_eq!(detail_of(summary, None, Some("  \n".into())).body, "short");
    let summary = summary_of("a".into(), headers("short"), &vec![]);
    let detail = detail_of(summary, Some("me".into()), Some("long".into()));
    assert_eq!((detail.to.as_str(), detail.body.as_str()), ("me", "long"));
}

#[test]
fn message_acceptance_promotes_the_oldest_pending_prompt() {
    let now = 1_000;
    let mut pending = VecDeque::from([4, 7]);
    let mut accepted = Vec::new();
    acknowledge_next(&mut pending, &mut accepted, now);
    assert_eq!(pending, VecDeque::from([7]));
    assert_eq!(accepted, [(4, now)]);
}

#[test]
fn tool_summaries_show_what_they_are_given() {
    assert_eq!(
        tool_summary(Some("look"), r#"{"intent":"look","command":"cargo test"}"#),
        "look"
    );
    assert_eq!(
        tool_summary(Some("cargo test"), r#"{"command":"cargo test"}"#),
        "cargo test"
    );
    assert_eq!(tool_summary(None, r#"{"other":1}"#), r#"{"other":1}"#);
    assert_eq!(tool_summary(None, r#"{"other":"#), "");
}

#[test]
fn condense_flattens_and_clips() {
    assert_eq!(condense("a\n  b\tc", 90), "a b c");
    assert_eq!(condense("abcdef", 3), "abc…");
}

#[test]
fn folder_header_defaults_to_new_session_until_named() {
    let session_id = "01JABCDEF0123456789";
    let fallback = short_id(session_id);

    assert_eq!(
        custom_session_title(session_id, "Plan the release").as_deref(),
        Some("Plan the release")
    );
    assert_eq!(custom_session_title(session_id, &fallback), None);
    assert_eq!(custom_session_title(session_id, "  "), None);
    assert_eq!(folder_session_title(session_id, "Plan the release"), "Plan the release");
    assert_eq!(folder_session_title(session_id, &fallback), "New session");
    assert_eq!(folder_session_title(session_id, "  "), "New session");
    assert_eq!(folder_session_title(session_id, ""), "New session");
    assert_eq!(folder_session_title("startup://draft/123-0", "New session"), "New session");
}

#[test]
fn first_prompt_becomes_a_compact_provisional_title() {
    assert_eq!(
        first_prompt_title("  help me   improve the session sidebar\nplease ").as_deref(),
        Some("help me improve the session sidebar please")
    );
    assert_eq!(first_prompt_title(" /model gpt-5.6 "), None);
    assert!(first_prompt_title(&"x".repeat(80)).unwrap().ends_with('…'));
}

#[test]
fn tool_detail_pretty_prints_and_clips() {
    let detail = tool_detail("bash", r#"{"a":1}"#, "line1\nline2");
    assert!(detail.starts_with("Tool call\nbash\n"));
    assert!(detail.contains("\"a\": 1"));
    assert!(detail.contains("\n\nOutput\nline1\nline2"));
    assert!(detail.contains("line2"));
    let long: String = (0..50).map(|n| format!("l{n}\n")).collect();
    let clipped = tool_detail("bash", "{}", &long);
    assert!(clipped.contains("Tool call\nbash\n{}"));
    assert!(clipped.contains("lines hidden"));
    assert!(clipped.contains("l49"));
    assert!(clipped.contains("l0"));
}

#[test]
fn reasoning_tail_keeps_the_newest_words() {
    assert_eq!(condense_tail("short", 200), "short");
    let tail = condense_tail(&"word ".repeat(100), 20);
    assert!(tail.starts_with('…'));
    assert!(tail.ends_with("word"));
}

#[test]
fn adjacent_reasoning_segments_share_one_visual_block() {
    let mut items = vec![Item::Reasoning("first thought".into())];
    append_reasoning(&mut items, "second thought".into());

    assert_eq!(items.len(), 1);
    assert!(matches!(
        &items[0],
        Item::Reasoning(text) if text == "first thought\n\nsecond thought"
    ));
}

#[test]
fn adjacent_reasoning_rows_are_coalesced_before_rendering() {
    let rows = VecDeque::from([
        (4, Item::Reasoning("first thought".into())),
        (5, Item::Reasoning("second thought".into())),
        (usize::MAX - 1, Item::Reasoning("live thought".into())),
    ]);

    let grouped = coalesce_reasoning_rows(rows);
    assert_eq!(grouped.len(), 1);
    assert!(matches!(
        &grouped[0],
        (4, Item::Reasoning(text))
            if text == "first thought\n\nsecond thought\n\nlive thought"
    ));
}

#[test]
fn reasoning_after_another_item_starts_a_new_block() {
    let mut items = vec![Item::Assistant("answer".into())];
    append_reasoning(&mut items, "new thought".into());

    assert_eq!(items.len(), 2);
    assert!(matches!(&items[1], Item::Reasoning(text) if text == "new thought"));
}

#[test]
fn ansi_escapes_are_stripped_from_tool_output() {
    assert_eq!(strip_ansi("\u{1b}[1;32mok\u{1b}[0m done"), "ok done");
    assert_eq!(strip_ansi("\u{1b}]0;title\u{7}text"), "text");
    assert_eq!(strip_ansi("plain"), "plain");
    assert!(tool_detail("bash", "{}", "\u{1b}[31mred\u{1b}[0m").contains("red"));
    assert!(!tool_detail("bash", "{}", "\u{1b}[31mred\u{1b}[0m").contains('\u{1b}'));
}

fn route(model: &str, api_method: &str) -> ModelRoute {
    ModelRoute {
        model: model.into(),
        provider: "openai".into(),
        api_method: api_method.into(),
        available: true,
    }
}

#[test]
fn auth_method_is_read_from_the_current_models_route_for_any_family() {
    let routes = vec![
        route("gpt-5.6-sol", "openai-oauth"),
        route("aurora-fable-5", "anthropic-api-key"),
    ];
    assert_eq!(
        auth_method_for_model(Some("gpt-5.6-sol"), &routes).as_deref(),
        Some("oauth")
    );
    assert_eq!(
        auth_method_for_model(Some("aurora-fable-5"), &routes).as_deref(),
        Some("api key")
    );
    assert_eq!(auth_method_for_model(Some("other"), &routes), None);
    assert_eq!(auth_method_for_model(None, &routes), None);
}

#[test]
fn model_picker_only_offers_available_routes_for_any_family() {
    let mut unavailable = route("luna", "openai-api-key");
    unavailable.available = false;
    let routes = vec![
        unavailable,
        route("gpt-5.6-sol", "openai-api-key"),
        route("gpt-5.6-sol", "openai-oauth"),
        route("aurora-fable-5", "anthropic-api-key"),
    ];
    assert_eq!(available_model_names(&routes), vec!["aurora-fable-5", "gpt-5.6-sol"]);
    let logos = available_model_logo_providers(&routes, "aurora");
    assert!(logos.iter().all(|(model, _)| model != "luna"));
    assert!(logos.contains(&("aurora-fable-5".into(), "anthropic-api".into())));
}

#[test]
fn model_logos_follow_routes_then_fall_back_to_model_families_for_any_family() {
    assert_eq!(model_logo_provider("custom-model", "openai-oauth", "aurora"), "openai");
    assert_eq!(model_logo_provider("aurora-fable-5", "", "aurora"), "anthropic-api");
    assert_eq!(model_logo_provider("gemini-3-pro", "", "aurora"), "gemini");
    assert_eq!(model_logo_provider("private-model", "private", "aurora"), "private");
}

#[test]
fn compact_directory_marks_home_but_not_its_children() {
    let home = "/home/someone";
    assert_eq!(compact_dir(home, Some(home)), "~ (home)");
    assert_eq!(compact_dir(&format!("{home}/project"), Some(home)), "~/project");
    assert_eq!(
        compact_dir(&format!("{home}-other"), Some(home)),
        format!("{home}-other")
    );
    assert_eq!(compact_dir(home, None), home);
}

#[test]
fn footer_labels_keep_model_account_and_context_separate() {
    assert_eq!(account_method_label(Some("openai"), Some("oauth")), "openai · oauth");
    assert_eq!(
        account_method_label(Some("anthropic"), Some("api key")),
        "anthropic · api key"
    );
    assert_eq!(account_method_label(None, Some("oauth")), "oauth");
    assert_eq!(account_method_label(Some("openai"), None), "openai");
    assert_eq!(account_method_label(None, None), "Accounts");
    assert_eq!(account_method_label(Some(""), Some("")), "Accounts");
    assert_eq!(context_usage_label(None, None), None);
    assert_eq!(
        context_usage_label(Some("100.0k"), Some(("272.0k", "37"))).as_deref(),
        Some("100.0k / 272.0k (37%)")
    );
    assert_eq!(context_usage_label(Some("1.5k"), None).as_deref(), Some("1.5k tokens"));
}

#[test]
fn token_badges_count_any_output_and_warn_by_severity() {
    assert_eq!(counted_tokens(0, ""), 0);
    assert_eq!(counted_tokens(0, "x"), 1);
    assert_eq!(counted_tokens(1_900, "x"), 1_900);
    for (severity, tone) in [
        (TokenSeverity::Normal, Tone::Good),
        (TokenSeverity::Warning, Tone::Warn),
        (TokenSeverity::Danger, Tone::Bad),
    ] {
        assert_eq!(tool_output_token_badge("4k tok", severity), ("~4k tok".into(), tone));
    }
}

#[test]
fn todo_tool_output_parses_items_and_plan() {
    let payload = parse_todo_tool_output(
        r#"[{"id":"build","content":"Build the card","status":"in_progress","priority":"high","group":"Desktop","confidence":"validated"}]
Plan: {"user_intention":"See progress at a glance","understands_user_intent":"clear"}
Goals: []"#,
    )
    .expect("todo payload parses");

    assert_eq!(payload.todos.len(), 1);
    assert_eq!(payload.todos[0].content, "Build the card");
    assert_eq!(payload.todos[0].group.as_deref(), Some("Desktop"));
    assert_eq!(
        payload.plan.user_intention.as_deref(),
        Some("See progress at a glance")
    );
    assert_eq!(parse_todo_tool_output("no list"), None);
}

#[test]
fn pinned_todo_completed_label_preserves_group_and_has_meaningful_fallbacks() {
    let mut payload = parse_todo_tool_output(
        r#"[
            {"content":"Build header","status":"completed","group":" Desktop "},
            {"content":"Test header","status":"completed","group":"Desktop"},
            {"content":"Document behavior","status":"completed","group":"Docs"},
            {"content":"Discarded work","status":"cancelled","group":"Ignored"}
        ]
        Plan: {"user_intention":"Keep task context visible"}"#,
    )
    .unwrap();
    let label =
        |payload: &TodoCardPayload| pinned_todo_label(payload, &pinned_todo_summary(payload));
    assert_eq!(label(&payload), "Desktop · Docs");
    payload.todos[2].group = Some("Desktop".into());
    assert_eq!(label(&payload), "Desktop");
    for todo in &mut payload.todos {
        todo.group = Some("  ".into());
    }
    assert_eq!(label(&payload), "Keep task context visible");
    payload.plan.user_intention = Some("  ".into());
    assert_eq!(label(&payload), "Document behavior");
    payload.todos[0].status = "in_progress".into();
    assert_eq!(label(&payload), "Build header");
    payload.todos[0].status = "pending".into();
    assert_eq!(label(&payload), "Build header");
    for todo in &mut payload.todos {
        todo.status = "cancelled".into();
    }
    assert_eq!(label(&payload), "No active task");
    assert_eq!(label(&TodoCardPayload::empty()), "No active task");
}

fn todo(content: &str, status: &str) -> TodoCardItem {
    TodoCardItem {
        content: content.into(),
        status: status.into(),
        group: None,
        blocked_by: vec![],
    }
}

fn no_plan() -> TodoCardPlan {
    TodoCardPlan { user_intention: None }
}

#[test]
fn pinned_todo_summary_excludes_cancelled_and_prefers_in_progress() {
    let payload = TodoCardPayload {
        todos: vec![
            todo("finished", "completed"),
            todo("fallback", "pending"),
            todo("current", "in_progress"),
            todo("removed", "cancelled"),
        ],
        plan: no_plan(),
    };

    assert_eq!(
        pinned_todo_summary(&payload),
        PinnedTodoSummary {
            completed: 1,
            total: 3,
            current: Some("current".into()),
            dots: vec![true, false, false],
        }
    );

    let pending_only = TodoCardPayload {
        todos: vec![todo("next", "pending"), todo("removed", "cancelled")],
        plan: no_plan(),
    };
    assert_eq!(
        pinned_todo_summary(&pending_only),
        PinnedTodoSummary {
            completed: 0,
            total: 1,
            current: Some("next".into()),
            dots: vec![false],
        }
    );
}

#[test]
fn pinned_todo_dots_cap_actual_items_and_handle_empty_and_completed_lists() {
    for count in [0, 1, 8, 9, 100] {
        let mut payload = TodoCardPayload::empty();
        payload.todos = (0..count)
            .map(|index: usize| {
                todo(
                    &format!("Task {index}"),
                    if index % 2 == 0 { "completed" } else { "pending" },
                )
            })
            .collect();
        let summary = pinned_todo_summary(&payload);
        assert_eq!(summary.total, count);
        assert_eq!(summary.dots.len(), count.min(PINNED_TODO_DOT_LIMIT));
        assert_eq!(summary.completed, count.div_ceil(2));
        for (index, completed) in summary.dots.iter().enumerate() {
            assert_eq!(*completed, index % 2 == 0, "preserve task order");
        }
        for todo in &mut payload.todos {
            todo.status = "completed".into();
        }
        let summary = pinned_todo_summary(&payload);
        assert_eq!(summary.completed, count);
        assert!(summary.dots.iter().all(|completed| *completed));
        assert!(summary.current.is_none());
    }
}

#[test]
fn todo_groups_put_the_rest_last() {
    let grouped = |content: &str, group: &str| TodoCardItem {
        group: Some(group.into()),
        ..todo(content, "pending")
    };
    let payload = TodoCardPayload {
        todos: vec![todo("a", "completed"), grouped("b", " One "), grouped("c", "One")],
        plan: no_plan(),
    };
    assert_eq!(
        todo_groups(&payload),
        vec![(Some("One".to_string()), vec![1, 2]), (None, vec![0])]
    );
    assert_eq!(progress_label(&payload), "1 of 3 complete");
    assert_eq!(todo_status_color(&payload.todos[0]), Tone::Good);
}

#[test]
fn commands_without_effect_say_so() {
    assert_eq!(command_name("/fork now"), "/fork");
    assert_eq!(
        command_unavailable_message("/nope", None),
        "Unknown command: `/nope`. Type `/help` for available commands."
    );
    assert_eq!(
        command_unavailable_message("/swarm x", Some("Swarm")),
        "`/swarm` is a Jcode command, but its swarm behavior is not available in Desktop yet."
    );
    assert_eq!(json_scalar(&parse_json("12").unwrap()).as_deref(), Some("12"));
    assert_eq!(json_scalar(&parse_json("[]").unwrap()), None);
}

#[test]
fn a_finished_todo_call_is_a_card_and_any_other_call_a_line() {
    let list = r#"[{"content":"One","status":"pending"}]"#;
    assert!(matches!(
        tool_row("todo", "{}", list, true, None, None),
        ToolRow::Card(payload) if payload.todos.len() == 1
    ));
    let ToolRow::Line { error, detail, .. } =
        tool_row("todo", "{}", list, true, Some("\u{1b}[31mno\u{1b}[0m  way"), None)
    else {
        panic!("a failed call is a line");
    };
    assert_eq!(error.as_deref(), Some("no way"));
    assert!(detail.starts_with("Tool call\ntodo\n{}"));
    assert!(matches!(
        tool_row("bash", "{}", "", false, None, Some("run")),
        ToolRow::Line { summary, error: None, .. } if summary == "run"
    ));
}

#[test]
fn images_are_captioned_by_what_can_be_shown() {
    let shown = TranscriptImage::new("image/png".into(), "cG5n".into(), Some("Chart".into()), true);
    assert_eq!(shown.preview.as_deref(), Some(b"png".as_slice()));
    assert_eq!(image_caption(&shown), "Chart");
    let broken = TranscriptImage::new("image/png".into(), "***".into(), None, true);
    assert_eq!(broken.preview, None);
    assert_eq!(image_caption(&broken), "Image attachment (could not display image/png)");
    let note = TranscriptImage::new("text/plain".into(), "cG5n".into(), None, false);
    assert_eq!(note.preview, None);
    assert_eq!(image_caption(&note), "Image attachment (could not display text/plain)");
}

#[test]
fn tool_calls_are_packed_behind_each_other() {
    let call = || Item::Tool {
        call_id: "1".into(),
        name: "bash".into(),
        input: String::new(),
        output: String::new(),
        done: true,
        error: None,
    };
    assert!(is_packed(&call(), Some(&call())));
    assert!(!is_packed(&call(), None));
    assert!(!is_packed(&call(), Some(&Item::User("hi".into()))));
    assert!(!is_packed(&Item::User("hi".into()), Some(&call())));
}

#[test]
fn character_set_sequences_are_dropped_whole() {
    assert_eq!(strip_ansi("\u{1b}(Bok"), "ok");
    assert_eq!(strip_ansi("a\u{1b}#8b"), "ab");
    assert_eq!(strip_ansi("a\u{1b}$(Cb"), "ab");
    assert_eq!(strip_ansi("a\u{1b}(("), "a");
    assert_eq!(strip_ansi("\u{1b}(\u{1b}[m"), "");
    assert_eq!(strip_ansi("\u{1b}(\nkept"), "\nkept");
    assert_eq!(strip_ansi("\u{1b}(\u{7f}kept"), "\u{7f}kept");
    assert_eq!(strip_ansi("\u{1b}7kept\u{1b}8"), "kept");
    assert_eq!(strip_ansi("end\u{1b}"), "end");
}

#[test]
fn every_shown_item_has_one_row_and_reasoning_shares_it() {
    let items = vec![
        Item::User("ask".into()),
        Item::Reasoning("one".into()),
        Item::Todos(TodoCardPayload::empty()),
        Item::Reasoning("two".into()),
        Item::Assistant("answer".into()),
        Item::Reasoning("three".into()),
    ];
    let rows = transcript_render_rows(&items, &String::new(), &String::new());
    let places: Vec<usize> = rows.iter().map(|row| row.index).collect();
    assert_eq!(places, [0, 1, 4, 5]);
    assert!(matches!(
        &rows[1].source,
        TranscriptRowSource::Owned(Item::Reasoning(text)) if text == "one\n\ntwo"
    ));
    assert!(matches!(rows[2].source, TranscriptRowSource::Settled(4)));
}

#[test]
fn todo_entries_are_read_by_their_own_fields() {
    let read = |entry: &str| parse_todo_tool_output(&format!("[{entry}]")).map(|p| p.todos);
    let plain = Some(vec![TodoCardItem {
        content: "a".into(),
        status: "pending".into(),
        group: None,
        blocked_by: vec![],
    }]);
    let entry = |more: &str| read(&format!(r#"{{"content":"a","status":"pending"{more}}}"#));
    assert_eq!(entry(""), plain);
    assert_eq!(entry(r#" , "other" : 1 , "other" : [ 2 , { } ] "#), plain);
    assert_eq!(entry(r#","size":1e999"#), plain, "an unknown field may hold any number");
    let deep = format!(r#","deep":{}{}"#, "[".repeat(300), "]".repeat(300));
    assert_eq!(entry(&deep), plain, "an unknown field may be nested to any depth");
    assert_eq!(entry(r#","lone":"\ud800""#), plain);
    assert_eq!(entry(r#","content":"b""#), None, "a field of the entry stands only once");
    assert_eq!(entry(r#","\u0063ontent":"b""#), None, "however it is spelled");
    assert_eq!(entry(r#","group":null,"group":null"#), None);
    assert_eq!(entry(r#","group":null"#), plain);
    assert_eq!(entry(r#","group":1"#), None);
    assert_eq!(entry(r#","blocked_by":null"#), None);
    assert_eq!(entry(r#","\ud800":1"#), None, "a name must be a text");
    assert_eq!(read(r#"{"content":"a"}"#), None);
    assert_eq!(read("3"), None);
    assert_eq!(read(""), Some(vec![]));
    assert_eq!(read(r#"["a","pending"]"#), plain);
    assert_eq!(read(r#"["a","pending",null,[],0]"#), None);
    assert_eq!(parse_todo_tool_output(r#"{"content":"a","status":"pending"}"#), None);
}

#[test]
fn a_plan_that_cannot_be_read_states_no_intention() {
    let intention = |plan: &str| {
        let payload = parse_todo_tool_output(&format!(" [ ]\n\nPlan:\n{plan} and more"));
        payload.map(|p| p.plan.user_intention)
    };
    assert_eq!(intention(r#"{"user_intention":"ship"}"#), Some(Some("ship".into())));
    assert_eq!(intention(r#"{"x":1e999,"x":2,"user_intention":"ship"}"#), Some(Some("ship".into())));
    assert_eq!(intention(r#"{"user_intention":"a","user_intention":"b"}"#), Some(None));
    assert_eq!(intention(r#"["ship"]"#), Some(Some("ship".into())));
    assert_eq!(intention(r#"["ship","it"]"#), Some(None));
    assert_eq!(intention("{"), Some(None));
    assert_eq!(intention("7"), Some(None));
}

#[test]
fn fields_are_found_by_name_and_only_once() {
    let fields = split_fields(r#"{ "a" : [1, 2] , "b":"x,}" , "a": {} }"#).unwrap();
    assert_eq!(
        fields,
        [
            ("a".to_string(), "[1, 2]".to_string()),
            ("b".to_string(), r#""x,}""#.to_string()),
            ("a".to_string(), "{}".to_string()),
        ]
    );
    assert_eq!(find_only(&fields, "a"), None);
    assert_eq!(find_only(&fields, "b"), Some(Some(r#""x,}""#.to_string())));
    assert_eq!(find_only(&fields, "c"), Some(None));
    assert_eq!(read_field(&fields, "b"), Some(Some(Json::Text("x,}".into()))));
    assert_eq!(split_fields("{}"), Some(vec![]));
    assert_eq!(split_fields(r#"{"a":1"#), None);
    assert_eq!(split_fields(r#"{1:2}"#), None);
    assert_eq!(split_elements("[1, [2,3] ,4]"), Some(vec!["1".into(), "[2,3]".into(), "4".into()]));
    assert_eq!(split_elements("[ ]"), Some(vec![]));
    assert_eq!(split_elements("[1 2]"), None);
    let text = Json::Text("a".into());
    assert_eq!(card_from(Some(&text), None, None, None), None);
    let card = card_from(Some(&text), Some(&text), Some(&text), None).unwrap();
    assert_eq!((card.group, card.blocked_by), (Some("a".into()), vec![]));
}

#[test]
fn any_number_of_lines_may_be_asked_for() {
    assert_eq!(clip_lines("a\nb", usize::MAX), "a\nb");
}
