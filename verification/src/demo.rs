//! Sample transcripts, which show what a transcript can hold without a session behind it.
use vstd::prelude::*;

use crate::events::{
    ApiEvent, ImageAnchor, ImageSource, ModelRoute, ModelUsage, ResponseStats, SessionEvent,
};
use crate::labels;
use crate::panel;
use crate::panel::{Panel, PanelContents};
use crate::text;
use crate::text::{concat, concat3, decimal_of, same};
use crate::todoist;
use crate::todoist::TodoistPanelState;
use crate::todos;
use crate::todos::{TodoCardItem, TodoCardPayload, TodoCardPlan};
use crate::transcript;
use crate::transcript::{Item, TranscriptImage};

verus! {

/// What the samples take from elsewhere: figures, texts and items that other parts keep.
#[derive(Debug, PartialEq, Eq)]
pub struct Material {
    pub stats: ResponseStats,
    pub prompts: Vec<Item>,
    pub tool_streaming: Vec<Item>,
    pub diff: Vec<Item>,
    pub image: TranscriptImage,
    pub change_review: String,
    pub font_pairings: String,
    pub mermaid: Option<String>,
    pub first_thought: String,
    pub second_thought: String,
}

#[verifier::ext_equal]
pub struct MaterialView {
    pub stats: transcript::StatsView,
    pub prompts: Seq<transcript::ItemView>,
    pub tool_streaming: Seq<transcript::ItemView>,
    pub diff: Seq<transcript::ItemView>,
    pub image: transcript::ImageView,
    pub change_review: Seq<char>,
    pub font_pairings: Seq<char>,
    pub mermaid: Option<Seq<char>>,
    pub first_thought: Seq<char>,
    pub second_thought: Seq<char>,
}

impl View for Material {
    type V = MaterialView;

    open spec fn view(&self) -> MaterialView {
        MaterialView {
            stats: self.stats@,
            prompts: transcript::item_views(self.prompts@),
            tool_streaming: transcript::item_views(self.tool_streaming@),
            diff: transcript::item_views(self.diff@),
            image: self.image@,
            change_review: self.change_review@,
            font_pairings: self.font_pairings@,
            mermaid: text::text_option(self.mermaid),
            first_thought: self.first_thought@,
            second_thought: self.second_thought@,
        }
    }
}

/// A call of a tool that has answered without an error.
pub open spec fn answered(
    call_id: Seq<char>,
    name: Seq<char>,
    input: Seq<char>,
    output: Seq<char>,
) -> transcript::ItemView {
    transcript::ItemView::Tool { call_id, name, input, output, done: true, error: None }
}

fn answered_call(call_id: &str, name: &str, input: &str, output: &str) -> (r: Item)
    ensures
        r@ == answered(call_id@, name@, input@, output@),
{
    Item::Tool {
        call_id: call_id.to_owned(),
        name: name.to_owned(),
        input: input.to_owned(),
        output: output.to_owned(),
        done: true,
        error: None,
    }
}

fn user(said: &str) -> (r: Item)
    ensures
        r@ == transcript::ItemView::User(said@),
{
    Item::User(said.to_owned())
}

fn assistant(said: &str) -> (r: Item)
    ensures
        r@ == transcript::ItemView::Assistant(said@),
{
    Item::Assistant(said.to_owned())
}

fn reasoning(thought: &str) -> (r: Item)
    ensures
        r@ == transcript::ItemView::Reasoning(thought@),
{
    Item::Reasoning(thought.to_owned())
}

fn task(task_id: &str, label: &str, summary: &str, percent_bits: Option<u32>, done: bool) -> (r:
    Item)
    ensures
        r@ == (transcript::ItemView::BackgroundTask {
            task_id: task_id@,
            label: label@,
            summary: summary@,
            percent_bits,
            done,
        }),
{
    Item::BackgroundTask {
        task_id: task_id.to_owned(),
        label: label.to_owned(),
        summary: summary.to_owned(),
        percent_bits,
        done,
    }
}

/// A task that waits for no other.
pub open spec fn card(
    content: Seq<char>,
    status: Seq<char>,
    group: Option<Seq<char>>,
) -> todos::CardView {
    todos::CardView { content, status, group, blocked_by: Seq::empty() }
}

fn card_of(content: &str, status: &str, group: Option<&str>) -> (r: TodoCardItem)
    ensures
        r@ == card(content@, status@, labels::view_of(group)),
{
    let group = match group {
        Some(group) => Some(group.to_owned()),
        None => None,
    };
    let r = TodoCardItem {
        content: content.to_owned(),
        status: status.to_owned(),
        group,
        blocked_by: Vec::new(),
    };
    assert(r@ =~= card(content@, status@, r@.group));
    r
}

/// Checks that run in the background: one measured, one not, one done.
pub open spec fn background_tasks() -> Seq<transcript::ItemView> {
    seq![
        transcript::ItemView::User("Run the checks in the background"@),
        transcript::ItemView::BackgroundTask {
            task_id: "running"@,
            label: "Workspace tests"@,
            summary: "35% · Running integration tests"@,
            percent_bits: Some(PERCENT_35),
            done: false,
        },
        transcript::ItemView::BackgroundTask {
            task_id: "waiting"@,
            label: "Release build"@,
            summary: "Compiling dependencies and waiting for the linker to finish"@,
            percent_bits: None,
            done: false,
        },
        transcript::ItemView::BackgroundTask {
            task_id: "done"@,
            label: "Formatting"@,
            summary: "✓ completed · 8.2s · exit 0"@,
            percent_bits: None,
            done: true,
        },
    ]
}

/// The bits of 35 as a single-precision number.
pub const PERCENT_35: u32 = 0x420c_0000;

fn background_task_items() -> (r: Vec<Item>)
    ensures
        transcript::item_views(r@) == background_tasks(),
{
    let mut r: Vec<Item> = Vec::new();
    r.push(user("Run the checks in the background"));
    r.push(
        task("running", "Workspace tests", "35% · Running integration tests", Some(PERCENT_35), false),
    );
    r.push(
        task(
            "waiting",
            "Release build",
            "Compiling dependencies and waiting for the linker to finish",
            None,
            false,
        ),
    );
    r.push(task("done", "Formatting", "✓ completed · 8.2s · exit 0", None, true));
    assert(transcript::item_views(r@) =~= background_tasks());
    r
}

/// A group of tasks that is done.
pub open spec fn completed_todos() -> Seq<transcript::ItemView> {
    seq![
        transcript::ItemView::User("Keep the task group visible after the work finishes"@),
        transcript::ItemView::Todos(
            todos::PayloadView {
                todos: seq![
                    card("Use the todo group name"@, "completed"@, Some("Todo group header"@)),
                    card("Verify the completed header"@, "completed"@, Some("Todo group header"@)),
                ],
                user_intention: None,
            },
        ),
        transcript::ItemView::Assistant(
            "The completed header now keeps the task group name. The green dots show that both tasks are complete."@,
        ),
    ]
}

fn completed_todo_items() -> (r: Vec<Item>)
    ensures
        transcript::item_views(r@) == completed_todos(),
{
    let mut cards: Vec<TodoCardItem> = Vec::new();
    cards.push(card_of("Use the todo group name", "completed", Some("Todo group header")));
    cards.push(card_of("Verify the completed header", "completed", Some("Todo group header")));
    assert(todos::card_views(cards@) =~= seq![
        card("Use the todo group name"@, "completed"@, Some("Todo group header"@)),
        card("Verify the completed header"@, "completed"@, Some("Todo group header"@)),
    ]);
    let mut r: Vec<Item> = Vec::new();
    r.push(user("Keep the task group visible after the work finishes"));
    r.push(
        Item::Todos(TodoCardPayload { todos: cards, plan: TodoCardPlan { user_intention: None } }),
    );
    r.push(
        assistant(
            "The completed header now keeps the task group name. The green dots show that both tasks are complete.",
        ),
    );
    assert(transcript::item_views(r@) =~= completed_todos());
    r
}

/// The tools that have an icon, and one that has none.
pub open spec fn icon_names() -> Seq<Seq<char>> {
    seq![
        "read"@,
        "write"@,
        "edit"@,
        "multiedit"@,
        "apply_patch"@,
        "bash"@,
        "ls"@,
        "agentgrep"@,
        "websearch"@,
        "webfetch"@,
        "browser"@,
        "gmail"@,
        "memory"@,
        "todo"@,
        "schedule"@,
        "swarm"@,
        "batch"@,
        "mcp"@,
        "custom_tool"@,
    ]
}

/// The call that shows the icon of one tool: the sixth still runs, the twelfth has failed.
pub open spec fn icon(index: int) -> transcript::ItemView {
    transcript::ItemView::Tool {
        call_id: "icon-"@ + text::decimal(index as nat),
        name: icon_names()[index],
        input: "{\"intent\":\""@ + icon_names()[index] + " tool\"}"@,
        output: "Done"@,
        done: index != 5,
        error: if index == 11 {
            Some("Example error"@)
        } else {
            None
        },
    }
}

/// One call of every tool.
pub open spec fn tool_icons() -> Seq<transcript::ItemView> {
    Seq::new(19, |i: int| icon(i))
}

fn icon_item(index: usize, name: &str) -> (r: Item)
    requires
        index < 19,
        name@ == icon_names()[index as int],
    ensures
        r@ == icon(index as int),
{
    let error: Option<String> = if index == 11 {
        Some("Example error".to_owned())
    } else {
        None
    };
    Item::Tool {
        call_id: concat("icon-", decimal_of(index as u64).as_str()),
        name: name.to_owned(),
        input: concat3("{\"intent\":\"", name, " tool\"}"),
        output: "Done".to_owned(),
        done: index != 5,
        error,
    }
}

fn tool_icon_items() -> (r: Vec<Item>)
    ensures
        transcript::item_views(r@) == tool_icons(),
{
    let names = [
        "read",
        "write",
        "edit",
        "multiedit",
        "apply_patch",
        "bash",
        "ls",
        "agentgrep",
        "websearch",
        "webfetch",
        "browser",
        "gmail",
        "memory",
        "todo",
        "schedule",
        "swarm",
        "batch",
        "mcp",
        "custom_tool",
    ];
    let mut r: Vec<Item> = Vec::new();
    let mut i: usize = 0;
    while i < 19
        invariant
            i <= 19,
            names@.len() == 19,
            forall|k: int| 0 <= k < 19 ==> (#[trigger] names@[k])@ == icon_names()[k],
            transcript::item_views(r@) == tool_icons().take(i as int),
        decreases 19 - i,
    {
        let ghost before = r@;
        r.push(icon_item(i, names[i]));
        i = i + 1;
        assert(transcript::item_views(r@) =~= transcript::item_views(before).push(
            icon(i as int - 1),
        ));
        assert(transcript::item_views(r@) =~= tool_icons().take(i as int));
    }
    assert(transcript::item_views(r@) =~= tool_icons());
    r
}

/// One message of the long transcript.
pub open spec fn numbered_text(index: int) -> Seq<char> {
    "Message "@ + text::decimal(index as nat)
        + ": **formatted** text and `inline code`.\n\nA second paragraph for layout."@
}

/// The two sides take turns.
pub open spec fn numbered(index: int) -> transcript::ItemView {
    if index % 2 == 0 {
        transcript::ItemView::User(numbered_text(index))
    } else {
        transcript::ItemView::Assistant(numbered_text(index))
    }
}

/// How many messages the long transcript holds.
pub const LONG_HISTORY: usize = 10_000;

/// A transcript long enough to measure its layout.
pub open spec fn long_history() -> Seq<transcript::ItemView> {
    Seq::new(LONG_HISTORY as nat, |i: int| numbered(i))
}

fn long_history_items() -> (r: Vec<Item>)
    ensures
        transcript::item_views(r@) == long_history(),
{
    let mut r: Vec<Item> = Vec::new();
    let mut i: usize = 0;
    while i < LONG_HISTORY
        invariant
            i <= LONG_HISTORY,
            transcript::item_views(r@) == long_history().take(i as int),
        decreases LONG_HISTORY - i,
    {
        let ghost before = r@;
        let said = concat3(
            "Message ",
            decimal_of(i as u64).as_str(),
            ": **formatted** text and `inline code`.\n\nA second paragraph for layout.",
        );
        if i % 2 == 0 {
            r.push(Item::User(said));
        } else {
            r.push(Item::Assistant(said));
        }
        i = i + 1;
        assert(transcript::item_views(r@) =~= transcript::item_views(before).push(
            numbered(i as int - 1),
        ));
        assert(transcript::item_views(r@) =~= long_history().take(i as int));
    }
    assert(transcript::item_views(r@) =~= long_history());
    r
}

/// `s`, `n` times over.
pub open spec fn repeated(s: Seq<char>, n: nat) -> Seq<char>
    decreases n,
{
    if n == 0 {
        Seq::empty()
    } else {
        repeated(s, (n - 1) as nat) + s
    }
}

fn repeat(s: &str, n: usize) -> (r: String)
    ensures
        r@ == repeated(s@, n as nat),
{
    let mut r = String::new();
    let mut i: usize = 0;
    while i < n
        invariant
            i <= n,
            r@ == repeated(s@, i as nat),
        decreases n - i,
    {
        r.append(s);
        i = i + 1;
    }
    r
}

/// A call whose output holds about as many tokens as given.
pub open spec fn weighed(index: nat, summary: Seq<char>, tokens: nat) -> transcript::ItemView {
    answered(
        "token-fixture-"@ + text::decimal(index),
        "bash"@,
        "{\"command\":\"example\",\"intent\":\""@ + summary + "\"}"@,
        repeated("data"@, tokens),
    )
}

fn weighed_call(index: u64, summary: &str, tokens: usize) -> (r: Item)
    ensures
        r@ == weighed(index as nat, summary@, tokens as nat),
{
    let call_id = concat("token-fixture-", decimal_of(index).as_str());
    let input = concat3("{\"command\":\"example\",\"intent\":\"", summary, "\"}");
    let output = repeat("data", tokens);
    answered_call(call_id.as_str(), "bash", input.as_str(), output.as_str())
}

/// Outputs from nothing to far too much, and the figures of the response.
pub open spec fn token_costs(stats: transcript::StatsView) -> Seq<transcript::ItemView> {
    seq![
        transcript::ItemView::User("Show tool output token costs instead of line counts."@),
        weighed(0, "Small output"@, 1_900),
        weighed(1, "Large output"@, 4_000),
        weighed(2, "Very large output"@, 12_000),
        weighed(3, "Empty output"@, 0),
        weighed(4, "Single-line output"@, 1),
        transcript::ItemView::Assistant(
            "The response is complete. Its totals appear below, separate from the context and account meters."@,
        ),
        transcript::ItemView::ResponseStats(stats),
    ]
}

fn token_cost_items(stats: ResponseStats) -> (r: Vec<Item>)
    ensures
        transcript::item_views(r@) == token_costs(stats@),
{
    let ghost figures = stats@;
    let mut r: Vec<Item> = Vec::new();
    r.push(user("Show tool output token costs instead of line counts."));
    r.push(weighed_call(0, "Small output", 1_900));
    r.push(weighed_call(1, "Large output", 4_000));
    r.push(weighed_call(2, "Very large output", 12_000));
    r.push(weighed_call(3, "Empty output", 0));
    r.push(weighed_call(4, "Single-line output", 1));
    r.push(
        assistant(
            "The response is complete. Its totals appear below, separate from the context and account meters.",
        ),
    );
    r.push(Item::ResponseStats(stats));
    assert(transcript::item_views(r@) =~= token_costs(figures));
    r
}

/// An image that a tool has read, behind the call of that tool.
pub open spec fn image_read(image: transcript::ImageView) -> Seq<transcript::ItemView> {
    seq![
        transcript::ItemView::User("Read this chart and tell me what it shows."@),
        answered(
            "read-chart"@,
            "read"@,
            "{\"file_path\":\"chart.png\",\"intent\":\"Read the chart\"}"@,
            "Image loaded"@,
        ),
        transcript::ItemView::Image(
            transcript::ImageView {
                source: transcript::SourceView::ToolResult { tool_name: "read"@ },
                anchor: Some(transcript::AnchorView::ToolCall { id: "read-chart"@ }),
                ..image
            },
        ),
        transcript::ItemView::Assistant(
            "The chart compares three bars. Click the image above to see it larger."@,
        ),
    ]
}

fn image_read_items(image: TranscriptImage) -> (r: Vec<Item>)
    ensures
        transcript::item_views(r@) == image_read(image@),
{
    let ghost shown = image@;
    let image = TranscriptImage {
        media_type: image.media_type,
        data: image.data,
        label: image.label,
        preview: image.preview,
        source: ImageSource::ToolResult { tool_name: "read".to_owned() },
        anchor: Some(ImageAnchor::ToolCall { id: "read-chart".to_owned() }),
    };
    let mut r: Vec<Item> = Vec::new();
    r.push(user("Read this chart and tell me what it shows."));
    r.push(
        answered_call(
            "read-chart",
            "read",
            "{\"file_path\":\"chart.png\",\"intent\":\"Read the chart\"}",
            "Image loaded",
        ),
    );
    r.push(Item::Image(image));
    r.push(assistant("The chart compares three bars. Click the image above to see it larger."));
    assert(transcript::item_views(r@) =~= image_read(shown));
    r
}

/// A question and its answer.
pub open spec fn exchange(asked: Seq<char>, answer: Seq<char>) -> Seq<transcript::ItemView> {
    seq![transcript::ItemView::User(asked), transcript::ItemView::Assistant(answer)]
}

fn exchange_items(asked: &str, answer: String) -> (r: Vec<Item>)
    ensures
        transcript::item_views(r@) == exchange(asked@, answer@),
{
    let ghost said = answer@;
    let mut r: Vec<Item> = Vec::new();
    r.push(user(asked));
    r.push(Item::Assistant(answer));
    assert(transcript::item_views(r@) =~= exchange(asked@, said));
    r
}

/// The diagram that is drawn where no other is asked for.
pub open spec fn diagram(source: Option<Seq<char>>) -> Seq<char> {
    match source {
        Some(source) => source,
        None => "flowchart LR\n    A[Idea] --> B[Build]\n    B --> C[Test]\n    C -->|Pass| D[Ship]\n    C -->|Needs work| B"@,
    }
}

/// Thoughts in between, as items and inside an answer.
pub open spec fn thoughts(first: Seq<char>, second: Seq<char>) -> Seq<transcript::ItemView> {
    seq![
        transcript::ItemView::User("Can you make the thinking display feel quieter?"@),
        transcript::ItemView::Reasoning(
            "The content should read like part of the conversation, not another interface to manage. I'll keep it in a **dimmed font**, aligned with the answer, and remove the surrounding labels and controls."@,
        ),
        transcript::ItemView::Reasoning(
            "## Keep the presentation simple\n\n- No card background or border\n- No thinking label or expand button\n- Preserve the full text and Markdown formatting"@,
        ),
        transcript::ItemView::Assistant(
            first + "\n"@ + second
                + "\nThinking now appears as subtle inline text. The answer keeps its normal contrast, so it's easy to tell the two apart."@,
        ),
    ]
}

fn thought_items(first: &str, second: &str) -> (r: Vec<Item>)
    ensures
        transcript::item_views(r@) == thoughts(first@, second@),
{
    let said = concat(
        concat3(first, "\n", second).as_str(),
        "\nThinking now appears as subtle inline text. The answer keeps its normal contrast, so it's easy to tell the two apart.",
    );
    let mut r: Vec<Item> = Vec::new();
    r.push(user("Can you make the thinking display feel quieter?"));
    r.push(
        reasoning(
            "The content should read like part of the conversation, not another interface to manage. I'll keep it in a **dimmed font**, aligned with the answer, and remove the surrounding labels and controls.",
        ),
    );
    r.push(
        reasoning(
            "## Keep the presentation simple\n\n- No card background or border\n- No thinking label or expand button\n- Preserve the full text and Markdown formatting",
        ),
    );
    r.push(Item::Assistant(said));
    assert(transcript::item_views(r@) =~= thoughts(first@, second@));
    r
}

/// The lines of a build, in colour, of as many crates as given.
pub open spec fn build_log(n: nat) -> Seq<char>
    decreases n,
{
    if n == 0 {
        Seq::empty()
    } else {
        let number = text::decimal((n - 1) as nat);
        build_log((n - 1) as nat) + "\u{1b}[32m   Compiling\u{1b}[0m crate-"@ + number
            + " v0.1."@ + number + "\n"@
    }
}

fn build_lines(n: usize) -> (r: String)
    ensures
        r@ == build_log(n as nat),
{
    let mut r = String::new();
    let mut i: usize = 0;
    while i < n
        invariant
            i <= n,
            r@ == build_log(i as nat),
        decreases n - i,
    {
        let number = decimal_of(i as u64);
        r.append("\u{1b}[32m   Compiling\u{1b}[0m crate-");
        r.append(number.as_str());
        r.append(" v0.1.");
        r.append(number.as_str());
        r.append("\n");
        i = i + 1;
    }
    r
}

/// The tasks of the survey, one in every state.
pub open spec fn survey_cards() -> Seq<todos::CardView> {
    seq![
        card("Add compact todo progress dots"@, "completed"@, Some("Desktop"@)),
        card(
            "Keep the pinned plan compact while the detailed card stays in the transcript"@,
            "in_progress"@,
            Some("Desktop"@),
        ),
        card("Inspect the real offline screenshot"@, "pending"@, Some("Validation"@)),
        card("Retired task"@, "cancelled"@, None),
    ]
}

fn survey_card_items() -> (r: Vec<TodoCardItem>)
    ensures
        todos::card_views(r@) == survey_cards(),
{
    let mut r: Vec<TodoCardItem> = Vec::new();
    r.push(card_of("Add compact todo progress dots", "completed", Some("Desktop")));
    r.push(
        card_of(
            "Keep the pinned plan compact while the detailed card stays in the transcript",
            "in_progress",
            Some("Desktop"),
        ),
    );
    r.push(card_of("Inspect the real offline screenshot", "pending", Some("Validation")));
    r.push(card_of("Retired task", "cancelled", None));
    assert(todos::card_views(r@) =~= survey_cards());
    r
}

/// One item of every shape.
pub open spec fn survey(stats: transcript::StatsView) -> Seq<transcript::ItemView> {
    seq![
        transcript::ItemView::User(
            "Explain **markdown** rendering and show `code`, a [link](https://example.com), ~~old~~ new."@,
        ),
        transcript::ItemView::Reasoning(
            "The user wants a survey of the renderer. I should cover blocks, inline spans, and how streaming text is handled while a turn is still in flight, then mention the tables and code paths in order."@,
        ),
        answered(
            "1"@,
            "bash"@,
            "{\"command\":\"cargo test --offline\",\"intent\":\"run the suite\"}"@,
            "test result: ok. 61 passed"@,
        ),
        transcript::ItemView::Tool {
            call_id: "2"@,
            name: "read"@,
            input: "{\"file_path\":\"src/markdown.rs\"}"@,
            output: Seq::empty(),
            done: false,
            error: None,
        },
        answered(
            "3"@,
            "bash"@,
            "{\"command\":\"cargo build 2>&1\",\"intent\":\"noisy build\"}"@,
            build_log(90),
        ),
        transcript::ItemView::Todos(
            todos::PayloadView {
                todos: survey_cards(),
                user_intention: Some("See current work without losing transcript space"@),
            },
        ),
        transcript::ItemView::Assistant(
            "# Heading one\n## Heading two\n\nA paragraph with *italic*, **bold**, `inline code`, and math $e^{i\\pi}+1=0$ plus \\(n \\to \\infty\\).\n\n- top level\n  - nested item\n- [x] finished task\n- [ ] pending task\n\n1. first\n2. second\n\n> A quote line\n> continued here\n\n| block | supported |\n| --- | --- |\n| tables | yes |\n| code | yes |\n\n```rust\nfn main() {\n    // a comment\n    let name = \"world\";\n    println!(\"hello {name}\");\n}\n```\n\n$$\n\\sum_{i=0}^{n} i^2\n$$\n\n\\[ E = mc^2 \\]\n\n---\n\nDone."@,
        ),
        transcript::ItemView::ResponseStats(stats),
        transcript::ItemView::Error("provider returned 429: rate limited, retrying"@),
    ]
}

/// The sample of every item, with the figures of a response.
pub fn demo_item_fixtures(stats: ResponseStats) -> (r: Vec<Item>)
    ensures
        transcript::item_views(r@) == survey(stats@),
{
    let ghost figures = stats@;
    let mut r: Vec<Item> = Vec::new();
    r.push(
        user(
            "Explain **markdown** rendering and show `code`, a [link](https://example.com), ~~old~~ new.",
        ),
    );
    r.push(
        reasoning(
            "The user wants a survey of the renderer. I should cover blocks, inline spans, and how streaming text is handled while a turn is still in flight, then mention the tables and code paths in order.",
        ),
    );
    r.push(
        answered_call(
            "1",
            "bash",
            "{\"command\":\"cargo test --offline\",\"intent\":\"run the suite\"}",
            "test result: ok. 61 passed",
        ),
    );
    r.push(
        Item::Tool {
            call_id: "2".to_owned(),
            name: "read".to_owned(),
            input: "{\"file_path\":\"src/markdown.rs\"}".to_owned(),
            output: String::new(),
            done: false,
            error: None,
        },
    );
    r.push(
        answered_call(
            "3",
            "bash",
            "{\"command\":\"cargo build 2>&1\",\"intent\":\"noisy build\"}",
            build_lines(90).as_str(),
        ),
    );
    r.push(
        Item::Todos(
            TodoCardPayload {
                todos: survey_card_items(),
                plan: TodoCardPlan {
                    user_intention: Some(
                        "See current work without losing transcript space".to_owned(),
                    ),
                },
            },
        ),
    );
    r.push(
        assistant(
            "# Heading one\n## Heading two\n\nA paragraph with *italic*, **bold**, `inline code`, and math $e^{i\\pi}+1=0$ plus \\(n \\to \\infty\\).\n\n- top level\n  - nested item\n- [x] finished task\n- [ ] pending task\n\n1. first\n2. second\n\n> A quote line\n> continued here\n\n| block | supported |\n| --- | --- |\n| tables | yes |\n| code | yes |\n\n```rust\nfn main() {\n    // a comment\n    let name = \"world\";\n    println!(\"hello {name}\");\n}\n```\n\n$$\n\\sum_{i=0}^{n} i^2\n$$\n\n\\[ E = mc^2 \\]\n\n---\n\nDone.",
        ),
    );
    r.push(Item::ResponseStats(stats));
    r.push(Item::Error("provider returned 429: rate limited, retrying".to_owned()));
    assert(transcript::item_views(r@) =~= survey(figures));
    r
}

/// The transcript that a screenshot asks for by name; the survey where it asks for no
/// other.
pub open spec fn pictured(name: Seq<char>, material: MaterialView) -> Seq<transcript::ItemView> {
    if name == "background-tasks"@ {
        background_tasks()
    } else if name == "todos-completed"@ {
        completed_todos()
    } else if name == "prompts"@ {
        material.prompts
    } else if name == "tool-icons"@ {
        tool_icons()
    } else if name == "tool-streaming"@ {
        material.tool_streaming
    } else if name == "empty"@ {
        Seq::empty()
    } else if name == "long-history"@ {
        long_history()
    } else if name == "diff"@ {
        material.diff
    } else if name == "diff-rich"@ {
        exchange(
            "Make these changes easier to review."@,
            "The title now has a clearer fallback and a Unicode-safe length limit.\n\n```diff\n"@
                + material.change_review + "```"@,
        )
    } else if name == "mermaid"@ {
        exchange(
            "Can you render a Mermaid diagram?"@,
            "Here is a Mermaid diagram:\n\n```mermaid\n"@ + diagram(material.mermaid) + "\n```"@,
        )
    } else if name == "tokens"@ {
        token_costs(material.stats)
    } else if name == "image"@ {
        image_read(material.image)
    } else if name == "html"@ {
        exchange(
            "Show me different fonts directly in this chat."@,
            "Here are live font pairings. Click inside to interact.\n\n```html-preview\n"@
                + material.font_pairings + "\n```"@,
        )
    } else if name == "streaming"@ {
        exchange(
            "Make it easier to see which panels are still working."@,
            "I'll add a small spinner and a subtle accent tint, while keeping the conversation easy to read."@,
        )
    } else if name == "reasoning"@ {
        thoughts(material.first_thought, material.second_thought)
    } else {
        survey(material.stats)
    }
}

fn pictured_items(name: &str, material: Material) -> (r: Vec<Item>)
    ensures
        transcript::item_views(r@) == pictured(name@, material@),
{
    if same(name, "background-tasks") {
        background_task_items()
    } else if same(name, "todos-completed") {
        completed_todo_items()
    } else if same(name, "prompts") {
        material.prompts
    } else if same(name, "tool-icons") {
        tool_icon_items()
    } else if same(name, "tool-streaming") {
        material.tool_streaming
    } else if same(name, "empty") {
        let r: Vec<Item> = Vec::new();
        assert(transcript::item_views(r@) =~= Seq::empty());
        r
    } else if same(name, "long-history") {
        long_history_items()
    } else if same(name, "diff") {
        material.diff
    } else if same(name, "diff-rich") {
        exchange_items(
            "Make these changes easier to review.",
            concat3(
                "The title now has a clearer fallback and a Unicode-safe length limit.\n\n```diff\n",
                material.change_review.as_str(),
                "```",
            ),
        )
    } else if same(name, "mermaid") {
        let source = match material.mermaid {
            Some(source) => source,
            None => "flowchart LR\n    A[Idea] --> B[Build]\n    B --> C[Test]\n    C -->|Pass| D[Ship]\n    C -->|Needs work| B".to_owned(),
        };
        exchange_items(
            "Can you render a Mermaid diagram?",
            concat3("Here is a Mermaid diagram:\n\n```mermaid\n", source.as_str(), "\n```"),
        )
    } else if same(name, "tokens") {
        token_cost_items(material.stats)
    } else if same(name, "image") {
        image_read_items(material.image)
    } else if same(name, "html") {
        exchange_items(
            "Show me different fonts directly in this chat.",
            concat3(
                "Here are live font pairings. Click inside to interact.\n\n```html-preview\n",
                material.font_pairings.as_str(),
                "\n```",
            ),
        )
    } else if same(name, "streaming") {
        exchange_items(
            "Make it easier to see which panels are still working.",
            "I'll add a small spinner and a subtle accent tint, while keeping the conversation easy to read.".to_owned(),
        )
    } else if same(name, "reasoning") {
        thought_items(material.first_thought.as_str(), material.second_thought.as_str())
    } else {
        demo_item_fixtures(material.stats)
    }
}

/// What a panel starts from: in a screenshot the transcript asked for, elsewhere the
/// survey where samples are wanted and nothing where they are not.
pub open spec fn sampled(
    screenshot: bool,
    name: Option<Seq<char>>,
    wanted: bool,
    material: MaterialView,
) -> Seq<transcript::ItemView> {
    if screenshot {
        match name {
            Some(name) => pictured(name, material),
            None => survey(material.stats),
        }
    } else if wanted {
        survey(material.stats)
    } else {
        Seq::empty()
    }
}

/// The items that a panel starts from. `screenshot` and `wanted` are what the
/// environment asks for, and `name` the transcript of a screenshot.
pub fn demo_items(screenshot: bool, name: Option<&str>, wanted: bool, material: Material) -> (r:
    Vec<Item>)
    ensures
        transcript::item_views(r@) == sampled(screenshot, labels::view_of(name), wanted, material@),
{
    if screenshot {
        match name {
            Some(name) => pictured_items(name, material),
            None => demo_item_fixtures(material.stats),
        }
    } else if wanted {
        demo_item_fixtures(material.stats)
    } else {
        let r: Vec<Item> = Vec::new();
        assert(transcript::item_views(r@) =~= Seq::empty());
        r
    }
}

/// What streams into a pictured panel.
pub open spec fn pictured_stream() -> Seq<char> {
    "I’m checking the implementation and updating the active panel indicators as the response arrives…"@
}

/// The panel as a screenshot wants it: the session of the fixture streams, the token costs
/// have a model behind them, and the tasks are shown in place of the conversation.
pub open spec fn posed(p: panel::PanelView, name: Seq<char>) -> panel::PanelView {
    if (name == "streaming"@ || name == "mermaid"@) && p.session_id == "screenshot-fixture"@ {
        panel::PanelView { streaming_text: pictured_stream(), ..p }
    } else if name == "tokens"@ {
        panel::PanelView {
            model: Some("gpt-5.6-sol"@),
            provider: Some("openai"@),
            auth_method: Some("oauth"@),
            context_tokens: Some(100_000),
            ..p
        }
    } else if name == "todos"@ {
        panel::PanelView { contents: PanelContents { tasks: true, ..p.contents }, ..p }
    } else {
        p
    }
}

/// How many tasks the pictured list holds.
pub const PICTURED_TASKS: usize = 80;

impl Panel {
    fn pose_stream(&mut self)
        ensures
            final(self)@ == (panel::PanelView { streaming_text: pictured_stream(), ..old(self)@ }),
    {
        self.streaming_text =
        "I’m checking the implementation and updating the active panel indicators as the response arrives…".to_owned();
    }

    fn pose_usage(&mut self)
        ensures
            final(self)@ == (panel::PanelView {
                model: Some("gpt-5.6-sol"@),
                provider: Some("openai"@),
                auth_method: Some("oauth"@),
                context_tokens: Some(100_000),
                ..old(self)@
            }),
    {
        self.model = Some("gpt-5.6-sol".to_owned());
        self.provider = Some("openai".to_owned());
        self.auth_method = Some("oauth".to_owned());
        self.context_tokens = Some(100_000);
    }

    fn show(&mut self, contents: PanelContents)
        ensures
            final(self)@ == (panel::PanelView { contents, ..old(self)@ }),
    {
        self.contents = contents;
    }

    fn pose_tasks(&mut self)
        ensures
            final(self)@ == (panel::PanelView {
                contents: PanelContents { tasks: true, ..old(self)@.contents },
                ..old(self)@
            }),
    {
        self.show(PanelContents { tasks: true, ..self.contents });
    }

    /// Fills a new panel as a screenshot of the transcript `name` wants it. Returns the
    /// tasks that it shows, if any.
    pub fn pose(&mut self, screenshot: bool, name: Option<&str>) -> (r: Option<TodoistPanelState>)
        ensures
            final(self)@ == (match name {
                Some(name) if screenshot => posed(old(self)@, name@),
                _ => old(self)@,
            }),
            match r {
                Some(state) => screenshot && labels::view_of(name) == Some("todos"@)
                    && todoist::is_fixture(state, PICTURED_TASKS as int),
                None => !(screenshot && labels::view_of(name) == Some("todos"@)),
            },
    {
        proof {
            reveal_strlit("streaming");
            reveal_strlit("mermaid");
            reveal_strlit("tokens");
            reveal_strlit("todos");
            assert("todos"@.len() == 5);
            assert("tokens"@.len() == 6);
            assert("streaming"@.len() == 9);
            assert("mermaid"@.len() == 7);
        }
        let name = match name {
            Some(name) => name,
            None => return None,
        };
        if !screenshot {
            return None;
        }
        if (same(name, "streaming") || same(name, "mermaid")) && same(
            self.session_id.as_str(),
            "screenshot-fixture",
        ) {
            self.pose_stream();
            None
        } else if same(name, "tokens") {
            self.pose_usage();
            None
        } else if same(name, "todos") {
            self.pose_tasks();
            Some(TodoistPanelState::fixture(PICTURED_TASKS))
        } else {
            None
        }
    }
}

/// How many models the pictured choice holds.
pub const PICTURED_MODELS: usize = 14;

/// The provider of a pictured model.
pub open spec fn pictured_provider(i: int) -> Seq<char> {
    if i == 0 {
        "anthropic"@
    } else if i == 1 {
        "google"@
    } else {
        "openai"@
    }
}

/// A number with at least two digits.
pub open spec fn two_digits(n: nat) -> Seq<char> {
    if n < 10 {
        "0"@ + text::decimal(n)
    } else {
        text::decimal(n)
    }
}

/// The name of a pictured model.
pub open spec fn pictured_model(i: int) -> Seq<char> {
    if i == 0 {
        "anthropic:sonnet-review"@
    } else if i == 1 {
        "google:gemini-review"@
    } else {
        "openai:atlas-"@ + two_digits((i - 1) as nat)
    }
}

/// Whether a route is the pictured one of the given number.
pub open spec fn is_pictured_route(route: ModelRoute, i: int) -> bool {
    &&& route.model@ == pictured_model(i)
    &&& route.provider@ == pictured_provider(i)
    &&& route.api_method@ == pictured_provider(i) + "-api-key"@
    &&& route.available
}

fn pictured_route(i: usize) -> (r: ModelRoute)
    requires
        i < PICTURED_MODELS,
    ensures
        is_pictured_route(r, i as int),
{
    let provider = if i == 0 {
        "anthropic"
    } else if i == 1 {
        "google"
    } else {
        "openai"
    };
    let model = if i == 0 {
        "anthropic:sonnet-review".to_owned()
    } else if i == 1 {
        "google:gemini-review".to_owned()
    } else {
        let number = decimal_of((i - 1) as u64);
        let digits = if i - 1 < 10 {
            concat("0", number.as_str())
        } else {
            number
        };
        concat("openai:atlas-", digits.as_str())
    };
    ModelRoute {
        model,
        provider: provider.to_owned(),
        api_method: concat(provider, "-api-key"),
        available: true,
    }
}

/// What the runtime would tell of the models that a screenshot shows.
pub fn demo_runtime(session_id: String) -> (r: ApiEvent)
    ensures
        r matches ApiEvent::Session {
            session_id: id,
            event: SessionEvent::RuntimeInfo { provider, model, routes, reasoning_effort },
        } && id == session_id && text::text_option(provider) == Some("openai"@)
            && text::text_option(model) == Some("openai:atlas-01"@) && reasoning_effort is None
            && routes@.len() == PICTURED_MODELS && forall|i: int|
            0 <= i < PICTURED_MODELS ==> is_pictured_route(#[trigger] routes@[i], i),
{
    let mut routes: Vec<ModelRoute> = Vec::new();
    let mut i: usize = 0;
    while i < PICTURED_MODELS
        invariant
            i <= PICTURED_MODELS,
            routes@.len() == i,
            forall|k: int| 0 <= k < i ==> is_pictured_route(#[trigger] routes@[k], k),
        decreases PICTURED_MODELS - i,
    {
        routes.push(pictured_route(i));
        i = i + 1;
    }
    ApiEvent::Session {
        session_id,
        event: SessionEvent::RuntimeInfo {
            provider: Some("openai".to_owned()),
            model: Some("openai:atlas-01".to_owned()),
            routes,
            reasoning_effort: None,
        },
    }
}

/// Two weeks, in seconds.
pub const TWO_WEEKS: u64 = 1_209_600;

/// How the pictured models of a provider were used, as told at `now`.
pub open spec fn pictured_use(provider: Seq<char>, now: u64) -> Option<ModelUsage> {
    if provider == "anthropic"@ {
        Some(
            ModelUsage {
                count: 42,
                last_used: (now - 7_200) as u64,
                tracking_started: (now - TWO_WEEKS) as u64,
                selection_count: 5,
                last_selected: (now - 7_200) as u64,
            },
        )
    } else if provider == "google"@ {
        Some(
            ModelUsage {
                count: 7,
                last_used: (now - 259_200) as u64,
                tracking_started: (now - TWO_WEEKS) as u64,
                selection_count: 2,
                last_selected: (now - 259_200) as u64,
            },
        )
    } else {
        None
    }
}

/// How the pictured models of a provider were used, as told at `now`.
pub fn demo_usage(provider: &str, now: u64) -> (r: Option<ModelUsage>)
    requires
        now >= TWO_WEEKS,
    ensures
        r == pictured_use(provider@, now),
{
    if same(provider, "anthropic") {
        Some(
            ModelUsage {
                count: 42,
                last_used: now - 7_200,
                tracking_started: now - TWO_WEEKS,
                selection_count: 5,
                last_selected: now - 7_200,
            },
        )
    } else if same(provider, "google") {
        Some(
            ModelUsage {
                count: 7,
                last_used: now - 259_200,
                tracking_started: now - TWO_WEEKS,
                selection_count: 2,
                last_selected: now - 259_200,
            },
        )
    } else {
        None
    }
}

/// A picture of any other transcript leaves the panel as it was opened.
pub proof fn only_named_pictures_pose(p: panel::PanelView, name: Seq<char>)
    requires
        name != "streaming"@,
        name != "mermaid"@,
        name != "tokens"@,
        name != "todos"@,
    ensures
        posed(p, name) == p,
{
}

/// A session starts from an empty transcript: samples appear only where a screenshot is
/// taken or they are asked for.
pub proof fn sessions_start_empty(name: Option<Seq<char>>, material: MaterialView)
    ensures
        sampled(false, name, false, material).len() == 0,
{
}

} // verus!
