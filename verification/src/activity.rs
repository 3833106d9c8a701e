//! What a panel tells of its session: how busy it is, and how its rows are laid out.
use vstd::prelude::*;

use crate::composer;
use crate::labels;
use crate::labels::{condense, strip_ansi, tool_detail, tool_summary};
use crate::panel;
use crate::panel::Panel;
use crate::text;
use crate::text::{chars_of, concat, concat3, contains, decimal_of, lowered, same, starts_with, trimmed};
use crate::todos;
use crate::todos::{parse_todo_tool_output, TodoCardPayload, Tone};
use crate::transcript;
use crate::transcript::{Item, TranscriptImage};

verus! {

pub open spec fn spaced(s: Seq<char>) -> Seq<char> {
    s.map_values(
        |c: char|
            if c == '_' {
                ' '
            } else {
                c
            },
    )
}

/// The text with spaces for underscores.
pub fn with_spaces(s: &str) -> (r: String)
    ensures
        r@ == spaced(s@),
{
    let v = chars_of(s);
    let n: usize = v.len();
    let mut r = String::new();
    let mut i: usize = 0;
    while i < n
        invariant
            i <= n,
            n == v@.len(),
            v@ == s@,
            r@ == spaced(s@).take(i as int),
        decreases n - i,
    {
        let c = if v[i] == '_' {
            ' '
        } else {
            v[i]
        };
        assert(spaced(s@).take(i + 1) =~= spaced(s@).take(i as int).push(c));
        r.push(c);
        i += 1;
    }
    assert(spaced(s@).take(n as int) =~= spaced(s@));
    r
}

/// Whether a status tells of a failure.
pub open spec fn is_failure(status: Seq<char>) -> bool {
    text::holds(text::lower_all(status), "error"@) || text::holds(
        text::lower_all(status),
        "crash"@,
    )
}

pub open spec fn is_working(status: Seq<char>) -> bool {
    let s = text::lower_all(status);
    s == "generating"@ || s == "running"@ || s == "busy"@ || s == "thinking"@ || s == "streaming"@
        || s == "running_tools"@
}

/// Whether the session is at work.
pub open spec fn is_active(p: panel::PanelView) -> bool {
    &&& !is_failure(p.status)
    &&& !text::starts(text::lower_all(p.status), "lost:"@)
    &&& (p.streaming_text.len() > 0 || p.streaming_reasoning.len() > 0 || text::trim(
        p.connection_phase,
    ) == "streaming"@ || is_working(p.status))
}

pub open spec fn status_words(status: Seq<char>) -> Seq<char> {
    if status == "idle"@ || status == "connected"@ {
        "Ready"@
    } else if status == "busy"@ || status == "running"@ || status == "generating"@ {
        "Working"@
    } else if status == "thinking"@ {
        "Thinking"@
    } else if status == "streaming"@ {
        "Responding"@
    } else if status == "running_tools"@ {
        "Running tools"@
    } else {
        spaced(status)
    }
}

/// The line that tells what the session does; what the transport does comes before that
/// unless it only carries the answer.
pub open spec fn status_of(p: panel::PanelView) -> Seq<char> {
    let phase = text::trim(p.connection_phase);
    if phase.len() > 0 && phase != "connected"@ && phase != "streaming"@ {
        spaced(phase)
    } else if is_active(p) && p.streaming_reasoning.len() > 0 {
        "Thinking"@
    } else if is_active(p) && (p.streaming_text.len() > 0 || (phase == "streaming"@ && p.status
        != "running_tools"@)) {
        "Responding"@
    } else {
        status_words(p.status)
    }
}

/// The last list of todos that was shown below `n`.
pub open spec fn last_shown_todos(items: Seq<transcript::ItemView>, n: int) -> Option<
    todos::PayloadView,
>
    decreases n,
{
    if n <= 0 || n > items.len() {
        None
    } else if let transcript::ItemView::Todos(payload) = items[n - 1] {
        Some(payload)
    } else {
        last_shown_todos(items, n - 1)
    }
}

/// How many todos are completed, and of how many.
pub open spec fn progress_of(p: panel::PanelView) -> Option<(nat, nat)> {
    match last_shown_todos(p.items, p.items.len() as int) {
        Some(payload) => Some((todos::completed(payload.todos), payload.todos.len())),
        None => None,
    }
}

/// A session as the minimap marks it.
#[derive(Clone, Copy, PartialEq, Eq, Debug, Structural)]
pub enum MinimapSessionState {
    Idle,
    Working,
    Streaming,
    Complete,
    Error,
}

pub open spec fn marked(p: panel::PanelView) -> MinimapSessionState {
    if is_failure(p.status) || (p.items.len() > 0 && p.items.last() is Error) {
        MinimapSessionState::Error
    } else if p.streaming_text.len() > 0 || p.streaming_reasoning.len() > 0 {
        MinimapSessionState::Streaming
    } else if text::lower_all(p.status) != "idle"@ {
        MinimapSessionState::Working
    } else if progress_of(p) matches Some((done, total)) && total > 0 && done == total {
        MinimapSessionState::Complete
    } else {
        MinimapSessionState::Idle
    }
}

/// How the drawn rows follow the rows there are.
#[derive(Clone, Copy, PartialEq, Eq, Debug)]
pub struct RowPlan {
    pub row_count: usize,
    /// The session has nothing to show yet.
    pub fresh: bool,
    /// The input has the room of a new conversation.
    pub spacious: bool,
    /// The drawn rows from the first number to the second give way to so many new ones.
    pub splice: Option<(usize, usize, usize)>,
}

/// The rows there are, with one more while the session is at work.
pub open spec fn rows_with_activity(p: panel::PanelView, rows: int) -> int {
    rows + if is_active(p) {
        1int
    } else {
        0
    }
}

pub open spec fn is_fresh(p: panel::PanelView, rows: int) -> bool {
    p.items.len() == 0 && rows_with_activity(p, rows) == 0 && !is_active(p) && p.startup_layout
        != Some(true)
}

/// The layout of a new conversation is taken up with its first item.
pub open spec fn layout_after(p: panel::PanelView) -> Option<bool> {
    if p.items.len() > 0 && p.startup_layout is Some {
        Some(true)
    } else {
        p.startup_layout
    }
}

/// What is to be replaced to come from one count of rows to another: rows are added and
/// taken away at the end alone.
pub open spec fn splice_of(before: usize, after: usize) -> Option<(usize, usize, usize)> {
    if after > before {
        Some((before, before, (after - before) as usize))
    } else if after < before {
        Some((after, before, 0))
    } else {
        None
    }
}

impl Panel {
    /// Whether the session is taken up with anything.
    pub fn is_busy(&self) -> (r: bool)
        ensures
            r == (self@.status != "idle"@ || self@.streaming_text.len() > 0),
    {
        !same(self.status.as_str(), "idle") || !self.streaming_text.as_str().is_empty()
    }

    /// Whether the session is at work.
    pub fn activity_active(&self) -> (r: bool)
        ensures
            r == is_active(self@),
    {
        let status = lowered(self.status.as_str());
        if contains(status.as_str(), "error") || contains(status.as_str(), "crash")
            || starts_with(status.as_str(), "lost:") {
            return false;
        }
        !self.streaming_text.as_str().is_empty() || !self.streaming_reasoning.as_str().is_empty()
            || same(trimmed(self.connection_phase.as_str()).as_str(), "streaming") || same(
            status.as_str(),
            "generating",
        ) || same(status.as_str(), "running") || same(status.as_str(), "busy") || same(
            status.as_str(),
            "thinking",
        ) || same(status.as_str(), "streaming") || same(status.as_str(), "running_tools")
    }

    /// The line that tells what the session does.
    pub fn status_line(&self) -> (r: String)
        ensures
            r@ == status_of(self@),
    {
        let phase = trimmed(self.connection_phase.as_str());
        let status = self.status.as_str();
        if !phase.as_str().is_empty() && !same(phase.as_str(), "connected") && !same(
            phase.as_str(),
            "streaming",
        ) {
            return with_spaces(phase.as_str());
        }
        if self.activity_active() {
            if !self.streaming_reasoning.as_str().is_empty() {
                return "Thinking".to_owned();
            }
            if !self.streaming_text.as_str().is_empty() || (same(phase.as_str(), "streaming")
                && !same(status, "running_tools")) {
                return "Responding".to_owned();
            }
        }
        if same(status, "idle") || same(status, "connected") {
            "Ready".to_owned()
        } else if same(status, "busy") || same(status, "running") || same(status, "generating") {
            "Working".to_owned()
        } else if same(status, "thinking") {
            "Thinking".to_owned()
        } else if same(status, "streaming") {
            "Responding".to_owned()
        } else if same(status, "running_tools") {
            "Running tools".to_owned()
        } else {
            with_spaces(status)
        }
    }

    /// How many todos of the last list that was shown are completed, and of how many.
    pub fn latest_todo_progress(&self) -> (r: Option<(usize, usize)>)
        ensures
            match r {
                Some((done, total)) => progress_of(self@) == Some((done as nat, total as nat)),
                None => progress_of(self@) is None,
            },
    {
        let ghost items = self@.items;
        let mut n: usize = self.items.len();
        while n > 0
            invariant
                n <= self.items@.len(),
                items == transcript::item_views(self.items@),
                items == self@.items,
                last_shown_todos(items, items.len() as int) == last_shown_todos(items, n as int),
            decreases n,
        {
            assert(items[n - 1] == self.items@[n - 1]@);
            if let Item::Todos(payload) = &self.items[n - 1] {
                assert(payload@.todos.len() == payload.todos@.len());
                return Some((count_completed(payload), payload.todos.len()));
            }
            n -= 1;
        }
        None
    }

    /// The session as the minimap marks it.
    pub fn minimap_state(&self) -> (r: MinimapSessionState)
        ensures
            r == marked(self@),
    {
        let status = lowered(self.status.as_str());
        let n: usize = self.items.len();
        let failed = if n > 0 {
            assert(self@.items.last() == self.items@[n - 1]@);
            match &self.items[n - 1] {
                Item::Error(_) => true,
                _ => false,
            }
        } else {
            false
        };
        if contains(status.as_str(), "error") || contains(status.as_str(), "crash") || failed {
            MinimapSessionState::Error
        } else if !self.streaming_text.as_str().is_empty()
            || !self.streaming_reasoning.as_str().is_empty() {
            MinimapSessionState::Streaming
        } else if !same(status.as_str(), "idle") {
            MinimapSessionState::Working
        } else {
            match self.latest_todo_progress() {
                Some((done, total)) => if total > 0 && done == total {
                    MinimapSessionState::Complete
                } else {
                    MinimapSessionState::Idle
                },
                None => MinimapSessionState::Idle,
            }
        }
    }

    /// The todos that stay in view: the last list, where it has any.
    pub fn pinned_todos(&self) -> (r: Option<TodoCardPayload>)
        ensures
            match (r, composer::latest_todos(self@.items, self@.items.len() as int)) {
                (Some(shown), Some(payload)) => shown@ == payload && payload.todos.len() > 0,
                (None, Some(payload)) => payload.todos.len() == 0,
                (None, None) => true,
                (Some(_), None) => false,
            },
    {
        match self.latest_todo_payload() {
            Some(payload) => {
                assert(payload@.todos.len() == payload.todos@.len());
                if payload.todos.len() > 0 {
                    Some(payload)
                } else {
                    None
                }
            },
            None => None,
        }
    }

    fn lay_out(&mut self, layout: Option<bool>, row_count: usize)
        ensures
            final(self)@ == (panel::PanelView {
                startup_layout: layout,
                transcript_row_count: row_count,
                ..old(self)@
            }),
    {
        self.startup_layout = layout;
        self.transcript_row_count = row_count;
    }

    /// Brings the drawn rows to the `rows` that the transcript has.
    pub fn plan_rows(&mut self, rows: usize) -> (r: RowPlan)
        requires
            rows < usize::MAX,
        ensures
            ({
                let p = old(self)@;
                &&& r.row_count == rows_with_activity(p, rows as int)
                &&& r.fresh == is_fresh(p, rows as int)
                &&& r.spacious == (r.fresh || p.startup_layout is Some)
                &&& r.splice == splice_of(p.transcript_row_count, r.row_count)
                &&& final(self)@ == (panel::PanelView {
                    startup_layout: layout_after(p),
                    transcript_row_count: r.row_count,
                    ..p
                })
            }),
    {
        let active = self.activity_active();
        let row_count: usize = if active {
            rows + 1
        } else {
            rows
        };
        assert(self@.items.len() == self.items@.len());
        let committed = match self.startup_layout {
            Some(true) => true,
            _ => false,
        };
        let fresh = self.items.len() == 0 && row_count == 0 && !active && !committed;
        let layout = if self.items.len() > 0 && self.startup_layout.is_some() {
            Some(true)
        } else {
            self.startup_layout
        };
        let spacious = fresh || layout.is_some();
        let before: usize = self.transcript_row_count;
        let splice = if row_count > before {
            Some((before, before, row_count - before))
        } else if row_count < before {
            Some((row_count, before, 0usize))
        } else {
            None
        };
        self.lay_out(layout, row_count);
        RowPlan { row_count, fresh, spacious, splice }
    }
}

/// Whether to offer the way back to the transcript's end.
pub fn offers_latest(row_count: usize, end_visible: bool) -> (r: bool)
    ensures
        r == (row_count > 0 && !end_visible),
{
    row_count > 0 && !end_visible
}

/// A splice makes up exactly for the rows that came or went, and leaves the first rows be.
pub proof fn spliced_rows_are_counted(before: usize, after: usize)
    ensures
        match splice_of(before, after) {
            Some((from, to, added)) => from <= to <= before && before - (to - from) + added
                == after && (from == before || from == after),
            None => before == after,
        },
{
}

/// A session that failed or was lost is not at work, whatever streamed in before.
pub proof fn failures_are_not_active(p: panel::PanelView)
    requires
        is_failure(p.status) || text::starts(text::lower_all(p.status), "lost:"@),
    ensures
        !is_active(p),
{
}

fn count_completed(payload: &TodoCardPayload) -> (r: usize)
    ensures
        r == todos::completed(payload@.todos),
        r <= payload.todos@.len(),
{
    let ghost all = payload@.todos;
    let n: usize = payload.todos.len();
    let mut count: usize = 0;
    let mut i: usize = 0;
    assert(all.take(0) =~= Seq::empty());
    while i < n
        invariant
            i <= n,
            n == payload.todos@.len(),
            all == todos::card_views(payload.todos@),
            count <= i,
            count == todos::completed(all.take(i as int)),
        decreases n - i,
    {
        assert(all.take(i + 1).drop_last() =~= all.take(i as int));
        assert(all.take(i + 1).last() == payload.todos@[i as int]@);
        if same(payload.todos[i].status.as_str(), "completed") {
            count += 1;
        }
        i += 1;
    }
    assert(all.take(n as int) =~= all);
    count
}

/// What a todo card says of its progress.
pub fn progress_label(payload: &TodoCardPayload) -> (r: String)
    ensures
        r@ == text::decimal(todos::completed(payload@.todos)) + " of "@ + (text::decimal(
            payload@.todos.len(),
        ) + " complete"@),
{
    assert(payload@.todos.len() == payload.todos@.len());
    concat3(
        decimal_of(count_completed(payload) as u64).as_str(),
        " of ",
        concat(decimal_of(payload.todos.len() as u64).as_str(), " complete").as_str(),
    )
}

/// Whether a row stands close to the one before it: what a response took does, and a tool
/// call behind another one.
pub fn is_packed(item: &Item, previous: Option<&Item>) -> (r: bool)
    ensures
        r == (item@ is ResponseStats || (item@ is Tool && previous is Some && previous->0@ is Tool)),
{
    match item {
        Item::ResponseStats(_) => true,
        Item::Tool { .. } => match previous {
            Some(previous) => match previous {
                Item::Tool { .. } => true,
                _ => false,
            },
            None => false,
        },
        _ => false,
    }
}

/// What stands below an image.
pub fn image_caption(image: &TranscriptImage) -> (r: String)
    ensures
        ({
            let label = match image.label {
                Some(label) => label@,
                None => "Image attachment"@,
            };
            r@ == if image.preview is Some {
                label
            } else {
                label + " (could not display "@ + (image.media_type@ + ")"@)
            }
        }),
{
    let label = match &image.label {
        Some(label) => label.clone(),
        None => "Image attachment".to_owned(),
    };
    if image.preview.is_some() {
        label
    } else {
        concat3(
            label.as_str(),
            " (could not display ",
            concat(image.media_type.as_str(), ")").as_str(),
        )
    }
}

/// How a tool call is drawn.
#[derive(Debug, PartialEq, Eq)]
pub enum ToolRow {
    /// A list of todos.
    Card(TodoCardPayload),
    /// A line, with a detail that can be unfolded and what went wrong.
    Line { summary: String, detail: String, error: Option<String> },
}

/// How a tool call is drawn. `summary` is what its arguments say it is for.
pub fn tool_row(
    name: &str,
    input: &str,
    output: &str,
    done: bool,
    error: Option<&str>,
    summary: Option<&str>,
) -> (r: ToolRow)
    ensures
        if name@ == "todo"@ && done && error is None && todos::printed(output@) is Some {
            r matches ToolRow::Card(payload) && todos::printed(output@) == Some(payload@)
        } else {
            r matches ToolRow::Line { summary: line, detail, error: shown } && line@ == (
            match summary {
                Some(s) => labels::condensed(s@, 90),
                None => if crate::json::json_text(input@) is Some {
                    labels::condensed(input@, 90)
                } else {
                    Seq::empty()
                },
            }) && detail@ == labels::call_detail(
                name@,
                match crate::json::pretty_text(labels::shown_arguments(input@)) {
                    Some(pretty) => pretty,
                    None => labels::shown_arguments(input@),
                },
                output@,
            ) && text::text_option(shown) == match error {
                Some(message) => Some(labels::condensed(labels::plain(message@), 300)),
                None => None,
            }
        },
{
    if same(name, "todo") && done && error.is_none() {
        if let Some(payload) = parse_todo_tool_output(output) {
            return ToolRow::Card(payload);
        }
    }
    ToolRow::Line {
        summary: tool_summary(summary, input),
        detail: tool_detail(name, input, output),
        error: match error {
            Some(message) => Some(condense(strip_ansi(message).as_str(), 300)),
            None => None,
        },
    }
}

/// How much a tool's output weighs.
#[derive(Clone, Copy, PartialEq, Eq, Debug, Structural)]
pub enum TokenSeverity {
    Normal,
    Warning,
    Danger,
}

/// The tokens to count for an output: at least one where there is any output.
pub fn counted_tokens(estimate: usize, output: &str) -> (r: usize)
    ensures
        r == if estimate == 0 && output@.len() > 0 {
            1
        } else {
            estimate
        },
{
    if estimate == 0 && !output.is_empty() {
        1
    } else {
        estimate
    }
}

/// The badge that tells how large an output is, from its count as it is written.
pub fn tool_output_token_badge(count: &str, severity: TokenSeverity) -> (r: (String, Tone))
    ensures
        r.0@ == "~"@ + count@,
        r.1 == match severity {
            TokenSeverity::Normal => Tone::Good,
            TokenSeverity::Warning => Tone::Warn,
            TokenSeverity::Danger => Tone::Bad,
        },
{
    (
        concat("~", count),
        match severity {
            TokenSeverity::Normal => Tone::Good,
            TokenSeverity::Warning => Tone::Warn,
            TokenSeverity::Danger => Tone::Bad,
        },
    )
}

} // verus!
