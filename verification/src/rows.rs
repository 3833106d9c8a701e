//! How the items of a transcript are drawn, as plain values for whoever draws them.
use vstd::prelude::*;

use crate::activity::{image_caption, tool_output_token_badge, tool_row, TokenSeverity, ToolRow};
use crate::cards;
use crate::cards::{render_todo_card, TodoCard};
use crate::json;
use crate::labels;
use crate::panel::Panel;
use crate::text;
use crate::text::{among, same};
use crate::todos;
use crate::todos::Tone;
use crate::transcript;
use crate::transcript::Item;

verus! {

/// The line of a tool call. What is blank is left out.
#[derive(Debug, PartialEq, Eq)]
pub struct ToolLine {
    pub summary: Option<String>,
    pub running: bool,
    /// The size of the output, which unfolds the detail.
    pub badge: Option<(String, Tone)>,
    pub detail: Option<String>,
    pub error: Option<String>,
}

/// How an item is drawn. What an item says in full, the item itself holds.
#[derive(Debug, PartialEq, Eq)]
pub enum ItemRow {
    Stop,
    Figures,
    Prompt,
    /// An image, which the image pane shows.
    ImageLink,
    Image { caption: String, displayed: bool },
    Response,
    Reasoning,
    Card(TodoCard),
    Task,
    /// The change that a tool made.
    Edit,
    Tool(ToolLine),
    Failure,
}

/// What is known of an item where it is drawn.
#[derive(Debug, PartialEq, Eq)]
pub struct ItemContext<'a> {
    /// What a call's arguments say it is for.
    pub summary: Option<&'a str>,
    /// The call changed a file, and the change can be shown.
    pub edit: bool,
    /// The detail is unfolded.
    pub expanded: bool,
    /// The detail is on its way in or out.
    pub moving: bool,
    /// The tokens of the output, as they are written, and how much they weigh.
    pub tokens: &'a str,
    pub severity: TokenSeverity,
}

/// What a tool call's line says it is for.
pub open spec fn summary_of(input: Seq<char>, summary: Option<Seq<char>>) -> Seq<char> {
    match summary {
        Some(s) => labels::condensed(s, 90),
        None => if json::json_text(input) is Some {
            labels::condensed(input, 90)
        } else {
            Seq::empty()
        },
    }
}

/// What a tool call was given and gave back.
pub open spec fn detail_of(name: Seq<char>, input: Seq<char>, output: Seq<char>) -> Seq<char> {
    labels::call_detail(
        name,
        match json::pretty_text(labels::shown_arguments(input)) {
            Some(pretty) => pretty,
            None => labels::shown_arguments(input),
        },
        output,
    )
}

/// A text, where it says anything.
pub open spec fn unless_blank(s: Seq<char>) -> Option<Seq<char>> {
    if s.len() > 0 {
        Some(s)
    } else {
        None
    }
}

pub open spec fn tone_of(severity: TokenSeverity) -> Tone {
    match severity {
        TokenSeverity::Normal => Tone::Good,
        TokenSeverity::Warning => Tone::Warn,
        TokenSeverity::Danger => Tone::Bad,
    }
}

/// Whether a line is that of a tool call.
pub open spec fn is_line(
    line: ToolLine,
    name: Seq<char>,
    input: Seq<char>,
    output: Seq<char>,
    done: bool,
    error: Option<Seq<char>>,
    c: ItemContext,
) -> bool {
    let detail = detail_of(name, input, output);
    &&& text::text_option(line.summary) == unless_blank(
        summary_of(input, labels::view_of(c.summary)),
    )
    &&& line.running == !done
    &&& match line.badge {
        Some((label, tone)) => detail.len() > 0 && label@ == "~"@ + c.tokens@ && tone == tone_of(
            c.severity,
        ),
        None => detail.len() == 0,
    }
    &&& text::text_option(line.detail) == (if c.expanded || c.moving {
        unless_blank(detail)
    } else {
        None
    })
    &&& text::text_option(line.error) == match error {
        Some(message) => Some(labels::condensed(labels::plain(message), 300)),
        None => None,
    }
}

/// What stands below an image.
pub open spec fn caption_of(image: transcript::ImageView) -> Seq<char> {
    let label = match image.label {
        Some(label) => label,
        None => "Image attachment"@,
    };
    if image.preview is Some {
        label
    } else {
        label + " (could not display "@ + (image.media_type + ")"@)
    }
}

/// Whether a row is how an item is drawn.
pub open spec fn is_row(
    row: ItemRow,
    item: transcript::ItemView,
    image_pane_open: bool,
    c: ItemContext,
) -> bool {
    match item {
        transcript::ItemView::Stopped(_) => row is Stop,
        transcript::ItemView::ResponseStats(_) => row is Figures,
        transcript::ItemView::User(_) => row is Prompt,
        transcript::ItemView::Image(image) => if image_pane_open {
            row is ImageLink
        } else {
            row matches ItemRow::Image { caption, displayed } && caption@ == caption_of(image)
                && displayed == (image.preview is Some)
        },
        transcript::ItemView::Assistant(_) => row is Response,
        transcript::ItemView::Reasoning(_) => row is Reasoning,
        transcript::ItemView::Todos(payload) => row matches ItemRow::Card(card) && cards::is_card(
            card,
            payload,
        ),
        transcript::ItemView::BackgroundTask { .. } => row is Task,
        transcript::ItemView::Tool { call_id, name, input, output, done, error } => if name
            == "todo"@ && done && error is None && todos::printed(output) is Some {
            row matches ItemRow::Card(card) && cards::is_card(card, todos::printed(output)->0)
        } else if c.edit {
            row is Edit
        } else {
            row matches ItemRow::Tool(line) && is_line(line, name, input, output, done, error, c)
        },
        transcript::ItemView::Error(_) => row is Failure,
    }
}

fn unless_empty(s: String) -> (r: Option<String>)
    ensures
        text::text_option(r) == unless_blank(s@),
{
    if s.as_str().is_empty() {
        None
    } else {
        Some(s)
    }
}

fn line_of(
    summary: String,
    detail: String,
    error: Option<String>,
    done: bool,
    c: &ItemContext,
) -> (r: ToolLine)
    ensures
        text::text_option(r.summary) == unless_blank(summary@),
        r.running == !done,
        match r.badge {
            Some((label, tone)) => detail@.len() > 0 && label@ == "~"@ + c.tokens@ && tone
                == tone_of(c.severity),
            None => detail@.len() == 0,
        },
        text::text_option(r.detail) == (if c.expanded || c.moving {
            unless_blank(detail@)
        } else {
            None
        }),
        r.error == error,
{
    let badge = if detail.as_str().is_empty() {
        None
    } else {
        Some(tool_output_token_badge(c.tokens, c.severity))
    };
    let detail = if c.expanded || c.moving {
        unless_empty(detail)
    } else {
        None
    };
    ToolLine { summary: unless_empty(summary), running: !done, badge, detail, error }
}

fn call_row(
    name: &str,
    input: &str,
    output: &str,
    done: bool,
    error: Option<&str>,
    c: &ItemContext,
) -> (r: ItemRow)
    ensures
        if name@ == "todo"@ && done && error is None && todos::printed(output@) is Some {
            r matches ItemRow::Card(card) && cards::is_card(card, todos::printed(output@)->0)
        } else if c.edit {
            r is Edit
        } else {
            r matches ItemRow::Tool(line) && is_line(
                line,
                name@,
                input@,
                output@,
                done,
                labels::view_of(error),
                *c,
            )
        },
{
    match tool_row(name, input, output, done, error, c.summary) {
        ToolRow::Card(payload) => ItemRow::Card(render_todo_card(&payload)),
        ToolRow::Line { summary, detail, error } => if c.edit {
            ItemRow::Edit
        } else {
            ItemRow::Tool(line_of(summary, detail, error, done, c))
        },
    }
}

impl Panel {
    /// How an item of the transcript is drawn.
    pub fn render_item(&self, item: &Item, context: ItemContext) -> (r: ItemRow)
        ensures
            is_row(r, item@, self@.image_pane_open, context),
    {
        match item {
            Item::Stopped(_) => ItemRow::Stop,
            Item::ResponseStats(_) => ItemRow::Figures,
            Item::User(_) => ItemRow::Prompt,
            Item::Image(image) => if self.image_pane_open {
                ItemRow::ImageLink
            } else {
                ItemRow::Image {
                    caption: image_caption(image),
                    displayed: image.preview.is_some(),
                }
            },
            Item::Assistant(_) => ItemRow::Response,
            Item::Reasoning(_) => ItemRow::Reasoning,
            Item::Todos(payload) => ItemRow::Card(render_todo_card(payload)),
            Item::BackgroundTask { .. } => ItemRow::Task,
            Item::Tool { call_id, name, input, output, done, error } => {
                let failure = match error {
                    Some(message) => Some(message.as_str()),
                    None => None,
                };
                call_row(name.as_str(), input.as_str(), output.as_str(), *done, failure, &context)
            },
            Item::Error(_) => ItemRow::Failure,
        }
    }
}

/// The calls whose details are unfolded, with one folded or unfolded.
pub open spec fn toggled(expanded: Set<Seq<char>>, call_id: Seq<char>) -> Set<Seq<char>> {
    if expanded.contains(call_id) {
        expanded.remove(call_id)
    } else {
        expanded.insert(call_id)
    }
}

/// Folds or unfolds the detail of a call. Returns whether it was unfolded.
pub fn toggle_tool(expanded: &mut Vec<String>, call_id: &str) -> (r: bool)
    ensures
        r == text::texts(old(expanded)@).contains(call_id@),
        text::texts(final(expanded)@).to_set() == toggled(
            text::texts(old(expanded)@).to_set(),
            call_id@,
        ),
{
    let ghost all = text::texts(expanded@);
    let known = among(expanded, call_id);
    if !known {
        expanded.push(call_id.to_owned());
        let ghost now = text::texts(expanded@);
        assert(now =~= all.push(call_id@));
        assert(now.to_set() =~= toggled(all.to_set(), call_id@)) by {
            assert(now[all.len() as int] == call_id@);
            assert forall|s: Seq<char>| all.contains(s) implies now.contains(s) by {
                let k = all.index_of(s);
                assert(now[k] == s);
            }
        }
        return false;
    }
    let mut kept: Vec<String> = Vec::new();
    let mut i: usize = 0;
    while i < expanded.len()
        invariant
            i <= expanded@.len(),
            all == text::texts(expanded@),
            forall|s: Seq<char>|
                #![trigger text::texts(kept@).contains(s)]
                text::texts(kept@).contains(s) <==> all.take(i as int).contains(s) && s
                    != call_id@,
        decreases expanded@.len() - i,
    {
        let ghost before = text::texts(kept@);
        let ghost next = all[i as int];
        assert(next == expanded@[i as int]@);
        let other = !same(expanded[i].as_str(), call_id);
        if other {
            kept.push(expanded[i].clone());
            assert(text::texts(kept@) =~= before.push(next));
        }
        assert forall|s: Seq<char>| text::texts(kept@).contains(s) <==> all.take(i + 1).contains(
            s,
        ) && s != call_id@ by {
            lemma_one_more(all, i as int, s);
            if other {
                lemma_pushed(before, next, s);
            }
        }
        i += 1;
    }
    assert(all.take(i as int) =~= all);
    assert(text::texts(kept@).to_set() =~= toggled(all.to_set(), call_id@));
    *expanded = kept;
    true
}

proof fn lemma_pushed(v: Seq<Seq<char>>, x: Seq<char>, s: Seq<char>)
    ensures
        v.push(x).contains(s) <==> v.contains(s) || s == x,
{
    let w = v.push(x);
    if v.contains(s) {
        let k = v.index_of(s);
        assert(w[k] == s);
    }
    assert(w[v.len() as int] == x);
    if w.contains(s) && s != x {
        let k = w.index_of(s);
        assert(v[k] == s);
    }
}

proof fn lemma_one_more(all: Seq<Seq<char>>, i: int, s: Seq<char>)
    requires
        0 <= i < all.len(),
    ensures
        all.take(i + 1).contains(s) <==> all.take(i).contains(s) || s == all[i],
{
    assert(all.take(i + 1) =~= all.take(i).push(all[i]));
    lemma_pushed(all.take(i), all[i], s);
}

/// What is unfolded and folded again is as before.
pub proof fn toggling_twice_changes_nothing(expanded: Set<Seq<char>>, call_id: Seq<char>)
    ensures
        toggled(toggled(expanded, call_id), call_id) == expanded,
{
    assert(toggled(toggled(expanded, call_id), call_id) =~= expanded);
}

} // verus!
