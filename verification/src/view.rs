//! What a conversation's panel shows, as plain values for whoever draws it.
use vstd::prelude::*;

use crate::activity;
use crate::activity::{offers_latest, RowPlan};
use crate::composer;
use crate::events::copy_text;
use crate::harness::remote_host;
use crate::labels;
use crate::labels::{account_method_label, compact_dir};
use crate::panel;
use crate::panel::Panel;
use crate::remote;
use crate::text;
use crate::text::concat;
use crate::todos::TodoCardPayload;
use crate::transcript;
use crate::transcript::{transcript_render_rows, TranscriptRenderRow, TranscriptRowSource};

verus! {

/// What is known where the panel is drawn.
#[derive(Debug, PartialEq, Eq)]
pub struct DrawContext<'a> {
    pub home: Option<&'a str>,
    /// The transcript's end is in view.
    pub end_visible: bool,
    /// The prompt that a session starts with is shown from its beginning.
    pub startup_preview: bool,
    pub fonts: (&'a str, &'a str, &'a str),
}

/// Where the transcript is shown.
#[derive(Clone, Copy, PartialEq, Eq, Debug, Structural)]
pub enum Placement {
    Start,
    End,
    /// Where it stands.
    Kept,
}

/// A conversation's panel.
pub struct ChatView {
    /// The banner of a remote session.
    pub remote: Option<String>,
    /// The todos that stay in view, and whether they are unfolded to a card.
    pub pinned: Option<TodoCardPayload>,
    pub unfolded: bool,
    pub rows: Vec<TranscriptRenderRow>,
    pub plan: RowPlan,
    /// The rows whose heights are to be measured again.
    pub stale: Option<(usize, usize)>,
    /// Where the transcript is to go back to.
    pub scroll: Option<(u32, u32)>,
    /// Where the transcript is shown from then on.
    pub placement: Placement,
    /// The way back to the transcript's end, with what the session does meanwhile.
    pub latest: Option<Option<String>>,
    pub recovery: bool,
    pub folder: Option<String>,
    pub model: String,
    pub account: String,
    /// How much the model reasons, where that is known.
    pub effort: Option<String>,
    /// What was built stands in the footer.
    pub build: bool,
    pub status: String,
    /// The input stands below the transcript rather than within it.
    pub input_below: bool,
    pub images: bool,
}

/// The bytes of reasoning and of text that streamed in.
pub open spec fn stream_lengths(p: panel::PanelView) -> (usize, usize) {
    (
        vstd::utf8::encode_utf8(p.streaming_reasoning).len() as usize,
        vstd::utf8::encode_utf8(p.streaming_text).len() as usize,
    )
}

pub open spec fn rows_of(p: panel::PanelView) -> Seq<transcript::RowView> {
    transcript::shown_rows(p.items, p.streaming_reasoning, p.streaming_text)
}

/// The panel once it was drawn: its rows are measured, and it is back where it stood.
pub open spec fn drawn(p: panel::PanelView, fonts: (Seq<char>, Seq<char>, Seq<char>)) -> panel::PanelView {
    let count = activity::rows_with_activity(p, rows_of(p).len() as int) as usize;
    panel::PanelView {
        startup_layout: activity::layout_after(p),
        transcript_row_count: count,
        measurements: transcript::MeasuredView {
            dirty: false,
            item_count: p.items.len() as usize,
            row_count: count,
            streaming_lengths: stream_lengths(p),
            fonts: Some(fonts),
        },
        pending_history_scroll: if count > 0 {
            None
        } else {
            p.pending_history_scroll
        },
        ..p
    }
}

pub open spec fn banner(id: Seq<char>) -> Option<Seq<char>> {
    match remote::address_of(id) {
        Some(address) => match address.host {
            Some(host) => Some("SSH · "@ + host),
            None => None,
        },
        None => None,
    }
}

pub open spec fn folder_label(dir: Option<Seq<char>>, home: Option<Seq<char>>) -> Option<Seq<char>> {
    match dir {
        Some(dir) if dir.len() > 0 => Some(labels::short_path(dir, home)),
        _ => None,
    }
}

pub open spec fn model_label(model: Option<Seq<char>>) -> Seq<char> {
    match model {
        Some(model) => model,
        None => "Choose model"@,
    }
}

fn text_of(o: &Option<String>) -> (r: Option<&str>)
    ensures
        labels::view_of(r) == text::text_option(*o),
{
    match o {
        Some(s) => Some(s.as_str()),
        None => None,
    }
}

impl Panel {
    fn banner(&self) -> (r: Option<String>)
        ensures
            text::text_option(r) == banner(self@.session_id),
    {
        match remote_host(self.session_id.as_str()) {
            Some(host) => Some(concat("SSH · ", host.as_str())),
            None => None,
        }
    }

    fn folder(&self, home: Option<&str>) -> (r: Option<String>)
        ensures
            text::text_option(r) == folder_label(self@.working_dir, labels::view_of(home)),
    {
        match &self.working_dir {
            Some(dir) => if dir.as_str().is_empty() {
                None
            } else {
                Some(compact_dir(dir.as_str(), home))
            },
            None => None,
        }
    }

    fn model_control(&self) -> (r: String)
        ensures
            r@ == model_label(self@.model),
    {
        match &self.model {
            Some(model) => model.clone(),
            None => "Choose model".to_owned(),
        }
    }

    fn account_control(&self) -> (r: String)
        ensures
            r@ == labels::account_label(self@.provider, self@.auth_method),
    {
        account_method_label(text_of(&self.provider), text_of(&self.auth_method))
    }

    fn latest_control(&self, row_count: usize, end_visible: bool) -> (r: Option<Option<String>>)
        ensures
            match r {
                Some(status) => row_count > 0 && !end_visible && text::text_option(status) == (
                if activity::is_active(self@) {
                    Some(activity::status_of(self@))
                } else {
                    None
                }),
                None => !(row_count > 0 && !end_visible),
            },
    {
        if offers_latest(row_count, end_visible) {
            Some(
                if self.activity_active() {
                    Some(self.status_line())
                } else {
                    None
                },
            )
        } else {
            None
        }
    }

    fn take_scroll(&mut self, row_count: usize) -> (r: Option<(u32, u32)>)
        ensures
            r == (if row_count > 0 {
                old(self)@.pending_history_scroll
            } else {
                None
            }),
            final(self)@ == (panel::PanelView {
                pending_history_scroll: if row_count > 0 {
                    None
                } else {
                    old(self)@.pending_history_scroll
                },
                ..old(self)@
            }),
    {
        if row_count > 0 {
            let scroll = self.pending_history_scroll;
            self.pending_history_scroll = None;
            scroll
        } else {
            None
        }
    }

    fn take_stale(&mut self, row_count: usize, fonts: (&str, &str, &str)) -> (r: Option<(usize, usize)>)
        ensures
            (match r {
                Some((from, to)) => Some((from as int, to as int)),
                None => None,
            }) == transcript::stale_rows(
                old(self)@.measurements,
                old(self)@.items.len() as usize,
                row_count,
                stream_lengths(old(self)@),
                (fonts.0@, fonts.1@, fonts.2@),
            ),
            final(self)@ == (panel::PanelView {
                measurements: transcript::MeasuredView {
                    dirty: false,
                    item_count: old(self)@.items.len() as usize,
                    row_count,
                    streaming_lengths: stream_lengths(old(self)@),
                    fonts: Some((fonts.0@, fonts.1@, fonts.2@)),
                },
                ..old(self)@
            }),
    {
        let item_count: usize = self.items.len();
        assert(self@.items.len() == item_count);
        let lengths = (
            self.streaming_reasoning.as_str().len(),
            self.streaming_text.as_str().len(),
        );
        self.measurements.take_range(item_count, row_count, lengths, fonts)
    }

    fn render_rows(&self) -> (r: Vec<TranscriptRenderRow>)
        ensures
            transcript::render_views(r@) == rows_of(self@),
    {
        transcript_render_rows(&self.items, &self.streaming_reasoning, &self.streaming_text)
    }

    fn settle_rows(&mut self, rows: usize, context: &DrawContext) -> (r: (
        RowPlan,
        Option<(usize, usize)>,
        Option<(u32, u32)>,
    ))
        requires
            rows < usize::MAX,
            rows == rows_of(old(self)@).len(),
        ensures
            ({
                let p = old(self)@;
                let count = activity::rows_with_activity(p, rows as int);
                &&& r.0.row_count == count
                &&& r.0.fresh == activity::is_fresh(p, rows as int)
                &&& r.0.spacious == (r.0.fresh || p.startup_layout is Some)
                &&& r.0.splice == activity::splice_of(p.transcript_row_count, r.0.row_count)
                &&& (match r.1 {
                    Some((from, to)) => Some((from as int, to as int)),
                    None => None,
                }) == transcript::stale_rows(
                    p.measurements,
                    p.items.len() as usize,
                    count as usize,
                    stream_lengths(p),
                    (context.fonts.0@, context.fonts.1@, context.fonts.2@),
                )
                &&& r.2 == (if count > 0 {
                    p.pending_history_scroll
                } else {
                    None
                })
                &&& final(self)@ == drawn(
                    p,
                    (context.fonts.0@, context.fonts.1@, context.fonts.2@),
                )
            }),
    {
        let plan = self.plan_rows(rows);
        let stale = self.take_stale(plan.row_count, context.fonts);
        let scroll = self.take_scroll(plan.row_count);
        (plan, stale, scroll)
    }

    /// What the panel shows of its conversation, drawn now.
    pub fn render(&mut self, context: DrawContext) -> (r: ChatView)
        requires
            rows_of(old(self)@).len() < usize::MAX,
        ensures
            ({
                let p = old(self)@;
                let rows = rows_of(p).len() as int;
                let count = activity::rows_with_activity(p, rows);
                &&& text::text_option(r.remote) == banner(p.session_id)
                &&& match (r.pinned, composer::latest_todos(p.items, p.items.len() as int)) {
                    (Some(shown), Some(payload)) => shown@ == payload && payload.todos.len() > 0,
                    (None, Some(payload)) => payload.todos.len() == 0,
                    (None, None) => true,
                    (Some(_), None) => false,
                }
                &&& transcript::render_views(r.rows@) == rows_of(p)
                &&& r.plan.row_count == count
                &&& r.plan.fresh == activity::is_fresh(p, rows)
                &&& r.plan.spacious == (r.plan.fresh || p.startup_layout is Some)
                &&& r.plan.splice == activity::splice_of(p.transcript_row_count, r.plan.row_count)
                &&& (match r.stale {
                    Some((from, to)) => Some((from as int, to as int)),
                    None => None,
                }) == transcript::stale_rows(
                    p.measurements,
                    p.items.len() as usize,
                    count as usize,
                    stream_lengths(p),
                    (context.fonts.0@, context.fonts.1@, context.fonts.2@),
                )
                &&& r.scroll == (if count > 0 {
                    p.pending_history_scroll
                } else {
                    None
                })
                &&& r.placement == (if context.startup_preview {
                    Placement::Start
                } else if p.stick_to_bottom {
                    Placement::End
                } else {
                    Placement::Kept
                })
                &&& match r.latest {
                    Some(status) => count > 0 && !context.end_visible && text::text_option(status)
                        == (if activity::is_active(p) {
                        Some(activity::status_of(p))
                    } else {
                        None
                    }),
                    None => !(count > 0 && !context.end_visible),
                }
                &&& r.recovery == p.recovery_picker_open
                &&& text::text_option(r.folder) == folder_label(
                    p.working_dir,
                    labels::view_of(context.home),
                )
                &&& r.model@ == model_label(p.model)
                &&& r.account@ == labels::account_label(p.provider, p.auth_method)
                &&& r.unfolded == (r.pinned is Some && p.pinned_todo_expanded)
                &&& text::text_option(r.effort) == p.reasoning_effort
                &&& r.build == p.show_build_footer
                &&& r.status@ == activity::status_of(p)
                &&& r.input_below == (!r.plan.fresh && activity::layout_after(p) is None)
                &&& r.images == p.image_pane_open
            }),
            final(self)@ == drawn(
                old(self)@,
                (context.fonts.0@, context.fonts.1@, context.fonts.2@),
            ),
    {
        let rows = self.render_rows();
        assert(transcript::render_views(rows@).len() == rows@.len());
        let remote = self.banner();
        let pinned = self.pinned_todos();
        let folder = self.folder(context.home);
        let model = self.model_control();
        let account = self.account_control();
        let effort = copy_text(&self.reasoning_effort);
        let build = self.show_build_footer;
        let unfolded = pinned.is_some() && self.pinned_todo_expanded;
        let status = self.status_line();
        let active = self.activity_active();
        let row_count: usize = if active {
            rows.len() + 1
        } else {
            rows.len()
        };
        let latest = self.latest_control(row_count, context.end_visible);
        let recovery = self.recovery_picker_open;
        let images = self.image_pane_open;
        let laid_out = self.startup_layout.is_some();
        let placement = if context.startup_preview {
            Placement::Start
        } else if self.stick_to_bottom {
            Placement::End
        } else {
            Placement::Kept
        };
        let (plan, stale, scroll) = self.settle_rows(rows.len(), &context);
        ChatView {
            remote,
            pinned,
            unfolded,
            rows,
            plan,
            stale,
            scroll,
            placement,
            latest,
            recovery,
            folder,
            model,
            account,
            effort,
            build,
            status,
            input_below: !plan.fresh && !laid_out,
            images,
        }
    }
}

/// The first `n` rows that show a settled prompt which can be pinned, each with its item.
pub open spec fn pinnable_rows(
    rows: Seq<transcript::RowView>,
    pinnable: Seq<bool>,
    n: int,
) -> Seq<(int, int)>
    decreases n,
{
    if n <= 0 {
        Seq::empty()
    } else {
        let before = pinnable_rows(rows, pinnable, n - 1);
        match rows[n - 1].source {
            transcript::RowSourceView::Settled(i) => if 0 <= i < pinnable.len() && pinnable[i] {
                before.push((n - 1, i))
            } else {
                before
            },
            _ => before,
        }
    }
}

pub open spec fn places(v: Seq<(usize, usize)>) -> Seq<(int, int)> {
    v.map_values(|e: (usize, usize)| (e.0 as int, e.1 as int))
}

/// The rows that show a settled prompt which can be pinned, each with its item. `pinnable`
/// tells of each item whether it is such a prompt.
pub fn prompt_rows(rows: &Vec<TranscriptRenderRow>, pinnable: &Vec<bool>) -> (r: Vec<
    (usize, usize),
>)
    ensures
        places(r@) == pinnable_rows(
            transcript::render_views(rows@),
            pinnable@,
            rows@.len() as int,
        ),
{
    let ghost all = transcript::render_views(rows@);
    let mut r: Vec<(usize, usize)> = Vec::new();
    let mut i: usize = 0;
    assert(places(r@) =~= Seq::empty());
    while i < rows.len()
        invariant
            i <= rows@.len(),
            all == transcript::render_views(rows@),
            places(r@) == pinnable_rows(all, pinnable@, i as int),
        decreases rows@.len() - i,
    {
        assert(all[i as int] == rows@[i as int]@);
        let ghost before = places(r@);
        if let TranscriptRowSource::Settled(item) = &rows[i].source {
            if *item < pinnable.len() && pinnable[*item] {
                r.push((i, *item));
                assert(places(r@) =~= before.push((i as int, *item as int)));
            }
        }
        i += 1;
    }
    r
}

impl Panel {
    /// Unfolds the pinned todos, or folds them.
    pub fn toggle_pinned_todos(&mut self)
        ensures
            final(self)@ == (panel::PanelView {
                pinned_todo_expanded: !old(self)@.pinned_todo_expanded,
                ..old(self)@
            }),
    {
        self.pinned_todo_expanded = !self.pinned_todo_expanded;
    }

    /// Opens the choice of models that the footer offers, or closes it.
    pub fn toggle_model_choice(&mut self)
        ensures
            final(self)@ == (panel::PanelView {
                recovery_picker_open: !old(self)@.recovery_picker_open,
                ..old(self)@
            }),
    {
        self.recovery_picker_open = !self.recovery_picker_open;
    }
}

/// What was drawn is not drawn anew: drawn twice, nothing is spliced and nothing measured.
pub proof fn drawing_twice_changes_nothing(
    p: panel::PanelView,
    fonts: (Seq<char>, Seq<char>, Seq<char>),
)
    requires
        rows_of(p).len() < usize::MAX,
        p.items.len() <= usize::MAX,
    ensures
        ({
            let q = drawn(p, fonts);
            let count = activity::rows_with_activity(q, rows_of(q).len() as int) as usize;
            &&& drawn(q, fonts) == q
            &&& activity::splice_of(q.transcript_row_count, count) is None
            &&& transcript::stale_rows(
                q.measurements,
                q.items.len() as usize,
                count,
                stream_lengths(q),
                fonts,
            ) is None
        }),
{
}

} // verus!
