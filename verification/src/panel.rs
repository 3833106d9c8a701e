//! A panel's conversation: what it holds, and what events, history and failures make of it.
use std::collections::VecDeque;
use vstd::prelude::*;

use crate::events::{ApiEvent, ModelRoute, RenderedImage, ResponseStats, SessionEvent};
use crate::labels::short_id;
use crate::labels;
use crate::models;
use crate::models::{auth_method_for_model, available_model_logo_providers, available_model_names};
use crate::text;
use crate::text::{same, trimmed};
use crate::transcript;
use crate::transcript::{
    acknowledge_next, append_reasoning, find_tool, has_image, place_at_anchor, Item, StopNotice,
    TranscriptImage, TranscriptMeasurements,
};

verus! {

/// What else a panel holds besides its conversation.
#[derive(Clone, Copy, PartialEq, Eq, Debug, Structural)]
pub struct PanelContents {
    pub preview: bool,
    pub side_document: bool,
    pub change_review: bool,
    pub terminal: bool,
    pub code_file: bool,
    pub mail: bool,
    pub mail_message: bool,
    pub tasks: bool,
    pub unfinished_work: bool,
    pub login: bool,
    pub image_preview: bool,
    pub diff_review: bool,
}

/// One session's panel.
#[derive(Debug, PartialEq, Eq)]
pub struct Panel {
    pub session_id: String,
    pub title: String,
    pub working_dir: Option<String>,
    pub status: String,
    pub connection_phase: String,
    pub model: Option<String>,
    pub provider: Option<String>,
    pub auth_method: Option<String>,
    pub context_tokens: Option<u64>,
    pub items: Vec<Item>,
    /// Assistant text of the running turn.
    pub streaming_text: String,
    pub streaming_reasoning: String,
    pub image_pane_open: bool,
    pub image_pane_selected: Option<usize>,
    /// The items whose prompts wait to be accepted.
    pub pending_users: VecDeque<usize>,
    /// The items whose prompts were accepted, and when.
    pub accepted_users: Vec<(usize, u64)>,
    /// The tool calls that came in, and when.
    pub arriving_tools: Vec<(String, u64)>,
    pub measurements: TranscriptMeasurements,
    pub transcript_row_count: usize,
    pub stick_to_bottom: bool,
    pub history_loaded: bool,
    /// The layout of a new conversation, and whether it was taken up.
    pub startup_layout: Option<bool>,
    pub pending_history_scroll: Option<(u32, u32)>,
    pub available_models: Vec<String>,
    pub model_logo_providers: Vec<(String, String)>,
    pub model_picker_open: bool,
    pub recovery_picker_open: bool,
    pub queue_paused: bool,
    pub reasoning_effort: Option<String>,
    /// The pinned todos are shown as a card.
    pub pinned_todo_expanded: bool,
    pub show_build_footer: bool,
    pub contents: PanelContents,
}

#[verifier::ext_equal]
pub struct PanelView {
    pub session_id: Seq<char>,
    pub title: Seq<char>,
    pub working_dir: Option<Seq<char>>,
    pub status: Seq<char>,
    pub connection_phase: Seq<char>,
    pub model: Option<Seq<char>>,
    pub provider: Option<Seq<char>>,
    pub auth_method: Option<Seq<char>>,
    pub context_tokens: Option<u64>,
    pub items: Seq<transcript::ItemView>,
    pub streaming_text: Seq<char>,
    pub streaming_reasoning: Seq<char>,
    pub image_pane_open: bool,
    pub image_pane_selected: Option<int>,
    pub pending_users: Seq<int>,
    pub accepted_users: Seq<(int, u64)>,
    pub arriving_tools: Seq<(Seq<char>, u64)>,
    pub measurements: transcript::MeasuredView,
    pub transcript_row_count: usize,
    pub stick_to_bottom: bool,
    pub history_loaded: bool,
    pub startup_layout: Option<bool>,
    pub pending_history_scroll: Option<(u32, u32)>,
    pub available_models: Seq<Seq<char>>,
    pub model_logo_providers: Map<Seq<char>, Seq<char>>,
    pub model_picker_open: bool,
    pub recovery_picker_open: bool,
    pub queue_paused: bool,
    pub reasoning_effort: Option<Seq<char>>,
    pub pinned_todo_expanded: bool,
    pub show_build_footer: bool,
    pub contents: PanelContents,
}

pub open spec fn index_views(v: Seq<usize>) -> Seq<int> {
    v.map_values(|i: usize| i as int)
}

pub open spec fn arrival_views(v: Seq<(String, u64)>) -> Seq<(Seq<char>, u64)> {
    v.map_values(|e: (String, u64)| (e.0@, e.1))
}

impl View for Panel {
    type V = PanelView;

    open spec fn view(&self) -> PanelView {
        PanelView {
            session_id: self.session_id@,
            title: self.title@,
            working_dir: text::text_option(self.working_dir),
            status: self.status@,
            connection_phase: self.connection_phase@,
            model: text::text_option(self.model),
            provider: text::text_option(self.provider),
            auth_method: text::text_option(self.auth_method),
            context_tokens: self.context_tokens,
            items: transcript::item_views(self.items@),
            streaming_text: self.streaming_text@,
            streaming_reasoning: self.streaming_reasoning@,
            image_pane_open: self.image_pane_open,
            image_pane_selected: match self.image_pane_selected {
                Some(i) => Some(i as int),
                None => None,
            },
            pending_users: index_views(self.pending_users@),
            accepted_users: transcript::times(self.accepted_users@),
            arriving_tools: arrival_views(self.arriving_tools@),
            measurements: self.measurements@,
            transcript_row_count: self.transcript_row_count,
            stick_to_bottom: self.stick_to_bottom,
            history_loaded: self.history_loaded,
            startup_layout: self.startup_layout,
            pending_history_scroll: self.pending_history_scroll,
            available_models: text::texts(self.available_models@),
            model_logo_providers: models::table_of(self.model_logo_providers@),
            model_picker_open: self.model_picker_open,
            recovery_picker_open: self.recovery_picker_open,
            queue_paused: self.queue_paused,
            reasoning_effort: text::text_option(self.reasoning_effort),
            pinned_todo_expanded: self.pinned_todo_expanded,
            show_build_footer: self.show_build_footer,
            contents: self.contents,
        }
    }
}

/// The panel with its transcript to be measured again.
pub open spec fn dirtied(p: PanelView) -> PanelView {
    PanelView { measurements: transcript::MeasuredView { dirty: true, ..p.measurements }, ..p }
}

/// The panel with one more item.
pub open spec fn pushed(p: PanelView, item: transcript::ItemView) -> PanelView {
    PanelView { items: p.items.push(item), ..p }
}

/// The panel with the reasoning that streamed in settled; blank reasoning is dropped.
pub open spec fn reasoning_flushed(p: PanelView) -> PanelView {
    if text::trim(p.streaming_reasoning).len() > 0 {
        PanelView {
            items: transcript::with_reasoning(p.items, p.streaming_reasoning),
            streaming_reasoning: Seq::empty(),
            ..dirtied(p)
        }
    } else {
        PanelView { streaming_reasoning: Seq::empty(), ..p }
    }
}

/// The panel with the text that streamed in settled; blank text is dropped.
pub open spec fn streaming_flushed(p: PanelView) -> PanelView {
    if text::trim(p.streaming_text).len() > 0 {
        PanelView {
            items: p.items.push(transcript::ItemView::Assistant(p.streaming_text)),
            streaming_text: Seq::empty(),
            ..dirtied(p)
        }
    } else {
        PanelView { streaming_text: Seq::empty(), ..p }
    }
}

pub open spec fn stats_option(o: Option<ResponseStats>) -> Option<transcript::StatsView> {
    match o {
        Some(stats) => Some(stats@),
        None => None,
    }
}

/// The panel with its response settled and its activity ended.
pub open spec fn finished(p: PanelView, stats: Option<transcript::StatsView>) -> PanelView {
    let q = streaming_flushed(reasoning_flushed(dirtied(p)));
    PanelView {
        items: match stats {
            Some(stats) => q.items.push(transcript::ItemView::ResponseStats(stats)),
            None => q.items,
        },
        status: "idle"@,
        connection_phase: Seq::empty(),
        ..q
    }
}

/// The times at which calls came in, with one more; a call's earlier time gives way.
pub open spec fn with_arrival(arrivals: Seq<(Seq<char>, u64)>, id: Seq<char>, now: u64) -> Seq<
    (Seq<char>, u64),
>
    decreases arrivals.len(),
{
    if arrivals.len() == 0 {
        seq![(id, now)]
    } else if arrivals[0].0 == id {
        seq![(id, now)] + arrivals.drop_first()
    } else {
        seq![arrivals[0]] + with_arrival(arrivals.drop_first(), id, now)
    }
}

/// A position behind an insertion at `at`.
pub open spec fn shifted(i: int, at: int) -> int {
    if i >= at {
        i + 1
    } else {
        i
    }
}

/// The panel with an image at `at`: what was noted of items stays with those items.
pub open spec fn image_inserted(p: PanelView, at: int, image: transcript::ImageView) -> PanelView {
    PanelView {
        items: p.items.insert(at, transcript::ItemView::Image(image)),
        pending_users: p.pending_users.map_values(|i: int| shifted(i, at)),
        accepted_users: p.accepted_users.map_values(|e: (int, u64)| (shifted(e.0, at), e.1)),
        image_pane_selected: match p.image_pane_selected {
            Some(i) => Some(shifted(i, at)),
            None => None,
        },
        ..p
    }
}

/// The panel with an image: nothing where it is already there, behind its tool call
/// where that is there, else behind all that streamed in so far.
pub open spec fn with_image(p: PanelView, image: transcript::ImageView) -> PanelView {
    if transcript::holds_image(p.items, image) {
        p
    } else {
        match transcript::anchored_place(p.items, image.anchor) {
            Some(at) => image_inserted(p, at, image),
            None => {
                let q = streaming_flushed(reasoning_flushed(p));
                image_inserted(q, q.items.len() as int, image)
            },
        }
    }
}

/// The panel with several images, one after the other.
pub open spec fn with_images(p: PanelView, images: Seq<RenderedImage>) -> PanelView
    decreases images.len(),
{
    if images.len() == 0 {
        p
    } else {
        with_image(with_images(p, images.drop_last()), transcript::image_of(images.last()))
    }
}

/// Whether `n` more items in front of them leave every noted position a machine number.
pub open spec fn has_room(p: PanelView, n: int) -> bool {
    &&& forall|k: int| 0 <= k < p.pending_users.len() ==> #[trigger] p.pending_users[k] + n
        <= usize::MAX
    &&& forall|k: int|
        0 <= k < p.accepted_users.len() ==> (#[trigger] p.accepted_users[k]).0 + n <= usize::MAX
    &&& p.image_pane_selected matches Some(i) ==> i + n <= usize::MAX
}

/// The last background task of the given id below `n`.
pub open spec fn task_below(items: Seq<transcript::ItemView>, id: Seq<char>, n: int) -> Option<int>
    decreases n,
{
    if n <= 0 || n > items.len() {
        None
    } else if items[n - 1] matches transcript::ItemView::BackgroundTask { task_id, .. } && task_id
        == id {
        Some(n - 1)
    } else {
        task_below(items, id, n - 1)
    }
}

/// What the panel's surroundings make of an event.
#[derive(Debug, PartialEq, Eq)]
pub struct EventContext {
    /// The figures of the response that ends with the event.
    pub stats: Option<ResponseStats>,
    /// The notice of the stop that the event tells of.
    pub stop: Option<StopNotice>,
    /// The context in use by the provider's figures.
    pub context_tokens: u64,
    /// When the event came in.
    pub now: u64,
    /// The name that Anthropic's models begin with.
    pub family: String,
}

/// Whether an event leaves the heights of settled rows as they are.
pub open spec fn keeps_heights(event: ApiEvent) -> bool {
    match event {
        ApiEvent::Session { session_id, event } => match event {
            SessionEvent::TextDelta { .. }
            | SessionEvent::ReasoningDelta { .. }
            | SessionEvent::TokenUsage { .. }
            | SessionEvent::ModelInfo { .. }
            | SessionEvent::RuntimeInfo { .. }
            | SessionEvent::SessionRenamed { .. } => true,
            _ => false,
        },
        _ => false,
    }
}

/// A tool call as it comes in.
pub open spec fn new_call(id: Seq<char>, name: Seq<char>) -> transcript::ItemView {
    transcript::ItemView::Tool {
        call_id: id,
        name,
        input: Seq::empty(),
        output: Seq::empty(),
        done: false,
        error: None,
    }
}

/// The panel with more of a call's arguments.
pub open spec fn with_input(p: PanelView, id: Seq<char>, delta: Seq<char>) -> PanelView {
    match transcript::call_of(p.items, id) {
        Some(i) => match p.items[i] {
            transcript::ItemView::Tool { call_id, name, input, output, done, error } => PanelView {
                items: p.items.update(
                    i,
                    transcript::ItemView::Tool {
                        call_id,
                        name,
                        input: input + delta,
                        output,
                        done,
                        error,
                    },
                ),
                ..p
            },
            _ => p,
        },
        None => p,
    }
}

/// The panel with a call's result; a call that was not there comes in complete.
pub open spec fn with_result(
    p: PanelView,
    id: Seq<char>,
    called: Seq<char>,
    result: Seq<char>,
    failure: Option<Seq<char>>,
    now: u64,
) -> PanelView {
    match transcript::call_of(p.items, id) {
        Some(i) => match p.items[i] {
            transcript::ItemView::Tool { call_id, name, input, output, done, error } => PanelView {
                items: p.items.update(
                    i,
                    transcript::ItemView::Tool {
                        call_id,
                        name,
                        input,
                        output: result,
                        done: true,
                        error: failure,
                    },
                ),
                ..p
            },
            _ => p,
        },
        None => PanelView {
            items: p.items.push(
                transcript::ItemView::Tool {
                    call_id: id,
                    name: called,
                    input: Seq::empty(),
                    output: result,
                    done: true,
                    error: failure,
                },
            ),
            arriving_tools: with_arrival(p.arriving_tools, id, now),
            ..p
        },
    }
}

/// The panel with the progress of a background task.
pub open spec fn with_progress(p: PanelView, task: transcript::ItemView, id: Seq<char>) -> PanelView {
    match task_below(p.items, id, p.items.len() as int) {
        Some(i) => PanelView { items: p.items.update(i, task), ..p },
        None => pushed(p, task),
    }
}

pub open spec fn or_else(new: Option<Seq<char>>, old_value: Option<Seq<char>>) -> Option<Seq<char>> {
    match new {
        Some(s) => Some(s),
        None => old_value,
    }
}

/// The panel with what is known of the runtime.
pub open spec fn with_runtime(
    p: PanelView,
    provider: Option<Seq<char>>,
    model: Option<Seq<char>>,
    routes: Seq<ModelRoute>,
    family: Seq<char>,
) -> PanelView {
    let served = or_else(model, p.model);
    PanelView {
        provider: or_else(provider, p.provider),
        model: served,
        auth_method: models::served_by(served, routes),
        available_models: models::offered_names(routes),
        model_logo_providers: models::logo_table(routes, family),
        ..p
    }
}

/// The panel with a model that was announced: only another model makes the credential
/// route unknown.
pub open spec fn with_model(
    p: PanelView,
    provider: Option<Seq<char>>,
    model: Option<Seq<char>>,
) -> PanelView {
    let q = PanelView { provider: or_else(provider, p.provider), ..p };
    if model is Some && model != p.model {
        PanelView { model, auth_method: None, ..q }
    } else {
        q
    }
}

/// Whether the last item tells of a stop for good.
pub open spec fn ends_stopped(items: Seq<transcript::ItemView>) -> bool {
    items.len() > 0 && (items.last() matches transcript::ItemView::Stopped(notice)
        && !notice.provisional)
}

/// Whether the last item is a stop of the given detail.
pub open spec fn ends_with_detail(items: Seq<transcript::ItemView>, detail: Seq<char>) -> bool {
    items.len() > 0 && (items.last() matches transcript::ItemView::Stopped(notice) && notice.detail
        == detail)
}

pub open spec fn settles(status: Seq<char>) -> bool {
    status == "idle"@ || status == "cancelled"@ || status == "canceled"@
}

/// The panel after one of its session's events.
pub open spec fn after_event(p: PanelView, event: SessionEvent, c: EventContext) -> PanelView {
    match event {
        SessionEvent::MessageAccepted => if p.pending_users.len() > 0 {
            PanelView {
                pending_users: p.pending_users.drop_first(),
                accepted_users: transcript::with_time(p.accepted_users, p.pending_users[0], c.now),
                ..p
            }
        } else {
            p
        },
        SessionEvent::TextDelta { text } => {
            let q = reasoning_flushed(p);
            PanelView { streaming_text: q.streaming_text + text@, ..q }
        },
        SessionEvent::ReasoningDelta { text } => PanelView {
            streaming_reasoning: p.streaming_reasoning + text@,
            ..p
        },
        SessionEvent::ReasoningDone => reasoning_flushed(p),
        SessionEvent::ToolStart { call_id, name } => {
            let q = streaming_flushed(reasoning_flushed(p));
            PanelView {
                arriving_tools: with_arrival(q.arriving_tools, call_id@, c.now),
                items: q.items.push(new_call(call_id@, name@)),
                ..q
            }
        },
        SessionEvent::ToolInputDelta { call_id, delta } => with_input(p, call_id@, delta@),
        SessionEvent::ToolDone { call_id, name, output, error } => with_result(
            p,
            call_id@,
            name@,
            output@,
            text::text_option(error),
            c.now,
        ),
        SessionEvent::BackgroundProgress {
            task_id,
            label,
            summary,
            percent_bits,
            done,
        } => with_progress(
            p,
            transcript::ItemView::BackgroundTask {
                task_id: task_id@,
                label: label@,
                summary: summary@,
                percent_bits,
                done,
            },
            task_id@,
        ),
        SessionEvent::SidePaneImages { images } => with_images(p, images@),
        SessionEvent::TurnDone => finished(p, stats_option(c.stats)),
        SessionEvent::SessionStatus { status } => if status@ == "attached"@ || c.stop is Some {
            p
        } else {
            let q = PanelView {
                status: if status@ == "processing"@ {
                    "running"@
                } else {
                    status@
                },
                ..p
            };
            if settles(status@) {
                finished(q, stats_option(c.stats))
            } else {
                q
            }
        },
        SessionEvent::ConnectionPhase { phase } => PanelView { connection_phase: phase@, ..p },
        SessionEvent::ModelInfo { provider, model } => with_model(
            p,
            text::text_option(provider),
            text::text_option(model),
        ),
        SessionEvent::RuntimeInfo { provider, model, routes, reasoning_effort } => with_runtime(
            p,
            text::text_option(provider),
            text::text_option(model),
            routes@,
            c.family@,
        ),
        SessionEvent::TokenUsage { .. } => PanelView {
            context_tokens: Some(c.context_tokens),
            ..p
        },
        SessionEvent::SessionRenamed { display_title } => PanelView { title: display_title@, ..p },
        _ => p,
    }
}

/// The panel after an event.
pub open spec fn applied(p: PanelView, event: ApiEvent, c: EventContext) -> PanelView {
    if p.contents.side_document {
        p
    } else {
        let q = if keeps_heights(event) {
            p
        } else {
            dirtied(p)
        };
        match event {
            ApiEvent::Session { session_id, event } => after_event(q, event, c),
            ApiEvent::Error { message } => {
                let done = finished(q, stats_option(c.stats));
                if ends_with_detail(done.items, message@) {
                    done
                } else {
                    pushed(done, transcript::ItemView::Error(message@))
                }
            },
            _ => q,
        }
    }
}

/// The stop that is to be recorded after an event: what a stop event tells of, and what
/// a status tells of where no fuller notice stands last.
pub open spec fn stop_to_record(p: PanelView, event: ApiEvent, c: EventContext) -> Option<
    StopNotice,
> {
    if p.contents.side_document {
        None
    } else {
        match event {
            ApiEvent::Session {
                session_id,
                event: SessionEvent::TurnStopped { reason, message, provider_stop_reason },
            } => c.stop,
            ApiEvent::Session { session_id, event: SessionEvent::SessionStatus { status } } => if status@
                == "attached"@ || ends_stopped(p.items) {
                None
            } else {
                c.stop
            },
            _ => None,
        }
    }
}

/// A conversation alone.
pub open spec fn no_contents() -> PanelContents {
    PanelContents {
        preview: false,
        side_document: false,
        change_review: false,
        terminal: false,
        code_file: false,
        mail: false,
        mail_message: false,
        tasks: false,
        unfinished_work: false,
        login: false,
        image_preview: false,
        diff_review: false,
    }
}

/// A panel as it is opened, with the items it starts from.
pub open spec fn opened(
    session_id: Seq<char>,
    title: Option<Seq<char>>,
    working_dir: Option<Seq<char>>,
    items: Seq<transcript::ItemView>,
) -> PanelView {
    PanelView {
        session_id,
        title: match title {
            Some(title) if title.len() > 0 => title,
            _ => labels::short_name(session_id),
        },
        working_dir,
        status: "idle"@,
        connection_phase: Seq::empty(),
        model: None,
        provider: None,
        auth_method: None,
        context_tokens: None,
        items,
        streaming_text: Seq::empty(),
        streaming_reasoning: Seq::empty(),
        image_pane_open: false,
        image_pane_selected: None,
        pending_users: Seq::empty(),
        accepted_users: Seq::empty(),
        arriving_tools: Seq::empty(),
        measurements: transcript::MeasuredView {
            dirty: false,
            item_count: 0,
            row_count: 0,
            streaming_lengths: (0, 0),
            fonts: None,
        },
        transcript_row_count: 0,
        stick_to_bottom: true,
        history_loaded: false,
        startup_layout: None,
        pending_history_scroll: None,
        available_models: Seq::empty(),
        model_logo_providers: Map::empty(),
        model_picker_open: false,
        recovery_picker_open: false,
        queue_paused: false,
        reasoning_effort: None,
        pinned_todo_expanded: false,
        show_build_footer: true,
        contents: no_contents(),
    }
}

impl Panel {
    /// A panel for a session, with the items it starts from.
    pub fn new(
        session_id: String,
        title: Option<String>,
        working_dir: Option<String>,
        items: Vec<Item>,
    ) -> (r: Panel)
        ensures
            r@ == opened(
                session_id@,
                text::text_option(title),
                text::text_option(working_dir),
                transcript::item_views(items@),
            ),
    {
        let title = match title {
            Some(title) => if title.as_str().is_empty() {
                short_id(session_id.as_str())
            } else {
                title
            },
            None => short_id(session_id.as_str()),
        };
        let r = Panel {
            session_id,
            title,
            working_dir,
            status: "idle".to_owned(),
            connection_phase: String::new(),
            model: None,
            provider: None,
            auth_method: None,
            context_tokens: None,
            items,
            streaming_text: String::new(),
            streaming_reasoning: String::new(),
            image_pane_open: false,
            image_pane_selected: None,
            pending_users: VecDeque::new(),
            accepted_users: Vec::new(),
            arriving_tools: Vec::new(),
            measurements: TranscriptMeasurements::new(),
            transcript_row_count: 0,
            stick_to_bottom: true,
            history_loaded: false,
            startup_layout: None,
            pending_history_scroll: None,
            available_models: Vec::new(),
            model_logo_providers: Vec::new(),
            model_picker_open: false,
            recovery_picker_open: false,
            queue_paused: false,
            reasoning_effort: None,
            pinned_todo_expanded: false,
            show_build_footer: true,
            contents: PanelContents {
                preview: false,
                side_document: false,
                change_review: false,
                terminal: false,
                code_file: false,
                mail: false,
                mail_message: false,
                tasks: false,
                unfinished_work: false,
                login: false,
                image_preview: false,
                diff_review: false,
            },
        };
        assert(r@.pending_users =~= Seq::empty());
        assert(r@.accepted_users =~= Seq::empty());
        assert(r@.arriving_tools =~= Seq::empty());
        assert(r@.available_models =~= Seq::empty());
        r
    }

    /// Puts an item at the transcript's end.
    pub fn push_item(&mut self, item: Item)
        ensures
            final(self)@ == pushed(old(self)@, item@),
    {
        let ghost before = self@;
        let ghost added = item@;
        self.items.push(item);
        assert(self@.items =~= before.items.push(added));
    }

    /// Settles the reasoning that streamed in.
    pub fn flush_reasoning(&mut self)
        ensures
            final(self)@ == reasoning_flushed(old(self)@),
    {
        let mut text = String::new();
        std::mem::swap(&mut text, &mut self.streaming_reasoning);
        if !trimmed(text.as_str()).as_str().is_empty() {
            self.measurements.dirty = true;
            append_reasoning(&mut self.items, text);
        }
        assert(self@ =~= reasoning_flushed(old(self)@));
    }

    /// Settles the text that streamed in.
    pub fn flush_streaming(&mut self)
        ensures
            final(self)@ == streaming_flushed(old(self)@),
    {
        let mut text = String::new();
        std::mem::swap(&mut text, &mut self.streaming_text);
        if !trimmed(text.as_str()).as_str().is_empty() {
            self.measurements.dirty = true;
            self.push_item(Item::Assistant(text));
        }
        assert(self@ =~= streaming_flushed(old(self)@));
    }

    /// Settles partial output and ends activity.
    pub fn finish_response(&mut self, stats: Option<ResponseStats>)
        ensures
            final(self)@ == finished(old(self)@, stats_option(stats)),
    {
        self.measurements.dirty = true;
        assert(self@ =~= dirtied(old(self)@));
        self.flush_reasoning();
        self.flush_streaming();
        if let Some(stats) = stats {
            self.push_item(Item::ResponseStats(stats));
        }
        self.status = "idle".to_owned();
        self.connection_phase = String::new();
        assert(self@ =~= finished(old(self)@, stats_option(stats)));
    }

    fn note_arrival(&mut self, id: &String, now: u64)
        ensures
            final(self)@ == (PanelView {
                arriving_tools: with_arrival(old(self)@.arriving_tools, id@, now),
                ..old(self)@
            }),
    {
        let ghost all = self@.arriving_tools;
        let ghost before = self@;
        let n: usize = self.arriving_tools.len();
        let mut i: usize = 0;
        assert(all.skip(0) == all);
        assert(all.take(0) + with_arrival(all.skip(0), id@, now) =~= with_arrival(all, id@, now));
        while i < n
            invariant
                0 <= i <= n,
                n == self.arriving_tools@.len(),
                all == arrival_views(self.arriving_tools@),
                self@ == before,
                before == old(self)@,
                all == before.arriving_tools,
                all.take(i as int) + with_arrival(all.skip(i as int), id@, now) == with_arrival(
                    all,
                    id@,
                    now,
                ),
            decreases n - i,
        {
            let ghost rest = all.skip(i as int);
            assert(rest[0] == all[i as int]);
            assert(all[i as int].0 == self.arriving_tools@[i as int].0@);
            assert(rest.drop_first() == all.skip(i + 1));
            if same(self.arriving_tools[i].0.as_str(), id.as_str()) {
                self.arriving_tools[i].1 = now;
                assert(self@.arriving_tools =~= all.take(i as int) + (seq![(id@, now)]
                    + rest.drop_first()));
                assert(self@ =~= (PanelView {
                    arriving_tools: with_arrival(all, id@, now),
                    ..before
                }));
                return;
            }
            assert(all.take(i as int) + (seq![all[i as int]] + with_arrival(
                all.skip(i + 1),
                id@,
                now,
            )) =~= all.take(i + 1) + with_arrival(all.skip(i + 1), id@, now));
            i += 1;
        }
        self.arriving_tools.push((id.clone(), now));
        assert(all.skip(i as int).len() == 0);
        assert(self@.arriving_tools =~= all.take(i as int) + seq![(id@, now)]);
        assert(self@ =~= (PanelView { arriving_tools: with_arrival(all, id@, now), ..before }));
    }

    /// Whether `n` more items in front of them leave every noted position a machine number.
    pub fn room_for(&self, n: usize) -> (r: bool)
        ensures
            r == has_room(self@, n as int),
    {
        let ghost p = self@;
        let limit: usize = usize::MAX - n;
        let mut i: usize = 0;
        while i < self.pending_users.len()
            invariant
                0 <= i <= self.pending_users@.len(),
                p == self@,
                limit == usize::MAX - n,
                forall|k: int| 0 <= k < i ==> #[trigger] p.pending_users[k] + n <= usize::MAX,
            decreases self.pending_users@.len() - i,
        {
            assert(p.pending_users[i as int] == self.pending_users@[i as int]);
            if self.pending_users[i] > limit {
                return false;
            }
            i += 1;
        }
        let mut j: usize = 0;
        while j < self.accepted_users.len()
            invariant
                0 <= j <= self.accepted_users@.len(),
                p == self@,
                limit == usize::MAX - n,
                forall|k: int|
                    0 <= k < j ==> (#[trigger] p.accepted_users[k]).0 + n <= usize::MAX,
            decreases self.accepted_users@.len() - j,
        {
            assert(p.accepted_users[j as int].0 == self.accepted_users@[j as int].0);
            if self.accepted_users[j].0 > limit {
                return false;
            }
            j += 1;
        }
        match self.image_pane_selected {
            Some(selected) => selected <= limit,
            None => true,
        }
    }

    /// Makes room at `at` in all that was noted of items.
    fn shift_notes(&mut self, at: usize)
        requires
            has_room(old(self)@, 1),
        ensures
            final(self)@ == (PanelView {
                pending_users: old(self)@.pending_users.map_values(|i: int| shifted(i, at as int)),
                accepted_users: old(self)@.accepted_users.map_values(
                    |e: (int, u64)| (shifted(e.0, at as int), e.1),
                ),
                image_pane_selected: match old(self)@.image_pane_selected {
                    Some(i) => Some(shifted(i, at as int)),
                    None => None,
                },
                ..old(self)@
            }),
            final(self).items == old(self).items,
    {
        let ghost p = self@;
        let mut moved: VecDeque<usize> = VecDeque::new();
        let mut i: usize = 0;
        while i < self.pending_users.len()
            invariant
                0 <= i <= self.pending_users@.len(),
                p == self@,
                has_room(p, 1),
                moved@.len() == i,
                forall|k: int| 0 <= k < i ==> #[trigger] moved@[k] == shifted(
                    self.pending_users@[k] as int,
                    at as int,
                ),
            decreases self.pending_users@.len() - i,
        {
            let index: usize = self.pending_users[i];
            assert(p.pending_users[i as int] == index);
            moved.push_back(
                if index >= at {
                    index + 1
                } else {
                    index
                },
            );
            i += 1;
        }
        let mut times: Vec<(usize, u64)> = Vec::new();
        let mut j: usize = 0;
        while j < self.accepted_users.len()
            invariant
                0 <= j <= self.accepted_users@.len(),
                p == self@,
                has_room(p, 1),
                times@.len() == j,
                forall|k: int| 0 <= k < j ==> (#[trigger] times@[k]).0 == shifted(
                    self.accepted_users@[k].0 as int,
                    at as int,
                ) && times@[k].1 == self.accepted_users@[k].1,
            decreases self.accepted_users@.len() - j,
        {
            let entry = self.accepted_users[j];
            assert(p.accepted_users[j as int].0 == entry.0);
            times.push(
                (
                    if entry.0 >= at {
                        entry.0 + 1
                    } else {
                        entry.0
                    },
                    entry.1,
                ),
            );
            j += 1;
        }
        self.pending_users = moved;
        self.accepted_users = times;
        self.image_pane_selected = match self.image_pane_selected {
            Some(selected) => Some(
                if selected >= at {
                    selected + 1
                } else {
                    selected
                },
            ),
            None => None,
        };
        assert(self@.pending_users =~= p.pending_users.map_values(
            |i: int| shifted(i, at as int),
        ));
        assert(self@.accepted_users =~= p.accepted_users.map_values(
            |e: (int, u64)| (shifted(e.0, at as int), e.1),
        ));
    }

    fn flush_all(&mut self)
        ensures
            final(self)@ == streaming_flushed(reasoning_flushed(old(self)@)),
    {
        self.flush_reasoning();
        self.flush_streaming();
    }

    fn put_image(&mut self, at: usize, image: RenderedImage)
        requires
            at <= old(self)@.items.len(),
            has_room(old(self)@, 1),
        ensures
            final(self)@ == image_inserted(old(self)@, at as int, transcript::image_of(image)),
    {
        let ghost view = transcript::image_of(image);
        self.shift_notes(at);
        let ghost before = self@.items;
        self.items.insert(at, Item::Image(TranscriptImage::from_rendered(image)));
        assert(self@.items =~= before.insert(at as int, transcript::ItemView::Image(view)));
    }

    /// Puts an image where it belongs, unless it is already there.
    pub fn insert_rendered_image(&mut self, image: RenderedImage)
        requires
            has_room(old(self)@, 1),
        ensures
            final(self)@ == with_image(old(self)@, transcript::image_of(image)),
    {
        if has_image(&self.items, &image) {
            return;
        }
        match place_at_anchor(&self.items, &image.anchor) {
            Some(at) => self.put_image(at, image),
            None => {
                self.flush_all();
                let at: usize = self.items.len();
                self.put_image(at, image);
            },
        }
    }

    fn insert_images(&mut self, images: &mut VecDeque<RenderedImage>)
        requires
            has_room(old(self)@, old(images)@.len() as int),
        ensures
            final(self)@ == with_images(old(self)@, old(images)@),
    {
        let ghost p = self@;
        let ghost all = images@;
        let ghost mut seen: int = 0;
        assert(all.skip(0) == all);
        assert(all.take(0) =~= Seq::empty());
        while images.len() > 0
            invariant
                0 <= seen <= all.len(),
                images@ == all.skip(seen),
                self@ == with_images(p, all.take(seen)),
                has_room(self@, all.len() - seen),
            decreases images@.len(),
        {
            let ghost now = self@;
            assert(images@[0] == all[seen]);
            assert(images@.drop_first() == all.skip(seen + 1));
            assert(all.take(seen + 1).drop_last() == all.take(seen));
            match images.pop_front() {
                Some(image) => {
                    self.insert_rendered_image(image);
                    proof {
                        lemma_room(now, transcript::image_of(image), all.len() - seen);
                        seen = seen + 1;
                    }
                },
                None => {},
            }
        }
        assert(all.take(seen) == all);
    }

    fn accept_message(&mut self, now: u64)
        ensures
            final(self)@ == (if old(self)@.pending_users.len() > 0 {
                PanelView {
                    pending_users: old(self)@.pending_users.drop_first(),
                    accepted_users: transcript::with_time(
                        old(self)@.accepted_users,
                        old(self)@.pending_users[0],
                        now,
                    ),
                    ..old(self)@
                }
            } else {
                old(self)@
            }),
    {
        let ghost p = self@;
        acknowledge_next(&mut self.pending_users, &mut self.accepted_users, now);
        assert(p.pending_users.len() > 0 ==> self@.pending_users =~= p.pending_users.drop_first());
        assert(p.pending_users.len() == 0 ==> self@ =~= p);
    }

    fn start_tool(&mut self, call_id: String, name: String, now: u64)
        ensures
            final(self)@ == ({
                let q = streaming_flushed(reasoning_flushed(old(self)@));
                PanelView {
                    arriving_tools: with_arrival(q.arriving_tools, call_id@, now),
                    items: q.items.push(new_call(call_id@, name@)),
                    ..q
                }
            }),
    {
        self.flush_reasoning();
        self.flush_streaming();
        self.note_arrival(&call_id, now);
        let item = Item::Tool {
            call_id,
            name,
            input: String::new(),
            output: String::new(),
            done: false,
            error: None,
        };
        assert(item@ =~= new_call(call_id@, name@));
        self.push_item(item);
    }

    fn extend_input(&mut self, call_id: &String, delta: &String)
        ensures
            final(self)@ == with_input(old(self)@, call_id@, delta@),
    {
        let ghost p = self@;
        if let Some(i) = find_tool(&self.items, call_id.as_str()) {
            assert(p.items[i as int] == self.items@[i as int]@);
            if let Item::Tool { input, .. } = &mut self.items[i] {
                input.append(delta.as_str());
            }
            assert(self@.items =~= with_input(p, call_id@, delta@).items);
            assert(self@ =~= with_input(p, call_id@, delta@));
        }
    }

    fn finish_tool(
        &mut self,
        call_id: String,
        name: String,
        output: String,
        error: Option<String>,
        now: u64,
    )
        ensures
            final(self)@ == with_result(
                old(self)@,
                call_id@,
                name@,
                output@,
                text::text_option(error),
                now,
            ),
    {
        let ghost p = self@;
        let ghost goal = with_result(
            p,
            call_id@,
            name@,
            output@,
            text::text_option(error),
            now,
        );
        match find_tool(&self.items, call_id.as_str()) {
            Some(i) => {
                assert(p.items[i as int] == self.items@[i as int]@);
                if let Item::Tool { done, error: slot, output: result, .. } = &mut self.items[i] {
                    *done = true;
                    *slot = error;
                    *result = output;
                }
                assert(self@.items =~= goal.items);
                assert(self@ =~= goal);
            },
            None => {
                self.note_arrival(&call_id, now);
                self.push_item(
                    Item::Tool { call_id, name, input: String::new(), output, done: true, error },
                );
                assert(self@.items =~= goal.items);
                assert(self@ =~= goal);
            },
        }
    }

    fn find_task(&self, id: &String) -> (r: Option<usize>)
        ensures
            match r {
                Some(i) => task_below(self@.items, id@, self@.items.len() as int) == Some(i as int)
                    && i < self.items@.len(),
                None => task_below(self@.items, id@, self@.items.len() as int) is None,
            },
    {
        let ghost items = self@.items;
        let mut n: usize = self.items.len();
        while n > 0
            invariant
                n <= self.items@.len(),
                items == self@.items,
                items == transcript::item_views(self.items@),
                task_below(items, id@, items.len() as int) == task_below(items, id@, n as int),
            decreases n,
        {
            assert(items[n - 1] == self.items@[n - 1]@);
            if let Item::BackgroundTask { task_id, .. } = &self.items[n - 1] {
                if same(task_id.as_str(), id.as_str()) {
                    return Some(n - 1);
                }
            }
            n -= 1;
        }
        None
    }

    fn note_progress(
        &mut self,
        task_id: String,
        label: String,
        summary: String,
        percent_bits: Option<u32>,
        done: bool,
    )
        ensures
            final(self)@ == with_progress(
                old(self)@,
                transcript::ItemView::BackgroundTask {
                    task_id: task_id@,
                    label: label@,
                    summary: summary@,
                    percent_bits,
                    done,
                },
                task_id@,
            ),
    {
        let ghost p = self@;
        let found = self.find_task(&task_id);
        let item = Item::BackgroundTask { task_id, label, summary, percent_bits, done };
        let ghost view = item@;
        match found {
            Some(i) => {
                self.items[i] = item;
                assert(self@.items =~= p.items.update(i as int, view));
                assert(self@ =~= with_progress(p, view, task_id@));
            },
            None => {
                self.push_item(item);
            },
        }
    }

    fn take_status(&mut self, status: String, stats: Option<ResponseStats>)
        ensures
            final(self)@ == ({
                let q = PanelView {
                    status: if status@ == "processing"@ {
                        "running"@
                    } else {
                        status@
                    },
                    ..old(self)@
                };
                if settles(status@) {
                    finished(q, stats_option(stats))
                } else {
                    q
                }
            }),
    {
        let ghost p = self@;
        let settled = same(status.as_str(), "idle") || same(status.as_str(), "cancelled") || same(
            status.as_str(),
            "canceled",
        );
        self.status = if same(status.as_str(), "processing") {
            "running".to_owned()
        } else {
            status
        };
        assert(self@ =~= (PanelView {
            status: if status@ == "processing"@ {
                "running"@
            } else {
                status@
            },
            ..p
        }));
        if settled {
            self.finish_response(stats);
        }
    }

    fn take_model(&mut self, provider: Option<String>, model: Option<String>)
        ensures
            final(self)@ == with_model(
                old(self)@,
                text::text_option(provider),
                text::text_option(model),
            ),
    {
        let ghost goal = with_model(self@, text::text_option(provider), text::text_option(model));
        if provider.is_some() {
            self.provider = provider;
        }
        let changed = match (&model, &self.model) {
            (Some(new), Some(known)) => !same(new.as_str(), known.as_str()),
            (Some(_), None) => true,
            (None, _) => false,
        };
        if changed {
            self.model = model;
            self.auth_method = None;
        }
        assert(self@ =~= goal);
    }

    fn take_runtime(
        &mut self,
        provider: Option<String>,
        model: Option<String>,
        routes: &Vec<ModelRoute>,
        family: &str,
    )
        ensures
            final(self)@ == with_runtime(
                old(self)@,
                text::text_option(provider),
                text::text_option(model),
                routes@,
                family@,
            ),
    {
        let ghost goal = with_runtime(
            self@,
            text::text_option(provider),
            text::text_option(model),
            routes@,
            family@,
        );
        if provider.is_some() {
            self.provider = provider;
        }
        if model.is_some() {
            self.model = model;
        }
        self.auth_method = match &self.model {
            Some(model) => auth_method_for_model(Some(model.as_str()), routes),
            None => auth_method_for_model(None, routes),
        };
        self.available_models = available_model_names(routes);
        self.model_logo_providers = available_model_logo_providers(routes, family);
        assert(self@ =~= goal);
    }

    fn stream_text(&mut self, text: &String)
        ensures
            final(self)@ == ({
                let q = reasoning_flushed(old(self)@);
                PanelView { streaming_text: q.streaming_text + text@, ..q }
            }),
    {
        self.flush_reasoning();
        self.streaming_text.append(text.as_str());
    }

    fn stream_reasoning(&mut self, text: &String)
        ensures
            final(self)@ == (PanelView {
                streaming_reasoning: old(self)@.streaming_reasoning + text@,
                ..old(self)@
            }),
    {
        self.streaming_reasoning.append(text.as_str());
    }

    fn take_phase(&mut self, phase: String)
        ensures
            final(self)@ == (PanelView { connection_phase: phase@, ..old(self)@ }),
    {
        self.connection_phase = phase;
    }

    fn take_usage(&mut self, tokens: u64)
        ensures
            final(self)@ == (PanelView { context_tokens: Some(tokens), ..old(self)@ }),
    {
        self.context_tokens = Some(tokens);
    }

    fn take_title(&mut self, title: String)
        ensures
            final(self)@ == (PanelView { title: title@, ..old(self)@ }),
    {
        self.title = title;
    }

    fn apply_session_event(&mut self, event: SessionEvent, context: EventContext)
        requires
            event matches SessionEvent::SidePaneImages { images } ==> has_room(
                old(self)@,
                images@.len() as int,
            ),
        ensures
            final(self)@ == after_event(old(self)@, event, context),
    {
        match event {
            SessionEvent::MessageAccepted => {
                self.accept_message(context.now);
            },
            SessionEvent::TextDelta { text } => {
                self.stream_text(&text);
            },
            SessionEvent::ReasoningDelta { text } => {
                self.stream_reasoning(&text);
            },
            SessionEvent::ReasoningDone => {
                self.flush_reasoning();
            },
            SessionEvent::ToolStart { call_id, name } => {
                self.start_tool(call_id, name, context.now);
            },
            SessionEvent::ToolInputDelta { call_id, delta } => {
                self.extend_input(&call_id, &delta);
            },
            SessionEvent::ToolDone { call_id, name, output, error } => {
                self.finish_tool(call_id, name, output, error, context.now);
            },
            SessionEvent::BackgroundProgress { task_id, label, summary, percent_bits, done } => {
                self.note_progress(task_id, label, summary, percent_bits, done);
            },
            SessionEvent::SidePaneImages { images } => {
                let mut queue = queue_of(images);
                self.insert_images(&mut queue);
            },
            SessionEvent::TurnDone => {
                self.finish_response(context.stats);
            },
            SessionEvent::SessionStatus { status } => {
                if !same(status.as_str(), "attached") && context.stop.is_none() {
                    self.take_status(status, context.stats);
                }
            },
            SessionEvent::ConnectionPhase { phase } => {
                self.take_phase(phase);
            },
            SessionEvent::ModelInfo { provider, model } => {
                self.take_model(provider, model);
            },
            SessionEvent::RuntimeInfo { provider, model, routes, .. } => {
                self.take_runtime(provider, model, &routes, context.family.as_str());
            },
            SessionEvent::TokenUsage { .. } => {
                self.take_usage(context.context_tokens);
            },
            SessionEvent::SessionRenamed { display_title } => {
                self.take_title(display_title);
            },
            _ => {},
        }
    }

    /// Takes in an event of this panel's session. Returns the stop that is to be recorded.
    pub fn apply(&mut self, event: ApiEvent, context: EventContext) -> (r: Option<StopNotice>)
        requires
            event matches ApiEvent::Session {
                session_id,
                event: SessionEvent::SidePaneImages { images },
            } ==> has_room(old(self)@, images@.len() as int),
        ensures
            final(self)@ == applied(old(self)@, event, context),
            r == stop_to_record(old(self)@, event, context),
    {
        if self.contents.side_document {
            return None;
        }
        let ghost p = self@;
        let keeps = match &event {
            ApiEvent::Session { event, .. } => match event {
                SessionEvent::TextDelta { .. }
                | SessionEvent::ReasoningDelta { .. }
                | SessionEvent::TokenUsage { .. }
                | SessionEvent::ModelInfo { .. }
                | SessionEvent::RuntimeInfo { .. }
                | SessionEvent::SessionRenamed { .. } => true,
                _ => false,
            },
            _ => false,
        };
        if !keeps {
            self.measurements.dirty = true;
            assert(self@ =~= dirtied(p));
        }
        match event {
            ApiEvent::Session { session_id, event } => {
                let stopped = self.ends_with_stop();
                match event {
                    SessionEvent::TurnStopped { .. } => context.stop,
                    SessionEvent::SessionStatus { status } => {
                        if context.stop.is_some() {
                            if same(status.as_str(), "attached") || stopped {
                                None
                            } else {
                                context.stop
                            }
                        } else {
                            self.apply_session_event(
                                SessionEvent::SessionStatus { status },
                                context,
                            );
                            None
                        }
                    },
                    event => {
                        self.apply_session_event(event, context);
                        None
                    },
                }
            },
            ApiEvent::Error { message } => {
                self.finish_response(context.stats);
                let ghost done = self@;
                let told = match self.items.last() {
                    Some(Item::Stopped(notice)) => same(notice.detail.as_str(), message.as_str()),
                    _ => false,
                };
                assert(self.items@.len() > 0 ==> done.items.last() == self.items@.last()@);
                if !told {
                    self.push_item(Item::Error(message));
                }
                None
            },
            _ => None,
        }
    }

    fn ends_with_stop(&self) -> (r: bool)
        ensures
            r == ends_stopped(self@.items),
    {
        assert(self.items@.len() > 0 ==> self@.items.last() == self.items@.last()@);
        match self.items.last() {
            Some(Item::Stopped(notice)) => !notice.provisional,
            _ => false,
        }
    }

    /// A message could not be sent: the turn ends with an error, and the queue waits.
    pub fn message_failed(&mut self, message: String, stats: Option<ResponseStats>)
        ensures
            final(self)@ == (PanelView {
                queue_paused: true,
                stick_to_bottom: true,
                ..pushed(
                    finished(old(self)@, stats_option(stats)),
                    transcript::ItemView::Error(message@),
                )
            }),
    {
        self.finish_response(stats);
        self.push_item(Item::Error(message));
        self.queue_paused = true;
        self.stick_to_bottom = true;
        assert(self@ =~= (PanelView {
            queue_paused: true,
            stick_to_bottom: true,
            ..pushed(
                finished(old(self)@, stats_option(stats)),
                transcript::ItemView::Error(message@),
            )
        }));
    }
}

fn queue_of(images: Vec<RenderedImage>) -> (r: VecDeque<RenderedImage>)
    ensures
        r@ == images@,
{
    let mut images = images;
    let ghost all = images@;
    let mut r: VecDeque<RenderedImage> = VecDeque::new();
    while images.len() > 0
        invariant
            images@.len() + r@.len() == all.len(),
            images@ == all.take(images@.len() as int),
            r@ == all.skip(images@.len() as int),
        decreases images@.len(),
    {
        let ghost n = images@.len() as int;
        let ghost before = r@;
        match images.pop() {
            Some(image) => {
                r.push_front(image);
                assert(r@ =~= seq![all[n - 1]] + before);
                assert(r@ =~= all.skip(n - 1));
                assert(images@ =~= all.take(n - 1));
            },
            None => {},
        }
    }
    assert(r@ =~= all);
    r
}

proof fn lemma_room_inserted(p: PanelView, at: int, image: transcript::ImageView, n: int)
    requires
        has_room(p, n),
        n >= 1,
    ensures
        has_room(image_inserted(p, at, image), n - 1),
{
    let q = image_inserted(p, at, image);
    assert forall|k: int| 0 <= k < q.pending_users.len() implies #[trigger] q.pending_users[k] + n
        - 1 <= usize::MAX by {
        assert(p.pending_users[k] + n <= usize::MAX);
    }
    assert forall|k: int| 0 <= k < q.accepted_users.len() implies (#[trigger] q.accepted_users[k]).0
        + n - 1 <= usize::MAX by {
        assert(p.accepted_users[k].0 + n <= usize::MAX);
    }
}

#[verifier::spinoff_prover]
#[verifier::rlimit(40)]
proof fn lemma_room(p: PanelView, image: transcript::ImageView, n: int)
    requires
        has_room(p, n),
        n >= 1,
    ensures
        has_room(with_image(p, image), n - 1),
{
    if !transcript::holds_image(p.items, image) {
        match transcript::anchored_place(p.items, image.anchor) {
            Some(at) => lemma_room_inserted(p, at, image, n),
            None => {
                let q = streaming_flushed(reasoning_flushed(p));
                assert(q.pending_users == p.pending_users);
                assert(q.accepted_users == p.accepted_users);
                assert(q.image_pane_selected == p.image_pane_selected);
                lemma_room_inserted(q, q.items.len() as int, image, n);
            },
        }
    }
}

/// An image that comes in again changes nothing.
pub proof fn images_come_in_once(p: PanelView, image: transcript::ImageView)
    requires
        transcript::anchored_place(p.items, image.anchor) matches Some(at) ==> 0 <= at
            <= p.items.len(),
    ensures
        with_image(with_image(p, image), image) == with_image(p, image),
{
    if !transcript::holds_image(p.items, image) {
        let q = with_image(p, image);
        let at = match transcript::anchored_place(p.items, image.anchor) {
            Some(at) => at,
            None => streaming_flushed(reasoning_flushed(p)).items.len() as int,
        };
        assert(q.items[at] == transcript::ItemView::Image(image));
        assert(transcript::is_image(q.items[at], image));
    }
}

/// What is noted of an item stays with it when an image is put in before or behind it.
pub proof fn notes_stay_with_their_items(
    p: PanelView,
    at: int,
    image: transcript::ImageView,
    i: int,
)
    requires
        0 <= at <= p.items.len(),
        0 <= i < p.items.len(),
    ensures
        image_inserted(p, at, image).items[shifted(i, at)] == p.items[i],
{
}

/// An attach notification changes nothing that a reader of the panel sees.
pub proof fn attaching_changes_nothing(p: PanelView, event: ApiEvent, c: EventContext)
    requires
        event matches ApiEvent::Session { session_id, event: e } && e
            matches SessionEvent::SessionStatus { status } && status@ == "attached"@,
    ensures
        applied(p, event, c) == p || applied(p, event, c) == dirtied(p),
        stop_to_record(p, event, c) is None,
{
}

/// Once a turn is done the panel is idle, with nothing left streaming.
pub proof fn finished_is_idle(p: PanelView, stats: Option<transcript::StatsView>)
    ensures
        finished(p, stats).status == "idle"@,
        finished(p, stats).connection_phase.len() == 0,
        finished(p, stats).streaming_text.len() == 0,
        finished(p, stats).streaming_reasoning.len() == 0,
        p.items.len() <= finished(p, stats).items.len(),
{
}

/// What streamed in is not lost when a response ends: it is the last thing said, but for
/// what the response took.
pub proof fn streamed_text_settles(p: PanelView, stats: Option<transcript::StatsView>)
    requires
        text::trim(p.streaming_text).len() > 0,
    ensures
        ({
            let items = finished(p, stats).items;
            let said = if stats is Some {
                items.drop_last()
            } else {
                items
            };
            said.len() > 0 && said.last() == transcript::ItemView::Assistant(p.streaming_text)
        }),
        finished(p, stats).streaming_text.len() == 0,
{
    if stats is Some {
        assert(finished(p, stats).items.drop_last() =~= streaming_flushed(
            reasoning_flushed(p),
        ).items);
    }
}

/// A side document is no conversation: events leave it as it is.
pub proof fn side_documents_stay(p: PanelView, event: ApiEvent, c: EventContext)
    requires
        p.contents.side_document,
    ensures
        applied(p, event, c) == p,
{
}

} // verus!
