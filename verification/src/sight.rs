//! What holds of what a conversation's panel shows: its rows, its marks, its status line.
use vstd::prelude::*;

use crate::activity;
use crate::activity::{MinimapSessionState, RowPlan, TokenSeverity, ToolRow};
use crate::cards;
use crate::chores;
use crate::composer;
use crate::labels;
use crate::panel;
use crate::panel::Panel;
use crate::remote;
use crate::rows;
use crate::rows::{ItemContext, ItemRow};
use crate::scroll;
use crate::scroll::{ScrollInput, WheelFrame};
use crate::text;
use crate::todos;
use crate::todos::{TodoCardPayload, Tone};
use crate::transcript;
use crate::transcript::{Item, TranscriptImage};
use crate::view;
use crate::view::{ChatView, DrawContext, Placement};

verus! {

/// Whether a status tells that the session failed or was lost.
pub open spec fn is_down(status: Seq<char>) -> bool {
    let s = text::lower_all(status);
    text::holds(s, "error"@) || text::holds(s, "crash"@) || text::starts(s, "lost:"@)
}

/// A session is at work where something streams in, or where its status or its transport
/// says so, and it did not fail meanwhile.
pub proof fn work_shows_itself(p: panel::PanelView)
    ensures
        ({
            let s = text::lower_all(p.status);
            let said = s == "generating"@ || s == "running"@ || s == "busy"@ || s == "thinking"@ || s
                == "streaming"@ || s == "running_tools"@;
            let streams = p.streaming_text.len() > 0 || p.streaming_reasoning.len() > 0;
            &&& is_down(p.status) ==> !activity::is_active(p)
            &&& !is_down(p.status) && streams ==> activity::is_active(p)
            &&& !is_down(p.status) && said ==> activity::is_active(p)
            &&& !is_down(p.status) && text::trim(p.connection_phase) == "streaming"@
                ==> activity::is_active(p)
            &&& !streams && !said && text::trim(p.connection_phase) != "streaming"@
                ==> !activity::is_active(p)
        }),
{
}

/// Whether a line is a text with spaces for its underscores.
pub open spec fn spells(line: Seq<char>, s: Seq<char>) -> bool {
    &&& line.len() == s.len()
    &&& forall|i: int|
        0 <= i < s.len() ==> #[trigger] line[i] == (if s[i] == '_' {
            ' '
        } else {
            s[i]
        })
}

/// The status line tells what the transport does, unless that only carries the answer; then
/// what streams in; and else what the status says, in words where there are any for it.
pub proof fn the_status_line_tells_what_goes_on(p: panel::PanelView)
    ensures
        ({
            let line = activity::status_of(p);
            let phase = text::trim(p.connection_phase);
            let quiet = phase.len() == 0 || phase == "connected"@ || phase == "streaming"@;
            let streams = p.streaming_text.len() > 0 || p.streaming_reasoning.len() > 0;
            let s = p.status;
            &&& !quiet ==> spells(line, phase)
            &&& quiet && !is_down(s) && p.streaming_reasoning.len() > 0 ==> line == "Thinking"@
            &&& quiet && !is_down(s) && p.streaming_reasoning.len() == 0 && p.streaming_text.len()
                > 0 ==> line == "Responding"@
            &&& quiet && (is_down(s) || (!streams && phase != "streaming"@)) ==> {
                &&& s == "idle"@ || s == "connected"@ ==> line == "Ready"@
                &&& s == "busy"@ || s == "running"@ || s == "generating"@ ==> line == "Working"@
                &&& s == "thinking"@ ==> line == "Thinking"@
                &&& s == "streaming"@ ==> line == "Responding"@
                &&& s == "running_tools"@ ==> line == "Running tools"@
                &&& s != "idle"@ && s != "connected"@ && s != "busy"@ && s != "running"@ && s
                    != "generating"@ && s != "thinking"@ && s != "streaming"@ && s
                    != "running_tools"@ ==> spells(line, s)
            }
            &&& phase == "streaming"@ && !streams && !is_down(s) && s != "running_tools"@ ==> line
                == "Responding"@
            &&& phase == "streaming"@ && !streams && s == "running_tools"@ ==> line
                == "Running tools"@
        }),
{
    reveal_strlit("idle");
    reveal_strlit("connected");
    reveal_strlit("busy");
    reveal_strlit("running");
    reveal_strlit("generating");
    reveal_strlit("thinking");
    reveal_strlit("streaming");
    reveal_strlit("running_tools");
    assert("idle"@.len() == 4 && "connected"@.len() == 9 && "busy"@.len() == 4 && "running"@.len()
        == 7 && "generating"@.len() == 10 && "thinking"@.len() == 8 && "streaming"@.len() == 9
        && "running_tools"@.len() == 13);
    assert("idle"@[0] == 'i' && "busy"@[0] == 'b' && "connected"@[0] == 'c' && "streaming"@[0]
        == 's');
}

/// Whether a list is the last that a conversation shows.
pub open spec fn is_last_list(items: Seq<transcript::ItemView>, i: int) -> bool {
    &&& 0 <= i < items.len()
    &&& items[i] is Todos
    &&& forall|k: int| i < k < items.len() ==> !(#[trigger] items[k] is Todos)
}

proof fn lemma_last_list(items: Seq<transcript::ItemView>, n: int)
    requires
        0 <= n <= items.len(),
        forall|k: int| n <= k < items.len() ==> !(#[trigger] items[k] is Todos),
    ensures
        match activity::last_shown_todos(items, n) {
            Some(payload) => exists|i: int| #[trigger]
                is_last_list(items, i) && items[i]->Todos_0 == payload,
            None => forall|k: int| 0 <= k < items.len() ==> !(#[trigger] items[k] is Todos),
        },
    decreases n,
{
    if n > 0 {
        if items[n - 1] is Todos {
            assert(is_last_list(items, n - 1));
        } else {
            lemma_last_list(items, n - 1);
        }
    }
}

proof fn lemma_all_completed(list: Seq<todos::CardView>)
    ensures
        todos::completed(list) == list.len() <==> forall|k: int|
            0 <= k < list.len() ==> (#[trigger] list[k]).status == "completed"@,
        todos::completed(list) <= list.len(),
    decreases list.len(),
{
    if list.len() > 0 {
        let fewer = list.drop_last();
        lemma_all_completed(fewer);
        assert forall|k: int| 0 <= k < fewer.len() implies #[trigger] fewer[k] == list[k] by {}
        if todos::completed(list) == list.len() {
            assert forall|k: int| 0 <= k < list.len() implies (#[trigger] list[k]).status
                == "completed"@ by {
                if k < fewer.len() {
                    assert(fewer[k] == list[k]);
                }
            }
        }
        if forall|k: int| 0 <= k < list.len() ==> (#[trigger] list[k]).status == "completed"@ {
            assert forall|k: int| 0 <= k < fewer.len() implies (#[trigger] fewer[k]).status
                == "completed"@ by {
                assert(list[k].status == "completed"@);
            }
            assert(list[list.len() - 1].status == "completed"@);
        }
    }
}

/// The progress of a session is that of the last list it shows.
pub proof fn progress_is_of_the_last_list(p: Panel, progress: Option<(usize, usize)>)
    requires
        call_ensures(Panel::latest_todo_progress, (&p,), progress),
    ensures
        match progress {
            Some((done, total)) => exists|i: int| #[trigger]
                is_last_list(p@.items, i) && total == p@.items[i]->Todos_0.todos.len() && done
                    == p@.items[i]->Todos_0.todos.filter(
                    |t: todos::CardView| t.status == "completed"@,
                ).len(),
            None => forall|k: int| 0 <= k < p@.items.len() ==> !(#[trigger] p@.items[k] is Todos),
        },
{
    lemma_last_list(p@.items, p@.items.len() as int);
    if let Some(payload) = activity::last_shown_todos(p@.items, p@.items.len() as int) {
        chores::completed_work_is_counted(payload.todos);
    }
}

/// The minimap marks a session by what matters most: that it failed, that it answers, that
/// it is at work, and only of an idle one that all its todos are done.
pub proof fn the_minimap_marks_what_matters_most(p: Panel, mark: MinimapSessionState)
    requires
        call_ensures(Panel::minimap_state, (&p,), mark),
    ensures
        ({
            let s = text::lower_all(p@.status);
            let failed = text::holds(s, "error"@) || text::holds(s, "crash"@) || (p@.items.len() > 0
                && p@.items.last() is Error);
            let streams = p@.streaming_text.len() > 0 || p@.streaming_reasoning.len() > 0;
            let done = exists|i: int| #[trigger]
                is_last_list(p@.items, i) && p@.items[i]->Todos_0.todos.len() > 0 && forall|k: int|
                    0 <= k < p@.items[i]->Todos_0.todos.len()
                        ==> (#[trigger] p@.items[i]->Todos_0.todos[k]).status == "completed"@;
            &&& mark is Error <==> failed
            &&& mark is Streaming <==> !failed && streams
            &&& mark is Working <==> !failed && !streams && s != "idle"@
            &&& mark is Complete <==> !failed && !streams && s == "idle"@ && done
        }),
{
    lemma_last_list(p@.items, p@.items.len() as int);
    match activity::last_shown_todos(p@.items, p@.items.len() as int) {
        Some(payload) => {
            lemma_all_completed(payload.todos);
            let i = choose|i: int| #[trigger]
                is_last_list(p@.items, i) && p@.items[i]->Todos_0 == payload;
            assert forall|j: int| #[trigger] is_last_list(p@.items, j) implies j == i by {
                assert(p@.items[i] is Todos && p@.items[j] is Todos);
            }
        },
        None => {
            assert forall|j: int| !(#[trigger] is_last_list(p@.items, j)) by {}
        },
    }
}

/// A session is busy unless it is idle and nothing of an answer is there.
pub proof fn busy_sessions_are_not_idle(p: Panel, busy: bool)
    requires
        call_ensures(Panel::is_busy, (&p,), busy),
    ensures
        busy <==> !(p@.status == "idle"@ && p@.streaming_text.len() == 0),
{
}

/// The todos that stay in view are the latest that count, where there are any.
pub proof fn pinned_todos_are_the_latest(p: Panel, pinned: Option<TodoCardPayload>)
    requires
        call_ensures(Panel::pinned_todos, (&p,), pinned),
    ensures
        pinned is Some ==> pinned->0@.todos.len() > 0 && composer::latest_todos(
            p@.items,
            p@.items.len() as int,
        ) == Some(pinned->0@),
        pinned is None ==> match composer::latest_todos(p@.items, p@.items.len() as int) {
            Some(list) => list.todos.len() == 0,
            None => true,
        },
{
}

/// A session at work has one row more than its transcript. The rows that are drawn are
/// brought to that number, and nothing else of the panel changes but that a new
/// conversation's layout is taken up with its first item.
pub proof fn rows_are_brought_up_to_date(p: &mut Panel, count: usize, plan: RowPlan)
    requires
        call_ensures(Panel::plan_rows, (p, count), plan),
    ensures
        plan.row_count == count + if activity::is_active(old(p)@) {
            1int
        } else {
            0
        },
        final(p)@.transcript_row_count == plan.row_count,
        match plan.splice {
            Some((from, to, added)) => from <= to <= old(p)@.transcript_row_count && old(p)@.transcript_row_count - (to - from) + added == plan.row_count && (added == 0 || from
                == old(p)@.transcript_row_count) && (added > 0 || from == plan.row_count),
            None => plan.row_count == old(p)@.transcript_row_count,
        },
        plan.fresh <==> old(p)@.items.len() == 0 && plan.row_count == 0 && old(p)@.startup_layout
            != Some(true),
        plan.spacious <==> plan.fresh || old(p)@.startup_layout is Some,
        final(p)@.startup_layout == (if old(p)@.items.len() > 0 && old(p)@.startup_layout is Some {
            Some(true)
        } else {
            old(p)@.startup_layout
        }),
        final(p)@.items == old(p)@.items,
        final(p)@.streaming_text == old(p)@.streaming_text,
        final(p)@.status == old(p)@.status,
        final(p)@.stick_to_bottom == old(p)@.stick_to_bottom,
        final(p)@.pending_users == old(p)@.pending_users,
{
}

/// What is drawn is the panel's own: its rows, its model, its account, its todos, and what
/// its session does. It is shown from its beginning where a new session's prompt is, at its
/// end where it follows that, and else where it stands.
pub proof fn panels_show_what_they_have(p: &mut Panel, context: DrawContext, shown: ChatView)
    requires
        view::rows_of(old(p)@).len() < usize::MAX,
        call_ensures(Panel::render, (p, context), shown),
    ensures
        transcript::render_views(shown.rows@) == view::rows_of(old(p)@),
        shown.status@ == activity::status_of(old(p)@),
        shown.recovery <==> old(p)@.recovery_picker_open,
        shown.images <==> old(p)@.image_pane_open,
        shown.build <==> old(p)@.show_build_footer,
        text::text_option(shown.effort) == old(p)@.reasoning_effort,
        old(p)@.model is Some ==> shown.model@ == old(p)@.model->0,
        old(p)@.model is None ==> shown.model@ == "Choose model"@,
        shown.unfolded ==> shown.pinned is Some,
        shown.pinned is Some ==> (shown.unfolded <==> old(p)@.pinned_todo_expanded),
        shown.placement is Start <==> context.startup_preview,
        shown.placement is End <==> !context.startup_preview && old(p)@.stick_to_bottom,
        shown.latest is Some <==> shown.plan.row_count > 0 && !context.end_visible,
        shown.latest is Some && shown.latest->0 is Some ==> activity::is_active(old(p)@)
            && shown.latest->0->0@ == shown.status@,
        shown.latest is Some && activity::is_active(old(p)@) ==> shown.latest->0 is Some,
        shown.folder is Some <==> old(p)@.working_dir is Some && old(p)@.working_dir->0.len() > 0,
        shown.input_below <==> !shown.plan.fresh && old(p)@.startup_layout is None,
{
}

/// Drawing changes nothing of what a conversation holds.
pub proof fn drawing_changes_only_how_it_is_drawn(
    p: &mut Panel,
    context: DrawContext,
    shown: ChatView,
)
    requires
        view::rows_of(old(p)@).len() < usize::MAX,
        call_ensures(Panel::render, (p, context), shown),
    ensures
        final(p)@.items == old(p)@.items,
        final(p)@.streaming_text == old(p)@.streaming_text,
        final(p)@.streaming_reasoning == old(p)@.streaming_reasoning,
        final(p)@.pending_users == old(p)@.pending_users,
        final(p)@.accepted_users == old(p)@.accepted_users,
        final(p)@.status == old(p)@.status,
        final(p)@.stick_to_bottom == old(p)@.stick_to_bottom,
        final(p)@.model == old(p)@.model,
        final(p)@.title == old(p)@.title,
        !final(p)@.measurements.dirty,
        final(p)@.transcript_row_count == shown.plan.row_count,
{
}

/// Where a panel is to go back to is told once: as soon as it has rows.
pub proof fn places_are_gone_back_to_once(p: &mut Panel, context: DrawContext, shown: ChatView)
    requires
        view::rows_of(old(p)@).len() < usize::MAX,
        call_ensures(Panel::render, (p, context), shown),
    ensures
        shown.plan.row_count > 0 ==> shown.scroll == old(p)@.pending_history_scroll && final(p)@.pending_history_scroll is None,
        shown.plan.row_count == 0 ==> shown.scroll is None && final(p)@.pending_history_scroll
            == old(p)@.pending_history_scroll,
{
}

/// A remote session's panel names the machine, and no other does.
pub proof fn banners_name_the_machine(id: Seq<char>)
    ensures
        match view::banner(id) {
            Some(words) => remote::address_of(id) is Some && remote::address_of(id)->0.host is Some
                && words.len() == 6 + remote::address_of(id)->0.host->0.len() && words.skip(6)
                == remote::address_of(id)->0.host->0,
            None => remote::address_of(id) is None || remote::address_of(id)->0.host is None,
        },
{
    reveal_strlit("SSH · ");
    assert("SSH · "@.len() == 6);
    if let Some(words) = view::banner(id) {
        assert(words.skip(6) =~= remote::address_of(id)->0.host->0);
    }
}

/// The prompts that can be pinned are found at their rows, in their order, and no others.
pub proof fn prompts_are_found_at_their_rows(
    all: Seq<transcript::RowView>,
    pinnable: Seq<bool>,
    n: int,
)
    requires
        0 <= n <= all.len(),
    ensures
        ({
            let found = view::pinnable_rows(all, pinnable, n);
            &&& forall|a: int, b: int|
                0 <= a < b < found.len() ==> (#[trigger] found[a]).0 < (#[trigger] found[b]).0
            &&& forall|a: int|
                0 <= a < found.len() ==> 0 <= (#[trigger] found[a]).0 < n && is_prompt_row(
                    all,
                    pinnable,
                    found[a].0,
                    found[a].1,
                )
            &&& forall|k: int, i: int|
                0 <= k < n && #[trigger] is_prompt_row(all, pinnable, k, i) ==> found.contains((k, i))
        }),
    decreases n,
{
    if n > 0 {
        prompts_are_found_at_their_rows(all, pinnable, n - 1);
        let before = view::pinnable_rows(all, pinnable, n - 1);
        let found = view::pinnable_rows(all, pinnable, n);
        assert(found == before || (found.len() == before.len() + 1 && found.drop_last() =~= before));
        assert forall|k: int, i: int|
            0 <= k < n && #[trigger] is_prompt_row(all, pinnable, k, i) implies found.contains(
            (k, i),
        ) by {
            if k < n - 1 {
                assert(before.contains((k, i)));
                let a = choose|a: int| 0 <= a < before.len() && before[a] == (k, i);
                assert(found[a] == (k, i));
            } else {
                assert(found[before.len() as int] == (k, i));
            }
        }
    }
}

/// Whether a row shows an item that can be pinned.
pub open spec fn is_prompt_row(
    all: Seq<transcript::RowView>,
    pinnable: Seq<bool>,
    k: int,
    i: int,
) -> bool {
    all[k].source == transcript::RowSourceView::Settled(i) && 0 <= i < pinnable.len() && pinnable[i]
}

/// Every kind of item has its own kind of row.
pub proof fn items_have_their_own_rows(p: Panel, item: Item, context: ItemContext, row: ItemRow)
    requires
        call_ensures(Panel::render_item, (&p, &item, context), row),
    ensures
        row is Prompt <==> item@ is User,
        row is Response <==> item@ is Assistant,
        row is Reasoning <==> item@ is Reasoning,
        row is Failure <==> item@ is Error,
        row is Stop <==> item@ is Stopped,
        row is Figures <==> item@ is ResponseStats,
        row is Task <==> item@ is BackgroundTask,
        row is ImageLink <==> item@ is Image && p@.image_pane_open,
        row is Image <==> item@ is Image && !p@.image_pane_open,
        item@ is Tool <==> row is Edit || row is Tool || (row is Card && !(item@ is Todos)),
        item@ is Todos ==> row is Card,
{
}

/// The list that the todo tool printed is drawn as a card once the call is done without an
/// error; another call is drawn as the change it made, where that can be shown; every other
/// call is a line.
pub proof fn calls_are_drawn_by_what_they_did(
    p: Panel,
    item: Item,
    context: ItemContext,
    row: ItemRow,
)
    requires
        item@ is Tool,
        call_ensures(Panel::render_item, (&p, &item, context), row),
    ensures
        ({
            let listed = item@->name == "todo"@ && item@->Tool_done && item@->error is None
                && todos::printed(item@->output) is Some;
            &&& row is Card <==> listed
            &&& row is Edit <==> !listed && context.edit
            &&& row is Tool <==> !listed && !context.edit
            &&& row is Tool ==> {
                let line = row->Tool_0;
                &&& line.running <==> !item@->Tool_done
                &&& line.error is Some <==> item@->error is Some
                &&& line.detail is Some ==> (context.expanded || context.moving) && line.badge is Some
                &&& (context.expanded || context.moving) && line.badge is Some ==> line.detail is Some
                &&& line.summary is Some ==> line.summary->0@.len() > 0
                &&& context.summary is Some && line.summary is Some ==> line.summary->0@
                    == labels::condensed(context.summary->0@, 90)
                &&& line.badge matches Some((label, tone)) ==> label@.len() == 1
                    + context.tokens@.len() && label@.skip(1) == context.tokens@ && (tone is Bad
                    <==> context.severity is Danger) && (tone is Warn <==> context.severity
                    is Warning) && (tone is Good <==> context.severity is Normal)
            }
        }),
{
    reveal_strlit("~");
    if row is Tool {
        if let Some((label, _)) = row->Tool_0.badge {
            assert(label@.skip(1) =~= context.tokens@);
        }
    }
}

/// A call's line and the row that it is drawn by say the same.
pub proof fn lines_and_rows_say_the_same(
    p: Panel,
    item: Item,
    context: ItemContext,
    row: ItemRow,
    name: &str,
    input: &str,
    output: &str,
    error: Option<&str>,
    drawn: ToolRow,
)
    requires
        item@ is Tool,
        !context.edit,
        name@ == item@->name,
        input@ == item@->input,
        output@ == item@->output,
        labels::view_of(error) == item@->error,
        call_ensures(Panel::render_item, (&p, &item, context), row),
        call_ensures(
            activity::tool_row,
            (name, input, output, item@->Tool_done, error, context.summary),
            drawn,
        ),
    ensures
        row is Card <==> drawn is Card,
        row is Tool && drawn is Line ==> {
            let line = row->Tool_0;
            &&& line.summary is Some ==> line.summary->0@ == drawn->summary@
            &&& line.summary is None ==> drawn->summary@.len() == 0
            &&& line.detail is Some ==> line.detail->0@ == drawn->detail@
            &&& line.badge is None <==> drawn->detail@.len() == 0
            &&& text::text_option(line.error) == text::text_option(drawn->error)
        },
{
}

/// Below an image stands its label; one that cannot be shown says so besides. Both ways to
/// its caption give the same.
pub proof fn captions_carry_the_label(image: TranscriptImage, caption: String)
    requires
        call_ensures(activity::image_caption, (&image,), caption),
    ensures
        caption@ == rows::caption_of(image@),
        ({
            let label = match image.label {
                Some(label) => label@,
                None => "Image attachment"@,
            };
            &&& caption@.len() >= label.len()
            &&& caption@.take(label.len() as int) == label
            &&& image.preview is Some <==> caption@ == label
        }),
{
    reveal_strlit(" (could not display ");
    let label = match image.label {
        Some(label) => label@,
        None => "Image attachment"@,
    };
    assert(" (could not display "@.len() == 20);
    assert(caption@.take(label.len() as int) =~= label);
}

/// The figures stand close to their response, and a call close to the call before it; all
/// else stands apart.
pub proof fn rows_stand_close_to_what_they_belong_to(
    item: Item,
    previous: Option<&Item>,
    packed: bool,
)
    requires
        call_ensures(activity::is_packed, (&item, previous), packed),
    ensures
        item@ is ResponseStats ==> packed,
        packed ==> item@ is ResponseStats || item@ is Tool,
        item@ is Tool ==> (packed <==> previous is Some && previous->0@ is Tool),
{
}

/// An output counts at least one token where there is any of it, and none where there is
/// none.
pub proof fn outputs_count(estimate: usize, output: &str, counted: usize)
    requires
        call_ensures(activity::counted_tokens, (estimate, output), counted),
    ensures
        estimate > 0 ==> counted == estimate,
        output@.len() > 0 ==> counted > 0,
        output@.len() == 0 ==> counted == estimate,
        counted <= estimate + 1,
{
}

/// A badge says how many tokens there are, and its tone how much they weigh.
pub proof fn badges_warn_of_large_outputs(
    count: &str,
    severity: TokenSeverity,
    badge: (String, Tone),
)
    requires
        call_ensures(activity::tool_output_token_badge, (count, severity), badge),
    ensures
        badge.0@.skip(1) == count@,
        badge.1 is Good <==> severity is Normal,
        badge.1 is Warn <==> severity is Warning,
        badge.1 is Bad <==> severity is Danger,
{
    reveal_strlit("~");
    assert(badge.0@.skip(1) =~= count@);
}

/// A card tells of its progress what the label tells, in figures that read back as the
/// counts they are.
pub proof fn cards_tell_their_progress(
    payload: TodoCardPayload,
    label: String,
    card: cards::TodoCard,
)
    requires
        call_ensures(activity::progress_label, (&payload,), label),
        call_ensures(cards::render_todo_card, (&payload,), card),
    ensures
        card.progress@ == label@,
        label@ == text::decimal(
            payload@.todos.filter(|t: todos::CardView| t.status == "completed"@).len(),
        ) + " of "@ + (text::decimal(payload@.todos.len()) + " complete"@),
        card.empty is Some <==> payload@.todos.len() == 0,
        card.empty is Some ==> card.sections@.len() == 0,
{
    chores::completed_work_is_counted(payload@.todos);
    if payload@.todos.len() == 0 {
        assert(todos::group_names(payload@.todos).len() == 0);
        assert(todos::members(payload@.todos, None).len() == 0);
        assert(cards::section_views(card.sections@).len() == card.sections@.len());
    }
}

/// The pinned line tells of the todos that count: how many are done, and how many have no
/// dot.
pub proof fn the_pinned_line_counts(payload: TodoCardPayload, line: cards::PinnedLine)
    requires
        call_ensures(cards::render_pinned_todo_summary, (&payload,), line),
    ensures
        ({
            let own = payload@.todos.filter(|t: todos::CardView| t.status != "cancelled"@);
            &&& line.count@ == text::decimal(
                own.filter(|t: todos::CardView| t.status == "completed"@).len(),
            ) + "/"@ + text::decimal(own.len())
            &&& line.overflow is Some <==> own.len() > line.dots@.len()
            &&& line.overflow is Some ==> line.overflow->0@.skip(1) == text::decimal(
                (own.len() - line.dots@.len()) as nat,
            )
            &&& forall|i: int|
                0 <= i < line.dots@.len() ==> i < own.len() && (#[trigger] line.dots@[i] <==> own[i].status
                    == "completed"@)
        }),
{
    reveal_strlit("+");
    chores::cancelled_work_does_not_count(payload@.todos);
    let own = todos::active(payload@.todos);
    chores::completed_work_is_counted(own);
    if let Some(overflow) = line.overflow {
        assert(overflow@.skip(1) =~= text::decimal((own.len() - line.dots@.len()) as nat));
    }
}

/// Folding a call's detail unfolds it or folds it, and leaves the others as they are.
pub proof fn only_one_detail_is_folded(expanded: Set<Seq<char>>, call_id: Seq<char>, other: Seq<char>)
    ensures
        rows::toggled(expanded, call_id).contains(call_id) <==> !expanded.contains(call_id),
        other != call_id ==> (rows::toggled(expanded, call_id).contains(other)
            <==> expanded.contains(other)),
{
}

/// A frame moves what glides by the time since the last one, unless that is too long ago
/// for the glide to go on.
pub proof fn frames_go_by_the_time_since(previous: Option<u128>, now: u128)
    ensures
        scroll::frame_of(previous, now) is Nothing <==> previous is None,
        previous is Some ==> {
            let before = previous->0;
            &&& scroll::frame_of(previous, now) is Cancel <==> now > before + 250000000
            &&& scroll::frame_of(previous, now) is Advance <==> before < now && now <= before
                + 250000000
            &&& scroll::frame_of(previous, now) is Again <==> now <= before
        },
{
}

/// A turn of the wheel that does not move is passed over. One that moves glides, or moves at
/// once where motion is to be kept still, and only one upwards leaves the end.
pub proof fn wheels_move_the_transcript(
    p: &mut Panel,
    moves: bool,
    up: bool,
    still: bool,
    answer: ScrollInput,
)
    requires
        call_ensures(Panel::scroll_input, (p, moves, up, still), answer),
    ensures
        answer is Ignored <==> !moves,
        answer is Direct <==> moves && still,
        answer is Glide <==> moves && !still,
        final(p)@.stick_to_bottom <==> old(p)@.stick_to_bottom && !(moves && up),
        final(p)@.items == old(p)@.items,
        final(p)@.pending_history_scroll == old(p)@.pending_history_scroll,
{
}

/// The way back to the end is offered where there is one and it is out of view.
pub proof fn the_way_back_is_offered_from_afar(rows: usize, end_visible: bool, offered: bool)
    requires
        call_ensures(activity::offers_latest, (rows, end_visible), offered),
    ensures
        end_visible ==> !offered,
        rows == 0 ==> !offered,
        rows > 0 && !end_visible ==> offered,
{
}

} // verus!
