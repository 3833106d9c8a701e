//! What holds of a conversation's panel over the events of its session.
use vstd::prelude::*;

use crate::events::{ApiEvent, ModelRoute, RenderedImage, SessionEvent};
use crate::panel;
use crate::panel::EventContext;
use crate::text;
use crate::transcript;

verus! {

/// An event of a session.
pub open spec fn told(session_id: String, event: SessionEvent) -> ApiEvent {
    ApiEvent::Session { session_id, event }
}

/// Whether an event of the given id can be about an item: it is a call of that id or, where
/// the event names none, one that still runs.
pub open spec fn is_addressed(item: transcript::ItemView, id: Seq<char>) -> bool {
    item is Tool && (if id.len() > 0 {
        item->call_id == id
    } else {
        !item->Tool_done
    })
}

/// Whether an event of the given id is about the item at `i`: it is the latest that the event
/// can be about.
pub open spec fn is_meant(items: Seq<transcript::ItemView>, id: Seq<char>, i: int) -> bool {
    is_addressed(items[i], id) && forall|k: int|
        i < k < items.len() ==> !is_addressed(#[trigger] items[k], id)
}

proof fn lemma_meant(items: Seq<transcript::ItemView>, id: Seq<char>, i: int)
    requires
        0 <= i < items.len(),
    ensures
        is_meant(items, id, i) <==> transcript::call_of(items, id) == Some(i),
        transcript::call_of(items, id) matches Some(at) ==> 0 <= at < items.len() && items[at]
            is Tool,
{
    transcript::events_are_about_the_latest_call(items, id);
    if let Some(at) = transcript::call_of(items, id) {
        assert(is_addressed(items[at], id));
        assert forall|k: int| at < k < items.len() implies !is_addressed(
            #[trigger] items[k],
            id,
        ) by {}
        if i < at && is_meant(items, id, i) {
            assert(!is_addressed(items[at], id));
        }
    }
}

proof fn lemma_call_stays(items: Seq<transcript::ItemView>, id: Seq<char>, i: int, item: transcript::ItemView)
    requires
        0 <= i < items.len(),
        items[i] is Tool,
        item is Tool,
        items[i]->call_id == item->call_id,
        items[i]->Tool_done == item->Tool_done,
    ensures
        transcript::call_of(items.update(i, item), id) == transcript::call_of(items, id),
{
    lemma_call_stays_below(items, id, i, item, items.len() as int);
}

proof fn lemma_call_stays_below(
    items: Seq<transcript::ItemView>,
    id: Seq<char>,
    i: int,
    item: transcript::ItemView,
    n: int,
)
    requires
        0 <= i < items.len(),
        0 <= n <= items.len(),
        items[i] is Tool,
        item is Tool,
        items[i]->call_id == item->call_id,
        items[i]->Tool_done == item->Tool_done,
    ensures
        transcript::call_below(items.update(i, item), id, n) == transcript::call_below(
            items,
            id,
            n,
        ),
    decreases n,
{
    if n > 0 {
        lemma_call_stays_below(items, id, i, item, n - 1);
    }
}

/// A call's arguments are put together in the order in which they stream in: two pieces
/// that follow one another come to the same as one piece that holds both.
#[verifier::rlimit(30)]
pub proof fn arguments_add_up(
    p: panel::PanelView,
    session_id: String,
    call_id: String,
    first: String,
    second: String,
    both: String,
    c: EventContext,
)
    requires
        both@ == first@ + second@,
    ensures
        panel::applied(
            panel::applied(
                p,
                told(session_id, SessionEvent::ToolInputDelta { call_id, delta: first }),
                c,
            ),
            told(session_id, SessionEvent::ToolInputDelta { call_id, delta: second }),
            c,
        ) == panel::applied(
            p,
            told(session_id, SessionEvent::ToolInputDelta { call_id, delta: both }),
            c,
        ),
{
    if !p.contents.side_document {
        let q = panel::dirtied(p);
        let once = panel::with_input(q, call_id@, first@);
        assert(panel::dirtied(once) == once);
        lemma_arguments_add_up(q, call_id@, first@, second@, both@);
    }
}

proof fn lemma_arguments_add_up(
    p: panel::PanelView,
    id: Seq<char>,
    first: Seq<char>,
    second: Seq<char>,
    both: Seq<char>,
)
    requires
        both == first + second,
    ensures
        panel::with_input(panel::with_input(p, id, first), id, second) == panel::with_input(
            p,
            id,
            both,
        ),
{
    transcript::events_are_about_the_latest_call(p.items, id);
    if let Some(i) = transcript::call_of(p.items, id) {
        let once = panel::with_input(p, id, first);
        lemma_call_stays(p.items, id, i, once.items[i]);
        assert(p.items[i]->input + first + second =~= p.items[i]->input + both);
        assert(panel::with_input(once, id, second).items =~= panel::with_input(p, id, both).items);
    }
}

/// A piece of arguments goes to the end of what its call already has: to the latest call of
/// the event's id or, where it names none, to the latest that still runs. Nothing else
/// changes in the transcript, and where there is no such call nothing does.
pub proof fn arguments_only_grow(
    p: panel::PanelView,
    session_id: String,
    call_id: String,
    delta: String,
    c: EventContext,
    i: int,
)
    requires
        !p.contents.side_document,
        0 <= i < p.items.len(),
    ensures
        ({
            let after = panel::applied(
                p,
                told(session_id, SessionEvent::ToolInputDelta { call_id, delta }),
                c,
            ).items;
            &&& after.len() == p.items.len()
            &&& !is_meant(p.items, call_id@, i) ==> after[i] == p.items[i]
            &&& is_meant(p.items, call_id@, i) ==> {
                &&& after[i] is Tool
                &&& after[i]->input.len() == p.items[i]->input.len() + delta@.len()
                &&& after[i]->input.take(p.items[i]->input.len() as int) == p.items[i]->input
                &&& after[i]->input.skip(p.items[i]->input.len() as int) == delta@
                &&& after[i]->call_id == p.items[i]->call_id
                &&& after[i]->name == p.items[i]->name
                &&& after[i]->output == p.items[i]->output
                &&& after[i]->Tool_done == p.items[i]->Tool_done
                &&& after[i]->error == p.items[i]->error
            }
        }),
{
    lemma_meant(p.items, call_id@, i);
    let after = panel::applied(
        p,
        told(session_id, SessionEvent::ToolInputDelta { call_id, delta }),
        c,
    ).items;
    if is_meant(p.items, call_id@, i) {
        assert(after[i]->input =~= p.items[i]->input + delta@);
        assert(after[i]->input.take(p.items[i]->input.len() as int) =~= p.items[i]->input);
        assert(after[i]->input.skip(p.items[i]->input.len() as int) =~= delta@);
    }
}

/// A result completes its call: the latest call of the event's id or, where it names none,
/// the latest that still runs. The call keeps its id, name and arguments, and is done with
/// the event's output and error; every other item stays.
pub proof fn a_result_completes_its_call(
    p: panel::PanelView,
    session_id: String,
    call_id: String,
    name: String,
    output: String,
    error: Option<String>,
    c: EventContext,
    i: int,
)
    requires
        !p.contents.side_document,
        0 <= i < p.items.len(),
    ensures
        ({
            let q = panel::applied(
                p,
                told(session_id, SessionEvent::ToolDone { call_id, name, output, error }),
                c,
            );
            &&& !is_meant(p.items, call_id@, i) ==> q.items[i] == p.items[i]
            &&& is_meant(p.items, call_id@, i) ==> {
                &&& q.items.len() == p.items.len()
                &&& q.arriving_tools == p.arriving_tools
                &&& q.items[i] is Tool
                &&& q.items[i]->output == output@
                &&& q.items[i]->Tool_done
                &&& q.items[i]->error is Some == error is Some
                &&& error is Some ==> q.items[i]->error == Some(error->0@)
                &&& q.items[i]->call_id == p.items[i]->call_id
                &&& q.items[i]->name == p.items[i]->name
                &&& q.items[i]->input == p.items[i]->input
            }
        }),
{
    lemma_meant(p.items, call_id@, i);
}

/// A result without a call in the transcript is a call that comes in complete, behind
/// everything that is there.
pub proof fn a_result_without_a_call_is_one(
    p: panel::PanelView,
    session_id: String,
    call_id: String,
    name: String,
    output: String,
    error: Option<String>,
    c: EventContext,
)
    requires
        !p.contents.side_document,
        forall|k: int|
            0 <= k < p.items.len() ==> (#[trigger] p.items[k] is Tool ==> (if call_id@.len() > 0 {
                p.items[k]->call_id != call_id@
            } else {
                p.items[k]->Tool_done
            })),
    ensures
        ({
            let q = panel::applied(
                p,
                told(session_id, SessionEvent::ToolDone { call_id, name, output, error }),
                c,
            );
            let call = q.items.last();
            &&& q.items.len() == p.items.len() + 1
            &&& q.items.drop_last() == p.items
            &&& call is Tool
            &&& call->call_id == call_id@
            &&& call->name == name@
            &&& call->input.len() == 0
            &&& call->output == output@
            &&& call->Tool_done
            &&& call->error is Some == error is Some
            &&& error is Some ==> call->error == Some(error->0@)
            &&& q.arriving_tools.contains((call_id@, c.now))
        }),
{
    transcript::events_are_about_the_latest_call(p.items, call_id@);
    let q = panel::applied(
        p,
        told(session_id, SessionEvent::ToolDone { call_id, name, output, error }),
        c,
    );
    assert(q.items.drop_last() =~= p.items);
    arrivals_are_kept_by_call(p.arriving_tools, call_id@, c.now);
}

/// A call has the time of its last arrival, and no other call's time changes.
pub proof fn arrivals_are_kept_by_call(
    arrivals: Seq<(Seq<char>, u64)>,
    id: Seq<char>,
    now: u64,
)
    ensures
        panel::with_arrival(arrivals, id, now).contains((id, now)),
        forall|e: (Seq<char>, u64)|
            e.0 != id ==> (panel::with_arrival(arrivals, id, now).contains(e) <==> arrivals.contains(e)),
        (forall|k: int| 0 <= k < arrivals.len() ==> (#[trigger] arrivals[k]).0 != id)
            ==> panel::with_arrival(arrivals, id, now) == arrivals.push((id, now)),
        (exists|k: int| 0 <= k < arrivals.len() && (#[trigger] arrivals[k]).0 == id)
            ==> panel::with_arrival(arrivals, id, now).len() == arrivals.len(),
    decreases arrivals.len(),
{
    let after = panel::with_arrival(arrivals, id, now);
    if arrivals.len() == 0 {
        assert(after[0] == (id, now));
        assert(after =~= arrivals.push((id, now)));
    } else if arrivals[0].0 == id {
        assert(after[0] == (id, now));
        assert forall|e: (Seq<char>, u64)| e.0 != id implies (after.contains(e)
            <==> arrivals.contains(e)) by {
            if after.contains(e) {
                let k = after.index_of(e);
                assert(arrivals[k] == e);
            }
            if arrivals.contains(e) {
                let k = arrivals.index_of(e);
                assert(after[k] == e);
            }
        }
    } else {
        let rest = arrivals.drop_first();
        arrivals_are_kept_by_call(rest, id, now);
        let tail = panel::with_arrival(rest, id, now);
        let t = tail.index_of((id, now));
        assert(after[t + 1] == (id, now));
        assert forall|e: (Seq<char>, u64)| e.0 != id implies (after.contains(e)
            <==> arrivals.contains(e)) by {
            if after.contains(e) {
                let k = after.index_of(e);
                if k > 0 {
                    assert(tail[k - 1] == e);
                    assert(tail.contains(e));
                    assert(rest.contains(e));
                    let m = rest.index_of(e);
                    assert(arrivals[m + 1] == e);
                } else {
                    assert(arrivals[0] == e);
                }
            }
            if arrivals.contains(e) {
                let k = arrivals.index_of(e);
                if k > 0 {
                    assert(rest[k - 1] == e);
                    assert(rest.contains(e));
                    assert(tail.contains(e));
                    let m = tail.index_of(e);
                    assert(after[m + 1] == e);
                } else {
                    assert(after[0] == e);
                }
            }
        }
        if forall|k: int| 0 <= k < arrivals.len() ==> (#[trigger] arrivals[k]).0 != id {
            assert forall|k: int| 0 <= k < rest.len() implies (#[trigger] rest[k]).0 != id by {
                assert(arrivals[k + 1].0 != id);
            }
            assert(after =~= arrivals.push((id, now)));
        }
        if exists|k: int| 0 <= k < arrivals.len() && (#[trigger] arrivals[k]).0 == id {
            let k = choose|k: int| 0 <= k < arrivals.len() && (#[trigger] arrivals[k]).0 == id;
            assert(rest[k - 1].0 == id);
        }
    }
}

/// A response streams in piece by piece: two pieces that follow one another come to the same
/// as one that holds both, and each goes behind all that streamed in before it.
pub proof fn text_adds_up(
    p: panel::PanelView,
    session_id: String,
    first: String,
    second: String,
    both: String,
    c: EventContext,
)
    requires
        both@ == first@ + second@,
        !p.contents.side_document,
    ensures
        ({
            let once = panel::applied(p, told(session_id, SessionEvent::TextDelta { text: first }), c);
            let twice = panel::applied(
                once,
                told(session_id, SessionEvent::TextDelta { text: second }),
                c,
            );
            &&& twice == panel::applied(p, told(session_id, SessionEvent::TextDelta { text: both }), c)
            &&& once.streaming_text.len() == p.streaming_text.len() + first@.len()
            &&& once.streaming_text.take(p.streaming_text.len() as int) == p.streaming_text
            &&& once.streaming_text.skip(p.streaming_text.len() as int) == first@
            &&& once.streaming_reasoning.len() == 0
        }),
{
    let once = panel::applied(p, told(session_id, SessionEvent::TextDelta { text: first }), c);
    let twice = panel::applied(once, told(session_id, SessionEvent::TextDelta { text: second }), c);
    text::trimming_takes_the_white_ends(once.streaming_reasoning);
    assert(p.streaming_text + first@ + second@ =~= p.streaming_text + both@);
    assert(once.streaming_text.take(p.streaming_text.len() as int) =~= p.streaming_text);
    assert(once.streaming_text.skip(p.streaming_text.len() as int) =~= first@);
    assert(twice =~= panel::applied(p, told(session_id, SessionEvent::TextDelta { text: both }), c));
}

/// Reasoning streams in piece by piece in the same way, and touches nothing else.
pub proof fn reasoning_adds_up(
    p: panel::PanelView,
    session_id: String,
    first: String,
    second: String,
    both: String,
    c: EventContext,
)
    requires
        both@ == first@ + second@,
        !p.contents.side_document,
    ensures
        ({
            let once = panel::applied(p, told(session_id, SessionEvent::ReasoningDelta { text: first }), c);
            let twice = panel::applied(
                once,
                told(session_id, SessionEvent::ReasoningDelta { text: second }),
                c,
            );
            &&& twice == panel::applied(
                p,
                told(session_id, SessionEvent::ReasoningDelta { text: both }),
                c,
            )
            &&& once.streaming_reasoning.len() == p.streaming_reasoning.len() + first@.len()
            &&& once.streaming_reasoning.take(p.streaming_reasoning.len() as int)
                == p.streaming_reasoning
            &&& once.streaming_reasoning.skip(p.streaming_reasoning.len() as int) == first@
            &&& once == (panel::PanelView { streaming_reasoning: once.streaming_reasoning, ..p })
        }),
{
    let once = panel::applied(p, told(session_id, SessionEvent::ReasoningDelta { text: first }), c);
    assert(p.streaming_reasoning + first@ + second@ =~= p.streaming_reasoning + both@);
    assert(once.streaming_reasoning.take(p.streaming_reasoning.len() as int)
        =~= p.streaming_reasoning);
    assert(once.streaming_reasoning.skip(p.streaming_reasoning.len() as int) =~= first@);
}

/// Whether `after` is `items` with reasoning settled at the end: blank reasoning leaves no
/// trace, other reasoning is the last item, behind all that was there. Reasoning that stood
/// last is continued, and nothing else is touched.
pub open spec fn has_settled(
    after: Seq<transcript::ItemView>,
    items: Seq<transcript::ItemView>,
    reasoning: Seq<char>,
) -> bool {
    let n = items.len() as int;
    if text::all_white(reasoning) {
        after == items
    } else if n > 0 && items[n - 1] is Reasoning {
        let before = items[n - 1]->Reasoning_0;
        let whole = after[n - 1]->Reasoning_0;
        &&& after.len() == n
        &&& after.take(n - 1) == items.take(n - 1)
        &&& after[n - 1] is Reasoning
        &&& before.len() + reasoning.len() <= whole.len()
        &&& whole.take(before.len() as int) == before
        &&& whole.skip(whole.len() - reasoning.len()) == reasoning
    } else {
        after == items.push(transcript::ItemView::Reasoning(reasoning))
    }
}

proof fn lemma_settled(p: panel::PanelView)
    ensures
        has_settled(panel::reasoning_flushed(p).items, p.items, p.streaming_reasoning),
        panel::reasoning_flushed(p).streaming_reasoning.len() == 0,
        panel::reasoning_flushed(p).streaming_text == p.streaming_text,
{
    text::trimming_takes_the_white_ends(p.streaming_reasoning);
    transcript::settled_reasoning_stands_last(p.items, p.streaming_reasoning);
    let n = p.items.len() as int;
    let after = panel::reasoning_flushed(p).items;
    if n > 0 && p.items[n - 1] is Reasoning {
        assert(after.take(n - 1) =~= p.items.take(n - 1));
    }
}

/// The items up to `m`, then the response where it is not blank.
spec fn has_spoken(
    after: Seq<transcript::ItemView>,
    thought: Seq<transcript::ItemView>,
    response: Seq<char>,
) -> bool {
    after == (if text::all_white(response) {
        thought
    } else {
        thought.push(transcript::ItemView::Assistant(response))
    })
}

proof fn lemma_spoken(p: panel::PanelView)
    ensures
        has_spoken(panel::streaming_flushed(p).items, p.items, p.streaming_text),
        panel::streaming_flushed(p).streaming_text.len() == 0,
        panel::streaming_flushed(p).streaming_reasoning == p.streaming_reasoning,
{
    text::trimming_takes_the_white_ends(p.streaming_text);
}

/// Reasoning settles as soon as it is done.
pub proof fn reasoning_settles(p: panel::PanelView, session_id: String, c: EventContext)
    requires
        !p.contents.side_document,
    ensures
        ({
            let q = panel::applied(p, told(session_id, SessionEvent::ReasoningDone), c);
            &&& has_settled(q.items, p.items, p.streaming_reasoning)
            &&& q.streaming_reasoning.len() == 0
            &&& q.streaming_text == p.streaming_text
        }),
{
    lemma_settled(panel::dirtied(p));
}

/// Reasoning settles as soon as text follows it.
pub proof fn reasoning_settles_before_text(
    p: panel::PanelView,
    session_id: String,
    text: String,
    c: EventContext,
)
    requires
        !p.contents.side_document,
    ensures
        has_settled(
            panel::applied(p, told(session_id, SessionEvent::TextDelta { text }), c).items,
            p.items,
            p.streaming_reasoning,
        ),
{
    lemma_settled(p);
}

/// Whether `after` is `items` with all that streamed in settled: the reasoning, then the
/// response, and then what is in `rest`. Blank text leaves no trace.
pub open spec fn has_settled_all(
    after: Seq<transcript::ItemView>,
    p: panel::PanelView,
    rest: Seq<transcript::ItemView>,
) -> bool {
    let m = after.len() - rest.len();
    &&& m >= 0
    &&& after.skip(m) == rest
    &&& if text::all_white(p.streaming_text) {
        has_settled(after.take(m), p.items, p.streaming_reasoning)
    } else {
        &&& m > 0
        &&& has_settled(after.take(m - 1), p.items, p.streaming_reasoning)
        &&& after[m - 1] == transcript::ItemView::Assistant(p.streaming_text)
    }
}

proof fn lemma_settled_all(
    p: panel::PanelView,
    thought: Seq<transcript::ItemView>,
    said: Seq<transcript::ItemView>,
    after: Seq<transcript::ItemView>,
    rest: Seq<transcript::ItemView>,
)
    requires
        has_settled(thought, p.items, p.streaming_reasoning),
        has_spoken(said, thought, p.streaming_text),
        after == said + rest,
    ensures
        has_settled_all(after, p, rest),
{
    let m = after.len() - rest.len();
    assert(after.skip(m) =~= rest);
    if text::all_white(p.streaming_text) {
        assert(after.take(m) =~= thought);
    } else {
        assert(after.take(m - 1) =~= thought);
    }
}

pub proof fn lemma_all_flushed(p: panel::PanelView, rest: Seq<transcript::ItemView>)
    ensures
        has_settled_all(
            panel::streaming_flushed(panel::reasoning_flushed(p)).items + rest,
            p,
            rest,
        ),
        panel::streaming_flushed(panel::reasoning_flushed(p)).streaming_text.len() == 0,
        panel::streaming_flushed(panel::reasoning_flushed(p)).streaming_reasoning.len() == 0,
{
    let q = panel::reasoning_flushed(p);
    lemma_settled(p);
    lemma_spoken(q);
    lemma_settled_all(p, q.items, panel::streaming_flushed(q).items, panel::streaming_flushed(
        q,
    ).items + rest, rest);
}

spec fn figures(stats: Option<transcript::StatsView>) -> Seq<transcript::ItemView> {
    match stats {
        Some(stats) => seq![transcript::ItemView::ResponseStats(stats)],
        None => Seq::empty(),
    }
}

proof fn lemma_finished(p: panel::PanelView, stats: Option<transcript::StatsView>)
    ensures
        has_settled_all(panel::finished(p, stats).items, p, figures(stats)),
        panel::finished(p, stats).streaming_text.len() == 0,
        panel::finished(p, stats).streaming_reasoning.len() == 0,
        panel::finished(p, stats).status == "idle"@,
        panel::finished(p, stats).connection_phase.len() == 0,
{
    let q = panel::dirtied(p);
    lemma_all_flushed(q, figures(stats));
    assert(panel::finished(p, stats).items =~= panel::streaming_flushed(
        panel::reasoning_flushed(q),
    ).items + figures(stats));
}

/// Whether a turn has ended in a panel: all that streamed in is settled, the figures stand
/// behind it where there are any, and the panel is idle.
pub open spec fn has_ended(
    q: panel::PanelView,
    p: panel::PanelView,
    stats: Option<crate::events::ResponseStats>,
) -> bool {
    &&& stats is Some ==> has_settled_all(
        q.items,
        p,
        seq![transcript::ItemView::ResponseStats(stats->0@)],
    )
    &&& stats is None ==> has_settled_all(q.items, p, Seq::empty())
    &&& q.streaming_text.len() == 0
    &&& q.streaming_reasoning.len() == 0
    &&& q.status == "idle"@
    &&& q.connection_phase.len() == 0
}

/// A turn that is done settles all that streamed in, and leaves the panel idle.
pub proof fn an_ended_turn_settles_its_stream(
    p: panel::PanelView,
    session_id: String,
    c: EventContext,
)
    requires
        !p.contents.side_document,
    ensures
        has_ended(panel::applied(p, told(session_id, SessionEvent::TurnDone), c), p, c.stats),
{
    lemma_finished(panel::dirtied(p), panel::stats_option(c.stats));
}

proof fn lemma_settling_words(status: Seq<char>)
    requires
        status == "idle"@ || status == "cancelled"@ || status == "canceled"@,
    ensures
        status != "processing"@,
        status != "attached"@,
        panel::settles(status),
{
    reveal_strlit("processing");
    reveal_strlit("attached");
    reveal_strlit("idle");
    reveal_strlit("cancelled");
    reveal_strlit("canceled");
    assert("attached"@[0] == 'a' && "canceled"@[0] == 'c');
    assert("processing"@.len() == 10 && status.len() < 10);
}

/// A status that settles the session ends the turn in the same way.
#[verifier::rlimit(30)]
pub proof fn settled_statuses_end_the_turn(
    p: panel::PanelView,
    session_id: String,
    status: String,
    c: EventContext,
)
    requires
        !p.contents.side_document,
        c.stop is None,
        status@ == "idle"@ || status@ == "cancelled"@ || status@ == "canceled"@,
    ensures
        has_ended(
            panel::applied(p, told(session_id, SessionEvent::SessionStatus { status }), c),
            p,
            c.stats,
        ),
{
    lemma_settling_words(status@);
    let shown = panel::PanelView { status: status@, ..panel::dirtied(p) };
    let stats = panel::stats_option(c.stats);
    lemma_finished(shown, stats);
    lemma_settled_from(shown, p, panel::finished(shown, stats).items, figures(stats));
    lemma_settling_status(p, session_id, status, c);
}

proof fn lemma_settling_status(
    p: panel::PanelView,
    session_id: String,
    status: String,
    c: EventContext,
)
    requires
        !p.contents.side_document,
        c.stop is None,
        panel::settles(status@),
        status@ != "attached"@,
        status@ != "processing"@,
    ensures
        is_panel(
            panel::applied(p, told(session_id, SessionEvent::SessionStatus { status }), c),
            panel::finished(
                panel::PanelView { status: status@, ..panel::dirtied(p) },
                panel::stats_option(c.stats),
            ),
        ),
{
}

spec fn is_panel(p: panel::PanelView, q: panel::PanelView) -> bool {
    p == q
}

/// Any other status is shown as the runtime tells it, but that one who is processing is
/// running, and nothing else changes that the panel tells. To be attached is no status, and
/// a stop is told of in the transcript alone.
pub proof fn other_statuses_are_shown(
    p: panel::PanelView,
    session_id: String,
    status: String,
    c: EventContext,
)
    requires
        !p.contents.side_document,
        status@ == "attached"@ || c.stop is Some || !(status@ == "idle"@ || status@ == "cancelled"@
            || status@ == "canceled"@),
    ensures
        ({
            let q = panel::applied(p, told(session_id, SessionEvent::SessionStatus { status }), c);
            &&& q.items == p.items
            &&& q.streaming_text == p.streaming_text
            &&& q.streaming_reasoning == p.streaming_reasoning
            &&& q.connection_phase == p.connection_phase
            &&& q.status == (if status@ == "attached"@ || c.stop is Some {
                p.status
            } else if status@ == "processing"@ {
                "running"@
            } else {
                status@
            })
        }),
{
}

/// A call comes in behind all that was said so far, as the last item, with neither arguments
/// nor a result, and it runs.
pub proof fn a_call_follows_what_was_said(
    p: panel::PanelView,
    session_id: String,
    call_id: String,
    name: String,
    c: EventContext,
)
    requires
        !p.contents.side_document,
    ensures
        ({
            let q = panel::applied(
                p,
                told(session_id, SessionEvent::ToolStart { call_id, name }),
                c,
            );
            let call = transcript::ItemView::Tool {
                call_id: call_id@,
                name: name@,
                input: Seq::empty(),
                output: Seq::empty(),
                done: false,
                error: None,
            };
            &&& has_settled_all(q.items, p, seq![call])
            &&& q.streaming_text.len() == 0
            &&& q.streaming_reasoning.len() == 0
            &&& q.status == p.status
            &&& q.arriving_tools.contains((call_id@, c.now))
        }),
{
    let q = panel::dirtied(p);
    let call = panel::new_call(call_id@, name@);
    lemma_all_flushed(q, seq![call]);
    arrivals_are_kept_by_call(p.arriving_tools, call_id@, c.now);
    assert(panel::streaming_flushed(panel::reasoning_flushed(q)).items.push(call)
        =~= panel::streaming_flushed(panel::reasoning_flushed(q)).items + seq![call]);
}

/// The progress of a task is shown in one place: it replaces what was last told of the task,
/// or comes in behind everything where nothing was. It is shown as it was told.
pub proof fn progress_stays_in_its_place(
    p: panel::PanelView,
    session_id: String,
    task_id: String,
    label: String,
    summary: String,
    percent_bits: Option<u32>,
    done: bool,
    c: EventContext,
)
    requires
        !p.contents.side_document,
    ensures
        ({
            let after = panel::applied(
                p,
                told(
                    session_id,
                    SessionEvent::BackgroundProgress { task_id, label, summary, percent_bits, done },
                ),
                c,
            ).items;
            let task = transcript::ItemView::BackgroundTask {
                task_id: task_id@,
                label: label@,
                summary: summary@,
                percent_bits,
                done,
            };
            let mine = |item: transcript::ItemView|
                item is BackgroundTask && item->task_id == task_id@;
            &&& forall|i: int|
                0 <= i < p.items.len() && mine(#[trigger] p.items[i]) && (forall|k: int|
                    i < k < p.items.len() ==> !mine(#[trigger] p.items[k])) ==> after
                    == p.items.update(i, task)
            &&& (forall|k: int| 0 <= k < p.items.len() ==> !mine(#[trigger] p.items[k])) ==> after
                == p.items.push(task)
        }),
{
    let mine = |item: transcript::ItemView| item is BackgroundTask && item->task_id == task_id@;
    lemma_task_below(p.items, task_id@, p.items.len() as int);
    if let Some(at) = panel::task_below(p.items, task_id@, p.items.len() as int) {
        assert(mine(p.items[at]));
        assert forall|i: int|
            0 <= i < p.items.len() && mine(#[trigger] p.items[i]) && (forall|k: int|
                i < k < p.items.len() ==> !mine(#[trigger] p.items[k])) implies i == at by {
            if i < at {
                assert(!mine(p.items[at]));
            }
        }
    }
}

proof fn lemma_task_below(items: Seq<transcript::ItemView>, id: Seq<char>, n: int)
    requires
        0 <= n <= items.len(),
    ensures
        match panel::task_below(items, id, n) {
            Some(i) => {
                &&& 0 <= i < n
                &&& items[i] is BackgroundTask
                &&& items[i]->task_id == id
                &&& forall|k: int|
                    i < k < n ==> !(#[trigger] items[k] is BackgroundTask && items[k]->task_id
                        == id)
            },
            None => forall|k: int|
                0 <= k < n ==> !(#[trigger] items[k] is BackgroundTask && items[k]->task_id == id),
        },
    decreases n,
{
    if n > 0 {
        lemma_task_below(items, id, n - 1);
    }
}

/// Whether an item still tells what another told: it is the same, or the same call or task
/// with more to it, or reasoning that was continued.
pub open spec fn still_tells(new: transcript::ItemView, past: transcript::ItemView) -> bool {
    ||| new == past
    ||| new is Tool && past is Tool && new->call_id == past->call_id && new->name == past->name
        && past->input.len() <= new->input.len() && new->input.take(past->input.len() as int)
        == past->input && (past->Tool_done ==> new->Tool_done)
    ||| new is BackgroundTask && past is BackgroundTask && new->task_id == past->task_id
    ||| new is Reasoning && past is Reasoning && past->Reasoning_0.len() <= new->Reasoning_0.len()
        && new->Reasoning_0.take(past->Reasoning_0.len() as int) == past->Reasoning_0
}

/// Whether items still tell, each at its place, what others told.
pub open spec fn all_still_tell(
    after: Seq<transcript::ItemView>,
    before: Seq<transcript::ItemView>,
) -> bool {
    &&& before.len() <= after.len()
    &&& forall|i: int| 0 <= i < before.len() ==> still_tells(#[trigger] after[i], before[i])
}

pub proof fn lemma_settled_tells(
    p: panel::PanelView,
    after: Seq<transcript::ItemView>,
    rest: Seq<transcript::ItemView>,
)
    requires
        has_settled_all(after, p, rest),
    ensures
        all_still_tell(after, p.items),
{
    let m = after.len() - rest.len();
    let k = if text::all_white(p.streaming_text) {
        m
    } else {
        m - 1
    };
    lemma_thought_tells(p.items, after.take(k), p.streaming_reasoning);
    assert forall|i: int| 0 <= i < p.items.len() implies still_tells(
        #[trigger] after[i],
        p.items[i],
    ) by {
        assert(after.take(k)[i] == after[i]);
    }
}

proof fn lemma_thought_tells(
    items: Seq<transcript::ItemView>,
    after: Seq<transcript::ItemView>,
    reasoning: Seq<char>,
)
    requires
        has_settled(after, items, reasoning),
    ensures
        all_still_tell(after, items),
{
    let n = items.len() as int;
    assert forall|i: int| 0 <= i < n implies still_tells(#[trigger] after[i], items[i]) by {
        if i < n - 1 && after.len() == n {
            assert(after.take(n - 1)[i] == items.take(n - 1)[i] || after == items);
        }
    }
}

proof fn lemma_calls_lose_nothing(
    p: panel::PanelView,
    id: Seq<char>,
    delta: Seq<char>,
    called: Seq<char>,
    result: Seq<char>,
    failure: Option<Seq<char>>,
    now: u64,
)
    ensures
        all_still_tell(panel::with_input(p, id, delta).items, p.items),
        all_still_tell(panel::with_result(p, id, called, result, failure, now).items, p.items),
{
    transcript::events_are_about_the_latest_call(p.items, id);
    if let Some(i) = transcript::call_of(p.items, id) {
        let past = p.items[i]->input;
        assert((past + delta).take(past.len() as int) =~= past);
        assert(past.take(past.len() as int) =~= past);
    }
}

proof fn lemma_progress_loses_nothing(
    p: panel::PanelView,
    task: transcript::ItemView,
    id: Seq<char>,
)
    requires
        task is BackgroundTask,
        task->task_id == id,
    ensures
        all_still_tell(panel::with_progress(p, task, id).items, p.items),
{
    lemma_task_below(p.items, id, p.items.len() as int);
}

/// Whether an event takes nothing out of the transcript.
#[verifier::opaque]
pub open spec fn loses_nothing(p: panel::PanelView, event: ApiEvent, c: EventContext) -> bool {
    all_still_tell(panel::applied(p, event, c).items, p.items)
}

/// No event takes anything out of the transcript or moves it, but that images push it down:
/// every item stays at its place and still tells what it told.
pub proof fn events_lose_nothing(p: panel::PanelView, event: ApiEvent, c: EventContext)
    requires
        !(event is Session && event->Session_event is SidePaneImages),
    ensures
        loses_nothing(p, event, c),
{
    if p.contents.side_document {
        reveal(loses_nothing);
    } else {
        match event {
            ApiEvent::Session { session_id, event } => lemma_session_loses_nothing(
                p,
                session_id,
                event,
                c,
            ),
            ApiEvent::Error { message } => lemma_errors_lose_nothing(p, message, c),
            _ => {
                reveal(loses_nothing);
            },
        }
    }
}

proof fn lemma_errors_lose_nothing(p: panel::PanelView, message: String, c: EventContext)
    requires
        !p.contents.side_document,
    ensures
        loses_nothing(p, ApiEvent::Error { message }, c),
{
    reveal(loses_nothing);
    lemma_finished(panel::dirtied(p), panel::stats_option(c.stats));
    let done = panel::finished(panel::dirtied(p), panel::stats_option(c.stats));
    lemma_settled_tells(panel::dirtied(p), done.items, figures(panel::stats_option(c.stats)));
}

proof fn lemma_session_loses_nothing(
    p: panel::PanelView,
    session_id: String,
    event: SessionEvent,
    c: EventContext,
)
    requires
        !p.contents.side_document,
        !(event is SidePaneImages),
    ensures
        loses_nothing(p, told(session_id, event), c),
{
    match event {
        SessionEvent::TextDelta { text } => lemma_text_loses_nothing(p, session_id, text, c),
        SessionEvent::ReasoningDone => lemma_thought_loses_nothing(p, session_id, c),
        SessionEvent::ToolStart { call_id, name } => lemma_start_loses_nothing(
            p,
            session_id,
            call_id,
            name,
            c,
        ),
        SessionEvent::TurnDone => lemma_done_loses_nothing(p, session_id, c),
        SessionEvent::SessionStatus { status } => lemma_status_loses_nothing(
            p,
            session_id,
            status,
            c,
        ),
        _ => lemma_rest_loses_nothing(p, session_id, event, c),
    }
}

proof fn lemma_text_loses_nothing(
    p: panel::PanelView,
    session_id: String,
    text: String,
    c: EventContext,
)
    requires
        !p.contents.side_document,
    ensures
        loses_nothing(p, told(session_id, SessionEvent::TextDelta { text }), c),
{
    reveal(loses_nothing);
    reasoning_settles_before_text(p, session_id, text, c);
    lemma_thought_tells(
        p.items,
        panel::applied(p, told(session_id, SessionEvent::TextDelta { text }), c).items,
        p.streaming_reasoning,
    );
}

proof fn lemma_thought_loses_nothing(p: panel::PanelView, session_id: String, c: EventContext)
    requires
        !p.contents.side_document,
    ensures
        loses_nothing(p, told(session_id, SessionEvent::ReasoningDone), c),
{
    reveal(loses_nothing);
    reasoning_settles(p, session_id, c);
    lemma_thought_tells(
        p.items,
        panel::applied(p, told(session_id, SessionEvent::ReasoningDone), c).items,
        p.streaming_reasoning,
    );
}

proof fn lemma_start_loses_nothing(
    p: panel::PanelView,
    session_id: String,
    call_id: String,
    name: String,
    c: EventContext,
)
    requires
        !p.contents.side_document,
    ensures
        loses_nothing(p, told(session_id, SessionEvent::ToolStart { call_id, name }), c),
{
    reveal(loses_nothing);
    a_call_follows_what_was_said(p, session_id, call_id, name, c);
    lemma_settled_tells(
        p,
        panel::applied(p, told(session_id, SessionEvent::ToolStart { call_id, name }), c).items,
        seq![panel::new_call(call_id@, name@)],
    );
}

proof fn lemma_done_loses_nothing(p: panel::PanelView, session_id: String, c: EventContext)
    requires
        !p.contents.side_document,
    ensures
        loses_nothing(p, told(session_id, SessionEvent::TurnDone), c),
{
    reveal(loses_nothing);
    lemma_finished(panel::dirtied(p), panel::stats_option(c.stats));
    lemma_settled_tells(
        panel::dirtied(p),
        panel::finished(panel::dirtied(p), panel::stats_option(c.stats)).items,
        figures(panel::stats_option(c.stats)),
    );
}

proof fn lemma_status_loses_nothing(
    p: panel::PanelView,
    session_id: String,
    status: String,
    c: EventContext,
)
    requires
        !p.contents.side_document,
    ensures
        loses_nothing(p, told(session_id, SessionEvent::SessionStatus { status }), c),
{
    reveal(loses_nothing);
    let q = panel::PanelView {
        status: if status@ == "processing"@ {
            "running"@
        } else {
            status@
        },
        ..panel::dirtied(p)
    };
    lemma_finished(q, panel::stats_option(c.stats));
    lemma_settled_tells(
        q,
        panel::finished(q, panel::stats_option(c.stats)).items,
        figures(panel::stats_option(c.stats)),
    );
}

proof fn lemma_rest_loses_nothing(
    p: panel::PanelView,
    session_id: String,
    event: SessionEvent,
    c: EventContext,
)
    requires
        !p.contents.side_document,
        !(event is SidePaneImages),
        !(event is TextDelta),
        !(event is ReasoningDone),
        !(event is ToolStart),
        !(event is TurnDone),
        !(event is SessionStatus),
    ensures
        loses_nothing(p, told(session_id, event), c),
{
    reveal(loses_nothing);
    let q = panel::dirtied(p);
    match event {
        SessionEvent::ToolInputDelta { call_id, delta } => lemma_calls_lose_nothing(
            q,
            call_id@,
            delta@,
            delta@,
            delta@,
            None,
            c.now,
        ),
        SessionEvent::ToolDone { call_id, name, output, error } => lemma_calls_lose_nothing(
            q,
            call_id@,
            name@,
            name@,
            output@,
            text::text_option(error),
            c.now,
        ),
        SessionEvent::BackgroundProgress {
            task_id,
            label,
            summary,
            percent_bits,
            done,
        } => lemma_progress_loses_nothing(
            q,
            transcript::ItemView::BackgroundTask {
                task_id: task_id@,
                label: label@,
                summary: summary@,
                percent_bits,
                done,
            },
            task_id@,
        ),
        _ => {},
    }
}

/// What the runtime tells of the session replaces what was known, each part its own: the
/// phase, the title, the context in use. A provider or model that it does not name stays.
pub proof fn what_is_told_replaces_what_was_known(
    p: panel::PanelView,
    session_id: String,
    phase: String,
    title: String,
    used: (u64, Option<u64>, Option<u64>),
    provider: Option<String>,
    model: Option<String>,
    routes: Vec<ModelRoute>,
    effort: Option<String>,
    c: EventContext,
)
    requires
        !p.contents.side_document,
    ensures
        ({
            let q = panel::applied(p, told(session_id, SessionEvent::ConnectionPhase { phase }), c);
            q.connection_phase == phase@ && q.items == p.items && q.status == p.status
        }),
        panel::applied(p, told(session_id, SessionEvent::SessionRenamed { display_title: title }), c) == (
        panel::PanelView { title: title@, ..p }),
        panel::applied(
            p,
            told(
                session_id,
                SessionEvent::TokenUsage {
                    input: used.0,
                    cache_read_input: used.1,
                    cache_creation_input: used.2,
                },
            ),
            c,
        ) == (panel::PanelView { context_tokens: Some(c.context_tokens), ..p }),
        ({
            let q = panel::applied(p, told(session_id, SessionEvent::ModelInfo { provider, model }), c);
            &&& q.provider == (if provider is Some {
                Some(provider->0@)
            } else {
                p.provider
            })
            &&& q.model == (if model is Some {
                Some(model->0@)
            } else {
                p.model
            })
            &&& q.auth_method == (if q.model == p.model {
                p.auth_method
            } else {
                None
            })
            &&& q == (panel::PanelView {
                provider: q.provider,
                model: q.model,
                auth_method: q.auth_method,
                ..p
            })
        }),
        ({
            let q = panel::applied(
                p,
                told(
                    session_id,
                    SessionEvent::RuntimeInfo { provider, model, routes, reasoning_effort: effort },
                ),
                c,
            );
            &&& q.provider == (if provider is Some {
                Some(provider->0@)
            } else {
                p.provider
            })
            &&& q.model == (if model is Some {
                Some(model->0@)
            } else {
                p.model
            })
            &&& q == (panel::PanelView {
                provider: q.provider,
                model: q.model,
                auth_method: q.auth_method,
                available_models: q.available_models,
                model_logo_providers: q.model_logo_providers,
                ..p
            })
        }),
{
}

/// An error ends the turn and is told of last: by the notice of a stop that says the same,
/// where the transcript ends with one, else in words of its own, behind all that was said.
pub proof fn errors_end_the_turn(p: panel::PanelView, message: String, c: EventContext)
    requires
        !p.contents.side_document,
    ensures
        ({
            let q = panel::applied(p, ApiEvent::Error { message }, c);
            let last = q.items.last();
            let ended = if last is Error {
                q.items.drop_last()
            } else {
                q.items
            };
            &&& q.items.len() > 0
            &&& last is Error || last is Stopped
            &&& last is Error ==> last->Error_0 == message@
            &&& last is Stopped ==> last->Stopped_0.detail == message@
            &&& c.stats is Some ==> has_settled_all(
                ended,
                p,
                seq![transcript::ItemView::ResponseStats(c.stats->0@)],
            )
            &&& c.stats is None ==> has_settled_all(ended, p, Seq::empty())
            &&& q.status == "idle"@
            &&& q.streaming_text.len() == 0
            &&& q.streaming_reasoning.len() == 0
        }),
{
    let before = panel::dirtied(p);
    let done = panel::finished(before, panel::stats_option(c.stats));
    lemma_finished(before, panel::stats_option(c.stats));
    lemma_settled_from(before, p, done.items, figures(panel::stats_option(c.stats)));
    lemma_error_is_last(done, message@);
}

proof fn lemma_settled_from(
    p: panel::PanelView,
    q: panel::PanelView,
    after: Seq<transcript::ItemView>,
    rest: Seq<transcript::ItemView>,
)
    requires
        has_settled_all(after, p, rest),
        p.items == q.items,
        p.streaming_text == q.streaming_text,
        p.streaming_reasoning == q.streaming_reasoning,
    ensures
        has_settled_all(after, q, rest),
{
}

proof fn lemma_error_is_last(p: panel::PanelView, message: Seq<char>)
    ensures
        panel::pushed(p, transcript::ItemView::Error(message)).items.drop_last() == p.items,
        panel::pushed(p, transcript::ItemView::Error(message)).items.last()
            == transcript::ItemView::Error(message),
{
    assert(p.items.push(transcript::ItemView::Error(message)).drop_last() =~= p.items);
}

/// The oldest prompt that waits is the one that is accepted, now; the others wait on, in
/// their order.
pub proof fn the_oldest_prompt_is_accepted(p: panel::PanelView, session_id: String, c: EventContext)
    requires
        !p.contents.side_document,
    ensures
        ({
            let q = panel::applied(p, told(session_id, SessionEvent::MessageAccepted), c);
            &&& q.items == p.items
            &&& if p.pending_users.len() == 0 {
                q.pending_users == p.pending_users && q.accepted_users == p.accepted_users
            } else {
                &&& seq![p.pending_users[0]] + q.pending_users == p.pending_users
                &&& q.accepted_users.contains((p.pending_users[0], c.now))
                &&& forall|e: (int, u64)|
                    e.0 != p.pending_users[0] ==> (q.accepted_users.contains(e)
                        <==> p.accepted_users.contains(e))
            }
        }),
{
    if p.pending_users.len() > 0 {
        let q = panel::applied(p, told(session_id, SessionEvent::MessageAccepted), c);
        assert(seq![p.pending_users[0]] + q.pending_users =~= p.pending_users);
        transcript::times_are_kept_by_prompt(p.accepted_users, p.pending_users[0], c.now);
    }
}

/// Whether two panels are set up alike: which panel it is, what is unfolded, open or chosen,
/// and where the transcript stands.
pub open spec fn set_up_alike(q: panel::PanelView, p: panel::PanelView) -> bool {
    &&& q.session_id == p.session_id
    &&& q.working_dir == p.working_dir
    &&& q.image_pane_open == p.image_pane_open
    &&& q.transcript_row_count == p.transcript_row_count
    &&& q.stick_to_bottom == p.stick_to_bottom
    &&& q.history_loaded == p.history_loaded
    &&& q.startup_layout == p.startup_layout
    &&& q.pending_history_scroll == p.pending_history_scroll
    &&& q.model_picker_open == p.model_picker_open
    &&& q.recovery_picker_open == p.recovery_picker_open
    &&& q.queue_paused == p.queue_paused
    &&& q.reasoning_effort == p.reasoning_effort
    &&& q.pinned_todo_expanded == p.pinned_todo_expanded
    &&& q.show_build_footer == p.show_build_footer
    &&& q.contents == p.contents
    &&& p.measurements.dirty ==> q.measurements.dirty
}

/// Whether an event leaves the settled rows as high as they are: it only streams text in, or
/// tells of the model, the context or the title.
pub open spec fn is_light(event: ApiEvent) -> bool {
    event is Session && {
        let e = event->Session_event;
        e is TextDelta || e is ReasoningDelta || e is TokenUsage || e is ModelInfo || e
            is RuntimeInfo || e is SessionRenamed
    }
}

/// Whether an event leaves a panel set up as it was, with its rows to be measured again where
/// that may be needed.
#[verifier::opaque]
pub open spec fn stays_set_up(p: panel::PanelView, event: ApiEvent, c: EventContext) -> bool {
    &&& set_up_alike(panel::applied(p, event, c), p)
    &&& !is_light(event) && !p.contents.side_document ==> panel::applied(
        p,
        event,
        c,
    ).measurements.dirty
}

/// An event of the runtime changes what the panel tells of the session; what the user set up
/// stays. The rows are measured again unless none can have changed its height.
pub proof fn events_leave_the_panel_set_up(p: panel::PanelView, event: ApiEvent, c: EventContext)
    ensures
        stays_set_up(p, event, c),
{
    if p.contents.side_document {
        reveal(stays_set_up);
    } else {
        match event {
            ApiEvent::Session { session_id, event } => match event {
                SessionEvent::TextDelta { text } => lemma_text_set_up(p, session_id, text, c),
                SessionEvent::ReasoningDone => lemma_thought_set_up(p, session_id, c),
                SessionEvent::ToolStart { call_id, name } => lemma_start_set_up(
                    p,
                    session_id,
                    call_id,
                    name,
                    c,
                ),
                SessionEvent::TurnDone => lemma_done_set_up(p, session_id, c),
                SessionEvent::SessionStatus { status } => lemma_status_set_up(
                    p,
                    session_id,
                    status,
                    c,
                ),
                SessionEvent::SidePaneImages { images } => lemma_images_event_set_up(
                    p,
                    session_id,
                    images,
                    c,
                ),
                _ => lemma_rest_set_up(p, session_id, event, c),
            },
            ApiEvent::Error { message } => lemma_error_set_up(p, message, c),
            _ => {
                reveal(stays_set_up);
            },
        }
    }
}

proof fn lemma_flushed_set_up(p: panel::PanelView)
    ensures
        set_up_alike(panel::streaming_flushed(panel::reasoning_flushed(p)), p),
{
}

proof fn lemma_finished_set_up(p: panel::PanelView, stats: Option<transcript::StatsView>)
    ensures
        set_up_alike(panel::finished(p, stats), p),
{
}

proof fn lemma_text_set_up(p: panel::PanelView, session_id: String, text: String, c: EventContext)
    requires
        !p.contents.side_document,
    ensures
        stays_set_up(p, told(session_id, SessionEvent::TextDelta { text }), c),
{
    reveal(stays_set_up);
}

proof fn lemma_thought_set_up(p: panel::PanelView, session_id: String, c: EventContext)
    requires
        !p.contents.side_document,
    ensures
        stays_set_up(p, told(session_id, SessionEvent::ReasoningDone), c),
{
    reveal(stays_set_up);
}

proof fn lemma_start_set_up(
    p: panel::PanelView,
    session_id: String,
    call_id: String,
    name: String,
    c: EventContext,
)
    requires
        !p.contents.side_document,
    ensures
        stays_set_up(p, told(session_id, SessionEvent::ToolStart { call_id, name }), c),
{
    reveal(stays_set_up);
    lemma_flushed_set_up(panel::dirtied(p));
}

proof fn lemma_done_set_up(p: panel::PanelView, session_id: String, c: EventContext)
    requires
        !p.contents.side_document,
    ensures
        stays_set_up(p, told(session_id, SessionEvent::TurnDone), c),
{
    reveal(stays_set_up);
    lemma_finished_set_up(panel::dirtied(p), panel::stats_option(c.stats));
}

proof fn lemma_status_set_up(
    p: panel::PanelView,
    session_id: String,
    status: String,
    c: EventContext,
)
    requires
        !p.contents.side_document,
    ensures
        stays_set_up(p, told(session_id, SessionEvent::SessionStatus { status }), c),
{
    if status@ == "attached"@ || c.stop is Some || !panel::settles(status@) {
        lemma_shown_set_up(p, session_id, status, c);
    } else {
        lemma_settled_set_up(p, session_id, status, c);
    }
}

proof fn lemma_shown_set_up(
    p: panel::PanelView,
    session_id: String,
    status: String,
    c: EventContext,
)
    requires
        !p.contents.side_document,
        status@ == "attached"@ || c.stop is Some || !panel::settles(status@),
    ensures
        stays_set_up(p, told(session_id, SessionEvent::SessionStatus { status }), c),
{
    reveal(stays_set_up);
}

#[verifier::rlimit(30)]
proof fn lemma_settled_set_up(
    p: panel::PanelView,
    session_id: String,
    status: String,
    c: EventContext,
)
    requires
        !p.contents.side_document,
        status@ != "attached"@,
        c.stop is None,
        panel::settles(status@),
    ensures
        stays_set_up(p, told(session_id, SessionEvent::SessionStatus { status }), c),
{
    reveal(stays_set_up);
    lemma_settling_words(status@);
    lemma_settling_status(p, session_id, status, c);
    lemma_finished_set_up(
        panel::PanelView { status: status@, ..panel::dirtied(p) },
        panel::stats_option(c.stats),
    );
}

proof fn lemma_error_set_up(p: panel::PanelView, message: String, c: EventContext)
    requires
        !p.contents.side_document,
    ensures
        stays_set_up(p, ApiEvent::Error { message }, c),
{
    reveal(stays_set_up);
    lemma_finished_set_up(panel::dirtied(p), panel::stats_option(c.stats));
}

proof fn lemma_rest_set_up(
    p: panel::PanelView,
    session_id: String,
    event: SessionEvent,
    c: EventContext,
)
    requires
        !p.contents.side_document,
        !(event is SidePaneImages),
        !(event is TextDelta),
        !(event is ReasoningDone),
        !(event is ToolStart),
        !(event is TurnDone),
        !(event is SessionStatus),
    ensures
        stays_set_up(p, told(session_id, event), c),
{
    match event {
        SessionEvent::ToolInputDelta { call_id, delta } => lemma_input_set_up(
            p,
            session_id,
            call_id,
            delta,
            c,
        ),
        SessionEvent::ToolDone { .. } => lemma_result_set_up(p, session_id, event, c),
        SessionEvent::BackgroundProgress { .. } => lemma_progress_set_up(p, session_id, event, c),
        SessionEvent::ModelInfo { .. } | SessionEvent::RuntimeInfo { .. } => lemma_model_set_up(
            p,
            session_id,
            event,
            c,
        ),
        _ => lemma_small_set_up(p, session_id, event, c),
    }
}

proof fn lemma_input_set_up(
    p: panel::PanelView,
    session_id: String,
    call_id: String,
    delta: String,
    c: EventContext,
)
    requires
        !p.contents.side_document,
    ensures
        stays_set_up(p, told(session_id, SessionEvent::ToolInputDelta { call_id, delta }), c),
{
    reveal(stays_set_up);
}

proof fn lemma_result_set_up(
    p: panel::PanelView,
    session_id: String,
    event: SessionEvent,
    c: EventContext,
)
    requires
        !p.contents.side_document,
        event is ToolDone,
    ensures
        stays_set_up(p, told(session_id, event), c),
{
    reveal(stays_set_up);
}

proof fn lemma_progress_set_up(
    p: panel::PanelView,
    session_id: String,
    event: SessionEvent,
    c: EventContext,
)
    requires
        !p.contents.side_document,
        event is BackgroundProgress,
    ensures
        stays_set_up(p, told(session_id, event), c),
{
    reveal(stays_set_up);
}

proof fn lemma_model_set_up(
    p: panel::PanelView,
    session_id: String,
    event: SessionEvent,
    c: EventContext,
)
    requires
        !p.contents.side_document,
        event is ModelInfo || event is RuntimeInfo,
    ensures
        stays_set_up(p, told(session_id, event), c),
{
    reveal(stays_set_up);
}

proof fn lemma_small_set_up(
    p: panel::PanelView,
    session_id: String,
    event: SessionEvent,
    c: EventContext,
)
    requires
        !p.contents.side_document,
        !(event is SidePaneImages),
        !(event is TextDelta),
        !(event is ReasoningDone),
        !(event is ToolStart),
        !(event is TurnDone),
        !(event is SessionStatus),
        !(event is ToolInputDelta),
        !(event is ToolDone),
        !(event is BackgroundProgress),
        !(event is ModelInfo),
        !(event is RuntimeInfo),
    ensures
        stays_set_up(p, told(session_id, event), c),
{
    reveal(stays_set_up);
}

proof fn lemma_images_event_set_up(
    p: panel::PanelView,
    session_id: String,
    images: Vec<RenderedImage>,
    c: EventContext,
)
    requires
        !p.contents.side_document,
    ensures
        stays_set_up(p, told(session_id, SessionEvent::SidePaneImages { images }), c),
{
    reveal(stays_set_up);
    lemma_images_set_up(panel::dirtied(p), images@);
}

proof fn lemma_images_set_up(p: panel::PanelView, images: Seq<RenderedImage>)
    ensures
        set_up_alike(panel::with_images(p, images), p),
    decreases images.len(),
{
    if images.len() > 0 {
        lemma_images_set_up(p, images.drop_last());
        lemma_image_set_up(
            panel::with_images(p, images.drop_last()),
            transcript::image_of(images.last()),
        );
    }
}

proof fn lemma_image_set_up(p: panel::PanelView, image: transcript::ImageView)
    ensures
        set_up_alike(panel::with_image(p, image), p),
{
    lemma_flushed_set_up(p);
}

/// An image comes in once: it is among the items afterwards, and where it was there before
/// nothing changes. Otherwise it is the one item more, and all others keep their order. It
/// stands behind the call that it belongs to, where that is there, else last, behind what
/// streamed in.
pub proof fn an_image_is_put_in_its_place(p: panel::PanelView, image: transcript::ImageView) -> (at: int)
    requires
        !transcript::holds_image(p.items, image),
    ensures
        ({
            let q = panel::with_image(p, image);
            let placed = transcript::anchored_place(p.items, image.anchor);
            let said = if placed is Some {
                p.items
            } else {
                panel::streaming_flushed(panel::reasoning_flushed(p)).items
            };
            &&& 0 <= at < q.items.len()
            &&& q.items[at] == transcript::ItemView::Image(image)
            &&& q.items.remove(at) == said
            &&& placed is Some ==> Some(at) == placed && q.streaming_text == p.streaming_text
                && q.streaming_reasoning == p.streaming_reasoning
            &&& placed is None ==> at == q.items.len() - 1 && q.streaming_text.len() == 0
                && q.streaming_reasoning.len() == 0
            &&& transcript::holds_image(q.items, image)
        }),
{
    transcript::images_follow_their_call(p.items, image.anchor);
    let q = panel::with_image(p, image);
    let placed = transcript::anchored_place(p.items, image.anchor);
    let said = if placed is Some {
        p.items
    } else {
        panel::streaming_flushed(panel::reasoning_flushed(p)).items
    };
    let at = if placed is Some {
        placed->0
    } else {
        said.len() as int
    };
    assert(q.items.remove(at) =~= said);
    assert(transcript::is_image(q.items[at], image));
    at
}

/// Every image that comes in is among the items afterwards.
pub proof fn every_image_comes_in(
    p: panel::PanelView,
    session_id: String,
    images: Vec<RenderedImage>,
    c: EventContext,
    i: int,
)
    requires
        !p.contents.side_document,
        0 <= i < images@.len(),
    ensures
        exists|k: int|
            #![trigger panel::applied(
                p,
                told(session_id, SessionEvent::SidePaneImages { images }),
                c,
            ).items[k]]
            {
                let after = panel::applied(
                    p,
                    told(session_id, SessionEvent::SidePaneImages { images }),
                    c,
                ).items;
                0 <= k < after.len() && after[k] is Image && after[k]->Image_0.data
                    == images@[i].data@ && after[k]->Image_0.media_type == images@[i].media_type@
                    && after[k]->Image_0.source == images@[i].source@
            },
{
    let after = panel::applied(p, told(session_id, SessionEvent::SidePaneImages { images }), c).items;
    lemma_images_held(panel::dirtied(p), images@, i);
    transcript::images_are_told_apart_by_what_they_are(after, transcript::image_of(images@[i]));
    transcript::rendered_images_are_carried_over(images@[i]);
}

proof fn lemma_images_held(p: panel::PanelView, images: Seq<RenderedImage>, i: int)
    requires
        0 <= i < images.len(),
    ensures
        transcript::holds_image(panel::with_images(p, images).items, transcript::image_of(images[i])),
    decreases images.len(),
{
    let before = panel::with_images(p, images.drop_last());
    let last = transcript::image_of(images.last());
    if i < images.len() - 1 {
        lemma_images_held(p, images.drop_last(), i);
        let wanted = transcript::image_of(images[i]);
        let k = choose|k: int|
            0 <= k < before.items.len() && transcript::is_image(
                #[trigger] before.items[k],
                wanted,
            );
        if !transcript::holds_image(before.items, last) {
            let at = an_image_is_put_in_its_place(before, last);
            transcript::settled_reasoning_stands_last(before.items, before.streaming_reasoning);
            let after = panel::with_image(before, last).items;
            if k < at {
                assert(after.remove(at)[k] == after[k]);
                assert(transcript::is_image(after[k], wanted));
            } else {
                assert(after.remove(at)[k] == after[k + 1]);
                assert(transcript::is_image(after[k + 1], wanted));
            }
        }
    } else if !transcript::holds_image(before.items, last) {
        let at = an_image_is_put_in_its_place(before, last);
    }
}

/// A stop is recorded where a stop event tells of one, and where a status does unless the
/// transcript already ends with the full notice of it. Nothing else records a stop.
pub proof fn only_stops_are_recorded(p: panel::PanelView, event: ApiEvent, c: EventContext)
    requires
        !p.contents.side_document,
    ensures
        ({
            let recorded = panel::stop_to_record(p, event, c);
            let told_in_full = p.items.len() > 0 && p.items.last() is Stopped
                && !p.items.last()->Stopped_0.provisional;
            &&& recorded is Some ==> recorded == c.stop && event is Session && (
            event->Session_event is TurnStopped || event->Session_event is SessionStatus)
            &&& event is Session && event->Session_event is TurnStopped ==> recorded == c.stop
            &&& event is Session && event->Session_event is SessionStatus
                && event->Session_event->status@ != "attached"@ ==> (recorded is Some <==> c.stop
                is Some && !told_in_full)
        }),
{
}

} // verus!
