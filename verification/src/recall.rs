//! What holds of a panel when its session's history comes.
use vstd::prelude::*;

use crate::course;
use crate::events::{HistoryMessage, RenderedImage};
use crate::history;
use crate::history::{PlacementView, Wanted};
use crate::panel;
use crate::text;
use crate::transcript;

verus! {

/// Whether a text begins with another.
pub open spec fn begins(s: Seq<char>, p: Seq<char>) -> bool {
    p.len() <= s.len() && s.take(p.len() as int) == p
}

proof fn lemma_begins(s: Seq<char>, p: Seq<char>)
    ensures
        text::starts(s, p) <==> begins(s, p),
{
    if p.len() <= s.len() {
        assert(s.subrange(0, p.len() as int) =~= s.take(p.len() as int));
    }
}

/// Whether the item at `i` is the last response in a transcript.
pub open spec fn is_last_response(items: Seq<transcript::ItemView>, i: int) -> bool {
    &&& 0 <= i < items.len()
    &&& items[i] is Assistant
    &&& forall|k: int| i < k < items.len() ==> !(#[trigger] items[k] is Assistant)
}

proof fn lemma_last_response(items: Seq<transcript::ItemView>, n: int)
    requires
        0 <= n <= items.len(),
    ensures
        match history::last_response(items, n) {
            Some(i) => 0 <= i < n && items[i] is Assistant && forall|k: int|
                i < k < n ==> !(#[trigger] items[k] is Assistant),
            None => forall|k: int| 0 <= k < n ==> !(#[trigger] items[k] is Assistant),
        },
    decreases n,
{
    if n > 0 && !(items[n - 1] is Assistant) {
        lemma_last_response(items, n - 1);
    }
}

proof fn lemma_known(items: Seq<transcript::ItemView>, i: int)
    ensures
        is_last_response(items, i) <==> history::last_response(items, items.len() as int) == Some(i),
{
    lemma_last_response(items, items.len() as int);
    if let Some(at) = history::last_response(items, items.len() as int) {
        if is_last_response(items, i) {
            if i < at {
                assert(!(items[at] is Assistant));
            }
            if at < i {
                assert(!(items[i] is Assistant));
            }
        }
    } else if is_last_response(items, i) {
        assert(!(items[i] is Assistant));
    }
}

/// A response that is at hand in full changes nothing that is told: it streams in, or it is
/// the last response and no part of it streams in.
pub proof fn known_responses_change_nothing(p: panel::PanelView, response: Seq<char>, i: int)
    requires
        p.streaming_text == response || (is_last_response(p.items, i)
            && p.items[i]->Assistant_0 == response && !(p.streaming_text.len() > 0 && begins(
            response,
            p.streaming_text,
        ))),
    ensures
        history::recovered(p, response).items == p.items,
        history::recovered(p, response).streaming_text == p.streaming_text,
        history::recovered(p, response).streaming_reasoning == p.streaming_reasoning,
{
    lemma_begins(response, p.streaming_text);
    lemma_known(p.items, i);
}

/// A response of which the beginning streams in goes on streaming, as far as it is known;
/// the transcript stays as it is.
pub proof fn streaming_responses_are_continued(p: panel::PanelView, response: Seq<char>)
    requires
        p.streaming_text.len() > 0,
        begins(response, p.streaming_text),
    ensures
        history::recovered(p, response).streaming_text == response,
        history::recovered(p, response).items == p.items,
        history::recovered(p, response).streaming_reasoning == p.streaming_reasoning,
{
    lemma_begins(response, p.streaming_text);
}

/// A response of which the beginning is the last that was said is completed at its place;
/// no other item changes.
pub proof fn settled_responses_are_completed(p: panel::PanelView, response: Seq<char>, i: int)
    requires
        is_last_response(p.items, i),
        begins(response, p.items[i]->Assistant_0),
        p.streaming_text != response,
        !(p.streaming_text.len() > 0 && begins(response, p.streaming_text)),
    ensures
        ({
            let q = history::recovered(p, response);
            &&& q.items.len() == p.items.len()
            &&& q.items[i] == transcript::ItemView::Assistant(response)
            &&& forall|k: int| 0 <= k < p.items.len() && k != i ==> #[trigger] q.items[k] == p.items[k]
            &&& q.streaming_text == p.streaming_text
        }),
{
    lemma_begins(response, p.streaming_text);
    lemma_begins(response, p.items[i]->Assistant_0);
    lemma_known(p.items, i);
}

/// A response of which nothing is at hand comes in last, behind all that was said and
/// streamed in; nothing that was said is lost.
pub proof fn missed_responses_come_in_last(p: panel::PanelView, response: Seq<char>)
    requires
        p.streaming_text != response,
        !(p.streaming_text.len() > 0 && begins(response, p.streaming_text)),
        forall|i: int| is_last_response(p.items, i) ==> !begins(response, (#[trigger] p.items[i])->Assistant_0),
    ensures
        ({
            let q = history::recovered(p, response);
            &&& q.items.len() > 0
            &&& q.items.last() == transcript::ItemView::Assistant(response)
            &&& course::has_settled_all(q.items, p, seq![transcript::ItemView::Assistant(response)])
            &&& course::all_still_tell(q.items, p.items)
            &&& q.streaming_text.len() == 0
            &&& q.streaming_reasoning.len() == 0
        }),
{
    lemma_begins(response, p.streaming_text);
    lemma_last_response(p.items, p.items.len() as int);
    if let Some(i) = history::last_response(p.items, p.items.len() as int) {
        assert(is_last_response(p.items, i));
        lemma_begins(response, p.items[i]->Assistant_0);
        if p.items[i]->Assistant_0 == response {
            assert(response.take(response.len() as int) =~= response);
        }
    }
    let q = panel::dirtied(p);
    let rest = seq![transcript::ItemView::Assistant(response)];
    course::lemma_all_flushed(q, rest);
    let said = panel::streaming_flushed(panel::reasoning_flushed(q)).items;
    assert(said.push(transcript::ItemView::Assistant(response)) =~= said + rest);
    course::lemma_settled_tells(q, said + rest, rest);
}

/// Whether a message is the newest response: it says something, it answers the last prompt,
/// and no later message says anything.
pub open spec fn is_newest_response(messages: Seq<HistoryMessage>, i: int) -> bool {
    &&& 0 <= i < messages.len()
    &&& messages[i].role@ == "assistant"@
    &&& !text::all_white(messages[i].content@)
    &&& forall|k: int|
        i < k < messages.len() ==> (#[trigger] messages[k]).role@ != "user"@ && !(
        messages[k].role@ == "assistant"@ && !text::all_white(messages[k].content@))
}

/// The response that is recovered is the newest one to the last prompt; a prompt that was
/// not answered yet has none.
pub proof fn only_the_newest_response_is_recovered(messages: Seq<HistoryMessage>)
    ensures
        match history::newest_response(messages, messages.len() as int) {
            Some(i) => is_newest_response(messages, i),
            None => forall|i: int| !is_newest_response(messages, i),
        },
{
    lemma_newest(messages, messages.len() as int);
    if history::newest_response(messages, messages.len() as int) is None {
        assert forall|i: int| !is_newest_response(messages, i) by {
            if is_newest_response(messages, i) {
                reveal_strlit("user");
                reveal_strlit("assistant");
                assert("user"@.len() == 4 && "assistant"@.len() == 9);
                lemma_found(messages, i, messages.len() as int);
            }
        }
    }
}

proof fn lemma_newest(messages: Seq<HistoryMessage>, n: int)
    requires
        0 <= n <= messages.len(),
    ensures
        history::newest_response(messages, n) matches Some(i) ==> 0 <= i < n && messages[i].role@
            == "assistant"@ && !text::all_white(messages[i].content@) && forall|k: int|
            i < k < n ==> (#[trigger] messages[k]).role@ != "user"@ && !(messages[k].role@
                == "assistant"@ && !text::all_white(messages[k].content@)),
    decreases n,
{
    if n > 0 {
        text::trimming_takes_the_white_ends(messages[n - 1].content@);
        lemma_newest(messages, n - 1);
    }
}

proof fn lemma_found(messages: Seq<HistoryMessage>, i: int, n: int)
    requires
        is_newest_response(messages, i),
        i < n <= messages.len(),
        "assistant"@ != "user"@,
    ensures
        history::newest_response(messages, n) == Some(i),
    decreases n,
{
    text::trimming_takes_the_white_ends(messages[n - 1].content@);
    if i < n - 1 {
        assert(messages[n - 1].role@ != "user"@);
        lemma_found(messages, i, n - 1);
    }
}

/// A history that comes again brings nothing but the newest response: where there is none
/// the panel tells what it told, and a response without figures is recovered as it is.
pub proof fn reloading_recovers_the_newest_response(
    p: panel::PanelView,
    messages: Seq<HistoryMessage>,
    images: Seq<RenderedImage>,
    finish: Option<transcript::StatsView>,
    i: int,
)
    requires
        p.history_loaded,
        !p.contents.side_document,
    ensures
        (forall|k: int| !is_newest_response(messages, k)) ==> {
            let q = history::loaded(p, messages, images, finish);
            q.items == p.items && q.streaming_text == p.streaming_text && q.status == p.status
        },
        is_newest_response(messages, i) && messages[i].response_stats is None ==> same_panel(
            history::loaded(p, messages, images, finish),
            history::recovered(panel::dirtied(p), messages[i].content@),
        ),
{
    only_the_newest_response_is_recovered(messages);
    if is_newest_response(messages, i) {
        lemma_one_newest(messages, i, history::newest_response(messages, messages.len() as int)->0);
    }
}

/// Two panels are one.
pub open spec fn same_panel(p: panel::PanelView, q: panel::PanelView) -> bool {
    p == q
}

proof fn lemma_one_newest(messages: Seq<HistoryMessage>, i: int, j: int)
    requires
        is_newest_response(messages, i),
        is_newest_response(messages, j),
    ensures
        i == j,
{
    if i < j {
        assert(!(messages[j].role@ == "assistant"@ && !text::all_white(messages[j].content@)));
    }
    if j < i {
        assert(!(messages[i].role@ == "assistant"@ && !text::all_white(messages[i].content@)));
    }
}

/// The figures of a recovered response stand last. They take the place of figures that stand
/// there, which keep the number of calls, and their duration where the new ones have none;
/// without any there, figures that show nothing are left out.
pub proof fn recovered_figures_stand_last(p: panel::PanelView, stats: transcript::StatsView)
    ensures
        ({
            let q = history::with_figures(p, stats);
            let n = p.items.len() as int;
            let kept = n > 0 && p.items[n - 1] is ResponseStats;
            &&& kept ==> {
                let before = p.items[n - 1]->ResponseStats_0;
                let after = q.items[n - 1]->ResponseStats_0;
                &&& q.items.len() == n
                &&& q.items.take(n - 1) == p.items.take(n - 1)
                &&& q.items[n - 1] is ResponseStats
                &&& after.summary == stats.summary
                &&& after.empty == stats.empty
                &&& after.tool_calls == before.tool_calls
                &&& stats.duration_secs_bits is Some ==> after.duration_secs_bits
                    == stats.duration_secs_bits
                &&& stats.duration_secs_bits is None ==> after.duration_secs_bits
                    == before.duration_secs_bits
            }
            &&& !kept && stats.empty ==> q.items == p.items
            &&& !kept && !stats.empty ==> q.items == p.items.push(
                transcript::ItemView::ResponseStats(stats),
            )
        }),
{
    let n = p.items.len() as int;
    let q = history::with_figures(p, stats);
    if n > 0 && p.items[n - 1] is ResponseStats {
        assert(q.items.take(n - 1) =~= p.items.take(n - 1));
    }
}

/// Whether an item is a prompt that the history ends with.
pub open spec fn is_echo(item: transcript::ItemView, history: Seq<transcript::ItemView>) -> bool {
    item is User && history.len() > 0 && history[history.len() - 1] == item
}

/// A history that comes for the first time stands before all that is there, and takes nothing
/// out but the echo of the prompt that it ends with. What is noted of prompts moves along
/// with them.
pub proof fn the_first_history_stands_first(
    p: panel::PanelView,
    messages: Seq<HistoryMessage>,
    images: Seq<RenderedImage>,
    finish: Option<transcript::StatsView>,
)
    requires
        !p.history_loaded,
        !p.contents.side_document,
    ensures
        ({
            let q = history::loaded(p, messages, images, finish);
            let told = history::history_items(messages, images);
            let n = told.len() as int;
            &&& q.history_loaded
            &&& q.items.len() >= n
            &&& q.items.take(n) == told
            &&& q.items.skip(n) == p.items.filter(|item: transcript::ItemView| !is_echo(item, told))
            &&& q.pending_users.len() == p.pending_users.len()
            &&& forall|k: int|
                0 <= k < p.pending_users.len() ==> #[trigger] q.pending_users[k]
                    == p.pending_users[k] + n
            &&& q.accepted_users.len() == p.accepted_users.len()
            &&& forall|k: int|
                0 <= k < p.accepted_users.len() ==> #[trigger] q.accepted_users[k] == (
                p.accepted_users[k].0 + n, p.accepted_users[k].1)
            &&& q.streaming_text == p.streaming_text
            &&& q.streaming_reasoning == p.streaming_reasoning
            &&& q.status == p.status
        }),
{
    let q = history::loaded(p, messages, images, finish);
    let told = history::history_items(messages, images);
    let n = told.len() as int;
    lemma_not_repeated(p.items, told);
    assert(q.items.take(n) =~= told);
    assert(q.items.skip(n) =~= history::not_repeated(p.items, told));
}

proof fn lemma_not_repeated(items: Seq<transcript::ItemView>, told: Seq<transcript::ItemView>)
    ensures
        history::not_repeated(items, told) == items.filter(
            |item: transcript::ItemView| !is_echo(item, told),
        ),
    decreases items.len(),
{
    reveal(Seq::filter);
    if items.len() > 0 {
        lemma_not_repeated(items.drop_last(), told);
    }
}

/// The message that a place shows a part of; -1 for an image.
pub open spec fn message_of(place: PlacementView) -> int {
    match place {
        PlacementView::Image(_) => -1,
        PlacementView::User(i) => i,
        PlacementView::Assistant(i) => i,
        PlacementView::Stats(i) => i,
    }
}

/// Whether a message is to be shown at a place.
pub open spec fn is_due(place: PlacementView, messages: Seq<HistoryMessage>) -> bool {
    let i = message_of(place);
    match place {
        PlacementView::Image(_) => true,
        PlacementView::User(_) => 0 <= i < messages.len() && messages[i].role@ == "user"@,
        PlacementView::Assistant(_) => 0 <= i < messages.len() && messages[i].role@ == "assistant"@
            && !text::all_white(messages[i].content@),
        PlacementView::Stats(_) => 0 <= i < messages.len() && messages[i].role@ == "assistant"@
            && messages[i].response_stats is Some && !messages[i].response_stats->0.empty,
    }
}

/// The number of the message before which an image belongs, or of the place behind them all.
pub open spec fn named(image: RenderedImage, count: int) -> int {
    if image.history_message_index->0 < count {
        image.history_message_index->0 as int
    } else {
        count
    }
}

/// Whether one place may stand before another: messages stand in their order, a response
/// before its figures; an image stands before the message that it names, and one of a prompt
/// stands behind that prompt and before the messages that follow it.
pub open spec fn in_order(
    first: PlacementView,
    second: PlacementView,
    messages: Seq<HistoryMessage>,
    images: Seq<RenderedImage>,
) -> bool {
    let i = message_of(first);
    let j = message_of(second);
    let count = messages.len() as int;
    if first is Image && second is Image {
        true
    } else if second is Image {
        let image = images[second->Image_0];
        if image.history_message_index is Some {
            i < named(image, count)
        } else {
            history::prompt_of(image) matches Some(ordinal) ==> history::prompts_below(messages, i)
                <= ordinal
        }
    } else if first is Image {
        let image = images[first->Image_0];
        if image.history_message_index is Some {
            named(image, count) <= j
        } else {
            history::prompt_of(image) matches Some(ordinal) && history::prompts_below(messages, j)
                > ordinal
        }
    } else {
        i < j || (i == j && first is Assistant && second is Stats)
    }
}

spec fn is_laid_out(
    places: Seq<PlacementView>,
    messages: Seq<HistoryMessage>,
    images: Seq<RenderedImage>,
) -> bool {
    &&& forall|a: int| 0 <= a < places.len() ==> is_due(#[trigger] places[a], messages)
    &&& forall|a: int, b: int|
        0 <= a < b < places.len() ==> in_order(
            #[trigger] places[a],
            #[trigger] places[b],
            messages,
            images,
        )
}

proof fn lemma_join(
    a: Seq<PlacementView>,
    b: Seq<PlacementView>,
    messages: Seq<HistoryMessage>,
    images: Seq<RenderedImage>,
)
    requires
        is_laid_out(a, messages, images),
        is_laid_out(b, messages, images),
        forall|i: int, j: int|
            0 <= i < a.len() && 0 <= j < b.len() ==> in_order(
                #[trigger] a[i],
                #[trigger] b[j],
                messages,
                images,
            ),
    ensures
        is_laid_out(a + b, messages, images),
{
    let all = a + b;
    assert forall|i: int| 0 <= i < all.len() implies is_due(#[trigger] all[i], messages) by {
        if i < a.len() {
            assert(all[i] == a[i]);
        } else {
            assert(all[i] == b[i - a.len()]);
        }
    }
    assert forall|i: int, j: int| 0 <= i < j < all.len() implies in_order(
        #[trigger] all[i],
        #[trigger] all[j],
        messages,
        images,
    ) by {
        if j < a.len() {
            assert(all[i] == a[i] && all[j] == a[j]);
        } else if i < a.len() {
            assert(all[i] == a[i] && all[j] == b[j - a.len()]);
        } else {
            assert(all[i] == b[i - a.len()] && all[j] == b[j - a.len()]);
        }
    }
}

proof fn lemma_wanted(
    images: Seq<RenderedImage>,
    wanted: Wanted,
    messages: Seq<HistoryMessage>,
    all: Seq<RenderedImage>,
)
    requires
        images.len() <= all.len(),
        images == all.take(images.len() as int),
    ensures
        forall|a: int|
            0 <= a < history::wanted_images(images, wanted).len() ==> (
            #[trigger] history::wanted_images(images, wanted)[a]) is Image && 0
                <= history::wanted_images(images, wanted)[a]->Image_0 < images.len()
                && history::is_wanted(all[history::wanted_images(images, wanted)[a]->Image_0], wanted),
        is_laid_out(history::wanted_images(images, wanted), messages, all),
    decreases images.len(),
{
    if images.len() > 0 {
        assert(images.drop_last() =~= all.take(images.len() - 1));
        lemma_wanted(images.drop_last(), wanted, messages, all);
        assert(images.last() == all[images.len() - 1]);
    }
}

proof fn lemma_prompts_grow(messages: Seq<HistoryMessage>, i: int, j: int)
    requires
        i <= j,
    ensures
        history::prompts_below(messages, i) <= history::prompts_below(messages, j),
        j >= 0 ==> history::prompts_below(messages, j) <= j,
    decreases j,
{
    if j > 0 {
        if i < j {
            lemma_prompts_grow(messages, i, j - 1);
        } else {
            lemma_prompts_grow(messages, i - 1, j - 1);
        }
    }
}

proof fn lemma_message_places(
    message: HistoryMessage,
    i: int,
    messages: Seq<HistoryMessage>,
    images: Seq<RenderedImage>,
)
    requires
        0 <= i < messages.len(),
        message == messages[i],
    ensures
        is_laid_out(history::message_places(message, i), messages, images),
        forall|a: int|
            0 <= a < history::message_places(message, i).len() ==> !((
            #[trigger] history::message_places(message, i)[a]) is Image) && message_of(
                history::message_places(message, i)[a],
            ) == i,
        message.role@ == "user"@ ==> history::message_places(message, i).contains(
            PlacementView::User(i),
        ),
        message.role@ == "assistant"@ && !text::all_white(message.content@)
            ==> history::message_places(message, i).contains(PlacementView::Assistant(i)),
        message.role@ == "assistant"@ && message.response_stats is Some
            && !message.response_stats->0.empty ==> history::message_places(message, i).contains(
            PlacementView::Stats(i),
        ),
{
    text::trimming_takes_the_white_ends(message.content@);
    reveal_strlit("user");
    reveal_strlit("assistant");
    let places = history::message_places(message, i);
    if places.len() > 0 {
        assert(places.contains(places[0]));
    }
    if places.len() > 1 {
        assert(places.contains(places[1]));
    }
    assert("user"@.len() == 4 && "assistant"@.len() == 9);
}

/// Whether the places are those of the first `n` messages and of the images among them.
spec fn is_bounded(
    places: Seq<PlacementView>,
    messages: Seq<HistoryMessage>,
    images: Seq<RenderedImage>,
    n: int,
) -> bool {
    forall|a: int|
        0 <= a < places.len() ==> {
            let place = #[trigger] places[a];
            &&& !(place is Image) ==> 0 <= message_of(place) < n
            &&& place is Image ==> {
                let image = images[place->Image_0];
                if image.history_message_index is Some {
                    named(image, messages.len() as int) < n
                } else {
                    history::prompt_of(image) matches Some(ordinal) && ordinal
                        < history::prompts_below(messages, n)
                }
            }
        }
}

proof fn lemma_placed(
    messages: Seq<HistoryMessage>,
    images: Seq<RenderedImage>,
    n: int,
)
    requires
        0 <= n <= messages.len() <= usize::MAX,
    ensures
        is_laid_out(history::placed_messages(messages, images, n), messages, images),
        is_bounded(history::placed_messages(messages, images, n), messages, images, n),
    decreases n,
{
    if n > 0 {
        lemma_placed(messages, images, n - 1);
        let m = n - 1;
        let count = messages.len();
        let before = history::placed_messages(messages, images, m);
        let wanted = Wanted::Before(m as usize, count as usize);
        let own = Wanted::Prompt(history::prompts_below(messages, m) as usize);
        let first = history::wanted_images(images, wanted);
        let said = history::message_places(messages[m], m);
        let last = history::prompt_places(messages, images, m);
        assert(images.take(images.len() as int) =~= images);
        lemma_wanted(images, wanted, messages, images);
        lemma_wanted(images, own, messages, images);
        lemma_message_places(messages[m], m, messages, images);
        lemma_prompts_grow(messages, m, n);
        assert forall|i: int, j: int|
            0 <= i < before.len() && 0 <= j < first.len() implies in_order(
            #[trigger] before[i],
            #[trigger] first[j],
            messages,
            images,
        ) by {}
        lemma_join(before, first, messages, images);
        let two = before + first;
        assert forall|i: int, j: int|
            0 <= i < two.len() && 0 <= j < said.len() implies in_order(
            #[trigger] two[i],
            #[trigger] said[j],
            messages,
            images,
        ) by {
            if i < before.len() {
                assert(two[i] == before[i]);
            } else {
                assert(two[i] == first[i - before.len()]);
            }
        }
        lemma_join(two, said, messages, images);
        let three = two + said;
        assert forall|i: int, j: int|
            0 <= i < three.len() && 0 <= j < last.len() implies in_order(
            #[trigger] three[i],
            #[trigger] last[j],
            messages,
            images,
        ) by {
            if i < before.len() {
                assert(three[i] == before[i]);
                if !(before[i] is Image) {
                    lemma_prompts_grow(messages, message_of(before[i]), m);
                }
            } else if i < two.len() {
                assert(three[i] == first[i - before.len()]);
            } else {
                assert(three[i] == said[i - two.len()]);
            }
        }
        lemma_join(three, last, messages, images);
        let all = three + last;
        assert(history::placed_messages(messages, images, n) == all);
        assert forall|a: int| 0 <= a < all.len() implies {
            let place = #[trigger] all[a];
            &&& !(place is Image) ==> 0 <= message_of(place) < n
            &&& place is Image ==> {
                let image = images[place->Image_0];
                if image.history_message_index is Some {
                    named(image, messages.len() as int) < n
                } else {
                    history::prompt_of(image) matches Some(ordinal) && ordinal
                        < history::prompts_below(messages, n)
                }
            }
        } by {
            if a < before.len() {
                assert(all[a] == before[a]);
            } else if a < two.len() {
                assert(all[a] == first[a - before.len()]);
            } else if a < three.len() {
                assert(all[a] == said[a - two.len()]);
            } else {
                assert(all[a] == last[a - three.len()]);
            }
        }
    }
}

proof fn lemma_strays(
    messages: Seq<HistoryMessage>,
    images: Seq<RenderedImage>,
    prompts: nat,
    n: int,
)
    requires
        0 <= n <= images.len(),
    ensures
        is_laid_out(history::stray_images(images, prompts, n), messages, images),
        forall|a: int|
            0 <= a < history::stray_images(images, prompts, n).len() ==> (
            #[trigger] history::stray_images(images, prompts, n)[a]) is Image && history::is_stray(
                images[history::stray_images(images, prompts, n)[a]->Image_0],
                prompts,
            ),
    decreases n,
{
    if n > 0 {
        lemma_strays(messages, images, prompts, n - 1);
        let before = history::stray_images(images, prompts, n - 1);
        if history::is_stray(images[n - 1], prompts) && !history::has_earlier(images, n - 1) {
            let wanted = Wanted::Prompt(history::prompt_of(images[n - 1])->0);
            let more = history::wanted_images(images, wanted);
            assert(images.take(images.len() as int) =~= images);
            lemma_wanted(images, wanted, messages, images);
            lemma_join(before, more, messages, images);
            let all = before + more;
            assert forall|a: int| 0 <= a < all.len() implies (#[trigger] all[a]) is Image
                && history::is_stray(images[all[a]->Image_0], prompts) by {
                if a < before.len() {
                    assert(all[a] == before[a]);
                } else {
                    assert(all[a] == more[a - before.len()]);
                }
            }
        }
    }
}

/// A history is shown in its order: each message once, a response before its figures, and
/// the images among them where they belong. Nothing is shown that is not due.
pub proof fn histories_are_shown_in_order(
    messages: Seq<HistoryMessage>,
    images: Seq<RenderedImage>,
    a: int,
    b: int,
)
    requires
        messages.len() <= usize::MAX,
        0 <= a < b < history::layout(messages, images).len(),
    ensures
        is_due(history::layout(messages, images)[a], messages),
        is_due(history::layout(messages, images)[b], messages),
        in_order(
            history::layout(messages, images)[a],
            history::layout(messages, images)[b],
            messages,
            images,
        ),
{
    lemma_layout(messages, images);
}

proof fn lemma_layout(messages: Seq<HistoryMessage>, images: Seq<RenderedImage>)
    requires
        messages.len() <= usize::MAX,
    ensures
        is_laid_out(history::layout(messages, images), messages, images),
{
    let n = messages.len();
    let prompts = history::prompts_below(messages, n as int);
    let placed = history::placed_messages(messages, images, n as int);
    let named_last = history::wanted_images(images, Wanted::Before(n as usize, n as usize));
    let loose = history::wanted_images(images, Wanted::Loose);
    let strays = history::stray_images(images, prompts, images.len() as int);
    assert(images.take(images.len() as int) =~= images);
    lemma_placed(messages, images, n as int);
    lemma_wanted(images, Wanted::Before(n as usize, n as usize), messages, images);
    lemma_wanted(images, Wanted::Loose, messages, images);
    lemma_strays(messages, images, prompts, images.len() as int);
    lemma_join(placed, named_last, messages, images);
    let two = placed + named_last;
    assert forall|i: int, j: int| 0 <= i < two.len() && 0 <= j < loose.len() implies in_order(
        #[trigger] two[i],
        #[trigger] loose[j],
        messages,
        images,
    ) by {
        if i < placed.len() {
            assert(two[i] == placed[i]);
        } else {
            assert(two[i] == named_last[i - placed.len()]);
        }
    }
    lemma_join(two, loose, messages, images);
    let three = two + loose;
    assert forall|i: int, j: int| 0 <= i < three.len() && 0 <= j < strays.len() implies in_order(
        #[trigger] three[i],
        #[trigger] strays[j],
        messages,
        images,
    ) by {
        if i < placed.len() {
            assert(three[i] == placed[i]);
            if !(placed[i] is Image) {
                lemma_prompts_grow(messages, message_of(placed[i]), n as int);
            }
        } else if i < two.len() {
            assert(three[i] == named_last[i - placed.len()]);
        } else {
            assert(three[i] == loose[i - two.len()]);
        }
    }
    lemma_join(three, strays, messages, images);
}

/// Every prompt of a history is shown, every response that says anything, and the figures of
/// every response that show anything: each as it was written.
pub proof fn every_message_is_shown(
    messages: Seq<HistoryMessage>,
    images: Seq<RenderedImage>,
    i: int,
)
    requires
        0 <= i < messages.len() <= usize::MAX,
    ensures
        messages[i].role@ == "user"@ ==> history::history_items(messages, images).contains(
            transcript::ItemView::User(messages[i].content@),
        ) && history::layout(messages, images).contains(PlacementView::User(i)),
        messages[i].role@ == "assistant"@ && !text::all_white(messages[i].content@)
            ==> history::history_items(messages, images).contains(
            transcript::ItemView::Assistant(messages[i].content@),
        ) && history::layout(messages, images).contains(PlacementView::Assistant(i)),
        messages[i].role@ == "assistant"@ && messages[i].response_stats is Some
            && !messages[i].response_stats->0.empty ==> history::history_items(
            messages,
            images,
        ).contains(transcript::ItemView::ResponseStats(messages[i].response_stats->0@))
            && history::layout(messages, images).contains(PlacementView::Stats(i)),
{
    lemma_message_places(messages[i], i, messages, images);
    let n = messages.len() as int;
    let said = history::message_places(messages[i], i);
    let items = history::history_items(messages, images);
    let places = history::layout(messages, images);
    assert forall|place: PlacementView| said.contains(place) implies places.contains(place)
        && items.contains(history::item_at(place, messages, images)) by {
        lemma_said(messages, images, n, i, place);
        let placed = history::placed_messages(messages, images, n);
        let k = placed.index_of(place);
        assert(places[k] == placed[k]);
        assert(items[k] == history::item_at(place, messages, images));
    }
}

proof fn lemma_said(
    messages: Seq<HistoryMessage>,
    images: Seq<RenderedImage>,
    n: int,
    i: int,
    place: PlacementView,
)
    requires
        0 <= i < n <= messages.len(),
        history::message_places(messages[i], i).contains(place),
    ensures
        history::placed_messages(messages, images, n).contains(place),
    decreases n,
{
    let m = n - 1;
    let before = history::placed_messages(messages, images, m);
    let first = history::wanted_images(images, Wanted::Before(m as usize, messages.len() as usize));
    let said = history::message_places(messages[m], m);
    let all = history::placed_messages(messages, images, n);
    if i == m {
        let k = said.index_of(place);
        assert(all[before.len() + first.len() + k] == place);
    } else {
        lemma_said(messages, images, m, i, place);
        let k = before.index_of(place);
        assert(all[k] == place);
    }
}

} // verus!
