//! A session's history, as it becomes a panel's transcript.
use std::collections::VecDeque;
use vstd::prelude::*;

use crate::events::{copy_text, HistoryMessage, ImageAnchor, ImageSource, RenderedImage, ResponseStats};
use crate::panel;
use crate::panel::Panel;
use crate::text;
use crate::text::{same, starts_with, trimmed};
use crate::transcript;
use crate::transcript::{Item, TranscriptImage};

verus! {

/// One place in a transcript made from history: an image, or part of a message.
#[derive(Debug, PartialEq, Eq)]
pub enum Placement {
    Image(usize),
    User(usize),
    Assistant(usize),
    Stats(usize),
}

#[verifier::ext_equal]
pub enum PlacementView {
    Image(int),
    User(int),
    Assistant(int),
    Stats(int),
}

impl View for Placement {
    type V = PlacementView;

    open spec fn view(&self) -> PlacementView {
        match self {
            Placement::Image(i) => PlacementView::Image(*i as int),
            Placement::User(i) => PlacementView::User(*i as int),
            Placement::Assistant(i) => PlacementView::Assistant(*i as int),
            Placement::Stats(i) => PlacementView::Stats(*i as int),
        }
    }
}

pub open spec fn placement_views(v: Seq<Placement>) -> Seq<PlacementView> {
    v.map_values(|p: Placement| p@)
}

/// Which images are looked for.
#[derive(Clone, Copy, PartialEq, Eq, Debug, Structural)]
pub enum Wanted {
    /// Those that belong before the message of this number, out of so many; one that
    /// names a later message belongs behind the last.
    Before(usize, usize),
    /// Those of the prompt of this number.
    Prompt(usize),
    /// Those that belong to no message and no prompt.
    Loose,
}

/// The number of the prompt that an image is anchored to, where no message is named.
pub open spec fn prompt_of(image: RenderedImage) -> Option<usize> {
    match (image.history_message_index, image.anchor) {
        (None, Some(ImageAnchor::UserPrompt { ordinal })) => Some(ordinal),
        _ => None,
    }
}

pub open spec fn is_wanted(image: RenderedImage, wanted: Wanted) -> bool {
    match wanted {
        Wanted::Before(i, n) => image.history_message_index matches Some(k) && (if k < n {
            k
        } else {
            n
        }) == i,
        Wanted::Prompt(ordinal) => prompt_of(image) == Some(ordinal),
        Wanted::Loose => image.history_message_index is None && prompt_of(image) is None,
    }
}

/// The images looked for, in their order.
pub open spec fn wanted_images(images: Seq<RenderedImage>, wanted: Wanted) -> Seq<PlacementView>
    decreases images.len(),
{
    if images.len() == 0 {
        Seq::empty()
    } else {
        let before = wanted_images(images.drop_last(), wanted);
        if is_wanted(images.last(), wanted) {
            before.push(PlacementView::Image(images.len() - 1))
        } else {
            before
        }
    }
}

/// The number of prompts among the first `n` messages.
pub open spec fn prompts_below(messages: Seq<HistoryMessage>, n: int) -> nat
    decreases n,
{
    if n <= 0 {
        0
    } else {
        prompts_below(messages, n - 1) + if messages[n - 1].role@ == "user"@ {
            1nat
        } else {
            0
        }
    }
}

/// What a message itself shows: a prompt as it is, a response where it says anything,
/// and the figures of a response where there are any.
pub open spec fn message_places(message: HistoryMessage, i: int) -> Seq<PlacementView> {
    if message.role@ == "user"@ {
        seq![PlacementView::User(i)]
    } else if message.role@ == "assistant"@ {
        (if text::trim(message.content@).len() > 0 {
            seq![PlacementView::Assistant(i)]
        } else {
            Seq::empty()
        }) + (if message.response_stats matches Some(stats) && !stats.empty {
            seq![PlacementView::Stats(i)]
        } else {
            Seq::empty()
        })
    } else {
        Seq::empty()
    }
}

/// The images that follow a message: those of its prompt.
pub open spec fn prompt_places(
    messages: Seq<HistoryMessage>,
    images: Seq<RenderedImage>,
    i: int,
) -> Seq<PlacementView> {
    if messages[i].role@ == "user"@ {
        wanted_images(images, Wanted::Prompt(prompts_below(messages, i) as usize))
    } else {
        Seq::empty()
    }
}

/// The places of the first `n` messages and of the images among them.
pub open spec fn placed_messages(
    messages: Seq<HistoryMessage>,
    images: Seq<RenderedImage>,
    n: int,
) -> Seq<PlacementView>
    decreases n,
{
    if n <= 0 {
        Seq::empty()
    } else {
        placed_messages(messages, images, n - 1) + wanted_images(
            images,
            Wanted::Before((n - 1) as usize, messages.len() as usize),
        ) + message_places(messages[n - 1], n - 1) + prompt_places(messages, images, n - 1)
    }
}

/// Whether an image is anchored to a prompt that the history does not hold.
pub open spec fn is_stray(image: RenderedImage, prompts: nat) -> bool {
    prompt_of(image) matches Some(ordinal) && ordinal >= prompts
}

/// Whether an earlier image is anchored to the same prompt.
pub open spec fn has_earlier(images: Seq<RenderedImage>, i: int) -> bool {
    exists|k: int| 0 <= k < i && prompt_of(#[trigger] images[k]) == prompt_of(images[i])
}

/// The images of prompts that the history does not hold, prompt by prompt in the order
/// of their first images.
pub open spec fn stray_images(images: Seq<RenderedImage>, prompts: nat, n: int) -> Seq<PlacementView>
    decreases n,
{
    if n <= 0 {
        Seq::empty()
    } else {
        let before = stray_images(images, prompts, n - 1);
        if is_stray(images[n - 1], prompts) && !has_earlier(images, n - 1) {
            before + wanted_images(images, Wanted::Prompt(prompt_of(images[n - 1])->0))
        } else {
            before
        }
    }
}

/// The transcript that a history makes: its messages with the images among them, then
/// the images that belong behind the last message, those that belong nowhere, and those
/// of prompts that are not there.
pub open spec fn layout(messages: Seq<HistoryMessage>, images: Seq<RenderedImage>) -> Seq<
    PlacementView,
> {
    let n = messages.len();
    placed_messages(messages, images, n as int) + wanted_images(
        images,
        Wanted::Before(n as usize, n as usize),
    ) + wanted_images(images, Wanted::Loose) + stray_images(
        images,
        prompts_below(messages, n as int),
        images.len() as int,
    )
}

/// The item at a place.
pub open spec fn item_at(
    place: PlacementView,
    messages: Seq<HistoryMessage>,
    images: Seq<RenderedImage>,
) -> transcript::ItemView {
    match place {
        PlacementView::Image(i) => transcript::ItemView::Image(transcript::image_of(images[i])),
        PlacementView::User(i) => transcript::ItemView::User(messages[i].content@),
        PlacementView::Assistant(i) => transcript::ItemView::Assistant(messages[i].content@),
        PlacementView::Stats(i) => transcript::ItemView::ResponseStats(
            messages[i].response_stats->0@,
        ),
    }
}

pub open spec fn history_items(messages: Seq<HistoryMessage>, images: Seq<RenderedImage>) -> Seq<
    transcript::ItemView,
> {
    layout(messages, images).map_values(|p: PlacementView| item_at(p, messages, images))
}

/// Whether a place is one of the given messages and images, and holds what it says.
pub open spec fn is_sound(
    place: PlacementView,
    messages: Seq<HistoryMessage>,
    images: Seq<RenderedImage>,
) -> bool {
    match place {
        PlacementView::Image(i) => 0 <= i < images.len(),
        PlacementView::User(i) => 0 <= i < messages.len(),
        PlacementView::Assistant(i) => 0 <= i < messages.len(),
        PlacementView::Stats(i) => 0 <= i < messages.len() && messages[i].response_stats is Some,
    }
}

pub open spec fn all_sound(
    places: Seq<PlacementView>,
    messages: Seq<HistoryMessage>,
    images: Seq<RenderedImage>,
) -> bool {
    forall|k: int| 0 <= k < places.len() ==> is_sound(#[trigger] places[k], messages, images)
}

fn wants(image: &RenderedImage, wanted: Wanted) -> (r: bool)
    ensures
        r == is_wanted(*image, wanted),
{
    let prompt: Option<usize> = match (image.history_message_index, &image.anchor) {
        (None, Some(ImageAnchor::UserPrompt { ordinal })) => Some(*ordinal),
        _ => None,
    };
    match wanted {
        Wanted::Before(i, n) => match image.history_message_index {
            Some(k) => (if k < n {
                k
            } else {
                n
            }) == i,
            None => false,
        },
        Wanted::Prompt(ordinal) => match prompt {
            Some(own) => own == ordinal,
            None => false,
        },
        Wanted::Loose => image.history_message_index.is_none() && prompt.is_none(),
    }
}

fn push_wanted(
    places: &mut Vec<Placement>,
    messages: Ghost<Seq<HistoryMessage>>,
    images: &Vec<RenderedImage>,
    wanted: Wanted,
)
    requires
        all_sound(placement_views(old(places)@), messages@, images@),
    ensures
        placement_views(final(places)@) == placement_views(old(places)@) + wanted_images(
            images@,
            wanted,
        ),
        all_sound(placement_views(final(places)@), messages@, images@),
{
    let ghost before = placement_views(places@);
    let mut i: usize = 0;
    assert(before + wanted_images(images@.take(0), wanted) =~= before);
    while i < images.len()
        invariant
            0 <= i <= images@.len(),
            placement_views(places@) == before + wanted_images(images@.take(i as int), wanted),
            all_sound(placement_views(places@), messages@, images@),
        decreases images@.len() - i,
    {
        assert(images@.take(i + 1).drop_last() == images@.take(i as int));
        let ghost now = placement_views(places@);
        if wants(&images[i], wanted) {
            places.push(Placement::Image(i));
            assert(placement_views(places@) =~= now.push(PlacementView::Image(i as int)));
            assert(placement_views(places@) =~= before + wanted_images(
                images@.take(i + 1),
                wanted,
            ));
        }
        i += 1;
    }
    assert(images@.take(i as int) == images@);
}

fn push_place(
    places: &mut Vec<Placement>,
    place: Placement,
    messages: Ghost<Seq<HistoryMessage>>,
    images: Ghost<Seq<RenderedImage>>,
)
    requires
        all_sound(placement_views(old(places)@), messages@, images@),
        is_sound(place@, messages@, images@),
    ensures
        placement_views(final(places)@) == placement_views(old(places)@) + seq![place@],
        all_sound(placement_views(final(places)@), messages@, images@),
{
    let ghost before = placement_views(places@);
    let ghost added = place@;
    places.push(place);
    assert(placement_views(places@) =~= before + seq![added]);
}

fn push_stray(
    places: &mut Vec<Placement>,
    messages: Ghost<Seq<HistoryMessage>>,
    images: &Vec<RenderedImage>,
    prompts: usize,
)
    requires
        all_sound(placement_views(old(places)@), messages@, images@),
    ensures
        placement_views(final(places)@) == placement_views(old(places)@) + stray_images(
            images@,
            prompts as nat,
            images@.len() as int,
        ),
        all_sound(placement_views(final(places)@), messages@, images@),
{
    let ghost before = placement_views(places@);
    let mut i: usize = 0;
    assert(before + stray_images(images@, prompts as nat, 0) =~= before);
    while i < images.len()
        invariant
            0 <= i <= images@.len(),
            placement_views(places@) == before + stray_images(
                images@,
                prompts as nat,
                i as int,
            ),
            all_sound(placement_views(places@), messages@, images@),
        decreases images@.len() - i,
    {
        let own: Option<usize> = match (images[i].history_message_index, &images[i].anchor) {
            (None, Some(ImageAnchor::UserPrompt { ordinal })) => Some(*ordinal),
            _ => None,
        };
        let ghost strays = stray_images(images@, prompts as nat, i as int);
        if let Some(ordinal) = own {
            if ordinal >= prompts {
                let mut earlier = false;
                let mut k: usize = 0;
                while k < i
                    invariant
                        0 <= k <= i < images@.len(),
                        own == Some(ordinal),
                        prompt_of(images@[i as int]) == own,
                        earlier == exists|m: int|
                            0 <= m < k && prompt_of(#[trigger] images@[m]) == prompt_of(
                                images@[i as int],
                            ),
                    decreases i - k,
                {
                    if wants(&images[k], Wanted::Prompt(ordinal)) {
                        assert(prompt_of(images@[k as int]) == prompt_of(images@[i as int]));
                        earlier = true;
                    }
                    k += 1;
                }
                if !earlier {
                    push_wanted(places, messages, images, Wanted::Prompt(ordinal));
                    assert(before + strays + wanted_images(images@, Wanted::Prompt(ordinal))
                        =~= before + (strays + wanted_images(images@, Wanted::Prompt(ordinal))));
                }
            }
        }
        i += 1;
    }
}

/// The transcript that a history makes.
pub fn layout_of(messages: &Vec<HistoryMessage>, images: &Vec<RenderedImage>) -> (r: Vec<Placement>)
    ensures
        placement_views(r@) == layout(messages@, images@),
        all_sound(layout(messages@, images@), messages@, images@),
{
    let n: usize = messages.len();
    let mut places: Vec<Placement> = Vec::new();
    let mut prompts: usize = 0;
    let mut i: usize = 0;
    assert(placement_views(places@) =~= Seq::empty());
    while i < n
        invariant
            0 <= i <= n,
            n == messages@.len(),
            prompts == prompts_below(messages@, i as int),
            prompts <= i,
            placement_views(places@) == placed_messages(messages@, images@, i as int),
            all_sound(placement_views(places@), messages@, images@),
        decreases n - i,
    {
        let message = &messages[i];
        push_wanted(&mut places, Ghost(messages@), images, Wanted::Before(i, n));
        let ghost so_far = placement_views(places@);
        if same(message.role.as_str(), "user") {
            push_place(&mut places, Placement::User(i), Ghost(messages@), Ghost(images@));
            push_wanted(&mut places, Ghost(messages@), images, Wanted::Prompt(prompts));
            prompts += 1;
        } else if same(message.role.as_str(), "assistant") {
            if !trimmed(message.content.as_str()).as_str().is_empty() {
                push_place(&mut places, Placement::Assistant(i), Ghost(messages@), Ghost(images@));
            }
            let has_stats = match &message.response_stats {
                Some(stats) => !stats.empty,
                None => false,
            };
            if has_stats {
                push_place(&mut places, Placement::Stats(i), Ghost(messages@), Ghost(images@));
            }
        }
        assert(placement_views(places@) =~= so_far + message_places(*message, i as int)
            + prompt_places(messages@, images@, i as int));
        i += 1;
    }
    push_wanted(&mut places, Ghost(messages@), images, Wanted::Before(n, n));
    push_wanted(&mut places, Ghost(messages@), images, Wanted::Loose);
    push_stray(&mut places, Ghost(messages@), images, prompts);
    places
}

fn copy_image(image: &RenderedImage) -> (r: RenderedImage)
    ensures
        r == *image,
{
    RenderedImage {
        media_type: image.media_type.clone(),
        data: image.data.clone(),
        label: copy_text(&image.label),
        source: match &image.source {
            ImageSource::UserInput => ImageSource::UserInput,
            ImageSource::ToolResult { tool_name } => ImageSource::ToolResult {
                tool_name: tool_name.clone(),
            },
            ImageSource::Other { role } => ImageSource::Other { role: role.clone() },
        },
        anchor: match &image.anchor {
            Some(ImageAnchor::UserPrompt { ordinal }) => Some(
                ImageAnchor::UserPrompt { ordinal: *ordinal },
            ),
            Some(ImageAnchor::ToolCall { id }) => Some(ImageAnchor::ToolCall { id: id.clone() }),
            None => None,
        },
        history_message_index: image.history_message_index,
        displayable: image.displayable,
    }
}

fn copy_stats(stats: &ResponseStats) -> (r: ResponseStats)
    ensures
        r == *stats,
{
    ResponseStats {
        duration_secs_bits: stats.duration_secs_bits,
        tool_calls: stats.tool_calls,
        summary: stats.summary.clone(),
        empty: stats.empty,
    }
}

/// The items that a history makes.
pub fn items_of(messages: &Vec<HistoryMessage>, images: &Vec<RenderedImage>) -> (r: Vec<Item>)
    ensures
        transcript::item_views(r@) == history_items(messages@, images@),
{
    let places = layout_of(messages, images);
    let ghost all = layout(messages@, images@);
    let mut r: Vec<Item> = Vec::new();
    let mut i: usize = 0;
    while i < places.len()
        invariant
            0 <= i <= places@.len(),
            all == layout(messages@, images@),
            placement_views(places@) == all,
            all_sound(all, messages@, images@),
            r@.len() == i,
            forall|k: int| 0 <= k < i ==> (#[trigger] r@[k])@ == item_at(all[k], messages@, images@),
        decreases places@.len() - i,
    {
        assert(all[i as int] == places@[i as int]@);
        assert(is_sound(all[i as int], messages@, images@));
        let item = match &places[i] {
            Placement::Image(k) => Item::Image(
                TranscriptImage::from_rendered(copy_image(&images[*k])),
            ),
            Placement::User(k) => Item::User(messages[*k].content.clone()),
            Placement::Assistant(k) => Item::Assistant(messages[*k].content.clone()),
            Placement::Stats(k) => match &messages[*k].response_stats {
                Some(stats) => Item::ResponseStats(copy_stats(stats)),
                None => Item::User(String::new()),
            },
        };
        r.push(item);
        i += 1;
    }
    assert(transcript::item_views(r@) =~= history_items(messages@, images@));
    r
}

/// The items without the prompts that repeat the last item of the history.
pub open spec fn not_repeated(
    items: Seq<transcript::ItemView>,
    history: Seq<transcript::ItemView>,
) -> Seq<transcript::ItemView>
    decreases items.len(),
{
    if items.len() == 0 {
        items
    } else {
        let before = not_repeated(items.drop_last(), history);
        if items.last() is User && history.len() > 0 && history.last() == items.last() {
            before
        } else {
            before.push(items.last())
        }
    }
}

/// The panel with its history in front of what was there before it came.
pub open spec fn first_loaded(
    p: panel::PanelView,
    messages: Seq<HistoryMessage>,
    images: Seq<RenderedImage>,
) -> panel::PanelView {
    let history = history_items(messages, images);
    let n = history.len() as int;
    panel::PanelView {
        history_loaded: true,
        startup_layout: if messages.len() > 0 && p.pending_users.len() == 0 && p.startup_layout
            == Some(false) {
            None
        } else {
            p.startup_layout
        },
        items: history + not_repeated(p.items, history),
        pending_users: p.pending_users.map_values(|i: int| i + n),
        accepted_users: p.accepted_users.map_values(|e: (int, u64)| (e.0 + n, e.1)),
        image_pane_selected: None,
        ..panel::dirtied(p)
    }
}

/// The newest response below `n` to the last prompt, where it says anything.
pub open spec fn newest_response(messages: Seq<HistoryMessage>, n: int) -> Option<int>
    decreases n,
{
    if n <= 0 {
        None
    } else if messages[n - 1].role@ == "user"@ {
        None
    } else if messages[n - 1].role@ == "assistant"@ && text::trim(messages[n - 1].content@).len()
        > 0 {
        Some(n - 1)
    } else {
        newest_response(messages, n - 1)
    }
}

/// The last response below `n` among the items.
pub open spec fn last_response(items: Seq<transcript::ItemView>, n: int) -> Option<int>
    decreases n,
{
    if n <= 0 || n > items.len() {
        None
    } else if items[n - 1] is Assistant {
        Some(n - 1)
    } else {
        last_response(items, n - 1)
    }
}

/// The panel with a response that was missed: the part at hand is completed, and a
/// response of which no part is at hand is added.
pub open spec fn recovered(p: panel::PanelView, response: Seq<char>) -> panel::PanelView {
    let q = panel::dirtied(p);
    let known = last_response(q.items, q.items.len() as int);
    let added = panel::pushed(
        panel::streaming_flushed(panel::reasoning_flushed(q)),
        transcript::ItemView::Assistant(response),
    );
    if q.streaming_text == response {
        q
    } else if q.streaming_text.len() > 0 && text::starts(response, q.streaming_text) {
        panel::PanelView { streaming_text: response, ..q }
    } else if known is Some {
        let at = known->0;
        let text = q.items[at]->Assistant_0;
        if text == response {
            q
        } else if text::starts(response, text) {
            panel::PanelView {
                items: q.items.update(at, transcript::ItemView::Assistant(response)),
                ..q
            }
        } else {
            added
        }
    } else {
        added
    }
}

/// The panel with the figures of a recovered response: they replace those that were kept
/// here, but for what only this panel knows.
pub open spec fn with_figures(p: panel::PanelView, stats: transcript::StatsView) -> panel::PanelView {
    if p.items.len() > 0 && p.items.last() is ResponseStats {
        let existing = p.items.last()->ResponseStats_0;
        panel::PanelView {
            items: p.items.update(
                p.items.len() - 1,
                transcript::ItemView::ResponseStats(
                    transcript::StatsView {
                        duration_secs_bits: match stats.duration_secs_bits {
                            Some(bits) => Some(bits),
                            None => existing.duration_secs_bits,
                        },
                        tool_calls: existing.tool_calls,
                        ..stats
                    },
                ),
            ),
            ..p
        }
    } else if !stats.empty {
        panel::pushed(p, transcript::ItemView::ResponseStats(stats))
    } else {
        p
    }
}

/// The panel after its session's history came again: the response to the last prompt is
/// completed from it.
pub open spec fn reloaded(
    p: panel::PanelView,
    messages: Seq<HistoryMessage>,
    finish: Option<transcript::StatsView>,
) -> panel::PanelView {
    let q = panel::dirtied(p);
    match newest_response(messages, messages.len() as int) {
        Some(i) => {
            let done = recovered(q, messages[i].content@);
            match messages[i].response_stats {
                Some(stats) => with_figures(panel::finished(done, finish), stats@),
                None => done,
            }
        },
        None => q,
    }
}

/// The panel after its session's history came.
pub open spec fn loaded(
    p: panel::PanelView,
    messages: Seq<HistoryMessage>,
    images: Seq<RenderedImage>,
    finish: Option<transcript::StatsView>,
) -> panel::PanelView {
    if p.contents.side_document {
        p
    } else if p.history_loaded {
        reloaded(p, messages, finish)
    } else {
        first_loaded(p, messages, images)
    }
}

fn newest_of(messages: &Vec<HistoryMessage>) -> (r: Option<usize>)
    ensures
        match r {
            Some(i) => newest_response(messages@, messages@.len() as int) == Some(i as int) && i
                < messages@.len(),
            None => newest_response(messages@, messages@.len() as int) is None,
        },
{
    let mut n: usize = messages.len();
    while n > 0
        invariant
            n <= messages@.len(),
            newest_response(messages@, messages@.len() as int) == newest_response(
                messages@,
                n as int,
            ),
        decreases n,
    {
        let message = &messages[n - 1];
        if same(message.role.as_str(), "user") {
            return None;
        }
        if same(message.role.as_str(), "assistant") && !trimmed(
            message.content.as_str(),
        ).as_str().is_empty() {
            return Some(n - 1);
        }
        n -= 1;
    }
    None
}

impl Panel {
    /// The last response among the items.
    fn known_response(&self) -> (r: Option<usize>)
        ensures
            match r {
                Some(i) => last_response(self@.items, self@.items.len() as int) == Some(i as int)
                    && i < self.items@.len() && self.items@[i as int] is Assistant,
                None => last_response(self@.items, self@.items.len() as int) is None,
            },
    {
        let ghost items = self@.items;
        let mut n: usize = self.items.len();
        while n > 0
            invariant
                n <= self.items@.len(),
                items == transcript::item_views(self.items@),
                items == self@.items,
                last_response(items, items.len() as int) == last_response(items, n as int),
            decreases n,
        {
            assert(items[n - 1] == self.items@[n - 1]@);
            if let Item::Assistant(_) = &self.items[n - 1] {
                return Some(n - 1);
            }
            n -= 1;
        }
        None
    }

    fn stream_instead(&mut self, response: &str)
        ensures
            final(self)@ == (panel::PanelView { streaming_text: response@, ..old(self)@ }),
    {
        self.streaming_text = response.to_owned();
    }

    fn respond_instead(&mut self, i: usize, response: &str)
        requires
            i < old(self)@.items.len(),
        ensures
            final(self)@ == (panel::PanelView {
                items: old(self)@.items.update(
                    i as int,
                    transcript::ItemView::Assistant(response@),
                ),
                ..old(self)@
            }),
    {
        let ghost p = self@;
        self.items[i] = Item::Assistant(response.to_owned());
        assert(self@.items =~= p.items.update(
            i as int,
            transcript::ItemView::Assistant(response@),
        ));
    }

    fn remeasure(&mut self)
        ensures
            final(self)@ == panel::dirtied(old(self)@),
    {
        self.measurements.dirty = true;
    }

    /// Completes a response from the history.
    pub fn recover_response(&mut self, response: &str)
        ensures
            final(self)@ == recovered(old(self)@, response@),
    {
        self.remeasure();
        let ghost q = self@;
        if same(self.streaming_text.as_str(), response) {
            return;
        }
        if !self.streaming_text.as_str().is_empty() && starts_with(
            response,
            self.streaming_text.as_str(),
        ) {
            self.stream_instead(response);
            return;
        }
        if let Some(i) = self.known_response() {
            assert(q.items[i as int] == self.items@[i as int]@);
            if let Item::Assistant(text) = &self.items[i] {
                if same(text.as_str(), response) {
                    return;
                }
                if starts_with(response, text.as_str()) {
                    self.respond_instead(i, response);
                    return;
                }
            }
        }
        self.flush_reasoning();
        self.flush_streaming();
        self.push_item(Item::Assistant(response.to_owned()));
    }

    fn restore_figures(&mut self, stats: &ResponseStats)
        ensures
            final(self)@ == with_figures(old(self)@, stats@),
    {
        let ghost p = self@;
        let n: usize = self.items.len();
        if n > 0 {
            assert(p.items.last() == self.items@[n - 1]@);
            if let Item::ResponseStats(existing) = &self.items[n - 1] {
                let restored = ResponseStats {
                    duration_secs_bits: match stats.duration_secs_bits {
                        Some(bits) => Some(bits),
                        None => existing.duration_secs_bits,
                    },
                    tool_calls: existing.tool_calls,
                    summary: stats.summary.clone(),
                    empty: stats.empty,
                };
                self.items[n - 1] = Item::ResponseStats(restored);
                assert(self@.items =~= with_figures(p, stats@).items);
                assert(self@ =~= with_figures(p, stats@));
                return;
            }
        }
        if !stats.empty {
            self.push_item(Item::ResponseStats(copy_stats(stats)));
        }
    }

    fn reload_history(&mut self, messages: &Vec<HistoryMessage>, finish: Option<ResponseStats>)
        ensures
            final(self)@ == reloaded(old(self)@, messages@, panel::stats_option(finish)),
    {
        self.measurements.dirty = true;
        assert(self@ =~= panel::dirtied(old(self)@));
        if let Some(i) = newest_of(messages) {
            self.recover_response(messages[i].content.as_str());
            if let Some(stats) = &messages[i].response_stats {
                self.finish_response(finish);
                self.restore_figures(stats);
            }
        }
    }

    fn move_notes(&mut self, n: usize)
        requires
            panel::has_room(old(self)@, n as int),
        ensures
            final(self)@ == (panel::PanelView {
                pending_users: old(self)@.pending_users.map_values(|i: int| i + n),
                accepted_users: old(self)@.accepted_users.map_values(
                    |e: (int, u64)| (e.0 + n, e.1),
                ),
                ..old(self)@
            }),
            final(self).items == old(self).items,
    {
        let ghost p = self@;
        let mut moved: VecDeque<usize> = VecDeque::new();
        let mut i: usize = 0;
        while i < self.pending_users.len()
            invariant
                0 <= i <= self.pending_users@.len(),
                p == self@,
                panel::has_room(p, n as int),
                moved@.len() == i,
                forall|k: int| 0 <= k < i ==> #[trigger] moved@[k] == self.pending_users@[k] + n,
            decreases self.pending_users@.len() - i,
        {
            assert(p.pending_users[i as int] == self.pending_users@[i as int]);
            moved.push_back(self.pending_users[i] + n);
            i += 1;
        }
        let mut times: Vec<(usize, u64)> = Vec::new();
        let mut j: usize = 0;
        while j < self.accepted_users.len()
            invariant
                0 <= j <= self.accepted_users@.len(),
                p == self@,
                panel::has_room(p, n as int),
                times@.len() == j,
                forall|k: int| 0 <= k < j ==> (#[trigger] times@[k]).0 == self.accepted_users@[k].0
                    + n && times@[k].1 == self.accepted_users@[k].1,
            decreases self.accepted_users@.len() - j,
        {
            let entry = self.accepted_users[j];
            assert(p.accepted_users[j as int].0 == entry.0);
            times.push((entry.0 + n, entry.1));
            j += 1;
        }
        self.pending_users = moved;
        self.accepted_users = times;
        assert(self@.pending_users =~= p.pending_users.map_values(|i: int| i + n));
        assert(self@.accepted_users =~= p.accepted_users.map_values(
            |e: (int, u64)| (e.0 + n, e.1),
        ));
    }

    fn mark_loaded(&mut self, any: bool)
        ensures
            final(self)@ == (panel::PanelView {
                history_loaded: true,
                startup_layout: if any && old(self)@.pending_users.len() == 0 && old(self)@.startup_layout == Some(false) {
                    None
                } else {
                    old(self)@.startup_layout
                },
                ..panel::dirtied(old(self)@)
            }),
    {
        let ghost p = self@;
        assert(p.pending_users.len() == self.pending_users@.len());
        self.measurements.dirty = true;
        self.history_loaded = true;
        if any && self.pending_users.len() == 0 {
            if let Some(false) = self.startup_layout {
                self.startup_layout = None;
            }
        }
    }

    fn put_in_front(&mut self, history: Vec<Item>)
        ensures
            final(self)@ == (panel::PanelView {
                items: transcript::item_views(history@) + not_repeated(
                    old(self)@.items,
                    transcript::item_views(history@),
                ),
                image_pane_selected: None,
                ..old(self)@
            }),
    {
        let ghost h = transcript::item_views(history@);
        let mut existing: Vec<Item> = Vec::new();
        std::mem::swap(&mut existing, &mut self.items);
        let mut queue = items_queue(existing);
        let mut kept = without_repeats(&mut queue, &history);
        let mut all = history;
        let ghost first = all@;
        let ghost second = kept@;
        all.append(&mut kept);
        assert(transcript::item_views(all@) =~= transcript::item_views(first)
            + transcript::item_views(second));
        self.items = all;
        self.image_pane_selected = None;
    }

    fn first_load(&mut self, messages: &Vec<HistoryMessage>, images: &Vec<RenderedImage>)
        requires
            panel::has_room(old(self)@, layout(messages@, images@).len() as int),
        ensures
            final(self)@ == first_loaded(old(self)@, messages@, images@),
    {
        let history = items_of(messages, images);
        assert(history_items(messages@, images@).len() == history@.len());
        assert(layout(messages@, images@).len() == history@.len());
        self.mark_loaded(messages.len() > 0);
        self.move_notes(history.len());
        self.put_in_front(history);
    }

    /// Takes in the session's history. The first time it goes in front of what is there;
    /// later it completes the response to the last prompt. `finish` gives the figures
    /// of a response that ends with it.
    pub fn load_history(
        &mut self,
        messages: &Vec<HistoryMessage>,
        images: &Vec<RenderedImage>,
        finish: Option<ResponseStats>,
    )
        requires
            !old(self).contents.side_document && !old(self).history_loaded ==> panel::has_room(
                old(self)@,
                layout(messages@, images@).len() as int,
            ),
        ensures
            final(self)@ == loaded(
                old(self)@,
                messages@,
                images@,
                panel::stats_option(finish),
            ),
    {
        if self.contents.side_document {
            return;
        }
        if self.history_loaded {
            self.reload_history(messages, finish);
        } else {
            self.first_load(messages, images);
        }
    }
}

fn items_queue(items: Vec<Item>) -> (r: VecDeque<Item>)
    ensures
        r@ == items@,
{
    let mut items = items;
    let ghost all = items@;
    let mut r: VecDeque<Item> = VecDeque::new();
    while items.len() > 0
        invariant
            items@.len() + r@.len() == all.len(),
            items@ == all.take(items@.len() as int),
            r@ == all.skip(items@.len() as int),
        decreases items@.len(),
    {
        let ghost n = items@.len() as int;
        let ghost before = r@;
        match items.pop() {
            Some(item) => {
                r.push_front(item);
                assert(r@ =~= seq![all[n - 1]] + before);
                assert(r@ =~= all.skip(n - 1));
                assert(items@ =~= all.take(n - 1));
            },
            None => {},
        }
    }
    assert(r@ =~= all);
    r
}

fn without_repeats(items: &mut VecDeque<Item>, history: &Vec<Item>) -> (r: Vec<Item>)
    ensures
        transcript::item_views(r@) == not_repeated(
            transcript::item_views(old(items)@),
            transcript::item_views(history@),
        ),
{
    let ghost all = items@;
    let ghost views = transcript::item_views(all);
    let ghost h = transcript::item_views(history@);
    let ghost mut seen: int = 0;
    let mut r: Vec<Item> = Vec::new();
    assert(all.skip(0) == all);
    assert(transcript::item_views(r@) =~= not_repeated(views.take(0), h));
    assert(history@.len() > 0 ==> h.last() == history@.last()@);
    while items.len() > 0
        invariant
            0 <= seen <= all.len(),
            items@ == all.skip(seen),
            views == transcript::item_views(all),
            h == transcript::item_views(history@),
            history@.len() > 0 ==> h.last() == history@.last()@,
            transcript::item_views(r@) == not_repeated(views.take(seen), h),
        decreases items@.len(),
    {
        assert(items@[0] == all[seen]);
        assert(items@.drop_first() == all.skip(seen + 1));
        assert(views.take(seen + 1).drop_last() == views.take(seen));
        assert(views.take(seen + 1).last() == all[seen]@);
        let ghost before = transcript::item_views(r@);
        match items.pop_front() {
            Some(item) => {
                let repeats = match (&item, history.last()) {
                    (Item::User(text), Some(Item::User(last))) => same(
                        last.as_str(),
                        text.as_str(),
                    ),
                    _ => false,
                };
                if !repeats {
                    let ghost added = item@;
                    r.push(item);
                    assert(transcript::item_views(r@) =~= before.push(added));
                }
                proof {
                    seen = seen + 1;
                }
            },
            None => {},
        }
    }
    assert(views.take(seen) == views);
    r
}

proof fn lemma_last_response(items: Seq<transcript::ItemView>, n: int)
    requires
        0 <= n <= items.len(),
    ensures
        last_response(items, n) matches Some(at) ==> 0 <= at < n && items[at] is Assistant,
    decreases n,
{
    if n > 0 && !(items[n - 1] is Assistant) {
        lemma_last_response(items, n - 1);
    }
}

proof fn lemma_response_stays_last(items: Seq<transcript::ItemView>, n: int, response: Seq<char>)
    requires
        0 <= n <= items.len(),
        last_response(items, n) is Some,
    ensures
        last_response(
            items.update(
                last_response(items, n)->0,
                transcript::ItemView::Assistant(response),
            ),
            n,
        ) == last_response(items, n),
    decreases n,
{
    lemma_last_response(items, n);
    if n > 0 && !(items[n - 1] is Assistant) {
        lemma_response_stays_last(items, n - 1, response);
    }
}

/// Whether a response is at hand in full.
spec fn is_at_hand(p: panel::PanelView, response: Seq<char>) -> bool {
    ||| p.streaming_text == response
    ||| {
        &&& !(p.streaming_text.len() > 0 && text::starts(response, p.streaming_text))
        &&& last_response(p.items, p.items.len() as int) matches Some(at)
            && p.items[at] == transcript::ItemView::Assistant(response)
    }
}

proof fn lemma_at_hand(p: panel::PanelView, response: Seq<char>)
    requires
        p.measurements.dirty,
        is_at_hand(p, response),
    ensures
        recovered(p, response) == p,
{
    assert(panel::dirtied(p) == p);
}

proof fn lemma_recovered_is_at_hand(p: panel::PanelView, response: Seq<char>)
    ensures
        recovered(p, response).measurements.dirty,
        is_at_hand(recovered(p, response), response),
{
    let items = p.items;
    let n = items.len() as int;
    lemma_last_response(items, n);
    if p.streaming_text == response || (p.streaming_text.len() > 0 && text::starts(
        response,
        p.streaming_text,
    )) {
        assert(recovered(p, response).streaming_text == response);
    } else if let Some(at) = last_response(items, n) {
        let text = items[at]->Assistant_0;
        if text == response {
            assert(recovered(p, response).items == items);
        } else if text::starts(response, text) {
            lemma_response_stays_last(items, n, response);
            let changed = items.update(at, transcript::ItemView::Assistant(response));
            assert(recovered(p, response).items == changed);
            assert(recovered(p, response).streaming_text == p.streaming_text);
        }
    }
}

/// A response is recovered once: that it is reported again adds nothing.
pub proof fn recovered_twice_is_recovered_once(p: panel::PanelView, response: Seq<char>)
    ensures
        recovered(recovered(p, response), response) == recovered(p, response),
{
    lemma_recovered_is_at_hand(p, response);
    lemma_at_hand(recovered(p, response), response);
}

/// How often an image stands among the places.
pub open spec fn times_placed(places: Seq<PlacementView>, image: int) -> nat
    decreases places.len(),
{
    if places.len() == 0 {
        0
    } else {
        times_placed(places.drop_last(), image) + if places.last() == PlacementView::Image(image) {
            1nat
        } else {
            0
        }
    }
}

proof fn lemma_times_add(a: Seq<PlacementView>, b: Seq<PlacementView>, image: int)
    ensures
        times_placed(a + b, image) == times_placed(a, image) + times_placed(b, image),
    decreases b.len(),
{
    if b.len() == 0 {
        assert(a + b =~= a);
    } else {
        lemma_times_add(a, b.drop_last(), image);
        assert((a + b).drop_last() =~= a + b.drop_last());
    }
}

proof fn lemma_times_wanted(images: Seq<RenderedImage>, wanted: Wanted, image: int)
    ensures
        times_placed(wanted_images(images, wanted), image) == if 0 <= image < images.len()
            && is_wanted(images[image], wanted) {
            1nat
        } else {
            0
        },
    decreases images.len(),
{
    if images.len() > 0 {
        let first = images.drop_last();
        lemma_times_wanted(first, wanted, image);
        if is_wanted(images.last(), wanted) {
            let before = wanted_images(first, wanted);
            assert(wanted_images(images, wanted).drop_last() =~= before);
        }
    }
}

proof fn lemma_times_message(message: HistoryMessage, i: int, image: int)
    ensures
        times_placed(message_places(message, i), image) == 0,
{
    let places = message_places(message, i);
    reveal_with_fuel(times_placed, 3);
    assert(places.len() <= 2);
    assert forall|k: int| 0 <= k < places.len() implies !(#[trigger] places[k] is Image) by {}
    if places.len() == 2 {
        assert(places.drop_last().last() == places[0]);
    }
}

proof fn lemma_prompts(messages: Seq<HistoryMessage>, n: int)
    requires
        0 <= n <= messages.len(),
    ensures
        prompts_below(messages, n) <= n,
    decreases n,
{
    if n > 0 {
        lemma_prompts(messages, n - 1);
    }
}

/// Where an image goes that names a message, or the place behind them all.
spec fn named_place(image: RenderedImage, count: int) -> int {
    let k = image.history_message_index->0 as int;
    if k < count {
        k
    } else {
        count
    }
}

proof fn lemma_times_messages(
    messages: Seq<HistoryMessage>,
    images: Seq<RenderedImage>,
    n: int,
    image: int,
)
    requires
        0 <= n <= messages.len() <= usize::MAX,
        0 <= image < images.len(),
    ensures
        times_placed(placed_messages(messages, images, n), image) == (if (
        images[image].history_message_index is Some && named_place(
            images[image],
            messages.len() as int,
        ) < n) || (prompt_of(images[image]) matches Some(ordinal) && ordinal < prompts_below(
            messages,
            n,
        )) {
            1nat
        } else {
            0
        }),
    decreases n,
{
    if n > 0 {
        lemma_times_messages(messages, images, n - 1, image);
        lemma_prompts(messages, n - 1);
        let before = placed_messages(messages, images, n - 1);
        let named = wanted_images(
            images,
            Wanted::Before((n - 1) as usize, messages.len() as usize),
        );
        let own = message_places(messages[n - 1], n - 1);
        let prompt = prompt_places(messages, images, n - 1);
        lemma_times_add(before, named, image);
        lemma_times_add(before + named, own, image);
        lemma_times_add(before + named + own, prompt, image);
        lemma_times_wanted(
            images,
            Wanted::Before((n - 1) as usize, messages.len() as usize),
            image,
        );
        lemma_times_wanted(
            images,
            Wanted::Prompt(prompts_below(messages, n - 1) as usize),
            image,
        );
        lemma_times_message(messages[n - 1], n - 1, image);
        if messages[n - 1].role@ != "user"@ {
            assert(times_placed(prompt, image) == 0);
        }
    }
}

proof fn lemma_times_strays(images: Seq<RenderedImage>, prompts: nat, n: int, image: int)
    requires
        0 <= n <= images.len(),
        0 <= image < images.len(),
    ensures
        times_placed(stray_images(images, prompts, n), image) == (if is_stray(
            images[image],
            prompts,
        ) && exists|k: int|
            0 <= k < n && prompt_of(#[trigger] images[k]) == prompt_of(images[image]) {
            1nat
        } else {
            0
        }),
    decreases n,
{
    if n > 0 {
        lemma_times_strays(images, prompts, n - 1, image);
        let before = stray_images(images, prompts, n - 1);
        let here = images[n - 1];
        if is_stray(here, prompts) && !has_earlier(images, n - 1) {
            let more = wanted_images(images, Wanted::Prompt(prompt_of(here)->0));
            lemma_times_add(before, more, image);
            lemma_times_wanted(images, Wanted::Prompt(prompt_of(here)->0), image);
        }
        if prompt_of(here) == prompt_of(images[image]) {
            assert(exists|k: int|
                0 <= k < n && prompt_of(#[trigger] images[k]) == prompt_of(images[image])) by {
                assert(prompt_of(images[n - 1]) == prompt_of(images[image]));
            }
        }
        if exists|k: int|
            0 <= k < n - 1 && prompt_of(#[trigger] images[k]) == prompt_of(images[image]) {
            let k = choose|k: int|
                0 <= k < n - 1 && prompt_of(#[trigger] images[k]) == prompt_of(images[image]);
            assert(0 <= k < n && prompt_of(images[k]) == prompt_of(images[image]));
            if prompt_of(here) == prompt_of(images[image]) {
                assert(has_earlier(images, n - 1));
            }
        }
    }
}

/// Every image of a history is shown, and none twice.
pub proof fn every_image_is_shown_once(
    messages: Seq<HistoryMessage>,
    images: Seq<RenderedImage>,
    image: int,
)
    requires
        messages.len() <= usize::MAX,
        0 <= image < images.len(),
    ensures
        times_placed(layout(messages, images), image) == 1,
{
    let n = messages.len();
    let prompts = prompts_below(messages, n as int);
    let placed = placed_messages(messages, images, n as int);
    let named = wanted_images(images, Wanted::Before(n as usize, n as usize));
    let loose = wanted_images(images, Wanted::Loose);
    let strays = stray_images(images, prompts, images.len() as int);
    lemma_times_add(placed, named, image);
    lemma_times_add(placed + named, loose, image);
    lemma_times_add(placed + named + loose, strays, image);
    lemma_times_messages(messages, images, n as int, image);
    lemma_times_wanted(images, Wanted::Before(n as usize, n as usize), image);
    lemma_times_wanted(images, Wanted::Loose, image);
    lemma_times_strays(images, prompts, images.len() as int, image);
    assert(prompt_of(images[image]) == prompt_of(images[image]));
}

} // verus!
