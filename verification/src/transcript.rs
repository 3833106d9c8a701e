//! The transcript: its items, the rows they are shown in, and the images among them.
use std::collections::VecDeque;
use vstd::prelude::*;

use crate::events::{ImageAnchor, ImageSource, RenderedImage, ResponseStats};
use crate::text;
use crate::text::{chars_of, is_white, same};
use crate::todos;
use crate::todos::TodoCardPayload;

verus! {

/// Why a turn stopped. A provisional notice gives way to one with more to say.
#[derive(Debug, PartialEq, Eq)]
pub struct StopNotice {
    pub detail: String,
    pub provisional: bool,
}

/// An image in the transcript. Its preview is the decoded data, where that is sound and of
/// a media type that can be shown.
#[derive(Debug, PartialEq, Eq)]
pub struct TranscriptImage {
    pub media_type: String,
    pub data: String,
    pub label: Option<String>,
    pub preview: Option<Vec<u8>>,
    pub source: ImageSource,
    pub anchor: Option<ImageAnchor>,
}

/// One transcript entry, in display order.
#[derive(Debug, PartialEq, Eq)]
pub enum Item {
    User(String),
    Image(TranscriptImage),
    Assistant(String),
    ResponseStats(ResponseStats),
    Reasoning(String),
    Tool {
        call_id: String,
        name: String,
        input: String,
        output: String,
        done: bool,
        error: Option<String>,
    },
    BackgroundTask {
        task_id: String,
        label: String,
        summary: String,
        percent_bits: Option<u32>,
        done: bool,
    },
    Todos(TodoCardPayload),
    Error(String),
    Stopped(StopNotice),
}

#[verifier::ext_equal]
pub enum SourceView {
    UserInput,
    ToolResult { tool_name: Seq<char> },
    Other { role: Seq<char> },
}

#[verifier::ext_equal]
pub enum AnchorView {
    UserPrompt { ordinal: usize },
    ToolCall { id: Seq<char> },
}

#[verifier::ext_equal]
pub struct ImageView {
    pub media_type: Seq<char>,
    pub data: Seq<char>,
    pub label: Option<Seq<char>>,
    pub preview: Option<Seq<u8>>,
    pub source: SourceView,
    pub anchor: Option<AnchorView>,
}

#[verifier::ext_equal]
pub struct StatsView {
    pub duration_secs_bits: Option<u64>,
    pub tool_calls: usize,
    pub summary: Seq<char>,
    pub empty: bool,
}

#[verifier::ext_equal]
pub struct NoticeView {
    pub detail: Seq<char>,
    pub provisional: bool,
}

#[verifier::ext_equal]
pub enum ItemView {
    User(Seq<char>),
    Image(ImageView),
    Assistant(Seq<char>),
    ResponseStats(StatsView),
    Reasoning(Seq<char>),
    Tool {
        call_id: Seq<char>,
        name: Seq<char>,
        input: Seq<char>,
        output: Seq<char>,
        done: bool,
        error: Option<Seq<char>>,
    },
    BackgroundTask {
        task_id: Seq<char>,
        label: Seq<char>,
        summary: Seq<char>,
        percent_bits: Option<u32>,
        done: bool,
    },
    Todos(todos::PayloadView),
    Error(Seq<char>),
    Stopped(NoticeView),
}

impl View for ImageSource {
    type V = SourceView;

    open spec fn view(&self) -> SourceView {
        match self {
            ImageSource::UserInput => SourceView::UserInput,
            ImageSource::ToolResult { tool_name } => SourceView::ToolResult {
                tool_name: tool_name@,
            },
            ImageSource::Other { role } => SourceView::Other { role: role@ },
        }
    }
}

impl View for ImageAnchor {
    type V = AnchorView;

    open spec fn view(&self) -> AnchorView {
        match self {
            ImageAnchor::UserPrompt { ordinal } => AnchorView::UserPrompt { ordinal: *ordinal },
            ImageAnchor::ToolCall { id } => AnchorView::ToolCall { id: id@ },
        }
    }
}

pub open spec fn anchor_option(o: Option<ImageAnchor>) -> Option<AnchorView> {
    match o {
        Some(anchor) => Some(anchor@),
        None => None,
    }
}

pub open spec fn bytes_option(o: Option<Vec<u8>>) -> Option<Seq<u8>> {
    match o {
        Some(bytes) => Some(bytes@),
        None => None,
    }
}

impl View for TranscriptImage {
    type V = ImageView;

    open spec fn view(&self) -> ImageView {
        ImageView {
            media_type: self.media_type@,
            data: self.data@,
            label: text::text_option(self.label),
            preview: bytes_option(self.preview),
            source: self.source@,
            anchor: anchor_option(self.anchor),
        }
    }
}

impl View for ResponseStats {
    type V = StatsView;

    open spec fn view(&self) -> StatsView {
        StatsView {
            duration_secs_bits: self.duration_secs_bits,
            tool_calls: self.tool_calls,
            summary: self.summary@,
            empty: self.empty,
        }
    }
}

impl View for StopNotice {
    type V = NoticeView;

    open spec fn view(&self) -> NoticeView {
        NoticeView { detail: self.detail@, provisional: self.provisional }
    }
}

impl View for Item {
    type V = ItemView;

    open spec fn view(&self) -> ItemView {
        match self {
            Item::User(s) => ItemView::User(s@),
            Item::Image(image) => ItemView::Image(image@),
            Item::Assistant(s) => ItemView::Assistant(s@),
            Item::ResponseStats(stats) => ItemView::ResponseStats(stats@),
            Item::Reasoning(s) => ItemView::Reasoning(s@),
            Item::Tool { call_id, name, input, output, done, error } => ItemView::Tool {
                call_id: call_id@,
                name: name@,
                input: input@,
                output: output@,
                done: *done,
                error: text::text_option(*error),
            },
            Item::BackgroundTask {
                task_id,
                label,
                summary,
                percent_bits,
                done,
            } => ItemView::BackgroundTask {
                task_id: task_id@,
                label: label@,
                summary: summary@,
                percent_bits: *percent_bits,
                done: *done,
            },
            Item::Todos(payload) => ItemView::Todos(payload@),
            Item::Error(s) => ItemView::Error(s@),
            Item::Stopped(notice) => ItemView::Stopped(notice@),
        }
    }
}

pub open spec fn item_views(v: Seq<Item>) -> Seq<ItemView> {
    v.map_values(|i: Item| i@)
}

/// The bytes that a text in base 64 stands for, where it is one.
pub uninterp spec fn base64_bytes(data: Seq<char>) -> Option<Seq<u8>>;

/// `base64::Engine::decode` with the standard alphabet and padding: whether the text
/// decodes, and to which bytes, depends on the text alone.
#[verifier::external_body]
fn decode_base64(data: &str) -> (r: Option<Vec<u8>>)
    ensures
        bytes_option(r) == base64_bytes(data@),
{
    base64::Engine::decode(&base64::engine::general_purpose::STANDARD, data).ok()
}

/// What is shown of an image: its bytes, where its media type can be shown and its data is
/// sound.
pub open spec fn preview_of(data: Seq<char>, displayable: bool) -> Option<Seq<u8>> {
    if displayable {
        base64_bytes(data)
    } else {
        None
    }
}

fn preview(data: &str, displayable: bool) -> (r: Option<Vec<u8>>)
    ensures
        bytes_option(r) == preview_of(data@, displayable),
{
    if displayable {
        decode_base64(data)
    } else {
        None
    }
}

/// The image that the runtime's rendering of it becomes.
pub open spec fn image_of(image: RenderedImage) -> ImageView {
    ImageView {
        media_type: image.media_type@,
        data: image.data@,
        label: text::text_option(image.label),
        preview: preview_of(image.data@, image.displayable),
        source: image.source@,
        anchor: anchor_option(image.anchor),
    }
}

impl TranscriptImage {
    /// An image that the user attached; `displayable` tells whether its media type is one
    /// that can be shown.
    pub fn new(media_type: String, data: String, label: Option<String>, displayable: bool) -> (r:
        TranscriptImage)
        ensures
            r@ == (ImageView {
                media_type: media_type@,
                data: data@,
                label: text::text_option(label),
                preview: preview_of(data@, displayable),
                source: SourceView::UserInput,
                anchor: None,
            }),
    {
        let preview = preview(data.as_str(), displayable);
        TranscriptImage {
            media_type,
            data,
            label,
            preview,
            source: ImageSource::UserInput,
            anchor: None,
        }
    }

    /// An image as the runtime renders it.
    pub fn from_rendered(image: RenderedImage) -> (r: TranscriptImage)
        ensures
            r@ == image_of(image),
    {
        let preview = preview(image.data.as_str(), image.displayable);
        TranscriptImage {
            media_type: image.media_type,
            data: image.data,
            label: image.label,
            preview,
            source: image.source,
            anchor: image.anchor,
        }
    }

    /// The line below an image that a tool handed to the model.
    pub fn model_input_caption(&self) -> (r: Option<&'static str>)
        ensures
            match r {
                Some(caption) => self@.source is ToolResult && caption@
                    == "Image provided to model"@,
                None => !(self@.source is ToolResult),
            },
    {
        match &self.source {
            ImageSource::ToolResult { .. } => Some("Image provided to model"),
            _ => None,
        }
    }
}

fn same_source(a: &ImageSource, b: &ImageSource) -> (r: bool)
    ensures
        r == (a@ == b@),
{
    match (a, b) {
        (ImageSource::UserInput, ImageSource::UserInput) => true,
        (
            ImageSource::ToolResult { tool_name: x },
            ImageSource::ToolResult { tool_name: y },
        ) => same(x.as_str(), y.as_str()),
        (ImageSource::Other { role: x }, ImageSource::Other { role: y }) => same(
            x.as_str(),
            y.as_str(),
        ),
        _ => false,
    }
}

fn same_anchor(a: &Option<ImageAnchor>, b: &Option<ImageAnchor>) -> (r: bool)
    ensures
        r == (anchor_option(*a) == anchor_option(*b)),
{
    match (a, b) {
        (None, None) => true,
        (
            Some(ImageAnchor::UserPrompt { ordinal: x }),
            Some(ImageAnchor::UserPrompt { ordinal: y }),
        ) => *x == *y,
        (Some(ImageAnchor::ToolCall { id: x }), Some(ImageAnchor::ToolCall { id: y })) => same(
            x.as_str(),
            y.as_str(),
        ),
        _ => false,
    }
}

/// Whether an item is the given image: of the same anchor, source, type and data.
pub open spec fn is_image(item: ItemView, image: ImageView) -> bool {
    item matches ItemView::Image(existing) && existing.anchor == image.anchor && existing.source
        == image.source && existing.media_type == image.media_type && existing.data == image.data
}

/// Whether the image is among the items.
pub open spec fn holds_image(items: Seq<ItemView>, image: ImageView) -> bool {
    exists|i: int| 0 <= i < items.len() && is_image(#[trigger] items[i], image)
}

pub fn has_image(items: &Vec<Item>, image: &RenderedImage) -> (r: bool)
    ensures
        r == holds_image(item_views(items@), image_of(*image)),
{
    let ghost all = item_views(items@);
    let mut i: usize = 0;
    while i < items.len()
        invariant
            0 <= i <= items@.len(),
            all == item_views(items@),
            forall|k: int| 0 <= k < i ==> !is_image(#[trigger] all[k], image_of(*image)),
        decreases items@.len() - i,
    {
        assert(all[i as int] == items@[i as int]@);
        if let Item::Image(existing) = &items[i] {
            if same_anchor(&existing.anchor, &image.anchor) && same_source(
                &existing.source,
                &image.source,
            ) && same(existing.media_type.as_str(), image.media_type.as_str()) && same(
                existing.data.as_str(),
                image.data.as_str(),
            ) {
                assert(is_image(all[i as int], image_of(*image)));
                return true;
            }
        }
        i += 1;
    }
    false
}

/// Whether an item is the tool call of the given id.
pub open spec fn is_call(item: ItemView, id: Seq<char>) -> bool {
    item matches ItemView::Tool { call_id, .. } && call_id == id
}

/// Whether an item is a tool call that still runs.
pub open spec fn is_running_call(item: ItemView) -> bool {
    item matches ItemView::Tool { done, .. } && !done
}

/// The last tool call of the given id below `n`; an empty id stands for the last call
/// that still runs.
pub open spec fn call_below(items: Seq<ItemView>, id: Seq<char>, n: int) -> Option<int>
    decreases n,
{
    if n <= 0 || n > items.len() {
        None
    } else if (if id.len() == 0 {
        is_running_call(items[n - 1])
    } else {
        is_call(items[n - 1], id)
    }) {
        Some(n - 1)
    } else {
        call_below(items, id, n - 1)
    }
}

/// The tool call that an event of the given id is about.
pub open spec fn call_of(items: Seq<ItemView>, id: Seq<char>) -> Option<int> {
    call_below(items, id, items.len() as int)
}

/// The position of the tool call that an event of the given id is about. A stream
/// without ids names none; its events belong to the latest call that still runs.
pub fn find_tool(items: &Vec<Item>, call_id: &str) -> (r: Option<usize>)
    ensures
        match r {
            Some(i) => call_of(item_views(items@), call_id@) == Some(i as int) && i < items@.len()
                && items@[i as int] is Tool,
            None => call_of(item_views(items@), call_id@) is None,
        },
{
    let ghost all = item_views(items@);
    let mut n: usize = items.len();
    while n > 0
        invariant
            n <= items@.len(),
            all == item_views(items@),
            call_of(all, call_id@) == call_below(all, call_id@, n as int),
        decreases n,
    {
        assert(all[n - 1] == items@[n - 1]@);
        if let Item::Tool { call_id: existing, done, .. } = &items[n - 1] {
            let hit = if call_id.is_empty() {
                !*done
            } else {
                same(existing.as_str(), call_id)
            };
            if hit {
                return Some(n - 1);
            }
        }
        n -= 1;
    }
    None
}

/// The last call of the given id below `n`.
pub open spec fn anchor_below(items: Seq<ItemView>, id: Seq<char>, n: int) -> Option<int>
    decreases n,
{
    if n <= 0 || n > items.len() {
        None
    } else if is_call(items[n - 1], id) {
        Some(n - 1)
    } else {
        anchor_below(items, id, n - 1)
    }
}

/// The end of the run of images of the given anchor that starts at `from`.
pub open spec fn run_end(items: Seq<ItemView>, anchor: Option<AnchorView>, from: int) -> int
    decreases items.len() - from,
{
    if 0 <= from < items.len() && (items[from] matches ItemView::Image(existing) && existing.anchor
        == anchor) {
        run_end(items, anchor, from + 1)
    } else {
        from
    }
}

/// Where an image belongs that is anchored to a tool call in the transcript: behind the
/// call and behind the images that are already there for it.
pub open spec fn anchored_place(items: Seq<ItemView>, anchor: Option<AnchorView>) -> Option<int> {
    match anchor {
        Some(AnchorView::ToolCall { id }) => match anchor_below(items, id, items.len() as int) {
            Some(i) => Some(run_end(items, anchor, i + 1)),
            None => None,
        },
        _ => None,
    }
}

pub fn place_at_anchor(items: &Vec<Item>, anchor: &Option<ImageAnchor>) -> (r: Option<usize>)
    ensures
        match r {
            Some(i) => anchored_place(item_views(items@), anchor_option(*anchor)) == Some(i as int)
                && i <= items@.len(),
            None => anchored_place(item_views(items@), anchor_option(*anchor)) is None,
        },
{
    let id = match anchor {
        Some(ImageAnchor::ToolCall { id }) => id,
        _ => return None,
    };
    let ghost all = item_views(items@);
    let ghost wanted = anchor_option(*anchor);
    let count: usize = items.len();
    let mut n: usize = count;
    while n > 0
        invariant
            n <= count,
            count == items@.len(),
            all == item_views(items@),
            wanted == anchor_option(*anchor),
            wanted == Some(AnchorView::ToolCall { id: id@ }),
            anchor_below(all, id@, count as int) == anchor_below(all, id@, n as int),
        decreases n,
    {
        assert(all[n - 1] == items@[n - 1]@);
        if let Item::Tool { call_id, .. } = &items[n - 1] {
            if same(call_id.as_str(), id.as_str()) {
                let mut at: usize = n;
                while at < count
                    invariant
                        n <= at <= count,
                        count == items@.len(),
                        all == item_views(items@),
                        wanted == anchor_option(*anchor),
                        anchored_place(all, wanted) == Some(run_end(all, wanted, at as int)),
                    decreases count - at,
                {
                    assert(all[at as int] == items@[at as int]@);
                    let mine = match &items[at] {
                        Item::Image(existing) => same_anchor(&existing.anchor, anchor),
                        _ => false,
                    };
                    if !mine {
                        return Some(at);
                    }
                    at += 1;
                }
                return Some(at);
            }
        }
        n -= 1;
    }
    None
}

/// Two pieces of reasoning as one text: with an empty line between them, unless either
/// brings white space of its own.
pub open spec fn joined_reasoning(existing: Seq<char>, more: Seq<char>) -> Seq<char> {
    if (existing.len() > 0 && is_white(existing.last())) || (more.len() > 0 && is_white(more[0])) {
        existing + more
    } else {
        existing + "\n\n"@ + more
    }
}

/// Adds a piece of reasoning to another.
pub fn append_reasoning_text(existing: &mut String, text: &str)
    ensures
        final(existing)@ == joined_reasoning(old(existing)@, text@),
{
    let a = chars_of(existing.as_str());
    let b = chars_of(text);
    let separated = (a.len() > 0 && is_white(a[a.len() - 1])) || (b.len() > 0 && is_white(b[0]));
    if !separated {
        existing.append("\n\n");
    }
    existing.append(text);
}

/// The items with a piece of reasoning at their end: it joins reasoning that is there.
pub open spec fn with_reasoning(items: Seq<ItemView>, more: Seq<char>) -> Seq<ItemView> {
    if items.len() > 0 && items.last() is Reasoning {
        items.update(
            items.len() - 1,
            ItemView::Reasoning(joined_reasoning(items.last()->Reasoning_0, more)),
        )
    } else {
        items.push(ItemView::Reasoning(more))
    }
}

/// Adds a piece of reasoning to the transcript.
pub fn append_reasoning(items: &mut Vec<Item>, text: String)
    ensures
        item_views(final(items)@) == with_reasoning(item_views(old(items)@), text@),
{
    let ghost before = item_views(items@);
    match items.pop() {
        Some(Item::Reasoning(existing)) => {
            assert(before.last() == ItemView::Reasoning(existing@));
            let mut existing = existing;
            append_reasoning_text(&mut existing, text.as_str());
            items.push(Item::Reasoning(existing));
            assert(item_views(items@) =~= with_reasoning(before, text@));
        },
        Some(other) => {
            assert(before.last() == other@);
            items.push(other);
            assert(item_views(items@) =~= before);
            items.push(Item::Reasoning(text));
            assert(item_views(items@) =~= before.push(ItemView::Reasoning(text@)));
        },
        None => {
            items.push(Item::Reasoning(text));
            assert(item_views(items@) =~= before.push(ItemView::Reasoning(text@)));
        },
    }
}

/// Pieces of reasoning that follow one another stay one item, and no reasoning is lost.
pub proof fn reasoning_stays_one_block(items: Seq<ItemView>, first: Seq<char>, second: Seq<char>)
    ensures
        with_reasoning(with_reasoning(items, first), second).len() == with_reasoning(
            items,
            first,
        ).len(),
        with_reasoning(items, first).last() is Reasoning,
{
}

/// Joins neighbouring reasoning rows; each keeps the position of its first piece.
pub open spec fn coalesced(rows: Seq<(int, ItemView)>) -> Seq<(int, ItemView)>
    decreases rows.len(),
{
    if rows.len() == 0 {
        rows
    } else {
        let before = coalesced(rows.drop_last());
        let row = rows.last();
        if before.len() > 0 && before.last().1 is Reasoning && row.1 is Reasoning {
            before.update(
                before.len() - 1,
                (
                    before.last().0,
                    ItemView::Reasoning(
                        joined_reasoning(
                            before.last().1->Reasoning_0,
                            row.1->Reasoning_0,
                        ),
                    ),
                ),
            )
        } else {
            before.push(row)
        }
    }
}

pub open spec fn row_views(rows: Seq<(usize, Item)>) -> Seq<(int, ItemView)> {
    rows.map_values(|r: (usize, Item)| (r.0 as int, r.1@))
}

/// Joins neighbouring reasoning rows.
pub fn coalesce_reasoning_rows(rows: VecDeque<(usize, Item)>) -> (r: Vec<(usize, Item)>)
    ensures
        row_views(r@) == coalesced(row_views(rows@)),
{
    let mut rows = rows;
    let ghost all = rows@;
    let ghost views = row_views(all);
    let ghost mut seen: int = 0;
    let mut r: Vec<(usize, Item)> = Vec::new();
    assert(row_views(r@) =~= coalesced(views.take(0)));
    assert(all.skip(0) == all);
    while rows.len() > 0
        invariant
            0 <= seen <= all.len(),
            views == row_views(all),
            rows@ == all.skip(seen),
            row_views(r@) == coalesced(views.take(seen)),
        decreases rows@.len(),
    {
        let ghost before = row_views(r@);
        assert(views.take(seen + 1).drop_last() == views.take(seen));
        assert(rows@[0] == all[seen]);
        assert(rows@.drop_first() == all.skip(seen + 1));
        match rows.pop_front() {
            Some((index, item)) => {
                let ghost row = (index as int, item@);
                assert(views.take(seen + 1).last() == row);
                match (r.pop(), item) {
                    (Some((first, Item::Reasoning(existing))), Item::Reasoning(text)) => {
                        assert(before.last() == (first as int, ItemView::Reasoning(existing@)));
                        let mut existing = existing;
                        append_reasoning_text(&mut existing, text.as_str());
                        r.push((first, Item::Reasoning(existing)));
                        assert(row_views(r@) =~= coalesced(views.take(seen + 1)));
                    },
                    (Some((first, previous)), item) => {
                        assert(before.last() == (first as int, previous@));
                        r.push((first, previous));
                        assert(row_views(r@) =~= before);
                        r.push((index, item));
                        assert(row_views(r@) =~= before.push(row));
                    },
                    (None, item) => {
                        r.push((index, item));
                        assert(row_views(r@) =~= before.push(row));
                    },
                }
                proof {
                    seen = seen + 1;
                }
            },
            None => {
                return r;
            },
        }
    }
    assert(views.take(seen) == views);
    r
}

/// No two neighbouring rows are both reasoning.
pub proof fn coalesced_reasoning_has_no_neighbour(rows: Seq<(int, ItemView)>)
    ensures
        forall|k: int|
            0 <= k < coalesced(rows).len() - 1 ==> !((#[trigger] coalesced(rows)[k]).1 is Reasoning
                && coalesced(rows)[k + 1].1 is Reasoning),
    decreases rows.len(),
{
    if rows.len() > 0 {
        coalesced_reasoning_has_no_neighbour(rows.drop_last());
        let before = coalesced(rows.drop_last());
        let after = coalesced(rows);
        assert forall|k: int| 0 <= k < after.len() - 1 implies !((#[trigger] after[k]).1 is Reasoning
            && after[k + 1].1 is Reasoning) by {
            if k < before.len() - 1 {
                assert(!(before[k].1 is Reasoning && before[k + 1].1 is Reasoning));
            }
        }
    }
}

/// Who a row is captioned with.
#[derive(Clone, Copy, PartialEq, Eq, Debug, Structural)]
pub enum Speaker {
    You,
    Jcode,
}

impl Speaker {
    pub fn caption(self) -> (r: &'static str)
        ensures
            r@ == match self {
                Speaker::You => "you"@,
                Speaker::Jcode => "jcode"@,
            },
    {
        match self {
            Speaker::You => "you",
            Speaker::Jcode => "jcode",
        }
    }
}

pub open spec fn speaker(item: ItemView) -> Option<Speaker> {
    match item {
        ItemView::User(_) => Some(Speaker::You),
        ItemView::Assistant(_) => Some(Speaker::Jcode),
        _ => None,
    }
}

/// Which speaker a row belongs to; most rows carry no caption.
pub fn role_of(item: &Item) -> (r: Option<Speaker>)
    ensures
        r == speaker(item@),
{
    match item {
        Item::User(_) => Some(Speaker::You),
        Item::Assistant(_) => Some(Speaker::Jcode),
        _ => None,
    }
}

/// What a row shows: an item as it stands, or a text of the row's own.
#[derive(Debug, PartialEq, Eq)]
pub enum TranscriptRowSource {
    Settled(usize),
    Owned(Item),
}

#[derive(Debug, PartialEq, Eq)]
pub struct TranscriptRenderRow {
    pub index: usize,
    pub source: TranscriptRowSource,
    pub role: Option<Speaker>,
    pub show_label: bool,
}

#[verifier::ext_equal]
pub enum RowSourceView {
    Settled(int),
    Owned(ItemView),
}

#[verifier::ext_equal]
pub struct RowView {
    pub index: int,
    pub source: RowSourceView,
    pub role: Option<Speaker>,
    pub show_label: bool,
}

impl View for TranscriptRenderRow {
    type V = RowView;

    open spec fn view(&self) -> RowView {
        RowView {
            index: self.index as int,
            source: match self.source {
                TranscriptRowSource::Settled(i) => RowSourceView::Settled(i as int),
                TranscriptRowSource::Owned(item) => RowSourceView::Owned(item@),
            },
            role: self.role,
            show_label: self.show_label,
        }
    }
}

pub open spec fn render_views(v: Seq<TranscriptRenderRow>) -> Seq<RowView> {
    v.map_values(|r: TranscriptRenderRow| r@)
}

/// Whether an item is kept out of the transcript: the todos are pinned above it.
pub open spec fn is_hidden(item: ItemView) -> bool {
    match item {
        ItemView::Todos(_) => true,
        ItemView::Tool { name, .. } => name == "todo"@,
        _ => false,
    }
}

/// The reasoning that a row shows.
pub open spec fn row_reasoning(row: RowView, items: Seq<ItemView>) -> Option<Seq<char>> {
    match row.source {
        RowSourceView::Settled(i) => match items[i] {
            ItemView::Reasoning(s) => Some(s),
            _ => None,
        },
        RowSourceView::Owned(ItemView::Reasoning(s)) => Some(s),
        _ => None,
    }
}

pub open spec fn later_role(role: Option<Speaker>, before: Option<Speaker>) -> Option<Speaker> {
    match role {
        Some(role) => Some(role),
        None => before,
    }
}

/// The rows with one more; a caption is shown where the speaker changes.
pub open spec fn with_row(
    rows: (Seq<RowView>, Option<Speaker>),
    index: int,
    source: RowSourceView,
    role: Option<Speaker>,
) -> (Seq<RowView>, Option<Speaker>) {
    (
        rows.0.push(
            RowView { index, source, role, show_label: role is Some && role != rows.1 },
        ),
        later_role(role, rows.1),
    )
}

/// The rows of the first `n` items, and who spoke last.
pub open spec fn settled_rows(items: Seq<ItemView>, n: int) -> (Seq<RowView>, Option<Speaker>)
    decreases n,
{
    if n <= 0 {
        (Seq::empty(), None)
    } else {
        let before = settled_rows(items, n - 1);
        let item = items[n - 1];
        if is_hidden(item) {
            before
        } else if item is Reasoning && before.0.len() > 0 && row_reasoning(before.0.last(), items)
            is Some {
            (
                before.0.update(
                    before.0.len() - 1,
                    RowView {
                        source: RowSourceView::Owned(
                            ItemView::Reasoning(
                                joined_reasoning(
                                    row_reasoning(before.0.last(), items)->0,
                                    item->Reasoning_0,
                                ),
                            ),
                        ),
                        ..before.0.last()
                    },
                ),
                before.1,
            )
        } else {
            with_row(before, n - 1, RowSourceView::Settled(n - 1), speaker(item))
        }
    }
}

/// The rows of a transcript: its items, then what streams in.
pub open spec fn shown_rows(
    items: Seq<ItemView>,
    reasoning: Seq<char>,
    response: Seq<char>,
) -> Seq<RowView> {
    let settled = settled_rows(items, items.len() as int);
    let thinking = if reasoning.len() > 0 {
        with_row(
            settled,
            usize::MAX - 1,
            RowSourceView::Owned(ItemView::Reasoning(reasoning)),
            None,
        )
    } else {
        settled
    };
    if response.len() > 0 {
        with_row(
            thinking,
            usize::MAX as int,
            RowSourceView::Owned(ItemView::Assistant(response)),
            Some(Speaker::Jcode),
        ).0
    } else {
        thinking.0
    }
}

fn push_row(
    rows: &mut Vec<TranscriptRenderRow>,
    previous: Option<Speaker>,
    index: usize,
    source: TranscriptRowSource,
    role: Option<Speaker>,
) -> (r: Option<Speaker>)
    ensures
        (render_views(final(rows)@), r) == with_row(
            (render_views(old(rows)@), previous),
            index as int,
            (match source {
                TranscriptRowSource::Settled(i) => RowSourceView::Settled(i as int),
                TranscriptRowSource::Owned(item) => RowSourceView::Owned(item@),
            }),
            role,
        ),
        final(rows)@ == old(rows)@.push(final(rows)@.last()),
        final(rows)@.last().source == source,
{
    let show_label = match (role, previous) {
        (Some(Speaker::You), Some(Speaker::You)) => false,
        (Some(Speaker::Jcode), Some(Speaker::Jcode)) => false,
        (Some(_), _) => true,
        (None, _) => false,
    };
    let ghost before = render_views(rows@);
    let row = TranscriptRenderRow { index, source, role, show_label };
    let ghost added = row@;
    rows.push(row);
    assert(render_views(rows@) =~= before.push(added));
    match role {
        Some(role) => Some(role),
        None => previous,
    }
}

fn hides(item: &Item) -> (r: bool)
    ensures
        r == is_hidden(item@),
{
    match item {
        Item::Todos(_) => true,
        Item::Tool { name, .. } => same(name.as_str(), "todo"),
        _ => false,
    }
}

fn reasoning_of(row: &TranscriptRenderRow, items: &Vec<Item>) -> (r: Option<String>)
    requires
        row.source matches TranscriptRowSource::Settled(i) ==> i < items@.len(),
    ensures
        text::text_option(r) == row_reasoning(row@, item_views(items@)),
{
    match &row.source {
        TranscriptRowSource::Settled(i) => {
            assert(item_views(items@)[*i as int] == items@[*i as int]@);
            match &items[*i] {
                Item::Reasoning(s) => Some(s.clone()),
                _ => None,
            }
        },
        TranscriptRowSource::Owned(Item::Reasoning(s)) => Some(s.clone()),
        _ => None,
    }
}

/// The rows of a transcript: its items, then what streams in.
pub fn transcript_render_rows(
    items: &Vec<Item>,
    streaming_reasoning: &String,
    streaming_text: &String,
) -> (r: Vec<TranscriptRenderRow>)
    ensures
        render_views(r@) == shown_rows(
            item_views(items@),
            streaming_reasoning@,
            streaming_text@,
        ),
{
    let ghost all = item_views(items@);
    let mut rows: Vec<TranscriptRenderRow> = Vec::new();
    let mut previous: Option<Speaker> = None;
    let mut i: usize = 0;
    assert(render_views(rows@) =~= settled_rows(all, 0).0);
    while i < items.len()
        invariant
            0 <= i <= items@.len(),
            all == item_views(items@),
            (render_views(rows@), previous) == settled_rows(all, i as int),
            forall|k: int|
                0 <= k < rows@.len() ==> ((#[trigger] rows@[k]).source matches
                    TranscriptRowSource::Settled(j) ==> j < items@.len()),
        decreases items@.len() - i,
    {
        let item = &items[i];
        assert(all[i as int] == item@);
        let ghost before = render_views(rows@);
        if hides(item) {
            i += 1;
            continue;
        }
        if let Item::Reasoning(text) = item {
            if rows.len() > 0 {
                let last: usize = rows.len() - 1;
                assert(before.last() == rows@[last as int]@);
                if let Some(existing) = reasoning_of(&rows[last], items) {
                    let mut joined = existing;
                    append_reasoning_text(&mut joined, text.as_str());
                    rows[last].source = TranscriptRowSource::Owned(Item::Reasoning(joined));
                    assert(render_views(rows@) =~= settled_rows(all, i + 1).0);
                    i += 1;
                    continue;
                }
            }
        }
        previous = push_row(
            &mut rows,
            previous,
            i,
            TranscriptRowSource::Settled(i),
            role_of(item),
        );
        i += 1;
    }
    if !streaming_reasoning.as_str().is_empty() {
        previous = push_row(
            &mut rows,
            previous,
            usize::MAX - 1,
            TranscriptRowSource::Owned(Item::Reasoning(streaming_reasoning.clone())),
            None,
        );
    }
    if !streaming_text.as_str().is_empty() {
        let _ = push_row(
            &mut rows,
            previous,
            usize::MAX,
            TranscriptRowSource::Owned(Item::Assistant(streaming_text.clone())),
            Some(Speaker::Jcode),
        );
    }
    rows
}

/// Settled rows stand in the order of their items, none of which is a list of todos.
pub proof fn rows_follow_the_items(items: Seq<ItemView>, n: int)
    requires
        0 <= n <= items.len(),
    ensures
        forall|k: int|
            0 <= k < settled_rows(items, n).0.len() ==> 0 <= (#[trigger] settled_rows(
                items,
                n,
            ).0[k]).index < n && !is_hidden(items[settled_rows(items, n).0[k].index]),
        forall|j: int, k: int|
            0 <= j < k < settled_rows(items, n).0.len() ==> (#[trigger] settled_rows(
                items,
                n,
            ).0[j]).index < (#[trigger] settled_rows(items, n).0[k]).index,
    decreases n,
{
    if n > 0 {
        rows_follow_the_items(items, n - 1);
    }
}

/// The row that an item stands in: the last one once the items up to it are laid out.
pub open spec fn row_at(items: Seq<ItemView>, i: int) -> int {
    settled_rows(items, i + 1).0.len() - 1
}

/// Every item that is shown stands in exactly one row: the row that begins with it or, for
/// reasoning that joins what stands before it, the row of that reasoning. It is the one row
/// that begins no later and ends before the next begins.
pub proof fn every_shown_item_has_one_row(items: Seq<ItemView>, n: int, i: int)
    requires
        0 <= i < n <= items.len(),
        !is_hidden(items[i]),
    ensures
        ({
            let rows = settled_rows(items, n).0;
            let k = row_at(items, i);
            &&& 0 <= k < rows.len()
            &&& rows[k].index <= i
            &&& k + 1 < rows.len() ==> i < rows[k + 1].index
            &&& forall|m: int|
                0 <= m < rows.len() && (#[trigger] rows[m]).index <= i && (m + 1 < rows.len() ==> i
                    < rows[m + 1].index) ==> m == k
            &&& if items[i] is Reasoning {
                row_reasoning(rows[k], items) is Some
            } else {
                rows[k].index == i && rows[k].source == RowSourceView::Settled(i)
            }
        }),
    decreases n,
{
    let rows = settled_rows(items, n).0;
    let k = row_at(items, i);
    rows_follow_the_items(items, n);
    rows_follow_the_items(items, n - 1);
    if i < n - 1 {
        every_shown_item_has_one_row(items, n - 1, i);
    }
    assert forall|m: int|
        0 <= m < rows.len() && (#[trigger] rows[m]).index <= i && (m + 1 < rows.len() ==> i
            < rows[m + 1].index) implies m == k by {
        if m < k {
            assert(rows[m + 1].index <= rows[k].index);
        } else if k < m {
            assert(rows[k + 1].index <= rows[m].index);
        }
    }
}

/// Reasoning shares one row with the reasoning before it, where nothing that is shown
/// stands between them.
pub proof fn adjoining_reasoning_shares_a_row(items: Seq<ItemView>, i: int, j: int)
    requires
        0 <= i < j < items.len(),
        items[i] is Reasoning,
        items[j] is Reasoning,
        forall|k: int| i < k < j ==> is_hidden(#[trigger] items[k]),
    ensures
        row_at(items, i) == row_at(items, j),
{
    lemma_hidden_adds_nothing(items, i + 1, j);
    every_shown_item_has_one_row(items, i + 1, i);
}

proof fn lemma_hidden_adds_nothing(items: Seq<ItemView>, from: int, to: int)
    requires
        0 <= from <= to <= items.len(),
        forall|k: int| from <= k < to ==> is_hidden(#[trigger] items[k]),
    ensures
        settled_rows(items, to) == settled_rows(items, from),
    decreases to - from,
{
    if from < to {
        assert(is_hidden(items[to - 1]));
        lemma_hidden_adds_nothing(items, from, to - 1);
    }
}

/// What was measured when the transcript was last laid out.
#[derive(Debug, PartialEq, Eq)]
pub struct TranscriptMeasurements {
    pub dirty: bool,
    pub item_count: usize,
    pub row_count: usize,
    pub streaming_lengths: (usize, usize),
    pub fonts: Option<(String, String, String)>,
}

#[verifier::ext_equal]
pub struct MeasuredView {
    pub dirty: bool,
    pub item_count: usize,
    pub row_count: usize,
    pub streaming_lengths: (usize, usize),
    pub fonts: Option<(Seq<char>, Seq<char>, Seq<char>)>,
}

impl View for TranscriptMeasurements {
    type V = MeasuredView;

    open spec fn view(&self) -> MeasuredView {
        MeasuredView {
            dirty: self.dirty,
            item_count: self.item_count,
            row_count: self.row_count,
            streaming_lengths: self.streaming_lengths,
            fonts: match self.fonts {
                Some((a, b, c)) => Some((a@, b@, c@)),
                None => None,
            },
        }
    }
}

/// The rows whose heights are stale: all of them where items, rows or fonts changed, the
/// live end where only the stream grew. `None` where that is no row.
pub open spec fn stale_rows(
    measured: MeasuredView,
    item_count: usize,
    row_count: usize,
    streaming_lengths: (usize, usize),
    fonts: (Seq<char>, Seq<char>, Seq<char>),
) -> Option<(int, int)> {
    let from = if measured.dirty || measured.item_count != item_count || measured.row_count
        != row_count || measured.fonts != Some(fonts) {
        0
    } else if measured.streaming_lengths != streaming_lengths {
        if row_count >= 3 {
            row_count - 3
        } else {
            0
        }
    } else {
        row_count as int
    };
    if from < row_count {
        Some((from, row_count as int))
    } else {
        None
    }
}

impl TranscriptMeasurements {
    pub fn new() -> (r: TranscriptMeasurements)
        ensures
            r@ == (MeasuredView {
                dirty: false,
                item_count: 0,
                row_count: 0,
                streaming_lengths: (0, 0),
                fonts: None,
            }),
    {
        TranscriptMeasurements {
            dirty: false,
            item_count: 0,
            row_count: 0,
            streaming_lengths: (0, 0),
            fonts: None,
        }
    }

    /// The rows to measure again, and the state that they will then be in.
    pub fn take_range(
        &mut self,
        item_count: usize,
        row_count: usize,
        streaming_lengths: (usize, usize),
        fonts: (&str, &str, &str),
    ) -> (r: Option<(usize, usize)>)
        ensures
            (match r {
                Some((from, to)) => Some((from as int, to as int)),
                None => None,
            }) == stale_rows(
                old(self)@,
                item_count,
                row_count,
                streaming_lengths,
                (fonts.0@, fonts.1@, fonts.2@),
            ),
            final(self)@ == (MeasuredView {
                dirty: false,
                item_count,
                row_count,
                streaming_lengths,
                fonts: Some((fonts.0@, fonts.1@, fonts.2@)),
            }),
    {
        let same_fonts = match &self.fonts {
            Some((a, b, c)) => same(a.as_str(), fonts.0) && same(b.as_str(), fonts.1) && same(
                c.as_str(),
                fonts.2,
            ),
            None => false,
        };
        let from: usize = if self.dirty || self.item_count != item_count || self.row_count
            != row_count || !same_fonts {
            0
        } else if self.streaming_lengths.0 != streaming_lengths.0 || self.streaming_lengths.1
            != streaming_lengths.1 {
            if row_count >= 3 {
                row_count - 3
            } else {
                0
            }
        } else {
            row_count
        };
        self.dirty = false;
        self.item_count = item_count;
        self.row_count = row_count;
        self.streaming_lengths = streaming_lengths;
        self.fonts = Some((fonts.0.to_owned(), fonts.1.to_owned(), fonts.2.to_owned()));
        if from < row_count {
            Some((from, row_count))
        } else {
            None
        }
    }
}

/// What was just measured is not stale.
pub proof fn measured_rows_stay_measured(
    item_count: usize,
    row_count: usize,
    streaming_lengths: (usize, usize),
    fonts: (Seq<char>, Seq<char>, Seq<char>),
)
    ensures
        stale_rows(
            MeasuredView {
                dirty: false,
                item_count,
                row_count,
                streaming_lengths,
                fonts: Some(fonts),
            },
            item_count,
            row_count,
            streaming_lengths,
            fonts,
        ) is None,
{
}

/// The times at which prompts were accepted, with one more; a prompt's earlier time gives way.
pub open spec fn with_time(accepted: Seq<(int, u64)>, index: int, at: u64) -> Seq<(int, u64)>
    decreases accepted.len(),
{
    if accepted.len() == 0 {
        seq![(index, at)]
    } else if accepted[0].0 == index {
        seq![(index, at)] + accepted.drop_first()
    } else {
        seq![accepted[0]] + with_time(accepted.drop_first(), index, at)
    }
}

pub open spec fn times(accepted: Seq<(usize, u64)>) -> Seq<(int, u64)> {
    accepted.map_values(|e: (usize, u64)| (e.0 as int, e.1))
}

fn put_time(accepted: &mut Vec<(usize, u64)>, index: usize, at: u64)
    ensures
        times(final(accepted)@) == with_time(times(old(accepted)@), index as int, at),
{
    let ghost all = times(accepted@);
    let n: usize = accepted.len();
    let mut i: usize = 0;
    assert(all.skip(0) == all);
    assert(all.take(0) + with_time(all.skip(0), index as int, at) =~= with_time(
        all,
        index as int,
        at,
    ));
    while i < n
        invariant
            0 <= i <= n,
            n == accepted@.len(),
            all == times(accepted@),
            all == times(old(accepted)@),
            all.take(i as int) + with_time(all.skip(i as int), index as int, at) == with_time(
                all,
                index as int,
                at,
            ),
        decreases n - i,
    {
        let ghost rest = all.skip(i as int);
        assert(rest[0] == all[i as int]);
        assert(rest.drop_first() == all.skip(i + 1));
        if accepted[i].0 == index {
            accepted[i] = (index, at);
            assert(times(accepted@) =~= all.take(i as int) + (seq![(index as int, at)]
                + rest.drop_first()));
            return;
        }
        assert(all.take(i as int) + (seq![all[i as int]] + with_time(
            all.skip(i + 1),
            index as int,
            at,
        )) =~= all.take(i + 1) + with_time(all.skip(i + 1), index as int, at));
        i += 1;
    }
    accepted.push((index, at));
    assert(all.skip(i as int).len() == 0);
    assert(times(accepted@) =~= all.take(i as int) + seq![(index as int, at)]);
}

/// The oldest prompt that waits was accepted.
pub fn acknowledge_next(
    pending: &mut VecDeque<usize>,
    accepted: &mut Vec<(usize, u64)>,
    now: u64,
)
    ensures
        if old(pending)@.len() > 0 {
            &&& final(pending)@ == old(pending)@.drop_first()
            &&& times(final(accepted)@) == with_time(
                times(old(accepted)@),
                old(pending)@[0] as int,
                now,
            )
        } else {
            &&& final(pending)@ == old(pending)@
            &&& final(accepted)@ == old(accepted)@
        },
{
    if let Some(index) = pending.pop_front() {
        put_time(accepted, index, now);
    }
}

/// Joined reasoning begins with what was there and ends with what came, with nothing but an
/// empty line between them; that stands there unless either side brings white space.
pub proof fn joined_reasoning_keeps_both(existing: Seq<char>, more: Seq<char>)
    ensures
        ({
            let both = joined_reasoning(existing, more);
            let gap = both.len() - existing.len() - more.len();
            let spaced = (existing.len() > 0 && is_white(existing.last())) || (more.len() > 0
                && is_white(more[0]));
            &&& both.take(existing.len() as int) == existing
            &&& both.skip(both.len() - more.len()) == more
            &&& gap == (if spaced {
                0int
            } else {
                2
            })
            &&& forall|k: int|
                existing.len() <= k < existing.len() + gap ==> #[trigger] both[k] == '\n'
        }),
{
    reveal_strlit("\n\n");
    let both = joined_reasoning(existing, more);
    assert(both.take(existing.len() as int) =~= existing);
    assert(both.skip(both.len() - more.len()) =~= more);
}

/// Reasoning that settles is the last thing in the transcript, and nothing before it is
/// touched: reasoning that stood last is kept as its beginning, anything else stays as it is.
pub proof fn settled_reasoning_stands_last(items: Seq<ItemView>, more: Seq<char>)
    ensures
        ({
            let after = with_reasoning(items, more);
            let n = items.len() as int;
            &&& after.len() == (if n > 0 && items[n - 1] is Reasoning {
                n
            } else {
                n + 1
            })
            &&& forall|k: int| 0 <= k < after.len() - 1 ==> #[trigger] after[k] == items[k]
            &&& after.last() matches ItemView::Reasoning(text) && more.len() <= text.len()
                && text.skip(text.len() - more.len()) == more
            &&& n > 0 && items[n - 1] is Reasoning ==> {
                let before = items[n - 1]->Reasoning_0;
                let text = after.last()->Reasoning_0;
                before.len() + more.len() <= text.len() && text.take(before.len() as int) == before
            }
            &&& !(n > 0 && items[n - 1] is Reasoning) ==> after.last() == ItemView::Reasoning(more)
        }),
{
    let n = items.len() as int;
    if n > 0 && items[n - 1] is Reasoning {
        joined_reasoning_keeps_both(items[n - 1]->Reasoning_0, more);
    } else {
        assert(more.skip(0) =~= more);
    }
}

/// An event that names a call is about the latest call of that id, done or not; one that
/// names none is about the latest call that still runs.
pub proof fn events_are_about_the_latest_call(items: Seq<ItemView>, id: Seq<char>)
    ensures
        match call_of(items, id) {
            Some(i) => {
                &&& 0 <= i < items.len()
                &&& items[i] matches ItemView::Tool { call_id, done, .. } && (if id.len() > 0 {
                    call_id == id
                } else {
                    !done
                })
                &&& forall|k: int|
                    i < k < items.len() ==> (#[trigger] items[k] matches ItemView::Tool {
                        call_id,
                        done,
                        ..
                    } ==> (if id.len() > 0 {
                        call_id != id
                    } else {
                        done
                    }))
            },
            None => forall|k: int|
                0 <= k < items.len() ==> (#[trigger] items[k] matches ItemView::Tool {
                    call_id,
                    done,
                    ..
                } ==> (if id.len() > 0 {
                    call_id != id
                } else {
                    done
                })),
        },
{
    lemma_call_below(items, id, items.len() as int);
}

proof fn lemma_call_below(items: Seq<ItemView>, id: Seq<char>, n: int)
    requires
        0 <= n <= items.len(),
    ensures
        match call_below(items, id, n) {
            Some(i) => {
                &&& 0 <= i < n
                &&& (if id.len() > 0 {
                    is_call(items[i], id)
                } else {
                    is_running_call(items[i])
                })
                &&& forall|k: int|
                    i < k < n ==> !(if id.len() > 0 {
                        is_call(#[trigger] items[k], id)
                    } else {
                        is_running_call(items[k])
                    })
            },
            None => forall|k: int|
                0 <= k < n ==> !(if id.len() > 0 {
                    is_call(#[trigger] items[k], id)
                } else {
                    is_running_call(items[k])
                }),
        },
    decreases n,
{
    if n > 0 {
        lemma_call_below(items, id, n - 1);
    }
}

/// An image of a tool call goes behind the latest call of that id, behind the images that
/// stand there for it and before anything else. An image that no call in the transcript
/// anchors has no place of its own.
pub proof fn images_follow_their_call(items: Seq<ItemView>, anchor: Option<AnchorView>)
    ensures
        match anchored_place(items, anchor) {
            Some(at) => anchor matches Some(AnchorView::ToolCall { id }) && exists|i: int|
                #![trigger items[i]]
                {
                    &&& 0 <= i < at <= items.len()
                    &&& items[i] matches ItemView::Tool { call_id, .. } && call_id == id
                    &&& forall|k: int|
                        i < k < items.len() ==> (#[trigger] items[k] matches ItemView::Tool {
                            call_id,
                            ..
                        } ==> call_id != id)
                    &&& forall|k: int|
                        i < k < at ==> (#[trigger] items[k] matches ItemView::Image(image)
                            && image.anchor == anchor)
                    &&& at < items.len() ==> !(items[at] matches ItemView::Image(image)
                        && image.anchor == anchor)
                },
            None => anchor matches Some(AnchorView::ToolCall { id }) ==> forall|k: int|
                0 <= k < items.len() ==> (#[trigger] items[k] matches ItemView::Tool {
                    call_id,
                    ..
                } ==> call_id != id),
        },
{
    if let Some(AnchorView::ToolCall { id }) = anchor {
        lemma_anchor_below(items, id, items.len() as int);
        if let Some(i) = anchor_below(items, id, items.len() as int) {
            lemma_run_end(items, anchor, i + 1);
            assert(items[i] is Tool);
        }
    }
}

proof fn lemma_anchor_below(items: Seq<ItemView>, id: Seq<char>, n: int)
    requires
        0 <= n <= items.len(),
    ensures
        match anchor_below(items, id, n) {
            Some(i) => {
                &&& 0 <= i < n
                &&& is_call(items[i], id)
                &&& forall|k: int| i < k < n ==> !is_call(#[trigger] items[k], id)
            },
            None => forall|k: int| 0 <= k < n ==> !is_call(#[trigger] items[k], id),
        },
    decreases n,
{
    if n > 0 {
        lemma_anchor_below(items, id, n - 1);
    }
}

proof fn lemma_run_end(items: Seq<ItemView>, anchor: Option<AnchorView>, from: int)
    requires
        0 <= from <= items.len(),
    ensures
        from <= run_end(items, anchor, from) <= items.len(),
        forall|k: int|
            from <= k < run_end(items, anchor, from) ==> (#[trigger] items[k]
                matches ItemView::Image(image) && image.anchor == anchor),
        run_end(items, anchor, from) < items.len() ==> !(items[run_end(items, anchor, from)]
            matches ItemView::Image(image) && image.anchor == anchor),
    decreases items.len() - from,
{
    if from < items.len() && (items[from] matches ItemView::Image(existing) && existing.anchor
        == anchor) {
        lemma_run_end(items, anchor, from + 1);
    }
}

/// An image is the same as another by its anchor, its source, its type and its data; its
/// label and its preview do not tell images apart.
pub proof fn images_are_told_apart_by_what_they_are(items: Seq<ItemView>, image: ImageView)
    ensures
        holds_image(items, image) <==> exists|i: int|
            0 <= i < items.len() && (#[trigger] items[i] matches ItemView::Image(other)
                && other.anchor == image.anchor && other.source == image.source && other.media_type
                == image.media_type && other.data == image.data),
{
    if exists|i: int|
        0 <= i < items.len() && (#[trigger] items[i] matches ItemView::Image(other) && other.anchor
            == image.anchor && other.source == image.source && other.media_type == image.media_type
            && other.data == image.data) {
        let i = choose|i: int|
            0 <= i < items.len() && (#[trigger] items[i] matches ItemView::Image(other)
                && other.anchor == image.anchor && other.source == image.source && other.media_type
                == image.media_type && other.data == image.data);
        assert(is_image(items[i], image));
    }
}

/// A rendered image is carried over as it is. It has a preview only where its type can be
/// shown, and that is what its data decodes to.
pub proof fn rendered_images_are_carried_over(image: RenderedImage)
    ensures
        image_of(image).data == image.data@,
        image_of(image).media_type == image.media_type@,
        image_of(image).label is Some == image.label is Some,
        image.label is Some ==> image_of(image).label == Some(image.label->0@),
        image_of(image).source == image.source@,
        image_of(image).anchor is Some == image.anchor is Some,
        image.anchor is Some ==> image_of(image).anchor == Some(image.anchor->0@),
        !image.displayable ==> image_of(image).preview is None,
        image.displayable ==> image_of(image).preview == base64_bytes(image.data@),
{
}

/// Every item that is neither a card of todos nor a call of the tool `todo` is shown. But
/// for reasoning, it has one row of its own, which shows it as it stands.
pub proof fn all_but_todos_have_a_row(
    items: Seq<ItemView>,
    reasoning: Seq<char>,
    response: Seq<char>,
    i: int,
)
    requires
        0 <= i < items.len() < usize::MAX,
        !(items[i] is Todos),
        items[i] is Tool ==> items[i]->name != "todo"@,
        !(items[i] is Reasoning),
    ensures
        exists|k: int|
            0 <= k < shown_rows(items, reasoning, response).len() && (#[trigger] shown_rows(
                items,
                reasoning,
                response,
            )[k]).index == i && shown_rows(items, reasoning, response)[k].source
                == RowSourceView::Settled(i),
        forall|j: int, k: int|
            0 <= j < shown_rows(items, reasoning, response).len() && 0 <= k < shown_rows(
                items,
                reasoning,
                response,
            ).len() && (#[trigger] shown_rows(items, reasoning, response)[j]).source
                == RowSourceView::Settled(i) && (#[trigger] shown_rows(
                items,
                reasoning,
                response,
            )[k]).source == RowSourceView::Settled(i) ==> j == k,
{
    let n = items.len() as int;
    let settled = settled_rows(items, n).0;
    let rows = shown_rows(items, reasoning, response);
    every_shown_item_has_one_row(items, n, i);
    lemma_settled_sources(items, n);
    rows_follow_the_items(items, n);
    let at = row_at(items, i);
    assert(rows[at] == settled[at]);
    assert forall|j: int, k: int|
        0 <= j < rows.len() && 0 <= k < rows.len() && (#[trigger] rows[j]).source
            == RowSourceView::Settled(i) && (#[trigger] rows[k]).source == RowSourceView::Settled(
            i,
        ) implies j == k by {
        assert(j < settled.len() && k < settled.len());
        assert(settled[j].index == i && settled[k].index == i);
        if j < k {
            assert(settled[j].index < settled[k].index);
        }
        if k < j {
            assert(settled[k].index < settled[j].index);
        }
    }
}

proof fn lemma_settled_sources(items: Seq<ItemView>, n: int)
    requires
        0 <= n <= items.len(),
    ensures
        forall|k: int|
            0 <= k < settled_rows(items, n).0.len() ==> ((#[trigger] settled_rows(
                items,
                n,
            ).0[k]).source matches RowSourceView::Settled(i) ==> i == settled_rows(items, n).0[k].index),
        forall|k: int|
            0 <= k < settled_rows(items, n).0.len() ==> ((#[trigger] settled_rows(
                items,
                n,
            ).0[k]).source matches RowSourceView::Owned(item) ==> item is Reasoning),
    decreases n,
{
    if n > 0 {
        lemma_settled_sources(items, n - 1);
    }
}

/// A card of todos and a call of the tool `todo` have no row: the list above the transcript
/// stands for them.
pub proof fn todos_have_no_row(
    items: Seq<ItemView>,
    reasoning: Seq<char>,
    response: Seq<char>,
    k: int,
)
    requires
        items.len() < usize::MAX - 1,
        0 <= k < shown_rows(items, reasoning, response).len(),
        shown_rows(items, reasoning, response)[k].index < items.len(),
    ensures
        ({
            let item = items[shown_rows(items, reasoning, response)[k].index];
            !(item is Todos) && (item is Tool ==> item->name != "todo"@)
        }),
        shown_rows(items, reasoning, response)[k].index >= 0,
{
    rows_follow_the_items(items, items.len() as int);
    let settled = settled_rows(items, items.len() as int).0;
    let rows = shown_rows(items, reasoning, response);
    if k < settled.len() {
        assert(rows[k] == settled[k]);
    }
}

/// What streams in stands last, below everything that has settled: first the reasoning,
/// then the response, each in a row of its own where there is any of it.
pub proof fn what_streams_in_stands_last(
    items: Seq<ItemView>,
    reasoning: Seq<char>,
    response: Seq<char>,
)
    ensures
        ({
            let settled = shown_rows(items, Seq::empty(), Seq::empty());
            let rows = shown_rows(items, reasoning, response);
            let n = settled.len() as int;
            let thinks = if reasoning.len() > 0 {
                1int
            } else {
                0
            };
            let speaks = if response.len() > 0 {
                1int
            } else {
                0
            };
            &&& rows.len() == n + thinks + speaks
            &&& rows.take(n) == settled
            &&& thinks == 1 ==> rows[n].source == RowSourceView::Owned(
                ItemView::Reasoning(reasoning),
            ) && rows[n].role is None && !rows[n].show_label
            &&& speaks == 1 ==> rows.last().source == RowSourceView::Owned(
                ItemView::Assistant(response),
            ) && rows.last().role == Some(Speaker::Jcode)
        }),
{
    let rows = shown_rows(items, reasoning, response);
    let settled = shown_rows(items, Seq::empty(), Seq::empty());
    assert(rows.take(settled.len() as int) =~= settled);
}

/// The prompts are the user's rows and the responses are Jcode's; no other settled row has
/// a speaker.
pub proof fn rows_are_spoken_by_their_authors(
    items: Seq<ItemView>,
    reasoning: Seq<char>,
    response: Seq<char>,
    k: int,
)
    requires
        0 <= k < shown_rows(items, reasoning, response).len(),
        shown_rows(items, reasoning, response)[k].source is Settled,
    ensures
        ({
            let row = shown_rows(items, reasoning, response)[k];
            let item = items[row.source->Settled_0];
            &&& item is User <==> row.role == Some(Speaker::You)
            &&& item is Assistant <==> row.role == Some(Speaker::Jcode)
        }),
{
    lemma_spoken(items, items.len() as int);
    let settled = settled_rows(items, items.len() as int).0;
    assert(k < settled.len());
    assert(shown_rows(items, reasoning, response)[k] == settled[k]);
}

proof fn lemma_spoken(items: Seq<ItemView>, n: int)
    requires
        0 <= n <= items.len(),
    ensures
        forall|k: int|
            0 <= k < settled_rows(items, n).0.len() ==> ((#[trigger] settled_rows(
                items,
                n,
            ).0[k]).source matches RowSourceView::Settled(i) ==> {
                &&& items[i] is User <==> settled_rows(items, n).0[k].role == Some(Speaker::You)
                &&& items[i] is Assistant <==> settled_rows(items, n).0[k].role == Some(
                    Speaker::Jcode,
                )
            }),
    decreases n,
{
    if n > 0 {
        lemma_spoken(items, n - 1);
    }
}

/// A caption stands where the speaker changes and nowhere else: on the first row that is
/// spoken, and on a row whose speaker is another than that of the last row spoken before it.
pub proof fn captions_mark_the_speaker(
    items: Seq<ItemView>,
    reasoning: Seq<char>,
    response: Seq<char>,
    j: int,
    k: int,
)
    requires
        0 <= k < shown_rows(items, reasoning, response).len(),
        -1 <= j < k,
        j >= 0 ==> shown_rows(items, reasoning, response)[j].role is Some,
        forall|m: int|
            j < m < k ==> (#[trigger] shown_rows(items, reasoning, response)[m]).role is None,
    ensures
        ({
            let rows = shown_rows(items, reasoning, response);
            rows[k].show_label <==> rows[k].role is Some && (j == -1 || rows[j].role
                != rows[k].role)
        }),
{
    let settled = settled_rows(items, items.len() as int);
    lemma_captions(items, items.len() as int);
    let thinking = if reasoning.len() > 0 {
        with_row(
            settled,
            usize::MAX - 1,
            RowSourceView::Owned(ItemView::Reasoning(reasoning)),
            None,
        )
    } else {
        settled
    };
    lemma_captioned_row(
        settled,
        usize::MAX - 1,
        RowSourceView::Owned(ItemView::Reasoning(reasoning)),
        None,
    );
    lemma_captioned_row(
        thinking,
        usize::MAX as int,
        RowSourceView::Owned(ItemView::Assistant(response)),
        Some(Speaker::Jcode),
    );
    let rows = shown_rows(items, reasoning, response);
    assert(is_captioned(rows, k));
    let q = last_spoken(rows, k);
    lemma_last_spoken(rows, k);
    if j >= 0 && q < j {
        assert(rows[j].role is None);
    }
    if q > j {
        assert(rows[q].role is None);
    }
}

/// The last row below `k` that is spoken, else -1.
spec fn last_spoken(rows: Seq<RowView>, k: int) -> int
    decreases k,
{
    if k <= 0 {
        -1
    } else if rows[k - 1].role is Some {
        k - 1
    } else {
        last_spoken(rows, k - 1)
    }
}

spec fn is_captioned(rows: Seq<RowView>, k: int) -> bool {
    rows[k].show_label <==> rows[k].role is Some && (last_spoken(rows, k) == -1
        || rows[last_spoken(rows, k)].role != rows[k].role)
}

spec fn are_captioned(rows: (Seq<RowView>, Option<Speaker>)) -> bool {
    &&& forall|k: int| 0 <= k < rows.0.len() ==> #[trigger] is_captioned(rows.0, k)
    &&& rows.1 == (if last_spoken(rows.0, rows.0.len() as int) == -1 {
        None
    } else {
        rows.0[last_spoken(rows.0, rows.0.len() as int)].role
    })
}

proof fn lemma_last_spoken(rows: Seq<RowView>, k: int)
    requires
        0 <= k <= rows.len(),
    ensures
        -1 <= last_spoken(rows, k) < k,
        last_spoken(rows, k) >= 0 ==> rows[last_spoken(rows, k)].role is Some,
        forall|m: int| last_spoken(rows, k) < m < k ==> (#[trigger] rows[m]).role is None,
    decreases k,
{
    if k > 0 && rows[k - 1].role is None {
        lemma_last_spoken(rows, k - 1);
    }
}

/// Rows that agree on who speaks agree on who spoke last.
proof fn lemma_same_spoken(a: Seq<RowView>, b: Seq<RowView>, k: int)
    requires
        0 <= k <= a.len(),
        k <= b.len(),
        forall|m: int| 0 <= m < k ==> (#[trigger] a[m]).role == b[m].role,
    ensures
        last_spoken(a, k) == last_spoken(b, k),
    decreases k,
{
    if k > 0 {
        assert(a[k - 1].role == b[k - 1].role);
        lemma_same_spoken(a, b, k - 1);
    }
}

proof fn lemma_captioned_row(
    rows: (Seq<RowView>, Option<Speaker>),
    index: int,
    source: RowSourceView,
    role: Option<Speaker>,
)
    requires
        are_captioned(rows),
    ensures
        are_captioned(with_row(rows, index, source, role)),
{
    let after = with_row(rows, index, source, role);
    let n = rows.0.len() as int;
    lemma_last_spoken(rows.0, n);
    lemma_same_spoken(rows.0, after.0, n);
    assert forall|k: int| 0 <= k < after.0.len() implies #[trigger] is_captioned(after.0, k) by {
        lemma_same_spoken(rows.0, after.0, if k < n {
            k
        } else {
            n
        });
        if k < n {
            assert(is_captioned(rows.0, k));
            lemma_last_spoken(rows.0, k);
        }
    }
}

proof fn lemma_captions(items: Seq<ItemView>, n: int)
    requires
        0 <= n <= items.len(),
    ensures
        are_captioned(settled_rows(items, n)),
    decreases n,
{
    if n > 0 {
        lemma_captions(items, n - 1);
        let before = settled_rows(items, n - 1);
        let after = settled_rows(items, n);
        let item = items[n - 1];
        if is_hidden(item) {
        } else if item is Reasoning && before.0.len() > 0 && row_reasoning(before.0.last(), items)
            is Some {
            assert forall|k: int| 0 <= k < after.0.len() implies #[trigger] is_captioned(
                after.0,
                k,
            ) by {
                assert(is_captioned(before.0, k));
                lemma_same_spoken(before.0, after.0, k);
                lemma_last_spoken(before.0, k);
            }
            lemma_same_spoken(before.0, after.0, after.0.len() as int);
            lemma_last_spoken(before.0, before.0.len() as int);
        } else {
            lemma_captioned_row(before, n - 1, RowSourceView::Settled(n - 1), speaker(item));
        }
    }
}

/// No reasoning is lost in the rows: the row that a piece of reasoning stands in shows it,
/// word for word, within what it shows.
pub proof fn reasoning_is_shown_in_full(items: Seq<ItemView>, n: int, i: int) -> (at: int)
    requires
        0 <= i < n <= items.len(),
        items[i] is Reasoning,
    ensures
        ({
            let rows = settled_rows(items, n).0;
            let piece = items[i]->Reasoning_0;
            let k = row_at(items, i);
            &&& 0 <= k < rows.len()
            &&& row_reasoning(rows[k], items) matches Some(shown) && 0 <= at && at + piece.len()
                <= shown.len() && shown.subrange(at, at + piece.len()) == piece
        }),
    decreases n,
{
    let rows = settled_rows(items, n).0;
    let piece = items[i]->Reasoning_0;
    every_shown_item_has_one_row(items, n, i);
    lemma_settled_sources(items, n - 1);
    let before = settled_rows(items, n - 1).0;
    if i == n - 1 {
        let k = row_at(items, i);
        let shown = row_reasoning(rows[k], items)->0;
        if before.len() > 0 && row_reasoning(before.last(), items) is Some {
            joined_reasoning_keeps_both(row_reasoning(before.last(), items)->0, piece);
        }
        assert(shown.subrange(shown.len() - piece.len(), shown.len() as int) =~= shown.skip(
            shown.len() - piece.len(),
        ));
        assert(piece.skip(0) =~= piece);
        shown.len() - piece.len()
    } else {
        let at = reasoning_is_shown_in_full(items, n - 1, i);
        let k = row_at(items, i);
        let old_shown = row_reasoning(before[k], items)->0;
        let shown = row_reasoning(rows[k], items)->0;
        if rows[k] != before[k] {
            joined_reasoning_keeps_both(old_shown, items[n - 1]->Reasoning_0);
            assert(shown.subrange(at, at + piece.len()) =~= shown.take(
                old_shown.len() as int,
            ).subrange(at, at + piece.len()));
        }
        at
    }
}

/// Joining neighbouring reasoning changes no other row: the rest stay, in their order.
pub proof fn joining_reasoning_keeps_the_rest(rows: Seq<(int, ItemView)>)
    ensures
        coalesced(rows).filter(|r: (int, ItemView)| !(r.1 is Reasoning)) == rows.filter(
            |r: (int, ItemView)| !(r.1 is Reasoning),
        ),
        coalesced(rows).len() <= rows.len(),
        rows.len() > 0 ==> coalesced(rows).len() > 0 && coalesced(rows)[0].0 == rows[0].0,
    decreases rows.len(),
{
    let keep = |r: (int, ItemView)| !(r.1 is Reasoning);
    if rows.len() > 0 {
        joining_reasoning_keeps_the_rest(rows.drop_last());
        let before = coalesced(rows.drop_last());
        let after = coalesced(rows);
        let row = rows.last();
        reveal(Seq::filter);
        assert(rows.filter(keep) =~= if keep(row) {
            rows.drop_last().filter(keep).push(row)
        } else {
            rows.drop_last().filter(keep)
        });
        if before.len() > 0 && before.last().1 is Reasoning && row.1 is Reasoning {
            assert(after.drop_last() =~= before.drop_last());
        } else {
            assert(after.drop_last() =~= before);
        }
    }
}

/// Rows without neighbouring reasoning are left as they are.
pub proof fn only_neighbouring_reasoning_is_joined(rows: Seq<(int, ItemView)>)
    requires
        forall|k: int|
            0 <= k < rows.len() - 1 ==> !((#[trigger] rows[k]).1 is Reasoning && rows[k
                + 1].1 is Reasoning),
    ensures
        coalesced(rows) == rows,
    decreases rows.len(),
{
    if rows.len() > 0 {
        let fewer = rows.drop_last();
        assert forall|k: int| 0 <= k < fewer.len() - 1 implies !((#[trigger] fewer[k]).1 is Reasoning
            && fewer[k + 1].1 is Reasoning) by {
            assert(fewer[k] == rows[k] && fewer[k + 1] == rows[k + 1]);
        }
        only_neighbouring_reasoning_is_joined(fewer);
        if rows.len() > 1 {
            assert(!(rows[rows.len() - 2].1 is Reasoning && rows[rows.len() - 1].1 is Reasoning));
        }
        assert(fewer.push(rows.last()) =~= rows);
    }
}

/// What changed is measured again: every row where items, rows or fonts are others or the
/// transcript is dirty; at most the last three where only the stream has grown. The rows
/// to measure reach to the end.
pub proof fn what_changed_is_measured_again(
    measured: MeasuredView,
    item_count: usize,
    row_count: usize,
    streaming_lengths: (usize, usize),
    fonts: (Seq<char>, Seq<char>, Seq<char>),
)
    ensures
        ({
            let stale = stale_rows(measured, item_count, row_count, streaming_lengths, fonts);
            let settled = !measured.dirty && measured.item_count == item_count
                && measured.row_count == row_count && measured.fonts == Some(fonts);
            &&& stale matches Some((from, to)) ==> 0 <= from < to && to == row_count
            &&& !settled && row_count > 0 ==> stale == Some((0int, row_count as int))
            &&& settled && measured.streaming_lengths != streaming_lengths && row_count > 0 ==> (
            stale matches Some((from, to)) && (to - from == 3 || (from == 0 && to < 3)))
            &&& settled && measured.streaming_lengths == streaming_lengths ==> stale is None
        }),
{
}

/// An accepted prompt has the time of its last acceptance, and no other prompt's time
/// changes.
pub proof fn times_are_kept_by_prompt(accepted: Seq<(int, u64)>, index: int, at: u64)
    ensures
        with_time(accepted, index, at).contains((index, at)),
        forall|e: (int, u64)|
            e.0 != index ==> (with_time(accepted, index, at).contains(e) <==> accepted.contains(e)),
        accepted.len() <= with_time(accepted, index, at).len() <= accepted.len() + 1,
        (forall|k: int| 0 <= k < accepted.len() ==> (#[trigger] accepted[k]).0 != index)
            ==> with_time(accepted, index, at) == accepted.push((index, at)),
        (exists|k: int| 0 <= k < accepted.len() && (#[trigger] accepted[k]).0 == index)
            ==> with_time(accepted, index, at).len() == accepted.len(),
    decreases accepted.len(),
{
    let after = with_time(accepted, index, at);
    if accepted.len() == 0 {
        assert(after[0] == (index, at));
        assert(after =~= accepted.push((index, at)));
    } else if accepted[0].0 == index {
        assert(after[0] == (index, at));
        assert forall|e: (int, u64)| e.0 != index implies (after.contains(e) <==> accepted.contains(
            e,
        )) by {
            if after.contains(e) {
                let k = after.index_of(e);
                assert(accepted[k] == e);
            }
            if accepted.contains(e) {
                let k = accepted.index_of(e);
                assert(after[k] == e);
            }
        }
    } else {
        let rest = accepted.drop_first();
        times_are_kept_by_prompt(rest, index, at);
        let tail = with_time(rest, index, at);
        let t = tail.index_of((index, at));
        assert(after[t + 1] == (index, at));
        assert forall|e: (int, u64)| e.0 != index implies (after.contains(e) <==> accepted.contains(
            e,
        )) by {
            if after.contains(e) {
                let k = after.index_of(e);
                if k > 0 {
                    assert(tail[k - 1] == e);
                    assert(rest.contains(e));
                    let m = rest.index_of(e);
                    assert(accepted[m + 1] == e);
                } else {
                    assert(accepted[0] == e);
                }
            }
            if accepted.contains(e) {
                let k = accepted.index_of(e);
                if k > 0 {
                    assert(rest[k - 1] == e);
                    assert(rest.contains(e));
                    assert(tail.contains(e));
                    let m = tail.index_of(e);
                    assert(after[m + 1] == e);
                } else {
                    assert(after[0] == e);
                }
            }
        }
        if forall|k: int| 0 <= k < accepted.len() ==> (#[trigger] accepted[k]).0 != index {
            assert forall|k: int| 0 <= k < rest.len() implies (#[trigger] rest[k]).0 != index by {
                assert(accepted[k + 1].0 != index);
            }
            assert(after =~= accepted.push((index, at)));
        }
        if exists|k: int| 0 <= k < accepted.len() && (#[trigger] accepted[k]).0 == index {
            let k = choose|k: int| 0 <= k < accepted.len() && (#[trigger] accepted[k]).0 == index;
            assert(rest[k - 1].0 == index);
        }
    }
}

} // verus!
