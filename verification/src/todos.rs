//! The agent's own list of todos, as its tool prints it and as the panel shows it.
use vstd::prelude::*;

use crate::events::copy_text;
use crate::json;
use crate::json::{parse_json, read_field, skip_leading, split_elements, split_fields, Json};
use crate::order;
use crate::text;
use crate::text::{among, chars_of, joined, same, strip_prefix, trimmed, trimmed_start};

verus! {

/// One entry of the list.
#[derive(Debug, PartialEq, Eq)]
pub struct TodoCardItem {
    pub content: String,
    pub status: String,
    pub group: Option<String>,
    pub blocked_by: Vec<String>,
}

/// What the list is for.
#[derive(Debug, PartialEq, Eq)]
pub struct TodoCardPlan {
    pub user_intention: Option<String>,
}

/// The list and its plan.
#[derive(Debug, PartialEq, Eq)]
pub struct TodoCardPayload {
    pub todos: Vec<TodoCardItem>,
    pub plan: TodoCardPlan,
}

#[verifier::ext_equal]
pub struct CardView {
    pub content: Seq<char>,
    pub status: Seq<char>,
    pub group: Option<Seq<char>>,
    pub blocked_by: Seq<Seq<char>>,
}

#[verifier::ext_equal]
pub struct PayloadView {
    pub todos: Seq<CardView>,
    pub user_intention: Option<Seq<char>>,
}

impl View for TodoCardItem {
    type V = CardView;

    open spec fn view(&self) -> CardView {
        CardView {
            content: self.content@,
            status: self.status@,
            group: text::text_option(self.group),
            blocked_by: text::texts(self.blocked_by@),
        }
    }
}

impl View for TodoCardPayload {
    type V = PayloadView;

    open spec fn view(&self) -> PayloadView {
        PayloadView {
            todos: card_views(self.todos@),
            user_intention: text::text_option(self.plan.user_intention),
        }
    }
}

pub open spec fn card_views(v: Seq<TodoCardItem>) -> Seq<CardView> {
    v.map_values(|t: TodoCardItem| t@)
}

impl TodoCardPayload {
    /// An empty list without a plan.
    pub fn empty() -> (r: TodoCardPayload)
        ensures
            r@ == (PayloadView { todos: Seq::empty(), user_intention: None }),
    {
        let r = TodoCardPayload {
            todos: Vec::new(),
            plan: TodoCardPlan { user_intention: None },
        };
        assert(r@.todos =~= Seq::empty());
        r
    }

    /// A copy of the list and its plan.
    pub fn copy(&self) -> (r: TodoCardPayload)
        ensures
            r@ == self@,
    {
        let mut todos: Vec<TodoCardItem> = Vec::new();
        let mut i: usize = 0;
        while i < self.todos.len()
            invariant
                0 <= i <= self.todos@.len(),
                todos@.len() == i,
                forall|k: int| 0 <= k < i ==> (#[trigger] todos@[k])@ == self.todos@[k]@,
            decreases self.todos@.len() - i,
        {
            let todo = &self.todos[i];
            let kept = TodoCardItem {
                content: todo.content.clone(),
                status: todo.status.clone(),
                group: copy_text(&todo.group),
                blocked_by: copy_texts(&todo.blocked_by),
            };
            assert(kept@ =~= todo@);
            todos.push(kept);
            i += 1;
        }
        assert(card_views(todos@) =~= card_views(self.todos@));
        TodoCardPayload {
            todos,
            plan: TodoCardPlan { user_intention: copy_text(&self.plan.user_intention) },
        }
    }
}

fn copy_texts(v: &Vec<String>) -> (r: Vec<String>)
    ensures
        text::texts(r@) == text::texts(v@),
{
    let mut r: Vec<String> = Vec::new();
    let mut i: usize = 0;
    while i < v.len()
        invariant
            0 <= i <= v@.len(),
            r@.len() == i,
            forall|k: int| 0 <= k < i ==> #[trigger] r@[k] == v@[k],
        decreases v@.len() - i,
    {
        r.push(v[i].clone());
        i += 1;
    }
    assert(text::texts(r@) =~= text::texts(v@));
    r
}

/// A text that may be missing or null. `None` where it is neither that nor a text.
pub open spec fn optional_text(value: Option<json::JsonView>) -> Option<Option<Seq<char>>> {
    match value {
        None => Some(None),
        Some(json::JsonView::Null) => Some(None),
        Some(json::JsonView::Text(s)) => Some(Some(s)),
        _ => None,
    }
}

/// The texts of an array that holds nothing else.
pub open spec fn text_items(items: Seq<json::JsonView>) -> Option<Seq<Seq<char>>>
    decreases items.len(),
{
    if items.len() == 0 {
        Some(Seq::empty())
    } else {
        match (text_items(items.drop_last()), items.last().text()) {
            (Some(before), Some(s)) => Some(before.push(s)),
            _ => None,
        }
    }
}

/// A list of texts that may be missing.
pub open spec fn optional_texts(value: Option<json::JsonView>) -> Option<Seq<Seq<char>>> {
    match value {
        None => Some(Seq::empty()),
        Some(json::JsonView::Array(items)) => text_items(items),
        _ => None,
    }
}

/// The fields of an entry as it is written: by their names in an object, where none of
/// them may occur twice, by their places in an array.
pub open spec fn entry_fields(entry: Seq<char>) -> Option<
    (
        Option<json::JsonView>,
        Option<json::JsonView>,
        Option<json::JsonView>,
        Option<json::JsonView>,
    ),
> {
    if json::opens(entry, '{') {
        match json::fields(entry) {
            Some(fields) => match (
                json::field_json(fields, "content"@),
                json::field_json(fields, "status"@),
                json::field_json(fields, "group"@),
                json::field_json(fields, "blocked_by"@),
            ) {
                (Some(content), Some(status), Some(group), Some(blocked_by)) => Some(
                    (content, status, group, blocked_by),
                ),
                _ => None,
            },
            None => None,
        }
    } else {
        match json::json_text(entry) {
            Some(json::JsonView::Array(items)) => if items.len() <= 4 {
                Some((place(items, 0), place(items, 1), place(items, 2), place(items, 3)))
            } else {
                None
            },
            _ => None,
        }
    }
}

pub open spec fn place(items: Seq<json::JsonView>, i: int) -> Option<json::JsonView> {
    if i < items.len() {
        Some(items[i])
    } else {
        None
    }
}

/// The entry that four fields make up: it has a content and a status.
pub open spec fn card_in(
    content: Option<json::JsonView>,
    status: Option<json::JsonView>,
    group: Option<json::JsonView>,
    blocked_by: Option<json::JsonView>,
) -> Option<CardView> {
    match (content, status, optional_text(group), optional_texts(blocked_by)) {
        (
            Some(json::JsonView::Text(content)),
            Some(json::JsonView::Text(status)),
            Some(group),
            Some(blocked_by),
        ) => Some(CardView { content, status, group, blocked_by }),
        _ => None,
    }
}

/// The entry that a written value describes.
pub open spec fn card_of(entry: Seq<char>) -> Option<CardView> {
    match entry_fields(entry) {
        Some((content, status, group, blocked_by)) => card_in(content, status, group, blocked_by),
        None => None,
    }
}

/// The entries of a list, each of which describes one.
pub open spec fn cards_of(entries: Seq<Seq<char>>) -> Option<Seq<CardView>>
    decreases entries.len(),
{
    if entries.len() == 0 {
        Some(Seq::empty())
    } else {
        match (cards_of(entries.drop_last()), card_of(entries.last())) {
            (Some(before), Some(card)) => Some(before.push(card)),
            _ => None,
        }
    }
}

/// The intention that a written plan states: by its name in an object, where it may not
/// occur twice, as the only item of an array.
pub open spec fn intention_of(plan: Seq<char>) -> Option<Seq<char>> {
    let stated = if json::opens(plan, '{') {
        match json::fields(plan) {
            Some(fields) => match json::field_json(fields, "user_intention"@) {
                Some(value) => optional_text(value),
                None => None,
            },
            None => None,
        }
    } else {
        match json::json_text(plan) {
            Some(json::JsonView::Array(items)) => if items.len() == 1 {
                optional_text(Some(items[0]))
            } else {
                None
            },
            _ => None,
        }
    };
    match stated {
        Some(intention) => intention,
        None => None,
    }
}

fn read_optional(value: Option<&Json>) -> (r: Option<Option<String>>)
    ensures
        match r {
            Some(s) => optional_text(json::json_ref(value)) == Some(text::text_option(s)),
            None => optional_text(json::json_ref(value)) is None,
        },
{
    match value {
        None => Some(None),
        Some(Json::Null) => Some(None),
        Some(Json::Text(s)) => Some(Some(s.clone())),
        _ => None,
    }
}

fn read_texts(value: Option<&Json>) -> (r: Option<Vec<String>>)
    ensures
        match r {
            Some(v) => optional_texts(json::json_ref(value)) == Some(text::texts(v@)),
            None => optional_texts(json::json_ref(value)) is None,
        },
{
    let mut r: Vec<String> = Vec::new();
    assert(text::texts(r@) =~= Seq::empty());
    match value {
        None => Some(r),
        Some(given) => match given.as_items() {
            Some(items) => {
                let ghost all = json::json_views(items@);
                let mut i: usize = 0;
                while i < items.len()
                    invariant
                        0 <= i <= items@.len(),
                        all == json::json_views(items@),
                        value == Some(given),
                        given@.items() == Some(all),
                        text_items(all.take(i as int)) == Some(text::texts(r@)),
                    decreases items@.len() - i,
                {
                    assert(all.take(i + 1).drop_last() == all.take(i as int));
                    assert(all.take(i + 1).last() == items@[i as int]@);
                    match items[i].as_text() {
                        Some(s) => {
                            let ghost before = text::texts(r@);
                            r.push(s.clone());
                            assert(text::texts(r@) =~= before.push(s@));
                        },
                        None => {
                            proof {
                                lemma_text_items(all, i + 1);
                            }
                            return None;
                        },
                    }
                    i += 1;
                }
                assert(all.take(i as int) == all);
                Some(r)
            },
            None => None,
        },
    }
}

proof fn lemma_text_items(items: Seq<json::JsonView>, n: int)
    requires
        0 <= n <= items.len(),
        text_items(items.take(n)) is None,
    ensures
        text_items(items) is None,
    decreases items.len() - n,
{
    if n < items.len() {
        assert(items.take(n + 1).drop_last() == items.take(n));
        lemma_text_items(items, n + 1);
    } else {
        assert(items.take(n) == items);
    }
}

fn at_place(items: &Vec<Json>, i: usize) -> (r: Option<&Json>)
    ensures
        json::json_ref(r) == place(json::json_views(items@), i as int),
{
    if i < items.len() {
        Some(&items[i])
    } else {
        None
    }
}

/// The entry that four fields make up.
pub fn card_from(
    content: Option<&Json>,
    status: Option<&Json>,
    group: Option<&Json>,
    blocked_by: Option<&Json>,
) -> (r: Option<TodoCardItem>)
    ensures
        match r {
            Some(card) => card_in(
                json::json_ref(content),
                json::json_ref(status),
                json::json_ref(group),
                json::json_ref(blocked_by),
            ) == Some(card@),
            None => card_in(
                json::json_ref(content),
                json::json_ref(status),
                json::json_ref(group),
                json::json_ref(blocked_by),
            ) is None,
        },
{
    match (content, status) {
        (Some(Json::Text(content)), Some(Json::Text(status))) => match (
            read_optional(group),
            read_texts(blocked_by),
        ) {
            (Some(group), Some(blocked_by)) => Some(
                TodoCardItem { content: content.clone(), status: status.clone(), group, blocked_by },
            ),
            _ => None,
        },
        _ => None,
    }
}

fn opens_with(s: &str, c: char) -> (r: bool)
    ensures
        r == json::opens(s@, c),
{
    let v = chars_of(s);
    v.len() > 0 && v[0] == c
}

fn read_card(entry: &str) -> (r: Option<TodoCardItem>)
    ensures
        match r {
            Some(card) => card_of(entry@) == Some(card@),
            None => card_of(entry@) is None,
        },
{
    if opens_with(entry, '{') {
        let fields = match split_fields(entry) {
            Some(fields) => fields,
            None => return None,
        };
        match (
            read_field(&fields, "content"),
            read_field(&fields, "status"),
            read_field(&fields, "group"),
            read_field(&fields, "blocked_by"),
        ) {
            (Some(content), Some(status), Some(group), Some(blocked_by)) => card_from(
                content.as_ref(),
                status.as_ref(),
                group.as_ref(),
                blocked_by.as_ref(),
            ),
            _ => None,
        }
    } else {
        match parse_json(entry) {
            Some(value) => match value.as_items() {
                Some(items) => if items.len() <= 4 {
                    card_from(
                        at_place(items, 0),
                        at_place(items, 1),
                        at_place(items, 2),
                        at_place(items, 3),
                    )
                } else {
                    None
                },
                None => None,
            },
            None => None,
        }
    }
}

proof fn lemma_cards_of(entries: Seq<Seq<char>>, n: int)
    requires
        0 <= n <= entries.len(),
        cards_of(entries.take(n)) is None,
    ensures
        cards_of(entries) is None,
    decreases entries.len() - n,
{
    if n < entries.len() {
        assert(entries.take(n + 1).drop_last() == entries.take(n));
        lemma_cards_of(entries, n + 1);
    } else {
        assert(entries.take(n) == entries);
    }
}

fn read_cards(entries: &Vec<String>) -> (r: Option<Vec<TodoCardItem>>)
    ensures
        match r {
            Some(cards) => cards_of(text::texts(entries@)) == Some(card_views(cards@)),
            None => cards_of(text::texts(entries@)) is None,
        },
{
    let ghost all = text::texts(entries@);
    let mut cards: Vec<TodoCardItem> = Vec::new();
    assert(card_views(cards@) =~= Seq::empty());
    let mut i: usize = 0;
    while i < entries.len()
        invariant
            0 <= i <= entries@.len(),
            all == text::texts(entries@),
            cards_of(all.take(i as int)) == Some(card_views(cards@)),
        decreases entries@.len() - i,
    {
        assert(all.take(i + 1).drop_last() == all.take(i as int));
        assert(all.take(i + 1).last() == entries@[i as int]@);
        match read_card(entries[i].as_str()) {
            Some(card) => {
                let ghost before = card_views(cards@);
                let ghost added = card@;
                cards.push(card);
                assert(card_views(cards@) =~= before.push(added));
            },
            None => {
                proof {
                    lemma_cards_of(all, i + 1);
                }
                return None;
            },
        }
        i += 1;
    }
    assert(all.take(i as int) == all);
    Some(cards)
}

fn read_intention(plan: &str) -> (r: Option<String>)
    ensures
        text::text_option(r) == intention_of(plan@),
{
    let stated = if opens_with(plan, '{') {
        match split_fields(plan) {
            Some(fields) => match read_field(&fields, "user_intention") {
                Some(value) => read_optional(value.as_ref()),
                None => None,
            },
            None => None,
        }
    } else {
        match parse_json(plan) {
            Some(value) => match value.as_items() {
                Some(items) => if items.len() == 1 {
                    read_optional(Some(&items[0]))
                } else {
                    None
                },
                None => None,
            },
            None => None,
        }
    };
    match stated {
        Some(intention) => intention,
        None => None,
    }
}

/// The plan, as it is written, that follows the list in the tool's output.
pub open spec fn plan_behind(rest: Seq<char>) -> Option<Seq<char>> {
    match text::behind(text::trim_start(rest), "Plan:"@) {
        Some(section) => match json::leading_span(text::trim_start(section)) {
            Some((plan, _)) => Some(plan),
            None => None,
        },
        None => None,
    }
}

/// The list and plan that the tool's output holds: the array first, then a section that
/// starts with `Plan:`.
pub open spec fn printed(output: Seq<char>) -> Option<PayloadView> {
    match json::leading_span(text::trim_start(output)) {
        Some((list, rest)) => match json::elements(list) {
            Some(entries) => match cards_of(entries) {
                Some(todos) => Some(
                    PayloadView {
                        todos,
                        user_intention: match plan_behind(rest) {
                            Some(plan) => intention_of(plan),
                            None => None,
                        },
                    },
                ),
                None => None,
            },
            None => None,
        },
        None => None,
    }
}

fn find_plan(rest: &str) -> (r: Option<String>)
    ensures
        text::text_option(r) == plan_behind(rest@),
{
    match strip_prefix(trimmed_start(rest).as_str(), "Plan:") {
        Some(section) => match skip_leading(trimmed_start(section.as_str()).as_str()) {
            Some((plan, _)) => Some(plan),
            None => None,
        },
        None => None,
    }
}

/// Reads the todo tool's output. A field that an entry does not have is passed over,
/// whatever it holds; one that it has may stand there only once.
pub fn parse_todo_tool_output(output: &str) -> (r: Option<TodoCardPayload>)
    ensures
        match r {
            Some(payload) => printed(output@) == Some(payload@),
            None => printed(output@) is None,
        },
{
    let (list, rest) = match skip_leading(trimmed_start(output).as_str()) {
        Some(found) => found,
        None => return None,
    };
    let todos = match split_elements(list.as_str()) {
        Some(entries) => match read_cards(&entries) {
            Some(todos) => todos,
            None => return None,
        },
        None => return None,
    };
    let user_intention = match find_plan(rest.as_str()) {
        Some(plan) => read_intention(plan.as_str()),
        None => None,
    };
    Some(TodoCardPayload { todos, plan: TodoCardPlan { user_intention } })
}

/// The tones in which marks are painted.
#[derive(Clone, Copy, PartialEq, Eq, Debug, Structural)]
pub enum Tone {
    Good,
    Warn,
    Bad,
    Accent,
    AiAccent,
    UserAccent,
    Faint,
}

/// The tone of a todo's mark: blocked work warns until it is completed.
pub fn todo_status_color(todo: &TodoCardItem) -> (r: Tone)
    ensures
        r == (if todo@.blocked_by.len() > 0 && todo@.status != "completed"@ {
            Tone::Warn
        } else if todo@.status == "completed"@ {
            Tone::Good
        } else if todo@.status == "in_progress"@ {
            Tone::Accent
        } else if todo@.status == "cancelled"@ {
            Tone::Bad
        } else {
            Tone::Faint
        }),
{
    let status = todo.status.as_str();
    if todo.blocked_by.len() > 0 && !same(status, "completed") {
        Tone::Warn
    } else if same(status, "completed") {
        Tone::Good
    } else if same(status, "in_progress") {
        Tone::Accent
    } else if same(status, "cancelled") {
        Tone::Bad
    } else {
        Tone::Faint
    }
}

/// The number of dots that the pinned line shows at most.
pub const PINNED_TODO_DOT_LIMIT: usize = 8;

/// The pinned line's figures.
#[derive(Debug, PartialEq, Eq)]
pub struct PinnedTodoSummary {
    pub completed: usize,
    pub total: usize,
    pub current: Option<String>,
    pub dots: Vec<bool>,
}

/// The todos that were not cancelled.
pub open spec fn active(todos: Seq<CardView>) -> Seq<CardView>
    decreases todos.len(),
{
    if todos.len() == 0 {
        todos
    } else if todos.last().status == "cancelled"@ {
        active(todos.drop_last())
    } else {
        active(todos.drop_last()).push(todos.last())
    }
}

/// The number of completed todos.
pub open spec fn completed(todos: Seq<CardView>) -> nat
    decreases todos.len(),
{
    if todos.len() == 0 {
        0
    } else {
        completed(todos.drop_last()) + if todos.last().status == "completed"@ {
            1nat
        } else {
            0
        }
    }
}

/// The content of the first todo from `from` on with the given status.
pub open spec fn first_with(todos: Seq<CardView>, status: Seq<char>, from: int) -> Option<Seq<char>>
    decreases todos.len() - from,
{
    if from < 0 || from >= todos.len() {
        None
    } else if todos[from].status == status {
        Some(todos[from].content)
    } else {
        first_with(todos, status, from + 1)
    }
}

/// What is being done, else what comes next.
pub open spec fn current(todos: Seq<CardView>) -> Option<Seq<char>> {
    match first_with(todos, "in_progress"@, 0) {
        Some(content) => Some(content),
        None => first_with(todos, "pending"@, 0),
    }
}

/// One dot for each of the first todos: whether it is completed.
pub open spec fn dots(todos: Seq<CardView>) -> Seq<bool> {
    let shown = if todos.len() > PINNED_TODO_DOT_LIMIT {
        todos.take(PINNED_TODO_DOT_LIMIT as int)
    } else {
        todos
    };
    shown.map_values(|t: CardView| t.status == "completed"@)
}

fn find_with(todos: &Vec<TodoCardItem>, status: &str) -> (r: Option<String>)
    ensures
        text::text_option(r) == first_with(card_views(todos@), status@, 0),
{
    let ghost all = card_views(todos@);
    let mut i: usize = 0;
    while i < todos.len()
        invariant
            0 <= i <= todos@.len(),
            all == card_views(todos@),
            first_with(all, status@, 0) == first_with(all, status@, i as int),
        decreases todos@.len() - i,
    {
        assert(all[i as int] == todos@[i as int]@);
        if same(todos[i].status.as_str(), status) {
            return Some(todos[i].content.clone());
        }
        i += 1;
    }
    None
}

proof fn lemma_completed_bound(todos: Seq<CardView>)
    ensures
        completed(todos) <= todos.len(),
    decreases todos.len(),
{
    if todos.len() > 0 {
        lemma_completed_bound(todos.drop_last());
    }
}

/// The figures of the pinned line: cancelled work does not count.
pub fn pinned_todo_summary(payload: &TodoCardPayload) -> (r: PinnedTodoSummary)
    ensures
        r.completed == completed(active(payload@.todos)),
        r.total == active(payload@.todos).len(),
        text::text_option(r.current) == current(payload@.todos),
        r.dots@ == dots(active(payload@.todos)),
{
    let ghost all = payload@.todos;
    let mut done: usize = 0;
    let mut total: usize = 0;
    let mut marks: Vec<bool> = Vec::new();
    let mut i: usize = 0;
    assert(marks@ =~= dots(active(all.take(0))));
    while i < payload.todos.len()
        invariant
            0 <= i <= payload.todos@.len(),
            all == card_views(payload.todos@),
            done == completed(active(all.take(i as int))),
            total == active(all.take(i as int)).len(),
            done <= total <= i,
            marks@ == dots(active(all.take(i as int))),
        decreases payload.todos@.len() - i,
    {
        let todo = &payload.todos[i];
        let ghost before = active(all.take(i as int));
        assert(all.take(i + 1).drop_last() == all.take(i as int));
        assert(all.take(i + 1).last() == todo@);
        if !same(todo.status.as_str(), "cancelled") {
            let finished = same(todo.status.as_str(), "completed");
            assert(before.push(todo@).drop_last() == before);
            if marks.len() < PINNED_TODO_DOT_LIMIT {
                marks.push(finished);
            }
            assert(marks@ =~= dots(before.push(todo@)));
            total += 1;
            if finished {
                done += 1;
            }
        }
        i += 1;
    }
    assert(all.take(i as int) == all);
    let in_progress = find_with(&payload.todos, "in_progress");
    let current = if in_progress.is_some() {
        in_progress
    } else {
        find_with(&payload.todos, "pending")
    };
    PinnedTodoSummary { completed: done, total, current, dots: marks }
}

/// The pinned line never claims more than there is: no more is completed than there are
/// todos, and there are as many dots as todos, up to the limit.
pub proof fn pinned_figures_agree(todos: Seq<CardView>)
    ensures
        completed(active(todos)) <= active(todos).len() <= todos.len(),
        dots(active(todos)).len() <= PINNED_TODO_DOT_LIMIT,
        active(todos).len() <= PINNED_TODO_DOT_LIMIT ==> dots(active(todos)).len() == active(
            todos,
        ).len(),
{
    lemma_completed_bound(active(todos));
    lemma_active_bound(todos);
}

proof fn lemma_active_bound(todos: Seq<CardView>)
    ensures
        active(todos).len() <= todos.len(),
    decreases todos.len(),
{
    if todos.len() > 0 {
        lemma_active_bound(todos.drop_last());
    }
}

/// The group of a todo, where it names one.
pub open spec fn group_of(todo: CardView) -> Option<Seq<char>> {
    match todo.group {
        Some(group) if text::trim(group).len() > 0 => Some(text::trim(group)),
        _ => None,
    }
}

fn own_group(todo: &TodoCardItem) -> (r: Option<String>)
    ensures
        text::text_option(r) == group_of(todo@),
{
    match &todo.group {
        Some(group) => {
            let t = trimmed(group.as_str());
            if t.as_str().is_empty() {
                None
            } else {
                Some(t)
            }
        },
        None => None,
    }
}

/// The groups of the todos, each at its first occurrence.
pub open spec fn group_names(todos: Seq<CardView>) -> Seq<Seq<char>>
    decreases todos.len(),
{
    if todos.len() == 0 {
        Seq::empty()
    } else {
        let before = group_names(todos.drop_last());
        match group_of(todos.last()) {
            Some(group) => if before.contains(group) {
                before
            } else {
                before.push(group)
            },
            None => before,
        }
    }
}

/// The content of the last completed todo that says anything.
pub open spec fn last_completed(todos: Seq<CardView>) -> Option<Seq<char>>
    decreases todos.len(),
{
    if todos.len() == 0 {
        None
    } else if todos.last().status == "completed"@ && text::trim(todos.last().content).len() > 0 {
        Some(text::trim(todos.last().content))
    } else {
        last_completed(todos.drop_last())
    }
}

/// The words of the pinned line: what is being done; nothing, while work is left; and
/// once all is done the names of its groups, its intention, or the last thing done.
pub open spec fn pinned_words(
    payload: PayloadView,
    current: Option<Seq<char>>,
    completed: nat,
    total: nat,
) -> Seq<char> {
    let groups = group_names(active(payload.todos));
    match current {
        Some(content) => content,
        None => if total == 0 || completed != total {
            "No active task"@
        } else if groups.len() > 0 {
            text::join(groups, " · "@)
        } else {
            match payload.user_intention {
                Some(intention) if text::trim(intention).len() > 0 => text::trim(intention),
                _ => match last_completed(payload.todos) {
                    Some(content) => content,
                    None => "Tasks"@,
                },
            }
        },
    }
}

/// The words of the pinned line, by its figures.
pub fn pinned_todo_label(payload: &TodoCardPayload, summary: &PinnedTodoSummary) -> (r: String)
    ensures
        r@ == pinned_words(
            payload@,
            text::text_option(summary.current),
            summary.completed as nat,
            summary.total as nat,
        ),
{
    if let Some(content) = &summary.current {
        return content.clone();
    }
    if summary.total == 0 || summary.completed != summary.total {
        return "No active task".to_owned();
    }
    let ghost all = payload@.todos;
    let mut groups: Vec<String> = Vec::new();
    assert(text::texts(groups@) =~= group_names(active(all.take(0))));
    let mut i: usize = 0;
    while i < payload.todos.len()
        invariant
            0 <= i <= payload.todos@.len(),
            all == card_views(payload.todos@),
            text::texts(groups@) == group_names(active(all.take(i as int))),
        decreases payload.todos@.len() - i,
    {
        let todo = &payload.todos[i];
        let ghost before = active(all.take(i as int));
        let ghost names = text::texts(groups@);
        assert(all.take(i + 1).drop_last() == all.take(i as int));
        assert(all.take(i + 1).last() == todo@);
        if !same(todo.status.as_str(), "cancelled") {
            assert(before.push(todo@).drop_last() == before);
            if let Some(group) = own_group(todo) {
                if !among(&groups, group.as_str()) {
                    let ghost added = group@;
                    groups.push(group);
                    assert(text::texts(groups@) =~= names.push(added));
                }
            }
        }
        i += 1;
    }
    assert(all.take(i as int) == all);
    if groups.len() > 0 {
        return joined(&groups, " · ");
    }
    if let Some(intention) = &payload.plan.user_intention {
        let t = trimmed(intention.as_str());
        if !t.as_str().is_empty() {
            return t;
        }
    }
    let mut n: usize = payload.todos.len();
    while n > 0
        invariant
            n <= payload.todos@.len(),
            all == card_views(payload.todos@),
            all == payload@.todos,
            last_completed(all) == last_completed(all.take(n as int)),
            pinned_words(
                payload@,
                text::text_option(summary.current),
                summary.completed as nat,
                summary.total as nat,
            ) == (match last_completed(all) {
                Some(content) => content,
                None => "Tasks"@,
            }),
        decreases n,
    {
        let todo = &payload.todos[n - 1];
        assert(all.take(n as int).last() == todo@);
        assert(all.take(n as int).drop_last() == all.take(n - 1));
        if same(todo.status.as_str(), "completed") {
            let t = trimmed(todo.content.as_str());
            if !t.as_str().is_empty() {
                return t;
            }
        }
        n -= 1;
    }
    "Tasks".to_owned()
}

/// The positions of the todos of one group.
pub open spec fn members(todos: Seq<CardView>, key: Option<Seq<char>>) -> Seq<int>
    decreases todos.len(),
{
    if todos.len() == 0 {
        Seq::empty()
    } else {
        let before = members(todos.drop_last(), key);
        if group_of(todos.last()) == key {
            before.push(todos.len() - 1)
        } else {
            before
        }
    }
}

fn members_of(todos: &Vec<TodoCardItem>, key: &Option<String>) -> (r: Vec<usize>)
    ensures
        order::positions(r@) == members(card_views(todos@), text::text_option(*key)),
{
    let ghost all = card_views(todos@);
    let ghost wanted = text::text_option(*key);
    let mut r: Vec<usize> = Vec::new();
    assert(order::positions(r@) =~= Seq::empty());
    let mut i: usize = 0;
    while i < todos.len()
        invariant
            0 <= i <= todos@.len(),
            all == card_views(todos@),
            wanted == text::text_option(*key),
            order::positions(r@) == members(all.take(i as int), wanted),
        decreases todos@.len() - i,
    {
        assert(all.take(i + 1).drop_last() == all.take(i as int));
        assert(all.take(i + 1).last() == todos@[i as int]@);
        let group = own_group(&todos[i]);
        let hit = match (&group, key) {
            (Some(a), Some(b)) => same(a.as_str(), b.as_str()),
            (None, None) => true,
            _ => false,
        };
        let ghost before = order::positions(r@);
        if hit {
            r.push(i);
            assert(order::positions(r@) =~= before.push(i as int));
        }
        i += 1;
    }
    assert(all.take(i as int) == all);
    r
}

/// The card's groups by name, those with one in the order of their first occurrence.
pub open spec fn group_keys(todos: Seq<CardView>) -> Seq<Option<Seq<char>>> {
    group_names(todos).map_values(|s: Seq<char>| Some(s)) + (if members(todos, None).len() > 0 {
        seq![None]
    } else {
        Seq::empty()
    })
}

/// The names of listed groups.
pub open spec fn keys_of(groups: Seq<(Option<String>, Vec<usize>)>) -> Seq<Option<Seq<char>>> {
    groups.map_values(|g: (Option<String>, Vec<usize>)| text::text_option(g.0))
}

/// A group lists positions of the list.
pub proof fn lemma_members(todos: Seq<CardView>, key: Option<Seq<char>>)
    ensures
        forall|k: int|
            0 <= k < members(todos, key).len() ==> 0 <= #[trigger] members(todos, key)[k]
                < todos.len(),
        members(todos, key).len() <= todos.len(),
    decreases todos.len(),
{
    if todos.len() > 0 {
        lemma_members(todos.drop_last(), key);
    }
}

/// The card's groups: those with a name in the order of their first occurrence, then the
/// todos without one. Each group lists the positions of its todos.
pub fn todo_groups(payload: &TodoCardPayload) -> (r: Vec<(Option<String>, Vec<usize>)>)
    ensures
        keys_of(r@) == group_keys(payload@.todos),
        forall|k: int|
            0 <= k < r@.len() ==> order::positions((#[trigger] r@[k]).1@) == members(
                payload@.todos,
                text::text_option(r@[k].0),
            ),
{
    let ghost all = payload@.todos;
    let mut names: Vec<String> = Vec::new();
    assert(text::texts(names@) =~= group_names(all.take(0)));
    let mut i: usize = 0;
    while i < payload.todos.len()
        invariant
            0 <= i <= payload.todos@.len(),
            all == card_views(payload.todos@),
            text::texts(names@) == group_names(all.take(i as int)),
        decreases payload.todos@.len() - i,
    {
        let ghost before = text::texts(names@);
        assert(all.take(i + 1).drop_last() == all.take(i as int));
        assert(all.take(i + 1).last() == payload.todos@[i as int]@);
        if let Some(group) = own_group(&payload.todos[i]) {
            if !among(&names, group.as_str()) {
                let ghost added = group@;
                names.push(group);
                assert(text::texts(names@) =~= before.push(added));
            }
        }
        i += 1;
    }
    assert(all.take(i as int) == all);
    let ghost keys = group_names(all).map_values(|s: Seq<char>| Some(s));
    let mut r: Vec<(Option<String>, Vec<usize>)> = Vec::new();
    let mut k: usize = 0;
    while k < names.len()
        invariant
            0 <= k <= names@.len(),
            r@.len() == k,
            all == card_views(payload.todos@),
            forall|m: int|
                0 <= m < k ==> text::text_option((#[trigger] r@[m]).0) == Some(names@[m]@)
                    && order::positions(r@[m].1@) == members(all, text::text_option(r@[m].0)),
        decreases names@.len() - k,
    {
        let key = Some(names[k].clone());
        let found = members_of(&payload.todos, &key);
        r.push((key, found));
        k += 1;
    }
    let ghost named = keys_of(r@);
    assert(named =~= keys) by {
        assert forall|m: int| 0 <= m < named.len() implies named[m] == keys[m] by {
            assert(text::texts(names@)[m] == names@[m]@);
        }
    }
    let rest = members_of(&payload.todos, &None);
    assert(order::positions(rest@).len() == rest@.len());
    if rest.len() > 0 {
        r.push((None, rest));
        assert(keys_of(r@) =~= keys + seq![None]);
    } else {
        assert(keys + Seq::<Option<Seq<char>>>::empty() =~= keys);
    }
    r
}

} // verus!
