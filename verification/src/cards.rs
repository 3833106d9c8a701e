//! What the todo card and the pinned line show.
use vstd::prelude::*;

use crate::activity::progress_label;
use crate::labels;
use crate::order;
use crate::text;
use crate::text::{concat, concat3, decimal_of, same, trimmed};
use crate::todos;
use crate::todos::{
    pinned_todo_label, pinned_todo_summary, todo_groups, todo_status_color, TodoCardItem,
    TodoCardPayload, Tone,
};

verus! {

/// The mark before a todo: a ring, and what fills it.
#[derive(Clone, Copy, PartialEq, Eq, Debug, Structural)]
pub struct TodoMarker {
    pub ring: Tone,
    pub fill: Option<Tone>,
}

/// One line of the card.
#[derive(Debug, PartialEq, Eq)]
pub struct TodoRow {
    pub content: String,
    pub marker: TodoMarker,
    pub dim: bool,
}

/// A part of the card: its heading and count, where parts are told apart, and its lines.
#[derive(Debug, PartialEq, Eq)]
pub struct TodoSection {
    pub heading: Option<(String, String)>,
    pub rows: Vec<TodoRow>,
}

/// The whole card.
#[derive(Debug, PartialEq, Eq)]
pub struct TodoCard {
    pub intention: Option<String>,
    pub progress: String,
    /// What stands in place of the sections where there is nothing to do.
    pub empty: Option<&'static str>,
    pub sections: Vec<TodoSection>,
}

/// The pinned line.
#[derive(Debug, PartialEq, Eq)]
pub struct PinnedLine {
    pub task: String,
    pub count: String,
    pub dots: Vec<bool>,
    /// How many todos have no dot.
    pub overflow: Option<String>,
}

#[verifier::ext_equal]
pub struct TodoRowView {
    pub content: Seq<char>,
    pub marker: TodoMarker,
    pub dim: bool,
}

#[verifier::ext_equal]
pub struct TodoSectionView {
    pub heading: Option<(Seq<char>, Seq<char>)>,
    pub rows: Seq<TodoRowView>,
}

impl View for TodoRow {
    type V = TodoRowView;

    open spec fn view(&self) -> TodoRowView {
        TodoRowView { content: self.content@, marker: self.marker, dim: self.dim }
    }
}

pub open spec fn row_views(rows: Seq<TodoRow>) -> Seq<TodoRowView> {
    rows.map_values(|row: TodoRow| row@)
}

impl View for TodoSection {
    type V = TodoSectionView;

    open spec fn view(&self) -> TodoSectionView {
        TodoSectionView {
            heading: match self.heading {
                Some((name, count)) => Some((name@, count@)),
                None => None,
            },
            rows: row_views(self.rows@),
        }
    }
}

pub open spec fn section_views(sections: Seq<TodoSection>) -> Seq<TodoSectionView> {
    sections.map_values(|section: TodoSection| section@)
}

/// The tone of a todo's ring.
pub open spec fn ring(todo: todos::CardView) -> Tone {
    if todo.blocked_by.len() > 0 && todo.status != "completed"@ {
        Tone::Warn
    } else if todo.status == "completed"@ {
        Tone::Good
    } else if todo.status == "in_progress"@ {
        Tone::Accent
    } else if todo.status == "cancelled"@ {
        Tone::Bad
    } else {
        Tone::Faint
    }
}

/// The mark before a todo: full in its own tone once done, in the accent while at work.
pub open spec fn marker(todo: todos::CardView) -> TodoMarker {
    TodoMarker {
        ring: ring(todo),
        fill: if todo.status == "completed"@ {
            Some(ring(todo))
        } else if todo.status == "in_progress"@ {
            Some(Tone::Accent)
        } else {
            None
        },
    }
}

/// The mark before a todo.
pub fn render_todo_marker(todo: &TodoCardItem) -> (r: TodoMarker)
    ensures
        r == marker(todo@),
{
    let ring = todo_status_color(todo);
    let fill = if same(todo.status.as_str(), "completed") {
        Some(ring)
    } else if same(todo.status.as_str(), "in_progress") {
        Some(Tone::Accent)
    } else {
        None
    };
    TodoMarker { ring, fill }
}

/// The line of a todo.
pub open spec fn row(todo: todos::CardView) -> TodoRowView {
    TodoRowView {
        content: todo.content,
        marker: marker(todo),
        dim: todo.status == "completed"@,
    }
}

/// The todos at the given positions.
pub open spec fn picked(all: Seq<todos::CardView>, at: Seq<int>) -> Seq<todos::CardView> {
    at.map_values(|i: int| all[i])
}

/// Whether any todo has been put into a group.
pub open spec fn grouped(all: Seq<todos::CardView>) -> bool {
    exists|i: int| 0 <= i < all.len() && (#[trigger] all[i]).group is Some
}

/// The part of the card that one group is.
pub open spec fn section(
    all: Seq<todos::CardView>,
    key: Option<Seq<char>>,
    headed: bool,
) -> TodoSectionView {
    let own = picked(all, todos::members(all, key));
    TodoSectionView {
        heading: if key is Some || headed {
            Some(
                (
                    match key {
                        Some(group) => group,
                        None => "Other"@,
                    },
                    text::decimal(todos::completed(own)) + "/"@ + text::decimal(own.len()),
                ),
            )
        } else {
            None
        },
        rows: own.map_values(|todo: todos::CardView| row(todo)),
    }
}

/// The parts of the card.
pub open spec fn sections(all: Seq<todos::CardView>) -> Seq<TodoSectionView> {
    todos::group_keys(all).map_values(|key: Option<Seq<char>>| section(all, key, grouped(all)))
}

/// The intention that a plan states.
pub open spec fn intention(payload: todos::PayloadView) -> Option<Seq<char>> {
    match payload.user_intention {
        Some(intention) if text::trim(intention).len() > 0 => Some(text::trim(intention)),
        _ => None,
    }
}

fn is_grouped(list: &Vec<TodoCardItem>) -> (r: bool)
    ensures
        r == grouped(todos::card_views(list@)),
{
    let ghost all = todos::card_views(list@);
    let mut i: usize = 0;
    while i < list.len()
        invariant
            i <= list@.len(),
            all == todos::card_views(list@),
            forall|k: int| 0 <= k < i ==> (#[trigger] all[k]).group is None,
        decreases list@.len() - i,
    {
        assert(all[i as int] == list@[i as int]@);
        if list[i].group.is_some() {
            return true;
        }
        i += 1;
    }
    false
}

fn section_of(list: &Vec<TodoCardItem>, key: Option<String>, at: &Vec<usize>, headed: bool) -> (r:
    TodoSection)
    requires
        order::positions(at@) == todos::members(
            todos::card_views(list@),
            text::text_option(key),
        ),
    ensures
        r@ == section(todos::card_views(list@), text::text_option(key), headed),
{
    let ghost all = todos::card_views(list@);
    let ghost name = text::text_option(key);
    let ghost positions = order::positions(at@);
    let ghost own = picked(all, positions);
    proof {
        todos::lemma_members(all, name);
    }
    let n: usize = at.len();
    let mut rows: Vec<TodoRow> = Vec::new();
    let mut done: usize = 0;
    let mut k: usize = 0;
    assert(row_views(rows@) =~= own.take(0).map_values(|todo: todos::CardView| row(todo)));
    while k < n
        invariant
            k <= n,
            n == at@.len(),
            all == todos::card_views(list@),
            positions == order::positions(at@),
            own == picked(all, positions),
            forall|m: int| 0 <= m < positions.len() ==> 0 <= #[trigger] positions[m] < all.len(),
            done <= k,
            done == todos::completed(own.take(k as int)),
            row_views(rows@) == own.take(k as int).map_values(|todo: todos::CardView| row(todo)),
        decreases n - k,
    {
        assert(positions[k as int] == at@[k as int]);
        let todo = &list[at[k]];
        assert(own[k as int] == todo@);
        assert(own.take(k + 1).drop_last() =~= own.take(k as int));
        assert(own.take(k + 1).last() == todo@);
        let finished = same(todo.status.as_str(), "completed");
        let ghost before = row_views(rows@);
        rows.push(
            TodoRow {
                content: todo.content.clone(),
                marker: render_todo_marker(todo),
                dim: finished,
            },
        );
        assert(row_views(rows@) =~= before.push(row(todo@)));
        assert(row_views(rows@) =~= own.take(k + 1).map_values(
            |todo: todos::CardView| row(todo),
        ));
        if finished {
            done += 1;
        }
        k += 1;
    }
    assert(own.take(n as int) =~= own);
    let heading = if key.is_some() || headed {
        let title = match key {
            Some(group) => group,
            None => "Other".to_owned(),
        };
        let count = concat3(
            decimal_of(done as u64).as_str(),
            "/",
            decimal_of(n as u64).as_str(),
        );
        Some((title, count))
    } else {
        None
    };
    let r = TodoSection { heading, rows };
    assert(r@ =~= section(all, name, headed));
    r
}

/// Whether a card is that of a list.
pub open spec fn is_card(card: TodoCard, payload: todos::PayloadView) -> bool {
    &&& text::text_option(card.intention) == intention(payload)
    &&& card.progress@ == text::decimal(todos::completed(payload.todos)) + " of "@ + (
    text::decimal(payload.todos.len()) + " complete"@)
    &&& labels::view_of(card.empty) == (if payload.todos.len() == 0 {
        Some("No tasks yet. Jcode will populate them as work is planned."@)
    } else {
        None
    })
    &&& section_views(card.sections@) == sections(payload.todos)
}

/// The todo card of a list.
pub fn render_todo_card(payload: &TodoCardPayload) -> (r: TodoCard)
    ensures
        is_card(r, payload@),
{
    let ghost all = payload@.todos;
    assert(all.len() == payload.todos@.len());
    let stated = match &payload.plan.user_intention {
        Some(intention) => {
            let t = trimmed(intention.as_str());
            if t.as_str().is_empty() {
                None
            } else {
                Some(t)
            }
        },
        None => None,
    };
    let headed = is_grouped(&payload.todos);
    let groups = todo_groups(payload);
    let ghost keys = todos::group_keys(all);
    let ghost wanted = sections(all);
    assert(todos::keys_of(groups@).len() == groups@.len());
    let n: usize = groups.len();
    let mut parts: Vec<TodoSection> = Vec::new();
    let mut k: usize = 0;
    assert(section_views(parts@) =~= wanted.take(0));
    while k < n
        invariant
            k <= n,
            n == groups@.len(),
            all == todos::card_views(payload.todos@),
            keys == todos::group_keys(all),
            keys == todos::keys_of(groups@),
            headed == grouped(all),
            wanted == sections(all),
            section_views(parts@) == wanted.take(k as int),
            forall|m: int|
                0 <= m < groups@.len() ==> order::positions((#[trigger] groups@[m]).1@)
                    == todos::members(all, text::text_option(groups@[m].0)),
        decreases n - k,
    {
        let ghost before = section_views(parts@);
        let group = &groups[k];
        assert(keys[k as int] == text::text_option(groups@[k as int].0));
        let key = match &group.0 {
            Some(name) => Some(name.clone()),
            None => None,
        };
        let part = section_of(&payload.todos, key, &group.1, headed);
        assert(part@ == wanted[k as int]);
        parts.push(part);
        assert(section_views(parts@) =~= before.push(wanted[k as int]));
        assert(section_views(parts@) =~= wanted.take(k + 1));
        k += 1;
    }
    assert(wanted.take(n as int) =~= wanted);
    let empty = if payload.todos.len() == 0 {
        Some("No tasks yet. Jcode will populate them as work is planned.")
    } else {
        None
    };
    TodoCard { intention: stated, progress: progress_label(payload), empty, sections: parts }
}

/// The pinned line of a list.
pub fn render_pinned_todo_summary(payload: &TodoCardPayload) -> (r: PinnedLine)
    ensures
        ({
            let own = todos::active(payload@.todos);
            let done = todos::completed(own);
            &&& r.task@ == todos::pinned_words(
                payload@,
                todos::current(payload@.todos),
                done,
                own.len(),
            )
            &&& r.count@ == text::decimal(done) + "/"@ + text::decimal(own.len())
            &&& r.dots@ == todos::dots(own)
            &&& text::text_option(r.overflow) == (if own.len() > todos::dots(own).len() {
                Some("+"@ + text::decimal((own.len() - todos::dots(own).len()) as nat))
            } else {
                None
            })
        }),
{
    let summary = pinned_todo_summary(payload);
    let task = pinned_todo_label(payload, &summary);
    let count = concat3(
        decimal_of(summary.completed as u64).as_str(),
        "/",
        decimal_of(summary.total as u64).as_str(),
    );
    let overflow = if summary.total > summary.dots.len() {
        Some(concat("+", decimal_of((summary.total - summary.dots.len()) as u64).as_str()))
    } else {
        None
    };
    PinnedLine { task, count, dots: summary.dots, overflow }
}

proof fn lemma_group_place(all: Seq<todos::CardView>, i: int)
    requires
        0 <= i < all.len(),
    ensures
        todos::group_keys(all).contains(todos::group_of(all[i])),
        todos::members(all, todos::group_of(all[i])).contains(i),
{
    lemma_named(all, i);
    lemma_member(all, i);
    let key = todos::group_of(all[i]);
    let names = todos::group_names(all).map_values(|s: Seq<char>| Some(s));
    match key {
        Some(group) => {
            let k = todos::group_names(all).index_of(group);
            assert(names[k] == key);
            assert(todos::group_keys(all)[k] == key);
        },
        None => {
            assert(todos::group_keys(all)[names.len() as int] == key);
        },
    }
}

proof fn lemma_named(all: Seq<todos::CardView>, i: int)
    requires
        0 <= i < all.len(),
    ensures
        todos::group_of(all[i]) matches Some(group) ==> todos::group_names(all).contains(group),
    decreases all.len(),
{
    let before = todos::group_names(all.drop_last());
    if i < all.len() - 1 {
        lemma_named(all.drop_last(), i);
        assert(all.drop_last()[i] == all[i]);
        if let Some(group) = todos::group_of(all[i]) {
            let k = before.index_of(group);
            assert(todos::group_names(all)[k] == group);
        }
    } else if let Some(group) = todos::group_of(all[i]) {
        if !before.contains(group) {
            assert(todos::group_names(all).last() == group);
        }
    }
}

proof fn lemma_member(all: Seq<todos::CardView>, i: int)
    requires
        0 <= i < all.len(),
    ensures
        todos::members(all, todos::group_of(all[i])).contains(i),
    decreases all.len(),
{
    let key = todos::group_of(all[i]);
    let before = todos::members(all.drop_last(), key);
    if i < all.len() - 1 {
        lemma_member(all.drop_last(), i);
        assert(all.drop_last()[i] == all[i]);
        let k = before.index_of(i);
        assert(todos::members(all, key)[k] == i);
    } else {
        assert(todos::members(all, key).last() == i);
    }
}

/// The card leaves no todo out: each stands as a line in some section.
pub proof fn every_todo_has_a_line(all: Seq<todos::CardView>, i: int)
    requires
        0 <= i < all.len(),
    ensures
        exists|k: int|
            0 <= k < sections(all).len() && (#[trigger] sections(all)[k]).rows.contains(row(all[i])),
{
    lemma_group_place(all, i);
    let key = todos::group_of(all[i]);
    let k = todos::group_keys(all).index_of(key);
    let at = todos::members(all, key);
    let m = at.index_of(i);
    let part = sections(all)[k];
    assert(part == section(all, key, grouped(all)));
    assert(picked(all, at)[m] == all[i]);
    assert(part.rows[m] == row(all[i]));
}

} // verus!
