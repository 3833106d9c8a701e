//! What holds of lists of todos: how they are read, counted, grouped and drawn.
use vstd::prelude::*;

use crate::cards;
use crate::json;
use crate::text;
use crate::todos;
use crate::todos::{TodoCardItem, Tone};

verus! {

/// The todos that count are all but the cancelled ones, in their order.
pub proof fn cancelled_work_does_not_count(list: Seq<todos::CardView>)
    ensures
        todos::active(list) == list.filter(|t: todos::CardView| t.status != "cancelled"@),
    decreases list.len(),
{
    reveal(Seq::filter);
    if list.len() > 0 {
        cancelled_work_does_not_count(list.drop_last());
    } else {
        assert(todos::active(list) =~= list);
    }
}

/// What is completed is counted one by one.
pub proof fn completed_work_is_counted(list: Seq<todos::CardView>)
    ensures
        todos::completed(list) == list.filter(
            |t: todos::CardView| t.status == "completed"@,
        ).len(),
    decreases list.len(),
{
    reveal(Seq::filter);
    if list.len() > 0 {
        completed_work_is_counted(list.drop_last());
    }
}

/// What is being done is the first todo in progress; where there is none it is the first
/// that is pending, and nothing where there is none of these either.
pub proof fn work_in_progress_comes_first(list: Seq<todos::CardView>)
    ensures
        ({
            let at_work = exists|k: int|
                0 <= k < list.len() && (#[trigger] list[k]).status == "in_progress"@;
            match todos::current(list) {
                Some(content) => exists|i: int|
                    0 <= i < list.len() && content == (#[trigger] list[i]).content && (if at_work {
                        is_first(list, i, "in_progress"@)
                    } else {
                        is_first(list, i, "pending"@)
                    }),
                None => forall|k: int|
                    0 <= k < list.len() ==> (#[trigger] list[k]).status != "in_progress"@
                        && list[k].status != "pending"@,
            }
        }),
{
    lemma_first(list, "in_progress"@, 0);
    lemma_first(list, "pending"@, 0);
    if todos::first_with(list, "in_progress"@, 0) is Some {
        let i = choose|i: int| #[trigger]
            is_first(list, i, "in_progress"@) && todos::first_with(list, "in_progress"@, 0)
                == Some(list[i].content);
        assert(list[i].status == "in_progress"@);
    } else if todos::first_with(list, "pending"@, 0) is Some {
        let i = choose|i: int| #[trigger]
            is_first(list, i, "pending"@) && todos::first_with(list, "pending"@, 0) == Some(
                list[i].content,
            );
        assert(list[i].status == "pending"@);
    }
}

/// Whether a todo is the first with a status.
pub open spec fn is_first(list: Seq<todos::CardView>, i: int, status: Seq<char>) -> bool {
    &&& 0 <= i < list.len()
    &&& list[i].status == status
    &&& forall|k: int| 0 <= k < i ==> (#[trigger] list[k]).status != status
}

proof fn lemma_first(list: Seq<todos::CardView>, status: Seq<char>, from: int)
    requires
        0 <= from <= list.len(),
        forall|k: int| 0 <= k < from ==> (#[trigger] list[k]).status != status,
    ensures
        match todos::first_with(list, status, from) {
            Some(content) => exists|i: int| #[trigger]
                is_first(list, i, status) && content == list[i].content,
            None => forall|k: int| 0 <= k < list.len() ==> (#[trigger] list[k]).status != status,
        },
    decreases list.len() - from,
{
    if from < list.len() {
        if list[from].status == status {
            assert(is_first(list, from, status));
        } else {
            lemma_first(list, status, from + 1);
        }
    }
}

/// A dot tells of its own todo whether it is completed.
pub proof fn dots_stand_for_their_todos(list: Seq<todos::CardView>, i: int)
    requires
        0 <= i < list.len(),
    ensures
        i < 8 <==> i < todos::dots(list).len(),
        i < 8 ==> (todos::dots(list)[i] <==> list[i].status == "completed"@),
{
}

/// The groups are those that todos name, each told once, in the order in which they first
/// come up.
pub proof fn groups_are_those_that_are_named(list: Seq<todos::CardView>)
    ensures
        todos::group_names(list).no_duplicates(),
        forall|g: Seq<char>| #[trigger]
            todos::group_names(list).contains(g) <==> exists|i: int|
                0 <= i < list.len() && names_group(#[trigger] list[i], g),
        forall|g: int|
            0 <= g < todos::group_names(list).len() ==> #[trigger] comes_up_next(
                list,
                todos::group_names(list),
                g,
            ),
    decreases list.len(),
{
    let names = todos::group_names(list);
    if list.len() > 0 {
        let fewer = list.drop_last();
        let before = todos::group_names(fewer);
        groups_are_those_that_are_named(fewer);
        let last = list.last();
        assert(names == before || names == before.push(todos::group_of(last)->0));
        assert forall|g: Seq<char>| #[trigger] names.contains(g) <==> exists|i: int|
            0 <= i < list.len() && names_group(#[trigger] list[i], g) by {
            if names.contains(g) {
                if before.contains(g) {
                    let i = choose|i: int|
                        0 <= i < fewer.len() && names_group(#[trigger] fewer[i], g);
                    assert(names_group(list[i], g));
                } else {
                    let k = choose|k: int| 0 <= k < names.len() && names[k] == g;
                    assert(k == before.len()) by {
                        if k < before.len() {
                            assert(before[k] == g);
                        }
                    }
                    assert(names_group(list[list.len() - 1], g));
                }
            }
            if exists|i: int| 0 <= i < list.len() && names_group(#[trigger] list[i], g) {
                let i = choose|i: int| 0 <= i < list.len() && names_group(#[trigger] list[i], g);
                if i < fewer.len() {
                    assert(names_group(fewer[i], g));
                    assert(before.contains(g));
                    let k = choose|k: int| 0 <= k < before.len() && before[k] == g;
                    assert(names[k] == g);
                } else {
                    assert(todos::group_of(last) == Some(g));
                    if !before.contains(g) {
                        assert(names[before.len() as int] == g);
                    } else {
                        let k = choose|k: int| 0 <= k < before.len() && before[k] == g;
                        assert(names[k] == g);
                    }
                }
            }
        }
        assert forall|g: int| 0 <= g < names.len() implies #[trigger] comes_up_next(
            list,
            names,
            g,
        ) by {
            if g < before.len() {
                assert(before[g] == names[g]);
                assert(comes_up_next(fewer, before, g));
                let i = choose|i: int| #[trigger]
                    opens_group(fewer, i, before.take(g)) && names_group(fewer[i], before[g]);
                assert(before.take(g) =~= names.take(g));
                assert forall|k: int| 0 <= k < i implies (todos::group_of(#[trigger] list[k])
                    matches Some(named) ==> names.take(g).contains(named)) by {
                    assert(fewer[k] == list[k]);
                }
                assert(opens_group(list, i, names.take(g)));
                assert(names_group(list[i], names[g]));
            } else {
                let i = list.len() - 1;
                assert(names.take(g) =~= before);
                assert forall|k: int| 0 <= k < i implies (todos::group_of(#[trigger] list[k])
                    matches Some(named) ==> names.take(g).contains(named)) by {
                    if let Some(named) = todos::group_of(list[k]) {
                        assert(names_group(fewer[k], named));
                    }
                }
                assert(opens_group(list, i, names.take(g)));
                assert(names_group(list[i], names[g]));
            }
        }
    }
}

/// Whether a todo names a group: what it says, without white space around it, if that is
/// anything.
pub open spec fn names_group(todo: todos::CardView, group: Seq<char>) -> bool {
    todo.group matches Some(named) && group.len() > 0 && group == text::trim(named)
}

/// Whether a group is the first that comes up besides those told before it.
pub open spec fn comes_up_next(
    list: Seq<todos::CardView>,
    names: Seq<Seq<char>>,
    g: int,
) -> bool {
    exists|i: int| #[trigger]
        opens_group(list, i, names.take(g)) && names_group(list[i], names[g])
}

/// Whether a todo is the first of its group: those before it name none but the given groups.
pub open spec fn opens_group(list: Seq<todos::CardView>, i: int, known: Seq<Seq<char>>) -> bool {
    &&& 0 <= i < list.len()
    &&& forall|k: int|
        0 <= k < i ==> (todos::group_of(#[trigger] list[k]) matches Some(named)
            ==> known.contains(named))
}

/// A group has exactly the todos that name it, in their order; those that name none are
/// together as well.
pub proof fn groups_have_the_todos_that_name_them(
    list: Seq<todos::CardView>,
    group: Option<Seq<char>>,
)
    ensures
        ({
            let at = todos::members(list, group);
            &&& forall|a: int, b: int| 0 <= a < b < at.len() ==> #[trigger] at[a] < #[trigger] at[b]
            &&& forall|i: int| #[trigger]
                at.contains(i) <==> 0 <= i < list.len() && match group {
                    Some(g) => names_group(list[i], g),
                    None => !(list[i].group matches Some(named) && text::trim(named).len() > 0),
                }
        }),
    decreases list.len(),
{
    let at = todos::members(list, group);
    todos::lemma_members(list, group);
    if list.len() > 0 {
        let fewer = list.drop_last();
        let n = list.len() - 1;
        let before = todos::members(fewer, group);
        groups_have_the_todos_that_name_them(fewer, group);
        todos::lemma_members(fewer, group);
        assert forall|i: int| #[trigger] at.contains(i) <==> 0 <= i < list.len() && match group {
            Some(g) => names_group(list[i], g),
            None => !(list[i].group matches Some(named) && text::trim(named).len() > 0),
        } by {
            if at.contains(i) {
                let k = choose|k: int| 0 <= k < at.len() && at[k] == i;
                if k < before.len() {
                    assert(before[k] == i);
                    assert(before.contains(i));
                }
            }
            if i < n {
                assert(list[i] == fewer[i] || i < 0);
                if before.contains(i) {
                    let k = choose|k: int| 0 <= k < before.len() && before[k] == i;
                    assert(at[k] == i);
                }
            } else if i == n {
                if todos::group_of(list[n]) == group {
                    assert(at[before.len() as int] == n);
                }
            }
        }
    }
}

/// The card has a section for every group that a todo names, in their order, and one more,
/// the last, for those that name none, where there are any.
pub proof fn sections_are_the_groups(list: Seq<todos::CardView>)
    ensures
        ({
            let names = todos::group_names(list);
            let loose = exists|i: int|
                0 <= i < list.len() && !((#[trigger] list[i]).group matches Some(named)
                    && text::trim(named).len() > 0);
            let parts = cards::sections(list);
            &&& parts.len() == names.len() + if loose {
                1nat
            } else {
                0
            }
            &&& forall|k: int|
                0 <= k < names.len() ==> ((#[trigger] parts[k]).heading matches Some((title, _))
                    && title == names[k])
            &&& loose ==> (parts.last().heading is Some <==> exists|i: int|
                0 <= i < list.len() && (#[trigger] list[i]).group is Some) && (
            parts.last().heading matches Some((title, _)) ==> title == "Other"@)
        }),
{
    groups_have_the_todos_that_name_them(list, None);
    let names = todos::group_names(list);
    let at = todos::members(list, None);
    let parts = cards::sections(list);
    let loose = exists|i: int|
        0 <= i < list.len() && !((#[trigger] list[i]).group matches Some(named) && text::trim(
            named,
        ).len() > 0);
    if loose {
        let i = choose|i: int|
            0 <= i < list.len() && !((#[trigger] list[i]).group matches Some(named) && text::trim(
                named,
            ).len() > 0);
        assert(at.contains(i));
        assert(at.len() > 0);
    } else if at.len() > 0 {
        assert(at.contains(at[0]));
    }
}

/// A section shows the todos of its group, each as a line of its own, and its heading
/// counts them.
pub proof fn sections_show_their_todos(
    list: Seq<todos::CardView>,
    group: Option<Seq<char>>,
    headed: bool,
    k: int,
)
    requires
        0 <= k < todos::members(list, group).len(),
    ensures
        ({
            let at = todos::members(list, group);
            let part = cards::section(list, group, headed);
            let todo = list[at[k]];
            &&& part.rows.len() == at.len()
            &&& part.rows[k].content == todo.content
            &&& part.rows[k].dim == (todo.status == "completed"@)
            &&& part.heading matches Some((_, figures)) ==> figures == text::decimal(
                at.filter(|i: int| list[i].status == "completed"@).len(),
            ) + "/"@ + text::decimal(at.len())
        }),
{
    let at = todos::members(list, group);
    let own = cards::picked(list, at);
    lemma_counted(list, at);
    assert(own =~= at.map_values(|i: int| list[i]));
}

proof fn lemma_counted(list: Seq<todos::CardView>, at: Seq<int>)
    ensures
        todos::completed(cards::picked(list, at)) == at.filter(
            |i: int| list[i].status == "completed"@,
        ).len(),
    decreases at.len(),
{
    reveal(Seq::filter);
    let own = cards::picked(list, at);
    if at.len() > 0 {
        lemma_counted(list, at.drop_last());
        assert(own.drop_last() =~= cards::picked(list, at.drop_last()));
        assert(own.last() == list[at.last()]);
    }
}

/// The marks tell the todos apart: what is completed is good and full, what is blocked
/// warns, what is being done has the accent, what was cancelled is bad, and what is left is
/// faint; only what is completed or being done is full. The mark's ring is the tone of the
/// status.
pub proof fn marks_tell_how_far_work_is(todo: TodoCardItem, tone: Tone)
    requires
        call_ensures(todos::todo_status_color, (&todo,), tone),
    ensures
        cards::marker(todo@).ring == tone,
        todo@.status == "completed"@ ==> tone is Good && cards::marker(todo@).fill == Some(tone),
        todo@.status != "completed"@ && todo@.blocked_by.len() > 0 ==> tone is Warn,
        todo@.status != "completed"@ && todo@.blocked_by.len() == 0 ==> {
            &&& todo@.status == "in_progress"@ ==> tone is Accent
            &&& todo@.status == "cancelled"@ ==> tone is Bad
            &&& todo@.status != "in_progress"@ && todo@.status != "cancelled"@ ==> tone is Faint
        },
        cards::marker(todo@).fill is Some <==> todo@.status == "completed"@ || todo@.status
            == "in_progress"@,
        todo@.status == "in_progress"@ ==> cards::marker(todo@).fill == Some(Tone::Accent),
{
    reveal_strlit("completed");
    reveal_strlit("in_progress");
    reveal_strlit("cancelled");
    assert("completed"@.len() == 9 && "in_progress"@.len() == 11 && "cancelled"@.len() == 9);
    assert("completed"@[1] == 'o' && "cancelled"@[1] == 'a');
}

/// The pinned line says what is being done wherever anything is. It claims that there is
/// nothing to do only while work is left that nobody does, and once all is done it names
/// its groups before its intention, and that before the last thing done.
pub proof fn the_pinned_line_tells_the_most_it_can(
    payload: todos::PayloadView,
    current: Option<Seq<char>>,
    done: nat,
    total: nat,
)
    ensures
        ({
            let words = todos::pinned_words(payload, current, done, total);
            let groups = todos::group_names(todos::active(payload.todos));
            &&& current is Some ==> words == current->0
            &&& current is None && (total == 0 || done != total) ==> words == "No active task"@
            &&& current is None && total > 0 && done == total ==> {
                &&& groups.len() == 1 ==> words == groups[0]
                &&& groups.len() == 2 ==> words == groups[0] + " · "@ + groups[1]
                &&& groups.len() == 0 && cards::intention(payload) is Some ==> words
                    == cards::intention(payload)->0
                &&& groups.len() == 0 && cards::intention(payload) is None ==> match last_done(
                    payload.todos,
                ) {
                    Some(i) => words == text::trim(payload.todos[i].content),
                    None => words == "Tasks"@,
                }
            }
        }),
{
    let groups = todos::group_names(todos::active(payload.todos));
    if groups.len() == 1 || groups.len() == 2 {
        reveal_with_fuel(text::join, 3);
        assert(groups.drop_last().len() == groups.len() - 1);
        if groups.len() == 2 {
            assert(groups.drop_last()[0] == groups[0]);
        }
    }
    lemma_last_done(payload.todos);
}

/// Where the last completed todo that says anything stands.
pub open spec fn last_done(list: Seq<todos::CardView>) -> Option<int> {
    let is_last = |i: int|
        0 <= i < list.len() && list[i].status == "completed"@ && text::trim(list[i].content).len()
            > 0 && (forall|k: int|
            i < k < list.len() ==> !((#[trigger] list[k]).status == "completed"@ && text::trim(
                list[k].content,
            ).len() > 0));
    if exists|i: int| #[trigger] is_last(i) {
        Some(choose|i: int| #[trigger] is_last(i))
    } else {
        None
    }
}

proof fn lemma_last_done(list: Seq<todos::CardView>)
    ensures
        match last_done(list) {
            Some(i) => 0 <= i < list.len() && todos::last_completed(list) == Some(
                text::trim(list[i].content),
            ),
            None => todos::last_completed(list) is None,
        },
{
    lemma_last_completed(list, list.len() as int);
    let is_last = |i: int|
        0 <= i < list.len() && list[i].status == "completed"@ && text::trim(list[i].content).len()
            > 0 && (forall|k: int|
            i < k < list.len() ==> !((#[trigger] list[k]).status == "completed"@ && text::trim(
                list[k].content,
            ).len() > 0));
    assert(list.take(list.len() as int) =~= list);
    if todos::last_completed(list) is Some {
        let i = choose|i: int|
            0 <= i < list.len() && is_done(#[trigger] list[i]) && todos::last_completed(list)
                == Some(text::trim(list[i].content)) && (forall|k: int|
                i < k < list.len() ==> !is_done(#[trigger] list[k]));
        assert(is_last(i));
        let j = choose|i: int| #[trigger] is_last(i);
        assert(is_last(j));
        assert(is_done(list[j]) && is_done(list[i]));
        assert(i == j);
    } else {
        assert forall|i: int| !(#[trigger] is_last(i)) by {
            if is_last(i) {
                assert(is_done(list[i]));
            }
        }
    }
}

spec fn is_done(todo: todos::CardView) -> bool {
    todo.status == "completed"@ && text::trim(todo.content).len() > 0
}

proof fn lemma_last_completed(list: Seq<todos::CardView>, n: int)
    requires
        0 <= n <= list.len(),
    ensures
        match todos::last_completed(list.take(n)) {
            Some(content) => exists|i: int|
                0 <= i < n && is_done(#[trigger] list[i]) && content == text::trim(list[i].content)
                    && (forall|k: int| i < k < n ==> !is_done(#[trigger] list[k])),
            None => forall|k: int| 0 <= k < n ==> !is_done(#[trigger] list[k]),
        },
    decreases n,
{
    if n > 0 {
        lemma_last_completed(list, n - 1);
        assert(list.take(n).drop_last() =~= list.take(n - 1));
        assert(list.take(n).last() == list[n - 1]);
        if is_done(list[n - 1]) {
            assert(todos::last_completed(list.take(n)) == Some(text::trim(list[n - 1].content)));
        }
    }
}

/// A list is read whole or not at all: every entry gives the todo at its place.
pub proof fn lists_are_read_whole(entries: Seq<Seq<char>>)
    ensures
        match todos::cards_of(entries) {
            Some(list) => list.len() == entries.len() && forall|i: int|
                0 <= i < list.len() ==> todos::card_of(#[trigger] entries[i]) == Some(list[i]),
            None => exists|i: int|
                0 <= i < entries.len() && todos::card_of(#[trigger] entries[i]) is None,
        },
    decreases entries.len(),
{
    if entries.len() > 0 {
        let fewer = entries.drop_last();
        lists_are_read_whole(fewer);
        if let Some(list) = todos::cards_of(entries) {
            let before = todos::cards_of(fewer)->0;
            assert forall|i: int| 0 <= i < list.len() implies todos::card_of(#[trigger] entries[i])
                == Some(list[i]) by {
                if i < fewer.len() {
                    assert(fewer[i] == entries[i]);
                }
            }
        } else if todos::cards_of(fewer) is None {
            let i = choose|i: int|
                0 <= i < fewer.len() && todos::card_of(#[trigger] fewer[i]) is None;
            assert(todos::card_of(entries[i]) is None);
        } else {
            assert(todos::card_of(entries[entries.len() - 1]) is None);
        }
    }
}

/// Texts are read whole or not at all.
pub proof fn texts_are_read_whole(items: Seq<json::JsonView>)
    ensures
        match todos::text_items(items) {
            Some(texts) => texts.len() == items.len() && forall|i: int|
                0 <= i < items.len() ==> #[trigger] items[i] == json::JsonView::Text(texts[i]),
            None => exists|i: int| 0 <= i < items.len() && !(#[trigger] items[i] is Text),
        },
    decreases items.len(),
{
    if items.len() > 0 {
        let fewer = items.drop_last();
        texts_are_read_whole(fewer);
        if let Some(texts) = todos::text_items(items) {
            assert forall|i: int| 0 <= i < items.len() implies #[trigger] items[i]
                == json::JsonView::Text(texts[i]) by {
                if i < fewer.len() {
                    assert(fewer[i] == items[i]);
                }
            }
        } else if todos::text_items(fewer) is None {
            let i = choose|i: int| 0 <= i < fewer.len() && !(#[trigger] fewer[i] is Text);
            assert(!(items[i] is Text));
        } else {
            assert(!(items[items.len() - 1] is Text));
        }
    }
}

/// A todo has what its fields say: it takes a content and a status, and does without a
/// group and without what blocks it.
pub proof fn todos_have_what_their_fields_say(
    content: Option<json::JsonView>,
    status: Option<json::JsonView>,
    group: Option<json::JsonView>,
    blocked_by: Option<json::JsonView>,
)
    ensures
        match todos::card_in(content, status, group, blocked_by) {
            Some(todo) => {
                &&& content == Some(json::JsonView::Text(todo.content))
                &&& status == Some(json::JsonView::Text(todo.status))
                &&& match todo.group {
                    Some(named) => group == Some(json::JsonView::Text(named)),
                    None => group is None || group == Some(json::JsonView::Null),
                }
                &&& match blocked_by {
                    Some(json::JsonView::Array(items)) => items.len() == todo.blocked_by.len()
                        && forall|i: int|
                        0 <= i < items.len() ==> #[trigger] items[i] == json::JsonView::Text(
                            todo.blocked_by[i],
                        ),
                    Some(_) => false,
                    None => todo.blocked_by.len() == 0,
                }
            },
            None => {
                ||| !(content is Some && content->0 is Text)
                ||| !(status is Some && status->0 is Text)
                ||| !(group is None || group->0 is Null || group->0 is Text)
                ||| (blocked_by is Some && !(blocked_by->0 is Array && forall|i: int|
                    0 <= i < blocked_by->0->Array_0.len()
                        ==> #[trigger] blocked_by->0->Array_0[i] is Text))
            },
        },
{
    if let Some(json::JsonView::Array(items)) = blocked_by {
        texts_are_read_whole(items);
    }
}

/// A printed list holds the todos of its array, and the intention of the plan behind it.
pub proof fn printed_lists_hold_their_entries(output: Seq<char>)
    ensures
        match todos::printed(output) {
            Some(payload) => exists|list: Seq<char>, rest: Seq<char>| #[trigger]
                holds_list(output, list, rest) && ({
                    let entries = json::elements(list)->0;
                    &&& payload.todos.len() == entries.len()
                    &&& forall|i: int|
                        0 <= i < entries.len() ==> todos::card_of(#[trigger] entries[i]) == Some(
                            payload.todos[i],
                        )
                    &&& todos::plan_behind(rest) is None ==> payload.user_intention is None
                    &&& todos::plan_behind(rest) is Some ==> payload.user_intention
                        == todos::intention_of(todos::plan_behind(rest)->0)
                }),
            None => forall|list: Seq<char>, rest: Seq<char>| #[trigger]
                holds_list(output, list, rest) ==> exists|i: int|
                    0 <= i < json::elements(list)->0.len() && todos::card_of(
                        #[trigger] json::elements(list)->0[i],
                    ) is None,
        },
{
    if let Some((list, rest)) = json::leading_span(text::trim_start(output)) {
        if let Some(entries) = json::elements(list) {
            lists_are_read_whole(entries);
            assert(holds_list(output, list, rest));
        }
    }
}

/// Whether an output begins with a list, and what is left behind it.
pub open spec fn holds_list(output: Seq<char>, list: Seq<char>, rest: Seq<char>) -> bool {
    json::leading_span(text::trim_start(output)) == Some((list, rest)) && json::elements(list)
        is Some
}

/// A plan by name and one by place state the same intention.
pub proof fn plans_state_their_intention(plan: Seq<char>)
    ensures
        todos::intention_of(plan) is Some ==> {
            let said = json::JsonView::Text(todos::intention_of(plan)->0);
            if json::opens(plan, '{') {
                json::fields(plan) is Some && json::field_json(
                    json::fields(plan)->0,
                    "user_intention"@,
                ) == Some(Some(said))
            } else {
                json::json_text(plan) == Some(json::JsonView::Array(seq![said]))
            }
        },
        !json::opens(plan, '{') && (exists|s: Seq<char>|
            json::json_text(plan) == #[trigger] only_text(s)) ==> todos::intention_of(plan) is Some,
{
    if !json::opens(plan, '{') {
        if let Some(json::JsonView::Array(items)) = json::json_text(plan) {
            if items.len() == 1 {
                assert(items =~= seq![items[0]]);
            }
        }
    }
}

/// An array of one text.
pub open spec fn only_text(s: Seq<char>) -> Option<json::JsonView> {
    Some(json::JsonView::Array(seq![json::JsonView::Text(s)]))
}

/// An intention is told without white space around it, and not at all where nothing is left.
pub proof fn intentions_say_something(payload: todos::PayloadView)
    ensures
        match cards::intention(payload) {
            Some(words) => words.len() > 0 && payload.user_intention is Some && words == text::trim(
                payload.user_intention->0,
            ),
            None => payload.user_intention is None || text::trim(payload.user_intention->0).len()
                == 0,
        },
{
}

} // verus!
