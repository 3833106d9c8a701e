//! The tabs of the open sessions: which there are, in which order, and in which groups.
use vstd::prelude::*;

use crate::labels;
use crate::labels::folder_session_title;
use crate::text;
use crate::text::{concat, concat3, decimal_of};

verus! {

/// An open panel: the row of the workspace it stands in, and what it is known by.
#[derive(Clone, Copy, PartialEq, Eq, Debug, Structural)]
pub struct Slot {
    pub row: usize,
    /// The panel fades away; its tab is gone already.
    pub closing: bool,
    pub key: u64,
}

/// A tab: the slot it stands for, if any, its row and its place in the row.
#[derive(Clone, Copy, PartialEq, Eq, Debug, Structural)]
pub struct TabEntry {
    pub slot: Option<usize>,
    pub row: usize,
    pub position: usize,
}

/// The first `n` slots that stand in a row and are not closing.
pub open spec fn open_in(slots: Seq<Slot>, row: int, n: int) -> Seq<int>
    decreases n,
{
    if n <= 0 {
        Seq::empty()
    } else if slots[n - 1].row == row && !slots[n - 1].closing {
        open_in(slots, row, n - 1).push(n - 1)
    } else {
        open_in(slots, row, n - 1)
    }
}

/// The tabs of one row; the active row has one even where nothing is open in it.
pub open spec fn row_tabs(slots: Seq<Slot>, row: int, active_row: int) -> Seq<TabEntry> {
    let open = open_in(slots, row, slots.len() as int);
    if open.len() == 0 {
        if row == active_row {
            seq![TabEntry { slot: None, row: row as usize, position: 0 }]
        } else {
            Seq::empty()
        }
    } else {
        Seq::new(
            open.len(),
            |i: int|
                TabEntry {
                    slot: Some(open[i] as usize),
                    row: row as usize,
                    position: i as usize,
                },
        )
    }
}

/// The tabs of the first rows.
pub open spec fn tabs_of(slots: Seq<Slot>, rows: int, active_row: int) -> Seq<TabEntry>
    decreases rows,
{
    if rows <= 0 {
        Seq::empty()
    } else {
        tabs_of(slots, rows - 1, active_row) + row_tabs(slots, rows - 1, active_row)
    }
}

proof fn lemma_open_in(slots: Seq<Slot>, row: int, n: int)
    requires
        0 <= n <= slots.len(),
    ensures
        open_in(slots, row, n).len() <= n,
        forall|i: int|
            0 <= i < open_in(slots, row, n).len() ==> 0 <= #[trigger] open_in(slots, row, n)[i] < n
                && slots[open_in(slots, row, n)[i]].row == row && !slots[open_in(
                slots,
                row,
                n,
            )[i]].closing,
        forall|k: int|
            0 <= k < n && (#[trigger] slots[k]).row == row && !slots[k].closing ==> open_in(
                slots,
                row,
                n,
            ).contains(k),
        open_in(slots, row, n).no_duplicates(),
    decreases n,
{
    if n > 0 {
        lemma_open_in(slots, row, n - 1);
        let before = open_in(slots, row, n - 1);
        let now = open_in(slots, row, n);
        assert forall|k: int|
            0 <= k < n && (#[trigger] slots[k]).row == row && !slots[k].closing implies now.contains(
            k,
        ) by {
            if k == n - 1 {
                assert(now[now.len() - 1] == k);
            } else {
                let j = choose|j: int| 0 <= j < before.len() && before[j] == k;
                assert(now[j] == k);
            }
        }
    }
}

fn push_row(tabs: &mut Vec<TabEntry>, slots: &Vec<Slot>, row: usize, active_row: usize)
    ensures
        final(tabs)@ == old(tabs)@ + row_tabs(slots@, row as int, active_row as int),
{
    let ghost before = tabs@;
    let n: usize = slots.len();
    let mut position: usize = 0;
    let mut i: usize = 0;
    let ghost all = open_in(slots@, row as int, slots@.len() as int);
    while i < n
        invariant
            i <= n,
            n == slots@.len(),
            position == open_in(slots@, row as int, i as int).len(),
            position <= i,
            tabs@.len() == before.len() + position,
            forall|k: int| 0 <= k < before.len() ==> tabs@[k] == before[k],
            forall|k: int|
                0 <= k < position ==> #[trigger] tabs@[before.len() + k] == (TabEntry {
                    slot: Some(open_in(slots@, row as int, i as int)[k] as usize),
                    row,
                    position: k as usize,
                }),
        decreases n - i,
    {
        let ghost seen = tabs@;
        if slots[i].row == row && !slots[i].closing {
            tabs.push(TabEntry { slot: Some(i), row, position });
            position += 1;
        }
        i += 1;
    }
    if position == 0 {
        if row == active_row {
            tabs.push(TabEntry { slot: None, row, position: 0 });
        }
    } else {
        assert forall|k: int| 0 <= k < position implies tabs@[before.len() + k] == row_tabs(
            slots@,
            row as int,
            active_row as int,
        )[k] by {}
    }
    assert(tabs@ =~= before + row_tabs(slots@, row as int, active_row as int));
}

/// The tabs of a workspace, row by row.
pub fn entries(slots: &Vec<Slot>, row_count: usize, active_row: usize) -> (r: Vec<TabEntry>)
    ensures
        r@ == tabs_of(slots@, row_count as int, active_row as int),
{
    let mut r: Vec<TabEntry> = Vec::new();
    let mut row: usize = 0;
    while row < row_count
        invariant
            row <= row_count,
            r@ == tabs_of(slots@, row as int, active_row as int),
        decreases row_count - row,
    {
        push_row(&mut r, slots, row, active_row);
        row += 1;
    }
    r
}

/// Whether a tab is the one in focus.
pub open spec fn is_focused(entry: TabEntry, active_row: int, active: int) -> bool {
    entry.row == active_row && (entry.slot matches Some(slot) ==> slot == active)
}

/// The first focused tab from `i` on.
pub open spec fn focused_from(tabs: Seq<TabEntry>, active_row: int, active: int, i: int) -> Option<int>
    decreases tabs.len() - i,
{
    if i < 0 || i >= tabs.len() {
        None
    } else if is_focused(tabs[i], active_row, active) {
        Some(i)
    } else {
        focused_from(tabs, active_row, active, i + 1)
    }
}

/// The tab in focus; the first one where none is.
pub fn selected(tabs: &Vec<TabEntry>, active_row: usize, active: usize) -> (r: usize)
    ensures
        r == match focused_from(tabs@, active_row as int, active as int, 0) {
            Some(i) => i,
            None => 0,
        },
{
    let n: usize = tabs.len();
    let mut i: usize = 0;
    while i < n
        invariant
            i <= n,
            n == tabs@.len(),
            focused_from(tabs@, active_row as int, active as int, 0) == focused_from(
                tabs@,
                active_row as int,
                active as int,
                i as int,
            ),
        decreases n - i,
    {
        let here = match tabs[i].slot {
            Some(slot) => slot == active,
            None => true,
        };
        if tabs[i].row == active_row && here {
            return i;
        }
        i += 1;
    }
    0
}

/// What a tab is known by from one drawing to the next: its panel's key, or a key of its
/// own for a row without panels.
pub fn tab_key(entry: TabEntry, slots: &Vec<Slot>) -> (r: u64)
    requires
        entry.slot matches Some(slot) ==> slot < slots@.len(),
    ensures
        r == match entry.slot {
            Some(slot) => slots@[slot as int].key,
            None => (u64::MAX - entry.row) as u64,
        },
{
    match entry.slot {
        Some(slot) => slots[slot].key,
        None => u64::MAX - entry.row as u64,
    }
}

/// The session that a tab stands for: its id, its title, and its icon where it has one.
#[derive(Clone, Copy, PartialEq, Eq, Debug)]
pub struct TabSession<'a> {
    pub session_id: &'a str,
    pub title: &'a str,
    pub icon: Option<&'a str>,
}

/// What a tab is called.
pub open spec fn tab_name(session: Option<TabSession>) -> Seq<char> {
    match session {
        Some(session) => text::collapse(
            match labels::own_title(session.session_id@, session.title@) {
                Some(title) => title,
                None => "New session"@,
            },
        ),
        None => "Empty workspace"@,
    }
}

/// The icon of a tab.
pub open spec fn tab_icon(session: Option<TabSession>) -> Seq<char> {
    match session {
        Some(session) => match session.icon {
            Some(icon) => icon@,
            None => "💫"@,
        },
        None => "📁"@,
    }
}

/// The title and the icon of a tab, where it stands for a session and where its row has
/// none.
pub fn tab_label(session: Option<TabSession>) -> (r: (String, String))
    ensures
        r.0@ == tab_name(session),
        r.1@ == tab_icon(session),
{
    match session {
        Some(session) => {
            let icon = match session.icon {
                Some(icon) => icon.to_owned(),
                None => "💫".to_owned(),
            };
            (folder_session_title(session.session_id, session.title), icon)
        },
        None => ("Empty workspace".to_owned(), "📁".to_owned()),
    }
}

/// What a tab's tooltip says.
pub fn tab_hint(row: usize, title: &str) -> (r: String)
    requires
        row < usize::MAX,
    ensures
        r@ == "Workspace "@ + text::decimal((row + 1) as nat) + (" · "@ + title@),
{
    concat3("Workspace ", decimal_of(row as u64 + 1).as_str(), concat(" · ", title).as_str())
}

/// Where the run of equal rows that holds `start` ends, looked for from `i`.
pub open spec fn run_end(rows: Seq<usize>, start: int, i: int) -> int
    decreases rows.len() - i,
{
    if i < rows.len() && rows[i] == rows[start] {
        run_end(rows, start, i + 1)
    } else {
        i
    }
}

/// The runs of equal rows from `start` on.
pub open spec fn runs_from(rows: Seq<usize>, start: int) -> Seq<(int, int)>
    decreases rows.len() - start,
{
    if start < 0 || start >= rows.len() {
        Seq::empty()
    } else {
        proof {
            lemma_run_end(rows, start, start + 1);
        }
        let end = run_end(rows, start, start + 1);
        seq![(start, end)] + runs_from(rows, end)
    }
}

/// A run ends behind its first row, and holds that row alone.
pub proof fn lemma_run_end(rows: Seq<usize>, start: int, i: int)
    requires
        0 <= start < i <= rows.len(),
        forall|k: int| start <= k < i ==> rows[k] == rows[start],
    ensures
        i <= run_end(rows, start, i) <= rows.len(),
        forall|k: int| start <= k < run_end(rows, start, i) ==> rows[k] == rows[start],
        run_end(rows, start, i) < rows.len() ==> rows[run_end(rows, start, i)] != rows[start],
    decreases rows.len() - i,
{
    if i < rows.len() && rows[i] == rows[start] {
        lemma_run_end(rows, start, i + 1);
    }
}

pub open spec fn run_views(v: Seq<(usize, usize)>) -> Seq<(int, int)> {
    v.map_values(|e: (usize, usize)| (e.0 as int, e.1 as int))
}

/// The groups of tabs that stand in one row of the workspace, each from its first tab up
/// to the first tab behind it.
pub fn groups(rows: &Vec<usize>) -> (r: Vec<(usize, usize)>)
    ensures
        run_views(r@) == runs_from(rows@, 0),
{
    let n: usize = rows.len();
    let mut r: Vec<(usize, usize)> = Vec::new();
    let mut start: usize = 0;
    while start < n
        invariant
            start <= n,
            n == rows@.len(),
            runs_from(rows@, 0) == run_views(r@) + runs_from(rows@, start as int),
        decreases n - start,
    {
        let mut end: usize = start + 1;
        while end < n && rows[end] == rows[start]
            invariant
                start < end <= n,
                n == rows@.len(),
                run_end(rows@, start as int, start + 1) == run_end(
                    rows@,
                    start as int,
                    end as int,
                ),
            decreases n - end,
        {
            end += 1;
        }
        let ghost before = run_views(r@);
        r.push((start, end));
        assert(run_views(r@) =~= before.push((start as int, end as int)));
        assert(before + (seq![(start as int, end as int)] + runs_from(rows@, end as int)) =~= before.push(
            (start as int, end as int),
        ) + runs_from(rows@, end as int));
        start = end;
    }
    assert(run_views(r@) + Seq::<(int, int)>::empty() =~= run_views(r@));
    r
}

/// The groups take up all tabs without a gap: each holds one row, and the next another.
pub proof fn groups_tile_the_tabs(rows: Seq<usize>, start: int)
    requires
        0 <= start <= rows.len(),
    ensures
        ({
            let g = runs_from(rows, start);
            &&& start < rows.len() ==> g.len() > 0 && g[0].0 == start && g.last().1 == rows.len()
            &&& start == rows.len() ==> g.len() == 0
            &&& forall|i: int| 0 <= i < g.len() ==> start <= (#[trigger] g[i]).0 < g[i].1
                <= rows.len()
            &&& forall|i: int, k: int|
                0 <= i < g.len() && g[i].0 <= k < g[i].1 ==> #[trigger] rows[k]
                    == rows[(#[trigger] g[i]).0]
            &&& forall|i: int|
                0 < i < g.len() ==> (#[trigger] g[i]).0 == g[i - 1].1 && rows[g[i].0]
                    != rows[g[i - 1].0]
        }),
    decreases rows.len() - start,
{
    if start < rows.len() {
        lemma_run_end(rows, start, start + 1);
        let end = run_end(rows, start, start + 1);
        groups_tile_the_tabs(rows, end);
        let rest = runs_from(rows, end);
        let g = runs_from(rows, start);
        assert(g =~= seq![(start, end)] + rest);
        assert forall|i: int| 0 <= i < g.len() implies start <= (#[trigger] g[i]).0 < g[i].1
            <= rows.len() by {
            if i > 0 {
                assert(g[i] == rest[i - 1]);
            }
        }
        assert forall|i: int, k: int|
            0 <= i < g.len() && g[i].0 <= k < g[i].1 implies #[trigger] rows[k] == rows[(
        #[trigger] g[i]).0] by {
            if i > 0 {
                assert(g[i] == rest[i - 1]);
            }
        }
        assert forall|i: int| 0 < i < g.len() implies (#[trigger] g[i]).0 == g[i - 1].1
            && rows[g[i].0] != rows[g[i - 1].0] by {
            assert(g[i] == rest[i - 1]);
            if i > 1 {
                assert(g[i - 1] == rest[i - 2]);
            }
        }
        if rest.len() > 0 {
            assert(g.last() == rest.last());
        }
    }
}

/// The group that holds the tab in focus.
pub fn active_group(groups: &Vec<(usize, usize)>, selected: usize) -> (r: Option<usize>)
    ensures
        match r {
            Some(i) => i < groups@.len() && groups@[i as int].0 <= selected < groups@[i as int].1
                && forall|k: int|
                0 <= k < i ==> !((#[trigger] groups@[k]).0 <= selected < groups@[k].1),
            None => forall|k: int|
                0 <= k < groups@.len() ==> !((#[trigger] groups@[k]).0 <= selected
                    < groups@[k].1),
        },
{
    let n: usize = groups.len();
    let mut i: usize = 0;
    while i < n
        invariant
            i <= n,
            n == groups@.len(),
            forall|k: int| 0 <= k < i ==> !((#[trigger] groups@[k]).0 <= selected < groups@[k].1),
        decreases n - i,
    {
        if groups[i].0 <= selected && selected < groups[i].1 {
            return Some(i);
        }
        i += 1;
    }
    None
}

/// The order in which tabs are drawn over each other: those before the one in focus, those
/// behind it from the last, and the one in focus on top.
pub open spec fn painted(count: int, selected: int) -> Seq<int> {
    let behind = if count > selected + 1 {
        count - selected - 1
    } else {
        0
    };
    Seq::new(
        (selected + behind + 1) as nat,
        |i: int|
            if i < selected {
                i
            } else if i < selected + behind {
                count - 1 - (i - selected)
            } else {
                selected
            },
    )
}

/// The order in which tabs are drawn over each other.
pub fn paint_order(count: usize, selected: usize) -> (r: Vec<usize>)
    requires
        selected < usize::MAX,
    ensures
        r@.len() == painted(count as int, selected as int).len(),
        forall|k: int|
            0 <= k < r@.len() ==> (#[trigger] r@[k]) as int == painted(
                count as int,
                selected as int,
            )[k],
{
    let mut r: Vec<usize> = Vec::new();
    let ghost all = painted(count as int, selected as int);
    let mut i: usize = 0;
    while i < selected
        invariant
            i <= selected,
            all == painted(count as int, selected as int),
            r@.len() == i,
            forall|k: int| 0 <= k < i ==> r@[k] as int == all[k],
        decreases selected - i,
    {
        r.push(i);
        i += 1;
    }
    let mut j: usize = count;
    while j > selected + 1
        invariant
            selected < usize::MAX,
            j <= count,
            j >= selected + 1 || j == count,
            all == painted(count as int, selected as int),
            r@.len() == selected + (count - j),
            forall|k: int| 0 <= k < r@.len() ==> r@[k] as int == all[k],
        decreases j,
    {
        j -= 1;
        r.push(j);
    }
    r.push(selected);
    r
}

/// Every tab is drawn exactly once, and the one in focus last.
pub proof fn every_tab_is_painted_once(count: int, selected: int)
    requires
        0 <= selected < count,
    ensures
        painted(count, selected).len() == count,
        painted(count, selected).last() == selected,
        painted(count, selected).no_duplicates(),
        forall|tab: int| 0 <= tab < count ==> painted(count, selected).contains(tab),
        forall|i: int| 0 <= i < count ==> 0 <= #[trigger] painted(count, selected)[i] < count,
{
    let order = painted(count, selected);
    assert forall|tab: int| 0 <= tab < count implies order.contains(tab) by {
        if tab < selected {
            assert(order[tab] == tab);
        } else if tab == selected {
            assert(order[count - 1] == tab);
        } else {
            assert(order[selected + (count - 1 - tab)] == tab);
        }
    }
}

proof fn lemma_tab_rows(slots: Seq<Slot>, rows: int, active_row: int)
    requires
        0 <= rows <= usize::MAX,
        slots.len() <= usize::MAX,
    ensures
        forall|i: int|
            0 <= i < tabs_of(slots, rows, active_row).len() ==> (#[trigger] tabs_of(
                slots,
                rows,
                active_row,
            )[i]).row < rows,
    decreases rows,
{
    if rows > 0 {
        lemma_tab_rows(slots, rows - 1, active_row);
        lemma_open_in(slots, rows - 1, slots.len() as int);
    }
}

/// Every open panel has a tab; one that closes has none.
pub proof fn open_panels_have_a_tab(slots: Seq<Slot>, rows: int, active_row: int, slot: int)
    requires
        0 <= rows <= usize::MAX,
        slots.len() <= usize::MAX,
        0 <= slot < slots.len(),
    ensures
        (exists|i: int|
            0 <= i < tabs_of(slots, rows, active_row).len() && (#[trigger] tabs_of(
                slots,
                rows,
                active_row,
            )[i]).slot == Some(slot as usize)) == (slots[slot].row < rows && !slots[slot].closing),
    decreases rows,
{
    let now = tabs_of(slots, rows, active_row);
    if rows > 0 {
        let before = tabs_of(slots, rows - 1, active_row);
        let added = row_tabs(slots, rows - 1, active_row);
        let open = open_in(slots, rows - 1, slots.len() as int);
        open_panels_have_a_tab(slots, rows - 1, active_row, slot);
        lemma_open_in(slots, rows - 1, slots.len() as int);
        if slots[slot].row == rows - 1 && !slots[slot].closing {
            assert(open.contains(slot));
            let j = choose|j: int| 0 <= j < open.len() && open[j] == slot;
            assert(added[j].slot == Some(slot as usize));
            assert(now[before.len() + j] == added[j]);
        } else if slots[slot].row < rows && !slots[slot].closing {
            let i = choose|i: int|
                0 <= i < before.len() && (#[trigger] before[i]).slot == Some(slot as usize);
            assert(now[i] == before[i]);
        } else {
            assert forall|i: int| 0 <= i < now.len() implies (#[trigger] now[i]).slot != Some(
                slot as usize,
            ) by {
                if i < before.len() {
                    assert(now[i] == before[i]);
                } else {
                    let k = i - before.len();
                    assert(now[i] == added[k]);
                    if open.len() > 0 {
                        assert(0 <= open[k] < slots.len());
                    }
                }
            }
        }
    }
}

/// Tabs follow the rows of the workspace from the first to the last.
pub proof fn tabs_follow_the_rows(slots: Seq<Slot>, rows: int, active_row: int)
    requires
        0 <= rows <= usize::MAX,
        slots.len() <= usize::MAX,
    ensures
        forall|i: int, j: int|
            0 <= i <= j < tabs_of(slots, rows, active_row).len() ==> (#[trigger] tabs_of(
                slots,
                rows,
                active_row,
            )[i]).row <= (#[trigger] tabs_of(slots, rows, active_row)[j]).row,
    decreases rows,
{
    if rows > 0 {
        tabs_follow_the_rows(slots, rows - 1, active_row);
        lemma_tab_rows(slots, rows - 1, active_row);
        let before = tabs_of(slots, rows - 1, active_row);
        let added = row_tabs(slots, rows - 1, active_row);
        let now = tabs_of(slots, rows, active_row);
        assert forall|i: int, j: int| 0 <= i <= j < now.len() implies (#[trigger] now[i]).row <= (
        #[trigger] now[j]).row by {
            if j < before.len() {
                assert(now[i] == before[i] && now[j] == before[j]);
            } else {
                assert(now[j] == added[j - before.len()]);
                if i < before.len() {
                    assert(now[i] == before[i]);
                } else {
                    assert(now[i] == added[i - before.len()]);
                }
            }
        }
    }
}

/// How many tabs stand first in their row.
pub open spec fn first_tabs(tabs: Seq<TabEntry>) -> nat
    decreases tabs.len(),
{
    if tabs.len() == 0 {
        0
    } else {
        first_tabs(tabs.drop_last()) + if tabs.last().position == 0 {
            1nat
        } else {
            0
        }
    }
}

pub open spec fn rows_of(tabs: Seq<TabEntry>) -> Seq<usize> {
    tabs.map_values(|entry: TabEntry| entry.row)
}

proof fn lemma_run_stays(rows: Seq<usize>, more: Seq<usize>, start: int, i: int)
    requires
        0 <= start < i <= rows.len(),
        more.len() > 0,
        more[0] != rows[start],
    ensures
        run_end(rows + more, start, i) == run_end(rows, start, i),
    decreases rows.len() - i,
{
    if i < rows.len() && rows[i] == rows[start] {
        lemma_run_stays(rows, more, start, i + 1);
    }
}

proof fn lemma_one_run(rows: Seq<usize>, start: int, i: int)
    requires
        0 <= start < i <= rows.len(),
        forall|k: int| start <= k < rows.len() ==> #[trigger] rows[k] == rows[start],
    ensures
        run_end(rows, start, i) == rows.len(),
    decreases rows.len() - i,
{
    if i < rows.len() {
        lemma_one_run(rows, start, i + 1);
    }
}

proof fn lemma_run_is_added(rows: Seq<usize>, more: Seq<usize>, start: int)
    requires
        0 <= start <= rows.len(),
        more.len() > 0,
        forall|k: int| 0 <= k < more.len() ==> #[trigger] more[k] == more[0],
        forall|k: int| 0 <= k < rows.len() ==> #[trigger] rows[k] != more[0],
    ensures
        runs_from(rows + more, start).len() == runs_from(rows, start).len() + 1,
    decreases rows.len() - start,
{
    let all = rows + more;
    if start < rows.len() {
        lemma_run_end(rows, start, start + 1);
        lemma_run_stays(rows, more, start, start + 1);
        lemma_run_is_added(rows, more, run_end(rows, start, start + 1));
    } else {
        assert forall|k: int| start <= k < all.len() implies #[trigger] all[k] == all[start] by {
            assert(all[k] == more[k - start]);
        }
        lemma_one_run(all, start, start + 1);
        assert(runs_from(all, all.len() as int).len() == 0);
    }
}

proof fn lemma_first_tabs_add(a: Seq<TabEntry>, b: Seq<TabEntry>)
    ensures
        first_tabs(a + b) == first_tabs(a) + first_tabs(b),
    decreases b.len(),
{
    if b.len() == 0 {
        assert(a + b =~= a);
    } else {
        lemma_first_tabs_add(a, b.drop_last());
        assert((a + b).drop_last() =~= a + b.drop_last());
    }
}

proof fn lemma_one_first_tab(tabs: Seq<TabEntry>)
    requires
        forall|i: int| 0 <= i < tabs.len() ==> ((#[trigger] tabs[i]).position == 0) == (i == 0),
    ensures
        first_tabs(tabs) == if tabs.len() > 0 {
            1nat
        } else {
            0
        },
    decreases tabs.len(),
{
    if tabs.len() > 0 {
        lemma_one_first_tab(tabs.drop_last());
    }
}

/// There are as many groups as there are tabs that stand first in their row.
pub proof fn first_tabs_count_the_groups(slots: Seq<Slot>, rows: int, active_row: int)
    requires
        0 <= rows <= usize::MAX,
        slots.len() <= usize::MAX,
    ensures
        runs_from(rows_of(tabs_of(slots, rows, active_row)), 0).len() == first_tabs(
            tabs_of(slots, rows, active_row),
        ),
    decreases rows,
{
    if rows > 0 {
        first_tabs_count_the_groups(slots, rows - 1, active_row);
        lemma_tab_rows(slots, rows - 1, active_row);
        lemma_open_in(slots, rows - 1, slots.len() as int);
        let before = tabs_of(slots, rows - 1, active_row);
        let added = row_tabs(slots, rows - 1, active_row);
        lemma_first_tabs_add(before, added);
        lemma_one_first_tab(added);
        assert(rows_of(before + added) =~= rows_of(before) + rows_of(added));
        if added.len() > 0 {
            assert forall|k: int| 0 <= k < before.len() implies rows_of(before)[k] != rows_of(
                added,
            )[0] by {
                assert(before[k].row < rows - 1);
            }
            lemma_run_is_added(rows_of(before), rows_of(added), 0);
        } else {
            assert(before + added =~= before);
        }
    }
}

/// How many groups of tabs there are.
pub fn group_count(tabs: &Vec<TabEntry>) -> (r: usize)
    ensures
        r == first_tabs(tabs@),
{
    let n: usize = tabs.len();
    let mut count: usize = 0;
    let mut i: usize = 0;
    assert(tabs@.take(0) =~= Seq::empty());
    while i < n
        invariant
            i <= n,
            n == tabs@.len(),
            count <= i,
            count == first_tabs(tabs@.take(i as int)),
        decreases n - i,
    {
        assert(tabs@.take(i + 1).drop_last() =~= tabs@.take(i as int));
        assert(tabs@.take(i + 1).last() == tabs@[i as int]);
        if tabs[i].position == 0 {
            count += 1;
        }
        i += 1;
    }
    assert(tabs@.take(n as int) =~= tabs@);
    count
}

} // verus!
