//! The view of a task service's open tasks.
use vstd::prelude::*;

use crate::events::copy_text;
use crate::order;
use crate::order::stable_order;
use crate::text;
use crate::text::{among, concat, concat3, decimal_of, same, trimmed};
use crate::todos::Tone;

verus! {

#[derive(Debug, PartialEq, Eq)]
pub struct TodoistTask {
    pub id: String,
    pub content: String,
    pub project_id: String,
    /// From one, the least urgent, to four.
    pub priority: u8,
    pub due: Option<String>,
}

#[derive(Debug, PartialEq, Eq)]
pub struct TodoistProject {
    pub id: String,
    pub name: String,
    pub color: Option<String>,
}

#[derive(Debug, PartialEq, Eq)]
pub enum TodoistLoadState {
    Loading,
    Ready,
    Error(String),
}

/// The tasks, and what is under way with them.
#[derive(Debug, PartialEq, Eq)]
pub struct TodoistPanelState {
    pub load: TodoistLoadState,
    pub tasks: Vec<TodoistTask>,
    pub projects: Vec<TodoistProject>,
    pub selected_project: Option<String>,
    pub busy_tasks: Vec<String>,
}

/// The tone of a task's mark.
pub fn todoist_priority_color(priority: u8) -> (r: Tone)
    ensures
        r == (if priority == 4 {
            Tone::Bad
        } else if priority == 3 {
            Tone::Warn
        } else if priority == 2 {
            Tone::Accent
        } else {
            Tone::Faint
        }),
{
    if priority == 4 {
        Tone::Bad
    } else if priority == 3 {
        Tone::Warn
    } else if priority == 2 {
        Tone::Accent
    } else {
        Tone::Faint
    }
}

/// The tone of a project's mark, by the name of its color.
pub open spec fn tone_of(color: Seq<char>) -> Tone {
    if color == "berry_red"@ || color == "red"@ {
        Tone::Bad
    } else if color == "orange"@ || color == "yellow"@ {
        Tone::Warn
    } else if color == "blue"@ || color == "light_blue"@ || color == "teal"@ {
        Tone::Accent
    } else if color == "green"@ || color == "lime_green"@ || color == "mint_green"@ {
        Tone::AiAccent
    } else if color == "purple"@ || color == "violet"@ || color == "magenta"@ || color
        == "lavender"@ {
        Tone::UserAccent
    } else {
        Tone::Faint
    }
}

pub fn todoist_named_color(color: Option<&str>) -> (r: Tone)
    ensures
        r == tone_of(
            match color {
                Some(color) => color@,
                None => ""@,
            },
        ),
{
    let c = color.unwrap_or("");
    if same(c, "berry_red") || same(c, "red") {
        Tone::Bad
    } else if same(c, "orange") || same(c, "yellow") {
        Tone::Warn
    } else if same(c, "blue") || same(c, "light_blue") || same(c, "teal") {
        Tone::Accent
    } else if same(c, "green") || same(c, "lime_green") || same(c, "mint_green") {
        Tone::AiAccent
    } else if same(c, "purple") || same(c, "violet") || same(c, "magenta") || same(c, "lavender") {
        Tone::UserAccent
    } else {
        Tone::Faint
    }
}

/// Whether a task is in the selected project, where one is.
pub open spec fn in_view(task: TodoistTask, selected: Option<String>) -> bool {
    match selected {
        Some(project) => task.project_id@ == project@,
        None => true,
    }
}

/// The positions of the tasks in view.
pub open spec fn visible(tasks: Seq<TodoistTask>, selected: Option<String>) -> Seq<int>
    decreases tasks.len(),
{
    if tasks.len() == 0 {
        Seq::empty()
    } else {
        let before = visible(tasks.drop_last(), selected);
        if in_view(tasks.last(), selected) {
            before.push(tasks.len() - 1)
        } else {
            before
        }
    }
}

/// The keys that put the most urgent task first.
pub open spec fn urgency(tasks: Seq<TodoistTask>, shown: Seq<int>) -> Seq<(u128, u64)> {
    shown.map_values(|i: int| ((255 - tasks[i].priority) as u128, 0u64))
}

/// The positions of the tasks in view, the most urgent first.
pub open spec fn listed(tasks: Seq<TodoistTask>, selected: Option<String>) -> Seq<int> {
    let shown = visible(tasks, selected);
    let o = order::order_of(urgency(tasks, shown));
    Seq::new(shown.len(), |k: int| shown[o[k]])
}

/// The name of the first project from `from` on with the given id.
pub open spec fn project_name(projects: Seq<TodoistProject>, id: Seq<char>, from: int) -> Option<
    Seq<char>,
>
    decreases projects.len() - from,
{
    if from < 0 || from >= projects.len() {
        None
    } else if projects[from].id@ == id {
        Some(projects[from].name@)
    } else {
        project_name(projects, id, from + 1)
    }
}

/// The notes below a task.
#[derive(Debug, PartialEq, Eq)]
pub struct TaskNotes {
    pub due: Option<String>,
    pub project: Option<String>,
    pub priority: Option<String>,
    pub busy: bool,
}

/// Whether a task is the sample of the given number.
pub open spec fn is_sample(task: TodoistTask, index: int) -> bool {
    &&& task.id@ == "task-"@ + text::decimal(index as nat)
    &&& task.content@ == "Task "@ + text::decimal(index as nat)
        + ": review the scrolling task list"@
    &&& task.project_id@ == "inbox"@
    &&& task.priority == 1
    &&& task.due is None
}

/// Whether a state shows as many sample tasks as given, and nothing else.
pub open spec fn is_fixture(state: TodoistPanelState, count: int) -> bool {
    &&& state.load is Ready
    &&& state.tasks@.len() == count
    &&& forall|i: int| 0 <= i < count ==> is_sample(#[trigger] state.tasks@[i], i)
    &&& state.projects@.len() == 0
    &&& state.selected_project is None
    &&& state.busy_tasks@.len() == 0
}

impl TodoistPanelState {
    /// As many sample tasks as given, to lay out without the service.
    pub fn fixture(count: usize) -> (r: TodoistPanelState)
        ensures
            is_fixture(r, count as int),
    {
        let mut tasks: Vec<TodoistTask> = Vec::new();
        let mut i: usize = 0;
        while i < count
            invariant
                i <= count,
                tasks@.len() == i,
                forall|k: int| 0 <= k < i ==> is_sample(#[trigger] tasks@[k], k),
            decreases count - i,
        {
            let number = decimal_of(i as u64);
            tasks.push(
                TodoistTask {
                    id: concat("task-", number.as_str()),
                    content: concat3(
                        "Task ",
                        number.as_str(),
                        ": review the scrolling task list",
                    ),
                    project_id: "inbox".to_owned(),
                    priority: 1,
                    due: None,
                },
            );
            i += 1;
        }
        TodoistPanelState {
            load: TodoistLoadState::Ready,
            tasks,
            projects: Vec::new(),
            selected_project: None,
            busy_tasks: Vec::new(),
        }
    }

    /// Nothing loaded yet.
    pub fn new() -> (r: TodoistPanelState)
        ensures
            r.load is Loading,
            r.tasks@.len() == 0,
            r.projects@.len() == 0,
            r.selected_project is None,
            r.busy_tasks@.len() == 0,
    {
        TodoistPanelState {
            load: TodoistLoadState::Loading,
            tasks: Vec::new(),
            projects: Vec::new(),
            selected_project: None,
            busy_tasks: Vec::new(),
        }
    }

    /// The tasks are loaded anew; those at hand stay until then.
    pub fn refresh(&mut self)
        ensures
            *final(self) == (TodoistPanelState { load: TodoistLoadState::Loading, ..*old(self) }),
    {
        self.load = TodoistLoadState::Loading;
    }

    /// Tasks and projects were loaded, or were not.
    pub fn refreshed(
        &mut self,
        result: Result<(Vec<TodoistTask>, Vec<TodoistProject>), String>,
    )
        ensures
            *final(self) == match result {
                Ok((tasks, projects)) => TodoistPanelState {
                    tasks,
                    projects,
                    load: TodoistLoadState::Ready,
                    ..*old(self)
                },
                Err(error) => TodoistPanelState {
                    load: TodoistLoadState::Error(error),
                    ..*old(self)
                },
            },
    {
        match result {
            Ok((tasks, projects)) => {
                self.tasks = tasks;
                self.projects = projects;
                self.load = TodoistLoadState::Ready;
            },
            Err(error) => {
                self.load = TodoistLoadState::Error(error);
            },
        }
    }

    /// What to create for a line that was typed: its text, in the selected project. An
    /// empty line creates nothing.
    pub fn new_task(&self, content: &str) -> (r: Option<(String, Option<String>)>)
        ensures
            match r {
                Some((text, project)) => text@ == text::trim(content@) && text@.len() > 0
                    && project == self.selected_project,
                None => text::trim(content@).len() == 0,
            },
    {
        let text = trimmed(content);
        if text.as_str().is_empty() {
            None
        } else {
            Some((text, copy_text(&self.selected_project)))
        }
    }

    /// A task was created, or was not.
    pub fn created(&mut self, result: Result<TodoistTask, String>)
        ensures
            final(self).projects == old(self).projects,
            final(self).selected_project == old(self).selected_project,
            final(self).busy_tasks == old(self).busy_tasks,
            match result {
                Ok(task) => final(self).tasks@ == old(self).tasks@.push(task) && final(self).load is Ready,
                Err(error) => final(self).tasks@ == old(self).tasks@ && final(self).load
                    == TodoistLoadState::Error(error),
            },
    {
        match result {
            Ok(task) => {
                self.tasks.push(task);
                self.load = TodoistLoadState::Ready;
            },
            Err(error) => {
                self.load = TodoistLoadState::Error(error);
            },
        }
    }

    /// A task is being completed.
    pub fn complete(&mut self, id: &str)
        ensures
            final(self).load == old(self).load,
            final(self).tasks == old(self).tasks,
            final(self).projects == old(self).projects,
            final(self).selected_project == old(self).selected_project,
            text::texts(final(self).busy_tasks@) == (if text::texts(old(self).busy_tasks@).contains(
                id@,
            ) {
                text::texts(old(self).busy_tasks@)
            } else {
                text::texts(old(self).busy_tasks@).push(id@)
            }),
    {
        if !among(&self.busy_tasks, id) {
            let ghost before = text::texts(self.busy_tasks@);
            self.busy_tasks.push(id.to_owned());
            assert(text::texts(self.busy_tasks@) =~= before.push(id@));
        }
    }

    /// A task was completed, or was not. No task is under way any more.
    pub fn completed(&mut self, result: Result<String, String>)
        ensures
            final(self).projects == old(self).projects,
            final(self).selected_project == old(self).selected_project,
            final(self).busy_tasks@.len() == 0,
            match result {
                Ok(id) => final(self).tasks@ == remaining(old(self).tasks@, id@) && final(self).load
                    == old(self).load,
                Err(error) => final(self).tasks@ == old(self).tasks@ && final(self).load
                    == TodoistLoadState::Error(error),
            },
    {
        match result {
            Ok(id) => {
                let ghost all = self.tasks@;
                let ghost mut seen: int = 0;
                let mut i: usize = 0;
                assert(all.skip(0) == all);
                assert(self.tasks@.take(0) == remaining(all.take(0), id@));
                while i < self.tasks.len()
                    invariant
                        0 <= i <= self.tasks@.len(),
                        0 <= seen <= all.len(),
                        all.len() - seen == self.tasks@.len() - i,
                        self.tasks@.take(i as int) == remaining(all.take(seen), id@),
                        self.tasks@.skip(i as int) == all.skip(seen),
                        all == old(self).tasks@,
                        self.projects == old(self).projects,
                        self.selected_project == old(self).selected_project,
                        self.load == old(self).load,
                    decreases self.tasks@.len() - i,
                {
                    let ghost now = self.tasks@;
                    assert(all.take(seen + 1).drop_last() == all.take(seen));
                    assert(now.skip(i as int)[0] == now[i as int]);
                    assert(all.skip(seen)[0] == all[seen]);
                    assert(all.skip(seen).skip(1) == all.skip(seen + 1));
                    if same(self.tasks[i].id.as_str(), id.as_str()) {
                        let _ = self.tasks.remove(i);
                        assert(self.tasks@.take(i as int) =~= now.take(i as int));
                        assert(self.tasks@.skip(i as int) =~= now.skip(i as int).skip(1));
                    } else {
                        i += 1;
                        assert(now.take(i as int) =~= now.take(i - 1).push(now[i - 1]));
                        assert(now.skip(i as int) =~= now.skip(i - 1).skip(1));
                    }
                    proof {
                        seen = seen + 1;
                    }
                }
                assert(all.take(seen) == all);
                assert(self.tasks@.take(i as int) == self.tasks@);
            },
            Err(error) => {
                self.load = TodoistLoadState::Error(error);
            },
        }
        self.busy_tasks = Vec::new();
    }

    /// The positions of the tasks in view, the most urgent first.
    pub fn listed_tasks(&self) -> (r: Vec<usize>)
        ensures
            order::positions(r@) == listed(self.tasks@, self.selected_project),
            forall|k: int| 0 <= k < r@.len() ==> #[trigger] r@[k] < self.tasks@.len(),
    {
        let ghost tasks = self.tasks@;
        let mut shown: Vec<usize> = Vec::new();
        let mut keys: Vec<(u128, u64)> = Vec::new();
        let mut i: usize = 0;
        assert(order::positions(shown@) =~= visible(tasks.take(0), self.selected_project));
        while i < self.tasks.len()
            invariant
                0 <= i <= self.tasks@.len(),
                tasks == self.tasks@,
                order::positions(shown@) == visible(tasks.take(i as int), self.selected_project),
                shown@.len() == keys@.len(),
                forall|k: int| 0 <= k < shown@.len() ==> #[trigger] shown@[k] < i,
                forall|k: int|
                    0 <= k < keys@.len() ==> #[trigger] keys@[k] == (
                        (255 - tasks[shown@[k] as int].priority) as u128,
                        0u64,
                    ),
            decreases self.tasks@.len() - i,
        {
            let task = &self.tasks[i];
            assert(tasks.take(i + 1).drop_last() == tasks.take(i as int));
            let ghost before = order::positions(shown@);
            let hit = match &self.selected_project {
                Some(project) => same(task.project_id.as_str(), project.as_str()),
                None => true,
            };
            if hit {
                shown.push(i);
                keys.push(((255 - task.priority) as u128, 0));
                assert(order::positions(shown@) =~= before.push(i as int));
            }
            i += 1;
        }
        assert(tasks.take(i as int) == tasks);
        let ghost wanted = visible(tasks, self.selected_project);
        assert(keys@ =~= urgency(tasks, wanted)) by {
            assert forall|k: int| 0 <= k < keys@.len() implies #[trigger] keys@[k] == urgency(
                tasks,
                wanted,
            )[k] by {
                assert(wanted[k] == shown@[k]);
            }
        }
        let order = stable_order(&keys);
        let ghost o = order::order_of(urgency(tasks, wanted));
        let mut r: Vec<usize> = Vec::new();
        let mut k: usize = 0;
        while k < order.len()
            invariant
                0 <= k <= order@.len(),
                r@.len() == k,
                o == order::positions(order@),
                order::is_order(o, keys@),
                keys@.len() == shown@.len(),
                forall|m: int| 0 <= m < shown@.len() ==> #[trigger] shown@[m] < self.tasks@.len(),
                forall|m: int| 0 <= m < k ==> #[trigger] r@[m] == shown@[o[m]],
                forall|m: int| 0 <= m < k ==> #[trigger] r@[m] < self.tasks@.len(),
            decreases order@.len() - k,
        {
            assert(o[k as int] == order@[k as int]);
            r.push(shown[order[k]]);
            k += 1;
        }
        assert(order::positions(r@) =~= listed(tasks, self.selected_project)) by {
            assert forall|m: int| 0 <= m < r@.len() implies r@[m] as int == #[trigger] listed(
                tasks,
                self.selected_project,
            )[m] by {
                assert(r@[m] == shown@[o[m]]);
                assert(0 <= o[m] < keys@.len());
                assert(wanted[o[m]] == shown@[o[m]]);
            }
        }
        r
    }

    /// What to say in place of tasks.
    pub fn empty_message(&self) -> (r: String)
        ensures
            r@ == match self.load {
                TodoistLoadState::Loading => "Loading Todoist…"@,
                TodoistLoadState::Ready => "No open tasks in this view."@,
                TodoistLoadState::Error(error) => error@
                    + "\n\nSet TODOIST_API_TOKEN, then refresh. The token is never written to Jcode config."@,
            },
    {
        match &self.load {
            TodoistLoadState::Loading => "Loading Todoist…".to_owned(),
            TodoistLoadState::Ready => "No open tasks in this view.".to_owned(),
            TodoistLoadState::Error(error) => concat(
                error.as_str(),
                "\n\nSet TODOIST_API_TOKEN, then refresh. The token is never written to Jcode config.",
            ),
        }
    }

    /// The line below the title.
    pub fn heading(&self) -> (r: String)
        ensures
            r@ == text::decimal(self.tasks@.len()) + " open · synced with Todoist"@,
    {
        concat(decimal_of(self.tasks.len() as u64).as_str(), " open · synced with Todoist")
    }

    /// The notes below a task. A priority is noted as the service's users count it, from
    /// one, the most urgent.
    pub fn notes(&self, task: &TodoistTask) -> (r: TaskNotes)
        requires
            task.priority <= 5,
        ensures
            text::text_option(r.due) == match task.due {
                Some(due) => Some("◷ "@ + due@),
                None => None,
            },
            text::text_option(r.project) == match project_name(
                self.projects@,
                task.project_id@,
                0,
            ) {
                Some(name) => Some("# "@ + name),
                None => None,
            },
            text::text_option(r.priority) == (if task.priority > 1 {
                Some("P"@ + text::decimal((5 - task.priority) as nat))
            } else {
                None
            }),
            r.busy == text::texts(self.busy_tasks@).contains(task.id@),
    {
        let due = match &task.due {
            Some(due) => Some(concat("◷ ", due.as_str())),
            None => None,
        };
        let mut project: Option<String> = None;
        let mut i: usize = 0;
        while i < self.projects.len() && project.is_none()
            invariant
                0 <= i <= self.projects@.len(),
                match project {
                    Some(words) => project_name(self.projects@, task.project_id@, 0) matches Some(
                        name,
                    ) && words@ == "# "@ + name,
                    None => project_name(self.projects@, task.project_id@, 0) == project_name(
                        self.projects@,
                        task.project_id@,
                        i as int,
                    ),
                },
            decreases self.projects@.len() - i,
        {
            if same(self.projects[i].id.as_str(), task.project_id.as_str()) {
                project = Some(concat("# ", self.projects[i].name.as_str()));
            }
            i += 1;
        }
        let priority = if task.priority > 1 {
            Some(concat("P", decimal_of((5 - task.priority) as u64).as_str()))
        } else {
            None
        };
        TaskNotes { due, project, priority, busy: among(&self.busy_tasks, task.id.as_str()) }
    }
}

/// The tasks other than the one with the given id.
pub open spec fn remaining(tasks: Seq<TodoistTask>, id: Seq<char>) -> Seq<TodoistTask>
    decreases tasks.len(),
{
    if tasks.len() == 0 {
        tasks
    } else if tasks.last().id@ == id {
        remaining(tasks.drop_last(), id)
    } else {
        remaining(tasks.drop_last(), id).push(tasks.last())
    }
}

/// A completed task is gone from the list.
pub proof fn completed_task_is_gone(tasks: Seq<TodoistTask>, id: Seq<char>)
    ensures
        forall|k: int|
            0 <= k < remaining(tasks, id).len() ==> (#[trigger] remaining(tasks, id)[k]).id@ != id,
    decreases tasks.len(),
{
    if tasks.len() > 0 {
        completed_task_is_gone(tasks.drop_last(), id);
    }
}

} // verus!
