//! The sessions that the sidebar lists: the runtime's own list, completed by what its
//! store keeps on disk.
use vstd::prelude::*;

use crate::events::{copy_text, SessionInfo};
use crate::harness;
use crate::harness::session_recency_ms;
use crate::json;
use crate::json::{parse_json, Json};
use crate::order;
use crate::order::stable_order;
use crate::remote::is_remote;
use crate::text;
use crate::text::{among, concat3, lowered, same, same_ignoring_case, trimmed};

verus! {

/// The most sessions that the sidebar shows.
pub const MAX_PERSISTED_SIDEBAR_SESSIONS: usize = 100;

/// How much of a long transcript is read at either end for its metadata.
pub const SIDEBAR_METADATA_WINDOW: usize = 65536;

#[verifier::ext_equal]
pub struct SessionView {
    pub session_id: Seq<char>,
    pub working_dir: Option<Seq<char>>,
    pub title: Option<Seq<char>>,
    pub status: Seq<char>,
    pub transcript_bytes: Option<u64>,
    pub saved: bool,
    pub updated_at_ms: Option<i64>,
    pub last_active_at_ms: Option<i64>,
    pub archived: bool,
    pub archived_at_ms: Option<i64>,
    pub parent_session_id: Option<Seq<char>>,
    pub agent_label: Option<Seq<char>>,
    pub swarm_status: Option<Seq<char>>,
    pub edit_stats: Option<Seq<char>>,
}

impl View for SessionInfo {
    type V = SessionView;

    open spec fn view(&self) -> SessionView {
        SessionView {
            session_id: self.session_id@,
            working_dir: text::text_option(self.working_dir),
            title: text::text_option(self.title),
            status: self.status@,
            transcript_bytes: self.transcript_bytes,
            saved: self.saved,
            updated_at_ms: self.updated_at_ms,
            last_active_at_ms: self.last_active_at_ms,
            archived: self.archived,
            archived_at_ms: self.archived_at_ms,
            parent_session_id: text::text_option(self.parent_session_id),
            agent_label: text::text_option(self.agent_label),
            swarm_status: text::text_option(self.swarm_status),
            edit_stats: text::text_option(self.edit_stats),
        }
    }
}

pub open spec fn session_views(v: Seq<SessionInfo>) -> Seq<SessionView> {
    v.map_values(|s: SessionInfo| s@)
}

/// A session's own record, without its messages.
#[derive(Debug, PartialEq, Eq)]
pub struct PersistedSession {
    pub working_dir: Option<String>,
    pub title: Option<String>,
    pub custom_title: Option<String>,
    pub saved: bool,
    pub status: Json,
}

#[verifier::ext_equal]
pub struct RecordView {
    pub working_dir: Option<Seq<char>>,
    pub title: Option<Seq<char>>,
    pub custom_title: Option<Seq<char>>,
    pub saved: bool,
    pub status: json::JsonView,
}

impl View for PersistedSession {
    type V = RecordView;

    open spec fn view(&self) -> RecordView {
        RecordView {
            working_dir: text::text_option(self.working_dir),
            title: text::text_option(self.title),
            custom_title: text::text_option(self.custom_title),
            saved: self.saved,
            status: self.status@,
        }
    }
}

/// A session's file in the store, with its record where that was read and is sound.
#[derive(Debug, PartialEq, Eq)]
pub struct SessionFile {
    pub id: String,
    /// When it was last written, in milliseconds since the epoch; zero where unknown.
    pub modified_ms: u128,
    pub transcript_bytes: Option<u64>,
    pub record: Option<PersistedSession>,
}

#[verifier::ext_equal]
pub struct FileView {
    pub id: Seq<char>,
    pub modified_ms: u128,
    pub transcript_bytes: Option<u64>,
    pub record: Option<RecordView>,
}

impl View for SessionFile {
    type V = FileView;

    open spec fn view(&self) -> FileView {
        FileView {
            id: self.id@,
            modified_ms: self.modified_ms,
            transcript_bytes: self.transcript_bytes,
            record: match self.record {
                Some(record) => Some(record@),
                None => None,
            },
        }
    }
}

/// One entry of a session's list of todos.
#[derive(Debug, PartialEq, Eq)]
pub struct PersistedTodo {
    pub content: String,
    pub status: String,
    pub group: Option<String>,
}

#[verifier::ext_equal]
pub struct TodoView {
    pub content: Seq<char>,
    pub status: Seq<char>,
    pub group: Option<Seq<char>>,
}

impl View for PersistedTodo {
    type V = TodoView;

    open spec fn view(&self) -> TodoView {
        TodoView {
            content: self.content@,
            status: self.status@,
            group: text::text_option(self.group),
        }
    }
}

pub open spec fn todo_views(v: Seq<PersistedTodo>) -> Seq<TodoView> {
    v.map_values(|t: PersistedTodo| t@)
}

/// What the store keeps of a session's todos: the list, where it is sound, and the
/// intention of its plan.
#[derive(Debug, PartialEq, Eq)]
pub struct TodoFile {
    pub session_id: String,
    pub todos: Option<Vec<PersistedTodo>>,
    pub user_intention: Option<String>,
}

#[verifier::ext_equal]
pub struct TodoFileView {
    pub session_id: Seq<char>,
    pub todos: Option<Seq<TodoView>>,
    pub user_intention: Option<Seq<char>>,
}

impl View for TodoFile {
    type V = TodoFileView;

    open spec fn view(&self) -> TodoFileView {
        TodoFileView {
            session_id: self.session_id@,
            todos: match self.todos {
                Some(todos) => Some(todo_views(todos@)),
                None => None,
            },
            user_intention: text::text_option(self.user_intention),
        }
    }
}

/// What was read of the store.
#[derive(Debug, PartialEq, Eq)]
pub struct SessionStore {
    pub archived: Vec<String>,
    pub files: Vec<SessionFile>,
    pub todo_files: Vec<TodoFile>,
}

#[verifier::ext_equal]
pub struct StoreView {
    pub archived: Seq<Seq<char>>,
    pub files: Seq<FileView>,
    pub todo_files: Seq<TodoFileView>,
}

impl View for SessionStore {
    type V = StoreView;

    open spec fn view(&self) -> StoreView {
        StoreView {
            archived: text::texts(self.archived@),
            files: file_views(self.files@),
            todo_files: self.todo_files@.map_values(|f: TodoFile| f@),
        }
    }
}

pub open spec fn file_views(v: Seq<SessionFile>) -> Seq<FileView> {
    v.map_values(|f: SessionFile| f@)
}

pub open spec fn is_lifecycle_status(name: Seq<char>) -> bool {
    name == "active"@ || name == "closed"@ || name == "crashed"@ || name == "reloaded"@ || name
        == "compacted"@ || name == "ratelimited"@ || name == "rate_limited"@ || name == "error"@
}

/// The name of a stored status: a text, or the first key of an object with details.
pub open spec fn status_name(status: json::JsonView) -> Seq<char> {
    match status {
        json::JsonView::Text(name) => name,
        json::JsonView::Object(entries) => if entries.len() > 0 {
            entries[0].0
        } else {
            "idle"@
        },
        _ => "idle"@,
    }
}

/// The status to show for a stored one: a known name in lower case, else idle.
pub open spec fn shown_status(status: json::JsonView) -> Seq<char> {
    let name = text::lower_all(status_name(status));
    if is_lifecycle_status(name) {
        name
    } else {
        "idle"@
    }
}

pub fn persisted_session_status(status: &Json) -> (r: String)
    ensures
        r@ == shown_status(status@),
{
    let name: &str = match status {
        Json::Text(name) => name.as_str(),
        Json::Object(entries) => if entries.len() > 0 {
            assert(status@->Object_0[0].0 == entries@[0].0@);
            entries[0].0.as_str()
        } else {
            "idle"
        },
        _ => "idle",
    };
    let owned = lowered(name);
    let n = owned.as_str();
    if same(n, "active") || same(n, "closed") || same(n, "crashed") || same(n, "reloaded") || same(
        n,
        "compacted",
    ) || same(n, "ratelimited") || same(n, "rate_limited") || same(n, "error") {
        owned
    } else {
        "idle".to_owned()
    }
}

/// The text without surrounding white space, where that leaves anything.
pub open spec fn non_blank(value: Option<Seq<char>>) -> Option<Seq<char>> {
    match value {
        Some(s) if text::trim(s).len() > 0 => Some(text::trim(s)),
        _ => None,
    }
}

pub open spec fn status_is(todo: TodoView, status: Seq<char>) -> bool {
    text::lower_all(todo.status) == text::lower_all(status)
}

/// The last todo that is in progress.
pub open spec fn last_in_progress(todos: Seq<TodoView>) -> Option<TodoView>
    decreases todos.len(),
{
    if todos.len() == 0 {
        None
    } else if status_is(todos.last(), "in_progress"@) {
        Some(todos.last())
    } else {
        last_in_progress(todos.drop_last())
    }
}

/// The last todo that is not completed.
pub open spec fn last_open(todos: Seq<TodoView>) -> Option<TodoView>
    decreases todos.len(),
{
    if todos.len() == 0 {
        None
    } else if !status_is(todos.last(), "completed"@) {
        Some(todos.last())
    } else {
        last_open(todos.drop_last())
    }
}

/// The todo that stands for the session's work: the last in progress, else the last
/// open one, else the last.
pub open spec fn current_todo(todos: Seq<TodoView>) -> Option<TodoView> {
    match last_in_progress(todos) {
        Some(todo) => Some(todo),
        None => match last_open(todos) {
            Some(todo) => Some(todo),
            None => if todos.len() > 0 {
                Some(todos.last())
            } else {
                None
            },
        },
    }
}

/// The first entry of the given session from `from` on.
pub open spec fn todo_file_of(files: Seq<TodoFileView>, id: Seq<char>, from: int) -> Option<
    TodoFileView,
>
    decreases files.len() - from,
{
    if from < 0 || from >= files.len() {
        None
    } else if files[from].session_id == id {
        Some(files[from])
    } else {
        todo_file_of(files, id, from + 1)
    }
}

/// The title that a session's todos give it: the current todo's group, else the plan's
/// intention, else the current todo's text.
pub open spec fn todo_title(todos: Seq<TodoView>, intention: Option<Seq<char>>) -> Option<
    Seq<char>,
> {
    let current = current_todo(todos);
    let group = match current {
        Some(todo) => non_blank(todo.group),
        None => None,
    };
    if group is Some {
        group
    } else if non_blank(intention) is Some {
        non_blank(intention)
    } else {
        match current {
            Some(todo) => non_blank(Some(todo.content)),
            None => None,
        }
    }
}

/// The title that the store's todos give a session; a remote session has none here.
pub open spec fn stored_title(store: StoreView, id: Seq<char>) -> Option<Seq<char>> {
    if text::starts(id, "ssh://"@) {
        None
    } else {
        match todo_file_of(store.todo_files, id, 0) {
            Some(file) => todo_title(
                match file.todos {
                    Some(todos) => todos,
                    None => Seq::empty(),
                },
                file.user_intention,
            ),
            None => None,
        }
    }
}

fn non_blank_of(value: Option<&String>) -> (r: Option<String>)
    ensures
        text::text_option(r) == non_blank(
            match value {
                Some(s) => Some(s@),
                None => None,
            },
        ),
{
    match value {
        Some(s) => {
            let t = trimmed(s.as_str());
            if t.as_str().is_empty() {
                None
            } else {
                Some(t)
            }
        },
        None => None,
    }
}

fn find_todo_file<'a>(store: &'a SessionStore, id: &str) -> (r: Option<&'a TodoFile>)
    ensures
        match r {
            Some(file) => todo_file_of(store@.todo_files, id@, 0) == Some(file@),
            None => todo_file_of(store@.todo_files, id@, 0) is None,
        },
{
    let ghost all = store@.todo_files;
    let mut i: usize = 0;
    while i < store.todo_files.len()
        invariant
            0 <= i <= store.todo_files@.len(),
            all == store.todo_files@.map_values(|f: TodoFile| f@),
            all == store@.todo_files,
            todo_file_of(all, id@, 0) == todo_file_of(all, id@, i as int),
        decreases store.todo_files@.len() - i,
    {
        assert(all[i as int] == store.todo_files@[i as int]@);
        if same(store.todo_files[i].session_id.as_str(), id) {
            return Some(&store.todo_files[i]);
        }
        i += 1;
    }
    None
}

/// The last todo whose status is the given one, or is not, as `wanted` says.
fn last_todo<'a>(todos: &'a Vec<PersistedTodo>, in_progress: bool) -> (r: Option<&'a PersistedTodo>)
    ensures
        match r {
            Some(todo) => (if in_progress {
                last_in_progress(todo_views(todos@))
            } else {
                last_open(todo_views(todos@))
            }) == Some(todo@),
            None => (if in_progress {
                last_in_progress(todo_views(todos@))
            } else {
                last_open(todo_views(todos@))
            }) is None,
        },
{
    let ghost all = todo_views(todos@);
    let mut n: usize = todos.len();
    assert(all.take(n as int) == all);
    while n > 0
        invariant
            n <= todos@.len(),
            all == todo_views(todos@),
            last_in_progress(all) == last_in_progress(all.take(n as int)) || !in_progress,
            last_open(all) == last_open(all.take(n as int)) || in_progress,
        decreases n,
    {
        let todo = &todos[n - 1];
        assert(all.take(n as int).last() == todo@);
        assert(all.take(n as int).drop_last() == all.take(n - 1));
        let hit = if in_progress {
            same_ignoring_case(todo.status.as_str(), "in_progress")
        } else {
            !same_ignoring_case(todo.status.as_str(), "completed")
        };
        if hit {
            return Some(todo);
        }
        n -= 1;
    }
    None
}

fn current_of<'a>(todos: &'a Vec<PersistedTodo>) -> (r: Option<&'a PersistedTodo>)
    ensures
        match r {
            Some(todo) => current_todo(todo_views(todos@)) == Some(todo@),
            None => current_todo(todo_views(todos@)) is None,
        },
{
    if let Some(todo) = last_todo(todos, true) {
        return Some(todo);
    }
    if let Some(todo) = last_todo(todos, false) {
        return Some(todo);
    }
    if todos.len() > 0 {
        assert(todo_views(todos@).last() == todos@.last()@);
        Some(&todos[todos.len() - 1])
    } else {
        None
    }
}

/// The title that a session's todos give it.
pub fn title_of_todos(todos: &Vec<PersistedTodo>, intention: Option<&String>) -> (r: Option<String>)
    ensures
        text::text_option(r) == todo_title(
            todo_views(todos@),
            match intention {
                Some(s) => Some(s@),
                None => None,
            },
        ),
{
    let current = current_of(todos);
    if let Some(todo) = current {
        let group = non_blank_of(todo.group.as_ref());
        if group.is_some() {
            return group;
        }
    }
    let plan = non_blank_of(intention);
    if plan.is_some() {
        return plan;
    }
    match current {
        Some(todo) => non_blank_of(Some(&todo.content)),
        None => None,
    }
}

/// The title that the store's todos give a session.
pub fn persisted_todo_title(store: &SessionStore, session_id: &str) -> (r: Option<String>)
    ensures
        text::text_option(r) == stored_title(store@, session_id@),
{
    if is_remote(session_id) {
        return None;
    }
    match find_todo_file(store, session_id) {
        Some(file) => match &file.todos {
            Some(todos) => title_of_todos(todos, file.user_intention.as_ref()),
            None => {
                let none: Vec<PersistedTodo> = Vec::new();
                assert(todo_views(none@) =~= Seq::empty());
                title_of_todos(&none, file.user_intention.as_ref())
            },
        },
        None => None,
    }
}

/// A todo that is left to do.
#[derive(Debug, PartialEq, Eq)]
pub struct UnfinishedTodo {
    pub content: String,
    pub status: String,
    pub group: Option<String>,
}

impl View for UnfinishedTodo {
    type V = TodoView;

    open spec fn view(&self) -> TodoView {
        TodoView {
            content: self.content@,
            status: self.status@,
            group: text::text_option(self.group),
        }
    }
}

/// A session with work left.
#[derive(Debug, PartialEq, Eq)]
pub struct UnfinishedSession {
    pub session_id: String,
    pub title: String,
    pub working_dir: Option<String>,
    pub todos: Vec<UnfinishedTodo>,
}

#[verifier::ext_equal]
pub struct UnfinishedView {
    pub session_id: Seq<char>,
    pub title: Seq<char>,
    pub working_dir: Option<Seq<char>>,
    pub todos: Seq<TodoView>,
}

impl View for UnfinishedSession {
    type V = UnfinishedView;

    open spec fn view(&self) -> UnfinishedView {
        UnfinishedView {
            session_id: self.session_id@,
            title: self.title@,
            working_dir: text::text_option(self.working_dir),
            todos: self.todos@.map_values(|t: UnfinishedTodo| t@),
        }
    }
}

/// The todos that are not completed.
pub open spec fn open_todos(todos: Seq<TodoView>) -> Seq<TodoView>
    decreases todos.len(),
{
    if todos.len() == 0 {
        todos
    } else if status_is(todos.last(), "completed"@) {
        open_todos(todos.drop_last())
    } else {
        open_todos(todos.drop_last()).push(todos.last())
    }
}

pub open spec fn is_running_status(status: Seq<char>) -> bool {
    status == "active"@ || status == "running"@ || status == "working"@
}

/// What is left to do in a session: it is of this host, does not run, and has todos
/// that are not completed.
pub open spec fn left_in(session: SessionView, store: StoreView) -> Option<UnfinishedView> {
    if text::starts(session.session_id, "ssh://"@) || is_running_status(session.status) {
        None
    } else {
        match todo_file_of(store.todo_files, session.session_id, 0) {
            Some(TodoFileView { session_id, todos: Some(todos), user_intention }) => {
                let left = open_todos(todos);
                if left.len() == 0 {
                    None
                } else {
                    Some(
                        UnfinishedView {
                            session_id: session.session_id,
                            title: match session.title {
                                Some(title) if text::trim(title).len() > 0 => title,
                                _ => match stored_title(store, session.session_id) {
                                    Some(title) => title,
                                    None => session.session_id,
                                },
                            },
                            working_dir: session.working_dir,
                            todos: left,
                        },
                    )
                }
            },
            _ => None,
        }
    }
}

/// The sessions with work left, in their order.
pub open spec fn unfinished(sessions: Seq<SessionView>, store: StoreView) -> Seq<UnfinishedView>
    decreases sessions.len(),
{
    if sessions.len() == 0 {
        Seq::empty()
    } else {
        let before = unfinished(sessions.drop_last(), store);
        match left_in(sessions.last(), store) {
            Some(session) => before.push(session),
            None => before,
        }
    }
}

fn collect_open(todos: &Vec<PersistedTodo>) -> (r: Vec<UnfinishedTodo>)
    ensures
        r@.map_values(|t: UnfinishedTodo| t@) == open_todos(todo_views(todos@)),
{
    let ghost all = todo_views(todos@);
    let mut r: Vec<UnfinishedTodo> = Vec::new();
    assert(r@.map_values(|t: UnfinishedTodo| t@) =~= Seq::empty());
    assert(all.take(0) =~= Seq::empty());
    let mut i: usize = 0;
    while i < todos.len()
        invariant
            0 <= i <= todos@.len(),
            all == todo_views(todos@),
            r@.map_values(|t: UnfinishedTodo| t@) == open_todos(all.take(i as int)),
        decreases todos@.len() - i,
    {
        let todo = &todos[i];
        assert(all.take(i + 1).drop_last() == all.take(i as int));
        assert(all.take(i + 1).last() == todo@);
        let ghost before = r@.map_values(|t: UnfinishedTodo| t@);
        if !same_ignoring_case(todo.status.as_str(), "completed") {
            let kept = UnfinishedTodo {
                content: todo.content.clone(),
                status: todo.status.clone(),
                group: copy_text(&todo.group),
            };
            assert(kept@ == todo@);
            r.push(kept);
            assert(r@.map_values(|t: UnfinishedTodo| t@) =~= before.push(todo@));
        }
        i += 1;
    }
    assert(all.take(i as int) == all);
    r
}

fn left_of(session: &SessionInfo, store: &SessionStore) -> (r: Option<UnfinishedSession>)
    ensures
        match r {
            Some(left) => left_in(session@, store@) == Some(left@),
            None => left_in(session@, store@) is None,
        },
{
    let id = session.session_id.as_str();
    let status = session.status.as_str();
    if is_remote(id) || same(status, "active") || same(status, "running") || same(status, "working") {
        return None;
    }
    let todos = match find_todo_file(store, id) {
        Some(file) => match &file.todos {
            Some(todos) => collect_open(todos),
            None => return None,
        },
        None => return None,
    };
    if todos.len() == 0 {
        return None;
    }
    let own = match &session.title {
        Some(title) => if trimmed(title.as_str()).as_str().is_empty() {
            None
        } else {
            Some(title.clone())
        },
        None => None,
    };
    let title = match own {
        Some(title) => title,
        None => match persisted_todo_title(store, id) {
            Some(title) => title,
            None => session.session_id.clone(),
        },
    };
    Some(
        UnfinishedSession {
            session_id: session.session_id.clone(),
            title,
            working_dir: copy_text(&session.working_dir),
            todos,
        },
    )
}

/// The sessions with work left, by what the store keeps of their todos.
pub fn unfinished_sessions(sessions: &Vec<SessionInfo>, store: &SessionStore) -> (r: Vec<
    UnfinishedSession,
>)
    ensures
        r@.map_values(|u: UnfinishedSession| u@) == unfinished(session_views(sessions@), store@),
{
    let ghost all = session_views(sessions@);
    let mut r: Vec<UnfinishedSession> = Vec::new();
    assert(r@.map_values(|u: UnfinishedSession| u@) =~= Seq::empty());
    let mut i: usize = 0;
    while i < sessions.len()
        invariant
            0 <= i <= sessions@.len(),
            all == session_views(sessions@),
            r@.map_values(|u: UnfinishedSession| u@) == unfinished(all.take(i as int), store@),
        decreases sessions@.len() - i,
    {
        assert(all.take(i + 1).drop_last() == all.take(i as int));
        assert(all.take(i + 1).last() == sessions@[i as int]@);
        let ghost before = r@.map_values(|u: UnfinishedSession| u@);
        if let Some(left) = left_of(&sessions[i], store) {
            let ghost added = left@;
            r.push(left);
            assert(r@.map_values(|u: UnfinishedSession| u@) =~= before.push(added));
        }
        i += 1;
    }
    assert(all.take(i as int) == all);
    r
}


/// The ids that an archive file lists: the names under its `sessions`.
pub open spec fn archived_in(archive: json::JsonView) -> Seq<Seq<char>> {
    match archive.get("sessions"@) {
        Some(json::JsonView::Object(entries)) => entries.map_values(
            |e: (Seq<char>, json::JsonView)| e.0,
        ),
        _ => Seq::empty(),
    }
}

/// The ids that an archive file lists.
pub fn archived_ids(archive: &Json) -> (r: Vec<String>)
    ensures
        text::texts(r@) == archived_in(archive@),
{
    let mut r: Vec<String> = Vec::new();
    if let Some(Json::Object(entries)) = archive.get("sessions") {
        let ghost wanted = archived_in(archive@);
        let mut i: usize = 0;
        while i < entries.len()
            invariant
                0 <= i <= entries@.len(),
                r@.len() == i,
                wanted.len() == entries@.len(),
                forall|k: int| 0 <= k < entries@.len() ==> #[trigger] wanted[k] == entries@[k].0@,
                forall|k: int| 0 <= k < i ==> (#[trigger] r@[k])@ == wanted[k],
            decreases entries@.len() - i,
        {
            r.push(entries[i].0.clone());
            i += 1;
        }
        assert(text::texts(r@) =~= wanted);
    } else {
        assert(text::texts(r@) =~= Seq::empty());
    }
    r
}

/// The ids that the text of an archive file lists; what is no JSON lists none.
pub fn read_archive(text: &str) -> (r: Vec<String>)
    ensures
        text::texts(r@) == match json::json_text(text@) {
            Some(archive) => archived_in(archive),
            None => Seq::empty(),
        },
{
    match parse_json(text) {
        Some(archive) => archived_ids(&archive),
        None => {
            let none: Vec<String> = Vec::new();
            assert(text::texts(none@) =~= Seq::empty());
            none
        },
    }
}

/// Whether `p` stands in `s` at position `i`.
pub open spec fn bytes_at(s: Seq<u8>, p: Seq<u8>, i: int) -> bool {
    0 <= i && i + p.len() <= s.len() && s.subrange(i, i + p.len()) == p
}

/// The first position from `i` on at which `p` stands in `s`.
pub open spec fn first_bytes(s: Seq<u8>, p: Seq<u8>, i: int) -> Option<int>
    decreases s.len() + 1 - i,
{
    if i < 0 || i > s.len() {
        None
    } else if bytes_at(s, p, i) {
        Some(i)
    } else {
        first_bytes(s, p, i + 1)
    }
}

/// The last position below `i` at which `p` stands in `s`.
pub open spec fn last_bytes(s: Seq<u8>, p: Seq<u8>, i: int) -> Option<int>
    decreases i,
{
    if i <= 0 {
        None
    } else if bytes_at(s, p, i - 1) {
        Some(i - 1)
    } else {
        last_bytes(s, p, i - 1)
    }
}

/// A field's name as it stands in a JSON text.
pub open spec fn quoted(field: Seq<char>) -> Seq<u8> {
    vstd::utf8::encode_utf8("\""@ + field + "\""@)
}

pub open spec fn is_ascii_space(b: u8) -> bool {
    b == 32 || b == 9 || b == 10 || b == 12 || b == 13
}

/// The bytes without leading ASCII white space.
pub open spec fn trim_bytes(s: Seq<u8>) -> Seq<u8>
    decreases s.len(),
{
    if s.len() > 0 && is_ascii_space(s[0]) {
        trim_bytes(s.drop_first())
    } else {
        s
    }
}

/// What stands behind the name of a field and its colon, at the first or at the last
/// place where the name occurs.
pub open spec fn field_rest(bytes: Seq<u8>, field: Seq<char>, last: bool) -> Option<Seq<u8>> {
    let name = quoted(field);
    let place = if last {
        last_bytes(bytes, name, bytes.len() as int + 1)
    } else {
        first_bytes(bytes, name, 0)
    };
    match place {
        Some(i) => {
            let rest = bytes.subrange(i + name.len(), bytes.len() as int);
            if rest.len() > 0 && rest[0] == 58 {
                Some(trim_bytes(rest.drop_first()))
            } else {
                None
            }
        },
        None => None,
    }
}

fn matches_at(s: &[u8], p: &[u8], i: usize) -> (r: bool)
    ensures
        r == bytes_at(s@, p@, i as int),
{
    if p.len() > s.len() || i > s.len() - p.len() {
        return false;
    }
    let n: usize = s.len();
    let mut k: usize = 0;
    while k < p.len()
        invariant
            0 <= k <= p@.len(),
            i + p@.len() <= s@.len(),
            n == s@.len(),
            forall|m: int| 0 <= m < k ==> s@[i + m] == p@[m],
        decreases p@.len() - k,
    {
        if s[i + k] != p[k] {
            assert(s@.subrange(i as int, i + p@.len())[k as int] != p@[k as int]);
            return false;
        }
        k += 1;
    }
    assert(s@.subrange(i as int, i + p@.len()) =~= p@);
    true
}

fn place_of(s: &[u8], p: &[u8], last: bool) -> (r: Option<usize>)
    ensures
        match r {
            Some(i) => (if last {
                last_bytes(s@, p@, s@.len() as int + 1)
            } else {
                first_bytes(s@, p@, 0)
            }) == Some(i as int) && i + p@.len() <= s@.len(),
            None => (if last {
                last_bytes(s@, p@, s@.len() as int + 1)
            } else {
                first_bytes(s@, p@, 0)
            }) is None,
        },
{
    let n: usize = s.len();
    if last {
        if matches_at(s, p, n) {
            return Some(n);
        }
        let mut i: usize = n;
        while i > 0
            invariant
                i <= n,
                n == s@.len(),
                last,
                last_bytes(s@, p@, s@.len() as int + 1) == last_bytes(s@, p@, i as int),
            decreases i,
        {
            if matches_at(s, p, i - 1) {
                return Some(i - 1);
            }
            i -= 1;
        }
        None
    } else {
        let mut i: usize = 0;
        while i < n
            invariant
                i <= n,
                n == s@.len(),
                !last,
                first_bytes(s@, p@, 0) == first_bytes(s@, p@, i as int),
            decreases n - i,
        {
            if matches_at(s, p, i) {
                return Some(i);
            }
            i += 1;
        }
        if matches_at(s, p, n) {
            Some(n)
        } else {
            assert(first_bytes(s@, p@, n + 1) is None);
            None
        }
    }
}

/// The position of the value of a field within the bytes.
fn value_start(bytes: &[u8], field: &str, last: bool) -> (r: Option<usize>)
    ensures
        match r {
            Some(i) => i <= bytes@.len() && field_rest(bytes@, field@, last) == Some(
                bytes@.subrange(i as int, bytes@.len() as int),
            ),
            None => field_rest(bytes@, field@, last) is None,
        },
{
    let name = concat3("\"", field, "\"");
    let needle = name.as_str().as_bytes();
    let n: usize = bytes.len();
    match place_of(bytes, needle, last) {
        Some(at) => {
            let mut i: usize = at + needle.len();
            let ghost rest = bytes@.subrange(i as int, bytes@.len() as int);
            if i >= n || bytes[i] != 58 {
                return None;
            }
            i += 1;
            assert(rest.drop_first() =~= bytes@.subrange(i as int, n as int));
            while i < n && (bytes[i] == 32 || bytes[i] == 9 || bytes[i] == 10 || bytes[i] == 12
                || bytes[i] == 13)
                invariant
                    i <= n,
                    n == bytes@.len(),
                    trim_bytes(rest.drop_first()) == trim_bytes(
                        bytes@.subrange(i as int, n as int),
                    ),
                decreases n - i,
            {
                assert(bytes@.subrange(i as int, n as int).drop_first() =~= bytes@.subrange(
                    i + 1,
                    n as int,
                ));
                i += 1;
            }
            Some(i)
        },
        None => None,
    }
}

/// The text, if any, that the first JSON value in the bytes holds.
pub uninterp spec fn leading_text(bytes: Seq<u8>) -> Option<Seq<char>>;

/// The first JSON value in the bytes.
pub uninterp spec fn leading_value(bytes: Seq<u8>) -> Option<json::JsonView>;

/// The first item of `serde_json::Deserializer::into_iter` over the bytes, read as an
/// optional text: it depends on the bytes alone.
#[verifier::external_body]
fn read_leading_text(bytes: &[u8]) -> (r: Option<String>)
    ensures
        text::text_option(r) == leading_text(bytes@),
{
    serde_json::Deserializer::from_slice(bytes).into_iter::<Option<String>>().next()?.ok().flatten()
}

/// The first item of `serde_json::Deserializer::into_iter` over the bytes, read as a
/// value: it depends on the bytes alone.
#[verifier::external_body]
fn read_leading_value(bytes: &[u8]) -> (r: Option<serde_json::Value>)
    ensures
        match r {
            Some(value) => leading_value(bytes@) == Some(json::json_content(value)),
            None => leading_value(bytes@) is None,
        },
{
    serde_json::Deserializer::from_slice(bytes).into_iter::<serde_json::Value>().next()?.ok()
}

/// The text of a field that was found in the middle of a JSON document.
pub fn json_string_field(bytes: &[u8], field: &str, last: bool) -> (r: Option<String>)
    ensures
        text::text_option(r) == match field_rest(bytes@, field@, last) {
            Some(rest) => leading_text(rest),
            None => None,
        },
{
    match value_start(bytes, field, last) {
        Some(i) => read_leading_text(vstd::slice::slice_subrange(bytes, i, bytes.len())),
        None => None,
    }
}

/// The value of a field that was found in the middle of a JSON document.
pub fn json_value_field(bytes: &[u8], field: &str, last: bool) -> (r: Option<Json>)
    ensures
        json::json_option(r) == match field_rest(bytes@, field@, last) {
            Some(rest) => leading_value(rest),
            None => None,
        },
{
    match value_start(bytes, field, last) {
        Some(i) => match read_leading_value(
            vstd::slice::slice_subrange(bytes, i, bytes.len()),
        ) {
            Some(value) => Some(json::json_of(value)),
            None => None,
        },
        None => None,
    }
}

pub open spec fn text_field(bytes: Seq<u8>, field: Seq<char>, last: bool) -> Option<Seq<char>> {
    match field_rest(bytes, field, last) {
        Some(rest) => leading_text(rest),
        None => None,
    }
}

pub open spec fn value_field(bytes: Seq<u8>, field: Seq<char>, last: bool) -> Option<
    json::JsonView,
> {
    match field_rest(bytes, field, last) {
        Some(rest) => leading_value(rest),
        None => None,
    }
}

/// A long transcript's record, from the fields before and behind its messages.
pub fn read_persisted_session(head: &[u8], tail: &[u8]) -> (r: PersistedSession)
    ensures
        r@ == (RecordView {
            working_dir: text_field(tail@, "working_dir"@, true),
            title: text_field(head@, "title"@, false),
            custom_title: match text_field(head@, "custom_title"@, false) {
                Some(title) => Some(title),
                None => text_field(tail@, "custom_title"@, true),
            },
            saved: value_field(tail@, "saved"@, true) == Some(json::JsonView::Bool(true)),
            status: match value_field(tail@, "status"@, true) {
                Some(status) => status,
                None => json::JsonView::Null,
            },
        }),
{
    let custom_title = match json_string_field(head, "custom_title", false) {
        Some(title) => Some(title),
        None => json_string_field(tail, "custom_title", true),
    };
    let saved = match json_value_field(tail, "saved", true) {
        Some(Json::Bool(saved)) => saved,
        _ => false,
    };
    let status = match json_value_field(tail, "status", true) {
        Some(status) => status,
        None => Json::Null,
    };
    PersistedSession {
        working_dir: json_string_field(tail, "working_dir", true),
        title: json_string_field(head, "title", false),
        custom_title,
        saved,
        status,
    }
}

/// The sessions that are archived neither by themselves nor by the store.
pub open spec fn live(sessions: Seq<SessionView>, store: StoreView) -> Seq<SessionView>
    decreases sessions.len(),
{
    if sessions.len() == 0 {
        sessions
    } else {
        let before = live(sessions.drop_last(), store);
        let session = sessions.last();
        if session.archived || store.archived.contains(session.session_id) {
            before
        } else {
            before.push(session)
        }
    }
}

/// The record in the first file of the given id from `from` on.
pub open spec fn record_of(files: Seq<FileView>, id: Seq<char>, from: int) -> Option<RecordView>
    decreases files.len() - from,
{
    if from < 0 || from >= files.len() {
        None
    } else if files[from].id == id {
        files[from].record
    } else {
        record_of(files, id, from + 1)
    }
}

/// The session with the status that its record keeps; a remote session has no record here.
pub open spec fn with_status(session: SessionView, store: StoreView) -> SessionView {
    if text::starts(session.session_id, "ssh://"@) {
        session
    } else {
        match record_of(store.files, session.session_id, 0) {
            Some(record) => SessionView { status: shown_status(record.status), ..session },
            None => session,
        }
    }
}

pub open spec fn is_blank(title: Option<Seq<char>>) -> bool {
    match title {
        Some(title) => text::trim(title).len() == 0,
        None => true,
    }
}

/// The session with a title from its todos, where it has none of its own.
pub open spec fn titled(session: SessionView, store: StoreView) -> SessionView {
    if is_blank(session.title) {
        SessionView { title: stored_title(store, session.session_id), ..session }
    } else {
        session
    }
}

/// When a file's session was last active: when it was written, else the time in its id.
pub open spec fn recency(file: FileView) -> u128 {
    if file.modified_ms != 0 {
        file.modified_ms
    } else {
        stamp_or_zero(file.id)
    }
}

pub open spec fn stamp_or_zero(id: Seq<char>) -> u128 {
    match harness::stamp_of(id) {
        Some(stamp) => stamp,
        None => 0,
    }
}

/// The files of sessions that are neither archived nor among the known ones.
pub open spec fn candidates(
    files: Seq<FileView>,
    archived: Seq<Seq<char>>,
    known: Seq<Seq<char>>,
) -> Seq<FileView>
    decreases files.len(),
{
    if files.len() == 0 {
        files
    } else {
        let before = candidates(files.drop_last(), archived, known);
        let file = files.last();
        if archived.contains(file.id) || known.contains(file.id) {
            before
        } else {
            before.push(file)
        }
    }
}

/// The keys that put the most recent file first.
pub open spec fn newest_first(files: Seq<FileView>) -> Seq<(u128, u64)> {
    files.map_values(|f: FileView| ((u128::MAX - recency(f)) as u128, 0u64))
}

/// The most recent files, no more than the sidebar shows.
pub open spec fn picked(files: Seq<FileView>) -> Seq<FileView> {
    let o = order::order_of(newest_first(files));
    Seq::new(
        if files.len() <= MAX_PERSISTED_SIDEBAR_SESSIONS {
            files.len()
        } else {
            MAX_PERSISTED_SIDEBAR_SESSIONS as nat
        },
        |k: int| files[o[k]],
    )
}

/// The session that a file's record describes.
pub open spec fn stored_session(file: FileView, record: RecordView, store: StoreView) -> SessionView {
    SessionView {
        session_id: file.id,
        working_dir: record.working_dir,
        title: if !is_blank(record.custom_title) {
            record.custom_title
        } else if stored_title(store, file.id) is Some {
            stored_title(store, file.id)
        } else if !is_blank(record.title) {
            record.title
        } else {
            None
        },
        status: shown_status(record.status),
        transcript_bytes: file.transcript_bytes,
        saved: record.saved,
        updated_at_ms: if recency(file) <= i64::MAX {
            Some(recency(file) as i64)
        } else {
            None
        },
        last_active_at_ms: None,
        archived: false,
        archived_at_ms: None,
        parent_session_id: None,
        agent_label: None,
        swarm_status: None,
        edit_stats: None,
    }
}

pub open spec fn file_ids(files: Seq<FileView>) -> Seq<Seq<char>> {
    files.map_values(|f: FileView| f.id)
}

/// The sessions of the files that have a sound record, one for each id.
pub open spec fn stored_sessions(files: Seq<FileView>, store: StoreView) -> Seq<SessionView>
    decreases files.len(),
{
    if files.len() == 0 {
        Seq::empty()
    } else {
        let before = stored_sessions(files.drop_last(), store);
        let file = files.last();
        if file_ids(files.drop_last()).contains(file.id) {
            before
        } else {
            match file.record {
                Some(record) => before.push(stored_session(file, record, store)),
                None => before,
            }
        }
    }
}

/// When a session was last active, by the last file of its id that is not archived,
/// else by the time in its id.
pub open spec fn activity(
    id: Seq<char>,
    files: Seq<FileView>,
    archived: Seq<Seq<char>>,
) -> u128
    decreases files.len(),
{
    if files.len() == 0 {
        stamp_or_zero(id)
    } else if files.last().id == id && !archived.contains(id) {
        recency(files.last())
    } else {
        activity(id, files.drop_last(), archived)
    }
}

pub open spec fn by_activity(sessions: Seq<SessionView>, store: StoreView) -> Seq<(u128, u64)> {
    sessions.map_values(
        |s: SessionView| (activity(s.session_id, store.files, store.archived), 0u64),
    )
}

pub open spec fn session_ids(sessions: Seq<SessionView>) -> Seq<Seq<char>> {
    sessions.map_values(|s: SessionView| s.session_id)
}

pub open spec fn live_with_status(sessions: Seq<SessionView>, store: StoreView) -> Seq<SessionView> {
    live(sessions, store).map_values(|s: SessionView| with_status(s, store))
}

/// The runtime's sessions and those of the most recent other files, each with a title
/// where one is known.
pub open spec fn gathered(sessions: Seq<SessionView>, store: StoreView) -> Seq<SessionView> {
    let current = live_with_status(sessions, store);
    let found = stored_sessions(
        picked(candidates(store.files, store.archived, session_ids(current))),
        store,
    );
    (current + found).map_values(|s: SessionView| titled(s, store))
}

/// The sidebar's sessions, the latest active last. A full list of the runtime's stands
/// by itself, turned round; a shorter one is completed from the store.
pub open spec fn sidebar(sessions: Seq<SessionView>, store: StoreView) -> Seq<SessionView> {
    let current = live_with_status(sessions, store);
    if current.len() >= MAX_PERSISTED_SIDEBAR_SESSIONS {
        current.map_values(|s: SessionView| titled(s, store)).reverse()
    } else {
        let all = gathered(sessions, store);
        let o = order::order_of(by_activity(all, store));
        Seq::new(all.len(), |k: int| all[o[k]])
    }
}

fn copy_session(session: &SessionInfo) -> (r: SessionInfo)
    ensures
        r == *session,
{
    SessionInfo {
        session_id: session.session_id.clone(),
        working_dir: copy_text(&session.working_dir),
        title: copy_text(&session.title),
        status: session.status.clone(),
        transcript_bytes: session.transcript_bytes,
        saved: session.saved,
        updated_at_ms: session.updated_at_ms,
        last_active_at_ms: session.last_active_at_ms,
        archived: session.archived,
        archived_at_ms: session.archived_at_ms,
        parent_session_id: copy_text(&session.parent_session_id),
        agent_label: copy_text(&session.agent_label),
        swarm_status: copy_text(&session.swarm_status),
        edit_stats: copy_text(&session.edit_stats),
    }
}

fn find_record<'a>(store: &'a SessionStore, id: &str) -> (r: Option<&'a PersistedSession>)
    ensures
        match r {
            Some(record) => record_of(store@.files, id@, 0) == Some(record@),
            None => record_of(store@.files, id@, 0) is None,
        },
{
    let ghost all = store@.files;
    let mut i: usize = 0;
    while i < store.files.len()
        invariant
            0 <= i <= store.files@.len(),
            all == file_views(store.files@),
            all == store@.files,
            record_of(all, id@, 0) == record_of(all, id@, i as int),
        decreases store.files@.len() - i,
    {
        assert(all[i as int] == store.files@[i as int]@);
        if same(store.files[i].id.as_str(), id) {
            return store.files[i].record.as_ref();
        }
        i += 1;
    }
    None
}

fn live_sessions(sessions: &Vec<SessionInfo>, store: &SessionStore) -> (r: Vec<SessionInfo>)
    ensures
        session_views(r@) == live_with_status(session_views(sessions@), store@),
{
    let ghost all = session_views(sessions@);
    let ghost f = |s: SessionView| with_status(s, store@);
    let mut r: Vec<SessionInfo> = Vec::new();
    assert(session_views(r@) =~= live(all.take(0), store@).map_values(f));
    let mut i: usize = 0;
    while i < sessions.len()
        invariant
            0 <= i <= sessions@.len(),
            all == session_views(sessions@),
            f == |s: SessionView| with_status(s, store@),
            session_views(r@) == live(all.take(i as int), store@).map_values(f),
        decreases sessions@.len() - i,
    {
        let session = &sessions[i];
        assert(all.take(i + 1).drop_last() == all.take(i as int));
        assert(all.take(i + 1).last() == session@);
        let ghost before = live(all.take(i as int), store@);
        let ghost r_before = session_views(r@);
        if !session.archived && !among(&store.archived, session.session_id.as_str()) {
            let mut kept = copy_session(session);
            if !is_remote(session.session_id.as_str()) {
                if let Some(record) = find_record(store, session.session_id.as_str()) {
                    kept.status = persisted_session_status(&record.status);
                }
            }
            assert(kept@ =~= with_status(session@, store@));
            r.push(kept);
            assert(session_views(r@) =~= r_before.push(f(session@)));
            assert(before.push(session@).map_values(f) =~= before.map_values(f).push(f(session@)));
        }
        i += 1;
    }
    assert(all.take(i as int) == all);
    r
}

fn fill_titles(sessions: &mut Vec<SessionInfo>, store: &SessionStore)
    ensures
        session_views(final(sessions)@) == session_views(old(sessions)@).map_values(
            |s: SessionView| titled(s, store@),
        ),
{
    let ghost before = session_views(sessions@);
    let n: usize = sessions.len();
    let mut i: usize = 0;
    while i < n
        invariant
            0 <= i <= n,
            n == sessions@.len(),
            n == before.len(),
            forall|k: int| 0 <= k < i ==> (#[trigger] sessions@[k])@ == titled(before[k], store@),
            forall|k: int| i <= k < n ==> (#[trigger] sessions@[k])@ == before[k],
        decreases n - i,
    {
        assert(sessions@[i as int]@ == before[i as int]);
        let blank = match &sessions[i].title {
            Some(title) => trimmed(title.as_str()).as_str().is_empty(),
            None => true,
        };
        if blank {
            let title = persisted_todo_title(store, sessions[i].session_id.as_str());
            sessions[i].title = title;
            assert(sessions@[i as int]@ =~= titled(before[i as int], store@));
        }
        i += 1;
    }
    assert(session_views(sessions@) =~= before.map_values(|s: SessionView| titled(s, store@)));
}

fn recency_of(file: &SessionFile) -> (r: u128)
    ensures
        r == recency(file@),
{
    if file.modified_ms != 0 {
        file.modified_ms
    } else {
        match session_recency_ms(file.id.as_str()) {
            Some(stamp) => stamp,
            None => 0,
        }
    }
}

/// The files whose records are wanted: the most recent of those that are neither
/// archived nor known.
pub fn recent_files<'a>(store: &'a SessionStore, known: &Vec<String>) -> (r: Vec<&'a SessionFile>)
    ensures
        r@.map_values(|f: &SessionFile| f@) == picked(
            candidates(store@.files, store@.archived, text::texts(known@)),
        ),
{
    let ghost files = store@.files;
    let ghost archived = store@.archived;
    let mut found: Vec<&'a SessionFile> = Vec::new();
    let mut keys: Vec<(u128, u64)> = Vec::new();
    let ghost wanted = candidates(files, archived, text::texts(known@));
    assert(found@.map_values(|f: &SessionFile| f@) =~= candidates(
        files.take(0),
        archived,
        text::texts(known@),
    ));
    let mut i: usize = 0;
    while i < store.files.len()
        invariant
            0 <= i <= store.files@.len(),
            files == file_views(store.files@),
            archived == text::texts(store.archived@),
            found@.map_values(|f: &SessionFile| f@) == candidates(
                files.take(i as int),
                archived,
                text::texts(known@),
            ),
            found@.len() == keys@.len(),
            forall|k: int|
                0 <= k < keys@.len() ==> #[trigger] keys@[k] == (
                    (u128::MAX - recency(found@[k]@)) as u128,
                    0u64,
                ),
        decreases store.files@.len() - i,
    {
        let file = &store.files[i];
        assert(files.take(i + 1).drop_last() == files.take(i as int));
        assert(files.take(i + 1).last() == file@);
        let ghost before = found@.map_values(|f: &SessionFile| f@);
        if !among(&store.archived, file.id.as_str()) && !among(known, file.id.as_str()) {
            let when = recency_of(file);
            found.push(file);
            keys.push((u128::MAX - when, 0));
            assert(found@.map_values(|f: &SessionFile| f@) =~= before.push(file@));
        }
        i += 1;
    }
    assert(files.take(i as int) == files);
    assert(keys@ =~= newest_first(wanted)) by {
        assert forall|k: int| 0 <= k < keys@.len() implies #[trigger] keys@[k] == newest_first(
            wanted,
        )[k] by {
            assert(wanted[k] == found@[k]@);
        }
    }
    let order = stable_order(&keys);
    let ghost o = order::order_of(newest_first(wanted));
    let mut r: Vec<&'a SessionFile> = Vec::new();
    let mut k: usize = 0;
    while k < order.len() && k < MAX_PERSISTED_SIDEBAR_SESSIONS
        invariant
            0 <= k <= order@.len(),
            k <= MAX_PERSISTED_SIDEBAR_SESSIONS,
            r@.len() == k,
            o == order::positions(order@),
            order::is_order(o, keys@),
            keys@.len() == found@.len(),
            forall|m: int| 0 <= m < k ==> #[trigger] r@[m] == found@[o[m]],
        decreases order@.len() - k,
    {
        assert(o[k as int] == order@[k as int]);
        r.push(found[order[k]]);
        k += 1;
    }
    assert(o.len() == wanted.len());
    assert(r@.map_values(|f: &SessionFile| f@) =~= picked(wanted)) by {
        assert forall|m: int| 0 <= m < r@.len() implies r@[m]@ == #[trigger] picked(wanted)[m] by {
            assert(r@[m] == found@[o[m]]);
            assert(0 <= o[m] < keys@.len());
            assert(wanted[o[m]] == found@[o[m]]@);
        }
    }
    r
}

fn session_of(file: &SessionFile, record: &PersistedSession, store: &SessionStore) -> (r:
    SessionInfo)
    ensures
        r@ == stored_session(file@, record@, store@),
{
    let own = match &record.custom_title {
        Some(title) => !trimmed(title.as_str()).as_str().is_empty(),
        None => false,
    };
    let title = if own {
        copy_text(&record.custom_title)
    } else {
        match persisted_todo_title(store, file.id.as_str()) {
            Some(title) => Some(title),
            None => match &record.title {
                Some(title) => if trimmed(title.as_str()).as_str().is_empty() {
                    None
                } else {
                    Some(title.clone())
                },
                None => None,
            },
        }
    };
    let when = recency_of(file);
    let updated_at_ms: Option<i64> = if when <= i64::MAX as u128 {
        Some(when as i64)
    } else {
        None
    };
    SessionInfo {
        session_id: file.id.clone(),
        working_dir: copy_text(&record.working_dir),
        title,
        status: persisted_session_status(&record.status),
        transcript_bytes: file.transcript_bytes,
        saved: record.saved,
        updated_at_ms,
        last_active_at_ms: None,
        archived: false,
        archived_at_ms: None,
        parent_session_id: None,
        agent_label: None,
        swarm_status: None,
        edit_stats: None,
    }
}

fn found_sessions(files: &Vec<&SessionFile>, store: &SessionStore) -> (r: Vec<SessionInfo>)
    ensures
        session_views(r@) == stored_sessions(files@.map_values(|f: &SessionFile| f@), store@),
{
    let ghost all = files@.map_values(|f: &SessionFile| f@);
    let mut r: Vec<SessionInfo> = Vec::new();
    let mut seen: Vec<String> = Vec::new();
    assert(session_views(r@) =~= Seq::empty());
    assert(text::texts(seen@) =~= file_ids(all.take(0)));
    let mut i: usize = 0;
    while i < files.len()
        invariant
            0 <= i <= files@.len(),
            all == files@.map_values(|f: &SessionFile| f@),
            session_views(r@) == stored_sessions(all.take(i as int), store@),
            text::texts(seen@) == file_ids(all.take(i as int)),
        decreases files@.len() - i,
    {
        let file = files[i];
        assert(all.take(i + 1).drop_last() == all.take(i as int));
        assert(all.take(i + 1).last() == file@);
        let ghost before = session_views(r@);
        let ghost ids = text::texts(seen@);
        let known = among(&seen, file.id.as_str());
        seen.push(file.id.clone());
        assert(text::texts(seen@) =~= ids.push(file.id@));
        assert(file_ids(all.take(i + 1)) =~= file_ids(all.take(i as int)).push(file@.id));
        if !known {
            if let Some(record) = &file.record {
                let session = session_of(file, record, store);
                let ghost added = session@;
                r.push(session);
                assert(session_views(r@) =~= before.push(added));
            }
        }
        i += 1;
    }
    assert(all.take(i as int) == all);
    r
}

fn activity_of(id: &str, store: &SessionStore) -> (r: u128)
    ensures
        r == activity(id@, store@.files, store@.archived),
{
    let ghost files = store@.files;
    let archived = among(&store.archived, id);
    let mut n: usize = store.files.len();
    assert(files.take(n as int) == files);
    while n > 0
        invariant
            n <= store.files@.len(),
            files == file_views(store.files@),
            files == store@.files,
            archived == store@.archived.contains(id@),
            activity(id@, files, store@.archived) == activity(
                id@,
                files.take(n as int),
                store@.archived,
            ),
        decreases n,
    {
        assert(files.take(n as int).last() == store.files@[n - 1]@);
        assert(files.take(n as int).drop_last() == files.take(n - 1));
        if !archived && same(store.files[n - 1].id.as_str(), id) {
            return recency_of(&store.files[n - 1]);
        }
        n -= 1;
    }
    match session_recency_ms(id) {
        Some(stamp) => stamp,
        None => 0,
    }
}

fn ids_of(sessions: &Vec<SessionInfo>) -> (r: Vec<String>)
    ensures
        text::texts(r@) == session_ids(session_views(sessions@)),
{
    let mut r: Vec<String> = Vec::new();
    let mut i: usize = 0;
    while i < sessions.len()
        invariant
            0 <= i <= sessions@.len(),
            r@.len() == i,
            forall|k: int| 0 <= k < i ==> (#[trigger] r@[k])@ == sessions@[k].session_id@,
        decreases sessions@.len() - i,
    {
        r.push(sessions[i].session_id.clone());
        i += 1;
    }
    assert(text::texts(r@) =~= session_ids(session_views(sessions@)));
    r
}

fn sort_by_activity(sessions: &Vec<SessionInfo>, store: &SessionStore) -> (r: Vec<SessionInfo>)
    ensures
        session_views(r@) == ({
            let all = session_views(sessions@);
            let o = order::order_of(by_activity(all, store@));
            Seq::new(all.len(), |k: int| all[o[k]])
        }),
{
    let ghost all = session_views(sessions@);
    let mut keys: Vec<(u128, u64)> = Vec::new();
    let mut i: usize = 0;
    while i < sessions.len()
        invariant
            0 <= i <= sessions@.len(),
            keys@.len() == i,
            forall|k: int|
                0 <= k < i ==> #[trigger] keys@[k] == (
                    activity(sessions@[k].session_id@, store@.files, store@.archived),
                    0u64,
                ),
        decreases sessions@.len() - i,
    {
        keys.push((activity_of(sessions[i].session_id.as_str(), store), 0));
        i += 1;
    }
    assert(keys@ =~= by_activity(all, store@));
    let order = stable_order(&keys);
    let ghost o = order::order_of(by_activity(all, store@));
    let mut r: Vec<SessionInfo> = Vec::new();
    let mut k: usize = 0;
    while k < order.len()
        invariant
            0 <= k <= order@.len(),
            r@.len() == k,
            o == order::positions(order@),
            order::is_order(o, keys@),
            keys@.len() == sessions@.len(),
            forall|m: int| 0 <= m < k ==> #[trigger] r@[m] == sessions@[o[m]],
        decreases order@.len() - k,
    {
        assert(o[k as int] == order@[k as int]);
        r.push(copy_session(&sessions[order[k]]));
        k += 1;
    }
    assert(session_views(r@) =~= Seq::new(all.len(), |k: int| all[o[k]]));
    r
}

fn turned_round(sessions: &Vec<SessionInfo>) -> (r: Vec<SessionInfo>)
    ensures
        session_views(r@) == session_views(sessions@).reverse(),
{
    let mut r: Vec<SessionInfo> = Vec::new();
    let mut n: usize = sessions.len();
    while n > 0
        invariant
            n <= sessions@.len(),
            r@.len() == sessions@.len() - n,
            forall|k: int| 0 <= k < r@.len() ==> #[trigger] r@[k] == sessions@[sessions@.len() - 1 - k],
        decreases n,
    {
        r.push(copy_session(&sessions[n - 1]));
        n -= 1;
    }
    assert(session_views(r@) =~= session_views(sessions@).reverse());
    r
}

/// Merges the runtime's list with the store. Without a store the list is only freed of
/// archived sessions.
pub fn merge_persisted_sessions(sessions: Vec<SessionInfo>, store: Option<&SessionStore>) -> (r:
    Vec<SessionInfo>)
    ensures
        session_views(r@) == match store {
            Some(store) => sidebar(session_views(sessions@), store@),
            None => live(
                session_views(sessions@),
                StoreView {
                    archived: Seq::empty(),
                    files: Seq::empty(),
                    todo_files: Seq::empty(),
                },
            ),
        },
{
    match store {
        Some(store) => {
            let mut current = live_sessions(&sessions, store);
            if current.len() >= MAX_PERSISTED_SIDEBAR_SESSIONS {
                fill_titles(&mut current, store);
                return turned_round(&current);
            }
            let known = ids_of(&current);
            let files = recent_files(store, &known);
            let mut found = found_sessions(&files, store);
            let ghost first = current@;
            let ghost second = found@;
            current.append(&mut found);
            assert(session_views(current@) =~= session_views(first) + session_views(second));
            fill_titles(&mut current, store);
            sort_by_activity(&current, store)
        },
        None => {
            let empty = SessionStore {
                archived: Vec::new(),
                files: Vec::new(),
                todo_files: Vec::new(),
            };
            let r = live_sessions(&sessions, &empty);
            assert(empty@ =~= (StoreView {
                archived: Seq::empty(),
                files: Seq::empty(),
                todo_files: Seq::empty(),
            }));
            let ghost kept = live(session_views(sessions@), empty@);
            assert(kept.map_values(|s: SessionView| with_status(s, empty@)) =~= kept);
            r
        },
    }
}

proof fn lemma_live(sessions: Seq<SessionView>, store: StoreView)
    ensures
        forall|i: int|
            0 <= i < live(sessions, store).len() ==> !(#[trigger] live(sessions, store)[i]).archived
                && !store.archived.contains(live(sessions, store)[i].session_id)
                && session_ids(sessions).contains(live(sessions, store)[i].session_id),
        session_ids(sessions).no_duplicates() ==> session_ids(
            live(sessions, store),
        ).no_duplicates(),
    decreases sessions.len(),
{
    if sessions.len() > 0 {
        let first = sessions.drop_last();
        lemma_live(first, store);
        let before = live(first, store);
        let now = live(sessions, store);
        let ids = session_ids(sessions);
        assert(session_ids(first) =~= ids.drop_last());
        assert forall|i: int| 0 <= i < now.len() implies !(#[trigger] now[i]).archived
            && !store.archived.contains(now[i].session_id) && ids.contains(now[i].session_id) by {
            if i < before.len() {
                assert(now[i] == before[i]);
                let j = choose|j: int|
                    0 <= j < session_ids(first).len() && session_ids(first)[j]
                        == before[i].session_id;
                assert(ids[j] == now[i].session_id);
            } else {
                assert(ids[ids.len() - 1] == now[i].session_id);
            }
        }
        if ids.no_duplicates() {
            assert(session_ids(first).no_duplicates());
            let n = session_ids(now);
            assert(n =~= session_ids(before) || n =~= session_ids(before).push(ids.last()));
            assert forall|i: int, j: int| 0 <= i < n.len() && 0 <= j < n.len() && i != j implies n[i]
                != n[j] by {
                lemma_apart(ids, session_ids(before), n, i, j);
            }
        }
    }
}

/// Where the ids so far are apart from each other and come from all ids but the last, one
/// more that is the last of them is apart too.
proof fn lemma_apart(
    ids: Seq<Seq<char>>,
    before: Seq<Seq<char>>,
    now: Seq<Seq<char>>,
    i: int,
    j: int,
)
    requires
        ids.len() > 0,
        ids.no_duplicates(),
        before.no_duplicates(),
        now == before || now == before.push(ids.last()),
        forall|k: int|
            0 <= k < before.len() ==> #[trigger] ids.drop_last().contains(before[k]),
        0 <= i < now.len(),
        0 <= j < now.len(),
        i != j,
    ensures
        now[i] != now[j],
{
    if i < before.len() && j < before.len() {
        assert(now[i] == before[i] && now[j] == before[j]);
    } else {
        let k = if i < before.len() {
            i
        } else {
            j
        };
        assert(now[k] == before[k]);
        assert(ids.drop_last().contains(before[k]));
        let m = choose|m: int| 0 <= m < ids.len() - 1 && ids.drop_last()[m] == before[k];
        assert(ids[m] == before[k]);
        assert(ids[ids.len() - 1] != ids[m]);
    }
}

proof fn lemma_candidates(files: Seq<FileView>, archived: Seq<Seq<char>>, known: Seq<Seq<char>>)
    ensures
        forall|i: int|
            0 <= i < candidates(files, archived, known).len() ==> !archived.contains(
                (#[trigger] candidates(files, archived, known)[i]).id,
            ) && !known.contains(candidates(files, archived, known)[i].id),
    decreases files.len(),
{
    if files.len() > 0 {
        lemma_candidates(files.drop_last(), archived, known);
    }
}

proof fn lemma_stored(files: Seq<FileView>, store: StoreView)
    ensures
        forall|i: int|
            0 <= i < stored_sessions(files, store).len() ==> !(#[trigger] stored_sessions(
                files,
                store,
            )[i]).archived && file_ids(files).contains(stored_sessions(files, store)[i].session_id),
        session_ids(stored_sessions(files, store)).no_duplicates(),
    decreases files.len(),
{
    if files.len() > 0 {
        let first = files.drop_last();
        lemma_stored(first, store);
        let before = stored_sessions(first, store);
        let now = stored_sessions(files, store);
        assert(file_ids(first) =~= file_ids(files).drop_last());
        assert forall|i: int| 0 <= i < now.len() implies !(#[trigger] now[i]).archived && file_ids(
            files,
        ).contains(now[i].session_id) by {
            if i < before.len() {
                assert(now[i] == before[i]);
                let j = choose|j: int|
                    0 <= j < file_ids(first).len() && file_ids(first)[j] == before[i].session_id;
                assert(file_ids(files)[j] == now[i].session_id);
            } else {
                assert(file_ids(files)[files.len() - 1] == now[i].session_id);
            }
        }
        let n = session_ids(now);
        assert forall|i: int, j: int| 0 <= i < n.len() && 0 <= j < n.len() && i != j implies n[i]
            != n[j] by {
            if i < before.len() {
                assert(n[i] == session_ids(before)[i]);
                assert(file_ids(first).contains(before[i].session_id));
            }
            if j < before.len() {
                assert(n[j] == session_ids(before)[j]);
                assert(file_ids(first).contains(before[j].session_id));
            }
        }
    }
}

proof fn lemma_gathered(sessions: Seq<SessionView>, store: StoreView)
    ensures
        forall|i: int|
            0 <= i < gathered(sessions, store).len() ==> !(#[trigger] gathered(
                sessions,
                store,
            )[i]).archived && !store.archived.contains(gathered(sessions, store)[i].session_id),
        session_ids(sessions).no_duplicates() ==> session_ids(
            gathered(sessions, store),
        ).no_duplicates(),
{
    let current = live_with_status(sessions, store);
    let known = session_ids(current);
    let files = candidates(store.files, store.archived, known);
    let chosen = picked(files);
    let found = stored_sessions(chosen, store);
    let all = gathered(sessions, store);
    lemma_live(sessions, store);
    lemma_candidates(store.files, store.archived, known);
    lemma_stored(chosen, store);
    order::order_exists(newest_first(files));
    assert(known =~= session_ids(live(sessions, store)));
    let o = order::order_of(newest_first(files));
    assert forall|id: Seq<char>| #[trigger] file_ids(chosen).contains(id) implies !known.contains(id)
        && !store.archived.contains(id) by {
        let k = choose|k: int| 0 <= k < chosen.len() && file_ids(chosen)[k] == id;
        assert(0 <= o[k] < files.len());
        assert(chosen[k] == files[o[k]]);
    }
    assert forall|i: int| 0 <= i < all.len() implies !(#[trigger] all[i]).archived
        && !store.archived.contains(all[i].session_id) by {
        if i < current.len() {
            assert(current[i] == with_status(live(sessions, store)[i], store));
            assert(all[i] == titled(current[i], store));
        } else {
            let s = found[i - current.len()];
            assert(all[i] == titled(s, store));
            assert(file_ids(chosen).contains(s.session_id));
        }
    }
    if session_ids(sessions).no_duplicates() {
        let n = session_ids(all);
        assert(n =~= known + session_ids(found)) by {
            assert forall|i: int| 0 <= i < n.len() implies n[i] == (known + session_ids(found))[i] by {
                if i < current.len() {
                    assert(all[i] == titled(current[i], store));
                } else {
                    assert(all[i] == titled(found[i - current.len()], store));
                }
            }
        }
        assert forall|i: int, j: int| 0 <= i < n.len() && 0 <= j < n.len() && i != j implies n[i]
            != n[j] by {
            lemma_parts_apart(known, session_ids(found), i, j);
        }
    }
}

proof fn lemma_parts_apart(a: Seq<Seq<char>>, b: Seq<Seq<char>>, i: int, j: int)
    requires
        a.no_duplicates(),
        b.no_duplicates(),
        forall|k: int| 0 <= k < b.len() ==> !a.contains(#[trigger] b[k]),
        0 <= i < a.len() + b.len(),
        0 <= j < a.len() + b.len(),
        i != j,
    ensures
        (a + b)[i] != (a + b)[j],
{
    if i < a.len() && j >= a.len() {
        assert(a.contains(a[i]));
        assert(!a.contains(b[j - a.len()]));
    } else if j < a.len() && i >= a.len() {
        assert(a.contains(a[j]));
        assert(!a.contains(b[i - a.len()]));
    }
}

/// Nothing that is archived stands in the sidebar.
pub proof fn sidebar_hides_the_archived(sessions: Seq<SessionView>, store: StoreView, i: int)
    requires
        0 <= i < sidebar(sessions, store).len(),
    ensures
        !sidebar(sessions, store)[i].archived,
        !store.archived.contains(sidebar(sessions, store)[i].session_id),
{
    let current = live_with_status(sessions, store);
    if current.len() >= MAX_PERSISTED_SIDEBAR_SESSIONS {
        lemma_live(sessions, store);
        let k = current.len() - 1 - i;
        assert(current[k] == with_status(live(sessions, store)[k], store));
        assert(sidebar(sessions, store)[i] == titled(current[k], store));
    } else {
        lemma_gathered(sessions, store);
        order::order_exists(by_activity(gathered(sessions, store), store));
    }
}

/// No session stands in the sidebar twice, where the runtime lists none twice.
pub proof fn sidebar_lists_no_session_twice(
    sessions: Seq<SessionView>,
    store: StoreView,
    i: int,
    j: int,
)
    requires
        session_ids(sessions).no_duplicates(),
        0 <= i < j < sidebar(sessions, store).len(),
    ensures
        sidebar(sessions, store)[i].session_id != sidebar(sessions, store)[j].session_id,
{
    let current = live_with_status(sessions, store);
    if current.len() >= MAX_PERSISTED_SIDEBAR_SESSIONS {
        lemma_live(sessions, store);
        let ids = session_ids(live(sessions, store));
        let a = current.len() - 1 - i;
        let b = current.len() - 1 - j;
        assert(current[a] == with_status(live(sessions, store)[a], store));
        assert(current[b] == with_status(live(sessions, store)[b], store));
        assert(sidebar(sessions, store)[i] == titled(current[a], store));
        assert(sidebar(sessions, store)[j] == titled(current[b], store));
        assert(ids[a] != ids[b]);
    } else {
        let all = gathered(sessions, store);
        let o = order::order_of(by_activity(all, store));
        lemma_gathered(sessions, store);
        order::order_exists(by_activity(all, store));
        order::order_lists_every_row(by_activity(all, store));
        assert(o[i] != o[j]);
        assert(session_ids(all)[o[i]] != session_ids(all)[o[j]]);
    }
}

/// Every session of the runtime's that is not archived stands in the sidebar.
pub proof fn sidebar_lists_every_live_session(sessions: Seq<SessionView>, store: StoreView, i: int)
    requires
        0 <= i < live(sessions, store).len(),
    ensures
        exists|k: int|
            0 <= k < sidebar(sessions, store).len() && (#[trigger] sidebar(
                sessions,
                store,
            )[k]).session_id == live(sessions, store)[i].session_id,
{
    let current = live_with_status(sessions, store);
    let shown = sidebar(sessions, store);
    assert(current[i] == with_status(live(sessions, store)[i], store));
    if current.len() >= MAX_PERSISTED_SIDEBAR_SESSIONS {
        let k = current.len() - 1 - i;
        assert(shown[k] == titled(current[i], store));
    } else {
        let all = gathered(sessions, store);
        let o = order::order_of(by_activity(all, store));
        order::order_lists_every_row(by_activity(all, store));
        assert(all[i] == titled(current[i], store));
        assert(o.contains(i));
        let k = choose|k: int| 0 <= k < o.len() && o[k] == i;
        assert(shown[k] == all[i]);
    }
}

/// Where the store completes the list, the sessions stand by when they were last active,
/// the latest last.
pub proof fn sidebar_goes_by_activity(
    sessions: Seq<SessionView>,
    store: StoreView,
    i: int,
    j: int,
)
    requires
        live(sessions, store).len() < MAX_PERSISTED_SIDEBAR_SESSIONS,
        0 <= i < j < sidebar(sessions, store).len(),
    ensures
        activity(sidebar(sessions, store)[i].session_id, store.files, store.archived)
            <= activity(sidebar(sessions, store)[j].session_id, store.files, store.archived),
{
    let all = gathered(sessions, store);
    let keys = by_activity(all, store);
    order::order_exists(keys);
    let o = order::order_of(keys);
    assert(order::before(keys[o[i]], keys[o[j]]) || (keys[o[i]] == keys[o[j]] && o[i] < o[j]));
}

} // verus!
