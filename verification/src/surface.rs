//! What a panel is, by its id and its contents, and what it shows by that.
use vstd::prelude::*;

use crate::composer;
use crate::events::SessionInfo;
use crate::labels;
use crate::labels::short_id;
use crate::panel;
use crate::panel::{Panel, PanelContents};
use crate::sessions;
use crate::sessions::{UnfinishedSession, UnfinishedTodo};
use crate::text;
use crate::text::{concat, concat3, decimal_of, lines_of, same, same_ignoring_case, starts_with};
use crate::transcript;
use crate::transcript::Item;

verus! {

pub open spec fn is_accounts_id(id: Seq<char>) -> bool {
    text::starts(id, "accounts://"@)
}

/// Whether a panel is one session's conversation, which can go on in a second one.
pub open spec fn forks(p: panel::PanelView) -> bool {
    &&& !p.contents.preview
    &&& p.session_id != "settings://default-directory"@
    &&& p.session_id != "settings://machines"@
    &&& !p.contents.change_review
    &&& !is_accounts_id(p.session_id)
    &&& p.session_id != "desktop://changelog"@
    &&& !p.contents.terminal
    &&& !p.contents.code_file
    &&& !p.contents.side_document
    &&& p.session_id != "unfinished-work"@
    &&& !composer::is_pending_id(p.session_id)
}

/// Whether a panel has anything that can take up a vertical scroll.
pub open spec fn scrolls(p: panel::PanelView) -> bool {
    ||| p.session_id == "settings://default-directory"@
    ||| p.session_id == "settings://machines"@
    ||| p.session_id == "desktop://changelog"@
    ||| p.contents.change_review
    ||| is_accounts_id(p.session_id)
    ||| p.contents.code_file
    ||| p.contents.side_document
    ||| p.contents.mail
    ||| p.contents.mail_message
    ||| p.contents.tasks
    ||| p.contents.terminal
    ||| p.transcript_row_count > 0
    ||| p.streaming_text.len() > 0
    ||| p.streaming_reasoning.len() > 0
}

/// What a panel draws.
#[derive(Clone, Copy, PartialEq, Eq, Debug, Structural)]
pub enum Surface {
    SideDocument,
    Changelog,
    Accounts,
    ChangeReview,
    Terminal,
    CodeFile,
    Mail,
    Tasks,
    UnfinishedWork,
    Conversation,
}

pub open spec fn surface_of(p: panel::PanelView) -> Surface {
    if p.contents.side_document {
        Surface::SideDocument
    } else if p.session_id == "desktop://changelog"@ {
        Surface::Changelog
    } else if is_accounts_id(p.session_id) {
        Surface::Accounts
    } else if p.contents.change_review {
        Surface::ChangeReview
    } else if p.contents.terminal {
        Surface::Terminal
    } else if p.contents.code_file {
        Surface::CodeFile
    } else if p.contents.mail {
        Surface::Mail
    } else if p.contents.tasks {
        Surface::Tasks
    } else if p.contents.unfinished_work {
        Surface::UnfinishedWork
    } else {
        Surface::Conversation
    }
}

/// What takes the keys that are typed.
#[derive(Clone, Copy, PartialEq, Eq, Debug, Structural)]
pub enum FocusTarget {
    Login,
    Document,
    /// The panel itself: there is nothing to type into.
    Panel,
    Terminal,
    Input,
}

pub open spec fn focus_of(p: panel::PanelView, login_input: bool, document: bool) -> FocusTarget {
    if login_input {
        FocusTarget::Login
    } else if document {
        FocusTarget::Document
    } else if p.contents.image_preview || p.contents.diff_review || is_accounts_id(p.session_id) {
        FocusTarget::Panel
    } else if p.contents.terminal {
        FocusTarget::Terminal
    } else if p.contents.unfinished_work || p.session_id == "desktop://changelog"@
        || p.contents.code_file || p.contents.side_document || p.contents.mail {
        FocusTarget::Panel
    } else {
        FocusTarget::Input
    }
}

/// What the escape key closes.
#[derive(Clone, Copy, PartialEq, Eq, Debug, Structural)]
pub enum Escape {
    /// The login; in an accounts panel the panel goes with it.
    Login { panel: bool },
    Recovery,
    DiffReview,
    ImagePreview,
    Nothing,
}

pub open spec fn escape_of(p: panel::PanelView) -> Escape {
    match surface_of(p) {
        Surface::Accounts => Escape::Login { panel: true },
        Surface::ChangeReview => Escape::DiffReview,
        Surface::Conversation => if p.contents.login {
            Escape::Login { panel: false }
        } else if p.recovery_picker_open {
            Escape::Recovery
        } else if p.contents.diff_review {
            Escape::DiffReview
        } else if p.contents.image_preview {
            Escape::ImagePreview
        } else {
            Escape::Nothing
        },
        _ => Escape::Nothing,
    }
}

/// What a panel holds besides once that is closed.
pub open spec fn left_open(c: PanelContents, escape: Escape) -> PanelContents {
    match escape {
        Escape::Login { .. } => PanelContents { login: false, ..c },
        Escape::DiffReview => PanelContents { diff_review: false, ..c },
        Escape::ImagePreview => PanelContents { image_preview: false, ..c },
        _ => c,
    }
}

fn contents_without(c: PanelContents, escape: Escape) -> (r: PanelContents)
    ensures
        r == left_open(c, escape),
{
    match escape {
        Escape::Login { .. } => PanelContents { login: false, ..c },
        Escape::DiffReview => PanelContents { diff_review: false, ..c },
        Escape::ImagePreview => PanelContents { image_preview: false, ..c },
        _ => c,
    }
}

/// The panel once that is closed.
pub open spec fn closed(p: panel::PanelView, escape: Escape) -> panel::PanelView {
    if escape == Escape::Recovery {
        panel::PanelView { recovery_picker_open: false, ..p }
    } else {
        panel::PanelView { contents: left_open(p.contents, escape), ..p }
    }
}

impl Panel {
    pub fn is_changelog(&self) -> (r: bool)
        ensures
            r == (self@.session_id == "desktop://changelog"@),
    {
        same(self.session_id.as_str(), "desktop://changelog")
    }

    pub fn is_machines(&self) -> (r: bool)
        ensures
            r == (self@.session_id == "settings://machines"@),
    {
        same(self.session_id.as_str(), "settings://machines")
    }

    pub fn is_default_directory(&self) -> (r: bool)
        ensures
            r == (self@.session_id == "settings://default-directory"@),
    {
        same(self.session_id.as_str(), "settings://default-directory")
    }

    pub fn is_startup_draft(&self) -> (r: bool)
        ensures
            r == (self@.session_id == "startup://draft"@),
    {
        same(self.session_id.as_str(), "startup://draft")
    }

    /// Whether the panel's session is still to come.
    pub fn is_pending_session(&self) -> (r: bool)
        ensures
            r == composer::is_pending_id(self@.session_id),
    {
        Panel::is_pending_session_id(self.session_id.as_str())
    }

    pub fn is_accounts_panel(&self) -> (r: bool)
        ensures
            r == is_accounts_id(self@.session_id),
    {
        starts_with(self.session_id.as_str(), "accounts://")
    }

    /// Whether a vertical scroll has anything to move here.
    pub fn has_scrollable_conversation(&self) -> (r: bool)
        ensures
            r == scrolls(self@),
    {
        self.is_default_directory() || self.is_machines() || self.is_changelog()
            || self.contents.change_review || self.is_accounts_panel() || self.contents.code_file
            || self.contents.side_document || self.contents.mail || self.contents.mail_message
            || self.contents.tasks || self.contents.terminal || self.transcript_row_count > 0
            || !self.streaming_text.as_str().is_empty()
            || !self.streaming_reasoning.as_str().is_empty()
    }

    /// Whether the panel's session can go on in a second one.
    pub fn can_fork(&self) -> (r: bool)
        ensures
            r == forks(self@),
    {
        !self.contents.preview && !self.is_default_directory() && !self.is_machines()
            && !self.contents.change_review && !self.is_accounts_panel() && !self.is_changelog()
            && !self.contents.terminal && !self.contents.code_file && !self.contents.side_document
            && !same(self.session_id.as_str(), "unfinished-work") && !self.is_pending_session()
    }

    /// Whether the panel's session is to learn of changed accounts.
    pub fn can_refresh_account_runtime(&self) -> (r: bool)
        ensures
            r == (forks(self@) && !self@.contents.mail && !self@.contents.tasks),
    {
        self.can_fork() && !self.contents.mail && !self.contents.tasks
    }

    /// What the panel draws.
    pub fn surface(&self) -> (r: Surface)
        ensures
            r == surface_of(self@),
    {
        if self.contents.side_document {
            Surface::SideDocument
        } else if self.is_changelog() {
            Surface::Changelog
        } else if self.is_accounts_panel() {
            Surface::Accounts
        } else if self.contents.change_review {
            Surface::ChangeReview
        } else if self.contents.terminal {
            Surface::Terminal
        } else if self.contents.code_file {
            Surface::CodeFile
        } else if self.contents.mail {
            Surface::Mail
        } else if self.contents.tasks {
            Surface::Tasks
        } else if self.contents.unfinished_work {
            Surface::UnfinishedWork
        } else {
            Surface::Conversation
        }
    }

    /// What takes the keys that are typed. `login_input` and `document` say that a login or
    /// a side document has a place to type.
    pub fn input_focus(&self, login_input: bool, document: bool) -> (r: FocusTarget)
        ensures
            r == focus_of(self@, login_input, document),
    {
        if login_input {
            FocusTarget::Login
        } else if document {
            FocusTarget::Document
        } else if self.contents.image_preview || self.contents.diff_review
            || self.is_accounts_panel() {
            FocusTarget::Panel
        } else if self.contents.terminal {
            FocusTarget::Terminal
        } else if self.contents.unfinished_work || self.is_changelog() || self.contents.code_file
            || self.contents.side_document || self.contents.mail {
            FocusTarget::Panel
        } else {
            FocusTarget::Input
        }
    }

    /// What the escape key closes.
    pub fn escape(&self) -> (r: Escape)
        ensures
            r == escape_of(self@),
    {
        match self.surface() {
            Surface::Accounts => Escape::Login { panel: true },
            Surface::ChangeReview => Escape::DiffReview,
            Surface::Conversation => if self.contents.login {
                Escape::Login { panel: false }
            } else if self.recovery_picker_open {
                Escape::Recovery
            } else if self.contents.diff_review {
                Escape::DiffReview
            } else if self.contents.image_preview {
                Escape::ImagePreview
            } else {
                Escape::Nothing
            },
            _ => Escape::Nothing,
        }
    }

    fn set_contents(&mut self, contents: PanelContents)
        ensures
            final(self)@ == (panel::PanelView { contents, ..old(self)@ }),
    {
        self.contents = contents;
    }

    fn close_recovery(&mut self)
        ensures
            final(self)@ == (panel::PanelView { recovery_picker_open: false, ..old(self)@ }),
    {
        self.recovery_picker_open = false;
    }

    fn close(&mut self, escape: Escape)
        ensures
            final(self)@ == closed(old(self)@, escape),
    {
        if let Escape::Recovery = escape {
            self.close_recovery();
        } else {
            let contents = contents_without(self.contents, escape);
            self.set_contents(contents);
        }
    }

    /// Closes what the escape key closes, and says what that is.
    pub fn escape_pressed(&mut self) -> (r: Escape)
        ensures
            r == escape_of(old(self)@),
            final(self)@ == closed(old(self)@, r),
    {
        let escape = self.escape();
        self.close(escape);
        escape
    }

    /// Gives a draft the session that came for it, in place. Returns whether the input
    /// still waits for the session's history.
    pub fn attach_startup_session(&mut self, session: SessionInfo) -> (r: bool)
        ensures
            final(self)@ == (panel::PanelView {
                session_id: session.session_id@,
                title: match session.title {
                    Some(title) if title@.len() > 0 => title@,
                    _ => labels::short_name(session.session_id@),
                },
                working_dir: text::text_option(session.working_dir),
                status: "idle"@,
                ..old(self)@
            }),
            r == !old(self).history_loaded,
    {
        let title = match session.title {
            Some(title) => if title.as_str().is_empty() {
                short_id(session.session_id.as_str())
            } else {
                title
            },
            None => short_id(session.session_id.as_str()),
        };
        self.session_id = session.session_id;
        self.title = title;
        self.working_dir = session.working_dir;
        self.status = "idle".to_owned();
        !self.history_loaded
    }
}

/// A file that is shown, or why it is not.
#[derive(Debug, PartialEq, Eq)]
pub struct CodeFile {
    pub path: String,
    pub contents: Result<String, String>,
}

/// The largest file that is shown.
pub const MAX_FILE_BYTES: u64 = 2097152;

/// Why a file of this size is not shown.
pub fn too_large(bytes: u64) -> (r: Option<String>)
    ensures
        match r {
            Some(message) => bytes > 2097152 && message@ == "file is too large to preview ("@
                + text::decimal(bytes as nat) + " bytes)"@,
            None => bytes <= 2097152,
        },
{
    if bytes > MAX_FILE_BYTES {
        Some(
            concat3("file is too large to preview (", decimal_of(bytes).as_str(), " bytes)"),
        )
    } else {
        None
    }
}

/// Why a file could not be read: `message` tells, but for what is no text.
pub fn unreadable(is_text: bool, message: &str) -> (r: String)
    ensures
        r@ == if is_text {
            message@
        } else {
            "binary files cannot be previewed"@
        },
{
    if is_text {
        message.to_owned()
    } else {
        "binary files cannot be previewed".to_owned()
    }
}

/// The rows of a file: each line's number and what is shown of it.
pub open spec fn numbered(lines: Seq<Seq<char>>) -> Seq<(Seq<char>, Seq<char>)> {
    Seq::new(
        lines.len(),
        |i: int|
            (
                text::decimal((i + 1) as nat),
                if lines[i].len() == 0 {
                    " "@
                } else {
                    lines[i]
                },
            ),
    )
}

pub open spec fn row_texts(v: Seq<(String, String)>) -> Seq<(Seq<char>, Seq<char>)> {
    v.map_values(|e: (String, String)| (e.0@, e.1@))
}

/// The rows of a file.
pub fn code_rows(contents: &str) -> (r: Vec<(String, String)>)
    ensures
        row_texts(r@) == numbered(text::lines(contents@)),
{
    let lines = lines_of(contents);
    let n: usize = lines.len();
    let mut r: Vec<(String, String)> = Vec::new();
    let ghost all = text::lines(contents@);
    let mut i: usize = 0;
    while i < n
        invariant
            i <= n,
            n == lines@.len(),
            all == text::texts(lines@),
            row_texts(r@) == numbered(all).take(i as int),
            r@.len() == i,
        decreases n - i,
    {
        let shown = if lines[i].as_str().is_empty() {
            " ".to_owned()
        } else {
            lines[i].clone()
        };
        assert(all[i as int] == lines@[i as int]@);
        let ghost before = row_texts(r@);
        let number = decimal_of(i as u64 + 1);
        r.push((number, shown));
        assert(row_texts(r@) =~= before.push((number@, shown@)));
        assert(numbered(all).take(i + 1) =~= numbered(all).take(i as int).push(
            numbered(all)[i as int],
        ));
        i += 1;
    }
    assert(numbered(all).take(n as int) =~= numbered(all));
    r
}

/// The mark before a todo that is left.
pub fn todo_mark(todo: &UnfinishedTodo) -> (r: &'static str)
    ensures
        r@ == if text::lower_all(todo.status@) == text::lower_all("in_progress"@) {
            "◐"@
        } else {
            "○"@
        },
{
    if same_ignoring_case(todo.status.as_str(), "in_progress") {
        "◐"
    } else {
        "○"
    }
}

fn same_option(a: &Option<String>, b: &Option<String>) -> (r: bool)
    ensures
        r == (text::text_option(*a) == text::text_option(*b)),
{
    match (a, b) {
        (Some(a), Some(b)) => same(a.as_str(), b.as_str()),
        (None, None) => true,
        _ => false,
    }
}

pub open spec fn left_views(v: Seq<UnfinishedTodo>) -> Seq<sessions::TodoView> {
    v.map_values(|todo: UnfinishedTodo| todo@)
}

pub open spec fn unfinished_views(v: Seq<UnfinishedSession>) -> Seq<sessions::UnfinishedView> {
    v.map_values(|session: UnfinishedSession| session@)
}

fn same_todos(a: &Vec<UnfinishedTodo>, b: &Vec<UnfinishedTodo>) -> (r: bool)
    ensures
        r == (left_views(a@) == left_views(b@)),
{
    let n: usize = a.len();
    if n != b.len() {
        assert(left_views(a@).len() != left_views(b@).len());
        return false;
    }
    let mut i: usize = 0;
    while i < n
        invariant
            i <= n,
            n == a@.len(),
            n == b@.len(),
            forall|j: int| 0 <= j < i ==> left_views(a@)[j] == left_views(b@)[j],
        decreases n - i,
    {
        if !(same(a[i].content.as_str(), b[i].content.as_str()) && same(
            a[i].status.as_str(),
            b[i].status.as_str(),
        ) && same_option(&a[i].group, &b[i].group)) {
            assert(left_views(a@)[i as int] != left_views(b@)[i as int]);
            return false;
        }
        i += 1;
    }
    assert(left_views(a@) =~= left_views(b@));
    true
}

fn same_sessions(a: &Vec<UnfinishedSession>, b: &Vec<UnfinishedSession>) -> (r: bool)
    ensures
        r == (unfinished_views(a@) == unfinished_views(b@)),
{
    let n: usize = a.len();
    if n != b.len() {
        assert(unfinished_views(a@).len() != unfinished_views(b@).len());
        return false;
    }
    let mut i: usize = 0;
    while i < n
        invariant
            i <= n,
            n == a@.len(),
            n == b@.len(),
            forall|j: int| 0 <= j < i ==> unfinished_views(a@)[j] == unfinished_views(b@)[j],
        decreases n - i,
    {
        let equal = same(a[i].session_id.as_str(), b[i].session_id.as_str()) && same(
            a[i].title.as_str(),
            b[i].title.as_str(),
        ) && same_option(&a[i].working_dir, &b[i].working_dir) && same_todos(
            &a[i].todos,
            &b[i].todos,
        );
        assert(unfinished_views(a@)[i as int].todos =~= left_views(a@[i as int].todos@));
        assert(unfinished_views(b@)[i as int].todos =~= left_views(b@[i as int].todos@));
        if !equal {
            assert(unfinished_views(a@)[i as int] != unfinished_views(b@)[i as int]);
            return false;
        }
        i += 1;
    }
    assert(unfinished_views(a@) =~= unfinished_views(b@));
    true
}

/// Takes up a new list of unfinished work. Returns whether it changed anything.
pub fn set_unfinished_work(shown: &mut Option<Vec<UnfinishedSession>>, sessions: Vec<
    UnfinishedSession,
>) -> (r: bool)
    ensures
        r == !(*old(shown) matches Some(before) && unfinished_views(before@) == unfinished_views(
            sessions@,
        )),
        *final(shown) matches Some(after) && unfinished_views(after@) == unfinished_views(
            sessions@,
        ),
{
    let changed = match shown.as_ref() {
        Some(before) => !same_sessions(before, &sessions),
        None => true,
    };
    if changed {
        *shown = Some(sessions);
    }
    changed
}

impl Panel {
    /// A panel that shows a file, titled by the file's name where its path has one.
    pub fn new_code_file(path: &str, name: Option<String>, folder: Option<String>) -> (r: Panel)
        ensures
            r@ == (panel::PanelView {
                contents: panel::PanelContents { code_file: true, ..panel::no_contents() },
                ..panel::opened(
                    "file://"@ + path@,
                    Some(
                        match name {
                            Some(name) => name@,
                            None => path@,
                        },
                    ),
                    text::text_option(folder),
                    Seq::empty(),
                )
            }),
    {
        let title = match name {
            Some(name) => name,
            None => path.to_owned(),
        };
        let mut r = Panel::new(concat("file://", path), Some(title), folder, Vec::new());
        assert(r@.items =~= Seq::empty());
        r.contents.code_file = true;
        r
    }

    /// A panel for the accounts that a session can use.
    pub fn new_accounts(source_session: &str, preview: bool) -> (r: Panel)
        ensures
            r@ == (panel::PanelView {
                contents: panel::PanelContents { preview, login: true, ..panel::no_contents() },
                ..panel::opened(
                    "accounts://"@ + source_session@,
                    Some("accounts"@),
                    None,
                    Seq::empty(),
                )
            }),
    {
        let mut r = Panel::new(
            concat("accounts://", source_session),
            Some("accounts".to_owned()),
            None,
            Vec::new(),
        );
        assert(r@.items =~= Seq::empty());
        r.contents.preview = preview;
        r.contents.login = true;
        r
    }

    /// The mailbox's panel.
    pub fn new_gmail() -> (r: Panel)
        ensures
            r@ == (panel::PanelView {
                contents: panel::PanelContents { mail: true, ..panel::no_contents() },
                ..panel::opened("gmail://inbox"@, Some("inbox"@), None, Seq::empty())
            }),
    {
        let mut r = Panel::new(
            "gmail://inbox".to_owned(),
            Some("inbox".to_owned()),
            None,
            Vec::new(),
        );
        assert(r@.items =~= Seq::empty());
        r.contents.mail = true;
        r
    }

    /// The task list's panel.
    pub fn new_todoist() -> (r: Panel)
        ensures
            r@ == (panel::PanelView {
                contents: panel::PanelContents { tasks: true, ..panel::no_contents() },
                ..panel::opened("todoist://tasks"@, Some("todos"@), None, Seq::empty())
            }),
    {
        let mut r = Panel::new(
            "todoist://tasks".to_owned(),
            Some("todos".to_owned()),
            None,
            Vec::new(),
        );
        assert(r@.items =~= Seq::empty());
        r.contents.tasks = true;
        r
    }

    /// A terminal's panel.
    pub fn new_terminal(working_dir: Option<String>, items: Vec<Item>) -> (r: Panel)
        ensures
            r@ == (panel::PanelView {
                contents: panel::PanelContents { terminal: true, ..panel::no_contents() },
                ..panel::opened(
                    "terminal"@,
                    Some("terminal"@),
                    text::text_option(working_dir),
                    transcript::item_views(items@),
                )
            }),
    {
        let mut r = Panel::new(
            "terminal".to_owned(),
            Some("terminal".to_owned()),
            working_dir,
            items,
        );
        r.contents.terminal = true;
        r
    }

    /// The panel of what is left undone.
    pub fn new_unfinished_work(items: Vec<Item>) -> (r: Panel)
        ensures
            r@ == (panel::PanelView {
                contents: panel::PanelContents { unfinished_work: true, ..panel::no_contents() },
                ..panel::opened(
                    "unfinished-work"@,
                    Some("unfinished work"@),
                    None,
                    transcript::item_views(items@),
                )
            }),
    {
        let mut r = Panel::new(
            "unfinished-work".to_owned(),
            Some("unfinished work".to_owned()),
            None,
            items,
        );
        r.contents.unfinished_work = true;
        r
    }
}

/// What is left to take up by the parts of a panel.
#[derive(Debug, PartialEq, Eq)]
pub enum Handed {
    Document(Option<String>),
    Conversation { prompt_queue: String, draft: String },
}

/// What the parts of a panel keep of themselves, each in a form of its own.
#[derive(Debug, PartialEq, Eq)]
pub struct Keepsakes {
    pub prompt_queue: String,
    pub draft: String,
    pub side_document: Option<String>,
}

/// What is kept of a panel when its window goes. The offsets are the bits of pixels.
#[derive(Debug, PartialEq, Eq)]
pub struct PanelSnapshot {
    pub session_id: String,
    pub title: String,
    pub working_dir: Option<String>,
    pub image_pane_open: bool,
    pub queue_paused: bool,
    pub scroll_x: u32,
    pub scroll_y: u32,
    pub stick_to_bottom: bool,
    pub startup_layout: Option<bool>,
    pub terminal_resource_id: Option<u64>,
    pub terminal_output_cursor: Option<u64>,
    pub prompt_queue: String,
    pub draft: String,
    pub side_document: Option<String>,
}

#[verifier::ext_equal]
pub struct KeepsakesView {
    pub prompt_queue: Seq<char>,
    pub draft: Seq<char>,
    pub side_document: Option<Seq<char>>,
}

impl View for Keepsakes {
    type V = KeepsakesView;

    open spec fn view(&self) -> KeepsakesView {
        KeepsakesView {
            prompt_queue: self.prompt_queue@,
            draft: self.draft@,
            side_document: text::text_option(self.side_document),
        }
    }
}

#[verifier::ext_equal]
pub struct SnapshotView {
    pub session_id: Seq<char>,
    pub title: Seq<char>,
    pub working_dir: Option<Seq<char>>,
    pub image_pane_open: bool,
    pub queue_paused: bool,
    pub scroll: (u32, u32),
    pub stick_to_bottom: bool,
    pub startup_layout: Option<bool>,
    pub terminal_resource_id: Option<u64>,
    pub terminal_output_cursor: Option<u64>,
    pub keepsakes: KeepsakesView,
}

impl View for PanelSnapshot {
    type V = SnapshotView;

    open spec fn view(&self) -> SnapshotView {
        SnapshotView {
            session_id: self.session_id@,
            title: self.title@,
            working_dir: text::text_option(self.working_dir),
            image_pane_open: self.image_pane_open,
            queue_paused: self.queue_paused,
            scroll: (self.scroll_x, self.scroll_y),
            stick_to_bottom: self.stick_to_bottom,
            startup_layout: self.startup_layout,
            terminal_resource_id: self.terminal_resource_id,
            terminal_output_cursor: self.terminal_output_cursor,
            keepsakes: KeepsakesView {
                prompt_queue: self.prompt_queue@,
                draft: self.draft@,
                side_document: text::text_option(self.side_document),
            },
        }
    }
}

/// What is kept of a panel that stands at `scroll`. A terminal adds what it is called, if
/// anything, and how far its output was read.
pub open spec fn kept(
    p: panel::PanelView,
    scroll: (u32, u32),
    terminal: Option<(Option<u64>, u64)>,
    keepsakes: KeepsakesView,
) -> SnapshotView {
    SnapshotView {
        session_id: p.session_id,
        title: p.title,
        working_dir: p.working_dir,
        image_pane_open: p.image_pane_open,
        queue_paused: p.queue_paused,
        scroll,
        stick_to_bottom: p.stick_to_bottom,
        startup_layout: if p.startup_layout == Some(true) {
            Some(true)
        } else {
            None
        },
        terminal_resource_id: match terminal {
            Some((id, _)) => id,
            None => None,
        },
        terminal_output_cursor: match terminal {
            Some((_, cursor)) => Some(cursor),
            None => None,
        },
        keepsakes,
    }
}

/// The panel that takes up what was kept of it. It goes back to where it stood, unless it
/// followed its end.
pub open spec fn restored(p: panel::PanelView, s: SnapshotView) -> panel::PanelView {
    panel::PanelView {
        image_pane_open: s.image_pane_open,
        image_pane_selected: None,
        queue_paused: s.queue_paused,
        title: s.title,
        working_dir: s.working_dir,
        stick_to_bottom: s.stick_to_bottom,
        startup_layout: s.startup_layout,
        pending_history_scroll: if s.stick_to_bottom {
            None
        } else {
            Some(s.scroll)
        },
        ..p
    }
}

fn copy_option(o: &Option<String>) -> (r: Option<String>)
    ensures
        text::text_option(r) == text::text_option(*o),
{
    match o {
        Some(s) => Some(s.clone()),
        None => None,
    }
}

impl Panel {
    /// What to keep of the panel.
    pub fn snapshot(
        &self,
        scroll_x: u32,
        scroll_y: u32,
        terminal: Option<(Option<u64>, u64)>,
        keepsakes: Keepsakes,
    ) -> (r: PanelSnapshot)
        ensures
            r@ == kept(self@, (scroll_x, scroll_y), terminal, keepsakes@),
    {
        let (terminal_resource_id, terminal_output_cursor) = match terminal {
            Some((id, cursor)) => (id, Some(cursor)),
            None => (None, None),
        };
        PanelSnapshot {
            session_id: self.session_id.clone(),
            title: self.title.clone(),
            working_dir: copy_option(&self.working_dir),
            image_pane_open: self.image_pane_open,
            queue_paused: self.queue_paused,
            scroll_x,
            scroll_y,
            stick_to_bottom: self.stick_to_bottom,
            startup_layout: match self.startup_layout {
                Some(true) => Some(true),
                _ => None,
            },
            terminal_resource_id,
            terminal_output_cursor,
            prompt_queue: keepsakes.prompt_queue,
            draft: keepsakes.draft,
            side_document: keepsakes.side_document,
        }
    }

    /// Takes up what was kept. A side document looks after itself. Returns what the prompt
    /// queue and the input are to take up, or what the side document is.
    pub fn restore_snapshot(&mut self, snapshot: PanelSnapshot) -> (r: Handed)
        ensures
            match r {
                Handed::Document(document) => old(self).contents.side_document
                    && text::text_option(document) == snapshot@.keepsakes.side_document,
                Handed::Conversation { prompt_queue, draft } => !old(self).contents.side_document
                    && prompt_queue@ == snapshot@.keepsakes.prompt_queue && draft@
                    == snapshot@.keepsakes.draft,
            },
            final(self)@ == if old(self).contents.side_document {
                old(self)@
            } else {
                restored(old(self)@, snapshot@)
            },
    {
        if self.contents.side_document {
            return Handed::Document(snapshot.side_document);
        }
        self.image_pane_open = snapshot.image_pane_open;
        self.image_pane_selected = None;
        self.queue_paused = snapshot.queue_paused;
        self.title = snapshot.title;
        self.working_dir = snapshot.working_dir;
        self.stick_to_bottom = snapshot.stick_to_bottom;
        self.startup_layout = snapshot.startup_layout;
        self.pending_history_scroll = if snapshot.stick_to_bottom {
            None
        } else {
            Some((snapshot.scroll_x, snapshot.scroll_y))
        };
        Handed::Conversation { prompt_queue: snapshot.prompt_queue, draft: snapshot.draft }
    }
}

/// What was kept of a panel is kept again once the same session's panel took it up.
pub proof fn restored_is_kept_again(
    p: panel::PanelView,
    before: panel::PanelView,
    scroll: (u32, u32),
    keepsakes: KeepsakesView,
)
    requires
        p.session_id == before.session_id,
    ensures
        kept(restored(p, kept(before, scroll, None, keepsakes)), scroll, None, keepsakes) == kept(
            before,
            scroll,
            None,
            keepsakes,
        ),
{
}

} // verus!
