//! What is typed into a panel: commands, submissions, and the way out of overlays.
use vstd::prelude::*;

use crate::harness::{Command, SessionOperation};
use crate::labels;
use crate::labels::command_unavailable_message;
use crate::panel;
use crate::panel::Panel;
use crate::text;
use crate::text::{concat3, decimal_of, parse_u64, same, starts_with, strip_prefix, trimmed, words_of};
use crate::todos;
use crate::todos::{parse_todo_tool_output, TodoCardPayload};
use crate::transcript;
use crate::transcript::Item;

verus! {

/// A command typed with a slash.
#[derive(Debug, PartialEq, Eq)]
pub enum SlashCommand {
    SetModel(String),
    SetEffort(String),
    BadEffort,
    Rename(Option<String>),
    BadRename,
    RewindUndo,
    Rewind(usize),
    RewindZero,
    BadRewind,
    Cancel,
    ClearView,
    Clear,
    Compact,
    Help,
    Todos,
    Models,
    Update,
    EffortUsage,
    RewindUsage,
    Commit,
    CommitPush,
    /// A command that does nothing here.
    Unavailable,
    NotACommand,
}

#[verifier::ext_equal]
pub enum SlashView {
    SetModel(Seq<char>),
    SetEffort(Seq<char>),
    BadEffort,
    Rename(Option<Seq<char>>),
    BadRename,
    RewindUndo,
    Rewind(usize),
    RewindZero,
    BadRewind,
    Cancel,
    ClearView,
    Clear,
    Compact,
    Help,
    Todos,
    Models,
    Update,
    EffortUsage,
    RewindUsage,
    Commit,
    CommitPush,
    Unavailable,
    NotACommand,
}

impl View for SlashCommand {
    type V = SlashView;

    open spec fn view(&self) -> SlashView {
        match self {
            SlashCommand::SetModel(s) => SlashView::SetModel(s@),
            SlashCommand::SetEffort(s) => SlashView::SetEffort(s@),
            SlashCommand::BadEffort => SlashView::BadEffort,
            SlashCommand::Rename(title) => SlashView::Rename(text::text_option(*title)),
            SlashCommand::BadRename => SlashView::BadRename,
            SlashCommand::RewindUndo => SlashView::RewindUndo,
            SlashCommand::Rewind(n) => SlashView::Rewind(*n),
            SlashCommand::RewindZero => SlashView::RewindZero,
            SlashCommand::BadRewind => SlashView::BadRewind,
            SlashCommand::Cancel => SlashView::Cancel,
            SlashCommand::ClearView => SlashView::ClearView,
            SlashCommand::Clear => SlashView::Clear,
            SlashCommand::Compact => SlashView::Compact,
            SlashCommand::Help => SlashView::Help,
            SlashCommand::Todos => SlashView::Todos,
            SlashCommand::Models => SlashView::Models,
            SlashCommand::Update => SlashView::Update,
            SlashCommand::EffortUsage => SlashView::EffortUsage,
            SlashCommand::RewindUsage => SlashView::RewindUsage,
            SlashCommand::Commit => SlashView::Commit,
            SlashCommand::CommitPush => SlashView::CommitPush,
            SlashCommand::Unavailable => SlashView::Unavailable,
            SlashCommand::NotACommand => SlashView::NotACommand,
        }
    }
}

pub open spec fn is_effort(s: Seq<char>) -> bool {
    s == "none"@ || s == "minimal"@ || s == "low"@ || s == "medium"@ || s == "high"@ || s
        == "xhigh"@ || s == "max"@
}

/// The number of a message, as a text spells it.
pub open spec fn spelled_index(s: Seq<char>) -> Option<usize> {
    match text::spelled_u64(s) {
        Some(value) if value <= usize::MAX => Some(value as usize),
        _ => None,
    }
}

/// What a command with an argument says.
pub open spec fn with_argument(t: Seq<char>) -> Option<SlashView> {
    if text::behind(t, "/model "@) is Some && text::trim(text::behind(t, "/model "@)->0).len() > 0 {
        Some(SlashView::SetModel(text::trim(text::behind(t, "/model "@)->0)))
    } else if text::behind(t, "/effort "@) is Some {
        let effort = text::trim(text::behind(t, "/effort "@)->0);
        Some(
            if is_effort(effort) {
                SlashView::SetEffort(effort)
            } else {
                SlashView::BadEffort
            },
        )
    } else if text::behind(t, "/rename "@) is Some {
        let title = text::trim(text::behind(t, "/rename "@)->0);
        Some(
            if title.len() == 0 {
                SlashView::BadRename
            } else if title == "--clear"@ {
                SlashView::Rename(None)
            } else {
                SlashView::Rename(Some(title))
            },
        )
    } else if text::behind(t, "/rewind "@) is Some {
        let target = text::trim(text::behind(t, "/rewind "@)->0);
        Some(
            if target == "undo"@ {
                SlashView::RewindUndo
            } else {
                match spelled_index(target) {
                    Some(n) => if n == 0 {
                        SlashView::RewindZero
                    } else {
                        SlashView::Rewind(n)
                    },
                    None => SlashView::BadRewind,
                }
            },
        )
    } else {
        None
    }
}

/// What a command by itself says.
pub open spec fn bare_command(t: Seq<char>) -> SlashView {
    if t == "/cancel"@ {
        SlashView::Cancel
    } else if t == "/cls"@ || t == "/clear-view"@ {
        SlashView::ClearView
    } else if t == "/clear"@ {
        SlashView::Clear
    } else if t == "/compact"@ {
        SlashView::Compact
    } else if t == "/help"@ || t == "/commands"@ || t == "/?"@ {
        SlashView::Help
    } else if t == "/todos"@ || t == "/todo"@ {
        SlashView::Todos
    } else if t == "/model"@ || t == "/models"@ {
        SlashView::Models
    } else if t == "/update"@ {
        SlashView::Update
    } else if t == "/effort"@ {
        SlashView::EffortUsage
    } else if t == "/rename"@ {
        SlashView::BadRename
    } else if t == "/rewind"@ {
        SlashView::RewindUsage
    } else if t == "/commit"@ {
        SlashView::Commit
    } else if t == "/commit-push"@ || t == "/commit-and-push"@ {
        SlashView::CommitPush
    } else if text::starts(t, "/"@) {
        SlashView::Unavailable
    } else {
        SlashView::NotACommand
    }
}

/// What a typed line says as a command.
pub open spec fn slash_of(content: Seq<char>) -> SlashView {
    let t = text::trim(content);
    match with_argument(t) {
        Some(command) => command,
        None => bare_command(t),
    }
}

fn effort_of(argument: &str) -> (r: SlashCommand)
    ensures
        r@ == (if is_effort(argument@) {
            SlashView::SetEffort(argument@)
        } else {
            SlashView::BadEffort
        }),
{
    if same(argument, "none") || same(argument, "minimal") || same(argument, "low") || same(
        argument,
        "medium",
    ) || same(argument, "high") || same(argument, "xhigh") || same(argument, "max") {
        SlashCommand::SetEffort(argument.to_owned())
    } else {
        SlashCommand::BadEffort
    }
}

fn rewind_of(target: &str) -> (r: SlashCommand)
    ensures
        r@ == (if target@ == "undo"@ {
            SlashView::RewindUndo
        } else {
            match spelled_index(target@) {
                Some(n) => if n == 0 {
                    SlashView::RewindZero
                } else {
                    SlashView::Rewind(n)
                },
                None => SlashView::BadRewind,
            }
        }),
{
    if same(target, "undo") {
        return SlashCommand::RewindUndo;
    }
    match parse_u64(target) {
        Some(value) => if value <= usize::MAX as u64 {
            if value == 0 {
                SlashCommand::RewindZero
            } else {
                SlashCommand::Rewind(value as usize)
            }
        } else {
            SlashCommand::BadRewind
        },
        None => SlashCommand::BadRewind,
    }
}

fn bare_of(t: &str) -> (r: SlashCommand)
    ensures
        r@ == bare_command(t@),
{
    if same(t, "/cancel") {
        SlashCommand::Cancel
    } else if same(t, "/cls") || same(t, "/clear-view") {
        SlashCommand::ClearView
    } else if same(t, "/clear") {
        SlashCommand::Clear
    } else if same(t, "/compact") {
        SlashCommand::Compact
    } else if same(t, "/help") || same(t, "/commands") || same(t, "/?") {
        SlashCommand::Help
    } else if same(t, "/todos") || same(t, "/todo") {
        SlashCommand::Todos
    } else if same(t, "/model") || same(t, "/models") {
        SlashCommand::Models
    } else if same(t, "/update") {
        SlashCommand::Update
    } else if same(t, "/effort") {
        SlashCommand::EffortUsage
    } else if same(t, "/rename") {
        SlashCommand::BadRename
    } else if same(t, "/rewind") {
        SlashCommand::RewindUsage
    } else if same(t, "/commit") {
        SlashCommand::Commit
    } else if same(t, "/commit-push") || same(t, "/commit-and-push") {
        SlashCommand::CommitPush
    } else if starts_with(t, "/") {
        SlashCommand::Unavailable
    } else {
        SlashCommand::NotACommand
    }
}

/// Reads a typed line as a command.
pub fn parse_slash(content: &str) -> (r: SlashCommand)
    ensures
        r@ == slash_of(content@),
{
    let t = trimmed(content);
    if let Some(rest) = strip_prefix(t.as_str(), "/model ") {
        let model = trimmed(rest.as_str());
        if !model.as_str().is_empty() {
            return SlashCommand::SetModel(model);
        }
    }
    if let Some(rest) = strip_prefix(t.as_str(), "/effort ") {
        return effort_of(trimmed(rest.as_str()).as_str());
    }
    if let Some(rest) = strip_prefix(t.as_str(), "/rename ") {
        let title = trimmed(rest.as_str());
        return if title.as_str().is_empty() {
            SlashCommand::BadRename
        } else if same(title.as_str(), "--clear") {
            SlashCommand::Rename(None)
        } else {
            SlashCommand::Rename(Some(title))
        };
    }
    if let Some(rest) = strip_prefix(t.as_str(), "/rewind ") {
        return rewind_of(trimmed(rest.as_str()).as_str());
    }
    bare_of(t.as_str())
}

/// What is left to do for a command once the panel took it in.
#[derive(Debug, PartialEq, Eq)]
pub enum SlashEffect {
    /// The line is no command.
    NotHandled,
    Handled,
    /// The panel is a preview, which has commands of its own.
    Preview,
    /// To hand to the bridge.
    Send(Command),
    /// To hand to the bridge, as a prompt of the user's.
    SendPrompt(Command),
    /// To hand to the bridge; the stop is to be recorded as requested.
    Cancel(Command),
    /// The figures of the responses start anew.
    ResetStats,
    OpenRecoveryModels,
    /// The line under edit becomes the start of a model's choice.
    EditModel,
    RequestUpdate,
}

pub open spec fn commit_prompt() -> Seq<char> {
    "Make interactive, logical commits for the current uncommitted work. Inspect git state first, group related changes into coherent commits, preserve unrelated work, validate appropriately, and report the commits created plus remaining changes."@
}

pub open spec fn commit_push_prompt() -> Seq<char> {
    "Make logical commits for the current uncommitted work, preserving unrelated work and validating appropriately. Then push to the tracking branch without force-pushing, and report the commits and push result."@
}

/// The last list of todos below `n`: one that was shown, or one that the tool printed.
pub open spec fn latest_todos(items: Seq<transcript::ItemView>, n: int) -> Option<todos::PayloadView>
    decreases n,
{
    if n <= 0 || n > items.len() {
        None
    } else {
        match items[n - 1] {
            transcript::ItemView::Todos(payload) => Some(payload),
            transcript::ItemView::Tool { call_id, name, input, output, done, error } => if name
                == "todo"@ && done && error is None && todos::printed(output) is Some {
                todos::printed(output)
            } else {
                latest_todos(items, n - 1)
            },
            _ => latest_todos(items, n - 1),
        }
    }
}

pub open spec fn said(p: panel::PanelView, words: Seq<char>) -> panel::PanelView {
    panel::pushed(p, transcript::ItemView::Assistant(words))
}

pub open spec fn refused(p: panel::PanelView, words: Seq<char>) -> panel::PanelView {
    panel::pushed(p, transcript::ItemView::Error(words))
}

/// The panel with a prompt of the user's that waits to be accepted.
pub open spec fn prompted(p: panel::PanelView, prompt: Seq<char>) -> panel::PanelView {
    panel::PanelView {
        pending_users: p.pending_users.push(p.items.len() as int),
        ..panel::pushed(p, transcript::ItemView::User(prompt))
    }
}

/// The panel with an empty view of its conversation.
pub open spec fn view_cleared(p: panel::PanelView) -> panel::PanelView {
    panel::PanelView {
        startup_layout: None,
        image_pane_selected: None,
        items: Seq::empty(),
        streaming_text: Seq::empty(),
        streaming_reasoning: Seq::empty(),
        ..p
    }
}

/// The panel with the last list of todos shown again.
pub open spec fn with_latest_todos(p: panel::PanelView) -> panel::PanelView {
    panel::pushed(
        p,
        transcript::ItemView::Todos(
            match latest_todos(p.items, p.items.len() as int) {
                Some(payload) => payload,
                None => todos::PayloadView { todos: Seq::empty(), user_intention: None },
            },
        ),
    )
}

/// The panel that switches to another model.
pub open spec fn with_model_chosen(p: panel::PanelView, model: Seq<char>) -> panel::PanelView {
    said(
        panel::PanelView { model_picker_open: false, ..p },
        "Switching model to `"@ + model + "`…"@,
    )
}

/// The panel with its choice of models open, where there is one.
pub open spec fn with_models_open(p: panel::PanelView) -> panel::PanelView {
    if p.available_models.len() == 0 {
        p
    } else {
        panel::PanelView { model_picker_open: true, ..p }
    }
}

/// What the catalog of commands has to say.
#[verifier::ext_equal]
pub struct Answers {
    /// The list of all commands.
    pub overview: Seq<char>,
    /// The answer to a command that does nothing here.
    pub unavailable: Seq<char>,
}

/// What a command makes of the panel's conversation.
pub open spec fn commanded(p: panel::PanelView, command: SlashView, answers: Answers) -> panel::PanelView {
    match command {
        SlashView::SetModel(model) => with_model_chosen(p, model),
        SlashView::SetEffort(effort) => said(p, "Reasoning effort set to `"@ + effort + "`."@),
        SlashView::BadEffort => refused(
            p,
            "Usage: `/effort <none|minimal|low|medium|high|xhigh|max>`"@,
        ),
        SlashView::Rename(_) => said(p, "Session renamed."@),
        SlashView::BadRename => refused(
            p,
            "Usage: `/rename <session name>` or `/rename --clear`."@,
        ),
        SlashView::RewindUndo => said(p, "Rewind undone."@),
        SlashView::Rewind(n) => said(p, "Rewound to message "@ + text::decimal(n as nat) + "."@),
        SlashView::RewindZero => refused(p, "Rewind numbering starts at 1."@),
        SlashView::BadRewind => refused(p, "Usage: `/rewind <message number|undo>`."@),
        SlashView::Cancel => p,
        SlashView::ClearView => view_cleared(p),
        SlashView::Clear => said(p, "Conversation history cleared."@),
        SlashView::Compact => said(p, "Context compacted."@),
        SlashView::Help => said(p, answers.overview),
        SlashView::Todos => with_latest_todos(p),
        SlashView::Models => with_models_open(p),
        SlashView::Update => p,
        SlashView::EffortUsage => said(
            p,
            "Usage: `/effort <none|minimal|low|medium|high|xhigh|max>`."@,
        ),
        SlashView::RewindUsage => said(
            p,
            "Use `/rewind <message number>` to rewind, or `/rewind undo` to restore."@,
        ),
        SlashView::Commit => prompted(p, commit_prompt()),
        SlashView::CommitPush => prompted(p, commit_push_prompt()),
        SlashView::Unavailable => refused(p, answers.unavailable),
        SlashView::NotACommand => p,
    }
}

/// What the commands for logins and for accounts, which are tried first, came to.
#[derive(Clone, Copy, PartialEq, Eq, Debug, Structural)]
pub enum Claim {
    /// The line is for neither.
    Unclaimed,
    /// The line was for a login.
    Login,
    /// The line was for an account, and was answered in the conversation.
    Account,
}

/// The panel after a typed line was taken as a command.
pub open spec fn after_slash(
    p: panel::PanelView,
    content: Seq<char>,
    claim: Claim,
    answers: Answers,
) -> panel::PanelView {
    if p.contents.side_document {
        p
    } else if p.contents.preview {
        panel::dirtied(p)
    } else {
        match claim {
            Claim::Login => panel::dirtied(p),
            Claim::Account => panel::PanelView { stick_to_bottom: true, ..panel::dirtied(p) },
            Claim::Unclaimed => ran(panel::dirtied(p), slash_of(content), answers),
        }
    }
}

/// The panel after a command; it then shows the end of its conversation.
pub open spec fn ran(p: panel::PanelView, command: SlashView, answers: Answers) -> panel::PanelView {
    let q = commanded(p, command, answers);
    if command is NotACommand {
        q
    } else {
        panel::PanelView { stick_to_bottom: true, ..q }
    }
}

pub open spec fn is_operation(effect: SlashEffect, id: Seq<char>, expected: SessionOperation) -> bool {
    effect matches SlashEffect::Send(Command::SessionOperation { session_id, operation })
        && session_id@ == id && operation == expected
}

pub open spec fn is_prompt(effect: SlashEffect, id: Seq<char>, prompt: Seq<char>) -> bool {
    effect matches SlashEffect::SendPrompt(Command::Send { session_id, content, images })
        && session_id@ == id && content@ == prompt && images@.len() == 0
}

/// Whether an effect is what a command leaves to do in the session `id`.
pub open spec fn is_effect(effect: SlashEffect, id: Seq<char>, has_models: bool, command: SlashView) -> bool {
    match command {
        SlashView::SetModel(wanted) => effect matches SlashEffect::Send(
            Command::SetModel { session_id, model },
        ) && session_id@ == id && model@ == wanted,
        SlashView::SetEffort(wanted) => effect matches SlashEffect::Send(
            Command::SessionOperation {
                session_id,
                operation: SessionOperation::SetEffort(effort),
            },
        ) && session_id@ == id && effort@ == wanted,
        SlashView::Rename(wanted) => effect matches SlashEffect::Send(
            Command::SessionOperation { session_id, operation: SessionOperation::Rename(title) },
        ) && session_id@ == id && text::text_option(title) == wanted,
        SlashView::RewindUndo => is_operation(
            effect,
            id,
            SessionOperation::RewindUndo,
        ),
        SlashView::Rewind(n) => is_operation(
            effect,
            id,
            SessionOperation::Rewind((n - 1) as usize),
        ),
        SlashView::Clear => is_operation(effect, id, SessionOperation::Clear),
        SlashView::Compact => is_operation(effect, id, SessionOperation::Compact),
        SlashView::Cancel => effect matches SlashEffect::Cancel(Command::Cancel { session_id })
            && session_id@ == id,
        SlashView::ClearView => effect is ResetStats,
        SlashView::Models => if !has_models {
            effect is OpenRecoveryModels
        } else {
            effect is EditModel
        },
        SlashView::Update => effect is RequestUpdate,
        SlashView::Commit => is_prompt(effect, id, commit_prompt()),
        SlashView::CommitPush => is_prompt(effect, id, commit_push_prompt()),
        SlashView::NotACommand => effect is NotHandled,
        _ => effect is Handled,
    }
}

impl Panel {
    fn say(&mut self, words: &str)
        ensures
            final(self)@ == said(old(self)@, words@),
    {
        self.push_item(Item::Assistant(words.to_owned()));
    }

    fn refuse(&mut self, words: &str)
        ensures
            final(self)@ == refused(old(self)@, words@),
    {
        self.push_item(Item::Error(words.to_owned()));
    }

    fn operation(&self, operation: SessionOperation) -> (r: SlashEffect)
        ensures
            is_operation(r, self@.session_id, operation),
    {
        SlashEffect::Send(
            Command::SessionOperation { session_id: self.session_id.clone(), operation },
        )
    }

    /// The last list of todos in the conversation.
    pub fn latest_todo_payload(&self) -> (r: Option<TodoCardPayload>)
        ensures
            match r {
                Some(payload) => latest_todos(self@.items, self@.items.len() as int) == Some(
                    payload@,
                ),
                None => latest_todos(self@.items, self@.items.len() as int) is None,
            },
    {
        let ghost items = self@.items;
        let mut n: usize = self.items.len();
        while n > 0
            invariant
                n <= self.items@.len(),
                items == transcript::item_views(self.items@),
                items == self@.items,
                latest_todos(items, items.len() as int) == latest_todos(items, n as int),
            decreases n,
        {
            assert(items[n - 1] == self.items@[n - 1]@);
            match &self.items[n - 1] {
                Item::Todos(payload) => {
                    return Some(payload.copy());
                },
                Item::Tool { name, output, done, error, .. } => {
                    if same(name.as_str(), "todo") && *done && error.is_none() {
                        if let Some(payload) = parse_todo_tool_output(output.as_str()) {
                            return Some(payload);
                        }
                    }
                },
                _ => {},
            }
            n -= 1;
        }
        None
    }

    fn show_todos(&mut self)
        ensures
            final(self)@ == with_latest_todos(old(self)@),
    {
        let payload = match self.latest_todo_payload() {
            Some(payload) => payload,
            None => TodoCardPayload::empty(),
        };
        self.push_item(Item::Todos(payload));
    }

    fn clear_view(&mut self)
        ensures
            final(self)@ == view_cleared(old(self)@),
    {
        self.startup_layout = None;
        self.image_pane_selected = None;
        self.items = Vec::new();
        self.streaming_text = String::new();
        self.streaming_reasoning = String::new();
        assert(self@.items =~= Seq::empty());
    }

    fn queue_prompt(&mut self, prompt: &str) -> (r: SlashEffect)
        ensures
            final(self)@ == prompted(old(self)@, prompt@),
            is_prompt(r, old(self)@.session_id, prompt@),
    {
        let ghost p = self@;
        let index: usize = self.items.len();
        self.push_item(Item::User(prompt.to_owned()));
        let ghost before = self@;
        self.pending_users.push_back(index);
        assert(self@.pending_users =~= before.pending_users.push(index as int));
        assert(p.items.len() == index);
        SlashEffect::SendPrompt(
            Command::Send {
                session_id: self.session_id.clone(),
                content: prompt.to_owned(),
                images: Vec::new(),
            },
        )
    }

    fn close_and_set_model(&mut self, model: String) -> (r: SlashEffect)
        ensures
            final(self)@ == with_model_chosen(old(self)@, model@),
            is_effect(r, old(self)@.session_id, old(self)@.available_models.len() > 0, SlashView::SetModel(model@)),
    {
        self.model_picker_open = false;
        assert(self@ =~= (panel::PanelView { model_picker_open: false, ..old(self)@ }));
        self.say(concat3("Switching model to `", model.as_str(), "`…").as_str());
        SlashEffect::Send(Command::SetModel { session_id: self.session_id.clone(), model })
    }

    fn open_model_picker(&mut self) -> (r: SlashEffect)
        ensures
            final(self)@ == with_models_open(old(self)@),
            is_effect(r, old(self)@.session_id, old(self)@.available_models.len() > 0, SlashView::Models),
    {
        assert(self@.available_models.len() == self.available_models@.len());
        if self.available_models.len() == 0 {
            SlashEffect::OpenRecoveryModels
        } else {
            self.model_picker_open = true;
            SlashEffect::EditModel
        }
    }

    fn run_slash(&mut self, command: SlashCommand, overview: &str, unavailable: &str) -> (r: SlashEffect)
        requires
            command matches SlashCommand::Rewind(n) ==> n > 0,
        ensures
            final(self)@ == commanded(
                old(self)@,
                command@,
                (Answers { overview: overview@, unavailable: unavailable@ }),
            ),
            is_effect(r, old(self)@.session_id, old(self)@.available_models.len() > 0, command@),
    {
        match command {
            SlashCommand::SetModel(model) => self.close_and_set_model(model),
            SlashCommand::SetEffort(effort) => {
                self.say(concat3("Reasoning effort set to `", effort.as_str(), "`.").as_str());
                self.operation(SessionOperation::SetEffort(effort))
            },
            SlashCommand::BadEffort => {
                self.refuse("Usage: `/effort <none|minimal|low|medium|high|xhigh|max>`");
                SlashEffect::Handled
            },
            SlashCommand::Rename(title) => {
                self.say("Session renamed.");
                self.operation(SessionOperation::Rename(title))
            },
            SlashCommand::BadRename => {
                self.refuse("Usage: `/rename <session name>` or `/rename --clear`.");
                SlashEffect::Handled
            },
            SlashCommand::RewindUndo => {
                self.say("Rewind undone.");
                self.operation(SessionOperation::RewindUndo)
            },
            SlashCommand::Rewind(n) => {
                self.say(
                    concat3("Rewound to message ", decimal_of(n as u64).as_str(), ".").as_str(),
                );
                self.operation(SessionOperation::Rewind(n - 1))
            },
            SlashCommand::RewindZero => {
                self.refuse("Rewind numbering starts at 1.");
                SlashEffect::Handled
            },
            SlashCommand::BadRewind => {
                self.refuse("Usage: `/rewind <message number|undo>`.");
                SlashEffect::Handled
            },
            SlashCommand::Cancel => SlashEffect::Cancel(
                Command::Cancel { session_id: self.session_id.clone() },
            ),
            SlashCommand::ClearView => {
                self.clear_view();
                SlashEffect::ResetStats
            },
            SlashCommand::Clear => {
                self.say("Conversation history cleared.");
                self.operation(SessionOperation::Clear)
            },
            SlashCommand::Compact => {
                self.say("Context compacted.");
                self.operation(SessionOperation::Compact)
            },
            SlashCommand::Help => {
                self.say(overview);
                SlashEffect::Handled
            },
            SlashCommand::Todos => {
                self.show_todos();
                SlashEffect::Handled
            },
            SlashCommand::Models => self.open_model_picker(),
            SlashCommand::Update => SlashEffect::RequestUpdate,
            SlashCommand::EffortUsage => {
                self.say("Usage: `/effort <none|minimal|low|medium|high|xhigh|max>`.");
                SlashEffect::Handled
            },
            SlashCommand::RewindUsage => {
                self.say("Use `/rewind <message number>` to rewind, or `/rewind undo` to restore.");
                SlashEffect::Handled
            },
            SlashCommand::Commit => self.queue_prompt(
                "Make interactive, logical commits for the current uncommitted work. Inspect git state first, group related changes into coherent commits, preserve unrelated work, validate appropriately, and report the commits created plus remaining changes.",
            ),
            SlashCommand::CommitPush => self.queue_prompt(
                "Make logical commits for the current uncommitted work, preserving unrelated work and validating appropriately. Then push to the tracking branch without force-pushing, and report the commits and push result.",
            ),
            SlashCommand::Unavailable => {
                self.refuse(unavailable);
                SlashEffect::Handled
            },
            SlashCommand::NotACommand => SlashEffect::NotHandled,
        }
    }

    fn follow(&mut self)
        ensures
            final(self)@ == (panel::PanelView { stick_to_bottom: true, ..old(self)@ }),
    {
        self.stick_to_bottom = true;
    }

    fn run_and_follow(&mut self, command: SlashCommand, overview: &str, unavailable: &str) -> (r: SlashEffect)
        requires
            command matches SlashCommand::Rewind(n) ==> n > 0,
        ensures
            final(self)@ == ran(
                old(self)@,
                command@,
                (Answers { overview: overview@, unavailable: unavailable@ }),
            ),
            is_effect(
                r,
                old(self)@.session_id,
                old(self)@.available_models.len() > 0,
                command@,
            ),
    {
        let is_command = match &command {
            SlashCommand::NotACommand => false,
            _ => true,
        };
        let effect = self.run_slash(command, overview, unavailable);
        if is_command {
            self.follow();
        }
        effect
    }

    fn mark_dirty(&mut self)
        ensures
            final(self)@ == panel::dirtied(old(self)@),
    {
        self.measurements.dirty = true;
    }

    /// Takes a typed line as a command. The catalog of commands gives `help` on the line's
    /// first word, where it lists that, and the `overview` of them all. `claim` is what the
    /// commands for logins and accounts came to; it counts in a conversation alone.
    pub fn handle_slash_command(
        &mut self,
        content: &str,
        claim: Claim,
        help: Option<&str>,
        overview: &str,
    ) -> (r: SlashEffect)
        ensures
            final(self)@ == after_slash(
                old(self)@,
                content@,
                claim,
                (Answers {
                    overview: overview@,
                    unavailable: unavailable_words(text::trim(content@), help),
                }),
            ),
            if old(self).contents.side_document {
                r is Handled
            } else if old(self).contents.preview {
                r is Preview
            } else if !(claim is Unclaimed) {
                r is Handled
            } else {
                is_effect(
                    r,
                    old(self)@.session_id,
                    old(self)@.available_models.len() > 0,
                    slash_of(content@),
                )
            },
    {
        if self.contents.side_document {
            return SlashEffect::Handled;
        }
        let preview = self.contents.preview;
        self.mark_dirty();
        if preview {
            return SlashEffect::Preview;
        }
        match claim {
            Claim::Login => return SlashEffect::Handled,
            Claim::Account => {
                self.follow();
                return SlashEffect::Handled;
            },
            Claim::Unclaimed => {},
        }
        let unavailable = command_unavailable_message(trimmed(content).as_str(), help);
        let command = parse_slash(content);
        self.run_and_follow(command, overview, unavailable.as_str())
    }
}

/// What is answered to a command that does nothing here.
pub open spec fn unavailable_words(input: Seq<char>, help: Option<&str>) -> Seq<char> {
    match help {
        Some(help) => "`"@ + labels::named_command(input) + ("` is a Jcode command, but its "@
            + text::lower_all(help@) + " behavior is not available in Desktop yet."@),
        None => "Unknown command: `"@ + labels::named_command(input)
            + "`. Type `/help` for available commands."@,
    }
}

/// What an update request came to.
#[derive(Clone, Copy, PartialEq, Eq, Debug, Structural)]
pub enum UpdateRequest {
    Checking,
    AlreadyChecking,
    Downloading,
    Restarting,
    Unavailable,
}

pub open spec fn update_answer(request: UpdateRequest) -> Seq<char> {
    match request {
        UpdateRequest::Checking => "Checking for Jcode Desktop updates…"@,
        UpdateRequest::AlreadyChecking => "Jcode Desktop is already checking for updates."@,
        UpdateRequest::Downloading => "A Jcode Desktop update is downloading in the background."@,
        UpdateRequest::Restarting => "Installing the update and restarting Jcode Desktop…"@,
        UpdateRequest::Unavailable => "Automatic updates are unavailable in this build of Jcode Desktop."@,
    }
}

/// What to answer to an update request.
pub fn update_message(request: UpdateRequest) -> (r: &'static str)
    ensures
        r@ == update_answer(request),
{
    match request {
        UpdateRequest::Checking => "Checking for Jcode Desktop updates…",
        UpdateRequest::AlreadyChecking => "Jcode Desktop is already checking for updates.",
        UpdateRequest::Downloading => "A Jcode Desktop update is downloading in the background.",
        UpdateRequest::Restarting => "Installing the update and restarting Jcode Desktop…",
        UpdateRequest::Unavailable => "Automatic updates are unavailable in this build of Jcode Desktop.",
    }
}

impl Panel {
    /// Answers an update request.
    pub fn update_requested(&mut self, request: UpdateRequest)
        ensures
            final(self)@ == (panel::PanelView {
                stick_to_bottom: true,
                ..said(old(self)@, update_answer(request))
            }),
    {
        self.say(update_message(request));
        self.follow();
    }

    /// Tells how an update ended.
    pub fn update_concluded(&mut self, outcome: Result<String, String>)
        ensures
            final(self)@ == match outcome {
                Ok(message) => said(old(self)@, message@),
                Err(message) => refused(old(self)@, message@),
            },
    {
        match outcome {
            Ok(message) => self.say(message.as_str()),
            Err(message) => self.refuse(message.as_str()),
        }
    }
}

/// Where a submitted line goes.
#[derive(Clone, Copy, PartialEq, Eq, Debug, Structural)]
pub enum Submission {
    OpenResume,
    /// To the session, or to the queue while it is not there.
    SubmitOrQueue,
    ToggleOnboarding,
    OpenChangelog,
    /// To the accounts; `login` says that the line is to be taken along.
    OpenAccounts { login: bool },
    Preview,
    /// First as a command, then to the session.
    TryCommand,
}

/// What is known of a submitted line from elsewhere.
#[derive(Clone, Copy, PartialEq, Eq, Debug, Structural)]
pub struct SubmissionContext {
    pub has_images: bool,
    /// The line asks to resume a session.
    pub is_resume: bool,
    /// The line asks for the accounts.
    pub opens_account: bool,
    /// The queue waits for the session's connection.
    pub waiting_for_connection: bool,
}

pub open spec fn first_word(content: Seq<char>) -> Option<Seq<char>> {
    let w = text::words(content);
    if w.len() > 0 {
        Some(w[0])
    } else {
        None
    }
}

/// Whether a line asks for the accounts: to log in, or by a command for accounts alone.
pub open spec fn asks_for_accounts(content: Seq<char>, c: SubmissionContext) -> bool {
    match first_word(content) {
        Some(w) => w == "/login"@ || ((w == "/account"@ || w == "/accounts"@) && c.opens_account),
        None => false,
    }
}

pub open spec fn is_pending_id(id: Seq<char>) -> bool {
    id == "startup://draft"@ || text::starts(id, "startup://draft/"@)
}

/// Where a submitted line goes.
pub open spec fn submission(p: panel::PanelView, content: Seq<char>, c: SubmissionContext) -> Submission {
    let t = text::trim(content);
    if !c.has_images && c.is_resume {
        Submission::OpenResume
    } else if is_pending_id(p.session_id) || (c.waiting_for_connection && !p.history_loaded) {
        Submission::SubmitOrQueue
    } else if !c.has_images && (t == "/onboarding-sim"@ || t == "/onboarding-preview"@) {
        Submission::ToggleOnboarding
    } else if !c.has_images && t == "/changelog"@ {
        Submission::OpenChangelog
    } else if !c.has_images && asks_for_accounts(content, c) {
        Submission::OpenAccounts { login: text::starts(content, "/login"@) }
    } else if p.contents.preview {
        Submission::Preview
    } else if !c.has_images {
        Submission::TryCommand
    } else {
        Submission::SubmitOrQueue
    }
}

/// What the way out of an overlay did.
#[derive(Clone, Copy, PartialEq, Eq, Debug, Structural)]
pub enum OverlayCancel {
    ClosedRecovery,
    /// The line under edit is to be emptied.
    ClosedModels,
    /// The turn is to be stopped; `send` says that the session is to be told.
    StoppedTurn { send: bool },
    Nothing,
}

/// Whether there is a turn to stop.
pub open spec fn has_turn(p: panel::PanelView) -> bool {
    !is_pending_id(p.session_id) && (p.status != "idle"@ || p.connection_phase.len() > 0
        || p.streaming_text.len() > 0 || p.streaming_reasoning.len() > 0 || p.pending_users.len()
        > 0)
}

impl Panel {
    /// Whether an id stands for a session that is not there yet.
    pub fn is_pending_session_id(id: &str) -> (r: bool)
        ensures
            r == is_pending_id(id@),
    {
        same(id, "startup://draft") || starts_with(id, "startup://draft/")
    }

    /// Readies the panel for what is typed; a side document takes nothing. Returns whether
    /// it does, and whether its session is still to come.
    pub fn connect_input(&mut self) -> (r: Option<bool>)
        ensures
            if old(self).contents.side_document {
                r is None && final(self)@ == old(self)@
            } else if is_pending_id(old(self)@.session_id) {
                &&& r == Some(true)
                &&& final(self)@ == (panel::PanelView {
                    status: "Starting session · you can type now"@,
                    ..old(self)@
                })
            } else {
                r == Some(false) && final(self)@ == old(self)@
            },
    {
        if self.contents.side_document {
            return None;
        }
        let pending = Panel::is_pending_session_id(self.session_id.as_str());
        if pending {
            self.status = "Starting session · you can type now".to_owned();
        }
        Some(pending)
    }

    /// Where a submitted line goes.
    pub fn submission_of(&self, content: &str, context: SubmissionContext) -> (r: Submission)
        ensures
            r == submission(self@, content@, context),
    {
        if !context.has_images && context.is_resume {
            return Submission::OpenResume;
        }
        if Panel::is_pending_session_id(self.session_id.as_str()) || (
        context.waiting_for_connection && !self.history_loaded) {
            return Submission::SubmitOrQueue;
        }
        if context.has_images {
            return if self.contents.preview {
                Submission::Preview
            } else {
                Submission::SubmitOrQueue
            };
        }
        let t = trimmed(content);
        if same(t.as_str(), "/onboarding-sim") || same(t.as_str(), "/onboarding-preview") {
            return Submission::ToggleOnboarding;
        }
        if same(t.as_str(), "/changelog") {
            return Submission::OpenChangelog;
        }
        let w = words_of(content);
        let accounts = if w.len() > 0 {
            assert(text::texts(w@)[0] == w@[0]@);
            same(w[0].as_str(), "/login") || ((same(w[0].as_str(), "/account") || same(
                w[0].as_str(),
                "/accounts",
            )) && context.opens_account)
        } else {
            assert(text::texts(w@).len() == 0);
            false
        };
        if accounts {
            return Submission::OpenAccounts { login: starts_with(content, "/login") };
        }
        if self.contents.preview {
            Submission::Preview
        } else {
            Submission::TryCommand
        }
    }

    /// Follows the line under edit: the choice of a model opens and closes with it.
    /// Returns whether anything changed.
    pub fn input_changed(&mut self, content: &str) -> (r: bool)
        ensures
            ({
                let opens = (content@ == "/model"@ || text::starts(content@, "/model "@))
                    && !is_pending_id(old(self)@.session_id);
                let closes = !opens && old(self).model_picker_open && !text::starts(
                    content@,
                    "/model "@,
                );
                &&& r == (opens || closes)
                &&& final(self)@ == (panel::PanelView {
                    model_picker_open: if opens {
                        true
                    } else if closes {
                        false
                    } else {
                        old(self)@.model_picker_open
                    },
                    ..old(self)@
                })
            }),
    {
        if (same(content, "/model") || starts_with(content, "/model "))
            && !Panel::is_pending_session_id(self.session_id.as_str()) {
            self.model_picker_open = true;
            true
        } else if self.model_picker_open && !starts_with(content, "/model ") {
            self.model_picker_open = false;
            true
        } else {
            false
        }
    }

    /// The way out: of the recovery, of the choice of a model, else of the turn that runs.
    pub fn overlay_cancelled(&mut self) -> (r: OverlayCancel)
        ensures
            if old(self).recovery_picker_open {
                &&& r == OverlayCancel::ClosedRecovery
                &&& final(self)@ == (panel::PanelView {
                    recovery_picker_open: false,
                    ..old(self)@
                })
            } else if old(self).model_picker_open {
                &&& r == OverlayCancel::ClosedModels
                &&& final(self)@ == (panel::PanelView { model_picker_open: false, ..old(self)@ })
            } else if has_turn(old(self)@) {
                &&& r == (OverlayCancel::StoppedTurn { send: !old(self).contents.preview })
                &&& final(self)@ == (panel::PanelView { queue_paused: true, ..old(self)@ })
            } else {
                &&& r == OverlayCancel::Nothing
                &&& final(self)@ == old(self)@
            },
    {
        if self.recovery_picker_open {
            self.recovery_picker_open = false;
            return OverlayCancel::ClosedRecovery;
        }
        if self.model_picker_open {
            self.model_picker_open = false;
            return OverlayCancel::ClosedModels;
        }
        assert(self@.pending_users.len() == self.pending_users@.len());
        if !Panel::is_pending_session_id(self.session_id.as_str()) && (!same(
            self.status.as_str(),
            "idle",
        ) || !self.connection_phase.as_str().is_empty() || !self.streaming_text.as_str().is_empty()
            || !self.streaming_reasoning.as_str().is_empty() || self.pending_users.len() > 0) {
            self.queue_paused = true;
            return OverlayCancel::StoppedTurn { send: !self.contents.preview };
        }
        OverlayCancel::Nothing
    }
}

/// A draft has no session to talk to: what is submitted in it waits, whatever it says,
/// unless it asks to resume a session.
pub proof fn drafts_only_queue(p: panel::PanelView, content: Seq<char>, c: SubmissionContext)
    requires
        is_pending_id(p.session_id),
        !(c.is_resume && !c.has_images),
    ensures
        submission(p, content, c) == Submission::SubmitOrQueue,
{
}

/// A line with images is never taken as a command.
pub proof fn images_are_no_command(p: panel::PanelView, content: Seq<char>, c: SubmissionContext)
    requires
        c.has_images,
    ensures
        submission(p, content, c) == Submission::SubmitOrQueue || submission(p, content, c)
            == Submission::Preview,
{
}

} // verus!
