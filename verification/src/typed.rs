//! What holds of what is typed: how a line is read as a command, and where it goes.
use vstd::prelude::*;

use crate::composer;
use crate::composer::{Answers, Claim, SlashEffect, SlashView, Submission, SubmissionContext};
use crate::harness::{Command, SessionOperation};
use crate::panel;
use crate::text;
use crate::todos;
use crate::transcript;

verus! {

/// White space around a line does not matter.
pub proof fn lines_are_read_without_surrounding_space(line: Seq<char>)
    ensures
        composer::slash_of(text::trim(line)) == composer::slash_of(line),
{
    text::lemma_trim_ends(line);
    text::lemma_already_trimmed(text::trim(line));
}

/// A line is no command exactly where it does not begin with a slash.
pub proof fn commands_begin_with_a_slash(line: Seq<char>)
    ensures
        composer::slash_of(line) is NotACommand <==> !(text::trim(line).len() > 0 && text::trim(
            line,
        )[0] == '/'),
{
    let t = text::trim(line);
    lemma_slash(t, "/model "@);
    lemma_slash(t, "/effort "@);
    lemma_slash(t, "/rename "@);
    lemma_slash(t, "/rewind "@);
    lemma_slash(t, "/"@);
    reveal_strlit("/model ");
    reveal_strlit("/effort ");
    reveal_strlit("/rename ");
    reveal_strlit("/rewind ");
    reveal_strlit("/");
    assert(text::starts(t, "/"@) <==> t.len() > 0 && t[0] == '/') by {
        if t.len() > 0 && t[0] == '/' {
            assert(t.subrange(0, 1) =~= "/"@);
        }
    }
    if t.len() == 0 || t[0] != '/' {
        lemma_bare_slash(t);
    }
}

proof fn lemma_slash(t: Seq<char>, p: Seq<char>)
    ensures
        text::starts(t, p) && p.len() > 0 ==> t.len() > 0 && t[0] == p[0],
{
    if text::starts(t, p) && p.len() > 0 {
        assert(t.subrange(0, p.len() as int)[0] == t[0]);
    }
}

proof fn lemma_bare_slash(t: Seq<char>)
    requires
        t.len() == 0 || t[0] != '/',
    ensures
        composer::bare_command(t) is NotACommand,
{
    reveal_strlit("/cancel");
    reveal_strlit("/cls");
    reveal_strlit("/clear-view");
    reveal_strlit("/clear");
    reveal_strlit("/compact");
    reveal_strlit("/help");
    reveal_strlit("/commands");
    reveal_strlit("/?");
    reveal_strlit("/todos");
    reveal_strlit("/todo");
    reveal_strlit("/model");
    reveal_strlit("/models");
    reveal_strlit("/update");
    reveal_strlit("/effort");
    reveal_strlit("/rename");
    reveal_strlit("/rewind");
    reveal_strlit("/commit");
    reveal_strlit("/commit-push");
    reveal_strlit("/commit-and-push");
    reveal_strlit("/");
    lemma_slash(t, "/"@);
}

/// Whether a text can be an argument as it stands.
pub open spec fn is_argument(s: Seq<char>) -> bool {
    s.len() > 0 && !text::is_white(s[0]) && !text::is_white(s.last())
}

proof fn lemma_argument(command: Seq<char>, argument: Seq<char>)
    requires
        command.len() > 0,
        command[0] == '/',
        is_argument(argument),
    ensures
        text::trim(command + argument) == command + argument,
        text::behind(command + argument, command) == Some(argument),
        text::trim(argument) == argument,
{
    let line = command + argument;
    assert(line[0] == '/' && line.last() == argument.last());
    text::lemma_already_trimmed(line);
    text::lemma_already_trimmed(argument);
    assert(line.subrange(0, command.len() as int) =~= command);
    assert(line.subrange(command.len() as int, line.len() as int) =~= argument);
}

proof fn lemma_not_behind(line: Seq<char>, p: Seq<char>, k: int)
    requires
        0 <= k < p.len(),
        k < line.len(),
        line[k] != p[k],
    ensures
        text::behind(line, p) is None,
{
    if text::starts(line, p) {
        assert(line.subrange(0, p.len() as int)[k] == line[k]);
    }
}

/// A model is chosen by its name behind the command, whatever that is.
pub proof fn models_are_chosen_by_name(name: Seq<char>)
    requires
        is_argument(name),
    ensures
        composer::slash_of("/model "@ + name) == SlashView::SetModel(name),
{
    reveal_strlit("/model ");
    lemma_argument("/model "@, name);
}

/// An effort is set by one of the names that there are for it, and no other is taken.
pub proof fn efforts_are_set_by_name(name: Seq<char>)
    requires
        is_argument(name),
    ensures
        ({
            let known = name == "none"@ || name == "minimal"@ || name == "low"@ || name == "medium"@
                || name == "high"@ || name == "xhigh"@ || name == "max"@;
            composer::slash_of("/effort "@ + name) == (if known {
                SlashView::SetEffort(name)
            } else {
                SlashView::BadEffort
            })
        }),
{
    reveal_strlit("/effort ");
    reveal_strlit("/model ");
    lemma_argument("/effort "@, name);
    lemma_not_behind("/effort "@ + name, "/model "@, 1);
}

/// A session is renamed to what stands behind the command; the word for it takes the name
/// away.
pub proof fn sessions_are_renamed(name: Seq<char>)
    requires
        is_argument(name),
    ensures
        name != "--clear"@ ==> composer::slash_of("/rename "@ + name) == SlashView::Rename(
            Some(name),
        ),
        composer::slash_of("/rename "@ + "--clear"@) == SlashView::Rename(None),
{
    reveal_strlit("/rename ");
    reveal_strlit("/model ");
    reveal_strlit("/effort ");
    reveal_strlit("--clear");
    lemma_argument("/rename "@, name);
    lemma_not_behind("/rename "@ + name, "/model "@, 1);
    lemma_not_behind("/rename "@ + name, "/effort "@, 1);
    lemma_argument("/rename "@, "--clear"@);
    lemma_not_behind("/rename "@ + "--clear"@, "/model "@, 1);
    lemma_not_behind("/rename "@ + "--clear"@, "/effort "@, 1);
}

/// A message is gone back to by its number, which counts from one.
pub proof fn messages_are_counted_from_one(n: usize)
    ensures
        composer::slash_of("/rewind "@ + text::decimal(n as nat)) == (if n == 0 {
            SlashView::RewindZero
        } else {
            SlashView::Rewind(n)
        }),
{
    reveal_strlit("/rewind ");
    reveal_strlit("/model ");
    reveal_strlit("/effort ");
    reveal_strlit("/rename ");
    reveal_strlit("undo");
    let d = text::decimal(n as nat);
    text::lemma_decimal(n as nat);
    text::decimal_reads_back(n as u64);
    assert(text::is_digit(d[0]) && text::is_digit(d[d.len() - 1]));
    lemma_argument("/rewind "@, d);
    lemma_not_behind("/rewind "@ + d, "/model "@, 1);
    lemma_not_behind("/rewind "@ + d, "/effort "@, 1);
    lemma_not_behind("/rewind "@ + d, "/rename "@, 3);
    if d == "undo"@ {
        assert(text::is_digit("undo"@[0]));
    }
}

/// Going back is undone by the word for it, and by no other.
pub proof fn rewinding_is_undone(target: Seq<char>)
    requires
        is_argument(target),
    ensures
        composer::slash_of("/rewind "@ + target) is RewindUndo <==> target == "undo"@,
{
    reveal_strlit("/rewind ");
    reveal_strlit("/model ");
    reveal_strlit("/effort ");
    reveal_strlit("/rename ");
    lemma_argument("/rewind "@, target);
    lemma_not_behind("/rewind "@ + target, "/model "@, 1);
    lemma_not_behind("/rewind "@ + target, "/effort "@, 1);
    lemma_not_behind("/rewind "@ + target, "/rename "@, 3);
}

/// A command asks its own session for what it says: the model, effort or name that was
/// typed, and the message before the one that was numbered.
pub proof fn commands_ask_their_session(
    effect: SlashEffect,
    id: Seq<char>,
    models: bool,
    name: Seq<char>,
    n: usize,
)
    requires
        n > 0,
    ensures
        composer::is_effect(effect, id, models, SlashView::SetModel(name)) ==> effect is Send
            && effect->Send_0 is SetModel && effect->Send_0->SetModel_session_id@ == id
            && effect->Send_0->SetModel_model@ == name,
        composer::is_effect(effect, id, models, SlashView::Rewind(n)) ==> effect is Send
            && effect->Send_0 is SessionOperation && effect->Send_0->SessionOperation_session_id@
            == id && effect->Send_0->operation == SessionOperation::Rewind((n - 1) as usize),
        composer::is_effect(effect, id, models, SlashView::SetEffort(name)) ==> effect is Send
            && effect->Send_0 is SessionOperation && effect->Send_0->SessionOperation_session_id@
            == id && effect->Send_0->operation is SetEffort
            && effect->Send_0->operation->SetEffort_0@ == name,
        composer::is_effect(effect, id, models, SlashView::Rename(Some(name))) ==> effect is Send
            && effect->Send_0 is SessionOperation && effect->Send_0->SessionOperation_session_id@
            == id && effect->Send_0->operation is Rename
            && effect->Send_0->operation->Rename_0 is Some
            && effect->Send_0->operation->Rename_0->0@ == name,
        composer::is_effect(effect, id, models, SlashView::Rename(None)) ==> effect is Send
            && effect->Send_0 is SessionOperation && effect->Send_0->operation is Rename
            && effect->Send_0->operation->Rename_0 is None,
        composer::is_effect(effect, id, models, SlashView::Clear) ==> effect is Send
            && effect->Send_0 is SessionOperation && effect->Send_0->operation is Clear
            && effect->Send_0->SessionOperation_session_id@ == id,
        composer::is_effect(effect, id, models, SlashView::Compact) ==> effect is Send
            && effect->Send_0 is SessionOperation && effect->Send_0->operation is Compact
            && effect->Send_0->SessionOperation_session_id@ == id,
        composer::is_effect(effect, id, models, SlashView::RewindUndo) ==> effect is Send
            && effect->Send_0 is SessionOperation && effect->Send_0->operation is RewindUndo
            && effect->Send_0->SessionOperation_session_id@ == id,
        composer::is_effect(effect, id, models, SlashView::Cancel) ==> effect is Cancel
            && effect->Cancel_0 is Cancel && effect->Cancel_0->Cancel_session_id@ == id,
        composer::is_effect(effect, id, models, SlashView::Models) ==> (effect is EditModel
            <==> models) && (effect is OpenRecoveryModels <==> !models),
        composer::is_effect(effect, id, models, SlashView::NotACommand) ==> effect is NotHandled,
        composer::is_effect(effect, id, models, SlashView::Unavailable) ==> effect is Handled,
{
}

/// A command never takes anything out of the conversation, but for the one that clears the
/// view: what it has to say comes in last, as one item.
pub proof fn commands_lose_nothing(p: panel::PanelView, command: SlashView, answers: Answers)
    ensures
        ({
            let q = composer::ran(p, command, answers);
            &&& command is ClearView ==> q.items.len() == 0 && q.streaming_text.len() == 0
                && q.streaming_reasoning.len() == 0
            &&& !(command is ClearView) ==> {
                &&& p.items.len() <= q.items.len() <= p.items.len() + 1
                &&& q.items.take(p.items.len() as int) == p.items
                &&& q.streaming_text == p.streaming_text
                &&& q.streaming_reasoning == p.streaming_reasoning
            }
            &&& command is Cancel || command is Models || command is Update || command
                is NotACommand ==> q.items == p.items
            &&& command is SetModel || command is SetEffort || command is Rename || command
                is RewindUndo || command is Rewind || command is Clear || command is Compact
                || command is Help ==> q.items.len() == p.items.len() + 1 && q.items.last()
                is Assistant
            &&& command is BadEffort || command is BadRename || command is RewindZero || command
                is BadRewind || command is Unavailable ==> q.items.len() == p.items.len() + 1
                && q.items.last() is Error
            &&& q.status == p.status
            &&& q.session_id == p.session_id
            &&& !(command is NotACommand) ==> q.stick_to_bottom
        }),
{
    let q = composer::ran(p, command, answers);
    if !(command is ClearView) {
        assert(q.items.take(p.items.len() as int) =~= p.items);
    }
}

/// A prompt that a command stands for is the user's: it comes in last, waits to be accepted,
/// and is what the session is sent.
pub proof fn prompts_of_commands_are_the_users(
    p: panel::PanelView,
    command: SlashView,
    answers: Answers,
    effect: SlashEffect,
    models: bool,
)
    requires
        command is Commit || command is CommitPush,
        composer::is_effect(effect, p.session_id, models, command),
    ensures
        ({
            let q = composer::ran(p, command, answers);
            let n = p.items.len() as int;
            &&& q.items.len() == n + 1
            &&& q.items[n] is User
            &&& q.pending_users == p.pending_users.push(n)
            &&& effect is SendPrompt
            &&& effect->SendPrompt_0 is Send
            &&& effect->SendPrompt_0->content@ == q.items[n]->User_0
            &&& effect->SendPrompt_0->Send_session_id@ == p.session_id
        }),
{
}

/// A line that a login or an account claims runs no command, and a side document takes none.
pub proof fn claimed_lines_run_no_command(
    p: panel::PanelView,
    line: Seq<char>,
    claim: Claim,
    answers: Answers,
)
    requires
        p.contents.side_document || p.contents.preview || !(claim is Unclaimed),
    ensures
        ({
            let q = composer::after_slash(p, line, claim, answers);
            &&& q.items == p.items
            &&& q.pending_users == p.pending_users
            &&& q.streaming_text == p.streaming_text
            &&& q.model_picker_open == p.model_picker_open
            &&& claim is Account && !p.contents.side_document && !p.contents.preview
                ==> q.stick_to_bottom
            &&& !(claim is Account) || p.contents.side_document || p.contents.preview
                ==> q.stick_to_bottom == p.stick_to_bottom
        }),
{
}

/// The list of todos that counts is the last that was shown, or that the tool printed when it
/// was done without an error.
pub proof fn the_latest_todos_count(items: Seq<transcript::ItemView>)
    ensures
        ({
            let lists = |item: transcript::ItemView|
                item is Todos || (item is Tool && item->name == "todo"@ && item->Tool_done
                    && item->error is None && todos::printed(item->output) is Some);
            match composer::latest_todos(items, items.len() as int) {
                Some(payload) => exists|i: int|
                    0 <= i < items.len() && lists(#[trigger] items[i]) && (forall|k: int|
                        i < k < items.len() ==> !lists(#[trigger] items[k])) && payload == (
                    if items[i] is Todos {
                        items[i]->Todos_0
                    } else {
                        todos::printed(items[i]->output)->0
                    }),
                None => forall|k: int| 0 <= k < items.len() ==> !lists(#[trigger] items[k]),
            }
        }),
{
    lemma_latest(items, items.len() as int);
}

spec fn is_list(item: transcript::ItemView) -> bool {
    item is Todos || (item is Tool && item->name == "todo"@ && item->Tool_done && item->error
        is None && todos::printed(item->output) is Some)
}

proof fn lemma_latest(items: Seq<transcript::ItemView>, n: int)
    requires
        0 <= n <= items.len(),
    ensures
        match composer::latest_todos(items, n) {
            Some(payload) => exists|i: int|
                0 <= i < n && is_list(#[trigger] items[i]) && (forall|k: int|
                    i < k < n ==> !is_list(#[trigger] items[k])) && payload == (
                if items[i] is Todos {
                    items[i]->Todos_0
                } else {
                    todos::printed(items[i]->output)->0
                }),
            None => forall|k: int| 0 <= k < n ==> !is_list(#[trigger] items[k]),
        },
    decreases n,
{
    if n > 0 {
        lemma_latest(items, n - 1);
        if is_list(items[n - 1]) {
            assert(composer::latest_todos(items, n) is Some);
        }
    }
}

/// Where a line goes: to resume a session where it asks for that; to the session or its
/// queue where the session is not there yet or images go with it; to what it opens; and else
/// it is tried as a command first.
pub proof fn lines_go_where_they_ask(
    p: panel::PanelView,
    line: Seq<char>,
    c: SubmissionContext,
)
    ensures
        ({
            let goes = composer::submission(p, line, c);
            let t = text::trim(line);
            let absent = p.session_id == "startup://draft"@ || text::starts(
                p.session_id,
                "startup://draft/"@,
            ) || (c.waiting_for_connection && !p.history_loaded);
            &&& c.is_resume && !c.has_images <==> goes == Submission::OpenResume
            &&& absent && !(c.is_resume && !c.has_images) ==> goes == Submission::SubmitOrQueue
            &&& !absent && c.has_images && !p.contents.preview ==> goes
                == Submission::SubmitOrQueue
            &&& goes == Submission::SubmitOrQueue ==> absent || c.has_images
            &&& goes == Submission::ToggleOnboarding ==> t == "/onboarding-sim"@ || t
                == "/onboarding-preview"@
            &&& goes == Submission::OpenChangelog ==> t == "/changelog"@
            &&& !absent && !c.has_images && !c.is_resume && (t == "/onboarding-sim"@ || t
                == "/onboarding-preview"@) ==> goes == Submission::ToggleOnboarding
            &&& !absent && !c.has_images && !c.is_resume && t == "/changelog"@ ==> goes
                == Submission::OpenChangelog
            &&& goes is OpenAccounts ==> {
                let w = text::words(line);
                &&& w.len() > 0
                &&& w[0] == "/login"@ || ((w[0] == "/account"@ || w[0] == "/accounts"@)
                    && c.opens_account)
                &&& goes->login <==> text::starts(line, "/login"@)
            }
            &&& goes == Submission::Preview ==> p.contents.preview
            &&& goes == Submission::TryCommand ==> !p.contents.preview && !c.has_images
        }),
{
    reveal_strlit("/onboarding-sim");
    reveal_strlit("/onboarding-preview");
    reveal_strlit("/changelog");
    assert("/changelog"@.len() == 10 && "/onboarding-sim"@.len() == 15);
    assert("/onboarding-preview"@.len() == 19);
}

/// A line that begins by asking for a login goes to the accounts, in whatever else it goes
/// on.
pub proof fn logins_go_to_the_accounts(
    p: panel::PanelView,
    line: Seq<char>,
    c: SubmissionContext,
)
    requires
        text::words(line).len() > 0,
        text::words(line)[0] == "/login"@,
        text::trim(line) != "/onboarding-sim"@,
        text::trim(line) != "/onboarding-preview"@,
        text::trim(line) != "/changelog"@,
        !c.has_images,
        !c.is_resume,
        !composer::is_pending_id(p.session_id),
        !c.waiting_for_connection,
    ensures
        composer::submission(p, line, c) is OpenAccounts,
{
}

/// A turn is there to stop where anything of one shows: the session is not idle, something
/// streams in or is under way, or a prompt waits. A draft has none.
pub proof fn turns_to_stop_show_themselves(p: panel::PanelView)
    ensures
        composer::has_turn(p) ==> !(p.session_id == "startup://draft"@),
        !composer::is_pending_id(p.session_id) && (p.status != "idle"@ || p.streaming_text.len() > 0
            || p.streaming_reasoning.len() > 0 || p.pending_users.len() > 0
            || p.connection_phase.len() > 0) ==> composer::has_turn(p),
        p.status == "idle"@ && p.streaming_text.len() == 0 && p.streaming_reasoning.len() == 0
            && p.pending_users.len() == 0 && p.connection_phase.len() == 0 ==> !composer::has_turn(
            p,
        ),
{
}

} // verus!
