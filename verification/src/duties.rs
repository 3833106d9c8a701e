//! What holds of single steps of a session's worker, of accounts, and of what is told of both.
use std::collections::VecDeque;
use vstd::prelude::*;

use crate::accounts;
use crate::accounts::{Account, UsageReport};
use crate::bridge;
use crate::composer;
use crate::events::{ApiEvent, SessionEvent};
use crate::harness;
use crate::harness::{
    IdleStep, Received, RemoteStage, SendOutcome, SessionCommand, Update, Worker, WorkerCommand,
};
use crate::panel::Panel;
use crate::remote;
use crate::tabs;
use crate::text;
use crate::transcript;
use crate::transcript::{Item, Speaker, TranscriptImage};

verus! {

/// A worker takes the commands that wait before those that come in, each in its order, and
/// takes one at a time. It gives up only where nothing is left and nothing can come.
pub proof fn waiting_commands_go_first(
    commands: &mut VecDeque<SessionCommand>,
    open: bool,
    pending: &mut VecDeque<SessionCommand>,
    next: WorkerCommand,
)
    requires
        call_ensures(harness::next_worker_command, (commands, open, pending), next),
    ensures
        ({
            let before = old(pending)@ + old(commands)@;
            let after = final(pending)@ + final(commands)@;
            &&& next is Command <==> before.len() > 0
            &&& next is Command ==> next->Command_0 == before[0] && after == before.drop_first()
            &&& !(next is Command) ==> after == before && (next is Idle <==> open)
        }),
{
    let before = old(pending)@ + old(commands)@;
    let after = final(pending)@ + final(commands)@;
    if before.len() > 0 {
        assert(after =~= before.drop_first());
    } else {
        assert(after =~= before);
    }
}

/// A prompt that went to the wrong session waits in front of all others, unchanged; one that
/// failed otherwise does not wait.
pub proof fn misdirected_prompts_wait_in_front(
    error: &str,
    pending: &mut VecDeque<SessionCommand>,
    content: String,
    images: Vec<(String, String)>,
    again: bool,
)
    requires
        call_ensures(harness::queue_wrong_session_retry, (error, pending, content, images), again),
    ensures
        again <==> text::holds(error@, "this connection is attached to `"@) && text::holds(
            error@,
            "; attach to it first or use another connection"@,
        ),
        again ==> final(pending)@.len() == old(pending)@.len() + 1 && final(pending)@[0]
            == (SessionCommand::Send { content, images }) && final(pending)@.skip(1) == old(pending)@,
        !again ==> final(pending)@ == old(pending)@,
{
    if again {
        assert(final(pending)@.skip(1) =~= old(pending)@);
    }
}

/// A worker is started on the session that its id names, with nothing to do; an id that
/// names none is told of, and its session is lost.
pub proof fn workers_start_with_nothing_to_do(id: String, started: Result<Worker, (Update, Update)>)
    requires
        call_ensures(Worker::start, (id,), started),
    ensures
        started is Ok <==> remote::address_of(id@) is Some,
        started matches Ok(worker) ==> worker.session_id@ == id@ && remote::address_of(id@) == Some(
            worker.address@,
        ) && worker.incoming@.len() == 0 && worker.pending@.len() == 0 && worker.unaccepted@.len()
            == 0 && !worker.turn_active,
        started matches Err((told, lost)) ==> told is Status && lost is SessionLost
            && lost->SessionLost_session_id@ == id@ && text::holds(told->Status_0@, id@),
{
    if let Err((told, _)) = started {
        let m = told->Status_0@;
        let p = "Invalid remote session id: "@;
        assert(m.subrange(p.len() as int, (p.len() + id@.len()) as int) =~= id@);
        assert(text::at(m, id@, p.len() as int));
    }
}

/// A prompt that went out makes a turn run. It waits to be accepted only where it began that
/// turn, and nothing that waits is lost however it went.
pub proof fn prompts_that_go_out_make_a_turn(
    w: &mut Worker,
    content: String,
    images: Vec<(String, String)>,
    result: Result<(), String>,
    outcome: SendOutcome,
)
    requires
        call_ensures(Worker::sent, (w, content, images, result), outcome),
    ensures
        result is Ok ==> outcome is Submitted && final(w).turn_active && final(w).pending@ == old(w).pending@,
        result is Ok && (old(w).turn_active || old(w).unaccepted@.len() > 0) ==> final(w).unaccepted@
            == old(w).unaccepted@,
        result is Ok && !old(w).turn_active && old(w).unaccepted@.len() == 0 ==> final(w).unaccepted@
            == seq![SessionCommand::Send { content, images }],
        result is Err ==> !(outcome is Submitted) && final(w).turn_active == old(w).turn_active
            && final(w).unaccepted@ == old(w).unaccepted@,
        outcome is Failed ==> final(w).pending@ == old(w).pending@,
        outcome is Reconnect ==> final(w).pending@.len() == old(w).pending@.len() + 1 && final(w).pending@[0] == (SessionCommand::Send { content, images }),
        final(w).session_id == old(w).session_id && final(w).incoming@ == old(w).incoming@,
{
    if result is Ok && !old(w).turn_active && old(w).unaccepted@.len() == 0 {
        assert(final(w).unaccepted@ =~= seq![SessionCommand::Send { content, images }]);
    }
}

/// An event of another session is passed over, and one of this session is taken as it is,
/// unless it asks to continue interrupted work. Receiving ends no turn.
pub proof fn own_events_are_received(w: &mut Worker, event: ApiEvent, received: Received)
    requires
        call_ensures(Worker::receive, (w, event), received),
    ensures
        final(w).turn_active == old(w).turn_active,
        received matches Received::Mine(taken) ==> taken == event,
        event matches ApiEvent::Session { session_id, event: told } ==> {
            &&& session_id@ != old(w).address.session_id@ ==> !(received is Mine)
                && !(received is Continuation)
            &&& !(received is Reconnect) && session_id@ == old(w).address.session_id@ ==> (
            received is Continuation <==> told is SessionRecovery)
            &&& !(received is Reconnect) && session_id@ == old(w).address.session_id@ && !(told
                is SessionRecovery) ==> received is Mine
        },
        received matches Received::Continuation { busy, .. } ==> (busy <==> old(w).turn_active
            || old(w).unaccepted@.len() > 0),
        !(received is Reconnect) ==> final(w).pending@ == old(w).pending@ && final(w).unaccepted@
            == old(w).unaccepted@,
{
}

/// An accepted prompt no longer waits, the oldest first; other events leave those that wait
/// be, unless they tell of an error.
pub proof fn accepted_prompts_wait_no_longer(
    w: &mut Worker,
    event: ApiEvent,
    told: Option<Update>,
)
    requires
        call_ensures(Worker::observe, (w, event, false), told),
        !(event is Error),
    ensures
        told is Some ==> final(w).pending@ == old(w).pending@,
        (event matches ApiEvent::Session { event: SessionEvent::MessageAccepted, .. }) && told
            is Some && old(w).unaccepted@.len() > 0 ==> final(w).unaccepted@ == old(w).unaccepted@.drop_first(),
        !(event matches ApiEvent::Session { event: SessionEvent::MessageAccepted, .. }) && told
            is Some ==> final(w).unaccepted@ == old(w).unaccepted@,
{
}

/// Work that was continued runs, and is told of as running; where that failed the turn stays
/// as it was.
pub proof fn continued_work_runs(w: &mut Worker, result: Result<(), String>, told: Update)
    requires
        call_ensures(Worker::continued, (w, result), told),
    ensures
        result is Ok ==> final(w).turn_active && told is Event,
        result is Err ==> final(w).turn_active == old(w).turn_active && told is CommandFailed
            && told->CommandFailed_session_id@ == old(w).session_id@,
        result matches Err(error) ==> text::holds(told->CommandFailed_reason@, error@),
        final(w).pending@ == old(w).pending@ && final(w).unaccepted@ == old(w).unaccepted@,
{
    if let Err(error) = result {
        let m = told->CommandFailed_reason@;
        let p = "Failed to continue interrupted work: "@;
        assert(m.subrange(p.len() as int, (p.len() + error@.len()) as int) =~= error@);
        assert(text::at(m, error@, p.len() as int));
    }
}

/// A stream that answers at once is given a pause, and that is told the first time alone; a
/// closed one is lost; and else there is nothing to do but wait.
pub proof fn silence_is_waited_out(w: &mut Worker, closed: bool, waited_ms: u64, step: IdleStep)
    requires
        call_ensures(Worker::no_event, (w, closed, waited_ms), step),
    ensures
        step is Closed <==> closed,
        step is BackOff <==> !closed && waited_ms < 10,
        step is Wait <==> !closed && waited_ms >= 10,
        step matches IdleStep::BackOff { report } ==> (report <==> !old(w).reported_disconnected_events) && final(w).reported_disconnected_events,
        !(step is BackOff) ==> final(w).reported_disconnected_events == old(w).reported_disconnected_events,
        final(w).turn_active == old(w).turn_active && final(w).pending@ == old(w).pending@ && final(w).unaccepted@ == old(w).unaccepted@,
{
}

/// A new connection is told of, and keeps what waits; what was on its way over the last one
/// is over.
pub proof fn connections_keep_what_waits(w: &mut Worker, told: Update)
    requires
        call_ensures(Worker::attached, (w,), told),
    ensures
        told is SessionConnected,
        told->SessionConnected_session_id@ == old(w).session_id@,
        final(w).pending@ == old(w).pending@,
        final(w).incoming@ == old(w).incoming@,
        final(w).unaccepted@.len() == 0 && !final(w).turn_active,
{
}

/// A worker takes its leave of an idle session alone.
pub proof fn only_idle_workers_take_their_leave(processing: bool, leaves: bool)
    requires
        call_ensures(harness::should_detach_on_drop, (processing,), leaves),
    ensures
        leaves <==> !processing,
{
}

/// A lost connection is told with why it was lost.
pub proof fn lost_connections_say_why(w: Worker, error: &str, told: Update)
    requires
        call_ensures(Worker::connection_failed, (&w, error), told),
    ensures
        told is SessionLost,
        told->SessionLost_session_id@ == w.session_id@,
        told->SessionLost_reason@.take(error@.len() as int) == error@,
{
    assert(told->SessionLost_reason@.take(error@.len() as int) =~= error@);
}

/// A login can be switched where it can be chosen; both ways to tell agree.
pub proof fn switchable_logins_can_be_chosen(
    account: Account,
    provider: &str,
    family: &str,
    chosen: Option<&str>,
    allowed: Result<(), String>,
)
    requires
        provider@ == account@.id,
        call_ensures(Account::switch_provider, (&account, family), chosen),
        call_ensures(harness::switchable, (provider, family), allowed),
    ensures
        allowed is Ok <==> chosen is Some,
        chosen matches Some(name) ==> name@ == account@.id,
        provider@ == family@ || provider@ == "openai"@ ==> allowed is Ok,
        provider@ != family@ && provider@ != "openai"@ ==> allowed is Err,
        allowed matches Err(message) ==> text::holds(message@, provider@),
{
    if let Err(message) = allowed {
        let p = "Switching accounts is not supported for `"@;
        let m = message@;
        assert(m.subrange(p.len() as int, (p.len() + provider@.len()) as int) =~= provider@);
        assert(text::at(m, provider@, p.len() as int));
    }
}

/// Switching went well where both the choice was stored and the runtime took it in; what went
/// wrong first is told.
pub proof fn switching_takes_both_steps(
    stored: Result<(), String>,
    notified: Result<(), String>,
    told: Result<(), String>,
)
    requires
        call_ensures(harness::switch_account, (stored, notified), told),
    ensures
        told is Ok <==> stored is Ok && notified is Ok,
        stored matches Err(error) ==> told->Err_0@.skip(told->Err_0@.len() - error@.len()) == error@,
        stored is Ok && notified is Err ==> told->Err_0@.skip(
            told->Err_0@.len() - notified->Err_0@.len(),
        ) == notified->Err_0@,
{
    if let Err(error) = stored {
        assert(told->Err_0@.skip(told->Err_0@.len() - error@.len()) =~= error@);
    } else if let Err(error) = notified {
        assert(told->Err_0@.skip(told->Err_0@.len() - error@.len()) =~= error@);
    }
}

/// A request whose session could not be created is answered once it is given up, and each
/// failure is told.
pub proof fn given_up_requests_are_answered(
    request: Option<String>,
    retry: bool,
    error: &str,
    told: (Option<Update>, Update),
)
    requires
        call_ensures(harness::create_failed, (request, retry, error), told),
    ensures
        told.0 is Some <==> request is Some && !retry,
        told.0 is Some ==> told.0->0 is CommandFailed && told.0->0->CommandFailed_session_id@
            == request->0@,
        told.1 is Status,
        told.1->Status_0@.skip(told.1->Status_0@.len() - error@.len()) == error@,
{
    assert(told.1->Status_0@.skip(told.1->Status_0@.len() - error@.len()) =~= error@);
}

/// The creation of a remote session is told with its request at every stage, and only the
/// stage that failed as failed.
pub proof fn remote_stages_are_told(
    host: &str,
    request: Option<String>,
    stage: RemoteStage,
    told: Update,
)
    requires
        call_ensures(harness::create_remote_session, (host, request, stage), told),
    ensures
        told is RemoteStatus,
        told->RemoteStatus_request_id == request,
        told->failed <==> stage is Failed,
        !(stage is Connected) ==> told->host@ == host@,
        stage is Connected ==> told->host@ == text::trim(host@) && text::holds(
            told->message@,
            text::trim(host@),
        ),
        stage is Connecting ==> text::holds(told->message@, host@),
        stage matches RemoteStage::Failed(error) ==> text::holds(
            told->message@,
            error@,
        ),
{
    let m = told->message@;
    if stage is Connecting {
        let p = "Connecting to "@.len() as int;
        assert(m.subrange(p, p + host@.len()) =~= host@);
        assert(text::at(m, host@, p));
    }
    if stage is Connected {
        let p = "Connected to "@.len() as int;
        let h = text::trim(host@);
        assert(m.subrange(p, p + h.len()) =~= h);
        assert(text::at(m, h, p));
    }
    if let RemoteStage::Failed(error) = stage {
        let p = "Remote session failed: "@.len() as int;
        assert(m.subrange(p, p + error@.len()) =~= error@);
        assert(text::at(m, error@, p));
    }
}

/// An update is taken behind those that are there, and more is looked for only where one came
/// and there is room.
pub proof fn updates_are_taken_in_order(
    taken: &mut Vec<Update>,
    next: Option<Update>,
    limit: usize,
    more: bool,
)
    requires
        call_ensures(bridge::take_update, (taken, next, limit), more),
    ensures
        next is Some ==> final(taken)@.len() == old(taken)@.len() + 1 && final(taken)@.last()
            == next->0 && final(taken)@.drop_last() == old(taken)@,
        next is None ==> final(taken)@ == old(taken)@ && !more,
        more <==> next is Some && old(taken)@.len() + 1 < limit,
{
    if next is Some {
        assert(final(taken)@.drop_last() =~= old(taken)@);
    }
}

/// A login goes by the label in its report's name, and by the one given apart where that says
/// nothing.
pub proof fn logins_go_by_their_labels(report: UsageReport, label: Option<String>)
    requires
        call_ensures(UsageReport::login_label, (&report,), label),
    ensures
        ({
            let named = accounts::report_label(report@.provider_name);
            let apart = report@.account_label;
            &&& named.len() > 0 ==> label is Some && label->0@ == named
            &&& named.len() == 0 && apart is Some && text::trim(apart->0).len() > 0 ==> label
                is Some && label->0@ == text::trim(apart->0)
            &&& label is None <==> named.len() == 0 && (apart is None || text::trim(
                apart->0,
            ).len() == 0)
        }),
{
}

/// An account's row grows where it has more to show: its history, or its logins one by one;
/// one that is not set up shows neither.
pub proof fn rows_grow_by_what_there_is_to_show(
    account: Account,
    history: bool,
    breakdown: bool,
    expands: bool,
    available: bool,
)
    requires
        call_ensures(Account::shows_oauth_history, (&account,), history),
        call_ensures(Account::shows_login_breakdown, (&account,), breakdown),
        call_ensures(Account::expands, (&account,), expands),
        call_ensures(Account::available, (&account,), available),
    ensures
        expands <==> history || breakdown,
        account@.status == "not_configured"@ ==> !expands,
        account@.status != "not_configured"@ ==> (history <==> account@.id == "openai"@),
        account@.status != "not_configured"@ && account@.usage_reports.len() > 1 ==> breakdown,
        account@.status != "not_configured"@ && account@.usage_reports.len() == 1 ==> (breakdown
            <==> account@.usage_reports[0].limits.len() > 0
            || account@.usage_reports[0].extra_info.len() > 0),
        account@.usage_reports.len() == 0 ==> !breakdown,
        available <==> account@.status == "available"@,
{
    if account@.usage_reports.len() == 1 {
        let only = account@.usage_reports[0];
        assert(accounts::says_something(only) <==> only.limits.len() > 0 || only.extra_info.len()
            > 0);
    }
}

/// The account feed is woken by a number it has not just seen.
pub proof fn refreshes_are_told_apart(generation: &mut u64)
    requires
        call_ensures(accounts::request_refresh, (generation,), ()),
    ensures
        *final(generation) != *old(generation),
        *old(generation) < u64::MAX ==> *final(generation) == *old(generation) + 1,
        *old(generation) == u64::MAX ==> *final(generation) == 0,
{
}

/// A provider without a logo goes by its first letter.
pub proof fn lettermarks_are_first_letters(name: &str, mark: String)
    requires
        call_ensures(accounts::lettermark, (name,), mark),
    ensures
        name@.len() > 0 ==> mark@ == text::uppercase(name@[0]),
        name@.len() == 0 ==> mark@ == "?"@,
{
}

/// An image says that the model got it where a tool handed it over, and nowhere else.
pub proof fn handed_over_images_say_so(image: TranscriptImage, caption: Option<&'static str>)
    requires
        call_ensures(TranscriptImage::model_input_caption, (&image,), caption),
    ensures
        caption is Some <==> image@.source is ToolResult,
        caption is Some ==> caption->0@ == "Image provided to model"@,
{
}

/// Prompts are the user's and answers Jcode's; no other row has a speaker.
pub proof fn rows_have_their_speakers(item: Item, role: Option<Speaker>, caption: &'static str)
    requires
        call_ensures(transcript::role_of, (&item,), role),
        role is Some ==> call_ensures(Speaker::caption, (role->0,), caption),
    ensures
        role is Some <==> item@ is User || item@ is Assistant,
        item@ is User ==> caption@ == "you"@,
        item@ is Assistant ==> caption@ == "jcode"@,
{
}

/// What is folded or opened by hand is the other way round afterwards, and nothing else
/// changes.
pub proof fn toggles_turn_one_thing_round(p: &mut Panel, q: &mut Panel)
    requires
        call_ensures(Panel::toggle_pinned_todos, (p,), ()),
        call_ensures(Panel::toggle_model_choice, (q,), ()),
    ensures
        final(p)@.pinned_todo_expanded != old(p)@.pinned_todo_expanded,
        final(p)@.recovery_picker_open == old(p)@.recovery_picker_open,
        final(p)@.items == old(p)@.items,
        final(q)@.recovery_picker_open != old(q)@.recovery_picker_open,
        final(q)@.pinned_todo_expanded == old(q)@.pinned_todo_expanded,
        final(q)@.model_picker_open == old(q)@.model_picker_open,
        final(q)@.items == old(q)@.items,
{
}

/// The group of the tab in focus holds that tab.
pub proof fn the_group_in_focus_holds_its_tab(
    groups: Vec<(usize, usize)>,
    selected: usize,
    found: Option<usize>,
)
    requires
        call_ensures(tabs::active_group, (&groups, selected), found),
    ensures
        found matches Some(i) ==> i < groups@.len() && groups@[i as int].0 <= selected && selected
            < groups@[i as int].1,
{
}

/// A line by itself is a command exactly where it is one of that command's names.
pub proof fn commands_are_read_by_name(t: Seq<char>)
    ensures
        ({
            let c = composer::bare_command(t);
            &&& c is Cancel <==> t == "/cancel"@
            &&& c is ClearView <==> t == "/cls"@ || t == "/clear-view"@
            &&& c is Clear <==> t == "/clear"@
            &&& c is Compact <==> t == "/compact"@
            &&& c is Help <==> t == "/help"@ || t == "/commands"@ || t == "/?"@
            &&& c is Todos <==> t == "/todos"@ || t == "/todo"@
            &&& c is Models <==> t == "/model"@ || t == "/models"@
            &&& c is Update <==> t == "/update"@
            &&& c is Commit <==> t == "/commit"@
            &&& c is CommitPush <==> t == "/commit-push"@ || t == "/commit-and-push"@
            &&& t == "/effort"@ ==> c is EffortUsage
            &&& t == "/rename"@ ==> c is BadRename
            &&& t == "/rewind"@ ==> c is RewindUsage
        }),
{
    reveal_strlit("/cancel");
    reveal_strlit("/cls");
    reveal_strlit("/clear-view");
    reveal_strlit("/clear");
    reveal_strlit("/compact");
    reveal_strlit("/help");
    reveal_strlit("/commands");
    reveal_strlit("/?");
    reveal_strlit("/todos");
    reveal_strlit("/todo");
    reveal_strlit("/model");
    reveal_strlit("/models");
    reveal_strlit("/update");
    reveal_strlit("/effort");
    reveal_strlit("/rename");
    reveal_strlit("/rewind");
    reveal_strlit("/commit");
    reveal_strlit("/commit-push");
    reveal_strlit("/commit-and-push");
    assert("/cancel"@[2] == 'a' && "/cancel"@.len() == 7);
    assert("/cls"@.len() == 4 && "/clear-view"@.len() == 11 && "/clear"@.len() == 6);
    assert("/compact"@.len() == 8 && "/help"@.len() == 5 && "/commands"@.len() == 9);
    assert("/?"@.len() == 2 && "/todos"@.len() == 6 && "/todo"@.len() == 5);
    assert("/model"@.len() == 6 && "/models"@.len() == 7 && "/update"@.len() == 7);
    assert("/effort"@.len() == 7 && "/rename"@.len() == 7 && "/rewind"@.len() == 7);
    assert("/commit"@.len() == 7 && "/commit-push"@.len() == 12);
    assert("/commit-and-push"@.len() == 16 && "/rename"@[3] == 'n' && "/rewind"@[3] == 'w');
    assert("/clear"@[1] == 'c' && "/todos"@[1] == 't' && "/model"@[1] == 'm');
    assert("/help"@[1] == 'h' && "/todo"@[1] == 't' && "/models"@[1] == 'm');
    assert("/update"@[1] == 'u' && "/effort"@[1] == 'e' && "/rename"@[1] == 'r');
    assert("/rewind"@[1] == 'r' && "/commit"@[1] == 'c' && "/commit"@[2] == 'o');
    assert("/cancel"@[1] == 'c');
}

} // verus!
