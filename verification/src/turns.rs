//! What holds of a session's worker over turns, submissions and connections.
use vstd::prelude::*;

use crate::events::{ApiEvent, SessionEvent, SessionInfo};
use crate::harness;
use crate::harness::{
    Action, Command, Request, SessionCommand, Update, Worker, WorkerEvent, WorkerStep,
};
use crate::remote;
use crate::text;

verus! {

/// Whether an event is output of a turn, which only comes while one runs.
pub open spec fn is_output(event: ApiEvent) -> bool {
    event is Session && (event->Session_event is MessageAccepted || event->Session_event is TextDelta
        || event->Session_event is ReasoningDelta || event->Session_event is ToolStart)
}

/// Whether an event ends a turn by what it is: the turn is done, was stopped or failed.
pub open spec fn is_end(event: ApiEvent) -> bool {
    event is Error || (event is Session && (event->Session_event is TurnDone || event->Session_event
        is TurnStopped))
}

pub open spec fn is_status(event: ApiEvent) -> bool {
    event is Session && event->Session_event is SessionStatus
}

/// Output of a turn shows that one runs, whatever was known before, and an end shows that
/// none does. Apart from those only a status tells, and every other event leaves what is
/// known as it is.
pub proof fn output_shows_that_a_turn_runs(event: ApiEvent, active: bool)
    ensures
        is_output(event) ==> harness::active_after(event, active),
        is_end(event) ==> !harness::active_after(event, active),
        !is_output(event) && !is_end(event) && !is_status(event) ==> harness::active_after(
            event,
            active,
        ) == active,
{
}

/// A status ends a turn where it says that the session is idle or its turn was cut short,
/// and starts one where it says that the session works. Every other status leaves what is
/// known as it is.
#[verifier::rlimit(60)]
pub proof fn statuses_start_and_end_turns(session_id: String, status: String, active: bool)
    ensures
        ({
            let s = status@;
            let after = harness::active_after(
                ApiEvent::Session { session_id, event: SessionEvent::SessionStatus { status } },
                active,
            );
            let ends = s == "idle"@ || s == "cancelled"@ || s == "canceled"@ || s == "interrupted"@
                || s == "crashed"@ || s == "error"@ || s == "failed"@;
            let works = s == "generating"@ || s == "running"@ || s == "processing"@ || s == "busy"@
                || s == "thinking"@ || s == "streaming"@ || s == "running_tools"@;
            &&& ends ==> !after
            &&& works ==> after
            &&& !ends && !works ==> after == active
        }),
{
    reveal_strlit("idle");
    reveal_strlit("cancelled");
    reveal_strlit("canceled");
    reveal_strlit("interrupted");
    reveal_strlit("crashed");
    reveal_strlit("error");
    reveal_strlit("failed");
    reveal_strlit("generating");
    reveal_strlit("running");
    reveal_strlit("processing");
    reveal_strlit("busy");
    reveal_strlit("thinking");
    reveal_strlit("streaming");
    reveal_strlit("running_tools");
    let s = status@;
    assert(s == "idle"@ ==> s.len() == 4 && s[0] == 'i');
    assert(s == "cancelled"@ ==> s.len() == 9 && s[0] == 'c');
    assert(s == "canceled"@ ==> s.len() == 8 && s[0] == 'c');
    assert(s == "interrupted"@ ==> s.len() == 11);
    assert(s == "crashed"@ ==> s.len() == 7 && s[0] == 'c');
    assert(s == "error"@ ==> s.len() == 5);
    assert(s == "failed"@ ==> s.len() == 6);
    assert(s == "generating"@ ==> s.len() == 10);
    assert(s == "running"@ ==> s.len() == 7 && s[0] == 'r');
    assert(s == "processing"@ ==> s.len() == 10);
    assert(s == "busy"@ ==> s.len() == 4 && s[0] == 'b');
    assert(s == "thinking"@ ==> s.len() == 8 && s[0] == 't');
    assert(s == "streaming"@ ==> s.len() == 9 && s[0] == 's');
    assert(s == "running_tools"@ ==> s.len() == 13);
}

/// A turn ends only by an event that says so: where one ran and none does, the event is an
/// error, the end or stop of the turn, or a status. Likewise a turn starts only with output
/// or a status.
pub proof fn turns_end_only_where_told(event: ApiEvent, active: bool)
    ensures
        active && !harness::active_after(event, active) ==> is_end(event) || is_status(event),
        !active && harness::active_after(event, active) ==> is_output(event) || is_status(event),
{
}

/// Whether a worker takes a turn to run, or one to begin: a prompt of its own is not
/// accepted yet.
pub open spec fn is_engaged(worker: Worker) -> bool {
    worker.turn_active || worker.unaccepted@.len() > 0
}

/// Whether a command would be taken next: the first that waits, else the first that came in.
pub open spec fn is_next(worker: Worker, happened: WorkerEvent, command: SessionCommand) -> bool {
    happened is Looked && {
        let all = worker.pending@ + worker.incoming@ + happened->Looked_commands@;
        all.len() > 0 && all[0] == command
    }
}

/// A prompt goes out word for word, with its images: into the turn where one runs or is to
/// begin, as a turn of its own where none is. Work that was interrupted is then not
/// continued.
pub proof fn prompts_join_the_turn_that_runs(
    before: Worker,
    happened: WorkerEvent,
    after: Worker,
    step: WorkerStep,
    content: String,
    images: Vec<(String, String)>,
)
    requires
        harness::moved(before, happened, after, step),
        is_next(before, happened, SessionCommand::Send { content, images }),
    ensures
        step is Perform,
        step->supersedes,
        is_engaged(before) ==> step->request == (Request::Steer { content, images }),
        !is_engaged(before) ==> step->request == (Request::Send { content, images }),
{
    let all = before.pending@ + before.incoming@ + happened->Looked_commands@;
    lemma_next(before, happened->Looked_commands@);
}

proof fn lemma_next(worker: Worker, commands: Seq<SessionCommand>)
    ensures
        ({
            let all = worker.pending@ + worker.incoming@ + commands;
            all.len() > 0 ==> harness::next_command(worker, commands) == Some(all[0])
        }),
        (worker.pending@ + worker.incoming@ + commands).len() == 0 ==> harness::next_command(
            worker,
            commands,
        ) is None,
{
}

/// Every other command asks for what it says, of this session: and only a cancel and what
/// takes back history make interrupted work moot.
pub proof fn commands_ask_for_what_they_say(
    before: Worker,
    happened: WorkerEvent,
    after: Worker,
    step: WorkerStep,
    command: SessionCommand,
)
    requires
        harness::moved(before, happened, after, step),
        is_next(before, happened, command),
        !(command is Send),
    ensures
        command is Stop <==> step is End,
        command is Stop || step is Perform,
        command is RefreshRuntime ==> step->request is RuntimeInfo && !step->supersedes,
        command is Cancel ==> step->request is Cancel && step->supersedes,
        command is Fork ==> step->request is Fork && !step->supersedes,
        command is SetModel ==> step->request == Request::SetModel(command->SetModel_0)
            && !step->supersedes,
        command is SwitchAccount ==> step->request == (Request::SwitchAccount {
            provider: command->provider,
            label: command->label,
        }) && !step->supersedes,
        command is Operation ==> {
            let operation = command->Operation_0;
            &&& step->request == Request::Operation(operation)
            &&& step->supersedes <==> operation is Clear || operation is Rewind || operation
                is RewindUndo
        },
{
    lemma_next(before, happened->Looked_commands@);
}

/// Taking a command, or finding none, changes nothing but what waits.
pub proof fn looking_changes_only_the_queue(
    before: Worker,
    happened: WorkerEvent,
    after: Worker,
    step: WorkerStep,
)
    requires
        harness::moved(before, happened, after, step),
        happened is Looked || happened is Ready || happened is ConnectionFailed,
    ensures
        after.turn_active == before.turn_active,
        after.unaccepted@ == before.unaccepted@,
        after.session_id == before.session_id,
        after.address == before.address,
{
}

/// Whether an error says that the connection is attached to another session.
pub open spec fn names_another_session(message: Seq<char>) -> bool {
    text::holds(message, "this connection is attached to `"@) && text::holds(
        message,
        "; attach to it first or use another connection"@,
    )
}

/// A prompt that went out is told of, and the turn runs; where it was a turn of its own, it
/// waits behind the others for its acceptance. What waits to be asked stays.
pub proof fn sent_prompts_wait_for_acceptance(
    before: Worker,
    after: Worker,
    step: WorkerStep,
    content: String,
    images: Vec<(String, String)>,
    result: Result<(), String>,
)
    requires
        harness::moved(before, WorkerEvent::Sent { content, images, result }, after, step),
        result is Ok,
    ensures
        step matches WorkerStep::Look { tell: Some(Update::MessageSubmitted { session_id }) }
            && session_id@ == before.session_id@,
        after.turn_active,
        after.pending@ == before.pending@,
        is_engaged(before) ==> after.unaccepted@ == before.unaccepted@,
        !is_engaged(before) ==> after.unaccepted@ == before.unaccepted@.push(
            SessionCommand::Send { content, images },
        ),
{
}

/// A prompt that did not go out is not lost: where the connection served another session it
/// is the first to go out on the next, unchanged, and otherwise the failure is told in the
/// runtime's own words.
pub proof fn failed_prompts_are_kept_or_told(
    before: Worker,
    after: Worker,
    step: WorkerStep,
    content: String,
    images: Vec<(String, String)>,
    result: Result<(), String>,
)
    requires
        harness::moved(before, WorkerEvent::Sent { content, images, result }, after, step),
        result is Err,
    ensures
        after.turn_active == before.turn_active,
        after.unaccepted@ == before.unaccepted@,
        names_another_session(result->Err_0@) ==> {
            &&& step is Retry
            &&& step->wait_ms == 0
            &&& after.pending@.len() == before.pending@.len() + 1
            &&& after.pending@[0] == (SessionCommand::Send { content, images })
            &&& after.pending@.drop_first() == before.pending@
        },
        !names_another_session(result->Err_0@) ==> {
            &&& after.pending@ == before.pending@
            &&& step matches WorkerStep::Look { tell: Some(Update::SendFailed { session_id, reason }) }
                && session_id@ == before.session_id@ && reason == result->Err_0
        },
{
    if names_another_session(result->Err_0@) {
        assert(after.pending@.drop_first() =~= before.pending@);
    }
}

/// Whether the oldest prompt that was not accepted waits again, before all that waits.
pub open spec fn goes_out_again(before: Worker, after: Worker) -> bool {
    &&& before.unaccepted@.len() > 0
    &&& after.pending@.len() == before.pending@.len() + 1
    &&& after.pending@[0] == before.unaccepted@[0]
    &&& after.pending@.drop_first() == before.pending@
    &&& after.unaccepted@ == before.unaccepted@.drop_first()
}

/// An error that names another session has the prompt that it answers sent again, at once
/// and on a new connection.
pub proof fn misdirected_prompts_go_out_again(
    before: Worker,
    after: Worker,
    step: WorkerStep,
    message: String,
)
    requires
        harness::moved(before, WorkerEvent::Came(ApiEvent::Error { message }), after, step),
        names_another_session(message@),
        before.unaccepted@.len() > 0,
    ensures
        goes_out_again(before, after),
        step is Retry,
        step->wait_ms == 0,
{
    assert(after.pending@.drop_first() =~= before.pending@);
}

/// An error that the session is busy has the prompt that it answers sent again, into the
/// turn that evidently runs; the error is not shown.
pub proof fn refused_prompts_join_the_turn(
    before: Worker,
    after: Worker,
    step: WorkerStep,
    message: String,
)
    requires
        harness::moved(
            before,
            WorkerEvent::Weighed { event: ApiEvent::Error { message }, elsewhere: false },
            after,
            step,
        ),
        text::holds(text::lower_all(message@), "already processing a message"@),
        before.unaccepted@.len() > 0,
    ensures
        goes_out_again(before, after),
        after.turn_active,
        step == (WorkerStep::Look { tell: None }),
{
    assert(after.pending@.drop_first() =~= before.pending@);
}

/// The runtime's word that its daemon has closed ends the connection, in whatever case it is
/// written; what waits, waits on.
pub proof fn a_closed_daemon_ends_the_connection(
    before: Worker,
    after: Worker,
    step: WorkerStep,
    message: String,
)
    requires
        harness::moved(before, WorkerEvent::Came(ApiEvent::Error { message }), after, step),
        text::lower_all(message@) == text::lower_all("daemon connection closed"@),
        !(names_another_session(message@) && before.unaccepted@.len() > 0),
    ensures
        step is Retry,
        after.pending@ == before.pending@,
        after.unaccepted@ == before.unaccepted@,
        before.address.host is None ==> step->wait_ms == 0,
        before.address.host is Some ==> step->wait_ms == 2000,
{
}

/// The events of other sessions are passed over, and change nothing.
pub proof fn other_sessions_are_passed_over(
    before: Worker,
    after: Worker,
    step: WorkerStep,
    session_id: String,
    event: SessionEvent,
)
    requires
        harness::moved(
            before,
            WorkerEvent::Came(ApiEvent::Session { session_id, event }),
            after,
            step,
        ),
        session_id@ != before.address.session_id@,
    ensures
        step == (WorkerStep::Look { tell: None }),
        after.turn_active == before.turn_active,
        after.pending@ == before.pending@,
        after.unaccepted@ == before.unaccepted@,
{
}

/// An event of this session is weighed before it is shown, unless it asks to continue
/// interrupted work, which is then done unless a turn runs or is to begin.
pub proof fn own_events_are_weighed(
    before: Worker,
    after: Worker,
    step: WorkerStep,
    session_id: String,
    event: SessionEvent,
)
    requires
        harness::moved(
            before,
            WorkerEvent::Came(ApiEvent::Session { session_id, event }),
            after,
            step,
        ),
        session_id@ == before.address.session_id@,
    ensures
        event is SessionRecovery ==> step == (WorkerStep::Claim {
            message: event->continuation_message,
            busy: is_engaged(before),
        }),
        !(event is SessionRecovery) ==> step == WorkerStep::Weigh(
            ApiEvent::Session { session_id, event },
        ),
        after.turn_active == before.turn_active,
        after.pending@ == before.pending@,
        after.unaccepted@ == before.unaccepted@,
{
}

/// An event that was weighed is shown under the id by which the session is known here. An
/// accepted prompt waits no longer, the oldest first, and an error forgets all that wait.
pub proof fn weighed_events_are_shown(
    before: Worker,
    after: Worker,
    step: WorkerStep,
    event: ApiEvent,
)
    requires
        harness::moved(before, WorkerEvent::Weighed { event, elsewhere: false }, after, step),
        !(event is Error && before.unaccepted@.len() > 0),
    ensures
        step is Look,
        step->Look_tell matches Some(Update::Event { session_id, event: shown }) && session_id@
            == before.session_id@ && (event is Session ==> shown is Session
            && shown->Session_event == event->Session_event) && (event is Error ==> shown == event),
        event is Session && event->Session_event is MessageAccepted && before.unaccepted@.len() > 0
            ==> after.unaccepted@ == before.unaccepted@.drop_first(),
        !(event is Session && event->Session_event is MessageAccepted) && !(event is Error)
            ==> after.unaccepted@ == before.unaccepted@,
        event is Error ==> after.unaccepted@.len() == 0,
        after.pending@ == before.pending@,
        is_output(event) ==> after.turn_active,
        is_end(event) ==> !after.turn_active,
{
}

/// A session that another client continued has a turn that runs; the event is not shown.
pub proof fn work_continued_elsewhere_is_a_turn(
    before: Worker,
    after: Worker,
    step: WorkerStep,
    event: ApiEvent,
)
    requires
        harness::moved(before, WorkerEvent::Weighed { event, elsewhere: true }, after, step),
    ensures
        after.turn_active,
        step == (WorkerStep::Look { tell: None }),
        after.pending@ == before.pending@,
        after.unaccepted@ == before.unaccepted@,
{
}

/// A new connection starts afresh: no turn runs on it and no prompt waits for acceptance,
/// but every command that waits is kept.
pub proof fn a_connection_starts_afresh(before: Worker, after: Worker, step: WorkerStep)
    requires
        harness::moved(before, WorkerEvent::Attached, after, step),
    ensures
        !after.turn_active,
        after.unaccepted@.len() == 0,
        after.pending@ == before.pending@,
        after.incoming@ == before.incoming@,
        step is Serve,
{
}

/// The commands before the first stop wait, in their order, behind what waited; a worker
/// that is told to stop ends, and only then.
pub proof fn what_comes_before_a_stop_waits(
    before: Worker,
    happened: WorkerEvent,
    after: Worker,
    step: WorkerStep,
    k: int,
)
    requires
        harness::moved(before, happened, after, step),
        harness::came_in(happened) is Some,
        ({
            let all = before.incoming@ + harness::came_in(happened)->0;
            &&& 0 <= k <= all.len()
            &&& k < all.len() ==> all[k] is Stop
            &&& forall|j: int| 0 <= j < k ==> !(#[trigger] all[j] is Stop)
        }),
    ensures
        ({
            let all = before.incoming@ + harness::came_in(happened)->0;
            &&& after.pending@ == before.pending@ + all.take(k)
            &&& step is End <==> k < all.len()
        }),
{
    lemma_stop_position(before.incoming@ + harness::came_in(happened)->0, k);
}

proof fn lemma_stop_position(commands: Seq<SessionCommand>, k: int)
    requires
        0 <= k <= commands.len(),
        k < commands.len() ==> commands[k] is Stop,
        forall|j: int| 0 <= j < k ==> !(#[trigger] commands[j] is Stop),
    ensures
        harness::stop_position(commands) == k,
    decreases commands.len(),
{
    if k > 0 {
        assert(!(commands[0] is Stop));
        let rest = commands.drop_first();
        assert forall|j: int| 0 <= j < k - 1 implies !(#[trigger] rest[j] is Stop) by {
            assert(!(commands[j + 1] is Stop));
        }
        lemma_stop_position(rest, k - 1);
    }
}

/// An event is passed on as it came, but for the ids of sessions: one on a host is named by
/// the host, one here keeps its id.
pub proof fn events_are_passed_on_as_they_came(
    new: ApiEvent,
    past: ApiEvent,
    address: remote::AddressView,
)
    requires
        harness::routed(new, past, address),
    ensures
        past is Session ==> new is Session && new->Session_event == past->Session_event
            && new->session_id@ == (if address.host is Some {
            "ssh://"@ + address.host->0 + ("/"@ + past->session_id@)
        } else {
            past->session_id@
        }),
        past is Error ==> new == past,
        past is Other ==> new == past,
        past is Sessions ==> new is Sessions && new->sessions@.len() == past->sessions@.len(),
        past is Attached ==> new is Attached && new->Attached_session.title
            == past->Attached_session.title && new->Attached_session.status
            == past->Attached_session.status,
        past is SessionForked ==> new is SessionForked && new->SessionForked_session.title
            == past->SessionForked_session.title,
{
}

/// An id reads back: the address that it names is known here by that very id. A host has a
/// name without a slash, and an id without the prefix of hosts names a session here.
pub proof fn ids_read_back(id: Seq<char>)
    ensures
        remote::address_of(id) matches Some(address) ==> remote::known_as(
            address,
            address.session_id,
        ) == id,
        remote::address_of(id) matches Some(address) ==> (address.host matches Some(host)
            ==> host.len() > 0 && address.session_id.len() > 0 && !host.contains('/')),
        remote::address_of(id) is None ==> text::starts(id, "ssh://"@),
        !text::starts(id, "ssh://"@) ==> remote::address_of(id) == Some(
            remote::AddressView { host: None, session_id: id },
        ),
{
    reveal_strlit("ssh://");
    reveal_strlit("/");
    if let Some(rest) = text::behind(id, "ssh://"@) {
        lemma_char_from(rest, '/', 0);
        if let Some(i) = text::char_from(rest, '/', 0) {
            if 0 < i < rest.len() - 1 {
                let host = rest.subrange(0, i);
                let session = rest.subrange(i + 1, rest.len() as int);
                assert("ssh://"@ + host + ("/"@ + session) =~= id) by {
                    assert(id.subrange(0, 6) == "ssh://"@);
                    assert forall|k: int| 0 <= k < id.len() implies ("ssh://"@ + host + ("/"@
                        + session))[k] == #[trigger] id[k] by {
                        if k < 6 {
                            assert(id.subrange(0, 6)[k] == id[k]);
                        }
                    }
                }
                assert(!host.contains('/'));
            }
        }
    }
}

proof fn lemma_char_from(s: Seq<char>, c: char, from: int)
    requires
        0 <= from <= s.len(),
    ensures
        match text::char_from(s, c, from) {
            Some(i) => from <= i < s.len() && s[i] == c && forall|k: int|
                from <= k < i ==> #[trigger] s[k] != c,
            None => forall|k: int| from <= k < s.len() ==> #[trigger] s[k] != c,
        },
    decreases s.len() - from,
{
    if from < s.len() && s[from] != c {
        lemma_char_from(s, c, from + 1);
    }
}

/// The session that a command is for, where it is for one and asks its worker for something.
pub open spec fn addressee(command: Command) -> Option<Seq<char>> {
    match command {
        Command::Send { session_id, .. } => Some(session_id@),
        Command::SetModel { session_id, .. } => Some(session_id@),
        Command::SwitchAccount { session_id, .. } => Some(session_id@),
        Command::RefreshRuntime { session_id } => Some(session_id@),
        Command::SessionOperation { session_id, .. } => Some(session_id@),
        Command::Fork { session_id } => Some(session_id@),
        _ => None,
    }
}

/// A command for a session is handed to that session's worker, and one is started for it
/// where there is none; it has a worker from then on, and every other keeps its own. The
/// worker is asked for what the command says.
pub proof fn commands_reach_their_worker(
    before: Seq<Seq<char>>,
    command: Command,
    action: Action,
    after: Seq<Seq<char>>,
)
    requires
        harness::is_route(before, command, action, after),
        addressee(command) is Some,
    ensures
        action is Deliver,
        action->Deliver_session_id@ == addressee(command)->0,
        action->Deliver_start <==> !before.contains(addressee(command)->0),
        after.contains(addressee(command)->0),
        forall|id: Seq<char>|
            id != addressee(command)->0 ==> (after.contains(id) <==> before.contains(id)),
        command is Send ==> action->Deliver_command == (SessionCommand::Send {
            content: command->content,
            images: command->images,
        }),
        command is SetModel ==> action->Deliver_command == SessionCommand::SetModel(
            command->SetModel_model,
        ),
        command is SwitchAccount ==> action->Deliver_command == (SessionCommand::SwitchAccount {
            provider: command->provider,
            label: command->label,
        }),
        command is RefreshRuntime ==> action->Deliver_command is RefreshRuntime,
        command is SessionOperation ==> action->Deliver_command == SessionCommand::Operation(
            command->operation,
        ),
        command is Fork ==> action->Deliver_command is Fork,
{
    lemma_with_id(before, addressee(command)->0);
}

proof fn lemma_with_id(ids: Seq<Seq<char>>, id: Seq<char>)
    ensures
        harness::with_id(ids, id).contains(id),
        forall|x: Seq<char>| x != id ==> (harness::with_id(ids, id).contains(x) <==> ids.contains(x)),
{
    if !ids.contains(id) {
        let all = ids.push(id);
        assert(all[ids.len() as int] == id);
        assert forall|x: Seq<char>| x != id implies (all.contains(x) <==> ids.contains(x)) by {
            if all.contains(x) {
                let k = all.index_of(x);
                assert(ids[k] == x);
            }
            if ids.contains(x) {
                let k = ids.index_of(x);
                assert(all[k] == x);
            }
        }
    }
}

/// A cancel goes to the worker that is there and starts none: without a worker there is no
/// turn to cancel.
pub proof fn a_cancel_starts_nothing(
    before: Seq<Seq<char>>,
    session_id: String,
    action: Action,
    after: Seq<Seq<char>>,
)
    requires
        harness::is_route(before, Command::Cancel { session_id }, action, after),
    ensures
        after == before,
        before.contains(session_id@) ==> action is Deliver && action->Deliver_session_id
            == session_id && action->Deliver_command is Cancel && !action->Deliver_start,
        !before.contains(session_id@) ==> action is Nothing,
{
}

/// A session that is watched has a worker from then on, and only one that had none is
/// started. One that is no longer watched has none, and only one that was there is stopped.
/// When the bridge leaves, every worker is stopped.
pub proof fn watching_starts_and_stops_workers(
    before: Seq<Seq<char>>,
    session_id: String,
    action: Action,
    after: Seq<Seq<char>>,
)
    requires
        before.no_duplicates(),
    ensures
        harness::is_route(before, Command::Watch { session_id }, action, after) ==> after.contains(
            session_id@,
        ) && (action is Start <==> !before.contains(session_id@)) && (action is Start
            ==> action->Start_session_id == session_id),
        harness::is_route(before, Command::Unwatch { session_id }, action, after)
            ==> !after.contains(session_id@) && (action is Stop <==> before.contains(session_id@))
            && (action is Stop ==> action->Stop_session_id == session_id),
        harness::is_route(before, Command::Shutdown, action, after) ==> action is Shutdown
            && action->stop@.len() == before.len() && (forall|i: int|
            0 <= i < before.len() ==> (#[trigger] action->stop@[i])@ == before[i]) && after.len()
            == 0,
{
    lemma_with_id(before, session_id@);
    harness::unwatched_has_no_worker(before, session_id@);
    if harness::is_route(before, Command::Shutdown, action, after) {
        assert forall|i: int| 0 <= i < before.len() implies (#[trigger] action->stop@[i])@
            == before[i] by {
            assert(text::texts(action->stop@)[i] == action->stop@[i]@);
        }
    }
}

/// A session that was created is taken on: it is told of, as the answer to its request, and
/// it has a worker, in place of one that it had.
pub proof fn created_sessions_are_taken_on(
    before: Seq<Seq<char>>,
    session: SessionInfo,
    request_id: Option<String>,
    action: Action,
    after: Seq<Seq<char>>,
)
    requires
        harness::is_route(before, Command::CreatedInternal { session, request_id }, action, after),
    ensures
        action is Adopt,
        action->session == session,
        action->Adopt_request_id == request_id,
        action->replaces <==> before.contains(session.session_id@),
        after.contains(session.session_id@),
{
    lemma_with_id(before, session.session_id@);
}

/// The time that an id carries is a number of milliseconds with thirteen digits, which stands
/// between its underscores; the first such part counts.
pub proof fn ids_carry_a_time_of_thirteen_digits(id: Seq<char>)
    ensures
        match harness::stamp_of(id) {
            Some(ms) => {
                &&& 1_000_000_000_000 <= ms < 10_000_000_000_000
                &&& exists|i: int|
                    0 <= i < text::split(id, '_').len() && text::spelled_u64(
                        #[trigger] text::split(id, '_')[i],
                    ) == Some(ms as u64) && forall|k: int|
                        0 <= k < i ==> !(text::spelled_u64(#[trigger] text::split(id, '_')[k])
                            matches Some(n) && 1_000_000_000_000 <= n < 10_000_000_000_000)
            },
            None => forall|k: int|
                0 <= k < text::split(id, '_').len() ==> !(text::spelled_u64(
                    #[trigger] text::split(id, '_')[k],
                ) matches Some(n) && 1_000_000_000_000 <= n < 10_000_000_000_000),
        },
{
    lemma_stamp(text::split(id, '_'), 0);
}

proof fn lemma_stamp(parts: Seq<Seq<char>>, from: int)
    requires
        0 <= from <= parts.len(),
    ensures
        match harness::stamp_in(parts, from) {
            Some(ms) => {
                &&& 1_000_000_000_000 <= ms < 10_000_000_000_000
                &&& exists|i: int|
                    from <= i < parts.len() && text::spelled_u64(#[trigger] parts[i]) == Some(
                        ms as u64,
                    ) && forall|k: int|
                        from <= k < i ==> !(text::spelled_u64(#[trigger] parts[k]) matches Some(n)
                            && 1_000_000_000_000 <= n < 10_000_000_000_000)
            },
            None => forall|k: int|
                from <= k < parts.len() ==> !(text::spelled_u64(#[trigger] parts[k]) matches Some(n)
                    && 1_000_000_000_000 <= n < 10_000_000_000_000),
        },
    decreases parts.len() - from,
{
    if from < parts.len() {
        match text::spelled_u64(parts[from]) {
            Some(value) if 1_000_000_000_000 <= value < 10_000_000_000_000 => {},
            _ => lemma_stamp(parts, from + 1),
        }
    }
}

} // verus!
