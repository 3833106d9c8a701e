//! The bridge to the runtime: one worker per session, and the loop that feeds them.
//! Connections, threads and channels stay with the caller; what is decided between
//! them is decided here.
use std::collections::VecDeque;
use vstd::prelude::*;

use crate::events::{ApiEvent, HistoryMessage, RenderedImage, SessionEvent, SessionInfo};
use crate::remote;
use crate::remote::SessionAddress;
use crate::text;
use crate::text::{concat, concat3, contains, lowered, parse_u64, same, same_ignoring_case, split_at_char};

verus! {

/// Decodes the host carried by a remote session's id.
pub fn remote_host(session_id: &str) -> (r: Option<String>)
    ensures
        text::text_option(r) == match remote::address_of(session_id@) {
            Some(address) => address.host,
            None => None,
        },
{
    match SessionAddress::parse(session_id) {
        Ok(address) => address.host,
        Err(_) => None,
    }
}

/// What is asked of a session besides sending to it.
#[derive(Debug, PartialEq, Eq)]
pub enum SessionOperation {
    Clear,
    Compact,
    SetEffort(String),
    Rename(Option<String>),
    Rewind(usize),
    RewindUndo,
}

/// What a session's worker is told to do.
#[derive(Debug, PartialEq, Eq)]
pub enum SessionCommand {
    RefreshRuntime,
    Send { content: String, images: Vec<(String, String)> },
    Cancel,
    Fork,
    SetModel(String),
    SwitchAccount { provider: String, label: String },
    Operation(SessionOperation),
    Stop,
}

/// What the bridge is told to do.
#[derive(Debug, PartialEq, Eq)]
pub enum Command {
    Shutdown,
    RefreshSessions,
    RefreshRuntime { session_id: String },
    CreateSession { working_dir: Option<String>, request_id: Option<String> },
    CreateRemoteSession {
        host: String,
        working_dir: Option<String>,
        request_id: Option<String>,
    },
    Watch { session_id: String },
    Unwatch { session_id: String },
    Send { session_id: String, content: String, images: Vec<(String, String)> },
    Cancel { session_id: String },
    Fork { session_id: String },
    SetModel { session_id: String, model: String },
    SwitchAccount { provider: String, label: String, session_id: String },
    SessionOperation { session_id: String, operation: SessionOperation },
    /// A created session whose connection waits to be adopted.
    CreatedInternal { session: SessionInfo, request_id: Option<String> },
}

/// What the bridge tells the interface.
#[derive(Debug, PartialEq, Eq)]
pub enum Update {
    Status(String),
    RemoteStatus { host: String, message: String, request_id: Option<String>, failed: bool },
    Connected,
    Sessions { sessions: Vec<SessionInfo> },
    SessionCreated { session: SessionInfo, request_id: Option<String> },
    SessionForked { session: SessionInfo },
    History {
        session_id: String,
        messages: Vec<HistoryMessage>,
        images: Vec<RenderedImage>,
    },
    Event { session_id: String, event: ApiEvent },
    SendFailed { session_id: String, reason: String },
    MessageSubmitted { session_id: String },
    CommandFailed { session_id: String, reason: String },
    AccountSwitched { session_id: String, provider: String, label: String },
    SessionLost { session_id: String, reason: String },
    SessionConnected { session_id: String },
    Disconnected { reason: String },
}

/// Only an idle worker takes its leave; one that drops out of a live turn is to be
/// seen as interrupted.
pub fn should_detach_on_drop(processing: bool) -> (r: bool)
    ensures
        r == !processing,
{
    !processing
}

/// The first part of an id, from `from` on, that is a number of milliseconds since
/// the epoch with thirteen digits.
pub open spec fn stamp_in(parts: Seq<Seq<char>>, from: int) -> Option<u128>
    decreases parts.len() - from,
{
    if from < 0 || from >= parts.len() {
        None
    } else {
        match text::spelled_u64(parts[from]) {
            Some(value) if 1_000_000_000_000 <= value < 10_000_000_000_000 => Some(value as u128),
            _ => stamp_in(parts, from + 1),
        }
    }
}

/// The time that a session id carries between its underscores.
pub open spec fn stamp_of(session_id: Seq<char>) -> Option<u128> {
    stamp_in(text::split(session_id, '_'), 0)
}

/// When a session was made, by its id.
pub fn session_recency_ms(session_id: &str) -> (r: Option<u128>)
    ensures
        r == stamp_of(session_id@),
{
    let parts = split_at_char(session_id, '_');
    let ghost views = text::texts(parts@);
    let mut i: usize = 0;
    while i < parts.len()
        invariant
            0 <= i <= parts@.len(),
            views == text::texts(parts@),
            views == text::split(session_id@, '_'),
            stamp_in(views, 0) == stamp_in(views, i as int),
        decreases parts@.len() - i,
    {
        assert(views[i as int] == parts@[i as int]@);
        if let Some(value) = parse_u64(parts[i].as_str()) {
            if 1_000_000_000_000 <= value && value < 10_000_000_000_000 {
                return Some(value as u128);
            }
        }
        i += 1;
    }
    None
}

/// The session that an event is about, where the event says so.
pub open spec fn subject_of(event: ApiEvent) -> Option<Seq<char>> {
    match event {
        ApiEvent::Session { session_id, event } => Some(session_id@),
        _ => None,
    }
}

pub fn event_session_id(event: &ApiEvent) -> (r: Option<&str>)
    ensures
        match r {
            Some(id) => subject_of(*event) == Some(id@),
            None => subject_of(*event) is None,
        },
{
    match event {
        ApiEvent::Session { session_id, .. } => Some(session_id.as_str()),
        _ => None,
    }
}

/// Whether one session is another under the id by which it is known here.
pub open spec fn renamed(new: SessionInfo, old: SessionInfo, address: remote::AddressView) -> bool {
    &&& new.session_id@ == remote::known_as(address, old.session_id@)
    &&& new == (SessionInfo { session_id: new.session_id, ..old })
}

/// Whether one event is another with every session under the id by which it is known
/// here, and with nothing else changed.
pub open spec fn routed(new: ApiEvent, old: ApiEvent, address: remote::AddressView) -> bool {
    match (new, old) {
        (
            ApiEvent::Session { session_id: n, event: after },
            ApiEvent::Session { session_id: o, event: before },
        ) => n@ == remote::known_as(address, o@) && after == before,
        (ApiEvent::Attached { session: n }, ApiEvent::Attached { session: o }) => renamed(
            n,
            o,
            address,
        ),
        (ApiEvent::SessionForked { session: n }, ApiEvent::SessionForked { session: o }) => renamed(
            n,
            o,
            address,
        ),
        (ApiEvent::Sessions { sessions: n }, ApiEvent::Sessions { sessions: o }) => {
            &&& n@.len() == o@.len()
            &&& forall|i: int| 0 <= i < n@.len() ==> renamed(#[trigger] n@[i], o@[i], address)
        },
        _ => new == old,
    }
}

/// The session under the id by which it is known here.
pub fn session_info(address: &SessionAddress, session: SessionInfo) -> (r: SessionInfo)
    ensures
        renamed(r, session, address@),
{
    let session_id = address.ui_id(session.session_id.as_str());
    SessionInfo { session_id, ..session }
}

/// The event with every session under the id by which it is known here.
pub fn namespace_event(event: ApiEvent, address: &SessionAddress) -> (r: ApiEvent)
    ensures
        routed(r, event, address@),
{
    match event {
        ApiEvent::Session { session_id, event } => ApiEvent::Session {
            session_id: address.ui_id(session_id.as_str()),
            event,
        },
        ApiEvent::Attached { session } => ApiEvent::Attached {
            session: session_info(address, session),
        },
        ApiEvent::SessionForked { session } => ApiEvent::SessionForked {
            session: session_info(address, session),
        },
        ApiEvent::Sessions { sessions } => {
            let ghost before = sessions@;
            let mut sessions = sessions;
            let n: usize = sessions.len();
            let mut i: usize = 0;
            while i < n
                invariant
                    0 <= i <= n,
                    n == sessions@.len(),
                    n == before.len(),
                    forall|k: int| 0 <= k < i ==> renamed(#[trigger] sessions@[k], before[k], address@),
                    forall|k: int| i <= k < n ==> #[trigger] sessions@[k] == before[k],
                decreases n - i,
            {
                let id = address.ui_id(sessions[i].session_id.as_str());
                sessions[i].session_id = id;
                i += 1;
            }
            ApiEvent::Sessions { sessions }
        },
        other => other,
    }
}

/// A local session's events pass as they are, to the letter of every id.
pub proof fn local_events_keep_their_ids(new: ApiEvent, old: ApiEvent, address: remote::AddressView)
    requires
        routed(new, old, address),
        address.host is None,
    ensures
        subject_of(new) == subject_of(old),
{
}

/// A remote session's event names the session as the interface knows it.
pub proof fn remote_events_name_their_host(new: ApiEvent, old: ApiEvent, host: Seq<char>)
    requires
        routed(
            new,
            old,
            remote::AddressView { host: Some(host), session_id: subject_of(old)->0 },
        ),
        subject_of(old) is Some,
    ensures
        subject_of(new) == Some(remote::namespaced(host, subject_of(old)->0)),
{
}

/// Whether an error event says that the daemon closed the connection.
pub open spec fn says_closed(event: ApiEvent) -> bool {
    match event {
        ApiEvent::Error { message } => text::lower_all(message@) == text::lower_all(
            "daemon connection closed"@,
        ),
        _ => false,
    }
}

pub fn is_daemon_connection_closed(event: &ApiEvent) -> (r: bool)
    ensures
        r == says_closed(*event),
{
    match event {
        ApiEvent::Error { message } => same_ignoring_case(
            message.as_str(),
            "daemon connection closed",
        ),
        _ => false,
    }
}

/// Whether a message says that the connection is attached to another session.
pub open spec fn says_wrong_session(message: Seq<char>) -> bool {
    text::holds(message, "this connection is attached to `"@) && text::holds(
        message,
        "; attach to it first or use another connection"@,
    )
}

pub fn is_wrong_session_attachment_error(message: &str) -> (r: bool)
    ensures
        r == says_wrong_session(message@),
{
    contains(message, "this connection is attached to `") && contains(
        message,
        "; attach to it first or use another connection",
    )
}

/// Whether a message says that the session is in the middle of a turn.
pub open spec fn says_busy(message: Seq<char>) -> bool {
    text::holds(text::lower_all(message), "already processing a message"@)
}

pub fn is_already_processing_error(message: &str) -> (r: bool)
    ensures
        r == says_busy(message@),
{
    contains(lowered(message).as_str(), "already processing a message")
}

/// The message of an error event.
pub open spec fn error_message(event: ApiEvent) -> Option<Seq<char>> {
    match event {
        ApiEvent::Error { message } => Some(message@),
        _ => None,
    }
}

/// Whether an error event says that the connection is attached to another session.
pub open spec fn reports_wrong_session(event: ApiEvent) -> bool {
    error_message(event) is Some && says_wrong_session(error_message(event)->0)
}

/// Whether an error event says that the session is in the middle of a turn.
pub open spec fn reports_busy(event: ApiEvent) -> bool {
    error_message(event) is Some && says_busy(error_message(event)->0)
}

/// The submissions that wait for acceptance and the commands that wait to be taken, once
/// the oldest submission waits again, in front.
pub open spec fn replayed(unaccepted: Seq<SessionCommand>, pending: Seq<SessionCommand>) -> (
    Seq<SessionCommand>,
    Seq<SessionCommand>,
) {
    (unaccepted.drop_first(), seq![unaccepted[0]] + pending)
}

/// A replay loses no command and doubles none.
pub proof fn replay_loses_nothing(unaccepted: Seq<SessionCommand>, pending: Seq<SessionCommand>)
    requires
        unaccepted.len() > 0,
    ensures
        ({
            let (left, waiting) = replayed(unaccepted, pending);
            left.to_multiset().add(waiting.to_multiset()) == unaccepted.to_multiset().add(
                pending.to_multiset(),
            )
        }),
{
    broadcast use vstd::seq_lib::group_to_multiset_ensures;

    let first = unaccepted[0];
    let left = unaccepted.drop_first();
    let one = seq![first];
    assert(one =~= Seq::empty().push(first));
    assert(unaccepted =~= one + left);
    vstd::seq_lib::lemma_multiset_commutative(one, left);
    vstd::seq_lib::lemma_multiset_commutative(one, pending);
    assert(left.to_multiset().add((one + pending).to_multiset()) =~= unaccepted.to_multiset().add(
        pending.to_multiset(),
    ));
}

/// Moves the oldest unaccepted submission back in front of the waiting commands.
fn replay(
    unaccepted: &mut VecDeque<SessionCommand>,
    pending: &mut VecDeque<SessionCommand>,
) -> (r: bool)
    ensures
        r == (old(unaccepted)@.len() > 0),
        r ==> (final(unaccepted)@, final(pending)@) == replayed(old(unaccepted)@, old(pending)@),
        !r ==> final(unaccepted)@ == old(unaccepted)@ && final(pending)@ == old(pending)@,
{
    match unaccepted.pop_front() {
        Some(submission) => {
            pending.push_front(submission);
            assert(pending@ =~= seq![old(unaccepted)@[0]] + old(pending)@);
            true
        },
        None => false,
    }
}

/// On an error that names another session, the oldest unaccepted submission waits
/// again, in front.
pub fn recover_async_attachment_mismatch(
    event: &ApiEvent,
    unaccepted: &mut VecDeque<SessionCommand>,
    pending: &mut VecDeque<SessionCommand>,
) -> (r: bool)
    ensures
        r == (reports_wrong_session(*event) && old(unaccepted)@.len() > 0),
        r ==> (final(unaccepted)@, final(pending)@) == replayed(old(unaccepted)@, old(pending)@),
        !r ==> final(unaccepted)@ == old(unaccepted)@ && final(pending)@ == old(pending)@,
{
    match event {
        ApiEvent::Error { message } => if is_wrong_session_attachment_error(message.as_str()) {
            replay(unaccepted, pending)
        } else {
            false
        },
        _ => false,
    }
}

/// On an error that the session is busy, the oldest unaccepted submission waits again,
/// in front.
pub fn recover_async_busy(
    event: &ApiEvent,
    unaccepted: &mut VecDeque<SessionCommand>,
    pending: &mut VecDeque<SessionCommand>,
) -> (r: bool)
    ensures
        r == (reports_busy(*event) && old(unaccepted)@.len() > 0),
        r ==> (final(unaccepted)@, final(pending)@) == replayed(old(unaccepted)@, old(pending)@),
        !r ==> final(unaccepted)@ == old(unaccepted)@ && final(pending)@ == old(pending)@,
{
    match event {
        ApiEvent::Error { message } => if is_already_processing_error(message.as_str()) {
            replay(unaccepted, pending)
        } else {
            false
        },
        _ => false,
    }
}

/// Whether a submission that failed is sent again on a new connection; it then waits
/// in front of the other commands, unchanged.
pub fn queue_wrong_session_retry(
    error: &str,
    pending: &mut VecDeque<SessionCommand>,
    content: String,
    images: Vec<(String, String)>,
) -> (r: bool)
    ensures
        r == says_wrong_session(error@),
        r ==> final(pending)@ == seq![SessionCommand::Send { content, images }] + old(pending)@,
        !r ==> final(pending)@ == old(pending)@,
{
    if !is_wrong_session_attachment_error(error) {
        return false;
    }
    pending.push_front(SessionCommand::Send { content, images });
    assert(pending@ =~= seq![SessionCommand::Send { content, images }] + old(pending)@);
    true
}

pub open spec fn is_settled_status(status: Seq<char>) -> bool {
    status == "idle"@ || status == "cancelled"@ || status == "canceled"@ || status
        == "interrupted"@ || status == "crashed"@ || status == "error"@ || status == "failed"@
}

pub open spec fn is_working_status(status: Seq<char>) -> bool {
    status == "generating"@ || status == "running"@ || status == "processing"@ || status == "busy"@
        || status == "thinking"@ || status == "streaming"@ || status == "running_tools"@
}

/// Whether a turn runs once an event was seen, where it did or did not before.
pub open spec fn active_after(event: ApiEvent, active: bool) -> bool {
    match event {
        ApiEvent::Session { session_id, event } => match event {
            SessionEvent::MessageAccepted
            | SessionEvent::TextDelta { .. }
            | SessionEvent::ReasoningDelta { .. }
            | SessionEvent::ToolStart { .. } => true,
            SessionEvent::TurnDone | SessionEvent::TurnStopped { .. } => false,
            SessionEvent::SessionStatus { status } => if is_settled_status(status@) {
                false
            } else if is_working_status(status@) {
                true
            } else {
                active
            },
            _ => active,
        },
        ApiEvent::Error { .. } => false,
        _ => active,
    }
}

/// Follows whether a turn runs.
pub fn update_turn_activity(event: &ApiEvent, turn_active: &mut bool)
    ensures
        *final(turn_active) == active_after(*event, *old(turn_active)),
{
    match event {
        ApiEvent::Session { event, .. } => match event {
            SessionEvent::MessageAccepted
            | SessionEvent::TextDelta { .. }
            | SessionEvent::ReasoningDelta { .. }
            | SessionEvent::ToolStart { .. } => {
                *turn_active = true;
            },
            SessionEvent::TurnDone | SessionEvent::TurnStopped { .. } => {
                *turn_active = false;
            },
            SessionEvent::SessionStatus { status } => {
                let s = status.as_str();
                if same(s, "idle") || same(s, "cancelled") || same(s, "canceled") || same(
                    s,
                    "interrupted",
                ) || same(s, "crashed") || same(s, "error") || same(s, "failed") {
                    *turn_active = false;
                } else if same(s, "generating") || same(s, "running") || same(s, "processing")
                    || same(s, "busy") || same(s, "thinking") || same(s, "streaming") || same(
                    s,
                    "running_tools",
                ) {
                    *turn_active = true;
                }
            },
            _ => {},
        },
        ApiEvent::Error { .. } => {
            *turn_active = false;
        },
        _ => {},
    }
}

/// An attach notification is about the transport: it neither starts nor ends a turn.
pub proof fn attaching_is_no_activity(event: ApiEvent, active: bool)
    requires
        event matches ApiEvent::Session { session_id, event: e } && e
            matches SessionEvent::SessionStatus { status } && status@ == "attached"@,
    ensures
        active_after(event, active) == active,
{
    reveal_strlit("attached");
    reveal_strlit("idle");
    reveal_strlit("cancelled");
    reveal_strlit("canceled");
    reveal_strlit("interrupted");
    reveal_strlit("crashed");
    reveal_strlit("error");
    reveal_strlit("failed");
    reveal_strlit("generating");
    reveal_strlit("running");
    reveal_strlit("processing");
    reveal_strlit("busy");
    reveal_strlit("thinking");
    reveal_strlit("streaming");
    reveal_strlit("running_tools");
    assert("attached"@[0] == 'a');
}


/// What a worker does next.
#[derive(Debug, PartialEq, Eq)]
pub enum WorkerCommand {
    Command(SessionCommand),
    Idle,
    Disconnected,
}

/// Takes the next command: one that waits, else one that just came in. `open` says
/// whether anything can still come in.
pub fn next_worker_command(
    commands: &mut VecDeque<SessionCommand>,
    open: bool,
    pending: &mut VecDeque<SessionCommand>,
) -> (r: WorkerCommand)
    ensures
        old(pending)@.len() > 0 ==> r == WorkerCommand::Command(old(pending)@[0]) && final(pending)@ == old(pending)@.drop_first() && final(commands)@ == old(commands)@,
        old(pending)@.len() == 0 ==> final(pending)@ == old(pending)@,
        old(pending)@.len() == 0 && old(commands)@.len() > 0 ==> r == WorkerCommand::Command(
            old(commands)@[0],
        ) && final(commands)@ == old(commands)@.drop_first(),
        old(pending)@.len() == 0 && old(commands)@.len() == 0 ==> final(commands)@ == old(commands)@
            && r == (if open {
            WorkerCommand::Idle
        } else {
            WorkerCommand::Disconnected
        }),
{
    if let Some(command) = pending.pop_front() {
        return WorkerCommand::Command(command);
    }
    match commands.pop_front() {
        Some(command) => WorkerCommand::Command(command),
        None => if open {
            WorkerCommand::Idle
        } else {
            WorkerCommand::Disconnected
        },
    }
}

/// The position of the first command to stop, or the number of commands.
pub open spec fn stop_position(commands: Seq<SessionCommand>) -> int
    decreases commands.len(),
{
    if commands.len() == 0 || commands[0] is Stop {
        0
    } else {
        1 + stop_position(commands.drop_first())
    }
}

/// Keeps the commands that came in while the runtime was away. Returns whether one of
/// them was to stop; those behind it are left alone.
pub fn collect_disconnected_commands(
    commands: &mut VecDeque<SessionCommand>,
    pending: &mut VecDeque<SessionCommand>,
) -> (r: bool)
    ensures
        r == (stop_position(old(commands)@) < old(commands)@.len()),
        final(pending)@ == old(pending)@ + old(commands)@.take(stop_position(old(commands)@)),
        final(commands)@ == (if r {
            old(commands)@.skip(stop_position(old(commands)@) + 1)
        } else {
            Seq::empty()
        }),
{
    let ghost all = commands@;
    let ghost kept = pending@;
    let ghost mut seen: int = 0;
    assert(all.skip(0) == all);
    assert(kept + all.take(0) == kept);
    while commands.len() > 0
        invariant
            0 <= seen <= all.len(),
            commands@ == all.skip(seen),
            pending@ == kept + all.take(seen),
            stop_position(all) == seen + stop_position(all.skip(seen)),
            all == old(commands)@,
            kept == old(pending)@,
        decreases commands@.len(),
    {
        let ghost rest = commands@;
        assert(rest.drop_first() == all.skip(seen + 1));
        assert(rest[0] == all[seen]);
        match commands.pop_front() {
            Some(SessionCommand::Stop) => {
                assert(stop_position(rest) == 0);
                return true;
            },
            Some(command) => {
                pending.push_back(command);
                assert(pending@ =~= kept + all.take(seen + 1));
                proof {
                    seen = seen + 1;
                }
            },
            None => {
                return false;
            },
        }
    }
    assert(all.take(seen) == all);
    assert(commands@ =~= Seq::empty());
    false
}

/// What a worker asks of the runtime for a command.
#[derive(Debug, PartialEq, Eq)]
pub enum Request {
    RuntimeInfo,
    /// Into the turn that runs.
    Steer { content: String, images: Vec<(String, String)> },
    /// As a turn of its own.
    Send { content: String, images: Vec<(String, String)> },
    Cancel,
    Fork,
    SetModel(String),
    SwitchAccount { provider: String, label: String },
    Operation(SessionOperation),
    Stop,
}

/// How a submission went.
#[derive(Debug, PartialEq, Eq)]
pub enum SendOutcome {
    Submitted(Update),
    /// The connection served another session: reconnect, the submission waits.
    Reconnect(Update),
    Failed(Update),
}

/// What a worker makes of an event.
#[derive(Debug, PartialEq, Eq)]
pub enum Received {
    Reconnect(Update),
    Closed(Update),
    Ignored,
    /// The runtime asks to continue interrupted work; `busy` says whether a turn runs
    /// or a submission waits for its acceptance.
    Continuation { message: String, busy: bool },
    /// The event concerns this session.
    Mine(ApiEvent),
}

/// What a worker does when no event came.
#[derive(Debug, PartialEq, Eq)]
pub enum IdleStep {
    Closed(Update),
    /// The stream answered at once: pause, and tell so the first time.
    BackOff { report: bool },
    Wait,
}

/// Which request failed.
#[derive(Debug, PartialEq, Eq)]
pub enum FailedRequest {
    Fork,
    Model,
    Operation,
    Continuation,
    Account,
}

pub open spec fn failure_prefix(kind: FailedRequest) -> Seq<char> {
    match kind {
        FailedRequest::Fork => "Failed to fork session: "@,
        FailedRequest::Model => "Failed to switch model: "@,
        FailedRequest::Operation => "Command failed: "@,
        FailedRequest::Continuation => "Failed to continue interrupted work: "@,
        FailedRequest::Account => ""@,
    }
}

/// One session's worker.
#[derive(Debug, PartialEq, Eq)]
pub struct Worker {
    pub session_id: String,
    pub address: SessionAddress,
    /// Commands that came in and were not looked at.
    pub incoming: VecDeque<SessionCommand>,
    /// Commands that wait to be taken again.
    pub pending: VecDeque<SessionCommand>,
    /// Submissions sent on this connection and not yet accepted.
    pub unaccepted: VecDeque<SessionCommand>,
    pub turn_active: bool,
    pub reported_disconnected_events: bool,
}

impl Worker {
    /// At most one submission waits for its acceptance.
    pub open spec fn wf(self) -> bool {
        self.unaccepted@.len() <= 1
    }

    /// Whether a submission joins a turn, as one runs or is about to.
    pub open spec fn steering(self) -> bool {
        self.turn_active || self.unaccepted@.len() > 0
    }

    /// Whether nothing but the course of turns and submissions differs.
    pub open spec fn same_session(self, other: Worker) -> bool {
        self.session_id == other.session_id && self.address == other.address && self.incoming@
            == other.incoming@
    }

    pub open spec fn is_lost(self, update: Update, why: Seq<char>) -> bool {
        update matches Update::SessionLost { session_id, reason } && session_id@ == self.session_id@
            && reason@ == why
    }

    pub open spec fn is_failure(self, update: Update, why: Seq<char>) -> bool {
        update matches Update::CommandFailed { session_id, reason } && session_id@
            == self.session_id@ && reason@ == why
    }

    /// A worker for an id, or what to tell where the id names nothing.
    pub fn start(session_id: String) -> (r: Result<Worker, (Update, Update)>)
        ensures
            match r {
                Ok(worker) => {
                    &&& remote::address_of(session_id@) == Some(worker.address@)
                    &&& worker.session_id == session_id
                    &&& worker.incoming@.len() == 0
                    &&& worker.pending@.len() == 0
                    &&& worker.unaccepted@.len() == 0
                    &&& !worker.turn_active
                    &&& !worker.reported_disconnected_events
                    &&& worker.wf()
                },
                Err((Update::Status(message), Update::SessionLost { session_id: id, reason })) => {
                    &&& remote::address_of(session_id@) is None
                    &&& message@ == "Invalid remote session id: "@ + session_id@
                    &&& reason@ == message@
                    &&& id@ == session_id@
                },
                _ => false,
            },
    {
        match SessionAddress::parse(session_id.as_str()) {
            Ok(address) => Ok(
                Worker {
                    session_id,
                    address,
                    incoming: VecDeque::new(),
                    pending: VecDeque::new(),
                    unaccepted: VecDeque::new(),
                    turn_active: false,
                    reported_disconnected_events: false,
                },
            ),
            Err(error) => Err(
                (Update::Status(error.clone()), Update::SessionLost { session_id, reason: error }),
            ),
        }
    }

    /// How long to wait before the next connection: a remote host gets more time.
    pub fn reconnect_delay_ms(&self) -> (r: u64)
        ensures
            r == delay_of(*self),
    {
        if self.address.host.is_some() {
            2000
        } else {
            300
        }
    }

    fn lost(&self, reason: &str) -> (r: Update)
        ensures
            self.is_lost(r, reason@),
    {
        Update::SessionLost { session_id: self.session_id.clone(), reason: reason.to_owned() }
    }

    /// What to tell when connecting or attaching failed.
    pub fn connection_failed(&self, error: &str) -> (r: Update)
        ensures
            self.is_lost(r, error@ + "; reconnecting"@),
    {
        self.lost(concat(error, "; reconnecting").as_str())
    }

    /// A new connection was attached: nothing of the last one's turn or submissions
    /// counts, the waiting commands stay.
    pub fn attached(&mut self) -> (r: Update)
        ensures
            final(self).same_session(*old(self)),
            final(self).pending@ == old(self).pending@,
            final(self).unaccepted@.len() == 0,
            !final(self).turn_active,
            final(self).reported_disconnected_events == old(self).reported_disconnected_events,
            final(self).wf(),
            r matches Update::SessionConnected { session_id } && session_id@ == old(self).session_id@,
    {
        self.turn_active = false;
        self.unaccepted = VecDeque::new();
        Update::SessionConnected { session_id: self.session_id.clone() }
    }

    /// What a command asks of the runtime: a submission joins the turn that runs.
    pub fn request(&self, command: SessionCommand) -> (r: Request)
        ensures
            r == request_of(*self, command),
    {
        match command {
            SessionCommand::RefreshRuntime => Request::RuntimeInfo,
            SessionCommand::Send { content, images } => if self.is_steering() {
                Request::Steer { content, images }
            } else {
                Request::Send { content, images }
            },
            SessionCommand::Cancel => Request::Cancel,
            SessionCommand::Fork => Request::Fork,
            SessionCommand::SetModel(model) => Request::SetModel(model),
            SessionCommand::SwitchAccount { provider, label } => Request::SwitchAccount {
                provider,
                label,
            },
            SessionCommand::Operation(operation) => Request::Operation(operation),
            SessionCommand::Stop => Request::Stop,
        }
    }

    pub fn is_steering(&self) -> (r: bool)
        ensures
            r == self.steering(),
    {
        self.turn_active || self.unaccepted.len() > 0
    }

    /// Takes in how a submission went. One that went out as a turn of its own waits for
    /// its acceptance; one that went to the wrong session waits to be sent again.
    pub fn sent(
        &mut self,
        content: String,
        images: Vec<(String, String)>,
        result: Result<(), String>,
    ) -> (r: SendOutcome)
        ensures
            final(self).same_session(*old(self)),
            final(self).reported_disconnected_events == old(self).reported_disconnected_events,
            old(self).wf() ==> final(self).wf(),
            match result {
                Ok(_) => {
                    &&& r matches SendOutcome::Submitted(
                        Update::MessageSubmitted { session_id },
                    ) && session_id@ == old(self).session_id@
                    &&& final(self).turn_active
                    &&& final(self).pending@ == old(self).pending@
                    &&& final(self).unaccepted@ == (if old(self).steering() {
                        old(self).unaccepted@
                    } else {
                        old(self).unaccepted@.push(SessionCommand::Send { content, images })
                    })
                },
                Err(error) => {
                    &&& final(self).turn_active == old(self).turn_active
                    &&& final(self).unaccepted@ == old(self).unaccepted@
                    &&& if says_wrong_session(error@) {
                        &&& final(self).pending@ == seq![SessionCommand::Send { content, images }]
                            + old(self).pending@
                        &&& r matches SendOutcome::Reconnect(update) && old(self).is_lost(
                            update,
                            "session connection changed; reconnecting"@,
                        )
                    } else {
                        &&& final(self).pending@ == old(self).pending@
                        &&& r matches SendOutcome::Failed(
                            Update::SendFailed { session_id, reason },
                        ) && session_id@ == old(self).session_id@ && reason == error
                    }
                },
            },
    {
        let steering = self.is_steering();
        match result {
            Ok(_) => {
                if !steering {
                    self.unaccepted.push_back(SessionCommand::Send { content, images });
                }
                self.turn_active = true;
                SendOutcome::Submitted(
                    Update::MessageSubmitted { session_id: self.session_id.clone() },
                )
            },
            Err(error) => {
                if queue_wrong_session_retry(error.as_str(), &mut self.pending, content, images) {
                    SendOutcome::Reconnect(self.lost("session connection changed; reconnecting"))
                } else {
                    SendOutcome::Failed(
                        Update::SendFailed { session_id: self.session_id.clone(), reason: error },
                    )
                }
            },
        }
    }

    /// What to tell of a request that failed.
    pub fn failed(&self, kind: FailedRequest, error: &str) -> (r: Update)
        ensures
            self.is_failure(r, failure_prefix(kind) + error@),
    {
        let prefix = match kind {
            FailedRequest::Fork => "Failed to fork session: ",
            FailedRequest::Model => "Failed to switch model: ",
            FailedRequest::Operation => "Command failed: ",
            FailedRequest::Continuation => "Failed to continue interrupted work: ",
            FailedRequest::Account => "",
        };
        Update::CommandFailed { session_id: self.session_id.clone(), reason: concat(prefix, error) }
    }

    /// What to make of an event: an error about the connection ends it, events of other
    /// sessions are passed over, and a directive to continue is answered.
    pub fn receive(&mut self, event: ApiEvent) -> (r: Received)
        ensures
            final(self).same_session(*old(self)),
            !final(self).reported_disconnected_events,
            final(self).turn_active == old(self).turn_active,
            old(self).wf() ==> final(self).wf(),
            if reports_wrong_session(event) && old(self).unaccepted@.len() > 0 {
                &&& (final(self).unaccepted@, final(self).pending@) == replayed(
                    old(self).unaccepted@,
                    old(self).pending@,
                )
                &&& r matches Received::Reconnect(update) && old(self).is_lost(
                    update,
                    "session connection changed; reconnecting"@,
                )
            } else {
                &&& final(self).unaccepted@ == old(self).unaccepted@
                &&& final(self).pending@ == old(self).pending@
                &&& if says_closed(event) {
                    r matches Received::Closed(update) && old(self).is_lost(
                        update,
                        "runtime connection closed; reconnecting"@,
                    )
                } else if subject_of(event) is Some && subject_of(event)
                    != Some(old(self).address.session_id@) {
                    r is Ignored
                } else {
                    match event {
                        ApiEvent::Session {
                            session_id,
                            event: SessionEvent::SessionRecovery { continuation_message },
                        } => r == (Received::Continuation {
                            message: continuation_message,
                            busy: old(self).steering(),
                        }),
                        _ => r == Received::Mine(event),
                    }
                }
            },
    {
        self.reported_disconnected_events = false;
        if recover_async_attachment_mismatch(&event, &mut self.unaccepted, &mut self.pending) {
            return Received::Reconnect(self.lost("session connection changed; reconnecting"));
        }
        if is_daemon_connection_closed(&event) {
            return Received::Closed(self.lost("runtime connection closed; reconnecting"));
        }
        if let Some(id) = event_session_id(&event) {
            if !same(id, self.address.session_id.as_str()) {
                return Received::Ignored;
            }
        }
        match event {
            ApiEvent::Session {
                session_id,
                event: SessionEvent::SessionRecovery { continuation_message },
            } => Received::Continuation {
                message: continuation_message,
                busy: self.is_steering(),
            },
            other => Received::Mine(other),
        }
    }

    /// Takes in how the continuation of interrupted work went.
    pub fn continued(&mut self, result: Result<(), String>) -> (r: Update)
        ensures
            final(self).same_session(*old(self)),
            final(self).pending@ == old(self).pending@,
            final(self).unaccepted@ == old(self).unaccepted@,
            final(self).reported_disconnected_events == old(self).reported_disconnected_events,
            match result {
                Ok(_) => {
                    &&& final(self).turn_active
                    &&& r matches Update::Event {
                        session_id,
                        event: ApiEvent::Session {
                            session_id: about,
                            event: SessionEvent::SessionStatus { status },
                        },
                    } && session_id@ == old(self).session_id@ && about@ == old(self).session_id@
                        && status@ == "running"@
                },
                Err(error) => {
                    &&& final(self).turn_active == old(self).turn_active
                    &&& old(self).is_failure(
                        r,
                        "Failed to continue interrupted work: "@ + error@,
                    )
                },
            },
    {
        match result {
            Ok(_) => {
                self.turn_active = true;
                Update::Event {
                    session_id: self.session_id.clone(),
                    event: ApiEvent::Session {
                        session_id: self.session_id.clone(),
                        event: SessionEvent::SessionStatus { status: "running".to_owned() },
                    },
                }
            },
            Err(error) => self.failed(FailedRequest::Continuation, error.as_str()),
        }
    }

    /// Takes in an event of this session. `elsewhere` says that another client already
    /// continued the session. Returns what to pass on.
    pub fn observe(&mut self, event: ApiEvent, elsewhere: bool) -> (r: Option<Update>)
        ensures
            final(self).same_session(*old(self)),
            final(self).reported_disconnected_events == old(self).reported_disconnected_events,
            old(self).wf() ==> final(self).wf(),
            if elsewhere {
                &&& r is None
                &&& final(self).turn_active
                &&& final(self).pending@ == old(self).pending@
                &&& final(self).unaccepted@ == old(self).unaccepted@
            } else if reports_busy(event) && old(self).unaccepted@.len() > 0 {
                &&& r is None
                &&& final(self).turn_active
                &&& (final(self).unaccepted@, final(self).pending@) == replayed(
                    old(self).unaccepted@,
                    old(self).pending@,
                )
            } else {
                &&& final(self).turn_active == active_after(event, old(self).turn_active)
                &&& final(self).pending@ == old(self).pending@
                &&& final(self).unaccepted@ == match event {
                    ApiEvent::Session { session_id, event: SessionEvent::MessageAccepted } => if old(self).unaccepted@.len() > 0 {
                        old(self).unaccepted@.drop_first()
                    } else {
                        old(self).unaccepted@
                    },
                    ApiEvent::Error { .. } => Seq::empty(),
                    _ => old(self).unaccepted@,
                }
                &&& r matches Some(Update::Event { session_id, event: passed }) && session_id@
                    == old(self).session_id@ && routed(passed, event, old(self).address@)
            },
    {
        if elsewhere {
            self.turn_active = true;
            return None;
        }
        if recover_async_busy(&event, &mut self.unaccepted, &mut self.pending) {
            self.turn_active = true;
            return None;
        }
        match &event {
            ApiEvent::Session { event: SessionEvent::MessageAccepted, .. } => {
                let _ = self.unaccepted.pop_front();
            },
            ApiEvent::Error { .. } => {
                self.unaccepted = VecDeque::new();
            },
            _ => {},
        }
        update_turn_activity(&event, &mut self.turn_active);
        Some(
            Update::Event {
                session_id: self.session_id.clone(),
                event: namespace_event(event, &self.address),
            },
        )
    }

    /// What to do when no event came within the time given, after `waited_ms`.
    pub fn no_event(&mut self, closed: bool, waited_ms: u64) -> (r: IdleStep)
        ensures
            final(self).same_session(*old(self)),
            final(self).pending@ == old(self).pending@,
            final(self).unaccepted@ == old(self).unaccepted@,
            final(self).turn_active == old(self).turn_active,
            if closed {
                &&& r matches IdleStep::Closed(update) && old(self).is_lost(
                    update,
                    "runtime connection closed; reconnecting"@,
                )
                &&& final(self).reported_disconnected_events == old(self).reported_disconnected_events
            } else if waited_ms < 10 {
                &&& r == (IdleStep::BackOff { report: !old(self).reported_disconnected_events })
                &&& final(self).reported_disconnected_events
            } else {
                &&& r is Wait
                &&& final(self).reported_disconnected_events == old(self).reported_disconnected_events
            },
    {
        if closed {
            IdleStep::Closed(self.lost("runtime connection closed; reconnecting"))
        } else if waited_ms < 10 {
            let report = !self.reported_disconnected_events;
            self.reported_disconnected_events = true;
            IdleStep::BackOff { report }
        } else {
            IdleStep::Wait
        }
    }
}

/// What happened to a worker. Commands are those that came in since the last time.
#[derive(Debug, PartialEq, Eq)]
pub enum WorkerEvent {
    /// The worker is without a connection and may look for one.
    Ready { commands: VecDeque<SessionCommand> },
    /// Connecting or attaching failed.
    ConnectionFailed { error: String, commands: VecDeque<SessionCommand> },
    /// A connection is attached to the session.
    Attached,
    /// The connection serves, and commands were looked for; `open` says whether any can
    /// still come in.
    Looked { commands: VecDeque<SessionCommand>, open: bool },
    /// A submission went out, or did not.
    Sent { content: String, images: Vec<(String, String)>, result: Result<(), String> },
    /// An event came in.
    Came(ApiEvent),
    /// The continuation of interrupted work was asked for.
    Continued(Result<(), String>),
    /// An event of this session was held against the recovery of interrupted work;
    /// `elsewhere` says that another client already continued the session.
    Weighed { event: ApiEvent, elsewhere: bool },
    /// No event came within the time given.
    Quiet { closed: bool, waited_ms: u64 },
}

/// What a worker does next. What is to be told is told first.
#[derive(Debug, PartialEq, Eq)]
pub enum WorkerStep {
    /// Leave for good.
    End { tell: Option<Update> },
    /// Connect, and attach to the session.
    Connect,
    /// Wait, drop the connection if there is one, and be ready for another.
    Retry { tell: Update, wait_ms: u64 },
    /// Hand out the history and what is known of the runtime, then look for commands.
    Serve { tell: Update },
    /// Ask this of the runtime, and look for commands again where that is all. Where it
    /// `supersedes`, no interrupted work is continued any more.
    Perform { request: Request, supersedes: bool },
    /// Wait for an event.
    Await,
    /// Continue interrupted work, unless that was done.
    Claim { message: String, busy: bool },
    /// Hold the event against the recovery of interrupted work.
    Weigh(ApiEvent),
    /// Look for commands.
    Look { tell: Option<Update> },
    /// Pause for a moment, then look for commands; `report` says to tell of it.
    Pause { report: bool },
}

/// How long a worker waits before it connects to its host again, in milliseconds.
pub open spec fn delay_of(worker: Worker) -> u64 {
    if worker.address.host is Some {
        2000
    } else {
        300
    }
}

/// How long a worker waits once its connection has ended: only a remote host is given time.
pub open spec fn pause_of(worker: Worker) -> u64 {
    if worker.address.host is Some {
        2000
    } else {
        0
    }
}

/// Whether a command makes the continuation of interrupted work moot.
pub open spec fn makes_moot(command: SessionCommand) -> bool {
    match command {
        SessionCommand::Send { .. } | SessionCommand::Cancel => true,
        SessionCommand::Operation(operation) => match operation {
            SessionOperation::Clear
            | SessionOperation::Rewind(_)
            | SessionOperation::RewindUndo => true,
            _ => false,
        },
        _ => false,
    }
}

/// Whether the state of turns and submissions is the same.
pub open spec fn same_course(a: Worker, b: Worker) -> bool {
    &&& a.session_id == b.session_id
    &&& a.address == b.address
    &&& a.unaccepted@ == b.unaccepted@
    &&& a.turn_active == b.turn_active
    &&& a.reported_disconnected_events == b.reported_disconnected_events
}

/// Whether a worker without a connection took in what came in: what stands before a stop
/// waits, and what stands behind one is left alone.
pub open spec fn collected(before: Worker, after: Worker, commands: Seq<SessionCommand>) -> bool {
    let all = before.incoming@ + commands;
    let at = stop_position(all);
    &&& same_course(before, after)
    &&& after.pending@ == before.pending@ + all.take(at)
    &&& after.incoming@ == (if at < all.len() {
        all.skip(at + 1)
    } else {
        Seq::empty()
    })
}

/// Whether what came in holds a stop.
pub open spec fn is_told_to_stop(worker: Worker, commands: Seq<SessionCommand>) -> bool {
    let all = worker.incoming@ + commands;
    stop_position(all) < all.len()
}

/// Whether a serving worker took the first command that waits, else the first that came in.
pub open spec fn took(
    before: Worker,
    after: Worker,
    commands: Seq<SessionCommand>,
    taken: Option<SessionCommand>,
) -> bool {
    let all = before.incoming@ + commands;
    &&& same_course(before, after)
    &&& if before.pending@.len() > 0 {
        &&& taken == Some(before.pending@[0])
        &&& after.pending@ == before.pending@.drop_first()
        &&& after.incoming@ == all
    } else {
        &&& after.pending@ == before.pending@
        &&& if all.len() > 0 {
            taken == Some(all[0]) && after.incoming@ == all.drop_first()
        } else {
            taken is None && after.incoming@ == all
        }
    }
}

/// The command that a serving worker takes next.
pub open spec fn next_command(worker: Worker, commands: Seq<SessionCommand>) -> Option<SessionCommand> {
    let all = worker.incoming@ + commands;
    if worker.pending@.len() > 0 {
        Some(worker.pending@[0])
    } else if all.len() > 0 {
        Some(all[0])
    } else {
        None
    }
}

/// What a command asks of the runtime.
pub open spec fn request_of(worker: Worker, command: SessionCommand) -> Request {
    match command {
        SessionCommand::RefreshRuntime => Request::RuntimeInfo,
        SessionCommand::Send { content, images } => if worker.steering() {
            Request::Steer { content, images }
        } else {
            Request::Send { content, images }
        },
        SessionCommand::Cancel => Request::Cancel,
        SessionCommand::Fork => Request::Fork,
        SessionCommand::SetModel(model) => Request::SetModel(model),
        SessionCommand::SwitchAccount { provider, label } => Request::SwitchAccount {
            provider,
            label,
        },
        SessionCommand::Operation(operation) => Request::Operation(operation),
        SessionCommand::Stop => Request::Stop,
    }
}

/// Whether a step follows from how a submission went.
pub open spec fn follows_submission(worker: Worker, result: Result<(), String>, step: WorkerStep) -> bool {
    match result {
        Ok(_) => step matches WorkerStep::Look {
            tell: Some(Update::MessageSubmitted { session_id }),
        } && session_id@ == worker.session_id@,
        Err(error) => if says_wrong_session(error@) {
            step matches WorkerStep::Retry { tell, wait_ms } && wait_ms == 0 && worker.is_lost(
                tell,
                "session connection changed; reconnecting"@,
            )
        } else {
            step matches WorkerStep::Look { tell: Some(Update::SendFailed { session_id, reason }) }
                && session_id@ == worker.session_id@ && reason == error
        },
    }
}

/// Whether the state follows from how a submission went.
pub open spec fn after_submission(
    before: Worker,
    after: Worker,
    content: String,
    images: Vec<(String, String)>,
    result: Result<(), String>,
) -> bool {
    &&& after.same_session(before)
    &&& after.reported_disconnected_events == before.reported_disconnected_events
    &&& match result {
        Ok(_) => {
            &&& after.turn_active
            &&& after.pending@ == before.pending@
            &&& after.unaccepted@ == (if before.steering() {
                before.unaccepted@
            } else {
                before.unaccepted@.push(SessionCommand::Send { content, images })
            })
        },
        Err(error) => {
            &&& after.turn_active == before.turn_active
            &&& after.unaccepted@ == before.unaccepted@
            &&& after.pending@ == (if says_wrong_session(error@) {
                seq![SessionCommand::Send { content, images }] + before.pending@
            } else {
                before.pending@
            })
        },
    }
}

/// Whether an event tells that the connection serves another session, so that what was
/// sent on it waits to be sent again.
pub open spec fn is_misdirected(worker: Worker, event: ApiEvent) -> bool {
    reports_wrong_session(event) && worker.unaccepted@.len() > 0
}

/// Whether a step follows from an event.
pub open spec fn follows_event(worker: Worker, event: ApiEvent, step: WorkerStep) -> bool {
    if is_misdirected(worker, event) {
        step matches WorkerStep::Retry { tell, wait_ms } && wait_ms == 0 && worker.is_lost(
            tell,
            "session connection changed; reconnecting"@,
        )
    } else if says_closed(event) {
        step matches WorkerStep::Retry { tell, wait_ms } && wait_ms == pause_of(worker)
            && worker.is_lost(tell, "runtime connection closed; reconnecting"@)
    } else if subject_of(event) is Some && subject_of(event) != Some(worker.address.session_id@) {
        step == (WorkerStep::Look { tell: None })
    } else {
        match event {
            ApiEvent::Session {
                session_id,
                event: SessionEvent::SessionRecovery { continuation_message },
            } => step == (WorkerStep::Claim {
                message: continuation_message,
                busy: worker.steering(),
            }),
            _ => step == WorkerStep::Weigh(event),
        }
    }
}

/// Whether the state follows from an event.
pub open spec fn after_arrival(before: Worker, after: Worker, event: ApiEvent) -> bool {
    &&& after.same_session(before)
    &&& !after.reported_disconnected_events
    &&& after.turn_active == before.turn_active
    &&& (after.unaccepted@, after.pending@) == (if is_misdirected(before, event) {
        replayed(before.unaccepted@, before.pending@)
    } else {
        (before.unaccepted@, before.pending@)
    })
}

/// Whether state and step follow from an event of this session.
pub open spec fn after_weighing(
    before: Worker,
    after: Worker,
    event: ApiEvent,
    elsewhere: bool,
    step: WorkerStep,
) -> bool {
    &&& after.same_session(before)
    &&& after.reported_disconnected_events == before.reported_disconnected_events
    &&& if elsewhere {
        &&& step == (WorkerStep::Look { tell: None })
        &&& after.turn_active
        &&& after.pending@ == before.pending@
        &&& after.unaccepted@ == before.unaccepted@
    } else if reports_busy(event) && before.unaccepted@.len() > 0 {
        &&& step == (WorkerStep::Look { tell: None })
        &&& after.turn_active
        &&& (after.unaccepted@, after.pending@) == replayed(before.unaccepted@, before.pending@)
    } else {
        &&& after.turn_active == active_after(event, before.turn_active)
        &&& after.pending@ == before.pending@
        &&& after.unaccepted@ == match event {
            ApiEvent::Session { session_id, event: SessionEvent::MessageAccepted } => if before.unaccepted@.len()
                > 0 {
                before.unaccepted@.drop_first()
            } else {
                before.unaccepted@
            },
            ApiEvent::Error { .. } => Seq::empty(),
            _ => before.unaccepted@,
        }
        &&& step matches WorkerStep::Look { tell: Some(Update::Event { session_id, event: passed }) }
            && session_id@ == before.session_id@ && routed(passed, event, before.address@)
    }
}

/// Whether state and step follow from how the continuation of interrupted work went.
pub open spec fn after_continuation(
    before: Worker,
    after: Worker,
    result: Result<(), String>,
    step: WorkerStep,
) -> bool {
    &&& after.same_session(before)
    &&& after.pending@ == before.pending@
    &&& after.unaccepted@ == before.unaccepted@
    &&& after.reported_disconnected_events == before.reported_disconnected_events
    &&& match result {
        Ok(_) => {
            &&& after.turn_active
            &&& step matches WorkerStep::Look {
                tell: Some(
                    Update::Event {
                        session_id,
                        event: ApiEvent::Session {
                            session_id: about,
                            event: SessionEvent::SessionStatus { status },
                        },
                    },
                ),
            } && session_id@ == before.session_id@ && about@ == before.session_id@ && status@
                == "running"@
        },
        Err(error) => {
            &&& after.turn_active == before.turn_active
            &&& step matches WorkerStep::Look { tell: Some(update) } && before.is_failure(
                update,
                "Failed to continue interrupted work: "@ + error@,
            )
        },
    }
}

/// Whether state and step follow from the quiet of a connection.
pub open spec fn after_quiet(
    before: Worker,
    after: Worker,
    closed: bool,
    waited_ms: u64,
    step: WorkerStep,
) -> bool {
    &&& after.same_session(before)
    &&& after.pending@ == before.pending@
    &&& after.unaccepted@ == before.unaccepted@
    &&& after.turn_active == before.turn_active
    &&& after.reported_disconnected_events == (before.reported_disconnected_events || (!closed
        && waited_ms < 10))
    &&& if closed {
        step matches WorkerStep::Retry { tell, wait_ms } && wait_ms == pause_of(before)
            && before.is_lost(tell, "runtime connection closed; reconnecting"@)
    } else if waited_ms < 10 {
        step == (WorkerStep::Pause { report: !before.reported_disconnected_events })
    } else {
        step == (WorkerStep::Look { tell: None })
    }
}

/// Whether state and step follow from what happened to a worker.
pub open spec fn moved(before: Worker, happened: WorkerEvent, after: Worker, step: WorkerStep) -> bool {
    match happened {
        WorkerEvent::Ready { commands } => {
            &&& collected(before, after, commands@)
            &&& step == (if is_told_to_stop(before, commands@) {
                WorkerStep::End { tell: None }
            } else {
                WorkerStep::Connect
            })
        },
        WorkerEvent::ConnectionFailed { error, commands } => {
            &&& collected(before, after, commands@)
            &&& if is_told_to_stop(before, commands@) {
                step matches WorkerStep::End { tell: Some(update) } && before.is_lost(
                    update,
                    error@ + "; reconnecting"@,
                )
            } else {
                step matches WorkerStep::Retry { tell, wait_ms } && wait_ms == delay_of(before)
                    && before.is_lost(tell, error@ + "; reconnecting"@)
            }
        },
        WorkerEvent::Attached => {
            &&& after.same_session(before)
            &&& after.pending@ == before.pending@
            &&& after.unaccepted@.len() == 0
            &&& !after.turn_active
            &&& after.reported_disconnected_events == before.reported_disconnected_events
            &&& step matches WorkerStep::Serve { tell: Update::SessionConnected { session_id } }
                && session_id@ == before.session_id@
        },
        WorkerEvent::Looked { commands, open } => {
            let taken = next_command(before, commands@);
            &&& took(before, after, commands@, taken)
            &&& match taken {
                Some(SessionCommand::Stop) => step == (WorkerStep::End { tell: None }),
                Some(command) => step == (WorkerStep::Perform {
                    request: request_of(before, command),
                    supersedes: makes_moot(command),
                }),
                None => step == (if open {
                    WorkerStep::Await
                } else {
                    WorkerStep::End { tell: None }
                }),
            }
        },
        WorkerEvent::Sent { content, images, result } => after_submission(
            before,
            after,
            content,
            images,
            result,
        ) && follows_submission(before, result, step),
        WorkerEvent::Came(event) => after_arrival(before, after, event) && follows_event(
            before,
            event,
            step,
        ),
        WorkerEvent::Continued(result) => after_continuation(before, after, result, step),
        WorkerEvent::Weighed { event, elsewhere } => after_weighing(
            before,
            after,
            event,
            elsewhere,
            step,
        ),
        WorkerEvent::Quiet { closed, waited_ms } => after_quiet(
            before,
            after,
            closed,
            waited_ms,
            step,
        ),
    }
}

fn append_commands(queue: &mut VecDeque<SessionCommand>, more: VecDeque<SessionCommand>)
    ensures
        final(queue)@ == old(queue)@ + more@,
{
    let ghost first = queue@;
    let ghost all = more@;
    let ghost mut seen: int = 0;
    let mut more = more;
    assert(all.skip(0) =~= all);
    assert(first + all.take(0) =~= first);
    while more.len() > 0
        invariant
            0 <= seen <= all.len(),
            more@ == all.skip(seen),
            queue@ == first + all.take(seen),
        decreases more@.len(),
    {
        let ghost rest = more@;
        assert(rest[0] == all[seen]);
        assert(rest.drop_first() =~= all.skip(seen + 1));
        if let Some(command) = more.pop_front() {
            queue.push_back(command);
            assert(queue@ =~= first + all.take(seen + 1));
            proof {
                seen = seen + 1;
            }
        }
    }
    assert(all.take(seen) =~= all);
}

impl Worker {
    fn pause_ms(&self) -> (r: u64)
        ensures
            r == pause_of(*self),
    {
        if self.address.host.is_some() {
            2000
        } else {
            0
        }
    }

    fn collect(&mut self, commands: VecDeque<SessionCommand>) -> (r: bool)
        ensures
            collected(*old(self), *final(self), commands@),
            r == is_told_to_stop(*old(self), commands@),
    {
        append_commands(&mut self.incoming, commands);
        collect_disconnected_commands(&mut self.incoming, &mut self.pending)
    }

    fn take_command(&mut self, commands: VecDeque<SessionCommand>, open: bool) -> (r: WorkerCommand)
        ensures
            took(*old(self), *final(self), commands@, next_command(*old(self), commands@)),
            match next_command(*old(self), commands@) {
                Some(command) => r == WorkerCommand::Command(command),
                None => r == (if open {
                    WorkerCommand::Idle
                } else {
                    WorkerCommand::Disconnected
                }),
            },
    {
        append_commands(&mut self.incoming, commands);
        next_worker_command(&mut self.incoming, open, &mut self.pending)
    }

    fn step_for(&self, command: SessionCommand) -> (r: WorkerStep)
        ensures
            r == (if command is Stop {
                WorkerStep::End { tell: None }
            } else {
                WorkerStep::Perform {
                    request: request_of(*self, command),
                    supersedes: makes_moot(command),
                }
            }),
    {
        match command {
            SessionCommand::Stop => WorkerStep::End { tell: None },
            command => {
                let supersedes = supersedes_recovery(&command);
                WorkerStep::Perform { request: self.request(command), supersedes }
            },
        }
    }

    /// Takes in what happened, and says what to do next.
    pub fn next(&mut self, happened: WorkerEvent) -> (r: WorkerStep)
        ensures
            moved(*old(self), happened, *final(self), r),
            old(self).wf() ==> final(self).wf(),
    {
        match happened {
            WorkerEvent::Ready { commands } => if self.collect(commands) {
                WorkerStep::End { tell: None }
            } else {
                WorkerStep::Connect
            },
            WorkerEvent::ConnectionFailed { error, commands } => {
                let tell = self.connection_failed(error.as_str());
                let wait_ms = self.reconnect_delay_ms();
                if self.collect(commands) {
                    WorkerStep::End { tell: Some(tell) }
                } else {
                    WorkerStep::Retry { tell, wait_ms }
                }
            },
            WorkerEvent::Attached => WorkerStep::Serve { tell: self.attached() },
            WorkerEvent::Looked { commands, open } => match self.take_command(commands, open) {
                WorkerCommand::Command(command) => self.step_for(command),
                WorkerCommand::Idle => WorkerStep::Await,
                WorkerCommand::Disconnected => WorkerStep::End { tell: None },
            },
            WorkerEvent::Sent { content, images, result } => match self.sent(
                content,
                images,
                result,
            ) {
                SendOutcome::Submitted(update) => WorkerStep::Look { tell: Some(update) },
                SendOutcome::Failed(update) => WorkerStep::Look { tell: Some(update) },
                SendOutcome::Reconnect(tell) => WorkerStep::Retry { tell, wait_ms: 0 },
            },
            WorkerEvent::Came(event) => match self.receive(event) {
                Received::Reconnect(tell) => WorkerStep::Retry { tell, wait_ms: 0 },
                Received::Closed(tell) => WorkerStep::Retry { tell, wait_ms: self.pause_ms() },
                Received::Ignored => WorkerStep::Look { tell: None },
                Received::Continuation { message, busy } => WorkerStep::Claim { message, busy },
                Received::Mine(event) => WorkerStep::Weigh(event),
            },
            WorkerEvent::Continued(result) => WorkerStep::Look {
                tell: Some(self.continued(result)),
            },
            WorkerEvent::Weighed { event, elsewhere } => WorkerStep::Look {
                tell: self.observe(event, elsewhere),
            },
            WorkerEvent::Quiet { closed, waited_ms } => match self.no_event(closed, waited_ms) {
                IdleStep::Closed(tell) => WorkerStep::Retry { tell, wait_ms: self.pause_ms() },
                IdleStep::BackOff { report } => WorkerStep::Pause { report },
                IdleStep::Wait => WorkerStep::Look { tell: None },
            },
        }
    }
}

proof fn lemma_stop_position(commands: Seq<SessionCommand>, k: int)
    requires
        0 <= k < commands.len(),
        commands[k] is Stop,
    ensures
        stop_position(commands) <= k,
    decreases commands.len(),
{
    if !(commands[0] is Stop) {
        lemma_stop_position(commands.drop_first(), k - 1);
    }
}

proof fn lemma_no_stop(commands: Seq<SessionCommand>)
    requires
        forall|k: int| 0 <= k < commands.len() ==> !(#[trigger] commands[k] is Stop),
    ensures
        stop_position(commands) == commands.len(),
    decreases commands.len(),
{
    if commands.len() > 0 {
        assert(!(commands[0] is Stop));
        assert forall|k: int| 0 <= k < commands.drop_first().len() implies !(
        #[trigger] commands.drop_first()[k] is Stop) by {
            assert(!(commands[k + 1] is Stop));
        }
        lemma_no_stop(commands.drop_first());
    }
}

/// What came in to a worker with what happened, where it is without a connection.
pub open spec fn came_in(happened: WorkerEvent) -> Option<Seq<SessionCommand>> {
    match happened {
        WorkerEvent::Ready { commands } => Some(commands@),
        WorkerEvent::ConnectionFailed { error, commands } => Some(commands@),
        _ => None,
    }
}

/// A worker without a connection that was told to stop ends: it connects no more, and it
/// does not wait.
pub proof fn a_queued_stop_ends_the_worker(
    before: Worker,
    happened: WorkerEvent,
    after: Worker,
    step: WorkerStep,
    k: int,
)
    requires
        moved(before, happened, after, step),
        came_in(happened) is Some,
        0 <= k < (before.incoming@ + came_in(happened)->0).len(),
        (before.incoming@ + came_in(happened)->0)[k] is Stop,
    ensures
        step is End,
{
    lemma_stop_position(before.incoming@ + came_in(happened)->0, k);
}

/// A worker without a connection that was not told to stop goes on, and everything that
/// came in waits, in its order, behind what waited before.
pub proof fn nothing_is_lost_between_connections(
    before: Worker,
    happened: WorkerEvent,
    after: Worker,
    step: WorkerStep,
)
    requires
        moved(before, happened, after, step),
        came_in(happened) is Some,
        forall|k: int|
            0 <= k < (before.incoming@ + came_in(happened)->0).len() ==> !(#[trigger] (
            before.incoming@ + came_in(happened)->0)[k] is Stop),
    ensures
        !(step is End),
        after.pending@ == before.pending@ + (before.incoming@ + came_in(happened)->0),
        after.incoming@.len() == 0,
{
    let all = before.incoming@ + came_in(happened)->0;
    lemma_no_stop(all);
    assert(all.take(all.len() as int) =~= all);
}

/// A serving worker takes the commands one by one in their order, those that wait first;
/// each is asked of the runtime, and a stop ends the worker. It waits for events only where
/// there is none left and more can come in.
pub proof fn commands_are_taken_in_order(
    before: Worker,
    happened: WorkerEvent,
    after: Worker,
    step: WorkerStep,
)
    requires
        moved(before, happened, after, step),
        happened is Looked,
    ensures
        ({
            let all = before.pending@ + before.incoming@ + happened->Looked_commands@;
            let left = after.pending@ + after.incoming@;
            if all.len() == 0 {
                left.len() == 0 && step is Await == happened->open && step is End == !happened->open
            } else {
                &&& left == all.drop_first()
                &&& if all[0] is Stop {
                    step is End
                } else {
                    step matches WorkerStep::Perform { request, supersedes } && request
                        == request_of(before, all[0]) && supersedes == makes_moot(all[0])
                }
            }
        }),
{
    let all = before.pending@ + before.incoming@ + happened->Looked_commands@;
    let came = before.incoming@ + happened->Looked_commands@;
    assert(all =~= before.pending@ + came);
    if all.len() > 0 {
        assert(after.pending@ + after.incoming@ =~= all.drop_first());
    }
}

/// A worker never hammers a host: it waits after every failed connection, and after a
/// remote connection that has ended. A connection that serves another session is replaced
/// at once.
pub proof fn workers_give_hosts_time(
    before: Worker,
    happened: WorkerEvent,
    after: Worker,
    step: WorkerStep,
)
    requires
        moved(before, happened, after, step),
        step is Retry,
    ensures
        happened is ConnectionFailed ==> step->wait_ms >= 300,
        happened is Quiet && before.address.host is Some ==> step->wait_ms == 2000,
        happened is Sent ==> step->wait_ms == 0,
        happened is Came ==> step->wait_ms == (if is_misdirected(before, happened->Came_0) {
            0
        } else {
            pause_of(before)
        }),
{
}

/// Whether a command makes a continuation of interrupted work moot: it starts something
/// new, stops what runs, or changes the history.
pub fn supersedes_recovery(command: &SessionCommand) -> (r: bool)
    ensures
        r == makes_moot(*command),
{
    match command {
        SessionCommand::Send { .. } | SessionCommand::Cancel => true,
        SessionCommand::Operation(operation) => match operation {
            SessionOperation::Clear
            | SessionOperation::Rewind(_)
            | SessionOperation::RewindUndo => true,
            _ => false,
        },
        _ => false,
    }
}

/// Whether the stored login of a provider can be switched, and what to say where not.
/// `family` is the name of Anthropic's model family, which its login goes by.
pub fn switchable(provider: &str, family: &str) -> (r: Result<(), String>)
    ensures
        match r {
            Ok(_) => provider@ == family@ || provider@ == "openai"@,
            Err(message) => provider@ != family@ && provider@ != "openai"@ && message@
                == "Switching accounts is not supported for `"@ + provider@
                + "`. Use /login to connect it."@,
        },
{
    if same(provider, family) || same(provider, "openai") {
        Ok(())
    } else {
        Err(
            concat3(
                "Switching accounts is not supported for `",
                provider,
                "`. Use /login to connect it.",
            ),
        )
    }
}

/// How switching went: the choice was stored, and then the runtime took it in.
pub fn switch_account(stored: Result<(), String>, notified: Result<(), String>) -> (r: Result<
    (),
    String,
>)
    ensures
        match (stored, notified) {
            (Err(error), _) => r matches Err(message) && message@ == "Failed to switch account: "@
                + error@,
            (Ok(_), Err(error)) => r matches Err(message) && message@
                == "Switched the stored account, but the runtime kept the previous credentials: "@
                + error@,
            (Ok(_), Ok(_)) => r is Ok,
        },
{
    match stored {
        Err(error) => Err(concat("Failed to switch account: ", error.as_str())),
        Ok(_) => match notified {
            Err(error) => Err(
                concat(
                    "Switched the stored account, but the runtime kept the previous credentials: ",
                    error.as_str(),
                ),
            ),
            Ok(_) => Ok(()),
        },
    }
}

/// The stages of creating a session on a host.
#[derive(Debug, PartialEq, Eq)]
pub enum RemoteStage {
    Connecting,
    Creating,
    Connected,
    Failed(String),
}

pub open spec fn stage_words(host: Seq<char>, stage: RemoteStage) -> Seq<char> {
    match stage {
        RemoteStage::Connecting => "Connecting to "@ + host + " over SSH..."@,
        RemoteStage::Creating => "SSH connected. Creating Jcode session..."@,
        RemoteStage::Connected => "Connected to "@ + text::trim(host),
        RemoteStage::Failed(error) => "Remote session failed: "@ + error@,
    }
}

/// What to tell of a session's creation on a host. The host is named as it was given,
/// but for the last stage, which names it without surrounding white space.
pub fn create_remote_session(host: &str, request_id: Option<String>, stage: RemoteStage) -> (r:
    Update)
    ensures
        r matches Update::RemoteStatus { host: named, message, request_id: id, failed } && named@
            == (if stage is Connected {
            text::trim(host@)
        } else {
            host@
        }) && message@ == stage_words(host@, stage) && id == request_id && failed
            == (stage is Failed),
{
    let named = match stage {
        RemoteStage::Connected => text::trimmed(host),
        _ => host.to_owned(),
    };
    match stage {
        RemoteStage::Connecting => Update::RemoteStatus {
            host: named,
            message: concat3("Connecting to ", host, " over SSH..."),
            request_id,
            failed: false,
        },
        RemoteStage::Creating => Update::RemoteStatus {
            host: named,
            message: "SSH connected. Creating Jcode session...".to_owned(),
            request_id,
            failed: false,
        },
        RemoteStage::Connected => {
            let message = concat("Connected to ", named.as_str());
            Update::RemoteStatus { host: named, message, request_id, failed: false }
        },
        RemoteStage::Failed(error) => Update::RemoteStatus {
            host: named,
            message: concat("Remote session failed: ", error.as_str()),
            request_id,
            failed: true,
        },
    }
}

/// What to tell when a session could not be created, before it is tried again where
/// `retry` says so. A request that is given up is answered.
pub fn create_failed(request_id: Option<String>, retry: bool, error: &str) -> (r: (
    Option<Update>,
    Update,
))
    ensures
        match request_id {
            Some(id) if !retry => r.0 matches Some(Update::CommandFailed { session_id, reason })
                && session_id == id && reason@ == "Could not start session: "@ + error@,
            _ => r.0 is None,
        },
        r.1 matches Update::Status(message) && message@ == "create session failed: "@ + error@,
{
    let status = Update::Status(concat("create session failed: ", error));
    match request_id {
        Some(session_id) => if retry {
            (None, status)
        } else {
            let reason = concat("Could not start session: ", error);
            (Some(Update::CommandFailed { session_id, reason }), status)
        },
        None => (None, status),
    }
}

/// What the bridge's loop does for a command.
#[derive(Debug, PartialEq, Eq)]
pub enum Action {
    /// Stop the workers and leave.
    Shutdown { stop: Vec<String> },
    RefreshSessions,
    CreateSession { working_dir: Option<String>, request_id: Option<String> },
    CreateRemoteSession {
        host: String,
        working_dir: Option<String>,
        request_id: Option<String>,
    },
    /// Tell of the session, then start a worker on its connection; `replaces` says that
    /// the session's earlier worker is to stop.
    Adopt { session: SessionInfo, request_id: Option<String>, replaces: bool },
    Start { session_id: String },
    Stop { session_id: String },
    /// Hand the command to the session's worker, which is first started where `start`
    /// says so.
    Deliver { session_id: String, command: SessionCommand, start: bool },
    Nothing,
}

/// The sessions that have a worker.
#[derive(Debug, PartialEq, Eq)]
pub struct Workers {
    pub ids: Vec<String>,
}

impl View for Workers {
    type V = Seq<Seq<char>>;

    open spec fn view(&self) -> Seq<Seq<char>> {
        text::texts(self.ids@)
    }
}

/// The ids with one more, where it was not among them.
pub open spec fn with_id(ids: Seq<Seq<char>>, id: Seq<char>) -> Seq<Seq<char>> {
    if ids.contains(id) {
        ids
    } else {
        ids.push(id)
    }
}

/// The ids without the first occurrence of one.
pub open spec fn without_id(ids: Seq<Seq<char>>, id: Seq<char>) -> Seq<Seq<char>>
    decreases ids.len(),
{
    if ids.len() == 0 {
        ids
    } else if ids[0] == id {
        ids.drop_first()
    } else {
        seq![ids[0]] + without_id(ids.drop_first(), id)
    }
}

/// Whether an action hands a command to a session's worker, which is started where it
/// was not there.
pub open spec fn delivers(
    action: Action,
    id: String,
    command: SessionCommand,
    known: Seq<Seq<char>>,
) -> bool {
    action == (Action::Deliver { session_id: id, command, start: !known.contains(id@) })
}

/// Whether an action is what a command calls for, where the sessions in `before` have a
/// worker, and those in `after` have one then.
pub open spec fn is_route(
    before: Seq<Seq<char>>,
    command: Command,
    action: Action,
    after: Seq<Seq<char>>,
) -> bool {
    match command {
        Command::Shutdown => action matches Action::Shutdown { stop } && text::texts(stop@)
            == before && after.len() == 0,
        Command::RefreshSessions => action is RefreshSessions && after == before,
        Command::CreateSession { working_dir, request_id } => action == (Action::CreateSession {
            working_dir,
            request_id,
        }) && after == before,
        Command::CreateRemoteSession { host, working_dir, request_id } => action == (
        Action::CreateRemoteSession { host, working_dir, request_id }) && after
            == before,
        Command::CreatedInternal { session, request_id } => action == (Action::Adopt {
            session,
            request_id,
            replaces: before.contains(session.session_id@),
        }) && after == with_id(before, session.session_id@),
        Command::Watch { session_id } => {
            &&& after == with_id(before, session_id@)
            &&& if before.contains(session_id@) {
                action is Nothing
            } else {
                action == (Action::Start { session_id })
            }
        },
        Command::Unwatch { session_id } => {
            &&& after == without_id(before, session_id@)
            &&& if before.contains(session_id@) {
                action == (Action::Stop { session_id })
            } else {
                action is Nothing
            }
        },
        Command::Cancel { session_id } => {
            &&& after == before
            &&& if before.contains(session_id@) {
                action == (Action::Deliver {
                    session_id,
                    command: SessionCommand::Cancel,
                    start: false,
                })
            } else {
                action is Nothing
            }
        },
        Command::Send { session_id, content, images } => delivers(
            action,
            session_id,
            SessionCommand::Send { content, images },
            before,
        ) && after == with_id(before, session_id@),
        Command::SetModel { session_id, model } => delivers(
            action,
            session_id,
            SessionCommand::SetModel(model),
            before,
        ) && after == with_id(before, session_id@),
        Command::SwitchAccount { provider, label, session_id } => delivers(
            action,
            session_id,
            SessionCommand::SwitchAccount { provider, label },
            before,
        ) && after == with_id(before, session_id@),
        Command::RefreshRuntime { session_id } => delivers(
            action,
            session_id,
            SessionCommand::RefreshRuntime,
            before,
        ) && after == with_id(before, session_id@),
        Command::SessionOperation { session_id, operation } => delivers(
            action,
            session_id,
            SessionCommand::Operation(operation),
            before,
        ) && after == with_id(before, session_id@),
        Command::Fork { session_id } => delivers(
            action,
            session_id,
            SessionCommand::Fork,
            before,
        ) && after == with_id(before, session_id@),
    }
}

impl Workers {
    pub fn new() -> (r: Workers)
        ensures
            r@.len() == 0,
    {
        Workers { ids: Vec::new() }
    }

    /// The position of a session among the workers.
    fn position(&self, id: &str) -> (r: Option<usize>)
        ensures
            match r {
                Some(i) => i < self@.len() && self@[i as int] == id@ && forall|k: int|
                    0 <= k < i ==> self@[k] != id@,
                None => !self@.contains(id@),
            },
    {
        let ghost all = self@;
        let mut i: usize = 0;
        while i < self.ids.len()
            invariant
                0 <= i <= self.ids@.len(),
                all == text::texts(self.ids@),
                forall|k: int| 0 <= k < i ==> all[k] != id@,
            decreases self.ids@.len() - i,
        {
            assert(all[i as int] == self.ids@[i as int]@);
            if same(self.ids[i].as_str(), id) {
                return Some(i);
            }
            i += 1;
        }
        None
    }

    /// Notes that a session has a worker; returns whether it had none.
    fn note(&mut self, id: &String) -> (r: bool)
        ensures
            r == !old(self)@.contains(id@),
            final(self)@ == with_id(old(self)@, id@),
    {
        if self.position(id.as_str()).is_some() {
            return false;
        }
        let ghost before = self@;
        self.ids.push(id.clone());
        assert(self@ =~= before.push(id@));
        true
    }

    /// Hands a command to a session's worker.
    pub fn deliver(&mut self, session_id: String, command: SessionCommand) -> (r: Action)
        ensures
            delivers(r, session_id, command, old(self)@),
            final(self)@ == with_id(old(self)@, session_id@),
    {
        let start = self.note(&session_id);
        Action::Deliver { session_id, command, start }
    }

    /// A worker turned out to be gone: a new one is started and gets the same command. With
    /// the worker the turn is gone that was to be cancelled, so nothing is done for that.
    pub fn undelivered(&mut self, session_id: String, command: SessionCommand) -> (r: Action)
        ensures
            if command is Cancel {
                r is Nothing && final(self)@ == old(self)@
            } else {
                r == (Action::Deliver { session_id, command, start: true }) && final(self)@
                    == with_id(old(self)@, session_id@)
            },
    {
        match command {
            SessionCommand::Cancel => Action::Nothing,
            command => {
                let _ = self.note(&session_id);
                Action::Deliver { session_id, command, start: true }
            },
        }
    }

    /// The sessions whose workers are to stop: all of them.
    pub fn stop_session_workers(&mut self) -> (r: Vec<String>)
        ensures
            text::texts(r@) == old(self)@,
            final(self)@.len() == 0,
    {
        let mut ids: Vec<String> = Vec::new();
        std::mem::swap(&mut ids, &mut self.ids);
        ids
    }

    /// What to do for a command.
    pub fn route(&mut self, command: Command) -> (r: Action)
        ensures
            is_route(old(self)@, command, r, final(self)@),
    {
        match command {
            Command::Shutdown => {
                let stop = self.stop_session_workers();
                Action::Shutdown { stop }
            },
            Command::RefreshSessions => Action::RefreshSessions,
            Command::CreateSession { working_dir, request_id } => Action::CreateSession {
                working_dir,
                request_id,
            },
            Command::CreateRemoteSession {
                host,
                working_dir,
                request_id,
            } => Action::CreateRemoteSession { host, working_dir, request_id },
            Command::CreatedInternal { session, request_id } => {
                let replaces = !self.note(&session.session_id);
                Action::Adopt { session, request_id, replaces }
            },
            Command::Watch { session_id } => if self.note(&session_id) {
                Action::Start { session_id }
            } else {
                Action::Nothing
            },
            Command::Unwatch { session_id } => {
                let ghost before = self@;
                match self.position(session_id.as_str()) {
                    Some(i) => {
                        let _ = self.ids.remove(i);
                        proof {
                            assert(self@ =~= before.remove(i as int));
                            lemma_without_id(before, session_id@, i as int);
                            assert(before.contains(before[i as int]));
                        }
                        Action::Stop { session_id }
                    },
                    None => {
                        proof {
                            lemma_without_absent(before, session_id@);
                        }
                        Action::Nothing
                    },
                }
            },
            Command::Cancel { session_id } => match self.position(session_id.as_str()) {
                Some(i) => {
                    assert(self@.contains(self@[i as int]));
                    Action::Deliver { session_id, command: SessionCommand::Cancel, start: false }
                },
                None => Action::Nothing,
            },
            Command::Send { session_id, content, images } => self.deliver(
                session_id,
                SessionCommand::Send { content, images },
            ),
            Command::SetModel { session_id, model } => self.deliver(
                session_id,
                SessionCommand::SetModel(model),
            ),
            Command::SwitchAccount { provider, label, session_id } => self.deliver(
                session_id,
                SessionCommand::SwitchAccount { provider, label },
            ),
            Command::RefreshRuntime { session_id } => self.deliver(
                session_id,
                SessionCommand::RefreshRuntime,
            ),
            Command::SessionOperation { session_id, operation } => self.deliver(
                session_id,
                SessionCommand::Operation(operation),
            ),
            Command::Fork { session_id } => self.deliver(session_id, SessionCommand::Fork),
        }
    }
}

proof fn lemma_without_id(ids: Seq<Seq<char>>, id: Seq<char>, at: int)
    requires
        0 <= at < ids.len(),
        ids[at] == id,
        forall|k: int| 0 <= k < at ==> ids[k] != id,
    ensures
        without_id(ids, id) == ids.remove(at),
    decreases ids.len(),
{
    if at > 0 {
        assert forall|k: int| 0 <= k < at - 1 implies ids.drop_first()[k] != id by {
            assert(ids.drop_first()[k] == ids[k + 1]);
        }
        lemma_without_id(ids.drop_first(), id, at - 1);
        assert(without_id(ids, id) =~= ids.remove(at));
    } else {
        assert(ids.drop_first() =~= ids.remove(0));
    }
}

proof fn lemma_without_absent(ids: Seq<Seq<char>>, id: Seq<char>)
    requires
        !ids.contains(id),
    ensures
        without_id(ids, id) == ids,
    decreases ids.len(),
{
    if ids.len() > 0 {
        assert(ids.contains(ids[0]));
        assert forall|x: Seq<char>| ids.drop_first().contains(x) implies ids.contains(x) by {
            let k = choose|k: int| 0 <= k < ids.drop_first().len() && ids.drop_first()[k] == x;
            assert(ids[k + 1] == x);
        }
        lemma_without_absent(ids.drop_first(), id);
        assert(without_id(ids, id) =~= ids);
    }
}

/// No session has two workers: noting one keeps the ids distinct.
pub proof fn one_worker_per_session(ids: Seq<Seq<char>>, id: Seq<char>)
    requires
        ids.no_duplicates(),
    ensures
        with_id(ids, id).no_duplicates(),
        with_id(ids, id).contains(id),
{
    if !ids.contains(id) {
        let all = ids.push(id);
        assert(all[ids.len() as int] == id);
        assert forall|i: int, j: int|
            0 <= i < all.len() && 0 <= j < all.len() && i != j implies all[i] != all[j] by {
            if i < ids.len() {
                assert(ids.contains(ids[i]));
            }
            if j < ids.len() {
                assert(ids.contains(ids[j]));
            }
        }
    }
}

/// A session that is no longer watched has no worker left, and no other lost its own.
pub proof fn unwatched_has_no_worker(ids: Seq<Seq<char>>, id: Seq<char>)
    requires
        ids.no_duplicates(),
    ensures
        without_id(ids, id).no_duplicates(),
        !without_id(ids, id).contains(id),
        forall|x: Seq<char>| x != id ==> (ids.contains(x) <==> without_id(ids, id).contains(x)),
    decreases ids.len(),
{
    if ids.contains(id) {
        let at = choose|k: int| 0 <= k < ids.len() && ids[k] == id;
        lemma_without_id(ids, id, at);
        let rest = ids.remove(at);
        assert forall|x: Seq<char>| x != id && ids.contains(x) implies rest.contains(x) by {
            let k = choose|k: int| 0 <= k < ids.len() && ids[k] == x;
            if k < at {
                assert(rest[k] == x);
            } else {
                assert(rest[k - 1] == x);
            }
        }
        assert forall|x: Seq<char>| rest.contains(x) implies ids.contains(x) by {
            let k = choose|k: int| 0 <= k < rest.len() && rest[k] == x;
            if k < at {
                assert(ids[k] == x);
            } else {
                assert(ids[k + 1] == x);
            }
        }
    } else {
        lemma_without_absent(ids, id);
    }
}

/// Over any course of submissions, at most one waits for its acceptance: a second one
/// joins the turn instead.
pub proof fn only_one_submission_waits(worker: Worker)
    requires
        worker.wf(),
        worker.unaccepted@.len() > 0,
    ensures
        worker.steering(),
        worker.unaccepted@.len() == 1,
{
}

} // verus!
