//! What the runtime reports of sessions, as the rest of the library reads it.
use vstd::prelude::*;

verus! {

/// One session in the runtime's list.
#[derive(Debug, PartialEq, Eq)]
pub struct SessionInfo {
    pub session_id: String,
    pub working_dir: Option<String>,
    pub title: Option<String>,
    pub status: String,
    pub transcript_bytes: Option<u64>,
    pub saved: bool,
    pub updated_at_ms: Option<i64>,
    pub last_active_at_ms: Option<i64>,
    pub archived: bool,
    pub archived_at_ms: Option<i64>,
    pub parent_session_id: Option<String>,
    pub agent_label: Option<String>,
    pub swarm_status: Option<String>,
    /// The edits of the session, as the runtime reports them.
    pub edit_stats: Option<String>,
}

/// How a model can be reached.
#[derive(Debug, PartialEq, Eq)]
pub struct ModelRoute {
    pub model: String,
    pub provider: String,
    pub api_method: String,
    pub available: bool,
}

/// How often and when a model was used; times are seconds since the epoch.
#[derive(Clone, Copy, PartialEq, Eq, Debug, Structural)]
pub struct ModelUsage {
    pub count: u64,
    pub last_used: u64,
    pub tracking_started: u64,
    pub selection_count: u64,
    pub last_selected: u64,
}

/// Where an image came from.
#[derive(Debug, PartialEq, Eq)]
pub enum ImageSource {
    UserInput,
    ToolResult { tool_name: String },
    Other { role: String },
}

/// What an image belongs to.
#[derive(Debug, PartialEq, Eq)]
pub enum ImageAnchor {
    UserPrompt { ordinal: usize },
    ToolCall { id: String },
}

/// An image that the runtime renders beside the transcript, its data in base 64.
#[derive(Debug, PartialEq, Eq)]
pub struct RenderedImage {
    pub media_type: String,
    pub data: String,
    pub label: Option<String>,
    pub source: ImageSource,
    pub anchor: Option<ImageAnchor>,
    /// The number of history messages that stand before it.
    pub history_message_index: Option<usize>,
    /// The media type is one that can be shown.
    pub displayable: bool,
}

/// The figures shown below a response. The duration is kept as the bits of a
/// double-precision number.
#[derive(Debug, PartialEq, Eq)]
pub struct ResponseStats {
    pub duration_secs_bits: Option<u64>,
    pub tool_calls: usize,
    pub summary: String,
    /// Whether there is nothing to show.
    pub empty: bool,
}

/// One message of a session's history.
#[derive(Debug, PartialEq, Eq)]
pub struct HistoryMessage {
    pub role: String,
    pub content: String,
    pub response_stats: Option<ResponseStats>,
}

/// What happened in a session.
#[derive(Debug, PartialEq, Eq)]
pub enum SessionEvent {
    MessageAccepted,
    TextDelta { text: String },
    ReasoningDelta { text: String },
    ReasoningDone,
    ToolStart { call_id: String, name: String },
    ToolInputDelta { call_id: String, delta: String },
    ToolDone { call_id: String, name: String, output: String, error: Option<String> },
    BackgroundProgress {
        task_id: String,
        label: String,
        summary: String,
        percent_bits: Option<u32>,
        done: bool,
    },
    SidePaneImages { images: Vec<RenderedImage> },
    TurnDone,
    TurnStopped { reason: String, message: String, provider_stop_reason: Option<String> },
    SessionStatus { status: String },
    ConnectionPhase { phase: String },
    ModelInfo { provider: Option<String>, model: Option<String> },
    RuntimeInfo {
        provider: Option<String>,
        model: Option<String>,
        routes: Vec<ModelRoute>,
        reasoning_effort: Option<String>,
    },
    TokenUsage { input: u64, cache_read_input: Option<u64>, cache_creation_input: Option<u64> },
    SessionRenamed { display_title: String },
    SessionRecovery { continuation_message: String },
    /// Any other event of a session, carried along by its name and its body.
    Other { name: String, body: String },
}

/// An event of the runtime's stream.
#[derive(Debug, PartialEq, Eq)]
pub enum ApiEvent {
    Session { session_id: String, event: SessionEvent },
    Attached { session: SessionInfo },
    SessionForked { session: SessionInfo },
    Sessions { sessions: Vec<SessionInfo> },
    Error { message: String },
    /// Any other event, carried along by its name and its body.
    Other { name: String, body: String },
}

/// A copy of an optional text.
pub fn copy_text(o: &Option<String>) -> (r: Option<String>)
    ensures
        r == *o,
{
    match o {
        Some(s) => Some(s.clone()),
        None => None,
    }
}

} // verus!
