//! The values that the session logic reads and hands on, each with its mathematical view.
use crate::json::Json;
use serde_json::Value;
use vstd::prelude::*;

verus! {

/// The text of an optional string.
pub open spec fn optional_view(s: Option<String>) -> Option<Seq<char>> {
    match s {
        Some(s) => Some(s@),
        None => None,
    }
}

/// The model families that a session can talk to.
#[derive(Clone, Copy, Debug, PartialEq, Eq, Structural)]
pub enum Model {
    /// Speech recognition and synthesis around a text model.
    HalfCascade,
    /// Audio in and audio out of one model.
    NativeAudio,
}

impl Model {
    pub open spec fn spec_model_id(self) -> Seq<char> {
        match self {
            Model::HalfCascade => "gemini-3.1-flash-live-preview"@,
            Model::NativeAudio => "gemini-2.5-flash-native-audio-latest"@,
        }
    }

    /// The identifier under which the service knows the model.
    pub fn model_id(self) -> (id: &'static str)
        ensures
            id@ == self.spec_model_id(),
    {
        match self {
            Model::HalfCascade => "gemini-3.1-flash-live-preview",
            Model::NativeAudio => "gemini-2.5-flash-native-audio-latest",
        }
    }

    /// Whether the model takes and gives audio natively.
    pub fn is_native(self) -> (native: bool)
        ensures
            native == (self is NativeAudio),
    {
        match self {
            Model::HalfCascade => false,
            Model::NativeAudio => true,
        }
    }
}

/// What the first message of a connection asks of the service.
#[derive(Clone, Debug)]
pub struct SetupConfig {
    pub model: Model,
    pub voice: String,
    /// Spoken language; the half-cascade model alone takes it.
    pub language: Option<String>,
    /// The complete system instruction, as the caller built it.
    pub system_instruction: String,
    /// The sampling temperature as a JSON number (null where there is none to give).
    pub temperature: Value,
    /// JSON schema of the information that the closing tool call reports.
    pub goal_schema: Value,
    /// The handle of the session to resume, if there is one.
    pub resume_handle: Option<String>,
}

/// The contents of a [`SetupConfig`].
pub struct SetupView {
    pub model: Model,
    pub voice: Seq<char>,
    pub language: Option<Seq<char>>,
    pub system_instruction: Seq<char>,
    pub temperature: Json,
    pub goal_schema: Json,
    pub resume_handle: Option<Seq<char>>,
}

impl View for SetupConfig {
    type V = SetupView;

    open spec fn view(&self) -> SetupView {
        SetupView {
            model: self.model,
            voice: self.voice@,
            language: optional_view(self.language),
            system_instruction: self.system_instruction@,
            temperature: crate::json::document(self.temperature),
            goal_schema: crate::json::document(self.goal_schema),
            resume_handle: optional_view(self.resume_handle),
        }
    }
}

impl SetupConfig {
    /// Whether the setup is for a native-audio model.
    pub fn is_native(&self) -> (native: bool)
        ensures
            native == (self@.model is NativeAudio),
    {
        self.model.is_native()
    }

    /// A copy that asks to resume the session of `handle` in place of its own.
    pub fn with_resume_handle(&self, handle: Option<String>) -> (setup: SetupConfig)
        ensures
            setup@ == (SetupView { resume_handle: optional_view(handle), ..self@ }),
    {
        SetupConfig {
            model: self.model,
            voice: self.voice.clone(),
            language: self.language.clone(),
            system_instruction: self.system_instruction.clone(),
            temperature: self.temperature.clone(),
            goal_schema: self.goal_schema.clone(),
            resume_handle: handle,
        }
    }
}

/// A proxy through which to reach the service.
#[derive(Clone, Debug)]
pub struct ProxyConfig {
    pub url: String,
}

/// Who spoke.
#[derive(Clone, Copy, Debug, PartialEq, Eq, Structural)]
pub enum Role {
    User,
    Model,
}

/// An emotion that the service heard or expressed, by its name.
#[derive(Clone, Debug)]
pub struct AffectLabel {
    pub name: String,
}

/// Why a connection was closed.
#[derive(Clone, Debug)]
pub struct CloseReason {
    /// The close code of the peer, 0 where the connection ended without one.
    pub code: u16,
    pub reason: String,
}

/// The contents of a [`CloseReason`].
pub struct CloseReasonView {
    pub code: u16,
    pub reason: Seq<char>,
}

impl View for CloseReason {
    type V = CloseReasonView;

    open spec fn view(&self) -> CloseReasonView {
        CloseReasonView { code: self.code, reason: self.reason@ }
    }
}

impl CloseReasonView {
    /// The reason of an end that came without a close frame.
    pub open spec fn synthetic(reason: Seq<char>) -> CloseReasonView {
        CloseReasonView { code: 0, reason }
    }
}

/// A synthetic close reason for ends that carry no close frame of the server.
pub fn synth_reason(reason: &str) -> (close: CloseReason)
    ensures
        close@ == CloseReasonView::synthetic(reason@),
{
    CloseReason { code: 0, reason: reason.to_owned() }
}

/// A failure of the transport below a session.
#[derive(Clone, Debug)]
pub enum TransportError {
    /// No connection came about.
    Connect(String),
    /// A message could not be sent.
    Send(String),
    /// The peer broke the protocol.
    Protocol(String),
    /// The peer closed the connection.
    Closed(CloseReason),
}

impl TransportError {
    /// The reason of the peer, where the failure is a close by the peer.
    pub open spec fn close_reason(self) -> Option<CloseReasonView> {
        match self {
            TransportError::Closed(reason) => Some(reason@),
            _ => None,
        }
    }
}

/// One thing that a frame of the server says.
#[derive(Clone, Debug)]
pub enum ServerEvent {
    SetupComplete,
    /// 24 kHz PCM16 output audio.
    OutputAudio(Vec<i16>),
    Transcript { role: Role, text: String, final_: bool },
    Affect { role: Role, label: AffectLabel },
    Interrupted,
    TurnComplete,
    ToolCall { name: String, id: String, args: Value },
    /// A fresh handle under which the session can be resumed.
    ResumptionHandle(String),
    /// The server is about to close the connection.
    GoAway,
}

/// The contents of a [`ServerEvent`].
pub enum ServerEventView {
    SetupComplete,
    OutputAudio(Seq<i16>),
    Transcript { role: Role, text: Seq<char>, final_: bool },
    Affect { role: Role, label: Seq<char> },
    Interrupted,
    TurnComplete,
    ToolCall { name: Seq<char>, id: Seq<char>, args: Json },
    ResumptionHandle(Seq<char>),
    GoAway,
}

impl View for ServerEvent {
    type V = ServerEventView;

    open spec fn view(&self) -> ServerEventView {
        match *self {
            ServerEvent::SetupComplete => ServerEventView::SetupComplete,
            ServerEvent::OutputAudio(pcm) => ServerEventView::OutputAudio(pcm@),
            ServerEvent::Transcript { role, text, final_ } => ServerEventView::Transcript {
                role,
                text: text@,
                final_,
            },
            ServerEvent::Affect { role, label } => ServerEventView::Affect {
                role,
                label: label.name@,
            },
            ServerEvent::Interrupted => ServerEventView::Interrupted,
            ServerEvent::TurnComplete => ServerEventView::TurnComplete,
            ServerEvent::ToolCall { name, id, args } => ServerEventView::ToolCall {
                name: name@,
                id: id@,
                args: crate::json::document(args),
            },
            ServerEvent::ResumptionHandle(handle) => ServerEventView::ResumptionHandle(handle@),
            ServerEvent::GoAway => ServerEventView::GoAway,
        }
    }
}

/// One event on the unified session stream. `SessionOpened` and `SessionClosed` bracket the
/// lifecycle; the rest mirror what the server said. The resumption handle is absent: the session
/// keeps it to itself.
#[derive(Clone, Debug)]
pub enum Event {
    /// A connection is open and its setup has been sent. `is_reconnect` is `false` for the very
    /// first open and `true` for every transparent resume.
    SessionOpened { is_reconnect: bool },
    /// Reconnection was exhausted. The stream ends after this.
    SessionClosed { reason: CloseReason },
    /// 24 kHz PCM16 output audio.
    OutputAudio(Vec<i16>),
    Transcript { role: Role, text: String, final_: bool },
    Affect { role: Role, label: AffectLabel },
    Interrupted,
    TurnComplete,
    /// A tool call. What it means, and when it is acknowledged, is for the caller to decide.
    ToolCall { name: String, id: String, args: Value },
}

/// The contents of an [`Event`].
pub enum EventView {
    SessionOpened { is_reconnect: bool },
    SessionClosed { reason: CloseReasonView },
    OutputAudio(Seq<i16>),
    Transcript { role: Role, text: Seq<char>, final_: bool },
    Affect { role: Role, label: Seq<char> },
    Interrupted,
    TurnComplete,
    ToolCall { name: Seq<char>, id: Seq<char>, args: Json },
}

impl View for Event {
    type V = EventView;

    open spec fn view(&self) -> EventView {
        match *self {
            Event::SessionOpened { is_reconnect } => EventView::SessionOpened { is_reconnect },
            Event::SessionClosed { reason } => EventView::SessionClosed { reason: reason@ },
            Event::OutputAudio(pcm) => EventView::OutputAudio(pcm@),
            Event::Transcript { role, text, final_ } => EventView::Transcript {
                role,
                text: text@,
                final_,
            },
            Event::Affect { role, label } => EventView::Affect { role, label: label.name@ },
            Event::Interrupted => EventView::Interrupted,
            Event::TurnComplete => EventView::TurnComplete,
            Event::ToolCall { name, id, args } => EventView::ToolCall {
                name: name@,
                id: id@,
                args: crate::json::document(args),
            },
        }
    }
}

/// Everything that a session needs to open, and to open again.
#[derive(Clone, Debug)]
pub struct ClientConfig {
    pub model: Model,
    pub api_key: String,
    pub proxy: Option<ProxyConfig>,
    /// The setup as the caller assembled it. Its `resume_handle` goes into the first connect;
    /// later ones carry the latest handle that the server issued.
    pub setup: SetupConfig,
}

/// An error from establishing or driving a session.
#[derive(Clone, Debug)]
pub enum SessionError {
    Transport(TransportError),
}

impl SessionError {
    /// What the error says, `cause` being what the transport's own error says.
    pub fn message(&self, cause: &str) -> (text: String)
        ensures
            text@ == "transport: "@ + cause@,
    {
        match self {
            SessionError::Transport(_) => "transport: ".to_owned().concat(cause),
        }
    }
}

impl From<TransportError> for SessionError {
    fn from(error: TransportError) -> (converted: SessionError) {
        SessionError::Transport(error)
    }
}

impl vstd::std_specs::convert::FromSpecImpl<TransportError> for SessionError {
    open spec fn obeys_from_spec() -> bool {
        true
    }

    open spec fn from_spec(error: TransportError) -> SessionError {
        SessionError::Transport(error)
    }
}

} // verus!
