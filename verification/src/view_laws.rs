//! What the views of the executable values keep of them.
use crate::model::{ActionView, InputView};
use crate::session::{Action, Input, Received};
use crate::types::{
    AffectLabel, CloseReason, CloseReasonView, Event, EventView, Role, ServerEvent,
    ServerEventView, SetupConfig, TransportError,
};
use serde_json::Value;
use std::time::Duration;
use vstd::prelude::*;

verus! {

/// A configuration is read as it is written, field by field.
pub proof fn law_configuration_is_read_as_written(cfg: SetupConfig)
    ensures
        cfg@.model == cfg.model,
        cfg@.voice == cfg.voice@,
        cfg@.language is Some <==> cfg.language is Some,
        cfg.language is Some ==> cfg@.language->0 == cfg.language->0@,
        cfg@.system_instruction == cfg.system_instruction@,
        cfg@.temperature == crate::json::document(cfg.temperature),
        cfg@.goal_schema == crate::json::document(cfg.goal_schema),
        cfg@.resume_handle is Some <==> cfg.resume_handle is Some,
        cfg.resume_handle is Some ==> cfg@.resume_handle->0 == cfg.resume_handle->0@,
{
}

/// A close reason is read with its code and its text, and a synthetic one has the code 0.
pub proof fn law_close_reason_is_read_as_written(close: CloseReason, text: Seq<char>)
    ensures
        close@.code == close.code,
        close@.reason == close.reason@,
        CloseReasonView::synthetic(text).code == 0,
        CloseReasonView::synthetic(text).reason == text,
{
}

/// An event for the caller is read with all that it carries.
pub proof fn law_event_is_read_as_written(
    is_reconnect: bool,
    reason: CloseReason,
    pcm: Vec<i16>,
    role: Role,
    text: String,
    final_: bool,
    label: AffectLabel,
    id: String,
    args: Value,
)
    ensures
        (Event::SessionOpened { is_reconnect })@ == (EventView::SessionOpened { is_reconnect }),
        (Event::SessionClosed { reason })@ == (EventView::SessionClosed {
            reason: CloseReasonView { code: reason.code, reason: reason.reason@ },
        }),
        Event::OutputAudio(pcm)@ == EventView::OutputAudio(pcm@),
        (Event::Transcript { role, text, final_ })@ == (EventView::Transcript {
            role,
            text: text@,
            final_,
        }),
        (Event::Affect { role, label })@ == (EventView::Affect { role, label: label.name@ }),
        Event::Interrupted@ == EventView::Interrupted,
        Event::TurnComplete@ == EventView::TurnComplete,
        (Event::ToolCall { name: text, id, args })@ == (EventView::ToolCall {
            name: text@,
            id: id@,
            args: crate::json::document(args),
        }),
{
}

/// A thing that the server says is read with all that it carries.
pub proof fn law_server_event_is_read_as_written(
    pcm: Vec<i16>,
    role: Role,
    text: String,
    final_: bool,
    label: AffectLabel,
    id: String,
    args: Value,
)
    ensures
        ServerEvent::SetupComplete@ == ServerEventView::SetupComplete,
        ServerEvent::OutputAudio(pcm)@ == ServerEventView::OutputAudio(pcm@),
        (ServerEvent::Transcript { role, text, final_ })@ == (ServerEventView::Transcript {
            role,
            text: text@,
            final_,
        }),
        (ServerEvent::Affect { role, label })@ == (ServerEventView::Affect {
            role,
            label: label.name@,
        }),
        ServerEvent::Interrupted@ == ServerEventView::Interrupted,
        ServerEvent::TurnComplete@ == ServerEventView::TurnComplete,
        (ServerEvent::ToolCall { name: text, id, args })@ == (ServerEventView::ToolCall {
            name: text@,
            id: id@,
            args: crate::json::document(args),
        }),
        ServerEvent::ResumptionHandle(text)@ == ServerEventView::ResumptionHandle(text@),
        ServerEvent::GoAway@ == ServerEventView::GoAway,
{
}

/// A report is read as what it reports. A frame says all its things in their order; a failure of
/// the transport tells a reason where the peer closed the connection, and only there.
pub proof fn law_report_is_read_as_made(
    events: Vec<ServerEvent>,
    close: CloseReason,
    cause: String,
    ok: bool,
    error: TransportError,
)
    ensures
        Input::Poll@ == InputView::Poll,
        Input::Received(Received::Frame(events))@ is Frame,
        Input::Received(Received::Frame(events))@->Frame_0.len() == events@.len(),
        forall|i: int|
            0 <= i < events@.len() ==> Input::Received(Received::Frame(events))@->Frame_0[i]
                == #[trigger] events@[i]@,
        Input::Received(Received::Malformed)@ == InputView::Malformed,
        Input::Received(Received::Failed(TransportError::Closed(close)))@ == InputView::Failed(
            Some(CloseReasonView { code: close.code, reason: close.reason@ }),
        ),
        Input::Received(Received::Failed(TransportError::Connect(cause)))@ == InputView::Failed(
            None,
        ),
        Input::Received(Received::Failed(TransportError::Send(cause)))@ == InputView::Failed(None),
        Input::Received(Received::Failed(TransportError::Protocol(cause)))@ == InputView::Failed(
            None,
        ),
        Input::Received(Received::Ended)@ == InputView::Ended,
        Input::Connected(ok)@ == InputView::Connected(ok),
        Input::SetupSent(Ok(()))@ == InputView::SetupSent(true),
        Input::SetupSent(Err(error))@ == InputView::SetupSent(false),
        Input::Slept@ == InputView::Slept,
{
}

/// An action is read with all that it asks for.
pub proof fn law_action_is_read_as_given(event: Event, text: String, delay: Duration)
    ensures
        Action::Return(Some(event))@ == ActionView::Return(Some(event@)),
        Action::Return(None)@ == ActionView::Return(None),
        Action::Receive@ == ActionView::Receive,
        Action::Connect@ == ActionView::Connect,
        Action::SendSetup(text)@ == ActionView::SendSetup(text@),
        Action::Sleep(delay)@ == ActionView::Sleep(crate::policy::nanoseconds(delay)),
{
}

} // verus!
