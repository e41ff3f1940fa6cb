//! The session as a state machine over mathematical values: what each report from outside does
//! to the session, and what it asks to be done next.
use crate::types::{CloseReasonView, EventView, ServerEventView, SetupView};
use vstd::prelude::*;

verus! {

/// The first delay between two attempts to connect, in milliseconds.
pub const BACKOFF_BASE_MS: u64 = 300;

/// The longest delay between two attempts to connect, in milliseconds.
pub const BACKOFF_MAX_MS: u64 = 5000;

/// The stored resumption handle is dropped after this many consecutive failures.
pub const HANDLE_DROP_AFTER: u32 = 4;

/// A reconnect is given up after this many failed attempts.
pub const MAX_RECONNECT_ATTEMPTS: u32 = 8;

/// How a connection ended.
#[derive(Clone, Copy, Debug, PartialEq, Eq, Structural)]
pub enum EndKind {
    /// The server announced it, or the transport failed: always a failure.
    Resumable,
    /// A close by the peer, or a stream that ended: a success where the connection had made
    /// progress.
    RemoteClose,
}

/// What the session waits for.
pub enum PhaseView {
    /// The first setup is being sent.
    Opening,
    /// Nothing: the stream is between two events.
    Idle,
    /// The next frame of the transport.
    Receiving,
    /// A fresh connection, after `attempts` failed ones; `reason` is why the last one ended.
    Connecting { attempts: nat, reason: CloseReasonView },
    /// The setup to be sent on a fresh connection.
    Reopening { attempts: nat, reason: CloseReasonView },
    /// The delay before the next attempt.
    BackingOff { attempts: nat, reason: CloseReasonView },
}

/// What is reported to the session.
pub enum InputView {
    /// The caller asks for the next event.
    Poll,
    /// A frame arrived and said these things.
    Frame(Seq<ServerEventView>),
    /// A frame arrived and could not be read.
    Malformed,
    /// The transport failed; with the reason where the peer closed the connection.
    Failed(Option<CloseReasonView>),
    /// The transport's stream ended.
    Ended,
    /// An attempt to connect ended, well or not.
    Connected(bool),
    /// The setup was sent on a fresh connection, or could not be.
    SetupSent(bool),
    /// The delay is over.
    Slept,
}

/// What the session asks to be done next.
pub enum ActionView {
    /// Hand this to the caller who asked for the next event; `None` ends the stream.
    Return(Option<EventView>),
    /// Wait for the next frame.
    Receive,
    /// Establish a fresh connection.
    Connect,
    /// Send this text on the fresh connection.
    SendSetup(Seq<char>),
    /// Wait for this many nanoseconds.
    Sleep(nat),
}

/// The state of a session.
pub struct SessionView {
    /// The setup as the caller assembled it.
    pub setup: SetupView,
    /// The resumption handle for the next setup.
    pub handle: Option<Seq<char>>,
    /// The next delay between two attempts, in milliseconds.
    pub delay_ms: nat,
    /// Consecutive failures.
    pub fails: nat,
    /// Events not yet handed out.
    pub pending: Seq<EventView>,
    /// The connection has ended in this way, for this reason, and is to be replaced.
    pub pending_reconnect: Option<(EndKind, CloseReasonView)>,
    /// The connection completed its setup or issued a handle.
    pub progressed: bool,
    /// The session is closed for good.
    pub terminal: bool,
    pub phase: PhaseView,
}

impl ServerEventView {
    /// The event that reaches the caller. The resumption handle, the completion of the setup and
    /// the server's intention to close are the session's own business.
    pub open spec fn surfaced(self) -> Option<EventView> {
        match self {
            ServerEventView::OutputAudio(pcm) => Some(EventView::OutputAudio(pcm)),
            ServerEventView::Transcript { role, text, final_ } => Some(
                EventView::Transcript { role, text, final_ },
            ),
            ServerEventView::Affect { role, label } => Some(EventView::Affect { role, label }),
            ServerEventView::Interrupted => Some(EventView::Interrupted),
            ServerEventView::TurnComplete => Some(EventView::TurnComplete),
            ServerEventView::ToolCall { name, id, args } => Some(
                EventView::ToolCall { name, id, args },
            ),
            ServerEventView::SetupComplete
            | ServerEventView::ResumptionHandle(_)
            | ServerEventView::GoAway => None,
        }
    }

    /// Whether it shows that the connection works: a completed setup or a fresh handle.
    pub open spec fn is_progress(self) -> bool {
        self is SetupComplete || self is ResumptionHandle
    }
}

impl PhaseView {
    /// Whether the phase is part of a reconnect.
    pub open spec fn reconnecting(self) -> bool {
        self is Connecting || self is Reopening || self is BackingOff
    }

    /// Failed attempts of the reconnect under way.
    pub open spec fn attempts(self) -> nat {
        match self {
            PhaseView::Connecting { attempts, .. } => attempts,
            PhaseView::Reopening { attempts, .. } => attempts,
            PhaseView::BackingOff { attempts, .. } => attempts,
            _ => 0,
        }
    }

    /// Why the connection ended that the reconnect under way replaces.
    pub open spec fn reason(self) -> CloseReasonView {
        match self {
            PhaseView::Connecting { reason, .. } => reason,
            PhaseView::Reopening { reason, .. } => reason,
            PhaseView::BackingOff { reason, .. } => reason,
            _ => CloseReasonView::synthetic(Seq::empty()),
        }
    }
}

impl SessionView {
    /// A session before its first setup is sent.
    pub open spec fn initial(setup: SetupView) -> SessionView {
        SessionView {
            setup,
            handle: setup.resume_handle,
            delay_ms: BACKOFF_BASE_MS as nat,
            fails: 0,
            pending: Seq::empty(),
            pending_reconnect: None,
            progressed: false,
            terminal: false,
            phase: PhaseView::Opening,
        }
    }

    /// What holds of every session at all times.
    pub open spec fn valid(self) -> bool {
        &&& BACKOFF_BASE_MS <= self.delay_ms <= BACKOFF_MAX_MS
        &&& self.fails <= u32::MAX
        &&& self.phase.reconnecting() ==> self.phase.attempts() < MAX_RECONNECT_ATTEMPTS
        &&& !(self.phase is Idle) ==> self.pending.len() == 0 && self.pending_reconnect is None
            && !self.terminal
        &&& self.terminal ==> self.pending.len() == 0 && self.pending_reconnect is None
        &&& forall|i: int|
            0 <= i < self.pending.len() ==> !(#[trigger] self.pending[i] is SessionClosed)
    }

    /// The setup that the next connection starts with: the caller's, with the latest handle.
    pub open spec fn next_setup(self) -> SetupView {
        SetupView { resume_handle: self.handle, ..self.setup }
    }

    /// The text of that setup.
    pub open spec fn setup_text(self) -> Seq<char> {
        crate::json::compact_text(crate::wire::setup_message(self.next_setup()))
    }

    /// The setup has been sent: the open is announced.
    pub open spec fn opened(self, is_reconnect: bool) -> SessionView {
        SessionView {
            pending: self.pending.push(EventView::SessionOpened { is_reconnect }),
            phase: PhaseView::Idle,
            ..self
        }
    }

    /// The server said one thing.
    pub open spec fn absorbed(self, said: ServerEventView) -> SessionView {
        SessionView {
            pending: match said.surfaced() {
                Some(event) => self.pending.push(event),
                None => self.pending,
            },
            handle: match said {
                ServerEventView::ResumptionHandle(handle) => Some(handle),
                _ => self.handle,
            },
            progressed: self.progressed || said.is_progress(),
            pending_reconnect: if said is GoAway {
                Some((EndKind::Resumable, CloseReasonView::synthetic("goAway"@)))
            } else {
                self.pending_reconnect
            },
            ..self
        }
    }

    /// The server said several things, the first one first.
    pub open spec fn absorbed_all(self, said: Seq<ServerEventView>) -> SessionView
        decreases said.len(),
    {
        if said.len() == 0 {
            self
        } else {
            self.absorbed_all(said.drop_last()).absorbed(said.last())
        }
    }

    /// The connection has ended.
    pub open spec fn ended(self, end: EndKind, reason: CloseReasonView) -> SessionView {
        SessionView { pending_reconnect: Some((end, reason)), ..self }
    }

    /// The transport reported a frame, a failure or its end.
    pub open spec fn received(self, input: InputView) -> SessionView {
        match input {
            InputView::Frame(said) => self.absorbed_all(said),
            InputView::Failed(Some(reason)) => self.ended(EndKind::RemoteClose, reason),
            InputView::Failed(None) => self.ended(
                EndKind::Resumable,
                CloseReasonView::synthetic("transport error"@),
            ),
            InputView::Ended => self.ended(
                EndKind::RemoteClose,
                CloseReasonView::synthetic("stream ended"@),
            ),
            _ => self,
        }
    }

    /// One more failure: from the fourth in a row on, the handle counts as stale.
    pub open spec fn failed(self) -> SessionView {
        SessionView {
            fails: self.fails + 1,
            handle: if self.fails + 1 >= HANDLE_DROP_AFTER {
                None
            } else {
                self.handle
            },
            ..self
        }
    }

    /// Whether a connection that ended in this way counts as a success: the peer closed it after
    /// it had made progress.
    pub open spec fn succeeded(self, end: EndKind) -> bool {
        end is RemoteClose && self.progressed
    }

    /// The books are closed on a connection that ended in this way.
    pub open spec fn accounted(self, end: EndKind) -> SessionView {
        let counted = if self.succeeded(end) {
            SessionView { fails: 0, delay_ms: BACKOFF_BASE_MS as nat, ..self }
        } else {
            self.failed()
        };
        SessionView { progressed: false, ..counted }
    }

    /// What comes next when nothing is under way: an event not yet handed out, the end of the
    /// stream, the replacement of a connection that has ended, or the next frame, in this order.
    pub open spec fn advanced(self) -> (SessionView, ActionView) {
        if self.pending.len() > 0 {
            (
                SessionView { pending: self.pending.drop_first(), phase: PhaseView::Idle, ..self },
                ActionView::Return(Some(self.pending[0])),
            )
        } else if self.terminal {
            (SessionView { phase: PhaseView::Idle, ..self }, ActionView::Return(None))
        } else {
            match self.pending_reconnect {
                Some((end, reason)) => (
                    SessionView {
                        pending_reconnect: None,
                        phase: PhaseView::Connecting { attempts: 0, reason },
                        ..self.accounted(end)
                    },
                    ActionView::Connect,
                ),
                None => (
                    SessionView { phase: PhaseView::Receiving, ..self },
                    ActionView::Receive,
                ),
            }
        }
    }

    /// An attempt to reconnect failed: wait and try again, or close the session for good.
    pub open spec fn attempt_failed(self) -> (SessionView, ActionView) {
        let attempts = self.phase.attempts() + 1;
        let reason = self.phase.reason();
        if attempts >= MAX_RECONNECT_ATTEMPTS {
            (
                SessionView { terminal: true, phase: PhaseView::Idle, ..self.failed() },
                ActionView::Return(Some(EventView::SessionClosed { reason })),
            )
        } else {
            (
                SessionView {
                    delay_ms: crate::policy::doubled(self.delay_ms, BACKOFF_MAX_MS as nat),
                    phase: PhaseView::BackingOff { attempts, reason },
                    ..self.failed()
                },
                ActionView::Sleep(self.delay_ms * 1_000_000),
            )
        }
    }

    /// One step: what a report does to the session, and what the session asks for.
    pub open spec fn step(self, input: InputView) -> (SessionView, ActionView) {
        let attempts = self.phase.attempts();
        let reason = self.phase.reason();
        match input {
            InputView::Poll => self.advanced(),
            InputView::Connected(true) => (
                SessionView { phase: PhaseView::Reopening { attempts, reason }, ..self },
                ActionView::SendSetup(self.setup_text()),
            ),
            InputView::Connected(false) => self.attempt_failed(),
            InputView::SetupSent(true) => self.opened(true).advanced(),
            InputView::SetupSent(false) => self.attempt_failed(),
            InputView::Slept => (
                SessionView { phase: PhaseView::Connecting { attempts, reason }, ..self },
                ActionView::Connect,
            ),
            _ => self.received(input).advanced(),
        }
    }

    /// Whether the session waits for a report of this kind. A caller may ask for the next event
    /// at any time after the first open; what an earlier, abandoned request was waiting for is
    /// then forgotten.
    pub open spec fn awaits(self, input: InputView) -> bool {
        match input {
            InputView::Poll => !(self.phase is Opening),
            InputView::Connected(_) => self.phase is Connecting,
            InputView::SetupSent(_) => self.phase is Reopening,
            InputView::Slept => self.phase is BackingOff,
            _ => self.phase is Receiving,
        }
    }

    /// Whether the next thing to do counts a failure.
    pub open spec fn advance_counts_failure(self) -> bool {
        &&& self.pending.len() == 0
        &&& !self.terminal
        &&& self.pending_reconnect matches Some((end, _)) && !self.succeeded(end)
    }

    /// Whether a report makes the session count a failure.
    pub open spec fn counts_failure(self, input: InputView) -> bool {
        match input {
            InputView::Poll => self.advance_counts_failure(),
            InputView::Connected(ok) => !ok,
            InputView::SetupSent(ok) => !ok,
            InputView::Slept => false,
            _ => self.received(input).advance_counts_failure(),
        }
    }

    /// Whether a report can be taken: the session waits for it, and a failure that it counts does
    /// not overflow the counter.
    pub open spec fn accepts(self, input: InputView) -> bool {
        &&& self.awaits(input)
        &&& self.counts_failure(input) ==> self.fails < u32::MAX
    }

    /// The session after a run of reports, the first one first.
    pub open spec fn after(self, inputs: Seq<InputView>) -> SessionView
        decreases inputs.len(),
    {
        if inputs.len() == 0 {
            self
        } else {
            self.after(inputs.drop_last()).step(inputs.last()).0
        }
    }

    /// What the session asks for in answer to the report at `index` of a run.
    pub open spec fn action(self, inputs: Seq<InputView>, index: int) -> ActionView {
        self.after(inputs.take(index)).step(inputs[index]).1
    }

    /// Whether each report of a run is one that the session accepts when it comes.
    pub open spec fn accepts_all(self, inputs: Seq<InputView>) -> bool {
        forall|index: int|
            0 <= index < inputs.len() ==> #[trigger] self.after(inputs.take(index)).accepts(
                inputs[index],
            )
    }
}

} // verus!
