//! The session driver: remembers the resumption handle, decides when and how to reconnect, and
//! turns what the server says into one stream of events across reconnects.
//!
//! [`Session`] owns the connection lifecycle and nothing of the transport: whoever drives it
//! performs each [`Action`] and reports what came of it as the next [`Input`].
use crate::json;
use crate::model::{
    ActionView, EndKind, InputView, PhaseView, SessionView, BACKOFF_BASE_MS, BACKOFF_MAX_MS,
    HANDLE_DROP_AFTER, MAX_RECONNECT_ATTEMPTS,
};
use crate::policy::{Backoff, ReconnectState};
pub use crate::types::{ClientConfig, Event, SessionError};
use crate::types::{
    synth_reason, CloseReason, EventView, ServerEvent, ServerEventView, TransportError,
};
use crate::wire;
use std::collections::VecDeque;
use std::time::Duration;
use vstd::prelude::*;

verus! {

/// What the transport brought when it was asked for the next frame.
#[derive(Debug)]
pub enum Received {
    /// A frame that says these things, the first one first.
    Frame(Vec<ServerEvent>),
    /// A frame that could not be read. It is skipped.
    Malformed,
    /// The transport failed.
    Failed(TransportError),
    /// The stream ended without a close frame.
    Ended,
}

/// What is reported to a session.
#[derive(Debug)]
pub enum Input {
    /// The caller asks for the next event.
    Poll,
    /// What came of [`Action::Receive`].
    Received(Received),
    /// Whether [`Action::Connect`] brought a fresh connection.
    Connected(bool),
    /// What came of [`Action::SendSetup`].
    SetupSent(Result<(), TransportError>),
    /// The delay of [`Action::Sleep`] is over.
    Slept,
}

/// What a session asks to be done next.
#[derive(Debug)]
pub enum Action {
    /// Hand this to the caller who asked for the next event; `None` ends the stream.
    Return(Option<Event>),
    /// Wait for the next frame of the transport.
    Receive,
    /// Establish a fresh connection.
    Connect,
    /// Send this text on the fresh connection, which replaces the old one.
    SendSetup(String),
    /// Wait this long.
    Sleep(Duration),
}

/// The things that a list of server events says.
pub open spec fn said(events: Seq<ServerEvent>) -> Seq<ServerEventView> {
    events.map_values(|event: ServerEvent| event@)
}

impl View for Input {
    type V = InputView;

    open spec fn view(&self) -> InputView {
        match *self {
            Input::Poll => InputView::Poll,
            Input::Received(Received::Frame(events)) => InputView::Frame(said(events@)),
            Input::Received(Received::Malformed) => InputView::Malformed,
            Input::Received(Received::Failed(error)) => InputView::Failed(error.close_reason()),
            Input::Received(Received::Ended) => InputView::Ended,
            Input::Connected(ok) => InputView::Connected(ok),
            Input::SetupSent(sent) => InputView::SetupSent(sent is Ok),
            Input::Slept => InputView::Slept,
        }
    }
}

impl View for Action {
    type V = ActionView;

    open spec fn view(&self) -> ActionView {
        match *self {
            Action::Return(Some(event)) => ActionView::Return(Some(event@)),
            Action::Return(None) => ActionView::Return(None),
            Action::Receive => ActionView::Receive,
            Action::Connect => ActionView::Connect,
            Action::SendSetup(text) => ActionView::SendSetup(text@),
            Action::Sleep(duration) => ActionView::Sleep(crate::policy::nanoseconds(duration)),
        }
    }
}

/// A reconnect under way: the attempts that failed, and why the old connection ended.
struct Retry {
    attempts: u32,
    reason: CloseReason,
}

enum Phase {
    Opening,
    Idle,
    Receiving,
    Connecting(Retry),
    Reopening(Retry),
    BackingOff(Retry),
}

impl View for Phase {
    type V = PhaseView;

    closed spec fn view(&self) -> PhaseView {
        match *self {
            Phase::Opening => PhaseView::Opening,
            Phase::Idle => PhaseView::Idle,
            Phase::Receiving => PhaseView::Receiving,
            Phase::Connecting(retry) => PhaseView::Connecting {
                attempts: retry.attempts as nat,
                reason: retry.reason@,
            },
            Phase::Reopening(retry) => PhaseView::Reopening {
                attempts: retry.attempts as nat,
                reason: retry.reason@,
            },
            Phase::BackingOff(retry) => PhaseView::BackingOff {
                attempts: retry.attempts as nat,
                reason: retry.reason@,
            },
        }
    }
}

/// The reconnect and resumption driver.
pub struct Session {
    cfg: ClientConfig,
    /// The latest resumption handle: at first that of the configuration, then what the server
    /// issued, dropped once it counts as stale.
    handle: Option<String>,
    backoff: Backoff,
    rstate: ReconnectState,
    /// Events not yet handed out; they go before anything else.
    pending: VecDeque<Event>,
    /// Set when the current connection must be replaced, with the reason to report should that
    /// fail for good.
    pending_reconnect: Option<(EndKind, CloseReason)>,
    /// Whether the current connection completed its setup or issued a handle.
    progressed: bool,
    /// Set once `SessionClosed` has been handed out.
    terminal: bool,
    phase: Phase,
}

impl View for Session {
    type V = SessionView;

    closed spec fn view(&self) -> SessionView {
        SessionView {
            setup: self.cfg.setup@,
            handle: crate::types::optional_view(self.handle),
            delay_ms: self.backoff@.current_ms,
            fails: self.rstate@.fails,
            pending: self.pending@.map_values(|event: Event| event@),
            pending_reconnect: match self.pending_reconnect {
                Some((end, reason)) => Some((end, reason@)),
                None => None,
            },
            progressed: self.progressed,
            terminal: self.terminal,
            phase: self.phase@,
        }
    }
}

impl Session {
    /// The fixed parameters of the reconnect policy.
    pub closed spec fn configured(&self) -> bool {
        &&& self.backoff@.base_ms == BACKOFF_BASE_MS
        &&& self.backoff@.max_ms == BACKOFF_MAX_MS
        &&& self.rstate@.reset_handle_after == HANDLE_DROP_AFTER
    }

    /// What holds of every session.
    pub open spec fn wf(&self) -> bool {
        &&& self.configured()
        &&& self@.valid()
    }

    /// A session over `cfg`, before its first setup is sent.
    pub fn start(cfg: ClientConfig) -> (session: Session)
        ensures
            session.wf(),
            session@ == SessionView::initial(cfg.setup@),
    {
        let handle = cfg.setup.resume_handle.clone();
        let session = Session {
            cfg,
            handle,
            backoff: Backoff::new(BACKOFF_BASE_MS, BACKOFF_MAX_MS),
            rstate: ReconnectState::new(HANDLE_DROP_AFTER),
            pending: VecDeque::new(),
            pending_reconnect: None,
            progressed: false,
            terminal: false,
            phase: Phase::Opening,
        };
        assert(session@.pending =~= Seq::<EventView>::empty());
        session
    }

    /// The text of the setup that the next connection starts with. It carries the latest handle.
    pub fn setup_frame(&self) -> (text: String)
        ensures
            text@ == self@.setup_text(),
    {
        let setup = self.cfg.setup.with_resume_handle(self.handle.clone());
        json::print(&wire::build_setup(&setup))
    }

    /// Takes what came of sending the setup: announces the open, or gives the error back and
    /// leaves the session as it was.
    pub fn open(&mut self, is_reconnect: bool, sent: Result<(), TransportError>) -> (result: Result<
        (),
        SessionError,
    >)
        requires
            old(self).wf(),
            if is_reconnect {
                old(self)@.phase is Reopening
            } else {
                old(self)@.phase is Opening
            },
        ensures
            final(self).wf(),
            match sent {
                Ok(_) => result is Ok && final(self)@ == old(self)@.opened(is_reconnect),
                Err(error) => result == Err::<(), SessionError>(SessionError::Transport(error))
                    && final(self)@ == old(self)@,
            },
    {
        match sent {
            Ok(_) => {
                self.push(Event::SessionOpened { is_reconnect });
                self.phase = Phase::Idle;
                Ok(())
            },
            Err(error) => Err(SessionError::from(error)),
        }
    }

    /// Queues an event for the caller.
    fn push(&mut self, event: Event)
        ensures
            final(self)@ == (SessionView { pending: old(self)@.pending.push(event@), ..old(self)@ }),
            old(self).configured() ==> final(self).configured(),
    {
        let ghost queued = self.pending@;
        self.pending.push_back(event);
        assert(self.pending@.map_values(|event: Event| event@) =~= queued.map_values(
            |event: Event| event@,
        ).push(event@));
    }

    /// Takes one thing that the server said. The resumption handle is stored and never handed
    /// out; a completed setup is progress; an announced close schedules a reconnect.
    fn absorb(&mut self, event: ServerEvent)
        ensures
            final(self)@ == old(self)@.absorbed(event@),
            old(self).configured() ==> final(self).configured(),
    {
        match event {
            ServerEvent::SetupComplete => {
                self.progressed = true;
            },
            ServerEvent::OutputAudio(pcm) => {
                self.push(Event::OutputAudio(pcm));
            },
            ServerEvent::Transcript { role, text, final_ } => {
                self.push(Event::Transcript { role, text, final_ });
            },
            ServerEvent::Affect { role, label } => {
                self.push(Event::Affect { role, label });
            },
            ServerEvent::Interrupted => {
                self.push(Event::Interrupted);
            },
            ServerEvent::TurnComplete => {
                self.push(Event::TurnComplete);
            },
            ServerEvent::ToolCall { name, id, args } => {
                self.push(Event::ToolCall { name, id, args });
            },
            ServerEvent::ResumptionHandle(handle) => {
                self.handle = Some(handle);
                self.progressed = true;
            },
            ServerEvent::GoAway => {
                self.pending_reconnect = Some((EndKind::Resumable, synth_reason("goAway")));
            },
        }
    }

    /// Takes everything that a frame said, in its order.
    fn absorb_all(&mut self, events: Vec<ServerEvent>)
        ensures
            final(self)@ == old(self)@.absorbed_all(said(events@)),
            old(self).configured() ==> final(self).configured(),
    {
        let ghost all = said(events@);
        let ghost before = self@;
        assert(all.take(0) =~= Seq::empty());
        for event in frame: events
            invariant
                all == said(frame.seq()),
                before == old(self)@,
                self@ == before.absorbed_all(all.take(frame.index() as int)),
                old(self).configured() ==> self.configured(),
        {
            proof {
                let next = all.take(frame.index() + 1);
                assert(next.drop_last() =~= all.take(frame.index() as int));
                assert(next.last() == event@);
            }
            self.absorb(event);
        }
        assert(all.take(all.len() as int) =~= all);
    }

    /// Takes what the transport brought.
    fn receive(&mut self, received: Received)
        ensures
            final(self)@ == old(self)@.received(Input::Received(received)@),
            old(self).configured() ==> final(self).configured(),
    {
        match received {
            Received::Frame(events) => self.absorb_all(events),
            Received::Malformed => {},
            Received::Failed(TransportError::Closed(reason)) => {
                self.pending_reconnect = Some((EndKind::RemoteClose, reason));
            },
            Received::Failed(_) => {
                self.pending_reconnect =
                Some((EndKind::Resumable, synth_reason("transport error")));
            },
            Received::Ended => {
                self.pending_reconnect = Some((EndKind::RemoteClose, synth_reason("stream ended")));
            },
        }
    }

    /// Counts a failure, and drops the handle once it counts as stale.
    fn fail(&mut self)
        requires
            old(self).configured(),
            old(self)@.fails < u32::MAX,
        ensures
            final(self).configured(),
            final(self)@ == old(self)@.failed(),
    {
        if self.rstate.on_failure() {
            self.handle = None;
        }
    }

    /// Closes the books on a connection that has ended. A resumable end is always a failure; a
    /// close by the peer is a success if the connection had made progress, so that an endpoint
    /// that never works keeps escalating.
    fn account(&mut self, end: EndKind)
        requires
            old(self).configured(),
            !old(self)@.succeeded(end) ==> old(self)@.fails < u32::MAX,
        ensures
            final(self).configured(),
            final(self)@ == old(self)@.accounted(end),
    {
        let success = match end {
            EndKind::Resumable => false,
            EndKind::RemoteClose => self.progressed,
        };
        if success {
            self.rstate.on_success();
            self.backoff.reset();
        } else {
            self.fail();
        }
        self.progressed = false;
    }

    /// Goes on where nothing is under way.
    fn advance(&mut self) -> (action: Action)
        requires
            old(self).configured(),
            old(self)@.advance_counts_failure() ==> old(self)@.fails < u32::MAX,
        ensures
            final(self).configured(),
            (final(self)@, action@) == old(self)@.advanced(),
    {
        let ghost before = self@;
        self.phase = Phase::Idle;
        if let Some(event) = self.pending.pop_front() {
            assert(self@.pending =~= before.pending.drop_first());
            return Action::Return(Some(event));
        }
        assert(self@.pending =~= before.pending);
        if self.terminal {
            return Action::Return(None);
        }
        match self.pending_reconnect.take() {
            Some((end, reason)) => {
                self.account(end);
                self.phase = Phase::Connecting(Retry { attempts: 0, reason });
                Action::Connect
            },
            None => {
                self.phase = Phase::Receiving;
                Action::Receive
            },
        }
    }

    /// Takes a failed attempt to reconnect: waits for the next one, or closes the session for
    /// good once the attempts are used up.
    fn retry(&mut self, retry: Retry) -> (action: Action)
        requires
            old(self).configured(),
            old(self)@.fails < u32::MAX,
            old(self)@.delay_ms <= BACKOFF_MAX_MS,
            retry.attempts < MAX_RECONNECT_ATTEMPTS,
        ensures
            final(self).configured(),
            (final(self)@, action@) == (SessionView {
                phase: PhaseView::Connecting {
                    attempts: retry.attempts as nat,
                    reason: retry.reason@,
                },
                ..old(self)@
            }).attempt_failed(),
    {
        let attempts: u32 = retry.attempts + 1;
        self.fail();
        if attempts >= MAX_RECONNECT_ATTEMPTS {
            self.terminal = true;
            self.phase = Phase::Idle;
            return Action::Return(Some(Event::SessionClosed { reason: retry.reason }));
        }
        let delay = self.backoff.next_delay();
        self.phase = Phase::BackingOff(Retry { attempts, reason: retry.reason });
        Action::Sleep(delay)
    }

    /// The reconnect under way, which leaves the session.
    fn take_retry(&mut self) -> (retry: Option<Retry>)
        ensures
            old(self).configured() ==> final(self).configured(),
            final(self)@ == (SessionView { phase: PhaseView::Idle, ..old(self)@ }),
            match retry {
                Some(retry) => old(self)@.phase.reconnecting() && retry.attempts
                    == old(self)@.phase.attempts() && retry.reason@ == old(self)@.phase.reason(),
                None => !old(self)@.phase.reconnecting(),
            },
    {
        let mut phase = Phase::Idle;
        std::mem::swap(&mut self.phase, &mut phase);
        match phase {
            Phase::Connecting(retry) | Phase::Reopening(retry) | Phase::BackingOff(retry) => Some(
                retry,
            ),
            _ => None,
        }
    }

    /// The unified event stream across reconnects, one step at a time: takes a report, and says
    /// what to do next. [`Input::Poll`] asks for the next event; each other input answers the
    /// action before it. The stream ends, with `Return(None)`, only after
    /// [`Event::SessionClosed`].
    pub fn next_event(&mut self, input: Input) -> (action: Action)
        requires
            old(self).wf(),
            old(self)@.accepts(input@),
        ensures
            final(self).wf(),
            (final(self)@, action@) == old(self)@.step(input@),
    {
        proof {
            crate::laws::law_step_keeps_valid(self@, input@);
            if let InputView::Frame(said) = input@ {
                crate::laws::law_frame_leaves_the_rest(self@, said);
            }
        }
        match input {
            Input::Poll => self.advance(),
            Input::Received(received) => {
                self.receive(received);
                self.advance()
            },
            Input::Connected(ok) => {
                let retry = self.take_retry().unwrap();
                if ok {
                    self.phase = Phase::Reopening(retry);
                    Action::SendSetup(self.setup_frame())
                } else {
                    self.retry(retry)
                }
            },
            Input::SetupSent(sent) => match self.open(true, sent) {
                Ok(_) => self.advance(),
                Err(_) => {
                    let retry = self.take_retry().unwrap();
                    self.retry(retry)
                },
            },
            Input::Slept => {
                let retry = self.take_retry().unwrap();
                self.phase = Phase::Connecting(retry);
                Action::Connect
            },
        }
    }

    /// The text to send for one uplink audio frame (PCM16 at 16 kHz). Sending it leaves the
    /// lifecycle as it is.
    pub fn send_audio(&self, pcm16_16k: &[i16]) -> (text: String)
        ensures
            text@ == json::compact_text(wire::realtime_input_message(pcm16_16k@)),
    {
        wire::build_realtime_input(pcm16_16k)
    }

    /// Whether the session waits for this report and has room to count one more failure. It can
    /// then take the report.
    pub fn can_take(&self, input: &Input) -> (can: bool)
        ensures
            can == (self@.awaits(input@) && self@.fails < u32::MAX),
            can ==> self@.accepts(input@),
    {
        let awaited = match (input, &self.phase) {
            (Input::Poll, Phase::Opening) => false,
            (Input::Poll, _) => true,
            (Input::Received(_), Phase::Receiving) => true,
            (Input::Connected(_), Phase::Connecting(_)) => true,
            (Input::SetupSent(_), Phase::Reopening(_)) => true,
            (Input::Slept, Phase::BackingOff(_)) => true,
            _ => false,
        };
        awaited && self.rstate.failures() < u32::MAX
    }
}

} // verus!
