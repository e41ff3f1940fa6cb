//! What each report does to a session and what the session answers, report by report.
use crate::json::Json;
use crate::model::{ActionView, EndKind, InputView, PhaseView, SessionView};
use crate::types::{CloseReasonView, EventView, Role, ServerEventView, SetupView};
use vstd::prelude::*;

verus! {

/// A session that has not sent anything yet has counted nothing, holds the handle that its
/// configuration came with, and would wait 300 ms first.
pub proof fn law_fresh_session(setup: SetupView)
    ensures
        ({
            let fresh = SessionView::initial(setup);
            &&& fresh.valid()
            &&& fresh.setup == setup
            &&& fresh.handle == setup.resume_handle
            &&& fresh.delay_ms == 300
            &&& fresh.fails == 0
            &&& fresh.pending.len() == 0
            &&& fresh.pending_reconnect is None
            &&& !fresh.progressed
            &&& !fresh.terminal
            &&& fresh.phase is Opening
        }),
{
}

/// The first open, once its announcement has been handed out, leaves the session as it was before
/// it, but that it no longer waits to be opened.
pub proof fn law_first_open_counts_nothing(session: SessionView)
    requires
        session.valid(),
        session.phase is Opening,
    ensures
        session.opened(false).valid(),
        session.opened(false).step(InputView::Poll) == (
            SessionView { phase: PhaseView::Idle, ..session },
            ActionView::Return(Some(EventView::SessionOpened { is_reconnect: false })),
        ),
{
    assert(session.opened(false).pending.drop_first() =~= session.pending);
}

/// A reopen is no success in itself: a setup that was sent on a fresh connection leaves the
/// failures, the delay, the handle and the progress as they were, and all else but the phase.
pub proof fn law_reopen_counts_nothing(session: SessionView)
    requires
        session.valid(),
        session.phase is Reopening,
    ensures
        session.accepts(InputView::SetupSent(true)),
        session.step(InputView::SetupSent(true)) == (
            SessionView { phase: PhaseView::Idle, ..session },
            ActionView::Return(Some(EventView::SessionOpened { is_reconnect: true })),
        ),
{
    assert(session.opened(true).pending.drop_first() =~= session.pending);
}

/// On a fresh connection the caller's setup is sent with the handle that the session holds; the
/// reconnect goes on where it was, and nothing else changes.
pub proof fn law_fresh_connection_gets_the_setup(
    session: SessionView,
    attempts: nat,
    reason: CloseReasonView,
)
    requires
        session.valid(),
        session.phase == (PhaseView::Connecting { attempts, reason }),
    ensures
        session.accepts(InputView::Connected(true)),
        session.step(InputView::Connected(true)) == (
            SessionView { phase: PhaseView::Reopening { attempts, reason }, ..session },
            ActionView::SendSetup(
                crate::json::compact_text(
                    crate::wire::setup_message(
                        SetupView {
                            model: session.setup.model,
                            voice: session.setup.voice,
                            language: session.setup.language,
                            system_instruction: session.setup.system_instruction,
                            temperature: session.setup.temperature,
                            goal_schema: session.setup.goal_schema,
                            resume_handle: session.handle,
                        },
                    ),
                ),
            ),
        ),
{
}

/// After a delay the next attempt is made, and nothing else changes.
pub proof fn law_delay_is_followed_by_an_attempt(
    session: SessionView,
    attempts: nat,
    reason: CloseReasonView,
)
    requires
        session.valid(),
        session.phase == (PhaseView::BackingOff { attempts, reason }),
    ensures
        session.accepts(InputView::Slept),
        session.step(InputView::Slept) == (
            SessionView { phase: PhaseView::Connecting { attempts, reason }, ..session },
            ActionView::Connect,
        ),
{
}

/// An attempt fails when no connection comes about or its setup cannot be sent; the two are
/// alike. It is one more failure, and with the fourth the handle is gone. Before the eighth
/// failed attempt the session waits for the delay that is due, and the next one is twice as long
/// but at most 5 s; with the eighth it closes for good, for the reason that started the reconnect.
pub proof fn law_failed_attempt(session: SessionView, input: InputView)
    requires
        session.valid(),
        session.fails < u32::MAX,
        (session.phase is Connecting && input == InputView::Connected(false)) || (
        session.phase is Reopening && input == InputView::SetupSent(false)),
    ensures
        session.accepts(input),
        ({
            let (next, action) = session.step(input);
            let attempts = match session.phase {
                PhaseView::Connecting { attempts, .. } => attempts + 1,
                PhaseView::Reopening { attempts, .. } => attempts + 1,
                _ => 0,
            };
            let reason = match session.phase {
                PhaseView::Connecting { reason, .. } => reason,
                PhaseView::Reopening { reason, .. } => reason,
                _ => CloseReasonView { code: 0, reason: Seq::empty() },
            };
            &&& next.fails == session.fails + 1
            &&& next.fails >= 4 ==> next.handle is None
            &&& next.fails < 4 ==> next.handle == session.handle
            &&& next.setup == session.setup
            &&& next.progressed == session.progressed
            &&& next.pending == session.pending
            &&& next.pending_reconnect is None
            &&& attempts < 8 ==> {
                &&& action == ActionView::Sleep(session.delay_ms * 1_000_000)
                &&& next.delay_ms <= 5000
                &&& next.delay_ms == 2 * session.delay_ms || (next.delay_ms == 5000 && 2
                    * session.delay_ms > 5000)
                &&& next.phase == (PhaseView::BackingOff { attempts: attempts as nat, reason })
                &&& !next.terminal
            }
            &&& attempts >= 8 ==> {
                &&& action == ActionView::Return(Some(EventView::SessionClosed { reason }))
                &&& next.delay_ms == session.delay_ms
                &&& next.phase is Idle
                &&& next.terminal
            }
        }),
{
}

/// What the end of a connection does. After a success the failures start over, the delay is back
/// at 300 ms and the handle stays; after a failure there is one more, the delay stays and with the
/// fourth failure the handle goes. Either way a fresh connection is asked for.
pub open spec fn connection_ended(
    session: SessionView,
    success: bool,
    reason: CloseReasonView,
    next: SessionView,
    action: ActionView,
) -> bool {
    &&& action is Connect
    &&& next.phase == (PhaseView::Connecting { attempts: 0, reason })
    &&& !next.progressed
    &&& next.setup == session.setup
    &&& next.pending.len() == 0
    &&& next.pending_reconnect is None
    &&& !next.terminal
    &&& success ==> next.fails == 0 && next.delay_ms == 300 && next.handle == session.handle
    &&& !success ==> next.fails == session.fails + 1 && next.delay_ms == session.delay_ms
    &&& !success && next.fails >= 4 ==> next.handle is None
    &&& !success && next.fails < 4 ==> next.handle == session.handle
}

/// A close by the peer and a stream that ends without one are successes after progress and
/// failures without it. Any other failure of the transport is a failure in spite of progress.
pub proof fn law_end_of_a_connection(session: SessionView, reason: CloseReasonView)
    requires
        session.valid(),
        session.phase is Receiving,
        session.fails < u32::MAX,
    ensures
        session.accepts(InputView::Failed(Some(reason))),
        connection_ended(
            session,
            session.progressed,
            reason,
            session.step(InputView::Failed(Some(reason))).0,
            session.step(InputView::Failed(Some(reason))).1,
        ),
        session.accepts(InputView::Ended),
        connection_ended(
            session,
            session.progressed,
            CloseReasonView { code: 0, reason: "stream ended"@ },
            session.step(InputView::Ended).0,
            session.step(InputView::Ended).1,
        ),
        session.accepts(InputView::Failed(None)),
        connection_ended(
            session,
            false,
            CloseReasonView { code: 0, reason: "transport error"@ },
            session.step(InputView::Failed(None)).0,
            session.step(InputView::Failed(None)).1,
        ),
{
}

/// After progress, a close by the peer and a dropped stream are accepted however many failures
/// have been counted, and clear them.
pub proof fn law_end_after_progress_clears_failures(session: SessionView, reason: CloseReasonView)
    requires
        session.valid(),
        session.phase is Receiving,
        session.progressed,
    ensures
        session.accepts(InputView::Failed(Some(reason))),
        session.step(InputView::Failed(Some(reason))).0.fails == 0,
        session.step(InputView::Failed(Some(reason))).0.delay_ms == 300,
        session.step(InputView::Failed(Some(reason))).0.handle == session.handle,
        session.accepts(InputView::Ended),
        session.step(InputView::Ended).0.fails == 0,
        session.step(InputView::Ended).0.delay_ms == 300,
        session.step(InputView::Ended).0.handle == session.handle,
{
}

/// A connection whose end was put off until its events were handed out is ended like any other.
pub proof fn law_end_that_was_put_off(
    session: SessionView,
    end: EndKind,
    reason: CloseReasonView,
)
    requires
        session.valid(),
        session.phase is Idle,
        session.pending.len() == 0,
        session.pending_reconnect == Some((end, reason)),
        session.fails < u32::MAX,
    ensures
        session.accepts(InputView::Poll),
        connection_ended(
            session,
            end is RemoteClose && session.progressed,
            reason,
            session.step(InputView::Poll).0,
            session.step(InputView::Poll).1,
        ),
{
}

/// A request for the next event takes the first one that waits and leaves all else as it is.
pub proof fn law_request_takes_the_first_event(
    session: SessionView,
    first: EventView,
    rest: Seq<EventView>,
)
    requires
        session.valid(),
        session.pending == seq![first] + rest,
    ensures
        session.accepts(InputView::Poll),
        session.step(InputView::Poll) == (
            SessionView { pending: rest, ..session },
            ActionView::Return(Some(first)),
        ),
{
    assert(session.pending.drop_first() =~= rest);
}

/// A request to a closed session ends the stream and changes nothing.
pub proof fn law_request_to_a_closed_session(session: SessionView)
    requires
        session.valid(),
        session.terminal,
    ensures
        session.accepts(InputView::Poll),
        session.step(InputView::Poll) == (session, ActionView::Return(None)),
{
}

/// A request where nothing waits and nothing is due goes to the transport and changes nothing
/// but the phase.
pub proof fn law_request_goes_to_the_transport(session: SessionView)
    requires
        session.valid(),
        !(session.phase is Opening),
        session.pending.len() == 0,
        session.pending_reconnect is None,
        !session.terminal,
    ensures
        session.accepts(InputView::Poll),
        session.step(InputView::Poll) == (
            SessionView { phase: PhaseView::Receiving, ..session },
            ActionView::Receive,
        ),
{
}

/// What the server says to the caller reaches the caller as it was said: audio with its samples,
/// a transcript with its role, text and finality, an affect with its role and label, a tool call
/// with its name, id and arguments, and interruptions and ends of turns. Nothing else of the
/// session changes.
pub proof fn law_what_is_said_reaches_the_caller(
    session: SessionView,
    pcm: Seq<i16>,
    role: Role,
    text: Seq<char>,
    final_: bool,
    label: Seq<char>,
    name: Seq<char>,
    id: Seq<char>,
    args: Json,
)
    requires
        session.valid(),
        session.phase is Receiving,
    ensures
        hands_on(session, ServerEventView::OutputAudio(pcm), EventView::OutputAudio(pcm)),
        hands_on(
            session,
            ServerEventView::Transcript { role, text, final_ },
            EventView::Transcript { role, text, final_ },
        ),
        hands_on(
            session,
            ServerEventView::Affect { role, label },
            EventView::Affect { role, label },
        ),
        hands_on(session, ServerEventView::Interrupted, EventView::Interrupted),
        hands_on(session, ServerEventView::TurnComplete, EventView::TurnComplete),
        hands_on(
            session,
            ServerEventView::ToolCall { name, id, args },
            EventView::ToolCall { name, id, args },
        ),
{
    lemma_single(session, ServerEventView::OutputAudio(pcm));
    lemma_single(session, ServerEventView::Transcript { role, text, final_ });
    lemma_single(session, ServerEventView::Affect { role, label });
    lemma_single(session, ServerEventView::Interrupted);
    lemma_single(session, ServerEventView::TurnComplete);
    lemma_single(session, ServerEventView::ToolCall { name, id, args });
    assert forall|event: EventView| #[trigger] session.pending.push(event).drop_first()
        == session.pending by {
        assert(session.pending.push(event).drop_first() =~= session.pending);
    }
}

/// Whether a frame that says one thing makes the session hand this event to the caller, and
/// changes nothing of it but the phase.
pub open spec fn hands_on(session: SessionView, said: ServerEventView, event: EventView) -> bool {
    &&& session.accepts(InputView::Frame(seq![said]))
    &&& session.step(InputView::Frame(seq![said])) == (
        SessionView { phase: PhaseView::Idle, ..session },
        ActionView::Return(Some(event)),
    )
}

proof fn lemma_single(session: SessionView, said: ServerEventView)
    ensures
        session.absorbed_all(seq![said]) == session.absorbed(said),
{
    assert(seq![said].drop_last() =~= Seq::empty());
    assert(session.absorbed_all(seq![said].drop_last()) == session);
}

/// What the server says to the session stays in it: a completed setup is progress, a handle is
/// stored and is progress, and nothing is handed out. An announced close ends the connection, as
/// a failure in spite of progress.
pub proof fn law_what_is_said_to_the_session(session: SessionView, handle: Seq<char>)
    requires
        session.valid(),
        session.phase is Receiving,
        session.fails < u32::MAX,
    ensures
        session.accepts(InputView::Frame(seq![ServerEventView::SetupComplete])),
        session.step(InputView::Frame(seq![ServerEventView::SetupComplete])) == (
            SessionView { progressed: true, ..session },
            ActionView::Receive,
        ),
        session.accepts(InputView::Frame(seq![ServerEventView::ResumptionHandle(handle)])),
        session.step(InputView::Frame(seq![ServerEventView::ResumptionHandle(handle)])) == (
            SessionView { progressed: true, handle: Some(handle), ..session },
            ActionView::Receive,
        ),
        session.accepts(InputView::Frame(seq![ServerEventView::GoAway])),
        connection_ended(
            session,
            false,
            CloseReasonView { code: 0, reason: "goAway"@ },
            session.step(InputView::Frame(seq![ServerEventView::GoAway])).0,
            session.step(InputView::Frame(seq![ServerEventView::GoAway])).1,
        ),
{
    lemma_single(session, ServerEventView::SetupComplete);
    lemma_single(session, ServerEventView::ResumptionHandle(handle));
    lemma_single(session, ServerEventView::GoAway);
}

/// A frame that says nothing changes nothing.
pub proof fn law_empty_frame(session: SessionView)
    requires
        session.valid(),
        session.phase is Receiving,
    ensures
        session.accepts(InputView::Frame(Seq::empty())),
        session.step(InputView::Frame(Seq::empty())) == (session, ActionView::Receive),
{
}

/// Two frames taken one after the other, nothing being done in between, are as good as one frame
/// that says what the first says and then what the second says.
pub proof fn law_frames_can_be_joined(
    session: SessionView,
    first: Seq<ServerEventView>,
    second: Seq<ServerEventView>,
)
    ensures
        session.absorbed_all(first + second) == session.absorbed_all(first).absorbed_all(second),
    decreases second.len(),
{
    if second.len() == 0 {
        assert(first + second =~= first);
    } else {
        law_frames_can_be_joined(session, first, second.drop_last());
        assert((first + second).drop_last() =~= first + second.drop_last());
    }
}

/// The books on a frame of any length: with no close announced, failures, delay, setup and
/// closedness stay; the handle is the last one issued, or the old one where none is; there is
/// progress if there was or a completed setup or a handle is among what is said. With a close
/// announced and events to hand out first, the end is put off; with none, the connection ends at
/// once, as a failure.
pub proof fn law_books_on_a_frame(session: SessionView, said: Seq<ServerEventView>)
    requires
        session.valid(),
        session.phase is Receiving,
        session.fails < u32::MAX,
    ensures
        session.accepts(InputView::Frame(said)),
        ({
            let (next, action) = session.step(InputView::Frame(said));
            let ends = said.contains(ServerEventView::GoAway) && action is Connect;
            let issues = exists|i: int| 0 <= i < said.len() && #[trigger] said[i] is ResumptionHandle;
            let works = exists|i: int|
                0 <= i < said.len() && (#[trigger] said[i] is ResumptionHandle
                    || said[i] is SetupComplete);
            &&& next.setup == session.setup
            &&& next.delay_ms == session.delay_ms
            &&& !next.terminal
            &&& action is Connect ==> ends
            &&& ends ==> next.fails == session.fails + 1 && !next.progressed
            &&& !ends ==> next.fails == session.fails && (next.progressed <==> session.progressed
                || works)
            &&& ends && next.fails >= 4 ==> next.handle is None
            &&& !(ends && next.fails >= 4) ==> {
                &&& !issues ==> next.handle == session.handle
                &&& forall|i: int|
                    0 <= i < said.len() && #[trigger] said[i] is ResumptionHandle && (forall|j: int|
                        i < j < said.len() ==> !(#[trigger] said[j] is ResumptionHandle))
                        ==> next.handle == Some(said[i]->ResumptionHandle_0)
            }
            &&& next.pending_reconnect == if said.contains(ServerEventView::GoAway) && !ends {
                Some((EndKind::Resumable, CloseReasonView { code: 0, reason: "goAway"@ }))
            } else {
                None
            }
        }),
{
    crate::laws::law_frame_effect(session, said);
    crate::laws::law_frame_leaves_the_rest(session, said);
    let after = session.absorbed_all(said);
    if exists|i: int| 0 <= i < said.len() && (#[trigger] said[i]).is_progress() {
        let i = choose|i: int| 0 <= i < said.len() && (#[trigger] said[i]).is_progress();
        assert(said[i] is ResumptionHandle || said[i] is SetupComplete);
    }
    if exists|i: int|
        0 <= i < said.len() && (#[trigger] said[i] is ResumptionHandle
            || said[i] is SetupComplete) {
        let i = choose|i: int|
            0 <= i < said.len() && (#[trigger] said[i] is ResumptionHandle
                || said[i] is SetupComplete);
        assert(said[i].is_progress());
    }
}

/// What a session waits for, phase by phase. A request is awaited in every phase but the first.
pub proof fn law_what_is_awaited(session: SessionView, said: Seq<ServerEventView>, reason: Option<
    CloseReasonView,
>, ok: bool)
    ensures
        session.awaits(InputView::Poll) <==> !(session.phase is Opening),
        session.awaits(InputView::Frame(said)) <==> session.phase is Receiving,
        session.awaits(InputView::Malformed) <==> session.phase is Receiving,
        session.awaits(InputView::Failed(reason)) <==> session.phase is Receiving,
        session.awaits(InputView::Ended) <==> session.phase is Receiving,
        session.awaits(InputView::Connected(ok)) <==> session.phase is Connecting,
        session.awaits(InputView::SetupSent(ok)) <==> session.phase is Reopening,
        session.awaits(InputView::Slept) <==> session.phase is BackingOff,
{
}

/// With room in the counter, every report that is awaited is accepted, and no other ever is.
pub proof fn law_awaited_reports_are_accepted(session: SessionView, input: InputView)
    ensures
        session.fails < u32::MAX && session.awaits(input) ==> session.accepts(input),
        session.accepts(input) ==> session.awaits(input),
{
}

/// The phase after a report is the one for which the action asks.
pub proof fn law_phase_follows_the_action(session: SessionView, input: InputView)
    requires
        session.valid(),
        session.accepts(input),
    ensures
        ({
            let (next, action) = session.step(input);
            &&& action is Return <==> next.phase is Idle
            &&& action is Receive <==> next.phase is Receiving
            &&& action is Connect <==> next.phase is Connecting
            &&& action is SendSetup <==> next.phase is Reopening
            &&& action is Sleep <==> next.phase is BackingOff
        }),
{
}

/// How failures, delay and progress move, whatever the report. A report ends a connection where
/// the session answers it by asking for a fresh one, unless only a delay is over. Failures start
/// over, and the delay with them, at no other point than the end of a connection that had made
/// progress, by a close of the peer or the end of the stream; every other end and every failed
/// attempt is one more; all else leaves them alone. Progress is made by frames alone, and lasts
/// until the connection ends.
pub proof fn law_books_move_only_for_cause(session: SessionView, input: InputView)
    requires
        session.valid(),
        session.accepts(input),
    ensures
        ({
            let (next, action) = session.step(input);
            let ends = action is Connect && input != InputView::Slept;
            let by_peer = input is Ended || (input matches InputView::Failed(Some(_))) || (
            input is Poll && (session.pending_reconnect matches Some((EndKind::RemoteClose, _))));
            let attempt_failed = input == InputView::Connected(false) || input
                == InputView::SetupSent(false);
            &&& next.fails == if ends && by_peer && session.progressed {
                0
            } else if ends || attempt_failed {
                session.fails + 1
            } else {
                session.fails
            }
            &&& ends && by_peer && session.progressed ==> next.delay_ms == 300
            &&& !(ends && by_peer && session.progressed) && !(action is Sleep) ==> next.delay_ms
                == session.delay_ms
            &&& action is Sleep ==> attempt_failed
            &&& ends ==> !next.progressed
            &&& !ends && !(input is Frame) ==> next.progressed == session.progressed
            &&& session.progressed && !ends ==> next.progressed
            &&& next.setup == session.setup
            &&& next.terminal <==> session.terminal || crate::laws::closes(action)
        }),
{
    if let InputView::Frame(said) = input {
        crate::laws::law_frame_effect(session, said);
        crate::laws::law_frame_leaves_the_rest(session, said);
    }
    crate::laws::law_step_keeps_valid(session, input);
    if crate::laws::closes(session.step(input).1) {
        if let InputView::Frame(said) = input {
            crate::laws::lemma_frame_queues_no_close(session, said);
        }
    }
}

proof fn lemma_after_one_more(session: SessionView, inputs: Seq<InputView>, input: InputView)
    ensures
        session.after(inputs.push(input)) == session.after(inputs).step(input).0,
{
    assert(inputs.push(input).drop_last() =~= inputs);
}

/// Whether a report ends a connection, whatever came before.
pub open spec fn is_bare_end(input: InputView) -> bool {
    input is Ended || input is Failed || input == InputView::Frame(seq![ServerEventView::GoAway])
}

/// One connection after the other: each ends in the given way, the next one is established at
/// once and takes its setup, the caller takes the announcement and asks for the next event.
pub open spec fn reopened_after_each(ends: Seq<InputView>) -> Seq<InputView>
    decreases ends.len(),
{
    if ends.len() == 0 {
        Seq::empty()
    } else {
        reopened_after_each(ends.drop_last()).push(ends.last()).push(
            InputView::Connected(true),
        ).push(InputView::SetupSent(true)).push(InputView::Poll)
    }
}

/// An endpoint that opens but never makes progress keeps escalating: each connection that ends
/// without progress is one more failure, no reopen takes one back, and with the fourth in a row
/// the handle is gone, so that the setup of the reopen after it asks for no resumption.
pub proof fn law_endpoint_without_progress_escalates(session: SessionView, ends: Seq<InputView>)
    requires
        session.valid(),
        session.phase is Receiving,
        !session.progressed,
        session.fails + ends.len() <= u32::MAX,
        forall|i: int| 0 <= i < ends.len() ==> is_bare_end(#[trigger] ends[i]),
    ensures
        ({
            let inputs = reopened_after_each(ends);
            let after = session.after(inputs);
            let handle = if ends.len() > 0 && session.fails + ends.len() >= 4 {
                None
            } else {
                session.handle
            };
            &&& session.accepts_all(inputs)
            &&& inputs.len() == 4 * ends.len()
            &&& after == (SessionView {
                fails: session.fails + ends.len(),
                handle,
                ..session
            })
            &&& ends.len() > 0 ==> session.action(inputs, inputs.len() - 3)
                == ActionView::SendSetup(
                crate::json::compact_text(
                    crate::wire::setup_message(SetupView { resume_handle: handle, ..session.setup }),
                ),
            )
        }),
    decreases ends.len(),
{
    let inputs = reopened_after_each(ends);
    if ends.len() > 0 {
        let before = ends.drop_last();
        let end = ends.last();
        assert forall|i: int| 0 <= i < before.len() implies is_bare_end(#[trigger] before[i]) by {
            assert(before[i] == ends[i]);
        }
        law_endpoint_without_progress_escalates(session, before);
        assert(is_bare_end(ends[ends.len() - 1]));
        let front = reopened_after_each(before);
        let receiving = session.after(front);
        let ended = front.push(end);
        let connected = ended.push(InputView::Connected(true));
        let opened = connected.push(InputView::SetupSent(true));
        if let InputView::Failed(Some(reason)) = end {
            law_end_of_a_connection(receiving, reason);
        }
        law_end_of_a_connection(receiving, CloseReasonView::synthetic(Seq::empty()));
        law_what_is_said_to_the_session(receiving, Seq::empty());
        lemma_after_one_more(session, front, end);
        lemma_after_one_more(session, ended, InputView::Connected(true));
        lemma_after_one_more(session, connected, InputView::SetupSent(true));
        lemma_after_one_more(session, opened, InputView::Poll);
        crate::laws::law_step_keeps_valid(receiving, end);
        law_reopen_counts_nothing(session.after(connected));
        law_request_goes_to_the_transport(session.after(opened));
        assert(session.after(inputs).pending =~= session.pending);
        assert forall|i: int| 0 <= i < inputs.len() implies #[trigger] session.after(
            inputs.take(i),
        ).accepts(inputs[i]) by {
            let count = front.len() as int;
            if i < count {
                assert(inputs.take(i) =~= front.take(i));
                assert(inputs[i] == front[i]);
                assert(session.after(front.take(i)).accepts(front[i]));
            } else if i == count {
                assert(inputs.take(i) =~= front);
            } else if i == count + 1 {
                assert(inputs.take(i) =~= ended);
            } else if i == count + 2 {
                assert(inputs.take(i) =~= connected);
            } else {
                assert(inputs.take(i) =~= opened);
            }
        }
        assert(inputs.take(inputs.len() - 3) =~= ended);
    } else {
        assert(session.after(inputs) == session);
    }
}

/// One working connection after the other: each completes its setup, ends by a close of the peer
/// or the end of the stream, and the next one is established at once.
pub open spec fn completed_and_reopened(ends: Seq<InputView>) -> Seq<InputView>
    decreases ends.len(),
{
    if ends.len() == 0 {
        Seq::empty()
    } else {
        completed_and_reopened(ends.drop_last()).push(
            InputView::Frame(seq![ServerEventView::SetupComplete]),
        ).push(ends.last()).push(InputView::Connected(true)).push(
            InputView::SetupSent(true),
        ).push(InputView::Poll)
    }
}

/// An endpoint that makes progress each time never escalates: however often the peer closes the
/// connection or the stream drops, no failure is counted, the delay starts from 300 ms and the
/// handle stays.
pub proof fn law_endpoint_with_progress_never_escalates(session: SessionView, ends: Seq<InputView>)
    requires
        session.valid(),
        session.phase is Receiving,
        forall|i: int|
            0 <= i < ends.len() ==> (#[trigger] ends[i] is Ended || (
            ends[i] matches InputView::Failed(Some(_)))),
    ensures
        ({
            let after = session.after(completed_and_reopened(ends));
            &&& after.valid()
            &&& after.phase is Receiving
            &&& after.handle == session.handle
            &&& ends.len() > 0 ==> after.fails == 0 && after.delay_ms == 300
        }),
    decreases ends.len(),
{
    if ends.len() > 0 {
        let before = ends.drop_last();
        let end = ends.last();
        assert forall|i: int| 0 <= i < before.len() implies (#[trigger] before[i] is Ended || (
        before[i] matches InputView::Failed(Some(_)))) by {
            assert(before[i] == ends[i]);
        }
        law_endpoint_with_progress_never_escalates(session, before);
        assert(ends[ends.len() - 1] is Ended || (
        ends[ends.len() - 1] matches InputView::Failed(Some(_))));
        let front = completed_and_reopened(before);
        let frame = InputView::Frame(seq![ServerEventView::SetupComplete]);
        let receiving = session.after(front);
        let worked = front.push(frame);
        let ended = worked.push(end);
        let connected = ended.push(InputView::Connected(true));
        let opened = connected.push(InputView::SetupSent(true));
        lemma_single(receiving, ServerEventView::SetupComplete);
        lemma_after_one_more(session, front, frame);
        lemma_after_one_more(session, worked, end);
        lemma_after_one_more(session, ended, InputView::Connected(true));
        lemma_after_one_more(session, connected, InputView::SetupSent(true));
        lemma_after_one_more(session, opened, InputView::Poll);
        assert(session.after(worked) == (SessionView { progressed: true, ..receiving }));
        crate::laws::law_step_keeps_valid(session.after(worked), end);
        law_reopen_counts_nothing(session.after(connected));
        law_request_goes_to_the_transport(session.after(opened));
    } else {
        assert(session.after(completed_and_reopened(ends)) == session);
    }
}

/// The number of connections that ended in a run: the reports that the session answered by asking
/// for a fresh connection, but for the ends of delays.
pub open spec fn ended_connections(session: SessionView, inputs: Seq<InputView>) -> nat
    decreases inputs.len(),
{
    if inputs.len() == 0 {
        0
    } else {
        ended_connections(session, inputs.drop_last()) + if session.after(inputs.drop_last()).step(
            inputs.last(),
        ).1 is Connect && inputs.last() != InputView::Slept {
            1nat
        } else {
            0nat
        }
    }
}

/// Whether nothing in a run shows that a connection works.
pub open spec fn shows_no_progress(inputs: Seq<InputView>) -> bool {
    forall|i: int, j: int|
        #![trigger inputs[i]->Frame_0[j]]
        0 <= i < inputs.len() && inputs[i] is Frame && 0 <= j < inputs[i]->Frame_0.len() ==> !(
        inputs[i]->Frame_0[j] is SetupComplete) && !(inputs[i]->Frame_0[j] is ResumptionHandle)
}

/// Over any run without progress, the failures grow by exactly the connections that ended and the
/// attempts that failed, whatever else is reported and however often the session is reopened.
pub proof fn law_failures_add_up_without_progress(session: SessionView, inputs: Seq<InputView>)
    requires
        session.valid(),
        !session.progressed,
        session.accepts_all(inputs),
        shows_no_progress(inputs),
    ensures
        session.after(inputs).fails == session.fails + ended_connections(session, inputs)
            + crate::laws::failed_attempts(inputs),
        !session.after(inputs).progressed,
    decreases inputs.len(),
{
    if inputs.len() > 0 {
        let last = inputs.len() - 1;
        let front = inputs.drop_last();
        let before = session.after(front);
        assert(inputs.take(last) =~= front);
        crate::laws::lemma_prefix_accepted(session, inputs, last);
        assert forall|i: int, j: int|
            #![trigger front[i]->Frame_0[j]]
            0 <= i < front.len() && front[i] is Frame && 0 <= j
                < front[i]->Frame_0.len() implies !(front[i]->Frame_0[j] is SetupComplete) && !(
        front[i]->Frame_0[j] is ResumptionHandle) by {
            assert(front[i] == inputs[i]);
            assert(!(inputs[i]->Frame_0[j] is SetupComplete));
        }
        law_failures_add_up_without_progress(session, front);
        crate::laws::law_run_keeps_valid(session, front);
        assert(session.after(inputs.take(last)).accepts(inputs[last]));
        law_books_move_only_for_cause(before, inputs.last());
        if let InputView::Frame(said) = inputs.last() {
            crate::laws::law_frame_effect(before, said);
            crate::laws::law_frame_leaves_the_rest(before, said);
            assert forall|j: int| 0 <= j < said.len() implies !(#[trigger] said[j]).is_progress() by {
                assert(!(inputs[last]->Frame_0[j] is SetupComplete));
            }
        }
    }
}

/// The failures in a row over a run: each end of a connection by a close of the peer or the end of
/// the stream, after progress, starts the count over; every other end of a connection and every
/// failed attempt adds one.
pub open spec fn failures_in_a_row(session: SessionView, inputs: Seq<InputView>) -> nat
    decreases inputs.len(),
{
    if inputs.len() == 0 {
        session.fails
    } else {
        let before = session.after(inputs.drop_last());
        let input = inputs.last();
        let ends = before.step(input).1 is Connect && input != InputView::Slept;
        let by_peer = input is Ended || (input matches InputView::Failed(Some(_))) || (
        input is Poll && (before.pending_reconnect matches Some((EndKind::RemoteClose, _))));
        if ends && by_peer && before.progressed {
            0
        } else if ends || crate::laws::is_failed_attempt(input) {
            failures_in_a_row(session, inputs.drop_last()) + 1
        } else {
            failures_in_a_row(session, inputs.drop_last())
        }
    }
}

/// Over any run the session counts exactly the failures in a row; nothing else starts the count
/// over, a reopen least of all.
pub proof fn law_failures_in_a_row_are_counted(session: SessionView, inputs: Seq<InputView>)
    requires
        session.valid(),
        session.accepts_all(inputs),
    ensures
        session.after(inputs).fails == failures_in_a_row(session, inputs),
    decreases inputs.len(),
{
    if inputs.len() > 0 {
        let last = inputs.len() - 1;
        let front = inputs.drop_last();
        assert(inputs.take(last) =~= front);
        crate::laws::lemma_prefix_accepted(session, inputs, last);
        law_failures_in_a_row_are_counted(session, front);
        crate::laws::law_run_keeps_valid(session, front);
        assert(session.after(inputs.take(last)).accepts(inputs[last]));
        law_books_move_only_for_cause(session.after(front), inputs.last());
    }
}

/// Which of the things said reach the caller, and as what, wherever in a frame they stand.
pub proof fn law_surfaced_as_said(
    pcm: Seq<i16>,
    role: Role,
    text: Seq<char>,
    final_: bool,
    name: Seq<char>,
    args: Json,
)
    ensures
        ServerEventView::OutputAudio(pcm).surfaced() == Some(EventView::OutputAudio(pcm)),
        (ServerEventView::Transcript { role, text, final_ }).surfaced() == Some(
            EventView::Transcript { role, text, final_ },
        ),
        (ServerEventView::Affect { role, label: text }).surfaced() == Some(
            EventView::Affect { role, label: text },
        ),
        ServerEventView::Interrupted.surfaced() == Some(EventView::Interrupted),
        ServerEventView::TurnComplete.surfaced() == Some(EventView::TurnComplete),
        (ServerEventView::ToolCall { name, id: text, args }).surfaced() == Some(
            EventView::ToolCall { name, id: text, args },
        ),
        ServerEventView::SetupComplete.surfaced() is None,
        ServerEventView::ResumptionHandle(text).surfaced() is None,
        ServerEventView::GoAway.surfaced() is None,
{
}

/// Nothing that the server says to the caller is confused with anything else: two things said
/// that reach the caller as the same event were the same.
pub proof fn law_events_tell_what_was_said(one: ServerEventView, other: ServerEventView)
    requires
        one.surfaced() is Some,
        one.surfaced() == other.surfaced(),
    ensures
        one == other,
{
}

/// The setup that a session would send at any time is the caller's in every field but the handle,
/// which is the one that the session holds.
pub proof fn law_setup_is_the_callers_with_the_handle(session: SessionView)
    ensures
        session.setup_text() == crate::json::compact_text(
            crate::wire::setup_message(session.next_setup()),
        ),
        session.next_setup().model == session.setup.model,
        session.next_setup().voice == session.setup.voice,
        session.next_setup().language == session.setup.language,
        session.next_setup().system_instruction == session.setup.system_instruction,
        session.next_setup().temperature == session.setup.temperature,
        session.next_setup().goal_schema == session.setup.goal_schema,
        session.next_setup().resume_handle == session.handle,
{
}

} // verus!
