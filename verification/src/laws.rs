//! What holds of a session as a whole.
use crate::json::Json;
use crate::model::{
    ActionView, EndKind, InputView, PhaseView, SessionView, BACKOFF_BASE_MS, BACKOFF_MAX_MS,
    HANDLE_DROP_AFTER, MAX_RECONNECT_ATTEMPTS,
};
use crate::policy::BackoffView;
use crate::types::{CloseReasonView, EventView, ServerEventView, SetupView};
use vstd::prelude::*;

verus! {

/// What the server says touches the pending events, the handle, the progress and the scheduled
/// reconnect, and nothing else.
pub proof fn law_frame_leaves_the_rest(session: SessionView, said: Seq<ServerEventView>)
    ensures
        session.absorbed_all(said) == (SessionView {
            pending: session.absorbed_all(said).pending,
            handle: session.absorbed_all(said).handle,
            progressed: session.absorbed_all(said).progressed,
            pending_reconnect: session.absorbed_all(said).pending_reconnect,
            ..session
        }),
    decreases said.len(),
{
    if said.len() > 0 {
        law_frame_leaves_the_rest(session, said.drop_last());
    }
}

/// Every report that a session accepts keeps it valid.
pub proof fn law_step_keeps_valid(session: SessionView, input: InputView)
    requires
        session.valid(),
        session.accepts(input),
    ensures
        session.step(input).0.valid(),
{
    if let InputView::Frame(said) = input {
        law_frame_leaves_the_rest(session, said);
        lemma_frame_queues_no_close(session, said);
    }
}

pub(crate) proof fn lemma_frame_queues_no_close(session: SessionView, said: Seq<ServerEventView>)
    requires
        forall|i: int|
            0 <= i < session.pending.len() ==> !(#[trigger] session.pending[i] is SessionClosed),
    ensures
        forall|i: int|
            0 <= i < session.absorbed_all(said).pending.len() ==> !(#[trigger] session.absorbed_all(
                said,
            ).pending[i] is SessionClosed),
    decreases said.len(),
{
    if said.len() > 0 {
        lemma_frame_queues_no_close(session, said.drop_last());
    }
}

/// The part of an accepted run up to any report is an accepted run.
pub(crate) proof fn lemma_prefix_accepted(session: SessionView, inputs: Seq<InputView>, count: int)
    requires
        session.accepts_all(inputs),
        0 <= count <= inputs.len(),
    ensures
        session.accepts_all(inputs.take(count)),
        forall|i: int|
            0 <= i < count ==> #[trigger] session.action(inputs.take(count), i) == session.action(
                inputs,
                i,
            ),
{
    let prefix = inputs.take(count);
    assert forall|i: int| 0 <= i < count implies #[trigger] prefix.take(i) == inputs.take(i) by {
        assert(prefix.take(i) =~= inputs.take(i));
    }
    assert forall|i: int| 0 <= i < prefix.len() implies #[trigger] session.after(
        prefix.take(i),
    ).accepts(prefix[i]) by {
        assert(prefix.take(i) == inputs.take(i));
    }
    assert forall|i: int| 0 <= i < count implies #[trigger] session.action(prefix, i)
        == session.action(inputs, i) by {
        assert(prefix.take(i) == inputs.take(i));
    }
}

/// The state after one report more.
proof fn lemma_after_next(session: SessionView, inputs: Seq<InputView>, index: int)
    requires
        0 <= index < inputs.len(),
    ensures
        session.after(inputs.take(index + 1)) == session.after(inputs.take(index)).step(
            inputs[index],
        ).0,
{
    assert(inputs.take(index + 1).drop_last() =~= inputs.take(index));
}

/// A session stays valid over every run of reports that it accepts.
pub proof fn law_run_keeps_valid(session: SessionView, inputs: Seq<InputView>)
    requires
        session.valid(),
        session.accepts_all(inputs),
    ensures
        session.after(inputs).valid(),
    decreases inputs.len(),
{
    if inputs.len() > 0 {
        let last = inputs.len() - 1;
        lemma_prefix_accepted(session, inputs, last);
        assert(inputs.take(last) =~= inputs.drop_last());
        law_run_keeps_valid(session, inputs.drop_last());
        assert(session.after(inputs.take(last)).accepts(inputs[last]));
        law_step_keeps_valid(session.after(inputs.drop_last()), inputs.last());
    }
}

/// Whether an action hands the final event to the caller.
pub open spec fn closes(action: ActionView) -> bool {
    action matches ActionView::Return(Some(EventView::SessionClosed { .. }))
}

/// A session closes for good only by telling so.
proof fn lemma_terminal_was_told(session: SessionView, inputs: Seq<InputView>)
    requires
        session.valid(),
        !session.terminal,
        session.accepts_all(inputs),
        session.after(inputs).terminal,
    ensures
        exists|i: int| 0 <= i < inputs.len() && closes(#[trigger] session.action(inputs, i)),
    decreases inputs.len(),
{
    if inputs.len() > 0 {
        let last = inputs.len() - 1;
        lemma_prefix_accepted(session, inputs, last);
        assert(inputs.take(last) =~= inputs.drop_last());
        let before = session.after(inputs.drop_last());
        if before.terminal {
            lemma_terminal_was_told(session, inputs.drop_last());
            let i = choose|i: int|
                0 <= i < last && closes(#[trigger] session.action(inputs.drop_last(), i));
            assert(closes(session.action(inputs, i)));
        } else {
            if let InputView::Frame(said) = inputs.last() {
                law_frame_leaves_the_rest(before, said);
            }
            assert(closes(session.action(inputs, last)));
        }
    }
}

/// The stream ends only after `SessionClosed` has been handed out.
pub proof fn law_stream_ends_only_after_closed(
    session: SessionView,
    inputs: Seq<InputView>,
    index: int,
)
    requires
        session.valid(),
        !session.terminal,
        session.accepts_all(inputs),
        0 <= index < inputs.len(),
        session.action(inputs, index) == ActionView::Return(None),
    ensures
        exists|i: int| 0 <= i < index && closes(#[trigger] session.action(inputs, i)),
{
    lemma_prefix_accepted(session, inputs, index);
    let before = session.after(inputs.take(index));
    law_run_keeps_valid(session, inputs.take(index));
    if let InputView::Frame(said) = inputs[index] {
        law_frame_leaves_the_rest(before, said);
    }
    assert(before.terminal);
    lemma_terminal_was_told(session, inputs.take(index));
    let i = choose|i: int|
        0 <= i < index && closes(#[trigger] session.action(inputs.take(index), i));
    assert(closes(session.action(inputs, i)));
}

/// After `SessionClosed` nothing comes: every later request ends the stream.
pub proof fn law_nothing_follows_closed(
    session: SessionView,
    inputs: Seq<InputView>,
    closed: int,
    later: int,
)
    requires
        session.valid(),
        session.accepts_all(inputs),
        0 <= closed < later < inputs.len(),
        closes(session.action(inputs, closed)),
    ensures
        inputs[later] is Poll,
        session.action(inputs, later) == ActionView::Return(None),
        session.after(inputs.take(later)).terminal,
    decreases later,
{
    let before = session.after(inputs.take(later - 1));
    lemma_prefix_accepted(session, inputs, later - 1);
    law_run_keeps_valid(session, inputs.take(later - 1));
    lemma_after_next(session, inputs, later - 1);
    assert(before.accepts(inputs[later - 1]));
    assert(session.after(inputs.take(later)).accepts(inputs[later]));
    if closed == later - 1 {
        if let InputView::Frame(said) = inputs[closed] {
            law_frame_leaves_the_rest(before, said);
            lemma_frame_queues_no_close(before, said);
        }
        assert(before.step(inputs[closed]).0.terminal);
    } else {
        law_nothing_follows_closed(session, inputs, closed, later - 1);
    }
    law_step_keeps_valid(before, inputs[later - 1]);
}

/// A session whose first setup was sent announces it first, as no reconnect.
pub proof fn law_first_open_is_announced_first(setup: SetupView)
    ensures
        ({
            let opened = SessionView::initial(setup).opened(false);
            &&& opened.valid()
            &&& opened.accepts(InputView::Poll)
            &&& opened.step(InputView::Poll).1 == ActionView::Return(
                Some(EventView::SessionOpened { is_reconnect: false }),
            )
        }),
{
}

/// Whether an event announces the very first open.
pub open spec fn announces_first_open(event: EventView) -> bool {
    event == (EventView::SessionOpened { is_reconnect: false })
}

proof fn lemma_frame_queues_no_first_open(session: SessionView, said: Seq<ServerEventView>)
    requires
        forall|i: int|
            0 <= i < session.pending.len() ==> !announces_first_open(#[trigger] session.pending[i]),
    ensures
        forall|i: int|
            0 <= i < session.absorbed_all(said).pending.len() ==> !announces_first_open(
                #[trigger] session.absorbed_all(said).pending[i],
            ),
    decreases said.len(),
{
    if said.len() > 0 {
        lemma_frame_queues_no_first_open(session, said.drop_last());
    }
}

proof fn lemma_first_open_not_queued_again(session: SessionView, inputs: Seq<InputView>)
    requires
        session.valid(),
        session.pending.len() == 0 || session.pending == seq![
            EventView::SessionOpened { is_reconnect: false },
        ],
        session.accepts_all(inputs),
        inputs.len() > 0,
        inputs[0] is Poll,
    ensures
        forall|i: int|
            0 <= i < session.after(inputs).pending.len() ==> !announces_first_open(
                #[trigger] session.after(inputs).pending[i],
            ),
    decreases inputs.len(),
{
    let last = inputs.len() - 1;
    assert(inputs.take(last) =~= inputs.drop_last());
    let before = session.after(inputs.drop_last());
    if last > 0 {
        lemma_prefix_accepted(session, inputs, last);
        lemma_first_open_not_queued_again(session, inputs.drop_last());
        if let InputView::Frame(said) = inputs.last() {
            lemma_frame_queues_no_first_open(before, said);
        }
    }
}

/// The first open is announced once, by the first event: every later `SessionOpened` is a
/// reconnect.
pub proof fn law_later_opens_are_reconnects(
    setup: SetupView,
    inputs: Seq<InputView>,
    index: int,
)
    requires
        SessionView::initial(setup).opened(false).accepts_all(inputs),
        0 < index < inputs.len(),
    ensures
        SessionView::initial(setup).opened(false).action(inputs, index) != ActionView::Return(
            Some(EventView::SessionOpened { is_reconnect: false }),
        ),
{
    let opened = SessionView::initial(setup).opened(false);
    assert(opened.pending =~= seq![EventView::SessionOpened { is_reconnect: false }]);
    assert(inputs.take(0) =~= Seq::empty());
    assert(opened.after(inputs.take(0)).accepts(inputs[0]));
    lemma_prefix_accepted(opened, inputs, index);
    lemma_first_open_not_queued_again(opened, inputs.take(index));
    let before = opened.after(inputs.take(index));
    if let InputView::Frame(said) = inputs[index] {
        lemma_frame_queues_no_first_open(before, said);
    }
}

/// A setup that was sent on a fresh connection is announced at once, as a reconnect.
pub proof fn law_reopen_is_announced_at_once(session: SessionView)
    requires
        session.valid(),
        session.phase is Reopening,
    ensures
        session.accepts(InputView::SetupSent(true)),
        session.step(InputView::SetupSent(true)).1 == ActionView::Return(
            Some(EventView::SessionOpened { is_reconnect: true }),
        ),
{
}

/// A frame that cannot be read changes nothing: the session waits for the next one.
pub proof fn law_malformed_frame_is_skipped(session: SessionView)
    requires
        session.valid(),
        session.phase is Receiving,
    ensures
        session.accepts(InputView::Malformed),
        session.step(InputView::Malformed) == (session, ActionView::Receive),
{
}

/// The transport is read only when every event has been handed out, the session is not closed
/// and no reconnect is due.
pub proof fn law_events_go_before_frames(session: SessionView, input: InputView)
    requires
        session.valid(),
        session.accepts(input),
        session.step(input).1 is Receive,
    ensures
        ({
            let next = session.step(input).0;
            next.pending.len() == 0 && next.pending_reconnect is None && !next.terminal
        }),
{
    law_step_keeps_valid(session, input);
}

/// A request for the next event in the middle of a reconnect, after the request that started it
/// was abandoned, forgets that reconnect and goes back to the transport.
pub proof fn law_abandoned_reconnect_is_forgotten(session: SessionView)
    requires
        session.valid(),
        session.phase.reconnecting(),
    ensures
        session.accepts(InputView::Poll),
        session.step(InputView::Poll) == (
            SessionView { phase: PhaseView::Receiving, ..session },
            ActionView::Receive,
        ),
{
}

/// The events that reach the caller of what a frame says, in its order.
pub open spec fn surfaced_all(said: Seq<ServerEventView>) -> Seq<EventView> {
    said.filter(|one: ServerEventView| one.surfaced() is Some).map_values(
        |one: ServerEventView| one.surfaced()->0,
    )
}

/// What a frame does: its events queue up behind those that wait, in its order; its last handle
/// is stored; a completed setup or a handle is progress; an announced close schedules a
/// reconnect.
pub proof fn law_frame_effect(session: SessionView, said: Seq<ServerEventView>)
    ensures
        session.absorbed_all(said).pending == session.pending + surfaced_all(said),
        forall|i: int|
            0 <= i < said.len() && #[trigger] said[i] is ResumptionHandle && (forall|j: int|
                i < j < said.len() ==> !(#[trigger] said[j] is ResumptionHandle))
                ==> session.absorbed_all(said).handle == Some(said[i]->ResumptionHandle_0),
        (forall|i: int| 0 <= i < said.len() ==> !(#[trigger] said[i] is ResumptionHandle))
            ==> session.absorbed_all(said).handle == session.handle,
        session.absorbed_all(said).progressed <==> session.progressed || exists|i: int|
            0 <= i < said.len() && (#[trigger] said[i]).is_progress(),
        session.absorbed_all(said).pending_reconnect == if said.contains(ServerEventView::GoAway) {
            Some((EndKind::Resumable, CloseReasonView::synthetic("goAway"@)))
        } else {
            session.pending_reconnect
        },
    decreases said.len(),
{
    reveal(Seq::filter);
    if said.len() == 0 {
        assert(surfaced_all(said) =~= Seq::empty());
        assert(session.pending + surfaced_all(said) =~= session.pending);
    } else {
        let front = said.drop_last();
        let last = said.last();
        let before = session.absorbed_all(front);
        law_frame_effect(session, front);
        match last.surfaced() {
            Some(event) => {
                assert(surfaced_all(said) =~= surfaced_all(front).push(event));
                assert(session.pending + surfaced_all(said) =~= (session.pending + surfaced_all(
                    front,
                )).push(event));
            },
            None => {
                assert(surfaced_all(said) =~= surfaced_all(front));
            },
        }
        assert forall|i: int|
            0 <= i < said.len() && #[trigger] said[i] is ResumptionHandle && (forall|j: int|
                i < j < said.len() ==> !(#[trigger] said[j] is ResumptionHandle)) implies session.absorbed_all(
            said,
        ).handle == Some(said[i]->ResumptionHandle_0) by {
            if i < front.len() {
                assert(front[i] == said[i]);
                assert(!(said[said.len() - 1] is ResumptionHandle));
                assert forall|j: int| i < j < front.len() implies !(
                #[trigger] front[j] is ResumptionHandle) by {
                    assert(front[j] == said[j]);
                }
            }
        }
        if forall|i: int| 0 <= i < said.len() ==> !(#[trigger] said[i] is ResumptionHandle) {
            assert(!(said[said.len() - 1] is ResumptionHandle));
            assert forall|j: int| 0 <= j < front.len() implies !(
            #[trigger] front[j] is ResumptionHandle) by {
                assert(front[j] == said[j]);
            }
        }
        if exists|i: int| 0 <= i < front.len() && (#[trigger] front[i]).is_progress() {
            let i = choose|i: int| 0 <= i < front.len() && (#[trigger] front[i]).is_progress();
            assert(said[i].is_progress());
        } else if exists|i: int| 0 <= i < said.len() && (#[trigger] said[i]).is_progress() {
            let i = choose|i: int| 0 <= i < said.len() && (#[trigger] said[i]).is_progress();
            assert(i < front.len() ==> front[i].is_progress());
        }
        assert(last == said[said.len() - 1]);
        assert(said.contains(ServerEventView::GoAway) <==> front.contains(ServerEventView::GoAway)
            || last is GoAway) by {
            if front.contains(ServerEventView::GoAway) {
                let i = choose|i: int| 0 <= i < front.len() && front[i] == ServerEventView::GoAway;
                assert(said[i] == front[i]);
            }
            if last is GoAway {
                assert(said[said.len() - 1] == ServerEventView::GoAway);
            }
            if said.contains(ServerEventView::GoAway) && !(last is GoAway) {
                let i = choose|i: int| 0 <= i < said.len() && said[i] == ServerEventView::GoAway;
                assert(front[i] == said[i]);
            }
        }
    }
}

/// A frame, and then a request for the next event for each event of it that reaches the caller.
pub open spec fn frame_and_polls(said: Seq<ServerEventView>) -> Seq<InputView> {
    seq![InputView::Frame(said)] + Seq::new(
        surfaced_all(said).len(),
        |i: int| InputView::Poll,
    )
}

proof fn lemma_drain(session: SessionView, said: Seq<ServerEventView>, count: int)
    requires
        session.valid(),
        session.phase is Receiving,
        0 < count <= surfaced_all(said).len(),
    ensures
        session.after(frame_and_polls(said).take(count)) == (SessionView {
            pending: surfaced_all(said).skip(count),
            phase: PhaseView::Idle,
            ..session.absorbed_all(said)
        }),
    decreases count,
{
    let inputs = frame_and_polls(said);
    let events = surfaced_all(said);
    law_frame_leaves_the_rest(session, said);
    law_frame_effect(session, said);
    assert(session.pending + events =~= events);
    lemma_after_next(session, inputs, count - 1);
    if count == 1 {
        assert(inputs.take(0) =~= Seq::empty());
        assert(events.drop_first() =~= events.skip(1));
    } else {
        lemma_drain(session, said, count - 1);
        assert(inputs[count - 1] == InputView::Poll);
        assert(events.skip(count - 1).drop_first() =~= events.skip(count));
    }
}

/// The events of a frame reach the caller one by one, in its order. Only then does the session
/// go on: to a fresh connection where the frame announced a close, else to the next frame.
pub proof fn law_frame_is_handed_out_in_order(
    session: SessionView,
    said: Seq<ServerEventView>,
    index: int,
)
    requires
        session.valid(),
        session.phase is Receiving,
        said.contains(ServerEventView::GoAway) ==> session.fails < u32::MAX,
        0 <= index <= surfaced_all(said).len(),
    ensures
        session.accepts_all(frame_and_polls(said)),
        session.action(frame_and_polls(said), index) == if index < surfaced_all(said).len() {
            ActionView::Return(Some(surfaced_all(said)[index]))
        } else if said.contains(ServerEventView::GoAway) {
            ActionView::Connect
        } else {
            ActionView::Receive
        },
{
    let inputs = frame_and_polls(said);
    let events = surfaced_all(said);
    law_frame_leaves_the_rest(session, said);
    law_frame_effect(session, said);
    assert(session.pending + events =~= events);
    assert(inputs.take(0) =~= Seq::empty());
    assert forall|i: int| 0 <= i < inputs.len() implies #[trigger] session.after(
        inputs.take(i),
    ).accepts(inputs[i]) by {
        if i > 0 {
            lemma_drain(session, said, i);
            assert(inputs[i] == InputView::Poll);
        }
    }
    if index > 0 {
        lemma_drain(session, said, index);
        assert(inputs[index] == InputView::Poll);
    }
}

/// Whether a report says that an attempt to reconnect failed.
pub open spec fn is_failed_attempt(input: InputView) -> bool {
    input == InputView::Connected(false) || input == InputView::SetupSent(false)
}

/// The number of failed attempts to reconnect in a run of reports.
pub open spec fn failed_attempts(inputs: Seq<InputView>) -> nat
    decreases inputs.len(),
{
    if inputs.len() == 0 {
        0
    } else {
        failed_attempts(inputs.drop_last()) + if is_failed_attempt(inputs.last()) {
            1nat
        } else {
            0nat
        }
    }
}

/// Whether a run of reports is a reconnect that never succeeds: no setup gets through, and the
/// caller does not abandon the wait.
pub open spec fn never_reconnects(inputs: Seq<InputView>) -> bool {
    forall|i: int|
        0 <= i < inputs.len() ==> #[trigger] inputs[i] != InputView::SetupSent(true)
            && inputs[i] != InputView::Poll
}

/// The backoff of a session.
pub open spec fn backoff_of(session: SessionView) -> BackoffView {
    BackoffView {
        current_ms: session.delay_ms,
        base_ms: BACKOFF_BASE_MS as nat,
        max_ms: BACKOFF_MAX_MS as nat,
    }
}

proof fn lemma_failing_reconnect(session: SessionView, inputs: Seq<InputView>)
    requires
        session.valid(),
        session.phase is Connecting,
        session.phase.attempts() == 0,
        session.accepts_all(inputs),
        never_reconnects(inputs),
    ensures
        ({
            let failed = failed_attempts(inputs);
            let after = session.after(inputs);
            &&& failed <= MAX_RECONNECT_ATTEMPTS
            &&& after.fails == session.fails + failed
            &&& after.handle == if failed > 0 && session.fails + failed >= HANDLE_DROP_AFTER {
                None
            } else {
                session.handle
            }
            &&& after.setup == session.setup
            &&& failed < MAX_RECONNECT_ATTEMPTS ==> {
                &&& after.phase.reconnecting()
                &&& after.phase.attempts() == failed
                &&& after.phase.reason() == session.phase.reason()
                &&& !after.terminal
                &&& after.delay_ms == backoff_of(session).advanced_by(failed).current_ms
            }
            &&& failed == MAX_RECONNECT_ATTEMPTS ==> {
                &&& after.terminal
                &&& after.phase is Idle
                &&& session.action(inputs, inputs.len() - 1) == ActionView::Return(
                    Some(EventView::SessionClosed { reason: session.phase.reason() }),
                )
            }
        }),
    decreases inputs.len(),
{
    if inputs.len() > 0 {
        let last = inputs.len() - 1;
        let front = inputs.drop_last();
        assert(inputs.take(last) =~= front);
        lemma_prefix_accepted(session, inputs, last);
        assert forall|i: int| 0 <= i < front.len() implies #[trigger] front[i]
            != InputView::SetupSent(true) && front[i] != InputView::Poll by {
            assert(front[i] == inputs[i]);
        }
        lemma_failing_reconnect(session, front);
        law_run_keeps_valid(session, front);
        assert(session.after(inputs.take(last)).accepts(inputs[last]));
        lemma_advanced_by_keeps_bounds(backoff_of(session), failed_attempts(front));
    }
}

proof fn lemma_advanced_by_keeps_bounds(backoff: BackoffView, steps: nat)
    ensures
        backoff.advanced_by(steps).base_ms == backoff.base_ms,
        backoff.advanced_by(steps).max_ms == backoff.max_ms,
    decreases steps,
{
    if steps > 0 {
        lemma_advanced_by_keeps_bounds(backoff, (steps - 1) as nat);
    }
}

/// A reconnect is given up at exactly the eighth failed attempt, with the reason for which the
/// connection had ended; until then the session keeps trying. A setup that cannot be sent on a
/// fresh connection is a failed attempt like any other.
pub proof fn law_reconnect_is_given_up_at_the_limit(session: SessionView, inputs: Seq<InputView>)
    requires
        session.valid(),
        session.phase is Connecting,
        session.phase.attempts() == 0,
        session.accepts_all(inputs),
        never_reconnects(inputs),
    ensures
        failed_attempts(inputs) <= MAX_RECONNECT_ATTEMPTS,
        session.after(inputs).terminal <==> failed_attempts(inputs) == MAX_RECONNECT_ATTEMPTS,
        failed_attempts(inputs) < MAX_RECONNECT_ATTEMPTS ==> session.after(
            inputs,
        ).phase.reconnecting(),
        failed_attempts(inputs) == MAX_RECONNECT_ATTEMPTS ==> session.action(
            inputs,
            inputs.len() - 1,
        ) == ActionView::Return(Some(EventView::SessionClosed { reason: session.phase.reason() })),
{
    lemma_failing_reconnect(session, inputs);
}

/// Each failed attempt counts as one more failure in a row, and the handle is gone exactly when
/// there are four of them or more; with fewer it is untouched.
pub proof fn law_stale_handle_is_dropped(session: SessionView, inputs: Seq<InputView>)
    requires
        session.valid(),
        session.phase is Connecting,
        session.phase.attempts() == 0,
        session.accepts_all(inputs),
        never_reconnects(inputs),
        failed_attempts(inputs) > 0,
    ensures
        session.after(inputs).fails == session.fails + failed_attempts(inputs),
        session.after(inputs).fails >= HANDLE_DROP_AFTER ==> session.after(inputs).handle is None,
        session.after(inputs).fails < HANDLE_DROP_AFTER ==> session.after(inputs).handle
            == session.handle,
{
    lemma_failing_reconnect(session, inputs);
}

/// The delay that follows the n-th failed attempt of a reconnect is the n-th of the backoff, and
/// no attempt but the last goes without one.
pub proof fn law_delays_follow_the_backoff(
    session: SessionView,
    inputs: Seq<InputView>,
    index: int,
)
    requires
        session.valid(),
        session.phase is Connecting,
        session.phase.attempts() == 0,
        session.accepts_all(inputs),
        never_reconnects(inputs),
        0 <= index < inputs.len(),
        is_failed_attempt(inputs[index]),
        failed_attempts(inputs.take(index)) + 1 < MAX_RECONNECT_ATTEMPTS,
    ensures
        session.action(inputs, index) == ActionView::Sleep(
            backoff_of(session).advanced_by(failed_attempts(inputs.take(index))).current_ms
                * 1_000_000,
        ),
{
    let front = inputs.take(index);
    lemma_prefix_accepted(session, inputs, index);
    assert forall|i: int| 0 <= i < front.len() implies #[trigger] front[i] != InputView::SetupSent(
        true,
    ) && front[i] != InputView::Poll by {
        assert(front[i] == inputs[i]);
    }
    lemma_failing_reconnect(session, front);
}

proof fn lemma_attempts_are_counted(session: SessionView, inputs: Seq<InputView>)
    requires
        session.valid(),
        !session.phase.reconnecting(),
        session.accepts_all(inputs),
    ensures
        session.after(inputs).phase.attempts() <= failed_attempts(inputs),
    decreases inputs.len(),
{
    if inputs.len() > 0 {
        let last = inputs.len() - 1;
        assert(inputs.take(last) =~= inputs.drop_last());
        lemma_prefix_accepted(session, inputs, last);
        lemma_attempts_are_counted(session, inputs.drop_last());
    }
}

/// `SessionClosed` never comes before eight attempts to reconnect have failed.
pub proof fn law_closed_only_after_exhausted_attempts(
    session: SessionView,
    inputs: Seq<InputView>,
    index: int,
)
    requires
        session.valid(),
        !session.phase.reconnecting(),
        session.accepts_all(inputs),
        0 <= index < inputs.len(),
        closes(session.action(inputs, index)),
    ensures
        failed_attempts(inputs.take(index + 1)) >= MAX_RECONNECT_ATTEMPTS,
{
    lemma_prefix_accepted(session, inputs, index);
    law_run_keeps_valid(session, inputs.take(index));
    lemma_attempts_are_counted(session, inputs.take(index));
    let before = session.after(inputs.take(index));
    if let InputView::Frame(said) = inputs[index] {
        law_frame_leaves_the_rest(before, said);
        lemma_frame_queues_no_close(before, said);
    }
    assert(inputs.take(index + 1).drop_last() =~= inputs.take(index));
}

/// A connection that the peer closed after it had made progress counts as a success: failures
/// and delays start over and the handle stays. Every other end is one more failure, and the delay
/// stays where it was.
pub proof fn law_progress_ends_the_escalation(
    session: SessionView,
    end: EndKind,
    reason: CloseReasonView,
)
    requires
        session.valid(),
        session.phase is Idle,
        session.pending.len() == 0,
        session.pending_reconnect == Some((end, reason)),
        session.accepts(InputView::Poll),
    ensures
        ({
            let (next, action) = session.step(InputView::Poll);
            &&& action is Connect
            &&& next.phase == (PhaseView::Connecting { attempts: 0, reason })
            &&& !next.progressed
            &&& end is RemoteClose && session.progressed ==> next.fails == 0 && next.delay_ms
                == BACKOFF_BASE_MS && next.handle == session.handle
            &&& !(end is RemoteClose && session.progressed) ==> next.fails == session.fails + 1
                && next.delay_ms == session.delay_ms && next.handle == if session.fails + 1
                >= HANDLE_DROP_AFTER {
                None
            } else {
                session.handle
            }
        }),
{
}

/// Every setup that is sent on a fresh connection is the caller's, with the handle that the
/// session holds at that moment in the place for it.
pub proof fn law_reopened_setup_carries_the_handle(session: SessionView)
    requires
        session.valid(),
        session.phase is Connecting,
    ensures
        session.accepts(InputView::Connected(true)),
        session.step(InputView::Connected(true)).1 == ActionView::SendSetup(
            crate::json::compact_text(
                crate::wire::setup_message(
                    SetupView { resume_handle: session.handle, ..session.setup },
                ),
            ),
        ),
        crate::wire::setup_body(
            SetupView { resume_handle: session.handle, ..session.setup },
        ).member("sessionResumption"@) == Some(
            Json::single("handle"@, crate::wire::handle_document(session.handle)),
        ),
{
    crate::setup_laws::law_handle_is_carried(session.next_setup());
}

/// The first setup is the caller's own, with the handle that it came with.
pub proof fn law_first_setup_is_the_callers(setup: SetupView)
    ensures
        SessionView::initial(setup).setup_text() == crate::json::compact_text(
            crate::wire::setup_message(setup),
        ),
{
}

/// The last handle that a frame issues, `held` where it issues none.
pub open spec fn handle_of_frame(held: Option<Seq<char>>, said: Seq<ServerEventView>) -> Option<
    Seq<char>,
>
    decreases said.len(),
{
    if said.len() == 0 {
        held
    } else {
        match said.last() {
            ServerEventView::ResumptionHandle(handle) => Some(handle),
            _ => handle_of_frame(held, said.drop_last()),
        }
    }
}

/// The last handle that the server issued in a run of reports, `held` where it issued none.
pub open spec fn latest_handle(held: Option<Seq<char>>, inputs: Seq<InputView>) -> Option<Seq<char>>
    decreases inputs.len(),
{
    if inputs.len() == 0 {
        held
    } else {
        let before = latest_handle(held, inputs.drop_last());
        match inputs.last() {
            InputView::Frame(said) => handle_of_frame(before, said),
            _ => before,
        }
    }
}

proof fn lemma_frame_stores_its_handle(
    session: SessionView,
    held: Option<Seq<char>>,
    said: Seq<ServerEventView>,
)
    ensures
        session.handle == held ==> session.absorbed_all(said).handle == handle_of_frame(held, said),
        session.handle is None ==> (session.absorbed_all(said).handle is None
            || session.absorbed_all(said).handle == handle_of_frame(held, said)),
    decreases said.len(),
{
    if said.len() > 0 {
        lemma_frame_stores_its_handle(session, held, said.drop_last());
    }
}

proof fn lemma_handle_over_a_run(session: SessionView, inputs: Seq<InputView>)
    requires
        session.valid(),
        session.accepts_all(inputs),
    ensures
        ({
            let after = session.after(inputs);
            let latest = latest_handle(session.handle, inputs);
            &&& after.setup == session.setup
            &&& after.handle is None || after.handle == latest
            &&& (forall|count: int|
                0 <= count <= inputs.len() ==> (#[trigger] session.after(inputs.take(count))).fails
                    < HANDLE_DROP_AFTER) ==> after.handle == latest
        }),
    decreases inputs.len(),
{
    if inputs.len() > 0 {
        let last = inputs.len() - 1;
        let front = inputs.drop_last();
        let before = session.after(front);
        assert(inputs.take(last) =~= front);
        lemma_prefix_accepted(session, inputs, last);
        law_run_keeps_valid(session, front);
        assert(session.after(inputs.take(last)).accepts(inputs[last]));
        lemma_handle_over_a_run(session, front);
        let held = latest_handle(session.handle, front);
        if let InputView::Frame(said) = inputs.last() {
            law_frame_leaves_the_rest(before, said);
            lemma_frame_stores_its_handle(before, held, said);
        }
        if forall|count: int|
            0 <= count <= inputs.len() ==> (#[trigger] session.after(inputs.take(count))).fails
                < HANDLE_DROP_AFTER {
            assert forall|count: int| 0 <= count <= front.len() implies (#[trigger] session.after(
                front.take(count),
            )).fails < HANDLE_DROP_AFTER by {
                assert(front.take(count) =~= inputs.take(count));
            }
            assert(inputs.take(inputs.len() as int) =~= inputs);
            assert(session.after(inputs.take(inputs.len() as int)).fails < HANDLE_DROP_AFTER);
        }
    }
}

/// Over any run of reports, each setup that is sent resumes with the last handle that the server
/// issued, or with none; and with that handle for certain while there have never been four
/// failures in a row. The rest of the setup is always the caller's.
pub proof fn law_setups_resume_with_the_latest_handle(
    session: SessionView,
    inputs: Seq<InputView>,
    index: int,
)
    requires
        session.valid(),
        session.accepts_all(inputs),
        0 <= index < inputs.len(),
        session.action(inputs, index) is SendSetup,
    ensures
        ({
            let held = session.after(inputs.take(index)).handle;
            let latest = latest_handle(session.handle, inputs.take(index));
            &&& session.action(inputs, index) == ActionView::SendSetup(
                crate::json::compact_text(
                    crate::wire::setup_message(
                        SetupView { resume_handle: held, ..session.setup },
                    ),
                ),
            )
            &&& held is None || held == latest
            &&& (forall|count: int|
                0 <= count <= index ==> (#[trigger] session.after(inputs.take(count))).fails
                    < HANDLE_DROP_AFTER) ==> held == latest
        }),
{
    let front = inputs.take(index);
    lemma_prefix_accepted(session, inputs, index);
    law_run_keeps_valid(session, front);
    lemma_handle_over_a_run(session, front);
    if let InputView::Frame(said) = inputs[index] {
        law_frame_leaves_the_rest(session.after(front), said);
    }
    if forall|count: int|
        0 <= count <= index ==> (#[trigger] session.after(inputs.take(count))).fails
            < HANDLE_DROP_AFTER {
        assert forall|count: int| 0 <= count <= front.len() implies (#[trigger] session.after(
            front.take(count),
        )).fails < HANDLE_DROP_AFTER by {
            assert(front.take(count) =~= inputs.take(count));
        }
    }
}

/// A report that counts a failure, the fourth in a row or a later one, leaves no handle; and a
/// session loses its handle in no other way.
pub proof fn law_handle_goes_with_the_fourth_failure(session: SessionView, input: InputView)
    requires
        session.valid(),
        session.accepts(input),
    ensures
        ({
            let next = session.step(input).0;
            &&& session.counts_failure(input) <==> next.fails == session.fails + 1
            &&& session.counts_failure(input) && next.fails >= HANDLE_DROP_AFTER
                ==> next.handle is None
            &&& session.handle is Some && next.handle is None ==> session.counts_failure(input)
                && next.fails >= HANDLE_DROP_AFTER
        }),
{
    if let InputView::Frame(said) = input {
        law_frame_leaves_the_rest(session, said);
        lemma_frame_keeps_a_handle(session, said);
    }
}

proof fn lemma_frame_keeps_a_handle(session: SessionView, said: Seq<ServerEventView>)
    ensures
        session.handle is Some ==> session.absorbed_all(said).handle is Some,
    decreases said.len(),
{
    if said.len() > 0 {
        lemma_frame_keeps_a_handle(session, said.drop_last());
    }
}

/// Whether two things that the server says are the same, but perhaps for the text of a handle.
pub open spec fn same_but_handle(one: ServerEventView, other: ServerEventView) -> bool {
    one == other || (one is ResumptionHandle && other is ResumptionHandle)
}

/// Whether two reports are the same, but perhaps for the text of handles.
pub open spec fn same_report_but_handles(one: InputView, other: InputView) -> bool {
    match (one, other) {
        (InputView::Frame(said), InputView::Frame(other_said)) => {
            &&& said.len() == other_said.len()
            &&& forall|i: int|
                0 <= i < said.len() ==> same_but_handle(#[trigger] said[i], other_said[i])
        },
        _ => one == other,
    }
}

/// Whether two sessions are in the same state, but perhaps for the handle.
pub open spec fn same_session_but_handle(one: SessionView, other: SessionView) -> bool {
    one == (SessionView {
        setup: SetupView { resume_handle: one.setup.resume_handle, ..other.setup },
        handle: one.handle,
        ..other
    })
}

proof fn lemma_frames_with_other_handles(
    one: SessionView,
    other: SessionView,
    said: Seq<ServerEventView>,
    other_said: Seq<ServerEventView>,
)
    requires
        same_session_but_handle(one, other),
        same_report_but_handles(InputView::Frame(said), InputView::Frame(other_said)),
    ensures
        same_session_but_handle(one.absorbed_all(said), other.absorbed_all(other_said)),
    decreases said.len(),
{
    if said.len() > 0 {
        let front = said.drop_last();
        let other_front = other_said.drop_last();
        assert forall|i: int| 0 <= i < front.len() implies same_but_handle(
            #[trigger] front[i],
            other_front[i],
        ) by {
            assert(front[i] == said[i]);
        }
        lemma_frames_with_other_handles(one, other, front, other_front);
        assert(same_but_handle(said[said.len() - 1], other_said[said.len() - 1]));
    }
}

proof fn lemma_runs_with_other_handles(
    one: SessionView,
    other: SessionView,
    inputs: Seq<InputView>,
    other_inputs: Seq<InputView>,
)
    requires
        same_session_but_handle(one, other),
        inputs.len() == other_inputs.len(),
        forall|i: int|
            0 <= i < inputs.len() ==> same_report_but_handles(
                #[trigger] inputs[i],
                other_inputs[i],
            ),
    ensures
        same_session_but_handle(one.after(inputs), other.after(other_inputs)),
    decreases inputs.len(),
{
    if inputs.len() > 0 {
        let front = inputs.drop_last();
        let other_front = other_inputs.drop_last();
        assert forall|i: int| 0 <= i < front.len() implies same_report_but_handles(
            #[trigger] front[i],
            other_front[i],
        ) by {
            assert(front[i] == inputs[i]);
        }
        lemma_runs_with_other_handles(one, other, front, other_front);
        assert(same_report_but_handles(inputs[inputs.len() - 1], other_inputs[inputs.len() - 1]));
        if let InputView::Frame(said) = inputs.last() {
            lemma_frames_with_other_handles(
                one.after(front),
                other.after(other_front),
                said,
                other_inputs.last()->Frame_0,
            );
        }
    }
}

/// The handle is never handed out: two runs that differ only in the handles that the sessions
/// start with and the server issues ask for the same things, event by event, but for the text of
/// the setups that they send.
pub proof fn law_handle_is_never_handed_out(
    one: SessionView,
    other: SessionView,
    inputs: Seq<InputView>,
    other_inputs: Seq<InputView>,
    index: int,
)
    requires
        same_session_but_handle(one, other),
        inputs.len() == other_inputs.len(),
        forall|i: int|
            0 <= i < inputs.len() ==> same_report_but_handles(
                #[trigger] inputs[i],
                other_inputs[i],
            ),
        0 <= index < inputs.len(),
    ensures
        one.action(inputs, index) == other.action(other_inputs, index) || (one.action(
            inputs,
            index,
        ) is SendSetup && other.action(other_inputs, index) is SendSetup),
{
    let front = inputs.take(index);
    let other_front = other_inputs.take(index);
    assert forall|i: int| 0 <= i < front.len() implies same_report_but_handles(
        #[trigger] front[i],
        other_front[i],
    ) by {
        assert(front[i] == inputs[i]);
    }
    lemma_runs_with_other_handles(one, other, front, other_front);
    assert(same_report_but_handles(inputs[index], other_inputs[index]));
    if let InputView::Frame(said) = inputs[index] {
        lemma_frames_with_other_handles(
            one.after(front),
            other.after(other_front),
            said,
            other_inputs[index]->Frame_0,
        );
    }
}

} // verus!
