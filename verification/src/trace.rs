//! What holds of every run of a cell.
//!
//! A run is the fold of [`react`] over a sequence of events. The laws here
//! speak of whole runs: the terminal message comes last, output reaches the
//! UI unchanged, and an interrupt ends the cell cancelled after at most two
//! timeouts.
use crate::cell::{react, CellView, EventView, Phase};
use crate::channel::terminal_only_last;
use crate::message::{CellState, FrontendMessageView, ServerMessageView, Stream};
use vstd::prelude::*;

verus! {

/// Where a run has led: the state of the cell and every message it
/// emitted, in order.
pub struct Trace {
    pub cell: CellView,
    pub messages: Seq<ServerMessageView>,
}

/// The run of `cell` over `events`, first event first.
pub open spec fn run(cell: CellView, events: Seq<EventView>) -> Trace
    decreases events.len(),
{
    if events.len() == 0 {
        Trace { cell, messages: Seq::empty() }
    } else {
        let before = run(cell, events.drop_last());
        let step = react(before.cell, events.last());
        Trace { cell: step.next, messages: before.messages + step.messages }
    }
}

/// The bytes that `message` carries for `stream`.
pub open spec fn chunk_of(message: ServerMessageView, stream: Stream) -> Seq<u8> {
    match message {
        ServerMessageView::OutputChunk { data, stream: from } => if from == stream {
            data
        } else {
            Seq::empty()
        },
        _ => Seq::empty(),
    }
}

/// The bytes that `messages` carry for `stream`, concatenated in order.
pub open spec fn output_of(messages: Seq<ServerMessageView>, stream: Stream) -> Seq<u8>
    decreases messages.len(),
{
    if messages.len() == 0 {
        Seq::empty()
    } else {
        output_of(messages.drop_last(), stream) + chunk_of(messages.last(), stream)
    }
}

/// The bytes that `event` reports for `stream`.
pub open spec fn read_by(event: EventView, stream: Stream) -> Seq<u8> {
    match event {
        EventView::Output { stream: from, data } => if from == stream {
            data
        } else {
            Seq::empty()
        },
        _ => Seq::empty(),
    }
}

/// The bytes that the process wrote to `stream`, as `events` report them,
/// concatenated in order.
pub open spec fn produced(events: Seq<EventView>, stream: Stream) -> Seq<u8>
    decreases events.len(),
{
    if events.len() == 0 {
        Seq::empty()
    } else {
        produced(events.drop_last(), stream) + read_by(events.last(), stream)
    }
}

/// The termination of the cell has begun or the cell was cancelled.
pub open spec fn winding_down(cell: CellView) -> bool {
    cell.state == CellState::Cancelled || (cell.state == CellState::Running && cell.phase
        != Phase::Live)
}

/// The process of the cell was killed or the cell was cancelled.
pub open spec fn killed(cell: CellView) -> bool {
    cell.state == CellState::Cancelled || (cell.state == CellState::Running && cell.phase
        == Phase::Killing)
}

/// In one step a cell that has not ended emits at most one terminal
/// message, as its last, and it emits one exactly when it ends. A running
/// cell keeps running or ends, and passes on exactly the output that the
/// event reports.
pub proof fn lemma_step(cell: CellView, event: EventView)
    requires
        !cell.state.is_terminal(),
    ensures
        terminal_only_last(react(cell, event).messages),
        react(cell, event).next.state.is_terminal() <==> react(cell, event).messages.len() > 0
            && react(cell, event).messages.last().is_terminal(),
        cell.state == CellState::Running ==> react(cell, event).next.state == CellState::Running
            || react(cell, event).next.state.is_terminal(),
        cell.state == CellState::Running ==> forall|stream: Stream|
            output_of(react(cell, event).messages, stream) == read_by(event, stream),
        winding_down(cell) ==> winding_down(react(cell, event).next),
        killed(cell) ==> killed(react(cell, event).next),
{
    let step = react(cell, event);
    assert forall|stream: Stream| cell.state == CellState::Running implies output_of(
        step.messages,
        stream,
    ) == read_by(event, stream) by {
        lemma_output_of_short(step.messages, stream);
    }
}

/// The output carried by at most two messages.
proof fn lemma_output_of_short(messages: Seq<ServerMessageView>, stream: Stream)
    requires
        messages.len() <= 2,
    ensures
        messages.len() == 0 ==> output_of(messages, stream) == Seq::<u8>::empty(),
        messages.len() == 1 ==> output_of(messages, stream) == chunk_of(messages[0], stream),
        messages.len() == 2 ==> output_of(messages, stream) == chunk_of(messages[0], stream)
            + chunk_of(messages[1], stream),
{
    reveal_with_fuel(output_of, 3);
    if messages.len() == 1 {
        assert(messages.drop_last().len() == 0);
    } else if messages.len() == 2 {
        assert(messages.drop_last().drop_last().len() == 0);
        assert(messages.drop_last().last() == messages[0]);
    }
}

/// A cell that has ended ignores every event: its state stays and it emits
/// nothing more.
pub proof fn law_nothing_after_the_end(cell: CellView, events: Seq<EventView>)
    requires
        cell.state.is_terminal(),
    ensures
        run(cell, events) == (Trace { cell, messages: Seq::empty() }),
    decreases events.len(),
{
    if events.len() > 0 {
        law_nothing_after_the_end(cell, events.drop_last());
        assert(Seq::<ServerMessageView>::empty() + Seq::<ServerMessageView>::empty()
            =~= Seq::<ServerMessageView>::empty());
    }
}

/// Output carried by a concatenation is the concatenation of the outputs.
pub proof fn lemma_output_of_concat(
    first: Seq<ServerMessageView>,
    second: Seq<ServerMessageView>,
    stream: Stream,
)
    ensures
        output_of(first + second, stream) == output_of(first, stream) + output_of(second, stream),
    decreases second.len(),
{
    if second.len() == 0 {
        assert(first + second =~= first);
        assert(output_of(first, stream) + Seq::<u8>::empty() =~= output_of(first, stream));
    } else {
        lemma_output_of_concat(first, second.drop_last(), stream);
        assert((first + second).drop_last() =~= first + second.drop_last());
        assert((first + second).last() == second.last());
        assert((output_of(first, stream) + output_of(second.drop_last(), stream)) + chunk_of(
            second.last(),
            stream,
        ) =~= output_of(first, stream) + (output_of(second.drop_last(), stream) + chunk_of(
            second.last(),
            stream,
        )));
    }
}

/// A run over a concatenation is the run over the first part followed by
/// the run over the second.
pub proof fn lemma_run_concat(cell: CellView, first: Seq<EventView>, second: Seq<EventView>)
    ensures
        run(cell, first + second).cell == run(run(cell, first).cell, second).cell,
        run(cell, first + second).messages == run(cell, first).messages + run(
            run(cell, first).cell,
            second,
        ).messages,
    decreases second.len(),
{
    let middle = run(cell, first);
    if second.len() == 0 {
        assert(first + second =~= first);
        assert(middle.messages + Seq::<ServerMessageView>::empty() =~= middle.messages);
    } else {
        lemma_run_concat(cell, first, second.drop_last());
        assert((first + second).drop_last() =~= first + second.drop_last());
        assert((first + second).last() == second.last());
        let before = run(middle.cell, second.drop_last());
        let step = react(before.cell, second.last());
        assert((middle.messages + before.messages) + step.messages =~= middle.messages + (
        before.messages + step.messages));
    }
}

/// The terminal message is the last message of a cell: in every run of a
/// cell that had not ended, no message but the last is terminal, and the
/// last one is terminal exactly when the cell has ended.
pub proof fn law_terminal_message_is_last(cell: CellView, events: Seq<EventView>)
    requires
        !cell.state.is_terminal(),
    ensures
        terminal_only_last(run(cell, events).messages),
        run(cell, events).cell.state.is_terminal() <==> run(cell, events).messages.len() > 0
            && run(cell, events).messages.last().is_terminal(),
    decreases events.len(),
{
    if events.len() > 0 {
        let before = run(cell, events.drop_last());
        let step = react(before.cell, events.last());
        law_terminal_message_is_last(cell, events.drop_last());
        if before.cell.state.is_terminal() {
            law_nothing_after_the_end(before.cell, seq![events.last()]);
            assert(before.messages + step.messages =~= before.messages);
        } else {
            lemma_step(before.cell, events.last());
            let all = before.messages + step.messages;
            assert forall|i: int| 0 <= i < all.len() - 1 implies !(#[trigger] all[i]).is_terminal() by {
                if i < before.messages.len() {
                    assert(all[i] == before.messages[i]);
                    if i == before.messages.len() - 1 {
                        assert(before.messages.last() == before.messages[i]);
                    }
                } else {
                    assert(all[i] == step.messages[i - before.messages.len()]);
                }
            }
            if step.messages.len() > 0 {
                assert(all.last() == step.messages.last());
            } else {
                assert(all =~= before.messages);
            }
        }
    }
}

/// A running cell keeps running until it ends.
pub proof fn lemma_running_or_ended(cell: CellView, events: Seq<EventView>)
    requires
        cell.state == CellState::Running,
    ensures
        run(cell, events).cell.state == CellState::Running || run(
            cell,
            events,
        ).cell.state.is_terminal(),
    decreases events.len(),
{
    if events.len() > 0 {
        lemma_running_or_ended(cell, events.drop_last());
        let before = run(cell, events.drop_last());
        if !before.cell.state.is_terminal() {
            lemma_step(before.cell, events.last());
        }
    }
}

/// Output reaches the UI unchanged: in a run of a running cell that does
/// not end before its last event, the output chunks emitted for a stream,
/// concatenated, are the bytes that the process wrote to that stream.
pub proof fn law_output_is_preserved(cell: CellView, events: Seq<EventView>, stream: Stream)
    requires
        cell.state == CellState::Running,
        events.len() > 0 ==> !run(cell, events.drop_last()).cell.state.is_terminal(),
    ensures
        output_of(run(cell, events).messages, stream) == produced(events, stream),
    decreases events.len(),
{
    if events.len() > 0 {
        let head = events.drop_last();
        let before = run(cell, head);
        if head.len() > 0 {
            let earlier = run(cell, head.drop_last());
            if earlier.cell.state.is_terminal() {
                law_nothing_after_the_end(earlier.cell, seq![head.last()]);
                assert(false);
            }
        }
        law_output_is_preserved(cell, head, stream);
        lemma_running_or_ended(cell, head);
        lemma_step(before.cell, events.last());
        lemma_output_of_concat(before.messages, react(before.cell, events.last()).messages, stream);
    }
}

/// Once the termination of a cell has begun, the cell can only end
/// cancelled.
pub proof fn law_interrupt_only_cancels(cell: CellView, events: Seq<EventView>)
    requires
        winding_down(cell),
    ensures
        winding_down(run(cell, events).cell),
    decreases events.len(),
{
    if events.len() > 0 {
        law_interrupt_only_cancels(cell, events.drop_last());
        let before = run(cell, events.drop_last());
        if before.cell.state.is_terminal() {
            law_nothing_after_the_end(before.cell, seq![events.last()]);
        } else {
            lemma_step(before.cell, events.last());
        }
    }
}

/// Once the process of a cell was killed, the cell waits for its end or
/// is cancelled.
proof fn lemma_killed_stays(cell: CellView, events: Seq<EventView>)
    requires
        killed(cell),
    ensures
        killed(run(cell, events).cell),
    decreases events.len(),
{
    if events.len() > 0 {
        lemma_killed_stays(cell, events.drop_last());
        let before = run(cell, events.drop_last());
        if before.cell.state.is_terminal() {
            law_nothing_after_the_end(before.cell, seq![events.last()]);
        } else {
            lemma_step(before.cell, events.last());
        }
    }
}

/// The UI asks for cancellation.
pub open spec fn interrupt() -> EventView {
    EventView::Frontend(FrontendMessageView::Interrupt)
}

/// An interrupt ends a running cell after at most two timeouts: whatever
/// else happens in between, once the grace period and then the timeout
/// after the kill are over, the cell is cancelled.
pub proof fn law_interrupt_is_bounded(
    cell: CellView,
    first: Seq<EventView>,
    second: Seq<EventView>,
)
    requires
        cell.state == CellState::Running,
    ensures
        run(
            cell,
            seq![interrupt()] + first + seq![EventView::GraceExpired] + second
                + seq![EventView::KillExpired],
        ).cell.state == CellState::Cancelled,
{
    let a = seq![interrupt()];
    let b = seq![EventView::GraceExpired];
    let c = seq![EventView::KillExpired];
    lemma_run_concat(cell, a + first + b + second, c);
    lemma_run_concat(cell, a + first + b, second);
    lemma_run_concat(cell, a + first, b);
    lemma_run_concat(cell, a, first);
    let s1 = run(cell, a).cell;
    lemma_run_one(cell, interrupt());
    assert(winding_down(s1));
    let s2 = run(s1, first).cell;
    law_interrupt_only_cancels(s1, first);
    let s3 = run(s2, b).cell;
    lemma_run_one(s2, EventView::GraceExpired);
    assert(killed(s3));
    let s4 = run(s3, second).cell;
    lemma_killed_stays(s3, second);
    lemma_run_one(s4, EventView::KillExpired);
}

/// When the process exits after an interrupt, the cell is cancelled.
pub proof fn law_exit_after_interrupt_cancels(cell: CellView, between: Seq<EventView>, code: i32)
    requires
        cell.state == CellState::Running,
    ensures
        run(cell, seq![interrupt()] + between + seq![EventView::Exited(code)]).cell.state
            == CellState::Cancelled,
{
    let a = seq![interrupt()];
    let c = seq![EventView::Exited(code)];
    lemma_run_concat(cell, a + between, c);
    lemma_run_concat(cell, a, between);
    let s1 = run(cell, a).cell;
    lemma_run_one(cell, interrupt());
    let s2 = run(s1, between).cell;
    law_interrupt_only_cancels(s1, between);
    lemma_run_one(s2, EventView::Exited(code));
}

/// The run over one event is one step.
pub proof fn lemma_run_one(cell: CellView, event: EventView)
    ensures
        run(cell, seq![event]).cell == react(cell, event).next,
        run(cell, seq![event]).messages == react(cell, event).messages,
{
    reveal_with_fuel(run, 2);
    let events = seq![event];
    assert(events.drop_last().len() == 0);
    assert(events.last() == event);
    assert(Seq::<ServerMessageView>::empty() + react(cell, event).messages =~= react(
        cell,
        event,
    ).messages);
}

/// How far a state is along the lifecycle.
pub open spec fn stage(state: CellState) -> int {
    match state {
        CellState::Created => 0,
        CellState::Classifying => 1,
        CellState::Running => 2,
        _ => 3,
    }
}

/// A cell only moves forward: from `Created` to `Classifying`, to
/// `Running`, to a terminal state, and never back. Its parameters never
/// change, and neither does its command once it runs: a cell is
/// classified once.
pub proof fn law_cells_move_forward(cell: CellView, events: Seq<EventView>)
    ensures
        stage(cell.state) <= stage(run(cell, events).cell.state),
        run(cell, events).cell.props == cell.props,
        stage(cell.state) >= 2 ==> run(cell, events).cell.command == cell.command,
        cell.state.is_terminal() ==> run(cell, events).cell.state == cell.state,
    decreases events.len(),
{
    if events.len() > 0 {
        law_cells_move_forward(cell, events.drop_last());
    }
}

} // verus!
