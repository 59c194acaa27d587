//! The outbound side of a cell's communication channel.
use crate::error::CellError;
use crate::message::{message_views, ServerMessage, ServerMessageView};
use vstd::prelude::*;

verus! {

/// The ordered mailbox through which a cell speaks to the UI.
///
/// Producers on the engine side enqueue with [`Communication::send`]; the
/// bridge to the UI takes what is pending, in order, with
/// [`Communication::drain`]. A terminal message closes the mailbox: nothing
/// is accepted after it, so it is the last message the UI observes.
#[derive(Debug)]
pub struct Communication {
    pending: Vec<ServerMessage>,
    closed: bool,
}

pub struct CommunicationView {
    /// Messages accepted and not yet taken by the bridge, oldest first.
    pub pending: Seq<ServerMessageView>,
    /// A terminal message was accepted.
    pub closed: bool,
}

impl CommunicationView {
    /// The open mailbox after `messages`, of which none but the last is
    /// terminal, were accepted one after the other.
    pub open spec fn accept(self, messages: Seq<ServerMessageView>) -> CommunicationView
        recommends
            !self.closed,
            terminal_only_last(messages),
    {
        CommunicationView {
            pending: self.pending + messages,
            closed: self.closed || (messages.len() > 0 && messages.last().is_terminal()),
        }
    }
}

/// Accepting nothing changes nothing.
pub proof fn lemma_accept_nothing(channel: CommunicationView)
    ensures
        channel.accept(Seq::empty()) == channel,
{
    assert(channel.accept(Seq::empty()).pending =~= channel.pending);
}

/// No message but the last one is terminal.
pub open spec fn terminal_only_last(messages: Seq<ServerMessageView>) -> bool {
    forall|i: int| 0 <= i < messages.len() - 1 ==> !(#[trigger] messages[i]).is_terminal()
}

impl View for Communication {
    type V = CommunicationView;

    closed spec fn view(&self) -> CommunicationView {
        CommunicationView { pending: message_views(self.pending@), closed: self.closed }
    }
}

impl Communication {
    #[verifier::type_invariant]
    spec fn well_formed(self) -> bool {
        &&& terminal_only_last(message_views(self.pending@))
        &&& self.pending.len() > 0 && self.pending[self.pending.len() - 1]@.is_terminal()
            ==> self.closed
    }

    /// An open mailbox with nothing pending.
    pub fn new() -> (channel: Communication)
        ensures
            channel@ == (CommunicationView { pending: Seq::empty(), closed: false }),
    {
        let channel = Communication { pending: Vec::new(), closed: false };
        assert(channel@.pending =~= Seq::empty());
        channel
    }

    /// Whether a terminal message was accepted.
    pub fn is_closed(&self) -> (closed: bool)
        ensures
            closed == self@.closed,
    {
        self.closed
    }

    /// How many messages wait for the bridge.
    pub fn pending(&self) -> (n: usize)
        ensures
            n == self@.pending.len(),
    {
        self.pending.len()
    }

    /// Enqueues `message` behind everything pending. A terminal message
    /// closes the mailbox. A closed mailbox accepts nothing and reports
    /// `ChannelClosed`.
    pub fn send(&mut self, message: ServerMessage) -> (sent: Result<(), CellError>)
        ensures
            old(self)@.closed ==> sent == Err::<(), CellError>(CellError::ChannelClosed)
                && final(self)@ == old(self)@,
            !old(self)@.closed ==> sent.is_ok() && final(self)@ == old(self)@.accept(
                seq![message@],
            ),
    {
        proof {
            use_type_invariant(&*self);
        }
        if self.closed {
            return Err(CellError::ChannelClosed);
        }
        let ghost before = message_views(self.pending@);
        // The queue is moved out while it grows, so that the invariant of
        // the type holds at every step.
        let mut queue: Vec<ServerMessage> = Vec::new();
        std::mem::swap(&mut self.pending, &mut queue);
        if message.is_terminal() {
            self.closed = true;
        }
        queue.push(message);
        assert(message_views(queue@) =~= before + seq![message@]);
        std::mem::swap(&mut self.pending, &mut queue);
        Ok(())
    }

    /// Takes every pending message, oldest first. At most the last of them
    /// is terminal, and if it is, the mailbox is closed for good.
    pub fn drain(&mut self) -> (messages: Vec<ServerMessage>)
        ensures
            message_views(messages@) == old(self)@.pending,
            final(self)@ == (CommunicationView { pending: Seq::empty(), closed: old(self)@.closed }),
            terminal_only_last(message_views(messages@)),
            messages.len() > 0 && messages[messages.len() - 1]@.is_terminal() ==> old(self)@.closed,
    {
        proof {
            use_type_invariant(&*self);
        }
        let mut messages: Vec<ServerMessage> = Vec::new();
        std::mem::swap(&mut self.pending, &mut messages);
        assert(self@.pending =~= Seq::empty());
        messages
    }
}

} // verus!
