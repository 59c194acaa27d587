//! The cell state machine.
//!
//! A cell goes from `Created` through `Classifying` and `Running` to one of
//! the terminal states. The host feeds it one [`Event`] at a time; the cell
//! changes state, emits messages on its channel and answers with the
//! [`Action`] the host is to perform. [`react`] is the whole transition
//! relation; [`Cell::handle`] computes it.
use crate::channel::{lemma_accept_nothing, Communication, CommunicationView};
use crate::command::{dispatch, outcome_view, Action, ActionView, Command, CommandView};
use crate::error::{CellError, CellErrorView};
use crate::message::{
    message_views, CellProps, CellPropsView, CellState, FrontendMessage, FrontendMessageView,
    ServerMessage, ServerMessageView, Stream,
};
use vstd::prelude::*;

verus! {

/// How far the termination of a running cell has gone.
#[derive(Clone, Copy, Debug, PartialEq, Eq, Structural)]
pub enum Phase {
    /// No interrupt was honoured yet.
    Live,
    /// The process was asked to terminate; the grace period runs.
    Terminating,
    /// The grace period is over and the process was killed; the last
    /// timeout runs.
    Killing,
}

/// What the host reports to a cell.
#[derive(Clone, Debug, PartialEq, Eq)]
pub enum Event {
    /// The cell is to start its work.
    Start,
    /// Classification is done; this is the command.
    Classified(Command),
    /// Classification did not finish in time.
    ClassificationTimedOut,
    /// The process could not be started; the text is the reason.
    SpawnFailed(String),
    /// Bytes were read from a stream of the process.
    Output { stream: Stream, data: Vec<u8> },
    /// A stream of the process reached its end.
    StreamClosed(Stream),
    /// Reading or writing a stream of the process failed.
    StreamFailed(String),
    /// The process exited with this code.
    Exited(i32),
    /// The UI sent a message.
    Frontend(FrontendMessage),
    /// The grace period after a request to terminate is over.
    GraceExpired,
    /// The timeout after a kill is over.
    KillExpired,
}

pub enum EventView {
    Start,
    Classified(CommandView),
    ClassificationTimedOut,
    SpawnFailed(Seq<char>),
    Output { stream: Stream, data: Seq<u8> },
    StreamClosed(Stream),
    StreamFailed(Seq<char>),
    Exited(i32),
    Frontend(FrontendMessageView),
    GraceExpired,
    KillExpired,
}

impl View for Event {
    type V = EventView;

    open spec fn view(&self) -> EventView {
        match self {
            Event::Start => EventView::Start,
            Event::Classified(command) => EventView::Classified(command@),
            Event::ClassificationTimedOut => EventView::ClassificationTimedOut,
            Event::SpawnFailed(reason) => EventView::SpawnFailed(reason@),
            Event::Output { stream, data } => EventView::Output { stream: *stream, data: data@ },
            Event::StreamClosed(stream) => EventView::StreamClosed(*stream),
            Event::StreamFailed(reason) => EventView::StreamFailed(reason@),
            Event::Exited(code) => EventView::Exited(*code),
            Event::Frontend(message) => EventView::Frontend(message@),
            Event::GraceExpired => EventView::GraceExpired,
            Event::KillExpired => EventView::KillExpired,
        }
    }
}

/// The state of a cell, as the transition relation sees it.
pub struct CellView {
    pub props: CellPropsView,
    pub state: CellState,
    /// The classified command, once there is one.
    pub command: Option<CommandView>,
    pub phase: Phase,
    /// The standard output of the process has not ended yet.
    pub stdout_open: bool,
    /// The standard error of the process has not ended yet.
    pub stderr_open: bool,
    /// The exit code of the process, once it has exited.
    pub exit_code: Option<i32>,
}

/// One step of a cell: its next state, the messages it emits, in order, and
/// what the host is to do.
pub struct Reaction {
    pub next: CellView,
    pub messages: Seq<ServerMessageView>,
    pub action: ActionView,
}

impl CellView {
    /// A cell that was just created for `props`.
    pub open spec fn fresh(props: CellPropsView) -> CellView {
        CellView {
            props,
            state: CellState::Created,
            command: None,
            phase: Phase::Live,
            stdout_open: false,
            stderr_open: false,
            exit_code: None,
        }
    }

    /// The report that the cell is in `state`.
    pub open spec fn status(self, state: CellState) -> ServerMessageView {
        ServerMessageView::StatusChanged { state, working_dir: self.props.current_dir }
    }

    /// The event changes nothing.
    pub open spec fn ignore(self) -> Reaction {
        Reaction { next: self, messages: Seq::empty(), action: ActionView::Idle }
    }

    /// The cell fails with `error`, which is reported to the UI.
    pub open spec fn fail(self, error: CellErrorView) -> Reaction {
        Reaction {
            next: CellView { state: CellState::Failed, ..self },
            messages: seq![ServerMessageView::Error(error.description())],
            action: ActionView::Close,
        }
    }

    /// The cell ends cancelled, which is reported to the UI.
    pub open spec fn cancel(self) -> Reaction {
        Reaction {
            next: CellView { state: CellState::Cancelled, ..self },
            messages: seq![self.status(CellState::Cancelled)],
            action: ActionView::Close,
        }
    }

    /// The cell completes once the process has exited and both of its
    /// streams have ended, so that no output is lost; until then it waits.
    pub open spec fn settle(self) -> Reaction {
        if self.phase == Phase::Live && self.exit_code is Some && !self.stdout_open
            && !self.stderr_open {
            Reaction {
                next: CellView { state: CellState::Completed, ..self },
                messages: seq![ServerMessageView::Completed(self.exit_code->0)],
                action: ActionView::Close,
            }
        } else {
            self.ignore()
        }
    }

    /// The cell with one of its streams ended.
    pub open spec fn close_stream(self, stream: Stream) -> CellView {
        match stream {
            Stream::Stdout => CellView { stdout_open: false, ..self },
            Stream::Stderr => CellView { stderr_open: false, ..self },
        }
    }

    /// A classifying cell gets its command and dispatches it. A process
    /// has two streams to read; the handler of an internal action has
    /// none.
    pub open spec fn begin(self, command: CommandView) -> Reaction {
        let dispatched = dispatch(command, self.props);
        let bound = CellView { command: Some(command), ..self };
        match dispatched.outcome {
            Err(_) => Reaction {
                next: CellView { state: CellState::Failed, ..bound },
                messages: dispatched.messages,
                action: ActionView::Close,
            },
            Ok(ActionView::Close) => Reaction {
                next: CellView { state: CellState::Completed, ..bound },
                messages: dispatched.messages,
                action: ActionView::Close,
            },
            Ok(action) => Reaction {
                next: CellView {
                    state: CellState::Running,
                    phase: Phase::Live,
                    stdout_open: action is Spawn,
                    stderr_open: action is Spawn,
                    exit_code: None,
                    ..bound
                },
                messages: dispatched.messages,
                action,
            },
        }
    }

    /// A running cell reacts to an event.
    ///
    /// * Output is passed on, chunk by chunk, as it comes.
    /// * While the cell is live, input and resizes from the UI are passed
    ///   to the process, and a failure to start the process or to use its
    ///   streams fails the cell.
    /// * An interrupt starts the termination of the process; if the
    ///   process has exited already, the cell is cancelled at once.
    /// * Once an interrupt was honoured the cell can only end cancelled:
    ///   when the process exits or fails, or when the last timeout is over.
    pub open spec fn advance(self, event: EventView) -> Reaction {
        match event {
            EventView::Output { stream, data } => Reaction {
                next: self,
                messages: seq![ServerMessageView::OutputChunk { data, stream }],
                action: ActionView::Idle,
            },
            EventView::StreamClosed(stream) => self.close_stream(stream).settle(),
            EventView::Exited(code) => if self.phase == Phase::Live {
                (CellView { exit_code: Some(code), ..self }).settle()
            } else {
                self.cancel()
            },
            EventView::SpawnFailed(reason) => if self.phase == Phase::Live {
                self.fail(CellErrorView::SpawnFailure(reason))
            } else {
                self.cancel()
            },
            EventView::StreamFailed(reason) => if self.phase == Phase::Live {
                self.fail(CellErrorView::StreamIOFailure(reason))
            } else {
                self.cancel()
            },
            EventView::Frontend(message) => if self.phase == Phase::Live {
                match message {
                    FrontendMessageView::Input(data) => Reaction {
                        next: self,
                        messages: Seq::empty(),
                        action: ActionView::WriteInput(data),
                    },
                    FrontendMessageView::Resize { cols, rows } => Reaction {
                        next: self,
                        messages: Seq::empty(),
                        action: ActionView::Resize { cols, rows },
                    },
                    FrontendMessageView::Interrupt => if self.exit_code is Some {
                        self.cancel()
                    } else {
                        Reaction {
                            next: CellView { phase: Phase::Terminating, ..self },
                            messages: Seq::empty(),
                            action: ActionView::Terminate,
                        }
                    },
                }
            } else {
                self.ignore()
            },
            EventView::GraceExpired => if self.phase == Phase::Terminating {
                Reaction {
                    next: CellView { phase: Phase::Killing, ..self },
                    messages: Seq::empty(),
                    action: ActionView::Kill,
                }
            } else {
                self.ignore()
            },
            EventView::KillExpired => if self.phase == Phase::Killing {
                self.cancel()
            } else {
                self.ignore()
            },
            _ => self.ignore(),
        }
    }
}

/// The transition relation of a cell. An event that has no meaning in the
/// current state is ignored; in a terminal state every event is.
pub open spec fn react(cell: CellView, event: EventView) -> Reaction {
    match cell.state {
        CellState::Created => match event {
            EventView::Start => Reaction {
                next: CellView { state: CellState::Classifying, ..cell },
                messages: seq![cell.status(CellState::Classifying)],
                action: ActionView::Classify,
            },
            _ => cell.ignore(),
        },
        CellState::Classifying => match event {
            EventView::Classified(command) => cell.begin(command),
            EventView::ClassificationTimedOut => cell.fail(CellErrorView::Timeout),
            _ => cell.ignore(),
        },
        CellState::Running => cell.advance(event),
        _ => cell.ignore(),
    }
}

/// One cell: the execution context of one command line. It owns its
/// parameters, its channel to the UI and, once classified, its command.
#[derive(Debug)]
pub struct Cell {
    props: CellProps,
    communication: Communication,
    state: CellState,
    command: Option<Command>,
    phase: Phase,
    stdout_open: bool,
    stderr_open: bool,
    exit_code: Option<i32>,
}

impl View for Cell {
    type V = CellView;

    closed spec fn view(&self) -> CellView {
        CellView {
            props: self.props@,
            state: self.state,
            command: match self.command {
                Some(command) => Some(command@),
                None => None,
            },
            phase: self.phase,
            stdout_open: self.stdout_open,
            stderr_open: self.stderr_open,
            exit_code: self.exit_code,
        }
    }
}

/// `after` and `action` are what `reaction` says of the cell `before`.
pub open spec fn follows(after: Cell, before: Cell, action: Action, reaction: Reaction) -> bool {
    &&& after@ == reaction.next
    &&& after.outbox() == before.outbox().accept(reaction.messages)
    &&& action@ == reaction.action
}

impl Cell {
    /// The channel of the cell.
    pub closed spec fn outbox(&self) -> CommunicationView {
        self.communication@
    }

    /// The channel of a cell is closed exactly when the cell has ended.
    pub closed spec fn wf(&self) -> bool {
        self.communication@.closed == self.state.is_terminal()
    }

    /// Binds `props` and `communication` into a cell in state `Created`.
    /// A closed channel cannot carry a cell: `ChannelClosed` is returned.
    pub fn new(props: CellProps, communication: Communication) -> (made: Result<Cell, CellError>)
        ensures
            match made {
                Ok(cell) => !communication@.closed && cell.wf() && cell@ == CellView::fresh(
                    props@,
                ) && cell.outbox() == communication@,
                Err(error) => communication@.closed && error@ == CellErrorView::ChannelClosed,
            },
    {
        if communication.is_closed() {
            return Err(CellError::ChannelClosed);
        }
        Ok(
            Cell {
                props,
                communication,
                state: CellState::Created,
                command: None,
                phase: Phase::Live,
                stdout_open: false,
                stderr_open: false,
                exit_code: None,
            },
        )
    }

    /// The lifecycle state of the cell.
    pub fn state(&self) -> (state: CellState)
        ensures
            state == self@.state,
    {
        self.state
    }

    /// How far the termination of the cell has gone.
    pub fn phase(&self) -> (phase: Phase)
        ensures
            phase == self@.phase,
    {
        self.phase
    }

    /// The parameters of the cell.
    pub fn props(&self) -> (props: &CellProps)
        ensures
            props@ == self@.props,
    {
        &self.props
    }

    /// The classified command of the cell, once there is one.
    pub fn command(&self) -> (command: Option<&Command>)
        ensures
            match command {
                Some(command) => self@.command == Some(command@),
                None => self@.command is None,
            },
    {
        self.command.as_ref()
    }

    /// Takes the messages that wait for the UI, oldest first.
    pub fn drain(&mut self) -> (messages: Vec<ServerMessage>)
        requires
            old(self).wf(),
        ensures
            final(self).wf(),
            final(self)@ == old(self)@,
            message_views(messages@) == old(self).outbox().pending,
            final(self).outbox() == (CommunicationView {
                pending: Seq::empty(),
                closed: old(self).outbox().closed,
            }),
    {
        self.communication.drain()
    }

    /// Feeds one event to the cell: the cell moves as [`react`] says, emits
    /// the messages of the reaction on its channel, and returns the action
    /// for the host to perform.
    pub fn handle(&mut self, event: Event) -> (action: Action)
        requires
            old(self).wf(),
        ensures
            final(self).wf(),
            follows(*final(self), *old(self), action, react(old(self)@, event@)),
    {
        proof {
            lemma_accept_nothing(self.outbox());
        }
        match self.state {
            CellState::Created => match event {
                Event::Start => {
                    self.state = CellState::Classifying;
                    let _ = self.communication.send(
                        ServerMessage::StatusChanged {
                            state: CellState::Classifying,
                            working_dir: self.props.current_dir.clone(),
                        },
                    );
                    Action::Classify
                },
                _ => Action::Idle,
            },
            CellState::Classifying => match event {
                Event::Classified(command) => self.begin(command),
                Event::ClassificationTimedOut => self.fail(CellError::Timeout),
                _ => Action::Idle,
            },
            CellState::Running => self.advance(event),
            _ => Action::Idle,
        }
    }

    /// Ends the cell in `state` with the terminal message `message`.
    fn finish(&mut self, state: CellState, message: ServerMessage) -> (action: Action)
        requires
            old(self).wf(),
            !old(self)@.state.is_terminal(),
            state.is_terminal(),
            message@.is_terminal(),
        ensures
            final(self).wf(),
            final(self)@ == (CellView { state, ..old(self)@ }),
            final(self).outbox() == old(self).outbox().accept(seq![message@]),
            action@ == ActionView::Close,
    {
        self.state = state;
        let _ = self.communication.send(message);
        Action::Close
    }

    fn fail(&mut self, error: CellError) -> (action: Action)
        requires
            old(self).wf(),
            !old(self)@.state.is_terminal(),
        ensures
            final(self).wf(),
            follows(*final(self), *old(self), action, old(self)@.fail(error@)),
    {
        self.finish(CellState::Failed, ServerMessage::Error(error.description()))
    }

    fn cancel(&mut self) -> (action: Action)
        requires
            old(self).wf(),
            !old(self)@.state.is_terminal(),
        ensures
            final(self).wf(),
            follows(*final(self), *old(self), action, old(self)@.cancel()),
    {
        let report = ServerMessage::StatusChanged {
            state: CellState::Cancelled,
            working_dir: self.props.current_dir.clone(),
        };
        self.finish(CellState::Cancelled, report)
    }

    fn settle(&mut self) -> (action: Action)
        requires
            old(self).wf(),
            !old(self)@.state.is_terminal(),
        ensures
            final(self).wf(),
            follows(*final(self), *old(self), action, old(self)@.settle()),
    {
        proof {
            lemma_accept_nothing(self.outbox());
        }
        match (self.phase, self.exit_code) {
            (Phase::Live, Some(code)) => {
                if !self.stdout_open && !self.stderr_open {
                    self.finish(CellState::Completed, ServerMessage::Completed(code))
                } else {
                    Action::Idle
                }
            },
            _ => Action::Idle,
        }
    }

    fn begin(&mut self, command: Command) -> (action: Action)
        requires
            old(self).wf(),
            old(self)@.state == CellState::Classifying,
        ensures
            final(self).wf(),
            follows(*final(self), *old(self), action, old(self)@.begin(command@)),
    {
        let outcome = command.execute(&self.props, &mut self.communication);
        self.command = Some(command);
        match outcome {
            Err(_) => {
                self.state = CellState::Failed;
                Action::Close
            },
            Ok(Action::Close) => {
                self.state = CellState::Completed;
                Action::Close
            },
            Ok(action) => {
                let process = match &action {
                    Action::Spawn { .. } => true,
                    _ => false,
                };
                self.state = CellState::Running;
                self.phase = Phase::Live;
                self.stdout_open = process;
                self.stderr_open = process;
                self.exit_code = None;
                action
            },
        }
    }

    fn advance(&mut self, event: Event) -> (action: Action)
        requires
            old(self).wf(),
            old(self)@.state == CellState::Running,
        ensures
            final(self).wf(),
            follows(*final(self), *old(self), action, old(self)@.advance(event@)),
    {
        proof {
            lemma_accept_nothing(self.outbox());
        }
        let live = match self.phase {
            Phase::Live => true,
            _ => false,
        };
        match event {
            Event::Output { stream, data } => {
                let _ = self.communication.send(ServerMessage::OutputChunk { data, stream });
                Action::Idle
            },
            Event::StreamClosed(stream) => {
                match stream {
                    Stream::Stdout => {
                        self.stdout_open = false;
                    },
                    Stream::Stderr => {
                        self.stderr_open = false;
                    },
                }
                self.settle()
            },
            Event::Exited(code) => {
                if live {
                    self.exit_code = Some(code);
                    self.settle()
                } else {
                    self.cancel()
                }
            },
            Event::SpawnFailed(reason) => {
                if live {
                    self.fail(CellError::SpawnFailure(reason))
                } else {
                    self.cancel()
                }
            },
            Event::StreamFailed(reason) => {
                if live {
                    self.fail(CellError::StreamIOFailure(reason))
                } else {
                    self.cancel()
                }
            },
            Event::Frontend(message) => {
                if live {
                    match message {
                        FrontendMessage::Input(data) => Action::WriteInput(data),
                        FrontendMessage::Resize { cols, rows } => Action::Resize { cols, rows },
                        FrontendMessage::Interrupt => {
                            if self.exit_code.is_some() {
                                self.cancel()
                            } else {
                                self.phase = Phase::Terminating;
                                Action::Terminate
                            }
                        },
                    }
                } else {
                    Action::Idle
                }
            },
            Event::GraceExpired => {
                match self.phase {
                    Phase::Terminating => {
                        self.phase = Phase::Killing;
                        Action::Kill
                    },
                    _ => Action::Idle,
                }
            },
            Event::KillExpired => {
                match self.phase {
                    Phase::Killing => self.cancel(),
                    _ => Action::Idle,
                }
            },
            _ => Action::Idle,
        }
    }
}

} // verus!
