//! A classified command and its dispatch.
use crate::channel::{Communication, CommunicationView};
use crate::classifier::{classify, classify_spec, ExecutableIndex, Kind, KindView, PathProbe};
use crate::error::{CellError, CellErrorView};
use crate::message::{texts, CellProps, CellPropsView, CellState, ServerMessage, ServerMessageView};
use vstd::prelude::*;

verus! {

/// One of the fixed internal actions.
#[derive(Clone, Copy, Debug, PartialEq, Eq, Structural)]
pub enum Internal {
    View,
    Write,
    Shortcuts,
}

/// What the host is asked to do after the engine took a decision.
#[derive(Clone, Debug, PartialEq, Eq)]
pub enum Action {
    /// Nothing.
    Idle,
    /// Look the command token up on disk and in the executable index,
    /// classify it, and report the classified command.
    Classify,
    /// Start `program` with `args` in `working_dir` and report its output,
    /// the end of its streams and its exit.
    Spawn { program: String, args: Vec<String>, working_dir: String },
    /// Run the handler of an internal action with `args`.
    RunInternal { action: Internal, args: Vec<String> },
    /// Write these bytes, as they are, to the input stream of the process.
    WriteInput(Vec<u8>),
    /// Tell the process the new size of its terminal.
    Resize { cols: u16, rows: u16 },
    /// Ask the process to terminate and start the grace period.
    Terminate,
    /// Kill the process and start the last timeout.
    Kill,
    /// The cell has ended: release the process and stop accepting input.
    Close,
}

pub enum ActionView {
    Idle,
    Classify,
    Spawn { program: Seq<char>, args: Seq<Seq<char>>, working_dir: Seq<char> },
    RunInternal { action: Internal, args: Seq<Seq<char>> },
    WriteInput(Seq<u8>),
    Resize { cols: u16, rows: u16 },
    Terminate,
    Kill,
    Close,
}

impl View for Action {
    type V = ActionView;

    open spec fn view(&self) -> ActionView {
        match self {
            Action::Idle => ActionView::Idle,
            Action::Classify => ActionView::Classify,
            Action::Spawn { program, args, working_dir } => ActionView::Spawn {
                program: program@,
                args: texts(args@),
                working_dir: working_dir@,
            },
            Action::RunInternal { action, args } => ActionView::RunInternal {
                action: *action,
                args: texts(args@),
            },
            Action::WriteInput(data) => ActionView::WriteInput(data@),
            Action::Resize { cols, rows } => ActionView::Resize { cols: *cols, rows: *rows },
            Action::Terminate => ActionView::Terminate,
            Action::Kill => ActionView::Kill,
            Action::Close => ActionView::Close,
        }
    }
}

/// A command token that was classified, with the arguments that follow it.
/// The kind is fixed when the command is made and never changes.
#[derive(Clone, Debug, PartialEq, Eq)]
pub struct Command {
    kind: Kind,
    args: Vec<String>,
    directory: bool,
}

pub struct CommandView {
    pub kind: KindView,
    pub args: Seq<Seq<char>>,
    /// The token resolved to a directory when it was classified.
    pub directory: bool,
}

impl View for Command {
    type V = CommandView;

    closed spec fn view(&self) -> CommandView {
        CommandView { kind: self.kind@, args: texts(self.args@), directory: self.directory }
    }
}

/// The outcome of dispatching a command: what the host is asked to do, or
/// why the cell failed, and the messages emitted on the way.
pub struct Dispatch {
    pub outcome: Result<ActionView, CellErrorView>,
    pub messages: Seq<ServerMessageView>,
}

/// The report that the cell runs in `working_dir`.
pub open spec fn running_in(working_dir: Seq<char>) -> ServerMessageView {
    ServerMessageView::StatusChanged { state: CellState::Running, working_dir }
}

/// Dispatch by kind.
///
/// * A command that was not found fails at once with a single error
///   message; nothing is started.
/// * A path that is a directory becomes the working context: it is
///   reported in a status message and the cell completes with code 0.
/// * Any other path, and an external command, is started as a process with
///   the arguments of the command, in the working directory of the cell.
/// * An internal action is handed to its handler.
pub open spec fn dispatch(command: CommandView, props: CellPropsView) -> Dispatch {
    match command.kind {
        KindView::NotFound => {
            let error = CellErrorView::NotFoundCommand(props.command);
            Dispatch {
                outcome: Err(error),
                messages: seq![ServerMessageView::Error(error.description())],
            }
        },
        KindView::Path(path) => if command.directory {
            Dispatch {
                outcome: Ok(ActionView::Close),
                messages: seq![running_in(path), ServerMessageView::Completed(0)],
            }
        } else {
            Dispatch {
                outcome: Ok(
                    ActionView::Spawn {
                        program: path,
                        args: command.args,
                        working_dir: props.current_dir,
                    },
                ),
                messages: seq![running_in(props.current_dir)],
            }
        },
        KindView::External(name) => Dispatch {
            outcome: Ok(
                ActionView::Spawn {
                    program: name,
                    args: command.args,
                    working_dir: props.current_dir,
                },
            ),
            messages: seq![running_in(props.current_dir)],
        },
        KindView::View => Dispatch {
            outcome: Ok(ActionView::RunInternal { action: Internal::View, args: command.args }),
            messages: seq![running_in(props.current_dir)],
        },
        KindView::Write => Dispatch {
            outcome: Ok(ActionView::RunInternal { action: Internal::Write, args: command.args }),
            messages: seq![running_in(props.current_dir)],
        },
        KindView::Shortcuts => Dispatch {
            outcome: Ok(
                ActionView::RunInternal { action: Internal::Shortcuts, args: command.args },
            ),
            messages: seq![running_in(props.current_dir)],
        },
    }
}

/// The mathematical value of the result of a dispatch.
pub open spec fn outcome_view(outcome: Result<Action, CellError>) -> Result<
    ActionView,
    CellErrorView,
> {
    match outcome {
        Ok(action) => Ok(action@),
        Err(error) => Err(error@),
    }
}

/// A copy of a list of strings.
pub fn copy_texts(list: &Vec<String>) -> (copy: Vec<String>)
    ensures
        texts(copy@) == texts(list@),
{
    let mut copy: Vec<String> = Vec::new();
    let mut i: usize = 0;
    while i < list.len()
        invariant
            i <= list.len(),
            copy.len() == i,
            forall|j: int| 0 <= j < i ==> copy[j]@ == list[j]@,
        decreases list.len() - i,
    {
        copy.push(list[i].clone());
        i += 1;
    }
    assert(texts(copy@) =~= texts(list@));
    copy
}

impl Command {
    /// Classifies `command` and pairs its kind with `args`.
    pub fn new(command: String, args: Vec<String>, probe: &PathProbe, index: &ExecutableIndex) -> (made:
        Command)
        ensures
            made@ == (CommandView {
                kind: classify_spec(command@, *probe, index@),
                args: texts(args@),
                directory: probe.is_directory(),
            }),
    {
        Command {
            kind: classify(command.as_str(), probe, index),
            args,
            directory: probe.found_directory(),
        }
    }

    /// The kind of the command.
    pub fn kind(&self) -> (kind: &Kind)
        ensures
            kind@ == self@.kind,
    {
        &self.kind
    }

    /// The arguments of the command.
    pub fn args(&self) -> (args: &Vec<String>)
        ensures
            texts(args@) == self@.args,
    {
        &self.args
    }

    /// Whether the command names a directory.
    pub fn names_directory(&self) -> (b: bool)
        ensures
            b == self@.directory,
    {
        self.directory
    }

    /// Dispatches the command of the cell described by `props`: emits on
    /// `communication` what [`dispatch`] says and returns its outcome. On a
    /// closed channel nothing is emitted and `ChannelClosed` is returned.
    pub fn execute(&self, props: &CellProps, communication: &mut Communication) -> (outcome: Result<
        Action,
        CellError,
    >)
        ensures
            old(communication)@.closed ==> outcome_view(outcome) == Err::<
                ActionView,
                CellErrorView,
            >(CellErrorView::ChannelClosed) && final(communication)@ == old(communication)@,
            !old(communication)@.closed ==> outcome_view(outcome) == dispatch(self@, props@).outcome
                && final(communication)@ == old(communication)@.accept(
                dispatch(self@, props@).messages,
            ),
    {
        if communication.is_closed() {
            return Err(CellError::ChannelClosed);
        }
        let ghost start = communication@;
        match &self.kind {
            Kind::NotFound => {
                let error = CellError::NotFoundCommand(props.command.clone());
                let _ = communication.send(ServerMessage::Error(error.description()));
                assert(communication@.pending =~= start.accept(
                    dispatch(self@, props@).messages,
                ).pending);
                Err(error)
            },
            Kind::Path(path) => {
                if self.directory {
                    let _ = communication.send(
                        ServerMessage::StatusChanged {
                            state: CellState::Running,
                            working_dir: path.clone(),
                        },
                    );
                    let _ = communication.send(ServerMessage::Completed(0));
                    assert(communication@.pending =~= start.accept(
                        dispatch(self@, props@).messages,
                    ).pending);
                    Ok(Action::Close)
                } else {
                    self.start(path, props, communication)
                }
            },
            Kind::External(name) => self.start(name, props, communication),
            Kind::View => self.hand_over(Internal::View, props, communication),
            Kind::Write => self.hand_over(Internal::Write, props, communication),
            Kind::Shortcuts => self.hand_over(Internal::Shortcuts, props, communication),
        }
    }

    /// Reports that the cell runs and asks the host to start `program`.
    fn start(&self, program: &String, props: &CellProps, communication: &mut Communication) -> (outcome:
        Result<Action, CellError>)
        requires
            !old(communication)@.closed,
        ensures
            outcome_view(outcome) == Ok::<ActionView, CellErrorView>(
                ActionView::Spawn {
                    program: program@,
                    args: self@.args,
                    working_dir: props@.current_dir,
                },
            ),
            final(communication)@ == old(communication)@.accept(seq![running_in(props@.current_dir)]),
    {
        let _ = communication.send(
            ServerMessage::StatusChanged {
                state: CellState::Running,
                working_dir: props.current_dir.clone(),
            },
        );
        Ok(
            Action::Spawn {
                program: program.clone(),
                args: copy_texts(&self.args),
                working_dir: props.current_dir.clone(),
            },
        )
    }

    /// Reports that the cell runs and asks the host to run the handler of
    /// `action`.
    fn hand_over(&self, action: Internal, props: &CellProps, communication: &mut Communication) -> (outcome:
        Result<Action, CellError>)
        requires
            !old(communication)@.closed,
        ensures
            outcome_view(outcome) == Ok::<ActionView, CellErrorView>(
                ActionView::RunInternal { action, args: self@.args },
            ),
            final(communication)@ == old(communication)@.accept(seq![running_in(props@.current_dir)]),
    {
        let _ = communication.send(
            ServerMessage::StatusChanged {
                state: CellState::Running,
                working_dir: props.current_dir.clone(),
            },
        );
        Ok(Action::RunInternal { action, args: copy_texts(&self.args) })
    }
}

} // verus!
