//! The data model of the cell protocol.
use vstd::prelude::*;

verus! {

/// The mathematical value of a list of strings.
pub open spec fn texts(v: Seq<String>) -> Seq<Seq<char>> {
    Seq::new(v.len(), |i: int| v[i]@)
}

/// One of the two output streams of a process.
#[derive(Clone, Copy, Debug, PartialEq, Eq, Structural)]
pub enum Stream {
    Stdout,
    Stderr,
}

/// The lifecycle state of a cell. `Completed`, `Cancelled` and `Failed`
/// are terminal: nothing leads out of them.
#[derive(Clone, Copy, Debug, PartialEq, Eq, Structural)]
pub enum CellState {
    Created,
    Classifying,
    Running,
    Completed,
    Cancelled,
    Failed,
}

impl CellState {
    pub open spec fn is_terminal(self) -> bool {
        self == CellState::Completed || self == CellState::Cancelled || self == CellState::Failed
    }

    /// Whether the state is final.
    pub fn terminal(&self) -> (b: bool)
        ensures
            b == self.is_terminal(),
    {
        match self {
            CellState::Completed | CellState::Cancelled | CellState::Failed => true,
            _ => false,
        }
    }
}

/// Identity and parameters of one cell invocation.
#[derive(Clone, Debug, PartialEq, Eq)]
pub struct CellProps {
    /// Stable identifier of the cell.
    pub id: String,
    /// The command token as typed.
    pub command: String,
    /// The arguments that follow the command token.
    pub args: Vec<String>,
    /// The working directory of the cell.
    pub current_dir: String,
}

pub struct CellPropsView {
    pub id: Seq<char>,
    pub command: Seq<char>,
    pub args: Seq<Seq<char>>,
    pub current_dir: Seq<char>,
}

impl View for CellProps {
    type V = CellPropsView;

    open spec fn view(&self) -> CellPropsView {
        CellPropsView {
            id: self.id@,
            command: self.command@,
            args: texts(self.args@),
            current_dir: self.current_dir@,
        }
    }
}

/// Outbound protocol message, from the engine to the UI.
#[derive(Clone, Debug, PartialEq, Eq)]
pub enum ServerMessage {
    /// Bytes read from one stream of the running process.
    OutputChunk { data: Vec<u8>, stream: Stream },
    /// The cell entered `state`; `working_dir` is its working context.
    StatusChanged { state: CellState, working_dir: String },
    /// The cell completed with this exit code.
    Completed(i32),
    /// The cell failed; the text says why.
    Error(String),
}

pub enum ServerMessageView {
    OutputChunk { data: Seq<u8>, stream: Stream },
    StatusChanged { state: CellState, working_dir: Seq<char> },
    Completed(i32),
    Error(Seq<char>),
}

impl ServerMessageView {
    /// A terminal message ends the outbound stream of a cell: a completion,
    /// an error, or the report of a terminal state.
    pub open spec fn is_terminal(self) -> bool {
        match self {
            ServerMessageView::OutputChunk { .. } => false,
            ServerMessageView::StatusChanged { state, .. } => state.is_terminal(),
            ServerMessageView::Completed(_) => true,
            ServerMessageView::Error(_) => true,
        }
    }
}

impl View for ServerMessage {
    type V = ServerMessageView;

    open spec fn view(&self) -> ServerMessageView {
        match self {
            ServerMessage::OutputChunk { data, stream } => ServerMessageView::OutputChunk {
                data: data@,
                stream: *stream,
            },
            ServerMessage::StatusChanged { state, working_dir } => ServerMessageView::StatusChanged {
                state: *state,
                working_dir: working_dir@,
            },
            ServerMessage::Completed(code) => ServerMessageView::Completed(*code),
            ServerMessage::Error(text) => ServerMessageView::Error(text@),
        }
    }
}

impl ServerMessage {
    /// Whether this message ends the outbound stream of its cell.
    pub fn is_terminal(&self) -> (b: bool)
        ensures
            b == self@.is_terminal(),
    {
        match self {
            ServerMessage::OutputChunk { .. } => false,
            ServerMessage::StatusChanged { state, .. } => state.terminal(),
            ServerMessage::Completed(_) => true,
            ServerMessage::Error(_) => true,
        }
    }
}

/// The mathematical value of a list of outbound messages.
pub open spec fn message_views(v: Seq<ServerMessage>) -> Seq<ServerMessageView> {
    Seq::new(v.len(), |i: int| v[i]@)
}

/// Inbound protocol message, from the UI to the engine.
#[derive(Clone, Debug, PartialEq, Eq)]
pub enum FrontendMessage {
    /// Data for the input stream of the running process.
    Input(Vec<u8>),
    /// A request to cancel the cell.
    Interrupt,
    /// The UI changed the size of the cell's terminal.
    Resize { cols: u16, rows: u16 },
}

pub enum FrontendMessageView {
    Input(Seq<u8>),
    Interrupt,
    Resize { cols: u16, rows: u16 },
}

impl View for FrontendMessage {
    type V = FrontendMessageView;

    open spec fn view(&self) -> FrontendMessageView {
        match self {
            FrontendMessage::Input(data) => FrontendMessageView::Input(data@),
            FrontendMessage::Interrupt => FrontendMessageView::Interrupt,
            FrontendMessage::Resize { cols, rows } => FrontendMessageView::Resize {
                cols: *cols,
                rows: *rows,
            },
        }
    }
}

} // verus!
