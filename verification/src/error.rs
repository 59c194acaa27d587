//! Error kinds of the engine and their descriptions.
use vstd::prelude::*;
use vstd::string::*;

verus! {

/// What can go wrong while a cell is classified and run.
#[derive(Clone, Debug, PartialEq, Eq)]
pub enum CellError {
    /// A token matched more than one kind. The classifier is total and
    /// ordered, so it never reports this; hosts that classify by other
    /// means may.
    ClassificationAmbiguous,
    /// The token names no path, no internal action and no executable.
    NotFoundCommand(String),
    /// The resolved executable could not be started; the text is the reason.
    SpawnFailure(String),
    /// Reading or writing a stream of the process failed; the text is the
    /// reason.
    StreamIOFailure(String),
    /// The channel of the cell was used after the cell ended.
    ChannelClosed,
    /// Classification did not finish in time.
    Timeout,
}

pub enum CellErrorView {
    ClassificationAmbiguous,
    NotFoundCommand(Seq<char>),
    SpawnFailure(Seq<char>),
    StreamIOFailure(Seq<char>),
    ChannelClosed,
    Timeout,
}

impl View for CellError {
    type V = CellErrorView;

    open spec fn view(&self) -> CellErrorView {
        match self {
            CellError::ClassificationAmbiguous => CellErrorView::ClassificationAmbiguous,
            CellError::NotFoundCommand(token) => CellErrorView::NotFoundCommand(token@),
            CellError::SpawnFailure(reason) => CellErrorView::SpawnFailure(reason@),
            CellError::StreamIOFailure(reason) => CellErrorView::StreamIOFailure(reason@),
            CellError::ChannelClosed => CellErrorView::ChannelClosed,
            CellError::Timeout => CellErrorView::Timeout,
        }
    }
}

impl CellErrorView {
    /// The text shown to the user for this error.
    pub open spec fn description(self) -> Seq<char> {
        match self {
            CellErrorView::ClassificationAmbiguous => "command classification is ambiguous"@,
            CellErrorView::NotFoundCommand(token) => "command not found: "@ + token,
            CellErrorView::SpawnFailure(reason) => "spawn failed: "@ + reason,
            CellErrorView::StreamIOFailure(reason) => "stream i/o failed: "@ + reason,
            CellErrorView::ChannelClosed => "cell no longer accepting input"@,
            CellErrorView::Timeout => "classification timed out"@,
        }
    }
}

impl CellError {
    /// The text shown to the user for this error.
    pub fn description(&self) -> (text: String)
        ensures
            text@ == self@.description(),
    {
        match self {
            CellError::ClassificationAmbiguous => String::from_str(
                "command classification is ambiguous",
            ),
            CellError::NotFoundCommand(token) => String::from_str("command not found: ").concat(
                token.as_str(),
            ),
            CellError::SpawnFailure(reason) => String::from_str("spawn failed: ").concat(
                reason.as_str(),
            ),
            CellError::StreamIOFailure(reason) => String::from_str("stream i/o failed: ").concat(
                reason.as_str(),
            ),
            CellError::ChannelClosed => String::from_str("cell no longer accepting input"),
            CellError::Timeout => String::from_str("classification timed out"),
        }
    }
}

/// A command that was not found and a command that could not be started
/// are never described by the same text, whatever the token and the reason.
pub proof fn law_not_found_differs_from_spawn_failure(token: Seq<char>, reason: Seq<char>)
    ensures
        CellErrorView::NotFoundCommand(token).description() != CellErrorView::SpawnFailure(
            reason,
        ).description(),
{
    reveal_strlit("command not found: ");
    reveal_strlit("spawn failed: ");
    let a = CellErrorView::NotFoundCommand(token).description();
    let b = CellErrorView::SpawnFailure(reason).description();
    assert(a[0] == 'c');
    assert(b[0] == 's');
}

} // verus!
