use cell_engine::cell::{Cell, Event, Phase};
use cell_engine::channel::Communication;
use cell_engine::classifier::{ExecutableIndex, Kind, PathProbe};
use cell_engine::command::{Action, Command, Internal};
use cell_engine::error::CellError;
use cell_engine::message::{CellProps, CellState, FrontendMessage, ServerMessage, Stream};

const MISSING: PathProbe = PathProbe { as_given: false, in_working_dir: false, directory: false };
const FILE: PathProbe = PathProbe { as_given: false, in_working_dir: true, directory: false };
const DIRECTORY: PathProbe = PathProbe { as_given: true, in_working_dir: false, directory: true };

fn props(command: &str, args: &[&str]) -> CellProps {
    CellProps {
        id: "cell-7".to_string(),
        command: command.to_string(),
        args: args.iter().map(|a| a.to_string()).collect(),
        current_dir: "/tmp".to_string(),
    }
}

fn classified(token: &str, args: &[&str], probe: PathProbe) -> Command {
    let mut index = ExecutableIndex::new();
    for name in ["ls", "cat", "sleep"] {
        index.insert(name.to_string());
    }
    Command::new(token.to_string(), args.iter().map(|a| a.to_string()).collect(), &probe, &index)
}

fn status(state: CellState) -> ServerMessage {
    ServerMessage::StatusChanged { state, working_dir: "/tmp".to_string() }
}

fn out(data: &[u8]) -> Event {
    Event::Output { stream: Stream::Stdout, data: data.to_vec() }
}

fn err(data: &[u8]) -> Event {
    Event::Output { stream: Stream::Stderr, data: data.to_vec() }
}

fn chunk(stream: Stream, data: &[u8]) -> ServerMessage {
    ServerMessage::OutputChunk { data: data.to_vec(), stream }
}

fn interrupt() -> Event {
    Event::Frontend(FrontendMessage::Interrupt)
}

/// A cell that runs `token`, with what it emitted on the way taken out.
fn running(token: &str, args: &[&str], probe: PathProbe) -> Cell {
    let mut cell = Cell::new(props(token, args), Communication::new()).unwrap();
    cell.handle(Event::Start);
    cell.handle(Event::Classified(classified(token, args, probe)));
    assert_eq!(cell.state(), CellState::Running);
    cell.drain();
    cell
}

/// Feeds `events` and returns every message emitted and the last action.
fn feed(cell: &mut Cell, events: Vec<Event>) -> (Vec<ServerMessage>, Vec<Action>) {
    let mut messages = vec![];
    let mut actions = vec![];
    for event in events {
        actions.push(cell.handle(event));
        messages.extend(cell.drain());
    }
    (messages, actions)
}

fn bytes_of(messages: &[ServerMessage], wanted: Stream) -> Vec<u8> {
    let mut bytes = vec![];
    for message in messages {
        if let ServerMessage::OutputChunk { data, stream } = message {
            if *stream == wanted {
                bytes.extend_from_slice(data);
            }
        }
    }
    bytes
}

#[test]
fn new_cell_is_created() {
    let cell = Cell::new(props("ls", &[]), Communication::new()).unwrap();
    assert_eq!(cell.state(), CellState::Created);
    assert_eq!(cell.phase(), Phase::Live);
    assert_eq!(cell.props(), &props("ls", &[]));
    assert!(cell.command().is_none());
}

#[test]
fn new_cell_refuses_closed_channel() {
    let mut channel = Communication::new();
    channel.send(ServerMessage::Completed(0)).unwrap();
    let made = Cell::new(props("ls", &[]), channel);
    assert!(matches!(made, Err(CellError::ChannelClosed)));
}

#[test]
fn new_cell_keeps_pending_messages() {
    let mut channel = Communication::new();
    channel.send(status(CellState::Created)).unwrap();
    let mut cell = Cell::new(props("ls", &[]), channel).unwrap();
    assert_eq!(cell.drain(), vec![status(CellState::Created)]);
}

#[test]
fn start_asks_for_classification() {
    let mut cell = Cell::new(props("ls", &[]), Communication::new()).unwrap();
    assert_eq!(cell.handle(Event::Start), Action::Classify);
    assert_eq!(cell.state(), CellState::Classifying);
    assert_eq!(cell.drain(), vec![status(CellState::Classifying)]);
}

#[test]
fn created_cell_ignores_everything_but_start() {
    let mut cell = Cell::new(props("ls", &[]), Communication::new()).unwrap();
    let (messages, actions) = feed(
        &mut cell,
        vec![
            out(b"x"),
            Event::Exited(0),
            interrupt(),
            Event::Classified(classified("ls", &[], MISSING)),
            Event::GraceExpired,
            Event::KillExpired,
            Event::ClassificationTimedOut,
            Event::SpawnFailed("x".to_string()),
        ],
    );
    assert!(messages.is_empty());
    assert!(actions.iter().all(|a| *a == Action::Idle));
    assert_eq!(cell.state(), CellState::Created);
    assert!(cell.command().is_none());
}

#[test]
fn classifying_cell_ignores_interrupt_and_output() {
    let mut cell = Cell::new(props("ls", &[]), Communication::new()).unwrap();
    cell.handle(Event::Start);
    cell.drain();
    let (messages, actions) =
        feed(&mut cell, vec![interrupt(), out(b"x"), Event::Start, Event::Exited(1)]);
    assert!(messages.is_empty());
    assert!(actions.iter().all(|a| *a == Action::Idle));
    assert_eq!(cell.state(), CellState::Classifying);
}

#[test]
fn classification_timeout_fails_the_cell() {
    let mut cell = Cell::new(props("ls", &[]), Communication::new()).unwrap();
    cell.handle(Event::Start);
    cell.drain();
    assert_eq!(cell.handle(Event::ClassificationTimedOut), Action::Close);
    assert_eq!(cell.state(), CellState::Failed);
    assert_eq!(cell.drain(), vec![ServerMessage::Error("classification timed out".to_string())]);
}

#[test]
fn ls_runs_to_completion() {
    let mut cell = Cell::new(props("ls", &[]), Communication::new()).unwrap();
    assert_eq!(cell.handle(Event::Start), Action::Classify);
    let command = classified("ls", &[], MISSING);
    assert_eq!(command.kind(), &Kind::External("ls".to_string()));
    assert_eq!(
        cell.handle(Event::Classified(command.clone())),
        Action::Spawn { program: "ls".to_string(), args: vec![], working_dir: "/tmp".to_string() }
    );
    assert_eq!(cell.state(), CellState::Running);
    assert_eq!(cell.command(), Some(&command));
    let (messages, actions) = feed(
        &mut cell,
        vec![
            out(b"a.txt\n"),
            out(b"b.txt\n"),
            Event::StreamClosed(Stream::Stdout),
            Event::StreamClosed(Stream::Stderr),
            Event::Exited(0),
        ],
    );
    assert_eq!(
        messages,
        vec![
            status(CellState::Classifying),
            status(CellState::Running),
            chunk(Stream::Stdout, b"a.txt\n"),
            chunk(Stream::Stdout, b"b.txt\n"),
            ServerMessage::Completed(0),
        ]
    );
    assert_eq!(
        actions,
        vec![Action::Idle, Action::Idle, Action::Idle, Action::Idle, Action::Close]
    );
    assert_eq!(cell.state(), CellState::Completed);
}

#[test]
fn executable_path_runs_like_external() {
    let mut cell = Cell::new(props("./script.sh", &["x"]), Communication::new()).unwrap();
    cell.handle(Event::Start);
    let action = cell.handle(Event::Classified(classified("./script.sh", &["x"], FILE)));
    assert_eq!(
        action,
        Action::Spawn {
            program: "./script.sh".to_string(),
            args: vec!["x".to_string()],
            working_dir: "/tmp".to_string(),
        }
    );
    cell.drain();
    let (messages, _) = feed(
        &mut cell,
        vec![
            out(b"hi"),
            Event::Exited(2),
            Event::StreamClosed(Stream::Stderr),
            Event::StreamClosed(Stream::Stdout),
        ],
    );
    assert_eq!(messages, vec![chunk(Stream::Stdout, b"hi"), ServerMessage::Completed(2)]);
    assert_eq!(cell.state(), CellState::Completed);
}

#[test]
fn directory_path_completes_without_a_process() {
    let mut cell = Cell::new(props("/var", &[]), Communication::new()).unwrap();
    cell.handle(Event::Start);
    cell.drain();
    let action = cell.handle(Event::Classified(classified("/var", &[], DIRECTORY)));
    assert_eq!(action, Action::Close);
    assert_eq!(cell.state(), CellState::Completed);
    assert_eq!(
        cell.drain(),
        vec![
            ServerMessage::StatusChanged {
                state: CellState::Running,
                working_dir: "/var".to_string()
            },
            ServerMessage::Completed(0),
        ]
    );
}

#[test]
fn frobnicate_fails_without_a_process() {
    let mut cell = Cell::new(props("frobnicate", &[]), Communication::new()).unwrap();
    cell.handle(Event::Start);
    cell.drain();
    let command = classified("frobnicate", &[], MISSING);
    assert_eq!(command.kind(), &Kind::NotFound);
    let action = cell.handle(Event::Classified(command));
    assert_eq!(action, Action::Close);
    assert_eq!(cell.state(), CellState::Failed);
    assert_eq!(
        cell.drain(),
        vec![ServerMessage::Error("command not found: frobnicate".to_string())]
    );
}

#[test]
fn internal_action_completes_on_exit() {
    let mut cell = Cell::new(props("view", &["a.txt"]), Communication::new()).unwrap();
    cell.handle(Event::Start);
    let action = cell.handle(Event::Classified(classified("view", &["a.txt"], MISSING)));
    assert_eq!(
        action,
        Action::RunInternal { action: Internal::View, args: vec!["a.txt".to_string()] }
    );
    cell.drain();
    let (messages, actions) = feed(&mut cell, vec![out(b"text"), Event::Exited(0)]);
    assert_eq!(messages, vec![chunk(Stream::Stdout, b"text"), ServerMessage::Completed(0)]);
    assert_eq!(actions, vec![Action::Idle, Action::Close]);
    assert_eq!(cell.state(), CellState::Completed);
}

#[test]
fn reclassification_is_ignored() {
    let mut cell = running("ls", &[], MISSING);
    let first = cell.command().cloned();
    let action = cell.handle(Event::Classified(classified("cat", &[], MISSING)));
    assert_eq!(action, Action::Idle);
    assert_eq!(cell.command().cloned(), first);
    assert!(cell.drain().is_empty());
}

#[test]
fn completion_waits_for_both_streams() {
    let mut cell = running("ls", &[], MISSING);
    assert_eq!(cell.handle(Event::Exited(0)), Action::Idle);
    assert_eq!(cell.state(), CellState::Running);
    assert_eq!(cell.handle(Event::StreamClosed(Stream::Stdout)), Action::Idle);
    assert_eq!(cell.handle(out(b"late")), Action::Idle);
    assert_eq!(cell.state(), CellState::Running);
    assert_eq!(cell.handle(Event::StreamClosed(Stream::Stderr)), Action::Close);
    assert_eq!(cell.state(), CellState::Completed);
    assert_eq!(cell.drain(), vec![chunk(Stream::Stdout, b"late"), ServerMessage::Completed(0)]);
}

#[test]
fn output_is_preserved_per_stream() {
    let mut cell = running("cat", &[], MISSING);
    let (messages, _) = feed(
        &mut cell,
        vec![
            out(b"he"),
            err(b"wa"),
            out(b""),
            out(b"llo"),
            err(b"rn"),
            Event::Frontend(FrontendMessage::Input(b"x".to_vec())),
            out(b"\n"),
            Event::StreamClosed(Stream::Stdout),
            err(b"!"),
            Event::StreamClosed(Stream::Stderr),
            Event::Exited(0),
        ],
    );
    assert_eq!(bytes_of(&messages, Stream::Stdout), b"hello\n".to_vec());
    assert_eq!(bytes_of(&messages, Stream::Stderr), b"warn!".to_vec());
    assert_eq!(messages.len(), 8);
    assert_eq!(messages[2], chunk(Stream::Stdout, b""));
    assert_eq!(messages.last(), Some(&ServerMessage::Completed(0)));
}

#[test]
fn input_reaches_the_process_verbatim() {
    let mut cell = running("cat", &[], MISSING);
    let action = cell.handle(Event::Frontend(FrontendMessage::Input(b"y\n".to_vec())));
    assert_eq!(action, Action::WriteInput(b"y\n".to_vec()));
    assert_eq!(cell.state(), CellState::Running);
    assert!(cell.drain().is_empty());
    let (messages, _) = feed(
        &mut cell,
        vec![
            out(b"y\n"),
            Event::StreamClosed(Stream::Stdout),
            Event::StreamClosed(Stream::Stderr),
            Event::Exited(0),
        ],
    );
    assert_eq!(messages, vec![chunk(Stream::Stdout, b"y\n"), ServerMessage::Completed(0)]);
}

#[test]
fn consecutive_inputs_are_not_coalesced() {
    let mut cell = running("cat", &[], MISSING);
    let (_, actions) = feed(
        &mut cell,
        vec![
            Event::Frontend(FrontendMessage::Input(b"a".to_vec())),
            Event::Frontend(FrontendMessage::Input(b"b".to_vec())),
        ],
    );
    assert_eq!(
        actions,
        vec![Action::WriteInput(b"a".to_vec()), Action::WriteInput(b"b".to_vec())]
    );
}

#[test]
fn resize_reaches_the_process() {
    let mut cell = running("cat", &[], MISSING);
    let action = cell.handle(Event::Frontend(FrontendMessage::Resize { cols: 120, rows: 40 }));
    assert_eq!(action, Action::Resize { cols: 120, rows: 40 });
}

#[test]
fn spawn_failure_fails_the_cell() {
    let mut cell = running("ls", &[], MISSING);
    let action = cell.handle(Event::SpawnFailed("No such file or directory".to_string()));
    assert_eq!(action, Action::Close);
    assert_eq!(cell.state(), CellState::Failed);
    assert_eq!(
        cell.drain(),
        vec![ServerMessage::Error("spawn failed: No such file or directory".to_string())]
    );
}

#[test]
fn stream_failure_keeps_partial_output() {
    let mut cell = running("ls", &[], MISSING);
    let (messages, actions) =
        feed(&mut cell, vec![out(b"part"), Event::StreamFailed("broken pipe".to_string())]);
    assert_eq!(
        messages,
        vec![
            chunk(Stream::Stdout, b"part"),
            ServerMessage::Error("stream i/o failed: broken pipe".to_string()),
        ]
    );
    assert_eq!(actions, vec![Action::Idle, Action::Close]);
    assert_eq!(cell.state(), CellState::Failed);
}

#[test]
fn interrupt_then_exit_cancels() {
    let mut cell = running("sleep", &["100"], MISSING);
    assert_eq!(cell.handle(interrupt()), Action::Terminate);
    assert_eq!(cell.state(), CellState::Running);
    assert_eq!(cell.phase(), Phase::Terminating);
    assert!(cell.drain().is_empty());
    assert_eq!(cell.handle(Event::Exited(143)), Action::Close);
    assert_eq!(cell.state(), CellState::Cancelled);
    assert_eq!(cell.drain(), vec![status(CellState::Cancelled)]);
}

#[test]
fn interrupt_ignored_by_process_still_cancels() {
    let mut cell = running("sleep", &["100"], MISSING);
    let (messages, actions) = feed(
        &mut cell,
        vec![
            interrupt(),
            out(b"ignoring"),
            interrupt(),
            Event::KillExpired,
            Event::GraceExpired,
            Event::GraceExpired,
            err(b"still here"),
            Event::KillExpired,
        ],
    );
    assert_eq!(
        actions,
        vec![
            Action::Terminate,
            Action::Idle,
            Action::Idle,
            Action::Idle,
            Action::Kill,
            Action::Idle,
            Action::Idle,
            Action::Close,
        ]
    );
    assert_eq!(
        messages,
        vec![
            chunk(Stream::Stdout, b"ignoring"),
            chunk(Stream::Stderr, b"still here"),
            status(CellState::Cancelled),
        ]
    );
    assert_eq!(cell.state(), CellState::Cancelled);
    assert_eq!(cell.phase(), Phase::Killing);
}

#[test]
fn interrupt_after_exit_cancels_at_once() {
    let mut cell = running("ls", &[], MISSING);
    cell.handle(Event::Exited(0));
    assert_eq!(cell.handle(interrupt()), Action::Close);
    assert_eq!(cell.state(), CellState::Cancelled);
    assert_eq!(cell.drain(), vec![status(CellState::Cancelled)]);
}

#[test]
fn failures_after_interrupt_cancel() {
    let mut cell = running("ls", &[], MISSING);
    cell.handle(interrupt());
    assert_eq!(cell.handle(Event::StreamFailed("x".to_string())), Action::Close);
    assert_eq!(cell.state(), CellState::Cancelled);
    let mut cell = running("ls", &[], MISSING);
    cell.handle(interrupt());
    assert_eq!(cell.handle(Event::SpawnFailed("x".to_string())), Action::Close);
    assert_eq!(cell.state(), CellState::Cancelled);
}

#[test]
fn streams_closing_after_interrupt_do_not_complete() {
    let mut cell = running("ls", &[], MISSING);
    let (messages, actions) = feed(
        &mut cell,
        vec![
            interrupt(),
            Event::StreamClosed(Stream::Stdout),
            Event::StreamClosed(Stream::Stderr),
            Event::Frontend(FrontendMessage::Input(b"x".to_vec())),
            Event::Frontend(FrontendMessage::Resize { cols: 1, rows: 1 }),
        ],
    );
    assert!(messages.is_empty());
    assert_eq!(
        actions,
        vec![Action::Terminate, Action::Idle, Action::Idle, Action::Idle, Action::Idle]
    );
    assert_eq!(cell.state(), CellState::Running);
}

#[test]
fn timers_without_interrupt_are_ignored() {
    let mut cell = running("ls", &[], MISSING);
    let (messages, actions) = feed(&mut cell, vec![Event::GraceExpired, Event::KillExpired]);
    assert!(messages.is_empty());
    assert_eq!(actions, vec![Action::Idle, Action::Idle]);
    assert_eq!(cell.state(), CellState::Running);
    assert_eq!(cell.phase(), Phase::Live);
}

#[test]
fn nothing_is_emitted_after_the_end() {
    for last in [
        Event::Exited(0),
        Event::StreamFailed("x".to_string()),
        Event::SpawnFailed("x".to_string()),
    ] {
        let mut cell = running("view", &[], MISSING);
        cell.handle(last);
        let ended = cell.state();
        assert!(ended.terminal());
        cell.drain();
        let (messages, actions) = feed(
            &mut cell,
            vec![
                out(b"late"),
                Event::Exited(1),
                interrupt(),
                Event::Frontend(FrontendMessage::Input(b"x".to_vec())),
                Event::Start,
                Event::Classified(classified("ls", &[], MISSING)),
                Event::StreamClosed(Stream::Stdout),
                Event::GraceExpired,
                Event::KillExpired,
                Event::StreamFailed("y".to_string()),
            ],
        );
        assert!(messages.is_empty());
        assert!(actions.iter().all(|a| *a == Action::Idle));
        assert_eq!(cell.state(), ended);
    }
}

#[test]
fn terminal_message_is_last_of_the_run() {
    let mut cell = Cell::new(props("ls", &[]), Communication::new()).unwrap();
    let (messages, _) = feed(
        &mut cell,
        vec![
            Event::Start,
            Event::Classified(classified("ls", &[], MISSING)),
            out(b"1"),
            interrupt(),
            out(b"2"),
            Event::Exited(9),
            out(b"3"),
            Event::Exited(0),
        ],
    );
    let terminal: Vec<usize> = messages
        .iter()
        .enumerate()
        .filter(|(_, m)| m.is_terminal())
        .map(|(i, _)| i)
        .collect();
    assert_eq!(terminal, vec![messages.len() - 1]);
    assert_eq!(messages.last(), Some(&status(CellState::Cancelled)));
}
