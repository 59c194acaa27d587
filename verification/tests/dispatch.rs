use cell_engine::channel::Communication;
use cell_engine::classifier::{ExecutableIndex, PathProbe};
use cell_engine::command::{copy_texts, Action, Command, Internal};
use cell_engine::error::CellError;
use cell_engine::message::{CellProps, CellState, ServerMessage, Stream};

fn props(command: &str, args: &[&str]) -> CellProps {
    CellProps {
        id: "cell-1".to_string(),
        command: command.to_string(),
        args: args.iter().map(|a| a.to_string()).collect(),
        current_dir: "/tmp".to_string(),
    }
}

fn command(token: &str, args: &[&str], probe: PathProbe, names: &[&str]) -> Command {
    let mut index = ExecutableIndex::new();
    for name in names {
        index.insert(name.to_string());
    }
    Command::new(token.to_string(), args.iter().map(|a| a.to_string()).collect(), &probe, &index)
}

const MISSING: PathProbe = PathProbe { as_given: false, in_working_dir: false, directory: false };
const FILE: PathProbe = PathProbe { as_given: false, in_working_dir: true, directory: false };
const DIRECTORY: PathProbe = PathProbe { as_given: false, in_working_dir: true, directory: true };

fn running() -> ServerMessage {
    ServerMessage::StatusChanged { state: CellState::Running, working_dir: "/tmp".to_string() }
}

#[test]
fn error_descriptions_are_exact() {
    assert_eq!(
        CellError::NotFoundCommand("frobnicate".to_string()).description(),
        "command not found: frobnicate"
    );
    assert_eq!(
        CellError::SpawnFailure("permission denied".to_string()).description(),
        "spawn failed: permission denied"
    );
    assert_eq!(
        CellError::StreamIOFailure("broken pipe".to_string()).description(),
        "stream i/o failed: broken pipe"
    );
    assert_eq!(CellError::ChannelClosed.description(), "cell no longer accepting input");
    assert_eq!(CellError::Timeout.description(), "classification timed out");
    assert_eq!(
        CellError::ClassificationAmbiguous.description(),
        "command classification is ambiguous"
    );
}

#[test]
fn not_found_and_spawn_failure_read_differently() {
    let a = CellError::NotFoundCommand("x".to_string()).description();
    let b = CellError::SpawnFailure("x".to_string()).description();
    assert_ne!(a, b);
    assert_ne!(
        CellError::NotFoundCommand(String::new()).description(),
        CellError::SpawnFailure(String::new()).description()
    );
}

#[test]
fn terminal_messages() {
    assert!(ServerMessage::Completed(0).is_terminal());
    assert!(ServerMessage::Completed(-1).is_terminal());
    assert!(ServerMessage::Error("x".to_string()).is_terminal());
    assert!(ServerMessage::StatusChanged {
        state: CellState::Cancelled,
        working_dir: "/".to_string()
    }
    .is_terminal());
    assert!(!running().is_terminal());
    assert!(!ServerMessage::StatusChanged {
        state: CellState::Classifying,
        working_dir: "/".to_string()
    }
    .is_terminal());
    assert!(!ServerMessage::OutputChunk { data: vec![1, 2], stream: Stream::Stdout }.is_terminal());
}

#[test]
fn terminal_states() {
    assert!(!CellState::Created.terminal());
    assert!(!CellState::Classifying.terminal());
    assert!(!CellState::Running.terminal());
    assert!(CellState::Completed.terminal());
    assert!(CellState::Cancelled.terminal());
    assert!(CellState::Failed.terminal());
}

#[test]
fn channel_starts_open_and_empty() {
    let channel = Communication::new();
    assert!(!channel.is_closed());
    assert_eq!(channel.pending(), 0);
}

#[test]
fn channel_keeps_order() {
    let mut channel = Communication::new();
    let a = ServerMessage::OutputChunk { data: b"a".to_vec(), stream: Stream::Stdout };
    let b = ServerMessage::OutputChunk { data: b"b".to_vec(), stream: Stream::Stderr };
    let c = ServerMessage::OutputChunk { data: b"c".to_vec(), stream: Stream::Stdout };
    assert_eq!(channel.send(a.clone()), Ok(()));
    assert_eq!(channel.send(b.clone()), Ok(()));
    assert_eq!(channel.pending(), 2);
    assert_eq!(channel.drain(), vec![a, b]);
    assert_eq!(channel.pending(), 0);
    assert_eq!(channel.send(c.clone()), Ok(()));
    assert_eq!(channel.drain(), vec![c]);
    assert!(!channel.is_closed());
}

#[test]
fn channel_closes_on_terminal_message() {
    let mut channel = Communication::new();
    assert_eq!(channel.send(running()), Ok(()));
    assert!(!channel.is_closed());
    assert_eq!(channel.send(ServerMessage::Completed(3)), Ok(()));
    assert!(channel.is_closed());
    assert_eq!(channel.send(running()), Err(CellError::ChannelClosed));
    assert_eq!(channel.send(ServerMessage::Completed(0)), Err(CellError::ChannelClosed));
    assert_eq!(channel.drain(), vec![running(), ServerMessage::Completed(3)]);
    assert!(channel.is_closed());
    assert_eq!(channel.send(running()), Err(CellError::ChannelClosed));
    assert_eq!(channel.drain(), vec![]);
}

#[test]
fn copy_texts_copies() {
    let list = vec!["a".to_string(), String::new(), "b c".to_string()];
    assert_eq!(copy_texts(&list), list);
    assert_eq!(copy_texts(&vec![]), Vec::<String>::new());
}

#[test]
fn execute_external_asks_for_a_process() {
    let command = command("ls", &["-l"], MISSING, &["ls"]);
    let mut channel = Communication::new();
    let outcome = command.execute(&props("ls", &["-l"]), &mut channel);
    assert_eq!(
        outcome,
        Ok(Action::Spawn {
            program: "ls".to_string(),
            args: vec!["-l".to_string()],
            working_dir: "/tmp".to_string(),
        })
    );
    assert_eq!(channel.drain(), vec![running()]);
    assert!(!channel.is_closed());
}

#[test]
fn execute_path_asks_for_a_process() {
    let command = command("./script.sh", &[], FILE, &[]);
    let mut channel = Communication::new();
    let outcome = command.execute(&props("./script.sh", &[]), &mut channel);
    assert_eq!(
        outcome,
        Ok(Action::Spawn {
            program: "./script.sh".to_string(),
            args: vec![],
            working_dir: "/tmp".to_string(),
        })
    );
    assert_eq!(channel.drain(), vec![running()]);
}

#[test]
fn execute_directory_reports_working_context() {
    let command = command("src", &[], DIRECTORY, &[]);
    let mut channel = Communication::new();
    let outcome = command.execute(&props("src", &[]), &mut channel);
    assert_eq!(outcome, Ok(Action::Close));
    assert_eq!(
        channel.drain(),
        vec![
            ServerMessage::StatusChanged {
                state: CellState::Running,
                working_dir: "src".to_string()
            },
            ServerMessage::Completed(0),
        ]
    );
    assert!(channel.is_closed());
}

#[test]
fn execute_not_found_emits_single_error() {
    let command = command("frobnicate", &[], MISSING, &["ls"]);
    let mut channel = Communication::new();
    let outcome = command.execute(&props("frobnicate", &[]), &mut channel);
    assert_eq!(outcome, Err(CellError::NotFoundCommand("frobnicate".to_string())));
    assert_eq!(
        channel.drain(),
        vec![ServerMessage::Error("command not found: frobnicate".to_string())]
    );
    assert!(channel.is_closed());
}

#[test]
fn execute_internal_actions() {
    for (token, action) in [
        ("view", Internal::View),
        ("write", Internal::Write),
        ("shortcuts", Internal::Shortcuts),
    ] {
        let command = command(token, &["a.txt"], MISSING, &[]);
        let mut channel = Communication::new();
        let outcome = command.execute(&props(token, &["a.txt"]), &mut channel);
        assert_eq!(
            outcome,
            Ok(Action::RunInternal { action, args: vec!["a.txt".to_string()] })
        );
        assert_eq!(channel.drain(), vec![running()]);
    }
}

#[test]
fn execute_on_closed_channel_does_nothing() {
    let command = command("ls", &[], MISSING, &["ls"]);
    let mut channel = Communication::new();
    channel.send(ServerMessage::Completed(0)).unwrap();
    channel.drain();
    let outcome = command.execute(&props("ls", &[]), &mut channel);
    assert_eq!(outcome, Err(CellError::ChannelClosed));
    assert_eq!(channel.pending(), 0);
}
