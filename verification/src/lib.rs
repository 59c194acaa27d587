//! A cell execution engine: the decision logic that turns one command line
//! typed into a host UI into a stream of protocol messages.
//!
//! The crate is split by component:
//!
//! * [`message`]: the data model of the protocol (cell parameters, lifecycle
//!   states, outbound and inbound messages);
//! * [`error`]: the error kinds and their human-readable descriptions;
//! * [`classifier`]: the executable index and the command classifier;
//! * [`channel`]: the ordered outbound mailbox of a cell;
//! * [`command`]: a classified command and its dispatch;
//! * [`cell`]: the cell state machine, from state and event to next state,
//!   emitted messages and an action for the host to perform;
//! * [`trace`]: what holds of every run of a cell;
//! * [`suggest`]: ranking of completion candidates;
//! * [`text`]: white space, first words and decimal numbers.
//!
//! Everything here is pure: the host performs the actions (starting
//! processes, reading streams, waiting on timers) and reports back events.
pub mod cell;
pub mod channel;
pub mod classifier;
pub mod command;
pub mod error;
pub mod message;
pub mod suggest;
pub mod text;
pub mod trace;
