//! The logic of an interactive shell that runs its commands under a
//! pseudo-terminal: the line editor, tab completion, the command dispatcher
//! and the steps of the pseudo-terminal bridge.
//!
//! Nothing here reads a key, asks the file system or starts a process. Each
//! part takes what was read as plain values and says what is to be done
//! next; a driver around the library does it.

pub mod bridge;
pub mod command;
pub mod completion;
pub mod dispatch;
pub mod editor;
pub mod launch;
pub mod listing;
pub mod resolve;
pub mod text;
