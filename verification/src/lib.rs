//! Command resolution for a command-line companion that stores commands at a
//! server and runs them on request.
//!
//! A stored command is a template. [`templating`] fills its placeholders
//! from the arguments of the call, [`secrets`] fills the placeholders that are
//! left with secrets, and [`execution`] has the resulting command line run and
//! recorded. [`history`] reads the command to save from the history of the
//! shell. [`placeholder`] holds the grammar of placeholders, which templating
//! and secrets share, and [`plain`] says what templating comes to for
//! templates and bindings without stray braces.
//!
//! Around that, [`api`] plans the calls to the server, [`dispatch`] reads what
//! the words of a command line ask for, [`naming`] names a command after its
//! command line, [`listing`] and [`tables`] lay commands out for the operator,
//! and [`config`] names the files that hold the settings. [`text`] holds what
//! all of them need of character sequences.
//!
//! The library reads no environment, file or terminal and starts no process
//! and no connection. Where the work alternates between such actions and
//! decisions, the library decides and the caller acts: see
//! [`secrets::SecretResolver`] and [`execution::ExecutionTracker`].
pub mod api;
pub mod config;
pub mod dispatch;
pub mod execution;
pub mod history;
pub mod listing;
pub mod naming;
pub mod placeholder;
pub mod plain;
pub mod secrets;
pub mod tables;
pub mod templating;
pub mod text;
