//! Turns the help text of a command-line program into an editable model of
//! its parameters, and the edited model back into an invocation.
//!
//! The grammar of the help text, the classification of parameters, the
//! synthesis of the invocation and the navigation state machine are verified.

pub mod cli;
pub mod controller;
pub mod model;
pub mod parsing;
pub mod pattern;
pub mod session;
pub mod text;
pub mod ui;
