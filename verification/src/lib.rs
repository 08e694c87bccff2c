//! The logic of an interactive command shell: tokenizing and parsing command
//! lines, building pipelines, planning how their stages are wired, the
//! built-in commands, the history store and the line editor's state machine.

pub mod builtins;
pub mod candidates;
pub mod command;
pub mod executables;
pub mod external;
pub mod history;
pub mod number;
pub mod parse;
pub mod pipeline;
pub mod rline;
pub mod roundtrip;
pub mod screen;
pub mod state;
pub mod text;
pub mod token;
