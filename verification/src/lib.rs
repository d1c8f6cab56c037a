//! Execution core of a shell that pipes typed rows between commands.

pub mod command;
pub mod commands;
pub mod context;
pub mod errors;
pub mod glob;
pub mod library;
pub mod number;
pub mod pipeline;
pub mod printer;
pub mod scope;
pub mod stream;
pub mod table;
pub mod text;
pub mod value;

