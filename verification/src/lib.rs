//! Shell-completion scripts for a command line that is described as data.
//!
//! A [`definition::CliDef`] describes a tree of commands with their options
//! and positional arguments. From it the library
//!
//! - builds the command tree that the engine reads ([`tree::make_command`]),
//!   choosing a value parser for each option and argument
//!   ([`strategy::resolve_strategy`], [`tree::make_value_parser`]),
//! - checks the names against the rules of the completion engine
//!   ([`validate::check_definition`]) and asks the engine for the script of
//!   each supported shell ([`generate::generate_completions`]), and
//! - writes the scripts as a table of byte literals in a source file
//!   ([`table::CompletionTable::serialize`], [`generate::render_source`]).
//!
//! The command builder and the completion engine are outside crates. What
//! the library takes them to do is stated in [`engine`]; everything else is
//! proved against those statements.

pub mod conflict;
pub mod definition;
pub mod encode;
pub mod engine;
pub mod generate;
pub mod intern;
pub mod shell;
pub mod strategy;
pub mod table;
pub mod text;
pub mod tree;
pub mod validate;
