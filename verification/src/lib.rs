//! The command-dispatch core of a small interactive shell.
//!
//! A line of input is split into a command word and its argument text, matched
//! against the built-in commands, and turned into a list of [`action::Action`]s.
//! Everything here is a function from plain values to plain values: reading
//! lines, looking at the file system and running programs is left to the
//! caller, which performs the actions and hands their outcomes back.

pub mod text;
pub mod resolve;
pub mod action;
pub mod invoke;
pub mod command;
pub mod shell;
