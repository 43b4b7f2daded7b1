//! The option records of the client commands, as plain values.
//!
//! Argument parsing itself happens outside the crate; it fills these
//! records and hands them in.

use vstd::prelude::*;

verus! {

/// How a prompt result is rendered.
#[derive(Clone, Copy, PartialEq, Eq, Structural, Debug)]
pub enum PromptOutput {
    Plain,
    Json,
    KakCommands,
}

/// Options of the prompt command.
pub struct PromptOptions {
    pub socket: Option<String>,
    pub prompt: Option<String>,
    pub prompt_file: Option<String>,
    pub context: Vec<String>,
    pub session: Option<String>,
    pub client: Option<String>,
    pub output: PromptOutput,
    pub title: String,
    pub send_to_kak: bool,
}

/// Options of the status command.
pub struct StatusOptions {
    pub socket: Option<String>,
    pub session: Option<String>,
    pub json: bool,
}

/// Options of the shutdown command.
pub struct ShutdownOptions {
    pub socket: Option<String>,
    pub session: Option<String>,
}

} // verus!
