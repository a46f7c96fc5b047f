//! The command executor's decisions: tokenizing a command string into a
//! plan, and judging what happened when the caller ran it.
//!
//! Launching the process is the caller's work. This module fixes what is
//! launched (the first word is the program, the rest are its arguments; no
//! shell evaluates anything) and what each outcome means.

use vstd::prelude::*;

use crate::errors::AoError;
use crate::errors::ErrorKind;
use crate::errors::command_empty_msg;
use crate::errors::command_non_zero_msg;
use crate::errors::command_parse_msg;
use crate::errors::command_spawn_msg;
use crate::parse::strings_view;

verus! {

/// What `shlex::split` returns for a command line: the shell words, or
/// nothing when the quoting is malformed. The result depends on the
/// characters alone.
pub uninterp spec fn split_words(s: Seq<char>) -> Option<Seq<Seq<char>>>;

/// Relies on `shlex::split`: POSIX-shell word splitting, honoring quotes, of
/// the command string; `None` exactly on erroneous input (an unclosed quote
/// or a dangling backslash).
#[verifier::external_body]
fn split_command(s: &str) -> (r: Option<Vec<String>>)
    ensures
        match r {
            Some(ws) => split_words(s@) == Some(strings_view(ws@)),
            None => split_words(s@) is None,
        },
{
    shlex::split(s)
}

/// A tokenized command: the program to launch and its arguments, in order.
#[derive(Debug)]
pub struct CommandPlan {
    pub program: String,
    pub args: Vec<String>,
}

/// Tokenizes a command string. Malformed quoting and a command with no
/// words are each a parse error naming the command string; otherwise the
/// first word is the program and the rest are its arguments.
pub fn plan_command(command_str: &str) -> (r: Result<CommandPlan, AoError>)
    ensures
        match r {
            Ok(p) => split_words(command_str@) matches Some(ws) && ws.len() > 0 && p.program@
                == ws[0] && strings_view(p.args@) == ws.drop_first(),
            Err(e) => match split_words(command_str@) {
                None => e.kind == ErrorKind::CommandParse && e.message@ == command_parse_msg(
                    command_str@,
                ),
                Some(ws) => ws.len() == 0 && e.kind == ErrorKind::CommandParse && e.message@
                    == command_empty_msg(command_str@),
            },
        },
{
    match split_command(command_str) {
        None => Err(AoError::command_parse(command_str)),
        Some(mut ws) => {
            if ws.len() == 0 {
                Err(AoError::command_empty(command_str))
            } else {
                let ghost orig = ws@;
                let program = ws.remove(0);
                proof {
                    assert(ws@ =~= orig.drop_first());
                    assert(strings_view(orig.drop_first()) =~= strings_view(orig).drop_first());
                    assert(strings_view(orig)[0] == orig[0]@);
                }
                Ok(CommandPlan { program, args: ws })
            }
        },
    }
}

/// What happened when the caller ran a planned command.
#[derive(Debug)]
pub enum CommandOutcome {
    /// The program could not be launched; `os_error` is the operating
    /// system's message.
    SpawnFailed { os_error: String },
    /// The process ran to completion, with its success flag and its
    /// rendered exit status.
    Exited { success: bool, status: String },
}

/// The executor's verdict on an outcome: success exactly when the process
/// ran and exited successfully. A launch failure and a non-zero exit each
/// fail with a message naming the command.
pub fn judge_outcome(command_str: &str, outcome: &CommandOutcome) -> (r: Result<(), AoError>)
    ensures
        match outcome {
            CommandOutcome::SpawnFailed { os_error } => r matches Err(e) && e.kind
                == ErrorKind::CommandSpawn && e.message@ == command_spawn_msg(
                command_str@,
                os_error@,
            ),
            CommandOutcome::Exited { success, status } => {
                if *success {
                    r is Ok
                } else {
                    r matches Err(e) && e.kind == ErrorKind::CommandNonZeroExit && e.message@
                        == command_non_zero_msg(command_str@, status@)
                }
            },
        },
{
    match outcome {
        CommandOutcome::SpawnFailed { os_error } => Err(
            AoError::command_spawn(command_str, os_error.as_str()),
        ),
        CommandOutcome::Exited { success, status } => {
            if *success {
                Ok(())
            } else {
                Err(AoError::command_non_zero(command_str, status.as_str()))
            }
        },
    }
}

} // verus!
