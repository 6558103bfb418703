use vstd::prelude::*;

use crate::text::contains_sub;
use crate::text::str_contains;

verus! {

/// An external command to run: the program and its arguments. The gateway
/// executes these as handed out; it never retries on its own.
pub struct CommandSpec {
    pub program: String,
    pub args: Vec<String>,
}

/// Why a command is judged to have failed: it could not be started at all,
/// or it ran and reported a non-zero status.
#[derive(Clone, Copy, PartialEq, Eq, Structural, Debug)]
pub enum CommandError {
    /// The binary was missing or not executable: no process ran.
    SpawnFailed,
    /// The command ran and reported this exit code (`-1` when it was ended
    /// by a signal and reported none).
    NonZeroExit(i32),
}

/// A command succeeds exactly when it could be spawned and exited with
/// status zero.
pub open spec fn spec_classify_exit(spawned: bool, exit_code: Option<i32>) -> Result<
    (),
    CommandError,
> {
    if !spawned {
        Err(CommandError::SpawnFailed)
    } else {
        match exit_code {
            Some(c) => if c == 0 {
                Ok(())
            } else {
                Err(CommandError::NonZeroExit(c))
            },
            None => Err(CommandError::NonZeroExit(-1i32)),
        }
    }
}

/// Judges a finished command uniformly: `spawned` says whether the process
/// could be started, `exit_code` is the status it reported, if any.
pub fn classify_exit(spawned: bool, exit_code: Option<i32>) -> (r: Result<(), CommandError>)
    ensures
        r == spec_classify_exit(spawned, exit_code),
{
    if !spawned {
        Err(CommandError::SpawnFailed)
    } else {
        match exit_code {
            Some(c) => if c == 0 {
                Ok(())
            } else {
                Err(CommandError::NonZeroExit(c))
            },
            None => Err(CommandError::NonZeroExit(-1)),
        }
    }
}

/// A classified command outcome, refined with the two benign conditions
/// that idempotent operations absorb: the target already existed, or was
/// already gone.
#[derive(Clone, Copy, PartialEq, Eq, Structural, Debug)]
pub enum CmdOutcome {
    Success,
    AlreadyExists,
    NotFound,
    SpawnFailed,
    NonZeroExit(i32),
}

/// How a judged command and its error text refine into a tagged outcome: a
/// failure whose message shows the target already existed is
/// `AlreadyExists`; one whose message shows it was already gone is
/// `NotFound`; anything else keeps its classification.
pub open spec fn spec_refine_outcome(
    judged: Result<(), CommandError>,
    stderr: Seq<char>,
) -> CmdOutcome {
    match judged {
        Ok(()) => CmdOutcome::Success,
        Err(CommandError::SpawnFailed) => CmdOutcome::SpawnFailed,
        Err(CommandError::NonZeroExit(c)) => if contains_sub(stderr, "File exists"@)
            || contains_sub(stderr, "already exists"@) {
            CmdOutcome::AlreadyExists
        } else if contains_sub(stderr, "No such file"@) {
            CmdOutcome::NotFound
        } else {
            CmdOutcome::NonZeroExit(c)
        },
    }
}

/// Refines a judged command with its error text into a tagged outcome, so
/// each caller can decide locally which outcomes it absorbs.
pub fn refine_outcome(judged: Result<(), CommandError>, stderr: &str) -> (r: CmdOutcome)
    ensures
        r == spec_refine_outcome(judged, stderr@),
{
    match judged {
        Ok(()) => CmdOutcome::Success,
        Err(CommandError::SpawnFailed) => CmdOutcome::SpawnFailed,
        Err(CommandError::NonZeroExit(c)) => {
            if str_contains(stderr, "File exists") || str_contains(stderr, "already exists") {
                CmdOutcome::AlreadyExists
            } else if str_contains(stderr, "No such file") {
                CmdOutcome::NotFound
            } else {
                CmdOutcome::NonZeroExit(c)
            }
        },
    }
}

} // verus!
