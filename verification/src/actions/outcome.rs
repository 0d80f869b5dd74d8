use crate::text::{decode_or_empty, text_or_empty};
use vstd::prelude::*;

verus! {

/// What the host reported for one command it was asked to run.
#[derive(Debug, Clone, PartialEq, Eq)]
pub enum Outcome {
    /// The command could not be started. `not_found` tells whether the
    /// program itself is missing; `message` describes the failure.
    SpawnFailed { not_found: bool, message: String },
    /// The command ran to its end. `code` is the exit code, absent where
    /// a signal ended the process.
    Exited { code: Option<i32>, stdout: Vec<u8>, stderr: Vec<u8> },
}

impl Outcome {
    /// The command was started.
    pub open spec fn spawned(&self) -> bool {
        self is Exited
    }

    /// The command ran and ended with exit code 0.
    pub open spec fn success(&self) -> bool {
        self matches Outcome::Exited { code: Some(c), .. } && c == 0
    }

    /// What the command wrote to standard output, as text: empty where it
    /// was not started or wrote no well-formed UTF-8.
    pub open spec fn output(&self) -> Seq<char> {
        match self {
            Outcome::Exited { stdout, .. } => text_or_empty(stdout@),
            Outcome::SpawnFailed { .. } => Seq::empty(),
        }
    }

    /// Whether the command was started.
    pub fn was_spawned(&self) -> (r: bool)
        ensures
            r == self.spawned(),
    {
        match self {
            Outcome::Exited { .. } => true,
            Outcome::SpawnFailed { .. } => false,
        }
    }

    /// Whether the command ran and ended with exit code 0.
    pub fn succeeded(&self) -> (r: bool)
        ensures
            r == self.success(),
    {
        match self {
            Outcome::Exited { code: Some(c), .. } => *c == 0,
            _ => false,
        }
    }

    /// What the command wrote to standard output, as text.
    pub fn stdout_text(&self) -> (r: String)
        ensures
            r@ == self.output(),
    {
        match self {
            Outcome::Exited { stdout, .. } => decode_or_empty(stdout),
            Outcome::SpawnFailed { .. } => String::new(),
        }
    }
}

} // verus!
