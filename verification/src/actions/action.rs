use super::cause::Cause;
use super::errors::ActionError;
use super::outcome::Outcome;
use crate::text::{extend_with, from_utf8_lossy, join, joined, utf8_lossy};
use vstd::prelude::*;
use vstd::string::*;

verus! {

/// A planned operation: why it exists, the command it runs (the program
/// first, then its arguments) and whether it needs elevated rights.
#[derive(Debug, PartialEq, Eq, Clone)]
pub struct Action {
    pub cause: Cause,
    pub command: Vec<String>,
    pub requires_sudo: bool,
}

/// An action as a mathematical value.
pub struct ActionView {
    pub cause: Cause,
    pub command: Seq<Seq<char>>,
    pub requires_sudo: bool,
}

impl View for Action {
    type V = ActionView;

    open spec fn view(&self) -> ActionView {
        ActionView {
            cause: self.cause,
            command: self.command.deep_view(),
            requires_sudo: self.requires_sudo,
        }
    }
}

impl DeepView for Action {
    type V = ActionView;

    open spec fn deep_view(&self) -> ActionView {
        self.view()
    }
}

/// What the host is asked to start: a program, its arguments, and whether
/// `DEBIAN_FRONTEND=noninteractive` is set for it.
#[derive(Debug, PartialEq, Eq, Clone)]
pub struct Invocation {
    pub program: String,
    pub args: Vec<String>,
    pub noninteractive: bool,
}

/// What becomes of a planned action when it is performed.
#[derive(Debug, PartialEq, Eq, Clone)]
pub enum Step {
    /// A dry run: nothing is started, and the action counts as done.
    Skipped,
    /// The host is to start this and report the outcome.
    Spawn(Invocation),
}

impl Step {
    /// What a step comes to without an outcome: a skipped action counts
    /// as applied, with status 0; a step that starts a command has its
    /// result only once the outcome is known.
    pub open spec fn settled(&self) -> Option<Result<i32, ActionError>> {
        match self {
            Step::Skipped => Some(Ok(0)),
            Step::Spawn(_) => None,
        }
    }

    /// What a step comes to without an outcome, where it needs none.
    pub fn result(&self) -> (r: Option<Result<i32, ActionError>>)
        ensures
            r == self.settled(),
    {
        match self {
            Step::Skipped => Some(Ok(0)),
            Step::Spawn(_) => None,
        }
    }
}

impl ActionView {
    /// The words the host starts: the command, behind `sudo` where the
    /// action needs elevated rights.
    pub open spec fn argv(self) -> Seq<Seq<char>> {
        if self.requires_sudo {
            seq!["sudo"@] + self.command
        } else {
            self.command
        }
    }

    /// The line that reports the action: the cause's label, a colon, and
    /// the words of the command with spaces between them.
    pub open spec fn line(self) -> Seq<char> {
        self.cause.label() + ": "@ + join(self.command, " "@)
    }

    /// What performing the action comes to, given the outcome that the
    /// host reported for its command. A command that could not be started
    /// is passed over for a package installation and is an error for
    /// every other action. A command that ended with success gives 0.
    /// One that failed is an error with the program's name, the exit code
    /// (1 where a signal ended it) and what it wrote to standard error,
    /// `stderr` standing for that text.
    pub open spec fn settles(
        self,
        outcome: &Outcome,
        stderr: Seq<char>,
        r: Result<i32, ActionError>,
    ) -> bool {
        match outcome {
            Outcome::SpawnFailed { message, .. } => if self.cause == Cause::Pkg {
                r == Ok::<i32, ActionError>(0)
            } else {
                r matches Err(ActionError::IoError(m)) && m@ == message@
            },
            Outcome::Exited { code, stderr: raw, .. } => if outcome.success() {
                r == Ok::<i32, ActionError>(0)
            } else {
                r matches Err(ActionError::ExecError(program, status, text)) && program@
                    == self.command[0] && status == (match code {
                    Some(c) => *c,
                    None => 1,
                }) && text@ == (if raw@.len() == 0 {
                    "No error message"@
                } else {
                    stderr
                })
            },
        }
    }
}

impl Action {
    /// An action that needs no elevated rights.
    pub fn new(cause: Cause, command: Vec<String>) -> (r: Self)
        ensures
            r@ == (ActionView { cause, command: command.deep_view(), requires_sudo: false }),
            r.command == command,
    {
        Self { cause, command, requires_sudo: false }
    }

    /// The same action, with elevated rights.
    pub fn use_sudo(self) -> (r: Self)
        ensures
            r@ == (ActionView { requires_sudo: true, ..self@ }),
            r.command == self.command,
    {
        Self { cause: self.cause, command: self.command, requires_sudo: true }
    }

    /// An action that needs elevated rights.
    pub fn with_sudo(cause: Cause, command: Vec<String>) -> (r: Self)
        ensures
            r@ == (ActionView { cause, command: command.deep_view(), requires_sudo: true }),
            r.command == command,
    {
        Self { cause, command, requires_sudo: true }
    }

    /// Renders the action as the line that reports it.
    pub fn to_string(&self) -> (r: String)
        ensures
            r@ == self@.line(),
    {
        let mut r = self.cause.to_string();
        r.append(": ");
        let words = joined(&self.command, " ");
        r.append(words.as_str());
        r
    }

    /// Takes a planned action one step on. In a dry run nothing is
    /// started. Otherwise the host is to start the command, behind `sudo`
    /// where the action needs elevated rights, and with a noninteractive
    /// front end for a package installation only.
    pub fn perform(&self, dry_run: bool) -> (r: Step)
        requires
            dry_run || self.command@.len() > 0,
        ensures
            dry_run ==> r is Skipped,
            !dry_run ==> (r matches Step::Spawn(inv) && inv.program@ == self@.argv()[0]
                && inv.args.deep_view() == self@.argv().skip(1) && inv.noninteractive == (
            self.cause == Cause::Pkg)),
    {
        if dry_run {
            return Step::Skipped;
        }
        let noninteractive = self.cause == Cause::Pkg;
        let mut args: Vec<String> = Vec::new();
        if self.requires_sudo {
            extend_with(&mut args, &self.command);
            assert(args.deep_view() =~= self@.argv().skip(1));
            Step::Spawn(Invocation { program: "sudo".to_string(), args, noninteractive })
        } else {
            let mut i: usize = 1;
            assert(args.deep_view() =~= self.command.deep_view().subrange(1, 1));
            while i < self.command.len()
                invariant
                    1 <= i <= self.command.len(),
                    args.deep_view() == self.command.deep_view().subrange(1, i as int),
                decreases self.command.len() - i,
            {
                let ghost before = args.deep_view();
                let word = self.command[i].clone();
                args.push(word);
                i += 1;
                assert(args.deep_view() =~= before.push(word@));
                assert(args.deep_view() =~= self.command.deep_view().subrange(1, i as int));
            }
            assert(args.deep_view() =~= self@.argv().skip(1));
            Step::Spawn(Invocation { program: self.command[0].clone(), args, noninteractive })
        }
    }

    /// Classifies the outcome that the host reported for the action's
    /// command, given what lossy decoding made of its standard error.
    pub fn settle(&self, outcome: &Outcome, stderr: String) -> (r: Result<i32, ActionError>)
        requires
            self.command@.len() > 0,
        ensures
            self@.settles(outcome, stderr@, r),
    {
        match outcome {
            Outcome::SpawnFailed { message, .. } => {
                if self.cause == Cause::Pkg {
                    Ok(0)
                } else {
                    Err(ActionError::IoError(message.clone()))
                }
            },
            Outcome::Exited { code, stderr: raw, .. } => {
                let status: i32 = match code {
                    Some(c) => *c,
                    None => 1,
                };
                if outcome.succeeded() {
                    Ok(0)
                } else {
                    let text = if raw.len() == 0 {
                        "No error message".to_string()
                    } else {
                        stderr
                    };
                    Err(ActionError::ExecError(self.command[0].clone(), status, text))
                }
            },
        }
    }

    /// Classifies the outcome that the host reported for the action's
    /// command. Standard error is decoded as UTF-8, what is malformed in
    /// it being replaced; well-formed standard error is reported as the
    /// text it encodes.
    pub fn conclude(&self, outcome: &Outcome) -> (r: Result<i32, ActionError>)
        requires
            self.command@.len() > 0,
        ensures
            self@.settles(
                outcome,
                match outcome {
                    Outcome::Exited { stderr, .. } => utf8_lossy(stderr@),
                    Outcome::SpawnFailed { .. } => Seq::empty(),
                },
                r,
            ),
            match outcome {
                Outcome::Exited { stderr, .. } => vstd::utf8::valid_utf8(stderr@)
                    ==> self@.settles(outcome, vstd::utf8::decode_utf8(stderr@), r),
                Outcome::SpawnFailed { .. } => true,
            },
    {
        let stderr = match outcome {
            Outcome::Exited { stderr, .. } => from_utf8_lossy(stderr),
            Outcome::SpawnFailed { .. } => String::new(),
        };
        self.settle(outcome, stderr)
    }
}

/// The exit status with which a run stops after an action that came to
/// `result`, if it stops there: the action's status where that is not 0,
/// the exit code of a command that failed, and 1 for any other error.
pub open spec fn halt_status(result: &Result<i32, ActionError>) -> Option<i32> {
    match result {
        Ok(status) => if *status != 0 {
            Some(*status)
        } else {
            None
        },
        Err(ActionError::ExecError(_, status, _)) => Some(*status),
        Err(_) => Some(1),
    }
}

/// Whether a run stops after an action that came to `result`, and with
/// which exit status.
pub fn halts(result: &Result<i32, ActionError>) -> (r: Option<i32>)
    ensures
        r == halt_status(result),
{
    match result {
        Ok(status) => if *status != 0 {
            Some(*status)
        } else {
            None
        },
        Err(ActionError::ExecError(_, status, _)) => Some(*status),
        Err(_) => Some(1),
    }
}

/// The exit status of a run whose actions came to the results from
/// `from` on: that of the first action after which the run stops, and 0
/// where it runs to its end.
pub open spec fn status_from(results: Seq<Result<i32, ActionError>>, from: int) -> i32
    decreases results.len() - from,
{
    if 0 <= from < results.len() {
        match halt_status(&results[from]) {
            Some(status) => status,
            None => status_from(results, from + 1),
        }
    } else {
        0
    }
}

/// The exit status of a run whose actions came to these results, in the
/// order in which they were taken: 0 where every action was applied or
/// skipped, else the status of the first that failed.
pub fn exit_status(results: &Vec<Result<i32, ActionError>>) -> (r: i32)
    ensures
        r == status_from(results@, 0),
{
    let mut i: usize = 0;
    while i < results.len()
        invariant
            i <= results.len(),
            status_from(results@, 0) == status_from(results@, i as int),
        decreases results.len() - i,
    {
        match halts(&results[i]) {
            Some(status) => {
                return status;
            },
            None => {},
        }
        i += 1;
    }
    0
}

} // verus!
