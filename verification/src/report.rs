//! What becomes of failures: the diagnostics they are reported with, whether
//! the run goes on after them, and the exit status they lead to.

use vstd::prelude::*;

verus! {

/// The kinds of failure of a run.
#[derive(Clone, Copy, Debug, PartialEq, Eq, Structural)]
pub enum Failure {
    /// A flag cluster holds an unknown letter.
    Usage,
    /// A source could not be opened.
    Open,
    /// A source could not be read to its end.
    Read,
    /// The output could not be written.
    Write,
}

impl Failure {
    /// Whether the run ends at once after this failure. Only a failure to
    /// write does that; after any other the run goes on with what is next.
    pub open spec fn is_fatal(self) -> bool {
        self == Failure::Write
    }

    /// Whether this failure makes the exit status nonzero. A usage failure
    /// alone does not.
    pub open spec fn fails_run(self) -> bool {
        self != Failure::Usage
    }
}

/// The exit status of a run without failure.
pub const EXIT_SUCCESS: u8 = 0;

/// The exit status of a run in which a source or the output failed.
pub const EXIT_FAILURE: u8 = 1;

/// The record of the failures of one run.
#[derive(Clone, Copy, Debug, PartialEq, Eq)]
pub struct Outcome {
    failed: bool,
}

impl Outcome {
    /// Whether a failure that makes the exit status nonzero was recorded.
    pub closed spec fn failed(&self) -> bool {
        self.failed
    }

    /// Creates the record of a run in which nothing has failed.
    pub fn new() -> (outcome: Outcome)
        ensures
            !outcome.failed(),
    {
        Outcome { failed: false }
    }

    /// Records `failure`, and returns whether the run goes on.
    pub fn record(&mut self, failure: Failure) -> (goes_on: bool)
        ensures
            final(self).failed() == (old(self).failed() || failure.fails_run()),
            goes_on == !failure.is_fatal(),
    {
        match failure {
            Failure::Usage => true,
            Failure::Open => {
                self.failed = true;
                true
            },
            Failure::Read => {
                self.failed = true;
                true
            },
            Failure::Write => {
                self.failed = true;
                false
            },
        }
    }

    /// The exit status of the run: zero exactly where no source and no
    /// write failed.
    pub fn exit_code(&self) -> (code: u8)
        ensures
            code == if self.failed() {
                EXIT_FAILURE
            } else {
                EXIT_SUCCESS
            },
    {
        if self.failed {
            EXIT_FAILURE
        } else {
            EXIT_SUCCESS
        }
    }
}

/// The diagnostic for a flag cluster with an unknown letter: the program's
/// name, then the offending argument.
pub fn usage_diagnostic(program: &str, arg: &str) -> (message: String)
    ensures
        message@ == program@ + ": invalid option in '"@ + arg@ + "'"@,
{
    let mut message = String::from_str(program);
    message.append(": invalid option in '");
    message.append(arg);
    message.append("'");
    message
}

/// The diagnostic for a source that failed: the program's name, then the
/// source, then the cause.
pub fn source_diagnostic(program: &str, source: &str, cause: &str) -> (message: String)
    ensures
        message@ == program@ + ": "@ + source@ + ": "@ + cause@,
{
    let mut message = String::from_str(program);
    message.append(": ");
    message.append(source);
    message.append(": ");
    message.append(cause);
    message
}

} // verus!
