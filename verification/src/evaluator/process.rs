//! What an evaluator's process sends, and the rules by which it is watched.

use vstd::prelude::*;
use vstd::string::*;
use crate::state::types::EvaluatorCommand;
use crate::text::{
    contains, has_infix, has_prefix, lemma_trimmed_has_word, split_words, starts_with, trim,
    trimmed, words,
};

verus! {

/// The milliseconds between two looks at the process.
pub const LIVENESS_INTERVAL_MILLIS: u64 = 500;

/// How an evaluator's process has ended.
#[derive(Clone, Copy, Debug, PartialEq, Eq)]
pub struct ExitStatus {
    success: bool,
    code: Option<i32>,
}

/// What an evaluator's process sends.
#[derive(Debug, PartialEq, Eq)]
pub enum EvaluatorMessage {
    /// A line of output.
    Output(String),
    /// The process has ended.
    Exited(ExitStatus),
}

impl ExitStatus {
    /// Whether the process ended well.
    pub closed spec fn succeeded(self) -> bool {
        self.success
    }

    /// The exit code, where it is known.
    pub closed spec fn exit_code(self) -> Option<i32> {
        self.code
    }

    /// A status with the parts given.
    pub fn new(success: bool, code: Option<i32>) -> (r: ExitStatus)
        ensures
            r.succeeded() == success,
            r.exit_code() == code,
    {
        ExitStatus { success, code }
    }

    /// The status of a process that is seen to be gone: not known to have ended
    /// well, with no exit code.
    pub fn unknown() -> (r: ExitStatus)
        ensures
            !r.succeeded(),
            r.exit_code() is None,
    {
        ExitStatus { success: false, code: None }
    }

    /// Whether the process ended well.
    pub fn success(&self) -> (r: bool)
        ensures
            r == self.succeeded(),
    {
        self.success
    }

    /// The exit code, where it is known.
    pub fn code(&self) -> (r: Option<i32>)
        ensures
            r == self.exit_code(),
    {
        self.code
    }
}

/// A program with its arguments.
#[derive(Debug, PartialEq, Eq)]
pub struct CommandLine {
    pub program: String,
    pub args: Vec<String>,
}

/// Splits a command at white space: the first word is the program, the others
/// are its arguments. Quotes mean nothing. A command is not blank, so there is a
/// first word.
pub fn command_line(command: &EvaluatorCommand) -> (r: CommandLine)
    ensures
        words(command@).len() > 0,
        r.program@ == words(command@)[0],
        r.args@.len() == words(command@).len() - 1,
        forall|i: int|
            0 <= i < r.args@.len() ==> (#[trigger] r.args@[i])@ == words(command@)[i + 1],
{
    let text = command.as_ref();
    proof {
        lemma_trimmed_has_word(text@);
    }
    let mut parts = split_words(text);
    let ghost all = parts@;
    let program = parts.remove(0);
    assert forall|i: int| 0 <= i < parts@.len() implies (#[trigger] parts@[i])@ == words(
        command@,
    )[i + 1] by {
        assert(parts@[i] == all[i + 1]);
    }
    CommandLine { program, args: parts }
}

/// Whether a line of the diagnostic stream is noise of the build tool: after
/// trimming it is empty, begins with `Compiling`, `Finished` or `Running`, or
/// holds `target/debug/deps/`.
pub open spec fn is_build_noise(line: Seq<char>) -> bool {
    let t = trim(line);
    ||| starts_with(t, "Compiling"@)
    ||| starts_with(t, "Finished"@)
    ||| starts_with(t, "Running"@)
    ||| contains(t, "target/debug/deps/"@)
    ||| t.len() == 0
}

/// What a line of the diagnostic stream is sent on as: nothing for noise of the
/// build tool, else the line behind `stderr: `.
pub fn stderr_message(line: &str) -> (r: Option<EvaluatorMessage>)
    ensures
        match r {
            Some(EvaluatorMessage::Output(text)) => !is_build_noise(line@) && text@ == "stderr: "@
                + line@,
            Some(_) => false,
            None => is_build_noise(line@),
        },
{
    let t = trimmed(line);
    if has_prefix(t.as_str(), "Compiling") || has_prefix(t.as_str(), "Finished") || has_prefix(
        t.as_str(),
        "Running",
    ) || has_infix(t.as_str(), "target/debug/deps/") || t.as_str().unicode_len() == 0 {
        None
    } else {
        Some(EvaluatorMessage::Output(String::from_str("stderr: ").concat(line)))
    }
}

/// What a look at the process is sent on as: nothing while it is alive, and that
/// it has ended, in an unknown way, once it is gone.
pub fn liveness_message(alive: bool) -> (r: Option<EvaluatorMessage>)
    ensures
        match r {
            Some(EvaluatorMessage::Exited(status)) => !alive && !status.succeeded()
                && status.exit_code() is None,
            Some(_) => false,
            None => alive,
        },
{
    if alive {
        None
    } else {
        Some(EvaluatorMessage::Exited(ExitStatus::unknown()))
    }
}

} // verus!
