//! Interaction scripts and the launch template shared by all runs.
use vstd::prelude::*;

verus! {

/// How a scripted line is used.
#[derive(Clone, Copy, Debug, PartialEq, Eq, Structural)]
pub enum InteractionLineKind {
    /// Sent to the child's input, followed by a newline.
    Input,
    /// One line of output, compared verbatim.
    OutputLiteral,
    /// One line of output, searched with a regular expression.
    OutputRegex,
}

/// One scripted step.
#[derive(Clone, Debug)]
pub struct InteractionLine {
    /// Line number in the script file, reported in diagnostics.
    pub line_idx: usize,
    /// Input payload, literal text or pattern, according to `kind`.
    pub content: String,
    pub kind: InteractionLineKind,
}

/// A whole scripted conversation.
#[derive(Clone, Debug)]
pub struct InteractionTest {
    pub name: String,
    /// The script's file; its parent directory is the child's working directory.
    pub file_path: String,
    /// Arguments appended after the runner's own arguments.
    pub command_arguments: Vec<String>,
    pub lines: Vec<InteractionLine>,
}

/// A script that could not be read as one.
#[derive(Debug)]
pub struct InteractionParseError(pub String);

/// How the program under test is launched.
#[derive(Clone)]
pub struct RunnerConfig {
    pub command: String,
    pub arguments: Vec<String>,
    /// Longest wait for a single line of output.
    pub timeout: std::time::Duration,
}

/// Relies on `Clone` for `Duration`, a `Copy` type whose clone is the value itself.
pub assume_specification[ <std::time::Duration as Clone>::clone ](d: &std::time::Duration) -> (r:
    std::time::Duration)
    ensures
        r == *d,
;

/// A scripted line as a mathematical value.
pub struct LineView {
    pub line_idx: nat,
    pub content: Seq<char>,
    pub kind: InteractionLineKind,
}

impl View for InteractionLine {
    type V = LineView;

    open spec fn view(&self) -> LineView {
        LineView { line_idx: self.line_idx as nat, content: self.content@, kind: self.kind }
    }
}

impl InteractionTest {
    /// The script's lines as values.
    pub open spec fn lines_view(&self) -> Seq<LineView> {
        self.lines@.map_values(|l: InteractionLine| l@)
    }
}

} // verus!
