//! What can go wrong in one interaction.
use vstd::prelude::*;
use crate::script::InteractionTest;

verus! {

/// A failed interaction.
pub enum RunnerError {
    /// The program behaved normally but printed something other than expected.
    Fail {
        interaction: InteractionTest,
        line: usize,
        expected: String,
        found: String,
        prev_output: Vec<String>,
    },
    /// The program terminated abnormally.
    Error {
        interaction: InteractionTest,
        line: usize,
        error_message: String,
        error_code: i32,
        prev_output: Vec<String>,
    },
}

/// A sequence of strings as character sequences.
pub open spec fn texts(v: Seq<String>) -> Seq<Seq<char>> {
    v.map_values(|s: String| s@)
}

/// A failure as a mathematical value; the interaction it belongs to is left out.
pub enum ErrorView {
    Fail { line: nat, expected: Seq<char>, found: Seq<char>, history: Seq<Seq<char>> },
    Error { line: nat, message: Seq<char>, code: int, history: Seq<Seq<char>> },
}

impl View for RunnerError {
    type V = ErrorView;

    open spec fn view(&self) -> ErrorView {
        match self {
            RunnerError::Fail { line, expected, found, prev_output, .. } => ErrorView::Fail {
                line: *line as nat,
                expected: expected@,
                found: found@,
                history: texts(prev_output@),
            },
            RunnerError::Error { line, error_message, error_code, prev_output, .. } =>
                ErrorView::Error {
                line: *line as nat,
                message: error_message@,
                code: *error_code as int,
                history: texts(prev_output@),
            },
        }
    }
}

impl RunnerError {
    /// The interaction that failed.
    pub open spec fn interaction_spec(&self) -> InteractionTest {
        match self {
            RunnerError::Fail { interaction, .. } => *interaction,
            RunnerError::Error { interaction, .. } => *interaction,
        }
    }
}

} // verus!
