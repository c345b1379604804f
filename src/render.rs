//! Human-readable diagnostics for failed interactions, with terminal colors.
use vstd::prelude::*;
use crate::outcome::{RunnerError, texts};
use crate::text::{decimal_text, int_decimal, join2};

verus! {

/// Text wrapped in an ANSI select-graphic-rendition sequence and a reset.
pub open spec fn style_spec(message: Seq<char>, code: Seq<char>) -> Seq<char> {
    "\x1b["@ + code + "m"@ + message + "\x1b[0m"@
}

/// Wraps `message` in the terminal style `code`.
pub fn style(message: &str, code: &str) -> (r: String)
    ensures
        r@ == style_spec(message@, code@),
{
    let mut s = String::from_str("\x1b[");
    s.append(code);
    s.append("m");
    s.append(message);
    s.append("\x1b[0m");
    s
}

/// Bold bright red.
pub fn style_fail(message: &str) -> (r: String)
    ensures
        r@ == style_spec(message@, "1;91"@),
{
    style(message, "1;91")
}

/// Bold black on red.
pub fn style_error(message: &str) -> (r: String)
    ensures
        r@ == style_spec(message@, "1;30;41"@),
{
    style(message, "1;30;41")
}

pub fn style_bold(message: &str) -> (r: String)
    ensures
        r@ == style_spec(message@, "1"@),
{
    style(message, "1")
}

pub fn style_green(message: &str) -> (r: String)
    ensures
        r@ == style_spec(message@, "32"@),
{
    style(message, "32")
}

/// Bright red.
pub fn style_red(message: &str) -> (r: String)
    ensures
        r@ == style_spec(message@, "91"@),
{
    style(message, "91")
}

/// Lines joined with newlines between them.
pub open spec fn join_lines(lines: Seq<Seq<char>>) -> Seq<char>
    decreases lines.len(),
{
    if lines.len() == 0 {
        Seq::empty()
    } else if lines.len() == 1 {
        lines[0]
    } else {
        join_lines(lines.drop_last()) + "\n"@ + lines.last()
    }
}

/// How many of the most recent lines a diagnostic shows.
pub const SHOWN_LINES: usize = 10;

/// The last `SHOWN_LINES` lines of the history, after a marker that tells
/// whether earlier lines were left out.
pub open spec fn history_block(history: Seq<Seq<char>>) -> Seq<char> {
    let start = if history.len() > SHOWN_LINES { history.len() - SHOWN_LINES } else { 0 };
    let marker = if history.len() > SHOWN_LINES { "[...]\n"@ } else { "<start>\n"@ };
    marker + join_lines(history.subrange(start as int, history.len() as int)) + "\n"@
}

/// The full diagnostic for a failure.
pub open spec fn render_spec(e: RunnerError) -> Seq<char> {
    let name = e.interaction_spec().name@;
    let path = e.interaction_spec().file_path@;
    match e {
        RunnerError::Fail { line, expected, found, prev_output, .. } => {
            let n = int_decimal(line as int);
            style_spec("Failed"@, "1;91"@) + " "@ + path + ":"@ + n + "\n"@ + style_spec(name, "1"@)
                + " in line "@ + style_spec(n, "1"@) + "\n"@ + "expected: '"@ + expected@ + "'\n"@
                + "found:    '"@ + found@ + "'\n"@ + style_spec("Previous output:\n"@, "1"@)
                + style_spec(history_block(texts(prev_output@)), "32"@) + style_spec(found@, "91"@)
        },
        RunnerError::Error { line, error_message, error_code, prev_output, .. } => {
            let n = int_decimal(line as int);
            style_spec("Error"@, "1;30;41"@) + " in "@ + path + ":"@ + n + "\n"@ + style_spec(
                name,
                "1"@,
            ) + " in line "@ + style_spec(n, "1"@) + " with error code "@ + style_spec(
                int_decimal(error_code as int),
                "1"@,
            ) + "\n"@ + error_message@ + "\n"@ + style_spec("Previous output:\n"@, "1"@)
                + style_spec(history_block(texts(prev_output@)), "32"@) + style_spec(
                error_message@,
                "91"@,
            )
        },
    }
}

/// The history shown in a diagnostic.
fn render_history(history: &Vec<String>) -> (r: String)
    ensures
        r@ == history_block(texts(history@)),
{
    let n = history.len();
    let start: usize = if n > SHOWN_LINES { n - SHOWN_LINES } else { 0 };
    let mut s = if n > SHOWN_LINES { String::from_str("[...]\n") } else { String::from_str("<start>\n") };
    let ghost marker = s@;
    let ghost all = texts(history@);
    let mut i: usize = start;
    while i < n
        invariant
            n == history@.len(),
            all == texts(history@),
            start <= i <= n,
            s@ == marker + join_lines(all.subrange(start as int, i as int)),
        decreases n - i,
    {
        let ghost before = all.subrange(start as int, i as int);
        let ghost after = all.subrange(start as int, i + 1);
        assert(after.drop_last() =~= before);
        assert(after.last() == history@[i as int]@);
        if i > start {
            s.append("\n");
        } else {
            assert(before =~= Seq::<Seq<char>>::empty());
            assert(s@ + history@[i as int]@ =~= marker + join_lines(after));
        }
        s.append(history[i].as_str());
        i = i + 1;
    }
    s.append("\n");
    s
}

impl RunnerError {
    /// Renders the failure as colored text: a header naming the kind, file
    /// and line, the interaction's name, what was expected and found (or the
    /// error output and exit code), then the last lines of output.
    pub fn to_string(&self) -> (r: String)
        ensures
            r@ == render_spec(*self),
    {
        match self {
            RunnerError::Fail { interaction, line, expected, found, prev_output } => {
                let n = decimal_text(*line as i128);
                let mut s = style_fail("Failed");
                s.append(" ");
                s.append(interaction.file_path.as_str());
                s.append(":");
                s.append(n.as_str());
                s.append("\n");
                s.append(style_bold(interaction.name.as_str()).as_str());
                s.append(" in line ");
                s.append(style_bold(n.as_str()).as_str());
                s.append("\n");
                s.append("expected: '");
                s.append(expected.as_str());
                s.append("'\n");
                s.append("found:    '");
                s.append(found.as_str());
                s.append("'\n");
                s.append(style_bold("Previous output:\n").as_str());
                s.append(style_green(render_history(prev_output).as_str()).as_str());
                s.append(style_red(found.as_str()).as_str());
                s
            },
            RunnerError::Error { interaction, line, error_message, error_code, prev_output } => {
                let n = decimal_text(*line as i128);
                let mut s = style_error("Error");
                s.append(" in ");
                s.append(interaction.file_path.as_str());
                s.append(":");
                s.append(n.as_str());
                s.append("\n");
                s.append(style_bold(interaction.name.as_str()).as_str());
                s.append(" in line ");
                s.append(style_bold(n.as_str()).as_str());
                s.append(" with error code ");
                s.append(style_bold(decimal_text(*error_code as i128).as_str()).as_str());
                s.append("\n");
                s.append(error_message.as_str());
                s.append("\n");
                s.append(style_bold("Previous output:\n").as_str());
                s.append(style_green(render_history(prev_output).as_str()).as_str());
                s.append(style_red(error_message.as_str()).as_str());
                s
            },
        }
    }
}

} // verus!
