//! The protocol of one interaction, as a state machine that the caller
//! drives with what the child process does, and the reconciliation of its
//! verdict with the way the process exited.
use vstd::prelude::*;
use crate::script::{InteractionTest, InteractionLineKind, LineView, InteractionParseError};
use crate::outcome::{RunnerError, ErrorView, texts};
use crate::text::{join2, contains_text, is_infix};

verus! {

/// Whether `regex::Regex::new` accepts the pattern.
pub uninterp spec fn regex_compiles(pattern: Seq<char>) -> bool;

/// Whether the compiled pattern matches somewhere in the haystack.
pub uninterp spec fn regex_finds(pattern: Seq<char>, haystack: Seq<char>) -> bool;

/// Relies on `regex::Regex::new`, which fails exactly on the patterns it
/// cannot compile (malformed, or beyond its fixed default size limits),
/// and on `Regex::is_match`, which tells whether the pattern matches anywhere
/// in the haystack.
#[verifier::external_body]
pub(crate) fn match_pattern(pattern: &str, haystack: &str) -> (r: Option<bool>)
    ensures
        r.is_some() == regex_compiles(pattern@),
        r matches Some(b) ==> b == regex_finds(pattern@, haystack@),
{
    match regex::Regex::new(pattern) {
        Ok(re) => Some(re.is_match(haystack)),
        Err(_) => None,
    }
}

/// Every pattern of the script compiles.
pub open spec fn patterns_valid(lines: Seq<LineView>) -> bool {
    forall|i: int|
        0 <= i < lines.len() && (#[trigger] lines[i]).kind == InteractionLineKind::OutputRegex
            ==> regex_compiles(lines[i].content)
}

/// An output line accepts a line that the child printed.
pub open spec fn line_accepts(l: LineView, text: Seq<char>) -> bool {
    match l.kind {
        InteractionLineKind::OutputLiteral => text == l.content,
        InteractionLineKind::OutputRegex => regex_finds(l.content, text),
        InteractionLineKind::Input => false,
    }
}

/// What the child did in answer to the last action.
pub enum Event {
    /// An input line was written (`true`) or the write failed (`false`).
    Written(bool),
    /// A line was read, or none came in time (`None`).
    Received(Option<String>),
}

pub enum EventView {
    Written(bool),
    Received(Option<Seq<char>>),
}

impl View for Event {
    type V = EventView;

    open spec fn view(&self) -> EventView {
        match self {
            Event::Written(ok) => EventView::Written(*ok),
            Event::Received(None) => EventView::Received(None),
            Event::Received(Some(s)) => EventView::Received(Some(s@)),
        }
    }
}

/// What the caller must do next.
pub enum Action {
    /// Write this text, newline included, to the child's input.
    Send(String),
    /// Read one line of output, within the timeout.
    Receive,
    /// The script is done: read once more, within the timeout, to catch
    /// trailing output.
    ReceiveTrailing,
}

/// The result of one step, as values.
pub enum StepView {
    Continue { position: nat, history: Seq<Seq<char>> },
    Passed { history: Seq<Seq<char>> },
    Failed(ErrorView),
    InputClosed { position: nat, history: Seq<Seq<char>> },
}

/// One step of the protocol. An event that does not answer the pending
/// action leaves the state as it is.
pub open spec fn step_spec(
    lines: Seq<LineView>,
    position: nat,
    history: Seq<Seq<char>>,
    event: EventView,
) -> StepView {
    if position < lines.len() {
        let l = lines[position as int];
        if l.kind == InteractionLineKind::Input {
            match event {
                EventView::Written(true) => StepView::Continue {
                    position: position + 1,
                    history: history.push("> "@ + l.content),
                },
                EventView::Written(false) => StepView::InputClosed { position, history },
                EventView::Received(_) => StepView::Continue { position, history },
            }
        } else {
            match event {
                EventView::Received(Some(t)) => if line_accepts(l, t) {
                    StepView::Continue { position: position + 1, history: history.push(t) }
                } else {
                    StepView::Failed(
                        ErrorView::Fail { line: l.line_idx, expected: l.content, found: t, history },
                    )
                },
                EventView::Received(None) => StepView::Failed(
                    ErrorView::Fail {
                        line: l.line_idx,
                        expected: l.content,
                        found: "<timeout>"@,
                        history,
                    },
                ),
                EventView::Written(_) => StepView::Continue { position, history },
            }
        }
    } else {
        match event {
            EventView::Received(Some(t)) => StepView::Failed(
                ErrorView::Fail { line: 0, expected: "<EOF>"@, found: t, history },
            ),
            EventView::Received(None) => StepView::Passed { history },
            EventView::Written(_) => StepView::Continue { position, history },
        }
    }
}

/// The verdict reached by feeding `events` to the protocol, if any.
pub open spec fn run_spec(
    lines: Seq<LineView>,
    position: nat,
    history: Seq<Seq<char>>,
    events: Seq<EventView>,
) -> Option<StepView>
    decreases events.len(),
{
    if events.len() == 0 {
        None
    } else {
        match step_spec(lines, position, history, events[0]) {
            StepView::Continue { position, history } => run_spec(
                lines,
                position,
                history,
                events.drop_first(),
            ),
            done => Some(done),
        }
    }
}

/// The state of one interaction in progress.
pub struct Protocol {
    interaction: InteractionTest,
    position: usize,
    history: Vec<String>,
}

/// The outcome of one step.
pub enum Step {
    Continue(Protocol),
    /// Every line was answered and no trailing output came.
    Passed(Protocol),
    Failed(RunnerError),
    /// Writing the pending input line failed: the child has closed its input.
    InputClosed(Protocol),
}

impl Protocol {
    pub closed spec fn interaction_spec(&self) -> InteractionTest {
        self.interaction
    }

    pub open spec fn lines_spec(&self) -> Seq<LineView> {
        self.interaction_spec().lines_view()
    }

    /// How many script lines have been handled.
    pub closed spec fn position_spec(&self) -> nat {
        self.position as nat
    }

    /// Every line sent or received so far, inputs marked with `> `.
    pub closed spec fn history_spec(&self) -> Seq<Seq<char>> {
        texts(self.history@)
    }

    pub open spec fn wf(&self) -> bool {
        &&& self.position_spec() <= self.lines_spec().len()
        &&& patterns_valid(self.lines_spec())
    }

    /// Begins an interaction, after checking that each of its patterns compiles.
    pub fn start(interaction: InteractionTest) -> (r: Result<Protocol, InteractionParseError>)
        ensures
            r is Ok <==> patterns_valid(interaction.lines_view()),
            r matches Ok(p) ==> {
                &&& p.wf()
                &&& p.interaction_spec() == interaction
                &&& p.position_spec() == 0
                &&& p.history_spec() == Seq::<Seq<char>>::empty()
            },
            r matches Err(e) ==> exists|i: int|
                {
                    &&& 0 <= i < interaction.lines@.len()
                    &&& interaction.lines@[i].kind == InteractionLineKind::OutputRegex
                    &&& !regex_compiles(interaction.lines@[i].content@)
                    &&& e.0@ == "invalid pattern '"@ + interaction.lines@[i].content@ + "'"@
                },
    {
        let n = interaction.lines.len();
        let mut i: usize = 0;
        while i < n
            invariant
                n == interaction.lines@.len(),
                i <= n,
                forall|j: int|
                    0 <= j < i && (#[trigger] interaction.lines@[j]).kind
                        == InteractionLineKind::OutputRegex ==> regex_compiles(
                        interaction.lines@[j].content@,
                    ),
            decreases n - i,
        {
            let line = &interaction.lines[i];
            if line.kind == InteractionLineKind::OutputRegex {
                let checked = match_pattern(line.content.as_str(), "");
                if checked.is_none() {
                    let head = join2("invalid pattern '", line.content.as_str());
                    let message = join2(head.as_str(), "'");
                    proof {
                        assert(interaction.lines_view()[i as int] == interaction.lines@[i as int]@);
                    }
                    return Err(InteractionParseError(message));
                }
            }
            i = i + 1;
        }
        proof {
            assert forall|j: int|
                0 <= j < interaction.lines_view().len() && (#[trigger] interaction.lines_view()[j]).kind
                    == InteractionLineKind::OutputRegex implies regex_compiles(
                interaction.lines_view()[j].content,
            ) by {
                assert(interaction.lines_view()[j] == interaction.lines@[j]@);
            }
        }
        let history: Vec<String> = Vec::new();
        proof {
            assert(texts(history@) =~= Seq::<Seq<char>>::empty());
        }
        Ok(Protocol { interaction, position: 0, history })
    }

    /// The action that the next event must answer.
    pub fn pending(&self) -> (a: Action)
        requires
            self.wf(),
        ensures
            self.position_spec() < self.lines_spec().len() ==> {
                let l = self.lines_spec()[self.position_spec() as int];
                if l.kind == InteractionLineKind::Input {
                    a matches Action::Send(s) && s@ == l.content + "\n"@
                } else {
                    a is Receive
                }
            },
            self.position_spec() == self.lines_spec().len() ==> a is ReceiveTrailing,
    {
        if self.position < self.interaction.lines.len() {
            let line = &self.interaction.lines[self.position];
            proof {
                assert(self.lines_spec()[self.position as int] == line@);
            }
            if line.kind == InteractionLineKind::Input {
                Action::Send(join2(line.content.as_str(), "\n"))
            } else {
                Action::Receive
            }
        } else {
            Action::ReceiveTrailing
        }
    }

    /// Feeds one event to the protocol.
    pub fn advance(self, event: Event) -> (r: Step)
        requires
            self.wf(),
        ensures
            step_view(r) == step_spec(
                self.lines_spec(),
                self.position_spec(),
                self.history_spec(),
                event@,
            ),
            r matches Step::Continue(p) ==> p.wf() && p.interaction_spec()
                == self.interaction_spec(),
            r matches Step::Passed(p) ==> p.wf() && p.interaction_spec()
                == self.interaction_spec(),
            r matches Step::Failed(e) ==> e.interaction_spec() == self.interaction_spec(),
            r matches Step::InputClosed(p) ==> p.wf() && p.interaction_spec()
                == self.interaction_spec(),
    {
        let ghost lines = self.lines_spec();
        let ghost old_history = self.history_spec();
        let Protocol { interaction, position, mut history } = self;
        if position < interaction.lines.len() {
            let line_idx = interaction.lines[position].line_idx;
            let content = interaction.lines[position].content.clone();
            let kind = interaction.lines[position].kind;
            proof {
                assert(lines[position as int] == interaction.lines@[position as int]@);
            }
            if kind == InteractionLineKind::Input {
                match event {
                    Event::Written(true) => {
                        let record = join2("> ", content.as_str());
                        history.push(record);
                        proof {
                            assert(texts(history@) =~= old_history.push("> "@ + content@));
                        }
                        Step::Continue(Protocol { interaction, position: position + 1, history })
                    },
                    Event::Written(false) => Step::InputClosed(
                        Protocol { interaction, position, history },
                    ),
                    Event::Received(_) => Step::Continue(Protocol { interaction, position, history }),
                }
            } else {
                match event {
                    Event::Received(Some(text)) => {
                        let accepted = if kind == InteractionLineKind::OutputLiteral {
                            text == content
                        } else {
                            match match_pattern(content.as_str(), text.as_str()) {
                                Some(b) => b,
                                None => false,
                            }
                        };
                        if accepted {
                            history.push(text);
                            proof {
                                assert(texts(history@) =~= old_history.push(text@));
                            }
                            Step::Continue(
                                Protocol { interaction, position: position + 1, history },
                            )
                        } else {
                            Step::Failed(
                                RunnerError::Fail {
                                    interaction,
                                    line: line_idx,
                                    expected: content,
                                    found: text,
                                    prev_output: history,
                                },
                            )
                        }
                    },
                    Event::Received(None) => Step::Failed(
                        RunnerError::Fail {
                            interaction,
                            line: line_idx,
                            expected: content,
                            found: String::from_str("<timeout>"),
                            prev_output: history,
                        },
                    ),
                    Event::Written(_) => Step::Continue(Protocol { interaction, position, history }),
                }
            }
        } else {
            match event {
                Event::Received(Some(text)) => Step::Failed(
                    RunnerError::Fail {
                        interaction,
                        line: 0,
                        expected: String::from_str("<EOF>"),
                        found: text,
                        prev_output: history,
                    },
                ),
                Event::Received(None) => Step::Passed(Protocol { interaction, position, history }),
                Event::Written(_) => Step::Continue(Protocol { interaction, position, history }),
            }
        }
    }
}

/// A step's outcome as values.
pub open spec fn step_view(s: Step) -> StepView {
    match s {
        Step::Continue(p) => StepView::Continue {
            position: p.position_spec(),
            history: p.history_spec(),
        },
        Step::Passed(p) => StepView::Passed { history: p.history_spec() },
        Step::Failed(e) => StepView::Failed(e@),
        Step::InputClosed(p) => StepView::InputClosed {
            position: p.position_spec(),
            history: p.history_spec(),
        },
    }
}

/// How the child process ended.
#[derive(Clone, Copy, Debug, PartialEq, Eq, Structural)]
pub enum ChildExit {
    Success,
    /// A non-zero exit, with its code.
    Failure(i32),
    /// Ended by a signal, with its number.
    Signaled(u8),
}

/// The code reported for an exit: the exit code itself, 0 for success, and
/// 128 plus the signal number for a signal, as shells report it.
pub open spec fn exit_code_spec(exit: ChildExit) -> int {
    match exit {
        ChildExit::Success => 0,
        ChildExit::Failure(c) => c as int,
        ChildExit::Signaled(s) => 128 + s,
    }
}

fn exit_code(exit: ChildExit) -> (r: i32)
    ensures
        r as int == exit_code_spec(exit),
{
    match exit {
        ChildExit::Success => 0,
        ChildExit::Failure(c) => c,
        ChildExit::Signaled(s) => 128 + s as i32,
    }
}

/// Diagnostics of a program that stopped because its input ran out while a
/// `java.util.Scanner` was reading it.
pub open spec fn input_exhausted_spec(diagnostics: Seq<char>) -> bool {
    is_infix("java.util.NoSuchElementException"@, diagnostics) && is_infix(
        "java.util.Scanner"@,
        diagnostics,
    )
}

/// Whether a non-zero exit with these diagnostics is the benign end of a
/// program whose input ran out.
pub fn input_exhausted(diagnostics: &str) -> (r: bool)
    ensures
        r == input_exhausted_spec(diagnostics@),
{
    contains_text(diagnostics, "java.util.NoSuchElementException") && contains_text(
        diagnostics,
        "java.util.Scanner",
    )
}

/// How a protocol run ended.
pub enum Verdict {
    Passed(Protocol),
    Failed(RunnerError),
    /// The child closed its input before the pending input line was written.
    InputClosed(Protocol),
}

/// The script line of the pending step, or 0 when the script is done.
pub open spec fn pending_line_spec(p: Protocol) -> nat {
    if p.position_spec() < p.lines_spec().len() {
        p.lines_spec()[p.position_spec() as int].line_idx
    } else {
        0
    }
}

/// Combines the protocol's verdict with the way the child exited and what it
/// wrote to its error stream.
///
/// A failed write always gives an `Error` at the input line. Otherwise, when
/// the child exited abnormally without the benign input-exhausted signature,
/// a `Fail` becomes an `Error` at the same line and a pass becomes an
/// `Error` at line 0, both carrying the diagnostics and the exit code;
/// in every other case the verdict stands.
pub fn reconcile(verdict: Verdict, exit: ChildExit, diagnostics: String) -> (r: Result<
    (),
    RunnerError,
>)
    ensures
        verdict matches Verdict::InputClosed(p) ==> r matches Err(e) && e.interaction_spec()
            == p.interaction_spec() && e@ == (ErrorView::Error {
            line: pending_line_spec(p),
            message: diagnostics@,
            code: exit_code_spec(exit),
            history: p.history_spec(),
        }),
        exit == ChildExit::Success || input_exhausted_spec(diagnostics@) ==> match verdict {
            Verdict::Passed(_) => r is Ok,
            Verdict::Failed(e) => r == Err::<(), RunnerError>(e),
            Verdict::InputClosed(_) => true,
        },
        exit != ChildExit::Success && !input_exhausted_spec(diagnostics@) ==> match verdict {
            Verdict::Passed(p) => r matches Err(e) && e.interaction_spec() == p.interaction_spec()
                && e@ == (ErrorView::Error {
                line: 0,
                message: diagnostics@,
                code: exit_code_spec(exit),
                history: p.history_spec(),
            }),
            Verdict::Failed(RunnerError::Fail { interaction, line, prev_output, .. }) => r == Err::<
                (),
                RunnerError,
            >(
                (RunnerError::Error {
                    interaction,
                    line,
                    error_message: diagnostics,
                    error_code: exit_code_spec(exit) as i32,
                    prev_output,
                }),
            ),
            Verdict::Failed(e) => r == Err::<(), RunnerError>(e),
            Verdict::InputClosed(_) => true,
        },
{
    let code = exit_code(exit);
    if let Verdict::InputClosed(p) = verdict {
        let line = if p.position < p.interaction.lines.len() {
            proof {
                assert(p.lines_spec()[p.position as int] == p.interaction.lines@[p.position as int]@);
            }
            p.interaction.lines[p.position].line_idx
        } else {
            0
        };
        let Protocol { interaction, position: _, history } = p;
        return Err(
            RunnerError::Error {
                interaction,
                line,
                error_message: diagnostics,
                error_code: code,
                prev_output: history,
            },
        );
    }
    if exit == ChildExit::Success || input_exhausted(diagnostics.as_str()) {
        return match verdict {
            Verdict::Failed(e) => Err(e),
            _ => Ok(()),
        };
    }
    match verdict {
        Verdict::Passed(p) => {
            let Protocol { interaction, position: _, history } = p;
            Err(
                RunnerError::Error {
                    interaction,
                    line: 0,
                    error_message: diagnostics,
                    error_code: code,
                    prev_output: history,
                },
            )
        },
        Verdict::Failed(RunnerError::Fail { interaction, line, expected: _, found: _, prev_output }) => Err(
            RunnerError::Error {
                interaction,
                line,
                error_message: diagnostics,
                error_code: code,
                prev_output,
            },
        ),
        Verdict::Failed(e) => Err(e),
        Verdict::InputClosed(_) => Ok(()),
    }
}

} // verus!
