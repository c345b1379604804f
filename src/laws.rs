//! Properties of whole protocol runs, proved over the step relation that
//! `Protocol::advance` follows.
use vstd::prelude::*;
use crate::script::{InteractionLineKind, LineView};
use crate::outcome::ErrorView;
use crate::engine::{EventView, StepView, line_accepts, run_spec, step_spec};
use crate::scheduler::{InteractionResult, as_slots, failures_spec, store_spec, unstarted};

verus! {

/// The answer of a child that follows the script: an input line is written,
/// an output line is answered with `output`.
pub open spec fn answer(l: LineView, output: Seq<char>) -> EventView {
    if l.kind == InteractionLineKind::Input {
        EventView::Written(true)
    } else {
        EventView::Received(Some(output))
    }
}

/// What the history records for a line so answered.
pub open spec fn record(l: LineView, output: Seq<char>) -> Seq<char> {
    if l.kind == InteractionLineKind::Input {
        "> "@ + l.content
    } else {
        output
    }
}

/// The answers to lines `from..to`, the i-th output line answered with `outputs[i]`.
pub open spec fn answers(lines: Seq<LineView>, outputs: Seq<Seq<char>>, from: nat, to: nat) -> Seq<
    EventView,
>
    decreases to - from,
{
    if from >= to {
        Seq::empty()
    } else {
        seq![answer(lines[from as int], outputs[from as int])] + answers(lines, outputs, from + 1, to)
    }
}

/// The history that the answers to lines `from..to` leave.
pub open spec fn records(lines: Seq<LineView>, outputs: Seq<Seq<char>>, from: nat, to: nat) -> Seq<
    Seq<char>,
>
    decreases to - from,
{
    if from >= to {
        Seq::empty()
    } else {
        seq![record(lines[from as int], outputs[from as int])] + records(lines, outputs, from + 1, to)
    }
}

/// Each output line among `from..to` accepts its answer.
pub open spec fn all_accepted(lines: Seq<LineView>, outputs: Seq<Seq<char>>, from: nat, to: nat) -> bool {
    forall|i: int|
        from <= i < to && (#[trigger] lines[i]).kind != InteractionLineKind::Input ==> line_accepts(
            lines[i],
            outputs[i],
        )
}

/// Answering lines `from..to` as the script asks moves the protocol to line
/// `to`, whatever comes after.
pub proof fn lemma_answers(
    lines: Seq<LineView>,
    outputs: Seq<Seq<char>>,
    from: nat,
    to: nat,
    history: Seq<Seq<char>>,
    rest: Seq<EventView>,
)
    requires
        from <= to <= lines.len(),
        outputs.len() == lines.len(),
        all_accepted(lines, outputs, from, to),
    ensures
        run_spec(lines, from, history, answers(lines, outputs, from, to) + rest) == run_spec(
            lines,
            to,
            history + records(lines, outputs, from, to),
            rest,
        ),
    decreases to - from,
{
    let events = answers(lines, outputs, from, to) + rest;
    if from == to {
        assert(events =~= rest);
        assert(history + records(lines, outputs, from, to) =~= history);
    } else {
        let l = lines[from as int];
        let next_history = history.push(record(l, outputs[from as int]));
        assert(step_spec(lines, from, history, answer(l, outputs[from as int])) == (
        StepView::Continue { position: from + 1, history: next_history }));
        assert(events[0] == answer(l, outputs[from as int]));
        assert(events.drop_first() =~= answers(lines, outputs, from + 1, to) + rest);
        lemma_answers(lines, outputs, from + 1, to, next_history, rest);
        assert(next_history + records(lines, outputs, from + 1, to) =~= history + records(
            lines,
            outputs,
            from,
            to,
        ));
    }
}

/// A child that answers every line as the script expects and then prints
/// nothing more passes.
pub proof fn law_matching_output_passes(lines: Seq<LineView>, outputs: Seq<Seq<char>>)
    requires
        outputs.len() == lines.len(),
        all_accepted(lines, outputs, 0, lines.len()),
    ensures
        run_spec(
            lines,
            0,
            Seq::empty(),
            answers(lines, outputs, 0, lines.len()).push(EventView::Received(None)),
        ) == Some(StepView::Passed { history: records(lines, outputs, 0, lines.len()) }),
{
    let tail = seq![EventView::Received(None)];
    assert(answers(lines, outputs, 0, lines.len()).push(EventView::Received(None)) =~= answers(
        lines,
        outputs,
        0,
        lines.len(),
    ) + tail);
    lemma_answers(lines, outputs, 0, lines.len(), Seq::empty(), tail);
    assert(Seq::<Seq<char>>::empty() + records(lines, outputs, 0, lines.len()) =~= records(
        lines,
        outputs,
        0,
        lines.len(),
    ));
    assert(tail.drop_first() =~= Seq::<EventView>::empty());
}

/// The first output line that does not accept what the child printed fails
/// the run, citing that line, its expected text and the text found.
pub proof fn law_mismatch_fails_at_line(
    lines: Seq<LineView>,
    outputs: Seq<Seq<char>>,
    k: nat,
    found: Seq<char>,
)
    requires
        outputs.len() == lines.len(),
        k < lines.len(),
        all_accepted(lines, outputs, 0, k),
        lines[k as int].kind != InteractionLineKind::Input,
        !line_accepts(lines[k as int], found),
    ensures
        run_spec(
            lines,
            0,
            Seq::empty(),
            answers(lines, outputs, 0, k).push(EventView::Received(Some(found))),
        ) == Some(
            StepView::Failed(
                ErrorView::Fail {
                    line: lines[k as int].line_idx,
                    expected: lines[k as int].content,
                    found,
                    history: records(lines, outputs, 0, k),
                },
            ),
        ),
{
    let tail = seq![EventView::Received(Some(found))];
    assert(answers(lines, outputs, 0, k).push(EventView::Received(Some(found))) =~= answers(
        lines,
        outputs,
        0,
        k,
    ) + tail);
    lemma_answers(lines, outputs, 0, k, Seq::empty(), tail);
    assert(Seq::<Seq<char>>::empty() + records(lines, outputs, 0, k) =~= records(
        lines,
        outputs,
        0,
        k,
    ));
}

/// Output beyond the last scripted line fails the run with `<EOF>` expected.
pub proof fn law_trailing_output_fails(
    lines: Seq<LineView>,
    outputs: Seq<Seq<char>>,
    extra: Seq<char>,
)
    requires
        outputs.len() == lines.len(),
        all_accepted(lines, outputs, 0, lines.len()),
    ensures
        run_spec(
            lines,
            0,
            Seq::empty(),
            answers(lines, outputs, 0, lines.len()).push(EventView::Received(Some(extra))),
        ) == Some(
            StepView::Failed(
                ErrorView::Fail {
                    line: 0,
                    expected: "<EOF>"@,
                    found: extra,
                    history: records(lines, outputs, 0, lines.len()),
                },
            ),
        ),
{
    let tail = seq![EventView::Received(Some(extra))];
    assert(answers(lines, outputs, 0, lines.len()).push(EventView::Received(Some(extra)))
        =~= answers(lines, outputs, 0, lines.len()) + tail);
    lemma_answers(lines, outputs, 0, lines.len(), Seq::empty(), tail);
    assert(Seq::<Seq<char>>::empty() + records(lines, outputs, 0, lines.len()) =~= records(
        lines,
        outputs,
        0,
        lines.len(),
    ));
}

/// When no line comes in time for an output line, the run fails at that line
/// with `<timeout>` found.
pub proof fn law_silence_times_out(lines: Seq<LineView>, outputs: Seq<Seq<char>>, k: nat)
    requires
        outputs.len() == lines.len(),
        k < lines.len(),
        all_accepted(lines, outputs, 0, k),
        lines[k as int].kind != InteractionLineKind::Input,
    ensures
        run_spec(
            lines,
            0,
            Seq::empty(),
            answers(lines, outputs, 0, k).push(EventView::Received(None)),
        ) == Some(
            StepView::Failed(
                ErrorView::Fail {
                    line: lines[k as int].line_idx,
                    expected: lines[k as int].content,
                    found: "<timeout>"@,
                    history: records(lines, outputs, 0, k),
                },
            ),
        ),
{
    let tail = seq![EventView::Received(None)];
    assert(answers(lines, outputs, 0, k).push(EventView::Received(None)) =~= answers(
        lines,
        outputs,
        0,
        k,
    ) + tail);
    lemma_answers(lines, outputs, 0, k, Seq::empty(), tail);
    assert(Seq::<Seq<char>>::empty() + records(lines, outputs, 0, k) =~= records(
        lines,
        outputs,
        0,
        k,
    ));
}

/// The slots after storing `reports` in arrival order, as `store_report` does.
pub open spec fn apply_reports(
    slots: Seq<Option<InteractionResult>>,
    reports: Seq<(int, InteractionResult)>,
) -> Seq<Option<InteractionResult>>
    decreases reports.len(),
{
    if reports.len() == 0 {
        slots
    } else {
        store_spec(apply_reports(slots, reports.drop_last()), reports.last().0, reports.last().1)
    }
}

/// Reports for distinct slots each land in their own slot.
pub proof fn lemma_reports_fill(n: nat, reports: Seq<(int, InteractionResult)>)
    requires
        forall|j: int| 0 <= j < reports.len() ==> 0 <= (#[trigger] reports[j]).0 < n,
        forall|j1: int, j2: int|
            0 <= j1 < j2 < reports.len() ==> (#[trigger] reports[j1]).0 != (#[trigger] reports[j2]).0,
    ensures
        apply_reports(unstarted(n), reports).len() == n,
        forall|j: int|
            0 <= j < reports.len() ==> apply_reports(unstarted(n), reports)[(#[trigger] reports[j]).0]
                == Some(reports[j].1),
        forall|i: int|
            0 <= i < n && (forall|j: int| 0 <= j < reports.len() ==> (#[trigger] reports[j]).0 != i)
                ==> (#[trigger] apply_reports(unstarted(n), reports)[i]) is None,
    decreases reports.len(),
{
    if reports.len() > 0 {
        let prefix = reports.drop_last();
        assert forall|j: int| 0 <= j < prefix.len() implies 0 <= (#[trigger] prefix[j]).0 < n by {
            assert(prefix[j] == reports[j]);
        }
        assert forall|j1: int, j2: int| 0 <= j1 < j2 < prefix.len() implies (#[trigger] prefix[j1]).0
            != (#[trigger] prefix[j2]).0 by {
            assert(prefix[j1] == reports[j1] && prefix[j2] == reports[j2]);
        }
        lemma_reports_fill(n, prefix);
        let before = apply_reports(unstarted(n), prefix);
        let last = reports.last();
        assert(reports[reports.len() - 1] == last);
        assert forall|j: int| 0 <= j < prefix.len() implies (#[trigger] prefix[j]).0 != last.0 by {
            assert(prefix[j] == reports[j]);
        }
        assert(before[last.0] is None);
        assert forall|j: int| 0 <= j < reports.len() implies apply_reports(unstarted(n), reports)[(
        #[trigger] reports[j]).0] == Some(reports[j].1) by {
            if j < reports.len() - 1 {
                assert(prefix[j] == reports[j]);
            }
        }
        assert forall|i: int|
            0 <= i < n && (forall|j: int| 0 <= j < reports.len() ==> (#[trigger] reports[j]).0 != i)
                implies (#[trigger] apply_reports(unstarted(n), reports)[i]) is None by {
            assert(reports[reports.len() - 1].0 != i);
            assert forall|j: int| 0 <= j < prefix.len() implies (#[trigger] prefix[j]).0 != i by {
                assert(prefix[j] == reports[j]);
            }
        }
    }
}

/// Whatever order the interactions report in, the slots end up holding the
/// outcomes in input order: a concurrent run, whose reports arrive in any
/// order, ends with the same slots, and so the same failure list, as a
/// sequential run, whose reports arrive in input order.
pub proof fn law_arrival_order_irrelevant(
    outcomes: Seq<InteractionResult>,
    reports: Seq<(int, InteractionResult)>,
)
    requires
        forall|j: int| 0 <= j < reports.len() ==> 0 <= (#[trigger] reports[j]).0 < outcomes.len(),
        forall|j1: int, j2: int|
            0 <= j1 < j2 < reports.len() ==> (#[trigger] reports[j1]).0 != (#[trigger] reports[j2]).0,
        forall|i: int|
            0 <= i < outcomes.len() ==> exists|j: int|
                0 <= j < reports.len() && #[trigger] reports[j] == (i, #[trigger] outcomes[i]),
    ensures
        apply_reports(unstarted(outcomes.len()), reports) == as_slots(outcomes),
        failures_spec(apply_reports(unstarted(outcomes.len()), reports)) == failures_spec(
            as_slots(outcomes),
        ),
{
    lemma_reports_fill(outcomes.len(), reports);
    let filled = apply_reports(unstarted(outcomes.len()), reports);
    assert forall|i: int| 0 <= i < outcomes.len() implies filled[i] == Some(outcomes[i]) by {
        let j = choose|j: int| 0 <= j < reports.len() && #[trigger] reports[j] == (i, outcomes[i]);
        assert(filled[reports[j].0] == Some(reports[j].1));
    }
    assert(filled =~= as_slots(outcomes));
}

/// A slot that holds a failure.
pub open spec fn is_failed(slot: Option<InteractionResult>) -> bool {
    slot matches Some(Err(_))
}

/// Positions of the failed slots, in increasing order.
pub open spec fn failed_positions(slots: Seq<Option<InteractionResult>>) -> Seq<int>
    decreases slots.len(),
{
    if slots.len() == 0 {
        Seq::empty()
    } else {
        let rest = failed_positions(slots.drop_first()).map_values(|p: int| p + 1);
        match slots[0] {
            Some(Err(_)) => seq![0] + rest,
            _ => rest,
        }
    }
}

/// The failure list holds exactly one entry per failed slot: the k-th entry
/// is the error of the k-th failed slot, and those slots come in input order.
pub proof fn law_failures_match_failed_slots(slots: Seq<Option<InteractionResult>>)
    ensures
        failures_spec(slots).len() == failed_positions(slots).len(),
        forall|k: int|
            0 <= k < failed_positions(slots).len() ==> {
                let p = #[trigger] failed_positions(slots)[k];
                0 <= p < slots.len() && slots[p] == Some(Err::<(), _>(failures_spec(slots)[k]))
            },
        forall|k1: int, k2: int|
            0 <= k1 < k2 < failed_positions(slots).len() ==> #[trigger] failed_positions(slots)[k1]
                < #[trigger] failed_positions(slots)[k2],
        forall|i: int|
            0 <= i < slots.len() && is_failed(#[trigger] slots[i]) ==> exists|k: int|
                0 <= k < failed_positions(slots).len() && #[trigger] failed_positions(slots)[k] == i,
    decreases slots.len(),
{
    if slots.len() > 0 {
        let tail = slots.drop_first();
        law_failures_match_failed_slots(tail);
        let rest = failed_positions(tail).map_values(|p: int| p + 1);
        let fs = failures_spec(slots);
        let ps = failed_positions(slots);
        match slots[0] {
            Some(Err(e)) => {
                assert(ps == seq![0int] + rest);
                assert(fs == seq![e] + failures_spec(tail));
                assert forall|k: int| 0 <= k < ps.len() implies {
                    let p = #[trigger] ps[k];
                    0 <= p < slots.len() && slots[p] == Some(Err::<(), _>(fs[k]))
                } by {
                    if k > 0 {
                        assert(ps[k] == failed_positions(tail)[k - 1] + 1);
                        assert(fs[k] == failures_spec(tail)[k - 1]);
                        assert(slots[ps[k]] == tail[failed_positions(tail)[k - 1]]);
                    }
                }
                assert forall|k1: int, k2: int| 0 <= k1 < k2 < ps.len() implies #[trigger] ps[k1]
                    < #[trigger] ps[k2] by {
                    if k1 > 0 {
                        assert(ps[k1] == failed_positions(tail)[k1 - 1] + 1);
                    }
                    assert(ps[k2] == failed_positions(tail)[k2 - 1] + 1);
                    assert(0 <= failed_positions(tail)[k2 - 1]);
                }
                assert forall|i: int|
                    0 <= i < slots.len() && is_failed(#[trigger] slots[i]) implies exists|
                    k: int,
                | 0 <= k < ps.len() && #[trigger] ps[k] == i by {
                    if i == 0 {
                        assert(ps[0] == 0);
                    } else {
                        assert(tail[i - 1] == slots[i]);
                        let k = choose|k: int|
                            0 <= k < failed_positions(tail).len() && #[trigger] failed_positions(
                                tail,
                            )[k] == i - 1;
                        assert(ps[k + 1] == i);
                    }
                }
            },
            _ => {
                assert(ps == rest);
                assert(fs == failures_spec(tail));
                assert forall|k: int| 0 <= k < ps.len() implies {
                    let p = #[trigger] ps[k];
                    0 <= p < slots.len() && slots[p] == Some(Err::<(), _>(fs[k]))
                } by {
                    assert(ps[k] == failed_positions(tail)[k] + 1);
                    assert(slots[ps[k]] == tail[failed_positions(tail)[k]]);
                }
                assert forall|k1: int, k2: int| 0 <= k1 < k2 < ps.len() implies #[trigger] ps[k1]
                    < #[trigger] ps[k2] by {
                    assert(ps[k1] == failed_positions(tail)[k1] + 1);
                    assert(ps[k2] == failed_positions(tail)[k2] + 1);
                }
                assert forall|i: int|
                    0 <= i < slots.len() && is_failed(#[trigger] slots[i]) implies exists|
                    k: int,
                | 0 <= k < ps.len() && #[trigger] ps[k] == i by {
                    assert(i != 0);
                    assert(tail[i - 1] == slots[i]);
                    let k = choose|k: int|
                        0 <= k < failed_positions(tail).len() && #[trigger] failed_positions(tail)[k]
                            == i - 1;
                    assert(ps[k] == i);
                }
            },
        }
    }
}

} // verus!
