//! Running many interactions, one at a time or on a bounded number of
//! concurrent workers, and collecting their failures in script order.
use vstd::prelude::*;
use crate::script::{InteractionTest, RunnerConfig};
use crate::outcome::RunnerError;
use crate::text::join2;

verus! {

/// The outcome of one interaction.
pub type InteractionResult = Result<(), RunnerError>;

/// The glyph shown for a result slot.
pub open spec fn icon_spec(slot: Option<InteractionResult>) -> Seq<char> {
    match slot {
        None => "⬜"@,
        Some(Ok(_)) => "✅"@,
        Some(Err(RunnerError::Fail { .. })) => "🟥"@,
        Some(Err(RunnerError::Error { .. })) => "💀"@,
    }
}

/// The glyph of a finished interaction.
pub fn result_icon(result: &InteractionResult) -> (r: &'static str)
    ensures
        r@ == icon_spec(Some(*result)),
{
    match result {
        Ok(_) => "✅",
        Err(RunnerError::Fail { .. }) => "🟥",
        Err(RunnerError::Error { .. }) => "💀",
    }
}

/// The glyph of a result slot, empty while the interaction has not finished.
pub fn to_icon(slot: &Option<InteractionResult>) -> (r: &'static str)
    ensures
        r@ == icon_spec(*slot),
{
    match slot {
        None => "⬜",
        Some(result) => result_icon(result),
    }
}

/// One glyph per slot, in slot order.
pub open spec fn progress_spec(slots: Seq<Option<InteractionResult>>) -> Seq<char>
    decreases slots.len(),
{
    if slots.len() == 0 {
        Seq::empty()
    } else {
        icon_spec(slots[0]) + progress_spec(slots.drop_first())
    }
}

/// The errors of the failed slots, in slot order.
pub open spec fn failures_spec(slots: Seq<Option<InteractionResult>>) -> Seq<RunnerError>
    decreases slots.len(),
{
    if slots.len() == 0 {
        Seq::empty()
    } else {
        match slots[0] {
            Some(Err(e)) => seq![e] + failures_spec(slots.drop_first()),
            _ => failures_spec(slots.drop_first()),
        }
    }
}

/// The progress line: one glyph per interaction, in input order.
pub fn create_progress_bar(results: &Vec<Option<InteractionResult>>) -> (r: String)
    ensures
        r@ == progress_spec(results@),
{
    let n = results.len();
    let mut bar = String::new();
    let mut i: usize = 0;
    assert(results@.subrange(0, n as int) =~= results@);
    assert(bar@ + progress_spec(results@) =~= progress_spec(results@));
    while i < n
        invariant
            n == results@.len(),
            i <= n,
            bar@ + progress_spec(results@.subrange(i as int, n as int)) == progress_spec(results@),
        decreases n - i,
    {
        let ghost rest = results@.subrange(i as int, n as int);
        assert(rest.drop_first() =~= results@.subrange(i + 1, n as int));
        assert(rest[0] == results@[i as int]);
        bar.append(to_icon(&results[i]));
        i = i + 1;
    }
    assert(results@.subrange(n as int, n as int) =~= Seq::<Option<InteractionResult>>::empty());
    assert(bar@ + Seq::<char>::empty() =~= bar@);
    bar
}

/// Whether every interaction has finished.
pub fn update_is_done(results: &Vec<Option<InteractionResult>>) -> (r: bool)
    ensures
        r == forall|i: int| 0 <= i < results@.len() ==> (#[trigger] results@[i]) is Some,
{
    let mut i: usize = 0;
    while i < results.len()
        invariant
            i <= results@.len(),
            forall|j: int| 0 <= j < i ==> (#[trigger] results@[j]) is Some,
        decreases results@.len() - i,
    {
        if results[i].is_none() {
            return false;
        }
        i = i + 1;
    }
    true
}

/// The slots after a completion report; a report for a slot that is out of
/// range or already filled is dropped.
pub open spec fn store_spec(
    slots: Seq<Option<InteractionResult>>,
    index: int,
    outcome: InteractionResult,
) -> Seq<Option<InteractionResult>> {
    if 0 <= index < slots.len() && slots[index] is None {
        slots.update(index, Some(outcome))
    } else {
        slots
    }
}

/// Records a completion report in its slot.
pub fn store_report(results: &mut Vec<Option<InteractionResult>>, index: usize, outcome: InteractionResult) -> (stored: bool)
    ensures
        final(results)@ == store_spec(old(results)@, index as int, outcome),
        stored == (index < old(results)@.len() && old(results)@[index as int] is None),
{
    if index < results.len() && results[index].is_none() {
        results.set(index, Some(outcome));
        true
    } else {
        false
    }
}

/// Takes the errors out of the slots, in slot order.
pub fn collect_failures(results: Vec<Option<InteractionResult>>) -> (r: Vec<RunnerError>)
    ensures
        r@ == failures_spec(results@),
{
    let ghost all = results@;
    let mut rest = results;
    let mut fails: Vec<RunnerError> = Vec::new();
    assert(fails@ + failures_spec(rest@) =~= failures_spec(all));
    while rest.len() > 0
        invariant
            fails@ + failures_spec(rest@) == failures_spec(all),
        decreases rest@.len(),
    {
        let ghost before = rest@;
        let slot = rest.remove(0);
        assert(rest@ =~= before.drop_first());
        match slot {
            Some(Err(e)) => {
                fails.push(e);
                assert(fails@ + failures_spec(rest@) =~= failures_spec(all));
            },
            _ => {},
        }
    }
    assert(fails@ + Seq::<RunnerError>::empty() =~= fails@);
    fails
}

/// How many slots hold an outcome.
pub open spec fn filled(slots: Seq<Option<InteractionResult>>) -> nat
    decreases slots.len(),
{
    if slots.len() == 0 {
        0
    } else {
        filled(slots.drop_last()) + if slots.last() is Some {
            1nat
        } else {
            0nat
        }
    }
}

/// Slots from `k` on are empty: at most `k` are filled, fewer when one
/// before `k` is empty.
pub proof fn lemma_filled_prefix(slots: Seq<Option<InteractionResult>>, k: nat)
    requires
        k <= slots.len(),
        forall|i: int| k <= i < slots.len() ==> (#[trigger] slots[i]) is None,
    ensures
        filled(slots) <= k,
        (exists|j: int| 0 <= j < k && (#[trigger] slots[j]) is None) ==> filled(slots) < k,
    decreases slots.len(),
{
    if slots.len() > 0 {
        let t = slots.drop_last();
        if k == slots.len() {
            lemma_filled_prefix(t, (k - 1) as nat);
            if exists|j: int| 0 <= j < k && (#[trigger] slots[j]) is None {
                let j = choose|j: int| 0 <= j < k && (#[trigger] slots[j]) is None;
                if j < k - 1 {
                    assert(t[j] is None);
                }
            }
        } else {
            assert(slots[slots.len() - 1] is None);
            assert forall|i: int| k <= i < t.len() implies (#[trigger] t[i]) is None by {
                assert(t[i] == slots[i]);
            }
            lemma_filled_prefix(t, k);
            if exists|j: int| 0 <= j < k && (#[trigger] slots[j]) is None {
                let j = choose|j: int| 0 <= j < k && (#[trigger] slots[j]) is None;
                assert(t[j] is None);
            }
        }
    }
}

/// Filling an empty slot adds one to the count.
pub proof fn lemma_filled_update(
    slots: Seq<Option<InteractionResult>>,
    i: int,
    outcome: InteractionResult,
)
    requires
        0 <= i < slots.len(),
        slots[i] is None,
    ensures
        filled(slots.update(i, Some(outcome))) == filled(slots) + 1,
    decreases slots.len(),
{
    let u = slots.update(i, Some(outcome));
    if i == slots.len() - 1 {
        assert(u.drop_last() =~= slots.drop_last());
    } else {
        assert(u.drop_last() =~= slots.drop_last().update(i, Some(outcome)));
        lemma_filled_update(slots.drop_last(), i, outcome);
    }
}

/// Slots of `n` interactions, none finished.
pub open spec fn unstarted(n: nat) -> Seq<Option<InteractionResult>> {
    Seq::new(n, |i: int| None)
}

/// The bookkeeping of a bounded pool of concurrent runs: interactions start
/// in input order, at most `limit` are in flight at once, and each outcome
/// is kept in the slot of its interaction.
pub struct Schedule {
    slots: Vec<Option<InteractionResult>>,
    next: usize,
    running: u64,
    limit: u64,
}

impl Schedule {
    /// The outcome slots, in input order.
    pub closed spec fn slots_spec(&self) -> Seq<Option<InteractionResult>> {
        self.slots@
    }

    /// How many interactions have been started.
    pub closed spec fn next_spec(&self) -> nat {
        self.next as nat
    }

    /// How many started interactions have not reported.
    pub closed spec fn running_spec(&self) -> nat {
        self.running as nat
    }

    pub closed spec fn limit_spec(&self) -> nat {
        self.limit as nat
    }

    pub open spec fn wf(&self) -> bool {
        &&& self.next_spec() <= self.slots_spec().len()
        &&& self.running_spec() <= self.limit_spec()
        &&& self.running_spec() + filled(self.slots_spec()) == self.next_spec()
        &&& forall|i: int|
            self.next_spec() <= i < self.slots_spec().len() ==> (#[trigger] self.slots_spec()[i]) is None
    }

    /// A schedule of `n` interactions with at most `limit` in flight.
    pub fn new(n: usize, limit: u64) -> (r: Schedule)
        ensures
            r.wf(),
            r.slots_spec() == unstarted(n as nat),
            r.next_spec() == 0,
            r.running_spec() == 0,
            r.limit_spec() == limit,
    {
        let mut slots: Vec<Option<InteractionResult>> = Vec::new();
        while slots.len() < n
            invariant
                slots@.len() <= n,
                forall|i: int| 0 <= i < slots@.len() ==> (#[trigger] slots@[i]) is None,
            decreases n - slots@.len(),
        {
            slots.push(None);
        }
        assert(slots@ =~= unstarted(n as nat));
        proof {
            lemma_filled_prefix(slots@, 0);
        }
        Schedule { slots, next: 0, running: 0, limit }
    }

    /// Starts the next interaction if one is left and a worker is free.
    pub fn next_start(&mut self) -> (r: Option<usize>)
        requires
            old(self).wf(),
        ensures
            final(self).wf(),
            final(self).slots_spec() == old(self).slots_spec(),
            final(self).limit_spec() == old(self).limit_spec(),
            if old(self).running_spec() < old(self).limit_spec() && old(self).next_spec()
                < old(self).slots_spec().len() {
                &&& r == Some(old(self).next_spec() as usize)
                &&& final(self).next_spec() == old(self).next_spec() + 1
                &&& final(self).running_spec() == old(self).running_spec() + 1
            } else {
                &&& r is None
                &&& final(self).next_spec() == old(self).next_spec()
                &&& final(self).running_spec() == old(self).running_spec()
            },
    {
        if self.running < self.limit && self.next < self.slots.len() {
            let index = self.next;
            self.next = self.next + 1;
            self.running = self.running + 1;
            Some(index)
        } else {
            None
        }
    }

    /// Records that interaction `index` finished with `outcome`. Only a
    /// started interaction that has not reported yet is recorded.
    pub fn report(&mut self, index: usize, outcome: InteractionResult) -> (stored: bool)
        requires
            old(self).wf(),
        ensures
            final(self).wf(),
            stored == (index < old(self).next_spec() && old(self).slots_spec()[index as int] is None),
            final(self).slots_spec() == if stored {
                store_spec(old(self).slots_spec(), index as int, outcome)
            } else {
                old(self).slots_spec()
            },
            final(self).next_spec() == old(self).next_spec(),
            final(self).limit_spec() == old(self).limit_spec(),
            final(self).running_spec() == if stored {
                old(self).running_spec() - 1
            } else {
                old(self).running_spec() as int
            },
    {
        if index < self.next && self.slots[index].is_none() {
            proof {
                lemma_filled_prefix(self.slots@, self.next as nat);
                assert(self.slots@[index as int] is None);
                lemma_filled_update(self.slots@, index as int, outcome);
            }
            store_report(&mut self.slots, index, outcome);
            self.running = self.running - 1;
            true
        } else {
            false
        }
    }

    /// The slot of interaction `index`.
    pub fn slot(&self, index: usize) -> (r: &Option<InteractionResult>)
        requires
            index < self.slots_spec().len(),
        ensures
            *r == self.slots_spec()[index as int],
    {
        &self.slots[index]
    }

    /// How many started interactions have not reported.
    pub fn running(&self) -> (r: u64)
        ensures
            r == self.running_spec(),
    {
        self.running
    }

    /// Whether every interaction has reported.
    pub fn is_done(&self) -> (r: bool)
        ensures
            r == forall|i: int|
                0 <= i < self.slots_spec().len() ==> (#[trigger] self.slots_spec()[i]) is Some,
    {
        update_is_done(&self.slots)
    }

    /// The progress line: one glyph per interaction, in input order.
    pub fn progress_bar(&self) -> (r: String)
        ensures
            r@ == progress_spec(self.slots_spec()),
    {
        create_progress_bar(&self.slots)
    }

    /// The errors of the failed interactions, in input order.
    pub fn into_failures(self) -> (r: Vec<RunnerError>)
        ensures
            r@ == failures_spec(self.slots_spec()),
    {
        collect_failures(self.slots)
    }
}

/// The outcomes as filled slots.
pub open spec fn as_slots(outcomes: Seq<InteractionResult>) -> Seq<Option<InteractionResult>> {
    outcomes.map_values(|o: InteractionResult| Some(o))
}

/// The line shown before interaction `name` runs alone.
pub fn waiting_line(name: &str) -> (r: String)
    ensures
        r@ == icon_spec(None) + " "@ + name@,
{
    let head = join2(to_icon(&None), " ");
    join2(head.as_str(), name)
}

/// The line that overwrites the waiting glyph with the slot's glyph.
pub fn finished_line(slot: &Option<InteractionResult>) -> (r: String)
    ensures
        r@ == "\r"@ + icon_spec(*slot) + "\n"@,
{
    let head = join2("\r", to_icon(slot));
    join2(head.as_str(), "\n")
}

/// A run of many interactions, as a state machine that the caller drives:
/// it starts what `next_start` hands out, reports each outcome with
/// `report`, shows the texts the run gives, and stops when `is_done`.
///
/// A sequential run has one interaction in flight at a time and shows a
/// waiting line before each and its glyph after it; a concurrent run shows
/// a progress bar, one glyph per interaction in input order, redrawn after
/// each report.
pub struct Run {
    interactions: Vec<InteractionTest>,
    config: RunnerConfig,
    schedule: Schedule,
    sequential: bool,
}

impl Run {
    pub closed spec fn interactions_spec(&self) -> Seq<InteractionTest> {
        self.interactions@
    }

    pub closed spec fn config_spec(&self) -> RunnerConfig {
        self.config
    }

    pub closed spec fn schedule_spec(&self) -> Schedule {
        self.schedule
    }

    pub closed spec fn sequential_spec(&self) -> bool {
        self.sequential
    }

    /// The outcome slots, in input order.
    pub open spec fn slots(&self) -> Seq<Option<InteractionResult>> {
        self.schedule_spec().slots_spec()
    }

    pub open spec fn wf(&self) -> bool {
        &&& self.schedule_spec().wf()
        &&& self.slots().len() == self.interactions_spec().len()
        &&& self.schedule_spec().limit_spec() > 0
        &&& self.sequential_spec() ==> self.schedule_spec().limit_spec() == 1
    }

    /// Nothing but the schedule changed.
    pub open spec fn same_run(&self, other: &Run) -> bool {
        &&& other.interactions_spec() == self.interactions_spec()
        &&& other.config_spec() == self.config_spec()
        &&& other.sequential_spec() == self.sequential_spec()
        &&& other.schedule_spec().limit_spec() == self.schedule_spec().limit_spec()
    }

    /// Whether interaction `i` has been handed out and not reported yet.
    pub open spec fn in_flight(&self, i: int) -> bool {
        i < self.schedule_spec().next_spec() && self.slots()[i] is None
    }

    /// The text to show once the run is over.
    pub fn closing_text(&self) -> (r: String)
        ensures
            r@ == if self.sequential_spec() {
                Seq::<char>::empty()
            } else {
                "\n"@
            },
    {
        if self.sequential {
            String::new()
        } else {
            String::from_str("\n")
        }
    }

    /// The text to show before anything runs.
    pub fn opening_text(&self) -> (r: String)
        ensures
            r@ == if self.sequential_spec() {
                Seq::<char>::empty()
            } else {
                progress_spec(self.slots())
            },
    {
        if self.sequential {
            String::new()
        } else {
            self.schedule.progress_bar()
        }
    }

    /// Hands out the next interaction to start, in input order, while fewer
    /// than the limit are in flight.
    pub fn next_start(&mut self) -> (r: Option<usize>)
        requires
            old(self).wf(),
        ensures
            final(self).wf(),
            old(self).same_run(final(self)),
            final(self).slots() == old(self).slots(),
            if old(self).schedule_spec().running_spec() < old(self).schedule_spec().limit_spec()
                && old(self).schedule_spec().next_spec() < old(self).slots().len() {
                &&& r == Some(old(self).schedule_spec().next_spec() as usize)
                &&& final(self).schedule_spec().next_spec() == old(self).schedule_spec().next_spec() + 1
                &&& final(self).schedule_spec().running_spec()
                    == old(self).schedule_spec().running_spec() + 1
            } else {
                &&& r is None
                &&& final(self).schedule_spec().next_spec() == old(self).schedule_spec().next_spec()
                &&& final(self).schedule_spec().running_spec()
                    == old(self).schedule_spec().running_spec()
            },
    {
        self.schedule.next_start()
    }

    /// The interaction at `index`, to be run with `config`.
    pub fn interaction(&self, index: usize) -> (r: &InteractionTest)
        requires
            self.wf(),
            index < self.interactions_spec().len(),
        ensures
            *r == self.interactions_spec()[index as int],
    {
        &self.interactions[index]
    }

    /// The launch template every interaction runs with.
    pub fn config(&self) -> (r: &RunnerConfig)
        ensures
            *r == self.config_spec(),
    {
        &self.config
    }

    /// The text to show when interaction `index` starts.
    pub fn start_text(&self, index: usize) -> (r: String)
        requires
            self.wf(),
            index < self.interactions_spec().len(),
        ensures
            r@ == if self.sequential_spec() {
                icon_spec(None) + " "@ + self.interactions_spec()[index as int].name@
            } else {
                Seq::<char>::empty()
            },
    {
        if self.sequential {
            waiting_line(self.interactions[index].name.as_str())
        } else {
            String::new()
        }
    }

    /// Records the outcome of interaction `index`; only an interaction in
    /// flight is recorded.
    pub fn report(&mut self, index: usize, outcome: InteractionResult) -> (stored: bool)
        requires
            old(self).wf(),
        ensures
            final(self).wf(),
            old(self).same_run(final(self)),
            stored == old(self).in_flight(index as int),
            final(self).slots() == if stored {
                old(self).slots().update(index as int, Some(outcome))
            } else {
                old(self).slots()
            },
            final(self).schedule_spec().next_spec() == old(self).schedule_spec().next_spec(),
            final(self).schedule_spec().running_spec() == if stored {
                old(self).schedule_spec().running_spec() - 1
            } else {
                old(self).schedule_spec().running_spec() as int
            },
    {
        self.schedule.report(index, outcome)
    }

    /// The text to show after interaction `index` reported.
    pub fn report_text(&self, index: usize) -> (r: String)
        requires
            self.wf(),
            index < self.interactions_spec().len(),
        ensures
            r@ == if self.sequential_spec() {
                "\r"@ + icon_spec(self.slots()[index as int]) + "\n"@
            } else {
                "\r"@ + progress_spec(self.slots())
            },
    {
        if self.sequential {
            finished_line(self.schedule.slot(index))
        } else {
            join2("\r", self.schedule.progress_bar().as_str())
        }
    }

    /// How many interactions are in flight.
    pub fn running(&self) -> (r: u64)
        ensures
            r == self.schedule_spec().running_spec(),
    {
        self.schedule.running()
    }

    /// Whether every interaction has reported.
    pub fn is_done(&self) -> (r: bool)
        ensures
            r == forall|i: int| 0 <= i < self.slots().len() ==> (#[trigger] self.slots()[i]) is Some,
    {
        self.schedule.is_done()
    }

    /// The errors of the failed interactions, in input order.
    pub fn into_failures(self) -> (r: Vec<RunnerError>)
        ensures
            r@ == failures_spec(self.slots()),
    {
        self.schedule.into_failures()
    }
}

/// Prepares a run of every interaction: one at a time when `thread_count`
/// is 0, else with at most `thread_count` in flight at once. Nothing has
/// started yet; `Run::into_failures` gives the failures in input order once
/// the run is done.
pub fn run_interactions(interactions: Vec<InteractionTest>, config: RunnerConfig, thread_count: u64) -> (r:
    Run)
    ensures
        r.wf(),
        r.interactions_spec() == interactions@,
        r.config_spec() == config,
        r.sequential_spec() == (thread_count == 0),
        r.schedule_spec().limit_spec() == if thread_count == 0 {
            1
        } else {
            thread_count as nat
        },
        r.slots() == unstarted(interactions@.len()),
        r.schedule_spec().next_spec() == 0,
        r.schedule_spec().running_spec() == 0,
{
    let limit: u64 = if thread_count == 0 { 1 } else { thread_count };
    let schedule = Schedule::new(interactions.len(), limit);
    Run { interactions, config, schedule, sequential: thread_count == 0 }
}

} // verus!
