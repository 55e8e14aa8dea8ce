//! The assembler: a state machine that takes what a walk over the roots
//! observed, one event at a time, and answers each with what to do next.
//!
//! The caller walks the tree and reads the files; the assembler decides. It
//! asks for the content of every file that its walker yields, formats it,
//! commits the block if the budget takes it, and ends the walk once the budget
//! is used up. A file that does not fit is passed over and the walk goes on; a
//! failure to list a directory or to read a file ends the run with no output.

use vstd::prelude::*;
use vstd::string::*;

use crate::block::{block_of, format_block, lemma_block_text_units, BlockModel};
use crate::budget::{total, Budget, BudgetLedger};
use crate::error::{ContextError, ErrorModel};
use crate::policy::{admits, CandidateEntry, EntryModel};
use crate::text::{lemma_unit_len_concat, unit_len};
use crate::trim::trimmed;
use crate::walker::{lemma_consider_keeps_distinct, TreeWalker, WalkerModel};

verus! {

/// What the caller observed.
#[derive(Debug, PartialEq, Eq)]
pub enum Event {
    /// The walk came upon this entry.
    Entry(CandidateEntry),
    /// The file that was asked for has this raw content.
    Content(String),
    /// The directory at this path could not be listed.
    WalkFailed(String),
    /// The file that was asked for could not be read.
    ReadFailed,
    /// The file that was asked for does not hold valid UTF-8 text.
    BadEncoding,
}

/// An [`Event`] with its texts as character sequences.
pub enum EventModel {
    Entry(EntryModel),
    Content(Seq<char>),
    WalkFailed(Seq<char>),
    ReadFailed,
    BadEncoding,
}

impl View for Event {
    type V = EventModel;

    open spec fn view(&self) -> EventModel {
        match self {
            Event::Entry(entry) => EventModel::Entry(entry@),
            Event::Content(raw_content) => EventModel::Content(raw_content@),
            Event::WalkFailed(path) => EventModel::WalkFailed(path@),
            Event::ReadFailed => EventModel::ReadFailed,
            Event::BadEncoding => EventModel::BadEncoding,
        }
    }
}

/// What the caller is to do next.
#[derive(Debug, PartialEq, Eq)]
pub enum Action {
    /// Go on with the walk.
    Next,
    /// Read the file at this path and report its content, or that it could
    /// not be had.
    Read(String),
    /// The budget is used up: end the walk, over this root and all that
    /// follow.
    Stop,
    /// The run has failed: end it and hand nothing to the sink.
    Abort(ContextError),
}

/// An [`Action`] with its texts as character sequences.
pub enum ActionModel {
    Next,
    Read(Seq<char>),
    Stop,
    Abort(ErrorModel),
}

impl View for Action {
    type V = ActionModel;

    open spec fn view(&self) -> ActionModel {
        match self {
            Action::Next => ActionModel::Next,
            Action::Read(path) => ActionModel::Read(path@),
            Action::Stop => ActionModel::Stop,
            Action::Abort(error) => ActionModel::Abort(error@),
        }
    }
}

/// Where a run stands.
pub enum Phase {
    /// The walk is under way and no read is outstanding.
    Walking,
    /// The content of the file at this path was asked for.
    Reading(Seq<char>),
    /// The budget was used up and the walk is over.
    Stopped,
    /// The run has failed.
    Failed(ErrorModel),
}

/// The sizes of `blocks`, in order.
pub open spec fn sizes_of(blocks: Seq<BlockModel>) -> Seq<nat> {
    blocks.map_values(|block: BlockModel| block.size)
}

/// The texts of `blocks`, one after the other.
pub open spec fn joined(blocks: Seq<BlockModel>) -> Seq<char>
    decreases blocks.len(),
{
    if blocks.len() == 0 {
        Seq::empty()
    } else {
        joined(blocks.drop_last()) + blocks.last().text()
    }
}

/// The state of an assembler as plain values.
pub struct AssemblerModel {
    /// The budget and what was committed to it.
    pub budget: Budget,
    /// The walker: the exclude patterns and the paths it has yielded.
    pub walker: WalkerModel,
    /// The output so far.
    pub output: Seq<char>,
    /// The blocks that were accepted, in the order in which they came.
    pub blocks: Seq<BlockModel>,
    /// The paths of the files that did not fit, in the order in which they
    /// came.
    pub skipped: Seq<Seq<char>>,
    /// Where the run stands.
    pub phase: Phase,
}

impl AssemblerModel {
    /// The state before the first event.
    pub open spec fn initial(max_units: nat, excludes: Seq<Seq<char>>) -> AssemblerModel {
        AssemblerModel {
            budget: Budget::fresh(max_units),
            walker: WalkerModel::fresh(excludes),
            output: Seq::empty(),
            blocks: Seq::empty(),
            skipped: Seq::empty(),
            phase: Phase::Walking,
        }
    }

    /// The budget was never overdrawn, it was charged the sizes of the
    /// accepted blocks and nothing else, the output is those blocks and has
    /// as many units as were consumed, and no path was yielded twice.
    pub open spec fn consistent(self) -> bool {
        &&& self.budget.wf()
        &&& self.budget.committed == sizes_of(self.blocks)
        &&& self.output == joined(self.blocks)
        &&& unit_len(self.output) == self.budget.consumed_units
        &&& self.walker.wf()
    }

    /// The run fails with `error`.
    pub open spec fn fail(self, error: ErrorModel) -> (AssemblerModel, ActionModel) {
        (AssemblerModel { phase: Phase::Failed(error), ..self }, ActionModel::Abort(error))
    }

    /// A file was read and formatted. Its block is appended if the budget
    /// takes it; else the path of the file is noted. Then the walk goes on,
    /// unless the budget is now used up.
    pub open spec fn take_block(self, path: Seq<char>, block: BlockModel) -> (
        AssemblerModel,
        ActionModel,
    ) {
        let taken = if self.budget.fits(block.size) {
            AssemblerModel {
                budget: self.budget.offer(block.size),
                output: self.output + block.text(),
                blocks: self.blocks.push(block),
                ..self
            }
        } else {
            AssemblerModel { skipped: self.skipped.push(path), ..self }
        };
        if taken.budget.exhausted() {
            (AssemblerModel { phase: Phase::Stopped, ..taken }, ActionModel::Stop)
        } else {
            (AssemblerModel { phase: Phase::Walking, ..taken }, ActionModel::Next)
        }
    }

    /// The file at `path` was read: its content is formatted and the block is
    /// taken.
    pub open spec fn take_content(self, path: Seq<char>, raw_content: Seq<char>) -> (
        AssemblerModel,
        ActionModel,
    ) {
        self.take_block(path, block_of(path, raw_content))
    }

    /// The state after `event`, and the answer to it.
    ///
    /// A run that has stopped or failed stays as it is. While a read is
    /// outstanding, only its result is expected: an entry that comes instead
    /// means that the file was dropped, and the run fails on that file.
    pub open spec fn step(self, event: EventModel) -> (AssemblerModel, ActionModel) {
        match self.phase {
            Phase::Stopped => (self, ActionModel::Stop),
            Phase::Failed(error) => (self, ActionModel::Abort(error)),
            Phase::Walking => match event {
                EventModel::Entry(entry) => if self.walker.yields(entry) {
                    (
                        AssemblerModel {
                            phase: Phase::Reading(entry.path),
                            walker: self.walker.consider(entry),
                            ..self
                        },
                        ActionModel::Read(entry.path),
                    )
                } else {
                    (self, ActionModel::Next)
                },
                EventModel::WalkFailed(path) => self.fail(ErrorModel::DirectoryUnreadable(path)),
                _ => (self, ActionModel::Next),
            },
            Phase::Reading(path) => match event {
                EventModel::Content(raw_content) => self.take_content(path, raw_content),
                EventModel::ReadFailed => self.fail(ErrorModel::FileUnreadable(path)),
                EventModel::BadEncoding => self.fail(ErrorModel::InvalidEncoding(path)),
                EventModel::WalkFailed(dir) => self.fail(ErrorModel::DirectoryUnreadable(dir)),
                EventModel::Entry(_) => self.fail(ErrorModel::FileUnreadable(path)),
            },
        }
    }

    /// The state after all of `events`, taken in order.
    pub open spec fn run(self, events: Seq<EventModel>) -> AssemblerModel
        decreases events.len(),
    {
        if events.len() == 0 {
            self
        } else {
            self.run(events.drop_last()).step(events.last()).0
        }
    }

    /// What the run hands over when it ends here: the output, or the reason
    /// why there is none. A read that is still outstanding counts as failed.
    pub open spec fn outcome(self) -> Result<Seq<char>, ErrorModel> {
        match self.phase {
            Phase::Walking => Ok(self.output),
            Phase::Stopped => Ok(self.output),
            Phase::Reading(path) => Err(ErrorModel::FileUnreadable(path)),
            Phase::Failed(error) => Err(error),
        }
    }
}

/// The events as plain values.
pub open spec fn event_models(events: Seq<Event>) -> Seq<EventModel> {
    events.map_values(|event: Event| event@)
}

enum Stage {
    Walking,
    Reading(String),
    Stopped,
    Failed(ContextError),
}

impl View for Stage {
    type V = Phase;

    closed spec fn view(&self) -> Phase {
        match self {
            Stage::Walking => Phase::Walking,
            Stage::Reading(path) => Phase::Reading(path@),
            Stage::Stopped => Phase::Stopped,
            Stage::Failed(error) => Phase::Failed(error@),
        }
    }
}

/// Assembles the snapshot of one run. It owns the budget and the output.
pub struct ContextAssembler {
    ledger: BudgetLedger,
    walker: TreeWalker,
    output: String,
    skipped: Vec<String>,
    stage: Stage,
    blocks: Ghost<Seq<BlockModel>>,
}

impl View for ContextAssembler {
    type V = AssemblerModel;

    closed spec fn view(&self) -> AssemblerModel {
        AssemblerModel {
            budget: self.ledger@,
            walker: self.walker@,
            output: self.output@,
            blocks: self.blocks@,
            skipped: self.skipped.deep_view(),
            phase: self.stage@,
        }
    }
}

impl ContextAssembler {
    /// An assembler for a run with a budget of `max_units` and these exclude
    /// patterns.
    pub fn new(max_units: u64, excludes: Vec<String>) -> (assembler: ContextAssembler)
        ensures
            assembler@ == AssemblerModel::initial(max_units as nat, excludes.deep_view()),
            assembler@.consistent(),
    {
        proof {
            lemma_initial_consistent(max_units as nat, excludes.deep_view());
        }
        let assembler = ContextAssembler {
            ledger: BudgetLedger::new(max_units),
            walker: TreeWalker::new(excludes),
            output: String::new(),
            skipped: Vec::new(),
            stage: Stage::Walking,
            blocks: Ghost(Seq::empty()),
        };
        assert(assembler.skipped.deep_view() =~= Seq::<Seq<char>>::empty());
        assembler
    }

    /// Whether the budget is used up.
    pub fn is_exhausted(&self) -> (yes: bool)
        ensures
            yes == self@.budget.exhausted(),
    {
        self.ledger.is_exhausted()
    }

    /// The budget units committed so far.
    pub fn consumed_units(&self) -> (units: u64)
        ensures
            units == self@.budget.consumed_units,
            self@.budget.wf(),
    {
        self.ledger.consumed_units()
    }

    /// The paths of the files that were passed over because they did not fit.
    pub fn skipped(&self) -> (paths: &Vec<String>)
        ensures
            paths.deep_view() == self@.skipped,
    {
        &self.skipped
    }

    fn fail(&mut self, error: ContextError) -> (action: Action)
        ensures
            (final(self)@, action@) == old(self)@.fail(error@),
    {
        let action = Action::Abort(error.duplicate());
        self.stage = Stage::Failed(error);
        action
    }

    fn take_content(&mut self, path: String, raw_content: &str) -> (action: Action)
        ensures
            (final(self)@, action@) == old(self)@.take_content(path@, raw_content@),
    {
        proof {
            self.ledger.lemma_fits_u64();
        }
        let accepted = match format_block(path.as_str(), raw_content) {
            Some(block) => {
                if self.ledger.try_commit(block.size) {
                    block.append_to(&mut self.output);
                    self.blocks = Ghost(self.blocks@.push(block@));
                    true
                } else {
                    false
                }
            },
            None => false,
        };
        if !accepted {
            let ghost before = self.skipped.deep_view();
            self.skipped.push(path);
            assert(self.skipped.deep_view() =~= before.push(path@));
        }
        if self.ledger.is_exhausted() {
            self.stage = Stage::Stopped;
            Action::Stop
        } else {
            self.stage = Stage::Walking;
            Action::Next
        }
    }

    /// Takes one event and says what to do next.
    pub fn step(&mut self, event: &Event) -> (action: Action)
        ensures
            (final(self)@, action@) == old(self)@.step(event@),
            old(self)@.consistent() ==> final(self)@.consistent(),
    {
        proof {
            if self@.consistent() {
                lemma_step_keeps_consistent(self@, event@);
            }
        }
        match &self.stage {
            Stage::Stopped => Action::Stop,
            Stage::Failed(error) => Action::Abort(error.duplicate()),
            Stage::Walking => match event {
                Event::Entry(entry) => {
                    if self.walker.consider(entry) {
                        self.stage = Stage::Reading(entry.path.clone());
                        Action::Read(entry.path.clone())
                    } else {
                        Action::Next
                    }
                },
                Event::WalkFailed(path) => self.fail(
                    ContextError::DirectoryUnreadable(path.clone()),
                ),
                _ => Action::Next,
            },
            Stage::Reading(path) => {
                let path = path.clone();
                match event {
                    Event::Content(raw_content) => self.take_content(path, raw_content.as_str()),
                    Event::ReadFailed => self.fail(ContextError::FileUnreadable(path)),
                    Event::BadEncoding => self.fail(ContextError::InvalidEncoding(path)),
                    Event::WalkFailed(dir) => self.fail(
                        ContextError::DirectoryUnreadable(dir.clone()),
                    ),
                    Event::Entry(_) => self.fail(ContextError::FileUnreadable(path)),
                }
            },
        }
    }

    /// Takes `events` in order, as a caller would hand them over one by one.
    pub fn run(&mut self, events: &[Event])
        ensures
            final(self)@ == old(self)@.run(event_models(events@)),
            old(self)@.consistent() ==> final(self)@.consistent(),
    {
        proof {
            if self@.consistent() {
                lemma_run_keeps_consistent(self@, event_models(events@));
            }
        }
        let ghost all = event_models(events@);
        let mut i: usize = 0;
        assert(all.take(0) =~= Seq::<EventModel>::empty());
        while i < events.len()
            invariant
                i <= events.len(),
                all == event_models(events@),
                self@ == old(self)@.run(all.take(i as int)),
            decreases events.len() - i,
        {
            let _ = self.step(&events[i]);
            proof {
                assert(all.take(i + 1).drop_last() =~= all.take(i as int));
                assert(all.take(i + 1).last() == events@[i as int]@);
            }
            i = i + 1;
        }
        assert(all.take(events@.len() as int) =~= all);
    }

    /// Ends the run and hands over the output, or the reason why there is
    /// none. A run that failed hands over no output; the output of a run that
    /// did not fail is within the budget.
    pub fn finish(self) -> (result: Result<String, ContextError>)
        ensures
            match self@.outcome() {
                Ok(output) => result is Ok && result->Ok_0@ == output,
                Err(error) => result is Err && result->Err_0@ == error,
            },
            self@.consistent() && result is Ok ==> unit_len(result->Ok_0@)
                <= self@.budget.max_units,
    {
        match self.stage {
            Stage::Walking => Ok(self.output),
            Stage::Stopped => Ok(self.output),
            Stage::Reading(path) => Err(ContextError::FileUnreadable(path)),
            Stage::Failed(error) => Err(error),
        }
    }
}

/// Assembles the snapshot of a walk that was observed before: a run with a
/// budget of `max_units` and these exclude patterns that takes `events` in
/// order and then ends. The output is never longer than the budget.
pub fn assemble(max_units: u64, excludes: Vec<String>, events: &[Event]) -> (result: Result<
    String,
    ContextError,
>)
    ensures
        match AssemblerModel::initial(max_units as nat, excludes.deep_view()).run(
            event_models(events@),
        ).outcome() {
            Ok(output) => result is Ok && result->Ok_0@ == output,
            Err(error) => result is Err && result->Err_0@ == error,
        },
        result is Ok ==> unit_len(result->Ok_0@) <= max_units,
{
    let mut assembler = ContextAssembler::new(max_units, excludes);
    assembler.run(events);
    proof {
        lemma_output_within_budget(
            max_units as nat,
            excludes.deep_view(),
            event_models(events@),
        );
    }
    assembler.finish()
}

/// The state before the first event is consistent.
pub proof fn lemma_initial_consistent(max_units: nat, excludes: Seq<Seq<char>>)
    ensures
        AssemblerModel::initial(max_units, excludes).consistent(),
{
    assert(sizes_of(Seq::<BlockModel>::empty()) =~= Seq::<nat>::empty());
}

/// Taking a block keeps a consistent state consistent, and changes neither the
/// ceiling nor the exclude patterns.
pub proof fn lemma_take_block_keeps_consistent(
    state: AssemblerModel,
    path: Seq<char>,
    block: BlockModel,
)
    requires
        state.consistent(),
        unit_len(block.text()) == block.size,
    ensures
        state.take_block(path, block).0.consistent(),
        state.take_block(path, block).0.budget.max_units == state.budget.max_units,
        state.take_block(path, block).0.walker == state.walker,
{
    if state.budget.fits(block.size) {
        let blocks = state.blocks.push(block);
        assert(blocks.drop_last() =~= state.blocks);
        assert(sizes_of(blocks) =~= sizes_of(state.blocks).push(block.size));
        assert(state.budget.committed.push(block.size).drop_last() =~= state.budget.committed);
        lemma_unit_len_concat(state.output, block.text());
    }
}

/// A step keeps a consistent state consistent, and changes neither the ceiling
/// nor the exclude patterns.
pub proof fn lemma_step_keeps_consistent(state: AssemblerModel, event: EventModel)
    requires
        state.consistent(),
    ensures
        state.step(event).0.consistent(),
        state.step(event).0.budget.max_units == state.budget.max_units,
        state.step(event).0.walker.excludes == state.walker.excludes,
{
    if let Phase::Reading(path) = state.phase {
        if let EventModel::Content(raw_content) = event {
            lemma_block_text_units(path, trimmed(raw_content));
            lemma_take_block_keeps_consistent(state, path, block_of(path, raw_content));
        }
    }
    if let Phase::Walking = state.phase {
        if let EventModel::Entry(entry) = event {
            lemma_consider_keeps_distinct(state.walker, entry);
        }
    }
}

/// A run keeps a consistent state consistent, and changes neither the ceiling
/// nor the exclude patterns.
pub proof fn lemma_run_keeps_consistent(state: AssemblerModel, events: Seq<EventModel>)
    requires
        state.consistent(),
    ensures
        state.run(events).consistent(),
        state.run(events).budget.max_units == state.budget.max_units,
        state.run(events).walker.excludes == state.walker.excludes,
    decreases events.len(),
{
    if events.len() > 0 {
        lemma_run_keeps_consistent(state, events.drop_last());
        lemma_step_keeps_consistent(state.run(events.drop_last()), events.last());
    }
}

/// The budget is never exceeded: whatever a run observes, the sizes of the
/// blocks it has accepted, summed up to any point, stay within the ceiling.
pub proof fn lemma_budget_never_exceeded(
    max_units: nat,
    excludes: Seq<Seq<char>>,
    events: Seq<EventModel>,
    k: int,
)
    requires
        0 <= k <= AssemblerModel::initial(max_units, excludes).run(events).blocks.len(),
    ensures
        total(sizes_of(AssemblerModel::initial(max_units, excludes).run(events).blocks.take(k)))
            <= max_units,
{
    let start = AssemblerModel::initial(max_units, excludes);
    let end = start.run(events);
    lemma_initial_consistent(max_units, excludes);
    lemma_run_keeps_consistent(start, events);
    assert(sizes_of(end.blocks.take(k)) =~= end.budget.committed.take(k));
    crate::budget::lemma_running_sum_within_ceiling(end.budget, k);
}

/// The output of a run never outgrows the budget: it has as many units as
/// were consumed, and those are within the ceiling.
pub proof fn lemma_output_within_budget(
    max_units: nat,
    excludes: Seq<Seq<char>>,
    events: Seq<EventModel>,
)
    ensures
        ({
            let end = AssemblerModel::initial(max_units, excludes).run(events);
            &&& unit_len(end.output) == end.budget.consumed_units
            &&& unit_len(end.output) <= max_units
        }),
{
    lemma_initial_consistent(max_units, excludes);
    lemma_run_keeps_consistent(AssemblerModel::initial(max_units, excludes), events);
}

/// A run is determined by what it is given: the same budget, the same exclude
/// patterns and the same observations give the same state, and so the same
/// output or the same failure.
pub proof fn lemma_run_deterministic(
    max_units: nat,
    excludes: Seq<Seq<char>>,
    events: Seq<EventModel>,
    other_max_units: nat,
    other_excludes: Seq<Seq<char>>,
    other_events: Seq<EventModel>,
)
    requires
        max_units == other_max_units,
        excludes == other_excludes,
        events == other_events,
    ensures
        AssemblerModel::initial(max_units, excludes).run(events) == AssemblerModel::initial(
            other_max_units,
            other_excludes,
        ).run(other_events),
        AssemblerModel::initial(max_units, excludes).run(events).outcome()
            == AssemblerModel::initial(other_max_units, other_excludes).run(
            other_events,
        ).outcome(),
{
}

/// Every block costs more than nothing, so none fits an exhausted budget.
pub proof fn lemma_exhausted_step_appends_nothing(state: AssemblerModel, event: EventModel)
    requires
        state.budget.exhausted(),
    ensures
        state.step(event).0.output == state.output,
        state.step(event).0.blocks == state.blocks,
        state.step(event).0.budget == state.budget,
{
}

/// Once the budget is exhausted, no file is appended any more, whatever the
/// rest of the walk brings and from whichever root.
pub proof fn lemma_exhausted_run_appends_nothing(state: AssemblerModel, events: Seq<EventModel>)
    requires
        state.budget.exhausted(),
    ensures
        state.run(events).output == state.output,
        state.run(events).blocks == state.blocks,
        state.run(events).budget == state.budget,
    decreases events.len(),
{
    if events.len() > 0 {
        lemma_exhausted_run_appends_nothing(state, events.drop_last());
        lemma_exhausted_step_appends_nothing(state.run(events.drop_last()), events.last());
    }
}

/// After a file was dealt with, the walk is stopped if the budget is then
/// exhausted, and goes on if it is not; the answer says which.
pub proof fn lemma_stop_means_exhausted(state: AssemblerModel, path: Seq<char>, block: BlockModel)
    ensures
        ({
            let (after, answer) = state.take_block(path, block);
            if after.budget.exhausted() {
                after.phase == Phase::Stopped && answer == ActionModel::Stop
            } else {
                after.phase == Phase::Walking && answer == ActionModel::Next
            }
        }),
{
}

/// A file that does not fit is no reason to stop: its path is noted, nothing
/// is appended or charged, and the walk goes on unless the budget was used up
/// before.
pub proof fn lemma_oversized_file_is_passed_over(
    state: AssemblerModel,
    path: Seq<char>,
    block: BlockModel,
)
    requires
        !state.budget.fits(block.size),
    ensures
        ({
            let (after, answer) = state.take_block(path, block);
            &&& after.output == state.output
            &&& after.blocks == state.blocks
            &&& after.budget == state.budget
            &&& after.skipped == state.skipped.push(path)
            &&& !state.budget.exhausted() ==> answer == ActionModel::Next
        }),
{
}

/// No file is read twice: the content of a path that was yielded before is
/// not asked for again.
pub proof fn lemma_path_read_once(state: AssemblerModel, entry: EntryModel)
    requires
        state.walker.yielded.contains(entry.path),
    ensures
        !(state.step(EventModel::Entry(entry)).1 is Read),
        state.phase is Walking ==> state.step(EventModel::Entry(entry)) == (
            state,
            ActionModel::Next,
        ),
{
}

/// An entry that the ignore policy leaves out is never read, and changes
/// nothing while the walk is under way.
pub proof fn lemma_skipped_entry_never_read(state: AssemblerModel, entry: EntryModel)
    requires
        !admits(entry, state.walker.excludes),
    ensures
        !(state.step(EventModel::Entry(entry)).1 is Read),
        state.phase is Walking ==> state.step(EventModel::Entry(entry)) == (
            state,
            ActionModel::Next,
        ),
{
}

/// A run that has stopped or failed takes no further event into account. So a
/// run that has failed hands over no output, whatever was appended before.
pub proof fn lemma_ended_run_is_final(state: AssemblerModel, events: Seq<EventModel>)
    requires
        state.phase is Stopped || state.phase is Failed,
    ensures
        state.run(events) == state,
        state.phase is Failed ==> state.run(events).outcome() is Err,
    decreases events.len(),
{
    if events.len() > 0 {
        lemma_ended_run_is_final(state, events.drop_last());
    }
}

/// What was appended stays: the output only ever grows at its end.
pub proof fn lemma_output_only_grows(state: AssemblerModel, events: Seq<EventModel>)
    ensures
        state.output.is_prefix_of(state.run(events).output),
        state.blocks.is_prefix_of(state.run(events).blocks),
    decreases events.len(),
{
    if events.len() > 0 {
        lemma_output_only_grows(state, events.drop_last());
        let before = state.run(events.drop_last());
        let after = before.step(events.last()).0;
        assert(before.output.is_prefix_of(after.output));
        assert(before.blocks.is_prefix_of(after.blocks));
    }
}

} // verus!
