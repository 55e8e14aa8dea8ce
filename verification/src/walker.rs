//! The deciding side of a tree walk.
//!
//! A caller lists the directories and hands over each entry it comes upon. The
//! walker says which subtrees to leave unopened and which files to yield: the
//! files that the ignore policy lets through, each path once.

use vstd::prelude::*;
use vstd::string::*;

use crate::policy::{admits, is_candidate, prunes, should_prune, CandidateEntry, EntryModel};
use crate::text::holds_text;

verus! {

/// The state of a walker as plain values.
pub struct WalkerModel {
    /// The exclude patterns of the run.
    pub excludes: Seq<Seq<char>>,
    /// The paths that were yielded, in the order in which they came.
    pub yielded: Seq<Seq<char>>,
}

impl WalkerModel {
    /// A walker that has yielded nothing yet.
    pub open spec fn fresh(excludes: Seq<Seq<char>>) -> WalkerModel {
        WalkerModel { excludes, yielded: Seq::empty() }
    }

    /// No path was yielded twice.
    pub open spec fn wf(self) -> bool {
        self.yielded.no_duplicates()
    }

    /// The entry is yielded: it is a file that the ignore policy lets through,
    /// and its path was not yielded before.
    pub open spec fn yields(self, entry: EntryModel) -> bool {
        admits(entry, self.excludes) && !self.yielded.contains(entry.path)
    }

    /// The walker after it was shown `entry`.
    pub open spec fn consider(self, entry: EntryModel) -> WalkerModel {
        if self.yields(entry) {
            WalkerModel { yielded: self.yielded.push(entry.path), ..self }
        } else {
            self
        }
    }

    /// The walker after it was shown all of `entries`, in order.
    pub open spec fn consider_all(self, entries: Seq<EntryModel>) -> WalkerModel
        decreases entries.len(),
    {
        if entries.len() == 0 {
            self
        } else {
            self.consider_all(entries.drop_last()).consider(entries.last())
        }
    }
}

/// Decides, entry by entry, what a walk yields.
pub struct TreeWalker {
    excludes: Vec<String>,
    yielded: Vec<String>,
}

impl View for TreeWalker {
    type V = WalkerModel;

    closed spec fn view(&self) -> WalkerModel {
        WalkerModel { excludes: self.excludes.deep_view(), yielded: self.yielded.deep_view() }
    }
}

impl TreeWalker {
    /// A walker for a run with these exclude patterns.
    pub fn new(excludes: Vec<String>) -> (walker: TreeWalker)
        ensures
            walker@ == WalkerModel::fresh(excludes.deep_view()),
            walker@.wf(),
    {
        let walker = TreeWalker { excludes, yielded: Vec::new() };
        assert(walker.yielded.deep_view() =~= Seq::<Seq<char>>::empty());
        walker
    }

    /// Whether the subtree under `entry` is left unopened.
    pub fn prunes(&self, entry: &CandidateEntry) -> (prune: bool)
        ensures
            prune == prunes(entry@, self@.excludes),
    {
        should_prune(entry, self.excludes.as_slice())
    }

    /// Shows the walker an entry, and says whether it is yielded. An entry
    /// that is yielded is remembered by its path.
    pub fn consider(&mut self, entry: &CandidateEntry) -> (yielded: bool)
        ensures
            yielded == old(self)@.yields(entry@),
            final(self)@ == old(self)@.consider(entry@),
            old(self)@.wf() ==> final(self)@.wf(),
    {
        proof {
            if self@.wf() {
                lemma_consider_keeps_distinct(self@, entry@);
            }
        }
        if is_candidate(entry, self.excludes.as_slice()) && !holds_text(
            &self.yielded,
            &entry.path,
        ) {
            let ghost before = self.yielded.deep_view();
            self.yielded.push(entry.path.clone());
            assert(self.yielded.deep_view() =~= before.push(entry.path@));
            true
        } else {
            false
        }
    }

    /// The paths that were yielded so far, in the order in which they came.
    pub fn yielded(&self) -> (paths: &Vec<String>)
        ensures
            paths.deep_view() == self@.yielded,
    {
        &self.yielded
    }
}

/// Showing a walker an entry leaves it with no path yielded twice.
pub proof fn lemma_consider_keeps_distinct(walker: WalkerModel, entry: EntryModel)
    requires
        walker.wf(),
    ensures
        walker.consider(entry).wf(),
        walker.consider(entry).excludes == walker.excludes,
        walker.yielded.is_prefix_of(walker.consider(entry).yielded),
{
    if walker.yields(entry) {
        let yielded = walker.yielded.push(entry.path);
        assert forall|i: int, j: int|
            0 <= i < yielded.len() && 0 <= j < yielded.len() && i != j implies yielded[i]
            != yielded[j] by {
            if i < walker.yielded.len() {
                assert(walker.yielded.contains(walker.yielded[i]));
            }
            if j < walker.yielded.len() {
                assert(walker.yielded.contains(walker.yielded[j]));
            }
        }
    }
}

/// Whatever a walk comes upon, a walker that began with nothing yielded has no
/// path yielded twice.
pub proof fn lemma_walk_yields_each_path_once(excludes: Seq<Seq<char>>, entries: Seq<EntryModel>)
    ensures
        WalkerModel::fresh(excludes).consider_all(entries).wf(),
        WalkerModel::fresh(excludes).consider_all(entries).excludes == excludes,
    decreases entries.len(),
{
    if entries.len() > 0 {
        lemma_walk_yields_each_path_once(excludes, entries.drop_last());
        lemma_consider_keeps_distinct(
            WalkerModel::fresh(excludes).consider_all(entries.drop_last()),
            entries.last(),
        );
    }
}

/// The same path is never yielded twice: once a walker was shown an entry that
/// it yielded, or had yielded before, it yields no entry of that path again.
pub proof fn lemma_never_yields_twice(walker: WalkerModel, first: EntryModel, second: EntryModel)
    requires
        first.path == second.path,
        walker.yields(first) || walker.yielded.contains(first.path),
    ensures
        !walker.consider(first).yields(second),
{
    if walker.yields(first) {
        let yielded = walker.yielded.push(first.path);
        assert(yielded[yielded.len() - 1] == second.path);
    }
}

/// Only files that the ignore policy lets through are yielded, whatever was
/// yielded before.
pub proof fn lemma_yields_only_admitted(walker: WalkerModel, entry: EntryModel)
    requires
        walker.yields(entry),
    ensures
        admits(entry, walker.excludes),
        !prunes(entry, walker.excludes),
{
}

} // verus!
