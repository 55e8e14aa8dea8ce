//! Which entries of a tree are left out of the snapshot.
//!
//! The decision reads an entry's base name and path and the exclude patterns
//! of the run, and nothing else.

use vstd::prelude::*;
use vstd::string::*;

use crate::text::{
    chars_contain, chars_end_with, chars_equal, chars_start_with, has_substring, to_chars,
};

verus! {

/// What kind of entry a path leads to.
#[derive(Clone, Copy, Debug, PartialEq, Eq, Structural)]
pub enum EntryKind {
    /// A regular file.
    File,
    /// A directory.
    Directory,
    /// Anything else: it is neither read nor opened.
    Other,
}

/// An entry that a walk came upon.
///
/// `name` is the base name of `path`. It is empty where the path has no base
/// name or the name is no valid text; no rule on names then applies but that
/// of an empty exclude pattern.
#[derive(Debug, PartialEq, Eq)]
pub struct CandidateEntry {
    /// The path as the walk gives it.
    pub path: String,
    /// The base name of the path.
    pub name: String,
    /// What the path leads to.
    pub kind: EntryKind,
}

/// A [`CandidateEntry`] with its texts as character sequences.
pub struct EntryModel {
    pub path: Seq<char>,
    pub name: Seq<char>,
    pub kind: EntryKind,
}

impl View for CandidateEntry {
    type V = EntryModel;

    open spec fn view(&self) -> EntryModel {
        EntryModel { path: self.path@, name: self.name@, kind: self.kind }
    }
}

/// One of the exclude patterns occurs in `name`.
pub open spec fn excluded_by_pattern(name: Seq<char>, excludes: Seq<Seq<char>>) -> bool {
    exists|i: int| 0 <= i < excludes.len() && has_substring(name, #[trigger] excludes[i])
}

/// One of the exclusions that hold in every run applies: a name that begins
/// with a dot, a name that ends in `.lock`, the licence file, a path that
/// holds `node_modules`, the lock file of a package manager.
pub open spec fn excluded_by_fixed_rule(name: Seq<char>, path: Seq<char>) -> bool {
    ||| "."@.is_prefix_of(name)
    ||| ".lock"@.is_suffix_of(name)
    ||| name == "LICENSE"@
    ||| has_substring(path, "node_modules"@)
    ||| name == "package-lock.json"@
}

/// The entry is left out: an exclude pattern or a fixed rule applies to it.
pub open spec fn skips(entry: EntryModel, excludes: Seq<Seq<char>>) -> bool {
    excluded_by_pattern(entry.name, excludes) || excluded_by_fixed_rule(entry.name, entry.path)
}

/// The entry is a directory that is left out, so a walk does not open it.
pub open spec fn prunes(entry: EntryModel, excludes: Seq<Seq<char>>) -> bool {
    entry.kind == EntryKind::Directory && skips(entry, excludes)
}

/// The entry is a file that is not left out, so its content is wanted.
pub open spec fn admits(entry: EntryModel, excludes: Seq<Seq<char>>) -> bool {
    entry.kind == EntryKind::File && !skips(entry, excludes)
}

/// Whether `entry` is left out of the snapshot.
pub fn should_skip(entry: &CandidateEntry, excludes: &[String]) -> (skip: bool)
    ensures
        skip == skips(entry@, excludes.deep_view()),
{
    let name = to_chars(entry.name.as_str());
    let ghost patterns = excludes.deep_view();
    let mut i: usize = 0;
    while i < excludes.len()
        invariant
            i <= excludes.len(),
            name@ == entry@.name,
            patterns == excludes.deep_view(),
            forall|k: int| 0 <= k < i ==> !has_substring(name@, #[trigger] patterns[k]),
        decreases excludes.len() - i,
    {
        let pattern = to_chars(excludes[i].as_str());
        assert(patterns[i as int] == pattern@);
        if chars_contain(&name, &pattern) {
            assert(has_substring(entry@.name, patterns[i as int]));
            return true;
        }
        i = i + 1;
    }
    assert(!excluded_by_pattern(name@, patterns));
    if chars_start_with(&name, &to_chars(".")) {
        return true;
    }
    if chars_end_with(&name, &to_chars(".lock")) {
        return true;
    }
    if chars_equal(&name, &to_chars("LICENSE")) {
        return true;
    }
    if chars_contain(&to_chars(entry.path.as_str()), &to_chars("node_modules")) {
        return true;
    }
    chars_equal(&name, &to_chars("package-lock.json"))
}

/// Whether a walk leaves the subtree under `entry` unopened.
pub fn should_prune(entry: &CandidateEntry, excludes: &[String]) -> (prune: bool)
    ensures
        prune == prunes(entry@, excludes.deep_view()),
{
    match entry.kind {
        EntryKind::Directory => should_skip(entry, excludes),
        _ => false,
    }
}

/// Whether `entry` is a file whose content belongs in the snapshot.
pub fn is_candidate(entry: &CandidateEntry, excludes: &[String]) -> (wanted: bool)
    ensures
        wanted == admits(entry@, excludes.deep_view()),
{
    match entry.kind {
        EntryKind::File => !should_skip(entry, excludes),
        _ => false,
    }
}

/// An entry whose name begins with a dot or ends in `.lock` is left out,
/// whatever the exclude patterns are.
pub proof fn lemma_hidden_and_lock_names_skipped(entry: EntryModel, excludes: Seq<Seq<char>>)
    requires
        seq!['.'].is_prefix_of(entry.name) || seq!['.', 'l', 'o', 'c', 'k'].is_suffix_of(
            entry.name,
        ),
    ensures
        skips(entry, excludes),
{
    reveal_strlit(".");
    reveal_strlit(".lock");
    assert("."@ =~= seq!['.']);
    assert(".lock"@ =~= seq!['.', 'l', 'o', 'c', 'k']);
}

/// An entry whose name holds one of the exclude patterns is left out, whatever
/// the fixed rules say of it.
pub proof fn lemma_pattern_match_skipped(entry: EntryModel, excludes: Seq<Seq<char>>, i: int)
    requires
        0 <= i < excludes.len(),
        has_substring(entry.name, excludes[i]),
    ensures
        skips(entry, excludes),
{
}

/// The decision depends on the name, the path and the patterns alone: the kind
/// of the entry plays no part in it.
pub proof fn lemma_skip_ignores_kind(a: EntryModel, b: EntryModel, excludes: Seq<Seq<char>>)
    requires
        a.name == b.name,
        a.path == b.path,
    ensures
        skips(a, excludes) == skips(b, excludes),
{
}

} // verus!
