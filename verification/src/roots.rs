//! Which roots a run walks when the caller names none.

use vstd::prelude::*;
use vstd::string::*;

verus! {

/// The root that stands in where none is given and none was found: the
/// current directory.
pub open spec fn fallback_root() -> Seq<char> {
    "."@
}

/// A default root is looked for: no root is given, and no section of command
/// output was asked for. A run that is to carry command output and names no
/// root carries that output alone.
pub open spec fn wants_default(roots: Seq<Seq<char>>, sections_wanted: bool) -> bool {
    roots.len() == 0 && !sections_wanted
}

/// The roots of the run: those given, in their order; where none is given, the
/// root that was found; where none was found either, the fallback.
pub open spec fn resolved_roots(roots: Seq<Seq<char>>, found: Option<Seq<char>>) -> Seq<
    Seq<char>,
> {
    if roots.len() > 0 {
        roots
    } else {
        match found {
            Some(root) => seq![root],
            None => seq![fallback_root()],
        }
    }
}

/// The text of `found`, if there is one.
pub open spec fn found_text(found: Option<String>) -> Option<Seq<char>> {
    match found {
        Some(root) => Some(root@),
        None => None,
    }
}

/// Whether a default root is to be looked for.
pub fn needs_default_root(roots: &Vec<String>, sections_wanted: bool) -> (needed: bool)
    ensures
        needed == wants_default(roots.deep_view(), sections_wanted),
{
    roots.len() == 0 && !sections_wanted
}

/// The roots to walk. A run with no root given and none found still gets one.
pub fn resolve_roots(roots: Vec<String>, found: Option<String>) -> (resolved: Vec<String>)
    ensures
        resolved.deep_view() == resolved_roots(roots.deep_view(), found_text(found)),
        resolved.len() > 0,
{
    if roots.len() > 0 {
        return roots;
    }
    let root = match found {
        Some(root) => root,
        None => String::from_str("."),
    };
    let mut resolved: Vec<String> = Vec::new();
    resolved.push(root);
    assert(resolved.deep_view() =~= seq![root@]);
    resolved
}

/// Whatever was found, and also where nothing was, a run has a root to walk,
/// and the same inputs give the same roots.
pub proof fn lemma_roots_never_empty(roots: Seq<Seq<char>>, found: Option<Seq<char>>)
    ensures
        resolved_roots(roots, found).len() > 0,
        roots.len() == 0 && found is None ==> resolved_roots(roots, found) == seq![
            fallback_root(),
        ],
{
}

} // verus!
