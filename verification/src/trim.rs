//! Trimming: a text without the whitespace at its two ends.
//!
//! Which characters are whitespace is the standard library's answer. The rest
//! is a computation on those answers: where the leading run of whitespace
//! ends and where the trailing run begins.

use vstd::prelude::*;
use vstd::string::*;

verus! {

/// Whether a character counts as whitespace: what [`char::is_whitespace`]
/// answers for it. Nothing more is known of it here.
pub uninterp spec fn is_white_space(c: char) -> bool;

/// Calls [`char::is_whitespace`], which tells whether `c` has the Unicode
/// property `White_Space`. Taken on trust, not proved: the answer depends on
/// `c` alone, and [`is_white_space`] is the name for it.
#[verifier::external_body]
fn char_is_whitespace(c: char) -> (b: bool)
    ensures
        b == is_white_space(c),
{
    c.is_whitespace()
}

/// For each character of `s`, whether it is whitespace.
pub open spec fn white_space_flags(s: Seq<char>) -> Seq<bool> {
    s.map_values(|c: char| is_white_space(c))
}

/// How many of `flags` are set before the first that is not.
pub open spec fn leading_run(flags: Seq<bool>) -> nat
    decreases flags.len(),
{
    if flags.len() > 0 && flags.first() {
        1 + leading_run(flags.drop_first())
    } else {
        0
    }
}

/// How many of `flags` are set after the last that is not.
pub open spec fn trailing_run(flags: Seq<bool>) -> nat
    decreases flags.len(),
{
    if flags.len() > 0 && flags.last() {
        1 + trailing_run(flags.drop_last())
    } else {
        0
    }
}

/// The index range between the leading and the trailing run of set flags:
/// from the first flag that is not set to one past the last that is not. Where
/// all flags are set, the range is empty and lies at the end.
pub open spec fn kept_range(flags: Seq<bool>) -> (int, int) {
    let from = leading_run(flags) as int;
    let to = flags.len() - trailing_run(flags);
    if from <= to {
        (from, to)
    } else {
        (flags.len() as int, flags.len() as int)
    }
}

/// `s` without its leading and trailing whitespace.
pub open spec fn trimmed(s: Seq<char>) -> Seq<char> {
    let (from, to) = kept_range(white_space_flags(s));
    s.subrange(from, to)
}

/// The first `a` flags are set and the one after them, if there is one, is
/// not: then the leading run is `a` long.
pub proof fn lemma_leading_run_at(flags: Seq<bool>, a: int)
    requires
        0 <= a <= flags.len(),
        forall|i: int| 0 <= i < a ==> flags[i],
        a < flags.len() ==> !flags[a],
    ensures
        leading_run(flags) == a,
    decreases a,
{
    if a > 0 {
        let rest = flags.drop_first();
        assert(flags[0]);
        assert forall|i: int| 0 <= i < a - 1 implies rest[i] by {
            assert(rest[i] == flags[i + 1]);
        }
        lemma_leading_run_at(rest, a - 1);
    }
}

/// The flags from index `b` on are set and the one before them, if there is
/// one, is not: then the trailing run begins at `b`.
pub proof fn lemma_trailing_run_at(flags: Seq<bool>, b: int)
    requires
        0 <= b <= flags.len(),
        forall|i: int| b <= i < flags.len() ==> flags[i],
        0 < b ==> !flags[b - 1],
    ensures
        trailing_run(flags) == flags.len() - b,
    decreases flags.len() - b,
{
    if b < flags.len() {
        let rest = flags.drop_last();
        assert(flags[flags.len() - 1]);
        assert forall|i: int| b <= i < rest.len() implies rest[i] by {
            assert(rest[i] == flags[i]);
        }
        lemma_trailing_run_at(rest, b);
    }
}

/// The leading run holds set flags only, and ends at the end of the flags or
/// at a flag that is not set.
pub proof fn lemma_leading_run_shape(flags: Seq<bool>)
    ensures
        leading_run(flags) <= flags.len(),
        forall|i: int| 0 <= i < leading_run(flags) ==> flags[i],
        leading_run(flags) < flags.len() ==> !flags[leading_run(flags) as int],
    decreases flags.len(),
{
    if flags.len() > 0 && flags.first() {
        let rest = flags.drop_first();
        lemma_leading_run_shape(rest);
        assert forall|i: int| 0 <= i < leading_run(flags) implies flags[i] by {
            if i > 0 {
                assert(rest[i - 1] == flags[i]);
            }
        }
        if leading_run(flags) < flags.len() {
            assert(rest[leading_run(rest) as int] == flags[leading_run(flags) as int]);
        }
    }
}

/// The trailing run holds set flags only, and begins at the start of the flags
/// or after a flag that is not set.
pub proof fn lemma_trailing_run_shape(flags: Seq<bool>)
    ensures
        trailing_run(flags) <= flags.len(),
        forall|i: int| flags.len() - trailing_run(flags) <= i < flags.len() ==> flags[i],
        trailing_run(flags) < flags.len() ==> !flags[flags.len() - trailing_run(flags) - 1],
    decreases flags.len(),
{
    if flags.len() > 0 && flags.last() {
        let rest = flags.drop_last();
        lemma_trailing_run_shape(rest);
        assert forall|i: int| flags.len() - trailing_run(flags) <= i < flags.len() implies flags[i]
        by {
            if i < rest.len() {
                assert(rest[i] == flags[i]);
            }
        }
        if trailing_run(flags) < flags.len() {
            assert(rest[rest.len() - trailing_run(rest) - 1] == flags[flags.len() - trailing_run(
                flags,
            ) - 1]);
        }
    }
}

/// The kept range lies within the flags, all flags outside it are set, and it
/// neither begins nor ends with a set flag.
pub proof fn lemma_kept_range_shape(flags: Seq<bool>)
    ensures
        ({
            let (from, to) = kept_range(flags);
            &&& 0 <= from <= to <= flags.len()
            &&& forall|i: int| 0 <= i < from ==> flags[i]
            &&& forall|i: int| to <= i < flags.len() ==> flags[i]
            &&& from < to ==> !flags[from] && !flags[to - 1]
            &&& from == to ==> from == flags.len()
        }),
{
    lemma_leading_run_shape(flags);
    lemma_trailing_run_shape(flags);
}

/// Trimming is idempotent: a trimmed text has no whitespace left at its ends.
pub proof fn lemma_trimmed_idempotent(s: Seq<char>)
    ensures
        trimmed(trimmed(s)) == trimmed(s),
{
    let flags = white_space_flags(s);
    lemma_kept_range_shape(flags);
    let (from, to) = kept_range(flags);
    let t = s.subrange(from, to);
    let kept = white_space_flags(t);
    assert(kept =~= flags.subrange(from, to));
    if from < to {
        assert(!kept[0]);
        assert(!kept[kept.len() - 1]);
        lemma_leading_run_at(kept, 0);
        lemma_trailing_run_at(kept, kept.len() as int);
        assert(t.subrange(0, t.len() as int) =~= t);
    } else {
        assert(t.subrange(0, 0) =~= t);
    }
}

/// The index range that lies between the leading and the trailing run of set
/// flags.
pub fn keep_range(flags: &[bool]) -> (range: (usize, usize))
    ensures
        (range.0 as int, range.1 as int) == kept_range(flags@),
{
    let n = flags.len();
    let mut from: usize = 0;
    while from < n && flags[from]
        invariant
            n == flags@.len(),
            from <= n,
            forall|i: int| 0 <= i < from ==> flags@[i],
        decreases n - from,
    {
        from = from + 1;
    }
    proof {
        lemma_leading_run_at(flags@, from as int);
    }
    if from == n {
        proof {
            lemma_trailing_run_shape(flags@);
        }
        return (n, n);
    }
    let mut to: usize = n;
    while to > from && flags[to - 1]
        invariant
            n == flags@.len(),
            from < n,
            !flags@[from as int],
            from <= to <= n,
            forall|i: int| to <= i < n ==> flags@[i],
        decreases to,
    {
        to = to - 1;
    }
    proof {
        lemma_trailing_run_at(flags@, to as int);
    }
    (from, to)
}

/// For each character of `s`, whether it is whitespace.
fn classify(s: &str) -> (flags: Vec<bool>)
    ensures
        flags@ == white_space_flags(s@),
{
    broadcast use group_string_axioms;

    let mut flags: Vec<bool> = Vec::new();
    for c in it: s.chars()
        invariant
            it.seq() == s@,
            flags@ == white_space_flags(s@.take(it.index() as int)),
    {
        flags.push(char_is_whitespace(c));
        assert(white_space_flags(s@.take(it.index() + 1)) =~= white_space_flags(
            s@.take(it.index() as int),
        ).push(is_white_space(c)));
    }
    assert(s@.take(s@.len() as int) =~= s@);
    flags
}

/// `s` without its leading and trailing whitespace, as a slice of `s`.
pub fn trim(s: &str) -> (t: &str)
    ensures
        t@ == trimmed(s@),
{
    let flags = classify(s);
    let (from, to) = keep_range(flags.as_slice());
    proof {
        lemma_kept_range_shape(flags@);
    }
    s.substring_char(from, to)
}

} // verus!
