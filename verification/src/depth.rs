//! Nesting depth of the three bracket families, as a mathematical model.
//!
//! A depth is a walk over the characters of the input: an opening bracket
//! raises it by one, a closing bracket lowers it by one unless it is already
//! zero. Brackets inside string or comment literals count like any other.

use vstd::prelude::*;

verus! {

/// A family of brackets that is tracked independently of the others.
#[derive(Clone, Copy, Debug, PartialEq, Eq, Structural)]
pub enum Family {
    Curly,
    Square,
    Round,
}

impl Family {
    /// The character that opens a bracket of this family.
    pub open spec fn opener(self) -> char {
        match self {
            Family::Curly => '{',
            Family::Square => '[',
            Family::Round => '(',
        }
    }

    /// The character that closes a bracket of this family.
    pub open spec fn closer(self) -> char {
        match self {
            Family::Curly => '}',
            Family::Square => ']',
            Family::Round => ')',
        }
    }
}

/// The depth of family `f` after reading `c` at depth `depth`.
pub open spec fn step(depth: nat, c: char, f: Family) -> nat {
    if c == f.opener() {
        depth + 1
    } else if c == f.closer() && depth > 0 {
        (depth - 1) as nat
    } else {
        depth
    }
}

/// The depth of family `f` after reading all of `s`, left to right, starting at `depth`.
pub open spec fn depth_after(depth: nat, s: Seq<char>, f: Family) -> nat
    decreases s.len(),
{
    if s.len() == 0 {
        depth
    } else {
        step(depth_after(depth, s.drop_last(), f), s.last(), f)
    }
}

/// Whether `text` leaves no bracket of any family open: the cheap stand-in
/// for "nothing is pending" that decides when an entry is compiled.
pub open spec fn is_complete(text: Seq<char>) -> bool {
    &&& depth_after(0, text, Family::Curly) == 0
    &&& depth_after(0, text, Family::Square) == 0
    &&& depth_after(0, text, Family::Round) == 0
}

/// Openers minus closers of family `f` in `s`.
pub open spec fn net(s: Seq<char>, f: Family) -> int
    decreases s.len(),
{
    if s.len() == 0 {
        0
    } else if s.last() == f.opener() {
        net(s.drop_last(), f) + 1
    } else if s.last() == f.closer() {
        net(s.drop_last(), f) - 1
    } else {
        net(s.drop_last(), f)
    }
}

/// The lowest value that `depth + net(p, f)` takes over the prefixes `p` of `s`,
/// or zero if that is lower: how far the unclamped count dips below zero.
pub open spec fn lowest(depth: nat, s: Seq<char>, f: Family) -> int
    decreases s.len(),
{
    if s.len() == 0 {
        0
    } else {
        let before = lowest(depth, s.drop_last(), f);
        let here = depth + net(s, f);
        if here < before {
            here
        } else {
            before
        }
    }
}

/// Reading `a` and then `b` is reading `a + b`.
pub proof fn lemma_depth_concat(depth: nat, a: Seq<char>, b: Seq<char>, f: Family)
    ensures
        depth_after(depth, a + b, f) == depth_after(depth_after(depth, a, f), b, f),
    decreases b.len(),
{
    if b.len() == 0 {
        assert(a + b =~= a);
    } else {
        lemma_depth_concat(depth, a, b.drop_last(), f);
        assert((a + b).drop_last() =~= a + b.drop_last());
        assert((a + b).last() == b.last());
    }
}

/// A depth never grows by more than the number of characters read.
pub proof fn lemma_depth_bounded(depth: nat, s: Seq<char>, f: Family)
    ensures
        depth_after(depth, s, f) <= depth + s.len(),
    decreases s.len(),
{
    if s.len() > 0 {
        lemma_depth_bounded(depth, s.drop_last(), f);
    }
}

/// The clamped depth is the plain count of openers minus closers, lifted by
/// exactly as much as that count ever dipped below zero.
pub proof fn lemma_depth_is_clamped_count(depth: nat, s: Seq<char>, f: Family)
    ensures
        lowest(depth, s, f) <= 0,
        lowest(depth, s, f) <= depth + net(s, f),
        depth_after(depth, s, f) == depth + net(s, f) - lowest(depth, s, f),
    decreases s.len(),
{
    if s.len() > 0 {
        lemma_depth_is_clamped_count(depth, s.drop_last(), f);
    }
}

/// Where no prefix closes more brackets than were open, nothing is clamped:
/// the depth is the start depth plus openers minus closers.
pub proof fn lemma_depth_of_balanced_prefixes(depth: nat, s: Seq<char>, f: Family)
    requires
        forall|k: int| 0 <= k <= s.len() ==> depth + #[trigger] net(s.take(k), f) >= 0,
    ensures
        depth_after(depth, s, f) == depth + net(s, f),
{
    lemma_depth_is_clamped_count(depth, s, f);
    lemma_lowest_zero(depth, s, f);
}

proof fn lemma_lowest_zero(depth: nat, s: Seq<char>, f: Family)
    requires
        forall|k: int| 0 <= k <= s.len() ==> depth + #[trigger] net(s.take(k), f) >= 0,
    ensures
        lowest(depth, s, f) == 0,
    decreases s.len(),
{
    if s.len() > 0 {
        let t = s.drop_last();
        assert forall|k: int| 0 <= k <= t.len() implies depth + #[trigger] net(t.take(k), f) >= 0 by {
            assert(t.take(k) =~= s.take(k));
        }
        lemma_lowest_zero(depth, t, f);
        assert(s.take(s.len() as int) =~= s);
    }
}

} // verus!
