//! The input accumulator: it collects the lines of one entry and tells, after
//! each line, whether the entry is ready to be compiled.

use vstd::prelude::*;
use vstd::string::*;
use vstd::utf8::*;
use crate::depth::{depth_after, lemma_depth_bounded, lemma_depth_concat, Family};

verus! {

/// What the accumulator reports after a line.
#[derive(Clone, Copy, Debug, PartialEq, Eq, Structural)]
pub enum BufferState {
    /// Some bracket is still open: more lines are needed.
    Incomplete,
    /// No bracket is open: the buffered text is a unit to compile.
    Complete,
}

/// The text read since the last hand-off, with the depth of each bracket family in it.
pub struct InputAccumulator {
    pending: String,
    curly: usize,
    square: usize,
    round: usize,
}

/// A text has at most as many characters as its encoding has bytes.
proof fn lemma_chars_fit_in_bytes(chars: Seq<char>)
    ensures
        chars.len() <= encode_utf8(chars).len(),
    decreases chars.len(),
{
    if chars.len() > 0 {
        lemma_chars_fit_in_bytes(chars.drop_first());
    }
}

impl InputAccumulator {
    /// The text that waits to be compiled.
    pub closed spec fn pending(&self) -> Seq<char> {
        self.pending@
    }

    /// The counter of family `f`.
    pub closed spec fn depth(&self, f: Family) -> nat {
        match f {
            Family::Curly => self.curly as nat,
            Family::Square => self.square as nat,
            Family::Round => self.round as nat,
        }
    }

    /// Every counter is the depth of its family in the pending text.
    pub closed spec fn wf(&self) -> bool {
        forall|f: Family| self.depth(f) == depth_after(0, self.pending@, f)
    }

    /// No bracket of any family is open.
    pub open spec fn balanced(&self) -> bool {
        &&& self.depth(Family::Curly) == 0
        &&& self.depth(Family::Square) == 0
        &&& self.depth(Family::Round) == 0
    }

    /// An accumulator that has read nothing.
    pub fn new() -> (acc: Self)
        ensures
            acc.wf(),
            acc.pending() == Seq::<char>::empty(),
            acc.balanced(),
    {
        InputAccumulator { pending: String::new(), curly: 0, square: 0, round: 0 }
    }

    /// Reads one line: appends it to the pending text, moves each counter over
    /// its characters, and reports `Complete` exactly when all three are zero.
    pub fn feed(&mut self, line: &str) -> (state: BufferState)
        requires
            old(self).wf(),
        ensures
            final(self).wf(),
            final(self).pending() == old(self).pending() + line@,
            forall|f: Family|
                final(self).depth(f) == depth_after(old(self).depth(f), line@, f),
            state == BufferState::Complete <==> final(self).balanced(),
    {
        let ghost before = old(self).pending@;
        self.pending.append(line);
        let bytes: usize = self.pending.as_str().as_bytes().len();
        proof {
            lemma_chars_fit_in_bytes(self.pending@);
            assert forall|f: Family|
                old(self).depth(f) == depth_after(0, before, f) && depth_after(0, before, f)
                    <= before.len() by {
                lemma_depth_bounded(0, before, f);
            }
            assert(old(self).depth(Family::Curly) == self.curly);
            assert(old(self).depth(Family::Square) == self.square);
            assert(old(self).depth(Family::Round) == self.round);
        }
        let mut curly: usize = self.curly;
        let mut square: usize = self.square;
        let mut round: usize = self.round;
        let ghost mut seen: Seq<char> = Seq::empty();
        for c in it: line.chars()
            invariant
                before.len() + line@.len() <= usize::MAX,
                it.seq() == line@,
                seen == line@.take(it.index() as int),
                curly == depth_after(depth_after(0, before, Family::Curly), seen, Family::Curly),
                square == depth_after(
                    depth_after(0, before, Family::Square),
                    seen,
                    Family::Square,
                ),
                round == depth_after(depth_after(0, before, Family::Round), seen, Family::Round),
                curly <= before.len() + seen.len(),
                square <= before.len() + seen.len(),
                round <= before.len() + seen.len(),
        {
            proof {
                let next = line@.take(it.index() + 1);
                assert(next.drop_last() =~= seen);
                assert(next.last() == c);
                seen = next;
            }
            if c == '{' {
                curly = curly + 1;
            } else if c == '[' {
                square = square + 1;
            } else if c == '(' {
                round = round + 1;
            } else if c == '}' {
                if curly > 0 {
                    curly = curly - 1;
                }
            } else if c == ']' {
                if square > 0 {
                    square = square - 1;
                }
            } else if c == ')' {
                if round > 0 {
                    round = round - 1;
                }
            }
        }
        self.curly = curly;
        self.square = square;
        self.round = round;
        proof {
            assert(seen =~= line@);
            assert forall|f: Family|
                self.depth(f) == depth_after(old(self).depth(f), line@, f)
                && self.depth(f) == depth_after(0, self.pending@, f) by {
                lemma_depth_concat(0, before, line@, f);
            }
        }
        if curly == 0 && square == 0 && round == 0 {
            BufferState::Complete
        } else {
            BufferState::Incomplete
        }
    }

    /// Hands the pending text off and starts over: the text is returned whole,
    /// nothing stays buffered and every counter is back at zero.
    pub fn take(&mut self) -> (unit: String)
        requires
            old(self).wf(),
        ensures
            unit@ == old(self).pending(),
            final(self).wf(),
            final(self).pending() == Seq::<char>::empty(),
            final(self).balanced(),
    {
        let mut unit = String::new();
        core::mem::swap(&mut self.pending, &mut unit);
        self.curly = 0;
        self.square = 0;
        self.round = 0;
        unit
    }

    /// The text that waits to be compiled.
    pub fn pending_text(&self) -> (text: &str)
        ensures
            text@ == self.pending(),
    {
        self.pending.as_str()
    }

    /// How many curly brackets are open.
    pub fn curly_depth(&self) -> (d: usize)
        ensures
            d == self.depth(Family::Curly),
    {
        self.curly
    }

    /// How many square brackets are open.
    pub fn square_depth(&self) -> (d: usize)
        ensures
            d == self.depth(Family::Square),
    {
        self.square
    }

    /// How many round brackets are open.
    pub fn round_depth(&self) -> (d: usize)
        ensures
            d == self.depth(Family::Round),
    {
        self.round
    }

    /// Whether no bracket of any family is open.
    pub fn is_balanced(&self) -> (b: bool)
        ensures
            b == self.balanced(),
    {
        self.curly == 0 && self.square == 0 && self.round == 0
    }

    /// The counters are exactly the depths of the pending text: they are never
    /// negative, and whatever was read before the last hand-off has no part in them.
    pub proof fn lemma_depths_follow_pending(&self, f: Family)
        requires
            self.wf(),
        ensures
            self.depth(f) == depth_after(0, self.pending(), f),
            self.depth(f) >= 0,
            self.depth(f) <= self.pending().len(),
    {
        lemma_depth_bounded(0, self.pending(), f);
    }
}

} // verus!
