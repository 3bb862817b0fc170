//! The shell loop as a state machine. It has two states: it waits for the
//! first line of an entry, or for the continuation of one. Every line moves
//! it; a line that completes an entry hands the whole entry off.

use vstd::prelude::*;
use crate::accumulator::{BufferState, InputAccumulator};
use crate::depth::{is_complete, Family};

verus! {

/// The two states of the shell.
#[derive(Clone, Copy, Debug, PartialEq, Eq, Structural)]
pub enum ShellState {
    /// Nothing is buffered: the next line starts an entry.
    AwaitingInput,
    /// An entry was started and some bracket is still open.
    Continuation,
}

/// What the shell asks for after a line.
#[derive(Debug)]
pub enum Step {
    /// Read another line of the same entry.
    Continue,
    /// The entry is complete: compile and run this text.
    Submit(String),
}

/// The text that stays buffered after `line` is read on top of `pending`.
pub open spec fn pending_after_line(pending: Seq<char>, line: Seq<char>) -> Seq<char> {
    if is_complete(pending + line) {
        Seq::empty()
    } else {
        pending + line
    }
}

/// The text that is handed off when `line` is read on top of `pending`, if any.
pub open spec fn unit_after_line(pending: Seq<char>, line: Seq<char>) -> Option<Seq<char>> {
    if is_complete(pending + line) {
        Some(pending + line)
    } else {
        None
    }
}

/// The prompt of each state.
pub open spec fn prompt_of(state: ShellState) -> Seq<char> {
    match state {
        ShellState::AwaitingInput => ">>> "@,
        ShellState::Continuation => "... "@,
    }
}

/// The text that is buffered after a shell at its start has read `lines`.
pub open spec fn pending_after(lines: Seq<Seq<char>>) -> Seq<char>
    decreases lines.len(),
{
    if lines.len() == 0 {
        Seq::empty()
    } else {
        pending_after_line(pending_after(lines.drop_last()), lines.last())
    }
}

/// The entries that a shell at its start hands off while it reads `lines`, in
/// the order in which it hands them off.
pub open spec fn units_after(lines: Seq<Seq<char>>) -> Seq<Seq<char>>
    decreases lines.len(),
{
    if lines.len() == 0 {
        Seq::empty()
    } else {
        match unit_after_line(pending_after(lines.drop_last()), lines.last()) {
            Some(unit) => units_after(lines.drop_last()).push(unit),
            None => units_after(lines.drop_last()),
        }
    }
}

/// The texts one after the other, as one text.
pub open spec fn joined(texts: Seq<Seq<char>>) -> Seq<char>
    decreases texts.len(),
{
    if texts.len() == 0 {
        Seq::empty()
    } else {
        joined(texts.drop_last()) + texts.last()
    }
}

/// Nothing that is typed is lost, repeated or moved: the entries handed off,
/// one after the other, followed by what is still buffered, are the lines
/// read, one after the other.
pub proof fn lemma_input_is_kept_in_order(lines: Seq<Seq<char>>)
    ensures
        joined(units_after(lines)) + pending_after(lines) == joined(lines),
    decreases lines.len(),
{
    if lines.len() > 0 {
        let front = lines.drop_last();
        lemma_input_is_kept_in_order(front);
        let text = pending_after(front) + lines.last();
        if is_complete(text) {
            assert(units_after(lines).drop_last() =~= units_after(front));
            assert(joined(units_after(lines)) + pending_after(lines) =~= joined(units_after(front))
                + text);
        }
        assert(joined(units_after(front)) + text =~= joined(units_after(front)) + pending_after(
            front,
        ) + lines.last());
    }
}

/// Every entry handed off is complete, and what stays buffered is not,
/// unless nothing is buffered.
pub proof fn lemma_units_are_complete(lines: Seq<Seq<char>>)
    ensures
        forall|k: int|
            0 <= k < units_after(lines).len() ==> is_complete(#[trigger] units_after(lines)[k]),
        pending_after(lines).len() > 0 ==> !is_complete(pending_after(lines)),
    decreases lines.len(),
{
    if lines.len() > 0 {
        let front = lines.drop_last();
        lemma_units_are_complete(front);
        assert forall|k: int| 0 <= k < units_after(lines).len() implies is_complete(
            #[trigger] units_after(lines)[k],
        ) by {
            if k < units_after(front).len() {
                assert(units_after(lines)[k] == units_after(front)[k]);
            }
        }
    }
}

/// A turn starts afresh: once an entry is handed off, what the shell does with
/// the lines that follow is what a shell at its start does with them.
pub proof fn lemma_turns_are_independent(earlier: Seq<Seq<char>>, later: Seq<Seq<char>>)
    requires
        pending_after(earlier).len() == 0,
    ensures
        pending_after(earlier + later) == pending_after(later),
        units_after(earlier + later) == units_after(earlier) + units_after(later),
    decreases later.len(),
{
    if later.len() == 0 {
        assert(earlier + later =~= earlier);
        assert(units_after(earlier) + units_after(later) =~= units_after(earlier));
    } else {
        lemma_turns_are_independent(earlier, later.drop_last());
        assert((earlier + later).drop_last() =~= earlier + later.drop_last());
        assert((earlier + later).last() == later.last());
        assert(units_after(earlier + later) =~= units_after(earlier) + units_after(later));
    }
}

/// The shell: the lines of the entry that is being typed.
pub struct Shell {
    input: InputAccumulator,
}

impl Shell {
    /// The text of the entry that is being typed.
    pub closed spec fn pending(&self) -> Seq<char> {
        self.input.pending()
    }

    /// The state: a continuation is awaited exactly while something is buffered.
    pub open spec fn state(&self) -> ShellState {
        if self.pending().len() == 0 {
            ShellState::AwaitingInput
        } else {
            ShellState::Continuation
        }
    }

    /// The counters follow the buffered text, and the text is never a complete
    /// entry: a complete one is handed off at once.
    pub closed spec fn wf(&self) -> bool {
        &&& self.input.wf()
        &&& self.input.balanced() ==> self.input.pending().len() == 0
    }

    /// A shell at its start: nothing buffered, awaiting input.
    pub fn new() -> (shell: Self)
        ensures
            shell.wf(),
            shell.pending() == Seq::<char>::empty(),
            shell.state() == ShellState::AwaitingInput,
    {
        Shell { input: InputAccumulator::new() }
    }

    /// Reads one line. If it completes the entry, the entry is handed off
    /// and the shell awaits input again; if not, the line is buffered and the
    /// shell awaits a continuation.
    pub fn read_line(&mut self, line: &str) -> (step: Step)
        requires
            old(self).wf(),
        ensures
            final(self).wf(),
            final(self).pending() == pending_after_line(old(self).pending(), line@),
            match unit_after_line(old(self).pending(), line@) {
                Some(text) => step matches Step::Submit(unit) && unit@ == text,
                None => step is Continue,
            },
            step is Submit <==> final(self).state() == ShellState::AwaitingInput,
    {
        let state = self.input.feed(line);
        proof {
            self.input.lemma_depths_follow_pending(Family::Curly);
            self.input.lemma_depths_follow_pending(Family::Square);
            self.input.lemma_depths_follow_pending(Family::Round);
        }
        match state {
            BufferState::Complete => {
                let unit = self.input.take();
                Step::Submit(unit)
            },
            BufferState::Incomplete => Step::Continue,
        }
    }

    /// The state the shell is in.
    pub fn current_state(&self) -> (state: ShellState)
        requires
            self.wf(),
        ensures
            state == self.state(),
    {
        proof {
            self.input.lemma_depths_follow_pending(Family::Curly);
            self.input.lemma_depths_follow_pending(Family::Square);
            self.input.lemma_depths_follow_pending(Family::Round);
        }
        if self.input.is_balanced() {
            ShellState::AwaitingInput
        } else {
            ShellState::Continuation
        }
    }

    /// The prompt to show before the next line is read.
    pub fn prompt(&self) -> (text: &'static str)
        requires
            self.wf(),
        ensures
            text@ == prompt_of(self.state()),
    {
        prompt_for(self.current_state())
    }
}

/// The prompt of a state: the primary marker before a new entry, the
/// continuation marker inside one.
pub fn prompt_for(state: ShellState) -> (text: &'static str)
    ensures
        text@ == prompt_of(state),
{
    match state {
        ShellState::AwaitingInput => ">>> ",
        ShellState::Continuation => "... ",
    }
}

} // verus!
