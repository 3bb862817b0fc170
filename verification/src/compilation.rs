//! The compilation of one entry, as a conversation with a parser and a block
//! builder that live outside this library.
//!
//! The compilation says what is to be done next; whoever drives it does that
//! and replies with what came of it. Statements are parsed until the source
//! ends; then the definitions are listed; then the block is filled, the
//! functions first and the statements after them; then the block is
//! serialized. The first failure of the parser or of the builder ends the
//! compilation with that error, and nothing of the block is handed out.

use vstd::prelude::*;
use vstd::pervasive::unreached;
use crate::pipeline::{emission_order, emission_plan, EmitStep, SymbolKind};
use crate::turn::CompileError;

verus! {

/// What the driver is asked to do.
#[derive(Clone, Copy, Debug, PartialEq, Eq, Structural)]
pub enum Request {
    /// Parse one more statement of the source.
    ParseStatement,
    /// List what the parser has collected as definitions over the whole source.
    ListDefinitions,
    /// Append this to the block.
    Emit(EmitStep),
    /// Serialize the block.
    Finalize,
}

/// What came of a request.
#[derive(Debug)]
pub enum Reply {
    /// A statement was parsed.
    Statement,
    /// The source has no more statements.
    EndOfSource,
    /// The kinds of the definitions, in the order of their enumeration.
    Definitions(Vec<SymbolKind>),
    /// The step was appended to the block.
    Emitted,
    /// The serialized block.
    Bytes(Vec<u8>),
    /// The parser or the builder failed.
    Failed(CompileError),
}

/// How a compilation goes on after a reply.
#[derive(Debug)]
pub enum Progress {
    /// With this request.
    Next(Request),
    /// Not at all: this is its result.
    Done(Result<Vec<u8>, CompileError>),
}

/// Where a compilation stands.
pub enum Stage {
    /// So many statements are parsed, and the next one is asked for.
    Parsing { statements: nat },
    /// All statements are parsed, and the definitions are asked for.
    Listing { statements: nat },
    /// The block is being filled: so many steps of the layout are emitted,
    /// and the next one is asked for.
    Emitting { statements: nat, kinds: Seq<SymbolKind>, emitted: nat },
    /// The block is full, and its bytes are asked for.
    Finalizing { statements: nat, kinds: Seq<SymbolKind> },
    /// The compilation has given its result.
    Finished,
}

impl Stage {
    /// The request that is open at this stage.
    pub open spec fn request(self) -> Option<Request> {
        match self {
            Stage::Parsing { .. } => Some(Request::ParseStatement),
            Stage::Listing { .. } => Some(Request::ListDefinitions),
            Stage::Emitting { statements, kinds, emitted } => Some(
                Request::Emit(emission_order(kinds, statements)[emitted as int]),
            ),
            Stage::Finalizing { .. } => Some(Request::Finalize),
            Stage::Finished => None,
        }
    }

    /// Whether `reply` answers the request that is open at this stage.
    pub open spec fn accepts(self, reply: Reply) -> bool {
        match self {
            Stage::Parsing { statements } => match reply {
                Reply::Statement => statements < usize::MAX,
                Reply::EndOfSource => true,
                Reply::Failed(_) => true,
                _ => false,
            },
            Stage::Listing { .. } => reply is Definitions,
            Stage::Emitting { .. } => reply is Emitted || reply is Failed,
            Stage::Finalizing { .. } => reply is Bytes,
            Stage::Finished => false,
        }
    }

    /// The stage that follows this one on `reply`.
    pub open spec fn after(self, reply: Reply) -> Stage {
        match self {
            Stage::Parsing { statements } => match reply {
                Reply::Statement => Stage::Parsing { statements: statements + 1 },
                Reply::EndOfSource => Stage::Listing { statements },
                _ => Stage::Finished,
            },
            Stage::Listing { statements } => match reply {
                Reply::Definitions(kinds) => if emission_order(kinds@, statements).len() > 0 {
                    Stage::Emitting { statements, kinds: kinds@, emitted: 0 }
                } else {
                    Stage::Finalizing { statements, kinds: kinds@ }
                },
                _ => Stage::Finished,
            },
            Stage::Emitting { statements, kinds, emitted } => match reply {
                Reply::Emitted => if emitted + 1 < emission_order(kinds, statements).len() {
                    Stage::Emitting { statements, kinds, emitted: emitted + 1 }
                } else {
                    Stage::Finalizing { statements, kinds }
                },
                _ => Stage::Finished,
            },
            Stage::Finalizing { .. } => Stage::Finished,
            Stage::Finished => Stage::Finished,
        }
    }
}

/// Whether `result` is what a compilation gives when `reply` ends it: the
/// bytes as they came, or the error as it came.
pub open spec fn is_result_of(result: Result<Vec<u8>, CompileError>, reply: Reply) -> bool {
    match reply {
        Reply::Bytes(bytes) => result matches Ok(unit) && unit@ == bytes@,
        Reply::Failed(e) => result matches Err(error) && error.description@ == e.description@
            && error.position == e.position,
        _ => false,
    }
}

enum Phase {
    Parsing { statements: usize },
    Listing { statements: usize },
    Emitting { statements: usize, kinds: Vec<SymbolKind>, plan: Vec<EmitStep>, emitted: usize },
    Finalizing { statements: usize, kinds: Vec<SymbolKind> },
    Finished,
}

/// A compilation under way.
pub struct Compilation {
    phase: Phase,
}

impl Compilation {
    /// Where the compilation stands.
    pub closed spec fn stage(&self) -> Stage {
        match self.phase {
            Phase::Parsing { statements } => Stage::Parsing { statements: statements as nat },
            Phase::Listing { statements } => Stage::Listing { statements: statements as nat },
            Phase::Emitting { statements, kinds, plan, emitted } => Stage::Emitting {
                statements: statements as nat,
                kinds: kinds@,
                emitted: emitted as nat,
            },
            Phase::Finalizing { statements, kinds } => Stage::Finalizing {
                statements: statements as nat,
                kinds: kinds@,
            },
            Phase::Finished => Stage::Finished,
        }
    }

    /// While the block is being filled, the layout is that of the statements
    /// and definitions at hand, and a step of it is still to come.
    pub closed spec fn wf(&self) -> bool {
        match self.phase {
            Phase::Emitting { statements, kinds, plan, emitted } => {
                &&& plan@ == emission_order(kinds@, statements as nat)
                &&& emitted < plan.len()
            },
            _ => true,
        }
    }

    /// A compilation at its start: nothing is parsed, and the first statement
    /// is asked for.
    pub fn start() -> (compilation: Self)
        ensures
            compilation.wf(),
            compilation.stage() == (Stage::Parsing { statements: 0 }),
    {
        Compilation { phase: Phase::Parsing { statements: 0 } }
    }

    /// The request that is open, if the compilation has not given its result.
    pub fn request(&self) -> (open: Option<Request>)
        requires
            self.wf(),
        ensures
            open == self.stage().request(),
    {
        match &self.phase {
            Phase::Parsing { .. } => Some(Request::ParseStatement),
            Phase::Listing { .. } => Some(Request::ListDefinitions),
            Phase::Emitting { plan, emitted, .. } => Some(Request::Emit(plan[*emitted])),
            Phase::Finalizing { .. } => Some(Request::Finalize),
            Phase::Finished => None,
        }
    }

    /// Whether `reply` answers the request that is open.
    pub fn accepts(&self, reply: &Reply) -> (ok: bool)
        ensures
            ok == self.stage().accepts(*reply),
    {
        match &self.phase {
            Phase::Parsing { statements } => match reply {
                Reply::Statement => *statements < usize::MAX,
                Reply::EndOfSource => true,
                Reply::Failed(_) => true,
                _ => false,
            },
            Phase::Listing { .. } => match reply {
                Reply::Definitions(_) => true,
                _ => false,
            },
            Phase::Emitting { .. } => match reply {
                Reply::Emitted => true,
                Reply::Failed(_) => true,
                _ => false,
            },
            Phase::Finalizing { .. } => match reply {
                Reply::Bytes(_) => true,
                _ => false,
            },
            Phase::Finished => false,
        }
    }

    /// Takes the reply to the open request and says how the compilation goes
    /// on: with the request of the stage that follows, or, where `reply` is a
    /// failure or the bytes of the block, with its result.
    pub fn advance(&mut self, reply: Reply) -> (progress: Progress)
        requires
            old(self).wf(),
            old(self).stage().accepts(reply),
        ensures
            final(self).wf(),
            final(self).stage() == old(self).stage().after(reply),
            match final(self).stage().request() {
                Some(request) => progress == Progress::Next(request),
                None => progress matches Progress::Done(result) && is_result_of(result, reply),
            },
    {
        let mut phase = Phase::Finished;
        core::mem::swap(&mut self.phase, &mut phase);
        match phase {
            Phase::Parsing { statements } => match reply {
                Reply::Statement => {
                    self.phase = Phase::Parsing { statements: statements + 1 };
                    Progress::Next(Request::ParseStatement)
                },
                Reply::EndOfSource => {
                    self.phase = Phase::Listing { statements };
                    Progress::Next(Request::ListDefinitions)
                },
                Reply::Failed(e) => Progress::Done(Err(e)),
                _ => unreached(),
            },
            Phase::Listing { statements } => match reply {
                Reply::Definitions(kinds) => {
                    let plan = emission_plan(&kinds, statements);
                    if plan.len() > 0 {
                        let first = plan[0];
                        self.phase = Phase::Emitting { statements, kinds, plan, emitted: 0 };
                        Progress::Next(Request::Emit(first))
                    } else {
                        self.phase = Phase::Finalizing { statements, kinds };
                        Progress::Next(Request::Finalize)
                    }
                },
                _ => unreached(),
            },
            Phase::Emitting { statements, kinds, plan, emitted } => match reply {
                Reply::Emitted => {
                    if emitted + 1 < plan.len() {
                        let next = plan[emitted + 1];
                        self.phase = Phase::Emitting {
                            statements,
                            kinds,
                            plan,
                            emitted: emitted + 1,
                        };
                        Progress::Next(Request::Emit(next))
                    } else {
                        self.phase = Phase::Finalizing { statements, kinds };
                        Progress::Next(Request::Finalize)
                    }
                },
                Reply::Failed(e) => Progress::Done(Err(e)),
                _ => unreached(),
            },
            Phase::Finalizing { .. } => match reply {
                Reply::Bytes(bytes) => Progress::Done(Ok(bytes)),
                _ => unreached(),
            },
            Phase::Finished => unreached(),
        }
    }
}

/// The stage that a compilation has reached after these replies, from its start.
pub open spec fn stage_after(replies: Seq<Reply>) -> Stage
    decreases replies.len(),
{
    if replies.len() == 0 {
        Stage::Parsing { statements: 0 }
    } else {
        stage_after(replies.drop_last()).after(replies.last())
    }
}

/// Whether each of these replies, in turn, answers the request that is open.
pub open spec fn accepted(replies: Seq<Reply>) -> bool
    decreases replies.len(),
{
    if replies.len() == 0 {
        true
    } else {
        accepted(replies.drop_last()) && stage_after(replies.drop_last()).accepts(replies.last())
    }
}

/// All that a compilation has asked for, in order, by the time it has taken
/// these replies: the first request and the one that followed each reply.
pub open spec fn requests_after(replies: Seq<Reply>) -> Seq<Request>
    decreases replies.len(),
{
    if replies.len() == 0 {
        seq![Request::ParseStatement]
    } else {
        match stage_after(replies).request() {
            Some(request) => requests_after(replies.drop_last()).push(request),
            None => requests_after(replies.drop_last()),
        }
    }
}

/// The request for a statement, `count` times.
pub open spec fn parse_requests(count: nat) -> Seq<Request> {
    Seq::new(count, |i: int| Request::ParseStatement)
}

/// The requests to emit these steps, in their order.
pub open spec fn emit_requests(steps: Seq<EmitStep>) -> Seq<Request> {
    Seq::new(steps.len(), |i: int| Request::Emit(steps[i]))
}

/// The requests by which a compilation comes to `stage`: one for each
/// statement and one that finds the end of the source, then one for the
/// definitions, then the layout step by step, then one for the bytes.
pub open spec fn requests_up_to(stage: Stage) -> Seq<Request> {
    match stage {
        Stage::Parsing { statements } => parse_requests(statements + 1),
        Stage::Listing { statements } => parse_requests(statements + 1).push(
            Request::ListDefinitions,
        ),
        Stage::Emitting { statements, kinds, emitted } => parse_requests(statements + 1).push(
            Request::ListDefinitions,
        ) + emit_requests(emission_order(kinds, statements).take(emitted as int + 1)),
        Stage::Finalizing { statements, kinds } => (parse_requests(statements + 1).push(
            Request::ListDefinitions,
        ) + emit_requests(emission_order(kinds, statements))).push(Request::Finalize),
        Stage::Finished => Seq::empty(),
    }
}

/// A compilation that has not given its result has asked for exactly what
/// leads to its stage, and while it fills the block a step is still to come.
pub proof fn lemma_requests_lead_to_stage(replies: Seq<Reply>)
    requires
        accepted(replies),
        !(stage_after(replies) is Finished),
    ensures
        requests_after(replies) == requests_up_to(stage_after(replies)),
        stage_after(replies) matches Stage::Emitting { statements, kinds, emitted } ==> emitted
            < emission_order(kinds, statements).len(),
    decreases replies.len(),
{
    if replies.len() == 0 {
        assert(requests_after(replies) =~= parse_requests(1));
    } else {
        let front = replies.drop_last();
        let before = stage_after(front);
        let now = stage_after(replies);
        lemma_requests_lead_to_stage(front);
        match before {
            Stage::Parsing { statements } => {
                assert(requests_after(replies) =~= requests_up_to(now));
            },
            Stage::Listing { statements } => {
                let kinds = replies.last()->Definitions_0@;
                let order = emission_order(kinds, statements);
                if order.len() > 0 {
                    assert(emit_requests(order.take(1)) =~= seq![Request::Emit(order[0])]);
                } else {
                    assert(emit_requests(order) =~= Seq::<Request>::empty());
                }
                assert(requests_after(replies) =~= requests_up_to(now));
            },
            Stage::Emitting { statements, kinds, emitted } => {
                let order = emission_order(kinds, statements);
                if emitted + 1 < order.len() {
                    assert(emit_requests(order.take(emitted as int + 2)) =~= emit_requests(
                        order.take(emitted as int + 1),
                    ).push(Request::Emit(order[emitted as int + 1])));
                } else {
                    assert(order.take(emitted as int + 1) =~= order);
                }
                assert(requests_after(replies) =~= requests_up_to(now));
            },
            _ => {},
        }
    }
}

/// A compilation that hands out bytes has, before that, asked for every
/// statement, for the definitions, for each step of the layout in the
/// layout's order, and for the bytes, and for nothing else.
pub proof fn lemma_bytes_come_after_the_whole_layout(replies: Seq<Reply>)
    requires
        accepted(replies),
        replies.len() > 0,
        replies.last() is Bytes,
    ensures
        stage_after(replies) is Finished,
        stage_after(replies.drop_last()) is Finalizing,
        requests_after(replies) == requests_up_to(stage_after(replies.drop_last())),
{
    lemma_requests_lead_to_stage(replies.drop_last());
}

/// A failure ends a compilation: it is the last reply that is taken.
pub proof fn lemma_failure_is_final(replies: Seq<Reply>, k: int)
    requires
        accepted(replies),
        0 <= k < replies.len(),
        replies[k] is Failed,
    ensures
        k == replies.len() - 1,
        stage_after(replies) is Finished,
    decreases replies.len(),
{
    if k < replies.len() - 1 {
        lemma_failure_is_final(replies.drop_last(), k);
    }
}

} // verus!
