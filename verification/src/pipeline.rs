//! The layout of a compiled unit.
//!
//! A unit is one bytecode block. Every function that the source defines goes
//! into it first, in the order in which the definitions are enumerated; the
//! top-level statements follow, in source order. A statement may therefore
//! call a function that the source defines further down.

use vstd::prelude::*;

verus! {

/// What a name in the table of definitions stands for.
#[derive(Clone, Copy, Debug, PartialEq, Eq, Structural)]
pub enum SymbolKind {
    /// A function, with parameters, a body and flags: it becomes a sub-block.
    Function,
    /// Anything else: nothing is emitted for it.
    Other,
}

/// One thing to append to the block.
#[derive(Clone, Copy, Debug, PartialEq, Eq, Structural)]
pub enum EmitStep {
    /// The function defined by the entry at this position of the definitions.
    Function(usize),
    /// The top-level statement at this position of the source.
    Instruction(usize),
}

/// The steps for the functions among `kinds`, by ascending position.
pub open spec fn function_steps(kinds: Seq<SymbolKind>) -> Seq<EmitStep>
    decreases kinds.len(),
{
    if kinds.len() == 0 {
        Seq::empty()
    } else if kinds.last() == SymbolKind::Function {
        function_steps(kinds.drop_last()).push(EmitStep::Function((kinds.len() - 1) as usize))
    } else {
        function_steps(kinds.drop_last())
    }
}

/// The steps for `count` statements, by ascending position.
pub open spec fn instruction_steps(count: nat) -> Seq<EmitStep> {
    Seq::new(count, |i: int| EmitStep::Instruction(i as usize))
}

/// The whole layout: the functions, then the statements.
pub open spec fn emission_order(kinds: Seq<SymbolKind>, instructions: nat) -> Seq<EmitStep> {
    function_steps(kinds) + instruction_steps(instructions)
}

/// Lays out a unit with `instructions` top-level statements whose definitions
/// are of the given kinds.
pub fn emission_plan(kinds: &Vec<SymbolKind>, instructions: usize) -> (plan: Vec<EmitStep>)
    ensures
        plan@ == emission_order(kinds@, instructions as nat),
{
    let mut plan: Vec<EmitStep> = Vec::new();
    let mut d: usize = 0;
    while d < kinds.len()
        invariant
            d <= kinds.len(),
            plan@ == function_steps(kinds@.take(d as int)),
        decreases kinds.len() - d,
    {
        proof {
            assert(kinds@.take(d + 1).drop_last() =~= kinds@.take(d as int));
        }
        match kinds[d] {
            SymbolKind::Function => {
                plan.push(EmitStep::Function(d));
            },
            SymbolKind::Other => {},
        }
        d = d + 1;
    }
    proof {
        assert(kinds@.take(d as int) =~= kinds@);
    }
    let ghost functions = plan@;
    let mut i: usize = 0;
    while i < instructions
        invariant
            i <= instructions,
            plan@ == functions + instruction_steps(i as nat),
        decreases instructions - i,
    {
        plan.push(EmitStep::Instruction(i));
        i = i + 1;
    }
    plan
}

/// What the function steps are: each names a function among the definitions,
/// their positions ascend strictly, and no function is left out.
pub proof fn lemma_function_steps(kinds: Seq<SymbolKind>)
    requires
        kinds.len() <= usize::MAX,
    ensures
        function_steps(kinds).len() <= kinds.len(),
        forall|k: int|
            0 <= k < function_steps(kinds).len() ==> {
                &&& #[trigger] function_steps(kinds)[k] is Function
                &&& function_steps(kinds)[k]->Function_0 < kinds.len()
                &&& kinds[function_steps(kinds)[k]->Function_0 as int] == SymbolKind::Function
            },
        forall|j: int, k: int|
            0 <= j < k < function_steps(kinds).len() ==> function_steps(kinds)[j]->Function_0
                < function_steps(kinds)[k]->Function_0,
        forall|d: int|
            0 <= d < kinds.len() && #[trigger] kinds[d] == SymbolKind::Function
                ==> function_steps(kinds).contains(EmitStep::Function(d as usize)),
    decreases kinds.len(),
{
    if kinds.len() > 0 {
        let front = kinds.drop_last();
        let steps = function_steps(kinds);
        lemma_function_steps(front);
        assert forall|d: int|
            0 <= d < kinds.len() && #[trigger] kinds[d] == SymbolKind::Function implies steps.contains(
            EmitStep::Function(d as usize),
        ) by {
            if d < front.len() {
                assert(front[d] == kinds[d]);
                let k = choose|k: int|
                    0 <= k < function_steps(front).len() && function_steps(front)[k]
                        == EmitStep::Function(d as usize);
                assert(steps[k] == EmitStep::Function(d as usize));
            } else {
                assert(steps[steps.len() - 1] == EmitStep::Function(d as usize));
            }
        }
    }
}

/// In a layout no statement comes before a function: whatever follows a
/// statement is a statement, however definitions and statements were
/// interleaved in the source.
pub proof fn lemma_functions_come_first(kinds: Seq<SymbolKind>, instructions: nat)
    requires
        kinds.len() <= usize::MAX,
    ensures
        forall|j: int, k: int|
            0 <= j < k < emission_order(kinds, instructions).len() && emission_order(
                kinds,
                instructions,
            )[j] is Instruction ==> emission_order(kinds, instructions)[k] is Instruction,
{
    lemma_function_steps(kinds);
}

/// In a layout the statements keep their source order and none is lost or
/// repeated: statement `i` stands right after the functions and the `i`
/// statements before it.
pub proof fn lemma_instructions_in_source_order(kinds: Seq<SymbolKind>, instructions: nat)
    ensures
        emission_order(kinds, instructions).len() == function_steps(kinds).len() + instructions,
        forall|i: int|
            0 <= i < instructions ==> #[trigger] emission_order(
                kinds,
                instructions,
            )[function_steps(kinds).len() + i] == EmitStep::Instruction(i as usize),
{
}

} // verus!
