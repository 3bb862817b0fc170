//! One turn of the shell: a complete entry is compiled, the compiled unit is
//! run, and a failure of either stage is reported as one line of text. A
//! failure ends the turn and nothing else.

use vstd::prelude::*;

verus! {

/// Where in the source a compile error was found.
#[derive(Clone, Copy, Debug, PartialEq, Eq, Structural)]
pub struct SourcePosition {
    pub line: usize,
    pub column: usize,
}

/// The source could not be parsed, or the block could not be emitted.
/// No part of the unit exists after it.
#[derive(Debug)]
pub struct CompileError {
    /// What went wrong, in words.
    pub description: String,
    /// Where, if that is known.
    pub position: Option<SourcePosition>,
}

/// The unit faulted while it ran, or ran into the time ceiling. What it
/// changed before that stays changed.
#[derive(Debug)]
pub struct RuntimeError {
    /// What went wrong, in words.
    pub description: String,
}

/// What follows the compile stage.
#[derive(Debug)]
pub enum AfterCompile {
    /// The unit exists: run these bytes.
    Run(Vec<u8>),
    /// There is no unit: print this line and end the turn.
    Report(String),
}

impl CompileError {
    /// An error with this description, at this position if one is given.
    pub fn new(description: String, position: Option<SourcePosition>) -> (e: Self)
        ensures
            e.description@ == description@,
            e.position == position,
    {
        CompileError { description, position }
    }
}

impl RuntimeError {
    /// An error with this description.
    pub fn new(description: String) -> (e: Self)
        ensures
            e.description@ == description@,
    {
        RuntimeError { description }
    }
}

/// Decides what follows the compile stage: a unit is run as it is, an error
/// is reported by its description and nothing is run.
pub fn after_compile(compiled: Result<Vec<u8>, CompileError>) -> (next: AfterCompile)
    ensures
        match compiled {
            Ok(bytes) => next matches AfterCompile::Run(unit) && unit@ == bytes@,
            Err(e) => next matches AfterCompile::Report(text) && text@ == e.description@,
        },
{
    match compiled {
        Ok(bytes) => AfterCompile::Run(bytes),
        Err(e) => AfterCompile::Report(e.description),
    }
}

/// Decides what is printed after the run stage: nothing after a run that
/// came to its end, the description after one that faulted.
pub fn after_run(ran: Result<(), RuntimeError>) -> (report: Option<String>)
    ensures
        match ran {
            Ok(_) => report is None,
            Err(e) => report matches Some(text) && text@ == e.description@,
        },
{
    match ran {
        Ok(_) => None,
        Err(e) => Some(e.description),
    }
}

} // verus!
