use red_repl::compilation::{Compilation, Progress, Reply, Request};
use red_repl::pipeline::{EmitStep, SymbolKind};
use red_repl::turn::{CompileError, SourcePosition};

fn next(c: &mut Compilation, reply: Reply) -> Request {
    assert!(c.accepts(&reply));
    match c.advance(reply) {
        Progress::Next(request) => request,
        Progress::Done(_) => panic!("the compilation ended early"),
    }
}

fn done(c: &mut Compilation, reply: Reply) -> Result<Vec<u8>, CompileError> {
    assert!(c.accepts(&reply));
    match c.advance(reply) {
        Progress::Done(result) => result,
        Progress::Next(_) => panic!("the compilation did not end"),
    }
}

#[test]
fn compilation_starts_by_asking_for_a_statement() {
    let c = Compilation::start();
    assert_eq!(c.request(), Some(Request::ParseStatement));
}

#[test]
fn function_is_emitted_before_the_call() {
    // "function f(){return 1;} f();"
    let mut c = Compilation::start();
    assert_eq!(next(&mut c, Reply::Statement), Request::ParseStatement);
    assert_eq!(next(&mut c, Reply::EndOfSource), Request::ListDefinitions);
    assert_eq!(
        next(&mut c, Reply::Definitions(vec![SymbolKind::Function])),
        Request::Emit(EmitStep::Function(0))
    );
    assert_eq!(c.request(), Some(Request::Emit(EmitStep::Function(0))));
    assert_eq!(
        next(&mut c, Reply::Emitted),
        Request::Emit(EmitStep::Instruction(0))
    );
    assert_eq!(next(&mut c, Reply::Emitted), Request::Finalize);
    let result = done(&mut c, Reply::Bytes(vec![1, 2, 3]));
    assert_eq!(result.unwrap(), vec![1, 2, 3]);
    assert_eq!(c.request(), None);
}

#[test]
fn several_statements_and_definitions() {
    let mut c = Compilation::start();
    assert_eq!(next(&mut c, Reply::Statement), Request::ParseStatement);
    assert_eq!(next(&mut c, Reply::Statement), Request::ParseStatement);
    assert_eq!(next(&mut c, Reply::EndOfSource), Request::ListDefinitions);
    let kinds = vec![SymbolKind::Other, SymbolKind::Function, SymbolKind::Function];
    assert_eq!(
        next(&mut c, Reply::Definitions(kinds)),
        Request::Emit(EmitStep::Function(1))
    );
    assert_eq!(next(&mut c, Reply::Emitted), Request::Emit(EmitStep::Function(2)));
    assert_eq!(next(&mut c, Reply::Emitted), Request::Emit(EmitStep::Instruction(0)));
    assert_eq!(next(&mut c, Reply::Emitted), Request::Emit(EmitStep::Instruction(1)));
    assert_eq!(next(&mut c, Reply::Emitted), Request::Finalize);
    assert_eq!(done(&mut c, Reply::Bytes(vec![7])).unwrap(), vec![7]);
}

#[test]
fn empty_source_compiles_to_whatever_the_empty_block_is() {
    let mut c = Compilation::start();
    assert_eq!(next(&mut c, Reply::EndOfSource), Request::ListDefinitions);
    assert_eq!(next(&mut c, Reply::Definitions(Vec::new())), Request::Finalize);
    assert_eq!(done(&mut c, Reply::Bytes(vec![0])).unwrap(), vec![0]);
}

#[test]
fn definitions_without_functions_emit_nothing() {
    let mut c = Compilation::start();
    assert_eq!(next(&mut c, Reply::EndOfSource), Request::ListDefinitions);
    assert_eq!(
        next(&mut c, Reply::Definitions(vec![SymbolKind::Other, SymbolKind::Other])),
        Request::Finalize
    );
}

#[test]
fn parse_failure_ends_the_compilation_with_the_error() {
    let mut c = Compilation::start();
    assert_eq!(next(&mut c, Reply::Statement), Request::ParseStatement);
    assert_eq!(next(&mut c, Reply::Statement), Request::ParseStatement);
    let e = CompileError::new(
        String::from("unexpected `)`"),
        Some(SourcePosition { line: 3, column: 9 }),
    );
    let error = done(&mut c, Reply::Failed(e)).unwrap_err();
    assert_eq!(error.description, "unexpected `)`");
    assert_eq!(error.position, Some(SourcePosition { line: 3, column: 9 }));
    assert_eq!(c.request(), None);
    assert!(!c.accepts(&Reply::Statement));
    assert!(!c.accepts(&Reply::EndOfSource));
    assert!(!c.accepts(&Reply::Bytes(Vec::new())));
}

#[test]
fn parse_failure_on_the_first_statement() {
    let mut c = Compilation::start();
    let e = CompileError::new(String::from("bad"), None);
    let error = done(&mut c, Reply::Failed(e)).unwrap_err();
    assert_eq!(error.description, "bad");
    assert_eq!(error.position, None);
}

#[test]
fn emission_failure_ends_the_compilation_with_the_error() {
    let mut c = Compilation::start();
    next(&mut c, Reply::Statement);
    next(&mut c, Reply::EndOfSource);
    next(&mut c, Reply::Definitions(vec![SymbolKind::Function]));
    assert_eq!(next(&mut c, Reply::Emitted), Request::Emit(EmitStep::Instruction(0)));
    let e = CompileError::new(String::from("too many constants"), None);
    let error = done(&mut c, Reply::Failed(e)).unwrap_err();
    assert_eq!(error.description, "too many constants");
    assert_eq!(c.request(), None);
    assert!(!c.accepts(&Reply::Emitted));
}

#[test]
fn only_the_reply_to_the_open_request_is_accepted() {
    let mut c = Compilation::start();
    assert!(c.accepts(&Reply::Statement));
    assert!(c.accepts(&Reply::EndOfSource));
    assert!(c.accepts(&Reply::Failed(CompileError::new(String::new(), None))));
    assert!(!c.accepts(&Reply::Definitions(Vec::new())));
    assert!(!c.accepts(&Reply::Emitted));
    assert!(!c.accepts(&Reply::Bytes(Vec::new())));
    next(&mut c, Reply::EndOfSource);
    assert!(c.accepts(&Reply::Definitions(Vec::new())));
    assert!(!c.accepts(&Reply::Statement));
    assert!(!c.accepts(&Reply::EndOfSource));
    assert!(!c.accepts(&Reply::Failed(CompileError::new(String::new(), None))));
    next(&mut c, Reply::Definitions(vec![SymbolKind::Function]));
    assert!(c.accepts(&Reply::Emitted));
    assert!(c.accepts(&Reply::Failed(CompileError::new(String::new(), None))));
    assert!(!c.accepts(&Reply::Bytes(Vec::new())));
    assert!(!c.accepts(&Reply::Statement));
    next(&mut c, Reply::Emitted);
    assert!(c.accepts(&Reply::Bytes(Vec::new())));
    assert!(!c.accepts(&Reply::Emitted));
    assert!(!c.accepts(&Reply::Failed(CompileError::new(String::new(), None))));
}
