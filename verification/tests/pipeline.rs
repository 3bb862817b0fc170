use red_repl::pipeline::{emission_plan, EmitStep, SymbolKind};

#[test]
fn one_function_and_one_call_put_the_function_first() {
    // "function f(){return 1;} f();": one definition, one top-level statement
    let plan = emission_plan(&vec![SymbolKind::Function], 1);
    assert_eq!(plan, vec![EmitStep::Function(0), EmitStep::Instruction(0)]);
}

#[test]
fn call_before_definition_gives_the_same_layout() {
    // "f(); function f(){return 1;}": the statement comes first in the source,
    // the layout is the same
    let plan = emission_plan(&vec![SymbolKind::Function], 1);
    assert_eq!(plan[0], EmitStep::Function(0));
    assert_eq!(plan[1], EmitStep::Instruction(0));
    assert_eq!(plan.len(), 2);
}

#[test]
fn only_functions_among_the_definitions_are_emitted() {
    let kinds = vec![
        SymbolKind::Other,
        SymbolKind::Function,
        SymbolKind::Other,
        SymbolKind::Function,
    ];
    let plan = emission_plan(&kinds, 3);
    assert_eq!(
        plan,
        vec![
            EmitStep::Function(1),
            EmitStep::Function(3),
            EmitStep::Instruction(0),
            EmitStep::Instruction(1),
            EmitStep::Instruction(2),
        ]
    );
}

#[test]
fn nothing_to_emit_gives_an_empty_layout() {
    assert_eq!(emission_plan(&Vec::new(), 0), Vec::new());
    assert_eq!(emission_plan(&vec![SymbolKind::Other], 0), Vec::new());
}

#[test]
fn statements_alone_keep_source_order() {
    assert_eq!(
        emission_plan(&Vec::new(), 2),
        vec![EmitStep::Instruction(0), EmitStep::Instruction(1)]
    );
}

#[test]
fn functions_alone_keep_enumeration_order() {
    assert_eq!(
        emission_plan(&vec![SymbolKind::Function, SymbolKind::Function], 0),
        vec![EmitStep::Function(0), EmitStep::Function(1)]
    );
}

#[test]
fn no_statement_stands_before_a_function() {
    let kinds = vec![
        SymbolKind::Function,
        SymbolKind::Other,
        SymbolKind::Function,
        SymbolKind::Function,
    ];
    let plan = emission_plan(&kinds, 4);
    assert_eq!(plan.len(), 7);
    let first_statement = plan
        .iter()
        .position(|s| matches!(s, EmitStep::Instruction(_)))
        .unwrap();
    assert_eq!(first_statement, 3);
    assert!(plan[first_statement..]
        .iter()
        .all(|s| matches!(s, EmitStep::Instruction(_))));
}
