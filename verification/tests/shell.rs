use red_repl::shell::{prompt_for, Shell, ShellState, Step};

fn submitted(step: Step) -> String {
    match step {
        Step::Submit(unit) => unit,
        Step::Continue => panic!("the entry was not handed off"),
    }
}

#[test]
fn shell_starts_awaiting_input() {
    let shell = Shell::new();
    assert_eq!(shell.current_state(), ShellState::AwaitingInput);
    assert_eq!(shell.prompt(), ">>> ");
}

#[test]
fn prompts_of_both_states() {
    assert_eq!(prompt_for(ShellState::AwaitingInput), ">>> ");
    assert_eq!(prompt_for(ShellState::Continuation), "... ");
}

#[test]
fn single_line_entry_is_submitted_at_once() {
    let mut shell = Shell::new();
    assert_eq!(submitted(shell.read_line("var x = 5;\n")), "var x = 5;\n");
    assert_eq!(shell.current_state(), ShellState::AwaitingInput);
    assert_eq!(shell.prompt(), ">>> ");
}

#[test]
fn three_line_entry_is_submitted_once_on_the_third_line() {
    let mut shell = Shell::new();
    assert!(matches!(shell.read_line("function f() {\n"), Step::Continue));
    assert_eq!(shell.current_state(), ShellState::Continuation);
    assert_eq!(shell.prompt(), "... ");
    assert!(matches!(shell.read_line("return 1;\n"), Step::Continue));
    assert_eq!(shell.prompt(), "... ");
    assert_eq!(
        submitted(shell.read_line("}\n")),
        "function f() {\nreturn 1;\n}\n"
    );
    assert_eq!(shell.current_state(), ShellState::AwaitingInput);
    assert_eq!(shell.prompt(), ">>> ");
}

#[test]
fn lone_closing_bracket_as_first_line_is_submitted() {
    let mut shell = Shell::new();
    assert_eq!(submitted(shell.read_line("}")), "}");
    assert_eq!(shell.current_state(), ShellState::AwaitingInput);
}

#[test]
fn definition_and_call_in_one_entry_are_submitted_as_typed() {
    let mut shell = Shell::new();
    assert_eq!(
        submitted(shell.read_line("function f(){return 1;} f();")),
        "function f(){return 1;} f();"
    );
}

#[test]
fn turns_are_not_merged_or_reordered() {
    let mut shell = Shell::new();
    assert_eq!(submitted(shell.read_line("f();\n")), "f();\n");
    assert_eq!(
        submitted(shell.read_line("function f(){return 1;}\n")),
        "function f(){return 1;}\n"
    );
}

#[test]
fn later_turn_sees_only_its_own_lines() {
    let mut shell = Shell::new();
    assert_eq!(submitted(shell.read_line("var x = 5;\n")), "var x = 5;\n");
    assert_eq!(submitted(shell.read_line("x;\n")), "x;\n");
}

#[test]
fn empty_line_is_an_entry_of_its_own() {
    let mut shell = Shell::new();
    assert_eq!(submitted(shell.read_line("\n")), "\n");
    assert_eq!(shell.current_state(), ShellState::AwaitingInput);
}

#[test]
fn shell_keeps_asking_while_a_bracket_is_open() {
    let mut shell = Shell::new();
    assert!(matches!(shell.read_line("var a = [\n"), Step::Continue));
    assert!(matches!(shell.read_line("1,\n"), Step::Continue));
    assert!(matches!(shell.read_line("foo(\n"), Step::Continue));
    assert!(matches!(shell.read_line(")\n"), Step::Continue));
    assert_eq!(shell.current_state(), ShellState::Continuation);
    assert_eq!(
        submitted(shell.read_line("];\n")),
        "var a = [\n1,\nfoo(\n)\n];\n"
    );
}
