use wright::hir::{
    Event, Expr, GlobalVar, HirProgram, Macro, PlayerVar, Rule, SourceFile, Span, Stmt, Subroutine,
    SubroutineBody,
};
use wright::ir::{BinaryOp, ModifyOp, Position};
use wright::lower::lower;
use wright::wir::{Action, Event as WEvent, Value};

fn span(line: u32, col: u32, end_col: u32) -> Span {
    Span::new(0, Position::new(line, col), Position::new(line, end_col))
}

fn push<T>(arena: &mut Vec<T>, item: T) -> usize {
    arena.push(item);
    arena.len() - 1
}

fn global(name: &str, index: Option<u32>, initializer: Option<usize>) -> GlobalVar {
    GlobalVar { name: name.to_string(), index, span: None, name_span: None, initializer }
}

fn number(program: &mut HirProgram, value: f64) -> usize {
    push(
        &mut program.exprs,
        Expr::Number { value_bits: value.to_bits(), text: value.to_string(), span: None },
    )
}

fn rule(name: &str, event: &str, actions: Vec<usize>) -> Rule {
    Rule {
        name: name.to_string(),
        span: None,
        name_span: None,
        disabled: false,
        event: Event { name: event.to_string(), args: vec![], span: Some(span(1, 1, 10)) },
        conditions: vec![],
        actions,
    }
}

fn base() -> HirProgram {
    let mut program = HirProgram::new();
    program.files.push(SourceFile::new("source.opy"));
    program
}

#[test]
fn unindexed_globals_take_the_lowest_free_slot_and_the_table_is_ordered_by_slot() {
    let mut program = base();
    program.globals.push(global("total", None, None));
    program.globals.push(global("I", Some(8), None));
    program.globals.push(global("first", Some(0), None));
    program.globals.push(global("next", None, None));
    let w = lower(&program).expect("lowers");
    let table: Vec<(String, u32)> =
        w.global_variables.iter().map(|v| (v.name.clone(), v.index)).collect();
    assert_eq!(
        table,
        vec![
            ("first".to_string(), 0),
            ("total".to_string(), 1),
            ("next".to_string(), 2),
            ("I".to_string(), 8)
        ]
    );
}

#[test]
fn player_variables_and_subroutines_keep_table_order() {
    let mut program = base();
    program.players.push(PlayerVar { name: "a".to_string(), index: Some(5), span: None, initializer: None });
    program.players.push(PlayerVar { name: "b".to_string(), index: None, span: None, initializer: None });
    program.subroutines.push(Subroutine { name: "s".to_string(), index: None, decl_span: None, body: None });
    let w = lower(&program).expect("lowers");
    assert_eq!(w.player_variables[0].index, 5);
    assert_eq!(w.player_variables[1].index, 1);
    assert_eq!(w.subroutines[0].name, "s");
    assert_eq!(w.subroutines[0].index, 0);
    assert!(w.rules.is_empty());
}

#[test]
fn initializers_become_initialize_rules_before_subroutines_and_rules() {
    let mut program = base();
    let seven = number(&mut program, 7.0);
    program.globals.push(global("total", None, Some(seven)));
    let two = number(&mut program, 2.0);
    program.players.push(PlayerVar { name: "score".to_string(), index: None, span: None, initializer: Some(two) });
    let pass = push(&mut program.stmts, Stmt::Pass { span: None });
    program.subroutines.push(Subroutine {
        name: "reset".to_string(),
        index: None,
        decl_span: None,
        body: Some(SubroutineBody { span: None, statements: vec![pass] }),
    });
    program.rules.push(rule("main", "global", vec![]));
    let w = lower(&program).expect("lowers");
    let names: Vec<&str> = w.rules.iter().map(|r| r.name.as_str()).collect();
    assert_eq!(
        names,
        vec!["Initialize global variables", "Initialize player variables", "Subroutine reset", "main"]
    );
    assert_eq!(w.rules[0].event, WEvent::Global);
    assert_eq!(w.rules[1].event, WEvent::EachPlayer);
    assert_eq!(w.rules[2].event, WEvent::Subroutine(0));
    // `pass` is dropped.
    assert!(w.rules[2].actions.is_empty());
    match &w.actions[w.rules[0].actions[0]] {
        Action::SetGlobalVariable { variable, value, .. } => {
            assert_eq!(*variable, 0);
            assert!(matches!(w.values[*value].value, Value::Number(b) if b == 7.0f64.to_bits()));
        }
        other => panic!("unexpected {other:?}"),
    }
    match &w.actions[w.rules[1].actions[0]] {
        Action::SetPlayerVariable { player, variable, .. } => {
            assert_eq!(*variable, 0);
            assert!(matches!(w.values[*player].value, Value::EventPlayer));
        }
        other => panic!("unexpected {other:?}"),
    }
}

#[test]
fn self_referencing_assignments_become_modify_actions() {
    let mut program = base();
    let x = push(&mut program.globals, global("x", None, None));
    let target = push(&mut program.exprs, Expr::GlobalVar { variable: x, span: Some(span(2, 1, 2)) });
    let read = push(&mut program.exprs, Expr::GlobalVar { variable: x, span: None });
    let one = number(&mut program, 1.0);
    let sum = push(
        &mut program.exprs,
        Expr::Binary { op: BinaryOp::Add, left: read, right: one, span: None },
    );
    let compare = push(
        &mut program.exprs,
        Expr::Binary { op: BinaryOp::Less, left: read, right: one, span: None },
    );
    let modify = push(&mut program.stmts, Stmt::Assign { target, value: sum, span: None });
    let set = push(&mut program.stmts, Stmt::Assign { target, value: compare, span: None });
    program.rules.push(rule("r", "global", vec![modify, set]));
    let w = lower(&program).expect("lowers");
    let actions = &w.rules[0].actions;
    match &w.actions[actions[0]] {
        Action::ModifyGlobalVariable { op, value, target_span, .. } => {
            assert_eq!(*op, ModifyOp::Add);
            assert!(matches!(w.values[*value].value, Value::Number(b) if b == 1.0f64.to_bits()));
            assert_eq!(*target_span, Some(span(2, 1, 2)));
        }
        other => panic!("unexpected {other:?}"),
    }
    match &w.actions[actions[1]] {
        Action::SetGlobalVariable { value, .. } => match &w.values[*value].value {
            Value::Call { name, args } => {
                assert_eq!(name, "<");
                assert_eq!(args.len(), 2);
            }
            other => panic!("unexpected {other:?}"),
        },
        other => panic!("unexpected {other:?}"),
    }
}

#[test]
fn range_loops_lower_to_for_global_variable_with_default_bounds() {
    let mut program = base();
    let i = push(&mut program.globals, global("i", None, None));
    let three = number(&mut program, 3.0);
    let range = push(
        &mut program.exprs,
        Expr::Call { name: "range".to_string(), args: vec![three], span: None },
    );
    let message = push(&mut program.exprs, Expr::String { value: "hi".to_string(), span: None });
    let print = push(
        &mut program.exprs,
        Expr::Call { name: "print".to_string(), args: vec![message], span: None },
    );
    let body = push(&mut program.stmts, Stmt::Expr { expr: print, span: None });
    let for_stmt = push(
        &mut program.stmts,
        Stmt::For { variable: i, iterable: range, body: vec![body], span: None },
    );
    program.rules.push(rule("r", "eachPlayer", vec![for_stmt]));
    let w = lower(&program).expect("lowers");
    match &w.actions[w.rules[0].actions[0]] {
        Action::ForGlobalVariable { variable, start, stop, step, body, .. } => {
            assert_eq!(*variable, 0);
            assert!(matches!(w.values[*start].value, Value::Number(0)));
            assert!(matches!(w.values[*stop].value, Value::Number(b) if b == 3.0f64.to_bits()));
            assert!(matches!(w.values[*step].value, Value::Number(b) if b == 1.0f64.to_bits()));
            assert!(matches!(w.actions[body[0]], Action::Print { .. }));
        }
        other => panic!("unexpected {other:?}"),
    }
}

#[test]
fn macro_calls_expand_with_their_arguments() {
    let mut program = base();
    let param = push(&mut program.exprs, Expr::MacroParam { name: "a".to_string(), span: None });
    let body_expr = push(
        &mut program.exprs,
        Expr::Unary { op: wright::ir::UnaryOp::Negate, operand: param, span: None },
    );
    let body = push(&mut program.stmts, Stmt::Expr { expr: body_expr, span: None });
    let m = push(
        &mut program.macros,
        Macro { name: "neg".to_string(), args: vec!["a".to_string()], span: None, body: vec![body] },
    );
    let five = number(&mut program, 5.0);
    let call = push(&mut program.exprs, Expr::MacroCall { macro_: m, args: vec![five], span: None });
    let debug = push(
        &mut program.exprs,
        Expr::Call { name: "debug".to_string(), args: vec![call], span: None },
    );
    let stmt = push(&mut program.stmts, Stmt::Expr { expr: debug, span: None });
    program.rules.push(rule("r", "global", vec![stmt]));
    let w = lower(&program).expect("lowers");
    match &w.actions[w.rules[0].actions[0]] {
        Action::Debug { value, .. } => match &w.values[*value].value {
            Value::Call { name, args } => {
                assert_eq!(name, "-");
                assert!(matches!(w.values[args[0]].value, Value::Number(b) if b == 5.0f64.to_bits()));
            }
            other => panic!("unexpected {other:?}"),
        },
        other => panic!("unexpected {other:?}"),
    }
}

#[test]
fn events_outside_the_surface_are_refused() {
    let mut program = base();
    program.rules.push(rule("r", "playerDied", vec![]));
    let e = lower(&program).expect_err("refused");
    assert_eq!(e.code(), "unsupported");
    assert_eq!(e.message(), "event 'playerDied' is outside the v0.1 lowering surface");
    assert_eq!(e.span(), Some(span(1, 1, 10)));
}

#[test]
fn a_missing_statement_is_a_dangling_reference() {
    let mut program = base();
    program.rules.push(rule("r", "global", vec![4]));
    let e = lower(&program).expect_err("refused");
    assert_eq!(e.code(), "dangling-reference");
    assert_eq!(e.message(), "dangling statement reference: id 4");
}

#[test]
fn a_wrong_macro_arity_is_refused() {
    let mut program = base();
    let param = push(&mut program.exprs, Expr::MacroParam { name: "a".to_string(), span: None });
    let body = push(&mut program.stmts, Stmt::Expr { expr: param, span: None });
    let m = push(
        &mut program.macros,
        Macro { name: "id".to_string(), args: vec!["a".to_string()], span: None, body: vec![body] },
    );
    let call = push(&mut program.exprs, Expr::MacroCall { macro_: m, args: vec![], span: None });
    let debug = push(
        &mut program.exprs,
        Expr::Call { name: "debug".to_string(), args: vec![call], span: None },
    );
    let stmt = push(&mut program.stmts, Stmt::Expr { expr: debug, span: None });
    program.rules.push(rule("r", "global", vec![stmt]));
    let e = lower(&program).expect_err("refused");
    assert_eq!(e.code(), "unsupported");
    assert_eq!(e.message(), "macro 'id' expects 1 arguments, got 0");
}

#[test]
fn a_macro_call_is_no_statement() {
    let mut program = base();
    let param = push(&mut program.exprs, Expr::MacroParam { name: "a".to_string(), span: None });
    let body = push(&mut program.stmts, Stmt::Expr { expr: param, span: None });
    let m = push(
        &mut program.macros,
        Macro { name: "id".to_string(), args: vec!["a".to_string()], span: None, body: vec![body] },
    );
    let call = push(&mut program.exprs, Expr::MacroCall { macro_: m, args: vec![], span: None });
    let stmt = push(&mut program.stmts, Stmt::Expr { expr: call, span: None });
    program.rules.push(rule("r", "global", vec![stmt]));
    let e = lower(&program).expect_err("refused");
    assert_eq!(e.message(), "expression statement 'macroCall' is outside the v0.1 lowering surface");
}
