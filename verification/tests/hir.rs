use wright::hir::{Event, Expr, GlobalVar, HirProgram, IfBranch, IrError, Rule, SourceFile, Span, Stmt};
use wright::ir::{BinaryOp, Position};

fn span(file: usize, start_line: u32, start_col: u32, end_col: u32) -> Span {
    Span::new(
        file,
        Position::new(start_line, start_col),
        Position::new(start_line, end_col),
    )
}

fn push<T>(arena: &mut Vec<T>, item: T) -> usize {
    arena.push(item);
    arena.len() - 1
}

/// One global `index`, one rule with a `while (index < 3) { index = index + 1 }` body.
fn build_hir_program() -> HirProgram {
    let mut program = HirProgram::new();
    let file = push(&mut program.files, SourceFile::new("source.opy"));
    let s = |line, col, end| span(file, line, col, end);

    let index = push(
        &mut program.globals,
        GlobalVar {
            name: "index".to_string(),
            index: None,
            span: Some(s(1, 1, 12)),
            name_span: Some(s(1, 10, 15)),
            initializer: None,
        },
    );
    let one = push(
        &mut program.exprs,
        Expr::Number { value_bits: 1.0f64.to_bits(), text: "1".to_string(), span: Some(s(3, 18, 20)) },
    );
    let index_ref = push(
        &mut program.exprs,
        Expr::GlobalVar { variable: index, span: Some(s(3, 9, 15)) },
    );
    let add = push(
        &mut program.exprs,
        Expr::Binary { op: BinaryOp::Add, left: index_ref, right: one, span: Some(s(3, 9, 20)) },
    );
    let three = push(
        &mut program.exprs,
        Expr::Number { value_bits: 3.0f64.to_bits(), text: "3".to_string(), span: Some(s(2, 19, 21)) },
    );
    let cond = push(
        &mut program.exprs,
        Expr::Binary { op: BinaryOp::Less, left: index_ref, right: three, span: Some(s(2, 11, 21)) },
    );
    let assign = push(
        &mut program.stmts,
        Stmt::Assign { target: index_ref, value: add, span: Some(s(3, 9, 20)) },
    );
    let while_stmt = push(
        &mut program.stmts,
        Stmt::While { condition: cond, body: vec![assign], span: Some(s(2, 5, 11)) },
    );
    program.rules.push(Rule {
        name: "loop".to_string(),
        span: Some(s(1, 1, 6)),
        name_span: Some(s(1, 6, 7)),
        disabled: false,
        event: Event { name: "global".to_string(), args: vec![], span: Some(s(1, 1, 2)) },
        conditions: vec![],
        actions: vec![while_stmt],
    });
    program
}

#[test]
fn hir_model_validates() {
    let program = build_hir_program();
    assert_eq!(program.validate(), Ok(()));
}

#[test]
fn hir_model_rejects_dangling_statement_reference() {
    let mut program = build_hir_program();
    let len = program.rules[0].actions.len();
    program.rules[0].actions = vec![len + 999];
    let error = program.validate().unwrap_err();
    assert_eq!(error.code(), "dangling-reference");
    assert!(matches!(error, IrError::DanglingReference { .. }));
    assert_eq!(error.message(), "dangling statement reference: id 1000");
}

#[test]
fn hir_model_rejects_dangling_symbol_reference() {
    let mut program = build_hir_program();
    let condition = push(
        &mut program.exprs,
        Expr::GlobalVar { variable: usize::MAX, span: None },
    );
    let action = program.rules[0].actions[0];
    if let Stmt::While { condition: cond, .. } = &mut program.stmts[action] {
        *cond = condition;
    }
    let error = program.validate().unwrap_err();
    assert_eq!(error.code(), "dangling-reference");
}

#[test]
fn hir_invalid_span_is_reported_with_its_place() {
    let mut program = build_hir_program();
    let reversed = Span::new(0, Position::new(2, 5), Position::new(1, 1));
    program.globals[0].span = Some(reversed);
    let error = program.validate().unwrap_err();
    assert_eq!(error.code(), "invalid-span");
    assert_eq!(error.span(), Some(reversed));
    assert_eq!(error.message(), "span end precedes start or a position is zero");
}

#[test]
fn hir_span_in_unknown_file_is_refused() {
    let mut program = build_hir_program();
    program.rules[0].span = Some(span(7, 1, 1, 2));
    let error = program.validate().unwrap_err();
    assert_eq!(error.code(), "invalid-span");
    assert_eq!(error.message(), "span references unknown file 7");
}

#[test]
fn hir_first_violation_in_declaration_order_wins() {
    let mut program = build_hir_program();
    // A dangling initializer on the global comes before the broken rule.
    program.globals[0].initializer = Some(500);
    program.rules[0].actions = vec![42];
    let error = program.validate().unwrap_err();
    assert_eq!(error, IrError::DanglingReference { what: "expression", id: 500 });
}

#[test]
fn hir_if_branches_are_checked_condition_then_body() {
    let mut program = build_hir_program();
    let truth = push(&mut program.exprs, Expr::Bool { value: true, span: None });
    let stmt = push(
        &mut program.stmts,
        Stmt::If {
            branches: vec![
                IfBranch { condition: truth, body: vec![77] },
                IfBranch { condition: 88, body: vec![] },
            ],
            else_body: None,
            span: None,
        },
    );
    program.rules[0].actions = vec![stmt];
    assert_eq!(
        program.validate(),
        Err(IrError::DanglingReference { what: "statement", id: 77 })
    );
}

#[test]
fn hir_self_referencing_expression_terminates() {
    let mut program = build_hir_program();
    // An array that contains itself: the walk runs out of fuel instead of
    // recursing forever, and finds nothing dangling.
    let me = program.exprs.len();
    program.exprs.push(Expr::Array { elements: vec![me], span: None });
    program.globals[0].initializer = Some(me);
    assert_eq!(program.validate(), Ok(()));
}

/// How the dump writes a number's value.
fn format_number(value: f64) -> String {
    if value == value.trunc() && value.abs() < 1e15 {
        format!("{value:.0}")
    } else {
        value.to_string()
    }
}

/// How each number expression of a program prints.
fn model_numbers(program: &HirProgram) -> Vec<String> {
    program
        .exprs
        .iter()
        .map(|e| match e {
            Expr::Number { value_bits, .. } => format_number(f64::from_bits(*value_bits)),
            _ => String::new(),
        })
        .collect()
}

#[test]
fn hir_model_validates_and_dumps_deterministically() {
    let program = build_hir_program();
    program
        .validate()
        .expect("directly built HIR must validate");

    let numbers = model_numbers(&program);
    let first = program.dump(&numbers);
    let second = program.dump(&numbers);
    assert_eq!(first, second);
    assert!(first.contains("globalVariable index"));
    assert!(first.contains("while (index < 3)"));
    assert!(first.contains("assign index = (index + 1)"));
}

#[test]
fn hir_dump_of_model_program_is_exact() {
    let program = build_hir_program();
    let numbers = model_numbers(&program);
    let expected = [
        "program (internal Opy HIR)",
        "files:",
        "  0 source.opy",
        "declarations:",
        "  globalVariable index (id 0) @0:1:1-1:12",
        "rules:",
        "  rule \"loop\" (id 0) @0:1:1-1:6",
        "    event global @0:1:1-1:2",
        "    while (index < 3) @0:2:5-2:11",
        "      assign index = (index + 1) @0:3:9-3:20",
        "",
    ]
    .join("\n");
    assert_eq!(program.dump(&numbers), expected);
}

#[test]
fn hir_dump_marks_dangling_references() {
    let mut program = build_hir_program();
    let ghost_global = push(&mut program.exprs, Expr::GlobalVar { variable: 9, span: None });
    let stmt = push(&mut program.stmts, Stmt::Expr { expr: ghost_global, span: None });
    program.rules[0].actions = vec![stmt, 40];
    let numbers = model_numbers(&program);
    let dump = program.dump(&numbers);
    assert!(dump.contains("    expr <dangling global 9>\n"));
    assert!(dump.contains("    <dangling stmt 40/>\n"));
}

#[test]
fn hir_dump_writes_branches_loops_and_macros() {
    let mut program = build_hir_program();
    program.macros.push(wright::hir::Macro {
        name: "twice".to_string(),
        args: vec!["a".to_string(), "b".to_string()],
        span: None,
        body: vec![],
    });
    let text = push(
        &mut program.exprs,
        Expr::String { value: "say \"hi\"".to_string(), span: None },
    );
    let truth = push(&mut program.exprs, Expr::Bool { value: true, span: None });
    let print = push(
        &mut program.exprs,
        Expr::Call { name: "print".to_string(), args: vec![text], span: None },
    );
    let say = push(&mut program.stmts, Stmt::Expr { expr: print, span: None });
    let pass = push(&mut program.stmts, Stmt::Pass { span: None });
    let stmt = push(
        &mut program.stmts,
        Stmt::If {
            branches: vec![
                IfBranch { condition: truth, body: vec![say] },
                IfBranch { condition: truth, body: vec![] },
            ],
            else_body: Some(vec![pass]),
            span: None,
        },
    );
    program.rules[0].actions = vec![stmt];
    let numbers = model_numbers(&program);
    let dump = program.dump(&numbers);
    assert!(dump.contains("  macro twice(a, b) (id 0)\n"));
    let expected_if = "    if\n      condition true\n        expr print(\"say \\\"hi\\\"\")\n      elif condition true\n      else\n        pass\n";
    assert!(dump.contains(expected_if), "{dump}");
}

#[test]
fn hir_dump_of_self_referencing_expression_terminates() {
    let mut program = build_hir_program();
    let me = program.exprs.len();
    program.exprs.push(Expr::Array { elements: vec![me], span: None });
    program.globals[0].initializer = Some(me);
    let numbers = model_numbers(&program);
    let dump = program.dump(&numbers);
    assert!(dump.contains("    initializer = [[[[[[]]]]]]\n"));
}

#[test]
fn hir_file_lookup_is_bounds_checked() {
    let program = build_hir_program();
    assert_eq!(program.file(0).map(|f| f.path.as_str()), Some("source.opy"));
    assert!(program.file(1).is_none());
}

#[test]
fn spans_require_end_not_before_start() {
    let file = 0;
    assert!(Span::new(file, Position::new(1, 1), Position::new(1, 5)).is_valid());
    assert!(Span::new(file, Position::new(1, 1), Position::new(2, 1)).is_valid());
    assert!(Span::new(file, Position::new(1, 1), Position::new(1, 1)).is_valid());
    assert!(!Span::new(file, Position::new(1, 5), Position::new(1, 1)).is_valid());
    assert!(!Span::new(file, Position::new(2, 1), Position::new(1, 1)).is_valid());
}

#[test]
fn source_files_carry_paths() {
    let file = SourceFile::new("source.opy");
    assert_eq!(file.path, "source.opy");
}
