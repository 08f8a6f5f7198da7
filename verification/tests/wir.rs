use wright::hir::{IrError, SourceFile, Span};
use wright::ir::{ModifyOp, Position};
use wright::settings::{Settings, SettingsListElement, SettingsNode};
use wright::wir::{Action, Event, IfBranch, Rule, Value, ValueNode, WirProgram, WorkshopVariable};

fn span(file: usize, start_line: u32, start_col: u32, end_col: u32) -> Span {
    Span::new(
        file,
        Position::new(start_line, start_col),
        Position::new(start_line, end_col),
    )
}

fn push<T>(table: &mut Vec<T>, item: T) -> usize {
    table.push(item);
    table.len() - 1
}

/// How the dump writes a number's value.
fn format_number(value: f64) -> String {
    if value == value.trunc() && value.abs() < 1e15 {
        format!("{value:.0}")
    } else {
        value.to_string()
    }
}

/// How each number value of a program prints.
fn numbers(program: &WirProgram) -> Vec<String> {
    program
        .values
        .iter()
        .map(|v| match v.value {
            Value::Number(bits) => format_number(f64::from_bits(bits)),
            _ => String::new(),
        })
        .collect()
}

/// One global variable, one rule with a `Set Global Variable` action.
fn build_wir_program() -> WirProgram {
    let mut program = WirProgram::new();
    let file = push(&mut program.files, SourceFile::new("source.opy"));
    let global = push(
        &mut program.global_variables,
        WorkshopVariable {
            name: "x".to_string(),
            index: 0,
            span: Some(span(file, 1, 1, 12)),
            name_span: Some(span(file, 1, 10, 11)),
            initializer: None,
        },
    );
    let value = push(&mut program.values, ValueNode::new(Value::Number(5.0f64.to_bits()), None));
    let action = push(
        &mut program.actions,
        Action::SetGlobalVariable {
            variable: global,
            value,
            span: Some(span(file, 2, 5, 24)),
            target_span: Some(span(file, 2, 5, 6)),
        },
    );
    program.rules.push(Rule {
        name: "init".to_string(),
        span: Some(span(file, 2, 1, 6)),
        name_span: Some(span(file, 2, 5, 6)),
        disabled: false,
        event: Event::Global,
        conditions: vec![],
        actions: vec![action],
    });
    program
}

#[test]
fn wir_model_validates_and_dumps_deterministically() {
    let program = build_wir_program();
    program
        .validate()
        .expect("directly built WIR must validate");

    let nums = numbers(&program);
    let first = program.dump(&nums);
    let second = program.dump(&nums);
    assert_eq!(first, second);
    assert!(first.contains("global variables:"));
    assert!(first.contains("x (index 0)"));
    assert!(first.contains("setGlobalVariable x = 5"));
}

#[test]
fn wir_model_rejects_dangling_action_reference() {
    let mut program = build_wir_program();
    program.rules[0].actions = vec![usize::MAX];
    let error = program.validate().unwrap_err();
    assert_eq!(error.code(), "dangling-reference");
}

#[test]
fn wir_model_rejects_dangling_variable_reference() {
    let mut program = build_wir_program();
    if let Action::SetGlobalVariable { variable, .. } = &mut program.actions[0] {
        *variable = 999;
    }
    let error = program.validate().unwrap_err();
    assert_eq!(error.code(), "dangling-reference");
    assert_eq!(error, IrError::DanglingReference { what: "global variable", id: 999 });
}

#[test]
fn wir_dump_of_model_program_is_exact() {
    let program = build_wir_program();
    let expected = [
        "program (Workshop IR)",
        "files:",
        "  0 source.opy",
        "global variables:",
        "  x (index 0) @0:1:1-1:12",
        "player variables:",
        "subroutines:",
        "rules:",
        "  rule \"init\" (id 0) @0:2:1-2:6",
        "    event Global",
        "    setGlobalVariable x = 5 @0:2:5-2:24",
        "",
    ]
    .join("\n");
    assert_eq!(program.dump(&numbers(&program)), expected);
}

#[test]
fn wir_settings_spans_are_checked_first_and_in_depth() {
    let mut program = build_wir_program();
    let bad = Span::new(0, Position::new(3, 1), Position::new(2, 1));
    program.settings = Some(Settings {
        span: Some(span(0, 5, 1, 10)),
        children: vec![SettingsNode::Group {
            name: "main".to_string(),
            children: vec![
                SettingsNode::Bool { name: "ok".to_string(), value: true, span: None },
                SettingsNode::List {
                    name: "maps".to_string(),
                    elements: vec![SettingsListElement { value: "a".to_string(), span: Some(bad) }],
                    span: None,
                },
            ],
            span: None,
        }],
    });
    // A dangling action too: the settings come first.
    program.rules[0].actions = vec![77];
    let error = program.validate().unwrap_err();
    assert_eq!(error.code(), "invalid-span");
    assert_eq!(error.span(), Some(bad));
}

#[test]
fn wir_settings_node_names_and_spans() {
    let node = SettingsNode::Number {
        name: "ffaSlots".to_string(),
        value_bits: 8.0f64.to_bits(),
        span: Some(span(0, 1, 1, 4)),
    };
    assert_eq!(node.name(), "ffaSlots");
    assert_eq!(node.span(), Some(span(0, 1, 1, 4)));
}

#[test]
fn wir_subroutine_event_must_name_a_subroutine() {
    let mut program = build_wir_program();
    program.rules[0].event = Event::Subroutine(3);
    assert_eq!(
        program.validate(),
        Err(IrError::DanglingReference { what: "subroutine", id: 3 })
    );
}

#[test]
fn wir_dump_writes_branches_loops_and_player_variables() {
    let mut program = build_wir_program();
    program.player_variables.push(WorkshopVariable {
        name: "hp".to_string(),
        index: 2,
        span: None,
        name_span: None,
        initializer: None,
    });
    let me = push(&mut program.values, ValueNode::new(Value::EventPlayer, None));
    let truth = push(&mut program.values, ValueNode::new(Value::Bool(true), None));
    let one = push(&mut program.values, ValueNode::new(Value::Number(1.5f64.to_bits()), None));
    let hp = push(
        &mut program.values,
        ValueNode::new(Value::PlayerVariable { player: me, variable: 0 }, None),
    );
    let modify = push(
        &mut program.actions,
        Action::ModifyPlayerVariable {
            player: me,
            variable: 0,
            op: ModifyOp::Add,
            value: one,
            span: None,
            target_span: None,
        },
    );
    let show = push(&mut program.actions, Action::Debug { value: hp, span: None });
    let branch = push(
        &mut program.actions,
        Action::If {
            branches: vec![IfBranch { condition: truth, body: vec![modify] }],
            else_body: Some(vec![show, 55]),
            span: None,
        },
    );
    program.rules[0].actions = vec![branch];
    let dump = program.dump(&numbers(&program));
    let expected = "    if\n      condition true\n        modifyPlayerVariable eventPlayer.hp Add 1.5\n      else\n        debug eventPlayer.hp\n        <dangling action 55/>\n";
    assert!(dump.contains(expected), "{dump}");
    assert!(dump.contains("  hp (index 2)\n"));
}

#[test]
fn wir_cyclic_values_terminate() {
    let mut program = build_wir_program();
    let me = program.values.len();
    program.values.push(ValueNode::new(Value::Array(vec![me]), None));
    program.global_variables[0].initializer = Some(me);
    assert_eq!(program.validate(), Ok(()));
    let dump = program.dump(&numbers(&program));
    assert!(dump.contains("    initializer = [[]]\n"), "{dump}");
}
