//! The Workshop IR model and its structural validation.
//!
//! Variables, subroutines, rules, values and actions live in append-only
//! tables and refer to each other by index. Validation checks the settings
//! carrier, the variables, the subroutines and the rules in that order,
//! depth first, and reports the first dangling reference or invalid span it
//! meets. Like the HIR walk, the value and action walks carry fuel: as many
//! steps as their table has entries.

pub mod dump;

use vstd::prelude::*;

use crate::hir::{
    Fault, IrError, SourceFile, Span, check_span_in, dangling, first, first_fault,
    lemma_first_fault_persists, outcome, span_fault_in,
};
use crate::ir::ModifyOp;
use crate::settings::{Settings, SettingsListElement, SettingsNode, settings_node_span};


verus! {

broadcast use vstd::string::group_string_axioms;

// ---------------------------------------------------------------------------
// The model.
// ---------------------------------------------------------------------------

/// A workshop global or player variable.
#[derive(Debug, Clone)]
pub struct WorkshopVariable {
    pub name: String,
    /// The Workshop variable index.
    pub index: u32,
    pub span: Option<Span>,
    pub name_span: Option<Span>,
    /// The value the variable starts with, when it has one.
    pub initializer: Option<usize>,
}

/// A workshop subroutine.
#[derive(Debug, Clone)]
pub struct WorkshopSubroutine {
    pub name: String,
    pub index: u32,
    pub span: Option<Span>,
    pub name_span: Option<Span>,
}

/// A workshop event.
#[derive(Debug, Clone, Copy, PartialEq, Eq, Structural)]
pub enum Event {
    /// `Ongoing - Global`.
    Global,
    /// `Ongoing - Each Player`.
    EachPlayer,
    /// A subroutine body, naming the subroutine.
    Subroutine(usize),
}

/// A workshop rule.
#[derive(Debug, Clone)]
pub struct Rule {
    pub name: String,
    pub span: Option<Span>,
    pub name_span: Option<Span>,
    pub disabled: bool,
    pub event: Event,
    pub conditions: Vec<usize>,
    pub actions: Vec<usize>,
}

/// A workshop value (expression). A number is held by the bit pattern of
/// its float value (`f64::to_bits`).
#[derive(Debug, Clone)]
pub enum Value {
    Number(u64),
    String(String),
    Bool(bool),
    Null,
    Array(Vec<usize>),
    Vector { x: usize, y: usize, z: usize },
    /// A built-in enumerated value, such as `Team.ALL`.
    Enum { value_type: String, value: String },
    GlobalVariable(usize),
    PlayerVariable { player: usize, variable: usize },
    EventPlayer,
    /// A function call over workshop values.
    Call { name: String, args: Vec<usize> },
}

/// A workshop value with its source span.
#[derive(Debug, Clone)]
pub struct ValueNode {
    pub value: Value,
    pub span: Option<Span>,
}

impl ValueNode {
    /// A value node with a source span.
    pub fn new(value: Value, span: Option<Span>) -> (n: ValueNode)
        ensures
            n.value == value,
            n.span == span,
    {
        ValueNode { value, span }
    }
}

/// One condition/body pair of an `If` action.
#[derive(Debug, Clone)]
pub struct IfBranch {
    pub condition: usize,
    pub body: Vec<usize>,
}

/// A workshop action.
#[derive(Debug, Clone)]
pub enum Action {
    SetGlobalVariable { variable: usize, value: usize, span: Option<Span>, target_span: Option<Span> },
    ModifyGlobalVariable {
        variable: usize,
        op: ModifyOp,
        value: usize,
        span: Option<Span>,
        target_span: Option<Span>,
    },
    SetPlayerVariable {
        player: usize,
        variable: usize,
        value: usize,
        span: Option<Span>,
        target_span: Option<Span>,
    },
    ModifyPlayerVariable {
        player: usize,
        variable: usize,
        op: ModifyOp,
        value: usize,
        span: Option<Span>,
        target_span: Option<Span>,
    },
    CallSubroutine { subroutine: usize, span: Option<Span>, callee_span: Option<Span> },
    If { branches: Vec<IfBranch>, else_body: Option<Vec<usize>>, span: Option<Span> },
    While { condition: usize, body: Vec<usize>, span: Option<Span> },
    ForGlobalVariable {
        variable: usize,
        start: usize,
        stop: usize,
        step: usize,
        body: Vec<usize>,
        span: Option<Span>,
        target_span: Option<Span>,
    },
    /// The `debug(value)` HUD debug effect.
    Debug { value: usize, span: Option<Span> },
    /// The `print(message)` HUD message effect.
    Print { message: usize, span: Option<Span> },
    /// Any other action call with side effects.
    Call { name: String, args: Vec<usize>, span: Option<Span> },
}

/// The source span of an action.
pub open spec fn action_span(a: Action) -> Option<Span> {
    match a {
        Action::SetGlobalVariable { span, .. } => span,
        Action::ModifyGlobalVariable { span, .. } => span,
        Action::SetPlayerVariable { span, .. } => span,
        Action::ModifyPlayerVariable { span, .. } => span,
        Action::CallSubroutine { span, .. } => span,
        Action::If { span, .. } => span,
        Action::While { span, .. } => span,
        Action::ForGlobalVariable { span, .. } => span,
        Action::Debug { span, .. } => span,
        Action::Print { span, .. } => span,
        Action::Call { span, .. } => span,
    }
}

impl Action {
    /// The source span of this action, if any.
    pub fn span(&self) -> (r: Option<Span>)
        ensures
            r == action_span(*self),
    {
        match self {
            Action::SetGlobalVariable { span, .. } => *span,
            Action::ModifyGlobalVariable { span, .. } => *span,
            Action::SetPlayerVariable { span, .. } => *span,
            Action::ModifyPlayerVariable { span, .. } => *span,
            Action::CallSubroutine { span, .. } => *span,
            Action::If { span, .. } => *span,
            Action::While { span, .. } => *span,
            Action::ForGlobalVariable { span, .. } => *span,
            Action::Debug { span, .. } => *span,
            Action::Print { span, .. } => *span,
            Action::Call { span, .. } => *span,
        }
    }
}

/// A Workshop IR program: its file registry, settings carrier, variable and
/// subroutine tables, rules, and the value and action tables they refer to.
#[derive(Debug)]
pub struct WirProgram {
    pub files: Vec<SourceFile>,
    pub settings: Option<Settings>,
    pub global_variables: Vec<WorkshopVariable>,
    pub player_variables: Vec<WorkshopVariable>,
    pub subroutines: Vec<WorkshopSubroutine>,
    pub rules: Vec<Rule>,
    pub values: Vec<ValueNode>,
    pub actions: Vec<Action>,
}

impl WirProgram {
    /// An empty program.
    pub fn new() -> (p: WirProgram)
        ensures
            p.files@.len() == 0 && p.settings is None,
            p.global_variables@.len() == 0 && p.player_variables@.len() == 0,
            p.subroutines@.len() == 0 && p.rules@.len() == 0,
            p.values@.len() == 0 && p.actions@.len() == 0,
    {
        WirProgram {
            files: Vec::new(),
            settings: None,
            global_variables: Vec::new(),
            player_variables: Vec::new(),
            subroutines: Vec::new(),
            rules: Vec::new(),
            values: Vec::new(),
            actions: Vec::new(),
        }
    }
}


// ---------------------------------------------------------------------------
// What validation finds.
// ---------------------------------------------------------------------------

/// The fuel of a value walk: the number of values.
pub open spec fn value_fuel(p: WirProgram) -> nat {
    p.values@.len()
}

/// The fuel of an action walk: the number of actions.
pub open spec fn action_fuel(p: WirProgram) -> nat {
    p.actions@.len()
}

/// A span that is invalid or names an unregistered file.
pub open spec fn wir_span_fault(p: WirProgram, span: Option<Span>) -> Option<Fault> {
    span_fault_in(p.files@.len(), span)
}

pub open spec fn global_ref_fault(p: WirProgram, variable: usize) -> Option<Fault> {
    if variable >= p.global_variables@.len() {
        Some(dangling("global variable"@, variable as int))
    } else {
        None
    }
}

pub open spec fn player_ref_fault(p: WirProgram, variable: usize) -> Option<Fault> {
    if variable >= p.player_variables@.len() {
        Some(dangling("player variable"@, variable as int))
    } else {
        None
    }
}

pub open spec fn subroutine_ref_fault(p: WirProgram, subroutine: usize) -> Option<Fault> {
    if subroutine >= p.subroutines@.len() {
        Some(dangling("subroutine"@, subroutine as int))
    } else {
        None
    }
}

/// The values a value refers to, in the order they are checked.
pub open spec fn value_refs(v: Value) -> Seq<usize> {
    match v {
        Value::Array(elements) => elements@,
        Value::Vector { x, y, z } => seq![x, y, z],
        Value::PlayerVariable { player, .. } => seq![player],
        Value::Call { args, .. } => args@,
        _ => Seq::<usize>::empty(),
    }
}

/// The first violation in a value: a dangling index, its span, then its
/// operands in order (a player variable checks its player, then the
/// variable).
pub open spec fn value_fault(p: WirProgram, id: int, fuel: nat) -> Option<Fault>
    decreases fuel, 0nat,
{
    if !(0 <= id < p.values@.len()) {
        Some(dangling("value"@, id))
    } else if fuel == 0 {
        None
    } else {
        let node = p.values@[id];
        match wir_span_fault(p, node.span) {
            Some(f) => Some(f),
            None => match node.value {
                Value::PlayerVariable { player, variable } => match value_fault(
                    p,
                    player as int,
                    (fuel - 1) as nat,
                ) {
                    Some(f) => Some(f),
                    None => player_ref_fault(p, variable),
                },
                Value::GlobalVariable(variable) => global_ref_fault(p, variable),
                _ => values_fault(p, value_refs(node.value), (fuel - 1) as nat),
            },
        }
    }
}

/// The first violation in a list of values.
pub open spec fn values_fault(p: WirProgram, ids: Seq<usize>, fuel: nat) -> Option<Fault>
    decreases fuel, ids.len() + 1,
{
    if ids.len() == 0 {
        None
    } else {
        match values_fault(p, ids.drop_last(), fuel) {
            Some(f) => Some(f),
            None => value_fault(p, ids.last() as int, fuel),
        }
    }
}

/// The first violation in an action: a dangling index, its span, then its
/// variable, values and nested actions in order.
pub open spec fn action_fault(p: WirProgram, id: int, fuel: nat) -> Option<Fault>
    decreases fuel, 1nat, 0nat,
{
    if !(0 <= id < p.actions@.len()) {
        Some(dangling("action"@, id))
    } else if fuel == 0 {
        None
    } else {
        let a = p.actions@[id];
        first(wir_span_fault(p, action_span(a)), action_body_fault(p, a, (fuel - 1) as nat))
    }
}

/// The part of an action's finding that follows its span, with nested
/// actions checked with fuel `f`.
pub open spec fn action_body_fault(p: WirProgram, a: Action, f: nat) -> Option<Fault>
    decreases f + 1, 0nat, 0nat,
{
    let vf = value_fuel(p);
    match a {
        Action::SetGlobalVariable { variable, value, .. } => first(
            global_ref_fault(p, variable),
            value_fault(p, value as int, vf),
        ),
        Action::ModifyGlobalVariable { variable, value, .. } => first(
            global_ref_fault(p, variable),
            value_fault(p, value as int, vf),
        ),
        Action::SetPlayerVariable { player, variable, value, .. } => first(
            value_fault(p, player as int, vf),
            first(player_ref_fault(p, variable), value_fault(p, value as int, vf)),
        ),
        Action::ModifyPlayerVariable { player, variable, value, .. } => first(
            value_fault(p, player as int, vf),
            first(player_ref_fault(p, variable), value_fault(p, value as int, vf)),
        ),
        Action::CallSubroutine { subroutine, .. } => subroutine_ref_fault(p, subroutine),
        Action::If { branches, else_body, .. } => first(
            branches_fault(p, branches@, f),
            match else_body {
                Some(b) => actions_fault(p, b@, f),
                None => None,
            },
        ),
        Action::While { condition, body, .. } => first(
            value_fault(p, condition as int, vf),
            actions_fault(p, body@, f),
        ),
        Action::ForGlobalVariable { variable, start, stop, step, body, .. } => first(
            global_ref_fault(p, variable),
            first(values_fault(p, seq![start, stop, step], vf), actions_fault(p, body@, f)),
        ),
        Action::Debug { value, .. } => value_fault(p, value as int, vf),
        Action::Print { message, .. } => value_fault(p, message as int, vf),
        Action::Call { args, .. } => values_fault(p, args@, vf),
    }
}

/// The first violation in a list of actions.
pub open spec fn actions_fault(p: WirProgram, ids: Seq<usize>, fuel: nat) -> Option<Fault>
    decreases fuel, 2nat, ids.len(),
{
    if ids.len() == 0 {
        None
    } else {
        first(actions_fault(p, ids.drop_last(), fuel), action_fault(p, ids.last() as int, fuel))
    }
}

/// The first violation in the branches of an `If`: each condition, then its
/// body.
pub open spec fn branches_fault(p: WirProgram, bs: Seq<IfBranch>, fuel: nat) -> Option<Fault>
    decreases fuel, 3nat, bs.len(),
{
    if bs.len() == 0 {
        None
    } else {
        first(
            branches_fault(p, bs.drop_last(), fuel),
            first(
                value_fault(p, bs.last().condition as int, value_fuel(p)),
                actions_fault(p, bs.last().body@, fuel),
            ),
        )
    }
}

/// The first invalid span among the elements of a settings list.
pub open spec fn elements_fault(p: WirProgram, es: Seq<SettingsListElement>) -> Option<Fault>
    decreases es.len(),
{
    if es.len() == 0 {
        None
    } else {
        first(elements_fault(p, es.drop_last()), wir_span_fault(p, es.last().span))
    }
}

/// The first invalid span in a settings node and its members.
pub open spec fn settings_node_fault(p: WirProgram, n: SettingsNode) -> Option<Fault>
    decreases n,
{
    first(
        wir_span_fault(p, settings_node_span(n)),
        match n {
            SettingsNode::Group { children, .. } => settings_nodes_fault(p, children@),
            SettingsNode::List { elements, .. } => elements_fault(p, elements@),
            _ => None,
        },
    )
}

/// The first invalid span among settings nodes.
pub open spec fn settings_nodes_fault(p: WirProgram, ns: Seq<SettingsNode>) -> Option<Fault>
    decreases ns,
{
    if ns.len() == 0 {
        None
    } else {
        first(settings_nodes_fault(p, ns.drop_last()), settings_node_fault(p, ns.last()))
    }
}

/// The first invalid span in the settings carrier.
pub open spec fn settings_fault(p: WirProgram, s: Settings) -> Option<Fault> {
    first(wir_span_fault(p, s.span), settings_nodes_fault(p, s.children@))
}

pub open spec fn variable_fault(p: WirProgram, v: WorkshopVariable) -> Option<Fault> {
    first(
        wir_span_fault(p, v.span),
        match v.initializer {
            Some(i) => value_fault(p, i as int, value_fuel(p)),
            None => None,
        },
    )
}

pub open spec fn wir_subroutine_fault(p: WirProgram, s: WorkshopSubroutine) -> Option<Fault> {
    wir_span_fault(p, s.span)
}

pub open spec fn event_fault(p: WirProgram, e: Event) -> Option<Fault> {
    match e {
        Event::Subroutine(s) => subroutine_ref_fault(p, s),
        _ => None,
    }
}

pub open spec fn wir_rule_fault(p: WirProgram, r: Rule) -> Option<Fault> {
    first(
        wir_span_fault(p, r.span),
        first(
            event_fault(p, r.event),
            first(
                values_fault(p, r.conditions@, value_fuel(p)),
                actions_fault(p, r.actions@, action_fuel(p)),
            ),
        ),
    )
}

/// The first violation of a program: its settings, global and player
/// variables, subroutines and rules, in that order.
pub open spec fn wir_validation_fault(p: WirProgram) -> Option<Fault> {
    first(
        match p.settings {
            Some(s) => settings_fault(p, s),
            None => None,
        },
        first(
            first_fault(p.global_variables@, |v: WorkshopVariable| variable_fault(p, v)),
            first(
                first_fault(p.player_variables@, |v: WorkshopVariable| variable_fault(p, v)),
                first(
                    first_fault(p.subroutines@, |s: WorkshopSubroutine| wir_subroutine_fault(p, s)),
                    first_fault(p.rules@, |r: Rule| wir_rule_fault(p, r)),
                ),
            ),
        ),
    )
}


// ---------------------------------------------------------------------------
// Checking values and actions.
// ---------------------------------------------------------------------------

fn check_span(p: &WirProgram, span: Option<Span>) -> (r: Result<(), IrError>)
    ensures
        outcome(r, wir_span_fault(*p, span)),
{
    check_span_in(p.files.len(), span)
}

fn check_global_ref(p: &WirProgram, variable: usize) -> (r: Result<(), IrError>)
    ensures
        outcome(r, global_ref_fault(*p, variable)),
{
    if variable >= p.global_variables.len() {
        return Err(IrError::DanglingReference { what: "global variable", id: variable as u32 });
    }
    Ok(())
}

fn check_player_ref(p: &WirProgram, variable: usize) -> (r: Result<(), IrError>)
    ensures
        outcome(r, player_ref_fault(*p, variable)),
{
    if variable >= p.player_variables.len() {
        return Err(IrError::DanglingReference { what: "player variable", id: variable as u32 });
    }
    Ok(())
}

fn check_subroutine_ref(p: &WirProgram, subroutine: usize) -> (r: Result<(), IrError>)
    ensures
        outcome(r, subroutine_ref_fault(*p, subroutine)),
{
    if subroutine >= p.subroutines.len() {
        return Err(IrError::DanglingReference { what: "subroutine", id: subroutine as u32 });
    }
    Ok(())
}

/// Once a prefix of a list has a violation, the whole list has it.
proof fn lemma_values_fault_persists(p: WirProgram, ids: Seq<usize>, k: int, fuel: nat)
    requires
        0 <= k <= ids.len(),
        values_fault(p, ids.take(k), fuel) is Some,
    ensures
        values_fault(p, ids, fuel) == values_fault(p, ids.take(k), fuel),
    decreases ids.len() - k,
{
    if k < ids.len() {
        assert(ids.take(k + 1).drop_last() =~= ids.take(k));
        lemma_values_fault_persists(p, ids, k + 1, fuel);
    } else {
        assert(ids.take(k) =~= ids);
    }
}

fn check_value(p: &WirProgram, id: usize, fuel: usize) -> (r: Result<(), IrError>)
    ensures
        outcome(r, value_fault(*p, id as int, fuel as nat)),
    decreases fuel, 0nat,
{
    if id >= p.values.len() {
        return Err(IrError::DanglingReference { what: "value", id: id as u32 });
    }
    if fuel == 0 {
        return Ok(());
    }
    let node = &p.values[id];
    match check_span(p, node.span) {
        Err(x) => {
            return Err(x);
        },
        Ok(()) => {},
    }
    match &node.value {
        Value::PlayerVariable { player, variable } => {
            match check_value(p, *player, fuel - 1) {
                Err(x) => {
                    return Err(x);
                },
                Ok(()) => {},
            }
            check_player_ref(p, *variable)
        },
        Value::GlobalVariable(variable) => check_global_ref(p, *variable),
        Value::Array(elements) => check_values(p, elements.as_slice(), fuel - 1),
        Value::Call { args, .. } => check_values(p, args.as_slice(), fuel - 1),
        Value::Vector { x, y, z } => {
            let v: Vec<usize> = vec![*x, *y, *z];
            assert(v@ =~= value_refs(node.value));
            check_values(p, v.as_slice(), fuel - 1)
        },
        _ => {
            assert(value_refs(node.value).len() == 0);
            assert(values_fault(*p, value_refs(node.value), (fuel - 1) as nat) is None);
            Ok(())
        },
    }
}

fn check_values(p: &WirProgram, ids: &[usize], fuel: usize) -> (r: Result<(), IrError>)
    ensures
        outcome(r, values_fault(*p, ids@, fuel as nat)),
    decreases fuel, ids@.len() + 1,
{
    let mut k: usize = 0;
    while k < ids.len()
        invariant
            k <= ids@.len(),
            values_fault(*p, ids@.take(k as int), fuel as nat) is None,
        decreases ids@.len() - k,
    {
        assert(ids@.take(k + 1).drop_last() =~= ids@.take(k as int));
        match check_value(p, ids[k], fuel) {
            Err(x) => {
                proof {
                    lemma_values_fault_persists(*p, ids@, k + 1, fuel as nat);
                }
                return Err(x);
            },
            Ok(()) => {},
        }
        k = k + 1;
    }
    assert(ids@.take(k as int) =~= ids@);
    Ok(())
}

proof fn lemma_actions_fault_persists(p: WirProgram, ids: Seq<usize>, k: int, fuel: nat)
    requires
        0 <= k <= ids.len(),
        actions_fault(p, ids.take(k), fuel) is Some,
    ensures
        actions_fault(p, ids, fuel) == actions_fault(p, ids.take(k), fuel),
    decreases ids.len() - k,
{
    if k < ids.len() {
        assert(ids.take(k + 1).drop_last() =~= ids.take(k));
        lemma_actions_fault_persists(p, ids, k + 1, fuel);
    } else {
        assert(ids.take(k) =~= ids);
    }
}

proof fn lemma_branches_fault_persists(p: WirProgram, bs: Seq<IfBranch>, k: int, fuel: nat)
    requires
        0 <= k <= bs.len(),
        branches_fault(p, bs.take(k), fuel) is Some,
    ensures
        branches_fault(p, bs, fuel) == branches_fault(p, bs.take(k), fuel),
    decreases bs.len() - k,
{
    if k < bs.len() {
        assert(bs.take(k + 1).drop_last() =~= bs.take(k));
        lemma_branches_fault_persists(p, bs, k + 1, fuel);
    } else {
        assert(bs.take(k) =~= bs);
    }
}

fn check_action(p: &WirProgram, id: usize, fuel: usize) -> (r: Result<(), IrError>)
    ensures
        outcome(r, action_fault(*p, id as int, fuel as nat)),
    decreases fuel, 1nat, 0nat,
{
    if id >= p.actions.len() {
        return Err(IrError::DanglingReference { what: "action", id: id as u32 });
    }
    if fuel == 0 {
        return Ok(());
    }
    let a = &p.actions[id];
    match check_span(p, a.span()) {
        Err(x) => {
            return Err(x);
        },
        Ok(()) => {},
    }
    match a {
        Action::If { .. } => check_action_nested(p, a, fuel - 1),
        Action::While { .. } => check_action_nested(p, a, fuel - 1),
        Action::ForGlobalVariable { .. } => check_action_nested(p, a, fuel - 1),
        _ => check_action_flat(p, a),
    }
}

/// The actions without nested actions.
#[verifier::spinoff_prover]
fn check_action_flat(p: &WirProgram, a: &Action) -> (r: Result<(), IrError>)
    requires
        !(a is If || a is While || a is ForGlobalVariable),
    ensures
        outcome(r, action_body_fault(*p, *a, 0)),
{
    let vf = p.values.len();
    match a {
        Action::SetGlobalVariable { variable, value, .. } | Action::ModifyGlobalVariable {
            variable,
            value,
            ..
        } => {
            match check_global_ref(p, *variable) {
                Err(x) => {
                    return Err(x);
                },
                Ok(()) => {},
            }
            check_value(p, *value, vf)
        },
        Action::SetPlayerVariable { player, variable, value, .. }
        | Action::ModifyPlayerVariable { player, variable, value, .. } => {
            match check_value(p, *player, vf) {
                Err(x) => {
                    return Err(x);
                },
                Ok(()) => {},
            }
            match check_player_ref(p, *variable) {
                Err(x) => {
                    return Err(x);
                },
                Ok(()) => {},
            }
            check_value(p, *value, vf)
        },
        Action::CallSubroutine { subroutine, .. } => check_subroutine_ref(p, *subroutine),
        Action::Debug { value, .. } => check_value(p, *value, vf),
        Action::Print { message, .. } => check_value(p, *message, vf),
        Action::Call { args, .. } => check_values(p, args.as_slice(), vf),
        _ => Ok(()),
    }
}

/// The actions with nested actions, checked with fuel `f`.
#[verifier::spinoff_prover]
fn check_action_nested(p: &WirProgram, a: &Action, f: usize) -> (r: Result<(), IrError>)
    requires
        a is If || a is While || a is ForGlobalVariable,
    ensures
        outcome(r, action_body_fault(*p, *a, f as nat)),
    decreases f + 1, 0nat, 0nat,
{
    let vf = p.values.len();
    match a {
        Action::If { branches, else_body, .. } => {
            match check_branches(p, branches.as_slice(), f) {
                Err(x) => {
                    return Err(x);
                },
                Ok(()) => {},
            }
            match else_body {
                Some(b) => check_actions(p, b.as_slice(), f),
                None => Ok(()),
            }
        },
        Action::While { condition, body, .. } => {
            match check_value(p, *condition, vf) {
                Err(x) => {
                    return Err(x);
                },
                Ok(()) => {},
            }
            check_actions(p, body.as_slice(), f)
        },
        Action::ForGlobalVariable { variable, start, stop, step, body, .. } => {
            match check_global_ref(p, *variable) {
                Err(x) => {
                    return Err(x);
                },
                Ok(()) => {},
            }
            let v: Vec<usize> = vec![*start, *stop, *step];
            assert(v@ =~= seq![*start, *stop, *step]);
            match check_values(p, v.as_slice(), vf) {
                Err(x) => {
                    return Err(x);
                },
                Ok(()) => {},
            }
            check_actions(p, body.as_slice(), f)
        },
        _ => Ok(()),
    }
}

fn check_actions(p: &WirProgram, ids: &[usize], fuel: usize) -> (r: Result<(), IrError>)
    ensures
        outcome(r, actions_fault(*p, ids@, fuel as nat)),
    decreases fuel, 2nat, ids@.len(),
{
    let mut k: usize = 0;
    while k < ids.len()
        invariant
            k <= ids@.len(),
            actions_fault(*p, ids@.take(k as int), fuel as nat) is None,
        decreases ids@.len() - k,
    {
        assert(ids@.take(k + 1).drop_last() =~= ids@.take(k as int));
        match check_action(p, ids[k], fuel) {
            Err(x) => {
                proof {
                    lemma_actions_fault_persists(*p, ids@, k + 1, fuel as nat);
                }
                return Err(x);
            },
            Ok(()) => {},
        }
        k = k + 1;
    }
    assert(ids@.take(k as int) =~= ids@);
    Ok(())
}

fn check_branches(p: &WirProgram, bs: &[IfBranch], fuel: usize) -> (r: Result<(), IrError>)
    ensures
        outcome(r, branches_fault(*p, bs@, fuel as nat)),
    decreases fuel, 3nat, bs@.len(),
{
    let vf = p.values.len();
    let mut k: usize = 0;
    while k < bs.len()
        invariant
            k <= bs@.len(),
            vf == value_fuel(*p),
            branches_fault(*p, bs@.take(k as int), fuel as nat) is None,
        decreases bs@.len() - k,
    {
        assert(bs@.take(k + 1).drop_last() =~= bs@.take(k as int));
        let b = &bs[k];
        let checked = match check_value(p, b.condition, vf) {
            Err(x) => Err(x),
            Ok(()) => check_actions(p, b.body.as_slice(), fuel),
        };
        match checked {
            Err(x) => {
                proof {
                    lemma_branches_fault_persists(*p, bs@, k + 1, fuel as nat);
                }
                return Err(x);
            },
            Ok(()) => {},
        }
        k = k + 1;
    }
    assert(bs@.take(k as int) =~= bs@);
    Ok(())
}


// ---------------------------------------------------------------------------
// The settings carrier, declarations, rules and the whole program.
// ---------------------------------------------------------------------------

proof fn lemma_elements_fault_persists(p: WirProgram, es: Seq<SettingsListElement>, k: int)
    requires
        0 <= k <= es.len(),
        elements_fault(p, es.take(k)) is Some,
    ensures
        elements_fault(p, es) == elements_fault(p, es.take(k)),
    decreases es.len() - k,
{
    if k < es.len() {
        assert(es.take(k + 1).drop_last() =~= es.take(k));
        lemma_elements_fault_persists(p, es, k + 1);
    } else {
        assert(es.take(k) =~= es);
    }
}

proof fn lemma_settings_nodes_fault_persists(p: WirProgram, ns: Seq<SettingsNode>, k: int)
    requires
        0 <= k <= ns.len(),
        settings_nodes_fault(p, ns.take(k)) is Some,
    ensures
        settings_nodes_fault(p, ns) == settings_nodes_fault(p, ns.take(k)),
    decreases ns.len() - k,
{
    if k < ns.len() {
        assert(ns.take(k + 1).drop_last() =~= ns.take(k));
        lemma_settings_nodes_fault_persists(p, ns, k + 1);
    } else {
        assert(ns.take(k) =~= ns);
    }
}

fn check_elements(p: &WirProgram, es: &[SettingsListElement]) -> (r: Result<(), IrError>)
    ensures
        outcome(r, elements_fault(*p, es@)),
{
    let mut k: usize = 0;
    while k < es.len()
        invariant
            k <= es@.len(),
            elements_fault(*p, es@.take(k as int)) is None,
        decreases es@.len() - k,
    {
        assert(es@.take(k + 1).drop_last() =~= es@.take(k as int));
        match check_span(p, es[k].span) {
            Err(x) => {
                proof {
                    lemma_elements_fault_persists(*p, es@, k + 1);
                }
                return Err(x);
            },
            Ok(()) => {},
        }
        k = k + 1;
    }
    assert(es@.take(k as int) =~= es@);
    Ok(())
}

fn check_settings_nodes(p: &WirProgram, ns: &Vec<SettingsNode>) -> (r: Result<(), IrError>)
    ensures
        outcome(r, settings_nodes_fault(*p, ns@)),
    decreases ns@, 0nat,
{
    let mut k: usize = 0;
    while k < ns.len()
        invariant
            k <= ns@.len(),
            settings_nodes_fault(*p, ns@.take(k as int)) is None,
        decreases ns@.len() - k,
    {
        assert(ns@.take(k + 1).drop_last() =~= ns@.take(k as int));
        match check_settings_node(p, &ns[k]) {
            Err(x) => {
                proof {
                    lemma_settings_nodes_fault_persists(*p, ns@, k + 1);
                }
                return Err(x);
            },
            Ok(()) => {},
        }
        k = k + 1;
    }
    assert(ns@.take(k as int) =~= ns@);
    Ok(())
}

fn check_settings_node(p: &WirProgram, n: &SettingsNode) -> (r: Result<(), IrError>)
    ensures
        outcome(r, settings_node_fault(*p, *n)),
    decreases *n, 1nat,
{
    match check_span(p, n.span()) {
        Err(x) => {
            return Err(x);
        },
        Ok(()) => {},
    }
    match n {
        SettingsNode::Group { children, .. } => {
            proof {
                assert(decreases_to!(*n => children@));
            }
            check_settings_nodes(p, children)
        },
        SettingsNode::List { elements, .. } => check_elements(p, elements.as_slice()),
        _ => Ok(()),
    }
}

fn check_settings(p: &WirProgram, s: &Settings) -> (r: Result<(), IrError>)
    ensures
        outcome(r, settings_fault(*p, *s)),
{
    match check_span(p, s.span) {
        Err(x) => {
            return Err(x);
        },
        Ok(()) => {},
    }
    check_settings_nodes(p, &s.children)
}


fn check_variable(p: &WirProgram, v: &WorkshopVariable) -> (r: Result<(), IrError>)
    ensures
        outcome(r, variable_fault(*p, *v)),
{
    match check_span(p, v.span) {
        Err(x) => {
            return Err(x);
        },
        Ok(()) => {},
    }
    match v.initializer {
        Some(i) => check_value(p, i, p.values.len()),
        None => Ok(()),
    }
}

fn check_rule(p: &WirProgram, r: &Rule) -> (res: Result<(), IrError>)
    ensures
        outcome(res, wir_rule_fault(*p, *r)),
{
    match check_span(p, r.span) {
        Err(x) => {
            return Err(x);
        },
        Ok(()) => {},
    }
    match r.event {
        Event::Subroutine(s) => {
            match check_subroutine_ref(p, s) {
                Err(x) => {
                    return Err(x);
                },
                Ok(()) => {},
            }
        },
        _ => {},
    }
    match check_values(p, r.conditions.as_slice(), p.values.len()) {
        Err(x) => {
            return Err(x);
        },
        Ok(()) => {},
    }
    check_actions(p, r.actions.as_slice(), p.actions.len())
}

/// Checks variables in order, stopping at the first violation.
fn check_variables(p: &WirProgram, vs: &Vec<WorkshopVariable>) -> (r: Result<(), IrError>)
    ensures
        outcome(r, first_fault(vs@, |v: WorkshopVariable| variable_fault(*p, v))),
{
    let ghost f = |v: WorkshopVariable| variable_fault(*p, v);
    let mut k: usize = 0;
    while k < vs.len()
        invariant
            k <= vs@.len(),
            f == (|v: WorkshopVariable| variable_fault(*p, v)),
            first_fault(vs@.take(k as int), f) is None,
        decreases vs@.len() - k,
    {
        assert(vs@.take(k + 1).drop_last() =~= vs@.take(k as int));
        match check_variable(p, &vs[k]) {
            Err(x) => {
                proof {
                    lemma_first_fault_persists(vs@, f, k + 1);
                }
                return Err(x);
            },
            Ok(()) => {},
        }
        k = k + 1;
    }
    assert(vs@.take(k as int) =~= vs@);
    Ok(())
}

fn check_subroutines(p: &WirProgram) -> (r: Result<(), IrError>)
    ensures
        outcome(r, first_fault(p.subroutines@, |s: WorkshopSubroutine| wir_subroutine_fault(*p, s))),
{
    let ghost f = |s: WorkshopSubroutine| wir_subroutine_fault(*p, s);
    let mut k: usize = 0;
    while k < p.subroutines.len()
        invariant
            k <= p.subroutines@.len(),
            f == (|s: WorkshopSubroutine| wir_subroutine_fault(*p, s)),
            first_fault(p.subroutines@.take(k as int), f) is None,
        decreases p.subroutines@.len() - k,
    {
        assert(p.subroutines@.take(k + 1).drop_last() =~= p.subroutines@.take(k as int));
        match check_span(p, p.subroutines[k].span) {
            Err(x) => {
                proof {
                    lemma_first_fault_persists(p.subroutines@, f, k + 1);
                }
                return Err(x);
            },
            Ok(()) => {},
        }
        k = k + 1;
    }
    assert(p.subroutines@.take(k as int) =~= p.subroutines@);
    Ok(())
}

fn check_rules(p: &WirProgram) -> (r: Result<(), IrError>)
    ensures
        outcome(r, first_fault(p.rules@, |r: Rule| wir_rule_fault(*p, r))),
{
    let ghost f = |r: Rule| wir_rule_fault(*p, r);
    let mut k: usize = 0;
    while k < p.rules.len()
        invariant
            k <= p.rules@.len(),
            f == (|r: Rule| wir_rule_fault(*p, r)),
            first_fault(p.rules@.take(k as int), f) is None,
        decreases p.rules@.len() - k,
    {
        assert(p.rules@.take(k + 1).drop_last() =~= p.rules@.take(k as int));
        match check_rule(p, &p.rules[k]) {
            Err(x) => {
                proof {
                    lemma_first_fault_persists(p.rules@, f, k + 1);
                }
                return Err(x);
            },
            Ok(()) => {},
        }
        k = k + 1;
    }
    assert(p.rules@.take(k as int) =~= p.rules@);
    Ok(())
}

impl WirProgram {
    /// Validate that every index resolves and every span is valid, returning
    /// the first violation.
    pub fn validate(&self) -> (r: Result<(), IrError>)
        ensures
            outcome(r, wir_validation_fault(*self)),
    {
        match &self.settings {
            Some(s) => {
                match check_settings(self, s) {
                    Err(x) => {
                        return Err(x);
                    },
                    Ok(()) => {},
                }
            },
            None => {},
        }
        match check_variables(self, &self.global_variables) {
            Err(x) => {
                return Err(x);
            },
            Ok(()) => {},
        }
        match check_variables(self, &self.player_variables) {
            Err(x) => {
                return Err(x);
            },
            Ok(()) => {},
        }
        match check_subroutines(self) {
            Err(x) => {
                return Err(x);
            },
            Ok(()) => {},
        }
        check_rules(self)
    }
}


// ---------------------------------------------------------------------------
// Fuel.
// ---------------------------------------------------------------------------

/// `rank` orders the value table: each value's rank is below the table's
/// length, and every value it refers to ranks lower still.
pub open spec fn values_ranked(p: WirProgram, rank: spec_fn(int) -> nat) -> bool {
    &&& forall|i: int| 0 <= i < p.values@.len() ==> #[trigger] rank(i) < p.values@.len()
    &&& forall|i: int, k: int|
        #![trigger value_refs(p.values@[i].value)[k]]
        0 <= i < p.values@.len() && 0 <= k < value_refs(p.values@[i].value).len() && value_refs(
            p.values@[i].value,
        )[k] < p.values@.len() ==> rank(value_refs(p.values@[i].value)[k] as int) < rank(i)
}

proof fn lemma_value_fuel(p: WirProgram, rank: spec_fn(int) -> nat, id: int, f1: nat, f2: nat)
    requires
        values_ranked(p, rank),
        0 <= id < p.values@.len(),
        f1 > rank(id),
        f2 > rank(id),
    ensures
        value_fault(p, id, f1) == value_fault(p, id, f2),
    decreases rank(id) + 1nat, 0nat,
{
    let v = p.values@[id].value;
    let refs = value_refs(v);
    assert forall|k: int| 0 <= k < refs.len() && refs[k] < p.values@.len() implies #[trigger] rank(
        refs[k] as int,
    ) < rank(id) by {
        assert(value_refs(p.values@[id].value)[k] == refs[k]);
    }
    match v {
        Value::PlayerVariable { player, .. } => {
            if (player as int) < p.values@.len() {
                assert(refs[0] == player);
                lemma_value_fuel(p, rank, player as int, (f1 - 1) as nat, (f2 - 1) as nat);
            }
        },
        _ => {
            lemma_values_fuel(p, rank, refs, (f1 - 1) as nat, (f2 - 1) as nat, rank(id));
        },
    }
}

proof fn lemma_values_fuel(
    p: WirProgram,
    rank: spec_fn(int) -> nat,
    ids: Seq<usize>,
    f1: nat,
    f2: nat,
    bound: nat,
)
    requires
        values_ranked(p, rank),
        forall|k: int| 0 <= k < ids.len() && ids[k] < p.values@.len() ==> #[trigger] rank(ids[k] as int) < bound,
        bound <= f1,
        bound <= f2,
    ensures
        values_fault(p, ids, f1) == values_fault(p, ids, f2),
    decreases bound, ids.len(),
{
    if ids.len() > 0 {
        let rest = ids.drop_last();
        assert forall|k: int| 0 <= k < rest.len() && rest[k] < p.values@.len() implies #[trigger] rank(
            rest[k] as int,
        ) < bound by {
            assert(rest[k] == ids[k]);
        }
        lemma_values_fuel(p, rank, rest, f1, f2, bound);
        let last = ids.last();
        if (last as int) < p.values@.len() {
            assert(ids[ids.len() - 1] == last);
            lemma_value_fuel(p, rank, last as int, f1, f2);
        } else {
            assert(value_fault(p, last as int, f1) == value_fault(p, last as int, f2));
        }
    }
}

/// On a value table whose references never come back to a value, a walk
/// with as much fuel as there are values finds what a walk with any more
/// fuel finds.
pub proof fn law_value_fuel_suffices(p: WirProgram, rank: spec_fn(int) -> nat, id: int, fuel: nat)
    requires
        values_ranked(p, rank),
        fuel >= value_fuel(p),
    ensures
        value_fault(p, id, fuel) == value_fault(p, id, value_fuel(p)),
{
    if 0 <= id < p.values@.len() {
        lemma_value_fuel(p, rank, id, fuel, value_fuel(p));
    }
}

/// Every action of `ids` that exists ranks below `bound`.
pub open spec fn actions_below(
    p: WirProgram,
    rank: spec_fn(int) -> nat,
    ids: Seq<usize>,
    bound: nat,
) -> bool {
    forall|k: int| 0 <= k < ids.len() && ids[k] < p.actions@.len() ==> #[trigger] rank(ids[k] as int) < bound
}

/// Every action nested directly in `a` ranks below `bound`.
pub open spec fn nested_actions_below(
    p: WirProgram,
    rank: spec_fn(int) -> nat,
    a: Action,
    bound: nat,
) -> bool {
    match a {
        Action::If { branches, else_body, .. } => {
            &&& forall|b: int| 0 <= b < branches@.len() ==> actions_below(p, rank, #[trigger] branches@[b].body@, bound)
            &&& else_body matches Some(e) ==> actions_below(p, rank, e@, bound)
        },
        Action::While { body, .. } => actions_below(p, rank, body@, bound),
        Action::ForGlobalVariable { body, .. } => actions_below(p, rank, body@, bound),
        _ => true,
    }
}

/// `rank` orders the action table: each action's rank is below the table's
/// length, and every action nested in it ranks lower still.
pub open spec fn actions_ranked(p: WirProgram, rank: spec_fn(int) -> nat) -> bool {
    forall|i: int| 0 <= i < p.actions@.len() ==> {
        &&& #[trigger] rank(i) < p.actions@.len()
        &&& nested_actions_below(p, rank, p.actions@[i], rank(i))
    }
}

proof fn lemma_action_fuel(p: WirProgram, rank: spec_fn(int) -> nat, id: int, f1: nat, f2: nat)
    requires
        actions_ranked(p, rank),
        0 <= id < p.actions@.len(),
        f1 > rank(id),
        f2 > rank(id),
    ensures
        action_fault(p, id, f1) == action_fault(p, id, f2),
    decreases rank(id) + 1nat, 0nat, 0nat,
{
    let a = p.actions@[id];
    let g1 = (f1 - 1) as nat;
    let g2 = (f2 - 1) as nat;
    assert(nested_actions_below(p, rank, a, rank(id)));
    assert(action_fault(p, id, f1) == first(wir_span_fault(p, action_span(a)), action_body_fault(p, a, g1)));
    assert(action_fault(p, id, f2) == first(wir_span_fault(p, action_span(a)), action_body_fault(p, a, g2)));
    match a {
        Action::If { branches, else_body, .. } => {
            lemma_wir_branches_fuel(p, rank, branches@, g1, g2, rank(id));
            match else_body {
                Some(b) => {
                    lemma_actions_fuel(p, rank, b@, g1, g2, rank(id));
                },
                None => {},
            }
        },
        Action::While { body, .. } => {
            lemma_actions_fuel(p, rank, body@, g1, g2, rank(id));
        },
        Action::ForGlobalVariable { body, .. } => {
            lemma_actions_fuel(p, rank, body@, g1, g2, rank(id));
        },
        _ => {},
    }
}

proof fn lemma_actions_fuel(
    p: WirProgram,
    rank: spec_fn(int) -> nat,
    ids: Seq<usize>,
    f1: nat,
    f2: nat,
    bound: nat,
)
    requires
        actions_ranked(p, rank),
        actions_below(p, rank, ids, bound),
        bound <= f1,
        bound <= f2,
    ensures
        actions_fault(p, ids, f1) == actions_fault(p, ids, f2),
    decreases bound, 0nat, ids.len(),
{
    if ids.len() > 0 {
        let rest = ids.drop_last();
        assert forall|k: int| 0 <= k < rest.len() && rest[k] < p.actions@.len() implies #[trigger] rank(
            rest[k] as int,
        ) < bound by {
            assert(rest[k] == ids[k]);
        }
        lemma_actions_fuel(p, rank, rest, f1, f2, bound);
        let last = ids.last();
        if (last as int) < p.actions@.len() {
            assert(ids[ids.len() - 1] == last);
            lemma_action_fuel(p, rank, last as int, f1, f2);
        } else {
            assert(action_fault(p, last as int, f1) == action_fault(p, last as int, f2));
        }
    }
}

proof fn lemma_wir_branches_fuel(
    p: WirProgram,
    rank: spec_fn(int) -> nat,
    bs: Seq<IfBranch>,
    f1: nat,
    f2: nat,
    bound: nat,
)
    requires
        actions_ranked(p, rank),
        forall|b: int| 0 <= b < bs.len() ==> actions_below(p, rank, #[trigger] bs[b].body@, bound),
        bound <= f1,
        bound <= f2,
    ensures
        branches_fault(p, bs, f1) == branches_fault(p, bs, f2),
    decreases bound, 1nat, bs.len(),
{
    if bs.len() > 0 {
        let rest = bs.drop_last();
        assert forall|b: int| 0 <= b < rest.len() implies actions_below(p, rank, #[trigger] rest[b].body@, bound) by {
            assert(rest[b] == bs[b]);
        }
        lemma_wir_branches_fuel(p, rank, rest, f1, f2, bound);
        assert(bs[bs.len() - 1] == bs.last());
        lemma_actions_fuel(p, rank, bs.last().body@, f1, f2, bound);
    }
}

/// On an action table whose nesting never comes back to an action, a walk
/// with as much fuel as there are actions finds what a walk with any more
/// fuel finds.
pub proof fn law_action_fuel_suffices(p: WirProgram, rank: spec_fn(int) -> nat, id: int, fuel: nat)
    requires
        actions_ranked(p, rank),
        fuel >= action_fuel(p),
    ensures
        action_fault(p, id, fuel) == action_fault(p, id, action_fuel(p)),
{
    if 0 <= id < p.actions@.len() {
        lemma_action_fuel(p, rank, id, fuel, action_fuel(p));
    }
}

} // verus!
