//! The internal Opy HIR model and its structural validation.
//!
//! Symbols, statements and expressions live in append-only arenas and refer
//! to each other by index. Validation walks every declaration and rule in
//! order, depth first, and reports the first dangling reference or invalid
//! span it meets.
//!
//! The walk follows references as they are found. A chain of references
//! that returns to where it started would have no end, so every walk carries
//! fuel: as many steps as the arena has nodes. In a program whose references
//! never come back to a node, fuel of that size is never exhausted, and more
//! fuel changes nothing ([`law_expression_fuel_suffices`],
//! [`law_statement_fuel_suffices`]).

pub mod dump;

use vstd::prelude::*;

use crate::ir::{BinaryOp, Position, UnaryOp};
use crate::text::{decimal, decimal_string, owned};

verus! {

broadcast use vstd::string::group_string_axioms;

// ---------------------------------------------------------------------------
// The model.
// ---------------------------------------------------------------------------

/// A half-open, 1-based source interval in one registered file.
#[derive(Debug, Clone, Copy, PartialEq, Eq, Structural)]
pub struct Span {
    pub file: usize,
    pub start: Position,
    pub end: Position,
}

impl Span {
    /// Both positions are 1-based and `end` is not before `start`.
    pub open spec fn valid(self) -> bool {
        &&& self.start.line >= 1 && self.start.col >= 1
        &&& self.end.line >= 1 && self.end.col >= 1
        &&& (self.end.line > self.start.line || (self.end.line == self.start.line && self.end.col
            >= self.start.col))
    }

    /// A span in `file` from `start` (inclusive) to `end` (exclusive).
    pub fn new(file: usize, start: Position, end: Position) -> (s: Span)
        ensures
            s == (Span { file, start, end }),
    {
        Span { file, start, end }
    }

    pub fn is_valid(self) -> (r: bool)
        ensures
            r == self.valid(),
    {
        self.start.is_valid() && self.end.is_valid() && (self.end.line > self.start.line || (
        self.end.line == self.start.line && self.end.col >= self.start.col))
    }
}

/// One source file in the program's file registry.
#[derive(Debug, Clone, PartialEq, Eq)]
pub struct SourceFile {
    pub path: String,
}

impl SourceFile {
    pub fn new(path: &str) -> (f: SourceFile)
        ensures
            f.path@ == path@,
    {
        SourceFile { path: owned(path) }
    }
}

/// A global variable declaration.
#[derive(Debug, Clone)]
pub struct GlobalVar {
    pub name: String,
    /// The explicit source index, when the source requested one.
    pub index: Option<u32>,
    pub span: Option<Span>,
    pub name_span: Option<Span>,
    /// A non-trivial source initializer, when present.
    pub initializer: Option<usize>,
}

/// A player variable declaration.
#[derive(Debug, Clone)]
pub struct PlayerVar {
    pub name: String,
    pub index: Option<u32>,
    pub span: Option<Span>,
    pub initializer: Option<usize>,
}

/// The body of a `def name():` definition.
#[derive(Debug, Clone)]
pub struct SubroutineBody {
    pub span: Option<Span>,
    pub statements: Vec<usize>,
}

/// A subroutine: declared, defined, or both.
#[derive(Debug, Clone)]
pub struct Subroutine {
    pub name: String,
    pub index: Option<u32>,
    pub decl_span: Option<Span>,
    pub body: Option<SubroutineBody>,
}

/// A source-level constant (`macro name = value`).
#[derive(Debug, Clone)]
pub struct Constant {
    pub name: String,
    pub span: Option<Span>,
    pub value: usize,
}

/// A source-level function macro (`macro name(args): body`).
#[derive(Debug, Clone)]
pub struct Macro {
    pub name: String,
    pub args: Vec<String>,
    pub span: Option<Span>,
    pub body: Vec<usize>,
}

/// A rule event.
#[derive(Debug, Clone)]
pub struct Event {
    pub name: String,
    pub args: Vec<usize>,
    pub span: Option<Span>,
}

/// A rule with its event, conditions, and actions.
#[derive(Debug, Clone)]
pub struct Rule {
    pub name: String,
    pub span: Option<Span>,
    pub name_span: Option<Span>,
    pub disabled: bool,
    pub event: Event,
    pub conditions: Vec<usize>,
    pub actions: Vec<usize>,
}

/// One condition/body pair of an `if` statement.
#[derive(Debug, Clone)]
pub struct IfBranch {
    pub condition: usize,
    pub body: Vec<usize>,
}

/// A statement; expression and statement operands are arena indices.
#[derive(Debug, Clone)]
pub enum Stmt {
    Expr { expr: usize, span: Option<Span> },
    Assign { target: usize, value: usize, span: Option<Span> },
    If { branches: Vec<IfBranch>, else_body: Option<Vec<usize>>, span: Option<Span> },
    For { variable: usize, iterable: usize, body: Vec<usize>, span: Option<Span> },
    While { condition: usize, body: Vec<usize>, span: Option<Span> },
    CallSubroutine { subroutine: usize, span: Option<Span> },
    Pass { span: Option<Span> },
}

/// An expression; operands are arena indices. A number keeps the bit
/// pattern of its float value (`f64::to_bits`) and its source spelling.
#[derive(Debug, Clone)]
pub enum Expr {
    Number { value_bits: u64, text: String, span: Option<Span> },
    String { value: String, span: Option<Span> },
    Bool { value: bool, span: Option<Span> },
    Null { span: Option<Span> },
    Array { elements: Vec<usize>, span: Option<Span> },
    Vector { x: usize, y: usize, z: usize, span: Option<Span> },
    Enum { value_type: String, value: String, span: Option<Span> },
    GlobalVar { variable: usize, span: Option<Span> },
    PlayerVar { player: usize, variable: usize, span: Option<Span> },
    EventPlayer { span: Option<Span> },
    Constant { constant: usize, span: Option<Span> },
    Call { name: String, args: Vec<usize>, span: Option<Span> },
    ReceiverCall { receiver: usize, name: String, args: Vec<usize>, span: Option<Span> },
    MacroCall { macro_: usize, args: Vec<usize>, span: Option<Span> },
    MacroParam { name: String, span: Option<Span> },
    Binary { op: BinaryOp, left: usize, right: usize, span: Option<Span> },
    Unary { op: UnaryOp, operand: usize, span: Option<Span> },
    Index { array: usize, index: usize, span: Option<Span> },
    Format { text: String, args: Vec<usize>, span: Option<Span> },
}

/// The internal Opy HIR program: arenas of symbols, rules, statements and
/// expressions over one file registry.
#[derive(Debug, Clone)]
pub struct HirProgram {
    pub files: Vec<SourceFile>,
    pub globals: Vec<GlobalVar>,
    pub players: Vec<PlayerVar>,
    pub subroutines: Vec<Subroutine>,
    pub constants: Vec<Constant>,
    pub macros: Vec<Macro>,
    pub rules: Vec<Rule>,
    pub stmts: Vec<Stmt>,
    pub exprs: Vec<Expr>,
}

impl HirProgram {
    /// The registered file `file`, if there is one.
    pub fn file(&self, file: usize) -> (r: Option<&SourceFile>)
        ensures
            r == (if file < self.files@.len() {
                Some(&self.files@[file as int])
            } else {
                None
            }),
    {
        if file < self.files.len() {
            Some(&self.files[file])
        } else {
            None
        }
    }

    /// An empty program.
    pub fn new() -> (p: HirProgram)
        ensures
            p.files@.len() == 0 && p.globals@.len() == 0 && p.players@.len() == 0,
            p.subroutines@.len() == 0 && p.constants@.len() == 0 && p.macros@.len() == 0,
            p.rules@.len() == 0 && p.stmts@.len() == 0 && p.exprs@.len() == 0,
    {
        HirProgram {
            files: Vec::new(),
            globals: Vec::new(),
            players: Vec::new(),
            subroutines: Vec::new(),
            constants: Vec::new(),
            macros: Vec::new(),
            rules: Vec::new(),
            stmts: Vec::new(),
            exprs: Vec::new(),
        }
    }
}

/// A structural violation.
#[derive(Debug, Clone, PartialEq, Eq)]
pub enum IrError {
    /// An index that names no node of its arena.
    DanglingReference { what: &'static str, id: u32 },
    /// A node that breaks an invariant, such as an invalid span.
    Invalid { code: &'static str, message: String, span: Option<Span> },
}

impl IrError {
    /// The stable code of the violation.
    pub fn code(&self) -> (r: &'static str)
        ensures
            match self {
                IrError::DanglingReference { .. } => r@ == "dangling-reference"@,
                IrError::Invalid { code, .. } => r@ == code@,
            },
    {
        match self {
            IrError::DanglingReference { .. } => "dangling-reference",
            IrError::Invalid { code, .. } => code,
        }
    }

    /// The violation's text.
    pub fn message(&self) -> (r: String)
        ensures
            match self {
                IrError::DanglingReference { what, id } => r@ == "dangling "@ + what@
                    + " reference: id "@ + decimal(*id as nat),
                IrError::Invalid { message, .. } => r@ == message@,
            },
    {
        match self {
            IrError::DanglingReference { what, id } => {
                let mut m = owned("dangling ");
                m.append(what);
                m.append(" reference: id ");
                m.append(decimal_string(*id as u64).as_str());
                m
            },
            IrError::Invalid { message, .. } => message.clone(),
        }
    }

    /// Where the violation is, when it has a place.
    pub fn span(&self) -> (r: Option<Span>)
        ensures
            match self {
                IrError::DanglingReference { .. } => r is None,
                IrError::Invalid { span, .. } => r == *span,
            },
    {
        match self {
            IrError::DanglingReference { .. } => None,
            IrError::Invalid { span, .. } => *span,
        }
    }
}

// ---------------------------------------------------------------------------
// What validation finds.
// ---------------------------------------------------------------------------

/// A violation as the contracts see it: whether it is a dangling reference;
/// what dangles (or the code); the index; the message; the span.
pub type Fault = (bool, Seq<char>, u32, Seq<char>, Option<Span>);

pub open spec fn dangling(what: Seq<char>, id: int) -> Fault {
    (true, what, id as u32, Seq::<char>::empty(), None)
}

pub open spec fn invalid_span(message: Seq<char>, span: Span) -> Fault {
    (false, "invalid-span"@, 0, message, Some(span))
}

/// `e` is the violation `f` describes.
pub open spec fn reports(e: IrError, f: Fault) -> bool {
    match e {
        IrError::DanglingReference { what, id } => f.0 && what@ == f.1 && id == f.2,
        IrError::Invalid { code, message, span } => !f.0 && code@ == f.1 && message@ == f.3 && span
            == f.4,
    }
}

/// The result is the first violation, or success when there is none.
pub open spec fn outcome(r: Result<(), IrError>, f: Option<Fault>) -> bool {
    match f {
        None => r is Ok,
        Some(x) => r matches Err(e) && reports(e, x),
    }
}

pub open spec fn span_fault(p: HirProgram, span: Option<Span>) -> Option<Fault> {
    span_fault_in(p.files@.len(), span)
}

/// A span that is invalid, or names a file beyond the first `files`.
pub open spec fn span_fault_in(files: nat, span: Option<Span>) -> Option<Fault> {
    match span {
        None => None,
        Some(s) => if !s.valid() {
            Some(invalid_span("span end precedes start or a position is zero"@, s))
        } else if s.file >= files {
            Some(invalid_span("span references unknown file "@ + decimal(s.file as nat), s))
        } else {
            None
        },
    }
}

pub open spec fn expr_span(e: Expr) -> Option<Span> {
    match e {
        Expr::Number { span, .. } => span,
        Expr::String { span, .. } => span,
        Expr::Bool { span, .. } => span,
        Expr::Null { span } => span,
        Expr::Array { span, .. } => span,
        Expr::Vector { span, .. } => span,
        Expr::Enum { span, .. } => span,
        Expr::GlobalVar { span, .. } => span,
        Expr::PlayerVar { span, .. } => span,
        Expr::EventPlayer { span } => span,
        Expr::Constant { span, .. } => span,
        Expr::Call { span, .. } => span,
        Expr::ReceiverCall { span, .. } => span,
        Expr::MacroCall { span, .. } => span,
        Expr::MacroParam { span, .. } => span,
        Expr::Binary { span, .. } => span,
        Expr::Unary { span, .. } => span,
        Expr::Index { span, .. } => span,
        Expr::Format { span, .. } => span,
    }
}

pub open spec fn stmt_span(s: Stmt) -> Option<Span> {
    match s {
        Stmt::Expr { span, .. } => span,
        Stmt::Assign { span, .. } => span,
        Stmt::If { span, .. } => span,
        Stmt::For { span, .. } => span,
        Stmt::While { span, .. } => span,
        Stmt::CallSubroutine { span, .. } => span,
        Stmt::Pass { span } => span,
    }
}

/// The expressions an expression refers to, in the order they are checked.
pub open spec fn expr_refs(e: Expr) -> Seq<usize> {
    match e {
        Expr::Array { elements, .. } => elements@,
        Expr::Vector { x, y, z, .. } => seq![x, y, z],
        Expr::PlayerVar { player, .. } => seq![player],
        Expr::Call { args, .. } => args@,
        Expr::ReceiverCall { receiver, args, .. } => seq![receiver] + args@,
        Expr::MacroCall { args, .. } => args@,
        Expr::Binary { left, right, .. } => seq![left, right],
        Expr::Unary { operand, .. } => seq![operand],
        Expr::Index { array, index, .. } => seq![array, index],
        Expr::Format { args, .. } => args@,
        _ => Seq::<usize>::empty(),
    }
}

/// The symbol reference of an expression that must name a symbol: the
/// arena's length, its name, and the index.
pub open spec fn expr_symbol(p: HirProgram, e: Expr) -> Option<(int, Seq<char>, int)> {
    match e {
        Expr::GlobalVar { variable, .. } => Some((p.globals@.len() as int, "global variable"@, variable as int)),
        Expr::Constant { constant, .. } => Some((p.constants@.len() as int, "constant"@, constant as int)),
        Expr::MacroCall { macro_, .. } => Some((p.macros@.len() as int, "macro"@, macro_ as int)),
        _ => None,
    }
}

/// The first violation in an expression: a dangling index, its span, then
/// (player-variable references check their player first) its symbol and its
/// operands in order.
pub open spec fn expr_fault(p: HirProgram, id: int, fuel: nat) -> Option<Fault>
    decreases fuel, 0nat,
{
    if !(0 <= id < p.exprs@.len()) {
        Some(dangling("expression"@, id))
    } else if fuel == 0 {
        None
    } else {
        let e = p.exprs@[id];
        match span_fault(p, expr_span(e)) {
            Some(f) => Some(f),
            None => match e {
                Expr::PlayerVar { player, variable, .. } => match expr_fault(p, player as int, (fuel - 1) as nat) {
                    Some(f) => Some(f),
                    None => if variable >= p.players@.len() {
                        Some(dangling("player variable"@, variable as int))
                    } else {
                        None
                    },
                },
                _ => match expr_symbol(p, e) {
                    Some(sym) => if sym.2 >= sym.0 {
                        Some(dangling(sym.1, sym.2))
                    } else {
                        exprs_fault(p, expr_refs(e), (fuel - 1) as nat)
                    },
                    None => exprs_fault(p, expr_refs(e), (fuel - 1) as nat),
                },
            },
        }
    }
}

/// The first violation in a list of expressions.
pub open spec fn exprs_fault(p: HirProgram, ids: Seq<usize>, fuel: nat) -> Option<Fault>
    decreases fuel, ids.len() + 1,
{
    if ids.len() == 0 {
        None
    } else {
        match exprs_fault(p, ids.drop_last(), fuel) {
            Some(f) => Some(f),
            None => expr_fault(p, ids.last() as int, fuel),
        }
    }
}

// ---------------------------------------------------------------------------
// Checking expressions.
// ---------------------------------------------------------------------------

fn check_span(p: &HirProgram, span: Option<Span>) -> (r: Result<(), IrError>)
    ensures
        outcome(r, span_fault(*p, span)),
{
    check_span_in(p.files.len(), span)
}

/// Checks a span against a registry of `files` files.
pub(crate) fn check_span_in(files: usize, span: Option<Span>) -> (r: Result<(), IrError>)
    ensures
        outcome(r, span_fault_in(files as nat, span)),
{
    match span {
        None => Ok(()),
        Some(s) => {
            if !s.is_valid() {
                return Err(
                    IrError::Invalid {
                        code: "invalid-span",
                        message: owned("span end precedes start or a position is zero"),
                        span: Some(s),
                    },
                );
            }
            if s.file >= files {
                let mut m = owned("span references unknown file ");
                m.append(decimal_string(s.file as u64).as_str());
                return Err(IrError::Invalid { code: "invalid-span", message: m, span: Some(s) });
            }
            Ok(())
        },
    }
}

fn expr_span_of(e: &Expr) -> (r: Option<Span>)
    ensures
        r == expr_span(*e),
{
    match e {
        Expr::Number { span, .. } => *span,
        Expr::String { span, .. } => *span,
        Expr::Bool { span, .. } => *span,
        Expr::Null { span } => *span,
        Expr::Array { span, .. } => *span,
        Expr::Vector { span, .. } => *span,
        Expr::Enum { span, .. } => *span,
        Expr::GlobalVar { span, .. } => *span,
        Expr::PlayerVar { span, .. } => *span,
        Expr::EventPlayer { span } => *span,
        Expr::Constant { span, .. } => *span,
        Expr::Call { span, .. } => *span,
        Expr::ReceiverCall { span, .. } => *span,
        Expr::MacroCall { span, .. } => *span,
        Expr::MacroParam { span, .. } => *span,
        Expr::Binary { span, .. } => *span,
        Expr::Unary { span, .. } => *span,
        Expr::Index { span, .. } => *span,
        Expr::Format { span, .. } => *span,
    }
}

/// Once a prefix of a list has a violation, the whole list has it.
proof fn lemma_exprs_fault_persists(p: HirProgram, ids: Seq<usize>, k: int, fuel: nat)
    requires
        0 <= k <= ids.len(),
        exprs_fault(p, ids.take(k), fuel) is Some,
    ensures
        exprs_fault(p, ids, fuel) == exprs_fault(p, ids.take(k), fuel),
    decreases ids.len() - k,
{
    if k < ids.len() {
        assert(ids.take(k + 1).drop_last() =~= ids.take(k));
        lemma_exprs_fault_persists(p, ids, k + 1, fuel);
    } else {
        assert(ids.take(k) =~= ids);
    }
}

fn check_expr(p: &HirProgram, id: usize, fuel: usize) -> (r: Result<(), IrError>)
    ensures
        outcome(r, expr_fault(*p, id as int, fuel as nat)),
    decreases fuel, 0nat,
{
    if id >= p.exprs.len() {
        return Err(IrError::DanglingReference { what: "expression", id: id as u32 });
    }
    if fuel == 0 {
        return Ok(());
    }
    let e = &p.exprs[id];
    match check_span(p, expr_span_of(e)) {
        Err(x) => {
            return Err(x);
        },
        Ok(()) => {},
    }
    match e {
        Expr::PlayerVar { player, variable, .. } => {
            match check_expr(p, *player, fuel - 1) {
                Err(x) => {
                    return Err(x);
                },
                Ok(()) => {},
            }
            if *variable >= p.players.len() {
                return Err(
                    IrError::DanglingReference { what: "player variable", id: *variable as u32 },
                );
            }
            Ok(())
        },
        Expr::GlobalVar { variable, .. } => {
            if *variable >= p.globals.len() {
                return Err(
                    IrError::DanglingReference { what: "global variable", id: *variable as u32 },
                );
            }
            Ok(())
        },
        Expr::Constant { constant, .. } => {
            if *constant >= p.constants.len() {
                return Err(IrError::DanglingReference { what: "constant", id: *constant as u32 });
            }
            Ok(())
        },
        Expr::MacroCall { macro_, args, .. } => {
            if *macro_ >= p.macros.len() {
                return Err(IrError::DanglingReference { what: "macro", id: *macro_ as u32 });
            }
            check_exprs(p, args.as_slice(), fuel - 1)
        },
        Expr::Array { elements, .. } => check_exprs(p, elements.as_slice(), fuel - 1),
        Expr::Call { args, .. } => check_exprs(p, args.as_slice(), fuel - 1),
        Expr::Format { args, .. } => check_exprs(p, args.as_slice(), fuel - 1),
        Expr::Vector { x, y, z, .. } => {
            let v: Vec<usize> = vec![*x, *y, *z];
            assert(v@ =~= expr_refs(*e));
            check_exprs(p, v.as_slice(), fuel - 1)
        },
        Expr::ReceiverCall { receiver, args, .. } => {
            let mut v: Vec<usize> = Vec::new();
            v.push(*receiver);
            let mut k: usize = 0;
            while k < args.len()
                invariant
                    k <= args@.len(),
                    v@ == seq![*receiver] + args@.take(k as int),
                decreases args@.len() - k,
            {
                v.push(args[k]);
                assert(args@.take(k + 1) =~= args@.take(k as int).push(args@[k as int]));
                k = k + 1;
            }
            assert(args@.take(k as int) =~= args@);
            assert(v@ =~= expr_refs(*e));
            check_exprs(p, v.as_slice(), fuel - 1)
        },
        Expr::Binary { left, right, .. } => {
            let v: Vec<usize> = vec![*left, *right];
            assert(v@ =~= expr_refs(*e));
            check_exprs(p, v.as_slice(), fuel - 1)
        },
        Expr::Unary { operand, .. } => {
            let v: Vec<usize> = vec![*operand];
            assert(v@ =~= expr_refs(*e));
            check_exprs(p, v.as_slice(), fuel - 1)
        },
        Expr::Index { array, index, .. } => {
            let v: Vec<usize> = vec![*array, *index];
            assert(v@ =~= expr_refs(*e));
            check_exprs(p, v.as_slice(), fuel - 1)
        },
        _ => {
            assert(expr_refs(*e).len() == 0);
            assert(expr_symbol(*p, *e) is None);
            assert(exprs_fault(*p, expr_refs(*e), (fuel - 1) as nat) is None);
            Ok(())
        },
    }
}

fn check_exprs(p: &HirProgram, ids: &[usize], fuel: usize) -> (r: Result<(), IrError>)
    ensures
        outcome(r, exprs_fault(*p, ids@, fuel as nat)),
    decreases fuel, ids@.len() + 1,
{
    let mut k: usize = 0;
    while k < ids.len()
        invariant
            k <= ids@.len(),
            exprs_fault(*p, ids@.take(k as int), fuel as nat) is None,
        decreases ids@.len() - k,
    {
        assert(ids@.take(k + 1).drop_last() =~= ids@.take(k as int));
        match check_expr(p, ids[k], fuel) {
            Err(x) => {
                proof {
                    lemma_exprs_fault_persists(*p, ids@, k + 1, fuel as nat);
                }
                return Err(x);
            },
            Ok(()) => {},
        }
        k = k + 1;
    }
    assert(ids@.take(k as int) =~= ids@);
    Ok(())
}

// ---------------------------------------------------------------------------
// Statements.
// ---------------------------------------------------------------------------

/// The first of two findings.
pub open spec fn first(a: Option<Fault>, b: Option<Fault>) -> Option<Fault> {
    match a {
        Some(f) => Some(f),
        None => b,
    }
}

/// The fuel of an expression walk: the number of expressions.
pub open spec fn expr_fuel(p: HirProgram) -> nat {
    p.exprs@.len()
}

/// The first violation in a statement: a dangling index, its span, then its
/// symbol, expressions and nested statements in order.
pub open spec fn stmt_fault(p: HirProgram, id: int, fuel: nat) -> Option<Fault>
    decreases fuel, 0nat, 0nat,
{
    if !(0 <= id < p.stmts@.len()) {
        Some(dangling("statement"@, id))
    } else if fuel == 0 {
        None
    } else {
        let s = p.stmts@[id];
        let ef = expr_fuel(p);
        match span_fault(p, stmt_span(s)) {
            Some(f) => Some(f),
            None => match s {
                Stmt::Expr { expr, .. } => expr_fault(p, expr as int, ef),
                Stmt::Assign { target, value, .. } => exprs_fault(p, seq![target, value], ef),
                Stmt::If { branches, else_body, .. } => match branches_fault(
                    p,
                    branches@,
                    (fuel - 1) as nat,
                ) {
                    Some(f) => Some(f),
                    None => match else_body {
                        Some(b) => stmts_fault(p, b@, (fuel - 1) as nat),
                        None => None,
                    },
                },
                Stmt::For { variable, iterable, body, .. } => if variable >= p.globals@.len() {
                    Some(dangling("global variable"@, variable as int))
                } else {
                    match expr_fault(p, iterable as int, ef) {
                        Some(f) => Some(f),
                        None => stmts_fault(p, body@, (fuel - 1) as nat),
                    }
                },
                Stmt::While { condition, body, .. } => match expr_fault(p, condition as int, ef) {
                    Some(f) => Some(f),
                    None => stmts_fault(p, body@, (fuel - 1) as nat),
                },
                Stmt::CallSubroutine { subroutine, .. } => if subroutine >= p.subroutines@.len() {
                    Some(dangling("subroutine"@, subroutine as int))
                } else {
                    None
                },
                Stmt::Pass { .. } => None,
            },
        }
    }
}

/// The first violation in a list of statements.
pub open spec fn stmts_fault(p: HirProgram, ids: Seq<usize>, fuel: nat) -> Option<Fault>
    decreases fuel, 1nat, ids.len(),
{
    if ids.len() == 0 {
        None
    } else {
        match stmts_fault(p, ids.drop_last(), fuel) {
            Some(f) => Some(f),
            None => stmt_fault(p, ids.last() as int, fuel),
        }
    }
}

/// The first violation in the branches of an `if`: each condition, then its
/// body.
pub open spec fn branches_fault(p: HirProgram, bs: Seq<IfBranch>, fuel: nat) -> Option<Fault>
    decreases fuel, 2nat, bs.len(),
{
    if bs.len() == 0 {
        None
    } else {
        match branches_fault(p, bs.drop_last(), fuel) {
            Some(f) => Some(f),
            None => match expr_fault(p, bs.last().condition as int, expr_fuel(p)) {
                Some(f) => Some(f),
                None => stmts_fault(p, bs.last().body@, fuel),
            },
        }
    }
}

proof fn lemma_stmts_fault_persists(p: HirProgram, ids: Seq<usize>, k: int, fuel: nat)
    requires
        0 <= k <= ids.len(),
        stmts_fault(p, ids.take(k), fuel) is Some,
    ensures
        stmts_fault(p, ids, fuel) == stmts_fault(p, ids.take(k), fuel),
    decreases ids.len() - k,
{
    if k < ids.len() {
        assert(ids.take(k + 1).drop_last() =~= ids.take(k));
        lemma_stmts_fault_persists(p, ids, k + 1, fuel);
    } else {
        assert(ids.take(k) =~= ids);
    }
}

proof fn lemma_branches_fault_persists(p: HirProgram, bs: Seq<IfBranch>, k: int, fuel: nat)
    requires
        0 <= k <= bs.len(),
        branches_fault(p, bs.take(k), fuel) is Some,
    ensures
        branches_fault(p, bs, fuel) == branches_fault(p, bs.take(k), fuel),
    decreases bs.len() - k,
{
    if k < bs.len() {
        assert(bs.take(k + 1).drop_last() =~= bs.take(k));
        lemma_branches_fault_persists(p, bs, k + 1, fuel);
    } else {
        assert(bs.take(k) =~= bs);
    }
}

fn stmt_span_of(s: &Stmt) -> (r: Option<Span>)
    ensures
        r == stmt_span(*s),
{
    match s {
        Stmt::Expr { span, .. } => *span,
        Stmt::Assign { span, .. } => *span,
        Stmt::If { span, .. } => *span,
        Stmt::For { span, .. } => *span,
        Stmt::While { span, .. } => *span,
        Stmt::CallSubroutine { span, .. } => *span,
        Stmt::Pass { span } => *span,
    }
}

fn check_stmt(p: &HirProgram, id: usize, fuel: usize) -> (r: Result<(), IrError>)
    ensures
        outcome(r, stmt_fault(*p, id as int, fuel as nat)),
    decreases fuel, 0nat, 0nat,
{
    if id >= p.stmts.len() {
        return Err(IrError::DanglingReference { what: "statement", id: id as u32 });
    }
    if fuel == 0 {
        return Ok(());
    }
    let s = &p.stmts[id];
    let ef = p.exprs.len();
    match check_span(p, stmt_span_of(s)) {
        Err(x) => {
            return Err(x);
        },
        Ok(()) => {},
    }
    match s {
        Stmt::Expr { expr, .. } => check_expr(p, *expr, ef),
        Stmt::Assign { target, value, .. } => {
            let v: Vec<usize> = vec![*target, *value];
            assert(v@ =~= seq![*target, *value]);
            check_exprs(p, v.as_slice(), ef)
        },
        Stmt::If { branches, else_body, .. } => {
            match check_branches(p, branches.as_slice(), fuel - 1) {
                Err(x) => {
                    return Err(x);
                },
                Ok(()) => {},
            }
            match else_body {
                Some(b) => check_stmts(p, b.as_slice(), fuel - 1),
                None => Ok(()),
            }
        },
        Stmt::For { variable, iterable, body, .. } => {
            if *variable >= p.globals.len() {
                return Err(
                    IrError::DanglingReference { what: "global variable", id: *variable as u32 },
                );
            }
            match check_expr(p, *iterable, ef) {
                Err(x) => {
                    return Err(x);
                },
                Ok(()) => {},
            }
            check_stmts(p, body.as_slice(), fuel - 1)
        },
        Stmt::While { condition, body, .. } => {
            match check_expr(p, *condition, ef) {
                Err(x) => {
                    return Err(x);
                },
                Ok(()) => {},
            }
            check_stmts(p, body.as_slice(), fuel - 1)
        },
        Stmt::CallSubroutine { subroutine, .. } => {
            if *subroutine >= p.subroutines.len() {
                return Err(IrError::DanglingReference { what: "subroutine", id: *subroutine as u32 });
            }
            Ok(())
        },
        Stmt::Pass { .. } => Ok(()),
    }
}

fn check_stmts(p: &HirProgram, ids: &[usize], fuel: usize) -> (r: Result<(), IrError>)
    ensures
        outcome(r, stmts_fault(*p, ids@, fuel as nat)),
    decreases fuel, 1nat, ids@.len(),
{
    let mut k: usize = 0;
    while k < ids.len()
        invariant
            k <= ids@.len(),
            stmts_fault(*p, ids@.take(k as int), fuel as nat) is None,
        decreases ids@.len() - k,
    {
        assert(ids@.take(k + 1).drop_last() =~= ids@.take(k as int));
        match check_stmt(p, ids[k], fuel) {
            Err(x) => {
                proof {
                    lemma_stmts_fault_persists(*p, ids@, k + 1, fuel as nat);
                }
                return Err(x);
            },
            Ok(()) => {},
        }
        k = k + 1;
    }
    assert(ids@.take(k as int) =~= ids@);
    Ok(())
}

fn check_branches(p: &HirProgram, bs: &[IfBranch], fuel: usize) -> (r: Result<(), IrError>)
    ensures
        outcome(r, branches_fault(*p, bs@, fuel as nat)),
    decreases fuel, 2nat, bs@.len(),
{
    let ef = p.exprs.len();
    let mut k: usize = 0;
    while k < bs.len()
        invariant
            k <= bs@.len(),
            ef == expr_fuel(*p),
            branches_fault(*p, bs@.take(k as int), fuel as nat) is None,
        decreases bs@.len() - k,
    {
        assert(bs@.take(k + 1).drop_last() =~= bs@.take(k as int));
        let b = &bs[k];
        let checked = match check_expr(p, b.condition, ef) {
            Err(x) => Err(x),
            Ok(()) => check_stmts(p, b.body.as_slice(), fuel),
        };
        match checked {
            Err(x) => {
                proof {
                    lemma_branches_fault_persists(*p, bs@, k + 1, fuel as nat);
                }
                return Err(x);
            },
            Ok(()) => {},
        }
        k = k + 1;
    }
    assert(bs@.take(k as int) =~= bs@);
    Ok(())
}

// ---------------------------------------------------------------------------
// Declarations, rules and the whole program.
// ---------------------------------------------------------------------------

/// The fuel of a statement walk: the number of statements.
pub open spec fn stmt_fuel(p: HirProgram) -> nat {
    p.stmts@.len()
}

/// The first violation among a list of items, each checked by `f`.
pub open spec fn first_fault<T>(items: Seq<T>, f: spec_fn(T) -> Option<Fault>) -> Option<Fault>
    decreases items.len(),
{
    if items.len() == 0 {
        None
    } else {
        first(first_fault(items.drop_last(), f), f(items.last()))
    }
}

pub(crate) proof fn lemma_first_fault_persists<T>(items: Seq<T>, f: spec_fn(T) -> Option<Fault>, k: int)
    requires
        0 <= k <= items.len(),
        first_fault(items.take(k), f) is Some,
    ensures
        first_fault(items, f) == first_fault(items.take(k), f),
    decreases items.len() - k,
{
    if k < items.len() {
        assert(items.take(k + 1).drop_last() =~= items.take(k));
        lemma_first_fault_persists(items, f, k + 1);
    } else {
        assert(items.take(k) =~= items);
    }
}

pub open spec fn global_fault(p: HirProgram, g: GlobalVar) -> Option<Fault> {
    first(
        span_fault(p, g.span),
        match g.initializer {
            Some(i) => expr_fault(p, i as int, expr_fuel(p)),
            None => None,
        },
    )
}

pub open spec fn player_fault(p: HirProgram, v: PlayerVar) -> Option<Fault> {
    first(
        span_fault(p, v.span),
        match v.initializer {
            Some(i) => expr_fault(p, i as int, expr_fuel(p)),
            None => None,
        },
    )
}

pub open spec fn subroutine_fault(p: HirProgram, s: Subroutine) -> Option<Fault> {
    first(
        span_fault(p, s.decl_span),
        match s.body {
            Some(b) => first(span_fault(p, b.span), stmts_fault(p, b.statements@, stmt_fuel(p))),
            None => None,
        },
    )
}

pub open spec fn constant_fault(p: HirProgram, c: Constant) -> Option<Fault> {
    first(span_fault(p, c.span), expr_fault(p, c.value as int, expr_fuel(p)))
}

pub open spec fn macro_fault(p: HirProgram, m: Macro) -> Option<Fault> {
    first(span_fault(p, m.span), stmts_fault(p, m.body@, stmt_fuel(p)))
}

pub open spec fn rule_fault(p: HirProgram, r: Rule) -> Option<Fault> {
    first(
        span_fault(p, r.span),
        first(
            span_fault(p, r.event.span),
            first(
                exprs_fault(p, r.event.args@, expr_fuel(p)),
                first(
                    exprs_fault(p, r.conditions@, expr_fuel(p)),
                    stmts_fault(p, r.actions@, stmt_fuel(p)),
                ),
            ),
        ),
    )
}

/// The first violation of a program: its globals, player variables,
/// subroutines, constants, macros and rules, in that order.
pub open spec fn validation_fault(p: HirProgram) -> Option<Fault> {
    first(
        first_fault(p.globals@, |g: GlobalVar| global_fault(p, g)),
        first(
            first_fault(p.players@, |v: PlayerVar| player_fault(p, v)),
            first(
                first_fault(p.subroutines@, |s: Subroutine| subroutine_fault(p, s)),
                first(
                    first_fault(p.constants@, |c: Constant| constant_fault(p, c)),
                    first(
                        first_fault(p.macros@, |m: Macro| macro_fault(p, m)),
                        first_fault(p.rules@, |r: Rule| rule_fault(p, r)),
                    ),
                ),
            ),
        ),
    )
}

fn check_global(p: &HirProgram, g: &GlobalVar) -> (r: Result<(), IrError>)
    ensures
        outcome(r, global_fault(*p, *g)),
{
    match check_span(p, g.span) {
        Err(x) => {
            return Err(x);
        },
        Ok(()) => {},
    }
    match g.initializer {
        Some(i) => check_expr(p, i, p.exprs.len()),
        None => Ok(()),
    }
}

fn check_player(p: &HirProgram, v: &PlayerVar) -> (r: Result<(), IrError>)
    ensures
        outcome(r, player_fault(*p, *v)),
{
    match check_span(p, v.span) {
        Err(x) => {
            return Err(x);
        },
        Ok(()) => {},
    }
    match v.initializer {
        Some(i) => check_expr(p, i, p.exprs.len()),
        None => Ok(()),
    }
}

fn check_subroutine(p: &HirProgram, s: &Subroutine) -> (r: Result<(), IrError>)
    ensures
        outcome(r, subroutine_fault(*p, *s)),
{
    match check_span(p, s.decl_span) {
        Err(x) => {
            return Err(x);
        },
        Ok(()) => {},
    }
    match &s.body {
        Some(b) => {
            match check_span(p, b.span) {
                Err(x) => {
                    return Err(x);
                },
                Ok(()) => {},
            }
            check_stmts(p, b.statements.as_slice(), p.stmts.len())
        },
        None => Ok(()),
    }
}

fn check_constant(p: &HirProgram, c: &Constant) -> (r: Result<(), IrError>)
    ensures
        outcome(r, constant_fault(*p, *c)),
{
    match check_span(p, c.span) {
        Err(x) => {
            return Err(x);
        },
        Ok(()) => {},
    }
    check_expr(p, c.value, p.exprs.len())
}

fn check_macro(p: &HirProgram, m: &Macro) -> (r: Result<(), IrError>)
    ensures
        outcome(r, macro_fault(*p, *m)),
{
    match check_span(p, m.span) {
        Err(x) => {
            return Err(x);
        },
        Ok(()) => {},
    }
    check_stmts(p, m.body.as_slice(), p.stmts.len())
}

fn check_rule(p: &HirProgram, rule: &Rule) -> (r: Result<(), IrError>)
    ensures
        outcome(r, rule_fault(*p, *rule)),
{
    match check_span(p, rule.span) {
        Err(x) => {
            return Err(x);
        },
        Ok(()) => {},
    }
    match check_span(p, rule.event.span) {
        Err(x) => {
            return Err(x);
        },
        Ok(()) => {},
    }
    match check_exprs(p, rule.event.args.as_slice(), p.exprs.len()) {
        Err(x) => {
            return Err(x);
        },
        Ok(()) => {},
    }
    match check_exprs(p, rule.conditions.as_slice(), p.exprs.len()) {
        Err(x) => {
            return Err(x);
        },
        Ok(()) => {},
    }
    check_stmts(p, rule.actions.as_slice(), p.stmts.len())
}

impl HirProgram {
    /// Validates the structural invariants: every index names a node of its
    /// arena and every span is valid and in a registered file. Returns the
    /// first violation in declaration order.
    pub fn validate(&self) -> (r: Result<(), IrError>)
        ensures
            outcome(r, validation_fault(*self)),
    {
        let ghost p = *self;
        let ghost gf = |g: GlobalVar| global_fault(p, g);
        let mut k: usize = 0;
        while k < self.globals.len()
            invariant
                p == *self,
                gf == (|g: GlobalVar| global_fault(p, g)),
                k <= self.globals@.len(),
                first_fault(self.globals@.take(k as int), gf) is None,
            decreases self.globals@.len() - k,
        {
            assert(self.globals@.take(k + 1).drop_last() =~= self.globals@.take(k as int));
            match check_global(self, &self.globals[k]) {
                Err(x) => {
                    proof {
                        lemma_first_fault_persists(self.globals@, gf, k + 1);
                    }
                    return Err(x);
                },
                Ok(()) => {},
            }
            k = k + 1;
        }
        assert(self.globals@.take(k as int) =~= self.globals@);
        let ghost pf = |v: PlayerVar| player_fault(p, v);
        let mut k: usize = 0;
        while k < self.players.len()
            invariant
                p == *self,
                pf == (|v: PlayerVar| player_fault(p, v)),
                first_fault(self.globals@, gf) is None,
                gf == (|g: GlobalVar| global_fault(p, g)),
                k <= self.players@.len(),
                first_fault(self.players@.take(k as int), pf) is None,
            decreases self.players@.len() - k,
        {
            assert(self.players@.take(k + 1).drop_last() =~= self.players@.take(k as int));
            match check_player(self, &self.players[k]) {
                Err(x) => {
                    proof {
                        lemma_first_fault_persists(self.players@, pf, k + 1);
                    }
                    return Err(x);
                },
                Ok(()) => {},
            }
            k = k + 1;
        }
        assert(self.players@.take(k as int) =~= self.players@);
        let ghost sf = |s: Subroutine| subroutine_fault(p, s);
        let mut k: usize = 0;
        while k < self.subroutines.len()
            invariant
                p == *self,
                sf == (|s: Subroutine| subroutine_fault(p, s)),
                first_fault(self.globals@, gf) is None,
                gf == (|g: GlobalVar| global_fault(p, g)),
                first_fault(self.players@, pf) is None,
                pf == (|v: PlayerVar| player_fault(p, v)),
                k <= self.subroutines@.len(),
                first_fault(self.subroutines@.take(k as int), sf) is None,
            decreases self.subroutines@.len() - k,
        {
            assert(self.subroutines@.take(k + 1).drop_last() =~= self.subroutines@.take(k as int));
            match check_subroutine(self, &self.subroutines[k]) {
                Err(x) => {
                    proof {
                        lemma_first_fault_persists(self.subroutines@, sf, k + 1);
                    }
                    return Err(x);
                },
                Ok(()) => {},
            }
            k = k + 1;
        }
        assert(self.subroutines@.take(k as int) =~= self.subroutines@);
        let ghost cf = |c: Constant| constant_fault(p, c);
        let mut k: usize = 0;
        while k < self.constants.len()
            invariant
                p == *self,
                cf == (|c: Constant| constant_fault(p, c)),
                first_fault(self.globals@, gf) is None,
                gf == (|g: GlobalVar| global_fault(p, g)),
                first_fault(self.players@, pf) is None,
                pf == (|v: PlayerVar| player_fault(p, v)),
                first_fault(self.subroutines@, sf) is None,
                sf == (|s: Subroutine| subroutine_fault(p, s)),
                k <= self.constants@.len(),
                first_fault(self.constants@.take(k as int), cf) is None,
            decreases self.constants@.len() - k,
        {
            assert(self.constants@.take(k + 1).drop_last() =~= self.constants@.take(k as int));
            match check_constant(self, &self.constants[k]) {
                Err(x) => {
                    proof {
                        lemma_first_fault_persists(self.constants@, cf, k + 1);
                    }
                    return Err(x);
                },
                Ok(()) => {},
            }
            k = k + 1;
        }
        assert(self.constants@.take(k as int) =~= self.constants@);
        let ghost mf = |m: Macro| macro_fault(p, m);
        let mut k: usize = 0;
        while k < self.macros.len()
            invariant
                p == *self,
                mf == (|m: Macro| macro_fault(p, m)),
                first_fault(self.globals@, gf) is None,
                gf == (|g: GlobalVar| global_fault(p, g)),
                first_fault(self.players@, pf) is None,
                pf == (|v: PlayerVar| player_fault(p, v)),
                first_fault(self.subroutines@, sf) is None,
                sf == (|s: Subroutine| subroutine_fault(p, s)),
                first_fault(self.constants@, cf) is None,
                cf == (|c: Constant| constant_fault(p, c)),
                k <= self.macros@.len(),
                first_fault(self.macros@.take(k as int), mf) is None,
            decreases self.macros@.len() - k,
        {
            assert(self.macros@.take(k + 1).drop_last() =~= self.macros@.take(k as int));
            match check_macro(self, &self.macros[k]) {
                Err(x) => {
                    proof {
                        lemma_first_fault_persists(self.macros@, mf, k + 1);
                    }
                    return Err(x);
                },
                Ok(()) => {},
            }
            k = k + 1;
        }
        assert(self.macros@.take(k as int) =~= self.macros@);
        let ghost rf = |r: Rule| rule_fault(p, r);
        let mut k: usize = 0;
        while k < self.rules.len()
            invariant
                p == *self,
                rf == (|r: Rule| rule_fault(p, r)),
                first_fault(self.globals@, gf) is None,
                gf == (|g: GlobalVar| global_fault(p, g)),
                first_fault(self.players@, pf) is None,
                pf == (|v: PlayerVar| player_fault(p, v)),
                first_fault(self.subroutines@, sf) is None,
                sf == (|s: Subroutine| subroutine_fault(p, s)),
                first_fault(self.constants@, cf) is None,
                cf == (|c: Constant| constant_fault(p, c)),
                first_fault(self.macros@, mf) is None,
                mf == (|m: Macro| macro_fault(p, m)),
                k <= self.rules@.len(),
                first_fault(self.rules@.take(k as int), rf) is None,
            decreases self.rules@.len() - k,
        {
            assert(self.rules@.take(k + 1).drop_last() =~= self.rules@.take(k as int));
            match check_rule(self, &self.rules[k]) {
                Err(x) => {
                    proof {
                        lemma_first_fault_persists(self.rules@, rf, k + 1);
                    }
                    return Err(x);
                },
                Ok(()) => {},
            }
            k = k + 1;
        }
        assert(self.rules@.take(k as int) =~= self.rules@);
        Ok(())
    }
}


// ---------------------------------------------------------------------------
// Fuel.
// ---------------------------------------------------------------------------

/// `rank` orders the expression arena: each expression's rank is below the
/// arena's length, and every expression it refers to ranks lower still.
pub open spec fn exprs_ranked(p: HirProgram, rank: spec_fn(int) -> nat) -> bool {
    &&& forall|i: int| 0 <= i < p.exprs@.len() ==> #[trigger] rank(i) < p.exprs@.len()
    &&& forall|i: int, k: int|
        #![trigger expr_refs(p.exprs@[i])[k]]
        0 <= i < p.exprs@.len() && 0 <= k < expr_refs(p.exprs@[i]).len() && expr_refs(
            p.exprs@[i],
        )[k] < p.exprs@.len() ==> rank(expr_refs(p.exprs@[i])[k] as int) < rank(i)
}

/// Every statement of `ids` that exists ranks below `bound`.
pub open spec fn stmts_below(
    p: HirProgram,
    rank: spec_fn(int) -> nat,
    ids: Seq<usize>,
    bound: nat,
) -> bool {
    forall|k: int| 0 <= k < ids.len() && ids[k] < p.stmts@.len() ==> #[trigger] rank(ids[k] as int) < bound
}

/// Every statement nested directly in `s` ranks below `bound`.
pub open spec fn nested_below(p: HirProgram, rank: spec_fn(int) -> nat, s: Stmt, bound: nat) -> bool {
    match s {
        Stmt::If { branches, else_body, .. } => {
            &&& forall|b: int| 0 <= b < branches@.len() ==> stmts_below(p, rank, #[trigger] branches@[b].body@, bound)
            &&& else_body matches Some(e) ==> stmts_below(p, rank, e@, bound)
        },
        Stmt::For { body, .. } => stmts_below(p, rank, body@, bound),
        Stmt::While { body, .. } => stmts_below(p, rank, body@, bound),
        _ => true,
    }
}

/// `rank` orders the statement arena: each statement's rank is below the
/// arena's length, and every statement nested in it ranks lower still.
pub open spec fn stmts_ranked(p: HirProgram, rank: spec_fn(int) -> nat) -> bool {
    forall|i: int| 0 <= i < p.stmts@.len() ==> {
        &&& #[trigger] rank(i) < p.stmts@.len()
        &&& nested_below(p, rank, p.stmts@[i], rank(i))
    }
}

proof fn lemma_expr_fuel(p: HirProgram, rank: spec_fn(int) -> nat, id: int, f1: nat, f2: nat)
    requires
        exprs_ranked(p, rank),
        0 <= id < p.exprs@.len(),
        f1 > rank(id),
        f2 > rank(id),
    ensures
        expr_fault(p, id, f1) == expr_fault(p, id, f2),
    decreases rank(id) + 1nat, 0nat,
{
    let e = p.exprs@[id];
    let refs = expr_refs(e);
    assert forall|k: int| 0 <= k < refs.len() && refs[k] < p.exprs@.len() implies #[trigger] rank(
        refs[k] as int,
    ) < rank(id) by {
        assert(expr_refs(p.exprs@[id])[k] == refs[k]);
    }
    match e {
        Expr::PlayerVar { player, .. } => {
            if (player as int) < p.exprs@.len() {
                assert(refs[0] == player);
                lemma_expr_fuel(p, rank, player as int, (f1 - 1) as nat, (f2 - 1) as nat);
            }
        },
        _ => {
            lemma_exprs_fuel(p, rank, refs, (f1 - 1) as nat, (f2 - 1) as nat, rank(id));
        },
    }
}

proof fn lemma_exprs_fuel(
    p: HirProgram,
    rank: spec_fn(int) -> nat,
    ids: Seq<usize>,
    f1: nat,
    f2: nat,
    bound: nat,
)
    requires
        exprs_ranked(p, rank),
        forall|k: int| 0 <= k < ids.len() && ids[k] < p.exprs@.len() ==> #[trigger] rank(ids[k] as int) < bound,
        bound <= f1,
        bound <= f2,
    ensures
        exprs_fault(p, ids, f1) == exprs_fault(p, ids, f2),
    decreases bound, ids.len(),
{
    if ids.len() > 0 {
        let rest = ids.drop_last();
        assert forall|k: int| 0 <= k < rest.len() && rest[k] < p.exprs@.len() implies #[trigger] rank(
            rest[k] as int,
        ) < bound by {
            assert(rest[k] == ids[k]);
        }
        lemma_exprs_fuel(p, rank, rest, f1, f2, bound);
        let last = ids.last();
        if (last as int) < p.exprs@.len() {
            assert(ids[ids.len() - 1] == last);
            lemma_expr_fuel(p, rank, last as int, f1, f2);
        }
    }
}

/// On an expression arena whose references never come back to a node, a
/// walk with as much fuel as there are expressions finds what a walk with
/// any more fuel finds.
pub proof fn law_expression_fuel_suffices(
    p: HirProgram,
    rank: spec_fn(int) -> nat,
    id: int,
    fuel: nat,
)
    requires
        exprs_ranked(p, rank),
        fuel >= expr_fuel(p),
    ensures
        expr_fault(p, id, fuel) == expr_fault(p, id, expr_fuel(p)),
{
    if 0 <= id < p.exprs@.len() {
        lemma_expr_fuel(p, rank, id, fuel, expr_fuel(p));
    }
}

proof fn lemma_stmt_fuel(p: HirProgram, rank: spec_fn(int) -> nat, id: int, f1: nat, f2: nat)
    requires
        stmts_ranked(p, rank),
        0 <= id < p.stmts@.len(),
        f1 > rank(id),
        f2 > rank(id),
    ensures
        stmt_fault(p, id, f1) == stmt_fault(p, id, f2),
    decreases rank(id) + 1nat, 0nat, 0nat,
{
    let s = p.stmts@[id];
    assert(nested_below(p, rank, s, rank(id)));
    match s {
        Stmt::If { branches, else_body, .. } => {
            lemma_branches_fuel(p, rank, branches@, (f1 - 1) as nat, (f2 - 1) as nat, rank(id));
            match else_body {
                Some(b) => {
                    lemma_stmts_fuel(p, rank, b@, (f1 - 1) as nat, (f2 - 1) as nat, rank(id));
                },
                None => {},
            }
        },
        Stmt::For { body, .. } => {
            lemma_stmts_fuel(p, rank, body@, (f1 - 1) as nat, (f2 - 1) as nat, rank(id));
        },
        Stmt::While { body, .. } => {
            lemma_stmts_fuel(p, rank, body@, (f1 - 1) as nat, (f2 - 1) as nat, rank(id));
        },
        _ => {},
    }
}

proof fn lemma_stmts_fuel(
    p: HirProgram,
    rank: spec_fn(int) -> nat,
    ids: Seq<usize>,
    f1: nat,
    f2: nat,
    bound: nat,
)
    requires
        stmts_ranked(p, rank),
        stmts_below(p, rank, ids, bound),
        bound <= f1,
        bound <= f2,
    ensures
        stmts_fault(p, ids, f1) == stmts_fault(p, ids, f2),
    decreases bound, 0nat, ids.len(),
{
    if ids.len() > 0 {
        let rest = ids.drop_last();
        assert forall|k: int| 0 <= k < rest.len() && rest[k] < p.stmts@.len() implies #[trigger] rank(
            rest[k] as int,
        ) < bound by {
            assert(rest[k] == ids[k]);
        }
        lemma_stmts_fuel(p, rank, rest, f1, f2, bound);
        let last = ids.last();
        if (last as int) < p.stmts@.len() {
            assert(ids[ids.len() - 1] == last);
            lemma_stmt_fuel(p, rank, last as int, f1, f2);
        }
    }
}

proof fn lemma_branches_fuel(
    p: HirProgram,
    rank: spec_fn(int) -> nat,
    bs: Seq<IfBranch>,
    f1: nat,
    f2: nat,
    bound: nat,
)
    requires
        stmts_ranked(p, rank),
        forall|b: int| 0 <= b < bs.len() ==> stmts_below(p, rank, #[trigger] bs[b].body@, bound),
        bound <= f1,
        bound <= f2,
    ensures
        branches_fault(p, bs, f1) == branches_fault(p, bs, f2),
    decreases bound, 1nat, bs.len(),
{
    if bs.len() > 0 {
        let rest = bs.drop_last();
        assert forall|b: int| 0 <= b < rest.len() implies stmts_below(p, rank, #[trigger] rest[b].body@, bound) by {
            assert(rest[b] == bs[b]);
        }
        lemma_branches_fuel(p, rank, rest, f1, f2, bound);
        assert(bs[bs.len() - 1] == bs.last());
        lemma_stmts_fuel(p, rank, bs.last().body@, f1, f2, bound);
    }
}

/// On a statement arena whose nesting never comes back to a statement, a
/// walk with as much fuel as there are statements finds what a walk with any
/// more fuel finds.
pub proof fn law_statement_fuel_suffices(
    p: HirProgram,
    rank: spec_fn(int) -> nat,
    id: int,
    fuel: nat,
)
    requires
        stmts_ranked(p, rank),
        fuel >= stmt_fuel(p),
    ensures
        stmt_fault(p, id, fuel) == stmt_fault(p, id, stmt_fuel(p)),
{
    if 0 <= id < p.stmts@.len() {
        lemma_stmt_fuel(p, rank, id, fuel, stmt_fuel(p));
    }
}

} // verus!
