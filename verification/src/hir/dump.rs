//! A deterministic, human-readable dump of the internal Opy HIR.
//!
//! A number prints as its value does, and that value is a float, which this
//! library does not hold: the caller hands in how each number expression
//! prints, indexed by expression.
//!
//! Like validation, the walk follows references as it finds them and carries
//! fuel: as many steps as the arena has nodes.

use vstd::prelude::*;

use crate::hir::{
    Event, Expr, HirProgram, IfBranch, Span, Stmt, expr_fuel, expr_refs, exprs_ranked, nested_below,
    stmt_fuel, stmts_below, stmts_ranked,
};
use crate::ir::{UnaryOp, binary_op_name, unary_op_name};
use crate::text::{decimal, decimal_string};

verus! {

broadcast use vstd::string::group_string_axioms;

// ---------------------------------------------------------------------------
// What the dump holds.
// ---------------------------------------------------------------------------

/// How `Debug` writes a string: in double quotes, with quotes, backslashes
/// and unprintable characters escaped.
pub uninterp spec fn debug_quoted(s: Seq<char>) -> Seq<char>;

/// The characters of each string in `v`.
pub open spec fn texts(v: Seq<String>) -> Seq<Seq<char>> {
    v.map_values(|s: String| s@)
}

/// `level` steps of two spaces.
pub open spec fn indent(level: nat) -> Seq<char>
    decreases level,
{
    if level == 0 {
        Seq::empty()
    } else {
        indent((level - 1) as nat) + "  "@
    }
}

/// ` @file:line:col-line:col`, or nothing without a span.
pub open spec fn span_suffix(span: Option<Span>) -> Seq<char> {
    match span {
        Some(s) => " @"@ + decimal(s.file as nat) + ":"@ + decimal(s.start.line as nat) + ":"@
            + decimal(s.start.col as nat) + "-"@ + decimal(s.end.line as nat) + ":"@ + decimal(
            s.end.col as nat,
        ),
        None => Seq::empty(),
    }
}

/// A symbol's name, or a marker naming what dangles.
pub open spec fn symbol_name(name: Option<Seq<char>>, what: Seq<char>, id: nat) -> Seq<char> {
    match name {
        Some(n) => n,
        None => "<dangling "@ + what + " "@ + decimal(id) + ">"@,
    }
}

pub open spec fn global_name(p: HirProgram, id: usize) -> Option<Seq<char>> {
    if id < p.globals@.len() {
        Some(p.globals@[id as int].name@)
    } else {
        None
    }
}

pub open spec fn player_name(p: HirProgram, id: usize) -> Option<Seq<char>> {
    if id < p.players@.len() {
        Some(p.players@[id as int].name@)
    } else {
        None
    }
}

pub open spec fn constant_name(p: HirProgram, id: usize) -> Option<Seq<char>> {
    if id < p.constants@.len() {
        Some(p.constants@[id as int].name@)
    } else {
        None
    }
}

pub open spec fn macro_name(p: HirProgram, id: usize) -> Option<Seq<char>> {
    if id < p.macros@.len() {
        Some(p.macros@[id as int].name@)
    } else {
        None
    }
}

/// How the number at expression `id` prints.
pub open spec fn number_text(nums: Seq<Seq<char>>, id: int) -> Seq<char> {
    if 0 <= id < nums.len() {
        nums[id]
    } else {
        Seq::empty()
    }
}

/// An expression in source-like form.
pub open spec fn expr_text(p: HirProgram, nums: Seq<Seq<char>>, id: int, fuel: nat) -> Seq<char>
    decreases fuel, 1nat, 0nat,
{
    if !(0 <= id < p.exprs@.len()) {
        "<dangling expr "@ + decimal(id as nat) + ">"@
    } else if fuel == 0 {
        Seq::empty()
    } else {
        node_text(p, nums, id, p.exprs@[id], (fuel - 1) as nat)
    }
}

/// The expression `e` at `id`, its operands written with fuel `f`.
pub open spec fn node_text(p: HirProgram, nums: Seq<Seq<char>>, id: int, e: Expr, f: nat) -> Seq<
    char,
>
    decreases f + 1, 0nat, 0nat,
{
    {
        match e {
            Expr::Number { .. } => number_text(nums, id),
            Expr::String { value, .. } => debug_quoted(value@),
            Expr::Bool { value, .. } => if value {
                "true"@
            } else {
                "false"@
            },
            Expr::Null { .. } => "null"@,
            Expr::Array { elements, .. } => "["@ + list_text(p, nums, elements@, f) + "]"@,
            Expr::Vector { x, y, z, .. } => "vect("@ + expr_text(p, nums, x as int, f) + ", "@
                + expr_text(p, nums, y as int, f) + ", "@ + expr_text(p, nums, z as int, f) + ")"@,
            Expr::Enum { value_type, value, .. } => value_type@ + "."@ + value@,
            Expr::GlobalVar { variable, .. } => symbol_name(
                global_name(p, variable),
                "global"@,
                variable as nat,
            ),
            Expr::PlayerVar { player, variable, .. } => expr_text(p, nums, player as int, f) + "."@
                + symbol_name(player_name(p, variable), "player"@, variable as nat),
            Expr::EventPlayer { .. } => "eventPlayer"@,
            Expr::Constant { constant, .. } => symbol_name(
                constant_name(p, constant),
                "constant"@,
                constant as nat,
            ),
            Expr::Call { name, args, .. } => name@ + "("@ + list_text(p, nums, args@, f) + ")"@,
            Expr::ReceiverCall { receiver, name, args, .. } => expr_text(
                p,
                nums,
                receiver as int,
                f,
            ) + "."@ + name@ + "("@ + list_text(p, nums, args@, f) + ")"@,
            Expr::MacroCall { macro_, args, .. } => "$"@ + symbol_name(
                macro_name(p, macro_),
                "macro"@,
                macro_ as nat,
            ) + "("@ + list_text(p, nums, args@, f) + ")"@,
            Expr::MacroParam { name, .. } => "$"@ + name@,
            Expr::Binary { op, left, right, .. } => "("@ + expr_text(p, nums, left as int, f) + " "@
                + binary_op_name(op) + " "@ + expr_text(p, nums, right as int, f) + ")"@,
            Expr::Unary { op, operand, .. } => if op == UnaryOp::Negate {
                "-"@ + expr_text(p, nums, operand as int, f)
            } else {
                unary_op_name(op) + " "@ + expr_text(p, nums, operand as int, f)
            },
            Expr::Index { array, index, .. } => expr_text(p, nums, array as int, f) + "["@
                + expr_text(p, nums, index as int, f) + "]"@,
            Expr::Format { text, args, .. } => "format("@ + debug_quoted(text@) + tail_text(
                p,
                nums,
                args@,
                f,
            ) + ")"@,
        }
    }
}

/// Expressions separated by `, `.
pub open spec fn list_text(p: HirProgram, nums: Seq<Seq<char>>, ids: Seq<usize>, fuel: nat) -> Seq<
    char,
>
    decreases fuel, 2nat, ids.len(),
{
    if ids.len() == 0 {
        Seq::empty()
    } else if ids.len() == 1 {
        expr_text(p, nums, ids[0] as int, fuel)
    } else {
        list_text(p, nums, ids.drop_last(), fuel) + ", "@ + expr_text(
            p,
            nums,
            ids.last() as int,
            fuel,
        )
    }
}

/// Expressions each preceded by `, `.
pub open spec fn tail_text(p: HirProgram, nums: Seq<Seq<char>>, ids: Seq<usize>, fuel: nat) -> Seq<
    char,
>
    decreases fuel, 2nat, ids.len(),
{
    if ids.len() == 0 {
        Seq::empty()
    } else {
        tail_text(p, nums, ids.drop_last(), fuel) + ", "@ + expr_text(
            p,
            nums,
            ids.last() as int,
            fuel,
        )
    }
}

/// The name a `for` loop's variable prints with.
pub open spec fn loop_variable_name(p: HirProgram, variable: usize) -> Seq<char> {
    match global_name(p, variable) {
        Some(n) => n,
        None => "<dangling "@ + decimal(variable as nat) + ">"@,
    }
}

/// The name a subroutine call prints with.
pub open spec fn callee_name(p: HirProgram, subroutine: usize) -> Seq<char> {
    if subroutine < p.subroutines@.len() {
        p.subroutines@[subroutine as int].name@
    } else {
        "<dangling>"@
    }
}

/// A statement's lines at `level`, nested statements one level deeper
/// (two inside `if`).
pub open spec fn stmt_text(
    p: HirProgram,
    nums: Seq<Seq<char>>,
    id: int,
    level: nat,
    fuel: nat,
) -> Seq<char>
    decreases fuel, 1nat, 0nat,
{
    if !(0 <= id < p.stmts@.len()) {
        indent(level) + "<dangling stmt "@ + decimal(id as nat) + "/>\n"@
    } else if fuel == 0 {
        Seq::empty()
    } else {
        stmt_node_text(p, nums, p.stmts@[id], level, (fuel - 1) as nat)
    }
}

/// The statement `s` at `level`, its nested statements written with fuel `f`.
pub open spec fn stmt_node_text(
    p: HirProgram,
    nums: Seq<Seq<char>>,
    s: Stmt,
    level: nat,
    f: nat,
) -> Seq<char>
    decreases f + 1, 0nat, 0nat,
{
    let ef = expr_fuel(p);
    {
        match s {
            Stmt::Expr { expr, span } => indent(level) + "expr "@ + expr_text(p, nums, expr as int, ef)
                + span_suffix(span) + "\n"@,
            Stmt::Assign { target, value, span } => indent(level) + "assign "@ + expr_text(
                p,
                nums,
                target as int,
                ef,
            ) + " = "@ + expr_text(p, nums, value as int, ef) + span_suffix(span) + "\n"@,
            Stmt::If { branches, else_body, span } => indent(level) + "if"@ + span_suffix(span)
                + "\n"@ + branches_text(p, nums, branches@, level, f) + match else_body {
                Some(b) => indent(level) + "  else\n"@ + stmts_text(p, nums, b@, level + 2, f),
                None => Seq::empty(),
            },
            Stmt::For { variable, iterable, body, span } => indent(level) + "for "@
                + loop_variable_name(p, variable) + " in "@ + expr_text(p, nums, iterable as int, ef)
                + span_suffix(span) + "\n"@ + stmts_text(p, nums, body@, level + 1, f),
            Stmt::While { condition, body, span } => indent(level) + "while "@ + expr_text(
                p,
                nums,
                condition as int,
                ef,
            ) + span_suffix(span) + "\n"@ + stmts_text(p, nums, body@, level + 1, f),
            Stmt::CallSubroutine { subroutine, span } => indent(level) + "callSubroutine "@
                + callee_name(p, subroutine) + " (id "@ + decimal(subroutine as nat) + ")"@
                + span_suffix(span) + "\n"@,
            Stmt::Pass { span } => indent(level) + "pass"@ + span_suffix(span) + "\n"@,
        }
    }
}

/// Statements in order, each at `level`.
pub open spec fn stmts_text(
    p: HirProgram,
    nums: Seq<Seq<char>>,
    ids: Seq<usize>,
    level: nat,
    fuel: nat,
) -> Seq<char>
    decreases fuel, 2nat, ids.len(),
{
    if ids.len() == 0 {
        Seq::empty()
    } else {
        stmts_text(p, nums, ids.drop_last(), level, fuel) + stmt_text(
            p,
            nums,
            ids.last() as int,
            level,
            fuel,
        )
    }
}

/// The condition line of the branch at `index`: the first is `condition`,
/// the others `elif condition`.
pub open spec fn branch_head(index: int) -> Seq<char> {
    if index == 0 {
        "condition "@
    } else {
        "elif condition "@
    }
}

/// The branches of an `if`: each condition line, then its body two levels
/// deeper.
pub open spec fn branches_text(
    p: HirProgram,
    nums: Seq<Seq<char>>,
    bs: Seq<IfBranch>,
    level: nat,
    fuel: nat,
) -> Seq<char>
    decreases fuel, 3nat, bs.len(),
{
    if bs.len() == 0 {
        Seq::empty()
    } else {
        branches_text(p, nums, bs.drop_last(), level, fuel) + indent(level) + "  "@ + branch_head(
            bs.len() - 1,
        ) + expr_text(p, nums, bs.last().condition as int, expr_fuel(p)) + "\n"@ + stmts_text(
            p,
            nums,
            bs.last().body@,
            level + 2,
            fuel,
        )
    }
}


// ---------------------------------------------------------------------------
// Writing it.
// ---------------------------------------------------------------------------

/// `Debug` for `str`, as `format!("{:?}", s)` writes it. Only that the
/// result is the named rendering of `s` is claimed; the escaping itself is
/// std's.
#[verifier::external_body]
pub(crate) fn quoted(s: &str) -> (r: String)
    ensures
        r@ == debug_quoted(s@),
{
    format!("{:?}", s)
}

pub(crate) fn push_decimal(out: &mut String, n: u64)
    ensures
        final(out)@ == old(out)@ + decimal(n as nat),
{
    let d = decimal_string(n);
    out.append(d.as_str());
}

pub(crate) fn push_span_suffix(out: &mut String, span: Option<Span>)
    ensures
        final(out)@ == old(out)@ + span_suffix(span),
{
    match span {
        Some(s) => {
            out.append(" @");
            push_decimal(out, s.file as u64);
            out.append(":");
            push_decimal(out, s.start.line as u64);
            out.append(":");
            push_decimal(out, s.start.col as u64);
            out.append("-");
            push_decimal(out, s.end.line as u64);
            out.append(":");
            push_decimal(out, s.end.col as u64);
            assert(out@ =~= old(out)@ + span_suffix(span));
        },
        None => {
            assert(out@ =~= old(out)@ + span_suffix(span));
        },
    }
}

/// Appends a symbol's name, or the marker naming what dangles.
fn push_symbol(out: &mut String, name: Option<&String>, what: &str, id: usize)
    ensures
        final(out)@ == old(out)@ + symbol_name(
            match name {
                Some(n) => Some(n@),
                None => None,
            },
            what@,
            id as nat,
        ),
{
    match name {
        Some(n) => {
            out.append(n.as_str());
        },
        None => {
            out.append("<dangling ");
            out.append(what);
            out.append(" ");
            push_decimal(out, id as u64);
            out.append(">");
            assert(out@ =~= old(out)@ + ("<dangling "@ + what@ + " "@ + decimal(id as nat) + ">"@));
        },
    }
}

fn render_expr(p: &HirProgram, nums: &[String], id: usize, out: &mut String, fuel: usize)
    ensures
        final(out)@ == old(out)@ + expr_text(*p, texts(nums@), id as int, fuel as nat),
    decreases fuel, 2nat, 0nat,
{
    let ghost n = texts(nums@);
    if id >= p.exprs.len() {
        out.append("<dangling expr ");
        push_decimal(out, id as u64);
        out.append(">");
        assert(out@ =~= old(out)@ + expr_text(*p, n, id as int, fuel as nat));
        return;
    }
    if fuel == 0 {
        assert(out@ =~= old(out)@ + expr_text(*p, n, id as int, fuel as nat));
        return;
    }
    render_node(p, nums, id, &p.exprs[id], out, fuel - 1);
}

fn render_node(p: &HirProgram, nums: &[String], id: usize, e: &Expr, out: &mut String, f: usize)
    ensures
        final(out)@ == old(out)@ + node_text(*p, texts(nums@), id as int, *e, f as nat),
    decreases f + 1, 1nat, 0nat,
{
    match e {
        Expr::Number { .. } => render_leaf(p, nums, id, e, out, f),
        Expr::String { .. } => render_leaf(p, nums, id, e, out, f),
        Expr::Bool { .. } => render_leaf(p, nums, id, e, out, f),
        Expr::Null { .. } => render_leaf(p, nums, id, e, out, f),
        Expr::Enum { .. } => render_leaf(p, nums, id, e, out, f),
        Expr::GlobalVar { .. } => render_leaf(p, nums, id, e, out, f),
        Expr::EventPlayer { .. } => render_leaf(p, nums, id, e, out, f),
        Expr::Constant { .. } => render_leaf(p, nums, id, e, out, f),
        Expr::MacroParam { .. } => render_leaf(p, nums, id, e, out, f),
        Expr::Array { .. } => render_call(p, nums, id, e, out, f),
        Expr::Vector { .. } => render_call(p, nums, id, e, out, f),
        Expr::PlayerVar { .. } => render_call(p, nums, id, e, out, f),
        Expr::Call { .. } => render_call(p, nums, id, e, out, f),
        Expr::ReceiverCall { .. } => render_call(p, nums, id, e, out, f),
        Expr::MacroCall { .. } => render_call(p, nums, id, e, out, f),
        Expr::Binary { .. } => render_op(p, nums, id, e, out, f),
        Expr::Unary { .. } => render_op(p, nums, id, e, out, f),
        Expr::Index { .. } => render_op(p, nums, id, e, out, f),
        Expr::Format { .. } => render_op(p, nums, id, e, out, f),
    }
}

#[verifier::spinoff_prover]
fn render_leaf(p: &HirProgram, nums: &[String], id: usize, e: &Expr, out: &mut String, f: usize)
    requires
        e is Number || e is String || e is Bool || e is Null || e is Enum || e is GlobalVar || e is EventPlayer || e is Constant || e is MacroParam,
    ensures
        final(out)@ == old(out)@ + node_text(*p, texts(nums@), id as int, *e, f as nat),
    decreases f + 1, 0nat, 0nat,
{
    let ghost n = texts(nums@);
    let ghost want = node_text(*p, n, id as int, *e, f as nat);
    match e {
        Expr::Number { .. } => {
            if id < nums.len() {
                out.append(nums[id].as_str());
            }
            assert(out@ =~= old(out)@ + want);
        },
        Expr::String { value, .. } => {
            let q = quoted(value.as_str());
            out.append(q.as_str());
            assert(out@ =~= old(out)@ + want);
        },
        Expr::Bool { value, .. } => {
            if *value {
                out.append("true");
            } else {
                out.append("false");
            }
            assert(out@ =~= old(out)@ + want);
        },
        Expr::Null { .. } => {
            out.append("null");
            assert(out@ =~= old(out)@ + want);
        },
        Expr::Enum { value_type, value, .. } => {
            out.append(value_type.as_str());
            out.append(".");
            out.append(value.as_str());
            assert(out@ =~= old(out)@ + want);
        },
        Expr::GlobalVar { variable, .. } => {
            let name = if *variable < p.globals.len() {
                Some(&p.globals[*variable].name)
            } else {
                None
            };
            push_symbol(out, name, "global", *variable);
            assert(out@ =~= old(out)@ + want);
        },
        Expr::EventPlayer { .. } => {
            out.append("eventPlayer");
            assert(out@ =~= old(out)@ + want);
        },
        Expr::Constant { constant, .. } => {
            let name = if *constant < p.constants.len() {
                Some(&p.constants[*constant].name)
            } else {
                None
            };
            push_symbol(out, name, "constant", *constant);
            assert(out@ =~= old(out)@ + want);
        },
        Expr::MacroParam { name, .. } => {
            out.append("$");
            out.append(name.as_str());
            assert(out@ =~= old(out)@ + want);
        },
        _ => {},
    }
}

#[verifier::spinoff_prover]
fn render_call(p: &HirProgram, nums: &[String], id: usize, e: &Expr, out: &mut String, f: usize)
    requires
        e is Array || e is Vector || e is PlayerVar || e is Call || e is ReceiverCall || e is MacroCall,
    ensures
        final(out)@ == old(out)@ + node_text(*p, texts(nums@), id as int, *e, f as nat),
    decreases f + 1, 0nat, 0nat,
{
    let ghost n = texts(nums@);
    let ghost want = node_text(*p, n, id as int, *e, f as nat);
    match e {
        Expr::Array { elements, .. } => {
            out.append("[");
            render_list(p, nums, elements.as_slice(), out, f);
            out.append("]");
            assert(out@ =~= old(out)@ + want);
        },
        Expr::Vector { x, y, z, .. } => {
            out.append("vect(");
            render_expr(p, nums, *x, out, f);
            out.append(", ");
            render_expr(p, nums, *y, out, f);
            out.append(", ");
            render_expr(p, nums, *z, out, f);
            out.append(")");
            assert(out@ =~= old(out)@ + want);
        },
        Expr::PlayerVar { player, variable, .. } => {
            render_expr(p, nums, *player, out, f);
            out.append(".");
            let name = if *variable < p.players.len() {
                Some(&p.players[*variable].name)
            } else {
                None
            };
            push_symbol(out, name, "player", *variable);
            assert(out@ =~= old(out)@ + want);
        },
        Expr::Call { name, args, .. } => {
            out.append(name.as_str());
            out.append("(");
            render_list(p, nums, args.as_slice(), out, f);
            out.append(")");
            assert(out@ =~= old(out)@ + want);
        },
        Expr::ReceiverCall { receiver, name, args, .. } => {
            render_expr(p, nums, *receiver, out, f);
            out.append(".");
            out.append(name.as_str());
            out.append("(");
            render_list(p, nums, args.as_slice(), out, f);
            out.append(")");
            assert(out@ =~= old(out)@ + want);
        },
        Expr::MacroCall { macro_, args, .. } => {
            out.append("$");
            let name = if *macro_ < p.macros.len() {
                Some(&p.macros[*macro_].name)
            } else {
                None
            };
            push_symbol(out, name, "macro", *macro_);
            out.append("(");
            render_list(p, nums, args.as_slice(), out, f);
            out.append(")");
            assert(out@ =~= old(out)@ + want);
        },
        _ => {},
    }
}

#[verifier::spinoff_prover]
fn render_op(p: &HirProgram, nums: &[String], id: usize, e: &Expr, out: &mut String, f: usize)
    requires
        e is Binary || e is Unary || e is Index || e is Format,
    ensures
        final(out)@ == old(out)@ + node_text(*p, texts(nums@), id as int, *e, f as nat),
    decreases f + 1, 0nat, 0nat,
{
    let ghost n = texts(nums@);
    let ghost want = node_text(*p, n, id as int, *e, f as nat);
    match e {
        Expr::Binary { op, left, right, .. } => {
            out.append("(");
            render_expr(p, nums, *left, out, f);
            out.append(" ");
            out.append(op.as_str());
            out.append(" ");
            render_expr(p, nums, *right, out, f);
            out.append(")");
            assert(out@ =~= old(out)@ + want);
        },
        Expr::Unary { op, operand, .. } => {
            match op {
                UnaryOp::Negate => {
                    out.append("-");
                },
                UnaryOp::Not => {
                    out.append(op.as_str());
                    out.append(" ");
                },
            }
            render_expr(p, nums, *operand, out, f);
            assert(out@ =~= old(out)@ + want);
        },
        Expr::Index { array, index, .. } => {
            render_expr(p, nums, *array, out, f);
            out.append("[");
            render_expr(p, nums, *index, out, f);
            out.append("]");
            assert(out@ =~= old(out)@ + want);
        },
        Expr::Format { text, args, .. } => {
            out.append("format(");
            let q = quoted(text.as_str());
            out.append(q.as_str());
            render_tail(p, nums, args.as_slice(), out, f);
            out.append(")");
            assert(out@ =~= old(out)@ + want);
        },
        _ => {},
    }
}

fn render_list(p: &HirProgram, nums: &[String], ids: &[usize], out: &mut String, fuel: usize)
    ensures
        final(out)@ == old(out)@ + list_text(*p, texts(nums@), ids@, fuel as nat),
    decreases fuel, 3nat, ids@.len(),
{
    let ghost n = texts(nums@);
    let ghost start = out@;
    let mut k: usize = 0;
    while k < ids.len()
        invariant
            k <= ids@.len(),
            n == texts(nums@),
            out@ == start + list_text(*p, n, ids@.take(k as int), fuel as nat),
        decreases ids@.len() - k,
    {
        assert(ids@.take(k + 1).drop_last() =~= ids@.take(k as int));
        assert(ids@.take(k + 1).last() == ids@[k as int]);
        if k > 0 {
            out.append(", ");
        }
        render_expr(p, nums, ids[k], out, fuel);
        k = k + 1;
        assert(out@ =~= start + list_text(*p, n, ids@.take(k as int), fuel as nat));
    }
    assert(ids@.take(k as int) =~= ids@);
}

fn render_tail(p: &HirProgram, nums: &[String], ids: &[usize], out: &mut String, fuel: usize)
    ensures
        final(out)@ == old(out)@ + tail_text(*p, texts(nums@), ids@, fuel as nat),
    decreases fuel, 3nat, ids@.len(),
{
    let ghost n = texts(nums@);
    let ghost start = out@;
    let mut k: usize = 0;
    while k < ids.len()
        invariant
            k <= ids@.len(),
            n == texts(nums@),
            out@ == start + tail_text(*p, n, ids@.take(k as int), fuel as nat),
        decreases ids@.len() - k,
    {
        assert(ids@.take(k + 1).drop_last() =~= ids@.take(k as int));
        assert(ids@.take(k + 1).last() == ids@[k as int]);
        out.append(", ");
        render_expr(p, nums, ids[k], out, fuel);
        k = k + 1;
        assert(out@ =~= start + tail_text(*p, n, ids@.take(k as int), fuel as nat));
    }
    assert(ids@.take(k as int) =~= ids@);
}


/// One level deeper than `pad`.
pub(crate) fn deeper(pad: &String, Ghost(level): Ghost<nat>) -> (r: String)
    requires
        pad@ == indent(level),
    ensures
        r@ == indent(level + 1),
{
    let mut r = pad.clone();
    r.append("  ");
    assert(r@ =~= indent(level + 1));
    r
}

fn render_stmt(
    p: &HirProgram,
    nums: &[String],
    id: usize,
    out: &mut String,
    pad: &String,
    Ghost(level): Ghost<nat>,
    fuel: usize,
)
    requires
        pad@ == indent(level),
    ensures
        final(out)@ == old(out)@ + stmt_text(*p, texts(nums@), id as int, level, fuel as nat),
    decreases fuel, 2nat, 0nat,
{
    let ghost want = stmt_text(*p, texts(nums@), id as int, level, fuel as nat);
    if id >= p.stmts.len() {
        out.append(pad.as_str());
        out.append("<dangling stmt ");
        push_decimal(out, id as u64);
        out.append("/>\n");
        assert(out@ =~= old(out)@ + want);
        return;
    }
    if fuel == 0 {
        assert(out@ =~= old(out)@ + want);
        return;
    }
    let s = &p.stmts[id];
    match s {
        Stmt::Expr { .. } => render_simple_stmt(p, nums, s, out, pad, Ghost(level), fuel - 1),
        Stmt::Assign { .. } => render_simple_stmt(p, nums, s, out, pad, Ghost(level), fuel - 1),
        Stmt::CallSubroutine { .. } => render_simple_stmt(p, nums, s, out, pad, Ghost(level), fuel - 1),
        Stmt::Pass { .. } => render_simple_stmt(p, nums, s, out, pad, Ghost(level), fuel - 1),
        Stmt::If { .. } => render_if_stmt(p, nums, s, out, pad, Ghost(level), fuel - 1),
        Stmt::For { .. } => render_for_stmt(p, nums, s, out, pad, Ghost(level), fuel - 1),
        Stmt::While { .. } => render_while_stmt(p, nums, s, out, pad, Ghost(level), fuel - 1),
    }
}

#[verifier::spinoff_prover]
fn render_simple_stmt(
    p: &HirProgram,
    nums: &[String],
    s: &Stmt,
    out: &mut String,
    pad: &String,
    Ghost(level): Ghost<nat>,
    f: usize,
)
    requires
        pad@ == indent(level),
        s is Expr || s is Assign || s is CallSubroutine || s is Pass,
    ensures
        final(out)@ == old(out)@ + stmt_node_text(*p, texts(nums@), *s, level, f as nat),
    decreases f + 1, 0nat, 0nat,
{
    let ghost n = texts(nums@);
    let ghost want = stmt_node_text(*p, n, *s, level, f as nat);
    let ef = p.exprs.len();
    match s {
        Stmt::Expr { expr, span } => {
            out.append(pad.as_str());
            out.append("expr ");
            render_expr(p, nums, *expr, out, ef);
            push_span_suffix(out, *span);
            out.append("\n");
            assert(out@ =~= old(out)@ + want);
        },
        Stmt::Assign { target, value, span } => {
            out.append(pad.as_str());
            out.append("assign ");
            render_expr(p, nums, *target, out, ef);
            out.append(" = ");
            render_expr(p, nums, *value, out, ef);
            push_span_suffix(out, *span);
            out.append("\n");
            assert(out@ =~= old(out)@ + want);
        },
        Stmt::CallSubroutine { subroutine, span } => {
            out.append(pad.as_str());
            out.append("callSubroutine ");
            if *subroutine < p.subroutines.len() {
                out.append(p.subroutines[*subroutine].name.as_str());
            } else {
                out.append("<dangling>");
            }
            out.append(" (id ");
            push_decimal(out, *subroutine as u64);
            out.append(")");
            push_span_suffix(out, *span);
            out.append("\n");
            assert(out@ =~= old(out)@ + want);
        },
        Stmt::Pass { span } => {
            out.append(pad.as_str());
            out.append("pass");
            push_span_suffix(out, *span);
            out.append("\n");
            assert(out@ =~= old(out)@ + want);
        },
        _ => {},
    }
}

#[verifier::spinoff_prover]
fn render_if_stmt(
    p: &HirProgram,
    nums: &[String],
    s: &Stmt,
    out: &mut String,
    pad: &String,
    Ghost(level): Ghost<nat>,
    f: usize,
)
    requires
        pad@ == indent(level),
        s is If,
    ensures
        final(out)@ == old(out)@ + stmt_node_text(*p, texts(nums@), *s, level, f as nat),
    decreases f + 1, 0nat, 0nat,
{
    let ghost n = texts(nums@);
    let ghost want = stmt_node_text(*p, n, *s, level, f as nat);
    let ef = p.exprs.len();
    match s {
        Stmt::If { branches, else_body, span } => {
            out.append(pad.as_str());
            out.append("if");
            push_span_suffix(out, *span);
            out.append("\n");
            render_branches(p, nums, branches.as_slice(), out, pad, Ghost(level), f);
            match else_body {
                Some(b) => {
                    let ghost mid = out@;
                    out.append(pad.as_str());
                    out.append("  else\n");
                    let inner1 = deeper(pad, Ghost(level));
                    let inner = deeper(&inner1, Ghost(level + 1));
                    render_stmts(p, nums, b.as_slice(), out, &inner, Ghost(level + 2), f);
                    assert(out@ =~= mid + (indent(level) + "  else\n"@ + stmts_text(
                        *p,
                        n,
                        b@,
                        level + 2,
                        f as nat,
                    )));
                },
                None => {},
            }
            assert(out@ =~= old(out)@ + want);
        },
        _ => {},
    }
}

#[verifier::spinoff_prover]
fn render_for_stmt(
    p: &HirProgram,
    nums: &[String],
    s: &Stmt,
    out: &mut String,
    pad: &String,
    Ghost(level): Ghost<nat>,
    f: usize,
)
    requires
        pad@ == indent(level),
        s is For,
    ensures
        final(out)@ == old(out)@ + stmt_node_text(*p, texts(nums@), *s, level, f as nat),
    decreases f + 1, 0nat, 0nat,
{
    let ghost n = texts(nums@);
    let ghost want = stmt_node_text(*p, n, *s, level, f as nat);
    let ef = p.exprs.len();
    match s {
        Stmt::For { variable, iterable, body, span } => {
            out.append(pad.as_str());
            out.append("for ");
            if *variable < p.globals.len() {
                out.append(p.globals[*variable].name.as_str());
            } else {
                out.append("<dangling ");
                push_decimal(out, *variable as u64);
                out.append(">");
            }
            out.append(" in ");
            render_expr(p, nums, *iterable, out, ef);
            push_span_suffix(out, *span);
            out.append("\n");
            let inner = deeper(pad, Ghost(level));
            render_stmts(p, nums, body.as_slice(), out, &inner, Ghost(level + 1), f);
            assert(out@ =~= old(out)@ + want);
        },
        _ => {},
    }
}

#[verifier::spinoff_prover]
fn render_while_stmt(
    p: &HirProgram,
    nums: &[String],
    s: &Stmt,
    out: &mut String,
    pad: &String,
    Ghost(level): Ghost<nat>,
    f: usize,
)
    requires
        pad@ == indent(level),
        s is While,
    ensures
        final(out)@ == old(out)@ + stmt_node_text(*p, texts(nums@), *s, level, f as nat),
    decreases f + 1, 0nat, 0nat,
{
    let ghost n = texts(nums@);
    let ghost want = stmt_node_text(*p, n, *s, level, f as nat);
    let ef = p.exprs.len();
    match s {
        Stmt::While { condition, body, span } => {
            out.append(pad.as_str());
            out.append("while ");
            render_expr(p, nums, *condition, out, ef);
            push_span_suffix(out, *span);
            out.append("\n");
            let inner = deeper(pad, Ghost(level));
            render_stmts(p, nums, body.as_slice(), out, &inner, Ghost(level + 1), f);
            assert(out@ =~= old(out)@ + want);
        },
        _ => {},
    }
}

fn render_stmts(
    p: &HirProgram,
    nums: &[String],
    ids: &[usize],
    out: &mut String,
    pad: &String,
    Ghost(level): Ghost<nat>,
    fuel: usize,
)
    requires
        pad@ == indent(level),
    ensures
        final(out)@ == old(out)@ + stmts_text(*p, texts(nums@), ids@, level, fuel as nat),
    decreases fuel, 3nat, ids@.len(),
{
    let ghost n = texts(nums@);
    let ghost start = out@;
    let mut k: usize = 0;
    while k < ids.len()
        invariant
            k <= ids@.len(),
            n == texts(nums@),
            pad@ == indent(level),
            out@ == start + stmts_text(*p, n, ids@.take(k as int), level, fuel as nat),
        decreases ids@.len() - k,
    {
        assert(ids@.take(k + 1).drop_last() =~= ids@.take(k as int));
        assert(ids@.take(k + 1).last() == ids@[k as int]);
        render_stmt(p, nums, ids[k], out, pad, Ghost(level), fuel);
        k = k + 1;
        assert(out@ =~= start + stmts_text(*p, n, ids@.take(k as int), level, fuel as nat));
    }
    assert(ids@.take(k as int) =~= ids@);
}

fn render_branches(
    p: &HirProgram,
    nums: &[String],
    bs: &[IfBranch],
    out: &mut String,
    pad: &String,
    Ghost(level): Ghost<nat>,
    fuel: usize,
)
    requires
        pad@ == indent(level),
    ensures
        final(out)@ == old(out)@ + branches_text(*p, texts(nums@), bs@, level, fuel as nat),
    decreases fuel, 4nat, bs@.len(),
{
    let ghost n = texts(nums@);
    let ghost start = out@;
    let ef = p.exprs.len();
    let inner1 = deeper(pad, Ghost(level));
    let inner = deeper(&inner1, Ghost(level + 1));
    let mut k: usize = 0;
    while k < bs.len()
        invariant
            k <= bs@.len(),
            n == texts(nums@),
            ef == expr_fuel(*p),
            pad@ == indent(level),
            inner@ == indent(level + 2),
            out@ == start + branches_text(*p, n, bs@.take(k as int), level, fuel as nat),
        decreases bs@.len() - k,
    {
        assert(bs@.take(k + 1).drop_last() =~= bs@.take(k as int));
        assert(bs@.take(k + 1).last() == bs@[k as int]);
        let ghost before = out@;
        out.append(pad.as_str());
        out.append("  ");
        if k == 0 {
            out.append("condition ");
        } else {
            out.append("elif condition ");
        }
        render_expr(p, nums, bs[k].condition, out, ef);
        out.append("\n");
        render_stmts(p, nums, bs[k].body.as_slice(), out, &inner, Ghost(level + 2), fuel);
        assert(out@ =~= before + (indent(level) + "  "@ + branch_head(k as int) + expr_text(
            *p,
            n,
            bs@[k as int].condition as int,
            expr_fuel(*p),
        ) + "\n"@ + stmts_text(*p, n, bs@[k as int].body@, level + 2, fuel as nat)));
        k = k + 1;
        assert(out@ =~= start + branches_text(*p, n, bs@.take(k as int), level, fuel as nat));
    }
    assert(bs@.take(k as int) =~= bs@);
}


// ---------------------------------------------------------------------------
// The whole program.
// ---------------------------------------------------------------------------

/// `    initializer = value` on a line of its own, when there is one.
pub open spec fn initializer_text(p: HirProgram, nums: Seq<Seq<char>>, init: Option<usize>) -> Seq<
    char,
> {
    match init {
        Some(e) => "    initializer = "@ + expr_text(p, nums, e as int, expr_fuel(p)) + "\n"@,
        None => Seq::empty(),
    }
}

/// The first `k` files, one per line with its index.
pub open spec fn files_text(p: HirProgram, k: nat) -> Seq<char>
    decreases k,
{
    if k == 0 {
        Seq::empty()
    } else {
        let i = k - 1;
        files_text(p, i as nat) + "  "@ + decimal(i as nat) + " "@ + p.files@[i].path@ + "\n"@
    }
}

/// The first `k` global variables, each with its initializer.
pub open spec fn globals_text(p: HirProgram, nums: Seq<Seq<char>>, k: nat) -> Seq<char>
    decreases k,
{
    if k == 0 {
        Seq::empty()
    } else {
        globals_text(p, nums, (k - 1) as nat) + global_text(p, nums, k - 1)
    }
}

/// The global variable at `i` with its initializer.
pub open spec fn global_text(p: HirProgram, nums: Seq<Seq<char>>, i: int) -> Seq<char> {
    let g = p.globals@[i];
    "  globalVariable "@ + g.name@ + " (id "@ + decimal(i as nat) + ")"@ + span_suffix(g.span)
        + "\n"@ + initializer_text(p, nums, g.initializer)
}

/// The first `k` player variables, each with its initializer.
pub open spec fn players_text(p: HirProgram, nums: Seq<Seq<char>>, k: nat) -> Seq<char>
    decreases k,
{
    if k == 0 {
        Seq::empty()
    } else {
        players_text(p, nums, (k - 1) as nat) + player_text(p, nums, k - 1)
    }
}

/// The player variable at `i` with its initializer.
pub open spec fn player_text(p: HirProgram, nums: Seq<Seq<char>>, i: int) -> Seq<char> {
    let v = p.players@[i];
    "  playerVariable "@ + v.name@ + " (id "@ + decimal(i as nat) + ")"@ + span_suffix(v.span)
        + "\n"@ + initializer_text(p, nums, v.initializer)
}

/// The first `k` subroutines, one per line.
pub open spec fn subroutines_text(p: HirProgram, k: nat) -> Seq<char>
    decreases k,
{
    if k == 0 {
        Seq::empty()
    } else {
        let i = k - 1;
        let s = p.subroutines@[i];
        subroutines_text(p, i as nat) + "  subroutine "@ + s.name@ + " (id "@ + decimal(i as nat)
            + ")"@ + span_suffix(s.decl_span) + "\n"@
    }
}

/// The first `k` constants, each with its value.
pub open spec fn constants_text(p: HirProgram, nums: Seq<Seq<char>>, k: nat) -> Seq<char>
    decreases k,
{
    if k == 0 {
        Seq::empty()
    } else {
        constants_text(p, nums, (k - 1) as nat) + constant_text(p, nums, k - 1)
    }
}

/// The constant at `i` with its value.
pub open spec fn constant_text(p: HirProgram, nums: Seq<Seq<char>>, i: int) -> Seq<char> {
    let c = p.constants@[i];
    "  constant "@ + c.name@ + " (id "@ + decimal(i as nat) + ")"@ + span_suffix(c.span) + " = "@
        + expr_text(p, nums, c.value as int, expr_fuel(p)) + "\n"@
}

/// Names separated by `, `.
pub open spec fn joined(names: Seq<Seq<char>>) -> Seq<char>
    decreases names.len(),
{
    if names.len() == 0 {
        Seq::empty()
    } else if names.len() == 1 {
        names[0]
    } else {
        joined(names.drop_last()) + ", "@ + names.last()
    }
}

/// A macro's parameter list in parentheses, or nothing without parameters.
pub open spec fn params_text(args: Seq<String>) -> Seq<char> {
    if args.len() == 0 {
        Seq::empty()
    } else {
        "("@ + joined(texts(args)) + ")"@
    }
}

/// The first `k` macros, each with its body.
pub open spec fn macros_text(p: HirProgram, nums: Seq<Seq<char>>, k: nat) -> Seq<char>
    decreases k,
{
    if k == 0 {
        Seq::empty()
    } else {
        macros_text(p, nums, (k - 1) as nat) + macro_text(p, nums, k - 1)
    }
}

/// The macro at `i` with its body.
pub open spec fn macro_text(p: HirProgram, nums: Seq<Seq<char>>, i: int) -> Seq<char> {
    let m = p.macros@[i];
    "  macro "@ + m.name@ + params_text(m.args@) + " (id "@ + decimal(i as nat) + ")"@
        + span_suffix(m.span) + "\n"@ + stmts_text(p, nums, m.body@, 2, stmt_fuel(p))
}

/// Expressions each on a line of its own after `head`.
pub open spec fn expr_lines(p: HirProgram, nums: Seq<Seq<char>>, head: Seq<char>, ids: Seq<usize>) -> Seq<
    char,
>
    decreases ids.len(),
{
    if ids.len() == 0 {
        Seq::empty()
    } else {
        expr_lines(p, nums, head, ids.drop_last()) + head + expr_text(
            p,
            nums,
            ids.last() as int,
            expr_fuel(p),
        ) + "\n"@
    }
}

/// A rule's event line and its arguments.
pub open spec fn event_text(p: HirProgram, nums: Seq<Seq<char>>, e: Event) -> Seq<char> {
    indent(2) + "event "@ + e.name@ + span_suffix(e.span) + "\n"@ + expr_lines(
        p,
        nums,
        indent(3) + "arg "@,
        e.args@,
    )
}

/// The first `k` rules: each with its event, conditions and actions.
pub open spec fn rules_text(p: HirProgram, nums: Seq<Seq<char>>, k: nat) -> Seq<char>
    decreases k,
{
    if k == 0 {
        Seq::empty()
    } else {
        rules_text(p, nums, (k - 1) as nat) + rule_text(p, nums, k - 1)
    }
}

/// The rule at `i`: its event, conditions and actions.
pub open spec fn rule_text(p: HirProgram, nums: Seq<Seq<char>>, i: int) -> Seq<char> {
    let r = p.rules@[i];
    rule_head(p, i) + event_text(p, nums, r.event) + expr_lines(
        p,
        nums,
        "    condition "@,
        r.conditions@,
    ) + stmts_text(p, nums, r.actions@, 2, stmt_fuel(p))
}

/// The line that opens the rule at `i`.
pub open spec fn rule_head(p: HirProgram, i: int) -> Seq<char> {
    let r = p.rules@[i];
    "  rule \""@ + r.name@ + "\" (id "@ + decimal(i as nat) + ")"@ + span_suffix(r.span) + "\n"@
}

/// The dump of a program: its files, its declarations and its rules.
pub open spec fn dump_text(p: HirProgram, nums: Seq<Seq<char>>) -> Seq<char> {
    "program (internal Opy HIR)\n"@ + "files:\n"@ + files_text(p, p.files@.len())
        + "declarations:\n"@ + globals_text(p, nums, p.globals@.len()) + players_text(
        p,
        nums,
        p.players@.len(),
    ) + subroutines_text(p, p.subroutines@.len()) + constants_text(p, nums, p.constants@.len())
        + macros_text(p, nums, p.macros@.len()) + "rules:\n"@ + rules_text(
        p,
        nums,
        p.rules@.len(),
    )
}

fn push_initializer(p: &HirProgram, nums: &[String], init: Option<usize>, out: &mut String)
    ensures
        final(out)@ == old(out)@ + initializer_text(*p, texts(nums@), init),
{
    match init {
        Some(e) => {
            out.append("    initializer = ");
            render_expr(p, nums, e, out, p.exprs.len());
            out.append("\n");
            assert(out@ =~= old(out)@ + initializer_text(*p, texts(nums@), init));
        },
        None => {
            assert(out@ =~= old(out)@ + initializer_text(*p, texts(nums@), init));
        },
    }
}

fn push_files(p: &HirProgram, out: &mut String)
    ensures
        final(out)@ == old(out)@ + files_text(*p, p.files@.len()),
{
    let ghost start = out@;
    let mut k: usize = 0;
    while k < p.files.len()
        invariant
            k <= p.files@.len(),
            out@ == start + files_text(*p, k as nat),
        decreases p.files@.len() - k,
    {
        out.append("  ");
        push_decimal(out, k as u64);
        out.append(" ");
        out.append(p.files[k].path.as_str());
        out.append("\n");
        k = k + 1;
        assert(out@ =~= start + files_text(*p, k as nat));
    }
}

#[verifier::spinoff_prover]
fn push_global(p: &HirProgram, nums: &[String], k: usize, out: &mut String)
    requires
        k < p.globals@.len(),
    ensures
        final(out)@ == old(out)@ + global_text(*p, texts(nums@), k as int),
{
    let g = &p.globals[k];
    out.append("  globalVariable ");
    out.append(g.name.as_str());
    out.append(" (id ");
    push_decimal(out, k as u64);
    out.append(")");
    push_span_suffix(out, g.span);
    out.append("\n");
    push_initializer(p, nums, g.initializer, out);
    assert(out@ =~= old(out)@ + global_text(*p, texts(nums@), k as int));
}

fn push_globals(p: &HirProgram, nums: &[String], out: &mut String)
    ensures
        final(out)@ == old(out)@ + globals_text(*p, texts(nums@), p.globals@.len()),
{
    let ghost start = out@;
    let ghost n = texts(nums@);
    let mut k: usize = 0;
    while k < p.globals.len()
        invariant
            k <= p.globals@.len(),
            n == texts(nums@),
            out@ == start + globals_text(*p, n, k as nat),
        decreases p.globals@.len() - k,
    {
        push_global(p, nums, k, out);
        k = k + 1;
        assert(out@ =~= start + globals_text(*p, n, k as nat));
    }
}

#[verifier::spinoff_prover]
fn push_player(p: &HirProgram, nums: &[String], k: usize, out: &mut String)
    requires
        k < p.players@.len(),
    ensures
        final(out)@ == old(out)@ + player_text(*p, texts(nums@), k as int),
{
    let v = &p.players[k];
    out.append("  playerVariable ");
    out.append(v.name.as_str());
    out.append(" (id ");
    push_decimal(out, k as u64);
    out.append(")");
    push_span_suffix(out, v.span);
    out.append("\n");
    push_initializer(p, nums, v.initializer, out);
    assert(out@ =~= old(out)@ + player_text(*p, texts(nums@), k as int));
}

fn push_players(p: &HirProgram, nums: &[String], out: &mut String)
    ensures
        final(out)@ == old(out)@ + players_text(*p, texts(nums@), p.players@.len()),
{
    let ghost start = out@;
    let ghost n = texts(nums@);
    let mut k: usize = 0;
    while k < p.players.len()
        invariant
            k <= p.players@.len(),
            n == texts(nums@),
            out@ == start + players_text(*p, n, k as nat),
        decreases p.players@.len() - k,
    {
        push_player(p, nums, k, out);
        k = k + 1;
        assert(out@ =~= start + players_text(*p, n, k as nat));
    }
}

fn push_subroutines(p: &HirProgram, out: &mut String)
    ensures
        final(out)@ == old(out)@ + subroutines_text(*p, p.subroutines@.len()),
{
    let ghost start = out@;
    let mut k: usize = 0;
    while k < p.subroutines.len()
        invariant
            k <= p.subroutines@.len(),
            out@ == start + subroutines_text(*p, k as nat),
        decreases p.subroutines@.len() - k,
    {
        let s = &p.subroutines[k];
        out.append("  subroutine ");
        out.append(s.name.as_str());
        out.append(" (id ");
        push_decimal(out, k as u64);
        out.append(")");
        push_span_suffix(out, s.decl_span);
        out.append("\n");
        k = k + 1;
        assert(out@ =~= start + subroutines_text(*p, k as nat));
    }
}

#[verifier::spinoff_prover]
fn push_constant(p: &HirProgram, nums: &[String], k: usize, out: &mut String)
    requires
        k < p.constants@.len(),
    ensures
        final(out)@ == old(out)@ + constant_text(*p, texts(nums@), k as int),
{
    let c = &p.constants[k];
    out.append("  constant ");
    out.append(c.name.as_str());
    out.append(" (id ");
    push_decimal(out, k as u64);
    out.append(")");
    push_span_suffix(out, c.span);
    out.append(" = ");
    render_expr(p, nums, c.value, out, p.exprs.len());
    out.append("\n");
    assert(out@ =~= old(out)@ + constant_text(*p, texts(nums@), k as int));
}

fn push_constants(p: &HirProgram, nums: &[String], out: &mut String)
    ensures
        final(out)@ == old(out)@ + constants_text(*p, texts(nums@), p.constants@.len()),
{
    let ghost start = out@;
    let ghost n = texts(nums@);
    let mut k: usize = 0;
    while k < p.constants.len()
        invariant
            k <= p.constants@.len(),
            n == texts(nums@),
            out@ == start + constants_text(*p, n, k as nat),
        decreases p.constants@.len() - k,
    {
        push_constant(p, nums, k, out);
        k = k + 1;
        assert(out@ =~= start + constants_text(*p, n, k as nat));
    }
}

#[verifier::spinoff_prover]
fn push_params(args: &Vec<String>, out: &mut String)
    ensures
        final(out)@ == old(out)@ + params_text(args@),
{
    if args.len() == 0 {
        assert(out@ =~= old(out)@ + params_text(args@));
        return;
    }
    let ghost names = texts(args@);
    out.append("(");
    let ghost start = out@;
    let mut k: usize = 0;
    while k < args.len()
        invariant
            k <= args@.len(),
            names == texts(args@),
            out@ == start + joined(names.take(k as int)),
        decreases args@.len() - k,
    {
        assert(names.take(k + 1).drop_last() =~= names.take(k as int));
        assert(names.take(k + 1).last() == args@[k as int]@);
        if k > 0 {
            out.append(", ");
        }
        out.append(args[k].as_str());
        k = k + 1;
        assert(out@ =~= start + joined(names.take(k as int)));
    }
    assert(names.take(k as int) =~= names);
    out.append(")");
    assert(out@ =~= old(out)@ + params_text(args@));
}

#[verifier::spinoff_prover]
fn push_macro(p: &HirProgram, nums: &[String], k: usize, out: &mut String, pad: &String)
    requires
        k < p.macros@.len(),
        pad@ == indent(2),
    ensures
        final(out)@ == old(out)@ + macro_text(*p, texts(nums@), k as int),
{
    let m = &p.macros[k];
    out.append("  macro ");
    out.append(m.name.as_str());
    push_params(&m.args, out);
    out.append(" (id ");
    push_decimal(out, k as u64);
    out.append(")");
    push_span_suffix(out, m.span);
    out.append("\n");
    render_stmts(p, nums, m.body.as_slice(), out, pad, Ghost(2), p.stmts.len());
    assert(out@ =~= old(out)@ + macro_text(*p, texts(nums@), k as int));
}

fn push_macros(p: &HirProgram, nums: &[String], out: &mut String)
    ensures
        final(out)@ == old(out)@ + macros_text(*p, texts(nums@), p.macros@.len()),
{
    let ghost start = out@;
    let ghost n = texts(nums@);
    let pad = two_levels();
    let mut k: usize = 0;
    while k < p.macros.len()
        invariant
            k <= p.macros@.len(),
            n == texts(nums@),
            pad@ == indent(2),
            out@ == start + macros_text(*p, n, k as nat),
        decreases p.macros@.len() - k,
    {
        push_macro(p, nums, k, out, &pad);
        k = k + 1;
        assert(out@ =~= start + macros_text(*p, n, k as nat));
    }
}

/// Two levels of indentation.
pub(crate) fn two_levels() -> (r: String)
    ensures
        r@ == indent(2),
{
    let mut r = String::new();
    r.append("  ");
    r.append("  ");
    assert(indent(0) =~= Seq::<char>::empty());
    assert(indent(1) =~= indent(0) + "  "@);
    assert(r@ =~= indent(2));
    r
}

fn push_expr_lines(p: &HirProgram, nums: &[String], head: &str, ids: &[usize], out: &mut String)
    ensures
        final(out)@ == old(out)@ + expr_lines(*p, texts(nums@), head@, ids@),
{
    let ghost start = out@;
    let ghost n = texts(nums@);
    let mut k: usize = 0;
    while k < ids.len()
        invariant
            k <= ids@.len(),
            n == texts(nums@),
            out@ == start + expr_lines(*p, n, head@, ids@.take(k as int)),
        decreases ids@.len() - k,
    {
        assert(ids@.take(k + 1).drop_last() =~= ids@.take(k as int));
        assert(ids@.take(k + 1).last() == ids@[k as int]);
        out.append(head);
        render_expr(p, nums, ids[k], out, p.exprs.len());
        out.append("\n");
        k = k + 1;
        assert(out@ =~= start + expr_lines(*p, n, head@, ids@.take(k as int)));
    }
    assert(ids@.take(k as int) =~= ids@);
}

#[verifier::spinoff_prover]
fn push_event(p: &HirProgram, nums: &[String], e: &Event, out: &mut String)
    ensures
        final(out)@ == old(out)@ + event_text(*p, texts(nums@), *e),
{
    let pad = two_levels();
    out.append(pad.as_str());
    out.append("event ");
    out.append(e.name.as_str());
    push_span_suffix(out, e.span);
    out.append("\n");
    let mut head = deeper(&pad, Ghost(2));
    head.append("arg ");
    push_expr_lines(p, nums, head.as_str(), e.args.as_slice(), out);
    assert(out@ =~= old(out)@ + event_text(*p, texts(nums@), *e));
}

fn push_rule_head(p: &HirProgram, k: usize, out: &mut String)
    requires
        k < p.rules@.len(),
    ensures
        final(out)@ == old(out)@ + rule_head(*p, k as int),
{
    let r = &p.rules[k];
    out.append("  rule \"");
    out.append(r.name.as_str());
    out.append("\" (id ");
    push_decimal(out, k as u64);
    out.append(")");
    push_span_suffix(out, r.span);
    out.append("\n");
    assert(out@ =~= old(out)@ + rule_head(*p, k as int));
}

#[verifier::spinoff_prover]
fn push_rule(p: &HirProgram, nums: &[String], k: usize, out: &mut String, pad: &String)
    requires
        k < p.rules@.len(),
        pad@ == indent(2),
    ensures
        final(out)@ == old(out)@ + rule_text(*p, texts(nums@), k as int),
{
    let ghost n = texts(nums@);
    let r = &p.rules[k];
    push_rule_head(p, k, out);
    let ghost s1 = out@;
    push_event(p, nums, &r.event, out);
    let ghost s2 = out@;
    push_expr_lines(p, nums, "    condition ", r.conditions.as_slice(), out);
    let ghost s3 = out@;
    render_stmts(p, nums, r.actions.as_slice(), out, pad, Ghost(2), p.stmts.len());
    assert(out@ =~= old(out)@ + rule_head(*p, k as int) + event_text(*p, n, r.event) + expr_lines(
        *p,
        n,
        "    condition "@,
        r.conditions@,
    ) + stmts_text(*p, n, r.actions@, 2, stmt_fuel(*p)));
}

fn push_rules(p: &HirProgram, nums: &[String], out: &mut String)
    ensures
        final(out)@ == old(out)@ + rules_text(*p, texts(nums@), p.rules@.len()),
{
    let ghost start = out@;
    let ghost n = texts(nums@);
    let pad = two_levels();
    let mut k: usize = 0;
    while k < p.rules.len()
        invariant
            k <= p.rules@.len(),
            n == texts(nums@),
            pad@ == indent(2),
            out@ == start + rules_text(*p, n, k as nat),
        decreases p.rules@.len() - k,
    {
        push_rule(p, nums, k, out, &pad);
        k = k + 1;
        assert(out@ =~= start + rules_text(*p, n, k as nat));
    }
}

impl HirProgram {
    /// A deterministic, human-readable dump of the program. `numbers[i]` is
    /// how expression `i` prints when it is a number.
    pub fn dump(&self, numbers: &[String]) -> (r: String)
        ensures
            r@ == dump_text(*self, texts(numbers@)),
    {
        let mut out = String::new();
        out.append("program (internal Opy HIR)\n");
        out.append("files:\n");
        push_files(self, &mut out);
        out.append("declarations:\n");
        push_globals(self, numbers, &mut out);
        push_players(self, numbers, &mut out);
        push_subroutines(self, &mut out);
        push_constants(self, numbers, &mut out);
        push_macros(self, numbers, &mut out);
        out.append("rules:\n");
        push_rules(self, numbers, &mut out);
        assert(out@ =~= dump_text(*self, texts(numbers@)));
        out
    }
}


// ---------------------------------------------------------------------------
// Fuel.
// ---------------------------------------------------------------------------

proof fn lemma_expr_text_fuel(
    p: HirProgram,
    nums: Seq<Seq<char>>,
    rank: spec_fn(int) -> nat,
    id: int,
    f1: nat,
    f2: nat,
)
    requires
        exprs_ranked(p, rank),
        0 <= id < p.exprs@.len(),
        f1 > rank(id),
        f2 > rank(id),
    ensures
        expr_text(p, nums, id, f1) == expr_text(p, nums, id, f2),
    decreases rank(id) + 1nat, 0nat,
{
    let e = p.exprs@[id];
    let refs = expr_refs(e);
    let g1 = (f1 - 1) as nat;
    let g2 = (f2 - 1) as nat;
    assert(expr_text(p, nums, id, f1) == node_text(p, nums, id, e, g1));
    assert(expr_text(p, nums, id, f2) == node_text(p, nums, id, e, g2));
    assert forall|k: int| 0 <= k < refs.len() && refs[k] < p.exprs@.len() implies #[trigger] rank(
        refs[k] as int,
    ) < rank(id) by {
        assert(expr_refs(p.exprs@[id])[k] == refs[k]);
    }
    match e {
        Expr::Array { elements, .. } => {
            lemma_list_text_fuel(p, nums, rank, elements@, g1, g2, rank(id));
        },
        Expr::Vector { x, y, z, .. } => {
            assert(refs[0] == x && refs[1] == y && refs[2] == z);
            if (x as int) < p.exprs@.len() {
                lemma_expr_text_fuel(p, nums, rank, x as int, g1, g2);
            }
            if (y as int) < p.exprs@.len() {
                lemma_expr_text_fuel(p, nums, rank, y as int, g1, g2);
            }
            if (z as int) < p.exprs@.len() {
                lemma_expr_text_fuel(p, nums, rank, z as int, g1, g2);
            }
        },
        Expr::PlayerVar { player, .. } => {
            assert(refs[0] == player);
            if (player as int) < p.exprs@.len() {
                lemma_expr_text_fuel(p, nums, rank, player as int, g1, g2);
            }
        },
        Expr::Call { args, .. } => {
            lemma_list_text_fuel(p, nums, rank, args@, g1, g2, rank(id));
        },
        Expr::ReceiverCall { receiver, args, .. } => {
            assert(refs[0] == receiver);
            if (receiver as int) < p.exprs@.len() {
                lemma_expr_text_fuel(p, nums, rank, receiver as int, g1, g2);
            }
            assert forall|k: int| 0 <= k < args@.len() && args@[k] < p.exprs@.len() implies #[trigger] rank(
                args@[k] as int,
            ) < rank(id) by {
                assert(refs[k + 1] == args@[k]);
            }
            lemma_list_text_fuel(p, nums, rank, args@, g1, g2, rank(id));
        },
        Expr::MacroCall { args, .. } => {
            lemma_list_text_fuel(p, nums, rank, args@, g1, g2, rank(id));
        },
        Expr::Binary { left, right, .. } => {
            assert(refs[0] == left && refs[1] == right);
            if (left as int) < p.exprs@.len() {
                lemma_expr_text_fuel(p, nums, rank, left as int, g1, g2);
            }
            if (right as int) < p.exprs@.len() {
                lemma_expr_text_fuel(p, nums, rank, right as int, g1, g2);
            }
        },
        Expr::Unary { operand, .. } => {
            assert(refs[0] == operand);
            if (operand as int) < p.exprs@.len() {
                lemma_expr_text_fuel(p, nums, rank, operand as int, g1, g2);
            }
        },
        Expr::Index { array, index, .. } => {
            assert(refs[0] == array && refs[1] == index);
            if (array as int) < p.exprs@.len() {
                lemma_expr_text_fuel(p, nums, rank, array as int, g1, g2);
            }
            if (index as int) < p.exprs@.len() {
                lemma_expr_text_fuel(p, nums, rank, index as int, g1, g2);
            }
        },
        Expr::Format { args, .. } => {
            lemma_tail_text_fuel(p, nums, rank, args@, g1, g2, rank(id));
        },
        _ => {},
    }
}

proof fn lemma_list_text_fuel(
    p: HirProgram,
    nums: Seq<Seq<char>>,
    rank: spec_fn(int) -> nat,
    ids: Seq<usize>,
    f1: nat,
    f2: nat,
    bound: nat,
)
    requires
        exprs_ranked(p, rank),
        forall|k: int| 0 <= k < ids.len() && ids[k] < p.exprs@.len() ==> #[trigger] rank(ids[k] as int) < bound,
        bound <= f1,
        bound <= f2,
    ensures
        list_text(p, nums, ids, f1) == list_text(p, nums, ids, f2),
    decreases bound, ids.len(),
{
    if ids.len() > 0 {
        let rest = ids.drop_last();
        assert forall|k: int| 0 <= k < rest.len() && rest[k] < p.exprs@.len() implies #[trigger] rank(
            rest[k] as int,
        ) < bound by {
            assert(rest[k] == ids[k]);
        }
        lemma_list_text_fuel(p, nums, rank, rest, f1, f2, bound);
        let last = ids.last();
        assert(ids[ids.len() - 1] == last);
        if (last as int) < p.exprs@.len() {
            lemma_expr_text_fuel(p, nums, rank, last as int, f1, f2);
        } else {
            assert(expr_text(p, nums, last as int, f1) == expr_text(p, nums, last as int, f2));
        }
    }
}

proof fn lemma_tail_text_fuel(
    p: HirProgram,
    nums: Seq<Seq<char>>,
    rank: spec_fn(int) -> nat,
    ids: Seq<usize>,
    f1: nat,
    f2: nat,
    bound: nat,
)
    requires
        exprs_ranked(p, rank),
        forall|k: int| 0 <= k < ids.len() && ids[k] < p.exprs@.len() ==> #[trigger] rank(ids[k] as int) < bound,
        bound <= f1,
        bound <= f2,
    ensures
        tail_text(p, nums, ids, f1) == tail_text(p, nums, ids, f2),
    decreases bound, ids.len(),
{
    if ids.len() > 0 {
        let rest = ids.drop_last();
        assert forall|k: int| 0 <= k < rest.len() && rest[k] < p.exprs@.len() implies #[trigger] rank(
            rest[k] as int,
        ) < bound by {
            assert(rest[k] == ids[k]);
        }
        lemma_tail_text_fuel(p, nums, rank, rest, f1, f2, bound);
        let last = ids.last();
        assert(ids[ids.len() - 1] == last);
        if (last as int) < p.exprs@.len() {
            lemma_expr_text_fuel(p, nums, rank, last as int, f1, f2);
        } else {
            assert(expr_text(p, nums, last as int, f1) == expr_text(p, nums, last as int, f2));
        }
    }
}

/// On an expression arena whose references never come back to a node, an
/// expression written with as much fuel as there are expressions reads as
/// it does with any more fuel.
pub proof fn law_expression_text_fuel_suffices(
    p: HirProgram,
    nums: Seq<Seq<char>>,
    rank: spec_fn(int) -> nat,
    id: int,
    fuel: nat,
)
    requires
        exprs_ranked(p, rank),
        fuel >= expr_fuel(p),
    ensures
        expr_text(p, nums, id, fuel) == expr_text(p, nums, id, expr_fuel(p)),
{
    if 0 <= id < p.exprs@.len() {
        lemma_expr_text_fuel(p, nums, rank, id, fuel, expr_fuel(p));
    }
}

proof fn lemma_stmt_text_fuel(
    p: HirProgram,
    nums: Seq<Seq<char>>,
    rank: spec_fn(int) -> nat,
    id: int,
    level: nat,
    f1: nat,
    f2: nat,
)
    requires
        stmts_ranked(p, rank),
        0 <= id < p.stmts@.len(),
        f1 > rank(id),
        f2 > rank(id),
    ensures
        stmt_text(p, nums, id, level, f1) == stmt_text(p, nums, id, level, f2),
    decreases rank(id) + 1nat, 0nat, 0nat,
{
    let s = p.stmts@[id];
    let g1 = (f1 - 1) as nat;
    let g2 = (f2 - 1) as nat;
    assert(nested_below(p, rank, s, rank(id)));
    match s {
        Stmt::If { branches, else_body, .. } => {
            lemma_branches_text_fuel(p, nums, rank, branches@, level, g1, g2, rank(id));
            match else_body {
                Some(b) => {
                    lemma_stmts_text_fuel(p, nums, rank, b@, level + 2, g1, g2, rank(id));
                },
                None => {},
            }
        },
        Stmt::For { body, .. } => {
            lemma_stmts_text_fuel(p, nums, rank, body@, level + 1, g1, g2, rank(id));
        },
        Stmt::While { body, .. } => {
            lemma_stmts_text_fuel(p, nums, rank, body@, level + 1, g1, g2, rank(id));
        },
        _ => {},
    }
}

proof fn lemma_stmts_text_fuel(
    p: HirProgram,
    nums: Seq<Seq<char>>,
    rank: spec_fn(int) -> nat,
    ids: Seq<usize>,
    level: nat,
    f1: nat,
    f2: nat,
    bound: nat,
)
    requires
        stmts_ranked(p, rank),
        stmts_below(p, rank, ids, bound),
        bound <= f1,
        bound <= f2,
    ensures
        stmts_text(p, nums, ids, level, f1) == stmts_text(p, nums, ids, level, f2),
    decreases bound, 0nat, ids.len(),
{
    if ids.len() > 0 {
        let rest = ids.drop_last();
        assert forall|k: int| 0 <= k < rest.len() && rest[k] < p.stmts@.len() implies #[trigger] rank(
            rest[k] as int,
        ) < bound by {
            assert(rest[k] == ids[k]);
        }
        lemma_stmts_text_fuel(p, nums, rank, rest, level, f1, f2, bound);
        let last = ids.last();
        if (last as int) < p.stmts@.len() {
            assert(ids[ids.len() - 1] == last);
            lemma_stmt_text_fuel(p, nums, rank, last as int, level, f1, f2);
        } else {
            assert(stmt_text(p, nums, last as int, level, f1) == stmt_text(
                p,
                nums,
                last as int,
                level,
                f2,
            ));
        }
    }
}

proof fn lemma_branches_text_fuel(
    p: HirProgram,
    nums: Seq<Seq<char>>,
    rank: spec_fn(int) -> nat,
    bs: Seq<IfBranch>,
    level: nat,
    f1: nat,
    f2: nat,
    bound: nat,
)
    requires
        stmts_ranked(p, rank),
        forall|b: int| 0 <= b < bs.len() ==> stmts_below(p, rank, #[trigger] bs[b].body@, bound),
        bound <= f1,
        bound <= f2,
    ensures
        branches_text(p, nums, bs, level, f1) == branches_text(p, nums, bs, level, f2),
    decreases bound, 1nat, bs.len(),
{
    if bs.len() > 0 {
        let rest = bs.drop_last();
        assert forall|b: int| 0 <= b < rest.len() implies stmts_below(p, rank, #[trigger] rest[b].body@, bound) by {
            assert(rest[b] == bs[b]);
        }
        lemma_branches_text_fuel(p, nums, rank, rest, level, f1, f2, bound);
        assert(bs[bs.len() - 1] == bs.last());
        lemma_stmts_text_fuel(p, nums, rank, bs.last().body@, level + 2, f1, f2, bound);
    }
}

/// On a statement arena whose nesting never comes back to a statement, a
/// statement written with as much fuel as there are statements reads as it
/// does with any more fuel.
pub proof fn law_statement_text_fuel_suffices(
    p: HirProgram,
    nums: Seq<Seq<char>>,
    rank: spec_fn(int) -> nat,
    id: int,
    level: nat,
    fuel: nat,
)
    requires
        stmts_ranked(p, rank),
        fuel >= stmt_fuel(p),
    ensures
        stmt_text(p, nums, id, level, fuel) == stmt_text(p, nums, id, level, stmt_fuel(p)),
{
    if 0 <= id < p.stmts@.len() {
        lemma_stmt_text_fuel(p, nums, rank, id, level, fuel, stmt_fuel(p));
    }
}

} // verus!
