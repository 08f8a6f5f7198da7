//! The HIR → Workshop IR lowering.
//!
//! [`lower`] maps an Opy HIR program onto the Workshop IR model:
//!
//! * global variables take their explicit source slot; the others take the
//!   lowest free slot in declaration order, and the table is ordered by slot;
//!   player variables and subroutines keep their table order, a player
//!   variable taking its explicit index when it has one;
//! * declaration initializers become the synthetic "Initialize global
//!   variables" / "Initialize player variables" rules, in declaration order;
//! * a subroutine definition becomes a rule with the `Subroutine` event,
//!   before the source rules;
//! * `x = x <op> v` (or `x = v <op> x`) becomes a modify action, any other
//!   assignment a set action; `.append(v)` becomes an `AppendToArray` modify;
//!   `debug(v)` and `print(v)` their HUD actions; other calls call actions;
//! * `for` loops over `range(..)` (one to three arguments) become
//!   `ForGlobalVariable`; `pass` is dropped;
//! * macro calls in value position expand inline, their parameters bound to
//!   the call arguments (an outer binding stays visible unless shadowed);
//! * statements and values nest at most 256 deep.
//!
//! Every refusal is an `unsupported` error with the offending span, or a
//! dangling reference.

use vstd::prelude::*;

use crate::hir::{
    dangling, expr_span, reports, stmt_span, Expr, Fault, GlobalVar, HirProgram, IfBranch, IrError,
    Span, Stmt,
};
use crate::ir::{binary_op_name, unary_op_name, BinaryOp, ModifyOp, Position};
use crate::text::{decimal, decimal_string, owned, str_eq};
use crate::wir::{Action, Value, ValueNode};

verus! {

broadcast use vstd::string::group_string_axioms;

// ---------------------------------------------------------------------------
// Views.
// ---------------------------------------------------------------------------

/// A workshop value with its strings and operand lists as sequences.
pub ghost enum ValueView {
    Number(u64),
    String(Seq<char>),
    Bool(bool),
    Null,
    Array(Seq<usize>),
    Vector { x: usize, y: usize, z: usize },
    Enum { value_type: Seq<char>, value: Seq<char> },
    GlobalVariable(usize),
    PlayerVariable { player: usize, variable: usize },
    EventPlayer,
    Call { name: Seq<char>, args: Seq<usize> },
}

pub open spec fn value_view(v: Value) -> ValueView {
    match v {
        Value::Number(b) => ValueView::Number(b),
        Value::String(s) => ValueView::String(s@),
        Value::Bool(b) => ValueView::Bool(b),
        Value::Null => ValueView::Null,
        Value::Array(a) => ValueView::Array(a@),
        Value::Vector { x, y, z } => ValueView::Vector { x, y, z },
        Value::Enum { value_type, value } => ValueView::Enum {
            value_type: value_type@,
            value: value@,
        },
        Value::GlobalVariable(g) => ValueView::GlobalVariable(g),
        Value::PlayerVariable { player, variable } => ValueView::PlayerVariable { player, variable },
        Value::EventPlayer => ValueView::EventPlayer,
        Value::Call { name, args } => ValueView::Call { name: name@, args: args@ },
    }
}

/// The value table as the contracts see it.
pub open spec fn nodes_view(ns: Seq<ValueNode>) -> Seq<(ValueView, Option<Span>)> {
    ns.map_values(|n: ValueNode| (value_view(n.value), n.span))
}

/// Macro parameter bindings as the contracts see them: the first binding
/// of a name is the one in force.
pub open spec fn params_view(ps: Seq<(String, usize)>) -> Seq<(Seq<char>, usize)> {
    ps.map_values(|b: (String, usize)| (b.0@, b.1))
}

pub open spec fn lookup_param(params: Seq<(Seq<char>, usize)>, name: Seq<char>) -> Option<usize>
    decreases params.len(),
{
    if params.len() == 0 {
        None
    } else if params[0].0 == name {
        Some(params[0].1)
    } else {
        lookup_param(params.drop_first(), name)
    }
}

/// The bindings of a macro expansion: its parameters bound to the call
/// arguments (a repeated parameter name binds its last argument), then the
/// outer bindings.
pub open spec fn macro_bindings(
    names: Seq<String>,
    args: Seq<usize>,
    outer: Seq<(Seq<char>, usize)>,
) -> Seq<(Seq<char>, usize)> {
    Seq::new(names.len(), |i: int| (names[names.len() - 1 - i]@, args[names.len() - 1 - i]))
        + outer
}

/// An unsupported construct.
pub open spec fn unsupported_fault(message: Seq<char>, span: Option<Span>) -> Fault {
    (false, "unsupported"@, 0, message, span)
}

pub open spec fn expr_span_at(p: HirProgram, id: usize) -> Option<Span> {
    if id < p.exprs@.len() {
        expr_span(p.exprs@[id as int])
    } else {
        None
    }
}

/// The Workshop slot of HIR global `id` under the slot map `g`.
pub open spec fn global_slot(g: Seq<usize>, id: usize) -> Result<usize, Fault> {
    if id < g.len() {
        Ok(g[id as int])
    } else {
        Err(dangling("global variable"@, id as int))
    }
}

/// The Workshop player variable of HIR player variable `id` (table order).
pub open spec fn player_slot(p: HirProgram, id: usize) -> Result<usize, Fault> {
    if id < p.players@.len() {
        Ok(id)
    } else {
        Err(dangling("player variable"@, id as int))
    }
}

pub open spec fn push_node(
    vals: Seq<(ValueView, Option<Span>)>,
    v: ValueView,
    span: Option<Span>,
) -> (Seq<(ValueView, Option<Span>)>, usize) {
    (vals.push((v, span)), vals.len() as usize)
}

pub open spec fn depth_exceeded_message() -> Seq<char> {
    "expression inlining exceeded the bounded-recursion limit (256)"@
}

// ---------------------------------------------------------------------------
// Values.
// ---------------------------------------------------------------------------

/// Lowering expression `id` at nesting `depth`, after the values `vals`:
/// the values it appends and the index of its own value.
pub open spec fn lower_value_spec(
    p: HirProgram,
    g: Seq<usize>,
    params: Seq<(Seq<char>, usize)>,
    vals: Seq<(ValueView, Option<Span>)>,
    id: usize,
    depth: int,
) -> Result<(Seq<(ValueView, Option<Span>)>, usize), Fault>
    decreases 257 - depth, 0int, 0int,
{
    let d = depth + 1;
    if d > 256 {
        Err(unsupported_fault(depth_exceeded_message(), expr_span_at(p, id)))
    } else if id >= p.exprs@.len() {
        Err(dangling("expression"@, id as int))
    } else {
        let e = p.exprs@[id as int];
        let span = expr_span(e);
        match e {
            Expr::Number { value_bits, .. } => Ok(push_node(vals, ValueView::Number(value_bits), span)),
            Expr::String { value, .. } => Ok(push_node(vals, ValueView::String(value@), span)),
            Expr::Bool { value, .. } => Ok(push_node(vals, ValueView::Bool(value), span)),
            Expr::Null { .. } => Ok(push_node(vals, ValueView::Null, span)),
            Expr::Array { elements, .. } => match lower_values_spec(p, g, params, vals, elements@, 0, d) {
                Err(f) => Err(f),
                Ok((v, ids)) => Ok(push_node(v, ValueView::Array(ids), span)),
            },
            Expr::Vector { x, y, z, .. } => match lower_value_spec(p, g, params, vals, x, d) {
                Err(f) => Err(f),
                Ok((v1, a)) => match lower_value_spec(p, g, params, v1, y, d) {
                    Err(f) => Err(f),
                    Ok((v2, b)) => match lower_value_spec(p, g, params, v2, z, d) {
                        Err(f) => Err(f),
                        Ok((v3, c)) => Ok(push_node(v3, ValueView::Vector { x: a, y: b, z: c }, span)),
                    },
                },
            },
            Expr::Enum { value_type, value, .. } => Ok(
                push_node(vals, ValueView::Enum { value_type: value_type@, value: value@ }, span),
            ),
            Expr::GlobalVar { variable, .. } => match global_slot(g, variable) {
                Err(f) => Err(f),
                Ok(s) => Ok(push_node(vals, ValueView::GlobalVariable(s), span)),
            },
            Expr::PlayerVar { player, variable, .. } => match lower_value_spec(p, g, params, vals, player, d) {
                Err(f) => Err(f),
                Ok((v1, a)) => match player_slot(p, variable) {
                    Err(f) => Err(f),
                    Ok(s) => Ok(push_node(v1, ValueView::PlayerVariable { player: a, variable: s }, span)),
                },
            },
            Expr::EventPlayer { .. } => Ok(push_node(vals, ValueView::EventPlayer, span)),
            Expr::Constant { constant, .. } => {
                let name = if constant < p.constants@.len() {
                    p.constants@[constant as int].name@
                } else {
                    Seq::<char>::empty()
                };
                Ok(push_node(vals, ValueView::Call { name, args: Seq::empty() }, span))
            },
            Expr::Call { name, args, .. } => match lower_values_spec(p, g, params, vals, args@, 0, d) {
                Err(f) => Err(f),
                Ok((v, ids)) => Ok(push_node(v, ValueView::Call { name: name@, args: ids }, span)),
            },
            Expr::ReceiverCall { receiver, name, args, .. } => match lower_value_spec(p, g, params, vals, receiver, d) {
                Err(f) => Err(f),
                Ok((v1, r)) => match lower_values_spec(p, g, params, v1, args@, 0, d) {
                    Err(f) => Err(f),
                    Ok((v2, ids)) => Ok(
                        push_node(v2, ValueView::Call { name: name@, args: seq![r] + ids }, span),
                    ),
                },
            },
            Expr::MacroCall { macro_, args, .. } => {
                if macro_ >= p.macros@.len() {
                    Err(dangling("macro"@, macro_ as int))
                } else {
                    let m = p.macros@[macro_ as int];
                    if args@.len() != m.args@.len() {
                        Err(unsupported_fault(
                            "macro '"@ + m.name@ + "' expects "@ + decimal(m.args@.len()) + " arguments, got "@
                                + decimal(args@.len()),
                            m.span,
                        ))
                    } else if m.body@.len() != 1 {
                        Err(unsupported_fault(
                            "macro '"@ + m.name@ + "' must have a single expression body for the v0.1 lowering surface"@,
                            m.span,
                        ))
                    } else if m.body@[0] >= p.stmts@.len() {
                        Err(dangling("statement"@, m.body@[0] as int))
                    } else {
                        match p.stmts@[m.body@[0] as int] {
                            Stmt::Expr { expr, .. } => lower_value_spec(
                                p,
                                g,
                                macro_bindings(m.args@, args@, params),
                                vals,
                                expr,
                                d,
                            ),
                            _ => Err(unsupported_fault(
                                "macro '"@ + m.name@ + "' must have an expression body for the v0.1 lowering surface"@,
                                m.span,
                            )),
                        }
                    }
                }
            },
            Expr::MacroParam { name, .. } => match lookup_param(params, name@) {
                Some(arg) => lower_value_spec(p, g, params, vals, arg, d),
                None => Err(unsupported_fault(
                    "macro parameter '$"@ + name@ + "' escaped its macro definition"@,
                    span,
                )),
            },
            Expr::Binary { op, left, right, .. } => match lower_value_spec(p, g, params, vals, left, d) {
                Err(f) => Err(f),
                Ok((v1, a)) => match lower_value_spec(p, g, params, v1, right, d) {
                    Err(f) => Err(f),
                    Ok((v2, b)) => Ok(
                        push_node(v2, ValueView::Call { name: binary_op_name(op), args: seq![a, b] }, span),
                    ),
                },
            },
            Expr::Unary { op, operand, .. } => match lower_value_spec(p, g, params, vals, operand, d) {
                Err(f) => Err(f),
                Ok((v1, a)) => Ok(
                    push_node(v1, ValueView::Call { name: unary_op_name(op), args: seq![a] }, span),
                ),
            },
            Expr::Index { array, index, .. } => match lower_value_spec(p, g, params, vals, array, d) {
                Err(f) => Err(f),
                Ok((v1, a)) => match lower_value_spec(p, g, params, v1, index, d) {
                    Err(f) => Err(f),
                    Ok((v2, b)) => Ok(
                        push_node(v2, ValueView::Call { name: "valueInArray"@, args: seq![a, b] }, span),
                    ),
                },
            },
            Expr::Format { text, args, .. } => {
                let (v1, s) = push_node(vals, ValueView::String(text@), span);
                match lower_values_spec(p, g, params, v1, args@, 0, d) {
                    Err(f) => Err(f),
                    Ok((v2, ids)) => Ok(
                        push_node(v2, ValueView::Call { name: "format"@, args: seq![s] + ids }, span),
                    ),
                }
            },
        }
    }
}

/// Lowering the expressions `ids[i..]` in order at nesting `depth`.
pub open spec fn lower_values_spec(
    p: HirProgram,
    g: Seq<usize>,
    params: Seq<(Seq<char>, usize)>,
    vals: Seq<(ValueView, Option<Span>)>,
    ids: Seq<usize>,
    i: int,
    depth: int,
) -> Result<(Seq<(ValueView, Option<Span>)>, Seq<usize>), Fault>
    decreases 257 - depth, 1int, ids.len() - i,
{
    if i < 0 || i >= ids.len() {
        Ok((vals, Seq::empty()))
    } else {
        match lower_value_spec(p, g, params, vals, ids[i], depth) {
            Err(f) => Err(f),
            Ok((v1, a)) => match lower_values_spec(p, g, params, v1, ids, i + 1, depth) {
                Err(f) => Err(f),
                Ok((v2, rest)) => Ok((v2, seq![a] + rest)),
            },
        }
    }
}

/// `r` is the outcome `s` describes, with the value table `values` after.
pub open spec fn value_outcome<T>(
    s: Result<(Seq<(ValueView, Option<Span>)>, T), Fault>,
    r: Result<T, IrError>,
    values: Seq<ValueNode>,
) -> bool {
    match s {
        Ok((v, x)) => r == Ok::<T, IrError>(x) && nodes_view(values) == v,
        Err(f) => r matches Err(e) && reports(e, f),
    }
}

pub(crate) fn unsupported(message: String, span: Option<Span>) -> (e: IrError)
    ensures
        reports(e, unsupported_fault(message@, span)),
{
    IrError::Invalid { code: "unsupported", message, span }
}

fn push_value(values: &mut Vec<ValueNode>, value: Value, span: Option<Span>) -> (r: usize)
    ensures
        nodes_view(final(values)@) == nodes_view(old(values)@).push((value_view(value), span)),
        r == old(values)@.len(),
        (nodes_view(final(values)@), r) == push_node(nodes_view(old(values)@), value_view(value), span),
{
    let r = values.len();
    values.push(ValueNode { value, span });
    proof {
        assert(nodes_view(final(values)@) =~= nodes_view(old(values)@).push((value_view(value), span)));
    }
    r
}

fn lookup_binding(params: &Vec<(String, usize)>, name: &str) -> (r: Option<usize>)
    ensures
        r == lookup_param(params_view(params@), name@),
{
    let mut i: usize = 0;
    proof {
        assert(params_view(params@).skip(0) =~= params_view(params@));
    }
    while i < params.len()
        invariant
            i <= params@.len(),
            lookup_param(params_view(params@), name@) == lookup_param(
                params_view(params@).skip(i as int),
                name@,
            ),
        decreases params@.len() - i,
    {
        proof {
            assert(params_view(params@).skip(i as int).drop_first() =~= params_view(params@).skip(
                i + 1,
            ));
        }
        if str_eq(params[i].0.as_str(), name) {
            return Some(params[i].1);
        }
        i = i + 1;
    }
    proof {
        assert(params_view(params@).skip(i as int).len() == 0);
    }
    None
}

fn bind_macro(names: &Vec<String>, args: &Vec<usize>, outer: &Vec<(String, usize)>) -> (r: Vec<
    (String, usize),
>)
    requires
        names@.len() == args@.len(),
    ensures
        params_view(r@) == macro_bindings(names@, args@, params_view(outer@)),
{
    let n = names.len();
    let mut r: Vec<(String, usize)> = Vec::new();
    let mut k: usize = 0;
    while k < n
        invariant
            n == names@.len(),
            n == args@.len(),
            k <= n,
            r@.len() == k,
            forall|i: int| 0 <= i < k ==> (#[trigger] r@[i]).0@ == names@[n - 1 - i]@ && r@[i].1 == args@[n - 1 - i],
        decreases n - k,
    {
        let j = n - 1 - k;
        r.push((names[j].clone(), args[j]));
        k = k + 1;
    }
    let mut o: usize = 0;
    while o < outer.len()
        invariant
            n == names@.len(),
            n == args@.len(),
            o <= outer@.len(),
            r@.len() == n + o,
            forall|i: int| 0 <= i < n ==> (#[trigger] r@[i]).0@ == names@[n - 1 - i]@ && r@[i].1 == args@[n - 1 - i],
            forall|i: int| 0 <= i < o ==> (#[trigger] r@[n + i]).0@ == outer@[i].0@ && r@[n + i].1 == outer@[i].1,
        decreases outer@.len() - o,
    {
        r.push((outer[o].0.clone(), outer[o].1));
        o = o + 1;
    }
    proof {
        let want = macro_bindings(names@, args@, params_view(outer@));
        assert forall|i: int| 0 <= i < r@.len() implies #[trigger] params_view(r@)[i] == want[i] by {
            if i >= n {
                assert(r@[n + (i - n)] == r@[i]);
            }
        }
        assert(params_view(r@) =~= want);
    }
    r
}

fn span_of_expr(e: &Expr) -> (r: Option<Span>)
    ensures
        r == expr_span(*e),
{
    match e {
        Expr::Number { span, .. } => *span,
        Expr::String { span, .. } => *span,
        Expr::Bool { span, .. } => *span,
        Expr::Null { span } => *span,
        Expr::Array { span, .. } => *span,
        Expr::Vector { span, .. } => *span,
        Expr::Enum { span, .. } => *span,
        Expr::GlobalVar { span, .. } => *span,
        Expr::PlayerVar { span, .. } => *span,
        Expr::EventPlayer { span } => *span,
        Expr::Constant { span, .. } => *span,
        Expr::Call { span, .. } => *span,
        Expr::ReceiverCall { span, .. } => *span,
        Expr::MacroCall { span, .. } => *span,
        Expr::MacroParam { span, .. } => *span,
        Expr::Binary { span, .. } => *span,
        Expr::Unary { span, .. } => *span,
        Expr::Index { span, .. } => *span,
        Expr::Format { span, .. } => *span,
    }
}

/// `r` with `pre` put before the indices it lists.
pub open spec fn prefixed(
    r: Result<(Seq<(ValueView, Option<Span>)>, Seq<usize>), Fault>,
    pre: Seq<usize>,
) -> Result<(Seq<(ValueView, Option<Span>)>, Seq<usize>), Fault> {
    match r {
        Ok((v, xs)) => Ok((v, pre + xs)),
        Err(f) => Err(f),
    }
}

fn pair(a: usize, b: usize) -> (r: Vec<usize>)
    ensures
        r@ == seq![a, b],
{
    let mut r = Vec::new();
    r.push(a);
    r.push(b);
    proof {
        assert(r@ =~= seq![a, b]);
    }
    r
}

fn single(a: usize) -> (r: Vec<usize>)
    ensures
        r@ == seq![a],
{
    let mut r = Vec::new();
    r.push(a);
    proof {
        assert(r@ =~= seq![a]);
    }
    r
}

/// Lowers expression `id` at nesting `depth`, appending its values.
pub fn lower_value(
    p: &HirProgram,
    g: &Vec<usize>,
    params: &Vec<(String, usize)>,
    values: &mut Vec<ValueNode>,
    id: usize,
    depth: u32,
) -> (r: Result<usize, IrError>)
    requires
        depth <= 256,
    ensures
        value_outcome(
            lower_value_spec(*p, g@, params_view(params@), nodes_view(old(values)@), id, depth as int),
            r,
            final(values)@,
        ),
    decreases 257 - depth, 0int, 0int,
{
    let d = depth + 1;
    if d > 256 {
        let span = if id < p.exprs.len() {
            span_of_expr(&p.exprs[id])
        } else {
            None
        };
        return Err(unsupported(owned("expression inlining exceeded the bounded-recursion limit (256)"), span));
    }
    if id >= p.exprs.len() {
        return Err(IrError::DanglingReference { what: "expression", id: id as u32 });
    }
    let e = &p.exprs[id];
    let span = span_of_expr(e);
    match e {
        Expr::Number { value_bits, .. } => Ok(push_value(values, Value::Number(*value_bits), span)),
        Expr::String { value, .. } => Ok(push_value(values, Value::String(value.clone()), span)),
        Expr::Bool { value, .. } => Ok(push_value(values, Value::Bool(*value), span)),
        Expr::Null { .. } => Ok(push_value(values, Value::Null, span)),
        Expr::Array { elements, .. } => {
            let ids = lower_values(p, g, params, values, elements, d)?;
            Ok(push_value(values, Value::Array(ids), span))
        },
        Expr::Vector { x, y, z, .. } => {
            let a = lower_value(p, g, params, values, *x, d)?;
            let b = lower_value(p, g, params, values, *y, d)?;
            let c = lower_value(p, g, params, values, *z, d)?;
            Ok(push_value(values, Value::Vector { x: a, y: b, z: c }, span))
        },
        Expr::Enum { value_type, value, .. } => Ok(
            push_value(values, Value::Enum { value_type: value_type.clone(), value: value.clone() }, span),
        ),
        Expr::GlobalVar { variable, .. } => {
            if *variable >= g.len() {
                return Err(IrError::DanglingReference { what: "global variable", id: *variable as u32 });
            }
            Ok(push_value(values, Value::GlobalVariable(g[*variable]), span))
        },
        Expr::PlayerVar { player, variable, .. } => {
            let a = lower_value(p, g, params, values, *player, d)?;
            if *variable >= p.players.len() {
                return Err(IrError::DanglingReference { what: "player variable", id: *variable as u32 });
            }
            Ok(push_value(values, Value::PlayerVariable { player: a, variable: *variable }, span))
        },
        Expr::EventPlayer { .. } => Ok(push_value(values, Value::EventPlayer, span)),
        Expr::Constant { constant, .. } => {
            let name = if *constant < p.constants.len() {
                p.constants[*constant].name.clone()
            } else {
                String::new()
            };
            Ok(push_value(values, Value::Call { name, args: Vec::new() }, span))
        },
        Expr::Call { name, args, .. } => {
            let ids = lower_values(p, g, params, values, args, d)?;
            Ok(push_value(values, Value::Call { name: name.clone(), args: ids }, span))
        },
        Expr::ReceiverCall { receiver, name, args, .. } => {
            let r = lower_value(p, g, params, values, *receiver, d)?;
            let ids = lower_values(p, g, params, values, args, d)?;
            let mut all: Vec<usize> = Vec::new();
            all.push(r);
            let mut rest = ids;
            all.append(&mut rest);
            proof {
                assert(all@ =~= seq![r] + ids@);
            }
            Ok(push_value(values, Value::Call { name: name.clone(), args: all }, span))
        },
        Expr::MacroCall { macro_, args, .. } => {
            if *macro_ >= p.macros.len() {
                return Err(IrError::DanglingReference { what: "macro", id: *macro_ as u32 });
            }
            let m = &p.macros[*macro_];
            if args.len() != m.args.len() {
                let mut message = owned("macro '");
                message.append(m.name.as_str());
                message.append("' expects ");
                message.append(decimal_string(m.args.len() as u64).as_str());
                message.append(" arguments, got ");
                message.append(decimal_string(args.len() as u64).as_str());
                return Err(unsupported(message, m.span));
            }
            if m.body.len() != 1 {
                let mut message = owned("macro '");
                message.append(m.name.as_str());
                message.append("' must have a single expression body for the v0.1 lowering surface");
                return Err(unsupported(message, m.span));
            }
            let s = m.body[0];
            if s >= p.stmts.len() {
                return Err(IrError::DanglingReference { what: "statement", id: s as u32 });
            }
            match &p.stmts[s] {
                Stmt::Expr { expr, .. } => {
                    let bound = bind_macro(&m.args, args, params);
                    lower_value(p, g, &bound, values, *expr, d)
                },
                _ => {
                    let mut message = owned("macro '");
                    message.append(m.name.as_str());
                    message.append("' must have an expression body for the v0.1 lowering surface");
                    Err(unsupported(message, m.span))
                },
            }
        },
        Expr::MacroParam { name, .. } => match lookup_binding(params, name.as_str()) {
            Some(arg) => lower_value(p, g, params, values, arg, d),
            None => {
                let mut message = owned("macro parameter '$");
                message.append(name.as_str());
                message.append("' escaped its macro definition");
                Err(unsupported(message, span))
            },
        },
        Expr::Binary { op, left, right, .. } => {
            let a = lower_value(p, g, params, values, *left, d)?;
            let b = lower_value(p, g, params, values, *right, d)?;
            Ok(push_value(values, Value::Call { name: owned(op.as_str()), args: pair(a, b) }, span))
        },
        Expr::Unary { op, operand, .. } => {
            let a = lower_value(p, g, params, values, *operand, d)?;
            Ok(push_value(values, Value::Call { name: owned(op.as_str()), args: single(a) }, span))
        },
        Expr::Index { array, index, .. } => {
            let a = lower_value(p, g, params, values, *array, d)?;
            let b = lower_value(p, g, params, values, *index, d)?;
            Ok(push_value(values, Value::Call { name: owned("valueInArray"), args: pair(a, b) }, span))
        },
        Expr::Format { text, args, .. } => {
            let s = push_value(values, Value::String(text.clone()), span);
            let ids = lower_values(p, g, params, values, args, d)?;
            let mut all: Vec<usize> = Vec::new();
            all.push(s);
            let mut rest = ids;
            all.append(&mut rest);
            proof {
                assert(all@ =~= seq![s] + ids@);
            }
            Ok(push_value(values, Value::Call { name: owned("format"), args: all }, span))
        },
    }
}

/// Lowers the expressions `ids` in order at nesting `depth`.
pub fn lower_values(
    p: &HirProgram,
    g: &Vec<usize>,
    params: &Vec<(String, usize)>,
    values: &mut Vec<ValueNode>,
    ids: &Vec<usize>,
    depth: u32,
) -> (r: Result<Vec<usize>, IrError>)
    requires
        depth <= 256,
    ensures
        match lower_values_spec(*p, g@, params_view(params@), nodes_view(old(values)@), ids@, 0, depth as int) {
            Ok((v, xs)) => r matches Ok(out) && out@ == xs && nodes_view(final(values)@) == v,
            Err(f) => r matches Err(e) && reports(e, f),
        },
    decreases 257 - depth, 1int, ids@.len(),
{
    let mut out: Vec<usize> = Vec::new();
    let mut i: usize = 0;
    while i < ids.len()
        invariant
            depth <= 256,
            i <= ids@.len(),
            lower_values_spec(*p, g@, params_view(params@), nodes_view(old(values)@), ids@, 0, depth as int)
                == prefixed(
                lower_values_spec(*p, g@, params_view(params@), nodes_view(values@), ids@, i as int, depth as int),
                out@,
            ),
        decreases ids@.len() - i,
    {
        let ghost before = nodes_view(values@);
        let ghost out0 = out@;
        let a = lower_value(p, g, params, values, ids[i], depth)?;
        out.push(a);
        i = i + 1;
        proof {
            let tail = lower_values_spec(*p, g@, params_view(params@), nodes_view(values@), ids@, i as int, depth as int);
            match tail {
                Ok((v2, rest)) => {
                    assert(out0 + (seq![a] + rest) =~= out@ + rest);
                },
                Err(f) => {},
            }
        }
    }
    proof {
        assert(out@ + Seq::<usize>::empty() =~= out@);
    }
    Ok(out)
}

// ---------------------------------------------------------------------------
// Statements.
// ---------------------------------------------------------------------------

/// A workshop action with its operand lists and names as sequences.
pub ghost enum ActionView {
    SetGlobalVariable { variable: usize, value: usize, span: Option<Span>, target_span: Option<Span> },
    ModifyGlobalVariable {
        variable: usize,
        op: ModifyOp,
        value: usize,
        span: Option<Span>,
        target_span: Option<Span>,
    },
    SetPlayerVariable {
        player: usize,
        variable: usize,
        value: usize,
        span: Option<Span>,
        target_span: Option<Span>,
    },
    ModifyPlayerVariable {
        player: usize,
        variable: usize,
        op: ModifyOp,
        value: usize,
        span: Option<Span>,
        target_span: Option<Span>,
    },
    CallSubroutine { subroutine: usize, span: Option<Span>, callee_span: Option<Span> },
    If { branches: Seq<(usize, Seq<usize>)>, else_body: Option<Seq<usize>>, span: Option<Span> },
    While { condition: usize, body: Seq<usize>, span: Option<Span> },
    ForGlobalVariable {
        variable: usize,
        start: usize,
        stop: usize,
        step: usize,
        body: Seq<usize>,
        span: Option<Span>,
        target_span: Option<Span>,
    },
    Debug { value: usize, span: Option<Span> },
    Print { message: usize, span: Option<Span> },
    Call { name: Seq<char>, args: Seq<usize>, span: Option<Span> },
}

pub open spec fn action_view(a: Action) -> ActionView {
    match a {
        Action::SetGlobalVariable { variable, value, span, target_span } => ActionView::SetGlobalVariable {
            variable,
            value,
            span,
            target_span,
        },
        Action::ModifyGlobalVariable { variable, op, value, span, target_span } => ActionView::ModifyGlobalVariable {
            variable,
            op,
            value,
            span,
            target_span,
        },
        Action::SetPlayerVariable { player, variable, value, span, target_span } => ActionView::SetPlayerVariable {
            player,
            variable,
            value,
            span,
            target_span,
        },
        Action::ModifyPlayerVariable { player, variable, op, value, span, target_span } => ActionView::ModifyPlayerVariable {
            player,
            variable,
            op,
            value,
            span,
            target_span,
        },
        Action::CallSubroutine { subroutine, span, callee_span } => ActionView::CallSubroutine {
            subroutine,
            span,
            callee_span,
        },
        Action::If { branches, else_body, span } => ActionView::If {
            branches: branches@.map_values(|b: crate::wir::IfBranch| (b.condition, b.body@)),
            else_body: match else_body {
                Some(b) => Some(b@),
                None => None,
            },
            span,
        },
        Action::While { condition, body, span } => ActionView::While { condition, body: body@, span },
        Action::ForGlobalVariable { variable, start, stop, step, body, span, target_span } => ActionView::ForGlobalVariable {
            variable,
            start,
            stop,
            step,
            body: body@,
            span,
            target_span,
        },
        Action::Debug { value, span } => ActionView::Debug { value, span },
        Action::Print { message, span } => ActionView::Print { message, span },
        Action::Call { name, args, span } => ActionView::Call { name: name@, args: args@, span },
    }
}

/// The action table as the contracts see it.
pub open spec fn actions_view(xs: Seq<Action>) -> Seq<ActionView> {
    xs.map_values(|a: Action| action_view(a))
}

/// The tables a lowering builds: values and actions.
pub ghost struct Tables {
    pub values: Seq<(ValueView, Option<Span>)>,
    pub actions: Seq<ActionView>,
}

pub open spec fn tables_of(values: Seq<ValueNode>, actions: Seq<Action>) -> Tables {
    Tables { values: nodes_view(values), actions: actions_view(actions) }
}

/// Lowering a value inside a statement: no macro parameters are bound.
pub open spec fn value_in(p: HirProgram, g: Seq<usize>, t: Tables, id: usize, depth: int) -> Result<
    (Tables, usize),
    Fault,
> {
    match lower_value_spec(p, g, Seq::empty(), t.values, id, depth) {
        Err(f) => Err(f),
        Ok((v, x)) => Ok((Tables { values: v, ..t }, x)),
    }
}

pub open spec fn values_in(p: HirProgram, g: Seq<usize>, t: Tables, ids: Seq<usize>, depth: int) -> Result<
    (Tables, Seq<usize>),
    Fault,
> {
    match lower_values_spec(p, g, Seq::empty(), t.values, ids, 0, depth) {
        Err(f) => Err(f),
        Ok((v, xs)) => Ok((Tables { values: v, ..t }, xs)),
    }
}

pub open spec fn push_value_in(t: Tables, v: ValueView, span: Option<Span>) -> (Tables, usize) {
    (Tables { values: t.values.push((v, span)), ..t }, t.values.len() as usize)
}

pub open spec fn push_action(t: Tables, a: ActionView) -> (Tables, usize) {
    (Tables { actions: t.actions.push(a), ..t }, t.actions.len() as usize)
}

/// The name an expression kind goes by in messages.
pub open spec fn expr_kind(e: Expr) -> Seq<char> {
    match e {
        Expr::Number { .. } => "number"@,
        Expr::String { .. } => "string"@,
        Expr::Bool { .. } => "bool"@,
        Expr::Null { .. } => "null"@,
        Expr::Array { .. } => "array"@,
        Expr::Vector { .. } => "vector"@,
        Expr::Enum { .. } => "enum"@,
        Expr::GlobalVar { .. } => "globalVar"@,
        Expr::PlayerVar { .. } => "playerVar"@,
        Expr::EventPlayer { .. } => "eventPlayer"@,
        Expr::Constant { .. } => "constant"@,
        Expr::Call { .. } => "call"@,
        Expr::ReceiverCall { .. } => "receiverCall"@,
        Expr::MacroCall { .. } => "macroCall"@,
        Expr::MacroParam { .. } => "macroParam"@,
        Expr::Binary { .. } => "binary"@,
        Expr::Unary { .. } => "unary"@,
        Expr::Index { .. } => "index"@,
        Expr::Format { .. } => "format"@,
    }
}

/// The modify operator of a binary operator, if it is one.
pub open spec fn modify_op_of(op: BinaryOp) -> Option<ModifyOp> {
    match op {
        BinaryOp::Add => Some(ModifyOp::Add),
        BinaryOp::Subtract => Some(ModifyOp::Subtract),
        BinaryOp::Multiply => Some(ModifyOp::Multiply),
        BinaryOp::Divide => Some(ModifyOp::Divide),
        BinaryOp::Modulo => Some(ModifyOp::Modulo),
        BinaryOp::Power => Some(ModifyOp::RaiseToPower),
        _ => None,
    }
}

/// The span of the variable name in an assignment target: the whole
/// reference for a global; for a player variable, the member name at the
/// end of `receiver.name`.
pub open spec fn occurrence_span(p: HirProgram, e: Expr) -> Option<Span> {
    match e {
        Expr::GlobalVar { span, .. } => span,
        Expr::PlayerVar { variable, span, .. } => match span {
            None => None,
            Some(s) => {
                let n: u32 = if variable < p.players@.len() {
                    p.players@[variable as int].name@.len() as u32
                } else {
                    0
                };
                let back: int = if s.end.col >= n {
                    s.end.col - n
                } else {
                    0
                };
                let col: u32 = if back >= s.start.col {
                    back as u32
                } else {
                    s.start.col
                };
                Some(Span { file: s.file, start: Position { line: s.end.line, col }, end: s.end })
            },
        },
        _ => None,
    }
}

/// Two player expressions that are the same player: both the event player,
/// or both the same global.
pub open spec fn same_player(a: Expr, b: Expr) -> bool {
    match (a, b) {
        (Expr::EventPlayer { .. }, Expr::EventPlayer { .. }) => true,
        (Expr::GlobalVar { variable: x, .. }, Expr::GlobalVar { variable: y, .. }) => x == y,
        _ => false,
    }
}

/// Whether operand `operand` reads `target` (`None`: the global `global`;
/// `Some((player, variable))`: the player variable on that player).
pub open spec fn operand_is_target(p: HirProgram, operand: usize, global: usize, player: Option<(Expr, usize)>) -> Result<
    bool,
    Fault,
> {
    if operand >= p.exprs@.len() {
        Err(dangling("expression"@, operand as int))
    } else {
        match player {
            None => Ok(p.exprs@[operand as int] matches Expr::GlobalVar { variable, .. } && variable == global),
            Some((target, variable)) => match p.exprs@[operand as int] {
                Expr::PlayerVar { player: pp, variable: v, .. } => if v == variable {
                    if pp >= p.exprs@.len() {
                        Err(dangling("expression"@, pp as int))
                    } else {
                        Ok(same_player(p.exprs@[pp as int], target))
                    }
                } else {
                    Ok(false)
                },
                _ => Ok(false),
            },
        }
    }
}

/// The compound-assignment pattern of `value` for a target: the modify
/// operator and the other operand's value, when `value` is `target <op> v`
/// or `v <op> target`.
pub open spec fn modify_pattern(
    p: HirProgram,
    g: Seq<usize>,
    t: Tables,
    value: usize,
    global: usize,
    player: Option<(Expr, usize)>,
    depth: int,
) -> Result<(Tables, Option<(ModifyOp, usize)>), Fault> {
    if value >= p.exprs@.len() {
        Err(dangling("expression"@, value as int))
    } else {
        match p.exprs@[value as int] {
            Expr::Binary { op, left, right, .. } => match modify_op_of(op) {
                None => Ok((t, None)),
                Some(m) => match operand_is_target(p, left, global, player) {
                    Err(f) => Err(f),
                    Ok(lt) => match operand_is_target(p, right, global, player) {
                        Err(f) => Err(f),
                        Ok(rt) => if lt {
                            match value_in(p, g, t, right, depth) {
                                Err(f) => Err(f),
                                Ok((t1, x)) => Ok((t1, Some((m, x)))),
                            }
                        } else if rt {
                            match value_in(p, g, t, left, depth) {
                                Err(f) => Err(f),
                                Ok((t1, x)) => Ok((t1, Some((m, x)))),
                            }
                        } else {
                            Ok((t, None))
                        },
                    },
                },
            },
            _ => Ok((t, None)),
        }
    }
}

pub open spec fn statement_depth_message() -> Seq<char> {
    "statement inlining exceeded the bounded-recursion limit (256)"@
}

/// The one-point-zero bit pattern of an `f64`.
pub open spec fn one_bits() -> u64 {
    0x3FF0_0000_0000_0000
}

/// The bounds of a `range(..)` iterable: start, stop and step.
pub open spec fn range_bounds(p: HirProgram, g: Seq<usize>, t: Tables, iterable: usize, depth: int) -> Result<
    (Tables, (usize, usize, usize)),
    Fault,
> {
    if iterable >= p.exprs@.len() {
        Err(dangling("expression"@, iterable as int))
    } else {
        match p.exprs@[iterable as int] {
            Expr::Call { name, args, span } => if name@ != "range"@ {
                Err(unsupported_fault(
                    "for-loop iterable '"@ + name@ + "' is outside the v0.1 lowering surface"@,
                    span,
                ))
            } else {
                let (t1, zero) = push_value_in(t, ValueView::Number(0), None);
                let (t2, one) = push_value_in(t1, ValueView::Number(one_bits()), None);
                if args@.len() == 1 {
                    match value_in(p, g, t2, args@[0], depth) {
                        Err(f) => Err(f),
                        Ok((t3, stop)) => Ok((t3, (zero, stop, one))),
                    }
                } else if args@.len() == 2 {
                    match value_in(p, g, t2, args@[0], depth) {
                        Err(f) => Err(f),
                        Ok((t3, start)) => match value_in(p, g, t3, args@[1], depth) {
                            Err(f) => Err(f),
                            Ok((t4, stop)) => Ok((t4, (start, stop, one))),
                        },
                    }
                } else if args@.len() == 3 {
                    match value_in(p, g, t2, args@[0], depth) {
                        Err(f) => Err(f),
                        Ok((t3, start)) => match value_in(p, g, t3, args@[1], depth) {
                            Err(f) => Err(f),
                            Ok((t4, stop)) => match value_in(p, g, t4, args@[2], depth) {
                                Err(f) => Err(f),
                                Ok((t5, step)) => Ok((t5, (start, stop, step))),
                            },
                        },
                    }
                } else {
                    Err(unsupported_fault(
                        "range() must take 1, 2, or 3 arguments for the v0.1 lowering surface"@,
                        span,
                    ))
                }
            },
            e => Err(unsupported_fault(
                "for-loop iterable must be a range() call for the v0.1 lowering surface"@,
                expr_span(e),
            )),
        }
    }
}

/// The action of an expression statement.
pub open spec fn expr_stmt(p: HirProgram, g: Seq<usize>, t: Tables, expr: usize, span: Option<Span>, depth: int) -> Result<
    (Tables, ActionView),
    Fault,
> {
    if expr >= p.exprs@.len() {
        Err(dangling("expression"@, expr as int))
    } else {
        match p.exprs@[expr as int] {
            Expr::Call { name, args, .. } => if name@ == "debug"@ && args@.len() == 1 {
                match value_in(p, g, t, args@[0], depth) {
                    Err(f) => Err(f),
                    Ok((t1, x)) => Ok((t1, ActionView::Debug { value: x, span })),
                }
            } else if name@ == "print"@ && args@.len() == 1 {
                match value_in(p, g, t, args@[0], depth) {
                    Err(f) => Err(f),
                    Ok((t1, x)) => Ok((t1, ActionView::Print { message: x, span })),
                }
            } else {
                match values_in(p, g, t, args@, depth) {
                    Err(f) => Err(f),
                    Ok((t1, xs)) => Ok((t1, ActionView::Call { name: name@, args: xs, span })),
                }
            },
            Expr::ReceiverCall { receiver, name, args, .. } => if name@ == "append"@ {
                if args@.len() != 1 {
                    Err(unsupported_fault(
                        "append must take exactly one value for the v0.1 lowering surface"@,
                        span,
                    ))
                } else {
                    match value_in(p, g, t, args@[0], depth) {
                        Err(f) => Err(f),
                        Ok((t1, x)) => if receiver >= p.exprs@.len() {
                            Err(dangling("expression"@, receiver as int))
                        } else {
                            let re = p.exprs@[receiver as int];
                            match re {
                                Expr::GlobalVar { variable, .. } => match global_slot(g, variable) {
                                    Err(f) => Err(f),
                                    Ok(gs) => Ok((t1, ActionView::ModifyGlobalVariable {
                                        variable: gs,
                                        op: ModifyOp::AppendToArray,
                                        value: x,
                                        span,
                                        target_span: occurrence_span(p, re),
                                    })),
                                },
                                Expr::PlayerVar { player, variable, .. } => match value_in(p, g, t1, player, depth) {
                                    Err(f) => Err(f),
                                    Ok((t2, pl)) => match player_slot(p, variable) {
                                        Err(f) => Err(f),
                                        Ok(ps) => Ok((t2, ActionView::ModifyPlayerVariable {
                                            player: pl,
                                            variable: ps,
                                            op: ModifyOp::AppendToArray,
                                            value: x,
                                            span,
                                            target_span: occurrence_span(p, re),
                                        })),
                                    },
                                },
                                other => Err(unsupported_fault(
                                    "append on '"@ + expr_kind(other) + "' receiver is outside the v0.1 lowering surface"@,
                                    span,
                                )),
                            }
                        },
                    }
                }
            } else {
                match value_in(p, g, t, receiver, depth) {
                    Err(f) => Err(f),
                    Ok((t1, r)) => match values_in(p, g, t1, args@, depth) {
                        Err(f) => Err(f),
                        Ok((t2, xs)) => Ok((t2, ActionView::Call { name: name@, args: seq![r] + xs, span })),
                    },
                }
            },
            other => Err(unsupported_fault(
                "expression statement '"@ + expr_kind(other) + "' is outside the v0.1 lowering surface"@,
                span,
            )),
        }
    }
}

/// The action of an assignment.
pub open spec fn assign_stmt(
    p: HirProgram,
    g: Seq<usize>,
    t: Tables,
    target: usize,
    value: usize,
    span: Option<Span>,
    depth: int,
) -> Result<(Tables, ActionView), Fault> {
    if target >= p.exprs@.len() {
        Err(dangling("expression"@, target as int))
    } else {
        let te = p.exprs@[target as int];
        match te {
            Expr::GlobalVar { variable, .. } => match global_slot(g, variable) {
                Err(f) => Err(f),
                Ok(gs) => match modify_pattern(p, g, t, value, variable, None, depth) {
                    Err(f) => Err(f),
                    Ok((t1, Some((op, x)))) => Ok((t1, ActionView::ModifyGlobalVariable {
                        variable: gs,
                        op,
                        value: x,
                        span,
                        target_span: occurrence_span(p, te),
                    })),
                    Ok((t1, None)) => match value_in(p, g, t1, value, depth) {
                        Err(f) => Err(f),
                        Ok((t2, x)) => Ok((t2, ActionView::SetGlobalVariable {
                            variable: gs,
                            value: x,
                            span,
                            target_span: occurrence_span(p, te),
                        })),
                    },
                },
            },
            Expr::PlayerVar { player, variable, .. } => match value_in(p, g, t, player, depth) {
                Err(f) => Err(f),
                Ok((t1, pl)) => match player_slot(p, variable) {
                    Err(f) => Err(f),
                    Ok(ps) => if player >= p.exprs@.len() {
                        Err(dangling("expression"@, player as int))
                    } else {
                        match modify_pattern(p, g, t1, value, 0, Some((p.exprs@[player as int], variable)), depth) {
                            Err(f) => Err(f),
                            Ok((t2, Some((op, x)))) => Ok((t2, ActionView::ModifyPlayerVariable {
                                player: pl,
                                variable: ps,
                                op,
                                value: x,
                                span,
                                target_span: occurrence_span(p, te),
                            })),
                            Ok((t2, None)) => match value_in(p, g, t2, value, depth) {
                                Err(f) => Err(f),
                                Ok((t3, x)) => Ok((t3, ActionView::SetPlayerVariable {
                                    player: pl,
                                    variable: ps,
                                    value: x,
                                    span,
                                    target_span: occurrence_span(p, te),
                                })),
                            },
                        }
                    },
                },
            },
            Expr::Index { array, index, .. } => match value_in(p, g, t, index, depth) {
                Err(f) => Err(f),
                Ok((t1, ix)) => match value_in(p, g, t1, value, depth) {
                    Err(f) => Err(f),
                    Ok((t2, x)) => match value_in(p, g, t2, array, depth) {
                        Err(f) => Err(f),
                        Ok((t3, a)) => match p.exprs@[array as int] {
                            Expr::GlobalVar { .. } => Ok((t3, ActionView::Call {
                                name: "setGlobalVariableAtIndex"@,
                                args: seq![a, ix, x],
                                span,
                            })),
                            Expr::PlayerVar { .. } => Ok((t3, ActionView::Call {
                                name: "setPlayerVariableAtIndex"@,
                                args: seq![a, ix, x],
                                span,
                            })),
                            _ => Err(unsupported_fault(
                                "indexed assignment requires a global or player array target"@,
                                span,
                            )),
                        },
                    },
                },
            },
            other => Err(unsupported_fault(
                "assignment to '"@ + expr_kind(other) + "' target is outside the v0.1 lowering surface"@,
                span,
            )),
        }
    }
}

/// Lowering statement `id` at nesting `depth`: the tables after, and the
/// index of its action (`None` for a dropped `pass`).
pub open spec fn lower_stmt_spec(p: HirProgram, g: Seq<usize>, t: Tables, id: usize, depth: int) -> Result<
    (Tables, Option<usize>),
    Fault,
>
    decreases 257 - depth, 0int, 0int,
{
    let d = depth + 1;
    if d > 256 {
        Err(unsupported_fault(
            statement_depth_message(),
            if id < p.stmts@.len() {
                stmt_span(p.stmts@[id as int])
            } else {
                None
            },
        ))
    } else if id >= p.stmts@.len() {
        Err(dangling("statement"@, id as int))
    } else {
        let st = p.stmts@[id as int];
        let span = stmt_span(st);
        let made: Result<(Tables, ActionView), Fault> = match st {
            Stmt::Expr { expr, .. } => expr_stmt(p, g, t, expr, span, d),
            Stmt::Assign { target, value, .. } => assign_stmt(p, g, t, target, value, span, d),
            Stmt::If { branches, else_body, .. } => match lower_branches_spec(p, g, t, branches@, 0, d) {
                Err(f) => Err(f),
                Ok((t1, bs)) => match else_body {
                    None => Ok((t1, ActionView::If { branches: bs, else_body: None, span })),
                    Some(body) => match lower_stmts_spec(p, g, t1, body@, 0, d) {
                        Err(f) => Err(f),
                        Ok((t2, xs)) => Ok((t2, ActionView::If { branches: bs, else_body: Some(xs), span })),
                    },
                },
            },
            Stmt::For { variable, iterable, body, .. } => match range_bounds(p, g, t, iterable, d) {
                Err(f) => Err(f),
                Ok((t1, (start, stop, step))) => match global_slot(g, variable) {
                    Err(f) => Err(f),
                    Ok(gs) => match lower_stmts_spec(p, g, t1, body@, 0, d) {
                        Err(f) => Err(f),
                        Ok((t2, xs)) => Ok((t2, ActionView::ForGlobalVariable {
                            variable: gs,
                            start,
                            stop,
                            step,
                            body: xs,
                            span,
                            target_span: None,
                        })),
                    },
                },
            },
            Stmt::While { condition, body, .. } => match value_in(p, g, t, condition, d) {
                Err(f) => Err(f),
                Ok((t1, c)) => match lower_stmts_spec(p, g, t1, body@, 0, d) {
                    Err(f) => Err(f),
                    Ok((t2, xs)) => Ok((t2, ActionView::While { condition: c, body: xs, span })),
                },
            },
            Stmt::CallSubroutine { subroutine, .. } => if subroutine < p.subroutines@.len() {
                Ok((t, ActionView::CallSubroutine { subroutine, span, callee_span: None }))
            } else {
                Err(dangling("subroutine"@, subroutine as int))
            },
            Stmt::Pass { .. } => Ok((t, ActionView::Debug { value: 0, span })),
        };
        if st is Pass {
            Ok((t, None))
        } else {
            match made {
                Err(f) => Err(f),
                Ok((t1, a)) => {
                    let (t2, x) = push_action(t1, a);
                    Ok((t2, Some(x)))
                },
            }
        }
    }
}

/// Lowering the statements `ids[i..]` in order at nesting `depth`: the
/// tables after and their actions' indices.
pub open spec fn lower_stmts_spec(
    p: HirProgram,
    g: Seq<usize>,
    t: Tables,
    ids: Seq<usize>,
    i: int,
    depth: int,
) -> Result<(Tables, Seq<usize>), Fault>
    decreases 257 - depth, 1int, ids.len() - i,
{
    if i < 0 || i >= ids.len() {
        Ok((t, Seq::empty()))
    } else {
        match lower_stmt_spec(p, g, t, ids[i], depth) {
            Err(f) => Err(f),
            Ok((t1, a)) => match lower_stmts_spec(p, g, t1, ids, i + 1, depth) {
                Err(f) => Err(f),
                Ok((t2, rest)) => Ok((
                    t2,
                    match a {
                        Some(x) => seq![x] + rest,
                        None => rest,
                    },
                )),
            },
        }
    }
}

/// Lowering the branches `bs[i..]` of an `if`: each condition, then its body.
pub open spec fn lower_branches_spec(
    p: HirProgram,
    g: Seq<usize>,
    t: Tables,
    bs: Seq<IfBranch>,
    i: int,
    depth: int,
) -> Result<(Tables, Seq<(usize, Seq<usize>)>), Fault>
    decreases 257 - depth, 2int, bs.len() - i,
{
    if i < 0 || i >= bs.len() {
        Ok((t, Seq::empty()))
    } else {
        match value_in(p, g, t, bs[i].condition, depth) {
            Err(f) => Err(f),
            Ok((t1, c)) => match lower_stmts_spec(p, g, t1, bs[i].body@, 0, depth) {
                Err(f) => Err(f),
                Ok((t2, xs)) => match lower_branches_spec(p, g, t2, bs, i + 1, depth) {
                    Err(f) => Err(f),
                    Ok((t3, rest)) => Ok((t3, seq![(c, xs)] + rest)),
                },
            },
        }
    }
}


/// `r` is the outcome `s` describes, with `values` and `actions` after.
pub open spec fn tables_outcome<T>(
    s: Result<(Tables, T), Fault>,
    r: Result<T, IrError>,
    values: Seq<ValueNode>,
    actions: Seq<Action>,
) -> bool {
    match s {
        Ok((t, x)) => r == Ok::<T, IrError>(x) && nodes_view(values) == t.values && actions_view(
            actions,
        ) == t.actions,
        Err(f) => r matches Err(e) && reports(e, f),
    }
}

/// `r` is the action outcome `s` describes.
pub open spec fn action_outcome(
    s: Result<(Tables, ActionView), Fault>,
    r: Result<Action, IrError>,
    values: Seq<ValueNode>,
    actions: Seq<Action>,
) -> bool {
    match s {
        Ok((t, a)) => r matches Ok(x) && action_view(x) == a && nodes_view(values) == t.values
            && actions_view(actions) == t.actions,
        Err(f) => r matches Err(e) && reports(e, f),
    }
}

fn value_at(p: &HirProgram, g: &Vec<usize>, values: &mut Vec<ValueNode>, id: usize, depth: u32) -> (r:
    Result<usize, IrError>)
    requires
        depth <= 256,
    ensures
        match value_in(*p, g@, Tables { values: nodes_view(old(values)@), actions: Seq::empty() }, id, depth as int) {
            Ok((t, x)) => r == Ok::<usize, IrError>(x) && nodes_view(final(values)@) == t.values,
            Err(f) => r matches Err(e) && reports(e, f),
        },
{
    let none: Vec<(String, usize)> = Vec::new();
    proof {
        assert(params_view(none@) =~= Seq::<(Seq<char>, usize)>::empty());
    }
    lower_value(p, g, &none, values, id, depth)
}

fn values_at(p: &HirProgram, g: &Vec<usize>, values: &mut Vec<ValueNode>, ids: &Vec<usize>, depth: u32) -> (r:
    Result<Vec<usize>, IrError>)
    requires
        depth <= 256,
    ensures
        match values_in(*p, g@, Tables { values: nodes_view(old(values)@), actions: Seq::empty() }, ids@, depth as int) {
            Ok((t, xs)) => r matches Ok(out) && out@ == xs && nodes_view(final(values)@) == t.values,
            Err(f) => r matches Err(e) && reports(e, f),
        },
{
    let none: Vec<(String, usize)> = Vec::new();
    proof {
        assert(params_view(none@) =~= Seq::<(Seq<char>, usize)>::empty());
    }
    lower_values(p, g, &none, values, ids, depth)
}

fn push_act(actions: &mut Vec<Action>, a: Action) -> (r: usize)
    ensures
        actions_view(final(actions)@) == actions_view(old(actions)@).push(action_view(a)),
        r == old(actions)@.len(),
{
    let r = actions.len();
    actions.push(a);
    proof {
        assert(actions_view(final(actions)@) =~= actions_view(old(actions)@).push(action_view(a)));
    }
    r
}

fn kind_of(e: &Expr) -> (r: String)
    ensures
        r@ == expr_kind(*e),
{
    owned(
        match e {
            Expr::Number { .. } => "number",
            Expr::String { .. } => "string",
            Expr::Bool { .. } => "bool",
            Expr::Null { .. } => "null",
            Expr::Array { .. } => "array",
            Expr::Vector { .. } => "vector",
            Expr::Enum { .. } => "enum",
            Expr::GlobalVar { .. } => "globalVar",
            Expr::PlayerVar { .. } => "playerVar",
            Expr::EventPlayer { .. } => "eventPlayer",
            Expr::Constant { .. } => "constant",
            Expr::Call { .. } => "call",
            Expr::ReceiverCall { .. } => "receiverCall",
            Expr::MacroCall { .. } => "macroCall",
            Expr::MacroParam { .. } => "macroParam",
            Expr::Binary { .. } => "binary",
            Expr::Unary { .. } => "unary",
            Expr::Index { .. } => "index",
            Expr::Format { .. } => "format",
        },
    )
}

fn modify_of(op: BinaryOp) -> (r: Option<ModifyOp>)
    ensures
        r == modify_op_of(op),
{
    match op {
        BinaryOp::Add => Some(ModifyOp::Add),
        BinaryOp::Subtract => Some(ModifyOp::Subtract),
        BinaryOp::Multiply => Some(ModifyOp::Multiply),
        BinaryOp::Divide => Some(ModifyOp::Divide),
        BinaryOp::Modulo => Some(ModifyOp::Modulo),
        BinaryOp::Power => Some(ModifyOp::RaiseToPower),
        _ => None,
    }
}

fn occurrence_of(p: &HirProgram, e: &Expr) -> (r: Option<Span>)
    ensures
        r == occurrence_span(*p, *e),
{
    match e {
        Expr::GlobalVar { span, .. } => *span,
        Expr::PlayerVar { variable, span, .. } => match span {
            None => None,
            Some(s) => {
                let n: u32 = if *variable < p.players.len() {
                    let cs = crate::text::chars_of(p.players[*variable].name.as_str());
                    cs.len() as u32
                } else {
                    0
                };
                let back: u32 = if s.end.col >= n {
                    s.end.col - n
                } else {
                    0
                };
                let col: u32 = if back >= s.start.col {
                    back
                } else {
                    s.start.col
                };
                Some(Span { file: s.file, start: Position { line: s.end.line, col }, end: s.end })
            },
        },
        _ => None,
    }
}

fn same_player_exec(a: &Expr, b: &Expr) -> (r: bool)
    ensures
        r == same_player(*a, *b),
{
    match (a, b) {
        (Expr::EventPlayer { .. }, Expr::EventPlayer { .. }) => true,
        (Expr::GlobalVar { variable: x, .. }, Expr::GlobalVar { variable: y, .. }) => *x == *y,
        _ => false,
    }
}

pub open spec fn player_target(p: HirProgram, player: Option<(usize, usize)>) -> Option<(Expr, usize)> {
    match player {
        None => None,
        Some((e, v)) => Some((p.exprs@[e as int], v)),
    }
}

fn operand_targets(p: &HirProgram, operand: usize, global: usize, player: Option<(usize, usize)>) -> (r: Result<
    bool,
    IrError,
>)
    requires
        player matches Some((e, v)) ==> e < p.exprs@.len(),
    ensures
        match operand_is_target(*p, operand, global, player_target(*p, player)) {
            Ok(b) => r == Ok::<bool, IrError>(b),
            Err(f) => r matches Err(e) && reports(e, f),
        },
{
    if operand >= p.exprs.len() {
        return Err(IrError::DanglingReference { what: "expression", id: operand as u32 });
    }
    match player {
        None => Ok(match &p.exprs[operand] {
            Expr::GlobalVar { variable, .. } => *variable == global,
            _ => false,
        }),
        Some((target, variable)) => match &p.exprs[operand] {
            Expr::PlayerVar { player: pp, variable: v, .. } => {
                if *v == variable {
                    if *pp >= p.exprs.len() {
                        Err(IrError::DanglingReference { what: "expression", id: *pp as u32 })
                    } else {
                        Ok(same_player_exec(&p.exprs[*pp], &p.exprs[target]))
                    }
                } else {
                    Ok(false)
                }
            },
            _ => Ok(false),
        },
    }
}

fn modify_pattern_exec(
    p: &HirProgram,
    g: &Vec<usize>,
    values: &mut Vec<ValueNode>,
    actions: &Vec<Action>,
    value: usize,
    global: usize,
    player: Option<(usize, usize)>,
    depth: u32,
) -> (r: Result<Option<(ModifyOp, usize)>, IrError>)
    requires
        depth <= 256,
        player matches Some((e, v)) ==> e < p.exprs@.len(),
    ensures
        tables_outcome(
            modify_pattern(*p, g@, tables_of(old(values)@, actions@), value, global, player_target(*p, player), depth as int),
            r,
            final(values)@,
            actions@,
        ),
{
    if value >= p.exprs.len() {
        return Err(IrError::DanglingReference { what: "expression", id: value as u32 });
    }
    match &p.exprs[value] {
        Expr::Binary { op, left, right, .. } => match modify_of(*op) {
            None => Ok(None),
            Some(m) => {
                let lt = operand_targets(p, *left, global, player)?;
                let rt = operand_targets(p, *right, global, player)?;
                if lt {
                    let x = value_at(p, g, values, *right, depth)?;
                    Ok(Some((m, x)))
                } else if rt {
                    let x = value_at(p, g, values, *left, depth)?;
                    Ok(Some((m, x)))
                } else {
                    Ok(None)
                }
            },
        },
        _ => Ok(None),
    }
}

fn range_bounds_exec(
    p: &HirProgram,
    g: &Vec<usize>,
    values: &mut Vec<ValueNode>,
    actions: &Vec<Action>,
    iterable: usize,
    depth: u32,
) -> (r: Result<(usize, usize, usize), IrError>)
    requires
        depth <= 256,
    ensures
        tables_outcome(
            range_bounds(*p, g@, tables_of(old(values)@, actions@), iterable, depth as int),
            r,
            final(values)@,
            actions@,
        ),
{
    if iterable >= p.exprs.len() {
        return Err(IrError::DanglingReference { what: "expression", id: iterable as u32 });
    }
    match &p.exprs[iterable] {
        Expr::Call { name, args, span } => {
            if !str_eq(name.as_str(), "range") {
                let mut message = owned("for-loop iterable '");
                message.append(name.as_str());
                message.append("' is outside the v0.1 lowering surface");
                return Err(unsupported(message, *span));
            }
            let zero = push_value(values, Value::Number(0), None);
            let one = push_value(values, Value::Number(0x3FF0_0000_0000_0000), None);
            if args.len() == 1 {
                let stop = value_at(p, g, values, args[0], depth)?;
                Ok((zero, stop, one))
            } else if args.len() == 2 {
                let start = value_at(p, g, values, args[0], depth)?;
                let stop = value_at(p, g, values, args[1], depth)?;
                Ok((start, stop, one))
            } else if args.len() == 3 {
                let start = value_at(p, g, values, args[0], depth)?;
                let stop = value_at(p, g, values, args[1], depth)?;
                let step = value_at(p, g, values, args[2], depth)?;
                Ok((start, stop, step))
            } else {
                Err(unsupported(
                    owned("range() must take 1, 2, or 3 arguments for the v0.1 lowering surface"),
                    *span,
                ))
            }
        },
        e => Err(unsupported(
            owned("for-loop iterable must be a range() call for the v0.1 lowering surface"),
            span_of_expr(e),
        )),
    }
}

fn prepend(x: usize, xs: Vec<usize>) -> (r: Vec<usize>)
    ensures
        r@ == seq![x] + xs@,
{
    let mut r: Vec<usize> = Vec::new();
    r.push(x);
    let mut rest = xs;
    r.append(&mut rest);
    proof {
        assert(r@ =~= seq![x] + xs@);
    }
    r
}

fn expr_stmt_exec(
    p: &HirProgram,
    g: &Vec<usize>,
    values: &mut Vec<ValueNode>,
    actions: &Vec<Action>,
    expr: usize,
    span: Option<Span>,
    depth: u32,
) -> (r: Result<Action, IrError>)
    requires
        depth <= 256,
    ensures
        action_outcome(
            expr_stmt(*p, g@, tables_of(old(values)@, actions@), expr, span, depth as int),
            r,
            final(values)@,
            actions@,
        ),
{
    if expr >= p.exprs.len() {
        return Err(IrError::DanglingReference { what: "expression", id: expr as u32 });
    }
    match &p.exprs[expr] {
        Expr::Call { name, args, .. } => {
            if str_eq(name.as_str(), "debug") && args.len() == 1 {
                let x = value_at(p, g, values, args[0], depth)?;
                Ok(Action::Debug { value: x, span })
            } else if str_eq(name.as_str(), "print") && args.len() == 1 {
                let x = value_at(p, g, values, args[0], depth)?;
                Ok(Action::Print { message: x, span })
            } else {
                let xs = values_at(p, g, values, args, depth)?;
                Ok(Action::Call { name: name.clone(), args: xs, span })
            }
        },
        Expr::ReceiverCall { receiver, name, args, .. } => {
            if str_eq(name.as_str(), "append") {
                if args.len() != 1 {
                    return Err(unsupported(
                        owned("append must take exactly one value for the v0.1 lowering surface"),
                        span,
                    ));
                }
                let x = value_at(p, g, values, args[0], depth)?;
                if *receiver >= p.exprs.len() {
                    return Err(IrError::DanglingReference { what: "expression", id: *receiver as u32 });
                }
                let re = &p.exprs[*receiver];
                match re {
                    Expr::GlobalVar { variable, .. } => {
                        if *variable >= g.len() {
                            return Err(IrError::DanglingReference { what: "global variable", id: *variable as u32 });
                        }
                        Ok(Action::ModifyGlobalVariable {
                            variable: g[*variable],
                            op: ModifyOp::AppendToArray,
                            value: x,
                            span,
                            target_span: occurrence_of(p, re),
                        })
                    },
                    Expr::PlayerVar { player, variable, .. } => {
                        let pl = value_at(p, g, values, *player, depth)?;
                        if *variable >= p.players.len() {
                            return Err(IrError::DanglingReference { what: "player variable", id: *variable as u32 });
                        }
                        Ok(Action::ModifyPlayerVariable {
                            player: pl,
                            variable: *variable,
                            op: ModifyOp::AppendToArray,
                            value: x,
                            span,
                            target_span: occurrence_of(p, re),
                        })
                    },
                    other => {
                        let mut message = owned("append on '");
                        message.append(kind_of(other).as_str());
                        message.append("' receiver is outside the v0.1 lowering surface");
                        Err(unsupported(message, span))
                    },
                }
            } else {
                let r = value_at(p, g, values, *receiver, depth)?;
                let xs = values_at(p, g, values, args, depth)?;
                Ok(Action::Call { name: name.clone(), args: prepend(r, xs), span })
            }
        },
        other => {
            let mut message = owned("expression statement '");
            message.append(kind_of(other).as_str());
            message.append("' is outside the v0.1 lowering surface");
            Err(unsupported(message, span))
        },
    }
}

fn triple(a: usize, b: usize, c: usize) -> (r: Vec<usize>)
    ensures
        r@ == seq![a, b, c],
{
    let mut r = Vec::new();
    r.push(a);
    r.push(b);
    r.push(c);
    proof {
        assert(r@ =~= seq![a, b, c]);
    }
    r
}

fn assign_stmt_exec(
    p: &HirProgram,
    g: &Vec<usize>,
    values: &mut Vec<ValueNode>,
    actions: &Vec<Action>,
    target: usize,
    value: usize,
    span: Option<Span>,
    depth: u32,
) -> (r: Result<Action, IrError>)
    requires
        depth <= 256,
    ensures
        action_outcome(
            assign_stmt(*p, g@, tables_of(old(values)@, actions@), target, value, span, depth as int),
            r,
            final(values)@,
            actions@,
        ),
{
    if target >= p.exprs.len() {
        return Err(IrError::DanglingReference { what: "expression", id: target as u32 });
    }
    let te = &p.exprs[target];
    match te {
        Expr::GlobalVar { variable, .. } => {
            if *variable >= g.len() {
                return Err(IrError::DanglingReference { what: "global variable", id: *variable as u32 });
            }
            let gs = g[*variable];
            match modify_pattern_exec(p, g, values, actions, value, *variable, None, depth)? {
                Some((op, x)) => Ok(Action::ModifyGlobalVariable {
                    variable: gs,
                    op,
                    value: x,
                    span,
                    target_span: occurrence_of(p, te),
                }),
                None => {
                    let x = value_at(p, g, values, value, depth)?;
                    Ok(Action::SetGlobalVariable {
                        variable: gs,
                        value: x,
                        span,
                        target_span: occurrence_of(p, te),
                    })
                },
            }
        },
        Expr::PlayerVar { player, variable, .. } => {
            let pl = value_at(p, g, values, *player, depth)?;
            if *variable >= p.players.len() {
                return Err(IrError::DanglingReference { what: "player variable", id: *variable as u32 });
            }
            if *player >= p.exprs.len() {
                return Err(IrError::DanglingReference { what: "expression", id: *player as u32 });
            }
            match modify_pattern_exec(p, g, values, actions, value, 0, Some((*player, *variable)), depth)? {
                Some((op, x)) => Ok(Action::ModifyPlayerVariable {
                    player: pl,
                    variable: *variable,
                    op,
                    value: x,
                    span,
                    target_span: occurrence_of(p, te),
                }),
                None => {
                    let x = value_at(p, g, values, value, depth)?;
                    Ok(Action::SetPlayerVariable {
                        player: pl,
                        variable: *variable,
                        value: x,
                        span,
                        target_span: occurrence_of(p, te),
                    })
                },
            }
        },
        Expr::Index { array, index, .. } => {
            let ix = value_at(p, g, values, *index, depth)?;
            let x = value_at(p, g, values, value, depth)?;
            let a = value_at(p, g, values, *array, depth)?;
            match &p.exprs[*array] {
                Expr::GlobalVar { .. } => Ok(Action::Call {
                    name: owned("setGlobalVariableAtIndex"),
                    args: triple(a, ix, x),
                    span,
                }),
                Expr::PlayerVar { .. } => Ok(Action::Call {
                    name: owned("setPlayerVariableAtIndex"),
                    args: triple(a, ix, x),
                    span,
                }),
                _ => Err(unsupported(
                    owned("indexed assignment requires a global or player array target"),
                    span,
                )),
            }
        },
        other => {
            let mut message = owned("assignment to '");
            message.append(kind_of(other).as_str());
            message.append("' target is outside the v0.1 lowering surface");
            Err(unsupported(message, span))
        },
    }
}


fn span_of_stmt(s: &Stmt) -> (r: Option<Span>)
    ensures
        r == stmt_span(*s),
{
    match s {
        Stmt::Expr { span, .. } => *span,
        Stmt::Assign { span, .. } => *span,
        Stmt::If { span, .. } => *span,
        Stmt::For { span, .. } => *span,
        Stmt::While { span, .. } => *span,
        Stmt::CallSubroutine { span, .. } => *span,
        Stmt::Pass { span } => *span,
    }
}

/// `r` with `pre` put before the items it lists.
pub open spec fn prefixed_in<A>(r: Result<(Tables, Seq<A>), Fault>, pre: Seq<A>) -> Result<(Tables, Seq<A>), Fault> {
    match r {
        Ok((t, xs)) => Ok((t, pre + xs)),
        Err(f) => Err(f),
    }
}

pub open spec fn branches_view(bs: Seq<crate::wir::IfBranch>) -> Seq<(usize, Seq<usize>)> {
    bs.map_values(|b: crate::wir::IfBranch| (b.condition, b.body@))
}

/// Lowers statement `id` at nesting `depth`, appending its values and
/// actions; the index of its action, or `None` for a dropped `pass`.
pub fn lower_stmt(
    p: &HirProgram,
    g: &Vec<usize>,
    values: &mut Vec<ValueNode>,
    actions: &mut Vec<Action>,
    id: usize,
    depth: u32,
) -> (r: Result<Option<usize>, IrError>)
    requires
        depth <= 256,
    ensures
        tables_outcome(
            lower_stmt_spec(*p, g@, tables_of(old(values)@, old(actions)@), id, depth as int),
            r,
            final(values)@,
            final(actions)@,
        ),
    decreases 257 - depth, 0int, 0int,
{
    let d = depth + 1;
    if d > 256 {
        let span = if id < p.stmts.len() {
            span_of_stmt(&p.stmts[id])
        } else {
            None
        };
        return Err(unsupported(owned("statement inlining exceeded the bounded-recursion limit (256)"), span));
    }
    if id >= p.stmts.len() {
        return Err(IrError::DanglingReference { what: "statement", id: id as u32 });
    }
    let st = &p.stmts[id];
    let span = span_of_stmt(st);
    let a: Action = match st {
        Stmt::Expr { expr, .. } => expr_stmt_exec(p, g, values, actions, *expr, span, d)?,
        Stmt::Assign { target, value, .. } => assign_stmt_exec(p, g, values, actions, *target, *value, span, d)?,
        Stmt::If { branches, else_body, .. } => {
            let bs = lower_branches(p, g, values, actions, branches, d)?;
            let eb = match else_body {
                None => None,
                Some(body) => Some(lower_stmts(p, g, values, actions, body, d)?),
            };
            Action::If { branches: bs, else_body: eb, span }
        },
        Stmt::For { variable, iterable, body, .. } => {
            let (start, stop, step) = range_bounds_exec(p, g, values, actions, *iterable, d)?;
            if *variable >= g.len() {
                return Err(IrError::DanglingReference { what: "global variable", id: *variable as u32 });
            }
            let gs = g[*variable];
            let xs = lower_stmts(p, g, values, actions, body, d)?;
            Action::ForGlobalVariable { variable: gs, start, stop, step, body: xs, span, target_span: None }
        },
        Stmt::While { condition, body, .. } => {
            let c = value_at(p, g, values, *condition, d)?;
            let xs = lower_stmts(p, g, values, actions, body, d)?;
            Action::While { condition: c, body: xs, span }
        },
        Stmt::CallSubroutine { subroutine, .. } => {
            if *subroutine >= p.subroutines.len() {
                return Err(IrError::DanglingReference { what: "subroutine", id: *subroutine as u32 });
            }
            Action::CallSubroutine { subroutine: *subroutine, span, callee_span: None }
        },
        Stmt::Pass { .. } => {
            return Ok(None);
        },
    };
    let x = push_act(actions, a);
    Ok(Some(x))
}

/// Lowers the statements `ids` in order at nesting `depth`.
pub fn lower_stmts(
    p: &HirProgram,
    g: &Vec<usize>,
    values: &mut Vec<ValueNode>,
    actions: &mut Vec<Action>,
    ids: &Vec<usize>,
    depth: u32,
) -> (r: Result<Vec<usize>, IrError>)
    requires
        depth <= 256,
    ensures
        match lower_stmts_spec(*p, g@, tables_of(old(values)@, old(actions)@), ids@, 0, depth as int) {
            Ok((t, xs)) => r matches Ok(out) && out@ == xs && nodes_view(final(values)@) == t.values
                && actions_view(final(actions)@) == t.actions,
            Err(f) => r matches Err(e) && reports(e, f),
        },
    decreases 257 - depth, 1int, ids@.len(),
{
    let mut out: Vec<usize> = Vec::new();
    let mut i: usize = 0;
    while i < ids.len()
        invariant
            depth <= 256,
            i <= ids@.len(),
            lower_stmts_spec(*p, g@, tables_of(old(values)@, old(actions)@), ids@, 0, depth as int)
                == prefixed_in(
                lower_stmts_spec(*p, g@, tables_of(values@, actions@), ids@, i as int, depth as int),
                out@,
            ),
        decreases ids@.len() - i,
    {
        let ghost out0 = out@;
        let a = lower_stmt(p, g, values, actions, ids[i], depth)?;
        match a {
            Some(x) => out.push(x),
            None => {},
        }
        i = i + 1;
        proof {
            let tail = lower_stmts_spec(*p, g@, tables_of(values@, actions@), ids@, i as int, depth as int);
            match tail {
                Ok((t2, rest)) => {
                    match a {
                        Some(x) => {
                            assert(out0 + (seq![x] + rest) =~= out@ + rest);
                        },
                        None => {
                            assert(out0 =~= out@);
                        },
                    }
                },
                Err(f) => {},
            }
        }
    }
    proof {
        assert(out@ + Seq::<usize>::empty() =~= out@);
    }
    Ok(out)
}

/// Lowers the branches of an `if` at nesting `depth`.
pub fn lower_branches(
    p: &HirProgram,
    g: &Vec<usize>,
    values: &mut Vec<ValueNode>,
    actions: &mut Vec<Action>,
    bs: &Vec<IfBranch>,
    depth: u32,
) -> (r: Result<Vec<crate::wir::IfBranch>, IrError>)
    requires
        depth <= 256,
    ensures
        match lower_branches_spec(*p, g@, tables_of(old(values)@, old(actions)@), bs@, 0, depth as int) {
            Ok((t, xs)) => r matches Ok(out) && branches_view(out@) == xs && nodes_view(final(values)@)
                == t.values && actions_view(final(actions)@) == t.actions,
            Err(f) => r matches Err(e) && reports(e, f),
        },
    decreases 257 - depth, 2int, bs@.len(),
{
    let mut out: Vec<crate::wir::IfBranch> = Vec::new();
    let mut i: usize = 0;
    while i < bs.len()
        invariant
            depth <= 256,
            i <= bs@.len(),
            lower_branches_spec(*p, g@, tables_of(old(values)@, old(actions)@), bs@, 0, depth as int)
                == prefixed_in(
                lower_branches_spec(*p, g@, tables_of(values@, actions@), bs@, i as int, depth as int),
                branches_view(out@),
            ),
        decreases bs@.len() - i,
    {
        let ghost out0 = branches_view(out@);
        let c = value_at(p, g, values, bs[i].condition, depth)?;
        let body = lower_stmts(p, g, values, actions, &bs[i].body, depth)?;
        let ghost bv = body@;
        out.push(crate::wir::IfBranch { condition: c, body });
        i = i + 1;
        proof {
            assert(branches_view(out@) =~= out0.push((c, bv)));
            let tail = lower_branches_spec(*p, g@, tables_of(values@, actions@), bs@, i as int, depth as int);
            match tail {
                Ok((t3, rest)) => {
                    assert(out0 + (seq![(c, bv)] + rest) =~= branches_view(out@) + rest);
                },
                Err(f) => {},
            }
        }
    }
    proof {
        assert(branches_view(out@) + Seq::<(usize, Seq<usize>)>::empty() =~= branches_view(out@));
    }
    Ok(out)
}


// ---------------------------------------------------------------------------
// Global slots.
// ---------------------------------------------------------------------------

/// The explicit source slots of globals `gs[i..]`, in declaration order.
pub open spec fn explicit_slots(gs: Seq<GlobalVar>, i: int) -> Seq<u32>
    decreases gs.len() - i,
{
    if i < 0 || i >= gs.len() {
        Seq::empty()
    } else {
        match gs[i].index {
            Some(x) => seq![x] + explicit_slots(gs, i + 1),
            None => explicit_slots(gs, i + 1),
        }
    }
}

/// The least slot from `n` on that `taken` does not hold.
pub open spec fn least_free(taken: Seq<u32>, n: int) -> int
    decreases 0x1_0000_0000 - n,
{
    if n >= 0x1_0000_0000 || n < 0 {
        n
    } else if taken.contains(n as u32) {
        least_free(taken, n + 1)
    } else {
        n
    }
}

/// The slots of globals `gs[i..]`: an explicit slot is kept; the others take
/// the least free slot from `next` on, in declaration order.
pub open spec fn assign_slots(gs: Seq<GlobalVar>, i: int, taken: Seq<u32>, next: int) -> Seq<int>
    decreases gs.len() - i,
{
    if i < 0 || i >= gs.len() {
        Seq::empty()
    } else {
        match gs[i].index {
            Some(x) => seq![x as int] + assign_slots(gs, i + 1, taken, next),
            None => {
                let s = least_free(taken, next);
                seq![s] + assign_slots(gs, i + 1, taken.push(s as u32), s + 1)
            },
        }
    }
}

/// The Workshop slot of each global, in declaration order.
pub open spec fn global_slots(gs: Seq<GlobalVar>) -> Seq<int> {
    assign_slots(gs, 0, explicit_slots(gs, 0), 0)
}

/// Global `j` comes before global `i` in the table: a lower slot, or the
/// same slot and an earlier declaration.
pub open spec fn slot_before(slots: Seq<int>, j: int, i: int) -> bool {
    slots[j] < slots[i] || (slots[j] == slots[i] && j < i)
}

/// The number of globals among the first `k` that come before global `i`.
pub open spec fn count_before(slots: Seq<int>, i: int, k: int) -> nat
    decreases k,
{
    if k <= 0 {
        0
    } else {
        count_before(slots, i, k - 1) + if slot_before(slots, k - 1, i) {
            1nat
        } else {
            0nat
        }
    }
}

/// The table position of global `i`: how many globals come before it.
pub open spec fn table_rank(slots: Seq<int>, i: int) -> nat {
    count_before(slots, i, slots.len() as int)
}

/// Some global sits at table position `k`.
pub open spec fn rank_held(slots: Seq<int>, k: int) -> bool {
    exists|i: int| 0 <= i < slots.len() && #[trigger] table_rank(slots, i) == k
}

proof fn lemma_count_bound(slots: Seq<int>, i: int, k: int)
    requires
        0 <= i < slots.len(),
        0 <= k <= slots.len(),
    ensures
        count_before(slots, i, k) <= k,
        i < k ==> count_before(slots, i, k) < k,
    decreases k,
{
    if k > 0 {
        lemma_count_bound(slots, i, k - 1);
    }
}

proof fn lemma_count_mono(slots: Seq<int>, j: int, i: int, k: int)
    requires
        0 <= i < slots.len(),
        0 <= j < slots.len(),
        0 <= k <= slots.len(),
        slot_before(slots, j, i),
    ensures
        count_before(slots, j, k) + (if j < k {
            1nat
        } else {
            0nat
        }) <= count_before(slots, i, k),
    decreases k,
{
    if k > 0 {
        lemma_count_mono(slots, j, i, k - 1);
    }
}

/// Table positions are distinct and within the table, and every position
/// holds a global: the table holds each global exactly once.
pub proof fn law_global_table_holds_each_global_once(slots: Seq<int>)
    ensures
        forall|i: int| 0 <= i < slots.len() ==> #[trigger] table_rank(slots, i) < slots.len(),
        forall|i: int, j: int|
            0 <= i < slots.len() && 0 <= j < slots.len() && i != j ==> #[trigger] table_rank(slots, i)
                != #[trigger] table_rank(slots, j),
        forall|k: int| 0 <= k < slots.len() ==> #[trigger] rank_held(slots, k),
{
    let n = slots.len() as int;
    assert forall|i: int| 0 <= i < n implies #[trigger] table_rank(slots, i) < n by {
        lemma_count_bound(slots, i, n);
    }
    assert forall|i: int, j: int|
        0 <= i < n && 0 <= j < n && i != j implies #[trigger] table_rank(slots, i) != #[trigger] table_rank(slots, j) by {
        if slot_before(slots, j, i) {
            lemma_count_mono(slots, j, i, n);
        } else {
            lemma_count_mono(slots, i, j, n);
        }
    }
    let dom = vstd::set_lib::set_int_range(0, n);
    let f = |i: int| table_rank(slots, i) as int;
    vstd::set_lib::lemma_int_range(0, n);
    assert(vstd::relations::injective_on(f, dom)) by {
        assert forall|a: int, b: int| dom.contains(a) && dom.contains(b) && #[trigger] f(a) == #[trigger] f(b) implies a == b by {
            if a != b {
                assert(table_rank(slots, a) != table_rank(slots, b));
            }
        }
    }
    let img = dom.map(f);
    vstd::set_lib::lemma_map_size(dom, img, f);
    assert(img.subset_of(dom)) by {
        assert forall|k: int| img.contains(k) implies dom.contains(k) by {
            let i = choose|i: int| dom.contains(i) && f(i) == k;
        }
    }
    vstd::set_lib::lemma_subset_equality(img, dom);
    assert forall|k: int| 0 <= k < n implies #[trigger] rank_held(slots, k) by {
        assert(dom.contains(k));
        assert(img.contains(k));
        let i = choose|i: int| dom.contains(i) && f(i) == k;
        assert(table_rank(slots, i) == k);
    }
}


/// No global needs a slot past the last one (the slot counter would
/// overflow).
pub open spec fn slots_fit(gs: Seq<GlobalVar>) -> bool {
    forall|i: int| 0 <= i < gs.len() && gs[i].index is None ==> #[trigger] global_slots(gs)[i] < 0xffff_ffff
}

/// The global at table position `k`.
pub open spec fn rank_owner(slots: Seq<int>, k: int) -> int {
    choose|i: int| 0 <= i < slots.len() && table_rank(slots, i) == k
}

/// The Workshop position of each HIR global.
pub open spec fn global_map(gs: Seq<GlobalVar>) -> Seq<usize> {
    Seq::new(gs.len(), |i: int| table_rank(global_slots(gs), i) as usize)
}

/// The Workshop global table: name, slot, span and name span, by slot.
pub open spec fn global_table(gs: Seq<GlobalVar>) -> Seq<(Seq<char>, u32, Option<Span>, Option<Span>)> {
    let slots = global_slots(gs);
    Seq::new(
        gs.len(),
        |k: int|
            {
                let i = rank_owner(slots, k);
                (gs[i].name@, slots[i] as u32, gs[i].span, gs[i].name_span)
            },
    )
}

fn holds(taken: &Vec<u32>, x: u64) -> (r: bool)
    ensures
        r == (x < 0x1_0000_0000 && taken@.contains(x as u32)),
{
    if x >= 0x1_0000_0000 {
        return false;
    }
    let mut i: usize = 0;
    while i < taken.len()
        invariant
            i <= taken@.len(),
            x < 0x1_0000_0000,
            forall|j: int| 0 <= j < i ==> taken@[j] != x as u32,
        decreases taken@.len() - i,
    {
        if taken[i] as u64 == x {
            return true;
        }
        i = i + 1;
    }
    false
}

proof fn lemma_assign_len(gs: Seq<GlobalVar>, i: int, taken: Seq<u32>, next: int)
    requires
        0 <= i <= gs.len(),
    ensures
        assign_slots(gs, i, taken, next).len() == gs.len() - i,
    decreases gs.len() - i,
{
    if i < gs.len() {
        match gs[i].index {
            Some(x) => lemma_assign_len(gs, i + 1, taken, next),
            None => {
                let s = least_free(taken, next);
                lemma_assign_len(gs, i + 1, taken.push(s as u32), s + 1);
            },
        }
    }
}

/// The slot of each global, in declaration order.
fn slots_of(gs: &Vec<GlobalVar>) -> (r: Vec<u32>)
    requires
        slots_fit(gs@),
    ensures
        r@.len() == gs@.len(),
        forall|i: int| 0 <= i < gs@.len() ==> r@[i] as int == #[trigger] global_slots(gs@)[i],
{
    let n = gs.len();
    let mut taken: Vec<u32> = Vec::new();
    let mut i: usize = 0;
    while i < n
        invariant
            n == gs@.len(),
            i <= n,
            taken@ + explicit_slots(gs@, i as int) == explicit_slots(gs@, 0),
        decreases n - i,
    {
        match gs[i].index {
            Some(x) => {
                proof {
                    assert(taken@ + explicit_slots(gs@, i as int) =~= taken@.push(x) + explicit_slots(gs@, i + 1));
                }
                taken.push(x);
            },
            None => {},
        }
        i = i + 1;
    }
    proof {
        assert(taken@ =~= explicit_slots(gs@, 0));
        lemma_assign_len(gs@, 0, taken@, 0);
    }
    let mut r: Vec<u32> = Vec::new();
    let mut next: u64 = 0;
    let mut i: usize = 0;
    while i < n
        invariant
            n == gs@.len(),
            i <= n,
            r@.len() == i,
            next <= 0x1_0000_0000,
            slots_fit(gs@),
            assign_slots(gs@, i as int, taken@, next as int).len() == n - i,
            forall|j: int| 0 <= j < i ==> r@[j] as int == #[trigger] global_slots(gs@)[j],
            forall|j: int|
                i <= j < n ==> #[trigger] global_slots(gs@)[j] == assign_slots(gs@, i as int, taken@, next as int)[j - i],
        decreases n - i,
    {
        let ghost a0 = assign_slots(gs@, i as int, taken@, next as int);
        match gs[i].index {
            Some(x) => {
                proof {
                    assert(a0 == seq![x as int] + assign_slots(gs@, i + 1, taken@, next as int));
                    lemma_assign_len(gs@, i + 1, taken@, next as int);
                    assert(global_slots(gs@)[i as int] == x as int);
                }
                r.push(x);
            },
            None => {
                let ghost start = next;
                while holds(&taken, next)
                    invariant
                        next <= 0x1_0000_0000,
                        least_free(taken@, start as int) == least_free(taken@, next as int),
                    decreases 0x1_0000_0000 - next,
                {
                    next = next + 1;
                }
                proof {
                    let s = least_free(taken@, start as int);
                    assert(s == next);
                    assert(a0 == seq![s] + assign_slots(gs@, i + 1, taken@.push(s as u32), s + 1));
                    assert(global_slots(gs@)[i as int] == s);
                    assert(s < 0xffff_ffff);
                    lemma_assign_len(gs@, i + 1, taken@.push(s as u32), s + 1);
                }
                let s = next as u32;
                r.push(s);
                taken.push(s);
                next = next + 1;
            },
        }
        i = i + 1;
    }
    r
}


/// A variable table as the contracts see it: name, slot, span, name span.
pub open spec fn variables_view(vs: Seq<crate::wir::WorkshopVariable>) -> Seq<(Seq<char>, u32, Option<Span>, Option<Span>)> {
    vs.map_values(|v: crate::wir::WorkshopVariable| (v.name@, v.index, v.span, v.name_span))
}

/// The table position of each global.
fn ranks_of(slots: &Vec<u32>, ghost_slots: Ghost<Seq<int>>) -> (r: Vec<usize>)
    requires
        slots@.len() == ghost_slots@.len(),
        forall|i: int| 0 <= i < slots@.len() ==> slots@[i] as int == #[trigger] ghost_slots@[i],
    ensures
        r@.len() == slots@.len(),
        forall|i: int| 0 <= i < slots@.len() ==> r@[i] as int == #[trigger] table_rank(ghost_slots@, i),
{
    let n = slots.len();
    let ghost sl = ghost_slots@;
    let mut r: Vec<usize> = Vec::new();
    let mut i: usize = 0;
    while i < n
        invariant
            n == slots@.len(),
            n == sl.len(),
            forall|j: int| 0 <= j < n ==> slots@[j] as int == #[trigger] sl[j],
            i <= n,
            r@.len() == i,
            forall|j: int| 0 <= j < i ==> r@[j] as int == #[trigger] table_rank(sl, j),
        decreases n - i,
    {
        let mut c: usize = 0;
        let mut k: usize = 0;
        while k < n
            invariant
                n == slots@.len(),
                n == sl.len(),
                forall|j: int| 0 <= j < n ==> slots@[j] as int == #[trigger] sl[j],
                i < n,
                k <= n,
                c as int == count_before(sl, i as int, k as int),
                c <= k,
            decreases n - k,
        {
            if slots[k] < slots[i] || (slots[k] == slots[i] && k < i) {
                c = c + 1;
            }
            k = k + 1;
        }
        r.push(c);
        i = i + 1;
    }
    r
}

fn copy_span(s: &Option<Span>) -> (r: Option<Span>)
    ensures
        r == *s,
{
    *s
}

/// The Workshop global table, ordered by slot.
fn global_table_exec(gs: &Vec<GlobalVar>, slots: &Vec<u32>, ranks: &Vec<usize>) -> (r: Vec<crate::wir::WorkshopVariable>)
    requires
        slots_fit(gs@),
        slots@.len() == gs@.len(),
        ranks@.len() == gs@.len(),
        forall|i: int| 0 <= i < gs@.len() ==> slots@[i] as int == #[trigger] global_slots(gs@)[i],
        forall|i: int| 0 <= i < gs@.len() ==> ranks@[i] as int == #[trigger] table_rank(global_slots(gs@), i),
    ensures
        variables_view(r@) == global_table(gs@),
        forall|k: int| 0 <= k < r@.len() ==> (#[trigger] r@[k]).initializer is None,
{
    let n = gs.len();
    let ghost sl = global_slots(gs@);
    proof {
        lemma_assign_len(gs@, 0, explicit_slots(gs@, 0), 0);
        law_global_table_holds_each_global_once(sl);
    }
    let mut r: Vec<crate::wir::WorkshopVariable> = Vec::new();
    let mut k: usize = 0;
    while k < n
        invariant
            n == gs@.len(),
            n == sl.len(),
            sl == global_slots(gs@),
            slots@.len() == n,
            ranks@.len() == n,
            forall|i: int| 0 <= i < n ==> slots@[i] as int == #[trigger] sl[i],
            forall|i: int| 0 <= i < n ==> ranks@[i] as int == #[trigger] table_rank(sl, i),
            forall|i: int| 0 <= i < n ==> #[trigger] table_rank(sl, i) < n,
            forall|i: int, j: int|
                0 <= i < n && 0 <= j < n && i != j ==> #[trigger] table_rank(sl, i) != #[trigger] table_rank(sl, j),
            forall|q: int| 0 <= q < n ==> #[trigger] rank_held(sl, q),
            k <= n,
            r@.len() == k,
            forall|q: int| 0 <= q < k ==> #[trigger] variables_view(r@)[q] == global_table(gs@)[q],
            forall|q: int| 0 <= q < k ==> (#[trigger] r@[q]).initializer is None,
        decreases n - k,
    {
        proof {
            assert(rank_held(sl, k as int));
        }
        let mut i: usize = 0;
        while i < n && ranks[i] != k
            invariant
                n == ranks@.len(),
                n == sl.len(),
                forall|j: int| 0 <= j < n ==> ranks@[j] as int == #[trigger] table_rank(sl, j),
                rank_held(sl, k as int),
                i <= n,
                forall|j: int| 0 <= j < i ==> table_rank(sl, j) != k,
            decreases n - i,
        {
            i = i + 1;
        }
        proof {
            if i >= n {
                let w = choose|w: int| 0 <= w < sl.len() && #[trigger] table_rank(sl, w) == k;
                assert(table_rank(sl, w) != k);
            }
            let o = rank_owner(sl, k as int);
            assert(0 <= o < n && table_rank(sl, o) == k);
            if o != i {
                assert(table_rank(sl, o) != table_rank(sl, i as int));
            }
            assert(o == i);
        }
        let gv = &gs[i];
        let v = crate::wir::WorkshopVariable {
            name: gv.name.clone(),
            index: slots[i],
            span: copy_span(&gv.span),
            name_span: copy_span(&gv.name_span),
            initializer: None,
        };
        let ghost r0 = r@;
        r.push(v);
        proof {
            assert(variables_view(r@)[k as int] == global_table(gs@)[k as int]);
            assert forall|q: int| 0 <= q < k implies #[trigger] variables_view(r@)[q] == global_table(gs@)[q] by {
                assert(r@[q] == r0[q]);
                assert(variables_view(r0)[q] == global_table(gs@)[q]);
            }
        }
        k = k + 1;
    }
    proof {
        assert(variables_view(r@) =~= global_table(gs@));
    }
    r
}


// ---------------------------------------------------------------------------
// Rules and the program.
// ---------------------------------------------------------------------------

/// A workshop rule as the contracts see it.
pub ghost struct RuleView {
    pub name: Seq<char>,
    pub span: Option<Span>,
    pub name_span: Option<Span>,
    pub disabled: bool,
    pub event: crate::wir::Event,
    pub conditions: Seq<usize>,
    pub actions: Seq<usize>,
}

pub open spec fn rule_view(r: crate::wir::Rule) -> RuleView {
    RuleView {
        name: r.name@,
        span: r.span,
        name_span: r.name_span,
        disabled: r.disabled,
        event: r.event,
        conditions: r.conditions@,
        actions: r.actions@,
    }
}

pub open spec fn rules_view(rs: Seq<crate::wir::Rule>) -> Seq<RuleView> {
    rs.map_values(|r: crate::wir::Rule| rule_view(r))
}

/// The actions initializing globals `i..`, in declaration order.
pub open spec fn global_inits(p: HirProgram, g: Seq<usize>, t: Tables, i: int) -> Result<(Tables, Seq<usize>), Fault>
    decreases p.globals@.len() - i,
{
    if i < 0 || i >= p.globals@.len() {
        Ok((t, Seq::empty()))
    } else {
        match p.globals@[i].initializer {
            None => global_inits(p, g, t, i + 1),
            Some(e) => match value_in(p, g, t, e, 0) {
                Err(f) => Err(f),
                Ok((t1, x)) => {
                    let (t2, a) = push_action(
                        t1,
                        ActionView::SetGlobalVariable { variable: g[i], value: x, span: None, target_span: None },
                    );
                    match global_inits(p, g, t2, i + 1) {
                        Err(f) => Err(f),
                        Ok((t3, rest)) => Ok((t3, seq![a] + rest)),
                    }
                },
            },
        }
    }
}

/// The actions initializing player variables `i..`, each on the event
/// player, in declaration order.
pub open spec fn player_inits(p: HirProgram, g: Seq<usize>, t: Tables, i: int) -> Result<(Tables, Seq<usize>), Fault>
    decreases p.players@.len() - i,
{
    if i < 0 || i >= p.players@.len() {
        Ok((t, Seq::empty()))
    } else {
        match p.players@[i].initializer {
            None => player_inits(p, g, t, i + 1),
            Some(e) => match value_in(p, g, t, e, 0) {
                Err(f) => Err(f),
                Ok((t1, x)) => {
                    let (t2, pl) = push_value_in(t1, ValueView::EventPlayer, None);
                    let (t3, a) = push_action(
                        t2,
                        ActionView::SetPlayerVariable {
                            player: pl,
                            variable: i as usize,
                            value: x,
                            span: None,
                            target_span: None,
                        },
                    );
                    match player_inits(p, g, t3, i + 1) {
                        Err(f) => Err(f),
                        Ok((t4, rest)) => Ok((t4, seq![a] + rest)),
                    }
                },
            },
        }
    }
}

/// The rules of subroutine definitions `i..`.
pub open spec fn subroutine_rules(p: HirProgram, g: Seq<usize>, t: Tables, i: int) -> Result<(Tables, Seq<RuleView>), Fault>
    decreases p.subroutines@.len() - i,
{
    if i < 0 || i >= p.subroutines@.len() {
        Ok((t, Seq::empty()))
    } else {
        let s = p.subroutines@[i];
        match s.body {
            None => subroutine_rules(p, g, t, i + 1),
            Some(b) => match lower_stmts_spec(p, g, t, b.statements@, 0, 0) {
                Err(f) => Err(f),
                Ok((t1, xs)) => match subroutine_rules(p, g, t1, i + 1) {
                    Err(f) => Err(f),
                    Ok((t2, rest)) => Ok((
                        t2,
                        seq![RuleView {
                            name: "Subroutine "@ + s.name@,
                            span: b.span,
                            name_span: None,
                            disabled: false,
                            event: crate::wir::Event::Subroutine(i as usize),
                            conditions: Seq::empty(),
                            actions: xs,
                        }] + rest,
                    )),
                },
            },
        }
    }
}

/// The workshop event of a rule's event, when it has one.
pub open spec fn rule_event(e: crate::hir::Event) -> Result<crate::wir::Event, Fault> {
    if e.name@ == "global"@ && e.args@.len() == 0 {
        Ok(crate::wir::Event::Global)
    } else if e.name@ == "eachPlayer"@ && e.args@.len() == 0 {
        Ok(crate::wir::Event::EachPlayer)
    } else {
        Err(unsupported_fault("event '"@ + e.name@ + "' is outside the v0.1 lowering surface"@, e.span))
    }
}

/// The source rules `i..`.
pub open spec fn source_rules(p: HirProgram, g: Seq<usize>, t: Tables, i: int) -> Result<(Tables, Seq<RuleView>), Fault>
    decreases p.rules@.len() - i,
{
    if i < 0 || i >= p.rules@.len() {
        Ok((t, Seq::empty()))
    } else {
        let r = p.rules@[i];
        match rule_event(r.event) {
            Err(f) => Err(f),
            Ok(ev) => match values_in(p, g, t, r.conditions@, 0) {
                Err(f) => Err(f),
                Ok((t1, cs)) => match lower_stmts_spec(p, g, t1, r.actions@, 0, 0) {
                    Err(f) => Err(f),
                    Ok((t2, xs)) => match source_rules(p, g, t2, i + 1) {
                        Err(f) => Err(f),
                        Ok((t3, rest)) => Ok((
                            t3,
                            seq![RuleView {
                                name: r.name@,
                                span: r.span,
                                name_span: r.name_span,
                                disabled: r.disabled,
                                event: ev,
                                conditions: cs,
                                actions: xs,
                            }] + rest,
                        )),
                    },
                },
            },
        }
    }
}

/// A synthetic initialize rule, when it has actions.
pub open spec fn init_rule(name: Seq<char>, event: crate::wir::Event, actions: Seq<usize>) -> Seq<RuleView> {
    if actions.len() == 0 {
        Seq::empty()
    } else {
        seq![RuleView {
            name,
            span: None,
            name_span: None,
            disabled: false,
            event,
            conditions: Seq::empty(),
            actions,
        }]
    }
}

/// A Workshop IR program as the contracts see it.
pub ghost struct LoweredView {
    pub files: Seq<Seq<char>>,
    pub globals: Seq<(Seq<char>, u32, Option<Span>, Option<Span>)>,
    pub players: Seq<(Seq<char>, u32, Option<Span>, Option<Span>)>,
    pub subroutines: Seq<(Seq<char>, u32, Option<Span>, Option<Span>)>,
    pub rules: Seq<RuleView>,
    pub values: Seq<(ValueView, Option<Span>)>,
    pub actions: Seq<ActionView>,
}

pub open spec fn subroutines_view(ss: Seq<crate::wir::WorkshopSubroutine>) -> Seq<(Seq<char>, u32, Option<Span>, Option<Span>)> {
    ss.map_values(|s: crate::wir::WorkshopSubroutine| (s.name@, s.index, s.span, s.name_span))
}

pub open spec fn program_view(w: crate::wir::WirProgram) -> LoweredView {
    LoweredView {
        files: w.files@.map_values(|f: crate::hir::SourceFile| f.path@),
        globals: variables_view(w.global_variables@),
        players: variables_view(w.player_variables@),
        subroutines: subroutines_view(w.subroutines@),
        rules: rules_view(w.rules@),
        values: nodes_view(w.values@),
        actions: actions_view(w.actions@),
    }
}

/// The player variable table: table order, the explicit index or the
/// position.
pub open spec fn player_table(p: HirProgram) -> Seq<(Seq<char>, u32, Option<Span>, Option<Span>)> {
    Seq::new(
        p.players@.len(),
        |i: int|
            (
                p.players@[i].name@,
                match p.players@[i].index {
                    Some(x) => x,
                    None => i as u32,
                },
                p.players@[i].span,
                None::<Span>,
            ),
    )
}

/// The subroutine table: table order, indexed by position.
pub open spec fn subroutine_table(p: HirProgram) -> Seq<(Seq<char>, u32, Option<Span>, Option<Span>)> {
    Seq::new(
        p.subroutines@.len(),
        |i: int| (p.subroutines@[i].name@, i as u32, p.subroutines@[i].decl_span, None::<Span>),
    )
}

/// What lowering `p` gives: the Workshop program, or the first refusal.
pub open spec fn lowered(p: HirProgram) -> Result<LoweredView, Fault> {
    let g = global_map(p.globals@);
    let t0 = Tables { values: Seq::empty(), actions: Seq::empty() };
    match global_inits(p, g, t0, 0) {
        Err(f) => Err(f),
        Ok((t1, ga)) => match player_inits(p, g, t1, 0) {
            Err(f) => Err(f),
            Ok((t2, pa)) => match subroutine_rules(p, g, t2, 0) {
                Err(f) => Err(f),
                Ok((t3, srs)) => match source_rules(p, g, t3, 0) {
                    Err(f) => Err(f),
                    Ok((t4, rrs)) => Ok(LoweredView {
                        files: p.files@.map_values(|f: crate::hir::SourceFile| f.path@),
                        globals: global_table(p.globals@),
                        players: player_table(p),
                        subroutines: subroutine_table(p),
                        rules: init_rule("Initialize global variables"@, crate::wir::Event::Global, ga)
                            + init_rule("Initialize player variables"@, crate::wir::Event::EachPlayer, pa)
                            + srs + rrs,
                        values: t4.values,
                        actions: t4.actions,
                    }),
                },
            },
        },
    }
}


/// `r` is the list outcome `s` describes, with `values` and `actions` after.
pub open spec fn list_outcome<A, B>(
    s: Result<(Tables, Seq<A>), Fault>,
    r: Result<Vec<B>, IrError>,
    view: spec_fn(Seq<B>) -> Seq<A>,
    values: Seq<ValueNode>,
    actions: Seq<Action>,
) -> bool {
    match s {
        Ok((t, xs)) => r matches Ok(out) && view(out@) == xs && nodes_view(values) == t.values
            && actions_view(actions) == t.actions,
        Err(f) => r matches Err(e) && reports(e, f),
    }
}

pub open spec fn ids_view(xs: Seq<usize>) -> Seq<usize> {
    xs
}

fn global_inits_exec(p: &HirProgram, g: &Vec<usize>, values: &mut Vec<ValueNode>, actions: &mut Vec<Action>) -> (r:
    Result<Vec<usize>, IrError>)
    requires
        g@.len() == p.globals@.len(),
    ensures
        list_outcome(
            global_inits(*p, g@, tables_of(old(values)@, old(actions)@), 0),
            r,
            |xs: Seq<usize>| ids_view(xs),
            final(values)@,
            final(actions)@,
        ),
{
    let mut out: Vec<usize> = Vec::new();
    let mut i: usize = 0;
    while i < p.globals.len()
        invariant
            g@.len() == p.globals@.len(),
            i <= p.globals@.len(),
            global_inits(*p, g@, tables_of(old(values)@, old(actions)@), 0) == prefixed_in(
                global_inits(*p, g@, tables_of(values@, actions@), i as int),
                out@,
            ),
        decreases p.globals@.len() - i,
    {
        let ghost out0 = out@;
        match &p.globals[i].initializer {
            None => {},
            Some(e) => {
                let x = value_at(p, g, values, *e, 0)?;
                let a = push_act(
                    actions,
                    Action::SetGlobalVariable { variable: g[i], value: x, span: None, target_span: None },
                );
                out.push(a);
                proof {
                    let tail = global_inits(*p, g@, tables_of(values@, actions@), i + 1);
                    match tail {
                        Ok((t3, rest)) => {
                            assert(out0 + (seq![a] + rest) =~= out@ + rest);
                        },
                        Err(f) => {},
                    }
                }
            },
        }
        i = i + 1;
    }
    proof {
        assert(out@ + Seq::<usize>::empty() =~= out@);
    }
    Ok(out)
}

fn player_inits_exec(p: &HirProgram, g: &Vec<usize>, values: &mut Vec<ValueNode>, actions: &mut Vec<Action>) -> (r:
    Result<Vec<usize>, IrError>)
    ensures
        list_outcome(
            player_inits(*p, g@, tables_of(old(values)@, old(actions)@), 0),
            r,
            |xs: Seq<usize>| ids_view(xs),
            final(values)@,
            final(actions)@,
        ),
{
    let mut out: Vec<usize> = Vec::new();
    let mut i: usize = 0;
    while i < p.players.len()
        invariant
            i <= p.players@.len(),
            player_inits(*p, g@, tables_of(old(values)@, old(actions)@), 0) == prefixed_in(
                player_inits(*p, g@, tables_of(values@, actions@), i as int),
                out@,
            ),
        decreases p.players@.len() - i,
    {
        let ghost out0 = out@;
        match &p.players[i].initializer {
            None => {},
            Some(e) => {
                let x = value_at(p, g, values, *e, 0)?;
                let pl = push_value(values, Value::EventPlayer, None);
                let a = push_act(
                    actions,
                    Action::SetPlayerVariable { player: pl, variable: i, value: x, span: None, target_span: None },
                );
                out.push(a);
                proof {
                    let tail = player_inits(*p, g@, tables_of(values@, actions@), i + 1);
                    match tail {
                        Ok((t3, rest)) => {
                            assert(out0 + (seq![a] + rest) =~= out@ + rest);
                        },
                        Err(f) => {},
                    }
                }
            },
        }
        i = i + 1;
    }
    proof {
        assert(out@ + Seq::<usize>::empty() =~= out@);
    }
    Ok(out)
}

fn subroutine_rules_exec(p: &HirProgram, g: &Vec<usize>, values: &mut Vec<ValueNode>, actions: &mut Vec<Action>) -> (r:
    Result<Vec<crate::wir::Rule>, IrError>)
    ensures
        list_outcome(
            subroutine_rules(*p, g@, tables_of(old(values)@, old(actions)@), 0),
            r,
            |xs: Seq<crate::wir::Rule>| rules_view(xs),
            final(values)@,
            final(actions)@,
        ),
{
    let mut out: Vec<crate::wir::Rule> = Vec::new();
    let mut i: usize = 0;
    while i < p.subroutines.len()
        invariant
            i <= p.subroutines@.len(),
            subroutine_rules(*p, g@, tables_of(old(values)@, old(actions)@), 0) == prefixed_in(
                subroutine_rules(*p, g@, tables_of(values@, actions@), i as int),
                rules_view(out@),
            ),
        decreases p.subroutines@.len() - i,
    {
        let ghost out0 = rules_view(out@);
        let s = &p.subroutines[i];
        match &s.body {
            None => {},
            Some(b) => {
                let xs = lower_stmts(p, g, values, actions, &b.statements, 0)?;
                let mut name = owned("Subroutine ");
                name.append(s.name.as_str());
                let rule = crate::wir::Rule {
                    name,
                    span: copy_span(&b.span),
                    name_span: None,
                    disabled: false,
                    event: crate::wir::Event::Subroutine(i),
                    conditions: Vec::new(),
                    actions: xs,
                };
                let ghost rv = rule_view(rule);
                out.push(rule);
                proof {
                    assert(rules_view(out@) =~= out0.push(rv));
                    let tail = subroutine_rules(*p, g@, tables_of(values@, actions@), i + 1);
                    match tail {
                        Ok((t3, rest)) => {
                            assert(out0 + (seq![rv] + rest) =~= rules_view(out@) + rest);
                        },
                        Err(f) => {},
                    }
                }
            },
        }
        i = i + 1;
    }
    proof {
        assert(rules_view(out@) + Seq::<RuleView>::empty() =~= rules_view(out@));
    }
    Ok(out)
}

fn rule_event_exec(e: &crate::hir::Event) -> (r: Result<crate::wir::Event, IrError>)
    ensures
        match rule_event(*e) {
            Ok(ev) => r == Ok::<crate::wir::Event, IrError>(ev),
            Err(f) => r matches Err(x) && reports(x, f),
        },
{
    if str_eq(e.name.as_str(), "global") && e.args.len() == 0 {
        Ok(crate::wir::Event::Global)
    } else if str_eq(e.name.as_str(), "eachPlayer") && e.args.len() == 0 {
        Ok(crate::wir::Event::EachPlayer)
    } else {
        let mut message = owned("event '");
        message.append(e.name.as_str());
        message.append("' is outside the v0.1 lowering surface");
        Err(unsupported(message, e.span))
    }
}

fn source_rules_exec(p: &HirProgram, g: &Vec<usize>, values: &mut Vec<ValueNode>, actions: &mut Vec<Action>) -> (r:
    Result<Vec<crate::wir::Rule>, IrError>)
    ensures
        list_outcome(
            source_rules(*p, g@, tables_of(old(values)@, old(actions)@), 0),
            r,
            |xs: Seq<crate::wir::Rule>| rules_view(xs),
            final(values)@,
            final(actions)@,
        ),
{
    let mut out: Vec<crate::wir::Rule> = Vec::new();
    let mut i: usize = 0;
    while i < p.rules.len()
        invariant
            i <= p.rules@.len(),
            source_rules(*p, g@, tables_of(old(values)@, old(actions)@), 0) == prefixed_in(
                source_rules(*p, g@, tables_of(values@, actions@), i as int),
                rules_view(out@),
            ),
        decreases p.rules@.len() - i,
    {
        let ghost out0 = rules_view(out@);
        let rl = &p.rules[i];
        let ev = rule_event_exec(&rl.event)?;
        let cs = values_at(p, g, values, &rl.conditions, 0)?;
        let xs = lower_stmts(p, g, values, actions, &rl.actions, 0)?;
        let rule = crate::wir::Rule {
            name: rl.name.clone(),
            span: copy_span(&rl.span),
            name_span: copy_span(&rl.name_span),
            disabled: rl.disabled,
            event: ev,
            conditions: cs,
            actions: xs,
        };
        let ghost rv = rule_view(rule);
        out.push(rule);
        i = i + 1;
        proof {
            assert(rules_view(out@) =~= out0.push(rv));
            let tail = source_rules(*p, g@, tables_of(values@, actions@), i as int);
            match tail {
                Ok((t3, rest)) => {
                    assert(out0 + (seq![rv] + rest) =~= rules_view(out@) + rest);
                },
                Err(f) => {},
            }
        }
    }
    proof {
        assert(rules_view(out@) + Seq::<RuleView>::empty() =~= rules_view(out@));
    }
    Ok(out)
}


/// Lowers an Opy HIR program into a Workshop IR program (see the module
/// documentation for the decisions it makes).
pub fn lower(program: &HirProgram) -> (r: Result<crate::wir::WirProgram, IrError>)
    requires
        slots_fit(program.globals@),
    ensures
        match lowered(*program) {
            Ok(v) => r matches Ok(w) && program_view(w) == v && w.settings is None && (forall|k: int|
                0 <= k < w.global_variables@.len() ==> (#[trigger] w.global_variables@[k]).initializer is None)
                && (forall|k: int|
                0 <= k < w.player_variables@.len() ==> (#[trigger] w.player_variables@[k]).initializer is None),
            Err(f) => r matches Err(e) && reports(e, f),
        },
{
    let p = program;
    let mut files: Vec<crate::hir::SourceFile> = Vec::new();
    let mut i: usize = 0;
    while i < p.files.len()
        invariant
            i <= p.files@.len(),
            files@.len() == i,
            forall|k: int| 0 <= k < i ==> (#[trigger] files@[k]).path@ == p.files@[k].path@,
        decreases p.files@.len() - i,
    {
        files.push(crate::hir::SourceFile { path: p.files[i].path.clone() });
        i = i + 1;
    }
    proof {
        assert(files@.map_values(|f: crate::hir::SourceFile| f.path@) =~= p.files@.map_values(
            |f: crate::hir::SourceFile| f.path@,
        ));
    }
    let slots = slots_of(&p.globals);
    let ghost sl = global_slots(p.globals@);
    proof {
        lemma_assign_len(p.globals@, 0, explicit_slots(p.globals@, 0), 0);
    }
    let g = ranks_of(&slots, Ghost(sl));
    proof {
        assert(g@ =~= global_map(p.globals@));
    }
    let globals = global_table_exec(&p.globals, &slots, &g);
    let mut players: Vec<crate::wir::WorkshopVariable> = Vec::new();
    let mut i: usize = 0;
    while i < p.players.len()
        invariant
            i <= p.players@.len(),
            players@.len() == i,
            forall|k: int| 0 <= k < i ==> #[trigger] variables_view(players@)[k] == player_table(*p)[k],
            forall|k: int| 0 <= k < i ==> (#[trigger] players@[k]).initializer is None,
        decreases p.players@.len() - i,
    {
        let pv = &p.players[i];
        let index = match pv.index {
            Some(x) => x,
            None => i as u32,
        };
        let ghost p0 = players@;
        players.push(
            crate::wir::WorkshopVariable {
                name: pv.name.clone(),
                index,
                span: copy_span(&pv.span),
                name_span: None,
                initializer: None,
            },
        );
        proof {
            let want = player_table(*p)[i as int];
            assert(variables_view(players@)[i as int] == (players@[i as int].name@, players@[i as int].index, players@[i as int].span, players@[i as int].name_span));
            assert(players@[i as int].index == want.1);
            assert(variables_view(players@)[i as int] == want);
            assert forall|k: int| 0 <= k < i + 1 implies #[trigger] variables_view(players@)[k] == player_table(*p)[k] by {
                if k < i {
                    assert(players@[k] == p0[k]);
                    assert(variables_view(p0)[k] == player_table(*p)[k]);
                }
            }
        }
        i = i + 1;
    }
    proof {
        assert(variables_view(players@) =~= player_table(*p));
    }
    let mut subroutines: Vec<crate::wir::WorkshopSubroutine> = Vec::new();
    let mut i: usize = 0;
    while i < p.subroutines.len()
        invariant
            i <= p.subroutines@.len(),
            subroutines@.len() == i,
            forall|k: int| 0 <= k < i ==> #[trigger] subroutines_view(subroutines@)[k] == subroutine_table(*p)[k],
        decreases p.subroutines@.len() - i,
    {
        let s = &p.subroutines[i];
        let ghost s0 = subroutines@;
        subroutines.push(
            crate::wir::WorkshopSubroutine {
                name: s.name.clone(),
                index: i as u32,
                span: copy_span(&s.decl_span),
                name_span: None,
            },
        );
        proof {
            let want = subroutine_table(*p)[i as int];
            assert(subroutines_view(subroutines@)[i as int] == want);
            assert forall|k: int| 0 <= k < i + 1 implies #[trigger] subroutines_view(subroutines@)[k] == subroutine_table(*p)[k] by {
                if k < i {
                    assert(subroutines@[k] == s0[k]);
                    assert(subroutines_view(s0)[k] == subroutine_table(*p)[k]);
                }
            }
        }
        i = i + 1;
    }
    proof {
        assert(subroutines_view(subroutines@) =~= subroutine_table(*p));
    }
    let mut values: Vec<ValueNode> = Vec::new();
    let mut actions: Vec<Action> = Vec::new();
    proof {
        assert(nodes_view(values@) =~= Seq::<(ValueView, Option<Span>)>::empty());
        assert(actions_view(actions@) =~= Seq::<ActionView>::empty());
    }
    let ga = global_inits_exec(p, &g, &mut values, &mut actions)?;
    let pa = player_inits_exec(p, &g, &mut values, &mut actions)?;
    let mut srs = subroutine_rules_exec(p, &g, &mut values, &mut actions)?;
    let mut rrs = source_rules_exec(p, &g, &mut values, &mut actions)?;
    let ghost gav = ga@;
    let ghost pav = pa@;
    let ghost srv = rules_view(srs@);
    let ghost rrv = rules_view(rrs@);
    let mut rules: Vec<crate::wir::Rule> = Vec::new();
    if ga.len() > 0 {
        rules.push(
            crate::wir::Rule {
                name: owned("Initialize global variables"),
                span: None,
                name_span: None,
                disabled: false,
                event: crate::wir::Event::Global,
                conditions: Vec::new(),
                actions: ga,
            },
        );
    }
    let ghost r1 = rules_view(rules@);
    proof {
        assert(r1 =~= init_rule("Initialize global variables"@, crate::wir::Event::Global, gav));
    }
    if pa.len() > 0 {
        rules.push(
            crate::wir::Rule {
                name: owned("Initialize player variables"),
                span: None,
                name_span: None,
                disabled: false,
                event: crate::wir::Event::EachPlayer,
                conditions: Vec::new(),
                actions: pa,
            },
        );
    }
    let ghost r2 = rules_view(rules@);
    proof {
        assert(r2 =~= r1 + init_rule("Initialize player variables"@, crate::wir::Event::EachPlayer, pav));
    }
    rules.append(&mut srs);
    rules.append(&mut rrs);
    proof {
        assert(rules_view(rules@) =~= r2 + srv + rrv);
    }
    Ok(
        crate::wir::WirProgram {
            files,
            settings: None,
            global_variables: globals,
            player_variables: players,
            subroutines,
            rules,
            values,
            actions,
        },
    )
}


proof fn lemma_assign_values(gs: Seq<GlobalVar>, i: int, taken: Seq<u32>, next: int, j: int)
    requires
        0 <= i <= j < gs.len(),
        next >= 0,
    ensures
        assign_slots(gs, i, taken, next).len() == gs.len() - i,
        assign_slots(gs, i, taken, next)[j - i] >= 0,
        gs[j].index matches Some(x) ==> assign_slots(gs, i, taken, next)[j - i] == x as int,
    decreases gs.len() - i,
{
    lemma_assign_len(gs, i, taken, next);
    lemma_least_free_above(taken, next);
    if i < j {
        match gs[i].index {
            Some(x) => lemma_assign_values(gs, i + 1, taken, next, j),
            None => {
                let s = least_free(taken, next);
                lemma_assign_values(gs, i + 1, taken.push(s as u32), s + 1, j);
            },
        }
    }
}

proof fn lemma_least_free_above(taken: Seq<u32>, n: int)
    requires
        n >= 0,
    ensures
        least_free(taken, n) >= n,
    decreases 0x1_0000_0000 - n,
{
    if n < 0x1_0000_0000 && taken.contains(n as u32) {
        lemma_least_free_above(taken, n + 1);
    }
}

/// A global declared with an explicit source index keeps it as its slot.
pub proof fn law_explicit_global_slots_are_kept(gs: Seq<GlobalVar>, i: int)
    requires
        0 <= i < gs.len(),
        gs[i].index is Some,
    ensures
        global_slots(gs)[i] == gs[i].index->0 as int,
{
    lemma_assign_values(gs, 0, explicit_slots(gs, 0), 0, i);
}

/// The global table is ordered by slot: a global placed earlier never has
/// a higher slot than one placed later.
pub proof fn law_global_table_is_ordered_by_slot(gs: Seq<GlobalVar>, a: int, b: int)
    requires
        slots_fit(gs),
        0 <= a < b < gs.len(),
    ensures
        global_table(gs)[a].1 <= global_table(gs)[b].1,
{
    let sl = global_slots(gs);
    lemma_assign_len(gs, 0, explicit_slots(gs, 0), 0);
    law_global_table_holds_each_global_once(sl);
    assert(rank_held(sl, a));
    assert(rank_held(sl, b));
    let i = rank_owner(sl, a);
    let j = rank_owner(sl, b);
    if slot_before(sl, j, i) {
        lemma_count_mono(sl, j, i, sl.len() as int);
    }
    assert(sl[i] <= sl[j]);
    lemma_assign_values(gs, 0, explicit_slots(gs, 0), 0, i);
    lemma_assign_values(gs, 0, explicit_slots(gs, 0), 0, j);
    assert(0 <= sl[i] < 0x1_0000_0000) by {
        if gs[i].index is None {
            assert(global_slots(gs)[i] < 0xffff_ffff);
        }
    }
    assert(0 <= sl[j] < 0x1_0000_0000) by {
        if gs[j].index is None {
            assert(global_slots(gs)[j] < 0xffff_ffff);
        }
    }
}

/// A compound assignment to a global keeps its arithmetic: for
/// `x = x <op> v`, with `<op>` one of `+ - * / % **`, the statement lowers
/// to Modify Global Variable on `x`'s slot with the Workshop operator of
/// the same meaning (Add, Subtract, Multiply, Divide, Modulo, Raise To
/// Power) and the lowered `v` as its value; `x = x - 1` is a decrement,
/// never an increment.
pub proof fn law_compound_assignment_keeps_operator(
    p: HirProgram,
    g: Seq<usize>,
    t: Tables,
    target: usize,
    value: usize,
    span: Option<Span>,
    depth: int,
    variable: usize,
    op: BinaryOp,
    left: usize,
    right: usize,
)
    requires
        target < p.exprs@.len(),
        value < p.exprs@.len(),
        left < p.exprs@.len(),
        variable < g.len(),
        p.exprs@[target as int] matches Expr::GlobalVar { variable: v, .. } && v == variable,
        p.exprs@[value as int] matches Expr::Binary { op: o, left: l, right: r, .. } && o == op
            && l == left && r == right,
        p.exprs@[left as int] matches Expr::GlobalVar { variable: v, .. } && v == variable,
        op == BinaryOp::Add || op == BinaryOp::Subtract || op == BinaryOp::Multiply || op
            == BinaryOp::Divide || op == BinaryOp::Modulo || op == BinaryOp::Power,
        value_in(p, g, t, right, depth) is Ok,
    ensures
        assign_stmt(p, g, t, target, value, span, depth) matches Ok(
            (t1, ActionView::ModifyGlobalVariable { variable: slot, op: m, value: x, .. }),
        ) && slot == g[variable as int] && (t1, x) == value_in(p, g, t, right, depth)->Ok_0 && (op
            == BinaryOp::Add ==> m == ModifyOp::Add) && (op == BinaryOp::Subtract ==> m
            == ModifyOp::Subtract) && (op == BinaryOp::Multiply ==> m == ModifyOp::Multiply) && (op
            == BinaryOp::Divide ==> m == ModifyOp::Divide) && (op == BinaryOp::Modulo ==> m
            == ModifyOp::Modulo) && (op == BinaryOp::Power ==> m == ModifyOp::RaiseToPower),
{
    assert(operand_is_target(p, left, variable, None) == Ok::<bool, Fault>(true));
}

} // verus!
