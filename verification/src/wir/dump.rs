//! A deterministic, human-readable dump of the Workshop IR.
//!
//! As with the HIR dump, numbers print as their float values do, and the
//! caller hands in how each number value prints, indexed by value. The value
//! and action walks carry fuel: as many steps as their table has entries.

use vstd::prelude::*;

use crate::hir::dump::{
    branch_head, debug_quoted, deeper, indent, number_text, push_decimal, push_span_suffix, quoted,
    span_suffix, texts, two_levels,
};
use crate::ir::modify_op_name;
use crate::text::decimal;
use crate::wir::{
    Action, Event, IfBranch, Value, WirProgram, WorkshopVariable, action_fuel, actions_below,
    actions_ranked, nested_actions_below, value_fuel, value_refs, values_ranked,
};

verus! {

broadcast use vstd::string::group_string_axioms;

// ---------------------------------------------------------------------------
// What the dump holds.
// ---------------------------------------------------------------------------

/// A variable's name, or a marker with its index.
pub open spec fn variable_name(vs: Seq<WorkshopVariable>, id: usize) -> Seq<char> {
    if id < vs.len() {
        vs[id as int].name@
    } else {
        "<dangling "@ + decimal(id as nat) + ">"@
    }
}

/// A global variable's name, or a marker naming it as a global.
pub open spec fn global_ref_text(p: WirProgram, id: usize) -> Seq<char> {
    if id < p.global_variables@.len() {
        p.global_variables@[id as int].name@
    } else {
        "<dangling global "@ + decimal(id as nat) + ">"@
    }
}

/// The name a subroutine reference prints with.
pub open spec fn subroutine_name(p: WirProgram, id: usize) -> Seq<char> {
    if id < p.subroutines@.len() {
        p.subroutines@[id as int].name@
    } else {
        "<dangling>"@
    }
}

/// A value in source-like form.
pub open spec fn value_text(p: WirProgram, nums: Seq<Seq<char>>, id: int, fuel: nat) -> Seq<char>
    decreases fuel, 1nat, 0nat,
{
    if !(0 <= id < p.values@.len()) {
        "<dangling value "@ + decimal(id as nat) + ">"@
    } else if fuel == 0 {
        Seq::empty()
    } else {
        value_node_text(p, nums, id, p.values@[id].value, (fuel - 1) as nat)
    }
}

/// The value `v` at `id`, its operands written with fuel `f`.
pub open spec fn value_node_text(p: WirProgram, nums: Seq<Seq<char>>, id: int, v: Value, f: nat) -> Seq<
    char,
>
    decreases f + 1, 0nat, 0nat,
{
    match v {
        Value::Number(_) => number_text(nums, id),
        Value::String(s) => debug_quoted(s@),
        Value::Bool(b) => if b {
            "true"@
        } else {
            "false"@
        },
        Value::Null => "null"@,
        Value::Array(elements) => "["@ + value_list_text(p, nums, elements@, f) + "]"@,
        Value::Vector { x, y, z } => "vect("@ + value_text(p, nums, x as int, f) + ", "@ + value_text(
            p,
            nums,
            y as int,
            f,
        ) + ", "@ + value_text(p, nums, z as int, f) + ")"@,
        Value::Enum { value_type, value } => value_type@ + "."@ + value@,
        Value::GlobalVariable(variable) => variable_name(p.global_variables@, variable),
        Value::PlayerVariable { player, variable } => value_text(p, nums, player as int, f) + "."@
            + variable_name(p.player_variables@, variable),
        Value::EventPlayer => "eventPlayer"@,
        Value::Call { name, args } => name@ + "("@ + value_list_text(p, nums, args@, f) + ")"@,
    }
}

/// Values separated by `, `.
pub open spec fn value_list_text(p: WirProgram, nums: Seq<Seq<char>>, ids: Seq<usize>, fuel: nat) -> Seq<
    char,
>
    decreases fuel, 2nat, ids.len(),
{
    if ids.len() == 0 {
        Seq::empty()
    } else if ids.len() == 1 {
        value_text(p, nums, ids[0] as int, fuel)
    } else {
        value_list_text(p, nums, ids.drop_last(), fuel) + ", "@ + value_text(
            p,
            nums,
            ids.last() as int,
            fuel,
        )
    }
}

/// An action's lines at `level`, nested actions one level deeper (two inside
/// `if`).
pub open spec fn action_text(
    p: WirProgram,
    nums: Seq<Seq<char>>,
    id: int,
    level: nat,
    fuel: nat,
) -> Seq<char>
    decreases fuel, 1nat, 0nat,
{
    if !(0 <= id < p.actions@.len()) {
        indent(level) + "<dangling action "@ + decimal(id as nat) + "/>\n"@
    } else if fuel == 0 {
        Seq::empty()
    } else {
        action_node_text(p, nums, p.actions@[id], level, (fuel - 1) as nat)
    }
}

/// The action `a` at `level`, its nested actions written with fuel `f`.
pub open spec fn action_node_text(
    p: WirProgram,
    nums: Seq<Seq<char>>,
    a: Action,
    level: nat,
    f: nat,
) -> Seq<char>
    decreases f + 1, 0nat, 0nat,
{
    let vf = value_fuel(p);
    match a {
        Action::SetGlobalVariable { variable, value, span, .. } => indent(level)
            + "setGlobalVariable "@ + global_ref_text(p, variable) + " = "@ + value_text(
            p,
            nums,
            value as int,
            vf,
        ) + span_suffix(span) + "\n"@,
        Action::ModifyGlobalVariable { variable, op, value, span, .. } => indent(level)
            + "modifyGlobalVariable "@ + global_ref_text(p, variable) + " "@ + modify_op_name(op)
            + " "@ + value_text(p, nums, value as int, vf) + span_suffix(span) + "\n"@,
        Action::SetPlayerVariable { player, variable, value, span, .. } => indent(level)
            + "setPlayerVariable "@ + value_text(p, nums, player as int, vf) + "."@ + variable_name(
            p.player_variables@,
            variable,
        ) + " = "@ + value_text(p, nums, value as int, vf) + span_suffix(span) + "\n"@,
        Action::ModifyPlayerVariable { player, variable, op, value, span, .. } => indent(level)
            + "modifyPlayerVariable "@ + value_text(p, nums, player as int, vf) + "."@
            + variable_name(p.player_variables@, variable) + " "@ + modify_op_name(op) + " "@
            + value_text(p, nums, value as int, vf) + span_suffix(span) + "\n"@,
        Action::CallSubroutine { subroutine, span, .. } => indent(level) + "callSubroutine "@
            + subroutine_name(p, subroutine) + " (id "@ + decimal(subroutine as nat) + ")"@
            + span_suffix(span) + "\n"@,
        Action::If { branches, else_body, span } => indent(level) + "if"@ + span_suffix(span)
            + "\n"@ + action_branches_text(p, nums, branches@, level, f) + match else_body {
            Some(b) => indent(level) + "  else\n"@ + actions_text(p, nums, b@, level + 2, f),
            None => Seq::empty(),
        },
        Action::While { condition, body, span } => indent(level) + "while "@ + value_text(
            p,
            nums,
            condition as int,
            vf,
        ) + span_suffix(span) + "\n"@ + actions_text(p, nums, body@, level + 1, f),
        Action::ForGlobalVariable { variable, start, stop, step, body, span, .. } => indent(level)
            + "forGlobalVariable "@ + global_ref_text(p, variable) + " in "@ + value_text(
            p,
            nums,
            start as int,
            vf,
        ) + ", "@ + value_text(p, nums, stop as int, vf) + ", "@ + value_text(
            p,
            nums,
            step as int,
            vf,
        ) + span_suffix(span) + "\n"@ + actions_text(p, nums, body@, level + 1, f),
        Action::Debug { value, span } => indent(level) + "debug "@ + value_text(
            p,
            nums,
            value as int,
            vf,
        ) + span_suffix(span) + "\n"@,
        Action::Print { message, span } => indent(level) + "print "@ + value_text(
            p,
            nums,
            message as int,
            vf,
        ) + span_suffix(span) + "\n"@,
        Action::Call { name, args, span } => indent(level) + "call "@ + name@ + "("@
            + value_list_text(p, nums, args@, vf) + ")"@ + span_suffix(span) + "\n"@,
    }
}

/// Actions in order, each at `level`.
pub open spec fn actions_text(
    p: WirProgram,
    nums: Seq<Seq<char>>,
    ids: Seq<usize>,
    level: nat,
    fuel: nat,
) -> Seq<char>
    decreases fuel, 2nat, ids.len(),
{
    if ids.len() == 0 {
        Seq::empty()
    } else {
        actions_text(p, nums, ids.drop_last(), level, fuel) + action_text(
            p,
            nums,
            ids.last() as int,
            level,
            fuel,
        )
    }
}

/// The branches of an `If`: each condition line, then its body two levels
/// deeper.
pub open spec fn action_branches_text(
    p: WirProgram,
    nums: Seq<Seq<char>>,
    bs: Seq<IfBranch>,
    level: nat,
    fuel: nat,
) -> Seq<char>
    decreases fuel, 3nat, bs.len(),
{
    if bs.len() == 0 {
        Seq::empty()
    } else {
        action_branches_text(p, nums, bs.drop_last(), level, fuel) + indent(level) + "  "@
            + branch_head(bs.len() - 1) + value_text(
            p,
            nums,
            bs.last().condition as int,
            value_fuel(p),
        ) + "\n"@ + actions_text(p, nums, bs.last().body@, level + 2, fuel)
    }
}


// ---------------------------------------------------------------------------
// Writing values.
// ---------------------------------------------------------------------------

fn push_variable_name(out: &mut String, vs: &Vec<WorkshopVariable>, id: usize)
    ensures
        final(out)@ == old(out)@ + variable_name(vs@, id),
{
    if id < vs.len() {
        out.append(vs[id].name.as_str());
    } else {
        out.append("<dangling ");
        push_decimal(out, id as u64);
        out.append(">");
        assert(out@ =~= old(out)@ + variable_name(vs@, id));
    }
}

fn push_global_ref(out: &mut String, p: &WirProgram, id: usize)
    ensures
        final(out)@ == old(out)@ + global_ref_text(*p, id),
{
    if id < p.global_variables.len() {
        out.append(p.global_variables[id].name.as_str());
    } else {
        out.append("<dangling global ");
        push_decimal(out, id as u64);
        out.append(">");
        assert(out@ =~= old(out)@ + global_ref_text(*p, id));
    }
}

fn push_subroutine_name(out: &mut String, p: &WirProgram, id: usize)
    ensures
        final(out)@ == old(out)@ + subroutine_name(*p, id),
{
    if id < p.subroutines.len() {
        out.append(p.subroutines[id].name.as_str());
    } else {
        out.append("<dangling>");
    }
}

fn render_value(p: &WirProgram, nums: &[String], id: usize, out: &mut String, fuel: usize)
    ensures
        final(out)@ == old(out)@ + value_text(*p, texts(nums@), id as int, fuel as nat),
    decreases fuel, 2nat, 0nat,
{
    let ghost n = texts(nums@);
    if id >= p.values.len() {
        out.append("<dangling value ");
        push_decimal(out, id as u64);
        out.append(">");
        assert(out@ =~= old(out)@ + value_text(*p, n, id as int, fuel as nat));
        return;
    }
    if fuel == 0 {
        assert(out@ =~= old(out)@ + value_text(*p, n, id as int, fuel as nat));
        return;
    }
    let v = &p.values[id].value;
    match v {
        Value::Array(..) => render_compound_value(p, nums, id, v, out, fuel - 1),
        Value::Vector { .. } => render_compound_value(p, nums, id, v, out, fuel - 1),
        Value::PlayerVariable { .. } => render_compound_value(p, nums, id, v, out, fuel - 1),
        Value::Call { .. } => render_compound_value(p, nums, id, v, out, fuel - 1),
        _ => render_leaf_value(p, nums, id, v, out, fuel - 1),
    }
}

#[verifier::spinoff_prover]
fn render_leaf_value(p: &WirProgram, nums: &[String], id: usize, v: &Value, out: &mut String, f: usize)
    requires
        !(v is Array || v is Vector || v is PlayerVariable || v is Call),
    ensures
        final(out)@ == old(out)@ + value_node_text(*p, texts(nums@), id as int, *v, f as nat),
{
    let ghost want = value_node_text(*p, texts(nums@), id as int, *v, f as nat);
    match v {
        Value::Number(_) => {
            if id < nums.len() {
                out.append(nums[id].as_str());
            }
        },
        Value::String(s) => {
            let q = quoted(s.as_str());
            out.append(q.as_str());
        },
        Value::Bool(b) => {
            if *b {
                out.append("true");
            } else {
                out.append("false");
            }
        },
        Value::Null => {
            out.append("null");
        },
        Value::Enum { value_type, value } => {
            out.append(value_type.as_str());
            out.append(".");
            out.append(value.as_str());
        },
        Value::GlobalVariable(variable) => {
            push_variable_name(out, &p.global_variables, *variable);
        },
        Value::EventPlayer => {
            out.append("eventPlayer");
        },
        _ => {},
    }
    assert(out@ =~= old(out)@ + want);
}

#[verifier::spinoff_prover]
fn render_compound_value(
    p: &WirProgram,
    nums: &[String],
    id: usize,
    v: &Value,
    out: &mut String,
    f: usize,
)
    requires
        v is Array || v is Vector || v is PlayerVariable || v is Call,
    ensures
        final(out)@ == old(out)@ + value_node_text(*p, texts(nums@), id as int, *v, f as nat),
    decreases f + 1, 0nat, 0nat,
{
    let ghost want = value_node_text(*p, texts(nums@), id as int, *v, f as nat);
    match v {
        Value::Array(elements) => {
            out.append("[");
            render_values(p, nums, elements.as_slice(), out, f);
            out.append("]");
        },
        Value::Vector { x, y, z } => {
            out.append("vect(");
            render_value(p, nums, *x, out, f);
            out.append(", ");
            render_value(p, nums, *y, out, f);
            out.append(", ");
            render_value(p, nums, *z, out, f);
            out.append(")");
        },
        Value::PlayerVariable { player, variable } => {
            render_value(p, nums, *player, out, f);
            out.append(".");
            push_variable_name(out, &p.player_variables, *variable);
        },
        Value::Call { name, args } => {
            out.append(name.as_str());
            out.append("(");
            render_values(p, nums, args.as_slice(), out, f);
            out.append(")");
        },
        _ => {},
    }
    assert(out@ =~= old(out)@ + want);
}

fn render_values(p: &WirProgram, nums: &[String], ids: &[usize], out: &mut String, fuel: usize)
    ensures
        final(out)@ == old(out)@ + value_list_text(*p, texts(nums@), ids@, fuel as nat),
    decreases fuel, 3nat, ids@.len(),
{
    let ghost n = texts(nums@);
    let ghost start = out@;
    let mut k: usize = 0;
    while k < ids.len()
        invariant
            k <= ids@.len(),
            n == texts(nums@),
            out@ == start + value_list_text(*p, n, ids@.take(k as int), fuel as nat),
        decreases ids@.len() - k,
    {
        assert(ids@.take(k + 1).drop_last() =~= ids@.take(k as int));
        assert(ids@.take(k + 1).last() == ids@[k as int]);
        if k > 0 {
            out.append(", ");
        }
        render_value(p, nums, ids[k], out, fuel);
        k = k + 1;
        assert(out@ =~= start + value_list_text(*p, n, ids@.take(k as int), fuel as nat));
    }
    assert(ids@.take(k as int) =~= ids@);
}


// ---------------------------------------------------------------------------
// Writing actions.
// ---------------------------------------------------------------------------

fn render_action(
    p: &WirProgram,
    nums: &[String],
    id: usize,
    out: &mut String,
    pad: &String,
    Ghost(level): Ghost<nat>,
    fuel: usize,
)
    requires
        pad@ == indent(level),
    ensures
        final(out)@ == old(out)@ + action_text(*p, texts(nums@), id as int, level, fuel as nat),
    decreases fuel, 2nat, 0nat,
{
    let ghost want = action_text(*p, texts(nums@), id as int, level, fuel as nat);
    if id >= p.actions.len() {
        out.append(pad.as_str());
        out.append("<dangling action ");
        push_decimal(out, id as u64);
        out.append("/>\n");
        assert(out@ =~= old(out)@ + want);
        return;
    }
    if fuel == 0 {
        assert(out@ =~= old(out)@ + want);
        return;
    }
    let a = &p.actions[id];
    assert(want == action_node_text(*p, texts(nums@), *a, level, (fuel - 1) as nat));
    match a {
        Action::SetGlobalVariable { .. } => render_assign(p, nums, a, out, pad, Ghost(level)),
        Action::ModifyGlobalVariable { .. } => render_assign(p, nums, a, out, pad, Ghost(level)),
        Action::SetPlayerVariable { .. } => render_player_assign(p, nums, a, out, pad, Ghost(level)),
        Action::ModifyPlayerVariable { .. } => render_player_assign(
            p,
            nums,
            a,
            out,
            pad,
            Ghost(level),
        ),
        Action::If { .. } => render_if_action(p, nums, a, out, pad, Ghost(level), fuel - 1),
        Action::While { .. } => render_while_action(p, nums, a, out, pad, Ghost(level), fuel - 1),
        Action::ForGlobalVariable { .. } => render_for_action(
            p,
            nums,
            a,
            out,
            pad,
            Ghost(level),
            fuel - 1,
        ),
        _ => render_simple_action(p, nums, a, out, pad, Ghost(level)),
    }
}

/// Setting or modifying a global variable.
#[verifier::spinoff_prover]
fn render_assign(
    p: &WirProgram,
    nums: &[String],
    a: &Action,
    out: &mut String,
    pad: &String,
    Ghost(level): Ghost<nat>,
)
    requires
        pad@ == indent(level),
        a is SetGlobalVariable || a is ModifyGlobalVariable,
    ensures
        forall|f: nat|
            final(out)@ == old(out)@ + #[trigger] action_node_text(*p, texts(nums@), *a, level, f),
{
    let ghost want = action_node_text(*p, texts(nums@), *a, level, 0);
    let vf = p.values.len();
    match a {
        Action::SetGlobalVariable { variable, value, span, .. } => {
            out.append(pad.as_str());
            out.append("setGlobalVariable ");
            push_global_ref(out, p, *variable);
            out.append(" = ");
            render_value(p, nums, *value, out, vf);
            push_span_suffix(out, *span);
            out.append("\n");
        },
        Action::ModifyGlobalVariable { variable, op, value, span, .. } => {
            out.append(pad.as_str());
            out.append("modifyGlobalVariable ");
            push_global_ref(out, p, *variable);
            out.append(" ");
            out.append(op.as_str());
            out.append(" ");
            render_value(p, nums, *value, out, vf);
            push_span_suffix(out, *span);
            out.append("\n");
        },
        _ => {},
    }
    assert(out@ =~= old(out)@ + want);
}

/// Setting or modifying a player variable.
#[verifier::spinoff_prover]
fn render_player_assign(
    p: &WirProgram,
    nums: &[String],
    a: &Action,
    out: &mut String,
    pad: &String,
    Ghost(level): Ghost<nat>,
)
    requires
        pad@ == indent(level),
        a is SetPlayerVariable || a is ModifyPlayerVariable,
    ensures
        forall|f: nat|
            final(out)@ == old(out)@ + #[trigger] action_node_text(*p, texts(nums@), *a, level, f),
{
    let ghost want = action_node_text(*p, texts(nums@), *a, level, 0);
    let vf = p.values.len();
    match a {
        Action::SetPlayerVariable { player, variable, value, span, .. } => {
            out.append(pad.as_str());
            out.append("setPlayerVariable ");
            render_value(p, nums, *player, out, vf);
            out.append(".");
            push_variable_name(out, &p.player_variables, *variable);
            out.append(" = ");
            render_value(p, nums, *value, out, vf);
            push_span_suffix(out, *span);
            out.append("\n");
        },
        Action::ModifyPlayerVariable { player, variable, op, value, span, .. } => {
            out.append(pad.as_str());
            out.append("modifyPlayerVariable ");
            render_value(p, nums, *player, out, vf);
            out.append(".");
            push_variable_name(out, &p.player_variables, *variable);
            out.append(" ");
            out.append(op.as_str());
            out.append(" ");
            render_value(p, nums, *value, out, vf);
            push_span_suffix(out, *span);
            out.append("\n");
        },
        _ => {},
    }
    assert(out@ =~= old(out)@ + want);
}

/// The actions without nested actions or variable targets.
#[verifier::spinoff_prover]
fn render_simple_action(
    p: &WirProgram,
    nums: &[String],
    a: &Action,
    out: &mut String,
    pad: &String,
    Ghost(level): Ghost<nat>,
)
    requires
        pad@ == indent(level),
        a is CallSubroutine || a is Debug || a is Print || a is Call,
    ensures
        forall|f: nat|
            final(out)@ == old(out)@ + #[trigger] action_node_text(*p, texts(nums@), *a, level, f),
{
    let ghost want = action_node_text(*p, texts(nums@), *a, level, 0);
    let vf = p.values.len();
    match a {
        Action::CallSubroutine { subroutine, span, .. } => {
            out.append(pad.as_str());
            out.append("callSubroutine ");
            push_subroutine_name(out, p, *subroutine);
            out.append(" (id ");
            push_decimal(out, *subroutine as u64);
            out.append(")");
            push_span_suffix(out, *span);
            out.append("\n");
        },
        Action::Debug { value, span } => {
            out.append(pad.as_str());
            out.append("debug ");
            render_value(p, nums, *value, out, vf);
            push_span_suffix(out, *span);
            out.append("\n");
        },
        Action::Print { message, span } => {
            out.append(pad.as_str());
            out.append("print ");
            render_value(p, nums, *message, out, vf);
            push_span_suffix(out, *span);
            out.append("\n");
        },
        Action::Call { name, args, span } => {
            out.append(pad.as_str());
            out.append("call ");
            out.append(name.as_str());
            out.append("(");
            render_values(p, nums, args.as_slice(), out, vf);
            out.append(")");
            push_span_suffix(out, *span);
            out.append("\n");
        },
        _ => {},
    }
    assert(out@ =~= old(out)@ + want);
}

#[verifier::spinoff_prover]
fn render_if_action(
    p: &WirProgram,
    nums: &[String],
    a: &Action,
    out: &mut String,
    pad: &String,
    Ghost(level): Ghost<nat>,
    f: usize,
)
    requires
        pad@ == indent(level),
        a is If,
    ensures
        final(out)@ == old(out)@ + action_node_text(*p, texts(nums@), *a, level, f as nat),
    decreases f + 1, 0nat, 0nat,
{
    let ghost n = texts(nums@);
    let ghost want = action_node_text(*p, n, *a, level, f as nat);
    match a {
        Action::If { branches, else_body, span } => {
            out.append(pad.as_str());
            out.append("if");
            push_span_suffix(out, *span);
            out.append("\n");
            render_action_branches(p, nums, branches.as_slice(), out, pad, Ghost(level), f);
            match else_body {
                Some(b) => {
                    let ghost mid = out@;
                    out.append(pad.as_str());
                    out.append("  else\n");
                    let inner1 = deeper(pad, Ghost(level));
                    let inner = deeper(&inner1, Ghost(level + 1));
                    render_actions(p, nums, b.as_slice(), out, &inner, Ghost(level + 2), f);
                    assert(out@ =~= mid + (indent(level) + "  else\n"@ + actions_text(
                        *p,
                        n,
                        b@,
                        level + 2,
                        f as nat,
                    )));
                },
                None => {},
            }
        },
        _ => {},
    }
    assert(out@ =~= old(out)@ + want);
}

#[verifier::spinoff_prover]
fn render_while_action(
    p: &WirProgram,
    nums: &[String],
    a: &Action,
    out: &mut String,
    pad: &String,
    Ghost(level): Ghost<nat>,
    f: usize,
)
    requires
        pad@ == indent(level),
        a is While,
    ensures
        final(out)@ == old(out)@ + action_node_text(*p, texts(nums@), *a, level, f as nat),
    decreases f + 1, 0nat, 0nat,
{
    let ghost want = action_node_text(*p, texts(nums@), *a, level, f as nat);
    match a {
        Action::While { condition, body, span } => {
            out.append(pad.as_str());
            out.append("while ");
            render_value(p, nums, *condition, out, p.values.len());
            push_span_suffix(out, *span);
            out.append("\n");
            let inner = deeper(pad, Ghost(level));
            render_actions(p, nums, body.as_slice(), out, &inner, Ghost(level + 1), f);
        },
        _ => {},
    }
    assert(out@ =~= old(out)@ + want);
}

#[verifier::spinoff_prover]
fn render_for_action(
    p: &WirProgram,
    nums: &[String],
    a: &Action,
    out: &mut String,
    pad: &String,
    Ghost(level): Ghost<nat>,
    f: usize,
)
    requires
        pad@ == indent(level),
        a is ForGlobalVariable,
    ensures
        final(out)@ == old(out)@ + action_node_text(*p, texts(nums@), *a, level, f as nat),
    decreases f + 1, 0nat, 0nat,
{
    let ghost want = action_node_text(*p, texts(nums@), *a, level, f as nat);
    let vf = p.values.len();
    match a {
        Action::ForGlobalVariable { variable, start, stop, step, body, span, .. } => {
            out.append(pad.as_str());
            out.append("forGlobalVariable ");
            push_global_ref(out, p, *variable);
            out.append(" in ");
            render_value(p, nums, *start, out, vf);
            out.append(", ");
            render_value(p, nums, *stop, out, vf);
            out.append(", ");
            render_value(p, nums, *step, out, vf);
            push_span_suffix(out, *span);
            out.append("\n");
            let inner = deeper(pad, Ghost(level));
            render_actions(p, nums, body.as_slice(), out, &inner, Ghost(level + 1), f);
        },
        _ => {},
    }
    assert(out@ =~= old(out)@ + want);
}

fn render_actions(
    p: &WirProgram,
    nums: &[String],
    ids: &[usize],
    out: &mut String,
    pad: &String,
    Ghost(level): Ghost<nat>,
    fuel: usize,
)
    requires
        pad@ == indent(level),
    ensures
        final(out)@ == old(out)@ + actions_text(*p, texts(nums@), ids@, level, fuel as nat),
    decreases fuel, 3nat, ids@.len(),
{
    let ghost n = texts(nums@);
    let ghost start = out@;
    let mut k: usize = 0;
    while k < ids.len()
        invariant
            k <= ids@.len(),
            n == texts(nums@),
            pad@ == indent(level),
            out@ == start + actions_text(*p, n, ids@.take(k as int), level, fuel as nat),
        decreases ids@.len() - k,
    {
        assert(ids@.take(k + 1).drop_last() =~= ids@.take(k as int));
        assert(ids@.take(k + 1).last() == ids@[k as int]);
        render_action(p, nums, ids[k], out, pad, Ghost(level), fuel);
        k = k + 1;
        assert(out@ =~= start + actions_text(*p, n, ids@.take(k as int), level, fuel as nat));
    }
    assert(ids@.take(k as int) =~= ids@);
}

fn render_action_branches(
    p: &WirProgram,
    nums: &[String],
    bs: &[IfBranch],
    out: &mut String,
    pad: &String,
    Ghost(level): Ghost<nat>,
    fuel: usize,
)
    requires
        pad@ == indent(level),
    ensures
        final(out)@ == old(out)@ + action_branches_text(*p, texts(nums@), bs@, level, fuel as nat),
    decreases fuel, 4nat, bs@.len(),
{
    let ghost n = texts(nums@);
    let ghost start = out@;
    let vf = p.values.len();
    let inner1 = deeper(pad, Ghost(level));
    let inner = deeper(&inner1, Ghost(level + 1));
    let mut k: usize = 0;
    while k < bs.len()
        invariant
            k <= bs@.len(),
            n == texts(nums@),
            vf == value_fuel(*p),
            pad@ == indent(level),
            inner@ == indent(level + 2),
            out@ == start + action_branches_text(*p, n, bs@.take(k as int), level, fuel as nat),
        decreases bs@.len() - k,
    {
        assert(bs@.take(k + 1).drop_last() =~= bs@.take(k as int));
        assert(bs@.take(k + 1).last() == bs@[k as int]);
        let ghost before = out@;
        out.append(pad.as_str());
        out.append("  ");
        if k == 0 {
            out.append("condition ");
        } else {
            out.append("elif condition ");
        }
        render_value(p, nums, bs[k].condition, out, vf);
        out.append("\n");
        render_actions(p, nums, bs[k].body.as_slice(), out, &inner, Ghost(level + 2), fuel);
        assert(out@ =~= before + (indent(level) + "  "@ + branch_head(k as int) + value_text(
            *p,
            n,
            bs@[k as int].condition as int,
            value_fuel(*p),
        ) + "\n"@ + actions_text(*p, n, bs@[k as int].body@, level + 2, fuel as nat)));
        k = k + 1;
        assert(out@ =~= start + action_branches_text(*p, n, bs@.take(k as int), level, fuel as nat));
    }
    assert(bs@.take(k as int) =~= bs@);
}


// ---------------------------------------------------------------------------
// The whole program.
// ---------------------------------------------------------------------------

/// The first `k` files, one per line with its index.
pub open spec fn wir_files_text(p: WirProgram, k: nat) -> Seq<char>
    decreases k,
{
    if k == 0 {
        Seq::empty()
    } else {
        let i = k - 1;
        wir_files_text(p, i as nat) + "  "@ + decimal(i as nat) + " "@ + p.files@[i].path@ + "\n"@
    }
}

/// A variable with its Workshop index, then its initializer when it has one.
pub open spec fn variable_text(p: WirProgram, nums: Seq<Seq<char>>, v: WorkshopVariable) -> Seq<
    char,
> {
    "  "@ + v.name@ + " (index "@ + decimal(v.index as nat) + ")"@ + span_suffix(v.span) + "\n"@
        + match v.initializer {
        Some(i) => "    initializer = "@ + value_text(p, nums, i as int, value_fuel(p)) + "\n"@,
        None => Seq::empty(),
    }
}

/// Variables in order.
pub open spec fn variables_text(p: WirProgram, nums: Seq<Seq<char>>, vs: Seq<WorkshopVariable>) -> Seq<
    char,
>
    decreases vs.len(),
{
    if vs.len() == 0 {
        Seq::empty()
    } else {
        variables_text(p, nums, vs.drop_last()) + variable_text(p, nums, vs.last())
    }
}

/// The first `k` subroutines, one per line with its Workshop index.
pub open spec fn wir_subroutines_text(p: WirProgram, k: nat) -> Seq<char>
    decreases k,
{
    if k == 0 {
        Seq::empty()
    } else {
        let s = p.subroutines@[k - 1];
        wir_subroutines_text(p, (k - 1) as nat) + "  "@ + s.name@ + " (index "@ + decimal(
            s.index as nat,
        ) + ")"@ + span_suffix(s.span) + "\n"@
    }
}

/// A rule's event line.
pub open spec fn event_line(p: WirProgram, e: Event) -> Seq<char> {
    match e {
        Event::Global => indent(2) + "event Global\n"@,
        Event::EachPlayer => indent(2) + "event EachPlayer\n"@,
        Event::Subroutine(s) => indent(2) + "event Subroutine "@ + subroutine_name(p, s) + " (id "@
            + decimal(s as nat) + ")\n"@,
    }
}

/// Conditions each on a line of its own.
pub open spec fn condition_lines(p: WirProgram, nums: Seq<Seq<char>>, ids: Seq<usize>) -> Seq<char>
    decreases ids.len(),
{
    if ids.len() == 0 {
        Seq::empty()
    } else {
        condition_lines(p, nums, ids.drop_last()) + "    condition "@ + value_text(
            p,
            nums,
            ids.last() as int,
            value_fuel(p),
        ) + "\n"@
    }
}

/// The line that opens the rule at `i`.
pub open spec fn wir_rule_head(p: WirProgram, i: int) -> Seq<char> {
    let r = p.rules@[i];
    "  rule \""@ + r.name@ + "\" (id "@ + decimal(i as nat) + ")"@ + span_suffix(r.span) + "\n"@
}

/// The rule at `i`: its event, conditions and actions.
pub open spec fn wir_rule_text(p: WirProgram, nums: Seq<Seq<char>>, i: int) -> Seq<char> {
    let r = p.rules@[i];
    wir_rule_head(p, i) + event_line(p, r.event) + condition_lines(p, nums, r.conditions@)
        + actions_text(p, nums, r.actions@, 2, action_fuel(p))
}

/// The first `k` rules.
pub open spec fn wir_rules_text(p: WirProgram, nums: Seq<Seq<char>>, k: nat) -> Seq<char>
    decreases k,
{
    if k == 0 {
        Seq::empty()
    } else {
        wir_rules_text(p, nums, (k - 1) as nat) + wir_rule_text(p, nums, k - 1)
    }
}

/// The dump of a program: its files, variables, subroutines and rules.
pub open spec fn wir_dump_text(p: WirProgram, nums: Seq<Seq<char>>) -> Seq<char> {
    "program (Workshop IR)\n"@ + "files:\n"@ + wir_files_text(p, p.files@.len())
        + "global variables:\n"@ + variables_text(p, nums, p.global_variables@)
        + "player variables:\n"@ + variables_text(p, nums, p.player_variables@) + "subroutines:\n"@
        + wir_subroutines_text(p, p.subroutines@.len()) + "rules:\n"@ + wir_rules_text(
        p,
        nums,
        p.rules@.len(),
    )
}

fn push_wir_files(p: &WirProgram, out: &mut String)
    ensures
        final(out)@ == old(out)@ + wir_files_text(*p, p.files@.len()),
{
    let ghost start = out@;
    let mut k: usize = 0;
    while k < p.files.len()
        invariant
            k <= p.files@.len(),
            out@ == start + wir_files_text(*p, k as nat),
        decreases p.files@.len() - k,
    {
        out.append("  ");
        push_decimal(out, k as u64);
        out.append(" ");
        out.append(p.files[k].path.as_str());
        out.append("\n");
        k = k + 1;
        assert(out@ =~= start + wir_files_text(*p, k as nat));
    }
}

#[verifier::spinoff_prover]
fn push_variable(p: &WirProgram, nums: &[String], v: &WorkshopVariable, out: &mut String)
    ensures
        final(out)@ == old(out)@ + variable_text(*p, texts(nums@), *v),
{
    out.append("  ");
    out.append(v.name.as_str());
    out.append(" (index ");
    push_decimal(out, v.index as u64);
    out.append(")");
    push_span_suffix(out, v.span);
    out.append("\n");
    match v.initializer {
        Some(i) => {
            out.append("    initializer = ");
            render_value(p, nums, i, out, p.values.len());
            out.append("\n");
        },
        None => {},
    }
    assert(out@ =~= old(out)@ + variable_text(*p, texts(nums@), *v));
}

fn push_variables(p: &WirProgram, nums: &[String], vs: &Vec<WorkshopVariable>, out: &mut String)
    ensures
        final(out)@ == old(out)@ + variables_text(*p, texts(nums@), vs@),
{
    let ghost start = out@;
    let ghost n = texts(nums@);
    let mut k: usize = 0;
    while k < vs.len()
        invariant
            k <= vs@.len(),
            n == texts(nums@),
            out@ == start + variables_text(*p, n, vs@.take(k as int)),
        decreases vs@.len() - k,
    {
        assert(vs@.take(k + 1).drop_last() =~= vs@.take(k as int));
        assert(vs@.take(k + 1).last() == vs@[k as int]);
        push_variable(p, nums, &vs[k], out);
        k = k + 1;
        assert(out@ =~= start + variables_text(*p, n, vs@.take(k as int)));
    }
    assert(vs@.take(k as int) =~= vs@);
}

fn push_wir_subroutines(p: &WirProgram, out: &mut String)
    ensures
        final(out)@ == old(out)@ + wir_subroutines_text(*p, p.subroutines@.len()),
{
    let ghost start = out@;
    let mut k: usize = 0;
    while k < p.subroutines.len()
        invariant
            k <= p.subroutines@.len(),
            out@ == start + wir_subroutines_text(*p, k as nat),
        decreases p.subroutines@.len() - k,
    {
        let s = &p.subroutines[k];
        out.append("  ");
        out.append(s.name.as_str());
        out.append(" (index ");
        push_decimal(out, s.index as u64);
        out.append(")");
        push_span_suffix(out, s.span);
        out.append("\n");
        k = k + 1;
        assert(out@ =~= start + wir_subroutines_text(*p, k as nat));
    }
}

fn push_event_line(p: &WirProgram, e: Event, out: &mut String)
    ensures
        final(out)@ == old(out)@ + event_line(*p, e),
{
    let pad = two_levels();
    out.append(pad.as_str());
    match e {
        Event::Global => {
            out.append("event Global\n");
        },
        Event::EachPlayer => {
            out.append("event EachPlayer\n");
        },
        Event::Subroutine(s) => {
            out.append("event Subroutine ");
            push_subroutine_name(out, p, s);
            out.append(" (id ");
            push_decimal(out, s as u64);
            out.append(")\n");
        },
    }
    assert(out@ =~= old(out)@ + event_line(*p, e));
}

fn push_conditions(p: &WirProgram, nums: &[String], ids: &[usize], out: &mut String)
    ensures
        final(out)@ == old(out)@ + condition_lines(*p, texts(nums@), ids@),
{
    let ghost start = out@;
    let ghost n = texts(nums@);
    let mut k: usize = 0;
    while k < ids.len()
        invariant
            k <= ids@.len(),
            n == texts(nums@),
            out@ == start + condition_lines(*p, n, ids@.take(k as int)),
        decreases ids@.len() - k,
    {
        assert(ids@.take(k + 1).drop_last() =~= ids@.take(k as int));
        assert(ids@.take(k + 1).last() == ids@[k as int]);
        out.append("    condition ");
        render_value(p, nums, ids[k], out, p.values.len());
        out.append("\n");
        k = k + 1;
        assert(out@ =~= start + condition_lines(*p, n, ids@.take(k as int)));
    }
    assert(ids@.take(k as int) =~= ids@);
}

fn push_wir_rule_head(p: &WirProgram, k: usize, out: &mut String)
    requires
        k < p.rules@.len(),
    ensures
        final(out)@ == old(out)@ + wir_rule_head(*p, k as int),
{
    let r = &p.rules[k];
    out.append("  rule \"");
    out.append(r.name.as_str());
    out.append("\" (id ");
    push_decimal(out, k as u64);
    out.append(")");
    push_span_suffix(out, r.span);
    out.append("\n");
    assert(out@ =~= old(out)@ + wir_rule_head(*p, k as int));
}

#[verifier::spinoff_prover]
fn push_wir_rule(p: &WirProgram, nums: &[String], k: usize, out: &mut String, pad: &String)
    requires
        k < p.rules@.len(),
        pad@ == indent(2),
    ensures
        final(out)@ == old(out)@ + wir_rule_text(*p, texts(nums@), k as int),
{
    let ghost n = texts(nums@);
    let r = &p.rules[k];
    push_wir_rule_head(p, k, out);
    push_event_line(p, r.event, out);
    push_conditions(p, nums, r.conditions.as_slice(), out);
    render_actions(p, nums, r.actions.as_slice(), out, pad, Ghost(2), p.actions.len());
    assert(out@ =~= old(out)@ + wir_rule_head(*p, k as int) + event_line(*p, r.event)
        + condition_lines(*p, n, r.conditions@) + actions_text(
        *p,
        n,
        r.actions@,
        2,
        action_fuel(*p),
    ));
}

fn push_wir_rules(p: &WirProgram, nums: &[String], out: &mut String)
    ensures
        final(out)@ == old(out)@ + wir_rules_text(*p, texts(nums@), p.rules@.len()),
{
    let ghost start = out@;
    let ghost n = texts(nums@);
    let pad = two_levels();
    let mut k: usize = 0;
    while k < p.rules.len()
        invariant
            k <= p.rules@.len(),
            n == texts(nums@),
            pad@ == indent(2),
            out@ == start + wir_rules_text(*p, n, k as nat),
        decreases p.rules@.len() - k,
    {
        push_wir_rule(p, nums, k, out, &pad);
        k = k + 1;
        assert(out@ =~= start + wir_rules_text(*p, n, k as nat));
    }
}

impl WirProgram {
    /// A deterministic, human-readable dump of the program. `numbers[i]` is
    /// how value `i` prints when it is a number.
    pub fn dump(&self, numbers: &[String]) -> (r: String)
        ensures
            r@ == wir_dump_text(*self, texts(numbers@)),
    {
        let mut out = String::new();
        out.append("program (Workshop IR)\n");
        out.append("files:\n");
        push_wir_files(self, &mut out);
        out.append("global variables:\n");
        push_variables(self, numbers, &self.global_variables, &mut out);
        out.append("player variables:\n");
        push_variables(self, numbers, &self.player_variables, &mut out);
        out.append("subroutines:\n");
        push_wir_subroutines(self, &mut out);
        out.append("rules:\n");
        push_wir_rules(self, numbers, &mut out);
        assert(out@ =~= wir_dump_text(*self, texts(numbers@)));
        out
    }
}


// ---------------------------------------------------------------------------
// Fuel.
// ---------------------------------------------------------------------------

proof fn lemma_value_text_fuel(
    p: WirProgram,
    nums: Seq<Seq<char>>,
    rank: spec_fn(int) -> nat,
    id: int,
    f1: nat,
    f2: nat,
)
    requires
        values_ranked(p, rank),
        0 <= id < p.values@.len(),
        f1 > rank(id),
        f2 > rank(id),
    ensures
        value_text(p, nums, id, f1) == value_text(p, nums, id, f2),
    decreases rank(id) + 1nat, 0nat,
{
    let v = p.values@[id].value;
    let refs = value_refs(v);
    let g1 = (f1 - 1) as nat;
    let g2 = (f2 - 1) as nat;
    assert(value_text(p, nums, id, f1) == value_node_text(p, nums, id, v, g1));
    assert(value_text(p, nums, id, f2) == value_node_text(p, nums, id, v, g2));
    assert forall|k: int| 0 <= k < refs.len() && refs[k] < p.values@.len() implies #[trigger] rank(
        refs[k] as int,
    ) < rank(id) by {
        assert(value_refs(p.values@[id].value)[k] == refs[k]);
    }
    match v {
        Value::Array(elements) => {
            lemma_value_list_text_fuel(p, nums, rank, elements@, g1, g2, rank(id));
        },
        Value::Vector { x, y, z } => {
            assert(refs[0] == x && refs[1] == y && refs[2] == z);
            if (x as int) < p.values@.len() {
                lemma_value_text_fuel(p, nums, rank, x as int, g1, g2);
            }
            if (y as int) < p.values@.len() {
                lemma_value_text_fuel(p, nums, rank, y as int, g1, g2);
            }
            if (z as int) < p.values@.len() {
                lemma_value_text_fuel(p, nums, rank, z as int, g1, g2);
            }
        },
        Value::PlayerVariable { player, .. } => {
            assert(refs[0] == player);
            if (player as int) < p.values@.len() {
                lemma_value_text_fuel(p, nums, rank, player as int, g1, g2);
            }
        },
        Value::Call { args, .. } => {
            lemma_value_list_text_fuel(p, nums, rank, args@, g1, g2, rank(id));
        },
        _ => {},
    }
}

proof fn lemma_value_list_text_fuel(
    p: WirProgram,
    nums: Seq<Seq<char>>,
    rank: spec_fn(int) -> nat,
    ids: Seq<usize>,
    f1: nat,
    f2: nat,
    bound: nat,
)
    requires
        values_ranked(p, rank),
        forall|k: int| 0 <= k < ids.len() && ids[k] < p.values@.len() ==> #[trigger] rank(ids[k] as int) < bound,
        bound <= f1,
        bound <= f2,
    ensures
        value_list_text(p, nums, ids, f1) == value_list_text(p, nums, ids, f2),
    decreases bound, ids.len(),
{
    if ids.len() > 0 {
        let rest = ids.drop_last();
        assert forall|k: int| 0 <= k < rest.len() && rest[k] < p.values@.len() implies #[trigger] rank(
            rest[k] as int,
        ) < bound by {
            assert(rest[k] == ids[k]);
        }
        lemma_value_list_text_fuel(p, nums, rank, rest, f1, f2, bound);
        let last = ids.last();
        assert(ids[ids.len() - 1] == last);
        if (last as int) < p.values@.len() {
            lemma_value_text_fuel(p, nums, rank, last as int, f1, f2);
        } else {
            assert(value_text(p, nums, last as int, f1) == value_text(p, nums, last as int, f2));
        }
    }
}

/// On a value table whose references never come back to a value, a value
/// written with as much fuel as there are values reads as it does with any
/// more fuel.
pub proof fn law_value_text_fuel_suffices(
    p: WirProgram,
    nums: Seq<Seq<char>>,
    rank: spec_fn(int) -> nat,
    id: int,
    fuel: nat,
)
    requires
        values_ranked(p, rank),
        fuel >= value_fuel(p),
    ensures
        value_text(p, nums, id, fuel) == value_text(p, nums, id, value_fuel(p)),
{
    if 0 <= id < p.values@.len() {
        lemma_value_text_fuel(p, nums, rank, id, fuel, value_fuel(p));
    }
}

proof fn lemma_action_text_fuel(
    p: WirProgram,
    nums: Seq<Seq<char>>,
    rank: spec_fn(int) -> nat,
    id: int,
    level: nat,
    f1: nat,
    f2: nat,
)
    requires
        actions_ranked(p, rank),
        0 <= id < p.actions@.len(),
        f1 > rank(id),
        f2 > rank(id),
    ensures
        action_text(p, nums, id, level, f1) == action_text(p, nums, id, level, f2),
    decreases rank(id) + 1nat, 0nat, 0nat,
{
    let a = p.actions@[id];
    let g1 = (f1 - 1) as nat;
    let g2 = (f2 - 1) as nat;
    assert(nested_actions_below(p, rank, a, rank(id)));
    assert(action_text(p, nums, id, level, f1) == action_node_text(p, nums, a, level, g1));
    assert(action_text(p, nums, id, level, f2) == action_node_text(p, nums, a, level, g2));
    match a {
        Action::If { branches, else_body, .. } => {
            lemma_action_branches_text_fuel(p, nums, rank, branches@, level, g1, g2, rank(id));
            match else_body {
                Some(b) => {
                    lemma_actions_text_fuel(p, nums, rank, b@, level + 2, g1, g2, rank(id));
                },
                None => {},
            }
        },
        Action::While { body, .. } => {
            lemma_actions_text_fuel(p, nums, rank, body@, level + 1, g1, g2, rank(id));
        },
        Action::ForGlobalVariable { body, .. } => {
            lemma_actions_text_fuel(p, nums, rank, body@, level + 1, g1, g2, rank(id));
        },
        _ => {},
    }
}

proof fn lemma_actions_text_fuel(
    p: WirProgram,
    nums: Seq<Seq<char>>,
    rank: spec_fn(int) -> nat,
    ids: Seq<usize>,
    level: nat,
    f1: nat,
    f2: nat,
    bound: nat,
)
    requires
        actions_ranked(p, rank),
        actions_below(p, rank, ids, bound),
        bound <= f1,
        bound <= f2,
    ensures
        actions_text(p, nums, ids, level, f1) == actions_text(p, nums, ids, level, f2),
    decreases bound, 0nat, ids.len(),
{
    if ids.len() > 0 {
        let rest = ids.drop_last();
        assert forall|k: int| 0 <= k < rest.len() && rest[k] < p.actions@.len() implies #[trigger] rank(
            rest[k] as int,
        ) < bound by {
            assert(rest[k] == ids[k]);
        }
        lemma_actions_text_fuel(p, nums, rank, rest, level, f1, f2, bound);
        let last = ids.last();
        if (last as int) < p.actions@.len() {
            assert(ids[ids.len() - 1] == last);
            lemma_action_text_fuel(p, nums, rank, last as int, level, f1, f2);
        } else {
            assert(action_text(p, nums, last as int, level, f1) == action_text(
                p,
                nums,
                last as int,
                level,
                f2,
            ));
        }
    }
}

proof fn lemma_action_branches_text_fuel(
    p: WirProgram,
    nums: Seq<Seq<char>>,
    rank: spec_fn(int) -> nat,
    bs: Seq<IfBranch>,
    level: nat,
    f1: nat,
    f2: nat,
    bound: nat,
)
    requires
        actions_ranked(p, rank),
        forall|b: int| 0 <= b < bs.len() ==> actions_below(p, rank, #[trigger] bs[b].body@, bound),
        bound <= f1,
        bound <= f2,
    ensures
        action_branches_text(p, nums, bs, level, f1) == action_branches_text(p, nums, bs, level, f2),
    decreases bound, 1nat, bs.len(),
{
    if bs.len() > 0 {
        let rest = bs.drop_last();
        assert forall|b: int| 0 <= b < rest.len() implies actions_below(p, rank, #[trigger] rest[b].body@, bound) by {
            assert(rest[b] == bs[b]);
        }
        lemma_action_branches_text_fuel(p, nums, rank, rest, level, f1, f2, bound);
        assert(bs[bs.len() - 1] == bs.last());
        lemma_actions_text_fuel(p, nums, rank, bs.last().body@, level + 2, f1, f2, bound);
    }
}

/// On an action table whose nesting never comes back to an action, an
/// action written with as much fuel as there are actions reads as it does
/// with any more fuel.
pub proof fn law_action_text_fuel_suffices(
    p: WirProgram,
    nums: Seq<Seq<char>>,
    rank: spec_fn(int) -> nat,
    id: int,
    level: nat,
    fuel: nat,
)
    requires
        actions_ranked(p, rank),
        fuel >= action_fuel(p),
    ensures
        action_text(p, nums, id, level, fuel) == action_text(p, nums, id, level, action_fuel(p)),
{
    if 0 <= id < p.actions@.len() {
        lemma_action_text_fuel(p, nums, rank, id, level, fuel, action_fuel(p));
    }
}

/// The dump names each rule's own event: right after the rule's opening
/// line stands `    event Global`, `    event EachPlayer` or
/// `    event Subroutine ...`, as the rule's event is.
pub proof fn law_rule_dump_names_its_event(p: WirProgram, nums: Seq<Seq<char>>, i: int)
    requires
        0 <= i < p.rules@.len(),
    ensures
        ({
            let t = wir_rule_text(p, nums, i);
            let h = wir_rule_head(p, i).len() as int;
            let e = p.rules@[i].event;
            &&& e == Event::Global ==> t.subrange(h, h + "    event Global\n"@.len())
                == "    event Global\n"@
            &&& e == Event::EachPlayer ==> t.subrange(h, h + "    event EachPlayer\n"@.len())
                == "    event EachPlayer\n"@
            &&& e is Subroutine ==> t.subrange(h, h + "    event Subroutine "@.len())
                == "    event Subroutine "@
        }),
{
    let r = p.rules@[i];
    let el = event_line(p, r.event);
    let rest = condition_lines(p, nums, r.conditions@) + actions_text(p, nums, r.actions@, 2, action_fuel(p));
    let head = wir_rule_head(p, i);
    reveal_with_fuel(indent, 3);
    reveal_strlit("  ");
    reveal_strlit("    event Global\n");
    reveal_strlit("event Global\n");
    reveal_strlit("    event EachPlayer\n");
    reveal_strlit("event EachPlayer\n");
    reveal_strlit("    event Subroutine ");
    reveal_strlit("event Subroutine ");
    assert(indent(2) =~= "    "@) by {
        reveal_strlit("    ");
        assert(indent(0) =~= Seq::<char>::empty());
    }
    assert(wir_rule_text(p, nums, i) =~= head + el + rest);
    let h = head.len() as int;
    assert((head + el + rest).subrange(h, h + el.len()) =~= el);
    match r.event {
        Event::Global => {
            assert(el =~= "    event Global\n"@);
        },
        Event::EachPlayer => {
            assert(el =~= "    event EachPlayer\n"@);
        },
        Event::Subroutine(s) => {
            let lead = "    event Subroutine "@;
            assert((head + el + rest).subrange(h, h + lead.len()) =~= lead);
        },
    }
}

/// Events of different kinds never share an event line: the dump of a
/// global rule, an each-player rule and a subroutine body differ there.
pub proof fn law_event_lines_differ(p: WirProgram, a: Event, b: Event)
    requires
        a != b,
        !(a is Subroutine && b is Subroutine),
    ensures
        event_line(p, a) != event_line(p, b),
{
    reveal_with_fuel(indent, 3);
    reveal_strlit("  ");
    reveal_strlit("event Global\n");
    reveal_strlit("event EachPlayer\n");
    reveal_strlit("event Subroutine ");
    assert(indent(2).len() == 4);
    assert(event_line(p, a)[10] != event_line(p, b)[10]);
}

} // verus!
