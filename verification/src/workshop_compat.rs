//! Evidence of a Workshop semantic comparison: each side either parsed (and
//! carries its canonical dump) or failed (and carries its error).

use vstd::prelude::*;

use crate::text::{owned, str_eq};
use workshop_rs::catalog::{Catalog, Locale};
use workshop_rs::parser::parse_with_context;
use workshop_rs::roundtrip::equivalent;
use workshop_rs::Action as WorkshopAction;
use workshop_rs::Value as WorkshopValue;

verus! {

broadcast use vstd::string::group_string_axioms;

#[derive(Debug, Clone, PartialEq, Eq)]
pub struct WorkshopSemanticSide {
    pub parsed: bool,
    pub error: Option<String>,
    pub dump: Option<String>,
}

#[derive(Debug, Clone, PartialEq, Eq)]
pub struct WorkshopSemanticComparison {
    pub equivalent: bool,
    pub expected: WorkshopSemanticSide,
    pub actual: WorkshopSemanticSide,
}

/// A side that failed to parse or validate with `error`.
pub open spec fn failed_side(s: WorkshopSemanticSide, error: Seq<char>) -> bool {
    &&& !s.parsed
    &&& s.error matches Some(e) && e@ == error
    &&& s.dump is None
}

/// A side that parsed, with its canonical dump.
pub open spec fn parsed_side(s: WorkshopSemanticSide, dump: Seq<char>) -> bool {
    &&& s.parsed
    &&& s.error is None
    &&& s.dump matches Some(d) && d@ == dump
}

impl WorkshopSemanticSide {
    /// A side that failed with `error`.
    pub fn failed(error: &str) -> (s: WorkshopSemanticSide)
        ensures
            failed_side(s, error@),
    {
        WorkshopSemanticSide { parsed: false, error: Some(owned(error)), dump: None }
    }

    /// A side that parsed into a program with canonical dump `dump`.
    pub fn parsed(dump: &str) -> (s: WorkshopSemanticSide)
        ensures
            parsed_side(s, dump@),
    {
        WorkshopSemanticSide { parsed: true, error: None, dump: Some(owned(dump)) }
    }
}

/// The comparison when the catalog itself cannot be loaded: neither side
/// parsed, both carry the catalog error, and the texts are not equivalent.
pub fn catalog_failure(error: &str) -> (c: WorkshopSemanticComparison)
    ensures
        !c.equivalent,
        failed_side(c.expected, "catalog initialization failed: "@ + error@),
        failed_side(c.actual, "catalog initialization failed: "@ + error@),
{
    let mut message = owned("catalog initialization failed: ");
    message.append(error);
    let expected = WorkshopSemanticSide::failed(message.as_str());
    let actual = WorkshopSemanticSide::failed(message.as_str());
    WorkshopSemanticComparison { equivalent: false, expected, actual }
}


// ---------------------------------------------------------------------------
// Comparing two Workshop texts.
// ---------------------------------------------------------------------------

#[verifier::external_type_specification]
#[verifier::external_body]
pub struct ExAction(WorkshopAction);

#[verifier::external_type_specification]
#[verifier::external_body]
pub struct ExValue(WorkshopValue);

/// What one side of a comparison gives: the canonical dump of the text's
/// program (parsed and validated against the built-in catalog in `en-US`,
/// its debug HUD strings canonicalized by [`canonical_program`]), or the
/// failure: whether the catalog itself failed, and the error's text.
pub uninterp spec fn workshop_side_of(text: Seq<char>) -> Result<Seq<char>, (bool, Seq<char>)>;

/// Whether two texts that both give a canonical program (see
/// [`workshop_side_of`]) have equivalent programs by
/// `roundtrip::equivalent`; false when either does not.
pub uninterp spec fn workshop_equivalent_of(expected: Seq<char>, actual: Seq<char>) -> bool;

pub open spec fn side_view(r: Result<String, (bool, String)>) -> Result<Seq<char>, (bool, Seq<char>)> {
    match r {
        Ok(d) => Ok(d@),
        Err((c, e)) => Err((c, e@)),
    }
}

/// Runs both texts through workshop-rs: `Catalog::builtin` (its error
/// flagged as the catalog's), `parser::parse_with_context` in `en-US` with
/// the catalog as the expected-domain context, `Program::validate`, then
/// [`canonical_program`] (handed to `Result::map`), `Program::dump`, and
/// `roundtrip::equivalent` of the two programs. The catalog is a constant,
/// so the outcomes are named as functions of the texts.
#[verifier::external_body]
fn compare_canonical(expected: &str, actual: &str) -> (r: (
    Result<String, (bool, String)>,
    Result<String, (bool, String)>,
    bool,
))
    ensures
        side_view(r.0) == workshop_side_of(expected@),
        side_view(r.1) == workshop_side_of(actual@),
        r.2 == workshop_equivalent_of(expected@, actual@),
{
    let side = |t: &str| -> Result<workshop_rs::Program, (bool, String)> {
        let c = Catalog::builtin().map_err(|e| (true, e.to_string()))?;
        let p = parse_with_context(t, &c, &Locale::new("en-US"), &c);
        p.and_then(|p| p.validate().map(|()| canonical_program(p))).map_err(|e| (false, e.to_string()))
    };
    let (a, b) = (side(expected), side(actual));
    let eq = matches!((&a, &b), (Ok(x), Ok(y)) if equivalent(x, y));
    (a.map(|p| p.dump()), b.map(|p| p.dump()), eq)
}

/// `program.rules.len()`.
#[verifier::external_body]
fn rule_count(p: &workshop_rs::Program) -> (r: usize) {
    p.rules.len()
}

/// The number of actions of rule `r` (none when there is no such rule).
#[verifier::external_body]
fn action_count(p: &workshop_rs::Program, r: usize) -> (n: usize) {
    p.rules.get(r).map_or(0, |rule| rule.actions.len())
}

/// Action `i` of rule `r`, when there is one.
#[verifier::external_body]
fn action_at(p: &mut workshop_rs::Program, r: usize, i: usize) -> (a: Option<&mut WorkshopAction>) {
    p.rules.get_mut(r).and_then(|rule| rule.actions.get_mut(i))
}

/// What the debug-HUD rule reads of an action.
#[derive(Debug, Clone, PartialEq, Eq)]
pub enum ActionShape {
    Disabled,
    Call { name: String, args: usize },
    Other,
}

/// What the debug-HUD rule reads of a value.
#[derive(Debug, Clone, PartialEq, Eq)]
pub enum ValueShape {
    String,
    Null,
    Array(usize),
    Vector,
    PlayerVariable,
    Call { name: String, args: usize },
    Other,
}

/// The variant of an action, with a call's name and argument count.
#[verifier::external_body]
fn action_shape(a: &WorkshopAction) -> (s: ActionShape) {
    match a {
        WorkshopAction::Disabled { .. } => ActionShape::Disabled,
        WorkshopAction::Call { name, args } => ActionShape::Call { name: name.clone(), args: args.len() },
        _ => ActionShape::Other,
    }
}

/// The action a disabled action wraps.
#[verifier::external_body]
fn disabled_inner(a: &mut WorkshopAction) -> (r: Option<&mut WorkshopAction>) {
    match a {
        WorkshopAction::Disabled { action } => Some(action),
        _ => None,
    }
}

/// Argument `i` of an action call.
#[verifier::external_body]
fn call_argument(a: &mut WorkshopAction, i: usize) -> (r: Option<&mut WorkshopValue>) {
    match a {
        WorkshopAction::Call { args, .. } => args.get_mut(i),
        _ => None,
    }
}

/// The variant of a value, with its operand count and a call's name.
#[verifier::external_body]
fn value_shape(v: &WorkshopValue) -> (s: ValueShape) {
    match v {
        WorkshopValue::String(_) => ValueShape::String,
        WorkshopValue::Null => ValueShape::Null,
        WorkshopValue::Array(vs) => ValueShape::Array(vs.len()),
        WorkshopValue::Vector { .. } => ValueShape::Vector,
        WorkshopValue::PlayerVariable { .. } => ValueShape::PlayerVariable,
        WorkshopValue::Call { name, args } => ValueShape::Call { name: name.clone(), args: args.len() },
        _ => ValueShape::Other,
    }
}

/// Operand `i` of a value: an array element, a vector's `x`, `y`, `z`, a
/// player variable's player, a call argument.
#[verifier::external_body]
fn value_operand(v: &mut WorkshopValue, i: usize) -> (r: Option<&mut WorkshopValue>) {
    match (v, i) {
        (WorkshopValue::Array(vs), _) | (WorkshopValue::Call { args: vs, .. }, _) => vs.get_mut(i),
        (WorkshopValue::Vector { x, .. }, 0) | (WorkshopValue::PlayerVariable { player: x, .. }, 0) => Some(x),
        (WorkshopValue::Vector { y, .. }, 1) => Some(y),
        (WorkshopValue::Vector { z, .. }, 2) => Some(z),
        _ => None,
    }
}

/// Replaces a value with the string `s`.
#[verifier::external_body]
fn set_string(v: &mut WorkshopValue, s: String) {
    *v = WorkshopValue::String(s);
}

/// The text every debug-HUD string reads as after canonicalization.
pub open spec fn debug_string() -> Seq<char> {
    "<wright-debug-string>"@
}

/// The number of operands the canonicalization descends into.
pub open spec fn operand_count(s: ValueShape) -> nat {
    match s {
        ValueShape::Array(n) => n as nat,
        ValueShape::Vector => 3,
        ValueShape::PlayerVariable => 1,
        ValueShape::Call { args, .. } => args as nat,
        _ => 0,
    }
}

/// Whether an action call is a debug HUD text: `createHudText` with at
/// least three arguments, the second `null` and the third a
/// `customString` call (whose arguments are then canonicalized).
pub open spec fn debug_hud_call(name: Seq<char>, args: usize, second: ValueShape, third: ValueShape) -> bool {
    &&& name == "createHudText"@
    &&& args >= 3
    &&& second == ValueShape::Null
    &&& third matches ValueShape::Call { name: n, .. } && n@ == "customString"@
}

fn operands_of(s: &ValueShape) -> (r: usize)
    ensures
        r == operand_count(*s),
{
    match s {
        ValueShape::Array(n) => *n,
        ValueShape::Vector => 3,
        ValueShape::PlayerVariable => 1,
        ValueShape::Call { args, .. } => *args,
        _ => 0,
    }
}

/// Whether an action call is a debug HUD text (see [`debug_hud_call`]).
pub fn is_debug_hud_call(name: &str, args: usize, second: &ValueShape, third: &ValueShape) -> (r: bool)
    ensures
        r == debug_hud_call(name@, args, *second, *third),
{
    let custom = match third {
        ValueShape::Call { name: n, .. } => str_eq(n.as_str(), "customString"),
        _ => false,
    };
    str_eq(name, "createHudText") && args >= 3 && matches!(second, ValueShape::Null) && custom
}

/// A value as the debug-HUD rule reads it: its shape and its operands, or
/// the placeholder string it was rewritten to.
pub ghost enum ValueTree {
    Placeholder,
    Node(ValueShape, Seq<ValueTree>),
}

/// A value with every string inside it (through its operands, at most
/// `fuel` levels down) replaced by the placeholder `<wright-debug-string>`.
pub open spec fn canonical_tree(t: ValueTree, fuel: nat) -> ValueTree
    decreases fuel,
{
    match t {
        ValueTree::Placeholder => ValueTree::Placeholder,
        ValueTree::Node(s, cs) => if s == ValueShape::String {
            ValueTree::Placeholder
        } else if fuel == 0 {
            t
        } else {
            ValueTree::Node(s, Seq::new(cs.len(), |k: int| canonical_tree(cs[k], (fuel - 1) as nat)))
        },
    }
}

/// An action as the debug-HUD rule reads it: a disabled action and the
/// action it wraps, a call with its name, argument count, second and third
/// argument shapes and the operands of its third argument, or any other
/// action.
pub ghost enum ActionTree {
    Disabled(Box<ActionTree>),
    Call { name: Seq<char>, args: usize, second: ValueShape, third: ValueShape, body: Seq<ValueTree> },
    Other,
}

/// An action after the debug-HUD rule: in a debug HUD text (see
/// [`debug_hud_call`]), every string of the `customString` body's operands
/// becomes the placeholder; a disabled action is rewritten inside (at most
/// `fuel` levels down); anything else is unchanged.
pub open spec fn canonical_action_tree(t: ActionTree, fuel: nat) -> ActionTree
    decreases fuel,
{
    match t {
        ActionTree::Disabled(inner) => if fuel == 0 {
            t
        } else {
            ActionTree::Disabled(Box::new(canonical_action_tree(*inner, (fuel - 1) as nat)))
        },
        ActionTree::Call { name, args, second, third, body } => if debug_hud_call(name, args, second, third) {
            ActionTree::Call {
                name,
                args,
                second,
                third,
                body: Seq::new(body.len(), |k: int| canonical_tree(body[k], usize::MAX as nat)),
            }
        } else {
            t
        },
        ActionTree::Other => ActionTree::Other,
    }
}

/// An operand that could not be reached.
pub open spec fn absent() -> ValueTree {
    ValueTree::Node(ValueShape::Other, Seq::empty())
}

proof fn lemma_absent_fixed(fuel: nat)
    ensures
        canonical_tree(absent(), fuel) == absent(),
{
    if fuel > 0 {
        lemma_node(ValueShape::Other, Seq::empty(), Seq::empty(), fuel);
    }
}

proof fn lemma_node(s: ValueShape, cs: Seq<ValueTree>, ds: Seq<ValueTree>, fuel: nat)
    requires
        fuel > 0,
        s != ValueShape::String,
        ds.len() == cs.len(),
        forall|k: int| 0 <= k < cs.len() ==> #[trigger] ds[k] == canonical_tree(cs[k], (fuel - 1) as nat),
    ensures
        canonical_tree(ValueTree::Node(s, cs), fuel) == ValueTree::Node(s, ds),
{
    let t = canonical_tree(ValueTree::Node(s, cs), fuel);
    match t {
        ValueTree::Node(s2, m2) => {
            assert(s2 == s);
            assert(m2.len() == ds.len());
            assert forall|k: int| 0 <= k < ds.len() implies m2[k] == ds[k] by {
                assert(m2[k] == canonical_tree(cs[k], (fuel - 1) as nat));
            }
            assert(m2 =~= ds);
        },
        ValueTree::Placeholder => {
            assert(false);
        },
    }
}

/// Replaces every string inside `v` (through arrays, vectors, player
/// variables and calls) with the debug placeholder; `fuel` bounds the
/// nesting it descends. Returns the value as it read it and as it left it.
fn canonicalize_strings(v: &mut WorkshopValue, fuel: usize) -> (r: Ghost<(ValueTree, ValueTree)>)
    ensures
        r@.1 == canonical_tree(r@.0, fuel as nat),
        r@.0 matches ValueTree::Node(s, cs) && (s != ValueShape::String ==> cs.len() == (if fuel == 0 {
            0
        } else {
            operand_count(s)
        })),
    decreases fuel,
{
    let shape = value_shape(v);
    if let ValueShape::String = shape {
        set_string(v, owned("<wright-debug-string>"));
        return Ghost((ValueTree::Node(shape, Seq::empty()), ValueTree::Placeholder));
    }
    if fuel == 0 {
        return Ghost((ValueTree::Node(shape, Seq::empty()), ValueTree::Node(shape, Seq::empty())));
    }
    let n = operands_of(&shape);
    let ghost mut before: Seq<ValueTree> = Seq::empty();
    let ghost mut after: Seq<ValueTree> = Seq::empty();
    let mut i: usize = 0;
    while i < n
        invariant
            fuel > 0,
            i <= n,
            before.len() == i,
            after.len() == i,
            forall|k: int| 0 <= k < i ==> #[trigger] after[k] == canonical_tree(before[k], (fuel - 1) as nat),
        decreases n - i,
    {
        match value_operand(v, i) {
            Some(child) => {
                let t = canonicalize_strings(child, fuel - 1);
                proof {
                    let (b0, a0) = (before, after);
                    before = before.push(t@.0);
                    after = after.push(t@.1);
                    assert forall|k: int| 0 <= k < i + 1 implies #[trigger] after[k] == canonical_tree(before[k], (fuel - 1) as nat) by {
                        if k < i {
                            assert(after[k] == a0[k] && before[k] == b0[k]);
                        }
                    }
                }
            },
            None => {
                proof {
                    lemma_absent_fixed((fuel - 1) as nat);
                    let (b0, a0) = (before, after);
                    before = before.push(absent());
                    after = after.push(absent());
                    assert forall|k: int| 0 <= k < i + 1 implies #[trigger] after[k] == canonical_tree(before[k], (fuel - 1) as nat) by {
                        if k < i {
                            assert(after[k] == a0[k] && before[k] == b0[k]);
                        }
                    }
                }
            },
        }
        i = i + 1;
    }
    proof {
        lemma_node(shape, before, after, fuel as nat);
    }
    Ghost((ValueTree::Node(shape, before), ValueTree::Node(shape, after)))
}

/// Canonicalizes the strings of a debug HUD text's `customString` body,
/// through disabled actions. Returns the action as it read it and as it
/// left it.
fn canonicalize_action(a: &mut WorkshopAction, fuel: usize) -> (r: Ghost<(ActionTree, ActionTree)>)
    ensures
        r@.1 == canonical_action_tree(r@.0, fuel as nat),
    decreases fuel,
{
    match action_shape(a) {
        ActionShape::Disabled => {
            if fuel > 0 {
                if let Some(inner) = disabled_inner(a) {
                    let t = canonicalize_action(inner, fuel - 1);
                    return Ghost((ActionTree::Disabled(Box::new(t@.0)), ActionTree::Disabled(Box::new(t@.1))));
                }
                assert(canonical_action_tree(ActionTree::Other, (fuel - 1) as nat) == ActionTree::Other);
                return Ghost((ActionTree::Disabled(Box::new(ActionTree::Other)), ActionTree::Disabled(Box::new(ActionTree::Other))));
            }
            Ghost((ActionTree::Disabled(Box::new(ActionTree::Other)), ActionTree::Disabled(Box::new(ActionTree::Other))))
        },
        ActionShape::Call { name, args } => {
            let second = match call_argument(a, 1) {
                Some(v) => value_shape(v),
                None => ValueShape::Other,
            };
            let third = match call_argument(a, 2) {
                Some(v) => value_shape(v),
                None => ValueShape::Other,
            };
            let ghost read = ActionTree::Call { name: name@, args, second, third, body: Seq::empty() };
            if !is_debug_hud_call(name.as_str(), args, &second, &third) {
                return Ghost((read, read));
            }
            let n = operands_of(&third);
            let ghost mut before: Seq<ValueTree> = Seq::empty();
            let ghost mut after: Seq<ValueTree> = Seq::empty();
            let mut j: usize = 0;
            while j < n
                invariant
                    j <= n,
                    before.len() == j,
                    after.len() == j,
                    forall|k: int| 0 <= k < j ==> #[trigger] after[k] == canonical_tree(before[k], usize::MAX as nat),
                decreases n - j,
            {
                let mut done = false;
                if let Some(body) = call_argument(a, 2) {
                    if let Some(v) = value_operand(body, j) {
                        let t = canonicalize_strings(v, usize::MAX);
                        proof {
                            let (b0, a0) = (before, after);
                            before = before.push(t@.0);
                            after = after.push(t@.1);
                            assert forall|k: int| 0 <= k < j + 1 implies #[trigger] after[k] == canonical_tree(before[k], usize::MAX as nat) by {
                                if k < j {
                                    assert(after[k] == a0[k] && before[k] == b0[k]);
                                }
                            }
                        }
                        done = true;
                    }
                }
                if !done {
                    proof {
                        lemma_absent_fixed(usize::MAX as nat);
                        let (b0, a0) = (before, after);
                        before = before.push(absent());
                        after = after.push(absent());
                        assert forall|k: int| 0 <= k < j + 1 implies #[trigger] after[k] == canonical_tree(before[k], usize::MAX as nat) by {
                            if k < j {
                                assert(after[k] == a0[k] && before[k] == b0[k]);
                            }
                        }
                    }
                }
                j = j + 1;
            }
            proof {
                assert(after =~= Seq::new(before.len(), |k: int| canonical_tree(before[k], usize::MAX as nat)));
            }
            Ghost((
                ActionTree::Call { name: name@, args, second, third, body: before },
                ActionTree::Call { name: name@, args, second, third, body: after },
            ))
        },
        ActionShape::Other => Ghost((ActionTree::Other, ActionTree::Other)),
    }
}

/// An action as read and as left, when there was one: left as the
/// canonical form of what was read.
pub open spec fn canonical_entry(e: Option<(ActionTree, ActionTree)>) -> bool {
    match e {
        Some((read, left)) => left == canonical_action_tree(read, usize::MAX as nat),
        None => true,
    }
}

/// Canonicalizes the debug HUD strings of every action of every rule.
/// Returns the number of rules it read, the number of actions it read of
/// each rule, and, for each rule and each action index below that number,
/// the action as it read it and as it left it (`None` where the program
/// gave no action at that index). Every rule index below the count, and
/// every action index below each rule's count, has its entry.
fn canonicalize_debug_hud(p: &mut workshop_rs::Program) -> (r: (
    usize,
    Ghost<Seq<usize>>,
    Ghost<Seq<Seq<Option<(ActionTree, ActionTree)>>>>,
))
    ensures
        r.1@.len() == r.0,
        r.2@.len() == r.0,
        forall|i: int| 0 <= i < r.0 ==> #[trigger] r.2@[i].len() == r.1@[i],
        forall|i: int, j: int|
            0 <= i < r.2@.len() && 0 <= j < r.2@[i].len() ==> canonical_entry(#[trigger] r.2@[i][j]),
{
    let ghost mut counts: Seq<usize> = Seq::empty();
    let ghost mut all: Seq<Seq<Option<(ActionTree, ActionTree)>>> = Seq::empty();
    let rules = rule_count(p);
    let mut r: usize = 0;
    while r < rules
        invariant
            r <= rules,
            counts.len() == r,
            all.len() == r,
            forall|i: int| 0 <= i < r ==> #[trigger] all[i].len() == counts[i],
            forall|i: int, j: int|
                0 <= i < all.len() && 0 <= j < all[i].len() ==> canonical_entry(#[trigger] all[i][j]),
        decreases rules - r,
    {
        let ghost mut row: Seq<Option<(ActionTree, ActionTree)>> = Seq::empty();
        let actions = action_count(p, r);
        let mut i: usize = 0;
        while i < actions
            invariant
                i <= actions,
                row.len() == i,
                forall|j: int| 0 <= j < row.len() ==> canonical_entry(#[trigger] row[j]),
            decreases actions - i,
        {
            if let Some(a) = action_at(p, r, i) {
                let t = canonicalize_action(a, usize::MAX);
                proof {
                    row = row.push(Some(t@));
                }
            } else {
                proof {
                    row = row.push(None);
                }
            }
            i = i + 1;
        }
        proof {
            let old_all = all;
            let old_counts = counts;
            all = all.push(row);
            counts = counts.push(actions);
            assert forall|k: int| 0 <= k < r + 1 implies #[trigger] all[k].len() == counts[k] by {
                if k < r {
                    assert(all[k] == old_all[k] && counts[k] == old_counts[k]);
                }
            }
            assert forall|k: int, j: int|
                0 <= k < all.len() && 0 <= j < all[k].len() implies canonical_entry(#[trigger] all[k][j]) by {
                if k < old_all.len() {
                    assert(all[k] == old_all[k]);
                }
            }
        }
        r = r + 1;
    }
    (rules, Ghost(counts), Ghost(all))
}

/// Canonicalizes a program's debug HUD strings (see
/// [`canonicalize_debug_hud`]).
fn canonical_program(p: workshop_rs::Program) -> (r: workshop_rs::Program) {
    let mut p = p;
    let _ = canonicalize_debug_hud(&mut p);
    p
}

fn side_of(r: Result<String, (bool, String)>) -> (s: WorkshopSemanticSide)
    ensures
        match side_view(r) {
            Ok(d) => parsed_side(s, d),
            Err((_, e)) => failed_side(s, e),
        },
{
    match r {
        Ok(d) => WorkshopSemanticSide::parsed(d.as_str()),
        Err((_, e)) => WorkshopSemanticSide::failed(e.as_str()),
    }
}

/// The comparison of two texts with outcomes `a` and `b` (see
/// [`workshop_side_of`]) and equivalence verdict `eq`: a catalog failure
/// fails both sides with it; otherwise each side carries its dump or its
/// error, and the texts are equivalent when both sides have a program and
/// workshop-rs finds the programs equivalent.
pub open spec fn comparison_is(
    c: WorkshopSemanticComparison,
    a: Result<Seq<char>, (bool, Seq<char>)>,
    b: Result<Seq<char>, (bool, Seq<char>)>,
    eq: bool,
) -> bool {
    match (a, b) {
        (Err((true, m)), _) => !c.equivalent && failed_side(c.expected, "catalog initialization failed: "@ + m)
            && failed_side(c.actual, "catalog initialization failed: "@ + m),
        (_, Err((true, m))) => !c.equivalent && failed_side(c.expected, "catalog initialization failed: "@ + m)
            && failed_side(c.actual, "catalog initialization failed: "@ + m),
        _ => {
            &&& match a {
                Ok(d) => parsed_side(c.expected, d),
                Err((_, e)) => failed_side(c.expected, e),
            }
            &&& match b {
                Ok(d) => parsed_side(c.actual, d),
                Err((_, e)) => failed_side(c.actual, e),
            }
            &&& c.equivalent == (a is Ok && b is Ok && eq)
        },
    }
}

/// Compares two Workshop texts for semantic equivalence: each is parsed
/// and validated against the built-in catalog in `en-US`, its debug HUD
/// strings are canonicalized, and workshop-rs's equivalence decides; each
/// side keeps its canonical dump or its error. When the catalog cannot be
/// loaded, both sides carry that failure.
pub fn compare_workshop_texts(expected: &str, actual: &str) -> (c: WorkshopSemanticComparison)
    ensures
        comparison_is(
            c,
            workshop_side_of(expected@),
            workshop_side_of(actual@),
            workshop_equivalent_of(expected@, actual@),
        ),
{
    let (a, b, eq) = compare_canonical(expected, actual);
    if let Err((true, m)) = &a {
        return catalog_failure(m.as_str());
    }
    if let Err((true, m)) = &b {
        return catalog_failure(m.as_str());
    }
    let equivalent = a.is_ok() && b.is_ok() && eq;
    WorkshopSemanticComparison { equivalent, expected: side_of(a), actual: side_of(b) }
}

} // verus!
