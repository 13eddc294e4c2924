//! The kinds of value that rules yield, and the grammars in which every
//! transform is given values that it can take.

use crate::cursor::span_of;
use crate::error::{ParseETView, ParseErrorView};
use crate::grammar::{ListRule, NodeView};
use crate::semantics::{budget_at, dispatch, items_from, run, step, steps_from};
use crate::span::Span;
use crate::tokens::TokenView;
use crate::transform::{transformed, Transform};
use crate::value::ValueView;
use vstd::prelude::*;

verus! {

/// A kind of value.
pub ghost enum Kind {
    /// Every value.
    Any,
    Unit,
    Char,
    Ident,
    Literal,
    /// Nothing, or a value of the kind given.
    Opt(Box<Kind>),
    /// A list of values of the kind given.
    List(Box<Kind>),
    Item,
    Type,
    TypeT,
    FullType,
    Arg,
    Operator,
    /// An operator, or the unit value where there is none.
    MaybeOperator,
    Expr,
    Expression,
    /// An expression or an operator: a part of a flat expression.
    Part,
    Stmt,
    Statement,
    Block,
    Func,
    Funcs,
}

/// Whether `value` is of the kind `kind`.
pub open spec fn has_kind(value: ValueView, kind: Kind) -> bool
    decreases kind,
{
    match kind {
        Kind::Any => true,
        Kind::Unit => value is Unit,
        Kind::Char => value is Char,
        Kind::Ident => value is Ident,
        Kind::Literal => value is Literal,
        Kind::Opt(inner) => value is Opt && (value->Opt_0 matches Some(held) ==> has_kind(
            *held,
            *inner,
        )),
        Kind::List(inner) => value is List && forall|i: int|
            0 <= i < value->List_0.len() ==> has_kind(#[trigger] value->List_0[i], *inner),
        Kind::Item => value is Item,
        Kind::Type => value is Type,
        Kind::TypeT => value is TypeT,
        Kind::FullType => value is FullType,
        Kind::Arg => value is Arg,
        Kind::Operator => value is Operator,
        Kind::MaybeOperator => value is Operator || value is Unit,
        Kind::Expr => value is Expr,
        Kind::Expression => value is Expression,
        Kind::Part => value is Expression || value is Operator,
        Kind::Stmt => value is Stmt,
        Kind::Statement => value is Statement,
        Kind::Block => value is Block,
        Kind::Func => value is Func,
        Kind::Funcs => value is Funcs,
    }
}

/// Whether every value of the kind `kind` is of the kind `wanted` as well.
pub open spec fn fits(kind: Kind, wanted: Kind) -> bool {
    ||| kind == wanted
    ||| wanted == Kind::Any
    ||| wanted == Kind::Part && (kind == Kind::Expression || kind == Kind::Operator)
    ||| wanted == Kind::MaybeOperator && (kind == Kind::Operator || kind == Kind::Unit)
}

/// A list of values of the kind given.
pub open spec fn list_of_kind(kind: Kind) -> Kind {
    Kind::List(Box::new(kind))
}

/// Nothing, or a value of the kind given.
pub open spec fn opt_of_kind(kind: Kind) -> Kind {
    Kind::Opt(Box::new(kind))
}

/// The kind of value that `transform` makes of values of the kinds `kids`;
/// none where it cannot take values of those kinds.
pub open spec fn result_kind(transform: Transform, kids: Seq<Kind>) -> Option<Kind> {
    match transform {
        Transform::Unit => Some(Kind::Unit),
        Transform::Pick(i) => if i < kids.len() {
            Some(kids[i as int])
        } else {
            None
        },
        Transform::Item => if kids.len() == 1 && kids[0] == list_of_kind(Kind::Ident) {
            Some(Kind::Item)
        } else {
            None
        },
        Transform::OrEmpty => if kids.len() == 1 && kids[0] is Opt && *kids[0]->Opt_0 is List {
            Some(*kids[0]->Opt_0)
        } else {
            None
        },
        Transform::Type => if kids.len() == 2 && kids[0] == Kind::Item && kids[1]
            == list_of_kind(Kind::FullType) {
            Some(Kind::Type)
        } else {
            None
        },
        Transform::Single => if kids.len() == 1 && kids[0] == Kind::Type {
            Some(Kind::TypeT)
        } else {
            None
        },
        Transform::Tuple => if kids.len() == 3 && kids[1] == list_of_kind(Kind::FullType) {
            Some(Kind::TypeT)
        } else {
            None
        },
        Transform::FullType => if kids.len() == 1 && kids[0] == Kind::TypeT {
            Some(Kind::FullType)
        } else {
            None
        },
        Transform::OrUnitType => if kids.len() == 1 && kids[0] == opt_of_kind(Kind::FullType) {
            Some(Kind::FullType)
        } else {
            None
        },
        Transform::Arg => if kids.len() == 3 && kids[0] == Kind::Ident && kids[2]
            == Kind::FullType {
            Some(Kind::Arg)
        } else {
            None
        },
        Transform::LiteralExpr => if kids.len() == 1 && kids[0] == Kind::Literal {
            Some(Kind::Expression)
        } else {
            None
        },
        Transform::VariableExpr => if kids.len() == 1 && kids[0] == Kind::Ident {
            Some(Kind::Expression)
        } else {
            None
        },
        Transform::Located => if kids.len() == 1 && kids[0] == Kind::Expr {
            Some(Kind::Expression)
        } else {
            None
        },
        Transform::OperatorRun => if kids.len() >= 2 && kids[0] == Kind::Char && kids[1]
            == list_of_kind(Kind::Char) {
            Some(Kind::Operator)
        } else {
            None
        },
        Transform::FoldExpression => if kids.len() == 1 && kids[0] == list_of_kind(Kind::Part) {
            Some(Kind::Expression)
        } else {
            None
        },
        Transform::Call => if kids.len() == 4 && kids[0] == Kind::Item && kids[2]
            == list_of_kind(Kind::Expression) {
            Some(Kind::Expr)
        } else {
            None
        },
        Transform::VarCreate => if kids.len() == 6 && kids[1] is Opt && kids[2] == Kind::Item
            && kids[3] == opt_of_kind(Kind::FullType) && kids[5] == Kind::Expression {
            Some(Kind::Stmt)
        } else {
            None
        },
        Transform::VarAssign => if kids.len() == 3 && kids[0] == Kind::Item && kids[1]
            == Kind::MaybeOperator && kids[2] == Kind::Expression {
            Some(Kind::Stmt)
        } else {
            None
        },
        Transform::ExprStmt => if kids.len() == 1 && kids[0] == Kind::Expr {
            Some(Kind::Stmt)
        } else {
            None
        },
        Transform::Statement => if kids.len() == 2 && kids[0] == Kind::Stmt {
            Some(Kind::Statement)
        } else {
            None
        },
        Transform::Block => if kids.len() == 1 && kids[0] == list_of_kind(Kind::Statement) {
            Some(Kind::Block)
        } else {
            None
        },
        Transform::Func => if kids.len() == 9 && kids[1] == Kind::Ident && kids[3]
            == list_of_kind(Kind::Arg) && kids[5] == Kind::FullType && kids[7] == Kind::Block {
            Some(Kind::Func)
        } else {
            None
        },
        Transform::Funcs => if kids.len() == 1 && kids[0] == list_of_kind(Kind::Func) {
            Some(Kind::Funcs)
        } else {
            None
        },
    }
}

/// Whether the values are of the kinds, one by one.
pub open spec fn have_kinds(values: Seq<ValueView>, kinds: Seq<Kind>) -> bool {
    &&& values.len() == kinds.len()
    &&& forall|i: int| 0 <= i < values.len() ==> has_kind(#[trigger] values[i], kinds[i])
}

/// A value of a kind is of every kind that the kind fits.
pub proof fn lemma_fits(value: ValueView, kind: Kind, wanted: Kind)
    requires
        has_kind(value, kind),
        fits(kind, wanted),
    ensures
        has_kind(value, wanted),
{
}


/// A transform that is given values of kinds that it can take does not
/// fail for their shape, and makes of them a value of the kind that it
/// promises.
pub proof fn lemma_transform_takes_its_kinds(
    transform: Transform,
    kids: Seq<ValueView>,
    kinds: Seq<Kind>,
    span: Span,
)
    requires
        have_kinds(kids, kinds),
        result_kind(transform, kinds) is Some,
    ensures
        match transformed(transform, kids, span) {
            Ok(value) => has_kind(value, result_kind(transform, kinds)->0),
            Err(e) => e.et != ParseETView::Malformed,
        },
{
    reveal_with_fuel(has_kind, 3);
    if kids.len() > 0 {
        assert(has_kind(kids[0], kinds[0]));
    }
    if kids.len() > 1 {
        assert(has_kind(kids[1], kinds[1]));
    }
    if kids.len() > 2 {
        assert(has_kind(kids[2], kinds[2]));
    }
    if kids.len() > 3 {
        assert(has_kind(kids[3], kinds[3]));
    }
    if kids.len() > 5 {
        assert(has_kind(kids[5], kinds[5]));
    }
    if kids.len() > 7 {
        assert(has_kind(kids[7], kinds[7]));
    }
    match transform {
        Transform::Pick(i) => {
            assert(has_kind(kids[i as int], kinds[i as int]));
        },
        _ => {},
    }
}


/// The kinds of the values that the steps of a pattern yield, where each
/// rule yields a value of its kind.
pub open spec fn step_kinds(steps: Seq<usize>, kinds: Seq<Kind>) -> Seq<Kind> {
    Seq::new(steps.len(), |i: int| kinds[steps[i] as int])
}

/// Whether the rule `id` yields values of its kind where the rules that it
/// is made of yield values of theirs, and gives its transform, if it has
/// one, values that the transform can take.
pub open spec fn node_typed(nodes: Seq<NodeView>, kinds: Seq<Kind>, id: int) -> bool {
    let kind = kinds[id];
    match nodes[id] {
        NodeView::GetIdent => fits(Kind::Ident, kind),
        NodeView::GetLiteral => fits(Kind::Literal, kind),
        NodeView::GetParticle => fits(Kind::Char, kind),
        NodeView::GetGluedParticle => fits(Kind::Char, kind),
        NodeView::ParticleIn(_) => fits(Kind::Char, kind),
        NodeView::Particle(_) => fits(Kind::Unit, kind),
        NodeView::Token(_) => fits(Kind::Unit, kind),
        NodeView::Dummy => fits(Kind::Unit, kind),
        NodeView::Not(_) => fits(Kind::Unit, kind),
        NodeView::Pattern { steps, transform, .. } => result_kind(
            transform,
            step_kinds(steps, kinds),
        ) matches Some(made) && fits(made, kind),
        NodeView::Conditional { pattern, .. } => fits(opt_of_kind(kinds[pattern as int]), kind),
        NodeView::BranchIfElse { taken, otherwise, .. } => fits(kinds[taken as int], kind)
            && fits(kinds[otherwise as int], kind),
        NodeView::Match(arms) => forall|i: int|
            0 <= i < arms.len() ==> fits(kinds[(#[trigger] arms[i]).1 as int], kind),
        NodeView::List(list) => fits(list_of_kind(kinds[list.item as int]), kind),
        NodeView::RefLoop(Some(rule)) => fits(kinds[rule as int], kind),
        NodeView::RefLoop(None) => true,
    }
}

/// Whether `kinds` gives every rule of the grammar a kind that it keeps.
pub open spec fn typed(nodes: Seq<NodeView>, kinds: Seq<Kind>) -> bool {
    &&& kinds.len() == nodes.len()
    &&& forall|id: int| 0 <= id < nodes.len() ==> node_typed(nodes, kinds, id)
}

/// Whether a rule did what its kind promises: where it succeeds its value
/// is of the kind, and where it fails it does not fail for the shape of a
/// value.
pub open spec fn keeps_kind(outcome: Result<(ValueView, nat), ParseErrorView>, kind: Kind) -> bool {
    match outcome {
        Ok((value, _)) => has_kind(value, kind),
        Err(e) => e.et != ParseETView::Malformed,
    }
}

/// In a typed grammar every rule keeps its kind: no transform is ever
/// given values of a shape that it cannot take.
pub proof fn lemma_typed_grammar_keeps_kinds(
    nodes: Seq<NodeView>,
    kinds: Seq<Kind>,
    tokens: Seq<TokenView>,
    id: nat,
    pos: nat,
    budget: nat,
)
    requires
        typed(nodes, kinds),
    ensures
        keeps_kind(run(nodes, tokens, id, pos, budget), kinds[id as int]),
    decreases tokens.len() - pos, budget, id, 2nat, 0nat,
{
    reveal_with_fuel(has_kind, 2);
    if id < nodes.len() && pos <= tokens.len() {
        assert(node_typed(nodes, kinds, id as int));
        let kind = kinds[id as int];
        match nodes[id as int] {
            NodeView::Pattern { label, steps, transform } => {
                lemma_typed_steps(
                    nodes,
                    kinds,
                    tokens,
                    id,
                    steps,
                    0,
                    pos,
                    budget,
                    pos,
                    Seq::empty(),
                );
                if let Ok((values, end)) = steps_from(
                    nodes,
                    tokens,
                    id,
                    steps,
                    0,
                    pos,
                    budget,
                    pos,
                    Seq::empty(),
                ) {
                    lemma_transform_takes_its_kinds(
                        transform,
                        values,
                        step_kinds(steps, kinds),
                        span_of(tokens, pos, end),
                    );
                    if let Ok(value) = transformed(transform, values, span_of(tokens, pos, end)) {
                        lemma_fits(
                            value,
                            result_kind(transform, step_kinds(steps, kinds))->0, kind,
                        );
                    }
                }
            },
            NodeView::Conditional { predicate, pattern } => {
                lemma_typed_step(nodes, kinds, tokens, id, pattern as nat, pos, budget, pos);
            },
            NodeView::BranchIfElse { condition, taken, otherwise } => {
                lemma_typed_step(nodes, kinds, tokens, id, taken as nat, pos, budget, pos);
                lemma_typed_step(nodes, kinds, tokens, id, otherwise as nat, pos, budget, pos);
                if let Ok((value, _)) = step(nodes, tokens, id, taken as nat, pos, budget, pos) {
                    lemma_fits(value, kinds[taken as int], kind);
                }
                if let Ok((value, _)) = step(
                    nodes,
                    tokens,
                    id,
                    otherwise as nat,
                    pos,
                    budget,
                    pos,
                ) {
                    lemma_fits(value, kinds[otherwise as int], kind);
                }
            },
            NodeView::Match(arms) => {
                lemma_typed_dispatch(nodes, kinds, tokens, id, arms, 0, pos, budget, kind);
            },
            NodeView::List(list) => {
                lemma_typed_step(nodes, kinds, tokens, id, list.item_pred as nat, pos, budget, pos);
                lemma_typed_items(
                    nodes,
                    kinds,
                    tokens,
                    id,
                    list,
                    pos,
                    budget,
                    pos,
                    Seq::empty(),
                );
            },
            NodeView::RefLoop(Some(rule)) => {
                if rule < nodes.len() && budget > 0 {
                    lemma_typed_grammar_keeps_kinds(
                        nodes,
                        kinds,
                        tokens,
                        rule as nat,
                        pos,
                        (budget - 1) as nat,
                    );
                    if let Ok((value, _)) = run(
                        nodes,
                        tokens,
                        rule as nat,
                        pos,
                        (budget - 1) as nat,
                    ) {
                        lemma_fits(value, kinds[rule as int], kind);
                    }
                }
            },
            _ => {},
        }
    }
}

proof fn lemma_typed_step(
    nodes: Seq<NodeView>,
    kinds: Seq<Kind>,
    tokens: Seq<TokenView>,
    id: nat,
    child: nat,
    start: nat,
    budget: nat,
    from: nat,
)
    requires
        typed(nodes, kinds),
    ensures
        keeps_kind(step(nodes, tokens, id, child, start, budget, from), kinds[child as int]),
    decreases tokens.len() - start, budget, id, 0nat, 0nat,
{
    if child < id && start <= from <= tokens.len() {
        lemma_typed_grammar_keeps_kinds(
            nodes,
            kinds,
            tokens,
            child,
            from,
            budget_at(nodes, start, budget, from),
        );
    }
}

proof fn lemma_typed_steps(
    nodes: Seq<NodeView>,
    kinds: Seq<Kind>,
    tokens: Seq<TokenView>,
    id: nat,
    steps: Seq<usize>,
    i: nat,
    start: nat,
    budget: nat,
    cur: nat,
    values: Seq<ValueView>,
)
    requires
        typed(nodes, kinds),
        values.len() == i <= steps.len(),
        forall|j: int| 0 <= j < i ==> has_kind(#[trigger] values[j], kinds[steps[j] as int]),
    ensures
        match steps_from(nodes, tokens, id, steps, i, start, budget, cur, values) {
            Ok((all, _)) => have_kinds(all, step_kinds(steps, kinds)),
            Err(e) => e.et != ParseETView::Malformed,
        },
    decreases tokens.len() - start, budget, id, 1nat, steps.len() - i,
{
    if i < steps.len() {
        let child = steps[i as int] as nat;
        lemma_typed_step(nodes, kinds, tokens, id, child, start, budget, cur);
        if let Ok((value, end)) = step(nodes, tokens, id, child, start, budget, cur) {
            let grown = values.push(value);
            assert forall|j: int| 0 <= j < i + 1 implies has_kind(
                #[trigger] grown[j],
                kinds[steps[j] as int],
            ) by {
                if j < i {
                    assert(grown[j] == values[j]);
                }
            }
            lemma_typed_steps(nodes, kinds, tokens, id, steps, i + 1, start, budget, end, grown);
        }
    }
}

proof fn lemma_typed_dispatch(
    nodes: Seq<NodeView>,
    kinds: Seq<Kind>,
    tokens: Seq<TokenView>,
    id: nat,
    arms: Seq<(usize, usize)>,
    i: nat,
    pos: nat,
    budget: nat,
    kind: Kind,
)
    requires
        typed(nodes, kinds),
        forall|j: int| 0 <= j < arms.len() ==> fits(kinds[(#[trigger] arms[j]).1 as int], kind),
    ensures
        keeps_kind(dispatch(nodes, tokens, id, arms, i, pos, budget), kind),
    decreases tokens.len() - pos, budget, id, 1nat, arms.len() - i,
{
    if i < arms.len() {
        let pattern = arms[i as int].1 as nat;
        lemma_typed_step(nodes, kinds, tokens, id, pattern, pos, budget, pos);
        if let Ok((value, _)) = step(nodes, tokens, id, pattern, pos, budget, pos) {
            lemma_fits(value, kinds[pattern as int], kind);
        }
        lemma_typed_dispatch(nodes, kinds, tokens, id, arms, i + 1, pos, budget, kind);
    }
}

proof fn lemma_typed_items(
    nodes: Seq<NodeView>,
    kinds: Seq<Kind>,
    tokens: Seq<TokenView>,
    id: nat,
    list: ListRule,
    start: nat,
    budget: nat,
    cur: nat,
    items: Seq<ValueView>,
)
    requires
        typed(nodes, kinds),
        forall|j: int|
            0 <= j < items.len() ==> has_kind(#[trigger] items[j], kinds[list.item as int]),
    ensures
        keeps_kind(
            items_from(nodes, tokens, id, list, start, budget, cur, items),
            list_of_kind(kinds[list.item as int]),
        ),
    decreases tokens.len() - start, budget, id, 1nat, tokens.len() - cur,
{
    reveal_with_fuel(has_kind, 2);
    lemma_typed_step(nodes, kinds, tokens, id, list.item as nat, start, budget, cur);
    if let Ok((item, after_item)) = step(nodes, tokens, id, list.item as nat, start, budget, cur) {
        let grown = items.push(item);
        assert forall|j: int| 0 <= j < grown.len() implies has_kind(
            #[trigger] grown[j],
            kinds[list.item as int],
        ) by {
            if j < items.len() {
                assert(grown[j] == items[j]);
            }
        }
        lemma_typed_step(
            nodes,
            kinds,
            tokens,
            id,
            list.delim_pred as nat,
            start,
            budget,
            after_item,
        );
        lemma_typed_step(nodes, kinds, tokens, id, list.delim as nat, start, budget, after_item);
        if let Ok((_, next)) = step(
            nodes,
            tokens,
            id,
            list.delim as nat,
            start,
            budget,
            after_item,
        ) {
            lemma_typed_step(nodes, kinds, tokens, id, list.item_pred as nat, start, budget, next);
            if cur < next <= tokens.len() {
                lemma_typed_items(nodes, kinds, tokens, id, list, start, budget, next, grown);
            }
        }
    }
}

} // verus!
