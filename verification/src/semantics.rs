//! What the rules of a grammar mean: for each rule, each token sequence and
//! each position, the value that the rule yields with the position after
//! it, or the error with which it fails.
//!
//! A step that has read a token is a fresh start. A chain of rules that
//! calls from one to the next at one position can pass through each
//! recursive reference at most once, unless the grammar runs in a circle
//! there. The `budget` counts the references that such a chain may still
//! pass: it starts at the number of rules, and a chain that uses it up has
//! found a circle.

use crate::consumers::{
    mismatch, pick_glued_particle, pick_ident, pick_literal, pick_particle, pick_particle_in,
    pick_this_particle, pick_token, take_one,
};
use crate::cursor::{loc_at, span_of};
use crate::error::{ParseETView, ParseErrorView};
use crate::grammar::{ListRule, NodeView, Trail};
use crate::tokens::TokenView;
use crate::transform::transformed;
use crate::value::ValueView;
use vstd::prelude::*;

verus! {

/// The outcome of a rule: its value and the position after it, or an error.
pub type Outcome = Result<(ValueView, nat), ParseErrorView>;

/// The outcome of a run through a grammar that is not well formed.
pub open spec fn invalid() -> ParseErrorView {
    ParseETView::InvalidGrammar.error()
}

/// The error of a kind `et` raised at `pos`: at the token that stands
/// there, or without a location at the end of the input.
pub open spec fn error_at(et: ParseETView, tokens: Seq<TokenView>, pos: nat) -> ParseErrorView {
    ParseErrorView { et, loc: loc_at(tokens, pos), context: Seq::empty() }
}

/// The outcome of a consumer of one token as the outcome of a rule.
pub open spec fn lifted<T>(
    taken: Result<(T, nat), ParseErrorView>,
    wrap: spec_fn(T) -> ValueView,
) -> Outcome {
    match taken {
        Ok((value, end)) => Ok((wrap(value), end)),
        Err(e) => Err(e),
    }
}

/// An outcome as seen from a rule with the label `label`, if it has one:
/// an error is marked with the label, a success is left as it is.
pub open spec fn labelled(label: Option<Seq<char>>, outcome: Outcome) -> Outcome {
    match (label, outcome) {
        (Some(text), Err(e)) => Err(e.when(text)),
        _ => outcome,
    }
}

/// The budget of a step that begins at `from`, inside a rule that began at
/// `start` with `budget`.
pub open spec fn budget_at(nodes: Seq<NodeView>, start: nat, budget: nat, from: nat) -> nat {
    if from > start {
        nodes.len()
    } else {
        budget
    }
}

/// The outcome of the rule `id` at `pos`.
pub open spec fn run(
    nodes: Seq<NodeView>,
    tokens: Seq<TokenView>,
    id: nat,
    pos: nat,
    budget: nat,
) -> Outcome
    decreases tokens.len() - pos, budget, id, 2nat, 0nat,
{
    if id >= nodes.len() || pos > tokens.len() {
        Err(invalid())
    } else {
        match nodes[id as int] {
            NodeView::GetIdent => lifted(
                take_one(tokens, pos, |t: TokenView| pick_ident(t)),
                |v| ValueView::Ident(v),
            ),
            NodeView::GetLiteral => lifted(
                take_one(tokens, pos, |t: TokenView| pick_literal(t)),
                |v| ValueView::Literal(v),
            ),
            NodeView::GetParticle => lifted(
                take_one(tokens, pos, |t: TokenView| pick_particle(t)),
                |c| ValueView::Char(c),
            ),
            NodeView::GetGluedParticle => lifted(
                take_one(tokens, pos, |t: TokenView| pick_glued_particle(t)),
                |c| ValueView::Char(c),
            ),
            NodeView::Particle(c) => lifted(
                take_one(tokens, pos, pick_this_particle(c)),
                |u| ValueView::Unit,
            ),
            NodeView::ParticleIn(set) => lifted(
                take_one(tokens, pos, pick_particle_in(set)),
                |c| ValueView::Char(c),
            ),
            NodeView::Token(tt) => lifted(
                take_one(tokens, pos, pick_token(tt)),
                |u| ValueView::Unit,
            ),
            NodeView::Dummy => Ok((ValueView::Unit, pos)),
            NodeView::Pattern { label, steps, transform } => labelled(
                label,
                match steps_from(nodes, tokens, id, steps, 0, pos, budget, pos, Seq::empty()) {
                    Ok((values, end)) => match transformed(
                        transform,
                        values,
                        span_of(tokens, pos, end),
                    ) {
                        Ok(value) => Ok((value, end)),
                        Err(e) => Err(e),
                    },
                    Err(e) => Err(e),
                },
            ),
            NodeView::Not(inner) => match step(nodes, tokens, id, inner as nat, pos, budget, pos) {
                Ok(_) => Err(mismatch(tokens, pos)),
                Err(_) => Ok((ValueView::Unit, pos)),
            },
            NodeView::Conditional { predicate, pattern } => match step(
                nodes,
                tokens,
                id,
                predicate as nat,
                pos,
                budget,
                pos,
            ) {
                Ok(_) => match step(nodes, tokens, id, pattern as nat, pos, budget, pos) {
                    Ok((value, end)) => Ok((ValueView::Opt(Some(Box::new(value))), end)),
                    Err(e) => Err(e),
                },
                Err(_) => Ok((ValueView::Opt(None), pos)),
            },
            NodeView::BranchIfElse { condition, taken, otherwise } => if step(
                nodes,
                tokens,
                id,
                condition as nat,
                pos,
                budget,
                pos,
            ) is Ok {
                step(nodes, tokens, id, taken as nat, pos, budget, pos)
            } else {
                step(nodes, tokens, id, otherwise as nat, pos, budget, pos)
            },
            NodeView::Match(arms) => dispatch(nodes, tokens, id, arms, 0, pos, budget),
            NodeView::List(list) => match step(
                nodes,
                tokens,
                id,
                list.item_pred as nat,
                pos,
                budget,
                pos,
            ) {
                Ok(_) => items_from(nodes, tokens, id, list, pos, budget, pos, Seq::empty()),
                Err(e) => if list.non_empty {
                    Err(e)
                } else {
                    Ok((ValueView::List(Seq::empty()), pos))
                },
            },
            NodeView::RefLoop(target) => match target {
                Some(rule) => if rule >= nodes.len() {
                    Err(invalid())
                } else if budget == 0 {
                    Err(error_at(ParseETView::NoProgress, tokens, pos))
                } else {
                    run(nodes, tokens, rule as nat, pos, (budget - 1) as nat)
                },
                None => Err(invalid()),
            },
        }
    }
}

/// The outcome at `from` of the rule `child`, as a step of the rule `id`
/// that began at `start` with `budget`.
pub open spec fn step(
    nodes: Seq<NodeView>,
    tokens: Seq<TokenView>,
    id: nat,
    child: nat,
    start: nat,
    budget: nat,
    from: nat,
) -> Outcome
    decreases tokens.len() - start, budget, id, 0nat, 0nat,
{
    if child < id && start <= from <= tokens.len() {
        run(nodes, tokens, child, from, budget_at(nodes, start, budget, from))
    } else {
        Err(invalid())
    }
}

/// The outcome of the steps of the pattern `id` from the one with index
/// `i` on: `cur` is the position reached and `values` what the steps before
/// have yielded.
pub open spec fn steps_from(
    nodes: Seq<NodeView>,
    tokens: Seq<TokenView>,
    id: nat,
    steps: Seq<usize>,
    i: nat,
    start: nat,
    budget: nat,
    cur: nat,
    values: Seq<ValueView>,
) -> Result<(Seq<ValueView>, nat), ParseErrorView>
    decreases tokens.len() - start, budget, id, 1nat, steps.len() - i,
{
    if i >= steps.len() {
        Ok((values, cur))
    } else {
        match step(nodes, tokens, id, steps[i as int] as nat, start, budget, cur) {
            Ok((value, end)) => steps_from(
                nodes,
                tokens,
                id,
                steps,
                i + 1,
                start,
                budget,
                end,
                values.push(value),
            ),
            Err(e) => Err(e),
        }
    }
}

/// The outcome of the dispatch `id` at `pos`, from the pair with index `i`
/// on: the pattern of the first pair whose predicate matches ahead.
pub open spec fn dispatch(
    nodes: Seq<NodeView>,
    tokens: Seq<TokenView>,
    id: nat,
    arms: Seq<(usize, usize)>,
    i: nat,
    pos: nat,
    budget: nat,
) -> Outcome
    decreases tokens.len() - pos, budget, id, 1nat, arms.len() - i,
{
    if i >= arms.len() {
        Err(error_at(ParseETView::NoAlternative, tokens, pos))
    } else if step(nodes, tokens, id, arms[i as int].0 as nat, pos, budget, pos) is Ok {
        step(nodes, tokens, id, arms[i as int].1 as nat, pos, budget, pos)
    } else {
        dispatch(nodes, tokens, id, arms, i + 1, pos, budget)
    }
}

/// The outcome of the list `id` from an item at `cur` on, where an item is
/// known to follow there: `items` holds the items read before.
pub open spec fn items_from(
    nodes: Seq<NodeView>,
    tokens: Seq<TokenView>,
    id: nat,
    list: ListRule,
    start: nat,
    budget: nat,
    cur: nat,
    items: Seq<ValueView>,
) -> Outcome
    decreases tokens.len() - start, budget, id, 1nat, tokens.len() - cur,
{
    match step(nodes, tokens, id, list.item as nat, start, budget, cur) {
        Ok((item, after_item)) => {
            let items = items.push(item);
            if list.trail == Trail::Always || step(
                nodes,
                tokens,
                id,
                list.delim_pred as nat,
                start,
                budget,
                after_item,
            ) is Ok {
                match step(nodes, tokens, id, list.delim as nat, start, budget, after_item) {
                    Ok((_, next)) => match step(
                        nodes,
                        tokens,
                        id,
                        list.item_pred as nat,
                        start,
                        budget,
                        next,
                    ) {
                        Ok(_) => if cur < next <= tokens.len() {
                            items_from(nodes, tokens, id, list, start, budget, next, items)
                        } else {
                            Err(error_at(ParseETView::NoProgress, tokens, next))
                        },
                        Err(e) => if list.trail == Trail::Never {
                            Err(e)
                        } else {
                            Ok((ValueView::List(items), next))
                        },
                    },
                    Err(e) => Err(e),
                }
            } else {
                Ok((ValueView::List(items), after_item))
            }
        },
        Err(e) => Err(e),
    }
}

} // verus!
