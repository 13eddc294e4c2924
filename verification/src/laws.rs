//! What holds of every grammar, every token sequence and every position.

use crate::cursor::span_of;
use crate::error::{ParseETView, ParseErrorView};
use crate::grammar::{bound, node_structured, structured, ListRule, NodeView, Trail};
use crate::span::Span;
use crate::semantics::{budget_at, dispatch, error_at, items_from, run, step, steps_from, Outcome};
use crate::tokens::TokenView;
use crate::transform::{transformed, Transform};
use crate::value::ValueView;
use vstd::prelude::*;

verus! {

/// A rule reads forward and within the input: where it succeeds, the
/// position after it is not before the position where it began, and not
/// beyond the end of the tokens.
pub proof fn lemma_run_reads_forward(
    nodes: Seq<NodeView>,
    tokens: Seq<TokenView>,
    id: nat,
    pos: nat,
    budget: nat,
)
    ensures
        run(nodes, tokens, id, pos, budget) matches Ok((_, end)) ==> pos <= end <= tokens.len(),
    decreases tokens.len() - pos, budget, id, 2nat, 0nat,
{
    if id < nodes.len() && pos <= tokens.len() {
        match nodes[id as int] {
            NodeView::Pattern { label, steps, transform } => {
                lemma_steps_read_forward(
                    nodes,
                    tokens,
                    id,
                    steps,
                    0,
                    pos,
                    budget,
                    pos,
                    Seq::empty(),
                );
            },
            NodeView::Conditional { predicate, pattern } => {
                lemma_step_reads_forward(nodes, tokens, id, pattern as nat, pos, budget, pos);
            },
            NodeView::BranchIfElse { condition, taken, otherwise } => {
                lemma_step_reads_forward(nodes, tokens, id, taken as nat, pos, budget, pos);
                lemma_step_reads_forward(nodes, tokens, id, otherwise as nat, pos, budget, pos);
            },
            NodeView::Match(arms) => {
                lemma_dispatch_reads_forward(nodes, tokens, id, arms, 0, pos, budget);
            },
            NodeView::List(list) => {
                lemma_items_read_forward(nodes, tokens, id, list, pos, budget, pos, Seq::empty());
            },
            NodeView::RefLoop(Some(rule)) => {
                if rule < nodes.len() && budget > 0 {
                    lemma_run_reads_forward(nodes, tokens, rule as nat, pos, (budget - 1) as nat);
                }
            },
            _ => {},
        }
    }
}

/// A step reads forward and within the input.
pub proof fn lemma_step_reads_forward(
    nodes: Seq<NodeView>,
    tokens: Seq<TokenView>,
    id: nat,
    child: nat,
    start: nat,
    budget: nat,
    from: nat,
)
    ensures
        step(nodes, tokens, id, child, start, budget, from) matches Ok((_, end)) ==> start
            <= from <= end <= tokens.len(),
    decreases tokens.len() - start, budget, id, 0nat, 0nat,
{
    if child < id && start <= from <= tokens.len() {
        lemma_run_reads_forward(nodes, tokens, child, from, budget_at(nodes, start, budget, from));
    }
}

/// The steps of a pattern read forward and within the input.
pub proof fn lemma_steps_read_forward(
    nodes: Seq<NodeView>,
    tokens: Seq<TokenView>,
    id: nat,
    steps: Seq<usize>,
    i: nat,
    start: nat,
    budget: nat,
    cur: nat,
    values: Seq<ValueView>,
)
    requires
        start <= cur <= tokens.len(),
    ensures
        steps_from(nodes, tokens, id, steps, i, start, budget, cur, values) matches Ok((_, end))
            ==> cur <= end <= tokens.len(),
    decreases tokens.len() - start, budget, id, 1nat, steps.len() - i,
{
    if i < steps.len() {
        lemma_step_reads_forward(nodes, tokens, id, steps[i as int] as nat, start, budget, cur);
        if let Ok((value, end)) = step(
            nodes,
            tokens,
            id,
            steps[i as int] as nat,
            start,
            budget,
            cur,
        ) {
            lemma_steps_read_forward(
                nodes,
                tokens,
                id,
                steps,
                i + 1,
                start,
                budget,
                end,
                values.push(value),
            );
        }
    }
}

/// A dispatch reads forward and within the input.
pub proof fn lemma_dispatch_reads_forward(
    nodes: Seq<NodeView>,
    tokens: Seq<TokenView>,
    id: nat,
    arms: Seq<(usize, usize)>,
    i: nat,
    pos: nat,
    budget: nat,
)
    ensures
        dispatch(nodes, tokens, id, arms, i, pos, budget) matches Ok((_, end)) ==> pos <= end
            <= tokens.len(),
    decreases tokens.len() - pos, budget, id, 1nat, arms.len() - i,
{
    if i < arms.len() {
        lemma_step_reads_forward(nodes, tokens, id, arms[i as int].1 as nat, pos, budget, pos);
        lemma_dispatch_reads_forward(nodes, tokens, id, arms, i + 1, pos, budget);
    }
}

/// A list reads forward and within the input.
pub proof fn lemma_items_read_forward(
    nodes: Seq<NodeView>,
    tokens: Seq<TokenView>,
    id: nat,
    list: ListRule,
    start: nat,
    budget: nat,
    cur: nat,
    items: Seq<ValueView>,
)
    requires
        start <= cur <= tokens.len(),
    ensures
        items_from(nodes, tokens, id, list, start, budget, cur, items) matches Ok((_, end))
            ==> cur <= end <= tokens.len(),
    decreases tokens.len() - start, budget, id, 1nat, tokens.len() - cur,
{
    lemma_step_reads_forward(nodes, tokens, id, list.item as nat, start, budget, cur);
    if let Ok((item, after_item)) = step(nodes, tokens, id, list.item as nat, start, budget, cur) {
        lemma_step_reads_forward(nodes, tokens, id, list.delim as nat, start, budget, after_item);
        if let Ok((_, next)) = step(
            nodes,
            tokens,
            id,
            list.delim as nat,
            start,
            budget,
            after_item,
        ) {
            if cur < next <= tokens.len() {
                lemma_items_read_forward(
                    nodes,
                    tokens,
                    id,
                    list,
                    start,
                    budget,
                    next,
                    items.push(item),
                );
            }
        }
    }
}


/// From the pair `i` on, a dispatch selects the first pair whose predicate
/// matches.
proof fn lemma_dispatch_skips(
    nodes: Seq<NodeView>,
    tokens: Seq<TokenView>,
    id: nat,
    arms: Seq<(usize, usize)>,
    i: nat,
    first: nat,
    pos: nat,
    budget: nat,
)
    requires
        i <= first < arms.len(),
        step(nodes, tokens, id, arms[first as int].0 as nat, pos, budget, pos) is Ok,
        forall|j: int|
            i <= j < first ==> #[trigger] step(
                nodes,
                tokens,
                id,
                arms[j].0 as nat,
                pos,
                budget,
                pos,
            ) is Err,
    ensures
        dispatch(nodes, tokens, id, arms, i, pos, budget) == step(
            nodes,
            tokens,
            id,
            arms[first as int].1 as nat,
            pos,
            budget,
            pos,
        ),
    decreases first - i,
{
    if i < first {
        assert(step(nodes, tokens, id, arms[i as int].0 as nat, pos, budget, pos) is Err);
        lemma_dispatch_skips(nodes, tokens, id, arms, i + 1, first, pos, budget);
    }
}

/// Dispatch goes by the order of declaration: a dispatch does what the
/// pattern of the first pair whose predicate matches does, whichever later
/// predicates match as well. The pattern runs from the position where the
/// predicates were tried, and its failure is the failure of the dispatch.
pub proof fn lemma_dispatch_order(
    nodes: Seq<NodeView>,
    tokens: Seq<TokenView>,
    id: nat,
    pos: nat,
    budget: nat,
    first: nat,
)
    requires
        id < nodes.len(),
        pos <= tokens.len(),
        nodes[id as int] is Match,
        first < nodes[id as int]->Match_0.len(),
        step(
            nodes,
            tokens,
            id,
            nodes[id as int]->Match_0[first as int].0 as nat,
            pos,
            budget,
            pos,
        ) is Ok,
        forall|j: int|
            0 <= j < first ==> #[trigger] step(
                nodes,
                tokens,
                id,
                nodes[id as int]->Match_0[j].0 as nat,
                pos,
                budget,
                pos,
            ) is Err,
    ensures
        run(nodes, tokens, id, pos, budget) == step(
            nodes,
            tokens,
            id,
            nodes[id as int]->Match_0[first as int].1 as nat,
            pos,
            budget,
            pos,
        ),
{
    lemma_dispatch_skips(nodes, tokens, id, nodes[id as int]->Match_0, 0, first, pos, budget);
}

/// From the pair `i` on, a dispatch none of whose predicates matches fails.
proof fn lemma_dispatch_exhausts(
    nodes: Seq<NodeView>,
    tokens: Seq<TokenView>,
    id: nat,
    arms: Seq<(usize, usize)>,
    i: nat,
    pos: nat,
    budget: nat,
)
    requires
        forall|j: int|
            i <= j < arms.len() ==> #[trigger] step(
                nodes,
                tokens,
                id,
                arms[j].0 as nat,
                pos,
                budget,
                pos,
            ) is Err,
    ensures
        dispatch(nodes, tokens, id, arms, i, pos, budget) == Err::<(ValueView, nat), _>(
            error_at(ParseETView::NoAlternative, tokens, pos),
        ),
    decreases arms.len() - i,
{
    if i < arms.len() {
        assert(step(nodes, tokens, id, arms[i as int].0 as nat, pos, budget, pos) is Err);
        lemma_dispatch_exhausts(nodes, tokens, id, arms, i + 1, pos, budget);
    }
}

/// A dispatch none of whose predicates matches fails at the current token:
/// no alternative is recognized.
pub proof fn lemma_dispatch_without_match(
    nodes: Seq<NodeView>,
    tokens: Seq<TokenView>,
    id: nat,
    pos: nat,
    budget: nat,
)
    requires
        id < nodes.len(),
        pos <= tokens.len(),
        nodes[id as int] is Match,
        forall|j: int|
            0 <= j < nodes[id as int]->Match_0.len() ==> #[trigger] step(
                nodes,
                tokens,
                id,
                nodes[id as int]->Match_0[j].0 as nat,
                pos,
                budget,
                pos,
            ) is Err,
    ensures
        run(nodes, tokens, id, pos, budget) == Err::<(ValueView, nat), _>(
            error_at(ParseETView::NoAlternative, tokens, pos),
        ),
{
    lemma_dispatch_exhausts(nodes, tokens, id, nodes[id as int]->Match_0, 0, pos, budget);
}

/// What the pattern `id` yields at `pos` before its label is put on an
/// error: the values of its steps in order, then its transform on them and
/// on the span that they cover.
pub open spec fn unlabelled(
    nodes: Seq<NodeView>,
    tokens: Seq<TokenView>,
    id: nat,
    pos: nat,
    budget: nat,
) -> Outcome {
    let steps = nodes[id as int]->Pattern_steps;
    let transform = nodes[id as int]->Pattern_transform;
    match steps_from(nodes, tokens, id, steps, 0, pos, budget, pos, Seq::empty()) {
        Ok((values, end)) => match transformed(transform, values, span_of(tokens, pos, end)) {
            Ok(value) => Ok((value, end)),
            Err(e) => Err(e),
        },
        Err(e) => Err(e),
    }
}

/// A failure inside a named pattern comes out with the kind and the
/// location that it had, and with the label of the pattern before the
/// labels that it carried. A success comes out as it is, and so does every
/// outcome of a pattern without a name.
pub proof fn lemma_named_failure(
    nodes: Seq<NodeView>,
    tokens: Seq<TokenView>,
    id: nat,
    pos: nat,
    budget: nat,
)
    requires
        id < nodes.len(),
        pos <= tokens.len(),
        nodes[id as int] is Pattern,
    ensures
        match (nodes[id as int]->Pattern_label, unlabelled(nodes, tokens, id, pos, budget)) {
            (Some(label), Err(e)) => {
                &&& run(nodes, tokens, id, pos, budget) is Err
                &&& run(nodes, tokens, id, pos, budget)->Err_0.et == e.et
                &&& run(nodes, tokens, id, pos, budget)->Err_0.loc == e.loc
                &&& run(nodes, tokens, id, pos, budget)->Err_0.context == seq![label]
                    + e.context
            },
            (_, outcome) => run(nodes, tokens, id, pos, budget) == outcome,
        },
{
}

/// Where the steps of a pattern fail, they fail with the error of one of
/// them as it is: the first step that fails ends the pattern.
pub proof fn lemma_steps_fail_as_a_step(
    nodes: Seq<NodeView>,
    tokens: Seq<TokenView>,
    id: nat,
    steps: Seq<usize>,
    i: nat,
    start: nat,
    budget: nat,
    cur: nat,
    values: Seq<ValueView>,
)
    ensures
        steps_from(nodes, tokens, id, steps, i, start, budget, cur, values) matches Err(e)
            ==> exists|k: int, from: nat|
            i <= k < steps.len() && #[trigger] step(
                nodes,
                tokens,
                id,
                steps[k] as nat,
                start,
                budget,
                from,
            ) == Err::<(ValueView, nat), _>(e),
    decreases steps.len() - i,
{
    if i < steps.len() {
        match step(nodes, tokens, id, steps[i as int] as nat, start, budget, cur) {
            Ok((value, end)) => {
                lemma_steps_fail_as_a_step(
                    nodes,
                    tokens,
                    id,
                    steps,
                    i + 1,
                    start,
                    budget,
                    end,
                    values.push(value),
                );
            },
            Err(e) => {
                assert(step(nodes, tokens, id, steps[i as int] as nat, start, budget, cur)
                    == Err::<(ValueView, nat), _>(e));
            },
        }
    }
}

/// What a list does once it has read an item and a separator and no item
/// follows: under `Never` it fails, with the error of the look ahead for an
/// item; under `Optional` and `Always` it ends after the separator, with
/// the items read so far.
pub proof fn lemma_list_after_last_separator(
    nodes: Seq<NodeView>,
    tokens: Seq<TokenView>,
    id: nat,
    list: ListRule,
    start: nat,
    budget: nat,
    cur: nat,
    items: Seq<ValueView>,
)
    requires
        step(nodes, tokens, id, list.item as nat, start, budget, cur) matches Ok((_, after_item))
            && (list.trail == Trail::Always || step(
            nodes,
            tokens,
            id,
            list.delim_pred as nat,
            start,
            budget,
            after_item,
        ) is Ok) && (step(nodes, tokens, id, list.delim as nat, start, budget, after_item)
            matches Ok((_, next)) && step(
            nodes,
            tokens,
            id,
            list.item_pred as nat,
            start,
            budget,
            next,
        ) is Err),
    ensures
        ({
            let (item, after_item) = step(
                nodes,
                tokens,
                id,
                list.item as nat,
                start,
                budget,
                cur,
            )->Ok_0;
            let next = step(
                nodes,
                tokens,
                id,
                list.delim as nat,
                start,
                budget,
                after_item,
            )->Ok_0.1;
            let refusal = step(nodes, tokens, id, list.item_pred as nat, start, budget, next);
            items_from(nodes, tokens, id, list, start, budget, cur, items) == if list.trail
                == Trail::Never {
                Err::<(ValueView, nat), _>(refusal->Err_0)
            } else {
                Ok((ValueView::List(items.push(item)), next))
            }
        }),
{
}

/// What a list does once it has read an item and no separator follows:
/// under `Always` it fails, with the error of the separator; under `Never`
/// and `Optional` it ends after the item, with the items read so far.
pub proof fn lemma_list_without_separator(
    nodes: Seq<NodeView>,
    tokens: Seq<TokenView>,
    id: nat,
    list: ListRule,
    start: nat,
    budget: nat,
    cur: nat,
    items: Seq<ValueView>,
)
    requires
        step(nodes, tokens, id, list.item as nat, start, budget, cur) matches Ok((_, after_item))
            && if list.trail == Trail::Always {
            step(nodes, tokens, id, list.delim as nat, start, budget, after_item) is Err
        } else {
            step(nodes, tokens, id, list.delim_pred as nat, start, budget, after_item) is Err
        },
    ensures
        ({
            let (item, after_item) = step(
                nodes,
                tokens,
                id,
                list.item as nat,
                start,
                budget,
                cur,
            )->Ok_0;
            let separator = step(nodes, tokens, id, list.delim as nat, start, budget, after_item);
            items_from(nodes, tokens, id, list, start, budget, cur, items) == if list.trail
                == Trail::Always {
                Err::<(ValueView, nat), _>(separator->Err_0)
            } else {
                Ok((ValueView::List(items.push(item)), after_item))
            }
        }),
{
}

/// A look ahead reads nothing: a predicate decides and leaves the position
/// where it was. So an optional rule whose predicate does not match yields
/// nothing at the position where it began, a negated rule that succeeds
/// ends where it began, and the two branches of a choice begin where the
/// condition was tried.
pub proof fn lemma_look_ahead_reads_nothing(
    nodes: Seq<NodeView>,
    tokens: Seq<TokenView>,
    id: nat,
    pos: nat,
    budget: nat,
)
    requires
        id < nodes.len(),
        pos <= tokens.len(),
    ensures
        match nodes[id as int] {
            NodeView::Conditional { predicate, pattern } => if step(
                nodes,
                tokens,
                id,
                predicate as nat,
                pos,
                budget,
                pos,
            ) is Ok {
                match step(nodes, tokens, id, pattern as nat, pos, budget, pos) {
                    Ok((value, end)) => run(nodes, tokens, id, pos, budget) == Ok::<
                        _,
                        ParseErrorView,
                    >((ValueView::Opt(Some(Box::new(value))), end)),
                    Err(e) => run(nodes, tokens, id, pos, budget) == Err::<(ValueView, nat), _>(e),
                }
            } else {
                run(nodes, tokens, id, pos, budget) == Ok::<_, ParseErrorView>(
                    (ValueView::Opt(None), pos),
                )
            },
            NodeView::BranchIfElse { condition, taken, otherwise } => run(
                nodes,
                tokens,
                id,
                pos,
                budget,
            ) == step(
                nodes,
                tokens,
                id,
                if step(nodes, tokens, id, condition as nat, pos, budget, pos) is Ok {
                    taken as nat
                } else {
                    otherwise as nat
                },
                pos,
                budget,
                pos,
            ),
            NodeView::Not(inner) => run(nodes, tokens, id, pos, budget) matches Ok((_, end))
                ==> end == pos && step(nodes, tokens, id, inner as nat, pos, budget, pos) is Err,
            NodeView::Dummy => run(nodes, tokens, id, pos, budget) == Ok::<_, ParseErrorView>(
                (ValueView::Unit, pos),
            ),
            _ => true,
        },
{
}


/// A bound reference does what the rule does to which it is bound, at the
/// cost of one unit of the budget; with none left it fails, at the current
/// token, for want of progress.
pub proof fn lemma_reference_delegates(
    nodes: Seq<NodeView>,
    tokens: Seq<TokenView>,
    id: nat,
    pos: nat,
    budget: nat,
)
    requires
        id < nodes.len(),
        pos <= tokens.len(),
        nodes[id as int] matches NodeView::RefLoop(Some(rule)) && rule < nodes.len(),
    ensures
        run(nodes, tokens, id, pos, budget) == if budget > 0 {
            run(
                nodes,
                tokens,
                nodes[id as int]->RefLoop_0->0 as nat,
                pos,
                (budget - 1) as nat,
            )
        } else {
            Err(error_at(ParseETView::NoProgress, tokens, pos))
        },
{
}

/// No transform fails for an invalid grammar.
proof fn lemma_transform_errors(transform: Transform, kids: Seq<ValueView>, span: Span)
    ensures
        transformed(transform, kids, span) matches Err(e) ==> e.et
            != ParseETView::InvalidGrammar,
{
}

/// A grammar that is structured and bound is valid: no rule of it fails for
/// an invalid grammar, whatever the tokens.
pub proof fn lemma_sound_grammar_is_valid(
    nodes: Seq<NodeView>,
    tokens: Seq<TokenView>,
    id: nat,
    pos: nat,
    budget: nat,
)
    requires
        structured(nodes),
        bound(nodes),
        id < nodes.len(),
        pos <= tokens.len(),
    ensures
        run(nodes, tokens, id, pos, budget) matches Err(e) ==> e.et
            != ParseETView::InvalidGrammar,
    decreases tokens.len() - pos, budget, id, 2nat, 0nat,
{
    assert(node_structured(nodes[id as int], id, nodes.len()));
    match nodes[id as int] {
        NodeView::Pattern { label, steps, transform } => {
            lemma_steps_are_valid(nodes, tokens, id, steps, 0, pos, budget, pos, Seq::empty());
            if let Ok((values, end)) = steps_from(
                nodes,
                tokens,
                id,
                steps,
                0,
                pos,
                budget,
                pos,
                Seq::empty(),
            ) {
                lemma_transform_errors(transform, values, span_of(tokens, pos, end));
            }
        },
        NodeView::Conditional { predicate, pattern } => {
            lemma_step_is_valid(nodes, tokens, id, pattern as nat, pos, budget, pos);
        },
        NodeView::BranchIfElse { condition, taken, otherwise } => {
            lemma_step_is_valid(nodes, tokens, id, taken as nat, pos, budget, pos);
            lemma_step_is_valid(nodes, tokens, id, otherwise as nat, pos, budget, pos);
        },
        NodeView::Match(arms) => {
            lemma_dispatch_is_valid(nodes, tokens, id, arms, 0, pos, budget);
        },
        NodeView::List(list) => {
            lemma_step_is_valid(nodes, tokens, id, list.item_pred as nat, pos, budget, pos);
            lemma_items_are_valid(nodes, tokens, id, list, pos, budget, pos, Seq::empty());
        },
        NodeView::RefLoop(Some(rule)) => {
            if budget > 0 {
                lemma_sound_grammar_is_valid(nodes, tokens, rule as nat, pos, (budget - 1) as nat);
            }
        },
        _ => {},
    }
}

proof fn lemma_step_is_valid(
    nodes: Seq<NodeView>,
    tokens: Seq<TokenView>,
    id: nat,
    child: nat,
    start: nat,
    budget: nat,
    from: nat,
)
    requires
        structured(nodes),
        bound(nodes),
        child < id < nodes.len(),
        start <= from <= tokens.len(),
    ensures
        step(nodes, tokens, id, child, start, budget, from) matches Err(e) ==> e.et
            != ParseETView::InvalidGrammar,
    decreases tokens.len() - start, budget, id, 0nat, 0nat,
{
    lemma_sound_grammar_is_valid(nodes, tokens, child, from, budget_at(nodes, start, budget, from));
}

proof fn lemma_steps_are_valid(
    nodes: Seq<NodeView>,
    tokens: Seq<TokenView>,
    id: nat,
    steps: Seq<usize>,
    i: nat,
    start: nat,
    budget: nat,
    cur: nat,
    values: Seq<ValueView>,
)
    requires
        structured(nodes),
        bound(nodes),
        id < nodes.len(),
        forall|k: int| 0 <= k < steps.len() ==> (#[trigger] steps[k]) < id,
        start <= cur <= tokens.len(),
    ensures
        steps_from(nodes, tokens, id, steps, i, start, budget, cur, values) matches Err(e)
            ==> e.et != ParseETView::InvalidGrammar,
    decreases tokens.len() - start, budget, id, 1nat, steps.len() - i,
{
    if i < steps.len() {
        let child = steps[i as int] as nat;
        lemma_step_is_valid(nodes, tokens, id, child, start, budget, cur);
        lemma_step_reads_forward(nodes, tokens, id, child, start, budget, cur);
        if let Ok((value, end)) = step(nodes, tokens, id, child, start, budget, cur) {
            lemma_steps_are_valid(
                nodes,
                tokens,
                id,
                steps,
                i + 1,
                start,
                budget,
                end,
                values.push(value),
            );
        }
    }
}

proof fn lemma_dispatch_is_valid(
    nodes: Seq<NodeView>,
    tokens: Seq<TokenView>,
    id: nat,
    arms: Seq<(usize, usize)>,
    i: nat,
    pos: nat,
    budget: nat,
)
    requires
        structured(nodes),
        bound(nodes),
        id < nodes.len(),
        forall|k: int| 0 <= k < arms.len() ==> (#[trigger] arms[k]).0 < id && arms[k].1 < id,
        pos <= tokens.len(),
    ensures
        dispatch(nodes, tokens, id, arms, i, pos, budget) matches Err(e) ==> e.et
            != ParseETView::InvalidGrammar,
    decreases tokens.len() - pos, budget, id, 1nat, arms.len() - i,
{
    if i < arms.len() {
        lemma_step_is_valid(nodes, tokens, id, arms[i as int].1 as nat, pos, budget, pos);
        lemma_dispatch_is_valid(nodes, tokens, id, arms, i + 1, pos, budget);
    }
}

proof fn lemma_items_are_valid(
    nodes: Seq<NodeView>,
    tokens: Seq<TokenView>,
    id: nat,
    list: ListRule,
    start: nat,
    budget: nat,
    cur: nat,
    items: Seq<ValueView>,
)
    requires
        structured(nodes),
        bound(nodes),
        id < nodes.len(),
        list.item_pred < id && list.item < id && list.delim_pred < id && list.delim < id,
        start <= cur <= tokens.len(),
    ensures
        items_from(nodes, tokens, id, list, start, budget, cur, items) matches Err(e) ==> e.et
            != ParseETView::InvalidGrammar,
    decreases tokens.len() - start, budget, id, 1nat, tokens.len() - cur,
{
    lemma_step_is_valid(nodes, tokens, id, list.item as nat, start, budget, cur);
    lemma_step_reads_forward(nodes, tokens, id, list.item as nat, start, budget, cur);
    if let Ok((item, after_item)) = step(nodes, tokens, id, list.item as nat, start, budget, cur) {
        lemma_step_is_valid(nodes, tokens, id, list.delim as nat, start, budget, after_item);
        lemma_step_reads_forward(nodes, tokens, id, list.delim as nat, start, budget, after_item);
        if let Ok((_, next)) = step(
            nodes,
            tokens,
            id,
            list.delim as nat,
            start,
            budget,
            after_item,
        ) {
            lemma_step_is_valid(nodes, tokens, id, list.item_pred as nat, start, budget, next);
            if cur < next <= tokens.len() {
                lemma_items_are_valid(
                    nodes,
                    tokens,
                    id,
                    list,
                    start,
                    budget,
                    next,
                    items.push(item),
                );
            }
        }
    }
}

} // verus!
