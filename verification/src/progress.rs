//! Grammars that make progress: that never come back to a rule, and never
//! go round a repetition, without having read a token.

use crate::cursor::span_of;
use crate::error::ParseETView;
use crate::grammar::{ListRule, NodeView};
use crate::laws::{lemma_items_read_forward, lemma_run_reads_forward, lemma_step_reads_forward};
use crate::semantics::{budget_at, dispatch, items_from, run, step, steps_from};
use crate::span::Span;
use crate::tokens::TokenView;
use crate::transform::{transformed, Transform};
use crate::value::ValueView;
use vstd::prelude::*;

verus! {

/// What is claimed of a rule: whether it reads a token whenever it
/// succeeds, and how many recursive references it may pass before it reads
/// one.
pub ghost struct Effort {
    pub consuming: bool,
    pub needs: nat,
}

/// Whether the steps before the one with index `i` may all succeed without
/// reading a token.
pub open spec fn idle_before(steps: Seq<usize>, efforts: Seq<Effort>, i: int) -> bool {
    forall|k: int| 0 <= k < i ==> !efforts[(#[trigger] steps[k]) as int].consuming
}

/// Whether the rule `id` keeps what is claimed of it where the rules that
/// it is made of keep what is claimed of them.
pub open spec fn node_productive(nodes: Seq<NodeView>, efforts: Seq<Effort>, id: int) -> bool {
    let own = efforts[id];
    match nodes[id] {
        NodeView::Dummy => !own.consuming,
        NodeView::Not(_) => !own.consuming,
        NodeView::Pattern { steps, .. } => {
            &&& forall|j: int|
                0 <= j < steps.len() && idle_before(steps, efforts, j) ==> efforts[(
                #[trigger] steps[j]) as int].needs <= own.needs
            &&& own.consuming ==> exists|j: int|
                0 <= j < steps.len() && efforts[(#[trigger] steps[j]) as int].consuming
        },
        NodeView::Conditional { pattern, .. } => !own.consuming && efforts[pattern as int].needs
            <= own.needs,
        NodeView::BranchIfElse { taken, otherwise, .. } => {
            &&& efforts[taken as int].needs <= own.needs
            &&& efforts[otherwise as int].needs <= own.needs
            &&& own.consuming ==> efforts[taken as int].consuming
                && efforts[otherwise as int].consuming
        },
        NodeView::Match(arms) => forall|i: int|
            0 <= i < arms.len() ==> efforts[(#[trigger] arms[i]).1 as int].needs <= own.needs
                && (own.consuming ==> efforts[arms[i].1 as int].consuming),
        NodeView::List(list) => {
            &&& efforts[list.item_pred as int].needs <= own.needs
            &&& efforts[list.item as int].needs <= own.needs
            &&& efforts[list.delim as int].needs <= own.needs
            &&& efforts[list.item as int].consuming || efforts[list.delim as int].consuming
            &&& own.consuming ==> list.non_empty && efforts[list.item as int].consuming
        },
        NodeView::RefLoop(Some(rule)) => efforts[rule as int].needs < own.needs && (own.consuming
            ==> efforts[rule as int].consuming),
        NodeView::RefLoop(None) => true,
        _ => true,
    }
}

/// Whether every rule of the grammar keeps what `efforts` claims of it, and
/// none may pass more recursive references than the grammar has rules.
pub open spec fn productive(nodes: Seq<NodeView>, efforts: Seq<Effort>) -> bool {
    &&& efforts.len() == nodes.len()
    &&& forall|id: int|
        0 <= id < nodes.len() ==> node_productive(nodes, efforts, id) && (
        #[trigger] efforts[id]).needs <= nodes.len()
}

/// In a productive grammar a rule that is claimed to read a token does so
/// whenever it succeeds.
pub proof fn lemma_consuming_rule_advances(
    nodes: Seq<NodeView>,
    efforts: Seq<Effort>,
    tokens: Seq<TokenView>,
    id: nat,
    pos: nat,
    budget: nat,
)
    requires
        productive(nodes, efforts),
    ensures
        run(nodes, tokens, id, pos, budget) matches Ok((_, end)) ==> pos <= end <= tokens.len()
            && (efforts[id as int].consuming ==> pos < end),
    decreases tokens.len() - pos, budget, id, 2nat, 0nat,
{
    lemma_run_reads_forward(nodes, tokens, id, pos, budget);
    if id < nodes.len() && pos <= tokens.len() && efforts[id as int].consuming {
        assert(node_productive(nodes, efforts, id as int));
        match nodes[id as int] {
            NodeView::Pattern { label, steps, transform } => {
                let j = choose|j: int|
                    0 <= j < steps.len() && efforts[(#[trigger] steps[j]) as int].consuming;
                lemma_steps_advance(
                    nodes,
                    efforts,
                    tokens,
                    id,
                    steps,
                    0,
                    pos,
                    budget,
                    pos,
                    Seq::empty(),
                    j,
                );
            },
            NodeView::BranchIfElse { condition, taken, otherwise } => {
                lemma_step_advances(nodes, efforts, tokens, id, taken as nat, pos, budget, pos);
                lemma_step_advances(nodes, efforts, tokens, id, otherwise as nat, pos, budget, pos);
            },
            NodeView::Match(arms) => {
                lemma_dispatch_advances(nodes, efforts, tokens, id, arms, 0, pos, budget);
            },
            NodeView::List(list) => {
                lemma_items_advance(
                    nodes,
                    efforts,
                    tokens,
                    id,
                    list,
                    pos,
                    budget,
                    pos,
                    Seq::empty(),
                );
            },
            NodeView::RefLoop(Some(rule)) => {
                if rule < nodes.len() && budget > 0 {
                    lemma_consuming_rule_advances(
                        nodes,
                        efforts,
                        tokens,
                        rule as nat,
                        pos,
                        (budget - 1) as nat,
                    );
                }
            },
            _ => {},
        }
    }
}

proof fn lemma_step_advances(
    nodes: Seq<NodeView>,
    efforts: Seq<Effort>,
    tokens: Seq<TokenView>,
    id: nat,
    child: nat,
    start: nat,
    budget: nat,
    from: nat,
)
    requires
        productive(nodes, efforts),
    ensures
        step(nodes, tokens, id, child, start, budget, from) matches Ok((_, end)) ==> start
            <= from <= end <= tokens.len() && (efforts[child as int].consuming ==> from < end),
    decreases tokens.len() - start, budget, id, 0nat, 0nat,
{
    if child < id && start <= from <= tokens.len() {
        lemma_consuming_rule_advances(
            nodes,
            efforts,
            tokens,
            child,
            from,
            budget_at(nodes, start, budget, from),
        );
    }
}

proof fn lemma_steps_advance(
    nodes: Seq<NodeView>,
    efforts: Seq<Effort>,
    tokens: Seq<TokenView>,
    id: nat,
    steps: Seq<usize>,
    i: nat,
    start: nat,
    budget: nat,
    cur: nat,
    values: Seq<ValueView>,
    j: int,
)
    requires
        productive(nodes, efforts),
        start <= cur <= tokens.len(),
        0 <= j < steps.len(),
        efforts[steps[j] as int].consuming,
    ensures
        steps_from(nodes, tokens, id, steps, i, start, budget, cur, values) matches Ok((_, end))
            ==> cur <= end && (i <= j ==> cur < end),
    decreases tokens.len() - start, budget, id, 1nat, steps.len() - i,
{
    if i < steps.len() {
        let child = steps[i as int] as nat;
        lemma_step_advances(nodes, efforts, tokens, id, child, start, budget, cur);
        if let Ok((value, end)) = step(nodes, tokens, id, child, start, budget, cur) {
            lemma_steps_advance(
                nodes,
                efforts,
                tokens,
                id,
                steps,
                i + 1,
                start,
                budget,
                end,
                values.push(value),
                j,
            );
        }
    }
}

proof fn lemma_dispatch_advances(
    nodes: Seq<NodeView>,
    efforts: Seq<Effort>,
    tokens: Seq<TokenView>,
    id: nat,
    arms: Seq<(usize, usize)>,
    i: nat,
    pos: nat,
    budget: nat,
)
    requires
        productive(nodes, efforts),
        forall|k: int| 0 <= k < arms.len() ==> efforts[(#[trigger] arms[k]).1 as int].consuming,
    ensures
        dispatch(nodes, tokens, id, arms, i, pos, budget) matches Ok((_, end)) ==> pos < end,
    decreases tokens.len() - pos, budget, id, 1nat, arms.len() - i,
{
    if i < arms.len() {
        lemma_step_advances(nodes, efforts, tokens, id, arms[i as int].1 as nat, pos, budget, pos);
        lemma_dispatch_advances(nodes, efforts, tokens, id, arms, i + 1, pos, budget);
    }
}

proof fn lemma_items_advance(
    nodes: Seq<NodeView>,
    efforts: Seq<Effort>,
    tokens: Seq<TokenView>,
    id: nat,
    list: ListRule,
    start: nat,
    budget: nat,
    cur: nat,
    items: Seq<ValueView>,
)
    requires
        productive(nodes, efforts),
        start <= cur <= tokens.len(),
        efforts[list.item as int].consuming,
    ensures
        items_from(nodes, tokens, id, list, start, budget, cur, items) matches Ok((_, end))
            ==> cur < end,
    decreases tokens.len() - start, budget, id, 1nat, tokens.len() - cur,
{
    lemma_items_read_forward(nodes, tokens, id, list, start, budget, cur, items);
    lemma_step_advances(nodes, efforts, tokens, id, list.item as nat, start, budget, cur);
    if let Ok((item, after_item)) = step(nodes, tokens, id, list.item as nat, start, budget, cur) {
        lemma_step_reads_forward(nodes, tokens, id, list.delim as nat, start, budget, after_item);
        if let Ok((_, next)) = step(
            nodes,
            tokens,
            id,
            list.delim as nat,
            start,
            budget,
            after_item,
        ) {
            if cur < next <= tokens.len() {
                lemma_items_read_forward(
                    nodes,
                    tokens,
                    id,
                    list,
                    start,
                    budget,
                    next,
                    items.push(item),
                );
            }
        }
    }
}


/// No transform fails for want of progress.
proof fn lemma_transform_errors(transform: Transform, kids: Seq<ValueView>, span: Span)
    ensures
        transformed(transform, kids, span) matches Err(e) ==> e.et != ParseETView::NoProgress,
{
}

/// A productive grammar makes progress: a rule that is run with a budget
/// for the recursive references that it may pass before it reads a token
/// never fails for want of progress.
pub proof fn lemma_productive_grammar_progresses(
    nodes: Seq<NodeView>,
    efforts: Seq<Effort>,
    tokens: Seq<TokenView>,
    id: nat,
    pos: nat,
    budget: nat,
)
    requires
        productive(nodes, efforts),
        id < nodes.len() ==> efforts[id as int].needs <= budget,
    ensures
        run(nodes, tokens, id, pos, budget) matches Err(e) ==> e.et != ParseETView::NoProgress,
    decreases tokens.len() - pos, budget, id, 2nat, 0nat,
{
    if id < nodes.len() && pos <= tokens.len() {
        assert(node_productive(nodes, efforts, id as int));
        match nodes[id as int] {
            NodeView::Pattern { label, steps, transform } => {
                lemma_steps_progress(
                    nodes,
                    efforts,
                    tokens,
                    id,
                    steps,
                    0,
                    pos,
                    budget,
                    pos,
                    Seq::empty(),
                );
                if let Ok((values, end)) = steps_from(
                    nodes,
                    tokens,
                    id,
                    steps,
                    0,
                    pos,
                    budget,
                    pos,
                    Seq::empty(),
                ) {
                    lemma_transform_errors(transform, values, span_of(tokens, pos, end));
                }
            },
            NodeView::Conditional { predicate, pattern } => {
                lemma_step_progresses(nodes, efforts, tokens, id, pattern as nat, pos, budget, pos);
            },
            NodeView::BranchIfElse { condition, taken, otherwise } => {
                lemma_step_progresses(nodes, efforts, tokens, id, taken as nat, pos, budget, pos);
                lemma_step_progresses(
                    nodes,
                    efforts,
                    tokens,
                    id,
                    otherwise as nat,
                    pos,
                    budget,
                    pos,
                );
            },
            NodeView::Match(arms) => {
                lemma_dispatch_progresses(nodes, efforts, tokens, id, arms, 0, pos, budget);
            },
            NodeView::List(list) => {
                lemma_step_progresses(
                    nodes,
                    efforts,
                    tokens,
                    id,
                    list.item_pred as nat,
                    pos,
                    budget,
                    pos,
                );
                lemma_items_progress(
                    nodes,
                    efforts,
                    tokens,
                    id,
                    list,
                    pos,
                    budget,
                    pos,
                    Seq::empty(),
                );
            },
            NodeView::RefLoop(Some(rule)) => {
                if rule < nodes.len() {
                    lemma_productive_grammar_progresses(
                        nodes,
                        efforts,
                        tokens,
                        rule as nat,
                        pos,
                        (budget - 1) as nat,
                    );
                }
            },
            _ => {},
        }
    }
}

proof fn lemma_step_progresses(
    nodes: Seq<NodeView>,
    efforts: Seq<Effort>,
    tokens: Seq<TokenView>,
    id: nat,
    child: nat,
    start: nat,
    budget: nat,
    from: nat,
)
    requires
        productive(nodes, efforts),
        id < nodes.len(),
        from > start || (child < id ==> efforts[child as int].needs <= budget),
    ensures
        step(nodes, tokens, id, child, start, budget, from) matches Err(e) ==> e.et
            != ParseETView::NoProgress,
    decreases tokens.len() - start, budget, id, 0nat, 0nat,
{
    if child < id && start <= from <= tokens.len() {
        assert(efforts[child as int].needs <= nodes.len());
        lemma_productive_grammar_progresses(
            nodes,
            efforts,
            tokens,
            child,
            from,
            budget_at(nodes, start, budget, from),
        );
    }
}

proof fn lemma_steps_progress(
    nodes: Seq<NodeView>,
    efforts: Seq<Effort>,
    tokens: Seq<TokenView>,
    id: nat,
    steps: Seq<usize>,
    i: nat,
    start: nat,
    budget: nat,
    cur: nat,
    values: Seq<ValueView>,
)
    requires
        productive(nodes, efforts),
        id < nodes.len(),
        start <= cur <= tokens.len(),
        cur > start || idle_before(steps, efforts, i as int),
        forall|j: int|
            0 <= j < steps.len() && idle_before(steps, efforts, j) ==> efforts[(
            #[trigger] steps[j]) as int].needs <= budget,
    ensures
        steps_from(nodes, tokens, id, steps, i, start, budget, cur, values) matches Err(e)
            ==> e.et != ParseETView::NoProgress,
    decreases tokens.len() - start, budget, id, 1nat, steps.len() - i,
{
    if i < steps.len() {
        let child = steps[i as int] as nat;
        lemma_step_progresses(nodes, efforts, tokens, id, child, start, budget, cur);
        lemma_step_advances(nodes, efforts, tokens, id, child, start, budget, cur);
        if let Ok((value, end)) = step(nodes, tokens, id, child, start, budget, cur) {
            if end == start {
                assert(idle_before(steps, efforts, i as int + 1)) by {
                    assert forall|k: int| 0 <= k < i + 1 implies !efforts[(
                    #[trigger] steps[k]) as int].consuming by {
                        if k < i {
                        }
                    }
                }
            }
            lemma_steps_progress(
                nodes,
                efforts,
                tokens,
                id,
                steps,
                i + 1,
                start,
                budget,
                end,
                values.push(value),
            );
        }
    }
}

proof fn lemma_dispatch_progresses(
    nodes: Seq<NodeView>,
    efforts: Seq<Effort>,
    tokens: Seq<TokenView>,
    id: nat,
    arms: Seq<(usize, usize)>,
    i: nat,
    pos: nat,
    budget: nat,
)
    requires
        productive(nodes, efforts),
        id < nodes.len(),
        forall|k: int|
            0 <= k < arms.len() ==> efforts[(#[trigger] arms[k]).1 as int].needs <= budget,
    ensures
        dispatch(nodes, tokens, id, arms, i, pos, budget) matches Err(e) ==> e.et
            != ParseETView::NoProgress,
    decreases tokens.len() - pos, budget, id, 1nat, arms.len() - i,
{
    if i < arms.len() {
        lemma_step_progresses(
            nodes,
            efforts,
            tokens,
            id,
            arms[i as int].1 as nat,
            pos,
            budget,
            pos,
        );
        lemma_dispatch_progresses(nodes, efforts, tokens, id, arms, i + 1, pos, budget);
    }
}

proof fn lemma_items_progress(
    nodes: Seq<NodeView>,
    efforts: Seq<Effort>,
    tokens: Seq<TokenView>,
    id: nat,
    list: ListRule,
    start: nat,
    budget: nat,
    cur: nat,
    items: Seq<ValueView>,
)
    requires
        productive(nodes, efforts),
        id < nodes.len(),
        start <= cur <= tokens.len(),
        efforts[list.item_pred as int].needs <= budget,
        efforts[list.item as int].needs <= budget,
        efforts[list.delim as int].needs <= budget,
        efforts[list.item as int].consuming || efforts[list.delim as int].consuming,
    ensures
        items_from(nodes, tokens, id, list, start, budget, cur, items) matches Err(e) ==> e.et
            != ParseETView::NoProgress,
    decreases tokens.len() - start, budget, id, 1nat, tokens.len() - cur,
{
    lemma_step_progresses(nodes, efforts, tokens, id, list.item as nat, start, budget, cur);
    lemma_step_advances(nodes, efforts, tokens, id, list.item as nat, start, budget, cur);
    if let Ok((item, after_item)) = step(nodes, tokens, id, list.item as nat, start, budget, cur) {
        lemma_step_progresses(
            nodes,
            efforts,
            tokens,
            id,
            list.delim as nat,
            start,
            budget,
            after_item,
        );
        lemma_step_advances(
            nodes,
            efforts,
            tokens,
            id,
            list.delim as nat,
            start,
            budget,
            after_item,
        );
        if let Ok((_, next)) = step(
            nodes,
            tokens,
            id,
            list.delim as nat,
            start,
            budget,
            after_item,
        ) {
            lemma_step_progresses(
                nodes,
                efforts,
                tokens,
                id,
                list.item_pred as nat,
                start,
                budget,
                next,
            );
            assert(cur < next <= tokens.len());
            lemma_items_progress(
                nodes,
                efforts,
                tokens,
                id,
                list,
                start,
                budget,
                next,
                items.push(item),
            );
        }
    }
}


/// The number of rules is budget enough: a rule of a productive grammar
/// that is run with it never fails for want of progress.
pub proof fn lemma_number_of_rules_suffices(
    nodes: Seq<NodeView>,
    efforts: Seq<Effort>,
    tokens: Seq<TokenView>,
    id: nat,
    pos: nat,
)
    requires
        productive(nodes, efforts),
    ensures
        run(nodes, tokens, id, pos, nodes.len()) matches Err(e) ==> e.et
            != ParseETView::NoProgress,
{
    if id < nodes.len() {
        assert(efforts[id as int].needs <= nodes.len());
    }
    lemma_productive_grammar_progresses(nodes, efforts, tokens, id, pos, nodes.len());
}

} // verus!
