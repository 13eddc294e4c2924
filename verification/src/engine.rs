//! Running the rules of a grammar on a token cursor.

use crate::consumers::{
    get_glued_particle, get_ident, get_literal, get_particle, particle, particle_in, token,
};
use crate::cursor::TokIter;
use crate::error::{ParseET, ParseError};
use crate::grammar::{bound, node_structured, structured, Grammar, ListRule, Node, Trail};
use crate::semantics::{dispatch, items_from, run, step, steps_from, Outcome};
use crate::transform::apply;
use crate::value::{lemma_list_view, lemma_opt_view, value_views, Value};
use vstd::prelude::*;

verus! {

/// Whether a rule did on the cursor what `outcome` says: on success it
/// yields the value and leaves the cursor after what it read; on failure it
/// yields the error, and where the cursor stands is left open. The tokens
/// stay as they are either way.
pub open spec fn ran(
    res: Result<Value, ParseError>,
    before: TokIter,
    after: TokIter,
    outcome: Outcome,
) -> bool {
    &&& after.tokens() == before.tokens()
    &&& match outcome {
        Ok((value, end)) => res is Ok && res->Ok_0@ == value && after.position() == end
            && before.position() <= end,
        Err(e) => res is Err && res->Err_0@ == e,
    }
}

impl Grammar {
    /// Parses with the rule `id` at the cursor. On success the cursor stands
    /// after what the rule read; on failure, where it stands is left open.
    ///
    /// Every recursive reference must have been bound.
    pub fn parse(&self, id: usize, iter: &mut TokIter) -> (res: Result<Value, ParseError>)
        requires
            structured(self@),
            bound(self@),
            id < self@.len(),
        ensures
            ran(
                res,
                *old(iter),
                *final(iter),
                run(self@, old(iter).tokens(), id as nat, old(iter).position(), self@.len()),
            ),
    {
        self.run(id, iter, self.len())
    }

    /// Runs the rule `id` on the cursor. `budget` bounds the recursive
    /// references that may be passed before a token is read; the number of
    /// rules is enough for every grammar that makes progress.
    pub fn run(&self, id: usize, iter: &mut TokIter, budget: usize) -> (res: Result<
        Value,
        ParseError,
    >)
        requires
            structured(self@),
            bound(self@),
            id < self@.len(),
        ensures
            ran(
                res,
                *old(iter),
                *final(iter),
                run(self@, old(iter).tokens(), id as nat, old(iter).position(), budget as nat),
            ),
        decreases old(iter).tokens().len() - old(iter).position(), budget, id, 2nat, 0nat,
    {
        let start = iter.mark();
        assert(node_structured(self@[id as int], id as nat, self@.len()));
        match self.node(id) {
            Node::GetIdent => match get_ident(iter) {
                Ok(ident) => Ok(Value::Ident(ident)),
                Err(e) => Err(e),
            },
            Node::GetLiteral => match get_literal(iter) {
                Ok(lit) => Ok(Value::Literal(lit)),
                Err(e) => Err(e),
            },
            Node::GetParticle => match get_particle(iter) {
                Ok(c) => Ok(Value::Char(c)),
                Err(e) => Err(e),
            },
            Node::GetGluedParticle => match get_glued_particle(iter) {
                Ok(c) => Ok(Value::Char(c)),
                Err(e) => Err(e),
            },
            Node::Particle(c) => match particle(iter, *c) {
                Ok(_) => Ok(Value::Unit),
                Err(e) => Err(e),
            },
            Node::ParticleIn(set) => match particle_in(iter, set) {
                Ok(c) => Ok(Value::Char(c)),
                Err(e) => Err(e),
            },
            Node::Token(tt) => match token(iter, tt) {
                Ok(_) => Ok(Value::Unit),
                Err(e) => Err(e),
            },
            Node::Dummy => Ok(Value::Unit),
            Node::Pattern { label, steps, transform } => {
                let res = match self.run_steps(id, steps, start, budget, iter) {
                    Ok(values) => apply(*transform, values, iter.span_from(start)),
                    Err(e) => Err(e),
                };
                match (label, res) {
                    (Some(text), Err(e)) => Err(e.when(text.as_str())),
                    (_, res) => res,
                }
            },
            Node::Not(inner) => match self.look(id, *inner, start, budget, iter) {
                Ok(_) => Err(
                    match iter.this() {
                        Ok(found) => ParseET::UnexpectedToken.at(found.loc),
                        Err(e) => e,
                    },
                ),
                Err(_) => Ok(Value::Unit),
            },
            Node::Conditional { predicate, pattern } => {
                match self.look(id, *predicate, start, budget, iter) {
                    Ok(_) => match self.step(id, *pattern, start, budget, iter) {
                        Ok(value) => {
                            let inner = Some(Box::new(value));
                            proof {
                                lemma_opt_view(inner);
                            }
                            Ok(Value::Opt(inner))
                        },
                        Err(e) => Err(e),
                    },
                    Err(_) => {
                        proof {
                            lemma_opt_view(None);
                        }
                        Ok(Value::Opt(None))
                    },
                }
            },
            Node::BranchIfElse { condition, taken, otherwise } => {
                match self.look(id, *condition, start, budget, iter) {
                    Ok(_) => self.step(id, *taken, start, budget, iter),
                    Err(_) => self.step(id, *otherwise, start, budget, iter),
                }
            },
            Node::Match(arms) => self.run_match(id, arms, start, budget, iter),
            Node::List(list) => match self.look(id, list.item_pred, start, budget, iter) {
                Ok(_) => self.run_list(id, *list, start, budget, iter),
                Err(e) => if list.non_empty {
                    Err(e)
                } else {
                    let items: Vec<Value> = Vec::new();
                    proof {
                        lemma_list_view(items);
                        assert(value_views(items@) =~= Seq::empty());
                    }
                    Ok(Value::List(items))
                },
            },
            Node::RefLoop(target) => match target {
                Some(rule) => if budget == 0 {
                    Err(ParseET::NoProgress.at_opt(iter.loc()))
                } else {
                    self.run(*rule, iter, budget - 1)
                },
                None => Err(ParseET::InvalidGrammar.error()),
            },
        }
    }

    /// Runs the rule `child` as a step of the rule `id`, which began at
    /// `start` with `budget`.
    fn step(
        &self,
        id: usize,
        child: usize,
        start: usize,
        budget: usize,
        iter: &mut TokIter,
    ) -> (res: Result<Value, ParseError>)
        requires
            structured(self@),
            bound(self@),
            child < id < self@.len(),
            start <= old(iter).position(),
        ensures
            ran(
                res,
                *old(iter),
                *final(iter),
                step(
                    self@,
                    old(iter).tokens(),
                    id as nat,
                    child as nat,
                    start as nat,
                    budget as nat,
                    old(iter).position(),
                ),
            ),
        decreases old(iter).tokens().len() - start, budget, id, 0nat, 0nat,
    {
        let budget = if iter.mark() > start {
            self.len()
        } else {
            budget
        };
        self.run(child, iter, budget)
    }

    /// Tries the rule `child` ahead, as a step of the rule `id`, and leaves
    /// the cursor where it was: tells whether the rule matches there, and
    /// with which error it does not.
    fn look(
        &self,
        id: usize,
        child: usize,
        start: usize,
        budget: usize,
        iter: &mut TokIter,
    ) -> (res: Result<(), ParseError>)
        requires
            structured(self@),
            bound(self@),
            child < id < self@.len(),
            start <= old(iter).position(),
        ensures
            final(iter).tokens() == old(iter).tokens(),
            final(iter).position() == old(iter).position(),
            match step(
                self@,
                old(iter).tokens(),
                id as nat,
                child as nat,
                start as nat,
                budget as nat,
                old(iter).position(),
            ) {
                Ok(_) => res is Ok,
                Err(e) => res is Err && res->Err_0@ == e,
            },
        decreases old(iter).tokens().len() - start, budget, id, 0nat, 1nat,
    {
        let mark = iter.mark();
        let res = self.step(id, child, start, budget, iter);
        iter.restore(mark);
        match res {
            Ok(_) => Ok(()),
            Err(e) => Err(e),
        }
    }

    /// Runs the steps of the pattern `id` in order and collects their
    /// values.
    fn run_steps(
        &self,
        id: usize,
        steps: &Vec<usize>,
        start: usize,
        budget: usize,
        iter: &mut TokIter,
    ) -> (res: Result<Vec<Value>, ParseError>)
        requires
            structured(self@),
            bound(self@),
            id < self@.len(),
            forall|i: int| 0 <= i < steps@.len() ==> (#[trigger] steps@[i]) < id,
            start == old(iter).position(),
        ensures
            final(iter).tokens() == old(iter).tokens(),
            match steps_from(
                self@,
                old(iter).tokens(),
                id as nat,
                steps@,
                0,
                start as nat,
                budget as nat,
                start as nat,
                Seq::empty(),
            ) {
                Ok((values, end)) => res is Ok && value_views(res->Ok_0@) == values
                    && final(iter).position() == end && start <= end,
                Err(e) => res is Err && res->Err_0@ == e,
            },
        decreases old(iter).tokens().len() - start, budget, id, 1nat, steps@.len(),
    {
        let mut values: Vec<Value> = Vec::new();
        let mut i: usize = 0;
        let ghost tokens = iter.tokens();
        let ghost whole = steps_from(
            self@,
            tokens,
            id as nat,
            steps@,
            0,
            start as nat,
            budget as nat,
            start as nat,
            Seq::empty(),
        );
        assert(value_views(values@) =~= Seq::empty());
        while i < steps.len()
            invariant
                whole == steps_from(
                    self@,
                    tokens,
                    id as nat,
                    steps@,
                    0,
                    start as nat,
                    budget as nat,
                    start as nat,
                    Seq::empty(),
                ),
                structured(self@),
                bound(self@),
                id < self@.len(),
                forall|k: int| 0 <= k < steps@.len() ==> (#[trigger] steps@[k]) < id,
                i <= steps@.len(),
                iter.tokens() == tokens,
                start <= iter.position(),
                tokens == old(iter).tokens(),
                start == old(iter).position(),
                whole == steps_from(
                    self@,
                    tokens,
                    id as nat,
                    steps@,
                    i as nat,
                    start as nat,
                    budget as nat,
                    iter.position(),
                    value_views(values@),
                ),
            decreases steps@.len() - i,
        {
            let ghost before = value_views(values@);
            match self.step(id, steps[i], start, budget, iter) {
                Ok(value) => {
                    values.push(value);
                    assert(value_views(values@) =~= before.push(value@));
                },
                Err(e) => {
                    return Err(e);
                },
            }
            i += 1;
        }
        Ok(values)
    }

    /// Runs the dispatch `id`: the pattern of the first pair whose predicate
    /// matches ahead.
    fn run_match(
        &self,
        id: usize,
        arms: &Vec<(usize, usize)>,
        start: usize,
        budget: usize,
        iter: &mut TokIter,
    ) -> (res: Result<Value, ParseError>)
        requires
            structured(self@),
            bound(self@),
            id < self@.len(),
            forall|i: int|
                0 <= i < arms@.len() ==> (#[trigger] arms@[i]).0 < id && arms@[i].1 < id,
            start == old(iter).position(),
        ensures
            ran(
                res,
                *old(iter),
                *final(iter),
                dispatch(
                    self@,
                    old(iter).tokens(),
                    id as nat,
                    arms@,
                    0,
                    start as nat,
                    budget as nat,
                ),
            ),
        decreases old(iter).tokens().len() - start, budget, id, 1nat, arms@.len(),
    {
        let mut i: usize = 0;
        let ghost tokens = iter.tokens();
        let ghost whole = dispatch(self@, tokens, id as nat, arms@, 0, start as nat, budget as nat);
        while i < arms.len()
            invariant
                whole == dispatch(self@, tokens, id as nat, arms@, 0, start as nat, budget as nat),
                structured(self@),
                bound(self@),
                id < self@.len(),
                forall|k: int|
                    0 <= k < arms@.len() ==> (#[trigger] arms@[k]).0 < id && arms@[k].1 < id,
                i <= arms@.len(),
                iter.tokens() == tokens,
                iter.position() == start,
                tokens == old(iter).tokens(),
                start == old(iter).position(),
                whole == dispatch(
                    self@,
                    tokens,
                    id as nat,
                    arms@,
                    i as nat,
                    start as nat,
                    budget as nat,
                ),
            decreases arms@.len() - i,
        {
            let (predicate, pattern) = arms[i];
            if self.look(id, predicate, start, budget, iter).is_ok() {
                return self.step(id, pattern, start, budget, iter);
            }
            i += 1;
        }
        Err(ParseET::NoAlternative.at_opt(iter.loc()))
    }

    /// Runs the list `id` from its first item on, where an item is known to
    /// follow.
    fn run_list(
        &self,
        id: usize,
        list: ListRule,
        start: usize,
        budget: usize,
        iter: &mut TokIter,
    ) -> (res: Result<Value, ParseError>)
        requires
            structured(self@),
            bound(self@),
            id < self@.len(),
            list.item_pred < id && list.item < id && list.delim_pred < id && list.delim < id,
            start == old(iter).position(),
        ensures
            ran(
                res,
                *old(iter),
                *final(iter),
                items_from(
                    self@,
                    old(iter).tokens(),
                    id as nat,
                    list,
                    start as nat,
                    budget as nat,
                    start as nat,
                    Seq::empty(),
                ),
            ),
        decreases old(iter).tokens().len() - start, budget, id, 1nat, old(iter).tokens().len()
                - start,
    {
        let mut items: Vec<Value> = Vec::new();
        let ghost tokens = iter.tokens();
        let ghost whole = items_from(
            self@,
            tokens,
            id as nat,
            list,
            start as nat,
            budget as nat,
            start as nat,
            Seq::empty(),
        );
        assert(value_views(items@) =~= Seq::empty());
        let _ = iter.mark();
        loop
            invariant
                whole == items_from(
                    self@,
                    tokens,
                    id as nat,
                    list,
                    start as nat,
                    budget as nat,
                    start as nat,
                    Seq::empty(),
                ),
                structured(self@),
                bound(self@),
                id < self@.len(),
                list.item_pred < id && list.item < id && list.delim_pred < id && list.delim < id,
                iter.tokens() == tokens,
                start <= iter.position() <= tokens.len(),
                tokens == old(iter).tokens(),
                start == old(iter).position(),
                whole == items_from(
                    self@,
                    tokens,
                    id as nat,
                    list,
                    start as nat,
                    budget as nat,
                    iter.position(),
                    value_views(items@),
                ),
            decreases tokens.len() - iter.position(),
        {
            let cur = iter.mark();
            let ghost before = value_views(items@);
            match self.step(id, list.item, start, budget, iter) {
                Ok(item) => {
                    items.push(item);
                    assert(value_views(items@) =~= before.push(item@));
                },
                Err(e) => {
                    return Err(e);
                },
            }
            let separated = match list.trail {
                Trail::Always => true,
                _ => self.look(id, list.delim_pred, start, budget, iter).is_ok(),
            };
            if !separated {
                proof {
                    lemma_list_view(items);
                }
                return Ok(Value::List(items));
            }
            match self.step(id, list.delim, start, budget, iter) {
                Ok(_) => {},
                Err(e) => {
                    return Err(e);
                },
            }
            match self.look(id, list.item_pred, start, budget, iter) {
                Ok(_) => {
                    let next = iter.mark();
                    if next <= cur {
                        return Err(ParseET::NoProgress.at_opt(iter.loc()));
                    }
                },
                Err(e) => {
                    match list.trail {
                        Trail::Never => {
                            return Err(e);
                        },
                        _ => {
                            proof {
                                lemma_list_view(items);
                            }
                            return Ok(Value::List(items));
                        },
                    }
                },
            }
        }
    }
}

} // verus!
