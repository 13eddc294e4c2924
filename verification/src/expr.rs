//! Folding a flat run of operands and operators into an expression tree.
//!
//! An operator that stands where an operand is expected (at the start, or
//! after another operator) is a prefix operator and binds tighter than any
//! binary operator. Binary operators associate to the left and bind in three
//! tiers, loosest first: the shifts `<<` `>>`, then `+` `-`, then `*` `/`.

use crate::ast::{Expr, ExprView, Expression, ExpressionView, Op, Operator};
use crate::error::{ParseET, ParseError, ParseETView, ParseErrorView};
use crate::span::Span;
use vstd::prelude::*;

verus! {

/// One element of a flat expression: an operand or an operator.
#[derive(Debug, PartialEq)]
pub enum ExprPart {
    Expr(Expression),
    Op(Operator),
}

pub ghost enum ExprPartView {
    Expr(ExpressionView),
    Op(Operator),
}

impl View for ExprPart {
    type V = ExprPartView;

    open spec fn view(&self) -> ExprPartView {
        match self {
            ExprPart::Expr(e) => ExprPartView::Expr(e@),
            ExprPart::Op(op) => ExprPartView::Op(*op),
        }
    }
}

impl ExprPartView {
    /// Where this part stands in the source.
    pub open spec fn loc(self) -> Span {
        match self {
            ExprPartView::Expr(e) => e.1,
            ExprPartView::Op(op) => op.1,
        }
    }
}

/// The views of a sequence of parts, one by one.
pub open spec fn part_views(parts: Seq<ExprPart>) -> Seq<ExprPartView> {
    Seq::new(parts.len(), |i: int| parts[i]@)
}

/// How tightly a binary operator binds: a higher tier binds tighter.
pub open spec fn tier(op: Op) -> nat {
    match op {
        Op::LShift | Op::RShift => 1,
        Op::Add | Op::Sub => 2,
        Op::Mul | Op::Div => 3,
    }
}

/// The application of a prefix operator, from the operator to the end of
/// its operand.
pub open spec fn unary(op: Operator, operand: ExpressionView) -> ExpressionView {
    ExpressionView(ExprView::UnaryOp(op, Box::new(operand)), op.1.through(operand.1))
}

/// The application of a binary operator, from the start of its left operand
/// to the end of its right one.
pub open spec fn binary(op: Operator, left: ExpressionView, right: ExpressionView)
    -> ExpressionView {
    ExpressionView(ExprView::BinaryOp(op, Box::new(left), Box::new(right)), left.1.through(right.1))
}

/// Reads one operand from the front of `rest`: an expression, or a prefix
/// operator applied to the operand that follows it. Yields the operand and
/// the parts after it. Where `rest` is empty the operand is missing, and the
/// failure is at `at`, the location of the part that asked for it.
pub open spec fn operand(rest: Seq<ExprPartView>, at: Span) -> Result<
    (ExpressionView, Seq<ExprPartView>),
    Span,
>
    decreases rest.len(),
{
    if rest.len() == 0 {
        Err(at)
    } else {
        match rest[0] {
            ExprPartView::Expr(e) => Ok((e, rest.drop_first())),
            ExprPartView::Op(op) => match operand(rest.drop_first(), op.1) {
                Ok((e, after)) => Ok((unary(op, e), after)),
                Err(span) => Err(span),
            },
        }
    }
}

/// An operand is read from the front: what is left is shorter.
pub proof fn lemma_operand_shrinks(rest: Seq<ExprPartView>, at: Span)
    ensures
        operand(rest, at) matches Ok((_, after)) ==> after.len() < rest.len(),
    decreases rest.len(),
{
    if rest.len() > 0 {
        if let ExprPartView::Op(op) = rest[0] {
            lemma_operand_shrinks(rest.drop_first(), op.1);
        }
    }
}

/// Reads from the front of `rest` an operand and the binary operators of
/// tier `min` or higher that follow it, with their right operands.
pub open spec fn operation(rest: Seq<ExprPartView>, at: Span, min: nat) -> Result<
    (ExpressionView, Seq<ExprPartView>),
    Span,
>
    decreases rest.len(), 1nat,
{
    match operand(rest, at) {
        Ok((left, after)) => {
            proof {
                lemma_operand_shrinks(rest, at);
            }
            extend(left, after, min)
        },
        Err(span) => Err(span),
    }
}

/// Extends `left` by the binary operators of tier `min` or higher at the
/// front of `rest`: each takes as its right operand what follows it and
/// binds tighter than itself, and the result becomes the left operand of the
/// next.
pub open spec fn extend(left: ExpressionView, rest: Seq<ExprPartView>, min: nat) -> Result<
    (ExpressionView, Seq<ExprPartView>),
    Span,
>
    decreases rest.len(), 0nat,
{
    if rest.len() > 0 && rest[0] is Op && tier(rest[0]->Op_0.0) >= min {
        let op = rest[0]->Op_0;
        match operation(rest.drop_first(), op.1, tier(op.0) + 1) {
            Ok((right, after)) => if after.len() < rest.len() {
                extend(binary(op, left, right), after, min)
            } else {
                Err(op.1)
            },
            Err(span) => Err(span),
        }
    } else {
        Ok((left, rest))
    }
}

/// The expression that `parts` spell. It is an error, at the offending
/// part, when an operand follows an operand, and, at the operator, when an
/// operator lacks its operand. An empty run is an error at `span`.
pub open spec fn fold(parts: Seq<ExprPartView>, span: Span) -> Result<
    ExpressionView,
    ParseErrorView,
> {
    match operation(parts, span, 0) {
        Ok((e, after)) => if after.len() == 0 {
            Ok(e)
        } else {
            Err(ParseETView::UnexpectedToken.at(after[0].loc()))
        },
        Err(at) => Err(ParseETView::UnexpectedToken.at(at)),
    }
}

/// Whether an expression is an operand as it stands in a flat run: not the
/// application of an operator.
pub open spec fn is_atom(e: ExpressionView) -> bool {
    !(e.0 is BinaryOp) && !(e.0 is UnaryOp)
}

/// Whether every operand of a flat run is an atom.
pub open spec fn atoms(parts: Seq<ExprPartView>) -> bool {
    forall|i: int| 0 <= i < parts.len() ==> (#[trigger] parts[i] matches ExprPartView::Expr(e)
        ==> is_atom(e))
}

/// The operands and operators of an expression tree, from left to right.
pub open spec fn flatten(e: ExpressionView) -> Seq<ExprPartView>
    decreases e,
{
    match e.0 {
        ExprView::BinaryOp(op, left, right) => flatten(*left) + seq![ExprPartView::Op(op)]
            + flatten(*right),
        ExprView::UnaryOp(op, operand) => seq![ExprPartView::Op(op)] + flatten(*operand),
        _ => seq![ExprPartView::Expr(e)],
    }
}

/// How tightly the root of an expression tree holds together: the tier of a
/// binary operator, and more than any tier for everything else.
pub open spec fn top(e: ExpressionView) -> nat {
    match e.0 {
        ExprView::BinaryOp(op, _, _) => tier(op.0),
        _ => 4,
    }
}

/// Whether an expression tree is nested as the tiers ask: the right operand
/// of a binary operator holds together more tightly than the operator, the
/// left operand at least as tightly, and the operand of a prefix operator
/// is no binary operation.
pub open spec fn nested_by_tier(e: ExpressionView) -> bool
    decreases e,
{
    match e.0 {
        ExprView::BinaryOp(op, left, right) => {
            &&& nested_by_tier(*left)
            &&& nested_by_tier(*right)
            &&& top(*left) >= tier(op.0)
            &&& top(*right) > tier(op.0)
        },
        ExprView::UnaryOp(_, operand) => nested_by_tier(*operand) && top(*operand) == 4,
        _ => true,
    }
}

/// Whether `rest` does not begin with a binary operator of tier `min` or
/// higher.
pub open spec fn stops_before(rest: Seq<ExprPartView>, min: nat) -> bool {
    rest.len() > 0 && rest[0] is Op ==> tier(rest[0]->Op_0.0) < min
}

/// An operand read from a run of atoms, followed by what is left, is the
/// run; and it is nested as the tiers ask.
pub proof fn lemma_operand_keeps_parts(rest: Seq<ExprPartView>, at: Span)
    requires
        atoms(rest),
    ensures
        operand(rest, at) matches Ok((e, after)) ==> flatten(e) + after == rest && atoms(after)
            && nested_by_tier(e) && top(e) == 4,
    decreases rest.len(),
{
    if rest.len() > 0 {
        let tail = rest.drop_first();
        assert(atoms(tail)) by {
            assert forall|i: int| 0 <= i < tail.len() implies (#[trigger] tail[i]
                matches ExprPartView::Expr(e) ==> is_atom(e)) by {
                assert(tail[i] == rest[i + 1]);
            }
        }
        match rest[0] {
            ExprPartView::Expr(e) => {
                assert(flatten(e) + tail =~= rest);
            },
            ExprPartView::Op(op) => {
                lemma_operand_keeps_parts(tail, op.1);
                if let Ok((e, after)) = operand(tail, op.1) {
                    assert(flatten(unary(op, e)) == seq![ExprPartView::Op(op)] + flatten(e));
                    assert(seq![ExprPartView::Op(op)] + tail =~= rest);
                    assert(flatten(unary(op, e)) + after =~= seq![ExprPartView::Op(op)] + (
                    flatten(e) + after));
                }
            },
        }
    }
}

/// An operation read from a run of atoms, followed by what is left, is the
/// run; it is nested as the tiers ask, holds together at least as tightly
/// as `min`, and goes on as far as operators of that tier reach.
pub proof fn lemma_operation_keeps_parts(rest: Seq<ExprPartView>, at: Span, min: nat)
    requires
        atoms(rest),
        min <= 4,
    ensures
        operation(rest, at, min) matches Ok((e, after)) ==> flatten(e) + after == rest && atoms(
            after,
        ) && nested_by_tier(e) && top(e) >= min && stops_before(after, min),
    decreases rest.len(), 1nat,
{
    lemma_operand_keeps_parts(rest, at);
    lemma_operand_shrinks(rest, at);
    if let Ok((left, after)) = operand(rest, at) {
        lemma_extend_keeps_parts(left, after, min);
        if let Ok((e, end)) = extend(left, after, min) {
            assert(flatten(e) + end =~= rest);
        }
    }
}

/// The extension of an operation through a run of atoms, followed by what
/// is left, is the operation followed by the run; and it is nested as the
/// tiers ask where the operation was.
pub proof fn lemma_extend_keeps_parts(left: ExpressionView, rest: Seq<ExprPartView>, min: nat)
    requires
        atoms(rest),
        nested_by_tier(left),
        top(left) >= min,
        rest.len() > 0 && rest[0] is Op ==> tier(rest[0]->Op_0.0) <= top(left),
    ensures
        extend(left, rest, min) matches Ok((e, after)) ==> flatten(e) + after == flatten(left)
            + rest && atoms(after) && nested_by_tier(e) && top(e) >= min && stops_before(
            after,
            min,
        ),
    decreases rest.len(), 0nat,
{
    if rest.len() > 0 && rest[0] is Op && tier(rest[0]->Op_0.0) >= min {
        let op = rest[0]->Op_0;
        let tail = rest.drop_first();
        assert(atoms(tail)) by {
            assert forall|i: int| 0 <= i < tail.len() implies (#[trigger] tail[i]
                matches ExprPartView::Expr(e) ==> is_atom(e)) by {
                assert(tail[i] == rest[i + 1]);
            }
        }
        lemma_operation_keeps_parts(tail, op.1, tier(op.0) + 1);
        if let Ok((right, after)) = operation(tail, op.1, tier(op.0) + 1) {
            if after.len() < rest.len() {
                let joined = binary(op, left, right);
                lemma_extend_keeps_parts(joined, after, min);
                assert(flatten(joined) == flatten(left) + seq![ExprPartView::Op(op)]
                    + flatten(right));
                assert(seq![ExprPartView::Op(op)] + tail =~= rest);
                assert(flatten(joined) + after =~= flatten(left) + (seq![ExprPartView::Op(op)]
                    + (flatten(right) + after)));
                assert(flatten(joined) + after =~= flatten(left) + rest);
                if let Ok((e, end)) = extend(joined, after, min) {
                    assert(flatten(e) + end =~= flatten(left) + rest);
                }
            }
        }
    } else {
        assert(flatten(left) + rest =~= flatten(left) + rest);
    }
}

/// Folding keeps the run and obeys the tiers: the tree that a run of atoms
/// folds into has the operands and operators of the run, in their order,
/// and is nested as the tiers ask.
pub proof fn lemma_fold_keeps_parts(parts: Seq<ExprPartView>, span: Span)
    requires
        atoms(parts),
    ensures
        fold(parts, span) matches Ok(e) ==> flatten(e) == parts && nested_by_tier(e),
{
    lemma_operation_keeps_parts(parts, span, 0);
    if let Ok((e, after)) = operation(parts, span, 0) {
        if after.len() == 0 {
            assert(flatten(e) + after =~= flatten(e));
        }
    }
}

/// What is left to read of a stack of parts whose top is the next part.
pub open spec fn upcoming(stack: Seq<ExprPart>) -> Seq<ExprPartView> {
    part_views(stack).reverse()
}

proof fn lemma_pop(stack: Seq<ExprPart>)
    requires
        stack.len() > 0,
    ensures
        upcoming(stack)[0] == stack.last()@,
        upcoming(stack.drop_last()) == upcoming(stack).drop_first(),
{
    assert(upcoming(stack.drop_last()) =~= upcoming(stack).drop_first());
}

fn tier_of(op: Op) -> (t: usize)
    ensures
        t == tier(op),
{
    match op {
        Op::LShift | Op::RShift => 1,
        Op::Add | Op::Sub => 2,
        Op::Mul | Op::Div => 3,
    }
}

fn read_operand(stack: &mut Vec<ExprPart>, at: Span) -> (res: Result<Expression, Span>)
    ensures
        match operand(upcoming(old(stack)@), at) {
            Ok((e, after)) => res is Ok && res->Ok_0@ == e && upcoming(final(stack)@) == after,
            Err(span) => res == Err::<Expression, Span>(span),
        },
    decreases old(stack)@.len(),
{
    proof {
        if stack@.len() > 0 {
            lemma_pop(stack@);
        }
    }
    match stack.pop() {
        None => Err(at),
        Some(ExprPart::Expr(e)) => Ok(e),
        Some(ExprPart::Op(op)) => {
            match read_operand(stack, op.1) {
                Ok(e) => {
                    let span = op.1.to(e.1);
                    Ok(Expression(Expr::UnaryOp(op, Box::new(e)), span))
                },
                Err(span) => Err(span),
            }
        },
    }
}

fn read_operation(stack: &mut Vec<ExprPart>, at: Span, min: usize) -> (res: Result<
    Expression,
    Span,
>)
    requires
        min <= 4,
    ensures
        match operation(upcoming(old(stack)@), at, min as nat) {
            Ok((e, after)) => res is Ok && res->Ok_0@ == e && upcoming(final(stack)@) == after,
            Err(span) => res == Err::<Expression, Span>(span),
        },
    decreases old(stack)@.len(), 1nat,
{
    proof {
        lemma_operand_shrinks(upcoming(stack@), at);
    }
    match read_operand(stack, at) {
        Ok(left) => read_extension(left, stack, min),
        Err(span) => Err(span),
    }
}

fn read_extension(left: Expression, stack: &mut Vec<ExprPart>, min: usize) -> (res: Result<
    Expression,
    Span,
>)
    requires
        min <= 4,
    ensures
        match extend(left@, upcoming(old(stack)@), min as nat) {
            Ok((e, after)) => res is Ok && res->Ok_0@ == e && upcoming(final(stack)@) == after,
            Err(span) => res == Err::<Expression, Span>(span),
        },
    decreases old(stack)@.len(), 0nat,
{
    let n = stack.len();
    let next = if n > 0 {
        match &stack[n - 1] {
            ExprPart::Op(op) => if tier_of(op.0) >= min {
                Some(*op)
            } else {
                None
            },
            ExprPart::Expr(_) => None,
        }
    } else {
        None
    };
    proof {
        if n > 0 {
            lemma_pop(stack@);
        }
    }
    match next {
        None => Ok(left),
        Some(op) => {
            let _ = stack.pop();
            match read_operation(stack, op.1, tier_of(op.0) + 1) {
                Ok(right) => {
                    if stack.len() < n {
                        let span = left.1.to(right.1);
                        let joined = Expression(
                            Expr::BinaryOp(op, Box::new(left), Box::new(right)),
                            span,
                        );
                        read_extension(joined, stack, min)
                    } else {
                        Err(op.1)
                    }
                },
                Err(span) => Err(span),
            }
        },
    }
}

/// Folds a flat run of operands and operators into an expression tree.
/// `span` is the location of the whole run.
pub fn fold_parts(parts: Vec<ExprPart>, span: Span) -> (res: Result<Expression, ParseError>)
    ensures
        match fold(part_views(parts@), span) {
            Ok(e) => res is Ok && res->Ok_0@ == e,
            Err(e) => res is Err && res->Err_0@ == e,
        },
{
    let mut stack: Vec<ExprPart> = Vec::new();
    let mut parts = parts;
    let ghost all = part_views(parts@);
    while parts.len() > 0
        invariant
            parts@.len() <= all.len(),
            part_views(parts@) == all.subrange(0, parts@.len() as int),
            stack@.len() == all.len() - parts@.len(),
            forall|i: int|
                0 <= i < stack@.len() ==> (#[trigger] stack@[i])@ == all[all.len() - 1 - i],
        decreases parts.len(),
    {
        let ghost before = parts@;
        match parts.pop() {
            Some(part) => {
                assert(part@ == part_views(before)[before.len() - 1]);
                stack.push(part);
                assert(part_views(parts@) =~= all.subrange(0, parts@.len() as int));
            },
            None => {},
        }
    }
    assert(upcoming(stack@) =~= all);
    match read_operation(&mut stack, span, 0) {
        Ok(e) => {
            let n = stack.len();
            if n == 0 {
                Ok(e)
            } else {
                proof {
                    lemma_pop(stack@);
                }
                let at = match &stack[n - 1] {
                    ExprPart::Expr(e) => e.1,
                    ExprPart::Op(op) => op.1,
                };
                Err(ParseET::UnexpectedToken.at(at))
            }
        },
        Err(at) => Err(ParseET::UnexpectedToken.at(at)),
    }
}

} // verus!
