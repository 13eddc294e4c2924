use grammar_engine::ast::{Expr, Expression, Ident};
use grammar_engine::cursor::TokIter;
use grammar_engine::error::{ParseET, ParseError};
use grammar_engine::grammar::{Grammar, ListRule, Node, Trail};
use grammar_engine::span::Span;
use grammar_engine::tokens::{Literal, Token, TokenType};
use grammar_engine::transform::Transform;
use grammar_engine::value::Value;

fn word(text: &str, start: usize) -> Token {
    Token::new(TokenType::Ident(String::from(text)), Span::new(start, start + text.len()))
}

fn mark(c: char, glued: bool, start: usize) -> Token {
    Token::new(TokenType::Particle(c, glued), Span::new(start, start + 1))
}

fn name(text: &str, start: usize) -> Value {
    Value::Ident(Ident(String::from(text), Span::new(start, start + text.len())))
}

/// `a , b , c` with or without a comma at the end.
fn names(count: usize, trailing: bool) -> Vec<Token> {
    let mut tokens = Vec::new();
    for i in 0..count {
        let text = ["a", "b", "c", "d"][i];
        tokens.push(word(text, 4 * i));
        if i + 1 < count || trailing {
            tokens.push(mark(',', false, 4 * i + 2));
        }
    }
    tokens
}

/// A grammar with one list of identifiers separated by commas.
fn list_grammar(trail: Trail, non_empty: bool) -> (Grammar, usize) {
    let mut g = Grammar::new();
    let ident = g.add(Node::GetIdent);
    let comma = g.add(Node::Particle(','));
    let list = if non_empty {
        g.non_empty(ident, comma, trail)
    } else {
        g.maybe_empty(ident, comma, trail)
    };
    (g, list)
}

fn run_list(
    trail: Trail,
    non_empty: bool,
    tokens: Vec<Token>,
) -> (Result<Value, ParseError>, usize) {
    let (g, list) = list_grammar(trail, non_empty);
    let mut iter = TokIter::new(tokens);
    let res = g.parse(list, &mut iter);
    (res, iter.mark())
}

#[test]
fn dispatch_takes_the_first_predicate_that_matches() {
    let mut g = Grammar::new();
    let ident = g.add(Node::GetIdent);
    let as_variable = g.inline(vec![ident], Transform::VariableExpr);
    let as_ident = g.inline(vec![ident], Transform::Pick(0));
    let first = g.add(Node::Match(vec![(ident, as_variable), (ident, as_ident)]));
    let second = g.add(Node::Match(vec![(ident, as_ident), (ident, as_variable)]));
    assert!(g.is_bound());

    let mut iter = TokIter::new(vec![word("x", 0)]);
    let span = Span::new(0, 1);
    assert_eq!(
        g.parse(first, &mut iter),
        Ok(Value::Expression(Expression(Expr::Variable(Ident(String::from("x"), span)), span)))
    );
    assert_eq!(iter.mark(), 1);

    let mut iter = TokIter::new(vec![word("x", 0)]);
    assert_eq!(g.parse(second, &mut iter), Ok(name("x", 0)));
}

#[test]
fn dispatch_skips_predicates_that_do_not_match() {
    let mut g = Grammar::new();
    let ident = g.add(Node::GetIdent);
    let literal = g.add(Node::GetLiteral);
    let particle = g.add(Node::GetParticle);
    let choice = g.add(Node::Match(vec![(literal, literal), (particle, particle), (ident, ident)]));
    let mut iter = TokIter::new(vec![mark('+', false, 0)]);
    assert_eq!(g.parse(choice, &mut iter), Ok(Value::Char('+')));
    let mut iter = TokIter::new(vec![word("x", 0)]);
    assert_eq!(g.parse(choice, &mut iter), Ok(name("x", 0)));
}

#[test]
fn dispatch_without_a_match_is_an_error() {
    let mut g = Grammar::new();
    let ident = g.add(Node::GetIdent);
    let literal = g.add(Node::GetLiteral);
    let choice = g.add(Node::Match(vec![(literal, literal), (ident, ident)]));
    let mut iter = TokIter::new(vec![mark('+', false, 3)]);
    let err = g.parse(choice, &mut iter).unwrap_err();
    assert_eq!(err.et, ParseET::NoAlternative);
    assert_eq!(err.et.message(), "no alternative recognized");
    assert_eq!(err.loc, Some(Span::new(3, 4)));
    assert!(err.context.is_empty());

    let mut iter = TokIter::new(vec![]);
    let err = g.parse(choice, &mut iter).unwrap_err();
    assert_eq!(err.et, ParseET::NoAlternative);
    assert_eq!(err.loc, None);
}

#[test]
fn selected_pattern_must_succeed() {
    // The predicate looks at one token, the pattern wants two.
    let mut g = Grammar::new();
    let ident = g.add(Node::GetIdent);
    let pair = g.inline(vec![ident, ident], Transform::Unit);
    let literal = g.add(Node::GetLiteral);
    let choice = g.add(Node::Match(vec![(ident, pair), (ident, ident), (literal, literal)]));
    let mut iter = TokIter::new(vec![word("x", 0), mark(';', true, 1)]);
    let err = g.parse(choice, &mut iter).unwrap_err();
    assert_eq!(err.et, ParseET::UnexpectedToken);
    assert_eq!(err.loc, Some(Span::new(1, 2)));
}

#[test]
fn list_that_never_trails() {
    let (res, end) = run_list(Trail::Never, false, names(3, false));
    assert_eq!(res, Ok(Value::List(vec![name("a", 0), name("b", 4), name("c", 8)])));
    assert_eq!(end, 5);

    let (res, _) = run_list(Trail::Never, false, names(2, true));
    let err = res.unwrap_err();
    assert_eq!(err.et, ParseET::UnexpectedEnd);
    assert_eq!(err.loc, None);

    let mut tokens = names(1, true);
    tokens.push(mark(';', false, 4));
    let (res, _) = run_list(Trail::Never, false, tokens);
    let err = res.unwrap_err();
    assert_eq!(err.et, ParseET::UnexpectedToken);
    assert_eq!(err.loc, Some(Span::new(4, 5)));
}

#[test]
fn list_that_may_trail() {
    let (res, end) = run_list(Trail::Optional, false, names(2, false));
    assert_eq!(res, Ok(Value::List(vec![name("a", 0), name("b", 4)])));
    assert_eq!(end, 3);

    let (res, end) = run_list(Trail::Optional, false, names(2, true));
    assert_eq!(res, Ok(Value::List(vec![name("a", 0), name("b", 4)])));
    assert_eq!(end, 4);
}

#[test]
fn list_that_always_trails() {
    let (res, end) = run_list(Trail::Always, false, names(2, true));
    assert_eq!(res, Ok(Value::List(vec![name("a", 0), name("b", 4)])));
    assert_eq!(end, 4);

    let (res, _) = run_list(Trail::Always, false, names(2, false));
    let err = res.unwrap_err();
    assert_eq!(err.et, ParseET::UnexpectedEnd);

    let mut tokens = names(1, false);
    tokens.push(mark(';', false, 2));
    let (res, _) = run_list(Trail::Always, false, tokens);
    let err = res.unwrap_err();
    assert_eq!(err.et, ParseET::UnexpectedToken);
    assert_eq!(err.loc, Some(Span::new(2, 3)));
}

#[test]
fn empty_and_non_empty_lists() {
    for trail in [Trail::Never, Trail::Optional, Trail::Always] {
        let (res, end) = run_list(trail, false, vec![mark(')', false, 0)]);
        assert_eq!(res, Ok(Value::List(vec![])));
        assert_eq!(end, 0);

        let (res, _) = run_list(trail, true, vec![mark(')', false, 0)]);
        let err = res.unwrap_err();
        assert_eq!(err.et, ParseET::UnexpectedToken);
        assert_eq!(err.loc, Some(Span::new(0, 1)));

        let (res, _) = run_list(trail, true, vec![]);
        assert_eq!(res.unwrap_err().et, ParseET::UnexpectedEnd);
    }
    let (res, end) = run_list(Trail::Never, true, names(1, false));
    assert_eq!(res, Ok(Value::List(vec![name("a", 0)])));
    assert_eq!(end, 1);
}

#[test]
fn list_behind_predicates() {
    // Items are identifiers, but only as long as no `x` follows.
    let mut g = Grammar::new();
    let ident = g.add(Node::GetIdent);
    let stop = g.add(Node::Token(TokenType::Ident(String::from("x"))));
    let goes_on = g.add(Node::Not(stop));
    let nothing = g.add(Node::Dummy);
    let list = g.maybe_empty_pred(goes_on, ident, nothing, nothing, Trail::Always);
    let strict = g.non_empty_pred(goes_on, ident, nothing, nothing, Trail::Always);
    assert_eq!(
        g.node(list),
        &Node::List(ListRule {
            item_pred: goes_on,
            item: ident,
            delim_pred: nothing,
            delim: nothing,
            trail: Trail::Always,
            non_empty: false,
        })
    );

    let tokens = vec![word("a", 0), word("b", 2), word("x", 4), word("c", 6)];
    let mut iter = TokIter::new(tokens);
    assert_eq!(g.parse(list, &mut iter), Ok(Value::List(vec![name("a", 0), name("b", 2)])));
    assert_eq!(iter.mark(), 2);

    let mut iter = TokIter::new(vec![word("x", 0)]);
    let err = g.parse(strict, &mut iter).unwrap_err();
    assert_eq!(err.et, ParseET::UnexpectedToken);
    assert_eq!(err.loc, Some(Span::new(0, 1)));

    // The predicate lets the item be tried, and the item fails.
    let mut iter = TokIter::new(vec![word("a", 0), mark('+', false, 2)]);
    let err = g.parse(list, &mut iter).unwrap_err();
    assert_eq!(err.et, ParseET::UnexpectedToken);
    assert_eq!(err.loc, Some(Span::new(2, 3)));
}

#[test]
fn list_that_reads_nothing_is_stopped() {
    let mut g = Grammar::new();
    let nothing = g.add(Node::Dummy);
    let list = g.maybe_empty(nothing, nothing, Trail::Always);
    let mut iter = TokIter::new(vec![word("a", 0)]);
    let err = g.parse(list, &mut iter).unwrap_err();
    assert_eq!(err.et, ParseET::NoProgress);
    assert_eq!(err.et.message(), "grammar makes no progress");
    assert_eq!(err.loc, Some(Span::new(0, 1)));
}

#[test]
fn conditional_yields_what_it_finds_or_nothing() {
    let mut g = Grammar::new();
    let ident = g.add(Node::GetIdent);
    let colon = g.add(Node::Particle(':'));
    let typed = g.inline(vec![colon, ident], Transform::Pick(1));
    let optional = g.add(Node::Conditional { predicate: colon, pattern: typed });
    let maybe = g.maybe(ident);

    let mut iter = TokIter::new(vec![mark(':', false, 0), word("t", 2)]);
    assert_eq!(g.parse(optional, &mut iter), Ok(Value::Opt(Some(Box::new(name("t", 2))))));
    assert_eq!(iter.mark(), 2);

    let mut iter = TokIter::new(vec![word("t", 0)]);
    assert_eq!(g.parse(optional, &mut iter), Ok(Value::Opt(None)));
    assert_eq!(iter.mark(), 0);

    // Once the predicate has matched, a failure of the pattern is an error.
    let mut iter = TokIter::new(vec![mark(':', false, 0), mark(':', true, 1)]);
    let err = g.parse(optional, &mut iter).unwrap_err();
    assert_eq!(err.et, ParseET::UnexpectedToken);
    assert_eq!(err.loc, Some(Span::new(1, 2)));

    let mut iter = TokIter::new(vec![word("t", 0)]);
    assert_eq!(g.parse(maybe, &mut iter), Ok(Value::Opt(Some(Box::new(name("t", 0))))));
    let mut iter = TokIter::new(vec![]);
    assert_eq!(g.parse(maybe, &mut iter), Ok(Value::Opt(None)));
}

#[test]
fn branch_goes_by_its_condition() {
    let mut g = Grammar::new();
    let ident = g.add(Node::GetIdent);
    let open = g.add(Node::Particle('('));
    let close = g.add(Node::Particle(')'));
    let wrapped = g.inline(vec![open, ident, close], Transform::Pick(1));
    let branch = g.add(Node::BranchIfElse { condition: open, taken: wrapped, otherwise: ident });

    let tokens = vec![mark('(', false, 0), word("a", 1), mark(')', true, 2)];
    let mut iter = TokIter::new(tokens);
    assert_eq!(g.parse(branch, &mut iter), Ok(name("a", 1)));
    assert_eq!(iter.mark(), 3);

    let mut iter = TokIter::new(vec![word("a", 0)]);
    assert_eq!(g.parse(branch, &mut iter), Ok(name("a", 0)));

    let mut iter = TokIter::new(vec![mark('(', false, 0), word("a", 1)]);
    assert_eq!(g.parse(branch, &mut iter).unwrap_err().et, ParseET::UnexpectedEnd);

    let mut iter = TokIter::new(vec![mark(')', false, 0)]);
    let err = g.parse(branch, &mut iter).unwrap_err();
    assert_eq!(err.et, ParseET::UnexpectedToken);
    assert_eq!(err.loc, Some(Span::new(0, 1)));
}

#[test]
fn negation_reads_nothing() {
    let mut g = Grammar::new();
    let equals = g.add(Node::Particle('='));
    let other = g.add(Node::Not(equals));
    let mut iter = TokIter::new(vec![mark('+', false, 0)]);
    assert_eq!(g.parse(other, &mut iter), Ok(Value::Unit));
    assert_eq!(iter.mark(), 0);
    let mut iter = TokIter::new(vec![]);
    assert_eq!(g.parse(other, &mut iter), Ok(Value::Unit));
    let mut iter = TokIter::new(vec![mark('=', false, 5)]);
    let err = g.parse(other, &mut iter).unwrap_err();
    assert_eq!(err.et, ParseET::UnexpectedToken);
    assert_eq!(err.loc, Some(Span::new(5, 6)));
}

#[test]
fn dummy_always_succeeds() {
    let mut g = Grammar::new();
    let nothing = g.add(Node::Dummy);
    let mut iter = TokIter::new(vec![word("a", 0)]);
    assert_eq!(g.parse(nothing, &mut iter), Ok(Value::Unit));
    assert_eq!(iter.mark(), 0);
    let mut iter = TokIter::new(vec![]);
    assert_eq!(g.parse(nothing, &mut iter), Ok(Value::Unit));
}

#[test]
fn named_pattern_marks_the_error() {
    let mut g = Grammar::new();
    let ident = g.add(Node::GetIdent);
    let colon = g.add(Node::Particle(':'));
    let inner = g.named("inner", vec![ident, colon], Transform::Pick(0));
    let open = g.add(Node::Particle('('));
    let middle = g.inline(vec![open, inner], Transform::Pick(1));
    let outer = g.named("outer", vec![middle], Transform::Pick(0));

    let tokens = vec![mark('(', false, 0), word("a", 1), word("b", 3)];
    let mut iter = TokIter::new(tokens);
    let err = g.parse(outer, &mut iter).unwrap_err();
    assert_eq!(err.et, ParseET::UnexpectedToken);
    assert_eq!(err.loc, Some(Span::new(3, 4)));
    assert_eq!(err.context, vec!["outer", "inner"]);

    let tokens = vec![mark('(', false, 0), word("a", 1), mark(':', true, 2)];
    let mut iter = TokIter::new(tokens);
    assert_eq!(g.parse(outer, &mut iter), Ok(name("a", 1)));
}

#[test]
fn transform_failure_marks_the_error_too() {
    let mut g = Grammar::new();
    let particle = g.add(Node::GetParticle);
    let glued = g.add(Node::GetGluedParticle);
    let nothing = g.add(Node::Dummy);
    let run = g.maybe_empty(glued, nothing, Trail::Always);
    let operator = g.named("sign", vec![particle, run], Transform::OperatorRun);
    let tokens = vec![mark('<', false, 0), mark('=', true, 1), mark('>', true, 2)];
    let mut iter = TokIter::new(tokens);
    let err = g.parse(operator, &mut iter).unwrap_err();
    assert_eq!(err.et, ParseET::UnrecognizedOperator(vec!['<', '=', '>']));
    assert_eq!(err.loc, Some(Span::new(0, 3)));
    assert_eq!(err.context, vec!["sign", "operator"]);
}

#[test]
fn recursive_reference_closes_a_cycle() {
    // nest := "(" nest ")" | ident
    let mut g = Grammar::new();
    let ident = g.add(Node::GetIdent);
    let open = g.add(Node::Particle('('));
    let close = g.add(Node::Particle(')'));
    let handle = g.create();
    assert!(!g.is_bound());
    let wrapped = g.inline(vec![open, handle, close], Transform::Pick(1));
    let nest = g.add(Node::BranchIfElse { condition: open, taken: wrapped, otherwise: ident });
    g.finalize(handle, nest);
    assert!(g.is_bound());
    assert_eq!(g.node(handle), &Node::RefLoop(Some(nest)));

    let tokens = vec![
        mark('(', false, 0),
        mark('(', true, 1),
        mark('(', true, 2),
        word("a", 3),
        mark(')', true, 4),
        mark(')', true, 5),
        mark(')', true, 6),
    ];
    let mut iter = TokIter::new(tokens);
    assert_eq!(g.parse(nest, &mut iter), Ok(name("a", 3)));
    assert_eq!(iter.mark(), 7);
}

#[test]
fn deep_nesting_does_not_use_up_the_budget() {
    let mut g = Grammar::new();
    let ident = g.add(Node::GetIdent);
    let open = g.add(Node::Particle('('));
    let close = g.add(Node::Particle(')'));
    let handle = g.create();
    let wrapped = g.inline(vec![open, handle, close], Transform::Pick(1));
    let nest = g.add(Node::BranchIfElse { condition: open, taken: wrapped, otherwise: ident });
    g.finalize(handle, nest);
    let depth = 200;
    let mut tokens = Vec::new();
    for i in 0..depth {
        tokens.push(mark('(', true, i));
    }
    tokens.push(word("a", depth));
    for i in 0..depth {
        tokens.push(mark(')', true, depth + 1 + i));
    }
    let mut iter = TokIter::new(tokens);
    assert_eq!(g.parse(nest, &mut iter), Ok(name("a", depth)));
    assert_eq!(iter.mark(), 2 * depth + 1);
}

#[test]
fn grammar_that_runs_in_a_circle_is_stopped() {
    // loop := loop
    let mut g = Grammar::new();
    let handle = g.create();
    let again = g.inline(vec![handle], Transform::Pick(0));
    g.finalize(handle, again);
    let mut iter = TokIter::new(vec![word("a", 0)]);
    let err = g.parse(again, &mut iter).unwrap_err();
    assert_eq!(err.et, ParseET::NoProgress);
    assert_eq!(err.loc, Some(Span::new(0, 1)));
    let mut iter = TokIter::new(vec![]);
    let err = g.parse(again, &mut iter).unwrap_err();
    assert_eq!(err.et, ParseET::NoProgress);
    assert_eq!(err.loc, None);
}

#[test]
fn budget_counts_references_passed_without_reading() {
    let mut g = Grammar::new();
    let ident = g.add(Node::GetIdent);
    let handle = g.create();
    g.finalize(handle, ident);
    let mut iter = TokIter::new(vec![word("a", 0)]);
    assert_eq!(g.run(handle, &mut iter, 0).unwrap_err().et, ParseET::NoProgress);
    let mut iter = TokIter::new(vec![word("a", 0)]);
    assert_eq!(g.run(handle, &mut iter, 1), Ok(name("a", 0)));
}

#[test]
fn pattern_spans_cover_what_was_read() {
    let mut g = Grammar::new();
    let ident = g.add(Node::GetIdent);
    let path = g.non_empty(ident, ident, Trail::Never);
    let item = g.inline(vec![path], Transform::Item);
    let tokens = vec![word("a", 2), word("sep", 4), word("b", 8)];
    let mut iter = TokIter::new(tokens);
    match g.parse(item, &mut iter) {
        Ok(Value::Item(item)) => {
            assert_eq!(item.1, Span::new(2, 9));
            assert_eq!(item.0.len(), 2);
        },
        other => panic!("not an item: {:?}", other),
    }
}

#[test]
fn exact_token_and_character_sets() {
    let mut g = Grammar::new();
    let keyword = g.add(Node::Token(TokenType::Ident(String::from("let"))));
    let glued_eq = g.add(Node::Token(TokenType::Particle('=', true)));
    let truth = g.add(Node::Token(TokenType::Literal(Literal::Bool(true))));
    let ends = g.add(Node::ParticleIn(vec![')', ';']));

    let mut iter = TokIter::new(vec![word("let", 0)]);
    assert_eq!(g.parse(keyword, &mut iter), Ok(Value::Unit));
    let mut iter = TokIter::new(vec![word("lets", 0)]);
    assert_eq!(g.parse(keyword, &mut iter).unwrap_err().et, ParseET::UnexpectedToken);

    let mut iter = TokIter::new(vec![mark('=', true, 0)]);
    assert_eq!(g.parse(glued_eq, &mut iter), Ok(Value::Unit));
    let mut iter = TokIter::new(vec![mark('=', false, 0)]);
    assert_eq!(g.parse(glued_eq, &mut iter).unwrap_err().et, ParseET::UnexpectedToken);

    let lit = |value| Token::new(TokenType::Literal(Literal::Bool(value)), Span::new(0, 4));
    let mut iter = TokIter::new(vec![lit(true)]);
    assert_eq!(g.parse(truth, &mut iter), Ok(Value::Unit));
    let mut iter = TokIter::new(vec![lit(false)]);
    assert_eq!(g.parse(truth, &mut iter).unwrap_err().et, ParseET::UnexpectedToken);

    let mut iter = TokIter::new(vec![mark(';', false, 0)]);
    assert_eq!(g.parse(ends, &mut iter), Ok(Value::Char(';')));
    let mut iter = TokIter::new(vec![mark(',', false, 0)]);
    assert_eq!(g.parse(ends, &mut iter).unwrap_err().et, ParseET::UnexpectedToken);
}
