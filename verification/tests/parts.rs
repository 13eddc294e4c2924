use grammar_engine::ast::{
    AstLiteral, Block, Expr, Expression, FullType, Func, Ident, Item, Op, Operator, Statement,
    Stmt, Type, TypeT,
};
use grammar_engine::consumers::{
    get_glued_particle, get_ident, get_literal, get_particle, particle, particle_in, token,
};
use grammar_engine::cursor::TokIter;
use grammar_engine::error::{ParseET, ParseError};
use grammar_engine::expr::{fold_parts, ExprPart};
use grammar_engine::module::Module;
use grammar_engine::span::Span;
use grammar_engine::tokens::{Literal, Token, TokenType};
use grammar_engine::transform::{apply, collect, Transform};
use grammar_engine::value::Value;

fn at(start: usize, end: usize) -> Span {
    Span::new(start, end)
}

fn word(text: &str, start: usize) -> Token {
    Token::new(TokenType::Ident(String::from(text)), at(start, start + text.len()))
}

fn mark(c: char, glued: bool, start: usize) -> Token {
    Token::new(TokenType::Particle(c, glued), at(start, start + 1))
}

fn ident(text: &str, start: usize) -> Ident {
    Ident(String::from(text), at(start, start + text.len()))
}

fn item(text: &str, start: usize) -> Item {
    Item(vec![ident(text, start)], at(start, start + text.len()))
}

fn variable(text: &str, start: usize) -> Expression {
    Expression(Expr::Variable(ident(text, start)), at(start, start + text.len()))
}

fn operand(text: &str, start: usize) -> ExprPart {
    ExprPart::Expr(variable(text, start))
}

fn sign(op: Op, start: usize) -> ExprPart {
    ExprPart::Op(Operator(op, at(start, start + 1)))
}

fn named_type(text: &str, start: usize) -> FullType {
    let span = at(start, start + text.len());
    FullType(
        TypeT::Single(Type { generics: vec![], base_type: item(text, start), loc: span }),
        span,
    )
}

fn unexpected(span: Span) -> ParseError {
    ParseError { et: ParseET::UnexpectedToken, loc: Some(span), context: vec![] }
}

fn malformed(span: Span) -> Result<Value, ParseError> {
    Err(ParseError { et: ParseET::Malformed, loc: Some(span), context: vec![] })
}

#[test]
fn operators_from_their_characters() {
    assert_eq!(Op::from_chars(vec!['+'], None), Ok(Op::Add));
    assert_eq!(Op::from_chars(vec!['-'], None), Ok(Op::Sub));
    assert_eq!(Op::from_chars(vec!['*'], None), Ok(Op::Mul));
    assert_eq!(Op::from_chars(vec!['/'], None), Ok(Op::Div));
    assert_eq!(Op::from_chars(vec!['<', '<'], Some(at(0, 2))), Ok(Op::LShift));
    assert_eq!(Op::from_chars(vec!['>', '>'], None), Ok(Op::RShift));
}

#[test]
fn unknown_operators() {
    let unknown =
        [vec![], vec!['<'], vec!['>'], vec!['<', '>'], vec!['+', '+'], vec!['<', '<', '<']];
    for chars in unknown {
        let err = Op::from_chars(chars.clone(), Some(at(3, 5))).unwrap_err();
        assert_eq!(
            err,
            ParseError {
                et: ParseET::UnrecognizedOperator(chars),
                loc: Some(at(3, 5)),
                context: vec![String::from("operator")],
            }
        );
    }
    let err = Op::from_chars(vec!['%'], None).unwrap_err();
    assert_eq!(err.loc, None);
    assert_eq!(err.et.message(), "Operator '%' not recognized");
}

#[test]
fn empty_tuple_type_is_empty() {
    assert_eq!(TypeT::empty(), TypeT::Tuple(vec![]));
    assert!(TypeT::empty().is_empty());
    assert!(!TypeT::Tuple(vec![named_type("a", 0)]).is_empty());
    match named_type("a", 0).0 {
        single => assert!(!single.is_empty()),
    }
}

#[test]
fn error_messages() {
    assert_eq!(ParseET::UnexpectedEnd.message(), "unexpected end of input");
    assert_eq!(ParseET::UnexpectedToken.message(), "unexpected token");
    assert_eq!(
        ParseET::UnrecognizedOperator(vec!['<', '<', '<']).message(),
        "Operator '<<<' not recognized"
    );
    assert_eq!(ParseET::UnrecognizedOperator(vec![]).message(), "Operator '' not recognized");
    assert_eq!(ParseET::NoAlternative.message(), "no alternative recognized");
    assert_eq!(ParseET::NoProgress.message(), "grammar makes no progress");
    assert_eq!(ParseET::Malformed.message(), "malformed rule result");
    assert_eq!(ParseET::InvalidGrammar.message(), "invalid grammar");
}

#[test]
fn error_context_grows_outwards() {
    let err = ParseET::UnexpectedToken.at(at(4, 5));
    assert_eq!(err, unexpected(at(4, 5)));
    let err = err.when("inner").when("outer");
    assert_eq!(err.et, ParseET::UnexpectedToken);
    assert_eq!(err.loc, Some(at(4, 5)));
    assert_eq!(err.context, vec!["outer", "inner"]);
    let err = ParseET::UnexpectedEnd.error();
    assert_eq!(err, ParseError { et: ParseET::UnexpectedEnd, loc: None, context: vec![] });
    assert_eq!(ParseET::NoAlternative.at_opt(None).loc, None);
    assert_eq!(ParseET::NoAlternative.at_opt(Some(at(1, 2))).loc, Some(at(1, 2)));
}

#[test]
fn spans_join() {
    assert_eq!(at(2, 5).to(at(7, 9)), at(2, 9));
    assert_eq!(at(2, 5).to(at(2, 5)), at(2, 5));
    assert_eq!(Span::new(1, 4), Span { start: 1, end: 4 });
}

#[test]
fn tokens_compare_by_kind_and_payload() {
    let a = TokenType::Ident(String::from("a"));
    assert!(a.same(&TokenType::Ident(String::from("a"))));
    assert!(!a.same(&TokenType::Ident(String::from("b"))));
    assert!(!a.same(&TokenType::Particle('a', false)));
    assert!(TokenType::Particle('+', true).same(&TokenType::Particle('+', true)));
    assert!(!TokenType::Particle('+', true).same(&TokenType::Particle('+', false)));
    assert!(!TokenType::Particle('+', true).same(&TokenType::Particle('-', true)));
    let one = TokenType::Literal(Literal::Int(1));
    assert!(one.same(&TokenType::Literal(Literal::Int(1))));
    assert!(!one.same(&TokenType::Literal(Literal::Int(2))));
    assert!(!one.same(&TokenType::Literal(Literal::Bool(true))));
    assert!(Literal::Float(7).same(&Literal::Float(7)));
    assert!(!Literal::Float(7).same(&Literal::Int(7)));
    assert!(Literal::Str(String::from("s")).same(&Literal::Str(String::from("s"))));
    assert!(!Literal::Str(String::from("s")).same(&Literal::Str(String::from("t"))));
    assert_eq!(one.clone(), one);
    let tok = word("abc", 3);
    assert_eq!(tok.clone(), tok);
    assert_eq!(Literal::Str(String::from("s")).clone(), Literal::Str(String::from("s")));
}

#[test]
fn cursor_moves_over_the_tokens() {
    let mut iter = TokIter::new(vec![word("a", 0), mark('+', false, 2)]);
    assert_eq!(iter.len(), 2);
    assert_eq!(iter.mark(), 0);
    assert_eq!(iter.this(), Ok(&word("a", 0)));
    assert_eq!(iter.loc(), Some(at(0, 1)));
    iter.next();
    assert_eq!(iter.this(), Ok(&mark('+', false, 2)));
    let saved = iter.mark();
    iter.next();
    assert_eq!(iter.mark(), 2);
    assert_eq!(
        iter.this(),
        Err(ParseError { et: ParseET::UnexpectedEnd, loc: None, context: vec![] })
    );
    assert_eq!(iter.loc(), None);
    iter.next();
    assert_eq!(iter.mark(), 2);
    iter.restore(saved);
    assert_eq!(iter.mark(), 1);
    assert_eq!(iter.this(), Ok(&mark('+', false, 2)));
}

#[test]
fn span_of_a_range_of_tokens() {
    let mut iter = TokIter::new(vec![word("ab", 1), mark('+', false, 4), word("c", 6)]);
    assert_eq!(iter.span_from(0), at(1, 1));
    iter.next();
    assert_eq!(iter.span_from(0), at(1, 3));
    assert_eq!(iter.span_from(1), at(4, 4));
    iter.next();
    iter.next();
    assert_eq!(iter.span_from(0), at(1, 7));
    assert_eq!(iter.span_from(1), at(4, 7));
    assert_eq!(iter.span_from(2), at(6, 7));
    assert_eq!(iter.span_from(3), at(7, 7));
    let empty = TokIter::new(vec![]);
    assert_eq!(empty.span_from(0), at(0, 0));
}

#[test]
fn consumers_take_what_they_recognize() {
    let mut iter = TokIter::new(vec![word("a", 0)]);
    assert_eq!(get_ident(&mut iter), Ok(ident("a", 0)));
    assert_eq!(iter.mark(), 1);

    let lit = Token::new(TokenType::Literal(Literal::Int(5)), at(0, 1));
    let mut iter = TokIter::new(vec![lit]);
    assert_eq!(get_literal(&mut iter), Ok(AstLiteral(Literal::Int(5), at(0, 1))));
    assert_eq!(iter.mark(), 1);

    let mut iter = TokIter::new(vec![mark('+', false, 0), mark('-', true, 1)]);
    assert_eq!(get_particle(&mut iter), Ok('+'));
    assert_eq!(get_glued_particle(&mut iter), Ok('-'));
    assert_eq!(iter.mark(), 2);

    let mut iter = TokIter::new(vec![mark(':', false, 0), mark(':', true, 1)]);
    assert_eq!(particle(&mut iter, ':'), Ok(()));
    assert_eq!(token(&mut iter, &TokenType::Particle(':', true)), Ok(()));
    assert_eq!(iter.mark(), 2);

    let mut iter = TokIter::new(vec![mark(';', true, 0)]);
    assert_eq!(particle_in(&mut iter, &vec![')', ';', ',']), Ok(';'));
    assert_eq!(iter.mark(), 1);
}

#[test]
fn consumers_refuse_and_stay() {
    let plus = || TokIter::new(vec![mark('+', false, 3)]);
    let name = || TokIter::new(vec![word("a", 3)]);

    let mut iter = plus();
    assert_eq!(get_ident(&mut iter), Err(unexpected(at(3, 4))));
    assert_eq!(iter.mark(), 0);
    let mut iter = plus();
    assert_eq!(get_literal(&mut iter), Err(unexpected(at(3, 4))));
    let mut iter = name();
    assert_eq!(get_particle(&mut iter), Err(unexpected(at(3, 4))));
    let mut iter = plus();
    assert_eq!(get_glued_particle(&mut iter), Err(unexpected(at(3, 4))));
    assert_eq!(iter.mark(), 0);
    let mut iter = name();
    assert_eq!(get_glued_particle(&mut iter), Err(unexpected(at(3, 4))));
    let mut iter = plus();
    assert_eq!(particle(&mut iter, '-'), Err(unexpected(at(3, 4))));
    let mut iter = name();
    assert_eq!(particle(&mut iter, 'a'), Err(unexpected(at(3, 4))));
    let mut iter = plus();
    assert_eq!(particle_in(&mut iter, &vec![')', ';']), Err(unexpected(at(3, 4))));
    let mut iter = plus();
    assert_eq!(particle_in(&mut iter, &vec![]), Err(unexpected(at(3, 4))));
    let mut iter = plus();
    assert_eq!(token(&mut iter, &TokenType::Particle('+', true)), Err(unexpected(at(3, 4))));
    assert_eq!(iter.mark(), 0);

    let end = ParseError { et: ParseET::UnexpectedEnd, loc: None, context: vec![] };
    let mut iter = TokIter::new(vec![]);
    assert_eq!(get_literal(&mut iter), Err(ParseET::UnexpectedEnd.error()));
    assert_eq!(get_ident(&mut iter), Err(ParseET::UnexpectedEnd.error()));
    assert_eq!(get_particle(&mut iter), Err(end));
    assert_eq!(iter.mark(), 0);
}

#[test]
fn folding_a_single_operand() {
    assert_eq!(fold_parts(vec![operand("a", 0)], at(0, 1)), Ok(variable("a", 0)));
}

#[test]
fn folding_by_tiers() {
    // a << b + c * d
    let parts = vec![
        operand("a", 0),
        sign(Op::LShift, 2),
        operand("b", 4),
        sign(Op::Add, 6),
        operand("c", 8),
        sign(Op::Mul, 10),
        operand("d", 12),
    ];
    let product = Expression(
        Expr::BinaryOp(
            Operator(Op::Mul, at(10, 11)),
            Box::new(variable("c", 8)),
            Box::new(variable("d", 12)),
        ),
        at(8, 13),
    );
    let sum = Expression(
        Expr::BinaryOp(Operator(Op::Add, at(6, 7)), Box::new(variable("b", 4)), Box::new(product)),
        at(4, 13),
    );
    let shift = Expression(
        Expr::BinaryOp(Operator(Op::LShift, at(2, 3)), Box::new(variable("a", 0)), Box::new(sum)),
        at(0, 13),
    );
    assert_eq!(fold_parts(parts, at(0, 13)), Ok(shift));
}

#[test]
fn folding_prefix_operators() {
    // - - a
    let parts = vec![sign(Op::Sub, 0), sign(Op::Sub, 2), operand("a", 4)];
    let inner = Expression(
        Expr::UnaryOp(Operator(Op::Sub, at(2, 3)), Box::new(variable("a", 4))),
        at(2, 5),
    );
    let outer = Expression(Expr::UnaryOp(Operator(Op::Sub, at(0, 1)), Box::new(inner)), at(0, 5));
    assert_eq!(fold_parts(parts, at(0, 5)), Ok(outer));
}

#[test]
fn folding_refuses_what_is_no_expression() {
    assert_eq!(fold_parts(vec![], at(3, 3)), Err(unexpected(at(3, 3))));
    assert_eq!(fold_parts(vec![sign(Op::Add, 0)], at(0, 1)), Err(unexpected(at(0, 1))));
    let parts = vec![operand("a", 0), sign(Op::Add, 2)];
    assert_eq!(fold_parts(parts, at(0, 3)), Err(unexpected(at(2, 3))));
    let parts = vec![operand("a", 0), operand("b", 2)];
    assert_eq!(fold_parts(parts, at(0, 3)), Err(unexpected(at(2, 3))));
    let parts = vec![operand("a", 0), sign(Op::Mul, 2), operand("b", 4), operand("c", 6)];
    assert_eq!(fold_parts(parts, at(0, 7)), Err(unexpected(at(6, 7))));
}

#[test]
fn collecting_values_of_one_kind() {
    let values = vec![Value::Char('a'), Value::Char('b')];
    assert_eq!(collect::<char>(values), Some(vec!['a', 'b']));
    assert_eq!(collect::<char>(vec![]), Some(vec![]));
    let values = vec![Value::Char('a'), Value::Unit];
    assert_eq!(collect::<char>(values), None);
    let values = vec![Value::Ident(ident("a", 0))];
    assert_eq!(collect::<Ident>(values), Some(vec![ident("a", 0)]));
    let values =
        vec![Value::Expression(variable("a", 0)), Value::Operator(Operator(Op::Add, at(2, 3)))];
    assert_eq!(collect::<ExprPart>(values), Some(vec![operand("a", 0), sign(Op::Add, 2)]));
}

#[test]
fn simple_transforms() {
    let span = at(1, 9);
    assert_eq!(apply(Transform::Unit, vec![Value::Char('a')], span), Ok(Value::Unit));
    assert_eq!(apply(Transform::Unit, vec![], span), Ok(Value::Unit));
    let kids = || vec![Value::Char('a'), Value::Char('b'), Value::Char('c')];
    assert_eq!(apply(Transform::Pick(0), kids(), span), Ok(Value::Char('a')));
    assert_eq!(apply(Transform::Pick(1), kids(), span), Ok(Value::Char('b')));
    assert_eq!(apply(Transform::Pick(2), kids(), span), Ok(Value::Char('c')));
    assert_eq!(apply(Transform::Pick(3), kids(), span), malformed(span));
    assert_eq!(
        apply(Transform::OrEmpty, vec![Value::Opt(None)], span),
        Ok(Value::List(vec![]))
    );
    assert_eq!(
        apply(Transform::OrEmpty, vec![Value::Opt(Some(Box::new(Value::Char('x'))))], span),
        Ok(Value::Char('x'))
    );
    assert_eq!(apply(Transform::OrEmpty, vec![Value::Unit], span), malformed(span));
}

#[test]
fn transforms_that_build_types() {
    let span = at(1, 9);
    let idents = Value::List(vec![Value::Ident(ident("a", 1)), Value::Ident(ident("b", 4))]);
    assert_eq!(
        apply(Transform::Item, vec![idents], span),
        Ok(Value::Item(Item(vec![ident("a", 1), ident("b", 4)], span)))
    );
    assert_eq!(apply(Transform::Item, vec![Value::List(vec![Value::Unit])], span), malformed(span));
    assert_eq!(apply(Transform::Item, vec![], span), malformed(span));

    let generics = Value::List(vec![Value::FullType(named_type("T", 3))]);
    let ty = Type { generics: vec![named_type("T", 3)], base_type: item("V", 1), loc: span };
    assert_eq!(
        apply(Transform::Type, vec![Value::Item(item("V", 1)), generics], span),
        Ok(Value::Type(ty))
    );
    assert_eq!(
        apply(Transform::Type, vec![Value::Unit, Value::List(vec![])], span),
        malformed(span)
    );

    let plain = || Type { generics: vec![], base_type: item("V", 1), loc: at(1, 2) };
    assert_eq!(
        apply(Transform::Single, vec![Value::Type(plain())], span),
        Ok(Value::TypeT(TypeT::Single(plain())))
    );
    assert_eq!(apply(Transform::Single, vec![Value::Unit], span), malformed(span));

    let members = Value::List(vec![Value::FullType(named_type("a", 2))]);
    assert_eq!(
        apply(Transform::Tuple, vec![Value::Unit, members, Value::Unit], span),
        Ok(Value::TypeT(TypeT::Tuple(vec![named_type("a", 2)])))
    );
    assert_eq!(apply(Transform::Tuple, vec![Value::List(vec![])], span), malformed(span));

    assert_eq!(
        apply(Transform::FullType, vec![Value::TypeT(TypeT::empty())], span),
        Ok(Value::FullType(FullType(TypeT::empty(), span)))
    );
    assert_eq!(apply(Transform::FullType, vec![Value::Unit], span), malformed(span));

    assert_eq!(
        apply(Transform::OrUnitType, vec![Value::Opt(None)], span),
        Ok(Value::FullType(FullType(TypeT::empty(), span)))
    );
    let given = Value::Opt(Some(Box::new(Value::FullType(named_type("a", 2)))));
    assert_eq!(
        apply(Transform::OrUnitType, vec![given], span),
        Ok(Value::FullType(named_type("a", 2)))
    );
    let wrong = Value::Opt(Some(Box::new(Value::Unit)));
    assert_eq!(apply(Transform::OrUnitType, vec![wrong], span), malformed(span));

    assert_eq!(
        apply(
            Transform::Arg,
            vec![Value::Ident(ident("a", 1)), Value::Unit, Value::FullType(named_type("t", 4))],
            span
        ),
        Ok(Value::Arg(ident("a", 1), named_type("t", 4)))
    );
    assert_eq!(
        apply(Transform::Arg, vec![Value::Unit, Value::Unit, Value::Unit], span),
        malformed(span)
    );
}

#[test]
fn transforms_that_build_expressions() {
    let span = at(1, 9);
    let lit = || AstLiteral(Literal::Bool(true), at(1, 5));
    assert_eq!(
        apply(Transform::LiteralExpr, vec![Value::Literal(lit())], span),
        Ok(Value::Expression(Expression(Expr::Literal(lit()), span)))
    );
    assert_eq!(apply(Transform::LiteralExpr, vec![Value::Unit], span), malformed(span));
    assert_eq!(
        apply(Transform::VariableExpr, vec![Value::Ident(ident("a", 1))], span),
        Ok(Value::Expression(Expression(Expr::Variable(ident("a", 1)), span)))
    );
    assert_eq!(apply(Transform::VariableExpr, vec![], span), malformed(span));
    assert_eq!(
        apply(Transform::Located, vec![Value::Expr(Expr::Variable(ident("a", 1)))], span),
        Ok(Value::Expression(Expression(Expr::Variable(ident("a", 1)), span)))
    );
    assert_eq!(apply(Transform::Located, vec![Value::Unit], span), malformed(span));

    let run = |chars: Vec<char>| Value::List(chars.into_iter().map(Value::Char).collect());
    assert_eq!(
        apply(Transform::OperatorRun, vec![Value::Char('<'), run(vec!['<'])], span),
        Ok(Value::Operator(Operator(Op::LShift, span)))
    );
    assert_eq!(
        apply(Transform::OperatorRun, vec![Value::Char('*'), run(vec![]), Value::Unit], span),
        Ok(Value::Operator(Operator(Op::Mul, span)))
    );
    assert_eq!(
        apply(Transform::OperatorRun, vec![Value::Char('<'), run(vec!['='])], span),
        Err(ParseError {
            et: ParseET::UnrecognizedOperator(vec!['<', '=']),
            loc: Some(span),
            context: vec![String::from("operator")],
        })
    );
    assert_eq!(apply(Transform::OperatorRun, vec![Value::Char('<')], span), malformed(span));
    assert_eq!(
        apply(Transform::OperatorRun, vec![Value::Unit, run(vec![])], span),
        malformed(span)
    );

    let parts = Value::List(vec![
        Value::Operator(Operator(Op::Sub, at(1, 2))),
        Value::Expression(variable("a", 2)),
    ]);
    let negated = Expression(
        Expr::UnaryOp(Operator(Op::Sub, at(1, 2)), Box::new(variable("a", 2))),
        at(1, 3),
    );
    assert_eq!(
        apply(Transform::FoldExpression, vec![parts], at(1, 3)),
        Ok(Value::Expression(negated))
    );
    assert_eq!(
        apply(Transform::FoldExpression, vec![Value::List(vec![Value::Unit])], span),
        malformed(span)
    );
    assert_eq!(
        apply(Transform::FoldExpression, vec![Value::List(vec![])], span),
        Err(unexpected(span))
    );

    let args = Value::List(vec![Value::Expression(variable("a", 3))]);
    assert_eq!(
        apply(
            Transform::Call,
            vec![Value::Item(item("f", 1)), Value::Unit, args, Value::Unit],
            span
        ),
        Ok(Value::Expr(Expr::FuncCall(item("f", 1), vec![variable("a", 3)])))
    );
    assert_eq!(
        apply(Transform::Call, vec![Value::Item(item("f", 1)), Value::List(vec![])], span),
        malformed(span)
    );
}

#[test]
fn transforms_that_build_statements() {
    let span = at(1, 9);
    let some = |v: Value| Value::Opt(Some(Box::new(v)));
    let create = |mutable: Value, ty: Value| {
        apply(
            Transform::VarCreate,
            vec![
                Value::Unit,
                mutable,
                Value::Item(item("x", 5)),
                ty,
                Value::Unit,
                Value::Expression(variable("a", 9)),
            ],
            span,
        )
    };
    assert_eq!(
        create(Value::Opt(None), Value::Opt(None)),
        Ok(Value::Stmt(Stmt::VarCreate(item("x", 5), false, None, variable("a", 9))))
    );
    assert_eq!(
        create(some(Value::Unit), some(Value::FullType(named_type("t", 7)))),
        Ok(Value::Stmt(
            Stmt::VarCreate(item("x", 5), true, Some(named_type("t", 7)), variable("a", 9))
        ))
    );
    assert_eq!(create(Value::Opt(None), some(Value::Unit)), malformed(span));
    assert_eq!(create(Value::Unit, Value::Opt(None)), malformed(span));

    let assign = |op: Value| {
        apply(
            Transform::VarAssign,
            vec![Value::Item(item("x", 1)), op, Value::Expression(variable("a", 5))],
            span,
        )
    };
    assert_eq!(
        assign(Value::Unit),
        Ok(Value::Stmt(Stmt::VarAssign(item("x", 1), None, variable("a", 5))))
    );
    let plus = Operator(Op::Add, at(3, 5));
    assert_eq!(
        assign(Value::Operator(plus)),
        Ok(Value::Stmt(Stmt::VarAssign(item("x", 1), Some(plus), variable("a", 5))))
    );
    assert_eq!(assign(Value::Char('+')), malformed(span));

    let call = || Expr::FuncCall(item("f", 1), vec![]);
    assert_eq!(
        apply(Transform::ExprStmt, vec![Value::Expr(call())], span),
        Ok(Value::Stmt(Stmt::Expression(Expression(call(), span))))
    );
    assert_eq!(apply(Transform::ExprStmt, vec![Value::Unit], span), malformed(span));

    let stmt = || Stmt::VarAssign(item("x", 1), None, variable("a", 5));
    assert_eq!(
        apply(Transform::Statement, vec![Value::Stmt(stmt()), Value::Unit], span),
        Ok(Value::Statement(Statement(stmt(), span)))
    );
    assert_eq!(apply(Transform::Statement, vec![Value::Stmt(stmt())], span), malformed(span));

    let statement = || Statement(stmt(), at(1, 7));
    assert_eq!(
        apply(Transform::Block, vec![Value::List(vec![Value::Statement(statement())])], span),
        Ok(Value::Block(Block(vec![statement()], span)))
    );
    assert_eq!(apply(Transform::Block, vec![Value::Unit], span), malformed(span));
}

#[test]
fn transforms_that_build_functions() {
    let span = at(0, 20);
    let body = || Block(vec![], at(10, 10));
    let kids = |args: Value| {
        vec![
            Value::Unit,
            Value::Ident(ident("f", 3)),
            Value::Unit,
            args,
            Value::Unit,
            Value::FullType(named_type("t", 8)),
            Value::Unit,
            Value::Block(body()),
            Value::Unit,
        ]
    };
    let func = || Func {
        name: ident("f", 3),
        args: vec![(ident("a", 5), named_type("u", 7))],
        ret: named_type("t", 8),
        body: body(),
        loc: span,
    };
    let args = Value::List(vec![Value::Arg(ident("a", 5), named_type("u", 7))]);
    assert_eq!(apply(Transform::Func, kids(args), span), Ok(Value::Func(func())));
    assert_eq!(apply(Transform::Func, kids(Value::Unit), span), malformed(span));
    assert_eq!(apply(Transform::Func, vec![], span), malformed(span));

    assert_eq!(
        apply(Transform::Funcs, vec![Value::List(vec![Value::Func(func())])], span),
        Ok(Value::Funcs(vec![func()], span))
    );
    assert_eq!(
        apply(Transform::Funcs, vec![Value::List(vec![Value::Unit])], span),
        malformed(span)
    );
}

fn function(name: &str, start: usize) -> Func {
    Func {
        name: ident(name, start),
        args: vec![],
        ret: FullType(TypeT::empty(), at(start, start)),
        body: Block(vec![], at(start, start)),
        loc: at(start, start + 10),
    }
}

#[test]
fn module_finds_by_name() {
    let mut module = Module::new(ident("m", 0), at(0, 50));
    assert_eq!(module.name, ident("m", 0));
    assert_eq!(module.loc, at(0, 50));
    assert!(module.function("f").is_none());
    assert_eq!(module.add_function(function("f", 3)), Ok(()));
    assert_eq!(module.add_function(function("g", 20)), Ok(()));
    assert_eq!(module.function("f"), Some(&function("f", 3)));
    assert_eq!(module.function("g"), Some(&function("g", 20)));
    assert!(module.function("h").is_none());
    assert!(module.sub_module("f").is_none());

    let mut inner = Module::new(ident("inner", 30), at(30, 45));
    assert_eq!(inner.add_function(function("f", 33)), Ok(()));
    assert_eq!(module.add_module(inner), Ok(()));
    let found = module.sub_module("inner").unwrap();
    assert_eq!(found.function("f"), Some(&function("f", 33)));
    assert!(module.sub_module("outer").is_none());
}

#[test]
fn module_keeps_names_unique() {
    let mut module = Module::new(ident("m", 0), at(0, 50));
    assert_eq!(module.add_function(function("f", 3)), Ok(()));
    assert_eq!(module.add_function(function("f", 20)), Err(function("f", 20)));
    assert_eq!(module.functions, vec![function("f", 3)]);
    assert_eq!(module.function("f"), Some(&function("f", 3)));

    assert_eq!(module.add_module(Module::new(ident("a", 30), at(30, 35))), Ok(()));
    let again = Module::new(ident("a", 40), at(40, 45));
    assert_eq!(module.add_module(again), Err(Module::new(ident("a", 40), at(40, 45))));
    assert_eq!(module.sub_modules.len(), 1);
    assert_eq!(module.sub_module("a").unwrap().loc, at(30, 35));
}
