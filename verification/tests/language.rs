use grammar_engine::ast::{
    AstLiteral, Block, Expr, Expression, FullType, Func, Ident, Item, Op, Operator, Statement,
    Stmt, Type, TypeT,
};
use grammar_engine::cursor::TokIter;
use grammar_engine::error::{ParseET, ParseError};
use grammar_engine::pattern_builder::build_patterns;
use grammar_engine::span::Span;
use grammar_engine::tokens::{Literal, Token, TokenType};

/// Splits `source` into tokens. A punctuation character is glued when it
/// starts where the previous token ends.
fn lex(source: &str) -> Vec<Token> {
    let chars: Vec<char> = source.chars().collect();
    let mut tokens: Vec<Token> = Vec::new();
    let mut i = 0;
    let mut last_end: Option<usize> = None;
    while i < chars.len() {
        let c = chars[i];
        if c.is_whitespace() {
            i += 1;
            continue;
        }
        let start = i;
        let tt = if c.is_alphabetic() || c == '_' {
            while i < chars.len() && (chars[i].is_alphanumeric() || chars[i] == '_') {
                i += 1;
            }
            let text: String = chars[start..i].iter().collect();
            if text == "true" {
                TokenType::Literal(Literal::Bool(true))
            } else if text == "false" {
                TokenType::Literal(Literal::Bool(false))
            } else {
                TokenType::Ident(text)
            }
        } else if c.is_ascii_digit() {
            while i < chars.len() && chars[i].is_ascii_digit() {
                i += 1;
            }
            let text: String = chars[start..i].iter().collect();
            TokenType::Literal(Literal::Int(text.parse().unwrap()))
        } else if c == '"' {
            i += 1;
            while i < chars.len() && chars[i] != '"' {
                i += 1;
            }
            let text: String = chars[start + 1..i].iter().collect();
            i += 1;
            TokenType::Literal(Literal::Str(text))
        } else {
            i += 1;
            TokenType::Particle(c, last_end == Some(start))
        };
        tokens.push(Token::new(tt, Span::new(start, i)));
        last_end = Some(i);
    }
    tokens
}

fn parse_function(source: &str) -> Result<Func, ParseError> {
    let patterns = build_patterns();
    let mut iter = TokIter::new(lex(source));
    patterns.parse_function(&mut iter)
}

fn parse_module(source: &str) -> Result<(Vec<Func>, Span), ParseError> {
    let patterns = build_patterns();
    let mut iter = TokIter::new(lex(source));
    patterns.parse_module_content(&mut iter)
}

fn ident(text: &str, start: usize) -> Ident {
    Ident(String::from(text), Span::new(start, start + text.chars().count()))
}

fn item(text: &str, start: usize) -> Item {
    let id = ident(text, start);
    let span = id.1;
    Item(vec![id], span)
}

fn single(text: &str, start: usize) -> FullType {
    let span = Span::new(start, start + text.chars().count());
    FullType(
        TypeT::Single(Type { generics: vec![], base_type: item(text, start), loc: span }),
        span,
    )
}

fn variable(text: &str, start: usize) -> Expression {
    let id = ident(text, start);
    let span = id.1;
    Expression(Expr::Variable(id), span)
}

fn number(value: i64, start: usize, end: usize) -> Expression {
    let span = Span::new(start, end);
    Expression(Expr::Literal(AstLiteral(Literal::Int(value), span)), span)
}

fn body_of(source: &str) -> Result<Vec<Statement>, ParseError> {
    parse_function(source).map(|f| f.body.0)
}

#[test]
fn function_with_two_arguments_and_a_declaration() {
    //          0         1         2         3         4
    //          01234567890123456789012345678901234567890123
    let src = "fn add(a: i32, b: i32) -> i32 { let x = a; }";
    let func = parse_function(src).unwrap();
    let expected = Func {
        name: ident("add", 3),
        args: vec![(ident("a", 7), single("i32", 10)), (ident("b", 15), single("i32", 18))],
        ret: single("i32", 26),
        body: Block(
            vec![
                Statement(
                    Stmt::VarCreate(item("x", 36), false, None, variable("a", 40)),
                    Span::new(32, 42),
                ),
            ],
            Span::new(32, 42),
        ),
        loc: Span::new(0, 44),
    };
    assert_eq!(func, expected);
}

#[test]
fn empty_argument_list_of_a_definition() {
    let func = parse_function("fn f() {}").unwrap();
    assert_eq!(func.name, ident("f", 3));
    assert!(func.args.is_empty());
    assert!(func.ret.0.is_empty());
    assert_eq!(func.ret.1, Span::new(7, 7));
    assert_eq!(func.body, Block(vec![], Span::new(8, 8)));
    assert_eq!(func.loc, Span::new(0, 9));
}

#[test]
fn empty_argument_list_of_a_call() {
    let stmts = body_of("fn f() { g(); }").unwrap();
    assert_eq!(
        stmts,
        vec![
            Statement(
                Stmt::Expression(
                    Expression(Expr::FuncCall(item("g", 9), vec![]), Span::new(9, 12)),
                ),
                Span::new(9, 13),
            ),
        ]
    );
}

fn tuple(members: Vec<FullType>, start: usize, end: usize) -> FullType {
    FullType(TypeT::Tuple(members), Span::new(start, end))
}

fn declared_type(source: &str) -> Result<FullType, ParseError> {
    let stmts = body_of(source)?;
    match stmts.into_iter().next() {
        Some(Statement(Stmt::VarCreate(_, _, Some(ty), _), _)) => Ok(ty),
        other => panic!("not a typed declaration: {:?}", other),
    }
}

fn value_of(source: &str) -> Result<Expression, ParseError> {
    let stmts = body_of(source)?;
    match stmts.into_iter().next() {
        Some(Statement(Stmt::VarCreate(_, _, _, value), _)) => Ok(value),
        other => panic!("not a declaration: {:?}", other),
    }
}

fn binary(op: Op, at: (usize, usize), left: Expression, right: Expression) -> Expression {
    let span = Span::new(left.1.start, right.1.end);
    Expression(
        Expr::BinaryOp(Operator(op, Span::new(at.0, at.1)), Box::new(left), Box::new(right)),
        span,
    )
}

fn unary(op: Op, at: (usize, usize), operand: Expression) -> Expression {
    let span = Span::new(at.0, operand.1.end);
    Expression(Expr::UnaryOp(Operator(op, Span::new(at.0, at.1)), Box::new(operand)), span)
}

#[test]
fn nested_tuple_type() {
    //                   1         2         3
    //         0123456789012345678901234567890123456789
    let src = "fn f() { let x: ((i32, i32), bool) = a; }";
    let ty = declared_type(src).unwrap();
    let inner = tuple(vec![single("i32", 18), single("i32", 23)], 17, 27);
    assert_eq!(ty, tuple(vec![inner, single("bool", 29)], 16, 34));
}

#[test]
fn empty_tuple_type() {
    let ty = declared_type("fn f() { let x: () = a; }").unwrap();
    assert_eq!(ty, tuple(vec![], 16, 18));
    assert!(ty.0.is_empty());
}

#[test]
fn tuple_refuses_a_trailing_comma() {
    //                   1         2
    //         0123456789012345678901234
    let src = "fn f() { let x: (i32,) = a; }";
    let err = declared_type(src).unwrap_err();
    assert_eq!(err.et, ParseET::UnexpectedToken);
    assert_eq!(err.loc, Some(Span::new(21, 22)));
}

#[test]
fn generics_without_a_trailing_comma() {
    //                   1         2         3
    //         012345678901234567890123456789012345
    let src = "fn f() { let x: Map<K, V> = a; }";
    let ty = declared_type(src).unwrap();
    let expected = FullType(
        TypeT::Single(
            Type {
                generics: vec![single("K", 20), single("V", 23)],
                base_type: item("Map", 16),
                loc: Span::new(16, 25),
            },
        ),
        Span::new(16, 25),
    );
    assert_eq!(ty, expected);
}

#[test]
fn generics_accept_a_trailing_comma() {
    let with = declared_type("fn f() { let x: Map<K, V,> = a; }").unwrap();
    match with.0 {
        TypeT::Single(ty) => {
            assert_eq!(ty.generics, vec![single("K", 20), single("V", 23)]);
            assert_eq!(ty.loc, Span::new(16, 26));
        },
        other => panic!("not a named type: {:?}", other),
    }
}

#[test]
fn generics_may_be_empty() {
    let ty = declared_type("fn f() { let x: Vec<> = a; }").unwrap();
    match ty.0 {
        TypeT::Single(ty) => assert!(ty.generics.is_empty()),
        other => panic!("not a named type: {:?}", other),
    }
}

#[test]
fn generic_argument_may_be_a_tuple() {
    let ty = declared_type("fn f() { let x: Vec<(a, b)> = a; }").unwrap();
    match ty.0 {
        TypeT::Single(ty) => {
            assert_eq!(
                ty.generics,
                vec![tuple(vec![single("a", 21), single("b", 24)], 20, 26)]
            );
        },
        other => panic!("not a named type: {:?}", other),
    }
}

#[test]
fn generics_nest() {
    let ty = declared_type("fn f() { let x: A<B<C>> = a; }");
    // `>>` is two separate characters for the type rules.
    assert!(ty.is_ok());
}

#[test]
fn statements_need_their_terminator() {
    //                   1
    //         01234567890123456789
    let src = "fn f() { let x = a }";
    let err = parse_function(src).unwrap_err();
    // The expression goes on until a terminator, so `}` is read as an operator.
    assert_eq!(err.et, ParseET::UnrecognizedOperator(vec!['}']));
    assert_eq!(err.loc, Some(Span::new(19, 20)));
}

#[test]
fn every_statement_is_terminated() {
    let stmts = body_of("fn f() { let x = a; let y = b; }").unwrap();
    assert_eq!(stmts.len(), 2);
    assert_eq!(stmts[0].1, Span::new(9, 19));
    assert_eq!(stmts[1].1, Span::new(20, 30));
    let err = body_of("fn f() { let x = a; g() }").unwrap_err();
    assert_eq!(err.et, ParseET::UnexpectedToken);
    assert_eq!(err.loc, Some(Span::new(24, 25)));
}

#[test]
fn glued_characters_make_one_operator() {
    //                   1         2
    //         012345678901234567890123456
    let src = "fn f() { let x = a << b; }";
    let value = value_of(src).unwrap();
    assert_eq!(value, binary(Op::LShift, (19, 21), variable("a", 17), variable("b", 22)));
}

#[test]
fn separated_characters_do_not_combine() {
    //                   1         2
    //         0123456789012345678901234567
    let src = "fn f() { let x = a < < b; }";
    let err = value_of(src).unwrap_err();
    assert_eq!(err.et, ParseET::UnrecognizedOperator(vec!['<']));
    assert_eq!(err.loc, Some(Span::new(19, 20)));
    //          0123456789012345678901234567
    let src2 = "fn f() { let x = a - - b; }";
    let value = value_of(src2).unwrap();
    assert_eq!(
        value,
        binary(Op::Sub, (19, 20), variable("a", 17), unary(Op::Sub, (21, 22), variable("b", 23)))
    );
}

#[test]
fn right_shift_operator() {
    let value = value_of("fn f() { let x = a >> 2; }").unwrap();
    assert_eq!(value, binary(Op::RShift, (19, 21), variable("a", 17), number(2, 22, 23)));
}

#[test]
fn unknown_operator_is_reported_with_its_rules() {
    //                   1         2
    //         01234567890123456789012345
    let src = "fn f() { let x = a +- b; }";
    let err = parse_function(src).unwrap_err();
    assert_eq!(err.et, ParseET::UnrecognizedOperator(vec!['+', '-']));
    assert_eq!(err.et.message(), "Operator '+-' not recognized");
    assert_eq!(err.loc, Some(Span::new(19, 21)));
    assert_eq!(
        err.context,
        vec![
            "function",
            "block",
            "statement",
            "variable declaration",
            "expression",
            "operator"
        ]
    );
}

#[test]
fn precedence_of_binary_operators() {
    //                   1         2         3
    //         0123456789012345678901234567890123
    let src = "fn f() { let x = a + b * c << d; }";
    let value = value_of(src).unwrap();
    let product = binary(Op::Mul, (23, 24), variable("b", 21), variable("c", 25));
    let sum = binary(Op::Add, (19, 20), variable("a", 17), product);
    assert_eq!(value, binary(Op::LShift, (27, 29), sum, variable("d", 30)));
}

#[test]
fn binary_operators_associate_to_the_left() {
    //                   1         2
    //         01234567890123456789012345678
    let src = "fn f() { let x = a - b - c; }";
    let value = value_of(src).unwrap();
    let first = binary(Op::Sub, (19, 20), variable("a", 17), variable("b", 21));
    assert_eq!(value, binary(Op::Sub, (23, 24), first, variable("c", 25)));
    let value = value_of("fn f() { let x = a / b * c; }").unwrap();
    let first = binary(Op::Div, (19, 20), variable("a", 17), variable("b", 21));
    assert_eq!(value, binary(Op::Mul, (23, 24), first, variable("c", 25)));
}

#[test]
fn prefix_operator_binds_tightest() {
    //                   1         2
    //         012345678901234567890123456
    let src = "fn f() { let x = -a * b; }";
    let value = value_of(src).unwrap();
    let negated = unary(Op::Sub, (17, 18), variable("a", 18));
    assert_eq!(value, binary(Op::Mul, (20, 21), negated, variable("b", 22)));
}

#[test]
fn operand_after_operand_is_refused() {
    //                   1         2
    //         0123456789012345678901234
    let src = "fn f() { let x = a b; }";
    let err = parse_function(src).unwrap_err();
    assert_eq!(err.et, ParseET::UnexpectedToken);
    assert_eq!(err.loc, Some(Span::new(19, 20)));
    assert_eq!(
        err.context,
        vec!["function", "block", "statement", "variable declaration", "expression"]
    );
}

#[test]
fn operator_without_operand_is_refused() {
    let err = parse_function("fn f() { let x = a + ; }").unwrap_err();
    assert_eq!(err.et, ParseET::UnexpectedToken);
    assert_eq!(err.loc, Some(Span::new(19, 20)));
    assert_eq!(
        err.context,
        vec!["function", "block", "statement", "variable declaration", "expression"]
    );
}

#[test]
fn operator_run_takes_every_glued_character() {
    let err = parse_function("fn f() { let x = a +; }").unwrap_err();
    assert_eq!(err.et, ParseET::UnrecognizedOperator(vec!['+', ';']));
    assert_eq!(err.loc, Some(Span::new(19, 21)));
}

#[test]
fn literals_in_expressions() {
    let value = value_of("fn f() { let x = 12 + 3; }").unwrap();
    assert_eq!(value, binary(Op::Add, (20, 21), number(12, 17, 19), number(3, 22, 23)));
    let value = value_of("fn f() { let x = true; }").unwrap();
    let span = Span::new(17, 21);
    assert_eq!(value, Expression(Expr::Literal(AstLiteral(Literal::Bool(true), span)), span));
    let value = value_of("fn f() { let x = \"hi\"; }").unwrap();
    let span = Span::new(17, 21);
    assert_eq!(
        value,
        Expression(Expr::Literal(AstLiteral(Literal::Str(String::from("hi")), span)), span)
    );
}

#[test]
fn call_with_arguments_and_nested_call() {
    //                   1         2         3
    //         01234567890123456789012345678901234
    let src = "fn f() { let x = g(a, h(b), 1); }";
    let value = value_of(src).unwrap();
    let inner = Expression(
        Expr::FuncCall(item("h", 22), vec![variable("b", 24)]),
        Span::new(22, 26),
    );
    let expected = Expression(
        Expr::FuncCall(item("g", 17), vec![variable("a", 19), inner, number(1, 28, 29)]),
        Span::new(17, 30),
    );
    assert_eq!(value, expected);
}

#[test]
fn call_refuses_a_trailing_comma() {
    let err = parse_function("fn f() { g(a,); }").unwrap_err();
    assert_eq!(err.et, ParseET::UnexpectedToken);
    assert_eq!(err.loc, Some(Span::new(13, 14)));
    assert_eq!(
        err.context,
        vec!["function", "block", "statement", "function call", "args"]
    );
}

#[test]
fn call_on_a_qualified_path_as_statement() {
    //                   1         2
    //         012345678901234567890123
    let src = "fn f() { a::b::c(x); }";
    let stmts = body_of(src).unwrap();
    let path = Item(vec![ident("a", 9), ident("b", 12), ident("c", 15)], Span::new(9, 16));
    assert_eq!(
        stmts,
        vec![
            Statement(
                Stmt::Expression(
                    Expression(Expr::FuncCall(path, vec![variable("x", 17)]), Span::new(9, 19)),
                ),
                Span::new(9, 20),
            ),
        ]
    );
}

#[test]
fn path_separator_must_be_glued() {
    // The path ends before a `:` that no glued `:` follows, and the call
    // wants its `(` there.
    let err = parse_function("fn f() { a: :b(x); }").unwrap_err();
    assert_eq!(err.et, ParseET::UnexpectedToken);
    assert_eq!(err.loc, Some(Span::new(10, 11)));
    assert_eq!(err.context, vec!["function", "block", "statement", "function call"]);
}

#[test]
fn mutable_declaration_with_type() {
    //                   1         2         3
    //         0123456789012345678901234567890
    let src = "fn f() { let mut x: i32 = 1; }";
    let stmts = body_of(src).unwrap();
    assert_eq!(
        stmts,
        vec![
            Statement(
                Stmt::VarCreate(item("x", 17), true, Some(single("i32", 20)), number(1, 26, 27)),
                Span::new(9, 28),
            ),
        ]
    );
}

#[test]
fn plain_assignment() {
    let stmts = body_of("fn f() { x = y; }").unwrap();
    assert_eq!(
        stmts,
        vec![
            Statement(Stmt::VarAssign(item("x", 9), None, variable("y", 13)), Span::new(9, 15)),
        ]
    );
}

#[test]
fn compound_assignment_with_one_character() {
    //                   1
    //         012345678901234567
    let src = "fn f() { x += 1; }";
    let stmts = body_of(src).unwrap();
    assert_eq!(
        stmts,
        vec![
            Statement(
                Stmt::VarAssign(
                    item("x", 9),
                    Some(Operator(Op::Add, Span::new(11, 13))),
                    number(1, 14, 15),
                ),
                Span::new(9, 16),
            ),
        ]
    );
}

#[test]
fn compound_assignment_with_two_characters() {
    let stmts = body_of("fn f() { x <<= 1; }").unwrap();
    assert_eq!(
        stmts,
        vec![
            Statement(
                Stmt::VarAssign(
                    item("x", 9),
                    Some(Operator(Op::LShift, Span::new(11, 14))),
                    number(1, 15, 16),
                ),
                Span::new(9, 17),
            ),
        ]
    );
}

#[test]
fn compound_assignment_needs_a_glued_equals() {
    let err = parse_function("fn f() { x + = 1; }").unwrap_err();
    assert_eq!(err.et, ParseET::UnexpectedToken);
    assert_eq!(err.loc, Some(Span::new(13, 14)));
    assert_eq!(
        err.context,
        vec!["function", "block", "statement", "variable assignment", "variable assignment"]
    );
}

#[test]
fn compound_assignment_with_unknown_operator() {
    let err = parse_function("fn f() { x %= 1; }").unwrap_err();
    assert_eq!(err.et, ParseET::UnrecognizedOperator(vec!['%']));
    assert_eq!(err.loc, Some(Span::new(11, 13)));
}

#[test]
fn let_is_a_declaration_not_an_assignment() {
    // `let` is an identifier too, and the assignment rule would take it.
    let stmts = body_of("fn f() { let x = 1; }").unwrap();
    assert!(matches!(stmts[0].0, Stmt::VarCreate(..)));
}

#[test]
fn error_names_the_rules_around_it() {
    //                   1
    //         0123456789012345678
    let src = "fn f(a: i32, b) {}";
    let err = parse_function(src).unwrap_err();
    assert_eq!(err.et, ParseET::UnexpectedToken);
    // The location is that of the `)` where a `:` should stand, not the start
    // of the function.
    assert_eq!(err.loc, Some(Span::new(14, 15)));
    assert_eq!(err.context, vec!["function", "function args", "ident type pair"]);
}

#[test]
fn error_at_the_end_of_the_input_has_no_location() {
    let err = parse_function("fn f(").unwrap_err();
    assert_eq!(err.et, ParseET::UnexpectedEnd);
    assert_eq!(err.loc, None);
    assert_eq!(err.context, vec!["function"]);
    let err = parse_function("").unwrap_err();
    assert_eq!(err.et, ParseET::UnexpectedEnd);
    assert_eq!(err.loc, None);
}

#[test]
fn function_needs_the_keyword() {
    let err = parse_function("add() {}").unwrap_err();
    assert_eq!(err.et, ParseET::UnexpectedToken);
    assert_eq!(err.loc, Some(Span::new(0, 3)));
    assert_eq!(err.context, vec!["function"]);
}

#[test]
fn return_type_may_be_a_tuple() {
    let func = parse_function("fn f() -> (a, b) {}").unwrap();
    assert_eq!(func.ret, tuple(vec![single("a", 11), single("b", 14)], 10, 16));
}

#[test]
fn return_type_is_required_after_the_arrow() {
    let err = parse_function("fn f() -> {}").unwrap_err();
    assert_eq!(err.et, ParseET::UnexpectedToken);
    assert_eq!(err.loc, Some(Span::new(10, 11)));
    assert_eq!(err.context, vec!["function", "return type", "type", "single type", "item"]);
}

#[test]
fn function_arguments_refuse_a_trailing_comma() {
    let err = parse_function("fn f(a: i32,) {}").unwrap_err();
    assert_eq!(err.et, ParseET::UnexpectedToken);
    assert_eq!(err.loc, Some(Span::new(12, 13)));
}

#[test]
fn cursor_stands_after_the_function() {
    let patterns = build_patterns();
    let mut iter = TokIter::new(lex("fn f() {} fn g() {}"));
    let first = patterns.parse_function(&mut iter).unwrap();
    assert_eq!(first.name, ident("f", 3));
    assert_eq!(iter.mark(), 6);
    let second = patterns.parse_function(&mut iter).unwrap();
    assert_eq!(second.name, ident("g", 13));
    assert_eq!(iter.mark(), 12);
    assert_eq!(iter.len(), 12);
}

#[test]
fn module_content_lists_the_functions_in_order() {
    let (funcs, span) = parse_module("fn f() {} fn g(a: i32) {} fn h() {}").unwrap();
    let names: Vec<&str> = funcs.iter().map(|f| f.name.0.as_str()).collect();
    assert_eq!(names, vec!["f", "g", "h"]);
    assert_eq!(span, Span::new(0, 35));
}

#[test]
fn module_content_may_be_empty() {
    let (funcs, span) = parse_module("").unwrap();
    assert!(funcs.is_empty());
    assert_eq!(span, Span::new(0, 0));
}

#[test]
fn module_content_stops_before_what_is_no_function() {
    let patterns = build_patterns();
    let mut iter = TokIter::new(lex("fn f() {} x"));
    let (funcs, span) = patterns.parse_module_content(&mut iter).unwrap();
    assert_eq!(funcs.len(), 1);
    assert_eq!(span, Span::new(0, 9));
    assert_eq!(iter.mark(), 6);
}

#[test]
fn module_content_fails_inside_a_function() {
    let err = parse_module("fn f() {} fn g( {}").unwrap_err();
    assert_eq!(err.et, ParseET::UnexpectedToken);
    assert_eq!(err.loc, Some(Span::new(16, 17)));
    assert_eq!(err.context, vec!["module content", "function"]);
}

#[test]
fn grammar_of_the_language_is_bound() {
    let patterns = build_patterns();
    assert!(patterns.grammar().is_bound());
    assert_eq!(patterns.grammar().len(), 77);
}
