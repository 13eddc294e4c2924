//! The grammar of the language as a table of rules, and what holds of it.

use crate::ast::{
    operator_error, operator_of, BlockView, FullType, FullTypeView, FuncView, Ident, IdentView,
    Operator, Statement, TypeTView,
};
use crate::cursor::span_of;
use crate::error::{ParseETView, ParseErrorView};
use crate::grammar::{bound, node_structured, structured, ListRule, NodeView, Trail};
use crate::laws::{lemma_dispatch_order, lemma_sound_grammar_is_valid};
use crate::semantics::{items_from, run, step, steps_from, Outcome};
use crate::span::Span;
use crate::tokens::{TokenTypeView, TokenView};
use crate::transform::{all, extract_all, transformed, Transform};
use crate::progress::{
    lemma_productive_grammar_progresses, node_productive, productive, Effort,
};
use crate::typing::{
    has_kind, lemma_typed_grammar_keeps_kinds, list_of_kind, node_typed, opt_of_kind, typed, Kind,
};
use crate::value::ValueView;
use vstd::prelude::*;

verus! {

// The rules of the language, by their index in the table. A rule stands
// after the rules that it is made of.
pub const IDENT: usize = 0;
pub const LITERAL: usize = 1;
pub const PARTICLE: usize = 2;
pub const GLUED: usize = 3;
pub const NOTHING: usize = 4;
pub const COLON: usize = 5;
pub const COMMA: usize = 6;
pub const OPEN: usize = 7;
pub const CLOSE: usize = 8;
pub const EQUALS: usize = 9;
pub const GLUED_COLON: usize = 10;
pub const PATH_SEP: usize = 11;
pub const PATH: usize = 12;
pub const ITEM: usize = 13;
pub const TYPE_REF: usize = 14;
pub const LESS: usize = 15;
pub const GREATER: usize = 16;
pub const TYPE_START: usize = 17;
pub const GENERIC_ARGS: usize = 18;
pub const GENERICS: usize = 19;
pub const GENERICS_IF_ANY: usize = 20;
pub const OPTIONAL_GENERICS: usize = 21;
pub const SINGLE_TYPE: usize = 22;
pub const TUPLE_MEMBERS: usize = 23;
pub const TUPLE_TYPE: usize = 24;
pub const NAMED_TYPE: usize = 25;
pub const TYPE_CHOICE: usize = 26;
pub const FULL_TYPE: usize = 27;
pub const ARG: usize = 28;
pub const ARG_LIST: usize = 29;
pub const FN_ARGS: usize = 30;
pub const MINUS: usize = 31;
pub const ARROW: usize = 32;
pub const TERMINATOR: usize = 33;
pub const MORE: usize = 34;
pub const CALL_REF: usize = 35;
pub const LITERAL_EXPR: usize = 36;
pub const CALL_START: usize = 37;
pub const CALL_EXPR: usize = 38;
pub const VARIABLE_EXPR: usize = 39;
pub const GLUED_RUN: usize = 40;
pub const OPERATOR: usize = 41;
pub const EXPR_PART: usize = 42;
pub const EXPR_PARTS: usize = 43;
pub const EXPRESSION: usize = 44;
pub const ARG_VALUES: usize = 45;
pub const ARGS: usize = 46;
pub const FN_CALL: usize = 47;
pub const LET: usize = 48;
pub const MUT: usize = 49;
pub const MAYBE_MUT: usize = 50;
pub const VAR_TYPE: usize = 51;
pub const MAYBE_VAR_TYPE: usize = 52;
pub const VAR_CREATE: usize = 53;
pub const NOT_EQUALS: usize = 54;
pub const COMPOUND_RUN: usize = 55;
pub const GLUED_EQUALS: usize = 56;
pub const COMPOUND: usize = 57;
pub const ASSIGN_OP: usize = 58;
pub const VAR_ASSIGN: usize = 59;
pub const CALL_AHEAD_NEXT: usize = 60;
pub const CALL_AHEAD: usize = 61;
pub const CALL_STMT: usize = 62;
pub const STMT_CHOICE: usize = 63;
pub const SEMICOLON: usize = 64;
pub const STATEMENT: usize = 65;
pub const STATEMENTS: usize = 66;
pub const BLOCK: usize = 67;
pub const FN: usize = 68;
pub const RETURN_TYPE: usize = 69;
pub const MAYBE_RETURN: usize = 70;
pub const RETURN_OR_UNIT: usize = 71;
pub const OPEN_BRACE: usize = 72;
pub const CLOSE_BRACE: usize = 73;
pub const FUNCTION: usize = 74;
pub const FUNCTIONS: usize = 75;
pub const MODULE_CONTENT: usize = 76;

/// A list rule.
pub open spec fn list(
    item_pred: usize,
    item: usize,
    delim_pred: usize,
    delim: usize,
    trail: Trail,
    non_empty: bool,
) -> NodeView {
    NodeView::List(ListRule { item_pred, item, delim_pred, delim, trail, non_empty })
}

/// A named pattern.
pub open spec fn named(label: Seq<char>, steps: Seq<usize>, transform: Transform) -> NodeView {
    NodeView::Pattern { label: Some(label), steps, transform }
}

/// A pattern without a name.
pub open spec fn inline(steps: Seq<usize>, transform: Transform) -> NodeView {
    NodeView::Pattern { label: None, steps, transform }
}

/// The consumers that the rules share, and the rule for a path:
///
/// ```text
/// item := ident ("::" ident)*
/// ```
///
/// The second `:` of a separator must be glued to the first.
pub open spec fn item_rules() -> Seq<NodeView> {
    seq![
        NodeView::GetIdent,
        NodeView::GetLiteral,
        NodeView::GetParticle,
        NodeView::GetGluedParticle,
        NodeView::Dummy,
        NodeView::Particle(':'),
        NodeView::Particle(','),
        NodeView::Particle('('),
        NodeView::Particle(')'),
        NodeView::Particle('='),
        NodeView::Token(TokenTypeView::Particle(':', true)),
        inline(seq![COLON, GLUED_COLON], Transform::Unit),
        list(IDENT, IDENT, PATH_SEP, PATH_SEP, Trail::Never, true),
        named("item"@, seq![PATH], Transform::Item),
    ]
}

/// The rules for types, after those for paths:
///
/// ```text
/// generics   := "<" (full_type ("," full_type)*)? ","? ">"
/// type       := item generics?
/// tuple_type := "(" (full_type ("," full_type)*)? ")"
/// full_type  := tuple_type | type
/// ```
///
/// A type begins with `(` or with an identifier; `(` selects the tuple.
pub open spec fn type_rules() -> Seq<NodeView> {
    item_rules() + seq![
        NodeView::RefLoop(Some(FULL_TYPE)),
        NodeView::Particle('<'),
        NodeView::Particle('>'),
        NodeView::BranchIfElse { condition: OPEN, taken: OPEN, otherwise: IDENT },
        list(TYPE_START, TYPE_REF, COMMA, COMMA, Trail::Optional, false),
        named("generics"@, seq![LESS, GENERIC_ARGS, GREATER], Transform::Pick(1)),
        NodeView::Conditional { predicate: LESS, pattern: GENERICS },
        named("optional generics"@, seq![GENERICS_IF_ANY], Transform::OrEmpty),
        named("single type"@, seq![ITEM, OPTIONAL_GENERICS], Transform::Type),
        list(TYPE_START, TYPE_REF, COMMA, COMMA, Trail::Never, false),
        inline(seq![OPEN, TUPLE_MEMBERS, CLOSE], Transform::Tuple),
        inline(seq![SINGLE_TYPE], Transform::Single),
        NodeView::BranchIfElse { condition: OPEN, taken: TUPLE_TYPE, otherwise: NAMED_TYPE },
        named("type"@, seq![TYPE_CHOICE], Transform::FullType),
    ]
}

/// The rules for the arguments of a function definition and for the arrow
/// before its return type, after those for types:
///
/// ```text
/// fn_args := (ident ":" full_type ("," ident ":" full_type)*)?
/// arrow   := "-" ">"
/// ```
pub open spec fn signature_rules() -> Seq<NodeView> {
    type_rules() + seq![
        named("ident type pair"@, seq![IDENT, COLON, FULL_TYPE], Transform::Arg),
        list(IDENT, ARG, COMMA, COMMA, Trail::Never, false),
        named("function args"@, seq![ARG_LIST], Transform::Pick(0)),
        NodeView::Particle('-'),
        inline(seq![MINUS, GREATER], Transform::Unit),
    ]
}

/// The rules for expressions and calls, after those for signatures:
///
/// ```text
/// operator   := particle glued_particle*
/// expression := (literal | ident "(" args ")" | ident | operator)+
/// args       := (expression ("," expression)*)?
/// fn_call    := item "(" args ")"
/// ```
///
/// An expression goes on until `)`, `;` or `,`. Its parts are tried in the
/// order given: a call before a variable, both of which begin with an
/// identifier.
pub open spec fn expression_rules() -> Seq<NodeView> {
    signature_rules() + seq![
        NodeView::ParticleIn(seq![')', ';', ',']),
        NodeView::Not(TERMINATOR),
        NodeView::RefLoop(Some(FN_CALL)),
        inline(seq![LITERAL], Transform::LiteralExpr),
        inline(seq![IDENT, OPEN], Transform::Unit),
        inline(seq![CALL_REF], Transform::Located),
        inline(seq![IDENT], Transform::VariableExpr),
        list(GLUED, GLUED, NOTHING, NOTHING, Trail::Always, false),
        inline(seq![PARTICLE, GLUED_RUN], Transform::OperatorRun),
        NodeView::Match(
            seq![
                (LITERAL, LITERAL_EXPR),
                (CALL_START, CALL_EXPR),
                (IDENT, VARIABLE_EXPR),
                (PARTICLE, OPERATOR),
            ],
        ),
        list(MORE, EXPR_PART, NOTHING, NOTHING, Trail::Always, true),
        named("expression"@, seq![EXPR_PARTS], Transform::FoldExpression),
        list(MORE, EXPRESSION, COMMA, COMMA, Trail::Never, false),
        named("args"@, seq![ARG_VALUES], Transform::Pick(0)),
        named("function call"@, seq![ITEM, OPEN, ARGS, CLOSE], Transform::Call),
    ]
}

/// The rules for statements and blocks, after those for expressions:
///
/// ```text
/// var_create  := "let" "mut"? item (":" full_type)? "=" expression
/// compound_op := particle glued_particle* glued "="
/// var_assign  := item (compound_op | "=") expression
/// statement   := (var_create | fn_call | var_assign) ";"
/// block       := statement*
/// ```
///
/// The kinds of statement are tried in the order given: `let` selects a
/// declaration, an identifier followed by `:` or `(` a call, anything else
/// an assignment. The characters of a compound operator stop before the
/// first `=`, which must be glued to them.
pub open spec fn statement_rules() -> Seq<NodeView> {
    expression_rules() + seq![
        NodeView::Token(TokenTypeView::Ident("let"@)),
        NodeView::Token(TokenTypeView::Ident("mut"@)),
        NodeView::Conditional { predicate: MUT, pattern: MUT },
        named("variable type"@, seq![COLON, FULL_TYPE], Transform::Pick(1)),
        NodeView::Conditional { predicate: COLON, pattern: VAR_TYPE },
        named(
            "variable declaration"@,
            seq![LET, MAYBE_MUT, ITEM, MAYBE_VAR_TYPE, EQUALS, EXPRESSION],
            Transform::VarCreate,
        ),
        NodeView::Not(EQUALS),
        list(NOT_EQUALS, GLUED, NOTHING, NOTHING, Trail::Always, false),
        NodeView::Token(TokenTypeView::Particle('=', true)),
        named(
            "variable assignment"@,
            seq![PARTICLE, COMPOUND_RUN, GLUED_EQUALS],
            Transform::OperatorRun,
        ),
        NodeView::BranchIfElse { condition: NOT_EQUALS, taken: COMPOUND, otherwise: EQUALS },
        named("variable assignment"@, seq![ITEM, ASSIGN_OP, EXPRESSION], Transform::VarAssign),
        NodeView::BranchIfElse { condition: COLON, taken: COLON, otherwise: OPEN },
        inline(seq![IDENT, CALL_AHEAD_NEXT], Transform::Unit),
        inline(seq![FN_CALL], Transform::ExprStmt),
        NodeView::Match(
            seq![(LET, VAR_CREATE), (CALL_AHEAD, CALL_STMT), (NOTHING, VAR_ASSIGN)],
        ),
        NodeView::Particle(';'),
        named("statement"@, seq![STMT_CHOICE, SEMICOLON], Transform::Statement),
        list(IDENT, STATEMENT, NOTHING, NOTHING, Trail::Always, false),
        named("block"@, seq![STATEMENTS], Transform::Block),
    ]
}

/// The whole grammar: the rules for functions and for the content of a
/// module, after those for statements:
///
/// ```text
/// function    := "fn" ident "(" fn_args ")" (arrow full_type)? "{" block "}"
/// module_body := function*
/// ```
///
/// A function without a return type returns the empty tuple.
pub open spec fn language() -> Seq<NodeView> {
    statement_rules() + seq![
        NodeView::Token(TokenTypeView::Ident("fn"@)),
        named("return type"@, seq![ARROW, FULL_TYPE], Transform::Pick(1)),
        NodeView::Conditional { predicate: ARROW, pattern: RETURN_TYPE },
        inline(seq![MAYBE_RETURN], Transform::OrUnitType),
        NodeView::Particle('{'),
        NodeView::Particle('}'),
        named(
            "function"@,
            seq![
                FN,
                IDENT,
                OPEN,
                FN_ARGS,
                CLOSE,
                RETURN_OR_UNIT,
                OPEN_BRACE,
                BLOCK,
                CLOSE_BRACE,
            ],
            Transform::Func,
        ),
        list(FN, FUNCTION, NOTHING, NOTHING, Trail::Always, false),
        named("module content"@, seq![FUNCTIONS], Transform::Funcs),
    ]
}

/// How many rules each part of the grammar holds.
pub proof fn lemma_sizes()
    ensures
        item_rules().len() == 14,
        type_rules().len() == 28,
        signature_rules().len() == 33,
        expression_rules().len() == 48,
        statement_rules().len() == 68,
        language().len() == 77,
{
}

/// The kinds of the shared consumers and of the rule for a path.
pub open spec fn item_kinds() -> Seq<Kind> {
    seq![
        Kind::Ident,
        Kind::Literal,
        Kind::Char,
        Kind::Char,
        Kind::Unit,
        Kind::Unit,
        Kind::Unit,
        Kind::Unit,
        Kind::Unit,
        Kind::Unit,
        Kind::Unit,
        Kind::Unit,
        list_of_kind(Kind::Ident),
        Kind::Item,
    ]
}

/// The kinds of the rules for types, after those before them.
pub open spec fn type_kinds() -> Seq<Kind> {
    item_kinds() + seq![
        Kind::FullType,
        Kind::Unit,
        Kind::Unit,
        Kind::Any,
        list_of_kind(Kind::FullType),
        list_of_kind(Kind::FullType),
        opt_of_kind(list_of_kind(Kind::FullType)),
        list_of_kind(Kind::FullType),
        Kind::Type,
        list_of_kind(Kind::FullType),
        Kind::TypeT,
        Kind::TypeT,
        Kind::TypeT,
        Kind::FullType,
    ]
}

/// The kinds of the rules for signatures, after those before them.
pub open spec fn signature_kinds() -> Seq<Kind> {
    type_kinds() + seq![
        Kind::Arg,
        list_of_kind(Kind::Arg),
        list_of_kind(Kind::Arg),
        Kind::Unit,
        Kind::Unit,
    ]
}

/// The kinds of the rules for expressions and calls, after those before them.
pub open spec fn expression_kinds() -> Seq<Kind> {
    signature_kinds() + seq![
        Kind::Char,
        Kind::Unit,
        Kind::Expr,
        Kind::Expression,
        Kind::Unit,
        Kind::Expression,
        Kind::Expression,
        list_of_kind(Kind::Char),
        Kind::Operator,
        Kind::Part,
        list_of_kind(Kind::Part),
        Kind::Expression,
        list_of_kind(Kind::Expression),
        list_of_kind(Kind::Expression),
        Kind::Expr,
    ]
}

/// The kinds of the rules for statements and blocks, after those before them.
pub open spec fn statement_kinds() -> Seq<Kind> {
    expression_kinds() + seq![
        Kind::Unit,
        Kind::Unit,
        opt_of_kind(Kind::Unit),
        Kind::FullType,
        opt_of_kind(Kind::FullType),
        Kind::Stmt,
        Kind::Unit,
        list_of_kind(Kind::Char),
        Kind::Unit,
        Kind::Operator,
        Kind::MaybeOperator,
        Kind::Stmt,
        Kind::Unit,
        Kind::Unit,
        Kind::Stmt,
        Kind::Stmt,
        Kind::Unit,
        Kind::Statement,
        list_of_kind(Kind::Statement),
        Kind::Block,
    ]
}

/// The kind of value that each rule of the language yields.
pub open spec fn language_kinds() -> Seq<Kind> {
    statement_kinds() + seq![
        Kind::Unit,
        Kind::FullType,
        opt_of_kind(Kind::FullType),
        Kind::FullType,
        Kind::Unit,
        Kind::Unit,
        Kind::Func,
        list_of_kind(Kind::Func),
        Kind::Funcs,
    ]
}

proof fn lemma_rule_is_typed(id: int)
    requires
        0 <= id < 77,
    ensures
        node_typed(language(), language_kinds(), id),
{
    lemma_sizes();
    let rules = language();
    let kinds = language_kinds();
    assert(kinds.len() == 77);
    assert(id == 0 ==> node_typed(rules, kinds, 0));
    assert(id == 1 ==> node_typed(rules, kinds, 1));
    assert(id == 2 ==> node_typed(rules, kinds, 2));
    assert(id == 3 ==> node_typed(rules, kinds, 3));
    assert(id == 4 ==> node_typed(rules, kinds, 4));
    assert(id == 5 ==> node_typed(rules, kinds, 5));
    assert(id == 6 ==> node_typed(rules, kinds, 6));
    assert(id == 7 ==> node_typed(rules, kinds, 7));
    assert(id == 8 ==> node_typed(rules, kinds, 8));
    assert(id == 9 ==> node_typed(rules, kinds, 9));
    assert(id == 10 ==> node_typed(rules, kinds, 10));
    assert(id == 11 ==> node_typed(rules, kinds, 11));
    assert(id == 12 ==> node_typed(rules, kinds, 12));
    assert(id == 13 ==> node_typed(rules, kinds, 13));
    assert(id == 14 ==> node_typed(rules, kinds, 14));
    assert(id == 15 ==> node_typed(rules, kinds, 15));
    assert(id == 16 ==> node_typed(rules, kinds, 16));
    assert(id == 17 ==> node_typed(rules, kinds, 17));
    assert(id == 18 ==> node_typed(rules, kinds, 18));
    assert(id == 19 ==> node_typed(rules, kinds, 19));
    assert(id == 20 ==> node_typed(rules, kinds, 20));
    assert(id == 21 ==> node_typed(rules, kinds, 21));
    assert(id == 22 ==> node_typed(rules, kinds, 22));
    assert(id == 23 ==> node_typed(rules, kinds, 23));
    assert(id == 24 ==> node_typed(rules, kinds, 24));
    assert(id == 25 ==> node_typed(rules, kinds, 25));
    assert(id == 26 ==> node_typed(rules, kinds, 26));
    assert(id == 27 ==> node_typed(rules, kinds, 27));
    assert(id == 28 ==> node_typed(rules, kinds, 28));
    assert(id == 29 ==> node_typed(rules, kinds, 29));
    assert(id == 30 ==> node_typed(rules, kinds, 30));
    assert(id == 31 ==> node_typed(rules, kinds, 31));
    assert(id == 32 ==> node_typed(rules, kinds, 32));
    assert(id == 33 ==> node_typed(rules, kinds, 33));
    assert(id == 34 ==> node_typed(rules, kinds, 34));
    assert(id == 35 ==> node_typed(rules, kinds, 35));
    assert(id == 36 ==> node_typed(rules, kinds, 36));
    assert(id == 37 ==> node_typed(rules, kinds, 37));
    assert(id == 38 ==> node_typed(rules, kinds, 38));
    assert(id == 39 ==> node_typed(rules, kinds, 39));
    assert(id == 40 ==> node_typed(rules, kinds, 40));
    assert(id == 41 ==> node_typed(rules, kinds, 41));
    assert(id == 42 ==> node_typed(rules, kinds, 42));
    assert(id == 43 ==> node_typed(rules, kinds, 43));
    assert(id == 44 ==> node_typed(rules, kinds, 44));
    assert(id == 45 ==> node_typed(rules, kinds, 45));
    assert(id == 46 ==> node_typed(rules, kinds, 46));
    assert(id == 47 ==> node_typed(rules, kinds, 47));
    assert(id == 48 ==> node_typed(rules, kinds, 48));
    assert(id == 49 ==> node_typed(rules, kinds, 49));
    assert(id == 50 ==> node_typed(rules, kinds, 50));
    assert(id == 51 ==> node_typed(rules, kinds, 51));
    assert(id == 52 ==> node_typed(rules, kinds, 52));
    assert(id == 53 ==> node_typed(rules, kinds, 53));
    assert(id == 54 ==> node_typed(rules, kinds, 54));
    assert(id == 55 ==> node_typed(rules, kinds, 55));
    assert(id == 56 ==> node_typed(rules, kinds, 56));
    assert(id == 57 ==> node_typed(rules, kinds, 57));
    assert(id == 58 ==> node_typed(rules, kinds, 58));
    assert(id == 59 ==> node_typed(rules, kinds, 59));
    assert(id == 60 ==> node_typed(rules, kinds, 60));
    assert(id == 61 ==> node_typed(rules, kinds, 61));
    assert(id == 62 ==> node_typed(rules, kinds, 62));
    assert(id == 63 ==> node_typed(rules, kinds, 63));
    assert(id == 64 ==> node_typed(rules, kinds, 64));
    assert(id == 65 ==> node_typed(rules, kinds, 65));
    assert(id == 66 ==> node_typed(rules, kinds, 66));
    assert(id == 67 ==> node_typed(rules, kinds, 67));
    assert(id == 68 ==> node_typed(rules, kinds, 68));
    assert(id == 69 ==> node_typed(rules, kinds, 69));
    assert(id == 70 ==> node_typed(rules, kinds, 70));
    assert(id == 71 ==> node_typed(rules, kinds, 71));
    assert(id == 72 ==> node_typed(rules, kinds, 72));
    assert(id == 73 ==> node_typed(rules, kinds, 73));
    assert(id == 74 ==> node_typed(rules, kinds, 74));
    assert(id == 75 ==> node_typed(rules, kinds, 75));
    assert(id == 76 ==> node_typed(rules, kinds, 76));
}

/// The grammar of the language is typed: none of its transforms is ever
/// given values of a shape that it cannot take.
pub proof fn lemma_language_is_typed()
    ensures
        typed(language(), language_kinds()),
{
    lemma_sizes();
    assert(language_kinds().len() == 77);
    assert forall|id: int| 0 <= id < language().len() implies node_typed(
        language(),
        language_kinds(),
        id,
    ) by {
        lemma_rule_is_typed(id);
    }
}

/// No rule of the language fails for the shape of a value or for an
/// invalid grammar, and each yields a value of its kind.
pub proof fn lemma_language_keeps_kinds(tokens: Seq<TokenView>, id: nat, pos: nat, budget: nat)
    requires
        id < language().len(),
        pos <= tokens.len(),
    ensures
        match run(language(), tokens, id, pos, budget) {
            Ok((value, _)) => has_kind(value, language_kinds()[id as int]),
            Err(e) => e.et != ParseETView::Malformed && e.et != ParseETView::InvalidGrammar,
        },
{
    lemma_language_is_typed();
    lemma_typed_grammar_keeps_kinds(language(), language_kinds(), tokens, id, pos, budget);
    lemma_language_is_sound();
    lemma_sound_grammar_is_valid(language(), tokens, id, pos, budget);
}

proof fn lemma_rule_is_sound(id: int)
    requires
        0 <= id < 77,
    ensures
        node_structured(language()[id], id as nat, 77),
        language()[id] != NodeView::RefLoop(None),
{
    lemma_sizes();
    let rules = language();
    assert(id == 0 ==> node_structured(rules[0], 0, 77));
    assert(id == 1 ==> node_structured(rules[1], 1, 77));
    assert(id == 2 ==> node_structured(rules[2], 2, 77));
    assert(id == 3 ==> node_structured(rules[3], 3, 77));
    assert(id == 4 ==> node_structured(rules[4], 4, 77));
    assert(id == 5 ==> node_structured(rules[5], 5, 77));
    assert(id == 6 ==> node_structured(rules[6], 6, 77));
    assert(id == 7 ==> node_structured(rules[7], 7, 77));
    assert(id == 8 ==> node_structured(rules[8], 8, 77));
    assert(id == 9 ==> node_structured(rules[9], 9, 77));
    assert(id == 10 ==> node_structured(rules[10], 10, 77));
    assert(id == 11 ==> node_structured(rules[11], 11, 77));
    assert(id == 12 ==> node_structured(rules[12], 12, 77));
    assert(id == 13 ==> node_structured(rules[13], 13, 77));
    assert(id == 14 ==> node_structured(rules[14], 14, 77));
    assert(id == 15 ==> node_structured(rules[15], 15, 77));
    assert(id == 16 ==> node_structured(rules[16], 16, 77));
    assert(id == 17 ==> node_structured(rules[17], 17, 77));
    assert(id == 18 ==> node_structured(rules[18], 18, 77));
    assert(id == 19 ==> node_structured(rules[19], 19, 77));
    assert(id == 20 ==> node_structured(rules[20], 20, 77));
    assert(id == 21 ==> node_structured(rules[21], 21, 77));
    assert(id == 22 ==> node_structured(rules[22], 22, 77));
    assert(id == 23 ==> node_structured(rules[23], 23, 77));
    assert(id == 24 ==> node_structured(rules[24], 24, 77));
    assert(id == 25 ==> node_structured(rules[25], 25, 77));
    assert(id == 26 ==> node_structured(rules[26], 26, 77));
    assert(id == 27 ==> node_structured(rules[27], 27, 77));
    assert(id == 28 ==> node_structured(rules[28], 28, 77));
    assert(id == 29 ==> node_structured(rules[29], 29, 77));
    assert(id == 30 ==> node_structured(rules[30], 30, 77));
    assert(id == 31 ==> node_structured(rules[31], 31, 77));
    assert(id == 32 ==> node_structured(rules[32], 32, 77));
    assert(id == 33 ==> node_structured(rules[33], 33, 77));
    assert(id == 34 ==> node_structured(rules[34], 34, 77));
    assert(id == 35 ==> node_structured(rules[35], 35, 77));
    assert(id == 36 ==> node_structured(rules[36], 36, 77));
    assert(id == 37 ==> node_structured(rules[37], 37, 77));
    assert(id == 38 ==> node_structured(rules[38], 38, 77));
    assert(id == 39 ==> node_structured(rules[39], 39, 77));
    assert(id == 40 ==> node_structured(rules[40], 40, 77));
    assert(id == 41 ==> node_structured(rules[41], 41, 77));
    assert(id == 42 ==> node_structured(rules[42], 42, 77));
    assert(id == 43 ==> node_structured(rules[43], 43, 77));
    assert(id == 44 ==> node_structured(rules[44], 44, 77));
    assert(id == 45 ==> node_structured(rules[45], 45, 77));
    assert(id == 46 ==> node_structured(rules[46], 46, 77));
    assert(id == 47 ==> node_structured(rules[47], 47, 77));
    assert(id == 48 ==> node_structured(rules[48], 48, 77));
    assert(id == 49 ==> node_structured(rules[49], 49, 77));
    assert(id == 50 ==> node_structured(rules[50], 50, 77));
    assert(id == 51 ==> node_structured(rules[51], 51, 77));
    assert(id == 52 ==> node_structured(rules[52], 52, 77));
    assert(id == 53 ==> node_structured(rules[53], 53, 77));
    assert(id == 54 ==> node_structured(rules[54], 54, 77));
    assert(id == 55 ==> node_structured(rules[55], 55, 77));
    assert(id == 56 ==> node_structured(rules[56], 56, 77));
    assert(id == 57 ==> node_structured(rules[57], 57, 77));
    assert(id == 58 ==> node_structured(rules[58], 58, 77));
    assert(id == 59 ==> node_structured(rules[59], 59, 77));
    assert(id == 60 ==> node_structured(rules[60], 60, 77));
    assert(id == 61 ==> node_structured(rules[61], 61, 77));
    assert(id == 62 ==> node_structured(rules[62], 62, 77));
    assert(id == 63 ==> node_structured(rules[63], 63, 77));
    assert(id == 64 ==> node_structured(rules[64], 64, 77));
    assert(id == 65 ==> node_structured(rules[65], 65, 77));
    assert(id == 66 ==> node_structured(rules[66], 66, 77));
    assert(id == 67 ==> node_structured(rules[67], 67, 77));
    assert(id == 68 ==> node_structured(rules[68], 68, 77));
    assert(id == 69 ==> node_structured(rules[69], 69, 77));
    assert(id == 70 ==> node_structured(rules[70], 70, 77));
    assert(id == 71 ==> node_structured(rules[71], 71, 77));
    assert(id == 72 ==> node_structured(rules[72], 72, 77));
    assert(id == 73 ==> node_structured(rules[73], 73, 77));
    assert(id == 74 ==> node_structured(rules[74], 74, 77));
    assert(id == 75 ==> node_structured(rules[75], 75, 77));
    assert(id == 76 ==> node_structured(rules[76], 76, 77));
}

/// The grammar of the language is structured, and every recursive
/// reference in it is bound.
pub proof fn lemma_language_is_sound()
    ensures
        structured(language()),
        bound(language()),
{
    lemma_sizes();
    let rules = language();
    assert forall|id: int| 0 <= id < rules.len() implies node_structured(
        #[trigger] rules[id],
        id as nat,
        rules.len(),
    ) && rules[id] != NodeView::RefLoop(None) by {
        lemma_rule_is_sound(id);
    }
}

/// A rule that reads a token whenever it succeeds, and may pass `needs`
/// recursive references before it reads one.
pub open spec fn reads(needs: nat) -> Effort {
    Effort { consuming: true, needs }
}

/// A rule that may succeed without reading a token, and may pass `needs`
/// recursive references before it reads one.
pub open spec fn may_idle(needs: nat) -> Effort {
    Effort { consuming: false, needs }
}

/// What is claimed of the shared consumers and of the rule for a path.
pub open spec fn item_efforts() -> Seq<Effort> {
    seq![
        reads(0),
        reads(0),
        reads(0),
        reads(0),
        may_idle(0),
        reads(0),
        reads(0),
        reads(0),
        reads(0),
        reads(0),
        reads(0),
        reads(0),
        reads(0),
        reads(0),
    ]
}

/// What is claimed of the rules for types, after those before them.
pub open spec fn type_efforts() -> Seq<Effort> {
    item_efforts() + seq![
        reads(1),
        reads(0),
        reads(0),
        reads(0),
        may_idle(1),
        reads(0),
        may_idle(0),
        may_idle(0),
        reads(0),
        may_idle(1),
        reads(0),
        reads(0),
        reads(0),
        reads(0),
    ]
}

/// What is claimed of the rules for signatures, after those before them.
pub open spec fn signature_efforts() -> Seq<Effort> {
    type_efforts() + seq![
        reads(0),
        may_idle(0),
        may_idle(0),
        reads(0),
        reads(0),
    ]
}

/// What is claimed of the rules for expressions and calls, after those before them.
pub open spec fn expression_efforts() -> Seq<Effort> {
    signature_efforts() + seq![
        reads(0),
        may_idle(0),
        reads(1),
        reads(0),
        reads(0),
        reads(1),
        reads(0),
        may_idle(0),
        reads(0),
        reads(1),
        reads(1),
        reads(1),
        may_idle(1),
        may_idle(1),
        reads(0),
    ]
}

/// What is claimed of the rules for statements and blocks, after those before them.
pub open spec fn statement_efforts() -> Seq<Effort> {
    expression_efforts() + seq![
        reads(0),
        reads(0),
        may_idle(0),
        reads(0),
        may_idle(0),
        reads(0),
        may_idle(0),
        may_idle(0),
        reads(0),
        reads(0),
        reads(0),
        reads(0),
        reads(0),
        reads(0),
        reads(0),
        reads(0),
        reads(0),
        reads(0),
        may_idle(0),
        may_idle(0),
    ]
}

/// What is claimed of each rule of the language: whether it reads a token
/// whenever it succeeds, and how many recursive references it may pass
/// before it reads one.
pub open spec fn language_efforts() -> Seq<Effort> {
    statement_efforts() + seq![
        reads(0),
        reads(0),
        may_idle(0),
        may_idle(0),
        reads(0),
        reads(0),
        reads(0),
        may_idle(0),
        may_idle(0),
    ]
}

proof fn lemma_rule_is_productive(id: int)
    requires
        0 <= id < 77,
    ensures
        node_productive(language(), language_efforts(), id),
        language_efforts()[id].needs <= 1,
{
    lemma_sizes();
    let rules = language();
    let efforts = language_efforts();
    assert(efforts.len() == 77);
    assert(id == 0 ==> node_productive(rules, efforts, 0));
    assert(id == 1 ==> node_productive(rules, efforts, 1));
    assert(id == 2 ==> node_productive(rules, efforts, 2));
    assert(id == 3 ==> node_productive(rules, efforts, 3));
    assert(id == 4 ==> node_productive(rules, efforts, 4));
    assert(id == 5 ==> node_productive(rules, efforts, 5));
    assert(id == 6 ==> node_productive(rules, efforts, 6));
    assert(id == 7 ==> node_productive(rules, efforts, 7));
    assert(id == 8 ==> node_productive(rules, efforts, 8));
    assert(id == 9 ==> node_productive(rules, efforts, 9));
    assert(id == 10 ==> node_productive(rules, efforts, 10));
    assert(id == 11 ==> efforts[rules[11]->Pattern_steps[0] as int].consuming);
    assert(id == 11 ==> node_productive(rules, efforts, 11));
    assert(id == 12 ==> node_productive(rules, efforts, 12));
    assert(id == 13 ==> efforts[rules[13]->Pattern_steps[0] as int].consuming);
    assert(id == 13 ==> node_productive(rules, efforts, 13));
    assert(id == 14 ==> node_productive(rules, efforts, 14));
    assert(id == 15 ==> node_productive(rules, efforts, 15));
    assert(id == 16 ==> node_productive(rules, efforts, 16));
    assert(id == 17 ==> node_productive(rules, efforts, 17));
    assert(id == 18 ==> node_productive(rules, efforts, 18));
    assert(id == 19 ==> efforts[rules[19]->Pattern_steps[0] as int].consuming);
    assert(id == 19 ==> node_productive(rules, efforts, 19));
    assert(id == 20 ==> node_productive(rules, efforts, 20));
    assert(id == 21 ==> node_productive(rules, efforts, 21));
    assert(id == 22 ==> efforts[rules[22]->Pattern_steps[0] as int].consuming);
    assert(id == 22 ==> node_productive(rules, efforts, 22));
    assert(id == 23 ==> node_productive(rules, efforts, 23));
    assert(id == 24 ==> efforts[rules[24]->Pattern_steps[0] as int].consuming);
    assert(id == 24 ==> node_productive(rules, efforts, 24));
    assert(id == 25 ==> efforts[rules[25]->Pattern_steps[0] as int].consuming);
    assert(id == 25 ==> node_productive(rules, efforts, 25));
    assert(id == 26 ==> node_productive(rules, efforts, 26));
    assert(id == 27 ==> efforts[rules[27]->Pattern_steps[0] as int].consuming);
    assert(id == 27 ==> node_productive(rules, efforts, 27));
    assert(id == 28 ==> efforts[rules[28]->Pattern_steps[0] as int].consuming);
    assert(id == 28 ==> node_productive(rules, efforts, 28));
    assert(id == 29 ==> node_productive(rules, efforts, 29));
    assert(id == 30 ==> node_productive(rules, efforts, 30));
    assert(id == 31 ==> node_productive(rules, efforts, 31));
    assert(id == 32 ==> efforts[rules[32]->Pattern_steps[0] as int].consuming);
    assert(id == 32 ==> node_productive(rules, efforts, 32));
    assert(id == 33 ==> node_productive(rules, efforts, 33));
    assert(id == 34 ==> node_productive(rules, efforts, 34));
    assert(id == 35 ==> node_productive(rules, efforts, 35));
    assert(id == 36 ==> efforts[rules[36]->Pattern_steps[0] as int].consuming);
    assert(id == 36 ==> node_productive(rules, efforts, 36));
    assert(id == 37 ==> efforts[rules[37]->Pattern_steps[0] as int].consuming);
    assert(id == 37 ==> node_productive(rules, efforts, 37));
    assert(id == 38 ==> efforts[rules[38]->Pattern_steps[0] as int].consuming);
    assert(id == 38 ==> node_productive(rules, efforts, 38));
    assert(id == 39 ==> efforts[rules[39]->Pattern_steps[0] as int].consuming);
    assert(id == 39 ==> node_productive(rules, efforts, 39));
    assert(id == 40 ==> node_productive(rules, efforts, 40));
    assert(id == 41 ==> efforts[rules[41]->Pattern_steps[0] as int].consuming);
    assert(id == 41 ==> node_productive(rules, efforts, 41));
    assert(id == 42 ==> node_productive(rules, efforts, 42));
    assert(id == 43 ==> node_productive(rules, efforts, 43));
    assert(id == 44 ==> efforts[rules[44]->Pattern_steps[0] as int].consuming);
    assert(id == 44 ==> node_productive(rules, efforts, 44));
    assert(id == 45 ==> node_productive(rules, efforts, 45));
    assert(id == 46 ==> node_productive(rules, efforts, 46));
    assert(id == 47 ==> efforts[rules[47]->Pattern_steps[0] as int].consuming);
    assert(id == 47 ==> node_productive(rules, efforts, 47));
    assert(id == 48 ==> node_productive(rules, efforts, 48));
    assert(id == 49 ==> node_productive(rules, efforts, 49));
    assert(id == 50 ==> node_productive(rules, efforts, 50));
    assert(id == 51 ==> efforts[rules[51]->Pattern_steps[0] as int].consuming);
    assert(id == 51 ==> node_productive(rules, efforts, 51));
    assert(id == 52 ==> node_productive(rules, efforts, 52));
    assert(id == 53 ==> efforts[rules[53]->Pattern_steps[0] as int].consuming);
    assert(id == 53 ==> node_productive(rules, efforts, 53));
    assert(id == 54 ==> node_productive(rules, efforts, 54));
    assert(id == 55 ==> node_productive(rules, efforts, 55));
    assert(id == 56 ==> node_productive(rules, efforts, 56));
    assert(id == 57 ==> efforts[rules[57]->Pattern_steps[0] as int].consuming);
    assert(id == 57 ==> node_productive(rules, efforts, 57));
    assert(id == 58 ==> node_productive(rules, efforts, 58));
    assert(id == 59 ==> efforts[rules[59]->Pattern_steps[0] as int].consuming);
    assert(id == 59 ==> node_productive(rules, efforts, 59));
    assert(id == 60 ==> node_productive(rules, efforts, 60));
    assert(id == 61 ==> efforts[rules[61]->Pattern_steps[0] as int].consuming);
    assert(id == 61 ==> node_productive(rules, efforts, 61));
    assert(id == 62 ==> efforts[rules[62]->Pattern_steps[0] as int].consuming);
    assert(id == 62 ==> node_productive(rules, efforts, 62));
    assert(id == 63 ==> node_productive(rules, efforts, 63));
    assert(id == 64 ==> node_productive(rules, efforts, 64));
    assert(id == 65 ==> efforts[rules[65]->Pattern_steps[0] as int].consuming);
    assert(id == 65 ==> node_productive(rules, efforts, 65));
    assert(id == 66 ==> node_productive(rules, efforts, 66));
    assert(id == 67 ==> node_productive(rules, efforts, 67));
    assert(id == 68 ==> node_productive(rules, efforts, 68));
    assert(id == 69 ==> efforts[rules[69]->Pattern_steps[0] as int].consuming);
    assert(id == 69 ==> node_productive(rules, efforts, 69));
    assert(id == 70 ==> node_productive(rules, efforts, 70));
    assert(id == 71 ==> node_productive(rules, efforts, 71));
    assert(id == 72 ==> node_productive(rules, efforts, 72));
    assert(id == 73 ==> node_productive(rules, efforts, 73));
    assert(id == 74 ==> efforts[rules[74]->Pattern_steps[0] as int].consuming);
    assert(id == 74 ==> node_productive(rules, efforts, 74));
    assert(id == 75 ==> node_productive(rules, efforts, 75));
    assert(id == 76 ==> node_productive(rules, efforts, 76));
    assert(id == 0 ==> efforts[0].needs <= 1);
    assert(id == 1 ==> efforts[1].needs <= 1);
    assert(id == 2 ==> efforts[2].needs <= 1);
    assert(id == 3 ==> efforts[3].needs <= 1);
    assert(id == 4 ==> efforts[4].needs <= 1);
    assert(id == 5 ==> efforts[5].needs <= 1);
    assert(id == 6 ==> efforts[6].needs <= 1);
    assert(id == 7 ==> efforts[7].needs <= 1);
    assert(id == 8 ==> efforts[8].needs <= 1);
    assert(id == 9 ==> efforts[9].needs <= 1);
    assert(id == 10 ==> efforts[10].needs <= 1);
    assert(id == 11 ==> efforts[11].needs <= 1);
    assert(id == 12 ==> efforts[12].needs <= 1);
    assert(id == 13 ==> efforts[13].needs <= 1);
    assert(id == 14 ==> efforts[14].needs <= 1);
    assert(id == 15 ==> efforts[15].needs <= 1);
    assert(id == 16 ==> efforts[16].needs <= 1);
    assert(id == 17 ==> efforts[17].needs <= 1);
    assert(id == 18 ==> efforts[18].needs <= 1);
    assert(id == 19 ==> efforts[19].needs <= 1);
    assert(id == 20 ==> efforts[20].needs <= 1);
    assert(id == 21 ==> efforts[21].needs <= 1);
    assert(id == 22 ==> efforts[22].needs <= 1);
    assert(id == 23 ==> efforts[23].needs <= 1);
    assert(id == 24 ==> efforts[24].needs <= 1);
    assert(id == 25 ==> efforts[25].needs <= 1);
    assert(id == 26 ==> efforts[26].needs <= 1);
    assert(id == 27 ==> efforts[27].needs <= 1);
    assert(id == 28 ==> efforts[28].needs <= 1);
    assert(id == 29 ==> efforts[29].needs <= 1);
    assert(id == 30 ==> efforts[30].needs <= 1);
    assert(id == 31 ==> efforts[31].needs <= 1);
    assert(id == 32 ==> efforts[32].needs <= 1);
    assert(id == 33 ==> efforts[33].needs <= 1);
    assert(id == 34 ==> efforts[34].needs <= 1);
    assert(id == 35 ==> efforts[35].needs <= 1);
    assert(id == 36 ==> efforts[36].needs <= 1);
    assert(id == 37 ==> efforts[37].needs <= 1);
    assert(id == 38 ==> efforts[38].needs <= 1);
    assert(id == 39 ==> efforts[39].needs <= 1);
    assert(id == 40 ==> efforts[40].needs <= 1);
    assert(id == 41 ==> efforts[41].needs <= 1);
    assert(id == 42 ==> efforts[42].needs <= 1);
    assert(id == 43 ==> efforts[43].needs <= 1);
    assert(id == 44 ==> efforts[44].needs <= 1);
    assert(id == 45 ==> efforts[45].needs <= 1);
    assert(id == 46 ==> efforts[46].needs <= 1);
    assert(id == 47 ==> efforts[47].needs <= 1);
    assert(id == 48 ==> efforts[48].needs <= 1);
    assert(id == 49 ==> efforts[49].needs <= 1);
    assert(id == 50 ==> efforts[50].needs <= 1);
    assert(id == 51 ==> efforts[51].needs <= 1);
    assert(id == 52 ==> efforts[52].needs <= 1);
    assert(id == 53 ==> efforts[53].needs <= 1);
    assert(id == 54 ==> efforts[54].needs <= 1);
    assert(id == 55 ==> efforts[55].needs <= 1);
    assert(id == 56 ==> efforts[56].needs <= 1);
    assert(id == 57 ==> efforts[57].needs <= 1);
    assert(id == 58 ==> efforts[58].needs <= 1);
    assert(id == 59 ==> efforts[59].needs <= 1);
    assert(id == 60 ==> efforts[60].needs <= 1);
    assert(id == 61 ==> efforts[61].needs <= 1);
    assert(id == 62 ==> efforts[62].needs <= 1);
    assert(id == 63 ==> efforts[63].needs <= 1);
    assert(id == 64 ==> efforts[64].needs <= 1);
    assert(id == 65 ==> efforts[65].needs <= 1);
    assert(id == 66 ==> efforts[66].needs <= 1);
    assert(id == 67 ==> efforts[67].needs <= 1);
    assert(id == 68 ==> efforts[68].needs <= 1);
    assert(id == 69 ==> efforts[69].needs <= 1);
    assert(id == 70 ==> efforts[70].needs <= 1);
    assert(id == 71 ==> efforts[71].needs <= 1);
    assert(id == 72 ==> efforts[72].needs <= 1);
    assert(id == 73 ==> efforts[73].needs <= 1);
    assert(id == 74 ==> efforts[74].needs <= 1);
    assert(id == 75 ==> efforts[75].needs <= 1);
    assert(id == 76 ==> efforts[76].needs <= 1);
}

/// The grammar of the language is productive: it never comes back to a
/// rule, and never goes round a repetition, without having read a token.
pub proof fn lemma_language_is_productive()
    ensures
        productive(language(), language_efforts()),
{
    lemma_sizes();
    assert(language_efforts().len() == 77);
    assert forall|id: int| 0 <= id < language().len() implies node_productive(
        language(),
        language_efforts(),
        id,
    ) && (#[trigger] language_efforts()[id]).needs <= language().len() by {
        lemma_rule_is_productive(id);
    }
}

/// A rule of the language fails only for what the tokens are: at the end
/// of the input, at a token that it cannot take, at characters that spell
/// no operator, or where no alternative is recognized. With a budget of one
/// recursive reference or more it never fails for want of progress, and it
/// never fails for the shape of a value or for an invalid grammar.
pub proof fn lemma_language_fails_for_the_input(
    tokens: Seq<TokenView>,
    id: nat,
    pos: nat,
    budget: nat,
)
    requires
        id < language().len(),
        pos <= tokens.len(),
        budget >= 1,
    ensures
        run(language(), tokens, id, pos, budget) matches Err(e) ==> e.et.about_input(),
{
    lemma_sizes();
    lemma_language_keeps_kinds(tokens, id, pos, budget);
    lemma_language_is_productive();
    lemma_rule_is_productive(id as int);
    lemma_productive_grammar_progresses(language(), language_efforts(), tokens, id, pos, budget);
}

/// What a run of punctuation characters that covers `span` and ends at
/// `end` yields as an operator.
pub open spec fn operator_outcome(chars: Seq<char>, span: Span, end: nat) -> Outcome {
    match operator_of(chars) {
        Some(op) => Ok((ValueView::Operator(Operator(op, span)), end)),
        None => Err(operator_error(chars, Some(span))),
    }
}

/// Whether a glued punctuation character stands at `pos`.
pub open spec fn glued_at(tokens: Seq<TokenView>, pos: nat) -> bool {
    pos < tokens.len() && tokens[pos as int].tt matches TokenTypeView::Particle(_, true)
}

/// Two punctuation characters make one operator only where the second is
/// glued to the first. Where it is, and no glued character follows, the
/// operator rule reads both and yields the operator that the two spell
/// together; where it is not, the rule reads the first alone and yields the
/// operator that it spells by itself. A run that spells no operator is an
/// error.
pub proof fn lemma_operator_needs_glue(tokens: Seq<TokenView>, pos: nat, budget: nat)
    requires
        pos + 1 < tokens.len(),
        tokens[pos as int].tt is Particle,
        tokens[pos as int + 1].tt is Particle,
        !glued_at(tokens, pos + 2),
    ensures
        ({
            let first = tokens[pos as int].tt->Particle_0;
            let second = tokens[pos as int + 1].tt->Particle_0;
            run(language(), tokens, OPERATOR as nat, pos, budget) == if glued_at(
                tokens,
                pos + 1,
            ) {
                operator_outcome(seq![first, second], span_of(tokens, pos, pos + 2), pos + 2)
            } else {
                operator_outcome(seq![first], span_of(tokens, pos, pos + 1), pos + 1)
            }
        }),
{
    let rules = language();
    let first = tokens[pos as int].tt->Particle_0;
    let second = tokens[pos as int + 1].tt->Particle_0;
    let id = OPERATOR as nat;
    let run_id = GLUED_RUN as nat;
    lemma_sizes();
    assert(rules[PARTICLE as int] == NodeView::GetParticle);
    assert(rules[GLUED as int] == NodeView::GetGluedParticle);
    assert(rules[NOTHING as int] == NodeView::Dummy);
    let glued_run = ListRule {
        item_pred: GLUED,
        item: GLUED,
        delim_pred: NOTHING,
        delim: NOTHING,
        trail: Trail::Always,
        non_empty: false,
    };
    assert(rules[GLUED_RUN as int] == NodeView::List(glued_run));
    let steps = seq![PARTICLE, GLUED_RUN];
    assert(rules[OPERATOR as int] == inline(steps, Transform::OperatorRun));
    // The first character.
    let head = step(rules, tokens, id, PARTICLE as nat, pos, budget, pos);
    assert(head == Ok::<_, ParseErrorView>((ValueView::Char(first), pos + 1)));
    // The characters glued to it.
    let tail = step(rules, tokens, id, run_id, pos, budget, pos + 1);
    let ahead = rules.len();
    assert(tail == run(rules, tokens, run_id, pos + 1, ahead));
    let end: nat = if glued_at(tokens, pos + 1) {
        pos + 2
    } else {
        pos + 1
    };
    let glued: Seq<ValueView> = if glued_at(tokens, pos + 1) {
        seq![ValueView::Char(second)]
    } else {
        Seq::empty()
    };
    if glued_at(tokens, pos + 1) {
        assert(step(rules, tokens, run_id, GLUED as nat, pos + 1, ahead, pos + 1) == Ok::<
            _,
            ParseErrorView,
        >((ValueView::Char(second), pos + 2)));
        assert(step(rules, tokens, run_id, NOTHING as nat, pos + 1, ahead, pos + 2) == Ok::<
            _,
            ParseErrorView,
        >((ValueView::Unit, pos + 2)));
        assert(step(rules, tokens, run_id, GLUED as nat, pos + 1, ahead, pos + 2) is Err);
        assert(Seq::<ValueView>::empty().push(ValueView::Char(second)) =~= glued);
        assert(items_from(rules, tokens, run_id, glued_run, pos + 1, ahead, pos + 1, Seq::empty())
            == Ok::<_, ParseErrorView>((ValueView::List(glued), end)));
    } else {
        assert(step(rules, tokens, run_id, GLUED as nat, pos + 1, ahead, pos + 1) is Err);
    }
    assert(tail == Ok::<_, ParseErrorView>((ValueView::List(glued), end)));
    // Both together.
    let values = seq![ValueView::Char(first), ValueView::List(glued)];
    assert(Seq::<ValueView>::empty().push(ValueView::Char(first)).push(ValueView::List(glued))
        =~= values);
    let after_head = steps_from(
        rules,
        tokens,
        id,
        steps,
        1,
        pos,
        budget,
        pos + 1,
        Seq::empty().push(ValueView::Char(first)),
    );
    assert(steps_from(
        rules,
        tokens,
        id,
        steps,
        2,
        pos,
        budget,
        end,
        Seq::empty().push(ValueView::Char(first)).push(ValueView::List(glued)),
    ) == Ok::<_, ParseErrorView>((values, end)));
    assert(after_head == Ok::<_, ParseErrorView>((values, end)));
    assert(steps_from(rules, tokens, id, steps, 0, pos, budget, pos, Seq::empty()) == after_head);
    let chars: Seq<char> = if glued_at(tokens, pos + 1) {
        seq![first, second]
    } else {
        seq![first]
    };
    assert(all::<char>(glued));
    assert(seq![first] + extract_all::<char>(glued) =~= chars);
}

/// Whether the keyword `let` stands at `pos`.
pub open spec fn let_at(tokens: Seq<TokenView>, pos: nat) -> bool {
    pos < tokens.len() && tokens[pos as int].tt == TokenTypeView::Ident("let"@)
}

/// The kinds of statement are told apart in the order in which they are
/// declared. Where `let` stands, the statement is a declaration, although
/// `let` is an identifier and could begin a call or an assignment as well.
/// Where it does not, and what stands there does not look like a call, the
/// statement is an assignment.
pub proof fn lemma_statement_kinds(tokens: Seq<TokenView>, pos: nat, budget: nat)
    requires
        pos <= tokens.len(),
    ensures
        let_at(tokens, pos) ==> run(language(), tokens, STMT_CHOICE as nat, pos, budget) == step(
            language(),
            tokens,
            STMT_CHOICE as nat,
            VAR_CREATE as nat,
            pos,
            budget,
            pos,
        ),
        !let_at(tokens, pos) && step(
            language(),
            tokens,
            STMT_CHOICE as nat,
            CALL_AHEAD as nat,
            pos,
            budget,
            pos,
        ) is Err ==> run(language(), tokens, STMT_CHOICE as nat, pos, budget) == step(
            language(),
            tokens,
            STMT_CHOICE as nat,
            VAR_ASSIGN as nat,
            pos,
            budget,
            pos,
        ),
{
    let rules = language();
    let id = STMT_CHOICE as nat;
    lemma_sizes();
    let arms = seq![(LET, VAR_CREATE), (CALL_AHEAD, CALL_STMT), (NOTHING, VAR_ASSIGN)];
    assert(rules[STMT_CHOICE as int] == NodeView::Match(arms));
    assert(rules[LET as int] == NodeView::Token(TokenTypeView::Ident("let"@)));
    assert(rules[NOTHING as int] == NodeView::Dummy);
    assert(arms[0] == (LET, VAR_CREATE) && arms[1] == (CALL_AHEAD, CALL_STMT) && arms[2] == (
        NOTHING,
        VAR_ASSIGN,
    ));
    if let_at(tokens, pos) {
        assert(step(rules, tokens, id, LET as nat, pos, budget, pos) is Ok);
        lemma_dispatch_order(rules, tokens, id, pos, budget, 0);
    } else if step(rules, tokens, id, CALL_AHEAD as nat, pos, budget, pos) is Err {
        assert(step(rules, tokens, id, LET as nat, pos, budget, pos) is Err);
        assert(step(rules, tokens, id, NOTHING as nat, pos, budget, pos) is Ok);
        assert forall|j: int| 0 <= j < 2 implies #[trigger] step(
            rules,
            tokens,
            id,
            rules[id as int]->Match_0[j].0 as nat,
            pos,
            budget,
            pos,
        ) is Err by {
            if j == 0 {
            } else {
                assert(j == 1);
            }
        }
        lemma_dispatch_order(rules, tokens, id, pos, budget, 2);
    }
}

/// Whether one of the characters that end an expression stands at `pos`.
pub open spec fn terminator_at(tokens: Seq<TokenView>, pos: nat) -> bool {
    &&& pos < tokens.len()
    &&& tokens[pos as int].tt matches TokenTypeView::Particle(c, _)
    &&& (c == ')' || c == ';' || c == ',')
}

/// An empty argument list is the empty sequence, in a definition and in a
/// call: where no identifier stands, the arguments of a definition are the
/// empty list, and so are the arguments of a call where a character that
/// ends an expression stands, such as `)`. Neither reads a token.
pub proof fn lemma_empty_arguments(tokens: Seq<TokenView>, pos: nat, budget: nat)
    requires
        pos <= tokens.len(),
    ensures
        !(pos < tokens.len() && tokens[pos as int].tt is Ident) ==> run(
            language(),
            tokens,
            FN_ARGS as nat,
            pos,
            budget,
        ) == Ok::<_, ParseErrorView>((ValueView::List(Seq::empty()), pos)),
        terminator_at(tokens, pos) ==> run(language(), tokens, ARGS as nat, pos, budget) == Ok::<
            _,
            ParseErrorView,
        >((ValueView::List(Seq::empty()), pos)),
{
    let rules = language();
    lemma_sizes();
    let nothing = ValueView::List(Seq::empty());
    let one = seq![nothing];
    assert(Seq::<ValueView>::empty().push(nothing) =~= one);
    if !(pos < tokens.len() && tokens[pos as int].tt is Ident) {
        let id = FN_ARGS as nat;
        let inner = ARG_LIST as nat;
        assert(rules[IDENT as int] == NodeView::GetIdent);
        assert(rules[ARG_LIST as int] == list(IDENT, ARG, COMMA, COMMA, Trail::Never, false));
        assert(rules[FN_ARGS as int] == named(
            "function args"@,
            seq![ARG_LIST],
            Transform::Pick(0),
        ));
        assert(step(rules, tokens, inner, IDENT as nat, pos, budget, pos) is Err);
        assert(step(rules, tokens, id, inner, pos, budget, pos) == Ok::<_, ParseErrorView>(
            (nothing, pos),
        ));
        assert(steps_from(rules, tokens, id, seq![ARG_LIST], 1, pos, budget, pos, one) == Ok::<
            _,
            ParseErrorView,
        >((one, pos)));
        assert(steps_from(rules, tokens, id, seq![ARG_LIST], 0, pos, budget, pos, Seq::empty())
            == Ok::<_, ParseErrorView>((one, pos)));
    }
    if terminator_at(tokens, pos) {
        let id = ARGS as nat;
        let inner = ARG_VALUES as nat;
        let ends = seq![')', ';', ','];
        assert(ends[0] == ')' && ends[1] == ';' && ends[2] == ',');
        assert(rules[TERMINATOR as int] == NodeView::ParticleIn(ends));
        assert(rules[MORE as int] == NodeView::Not(TERMINATOR));
        assert(rules[ARG_VALUES as int] == list(
            MORE,
            EXPRESSION,
            COMMA,
            COMMA,
            Trail::Never,
            false,
        ));
        assert(rules[ARGS as int] == named("args"@, seq![ARG_VALUES], Transform::Pick(0)));
        assert(ends.contains(tokens[pos as int].tt->Particle_0));
        assert(step(rules, tokens, MORE as nat, TERMINATOR as nat, pos, budget, pos) is Ok);
        assert(step(rules, tokens, inner, MORE as nat, pos, budget, pos) is Err);
        assert(step(rules, tokens, id, inner, pos, budget, pos) == Ok::<_, ParseErrorView>(
            (nothing, pos),
        ));
        assert(steps_from(rules, tokens, id, seq![ARG_VALUES], 1, pos, budget, pos, one) == Ok::<
            _,
            ParseErrorView,
        >((one, pos)));
        assert(steps_from(rules, tokens, id, seq![ARG_VALUES], 0, pos, budget, pos, Seq::empty())
            == Ok::<_, ParseErrorView>((one, pos)));
    }
}

/// The policy that each list of the language declares for a separator that
/// no item follows: the arguments of a generic type may end in a comma; the
/// members of a tuple, the arguments of a definition and those of a call
/// may not; every statement has its terminator, which belongs to the
/// statement itself.
pub proof fn lemma_declared_policies()
    ensures
        language()[GENERIC_ARGS as int] == list(
            TYPE_START,
            TYPE_REF,
            COMMA,
            COMMA,
            Trail::Optional,
            false,
        ),
        language()[TUPLE_MEMBERS as int] == list(
            TYPE_START,
            TYPE_REF,
            COMMA,
            COMMA,
            Trail::Never,
            false,
        ),
        language()[ARG_LIST as int] == list(IDENT, ARG, COMMA, COMMA, Trail::Never, false),
        language()[ARG_VALUES as int] == list(
            MORE,
            EXPRESSION,
            COMMA,
            COMMA,
            Trail::Never,
            false,
        ),
        language()[STATEMENT as int] == named(
            "statement"@,
            seq![STMT_CHOICE, SEMICOLON],
            Transform::Statement,
        ),
        language()[SEMICOLON as int] == NodeView::Particle(';'),
        language()[STATEMENTS as int] == list(
            IDENT,
            STATEMENT,
            NOTHING,
            NOTHING,
            Trail::Always,
            false,
        ),
{
    lemma_sizes();
}

/// What the rule for a function yields at `pos`: the function and the
/// position after it, or an error.
pub open spec fn function_at(tokens: Seq<TokenView>, pos: nat) -> Result<
    (FuncView, nat),
    ParseErrorView,
> {
    match run(language(), tokens, FUNCTION as nat, pos, language().len()) {
        Ok((value, end)) => Ok((value->Func_0, end)),
        Err(e) => Err(e),
    }
}

/// What the rule for the content of a module yields at `pos`: the
/// functions in their order with the span that they cover, and the position
/// after them, or an error.
pub open spec fn module_content_at(tokens: Seq<TokenView>, pos: nat) -> Result<
    ((Seq<FuncView>, Span), nat),
    ParseErrorView,
> {
    match run(language(), tokens, MODULE_CONTENT as nat, pos, language().len()) {
        Ok((value, end)) => Ok(((value->Funcs_0, value->Funcs_1), end)),
        Err(e) => Err(e),
    }
}

/// Whether the punctuation character `c` stands at `pos`.
pub open spec fn particle_at(tokens: Seq<TokenView>, pos: nat, c: char) -> bool {
    &&& pos < tokens.len()
    &&& tokens[pos as int].tt matches TokenTypeView::Particle(d, _)
    &&& d == c
}

/// The function that `fn name() {}` defines, where the keyword stands at
/// `pos`: no arguments, the empty tuple as its return type, standing empty
/// before the `{`, and an empty body, standing empty before the `}`.
pub open spec fn smallest_function(tokens: Seq<TokenView>, pos: nat) -> FuncView {
    FuncView {
        name: IdentView(tokens[pos as int + 1].tt->Ident_0, tokens[pos as int + 1].loc),
        args: Seq::empty(),
        ret: FullTypeView(TypeTView::Tuple(Seq::empty()), tokens[pos as int + 4].loc.before()),
        body: BlockView(Seq::empty(), tokens[pos as int + 5].loc.before()),
        loc: tokens[pos as int].loc.through(tokens[pos as int + 5].loc),
    }
}

/// The smallest function: the six tokens of `fn name() {}`, wherever they
/// stand in the source and however they are spaced, are read as a function
/// without arguments, with the empty tuple as its return type and with an
/// empty body.
pub proof fn lemma_smallest_function(tokens: Seq<TokenView>, pos: nat)
    requires
        pos + 5 < tokens.len(),
        tokens[pos as int].tt == TokenTypeView::Ident("fn"@),
        tokens[pos as int + 1].tt is Ident,
        particle_at(tokens, pos + 2, '('),
        particle_at(tokens, pos + 3, ')'),
        particle_at(tokens, pos + 4, '{'),
        particle_at(tokens, pos + 5, '}'),
    ensures
        function_at(tokens, pos) == Ok::<_, ParseErrorView>(
            (smallest_function(tokens, pos), pos + 6),
        ),
{
    let rules = language();
    let id = FUNCTION as nat;
    let budget = rules.len();
    lemma_sizes();
    let steps = seq![
        FN,
        IDENT,
        OPEN,
        FN_ARGS,
        CLOSE,
        RETURN_OR_UNIT,
        OPEN_BRACE,
        BLOCK,
        CLOSE_BRACE,
    ];
    assert(rules[FUNCTION as int] == named("function"@, steps, Transform::Func));
    assert(rules[FN as int] == NodeView::Token(TokenTypeView::Ident("fn"@)));
    assert(rules[IDENT as int] == NodeView::GetIdent);
    assert(rules[OPEN as int] == NodeView::Particle('('));
    assert(rules[CLOSE as int] == NodeView::Particle(')'));
    assert(rules[OPEN_BRACE as int] == NodeView::Particle('{'));
    assert(rules[CLOSE_BRACE as int] == NodeView::Particle('}'));
    let nothing = ValueView::List(Seq::empty());
    let one = seq![nothing];
    assert(Seq::<ValueView>::empty().push(nothing) =~= one);

    // No return type is given: the empty tuple, standing before the `{`.
    let ret_span = span_of(tokens, pos + 4, pos + 4);
    let ret = ValueView::FullType(FullTypeView(TypeTView::Tuple(Seq::empty()), ret_span));
    assert(step(rules, tokens, id, RETURN_OR_UNIT as nat, pos, budget, pos + 4) == Ok::<
        _,
        ParseErrorView,
    >((ret, pos + 4))) by {
        let own = RETURN_OR_UNIT as nat;
        assert(rules[MINUS as int] == NodeView::Particle('-'));
        assert(rules[ARROW as int] == inline(seq![MINUS, GREATER], Transform::Unit));
        assert(rules[MAYBE_RETURN as int] == NodeView::Conditional {
            predicate: ARROW,
            pattern: RETURN_TYPE,
        });
        assert(rules[RETURN_OR_UNIT as int] == inline(seq![MAYBE_RETURN], Transform::OrUnitType));
        assert(step(rules, tokens, ARROW as nat, MINUS as nat, pos + 4, budget, pos + 4) is Err);
        assert(steps_from(
            rules,
            tokens,
            ARROW as nat,
            seq![MINUS, GREATER],
            0,
            pos + 4,
            budget,
            pos + 4,
            Seq::empty(),
        ) is Err);
        assert(run(rules, tokens, ARROW as nat, pos + 4, budget) is Err);
        assert(step(rules, tokens, MAYBE_RETURN as nat, ARROW as nat, pos + 4, budget, pos + 4)
            is Err);
        let absent = ValueView::Opt(None);
        assert(step(rules, tokens, own, MAYBE_RETURN as nat, pos + 4, budget, pos + 4) == Ok::<
            _,
            ParseErrorView,
        >((absent, pos + 4)));
        assert(Seq::<ValueView>::empty().push(absent) =~= seq![absent]);
        assert(steps_from(
            rules,
            tokens,
            own,
            seq![MAYBE_RETURN],
            1,
            pos + 4,
            budget,
            pos + 4,
            seq![absent],
        ) == Ok::<_, ParseErrorView>((seq![absent], pos + 4)));
        assert(steps_from(
            rules,
            tokens,
            own,
            seq![MAYBE_RETURN],
            0,
            pos + 4,
            budget,
            pos + 4,
            Seq::empty(),
        ) == Ok::<_, ParseErrorView>((seq![absent], pos + 4)));
    }

    // No statement follows: the empty block, standing before the `}`.
    let body_span = span_of(tokens, pos + 5, pos + 5);
    let body = ValueView::Block(BlockView(Seq::empty(), body_span));
    assert(step(rules, tokens, id, BLOCK as nat, pos, budget, pos + 5) == Ok::<
        _,
        ParseErrorView,
    >((body, pos + 5))) by {
        let own = BLOCK as nat;
        assert(rules[STATEMENTS as int] == list(
            IDENT,
            STATEMENT,
            NOTHING,
            NOTHING,
            Trail::Always,
            false,
        ));
        assert(rules[BLOCK as int] == named("block"@, seq![STATEMENTS], Transform::Block));
        assert(step(rules, tokens, STATEMENTS as nat, IDENT as nat, pos + 5, budget, pos + 5)
            is Err);
        assert(step(rules, tokens, own, STATEMENTS as nat, pos + 5, budget, pos + 5) == Ok::<
            _,
            ParseErrorView,
        >((nothing, pos + 5)));
        assert(steps_from(
            rules,
            tokens,
            own,
            seq![STATEMENTS],
            1,
            pos + 5,
            budget,
            pos + 5,
            one,
        ) == Ok::<_, ParseErrorView>((one, pos + 5)));
        assert(steps_from(
            rules,
            tokens,
            own,
            seq![STATEMENTS],
            0,
            pos + 5,
            budget,
            pos + 5,
            Seq::empty(),
        ) == Ok::<_, ParseErrorView>((one, pos + 5)));
        assert(all::<Statement>(Seq::empty()));
        assert(extract_all::<Statement>(Seq::empty()) =~= Seq::empty());
    }

    // No argument is given.
    lemma_empty_arguments(tokens, pos + 3, budget);
    assert(step(rules, tokens, id, FN_ARGS as nat, pos, budget, pos + 3) == Ok::<
        _,
        ParseErrorView,
    >((nothing, pos + 3)));

    // The nine steps of the function, one after another.
    let name = ValueView::Ident(IdentView(tokens[pos as int + 1].tt->Ident_0, tokens[pos as int + 1].loc));
    let unit = ValueView::Unit;
    let v0 = Seq::<ValueView>::empty();
    let v1 = v0.push(unit);
    let v2 = v1.push(name);
    let v3 = v2.push(unit);
    let v4 = v3.push(nothing);
    let v5 = v4.push(unit);
    let v6 = v5.push(ret);
    let v7 = v6.push(unit);
    let v8 = v7.push(body);
    let v9 = v8.push(unit);
    let done = Ok::<_, ParseErrorView>((v9, pos + 6));
    assert(steps_from(rules, tokens, id, steps, 9, pos, budget, pos + 6, v9) == done);
    assert(step(rules, tokens, id, CLOSE_BRACE as nat, pos, budget, pos + 5) == Ok::<
        _,
        ParseErrorView,
    >((unit, pos + 6)));
    assert(steps_from(rules, tokens, id, steps, 8, pos, budget, pos + 5, v8) == done);
    assert(steps_from(rules, tokens, id, steps, 7, pos, budget, pos + 5, v7) == done);
    assert(step(rules, tokens, id, OPEN_BRACE as nat, pos, budget, pos + 4) == Ok::<
        _,
        ParseErrorView,
    >((unit, pos + 5)));
    assert(steps_from(rules, tokens, id, steps, 6, pos, budget, pos + 4, v6) == done);
    assert(steps_from(rules, tokens, id, steps, 5, pos, budget, pos + 4, v5) == done);
    assert(step(rules, tokens, id, CLOSE as nat, pos, budget, pos + 3) == Ok::<
        _,
        ParseErrorView,
    >((unit, pos + 4)));
    assert(steps_from(rules, tokens, id, steps, 4, pos, budget, pos + 3, v4) == done);
    assert(steps_from(rules, tokens, id, steps, 3, pos, budget, pos + 3, v3) == done);
    assert(step(rules, tokens, id, OPEN as nat, pos, budget, pos + 2) == Ok::<
        _,
        ParseErrorView,
    >((unit, pos + 3)));
    assert(steps_from(rules, tokens, id, steps, 2, pos, budget, pos + 2, v2) == done);
    assert(step(rules, tokens, id, IDENT as nat, pos, budget, pos + 1) == Ok::<
        _,
        ParseErrorView,
    >((name, pos + 2)));
    assert(steps_from(rules, tokens, id, steps, 1, pos, budget, pos + 1, v1) == done);
    assert(step(rules, tokens, id, FN as nat, pos, budget, pos) == Ok::<_, ParseErrorView>(
        (unit, pos + 1),
    ));
    assert(steps_from(rules, tokens, id, steps, 0, pos, budget, pos, v0) == done);

    // What the function is made of.
    assert(all::<(Ident, FullType)>(Seq::empty()));
    assert(extract_all::<(Ident, FullType)>(Seq::empty()) =~= Seq::empty());
    assert(v9.len() == 9);
    assert(v9[1] == name && v9[3] == nothing && v9[5] == ret && v9[7] == body);
    assert(transformed(Transform::Func, v9, span_of(tokens, pos, pos + 6)) == Ok::<
        _,
        ParseErrorView,
    >(ValueView::Func(smallest_function(tokens, pos))));
}

} // verus!
