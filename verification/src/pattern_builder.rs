//! Assembling the grammar of the language, and parsing with it.

use crate::ast::{func_views, Func};
use crate::cursor::TokIter;
use crate::error::{ParseET, ParseError};
use crate::grammar::{bound, structured, Grammar, Node, NodeView, Trail};
use crate::language::{
    expression_rules, function_at, item_rules, language, lemma_language_fails_for_the_input,
    lemma_language_keeps_kinds, lemma_sizes, module_content_at, signature_rules, statement_rules,
    type_rules, ARGS, ARG_LIST, ARG_VALUES, ARROW, ASSIGN_OP, BLOCK, CALL_AHEAD, CALL_AHEAD_NEXT,
    CALL_EXPR, CALL_REF, CALL_START, CALL_STMT, CLOSE, CLOSE_BRACE, COLON, COMMA, COMPOUND_RUN,
    EQUALS, EXPRESSION, EXPR_PARTS, FN, FN_ARGS, FN_CALL, FULL_TYPE, FUNCTION, FUNCTIONS,
    GENERICS_IF_ANY, GENERIC_ARGS, GLUED, GLUED_COLON, GLUED_EQUALS, GLUED_RUN, GREATER, IDENT,
    ITEM, LESS, LET, LITERAL, LITERAL_EXPR, MAYBE_MUT, MAYBE_RETURN, MAYBE_VAR_TYPE, MINUS,
    MODULE_CONTENT, NOTHING, OPEN, OPEN_BRACE, OPERATOR, OPTIONAL_GENERICS, PARTICLE, PATH,
    RETURN_OR_UNIT, SEMICOLON, SINGLE_TYPE, STATEMENTS, STMT_CHOICE, TUPLE_MEMBERS, TYPE_CHOICE,
    VARIABLE_EXPR, VAR_ASSIGN, VAR_CREATE,
};
use crate::span::Span;
use crate::tokens::TokenType;
use crate::transform::Transform;
use crate::value::Value;
use vstd::prelude::*;

verus! {

fn add_item_rules(g: &mut Grammar)
    requires
        old(g)@ == Seq::<NodeView>::empty(),
    ensures
        final(g)@ == item_rules(),
        structured(final(g)@),
        bound(final(g)@),
{
    assert(structured(g@));
    let ident = g.add(Node::GetIdent);
    let _literal = g.add(Node::GetLiteral);
    let _particle = g.add(Node::GetParticle);
    let _glued = g.add(Node::GetGluedParticle);
    let _nothing = g.add(Node::Dummy);
    let colon = g.add(Node::Particle(':'));
    let _comma = g.add(Node::Particle(','));
    let _open = g.add(Node::Particle('('));
    let _close = g.add(Node::Particle(')'));
    let _equals = g.add(Node::Particle('='));
    let glued_colon = g.add(Node::Token(TokenType::Particle(':', true)));
    let steps = vec![colon, glued_colon];
    assert(steps@ =~= seq![COLON, GLUED_COLON]);
    let path_sep = g.inline(steps, Transform::Unit);
    let path = g.non_empty(ident, path_sep, Trail::Never);
    let steps = vec![path];
    assert(steps@ =~= seq![PATH]);
    let _item = g.named("item", steps, Transform::Item);
}

fn add_type_rules(g: &mut Grammar)
    requires
        old(g)@ == item_rules(),
        structured(old(g)@),
        bound(old(g)@),
    ensures
        final(g)@ == type_rules(),
        structured(final(g)@),
        bound(final(g)@),
{
    let type_ref = g.create();
    let less = g.add(Node::Particle('<'));
    let greater = g.add(Node::Particle('>'));
    let type_start = g.add(Node::BranchIfElse { condition: OPEN, taken: OPEN, otherwise: IDENT });
    let generic_args = g.maybe_empty_pred(type_start, type_ref, COMMA, COMMA, Trail::Optional);
    let steps = vec![less, generic_args, greater];
    assert(steps@ =~= seq![LESS, GENERIC_ARGS, GREATER]);
    let generics = g.named("generics", steps, Transform::Pick(1));
    let generics_if_any = g.add(Node::Conditional { predicate: less, pattern: generics });
    let steps = vec![generics_if_any];
    assert(steps@ =~= seq![GENERICS_IF_ANY]);
    let optional_generics = g.named("optional generics", steps, Transform::OrEmpty);
    let steps = vec![ITEM, optional_generics];
    assert(steps@ =~= seq![ITEM, OPTIONAL_GENERICS]);
    let single_type = g.named("single type", steps, Transform::Type);
    let tuple_members = g.maybe_empty_pred(type_start, type_ref, COMMA, COMMA, Trail::Never);
    let steps = vec![OPEN, tuple_members, CLOSE];
    assert(steps@ =~= seq![OPEN, TUPLE_MEMBERS, CLOSE]);
    let tuple_type = g.inline(steps, Transform::Tuple);
    let steps = vec![single_type];
    assert(steps@ =~= seq![SINGLE_TYPE]);
    let named_type = g.inline(steps, Transform::Single);
    let type_choice = g.add(
        Node::BranchIfElse { condition: OPEN, taken: tuple_type, otherwise: named_type },
    );
    let steps = vec![type_choice];
    assert(steps@ =~= seq![TYPE_CHOICE]);
    let full_type = g.named("type", steps, Transform::FullType);
    g.finalize(type_ref, full_type);
    assert(g@ =~= type_rules());
}

fn add_signature_rules(g: &mut Grammar)
    requires
        old(g)@ == type_rules(),
        structured(old(g)@),
        bound(old(g)@),
    ensures
        final(g)@ == signature_rules(),
        structured(final(g)@),
        bound(final(g)@),
{
    let steps = vec![IDENT, COLON, FULL_TYPE];
    assert(steps@ =~= seq![IDENT, COLON, FULL_TYPE]);
    let arg = g.named("ident type pair", steps, Transform::Arg);
    let arg_list = g.maybe_empty_pred(IDENT, arg, COMMA, COMMA, Trail::Never);
    let steps = vec![arg_list];
    assert(steps@ =~= seq![ARG_LIST]);
    let _fn_args = g.named("function args", steps, Transform::Pick(0));
    let minus = g.add(Node::Particle('-'));
    let steps = vec![minus, GREATER];
    assert(steps@ =~= seq![MINUS, GREATER]);
    let _arrow = g.inline(steps, Transform::Unit);
    assert(g@ =~= signature_rules());
}

fn add_expression_rules(g: &mut Grammar)
    requires
        old(g)@ == signature_rules(),
        structured(old(g)@),
        bound(old(g)@),
    ensures
        final(g)@ == expression_rules(),
        structured(final(g)@),
        bound(final(g)@),
{
    let ends = vec![')', ';', ','];
    assert(ends@ =~= seq![')', ';', ',']);
    let terminator = g.add(Node::ParticleIn(ends));
    let more = g.add(Node::Not(terminator));
    let call_ref = g.create();
    let steps = vec![LITERAL];
    assert(steps@ =~= seq![LITERAL]);
    let literal_expr = g.inline(steps, Transform::LiteralExpr);
    let steps = vec![IDENT, OPEN];
    assert(steps@ =~= seq![IDENT, OPEN]);
    let call_start = g.inline(steps, Transform::Unit);
    let steps = vec![call_ref];
    assert(steps@ =~= seq![CALL_REF]);
    let call_expr = g.inline(steps, Transform::Located);
    let steps = vec![IDENT];
    assert(steps@ =~= seq![IDENT]);
    let variable_expr = g.inline(steps, Transform::VariableExpr);
    let glued_run = g.maybe_empty(GLUED, NOTHING, Trail::Always);
    let steps = vec![PARTICLE, glued_run];
    assert(steps@ =~= seq![PARTICLE, GLUED_RUN]);
    let operator = g.inline(steps, Transform::OperatorRun);
    let arms = vec![
        (LITERAL, literal_expr),
        (call_start, call_expr),
        (IDENT, variable_expr),
        (PARTICLE, operator),
    ];
    assert(arms@ =~= seq![
        (LITERAL, LITERAL_EXPR),
        (CALL_START, CALL_EXPR),
        (IDENT, VARIABLE_EXPR),
        (PARTICLE, OPERATOR),
    ]);
    let expr_part = g.add(Node::Match(arms));
    let expr_parts = g.non_empty_pred(more, expr_part, NOTHING, NOTHING, Trail::Always);
    let steps = vec![expr_parts];
    assert(steps@ =~= seq![EXPR_PARTS]);
    let expression = g.named("expression", steps, Transform::FoldExpression);
    let arg_values = g.maybe_empty_pred(more, expression, COMMA, COMMA, Trail::Never);
    let steps = vec![arg_values];
    assert(steps@ =~= seq![ARG_VALUES]);
    let args = g.named("args", steps, Transform::Pick(0));
    let steps = vec![ITEM, OPEN, args, CLOSE];
    assert(steps@ =~= seq![ITEM, OPEN, ARGS, CLOSE]);
    let fn_call = g.named("function call", steps, Transform::Call);
    g.finalize(call_ref, fn_call);
    assert(g@ =~= expression_rules());
}

fn add_statement_rules(g: &mut Grammar)
    requires
        old(g)@ == expression_rules(),
        structured(old(g)@),
        bound(old(g)@),
    ensures
        final(g)@ == statement_rules(),
        structured(final(g)@),
        bound(final(g)@),
{
    let let_word = g.add(Node::Token(TokenType::Ident(String::from_str("let"))));
    let mut_word = g.add(Node::Token(TokenType::Ident(String::from_str("mut"))));
    let maybe_mut = g.maybe(mut_word);
    let steps = vec![COLON, FULL_TYPE];
    assert(steps@ =~= seq![COLON, FULL_TYPE]);
    let var_type = g.named("variable type", steps, Transform::Pick(1));
    let maybe_var_type = g.add(Node::Conditional { predicate: COLON, pattern: var_type });
    let steps = vec![let_word, maybe_mut, ITEM, maybe_var_type, EQUALS, EXPRESSION];
    assert(steps@ =~= seq![LET, MAYBE_MUT, ITEM, MAYBE_VAR_TYPE, EQUALS, EXPRESSION]);
    let var_create = g.named("variable declaration", steps, Transform::VarCreate);
    let not_equals = g.add(Node::Not(EQUALS));
    let compound_run = g.maybe_empty_pred(not_equals, GLUED, NOTHING, NOTHING, Trail::Always);
    let glued_equals = g.add(Node::Token(TokenType::Particle('=', true)));
    let steps = vec![PARTICLE, compound_run, glued_equals];
    assert(steps@ =~= seq![PARTICLE, COMPOUND_RUN, GLUED_EQUALS]);
    let compound = g.named("variable assignment", steps, Transform::OperatorRun);
    let assign_op = g.add(
        Node::BranchIfElse { condition: not_equals, taken: compound, otherwise: EQUALS },
    );
    let steps = vec![ITEM, assign_op, EXPRESSION];
    assert(steps@ =~= seq![ITEM, ASSIGN_OP, EXPRESSION]);
    let var_assign = g.named("variable assignment", steps, Transform::VarAssign);
    let call_ahead_next = g.add(
        Node::BranchIfElse { condition: COLON, taken: COLON, otherwise: OPEN },
    );
    let steps = vec![IDENT, call_ahead_next];
    assert(steps@ =~= seq![IDENT, CALL_AHEAD_NEXT]);
    let call_ahead = g.inline(steps, Transform::Unit);
    let steps = vec![FN_CALL];
    assert(steps@ =~= seq![FN_CALL]);
    let call_stmt = g.inline(steps, Transform::ExprStmt);
    let arms = vec![(let_word, var_create), (call_ahead, call_stmt), (NOTHING, var_assign)];
    assert(arms@ =~= seq![(LET, VAR_CREATE), (CALL_AHEAD, CALL_STMT), (NOTHING, VAR_ASSIGN)]);
    let stmt_choice = g.add(Node::Match(arms));
    let semicolon = g.add(Node::Particle(';'));
    let steps = vec![stmt_choice, semicolon];
    assert(steps@ =~= seq![STMT_CHOICE, SEMICOLON]);
    let statement = g.named("statement", steps, Transform::Statement);
    let statements = g.maybe_empty_pred(IDENT, statement, NOTHING, NOTHING, Trail::Always);
    let steps = vec![statements];
    assert(steps@ =~= seq![STATEMENTS]);
    let _block = g.named("block", steps, Transform::Block);
    assert(g@ =~= statement_rules());
}

fn add_function_rules(g: &mut Grammar)
    requires
        old(g)@ == statement_rules(),
        structured(old(g)@),
        bound(old(g)@),
    ensures
        final(g)@ == language(),
        structured(final(g)@),
        bound(final(g)@),
{
    let fn_word = g.add(Node::Token(TokenType::Ident(String::from_str("fn"))));
    let steps = vec![ARROW, FULL_TYPE];
    assert(steps@ =~= seq![ARROW, FULL_TYPE]);
    let return_type = g.named("return type", steps, Transform::Pick(1));
    let maybe_return = g.add(Node::Conditional { predicate: ARROW, pattern: return_type });
    let steps = vec![maybe_return];
    assert(steps@ =~= seq![MAYBE_RETURN]);
    let return_or_unit = g.inline(steps, Transform::OrUnitType);
    let open_brace = g.add(Node::Particle('{'));
    let close_brace = g.add(Node::Particle('}'));
    let steps = vec![
        fn_word,
        IDENT,
        OPEN,
        FN_ARGS,
        CLOSE,
        return_or_unit,
        open_brace,
        BLOCK,
        close_brace,
    ];
    assert(steps@ =~= seq![
        FN,
        IDENT,
        OPEN,
        FN_ARGS,
        CLOSE,
        RETURN_OR_UNIT,
        OPEN_BRACE,
        BLOCK,
        CLOSE_BRACE,
    ]);
    let function = g.named("function", steps, Transform::Func);
    let functions = g.maybe_empty_pred(fn_word, function, NOTHING, NOTHING, Trail::Always);
    let steps = vec![functions];
    assert(steps@ =~= seq![FUNCTIONS]);
    let _module_content = g.named("module content", steps, Transform::Funcs);
    assert(g@ =~= language());
}

/// The grammar of the language with its two entry rules.
pub struct Patterns {
    grammar: Grammar,
    module_content: usize,
    function: usize,
}

impl Patterns {
    #[verifier::type_invariant]
    spec fn assembled(&self) -> bool {
        &&& self.grammar@ == language()
        &&& structured(self.grammar@)
        &&& bound(self.grammar@)
        &&& self.module_content == MODULE_CONTENT
        &&& self.function == FUNCTION
    }

    /// The rules of the grammar.
    pub closed spec fn rules(&self) -> Seq<NodeView> {
        self.grammar@
    }

    /// The index of the rule for a function.
    pub closed spec fn function_rule(&self) -> usize {
        self.function
    }

    /// The index of the rule for the content of a module.
    pub closed spec fn module_content_rule(&self) -> usize {
        self.module_content
    }

    /// The table of rules.
    pub fn grammar(&self) -> (grammar: &Grammar)
        ensures
            grammar@ == language(),
            structured(grammar@),
            bound(grammar@),
    {
        proof {
            use_type_invariant(self);
        }
        &self.grammar
    }

    /// Parses a function at the cursor. On success the cursor stands after
    /// the function; on failure, where it stands is left open.
    pub fn parse_function(&self, iter: &mut TokIter) -> (res: Result<Func, ParseError>)
        ensures
            final(iter).tokens() == old(iter).tokens(),
            match function_at(old(iter).tokens(), old(iter).position()) {
                Ok((func, end)) => res is Ok && res->Ok_0@ == func && final(iter).position()
                    == end,
                Err(e) => res is Err && res->Err_0@ == e,
            },
            res matches Err(e) ==> e@.et.about_input(),
    {
        let _ = iter.mark();
        proof {
            use_type_invariant(self);
            lemma_sizes();
            lemma_language_keeps_kinds(
                iter.tokens(),
                FUNCTION as nat,
                iter.position(),
                language().len(),
            );
            lemma_language_fails_for_the_input(
                iter.tokens(),
                FUNCTION as nat,
                iter.position(),
                language().len(),
            );
        }
        let budget = self.grammar.len();
        match self.grammar.run(self.function, iter, budget) {
            Ok(Value::Func(func)) => Ok(func),
            Ok(_) => Err(ParseET::Malformed.error()),
            Err(e) => Err(e),
        }
    }

    /// Parses the content of a module at the cursor: functions, one after
    /// another, for as long as the keyword `fn` follows. Yields them in
    /// their order, with the span that they cover. On success the cursor
    /// stands after the last function; on failure, where it stands is left
    /// open.
    pub fn parse_module_content(&self, iter: &mut TokIter) -> (res: Result<
        (Vec<Func>, Span),
        ParseError,
    >)
        ensures
            final(iter).tokens() == old(iter).tokens(),
            match module_content_at(old(iter).tokens(), old(iter).position()) {
                Ok(((funcs, span), end)) => res is Ok && func_views(res->Ok_0.0@) == funcs
                    && res->Ok_0.1 == span && final(iter).position() == end,
                Err(e) => res is Err && res->Err_0@ == e,
            },
            res matches Err(e) ==> e@.et.about_input(),
    {
        let _ = iter.mark();
        proof {
            use_type_invariant(self);
            lemma_sizes();
            lemma_language_keeps_kinds(
                iter.tokens(),
                MODULE_CONTENT as nat,
                iter.position(),
                language().len(),
            );
            lemma_language_fails_for_the_input(
                iter.tokens(),
                MODULE_CONTENT as nat,
                iter.position(),
                language().len(),
            );
        }
        let budget = self.grammar.len();
        match self.grammar.run(self.module_content, iter, budget) {
            Ok(Value::Funcs(funcs, span)) => Ok((funcs, span)),
            Ok(_) => Err(ParseET::Malformed.error()),
            Err(e) => Err(e),
        }
    }
}

/// Assembles the grammar of the language.
pub fn build_patterns() -> (patterns: Patterns)
    ensures
        patterns.rules() == language(),
        patterns.function_rule() == FUNCTION,
        patterns.module_content_rule() == MODULE_CONTENT,
{
    let mut grammar = Grammar::new();
    add_item_rules(&mut grammar);
    add_type_rules(&mut grammar);
    add_signature_rules(&mut grammar);
    add_expression_rules(&mut grammar);
    add_statement_rules(&mut grammar);
    add_function_rules(&mut grammar);
    Patterns { grammar, module_content: MODULE_CONTENT, function: FUNCTION }
}

} // verus!
