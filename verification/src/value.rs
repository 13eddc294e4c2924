//! The values that grammar rules produce and hand to one another.

use crate::ast::{
    AstLiteral, AstLiteralView, Block, BlockView, Expr, ExprView, Expression, ExpressionView,
    FullType, FullTypeView, Func, FuncView, Ident, IdentView, Item, ItemView, Operator,
    Statement, StatementView, Stmt, StmtView, Type, TypeT, TypeTView, TypeView, func_views,
};
use crate::span::Span;
use vstd::prelude::*;

verus! {

/// What a rule yields: nothing, a piece of a token, the outcome of an
/// optional or repeated rule, or a node of the syntax tree.
#[derive(Debug, PartialEq)]
pub enum Value {
    Unit,
    Char(char),
    Ident(Ident),
    Literal(AstLiteral),
    Opt(Option<Box<Value>>),
    List(Vec<Value>),
    Item(Item),
    Type(Type),
    TypeT(TypeT),
    FullType(FullType),
    Arg(Ident, FullType),
    Operator(Operator),
    Expr(Expr),
    Expression(Expression),
    Stmt(Stmt),
    Statement(Statement),
    Block(Block),
    Func(Func),
    Funcs(Vec<Func>, Span),
}

pub ghost enum ValueView {
    Unit,
    Char(char),
    Ident(IdentView),
    Literal(AstLiteralView),
    Opt(Option<Box<ValueView>>),
    List(Seq<ValueView>),
    Item(ItemView),
    Type(TypeView),
    TypeT(TypeTView),
    FullType(FullTypeView),
    Arg(IdentView, FullTypeView),
    Operator(Operator),
    Expr(ExprView),
    Expression(ExpressionView),
    Stmt(StmtView),
    Statement(StatementView),
    Block(BlockView),
    Func(FuncView),
    Funcs(Seq<FuncView>, Span),
}

impl Value {
    pub open spec fn model(&self) -> ValueView
        decreases self,
    {
        match self {
            Value::Unit => ValueView::Unit,
            Value::Char(c) => ValueView::Char(*c),
            Value::Ident(ident) => ValueView::Ident(ident@),
            Value::Literal(lit) => ValueView::Literal(lit@),
            Value::Opt(inner) => ValueView::Opt(
                match inner {
                    Some(value) => Some(Box::new((**value).model())),
                    None => None,
                },
            ),
            Value::List(items) => ValueView::List(
                Seq::new(
                    items@.len(),
                    |i: int|
                        if 0 <= i < items@.len() {
                            items[i].model()
                        } else {
                            arbitrary()
                        },
                ),
            ),
            Value::Item(item) => ValueView::Item(item@),
            Value::Type(ty) => ValueView::Type(ty@),
            Value::TypeT(ty) => ValueView::TypeT(ty@),
            Value::FullType(ty) => ValueView::FullType(ty@),
            Value::Arg(name, ty) => ValueView::Arg(name@, ty@),
            Value::Operator(op) => ValueView::Operator(*op),
            Value::Expr(e) => ValueView::Expr(e@),
            Value::Expression(e) => ValueView::Expression(e@),
            Value::Stmt(s) => ValueView::Stmt(s@),
            Value::Statement(s) => ValueView::Statement(s@),
            Value::Block(b) => ValueView::Block(b@),
            Value::Func(f) => ValueView::Func(f@),
            Value::Funcs(funcs, span) => ValueView::Funcs(func_views(funcs@), *span),
        }
    }
}

impl View for Value {
    type V = ValueView;

    open spec fn view(&self) -> ValueView {
        self.model()
    }
}

/// The views of a sequence of values, one by one.
pub open spec fn value_views(values: Seq<Value>) -> Seq<ValueView> {
    Seq::new(values.len(), |i: int| values[i]@)
}

/// The view of a list is made of the views of its items.
pub proof fn lemma_list_view(items: Vec<Value>)
    ensures
        Value::List(items)@ == ValueView::List(value_views(items@)),
{
    reveal_with_fuel(Value::model, 2);
    assert(Value::List(items).model()->List_0 =~= value_views(items@));
}

/// The view of an optional value is the view of what it holds, if anything.
pub proof fn lemma_opt_view(inner: Option<Box<Value>>)
    ensures
        Value::Opt(inner)@ == ValueView::Opt(
            match inner {
                Some(value) => Some(Box::new((*value)@)),
                None => None,
            },
        ),
{
    reveal_with_fuel(Value::model, 2);
}

} // verus!
