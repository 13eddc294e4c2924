//! The transforms: what a rule makes of the values of its steps and of the
//! span that they cover.

use crate::ast::{
    arg_views, expression_views, full_type_views, func_views, ident_views, lemma_call_view,
    lemma_tuple_view, lemma_type_view, operator_error, operator_of, statement_views, Block,
    BlockView, Expr, ExprView, Expression, ExpressionView, FullType, FullTypeView, Func, FuncView,
    Ident, IdentView, Item, ItemView, Op, Operator, Statement, StatementView, Stmt, StmtView, Type,
    TypeT, TypeTView, TypeView,
};
use crate::error::{ParseET, ParseError, ParseETView, ParseErrorView};
use crate::expr::{fold, fold_parts, part_views, ExprPart, ExprPartView};
use crate::span::Span;
use crate::value::{lemma_list_view, lemma_opt_view, value_views, Value, ValueView};
use vstd::prelude::*;

verus! {

/// A kind of value that a list of values can be made of.
pub trait FromValue: View + Sized {
    /// Whether `value` is of this kind.
    spec fn accepts(value: ValueView) -> bool;

    /// What `value` holds, where it is of this kind.
    spec fn extract(value: ValueView) -> Self::V;

    /// Takes out of `value` what it holds, where it is of this kind.
    fn from_value(value: Value) -> (res: Option<Self>)
        ensures
            match res {
                Some(x) => Self::accepts(value@) && x@ == Self::extract(value@),
                None => !Self::accepts(value@),
            },
    ;
}

impl FromValue for Ident {
    open spec fn accepts(value: ValueView) -> bool {
        value is Ident
    }

    open spec fn extract(value: ValueView) -> IdentView {
        value->Ident_0
    }

    fn from_value(value: Value) -> (res: Option<Ident>) {
        match value {
            Value::Ident(ident) => Some(ident),
            _ => None,
        }
    }
}

impl FromValue for char {
    open spec fn accepts(value: ValueView) -> bool {
        value is Char
    }

    open spec fn extract(value: ValueView) -> char {
        value->Char_0
    }

    fn from_value(value: Value) -> (res: Option<char>) {
        match value {
            Value::Char(c) => Some(c),
            _ => None,
        }
    }
}

impl FromValue for FullType {
    open spec fn accepts(value: ValueView) -> bool {
        value is FullType
    }

    open spec fn extract(value: ValueView) -> FullTypeView {
        value->FullType_0
    }

    fn from_value(value: Value) -> (res: Option<FullType>) {
        match value {
            Value::FullType(ty) => Some(ty),
            _ => None,
        }
    }
}

impl FromValue for (Ident, FullType) {
    open spec fn accepts(value: ValueView) -> bool {
        value is Arg
    }

    open spec fn extract(value: ValueView) -> (IdentView, FullTypeView) {
        (value->Arg_0, value->Arg_1)
    }

    fn from_value(value: Value) -> (res: Option<(Ident, FullType)>) {
        match value {
            Value::Arg(name, ty) => Some((name, ty)),
            _ => None,
        }
    }
}

impl FromValue for Expression {
    open spec fn accepts(value: ValueView) -> bool {
        value is Expression
    }

    open spec fn extract(value: ValueView) -> ExpressionView {
        value->Expression_0
    }

    fn from_value(value: Value) -> (res: Option<Expression>) {
        match value {
            Value::Expression(e) => Some(e),
            _ => None,
        }
    }
}

impl FromValue for ExprPart {
    open spec fn accepts(value: ValueView) -> bool {
        value is Expression || value is Operator
    }

    open spec fn extract(value: ValueView) -> ExprPartView {
        match value {
            ValueView::Operator(op) => ExprPartView::Op(op),
            _ => ExprPartView::Expr(value->Expression_0),
        }
    }

    fn from_value(value: Value) -> (res: Option<ExprPart>) {
        match value {
            Value::Expression(e) => Some(ExprPart::Expr(e)),
            Value::Operator(op) => Some(ExprPart::Op(op)),
            _ => None,
        }
    }
}

impl FromValue for Statement {
    open spec fn accepts(value: ValueView) -> bool {
        value is Statement
    }

    open spec fn extract(value: ValueView) -> StatementView {
        value->Statement_0
    }

    fn from_value(value: Value) -> (res: Option<Statement>) {
        match value {
            Value::Statement(s) => Some(s),
            _ => None,
        }
    }
}

impl FromValue for Func {
    open spec fn accepts(value: ValueView) -> bool {
        value is Func
    }

    open spec fn extract(value: ValueView) -> FuncView {
        value->Func_0
    }

    fn from_value(value: Value) -> (res: Option<Func>) {
        match value {
            Value::Func(f) => Some(f),
            _ => None,
        }
    }
}

/// Whether every one of `values` is of the kind `T`.
pub open spec fn all<T: FromValue>(values: Seq<ValueView>) -> bool {
    forall|i: int| 0 <= i < values.len() ==> T::accepts(#[trigger] values[i])
}

/// What `values` hold, one by one, where they are of the kind `T`.
pub open spec fn extract_all<T: FromValue>(values: Seq<ValueView>) -> Seq<T::V> {
    Seq::new(values.len(), |i: int| T::extract(values[i]))
}

/// The views of a sequence, one by one.
pub open spec fn views<T: View>(items: Seq<T>) -> Seq<T::V> {
    Seq::new(items.len(), |i: int| items[i]@)
}

/// Takes out of each of `values` what it holds; none where one of them is
/// not of the kind `T`.
pub fn collect<T: FromValue>(values: Vec<Value>) -> (res: Option<Vec<T>>)
    ensures
        match res {
            Some(items) => all::<T>(value_views(values@)) && views(items@) == extract_all::<T>(
                value_views(values@),
            ),
            None => !all::<T>(value_views(values@)),
        },
{
    let mut items: Vec<T> = Vec::new();
    let ghost given = value_views(values@);
    for value in it: values
        invariant
            given == value_views(values@),
            items@.len() == it.index(),
            forall|i: int| 0 <= i < items@.len() ==> T::accepts(#[trigger] given[i]),
            forall|i: int|
                0 <= i < items@.len() ==> (#[trigger] items@[i])@ == T::extract(given[i]),
    {
        match T::from_value(value) {
            Some(item) => items.push(item),
            None => {
                assert(!T::accepts(given[items@.len() as int]));
                return None;
            },
        }
    }
    assert(views(items@) =~= extract_all::<T>(given));
    Some(items)
}


/// What a rule makes of the values of its steps.
#[derive(Clone, Copy, Debug, PartialEq, Eq, Structural)]
pub enum Transform {
    /// Nothing, whatever the steps gave.
    Unit,
    /// The value of the step with the given index.
    Pick(usize),
    /// A path, from the list of its identifiers.
    Item,
    /// What an optional step gave, or the empty list where it gave nothing.
    OrEmpty,
    /// A named type, from its path and the list of its generic arguments.
    Type,
    /// A type that is a named type.
    Single,
    /// A tuple type, from the list of its members between two delimiters.
    Tuple,
    /// A type with its location.
    FullType,
    /// The type that an optional step gave, or the empty tuple type.
    OrUnitType,
    /// A function argument, from its name, a delimiter and its type.
    Arg,
    /// A literal as an expression.
    LiteralExpr,
    /// A variable reference as an expression.
    VariableExpr,
    /// An expression with its location.
    Located,
    /// An operator, from its first character and the list of those glued to
    /// it; further steps are ignored.
    OperatorRun,
    /// An expression tree, from the list of its operands and operators.
    FoldExpression,
    /// A call, from the path of the function and the list of its arguments
    /// between two delimiters.
    Call,
    /// A variable declaration.
    VarCreate,
    /// An assignment.
    VarAssign,
    /// An expression as a statement.
    ExprStmt,
    /// A statement with its location, from the statement and its
    /// terminator.
    Statement,
    /// A block, from the list of its statements.
    Block,
    /// A function definition.
    Func,
    /// The functions of a module, from their list.
    Funcs,
}

/// The error of a transform that is given values of a shape it cannot take.
pub open spec fn malformed(span: Span) -> Result<ValueView, ParseErrorView> {
    Err(ParseETView::Malformed.at(span))
}

/// The list that `value` holds, where it is a list of values of the kind
/// `T`.
pub open spec fn list_of<T: FromValue>(value: ValueView) -> Option<Seq<T::V>> {
    match value {
        ValueView::List(items) if all::<T>(items) => Some(extract_all::<T>(items)),
        _ => None,
    }
}

/// What `transform` makes of the values `kids` of a rule's steps, which
/// cover `span`.
pub open spec fn transformed(transform: Transform, kids: Seq<ValueView>, span: Span) -> Result<
    ValueView,
    ParseErrorView,
> {
    match transform {
        Transform::Unit => Ok(ValueView::Unit),
        Transform::Pick(i) => if i < kids.len() {
            Ok(kids[i as int])
        } else {
            malformed(span)
        },
        Transform::Item => if kids.len() == 1 && list_of::<Ident>(kids[0]) is Some {
            Ok(ValueView::Item(ItemView(list_of::<Ident>(kids[0])->0, span)))
        } else {
            malformed(span)
        },
        Transform::OrEmpty => if kids.len() == 1 && kids[0] is Opt {
            match kids[0]->Opt_0 {
                Some(value) => Ok(*value),
                None => Ok(ValueView::List(Seq::empty())),
            }
        } else {
            malformed(span)
        },
        Transform::Type => if kids.len() == 2 && kids[0] is Item && list_of::<FullType>(kids[1])
            is Some {
            Ok(
                ValueView::Type(
                    TypeView {
                        generics: list_of::<FullType>(kids[1])->0,
                        base_type: kids[0]->Item_0,
                        loc: span,
                    },
                ),
            )
        } else {
            malformed(span)
        },
        Transform::Single => if kids.len() == 1 && kids[0] is Type {
            Ok(ValueView::TypeT(TypeTView::Single(kids[0]->Type_0)))
        } else {
            malformed(span)
        },
        Transform::Tuple => if kids.len() == 3 && list_of::<FullType>(kids[1]) is Some {
            Ok(ValueView::TypeT(TypeTView::Tuple(list_of::<FullType>(kids[1])->0)))
        } else {
            malformed(span)
        },
        Transform::FullType => if kids.len() == 1 && kids[0] is TypeT {
            Ok(ValueView::FullType(FullTypeView(kids[0]->TypeT_0, span)))
        } else {
            malformed(span)
        },
        Transform::OrUnitType => if kids.len() == 1 && kids[0] is Opt {
            match kids[0]->Opt_0 {
                Some(value) => if *value is FullType {
                    Ok(*value)
                } else {
                    malformed(span)
                },
                None => Ok(
                    ValueView::FullType(FullTypeView(TypeTView::Tuple(Seq::empty()), span)),
                ),
            }
        } else {
            malformed(span)
        },
        Transform::Arg => if kids.len() == 3 && kids[0] is Ident && kids[2] is FullType {
            Ok(ValueView::Arg(kids[0]->Ident_0, kids[2]->FullType_0))
        } else {
            malformed(span)
        },
        Transform::LiteralExpr => if kids.len() == 1 && kids[0] is Literal {
            Ok(ValueView::Expression(ExpressionView(ExprView::Literal(kids[0]->Literal_0), span)))
        } else {
            malformed(span)
        },
        Transform::VariableExpr => if kids.len() == 1 && kids[0] is Ident {
            Ok(ValueView::Expression(ExpressionView(ExprView::Variable(kids[0]->Ident_0), span)))
        } else {
            malformed(span)
        },
        Transform::Located => if kids.len() == 1 && kids[0] is Expr {
            Ok(ValueView::Expression(ExpressionView(kids[0]->Expr_0, span)))
        } else {
            malformed(span)
        },
        Transform::OperatorRun => if kids.len() >= 2 && kids[0] is Char && list_of::<char>(
            kids[1],
        ) is Some {
            let chars = seq![kids[0]->Char_0] + list_of::<char>(kids[1])->0;
            match operator_of(chars) {
                Some(op) => Ok(ValueView::Operator(Operator(op, span))),
                None => Err(operator_error(chars, Some(span))),
            }
        } else {
            malformed(span)
        },
        Transform::FoldExpression => if kids.len() == 1 && list_of::<ExprPart>(kids[0])
            is Some {
            match fold(list_of::<ExprPart>(kids[0])->0, span) {
                Ok(e) => Ok(ValueView::Expression(e)),
                Err(e) => Err(e),
            }
        } else {
            malformed(span)
        },
        Transform::Call => if kids.len() == 4 && kids[0] is Item && list_of::<Expression>(
            kids[2],
        ) is Some {
            Ok(
                ValueView::Expr(
                    ExprView::FuncCall(kids[0]->Item_0, list_of::<Expression>(kids[2])->0),
                ),
            )
        } else {
            malformed(span)
        },
        Transform::VarCreate => if kids.len() == 6 && kids[1] is Opt && kids[2] is Item
            && optional_type(kids[3]) is Some && kids[5] is Expression {
            Ok(
                ValueView::Stmt(
                    StmtView::VarCreate(
                        kids[2]->Item_0,
                        kids[1]->Opt_0 is Some,
                        optional_type(kids[3])->0,
                        kids[5]->Expression_0,
                    ),
                ),
            )
        } else {
            malformed(span)
        },
        Transform::VarAssign => if kids.len() == 3 && kids[0] is Item && optional_operator(
            kids[1],
        ) is Some && kids[2] is Expression {
            Ok(
                ValueView::Stmt(
                    StmtView::VarAssign(
                        kids[0]->Item_0,
                        optional_operator(kids[1])->0,
                        kids[2]->Expression_0,
                    ),
                ),
            )
        } else {
            malformed(span)
        },
        Transform::ExprStmt => if kids.len() == 1 && kids[0] is Expr {
            Ok(ValueView::Stmt(StmtView::Expression(ExpressionView(kids[0]->Expr_0, span))))
        } else {
            malformed(span)
        },
        Transform::Statement => if kids.len() == 2 && kids[0] is Stmt {
            Ok(ValueView::Statement(StatementView(kids[0]->Stmt_0, span)))
        } else {
            malformed(span)
        },
        Transform::Block => if kids.len() == 1 && list_of::<Statement>(kids[0]) is Some {
            Ok(ValueView::Block(BlockView(list_of::<Statement>(kids[0])->0, span)))
        } else {
            malformed(span)
        },
        Transform::Func => if kids.len() == 9 && kids[1] is Ident && list_of::<
            (Ident, FullType),
        >(kids[3]) is Some && kids[5] is FullType && kids[7] is Block {
            Ok(
                ValueView::Func(
                    FuncView {
                        name: kids[1]->Ident_0,
                        args: list_of::<(Ident, FullType)>(kids[3])->0,
                        ret: kids[5]->FullType_0,
                        body: kids[7]->Block_0,
                        loc: span,
                    },
                ),
            )
        } else {
            malformed(span)
        },
        Transform::Funcs => if kids.len() == 1 && list_of::<Func>(kids[0]) is Some {
            Ok(ValueView::Funcs(list_of::<Func>(kids[0])->0, span))
        } else {
            malformed(span)
        },
    }
}

/// The type that `value` holds, where it is an optional value that holds a
/// type or nothing.
pub open spec fn optional_type(value: ValueView) -> Option<Option<FullTypeView>> {
    match value {
        ValueView::Opt(Some(inner)) => match *inner {
            ValueView::FullType(ty) => Some(Some(ty)),
            _ => None,
        },
        ValueView::Opt(None) => Some(None),
        _ => None,
    }
}

/// The operator that `value` stands for: an operator for itself, the unit
/// value for none.
pub open spec fn optional_operator(value: ValueView) -> Option<Option<Operator>> {
    match value {
        ValueView::Operator(op) => Some(Some(op)),
        ValueView::Unit => Some(None),
        _ => None,
    }
}

/// Whether `res` is the outcome `expected`, up to views.
pub open spec fn agrees(res: Result<Value, ParseError>, expected: Result<
    ValueView,
    ParseErrorView,
>) -> bool {
    match expected {
        Ok(value) => res is Ok && res->Ok_0@ == value,
        Err(e) => res is Err && res->Err_0@ == e,
    }
}

/// Takes the last of `kids`.
fn pop(kids: &mut Vec<Value>) -> (value: Value)
    requires
        old(kids)@.len() > 0,
    ensures
        value@ == value_views(old(kids)@).last(),
        final(kids)@.len() == old(kids)@.len() - 1,
        value_views(final(kids)@) == value_views(old(kids)@).drop_last(),
{
    let value = kids.pop().unwrap();
    assert(value_views(kids@) =~= value_views(old(kids)@).drop_last());
    value
}

/// Takes out of `value` the list that it holds, where it is a list of values
/// of the kind `T`.
fn take_list<T: FromValue>(value: Value) -> (res: Option<Vec<T>>)
    ensures
        match res {
            Some(items) => list_of::<T>(value@) == Some(views(items@)),
            None => list_of::<T>(value@) is None,
        },
{
    match value {
        Value::List(items) => {
            proof {
                lemma_list_view(items);
            }
            collect(items)
        },
        _ => None,
    }
}

fn fail(span: Span) -> (res: Result<Value, ParseError>)
    ensures
        agrees(res, malformed(span)),
{
    Err(ParseET::Malformed.at(span))
}

fn make_item(kids: Vec<Value>, span: Span) -> (res: Result<Value, ParseError>)
    ensures
        agrees(res, transformed(Transform::Item, value_views(kids@), span)),
{
    let mut kids = kids;
    if kids.len() != 1 {
        return fail(span);
    }
    match take_list::<Ident>(pop(&mut kids)) {
        Some(idents) => {
            assert(ident_views(idents@) =~= views(idents@));
            Ok(Value::Item(Item(idents, span)))
        },
        None => fail(span),
    }
}

fn make_or_empty(kids: Vec<Value>, span: Span) -> (res: Result<Value, ParseError>)
    ensures
        agrees(res, transformed(Transform::OrEmpty, value_views(kids@), span)),
{
    let mut kids = kids;
    if kids.len() != 1 {
        return fail(span);
    }
    match pop(&mut kids) {
        Value::Opt(inner) => {
            proof {
                lemma_opt_view(inner);
            }
            match inner {
                Some(value) => Ok(*value),
                None => {
                    let items: Vec<Value> = Vec::new();
                    proof {
                        lemma_list_view(items);
                        assert(value_views(items@) =~= Seq::empty());
                    }
                    Ok(Value::List(items))
                },
            }
        },
        _ => fail(span),
    }
}

fn make_type(kids: Vec<Value>, span: Span) -> (res: Result<Value, ParseError>)
    ensures
        agrees(res, transformed(Transform::Type, value_views(kids@), span)),
{
    let mut kids = kids;
    if kids.len() != 2 {
        return fail(span);
    }
    let generics = pop(&mut kids);
    let base = pop(&mut kids);
    match (base, take_list::<FullType>(generics)) {
        (Value::Item(base_type), Some(generics)) => {
            let ty = Type { generics, base_type, loc: span };
            proof {
                lemma_type_view(ty);
                assert(full_type_views(ty.generics@) =~= views(ty.generics@));
            }
            Ok(Value::Type(ty))
        },
        _ => fail(span),
    }
}

fn make_single(kids: Vec<Value>, span: Span) -> (res: Result<Value, ParseError>)
    ensures
        agrees(res, transformed(Transform::Single, value_views(kids@), span)),
{
    let mut kids = kids;
    if kids.len() != 1 {
        return fail(span);
    }
    match pop(&mut kids) {
        Value::Type(ty) => Ok(Value::TypeT(TypeT::Single(ty))),
        _ => fail(span),
    }
}

fn make_tuple(kids: Vec<Value>, span: Span) -> (res: Result<Value, ParseError>)
    ensures
        agrees(res, transformed(Transform::Tuple, value_views(kids@), span)),
{
    let mut kids = kids;
    if kids.len() != 3 {
        return fail(span);
    }
    let _close = pop(&mut kids);
    match take_list::<FullType>(pop(&mut kids)) {
        Some(members) => {
            proof {
                lemma_tuple_view(members);
                assert(full_type_views(members@) =~= views(members@));
            }
            Ok(Value::TypeT(TypeT::Tuple(members)))
        },
        None => fail(span),
    }
}

fn make_full_type(kids: Vec<Value>, span: Span) -> (res: Result<Value, ParseError>)
    ensures
        agrees(res, transformed(Transform::FullType, value_views(kids@), span)),
{
    let mut kids = kids;
    if kids.len() != 1 {
        return fail(span);
    }
    match pop(&mut kids) {
        Value::TypeT(ty) => Ok(Value::FullType(FullType(ty, span))),
        _ => fail(span),
    }
}

fn make_or_unit_type(kids: Vec<Value>, span: Span) -> (res: Result<Value, ParseError>)
    ensures
        agrees(res, transformed(Transform::OrUnitType, value_views(kids@), span)),
{
    let mut kids = kids;
    if kids.len() != 1 {
        return fail(span);
    }
    match pop(&mut kids) {
        Value::Opt(inner) => {
            proof {
                lemma_opt_view(inner);
            }
            match inner {
                Some(value) => match *value {
                    Value::FullType(ty) => Ok(Value::FullType(ty)),
                    _ => fail(span),
                },
                None => Ok(Value::FullType(FullType(TypeT::empty(), span))),
            }
        },
        _ => fail(span),
    }
}

fn make_arg(kids: Vec<Value>, span: Span) -> (res: Result<Value, ParseError>)
    ensures
        agrees(res, transformed(Transform::Arg, value_views(kids@), span)),
{
    let mut kids = kids;
    if kids.len() != 3 {
        return fail(span);
    }
    let ty = pop(&mut kids);
    let _colon = pop(&mut kids);
    let name = pop(&mut kids);
    match (name, ty) {
        (Value::Ident(name), Value::FullType(ty)) => Ok(Value::Arg(name, ty)),
        _ => fail(span),
    }
}

fn make_literal_expr(kids: Vec<Value>, span: Span) -> (res: Result<Value, ParseError>)
    ensures
        agrees(res, transformed(Transform::LiteralExpr, value_views(kids@), span)),
{
    let mut kids = kids;
    if kids.len() != 1 {
        return fail(span);
    }
    match pop(&mut kids) {
        Value::Literal(lit) => Ok(Value::Expression(Expression(Expr::Literal(lit), span))),
        _ => fail(span),
    }
}

fn make_variable_expr(kids: Vec<Value>, span: Span) -> (res: Result<Value, ParseError>)
    ensures
        agrees(res, transformed(Transform::VariableExpr, value_views(kids@), span)),
{
    let mut kids = kids;
    if kids.len() != 1 {
        return fail(span);
    }
    match pop(&mut kids) {
        Value::Ident(name) => Ok(Value::Expression(Expression(Expr::Variable(name), span))),
        _ => fail(span),
    }
}

fn make_located(kids: Vec<Value>, span: Span) -> (res: Result<Value, ParseError>)
    ensures
        agrees(res, transformed(Transform::Located, value_views(kids@), span)),
{
    let mut kids = kids;
    if kids.len() != 1 {
        return fail(span);
    }
    match pop(&mut kids) {
        Value::Expr(e) => Ok(Value::Expression(Expression(e, span))),
        _ => fail(span),
    }
}

fn make_operator(kids: Vec<Value>, span: Span) -> (res: Result<Value, ParseError>)
    ensures
        agrees(res, transformed(Transform::OperatorRun, value_views(kids@), span)),
{
    let mut kids = kids;
    if kids.len() < 2 {
        return fail(span);
    }
    let ghost given = value_views(kids@);
    let run = kids.swap_remove(1);
    let first = kids.swap_remove(0);
    assert(run@ == given[1] && first@ == given[0]);
    match (first, take_list::<char>(run)) {
        (Value::Char(c), Some(glued)) => {
            let mut chars = glued;
            chars.insert(0, c);
            assert(chars@ =~= seq![c] + views(glued@));
            match Op::from_chars(chars, Some(span)) {
                Ok(op) => Ok(Value::Operator(Operator(op, span))),
                Err(e) => Err(e),
            }
        },
        _ => fail(span),
    }
}

fn make_expression(kids: Vec<Value>, span: Span) -> (res: Result<Value, ParseError>)
    ensures
        agrees(res, transformed(Transform::FoldExpression, value_views(kids@), span)),
{
    let mut kids = kids;
    if kids.len() != 1 {
        return fail(span);
    }
    match take_list::<ExprPart>(pop(&mut kids)) {
        Some(parts) => {
            assert(part_views(parts@) =~= views(parts@));
            match fold_parts(parts, span) {
                Ok(e) => Ok(Value::Expression(e)),
                Err(e) => Err(e),
            }
        },
        None => fail(span),
    }
}

fn make_call(kids: Vec<Value>, span: Span) -> (res: Result<Value, ParseError>)
    ensures
        agrees(res, transformed(Transform::Call, value_views(kids@), span)),
{
    let mut kids = kids;
    if kids.len() != 4 {
        return fail(span);
    }
    let _close = pop(&mut kids);
    let args = pop(&mut kids);
    let _open = pop(&mut kids);
    let name = pop(&mut kids);
    match (name, take_list::<Expression>(args)) {
        (Value::Item(name), Some(args)) => {
            proof {
                lemma_call_view(name, args);
                assert(expression_views(args@) =~= views(args@));
            }
            Ok(Value::Expr(Expr::FuncCall(name, args)))
        },
        _ => fail(span),
    }
}

/// Takes out of `value` the type that it holds, where it is an optional
/// value that holds a type or nothing.
fn take_optional_type(value: Value) -> (res: Option<Option<FullType>>)
    ensures
        match res {
            Some(ty) => optional_type(value@) == Some(crate::ast::optional_type_view(ty)),
            None => optional_type(value@) is None,
        },
{
    match value {
        Value::Opt(inner) => {
            proof {
                lemma_opt_view(inner);
            }
            match inner {
                Some(held) => match *held {
                    Value::FullType(ty) => Some(Some(ty)),
                    _ => None,
                },
                None => Some(None),
            }
        },
        _ => None,
    }
}

fn make_var_create(kids: Vec<Value>, span: Span) -> (res: Result<Value, ParseError>)
    ensures
        agrees(res, transformed(Transform::VarCreate, value_views(kids@), span)),
{
    let mut kids = kids;
    if kids.len() != 6 {
        return fail(span);
    }
    let value = pop(&mut kids);
    let _equals = pop(&mut kids);
    let ty = pop(&mut kids);
    let name = pop(&mut kids);
    let mutable = pop(&mut kids);
    match (mutable, name, take_optional_type(ty), value) {
        (Value::Opt(mutable), Value::Item(name), Some(ty), Value::Expression(value)) => {
            proof {
                lemma_opt_view(mutable);
            }
            Ok(Value::Stmt(Stmt::VarCreate(name, mutable.is_some(), ty, value)))
        },
        _ => fail(span),
    }
}

fn make_var_assign(kids: Vec<Value>, span: Span) -> (res: Result<Value, ParseError>)
    ensures
        agrees(res, transformed(Transform::VarAssign, value_views(kids@), span)),
{
    let mut kids = kids;
    if kids.len() != 3 {
        return fail(span);
    }
    let value = pop(&mut kids);
    let op = pop(&mut kids);
    let name = pop(&mut kids);
    let op = match op {
        Value::Operator(op) => Some(Some(op)),
        Value::Unit => Some(None),
        _ => None,
    };
    match (name, op, value) {
        (Value::Item(name), Some(op), Value::Expression(value)) => Ok(
            Value::Stmt(Stmt::VarAssign(name, op, value)),
        ),
        _ => fail(span),
    }
}

fn make_expr_stmt(kids: Vec<Value>, span: Span) -> (res: Result<Value, ParseError>)
    ensures
        agrees(res, transformed(Transform::ExprStmt, value_views(kids@), span)),
{
    let mut kids = kids;
    if kids.len() != 1 {
        return fail(span);
    }
    match pop(&mut kids) {
        Value::Expr(e) => Ok(Value::Stmt(Stmt::Expression(Expression(e, span)))),
        _ => fail(span),
    }
}

fn make_statement(kids: Vec<Value>, span: Span) -> (res: Result<Value, ParseError>)
    ensures
        agrees(res, transformed(Transform::Statement, value_views(kids@), span)),
{
    let mut kids = kids;
    if kids.len() != 2 {
        return fail(span);
    }
    let _end = pop(&mut kids);
    match pop(&mut kids) {
        Value::Stmt(stmt) => Ok(Value::Statement(Statement(stmt, span))),
        _ => fail(span),
    }
}

fn make_block(kids: Vec<Value>, span: Span) -> (res: Result<Value, ParseError>)
    ensures
        agrees(res, transformed(Transform::Block, value_views(kids@), span)),
{
    let mut kids = kids;
    if kids.len() != 1 {
        return fail(span);
    }
    match take_list::<Statement>(pop(&mut kids)) {
        Some(stmts) => {
            assert(statement_views(stmts@) =~= views(stmts@));
            Ok(Value::Block(Block(stmts, span)))
        },
        None => fail(span),
    }
}

fn make_func(kids: Vec<Value>, span: Span) -> (res: Result<Value, ParseError>)
    ensures
        agrees(res, transformed(Transform::Func, value_views(kids@), span)),
{
    let mut kids = kids;
    if kids.len() != 9 {
        return fail(span);
    }
    let _close = pop(&mut kids);
    let body = pop(&mut kids);
    let _open = pop(&mut kids);
    let ret = pop(&mut kids);
    let _right = pop(&mut kids);
    let args = pop(&mut kids);
    let _left = pop(&mut kids);
    let name = pop(&mut kids);
    match (name, take_list::<(Ident, FullType)>(args), ret, body) {
        (Value::Ident(name), Some(args), Value::FullType(ret), Value::Block(body)) => {
            assert(arg_views(args@) =~= views(args@));
            Ok(Value::Func(Func { name, args, ret, body, loc: span }))
        },
        _ => fail(span),
    }
}

fn make_funcs(kids: Vec<Value>, span: Span) -> (res: Result<Value, ParseError>)
    ensures
        agrees(res, transformed(Transform::Funcs, value_views(kids@), span)),
{
    let mut kids = kids;
    if kids.len() != 1 {
        return fail(span);
    }
    match take_list::<Func>(pop(&mut kids)) {
        Some(funcs) => {
            assert(func_views(funcs@) =~= views(funcs@));
            Ok(Value::Funcs(funcs, span))
        },
        None => fail(span),
    }
}

/// Applies `transform` to the values `kids` of a rule's steps, which cover
/// `span`.
pub fn apply(transform: Transform, kids: Vec<Value>, span: Span) -> (res: Result<
    Value,
    ParseError,
>)
    ensures
        agrees(res, transformed(transform, value_views(kids@), span)),
{
    match transform {
        Transform::Unit => Ok(Value::Unit),
        Transform::Pick(i) => {
            let mut kids = kids;
            if i < kids.len() {
                Ok(kids.swap_remove(i))
            } else {
                fail(span)
            }
        },
        Transform::Item => make_item(kids, span),
        Transform::OrEmpty => make_or_empty(kids, span),
        Transform::Type => make_type(kids, span),
        Transform::Single => make_single(kids, span),
        Transform::Tuple => make_tuple(kids, span),
        Transform::FullType => make_full_type(kids, span),
        Transform::OrUnitType => make_or_unit_type(kids, span),
        Transform::Arg => make_arg(kids, span),
        Transform::LiteralExpr => make_literal_expr(kids, span),
        Transform::VariableExpr => make_variable_expr(kids, span),
        Transform::Located => make_located(kids, span),
        Transform::OperatorRun => make_operator(kids, span),
        Transform::FoldExpression => make_expression(kids, span),
        Transform::Call => make_call(kids, span),
        Transform::VarCreate => make_var_create(kids, span),
        Transform::VarAssign => make_var_assign(kids, span),
        Transform::ExprStmt => make_expr_stmt(kids, span),
        Transform::Statement => make_statement(kids, span),
        Transform::Block => make_block(kids, span),
        Transform::Func => make_func(kids, span),
        Transform::Funcs => make_funcs(kids, span),
    }
}

} // verus!
