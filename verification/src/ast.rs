//! The syntax tree that the grammar builds.
//!
//! Every node carries the span of the tokens it was built from. Each type
//! has a view, a ghost value of the same shape in which strings and vectors
//! are sequences; the contracts of the parser speak of those views.

use crate::error::{ParseET, ParseError, ParseETView, ParseErrorView};
use crate::span::Span;
use crate::tokens::{Literal, LiteralView};
use vstd::prelude::*;

verus! {

/// The operators of the language.
#[derive(Clone, Copy, Debug, PartialEq, Eq, Structural)]
pub enum Op {
    Add,
    Sub,
    Mul,
    Div,
    LShift,
    RShift,
}

/// The operator that a run of punctuation characters spells, if any.
pub open spec fn operator_of(chars: Seq<char>) -> Option<Op> {
    if chars == seq!['+'] {
        Some(Op::Add)
    } else if chars == seq!['-'] {
        Some(Op::Sub)
    } else if chars == seq!['*'] {
        Some(Op::Mul)
    } else if chars == seq!['/'] {
        Some(Op::Div)
    } else if chars == seq!['<', '<'] {
        Some(Op::LShift)
    } else if chars == seq!['>', '>'] {
        Some(Op::RShift)
    } else {
        None
    }
}

/// The error for a run of punctuation characters that spells no operator.
pub open spec fn operator_error(chars: Seq<char>, loc: Option<Span>) -> ParseErrorView {
    ParseErrorView {
        et: ParseETView::UnrecognizedOperator(chars),
        loc,
        context: seq!["operator"@],
    }
}

impl Op {
    /// Reads a run of punctuation characters as an operator. A run that
    /// spells none of the operators is an error at `loc`, raised inside the
    /// rule "operator".
    pub fn from_chars(chars: Vec<char>, loc: Option<Span>) -> (res: Result<Op, ParseError>)
        ensures
            match operator_of(chars@) {
                Some(op) => res == Ok::<Op, ParseError>(op),
                None => res is Err && res->Err_0@ == operator_error(chars@, loc),
            },
    {
        let n = chars.len();
        let found = if n == 1 {
            let c = chars[0];
            assert(chars@ =~= seq![c]);
            if c == '+' {
                Some(Op::Add)
            } else if c == '-' {
                Some(Op::Sub)
            } else if c == '*' {
                Some(Op::Mul)
            } else if c == '/' {
                Some(Op::Div)
            } else {
                None
            }
        } else if n == 2 {
            let c = chars[0];
            let d = chars[1];
            assert(chars@ =~= seq![c, d]);
            if c == '<' && d == '<' {
                Some(Op::LShift)
            } else if c == '>' && d == '>' {
                Some(Op::RShift)
            } else {
                None
            }
        } else {
            None
        };
        proof {
            assert(seq!['+'].len() == 1 && seq!['+'][0] == '+');
            assert(seq!['-'].len() == 1 && seq!['-'][0] == '-');
            assert(seq!['*'].len() == 1 && seq!['*'][0] == '*');
            assert(seq!['/'].len() == 1 && seq!['/'][0] == '/');
            assert(seq!['<', '<'].len() == 2 && seq!['<', '<'][0] == '<' && seq!['<', '<'][1]
                == '<');
            assert(seq!['>', '>'].len() == 2 && seq!['>', '>'][0] == '>' && seq!['>', '>'][1]
                == '>');
        }
        match found {
            Some(op) => Ok(op),
            None => Err(ParseET::UnrecognizedOperator(chars).at_opt(loc).when("operator")),
        }
    }
}

/// An operator where it stands in the source.
#[derive(Clone, Copy, Debug, PartialEq, Eq, Structural)]
pub struct Operator(pub Op, pub Span);

/// A literal where it stands in the source.
#[derive(Debug, PartialEq)]
pub struct AstLiteral(pub Literal, pub Span);

pub ghost struct AstLiteralView(pub LiteralView, pub Span);

impl View for AstLiteral {
    type V = AstLiteralView;

    open spec fn view(&self) -> AstLiteralView {
        AstLiteralView(self.0@, self.1)
    }
}

/// An identifier where it stands in the source.
#[derive(Debug, PartialEq)]
pub struct Ident(pub String, pub Span);

pub ghost struct IdentView(pub Seq<char>, pub Span);

impl View for Ident {
    type V = IdentView;

    open spec fn view(&self) -> IdentView {
        IdentView(self.0@, self.1)
    }
}

/// The views of a sequence of identifiers, one by one.
pub open spec fn ident_views(idents: Seq<Ident>) -> Seq<IdentView> {
    Seq::new(idents.len(), |i: int| idents[i]@)
}

/// A path of identifiers separated by `::`.
#[derive(Debug, PartialEq)]
pub struct Item(pub Vec<Ident>, pub Span);

pub ghost struct ItemView(pub Seq<IdentView>, pub Span);

impl View for Item {
    type V = ItemView;

    open spec fn view(&self) -> ItemView {
        ItemView(ident_views(self.0@), self.1)
    }
}

/// A type where it stands in the source.
#[derive(Debug, PartialEq)]
pub struct FullType(pub TypeT, pub Span);

/// A type: a named type with its generic arguments, or a tuple of types.
#[derive(Debug, PartialEq)]
pub enum TypeT {
    Single(Type),
    Tuple(Vec<FullType>),
}

/// A named type with its generic arguments.
#[derive(Debug, PartialEq)]
pub struct Type {
    pub generics: Vec<FullType>,
    pub base_type: Item,
    pub loc: Span,
}

pub ghost struct FullTypeView(pub TypeTView, pub Span);

pub ghost enum TypeTView {
    Single(TypeView),
    Tuple(Seq<FullTypeView>),
}

pub ghost struct TypeView {
    pub generics: Seq<FullTypeView>,
    pub base_type: ItemView,
    pub loc: Span,
}

impl FullType {
    pub open spec fn model(&self) -> FullTypeView
        decreases self,
    {
        FullTypeView(self.0.model(), self.1)
    }
}

impl TypeT {
    pub open spec fn model(&self) -> TypeTView
        decreases self,
    {
        match self {
            TypeT::Single(ty) => TypeTView::Single(ty.model()),
            TypeT::Tuple(members) => TypeTView::Tuple(
                Seq::new(
                    members@.len(),
                    |i: int|
                        if 0 <= i < members@.len() {
                            members[i].model()
                        } else {
                            arbitrary()
                        },
                ),
            ),
        }
    }

    /// The empty tuple type.
    pub fn empty() -> (ty: TypeT)
        ensures
            ty@ == TypeTView::Tuple(Seq::empty()),
    {
        let members: Vec<FullType> = Vec::new();
        proof {
            lemma_tuple_view(members);
            assert(full_type_views(members@) =~= Seq::empty());
        }
        TypeT::Tuple(members)
    }

    /// Whether this is the empty tuple type.
    pub fn is_empty(&self) -> (empty: bool)
        ensures
            empty == (self@ == TypeTView::Tuple(Seq::empty())),
    {
        if let TypeT::Tuple(members) = self {
            proof {
                lemma_tuple_view(*members);
                assert(full_type_views(members@).len() == members@.len());
                assert(members@.len() == 0 ==> full_type_views(members@) =~= Seq::empty());
            }
            members.len() == 0
        } else {
            false
        }
    }
}

impl Type {
    pub open spec fn model(&self) -> TypeView
        decreases self,
    {
        TypeView {
            generics: Seq::new(
                self.generics@.len(),
                |i: int|
                    if 0 <= i < self.generics@.len() {
                        self.generics[i].model()
                    } else {
                        arbitrary()
                    },
            ),
            base_type: self.base_type@,
            loc: self.loc,
        }
    }
}

impl View for FullType {
    type V = FullTypeView;

    open spec fn view(&self) -> FullTypeView {
        self.model()
    }
}

impl View for TypeT {
    type V = TypeTView;

    open spec fn view(&self) -> TypeTView {
        self.model()
    }
}

impl View for Type {
    type V = TypeView;

    open spec fn view(&self) -> TypeView {
        self.model()
    }
}

/// The views of a sequence of types, one by one.
pub open spec fn full_type_views(types: Seq<FullType>) -> Seq<FullTypeView> {
    Seq::new(types.len(), |i: int| types[i]@)
}

/// The view of a tuple type is made of the views of its members.
pub proof fn lemma_tuple_view(members: Vec<FullType>)
    ensures
        TypeT::Tuple(members)@ == TypeTView::Tuple(full_type_views(members@)),
{
    reveal_with_fuel(TypeT::model, 2);
    assert(TypeT::Tuple(members).model()->Tuple_0 =~= full_type_views(members@));
}

/// The view of a named type is made of the views of its parts.
pub proof fn lemma_type_view(ty: Type)
    ensures
        ty@ == (TypeView {
            generics: full_type_views(ty.generics@),
            base_type: ty.base_type@,
            loc: ty.loc,
        }),
{
    reveal_with_fuel(Type::model, 2);
    assert(ty.model().generics =~= full_type_views(ty.generics@));
}

/// An expression where it stands in the source.
#[derive(Debug, PartialEq)]
pub struct Expression(pub Expr, pub Span);

/// An expression.
#[derive(Debug, PartialEq)]
pub enum Expr {
    Literal(AstLiteral),
    Variable(Ident),
    FuncCall(Item, Vec<Expression>),
    BinaryOp(Operator, Box<Expression>, Box<Expression>),
    UnaryOp(Operator, Box<Expression>),
}

pub ghost struct ExpressionView(pub ExprView, pub Span);

pub ghost enum ExprView {
    Literal(AstLiteralView),
    Variable(IdentView),
    FuncCall(ItemView, Seq<ExpressionView>),
    BinaryOp(Operator, Box<ExpressionView>, Box<ExpressionView>),
    UnaryOp(Operator, Box<ExpressionView>),
}

impl Expression {
    pub open spec fn model(&self) -> ExpressionView
        decreases self,
    {
        ExpressionView(self.0.model(), self.1)
    }
}

impl Expr {
    pub open spec fn model(&self) -> ExprView
        decreases self,
    {
        match self {
            Expr::Literal(lit) => ExprView::Literal(lit@),
            Expr::Variable(ident) => ExprView::Variable(ident@),
            Expr::FuncCall(item, args) => ExprView::FuncCall(
                item@,
                Seq::new(
                    args@.len(),
                    |i: int|
                        if 0 <= i < args@.len() {
                            args[i].model()
                        } else {
                            arbitrary()
                        },
                ),
            ),
            Expr::BinaryOp(op, left, right) => ExprView::BinaryOp(
                *op,
                Box::new((**left).model()),
                Box::new((**right).model()),
            ),
            Expr::UnaryOp(op, operand) => ExprView::UnaryOp(*op, Box::new((**operand).model())),
        }
    }
}

impl View for Expression {
    type V = ExpressionView;

    open spec fn view(&self) -> ExpressionView {
        self.model()
    }
}

impl View for Expr {
    type V = ExprView;

    open spec fn view(&self) -> ExprView {
        self.model()
    }
}

/// The views of a sequence of expressions, one by one.
pub open spec fn expression_views(exprs: Seq<Expression>) -> Seq<ExpressionView> {
    Seq::new(exprs.len(), |i: int| exprs[i]@)
}

/// The view of a call is made of the views of its parts.
pub proof fn lemma_call_view(item: Item, args: Vec<Expression>)
    ensures
        Expr::FuncCall(item, args)@ == ExprView::FuncCall(item@, expression_views(args@)),
{
    reveal_with_fuel(Expr::model, 2);
    assert(Expr::FuncCall(item, args).model()->FuncCall_1 =~= expression_views(args@));
}

/// A statement.
#[derive(Debug, PartialEq)]
pub enum Stmt {
    /// An expression used as a statement.
    Expression(Expression),
    /// A variable declaration: the name, whether it is mutable, the declared
    /// type if there is one, and the initial value.
    VarCreate(Item, bool, Option<FullType>, Expression),
    /// An assignment: the name, the operator of a compound assignment if
    /// there is one, and the value.
    VarAssign(Item, Option<Operator>, Expression),
}

pub ghost enum StmtView {
    Expression(ExpressionView),
    VarCreate(ItemView, bool, Option<FullTypeView>, ExpressionView),
    VarAssign(ItemView, Option<Operator>, ExpressionView),
}

/// The view of a type that may be absent.
pub open spec fn optional_type_view(ty: Option<FullType>) -> Option<FullTypeView> {
    match ty {
        Some(t) => Some(t@),
        None => None,
    }
}

impl View for Stmt {
    type V = StmtView;

    open spec fn view(&self) -> StmtView {
        match self {
            Stmt::Expression(e) => StmtView::Expression(e@),
            Stmt::VarCreate(name, mutable, ty, value) => StmtView::VarCreate(
                name@,
                *mutable,
                optional_type_view(*ty),
                value@,
            ),
            Stmt::VarAssign(name, op, value) => StmtView::VarAssign(name@, *op, value@),
        }
    }
}

/// A statement where it stands in the source.
#[derive(Debug, PartialEq)]
pub struct Statement(pub Stmt, pub Span);

pub ghost struct StatementView(pub StmtView, pub Span);

impl View for Statement {
    type V = StatementView;

    open spec fn view(&self) -> StatementView {
        StatementView(self.0@, self.1)
    }
}

/// The views of a sequence of statements, one by one.
pub open spec fn statement_views(stmts: Seq<Statement>) -> Seq<StatementView> {
    Seq::new(stmts.len(), |i: int| stmts[i]@)
}

/// A sequence of statements.
#[derive(Debug, PartialEq)]
pub struct Block(pub Vec<Statement>, pub Span);

pub ghost struct BlockView(pub Seq<StatementView>, pub Span);

impl View for Block {
    type V = BlockView;

    open spec fn view(&self) -> BlockView {
        BlockView(statement_views(self.0@), self.1)
    }
}

/// A function definition.
#[derive(Debug, PartialEq)]
pub struct Func {
    pub name: Ident,
    pub args: Vec<(Ident, FullType)>,
    pub ret: FullType,
    pub body: Block,
    pub loc: Span,
}

pub ghost struct FuncView {
    pub name: IdentView,
    pub args: Seq<(IdentView, FullTypeView)>,
    pub ret: FullTypeView,
    pub body: BlockView,
    pub loc: Span,
}

/// The views of a sequence of arguments, one by one.
pub open spec fn arg_views(args: Seq<(Ident, FullType)>) -> Seq<(IdentView, FullTypeView)> {
    Seq::new(args.len(), |i: int| (args[i].0@, args[i].1@))
}

impl View for Func {
    type V = FuncView;

    open spec fn view(&self) -> FuncView {
        FuncView {
            name: self.name@,
            args: arg_views(self.args@),
            ret: self.ret@,
            body: self.body@,
            loc: self.loc,
        }
    }
}

/// The views of a sequence of functions, one by one.
pub open spec fn func_views(funcs: Seq<Func>) -> Seq<FuncView> {
    Seq::new(funcs.len(), |i: int| funcs[i]@)
}

} // verus!
