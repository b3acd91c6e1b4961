//! The abstract syntax tree: the node shapes the parser produces and the
//! evaluator and compiler consume. Ownership is tree-shaped; the subtrees of a
//! function literal are reference-counted so that closures can hold them
//! without copying.
use vstd::prelude::*;
use crate::lexer::Token;
use std::rc::Rc;

verus! {

/// A statement node.
#[derive(Debug, PartialEq)]
pub enum Statement {
    LetStatement { token: Token, name: Expression, value: Expression },
    ReturnStatement { token: Token, return_value: Expression },
    ExpressionStatement { token: Token, expression: Expression },
    BlockStatment { token: Token, statements: Vec<Statement> },
}

/// An expression node. `Nope` is an internal placeholder that never appears
/// in a finished tree.
#[derive(Debug, PartialEq)]
pub enum Expression {
    Nope,
    Identifier { token: Token, value: String },
    IntegerLiteral { token: Token, value: i64 },
    StringLiteral { token: Token, value: String },
    ArrayLiteral { token: Token, elements: Vec<Expression> },
    HashLiteral { token: Token, pairs: Vec<(Expression, Expression)> },
    IndexExpression { token: Token, left: Box<Expression>, index: Box<Expression> },
    PrefixExpression { token: Token, operator: String, right: Box<Expression> },
    InfixExpression { token: Token, left: Box<Expression>, operator: String, right: Box<Expression> },
    Boolean { token: Token, value: bool },
    IfExpression {
        token: Token,
        condition: Box<Expression>,
        consequence: Box<Statement>,
        alternative: Option<Box<Statement>>,
    },
    FunctionLiteral { token: Token, parameters: Rc<Vec<Expression>>, body: Rc<Statement> },
    CallExpression { token: Token, function: Box<Expression>, arguments: Vec<Expression> },
}

/// A parsed program: its statements in source order.
#[derive(Debug)]
pub struct Program {
    pub statements: Vec<Statement>,
}

impl Program {
    pub fn new() -> (p: Self)
        ensures
            p.statements@ == Seq::<Statement>::empty(),
    {
        Program { statements: Vec::new() }
    }
}

/// The mathematical view of a statement: the semantic fields with strings as
/// character sequences; the diagnostic tokens are not part of the view.
pub enum StatementV {
    LetStatementV { name: ExpressionV, value: ExpressionV },
    ReturnStatementV { return_value: ExpressionV },
    ExpressionStatementV { expression: ExpressionV },
    BlockStatmentV { statements: Seq<StatementV> },
}

/// The mathematical view of an expression.
pub enum ExpressionV {
    NopeV,
    IdentifierV { name: Seq<char> },
    IntegerLiteralV { value: i64 },
    StringLiteralV { value: Seq<char> },
    ArrayLiteralV { elements: Seq<ExpressionV> },
    HashLiteralV { pairs: Seq<(ExpressionV, ExpressionV)> },
    IndexExpressionV { left: Box<ExpressionV>, index: Box<ExpressionV> },
    PrefixExpressionV { operator: Seq<char>, right: Box<ExpressionV> },
    InfixExpressionV { left: Box<ExpressionV>, operator: Seq<char>, right: Box<ExpressionV> },
    BooleanV { value: bool },
    IfExpressionV {
        condition: Box<ExpressionV>,
        consequence: Box<StatementV>,
        alternative: Option<Box<StatementV>>,
    },
    FunctionLiteralV { parameters: Seq<ExpressionV>, body: Box<StatementV> },
    CallExpressionV { function: Box<ExpressionV>, arguments: Seq<ExpressionV> },
}

/// The views of a sequence of expressions, built back to front.
pub open spec fn exprs_v_rec(es: Seq<Expression>) -> Seq<ExpressionV>
    decreases es, 1int,
{
    if es.len() == 0 {
        Seq::empty()
    } else {
        exprs_v_rec(es.drop_last()).push(expr_v(es.last()))
    }
}

/// The views of a sequence of statements, built back to front.
pub open spec fn stmts_v_rec(ss: Seq<Statement>) -> Seq<StatementV>
    decreases ss, 1int,
{
    if ss.len() == 0 {
        Seq::empty()
    } else {
        stmts_v_rec(ss.drop_last()).push(stmt_v(ss.last()))
    }
}

/// The views of a sequence of expression pairs, built back to front.
pub open spec fn epairs_v_rec(ps: Seq<(Expression, Expression)>) -> Seq<(ExpressionV, ExpressionV)>
    decreases ps, 1int,
{
    if ps.len() == 0 {
        Seq::empty()
    } else {
        epairs_v_rec(ps.drop_last()).push((expr_v(ps.last().0), expr_v(ps.last().1)))
    }
}

/// The view of an expression node.
pub open spec fn expr_v(e: Expression) -> ExpressionV
    decreases e, 0int,
{
    match e {
        Expression::Nope => ExpressionV::NopeV,
        Expression::Identifier { value, .. } => ExpressionV::IdentifierV { name: value@ },
        Expression::IntegerLiteral { value, .. } => ExpressionV::IntegerLiteralV { value },
        Expression::StringLiteral { value, .. } => ExpressionV::StringLiteralV { value: value@ },
        Expression::ArrayLiteral { elements, .. } => ExpressionV::ArrayLiteralV {
            elements: exprs_v_rec(elements@),
        },
        Expression::HashLiteral { pairs, .. } => ExpressionV::HashLiteralV {
            pairs: epairs_v_rec(pairs@),
        },
        Expression::IndexExpression { left, index, .. } => ExpressionV::IndexExpressionV {
            left: Box::new(expr_v(*left)),
            index: Box::new(expr_v(*index)),
        },
        Expression::PrefixExpression { operator, right, .. } => ExpressionV::PrefixExpressionV {
            operator: operator@,
            right: Box::new(expr_v(*right)),
        },
        Expression::InfixExpression { left, operator, right, .. } => ExpressionV::InfixExpressionV {
            left: Box::new(expr_v(*left)),
            operator: operator@,
            right: Box::new(expr_v(*right)),
        },
        Expression::Boolean { value, .. } => ExpressionV::BooleanV { value },
        Expression::IfExpression { condition, consequence, alternative, .. } => ExpressionV::IfExpressionV {
            condition: Box::new(expr_v(*condition)),
            consequence: Box::new(stmt_v(*consequence)),
            alternative: match alternative {
                Some(a) => Some(Box::new(stmt_v(*a))),
                None => None,
            },
        },
        Expression::FunctionLiteral { parameters, body, .. } => ExpressionV::FunctionLiteralV {
            parameters: exprs_v_rec(parameters@),
            body: Box::new(stmt_v(*body)),
        },
        Expression::CallExpression { function, arguments, .. } => ExpressionV::CallExpressionV {
            function: Box::new(expr_v(*function)),
            arguments: exprs_v_rec(arguments@),
        },
    }
}

/// The view of a statement node.
pub open spec fn stmt_v(s: Statement) -> StatementV
    decreases s, 0int,
{
    match s {
        Statement::LetStatement { name, value, .. } => StatementV::LetStatementV {
            name: expr_v(name),
            value: expr_v(value),
        },
        Statement::ReturnStatement { return_value, .. } => StatementV::ReturnStatementV {
            return_value: expr_v(return_value),
        },
        Statement::ExpressionStatement { expression, .. } => StatementV::ExpressionStatementV {
            expression: expr_v(expression),
        },
        Statement::BlockStatment { statements, .. } => StatementV::BlockStatmentV {
            statements: stmts_v_rec(statements@),
        },
    }
}

/// The pointwise views of a sequence of expressions.
pub open spec fn exprs_v(es: Seq<Expression>) -> Seq<ExpressionV> {
    Seq::new(es.len(), |i: int| expr_v(es[i]))
}

/// The pointwise views of a sequence of statements.
pub open spec fn stmts_v(ss: Seq<Statement>) -> Seq<StatementV> {
    Seq::new(ss.len(), |i: int| stmt_v(ss[i]))
}

/// The pointwise views of a sequence of expression pairs.
pub open spec fn epairs_v(ps: Seq<(Expression, Expression)>) -> Seq<(ExpressionV, ExpressionV)> {
    Seq::new(ps.len(), |i: int| (expr_v(ps[i].0), expr_v(ps[i].1)))
}

/// The recursive and the pointwise views of an expression sequence agree.
pub broadcast proof fn lemma_exprs_v_rec(es: Seq<Expression>)
    ensures
        #[trigger] exprs_v_rec(es) == exprs_v(es),
    decreases es.len(),
{
    if es.len() == 0 {
        assert(exprs_v_rec(es) =~= exprs_v(es));
    } else {
        lemma_exprs_v_rec(es.drop_last());
        assert(exprs_v_rec(es) =~= exprs_v(es));
    }
}

/// The recursive and the pointwise views of a statement sequence agree.
pub broadcast proof fn lemma_stmts_v_rec(ss: Seq<Statement>)
    ensures
        #[trigger] stmts_v_rec(ss) == stmts_v(ss),
    decreases ss.len(),
{
    if ss.len() == 0 {
        assert(stmts_v_rec(ss) =~= stmts_v(ss));
    } else {
        lemma_stmts_v_rec(ss.drop_last());
        assert(stmts_v_rec(ss) =~= stmts_v(ss));
    }
}

/// The recursive and the pointwise views of a pair sequence agree.
pub broadcast proof fn lemma_epairs_v_rec(ps: Seq<(Expression, Expression)>)
    ensures
        #[trigger] epairs_v_rec(ps) == epairs_v(ps),
    decreases ps.len(),
{
    if ps.len() == 0 {
        assert(epairs_v_rec(ps) =~= epairs_v(ps));
    } else {
        lemma_epairs_v_rec(ps.drop_last());
        assert(epairs_v_rec(ps) =~= epairs_v(ps));
    }
}

} // verus!
