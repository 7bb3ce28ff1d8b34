use vstd::prelude::*;

use super::token::{Token, TokenView};

verus! {

/// An expression tree over values of type `V`
#[derive(Debug, PartialEq)]
pub enum Expression<V> {
    Val(V),
    Ident(String),
    Add(Box<Expression<V>>, Box<Expression<V>>),
    Sub(Box<Expression<V>>, Box<Expression<V>>),
    Mul(Box<Expression<V>>, Box<Expression<V>>),
    Div(Box<Expression<V>>, Box<Expression<V>>),
    Pow(Box<Expression<V>>, Box<Expression<V>>),
    Sin(Box<Expression<V>>),
    Cos(Box<Expression<V>>),
    Tan(Box<Expression<V>>),
}

/// The mathematical model of an [`Expression`]: values and identifiers taken by their views.
pub enum ExprView<W> {
    Val(W),
    Ident(Seq<char>),
    Add(Box<ExprView<W>>, Box<ExprView<W>>),
    Sub(Box<ExprView<W>>, Box<ExprView<W>>),
    Mul(Box<ExprView<W>>, Box<ExprView<W>>),
    Div(Box<ExprView<W>>, Box<ExprView<W>>),
    Pow(Box<ExprView<W>>, Box<ExprView<W>>),
    Sin(Box<ExprView<W>>),
    Cos(Box<ExprView<W>>),
    Tan(Box<ExprView<W>>),
}

/// The view of an expression tree, node by node
pub open spec fn expr_view<V: View>(e: Expression<V>) -> ExprView<V::V>
    decreases e,
{
    match e {
        Expression::Val(v) => ExprView::Val(v@),
        Expression::Ident(s) => ExprView::Ident(s@),
        Expression::Add(l, r) => ExprView::Add(Box::new(expr_view(*l)), Box::new(expr_view(*r))),
        Expression::Sub(l, r) => ExprView::Sub(Box::new(expr_view(*l)), Box::new(expr_view(*r))),
        Expression::Mul(l, r) => ExprView::Mul(Box::new(expr_view(*l)), Box::new(expr_view(*r))),
        Expression::Div(l, r) => ExprView::Div(Box::new(expr_view(*l)), Box::new(expr_view(*r))),
        Expression::Pow(l, r) => ExprView::Pow(Box::new(expr_view(*l)), Box::new(expr_view(*r))),
        Expression::Sin(v) => ExprView::Sin(Box::new(expr_view(*v))),
        Expression::Cos(v) => ExprView::Cos(Box::new(expr_view(*v))),
        Expression::Tan(v) => ExprView::Tan(Box::new(expr_view(*v))),
    }
}

impl<V: View> View for Expression<V> {
    type V = ExprView<V::V>;

    open spec fn view(&self) -> ExprView<V::V> {
        expr_view(*self)
    }
}

/// Either a token that is still to be combined, or an expression built so far
#[derive(Debug, PartialEq)]
pub enum TokenExpression<V> {
    Token(Token),
    Expression(Expression<V>),
}

/// The mathematical model of a [`TokenExpression`]
pub enum TEView<W> {
    Token(TokenView),
    Expression(ExprView<W>),
}

impl<V: View> View for TokenExpression<V> {
    type V = TEView<V::V>;

    open spec fn view(&self) -> TEView<V::V> {
        match self {
            TokenExpression::Token(t) => TEView::Token(t@),
            TokenExpression::Expression(e) => TEView::Expression(e@),
        }
    }
}

/// The view of a sequence of token expressions, element by element
pub open spec fn tes_view<V: View>(s: Seq<TokenExpression<V>>) -> Seq<TEView<V::V>> {
    s.map_values(|t: TokenExpression<V>| t@)
}

impl<V> TokenExpression<V> {
    /// Wrap a token (the `From<Token>` conversion)
    pub fn from_token(t: Token) -> (res: TokenExpression<V>)
        ensures
            res == TokenExpression::<V>::Token(t),
    {
        TokenExpression::Token(t)
    }

    /// Wrap an expression (the `From<Expression>` conversion)
    pub fn from_expression(e: Expression<V>) -> (res: TokenExpression<V>)
        ensures
            res == TokenExpression::<V>::Expression(e),
    {
        TokenExpression::Expression(e)
    }
}

} // verus!
