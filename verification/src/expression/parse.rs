use vstd::prelude::*;

use super::expression::{tes_view, ExprView, Expression, TEView, TokenExpression};
use super::token::{parse_tokens, spec_tokenize, tokens_view, Token, TokenView};
use super::tree::{option_expr_view, spec_build, try_parse_expression_impl};

verus! {

/// Number literals and variable names become expressions; every other token stays a token
pub open spec fn token_to_te(t: TokenView) -> TEView<Seq<char>> {
    match t {
        TokenView::Number(n) => TEView::Expression(ExprView::Val(n)),
        TokenView::Var(v) => TEView::Expression(ExprView::Ident(v)),
        _ => TEView::Token(t),
    }
}

/// The expression that the text `s` denotes: its tokens, built into a tree.
/// Number literals are kept as their text.
pub open spec fn spec_parse_expression(s: Seq<char>) -> Option<ExprView<Seq<char>>> {
    match spec_tokenize(s) {
        None => None,
        Some(ts) => spec_build(ts.map_values(|t: TokenView| token_to_te(t))),
    }
}

/// Turn number literals and variable names into expressions
fn to_token_expressions(tokens: Vec<Token>) -> (res: Vec<TokenExpression<String>>)
    ensures
        tes_view(res@) == tokens_view(tokens@).map_values(|t: TokenView| token_to_te(t)),
{
    let mut tokens = tokens;
    let ghost orig = tokens_view(tokens@);
    let mut res: Vec<TokenExpression<String>> = Vec::new();
    while tokens.len() > 0
        invariant
            orig.len() == tokens.len() + res.len(),
            tokens_view(tokens@) == orig.subrange(res.len() as int, orig.len() as int),
            tes_view(res@) == orig.subrange(0, res.len() as int).map_values(
                |t: TokenView| token_to_te(t),
            ),
        decreases tokens.len(),
    {
        let ghost before = tokens_view(tokens@);
        let ghost res_before = tes_view(res@);
        let t = tokens.remove(0);
        proof {
            assert(tokens_view(tokens@) =~= before.drop_first());
            assert(t@ == before[0]);
        }
        let te = match t {
            Token::Number(n) => TokenExpression::Expression(Expression::Val(n)),
            Token::Var(v) => TokenExpression::Expression(Expression::Ident(v)),
            other => TokenExpression::Token(other),
        };
        assert(te@ == token_to_te(t@));
        assert(orig[res_before.len() as int] == t@);
        res.push(te);
        proof {
            assert(tes_view(res@) =~= res_before.push(te@));
            assert(tes_view(res@) =~= orig.subrange(0, res.len() as int).map_values(
                |t: TokenView| token_to_te(t),
            ));
        }
    }
    assert(orig.subrange(0, res.len() as int) =~= orig);
    res
}

/// Parse a text into an expression, or `None` where the text is not one
fn parse_checked(input: &str) -> (res: Option<Expression<String>>)
    ensures
        option_expr_view(res) == spec_parse_expression(input@),
{
    match parse_tokens(input) {
        None => None,
        Some(tokens) => {
            let tes = to_token_expressions(tokens);
            try_parse_expression_impl(tes)
        },
    }
}

/// Whether the text denotes an expression
pub fn expression_parses(input: &str) -> (res: bool)
    ensures
        res == (spec_parse_expression(input@) is Some),
{
    parse_checked(input).is_some()
}

/// Parse a text into an expression tree; number literals are kept as their text
pub fn parse_expression(input: &str) -> (res: Expression<String>)
    requires
        spec_parse_expression(input@) is Some,
    ensures
        Some(res@) == spec_parse_expression(input@),
{
    match parse_checked(input) {
        Some(e) => e,
        None => {
            proof {
                assert(false);
            }
            vstd::pervasive::unreached()
        },
    }
}

/// Parse a text into an expression tree, or `None` where it does not denote one
pub fn try_parse_expression(input: &str) -> (res: Option<Expression<String>>)
    ensures
        option_expr_view(res) == spec_parse_expression(input@),
{
    if expression_parses(input) {
        Some(parse_expression(input))
    } else {
        None
    }
}

/// Build an expression tree from token expressions
pub fn parse_expression_impl<V: View>(tokens: Vec<TokenExpression<V>>) -> (res: Expression<V>)
    requires
        spec_build(tes_view(tokens@)) is Some,
    ensures
        Some(res@) == spec_build(tes_view(tokens@)),
{
    match try_parse_expression_impl(tokens) {
        Some(e) => e,
        None => {
            proof {
                assert(false);
            }
            vstd::pervasive::unreached()
        },
    }
}

} // verus!
