use vstd::prelude::*;

use super::expression::{expr_view, tes_view, ExprView, Expression, TEView, TokenExpression};
use super::token::{Token, TokenView};

verus! {

broadcast use vstd::seq::group_seq_axioms;

// ---------------------------------------------------------------------------
// Model of the tree construction
// ---------------------------------------------------------------------------

/// `i` is the index of the first occurrence of the bare token `k` in `s`
pub open spec fn is_first_token<W>(s: Seq<TEView<W>>, k: TokenView, i: int) -> bool {
    &&& 0 <= i < s.len()
    &&& s[i] == TEView::<W>::Token(k)
    &&& forall|j: int| 0 <= j < i ==> s[j] != TEView::<W>::Token(k)
}

/// Index of the first occurrence of the token `k` in `s`, or -1 if there is none
pub open spec fn first_token_index<W>(s: Seq<TEView<W>>, k: TokenView) -> int {
    if exists|i: int| is_first_token(s, k, i) {
        choose|i: int| is_first_token(s, k, i)
    } else {
        -1
    }
}

/// `j` is the index of the first occurrence of `k` at or after `from`
pub open spec fn is_first_token_from<W>(s: Seq<TEView<W>>, k: TokenView, from: int, j: int) -> bool {
    &&& from <= j < s.len()
    &&& s[j] == TEView::<W>::Token(k)
    &&& forall|m: int| from <= m < j ==> s[m] != TEView::<W>::Token(k)
}

/// Index of the first `k` at or after `from`, or the length of `s` if there is none
pub open spec fn first_token_from<W>(s: Seq<TEView<W>>, k: TokenView, from: int) -> int {
    if exists|j: int| is_first_token_from(s, k, from, j) {
        choose|j: int| is_first_token_from(s, k, from, j)
    } else {
        s.len() as int
    }
}

pub open spec fn is_open<W>(t: TEView<W>) -> bool {
    t == TEView::<W>::Token(TokenView::OpenBracket)
}

/// Number of opening brackets in `s`
pub open spec fn count_opens<W>(s: Seq<TEView<W>>) -> nat
    decreases s.len(),
{
    if s.len() == 0 {
        0
    } else {
        count_opens(s.drop_last()) + (if is_open(s.last()) { 1nat } else { 0nat })
    }
}

/// `s` with every opening bracket taken out, the rest in order
pub open spec fn remove_opens<W>(s: Seq<TEView<W>>) -> Seq<TEView<W>>
    decreases s.len(),
{
    if s.len() == 0 {
        s
    } else if is_open(s.last()) {
        remove_opens(s.drop_last())
    } else {
        remove_opens(s.drop_last()).push(s.last())
    }
}

/// Index of the first opening bracket
pub open spec fn open_index<W>(s: Seq<TEView<W>>) -> int {
    first_token_index(s, TokenView::OpenBracket)
}

/// Index of the first closing bracket after the first opening bracket, or the length
pub open spec fn close_index<W>(s: Seq<TEView<W>>) -> int {
    first_token_from(s, TokenView::CloseBracket, open_index(s))
}

/// The tokens between the first opening bracket and the next closing bracket,
/// without the opening brackets among them
pub open spec fn bracket_inner<W>(s: Seq<TEView<W>>) -> Seq<TEView<W>> {
    remove_opens(s.subrange(open_index(s), close_index(s)))
}

/// `s` with the span from the first opening bracket up to and including the next
/// closing bracket (or to the end, if there is none) replaced by the expression `e`
pub open spec fn bracket_replace<W>(s: Seq<TEView<W>>, e: ExprView<W>) -> Seq<TEView<W>> {
    let i = open_index(s);
    let j = close_index(s);
    let rest = if j < s.len() {
        s.subrange(j + 1, s.len() as int)
    } else {
        Seq::<TEView<W>>::empty()
    };
    s.subrange(0, i) + seq![TEView::<W>::Expression(e)] + rest
}

/// The measure that every step of the construction decreases
pub open spec fn build_measure<W>(s: Seq<TEView<W>>) -> nat {
    2 * s.len() + count_opens(s)
}

/// The unary functions of the language
#[derive(Clone, Copy)]
pub enum FnKind {
    Sin,
    Cos,
    Tan,
}

/// The binary operators of the language
#[derive(Clone, Copy)]
pub enum OpKind {
    Pow,
    Div,
    Mul,
    Add,
    Sub,
}

pub open spec fn fn_token(k: FnKind) -> TokenView {
    match k {
        FnKind::Sin => TokenView::Sin,
        FnKind::Cos => TokenView::Cos,
        FnKind::Tan => TokenView::Tan,
    }
}

pub open spec fn op_token(k: OpKind) -> TokenView {
    match k {
        OpKind::Pow => TokenView::Pow,
        OpKind::Div => TokenView::Div,
        OpKind::Mul => TokenView::Mul,
        OpKind::Add => TokenView::Add,
        OpKind::Sub => TokenView::Sub,
    }
}

pub open spec fn fn_node<W>(k: FnKind, e: ExprView<W>) -> ExprView<W> {
    match k {
        FnKind::Sin => ExprView::Sin(Box::new(e)),
        FnKind::Cos => ExprView::Cos(Box::new(e)),
        FnKind::Tan => ExprView::Tan(Box::new(e)),
    }
}

pub open spec fn op_node<W>(k: OpKind, l: ExprView<W>, r: ExprView<W>) -> ExprView<W> {
    match k {
        OpKind::Pow => ExprView::Pow(Box::new(l), Box::new(r)),
        OpKind::Div => ExprView::Div(Box::new(l), Box::new(r)),
        OpKind::Mul => ExprView::Mul(Box::new(l), Box::new(r)),
        OpKind::Add => ExprView::Add(Box::new(l), Box::new(r)),
        OpKind::Sub => ExprView::Sub(Box::new(l), Box::new(r)),
    }
}

/// Apply the function `k`, leftmost first, to the expression right after it.
/// `None` where a function token has no expression after it.
pub open spec fn apply_function<W>(s: Seq<TEView<W>>, k: FnKind) -> Option<Seq<TEView<W>>>
    decreases s.len(),
{
    let i = first_token_index(s, fn_token(k));
    if i < 0 {
        Some(s)
    } else if i + 1 >= s.len() {
        None
    } else {
        match s[i + 1] {
            TEView::Expression(e) => {
                proof {
                    lemma_first_token_index(s, fn_token(k));
                }
                apply_function(
                    s.subrange(0, i) + seq![TEView::<W>::Expression(fn_node(k, e))] + s.subrange(
                        i + 2,
                        s.len() as int,
                    ),
                    k,
                )
            },
            _ => None,
        }
    }
}

/// Combine, leftmost first, the expressions on both sides of the operator `k`.
/// `None` where an operator lacks an expression on either side.
pub open spec fn apply_operator<W>(s: Seq<TEView<W>>, k: OpKind) -> Option<Seq<TEView<W>>>
    decreases s.len(),
{
    let i = first_token_index(s, op_token(k));
    if i < 0 {
        Some(s)
    } else if i == 0 || i + 1 >= s.len() {
        None
    } else {
        match (s[i - 1], s[i + 1]) {
            (TEView::Expression(l), TEView::Expression(r)) => {
                proof {
                    lemma_first_token_index(s, op_token(k));
                }
                apply_operator(
                    s.subrange(0, i - 1) + seq![TEView::<W>::Expression(op_node(k, l, r))]
                        + s.subrange(i + 2, s.len() as int),
                    k,
                )
            },
            _ => None,
        }
    }
}

/// Applies the functions (sin, cos, tan) and then the operators in the order
/// `^`, `/`, `*`, `+`, `-`, and takes the first remaining item as the result
pub open spec fn finish_build<W>(s: Seq<TEView<W>>) -> Option<ExprView<W>> {
    match apply_function(s, FnKind::Sin) {
        None => None,
        Some(s1) => match apply_function(s1, FnKind::Cos) {
            None => None,
            Some(s2) => match apply_function(s2, FnKind::Tan) {
                None => None,
                Some(s3) => match apply_operator(s3, OpKind::Pow) {
                    None => None,
                    Some(s4) => match apply_operator(s4, OpKind::Div) {
                        None => None,
                        Some(s5) => match apply_operator(s5, OpKind::Mul) {
                            None => None,
                            Some(s6) => match apply_operator(s6, OpKind::Add) {
                                None => None,
                                Some(s7) => match apply_operator(s7, OpKind::Sub) {
                                    None => None,
                                    Some(s8) => first_expression(s8),
                                },
                            },
                        },
                    },
                },
            },
        },
    }
}

/// The first item, if it is an expression
pub open spec fn first_expression<W>(s: Seq<TEView<W>>) -> Option<ExprView<W>> {
    if s.len() == 0 {
        None
    } else {
        match s[0] {
            TEView::Expression(e) => Some(e),
            _ => None,
        }
    }
}

/// The expression that a sequence of token expressions builds: bracketed spans
/// first (innermost content up to the first closing bracket), then functions,
/// then operators. `None` where the tokens do not form an expression.
pub open spec fn spec_build<W>(s: Seq<TEView<W>>) -> Option<ExprView<W>>
    decreases build_measure(s),
{
    if open_index(s) >= 0 {
        proof {
            lemma_bracket_step_decreases(s);
        }
        match spec_build(bracket_inner(s)) {
            None => None,
            Some(e) => {
                proof {
                    lemma_bracket_step_decreases_with(s, e);
                }
                spec_build(bracket_replace(s, e))
            },
        }
    } else {
        finish_build(s)
    }
}


// ---------------------------------------------------------------------------
// Construction
// ---------------------------------------------------------------------------

/// The bare tokens that the construction looks for
#[derive(Clone, Copy)]
pub enum Mark {
    Open,
    Close,
    Sin,
    Cos,
    Tan,
    Pow,
    Div,
    Mul,
    Add,
    Sub,
}

pub open spec fn mark_view(m: Mark) -> TokenView {
    match m {
        Mark::Open => TokenView::OpenBracket,
        Mark::Close => TokenView::CloseBracket,
        Mark::Sin => TokenView::Sin,
        Mark::Cos => TokenView::Cos,
        Mark::Tan => TokenView::Tan,
        Mark::Pow => TokenView::Pow,
        Mark::Div => TokenView::Div,
        Mark::Mul => TokenView::Mul,
        Mark::Add => TokenView::Add,
        Mark::Sub => TokenView::Sub,
    }
}

/// The view of an optional expression
pub open spec fn option_expr_view<V: View>(o: Option<Expression<V>>) -> Option<ExprView<V::V>> {
    match o {
        Some(e) => Some(e@),
        None => None,
    }
}

fn fn_mark(k: FnKind) -> (m: Mark)
    ensures
        mark_view(m) == fn_token(k),
{
    match k {
        FnKind::Sin => Mark::Sin,
        FnKind::Cos => Mark::Cos,
        FnKind::Tan => Mark::Tan,
    }
}

fn op_mark(k: OpKind) -> (m: Mark)
    ensures
        mark_view(m) == op_token(k),
{
    match k {
        OpKind::Pow => Mark::Pow,
        OpKind::Div => Mark::Div,
        OpKind::Mul => Mark::Mul,
        OpKind::Add => Mark::Add,
        OpKind::Sub => Mark::Sub,
    }
}

/// Whether `te` is the bare token `m`
fn is_mark<V: View>(te: &TokenExpression<V>, m: Mark) -> (res: bool)
    ensures
        res == (te@ == TEView::<V::V>::Token(mark_view(m))),
{
    match te {
        TokenExpression::Token(t) => match (t, m) {
            (Token::OpenBracket, Mark::Open) => true,
            (Token::CloseBracket, Mark::Close) => true,
            (Token::Sin, Mark::Sin) => true,
            (Token::Cos, Mark::Cos) => true,
            (Token::Tan, Mark::Tan) => true,
            (Token::Pow, Mark::Pow) => true,
            (Token::Div, Mark::Div) => true,
            (Token::Mul, Mark::Mul) => true,
            (Token::Add, Mark::Add) => true,
            (Token::Sub, Mark::Sub) => true,
            _ => false,
        },
        TokenExpression::Expression(_) => false,
    }
}

/// Index of the first bare token `m`
fn find_mark<V: View>(ts: &Vec<TokenExpression<V>>, m: Mark) -> (res: Option<usize>)
    ensures
        match res {
            Some(i) => first_token_index(tes_view(ts@), mark_view(m)) == i as int && i < ts.len(),
            None => first_token_index(tes_view(ts@), mark_view(m)) == -1,
        },
{
    let ghost s = tes_view(ts@);
    let mut i: usize = 0;
    while i < ts.len()
        invariant
            0 <= i <= ts.len(),
            s == tes_view(ts@),
            forall|j: int| 0 <= j < i ==> s[j] != TEView::<V::V>::Token(mark_view(m)),
        decreases ts.len() - i,
    {
        if is_mark(&ts[i], m) {
            proof {
                lemma_first_token_index(s, mark_view(m));
                assert(is_first_token(s, mark_view(m), i as int));
            }
            return Some(i);
        }
        i += 1;
    }
    proof {
        lemma_first_token_index(s, mark_view(m));
    }
    None
}

fn make_fn<V: View>(k: FnKind, e: Expression<V>) -> (res: Expression<V>)
    ensures
        res@ == fn_node(k, e@),
{
    match k {
        FnKind::Sin => Expression::Sin(Box::new(e)),
        FnKind::Cos => Expression::Cos(Box::new(e)),
        FnKind::Tan => Expression::Tan(Box::new(e)),
    }
}

fn make_op<V: View>(k: OpKind, l: Expression<V>, r: Expression<V>) -> (res: Expression<V>)
    ensures
        res@ == op_node(k, l@, r@),
{
    match k {
        OpKind::Pow => Expression::Pow(Box::new(l), Box::new(r)),
        OpKind::Div => Expression::Div(Box::new(l), Box::new(r)),
        OpKind::Mul => Expression::Mul(Box::new(l), Box::new(r)),
        OpKind::Add => Expression::Add(Box::new(l), Box::new(r)),
        OpKind::Sub => Expression::Sub(Box::new(l), Box::new(r)),
    }
}

/// Apply every occurrence of the function `k` to the expression that follows it.
/// Returns false where a function token has no expression after it.
pub fn parse_function<V: View>(ts: &mut Vec<TokenExpression<V>>, k: FnKind) -> (ok: bool)
    ensures
        ok == (apply_function(tes_view(old(ts)@), k) is Some),
        ok ==> apply_function(tes_view(old(ts)@), k) == Some(tes_view(final(ts)@)),
{
    let ghost target = apply_function(tes_view(ts@), k);
    loop
        invariant
            apply_function(tes_view(ts@), k) == target,
            target == apply_function(tes_view(old(ts)@), k),
        decreases ts.len(),
    {
        let ghost s = tes_view(ts@);
        match find_mark(ts, fn_mark(k)) {
            None => {
                return true;
            },
            Some(i) => {
                if i + 1 >= ts.len() {
                    return false;
                }
                proof {
                    lemma_first_token_index(s, fn_token(k));
                }
                let _function = ts.remove(i);
                let val = ts.remove(i);
                match val {
                    TokenExpression::Expression(e) => {
                        let node = make_fn(k, e);
                        ts.insert(i, TokenExpression::Expression(node));
                        proof {
                            assert(tes_view(ts@) =~= s.subrange(0, i as int) + seq![
                                TEView::<V::V>::Expression(node@),
                            ] + s.subrange(i + 2, s.len() as int));
                        }
                    },
                    _ => {
                        return false;
                    },
                }
            },
        }
    }
}

/// Combine every occurrence of the operator `k` with the expressions on both sides.
/// Returns false where an operator lacks an expression on either side.
pub fn parse_operator<V: View>(ts: &mut Vec<TokenExpression<V>>, k: OpKind) -> (ok: bool)
    ensures
        ok == (apply_operator(tes_view(old(ts)@), k) is Some),
        ok ==> apply_operator(tes_view(old(ts)@), k) == Some(tes_view(final(ts)@)),
{
    let ghost target = apply_operator(tes_view(ts@), k);
    loop
        invariant
            apply_operator(tes_view(ts@), k) == target,
            target == apply_operator(tes_view(old(ts)@), k),
        decreases ts.len(),
    {
        let ghost s = tes_view(ts@);
        match find_mark(ts, op_mark(k)) {
            None => {
                return true;
            },
            Some(i) => {
                if i == 0 || i + 1 >= ts.len() {
                    return false;
                }
                proof {
                    lemma_first_token_index(s, op_token(k));
                }
                let lhs = ts.remove(i - 1);
                let _operator = ts.remove(i - 1);
                let rhs = ts.remove(i - 1);
                match (lhs, rhs) {
                    (TokenExpression::Expression(l), TokenExpression::Expression(r)) => {
                        let node = make_op(k, l, r);
                        ts.insert(i - 1, TokenExpression::Expression(node));
                        proof {
                            assert(tes_view(ts@) =~= s.subrange(0, i - 1) + seq![
                                TEView::<V::V>::Expression(node@),
                            ] + s.subrange(i + 2, s.len() as int));
                        }
                    },
                    _ => {
                        return false;
                    },
                }
            },
        }
    }
}

/// Take the first item if it is an expression
fn take_first_expression<V: View>(ts: Vec<TokenExpression<V>>) -> (res: Option<Expression<V>>)
    ensures
        option_expr_view(res) == first_expression(tes_view(ts@)),
{
    let mut ts = ts;
    if ts.len() == 0 {
        return None;
    }
    let first = ts.remove(0);
    match first {
        TokenExpression::Expression(e) => Some(e),
        _ => None,
    }
}


/// Remove from `ts` the span that starts at its first opening bracket `i` and ends
/// with the next closing bracket (or at the end), and return the span's content
/// without its opening brackets
fn take_bracket_span<V: View>(ts: &mut Vec<TokenExpression<V>>, i: usize) -> (sub: Vec<
    TokenExpression<V>,
>)
    requires
        open_index(tes_view(old(ts)@)) == i as int,
    ensures
        tes_view(sub@) == bracket_inner(tes_view(old(ts)@)),
        ({
            let s = tes_view(old(ts)@);
            let j = close_index(s);
            &&& j < s.len() ==> tes_view(final(ts)@) == s.subrange(0, i as int) + s.subrange(
                j + 1,
                s.len() as int,
            )
            &&& j >= s.len() ==> tes_view(final(ts)@) == s.subrange(0, i as int)
        }),
{
    let ghost s = tes_view(ts@);
    proof {
        lemma_bracket_facts(s);
        lemma_first_token_from(s, TokenView::CloseBracket, i as int);
    }
    let mut sub: Vec<TokenExpression<V>> = Vec::new();
    let mut done = false;
    let ghost mut k: int = i as int;
    while !done && i < ts.len()
        invariant
            s == tes_view(old(ts)@),
            open_index(s) == i as int,
            0 <= i < s.len(),
            i as int <= k <= s.len(),
            tes_view(ts@) == s.subrange(0, i as int) + s.subrange(k, s.len() as int),
            !done ==> tes_view(sub@) == remove_opens(s.subrange(i as int, k)),
            !done ==> forall|m: int|
                i <= m < k ==> s[m] != TEView::<V::V>::Token(TokenView::CloseBracket),
            done ==> close_index(s) == k - 1 && k - 1 < s.len(),
            done ==> tes_view(sub@) == bracket_inner(s),
        decreases ts.len(),
    {
        let ghost ts_before = tes_view(ts@);
        let ghost sub_before = tes_view(sub@);
        let ghost raw_before = ts@;
        let t = ts.remove(i);
        proof {
            assert(ts_before.len() == i + (s.len() - k));
            assert(ts_before[i as int] == s[k]);
            assert(t == raw_before[i as int]);
            assert(t@ == ts_before[i as int]);
            assert(tes_view(ts@) =~= ts_before.subrange(0, i as int) + ts_before.subrange(
                i + 1,
                ts_before.len() as int,
            ));
            assert(tes_view(ts@) =~= s.subrange(0, i as int) + s.subrange(k + 1, s.len() as int));
            assert(s.subrange(i as int, k + 1).drop_last() =~= s.subrange(i as int, k));
        }
        if is_mark(&t, Mark::Close) {
            done = true;
            proof {
                assert(is_first_token_from(s, TokenView::CloseBracket, i as int, k));
                lemma_first_token_from(s, TokenView::CloseBracket, i as int);
            }
        } else if !is_mark(&t, Mark::Open) {
            sub.push(t);
            proof {
                assert(tes_view(sub@) =~= sub_before.push(t@));
            }
        }
        proof {
            k = k + 1;
        }
    }
    proof {
        if !done {
            assert(k == s.len());
            lemma_first_token_from(s, TokenView::CloseBracket, i as int);
            assert(close_index(s) == s.len());
            assert(s.subrange(0, i as int) + s.subrange(k, s.len() as int) =~= s.subrange(
                0,
                i as int,
            ));
        }
    }
    sub
}


/// Replace the first bracketed span of `ts` (starting at its first opening bracket
/// `i`) by the expression that the span's content builds. Returns false where the
/// content does not build an expression.
fn reduce_bracket<V: View>(ts: &mut Vec<TokenExpression<V>>, i: usize) -> (ok: bool)
    requires
        open_index(tes_view(old(ts)@)) == i as int,
    ensures
        ok == (spec_build(bracket_inner(tes_view(old(ts)@))) is Some),
        ok ==> tes_view(final(ts)@) == bracket_replace(
            tes_view(old(ts)@),
            spec_build(bracket_inner(tes_view(old(ts)@))).unwrap(),
        ),
    decreases build_measure(tes_view(old(ts)@)), 0nat,
{
    let ghost s = tes_view(ts@);
    proof {
        lemma_bracket_facts(s);
        lemma_bracket_step_decreases(s);
    }
    let sub = take_bracket_span(ts, i);
    let ghost mid = tes_view(ts@);
    let e = match try_parse_expression_impl(sub) {
        Some(e) => e,
        None => {
            return false;
        },
    };
    assert(i <= mid.len());
    ts.insert(i, TokenExpression::Expression(e));
    proof {
        let j = close_index(s);
        let ev = TEView::<V::V>::Expression(e@);
        assert(tes_view(ts@) =~= mid.subrange(0, i as int) + seq![ev] + mid.subrange(
            i as int,
            mid.len() as int,
        ));
        if j < s.len() {
            assert(mid.subrange(0, i as int) =~= s.subrange(0, i as int));
            assert(mid.subrange(i as int, mid.len() as int) =~= s.subrange(j + 1, s.len() as int));
            assert(tes_view(ts@) =~= s.subrange(0, i as int) + seq![TEView::<V::V>::Expression(e@)]
                + s.subrange(j + 1, s.len() as int));
        } else {
            assert(tes_view(ts@) =~= s.subrange(0, i as int) + seq![
                TEView::<V::V>::Expression(e@),
            ]);
        }
        assert(tes_view(ts@) =~= bracket_replace(s, e@));
    }
    true
}

/// Build an expression from token expressions, or `None` where they do not form one
pub fn try_parse_expression_impl<V: View>(tokens: Vec<TokenExpression<V>>) -> (res: Option<
    Expression<V>,
>)
    ensures
        option_expr_view(res) == spec_build(tes_view(tokens@)),
    decreases build_measure(tes_view(tokens@)), 1nat,
{
    let ghost orig = tes_view(tokens@);
    let mut ts = tokens;
    loop
        invariant
            spec_build(tes_view(ts@)) == spec_build(orig),
            build_measure(tes_view(ts@)) <= build_measure(orig),
            orig == tes_view(tokens@),
        ensures
            spec_build(tes_view(ts@)) == spec_build(orig),
            open_index(tes_view(ts@)) < 0,
        decreases build_measure(tes_view(ts@)),
    {
        let ghost s = tes_view(ts@);
        match find_mark(&ts, Mark::Open) {
            None => {
                break ;
            },
            Some(i) => {
                if !reduce_bracket(&mut ts, i) {
                    return None;
                }
                proof {
                    lemma_bracket_step_decreases_with(s, spec_build(bracket_inner(s)).unwrap());
                }
            },
        }
    }
    if !parse_function(&mut ts, FnKind::Sin) {
        return None;
    }
    if !parse_function(&mut ts, FnKind::Cos) {
        return None;
    }
    if !parse_function(&mut ts, FnKind::Tan) {
        return None;
    }
    if !parse_operator(&mut ts, OpKind::Pow) {
        return None;
    }
    if !parse_operator(&mut ts, OpKind::Div) {
        return None;
    }
    if !parse_operator(&mut ts, OpKind::Mul) {
        return None;
    }
    if !parse_operator(&mut ts, OpKind::Add) {
        return None;
    }
    if !parse_operator(&mut ts, OpKind::Sub) {
        return None;
    }
    take_first_expression(ts)
}

// ---------------------------------------------------------------------------
// Lemmas about the model
// ---------------------------------------------------------------------------

pub proof fn lemma_first_token_index<W>(s: Seq<TEView<W>>, k: TokenView)
    ensures
        first_token_index(s, k) >= 0 ==> is_first_token(s, k, first_token_index(s, k)),
        first_token_index(s, k) < 0 ==> first_token_index(s, k) == -1 && forall|j: int|
            0 <= j < s.len() ==> s[j] != TEView::<W>::Token(k),
        forall|i: int| is_first_token(s, k, i) ==> first_token_index(s, k) == i,
{
    if exists|i: int| is_first_token(s, k, i) {
        let c = choose|i: int| is_first_token(s, k, i);
        assert forall|i: int| is_first_token(s, k, i) implies first_token_index(s, k) == i by {
            if c < i {
                assert(s[c] == TEView::<W>::Token(k));
            } else if i < c {
                assert(s[i] == TEView::<W>::Token(k));
            }
        }
    } else {
        assert forall|j: int| 0 <= j < s.len() implies s[j] != TEView::<W>::Token(k) by {
            if s[j] == TEView::<W>::Token(k) {
                // the first occurrence at or before j witnesses the existential
                lemma_exists_first(s, k, j);
            }
        }
    }
}

pub proof fn lemma_exists_first<W>(s: Seq<TEView<W>>, k: TokenView, j: int)
    requires
        0 <= j < s.len(),
        s[j] == TEView::<W>::Token(k),
    ensures
        exists|i: int| is_first_token(s, k, i),
    decreases j,
{
    if forall|m: int| 0 <= m < j ==> s[m] != TEView::<W>::Token(k) {
        assert(is_first_token(s, k, j));
    } else {
        let m = choose|m: int| 0 <= m < j && s[m] == TEView::<W>::Token(k);
        lemma_exists_first(s, k, m);
    }
}

pub proof fn lemma_first_token_from<W>(s: Seq<TEView<W>>, k: TokenView, from: int)
    requires
        0 <= from,
    ensures
        from <= first_token_from(s, k, from) || first_token_from(s, k, from) == s.len(),
        first_token_from(s, k, from) <= s.len(),
        first_token_from(s, k, from) < s.len() ==> is_first_token_from(
            s,
            k,
            from,
            first_token_from(s, k, from),
        ),
        first_token_from(s, k, from) == s.len() ==> forall|m: int|
            from <= m < s.len() ==> s[m] != TEView::<W>::Token(k),
        forall|j: int| is_first_token_from(s, k, from, j) ==> first_token_from(s, k, from) == j,
{
    if exists|j: int| is_first_token_from(s, k, from, j) {
        let c = choose|j: int| is_first_token_from(s, k, from, j);
        assert forall|j: int| is_first_token_from(s, k, from, j) implies first_token_from(
            s,
            k,
            from,
        ) == j by {
            if c < j {
                assert(s[c] == TEView::<W>::Token(k));
            } else if j < c {
                assert(s[j] == TEView::<W>::Token(k));
            }
        }
    } else {
        assert forall|m: int| from <= m < s.len() implies s[m] != TEView::<W>::Token(k) by {
            if s[m] == TEView::<W>::Token(k) {
                lemma_exists_first_from(s, k, from, m);
            }
        }
    }
}

pub proof fn lemma_exists_first_from<W>(s: Seq<TEView<W>>, k: TokenView, from: int, m: int)
    requires
        from <= m < s.len(),
        s[m] == TEView::<W>::Token(k),
    ensures
        exists|j: int| is_first_token_from(s, k, from, j),
    decreases m - from,
{
    if forall|n: int| from <= n < m ==> s[n] != TEView::<W>::Token(k) {
        assert(is_first_token_from(s, k, from, m));
    } else {
        let n = choose|n: int| from <= n < m && s[n] == TEView::<W>::Token(k);
        lemma_exists_first_from(s, k, from, n);
    }
}

pub proof fn lemma_count_opens_add<W>(a: Seq<TEView<W>>, b: Seq<TEView<W>>)
    ensures
        count_opens(a + b) == count_opens(a) + count_opens(b),
    decreases b.len(),
{
    if b.len() == 0 {
        assert(a + b =~= a);
    } else {
        lemma_count_opens_add(a, b.drop_last());
        assert((a + b).drop_last() =~= a + b.drop_last());
    }
}

pub proof fn lemma_remove_opens_len<W>(s: Seq<TEView<W>>)
    ensures
        remove_opens(s).len() + count_opens(s) == s.len(),
        count_opens(remove_opens(s)) == 0,
    decreases s.len(),
{
    if s.len() > 0 {
        lemma_remove_opens_len(s.drop_last());
        if !is_open(s.last()) {
            let r = remove_opens(s.drop_last());
            assert(r.push(s.last()).drop_last() =~= r);
        }
    }
}

pub proof fn lemma_count_opens_none<W>(s: Seq<TEView<W>>)
    requires
        forall|j: int| 0 <= j < s.len() ==> !is_open(#[trigger] s[j]),
    ensures
        count_opens(s) == 0,
    decreases s.len(),
{
    if s.len() > 0 {
        lemma_count_opens_none(s.drop_last());
    }
}

pub proof fn lemma_count_opens_first<W>(s: Seq<TEView<W>>)
    requires
        s.len() > 0,
        is_open(s[0]),
    ensures
        count_opens(s) >= 1,
{
    assert(s =~= seq![s[0]] + s.drop_first());
    lemma_count_opens_add(seq![s[0]], s.drop_first());
    assert(seq![s[0]].drop_last() =~= Seq::<TEView<W>>::empty());
}

pub proof fn lemma_bracket_step_decreases<W>(s: Seq<TEView<W>>)
    requires
        open_index(s) >= 0,
    ensures
        build_measure(bracket_inner(s)) < build_measure(s),
{
    lemma_bracket_facts(s);
    let i = open_index(s);
    let j = close_index(s);
    let mid = s.subrange(i, j);
    lemma_remove_opens_len(mid);
    lemma_count_opens_first(mid);
}

pub proof fn lemma_bracket_step_decreases_with<W>(s: Seq<TEView<W>>, e: ExprView<W>)
    requires
        open_index(s) >= 0,
    ensures
        build_measure(bracket_replace(s, e)) < build_measure(s),
{
    lemma_bracket_facts(s);
    let i = open_index(s);
    let j = close_index(s);
    let pre = s.subrange(0, i);
    let mid = s.subrange(i, j);
    let post = s.subrange(j, s.len() as int);
    assert(s =~= pre + mid + post);
    lemma_count_opens_add(pre + mid, post);
    lemma_count_opens_add(pre, mid);
    lemma_count_opens_first(mid);
    lemma_count_opens_none(pre);
    let rest = if j < s.len() {
        s.subrange(j + 1, s.len() as int)
    } else {
        Seq::<TEView<W>>::empty()
    };
    let one = seq![TEView::<W>::Expression(e)];
    lemma_count_opens_add(pre + one, rest);
    lemma_count_opens_add(pre, one);
    assert(one.drop_last() =~= Seq::<TEView<W>>::empty());
    if j < s.len() {
        assert(post =~= seq![s[j]] + rest);
        lemma_count_opens_add(seq![s[j]], rest);
        assert(seq![s[j]].drop_last() =~= Seq::<TEView<W>>::empty());
    }
}

/// Basic facts about the bracketed span
pub proof fn lemma_bracket_facts<W>(s: Seq<TEView<W>>)
    requires
        open_index(s) >= 0,
    ensures
        0 <= open_index(s) < s.len(),
        open_index(s) <= close_index(s) <= s.len(),
        is_open(s[open_index(s)]),
        forall|j: int| 0 <= j < open_index(s) ==> !is_open(#[trigger] s[j]),
        close_index(s) < s.len() ==> s[close_index(s)] == TEView::<W>::Token(
            TokenView::CloseBracket,
        ),
{
    lemma_first_token_index(s, TokenView::OpenBracket);
    lemma_first_token_from(s, TokenView::CloseBracket, open_index(s));
}

} // verus!
