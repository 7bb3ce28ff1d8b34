use vstd::prelude::*;

use super::expression::{ExprView, TEView};
use super::token::{skip_ws, token_step, TokenStep, TokenView};
use super::tree::{
    apply_function, apply_operator, bracket_inner, bracket_replace, close_index, finish_build,
    first_expression, first_token_index, fn_node, fn_token, is_first_token, is_first_token_from,
    lemma_first_token_from, lemma_first_token_index, op_node, op_token, open_index, remove_opens,
    spec_build, FnKind, OpKind,
};

verus! {

// ---------------------------------------------------------------------------
// Operator precedence of the expression language
// ---------------------------------------------------------------------------

/// The order in which the operators of one bracket level are combined: `^` first,
/// then `/`, `*`, `+`, and `-` last
pub open spec fn op_rank(k: OpKind) -> nat {
    match k {
        OpKind::Pow => 0,
        OpKind::Div => 1,
        OpKind::Mul => 2,
        OpKind::Add => 3,
        OpKind::Sub => 4,
    }
}

/// The token written for an operator
pub open spec fn op_symbol(k: OpKind) -> TokenView {
    match k {
        OpKind::Pow => TokenView::Pow,
        OpKind::Div => TokenView::Div,
        OpKind::Mul => TokenView::Mul,
        OpKind::Add => TokenView::Add,
        OpKind::Sub => TokenView::Sub,
    }
}

/// The tree node an operator makes of its two operands
pub open spec fn op_tree<W>(k: OpKind, l: ExprView<W>, r: ExprView<W>) -> ExprView<W> {
    match k {
        OpKind::Pow => ExprView::Pow(Box::new(l), Box::new(r)),
        OpKind::Div => ExprView::Div(Box::new(l), Box::new(r)),
        OpKind::Mul => ExprView::Mul(Box::new(l), Box::new(r)),
        OpKind::Add => ExprView::Add(Box::new(l), Box::new(r)),
        OpKind::Sub => ExprView::Sub(Box::new(l), Box::new(r)),
    }
}

/// The tokens `a k b`
pub open spec fn two_operands<W>(a: ExprView<W>, k: OpKind, b: ExprView<W>) -> Seq<TEView<W>> {
    seq![TEView::Expression(a), TEView::Token(op_symbol(k)), TEView::Expression(b)]
}

/// The tokens `a k1 b k2 c`
pub open spec fn three_operands<W>(
    a: ExprView<W>,
    k1: OpKind,
    b: ExprView<W>,
    k2: OpKind,
    c: ExprView<W>,
) -> Seq<TEView<W>> {
    seq![
        TEView::Expression(a),
        TEView::Token(op_symbol(k1)),
        TEView::Expression(b),
        TEView::Token(op_symbol(k2)),
        TEView::Expression(c),
    ]
}

proof fn lemma_tables<W>(k: OpKind)
    ensures
        op_token(k) == op_symbol(k),
        forall|l: ExprView<W>, r: ExprView<W>| #[trigger] op_node(k, l, r) == op_tree(k, l, r),
{
}

/// Where `s` holds no token of `k`, applying `k` leaves it as it is
proof fn lemma_operator_absent<W>(s: Seq<TEView<W>>, k: OpKind)
    requires
        forall|j: int| 0 <= j < s.len() ==> s[j] != TEView::<W>::Token(op_token(k)),
    ensures
        apply_operator(s, k) == Some(s),
{
    lemma_first_token_index(s, op_token(k));
}

/// Where `s` holds no function token, applying the functions leaves it as it is
proof fn lemma_functions_absent<W>(s: Seq<TEView<W>>)
    requires
        forall|j: int|
            0 <= j < s.len() ==> #[trigger] s[j] != TEView::<W>::Token(TokenView::Sin) && s[j]
                != TEView::<W>::Token(TokenView::Cos) && s[j] != TEView::<W>::Token(TokenView::Tan),
    ensures
        apply_function(s, FnKind::Sin) == Some(s),
        apply_function(s, FnKind::Cos) == Some(s),
        apply_function(s, FnKind::Tan) == Some(s),
{
    lemma_first_token_index(s, fn_token(FnKind::Sin));
    lemma_first_token_index(s, fn_token(FnKind::Cos));
    lemma_first_token_index(s, fn_token(FnKind::Tan));
    if first_token_index(s, fn_token(FnKind::Sin)) >= 0 {
        assert(s[first_token_index(s, fn_token(FnKind::Sin))] == TEView::<W>::Token(TokenView::Sin));
    }
    if first_token_index(s, fn_token(FnKind::Cos)) >= 0 {
        assert(s[first_token_index(s, fn_token(FnKind::Cos))] == TEView::<W>::Token(TokenView::Cos));
    }
    if first_token_index(s, fn_token(FnKind::Tan)) >= 0 {
        assert(s[first_token_index(s, fn_token(FnKind::Tan))] == TEView::<W>::Token(TokenView::Tan));
    }
}

/// Applying an operator to a single expression leaves it as it is
proof fn lemma_operator_one<W>(x: ExprView<W>)
    ensures
        forall|k: OpKind| #[trigger]
            apply_operator(seq![TEView::<W>::Expression(x)], k) == Some(
                seq![TEView::<W>::Expression(x)],
            ),
{
    assert forall|k: OpKind| #[trigger]
        apply_operator(seq![TEView::<W>::Expression(x)], k) == Some(
            seq![TEView::<W>::Expression(x)],
        ) by {
        lemma_operator_absent(seq![TEView::<W>::Expression(x)], k);
    }
}

/// Applying an operator to `x t y`: combined where `t` is its token
proof fn lemma_operator_two<W>(x: ExprView<W>, t: OpKind, y: ExprView<W>)
    ensures
        forall|k: OpKind| #[trigger]
            apply_operator(two_operands(x, t, y), k) == if op_token(k) == op_symbol(t) {
                Some(seq![TEView::<W>::Expression(op_node(k, x, y))])
            } else {
                Some(two_operands(x, t, y))
            },
{
    let s = two_operands(x, t, y);
    assert forall|k: OpKind| #[trigger]
        apply_operator(two_operands(x, t, y), k) == if op_token(k) == op_symbol(t) {
            Some(seq![TEView::<W>::Expression(op_node(k, x, y))])
        } else {
            Some(two_operands(x, t, y))
        } by {
        if op_token(k) == op_symbol(t) {
            lemma_first_token_index(s, op_token(k));
            assert(is_first_token(s, op_token(k), 1));
            let r = s.subrange(0, 0) + seq![TEView::<W>::Expression(op_node(k, x, y))]
                + s.subrange(3, 3);
            assert(r =~= seq![TEView::<W>::Expression(op_node(k, x, y))]);
            lemma_operator_absent(r, k);
        } else {
            lemma_operator_absent(s, k);
        }
    }
}

/// Applying an operator to `a k1 b k2 c`, with `k1` and `k2` different: the
/// operands around its token are combined
proof fn lemma_operator_three<W>(
    a: ExprView<W>,
    k1: OpKind,
    b: ExprView<W>,
    k2: OpKind,
    c: ExprView<W>,
)
    requires
        op_rank(k1) != op_rank(k2),
    ensures
        forall|k: OpKind| #[trigger]
            apply_operator(three_operands(a, k1, b, k2, c), k) == if op_token(k) == op_symbol(k1) {
                Some(two_operands(op_node(k, a, b), k2, c))
            } else if op_token(k) == op_symbol(k2) {
                Some(two_operands(a, k1, op_node(k, b, c)))
            } else {
                Some(three_operands(a, k1, b, k2, c))
            },
{
    let s = three_operands(a, k1, b, k2, c);
    assert forall|k: OpKind| #[trigger]
        apply_operator(three_operands(a, k1, b, k2, c), k) == if op_token(k) == op_symbol(k1) {
            Some(two_operands(op_node(k, a, b), k2, c))
        } else if op_token(k) == op_symbol(k2) {
            Some(two_operands(a, k1, op_node(k, b, c)))
        } else {
            Some(three_operands(a, k1, b, k2, c))
        } by {
        lemma_first_token_index(s, op_token(k));
        if op_token(k) == op_symbol(k1) {
            assert(is_first_token(s, op_token(k), 1));
            let r = s.subrange(0, 0) + seq![TEView::<W>::Expression(op_node(k, a, b))]
                + s.subrange(3, 5);
            assert(r =~= two_operands(op_node(k, a, b), k2, c));
            lemma_operator_absent(r, k);
        } else if op_token(k) == op_symbol(k2) {
            assert(is_first_token(s, op_token(k), 3));
            let r = s.subrange(0, 2) + seq![TEView::<W>::Expression(op_node(k, b, c))]
                + s.subrange(5, 5);
            assert(r =~= two_operands(a, k1, op_node(k, b, c)));
            lemma_operator_absent(r, k);
        } else {
            lemma_operator_absent(s, k);
        }
    }
}

/// Tokens without brackets build what the functions and operators make of them
proof fn lemma_build_without_brackets<W>(s: Seq<TEView<W>>)
    requires
        forall|j: int| 0 <= j < s.len() ==> s[j] != TEView::<W>::Token(TokenView::OpenBracket),
    ensures
        spec_build(s) == finish_build(s),
{
    lemma_first_token_index(s, TokenView::OpenBracket);
}

/// The operator combined at stage `r` (see [`op_rank`])
spec fn op_at_rank(r: nat) -> OpKind {
    if r == 0 {
        OpKind::Pow
    } else if r == 1 {
        OpKind::Div
    } else if r == 2 {
        OpKind::Mul
    } else if r == 3 {
        OpKind::Add
    } else {
        OpKind::Sub
    }
}

/// The operator stages from `r` on, then the first expression left
spec fn stages_from<W>(s: Seq<TEView<W>>, r: nat) -> Option<ExprView<W>>
    decreases 5 - r,
{
    if r >= 5 {
        first_expression(s)
    } else {
        match apply_operator(s, op_at_rank(r)) {
            None => None,
            Some(t) => stages_from(t, r + 1),
        }
    }
}

proof fn lemma_stages<W>(s: Seq<TEView<W>>)
    requires
        forall|j: int|
            0 <= j < s.len() ==> #[trigger] s[j] != TEView::<W>::Token(TokenView::Sin) && s[j]
                != TEView::<W>::Token(TokenView::Cos) && s[j] != TEView::<W>::Token(TokenView::Tan)
                && s[j] != TEView::<W>::Token(TokenView::OpenBracket),
    ensures
        spec_build(s) == stages_from(s, 0),
{
    lemma_build_without_brackets(s);
    lemma_functions_absent(s);
    reveal_with_fuel(stages_from, 6);
}

proof fn lemma_rank_roundtrip(k: OpKind)
    ensures
        op_at_rank(op_rank(k)) == k,
        op_rank(k) < 5,
        forall|m: OpKind| op_token(m) == op_symbol(k) <==> m == k,
{
}

proof fn lemma_stages_one<W>(x: ExprView<W>, r: nat)
    ensures
        stages_from(seq![TEView::<W>::Expression(x)], r) == Some(x),
    decreases 5 - r,
{
    lemma_operator_one(x);
    if r < 5 {
        lemma_stages_one(x, r + 1);
    }
}

proof fn lemma_stages_two<W>(x: ExprView<W>, t: OpKind, y: ExprView<W>, r: nat)
    requires
        r <= op_rank(t),
    ensures
        stages_from(two_operands(x, t, y), r) == Some(op_tree(t, x, y)),
    decreases 5 - r,
{
    lemma_operator_two(x, t, y);
    lemma_rank_roundtrip(t);
    lemma_tables::<W>(t);
    if r == op_rank(t) {
        lemma_stages_one(op_node(t, x, y), r + 1);
    } else {
        lemma_stages_two(x, t, y, r + 1);
    }
}

proof fn lemma_stages_three<W>(
    a: ExprView<W>,
    k1: OpKind,
    b: ExprView<W>,
    k2: OpKind,
    c: ExprView<W>,
    r: nat,
)
    requires
        op_rank(k1) != op_rank(k2),
        r <= op_rank(k1),
        r <= op_rank(k2),
    ensures
        op_rank(k1) < op_rank(k2) ==> stages_from(three_operands(a, k1, b, k2, c), r) == Some(
            op_tree(k2, op_tree(k1, a, b), c),
        ),
        op_rank(k2) < op_rank(k1) ==> stages_from(three_operands(a, k1, b, k2, c), r) == Some(
            op_tree(k1, a, op_tree(k2, b, c)),
        ),
    decreases 5 - r,
{
    lemma_operator_three(a, k1, b, k2, c);
    lemma_rank_roundtrip(k1);
    lemma_rank_roundtrip(k2);
    lemma_tables::<W>(k1);
    lemma_tables::<W>(k2);
    if r == op_rank(k1) {
        lemma_stages_two(op_node(k1, a, b), k2, c, r + 1);
    } else if r == op_rank(k2) {
        lemma_stages_two(a, k1, op_node(k2, b, c), r + 1);
    } else {
        lemma_stages_three(a, k1, b, k2, c, r + 1);
    }
}

/// Of two different operators in `a k1 b k2 c`, the one that comes first in the
/// order `^`, `/`, `*`, `+`, `-` is combined first, wherever it stands: with `k1`
/// first the tree is `(a k1 b) k2 c`, with `k2` first it is `a k1 (b k2 c)`. So
/// `8 / 2 * 2` is `(8 / 2) * 2`, and `a - b + c` is `a - (b + c)`.
pub proof fn lemma_operator_precedence<W>(
    a: ExprView<W>,
    k1: OpKind,
    b: ExprView<W>,
    k2: OpKind,
    c: ExprView<W>,
)
    requires
        op_rank(k1) != op_rank(k2),
    ensures
        op_rank(k1) < op_rank(k2) ==> spec_build(three_operands(a, k1, b, k2, c)) == Some(
            op_tree(k2, op_tree(k1, a, b), c),
        ),
        op_rank(k2) < op_rank(k1) ==> spec_build(three_operands(a, k1, b, k2, c)) == Some(
            op_tree(k1, a, op_tree(k2, b, c)),
        ),
{
    lemma_stages(three_operands(a, k1, b, k2, c));
    lemma_stages_three(a, k1, b, k2, c, 0);
}

/// Repeats of one operator are combined from the left: `a k b k c` is `(a k b) k c`
pub proof fn lemma_operator_left_to_right<W>(
    a: ExprView<W>,
    k: OpKind,
    b: ExprView<W>,
    c: ExprView<W>,
)
    ensures
        spec_build(three_operands(a, k, b, k, c)) == Some(op_tree(k, op_tree(k, a, b), c)),
{
    let s = three_operands(a, k, b, k, c);
    lemma_stages(s);
    lemma_tables::<W>(k);
    lemma_rank_roundtrip(k);
    lemma_stages_same(a, k, b, c, 0);
}

proof fn lemma_stages_same<W>(a: ExprView<W>, k: OpKind, b: ExprView<W>, c: ExprView<W>, r: nat)
    requires
        r <= op_rank(k),
    ensures
        stages_from(three_operands(a, k, b, k, c), r) == Some(op_tree(k, op_tree(k, a, b), c)),
    decreases 5 - r,
{
    let s = three_operands(a, k, b, k, c);
    lemma_tables::<W>(k);
    lemma_rank_roundtrip(k);
    if r == op_rank(k) {
        lemma_first_token_index(s, op_token(k));
        assert(is_first_token(s, op_token(k), 1));
        let t = s.subrange(0, 0) + seq![TEView::<W>::Expression(op_node(k, a, b))] + s.subrange(
            3,
            5,
        );
        assert(t =~= two_operands(op_node(k, a, b), k, c));
        assert(first_token_index(s, op_token(k)) == 1);
        assert(s[0] == TEView::<W>::Expression(a) && s[2] == TEView::<W>::Expression(b));
        assert(apply_operator(s, k) == apply_operator(t, k));
        lemma_operator_two(op_node(k, a, b), k, c);
        assert(apply_operator(s, k) == Some(
            seq![TEView::<W>::Expression(op_node(k, op_node(k, a, b), c))],
        ));
        lemma_stages_one(op_node(k, op_node(k, a, b), c), r + 1);
    } else {
        lemma_operator_absent(s, op_at_rank(r));
        lemma_stages_same(a, k, b, c, r + 1);
    }
}

proof fn lemma_remove_leading_open<W>(a: ExprView<W>, k: OpKind, b: ExprView<W>)
    ensures
        remove_opens(seq![TEView::<W>::Token(TokenView::OpenBracket)] + two_operands(a, k, b))
            == two_operands(a, k, b),
{
    let s0 = seq![TEView::<W>::Token(TokenView::OpenBracket)];
    let s1 = s0.push(TEView::Expression(a));
    let s2 = s1.push(TEView::Token(op_symbol(k)));
    let s3 = s2.push(TEView::Expression(b));
    assert(s0 + two_operands(a, k, b) =~= s3);
    assert(s3.drop_last() =~= s2);
    assert(s2.drop_last() =~= s1);
    assert(s1.drop_last() =~= s0);
    assert(s0.drop_last() =~= Seq::<TEView<W>>::empty());
    assert(s0.last() == TEView::<W>::Token(TokenView::OpenBracket));
    assert(remove_opens(Seq::<TEView<W>>::empty()) == Seq::<TEView<W>>::empty());
    assert(remove_opens(s0) =~= Seq::<TEView<W>>::empty());
    assert(s1.last() == TEView::<W>::Expression(a));
    assert(s2.last() == TEView::<W>::Token(op_symbol(k)));
    assert(s3.last() == TEView::<W>::Expression(b));
    assert(remove_opens(s1) =~= seq![TEView::<W>::Expression(a)]);
    assert(remove_opens(s2) =~= seq![TEView::<W>::Expression(a), TEView::Token(op_symbol(k))]);
    assert(remove_opens(s3) =~= two_operands(a, k, b));
}

/// The tokens `( a k1 b ) k2 c`
pub open spec fn bracketed<W>(
    a: ExprView<W>,
    k1: OpKind,
    b: ExprView<W>,
    k2: OpKind,
    c: ExprView<W>,
) -> Seq<TEView<W>> {
    seq![
        TEView::Token(TokenView::OpenBracket),
        TEView::Expression(a),
        TEView::Token(op_symbol(k1)),
        TEView::Expression(b),
        TEView::Token(TokenView::CloseBracket),
        TEView::Token(op_symbol(k2)),
        TEView::Expression(c),
    ]
}

proof fn lemma_bracket_shape<W>(
    a: ExprView<W>,
    k1: OpKind,
    b: ExprView<W>,
    k2: OpKind,
    c: ExprView<W>,
    e: ExprView<W>,
)
    ensures
        open_index(bracketed(a, k1, b, k2, c)) == 0,
        bracket_inner(bracketed(a, k1, b, k2, c)) == two_operands(a, k1, b),
        bracket_replace(bracketed(a, k1, b, k2, c), e) == two_operands(e, k2, c),
{
    let s = bracketed(a, k1, b, k2, c);
    lemma_first_token_index(s, TokenView::OpenBracket);
    assert(is_first_token(s, TokenView::OpenBracket, 0));
    lemma_first_token_from(s, TokenView::CloseBracket, 0);
    assert(is_first_token_from(s, TokenView::CloseBracket, 0, 4));
    assert(close_index(s) == 4);
    lemma_remove_leading_open(a, k1, b);
    assert(s.subrange(0, 4) =~= seq![TEView::<W>::Token(TokenView::OpenBracket)] + two_operands(
        a,
        k1,
        b,
    ));
    assert(bracket_replace(s, e) =~= two_operands(e, k2, c));
}

/// A bracketed pair of operands is combined first, whatever the operator after it:
/// `(a k1 b) k2 c` is `(a k1 b) k2 c` even where `k2` would bind more tightly
pub proof fn lemma_brackets_first<W>(
    a: ExprView<W>,
    k1: OpKind,
    b: ExprView<W>,
    k2: OpKind,
    c: ExprView<W>,
)
    ensures
        spec_build(bracketed(a, k1, b, k2, c)) == Some(op_tree(k2, op_tree(k1, a, b), c)),
{
    let s = bracketed(a, k1, b, k2, c);
    let inner = op_tree(k1, a, b);
    let first = two_operands(a, k1, b);
    let second = two_operands(inner, k2, c);
    assert(open_index(s) == 0 && bracket_inner(s) == first && bracket_replace(s, inner)
        == second) by {
        lemma_bracket_shape(a, k1, b, k2, c, inner);
    }
    assert(spec_build(first) == Some(inner)) by {
        lemma_stages(first);
        lemma_stages_two(a, k1, b, 0);
    }
    assert(spec_build(second) == Some(op_tree(k2, inner, c))) by {
        lemma_stages(second);
        lemma_stages_two(inner, k2, c, 0);
    }
    lemma_build_bracket_step(s, inner);
}

proof fn lemma_build_bracket_step<W>(s: Seq<TEView<W>>, e: ExprView<W>)
    requires
        open_index(s) >= 0,
        spec_build(bracket_inner(s)) == Some(e),
    ensures
        spec_build(s) == spec_build(bracket_replace(s, e)),
{
}

/// The token written for a function
pub open spec fn fn_symbol(f: FnKind) -> TokenView {
    match f {
        FnKind::Sin => TokenView::Sin,
        FnKind::Cos => TokenView::Cos,
        FnKind::Tan => TokenView::Tan,
    }
}

/// The tree node a function makes of its argument
pub open spec fn fn_tree<W>(f: FnKind, x: ExprView<W>) -> ExprView<W> {
    match f {
        FnKind::Sin => ExprView::Sin(Box::new(x)),
        FnKind::Cos => ExprView::Cos(Box::new(x)),
        FnKind::Tan => ExprView::Tan(Box::new(x)),
    }
}

proof fn lemma_function_step<W>(f: FnKind, g: FnKind, x: ExprView<W>)
    ensures
        apply_function(seq![TEView::<W>::Token(fn_symbol(f)), TEView::Expression(x)], g) == if f
            == g {
            Some(seq![TEView::<W>::Expression(fn_tree(f, x))])
        } else {
            Some(seq![TEView::<W>::Token(fn_symbol(f)), TEView::Expression(x)])
        },
        apply_function(seq![TEView::<W>::Expression(fn_tree(f, x))], g) == Some(
            seq![TEView::<W>::Expression(fn_tree(f, x))],
        ),
{
    let s = seq![TEView::<W>::Token(fn_symbol(f)), TEView::Expression(x)];
    let one = seq![TEView::<W>::Expression(fn_tree(f, x))];
    lemma_first_token_index(s, fn_token(g));
    lemma_first_token_index(one, fn_token(g));
    if f == g {
        assert(is_first_token(s, fn_token(g), 0));
        assert(fn_node(g, x) == fn_tree(f, x));
        assert(s.subrange(0, 0) + one + s.subrange(2, 2) =~= one);
    }
}

/// A function applies to the expression right after it: `sin x` is `Sin(x)`, and
/// likewise for `cos` and `tan`
pub proof fn lemma_function_application<W>(f: FnKind, x: ExprView<W>)
    ensures
        spec_build(seq![TEView::Token(fn_symbol(f)), TEView::Expression(x)]) == Some(
            fn_tree(f, x),
        ),
{
    let s = seq![TEView::<W>::Token(fn_symbol(f)), TEView::Expression(x)];
    let one = seq![TEView::<W>::Expression(fn_tree(f, x))];
    lemma_build_without_brackets(s);
    lemma_function_step(f, FnKind::Sin, x);
    lemma_function_step(f, FnKind::Cos, x);
    lemma_function_step(f, FnKind::Tan, x);
    lemma_operator_one(fn_tree(f, x));
}

/// `a / b * c` is `(a / b) * c`: division is combined before multiplication
pub proof fn lemma_division_before_multiplication<W>(a: ExprView<W>, b: ExprView<W>, c: ExprView<W>)
    ensures
        spec_build(
            seq![
                TEView::Expression(a),
                TEView::Token(TokenView::Div),
                TEView::Expression(b),
                TEView::Token(TokenView::Mul),
                TEView::Expression(c),
            ],
        ) == Some(ExprView::Mul(Box::new(ExprView::Div(Box::new(a), Box::new(b))), Box::new(c))),
{
    lemma_operator_precedence(a, OpKind::Div, b, OpKind::Mul, c);
}

/// The character written for an operator
pub open spec fn op_char(k: OpKind) -> char {
    match k {
        OpKind::Pow => '^',
        OpKind::Div => '/',
        OpKind::Mul => '*',
        OpKind::Add => '+',
        OpKind::Sub => '-',
    }
}

/// An operator character, or a bracket, after any whitespace reads as its own
/// token, and the next token is read after it and the whitespace that follows
pub proof fn lemma_symbol_tokens(s: Seq<char>, p: int, k: OpKind)
    ensures
        ({
            let q = skip_ws(s, p);
            &&& q < s.len() && s[q] == op_char(k) ==> token_step(s, p) == TokenStep::Found(
                op_symbol(k),
                skip_ws(s, q + 1),
            )
            &&& q < s.len() && s[q] == '(' ==> token_step(s, p) == TokenStep::Found(
                TokenView::OpenBracket,
                skip_ws(s, q + 1),
            )
            &&& q < s.len() && s[q] == ')' ==> token_step(s, p) == TokenStep::Found(
                TokenView::CloseBracket,
                skip_ws(s, q + 1),
            )
        }),
{
}

} // verus!
