use vstd::prelude::*;

use super::expression::{ExprView, Expression};
use super::variables::Variables;

verus! {

/// Evaluation of a value against a context `C`
pub trait EvalTrait<C> {
    type Eval;

    /// The context holds what evaluation needs (evaluation does not fail)
    spec fn eval_defined(&self, ctx: &C) -> bool;

    /// The value that evaluation gives
    spec fn eval_value(&self, ctx: &C) -> Self::Eval;

    fn eval(&self, ctx: &C) -> (res: Self::Eval)
        requires
            self.eval_defined(ctx),
        ensures
            res == self.eval_value(ctx),
    ;
}

impl<C> EvalTrait<C> for u32 {
    type Eval = u32;

    open spec fn eval_defined(&self, ctx: &C) -> bool {
        true
    }

    open spec fn eval_value(&self, ctx: &C) -> u32 {
        *self
    }

    fn eval(&self, ctx: &C) -> (res: u32) {
        *self
    }
}

impl<C> EvalTrait<C> for i32 {
    type Eval = i32;

    open spec fn eval_defined(&self, ctx: &C) -> bool {
        true
    }

    open spec fn eval_value(&self, ctx: &C) -> i32 {
        *self
    }

    fn eval(&self, ctx: &C) -> (res: i32) {
        *self
    }
}

/// `b` raised to the power `e`
pub open spec fn power(b: int, e: nat) -> int
    decreases e,
{
    if e == 0 {
        1
    } else {
        b * power(b, (e - 1) as nat)
    }
}

pub proof fn lemma_power_nonneg(b: int, e: nat)
    requires
        b >= 0,
    ensures
        power(b, e) >= 0,
    decreases e,
{
    if e > 0 {
        lemma_power_nonneg(b, (e - 1) as nat);
        let p = power(b, (e - 1) as nat);
        assert(b * p >= 0) by (nonlinear_arith)
            requires
                b >= 0,
                p >= 0,
        ;
    }
}

pub proof fn lemma_power_monotone(b: int, i: nat, j: nat)
    requires
        b >= 1,
        i <= j,
    ensures
        power(b, i) <= power(b, j),
    decreases j - i,
{
    if i < j {
        lemma_power_monotone(b, i, (j - 1) as nat);
        lemma_power_nonneg(b, (j - 1) as nat);
        let p = power(b, (j - 1) as nat);
        assert(p <= b * p) by (nonlinear_arith)
            requires
                b >= 1,
                p >= 0,
        ;
    }
}

pub proof fn lemma_power_small_base(b: int, e: nat)
    requires
        b == 0 || b == 1,
    ensures
        power(b, e) == if b == 0 && e > 0 {
            0int
        } else {
            1int
        },
    decreases e,
{
    if e > 0 {
        lemma_power_small_base(b, (e - 1) as nat);
    }
}

/// `base` to the power `exp`, or `None` where the result does not fit in `u32`
pub fn checked_pow(base: u32, exp: u32) -> (res: Option<u32>)
    ensures
        match res {
            Some(r) => r == power(base as int, exp as nat),
            None => power(base as int, exp as nat) > u32::MAX,
        },
{
    if base <= 1 {
        proof {
            lemma_power_small_base(base as int, exp as nat);
        }
        return if base == 0 && exp > 0 {
            Some(0)
        } else {
            Some(1)
        };
    }
    let mut acc: u32 = 1;
    let mut i: u32 = 0;
    while i < exp
        invariant
            base >= 2,
            i <= exp,
            acc == power(base as int, i as nat),
        decreases exp - i,
    {
        proof {
            assert(power(base as int, (i + 1) as nat) == base * power(base as int, i as nat));
            assert(acc * base == base * acc) by (nonlinear_arith);
        }
        match acc.checked_mul(base) {
            Some(v) => {
                acc = v;
                i += 1;
            },
            None => {
                proof {
                    lemma_power_monotone(base as int, (i + 1) as nat, exp as nat);
                }
                return None;
            },
        }
    }
    Some(acc)
}

/// The value of an integer expression: `None` where evaluation fails, that is on a
/// trigonometric function, an unset variable, a division by zero, or a result (or
/// intermediate result) outside the range of `u32`
pub open spec fn spec_eval(e: ExprView<u32>, vars: Map<Seq<char>, u32>) -> Option<u32>
    decreases e,
{
    match e {
        ExprView::Val(n) => Some(n),
        ExprView::Ident(k) => if vars.contains_key(k) {
            Some(vars[k])
        } else {
            None
        },
        ExprView::Add(l, r) => match (spec_eval(*l, vars), spec_eval(*r, vars)) {
            (Some(a), Some(b)) => if a + b <= u32::MAX {
                Some((a + b) as u32)
            } else {
                None
            },
            _ => None,
        },
        ExprView::Sub(l, r) => match (spec_eval(*l, vars), spec_eval(*r, vars)) {
            (Some(a), Some(b)) => if a >= b {
                Some((a - b) as u32)
            } else {
                None
            },
            _ => None,
        },
        ExprView::Mul(l, r) => match (spec_eval(*l, vars), spec_eval(*r, vars)) {
            (Some(a), Some(b)) => if a * b <= u32::MAX {
                Some((a * b) as u32)
            } else {
                None
            },
            _ => None,
        },
        ExprView::Div(l, r) => match (spec_eval(*l, vars), spec_eval(*r, vars)) {
            (Some(a), Some(b)) => if b != 0 {
                Some((a / b) as u32)
            } else {
                None
            },
            _ => None,
        },
        ExprView::Pow(l, r) => match (spec_eval(*l, vars), spec_eval(*r, vars)) {
            (Some(a), Some(b)) => if power(a as int, b as nat) <= u32::MAX {
                Some(power(a as int, b as nat) as u32)
            } else {
                None
            },
            _ => None,
        },
        ExprView::Sin(_) => None,
        ExprView::Cos(_) => None,
        ExprView::Tan(_) => None,
    }
}

/// Each operator combines the values of its operands as integer arithmetic, and
/// fails where the result leaves the range of `u32`: a sum is `a + b`, a difference
/// `a - b` (failing where `b > a`), a product `a * b`, a quotient the largest `q`
/// with `q * b <= a` (failing where `b` is 0), a power `a` multiplied `b` times;
/// functions do not evaluate, and a variable is its value
pub proof fn lemma_eval_operators(
    l: ExprView<u32>,
    r: ExprView<u32>,
    vars: Map<Seq<char>, u32>,
    a: u32,
    b: u32,
)
    requires
        spec_eval(l, vars) == Some(a),
        spec_eval(r, vars) == Some(b),
    ensures
        spec_eval(ExprView::Add(Box::new(l), Box::new(r)), vars) is None <==> a + b > u32::MAX,
        spec_eval(ExprView::Add(Box::new(l), Box::new(r)), vars) matches Some(v) ==> v == a + b,
        spec_eval(ExprView::Sub(Box::new(l), Box::new(r)), vars) is None <==> b > a,
        spec_eval(ExprView::Sub(Box::new(l), Box::new(r)), vars) matches Some(v) ==> v + b == a,
        spec_eval(ExprView::Mul(Box::new(l), Box::new(r)), vars) is None <==> a * b > u32::MAX,
        spec_eval(ExprView::Mul(Box::new(l), Box::new(r)), vars) matches Some(v) ==> v == a * b,
        spec_eval(ExprView::Div(Box::new(l), Box::new(r)), vars) is None <==> b == 0,
        spec_eval(ExprView::Div(Box::new(l), Box::new(r)), vars) matches Some(v) ==> v * b <= a
            < v * b + b,
        spec_eval(ExprView::Pow(Box::new(l), Box::new(r)), vars) matches Some(v) ==> v == power(
            a as int,
            b as nat,
        ),
        spec_eval(ExprView::Pow(Box::new(l), Box::new(r)), vars) is None <==> power(
            a as int,
            b as nat,
        ) > u32::MAX,
        spec_eval(ExprView::Sin(Box::new(l)), vars) is None,
        spec_eval(ExprView::Cos(Box::new(l)), vars) is None,
        spec_eval(ExprView::Tan(Box::new(l)), vars) is None,
{
    lemma_power_nonneg(a as int, b as nat);
    if b != 0 {
        let q = (a / b) as int;
        assert(q * b <= a < q * b + b) by (nonlinear_arith)
            requires
                q == a as int / b as int,
                b > 0,
                a >= 0,
        ;
    }
}

/// A number is its own value, and a variable evaluates to its value where it is set
pub proof fn lemma_eval_leaves(n: u32, name: Seq<char>, vars: Map<Seq<char>, u32>)
    ensures
        spec_eval(ExprView::Val(n), vars) == Some(n),
        vars.contains_key(name) ==> spec_eval(ExprView::Ident(name), vars) == Some(vars[name]),
        !vars.contains_key(name) ==> spec_eval(ExprView::Ident(name), vars) is None,
{
}

/// Powers multiply: `b^(i + 1)` is `b^i * b`, and `b^0` is 1
pub proof fn lemma_power_steps(b: int, i: nat)
    ensures
        power(b, 0) == 1,
        power(b, i + 1) == power(b, i) * b,
{
    assert(power(b, i + 1) == b * power(b, i));
    assert(b * power(b, i) == power(b, i) * b) by (nonlinear_arith);
}

impl Expression<u32> {
    /// Evaluate the expression, or `None` where evaluation fails
    pub fn try_eval(&self, ctx: &Variables<u32>) -> (res: Option<u32>)
        ensures
            res == spec_eval(self@, ctx.map()),
        decreases self,
    {
        match self {
            Expression::Val(n) => Some(*n),
            Expression::Ident(k) => match ctx.get(k) {
                Some(v) => Some(*v),
                None => None,
            },
            Expression::Add(l, r) => {
                let a = l.try_eval(ctx);
                let b = r.try_eval(ctx);
                match (a, b) {
                    (Some(a), Some(b)) => a.checked_add(b),
                    _ => None,
                }
            },
            Expression::Sub(l, r) => {
                let a = l.try_eval(ctx);
                let b = r.try_eval(ctx);
                match (a, b) {
                    (Some(a), Some(b)) => a.checked_sub(b),
                    _ => None,
                }
            },
            Expression::Mul(l, r) => {
                let a = l.try_eval(ctx);
                let b = r.try_eval(ctx);
                match (a, b) {
                    (Some(a), Some(b)) => a.checked_mul(b),
                    _ => None,
                }
            },
            Expression::Div(l, r) => {
                let a = l.try_eval(ctx);
                let b = r.try_eval(ctx);
                match (a, b) {
                    (Some(a), Some(b)) => if b != 0 {
                        Some(a / b)
                    } else {
                        None
                    },
                    _ => None,
                }
            },
            Expression::Pow(l, r) => {
                let a = l.try_eval(ctx);
                let b = r.try_eval(ctx);
                match (a, b) {
                    (Some(a), Some(b)) => checked_pow(a, b),
                    _ => None,
                }
            },
            Expression::Sin(_) => None,
            Expression::Cos(_) => None,
            Expression::Tan(_) => None,
        }
    }
}

impl EvalTrait<Variables<u32>> for Expression<u32> {
    type Eval = u32;

    open spec fn eval_defined(&self, ctx: &Variables<u32>) -> bool {
        spec_eval(self@, ctx.map()) is Some
    }

    open spec fn eval_value(&self, ctx: &Variables<u32>) -> u32 {
        spec_eval(self@, ctx.map()).unwrap()
    }

    fn eval(&self, ctx: &Variables<u32>) -> (res: u32) {
        match self.try_eval(ctx) {
            Some(v) => v,
            None => {
                proof {
                    assert(false);
                }
                vstd::pervasive::unreached()
            },
        }
    }
}

} // verus!
