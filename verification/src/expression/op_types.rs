use vstd::prelude::*;

use super::eval::EvalTrait;
use super::variables::Variables;

verus! {

/// The sum of two evaluable values
#[derive(Debug, Default, Copy, Clone, PartialEq, Eq, PartialOrd, Ord, Hash)]
pub struct Add<A, B = A>(pub A, pub B);

impl<C, A: EvalTrait<C, Eval = u32>, B: EvalTrait<C, Eval = u32>> EvalTrait<C> for Add<A, B> {
    type Eval = u32;

    open spec fn eval_defined(&self, ctx: &C) -> bool {
        &&& self.0.eval_defined(ctx)
        &&& self.1.eval_defined(ctx)
        &&& self.0.eval_value(ctx) + self.1.eval_value(ctx) <= u32::MAX
    }

    open spec fn eval_value(&self, ctx: &C) -> u32 {
        (self.0.eval_value(ctx) + self.1.eval_value(ctx)) as u32
    }

    fn eval(&self, ctx: &C) -> (res: u32) {
        self.0.eval(ctx) + self.1.eval(ctx)
    }
}

/// A variable, looked up in the context by its name
#[derive(Debug, Default, Clone, PartialEq, Eq, PartialOrd, Ord, Hash)]
pub struct Var<K>(pub K);

impl<T: Copy> EvalTrait<Variables<T>> for Var<String> {
    type Eval = T;

    open spec fn eval_defined(&self, ctx: &Variables<T>) -> bool {
        ctx.map().contains_key(self.0@)
    }

    open spec fn eval_value(&self, ctx: &Variables<T>) -> T {
        ctx.map()[self.0@]
    }

    fn eval(&self, ctx: &Variables<T>) -> (res: T) {
        match ctx.get(&self.0) {
            Some(v) => *v,
            None => {
                proof {
                    assert(false);
                }
                vstd::pervasive::unreached()
            },
        }
    }
}

} // verus!
