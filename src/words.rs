//! The execution environment: an operand stack and the values printed so far,
//! with one primitive per instruction. No primitive fails: a missing operand is
//! taken as zero.
use vstd::prelude::*;

use crate::ast::float::{Float, is_zero_bits, index_of};

verus! {

/// The value on top of a stack, or zero when it is empty.
pub open spec fn top_or_zero(s: Seq<Float>) -> Float {
    if s.len() == 0 {
        Float::zero_spec()
    } else {
        s.last()
    }
}

/// A stack with its top removed; an empty stack stays empty.
pub open spec fn drop_top(s: Seq<Float>) -> Seq<Float> {
    if s.len() == 0 {
        s
    } else {
        s.drop_last()
    }
}

/// The state one run of a program owns.
pub struct Env {
    /// The operand stack; its last element is the top.
    pub stack: Vec<Float>,
    /// What `print` has emitted, in order.
    pub output: Vec<Float>,
}

impl Env {
    /// A fresh environment: empty stack, nothing printed.
    pub fn new() -> (r: Env)
        ensures
            r.stack@ == Seq::<Float>::empty(),
            r.output@ == Seq::<Float>::empty(),
    {
        Env { stack: Vec::new(), output: Vec::new() }
    }

    pub fn push(&mut self, item: Float)
        ensures
            final(self).stack@ == old(self).stack@.push(item),
            final(self).output@ == old(self).output@,
    {
        self.stack.push(item);
    }

    /// Removes and returns the top of the stack, or zero when it is empty.
    pub fn pop(&mut self) -> (r: Float)
        ensures
            r == top_or_zero(old(self).stack@),
            final(self).stack@ == drop_top(old(self).stack@),
            final(self).output@ == old(self).output@,
    {
        match self.stack.pop() {
            Some(x) => x,
            None => Float::zero(),
        }
    }

    /// Pops two values: the top first, then the one below it.
    pub fn get_ops(&mut self) -> (r: (Float, Float))
        ensures
            r.0 == top_or_zero(old(self).stack@),
            r.1 == top_or_zero(drop_top(old(self).stack@)),
            final(self).stack@ == drop_top(drop_top(old(self).stack@)),
            final(self).output@ == old(self).output@,
    {
        let first = self.pop();
        let second = self.pop();
        (first, second)
    }

    /// Pushes a literal.
    pub fn push_number(&mut self, number: Float)
        ensures
            final(self).stack@ == old(self).stack@.push(number),
            final(self).output@ == old(self).output@,
    {
        self.push(number);
    }

    /// Pops the right operand `b` (the top), then the left operand `a`, and
    /// returns `(a, b)`.
    fn operands(&mut self) -> (r: (Float, Float))
        ensures
            r.0 == top_or_zero(drop_top(old(self).stack@)),
            r.1 == top_or_zero(old(self).stack@),
            final(self).stack@ == drop_top(drop_top(old(self).stack@)),
            final(self).output@ == old(self).output@,
    {
        let (b, a) = self.get_ops();
        (a, b)
    }

    /// Pops the operands of `+`: returns `(a, b)`, whose sum `a + b` is the
    /// caller's to push, `b` being the value that was on top.
    pub fn add(&mut self) -> (r: (Float, Float))
        ensures
            r.0 == top_or_zero(drop_top(old(self).stack@)),
            r.1 == top_or_zero(old(self).stack@),
            final(self).stack@ == drop_top(drop_top(old(self).stack@)),
            final(self).output@ == old(self).output@,
    {
        self.operands()
    }

    /// Pops the operands of `-`: returns `(a, b)`, whose difference `a - b`
    /// is the caller's to push, `b` being the value that was on top.
    pub fn sub(&mut self) -> (r: (Float, Float))
        ensures
            r.0 == top_or_zero(drop_top(old(self).stack@)),
            r.1 == top_or_zero(old(self).stack@),
            final(self).stack@ == drop_top(drop_top(old(self).stack@)),
            final(self).output@ == old(self).output@,
    {
        self.operands()
    }

    /// Pops the operands of `*`: returns `(a, b)`, whose product `a * b` is
    /// the caller's to push, `b` being the value that was on top.
    pub fn mul(&mut self) -> (r: (Float, Float))
        ensures
            r.0 == top_or_zero(drop_top(old(self).stack@)),
            r.1 == top_or_zero(old(self).stack@),
            final(self).stack@ == drop_top(drop_top(old(self).stack@)),
            final(self).output@ == old(self).output@,
    {
        self.operands()
    }

    /// Pops the divisor `b`, then the dividend `a`. When `b` is zero, pushes
    /// zero and returns `None`; otherwise returns `Some((a, b))`, whose
    /// quotient `a / b` is the caller's to push.
    pub fn div(&mut self) -> (r: Option<(Float, Float)>)
        ensures
            ({
                let s = old(self).stack@;
                let b = top_or_zero(s);
                let a = top_or_zero(drop_top(s));
                let rest = drop_top(drop_top(s));
                &&& final(self).output@ == old(self).output@
                &&& is_zero_bits(b.0) ==> r is None && final(self).stack@ == rest.push(
                    Float::zero_spec(),
                )
                &&& !is_zero_bits(b.0) ==> r == Some((a, b)) && final(self).stack@ == rest
            }),
    {
        let (a, b) = self.operands();
        if b.is_zero() {
            self.push(Float::zero());
            None
        } else {
            Some((a, b))
        }
    }

    /// Pops the top and pushes it back twice.
    pub fn dup(&mut self)
        ensures
            ({
                let s = old(self).stack@;
                final(self).stack@ == drop_top(s).push(top_or_zero(s)).push(top_or_zero(s))
            }),
            final(self).output@ == old(self).output@,
    {
        let to_dup = self.pop();
        self.push(to_dup);
        self.push(to_dup);
    }

    /// Exchanges the two top values.
    pub fn swp(&mut self)
        ensures
            ({
                let s = old(self).stack@;
                final(self).stack@ == drop_top(drop_top(s)).push(top_or_zero(s)).push(
                    top_or_zero(drop_top(s)),
                )
            }),
            final(self).output@ == old(self).output@,
    {
        let (first, second) = self.get_ops();
        self.push(first);
        self.push(second);
    }

    /// Pops the jump target `t`, then the condition `c`. When `c` is not
    /// zero, sets `reg` to `t` as an index and returns `true`; otherwise
    /// leaves `reg` as it was and returns `false`.
    pub fn jnz(&mut self, reg: &mut usize) -> (jumped: bool)
        ensures
            ({
                let s = old(self).stack@;
                let t = top_or_zero(s);
                let c = top_or_zero(drop_top(s));
                &&& final(self).stack@ == drop_top(drop_top(s))
                &&& final(self).output@ == old(self).output@
                &&& jumped == !is_zero_bits(c.0)
                &&& jumped ==> *final(reg) as nat == index_of(t.0)
                &&& !jumped ==> *final(reg) == *old(reg)
            }),
    {
        let (t, c) = self.get_ops();
        if !c.is_zero() {
            *reg = t.to_index();
            true
        } else {
            false
        }
    }

    /// Pops the top and appends it to the output.
    pub fn print_float(&mut self)
        ensures
            final(self).stack@ == drop_top(old(self).stack@),
            final(self).output@ == old(self).output@.push(top_or_zero(old(self).stack@)),
    {
        let popped = self.pop();
        self.output.push(popped);
    }
}

} // verus!
