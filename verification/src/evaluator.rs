//! The executable two-stack evaluator.

use vstd::prelude::*;
use crate::arith::apply;
use crate::error::Error;
use crate::machine::Stacks;
use crate::op::{precedence, Op, OpKind};
use crate::token::Token;

verus! {

/// An operand stack and an operator stack. Its view is the pair of stacks
/// as sequences, the operators by their kinds.
pub struct Evaluator {
    nums: Vec<i32>,
    ops: Vec<Op>,
}

/// The kinds of a sequence of operators.
spec fn kinds(ops: Seq<Op>) -> Seq<OpKind> {
    ops.map_values(|op: Op| op@)
}

impl View for Evaluator {
    type V = Stacks;

    closed spec fn view(&self) -> Stacks {
        Stacks { nums: self.nums@, ops: kinds(self.ops@) }
    }
}

impl Evaluator {
    /// An evaluator with both stacks empty.
    pub fn new() -> (ev: Self)
        ensures
            ev@ == Stacks::empty(),
    {
        let ev = Evaluator { nums: Vec::new(), ops: Vec::new() };
        assert(ev@.ops =~= Seq::empty());
        ev
    }

    /// Performs one reduction: pops two operands and one operator and
    /// pushes `left OP right`, where `left` is the operand pushed earlier.
    ///
    /// With fewer than two operands or without an operator nothing is
    /// popped, and the result is `NotEnoughElements`.
    pub fn evaluate(&mut self) -> (r: Result<(), Error>)
        ensures
            (final(self)@, r) == old(self)@.reduce(),
            old(self)@.nums.len() < 2 || old(self)@.ops.len() == 0 ==> r == Err::<(), Error>(
                Error::NotEnoughElements,
            ) && final(self)@ == old(self)@,
    {
        if self.nums.len() < 2 || self.ops_empty() {
            return Err(Error::NotEnoughElements);
        }
        let rhs = self.pop_num().unwrap();
        let lhs = self.pop_num().unwrap();
        let op = self.pop_op().unwrap();
        assert(self@.nums =~= old(self)@.nums.take(old(self)@.nums.len() - 2));
        match apply(op.kind(), lhs, rhs) {
            Ok(val) => {
                self.push_num(val);
                Ok(())
            },
            Err(e) => Err(e),
        }
    }

    /// Queues `op`: reduces while the operator stack is not empty and its
    /// top has a precedence greater than or equal to that of `op`, then
    /// pushes `op`. Stops at the first reduction that fails.
    pub fn push_operator(&mut self, op: Op) -> (r: Result<(), Error>)
        ensures
            (final(self)@, r) == old(self)@.offer(op@),
    {
        while !self.ops_empty()
            invariant
                self@.offer(op@) == old(self)@.offer(op@),
            ensures
                self@.offer(op@) == old(self)@.offer(op@),
                self@.ops.len() == 0 || precedence(self@.ops.last()) < precedence(op@),
            decreases self@.ops.len(),
        {
            let top_prec = match self.top_op() {
                Some(top) => top.prec(),
                None => 0,
            };
            if top_prec < op.prec() {
                break ;
            }
            let r = self.evaluate();
            if r.is_err() {
                return r;
            }
        }
        self.push_op(op);
        Ok(())
    }

    /// Takes one token: pushes an operand, queues an operator.
    pub fn feed(&mut self, token: Token) -> (r: Result<(), Error>)
        ensures
            (final(self)@, r) == old(self)@.feed(token),
    {
        match token {
            Token::Number(n) => {
                self.push_num(n);
                Ok(())
            },
            Token::Operator(kind) => self.push_operator(Op::new(kind)),
        }
    }

    /// Reduces until the operator stack is empty or a reduction fails.
    pub fn drain(&mut self) -> (r: Result<(), Error>)
        ensures
            (final(self)@, r) == old(self)@.drain(),
    {
        while !self.ops_empty()
            invariant
                self@.drain() == old(self)@.drain(),
            decreases self@.ops.len(),
        {
            let r = self.evaluate();
            if r.is_err() {
                return r;
            }
        }
        Ok(())
    }

    /// Ends an evaluation: drains the pending operators and returns the
    /// single operand that is left.
    pub fn finish(&mut self) -> (r: Result<i32, Error>)
        ensures
            (final(self)@, r) == old(self)@.finish(),
    {
        match self.drain() {
            Ok(_) => {
                if self.nums.len() == 1 {
                    Ok(self.nums[0])
                } else {
                    Err(Error::StackUnderflow)
                }
            },
            Err(e) => Err(e),
        }
    }

    /// Whether the operator stack is empty.
    pub fn ops_empty(&self) -> (b: bool)
        ensures
            b == (self@.ops.len() == 0),
    {
        self.ops.len() == 0
    }

    /// Pushes `op` on the operator stack, without reducing anything.
    pub fn push_op(&mut self, op: Op)
        ensures
            final(self)@ == old(self)@.push_op(op@),
    {
        self.ops.push(op);
        assert(self@.ops =~= old(self)@.ops.push(op@));
    }

    /// Pops the top of the operator stack, if there is one.
    pub fn pop_op(&mut self) -> (op: Option<Op>)
        ensures
            old(self)@.ops.len() == 0 ==> op is None && final(self)@ == old(self)@,
            old(self)@.ops.len() > 0 ==> op is Some && op->0@ == old(self)@.ops.last()
                && final(self)@ == (Stacks {
                nums: old(self)@.nums,
                ops: old(self)@.ops.drop_last(),
            }),
    {
        let op = self.ops.pop();
        assert(self@.ops =~= if old(self)@.ops.len() > 0 {
            old(self)@.ops.drop_last()
        } else {
            old(self)@.ops
        });
        op
    }

    /// The top of the operator stack, if there is one.
    pub fn top_op(&self) -> (op: Option<&Op>)
        ensures
            self@.ops.len() == 0 ==> op is None,
            self@.ops.len() > 0 ==> op is Some && op->0@ == self@.ops.last(),
    {
        self.ops.last()
    }

    /// Pushes `n` on the operand stack.
    pub fn push_num(&mut self, n: i32)
        ensures
            final(self)@ == old(self)@.push_num(n),
    {
        self.nums.push(n);
    }

    /// Pops the top of the operand stack, if there is one.
    pub fn pop_num(&mut self) -> (n: Option<i32>)
        ensures
            old(self)@.nums.len() == 0 ==> n is None && final(self)@ == old(self)@,
            old(self)@.nums.len() > 0 ==> n == Some(old(self)@.nums.last()) && final(self)@ == (
            Stacks { nums: old(self)@.nums.drop_last(), ops: old(self)@.ops }),
    {
        self.nums.pop()
    }

    /// The top of the operand stack, if there is one.
    pub fn top_num(&self) -> (n: Option<&i32>)
        ensures
            self@.nums.len() == 0 ==> n is None,
            self@.nums.len() > 0 ==> n == Some(&self@.nums.last()),
    {
        self.nums.last()
    }
}

} // verus!
