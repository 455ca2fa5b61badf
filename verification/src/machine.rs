//! The evaluator as a mathematical object: two stacks, and what each step
//! does to them.

use vstd::prelude::*;
use crate::arith::applied;
use crate::error::Error;
use crate::op::{precedence, OpKind};
use crate::token::Token;

verus! {

/// The operand stack and the operator stack. The last element of each
/// sequence is the top of that stack.
pub struct Stacks {
    pub nums: Seq<i32>,
    pub ops: Seq<OpKind>,
}

/// The stacks that a step leaves, and whether the step succeeded.
pub type Step = (Stacks, Result<(), Error>);

impl Stacks {
    /// Two empty stacks.
    pub open spec fn empty() -> Stacks {
        Stacks { nums: Seq::empty(), ops: Seq::empty() }
    }

    /// These stacks with `n` pushed on the operand stack.
    pub open spec fn push_num(self, n: i32) -> Stacks {
        Stacks { nums: self.nums.push(n), ops: self.ops }
    }

    /// These stacks with `kind` pushed on the operator stack.
    pub open spec fn push_op(self, kind: OpKind) -> Stacks {
        Stacks { nums: self.nums, ops: self.ops.push(kind) }
    }

    /// One reduction: the two topmost operands and the topmost operator are
    /// popped, and `left OP right` is pushed, where `left` is the operand
    /// that was pushed earlier.
    ///
    /// With fewer than two operands or without an operator the reduction is
    /// refused: it fails with `NotEnoughElements`, and both stacks stay as
    /// they are. Where the operator cannot be applied, the step fails with
    /// the error of `applied`, and the operator and both operands are gone.
    pub open spec fn reduce(self) -> Step {
        let n = self.nums.len() as int;
        if n < 2 || self.ops.len() == 0 {
            (self, Err(Error::NotEnoughElements))
        } else {
            let rest = Stacks { nums: self.nums.take(n - 2), ops: self.ops.drop_last() };
            match applied(self.ops.last(), self.nums[n - 2], self.nums[n - 1]) {
                Ok(v) => (rest.push_num(v), Ok(())),
                Err(e) => (rest, Err(e)),
            }
        }
    }

    /// Queues an operator: reduces as long as the operator stack is not
    /// empty and its top has a precedence greater than or equal to that of
    /// `kind`, then pushes `kind`. A reduction that fails ends the step, and
    /// `kind` is not pushed.
    pub open spec fn offer(self, kind: OpKind) -> Step
        decreases self.ops.len(),
    {
        if self.ops.len() > 0 && precedence(self.ops.last()) >= precedence(kind) {
            let (next, r) = self.reduce();
            if r is Ok {
                next.offer(kind)
            } else {
                (next, r)
            }
        } else {
            (self.push_op(kind), Ok(()))
        }
    }

    /// Takes one token: an operand is pushed, an operator is queued.
    pub open spec fn feed(self, token: Token) -> Step {
        match token {
            Token::Number(n) => (self.push_num(n), Ok(())),
            Token::Operator(kind) => self.offer(kind),
        }
    }

    /// Takes the tokens in order, up to and including the first that fails.
    pub open spec fn run(self, tokens: Seq<Token>) -> Step
        decreases tokens.len(),
    {
        if tokens.len() == 0 {
            (self, Ok(()))
        } else {
            let (next, r) = self.feed(tokens.first());
            if r is Ok {
                next.run(tokens.drop_first())
            } else {
                (next, r)
            }
        }
    }

    /// Reduces until the operator stack is empty or a reduction fails.
    pub open spec fn drain(self) -> Step
        decreases self.ops.len(),
    {
        if self.ops.len() == 0 {
            (self, Ok(()))
        } else {
            let (next, r) = self.reduce();
            if r is Ok {
                next.drain()
            } else {
                (next, r)
            }
        }
    }

    /// The value of a finished evaluation: the one operand that is left.
    /// With no operand or more than one it is `StackUnderflow`.
    pub open spec fn value(self) -> Result<i32, Error> {
        if self.nums.len() == 1 {
            Ok(self.nums[0])
        } else {
            Err(Error::StackUnderflow)
        }
    }

    /// Drains these stacks and takes the value of what is left.
    pub open spec fn finish(self) -> (Stacks, Result<i32, Error>) {
        let (drained, r) = self.drain();
        match r {
            Ok(_) => (drained, drained.value()),
            Err(e) => (drained, Err(e)),
        }
    }

    /// The result of an evaluation that goes on from these stacks: the
    /// tokens are taken in order, and the evaluation is finished.
    pub open spec fn complete(self, tokens: Seq<Token>) -> Result<i32, Error> {
        let (fed, r) = self.run(tokens);
        match r {
            Ok(_) => fed.finish().1,
            Err(e) => Err(e),
        }
    }
}

/// The result of evaluating `tokens` from empty stacks: the tokens are taken
/// in order, the pending operators are drained, and the single operand that
/// is left is the value. The first step that fails gives the error.
pub open spec fn outcome(tokens: Seq<Token>) -> Result<i32, Error> {
    Stacks::empty().complete(tokens)
}

/// An expression of two operands with one operator between them has the
/// value of that operator applied to the left and the right operand, in
/// this order; where the operator cannot be applied, it has that error.
pub proof fn lemma_single_operator(a: i32, kind: OpKind, b: i32)
    ensures
        outcome(seq![Token::Number(a), Token::Operator(kind), Token::Number(b)]) == applied(
            kind,
            a,
            b,
        ),
{
    let tokens = seq![Token::Number(a), Token::Operator(kind), Token::Number(b)];
    let s1 = Stacks::empty().push_num(a);
    let s2 = s1.push_op(kind);
    let s3 = s2.push_num(b);
    let t1 = tokens.drop_first();
    let t2 = t1.drop_first();
    let t3 = t2.drop_first();
    // The three tokens are pushed, and nothing is reduced.
    assert(s1.run(t1) == s2.run(t2));
    assert(s3.run(t3) == (s3, Ok::<(), Error>(())));
    // Draining is one reduction.
    let (s4, r) = s3.reduce();
    if r is Ok {
        assert(s4.drain() == (s4, Ok::<(), Error>(())));
    }
}

/// An operator that no operand follows, at the start or after a single
/// operand, makes the evaluation fail with `NotEnoughElements`.
pub proof fn lemma_dangling_operator(a: i32, kind: OpKind)
    ensures
        outcome(seq![Token::Operator(kind)]) == Err::<i32, Error>(Error::NotEnoughElements),
        outcome(seq![Token::Number(a), Token::Operator(kind)]) == Err::<i32, Error>(
            Error::NotEnoughElements,
        ),
{
    let lone = seq![Token::Operator(kind)];
    let s1 = Stacks::empty().push_op(kind);
    assert(s1.run(lone.drop_first()) == (s1, Ok::<(), Error>(())));

    let after = seq![Token::Number(a), Token::Operator(kind)];
    let rest = after.drop_first();
    let s2 = Stacks::empty().push_num(a);
    let s3 = s2.push_op(kind);
    assert(s2.run(rest) == s3.run(rest.drop_first()));
}

/// No tokens, no value: the evaluation of the empty sequence fails with
/// `StackUnderflow`. So does that of operands alone, where there are two or
/// more of them.
pub proof fn lemma_operands_alone(nums: Seq<i32>)
    ensures
        outcome(nums.map_values(|n: i32| Token::Number(n))) == if nums.len() == 1 {
            Ok::<i32, Error>(nums[0])
        } else {
            Err::<i32, Error>(Error::StackUnderflow)
        },
{
    lemma_push_all(Stacks::empty(), nums);
    assert(Seq::<i32>::empty() + nums =~= nums);
}

/// Feeding operands alone pushes them in order.
proof fn lemma_push_all(st: Stacks, nums: Seq<i32>)
    ensures
        st.run(nums.map_values(|n: i32| Token::Number(n))) == (
            Stacks { nums: st.nums + nums, ops: st.ops },
            Ok::<(), Error>(()),
        ),
    decreases nums.len(),
{
    let tokens = nums.map_values(|n: i32| Token::Number(n));
    if nums.len() == 0 {
        assert(st.nums + nums =~= st.nums);
    } else {
        let next = st.push_num(nums.first());
        assert(tokens.drop_first() =~= nums.drop_first().map_values(|n: i32| Token::Number(n)));
        lemma_push_all(next, nums.drop_first());
        assert(next.nums + nums.drop_first() =~= st.nums + nums);
    }
}

/// The result of an evaluation that starts from empty stacks depends on the
/// tokens alone: whichever empty stacks it starts from, it is the outcome
/// of the tokens.
pub proof fn lemma_fresh_stacks_agree(a: Stacks, b: Stacks, tokens: Seq<Token>)
    requires
        a.nums.len() == 0 && a.ops.len() == 0,
        b.nums.len() == 0 && b.ops.len() == 0,
    ensures
        a.complete(tokens) == outcome(tokens),
        b.complete(tokens) == outcome(tokens),
{
    assert(a.nums =~= Seq::empty() && a.ops =~= Seq::empty());
    assert(b.nums =~= Seq::empty() && b.ops =~= Seq::empty());
}

} // verus!
