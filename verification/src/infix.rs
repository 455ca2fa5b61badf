//! The meaning of an infix expression by the usual rules of arithmetic, and
//! the proof that the evaluator computes it.

use vstd::prelude::*;
use crate::arith::applied;
use crate::error::Error;
use crate::machine::{outcome, Stacks};
use crate::op::OpKind;
use crate::token::Token;

verus! {

/// Whether `kind` is `+` or `-`.
pub open spec fn is_additive(kind: OpKind) -> bool {
    kind == OpKind::Plus || kind == OpKind::Minus
}

/// Whether `kind` is `*` or `/`.
pub open spec fn is_multiplicative(kind: OpKind) -> bool {
    kind == OpKind::Multiply || kind == OpKind::Divide
}

/// Whether `nums` and `ops` make an infix expression
/// `nums[0] ops[0] nums[1] ... ops[n - 1] nums[n]`: there is one operand
/// more than there are operators, and every operator is one of `+ - * /`.
pub open spec fn is_infix(nums: Seq<i32>, ops: Seq<OpKind>) -> bool {
    &&& nums.len() == ops.len() + 1
    &&& forall|i: int|
        0 <= i < ops.len() ==> is_additive(#[trigger] ops[i]) || is_multiplicative(ops[i])
}

/// The tokens of the infix expression, in the order of the source:
/// operands at the even places, operators at the odd ones.
pub open spec fn infix_tokens(nums: Seq<i32>, ops: Seq<OpKind>) -> Seq<Token> {
    Seq::new(
        (2 * ops.len() + 1) as nat,
        |i: int|
            if i % 2 == 0 {
                Token::Number(nums[i / 2])
            } else {
                Token::Operator(ops[i / 2])
            },
    )
}

/// The value of `nums[from] ops[from] ... ops[to - 1] nums[to]` taken from
/// left to right, each operator applied to what stands left of it and to
/// the operand that follows it. The leftmost application that fails gives
/// the error.
pub open spec fn chain(nums: Seq<i32>, ops: Seq<OpKind>, from: int, to: int) -> Result<i32, Error>
    decreases to - from,
{
    if to <= from {
        Ok(nums[from])
    } else {
        match chain(nums, ops, from, to - 1) {
            Ok(left) => applied(ops[to - 1], left, nums[to]),
            Err(e) => Err(e),
        }
    }
}

/// The place of the last `+` or `-` among the first `n` operators, or `-1`
/// where there is none.
pub open spec fn last_additive(ops: Seq<OpKind>, n: int) -> int
    decreases n,
{
    if n <= 0 {
        -1
    } else if is_additive(ops[n - 1]) {
        n - 1
    } else {
        last_additive(ops, n - 1)
    }
}

/// The value, by the usual rules, of the expression made of the first `n`
/// operators and the `n + 1` operands around them. Without a `+` or `-` it
/// is a chain of `*` and `/`, taken from left to right. Otherwise the last
/// `+` or `-` is applied to the value of all that stands left of it and to
/// the chain of `*` and `/` that stands right of it. Of the applications
/// that fail, the one that comes first when the left side is computed
/// before the right side gives the error.
pub open spec fn value_upto(nums: Seq<i32>, ops: Seq<OpKind>, n: int) -> Result<i32, Error>
    decreases n,
    via value_upto_decreases
{
    let k = last_additive(ops, n);
    if k < 0 {
        chain(nums, ops, 0, n)
    } else {
        match value_upto(nums, ops, k) {
            Ok(left) => match chain(nums, ops, k + 1, n) {
                Ok(right) => applied(ops[k], left, right),
                Err(e) => Err(e),
            },
            Err(e) => Err(e),
        }
    }
}

/// The value of the infix expression `nums[0] ops[0] nums[1] ...` by the
/// usual rules of arithmetic: `*` and `/` bind tighter than `+` and `-`, and
/// operators of equal rank are applied from left to right.
pub open spec fn meaning(nums: Seq<i32>, ops: Seq<OpKind>) -> Result<i32, Error> {
    value_upto(nums, ops, ops.len() as int)
}

#[via_fn]
proof fn value_upto_decreases(nums: Seq<i32>, ops: Seq<OpKind>, n: int) {
    lemma_last_additive_below(ops, n);
}

/// The last `+` or `-` among the first `n` operators stands before place
/// `n`.
proof fn lemma_last_additive_below(ops: Seq<OpKind>, n: int)
    ensures
        last_additive(ops, n) == -1 || 0 <= last_additive(ops, n) < n,
    decreases n,
{
    if n > 0 && !is_additive(ops[n - 1]) {
        lemma_last_additive_below(ops, n - 1);
    }
}

/// The last `+` or `-` among the first `n` operators stands before place
/// `n`, and only `*` and `/` stand between it and place `n`.
pub proof fn lemma_last_additive(ops: Seq<OpKind>, n: int)
    requires
        0 <= n <= ops.len(),
    ensures
        -1 <= last_additive(ops, n) < n,
        last_additive(ops, n) >= 0 ==> is_additive(ops[last_additive(ops, n)]),
        forall|i: int| last_additive(ops, n) < i < n ==> !is_additive(#[trigger] ops[i]),
    decreases n,
{
    if n > 0 && !is_additive(ops[n - 1]) {
        lemma_last_additive(ops, n - 1);
    }
}

/// A chain that fails goes on failing, with the same error, however far it
/// is continued to the right.
pub proof fn lemma_chain_error_stays(
    nums: Seq<i32>,
    ops: Seq<OpKind>,
    from: int,
    mid: int,
    to: int,
)
    requires
        from <= mid <= to,
        chain(nums, ops, from, mid) is Err,
    ensures
        chain(nums, ops, from, to) == chain(nums, ops, from, mid),
    decreases to - mid,
{
    if mid < to {
        lemma_chain_error_stays(nums, ops, from, mid, to - 1);
    }
}

/// An expression that fails goes on failing, with the same error, when it
/// is continued by a `+` or `-` and anything after that.
pub proof fn lemma_value_error_stays(nums: Seq<i32>, ops: Seq<OpKind>, i: int, n: int)
    requires
        0 <= i <= n <= ops.len(),
        i == n || is_additive(ops[i]),
        value_upto(nums, ops, i) is Err,
    ensures
        value_upto(nums, ops, n) == value_upto(nums, ops, i),
    decreases n,
{
    if i < n {
        lemma_last_additive(ops, n);
        let k = last_additive(ops, n);
        if k > i {
            lemma_value_error_stays(nums, ops, i, k);
        }
    }
}

/// A chain of `*` and `/` that fails makes the whole expression fail with
/// the same error, where all that stands left of the chain has a value.
proof fn lemma_chain_error_reaches_end(nums: Seq<i32>, ops: Seq<OpKind>, j: int, i: int)
    requires
        0 <= j <= i <= ops.len(),
        last_additive(ops, j) == last_additive(ops, i),
        last_additive(ops, j) >= 0 ==> value_upto(nums, ops, last_additive(ops, j)) is Ok,
        chain(nums, ops, last_additive(ops, j) + 1, j) is Err,
    ensures
        value_upto(nums, ops, ops.len() as int) == chain(
            nums,
            ops,
            last_additive(ops, j) + 1,
            j,
        ),
    decreases ops.len() - i,
{
    let k = last_additive(ops, j);
    lemma_last_additive(ops, j);
    lemma_last_additive(ops, i);
    lemma_chain_error_stays(nums, ops, k + 1, j, i);
    if i == ops.len() {
    } else if is_additive(ops[i]) {
        lemma_value_error_stays(nums, ops, i, ops.len() as int);
    } else {
        lemma_chain_error_reaches_end(nums, ops, j, i + 1);
    }
}

/// What lies at the bottom of the stacks after a `+` or `-` at place `k`:
/// the value of all that stands left of it, and that operator pending.
/// Nothing where `k` is negative.
spec fn below(nums: Seq<i32>, ops: Seq<OpKind>, k: int) -> Stacks {
    if k >= 0 {
        Stacks { nums: seq![value_upto(nums, ops, k)->Ok_0], ops: seq![ops[k]] }
    } else {
        Stacks::empty()
    }
}

/// What the stacks hold once the first `j` operators of an infix
/// expression and the `j + 1` operands around them were fed. Below lies,
/// where there was a `+` or `-`, the value of all that stands left of the
/// last of them, with that operator pending. Above lies the chain of `*`
/// and `/` that follows: its one operand, or the value of all but its last
/// operand, that operand, and its last operator pending.
spec fn fed_stacks(nums: Seq<i32>, ops: Seq<OpKind>, j: int) -> Stacks {
    let k = last_additive(ops, j);
    if j == k + 1 {
        below(nums, ops, k).push_num(nums[j])
    } else {
        below(nums, ops, k).push_num(chain(nums, ops, k + 1, j - 1)->Ok_0).push_num(
            nums[j],
        ).push_op(ops[j - 1])
    }
}

/// Whether what lies on the stacks after the first `j` operators was
/// computed without a failure.
spec fn fed_well(nums: Seq<i32>, ops: Seq<OpKind>, j: int) -> bool {
    let k = last_additive(ops, j);
    &&& k >= 0 ==> value_upto(nums, ops, k) is Ok
    &&& j > k + 1 ==> chain(nums, ops, k + 1, j - 1) is Ok
}

/// Reducing the pending `*` or `/`, where there is one, leaves the value of
/// the chain on top, or fails as the chain does.
proof fn lemma_reduce_chain(nums: Seq<i32>, ops: Seq<OpKind>, j: int)
    requires
        is_infix(nums, ops),
        0 <= j <= ops.len(),
        fed_well(nums, ops, j),
        j > last_additive(ops, j) + 1,
    ensures
        ({
            let k = last_additive(ops, j);
            let (next, r) = fed_stacks(nums, ops, j).reduce();
            match chain(nums, ops, k + 1, j) {
                Ok(v) => r is Ok && next == below(nums, ops, k).push_num(v),
                Err(e) => r == Err::<(), Error>(e),
            }
        }),
{
    let k = last_additive(ops, j);
    lemma_last_additive(ops, j);
    let st = fed_stacks(nums, ops, j);
    let n = st.nums.len() as int;
    assert(st.nums.take(n - 2) =~= below(nums, ops, k).nums);
    assert(st.ops.drop_last() =~= below(nums, ops, k).ops);
}

/// The stacks with the chain on top reduced to its value `v`: reducing the
/// pending `+` or `-`, where there is one, leaves the value of the
/// expression alone on the stacks, or fails as the expression does.
proof fn lemma_reduce_sum(nums: Seq<i32>, ops: Seq<OpKind>, j: int, v: i32)
    requires
        is_infix(nums, ops),
        0 <= j <= ops.len(),
        fed_well(nums, ops, j),
        chain(nums, ops, last_additive(ops, j) + 1, j) == Ok::<i32, Error>(v),
        last_additive(ops, j) >= 0,
    ensures
        ({
            let k = last_additive(ops, j);
            let (next, r) = below(nums, ops, k).push_num(v).reduce();
            match value_upto(nums, ops, j) {
                Ok(w) => r is Ok && next == Stacks::empty().push_num(w),
                Err(e) => r == Err::<(), Error>(e),
            }
        }),
{
    let k = last_additive(ops, j);
    lemma_last_additive(ops, j);
    let st = below(nums, ops, k).push_num(v);
    assert(st.nums.take(0) =~= Seq::empty());
    assert(st.ops.drop_last() =~= Seq::empty());
}

/// Draining the stacks after the first `j` operators leaves the value of
/// the expression so far alone on them, or fails as that expression does.
/// Queueing a `+` or `-` does the same and then pushes the operator.
proof fn lemma_settle(nums: Seq<i32>, ops: Seq<OpKind>, j: int, kind: OpKind)
    requires
        is_infix(nums, ops),
        0 <= j <= ops.len(),
        fed_well(nums, ops, j),
        is_additive(kind),
    ensures
        ({
            let st = fed_stacks(nums, ops, j);
            match value_upto(nums, ops, j) {
                Ok(w) => {
                    &&& st.drain() == (Stacks::empty().push_num(w), Ok::<(), Error>(()))
                    &&& st.offer(kind) == (
                        Stacks::empty().push_num(w).push_op(kind),
                        Ok::<(), Error>(()),
                    )
                },
                Err(e) => st.drain().1 == Err::<(), Error>(e) && st.offer(kind).1 == Err::<
                    (),
                    Error,
                >(e),
            }
        }),
{
    let k = last_additive(ops, j);
    lemma_last_additive(ops, j);
    let st = fed_stacks(nums, ops, j);
    // First the chain on top is reduced, where an operator is pending there.
    let s1 = if j > k + 1 {
        lemma_reduce_chain(nums, ops, j);
        st.reduce().0
    } else {
        st
    };
    // Then the sum below it, where there is one.
    if chain(nums, ops, k + 1, j) is Ok && k >= 0 {
        lemma_reduce_sum(nums, ops, j, chain(nums, ops, k + 1, j)->Ok_0);
        let (s2, r2) = s1.reduce();
        if r2 is Ok {
            assert(s2.drain() == (s2, Ok::<(), Error>(())));
            assert(s2.offer(kind) == (s2.push_op(kind), Ok::<(), Error>(())));
        } else {
            assert(s1.drain().1 == r2);
            assert(s1.offer(kind).1 == r2);
        }
    }
}

/// Feeding operator `j` and the operand after it to the stacks that hold
/// the first `j` operators gives the stacks that hold the first `j + 1`, or
/// fails as the whole expression does.
proof fn lemma_feed_pair(nums: Seq<i32>, ops: Seq<OpKind>, j: int)
    requires
        is_infix(nums, ops),
        0 <= j < ops.len(),
        fed_well(nums, ops, j),
    ensures
        ({
            let (next, r) = fed_stacks(nums, ops, j).offer(ops[j]);
            match r {
                Ok(_) => fed_well(nums, ops, j + 1) && next.push_num(nums[j + 1]) == fed_stacks(
                    nums,
                    ops,
                    j + 1,
                ),
                Err(e) => meaning(nums, ops) == Err::<i32, Error>(e),
            }
        }),
{
    let k = last_additive(ops, j);
    lemma_last_additive(ops, j);
    lemma_last_additive(ops, j + 1);
    let st = fed_stacks(nums, ops, j);
    if is_additive(ops[j]) {
        // All that is pending has a rank of at least that of `ops[j]`.
        lemma_settle(nums, ops, j, ops[j]);
        if value_upto(nums, ops, j) is Err {
            lemma_value_error_stays(nums, ops, j, ops.len() as int);
        }
    } else {
        // Only a pending `*` or `/` has a rank of at least that of `ops[j]`.
        let s1 = if j > k + 1 {
            lemma_reduce_chain(nums, ops, j);
            st.reduce().0
        } else {
            st
        };
        if chain(nums, ops, k + 1, j) is Err {
            lemma_chain_error_reaches_end(nums, ops, j, j);
        } else {
            assert(s1.offer(ops[j]) == (s1.push_op(ops[j]), Ok::<(), Error>(())));
        }
    }
}

/// Going on from the stacks that hold the first `j` operators with the rest
/// of the tokens gives the value of the whole expression.
proof fn lemma_complete_from(nums: Seq<i32>, ops: Seq<OpKind>, j: int)
    requires
        is_infix(nums, ops),
        0 <= j <= ops.len(),
        fed_well(nums, ops, j),
    ensures
        fed_stacks(nums, ops, j).complete(infix_tokens(nums, ops).skip(2 * j + 1)) == meaning(
            nums,
            ops,
        ),
    decreases ops.len() - j,
{
    let st = fed_stacks(nums, ops, j);
    let tokens = infix_tokens(nums, ops);
    let rest = tokens.skip(2 * j + 1);
    if j == ops.len() {
        // No token is left: the stacks are drained.
        lemma_settle(nums, ops, j, OpKind::Plus);
    } else {
        // The next two tokens are operator `j` and the operand after it.
        let after_op = rest.drop_first();
        assert(after_op.drop_first() =~= tokens.skip(2 * (j + 1) + 1));
        lemma_feed_pair(nums, ops, j);
        let (next, r) = st.offer(ops[j]);
        if r is Ok {
            assert(next.run(after_op) == next.push_num(nums[j + 1]).run(after_op.drop_first()));
            lemma_complete_from(nums, ops, j + 1);
        }
    }
}

/// The evaluator computes the usual meaning of every infix expression: its
/// result on the tokens of `nums[0] ops[0] nums[1] ...` is the value that
/// the rules of arithmetic give, `*` and `/` before `+` and `-` and equal
/// ranks from left to right; and where an application fails, on a zero
/// divisor or a value outside the operand range, the evaluation fails with
/// the error of the first that does.
pub proof fn lemma_outcome_is_meaning(nums: Seq<i32>, ops: Seq<OpKind>)
    requires
        is_infix(nums, ops),
    ensures
        outcome(infix_tokens(nums, ops)) == meaning(nums, ops),
{
    // The first token is an operand, and with it the stacks hold no operator.
    assert(Stacks::empty().push_num(nums[0]) == fed_stacks(nums, ops, 0));
    lemma_complete_from(nums, ops, 0);
}

/// Where all operators are `+` and `-`, the usual meaning of the first `n`
/// operators is the chain from left to right.
proof fn lemma_additive_chain(nums: Seq<i32>, ops: Seq<OpKind>, n: int)
    requires
        0 <= n <= ops.len(),
        forall|i: int| 0 <= i < ops.len() ==> is_additive(#[trigger] ops[i]),
    ensures
        value_upto(nums, ops, n) == chain(nums, ops, 0, n),
    decreases n,
{
    if n > 0 {
        lemma_additive_chain(nums, ops, n - 1);
    }
}

/// Operators of equal rank are applied from left to right: an expression
/// whose operators are all `+` and `-`, or all `*` and `/`, evaluates to
/// the chain `((nums[0] ops[0] nums[1]) ops[1] nums[2]) ...`.
pub proof fn lemma_equal_rank_left_to_right(nums: Seq<i32>, ops: Seq<OpKind>)
    requires
        nums.len() == ops.len() + 1,
        (forall|i: int| 0 <= i < ops.len() ==> is_additive(#[trigger] ops[i])) || (forall|i: int|
            0 <= i < ops.len() ==> is_multiplicative(#[trigger] ops[i])),
    ensures
        outcome(infix_tokens(nums, ops)) == chain(nums, ops, 0, ops.len() as int),
{
    lemma_outcome_is_meaning(nums, ops);
    if forall|i: int| 0 <= i < ops.len() ==> is_additive(#[trigger] ops[i]) {
        lemma_additive_chain(nums, ops, ops.len() as int);
    } else {
        lemma_last_additive(ops, ops.len() as int);
    }
}

} // verus!
