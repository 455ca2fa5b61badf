use kalkul::{Error, Evaluator, Op, OpKind, Token};

#[test]
fn new_evaluator_is_empty() {
    let ev = Evaluator::new();
    assert!(ev.ops_empty());
    assert_eq!(ev.top_num(), None);
    assert!(ev.top_op().is_none());
}

#[test]
fn stacks_are_last_in_first_out() {
    let mut ev = Evaluator::new();
    ev.push_num(1);
    ev.push_num(2);
    assert_eq!(ev.top_num(), Some(&2));
    assert_eq!(ev.pop_num(), Some(2));
    assert_eq!(ev.pop_num(), Some(1));
    assert_eq!(ev.pop_num(), None);

    ev.push_op(Op::new(OpKind::Plus));
    ev.push_op(Op::new(OpKind::Divide));
    assert!(!ev.ops_empty());
    assert_eq!(ev.top_op().unwrap().kind(), OpKind::Divide);
    assert_eq!(ev.pop_op().unwrap().kind(), OpKind::Divide);
    assert_eq!(ev.pop_op().unwrap().kind(), OpKind::Plus);
    assert!(ev.pop_op().is_none());
    assert!(ev.ops_empty());
}

#[test]
fn precedence_of_each_kind() {
    assert_eq!(Op::new(OpKind::Plus).prec(), 1);
    assert_eq!(Op::new(OpKind::Minus).prec(), 1);
    assert_eq!(Op::new(OpKind::Multiply).prec(), 2);
    assert_eq!(Op::new(OpKind::Divide).prec(), 2);
    assert_eq!(Op::new(OpKind::OpenParen).prec(), 3);
    assert_eq!(Op::new(OpKind::CloseParen).prec(), 3);
    assert_eq!(Op::new(OpKind::Unknown).prec(), 0);
}

#[test]
fn operator_of_each_character() {
    assert_eq!(Op::from_char(&'+').kind(), OpKind::Plus);
    assert_eq!(Op::from_char(&'-').kind(), OpKind::Minus);
    assert_eq!(Op::from_char(&'*').kind(), OpKind::Multiply);
    assert_eq!(Op::from_char(&'/').kind(), OpKind::Divide);
    assert_eq!(Op::from_char(&'(').kind(), OpKind::OpenParen);
    assert_eq!(Op::from_char(&')').kind(), OpKind::CloseParen);
    assert_eq!(Op::from_char(&'x').kind(), OpKind::Unknown);
    assert_eq!(Op::from_char(&'*').prec(), 2);
}

#[test]
fn reduction_keeps_the_source_order_of_operands() {
    let mut ev = Evaluator::new();
    ev.push_num(6);
    ev.push_num(3);
    ev.push_op(Op::new(OpKind::Minus));
    assert_eq!(ev.evaluate(), Ok(()));
    assert_eq!(ev.top_num(), Some(&3));
    assert!(ev.ops_empty());

    ev.push_num(12);
    ev.push_op(Op::new(OpKind::Divide));
    assert_eq!(ev.evaluate(), Ok(()));
    assert_eq!(ev.pop_num(), Some(0));
    assert_eq!(ev.pop_num(), None);
}

#[test]
fn division_truncates_toward_zero() {
    let cases = [(7, 2, 3), (-7, 2, -3), (7, -2, -3), (-7, -2, 3), (0, 5, 0), (-1, 2, 0)];
    for (a, b, q) in cases {
        let mut ev = Evaluator::new();
        ev.push_num(a);
        ev.push_num(b);
        ev.push_op(Op::new(OpKind::Divide));
        assert_eq!(ev.evaluate(), Ok(()));
        assert_eq!(ev.pop_num(), Some(q));
    }
}

#[test]
fn reduction_without_operands_is_refused() {
    let mut ev = Evaluator::new();
    assert_eq!(ev.evaluate(), Err(Error::NotEnoughElements));
    ev.push_op(Op::new(OpKind::Plus));
    assert_eq!(ev.evaluate(), Err(Error::NotEnoughElements));
    assert_eq!(ev.top_num(), None);
    assert_eq!(ev.pop_op().unwrap().kind(), OpKind::Plus);
    assert!(ev.ops_empty());
}

#[test]
fn reduction_with_one_operand_is_refused_and_keeps_it() {
    let mut ev = Evaluator::new();
    ev.push_num(5);
    ev.push_op(Op::new(OpKind::Plus));
    assert_eq!(ev.evaluate(), Err(Error::NotEnoughElements));
    assert_eq!(ev.pop_num(), Some(5));
    assert_eq!(ev.pop_num(), None);
    assert_eq!(ev.pop_op().unwrap().kind(), OpKind::Plus);
    assert!(ev.ops_empty());
}

#[test]
fn reduction_without_operator_is_refused_and_keeps_the_operands() {
    let mut ev = Evaluator::new();
    ev.push_num(1);
    ev.push_num(2);
    ev.push_num(3);
    assert_eq!(ev.evaluate(), Err(Error::NotEnoughElements));
    assert_eq!(ev.pop_num(), Some(3));
    assert_eq!(ev.pop_num(), Some(2));
    assert_eq!(ev.pop_num(), Some(1));
    assert_eq!(ev.pop_num(), None);
}

#[test]
fn a_refused_reduction_can_be_made_good() {
    let mut ev = Evaluator::new();
    ev.push_num(6);
    ev.push_op(Op::new(OpKind::Minus));
    assert_eq!(ev.evaluate(), Err(Error::NotEnoughElements));
    ev.push_num(4);
    assert_eq!(ev.evaluate(), Ok(()));
    assert_eq!(ev.pop_num(), Some(2));
    assert_eq!(ev.pop_num(), None);
    assert!(ev.ops_empty());
}

#[test]
fn unknown_operator_fails_in_reduction() {
    let mut ev = Evaluator::new();
    ev.push_num(1);
    ev.push_num(2);
    ev.push_op(Op::new(OpKind::Unknown));
    assert_eq!(ev.evaluate(), Err(Error::UnknownOperator));
    assert_eq!(ev.top_num(), None);
    assert!(ev.ops_empty());
}

#[test]
fn grouping_operator_fails_in_reduction() {
    for kind in [OpKind::OpenParen, OpKind::CloseParen] {
        let mut ev = Evaluator::new();
        ev.push_num(1);
        ev.push_num(2);
        ev.push_op(Op::new(kind));
        assert_eq!(ev.evaluate(), Err(Error::UnsupportedConstruct));
    }
}

#[test]
fn division_by_zero_fails_in_reduction() {
    let mut ev = Evaluator::new();
    ev.push_num(1);
    ev.push_num(0);
    ev.push_op(Op::new(OpKind::Divide));
    assert_eq!(ev.evaluate(), Err(Error::DivisionByZero));
}

#[test]
fn results_outside_the_operand_range_fail() {
    let cases = [
        (i32::MAX, 1, OpKind::Plus),
        (i32::MIN, 1, OpKind::Minus),
        (65536, 32768, OpKind::Multiply),
        (i32::MIN, -1, OpKind::Divide),
    ];
    for (a, b, kind) in cases {
        let mut ev = Evaluator::new();
        ev.push_num(a);
        ev.push_num(b);
        ev.push_op(Op::new(kind));
        assert_eq!(ev.evaluate(), Err(Error::Overflow));
    }
    let mut ev = Evaluator::new();
    ev.push_num(65536);
    ev.push_num(32767);
    ev.push_op(Op::new(OpKind::Multiply));
    assert_eq!(ev.evaluate(), Ok(()));
    assert_eq!(ev.pop_num(), Some(2147418112));
}

#[test]
fn queueing_reduces_equal_and_higher_precedence_first() {
    let mut ev = Evaluator::new();
    ev.push_num(2);
    assert_eq!(ev.push_operator(Op::new(OpKind::Plus)), Ok(()));
    ev.push_num(3);
    // `*` binds tighter than the pending `+`: nothing is reduced.
    assert_eq!(ev.push_operator(Op::new(OpKind::Multiply)), Ok(()));
    assert_eq!(ev.top_num(), Some(&3));
    ev.push_num(4);
    // `-` makes both pending operators reduce: 2 + 3 * 4.
    assert_eq!(ev.push_operator(Op::new(OpKind::Minus)), Ok(()));
    assert_eq!(ev.top_num(), Some(&14));
    assert_eq!(ev.pop_op().unwrap().kind(), OpKind::Minus);
    assert!(ev.ops_empty());
}

#[test]
fn queueing_stops_at_a_failed_reduction() {
    let mut ev = Evaluator::new();
    ev.push_num(1);
    assert_eq!(ev.push_operator(Op::new(OpKind::Plus)), Ok(()));
    assert_eq!(ev.push_operator(Op::new(OpKind::Plus)), Err(Error::NotEnoughElements));
    // The operator that was offered is not pushed, and nothing was popped.
    assert_eq!(ev.pop_op().unwrap().kind(), OpKind::Plus);
    assert!(ev.ops_empty());
    assert_eq!(ev.pop_num(), Some(1));
    assert_eq!(ev.pop_num(), None);
}

#[test]
fn feeding_tokens_and_finishing() {
    let mut ev = Evaluator::new();
    assert_eq!(ev.feed(Token::Number(8)), Ok(()));
    assert_eq!(ev.feed(Token::Operator(OpKind::Plus)), Ok(()));
    assert_eq!(ev.feed(Token::Number(4)), Ok(()));
    assert_eq!(ev.feed(Token::Operator(OpKind::Divide)), Ok(()));
    assert_eq!(ev.feed(Token::Number(2)), Ok(()));
    assert_eq!(ev.finish(), Ok(10));
    assert!(ev.ops_empty());
    assert_eq!(ev.top_num(), Some(&10));
}

#[test]
fn draining_reduces_all_pending_operators() {
    let mut ev = Evaluator::new();
    ev.push_num(3);
    ev.push_op(Op::new(OpKind::Minus));
    ev.push_num(2);
    ev.push_op(Op::new(OpKind::Multiply));
    ev.push_num(4);
    assert_eq!(ev.drain(), Ok(()));
    assert!(ev.ops_empty());
    assert_eq!(ev.pop_num(), Some(-5));
    assert_eq!(ev.pop_num(), None);
}

#[test]
fn finishing_needs_exactly_one_operand() {
    let mut ev = Evaluator::new();
    assert_eq!(ev.finish(), Err(Error::StackUnderflow));
    ev.push_num(1);
    assert_eq!(ev.finish(), Ok(1));
    ev.push_num(2);
    assert_eq!(ev.finish(), Err(Error::StackUnderflow));
}

#[test]
fn accepting_pieces_of_text() {
    let mut ev = Evaluator::new();
    assert_eq!(ev.accept("12"), Ok(()));
    assert_eq!(ev.accept(" * "), Ok(()));
    assert_eq!(ev.accept("3\n"), Ok(()));
    assert_eq!(ev.accept("x"), Err(Error::ParseError));
    assert_eq!(ev.accept(""), Err(Error::ParseError));
    assert_eq!(ev.finish(), Ok(36));
}
