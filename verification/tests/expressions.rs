use kalkul::{evaluate, evaluate_tokens, Error, OpKind, Token};
use std::iter::zip;

#[test]
fn test_single_op() {
    let exprs = ["1 + 1", "6 - 3", "2 * 3", "4 / 2"];
    let answers = [2, 3, 6, 2];

    for (expr, ans) in zip(exprs, answers) {
        println!("-------------------------------");
        println!("Testing {}", expr);
        println!("-------------------------------");
        let fin = evaluate(expr).unwrap();
        println!("Final: {} {}", fin, if ans == fin { "PASS" } else { "FAIL" });
        assert_eq!(ans, fin);
    }
}

#[test]
fn test_multi_op_with_same_prec() {
    let exprs = [
        "1 + 1 - 1 + 1 - 1 + 1 - 1 + 1 - 1 + 1 - 1 + 1 - 1 + 1 - 1 + 1 - 1",
        "2 * 3 / 6 * 2 * 3 / 6 * 2 * 3 / 1",
    ];
    let answers = [1, 6];

    for (expr, ans) in zip(exprs, answers) {
        println!("-------------------------------");
        println!("Testing {}", expr);
        println!("-------------------------------");
        let fin = evaluate(expr).unwrap();
        println!("Final: {} {}", fin, if ans == fin { "PASS" } else { "FAIL" });
        assert_eq!(ans, fin);
    }
}

#[test]
fn test_ops_with_diff_prec() {
    let exprs = ["2 + 2 * 2", "4 * 3 + 2", "8 + 4 / 2", "3 - 2 * 4", "3 * 2 - 4"];
    let answers = [6, 14, 10, -5, 2];

    for (expr, ans) in zip(exprs, answers) {
        println!("-------------------------------");
        println!("Testing {}", expr);
        println!("-------------------------------");
        let fin = evaluate(expr).unwrap();
        println!("Final: {} {}", fin, if ans == fin { "PASS" } else { "FAIL" });
        assert_eq!(ans, fin);
    }
}

#[test]
fn single_operator_expressions() {
    assert_eq!(evaluate("6 - 3"), Ok(3));
    assert_eq!(evaluate("3 - 6"), Ok(-3));
    assert_eq!(evaluate("4 / 2"), Ok(2));
    assert_eq!(evaluate("2 / 4"), Ok(0));
    assert_eq!(evaluate("12 + 30"), Ok(42));
    assert_eq!(evaluate("12 * 30"), Ok(360));
}

#[test]
fn division_truncates() {
    assert_eq!(evaluate("7 / 2"), Ok(3));
    assert_eq!(evaluate("0 - 7 / 2"), Ok(-3));
    assert_eq!(evaluate("0 - 7"), Ok(-7));
    assert_eq!(evaluate("1 - 8 / 3 * 3"), Ok(-5));
}

#[test]
fn standard_precedence() {
    assert_eq!(evaluate("2 + 2 * 2"), Ok(6));
    assert_eq!(evaluate("3 - 2 * 4"), Ok(-5));
    assert_eq!(evaluate("3 * 2 - 4"), Ok(2));
    assert_eq!(evaluate("1 + 2 * 3 - 4 / 2 + 5 * 6 * 7 - 8"), Ok(207));
    assert_eq!(evaluate("10 - 2 - 3"), Ok(5));
    assert_eq!(evaluate("100 / 10 / 5"), Ok(2));
    assert_eq!(evaluate("100 / 10 * 5"), Ok(50));
}

#[test]
fn evaluating_twice_gives_the_same_result() {
    for expr in ["2 + 2 * 2", "1 / 0", "", "1 +", "7"] {
        let first = evaluate(expr);
        let second = evaluate(expr);
        assert_eq!(first, second);
    }
    assert_eq!(evaluate("8 + 4 / 2"), Ok(10));
    assert_eq!(evaluate("8 + 4 / 2"), Ok(10));
}

#[test]
fn a_single_number_is_its_own_value() {
    assert_eq!(evaluate("7"), Ok(7));
    assert_eq!(evaluate("2147483647"), Ok(i32::MAX));
}

#[test]
fn the_empty_text_underflows() {
    assert_eq!(evaluate(""), Err(Error::StackUnderflow));
    assert_eq!(evaluate_tokens(&[]), Err(Error::StackUnderflow));
}

#[test]
fn operands_without_operator_underflow() {
    assert_eq!(evaluate("1 2"), Err(Error::StackUnderflow));
    assert_eq!(evaluate("1 2 3"), Err(Error::StackUnderflow));
}

#[test]
fn a_dangling_operator_lacks_elements() {
    assert_eq!(evaluate("1 +"), Err(Error::NotEnoughElements));
    assert_eq!(evaluate("+"), Err(Error::NotEnoughElements));
    assert_eq!(evaluate("1 + 2 *"), Err(Error::NotEnoughElements));
    assert_eq!(evaluate("1 + + 2"), Err(Error::NotEnoughElements));
}

#[test]
fn foreign_characters_are_parse_errors() {
    assert_eq!(evaluate("1 + x"), Err(Error::ParseError));
    assert_eq!(evaluate("1 + 2a"), Err(Error::ParseError));
    assert_eq!(evaluate("1+1"), Err(Error::ParseError));
    assert_eq!(evaluate("1 % 2"), Err(Error::ParseError));
    assert_eq!(evaluate("1 + 2147483648"), Err(Error::ParseError));
}

#[test]
fn the_first_failure_is_reported() {
    // The second `+` fails in a reduction before `x` is read.
    assert_eq!(evaluate("1 + + x"), Err(Error::NotEnoughElements));
    // `x` is read before anything is reduced.
    assert_eq!(evaluate("1 / 0 x"), Err(Error::ParseError));
    assert_eq!(evaluate("1 + 2 / 0 x"), Err(Error::ParseError));
    // The `*` and the `+` make `1 / 0` reduce before `x` is read.
    assert_eq!(evaluate("1 / 0 * x"), Err(Error::DivisionByZero));
    assert_eq!(evaluate("1 / 0 + x"), Err(Error::DivisionByZero));
}

#[test]
fn division_by_zero_fails() {
    assert_eq!(evaluate("1 / 0"), Err(Error::DivisionByZero));
    assert_eq!(evaluate("1 + 4 / 0 - 2"), Err(Error::DivisionByZero));
    assert_eq!(evaluate("0 / 1"), Ok(0));
}

#[test]
fn values_outside_the_operand_range_fail() {
    assert_eq!(evaluate("2147483647 + 1"), Err(Error::Overflow));
    assert_eq!(evaluate("0 - 2147483647 - 2"), Err(Error::Overflow));
    assert_eq!(evaluate("0 - 2147483647 - 1"), Ok(i32::MIN));
    assert_eq!(evaluate("65536 * 65536"), Err(Error::Overflow));
    assert_eq!(evaluate("2147483647 + 2 * 0"), Ok(i32::MAX));
}

#[test]
fn grouping_is_not_supported() {
    assert_eq!(evaluate("1 + ( 2 )"), Err(Error::UnsupportedConstruct));
    assert_eq!(evaluate("1 ( 2"), Err(Error::UnsupportedConstruct));
    assert_eq!(evaluate("( 1 + 2 ) * 3"), Err(Error::NotEnoughElements));
}

#[test]
fn pieces_are_separated_by_single_spaces() {
    assert_eq!(evaluate("1 + 1\n"), Ok(2));
    assert_eq!(evaluate("1 + 1 "), Ok(2));
    assert_eq!(evaluate("1\t + \n1"), Ok(2));
    assert_eq!(evaluate("1  + 1"), Err(Error::ParseError));
    assert_eq!(evaluate(" 1 + 1"), Err(Error::ParseError));
    assert_eq!(evaluate("1 + 1  "), Err(Error::ParseError));
    assert_eq!(evaluate(" "), Err(Error::ParseError));
    assert_eq!(evaluate("\n"), Err(Error::ParseError));
}

#[test]
fn tokens_are_evaluated_as_text_is() {
    let tokens = [
        Token::Number(3),
        Token::Operator(OpKind::Minus),
        Token::Number(2),
        Token::Operator(OpKind::Multiply),
        Token::Number(4),
    ];
    assert_eq!(evaluate_tokens(&tokens), Ok(-5));
    assert_eq!(evaluate_tokens(&tokens), evaluate("3 - 2 * 4"));
    assert_eq!(
        evaluate_tokens(&[Token::Number(1), Token::Operator(OpKind::Unknown), Token::Number(2)]),
        Err(Error::UnknownOperator)
    );
    // Operands first and operators after them reduce from the top down.
    assert_eq!(
        evaluate_tokens(&[Token::Number(1), Token::Number(2), Token::Operator(OpKind::Minus)]),
        Ok(-1)
    );
}
