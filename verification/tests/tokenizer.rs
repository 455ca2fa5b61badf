use kalkul::{classify, is_num, is_op, lex, Error, OpKind, Token};

#[test]
fn digit_strings_are_numbers() {
    assert_eq!(classify("0"), Ok(Token::Number(0)));
    assert_eq!(classify("7"), Ok(Token::Number(7)));
    assert_eq!(classify("12"), Ok(Token::Number(12)));
    assert_eq!(classify("007"), Ok(Token::Number(7)));
    assert_eq!(classify("1234567890"), Ok(Token::Number(1234567890)));
}

#[test]
fn numbers_end_at_the_operand_range() {
    assert_eq!(classify("2147483647"), Ok(Token::Number(i32::MAX)));
    assert_eq!(classify("00000000002147483647"), Ok(Token::Number(i32::MAX)));
    assert_eq!(classify("2147483648"), Err(Error::ParseError));
    assert_eq!(classify("2147483650"), Err(Error::ParseError));
    assert_eq!(classify("99999999999999999999999"), Err(Error::ParseError));
}

#[test]
fn operator_characters_are_operators() {
    assert_eq!(classify("+"), Ok(Token::Operator(OpKind::Plus)));
    assert_eq!(classify("-"), Ok(Token::Operator(OpKind::Minus)));
    assert_eq!(classify("*"), Ok(Token::Operator(OpKind::Multiply)));
    assert_eq!(classify("/"), Ok(Token::Operator(OpKind::Divide)));
    assert_eq!(classify("("), Ok(Token::Operator(OpKind::OpenParen)));
    assert_eq!(classify(")"), Ok(Token::Operator(OpKind::CloseParen)));
}

#[test]
fn everything_else_is_a_parse_error() {
    for token in ["", "a", "12a", "a12", "1.5", "-1", "+-", "++", "1 2", " 1", "1 ", "%", "١"] {
        assert_eq!(classify(token), Err(Error::ParseError), "{:?}", token);
    }
}

#[test]
fn pieces_are_trimmed_before_they_are_classified() {
    assert_eq!(lex("12"), Ok(Token::Number(12)));
    assert_eq!(lex(" 12\n"), Ok(Token::Number(12)));
    assert_eq!(lex("\t\r\n12\u{b}\u{c}"), Ok(Token::Number(12)));
    assert_eq!(lex("\u{a0}+\u{3000}"), Ok(Token::Operator(OpKind::Plus)));
    assert_eq!(lex("\u{85}\u{1680}\u{2000}\u{200a}/\u{2028}\u{2029}\u{202f}\u{205f}"), Ok(Token::Operator(OpKind::Divide)));
    assert_eq!(lex("1 2"), Err(Error::ParseError));
    assert_eq!(lex("1\n2"), Err(Error::ParseError));
    assert_eq!(lex(""), Err(Error::ParseError));
    assert_eq!(lex(" \n"), Err(Error::ParseError));
    // U+200B is no whitespace.
    assert_eq!(lex("\u{200b}1"), Err(Error::ParseError));
}

#[test]
fn trimming_agrees_with_the_standard_library() {
    for u in 0..=0x3100u32 {
        if let Some(c) = char::from_u32(u) {
            let piece = format!("{}7{}", c, c);
            let expected = if c.is_whitespace() {
                Ok(Token::Number(7))
            } else if c.is_ascii_digit() {
                Ok(Token::Number((c as i32 - '0' as i32) * 101 + 70))
            } else {
                Err(Error::ParseError)
            };
            assert_eq!(lex(&piece), expected, "U+{:04X}", u);
        }
    }
}

#[test]
fn is_num_holds_of_digit_strings_and_of_the_empty_text() {
    assert!(is_num("0"));
    assert!(is_num("0123456789"));
    assert!(is_num("99999999999999999999"));
    assert!(is_num(""));
    assert!(!is_num("12a"));
    assert!(!is_num("-1"));
    assert!(!is_num(" 1"));
    assert!(!is_num("٣"));
}

#[test]
fn is_op_holds_of_the_six_operator_characters() {
    for c in ['+', '-', '/', '*', '(', ')'] {
        assert!(is_op(&c));
    }
    for c in ['0', 'a', ' ', '%', '^', '=', '.', ',', '\n'] {
        assert!(!is_op(&c));
    }
}
