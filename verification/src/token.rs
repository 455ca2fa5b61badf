//! Tokens: the classified units of input, and the tokenizer that makes them
//! from text.

use vstd::prelude::*;
use crate::error::Error;
use crate::op::{is_op, is_op_char, kind_of_char, Op, OpKind};
use crate::text::{
    all_digits, chars_of, decimal, digit, is_digit, is_whitespace, lemma_trim_end_keeps,
    lemma_trim_start_keeps, trim_end, trim_start, trimmed, whitespace,
};

verus! {

/// One classified unit of input: a parsed operand or an operator kind.
#[derive(Debug, Clone, Copy, PartialEq, Eq, Structural)]
pub enum Token {
    Number(i32),
    Operator(OpKind),
}

/// The token that the text `s` stands for. A non-empty string of decimal
/// digits is the number it denotes, if that is at most `i32::MAX`. A single
/// operator character is that operator. Everything else, the empty text
/// included, is a `ParseError`.
pub open spec fn classified(s: Seq<char>) -> Result<Token, Error> {
    if s.len() > 0 && all_digits(s) {
        if decimal(s) <= i32::MAX {
            Ok(Token::Number(decimal(s) as i32))
        } else {
            Err(Error::ParseError)
        }
    } else if s.len() == 1 && is_op_char(s[0]) {
        Ok(Token::Operator(kind_of_char(s[0])))
    } else {
        Err(Error::ParseError)
    }
}

/// The token that a piece of input stands for once the whitespace around it
/// is taken off.
pub open spec fn lexed(piece: Seq<char>) -> Result<Token, Error> {
    classified(trimmed(piece))
}

/// A digit string denotes at least what each of its prefixes denotes.
pub proof fn lemma_decimal_prefix(s: Seq<char>, n: int)
    requires
        0 <= n <= s.len(),
    ensures
        decimal(s.take(n)) <= decimal(s),
    decreases s.len(),
{
    if n == s.len() {
        assert(s.take(n) =~= s);
    } else {
        assert(s.drop_last().take(n) =~= s.take(n));
        lemma_decimal_prefix(s.drop_last(), n);
    }
}

/// Whether every character of `chars[from..to]` is a decimal digit.
fn digits_only(chars: &[char], from: usize, to: usize) -> (b: bool)
    requires
        from <= to <= chars@.len(),
    ensures
        b == all_digits(chars@.subrange(from as int, to as int)),
{
    let ghost sub = chars@.subrange(from as int, to as int);
    let mut i: usize = from;
    while i < to
        invariant
            from <= i <= to <= chars@.len(),
            sub == chars@.subrange(from as int, to as int),
            forall|j: int| 0 <= j < i - from ==> is_digit(#[trigger] sub[j]),
        decreases to - i,
    {
        if !digit(chars[i]) {
            assert(!is_digit(sub[i - from]));
            return false;
        }
        i += 1;
    }
    true
}

/// The number that the digit string `chars[from..to]` denotes, if it is at
/// most `i32::MAX`.
fn parse_digits(chars: &[char], from: usize, to: usize) -> (r: Option<i32>)
    requires
        from <= to <= chars@.len(),
        all_digits(chars@.subrange(from as int, to as int)),
    ensures
        r == if decimal(chars@.subrange(from as int, to as int)) <= i32::MAX {
            Some(decimal(chars@.subrange(from as int, to as int)) as i32)
        } else {
            None
        },
{
    let ghost sub = chars@.subrange(from as int, to as int);
    let mut acc: i32 = 0;
    let mut i: usize = from;
    while i < to
        invariant
            from <= i <= to <= chars@.len(),
            sub == chars@.subrange(from as int, to as int),
            all_digits(sub),
            acc == decimal(sub.take(i - from)),
        decreases to - i,
    {
        let c = chars[i];
        assert(c == sub[i - from]);
        let d: i32 = (c as u32 - '0' as u32) as i32;
        proof {
            assert(sub.take(i - from + 1).drop_last() =~= sub.take(i - from));
            assert(sub.take(i - from + 1).last() == c);
            lemma_decimal_prefix(sub, i - from + 1);
        }
        if acc > (i32::MAX - d) / 10 {
            return None;
        }
        acc = acc * 10 + d;
        i += 1;
    }
    assert(sub.take(to - from) =~= sub);
    Some(acc)
}

/// The token that `chars[from..to]` stands for.
fn classify_range(chars: &[char], from: usize, to: usize) -> (r: Result<Token, Error>)
    requires
        from <= to <= chars@.len(),
    ensures
        r == classified(chars@.subrange(from as int, to as int)),
{
    let ghost sub = chars@.subrange(from as int, to as int);
    if from < to && digits_only(chars, from, to) {
        match parse_digits(chars, from, to) {
            Some(n) => Ok(Token::Number(n)),
            None => Err(Error::ParseError),
        }
    } else if to - from == 1 && is_op(&chars[from]) {
        assert(sub[0] == chars@[from as int]);
        Ok(Token::Operator(Op::from_char(&chars[from]).kind()))
    } else {
        assert(to - from == 1 ==> sub[0] == chars@[from as int]);
        Err(Error::ParseError)
    }
}

/// The token that `chars[from..to]` stands for once the whitespace around
/// it is taken off.
pub(crate) fn lex_range(chars: &[char], from: usize, to: usize) -> (r: Result<Token, Error>)
    requires
        from <= to <= chars@.len(),
    ensures
        r == lexed(chars@.subrange(from as int, to as int)),
{
    let mut lo: usize = from;
    while lo < to && whitespace(chars[lo])
        invariant
            from <= lo <= to <= chars@.len(),
            trim_start(chars@.subrange(lo as int, to as int)) == trim_start(
                chars@.subrange(from as int, to as int),
            ),
        decreases to - lo,
    {
        assert(chars@.subrange(lo as int, to as int).drop_first() =~= chars@.subrange(
            lo as int + 1,
            to as int,
        ));
        lo += 1;
    }
    let mut hi: usize = to;
    while lo < hi && whitespace(chars[hi - 1])
        invariant
            lo <= hi <= to <= chars@.len(),
            trim_end(chars@.subrange(lo as int, hi as int)) == trim_end(
                chars@.subrange(lo as int, to as int),
            ),
        decreases hi - lo,
    {
        assert(chars@.subrange(lo as int, hi as int).drop_last() =~= chars@.subrange(
            lo as int,
            hi as int - 1,
        ));
        hi -= 1;
    }
    classify_range(chars, lo, hi)
}

/// Whether every character of `s` is a decimal digit; `true` for the empty
/// text.
pub fn is_num(s: &str) -> (b: bool)
    ensures
        b == all_digits(s@),
{
    let chars = chars_of(s);
    assert(chars@.subrange(0, chars@.len() as int) =~= chars@);
    digits_only(chars.as_slice(), 0, chars.len())
}

/// Classifies a token that stands by itself: a digit string or one
/// operator character.
pub fn classify(token: &str) -> (r: Result<Token, Error>)
    ensures
        r == classified(token@),
{
    let chars = chars_of(token);
    assert(chars@.subrange(0, chars@.len() as int) =~= chars@);
    classify_range(chars.as_slice(), 0, chars.len())
}

/// Classifies a piece of input: takes the whitespace around it off and
/// classifies what is left.
pub fn lex(piece: &str) -> (r: Result<Token, Error>)
    ensures
        r == lexed(piece@),
{
    let chars = chars_of(piece);
    assert(chars@.subrange(0, chars@.len() as int) =~= chars@);
    lex_range(chars.as_slice(), 0, chars.len())
}

/// A token that holds a character which is neither a digit nor an
/// operator character is a `ParseError`.
pub proof fn lemma_foreign_character(s: Seq<char>, c: char)
    requires
        s.contains(c),
        !is_digit(c),
        !is_op_char(c),
    ensures
        classified(s) == Err::<Token, Error>(Error::ParseError),
{
    let i = choose|i: int| 0 <= i < s.len() && s[i] == c;
    assert(!is_digit(s[i]));
}

/// A piece of input that holds a character which is neither a digit, nor
/// an operator character, nor whitespace is a `ParseError`.
pub proof fn lemma_foreign_character_in_piece(piece: Seq<char>, c: char)
    requires
        piece.contains(c),
        !is_digit(c),
        !is_op_char(c),
        !is_whitespace(c),
    ensures
        lexed(piece) == Err::<Token, Error>(Error::ParseError),
{
    lemma_trim_start_keeps(piece, c);
    lemma_trim_end_keeps(trim_start(piece), c);
    lemma_foreign_character(trimmed(piece), c);
}

} // verus!
