//! The evaluation driver: from a text to its value.

use vstd::prelude::*;
use crate::error::Error;
use crate::evaluator::Evaluator;
use crate::arith::applied;
use crate::machine::{lemma_single_operator, outcome, Stacks, Step};
use crate::op::{is_op_char, kind_of_char};
use crate::text::{
    after_piece, all_digits, chars_of, decimal, is_digit, lemma_pieces_before_space,
    lemma_pieces_whole, no_space, piece_len, pieces,
};
use crate::token::{lex_range, lexed, Token};

verus! {

impl Stacks {
    /// Takes one piece of input: the piece is classified, and the token is
    /// fed. A piece that is no token leaves the stacks as they are.
    pub open spec fn accept(self, piece: Seq<char>) -> Step {
        match lexed(piece) {
            Ok(token) => self.feed(token),
            Err(e) => (self, Err(e)),
        }
    }

    /// Takes the pieces in order, up to and including the first that fails.
    pub open spec fn consume(self, input: Seq<Seq<char>>) -> Step
        decreases input.len(),
    {
        if input.len() == 0 {
            (self, Ok(()))
        } else {
            let (next, r) = self.accept(input.first());
            if r is Ok {
                next.consume(input.drop_first())
            } else {
                (next, r)
            }
        }
    }
}

/// The value of the expression that the text `s` holds: its pieces are
/// taken in order from empty stacks, the pending operators are drained, and
/// the single operand that is left is the value. The first step that fails
/// gives the error.
pub open spec fn evaluation(s: Seq<char>) -> Result<i32, Error> {
    let (fed, r) = Stacks::empty().consume(pieces(s));
    match r {
        Ok(_) => fed.finish().1,
        Err(e) => Err(e),
    }
}

/// The index at which the piece that starts at `from` ends: that of the
/// next space, or the length of `chars`.
fn piece_end(chars: &[char], from: usize) -> (to: usize)
    requires
        from <= chars@.len(),
    ensures
        from <= to <= chars@.len(),
        to - from == piece_len(chars@.skip(from as int)),
{
    let mut to: usize = from;
    while to < chars.len() && chars[to] != ' '
        invariant
            from <= to <= chars@.len(),
            piece_len(chars@.skip(from as int)) == (to - from) + piece_len(chars@.skip(to as int)),
        decreases chars@.len() - to,
    {
        assert(chars@.skip(to as int).drop_first() =~= chars@.skip(to as int + 1));
        to += 1;
    }
    to
}

impl Evaluator {
    /// Takes one piece of input: classifies it and feeds the token.
    pub fn accept(&mut self, piece: &str) -> (r: Result<(), Error>)
        ensures
            (final(self)@, r) == old(self)@.accept(piece@),
    {
        let chars = chars_of(piece);
        assert(chars@.subrange(0, chars@.len() as int) =~= chars@);
        match lex_range(chars.as_slice(), 0, chars.len()) {
            Ok(token) => self.feed(token),
            Err(e) => Err(e),
        }
    }
}

/// Evaluates the tokens from empty stacks.
pub fn evaluate_tokens(tokens: &[Token]) -> (r: Result<i32, Error>)
    ensures
        r == outcome(tokens@),
{
    let mut ev = Evaluator::new();
    let mut i: usize = 0;
    assert(tokens@.skip(0) =~= tokens@);
    while i < tokens.len()
        invariant
            i <= tokens@.len(),
            ev@.run(tokens@.skip(i as int)) == Stacks::empty().run(tokens@),
        decreases tokens@.len() - i,
    {
        assert(tokens@.skip(i as int).drop_first() =~= tokens@.skip(i as int + 1));
        match ev.feed(tokens[i]) {
            Ok(_) => {},
            Err(e) => {
                return Err(e);
            },
        }
        i += 1;
    }
    ev.finish()
}

/// Evaluates the expression that `src` holds: numbers and the operators
/// `+ - * /`, separated by single spaces.
pub fn evaluate(src: &str) -> (r: Result<i32, Error>)
    ensures
        r == evaluation(src@),
{
    let text = chars_of(src);
    let chars = text.as_slice();
    let mut ev = Evaluator::new();
    let mut from: usize = 0;
    assert(chars@.skip(0) =~= chars@);
    while from < chars.len()
        invariant
            from <= chars@.len(),
            chars@ == src@,
            ev@.consume(pieces(chars@.skip(from as int))) == Stacks::empty().consume(
                pieces(chars@),
            ),
        decreases chars@.len() - from,
    {
        let ghost rest = chars@.skip(from as int);
        let to = piece_end(chars, from);
        proof {
            assert(rest.take(to - from) =~= chars@.subrange(from as int, to as int));
            assert(pieces(rest).first() == rest.take(to - from));
            assert(pieces(rest).drop_first() =~= pieces(after_piece(rest)));
            if to < chars@.len() {
                assert(after_piece(rest) =~= chars@.skip(to as int + 1));
            } else {
                assert(after_piece(rest) =~= chars@.skip(to as int));
            }
        }
        match lex_range(chars, from, to) {
            Ok(token) => match ev.feed(token) {
                Ok(_) => {},
                Err(e) => {
                    return Err(e);
                },
            },
            Err(e) => {
                return Err(e);
            },
        }
        from = if to < chars.len() {
            to + 1
        } else {
            to
        };
    }
    assert(pieces(chars@.skip(from as int)) =~= Seq::empty());
    ev.finish()
}

/// Taking pieces that all are tokens is taking those tokens.
pub proof fn lemma_consume_tokens(st: Stacks, input: Seq<Seq<char>>, tokens: Seq<Token>)
    requires
        input.len() == tokens.len(),
        forall|i: int| 0 <= i < input.len() ==> lexed(#[trigger] input[i]) == Ok::<Token, Error>(
            tokens[i],
        ),
    ensures
        st.consume(input) == st.run(tokens),
    decreases input.len(),
{
    if input.len() > 0 {
        assert(lexed(input[0]) == Ok::<Token, Error>(tokens[0]));
        let next = st.feed(tokens.first()).0;
        assert forall|i: int| 0 <= i < input.drop_first().len() implies lexed(
            #[trigger] input.drop_first()[i],
        ) == Ok::<Token, Error>(tokens.drop_first()[i]) by {
            assert(input.drop_first()[i] == input[i + 1]);
        }
        lemma_consume_tokens(next, input.drop_first(), tokens.drop_first());
    }
}

/// The value of a text whose pieces all are tokens is the outcome of those
/// tokens.
pub proof fn lemma_evaluation_of_tokens(s: Seq<char>, tokens: Seq<Token>)
    requires
        pieces(s).len() == tokens.len(),
        forall|i: int|
            0 <= i < tokens.len() ==> lexed(#[trigger] pieces(s)[i]) == Ok::<Token, Error>(
                tokens[i],
            ),
    ensures
        evaluation(s) == outcome(tokens),
{
    lemma_consume_tokens(Stacks::empty(), pieces(s), tokens);
}

/// Taking pieces of which the first `tokens.len()` are tokens and the next
/// is none: the tokens are taken, and if none of them fails, the piece that
/// is no token fails with `ParseError`.
pub proof fn lemma_consume_until_foreign(st: Stacks, input: Seq<Seq<char>>, tokens: Seq<Token>)
    requires
        tokens.len() < input.len(),
        forall|i: int| 0 <= i < tokens.len() ==> lexed(#[trigger] input[i]) == Ok::<Token, Error>(
            tokens[i],
        ),
        lexed(input[tokens.len() as int]) is Err,
    ensures
        st.consume(input) == if st.run(tokens).1 is Ok {
            (st.run(tokens).0, Err::<(), Error>(Error::ParseError))
        } else {
            st.run(tokens)
        },
    decreases tokens.len(),
{
    if tokens.len() > 0 {
        assert(lexed(input[0]) == Ok::<Token, Error>(tokens[0]));
        let next = st.feed(tokens.first()).0;
        assert forall|i: int| 0 <= i < tokens.drop_first().len() implies lexed(
            #[trigger] input.drop_first()[i],
        ) == Ok::<Token, Error>(tokens.drop_first()[i]) by {
            assert(input.drop_first()[i] == input[i + 1]);
        }
        assert(input.drop_first()[tokens.drop_first().len() as int] == input[tokens.len() as int]);
        lemma_consume_until_foreign(next, input.drop_first(), tokens.drop_first());
    }
}

/// The value of a text whose first pieces are tokens and whose next piece
/// is none is `ParseError`, unless one of those tokens fails before.
pub proof fn lemma_evaluation_until_foreign(s: Seq<char>, tokens: Seq<Token>)
    requires
        tokens.len() < pieces(s).len(),
        forall|i: int|
            0 <= i < tokens.len() ==> lexed(#[trigger] pieces(s)[i]) == Ok::<Token, Error>(
                tokens[i],
            ),
        lexed(pieces(s)[tokens.len() as int]) is Err,
    ensures
        evaluation(s) == match Stacks::empty().run(tokens).1 {
            Ok(_) => Err::<i32, Error>(Error::ParseError),
            Err(e) => Err::<i32, Error>(e),
        },
{
    lemma_consume_until_foreign(Stacks::empty(), pieces(s), tokens);
}

/// A digit string that denotes a number of the operand range is the token
/// of that number, as a piece of input too.
pub proof fn lemma_number_piece(x: Seq<char>)
    requires
        x.len() > 0,
        all_digits(x),
        decimal(x) <= i32::MAX,
    ensures
        no_space(x),
        lexed(x) == Ok::<Token, Error>(Token::Number(decimal(x) as i32)),
{
    assert(is_digit(x.first()) && is_digit(x.last()));
    assert forall|i: int| 0 <= i < x.len() implies #[trigger] x[i] != ' ' by {
        assert(is_digit(x[i]));
    }
}

/// The text of a single-operator expression, `x c y` with digit strings `x`
/// and `y`, an operator character `c` and single spaces between them, has
/// the value of that operator applied to the number of `x` and the number
/// of `y`, in this order.
pub proof fn lemma_single_operator_text(x: Seq<char>, c: char, y: Seq<char>)
    requires
        x.len() > 0 && all_digits(x) && decimal(x) <= i32::MAX,
        y.len() > 0 && all_digits(y) && decimal(y) <= i32::MAX,
        is_op_char(c),
    ensures
        evaluation(x + seq![' '] + (seq![c] + seq![' '] + y)) == applied(
            kind_of_char(c),
            decimal(x) as i32,
            decimal(y) as i32,
        ),
{
    let a = decimal(x) as i32;
    let b = decimal(y) as i32;
    let kind = kind_of_char(c);
    let s = x + seq![' '] + (seq![c] + seq![' '] + y);
    let tokens = seq![Token::Number(a), Token::Operator(kind), Token::Number(b)];
    lemma_number_piece(x);
    lemma_number_piece(y);
    assert(no_space(seq![c]));
    assert(!is_digit(seq![c][0]));
    assert(lexed(seq![c]) == Ok::<Token, Error>(Token::Operator(kind)));
    lemma_pieces_before_space(x, seq![c] + seq![' '] + y);
    lemma_pieces_before_space(seq![c], y);
    lemma_pieces_whole(y);
    assert(pieces(s) =~= seq![x, seq![c], y]);
    lemma_evaluation_of_tokens(s, tokens);
    lemma_single_operator(a, kind, b);
}

} // verus!
