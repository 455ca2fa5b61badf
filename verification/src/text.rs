//! Text as a sequence of characters: digits, whitespace and the pieces
//! between spaces.

use vstd::prelude::*;

verus! {

/// Whether `c` is one of the decimal digits `0` to `9`.
pub open spec fn is_digit(c: char) -> bool {
    '0' <= c <= '9'
}

/// The value of the decimal digit `c`.
pub open spec fn digit_value(c: char) -> nat
    recommends
        is_digit(c),
{
    (c as int - '0' as int) as nat
}

/// Whether every character of `s` is a decimal digit. Holds of the empty
/// sequence.
pub open spec fn all_digits(s: Seq<char>) -> bool {
    forall|i: int| 0 <= i < s.len() ==> is_digit(#[trigger] s[i])
}

/// The number that the digit string `s` denotes in base ten.
pub open spec fn decimal(s: Seq<char>) -> nat
    recommends
        all_digits(s),
    decreases s.len(),
{
    if s.len() == 0 {
        0
    } else {
        10 * decimal(s.drop_last()) + digit_value(s.last())
    }
}

/// Whether `c` is whitespace: a character with the Unicode property
/// `White_Space`.
pub open spec fn is_whitespace(c: char) -> bool {
    let u = c as u32;
    ||| 0x09 <= u <= 0x0d
    ||| u == 0x20
    ||| u == 0x85
    ||| u == 0xa0
    ||| u == 0x1680
    ||| 0x2000 <= u <= 0x200a
    ||| u == 0x2028
    ||| u == 0x2029
    ||| u == 0x202f
    ||| u == 0x205f
    ||| u == 0x3000
}

/// `s` without the whitespace at its start.
pub open spec fn trim_start(s: Seq<char>) -> Seq<char>
    decreases s.len(),
{
    if s.len() > 0 && is_whitespace(s.first()) {
        trim_start(s.drop_first())
    } else {
        s
    }
}

/// `s` without the whitespace at its end.
pub open spec fn trim_end(s: Seq<char>) -> Seq<char>
    decreases s.len(),
{
    if s.len() > 0 && is_whitespace(s.last()) {
        trim_end(s.drop_last())
    } else {
        s
    }
}

/// `s` without the whitespace at its start and at its end.
pub open spec fn trimmed(s: Seq<char>) -> Seq<char> {
    trim_end(trim_start(s))
}

/// The number of characters of `s` that stand before its first space; the
/// length of `s` where it holds no space.
pub open spec fn piece_len(s: Seq<char>) -> nat
    decreases s.len(),
{
    if s.len() == 0 || s.first() == ' ' {
        0
    } else {
        1 + piece_len(s.drop_first())
    }
}

/// What follows the first space of `s`; empty where `s` holds no space.
pub open spec fn after_piece(s: Seq<char>) -> Seq<char> {
    if piece_len(s) < s.len() {
        s.skip(piece_len(s) as int + 1)
    } else {
        Seq::empty()
    }
}

/// The pieces of `s` that single spaces separate, in order. A piece may be
/// empty; an empty piece at the very end is left out, so the empty text has
/// no piece and a text that ends in a space has none after that space.
pub open spec fn pieces(s: Seq<char>) -> Seq<Seq<char>>
    decreases s.len(),
{
    if s.len() == 0 {
        Seq::empty()
    } else {
        seq![s.take(piece_len(s) as int)] + pieces(after_piece(s))
    }
}

/// The characters of `s`, in order.
pub fn chars_of(s: &str) -> (v: Vec<char>)
    ensures
        v@ == s@,
{
    let mut v: Vec<char> = Vec::new();
    for c in it: s.chars()
        invariant
            it.seq() == s@,
            v@ == s@.take(it.index() as int),
    {
        v.push(c);
    }
    v
}

/// Whether `c` is a decimal digit.
pub fn digit(c: char) -> (b: bool)
    ensures
        b == is_digit(c),
{
    '0' <= c && c <= '9'
}

/// Whether `c` is whitespace.
pub fn whitespace(c: char) -> (b: bool)
    ensures
        b == is_whitespace(c),
{
    let u: u32 = c as u32;
    (0x09 <= u && u <= 0x0d) || u == 0x20 || u == 0x85 || u == 0xa0 || u == 0x1680 || (0x2000 <= u
        && u <= 0x200a) || u == 0x2028 || u == 0x2029 || u == 0x202f || u == 0x205f || u == 0x3000
}

/// Whether `s` holds no space.
pub open spec fn no_space(s: Seq<char>) -> bool {
    forall|i: int| 0 <= i < s.len() ==> #[trigger] s[i] != ' '
}

/// The first piece of a text that starts with the spaceless `x` and a
/// space is `x`.
pub proof fn lemma_piece_len_before_space(x: Seq<char>, rest: Seq<char>)
    requires
        no_space(x),
    ensures
        piece_len(x + seq![' '] + rest) == x.len(),
    decreases x.len(),
{
    let s = x + seq![' '] + rest;
    if x.len() == 0 {
        assert(s.first() == ' ');
    } else {
        assert(s.first() == x[0]);
        assert(s.drop_first() =~= x.drop_first() + seq![' '] + rest);
        assert forall|i: int| 0 <= i < x.drop_first().len() implies #[trigger] x.drop_first()[i]
            != ' ' by {
            assert(x.drop_first()[i] == x[i + 1]);
        }
        lemma_piece_len_before_space(x.drop_first(), rest);
    }
}

/// The first piece of a text without a space is the whole text.
pub proof fn lemma_piece_len_whole(x: Seq<char>)
    requires
        no_space(x),
    ensures
        piece_len(x) == x.len(),
    decreases x.len(),
{
    if x.len() > 0 {
        assert(x.first() == x[0]);
        assert forall|i: int| 0 <= i < x.drop_first().len() implies #[trigger] x.drop_first()[i]
            != ' ' by {
            assert(x.drop_first()[i] == x[i + 1]);
        }
        lemma_piece_len_whole(x.drop_first());
    }
}

/// The pieces of a spaceless `x`, a space and `rest` are `x` and the
/// pieces of `rest`.
pub proof fn lemma_pieces_before_space(x: Seq<char>, rest: Seq<char>)
    requires
        no_space(x),
    ensures
        pieces(x + seq![' '] + rest) == seq![x] + pieces(rest),
{
    let s = x + seq![' '] + rest;
    lemma_piece_len_before_space(x, rest);
    assert(s.take(x.len() as int) =~= x);
    assert(after_piece(s) =~= rest);
}

/// A text without a space that is not empty is its own single piece.
pub proof fn lemma_pieces_whole(x: Seq<char>)
    requires
        no_space(x),
        x.len() > 0,
    ensures
        pieces(x) == seq![x],
{
    lemma_piece_len_whole(x);
    assert(x.take(x.len() as int) =~= x);
    assert(after_piece(x) =~= Seq::<char>::empty());
    assert(pieces(after_piece(x)) =~= Seq::<Seq<char>>::empty());
    assert(seq![x] + Seq::<Seq<char>>::empty() =~= seq![x]);
}

/// Trimming takes nothing off a text that neither starts nor ends with
/// whitespace.
pub proof fn lemma_trimmed_unchanged(x: Seq<char>)
    requires
        x.len() > 0 ==> !is_whitespace(x.first()) && !is_whitespace(x.last()),
    ensures
        trimmed(x) == x,
{
}

/// Trimming at the start takes off whitespace only: a character that is no
/// whitespace stays.
pub proof fn lemma_trim_start_keeps(s: Seq<char>, c: char)
    requires
        s.contains(c),
        !is_whitespace(c),
    ensures
        trim_start(s).contains(c),
    decreases s.len(),
{
    if s.len() > 0 && is_whitespace(s.first()) {
        let i = choose|i: int| 0 <= i < s.len() && s[i] == c;
        assert(s.drop_first()[i - 1] == c);
        lemma_trim_start_keeps(s.drop_first(), c);
    }
}

/// Trimming at the end takes off whitespace only: a character that is no
/// whitespace stays.
pub proof fn lemma_trim_end_keeps(s: Seq<char>, c: char)
    requires
        s.contains(c),
        !is_whitespace(c),
    ensures
        trim_end(s).contains(c),
    decreases s.len(),
{
    if s.len() > 0 && is_whitespace(s.last()) {
        let i = choose|i: int| 0 <= i < s.len() && s[i] == c;
        assert(s.drop_last()[i] == c);
        lemma_trim_end_keeps(s.drop_last(), c);
    }
}

} // verus!
