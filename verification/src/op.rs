//! Operator kinds and their precedence.

use vstd::prelude::*;

verus! {

/// The kinds of operator that a token can stand for.
#[derive(Debug, Clone, Copy, PartialEq, Eq, Structural)]
pub enum OpKind {
    Plus,
    Minus,
    Divide,
    Multiply,
    OpenParen,
    CloseParen,
    Unknown,
}

/// The rank by which pending operators are compared: a pending operator is
/// applied before an incoming one of equal or lower rank is queued.
pub open spec fn precedence(kind: OpKind) -> u8 {
    match kind {
        OpKind::Plus | OpKind::Minus => 1,
        OpKind::Divide | OpKind::Multiply => 2,
        OpKind::OpenParen | OpKind::CloseParen => 3,
        OpKind::Unknown => 0,
    }
}

/// The kind that an operator character stands for; `Unknown` for every
/// character that is not one of `+ - * / ( )`.
pub open spec fn kind_of_char(c: char) -> OpKind {
    if c == '+' {
        OpKind::Plus
    } else if c == '-' {
        OpKind::Minus
    } else if c == '/' {
        OpKind::Divide
    } else if c == '*' {
        OpKind::Multiply
    } else if c == '(' {
        OpKind::OpenParen
    } else if c == ')' {
        OpKind::CloseParen
    } else {
        OpKind::Unknown
    }
}

/// Whether `c` is one of the six operator characters `+ - / * ( )`.
pub open spec fn is_op_char(c: char) -> bool {
    c == '+' || c == '-' || c == '/' || c == '*' || c == '(' || c == ')'
}

/// An operator kind together with its precedence, which is always that of
/// the kind. Its view is the kind.
#[derive(Debug, Clone, Copy)]
pub struct Op {
    kind: OpKind,
    prec: u8,
}

impl View for Op {
    type V = OpKind;

    closed spec fn view(&self) -> OpKind {
        self.kind
    }
}

impl Op {
    #[verifier::type_invariant]
    spec fn consistent(self) -> bool {
        self.prec == precedence(self.kind)
    }

    /// The operator of the given kind, with the precedence of that kind.
    pub fn new(kind: OpKind) -> (op: Self)
        ensures
            op@ == kind,
    {
        let prec: u8 = match kind {
            OpKind::Plus => 1,
            OpKind::Minus => 1,
            OpKind::Divide => 2,
            OpKind::Multiply => 2,
            OpKind::OpenParen => 3,
            OpKind::CloseParen => 3,
            OpKind::Unknown => 0,
        };
        Op { kind, prec }
    }

    /// The operator that the character `c` stands for.
    pub fn from_char(c: &char) -> (op: Self)
        ensures
            op@ == kind_of_char(*c),
    {
        let kind = match *c {
            '+' => OpKind::Plus,
            '-' => OpKind::Minus,
            '/' => OpKind::Divide,
            '*' => OpKind::Multiply,
            '(' => OpKind::OpenParen,
            ')' => OpKind::CloseParen,
            _ => OpKind::Unknown,
        };
        Op::new(kind)
    }

    /// The kind of this operator.
    pub fn kind(&self) -> (kind: OpKind)
        ensures
            kind == self@,
    {
        self.kind
    }

    /// The precedence of this operator, which is that of its kind.
    pub fn prec(&self) -> (prec: u8)
        ensures
            prec == precedence(self@),
    {
        proof {
            use_type_invariant(self);
        }
        self.prec
    }
}

/// Whether `c` is one of the six operator characters.
pub fn is_op(c: &char) -> (b: bool)
    ensures
        b == is_op_char(*c),
{
    let ops: [char; 6] = ['+', '-', '/', '*', '(', ')'];
    let mut i: usize = 0;
    while i < 6
        invariant
            i <= 6,
            ops@ == seq!['+', '-', '/', '*', '(', ')'],
            forall|j: int| 0 <= j < i ==> ops@[j] != *c,
        decreases 6 - i,
    {
        if *c == ops[i] {
            return true;
        }
        i += 1;
    }
    false
}

} // verus!
