use vstd::prelude::*;
use vstd::string::*;
use std::ops::Range;
use std::sync::Arc;
use crate::ids::hex_digit;
use crate::operation::{operation_sign, Operation, OperationError};

verus! {

/// An arithmetic expression: a number, or an operation on two
/// subexpressions together with its result.
#[derive(Debug, PartialEq, Eq, PartialOrd, Ord)]
pub enum Expression<T> {
    Leaf(T),
    Branch { a: Arc<Self>, b: Arc<Self>, operation: Operation, result: T },
}

/// The settings from which a random expression is drawn.
#[derive(Debug, PartialEq, Eq, Hash)]
pub struct ExpressionConfig<'a, T> {
    pub operations: &'a [Operation],
    pub fractional_count: u8,
    pub range: Range<T>,
    pub max_depth: u8,
}

/// Why no expression can be drawn.
#[derive(Debug, Clone, Copy, PartialEq, Eq, Structural, PartialOrd, Ord, Hash)]
pub enum ExpressionError {
    InvalidOperation(OperationError),
}

/// Why a number cannot be taken over exactly into another type.
#[derive(Debug, Clone, Copy, PartialEq, Eq, Structural, PartialOrd, Ord)]
pub enum FloatAsIntError {
    Overflow,
}

/// Numbers that can be drawn at random from a range, with `fix` decimal
/// digits.
pub trait RandomByRange<T>: Sized {
    fn random_range(range: Range<T>, fix: u8) -> Self;
}

/// Numbers that a number of type `F` converts into, where it does so
/// exactly.
pub trait FloatAsInt<F>: Sized {
    fn as_int(float: F) -> Result<Self, FloatAsIntError>;
}

/// The decimal digits of `n`, most significant first.
pub open spec fn nat_text(n: nat) -> Seq<char>
    decreases n,
{
    if n < 10 {
        seq![hex_digit(n as int)]
    } else {
        nat_text(n / 10) + seq![hex_digit((n % 10) as int)]
    }
}

/// The decimal text of `n`, with a leading `-` when it is negative.
pub open spec fn int_text(n: int) -> Seq<char> {
    if n < 0 {
        seq!['-'] + nat_text((-n) as nat)
    } else {
        nat_text(n as nat)
    }
}

/// The text of an expression: numbers in decimal, operations between
/// their operands with a space on each side, and an operand that is itself
/// an operation in parentheses.
pub open spec fn expression_text(e: Expression<i32>) -> Seq<char>
    decreases e,
{
    match e {
        Expression::Leaf(x) => int_text(x as int),
        Expression::Branch { a, b, operation, .. } => {
            let at = expression_text(*a);
            let bt = expression_text(*b);
            let ap = if *a is Branch { seq!['('] + at + seq![')'] } else { at };
            let bp = if *b is Branch { seq!['('] + bt + seq![')'] } else { bt };
            ap + seq![' '] + operation_sign(operation) + seq![' '] + bp
        },
    }
}

/// The numbers of an expression, from left to right.
pub open spec fn leaves<T>(e: Expression<T>) -> Seq<T>
    decreases e,
{
    match e {
        Expression::Leaf(x) => seq![x],
        Expression::Branch { a, b, .. } => leaves(*a) + leaves(*b),
    }
}

/// How many numbers an expression has.
pub open spec fn leaf_count<T>(e: Expression<T>) -> nat
    decreases e,
{
    match e {
        Expression::Leaf(_) => 1,
        Expression::Branch { a, b, .. } => leaf_count(*a) + leaf_count(*b),
    }
}

/// The text of an expression whose numbers, from left to right, read
/// `texts`: operations between their operands with a space on each side,
/// and an operand that is itself an operation in parentheses.
pub open spec fn laid_out<T>(e: Expression<T>, texts: Seq<Seq<char>>) -> Seq<char>
    decreases e,
{
    match e {
        Expression::Leaf(_) => texts[0],
        Expression::Branch { a, b, operation, .. } => {
            let n = leaf_count(*a) as int;
            let at = laid_out(*a, texts.take(n));
            let bt = laid_out(*b, texts.skip(n));
            let ap = if *a is Branch { seq!['('] + at + seq![')'] } else { at };
            let bp = if *b is Branch { seq!['('] + bt + seq![')'] } else { bt };
            ap + seq![' '] + operation_sign(operation) + seq![' '] + bp
        },
    }
}

/// The texts `texts` as sequences of characters.
pub open spec fn text_views(texts: Seq<String>) -> Seq<Seq<char>> {
    texts.map_values(|t: String| t@)
}

/// The result that an expression carries.
pub open spec fn result_of<T>(e: Expression<T>) -> T {
    match e {
        Expression::Leaf(x) => x,
        Expression::Branch { result, .. } => result,
    }
}

/// Calls `Arc::clone`: a new pointer to the same value.
#[verifier::external_body]
fn arc_clone<T>(a: &Arc<T>) -> (r: Arc<T>)
    ensures
        r == *a,
{
    Arc::clone(a)
}

/// The text of the digit `d`.
fn digit_text(d: u64) -> (s: &'static str)
    requires
        d < 10,
    ensures
        s@ == seq![hex_digit(d as int)],
{
    proof {
        reveal_strlit("0");
        reveal_strlit("1");
        reveal_strlit("2");
        reveal_strlit("3");
        reveal_strlit("4");
        reveal_strlit("5");
        reveal_strlit("6");
        reveal_strlit("7");
        reveal_strlit("8");
        reveal_strlit("9");
    }
    if d == 0 {
        "0"
    } else if d == 1 {
        "1"
    } else if d == 2 {
        "2"
    } else if d == 3 {
        "3"
    } else if d == 4 {
        "4"
    } else if d == 5 {
        "5"
    } else if d == 6 {
        "6"
    } else if d == 7 {
        "7"
    } else if d == 8 {
        "8"
    } else {
        "9"
    }
}

/// The decimal digits of `n`.
fn nat_string(n: u64) -> (s: String)
    ensures
        s@ == nat_text(n as nat),
    decreases n,
{
    if n < 10 {
        digit_text(n).to_owned()
    } else {
        nat_string(n / 10).concat(digit_text(n % 10))
    }
}

/// The decimal text of `n`.
pub fn int_string(n: i32) -> (s: String)
    ensures
        s@ == int_text(n as int),
{
    if n < 0 {
        let m: i64 = -(n as i64);
        proof {
            reveal_strlit("-");
        }
        "-".to_owned().concat(nat_string(m as u64).as_str())
    } else {
        nat_string(n as u64)
    }
}

impl<T: Copy> Clone for Expression<T> {
    fn clone(&self) -> (r: Self)
        ensures
            r == *self,
    {
        match self {
            Expression::Leaf(x) => Expression::Leaf(*x),
            Expression::Branch { a, b, operation, result } => Expression::Branch {
                a: arc_clone(a),
                b: arc_clone(b),
                operation: *operation,
                result: *result,
            },
        }
    }
}

impl<T> Expression<T> {
    /// The result of the expression: the number of a leaf, or the result
    /// stored with an operation.
    pub fn result(&self) -> (r: &T)
        ensures
            *r == result_of(*self),
    {
        match self {
            Expression::Leaf(result) => result,
            Expression::Branch { result, .. } => result,
        }
    }
}

impl Expression<i32> {
    /// The text of the expression, as `expression_text` describes it.
    pub fn to_string(&self) -> (s: String)
        ensures
            s@ == expression_text(*self),
        decreases *self,
    {
        match self {
            Expression::Leaf(x) => int_string(*x),
            Expression::Branch { a, b, operation, .. } => {
                let a_inner: &Expression<i32> = &**a;
                let b_inner: &Expression<i32> = &**b;
                let a_text = a_inner.to_string();
                let a_part = match a_inner {
                    Expression::Branch { .. } => {
                        proof {
                            reveal_strlit("(");
                            reveal_strlit(")");
                        }
                        "(".to_owned().concat(a_text.as_str()).concat(")")
                    },
                    Expression::Leaf(_) => a_text,
                };
                let b_text = b_inner.to_string();
                let b_part = match b_inner {
                    Expression::Branch { .. } => {
                        proof {
                            reveal_strlit("(");
                            reveal_strlit(")");
                        }
                        "(".to_owned().concat(b_text.as_str()).concat(")")
                    },
                    Expression::Leaf(_) => b_text,
                };
                let sign = operation.to_string();
                proof {
                    reveal_strlit(" ");
                }
                a_part.concat(" ").concat(sign.as_str()).concat(" ").concat(b_part.as_str())
            },
        }
    }
}

impl<T: Copy> Expression<T> {
    /// The numbers of the expression, from left to right.
    pub fn leaves(&self) -> (v: Vec<T>)
        ensures
            v@ == leaves(*self),
            v@.len() == leaf_count(*self),
        decreases *self,
    {
        match self {
            Expression::Leaf(x) => {
                let mut v: Vec<T> = Vec::new();
                v.push(*x);
                v
            },
            Expression::Branch { a, b, .. } => {
                let a_inner: &Expression<T> = &**a;
                let b_inner: &Expression<T> = &**b;
                let mut v = a_inner.leaves();
                let mut w = b_inner.leaves();
                v.append(&mut w);
                v
            },
        }
    }
}

impl<T> Expression<T> {
    /// The text of the expression whose numbers read `texts[start..]`, from
    /// left to right, and the index after the last one read.
    fn laid_out_from(&self, texts: &Vec<String>, start: usize) -> (r: (String, usize))
        requires
            start + leaf_count(*self) <= texts@.len(),
        ensures
            r.1 == start + leaf_count(*self),
            r.0@ == laid_out(*self, text_views(texts@).subrange(start as int, r.1 as int)),
        decreases *self,
    {
        let ghost all = text_views(texts@);
        match self {
            Expression::Leaf(_) => {
                assert(leaf_count(*self) == 1);
                let text = texts[start].clone();
                let count = texts.len();
                proof {
                    assert(start + 1 <= count);
                    assert(all.subrange(start as int, start + 1)[0] == texts@[start as int]@);
                }
                (text, start + 1)
            },
            Expression::Branch { a, b, operation, .. } => {
                let a_inner: &Expression<T> = &**a;
                let b_inner: &Expression<T> = &**b;
                let (a_text, mid) = a_inner.laid_out_from(texts, start);
                let (b_text, end) = b_inner.laid_out_from(texts, mid);
                proof {
                    let sub = all.subrange(start as int, end as int);
                    let n = leaf_count(*a_inner) as int;
                    assert(sub.take(n) =~= all.subrange(start as int, mid as int));
                    assert(sub.skip(n) =~= all.subrange(mid as int, end as int));
                }
                let a_part = match a_inner {
                    Expression::Branch { .. } => {
                        proof {
                            reveal_strlit("(");
                            reveal_strlit(")");
                        }
                        "(".to_owned().concat(a_text.as_str()).concat(")")
                    },
                    Expression::Leaf(_) => a_text,
                };
                let b_part = match b_inner {
                    Expression::Branch { .. } => {
                        proof {
                            reveal_strlit("(");
                            reveal_strlit(")");
                        }
                        "(".to_owned().concat(b_text.as_str()).concat(")")
                    },
                    Expression::Leaf(_) => b_text,
                };
                let sign = operation.to_string();
                proof {
                    reveal_strlit(" ");
                }
                (a_part.concat(" ").concat(sign.as_str()).concat(" ").concat(b_part.as_str()), end)
            },
        }
    }

    /// The text of the expression whose numbers, from left to right, read
    /// `texts`, laid out as `laid_out` says.
    pub fn text_with_leaves(&self, texts: &Vec<String>) -> (s: String)
        requires
            texts@.len() == leaf_count(*self),
        ensures
            s@ == laid_out(*self, text_views(texts@)),
    {
        let (text, _) = self.laid_out_from(texts, 0);
        proof {
            assert(text_views(texts@).subrange(0, texts@.len() as int) =~= text_views(texts@));
        }
        text
    }
}

} // verus!
