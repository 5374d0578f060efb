use vstd::prelude::*;

verus! {

/// An arithmetic operation of an expression.
#[derive(Debug, Clone, Copy, PartialEq, Eq, Structural, PartialOrd, Ord, Hash)]
pub enum Operation {
    Add,
    Sub,
    Mul,
    Div,
}

/// Why no operation can be picked.
#[derive(Debug, Clone, Copy, PartialEq, Eq, Structural, PartialOrd, Ord, Hash)]
pub enum OperationError {
    NoOperations,
}

/// The sign that stands for the operation in an expression's text.
pub open spec fn operation_sign(op: Operation) -> Seq<char> {
    match op {
        Operation::Add => seq!['+'],
        Operation::Sub => seq!['-'],
        Operation::Mul => seq!['*'],
        Operation::Div => seq!['/'],
    }
}

/// Calls `rand::seq::IndexedRandom::choose` on `operations` with the
/// thread-local generator (`rand::rng()`): `None` for an empty slice, else
/// one of its elements, picked at random. Which one is not stated.
#[verifier::external_body]
fn choose_operation(operations: &[Operation]) -> (r: Option<Operation>)
    ensures
        r is None <==> operations@.len() == 0,
        r matches Some(op) ==> operations@.contains(op),
{
    rand::seq::IndexedRandom::choose(operations, &mut rand::rng()).copied()
}

impl Operation {
    /// The four operations, in the order `Add`, `Sub`, `Mul`, `Div`.
    pub fn all() -> (ops: [Self; 4])
        ensures
            ops@ == seq![Operation::Add, Operation::Sub, Operation::Mul, Operation::Div],
    {
        [Operation::Add, Operation::Sub, Operation::Mul, Operation::Div]
    }

    /// One of `operations`, picked at random; an error if there are none.
    pub fn from_array(operations: &[Operation]) -> (r: Result<Self, OperationError>)
        ensures
            r is Err <==> operations@.len() == 0,
            r is Err ==> r->Err_0 == OperationError::NoOperations,
            r matches Ok(op) ==> operations@.contains(op),
    {
        match choose_operation(operations) {
            Some(op) => Ok(op),
            None => Err(OperationError::NoOperations),
        }
    }

    /// The sign of the operation: `+`, `-`, `*` or `/`.
    pub fn to_string(&self) -> (s: String)
        ensures
            s@ == operation_sign(*self),
    {
        let sign: &str = match self {
            Operation::Add => "+",
            Operation::Sub => "-",
            Operation::Mul => "*",
            Operation::Div => "/",
        };
        proof {
            reveal_strlit("+");
            reveal_strlit("-");
            reveal_strlit("*");
            reveal_strlit("/");
        }
        sign.to_owned()
    }
}

} // verus!
