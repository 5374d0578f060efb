use vstd::prelude::*;
use crate::expression::{result_of, Expression, ExpressionError};
use crate::ids::{is_uuid_v7, QuestionId, VariantId};

verus! {

/// The number of answer variants of a question.
pub const VARIANTS_COUNT: usize = 4;

/// Why an answer cannot be checked, or a question not made.
#[derive(Debug, Clone, Copy, PartialEq, Eq, Structural, PartialOrd, Ord, Hash)]
pub enum QuestionError {
    NotRelevant,
    ExpressionError(ExpressionError),
}

/// How hard the expressions of a quiz are.
#[derive(Debug, Default, Clone, Copy, PartialEq, Eq, Structural, PartialOrd, Ord, Hash)]
pub enum Complexity {
    #[default]
    Easy,
    Medium,
    Hard,
}

/// One answer offered for a question.
#[derive(Debug, Clone, Copy)]
pub struct Variant<T> {
    id: VariantId,
    question_id: QuestionId,
    value: T,
}

/// What a variant is made of, as plain values.
pub struct VariantView<T> {
    pub id: u128,
    pub question_id: u128,
    pub value: T,
}

impl<T> View for Variant<T> {
    type V = VariantView<T>;

    closed spec fn view(&self) -> VariantView<T> {
        VariantView { id: self.id@, question_id: self.question_id@, value: self.value }
    }
}

impl<T: Copy> Variant<T> {
    /// A variant with a fresh identifier.
    pub fn new(question_id: QuestionId, value: T) -> (v: Self)
        ensures
            v@.question_id == question_id@,
            v@.value == value,
            is_uuid_v7(v@.id),
    {
        Variant { id: VariantId::random(), question_id, value }
    }

    pub fn question_id(&self) -> (id: QuestionId)
        ensures
            id@ == self@.question_id,
    {
        self.question_id
    }

    pub fn id(&self) -> (id: VariantId)
        ensures
            id@ == self@.id,
    {
        self.id
    }

    pub fn value(&self) -> (v: T)
        ensures
            v == self@.value,
    {
        self.value
    }
}

/// Calls `rand::random_range(0..n)`: an index below `n`, picked at
/// random. Which one is not stated.
#[verifier::external_body]
pub(crate) fn random_index(n: usize) -> (i: usize)
    requires
        n > 0,
    ensures
        i < n,
{
    rand::random_range(0..n)
}

/// A question: an expression to evaluate and the variants offered, one of
/// them carrying the expression's result.
#[derive(Debug)]
pub struct Question<T> {
    id: QuestionId,
    expression: Expression<T>,
    variants: [Variant<T>; 4],
    correct_variant_id: VariantId,
}

impl<T: Copy> Clone for Question<T> {
    fn clone(&self) -> (r: Self)
        ensures
            r == *self,
    {
        Question {
            id: self.id,
            expression: self.expression.clone(),
            variants: self.variants,
            correct_variant_id: self.correct_variant_id,
        }
    }
}

impl<T> Question<T> {
    pub closed spec fn spec_id(&self) -> u128 {
        self.id@
    }

    pub closed spec fn spec_expression(&self) -> Expression<T> {
        self.expression
    }

    pub closed spec fn spec_variants(&self) -> Seq<VariantView<T>> {
        self.variants@.map_values(|v: Variant<T>| v@)
    }

    pub closed spec fn spec_correct_variant_id(&self) -> u128 {
        self.correct_variant_id@
    }
}

impl<T: Copy> Question<T> {
    /// A question with a fresh identifier on `expression`: the variants
    /// carry the values `distractors`, in order, except one, picked at
    /// random, that carries the expression's result instead and is the
    /// correct one. Every variant has a fresh identifier.
    pub fn new(expression: Expression<T>, distractors: [T; 4]) -> (q: Self)
        ensures
            is_uuid_v7(q.spec_id()),
            q.spec_expression() == expression,
            q.spec_variants().len() == VARIANTS_COUNT,
            forall|k: int| 0 <= k < 4 ==> (#[trigger] q.spec_variants()[k]).question_id == q.spec_id(),
            exists|c: int|
                0 <= c < 4 && {
                    &&& (#[trigger] q.spec_variants()[c]).value == result_of(expression)
                    &&& q.spec_variants()[c].id == q.spec_correct_variant_id()
                    &&& forall|k: int| 0 <= k < 4 && k != c ==> (#[trigger] q.spec_variants()[k]).value == distractors@[k]
                },
            is_uuid_v7(q.spec_correct_variant_id()),
    {
        let idx = random_index(VARIANTS_COUNT);
        Self::with_correct_at(expression, distractors, idx)
    }

    /// A question with a fresh identifier on `expression`: the variants
    /// carry the values `distractors`, in order, except the one at
    /// `correct_at`, which carries the expression's result instead and is
    /// the correct one. Every variant has a fresh identifier.
    pub fn with_correct_at(expression: Expression<T>, distractors: [T; 4], correct_at: usize) -> (q: Self)
        requires
            correct_at < VARIANTS_COUNT,
        ensures
            is_uuid_v7(q.spec_id()),
            q.spec_expression() == expression,
            q.spec_variants().len() == VARIANTS_COUNT,
            forall|k: int| 0 <= k < 4 ==> (#[trigger] q.spec_variants()[k]).question_id == q.spec_id(),
            q.spec_variants()[correct_at as int].value == result_of(expression),
            q.spec_variants()[correct_at as int].id == q.spec_correct_variant_id(),
            forall|k: int| 0 <= k < 4 && k != correct_at ==> (#[trigger] q.spec_variants()[k]).value == distractors@[k],
            is_uuid_v7(q.spec_correct_variant_id()),
    {
        let id = QuestionId::random();
        let correct: T = *expression.result();
        let mut variants = [
            Variant::new(id, distractors[0]),
            Variant::new(id, distractors[1]),
            Variant::new(id, distractors[2]),
            Variant::new(id, distractors[3]),
        ];
        let right = Variant::new(id, correct);
        variants[correct_at] = right;
        let correct_variant_id = right.id();
        let q = Question { id, expression, variants, correct_variant_id };
        proof {
            assert(q.spec_variants()[correct_at as int] == right@);
        }
        q
    }

}

impl<T> Question<T> {
    /// Whether `variant_id` is the correct answer; an error if the answer is
    /// given to another question.
    pub fn check_answer(&self, question_id: QuestionId, variant_id: VariantId) -> (r: Result<
        bool,
        QuestionError,
    >)
        ensures
            question_id@ != self.spec_id() <==> r == Err::<bool, QuestionError>(
                QuestionError::NotRelevant,
            ),
            question_id@ == self.spec_id() ==> r == Ok::<bool, QuestionError>(
                variant_id@ == self.spec_correct_variant_id(),
            ),
    {
        if question_id.value() != self.id.value() {
            return Err(QuestionError::NotRelevant);
        }
        Ok(self.correct_variant_id.value() == variant_id.value())
    }

    pub fn id(&self) -> (id: QuestionId)
        ensures
            id@ == self.spec_id(),
    {
        self.id
    }

    pub fn expression(&self) -> (e: &Expression<T>)
        ensures
            *e == self.spec_expression(),
    {
        &self.expression
    }

    pub fn variants(&self) -> (v: &[Variant<T>; 4])
        ensures
            v@.map_values(|x: Variant<T>| x@) == self.spec_variants(),
    {
        &self.variants
    }

    pub fn correct_variant_id(&self) -> (id: VariantId)
        ensures
            id@ == self.spec_correct_variant_id(),
    {
        self.correct_variant_id
    }
}

} // verus!
