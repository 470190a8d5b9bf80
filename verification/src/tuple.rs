//! Tuples of extracted values, and their concatenation.
//!
//! A tuple is a list of values of any types, built from `Nil` by `Cons`.
//! Its type says how many values it holds and of which types. Chained
//! filters concatenate what they extract, so the chain of three filters
//! extracts one flat tuple, however the three were grouped.
use vstd::prelude::*;

verus! {

/// The tuple of no values.
#[derive(Clone, Copy, Debug, PartialEq, Eq)]
pub struct Nil;

/// The tuple of `head` and the values of `tail`, in that order.
#[derive(Debug, PartialEq, Eq)]
pub struct Cons<H, T> {
    /// The first value.
    pub head: H,
    /// The values after the first.
    pub tail: T,
}

/// The tuple of one value.
pub type One<H> = Cons<H, Nil>;

/// The tuple of `value` alone.
pub fn one<H>(value: H) -> (tuple: One<H>)
    ensures
        tuple == (Cons { head: value, tail: Nil }),
{
    Cons { head: value, tail: Nil }
}

/// A tuple: `Nil`, or `Cons` of a value and a tuple.
pub trait Tuple: Sized {
    /// The number of values in a tuple of this type.
    spec fn arity() -> nat;
}

impl Tuple for Nil {
    open spec fn arity() -> nat {
        0
    }
}

impl<H, T: Tuple> Tuple for Cons<H, T> {
    open spec fn arity() -> nat {
        T::arity() + 1
    }
}

/// Concatenation with a tuple of type `R`.
pub trait Combine<R: Tuple>: Tuple {
    /// The type of the concatenation.
    type Output: Tuple;

    /// The values of `self` and then the values of `rest`, each in their
    /// order.
    spec fn combined(self, rest: R) -> Self::Output;

    /// Concatenates `self` and `rest`.
    fn combine(self, rest: R) -> (out: Self::Output)
        ensures
            out == self.combined(rest),
    ;

    /// A concatenation holds as many values as its two parts together.
    proof fn lemma_arity_adds_up()
        ensures
            Self::Output::arity() == Self::arity() + R::arity(),
    ;
}

impl<R: Tuple> Combine<R> for Nil {
    type Output = R;

    open spec fn combined(self, rest: R) -> R {
        rest
    }

    fn combine(self, rest: R) -> (out: R) {
        rest
    }

    proof fn lemma_arity_adds_up() {
    }
}

impl<H, T: Combine<R>, R: Tuple> Combine<R> for Cons<H, T> {
    type Output = Cons<H, T::Output>;

    open spec fn combined(self, rest: R) -> Cons<H, T::Output> {
        Cons { head: self.head, tail: self.tail.combined(rest) }
    }

    fn combine(self, rest: R) -> (out: Cons<H, T::Output>) {
        Cons { head: self.head, tail: self.tail.combine(rest) }
    }

    proof fn lemma_arity_adds_up() {
        T::lemma_arity_adds_up();
    }
}

/// The concatenation of this tuple with one of type `Y` and one of type
/// `Z`, which comes to one type and one value however the three are
/// grouped.
pub trait Regroup<Y: Combine<Z>, Z: Tuple>: Combine<Y> + Combine<<Y as Combine<Z>>::Output> where
    <Self as Combine<Y>>::Output: Combine<
        Z,
        Output = <Self as Combine<<Y as Combine<Z>>::Output>>::Output,
    >,
 {
    /// Concatenation is associative: `(self, y), z` and `self, (y, z)` are
    /// the same tuple.
    proof fn lemma_combine_is_associative(self, y: Y, z: Z)
        ensures
            <<Self as Combine<Y>>::Output as Combine<Z>>::combined(
                <Self as Combine<Y>>::combined(self, y),
                z,
            ) == <Self as Combine<<Y as Combine<Z>>::Output>>::combined(self, y.combined(z)),
    ;
}

impl<Y: Combine<Z>, Z: Tuple> Regroup<Y, Z> for Nil {
    proof fn lemma_combine_is_associative(self, y: Y, z: Z) {
    }
}

impl<H, T, Y: Combine<Z>, Z: Tuple> Regroup<Y, Z> for Cons<H, T> where
    T: Regroup<Y, Z>,
    <T as Combine<Y>>::Output: Combine<
        Z,
        Output = <T as Combine<<Y as Combine<Z>>::Output>>::Output,
    >,
 {
    proof fn lemma_combine_is_associative(self, y: Y, z: Z) {
        self.tail.lemma_combine_is_associative(y, z);
    }
}

} // verus!
