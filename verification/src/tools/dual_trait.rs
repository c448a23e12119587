//! Component-wise arithmetic for values made of two parts.

use std::fmt::Debug;
use std::ops::{Add, Div, Mul, Rem, Sub};
use vstd::prelude::*;
use vstd::std_specs::cmp::PartialEqSpec;
use vstd::std_specs::ops::{AddSpec, DivSpec, MulSpec, RemSpec, SubSpec};

verus! {

/// A value made of a first and a last part of one type, with arithmetic
/// that works on the two parts independently.
///
/// Every operation is stated over [`Algebra::pair`]. The arithmetic of the
/// parts is that of their type: each operation asks that the type's own
/// operator accepts the operands, and says what the operator's model gives.
/// Code that is compiled without being verified gives `pair` as an
/// ordinary function that returns the two parts.
pub trait Algebra: Sized + Debug {
    type Item: Add<Output = Self::Item> + Sub<Output = Self::Item> + Mul<Output = Self::Item> + Div<
        Output = Self::Item,
    > + Rem<Output = Self::Item> + Eq + Clone;

    /// The two parts, first then last.
    spec fn pair(&self) -> (Self::Item, Self::Item);

    fn new(first: Self::Item, last: Self::Item) -> (made: Self)
        ensures
            made.pair() == (first, last),
    ;

    fn first(&self) -> (part: Self::Item)
        ensures
            part == self.pair().0,
    ;

    fn last(&self) -> (part: Self::Item)
        ensures
            part == self.pair().1,
    ;

    /// Both parts are made from `value`: the last part is `value` itself,
    /// the first part a clone of it.
    fn splat(value: Self::Item) -> (made: Self)
        ensures
            cloned(value, made.pair().0),
            made.pair().1 == value,
    {
        Self::new(value.clone(), value)
    }

    fn add(&self, rhs: Self) -> (sum: Self)
        requires
            self.pair().0.add_req(rhs.pair().0),
            self.pair().1.add_req(rhs.pair().1),
        ensures
            <Self::Item as AddSpec>::obeys_add_spec() ==> sum.pair() == (
                self.pair().0.add_spec(rhs.pair().0),
                self.pair().1.add_spec(rhs.pair().1),
            ),
    {
        Self::new(self.first() + rhs.first(), self.last() + rhs.last())
    }

    fn add_assign(&mut self, rhs: Self)
        requires
            old(self).pair().0.add_req(rhs.pair().0),
            old(self).pair().1.add_req(rhs.pair().1),
        ensures
            <Self::Item as AddSpec>::obeys_add_spec() ==> final(self).pair() == (
                old(self).pair().0.add_spec(rhs.pair().0),
                old(self).pair().1.add_spec(rhs.pair().1),
            ),
    {
        *self = self.add(rhs)
    }

    fn sub(&self, rhs: Self) -> (difference: Self)
        requires
            self.pair().0.sub_req(rhs.pair().0),
            self.pair().1.sub_req(rhs.pair().1),
        ensures
            <Self::Item as SubSpec>::obeys_sub_spec() ==> difference.pair() == (
                self.pair().0.sub_spec(rhs.pair().0),
                self.pair().1.sub_spec(rhs.pair().1),
            ),
    {
        Self::new(self.first() - rhs.first(), self.last() - rhs.last())
    }

    fn sub_assign(&mut self, rhs: Self)
        requires
            old(self).pair().0.sub_req(rhs.pair().0),
            old(self).pair().1.sub_req(rhs.pair().1),
        ensures
            <Self::Item as SubSpec>::obeys_sub_spec() ==> final(self).pair() == (
                old(self).pair().0.sub_spec(rhs.pair().0),
                old(self).pair().1.sub_spec(rhs.pair().1),
            ),
    {
        *self = self.sub(rhs)
    }

    fn mul(&self, rhs: Self) -> (product: Self)
        requires
            self.pair().0.mul_req(rhs.pair().0),
            self.pair().1.mul_req(rhs.pair().1),
        ensures
            <Self::Item as MulSpec>::obeys_mul_spec() ==> product.pair() == (
                self.pair().0.mul_spec(rhs.pair().0),
                self.pair().1.mul_spec(rhs.pair().1),
            ),
    {
        Self::new(self.first() * rhs.first(), self.last() * rhs.last())
    }

    fn mul_assign(&mut self, rhs: Self)
        requires
            old(self).pair().0.mul_req(rhs.pair().0),
            old(self).pair().1.mul_req(rhs.pair().1),
        ensures
            <Self::Item as MulSpec>::obeys_mul_spec() ==> final(self).pair() == (
                old(self).pair().0.mul_spec(rhs.pair().0),
                old(self).pair().1.mul_spec(rhs.pair().1),
            ),
    {
        *self = self.mul(rhs)
    }

    fn div(&self, rhs: Self) -> (quotient: Self)
        requires
            self.pair().0.div_req(rhs.pair().0),
            self.pair().1.div_req(rhs.pair().1),
        ensures
            <Self::Item as DivSpec>::obeys_div_spec() ==> quotient.pair() == (
                self.pair().0.div_spec(rhs.pair().0),
                self.pair().1.div_spec(rhs.pair().1),
            ),
    {
        Self::new(self.first() / rhs.first(), self.last() / rhs.last())
    }

    fn div_assign(&mut self, rhs: Self)
        requires
            old(self).pair().0.div_req(rhs.pair().0),
            old(self).pair().1.div_req(rhs.pair().1),
        ensures
            <Self::Item as DivSpec>::obeys_div_spec() ==> final(self).pair() == (
                old(self).pair().0.div_spec(rhs.pair().0),
                old(self).pair().1.div_spec(rhs.pair().1),
            ),
    {
        *self = self.div(rhs)
    }

    fn rem(&self, rhs: Self) -> (remainder: Self)
        requires
            self.pair().0.rem_req(rhs.pair().0),
            self.pair().1.rem_req(rhs.pair().1),
        ensures
            <Self::Item as RemSpec>::obeys_rem_spec() ==> remainder.pair() == (
                self.pair().0.rem_spec(rhs.pair().0),
                self.pair().1.rem_spec(rhs.pair().1),
            ),
    {
        Self::new(self.first() % rhs.first(), self.last() % rhs.last())
    }

    fn rem_assign(&mut self, rhs: Self)
        requires
            old(self).pair().0.rem_req(rhs.pair().0),
            old(self).pair().1.rem_req(rhs.pair().1),
        ensures
            <Self::Item as RemSpec>::obeys_rem_spec() ==> final(self).pair() == (
                old(self).pair().0.rem_spec(rhs.pair().0),
                old(self).pair().1.rem_spec(rhs.pair().1),
            ),
    {
        *self = self.rem(rhs)
    }

    /// Whether both parts are equal, as the parts' own `==` judges it.
    fn eq(&self, rhs: Self) -> (same: bool)
        ensures
            <Self::Item as PartialEqSpec>::obeys_eq_spec() ==> same == (self.pair().0.eq_spec(
                &rhs.pair().0,
            ) && self.pair().1.eq_spec(&rhs.pair().1)),
    {
        self.first() == rhs.first() && self.last() == rhs.last()
    }

    fn from_tuple(tuple: (Self::Item, Self::Item)) -> (made: Self)
        ensures
            made.pair() == tuple,
    {
        Self::new(tuple.0, tuple.1)
    }

    fn tuple(&self) -> (parts: (Self::Item, Self::Item))
        ensures
            parts == self.pair(),
    {
        (self.first(), self.last())
    }

    fn add_self(&self) -> (sum: Self::Item)
        requires
            self.pair().0.add_req(self.pair().1),
        ensures
            <Self::Item as AddSpec>::obeys_add_spec() ==> sum == self.pair().0.add_spec(
                self.pair().1,
            ),
    {
        self.first() + self.last()
    }

    fn mul_self(&self) -> (product: Self::Item)
        requires
            self.pair().0.mul_req(self.pair().1),
        ensures
            <Self::Item as MulSpec>::obeys_mul_spec() ==> product == self.pair().0.mul_spec(
                self.pair().1,
            ),
    {
        self.first() * self.last()
    }
}

/// The same two parts in another type of this kind.
pub fn into_dual<A: Algebra, B: Algebra<Item = A::Item>>(value: &A) -> (other: B)
    ensures
        other.pair() == value.pair(),
{
    B::new(value.first(), value.last())
}

} // verus!
