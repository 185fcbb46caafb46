//! The small algebraic layer: composition interfaces for the types the
//! move algebra is built from, and the two-element cyclic group that
//! tracks edge parity.

use vstd::prelude::*;

verus! {

/// A type with one closed binary operation.
pub trait Magma: Sized {
    /// Combines two values; for this library's types, "perform the right
    /// operand, then the left".
    fn op(self, other: Self) -> Self;
}

/// A magma whose operation is associative.  The law is proved per
/// implementing type, over its view: see `lemma_parity_associative` and
/// `lemma_sequence_op_associative`.
pub trait Semigroup: Magma {

}

/// A semigroup in which every element has an inverse.
pub trait InverseSemigroup: Semigroup {
    /// The value that undoes this one.
    fn inverse(self) -> Self;
}

/// A type with a fixed finite domain that can be listed in full.
pub trait FiniteEnumeration: Sized {
    /// Every value of the type, each exactly once.
    fn enumerate() -> Vec<Self>;
}

/// The orientation state of an edge piece: an element of the cyclic group
/// of order 2.  `Even` is the identity; combining is addition modulo 2.
#[derive(Debug, Clone, Copy, PartialEq, Eq, Structural)]
pub enum Parity {
    Even,
    Odd,
}

impl Parity {
    /// Group combination: addition modulo 2.
    pub open spec fn spec_op(self, other: Parity) -> Parity {
        if self == other {
            Parity::Even
        } else {
            Parity::Odd
        }
    }

    /// Group combination: addition modulo 2.
    pub fn combine(self, other: Parity) -> (r: Parity)
        ensures
            r == self.spec_op(other),
    {
        if self == other {
            Parity::Even
        } else {
            Parity::Odd
        }
    }

    /// The opposite parity.
    pub open spec fn spec_flip(self) -> Parity {
        match self {
            Parity::Even => Parity::Odd,
            Parity::Odd => Parity::Even,
        }
    }

    /// The opposite parity.
    pub fn flip(self) -> (r: Parity)
        ensures
            r == self.spec_flip(),
    {
        match self {
            Parity::Even => Parity::Odd,
            Parity::Odd => Parity::Even,
        }
    }

    /// The parity of `n` quarter-turn-like events: `Even` for even `n`.
    pub open spec fn spec_of_int(n: int) -> Parity {
        if n % 2 == 0 {
            Parity::Even
        } else {
            Parity::Odd
        }
    }
}

impl Magma for Parity {
    fn op(self, other: Self) -> Self {
        self.combine(other)
    }
}

impl Semigroup for Parity {

}

impl InverseSemigroup for Parity {
    fn inverse(self) -> Self {
        // Every parity is its own inverse.
        self
    }
}

impl FiniteEnumeration for Parity {
    fn enumerate() -> Vec<Self> {
        let mut v: Vec<Parity> = Vec::new();
        v.push(Parity::Even);
        v.push(Parity::Odd);
        v
    }
}

/// Parity combination is associative.
pub proof fn lemma_parity_associative(a: Parity, b: Parity, c: Parity)
    ensures
        a.spec_op(b).spec_op(c) == a.spec_op(b.spec_op(c)),
{
}

/// `Even` is the identity of parity combination.
pub proof fn lemma_parity_identity(a: Parity)
    ensures
        a.spec_op(Parity::Even) == a,
        Parity::Even.spec_op(a) == a,
{
}

/// Every parity is its own inverse: the group has order 2.
pub proof fn lemma_parity_self_inverse(a: Parity)
    ensures
        a.spec_op(a) == Parity::Even,
{
}

/// Parity combination is commutative.
pub proof fn lemma_parity_commutative(a: Parity, b: Parity)
    ensures
        a.spec_op(b) == b.spec_op(a),
{
}

} // verus!
