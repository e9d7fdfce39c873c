//! Function objects handed to the combinators.
//!
//! The combinators cannot take arbitrary closures: every function a
//! combinator applies must carry a specification-level form beside its
//! executable one, so each auxiliary function is a small value implementing
//! one of the traits below.

use vstd::prelude::*;

use crate::input::{Dup, InputModel, StrBased};
use crate::combinators::{ConstMapC, MapC};
use crate::{step_ok, ParseFn, SpResult, TopParser};

verus! {

/// A function from `A` values to `Self::Out` values, with both a
/// specification and an executable form, stated over the value models.
pub trait MapFn<A: DeepView>: Sized {
    /// The result type.
    type Out: DeepView;

    /// What the function returns, over the value models.
    spec fn sp(&self, a: A::V) -> <Self::Out as DeepView>::V;

    /// Apply the function.
    fn call(&self, a: A) -> (r: Self::Out)
        ensures
            r.deep_view() == self.sp(a.deep_view()),
    ;
}

/// A function combining an `A` value and a `B` value into a `Self::Out`
/// value, with both a specification and an executable form.
pub trait ZipFn<A: DeepView, B: DeepView>: Sized {
    /// The result type.
    type Out: DeepView;

    /// What the function returns, over the value models.
    spec fn sp(&self, a: A::V, b: B::V) -> <Self::Out as DeepView>::V;

    /// Apply the function.
    fn call(&self, a: A, b: B) -> (r: Self::Out)
        ensures
            r.deep_view() == self.sp(a.deep_view(), b.deep_view()),
    ;
}

/// A function from an `A` value to a whole parser: the monadic bind used by
/// `and_then`, which lets the next parser depend on a previously parsed
/// value.  `sp` gives the semantics of the produced parser as a function of
/// the bound value's model, and the produced parser must be as well-behaved
/// as any other.
pub trait BindFn<A: DeepView, I: StrBased>: Sized {
    /// The parser type produced.
    type OutP: ParseFn<I>;

    /// The semantics of the parser produced for a bound value with model
    /// `a`, on an input in state `m`.
    spec fn sp(&self, a: A::V, m: InputModel) -> SpResult<
        <<Self::OutP as ParseFn<I>>::T as DeepView>::V,
    >;

    /// Produce the parser for the bound value `a`.
    fn call(&self, a: A) -> (q: TopParser<Self::OutP, I>)
        ensures
            forall|m: InputModel| #[trigger] q.sp(m) == self.sp(a.deep_view(), m),
    ;

    /// The produced parser is well-behaved for every bound value.
    proof fn wb(&self, a: A::V, m: InputModel)
        ensures
            step_ok(m, self.sp(a, m)),
    ;
}

/// Keep the first of two values.
pub struct TakeLeft;

impl Dup for TakeLeft {
    fn dup(&self) -> (r: Self) {
        TakeLeft
    }
}

impl<A: DeepView, B: DeepView> ZipFn<A, B> for TakeLeft {
    type Out = A;

    open spec fn sp(&self, a: A::V, b: B::V) -> A::V {
        a
    }

    fn call(&self, a: A, b: B) -> (r: A) {
        a
    }
}

/// Keep the second of two values.
pub struct TakeRight;

impl Dup for TakeRight {
    fn dup(&self) -> (r: Self) {
        TakeRight
    }
}

impl<A: DeepView, B: DeepView> ZipFn<A, B> for TakeRight {
    type Out = B;

    open spec fn sp(&self, a: A::V, b: B::V) -> B::V {
        b
    }

    fn call(&self, a: A, b: B) -> (r: B) {
        b
    }
}

/// Pair a held value with the argument: `b` becomes `(a, b)`.
pub struct PairWith<A> {
    pub a: A,
}

impl<A: Dup> Dup for PairWith<A> {
    fn dup(&self) -> (r: Self) {
        PairWith { a: self.a.dup() }
    }
}

impl<A: DeepView + Dup, B: DeepView> MapFn<B> for PairWith<A> {
    type Out = (A, B);

    open spec fn sp(&self, b: B::V) -> (A::V, B::V) {
        (self.a.deep_view(), b)
    }

    fn call(&self, b: B) -> (r: (A, B)) {
        (self.a.dup(), b)
    }
}

/// A bind that keeps the bound value: the produced parser runs `q` on the
/// remainder, discards `q`'s value and returns the bound value.
pub struct BindLeft<Q> {
    pub q: Q,
}

impl<Q: Dup> Dup for BindLeft<Q> {
    fn dup(&self) -> (r: Self) {
        BindLeft { q: self.q.dup() }
    }
}

impl<Q> BindLeft<Q> {
    /// Build from a combinator.
    pub fn new<I: StrBased>(tp: TopParser<Q, I>) -> (r: Self) where Q: ParseFn<I>
        ensures
            r.q == tp.parser,
    {
        BindLeft { q: tp.parser }
    }
}

impl<A: DeepView + Dup, I: StrBased, Q: ParseFn<I> + Dup> BindFn<A, I> for BindLeft<Q> {
    type OutP = ConstMapC<Q, A>;

    open spec fn sp(&self, a: A::V, m: InputModel) -> SpResult<A::V> {
        match self.q.sp(m) {
            SpResult::Found { val, rest } => SpResult::Found { val: a, rest },
            SpResult::Missing => SpResult::Missing,
        }
    }

    fn call(&self, a: A) -> (r: TopParser<ConstMapC<Q, A>, I>) {
        TopParser::from_input_parser(ConstMapC { p: self.q.dup(), b: a })
    }

    proof fn wb(&self, a: A::V, m: InputModel) {
        self.q.wb(m);
    }
}

/// A bind that discards the bound value: the produced parser is `q` itself.
pub struct BindRight<Q> {
    pub q: Q,
}

impl<Q: Dup> Dup for BindRight<Q> {
    fn dup(&self) -> (r: Self) {
        BindRight { q: self.q.dup() }
    }
}

impl<Q> BindRight<Q> {
    /// Build from a combinator.
    pub fn new<I: StrBased>(tp: TopParser<Q, I>) -> (r: Self) where Q: ParseFn<I>
        ensures
            r.q == tp.parser,
    {
        BindRight { q: tp.parser }
    }
}

impl<A: DeepView, I: StrBased, Q: ParseFn<I> + Dup> BindFn<A, I> for BindRight<Q> {
    type OutP = Q;

    open spec fn sp(&self, a: A::V, m: InputModel) -> SpResult<<Q::T as DeepView>::V> {
        self.q.sp(m)
    }

    fn call(&self, a: A) -> (r: TopParser<Q, I>) {
        TopParser::from_input_parser(self.q.dup())
    }

    proof fn wb(&self, a: A::V, m: InputModel) {
        self.q.wb(m);
    }
}

/// A bind that pairs the bound value with the next one: the produced parser
/// runs `q` on the remainder and returns the pair of the bound value and
/// `q`'s value.
pub struct BindPair<Q> {
    pub q: Q,
}

impl<Q: Dup> Dup for BindPair<Q> {
    fn dup(&self) -> (r: Self) {
        BindPair { q: self.q.dup() }
    }
}

impl<Q> BindPair<Q> {
    /// Build from a combinator.
    pub fn new<I: StrBased>(tp: TopParser<Q, I>) -> (r: Self) where Q: ParseFn<I>
        ensures
            r.q == tp.parser,
    {
        BindPair { q: tp.parser }
    }
}

impl<A: DeepView + Dup, I: StrBased, Q: ParseFn<I> + Dup> BindFn<A, I> for BindPair<Q> {
    type OutP = MapC<Q, PairWith<A>>;

    open spec fn sp(&self, a: A::V, m: InputModel) -> SpResult<(A::V, <Q::T as DeepView>::V)> {
        match self.q.sp(m) {
            SpResult::Found { val, rest } => SpResult::Found { val: (a, val), rest },
            SpResult::Missing => SpResult::Missing,
        }
    }

    fn call(&self, a: A) -> (r: TopParser<MapC<Q, PairWith<A>>, I>) {
        TopParser::from_input_parser(MapC { p: self.q.dup(), f: PairWith { a } })
    }

    proof fn wb(&self, a: A::V, m: InputModel) {
        self.q.wb(m);
    }
}

} // verus!
