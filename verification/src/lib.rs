//! A parser-combinator toolkit: a small algebra of composable parsing
//! functions over sliceable inputs, building recursive-descent parsers by
//! combining primitives (literal match, numeric literal, whitespace skip,
//! predicate-based scan) with combinators (sequencing, mapping, repetition,
//! optionality, ordered choice, delimited lists).
//!
//! A parser is a value implementing [`ParseFn`]: it carries a total
//! specification-level semantics `sp` over the mathematical [`InputModel`] of
//! its input, an executable `parse` proved to agree with that semantics, and a
//! proof that every successful parse either leaves the input state unchanged
//! or strictly shrinks the remaining content.  The latter is what lets the
//! repetition combinators detect zero-width successes and stop.

pub mod combinators;
pub mod input;
pub mod laws;
pub mod mappers;
pub mod primitives;

use vstd::prelude::*;

use crate::combinators::{
    delim_rec, many_rec, AndThenC, ConstMapC, Delim0C, Delim1C, Many0C, Many1C, MapC, OptC, OrC,
    ZipC,
};
use crate::input::{fits, Dup, InputModel, StrBased};
use crate::mappers::{BindFn, MapFn, TakeLeft, TakeRight, ZipFn};

verus! {

/// The two-case outcome of any parse attempt: success carrying a value and
/// the remaining (unconsumed) input, or failure carrying no information.
#[derive(Clone, Debug, PartialEq, Eq)]
pub enum Parser<A, I> {
    Parsed { data: A, input: I },
    NoParse,
}

impl<A, I> Parser<A, I> {
    /// Project the outcome to an `Option`: success becomes the value, failure
    /// becomes absence.
    pub fn ok(self) -> (r: Option<A>)
        ensures
            match self {
                Parser::Parsed { data, input } => r == Some(data),
                Parser::NoParse => r == None::<A>,
            },
    {
        match self {
            Parser::Parsed { data, input: _unused } => Some(data),
            Parser::NoParse => None,
        }
    }

    /// Construction from a possibly absent outcome: a present outcome passes
    /// through, absence becomes failure.  This is the single conversion
    /// point where computations that may fail enter the result model.
    pub fn from_option(x: Option<Parser<A, I>>) -> (r: Parser<A, I>)
        ensures
            match x {
                Some(p) => r == p,
                None => r is NoParse,
            },
    {
        match x {
            Some(p) => p,
            None => Parser::NoParse,
        }
    }
}

/// The specification-level outcome of a parse attempt: the model of the value
/// found together with the model of the remaining input, or a miss.
pub enum SpResult<T> {
    Found { val: T, rest: InputModel },
    Missing,
}

/// What every well-behaved parse step guarantees: a success either leaves the
/// input state exactly unchanged or strictly shrinks the remaining content,
/// and it keeps the input within the machine limit `fits`.
pub open spec fn step_ok<T>(m: InputModel, r: SpResult<T>) -> bool {
    match r {
        SpResult::Found { val, rest } => {
            &&& rest.s.len() <= m.s.len()
            &&& rest == m || rest.s.len() < m.s.len()
            &&& fits(m) ==> fits(rest)
        },
        SpResult::Missing => true,
    }
}

/// The executable outcome `r` realizes the specification outcome `s`: both
/// miss, or both succeed with the same value model and the same remaining
/// input state.
pub open spec fn matches_model<A: DeepView, I: StrBased>(
    r: Parser<A, I>,
    s: SpResult<A::V>,
) -> bool {
    match r {
        Parser::Parsed { data, input } => s == (SpResult::Found {
            val: data.deep_view(),
            rest: input.model(),
        }),
        Parser::NoParse => s is Missing,
    }
}

/// A parsing function from an input to a [`Parser`] outcome, together with
/// its total specification-level semantics.
///
/// Implementations must be free of externally observable side effects: the
/// ordered-choice combinator silently discards the work of a failing branch,
/// and the repetition combinators re-run their sub-parser from intermediate
/// states.
pub trait ParseFn<I: StrBased>: Sized {
    /// The type of the value a successful parse produces.
    type T: DeepView;

    /// The semantics: what this parser returns on an input in the given
    /// state, as a total function of that state.
    spec fn sp(&self, m: InputModel) -> SpResult<<Self::T as DeepView>::V>;

    /// Run the parser once on `i`.
    fn parse(&self, i: I) -> (r: Parser<Self::T, I>)
        requires
            fits(i.model()),
        ensures
            matches_model(r, self.sp(i.model())),
    ;

    /// Every success either leaves the input state unchanged or strictly
    /// shrinks the remaining content, and respects the machine limit.
    proof fn wb(&self, m: InputModel)
        ensures
            step_ok(m, self.sp(m)),
    ;
}

/// A combinator: an immutable value wrapping a parsing function, composable
/// with others to build larger parsers.
pub struct TopParser<P, I> {
    pub parser: P,
    pub _marker: core::marker::PhantomData<I>,
}

impl<I: StrBased, P: ParseFn<I>> TopParser<P, I> {
    /// The semantics of the wrapped parsing function.
    pub open spec fn sp(&self, m: InputModel) -> SpResult<<P::T as DeepView>::V> {
        self.parser.sp(m)
    }

    /// Wrap a raw parsing function as a combinator.
    pub fn from_input_parser(f: P) -> (r: Self)
        ensures
            r.parser == f,
    {
        TopParser { parser: f, _marker: core::marker::PhantomData }
    }

    /// Invoke the wrapped parsing function once; no retries.
    pub fn parse(&self, input: I) -> (r: Parser<P::T, I>)
        requires
            fits(input.model()),
        ensures
            matches_model(r, self.sp(input.model())),
    {
        self.parser.parse(input)
    }

    /// Sequence with `other` and combine the values: run `self`; on success
    /// run `other` on the remainder; on double success return the combined
    /// value with `other`'s remainder; fail as soon as either side fails.
    pub fn zip<Q: ParseFn<I>, F: ZipFn<P::T, Q::T>>(self, other: TopParser<Q, I>, f: F) -> (r:
        TopParser<ZipC<P, Q, F>, I>)
        ensures
            forall|m: InputModel| #[trigger] r.sp(m) == (match self.sp(m) {
                SpResult::Found { val: a, rest: m1 } => match other.sp(m1) {
                    SpResult::Found { val: b, rest: m2 } => SpResult::Found {
                        val: f.sp(a, b),
                        rest: m2,
                    },
                    SpResult::Missing => SpResult::<<F::Out as DeepView>::V>::Missing,
                },
                SpResult::Missing => SpResult::Missing,
            }),
    {
        TopParser::from_input_parser(ZipC { p: self.parser, q: other.parser, f })
    }

    /// Sequence with `other`; require both to succeed; keep the first value
    /// but advance past both.
    pub fn left<Q: ParseFn<I>>(self, other: TopParser<Q, I>) -> (r: TopParser<
        ZipC<P, Q, TakeLeft>,
        I,
    >)
        ensures
            forall|m: InputModel| #[trigger] r.sp(m) == (match self.sp(m) {
                SpResult::Found { val: a, rest: m1 } => match other.sp(m1) {
                    SpResult::Found { val: b, rest: m2 } => SpResult::Found { val: a, rest: m2 },
                    SpResult::Missing => SpResult::<<P::T as DeepView>::V>::Missing,
                },
                SpResult::Missing => SpResult::Missing,
            }),
    {
        TopParser::from_input_parser(ZipC { p: self.parser, q: other.parser, f: TakeLeft })
    }

    /// Sequence with `other`; require both to succeed; keep the second value
    /// but advance past both.
    pub fn right<Q: ParseFn<I>>(self, other: TopParser<Q, I>) -> (r: TopParser<
        ZipC<P, Q, TakeRight>,
        I,
    >)
        ensures
            forall|m: InputModel| #[trigger] r.sp(m) == (match self.sp(m) {
                SpResult::Found { val: a, rest: m1 } => match other.sp(m1) {
                    SpResult::Found { val: b, rest: m2 } => SpResult::Found { val: b, rest: m2 },
                    SpResult::Missing => SpResult::<<Q::T as DeepView>::V>::Missing,
                },
                SpResult::Missing => SpResult::Missing,
            }),
    {
        TopParser::from_input_parser(ZipC { p: self.parser, q: other.parser, f: TakeRight })
    }

    /// Monadic bind: on success, hand the value to `f` to obtain a new
    /// parser, then run it on the remainder.  This lets a grammar make the
    /// next parser depend on a previously parsed value.
    pub fn and_then<F: BindFn<P::T, I>>(self, f: F) -> (r: TopParser<AndThenC<P, F>, I>)
        ensures
            forall|m: InputModel| #[trigger] r.sp(m) == (match self.sp(m) {
                SpResult::Found { val, rest } => f.sp(val, rest),
                SpResult::Missing => SpResult::Missing,
            }),
    {
        TopParser::from_input_parser(AndThenC { p: self.parser, f })
    }

    /// Transform the success value with `f`; failure passes through
    /// unchanged.
    pub fn map<F: MapFn<P::T>>(self, f: F) -> (r: TopParser<MapC<P, F>, I>)
        ensures
            forall|m: InputModel| #[trigger] r.sp(m) == (match self.sp(m) {
                SpResult::Found { val, rest } => SpResult::Found { val: f.sp(val), rest },
                SpResult::Missing => SpResult::Missing,
            }),
    {
        TopParser::from_input_parser(MapC { p: self.parser, f })
    }

    /// Replace the success value with the fixed value `b`, discarding the
    /// original; failure passes through.
    pub fn const_map<B: DeepView + Dup>(self, b: B) -> (r: TopParser<ConstMapC<P, B>, I>)
        ensures
            forall|m: InputModel| #[trigger] r.sp(m) == (match self.sp(m) {
                SpResult::Found { val, rest } => SpResult::Found { val: b.deep_view(), rest },
                SpResult::Missing => SpResult::Missing,
            }),
    {
        TopParser::from_input_parser(ConstMapC { p: self.parser, b })
    }

    /// Repetition, zero or more: repeatedly invoke `self`, collecting the
    /// accepted values in order; stop when it fails or when it succeeds
    /// without changing the input state; always succeed, possibly with an
    /// empty sequence, at the position where repetition stopped.
    pub fn many0(self) -> (r: TopParser<Many0C<P>, I>)
        ensures
            forall|m: InputModel| #[trigger] r.sp(m) == (SpResult::Found {
                val: many_rec(self.parser, m).0,
                rest: many_rec(self.parser, m).1,
            }),
    {
        TopParser::from_input_parser(Many0C { p: self.parser })
    }

    /// Repetition, one or more: the same loop as `many0`, but fail when zero
    /// iterations succeeded.
    pub fn many1(self) -> (r: TopParser<Many1C<P>, I>)
        ensures
            forall|m: InputModel| #[trigger] r.sp(m) == (if many_rec(self.parser, m).0.len()
                == 0 {
                SpResult::<Seq<<P::T as DeepView>::V>>::Missing
            } else {
                SpResult::Found { val: many_rec(self.parser, m).0, rest: many_rec(self.parser, m).1 }
            }),
    {
        TopParser::from_input_parser(Many1C { p: self.parser })
    }

    /// Never fail: on success wrap the value as present; on failure produce
    /// a present absence with the original input untouched.
    pub fn opt(self) -> (r: TopParser<OptC<P>, I>)
        ensures
            forall|m: InputModel| #[trigger] r.sp(m) == (match self.sp(m) {
                SpResult::Found { val, rest } => SpResult::Found { val: Some(val), rest },
                SpResult::Missing => SpResult::Found {
                    val: None::<<P::T as DeepView>::V>,
                    rest: m,
                },
            }),
    {
        TopParser::from_input_parser(OptC { p: self.parser })
    }

    /// Ordered choice: run `self`; when it fails, run `other` on the same
    /// original input and return whatever that attempt produces.  When
    /// `self` succeeds the result is `self`'s result exactly.
    pub fn or<Q: ParseFn<I, T = P::T>>(self, other: TopParser<Q, I>) -> (r: TopParser<
        OrC<P, Q>,
        I,
    >)
        ensures
            forall|m: InputModel| #[trigger] r.sp(m) == (if self.sp(m) is Found {
                self.sp(m)
            } else {
                other.sp(m)
            }),
    {
        TopParser::from_input_parser(OrC { p: self.parser, q: other.parser })
    }

    /// Delimited list, possibly empty: alternate between the item `self` and
    /// `delimiter`, starting with an item.  Stopping right after an item, or
    /// before any item, succeeds with the items collected; a dangling
    /// separator with at least one item collected fails the whole parse.
    pub fn delimited0<D: ParseFn<I>>(self, delimiter: TopParser<D, I>) -> (r: TopParser<
        Delim0C<P, D>,
        I,
    >)
        ensures
            forall|m: InputModel| #[trigger] r.sp(m) == ({
                let t = delim_rec(self.parser, delimiter.parser, m, true, true);
                if !t.2 || t.0.len() == 0 {
                    SpResult::Found { val: t.0, rest: t.1 }
                } else {
                    SpResult::Missing
                }
            }),
    {
        TopParser::from_input_parser(Delim0C { p: self.parser, d: delimiter.parser })
    }

    /// Delimited list, at least one item: as `delimited0`, but stopping
    /// while an item was expected fails, whatever was collected.
    pub fn delimited1<D: ParseFn<I>>(self, delimiter: TopParser<D, I>) -> (r: TopParser<
        Delim1C<P, D>,
        I,
    >)
        ensures
            forall|m: InputModel| #[trigger] r.sp(m) == ({
                let t = delim_rec(self.parser, delimiter.parser, m, true, true);
                if t.2 {
                    SpResult::<Seq<<P::T as DeepView>::V>>::Missing
                } else {
                    SpResult::Found { val: t.0, rest: t.1 }
                }
            }),
    {
        TopParser::from_input_parser(Delim1C { p: self.parser, d: delimiter.parser })
    }
}

} // verus!
