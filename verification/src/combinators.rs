//! The combinator core: each composition operator is a concrete parser value
//! holding its operands as owned fields.

use vstd::prelude::*;

use crate::input::{fits, Dup, InputModel, StrBased};
use crate::mappers::{BindFn, MapFn, ZipFn};
use crate::{Parser, ParseFn, SpResult};

verus! {

/// Sequence two parsers and combine their values: run `p`; on success run
/// `q` on the remainder; on double success combine the two values with `f`.
pub struct ZipC<P, Q, F> {
    pub p: P,
    pub q: Q,
    pub f: F,
}

impl<P: Dup, Q: Dup, F: Dup> Dup for ZipC<P, Q, F> {
    fn dup(&self) -> (r: Self) {
        ZipC { p: self.p.dup(), q: self.q.dup(), f: self.f.dup() }
    }
}

impl<I: StrBased, P: ParseFn<I>, Q: ParseFn<I>, F: ZipFn<P::T, Q::T>> ParseFn<I> for ZipC<
    P,
    Q,
    F,
> {
    type T = F::Out;

    open spec fn sp(&self, m: InputModel) -> SpResult<<F::Out as DeepView>::V> {
        match self.p.sp(m) {
            SpResult::Found { val: a, rest: m1 } => match self.q.sp(m1) {
                SpResult::Found { val: b, rest: m2 } => SpResult::Found {
                    val: self.f.sp(a, b),
                    rest: m2,
                },
                SpResult::Missing => SpResult::Missing,
            },
            SpResult::Missing => SpResult::Missing,
        }
    }

    fn parse(&self, i: I) -> (r: Parser<F::Out, I>) {
        let ghost m0 = i.model();
        match self.p.parse(i) {
            Parser::Parsed { data: a, input: j } => {
                proof {
                    self.p.wb(m0);
                }
                match self.q.parse(j) {
                    Parser::Parsed { data: b, input: k } => Parser::Parsed {
                        data: self.f.call(a, b),
                        input: k,
                    },
                    Parser::NoParse => Parser::NoParse,
                }
            },
            Parser::NoParse => Parser::NoParse,
        }
    }

    proof fn wb(&self, m: InputModel) {
        self.p.wb(m);
        match self.p.sp(m) {
            SpResult::Found { val: a, rest: m1 } => {
                self.q.wb(m1);
            },
            SpResult::Missing => {},
        }
    }
}

/// Transform the success value of `p` with `f`; failure passes through.
pub struct MapC<P, F> {
    pub p: P,
    pub f: F,
}

impl<P: Dup, F: Dup> Dup for MapC<P, F> {
    fn dup(&self) -> (r: Self) {
        MapC { p: self.p.dup(), f: self.f.dup() }
    }
}

impl<I: StrBased, P: ParseFn<I>, F: MapFn<P::T>> ParseFn<I> for MapC<P, F> {
    type T = F::Out;

    open spec fn sp(&self, m: InputModel) -> SpResult<<F::Out as DeepView>::V> {
        match self.p.sp(m) {
            SpResult::Found { val, rest } => SpResult::Found { val: self.f.sp(val), rest },
            SpResult::Missing => SpResult::Missing,
        }
    }

    fn parse(&self, i: I) -> (r: Parser<F::Out, I>) {
        match self.p.parse(i) {
            Parser::Parsed { data, input } => Parser::Parsed {
                data: self.f.call(data),
                input,
            },
            Parser::NoParse => Parser::NoParse,
        }
    }

    proof fn wb(&self, m: InputModel) {
        self.p.wb(m);
    }
}

/// Replace the success value of `p` with a fixed value; failure passes
/// through.
pub struct ConstMapC<P, B> {
    pub p: P,
    pub b: B,
}

impl<P: Dup, B: Dup> Dup for ConstMapC<P, B> {
    fn dup(&self) -> (r: Self) {
        ConstMapC { p: self.p.dup(), b: self.b.dup() }
    }
}

impl<I: StrBased, P: ParseFn<I>, B: DeepView + Dup> ParseFn<I> for ConstMapC<P, B> {
    type T = B;

    open spec fn sp(&self, m: InputModel) -> SpResult<B::V> {
        match self.p.sp(m) {
            SpResult::Found { val, rest } => SpResult::Found { val: self.b.deep_view(), rest },
            SpResult::Missing => SpResult::Missing,
        }
    }

    fn parse(&self, i: I) -> (r: Parser<B, I>) {
        match self.p.parse(i) {
            Parser::Parsed { data, input } => Parser::Parsed { data: self.b.dup(), input },
            Parser::NoParse => Parser::NoParse,
        }
    }

    proof fn wb(&self, m: InputModel) {
        self.p.wb(m);
    }
}

/// Monadic bind: run `p`; on success hand the value to `f` to obtain the
/// next parser, and run that on the remainder.
pub struct AndThenC<P, F> {
    pub p: P,
    pub f: F,
}

impl<P: Dup, F: Dup> Dup for AndThenC<P, F> {
    fn dup(&self) -> (r: Self) {
        AndThenC { p: self.p.dup(), f: self.f.dup() }
    }
}

impl<I: StrBased, P: ParseFn<I>, F: BindFn<P::T, I>> ParseFn<I> for AndThenC<P, F> {
    type T = <F::OutP as ParseFn<I>>::T;

    open spec fn sp(&self, m: InputModel) -> SpResult<
        <<F::OutP as ParseFn<I>>::T as DeepView>::V,
    > {
        match self.p.sp(m) {
            SpResult::Found { val, rest } => self.f.sp(val, rest),
            SpResult::Missing => SpResult::Missing,
        }
    }

    fn parse(&self, i: I) -> (r: Parser<<F::OutP as ParseFn<I>>::T, I>) {
        let ghost m0 = i.model();
        match self.p.parse(i) {
            Parser::Parsed { data, input: j } => {
                proof {
                    self.p.wb(m0);
                }
                let q = self.f.call(data);
                q.parse(j)
            },
            Parser::NoParse => Parser::NoParse,
        }
    }

    proof fn wb(&self, m: InputModel) {
        self.p.wb(m);
        match self.p.sp(m) {
            SpResult::Found { val, rest } => {
                self.f.wb(val, rest);
            },
            SpResult::Missing => {},
        }
    }
}

/// Never fail: wrap a success value as present; on failure produce a present
/// absence with the original input untouched.
pub struct OptC<P> {
    pub p: P,
}

impl<P: Dup> Dup for OptC<P> {
    fn dup(&self) -> (r: Self) {
        OptC { p: self.p.dup() }
    }
}

impl<I: StrBased, P: ParseFn<I>> ParseFn<I> for OptC<P> {
    type T = Option<P::T>;

    open spec fn sp(&self, m: InputModel) -> SpResult<Option<<P::T as DeepView>::V>> {
        match self.p.sp(m) {
            SpResult::Found { val, rest } => SpResult::Found { val: Some(val), rest },
            SpResult::Missing => SpResult::Found { val: None, rest: m },
        }
    }

    fn parse(&self, i: I) -> (r: Parser<Option<P::T>, I>) {
        let keep = i.dup();
        match self.p.parse(i) {
            Parser::Parsed { data, input } => Parser::Parsed { data: Some(data), input },
            Parser::NoParse => Parser::Parsed { data: None, input: keep },
        }
    }

    proof fn wb(&self, m: InputModel) {
        self.p.wb(m);
    }
}

/// Ordered choice: run `p`; when it fails, run `q` on the same original
/// input and return whatever that attempt produces.
pub struct OrC<P, Q> {
    pub p: P,
    pub q: Q,
}

impl<P: Dup, Q: Dup> Dup for OrC<P, Q> {
    fn dup(&self) -> (r: Self) {
        OrC { p: self.p.dup(), q: self.q.dup() }
    }
}

impl<I: StrBased, P: ParseFn<I>, Q: ParseFn<I, T = P::T>> ParseFn<I> for OrC<P, Q> {
    type T = P::T;

    open spec fn sp(&self, m: InputModel) -> SpResult<<P::T as DeepView>::V> {
        if self.p.sp(m) is Found {
            self.p.sp(m)
        } else {
            self.q.sp(m)
        }
    }

    fn parse(&self, i: I) -> (r: Parser<P::T, I>) {
        let keep = i.dup();
        match self.p.parse(i) {
            Parser::Parsed { data, input } => Parser::Parsed { data, input },
            Parser::NoParse => self.q.parse(keep),
        }
    }

    proof fn wb(&self, m: InputModel) {
        self.p.wb(m);
        self.q.wb(m);
    }
}

/// Pushing onto a vector pushes onto its value model.
proof fn lemma_push_deep_view<T: DeepView>(v1: Vec<T>, v2: Vec<T>, x: T)
    requires
        v2@ == v1@.push(x),
    ensures
        v2.deep_view() =~= v1.deep_view().push(x.deep_view()),
{
    assert forall|i: int| 0 <= i < v2.deep_view().len() implies v2.deep_view()[i]
        == v1.deep_view().push(x.deep_view())[i] by {
        if i < v1@.len() {
            assert(v2@[i] == v1@[i]);
        } else {
            assert(v2@[i] == x);
        }
    }
}

/// The semantics of repetition: repeatedly apply `p`, collecting the values
/// in order, and stop when it fails or when it succeeds without changing the
/// input state.  Returns the collected value models and the state where
/// repetition stopped.
pub open spec fn many_rec<I: StrBased, P: ParseFn<I>>(p: P, m: InputModel) -> (Seq<
    <P::T as DeepView>::V,
>, InputModel)
    decreases m.s.len(),
{
    match p.sp(m) {
        SpResult::Found { val, rest } => {
            if rest != m && rest.s.len() < m.s.len() {
                let t = many_rec(p, rest);
                (seq![val] + t.0, t.1)
            } else {
                (Seq::empty(), m)
            }
        },
        SpResult::Missing => (Seq::empty(), m),
    }
}

/// Repetition stops at the starting state or strictly inside the input, and
/// within the machine limit.
pub proof fn lemma_many_rec_wb<I: StrBased, P: ParseFn<I>>(p: P, m: InputModel)
    ensures
        many_rec(p, m).1.s.len() <= m.s.len(),
        many_rec(p, m).1 == m || many_rec(p, m).1.s.len() < m.s.len(),
        fits(m) ==> fits(many_rec(p, m).1),
    decreases m.s.len(),
{
    p.wb(m);
    match p.sp(m) {
        SpResult::Found { val, rest } => {
            if rest != m && rest.s.len() < m.s.len() {
                lemma_many_rec_wb(p, rest);
            }
        },
        SpResult::Missing => {},
    }
}

/// The shared repetition loop: collect values until the sub-parser fails or
/// makes no progress.
fn many_loop<I: StrBased, P: ParseFn<I>>(p: &P, i: I) -> (res: (Vec<P::T>, I))
    requires
        fits(i.model()),
    ensures
        res.0.deep_view() == many_rec(*p, i.model()).0,
        res.1.model() == many_rec(*p, i.model()).1,
{
    let ghost m0 = i.model();
    let mut cur = i;
    let mut results: Vec<P::T> = Vec::new();
    proof {
        assert(results.deep_view() =~= Seq::<<P::T as DeepView>::V>::empty());
        assert(many_rec(*p, m0).0 =~= results.deep_view() + many_rec(*p, m0).0);
    }
    loop
        invariant
            m0 == i.model(),
            fits(cur.model()),
            many_rec(*p, m0).0 =~= results.deep_view() + many_rec(*p, cur.model()).0,
            many_rec(*p, m0).1 == many_rec(*p, cur.model()).1,
        decreases cur.model().s.len(),
    {
        let ghost mc = cur.model();
        match p.parse(cur.dup()) {
            Parser::Parsed { data, input: j } => {
                proof {
                    p.wb(mc);
                }
                if j.eq_input(&cur) {
                    proof {
                        assert(many_rec(*p, mc) == (Seq::<<P::T as DeepView>::V>::empty(), mc));
                        assert(results.deep_view() + Seq::<<P::T as DeepView>::V>::empty()
                            =~= results.deep_view());
                    }
                    return (results, cur);
                } else {
                    let ghost oldv = results;
                    let ghost dv = data.deep_view();
                    results.push(data);
                    proof {
                        lemma_push_deep_view(oldv, results, data);
                        let t = many_rec(*p, j.model());
                        assert(many_rec(*p, mc).0 == seq![dv] + t.0);
                        assert(many_rec(*p, mc).1 == t.1);
                        assert(oldv.deep_view() + (seq![dv] + t.0) =~= (oldv.deep_view().push(dv))
                            + t.0);
                    }
                    cur = j;
                }
            },
            Parser::NoParse => {
                proof {
                    assert(results.deep_view() + Seq::<<P::T as DeepView>::V>::empty()
                        =~= results.deep_view());
                }
                return (results, cur);
            },
        }
    }
}

/// Repetition, zero or more: loop `p`, collecting values in order; stop when
/// it fails or succeeds without changing the input state; always succeed.
pub struct Many0C<P> {
    pub p: P,
}

impl<P: Dup> Dup for Many0C<P> {
    fn dup(&self) -> (r: Self) {
        Many0C { p: self.p.dup() }
    }
}

impl<I: StrBased, P: ParseFn<I>> ParseFn<I> for Many0C<P> {
    type T = Vec<P::T>;

    open spec fn sp(&self, m: InputModel) -> SpResult<Seq<<P::T as DeepView>::V>> {
        SpResult::Found { val: many_rec(self.p, m).0, rest: many_rec(self.p, m).1 }
    }

    fn parse(&self, i: I) -> (r: Parser<Vec<P::T>, I>) {
        let res = many_loop(&self.p, i);
        Parser::Parsed { data: res.0, input: res.1 }
    }

    proof fn wb(&self, m: InputModel) {
        lemma_many_rec_wb(self.p, m);
    }
}

/// Repetition, one or more: as `Many0C`, but fail when no iteration
/// succeeded.
pub struct Many1C<P> {
    pub p: P,
}

impl<P: Dup> Dup for Many1C<P> {
    fn dup(&self) -> (r: Self) {
        Many1C { p: self.p.dup() }
    }
}

impl<I: StrBased, P: ParseFn<I>> ParseFn<I> for Many1C<P> {
    type T = Vec<P::T>;

    open spec fn sp(&self, m: InputModel) -> SpResult<Seq<<P::T as DeepView>::V>> {
        if many_rec(self.p, m).0.len() == 0 {
            SpResult::Missing
        } else {
            SpResult::Found { val: many_rec(self.p, m).0, rest: many_rec(self.p, m).1 }
        }
    }

    fn parse(&self, i: I) -> (r: Parser<Vec<P::T>, I>) {
        let res = many_loop(&self.p, i);
        if res.0.len() == 0 {
            Parser::NoParse
        } else {
            Parser::Parsed { data: res.0, input: res.1 }
        }
    }

    proof fn wb(&self, m: InputModel) {
        lemma_many_rec_wb(self.p, m);
    }
}

/// The semantics of the delimited-list state machine: alternate between
/// expecting an item (parsed with `p`) and expecting a separator (parsed with
/// `d`), starting with an item.  A failing sub-parse stops the loop in its
/// state.  A sub-parse that succeeds without consuming is allowed to move the
/// machine on at most once in a row (`zf`); a second zero-width success in a
/// row stops the loop in its state, which guards against non-termination.
/// Returns the item value models collected, the state where the loop
/// stopped, and whether it stopped while expecting an item.
pub open spec fn delim_rec<I: StrBased, P: ParseFn<I>, D: ParseFn<I>>(
    p: P,
    d: D,
    m: InputModel,
    expect_item: bool,
    zf: bool,
) -> (Seq<<P::T as DeepView>::V>, InputModel, bool)
    decreases m.s.len(), (if zf { 1int } else { 0int }),
{
    if expect_item {
        match p.sp(m) {
            SpResult::Found { val, rest } => {
                if rest != m && rest.s.len() < m.s.len() {
                    let t = delim_rec(p, d, rest, false, true);
                    (seq![val] + t.0, t.1, t.2)
                } else if zf && rest == m {
                    let t = delim_rec(p, d, m, false, false);
                    (seq![val] + t.0, t.1, t.2)
                } else {
                    (Seq::empty(), m, true)
                }
            },
            SpResult::Missing => (Seq::empty(), m, true),
        }
    } else {
        match d.sp(m) {
            SpResult::Found { val, rest } => {
                if rest != m && rest.s.len() < m.s.len() {
                    delim_rec(p, d, rest, true, true)
                } else if zf && rest == m {
                    delim_rec(p, d, m, true, false)
                } else {
                    (Seq::empty(), m, false)
                }
            },
            SpResult::Missing => (Seq::empty(), m, false),
        }
    }
}

/// The delimited-list machine stops within the input and within the machine
/// limit.
pub proof fn lemma_delim_rec_wb<I: StrBased, P: ParseFn<I>, D: ParseFn<I>>(
    p: P,
    d: D,
    m: InputModel,
    expect_item: bool,
    zf: bool,
)
    ensures
        delim_rec(p, d, m, expect_item, zf).1.s.len() <= m.s.len(),
        delim_rec(p, d, m, expect_item, zf).1 == m || delim_rec(
            p,
            d,
            m,
            expect_item,
            zf,
        ).1.s.len() < m.s.len(),
        fits(m) ==> fits(delim_rec(p, d, m, expect_item, zf).1),
    decreases m.s.len(), (if zf { 1int } else { 0int }),
{
    if expect_item {
        p.wb(m);
        match p.sp(m) {
            SpResult::Found { val, rest } => {
                if rest != m && rest.s.len() < m.s.len() {
                    lemma_delim_rec_wb(p, d, rest, false, true);
                } else if zf && rest == m {
                    lemma_delim_rec_wb(p, d, m, false, false);
                }
            },
            SpResult::Missing => {},
        }
    } else {
        d.wb(m);
        match d.sp(m) {
            SpResult::Found { val, rest } => {
                if rest != m && rest.s.len() < m.s.len() {
                    lemma_delim_rec_wb(p, d, rest, true, true);
                } else if zf && rest == m {
                    lemma_delim_rec_wb(p, d, m, true, false);
                }
            },
            SpResult::Missing => {},
        }
    }
}

/// The shared delimited-list loop.
fn delim_loop<I: StrBased, P: ParseFn<I>, D: ParseFn<I>>(p: &P, d: &D, i: I) -> (res: (
    Vec<P::T>,
    I,
    bool,
))
    requires
        fits(i.model()),
    ensures
        res.0.deep_view() == delim_rec(*p, *d, i.model(), true, true).0,
        res.1.model() == delim_rec(*p, *d, i.model(), true, true).1,
        res.2 == delim_rec(*p, *d, i.model(), true, true).2,
{
    let ghost m0 = i.model();
    let mut cur = i;
    let mut results: Vec<P::T> = Vec::new();
    let mut expect_item = true;
    let mut zf = true;
    proof {
        assert(results.deep_view() =~= Seq::<<P::T as DeepView>::V>::empty());
        assert(delim_rec(*p, *d, m0, true, true).0 =~= results.deep_view() + delim_rec(
            *p,
            *d,
            m0,
            true,
            true,
        ).0);
    }
    loop
        invariant
            m0 == i.model(),
            fits(cur.model()),
            delim_rec(*p, *d, m0, true, true).0 =~= results.deep_view() + delim_rec(
                *p,
                *d,
                cur.model(),
                expect_item,
                zf,
            ).0,
            delim_rec(*p, *d, m0, true, true).1 == delim_rec(
                *p,
                *d,
                cur.model(),
                expect_item,
                zf,
            ).1,
            delim_rec(*p, *d, m0, true, true).2 == delim_rec(
                *p,
                *d,
                cur.model(),
                expect_item,
                zf,
            ).2,
        decreases cur.model().s.len(), (if zf { 1int } else { 0int }),
    {
        let ghost mc = cur.model();
        let ghost zf0 = zf;
        if expect_item {
            match p.parse(cur.dup()) {
                Parser::Parsed { data, input: j } => {
                    proof {
                        p.wb(mc);
                    }
                    if j.eq_input(&cur) {
                        if zf {
                            let ghost oldv = results;
                            let ghost dv = data.deep_view();
                            results.push(data);
                            zf = false;
                            expect_item = false;
                            proof {
                                lemma_push_deep_view(oldv, results, data);
                                let t = delim_rec(*p, *d, mc, false, false);
                                assert(delim_rec(*p, *d, mc, true, zf0).0 == seq![dv] + t.0);
                                assert(oldv.deep_view() + (seq![dv] + t.0) =~= (
                                oldv.deep_view().push(dv)) + t.0);
                            }
                        } else {
                            proof {
                                assert(results.deep_view()
                                    + Seq::<<P::T as DeepView>::V>::empty()
                                    =~= results.deep_view());
                            }
                            return (results, cur, true);
                        }
                    } else {
                        let ghost oldv = results;
                        let ghost dv = data.deep_view();
                        results.push(data);
                        zf = true;
                        expect_item = false;
                        cur = j;
                        proof {
                            lemma_push_deep_view(oldv, results, data);
                            let t = delim_rec(*p, *d, j.model(), false, true);
                            assert(delim_rec(*p, *d, mc, true, zf0).0 == seq![dv] + t.0);
                            assert(oldv.deep_view() + (seq![dv] + t.0) =~= (
                            oldv.deep_view().push(dv)) + t.0);
                        }
                    }
                },
                Parser::NoParse => {
                    proof {
                        assert(results.deep_view() + Seq::<<P::T as DeepView>::V>::empty()
                            =~= results.deep_view());
                    }
                    return (results, cur, true);
                },
            }
        } else {
            match d.parse(cur.dup()) {
                Parser::Parsed { data, input: j } => {
                    proof {
                        d.wb(mc);
                    }
                    if j.eq_input(&cur) {
                        if zf {
                            zf = false;
                            expect_item = true;
                        } else {
                            proof {
                                assert(results.deep_view()
                                    + Seq::<<P::T as DeepView>::V>::empty()
                                    =~= results.deep_view());
                            }
                            return (results, cur, false);
                        }
                    } else {
                        zf = true;
                        expect_item = true;
                        cur = j;
                    }
                },
                Parser::NoParse => {
                    proof {
                        assert(results.deep_view() + Seq::<<P::T as DeepView>::V>::empty()
                            =~= results.deep_view());
                    }
                    return (results, cur, false);
                },
            }
        }
    }
}

/// Delimited list, possibly empty: run the delimited-list state machine; a
/// dangling separator with at least one item collected fails the whole
/// parse; stopping right after an item, or before any item, succeeds.
pub struct Delim0C<P, D> {
    pub p: P,
    pub d: D,
}

impl<P: Dup, D: Dup> Dup for Delim0C<P, D> {
    fn dup(&self) -> (r: Self) {
        Delim0C { p: self.p.dup(), d: self.d.dup() }
    }
}

impl<I: StrBased, P: ParseFn<I>, D: ParseFn<I>> ParseFn<I> for Delim0C<P, D> {
    type T = Vec<P::T>;

    open spec fn sp(&self, m: InputModel) -> SpResult<Seq<<P::T as DeepView>::V>> {
        let t = delim_rec(self.p, self.d, m, true, true);
        if !t.2 || t.0.len() == 0 {
            SpResult::Found { val: t.0, rest: t.1 }
        } else {
            SpResult::Missing
        }
    }

    fn parse(&self, i: I) -> (r: Parser<Vec<P::T>, I>) {
        let res = delim_loop(&self.p, &self.d, i);
        if !res.2 || res.0.len() == 0 {
            Parser::Parsed { data: res.0, input: res.1 }
        } else {
            Parser::NoParse
        }
    }

    proof fn wb(&self, m: InputModel) {
        lemma_delim_rec_wb(self.p, self.d, m, true, true);
    }
}

/// Delimited list, at least one item: as `Delim0C`, but stopping while an
/// item was expected fails, whatever was collected.
pub struct Delim1C<P, D> {
    pub p: P,
    pub d: D,
}

impl<P: Dup, D: Dup> Dup for Delim1C<P, D> {
    fn dup(&self) -> (r: Self) {
        Delim1C { p: self.p.dup(), d: self.d.dup() }
    }
}

impl<I: StrBased, P: ParseFn<I>, D: ParseFn<I>> ParseFn<I> for Delim1C<P, D> {
    type T = Vec<P::T>;

    open spec fn sp(&self, m: InputModel) -> SpResult<Seq<<P::T as DeepView>::V>> {
        let t = delim_rec(self.p, self.d, m, true, true);
        if t.2 {
            SpResult::Missing
        } else {
            SpResult::Found { val: t.0, rest: t.1 }
        }
    }

    fn parse(&self, i: I) -> (r: Parser<Vec<P::T>, I>) {
        let res = delim_loop(&self.p, &self.d, i);
        if res.2 {
            Parser::NoParse
        } else {
            Parser::Parsed { data: res.0, input: res.1 }
        }
    }

    proof fn wb(&self, m: InputModel) {
        lemma_delim_rec_wb(self.p, self.d, m, true, true);
    }
}

} // verus!
