//! The general laws of the toolkit, each stated over the parsers'
//! specification-level semantics and proved once for all inputs.

use vstd::prelude::*;

use crate::combinators::{Many0C, Many1C, OptC, OrC};
use crate::input::{InputModel, StrBased};
use crate::primitives::{
    dec_val, digit_val, is_digit_char, lemma_run_len_is, lemma_ws_scan_bounds,
    lemma_ws_scan_stop, lexeme_sp, spaces_sp, u32_sp, ws_scan, WsOut,
};
use crate::{ParseFn, SpResult};
use vstd::arithmetic::div_mod::lemma_fundamental_div_mod;

verus! {

/// Matching a literal `lit` against `lit + r` succeeds with the unit value
/// and remainder exactly `r`, the column advanced by the literal's length.
pub proof fn lemma_lexeme_matches_prefix(lit: Seq<char>, r: Seq<char>, m: InputModel)
    requires
        m.s == lit + r,
    ensures
        lexeme_sp(lit, m) == (SpResult::Found {
            val: (),
            rest: InputModel { s: r, line: m.line, col: m.col + lit.len() },
        }),
{
    assert(m.s.take(lit.len() as int) =~= lit);
    assert(m.s.skip(lit.len() as int) =~= r);
}

/// Matching a literal against an input that does not start with it fails.
pub proof fn lemma_lexeme_rejects(lit: Seq<char>, m: InputModel)
    requires
        !lit.is_prefix_of(m.s),
    ensures
        lexeme_sp(lit, m) is Missing,
{
    if lit.len() <= m.s.len() && m.s.take(lit.len() as int) == lit {
        assert(lit.is_prefix_of(m.s));
    }
}

/// The character for one decimal digit.
pub open spec fn digit_char(d: nat) -> char {
    if d == 0 {
        '0'
    } else if d == 1 {
        '1'
    } else if d == 2 {
        '2'
    } else if d == 3 {
        '3'
    } else if d == 4 {
        '4'
    } else if d == 5 {
        '5'
    } else if d == 6 {
        '6'
    } else if d == 7 {
        '7'
    } else if d == 8 {
        '8'
    } else {
        '9'
    }
}

/// The canonical decimal representation of `n`, most significant digit
/// first.
pub open spec fn dec_digits(n: nat) -> Seq<char>
    decreases n,
{
    if n < 10 {
        seq![digit_char(n)]
    } else {
        dec_digits(n / 10).push(digit_char(n % 10))
    }
}

/// `digit_char` produces a digit with the given value.
pub proof fn lemma_digit_char(d: nat)
    requires
        d < 10,
    ensures
        is_digit_char(digit_char(d)),
        digit_val(digit_char(d)) == d,
{
}

/// The decimal representation is non-empty, all digits, and reads back to
/// the number it was made from.
pub proof fn lemma_dec_digits(n: nat)
    ensures
        dec_digits(n).len() >= 1,
        forall|i: int| 0 <= i < dec_digits(n).len() ==> is_digit_char(#[trigger] dec_digits(n)[i]),
        dec_val(dec_digits(n)) == n,
    decreases n,
{
    if n < 10 {
        lemma_digit_char(n);
        let s = dec_digits(n);
        assert(s.drop_last() =~= Seq::<char>::empty());
        assert(s.last() == digit_char(n));
        assert(dec_val(Seq::<char>::empty()) == 0);
        assert(dec_val(s) == 10 * dec_val(s.drop_last()) + digit_val(s.last()));
    } else {
        lemma_dec_digits(n / 10);
        lemma_digit_char(n % 10);
        lemma_fundamental_div_mod(n as int, 10);
        let s = dec_digits(n);
        assert(s.drop_last() =~= dec_digits(n / 10));
        assert(s.last() == digit_char(n % 10));
        assert(dec_val(s) == 10 * dec_val(dec_digits(n / 10)) + digit_val(digit_char(n % 10)));
        assert(n == 10 * (n / 10) + n % 10);
        assert forall|i: int| 0 <= i < s.len() implies is_digit_char(#[trigger] s[i]) by {
            if i < s.len() - 1 {
                assert(s[i] == dec_digits(n / 10)[i]);
            }
        }
    }
}

/// Parsing the unsigned-integer literal from `dec_digits(n) + tail`, where
/// `tail` does not begin with a digit, succeeds with the value `n` and
/// remainder exactly `tail`, the column advanced by the digit count.
pub proof fn lemma_u32_parses_digits(n: u32, tail: Seq<char>, m: InputModel)
    requires
        m.s == dec_digits(n as nat) + tail,
        tail.len() == 0 || !is_digit_char(tail[0]),
    ensures
        u32_sp(m) == (SpResult::Found {
            val: n,
            rest: InputModel {
                s: tail,
                line: m.line,
                col: m.col + dec_digits(n as nat).len(),
            },
        }),
{
    let ds = dec_digits(n as nat);
    lemma_dec_digits(n as nat);
    assert forall|i: int| 0 <= i < ds.len() implies is_digit_char(#[trigger] m.s[i]) by {
        assert(m.s[i] == ds[i]);
    }
    if ds.len() < m.s.len() {
        assert(m.s[ds.len() as int] == tail[0]);
    }
    lemma_run_len_is(|c: char| is_digit_char(c), m.s, ds.len() as int);
    assert(m.s.take(ds.len() as int) =~= ds);
    assert(m.s.skip(ds.len() as int) =~= tail);
}

/// A digit run whose value overflows the target type fails the
/// unsigned-integer literal.
pub proof fn lemma_u32_overflow(m: InputModel)
    requires
        dec_val(m.s.take(crate::primitives::digit_run(m.s) as int)) > u32::MAX,
    ensures
        u32_sp(m) is Missing,
{
}

/// The whitespace run always succeeds.
pub proof fn lemma_spaces_never_fail(m: InputModel)
    ensures
        spaces_sp(m) is Found,
{
}

/// The whitespace run is idempotent: run on its own remainder it consumes
/// nothing and leaves line and column unchanged.
pub proof fn lemma_spaces_idempotent(m: InputModel)
    ensures
        match spaces_sp(m) {
            SpResult::Found { val, rest } => spaces_sp(rest) == (SpResult::Found {
                val: (),
                rest,
            }),
            SpResult::Missing => false,
        },
{
    let t = ws_scan(m.s, m.line, m.col);
    lemma_ws_scan_bounds(m.s, m.line, m.col);
    lemma_ws_scan_stop(m.s, m.line, m.col);
    let rest = InputModel { s: m.s.skip(t.count as int), line: t.line, col: t.col };
    if t.count < m.s.len() {
        assert(rest.s[0] == m.s[t.count as int]);
    }
    assert(ws_scan(rest.s, rest.line, rest.col) == (WsOut {
        count: 0,
        line: t.line,
        col: t.col,
    }));
    assert(rest.s.skip(0) =~= rest.s);
    assert((InputModel { s: rest.s.skip(0), line: t.line, col: t.col }) =~= rest);
}

/// `many0` on an input whose first sub-parse fails immediately succeeds with
/// an empty sequence and the original input unchanged.
pub proof fn lemma_many0_immediate_failure<I: StrBased, P: ParseFn<I>>(c: Many0C<P>, m: InputModel)
    requires
        c.p.sp(m) is Missing,
    ensures
        c.sp(m) == (SpResult::Found { val: Seq::<<P::T as DeepView>::V>::empty(), rest: m }),
{
}

/// `many1` on an input whose first sub-parse fails immediately fails.
pub proof fn lemma_many1_immediate_failure<I: StrBased, P: ParseFn<I>>(c: Many1C<P>, m: InputModel)
    requires
        c.p.sp(m) is Missing,
    ensures
        c.sp(m) is Missing,
{
}

/// Ordered choice is left-biased: when the first alternative would succeed,
/// the combined result equals its result exactly, whatever the second would
/// have produced on the same input.
pub proof fn lemma_or_left_biased<I: StrBased, P: ParseFn<I>, Q: ParseFn<I, T = P::T>>(
    c: OrC<P, Q>,
    m: InputModel,
)
    requires
        c.p.sp(m) is Found,
    ensures
        c.sp(m) == c.p.sp(m),
{
}

/// `opt` never fails.
pub proof fn lemma_opt_never_fails<I: StrBased, P: ParseFn<I>>(c: OptC<P>, m: InputModel)
    ensures
        c.sp(m) is Found,
{
}

/// Every parser's remainder is a view within the input it was given: the
/// remaining length never grows through a parse.
pub proof fn lemma_remainder_within<I: StrBased, P: ParseFn<I>>(p: P, m: InputModel)
    ensures
        match p.sp(m) {
            SpResult::Found { val, rest } => rest.s.len() <= m.s.len(),
            SpResult::Missing => true,
        },
{
    p.wb(m);
}

} // verus!
