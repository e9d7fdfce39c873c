//! The primitive parser library: leaf parsers built directly from the input
//! abstraction.

use vstd::prelude::*;

use crate::input::{fits, ColumnBased, Dup, InputModel, LineBased, StrBased};
use crate::{Parser, ParseFn, SpResult, TopParser};

verus! {

/// The length of the maximal prefix of `s` whose characters all satisfy `p`.
pub open spec fn run_len(p: spec_fn(char) -> bool, s: Seq<char>) -> nat
    decreases s.len(),
{
    if s.len() == 0 || !p(s[0]) {
        0
    } else {
        1 + run_len(p, s.skip(1))
    }
}

/// `run_len` names a prefix: it is within bounds, all of its characters
/// satisfy the predicate, and it is maximal.
pub proof fn lemma_run_len(p: spec_fn(char) -> bool, s: Seq<char>)
    ensures
        run_len(p, s) <= s.len(),
        forall|i: int| 0 <= i < run_len(p, s) ==> p(s[i]),
        run_len(p, s) == s.len() || !p(s[run_len(p, s) as int]),
    decreases s.len(),
{
    if s.len() == 0 || !p(s[0]) {
    } else {
        lemma_run_len(p, s.skip(1));
        let n = run_len(p, s);
        assert(n == 1 + run_len(p, s.skip(1)));
        assert forall|i: int| 0 <= i < n implies p(s[i]) by {
            if i > 0 {
                assert(s.skip(1)[i - 1] == s[i]);
            }
        }
        if n < s.len() {
            assert(s.skip(1)[run_len(p, s.skip(1)) as int] == s[n as int]);
        }
    }
}

/// A prefix that is in bounds, all-satisfying and maximal is the `run_len`
/// prefix.
pub proof fn lemma_run_len_is(p: spec_fn(char) -> bool, s: Seq<char>, k: int)
    requires
        0 <= k <= s.len(),
        forall|i: int| 0 <= i < k ==> p(s[i]),
        k == s.len() || !p(s[k]),
    ensures
        run_len(p, s) == k,
    decreases s.len(),
{
    if k == 0 {
    } else {
        assert(p(s[0]));
        assert forall|i: int| 0 <= i < k - 1 implies p(s.skip(1)[i]) by {
            assert(s.skip(1)[i] == s[i + 1]);
        }
        if k < s.len() {
            assert(s.skip(1)[k - 1] == s[k]);
        }
        lemma_run_len_is(p, s.skip(1), k - 1);
    }
}

/// The semantics of the fixed-width take: succeed exactly when at least
/// `count` characters remain, consuming exactly `count` of them; the position
/// fields are untouched.
pub open spec fn take_sp(count: nat, m: InputModel) -> SpResult<Seq<char>> {
    if count <= m.s.len() {
        SpResult::Found {
            val: m.s.take(count as int),
            rest: InputModel { s: m.s.skip(count as int), line: m.line, col: m.col },
        }
    } else {
        SpResult::Missing
    }
}

/// Fixed-width take: consume exactly a given number of characters.
pub struct TakeC {
    pub count: usize,
}

impl Dup for TakeC {
    fn dup(&self) -> (r: Self) {
        TakeC { count: self.count }
    }
}

impl<'a> ParseFn<&'a str> for TakeC {
    type T = &'a str;

    open spec fn sp(&self, m: InputModel) -> SpResult<Seq<char>> {
        take_sp(self.count as nat, m)
    }

    fn parse(&self, i: &'a str) -> (r: Parser<&'a str, &'a str>) {
        let len = i.unicode_len();
        if self.count <= len {
            let data = i.substring_char(0, self.count);
            let rest = i.substring_char(self.count, len);
            proof {
                assert(data@ =~= i@.take(self.count as int));
                assert(rest@ =~= i@.skip(self.count as int));
            }
            Parser::Parsed { data, input: rest }
        } else {
            Parser::NoParse
        }
    }

    proof fn wb(&self, m: InputModel) {
        if self.count as nat <= m.s.len() {
            if self.count == 0 {
                assert(m.s.skip(0) =~= m.s);
                assert((InputModel { s: m.s.skip(0), line: m.line, col: m.col }) =~= m);
            }
        }
    }
}

/// Succeed exactly when at least `count` characters remain, consuming exactly
/// `count` of them.
pub fn parse_take<'a>(count: usize) -> (r: TopParser<TakeC, &'a str>)
    ensures
        forall|m: InputModel| #[trigger] r.sp(m) == take_sp(count as nat, m),
{
    TopParser::from_input_parser(TakeC { count })
}

/// The semantics of the literal-string match: succeed exactly when the
/// remaining input starts with the literal, consuming it and advancing the
/// column by its length.
pub open spec fn lexeme_sp(lit: Seq<char>, m: InputModel) -> SpResult<()> {
    if lit.len() <= m.s.len() && m.s.take(lit.len() as int) == lit {
        SpResult::Found {
            val: (),
            rest: InputModel {
                s: m.s.skip(lit.len() as int),
                line: m.line,
                col: m.col + lit.len(),
            },
        }
    } else {
        SpResult::Missing
    }
}

/// Literal-string match: consume exactly a given literal.
pub struct LexemeC<'l> {
    pub lit: &'l str,
}

impl<'l> Dup for LexemeC<'l> {
    fn dup(&self) -> (r: Self) {
        LexemeC { lit: self.lit }
    }
}

impl<'l, I: ColumnBased> ParseFn<I> for LexemeC<'l> {
    type T = ();

    open spec fn sp(&self, m: InputModel) -> SpResult<()> {
        lexeme_sp(self.lit@, m)
    }

    fn parse(&self, i: I) -> (r: Parser<(), I>) {
        let ghost m = i.model();
        let s = i.as_str();
        let slen = s.unicode_len();
        let llen = self.lit.unicode_len();
        if llen > slen {
            return Parser::NoParse;
        }
        let mut k: usize = 0;
        while k < llen
            invariant
                i.model() == m,
                slen as nat == s@.len(),
                llen as nat == self.lit@.len(),
                llen <= slen,
                k <= llen,
                s@ == m.s,
                forall|j: int| 0 <= j < k ==> s@[j] == self.lit@[j],
            decreases llen - k,
        {
            let cs = s.get_char(k);
            let cl = self.lit.get_char(k);
            if cs != cl {
                proof {
                    assert(m.s.take(self.lit@.len() as int) != self.lit@) by {
                        assert(m.s.take(llen as int)[k as int] == s@[k as int]);
                    }
                }
                return Parser::NoParse;
            }
            k = k + 1;
        }
        proof {
            assert(m.s.take(llen as int) =~= self.lit@);
        }
        let col = i.col() + llen;
        let j = i.set_col(col).advance(llen);
        proof {
            assert(j.model() =~= (InputModel {
                s: m.s.skip(llen as int),
                line: m.line,
                col: m.col + self.lit@.len(),
            }));
        }
        Parser::Parsed { data: (), input: j }
    }

    proof fn wb(&self, m: InputModel) {
        let lit = self.lit@;
        if lit.len() <= m.s.len() && m.s.take(lit.len() as int) == lit {
            if lit.len() == 0 {
                assert(m.s.skip(0) =~= m.s);
                assert((InputModel { s: m.s.skip(0), line: m.line, col: m.col + 0 }) =~= m);
            }
        }
    }
}

/// Succeed exactly when the remaining input starts with the literal `l`,
/// consuming it and advancing the column by its length; fail otherwise with
/// no consumption.
pub fn parse_lexeme<'l, I: ColumnBased>(l: &'l str) -> (r: TopParser<LexemeC<'l>, I>)
    ensures
        forall|m: InputModel| #[trigger] r.sp(m) == lexeme_sp(l@, m),
{
    TopParser::from_input_parser(LexemeC { lit: l })
}

/// Whether `c` is an ASCII decimal digit.
pub open spec fn is_digit_char(c: char) -> bool {
    48 <= c as u32 && c as u32 <= 57
}

/// The numeric value of an ASCII decimal digit.
pub open spec fn digit_val(c: char) -> int {
    c as u32 - 48
}

/// The numeric value of a sequence of ASCII decimal digits, most significant
/// first.
pub open spec fn dec_val(s: Seq<char>) -> int
    decreases s.len(),
{
    if s.len() == 0 {
        0
    } else {
        10 * dec_val(s.drop_last()) + digit_val(s.last())
    }
}

/// The length of the maximal ASCII-digit prefix.
pub open spec fn digit_run(s: Seq<char>) -> nat {
    run_len(|c: char| is_digit_char(c), s)
}

/// The value of a digit sequence is non-negative.
pub proof fn lemma_dec_val_nonneg(s: Seq<char>)
    requires
        forall|i: int| 0 <= i < s.len() ==> is_digit_char(s[i]),
    ensures
        dec_val(s) >= 0,
    decreases s.len(),
{
    if s.len() > 0 {
        lemma_dec_val_nonneg(s.drop_last());
    }
}

/// Extending a digit prefix never lowers its value.
pub proof fn lemma_dec_val_mono(s: Seq<char>, a: int, b: int)
    requires
        0 <= a <= b <= s.len(),
        forall|i: int| 0 <= i < b ==> is_digit_char(s[i]),
    ensures
        dec_val(s.take(a)) <= dec_val(s.take(b)),
    decreases b - a,
{
    if a < b {
        lemma_dec_val_mono(s, a, b - 1);
        assert(s.take(b).drop_last() =~= s.take(b - 1));
        assert(s.take(b).last() == s[b - 1]);
        assert forall|i: int| 0 <= i < s.take(b - 1).len() implies is_digit_char(
            #[trigger] s.take(b - 1)[i],
        ) by {
            assert(s.take(b - 1)[i] == s[i]);
        }
        lemma_dec_val_nonneg(s.take(b - 1));
    }
}

/// The semantics of the unsigned-integer literal: consume the maximal run of
/// ASCII decimal digits; fail when the run is empty or its value does not fit
/// in `u32`; on success return the value, with the column advanced by the
/// digit count.
pub open spec fn u32_sp(m: InputModel) -> SpResult<u32> {
    let n = digit_run(m.s);
    if n == 0 || dec_val(m.s.take(n as int)) > u32::MAX {
        SpResult::Missing
    } else {
        SpResult::Found {
            val: dec_val(m.s.take(n as int)) as u32,
            rest: InputModel { s: m.s.skip(n as int), line: m.line, col: m.col + n },
        }
    }
}

/// Unsigned-integer literal parser.
pub struct U32C;

impl Dup for U32C {
    fn dup(&self) -> (r: Self) {
        U32C
    }
}

impl<I: ColumnBased> ParseFn<I> for U32C {
    type T = u32;

    open spec fn sp(&self, m: InputModel) -> SpResult<u32> {
        u32_sp(m)
    }

    fn parse(&self, i: I) -> (r: Parser<u32, I>) {
        let ghost m = i.model();
        let s = i.as_str();
        let slen = s.unicode_len();
        let mut n: usize = 0;
        while n < slen
            invariant
                i.model() == m,
                slen as nat == s@.len(),
                s@ == m.s,
                n <= slen,
                forall|j: int| 0 <= j < n ==> is_digit_char(s@[j]),
            ensures
                n <= slen,
                forall|j: int| 0 <= j < n ==> is_digit_char(s@[j]),
                n as nat == slen as nat || !is_digit_char(s@[n as int]),
            decreases slen - n,
        {
            let c = s.get_char(n);
            let cu = c as u32;
            if !(48 <= cu && cu <= 57) {
                break;
            }
            n = n + 1;
        }
        proof {
            lemma_run_len_is(|c: char| is_digit_char(c), m.s, n as int);
            assert(digit_run(m.s) == n as nat);
        }
        if n == 0 {
            return Parser::NoParse;
        }
        let mut val: u32 = 0;
        let mut k: usize = 0;
        while k < n
            invariant
                i.model() == m,
                fits(m),
                slen as nat == s@.len(),
                s@ == m.s,
                0 < n <= slen,
                digit_run(m.s) == n as nat,
                k <= n,
                forall|j: int| 0 <= j < n ==> is_digit_char(s@[j]),
                val as int == dec_val(m.s.take(k as int)),
            decreases n - k,
        {
            let c = s.get_char(k);
            let d = (c as u32) - 48;
            let wide: u64 = (val as u64) * 10 + (d as u64);
            proof {
                assert(m.s.take(k + 1).drop_last() =~= m.s.take(k as int));
                assert(m.s.take(k + 1).last() == m.s[k as int]);
                assert(dec_val(m.s.take(k + 1)) == wide as int);
            }
            if wide > u32::MAX as u64 {
                proof {
                    lemma_dec_val_mono(m.s, k + 1, n as int);
                }
                return Parser::NoParse;
            }
            val = wide as u32;
            k = k + 1;
        }
        let col = i.col() + n;
        let j = i.set_col(col).advance(n);
        proof {
            assert(j.model() =~= (InputModel {
                s: m.s.skip(n as int),
                line: m.line,
                col: m.col + n as nat,
            }));
        }
        Parser::Parsed { data: val, input: j }
    }

    proof fn wb(&self, m: InputModel) {
        let n = digit_run(m.s);
        lemma_run_len(|c: char| is_digit_char(c), m.s);
        if !(n == 0 || dec_val(m.s.take(n as int)) > u32::MAX) {
            assert(m.s.skip(n as int).len() < m.s.len());
        }
    }
}

/// Greedily consume a maximal run of ASCII decimal digits and return their
/// value; fail when no digit is present or the value does not fit in `u32`.
pub fn parse_u32<I: ColumnBased>() -> (r: TopParser<U32C, I>)
    ensures
        forall|m: InputModel| #[trigger] r.sp(m) == u32_sp(m),
{
    TopParser::from_input_parser(U32C)
}

/// Whether `c` is ASCII whitespace: space, tab, newline, carriage return or
/// form feed.
pub open spec fn is_space_char(c: char) -> bool {
    c == ' ' || c == '\t' || c == '\n' || c == '\r' || c == '\x0c'
}

/// The outcome of scanning a whitespace run: how many characters were
/// consumed and the line and column after them.
pub struct WsOut {
    pub count: nat,
    pub line: nat,
    pub col: nat,
}

/// Scan the maximal whitespace prefix of `s`, starting at the given line and
/// column.  A bare newline, or a carriage return immediately followed by a
/// newline taken as one two-character break, increments the line and resets
/// the column; any other whitespace character increments the column.
pub open spec fn ws_scan(s: Seq<char>, line: nat, col: nat) -> WsOut
    decreases s.len(),
{
    if s.len() == 0 || !is_space_char(s[0]) {
        WsOut { count: 0, line, col }
    } else if s[0] == '\n' {
        let t = ws_scan(s.skip(1), line + 1, 0);
        WsOut { count: t.count + 1, line: t.line, col: t.col }
    } else if s[0] == '\r' && s.len() >= 2 && s[1] == '\n' {
        let t = ws_scan(s.skip(2), line + 1, 0);
        WsOut { count: t.count + 2, line: t.line, col: t.col }
    } else {
        let t = ws_scan(s.skip(1), line, col + 1);
        WsOut { count: t.count + 1, line: t.line, col: t.col }
    }
}

/// Bounds of the whitespace scan: it stays within the input, and line and
/// column each grow by at most the number of characters consumed.
pub proof fn lemma_ws_scan_bounds(s: Seq<char>, line: nat, col: nat)
    ensures
        ws_scan(s, line, col).count <= s.len(),
        ws_scan(s, line, col).line + (s.len() - ws_scan(s, line, col).count) <= line + s.len(),
        ws_scan(s, line, col).col + (s.len() - ws_scan(s, line, col).count) <= col + s.len(),
    decreases s.len(),
{
    if s.len() == 0 || !is_space_char(s[0]) {
    } else if s[0] == '\n' {
        lemma_ws_scan_bounds(s.skip(1), line + 1, 0);
    } else if s[0] == '\r' && s.len() >= 2 && s[1] == '\n' {
        lemma_ws_scan_bounds(s.skip(2), line + 1, 0);
    } else {
        lemma_ws_scan_bounds(s.skip(1), line, col + 1);
    }
}

/// The whitespace scan is maximal: it stops at the end of the input or at the
/// first character that is not whitespace.
pub proof fn lemma_ws_scan_stop(s: Seq<char>, line: nat, col: nat)
    ensures
        ws_scan(s, line, col).count == s.len() || !is_space_char(
            s[ws_scan(s, line, col).count as int],
        ),
    decreases s.len(),
{
    if s.len() == 0 || !is_space_char(s[0]) {
    } else if s[0] == '\n' {
        lemma_ws_scan_stop(s.skip(1), line + 1, 0);
        lemma_ws_scan_bounds(s.skip(1), line + 1, 0);
        let t = ws_scan(s.skip(1), line + 1, 0);
        assert(ws_scan(s, line, col).count == t.count + 1);
        if t.count < s.skip(1).len() {
            assert(s.skip(1)[t.count as int] == s[t.count as int + 1]);
            assert(!is_space_char(s[t.count as int + 1]));
        } else {
            assert(t.count + 1 == s.len());
        }
    } else if s[0] == '\r' && s.len() >= 2 && s[1] == '\n' {
        lemma_ws_scan_stop(s.skip(2), line + 1, 0);
        lemma_ws_scan_bounds(s.skip(2), line + 1, 0);
        let t = ws_scan(s.skip(2), line + 1, 0);
        assert(ws_scan(s, line, col).count == t.count + 2);
        if t.count < s.skip(2).len() {
            assert(s.skip(2)[t.count as int] == s[t.count as int + 2]);
            assert(!is_space_char(s[t.count as int + 2]));
        } else {
            assert(t.count + 2 == s.len());
        }
    } else {
        lemma_ws_scan_stop(s.skip(1), line, col + 1);
        lemma_ws_scan_bounds(s.skip(1), line, col + 1);
        let t = ws_scan(s.skip(1), line, col + 1);
        assert(ws_scan(s, line, col).count == t.count + 1);
        if t.count < s.skip(1).len() {
            assert(s.skip(1)[t.count as int] == s[t.count as int + 1]);
            assert(!is_space_char(s[t.count as int + 1]));
        } else {
            assert(t.count + 1 == s.len());
        }
    }
}

/// The semantics of the whitespace run: always succeed, consuming the maximal
/// whitespace prefix and updating line and column as [`ws_scan`] says.
pub open spec fn spaces_sp(m: InputModel) -> SpResult<()> {
    let t = ws_scan(m.s, m.line, m.col);
    SpResult::Found {
        val: (),
        rest: InputModel { s: m.s.skip(t.count as int), line: t.line, col: t.col },
    }
}

/// Whitespace-run parser.
pub struct SpacesC;

impl Dup for SpacesC {
    fn dup(&self) -> (r: Self) {
        SpacesC
    }
}

impl<I: LineBased> ParseFn<I> for SpacesC {
    type T = ();

    open spec fn sp(&self, m: InputModel) -> SpResult<()> {
        spaces_sp(m)
    }

    fn parse(&self, i: I) -> (r: Parser<(), I>) {
        let ghost m = i.model();
        let s = i.as_str();
        let slen = s.unicode_len();
        let mut count: usize = 0;
        let mut line = i.line();
        let mut col = i.col();
        proof {
            assert(m.s.skip(0) =~= m.s);
            let t = ws_scan(m.s, m.line, m.col);
            assert(t =~= (WsOut { count: 0 + t.count, line: t.line, col: t.col }));
        }
        while count < slen
            invariant
                i.model() == m,
                fits(m),
                slen as nat == s@.len(),
                s@ == m.s,
                count <= slen,
                line as nat + (slen - count) <= m.line + m.s.len(),
                col as nat + (slen - count) <= m.col + m.s.len(),
                ws_scan(m.s, m.line, m.col) == ({
                    let t = ws_scan(m.s.skip(count as int), line as nat, col as nat);
                    WsOut { count: count as nat + t.count, line: t.line, col: t.col }
                }),
            ensures
                count <= slen,
                line as nat + (slen - count) <= m.line + m.s.len(),
                col as nat + (slen - count) <= m.col + m.s.len(),
                ws_scan(m.s, m.line, m.col) == (WsOut {
                    count: count as nat,
                    line: line as nat,
                    col: col as nat,
                }),
            decreases slen - count,
        {
            let ghost tail = m.s.skip(count as int);
            proof {
                assert(tail[0] == m.s[count as int]);
            }
            let c = s.get_char(count);
            if c == '\n' {
                proof {
                    assert(tail.skip(1) =~= m.s.skip(count + 1));
                }
                line = line + 1;
                col = 0;
                count = count + 1;
            } else if c == '\r' && count + 1 < slen {
                let c2 = s.get_char(count + 1);
                if c2 == '\n' {
                    proof {
                        assert(tail[1] == m.s[count + 1]);
                        assert(tail.skip(2) =~= m.s.skip(count + 2));
                    }
                    line = line + 1;
                    col = 0;
                    count = count + 2;
                } else {
                    proof {
                        assert(tail[1] == m.s[count + 1]);
                        assert(tail.skip(1) =~= m.s.skip(count + 1));
                    }
                    col = col + 1;
                    count = count + 1;
                }
            } else if c == ' ' || c == '\t' || c == '\r' || c == '\x0C' {
                proof {
                    if tail.len() >= 2 {
                        assert(tail[1] == m.s[count + 1]);
                    }
                    assert(tail.skip(1) =~= m.s.skip(count + 1));
                }
                col = col + 1;
                count = count + 1;
            } else {
                break;
            }
        }
        proof {
            let tail = m.s.skip(count as int);
            if count < slen {
                assert(tail[0] == m.s[count as int]);
            }
            assert(ws_scan(tail, line as nat, col as nat) == (WsOut {
                count: 0,
                line: line as nat,
                col: col as nat,
            }));
        }
        let j = i.set_line(line).set_col(col).advance(count);
        proof {
            let t = ws_scan(m.s, m.line, m.col);
            assert(j.model() =~= (InputModel {
                s: m.s.skip(t.count as int),
                line: t.line,
                col: t.col,
            }));
        }
        Parser::Parsed { data: (), input: j }
    }

    proof fn wb(&self, m: InputModel) {
        let t = ws_scan(m.s, m.line, m.col);
        lemma_ws_scan_bounds(m.s, m.line, m.col);
        if t.count == 0 {
            assert(m.s.skip(0) =~= m.s);
            assert((InputModel { s: m.s.skip(0), line: t.line, col: t.col }) =~= m);
        }
    }
}

/// Greedily consume ASCII whitespace; always succeed, even consuming nothing.
/// Each line break (a bare newline, or a carriage return immediately followed
/// by a newline taken as one break) increments the line and resets the column
/// to zero; any other whitespace character increments the column.
pub fn parse_spaces<I: LineBased>() -> (r: TopParser<SpacesC, I>)
    ensures
        forall|m: InputModel| #[trigger] r.sp(m) == spaces_sp(m),
{
    TopParser::from_input_parser(SpacesC)
}

/// A character predicate with both a specification and an executable form.
pub trait CharPred: Sized {
    /// What the predicate accepts.
    spec fn sp(&self, c: char) -> bool;

    /// Decide the predicate.
    fn call(&self, c: char) -> (r: bool)
        ensures
            r == self.sp(c),
    ;
}

/// A predicate accepting ASCII letters.
pub struct AlphaPred;

impl Dup for AlphaPred {
    fn dup(&self) -> (r: Self) {
        AlphaPred
    }
}

impl CharPred for AlphaPred {
    open spec fn sp(&self, c: char) -> bool {
        (97 <= c as u32 && c as u32 <= 122) || (65 <= c as u32 && c as u32 <= 90)
    }

    fn call(&self, c: char) -> (r: bool) {
        let cu = c as u32;
        (97 <= cu && cu <= 122) || (65 <= cu && cu <= 90)
    }
}

/// The semantics of the predicate take-while: consume the maximal prefix
/// whose characters all satisfy the predicate; fail when that prefix is
/// empty; the position fields are untouched.
pub open spec fn while_sp(p: spec_fn(char) -> bool, m: InputModel) -> SpResult<Seq<char>> {
    let n = run_len(p, m.s);
    if n == 0 {
        SpResult::Missing
    } else {
        SpResult::Found {
            val: m.s.take(n as int),
            rest: InputModel { s: m.s.skip(n as int), line: m.line, col: m.col },
        }
    }
}

/// Predicate take-while parser.
pub struct WhileC<F> {
    pub f: F,
}

impl<F: Dup> Dup for WhileC<F> {
    fn dup(&self) -> (r: Self) {
        WhileC { f: self.f.dup() }
    }
}

impl<'a, F: CharPred> ParseFn<&'a str> for WhileC<F> {
    type T = &'a str;

    open spec fn sp(&self, m: InputModel) -> SpResult<Seq<char>> {
        while_sp(|c: char| self.f.sp(c), m)
    }

    fn parse(&self, i: &'a str) -> (r: Parser<&'a str, &'a str>) {
        let len = i.unicode_len();
        let mut n: usize = 0;
        while n < len
            invariant
                len as nat == i@.len(),
                n <= len,
                forall|j: int| 0 <= j < n ==> self.f.sp(i@[j]),
            ensures
                n <= len,
                forall|j: int| 0 <= j < n ==> self.f.sp(i@[j]),
                n as nat == len as nat || !self.f.sp(i@[n as int]),
            decreases len - n,
        {
            let c = i.get_char(n);
            if !self.f.call(c) {
                break;
            }
            n = n + 1;
        }
        proof {
            lemma_run_len_is(|c: char| self.f.sp(c), i@, n as int);
        }
        if n == 0 {
            Parser::NoParse
        } else {
            let data = i.substring_char(0, n);
            let rest = i.substring_char(n, len);
            proof {
                assert(data@ =~= i@.take(n as int));
                assert(rest@ =~= i@.skip(n as int));
            }
            Parser::Parsed { data, input: rest }
        }
    }

    proof fn wb(&self, m: InputModel) {
        lemma_run_len(|c: char| self.f.sp(c), m.s);
    }
}

/// Consume the maximal prefix whose characters all satisfy `predicate`; fail
/// when that prefix is empty.  A caller wanting an optional run wraps this in
/// `opt`.
pub fn parse_while<'a, F: CharPred>(predicate: F) -> (r: TopParser<WhileC<F>, &'a str>)
    ensures
        forall|m: InputModel| #[trigger] r.sp(m) == while_sp(|c: char| predicate.sp(c), m),
{
    TopParser::from_input_parser(WhileC { f: predicate })
}

} // verus!
