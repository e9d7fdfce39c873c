//! The input abstraction: a capability hierarchy over sliceable text inputs.
//!
//! Every input is described, for specification purposes, by an [`InputModel`]:
//! the remaining content as a sequence of characters together with the tracked
//! position fields.  An input that does not track a position field holds it at
//! zero in its model.  Two inputs are considered the same state exactly when
//! their models agree: the remaining view and all tracked position fields
//! match.

use vstd::prelude::*;

verus! {

/// The mathematical state of an input: the remaining content and the tracked
/// line and column.  Inputs that do not track a line or a column hold the
/// corresponding field at zero.
pub struct InputModel {
    /// The characters that remain to be consumed.
    pub s: Seq<char>,
    /// The current line number.
    pub line: nat,
    /// The current column number.
    pub col: nat,
}

/// The machine limit under which an input can be advanced through all of its
/// remaining content without the position counters leaving `usize`: each
/// consumed character raises the column and the line by at most one.
pub open spec fn fits(m: InputModel) -> bool {
    &&& m.col + m.s.len() <= usize::MAX
    &&& m.line + m.s.len() <= usize::MAX
}

/// A value that can hand out an exact copy of itself.
pub trait Dup: Sized {
    /// Produce a copy equal to the original.
    fn dup(&self) -> (r: Self)
        ensures
            r == *self,
    ;
}

impl Dup for u32 {
    fn dup(&self) -> (r: Self) {
        *self
    }
}

impl Dup for usize {
    fn dup(&self) -> (r: Self) {
        *self
    }
}

impl Dup for bool {
    fn dup(&self) -> (r: Self) {
        *self
    }
}

impl Dup for char {
    fn dup(&self) -> (r: Self) {
        *self
    }
}

impl Dup for () {
    fn dup(&self) -> (r: Self) {
    }
}

impl<A: Dup, B: Dup> Dup for (A, B) {
    fn dup(&self) -> (r: Self) {
        (self.0.dup(), self.1.dup())
    }
}

impl<A: Dup> Dup for Option<A> {
    fn dup(&self) -> (r: Self) {
        match self {
            Some(x) => Some(x.dup()),
            None => None,
        }
    }
}

/// Class of str-based inputs: viewing the remaining content as a `&str` and
/// advancing past a given number of characters.
pub trait StrBased: Dup {
    /// The mathematical state of this input.
    spec fn model(&self) -> InputModel;

    /// The remaining content.
    fn as_str(&self) -> (r: &str)
        ensures
            r@ == self.model().s,
    ;

    /// Remove the first `count` characters; all other state is preserved.
    fn advance(self, count: usize) -> (r: Self)
        requires
            count as nat <= self.model().s.len(),
        ensures
            r.model() == (InputModel {
                s: self.model().s.skip(count as int),
                line: self.model().line,
                col: self.model().col,
            }),
    ;

    /// Decide whether two inputs are the same state: the remaining view and
    /// all tracked position fields match.
    fn eq_input(&self, other: &Self) -> (r: bool)
        ensures
            r == (self.model() == other.model()),
    ;
}

/// Class of column-based inputs: inputs accepting the concept of a column.
pub trait ColumnBased: StrBased {
    /// The current column.
    fn col(&self) -> (r: usize)
        ensures
            r as nat == self.model().col,
    ;

    /// Replace the column; the remaining view and the line are preserved.
    fn set_col(self, col: usize) -> (r: Self)
        ensures
            r.model() == (InputModel {
                s: self.model().s,
                line: self.model().line,
                col: col as nat,
            }),
    ;
}

/// Class of line-based inputs: inputs accepting the concepts of a column and
/// of a line.
pub trait LineBased: ColumnBased {
    /// The current line.
    fn line(&self) -> (r: usize)
        ensures
            r as nat == self.model().line,
    ;

    /// Replace the line; the remaining view and the column are preserved.
    fn set_line(self, line: usize) -> (r: Self)
        ensures
            r.model() == (InputModel {
                s: self.model().s,
                line: line as nat,
                col: self.model().col,
            }),
    ;
}

/// Decide whether two strs hold the same characters.
fn str_content_eq(a: &str, b: &str) -> (r: bool)
    ensures
        r == (a@ == b@),
{
    let alen = a.unicode_len();
    let blen = b.unicode_len();
    if alen != blen {
        return false;
    }
    let mut k: usize = 0;
    while k < alen
        invariant
            alen as nat == a@.len(),
            blen as nat == b@.len(),
            alen == blen,
            k <= alen,
            forall|i: int| 0 <= i < k ==> a@[i] == b@[i],
        decreases alen - k,
    {
        let ca = a.get_char(k);
        let cb = b.get_char(k);
        if ca != cb {
            return false;
        }
        k = k + 1;
    }
    proof {
        assert(a@ =~= b@);
    }
    true
}

/// Line-based input around `&str`.
#[derive(Clone, Debug, PartialEq, Eq)]
pub struct LineBasedStr<'a> {
    pub input: &'a str,
    pub line: usize,
    pub col: usize,
}

impl<'a> LineBasedStr<'a> {
    /// Wrap a text view with line and column both at zero.
    pub fn from(input: &'a str) -> (r: Self)
        ensures
            r.input == input,
            r.line == 0,
            r.col == 0,
            r.model() == (InputModel { s: input@, line: 0, col: 0 }),
    {
        LineBasedStr { input, line: 0, col: 0 }
    }
}

impl<'a> Dup for LineBasedStr<'a> {
    fn dup(&self) -> (r: Self) {
        LineBasedStr { input: self.input, line: self.line, col: self.col }
    }
}

impl<'a> StrBased for LineBasedStr<'a> {
    open spec fn model(&self) -> InputModel {
        InputModel { s: self.input@, line: self.line as nat, col: self.col as nat }
    }

    fn as_str(&self) -> (r: &str) {
        self.input
    }

    fn advance(self, count: usize) -> (r: Self) {
        let end = self.input.unicode_len();
        let rest = self.input.substring_char(count, end);
        proof {
            assert(rest@ =~= self.input@.skip(count as int));
        }
        LineBasedStr { input: rest, line: self.line, col: self.col }
    }

    fn eq_input(&self, other: &Self) -> (r: bool) {
        let same = str_content_eq(self.input, other.input) && self.line == other.line
            && self.col == other.col;
        same
    }
}

impl<'a> ColumnBased for LineBasedStr<'a> {
    fn col(&self) -> (r: usize) {
        self.col
    }

    fn set_col(self, col: usize) -> (r: Self) {
        LineBasedStr { input: self.input, line: self.line, col }
    }
}

impl<'a> LineBased for LineBasedStr<'a> {
    fn line(&self) -> (r: usize) {
        self.line
    }

    fn set_line(self, line: usize) -> (r: Self) {
        LineBasedStr { input: self.input, line, col: self.col }
    }
}

impl<'a> Dup for &'a str {
    fn dup(&self) -> (r: Self) {
        *self
    }
}

impl<'a> StrBased for &'a str {
    open spec fn model(&self) -> InputModel {
        InputModel { s: self@, line: 0, col: 0 }
    }

    fn as_str(&self) -> (r: &str) {
        *self
    }

    fn advance(self, count: usize) -> (r: Self) {
        let end = self.unicode_len();
        let rest = self.substring_char(count, end);
        proof {
            assert(rest@ =~= self@.skip(count as int));
        }
        rest
    }

    fn eq_input(&self, other: &Self) -> (r: bool) {
        str_content_eq(self, other)
    }
}

} // verus!
