//! Exact decimal numeric literals.
//!
//! A numeral in Flow source is a run of decimal digits with at most one
//! decimal point.  The lexer keeps it exactly: the digit sequence in source
//! order together with how many of those digits sit after the point.  No
//! rounding ever happens, so `5`, `1.25` and `007` all keep precisely the
//! digits they were written with.

use vstd::prelude::*;

verus! {

/// An exact decimal numeric literal.  `digits` holds the decimal digits in
/// source order (each `0..=9`) and the last `scale` of them sit after the
/// decimal point: `1.25` is `digits = [1, 2, 5]`, `scale = 2`, and an
/// integer literal has `scale = 0`.
#[derive(Debug, Clone, PartialEq, Eq)]
pub struct Num {
    pub digits: Vec<u8>,
    pub scale: usize,
}

/// Mathematical model of [`Num`]: the digit sequence and the scale.
pub ghost struct SpecNum {
    pub digits: Seq<u8>,
    pub scale: int,
}

impl View for Num {
    type V = SpecNum;

    open spec fn view(&self) -> SpecNum {
        SpecNum { digits: self.digits@, scale: self.scale as int }
    }
}

impl Num {
    /// An exact copy of this numeral.
    pub fn duplicate(&self) -> (r: Num)
        ensures
            r@ == self@,
    {
        let mut digits: Vec<u8> = Vec::new();
        let mut i: usize = 0;
        while i < self.digits.len()
            invariant
                i <= self.digits@.len(),
                digits@.len() == i,
                forall|k: int| 0 <= k < i ==> digits@[k] == self.digits@[k],
            decreases self.digits@.len() - i,
        {
            digits.push(self.digits[i]);
            i = i + 1;
        }
        proof {
            assert(digits@ =~= self.digits@);
        }
        Num { digits, scale: self.scale }
    }
}

/// Whether `c` is an ASCII decimal digit.
pub open spec fn is_digit_char(c: char) -> bool {
    '0' as u32 <= c as u32 <= '9' as u32
}

/// The numeric value of a digit character; zero for anything that is not a
/// digit (the lexer only ever hands digits and points to the numeral rules).
pub open spec fn digit_val(c: char) -> u8 {
    if is_digit_char(c) {
        (c as u32 - '0' as u32) as u8
    } else {
        0
    }
}

/// The digits of the word `w` from position `i` on, with decimal points
/// skipped.
pub open spec fn spec_digits_of(w: Seq<char>, i: int) -> Seq<u8>
    decreases w.len() - i,
{
    if i < 0 || i >= w.len() {
        Seq::empty()
    } else if w[i] == '.' {
        spec_digits_of(w, i + 1)
    } else {
        seq![digit_val(w[i])] + spec_digits_of(w, i + 1)
    }
}

/// How many characters of `w` follow the first decimal point at or after
/// position `i`; zero when there is no point.
pub open spec fn spec_scale_of(w: Seq<char>, i: int) -> int
    decreases w.len() - i,
{
    if i < 0 || i >= w.len() {
        0
    } else if w[i] == '.' {
        w.len() - i - 1
    } else {
        spec_scale_of(w, i + 1)
    }
}

/// The numeral denoted by the word `w`: its digits with the point dropped,
/// and the number of characters after the first point.
pub open spec fn spec_num_of(w: Seq<char>) -> SpecNum {
    SpecNum { digits: spec_digits_of(w, 0), scale: spec_scale_of(w, 0) }
}

/// Builds the [`Num`] denoted by the word `w` (a lexed digit run).
pub fn num_from_chars(w: &Vec<char>) -> (r: Num)
    ensures
        r@ == spec_num_of(w@),
{
    let mut digits: Vec<u8> = Vec::new();
    let mut scale: usize = 0;
    let mut seen_dot: bool = false;
    let mut i: usize = 0;
    while i < w.len()
        invariant
            0 <= i <= w@.len(),
            digits@ + spec_digits_of(w@, i as int) == spec_digits_of(w@, 0),
            seen_dot ==> scale == spec_scale_of(w@, 0),
            !seen_dot ==> scale == 0 && spec_scale_of(w@, i as int) == spec_scale_of(w@, 0),
        decreases w@.len() - i,
    {
        let c = w[i];
        if c == '.' {
            if !seen_dot {
                seen_dot = true;
                assert(w@.len() >= i + 1);
                scale = w.len() - i - 1;
            }
        } else {
            let u = c as u32;
            if 48 <= u && u <= 57 {
                digits.push((u - 48) as u8);
            } else {
                digits.push(0);
            }
        }
        proof {
            assert(digits@ + spec_digits_of(w@, i + 1) =~= spec_digits_of(w@, 0));
        }
        i = i + 1;
    }
    proof {
        assert(digits@ =~= digits@ + spec_digits_of(w@, w@.len() as int));
    }
    Num { digits, scale }
}

} // verus!
