//! A measured value (a power draw, a temperature) as the library keeps it.
use vstd::prelude::*;
use crate::text::is_word;

verus! {

/// A measured value: the IEEE-754 single-precision bit pattern of the number,
/// and the text that shows the number in reports.
///
/// The library never computes with the number; it only keeps it, passes it
/// on, and replaces it by zero. Zero has the bit pattern `0` and the text `0`.
/// The text is one word, as the text of a number always is.
#[derive(Debug)]
pub struct Reading {
    bits: u32,
    text: String,
}

/// The text of the zero reading.
pub open spec fn zero_text() -> Seq<char> {
    "0"@
}

impl Reading {
    /// What every reading satisfies: its text is one word.
    #[verifier::type_invariant]
    pub open spec fn well_formed(self) -> bool {
        is_word(self.shown())
    }

    /// The bit pattern of the number.
    pub closed spec fn bit_pattern(&self) -> u32 {
        self.bits
    }

    /// The text that shows the number.
    pub closed spec fn shown(&self) -> Seq<char> {
        self.text@
    }

    /// The reading of the number with bit pattern `bits`, shown as `text`.
    pub fn new(bits: u32, text: String) -> (r: Reading)
        requires
            is_word(text@),
        ensures
            r.bit_pattern() == bits,
            r.shown() == text@,
    {
        Reading { bits, text }
    }

    /// The zero reading: what a switched-off socket draws.
    pub fn zero() -> (r: Reading)
        ensures
            r.bit_pattern() == 0,
            r.shown() == zero_text(),
    {
        let text = "0".to_owned();
        proof {
            reveal_strlit("0");
        }
        Reading { bits: 0, text }
    }

    pub fn bits(&self) -> (r: u32)
        ensures
            r == self.bit_pattern(),
    {
        self.bits
    }

    /// The text that shows the number; it is one word.
    pub fn text(&self) -> (r: &str)
        ensures
            r@ == self.shown(),
            is_word(r@),
    {
        proof {
            use_type_invariant(self);
        }
        self.text.as_str()
    }

    /// An equal copy.
    pub fn duplicate(&self) -> (r: Reading)
        ensures
            r == *self,
    {
        proof {
            use_type_invariant(self);
        }
        Reading { bits: self.bits, text: self.text.clone() }
    }
}

} // verus!
