//! Floating-point numbers, held by their bits and their decimal text.

use vstd::prelude::*;

verus! {

/// The mathematical content of a [`Float`].
pub struct FloatView {
    pub bits: u64,
    pub text: Seq<char>,
}

/// A floating-point number: its IEEE 754 binary64 bit pattern, and the
/// decimal text that stands for it wherever the number is written out.
#[derive(Debug, PartialEq, Eq)]
pub struct Float {
    bits: u64,
    text: String,
}

impl View for Float {
    type V = FloatView;

    closed spec fn view(&self) -> FloatView {
        FloatView { bits: self.bits, text: self.text@ }
    }
}

impl Float {
    /// The number with the given bit pattern, written as `text`.
    pub fn new(bits: u64, text: String) -> (f: Float)
        ensures
            f@ == (FloatView { bits, text: text@ }),
    {
        Float { bits, text }
    }

    /// The bit pattern of the number.
    pub fn bits(&self) -> (b: u64)
        ensures
            b == self@.bits,
    {
        self.bits
    }

    /// The number in decimal.
    pub fn text(&self) -> (s: &str)
        ensures
            s@ == self@.text,
    {
        self.text.as_str()
    }

    /// A second number with the same bits and text.
    pub fn duplicate(&self) -> (f: Float)
        ensures
            f@ == self@,
    {
        Float { bits: self.bits, text: self.text.clone() }
    }
}

} // verus!
