//! Regular expressions, held by their pattern and checked by `regex`.

use vstd::prelude::*;

verus! {

/// Whether `regex` compiles `pattern`.
pub uninterp spec fn regex_accepts(pattern: Seq<char>) -> bool;

/// `regex::Regex::new`, asked only whether the pattern compiles.
#[verifier::external_body]
fn compiles(pattern: &str) -> (r: bool)
    ensures
        r == regex_accepts(pattern@),
{
    regex::Regex::new(pattern).is_ok()
}

/// A regular expression. It is known by its pattern, and every pattern held
/// is one that `regex` compiles.
#[derive(Debug, PartialEq, Eq)]
pub struct Regex {
    pattern: String,
}

impl View for Regex {
    type V = Seq<char>;

    closed spec fn view(&self) -> Seq<char> {
        self.pattern@
    }
}

impl Regex {
    #[verifier::type_invariant]
    spec fn compiled(self) -> bool {
        regex_accepts(self.pattern@)
    }

    /// The regular expression written as `pattern`, if `regex` compiles it.
    pub fn new(pattern: &str) -> (r: Option<Regex>)
        ensures
            r is Some <==> regex_accepts(pattern@),
            r matches Some(re) ==> re@ == pattern@,
    {
        if compiles(pattern) {
            Some(Regex { pattern: pattern.to_owned() })
        } else {
            None
        }
    }

    /// The pattern as it was written.
    pub fn as_str(&self) -> (s: &str)
        ensures
            s@ == self@,
    {
        self.pattern.as_str()
    }

    /// A second regular expression with the same pattern.
    pub fn duplicate(&self) -> (r: Regex)
        ensures
            r@ == self@,
    {
        proof {
            use_type_invariant(self);
        }
        Regex { pattern: self.pattern.clone() }
    }
}

} // verus!
