//! The scale of the world, in blocks per meter.

use crate::literal::{digit_run, number_of, parse_number};
use vstd::prelude::*;
use vstd::string::StringExecFns;

verus! {

/// The scale where none is given: one block per meter.
pub open spec fn default_scale() -> Seq<char> {
    "1.0"@
}

/// The default scale is a number.
pub proof fn lemma_default_scale_is_a_number()
    ensures
        number_of(default_scale()) is Some,
{
    reveal_strlit("1.0");
    reveal_strlit("inf");
    reveal_strlit("infinity");
    reveal_strlit("nan");
    let s = "1.0"@;
    assert(s.len() == 3 && s[0] == '1' && s[1] == '.' && s[2] == '0');
    reveal_with_fuel(digit_run, 3);
    assert(digit_run(s, 0) == 1);
    assert(digit_run(s, 2) == 1);
    assert((s.subrange(0, 1) + s.subrange(2, 3)).len() == 2);
}

/// A scale: text within the grammar of numbers, kept as it was given.
#[derive(Debug)]
pub struct Scale {
    text: String,
}

impl View for Scale {
    type V = Seq<char>;

    closed spec fn view(&self) -> Seq<char> {
        self.text@
    }
}

impl Clone for Scale {
    fn clone(&self) -> (r: Scale)
        ensures
            r@ == self@,
    {
        proof {
            use_type_invariant(self);
        }
        Scale { text: self.text.clone() }
    }
}

impl Scale {
    #[verifier::type_invariant]
    spec fn wf(&self) -> bool {
        number_of(self.text@) is Some
    }

    /// Reads a scale: any text within the grammar of numbers.
    pub fn parse(text: &str) -> (r: Option<Scale>)
        ensures
            match r {
                Some(s) => s@ == text@ && number_of(text@) is Some,
                None => number_of(text@) is None,
            },
    {
        if parse_number(text).is_some() {
            Some(Scale { text: String::from_str(text) })
        } else {
            None
        }
    }

    /// The scale where none is given.
    pub fn one() -> (r: Scale)
        ensures
            r@ == default_scale(),
    {
        proof {
            lemma_default_scale_is_a_number();
        }
        Scale { text: String::from_str("1.0") }
    }

    /// The text of the scale, which is a number.
    pub fn as_str(&self) -> (t: &str)
        ensures
            t@ == self@,
            number_of(t@) is Some,
    {
        proof {
            use_type_invariant(self);
        }
        self.text.as_str()
    }
}

} // verus!
