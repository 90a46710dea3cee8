//! Which fluid a hydrocarbon column holds.

use vstd::prelude::*;
use crate::error::SrsError;
use crate::text::{chars_eq_str, chars_of, lower, lower_chars, string_of, upper};

verus! {

/// Which fluid the column holds (selects the FVF conversion).
#[derive(Debug, Clone, Copy, PartialEq, Eq, Structural)]
pub enum Fluid {
    /// Oil — FVF is `Boi` \[Rm³/Sm³\], in-place in Sm³.
    Oil,
    /// Gas — FVF is `Bgi` \[Rm³/Sm³\], in-place in Sm³.
    Gas,
}

/// The lower-case label of a fluid.
pub open spec fn fluid_label(f: Fluid) -> Seq<char> {
    match f {
        Fluid::Oil => "oil"@,
        Fluid::Gas => "gas"@,
    }
}

/// The fluid a text names, ignoring ASCII case; `None` for any other text.
pub open spec fn fluid_named(s: Seq<char>) -> Option<Fluid> {
    if lower(s) == "oil"@ {
        Some(Fluid::Oil)
    } else if lower(s) == "gas"@ {
        Some(Fluid::Gas)
    } else {
        None
    }
}

/// The reason `Fluid::parse` gives for text naming no fluid.
pub open spec fn bad_fluid_reason(s: Seq<char>) -> Seq<char> {
    "fluid must be 'oil' or 'gas', got '"@ + lower(s) + "'"@
}

impl Fluid {
    /// The lower-case label (`"oil"` / `"gas"`).
    pub fn label(self) -> (r: &'static str)
        ensures
            r@ == fluid_label(self),
    {
        match self {
            Fluid::Oil => "oil",
            Fluid::Gas => "gas",
        }
    }

    /// Parse `"oil"`/`"gas"` (case-insensitive); any other text is an
    /// `InvalidInput` naming the lower-cased text.
    pub fn parse(s: &str) -> (r: Result<Fluid, SrsError>)
        ensures
            match fluid_named(s@) {
                Some(f) => r == Ok::<Fluid, SrsError>(f),
                None => r is Err && crate::error::is_invalid_input(r->Err_0, bad_fluid_reason(s@)),
            },
    {
        let cs = chars_of(s);
        let low = lower_chars(cs.as_slice());
        if chars_eq_str(low.as_slice(), "oil") {
            Ok(Fluid::Oil)
        } else if chars_eq_str(low.as_slice(), "gas") {
            Ok(Fluid::Gas)
        } else {
            let mut m = String::from_str("fluid must be 'oil' or 'gas', got '");
            let got = string_of(low.as_slice());
            m.append(got.as_str());
            m.append("'");
            Err(SrsError::InvalidInput(m))
        }
    }
}

/// Lower-casing ignores an earlier upper-casing.
pub proof fn lemma_lower_upper(s: Seq<char>)
    ensures
        lower(upper(s)) == lower(s),
{
    assert(lower(upper(s)) =~= lower(s));
}

/// A fluid's label names it again: `Fluid::parse(f.label())` is `Ok(f)`.
pub proof fn law_fluid_label_roundtrip(f: Fluid)
    ensures
        fluid_named(fluid_label(f)) == Some(f),
{
    reveal_strlit("oil");
    reveal_strlit("gas");
    assert(lower("oil"@) =~= "oil"@);
    assert(lower("gas"@) =~= "gas"@);
    assert("oil"@ != "gas"@) by {
        assert("oil"@[0] != "gas"@[0]);
    }
}

/// Fluid names are case-insensitive: any ASCII re-casing of a text names the
/// same fluid (or none).
pub proof fn law_fluid_case_insensitive(s: Seq<char>)
    ensures
        fluid_named(upper(s)) == fluid_named(s),
        fluid_named(lower(s)) == fluid_named(s),
{
    lemma_lower_upper(s);
    assert(lower(lower(s)) =~= lower(s));
}

} // verus!
