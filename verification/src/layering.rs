//! How a zone is split into layers: the conformity style (proportional,
//! parallel to the top, parallel to the base) and whether the layer count is
//! given directly or derived from a layer thickness. The thickness itself is a
//! length in metres that the caller keeps; a plan only records that it is the
//! thickness that drives the count.

use vstd::prelude::*;
use crate::error::{is_invalid_input, SrsError};
use crate::text::{chars_eq_str, lower, string_of};
use crate::vocab::{lowered, reason3};

verus! {

/// The conformity of the layers in a zone.
#[derive(Debug, Clone, Copy, PartialEq, Eq, Structural)]
pub enum Conformity {
    /// Equal-fraction layers between top and base.
    Proportional,
    /// Constant-thickness layers draped parallel to the top (truncation).
    FollowTop,
    /// Constant-thickness layers draped parallel to the base (onlap).
    FollowBase,
}

/// Where the layer count comes from.
#[derive(Debug, Clone, Copy, PartialEq, Eq, Structural)]
pub enum LayerAlloc {
    /// Exactly this many layers.
    Count(usize),
    /// As many layers as the caller's thickness gives.
    Thickness,
}

/// A resolved layering: conformity and count source.
#[derive(Debug, Clone, Copy, PartialEq, Eq, Structural)]
pub struct LayerPlan {
    pub conformity: Conformity,
    pub alloc: LayerAlloc,
}

/// The conformity a style word names, ignoring ASCII case.
pub open spec fn style_named(w: Seq<char>) -> Option<Conformity> {
    let l = lower(w);
    if l == "proportional"@ || l == "prop"@ {
        Some(Conformity::Proportional)
    } else if l == "follow_top"@ || l == "followtop"@ || l == "erosional"@ || l == "truncation"@ {
        Some(Conformity::FollowTop)
    } else if l == "follow_base"@ || l == "followbase"@ || l == "onlap"@ {
        Some(Conformity::FollowBase)
    } else {
        None
    }
}

/// The outcome of `ps.layers(n, dz_m, style)`: the plan, or the reason it is
/// refused. `has_dz` tells whether a thickness was given.
pub open spec fn layers_outcome(n: Option<usize>, has_dz: bool, style: Seq<char>) -> Result<
    LayerPlan,
    Seq<char>,
> {
    match style_named(style) {
        None => Err(
            "unknown layering style '"@ + lower(style)
                + "' (expected proportional / follow_top / follow_base)"@,
        ),
        Some(Conformity::Proportional) => match n {
            Some(k) => if has_dz {
                Err("ps.layers (proportional) needs exactly one of n= or dz_m="@)
            } else {
                Ok(LayerPlan { conformity: Conformity::Proportional, alloc: LayerAlloc::Count(k) })
            },
            None => if has_dz {
                Ok(LayerPlan { conformity: Conformity::Proportional, alloc: LayerAlloc::Thickness })
            } else {
                Err("ps.layers needs n= or dz_m="@)
            },
        },
        Some(Conformity::FollowTop) => if has_dz {
            Ok(LayerPlan { conformity: Conformity::FollowTop, alloc: LayerAlloc::Thickness })
        } else {
            Err("ps.layers(style=\"follow_top\") needs dz_m="@)
        },
        Some(Conformity::FollowBase) => if has_dz {
            Ok(LayerPlan { conformity: Conformity::FollowBase, alloc: LayerAlloc::Thickness })
        } else {
            Err("ps.layers(style=\"follow_base\") needs dz_m="@)
        },
    }
}

/// Whether `r` is exactly the outcome `o`, an error being an `InvalidInput`
/// with that reason.
pub open spec fn matches_outcome(r: Result<LayerPlan, SrsError>, o: Result<LayerPlan, Seq<char>>) -> bool {
    match o {
        Ok(p) => r == Ok::<LayerPlan, SrsError>(p),
        Err(m) => r is Err && is_invalid_input(r->Err_0, m),
    }
}

/// The conformity named by a style word, as an executable check.
fn style_of(l: &[char]) -> (c: Option<Conformity>)
    ensures
        l@ == lower(l@) ==> c == style_named(l@),
{
    if chars_eq_str(l, "proportional") || chars_eq_str(l, "prop") {
        Some(Conformity::Proportional)
    } else if chars_eq_str(l, "follow_top") || chars_eq_str(l, "followtop") || chars_eq_str(
        l,
        "erosional",
    ) || chars_eq_str(l, "truncation") {
        Some(Conformity::FollowTop)
    } else if chars_eq_str(l, "follow_base") || chars_eq_str(l, "followbase") || chars_eq_str(
        l,
        "onlap",
    ) {
        Some(Conformity::FollowBase)
    } else {
        None
    }
}

/// `ps.layers(n=None, dz_m=None, style="proportional")`: a proportional style
/// takes exactly one of a count `n` or a thickness; a follow style needs a
/// thickness and ignores `n`.
pub fn layers(n: Option<usize>, has_dz: bool, style: &str) -> (r: Result<LayerPlan, SrsError>)
    ensures
        matches_outcome(r, layers_outcome(n, has_dz, style@)),
{
    let l = lowered(style);
    proof {
        lemma_lower_idempotent(style@);
    }
    let c = style_of(l.as_slice());
    match c {
        None => Err(
            SrsError::InvalidInput(
                reason3(
                    "unknown layering style '",
                    l.as_slice(),
                    "' (expected proportional / follow_top / follow_base)",
                ),
            ),
        ),
        Some(Conformity::Proportional) => match n {
            Some(k) => if has_dz {
                Err(
                    SrsError::InvalidInput(
                        String::from_str("ps.layers (proportional) needs exactly one of n= or dz_m="),
                    ),
                )
            } else {
                Ok(LayerPlan { conformity: Conformity::Proportional, alloc: LayerAlloc::Count(k) })
            },
            None => if has_dz {
                Ok(LayerPlan { conformity: Conformity::Proportional, alloc: LayerAlloc::Thickness })
            } else {
                Err(SrsError::InvalidInput(String::from_str("ps.layers needs n= or dz_m=")))
            },
        },
        Some(Conformity::FollowTop) => if has_dz {
            Ok(LayerPlan { conformity: Conformity::FollowTop, alloc: LayerAlloc::Thickness })
        } else {
            Err(
                SrsError::InvalidInput(
                    String::from_str("ps.layers(style=\"follow_top\") needs dz_m="),
                ),
            )
        },
        Some(Conformity::FollowBase) => if has_dz {
            Ok(LayerPlan { conformity: Conformity::FollowBase, alloc: LayerAlloc::Thickness })
        } else {
            Err(
                SrsError::InvalidInput(
                    String::from_str("ps.layers(style=\"follow_base\") needs dz_m="),
                ),
            )
        },
    }
}

/// The outcome of a zone's layering in `set_zonation`: the plan, or the reason
/// it is refused, naming the zone.
pub open spec fn zone_layering_outcome(
    zone: Seq<char>,
    style: Seq<char>,
    nk: Option<usize>,
    has_dz: bool,
) -> Result<LayerPlan, Seq<char>> {
    match style_named(style) {
        None => Err(
            "zone '"@ + zone + "': unknown conformity '"@ + lower(style)
                + "' (proportional / follow_top / follow_base)"@,
        ),
        Some(Conformity::Proportional) => match nk {
            Some(k) => if has_dz {
                Err("zone '"@ + zone + "' (proportional) needs exactly one of nk= or dz_m="@)
            } else {
                Ok(LayerPlan { conformity: Conformity::Proportional, alloc: LayerAlloc::Count(k) })
            },
            None => if has_dz {
                Ok(LayerPlan { conformity: Conformity::Proportional, alloc: LayerAlloc::Thickness })
            } else {
                Err("zone '"@ + zone + "' (proportional) needs exactly one of nk= or dz_m="@)
            },
        },
        Some(Conformity::FollowTop) => if has_dz {
            Ok(LayerPlan { conformity: Conformity::FollowTop, alloc: LayerAlloc::Thickness })
        } else {
            Err("zone '"@ + zone + "' (follow_top) needs dz_m="@)
        },
        Some(Conformity::FollowBase) => if has_dz {
            Ok(LayerPlan { conformity: Conformity::FollowBase, alloc: LayerAlloc::Thickness })
        } else {
            Err("zone '"@ + zone + "' (follow_base) needs dz_m="@)
        },
    }
}

/// `"zone '" + zone + tail` as a reason.
fn zone_reason(zone: &str, tail: &str) -> (s: String)
    ensures
        s@ == "zone '"@ + zone@ + tail@,
{
    let mut s = String::from_str("zone '");
    s.append(zone);
    s.append(tail);
    s
}

/// Resolve one zone's conformity word and `nk`/thickness into a plan: a
/// proportional zone takes exactly one of them, a follow zone needs the
/// thickness.
pub fn zone_layering(zone: &str, style: &str, nk: Option<usize>, has_dz: bool) -> (r: Result<
    LayerPlan,
    SrsError,
>)
    ensures
        matches_outcome(r, zone_layering_outcome(zone@, style@, nk, has_dz)),
{
    let l = lowered(style);
    proof {
        lemma_lower_idempotent(style@);
    }
    let c = style_of(l.as_slice());
    match c {
        None => {
            let mut s = zone_reason(zone, "': unknown conformity '");
            let w = string_of(l.as_slice());
            s.append(w.as_str());
            s.append("' (proportional / follow_top / follow_base)");
            proof {
                assert(s@ =~= "zone '"@ + zone@ + "': unknown conformity '"@ + lower(style@)
                    + "' (proportional / follow_top / follow_base)"@);
            }
            Err(SrsError::InvalidInput(s))
        },
        Some(Conformity::Proportional) => match (nk, has_dz) {
            (Some(k), false) => Ok(
                LayerPlan { conformity: Conformity::Proportional, alloc: LayerAlloc::Count(k) },
            ),
            (None, true) => Ok(
                LayerPlan { conformity: Conformity::Proportional, alloc: LayerAlloc::Thickness },
            ),
            _ => Err(
                SrsError::InvalidInput(
                    zone_reason(zone, "' (proportional) needs exactly one of nk= or dz_m="),
                ),
            ),
        },
        Some(Conformity::FollowTop) => if has_dz {
            Ok(LayerPlan { conformity: Conformity::FollowTop, alloc: LayerAlloc::Thickness })
        } else {
            Err(SrsError::InvalidInput(zone_reason(zone, "' (follow_top) needs dz_m=")))
        },
        Some(Conformity::FollowBase) => if has_dz {
            Ok(LayerPlan { conformity: Conformity::FollowBase, alloc: LayerAlloc::Thickness })
        } else {
            Err(SrsError::InvalidInput(zone_reason(zone, "' (follow_base) needs dz_m=")))
        },
    }
}

/// `ps.layers` and a zone's layering in `set_zonation` read a style, a count
/// and a thickness the same way: for any zone name, one accepts exactly when
/// the other does, and then both give the same plan.
pub proof fn law_zone_layering_agrees_with_layers(
    zone: Seq<char>,
    style: Seq<char>,
    n: Option<usize>,
    has_dz: bool,
)
    ensures
        layers_outcome(n, has_dz, style) is Ok <==> zone_layering_outcome(zone, style, n, has_dz) is Ok,
        layers_outcome(n, has_dz, style) is Ok ==> layers_outcome(n, has_dz, style)->Ok_0
            == zone_layering_outcome(zone, style, n, has_dz)->Ok_0,
{
}

/// A follow style is always thickness-driven, and a count is only ever
/// taken by the proportional style.
pub proof fn law_counts_only_proportional(n: Option<usize>, has_dz: bool, style: Seq<char>)
    ensures
        layers_outcome(n, has_dz, style) matches Ok(p) ==> (p.alloc is Count ==> p.conformity
            == Conformity::Proportional),
        layers_outcome(n, has_dz, style) matches Ok(p) ==> (p.conformity != Conformity::Proportional
            ==> p.alloc == LayerAlloc::Thickness),
{
}

/// Each style is named by all of its spellings, in any case, and by no
/// other style's: `follow_top`/`followtop`/`erosional`/`truncation` drape
/// the layers parallel to the top, `follow_base`/`followbase`/`onlap`
/// parallel to the base, `proportional`/`prop` split the zone in equal
/// fractions; given a thickness, `ps.layers` then takes that style.
pub proof fn law_style_spellings(w: Seq<char>, n: Option<usize>)
    ensures
        (lower(w) == "follow_top"@ || lower(w) == "followtop"@ || lower(w) == "erosional"@ || lower(w)
            == "truncation"@) ==> style_named(w) == Some(Conformity::FollowTop) && layers_outcome(
            n,
            true,
            w,
        ) == Ok::<LayerPlan, Seq<char>>(
            LayerPlan { conformity: Conformity::FollowTop, alloc: LayerAlloc::Thickness },
        ),
        (lower(w) == "follow_base"@ || lower(w) == "followbase"@ || lower(w) == "onlap"@) ==> style_named(w)
            == Some(Conformity::FollowBase) && layers_outcome(n, true, w) == Ok::<LayerPlan, Seq<char>>(
            LayerPlan { conformity: Conformity::FollowBase, alloc: LayerAlloc::Thickness },
        ),
        (lower(w) == "proportional"@ || lower(w) == "prop"@) ==> style_named(w) == Some(
            Conformity::Proportional,
        ),
{
    reveal_strlit("follow_top");
    reveal_strlit("followtop");
    reveal_strlit("erosional");
    reveal_strlit("truncation");
    reveal_strlit("follow_base");
    reveal_strlit("followbase");
    reveal_strlit("onlap");
    reveal_strlit("proportional");
    reveal_strlit("prop");
    let l = lower(w);
    let props = l == "proportional"@ || l == "prop"@;
    let tops = l == "follow_top"@ || l == "followtop"@ || l == "erosional"@ || l == "truncation"@;
    let bases = l == "follow_base"@ || l == "followbase"@ || l == "onlap"@;
    if tops {
        assert(!props) by {
            assert(l.len() == 9 || l.len() == 10);
        }
        assert(style_named(w) == Some(Conformity::FollowTop));
    }
    if bases {
        assert(!props) by {
            assert(l.len() == 11 || l.len() == 10 || l.len() == 5);
        }
        assert(!tops) by {
            if l == "followbase"@ {
                assert(l[6] == 'b');
                assert("follow_top"@[6] == '_');
                assert("truncation"@[6] == 't');
            }
            if l == "follow_base"@ {
                assert(l.len() == 11);
            }
            if l == "onlap"@ {
                assert(l.len() == 5);
            }
        }
        assert(style_named(w) == Some(Conformity::FollowBase));
    }
}

/// Lower-casing twice is lower-casing once.
pub proof fn lemma_lower_idempotent(s: Seq<char>)
    ensures
        lower(lower(s)) == lower(s),
{
    assert(lower(lower(s)) =~= lower(s));
}

} // verus!
