//! The user-facing vocabularies of the appraisal facade: variogram models,
//! upscale methods, field-aggregation correlation, layering styles, contact
//! keys, distribution tags, section sources and the resimulate switch. Each
//! word is matched ignoring ASCII case; an unknown word is an `InvalidInput`
//! that names it (lower-cased).

use vstd::prelude::*;
use crate::error::{is_invalid_input, SrsError};
use crate::layering::lemma_lower_idempotent;
use crate::text::{chars_eq_str, chars_of, decimal, lower, lower_chars, push_decimal, string_of};

verus! {

/// The ASCII-lower-cased characters of `s`.
pub(crate) fn lowered(s: &str) -> (r: Vec<char>)
    ensures
        r@ == lower(s@),
{
    let c = chars_of(s);
    lower_chars(c.as_slice())
}

/// `prefix + w + suffix` as a reason string.
pub(crate) fn reason3(prefix: &str, w: &[char], suffix: &str) -> (s: String)
    ensures
        s@ == prefix@ + w@ + suffix@,
{
    let mut s = String::from_str(prefix);
    let m = string_of(w);
    s.append(m.as_str());
    s.append(suffix);
    s
}

// ---------------------------------------------------------------------------
// Variogram models
// ---------------------------------------------------------------------------

/// A variogram model family.
#[derive(Debug, Clone, Copy, PartialEq, Eq, Structural)]
pub enum VariogramModel {
    Spherical,
    Exponential,
    Gaussian,
    Nugget,
}

/// The variogram model a word names.
pub open spec fn vgm_named(w: Seq<char>) -> Option<VariogramModel> {
    let l = lower(w);
    if l == "spherical"@ {
        Some(VariogramModel::Spherical)
    } else if l == "exponential"@ {
        Some(VariogramModel::Exponential)
    } else if l == "gaussian"@ {
        Some(VariogramModel::Gaussian)
    } else if l == "nugget"@ {
        Some(VariogramModel::Nugget)
    } else {
        None
    }
}

/// Parse a variogram model name (`spherical`/`exponential`/`gaussian`/`nugget`).
pub fn parse_vgm_model(model: &str) -> (r: Result<VariogramModel, SrsError>)
    ensures
        match vgm_named(model@) {
            Some(m) => r == Ok::<VariogramModel, SrsError>(m),
            None => r is Err && is_invalid_input(
                r->Err_0,
                "variogram model must be spherical/exponential/gaussian/nugget, got '"@ + lower(
                    model@,
                ) + "'"@,
            ),
        },
{
    let l = lowered(model);
    if chars_eq_str(l.as_slice(), "spherical") {
        Ok(VariogramModel::Spherical)
    } else if chars_eq_str(l.as_slice(), "exponential") {
        Ok(VariogramModel::Exponential)
    } else if chars_eq_str(l.as_slice(), "gaussian") {
        Ok(VariogramModel::Gaussian)
    } else if chars_eq_str(l.as_slice(), "nugget") {
        Ok(VariogramModel::Nugget)
    } else {
        Err(
            SrsError::InvalidInput(
                reason3(
                    "variogram model must be spherical/exponential/gaussian/nugget, got '",
                    l.as_slice(),
                    "'",
                ),
            ),
        )
    }
}

// ---------------------------------------------------------------------------
// Upscale methods
// ---------------------------------------------------------------------------

/// How well-log samples are averaged into a cell.
#[derive(Debug, Clone, Copy, PartialEq, Eq, Structural)]
pub enum UpscaleMethod {
    Arithmetic,
    Harmonic,
    Geometric,
}

/// The upscale method a word names.
pub open spec fn upscale_named(w: Seq<char>) -> Option<UpscaleMethod> {
    let l = lower(w);
    if l == "arithmetic"@ {
        Some(UpscaleMethod::Arithmetic)
    } else if l == "harmonic"@ {
        Some(UpscaleMethod::Harmonic)
    } else if l == "geometric"@ {
        Some(UpscaleMethod::Geometric)
    } else {
        None
    }
}

/// Parse an upscale method (`arithmetic`/`harmonic`/`geometric`).
pub fn parse_upscale(method: &str) -> (r: Result<UpscaleMethod, SrsError>)
    ensures
        match upscale_named(method@) {
            Some(m) => r == Ok::<UpscaleMethod, SrsError>(m),
            None => r is Err && is_invalid_input(
                r->Err_0,
                "upscale method must be arithmetic/harmonic/geometric, got '"@ + lower(method@)
                    + "'"@,
            ),
        },
{
    let l = lowered(method);
    if chars_eq_str(l.as_slice(), "arithmetic") {
        Ok(UpscaleMethod::Arithmetic)
    } else if chars_eq_str(l.as_slice(), "harmonic") {
        Ok(UpscaleMethod::Harmonic)
    } else if chars_eq_str(l.as_slice(), "geometric") {
        Ok(UpscaleMethod::Geometric)
    } else {
        Err(
            SrsError::InvalidInput(
                reason3(
                    "upscale method must be arithmetic/harmonic/geometric, got '",
                    l.as_slice(),
                    "'",
                ),
            ),
        )
    }
}

// ---------------------------------------------------------------------------
// Field aggregation
// ---------------------------------------------------------------------------

/// The dependence assumed between segments when their realizations are
/// summed into a field total.
#[derive(Debug, Clone, Copy, PartialEq, Eq, Structural)]
pub enum Correlation {
    Independent,
    Comonotonic,
}

/// The correlation a word names (`perfect` is a synonym of `comonotonic`).
pub open spec fn correlation_named(w: Seq<char>) -> Option<Correlation> {
    let l = lower(w);
    if l == "independent"@ {
        Some(Correlation::Independent)
    } else if l == "comonotonic"@ || l == "perfect"@ {
        Some(Correlation::Comonotonic)
    } else {
        None
    }
}

/// Parse a field-aggregation correlation (`independent`, or
/// `comonotonic`/`perfect`).
pub fn parse_correlation(correlation: &str) -> (r: Result<Correlation, SrsError>)
    ensures
        match correlation_named(correlation@) {
            Some(c) => r == Ok::<Correlation, SrsError>(c),
            None => r is Err && is_invalid_input(
                r->Err_0,
                "correlation must be independent/comonotonic, got '"@ + lower(correlation@)
                    + "'"@,
            ),
        },
{
    let l = lowered(correlation);
    if chars_eq_str(l.as_slice(), "independent") {
        Ok(Correlation::Independent)
    } else if chars_eq_str(l.as_slice(), "comonotonic") || chars_eq_str(l.as_slice(), "perfect") {
        Ok(Correlation::Comonotonic)
    } else {
        Err(
            SrsError::InvalidInput(
                reason3("correlation must be independent/comonotonic, got '", l.as_slice(), "'"),
            ),
        )
    }
}

// ---------------------------------------------------------------------------
// Fluid contacts
// ---------------------------------------------------------------------------

/// Which contact depth a `contacts` key sets.
#[derive(Debug, Clone, Copy, PartialEq, Eq, Structural)]
pub enum ContactSlot {
    /// The gas-oil contact.
    GasOil,
    /// The lower contact: free-water level / oil-water (or gas-water) contact.
    Lower,
}

/// The slot a key of a grid's `contacts` dict names (`goc`, or
/// `fwl`/`owc`/`contact`).
pub open spec fn grid_contact_named(w: Seq<char>) -> Option<ContactSlot> {
    let l = lower(w);
    if l == "goc"@ {
        Some(ContactSlot::GasOil)
    } else if l == "fwl"@ || l == "owc"@ || l == "contact"@ {
        Some(ContactSlot::Lower)
    } else {
        None
    }
}

/// The slot a key of a zone's `contacts` dict names (as for a grid, and
/// `gwc` too).
pub open spec fn zone_contact_named(w: Seq<char>) -> Option<ContactSlot> {
    let l = lower(w);
    if l == "gwc"@ {
        Some(ContactSlot::Lower)
    } else {
        grid_contact_named(w)
    }
}

/// The slot a lower-cased key names, zone keys included when `zone_keys`.
fn contact_slot_of(l: &[char], zone_keys: bool) -> (c: Option<ContactSlot>)
    ensures
        l@ == lower(l@) ==> c == (if zone_keys {
            zone_contact_named(l@)
        } else {
            grid_contact_named(l@)
        }),
{
    if zone_keys && chars_eq_str(l, "gwc") {
        Some(ContactSlot::Lower)
    } else if chars_eq_str(l, "goc") {
        Some(ContactSlot::GasOil)
    } else if chars_eq_str(l, "fwl") || chars_eq_str(l, "owc") || chars_eq_str(l, "contact") {
        Some(ContactSlot::Lower)
    } else {
        None
    }
}

/// The contact a key of `model(contacts={..})` sets.
pub fn contact_slot(key: &str) -> (r: Result<ContactSlot, SrsError>)
    ensures
        match grid_contact_named(key@) {
            Some(c) => r == Ok::<ContactSlot, SrsError>(c),
            None => r is Err && is_invalid_input(
                r->Err_0,
                "unknown contact '"@ + lower(key@) + "' (expected fwl/owc or goc)"@,
            ),
        },
{
    let l = lowered(key);
    proof {
        lemma_lower_idempotent(key@);
    }
    match contact_slot_of(l.as_slice(), false) {
        Some(c) => Ok(c),
        None => Err(
            SrsError::InvalidInput(
                reason3("unknown contact '", l.as_slice(), "' (expected fwl/owc or goc)"),
            ),
        ),
    }
}

/// The contact a key of a zone's `contacts` dict sets.
pub fn zone_contact_slot(zone: &str, key: &str) -> (r: Result<ContactSlot, SrsError>)
    ensures
        match zone_contact_named(key@) {
            Some(c) => r == Ok::<ContactSlot, SrsError>(c),
            None => r is Err && is_invalid_input(
                r->Err_0,
                "zone '"@ + zone@ + "': unknown contact '"@ + lower(key@)
                    + "' (expected goc / fwl / owc)"@,
            ),
        },
{
    let l = lowered(key);
    proof {
        lemma_lower_idempotent(key@);
    }
    match contact_slot_of(l.as_slice(), true) {
        Some(c) => Ok(c),
        None => {
            let mut s = String::from_str("zone '");
            s.append(zone);
            let tail = reason3("': unknown contact '", l.as_slice(), "' (expected goc / fwl / owc)");
            s.append(tail.as_str());
            proof {
                assert(s@ =~= "zone '"@ + zone@ + "': unknown contact '"@ + lower(key@)
                    + "' (expected goc / fwl / owc)"@);
            }
            Err(SrsError::InvalidInput(s))
        },
    }
}

/// The contact a key of a per-contact pick-spread dict spreads: `goc` is the
/// gas-oil contact, any other key the lower contact.
pub fn pick_spread_slot(key: &str) -> (c: ContactSlot)
    ensures
        c == (if lower(key@) == "goc"@ {
            ContactSlot::GasOil
        } else {
            ContactSlot::Lower
        }),
{
    let l = lowered(key);
    if chars_eq_str(l.as_slice(), "goc") {
        ContactSlot::GasOil
    } else {
        ContactSlot::Lower
    }
}

/// A zone's `contacts` dict accepts every key a grid's does, for the same
/// contact, and one more: `gwc`, a lower contact.
pub proof fn law_zone_contacts_extend_grid_contacts(key: Seq<char>)
    ensures
        grid_contact_named(key) is Some ==> zone_contact_named(key) == grid_contact_named(key),
        lower(key) == "gwc"@ ==> zone_contact_named(key) == Some(ContactSlot::Lower),
{
    reveal_strlit("gwc");
    reveal_strlit("goc");
    reveal_strlit("fwl");
    reveal_strlit("owc");
    reveal_strlit("contact");
    assert("gwc"@[1] != "goc"@[1]);
    assert("gwc"@[0] != "fwl"@[0]);
    assert("gwc"@[0] != "owc"@[0]);
    assert("gwc"@.len() != "contact"@.len());
}

// ---------------------------------------------------------------------------
// Distributions
// ---------------------------------------------------------------------------

/// A sampling distribution family.
#[derive(Debug, Clone, Copy, PartialEq, Eq, Structural)]
pub enum DistTag {
    Normal,
    Lognormal,
    Uniform,
    Triangular,
}

/// The family a tag names, ignoring ASCII case.
pub open spec fn dist_named(w: Seq<char>) -> Option<DistTag> {
    let l = lower(w);
    if l == "normal"@ {
        Some(DistTag::Normal)
    } else if l == "lognormal"@ {
        Some(DistTag::Lognormal)
    } else if l == "uniform"@ {
        Some(DistTag::Uniform)
    } else if l == "triangular"@ {
        Some(DistTag::Triangular)
    } else {
        None
    }
}

/// How many parameters a family takes (`triangular`: min, mode, max).
pub open spec fn dist_arity(t: DistTag) -> nat {
    match t {
        DistTag::Triangular => 3,
        _ => 2,
    }
}

/// Check a `{tag: [params..]}` distribution's tag and parameter count: the
/// family, an unknown-tag error naming the lower-cased tag, or an arity error
/// naming the tag as written.
pub fn check_distribution(tag: &str, n_params: usize) -> (r: Result<DistTag, SrsError>)
    ensures
        match dist_named(tag@) {
            None => r is Err && is_invalid_input(
                r->Err_0,
                "unknown distribution tag '"@ + lower(tag@)
                    + "'; expected one of: normal, lognormal, uniform, triangular"@,
            ),
            Some(t) => if n_params == dist_arity(t) {
                r == Ok::<DistTag, SrsError>(t)
            } else {
                r is Err && is_invalid_input(
                    r->Err_0,
                    "distribution '"@ + tag@ + "' expects "@ + decimal(dist_arity(t)) + " parameters, got "@
                        + decimal(n_params as nat),
                )
            },
        },
{
    let l = lowered(tag);
    let t = if chars_eq_str(l.as_slice(), "normal") {
        DistTag::Normal
    } else if chars_eq_str(l.as_slice(), "lognormal") {
        DistTag::Lognormal
    } else if chars_eq_str(l.as_slice(), "uniform") {
        DistTag::Uniform
    } else if chars_eq_str(l.as_slice(), "triangular") {
        DistTag::Triangular
    } else {
        return Err(
            SrsError::InvalidInput(
                reason3(
                    "unknown distribution tag '",
                    l.as_slice(),
                    "'; expected one of: normal, lognormal, uniform, triangular",
                ),
            ),
        );
    };
    let want: usize = match t {
        DistTag::Triangular => 3,
        _ => 2,
    };
    if n_params == want {
        Ok(t)
    } else {
        let mut s = String::from_str("distribution '");
        s.append(tag);
        s.append("' expects ");
        push_decimal(&mut s, want);
        s.append(" parameters, got ");
        push_decimal(&mut s, n_params);
        Err(SrsError::InvalidInput(s))
    }
}

// ---------------------------------------------------------------------------
// Sections
// ---------------------------------------------------------------------------

/// What a vertical section is cut along.
#[derive(Debug)]
pub enum SectionSource {
    /// The caller's polyline.
    Line,
    /// The trajectory of the named well.
    Well(String),
}

/// Resolve a section request: a given line wins over a well; with neither
/// the request is refused.
pub fn section_source(has_line: bool, well: Option<String>) -> (r: Result<SectionSource, SrsError>)
    ensures
        has_line ==> r matches Ok(SectionSource::Line),
        !has_line && well is Some ==> (r matches Ok(SectionSource::Well(w)) && w@ == well->0@),
        !has_line && well is None ==> r is Err && is_invalid_input(
            r->Err_0,
            "a section needs either a `line=[[x,y],..]` or a `well=<id>`"@,
        ),
{
    if has_line {
        Ok(SectionSource::Line)
    } else {
        match well {
            Some(w) => Ok(SectionSource::Well(w)),
            None => Err(
                SrsError::InvalidInput(
                    String::from_str("a section needs either a `line=[[x,y],..]` or a `well=<id>`"),
                ),
            ),
        }
    }
}

/// The well track an along-bore section is cut along: the first attached
/// track with the requested id, which needs at least two positioned
/// stations. `tracks` pairs each attached well's id with its station count.
pub fn section_well(tracks: &[(String, usize)], id: &str) -> (r: Result<usize, SrsError>)
    ensures
        match r {
            Ok(k) => k < tracks.len() && tracks@[k as int].0@ == id@ && tracks@[k as int].1 >= 2
                && forall|j: int| 0 <= j < k ==> (#[trigger] tracks@[j]).0@ != id@,
            Err(e) => (forall|j: int| 0 <= j < tracks.len() ==> (#[trigger] tracks@[j]).0@ != id@)
                && is_invalid_input(
                e,
                "intersection_bundle: no well '"@ + id@
                    + "' attached to the model (attach wells via grid.model(..., wells=proj.wells()))"@,
            ) || exists|k: int|
                0 <= k < tracks.len() && (#[trigger] tracks@[k]).0@ == id@ && tracks@[k].1 < 2
                    && (forall|j: int| 0 <= j < k ==> (#[trigger] tracks@[j]).0@ != id@)
                    && is_invalid_input(
                    e,
                    "intersection_bundle: well '"@ + id@ + "' has no positioned trajectory"@,
                ),
        },
{
    let want = String::from_str(id);
    let mut k: usize = 0;
    while k < tracks.len()
        invariant
            k <= tracks.len(),
            want@ == id@,
            forall|j: int| 0 <= j < k ==> (#[trigger] tracks@[j]).0@ != id@,
        decreases tracks.len() - k,
    {
        if tracks[k].0 == want {
            if tracks[k].1 < 2 {
                let mut s = String::from_str("intersection_bundle: well '");
                s.append(id);
                s.append("' has no positioned trajectory");
                return Err(SrsError::InvalidInput(s));
            }
            return Ok(k);
        }
        k += 1;
    }
    let mut s = String::from_str("intersection_bundle: no well '");
    s.append(id);
    s.append("' attached to the model (attach wells via grid.model(..., wells=proj.wells()))");
    Err(SrsError::InvalidInput(s))
}

/// `ps.resimulate()` — selects the resimulate Monte Carlo mode (a fresh SGS
/// pattern per realization); it is the `true` of `resimulate=`.
pub fn resimulate() -> (r: bool)
    ensures
        r == true,
{
    true
}

} // verus!
