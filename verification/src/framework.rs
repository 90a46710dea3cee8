//! The structural-framework decisions: what each declared horizon is built
//! from, which horizons join the single-zone wireframe and in which role, the
//! footprint outline, the zonation's shape against the horizons, per-zone
//! prior tables, and the default layer count. The gridding itself, and every
//! depth and area, belong to the caller.

use vstd::prelude::*;
use crate::error::{is_invalid_input, SrsError};
use crate::layering::LayerPlan;
use crate::order::string_views;
use crate::text::{decimal, push_decimal};

verus! {

// ---------------------------------------------------------------------------
// Horizons
// ---------------------------------------------------------------------------

/// A wireframe horizon's place in the stack.
#[derive(Debug, Clone, Copy, PartialEq, Eq, Structural)]
pub enum HorizonRole {
    Top,
    Intermediate,
    Base,
}

/// The role of the `idx`-th of `n` horizons: the first is the top, the last
/// (of several) the base, the rest are intermediate.
pub open spec fn role_spec(idx: nat, n: nat) -> HorizonRole {
    if idx == 0 {
        HorizonRole::Top
    } else if idx + 1 == n {
        HorizonRole::Base
    } else {
        HorizonRole::Intermediate
    }
}

/// The role of the `idx`-th of `n` horizons.
pub fn horizon_role(idx: usize, n: usize) -> (r: HorizonRole)
    requires
        idx < n,
    ensures
        r == role_spec(idx as nat, n as nat),
{
    if idx == 0 {
        HorizonRole::Top
    } else if idx == n - 1 {
        HorizonRole::Base
    } else {
        HorizonRole::Intermediate
    }
}

/// What a declared horizon is built from.
#[derive(Debug, Clone, Copy, PartialEq, Eq, Structural)]
pub enum SourceKind {
    /// A loaded grid surface, resampled onto the shared lattice.
    Mapped,
    /// A loaded point set, gridded by the engine.
    Scatter,
    /// Neither, but the wells carry its picks: an untied internal split.
    TopsOnly,
}

/// A framework needs at least one horizon.
pub fn require_horizons(horizons: &[String]) -> (r: Result<(), SrsError>)
    ensures
        horizons.len() > 0 <==> r is Ok,
        r is Err ==> is_invalid_input(r->Err_0, "framework needs at least one horizon"@),
{
    if horizons.len() == 0 {
        Err(SrsError::InvalidInput(String::from_str("framework needs at least one horizon")))
    } else {
        Ok(())
    }
}

/// Resolve what the horizon `name` is built from: a loaded surface first,
/// then a loaded point set, then the wells' picks; with none of them the
/// horizon is refused.
pub fn resolve_source_kind(name: &str, has_surface: bool, has_points: bool, has_picks: bool) -> (r:
    Result<SourceKind, SrsError>)
    ensures
        has_surface ==> r == Ok::<SourceKind, SrsError>(SourceKind::Mapped),
        !has_surface && has_points ==> r == Ok::<SourceKind, SrsError>(SourceKind::Scatter),
        !has_surface && !has_points && has_picks ==> r == Ok::<SourceKind, SrsError>(
            SourceKind::TopsOnly,
        ),
        !has_surface && !has_points && !has_picks ==> r is Err && is_invalid_input(
            r->Err_0,
            "horizon '"@ + name@
                + "' is neither a loaded surface nor a loaded point-set, and no well carries its pick"@,
        ),
{
    if has_surface {
        Ok(SourceKind::Mapped)
    } else if has_points {
        Ok(SourceKind::Scatter)
    } else if has_picks {
        Ok(SourceKind::TopsOnly)
    } else {
        let mut s = String::from_str("horizon '");
        s.append(name);
        s.append(
            "' is neither a loaded surface nor a loaded point-set, and no well carries its pick",
        );
        Err(SrsError::InvalidInput(s))
    }
}

/// The positions of the horizons that join the single-zone wireframe: every
/// horizon but the tops-only ones, in order.
pub open spec fn wireframe_members(kinds: Seq<SourceKind>) -> Seq<nat>
    decreases kinds.len(),
{
    if kinds.len() == 0 {
        seq![]
    } else {
        let r = wireframe_members(kinds.drop_last());
        if kinds.last() == SourceKind::TopsOnly {
            r
        } else {
            r.push((kinds.len() - 1) as nat)
        }
    }
}

/// The wireframe's horizons with their roles: each non-tops-only horizon's
/// position, in order, with the role of its place among them.
pub fn wireframe_layout(kinds: &[SourceKind]) -> (r: Vec<(usize, HorizonRole)>)
    ensures
        r@.len() == wireframe_members(kinds@).len(),
        forall|k: int|
            0 <= k < r@.len() ==> (#[trigger] r@[k]).0 == wireframe_members(kinds@)[k] && r@[k].1
                == role_spec(k as nat, r@.len() as nat),
{
    let mut members: Vec<usize> = Vec::new();
    let mut i: usize = 0;
    while i < kinds.len()
        invariant
            i <= kinds.len(),
            members@.len() <= i,
            members@.map_values(|m: usize| m as nat) == wireframe_members(kinds@.take(i as int)),
        decreases kinds.len() - i,
    {
        assert(kinds@.take(i + 1).drop_last() == kinds@.take(i as int));
        if kinds[i] != SourceKind::TopsOnly {
            members.push(i);
            assert(members@.map_values(|m: usize| m as nat) =~= wireframe_members(
                kinds@.take(i as int),
            ).push(i as nat));
        }
        i += 1;
    }
    assert(kinds@.take(kinds.len() as int) == kinds@);
    let n = members.len();
    let mut r: Vec<(usize, HorizonRole)> = Vec::new();
    let mut k: usize = 0;
    while k < n
        invariant
            k <= n,
            n == members@.len(),
            members@.map_values(|m: usize| m as nat) == wireframe_members(kinds@),
            r@.len() == k,
            forall|j: int|
                0 <= j < k ==> (#[trigger] r@[j]).0 == members@[j] && r@[j].1 == role_spec(
                    j as nat,
                    n as nat,
                ),
        decreases n - k,
    {
        let role = horizon_role(k, n);
        r.push((members[k], role));
        k += 1;
    }
    proof {
        assert forall|j: int| 0 <= j < r@.len() implies (#[trigger] r@[j]).0 == wireframe_members(
            kinds@,
        )[j] by {
            assert(members@.map_values(|m: usize| m as nat)[j] == members@[j] as nat);
        }
    }
    r
}

/// In any wireframe of at least two horizons, the first is the top, the last
/// the base, and every other one is intermediate: the top and base bracket
/// the rest.
pub proof fn law_top_and_base_bracket(n: nat)
    requires
        n >= 2,
    ensures
        role_spec(0, n) == HorizonRole::Top,
        role_spec((n - 1) as nat, n) == HorizonRole::Base,
        forall|k: nat| 0 < k < n - 1 ==> #[trigger] role_spec(k, n) == HorizonRole::Intermediate,
{
}

// ---------------------------------------------------------------------------
// Footprint outline
// ---------------------------------------------------------------------------

/// The texts of `s` joined with `sep` between them.
pub open spec fn join_with(s: Seq<Seq<char>>, sep: Seq<char>) -> Seq<char>
    decreases s.len(),
{
    if s.len() == 0 {
        seq![]
    } else if s.len() == 1 {
        s[0]
    } else {
        join_with(s.drop_last(), sep) + sep + s.last()
    }
}

/// The loaded polygons listed for a message: their names joined by `", "`,
/// or `<none>`.
pub open spec fn inventory_spec(names: Seq<Seq<char>>) -> Seq<char> {
    if names.len() == 0 {
        "<none>"@
    } else {
        join_with(names, ", "@)
    }
}

/// The loaded polygons' names for a message.
pub fn polygon_inventory(names: &[String]) -> (s: String)
    ensures
        s@ == inventory_spec(string_views(names@)),
{
    if names.len() == 0 {
        return String::from_str("<none>");
    }
    let ghost v = string_views(names@);
    let mut s = names[0].clone();
    assert(v.take(1) =~= seq![v[0]]);
    let mut i: usize = 1;
    while i < names.len()
        invariant
            1 <= i <= names.len(),
            v == string_views(names@),
            s@ == join_with(v.take(i as int), ", "@),
        decreases names.len() - i,
    {
        s.append(", ");
        s.append(names[i].as_str());
        assert(v.take(i + 1).drop_last() =~= v.take(i as int));
        assert(v.take(i + 1).last() == names@[i as int]@);
        i += 1;
    }
    assert(v.take(names.len() as int) =~= v);
    s
}

/// The polygon a framework's footprint is taken from.
#[derive(Debug)]
pub enum OutlineChoice {
    /// The caller's named polygon.
    Named(String),
    /// The conventional `ModelEdge` polygon.
    ModelEdge,
    /// No polygon: the framework's bounding box.
    Bbox,
}

/// Choose the footprint outline: a named outline must be loaded; without one
/// the `ModelEdge` polygon is used when loaded, else the bounding box.
/// `loaded` lists the loaded polygons for the refusal's message.
pub fn resolve_outline(
    outline: Option<&str>,
    named_loaded: bool,
    model_edge_loaded: bool,
    loaded: &[String],
) -> (r: Result<OutlineChoice, SrsError>)
    ensures
        match outline {
            Some(name) => if named_loaded {
                r matches Ok(OutlineChoice::Named(n)) && n@ == name@
            } else {
                r is Err && is_invalid_input(
                    r->Err_0,
                    "outline polygon '"@ + name@ + "' not loaded; loaded polygons: "@
                        + inventory_spec(string_views(loaded@)),
                )
            },
            None => if model_edge_loaded {
                r matches Ok(OutlineChoice::ModelEdge)
            } else {
                r matches Ok(OutlineChoice::Bbox)
            },
        },
{
    match outline {
        Some(name) => if named_loaded {
            Ok(OutlineChoice::Named(String::from_str(name)))
        } else {
            let mut s = String::from_str("outline polygon '");
            s.append(name);
            s.append("' not loaded; loaded polygons: ");
            let inv = polygon_inventory(loaded);
            s.append(inv.as_str());
            Err(SrsError::InvalidInput(s))
        },
        None => if model_edge_loaded {
            Ok(OutlineChoice::ModelEdge)
        } else {
            Ok(OutlineChoice::Bbox)
        },
    }
}

// ---------------------------------------------------------------------------
// Zonation
// ---------------------------------------------------------------------------

/// One zone of a declared zonation (`set_zonation`): its name, the horizon
/// bounding it below, and its layering. Its contact depths stay with the
/// caller.
#[derive(Debug, Clone)]
pub struct ZoneSpec {
    pub name: String,
    pub below_horizon: String,
    pub plan: LayerPlan,
}

/// The first zone, from `i` on, whose base is not the next horizon down.
pub open spec fn first_misplaced(h: Seq<Seq<char>>, zones: Seq<ZoneSpec>, i: nat) -> Option<nat>
    decreases zones.len() - i,
{
    if i >= zones.len() {
        None
    } else if zones[i as int].below_horizon@ != h[i + 1 as int] {
        Some(i)
    } else {
        first_misplaced(h, zones, i + 1)
    }
}

/// Whether a zonation fits the horizons: one zone per gap, top to base, each
/// bounded below by the next horizon down.
pub open spec fn zonation_fits(h: Seq<Seq<char>>, zones: Seq<ZoneSpec>) -> bool {
    &&& h.len() >= 2
    &&& zones.len() + 1 == h.len()
    &&& forall|i: int| 0 <= i < zones.len() ==> (#[trigger] zones[i]).below_horizon@ == h[i + 1]
}

/// The reason a zonation is refused, if it is.
pub open spec fn zonation_refusal(h: Seq<Seq<char>>, zones: Seq<ZoneSpec>) -> Option<Seq<char>> {
    if h.len() < 2 {
        Some("a zoned framework needs at least 2 horizons"@)
    } else if zones.len() + 1 != h.len() {
        Some(
            decimal(h.len()) + " horizons define "@ + decimal((h.len() - 1) as nat)
                + " zone(s), but "@ + decimal(zones.len()) + " zone spec(s) were given"@,
        )
    } else {
        match first_misplaced(h, zones, 0) {
            None => None,
            Some(i) => Some(
                "zone '"@ + zones[i as int].name@ + "' has below_horizon '"@
                    + zones[i as int].below_horizon@ + "', but interval "@ + decimal(i)
                    + " is bounded below by horizon '"@ + h[(i + 1) as int]
                    + "' (zones must be declared top→down, one per horizon gap)"@,
            ),
        }
    }
}

/// No misplaced zone from `i` on means every zone from `i` on is in place.
proof fn lemma_first_misplaced_none(h: Seq<Seq<char>>, zones: Seq<ZoneSpec>, i: nat)
    requires
        first_misplaced(h, zones, i) is None,
    ensures
        forall|j: int| i <= j < zones.len() ==> (#[trigger] zones[j]).below_horizon@ == h[j + 1],
    decreases zones.len() - i,
{
    if i < zones.len() {
        lemma_first_misplaced_none(h, zones, i + 1);
    }
}

/// Check a zonation against the framework's horizons (top to base) without
/// building anything: the zone count must be one less than the horizon count
/// and each zone's base must be the next horizon down.
pub fn validate(horizon_names: &[String], zones: &[ZoneSpec]) -> (r: Result<(), SrsError>)
    ensures
        r is Ok <==> zonation_fits(string_views(horizon_names@), zones@),
        match zonation_refusal(string_views(horizon_names@), zones@) {
            None => r is Ok,
            Some(m) => r is Err && is_invalid_input(r->Err_0, m),
        },
{
    let ghost h = string_views(horizon_names@);
    let n = horizon_names.len();
    if n < 2 {
        return Err(
            SrsError::InvalidInput(String::from_str("a zoned framework needs at least 2 horizons")),
        );
    }
    if zones.len() != n - 1 {
        let mut s = String::new();
        push_decimal(&mut s, n);
        s.append(" horizons define ");
        push_decimal(&mut s, n - 1);
        s.append(" zone(s), but ");
        push_decimal(&mut s, zones.len());
        s.append(" zone spec(s) were given");
        proof {
            reveal_strlit("");
        }
        return Err(SrsError::InvalidInput(s));
    }
    let mut i: usize = 0;
    while i < zones.len()
        invariant
            i <= zones.len(),
            zones.len() + 1 == n,
            n == horizon_names.len(),
            h == string_views(horizon_names@),
            first_misplaced(h, zones@, 0) == first_misplaced(h, zones@, i as nat),
        decreases zones.len() - i,
    {
        let expected = &horizon_names[i + 1];
        if zones[i].below_horizon != *expected {
            let mut s = String::from_str("zone '");
            s.append(zones[i].name.as_str());
            s.append("' has below_horizon '");
            s.append(zones[i].below_horizon.as_str());
            s.append("', but interval ");
            push_decimal(&mut s, i);
            s.append(" is bounded below by horizon '");
            s.append(expected.as_str());
            s.append("' (zones must be declared top→down, one per horizon gap)");
            proof {
                assert(!zonation_fits(h, zones@)) by {
                    assert(zones@[i as int].below_horizon@ != h[i + 1]);
                }
            }
            return Err(SrsError::InvalidInput(s));
        }
        i += 1;
    }
    proof {
        lemma_first_misplaced_none(h, zones@, 0);
    }
    Ok(())
}

// ---------------------------------------------------------------------------
// Per-zone priors
// ---------------------------------------------------------------------------

/// `entries` without those filed under `name`, the rest in order.
pub open spec fn without_name<T>(entries: Seq<(String, T)>, name: Seq<char>) -> Seq<(String, T)>
    decreases entries.len(),
{
    if entries.len() == 0 {
        entries
    } else {
        let rest = without_name(entries.drop_first(), name);
        if entries[0].0@ == name {
            rest
        } else {
            seq![entries[0]] + rest
        }
    }
}

/// The position of the first entry filed under `name`, if any.
pub open spec fn first_named<T>(entries: Seq<(String, T)>, name: Seq<char>) -> Option<nat>
    decreases entries.len(),
{
    if entries.len() == 0 {
        None
    } else if entries[0].0@ == name {
        Some(0)
    } else {
        match first_named(entries.drop_first(), name) {
            Some(k) => Some(k + 1),
            None => None,
        }
    }
}

/// File `value` under `name`, replacing whatever was filed under it: the
/// other entries keep their order and the new one comes last.
pub fn set_named<T>(entries: &mut Vec<(String, T)>, name: &str, value: T)
    ensures
        final(entries)@.len() == without_name(old(entries)@, name@).len() + 1,
        final(entries)@.take(final(entries)@.len() - 1) == without_name(old(entries)@, name@),
        final(entries)@.last().0@ == name@,
        final(entries)@.last().1 == value,
{
    let ghost orig = entries@;
    let mut i: usize = entries.len();
    while i > 0
        invariant
            i <= orig.len(),
            entries@ == orig.take(i as int) + without_name(orig.skip(i as int), name@),
        decreases i,
    {
        let j = i - 1;
        assert(orig.skip(j as int).drop_first() =~= orig.skip(i as int));
        assert(orig.skip(j as int)[0] == orig[j as int]);
        let here = {
            let e = &entries[j];
            let n = String::from_str(name);
            e.0 == n
        };
        if here {
            entries.remove(j);
            assert(entries@ =~= orig.take(j as int) + without_name(orig.skip(j as int), name@));
        } else {
            assert(entries@ =~= orig.take(j as int) + without_name(orig.skip(j as int), name@));
        }
        i = j;
    }
    assert(orig.skip(0) =~= orig);
    assert(orig.take(0) + without_name(orig, name@) =~= without_name(orig, name@));
    let ghost kept = entries@;
    entries.push((String::from_str(name), value));
    assert(entries@.take(entries@.len() - 1) =~= kept);
}

/// Where the first entry filed under `name` sits, if anywhere.
pub fn find_named<T>(entries: &[(String, T)], name: &str) -> (r: Option<usize>)
    ensures
        match r {
            Some(k) => first_named(entries@, name@) == Some(k as nat),
            None => first_named(entries@, name@) is None,
        },
{
    let n = String::from_str(name);
    let mut i: usize = 0;
    while i < entries.len()
        invariant
            i <= entries.len(),
            n@ == name@,
            forall|j: int| 0 <= j < i ==> (#[trigger] entries@[j]).0@ != name@,
        decreases entries.len() - i,
    {
        if entries[i].0 == n {
            proof {
                lemma_first_named_at(entries@, name@, i as int);
            }
            return Some(i);
        }
        i += 1;
    }
    proof {
        lemma_first_named_absent(entries@, name@);
    }
    None
}

/// The first entry under `name` is at `i` when `i` holds it and none before.
proof fn lemma_first_named_at<T>(entries: Seq<(String, T)>, name: Seq<char>, i: int)
    requires
        0 <= i < entries.len(),
        entries[i].0@ == name,
        forall|j: int| 0 <= j < i ==> (#[trigger] entries[j]).0@ != name,
    ensures
        first_named(entries, name) == Some(i as nat),
    decreases i,
{
    if i > 0 {
        let d = entries.drop_first();
        assert forall|j: int| 0 <= j < i - 1 implies (#[trigger] d[j]).0@ != name by {
            assert(d[j] == entries[j + 1]);
        }
        lemma_first_named_at(d, name, i - 1);
    }
}

/// No entry under `name` means none is found.
proof fn lemma_first_named_absent<T>(entries: Seq<(String, T)>, name: Seq<char>)
    requires
        forall|j: int| 0 <= j < entries.len() ==> (#[trigger] entries[j]).0@ != name,
    ensures
        first_named(entries, name) is None,
    decreases entries.len(),
{
    if entries.len() > 0 {
        let d = entries.drop_first();
        assert forall|j: int| 0 <= j < d.len() implies (#[trigger] d[j]).0@ != name by {
            assert(d[j] == entries[j + 1]);
        }
        lemma_first_named_absent(d, name);
    }
}

/// Nothing filed under `name` survives its removal.
proof fn lemma_without_name_excludes<T>(entries: Seq<(String, T)>, name: Seq<char>)
    ensures
        forall|j: int|
            0 <= j < without_name(entries, name).len() ==> (#[trigger] without_name(
                entries,
                name,
            )[j]).0@ != name,
    decreases entries.len(),
{
    if entries.len() > 0 {
        lemma_without_name_excludes(entries.drop_first(), name);
        let rest = without_name(entries.drop_first(), name);
        if entries[0].0@ != name {
            assert forall|j: int| 0 <= j < (seq![entries[0]] + rest).len() implies (#[trigger] (
            seq![entries[0]] + rest)[j]).0@ != name by {
                if j > 0 {
                    assert((seq![entries[0]] + rest)[j] == rest[j - 1]);
                }
            }
        }
    }
}

/// What is filed under a name reads back: after `set_named(entries, name,
/// value)`, the first entry under `name` is the new one, holding `value`.
pub proof fn law_set_named_reads_back<T>(
    before: Seq<(String, T)>,
    after: Seq<(String, T)>,
    name: Seq<char>,
    value: T,
)
    requires
        after.len() == without_name(before, name).len() + 1,
        after.take(after.len() - 1) == without_name(before, name),
        after.last().0@ == name,
        after.last().1 == value,
    ensures
        first_named(after, name) == Some((after.len() - 1) as nat),
        after[after.len() - 1].1 == value,
{
    lemma_without_name_excludes(before, name);
    let k = after.len() - 1;
    assert forall|j: int| 0 <= j < k implies (#[trigger] after[j]).0@ != name by {
        assert(after[j] == after.take(k)[j]);
    }
    lemma_first_named_at(after, name, k);
}

// ---------------------------------------------------------------------------
// Default layering
// ---------------------------------------------------------------------------

/// The most layers the default (thickness-derived) layering gives.
pub const MAX_DEFAULT_NK: usize = 200;

/// The default layer count from the column's `ceil(gross / dz)`, if the
/// column's gross is a positive number (`None` otherwise): at least one
/// layer, at most [`MAX_DEFAULT_NK`]. The flag tells whether the cap was hit.
pub fn default_layer_count(ceil_layers: Option<usize>) -> (r: (usize, bool))
    ensures
        ({
            let n: nat = match ceil_layers {
                Some(c) => if c >= 1 {
                    c as nat
                } else {
                    1
                },
                None => 1,
            };
            &&& r.1 == (n > MAX_DEFAULT_NK)
            &&& r.0 == (if n > MAX_DEFAULT_NK {
                MAX_DEFAULT_NK as nat
            } else {
                n
            })
        }),
{
    let n: usize = match ceil_layers {
        Some(c) => if c >= 1 {
            c
        } else {
            1
        },
        None => 1,
    };
    if n > MAX_DEFAULT_NK {
        (MAX_DEFAULT_NK, true)
    } else {
        (n, false)
    }
}

// ---------------------------------------------------------------------------
// Build warnings
// ---------------------------------------------------------------------------

/// The name of a horizon role as its variant is written.
pub open spec fn role_name(r: HorizonRole) -> Seq<char> {
    match r {
        HorizonRole::Top => "Top"@,
        HorizonRole::Intermediate => "Intermediate"@,
        HorizonRole::Base => "Base"@,
    }
}

/// An advisory the model build raised.
#[derive(Debug)]
pub enum BuildWarning {
    /// A horizon present in the framework was not consumed, and why.
    UnusedHorizon { name: String, role: HorizonRole, reason: String },
    /// Thin or crossing base nodes were pulled down to the minimum thickness;
    /// `worst` is the worst original separation, as text in metres.
    ThinColumnsRepaired { columns: usize, worst: String },
    /// Cells collapsed to zero thickness at pinch-outs.
    LayersTruncated { cells: usize },
    /// A thickness-derived layer count hit the cap.
    LayerCountCapped { nk: usize },
    /// Sub-threshold cells merged into a thicker neighbour.
    CellsCollapsed { cells: usize },
}

/// A warning's machine-readable tag.
pub open spec fn warn_kind_spec(w: BuildWarning) -> Seq<char> {
    match w {
        BuildWarning::UnusedHorizon { .. } => "unused_horizon"@,
        BuildWarning::ThinColumnsRepaired { .. } => "thin_columns_repaired"@,
        BuildWarning::LayersTruncated { .. } => "layers_truncated"@,
        BuildWarning::LayerCountCapped { .. } => "layer_count_capped"@,
        BuildWarning::CellsCollapsed { .. } => "cells_collapsed"@,
    }
}

/// A warning's human-readable advisory.
pub open spec fn warn_message_spec(w: BuildWarning) -> Seq<char> {
    match w {
        BuildWarning::UnusedHorizon { name, role, reason } => "horizon '"@ + name@ + "' ("@
            + role_name(role) + ") was not consumed: "@ + reason@,
        BuildWarning::ThinColumnsRepaired { columns, worst } => "post-gridding order-repair pulled "@
            + decimal(columns as nat)
            + " thin/crossing base node(s) down to the minimum thickness below the top (worst original separation "@
            + worst@ + " m)"@,
        BuildWarning::LayersTruncated { cells } => decimal(cells as nat)
            + " cell(s) collapsed to zero thickness (pinch-out / merged envelope) (zero volume — excluded from volumetrics, NaN-marked in the view bundles)"@,
        BuildWarning::LayerCountCapped { nk } => "dz-derived layer count hit the "@ + decimal(
            nk as nat,
        )
            + "-layer cap (dz finer than the cap can span over the thickest column); coarsen dz or accept the cap"@,
        BuildWarning::CellsCollapsed { cells } => decimal(cells as nat)
            + " sub-threshold cell(s) merged volume-conservingly into a thicker zone-interior neighbour (opt-in collapse_below_m; the multi-zone stack path)"@,
    }
}

/// The count a warning reports: repaired nodes, collapsed cells or the layer
/// cap; zero for an unused horizon.
pub open spec fn warn_count_spec(w: BuildWarning) -> usize {
    match w {
        BuildWarning::UnusedHorizon { .. } => 0,
        BuildWarning::ThinColumnsRepaired { columns, .. } => columns,
        BuildWarning::LayersTruncated { cells } => cells,
        BuildWarning::LayerCountCapped { nk } => nk,
        BuildWarning::CellsCollapsed { cells } => cells,
    }
}

/// A build warning as the facade reports it: its tag, its advisory, and its
/// count.
pub fn build_warn(w: &BuildWarning) -> (r: (&'static str, String, usize))
    ensures
        r.0@ == warn_kind_spec(*w),
        r.1@ == warn_message_spec(*w),
        r.2 == warn_count_spec(*w),
{
    match w {
        BuildWarning::UnusedHorizon { name, role, reason } => {
            let mut s = String::from_str("horizon '");
            s.append(name.as_str());
            s.append("' (");
            s.append(
                match role {
                    HorizonRole::Top => "Top",
                    HorizonRole::Intermediate => "Intermediate",
                    HorizonRole::Base => "Base",
                },
            );
            s.append(") was not consumed: ");
            s.append(reason.as_str());
            ("unused_horizon", s, 0)
        },
        BuildWarning::ThinColumnsRepaired { columns, worst } => {
            let mut s = String::from_str("post-gridding order-repair pulled ");
            push_decimal(&mut s, *columns);
            s.append(
                " thin/crossing base node(s) down to the minimum thickness below the top (worst original separation ",
            );
            s.append(worst.as_str());
            s.append(" m)");
            ("thin_columns_repaired", s, *columns)
        },
        BuildWarning::LayersTruncated { cells } => {
            let mut s = String::new();
            push_decimal(&mut s, *cells);
            s.append(
                " cell(s) collapsed to zero thickness (pinch-out / merged envelope) (zero volume — excluded from volumetrics, NaN-marked in the view bundles)",
            );
            proof {
                reveal_strlit("");
            }
            ("layers_truncated", s, *cells)
        },
        BuildWarning::LayerCountCapped { nk } => {
            let mut s = String::from_str("dz-derived layer count hit the ");
            push_decimal(&mut s, *nk);
            s.append(
                "-layer cap (dz finer than the cap can span over the thickest column); coarsen dz or accept the cap",
            );
            ("layer_count_capped", s, *nk)
        },
        BuildWarning::CellsCollapsed { cells } => {
            let mut s = String::new();
            push_decimal(&mut s, *cells);
            s.append(
                " sub-threshold cell(s) merged volume-conservingly into a thicker zone-interior neighbour (opt-in collapse_below_m; the multi-zone stack path)",
            );
            proof {
                reveal_strlit("");
            }
            ("cells_collapsed", s, *cells)
        },
    }
}

} // verus!
