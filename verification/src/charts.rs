//! The text and category rules of the analytics chart bundles: crossplot axes
//! and requests, the colour-by mode, the category palette order, the trend
//! kind and equation terms, the tornado's display labels, the distribution
//! panels' names, and which property cube a 3-D view renders. Every number a
//! chart draws is computed by the caller; these rules decide what it is called.

use vstd::prelude::*;
use crate::error::{is_invalid_input, SrsError};
use crate::order::string_views;
use crate::text::{
    chars_eq_str, chars_of, decimal, digit_char, lower, lower_chars, push_decimal, slice_chars,
    string_of,
};

verus! {

// ---------------------------------------------------------------------------
// Crossplot requests
// ---------------------------------------------------------------------------

/// A crossplot axis: name, units, and whether it renders on a log scale.
#[derive(Debug, Clone)]
pub struct Axis {
    pub name: String,
    pub units: String,
    pub log: bool,
}

/// A crossplot request over a project's positioned logs.
#[derive(Debug, Clone)]
pub struct CrossplotOpts {
    /// x-axis log mnemonic (e.g. `"PHIE"`).
    pub x: String,
    /// y-axis log mnemonic (e.g. `"PERM"`).
    pub y: String,
    /// Restrict to these bore/well ids (a plain well id selects all its
    /// bores); `None` = every positioned bore.
    pub wells: Option<Vec<String>>,
    /// `"well"` / `"zone"` (categorical) or any log mnemonic (continuous).
    pub color_by: String,
    pub x_log: bool,
    pub y_log: bool,
    /// Fit a per-group (categorical) or global trend line.
    pub regression: bool,
}

/// A crossplot axis over the log `name`, without units.
pub fn crossplot_axis(name: &str, log: bool) -> (a: Axis)
    ensures
        a.name@ == name@,
        a.units@ == Seq::<char>::empty(),
        a.log == log,
{
    Axis { name: String::from_str(name), units: String::new(), log }
}

/// The two axes of a crossplot request.
pub fn crossplot_axes(opts: &CrossplotOpts) -> (r: (Axis, Axis))
    ensures
        r.0.name@ == opts.x@ && r.0.units@.len() == 0 && r.0.log == opts.x_log,
        r.1.name@ == opts.y@ && r.1.units@.len() == 0 && r.1.log == opts.y_log,
{
    (crossplot_axis(opts.x.as_str(), opts.x_log), crossplot_axis(opts.y.as_str(), opts.y_log))
}

/// A crossplot's title: `"<x> vs <y>"`.
pub fn crossplot_title(opts: &CrossplotOpts) -> (s: String)
    ensures
        s@ == opts.x@ + " vs "@ + opts.y@,
{
    let mut s = String::from_str(opts.x.as_str());
    s.append(" vs ");
    s.append(opts.y.as_str());
    s
}

/// The refusal of a crossplot that paired no samples.
pub fn no_samples_error(opts: &CrossplotOpts) -> (e: SrsError)
    ensures
        is_invalid_input(
            e,
            "crossplot: no paired ("@ + opts.x@ + ", "@ + opts.y@
                + ") log samples found on the selected bores"@,
        ),
{
    let mut s = String::from_str("crossplot: no paired (");
    s.append(opts.x.as_str());
    s.append(", ");
    s.append(opts.y.as_str());
    s.append(") log samples found on the selected bores");
    SrsError::InvalidInput(s)
}

/// What a crossplot's points are coloured by.
#[derive(Debug, Clone, Copy, PartialEq, Eq, Structural)]
pub enum ColorMode {
    /// One category per bore id.
    Well,
    /// One category per zone the sample falls in.
    Zone,
    /// A continuous ramp over a third log.
    Continuous,
}

/// The colour mode a `color_by` word selects (`well`/`zone` ignoring ASCII
/// case; anything else names a log).
pub open spec fn color_mode_spec(w: Seq<char>) -> ColorMode {
    let l = lower(w);
    if l == "well"@ {
        ColorMode::Well
    } else if l == "zone"@ {
        ColorMode::Zone
    } else {
        ColorMode::Continuous
    }
}

/// The colour mode of a crossplot request.
pub fn color_mode(color_by: &str) -> (m: ColorMode)
    ensures
        m == color_mode_spec(color_by@),
{
    let c = chars_of(color_by);
    let l = lower_chars(c.as_slice());
    if chars_eq_str(l.as_slice(), "well") {
        ColorMode::Well
    } else if chars_eq_str(l.as_slice(), "zone") {
        ColorMode::Zone
    } else {
        ColorMode::Continuous
    }
}

/// The colour encoding's kind as the payload names it.
pub fn color_kind(m: ColorMode) -> (s: &'static str)
    ensures
        s@ == (if m == ColorMode::Continuous {
            "continuous"@
        } else {
            "categorical"@
        }),
{
    match m {
        ColorMode::Continuous => "continuous",
        _ => "categorical",
    }
}

/// Record the category `name` in `groups`, which keeps the categories in the
/// order they were first met, each once.
pub fn intern_group(groups: &mut Vec<String>, name: &str)
    ensures
        string_views(old(groups)@).contains(name@) ==> final(groups)@ == old(groups)@,
        !string_views(old(groups)@).contains(name@) ==> string_views(final(groups)@)
            == string_views(old(groups)@).push(name@),
{
    let n = String::from_str(name);
    let mut i: usize = 0;
    while i < groups.len()
        invariant
            i <= groups.len(),
            n@ == name@,
            forall|k: int| 0 <= k < i ==> (#[trigger] groups@[k])@ != name@,
        decreases groups.len() - i,
    {
        if groups[i] == n {
            assert(string_views(groups@)[i as int] == name@);
            return;
        }
        i += 1;
    }
    proof {
        assert forall|k: int| 0 <= k < string_views(groups@).len() implies string_views(
            groups@,
        )[k] != name@ by {
            assert(string_views(groups@)[k] == groups@[k]@);
        }
    }
    let ghost before = groups@;
    groups.push(n);
    assert(string_views(groups@) =~= string_views(before).push(name@));
}

// ---------------------------------------------------------------------------
// Trend lines
// ---------------------------------------------------------------------------

/// The trend kind for the axes' log flags.
pub open spec fn kind_spec(x_log: bool, y_log: bool) -> Seq<char> {
    if !x_log && !y_log {
        "linear"@
    } else if !x_log && y_log {
        "loglinear"@
    } else if x_log && !y_log {
        "linear-logx"@
    } else {
        "loglog"@
    }
}

/// The trend kind the payload names for a pair of axis scales.
pub fn kind_str(x_log: bool, y_log: bool) -> (s: &'static str)
    ensures
        s@ == kind_spec(x_log, y_log),
{
    match (x_log, y_log) {
        (false, false) => "linear",
        (false, true) => "loglinear",
        (true, false) => "linear-logx",
        (true, true) => "loglog",
    }
}

/// An axis as it appears in a fit's equation: its name, wrapped in
/// `log10(..)` on a log axis.
pub open spec fn axis_term_spec(a: Axis) -> Seq<char> {
    if a.log {
        "log10("@ + a.name@ + ")"@
    } else {
        a.name@
    }
}

/// An axis's term in a fit equation.
pub fn axis_term(a: &Axis) -> (s: String)
    ensures
        s@ == axis_term_spec(*a),
{
    if a.log {
        let mut s = String::from_str("log10(");
        s.append(a.name.as_str());
        s.append(")");
        s
    } else {
        a.name.clone()
    }
}

// ---------------------------------------------------------------------------
// Tornado labels
// ---------------------------------------------------------------------------

/// The display label of a tornado input: the engine's fixed box/PVT draws
/// read as what they are; any other name is a property level shift.
pub open spec fn display_label(raw: Seq<char>) -> Seq<char> {
    if raw == "area_m2"@ {
        "area"@
    } else if raw == "gross_height_m"@ {
        "gross height"@
    } else if raw == "contact_depth_m"@ {
        "contact depth"@
    } else if raw == "goc_depth_m"@ || raw == "goc"@ {
        "GOC depth"@
    } else if raw == "porosity"@ {
        "porosity (draw)"@
    } else if raw == "net_to_gross"@ {
        "net-to-gross (draw)"@
    } else if raw == "water_saturation"@ {
        "water saturation (draw)"@
    } else if raw == "boi"@ {
        "Bo"@
    } else if raw == "bgi"@ {
        "Bg"@
    } else {
        raw + " level shift"@
    }
}

/// The engine's fixed Monte Carlo input names (box and PVT draws).
pub open spec fn fixed_input(x: Seq<char>) -> bool {
    ||| x == "area_m2"@
    ||| x == "gross_height_m"@
    ||| x == "contact_depth_m"@
    ||| x == "goc_depth_m"@
    ||| x == "goc"@
    ||| x == "porosity"@
    ||| x == "net_to_gross"@
    ||| x == "water_saturation"@
    ||| x == "boi"@
    ||| x == "bgi"@
}

/// The two names the gas-oil contact draw goes by.
pub open spec fn goc_alias(x: Seq<char>) -> bool {
    x == "goc"@ || x == "goc_depth_m"@
}

/// A fixed input's label never ends like a level shift; any other input's
/// label is its name followed by ` level shift`.
proof fn lemma_label_cases(x: Seq<char>)
    ensures
        !fixed_input(x) ==> display_label(x) == x + " level shift"@,
        fixed_input(x) ==> display_label(x).len() >= 2 && display_label(x)[display_label(
            x,
        ).len() - 2] != 'f',
{
    reveal_strlit("area_m2");
    reveal_strlit("gross_height_m");
    reveal_strlit("contact_depth_m");
    reveal_strlit("goc_depth_m");
    reveal_strlit("goc");
    reveal_strlit("porosity");
    reveal_strlit("net_to_gross");
    reveal_strlit("water_saturation");
    reveal_strlit("boi");
    reveal_strlit("bgi");
    reveal_strlit("area");
    reveal_strlit("gross height");
    reveal_strlit("contact depth");
    reveal_strlit("GOC depth");
    reveal_strlit("porosity (draw)");
    reveal_strlit("net-to-gross (draw)");
    reveal_strlit("water saturation (draw)");
    reveal_strlit("Bo");
    reveal_strlit("Bg");
    reveal_strlit(" level shift");
}

/// Distinct Monte Carlo inputs get distinct tornado labels — the only shared
/// label is the gas-oil contact's, under its two names — so no bar can be
/// mistaken for another (the lower contact never reads as the GOC).
pub proof fn law_display_labels_tell_inputs_apart(a: Seq<char>, b: Seq<char>)
    requires
        a != b,
        !(goc_alias(a) && goc_alias(b)),
    ensures
        display_label(a) != display_label(b),
{
    reveal_strlit("area_m2");
    reveal_strlit("gross_height_m");
    reveal_strlit("contact_depth_m");
    reveal_strlit("goc_depth_m");
    reveal_strlit("goc");
    reveal_strlit("porosity");
    reveal_strlit("net_to_gross");
    reveal_strlit("water_saturation");
    reveal_strlit("boi");
    reveal_strlit("bgi");
    reveal_strlit("area");
    reveal_strlit("gross height");
    reveal_strlit("contact depth");
    reveal_strlit("GOC depth");
    reveal_strlit("porosity (draw)");
    reveal_strlit("net-to-gross (draw)");
    reveal_strlit("water saturation (draw)");
    reveal_strlit("Bo");
    reveal_strlit("Bg");
    reveal_strlit(" level shift");
    lemma_label_cases(a);
    lemma_label_cases(b);
    let sfx = " level shift"@;
    if display_label(a) == display_label(b) {
        if !fixed_input(a) && !fixed_input(b) {
            assert((a + sfx).take(a.len() as int) =~= a);
            assert((b + sfx).take(b.len() as int) =~= b);
        } else if !fixed_input(a) {
            let l = a + sfx;
            assert(l[l.len() - 2] == sfx[sfx.len() - 2]);
        } else if !fixed_input(b) {
            let l = b + sfx;
            assert(l[l.len() - 2] == sfx[sfx.len() - 2]);
        } else {
            assert("Bo"@[1] != "Bg"@[1]);
        }
    }
}

/// The display label of a raw Monte Carlo input name (always given).
pub fn display_param(raw: &str) -> (r: Option<String>)
    ensures
        r matches Some(s) && s@ == display_label(raw@),
{
    let c = chars_of(raw);
    let w = c.as_slice();
    let s = if chars_eq_str(w, "area_m2") {
        "area"
    } else if chars_eq_str(w, "gross_height_m") {
        "gross height"
    } else if chars_eq_str(w, "contact_depth_m") {
        "contact depth"
    } else if chars_eq_str(w, "goc_depth_m") || chars_eq_str(w, "goc") {
        "GOC depth"
    } else if chars_eq_str(w, "porosity") {
        "porosity (draw)"
    } else if chars_eq_str(w, "net_to_gross") {
        "net-to-gross (draw)"
    } else if chars_eq_str(w, "water_saturation") {
        "water saturation (draw)"
    } else if chars_eq_str(w, "boi") {
        "Bo"
    } else if chars_eq_str(w, "bgi") {
        "Bg"
    } else {
        let mut t = String::from_str(raw);
        t.append(" level shift");
        return Some(t);
    };
    Some(String::from_str(s))
}

/// A tornado chart's title for its display units.
pub fn tornado_title(units: &str) -> (s: String)
    ensures
        s@ == "STOIIP tornado ("@ + units@ + ")"@,
{
    let mut s = String::from_str("STOIIP tornado (");
    s.append(units);
    s.append(")");
    s
}

// ---------------------------------------------------------------------------
// Distribution panels
// ---------------------------------------------------------------------------

/// The in-place volume a distribution panel shows.
#[derive(Debug, Clone, Copy, PartialEq, Eq, Structural)]
pub enum Metric {
    /// Oil in place, shown in MSm³.
    Stoiip,
    /// Free gas in place, shown in bcm.
    Giip,
}

/// The metric a `gas=` flag selects.
pub fn metric_of(gas: bool) -> (m: Metric)
    ensures
        m == (if gas {
            Metric::Giip
        } else {
            Metric::Stoiip
        }),
{
    if gas {
        Metric::Giip
    } else {
        Metric::Stoiip
    }
}

/// The metric's name.
pub open spec fn metric_name(m: Metric) -> Seq<char> {
    match m {
        Metric::Stoiip => "STOIIP"@,
        Metric::Giip => "GIIP"@,
    }
}

/// The metric's display units.
pub open spec fn metric_units_spec(m: Metric) -> Seq<char> {
    match m {
        Metric::Stoiip => "MSm³"@,
        Metric::Giip => "bcm"@,
    }
}

/// The metric's name as text.
pub fn metric_label(m: Metric) -> (s: &'static str)
    ensures
        s@ == metric_name(m),
{
    match m {
        Metric::Stoiip => "STOIIP",
        Metric::Giip => "GIIP",
    }
}

/// The metric's display units as text.
pub fn metric_units(m: Metric) -> (s: &'static str)
    ensures
        s@ == metric_units_spec(m),
{
    match m {
        Metric::Stoiip => "MSm³",
        Metric::Giip => "bcm",
    }
}

/// A distribution panel's default title: `"<metric> distribution"`.
pub fn distribution_title(m: Metric) -> (s: String)
    ensures
        s@ == metric_name(m) + " distribution"@,
{
    let mut s = String::from_str(metric_label(m));
    s.append(" distribution");
    s
}

/// The name of a single-series panel's series: the caller's name, else
/// `"<zone> <metric>"` for a zone, else the metric.
pub open spec fn series_name_spec(name: Option<Seq<char>>, zone: Option<Seq<char>>, m: Metric) -> Seq<
    char,
> {
    match name {
        Some(n) => n,
        None => match zone {
            Some(z) => z + " "@ + metric_name(m),
            None => metric_name(m),
        },
    }
}

/// The series name of a distribution bundle.
pub fn series_name(name: Option<&str>, zone: Option<&str>, m: Metric) -> (s: String)
    ensures
        s@ == series_name_spec(
            match name {
                Some(n) => Some(n@),
                None => None,
            },
            match zone {
                Some(z) => Some(z@),
                None => None,
            },
            m,
        ),
{
    match name {
        Some(n) => String::from_str(n),
        None => match zone {
            Some(z) => {
                let mut s = String::from_str(z);
                s.append(" ");
                s.append(metric_label(m));
                s
            },
            None => String::from_str(metric_label(m)),
        },
    }
}

/// The name of the `i`-th segment of a multi-series panel: the `i`-th given
/// name, else `"Segment <i + 1>"`.
pub open spec fn segment_name_spec(names: Option<Seq<Seq<char>>>, i: nat) -> Seq<char> {
    match names {
        Some(ns) if i < ns.len() => ns[i as int],
        _ => "Segment "@ + decimal(i + 1),
    }
}

/// The `i`-th segment's series name.
pub fn segment_name(names: Option<&[String]>, i: usize) -> (s: String)
    requires
        i < usize::MAX,
    ensures
        s@ == segment_name_spec(
            match names {
                Some(ns) => Some(string_views(ns@)),
                None => None,
            },
            i as nat,
        ),
{
    match names {
        Some(ns) if i < ns.len() => ns[i].clone(),
        _ => {
            let mut s = String::from_str("Segment ");
            push_decimal(&mut s, i + 1);
            s
        },
    }
}

// ---------------------------------------------------------------------------
// The rendered property
// ---------------------------------------------------------------------------

/// The property a 3-D view renders: the request if it is a populated cube,
/// else the `PORO` cube if populated, else the first populated cube, else
/// `PORO`.
pub open spec fn render_property_spec(request: Option<Seq<char>>, populated: Seq<Seq<char>>) -> Seq<
    char,
> {
    match request {
        Some(p) if populated.contains(p) => p,
        _ => if populated.contains("PORO"@) {
            "PORO"@
        } else if populated.len() > 0 {
            populated[0]
        } else {
            "PORO"@
        },
    }
}

/// A view renders a populated cube whenever the model has one, and the one
/// asked for whenever that one is populated.
pub proof fn law_render_property_is_populated(request: Option<Seq<char>>, populated: Seq<Seq<char>>)
    ensures
        populated.len() > 0 ==> populated.contains(render_property_spec(request, populated)),
        forall|p: Seq<char>|
            request == Some(p) && #[trigger] populated.contains(p) ==> render_property_spec(
                request,
                populated,
            ) == p,
{
    if populated.len() > 0 {
        assert(populated[0] == populated[0]);
    }
}

/// Whether `v` holds a string equal to `s`.
fn holds(v: &[String], s: &String) -> (r: bool)
    ensures
        r == string_views(v@).contains(s@),
{
    let mut i: usize = 0;
    while i < v.len()
        invariant
            i <= v.len(),
            forall|k: int| 0 <= k < i ==> (#[trigger] v@[k])@ != s@,
        decreases v.len() - i,
    {
        if v[i] == *s {
            assert(string_views(v@)[i as int] == s@);
            return true;
        }
        i += 1;
    }
    proof {
        if string_views(v@).contains(s@) {
            let k = choose|k: int| 0 <= k < string_views(v@).len() && string_views(v@)[k] == s@;
            assert(v@[k]@ == s@);
        }
    }
    false
}

/// The cube a 3-D view renders, given the populated cubes in order.
pub fn render_property(request: Option<&str>, populated: &[String]) -> (s: String)
    ensures
        s@ == render_property_spec(
            match request {
                Some(p) => Some(p@),
                None => None,
            },
            string_views(populated@),
        ),
{
    if let Some(p) = request {
        let ps = String::from_str(p);
        if holds(populated, &ps) {
            return ps;
        }
    }
    let poro = String::from_str("PORO");
    if holds(populated, &poro) {
        poro
    } else if populated.len() > 0 {
        populated[0].clone()
    } else {
        poro
    }
}

/// The property a full viewer payload renders: as for the 3-D view, but a
/// model with no populated cube has nothing to render and is refused.
pub fn payload_property(request: Option<&str>, populated: &[String]) -> (r: Result<String, SrsError>)
    ensures
        populated.len() == 0 ==> r is Err && is_invalid_input(
            r->Err_0,
            "model carries no populated property cubes"@,
        ),
        populated.len() > 0 ==> (r matches Ok(s) && s@ == render_property_spec(
            match request {
                Some(p) => Some(p@),
                None => None,
            },
            string_views(populated@),
        )),
{
    if populated.len() == 0 {
        Err(SrsError::InvalidInput(String::from_str("model carries no populated property cubes")))
    } else {
        Ok(render_property(request, populated))
    }
}

/// The label of the `n`-th (from zero) caller-drawn section line:
/// `"Line <n + 1>"`.
pub fn line_section_label(n: usize) -> (s: String)
    requires
        n < usize::MAX,
    ensures
        s@ == "Line "@ + decimal((n + 1) as nat),
{
    let mut s = String::from_str("Line ");
    push_decimal(&mut s, n + 1);
    s
}

/// Split a zone-average layer name `"<property>::<zone>"` at its last `::`
/// into the property and the zone; a name without `::` is not split.
pub fn split_zone_average_name(name: &str) -> (r: Option<(String, String)>)
    ensures
        match r {
            Some((p, z)) => exists|i: int|
                0 <= i && i + 2 <= name@.len() && name@[i] == ':' && name@[i + 1] == ':' && (forall|
                    j: int,
                |
                    i < j && j + 2 <= name@.len() ==> !(#[trigger] name@[j] == ':' && name@[j + 1]
                        == ':')) && p@ == name@.take(i) && z@ == name@.skip(i + 2),
            None => forall|i: int|
                0 <= i && i + 2 <= name@.len() ==> !(#[trigger] name@[i] == ':' && name@[i + 1]
                    == ':'),
        },
{
    let c = chars_of(name);
    let n = c.len();
    let mut k: usize = n;
    while k >= 2
        invariant
            k <= n,
            n == c@.len(),
            c@ == name@,
            forall|j: int| k - 1 <= j && j + 2 <= n ==> !(#[trigger] c@[j] == ':' && c@[j + 1] == ':'),
        decreases k,
    {
        if c[k - 2] == ':' && c[k - 1] == ':' {
            let i = k - 2;
            let p = string_of(slice_chars(c.as_slice(), 0, i).as_slice());
            let z = string_of(slice_chars(c.as_slice(), i + 2, n).as_slice());
            proof {
                assert(p@ =~= name@.take(i as int));
                assert(z@ =~= name@.skip(i + 2));
            }
            return Some((p, z));
        }
        k -= 1;
    }
    None
}

// ---------------------------------------------------------------------------
// Contact legend
// ---------------------------------------------------------------------------

/// How many times `x` occurs in `s`.
pub open spec fn count_of(s: Seq<Seq<char>>, x: Seq<char>) -> nat
    decreases s.len(),
{
    if s.len() == 0 {
        0
    } else {
        count_of(s.drop_last(), x) + (if s.last() == x {
            1nat
        } else {
            0nat
        })
    }
}

/// The ordinal of the `i`-th entry among the entries of its kind, counting
/// from one in order.
pub open spec fn rank_of(s: Seq<Seq<char>>, i: int) -> nat {
    count_of(s.take(i + 1), s[i])
}

/// The legend label of the `i`-th contact, the contacts listed in depth
/// order: a kind that occurs once keeps its name; a repeated kind gets its
/// ordinal, `"OWC (1)"`, `"OWC (2)"`, ….
pub open spec fn qualified_label(s: Seq<Seq<char>>, i: int) -> Seq<char> {
    if count_of(s, s[i]) > 1 {
        s[i] + " ("@ + decimal(rank_of(s, i)) + ")"@
    } else {
        s[i]
    }
}

/// Counting over a longer prefix adds the matches in between.
proof fn lemma_count_take_step(s: Seq<Seq<char>>, x: Seq<char>, k: int)
    requires
        0 <= k < s.len(),
    ensures
        count_of(s.take(k + 1), x) == count_of(s.take(k), x) + (if s[k] == x {
            1nat
        } else {
            0nat
        }),
{
    assert(s.take(k + 1).drop_last() == s.take(k));
}

/// Prefix counts never decrease and never pass the whole count.
proof fn lemma_count_take_mono(s: Seq<Seq<char>>, x: Seq<char>, a: int, b: int)
    requires
        0 <= a <= b <= s.len(),
    ensures
        count_of(s.take(a), x) <= count_of(s.take(b), x),
    decreases b - a,
{
    if a < b {
        lemma_count_take_mono(s, x, a, b - 1);
        lemma_count_take_step(s, x, b - 1);
    }
}

/// The ordinals of a repeated kind count up from one in order, and stay
/// within the number of contacts of that kind: two contacts of one kind
/// never share an ordinal.
pub proof fn law_ordinals_count_up(s: Seq<Seq<char>>, i: int, j: int)
    requires
        0 <= i < j < s.len(),
        s[i] == s[j],
    ensures
        1 <= rank_of(s, i) < rank_of(s, j) <= count_of(s, s[j]),
{
    lemma_count_take_step(s, s[i], i);
    lemma_count_take_step(s, s[j], j);
    lemma_count_take_mono(s, s[i], i + 1, j);
    lemma_count_take_mono(s, s[j], j + 1, s.len() as int);
    assert(s.take(s.len() as int) == s);
}

/// Every number's decimal rendering has at least one digit.
proof fn lemma_decimal_nonempty(n: nat)
    ensures
        decimal(n).len() >= 1,
    decreases n,
{
    if n >= 10 {
        lemma_decimal_nonempty(n / 10);
    }
}

/// A digit character determines its digit.
proof fn lemma_digit_char_injective(a: nat, b: nat)
    requires
        a < 10,
        b < 10,
        digit_char(a) == digit_char(b),
    ensures
        a == b,
{
    assert((((a + 48) as u32) as char) as u32 == (a + 48) as u32);
    assert((((b + 48) as u32) as char) as u32 == (b + 48) as u32);
}

/// Distinct numbers render to distinct decimals.
proof fn lemma_decimal_injective(a: nat, b: nat)
    requires
        decimal(a) == decimal(b),
    ensures
        a == b,
    decreases a,
{
    if a >= 10 {
        lemma_decimal_nonempty(a / 10);
    }
    if b >= 10 {
        lemma_decimal_nonempty(b / 10);
    }
    if a < 10 {
        assert(decimal(a) =~= seq![digit_char(a)]);
    } else {
        assert(decimal(a).len() == decimal(a / 10).len() + 1);
    }
    if b < 10 {
        assert(decimal(b) =~= seq![digit_char(b)]);
    } else {
        assert(decimal(b).len() == decimal(b / 10).len() + 1);
    }
    if a < 10 && b < 10 {
        let ca = digit_char(a);
        let cb = digit_char(b);
        assert(seq![ca][0] == ca);
        assert(seq![cb][0] == cb);
        assert(decimal(a)[0] == decimal(b)[0]);
        assert(ca == cb);
        lemma_digit_char_injective(a, b);
    } else if a >= 10 && b >= 10 {
        let da = decimal(a);
        let db = decimal(b);
        assert(da.last() == db.last());
        assert(da.drop_last() =~= decimal(a / 10));
        assert(db.drop_last() =~= decimal(b / 10));
        lemma_decimal_injective(a / 10, b / 10);
        lemma_digit_char_injective(a % 10, b % 10);
    }
}

/// Two contacts of a repeated kind never share a legend label.
pub proof fn law_repeated_kinds_get_distinct_labels(s: Seq<Seq<char>>, i: int, j: int)
    requires
        0 <= i < j < s.len(),
        s[i] == s[j],
    ensures
        qualified_label(s, i) != qualified_label(s, j),
{
    law_ordinals_count_up(s, i, j);
    let p = s[i] + " ("@;
    let di = decimal(rank_of(s, i));
    let dj = decimal(rank_of(s, j));
    let li = p + di + ")"@;
    let lj = p + dj + ")"@;
    if li == lj {
        reveal_strlit(")");
        assert(li.len() == p.len() + di.len() + 1);
        assert(lj.len() == p.len() + dj.len() + 1);
        assert(di.len() == dj.len());
        assert(di =~= li.subrange(p.len() as int, (p.len() + di.len()) as int));
        assert(dj =~= lj.subrange(p.len() as int, (p.len() + dj.len()) as int));
        lemma_decimal_injective(rank_of(s, i), rank_of(s, j));
    }
}

/// The number of entries of `v` equal to `x`, over the first `end`.
fn count_in(v: &[String], x: &String, end: usize) -> (n: usize)
    requires
        end <= v.len(),
    ensures
        n == count_of(string_views(v@).take(end as int), x@),
{
    let ghost sv = string_views(v@);
    let mut n: usize = 0;
    let mut k: usize = 0;
    while k < end
        invariant
            k <= end <= v.len(),
            sv == string_views(v@),
            n == count_of(sv.take(k as int), x@),
            n <= k,
        decreases end - k,
    {
        proof {
            lemma_count_take_step(sv, x@, k as int);
        }
        if v[k] == *x {
            n += 1;
        }
        k += 1;
    }
    n
}

/// Qualify repeated contact kinds for a legend: `kinds` lists the contacts
/// in depth order, and each gets its [`qualified_label`].
pub fn qualify_duplicates(kinds: &[String]) -> (labels: Vec<String>)
    ensures
        labels@.len() == kinds@.len(),
        forall|i: int|
            0 <= i < kinds@.len() ==> (#[trigger] labels@[i])@ == qualified_label(
                string_views(kinds@),
                i,
            ),
{
    let ghost sv = string_views(kinds@);
    let mut out: Vec<String> = Vec::new();
    let mut i: usize = 0;
    while i < kinds.len()
        invariant
            i <= kinds.len(),
            sv == string_views(kinds@),
            out@.len() == i,
            forall|k: int| 0 <= k < i ==> (#[trigger] out@[k])@ == qualified_label(sv, k),
        decreases kinds.len() - i,
    {
        let kind = &kinds[i];
        let total = count_in(kinds, kind, kinds.len());
        assert(sv.take(kinds.len() as int) == sv);
        let label = if total > 1 {
            let rank = count_in(kinds, kind, i + 1);
            let mut l = kind.clone();
            l.append(" (");
            push_decimal(&mut l, rank);
            l.append(")");
            l
        } else {
            kind.clone()
        };
        out.push(label);
        i += 1;
    }
    out
}

} // verus!
