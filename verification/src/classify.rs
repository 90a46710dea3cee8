//! Routing of ingested files to a loader: the detected format (plus a
//! parent-directory / extension hint for ambiguous point formats) decides
//! whether a file loads as a surface, a polygon set or a point set.

use vstd::prelude::*;
use crate::text::{chars_eq_str, chars_of, contains, contains_str, occurs_at};

verus! {

/// The file formats the ingest detector recognises.
#[derive(Debug, Clone, Copy, PartialEq, Eq, Structural)]
pub enum FormatKind {
    Cps3Grid,
    Cps3Lines,
    IrapClassicGrid,
    IrapClassicPoints,
    EarthVisionGrid,
    Las,
    WellPath,
    PetrelTops,
    CrsMetaXml,
    GeoJson,
    CsvPoints,
    Unknown,
}

/// The loader a file is routed to.
#[derive(Debug, Clone, Copy, PartialEq, Eq, Structural)]
pub enum Kind {
    Surface,
    Polygons,
    Points,
}

/// The name of a detected format, as its variant is written.
pub open spec fn format_name(kind: FormatKind) -> Seq<char> {
    match kind {
        FormatKind::Cps3Grid => "Cps3Grid"@,
        FormatKind::Cps3Lines => "Cps3Lines"@,
        FormatKind::IrapClassicGrid => "IrapClassicGrid"@,
        FormatKind::IrapClassicPoints => "IrapClassicPoints"@,
        FormatKind::EarthVisionGrid => "EarthVisionGrid"@,
        FormatKind::Las => "Las"@,
        FormatKind::WellPath => "WellPath"@,
        FormatKind::PetrelTops => "PetrelTops"@,
        FormatKind::CrsMetaXml => "CrsMetaXml"@,
        FormatKind::GeoJson => "GeoJson"@,
        FormatKind::CsvPoints => "CsvPoints"@,
        FormatKind::Unknown => "Unknown"@,
    }
}

/// The name of a detected format as text.
pub fn format_kind_name(kind: FormatKind) -> (s: &'static str)
    ensures
        s@ == format_name(kind),
{
    match kind {
        FormatKind::Cps3Grid => "Cps3Grid",
        FormatKind::Cps3Lines => "Cps3Lines",
        FormatKind::IrapClassicGrid => "IrapClassicGrid",
        FormatKind::IrapClassicPoints => "IrapClassicPoints",
        FormatKind::EarthVisionGrid => "EarthVisionGrid",
        FormatKind::Las => "Las",
        FormatKind::WellPath => "WellPath",
        FormatKind::PetrelTops => "PetrelTops",
        FormatKind::CrsMetaXml => "CrsMetaXml",
        FormatKind::GeoJson => "GeoJson",
        FormatKind::CsvPoints => "CsvPoints",
        FormatKind::Unknown => "Unknown",
    }
}

/// The loader for a detected format; `parent` is the lower-cased parent
/// directory name and `ext` the lower-cased extension. Well-side formats
/// (logs, surveys, tops, CRS metadata) and unknown content route nowhere.
pub open spec fn load_kind_spec(kind: FormatKind, parent: Seq<char>, ext: Seq<char>) -> Option<Kind> {
    match kind {
        FormatKind::IrapClassicGrid | FormatKind::Cps3Grid => Some(Kind::Surface),
        FormatKind::Cps3Lines => Some(Kind::Polygons),
        FormatKind::GeoJson => if contains(parent, "point"@) || contains(parent, "scatter"@) {
            Some(Kind::Points)
        } else {
            Some(Kind::Polygons)
        },
        FormatKind::IrapClassicPoints => if contains(parent, "polygon"@) || contains(
            parent,
            "outline"@,
        ) || ext == "pol"@ || ext == "shp"@ {
            Some(Kind::Polygons)
        } else {
            Some(Kind::Points)
        },
        FormatKind::EarthVisionGrid | FormatKind::CsvPoints => Some(Kind::Points),
        FormatKind::Las | FormatKind::WellPath | FormatKind::PetrelTops | FormatKind::CrsMetaXml
        | FormatKind::Unknown => None,
    }
}

/// The loader for a file of unknown content, by extension alone.
pub open spec fn ext_load_kind_spec(ext: Seq<char>) -> Option<Kind> {
    if ext == "irap"@ || ext == "gri"@ || ext == "cps3grid"@ {
        Some(Kind::Surface)
    } else if ext == "geojson"@ || ext == "json"@ || ext == "pol"@ || ext == "shp"@ || ext
        == "cps3lines"@ {
        Some(Kind::Polygons)
    } else if ext == "csv"@ || ext == "xyz"@ || ext == "dat"@ || ext == "irapclassicpoints"@
        || ext == "earthvisiongrid"@ {
        Some(Kind::Points)
    } else {
        None
    }
}

/// Route a detected format to its loader (see [`load_kind_spec`]).
pub fn detected_load_kind(kind: FormatKind, parent: &str, ext: &str) -> (r: Option<Kind>)
    ensures
        r == load_kind_spec(kind, parent@, ext@),
{
    let p = chars_of(parent);
    let e = chars_of(ext);
    match kind {
        FormatKind::IrapClassicGrid | FormatKind::Cps3Grid => Some(Kind::Surface),
        FormatKind::Cps3Lines => Some(Kind::Polygons),
        FormatKind::GeoJson => {
            if contains_str(p.as_slice(), "point") || contains_str(p.as_slice(), "scatter") {
                Some(Kind::Points)
            } else {
                Some(Kind::Polygons)
            }
        },
        FormatKind::IrapClassicPoints => {
            if contains_str(p.as_slice(), "polygon") || contains_str(p.as_slice(), "outline")
                || chars_eq_str(e.as_slice(), "pol") || chars_eq_str(e.as_slice(), "shp") {
                Some(Kind::Polygons)
            } else {
                Some(Kind::Points)
            }
        },
        FormatKind::EarthVisionGrid | FormatKind::CsvPoints => Some(Kind::Points),
        FormatKind::Las | FormatKind::WellPath | FormatKind::PetrelTops | FormatKind::CrsMetaXml
        | FormatKind::Unknown => None,
    }
}

/// Route a file of unknown content by its lower-cased extension alone.
pub fn unknown_extension_load_kind(ext: &str) -> (r: Option<Kind>)
    ensures
        r == ext_load_kind_spec(ext@),
{
    let e = chars_of(ext);
    let e = e.as_slice();
    if chars_eq_str(e, "irap") || chars_eq_str(e, "gri") || chars_eq_str(e, "cps3grid") {
        Some(Kind::Surface)
    } else if chars_eq_str(e, "geojson") || chars_eq_str(e, "json") || chars_eq_str(e, "pol")
        || chars_eq_str(e, "shp") || chars_eq_str(e, "cps3lines") {
        Some(Kind::Polygons)
    } else if chars_eq_str(e, "csv") || chars_eq_str(e, "xyz") || chars_eq_str(e, "dat")
        || chars_eq_str(e, "irapclassicpoints") || chars_eq_str(e, "earthvisiongrid") {
        Some(Kind::Points)
    } else {
        None
    }
}

/// Well-side formats never reach the surface/polygon/point loaders, and every
/// grid format loads as a surface, whatever the directory or extension hint.
pub proof fn law_well_side_formats_route_nowhere(parent: Seq<char>, ext: Seq<char>)
    ensures
        load_kind_spec(FormatKind::Las, parent, ext) is None,
        load_kind_spec(FormatKind::WellPath, parent, ext) is None,
        load_kind_spec(FormatKind::PetrelTops, parent, ext) is None,
        load_kind_spec(FormatKind::CrsMetaXml, parent, ext) is None,
        load_kind_spec(FormatKind::IrapClassicGrid, parent, ext) == Some(Kind::Surface),
        load_kind_spec(FormatKind::Cps3Grid, parent, ext) == Some(Kind::Surface),
{
}

/// A polygon extension routes IRAP classic points to the polygon loader
/// whatever the directory: a `.pol` or `.shp` point file is an outline, not
/// a scatter set. Outside polygon/outline directories and without those
/// extensions it stays a point set.
pub proof fn law_polygon_extensions_load_polygons(parent: Seq<char>, ext: Seq<char>)
    ensures
        load_kind_spec(FormatKind::IrapClassicPoints, parent, "pol"@) == Some(Kind::Polygons),
        load_kind_spec(FormatKind::IrapClassicPoints, parent, "shp"@) == Some(Kind::Polygons),
        load_kind_spec(FormatKind::IrapClassicPoints, "polygons"@, ext) == Some(Kind::Polygons),
        load_kind_spec(FormatKind::IrapClassicPoints, "outline"@, ext) == Some(Kind::Polygons),
        load_kind_spec(FormatKind::IrapClassicPoints, parent, ext) != Some(Kind::Surface),
{
    reveal_strlit("polygons");
    reveal_strlit("polygon");
    reveal_strlit("outline");
    assert("polygons"@.subrange(0, 7) =~= "polygon"@);
    assert(occurs_at("polygons"@, "polygon"@, 0));
    assert("outline"@.subrange(0, 7) =~= "outline"@);
    assert(occurs_at("outline"@, "outline"@, 0));
}

/// Every content-detected map format has one loader whatever its directory
/// or extension: grids load as surfaces, CPS-3 lines as polygons, and
/// EarthVision grids and CSV points as point sets; GeoJSON loads as polygons
/// unless its directory names points or scatter.
pub proof fn law_formats_have_fixed_loaders(parent: Seq<char>, ext: Seq<char>)
    ensures
        load_kind_spec(FormatKind::Cps3Grid, parent, ext) == Some(Kind::Surface),
        load_kind_spec(FormatKind::IrapClassicGrid, parent, ext) == Some(Kind::Surface),
        load_kind_spec(FormatKind::Cps3Lines, parent, ext) == Some(Kind::Polygons),
        load_kind_spec(FormatKind::EarthVisionGrid, parent, ext) == Some(Kind::Points),
        load_kind_spec(FormatKind::CsvPoints, parent, ext) == Some(Kind::Points),
        load_kind_spec(FormatKind::Unknown, parent, ext) is None,
        !contains(parent, "point"@) && !contains(parent, "scatter"@) ==> load_kind_spec(
            FormatKind::GeoJson,
            parent,
            ext,
        ) == Some(Kind::Polygons),
        contains(parent, "point"@) ==> load_kind_spec(FormatKind::GeoJson, parent, ext) == Some(
            Kind::Points,
        ),
{
}

} // verus!
