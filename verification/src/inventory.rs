//! The load inventory of a project walk, and the routing rule that decides,
//! file by file, which inventory list a detected file ends up on: the
//! well-side pass, the tops pass, a surface/polygon/point loader, or the
//! skipped list with its reason. Nothing is dropped silently.

use vstd::prelude::*;
use crate::classify::{
    ext_load_kind_spec, detected_load_kind, format_kind_name, format_name, load_kind_spec,
    unknown_extension_load_kind, FormatKind, Kind,
};
use crate::order::{sorted_strings, strictly_sorted, string_views};
use crate::paths::{is_tops_file, is_tops_spec};
use crate::text::{decimal, opt_chars, push_decimal};

verus! {

/// What a project load found: every loaded artifact by kind, plus the files
/// it skipped and why.
#[derive(Debug)]
pub struct Inventory {
    pub surfaces: Vec<String>,
    pub polygons: Vec<String>,
    pub points: Vec<String>,
    /// Loaded wells as bore-level ids, one per positioned bore.
    pub wells: Vec<String>,
    /// Named tops-pick surfaces available across the loaded wells.
    pub tops: Vec<String>,
    /// `(filename, bore_id)` for each core LAS file merged into a bore.
    pub merged: Vec<(String, String)>,
    /// `(path, reason)` for every file the loader could not place.
    pub skipped: Vec<(String, String)>,
}

/// The inventory's one-line summary: the size of each list.
pub open spec fn repr_spec(inv: Inventory) -> Seq<char> {
    "Inventory(surfaces="@ + decimal(inv.surfaces@.len()) + ", polygons="@ + decimal(
        inv.polygons@.len(),
    ) + ", points="@ + decimal(inv.points@.len()) + ", wells="@ + decimal(inv.wells@.len())
        + ", tops="@ + decimal(inv.tops@.len()) + ", merged="@ + decimal(inv.merged@.len())
        + ", skipped="@ + decimal(inv.skipped@.len()) + ")"@
}

impl Default for Inventory {
    /// An inventory with every list empty.
    fn default() -> (r: Self)
        ensures
            r.surfaces@.len() == 0,
            r.polygons@.len() == 0,
            r.points@.len() == 0,
            r.wells@.len() == 0,
            r.tops@.len() == 0,
            r.merged@.len() == 0,
            r.skipped@.len() == 0,
    {
        Inventory {
            surfaces: Vec::new(),
            polygons: Vec::new(),
            points: Vec::new(),
            wells: Vec::new(),
            tops: Vec::new(),
            merged: Vec::new(),
            skipped: Vec::new(),
        }
    }
}

impl Inventory {
    /// `Inventory(surfaces=N, polygons=N, points=N, wells=N, tops=N,
    /// merged=N, skipped=N)`.
    #[allow(non_snake_case)]
    pub fn __repr__(&self) -> (s: String)
        ensures
            s@ == repr_spec(*self),
    {
        let mut s = String::from_str("Inventory(surfaces=");
        push_decimal(&mut s, self.surfaces.len());
        s.append(", polygons=");
        push_decimal(&mut s, self.polygons.len());
        s.append(", points=");
        push_decimal(&mut s, self.points.len());
        s.append(", wells=");
        push_decimal(&mut s, self.wells.len());
        s.append(", tops=");
        push_decimal(&mut s, self.tops.len());
        s.append(", merged=");
        push_decimal(&mut s, self.merged.len());
        s.append(", skipped=");
        push_decimal(&mut s, self.skipped.len());
        s.append(")");
        s
    }

    /// Record an artifact that loaded under `name` on the list of its kind.
    pub fn record_loaded(&mut self, kind: Kind, name: String)
        ensures
            kind == Kind::Surface ==> final(self).surfaces@ == old(self).surfaces@.push(name),
            kind != Kind::Surface ==> final(self).surfaces@ == old(self).surfaces@,
            kind == Kind::Polygons ==> final(self).polygons@ == old(self).polygons@.push(name),
            kind != Kind::Polygons ==> final(self).polygons@ == old(self).polygons@,
            kind == Kind::Points ==> final(self).points@ == old(self).points@.push(name),
            kind != Kind::Points ==> final(self).points@ == old(self).points@,
            final(self).wells@ == old(self).wells@,
            final(self).tops@ == old(self).tops@,
            final(self).merged@ == old(self).merged@,
            final(self).skipped@ == old(self).skipped@,
    {
        match kind {
            Kind::Surface => self.surfaces.push(name),
            Kind::Polygons => self.polygons.push(name),
            Kind::Points => self.points.push(name),
        }
    }

    /// Record a file that could not be placed, with the reason.
    pub fn record_skip(&mut self, path: String, reason: String)
        ensures
            final(self).skipped@ == old(self).skipped@.push((path, reason)),
            final(self).surfaces@ == old(self).surfaces@,
            final(self).polygons@ == old(self).polygons@,
            final(self).points@ == old(self).points@,
            final(self).wells@ == old(self).wells@,
            final(self).tops@ == old(self).tops@,
            final(self).merged@ == old(self).merged@,
    {
        self.skipped.push((path, reason));
    }

    /// Put the surfaces in order, each once (a surface loaded twice under one
    /// name is listed once).
    pub fn finish_surfaces(&mut self)
        ensures
            strictly_sorted(string_views(final(self).surfaces@)),
            forall|y: Seq<char>|
                string_views(final(self).surfaces@).contains(y) <==> string_views(
                    old(self).surfaces@,
                ).contains(y),
            final(self).polygons@ == old(self).polygons@,
            final(self).points@ == old(self).points@,
            final(self).wells@ == old(self).wells@,
            final(self).tops@ == old(self).tops@,
            final(self).merged@ == old(self).merged@,
            final(self).skipped@ == old(self).skipped@,
    {
        self.surfaces = sorted_strings(&self.surfaces);
    }
}

/// Where the project walk sends a detected file.
#[derive(Debug, Clone, Copy, PartialEq, Eq, Structural)]
pub enum Route {
    /// Logs, surveys and CRS metadata: already ingested by the well pass.
    WellSide,
    /// A Petrel tops export, held for the tops pass.
    Tops,
    /// A surface, polygon or point file for that loader.
    Load(Kind),
    /// Nothing recognises it: it is skipped with a reason.
    Unrecognised,
}

/// The route of a detected file called `name` (if it has a name), with
/// lower-cased parent directory name `parent` and extension `ext`: the
/// detected content decides first, the extension is the fallback.
pub open spec fn route_spec(kind: FormatKind, name: Option<Seq<char>>, parent: Seq<char>, ext: Seq<
    char,
>) -> Route {
    if kind == FormatKind::Las || kind == FormatKind::WellPath || kind == FormatKind::CrsMetaXml {
        Route::WellSide
    } else if kind == FormatKind::PetrelTops || is_tops_spec(name, ext) {
        Route::Tops
    } else {
        match load_kind_spec(kind, parent, ext) {
            Some(k) => Route::Load(k),
            None => match ext_load_kind_spec(ext) {
                Some(k) => Route::Load(k),
                None => Route::Unrecognised,
            },
        }
    }
}

/// Route one detected file of the project walk.
pub fn route_file(kind: FormatKind, name: Option<&str>, parent: &str, ext: &str) -> (r: Route)
    ensures
        r == route_spec(kind, opt_chars(name), parent@, ext@),
{
    match kind {
        FormatKind::Las | FormatKind::WellPath | FormatKind::CrsMetaXml => {
            return Route::WellSide;
        },
        _ => {},
    }
    if kind == FormatKind::PetrelTops || is_tops_file(name, ext) {
        Route::Tops
    } else {
        match detected_load_kind(kind, parent, ext) {
            Some(k) => Route::Load(k),
            None => match unknown_extension_load_kind(ext) {
                Some(k) => Route::Load(k),
                None => Route::Unrecognised,
            },
        }
    }
}

/// Content the detector does not recognise falls back to the extension: an
/// unknown file that is not a tops export loads as whatever its extension
/// names, and is skipped when the extension names nothing.
pub proof fn law_unknown_content_routes_by_extension(name: Option<Seq<char>>, parent: Seq<char>, ext: Seq<char>)
    requires
        !is_tops_spec(name, ext),
    ensures
        route_spec(FormatKind::Unknown, name, parent, ext) == (match ext_load_kind_spec(ext) {
            Some(k) => Route::Load(k),
            None => Route::Unrecognised,
        }),
{
}

/// An IRAP classic points export with a `.pol` or `.shp` extension is routed
/// to the polygon loader, whatever its name or directory.
pub proof fn law_polygon_point_files_route_to_polygons(name: Option<Seq<char>>, parent: Seq<char>)
    ensures
        route_spec(FormatKind::IrapClassicPoints, name, parent, "pol"@) == Route::Load(
            Kind::Polygons,
        ),
        route_spec(FormatKind::IrapClassicPoints, name, parent, "shp"@) == Route::Load(
            Kind::Polygons,
        ),
{
    reveal_strlit("pol");
    reveal_strlit("shp");
    reveal_strlit("tops");
    reveal_strlit("petrel");
    crate::classify::law_polygon_extensions_load_polygons(parent, "pol"@);
    assert("pol"@ != "tops"@ && "pol"@ != "petrel"@ && "pol"@.len() != 0) by {
        assert("pol"@.len() == 3);
    }
    assert("shp"@ != "tops"@ && "shp"@ != "petrel"@ && "shp"@.len() != 0) by {
        assert("shp"@.len() == 3);
    }
    assert(!is_tops_spec(name, "pol"@));
    assert(!is_tops_spec(name, "shp"@));
}

/// The reason recorded for an unrecognised file.
pub fn unrecognised_reason(kind: FormatKind, ext: &str) -> (s: String)
    ensures
        s@ == "unrecognised format ("@ + format_name(kind) + ", extension '."@ + ext@ + "')"@,
{
    let mut s = String::from_str("unrecognised format (");
    s.append(format_kind_name(kind));
    s.append(", extension '.");
    s.append(ext);
    s.append("')");
    s
}

/// The path recorded for a well that failed to load: the project root with
/// the well id.
pub fn well_skip_path(root: &str, id: &str) -> (s: String)
    ensures
        s@ == root@ + " [well '"@ + id@ + "']"@,
{
    let mut s = String::from_str(root);
    s.append(" [well '");
    s.append(id);
    s.append("']");
    s
}

} // verus!
