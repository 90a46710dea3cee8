use peteksim::classify::{
    detected_load_kind, format_kind_name, unknown_extension_load_kind, FormatKind, Kind,
};
use peteksim::inventory::{route_file, unrecognised_reason, well_skip_path, Inventory, Route};
use peteksim::paths::{dir_is, ext_of, file_stem, is_tops_file, parent_name};
use peteksim::tops::{decode_latin1, discover_tops, other_contact_rows_of, split_petrel_tokens};
use peteksim::wells::{
    crossplot_selects, discover_well_ids, file_belongs_to, ids_from_detected_stems, is_bore_token,
    is_core_las, merged_bore_label, norm_key, owning_well, pick_keeps, split_stem_tokens,
    tie_matches_bore, well_id_from_stem,
};

fn strings(v: &[&str]) -> Vec<String> {
    v.iter().map(|s| s.to_string()).collect()
}

#[test]
fn detector_routes_ambiguous_points_by_parent_or_extension() {
    assert!(matches!(
        detected_load_kind(FormatKind::IrapClassicPoints, "surfaces", "irapclassicpoints"),
        Some(Kind::Points)
    ));
    assert!(matches!(
        detected_load_kind(FormatKind::IrapClassicPoints, "polygons", "pol"),
        Some(Kind::Polygons)
    ));
}

#[test]
fn detected_formats_route_to_their_loaders() {
    assert_eq!(detected_load_kind(FormatKind::Cps3Grid, "x", "grd"), Some(Kind::Surface));
    assert_eq!(detected_load_kind(FormatKind::IrapClassicGrid, "", ""), Some(Kind::Surface));
    assert_eq!(detected_load_kind(FormatKind::Cps3Lines, "", ""), Some(Kind::Polygons));
    assert_eq!(detected_load_kind(FormatKind::GeoJson, "outlines", "geojson"), Some(Kind::Polygons));
    assert_eq!(detected_load_kind(FormatKind::GeoJson, "scatterpoints", "geojson"), Some(Kind::Points));
    assert_eq!(detected_load_kind(FormatKind::IrapClassicPoints, "model_outline", "dat"), Some(Kind::Polygons));
    assert_eq!(detected_load_kind(FormatKind::IrapClassicPoints, "x", "shp"), Some(Kind::Polygons));
    assert_eq!(detected_load_kind(FormatKind::CsvPoints, "", "csv"), Some(Kind::Points));
    assert_eq!(detected_load_kind(FormatKind::EarthVisionGrid, "", ""), Some(Kind::Points));
    assert_eq!(detected_load_kind(FormatKind::Las, "", "las"), None);
    assert_eq!(detected_load_kind(FormatKind::PetrelTops, "", ""), None);
    assert_eq!(detected_load_kind(FormatKind::Unknown, "surfaces", "gri"), None);
}

#[test]
fn unknown_content_falls_back_to_extension() {
    assert_eq!(unknown_extension_load_kind("gri"), Some(Kind::Surface));
    assert_eq!(unknown_extension_load_kind("cps3grid"), Some(Kind::Surface));
    assert_eq!(unknown_extension_load_kind("shp"), Some(Kind::Polygons));
    assert_eq!(unknown_extension_load_kind("xyz"), Some(Kind::Points));
    assert_eq!(unknown_extension_load_kind("earthvisiongrid"), Some(Kind::Points));
    assert_eq!(unknown_extension_load_kind("txt"), None);
    assert_eq!(unknown_extension_load_kind(""), None);
}

#[test]
fn route_file_sends_each_file_once() {
    assert_eq!(route_file(FormatKind::Las, Some("A1.las"), "wells", "las"), Route::WellSide);
    assert_eq!(route_file(FormatKind::WellPath, Some("A1.wellpath"), "", "wellpath"), Route::WellSide);
    assert_eq!(route_file(FormatKind::CrsMetaXml, Some("crs.xml"), "", "xml"), Route::WellSide);
    assert_eq!(route_file(FormatKind::PetrelTops, Some("picks.txt"), "", "txt"), Route::Tops);
    assert_eq!(route_file(FormatKind::Unknown, Some("FieldTops"), "", ""), Route::Tops);
    assert_eq!(route_file(FormatKind::Unknown, Some("x.petrel"), "", "petrel"), Route::Tops);
    assert_eq!(route_file(FormatKind::Cps3Grid, Some("Top.grd"), "", "grd"), Route::Load(Kind::Surface));
    assert_eq!(route_file(FormatKind::Unknown, Some("edge.pol"), "", "pol"), Route::Load(Kind::Polygons));
    assert_eq!(route_file(FormatKind::Unknown, Some("notes.txt"), "", "txt"), Route::Unrecognised);
    assert_eq!(route_file(FormatKind::Unknown, Some("README"), "", ""), Route::Unrecognised);
}

#[test]
fn unrecognised_reason_names_format_and_extension() {
    assert_eq!(
        unrecognised_reason(FormatKind::Unknown, "txt"),
        "unrecognised format (Unknown, extension '.txt')"
    );
    assert_eq!(
        unrecognised_reason(FormatKind::GeoJson, ""),
        "unrecognised format (GeoJson, extension '.')"
    );
    assert_eq!(format_kind_name(FormatKind::IrapClassicPoints), "IrapClassicPoints");
    assert_eq!(well_skip_path("/data/proj", "99/9-1"), "/data/proj [well '99/9-1']");
}

#[test]
fn inventory_repr_counts_every_list() {
    let mut inv = Inventory::default();
    assert_eq!(
        inv.__repr__(),
        "Inventory(surfaces=0, polygons=0, points=0, wells=0, tops=0, merged=0, skipped=0)"
    );
    inv.record_loaded(Kind::Surface, "Top".to_string());
    inv.record_loaded(Kind::Surface, "Base".to_string());
    inv.record_loaded(Kind::Surface, "Top".to_string());
    inv.record_loaded(Kind::Polygons, "ModelEdge".to_string());
    inv.record_loaded(Kind::Points, "Picks".to_string());
    inv.record_skip("a/b.txt".to_string(), "why".to_string());
    inv.wells.push("A1".to_string());
    inv.tops = strings(&["GOC", "Top"]);
    inv.merged.push(("A1_core.las".to_string(), "A1".to_string()));
    assert_eq!(
        inv.__repr__(),
        "Inventory(surfaces=3, polygons=1, points=1, wells=1, tops=2, merged=1, skipped=1)"
    );
    inv.finish_surfaces();
    assert_eq!(inv.surfaces, strings(&["Base", "Top"]));
    assert_eq!(inv.skipped, vec![("a/b.txt".to_string(), "why".to_string())]);
    assert_eq!(inv.polygons, strings(&["ModelEdge"]));
}

#[test]
fn path_parts_follow_std_path_rules() {
    assert_eq!(file_stem(Some("Top Reservoir.gri")), "Top Reservoir");
    assert_eq!(file_stem(Some("archive.tar.gz")), "archive.tar");
    assert_eq!(file_stem(Some(".hidden")), ".hidden");
    assert_eq!(file_stem(None), "unnamed");
    assert_eq!(ext_of(Some("A1.LAS")), "las");
    assert_eq!(ext_of(Some("FieldTops")), "");
    assert_eq!(ext_of(Some(".hidden")), "");
    assert_eq!(ext_of(None), "");
    assert_eq!(parent_name(Some("Surfaces")), "surfaces");
    assert_eq!(parent_name(None), "");
    assert!(dir_is("scatter_points", &["point", "scatter"]));
    assert!(!dir_is("surfaces", &["point", "scatter"]));
    assert!(is_tops_file(Some("picks.tops"), "tops"));
    assert!(is_tops_file(Some("FieldTOPS"), ""));
    assert!(!is_tops_file(Some("FieldTops.txt"), "txt"));
}

#[test]
fn bore_tokens_and_well_ids() {
    assert!(is_bore_token("ST2"));
    assert!(is_bore_token("st12"));
    assert!(is_bore_token("A"));
    assert!(is_bore_token("b1"));
    assert!(is_bore_token("A12"));
    assert!(!is_bore_token("ST"));
    assert!(!is_bore_token("A123"));
    assert!(!is_bore_token(""));
    assert!(!is_bore_token("core"));
    assert_eq!(well_id_from_stem("99_9-1_ST2"), "99_9-1");
    assert_eq!(well_id_from_stem("99_9-1_A"), "99_9-1");
    assert_eq!(well_id_from_stem("99_9-1"), "99_9-1");
    assert_eq!(well_id_from_stem("A1"), "A1");
    assert_eq!(well_id_from_stem("_A"), "_A");
    assert_eq!(well_id_from_stem("99_9-1_A_core"), "99_9-1_A_core");
}

#[test]
fn well_ids_come_from_surveys_first_then_logs() {
    let files = vec![
        (Some("99_9-1_A.wellpath".to_string()), FormatKind::WellPath),
        (Some("99_9-1_ST2.wellpath".to_string()), FormatKind::WellPath),
        (Some("B2.wellpath".to_string()), FormatKind::WellPath),
        (Some("c3.las".to_string()), FormatKind::Las),
    ];
    assert_eq!(discover_well_ids(&files), strings(&["99_9-1", "B2"]));
    let logs_only = vec![
        (Some("A1.las".to_string()), FormatKind::Las),
        (Some("a1_B.las".to_string()), FormatKind::Las),
        (Some("Top.gri".to_string()), FormatKind::IrapClassicGrid),
    ];
    assert_eq!(discover_well_ids(&logs_only), strings(&["A1"]));
    assert_eq!(ids_from_detected_stems(&logs_only, FormatKind::WellPath), Vec::<String>::new());
}

#[test]
fn core_files_merge_into_their_well_and_bore() {
    assert!(is_core_las(Some("99_9-1_A_core.las")));
    assert!(is_core_las(Some("A1_CORE.LAS")));
    assert!(!is_core_las(Some("A1_core.dat")));
    assert!(!is_core_las(Some("A1.las")));
    assert_eq!(norm_key(" 99/9-1 A "), "99_9_1_a");
    assert!(file_belongs_to(Some("99_9-1_A_core.las"), "99/9-1"));
    assert!(file_belongs_to(Some("99_9-1.las"), "99/9-1"));
    assert!(!file_belongs_to(Some("99_9-10_core.las"), "99/9-1"));
    let ids = strings(&["98_1", "99/9-1"]);
    assert_eq!(owning_well(Some("99_9-1_A_core.las"), &ids), Some(1));
    assert_eq!(owning_well(Some("X_core.las"), &ids), None);
    assert_eq!(split_stem_tokens("99_9-1_A.core x"), strings(&["99", "9", "1", "A", "core", "x"]));
    assert_eq!(merged_bore_label("99_9-1_a_core", &strings(&["", "A", "B"])), "A");
    assert_eq!(merged_bore_label("99_9-1_core", &strings(&["", "A"])), "");
}

#[test]
fn selections_keep_bores_of_listed_wells() {
    let sel = strings(&["99/9-1"]);
    assert!(pick_keeps("99/9-1 A", Some(&sel)));
    assert!(pick_keeps("99/9-1", Some(&sel)));
    assert!(!pick_keeps("99/9-10", Some(&sel)));
    assert!(pick_keeps("anything", None));
    assert!(pick_keeps("anything", Some(&[])));
    assert!(crossplot_selects("99/9-1 A", Some(&sel)));
    assert!(!crossplot_selects("98/1 A", Some(&sel)));
    assert!(crossplot_selects("98/1 A", None));
    assert!(tie_matches_bore("99/9-1", "99/9-1 A"));
    assert!(tie_matches_bore("99/9-1 A", "99/9-1 A"));
    assert!(!tie_matches_bore("99/9-1 B", "99/9-1 A"));
}

#[test]
fn petrel_tokens_keep_quoted_spaces() {
    assert_eq!(
        split_petrel_tokens("  12.5 \"Top Reservoir\"   Other  \"\" x"),
        strings(&["12.5", "Top Reservoir", "Other", "x"])
    );
    assert_eq!(split_petrel_tokens(""), Vec::<String>::new());
    assert_eq!(decode_latin1(&[0x41, 0xE6, 0xF8]), "Aæø");
}

#[test]
fn other_rows_are_read_by_header_column() {
    let text = "# comment\nBEGIN HEADER\nX\nY\nZ\nType\nSurface\nWell\nEND HEADER\n\
                1 2 -1500.5 Other GOC \"A 1\"\n\
                1 2 -1400 Horizon Top A1\n\
                1 2 -1600 other \"FWL x\" B2\n\
                1 2\n";
    let rows = other_contact_rows_of(text);
    assert_eq!(
        rows,
        vec![
            ("GOC".to_string(), "A 1".to_string(), "-1500.5".to_string()),
            ("FWL x".to_string(), "B2".to_string(), "-1600".to_string()),
        ]
    );
    assert_eq!(other_contact_rows_of("1 2 3 Other GOC A\n"), vec![]);
}

#[test]
fn tops_are_a_sorted_set() {
    let names = strings(&["Top", "GOC", "Base", "GOC", "Top"]);
    assert_eq!(discover_tops(&names), strings(&["Base", "GOC", "Top"]));
    assert_eq!(discover_tops(&Vec::new()), Vec::<String>::new());
}
