use peteksim::framework::{
    build_warn, BuildWarning, default_layer_count, find_named, horizon_role, polygon_inventory, require_horizons,
    resolve_outline, resolve_source_kind, set_named, validate, wireframe_layout, HorizonRole,
    OutlineChoice, SourceKind, ZoneSpec, MAX_DEFAULT_NK,
};
use peteksim::layering::{Conformity, LayerAlloc, LayerPlan};
use peteksim::mc::{
    check_uncertainty_run, check_zoned_run, effective_workers, level_mode, scalar_route,
    shard_ranges, zone_override_index, LevelMode, ScalarRoute,
};
use peteksim::SrsError;

fn strings(v: &[&str]) -> Vec<String> {
    v.iter().map(|s| s.to_string()).collect()
}

fn reason(e: SrsError) -> String {
    match e {
        SrsError::InvalidInput(m) => m,
        other => panic!("expected an invalid-input error, got {:?}", other),
    }
}

fn zone(name: &str, below: &str) -> ZoneSpec {
    ZoneSpec {
        name: name.to_string(),
        below_horizon: below.to_string(),
        plan: LayerPlan { conformity: Conformity::Proportional, alloc: LayerAlloc::Count(4) },
    }
}

#[test]
fn roles_bracket_the_stack() {
    assert_eq!(horizon_role(0, 1), HorizonRole::Top);
    assert_eq!(horizon_role(0, 3), HorizonRole::Top);
    assert_eq!(horizon_role(1, 3), HorizonRole::Intermediate);
    assert_eq!(horizon_role(2, 3), HorizonRole::Base);
    assert_eq!(horizon_role(1, 2), HorizonRole::Base);
}

#[test]
fn wireframe_skips_tops_only_horizons() {
    let kinds = [SourceKind::Mapped, SourceKind::TopsOnly, SourceKind::Scatter, SourceKind::Mapped];
    assert_eq!(
        wireframe_layout(&kinds),
        vec![(0, HorizonRole::Top), (2, HorizonRole::Intermediate), (3, HorizonRole::Base)]
    );
    assert_eq!(
        wireframe_layout(&[SourceKind::TopsOnly, SourceKind::Scatter]),
        vec![(1, HorizonRole::Top)]
    );
    assert_eq!(wireframe_layout(&[]), vec![]);
}

#[test]
fn horizon_sources_and_refusals() {
    assert!(require_horizons(&strings(&["Top"])).is_ok());
    assert_eq!(
        reason(require_horizons(&[]).unwrap_err()),
        "framework needs at least one horizon"
    );
    assert_eq!(resolve_source_kind("Top", true, true, true).unwrap(), SourceKind::Mapped);
    assert_eq!(resolve_source_kind("Top", false, true, true).unwrap(), SourceKind::Scatter);
    assert_eq!(resolve_source_kind("Mid", false, false, true).unwrap(), SourceKind::TopsOnly);
    assert_eq!(
        reason(resolve_source_kind("Mid", false, false, false).unwrap_err()),
        "horizon 'Mid' is neither a loaded surface nor a loaded point-set, and no well carries its pick"
    );
}

#[test]
fn outline_choice_and_inventory() {
    assert_eq!(polygon_inventory(&[]), "<none>");
    assert_eq!(polygon_inventory(&strings(&["A", "B", "C"])), "A, B, C");
    match resolve_outline(Some("Edge"), true, false, &[]) {
        Ok(OutlineChoice::Named(n)) => assert_eq!(n, "Edge"),
        other => panic!("expected the named outline, got {:?}", other),
    }
    assert_eq!(
        reason(resolve_outline(Some("Edge"), false, true, &strings(&["ModelEdge", "Lease"])).unwrap_err()),
        "outline polygon 'Edge' not loaded; loaded polygons: ModelEdge, Lease"
    );
    assert_eq!(
        reason(resolve_outline(Some("Edge"), false, false, &[]).unwrap_err()),
        "outline polygon 'Edge' not loaded; loaded polygons: <none>"
    );
    assert!(matches!(resolve_outline(None, true, true, &[]), Ok(OutlineChoice::ModelEdge)));
    assert!(matches!(resolve_outline(None, true, false, &[]), Ok(OutlineChoice::Bbox)));
}

#[test]
fn zonation_must_fit_the_horizons() {
    let h = strings(&["Top", "Mid", "Base"]);
    assert!(validate(&h, &[zone("Upper", "Mid"), zone("Lower", "Base")]).is_ok());
    assert_eq!(
        reason(validate(&strings(&["Top"]), &[]).unwrap_err()),
        "a zoned framework needs at least 2 horizons"
    );
    assert_eq!(
        reason(validate(&h, &[zone("Upper", "Mid")]).unwrap_err()),
        "3 horizons define 2 zone(s), but 1 zone spec(s) were given"
    );
    assert_eq!(
        reason(validate(&h, &[zone("Upper", "Base"), zone("Lower", "Mid")]).unwrap_err()),
        "zone 'Upper' has below_horizon 'Base', but interval 0 is bounded below by horizon 'Mid' (zones must be declared top→down, one per horizon gap)"
    );
    assert_eq!(
        reason(validate(&h, &[zone("Upper", "Mid"), zone("Lower", "Top")]).unwrap_err()),
        "zone 'Lower' has below_horizon 'Top', but interval 1 is bounded below by horizon 'Base' (zones must be declared top→down, one per horizon gap)"
    );
}

#[test]
fn zone_priors_replace_and_read_back() {
    let mut priors: Vec<(String, (u32, u32))> = Vec::new();
    set_named(&mut priors, "Sand", (25, 80));
    set_named(&mut priors, "Shale", (5, 10));
    set_named(&mut priors, "Sand", (22, 70));
    assert_eq!(
        priors,
        vec![("Shale".to_string(), (5, 10)), ("Sand".to_string(), (22, 70))]
    );
    let k = find_named(&priors, "Sand").unwrap();
    assert_eq!(priors[k].1, (22, 70));
    assert_eq!(find_named(&priors, "Shale"), Some(0));
    assert_eq!(find_named(&priors, "Coal"), None);
}

#[test]
fn default_layering_is_capped() {
    assert_eq!(default_layer_count(Some(37)), (37, false));
    assert_eq!(default_layer_count(Some(0)), (1, false));
    assert_eq!(default_layer_count(None), (1, false));
    assert_eq!(default_layer_count(Some(200)), (200, false));
    assert_eq!(default_layer_count(Some(5000)), (MAX_DEFAULT_NK, true));
}

#[test]
fn zoned_run_preconditions_and_workers() {
    assert!(check_zoned_run(true, 10, true).is_ok());
    assert_eq!(reason(check_zoned_run(true, 0, true).unwrap_err()), "zoned uncertainty needs n >= 1");
    assert_eq!(reason(check_zoned_run(true, 3, false).unwrap_err()), "zoned MC needs a stack model");
    assert_eq!(
        reason(check_zoned_run(false, 0, false).unwrap_err()),
        "zoned_uncertainty() needs a multi-zone stack model — use uncertainty() for a single-framework model"
    );
    assert!(check_uncertainty_run(false, 1).is_ok());
    assert_eq!(reason(check_uncertainty_run(false, 0).unwrap_err()), "uncertainty needs n >= 1");
    assert_eq!(
        reason(check_uncertainty_run(true, 5).unwrap_err()),
        "this is a multi-zone stack model — use zoned_uncertainty() for per-zone + total P-curves (whole-model uncertainty() would mix contacts across zones)"
    );
    for zoned in [false, true] {
        assert!(check_uncertainty_run(zoned, 7).is_ok() != check_zoned_run(zoned, 7, zoned).is_ok());
    }
    assert_eq!(scalar_route(true, true), ScalarRoute::PriorWithShift);
    assert_eq!(scalar_route(true, false), ScalarRoute::PriorOnly);
    assert_eq!(scalar_route(false, true), ScalarRoute::Drawn);
    assert_eq!(scalar_route(false, false), ScalarRoute::PriorOnly);
    assert_eq!(effective_workers(0, 100), 1);
    assert_eq!(effective_workers(1, 100), 1);
    assert_eq!(effective_workers(8, 100), 8);
    assert_eq!(effective_workers(8, 3), 3);
}

#[test]
fn shards_split_draws_evenly_remainder_first() {
    assert_eq!(shard_ranges(10, 3), vec![0..4, 4..7, 7..10]);
    assert_eq!(shard_ranges(6, 3), vec![0..2, 2..4, 4..6]);
    assert_eq!(shard_ranges(2, 4), vec![0..1, 1..2, 2..2, 2..2]);
    assert_eq!(shard_ranges(7, 1), vec![0..7]);
    let r = shard_ranges(1001, 7);
    let rejoined: Vec<usize> = r.iter().flat_map(|x| x.clone()).collect();
    assert_eq!(rejoined, (0..1001).collect::<Vec<usize>>());
}

#[test]
fn zone_overrides_and_level_modes() {
    let names = strings(&["Upper", "Lower", "Upper"]);
    assert_eq!(zone_override_index(&names, "Upper"), Some(0));
    assert_eq!(zone_override_index(&names, "Lower"), Some(1));
    assert_eq!(zone_override_index(&names, "Middle"), None);
    assert_eq!(level_mode(true, true, true, false), LevelMode::Untouched);
    assert_eq!(level_mode(true, false, false, true), LevelMode::ZoneShift);
    assert_eq!(level_mode(false, false, false, false), LevelMode::Untouched);
    assert_eq!(level_mode(false, true, false, false), LevelMode::PriorLevel);
    assert_eq!(level_mode(false, false, true, false), LevelMode::PriorLevel);
    assert_eq!(level_mode(false, false, false, true), LevelMode::PriorLevel);
}

#[test]
fn build_warnings_read_as_tag_advisory_and_count() {
    let (k, m, c) = build_warn(&BuildWarning::UnusedHorizon {
        name: "Mid".to_string(),
        role: HorizonRole::Intermediate,
        reason: "no zone".to_string(),
    });
    assert_eq!((k, m.as_str(), c), ("unused_horizon", "horizon 'Mid' (Intermediate) was not consumed: no zone", 0));
    let (k, m, c) = build_warn(&BuildWarning::ThinColumnsRepaired { columns: 17, worst: "-0.250".to_string() });
    assert_eq!(k, "thin_columns_repaired");
    assert_eq!(m, "post-gridding order-repair pulled 17 thin/crossing base node(s) down to the minimum thickness below the top (worst original separation -0.250 m)");
    assert_eq!(c, 17);
    let (k, m, c) = build_warn(&BuildWarning::LayersTruncated { cells: 3 });
    assert_eq!((k, c), ("layers_truncated", 3));
    assert_eq!(m, "3 cell(s) collapsed to zero thickness (pinch-out / merged envelope) (zero volume — excluded from volumetrics, NaN-marked in the view bundles)");
    let (k, m, c) = build_warn(&BuildWarning::LayerCountCapped { nk: 200 });
    assert_eq!((k, c), ("layer_count_capped", 200));
    assert_eq!(m, "dz-derived layer count hit the 200-layer cap (dz finer than the cap can span over the thickest column); coarsen dz or accept the cap");
    let (k, m, c) = build_warn(&BuildWarning::CellsCollapsed { cells: 40 });
    assert_eq!((k, c), ("cells_collapsed", 40));
    assert_eq!(m, "40 sub-threshold cell(s) merged volume-conservingly into a thicker zone-interior neighbour (opt-in collapse_below_m; the multi-zone stack path)");
}
