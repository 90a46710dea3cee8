use peteksim::layering::{layers, zone_layering, Conformity, LayerAlloc, LayerPlan};
use peteksim::vocab::{
    check_distribution, contact_slot, parse_correlation, parse_upscale, parse_vgm_model,
    pick_spread_slot, resimulate, section_source, section_well, zone_contact_slot, ContactSlot, Correlation,
    DistTag, SectionSource, UpscaleMethod, VariogramModel,
};
use peteksim::{Fluid, SrsError};

fn reason(e: SrsError) -> String {
    match e {
        SrsError::InvalidInput(m) => m,
        other => panic!("expected an invalid-input error, got {:?}", other),
    }
}

#[test]
fn fluid_parses_ignoring_case_and_round_trips() {
    assert_eq!(Fluid::parse("OIL").unwrap(), Fluid::Oil);
    assert_eq!(Fluid::parse("Gas").unwrap(), Fluid::Gas);
    assert_eq!(Fluid::parse(Fluid::Oil.label()).unwrap(), Fluid::Oil);
    assert_eq!(Fluid::parse(Fluid::Gas.label()).unwrap(), Fluid::Gas);
    assert_eq!(Fluid::Gas.label(), "gas");
    assert_eq!(
        reason(Fluid::parse("Water").unwrap_err()),
        "fluid must be 'oil' or 'gas', got 'water'"
    );
    assert_eq!(
        Fluid::parse(" oil").unwrap_err().message(),
        "invalid input: fluid must be 'oil' or 'gas', got ' oil'"
    );
}

#[test]
fn error_messages_carry_their_kind() {
    assert_eq!(SrsError::Grid("k out of range".to_string()).message(), "grid error: k out of range");
    assert_eq!(
        SrsError::OutOfRange("Bo".to_string()).message(),
        "outside validity range: Bo"
    );
}

#[test]
fn variogram_upscale_and_correlation_words() {
    assert_eq!(parse_vgm_model("Spherical").unwrap(), VariogramModel::Spherical);
    assert_eq!(parse_vgm_model("GAUSSIAN").unwrap(), VariogramModel::Gaussian);
    assert_eq!(parse_vgm_model("nugget").unwrap(), VariogramModel::Nugget);
    assert_eq!(parse_vgm_model("exponential").unwrap(), VariogramModel::Exponential);
    assert_eq!(
        reason(parse_vgm_model("Cubic").unwrap_err()),
        "variogram model must be spherical/exponential/gaussian/nugget, got 'cubic'"
    );
    assert_eq!(parse_upscale("Harmonic").unwrap(), UpscaleMethod::Harmonic);
    assert_eq!(parse_upscale("arithmetic").unwrap(), UpscaleMethod::Arithmetic);
    assert_eq!(parse_upscale("GEOMETRIC").unwrap(), UpscaleMethod::Geometric);
    assert_eq!(
        reason(parse_upscale("Median").unwrap_err()),
        "upscale method must be arithmetic/harmonic/geometric, got 'median'"
    );
    assert_eq!(parse_correlation("Independent").unwrap(), Correlation::Independent);
    assert_eq!(parse_correlation("perfect").unwrap(), Correlation::Comonotonic);
    assert_eq!(parse_correlation("COMONOTONIC").unwrap(), Correlation::Comonotonic);
    assert_eq!(
        reason(parse_correlation("Gaussian").unwrap_err()),
        "correlation must be independent/comonotonic, got 'gaussian'"
    );
    assert!(resimulate());
}

#[test]
fn grid_and_zone_contact_keys() {
    assert_eq!(contact_slot("GOC").unwrap(), ContactSlot::GasOil);
    assert_eq!(contact_slot("fwl").unwrap(), ContactSlot::Lower);
    assert_eq!(contact_slot("Owc").unwrap(), ContactSlot::Lower);
    assert_eq!(contact_slot("contact").unwrap(), ContactSlot::Lower);
    assert_eq!(
        reason(contact_slot("GWC").unwrap_err()),
        "unknown contact 'gwc' (expected fwl/owc or goc)"
    );
    assert_eq!(zone_contact_slot("Brent", "GWC").unwrap(), ContactSlot::Lower);
    assert_eq!(zone_contact_slot("Brent", "goc").unwrap(), ContactSlot::GasOil);
    assert_eq!(
        reason(zone_contact_slot("Brent", "Top").unwrap_err()),
        "zone 'Brent': unknown contact 'top' (expected goc / fwl / owc)"
    );
    assert_eq!(pick_spread_slot("GOC"), ContactSlot::GasOil);
    assert_eq!(pick_spread_slot("anything"), ContactSlot::Lower);
}

#[test]
fn distribution_tags_and_arity() {
    assert_eq!(check_distribution("Normal", 2).unwrap(), DistTag::Normal);
    assert_eq!(check_distribution("lognormal", 2).unwrap(), DistTag::Lognormal);
    assert_eq!(check_distribution("UNIFORM", 2).unwrap(), DistTag::Uniform);
    assert_eq!(check_distribution("triangular", 3).unwrap(), DistTag::Triangular);
    assert_eq!(
        reason(check_distribution("Triangular", 2).unwrap_err()),
        "distribution 'Triangular' expects 3 parameters, got 2"
    );
    assert_eq!(
        reason(check_distribution("normal", 12).unwrap_err()),
        "distribution 'normal' expects 2 parameters, got 12"
    );
    assert_eq!(
        reason(check_distribution("Beta", 2).unwrap_err()),
        "unknown distribution tag 'beta'; expected one of: normal, lognormal, uniform, triangular"
    );
}

#[test]
fn sections_need_a_line_or_a_well() {
    assert!(matches!(section_source(true, Some("A1".to_string())), Ok(SectionSource::Line)));
    match section_source(false, Some("A1".to_string())) {
        Ok(SectionSource::Well(w)) => assert_eq!(w, "A1"),
        other => panic!("expected a well section, got {:?}", other),
    }
    assert_eq!(
        reason(section_source(false, None).unwrap_err()),
        "a section needs either a `line=[[x,y],..]` or a `well=<id>`"
    );
}

#[test]
fn layers_styles_counts_and_thicknesses() {
    let prop_count = LayerPlan { conformity: Conformity::Proportional, alloc: LayerAlloc::Count(20) };
    assert_eq!(layers(Some(20), false, "proportional").unwrap(), prop_count);
    assert_eq!(layers(Some(20), false, "PROP").unwrap(), prop_count);
    assert_eq!(
        layers(None, true, "proportional").unwrap(),
        LayerPlan { conformity: Conformity::Proportional, alloc: LayerAlloc::Thickness }
    );
    assert_eq!(
        layers(Some(5), true, "Erosional").unwrap(),
        LayerPlan { conformity: Conformity::FollowTop, alloc: LayerAlloc::Thickness }
    );
    assert_eq!(
        layers(None, true, "onlap").unwrap(),
        LayerPlan { conformity: Conformity::FollowBase, alloc: LayerAlloc::Thickness }
    );
    assert_eq!(
        reason(layers(Some(3), true, "proportional").unwrap_err()),
        "ps.layers (proportional) needs exactly one of n= or dz_m="
    );
    assert_eq!(reason(layers(None, false, "prop").unwrap_err()), "ps.layers needs n= or dz_m=");
    assert_eq!(
        reason(layers(Some(3), false, "follow_top").unwrap_err()),
        "ps.layers(style=\"follow_top\") needs dz_m="
    );
    assert_eq!(
        reason(layers(None, false, "FollowBase").unwrap_err()),
        "ps.layers(style=\"follow_base\") needs dz_m="
    );
    assert_eq!(
        reason(layers(Some(3), false, "Sigmoid").unwrap_err()),
        "unknown layering style 'sigmoid' (expected proportional / follow_top / follow_base)"
    );
}

#[test]
fn zone_layering_names_the_zone() {
    assert_eq!(
        zone_layering("Ness", "proportional", Some(8), false).unwrap(),
        LayerPlan { conformity: Conformity::Proportional, alloc: LayerAlloc::Count(8) }
    );
    assert_eq!(
        zone_layering("Ness", "truncation", None, true).unwrap(),
        LayerPlan { conformity: Conformity::FollowTop, alloc: LayerAlloc::Thickness }
    );
    assert_eq!(
        reason(zone_layering("Ness", "prop", None, false).unwrap_err()),
        "zone 'Ness' (proportional) needs exactly one of nk= or dz_m="
    );
    assert_eq!(
        reason(zone_layering("Ness", "prop", Some(2), true).unwrap_err()),
        "zone 'Ness' (proportional) needs exactly one of nk= or dz_m="
    );
    assert_eq!(
        reason(zone_layering("Ness", "follow_top", Some(2), false).unwrap_err()),
        "zone 'Ness' (follow_top) needs dz_m="
    );
    assert_eq!(
        reason(zone_layering("Ness", "followbase", None, false).unwrap_err()),
        "zone 'Ness' (follow_base) needs dz_m="
    );
    assert_eq!(
        reason(zone_layering("Ness", "Wedge", None, true).unwrap_err()),
        "zone 'Ness': unknown conformity 'wedge' (proportional / follow_top / follow_base)"
    );
}

#[test]
fn layers_and_zone_layering_agree() {
    for style in ["proportional", "prop", "follow_top", "onlap", "other"] {
        for n in [None, Some(4)] {
            for dz in [false, true] {
                let a = layers(n, dz, style).ok();
                let b = zone_layering("Z", style, n, dz).ok();
                assert_eq!(a, b, "style {style}, n {n:?}, dz {dz}");
            }
        }
    }
}

#[test]
fn along_bore_sections_need_an_attached_positioned_well() {
    let tracks = vec![
        ("A1".to_string(), 49),
        ("B2".to_string(), 1),
        ("A1".to_string(), 0),
    ];
    assert_eq!(section_well(&tracks, "A1").unwrap(), 0);
    assert_eq!(
        reason(section_well(&tracks, "B2").unwrap_err()),
        "intersection_bundle: well 'B2' has no positioned trajectory"
    );
    assert_eq!(
        reason(section_well(&tracks, "C3").unwrap_err()),
        "intersection_bundle: no well 'C3' attached to the model (attach wells via grid.model(..., wells=proj.wells()))"
    );
}
