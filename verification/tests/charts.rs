use peteksim::charts::{
    axis_term, color_kind, color_mode, crossplot_axes, crossplot_axis, crossplot_title,
    display_param, distribution_title, intern_group, kind_str, line_section_label, metric_label,
    metric_of, metric_units, no_samples_error, payload_property, qualify_duplicates,
    render_property, segment_name,
    series_name, split_zone_average_name, tornado_title, ColorMode, CrossplotOpts, Metric,
};
use peteksim::SrsError;

fn strings(v: &[&str]) -> Vec<String> {
    v.iter().map(|s| s.to_string()).collect()
}

fn opts(color_by: &str) -> CrossplotOpts {
    CrossplotOpts {
        x: "PHIE".to_string(),
        y: "PERM".to_string(),
        wells: None,
        color_by: color_by.to_string(),
        x_log: false,
        y_log: true,
        regression: true,
    }
}

#[test]
fn crossplot_frame_names_axes_and_title() {
    let o = opts("well");
    let (x, y) = crossplot_axes(&o);
    assert_eq!((x.name.as_str(), x.units.as_str(), x.log), ("PHIE", "", false));
    assert_eq!((y.name.as_str(), y.units.as_str(), y.log), ("PERM", "", true));
    assert_eq!(crossplot_title(&o), "PHIE vs PERM");
    let a = crossplot_axis("GR", true);
    assert_eq!((a.name.as_str(), a.log), ("GR", true));
    match no_samples_error(&o) {
        SrsError::InvalidInput(m) => assert_eq!(
            m,
            "crossplot: no paired (PHIE, PERM) log samples found on the selected bores"
        ),
        other => panic!("unexpected error {:?}", other),
    }
}

#[test]
fn colour_modes_and_kinds() {
    assert_eq!(color_mode("Well"), ColorMode::Well);
    assert_eq!(color_mode("ZONE"), ColorMode::Zone);
    assert_eq!(color_mode("VSH"), ColorMode::Continuous);
    assert_eq!(color_kind(ColorMode::Well), "categorical");
    assert_eq!(color_kind(ColorMode::Zone), "categorical");
    assert_eq!(color_kind(ColorMode::Continuous), "continuous");
}

#[test]
fn groups_keep_first_encounter_order() {
    let mut groups: Vec<String> = Vec::new();
    for g in ["B", "A", "B", "C", "A"] {
        intern_group(&mut groups, g);
    }
    assert_eq!(groups, strings(&["B", "A", "C"]));
}

#[test]
fn trend_kinds_and_equation_terms() {
    assert_eq!(kind_str(false, false), "linear");
    assert_eq!(kind_str(false, true), "loglinear");
    assert_eq!(kind_str(true, false), "linear-logx");
    assert_eq!(kind_str(true, true), "loglog");
    assert_eq!(axis_term(&crossplot_axis("PERM", true)), "log10(PERM)");
    assert_eq!(axis_term(&crossplot_axis("PHIE", false)), "PHIE");
}

#[test]
fn display_labels_disambiguate_draw_from_level_shift() {
    assert_eq!(display_param("porosity").as_deref(), Some("porosity (draw)"));
    assert_eq!(display_param("PORO").as_deref(), Some("PORO level shift"));
    assert_eq!(display_param("net_to_gross").as_deref(), Some("net-to-gross (draw)"));
    assert_eq!(display_param("goc").as_deref(), Some("GOC depth"));
    assert_eq!(display_param("goc_depth_m").as_deref(), Some("GOC depth"));
    assert_eq!(display_param("area_m2").as_deref(), Some("area"));
    assert_eq!(display_param("boi").as_deref(), Some("Bo"));
    assert_eq!(display_param("bgi").as_deref(), Some("Bg"));
    assert_eq!(tornado_title("MSm³"), "STOIIP tornado (MSm³)");
}

#[test]
fn distribution_names() {
    assert_eq!(metric_of(false), Metric::Stoiip);
    assert_eq!(metric_of(true), Metric::Giip);
    assert_eq!(metric_label(Metric::Giip), "GIIP");
    assert_eq!(metric_units(Metric::Stoiip), "MSm³");
    assert_eq!(metric_units(Metric::Giip), "bcm");
    assert_eq!(distribution_title(Metric::Stoiip), "STOIIP distribution");
    assert_eq!(series_name(None, None, Metric::Giip), "GIIP");
    assert_eq!(series_name(None, Some("Brent"), Metric::Stoiip), "Brent STOIIP");
    assert_eq!(series_name(Some("Mine"), Some("Brent"), Metric::Stoiip), "Mine");
    let names = strings(&["North", "South"]);
    assert_eq!(segment_name(Some(&names), 1), "South");
    assert_eq!(segment_name(Some(&names), 2), "Segment 3");
    assert_eq!(segment_name(None, 0), "Segment 1");
}

#[test]
fn rendered_property_prefers_request_then_poro() {
    let cubes = strings(&["NTG", "PORO", "SW"]);
    assert_eq!(render_property(Some("SW"), &cubes), "SW");
    assert_eq!(render_property(Some("PERM"), &cubes), "PORO");
    assert_eq!(render_property(None, &strings(&["NTG", "SW"])), "NTG");
    assert_eq!(render_property(Some("SW"), &[]), "PORO");
    assert_eq!(payload_property(None, &cubes).unwrap(), "PORO");
    match payload_property(Some("SW"), &[]) {
        Err(SrsError::InvalidInput(m)) => assert_eq!(m, "model carries no populated property cubes"),
        other => panic!("unexpected {:?}", other),
    }
    assert_eq!(line_section_label(0), "Line 1");
    assert_eq!(line_section_label(11), "Line 12");
}

#[test]
fn zone_average_names_split_at_the_last_separator() {
    assert_eq!(
        split_zone_average_name("PORO::Brent"),
        Some(("PORO".to_string(), "Brent".to_string()))
    );
    assert_eq!(
        split_zone_average_name("a::b::c"),
        Some(("a::b".to_string(), "c".to_string()))
    );
    assert_eq!(split_zone_average_name("::"), Some((String::new(), String::new())));
    assert_eq!(split_zone_average_name("PORO:Brent"), None);
    assert_eq!(split_zone_average_name(""), None);
}

#[test]
fn repeated_contact_kinds_get_ordinals_in_depth_order() {
    assert_eq!(
        qualify_duplicates(&strings(&["OWC", "GOC", "OWC"])),
        strings(&["OWC (1)", "GOC", "OWC (2)"])
    );
    assert_eq!(qualify_duplicates(&strings(&["OWC"])), strings(&["OWC"]));
    let many: Vec<String> = (0..12).map(|_| "OWC".to_string()).collect();
    let labels = qualify_duplicates(&many);
    assert_eq!(labels[0], "OWC (1)");
    assert_eq!(labels[11], "OWC (12)");
    assert_eq!(qualify_duplicates(&[]), Vec::<String>::new());
}
