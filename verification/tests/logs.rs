use peteksim::logs::{
    canonical_property_name, check_wells_mapped, cube_name, encode_lane, flatten_default,
    lane_bytes, lane_from_encoded, no_upscale_step, primary_curve, track_display, track_mnemonic,
    NAN_F32_BITS,
};
use peteksim::SrsError;

fn strings(v: &[&str]) -> Vec<String> {
    v.iter().map(|s| s.to_string()).collect()
}

#[test]
fn lane_bytes_are_little_endian_with_canonical_nan() {
    let one = 1.0f32.to_bits();
    assert_eq!(lane_bytes(&[Some(one)]), vec![0x00, 0x00, 0x80, 0x3F]);
    assert_eq!(lane_bytes(&[None]), vec![0x00, 0x00, 0xC0, 0x7F]);
    assert_eq!(NAN_F32_BITS, 0x7FC0_0000);
    assert_eq!(
        lane_bytes(&[Some(0x0102_0304), None]),
        vec![0x04, 0x03, 0x02, 0x01, 0x00, 0x00, 0xC0, 0x7F]
    );
    assert_eq!(lane_bytes(&[]), Vec::<u8>::new());
}

#[test]
fn lanes_are_base64_blocks() {
    let lane = encode_lane(&[Some(1.0f32.to_bits())]);
    assert_eq!(lane.dtype, "f32");
    assert_eq!(lane.shape, [1]);
    assert_eq!(lane.data, "AACAPw==");
    assert_eq!(encode_lane(&[None]).data, "AADAfw==");
    let two = encode_lane(&[Some(1.0f32.to_bits()), None]);
    assert_eq!(two.shape, [2]);
    assert_eq!(two.data, "AACAPwAAwH8=");
    let empty = encode_lane(&[]);
    assert_eq!((empty.shape, empty.data.as_str()), ([0], ""));
    let l = lane_from_encoded(3, "abc".to_string());
    assert_eq!((l.dtype, l.shape, l.data.as_str()), ("f32", [3], "abc"));
}

#[test]
fn tracks_and_primary_curve() {
    assert_eq!(primary_curve(true, true, true), Some("PORO"));
    assert_eq!(primary_curve(false, true, true), Some("NTG"));
    assert_eq!(primary_curve(false, false, true), Some("SW"));
    assert_eq!(primary_curve(false, false, false), None);
    assert_eq!(track_mnemonic("PORO", false), "PHIE");
    assert_eq!(track_mnemonic("poro", true), "PHIE_UP");
    assert_eq!(track_mnemonic("NTG", true), "NTG_UP");
    assert_eq!(track_mnemonic("SW", false), "SW");
    assert_eq!(track_display("Net-to-gross", true), "Net-to-gross (upscaled)");
    assert_eq!(track_display("Net-to-gross", false), "Net-to-gross");
}

#[test]
fn flatten_default_is_the_second_top_met() {
    let tops = vec![strings(&["Top"]), strings(&[]), strings(&["Top", "Mid", "Base"])];
    assert_eq!(flatten_default(&tops).as_deref(), Some("Top"));
    let tops = vec![strings(&["Top", "Mid"]), strings(&["X"])];
    assert_eq!(flatten_default(&tops).as_deref(), Some("Mid"));
    let tops = vec![strings(&[]), strings(&["Only"])];
    assert_eq!(flatten_default(&tops).as_deref(), Some("Only"));
    assert_eq!(flatten_default(&vec![strings(&[])]), None);
    assert_eq!(flatten_default(&Vec::new()), None);
}

#[test]
fn property_names_resolve_through_mnemonic_aliases() {
    assert_eq!(canonical_property_name("PHI"), "PORO");
    assert_eq!(canonical_property_name("phie_2025"), "PORO");
    assert_eq!(canonical_property_name("PHIE"), "PORO");
    assert_eq!(canonical_property_name("SWE"), "SW");
    assert_eq!(canonical_property_name("net_gross"), "NTG");
    assert_eq!(canonical_property_name("Facies"), "Facies");
    assert_eq!(cube_name("PHIE".to_string()), "PORO");
    assert_eq!(cube_name("NTG".to_string()), "NTG");
}

#[test]
fn upscale_steps_need_mapped_wells() {
    assert!(check_wells_mapped("PORO", 0, 0).is_ok());
    assert!(check_wells_mapped("PORO", 120, 3).is_ok());
    match check_wells_mapped("PORO", 120, 0) {
        Err(SrsError::InvalidInput(m)) => assert_eq!(
            m,
            "property 'PORO': 120 log samples positioned, but no well maps onto the model grid — the well (x, y) fall outside the framework's areal extent. Check that the wells and horizons share a georeference/CRS (the model grid is area-scaled onto the horizon lattice; wells at a foreign CRS condition 0 cells)."
        ),
        other => panic!("unexpected {:?}", other),
    }
    assert_eq!(
        no_upscale_step("NTG", Some("Brent")).message(),
        "invalid input: property 'NTG' has no upscale step in zone 'Brent'"
    );
    assert_eq!(
        no_upscale_step("NTG", None).message(),
        "invalid input: property 'NTG' has no upscale step"
    );
}
