use peteksim::charts::{qualify_duplicates, render_property};
use peteksim::classify::{detected_load_kind, FormatKind, Kind};
use peteksim::layering::{layers, Conformity, LayerAlloc};
use peteksim::logs::lane_bytes;
use peteksim::vocab::{contact_slot, zone_contact_slot};
use peteksim::wells::{crossplot_selects, norm_key, pick_keeps, well_id_from_stem};

fn strings(v: &[&str]) -> Vec<String> {
    v.iter().map(|s| s.to_string()).collect()
}

#[test]
fn every_bore_folds_to_its_well() {
    for token in ["A", "b2", "C12", "ST1", "st22"] {
        assert_eq!(well_id_from_stem(&format!("99_9-1_{token}")), "99_9-1");
    }
}

#[test]
fn norm_key_is_idempotent() {
    for s in [" 99/9-1 A ", "Well-B", "x_y z", ""] {
        let once = norm_key(s);
        assert_eq!(norm_key(&once), once);
    }
}

#[test]
fn a_well_selects_its_bores() {
    let sel = strings(&["A1"]);
    assert!(pick_keeps("A1 ST2", Some(&sel)));
    assert!(crossplot_selects("A1 ST2", Some(&sel)));
}

#[test]
fn well_side_formats_load_nowhere() {
    for kind in [FormatKind::Las, FormatKind::WellPath, FormatKind::PetrelTops, FormatKind::CrsMetaXml] {
        assert_eq!(detected_load_kind(kind, "surfaces", "gri"), None);
    }
    assert_eq!(detected_load_kind(FormatKind::Cps3Grid, "polygons", "pol"), Some(Kind::Surface));
}

#[test]
fn counts_only_go_with_proportional_layers() {
    for style in ["follow_top", "follow_base", "onlap", "truncation"] {
        let p = layers(Some(9), true, style).unwrap();
        assert_ne!(p.conformity, Conformity::Proportional);
        assert_eq!(p.alloc, LayerAlloc::Thickness);
    }
}

#[test]
fn zone_contacts_accept_every_grid_contact() {
    for key in ["goc", "FWL", "owc", "Contact"] {
        assert_eq!(zone_contact_slot("Z", key).unwrap(), contact_slot(key).unwrap());
    }
}

#[test]
fn lane_words_reassemble_from_their_bytes() {
    for w in [0u32, 1, 0x3F80_0000, 0xDEAD_BEEF, u32::MAX] {
        let b = lane_bytes(&[Some(w)]);
        assert_eq!(u32::from_le_bytes([b[0], b[1], b[2], b[3]]), w);
    }
}

#[test]
fn a_view_renders_a_populated_cube() {
    let cubes = strings(&["NTG", "SW"]);
    for req in [None, Some("PORO"), Some("SW"), Some("X")] {
        assert!(cubes.contains(&render_property(req, &cubes)));
    }
}

#[test]
fn repeated_kinds_get_distinct_labels() {
    let kinds: Vec<String> = (0..25).map(|k| if k % 3 == 0 { "GOC" } else { "OWC" }.to_string()).collect();
    let labels = qualify_duplicates(&kinds);
    for i in 0..kinds.len() {
        for j in (i + 1)..kinds.len() {
            if kinds[i] == kinds[j] {
                assert_ne!(labels[i], labels[j]);
            }
        }
    }
}
