//! The well-log payload rules of the Wells tab: the byte layout of a numeric
//! lane (little-endian `f32` words, a non-finite sample packed as the
//! canonical quiet NaN, base64-wrapped), the canonical curves and their track
//! names, the lane grid's primary log, the flatten default, and the cube a
//! log mnemonic feeds. The samples themselves are converted to `f32` bit
//! patterns by the caller.

use vstd::prelude::*;
use base64::engine::general_purpose::STANDARD;
use base64::Engine;
use crate::error::{is_invalid_input, SrsError};
use crate::text::{chars_of, decimal, eq_ignore_case, eq_ignore_case_chars, push_decimal};

verus! {

// ---------------------------------------------------------------------------
// Lanes
// ---------------------------------------------------------------------------

/// The canonical quiet-NaN `f32` bit pattern a non-finite sample packs as.
pub const NAN_F32_BITS: u32 = 0x7FC0_0000;

/// One numeric lane block `{dtype, shape, data}`: `shape[0]` samples of
/// `dtype` (always `"f32"`), base64-wrapped in `data`.
#[derive(Debug)]
pub struct Lane {
    pub dtype: &'static str,
    pub shape: [usize; 1],
    pub data: String,
}

/// The `f32` word a sample packs as: its bit pattern, or the canonical NaN
/// for a non-finite sample (`None`).
pub open spec fn word_of(sample: Option<u32>) -> u32 {
    match sample {
        Some(bits) => bits,
        None => NAN_F32_BITS,
    }
}

/// The four little-endian bytes of a word.
pub open spec fn word_bytes(w: u32) -> Seq<u8> {
    seq![(w & 0xff) as u8, ((w >> 8u32) & 0xff) as u8, ((w >> 16u32) & 0xff) as u8, ((w >> 24u32) & 0xff) as u8]
}

/// The byte block of a lane: each sample's word, little-endian, in order.
pub open spec fn lane_bytes_spec(samples: Seq<Option<u32>>) -> Seq<u8>
    decreases samples.len(),
{
    if samples.len() == 0 {
        seq![]
    } else {
        lane_bytes_spec(samples.drop_last()) + word_bytes(word_of(samples.last()))
    }
}

/// Four bytes per sample.
pub proof fn lemma_lane_bytes_len(samples: Seq<Option<u32>>)
    ensures
        lane_bytes_spec(samples).len() == 4 * samples.len(),
    decreases samples.len(),
{
    if samples.len() > 0 {
        lemma_lane_bytes_len(samples.drop_last());
    }
}

/// Little-endian bytes reassemble to the word they came from, so a lane's
/// block decodes back to exactly the packed words.
pub proof fn law_word_bytes_reassemble(w: u32)
    ensures
        (word_bytes(w)[0] as u32) | ((word_bytes(w)[1] as u32) << 8u32) | ((word_bytes(w)[2] as u32)
            << 16u32) | ((word_bytes(w)[3] as u32) << 24u32) == w,
{
    assert(((w & 0xff) as u8 as u32) | ((((w >> 8u32) & 0xff) as u8 as u32) << 8u32) | ((((w
        >> 16u32) & 0xff) as u8 as u32) << 16u32) | ((((w >> 24u32) & 0xff) as u8 as u32) << 24u32)
        == w) by (bit_vector);
}

/// The little-endian byte block of a lane's samples.
pub fn lane_bytes(samples: &[Option<u32>]) -> (bytes: Vec<u8>)
    requires
        samples.len() <= usize::MAX / 4,
    ensures
        bytes@ == lane_bytes_spec(samples@),
        bytes@.len() == 4 * samples.len(),
{
    let mut out: Vec<u8> = Vec::new();
    let mut i: usize = 0;
    while i < samples.len()
        invariant
            i <= samples.len(),
            out@ == lane_bytes_spec(samples@.take(i as int)),
        decreases samples.len() - i,
    {
        let w: u32 = match samples[i] {
            Some(bits) => bits,
            None => NAN_F32_BITS,
        };
        out.push((w & 0xff) as u8);
        out.push(((w >> 8u32) & 0xff) as u8);
        out.push(((w >> 16u32) & 0xff) as u8);
        out.push(((w >> 24u32) & 0xff) as u8);
        assert(samples@.take(i + 1).drop_last() == samples@.take(i as int));
        assert(out@ =~= lane_bytes_spec(samples@.take(i + 1)));
        i += 1;
    }
    assert(samples@.take(samples.len() as int) == samples@);
    proof {
        lemma_lane_bytes_len(samples@);
    }
    out
}

/// The text `base64::engine::general_purpose::STANDARD` encodes `bytes` to.
pub uninterp spec fn base64_standard(bytes: Seq<u8>) -> Seq<char>;

/// `base64::engine::general_purpose::STANDARD.encode(bytes)`: the standard
/// alphabet with `=` padding, four characters for each started group of three
/// bytes. The characters themselves are left to the name `base64_standard`.
/// The crate panics when the output length overflows `usize`, so that is
/// ruled out.
#[verifier::external_body]
fn encode_base64(bytes: &[u8]) -> (s: String)
    requires
        bytes.len() / 3 * 4 + 4 <= usize::MAX,
    ensures
        s@ == base64_standard(bytes@),
        s@.len() == 4 * ((bytes.len() + 2) / 3),
{
    STANDARD.encode(bytes)
}

/// A lane of `count` `f32` samples over the encoded block `data`.
pub fn lane_from_encoded(count: usize, data: String) -> (lane: Lane)
    ensures
        lane.dtype@ == "f32"@,
        lane.shape[0] == count,
        lane.data@ == data@,
{
    Lane { dtype: "f32", shape: [count], data }
}

/// Encode a lane from its samples' `f32` bit patterns (`None` for a
/// non-finite sample).
pub fn encode_lane(samples: &[Option<u32>]) -> (lane: Lane)
    requires
        4 * samples.len() / 3 * 4 + 4 <= usize::MAX,
    ensures
        lane.dtype@ == "f32"@,
        lane.shape[0] == samples.len(),
        lane.data@ == base64_standard(lane_bytes_spec(samples@)),
        lane.data@.len() == 4 * ((4 * samples.len() + 2) / 3),
{
    let bytes = lane_bytes(samples);
    let data = encode_base64(bytes.as_slice());
    lane_from_encoded(samples.len(), data)
}

// ---------------------------------------------------------------------------
// Curves and tracks
// ---------------------------------------------------------------------------

/// The log whose depths make a bore's lane grid: the first canonical curve
/// the bore carries (`PORO`, else `NTG`, else `SW`).
pub fn primary_curve(has_poro: bool, has_ntg: bool, has_sw: bool) -> (r: Option<&'static str>)
    ensures
        match r {
            Some(m) => (has_poro && m@ == "PORO"@) || (!has_poro && has_ntg && m@ == "NTG"@) || (
            !has_poro && !has_ntg && has_sw && m@ == "SW"@),
            None => !has_poro && !has_ntg && !has_sw,
        },
{
    if has_poro {
        Some("PORO")
    } else if has_ntg {
        Some("NTG")
    } else if has_sw {
        Some("SW")
    } else {
        None
    }
}

/// A track's mnemonic: the porosity log reads as `PHIE`; an upscaled
/// track adds `_UP`.
pub open spec fn track_mnemonic_spec(source: Seq<char>, upscaled: bool) -> Seq<char> {
    let base = if eq_ignore_case(source, "PORO"@) {
        "PHIE"@
    } else {
        source
    };
    if upscaled {
        base + "_UP"@
    } else {
        base
    }
}

/// The mnemonic of a raw (or upscaled) track over the log `source`.
pub fn track_mnemonic(source: &str, upscaled: bool) -> (s: String)
    ensures
        s@ == track_mnemonic_spec(source@, upscaled),
{
    let c = chars_of(source);
    let p = chars_of("PORO");
    let mut s = if eq_ignore_case_chars(c.as_slice(), p.as_slice()) {
        String::from_str("PHIE")
    } else {
        String::from_str(source)
    };
    if upscaled {
        s.append("_UP");
    }
    s
}

/// The display name of a raw (or upscaled) track.
pub fn track_display(display: &str, upscaled: bool) -> (s: String)
    ensures
        s@ == (if upscaled {
            display@ + " (upscaled)"@
        } else {
            display@
        }),
{
    let mut s = String::from_str(display);
    if upscaled {
        s.append(" (upscaled)");
    }
    s
}

/// All the bores' framework tops (horizon names), bore after bore.
pub open spec fn all_tops(tops: Seq<Seq<Seq<char>>>) -> Seq<Seq<char>>
    decreases tops.len(),
{
    if tops.len() == 0 {
        seq![]
    } else {
        all_tops(tops.drop_last()) + tops.last()
    }
}

/// The horizon the Wells tab flattens on by default: the second top met
/// across the bores (a mid pick moves wells visibly), else the first, else
/// none.
pub open spec fn flatten_default_spec(tops: Seq<Seq<Seq<char>>>) -> Option<Seq<char>> {
    let all = all_tops(tops);
    if all.len() > 1 {
        Some(all[1])
    } else if all.len() == 1 {
        Some(all[0])
    } else {
        None
    }
}

/// The tops of the first bores lead the tops of all of them.
proof fn lemma_all_tops_prefix(tv: Seq<Seq<Seq<char>>>, j: int, k: int)
    requires
        0 <= j <= k <= tv.len(),
    ensures
        all_tops(tv.take(j)).len() <= all_tops(tv.take(k)).len(),
        forall|m: int|
            0 <= m < all_tops(tv.take(j)).len() ==> #[trigger] all_tops(tv.take(k))[m] == all_tops(
                tv.take(j),
            )[m],
    decreases k - j,
{
    if j < k {
        lemma_all_tops_prefix(tv, j, k - 1);
        assert(tv.take(k).drop_last() == tv.take(k - 1));
    }
}

/// The default flatten horizon from each bore's tops, in bore order.
pub fn flatten_default(tops: &Vec<Vec<String>>) -> (r: Option<String>)
    ensures
        match r {
            Some(h) => flatten_default_spec(tops@.map_values(|t: Vec<String>| t@.map_values(|s: String| s@))) == Some(h@),
            None => flatten_default_spec(tops@.map_values(|t: Vec<String>| t@.map_values(|s: String| s@))) is None,
        },
{
    let ghost tv = tops@.map_values(|t: Vec<String>| t@.map_values(|s: String| s@));
    let mut first: Option<String> = None;
    let mut seen: usize = 0;
    let mut i: usize = 0;
    while i < tops.len()
        invariant
            i <= tops.len(),
            tv == tops@.map_values(|t: Vec<String>| t@.map_values(|s: String| s@)),
            seen == all_tops(tv.take(i as int)).len(),
            seen <= 1,
            seen == 1 <==> first is Some,
            first matches Some(f) ==> f@ == all_tops(tv.take(i as int))[0],
        decreases tops.len() - i,
    {
        let row = &tops[i];
        assert(tv.take(i + 1).drop_last() == tv.take(i as int));
        assert(tv.take(i + 1).last() == row@.map_values(|s: String| s@));
        let ghost before = all_tops(tv.take(i as int));
        let ghost after = all_tops(tv.take(i + 1));
        assert(after == before + row@.map_values(|s: String| s@));
        if row.len() > 0 {
            proof {
                lemma_all_tops_prefix(tv, i + 1, tv.len() as int);
                assert(tv.take(tv.len() as int) == tv);
            }
            if seen == 1 {
                assert(after[1] == row@[0]@);
                return Some(row[0].clone());
            }
            if row.len() > 1 {
                assert(after[1] == row@[1]@);
                return Some(row[1].clone());
            }
            assert(after[0] == row@[0]@);
            first = Some(row[0].clone());
            seen = 1;
        }
        i += 1;
    }
    assert(tv.take(tops.len() as int) == tv);
    first
}

// ---------------------------------------------------------------------------
// Property cubes
// ---------------------------------------------------------------------------

/// The canonical mnemonic `petekio::analysis::normalize::canonical_mnemonic`
/// gives a raw log mnemonic.
pub uninterp spec fn canonical_mnemonic_spec(raw: Seq<char>) -> Seq<char>;

/// `petekio::analysis::normalize::canonical_mnemonic`: petekio's shared
/// mnemonic-alias table (vendor variants of one curve to one name, a
/// trailing `_<year>` vintage tag stripped). The table is left to the name
/// `canonical_mnemonic_spec`; it depends on the mnemonic alone.
#[verifier::external_body]
fn canonical_mnemonic(raw: &str) -> (s: String)
    ensures
        s@ == canonical_mnemonic_spec(raw@),
{
    petekio::analysis::normalize::canonical_mnemonic(raw)
}

/// The property cube a canonical mnemonic feeds: effective porosity `PHIE`
/// is the `PORO` cube; every other mnemonic names its own cube.
pub open spec fn cube_name_spec(mnemonic: Seq<char>) -> Seq<char> {
    if mnemonic == "PHIE"@ {
        "PORO"@
    } else {
        mnemonic
    }
}

/// The cube a canonical mnemonic feeds.
pub fn cube_name(mnemonic: String) -> (s: String)
    ensures
        s@ == cube_name_spec(mnemonic@),
{
    let m = chars_of(mnemonic.as_str());
    let phie = chars_of("PHIE");
    if crate::text::chars_eq(m.as_slice(), phie.as_slice()) {
        String::from_str("PORO")
    } else {
        mnemonic
    }
}

/// Canonicalise a facade property name: the raw name through petekio's
/// mnemonic aliases, then `PHIE` renamed to the `PORO` cube.
pub fn canonical_property_name(name: &str) -> (s: String)
    ensures
        s@ == cube_name_spec(canonical_mnemonic_spec(name@)),
{
    let m = canonical_mnemonic(name);
    cube_name(m)
}

/// An upscale step needs its positioned samples to land on the model grid:
/// it is refused when samples were positioned (`n_samples > 0`) but no well
/// maps onto the framework (`n_registered == 0`).
pub fn check_wells_mapped(mnemonic: &str, n_samples: usize, n_registered: usize) -> (r: Result<
    (),
    SrsError,
>)
    ensures
        r is Ok <==> !(n_samples > 0 && n_registered == 0),
        r is Err ==> is_invalid_input(
            r->Err_0,
            "property '"@ + mnemonic@ + "': "@ + decimal(n_samples as nat)
                + " log samples positioned, but no well maps onto the model grid — the well (x, y) fall outside the framework's areal extent. Check that the wells and horizons share a georeference/CRS (the model grid is area-scaled onto the horizon lattice; wells at a foreign CRS condition 0 cells)."@,
        ),
{
    if n_samples > 0 && n_registered == 0 {
        let mut s = String::from_str("property '");
        s.append(mnemonic);
        s.append("': ");
        push_decimal(&mut s, n_samples);
        s.append(
            " log samples positioned, but no well maps onto the model grid — the well (x, y) fall outside the framework's areal extent. Check that the wells and horizons share a georeference/CRS (the model grid is area-scaled onto the horizon lattice; wells at a foreign CRS condition 0 cells).",
        );
        Err(SrsError::InvalidInput(s))
    } else {
        Ok(())
    }
}

/// The refusal of an upscale QC for a property with no upscale step,
/// whole-model or in the named zone.
pub fn no_upscale_step(mnemonic: &str, zone: Option<&str>) -> (e: SrsError)
    ensures
        is_invalid_input(
            e,
            match zone {
                Some(z) => "property '"@ + mnemonic@ + "' has no upscale step in zone '"@ + z@
                    + "'"@,
                None => "property '"@ + mnemonic@ + "' has no upscale step"@,
            },
        ),
{
    let mut s = String::from_str("property '");
    s.append(mnemonic);
    match zone {
        Some(z) => {
            s.append("' has no upscale step in zone '");
            s.append(z);
            s.append("'");
        },
        None => {
            s.append("' has no upscale step");
        },
    }
    SrsError::InvalidInput(s)
}

} // verus!
