//! Well identity rules for an ingest walk: the well id a survey/log file
//! names (its stem without a trailing bore token), the separator/case-folded
//! key wells are matched by, which files belong to which well, where a core
//! LAS file merges, and which bores a well selection keeps.

use vstd::prelude::*;
use crate::classify::FormatKind;
use crate::order::{sorted_set, strictly_sorted, string_views, to_strings, views};
use crate::paths::{ext_of, file_stem, stem_spec, ext_spec};
use crate::text::{
    all_digits, chars_eq, chars_eq_str, chars_of, contains, contains_str, eq_ignore_case,
    eq_ignore_case_chars, first_index, first_index_of, is_alpha, is_alpha_char, is_digit_char,
    last_index, last_index_of, lower, lower_chars, lower_char, opt_chars, slice_chars,
    starts_with, starts_with_chars, string_of, trim, trim_chars, upper, upper_chars,
    lemma_trim_edges, lemma_trim_fixed, lemma_last_index_of,
};

verus! {

// ---------------------------------------------------------------------------
// Bore tokens and well ids
// ---------------------------------------------------------------------------

/// A Petrel bore/sidetrack token: a sidetrack `ST<n>` (any case, at least one
/// digit, at most four characters in all), or a bore letter `A`..`Z` (any case)
/// optionally with one or two trailing digits (`A`, `B`, `A1`, `B12`).
pub open spec fn bore_token_spec(t: Seq<char>) -> bool {
    &&& 1 <= t.len() <= 4
    &&& if starts_with(upper(t), "ST"@) {
        t.len() > 2 && all_digits(t.skip(2))
    } else {
        t.len() <= 3 && is_alpha(t[0]) && all_digits(t.skip(1))
    }
}

/// The well id a survey/log stem names: the stem without a trailing
/// `_`-delimited bore token (`99_9-1_ST2` → `99_9-1`), else the stem itself.
pub open spec fn well_id_spec(stem: Seq<char>) -> Seq<char> {
    match last_index_of(stem, '_') {
        Some(i) => if i > 0 && bore_token_spec(stem.skip(i + 1)) {
            stem.take(i)
        } else {
            stem
        },
        None => stem,
    }
}

fn all_digits_from(t: &[char], from: usize) -> (r: bool)
    requires
        from <= t.len(),
    ensures
        r == all_digits(t@.skip(from as int)),
{
    let mut k: usize = from;
    while k < t.len()
        invariant
            from <= k <= t.len(),
            forall|j: int| from <= j < k ==> crate::text::is_digit(#[trigger] t@[j]),
        decreases t.len() - k,
    {
        if !is_digit_char(t[k]) {
            assert(t@.skip(from as int)[k - from] == t@[k as int]);
            return false;
        }
        k += 1;
    }
    assert forall|j: int| 0 <= j < t@.skip(from as int).len() implies crate::text::is_digit(
        #[trigger] t@.skip(from as int)[j],
    ) by {
        assert(t@.skip(from as int)[j] == t@[from + j]);
    }
    true
}

fn bore_token_chars(t: &[char]) -> (r: bool)
    ensures
        r == bore_token_spec(t@),
{
    if t.len() == 0 || t.len() > 4 {
        return false;
    }
    let up = upper_chars(t);
    let st = chars_of("ST");
    if starts_with_chars(up.as_slice(), st.as_slice()) {
        return t.len() > 2 && all_digits_from(t, 2);
    }
    t.len() <= 3 && is_alpha_char(t[0]) && all_digits_from(t, 1)
}

/// Whether `t` is a Petrel bore/sidetrack token (`ST2`, `A`, `B1`, …). A token
/// is ASCII, so its character count is its byte length.
pub fn is_bore_token(t: &str) -> (r: bool)
    ensures
        r == bore_token_spec(t@),
{
    let cs = chars_of(t);
    bore_token_chars(cs.as_slice())
}

fn well_id_chars(stem: &[char]) -> (v: Vec<char>)
    ensures
        v@ == well_id_spec(stem@),
{
    assert(stem@.subrange(0, stem@.len() as int) =~= stem@);
    match last_index(stem, '_') {
        Some(i) => {
            let last = slice_chars(stem, i + 1, stem.len());
            assert(last@ =~= stem@.skip(i + 1));
            if i > 0 && bore_token_chars(last.as_slice()) {
                let head = slice_chars(stem, 0, i);
                assert(head@ =~= stem@.take(i as int));
                head
            } else {
                slice_chars(stem, 0, stem.len())
            }
        },
        None => slice_chars(stem, 0, stem.len()),
    }
}

/// The well id of a survey/log filename stem: the stem with a trailing
/// underscore-delimited bore token removed (`99_9-1_ST2` → `99_9-1`,
/// `99_9-1_A` → `99_9-1`) so every bore of a well shares one id; a stem with no
/// bore token (`A1`, `99_9-1`) is returned unchanged.
pub fn well_id_from_stem(stem: &str) -> (s: String)
    ensures
        s@ == well_id_spec(stem@),
{
    let cs = chars_of(stem);
    let v = well_id_chars(cs.as_slice());
    string_of(v.as_slice())
}

proof fn lemma_last_index_at(s: Seq<char>, c: char, k: int)
    requires
        0 <= k < s.len(),
        s[k] == c,
        forall|j: int| k < j < s.len() ==> s[j] != c,
    ensures
        last_index_of(s, c) == Some(k),
    decreases s.len(),
{
    if k < s.len() - 1 {
        lemma_last_index_at(s.drop_last(), c, k);
    }
}

/// Every bore of a well folds to the well's id: a non-empty id followed by
/// `_` and a bore token names that id.
pub proof fn law_bores_fold_to_well_id(id: Seq<char>, token: Seq<char>)
    requires
        id.len() > 0,
        bore_token_spec(token),
    ensures
        well_id_spec(id + seq!['_'] + token) == id,
{
    let s = id + seq!['_'] + token;
    reveal_strlit("ST");
    assert forall|j: int| id.len() < j < s.len() implies s[j] != '_' by {
        let t = j - id.len() - 1;
        assert(s[j] == token[t]);
        if starts_with(upper(token), "ST"@) {
            if t >= 2 {
                assert(token.skip(2)[t - 2] == token[t]);
            } else {
                assert(upper(token)[t] == "ST"@[t]);
            }
        } else if t >= 1 {
            assert(token.skip(1)[t - 1] == token[t]);
        }
    }
    lemma_last_index_at(s, '_', id.len() as int);
    assert(s.skip(id.len() as int + 1) =~= token);
    assert(s.take(id.len() as int) =~= id);
}

// ---------------------------------------------------------------------------
// Normalized keys and file ownership
// ---------------------------------------------------------------------------

/// `/`, `-` and space fold to `_` in a normalized key.
pub open spec fn fold_sep(c: char) -> char {
    if c == '/' || c == '-' || c == ' ' {
        '_'
    } else {
        c
    }
}

/// The separator/case-folded key of an id: trimmed, ASCII lower-cased, with
/// `/`, `-` and space folded to `_`.
pub open spec fn norm_key_spec(s: Seq<char>) -> Seq<char> {
    lower(trim(s)).map_values(|c: char| fold_sep(c))
}

fn norm_key_chars(s: &[char]) -> (v: Vec<char>)
    ensures
        v@ == norm_key_spec(s@),
{
    let t = trim_chars(s);
    let l = lower_chars(t.as_slice());
    let mut v: Vec<char> = Vec::new();
    let mut i: usize = 0;
    while i < l.len()
        invariant
            i <= l.len(),
            l@ == lower(trim(s@)),
            v@ == l@.take(i as int).map_values(|c: char| fold_sep(c)),
        decreases l.len() - i,
    {
        let c = l[i];
        let f = if c == '/' || c == '-' || c == ' ' {
            '_'
        } else {
            c
        };
        v.push(f);
        i += 1;
        assert(v@ =~= l@.take(i as int).map_values(|c: char| fold_sep(c)));
    }
    assert(l@.take(l.len() as int) =~= l@);
    v
}

/// The separator/case-folded key of an id (trimmed, lower-cased, with `/`, `-`
/// and space folded to `_`).
pub fn norm_key(s: &str) -> (r: String)
    ensures
        r@ == norm_key_spec(s@),
{
    let cs = chars_of(s);
    let v = norm_key_chars(cs.as_slice());
    string_of(v.as_slice())
}

/// The file called `name` belongs to well `id`: its normalized stem equals the
/// id's key, or extends it at an `_` boundary (`99_9-1_A_core` → `99_9-1`).
pub open spec fn belongs_spec(name: Option<Seq<char>>, id: Seq<char>) -> bool {
    let norm = norm_key_spec(stem_spec(name));
    let nid = norm_key_spec(id);
    norm == nid || (starts_with(norm, nid) && norm.len() > nid.len() && norm[nid.len() as int]
        == '_')
}

/// Whether the file called `name` names the well `id` (see [`belongs_spec`]).
pub fn file_belongs_to(name: Option<&str>, id: &str) -> (r: bool)
    ensures
        r == belongs_spec(opt_chars(name), id@),
{
    let st = file_stem(name);
    let sc = chars_of(st.as_str());
    let norm = norm_key_chars(sc.as_slice());
    let ic = chars_of(id);
    let nid = norm_key_chars(ic.as_slice());
    if chars_eq(norm.as_slice(), nid.as_slice()) {
        return true;
    }
    starts_with_chars(norm.as_slice(), nid.as_slice()) && norm.len() > nid.len()
        && norm[nid.len()] == '_'
}

/// Normalizing a key twice changes nothing: a key is its own key.
pub proof fn law_norm_key_idempotent(s: Seq<char>)
    ensures
        norm_key_spec(norm_key_spec(s)) == norm_key_spec(s),
{
    let t = trim(s);
    let n = norm_key_spec(s);
    lemma_trim_edges(s);
    if n.len() > 0 {
        assert(n[0] == fold_sep(lower_char(t[0])));
        assert(n.last() == fold_sep(lower_char(t.last())));
    }
    lemma_trim_fixed(n);
    assert(norm_key_spec(n) =~= n);
}

} // verus!
verus! {

// ---------------------------------------------------------------------------
// Well discovery
// ---------------------------------------------------------------------------

/// The characters of an optional string.
pub open spec fn opt_string(o: Option<String>) -> Option<Seq<char>> {
    match o {
        Some(s) => Some(s@),
        None => None,
    }
}

/// The well ids named by the files of `kind`, in file order (with repeats).
pub open spec fn detected_ids(files: Seq<(Option<String>, FormatKind)>, kind: FormatKind) -> Seq<
    Seq<char>,
>
    decreases files.len(),
{
    if files.len() == 0 {
        seq![]
    } else {
        let rest = detected_ids(files.drop_last(), kind);
        if files.last().1 == kind {
            rest.push(well_id_spec(stem_spec(opt_string(files.last().0))))
        } else {
            rest
        }
    }
}

/// Whether some element of `d` equals `x` ignoring ASCII case.
pub open spec fn has_ci(d: Seq<Seq<char>>, x: Seq<char>) -> bool {
    exists|j: int| 0 <= j < d.len() && eq_ignore_case(#[trigger] d[j], x)
}

/// `s` with every element dropped that equals an earlier one ignoring ASCII
/// case (the first spelling is kept).
pub open spec fn dedup_ci(s: Seq<Seq<char>>) -> Seq<Seq<char>>
    decreases s.len(),
{
    if s.len() == 0 {
        seq![]
    } else {
        let d = dedup_ci(s.drop_last());
        if has_ci(d, s.last()) {
            d
        } else {
            d.push(s.last())
        }
    }
}

/// The sorted, case-insensitively deduplicated well ids of `files` of `kind`.
pub open spec fn ids_spec(files: Seq<(Option<String>, FormatKind)>, kind: FormatKind) -> Seq<
    Seq<char>,
> {
    dedup_ci(detected_ids(files, kind))
}

proof fn lemma_dedup_ci(s: Seq<Seq<char>>)
    ensures
        forall|k: int| 0 <= k < s.len() ==> has_ci(dedup_ci(s), #[trigger] s[k]),
        forall|j: int| 0 <= j < dedup_ci(s).len() ==> s.contains(#[trigger] dedup_ci(s)[j]),
        forall|a: int, b: int|
            0 <= a < b < dedup_ci(s).len() ==> !eq_ignore_case(
                #[trigger] dedup_ci(s)[a],
                #[trigger] dedup_ci(s)[b],
            ),
    decreases s.len(),
{
    if s.len() > 0 {
        let p = s.drop_last();
        lemma_dedup_ci(p);
        let d = dedup_ci(p);
        let x = s.last();
        assert forall|k: int| 0 <= k < s.len() implies has_ci(dedup_ci(s), #[trigger] s[k]) by {
            if k < s.len() - 1 {
                assert(p[k] == s[k]);
                let j = choose|j: int| 0 <= j < d.len() && eq_ignore_case(d[j], p[k]);
                assert(dedup_ci(s)[j] == d[j]);
            } else if !has_ci(d, x) {
                assert(dedup_ci(s)[d.len() as int] == x);
            }
        }
        assert forall|j: int| 0 <= j < dedup_ci(s).len() implies s.contains(
            #[trigger] dedup_ci(s)[j],
        ) by {
            if j < d.len() {
                assert(p.contains(d[j]));
                let k = choose|k: int| 0 <= k < p.len() && p[k] == d[j];
                assert(s[k] == d[j]);
            } else {
                assert(s[s.len() - 1] == x);
            }
        }
        assert forall|a: int, b: int|
            0 <= a < b < dedup_ci(s).len() implies !eq_ignore_case(
            #[trigger] dedup_ci(s)[a],
            #[trigger] dedup_ci(s)[b],
        ) by {
            if b == d.len() && !has_ci(d, x) {
                assert(dedup_ci(s)[a] == d[a]);
                assert(eq_ignore_case(d[a], x) ==> has_ci(d, x));
            }
        }
    }
}

fn opt_str(o: &Option<String>) -> (r: Option<&str>)
    ensures
        opt_chars(r) == opt_string(*o),
{
    match o {
        Some(s) => Some(s.as_str()),
        None => None,
    }
}

fn has_ci_exec(d: &Vec<Vec<char>>, x: &[char]) -> (r: bool)
    ensures
        r == has_ci(views(d@), x@),
{
    let mut j: usize = 0;
    while j < d.len()
        invariant
            j <= d.len(),
            forall|k: int| 0 <= k < j ==> !eq_ignore_case(#[trigger] views(d@)[k], x@),
        decreases d.len() - j,
    {
        if eq_ignore_case_chars(d[j].as_slice(), x) {
            assert(eq_ignore_case(views(d@)[j as int], x@));
            return true;
        }
        j += 1;
    }
    false
}

/// The deduped, sorted well ids named by every `files` entry of `kind`: each
/// entry is a file name (or `None`) with its detected format; its id is its
/// stem without a trailing bore token. Ids that differ only in ASCII case
/// collapse to the first spelling met, so `99/9-1` variants fold together.
pub fn ids_from_detected_stems(files: &[(Option<String>, FormatKind)], kind: FormatKind) -> (r:
    Vec<String>)
    ensures
        strictly_sorted(string_views(r@)),
        forall|y: Seq<char>| string_views(r@).contains(y) <==> ids_spec(files@, kind).contains(y),
        forall|k: int|
            0 <= k < files@.len() && (#[trigger] files@[k]).1 == kind ==> has_ci(
                string_views(r@),
                well_id_spec(stem_spec(opt_string(files@[k].0))),
            ),
        forall|a: int, b: int|
            0 <= a < r@.len() && 0 <= b < r@.len() && a != b ==> !eq_ignore_case(
                #[trigger] string_views(r@)[a],
                #[trigger] string_views(r@)[b],
            ),
{
    let mut ids: Vec<Vec<char>> = Vec::new();
    let mut i: usize = 0;
    while i < files.len()
        invariant
            i <= files.len(),
            views(ids@) == dedup_ci(detected_ids(files@.take(i as int), kind)),
        decreases files.len() - i,
    {
        let ghost before = views(ids@);
        let ghost t0 = files@.take(i as int);
        let ghost t1 = files@.take(i + 1);
        proof {
            assert(t1.drop_last() =~= t0);
            assert(t1.last() == files@[i as int]);
        }
        if files[i].1 == kind {
            let st = file_stem(opt_str(&files[i].0));
            let sc = chars_of(st.as_str());
            let id = well_id_chars(sc.as_slice());
            let ghost s1 = detected_ids(t1, kind);
            proof {
                assert(s1 == detected_ids(t0, kind).push(id@));
                assert(s1.drop_last() =~= detected_ids(t0, kind));
                assert(s1.last() == id@);
            }
            if !has_ci_exec(&ids, id.as_slice()) {
                ids.push(id);
                assert(views(ids@) =~= before.push(id@));
            }
        } else {
            assert(detected_ids(t1, kind) == detected_ids(t0, kind));
        }
        i += 1;
    }
    assert(files@.take(files.len() as int) =~= files@);
    let sorted = sorted_set(&ids);
    let r = to_strings(&sorted);
    proof {
        let d = ids_spec(files@, kind);
        let rv = string_views(r@);
        lemma_dedup_ci(detected_ids(files@, kind));
        lemma_detected_ids(files@, kind);
        assert forall|k: int|
            0 <= k < files@.len() && (#[trigger] files@[k]).1 == kind implies has_ci(
            rv,
            well_id_spec(stem_spec(opt_string(files@[k].0))),
        ) by {
            let x = well_id_spec(stem_spec(opt_string(files@[k].0)));
            assert(detected_ids(files@, kind).contains(x));
            let m = choose|m: int| 0 <= m < detected_ids(files@, kind).len() && detected_ids(files@, kind)[m] == x;
            assert(has_ci(d, detected_ids(files@, kind)[m]));
            let j = choose|j: int| 0 <= j < d.len() && eq_ignore_case(d[j], x);
            assert(d.contains(d[j]));
            assert(rv.contains(d[j]));
            let q = choose|q: int| 0 <= q < rv.len() && rv[q] == d[j];
        }
        assert forall|a: int, b: int|
            0 <= a < r@.len() && 0 <= b < r@.len() && a != b implies !eq_ignore_case(
            #[trigger] rv[a],
            #[trigger] rv[b],
        ) by {
            assert(d.contains(rv[a]));
            assert(d.contains(rv[b]));
            let ia = choose|ia: int| 0 <= ia < d.len() && d[ia] == rv[a];
            let ib = choose|ib: int| 0 <= ib < d.len() && d[ib] == rv[b];
            crate::order::lemma_sorted_distinct(rv);
            if ia < ib {
            } else if ib < ia {
            } else {
            }
        }
    }
    r
}

proof fn lemma_detected_ids(files: Seq<(Option<String>, FormatKind)>, kind: FormatKind)
    ensures
        forall|k: int|
            0 <= k < files.len() && (#[trigger] files[k]).1 == kind ==> detected_ids(
                files,
                kind,
            ).contains(well_id_spec(stem_spec(opt_string(files[k].0)))),
    decreases files.len(),
{
    if files.len() > 0 {
        let p = files.drop_last();
        lemma_detected_ids(p, kind);
        let dp = detected_ids(p, kind);
        assert forall|k: int|
            0 <= k < files.len() && (#[trigger] files[k]).1 == kind implies detected_ids(
            files,
            kind,
        ).contains(well_id_spec(stem_spec(opt_string(files[k].0)))) by {
            let x = well_id_spec(stem_spec(opt_string(files[k].0)));
            if k < files.len() - 1 {
                assert(p[k] == files[k]);
                let m = choose|m: int| 0 <= m < dp.len() && dp[m] == x;
                assert(detected_ids(files, kind)[m] == x);
            } else {
                assert(detected_ids(files, kind)[dp.len() as int] == x);
            }
        }
    }
}

/// The well ids of a project tree: from the **wellpath** files first (surveys
/// define wells); when the tree has no surveys, from the LAS files.
pub fn discover_well_ids(files: &[(Option<String>, FormatKind)]) -> (r: Vec<String>)
    ensures
        forall|y: Seq<char>|
            string_views(r@).contains(y) <==> (if ids_spec(files@, FormatKind::WellPath).len() > 0 {
                ids_spec(files@, FormatKind::WellPath)
            } else {
                ids_spec(files@, FormatKind::Las)
            }).contains(y),
        strictly_sorted(string_views(r@)),
{
    let ids = ids_from_detected_stems(files, FormatKind::WellPath);
    if ids.len() == 0 {
        proof {
            let d = ids_spec(files@, FormatKind::WellPath);
            if d.len() > 0 {
                assert(d.contains(d[0]));
                assert(string_views(ids@).contains(d[0]));
            }
        }
        ids_from_detected_stems(files, FormatKind::Las)
    } else {
        proof {
            let rv = string_views(ids@);
            assert(rv.contains(rv[0]));
        }
        ids
    }
}

} // verus!
verus! {

// ---------------------------------------------------------------------------
// Core LAS merges
// ---------------------------------------------------------------------------

/// A LAS core file: extension `las` and a stem mentioning `core` (any case).
pub open spec fn core_las_spec(name: Option<Seq<char>>) -> bool {
    ext_spec(name) == "las"@ && contains(lower(stem_spec(name)), "core"@)
}

/// The stem and lower-cased extension of `t + "." + e` when `t` holds no dot
/// and `e` holds no dot.
proof fn lemma_name_parts(t: Seq<char>, e: Seq<char>)
    requires
        t.len() > 0,
        forall|i: int| 0 <= i < t.len() ==> t[i] != '.',
        forall|i: int| 0 <= i < e.len() ==> e[i] != '.',
    ensures
        stem_spec(Some(t + seq!['.'] + e)) == t,
        ext_spec(Some(t + seq!['.'] + e)) == lower(e),
{
    let n = t + seq!['.'] + e;
    lemma_last_index_of(n, '.');
    assert(n[t.len() as int] == '.');
    assert forall|j: int| t.len() < j < n.len() implies n[j] != '.' by {
        assert(n[j] == e[j - t.len() - 1]);
    }
    assert forall|j: int| 0 <= j < t.len() implies n[j] != '.' by {
        assert(n[j] == t[j]);
    }
    reveal_strlit("..");
    assert(n[0] == t[0]);
    assert(".."@[0] == '.');
    assert(n != ".."@);
    assert(last_index_of(n, '.') == Some(t.len() as int));
    assert(n.take(t.len() as int) =~= t);
    assert(n.skip((t.len() + 1) as int) =~= e);
}

/// A LAS file is a core file exactly when its stem mentions `core` (any case,
/// anywhere: `A1-core`, `A1 core`, `99_9-1_A_CORE`), whatever the case of
/// its `.las` extension; a file with another extension is never one.
pub proof fn law_core_las_is_a_las_mentioning_core(t: Seq<char>)
    requires
        t.len() > 0,
        forall|i: int| 0 <= i < t.len() ==> t[i] != '.',
    ensures
        core_las_spec(Some(t + ".las"@)) <==> contains(lower(t), "core"@),
        core_las_spec(Some(t + ".LAS"@)) <==> contains(lower(t), "core"@),
        !core_las_spec(Some(t + ".dat"@)),
{
    reveal_strlit(".las");
    reveal_strlit(".LAS");
    reveal_strlit(".dat");
    reveal_strlit("las");
    reveal_strlit("dat");
    let l = seq!['l', 'a', 's'];
    let big = seq!['L', 'A', 'S'];
    let d = seq!['d', 'a', 't'];
    assert(".las"@ =~= seq!['.'] + l);
    assert(".LAS"@ =~= seq!['.'] + big);
    assert(".dat"@ =~= seq!['.'] + d);
    assert(t + ".las"@ =~= t + seq!['.'] + l);
    assert(t + ".LAS"@ =~= t + seq!['.'] + big);
    assert(t + ".dat"@ =~= t + seq!['.'] + d);
    lemma_name_parts(t, l);
    lemma_name_parts(t, big);
    lemma_name_parts(t, d);
    assert(lower(l) =~= "las"@);
    assert(lower(big) =~= "las"@);
    assert(lower(d) =~= "dat"@);
    assert(lower(d) != "las"@) by {
        assert(lower(d)[0] != "las"@[0]);
    }
}

/// Whether the file called `name` is a LAS core file (see [`core_las_spec`]).
pub fn is_core_las(name: Option<&str>) -> (r: bool)
    ensures
        r == core_las_spec(opt_chars(name)),
{
    let e = ext_of(name);
    let ec = chars_of(e.as_str());
    if !chars_eq_str(ec.as_slice(), "las") {
        return false;
    }
    let st = file_stem(name);
    let sc = chars_of(st.as_str());
    let l = lower_chars(sc.as_slice());
    contains_str(l.as_slice(), "core")
}

/// The first of `ids` that the file called `name` belongs to, by index.
pub fn owning_well(name: Option<&str>, ids: &[String]) -> (r: Option<usize>)
    ensures
        match r {
            Some(k) => k < ids.len() && belongs_spec(opt_chars(name), ids@[k as int]@) && forall|
                j: int,
            | 0 <= j < k ==> !belongs_spec(opt_chars(name), #[trigger] ids@[j]@),
            None => forall|j: int|
                0 <= j < ids.len() ==> !belongs_spec(opt_chars(name), #[trigger] ids@[j]@),
        },
{
    let mut k: usize = 0;
    while k < ids.len()
        invariant
            k <= ids.len(),
            forall|j: int| 0 <= j < k ==> !belongs_spec(opt_chars(name), #[trigger] ids@[j]@),
        decreases ids.len() - k,
    {
        if file_belongs_to(name, ids[k].as_str()) {
            return Some(k);
        }
        k += 1;
    }
    None
}

/// The separators a stem is cut into tokens at.
pub open spec fn is_stem_sep(c: char) -> bool {
    c == '_' || c == '-' || c == '.' || c == ' '
}

/// `s` cut at every separator (`str::split` on `['_', '-', '.', ' ']`): empty
/// pieces are kept, and the empty text gives one empty piece.
pub open spec fn split_seps(s: Seq<char>) -> Seq<Seq<char>>
    decreases s.len(),
{
    if s.len() == 0 {
        seq![seq![]]
    } else {
        let t = split_seps(s.drop_last());
        if is_stem_sep(s.last()) {
            t.push(seq![])
        } else {
            t.update(t.len() - 1, t.last().push(s.last()))
        }
    }
}

proof fn lemma_split_seps_len(s: Seq<char>)
    ensures
        split_seps(s).len() >= 1,
    decreases s.len(),
{
    if s.len() > 0 {
        lemma_split_seps_len(s.drop_last());
    }
}

fn split_seps_chars(s: &[char]) -> (r: Vec<Vec<char>>)
    ensures
        views(r@) == split_seps(s@),
{
    let mut out: Vec<Vec<char>> = Vec::new();
    let mut cur: Vec<char> = Vec::new();
    let mut i: usize = 0;
    assert(s@.take(0) =~= Seq::<char>::empty());
    assert(views(out@).push(cur@) =~= seq![seq![]]);
    while i < s.len()
        invariant
            i <= s.len(),
            views(out@).push(cur@) == split_seps(s@.take(i as int)),
        decreases s.len() - i,
    {
        let c = s[i];
        let ghost prev = split_seps(s@.take(i as int));
        proof {
            assert(s@.take(i + 1).drop_last() =~= s@.take(i as int));
            lemma_split_seps_len(s@.take(i as int));
        }
        if c == '_' || c == '-' || c == '.' || c == ' ' {
            let done = slice_chars(cur.as_slice(), 0, cur.len());
            assert(done@ =~= cur@);
            out.push(done);
            cur = Vec::new();
            assert(views(out@).push(cur@) =~= prev.push(seq![]));
        } else {
            let ghost oldout = views(out@);
            cur.push(c);
            assert(views(out@).push(cur@) =~= prev.update(prev.len() - 1, prev.last().push(c)));
        }
        i += 1;
    }
    assert(s@.take(s.len() as int) =~= s@);
    let ghost before = views(out@);
    out.push(cur);
    assert(views(out@) =~= before.push(out@.last()@));
    out
}

/// The pieces of a stem cut at `_`, `-`, `.` and space (empty pieces kept).
pub fn split_stem_tokens(stem: &str) -> (r: Vec<String>)
    ensures
        string_views(r@) == split_seps(stem@),
{
    let cs = chars_of(stem);
    let v = split_seps_chars(cs.as_slice());
    to_strings(&v)
}

/// Whether bore label `l` names one of `tokens`: it is non-empty and equals a
/// token ignoring ASCII case.
pub open spec fn label_matches(l: Seq<char>, tokens: Seq<Seq<char>>) -> bool {
    l.len() > 0 && exists|t: int| 0 <= t < tokens.len() && eq_ignore_case(#[trigger] tokens[t], l)
}

/// The first of `bores` (a well's bore labels, in order) that names a token of
/// the stem, else the empty label (the main bore).
pub open spec fn merged_label_spec(stem: Seq<char>, bores: Seq<Seq<char>>) -> Seq<char>
    decreases bores.len(),
{
    if bores.len() == 0 {
        seq![]
    } else if label_matches(bores[0], split_seps(stem)) {
        bores[0]
    } else {
        merged_label_spec(stem, bores.drop_first())
    }
}

/// The bore a core file with stem `stem` merges into, given its well's bore
/// labels in order: the first non-empty label equal (ignoring ASCII case) to a
/// `_`/`-`/`.`/space-delimited token of the stem, else `""` (the main bore — a
/// single-bore well always merges into main).
pub fn merged_bore_label(stem: &str, bores: &[String]) -> (r: String)
    ensures
        r@ == merged_label_spec(stem@, string_views(bores@)),
{
    let cs = chars_of(stem);
    let toks = split_seps_chars(cs.as_slice());
    let ghost bv = string_views(bores@);
    let mut k: usize = 0;
    assert(bv.skip(0) =~= bv);
    while k < bores.len()
        invariant
            k <= bores.len(),
            bv == string_views(bores@),
            bv.len() == bores@.len(),
            views(toks@) == split_seps(stem@),
            merged_label_spec(stem@, bv) == merged_label_spec(stem@, bv.skip(k as int)),
        decreases bores.len() - k,
    {
        let lc = chars_of(bores[k].as_str());
        let mut found = false;
        if lc.len() > 0 {
            let mut t: usize = 0;
            while t < toks.len() && !found
                invariant
                    t <= toks.len(),
                    lc@ == bv[k as int],
                    views(toks@) == split_seps(stem@),
                    found ==> exists|u: int|
                        0 <= u < toks@.len() && eq_ignore_case(#[trigger] views(toks@)[u], lc@),
                    !found ==> forall|u: int|
                        0 <= u < t ==> !eq_ignore_case(#[trigger] views(toks@)[u], lc@),
                decreases toks.len() - t,
            {
                if eq_ignore_case_chars(toks[t].as_slice(), lc.as_slice()) {
                    assert(eq_ignore_case(views(toks@)[t as int], lc@));
                    found = true;
                    t = toks.len();
                } else {
                    t += 1;
                }
            }
            assert(found == label_matches(lc@, split_seps(stem@)));
        }
        assert(bv.skip(k as int)[0] == bv[k as int]);
        if found {
            return string_of(lc.as_slice());
        }
        assert(bv.skip(k as int).drop_first() =~= bv.skip(k + 1));
        k += 1;
    }
    proof {
        reveal_strlit("");
    }
    String::new()
}

// ---------------------------------------------------------------------------
// Well selections
// ---------------------------------------------------------------------------

/// The texts of an optional list of strings.
pub open spec fn opt_list(o: Option<&[String]>) -> Option<Seq<Seq<char>>> {
    match o {
        Some(ws) => Some(string_views(ws@)),
        None => None,
    }
}

/// A pick from bore `id` is kept by the selection `wells`: no selection (or an
/// empty one) keeps all; otherwise the bore id is listed, or a listed well id
/// followed by a space prefixes it (`99/9-1` keeps `99/9-1 A`).
pub open spec fn keeps_spec(id: Seq<char>, wells: Option<Seq<Seq<char>>>) -> bool {
    match wells {
        None => true,
        Some(ws) => ws.len() == 0 || exists|j: int|
            #![trigger ws[j]]
            0 <= j < ws.len() && (id == ws[j] || starts_with(id, ws[j] + " "@)),
    }
}

/// Whether a tops pick from bore `id` is kept under the selection `wells`.
pub fn pick_keeps(id: &str, wells: Option<&[String]>) -> (r: bool)
    ensures
        r == keeps_spec(id@, opt_list(wells)),
{
    match wells {
        None => true,
        Some(ws) => {
            if ws.len() == 0 {
                return true;
            }
            let ic = chars_of(id);
            let ghost wv = string_views(ws@);
            let mut j: usize = 0;
            while j < ws.len()
                invariant
                    j <= ws.len(),
                    ic@ == id@,
                    wv == string_views(ws@),
                    opt_list(wells) == Some(wv),
                    forall|u: int|
                        0 <= u < j ==> !(id@ == #[trigger] wv[u] || starts_with(id@, wv[u] + " "@)),
                decreases ws.len() - j,
            {
                let mut w = chars_of(ws[j].as_str());
                assert(wv[j as int] == w@);
                if chars_eq(ic.as_slice(), w.as_slice()) {
                    assert(id@ == wv[j as int]);
                    assert(opt_list(wells) == Some(wv));
                    return true;
                }
                w.push(' ');
                proof {
                    reveal_strlit(" ");
                    assert(w@ =~= wv[j as int] + " "@);
                }
                if starts_with_chars(ic.as_slice(), w.as_slice()) {
                    assert(starts_with(id@, wv[j as int] + " "@));
                    assert(opt_list(wells) == Some(wv));
                    return true;
                }
                j += 1;
            }
            false
        },
    }
}

/// The parent well of a bore id: the text before its first space (the whole
/// id when it has none).
pub open spec fn parent_id_spec(id: Seq<char>) -> Seq<char> {
    match first_index_of(id, ' ') {
        Some(i) => id.take(i),
        None => id,
    }
}

fn parent_id_chars(id: &[char]) -> (v: Vec<char>)
    ensures
        v@ == parent_id_spec(id@),
{
    match first_index(id, ' ') {
        Some(i) => {
            let v = slice_chars(id, 0, i);
            assert(v@ =~= id@.take(i as int));
            v
        },
        None => {
            let v = slice_chars(id, 0, id.len());
            assert(v@ =~= id@);
            v
        },
    }
}

/// Bore `id` is selected by a crossplot selection `sel`: no selection selects
/// all; otherwise the bore id or its parent well id is listed.
pub open spec fn selects_spec(id: Seq<char>, sel: Option<Seq<Seq<char>>>) -> bool {
    match sel {
        None => true,
        Some(ss) => listed_or_parent(id, ss),
    }
}

/// Bore `id` or its parent well is one of `ss`.
pub open spec fn listed_or_parent(id: Seq<char>, ss: Seq<Seq<char>>) -> bool {
    exists|j: int| #![trigger ss[j]] 0 <= j < ss.len() && (ss[j] == id || ss[j] == parent_id_spec(id))
}

/// Whether the crossplot selection `sel` takes bore `id`.
pub fn crossplot_selects(id: &str, sel: Option<&[String]>) -> (r: bool)
    ensures
        r == selects_spec(id@, opt_list(sel)),
{
    match sel {
        None => true,
        Some(ss) => {
            let ic = chars_of(id);
            let parent = parent_id_chars(ic.as_slice());
            let ghost sv = string_views(ss@);
            let mut j: usize = 0;
            while j < ss.len()
                invariant
                    j <= ss.len(),
                    ic@ == id@,
                    parent@ == parent_id_spec(id@),
                    sv == string_views(ss@),
                    opt_list(sel) == Some(sv),
                    forall|u: int|
                        0 <= u < j ==> !(#[trigger] sv[u] == id@ || sv[u] == parent_id_spec(id@)),
                decreases ss.len() - j,
            {
                let s = chars_of(ss[j].as_str());
                assert(sv[j as int] == s@);
                if chars_eq(s.as_slice(), ic.as_slice()) || chars_eq(
                    s.as_slice(),
                    parent.as_slice(),
                ) {
                    assert(sv[j as int] == s@);
                    assert(sv[j as int] == id@ || sv[j as int] == parent_id_spec(id@));
                    assert(opt_list(sel) == Some(sv));
                    assert(0 <= j < sv.len());
                    assert(listed_or_parent(id@, sv));
                    return true;
                }
                j += 1;
            }
            false
        },
    }
}

/// Whether a tie residual recorded for well `tie_well` belongs to bore
/// `bore_id`: the bore's own id, or its parent well's id.
pub fn tie_matches_bore(tie_well: &str, bore_id: &str) -> (r: bool)
    ensures
        r == (tie_well@ == bore_id@ || tie_well@ == parent_id_spec(bore_id@)),
{
    let t = chars_of(tie_well);
    let b = chars_of(bore_id);
    let p = parent_id_chars(b.as_slice());
    chars_eq(t.as_slice(), b.as_slice()) || chars_eq(t.as_slice(), p.as_slice())
}

/// Listing a well id selects every bore of that well (`"<well> <bore>"`), for
/// tops picks and — when the well id holds no space — for crossplots.
pub proof fn law_well_selects_its_bores(well: Seq<char>, bore: Seq<char>)
    ensures
        keeps_spec(well + " "@ + bore, Some(seq![well])),
        !contains(well, " "@) ==> selects_spec(well + " "@ + bore, Some(seq![well])),
{
    reveal_strlit(" ");
    let id = well + " "@ + bore;
    let ws = seq![well];
    assert(id.subrange(0, (well + " "@).len() as int) =~= well + " "@);
    assert(starts_with(id, ws[0] + " "@));
    if !contains(well, " "@) {
        assert forall|j: int| 0 <= j < well.len() implies well[j] != ' ' by {
            if well[j] == ' ' {
                assert(well.subrange(j, j + 1) =~= " "@);
                assert(crate::text::occurs_at(well, " "@, j));
            }
        }
        crate::text::lemma_first_index_of(id, ' ');
        assert(id[well.len() as int] == ' ');
        assert(first_index_of(id, ' ') == Some(well.len() as int));
        assert(id.take(well.len() as int) =~= well);
        assert(ws[0] == parent_id_spec(id));
    }
}

} // verus!
