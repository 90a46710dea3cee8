//! Petrel well-tops text: Latin-1 decoding, the quote-aware tokenizer, the
//! compatibility reader for `Type == "Other"` contact rows, and the sorted set
//! of tops/contact names an inventory lists.

use vstd::prelude::*;
use crate::order::{sorted_strings, strictly_sorted, string_views, to_strings, views};
use crate::text::{
    chars_eq, chars_of, eq_ignore_case, eq_ignore_case_chars, is_ws, is_ws_char, lower,
    law_trim_ignores_trailing_cr, lower_chars, slice_chars, string_of, trim, trim_chars,
};

verus! {

// ---------------------------------------------------------------------------
// Latin-1
// ---------------------------------------------------------------------------

/// Latin-1 decoding: every byte is the code point of the same value.
pub open spec fn latin1_spec(bytes: Seq<u8>) -> Seq<char> {
    bytes.map_values(|b: u8| b as char)
}

/// Decode Latin-1 bytes (each byte becomes the character of that code point).
pub fn decode_latin1(bytes: &[u8]) -> (s: String)
    ensures
        s@ == latin1_spec(bytes@),
{
    let mut v: Vec<char> = Vec::new();
    let mut i: usize = 0;
    while i < bytes.len()
        invariant
            i <= bytes.len(),
            v@ == latin1_spec(bytes@.take(i as int)),
        decreases bytes.len() - i,
    {
        v.push(bytes[i] as char);
        i += 1;
        assert(v@ =~= latin1_spec(bytes@.take(i as int)));
    }
    assert(bytes@.take(bytes.len() as int) =~= bytes@);
    string_of(v.as_slice())
}

// ---------------------------------------------------------------------------
// Tokens
// ---------------------------------------------------------------------------

/// One tokenizer step: a `"` toggles quoting (and is dropped); whitespace
/// outside quotes ends the current token; anything else extends it.
pub open spec fn tok_step(st: (Seq<Seq<char>>, Seq<char>, bool), c: char) -> (
    Seq<Seq<char>>,
    Seq<char>,
    bool,
) {
    let (out, cur, quoted) = st;
    if c == '"' {
        (out, cur, !quoted)
    } else if is_ws(c) && !quoted {
        if cur.len() > 0 {
            (out.push(cur), seq![], quoted)
        } else {
            (out, cur, quoted)
        }
    } else {
        (out, cur.push(c), quoted)
    }
}

/// The tokenizer state after reading `s`: finished tokens, the open token,
/// and whether a quote is open.
pub open spec fn tok_scan(s: Seq<char>) -> (Seq<Seq<char>>, Seq<char>, bool)
    decreases s.len(),
{
    if s.len() == 0 {
        (seq![], seq![], false)
    } else {
        tok_step(tok_scan(s.drop_last()), s.last())
    }
}

/// The tokens of a Petrel tops line: whitespace-separated, with `"…"`
/// quoting whitespace into a token and the quote marks themselves dropped.
pub open spec fn petrel_tokens_spec(s: Seq<char>) -> Seq<Seq<char>> {
    let (out, cur, _q) = tok_scan(s);
    if cur.len() > 0 {
        out.push(cur)
    } else {
        out
    }
}

/// No token is empty and none holds a quote mark.
pub open spec fn clean_tokens(out: Seq<Seq<char>>) -> bool {
    forall|k: int|
        0 <= k < out.len() ==> (#[trigger] out[k]).len() > 0 && !out[k].contains('"')
}

proof fn lemma_tok_scan_clean(s: Seq<char>)
    ensures
        clean_tokens(tok_scan(s).0),
        !tok_scan(s).1.contains('"'),
    decreases s.len(),
{
    if s.len() > 0 {
        lemma_tok_scan_clean(s.drop_last());
        let (out, cur, q) = tok_scan(s.drop_last());
        let c = s.last();
        if !(c == '"') && !(is_ws(c) && !q) {
            assert forall|k: int| 0 <= k < cur.len() + 1 implies cur.push(c)[k] != '"' by {
                if k < cur.len() {
                    assert(cur.push(c)[k] == cur[k]);
                    assert(!cur.contains('"'));
                    if cur[k] == '"' {
                        assert(cur.contains(cur[k]));
                    }
                }
            }
            assert(!cur.push(c).contains('"'));
        }
        if c != '"' && is_ws(c) && !q && cur.len() > 0 {
            let o2 = out.push(cur);
            assert forall|k: int| 0 <= k < o2.len() implies (#[trigger] o2[k]).len() > 0 && !o2[k].contains('"') by {
                if k < out.len() {
                    assert(o2[k] == out[k]);
                }
            }
        }
        let e: Seq<char> = seq![];
        assert(!e.contains('"'));
    }
}

fn tokens_chars(line: &[char]) -> (r: Vec<Vec<char>>)
    ensures
        views(r@) == petrel_tokens_spec(line@),
{
    let mut out: Vec<Vec<char>> = Vec::new();
    let mut cur: Vec<char> = Vec::new();
    let mut quoted = false;
    let mut i: usize = 0;
    assert(line@.take(0) =~= Seq::<char>::empty());
    assert(views(out@) =~= Seq::<Seq<char>>::empty());
    while i < line.len()
        invariant
            i <= line.len(),
            (views(out@), cur@, quoted) == tok_scan(line@.take(i as int)),
        decreases line.len() - i,
    {
        let c = line[i];
        proof {
            assert(line@.take(i + 1).drop_last() =~= line@.take(i as int));
        }
        if c == '"' {
            quoted = !quoted;
        } else if is_ws_char(c) && !quoted {
            if cur.len() > 0 {
                let done = slice_chars(cur.as_slice(), 0, cur.len());
                assert(done@ =~= cur@);
                let ghost before = views(out@);
                out.push(done);
                assert(views(out@) =~= before.push(done@));
                cur = Vec::new();
            }
        } else {
            cur.push(c);
        }
        i += 1;
    }
    assert(line@.take(line.len() as int) =~= line@);
    if cur.len() > 0 {
        let ghost before = views(out@);
        out.push(cur);
        assert(views(out@) =~= before.push(out@.last()@));
    }
    out
}

/// Split a Petrel tops line into whitespace-separated tokens, honouring
/// `"…"` quoting (quote marks are dropped, quoted whitespace is kept). No
/// token comes out empty or holding a quote mark.
pub fn split_petrel_tokens(line: &str) -> (r: Vec<String>)
    ensures
        string_views(r@) == petrel_tokens_spec(line@),
        clean_tokens(string_views(r@)),
{
    let cs = chars_of(line);
    let v = tokens_chars(cs.as_slice());
    proof {
        lemma_tok_scan_clean(line@);
        let (out, cur, _q) = tok_scan(line@);
        if cur.len() > 0 {
            let o2 = out.push(cur);
            assert forall|k: int| 0 <= k < o2.len() implies (#[trigger] o2[k]).len() > 0 && !o2[k].contains('"') by {
                if k < out.len() {
                    assert(o2[k] == out[k]);
                }
            }
        }
    }
    to_strings(&v)
}

} // verus!
verus! {

// ---------------------------------------------------------------------------
// `Type == "Other"` contact rows
// ---------------------------------------------------------------------------

/// `s` cut at every `c` (empty pieces kept; the empty text is one piece).
pub open spec fn split_on(s: Seq<char>, c: char) -> Seq<Seq<char>>
    decreases s.len(),
{
    if s.len() == 0 {
        seq![seq![]]
    } else {
        let t = split_on(s.drop_last(), c);
        if s.last() == c {
            t.push(seq![])
        } else {
            t.update(t.len() - 1, t.last().push(s.last()))
        }
    }
}

proof fn lemma_split_on_len(s: Seq<char>, c: char)
    ensures
        split_on(s, c).len() >= 1,
    decreases s.len(),
{
    if s.len() > 0 {
        lemma_split_on_len(s.drop_last(), c);
    }
}

/// The first index of `name` in `hs`, if any.
pub open spec fn position(hs: Seq<Seq<char>>, name: Seq<char>) -> Option<int>
    decreases hs.len(),
{
    if hs.len() == 0 {
        None
    } else if hs[0] == name {
        Some(0)
    } else {
        match position(hs.drop_first(), name) {
            Some(i) => Some(i + 1),
            None => None,
        }
    }
}

/// The token in the header column called `name`, if the header has that
/// column and the row reaches it.
pub open spec fn column(hs: Seq<Seq<char>>, toks: Seq<Seq<char>>, name: Seq<char>) -> Option<
    Seq<char>,
> {
    match position(hs, name) {
        Some(i) => if 0 <= i < toks.len() {
            Some(toks[i])
        } else {
            None
        },
        None => None,
    }
}

/// One `(surface, well, z)` contact row.
pub type ContactRow = (Seq<char>, Seq<char>, Seq<char>);

/// The row a data line yields under header `hs`: its `type` column must read
/// `Other` (any case) and it must carry `surface` and `z` columns; a missing
/// `well` column reads as `""`.
pub open spec fn data_row(hs: Seq<Seq<char>>, t: Seq<char>) -> Option<ContactRow> {
    let toks = petrel_tokens_spec(t);
    if toks.len() < hs.len() {
        None
    } else {
        match (column(hs, toks, "type"@), column(hs, toks, "surface"@), column(hs, toks, "z"@)) {
            (Some(kind), Some(surface), Some(z)) => if eq_ignore_case(kind, "Other"@) {
                Some(
                    (
                        surface,
                        match column(hs, toks, "well"@) {
                            Some(w) => w,
                            None => seq![],
                        },
                        z,
                    ),
                )
            } else {
                None
            },
            _ => None,
        }
    }
}

/// Reader state: header columns (lower-cased), inside `BEGIN HEADER`, past
/// `END HEADER`, and the rows so far.
pub type ContactScan = (Seq<Seq<char>>, bool, bool, Seq<ContactRow>);

/// One line of a tops file: blank and `#` lines are skipped; before
/// `END HEADER` the `BEGIN HEADER`/`END HEADER` markers (any case) open and
/// close the header and header lines name the columns; after it every line
/// is a data row.
pub open spec fn contact_step(st: ContactScan, line: Seq<char>) -> ContactScan {
    let (hs, inh, done, rows) = st;
    let t = trim(line);
    if t.len() == 0 || t[0] == '#' {
        st
    } else if !done {
        if eq_ignore_case(t, "BEGIN HEADER"@) {
            (hs, true, done, rows)
        } else if eq_ignore_case(t, "END HEADER"@) {
            (hs, inh, true, rows)
        } else if inh {
            (hs.push(lower(t)), inh, done, rows)
        } else {
            st
        }
    } else {
        match data_row(hs, t) {
            Some(row) => (hs, inh, done, rows.push(row)),
            None => st,
        }
    }
}

/// The reader state after the lines `ls`.
pub open spec fn contact_scan(ls: Seq<Seq<char>>) -> ContactScan
    decreases ls.len(),
{
    if ls.len() == 0 {
        (seq![], false, false, seq![])
    } else {
        contact_step(contact_scan(ls.drop_last()), ls.last())
    }
}

/// The `(surface, well, z)` rows of a Petrel tops text whose `type` column
/// reads `Other`. Lines are cut at `\n` and trimmed (so a `\r` before the
/// `\n` changes nothing).
pub open spec fn other_contact_rows(text: Seq<char>) -> Seq<ContactRow> {
    contact_scan(split_on(text, '\n')).3
}

/// `s` with every `\n` written as `\r\n` (a Windows line ending).
pub open spec fn crlf(s: Seq<char>) -> Seq<char>
    decreases s.len(),
{
    if s.len() == 0 {
        seq![]
    } else if s.last() == '\n' {
        crlf(s.drop_last()).push('\r').push('\n')
    } else {
        crlf(s.drop_last()).push(s.last())
    }
}

/// Cutting a CRLF text at `\n` gives the LF text's lines, each but the last
/// ending in `\r`.
proof fn lemma_split_crlf(s: Seq<char>)
    ensures
        split_on(crlf(s), '\n').len() == split_on(s, '\n').len(),
        forall|i: int|
            0 <= i < split_on(s, '\n').len() - 1 ==> #[trigger] split_on(crlf(s), '\n')[i]
                == split_on(s, '\n')[i].push('\r'),
        split_on(crlf(s), '\n').last() == split_on(s, '\n').last(),
    decreases s.len(),
{
    lemma_split_on_len(s, '\n');
    if s.len() > 0 {
        let d = s.drop_last();
        lemma_split_crlf(d);
        lemma_split_on_len(d, '\n');
        lemma_split_on_len(crlf(d), '\n');
        let a = split_on(d, '\n');
        let b = split_on(crlf(d), '\n');
        if s.last() == '\n' {
            let x = crlf(d).push('\r');
            assert(x.drop_last() == crlf(d));
            assert(crlf(d).push('\r').push('\n').drop_last() == x);
            assert(split_on(x, '\n') == b.update(b.len() - 1, b.last().push('\r')));
        } else {
            assert(crlf(d).push(s.last()).drop_last() == crlf(d));
        }
    }
}

/// Lines that trim alike are read alike.
proof fn lemma_scan_trim_alike(l1: Seq<Seq<char>>, l2: Seq<Seq<char>>)
    requires
        l1.len() == l2.len(),
        forall|i: int| 0 <= i < l1.len() ==> trim(#[trigger] l1[i]) == trim(l2[i]),
    ensures
        contact_scan(l1) == contact_scan(l2),
    decreases l1.len(),
{
    if l1.len() > 0 {
        let i = l1.len() - 1;
        assert(trim(l1[i]) == trim(l2[i]));
        lemma_scan_trim_alike(l1.drop_last(), l2.drop_last());
    }
}

/// Line endings do not matter: a tops text with Windows (`\r\n`) line
/// endings yields exactly the contact rows of the same text with `\n` ones.
pub proof fn law_crlf_reads_like_lf(text: Seq<char>)
    ensures
        other_contact_rows(crlf(text)) == other_contact_rows(text),
{
    lemma_split_crlf(text);
    lemma_split_on_len(text, '\n');
    let a = split_on(text, '\n');
    let b = split_on(crlf(text), '\n');
    assert forall|i: int| 0 <= i < b.len() implies trim(#[trigger] b[i]) == trim(a[i]) by {
        if i < a.len() - 1 {
            assert(b[i] == a[i].push('\r'));
            law_trim_ignores_trailing_cr(a[i]);
        } else {
            assert(b[i] == b.last());
        }
    }
    lemma_scan_trim_alike(b, a);
}

/// The text of one exec row.
pub open spec fn row_view(r: (Vec<char>, Vec<char>, Vec<char>)) -> ContactRow {
    (r.0@, r.1@, r.2@)
}

/// The rows of a list of exec rows.
pub open spec fn row_views(v: Seq<(Vec<char>, Vec<char>, Vec<char>)>) -> Seq<ContactRow> {
    v.map_values(|r: (Vec<char>, Vec<char>, Vec<char>)| (r.0@, r.1@, r.2@))
}

/// The rows of a list of string rows.
pub open spec fn string_row_views(v: Seq<(String, String, String)>) -> Seq<ContactRow> {
    v.map_values(|r: (String, String, String)| (r.0@, r.1@, r.2@))
}

fn position_exec(hs: &Vec<Vec<char>>, name: &[char]) -> (r: Option<usize>)
    ensures
        match r {
            Some(i) => position(views(hs@), name@) == Some(i as int),
            None => position(views(hs@), name@) is None,
        },
{
    let ghost hv = views(hs@);
    let mut i: usize = 0;
    assert(hv.skip(0) =~= hv);
    while i < hs.len()
        invariant
            i <= hs.len(),
            hv == views(hs@),
            position(hv, name@) == match position(hv.skip(i as int), name@) {
                Some(k) => Some(k + i),
                None => None,
            },
        decreases hs.len() - i,
    {
        assert(hv.skip(i as int)[0] == hv[i as int]);
        if chars_eq(hs[i].as_slice(), name) {
            return Some(i);
        }
        assert(hv.skip(i as int).drop_first() =~= hv.skip(i + 1));
        i += 1;
    }
    None
}

fn column_exec(hs: &Vec<Vec<char>>, toks: &Vec<Vec<char>>, name: &str) -> (r: Option<Vec<char>>)
    ensures
        match column(views(hs@), views(toks@), name@) {
            Some(t) => r is Some && r->0@ == t,
            None => r is None,
        },
{
    let n = chars_of(name);
    match position_exec(hs, n.as_slice()) {
        Some(i) => if i < toks.len() {
            let t = slice_chars(toks[i].as_slice(), 0, toks[i].len());
            assert(t@ =~= views(toks@)[i as int]);
            Some(t)
        } else {
            None
        },
        None => None,
    }
}

fn data_row_exec(hs: &Vec<Vec<char>>, t: &[char]) -> (r: Option<(Vec<char>, Vec<char>, Vec<char>)>)
    ensures
        match data_row(views(hs@), t@) {
            Some(row) => r is Some && row_view(r->0) == row,
            None => r is None,
        },
{
    let toks = tokens_chars(t);
    if toks.len() < hs.len() {
        return None;
    }
    let kind = column_exec(hs, &toks, "type");
    let surface = column_exec(hs, &toks, "surface");
    let z = column_exec(hs, &toks, "z");
    match (kind, surface, z) {
        (Some(k), Some(s), Some(z)) => {
            let other = chars_of("Other");
            if !eq_ignore_case_chars(k.as_slice(), other.as_slice()) {
                return None;
            }
            let well = match column_exec(hs, &toks, "well") {
                Some(w) => w,
                None => Vec::new(),
            };
            Some((s, well, z))
        },
        _ => None,
    }
}

fn contact_step_exec(
    hs: &mut Vec<Vec<char>>,
    inh: &mut bool,
    done: &mut bool,
    rows: &mut Vec<(Vec<char>, Vec<char>, Vec<char>)>,
    line: &[char],
)
    ensures
        (views(final(hs)@), *final(inh), *final(done), row_views(final(rows)@)) == contact_step(
            (views(old(hs)@), *old(inh), *old(done), row_views(old(rows)@)),
            line@,
        ),
{
    let t = trim_chars(line);
    if t.len() == 0 || t[0] == '#' {
        return;
    }
    if !*done {
        let begin = chars_of("BEGIN HEADER");
        let end = chars_of("END HEADER");
        if eq_ignore_case_chars(t.as_slice(), begin.as_slice()) {
            *inh = true;
        } else if eq_ignore_case_chars(t.as_slice(), end.as_slice()) {
            *done = true;
        } else if *inh {
            let l = lower_chars(t.as_slice());
            let ghost before = views(hs@);
            hs.push(l);
            assert(views(hs@) =~= before.push(l@));
        }
    } else {
        match data_row_exec(hs, t.as_slice()) {
            Some(row) => {
                let ghost before = row_views(rows@);
                let ghost rv = (row.0@, row.1@, row.2@);
                rows.push(row);
                assert(row_views(rows@) =~= before.push(rv));
            },
            None => {},
        }
    }
}

/// The `(surface, well, z)` text rows of a Petrel tops file's `Type ==
/// "Other"` lines (see [`other_contact_rows`]); the caller reads `z` as a
/// number (depth is `-z`).
pub fn other_contact_rows_of(text: &str) -> (r: Vec<(String, String, String)>)
    ensures
        string_row_views(r@) == other_contact_rows(text@),
{
    let cs = chars_of(text);
    let mut hs: Vec<Vec<char>> = Vec::new();
    let mut inh = false;
    let mut done = false;
    let mut rows: Vec<(Vec<char>, Vec<char>, Vec<char>)> = Vec::new();
    let mut cur: Vec<char> = Vec::new();
    let mut i: usize = 0;
    assert(cs@.take(0) =~= Seq::<char>::empty());
    assert(views(hs@) =~= Seq::<Seq<char>>::empty());
    assert(row_views(rows@) =~= Seq::<ContactRow>::empty());
    while i < cs.len()
        invariant
            i <= cs.len(),
            cs@ == text@,
            split_on(cs@.take(i as int), '\n').len() >= 1,
            split_on(cs@.take(i as int), '\n').last() == cur@,
            (views(hs@), inh, done, row_views(rows@)) == contact_scan(
                split_on(cs@.take(i as int), '\n').drop_last(),
            ),
        decreases cs.len() - i,
    {
        let c = cs[i];
        let ghost prev = split_on(cs@.take(i as int), '\n');
        proof {
            assert(cs@.take(i + 1).drop_last() =~= cs@.take(i as int));
            lemma_split_on_len(cs@.take(i as int), '\n');
        }
        if c == '\n' {
            contact_step_exec(&mut hs, &mut inh, &mut done, &mut rows, cur.as_slice());
            cur = Vec::new();
            proof {
                let next = prev.push(seq![]);
                assert(next.drop_last() =~= prev);
                assert(prev =~= prev.drop_last().push(prev.last()));
            }
        } else {
            cur.push(c);
            proof {
                let next = prev.update(prev.len() - 1, prev.last().push(c));
                assert(next.drop_last() =~= prev.drop_last());
            }
        }
        i += 1;
    }
    assert(cs@.take(cs.len() as int) =~= cs@);
    contact_step_exec(&mut hs, &mut inh, &mut done, &mut rows, cur.as_slice());
    proof {
        let all = split_on(text@, '\n');
        assert(all =~= all.drop_last().push(all.last()));
    }
    let mut out: Vec<(String, String, String)> = Vec::new();
    let mut k: usize = 0;
    while k < rows.len()
        invariant
            k <= rows.len(),
            out@.len() == k,
            string_row_views(out@) == row_views(rows@).take(k as int),
        decreases rows.len() - k,
    {
        let s = string_of(rows[k].0.as_slice());
        let w = string_of(rows[k].1.as_slice());
        let z = string_of(rows[k].2.as_slice());
        let ghost before = out@;
        out.push((s, w, z));
        proof {
            assert forall|m: int| 0 <= m <= k implies #[trigger] string_row_views(out@)[m]
                == row_views(rows@).take(k + 1)[m] by {
                if m < k {
                    assert(out@[m] == before[m]);
                    assert(string_row_views(before)[m] == row_views(rows@).take(k as int)[m]);
                }
            }
        }
        k += 1;
        assert(string_row_views(out@) =~= row_views(rows@).take(k as int));
    }
    assert(row_views(rows@).take(rows.len() as int) =~= row_views(rows@));
    out
}

// ---------------------------------------------------------------------------
// Tops inventory
// ---------------------------------------------------------------------------

/// The named tops and contacts available across a project, as a sorted set:
/// every distinct name of `names` (zone, contact and compatibility-row names)
/// exactly once, in code-point order.
pub fn discover_tops(names: &Vec<String>) -> (r: Vec<String>)
    ensures
        strictly_sorted(string_views(r@)),
        forall|y: Seq<char>| string_views(r@).contains(y) <==> string_views(names@).contains(y),
{
    sorted_strings(names)
}

} // verus!
