//! File-name rules: stems, extensions, parent-directory hints and the
//! tops-file test, over the file names an ingest walk reports.
//!
//! A name here is the final component of a path (`Path::file_name`), or
//! `None` when the path has none; the stem/extension split follows
//! `Path::file_stem`/`Path::extension`: the text after the last `.` is the
//! extension unless that `.` opens the name (a dot-file) or the name is `..`.

use vstd::prelude::*;
use crate::text::{
    chars_eq_str, chars_of, contains, opt_chars, contains_str, last_index, last_index_of, lower,
    lower_chars, slice_chars, string_of,
};

verus! {

/// The stem of a file name (`Path::file_stem`).
pub open spec fn stem_of_name(n: Seq<char>) -> Seq<char> {
    if n == ".."@ {
        n
    } else {
        match last_index_of(n, '.') {
            Some(i) => if i == 0 { n } else { n.take(i) },
            None => n,
        }
    }
}

/// The extension of a file name (`Path::extension`), case preserved.
pub open spec fn extension_of_name(n: Seq<char>) -> Option<Seq<char>> {
    if n == ".."@ {
        None
    } else {
        match last_index_of(n, '.') {
            Some(i) => if i == 0 { None } else { Some(n.skip(i + 1)) },
            None => None,
        }
    }
}

/// A file's stem, `"unnamed"` when it has no name.
pub open spec fn stem_spec(name: Option<Seq<char>>) -> Seq<char> {
    match name {
        Some(n) => stem_of_name(n),
        None => "unnamed"@,
    }
}

/// A file's lower-cased extension, `""` when it has none.
pub open spec fn ext_spec(name: Option<Seq<char>>) -> Seq<char> {
    match name {
        Some(n) => match extension_of_name(n) {
            Some(e) => lower(e),
            None => ""@,
        },
        None => ""@,
    }
}

/// A parent directory's lower-cased name, `""` when it has none.
pub open spec fn parent_spec(parent: Option<Seq<char>>) -> Seq<char> {
    match parent {
        Some(p) => lower(p),
        None => ""@,
    }
}

/// Whether `name` contains any of `needles`.
pub open spec fn dir_is_spec(name: Seq<char>, needles: Seq<Seq<char>>) -> bool {
    exists|i: int| 0 <= i < needles.len() && contains(name, #[trigger] needles[i])
}

/// A Petrel well-tops file: extension `tops`/`petrel`, or no extension and a
/// stem that contains `tops` (any case).
pub open spec fn is_tops_spec(name: Option<Seq<char>>, ext: Seq<char>) -> bool {
    ||| ext == "tops"@
    ||| ext == "petrel"@
    ||| (ext.len() == 0 && contains(lower(stem_spec(name)), "tops"@))
}

/// The stem characters of a file name.
pub fn stem_chars(n: &[char]) -> (v: Vec<char>)
    ensures
        v@ == stem_of_name(n@),
{
    assert(n@.subrange(0, n@.len() as int) =~= n@);
    if chars_eq_str(n, "..") {
        return slice_chars(n, 0, n.len());
    }
    let li = last_index(n, '.');
    match li {
        Some(i) => {
            assert(last_index_of(n@, '.') == Some(i as int));
            if i == 0 {
                slice_chars(n, 0, n.len())
            } else {
                let v = slice_chars(n, 0, i);
                assert(v@ =~= n@.take(i as int));
                v
            }
        },
        None => {
            assert(last_index_of(n@, '.') is None);
            slice_chars(n, 0, n.len())
        },
    }
}

/// The stem of the file called `name` (`"unnamed"` when there is none).
pub fn file_stem(name: Option<&str>) -> (s: String)
    ensures
        s@ == stem_spec(opt_chars(name)),
{
    match name {
        Some(n) => {
            let cs = chars_of(n);
            let st = stem_chars(cs.as_slice());
            string_of(st.as_slice())
        },
        None => String::from_str("unnamed"),
    }
}

/// The lower-cased extension of the file called `name` (`""` when none).
pub fn ext_of(name: Option<&str>) -> (s: String)
    ensures
        s@ == ext_spec(opt_chars(name)),
{
    proof {
        reveal_strlit("");
    }
    match name {
        Some(n) => {
            let cs = chars_of(n);
            if chars_eq_str(cs.as_slice(), "..") {
                return String::new();
            }
            proof {
                crate::text::lemma_last_index_of(cs@, '.');
            }
            match last_index(cs.as_slice(), '.') {
                Some(i) => if i == 0 {
                    String::new()
                } else {
                    let e = slice_chars(cs.as_slice(), i + 1, cs.len());
                    assert(e@ == cs@.skip(i + 1));
                    let le = lower_chars(e.as_slice());
                    string_of(le.as_slice())
                },
                None => String::new(),
            }
        },
        None => String::new(),
    }
}

/// The lower-cased name of a file's parent directory (`""` when none).
pub fn parent_name(parent: Option<&str>) -> (s: String)
    ensures
        s@ == parent_spec(opt_chars(parent)),
{
    proof {
        reveal_strlit("");
    }
    match parent {
        Some(p) => {
            let cs = chars_of(p);
            let l = lower_chars(cs.as_slice());
            string_of(l.as_slice())
        },
        None => String::new(),
    }
}

/// Whether the directory `name` contains any of `needles`.
pub fn dir_is(name: &str, needles: &[&str]) -> (r: bool)
    ensures
        r == dir_is_spec(name@, needles@.map_values(|n: &str| n@)),
{
    let cs = chars_of(name);
    let ghost ns = needles@.map_values(|n: &str| n@);
    let mut i: usize = 0;
    while i < needles.len()
        invariant
            i <= needles.len(),
            cs@ == name@,
            ns == needles@.map_values(|n: &str| n@),
            forall|j: int| 0 <= j < i ==> !contains(name@, #[trigger] ns[j]),
        decreases needles.len() - i,
    {
        if contains_str(cs.as_slice(), needles[i]) {
            assert(contains(name@, ns[i as int]));
            return true;
        }
        i += 1;
    }
    false
}

/// Whether the file called `name`, with lower-cased extension `ext`, is a
/// Petrel well-tops file (`.tops`/`.petrel`, or an extension-less export whose
/// stem mentions `tops`).
pub fn is_tops_file(name: Option<&str>, ext: &str) -> (r: bool)
    ensures
        r == is_tops_spec(opt_chars(name), ext@),
{
    let e = chars_of(ext);
    if chars_eq_str(e.as_slice(), "tops") || chars_eq_str(e.as_slice(), "petrel") {
        return true;
    }
    if e.len() != 0 {
        return false;
    }
    let st = file_stem(name);
    let sc = chars_of(st.as_str());
    let l = lower_chars(sc.as_slice());
    contains_str(l.as_slice(), "tops")
}

} // verus!
