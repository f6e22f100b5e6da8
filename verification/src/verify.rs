//! Comparing an expected hash with a computed one, and finding the expected
//! hash of a file in a parsed checksum file.

use vstd::prelude::*;
use crate::hasher::{Algorithm, algorithm_named};
use crate::checksum::{ChecksumEntry, EntryView, entries_view, find_entry_for_file, name_view, target_index};
use crate::text::{
    chars_of, copy_range, find_char_from, find_from, spec_trim, string_of, to_lowercase, trim,
    unicode_lower, spec_ascii_lower, spec_ascii_upper, lower_char, upper_char, join2, join3,
};
use crate::checksum::lower_hex;
use crate::hasher::is_lower_hex_char;
use vstd::utf8::is_ascii_chars;

verus! {

/// The outcome of comparing an expected hash with a computed one. Both are kept
/// in lowercase, as they are shown.
pub struct HashComparison {
    pub expected: String,
    pub computed: String,
    pub matched: bool,
}

/// Compares two hashes without regard to case: both are lowercased, and they
/// match when the lowercased texts are equal.
pub fn compare_hashes(expected: &str, computed: &str) -> (r: HashComparison)
    ensures
        r.expected@ == unicode_lower(expected@),
        r.computed@ == unicode_lower(computed@),
        r.matched == (unicode_lower(expected@) == unicode_lower(computed@)),
        is_ascii_chars(expected@) ==> r.expected@ == spec_ascii_lower(expected@),
        is_ascii_chars(computed@) ==> r.computed@ == spec_ascii_lower(computed@),
        is_ascii_chars(expected@) && is_ascii_chars(computed@) ==> r.matched == (spec_ascii_lower(
            expected@,
        ) == spec_ascii_lower(computed@)),
{
    let e = to_lowercase(expected);
    let c = to_lowercase(computed);
    let matched = e == c;
    HashComparison { expected: e, computed: c, matched }
}

/// What a checksum file says about a target file.
pub enum Lookup {
    /// The checksum file could not be read or held no valid entry.
    Unreadable(String),
    /// The checksum file has no entry for the target.
    Missing,
    /// The expected hash, and the algorithm to compute: the entry's own, else
    /// the fallback.
    Found(String, Algorithm),
}

/// The expected hash of a target file whose file name is `target_name`
/// (`None` when it has none) according to a parsed checksum file (see
/// `find_entry_for_file`); an entry without an algorithm is checked with
/// `fallback`.
pub fn lookup_expected(
    parsed: &Result<Vec<ChecksumEntry>, String>,
    target_name: Option<&str>,
    windows: bool,
    fallback: Algorithm,
) -> (r: Lookup)
    ensures
        match parsed {
            Err(e) => r matches Lookup::Unreadable(m) && m@ == e@,
            Ok(es) => {
                let idx = target_index(entries_view(es@), name_view(target_name), windows);
                match r {
                    Lookup::Found(h, a) => idx is Some && h@ == entries_view(es@)[idx.unwrap()].hash
                        && a == (match entries_view(es@)[idx.unwrap()].algorithm {
                        Some(x) => x,
                        None => fallback,
                    }),
                    Lookup::Missing => idx is None,
                    Lookup::Unreadable(_) => false,
                }
            },
        },
{
    match parsed {
        Err(e) => Lookup::Unreadable(e.clone()),
        Ok(es) => {
            match find_entry_for_file(es.as_slice(), target_name, windows) {
                Some(entry) => {
                    proof {
                        let idx = target_index(entries_view(es@), name_view(target_name), windows);
                        assert(entry@ == entries_view(es@)[idx.unwrap()]);
                    }
                    let algo = match entry.algorithm {
                        Some(a) => a,
                        None => fallback,
                    };
                    Lookup::Found(entry.hash.clone(), algo)
                },
                None => Lookup::Missing,
            }
        },
    }
}

/// The expected hash and algorithm for a target file with file name `target`
/// in a checksum file's entries: the hash of its entry (see `target_index`)
/// and the entry's algorithm, else `fallback`; `None` without an entry.
pub open spec fn expected_for(es: Seq<EntryView>, target: Option<Seq<char>>, windows: bool, fallback: Algorithm) -> Option<
    (Seq<char>, Algorithm),
> {
    match target_index(es, target, windows) {
        Some(i) => Some(
            (
                es[i].hash,
                match es[i].algorithm {
                    Some(x) => x,
                    None => fallback,
                },
            ),
        ),
        None => None,
    }
}

/// The file name shown in messages: the target's, or nothing.
pub open spec fn shown_name(target: Option<Seq<char>>) -> Seq<char> {
    match target {
        Some(t) => t,
        None => Seq::empty(),
    }
}

fn shown_name_of(target: Option<&str>) -> (r: &str)
    ensures
        r@ == shown_name(name_view(target)),
{
    match target {
        Some(t) => t,
        None => {
            proof {
                reveal_strlit("");
            }
            ""
        },
    }
}

/// What to check a file of the list against, given its parsed checksum file:
/// the expected hash and algorithm, or the message shown for that file
/// (`Checksum illisible : ...` when the checksum file is unusable,
/// `'<name>' absent du fichier checksum` when it has no entry for the file).
pub fn list_expectation(
    parsed: &Result<Vec<ChecksumEntry>, String>,
    target_name: Option<&str>,
    windows: bool,
    fallback: Algorithm,
) -> (r: Result<(String, Algorithm), String>)
    ensures
        match parsed {
            Err(e) => r matches Err(m) && m@ == "Checksum illisible : "@ + e@,
            Ok(es) => match expected_for(entries_view(es@), name_view(target_name), windows, fallback) {
                Some(x) => r matches Ok(y) && y.0@ == x.0 && y.1 == x.1,
                None => r matches Err(m) && m@ == "'"@ + shown_name(name_view(target_name)) + "' absent du fichier checksum"@,
            },
        },
{
    match lookup_expected(parsed, target_name, windows, fallback) {
        Lookup::Found(h, a) => Ok((h, a)),
        Lookup::Missing => Err(join3("'", shown_name_of(target_name), "' absent du fichier checksum")),
        Lookup::Unreadable(e) => Err(join2("Checksum illisible : ", e.as_str())),
    }
}

/// What to check the one file against, given its parsed checksum file: the
/// expected hash and algorithm, or the error shown (the checksum file's own
/// error, or `Fichier '<name>' non trouvé dans le checksum.`).
pub fn single_expectation(
    parsed: &Result<Vec<ChecksumEntry>, String>,
    target_name: Option<&str>,
    windows: bool,
    fallback: Algorithm,
) -> (r: Result<(String, Algorithm), String>)
    ensures
        match parsed {
            Err(e) => r matches Err(m) && m@ == e@,
            Ok(es) => match expected_for(entries_view(es@), name_view(target_name), windows, fallback) {
                Some(x) => r matches Ok(y) && y.0@ == x.0 && y.1 == x.1,
                None => r matches Err(m) && m@ == "Fichier '"@ + shown_name(name_view(target_name))
                    + "' non trouvé dans le checksum."@,
            },
        },
{
    match lookup_expected(parsed, target_name, windows, fallback) {
        Lookup::Found(h, a) => Ok((h, a)),
        Lookup::Missing => Err(join3("Fichier '", shown_name_of(target_name), "' non trouvé dans le checksum.")),
        Lookup::Unreadable(e) => Err(e),
    }
}

/// The expected hash and algorithm read from a typed hash: the input is trimmed
/// and lowercased; `algo:hash` (such as `sha256:ab12...`) names its algorithm
/// when the part before the first `:` is an algorithm name; otherwise the whole
/// text is the hash and `default` the algorithm.
pub open spec fn spec_manual_hash(input: Seq<char>, default: Algorithm) -> (Seq<char>, Algorithm) {
    let raw = unicode_lower(spec_trim(input));
    let k = find_from(raw, ':', 0);
    if k < raw.len() && algorithm_named(raw.subrange(0, k)) is Some {
        (raw.subrange(k + 1, raw.len() as int), algorithm_named(raw.subrange(0, k)).unwrap())
    } else {
        (raw, default)
    }
}

/// Reads a typed hash: trimmed and lowercased, with an optional `algo:` prefix
/// that names the algorithm (else `default` is used).
pub fn parse_manual_hash(input: &str, default: Algorithm) -> (r: (String, Algorithm))
    ensures
        (r.0@, r.1) == spec_manual_hash(input@, default),
{
    let trimmed = string_of(&trim(&chars_of(input)));
    let raw = to_lowercase(trimmed.as_str());
    let rc = chars_of(raw.as_str());
    let k = find_char_from(&rc, ':', 0);
    if k < rc.len() {
        let prefix = string_of(&copy_range(&rc, 0, k));
        if let Some(a) = Algorithm::from_str(prefix.as_str()) {
            return (string_of(&copy_range(&rc, k + 1, rc.len())), a);
        }
    }
    (raw, default)
}

/// A hash typed in uppercase matches the same hash as this tool computes it:
/// both are ASCII, and they lowercase to the same text.
pub proof fn lemma_uppercase_hash_matches(h: Seq<char>)
    requires
        lower_hex(h),
    ensures
        is_ascii_chars(h),
        is_ascii_chars(spec_ascii_upper(h)),
        spec_ascii_lower(spec_ascii_upper(h)) == spec_ascii_lower(h),
{
    assert forall|i: int| 0 <= i < h.len() implies '\0' <= #[trigger] h[i] <= '\u{7f}'
        && '\0' <= spec_ascii_upper(h)[i] <= '\u{7f}' && lower_char(upper_char(h[i])) == lower_char(
        h[i],
    ) by {
        assert(is_lower_hex_char(h[i]));
    }
    assert(spec_ascii_lower(spec_ascii_upper(h)) =~= spec_ascii_lower(h));
}

} // verus!
