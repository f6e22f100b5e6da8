//! Checksum files: where they are looked for, which algorithm their name
//! announces, how their lines are read, and which line belongs to a file.
//!
//! Line formats:
//!   - `<hash>  <file>` (GNU coreutils `sha256sum`, `md5sum`, ...)
//!   - `<hash> *<file>` (binary mode; the `*` is dropped)
//!   - `<file>:<hash>` and `<file>=<hash>`

use vstd::prelude::*;
use crate::hasher::{Algorithm, algorithm_for_len, is_lower_hex_char};
use crate::text::{
    ascii_lower, chars_of, contains, contains_seq, copy_range, find_char_from, find_from,
    lemma_rfind_before, rfind_before, rfind_char_before, seq_eq, spec_ascii_lower, spec_trim,
    string_of, to_uppercase, trim, unicode_upper, lemma_find_from, lines_from, spec_lines, strip_cr,
    to_lowercase, unicode_lower, is_ws, lemma_lines_of_first_line, lemma_trim_unchanged,
    lemma_trim_drops_leading_space, lower_char, lemma_rfind_before_at, lines_view, spec_ascii_upper, lemma_absent_by_pair,
    occurs_at,
};

verus! {

/// One line of a checksum file: a hash and the file it belongs to.
#[derive(Debug, Clone)]
pub struct ChecksumEntry {
    /// Hash value, lowercase hexadecimal.
    pub hash: String,
    /// File name as written in the checksum file.
    pub filename: String,
    /// Algorithm announced by the checksum file's name, or guessed from the
    /// hash length; `None` when neither tells.
    pub algorithm: Option<Algorithm>,
}

/// What a checksum entry holds, as plain values.
pub struct EntryView {
    pub hash: Seq<char>,
    pub filename: Seq<char>,
    pub algorithm: Option<Algorithm>,
}

impl View for ChecksumEntry {
    type V = EntryView;

    open spec fn view(&self) -> EntryView {
        EntryView { hash: self.hash@, filename: self.filename@, algorithm: self.algorithm }
    }
}

/// The views of a list of entries.
pub open spec fn entries_view(es: Seq<ChecksumEntry>) -> Seq<EntryView> {
    es.map_values(|e: ChecksumEntry| e@)
}

/// An ASCII hexadecimal digit (`char::is_ascii_hexdigit`).
pub open spec fn is_hex_char(c: char) -> bool {
    ('0' <= c && c <= '9') || ('a' <= c && c <= 'f') || ('A' <= c && c <= 'F')
}

/// Looks like a hash: at least 8 characters, all hexadecimal digits.
pub open spec fn valid_hex(s: Seq<char>) -> bool {
    s.len() >= 8 && forall|i: int| 0 <= i < s.len() ==> is_hex_char(#[trigger] s[i])
}

/// Whether `s` looks like a hexadecimal hash: at least 8 characters, all
/// hexadecimal digits.
pub fn is_valid_hex(s: &[char]) -> (r: bool)
    ensures
        r == valid_hex(s@),
{
    if s.len() < 8 {
        return false;
    }
    let mut i: usize = 0;
    while i < s.len()
        invariant
            i <= s.len(),
            forall|j: int| 0 <= j < i ==> is_hex_char(#[trigger] s@[j]),
        decreases s.len() - i,
    {
        let c = s[i];
        if !((c >= '0' && c <= '9') || (c >= 'a' && c <= 'f') || (c >= 'A' && c <= 'F')) {
            return false;
        }
        i += 1;
    }
    true
}

/// The sequence without its leading `*` characters.
pub open spec fn strip_stars(s: Seq<char>) -> Seq<char>
    decreases s.len(),
{
    if s.len() > 0 && s[0] == '*' {
        strip_stars(s.drop_first())
    } else {
        s
    }
}

fn strip_leading_stars(v: &[char]) -> (r: Vec<char>)
    ensures
        r@ == strip_stars(v@),
{
    let mut i: usize = 0;
    assert(v@.subrange(0, v@.len() as int) =~= v@);
    while i < v.len() && v[i] == '*'
        invariant
            i <= v.len(),
            strip_stars(v@) == strip_stars(v@.subrange(i as int, v@.len() as int)),
        decreases v.len() - i,
    {
        assert(v@.subrange(i as int, v@.len() as int).drop_first() =~= v@.subrange(
            i + 1,
            v@.len() as int,
        ));
        i += 1;
    }
    copy_range(v, i, v.len())
}

/// The entry made of a hash and a file name, with the algorithm taken from the
/// hint or else from the hash length.
pub open spec fn make_entry(hash: Seq<char>, filename: Seq<char>, hint: Option<Algorithm>) -> EntryView {
    EntryView {
        hash: spec_ascii_lower(hash),
        filename,
        algorithm: match hint {
            Some(a) => Some(a),
            None => algorithm_for_len(hash.len()),
        },
    }
}

/// The entry read from a `<file><sep><hash>` line, if its hash part is valid.
pub open spec fn split_entry(l: Seq<char>, sep: char, hint: Option<Algorithm>) -> Option<EntryView> {
    let k = find_from(l, sep, 0);
    if k < l.len() && valid_hex(spec_trim(l.subrange(k + 1, l.len() as int))) {
        Some(
            make_entry(
                spec_trim(l.subrange(k + 1, l.len() as int)),
                spec_trim(l.subrange(0, k)),
                hint,
            ),
        )
    } else {
        None
    }
}

/// The entry read from one (trimmed) checksum line: first as `<hash> <file>`
/// (split at the first space, the file's leading `*`s dropped), then as
/// `<file>:<hash>`, then as `<file>=<hash>`.
pub open spec fn spec_parse_line(l: Seq<char>, hint: Option<Algorithm>) -> Option<EntryView> {
    let k = find_from(l, ' ', 0);
    if k < l.len() && valid_hex(spec_trim(l.subrange(0, k))) {
        Some(
            make_entry(
                spec_trim(l.subrange(0, k)),
                strip_stars(spec_trim(l.subrange(k + 1, l.len() as int))),
                hint,
            ),
        )
    } else if split_entry(l, ':', hint) is Some {
        split_entry(l, ':', hint)
    } else {
        split_entry(l, '=', hint)
    }
}

fn entry_of(hash: &[char], filename: &[char], hint: Option<Algorithm>) -> (r: ChecksumEntry)
    ensures
        r@ == make_entry(hash@, filename@, hint),
{
    let algorithm = match hint {
        Some(a) => Some(a),
        None => Algorithm::from_len(hash.len()),
    };
    ChecksumEntry {
        hash: string_of(&ascii_lower(hash)),
        filename: string_of(filename),
        algorithm,
    }
}

fn split_line(l: &[char], sep: char, hint: Option<Algorithm>) -> (r: Option<ChecksumEntry>)
    ensures
        match r {
            Some(e) => split_entry(l@, sep, hint) == Some(e@),
            None => split_entry(l@, sep, hint) is None,
        },
{
    let k = find_char_from(l, sep, 0);
    if k < l.len() {
        let hash = trim(&copy_range(l, k + 1, l.len()));
        if is_valid_hex(&hash) {
            let filename = trim(&copy_range(l, 0, k));
            return Some(entry_of(&hash, &filename, hint));
        }
    }
    None
}

/// Reads one trimmed checksum line. Recognised forms, in this order:
/// `<hash> <file>` or `<hash> *<file>`, then `<file>:<hash>`, then
/// `<file>=<hash>`. The hash must be at least 8 hexadecimal digits; it is
/// stored in lowercase.
///
/// The hash is ASCII, so ASCII lowercasing gives what full lowercasing gives.
pub fn parse_line(l: &[char], hint: Option<Algorithm>) -> (r: Option<ChecksumEntry>)
    ensures
        match r {
            Some(e) => spec_parse_line(l@, hint) == Some(e@),
            None => spec_parse_line(l@, hint) is None,
        },
{
    let k = find_char_from(l, ' ', 0);
    if k < l.len() {
        let hash = trim(&copy_range(l, 0, k));
        if is_valid_hex(&hash) {
            let filename = strip_leading_stars(&trim(&copy_range(l, k + 1, l.len())));
            return Some(entry_of(&hash, &filename, hint));
        }
    }
    let colon = split_line(l, ':', hint);
    if colon.is_some() {
        return colon;
    }
    split_line(l, '=', hint)
}

} // verus!

verus! {

// ---------------------------------------------------------------------------
// File names: extension and stem, as `Path::extension` and `Path::file_stem`
// read them off a file name.
// ---------------------------------------------------------------------------

/// The extension of a file name: the text after its last `.`, unless that dot
/// is the first character or there is none.
pub open spec fn file_ext(f: Seq<char>) -> Option<Seq<char>> {
    let d = rfind_before(f, '.', f.len() as int);
    if f == ".."@ || d <= 0 {
        None
    } else {
        Some(f.subrange(d + 1, f.len() as int))
    }
}

/// The stem of a file name: the text before its last `.`, or the whole name
/// when `file_ext` gives none.
pub open spec fn file_stem(f: Seq<char>) -> Seq<char> {
    let d = rfind_before(f, '.', f.len() as int);
    if f == ".."@ || d <= 0 {
        f
    } else {
        f.subrange(0, d)
    }
}

/// Position of the dot that separates stem and extension, if there is one.
pub(crate) fn ext_dot(f: &[char]) -> (r: Option<usize>)
    ensures
        match r {
            Some(d) => file_ext(f@) == Some(f@.subrange(d + 1, f@.len() as int)) && file_stem(f@)
                == f@.subrange(0, d as int) && d < f@.len(),
            None => file_ext(f@) is None && file_stem(f@) == f@,
        },
{
    proof {
        lemma_rfind_before(f@, '.', f@.len() as int);
    }
    if seq_eq(f, &chars_of("..")) {
        return None;
    }
    match rfind_char_before(f, '.', f.len()) {
        Some(d) => {
            if d == 0 {
                None
            } else {
                Some(d)
            }
        },
        None => None,
    }
}

/// The algorithm an extension names, compared without regard to ASCII case.
pub open spec fn ext_algorithm(e: Seq<char>) -> Option<Algorithm> {
    let l = spec_ascii_lower(e);
    if l == "md5"@ {
        Some(Algorithm::Md5)
    } else if l == "sha1"@ {
        Some(Algorithm::Sha1)
    } else if l == "sha224"@ {
        Some(Algorithm::Sha224)
    } else if l == "sha256"@ {
        Some(Algorithm::Sha256)
    } else if l == "sha384"@ {
        Some(Algorithm::Sha384)
    } else if l == "sha512"@ {
        Some(Algorithm::Sha512)
    } else {
        None
    }
}

/// The algorithm an uppercased file name mentions, longest names first.
pub open spec fn name_algorithm(u: Seq<char>) -> Option<Algorithm> {
    if contains_seq(u, "SHA512"@) {
        Some(Algorithm::Sha512)
    } else if contains_seq(u, "SHA384"@) {
        Some(Algorithm::Sha384)
    } else if contains_seq(u, "SHA256"@) {
        Some(Algorithm::Sha256)
    } else if contains_seq(u, "SHA224"@) {
        Some(Algorithm::Sha224)
    } else if contains_seq(u, "SHA1"@) {
        Some(Algorithm::Sha1)
    } else if contains_seq(u, "MD5"@) {
        Some(Algorithm::Md5)
    } else {
        None
    }
}

/// The algorithm a checksum file's name announces: by its extension, else by
/// an algorithm name inside the uppercased file name.
pub open spec fn spec_detect(name: Seq<char>) -> Option<Algorithm> {
    match file_ext(name) {
        Some(e) => if ext_algorithm(e) is Some {
            ext_algorithm(e)
        } else {
            name_algorithm(unicode_upper(name))
        },
        None => name_algorithm(unicode_upper(name)),
    }
}

/// `spec_detect` for an ASCII name, whose uppercasing is the ASCII one.
pub open spec fn spec_detect_ascii(name: Seq<char>) -> Option<Algorithm> {
    match file_ext(name) {
        Some(e) => if ext_algorithm(e) is Some {
            ext_algorithm(e)
        } else {
            name_algorithm(spec_ascii_upper(name))
        },
        None => name_algorithm(spec_ascii_upper(name)),
    }
}

fn ext_to_algorithm(e: &[char]) -> (r: Option<Algorithm>)
    ensures
        r == ext_algorithm(e@),
{
    let l = ascii_lower(e);
    if seq_eq(&l, &chars_of("md5")) {
        Some(Algorithm::Md5)
    } else if seq_eq(&l, &chars_of("sha1")) {
        Some(Algorithm::Sha1)
    } else if seq_eq(&l, &chars_of("sha224")) {
        Some(Algorithm::Sha224)
    } else if seq_eq(&l, &chars_of("sha256")) {
        Some(Algorithm::Sha256)
    } else if seq_eq(&l, &chars_of("sha384")) {
        Some(Algorithm::Sha384)
    } else if seq_eq(&l, &chars_of("sha512")) {
        Some(Algorithm::Sha512)
    } else {
        None
    }
}

fn name_to_algorithm(u: &[char]) -> (r: Option<Algorithm>)
    ensures
        r == name_algorithm(u@),
{
    if contains(u, &chars_of("SHA512")) {
        Some(Algorithm::Sha512)
    } else if contains(u, &chars_of("SHA384")) {
        Some(Algorithm::Sha384)
    } else if contains(u, &chars_of("SHA256")) {
        Some(Algorithm::Sha256)
    } else if contains(u, &chars_of("SHA224")) {
        Some(Algorithm::Sha224)
    } else if contains(u, &chars_of("SHA1")) {
        Some(Algorithm::Sha1)
    } else if contains(u, &chars_of("MD5")) {
        Some(Algorithm::Md5)
    } else {
        None
    }
}

/// Detects the hash algorithm from a checksum file's name: `file.sha256` gives
/// SHA-256 by its extension, `SHA256SUMS` gives SHA-256 by its name,
/// `checksums.txt` gives none.
///
/// Extensions are compared in ASCII lowercase: the recognised extensions are
/// ASCII without the letter `k`, and no other character lowercases to one of
/// their characters, so this decides as full lowercasing would.
pub fn detect_algorithm_from_file(file_name: &str) -> (r: Option<Algorithm>)
    ensures
        r == spec_detect(file_name@),
        vstd::utf8::is_ascii_chars(file_name@) ==> r == spec_detect_ascii(file_name@),
{
    let f = chars_of(file_name);
    let dot = ext_dot(&f);
    if let Some(d) = dot {
        assert(d < f.len());
        let by_ext = ext_to_algorithm(&copy_range(&f, d + 1, f.len()));
        if by_ext.is_some() {
            return by_ext;
        }
    }
    let upper = to_uppercase(file_name);
    name_to_algorithm(&chars_of(upper.as_str()))
}

} // verus!

verus! {

/// The entry a raw line of a checksum file gives: none for a blank line or a
/// `#` comment, otherwise what `spec_parse_line` reads from the trimmed line.
pub open spec fn line_entry(line: Seq<char>, hint: Option<Algorithm>) -> Option<EntryView> {
    let t = spec_trim(line);
    if t.len() == 0 || t[0] == '#' {
        None
    } else {
        spec_parse_line(t, hint)
    }
}

/// The entries of a sequence of lines, in order.
pub open spec fn entries_of_lines(ls: Seq<Seq<char>>, hint: Option<Algorithm>) -> Seq<EntryView>
    decreases ls.len(),
{
    if ls.len() == 0 {
        Seq::empty()
    } else {
        (match line_entry(ls[0], hint) {
            Some(e) => seq![e],
            None => Seq::empty(),
        }) + entries_of_lines(ls.drop_first(), hint)
    }
}

/// The entries of a checksum file's text, given the algorithm its name announces.
pub open spec fn spec_entries(content: Seq<char>, hint: Option<Algorithm>) -> Seq<EntryView> {
    entries_of_lines(spec_lines(content), hint)
}

fn strip_carriage_return(v: Vec<char>) -> (r: Vec<char>)
    ensures
        r@ == strip_cr(v@),
{
    let mut v = v;
    if v.len() > 0 && v[v.len() - 1] == '\r' {
        v.pop();
    }
    v
}

/// Reads the text of a checksum file whose name is `checksum_name` and returns
/// every valid entry, in file order. Blank lines and `#` comments are skipped;
/// lines of no recognised form are ignored. Every entry gets the algorithm the
/// checksum file's name announces, if it announces one.
///
/// Fails when no line holds a valid entry.
pub fn parse_checksum_file(checksum_name: &str, content: &str) -> (r: Result<Vec<ChecksumEntry>, String>)
    ensures
        match r {
            Ok(es) => entries_view(es@) == spec_entries(content@, spec_detect(checksum_name@))
                && es@.len() > 0,
            Err(msg) => spec_entries(content@, spec_detect(checksum_name@)).len() == 0 && msg@
                == "Aucune entrée valide trouvée dans le fichier checksum."@,
        },
{
    let hint = detect_algorithm_from_file(checksum_name);
    let c = chars_of(content);
    let mut out: Vec<ChecksumEntry> = Vec::new();
    let mut i: usize = 0;
    while i < c.len()
        invariant
            i <= c.len(),
            spec_entries(content@, hint) == entries_view(out@) + entries_of_lines(
                lines_from(c@, i as int),
                hint,
            ),
            c@ == content@,
        decreases c.len() - i,
    {
        let k = find_char_from(&c, '\n', i);
        proof {
            lemma_find_from(c@, '\n', i as int);
        }
        let line = strip_carriage_return(copy_range(&c, i, k));
        let ghost rest = lines_from(c@, k + 1);
        assert(lines_from(c@, i as int) =~= seq![line@] + rest);
        assert((seq![line@] + rest).drop_first() =~= rest);
        let t = trim(&line);
        if t.len() > 0 && t[0] != '#' {
            match parse_line(&t, hint) {
                Some(e) => {
                    let ghost before = out@;
                    out.push(e);
                    assert(entries_view(out@) =~= entries_view(before) + seq![e@]);
                },
                None => {},
            }
        }
        proof {
            assert(entries_view(out@) + entries_of_lines(rest, hint) =~= spec_entries(
                content@,
                hint,
            ));
        }
        if k >= c.len() {
            assert(rest =~= lines_from(c@, c@.len() as int));
            i = c.len();
        } else {
            i = k + 1;
        }
    }
    assert(lines_from(c@, i as int) =~= Seq::<Seq<char>>::empty());
    assert(spec_entries(content@, hint) =~= entries_view(out@));
    if out.len() == 0 {
        Err(String::from_str("Aucune entrée valide trouvée dans le fichier checksum."))
    } else {
        Ok(out)
    }
}

} // verus!

verus! {

// ---------------------------------------------------------------------------
// Looking for a checksum file next to the target.
// ---------------------------------------------------------------------------

/// Checksum extensions, each in lowercase then in uppercase.
pub open spec fn ext_variants() -> Seq<Seq<char>> {
    seq![
        "md5"@,
        "MD5"@,
        "sha1"@,
        "SHA1"@,
        "sha256"@,
        "SHA256"@,
        "sha384"@,
        "SHA384"@,
        "sha512"@,
        "SHA512"@,
    ]
}

/// Generic checksum file names shipped with downloads.
pub open spec fn known_names() -> Seq<Seq<char>> {
    seq![
        "checksums.txt"@,
        "CHECKSUMS"@,
        "CHECKSUMS.txt"@,
        "SHA256SUMS"@,
        "SHA512SUMS"@,
        "SHA1SUMS"@,
        "MD5SUMS"@,
        "sha256sums"@,
        "sha512sums"@,
        "sha1sums"@,
        "md5sums"@,
        "checksum.txt"@,
        "checksum.sha256"@,
        "checksum.md5"@,
    ]
}

/// `base.<ext>` for every checksum extension variant.
pub open spec fn with_exts(base: Seq<char>) -> Seq<Seq<char>> {
    ext_variants().map_values(|e: Seq<char>| base + "."@ + e)
}

/// Candidate checksum file names for a target file name, most specific first:
/// `<name>.<ext>`, then `<stem>.<ext>`, then the generic names.
pub open spec fn spec_candidates(file_name: Seq<char>) -> Seq<Seq<char>> {
    with_exts(file_name) + with_exts(file_stem(file_name)) + known_names()
}

fn ext_variant_list() -> (r: Vec<&'static str>)
    ensures
        r@.map_values(|s: &str| s@) == ext_variants(),
{
    let r = vec!["md5", "MD5", "sha1", "SHA1", "sha256", "SHA256", "sha384", "SHA384", "sha512", "SHA512"];
    assert(r@.map_values(|s: &str| s@) =~= ext_variants());
    r
}

fn known_name_list() -> (r: Vec<&'static str>)
    ensures
        r@.map_values(|s: &str| s@) == known_names(),
{
    let r = vec![
        "checksums.txt",
        "CHECKSUMS",
        "CHECKSUMS.txt",
        "SHA256SUMS",
        "SHA512SUMS",
        "SHA1SUMS",
        "MD5SUMS",
        "sha256sums",
        "sha512sums",
        "sha1sums",
        "md5sums",
        "checksum.txt",
        "checksum.sha256",
        "checksum.md5",
    ];
    assert(r@.map_values(|s: &str| s@) =~= known_names());
    r
}

/// The views of a list of strings.
pub open spec fn strings_view(v: Seq<String>) -> Seq<Seq<char>> {
    v.map_values(|s: String| s@)
}

fn push_with_exts(out: &mut Vec<String>, base: &str)
    ensures
        strings_view(final(out)@) == strings_view(old(out)@) + with_exts(base@),
{
    let exts = ext_variant_list();
    let ghost start = strings_view(out@);
    let mut i: usize = 0;
    while i < exts.len()
        invariant
            i <= exts.len(),
            exts@.map_values(|s: &str| s@) == ext_variants(),
            strings_view(out@) == start + with_exts(base@).take(i as int),
        decreases exts.len() - i,
    {
        let mut s = String::from_str(base);
        s.append(".");
        s.append(exts[i]);
        let ghost before = out@;
        out.push(s);
        assert(exts@.map_values(|s: &str| s@)[i as int] == exts@[i as int]@);
        assert(strings_view(out@) =~= strings_view(before).push(s@));
        assert(with_exts(base@).take(i + 1) =~= with_exts(base@).take(i as int).push(
            base@ + "."@ + ext_variants()[i as int],
        ));
        i += 1;
    }
    assert(with_exts(base@).take(exts.len() as int) =~= with_exts(base@));
}

/// Candidate checksum file names for a file named `file_name`, most specific
/// first: `ubuntu.iso.sha256` (and the other extensions, lowercase then
/// uppercase), then `ubuntu.sha256` (by the stem), then generic names such as
/// `SHA256SUMS` or `checksums.txt`.
pub fn checksum_candidates(file_name: &str) -> (r: Vec<String>)
    ensures
        strings_view(r@) == spec_candidates(file_name@),
{
    let mut out: Vec<String> = Vec::new();
    push_with_exts(&mut out, file_name);
    let f = chars_of(file_name);
    let stem = match ext_dot(&f) {
        Some(d) => string_of(&copy_range(&f, 0, d)),
        None => string_of(&f),
    };
    push_with_exts(&mut out, stem.as_str());
    let names = known_name_list();
    let ghost start = strings_view(out@);
    let mut i: usize = 0;
    while i < names.len()
        invariant
            i <= names.len(),
            names@.map_values(|s: &str| s@) == known_names(),
            strings_view(out@) == start + known_names().take(i as int),
        decreases names.len() - i,
    {
        let s = String::from_str(names[i]);
        let ghost before = out@;
        out.push(s);
        assert(names@.map_values(|s: &str| s@)[i as int] == names@[i as int]@);
        assert(strings_view(out@) =~= strings_view(before).push(s@));
        assert(known_names().take(i + 1) =~= known_names().take(i as int).push(
            known_names()[i as int],
        ));
        i += 1;
    }
    assert(known_names().take(names.len() as int) =~= known_names());
    assert(strings_view(out@) =~= spec_candidates(file_name@));
    out
}

/// Picks the checksum file for a target named `file_name`: the first of
/// `checksum_candidates(file_name)` whose flag in `present` is set (the flags
/// tell, candidate by candidate, whether that file exists next to the target;
/// missing flags count as absent). `None` when no candidate is present.
pub fn find_checksum_file(file_name: &str, present: &[bool]) -> (r: Option<String>)
    ensures
        match r {
            Some(name) => exists|i: int|
                0 <= i < spec_candidates(file_name@).len() && i < present@.len() && present@[i]
                    && name@ == spec_candidates(file_name@)[i] && forall|j: int|
                    0 <= j < i ==> !(j < present@.len() && present@[j]),
            None => forall|i: int|
                0 <= i < spec_candidates(file_name@).len() && i < present@.len() ==> !present@[i],
        },
{
    let cands = checksum_candidates(file_name);
    let mut i: usize = 0;
    while i < cands.len()
        invariant
            i <= cands.len(),
            strings_view(cands@) == spec_candidates(file_name@),
            forall|j: int| 0 <= j < i ==> !(j < present@.len() && present@[j]),
        decreases cands.len() - i,
    {
        if i < present.len() && present[i] {
            let r = cands[i].clone();
            assert(strings_view(cands@)[i as int] == cands@[i as int]@);
            return Some(r);
        }
        i += 1;
    }
    None
}

} // verus!

verus! {

// ---------------------------------------------------------------------------
// The final component of a path written in a checksum file, as
// `Path::file_name` reads it. `windows` selects Windows rules: `\` separates
// components too, and a leading drive such as `C:` is not part of them.
// ---------------------------------------------------------------------------

/// A path separator.
pub open spec fn is_sep(c: char, windows: bool) -> bool {
    c == '/' || (windows && c == '\\')
}

/// Start of the components: after a drive prefix `X:` under Windows rules.
pub open spec fn components_start(p: Seq<char>, windows: bool) -> int {
    if windows && p.len() >= 2 && p[1] == ':' && (('a' <= p[0] && p[0] <= 'z') || ('A' <= p[0]
        && p[0] <= 'Z')) {
        2
    } else {
        0
    }
}

/// Index of the last separator in `p[..end]`, or -1.
pub open spec fn last_sep_before(p: Seq<char>, windows: bool, end: int) -> int
    decreases end,
{
    if end <= 0 || end > p.len() {
        -1
    } else if is_sep(p[end - 1], windows) {
        end - 1
    } else {
        last_sep_before(p, windows, end - 1)
    }
}

/// The last separator before `end` lies before it.
pub proof fn lemma_last_sep_before(p: Seq<char>, windows: bool, end: int)
    requires
        0 <= end <= p.len(),
    ensures
        -1 <= last_sep_before(p, windows, end) < end,
    decreases end,
{
    if end > 0 && !is_sep(p[end - 1], windows) {
        lemma_last_sep_before(p, windows, end - 1);
    }
}

/// Where the component ending at `end` starts.
pub open spec fn segment_start(p: Seq<char>, windows: bool, lo: int, end: int) -> int {
    let s = last_sep_before(p, windows, end) + 1;
    if s < lo {
        lo
    } else {
        s
    }
}

/// The last component of `p[lo..end]` that is neither empty nor `.`.
pub open spec fn last_component(p: Seq<char>, windows: bool, lo: int, end: int) -> Option<
    Seq<char>,
>
    decreases end - lo,
    via last_component_decreases
{
    if end <= lo || end > p.len() || lo < 0 {
        None
    } else {
        let s = segment_start(p, windows, lo, end);
        let seg = p.subrange(s, end);
        if seg.len() > 0 && seg != "."@ {
            Some(seg)
        } else if s <= lo {
            None
        } else {
            last_component(p, windows, lo, s - 1)
        }
    }
}

#[via_fn]
proof fn last_component_decreases(p: Seq<char>, windows: bool, lo: int, end: int) {
    if 0 <= lo < end <= p.len() {
        lemma_last_sep_before(p, windows, end);
    }
}

/// The file name a path ends with: its last component, unless that is `..`
/// or there is none.
pub open spec fn path_file_name(p: Seq<char>, windows: bool) -> Option<Seq<char>> {
    match last_component(p, windows, components_start(p, windows), p.len() as int) {
        Some(seg) => if seg == ".."@ {
            None
        } else {
            Some(seg)
        },
        None => None,
    }
}

fn is_separator(c: char, windows: bool) -> (r: bool)
    ensures
        r == is_sep(c, windows),
{
    c == '/' || (windows && c == '\\')
}

fn sep_before(p: &[char], windows: bool, end: usize) -> (r: usize)
    requires
        end <= p.len(),
    ensures
        r == last_sep_before(p@, windows, end as int) + 1,
{
    let mut j = end;
    while j > 0 && !is_separator(p[j - 1], windows)
        invariant
            j <= end <= p.len(),
            last_sep_before(p@, windows, end as int) == last_sep_before(p@, windows, j as int),
        decreases j,
    {
        j -= 1;
    }
    j
}

/// The final component of path `p` (see `path_file_name`).
pub fn file_name_of(p: &[char], windows: bool) -> (r: Option<Vec<char>>)
    ensures
        match r {
            Some(n) => path_file_name(p@, windows) == Some(n@),
            None => path_file_name(p@, windows) is None,
        },
{
    let lo: usize = if windows && p.len() >= 2 && p[1] == ':' && ((p[0] >= 'a' && p[0] <= 'z') || (
    p[0] >= 'A' && p[0] <= 'Z')) {
        2
    } else {
        0
    };
    let ghost whole = last_component(p@, windows, lo as int, p@.len() as int);
    let mut end = p.len();
    let mut found: Option<Vec<char>> = None;
    while end > lo
        invariant_except_break
            lo <= end <= p.len(),
            lo == components_start(p@, windows),
            whole == last_component(p@, windows, lo as int, end as int),
            found is None,
        ensures
            match found {
                Some(seg) => whole == Some(seg@),
                None => whole is None,
            },
        decreases end,
    {
        proof {
            lemma_last_sep_before(p@, windows, end as int);
        }
        let s0 = sep_before(p, windows, end);
        let s = if s0 < lo {
            lo
        } else {
            s0
        };
        let seg = copy_range(p, s, end);
        let is_dot = seg.len() == 1 && seg[0] == '.';
        proof {
            reveal_strlit(".");
            if seg@.len() == 1 {
                assert(is_dot == (seg@ == "."@)) by {
                    if seg@ == "."@ {
                        assert(seg@[0] == "."@[0]);
                    }
                    if is_dot {
                        assert(seg@ =~= "."@);
                    }
                }
            }
        }
        if seg.len() > 0 && !is_dot {
            found = Some(seg);
            break ;
        }
        if s <= lo {
            break ;
        }
        end = s - 1;
    }
    match found {
        Some(seg) => {
            let is_dotdot = seg.len() == 2 && seg[0] == '.' && seg[1] == '.';
            proof {
                reveal_strlit("..");
                if seg@ == ".."@ {
                    assert(seg@[0] == ".."@[0] && seg@[1] == ".."@[1]);
                }
                if is_dotdot {
                    assert(seg@ =~= ".."@);
                }
            }
            if is_dotdot {
                None
            } else {
                Some(seg)
            }
        },
        None => None,
    }
}

// ---------------------------------------------------------------------------
// Picking the entry for a target file.
// ---------------------------------------------------------------------------

/// The key an entry is matched by: the lowercase of the file name its path
/// ends with, or the empty text when it ends with none.
pub open spec fn entry_key(filename: Seq<char>, windows: bool) -> Seq<char> {
    match path_file_name(filename, windows) {
        Some(n) => unicode_lower(n),
        None => Seq::empty(),
    }
}

/// Index of the entry for a target whose lowercased file name is `target`: the
/// first entry whose key equals it; else the only entry when there is exactly
/// one; else none.
pub open spec fn entry_index(es: Seq<EntryView>, target: Seq<char>, windows: bool) -> Option<int> {
    if exists|i: int| 0 <= i < es.len() && entry_key(es[i].filename, windows) == target {
        Some(
            choose|i: int|
                0 <= i < es.len() && entry_key(es[i].filename, windows) == target && forall|j: int|
                    0 <= j < i ==> entry_key(es[j].filename, windows) != target,
        )
    } else if es.len() == 1 {
        Some(0)
    } else {
        None
    }
}

/// The file name of a target, as plain text (`None` when it has none).
pub open spec fn name_view(n: Option<&str>) -> Option<Seq<char>> {
    match n {
        Some(t) => Some(t@),
        None => None,
    }
}

/// Index of the entry for a target: for a target whose file name is `t`, the
/// entry `entry_index` gives for its lowercase; none for a target without a
/// file name.
pub open spec fn target_index(es: Seq<EntryView>, target: Option<Seq<char>>, windows: bool) -> Option<int> {
    match target {
        Some(t) => entry_index(es, unicode_lower(t), windows),
        None => None,
    }
}

/// Finds the entry for the target file whose file name is `target_name`
/// (`None` for a path without one, which matches nothing): the first entry
/// whose file name (the last component of its path, `windows` selecting the
/// path rules) equals the target's name without regard to case; failing that,
/// the only entry of a checksum file that has just one.
pub fn find_entry_for_file<'a>(entries: &'a [ChecksumEntry], target_name: Option<&str>, windows: bool) -> (r:
    Option<&'a ChecksumEntry>)
    ensures
        r is Some <==> target_index(entries_view(entries@), name_view(target_name), windows) is Some,
        r matches Some(e) ==> e@ == entries_view(entries@)[target_index(
            entries_view(entries@),
            name_view(target_name),
            windows,
        ).unwrap()],
        match target_name {
            Some(t) => (exists|i: int|
                0 <= i < entries@.len() && entry_key(#[trigger] entries@[i].filename@, windows)
                    == unicode_lower(t@)) ==> (r matches Some(e) && entry_key(e.filename@, windows)
                == unicode_lower(t@)),
            None => r is None,
        },
{
    proof {
        if let Some(t) = target_name {
            let es = entries_view(entries@);
            if exists|i: int|
                0 <= i < entries@.len() && entry_key(#[trigger] entries@[i].filename@, windows)
                    == unicode_lower(t@) {
                let i = choose|i: int|
                    0 <= i < entries@.len() && entry_key(#[trigger] entries@[i].filename@, windows)
                        == unicode_lower(t@);
                assert(es[i].filename == entries@[i].filename@);
                lemma_entry_index_finds_name(es, unicode_lower(t@), windows);
            }
        }
    }
    match target_name {
        Some(t) => find_entry_named(entries, t, windows),
        None => None,
    }
}

fn find_entry_named<'a>(entries: &'a [ChecksumEntry], target_name: &str, windows: bool) -> (r:
    Option<&'a ChecksumEntry>)
    ensures
        r is Some <==> entry_index(entries_view(entries@), unicode_lower(target_name@), windows) is Some,
        r matches Some(e) ==> e@ == entries_view(entries@)[entry_index(
            entries_view(entries@),
            unicode_lower(target_name@),
            windows,
        ).unwrap()],
{
    let target = to_lowercase(target_name);
    let ghost es = entries_view(entries@);
    let mut i: usize = 0;
    while i < entries.len()
        invariant
            i <= entries.len(),
            es == entries_view(entries@),
            target@ == unicode_lower(target_name@),
            forall|j: int| 0 <= j < i ==> entry_key(es[j].filename, windows) != target@,
        decreases entries.len() - i,
    {
        let f = chars_of(entries[i].filename.as_str());
        let key = match file_name_of(&f, windows) {
            Some(n) => to_lowercase(string_of(&n).as_str()),
            None => String::new(),
        };
        assert(es[i as int].filename == entries@[i as int].filename@);
        if key == target {
            proof {
                let k = entry_index(es, target@, windows).unwrap();
                assert(0 <= k < es.len() && entry_key(es[k].filename, windows) == target@);
                assert(k == i) by {
                    if k < i {
                    } else if k > i {
                    }
                }
            }
            return Some(&entries[i]);
        }
        i += 1;
    }
    if entries.len() == 1 {
        Some(&entries[0])
    } else {
        None
    }
}

// ---------------------------------------------------------------------------
// Path identity, as `Path` compares paths: by their components.
// ---------------------------------------------------------------------------

/// The first separator at or after `i`, or the end of `p`.
pub open spec fn next_sep(p: Seq<char>, windows: bool, i: int) -> int
    decreases p.len() - i,
{
    if i < 0 || i >= p.len() {
        p.len() as int
    } else if is_sep(p[i], windows) {
        i
    } else {
        next_sep(p, windows, i + 1)
    }
}

/// The next separator lies between `i` and the end, with none before it.
pub proof fn lemma_next_sep(p: Seq<char>, windows: bool, i: int)
    requires
        0 <= i <= p.len(),
    ensures
        i <= next_sep(p, windows, i) <= p.len(),
        next_sep(p, windows, i) < p.len() ==> is_sep(p[next_sep(p, windows, i)], windows),
    decreases p.len() - i,
{
    if i < p.len() && !is_sep(p[i], windows) {
        lemma_next_sep(p, windows, i + 1);
    }
}

/// The normal components of `p` from `i` on: the texts between separators
/// that are neither empty nor `.`.
pub open spec fn normal_parts(p: Seq<char>, windows: bool, i: int) -> Seq<Seq<char>>
    decreases p.len() - i,
{
    if i < 0 || i >= p.len() {
        Seq::empty()
    } else {
        proof {
            lemma_next_sep(p, windows, i);
        }
        let j = next_sep(p, windows, i);
        let seg = p.subrange(i, j);
        (if seg.len() > 0 && seg != seq!['.'] {
            seq![seg]
        } else {
            Seq::empty()
        }) + (if j < p.len() {
            normal_parts(p, windows, j + 1)
        } else {
            Seq::empty()
        })
    }
}

/// The components of a path as `Path::components` gives them, as texts: the
/// drive prefix (Windows rules), `/` for a root, `.` for a leading current
/// folder, then the normal components (repeated separators, inner `.` and a
/// trailing separator make no component).
pub open spec fn path_key(p: Seq<char>, windows: bool) -> Seq<Seq<char>> {
    let s = components_start(p, windows);
    let rooted = s < p.len() && is_sep(p[s], windows);
    (if s > 0 {
        seq![p.subrange(0, s)]
    } else {
        Seq::empty()
    }) + (if rooted {
        seq![seq!['/']]
    } else {
        Seq::empty()
    }) + (if !rooted && s < p.len() && p[s] == '.' && (s + 1 == p.len() || is_sep(p[s + 1], windows)) {
        seq![seq!['.']]
    } else {
        Seq::empty()
    }) + normal_parts(p, windows, s)
}

/// The components of path `p` (see `path_key`).
pub fn path_key_of(p: &[char], windows: bool) -> (r: Vec<Vec<char>>)
    ensures
        lines_view(r@) == path_key(p@, windows),
{
    let s: usize = if windows && p.len() >= 2 && p[1] == ':' && ((p[0] >= 'a' && p[0] <= 'z') || (
    p[0] >= 'A' && p[0] <= 'Z')) {
        2
    } else {
        0
    };
    let mut out: Vec<Vec<char>> = Vec::new();
    let ghost k0: Seq<Seq<char>> = if s > 0 {
        seq![p@.subrange(0, s as int)]
    } else {
        Seq::empty()
    };
    if s > 0 {
        out.push(copy_range(p, 0, s));
    }
    assert(lines_view(out@) =~= k0);
    let rooted = s < p.len() && is_separator(p[s], windows);
    let ghost k1: Seq<Seq<char>> = if rooted {
        seq![seq!['/']]
    } else {
        Seq::empty()
    };
    if rooted {
        let root = vec!['/'];
        assert(root@ =~= seq!['/']);
        out.push(root);
    }
    assert(lines_view(out@) =~= k0 + k1);
    let cur = !rooted && s < p.len() && p[s] == '.' && (s + 1 == p.len() || is_separator(p[s + 1], windows));
    let ghost k2: Seq<Seq<char>> = if cur {
        seq![seq!['.']]
    } else {
        Seq::empty()
    };
    if cur {
        let here = vec!['.'];
        assert(here@ =~= seq!['.']);
        out.push(here);
    }
    assert(lines_view(out@) =~= k0 + k1 + k2);
    let ghost head = lines_view(out@);
    assert(head + normal_parts(p@, windows, s as int) =~= path_key(p@, windows));
    let mut i = s;
    while i < p.len()
        invariant
            s <= i <= p.len(),
            head + normal_parts(p@, windows, s as int) == lines_view(out@) + normal_parts(p@, windows, i as int),
        decreases p.len() - i,
    {
        proof {
            lemma_next_sep(p@, windows, i as int);
        }
        let mut j = i;
        while j < p.len() && !is_separator(p[j], windows)
            invariant
                i <= j <= p.len(),
                next_sep(p@, windows, i as int) == next_sep(p@, windows, j as int),
            decreases p.len() - j,
        {
            j += 1;
        }
        assert(next_sep(p@, windows, j as int) == j);
        let seg = copy_range(p, i, j);
        let ghost before = lines_view(out@);
        let dot = seg.len() == 1 && seg[0] == '.';
        assert(dot == (seg@ == seq!['.'])) by {
            if seg@ == seq!['.'] {
                assert(seg@[0] == '.');
            }
            if dot {
                assert(seg@ =~= seq!['.']);
            }
        }
        if seg.len() > 0 && !dot {
            out.push(seg);
            assert(lines_view(out@) =~= before + seq![seg@]);
        } else {
            assert(lines_view(out@) =~= before + Seq::<Seq<char>>::empty());
        }
        if j >= p.len() {
            assert(lines_view(out@) + normal_parts(p@, windows, p@.len() as int) =~= lines_view(out@)
                + Seq::<Seq<char>>::empty());
            i = p.len();
        } else {
            i = j + 1;
        }
    }
    assert(lines_view(out@) + Seq::<Seq<char>>::empty() =~= lines_view(out@));
    out
}

/// Whether two paths name the same file by `Path` equality: the same
/// components (see `path_key`).
pub fn same_path(a: &str, b: &str, windows: bool) -> (r: bool)
    ensures
        r == (path_key(a@, windows) == path_key(b@, windows)),
{
    let ka = path_key_of(&chars_of(a), windows);
    let kb = path_key_of(&chars_of(b), windows);
    let ghost va = lines_view(ka@);
    let ghost vb = lines_view(kb@);
    if ka.len() != kb.len() {
        assert(va.len() != vb.len());
        return false;
    }
    let mut i: usize = 0;
    while i < ka.len()
        invariant
            i <= ka@.len(),
            ka@.len() == kb@.len(),
            va == lines_view(ka@),
            vb == lines_view(kb@),
            va == path_key(a@, windows),
            vb == path_key(b@, windows),
            forall|j: int| 0 <= j < i ==> va[j] == vb[j],
        decreases ka.len() - i,
    {
        assert(va[i as int] == ka@[i as int]@);
        assert(vb[i as int] == kb@[i as int]@);
        if !seq_eq(&ka[i], &kb[i]) {
            assert(va[i as int] != vb[i as int]);
            return false;
        }
        i += 1;
    }
    assert(va =~= vb);
    true
}

} // verus!

verus! {

// ---------------------------------------------------------------------------
// Reading back what `sha256sum` writes.
// ---------------------------------------------------------------------------

/// A hash as the hash tools print it: at least eight lowercase hexadecimal
/// digits.
pub open spec fn lower_hex(h: Seq<char>) -> bool {
    h.len() >= 8 && forall|i: int| 0 <= i < h.len() ==> is_lower_hex_char(#[trigger] h[i])
}

/// A file name that a checksum line carries unchanged: not empty, on one line,
/// without white space at either end and not starting with `*`.
pub open spec fn plain_name(n: Seq<char>) -> bool {
    &&& n.len() > 0
    &&& !is_ws(n[0])
    &&& !is_ws(n.last())
    &&& n[0] != '*'
    &&& forall|i: int| 0 <= i < n.len() ==> n[i] != '\n'
}

/// The text of a checksum file in the GNU coreutils format: one line per
/// pair, the hash, two spaces, the file name.
pub open spec fn gnu_text(pairs: Seq<(Seq<char>, Seq<char>)>) -> Seq<char>
    decreases pairs.len(),
{
    if pairs.len() == 0 {
        Seq::empty()
    } else {
        pairs[0].0 + "  "@ + pairs[0].1 + seq!['\n'] + gnu_text(pairs.drop_first())
    }
}

proof fn lemma_lower_hex_stays(h: Seq<char>)
    requires
        lower_hex(h),
    ensures
        valid_hex(h),
        spec_ascii_lower(h) == h,
        forall|i: int| 0 <= i < h.len() ==> h[i] != ' ' && !is_ws(#[trigger] h[i]),
{
    assert(spec_ascii_lower(h) =~= h) by {
        assert forall|i: int| 0 <= i < h.len() implies lower_char(h[i]) == h[i] by {
            assert(is_lower_hex_char(h[i]));
        }
    }
    assert forall|i: int| 0 <= i < h.len() implies h[i] != ' ' && !is_ws(#[trigger] h[i]) by {
        assert(is_lower_hex_char(h[i]));
    }
}

/// A GNU line reads back as its hash and file name.
pub proof fn lemma_gnu_line_reads_back(h: Seq<char>, n: Seq<char>, hint: Option<Algorithm>)
    requires
        lower_hex(h),
        plain_name(n),
    ensures
        line_entry(h + "  "@ + n, hint) == Some(make_entry(h, n, hint)),
        make_entry(h, n, hint).hash == h,
        make_entry(h, n, hint).filename == n,
{
    reveal_strlit("  ");
    lemma_lower_hex_stays(h);
    let l = h + "  "@ + n;
    assert(l[0] == h[0]);
    assert(l.last() == n.last());
    lemma_trim_unchanged(l);
    lemma_trim_unchanged(h);
    lemma_find_from(l, ' ', 0);
    let k = find_from(l, ' ', 0);
    assert(l[h.len() as int] == ' ');
    assert(k == h.len()) by {
        if k < h.len() {
            assert(l[k] == h[k]);
        }
    }
    assert(l.subrange(0, k) =~= h);
    assert(l.subrange(k + 1, l.len() as int) =~= seq![' '] + n);
    lemma_trim_drops_leading_space(seq![' '], n);
}

/// Reading back a checksum file written in the GNU coreutils format gives
/// every hash and file name, in order.
pub proof fn lemma_gnu_text_reads_back(pairs: Seq<(Seq<char>, Seq<char>)>, hint: Option<Algorithm>)
    requires
        forall|i: int| 0 <= i < pairs.len() ==> lower_hex(#[trigger] pairs[i].0) && plain_name(pairs[i].1),
    ensures
        spec_entries(gnu_text(pairs), hint).len() == pairs.len(),
        forall|i: int| 0 <= i < pairs.len() ==> #[trigger] spec_entries(gnu_text(pairs), hint)[i]
            == make_entry(pairs[i].0, pairs[i].1, hint),
        forall|i: int| 0 <= i < pairs.len() ==> (#[trigger] spec_entries(gnu_text(pairs), hint)[i]).hash
            == pairs[i].0 && spec_entries(gnu_text(pairs), hint)[i].filename == pairs[i].1,
    decreases pairs.len(),
{
    if pairs.len() > 0 {
        reveal_strlit("  ");
        let h = pairs[0].0;
        let n = pairs[0].1;
        let rest = pairs.drop_first();
        assert forall|i: int| 0 <= i < rest.len() implies lower_hex(#[trigger] rest[i].0) && plain_name(rest[i].1) by {
            assert(rest[i] == pairs[i + 1]);
        }
        lemma_gnu_text_reads_back(rest, hint);
        let a = h + "  "@ + n;
        lemma_lower_hex_stays(h);
        assert forall|j: int| 0 <= j < a.len() implies a[j] != '\n' by {
            if j < h.len() {
                assert(a[j] == h[j]);
            } else if j >= h.len() + 2 {
                assert(a[j] == n[j - h.len() - 2]);
            }
        }
        assert(gnu_text(pairs) == a + seq!['\n'] + gnu_text(rest));
        lemma_lines_of_first_line(a, gnu_text(rest));
        assert(a.last() == n.last());
        assert(strip_cr(a) == a);
        lemma_gnu_line_reads_back(h, n, hint);
        let ls = spec_lines(gnu_text(pairs));
        assert(ls[0] == a);
        assert(ls.drop_first() =~= spec_lines(gnu_text(rest)));
        let es = spec_entries(gnu_text(pairs), hint);
        assert(es =~= seq![make_entry(h, n, hint)] + spec_entries(gnu_text(rest), hint));
        assert forall|i: int| 0 <= i < pairs.len() implies #[trigger] es[i] == make_entry(pairs[i].0, pairs[i].1, hint) by {
            if i > 0 {
                assert(pairs[i] == rest[i - 1]);
                assert(es[i] == spec_entries(gnu_text(rest), hint)[i - 1]);
            }
        }
        assert forall|i: int| 0 <= i < pairs.len() implies (#[trigger] es[i]).hash == pairs[i].0 && es[i].filename == pairs[i].1 by {
            if i > 0 {
                assert(pairs[i] == rest[i - 1]);
                assert(es[i] == spec_entries(gnu_text(rest), hint)[i - 1]);
            } else {
                assert(es[0] == make_entry(h, n, hint));
            }
        }
    }
}

/// Lowercasing a hexadecimal hash gives lowercase hexadecimal digits.
proof fn lemma_lowered_hex(h: Seq<char>)
    requires
        valid_hex(h),
    ensures
        lower_hex(spec_ascii_lower(h)),
{
    assert forall|i: int| 0 <= i < h.len() implies is_lower_hex_char(#[trigger] spec_ascii_lower(h)[i]) by {
        assert(is_hex_char(h[i]));
    }
}

/// Every entry read from one line holds a hash of at least eight lowercase
/// hexadecimal digits.
pub proof fn lemma_line_hash_is_lower_hex(l: Seq<char>, hint: Option<Algorithm>)
    requires
        line_entry(l, hint) is Some,
    ensures
        lower_hex(line_entry(l, hint)->0.hash),
{
    let t = spec_trim(l);
    let k = find_from(t, ' ', 0);
    if k < t.len() && valid_hex(spec_trim(t.subrange(0, k))) {
        lemma_lowered_hex(spec_trim(t.subrange(0, k)));
    } else if split_entry(t, ':', hint) is Some {
        let c = find_from(t, ':', 0);
        lemma_lowered_hex(spec_trim(t.subrange(c + 1, t.len() as int)));
    } else {
        let c = find_from(t, '=', 0);
        lemma_lowered_hex(spec_trim(t.subrange(c + 1, t.len() as int)));
    }
}

proof fn lemma_lines_hashes_lower_hex(ls: Seq<Seq<char>>, hint: Option<Algorithm>)
    ensures
        forall|i: int| 0 <= i < entries_of_lines(ls, hint).len() ==> lower_hex(
            (#[trigger] entries_of_lines(ls, hint)[i]).hash,
        ),
    decreases ls.len(),
{
    if ls.len() > 0 {
        lemma_lines_hashes_lower_hex(ls.drop_first(), hint);
        let es = entries_of_lines(ls, hint);
        let tail = entries_of_lines(ls.drop_first(), hint);
        match line_entry(ls[0], hint) {
            Some(e) => {
                lemma_line_hash_is_lower_hex(ls[0], hint);
                assert forall|i: int| 0 <= i < es.len() implies lower_hex((#[trigger] es[i]).hash) by {
                    if i > 0 {
                        assert(es[i] == tail[i - 1]);
                    }
                }
            },
            None => {
                assert(es =~= tail);
            },
        }
    }
}

/// Every entry read from a checksum file holds a hash of at least eight
/// lowercase hexadecimal digits, whatever the file's text.
pub proof fn lemma_entries_have_lower_hex(content: Seq<char>, hint: Option<Algorithm>)
    ensures
        forall|i: int| 0 <= i < spec_entries(content, hint).len() ==> lower_hex(
            (#[trigger] spec_entries(content, hint)[i]).hash,
        ),
{
    lemma_lines_hashes_lower_hex(spec_lines(content), hint);
}

proof fn lemma_ext_variant(i: int)
    requires
        0 <= i < ext_variants().len(),
    ensures
        ext_algorithm(ext_variants()[i]) is Some,
        ext_variants()[i].len() > 0,
        forall|j: int| 0 <= j < ext_variants()[i].len() ==> ext_variants()[i][j] != '.',
{
    reveal_strlit("md5");
    reveal_strlit("MD5");
    reveal_strlit("sha1");
    reveal_strlit("SHA1");
    reveal_strlit("sha224");
    reveal_strlit("sha256");
    reveal_strlit("SHA256");
    reveal_strlit("sha384");
    reveal_strlit("SHA384");
    reveal_strlit("sha512");
    reveal_strlit("SHA512");
    let e = ext_variants()[i];
    if i == 0 || i == 1 {
        assert(spec_ascii_lower(e) =~= "md5"@);
    } else if i == 2 || i == 3 {
        assert(spec_ascii_lower(e) =~= "sha1"@);
        assert(spec_ascii_lower(e) != "md5"@);
    } else if i == 4 || i == 5 {
        assert(spec_ascii_lower(e) =~= "sha256"@);
        assert(spec_ascii_lower(e) != "md5"@);
        assert(spec_ascii_lower(e) != "sha1"@);
        assert(spec_ascii_lower(e)[5] != "sha224"@[5]);
    } else if i == 6 || i == 7 {
        assert(spec_ascii_lower(e) =~= "sha384"@);
        assert(spec_ascii_lower(e) != "md5"@);
        assert(spec_ascii_lower(e) != "sha1"@);
        assert(spec_ascii_lower(e)[3] != "sha224"@[3]);
        assert(spec_ascii_lower(e)[3] != "sha256"@[3]);
    } else {
        assert(spec_ascii_lower(e) =~= "sha512"@);
        assert(spec_ascii_lower(e) != "md5"@);
        assert(spec_ascii_lower(e) != "sha1"@);
        assert(spec_ascii_lower(e)[3] != "sha224"@[3]);
        assert(spec_ascii_lower(e)[3] != "sha256"@[3]);
        assert(spec_ascii_lower(e)[3] != "sha384"@[3]);
    }
}

/// Each `<name>.<ext>` candidate announces, by its extension, the algorithm
/// that extension names.
pub proof fn lemma_ext_candidate_announces(base: Seq<char>, i: int)
    requires
        base.len() > 0,
        0 <= i < ext_variants().len(),
    ensures
        ext_algorithm(ext_variants()[i]) is Some,
        spec_detect(with_exts(base)[i]) == ext_algorithm(ext_variants()[i]),
{
    reveal_strlit(".");
    reveal_strlit("..");
    lemma_ext_variant(i);
    let e = ext_variants()[i];
    let f = base + "."@ + e;
    assert(with_exts(base)[i] == f);
    let d = base.len() as int;
    assert(f[d] == '.');
    assert forall|j: int| d < j < f.len() implies f[j] != '.' by {
        assert(f[j] == e[j - d - 1]);
    }
    lemma_rfind_before_at(f, '.', f.len() as int, d);
    assert(f != ".."@) by {
        assert(f.len() > 2);
    }
    assert(f.subrange(d + 1, f.len() as int) =~= e);
}

/// A checksum file with a single entry gives that entry for any target.
pub proof fn lemma_single_entry_always_found(e: EntryView, target: Seq<char>, windows: bool)
    ensures
        entry_index(seq![e], target, windows) == Some(0int),
{
    let es = seq![e];
    if exists|i: int| 0 <= i < es.len() && entry_key(es[i].filename, windows) == target {
        assert(0 <= 0 < es.len() && entry_key(es[0].filename, windows) == target && forall|j: int|
            0 <= j < 0 ==> entry_key(es[j].filename, windows) != target);
    }
}

// ---------------------------------------------------------------------------
// Every line counts, the last one too.
// ---------------------------------------------------------------------------

proof fn lemma_find_newline_after_push(c: Seq<char>, i: int)
    requires
        0 <= i <= c.len(),
    ensures
        find_from(c + seq!['\n'], '\n', i) == find_from(c, '\n', i),
    decreases c.len() - i,
{
    let d = c + seq!['\n'];
    if i < c.len() {
        assert(d[i] == c[i]);
        if c[i] != '\n' {
            lemma_find_newline_after_push(c, i + 1);
        }
    } else {
        assert(d[i] == '\n');
    }
}

proof fn lemma_entries_cons(l: Seq<char>, rest: Seq<Seq<char>>, hint: Option<Algorithm>)
    ensures
        entries_of_lines(seq![l] + rest, hint) == (match line_entry(l, hint) {
            Some(e) => seq![e],
            None => Seq::empty(),
        }) + entries_of_lines(rest, hint),
{
    assert((seq![l] + rest)[0] == l);
    assert((seq![l] + rest).drop_first() =~= rest);
}

proof fn lemma_lines_after_push(c: Seq<char>, i: int, hint: Option<Algorithm>)
    requires
        0 <= i <= c.len(),
    ensures
        entries_of_lines(lines_from(c + seq!['\n'], i), hint) == entries_of_lines(lines_from(c, i), hint),
    decreases c.len() - i,
{
    let d = c + seq!['\n'];
    lemma_find_newline_after_push(c, i);
    if i == c.len() {
        assert(d.subrange(i, i) =~= Seq::<char>::empty());
        assert(lines_from(d, i + 1) =~= Seq::<Seq<char>>::empty());
        assert(lines_from(d, i) =~= seq![Seq::<char>::empty()] + Seq::<Seq<char>>::empty());
        lemma_entries_cons(Seq::<char>::empty(), Seq::<Seq<char>>::empty(), hint);
        assert(spec_trim(Seq::<char>::empty()).len() == 0);
        assert(entries_of_lines(Seq::<Seq<char>>::empty(), hint) =~= Seq::<EntryView>::empty());
    } else {
        lemma_find_from(c, '\n', i);
        let k = find_from(c, '\n', i);
        assert(d.subrange(i, k) =~= c.subrange(i, k));
        if k < c.len() {
            lemma_lines_after_push(c, k + 1, hint);
            lemma_entries_cons(strip_cr(c.subrange(i, k)), lines_from(c, k + 1), hint);
            lemma_entries_cons(strip_cr(c.subrange(i, k)), lines_from(d, k + 1), hint);
        } else {
            assert(lines_from(d, k + 1) =~= Seq::<Seq<char>>::empty());
            assert(lines_from(d, i) =~= seq![strip_cr(c.subrange(i, k))] + Seq::<Seq<char>>::empty());
            assert(lines_from(c, i) =~= seq![strip_cr(c.subrange(i, k))] + Seq::<Seq<char>>::empty());
        }
    }
}

/// A line break at the end of a checksum file changes nothing: the last line
/// is read whether or not a line break follows it.
pub proof fn lemma_final_line_break_changes_nothing(content: Seq<char>, hint: Option<Algorithm>)
    ensures
        spec_entries(content + seq!['\n'], hint) == spec_entries(content, hint),
{
    lemma_lines_after_push(content, 0, hint);
}

/// Lines are read one after the other: a checksum file made of a line and the
/// text after it gives that line's entry, if it has one, then the entries of
/// the text after it.
pub proof fn lemma_entries_line_by_line(line: Seq<char>, rest: Seq<char>, hint: Option<Algorithm>)
    requires
        forall|j: int| 0 <= j < line.len() ==> line[j] != '\n',
    ensures
        spec_entries(line + seq!['\n'] + rest, hint) == (match line_entry(strip_cr(line), hint) {
            Some(e) => seq![e],
            None => Seq::empty(),
        }) + spec_entries(rest, hint),
{
    lemma_lines_of_first_line(line, rest);
    lemma_entries_cons(strip_cr(line), spec_lines(rest), hint);
}

/// A one-line checksum file in the GNU format, with or without a final line
/// break, gives exactly the entry of that line.
pub proof fn lemma_single_gnu_line(h: Seq<char>, n: Seq<char>, hint: Option<Algorithm>)
    requires
        lower_hex(h),
        plain_name(n),
    ensures
        spec_entries(h + "  "@ + n, hint) == seq![make_entry(h, n, hint)],
        spec_entries(h + "  "@ + n + seq!['\n'], hint) == seq![make_entry(h, n, hint)],
{
    let pairs = seq![(h, n)];
    assert(pairs.drop_first() =~= Seq::<(Seq<char>, Seq<char>)>::empty());
    assert(gnu_text(Seq::<(Seq<char>, Seq<char>)>::empty()) =~= Seq::<char>::empty());
    assert(pairs[0] == (h, n));
    assert(gnu_text(pairs) == pairs[0].0 + "  "@ + pairs[0].1 + seq!['\n'] + gnu_text(pairs.drop_first()));
    assert(gnu_text(pairs) =~= h + "  "@ + n + seq!['\n']);
    lemma_gnu_text_reads_back(pairs, hint);
    let es = spec_entries(gnu_text(pairs), hint);
    assert(es[0] == make_entry(h, n, hint));
    assert(es =~= seq![make_entry(h, n, hint)]);
    lemma_final_line_break_changes_nothing(h + "  "@ + n, hint);
}

/// Looking up a target by name finds an entry of that name whenever there is
/// one: the first entry whose file name, lowercased, is the target's; only
/// when no entry has that name does a checksum file with a single entry give
/// that entry, and otherwise nothing is found.
pub proof fn lemma_entry_index_finds_name(es: Seq<EntryView>, target: Seq<char>, windows: bool)
    ensures
        (exists|i: int| 0 <= i < es.len() && entry_key(#[trigger] es[i].filename, windows) == target)
            ==> (entry_index(es, target, windows) matches Some(k) && 0 <= k < es.len() && entry_key(
            es[k].filename,
            windows,
        ) == target && forall|j: int| 0 <= j < k ==> entry_key(#[trigger] es[j].filename, windows) != target),
        !(exists|i: int| 0 <= i < es.len() && entry_key(#[trigger] es[i].filename, windows) == target)
            ==> entry_index(es, target, windows) == (if es.len() == 1 {
            Some(0int)
        } else {
            None
        }),
{
    if exists|i: int| 0 <= i < es.len() && entry_key(#[trigger] es[i].filename, windows) == target {
        let i = choose|i: int| 0 <= i < es.len() && entry_key(#[trigger] es[i].filename, windows) == target;
        lemma_first_matching(es, target, windows, i);
    }
}

proof fn lemma_first_matching(es: Seq<EntryView>, target: Seq<char>, windows: bool, i: int)
    requires
        0 <= i < es.len(),
        entry_key(es[i].filename, windows) == target,
    ensures
        exists|k: int|
            0 <= k < es.len() && entry_key(es[k].filename, windows) == target && forall|j: int|
                0 <= j < k ==> entry_key(es[j].filename, windows) != target,
    decreases i,
{
    if exists|j: int| 0 <= j < i && entry_key(es[j].filename, windows) == target {
        let j = choose|j: int| 0 <= j < i && entry_key(es[j].filename, windows) == target;
        lemma_first_matching(es, target, windows, j);
    } else {
        assert(0 <= i < es.len() && entry_key(es[i].filename, windows) == target && forall|j: int|
            0 <= j < i ==> entry_key(es[j].filename, windows) != target);
    }
}

// ---------------------------------------------------------------------------
// Algorithm names in checksum file names.
// ---------------------------------------------------------------------------

/// How a checksum file's name spells an algorithm, in upper case.
pub open spec fn upper_algorithm_name(a: Algorithm) -> Seq<char> {
    match a {
        Algorithm::Md5 => "MD5"@,
        Algorithm::Sha1 => "SHA1"@,
        Algorithm::Sha224 => "SHA224"@,
        Algorithm::Sha256 => "SHA256"@,
        Algorithm::Sha384 => "SHA384"@,
        Algorithm::Sha512 => "SHA512"@,
        Algorithm::Crc32 => "CRC32"@,
    }
}

/// The algorithm an upper-cased name announces is one whose name it holds
/// (CRC32 is never announced by name), and a name holding the name of
/// MD5 or of a SHA algorithm announces one.
pub proof fn lemma_name_algorithm_is_named(u: Seq<char>)
    ensures
        name_algorithm(u) matches Some(a) ==> a != Algorithm::Crc32 && contains_seq(
            u,
            upper_algorithm_name(a),
        ),
        (contains_seq(u, upper_algorithm_name(Algorithm::Md5)) || contains_seq(
            u,
            upper_algorithm_name(Algorithm::Sha1),
        ) || contains_seq(u, upper_algorithm_name(Algorithm::Sha224)) || contains_seq(
            u,
            upper_algorithm_name(Algorithm::Sha256),
        ) || contains_seq(u, upper_algorithm_name(Algorithm::Sha384)) || contains_seq(
            u,
            upper_algorithm_name(Algorithm::Sha512),
        )) ==> name_algorithm(u) is Some,
{
}

proof fn lemma_no_dot(s: Seq<char>)
    requires
        forall|i: int| 0 <= i < s.len() ==> s[i] != '.',
    ensures
        file_ext(s) is None,
{
    lemma_rfind_before(s, '.', s.len() as int);
}

/// The file names `<ALGO>SUMS` and `<algo>sums` (as `sha256sum` and the like
/// are used to write them) announce their algorithm, for MD5 and every SHA
/// algorithm.
pub proof fn lemma_sums_names_announce(a: Algorithm)
    requires
        a != Algorithm::Crc32,
    ensures
        spec_detect_ascii(upper_algorithm_name(a) + "SUMS"@) == Some(a),
        spec_detect_ascii(spec_ascii_lower(upper_algorithm_name(a)) + "sums"@) == Some(a),
{
    reveal_strlit("MD5");
    reveal_strlit("SHA1");
    reveal_strlit("SHA224");
    reveal_strlit("SHA256");
    reveal_strlit("SHA384");
    reveal_strlit("SHA512");
    reveal_strlit("SUMS");
    reveal_strlit("sums");
    let up = upper_algorithm_name(a) + "SUMS"@;
    let low = spec_ascii_lower(upper_algorithm_name(a)) + "sums"@;
    assert(spec_ascii_upper(up) =~= up);
    assert(spec_ascii_upper(low) =~= up);
    lemma_no_dot(up);
    assert forall|i: int| 0 <= i < low.len() implies low[i] != '.' by {
        assert(spec_ascii_upper(low)[i] == up[i]);
    }
    lemma_no_dot(low);
    let n = upper_algorithm_name(a);
    assert(occurs_at(up, n, 0)) by {
        assert(up.subrange(0, n.len() as int) =~= n);
    }
    match a {
        Algorithm::Md5 => {
            lemma_absent_by_pair(up, "SHA512"@, 1);
            lemma_absent_by_pair(up, "SHA384"@, 1);
            lemma_absent_by_pair(up, "SHA256"@, 1);
            lemma_absent_by_pair(up, "SHA224"@, 1);
            lemma_absent_by_pair(up, "SHA1"@, 1);
        },
        Algorithm::Sha1 => {
            lemma_absent_by_pair(up, "SHA512"@, 3);
            lemma_absent_by_pair(up, "SHA384"@, 3);
            lemma_absent_by_pair(up, "SHA256"@, 3);
            lemma_absent_by_pair(up, "SHA224"@, 3);
        },
        Algorithm::Sha224 => {
            lemma_absent_by_pair(up, "SHA512"@, 3);
            lemma_absent_by_pair(up, "SHA384"@, 3);
            lemma_absent_by_pair(up, "SHA256"@, 4);
        },
        Algorithm::Sha256 => {
            lemma_absent_by_pair(up, "SHA512"@, 3);
            lemma_absent_by_pair(up, "SHA384"@, 3);
        },
        Algorithm::Sha384 => {
            lemma_absent_by_pair(up, "SHA512"@, 3);
        },
        _ => {},
    }
}

/// Whatever the target's name, the generic candidates (after the twenty
/// named after the target) include `checksums.txt` and, for MD5, SHA-1,
/// SHA-256 and SHA-512, both the `<ALGO>SUMS` and the `<algo>sums` files.
pub proof fn lemma_generic_candidates(f: Seq<char>, a: Algorithm)
    requires
        a == Algorithm::Md5 || a == Algorithm::Sha1 || a == Algorithm::Sha256 || a
            == Algorithm::Sha512,
    ensures
        spec_candidates(f).len() == 34,
        spec_candidates(f).subrange(20, 34) == seq![
            "checksums.txt"@,
            "CHECKSUMS"@,
            "CHECKSUMS.txt"@,
            "SHA256SUMS"@,
            "SHA512SUMS"@,
            "SHA1SUMS"@,
            "MD5SUMS"@,
            "sha256sums"@,
            "sha512sums"@,
            "sha1sums"@,
            "md5sums"@,
            "checksum.txt"@,
            "checksum.sha256"@,
            "checksum.md5"@,
        ],
        spec_candidates(f).subrange(20, 34).contains("checksums.txt"@),
        spec_candidates(f).subrange(20, 34).contains(upper_algorithm_name(a) + "SUMS"@),
        spec_candidates(f).subrange(20, 34).contains(spec_ascii_lower(upper_algorithm_name(a)) + "sums"@),
{
    reveal_strlit("MD5");
    reveal_strlit("SHA1");
    reveal_strlit("SHA256");
    reveal_strlit("SHA512");
    reveal_strlit("SUMS");
    reveal_strlit("sums");
    reveal_strlit("MD5SUMS");
    reveal_strlit("SHA1SUMS");
    reveal_strlit("SHA256SUMS");
    reveal_strlit("SHA512SUMS");
    reveal_strlit("md5sums");
    reveal_strlit("sha1sums");
    reveal_strlit("sha256sums");
    reveal_strlit("sha512sums");
    let c = spec_candidates(f);
    assert(with_exts(f).len() == 10);
    assert(with_exts(file_stem(f)).len() == 10);
    let g = c.subrange(20, 34);
    assert(g =~= known_names());
    assert(g[0] == "checksums.txt"@);
    let up = upper_algorithm_name(a) + "SUMS"@;
    let low = spec_ascii_lower(upper_algorithm_name(a)) + "sums"@;
    match a {
        Algorithm::Md5 => {
            assert(up =~= "MD5SUMS"@);
            assert(low =~= "md5sums"@);
            assert(g[6] == up && g[10] == low);
        },
        Algorithm::Sha1 => {
            assert(up =~= "SHA1SUMS"@);
            assert(low =~= "sha1sums"@);
            assert(g[5] == up && g[9] == low);
        },
        Algorithm::Sha256 => {
            assert(up =~= "SHA256SUMS"@);
            assert(low =~= "sha256sums"@);
            assert(g[3] == up && g[7] == low);
        },
        _ => {
            assert(up =~= "SHA512SUMS"@);
            assert(low =~= "sha512sums"@);
            assert(g[4] == up && g[8] == low);
        },
    }
}

} // verus!
