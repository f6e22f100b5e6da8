use hash_checker::checksum::same_path;
use hash_checker::checksum::{
    checksum_candidates, detect_algorithm_from_file, file_name_of, find_checksum_file,
    find_entry_for_file, is_valid_hex, parse_checksum_file, parse_line, ChecksumEntry,
};
use hash_checker::hasher::Algorithm;

fn chars(s: &str) -> Vec<char> {
    s.chars().collect()
}

const H64: &str = "ba7816bf8f01cfea414140de5dae2223b00361a396177a9cb410ff61f20015ad";

#[test]
fn valid_hex_needs_eight_hex_digits() {
    assert!(is_valid_hex(&chars("deadBEEF")));
    assert!(!is_valid_hex(&chars("deadbee")));
    assert!(!is_valid_hex(&chars("")));
    assert!(!is_valid_hex(&chars("deadbeeg")));
}

#[test]
fn parse_line_gnu_format() {
    let line = format!("{}  ubuntu.iso", H64.to_uppercase());
    let e = parse_line(&chars(&line), None).unwrap();
    assert_eq!(e.hash, H64);
    assert_eq!(e.filename, "ubuntu.iso");
    assert_eq!(e.algorithm, Some(Algorithm::Sha256));
}

#[test]
fn parse_line_binary_mode_drops_star() {
    let line = format!("{} *ubuntu.iso", H64);
    let e = parse_line(&chars(&line), Some(Algorithm::Md5)).unwrap();
    assert_eq!(e.filename, "ubuntu.iso");
    assert_eq!(e.algorithm, Some(Algorithm::Md5));
}

#[test]
fn parse_line_colon_and_equals_formats() {
    let e = parse_line(&chars("file.bin: DEADBEEF"), None).unwrap();
    assert_eq!(e.hash, "deadbeef");
    assert_eq!(e.filename, "file.bin");
    assert_eq!(e.algorithm, Some(Algorithm::Crc32));
    let e = parse_line(&chars("file.bin=0123456789abcdef0123456789abcdef"), None).unwrap();
    assert_eq!(e.filename, "file.bin");
    assert_eq!(e.algorithm, Some(Algorithm::Md5));
}

#[test]
fn parse_line_rejects_unrecognised_lines() {
    assert!(parse_line(&chars("hello world"), None).is_none());
    assert!(parse_line(&chars("abc"), None).is_none());
    assert!(parse_line(&chars("name: not-hex-value"), None).is_none());
}

#[test]
fn parse_line_unknown_length_leaves_algorithm_open() {
    let e = parse_line(&chars("0123456789  f"), None).unwrap();
    assert_eq!(e.algorithm, None);
}

#[test]
fn parse_file_skips_comments_and_blank_lines() {
    let content = format!("# comment\n\n{}  a.iso\r\nnot a line\n{} *b.iso\n", H64, H64);
    let es = parse_checksum_file("SHA256SUMS", &content).unwrap();
    assert_eq!(es.len(), 2);
    assert_eq!(es[0].filename, "a.iso");
    assert_eq!(es[1].filename, "b.iso");
    assert_eq!(es[0].algorithm, Some(Algorithm::Sha256));
}

#[test]
fn parse_file_hint_from_name_wins_over_length() {
    let content = format!("{}  a.iso\n", H64);
    let es = parse_checksum_file("list.md5", &content).unwrap();
    assert_eq!(es[0].algorithm, Some(Algorithm::Md5));
}

#[test]
fn parse_file_without_entries_fails() {
    let err = parse_checksum_file("checksums.txt", "# nothing\n\n").unwrap_err();
    assert_eq!(err, "Aucune entrée valide trouvée dans le fichier checksum.");
    assert!(parse_checksum_file("checksums.txt", "").is_err());
}

#[test]
fn detect_algorithm_by_extension_and_name() {
    assert_eq!(detect_algorithm_from_file("fichier.sha256"), Some(Algorithm::Sha256));
    assert_eq!(detect_algorithm_from_file("ubuntu.iso.MD5"), Some(Algorithm::Md5));
    assert_eq!(detect_algorithm_from_file("x.sha224"), Some(Algorithm::Sha224));
    assert_eq!(detect_algorithm_from_file("SHA256SUMS"), Some(Algorithm::Sha256));
    assert_eq!(detect_algorithm_from_file("sha512sums.txt"), Some(Algorithm::Sha512));
    assert_eq!(detect_algorithm_from_file("SHA1SUMS"), Some(Algorithm::Sha1));
    assert_eq!(detect_algorithm_from_file("MD5SUMS"), Some(Algorithm::Md5));
    assert_eq!(detect_algorithm_from_file("checksums.txt"), None);
    assert_eq!(detect_algorithm_from_file(".sha256"), Some(Algorithm::Sha256));
}

#[test]
fn candidates_in_priority_order() {
    let c = checksum_candidates("ubuntu.iso");
    assert_eq!(c.len(), 34);
    assert_eq!(c[0], "ubuntu.iso.md5");
    assert_eq!(c[1], "ubuntu.iso.MD5");
    assert_eq!(c[4], "ubuntu.iso.sha256");
    assert_eq!(c[10], "ubuntu.md5");
    assert_eq!(c[15], "ubuntu.SHA256");
    assert_eq!(c[20], "checksums.txt");
    assert_eq!(c[23], "SHA256SUMS");
    assert_eq!(c[33], "checksum.md5");
}

#[test]
fn find_checksum_file_takes_first_present() {
    let mut present = vec![false; 34];
    present[23] = true;
    present[14] = true;
    assert_eq!(find_checksum_file("ubuntu.iso", &present), Some("ubuntu.sha256".to_string()));
    assert_eq!(find_checksum_file("ubuntu.iso", &vec![false; 34]), None);
    assert_eq!(find_checksum_file("ubuntu.iso", &[]), None);
}

#[test]
fn file_name_of_paths() {
    let f = |p: &str, w: bool| file_name_of(&chars(p), w).map(|v| v.into_iter().collect::<String>());
    assert_eq!(f("dir/ubuntu.iso", false), Some("ubuntu.iso".to_string()));
    assert_eq!(f("./ubuntu.iso", false), Some("ubuntu.iso".to_string()));
    assert_eq!(f("foo.txt/.//", false), Some("foo.txt".to_string()));
    assert_eq!(f("a/..", false), None);
    assert_eq!(f("/", false), None);
    assert_eq!(f("dir\\x.iso", false), Some("dir\\x.iso".to_string()));
    assert_eq!(f("dir\\x.iso", true), Some("x.iso".to_string()));
    assert_eq!(f("C:x.iso", true), Some("x.iso".to_string()));
}

fn entry(hash: &str, name: &str) -> ChecksumEntry {
    ChecksumEntry { hash: hash.to_string(), filename: name.to_string(), algorithm: None }
}

#[test]
fn find_entry_matches_name_without_case() {
    let es = vec![entry("11111111", "other.iso"), entry("22222222", "./sub/Ubuntu.ISO")];
    let e = find_entry_for_file(&es, Some("ubuntu.iso"), false).unwrap();
    assert_eq!(e.hash, "22222222");
}

#[test]
fn find_entry_single_entry_fallback() {
    let es = vec![entry("11111111", "something-else.iso")];
    assert_eq!(find_entry_for_file(&es, Some("ubuntu.iso"), false).unwrap().hash, "11111111");
    let es = vec![entry("11111111", "a.iso"), entry("22222222", "b.iso")];
    assert!(find_entry_for_file(&es, Some("ubuntu.iso"), false).is_none());
    assert!(find_entry_for_file(&[], Some("ubuntu.iso"), false).is_none());
}

#[test]
fn gnu_text_reads_back_every_pair() {
    let pairs = [
        (compute(b"one", Algorithm::Sha256), "one.iso"),
        (compute(b"two", Algorithm::Sha256), "dir/two file.bin"),
        (compute(b"three", Algorithm::Sha256), "three"),
    ];
    let mut text = String::new();
    for (h, n) in &pairs {
        text.push_str(&format!("{}  {}\n", h, n));
    }
    let es = parse_checksum_file("SHA256SUMS", &text).unwrap();
    assert_eq!(es.len(), pairs.len());
    for (e, (h, n)) in es.iter().zip(pairs.iter()) {
        assert_eq!(&e.hash, h);
        assert_eq!(e.filename, *n);
        assert_eq!(e.algorithm, Some(Algorithm::Sha256));
    }
}

fn compute(data: &[u8], a: Algorithm) -> String {
    hash_checker::hasher::compute_hash(data, &a)
}

#[test]
fn parsed_hashes_are_lowercase_hex() {
    let text = "# comment\nDEADBEEF  a.bin\nb.bin: CAFEBABE12\nc.bin=0123456789ABCDEF\nnot a line\n";
    let es = parse_checksum_file("sums.txt", text).unwrap();
    assert_eq!(es.len(), 3);
    for e in &es {
        assert!(e.hash.len() >= 8);
        assert!(e.hash.chars().all(|c| c.is_ascii_digit() || ('a'..='f').contains(&c)));
    }
}

#[test]
fn extension_candidates_announce_their_algorithm() {
    let cands = checksum_candidates("ubuntu.iso");
    let expected = [
        Algorithm::Md5, Algorithm::Md5, Algorithm::Sha1, Algorithm::Sha1, Algorithm::Sha256,
        Algorithm::Sha256, Algorithm::Sha384, Algorithm::Sha384, Algorithm::Sha512, Algorithm::Sha512,
    ];
    for (c, a) in cands.iter().take(10).zip(expected.iter()) {
        assert_eq!(detect_algorithm_from_file(c), Some(*a), "{}", c);
    }
    for (c, a) in cands.iter().skip(10).take(10).zip(expected.iter()) {
        assert_eq!(detect_algorithm_from_file(c), Some(*a), "{}", c);
    }
}

#[test]
fn single_entry_is_found_for_any_target() {
    let es = vec![ChecksumEntry { hash: "deadbeef".to_string(), filename: "other.iso".to_string(), algorithm: None }];
    assert_eq!(find_entry_for_file(&es, Some("whatever.bin"), false).unwrap().hash, "deadbeef");
    assert_eq!(find_entry_for_file(&es, Some(""), true).unwrap().hash, "deadbeef");
}

#[test]
fn target_without_file_name_matches_nothing() {
    let es = vec![ChecksumEntry { hash: "deadbeef".to_string(), filename: "a.iso".to_string(), algorithm: None }];
    assert!(find_entry_for_file(&es, None, false).is_none());
}

#[test]
fn paths_compare_by_components() {
    assert!(same_path("/d/a.iso", "/d//a.iso", false));
    assert!(same_path("/d/a.iso", "/d/./a.iso", false));
    assert!(same_path("d/a/", "d/a", false));
    assert!(!same_path("./a", "a", false));
    assert!(same_path("./a", "./a", false));
    assert!(!same_path("/a", "a", false));
    assert!(!same_path("/d/../a", "/a", false));
    assert!(same_path("C:\\d\\a.iso", "C:/d//a.iso", true));
    assert!(!same_path("C:\\d\\a.iso", "C:/d//a.iso", false));
    for (a, b) in [("/d/a.iso", "/d//a.iso"), ("./a", "a"), ("a/./b/", "a/b"), ("", "."), ("//x", "/x")] {
        assert_eq!(same_path(a, b, false), std::path::Path::new(a) == std::path::Path::new(b), "{} {}", a, b);
    }
}

#[test]
fn names_of_generic_checksum_files() {
    assert_eq!(detect_algorithm_from_file("sha256sums"), Some(Algorithm::Sha256));
    assert_eq!(detect_algorithm_from_file("checksums.txt"), None);
    assert_eq!(detect_algorithm_from_file("md5sums"), Some(Algorithm::Md5));
}
