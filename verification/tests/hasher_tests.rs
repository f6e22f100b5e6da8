use hash_checker::hasher::{compute_hash, Algorithm};

#[test]
fn from_str_accepts_names_and_dashed_spellings() {
    assert_eq!(Algorithm::from_str("md5"), Some(Algorithm::Md5));
    assert_eq!(Algorithm::from_str("MD5"), Some(Algorithm::Md5));
    assert_eq!(Algorithm::from_str("sha1"), Some(Algorithm::Sha1));
    assert_eq!(Algorithm::from_str("SHA-1"), Some(Algorithm::Sha1));
    assert_eq!(Algorithm::from_str("sha224"), Some(Algorithm::Sha224));
    assert_eq!(Algorithm::from_str("sha-224"), Some(Algorithm::Sha224));
    assert_eq!(Algorithm::from_str("Sha256"), Some(Algorithm::Sha256));
    assert_eq!(Algorithm::from_str("sha-256"), Some(Algorithm::Sha256));
    assert_eq!(Algorithm::from_str("sha384"), Some(Algorithm::Sha384));
    assert_eq!(Algorithm::from_str("SHA-384"), Some(Algorithm::Sha384));
    assert_eq!(Algorithm::from_str("sha512"), Some(Algorithm::Sha512));
    assert_eq!(Algorithm::from_str("sha-512"), Some(Algorithm::Sha512));
    assert_eq!(Algorithm::from_str("CRC32"), Some(Algorithm::Crc32));
}

#[test]
fn from_str_rejects_unknown_names() {
    assert_eq!(Algorithm::from_str(""), None);
    assert_eq!(Algorithm::from_str("sha3"), None);
    assert_eq!(Algorithm::from_str("crc-32"), None);
    assert_eq!(Algorithm::from_str(" md5"), None);
    assert_eq!(Algorithm::from_str("\u{212A}"), None);
}

#[test]
fn from_hash_len_maps_each_length() {
    assert_eq!(Algorithm::from_hash_len(&"a".repeat(8)), Some(Algorithm::Crc32));
    assert_eq!(Algorithm::from_hash_len(&"a".repeat(32)), Some(Algorithm::Md5));
    assert_eq!(Algorithm::from_hash_len(&"a".repeat(40)), Some(Algorithm::Sha1));
    assert_eq!(Algorithm::from_hash_len(&"a".repeat(56)), Some(Algorithm::Sha224));
    assert_eq!(Algorithm::from_hash_len(&"a".repeat(64)), Some(Algorithm::Sha256));
    assert_eq!(Algorithm::from_hash_len(&"a".repeat(96)), Some(Algorithm::Sha384));
    assert_eq!(Algorithm::from_hash_len(&"a".repeat(128)), Some(Algorithm::Sha512));
    assert_eq!(Algorithm::from_hash_len(&"a".repeat(63)), None);
    assert_eq!(Algorithm::from_hash_len(""), None);
}

#[test]
fn all_lists_every_algorithm_in_menu_order() {
    assert_eq!(
        Algorithm::all(),
        vec![
            Algorithm::Md5,
            Algorithm::Sha1,
            Algorithm::Sha224,
            Algorithm::Sha256,
            Algorithm::Sha384,
            Algorithm::Sha512,
            Algorithm::Crc32
        ]
    );
}

#[test]
fn display_names() {
    assert_eq!(Algorithm::Md5.name(), "MD5");
    assert_eq!(Algorithm::Sha1.name(), "SHA-1");
    assert_eq!(Algorithm::Sha224.name(), "SHA-224");
    assert_eq!(Algorithm::Sha256.name(), "SHA-256");
    assert_eq!(Algorithm::Sha384.name(), "SHA-384");
    assert_eq!(Algorithm::Sha512.name(), "SHA-512");
    assert_eq!(Algorithm::Crc32.name(), "CRC32");
}

#[test]
fn display_name_reads_back_as_the_same_algorithm() {
    for a in Algorithm::all() {
        assert_eq!(Algorithm::from_str(&a.name()), Some(a));
    }
}

#[test]
fn known_digests_of_abc() {
    let d = b"abc";
    assert_eq!(compute_hash(d, &Algorithm::Md5), "900150983cd24fb0d6963f7d28e17f72");
    assert_eq!(compute_hash(d, &Algorithm::Sha1), "a9993e364706816aba3e25717850c26c9cd0d89d");
    assert_eq!(
        compute_hash(d, &Algorithm::Sha224),
        "23097d223405d8228642a477bda255b32aadbce4bda0b3f7e36c9da7"
    );
    assert_eq!(
        compute_hash(d, &Algorithm::Sha256),
        "ba7816bf8f01cfea414140de5dae2223b00361a396177a9cb410ff61f20015ad"
    );
    assert_eq!(
        compute_hash(d, &Algorithm::Sha384),
        "cb00753f45a35e8bb5a03d699ac65007272c32ab0eded1631a8b605a43ff5bed8086072ba1e7cc2358baeca134c825a7"
    );
    assert_eq!(
        compute_hash(d, &Algorithm::Sha512),
        "ddaf35a193617abacc417349ae20413112e6fa4e89a97ea20a9eeee64b55d39a2192992a274fc1a836ba3c23a3feebbd454d4423643ce80e2a9ac94fa54ca49f"
    );
}

#[test]
fn empty_input_digests() {
    assert_eq!(compute_hash(b"", &Algorithm::Md5), "d41d8cd98f00b204e9800998ecf8427e");
    assert_eq!(
        compute_hash(b"", &Algorithm::Sha256),
        "e3b0c44298fc1c149afbf4c8996fb92427ae41e4649b934ca495991b7852b855"
    );
    assert_eq!(compute_hash(b"", &Algorithm::Crc32), "00000000");
}

#[test]
fn crc32_is_eight_lowercase_digits() {
    assert_eq!(compute_hash(b"123456789", &Algorithm::Crc32), "cbf43926");
    assert_eq!(compute_hash(b"a", &Algorithm::Crc32), "e8b7be43");
}

#[test]
fn digest_length_identifies_the_algorithm() {
    for a in Algorithm::all() {
        let h = compute_hash(b"some file contents", &a);
        assert_eq!(Algorithm::from_hash_len(&h), Some(a));
        assert!(h.chars().all(|c| c.is_ascii_digit() || ('a'..='f').contains(&c)));
    }
}
