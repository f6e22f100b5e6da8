//! Hash algorithms and the computation of a digest as lowercase hexadecimal.

use vstd::prelude::*;
use crate::text::{chars_of, seq_eq, ascii_lower, spec_ascii_lower};

verus! {

/// The hash algorithms this tool can compute and check.
#[derive(Debug, Clone, Copy, PartialEq, Eq, Structural)]
pub enum Algorithm {
    Md5,
    Sha1,
    Sha224,
    Sha256,
    Sha384,
    Sha512,
    Crc32,
}

// ---------------------------------------------------------------------------
// Names of digests computed by the outside hash crates.
// ---------------------------------------------------------------------------

/// The MD5 digest of a byte sequence (RFC 1321).
pub uninterp spec fn md5_digest(data: Seq<u8>) -> Seq<u8>;
/// The SHA-1 digest of a byte sequence (FIPS 180-4).
pub uninterp spec fn sha1_digest(data: Seq<u8>) -> Seq<u8>;
/// The SHA-224 digest of a byte sequence (FIPS 180-4).
pub uninterp spec fn sha224_digest(data: Seq<u8>) -> Seq<u8>;
/// The SHA-256 digest of a byte sequence (FIPS 180-4).
pub uninterp spec fn sha256_digest(data: Seq<u8>) -> Seq<u8>;
/// The SHA-384 digest of a byte sequence (FIPS 180-4).
pub uninterp spec fn sha384_digest(data: Seq<u8>) -> Seq<u8>;
/// The SHA-512 digest of a byte sequence (FIPS 180-4).
pub uninterp spec fn sha512_digest(data: Seq<u8>) -> Seq<u8>;
/// Eight steps of the reflected CRC-32 shift register: each step shifts
/// right by one, folding in the polynomial 0xEDB88320 when the bit that leaves
/// is set.
pub open spec fn crc32_shift(c: u32, n: nat) -> u32
    decreases n,
{
    if n == 0 {
        c
    } else {
        crc32_shift(
            if c & 1u32 == 1u32 {
                (c >> 1u32) ^ 0xEDB8_8320u32
            } else {
                c >> 1u32
            },
            (n - 1) as nat,
        )
    }
}

/// The CRC-32 register after feeding `data`, byte by byte, from `c`.
pub open spec fn crc32_update(c: u32, data: Seq<u8>) -> u32
    decreases data.len(),
{
    if data.len() == 0 {
        c
    } else {
        crc32_update(crc32_shift(c ^ (data[0] as u32), 8), data.drop_first())
    }
}

/// The CRC-32 (IEEE 802.3) checksum of a byte sequence: the reflected
/// register started at 0xFFFFFFFF, and its final value complemented.
pub open spec fn crc32_checksum(data: Seq<u8>) -> u32 {
    crc32_update(0xFFFF_FFFFu32, data) ^ 0xFFFF_FFFFu32
}

/// `md5::compute`: the 16 bytes of the MD5 digest of `data`.
#[verifier::external_body]
fn md5_bytes(data: &[u8]) -> (r: Vec<u8>)
    ensures
        r@ == md5_digest(data@),
        r@.len() == 16,
{
    md5::compute(data).0.to_vec()
}

/// `sha1::Sha1::digest`: the 20 bytes of the SHA-1 digest of `data`.
#[verifier::external_body]
fn sha1_bytes(data: &[u8]) -> (r: Vec<u8>)
    ensures
        r@ == sha1_digest(data@),
        r@.len() == 20,
{
    <sha1::Sha1 as sha1::Digest>::digest(data).to_vec()
}

/// `sha2::Sha224::digest`: the 28 bytes of the SHA-224 digest of `data`.
#[verifier::external_body]
fn sha224_bytes(data: &[u8]) -> (r: Vec<u8>)
    ensures
        r@ == sha224_digest(data@),
        r@.len() == 28,
{
    <sha2::Sha224 as sha2::Digest>::digest(data).to_vec()
}

/// `sha2::Sha256::digest`: the 32 bytes of the SHA-256 digest of `data`.
#[verifier::external_body]
fn sha256_bytes(data: &[u8]) -> (r: Vec<u8>)
    ensures
        r@ == sha256_digest(data@),
        r@.len() == 32,
{
    <sha2::Sha256 as sha2::Digest>::digest(data).to_vec()
}

/// `sha2::Sha384::digest`: the 48 bytes of the SHA-384 digest of `data`.
#[verifier::external_body]
fn sha384_bytes(data: &[u8]) -> (r: Vec<u8>)
    ensures
        r@ == sha384_digest(data@),
        r@.len() == 48,
{
    <sha2::Sha384 as sha2::Digest>::digest(data).to_vec()
}

/// `sha2::Sha512::digest`: the 64 bytes of the SHA-512 digest of `data`.
#[verifier::external_body]
fn sha512_bytes(data: &[u8]) -> (r: Vec<u8>)
    ensures
        r@ == sha512_digest(data@),
        r@.len() == 64,
{
    <sha2::Sha512 as sha2::Digest>::digest(data).to_vec()
}

/// `crc32fast::hash`: the CRC-32 (IEEE) checksum of `data`, as
/// `crc32_checksum` states it.
#[verifier::external_body]
fn crc32_value(data: &[u8]) -> (r: u32)
    ensures
        r == crc32_checksum(data@),
{
    crc32fast::hash(data)
}

// ---------------------------------------------------------------------------
// Lowercase hexadecimal encoding.
// ---------------------------------------------------------------------------

/// The lowercase hexadecimal digit for a value below 16.
pub open spec fn hex_digit(n: int) -> char {
    if n < 10 {
        (48 + n) as char
    } else {
        (87 + n) as char
    }
}

/// Lowercase hexadecimal text of a byte sequence: two digits per byte, high
/// nibble first.
pub open spec fn hex_lower(bytes: Seq<u8>) -> Seq<char>
    decreases bytes.len(),
{
    if bytes.len() == 0 {
        Seq::empty()
    } else {
        seq![hex_digit(bytes[0] as int / 16), hex_digit(bytes[0] as int % 16)] + hex_lower(bytes.drop_first())
    }
}

/// `hex::encode`: lowercase hexadecimal text, two digits per byte, high nibble
/// first.
#[verifier::external_body]
fn hex_encode(data: &[u8]) -> (r: String)
    ensures
        r@ == hex_lower(data@),
{
    hex::encode(data)
}

/// A lowercase hexadecimal digit: `0`-`9` or `a`-`f`.
pub open spec fn is_lower_hex_char(c: char) -> bool {
    ('0' <= c && c <= '9') || ('a' <= c && c <= 'f')
}

/// Hexadecimal text has two lowercase digits per byte.
pub proof fn lemma_hex_lower_shape(bytes: Seq<u8>)
    ensures
        hex_lower(bytes).len() == 2 * bytes.len(),
        forall|i: int| 0 <= i < hex_lower(bytes).len() ==> is_lower_hex_char(#[trigger] hex_lower(bytes)[i]),
    decreases bytes.len(),
{
    if bytes.len() > 0 {
        lemma_hex_lower_shape(bytes.drop_first());
        let b = bytes[0];
        assert(0 <= b / 16 < 16 && 0 <= b % 16 < 16);
        let head = seq![hex_digit(bytes[0] as int / 16), hex_digit(bytes[0] as int % 16)];
        assert forall|i: int| 0 <= i < hex_lower(bytes).len() implies is_lower_hex_char(
            #[trigger] hex_lower(bytes)[i],
        ) by {
            if i >= 2 {
                assert(hex_lower(bytes)[i] == hex_lower(bytes.drop_first())[i - 2]);
            }
        }
    }
}

/// The four bytes of a 32-bit value, most significant first.
pub open spec fn be_bytes(x: u32) -> Seq<u8> {
    seq![
        (x / 0x100_0000) as u8,
        ((x / 0x1_0000) % 0x100) as u8,
        ((x / 0x100) % 0x100) as u8,
        (x % 0x100) as u8,
    ]
}

fn be_bytes_of(x: u32) -> (r: Vec<u8>)
    ensures
        r@ == be_bytes(x),
{
    let mut r: Vec<u8> = Vec::new();
    r.push((x / 0x100_0000) as u8);
    r.push(((x / 0x1_0000) % 0x100) as u8);
    r.push(((x / 0x100) % 0x100) as u8);
    r.push((x % 0x100) as u8);
    assert(r@ =~= be_bytes(x));
    r
}

// ---------------------------------------------------------------------------
// The algorithm type.
// ---------------------------------------------------------------------------

/// The digest of `data` under `algo`, as lowercase hexadecimal text. CRC-32 is
/// written as eight digits, most significant first.
pub open spec fn digest_hex(algo: Algorithm, data: Seq<u8>) -> Seq<char> {
    match algo {
        Algorithm::Md5 => hex_lower(md5_digest(data)),
        Algorithm::Sha1 => hex_lower(sha1_digest(data)),
        Algorithm::Sha224 => hex_lower(sha224_digest(data)),
        Algorithm::Sha256 => hex_lower(sha256_digest(data)),
        Algorithm::Sha384 => hex_lower(sha384_digest(data)),
        Algorithm::Sha512 => hex_lower(sha512_digest(data)),
        Algorithm::Crc32 => hex_lower(be_bytes(crc32_checksum(data))),
    }
}

/// Number of hexadecimal digits of a digest under `algo`.
pub open spec fn hex_len(algo: Algorithm) -> nat {
    match algo {
        Algorithm::Md5 => 32,
        Algorithm::Sha1 => 40,
        Algorithm::Sha224 => 56,
        Algorithm::Sha256 => 64,
        Algorithm::Sha384 => 96,
        Algorithm::Sha512 => 128,
        Algorithm::Crc32 => 8,
    }
}

/// The algorithm whose digests have `n` hexadecimal digits, if any.
pub open spec fn algorithm_for_len(n: nat) -> Option<Algorithm> {
    if n == 8 {
        Some(Algorithm::Crc32)
    } else if n == 32 {
        Some(Algorithm::Md5)
    } else if n == 40 {
        Some(Algorithm::Sha1)
    } else if n == 56 {
        Some(Algorithm::Sha224)
    } else if n == 64 {
        Some(Algorithm::Sha256)
    } else if n == 96 {
        Some(Algorithm::Sha384)
    } else if n == 128 {
        Some(Algorithm::Sha512)
    } else {
        None
    }
}

/// The algorithm named by `s`, compared without regard to ASCII case; the
/// dashed spellings `sha-1`, `sha-224`, ... are accepted too.
pub open spec fn algorithm_named(s: Seq<char>) -> Option<Algorithm> {
    let l = spec_ascii_lower(s);
    if l == "md5"@ {
        Some(Algorithm::Md5)
    } else if l == "sha1"@ || l == "sha-1"@ {
        Some(Algorithm::Sha1)
    } else if l == "sha224"@ || l == "sha-224"@ {
        Some(Algorithm::Sha224)
    } else if l == "sha256"@ || l == "sha-256"@ {
        Some(Algorithm::Sha256)
    } else if l == "sha384"@ || l == "sha-384"@ {
        Some(Algorithm::Sha384)
    } else if l == "sha512"@ || l == "sha-512"@ {
        Some(Algorithm::Sha512)
    } else if l == "crc32"@ {
        Some(Algorithm::Crc32)
    } else {
        None
    }
}

/// The display name of an algorithm.
pub open spec fn display_name(algo: Algorithm) -> Seq<char> {
    match algo {
        Algorithm::Md5 => "MD5"@,
        Algorithm::Sha1 => "SHA-1"@,
        Algorithm::Sha224 => "SHA-224"@,
        Algorithm::Sha256 => "SHA-256"@,
        Algorithm::Sha384 => "SHA-384"@,
        Algorithm::Sha512 => "SHA-512"@,
        Algorithm::Crc32 => "CRC32"@,
    }
}

/// Every algorithm, in menu order.
pub open spec fn all_algorithms() -> Seq<Algorithm> {
    seq![
        Algorithm::Md5,
        Algorithm::Sha1,
        Algorithm::Sha224,
        Algorithm::Sha256,
        Algorithm::Sha384,
        Algorithm::Sha512,
        Algorithm::Crc32,
    ]
}

impl Algorithm {
    /// Reads an algorithm name such as `sha256`, `SHA-256` or `md5`.
    ///
    /// Only ASCII letters change under lowercasing here: the accepted names are
    /// ASCII without the letter `k`, and no other character lowercases to one of
    /// their characters, so the ASCII rule decides exactly as full lowercasing.
    pub fn from_str(s: &str) -> (r: Option<Self>)
        ensures
            r == algorithm_named(s@),
    {
        let low = ascii_lower(&chars_of(s));
        if seq_eq(&low, &chars_of("md5")) {
            Some(Algorithm::Md5)
        } else if seq_eq(&low, &chars_of("sha1")) || seq_eq(&low, &chars_of("sha-1")) {
            Some(Algorithm::Sha1)
        } else if seq_eq(&low, &chars_of("sha224")) || seq_eq(&low, &chars_of("sha-224")) {
            Some(Algorithm::Sha224)
        } else if seq_eq(&low, &chars_of("sha256")) || seq_eq(&low, &chars_of("sha-256")) {
            Some(Algorithm::Sha256)
        } else if seq_eq(&low, &chars_of("sha384")) || seq_eq(&low, &chars_of("sha-384")) {
            Some(Algorithm::Sha384)
        } else if seq_eq(&low, &chars_of("sha512")) || seq_eq(&low, &chars_of("sha-512")) {
            Some(Algorithm::Sha512)
        } else if seq_eq(&low, &chars_of("crc32")) {
            Some(Algorithm::Crc32)
        } else {
            None
        }
    }

    /// Guesses the algorithm from the length in bytes of a hexadecimal hash.
    pub fn from_hash_len(hash: &str) -> (r: Option<Self>)
        ensures
            r == algorithm_for_len(hash.len() as nat),
    {
        Self::from_len(hash.len())
    }

    /// The algorithm whose hexadecimal digests have `n` digits.
    pub fn from_len(n: usize) -> (r: Option<Self>)
        ensures
            r == algorithm_for_len(n as nat),
    {
        match n {
            8 => Some(Algorithm::Crc32),
            32 => Some(Algorithm::Md5),
            40 => Some(Algorithm::Sha1),
            56 => Some(Algorithm::Sha224),
            64 => Some(Algorithm::Sha256),
            96 => Some(Algorithm::Sha384),
            128 => Some(Algorithm::Sha512),
            _ => None,
        }
    }

    /// Every algorithm, in the order the menus show them.
    pub fn all() -> (r: Vec<Self>)
        ensures
            r@ == all_algorithms(),
    {
        let r = vec![
            Algorithm::Md5,
            Algorithm::Sha1,
            Algorithm::Sha224,
            Algorithm::Sha256,
            Algorithm::Sha384,
            Algorithm::Sha512,
            Algorithm::Crc32,
        ];
        assert(r@ =~= all_algorithms());
        r
    }

    /// The display name: `MD5`, `SHA-1`, ..., `CRC32`.
    pub fn name(&self) -> (r: String)
        ensures
            r@ == display_name(*self),
    {
        match self {
            Algorithm::Md5 => String::from_str("MD5"),
            Algorithm::Sha1 => String::from_str("SHA-1"),
            Algorithm::Sha224 => String::from_str("SHA-224"),
            Algorithm::Sha256 => String::from_str("SHA-256"),
            Algorithm::Sha384 => String::from_str("SHA-384"),
            Algorithm::Sha512 => String::from_str("SHA-512"),
            Algorithm::Crc32 => String::from_str("CRC32"),
        }
    }
}

/// Computes the digest of `data` under `algo`, as lowercase hexadecimal text.
pub fn compute_hash(data: &[u8], algo: &Algorithm) -> (r: String)
    ensures
        r@ == digest_hex(*algo, data@),
        *algo == Algorithm::Md5 ==> r@ == hex_lower(md5_digest(data@)),
        *algo == Algorithm::Sha1 ==> r@ == hex_lower(sha1_digest(data@)),
        *algo == Algorithm::Sha224 ==> r@ == hex_lower(sha224_digest(data@)),
        *algo == Algorithm::Sha256 ==> r@ == hex_lower(sha256_digest(data@)),
        *algo == Algorithm::Sha384 ==> r@ == hex_lower(sha384_digest(data@)),
        *algo == Algorithm::Sha512 ==> r@ == hex_lower(sha512_digest(data@)),
        *algo == Algorithm::Crc32 ==> r@ == hex_lower(be_bytes(crc32_checksum(data@))),
        r@.len() == hex_len(*algo),
        forall|i: int| 0 <= i < r@.len() ==> is_lower_hex_char(#[trigger] r@[i]),
{
    let bytes = match algo {
        Algorithm::Md5 => md5_bytes(data),
        Algorithm::Sha1 => sha1_bytes(data),
        Algorithm::Sha224 => sha224_bytes(data),
        Algorithm::Sha256 => sha256_bytes(data),
        Algorithm::Sha384 => sha384_bytes(data),
        Algorithm::Sha512 => sha512_bytes(data),
        Algorithm::Crc32 => be_bytes_of(crc32_value(data)),
    };
    proof {
        lemma_hex_lower_shape(bytes@);
    }
    hex_encode(&bytes)
}

/// The length of a digest identifies its algorithm: reading back the length of
/// any hexadecimal digest gives the algorithm that produced it.
pub proof fn lemma_digest_length_identifies_algorithm(algo: Algorithm)
    ensures
        algorithm_for_len(hex_len(algo)) == Some(algo),
{
}

/// Guessing from a hash's length gives back the algorithm of any digest this
/// tool computes: its text is ASCII, so its length in bytes is its number of
/// digits.
pub proof fn lemma_computed_hash_len_names_algorithm(algo: Algorithm, hash: &str)
    requires
        hash@.len() == hex_len(algo),
        forall|i: int| 0 <= i < hash@.len() ==> is_lower_hex_char(#[trigger] hash@[i]),
    ensures
        algorithm_for_len(hash.len() as nat) == Some(algo),
{
    assert(vstd::utf8::is_ascii_chars(hash@)) by {
        assert forall|i: int| 0 <= i < hash@.len() implies '\0' <= #[trigger] hash@[i] <= '\u{7f}' by {
            assert(is_lower_hex_char(hash@[i]));
        }
    }
    vstd::utf8::is_ascii_chars_encode_utf8(hash@);
}

/// Naming round trip: the display name of every algorithm is read back as that
/// algorithm.
pub proof fn lemma_display_name_round_trip(algo: Algorithm)
    ensures
        algorithm_named(display_name(algo)) == Some(algo),
{
    reveal_strlit("MD5");
    reveal_strlit("SHA-1");
    reveal_strlit("SHA-224");
    reveal_strlit("SHA-256");
    reveal_strlit("SHA-384");
    reveal_strlit("SHA-512");
    reveal_strlit("CRC32");
    reveal_strlit("md5");
    reveal_strlit("sha1");
    reveal_strlit("sha-1");
    reveal_strlit("sha224");
    reveal_strlit("sha-224");
    reveal_strlit("sha256");
    reveal_strlit("sha-256");
    reveal_strlit("sha384");
    reveal_strlit("sha-384");
    reveal_strlit("sha512");
    reveal_strlit("sha-512");
    reveal_strlit("crc32");
    let n = display_name(algo);
    match algo {
        Algorithm::Md5 => {
            assert(n == "MD5"@);
            assert(spec_ascii_lower(n) =~= "md5"@);
            assert(algorithm_named(n) == Some(Algorithm::Md5));
        },
        Algorithm::Sha1 => {
            assert(spec_ascii_lower(n) =~= "sha-1"@);
            assert(algorithm_named(n) == Some(Algorithm::Sha1));
        },
        Algorithm::Sha224 => {
            assert(spec_ascii_lower(n) =~= "sha-224"@);
            assert(algorithm_named(n) == Some(Algorithm::Sha224));
        },
        Algorithm::Sha256 => {
            assert(spec_ascii_lower(n) =~= "sha-256"@);
            assert(spec_ascii_lower(n)[5] != "sha-224"@[5]);
            assert(algorithm_named(n) == Some(Algorithm::Sha256));
        },
        Algorithm::Sha384 => {
            assert(spec_ascii_lower(n) =~= "sha-384"@);
            assert(spec_ascii_lower(n)[4] != "sha-224"@[4]);
            assert(spec_ascii_lower(n)[4] != "sha-256"@[4]);
            assert(spec_ascii_lower(n)[4] != "sha-384"@[4] || "sha-384"@ == "sha-384"@);
            assert(algorithm_named(n) == Some(Algorithm::Sha384));
        },
        Algorithm::Sha512 => {
            assert(spec_ascii_lower(n) =~= "sha-512"@);
            assert(spec_ascii_lower(n)[4] != "sha-224"@[4]);
            assert(spec_ascii_lower(n)[4] != "sha-256"@[4]);
            assert(spec_ascii_lower(n)[4] != "sha-384"@[4] || "sha-512"@ == "sha-384"@);
            assert(algorithm_named(n) == Some(Algorithm::Sha512));
        },
        Algorithm::Crc32 => {
            assert(spec_ascii_lower(n) =~= "crc32"@);
            assert(spec_ascii_lower(n)[0] != "sha-1"@[0]);
            assert(algorithm_named(n) == Some(Algorithm::Crc32));
        },
    }
}

/// The algorithm list holds every algorithm exactly once.
pub proof fn lemma_all_lists_each_once(algo: Algorithm)
    ensures
        all_algorithms().contains(algo),
        all_algorithms().no_duplicates(),
{
    let s = all_algorithms();
    assert(s[0] == Algorithm::Md5);
    assert(s[1] == Algorithm::Sha1);
    assert(s[2] == Algorithm::Sha224);
    assert(s[3] == Algorithm::Sha256);
    assert(s[4] == Algorithm::Sha384);
    assert(s[5] == Algorithm::Sha512);
    assert(s[6] == Algorithm::Crc32);
}

} // verus!
