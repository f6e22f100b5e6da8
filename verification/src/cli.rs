//! The command-line mode: what to do with the arguments given.
//!
//! Exit codes: 0 when the hash matches, 2 when it differs, 1 on any error.

use vstd::prelude::*;
use crate::hasher::{Algorithm, algorithm_for_len, algorithm_named};
use crate::verify::HashComparison;

verus! {

/// Command-line arguments.
pub struct Cli {
    /// File to verify.
    pub file: Option<String>,
    /// Checksum file to use (found automatically when absent).
    pub checksum: Option<String>,
    /// Expected hash, compared directly.
    pub hash: Option<String>,
    /// Algorithm: `md5`, `sha1`, `sha256`, `sha512`, ...
    pub algo: Option<String>,
    /// Only compute and print the hash.
    pub compute: bool,
}

/// What the command line asks for.
pub enum CliPlan {
    /// No file was given.
    MissingFile,
    /// The file does not exist.
    FileNotFound(String),
    /// Print the hash of the file under the algorithm.
    Compute(String, Algorithm),
    /// Compare the file's hash with the expected one (file, expected hash,
    /// algorithm).
    CompareHash(String, String, Algorithm),
    /// Check the file against a checksum file: the one given, or else the one
    /// found next to it.
    UseChecksum(String, Option<String>),
}

/// The algorithm named by the `--algo` argument, if it names one.
pub open spec fn algo_arg(a: Option<String>) -> Option<Algorithm> {
    match a {
        Some(s) => algorithm_named(s@),
        None => None,
    }
}

fn read_algo(a: &Option<String>) -> (r: Option<Algorithm>)
    ensures
        r == algo_arg(*a),
{
    match a {
        Some(s) => Algorithm::from_str(s.as_str()),
        None => None,
    }
}

/// Decides what to do with the arguments. Without a file, or with a missing
/// file, there is nothing to do. `--compute` prints the hash (SHA-256 unless
/// `--algo` names another algorithm). `--hash` compares with the given hash,
/// with the algorithm named by `--algo`, else the one its length suggests,
/// else SHA-256. Otherwise a checksum file is used.
pub fn plan_cli(cli: Cli, file_exists: bool) -> (r: CliPlan)
    ensures
        match cli.file {
            None => r is MissingFile,
            Some(f) => if !file_exists {
                r == CliPlan::FileNotFound(f)
            } else if cli.compute {
                r == CliPlan::Compute(f, match algo_arg(cli.algo) {
                    Some(a) => a,
                    None => Algorithm::Sha256,
                })
            } else {
                match cli.hash {
                    Some(h) => r == CliPlan::CompareHash(f, h, match algo_arg(cli.algo) {
                        Some(a) => a,
                        None => match algorithm_for_len(vstd::utf8::encode_utf8(h@).len() as usize as nat) {
                            Some(a) => a,
                            None => Algorithm::Sha256,
                        },
                    }),
                    None => r == CliPlan::UseChecksum(f, cli.checksum),
                }
            },
        },
{
    let file = match cli.file {
        Some(f) => f,
        None => {
            return CliPlan::MissingFile;
        },
    };
    if !file_exists {
        return CliPlan::FileNotFound(file);
    }
    let named = read_algo(&cli.algo);
    if cli.compute {
        let algo = match named {
            Some(a) => a,
            None => Algorithm::Sha256,
        };
        return CliPlan::Compute(file, algo);
    }
    match cli.hash {
        Some(expected) => {
            let algo = match named {
                Some(a) => a,
                None => match Algorithm::from_hash_len(expected.as_str()) {
                    Some(a) => a,
                    None => Algorithm::Sha256,
                },
            };
            CliPlan::CompareHash(file, expected, algo)
        },
        None => CliPlan::UseChecksum(file, cli.checksum),
    }
}

/// The algorithm for a checksum-file entry: the entry's own, else the one named
/// by `--algo`, else SHA-256.
pub fn entry_algorithm(entry_algo: Option<Algorithm>, algo: &Option<String>) -> (r: Algorithm)
    ensures
        r == match entry_algo {
            Some(a) => a,
            None => match algo_arg(*algo) {
                Some(a) => a,
                None => Algorithm::Sha256,
            },
        },
{
    match entry_algo {
        Some(a) => a,
        None => match read_algo(algo) {
            Some(a) => a,
            None => Algorithm::Sha256,
        },
    }
}

/// The exit code of a finished comparison: 0 when the hashes match, 2 when they
/// differ.
pub fn verification_exit_code(c: &HashComparison) -> (r: i32)
    ensures
        r == (if c.matched { 0i32 } else { 2i32 }),
{
    if c.matched {
        0
    } else {
        2
    }
}

} // verus!
