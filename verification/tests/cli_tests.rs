use hash_checker::cli::{entry_algorithm, plan_cli, verification_exit_code, Cli, CliPlan};
use hash_checker::hasher::Algorithm;
use hash_checker::verify::compare_hashes;

fn cli(file: Option<&str>) -> Cli {
    Cli { file: file.map(String::from), checksum: None, hash: None, algo: None, compute: false }
}

#[test]
fn missing_or_absent_file() {
    assert!(matches!(plan_cli(cli(None), false), CliPlan::MissingFile));
    assert!(matches!(plan_cli(cli(Some("x.iso")), false), CliPlan::FileNotFound(f) if f == "x.iso"));
}

#[test]
fn compute_mode_defaults_to_sha256() {
    let mut c = cli(Some("x.iso"));
    c.compute = true;
    assert!(matches!(plan_cli(c, true), CliPlan::Compute(_, Algorithm::Sha256)));
    let mut c = cli(Some("x.iso"));
    c.compute = true;
    c.algo = Some("md5".to_string());
    assert!(matches!(plan_cli(c, true), CliPlan::Compute(_, Algorithm::Md5)));
}

#[test]
fn hash_mode_algorithm_choice() {
    let mut c = cli(Some("x.iso"));
    c.hash = Some("a".repeat(40));
    assert!(matches!(plan_cli(c, true), CliPlan::CompareHash(_, _, Algorithm::Sha1)));
    let mut c = cli(Some("x.iso"));
    c.hash = Some("a".repeat(40));
    c.algo = Some("sha512".to_string());
    assert!(matches!(plan_cli(c, true), CliPlan::CompareHash(_, _, Algorithm::Sha512)));
    let mut c = cli(Some("x.iso"));
    c.hash = Some("abc".to_string());
    assert!(matches!(plan_cli(c, true), CliPlan::CompareHash(_, h, Algorithm::Sha256) if h == "abc"));
}

#[test]
fn checksum_mode() {
    let mut c = cli(Some("x.iso"));
    c.checksum = Some("SUMS".to_string());
    assert!(matches!(plan_cli(c, true), CliPlan::UseChecksum(f, Some(cs)) if f == "x.iso" && cs == "SUMS"));
    assert!(matches!(plan_cli(cli(Some("x.iso")), true), CliPlan::UseChecksum(_, None)));
}

#[test]
fn entry_algorithm_order() {
    assert_eq!(entry_algorithm(Some(Algorithm::Md5), &Some("sha1".to_string())), Algorithm::Md5);
    assert_eq!(entry_algorithm(None, &Some("sha1".to_string())), Algorithm::Sha1);
    assert_eq!(entry_algorithm(None, &None), Algorithm::Sha256);
}

#[test]
fn exit_codes() {
    assert_eq!(verification_exit_code(&compare_hashes("AA", "aa")), 0);
    assert_eq!(verification_exit_code(&compare_hashes("AA", "ab")), 2);
}
