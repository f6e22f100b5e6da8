use hash_checker::multi::{Stats, Summary};
use hash_checker::verify::{list_expectation, single_expectation};
use hash_checker::multi::entry_outcome;
use hash_checker::session::single_outcome;
use hash_checker::hasher::compute_hash;
use hash_checker::hasher::Algorithm;
use hash_checker::multi::{EntryStatus, HashSource, JobKind, MultiFileState, MultiPhase};
use hash_checker::session::{HashCheckerApp, InputMode, Panel, VerifyState};
use hash_checker::verify::{compare_hashes, lookup_expected, parse_manual_hash, Lookup};
use hash_checker::checksum::ChecksumEntry;

fn s(x: &str) -> String {
    x.to_string()
}

#[test]
fn compare_ignores_case() {
    let c = compare_hashes("ABCDEF12", "abcdef12");
    assert!(c.matched);
    assert_eq!(c.expected, "abcdef12");
    let c = compare_hashes("abcdef12", "abcdef13");
    assert!(!c.matched);
    assert_eq!(c.computed, "abcdef13");
}

#[test]
fn manual_hash_with_and_without_prefix() {
    assert_eq!(parse_manual_hash("  SHA1:ABCDEF  ", Algorithm::Md5), (s("abcdef"), Algorithm::Sha1));
    assert_eq!(parse_manual_hash("AbCd", Algorithm::Sha512), (s("abcd"), Algorithm::Sha512));
    assert_eq!(parse_manual_hash("foo:bar", Algorithm::Md5), (s("foo:bar"), Algorithm::Md5));
    assert_eq!(parse_manual_hash("", Algorithm::Md5), (s(""), Algorithm::Md5));
}

#[test]
fn lookup_in_parsed_checksum() {
    let es = vec![ChecksumEntry { hash: s("deadbeef"), filename: s("a.iso"), algorithm: None }];
    match lookup_expected(&Ok(es), Some("a.iso"), false, Algorithm::Sha256) {
        Lookup::Found(h, a) => {
            assert_eq!(h, "deadbeef");
            assert_eq!(a, Algorithm::Sha256);
        }
        _ => panic!("expected an entry"),
    }
    match lookup_expected(&Err(s("unreadable")), Some("a.iso"), false, Algorithm::Sha256) {
        Lookup::Unreadable(e) => assert_eq!(e, "unreadable"),
        _ => panic!("expected an error"),
    }
    let es = vec![
        ChecksumEntry { hash: s("11111111"), filename: s("a.iso"), algorithm: Some(Algorithm::Crc32) },
        ChecksumEntry { hash: s("22222222"), filename: s("b.iso"), algorithm: None },
    ];
    assert!(matches!(lookup_expected(&Ok(es), Some("c.iso"), false, Algorithm::Md5), Lookup::Missing));
}

fn three_files() -> MultiFileState {
    MultiFileState::from_paths(
        vec![s("/d/a.iso"), s("/d/b.iso"), s("/d/c.iso")],
        vec![Some(s("/d/SHA256SUMS")), None, None],
    )
}

#[test]
fn from_paths_selects_everything() {
    let m = three_files();
    assert_eq!(m.entries.len(), 3);
    assert_eq!(m.phase, MultiPhase::Review);
    assert!(m.entries.iter().all(|e| e.selected && matches!(e.status, EntryStatus::Pending)));
    assert!(matches!(&m.entries[0].source, HashSource::AutoFound(p) if p == "/d/SHA256SUMS"));
    assert!(matches!(m.entries[1].source, HashSource::NeedsInput));
}

#[test]
fn review_then_manual_input_then_verify() {
    let mut m = three_files();
    m.entries[2].selected = false;
    assert!(!m.advance_from_review());
    assert_eq!(m.phase, MultiPhase::ManualInput);
    assert_eq!(m.manual_queue, vec![1]);
    m.input_hash = s("md5:0123456789ABCDEF0123456789abcdef");
    assert!(m.validate_manual());
    assert_eq!(m.phase, MultiPhase::Verifying);
    match &m.entries[1].source {
        HashSource::ManualHash(h, a) => {
            assert_eq!(h, "0123456789abcdef0123456789abcdef");
            assert_eq!(*a, Algorithm::Md5);
        }
        _ => panic!("typed hash expected"),
    }
    let jobs = m.start_verification();
    assert_eq!(jobs.len(), 2);
    assert_eq!(jobs[0].index, 0);
    assert!(matches!(&jobs[0].kind, JobKind::FromChecksum(p, Algorithm::Sha256) if p == "/d/SHA256SUMS"));
    assert_eq!(jobs[1].index, 1);
    assert!(matches!(m.entries[2].status, EntryStatus::Skipped));
    assert!(matches!(m.entries[0].status, EntryStatus::Computing));
    assert!(!m.all_done());
    m.set_status(0, EntryStatus::Success(s("x"), s("x")));
    m.set_status(1, EntryStatus::Failure(s("x"), s("y")));
    assert!(m.complete_if_done());
    assert_eq!(m.phase, MultiPhase::Results);
    let st = m.stats();
    assert_eq!((st.total, st.success, st.failure, st.error, st.skipped), (2, 1, 1, 0, 1));
}

#[test]
fn skipping_every_queued_file() {
    let mut m = three_files();
    assert!(!m.advance_from_review());
    assert_eq!(m.manual_queue, vec![1, 2]);
    assert!(!m.skip_manual());
    assert!(m.skip_manual());
    assert!(matches!(m.entries[1].source, HashSource::Skipped));
    assert!(matches!(m.entries[2].source, HashSource::Skipped));
    let jobs = m.start_verification();
    assert_eq!(jobs.len(), 1);
}

#[test]
fn nothing_to_type_goes_straight_to_verification() {
    let mut m = MultiFileState::from_paths(vec![s("/d/a.iso")], vec![Some(s("/d/a.iso.sha256"))]);
    assert!(m.advance_from_review());
    assert_eq!(m.phase, MultiPhase::Verifying);
}

#[test]
fn add_if_new_only_in_review_and_without_duplicates() {
    let mut m = three_files();
    assert!(!m.add_if_new(s("/d/a.iso"), None, false));
    assert!(m.add_if_new(s("/d/d.iso"), None, false));
    assert_eq!(m.entries.len(), 4);
    m.advance_from_review();
    assert!(!m.add_if_new(s("/d/e.iso"), None, false));
    assert_eq!(m.entries.len(), 4);
}

#[test]
fn stats_count_errors() {
    let mut m = three_files();
    m.set_status(0, EntryStatus::Error(s("x")));
    m.set_status(1, EntryStatus::Skipped);
    let st = m.stats();
    assert_eq!((st.total, st.success, st.failure, st.error, st.skipped), (1, 0, 0, 1, 1));
}

#[test]
fn single_file_modes() {
    let app = HashCheckerApp::with_file(s("/d/a.iso"), Some(s("/d/SHA256SUMS")));
    assert_eq!(app.input_mode, InputMode::Auto);
    assert_eq!(app.active_panel, Panel::Main);
    let mut app = HashCheckerApp::with_file(s("/d/a.iso"), None);
    assert_eq!(app.input_mode, InputMode::FileManual);
    assert!(app.start_verification().is_none());
    assert!(matches!(&app.state, VerifyState::Error(m) if m == "Aucun fichier checksum sélectionné."));
    app.input_mode = InputMode::HashManual;
    app.manual_hash = s("   ");
    assert!(app.start_verification().is_none());
    assert!(matches!(&app.state, VerifyState::Error(m) if m == "Veuillez entrer une valeur de hash."));
    app.manual_hash = s("sha256:ABCD");
    let job = app.start_verification().unwrap();
    assert_eq!(job.target, "/d/a.iso");
    assert!(matches!(&job.kind, JobKind::Direct(h, Algorithm::Sha256) if h == "abcd"));
    assert!(matches!(app.state, VerifyState::Computing));
}

#[test]
fn empty_window_does_nothing_on_verify() {
    let mut app = HashCheckerApp::default();
    assert!(app.start_verification().is_none());
    assert!(matches!(app.state, VerifyState::Idle));
}

#[test]
fn ipc_file_switches_to_several_files() {
    let mut app = HashCheckerApp::with_file(s("/d/a.iso"), None);
    app.receive_ipc_file(s("/d/b.iso"), Some(s("/d/b.iso.md5")), None, false);
    let m = app.multi.as_ref().unwrap();
    assert_eq!(m.entries.len(), 2);
    assert_eq!(m.entries[0].path, "/d/a.iso");
    assert_eq!(m.entries[1].path, "/d/b.iso");
    assert!(app.target_file.is_none());
    app.receive_ipc_file(s("/d/b.iso"), None, None, false);
    assert_eq!(app.multi.as_ref().unwrap().entries.len(), 2);
    let app = HashCheckerApp::with_files(vec![s("/d/x")], vec![]);
    assert!(matches!(app.multi.as_ref().unwrap().entries[0].source, HashSource::NeedsInput));
}

#[test]
fn list_expectation_messages() {
    let es = vec![ChecksumEntry { hash: s("deadbeef"), filename: s("x/a.iso"), algorithm: Some(Algorithm::Crc32) },
        ChecksumEntry { hash: s("cafebabe"), filename: s("b.iso"), algorithm: None }];
    assert_eq!(list_expectation(&Ok(es.clone()), Some("A.ISO"), false, Algorithm::Md5), Ok((s("deadbeef"), Algorithm::Crc32)));
    assert_eq!(list_expectation(&Ok(es.clone()), Some("b.iso"), false, Algorithm::Md5), Ok((s("cafebabe"), Algorithm::Md5)));
    assert_eq!(list_expectation(&Ok(es), Some("c.iso"), false, Algorithm::Md5), Err(s("'c.iso' absent du fichier checksum")));
    assert_eq!(list_expectation(&Err(s("boom")), Some("c.iso"), false, Algorithm::Md5), Err(s("Checksum illisible : boom")));
}

#[test]
fn single_expectation_messages() {
    let es = vec![ChecksumEntry { hash: s("deadbeef"), filename: s("a.iso"), algorithm: None },
        ChecksumEntry { hash: s("cafebabe"), filename: s("b.iso"), algorithm: None }];
    assert_eq!(single_expectation(&Ok(es.clone()), Some("a.iso"), false, Algorithm::Sha1), Ok((s("deadbeef"), Algorithm::Sha1)));
    assert_eq!(single_expectation(&Ok(es), Some("z.iso"), false, Algorithm::Sha1),
        Err(s("Fichier 'z.iso' non trouvé dans le checksum.")));
    assert_eq!(single_expectation(&Err(s("bad")), Some("z.iso"), false, Algorithm::Sha1), Err(s("bad")));
}

#[test]
fn outcomes_compare_without_case() {
    match entry_outcome("ABCDEF12", "abcdef12") {
        EntryStatus::Success(e, c) => {
            assert_eq!(e, "abcdef12");
            assert_eq!(c, "abcdef12");
        }
        _ => panic!("expected success"),
    }
    assert!(matches!(entry_outcome("abcdef12", "abcdef13"), EntryStatus::Failure(_, _)));
    assert!(matches!(single_outcome("AA", "aa"), VerifyState::Success(_, _)));
    match single_outcome("Ab", "ac") {
        VerifyState::Failure(e, c) => {
            assert_eq!(e, "ab");
            assert_eq!(c, "ac");
        }
        _ => panic!("expected failure"),
    }
}

#[test]
fn uppercase_hash_matches_computed_one() {
    let h = compute_hash(b"abc", &Algorithm::Sha256);
    assert!(compare_hashes(&h.to_uppercase(), &h).matched);
}

#[test]
fn select_all_and_unselect_all() {
    let mut m = three_files();
    m.set_all_selected(false);
    assert!(m.entries.iter().all(|e| !e.selected));
    assert!(!m.any_selected());
    m.set_all_selected(true);
    assert!(m.entries.iter().all(|e| e.selected));
    assert!(m.any_selected());
}

#[test]
fn summary_headlines() {
    let st = |success: usize, failure: usize, error: usize, skipped: usize| Stats { total: success + failure + error, success, failure, error, skipped };
    assert_eq!(st(2, 0, 0, 1).summary(), Summary::AllIntact);
    assert_eq!(st(2, 1, 1, 0).summary(), Summary::SomeFailed);
    assert_eq!(st(2, 0, 1, 0).summary(), Summary::SomeErrors);
    assert_eq!(st(0, 0, 0, 3).summary(), Summary::Finished);
}

#[test]
fn window_resets_and_modes() {
    let mut app = HashCheckerApp::with_file(s("/d/a.iso"), None);
    assert_eq!(app.input_mode, InputMode::FileManual);
    app.set_checksum_file(s("/d/sums.txt"));
    assert_eq!(app.checksum_file, Some(s("/d/sums.txt")));
    app.set_input_mode(InputMode::HashManual);
    assert_eq!(app.input_mode, InputMode::HashManual);
    assert!(matches!(app.state, VerifyState::Idle));
    assert!(!app.is_busy());
    app.manual_hash = s("abcdef12");
    assert!(app.start_verification().is_some());
    assert!(app.is_busy());
    app.new_verification();
    assert!(app.target_file.is_none() && app.checksum_file.is_none() && app.manual_hash.is_empty());
    assert!(matches!(app.state, VerifyState::Idle));
}

#[test]
fn dropped_files_load_or_join_the_list() {
    let mut app = HashCheckerApp::default();
    app.active_panel = Panel::Settings;
    app.receive_dropped_file(s("/d/a.iso"), Some(s("/d/a.iso.sha256")), false);
    assert_eq!(app.target_file, Some(s("/d/a.iso")));
    assert_eq!(app.input_mode, InputMode::Auto);
    assert_eq!(app.active_panel, Panel::Main);
    let mut app = HashCheckerApp::with_files(vec![s("/d/a.iso")], vec![None]);
    app.receive_dropped_file(s("/d/b.iso"), None, false);
    app.receive_dropped_file(s("/d/b.iso"), None, false);
    assert_eq!(app.multi.as_ref().unwrap().entries.len(), 2);
    app.cancel_multi();
    assert!(app.multi.is_none() && app.target_file.is_none());
}

#[test]
fn same_file_under_another_spelling_is_not_added() {
    let mut m = three_files();
    assert!(!m.add_if_new(s("/d//a.iso"), None, false));
    assert!(!m.add_if_new(s("/d/./b.iso"), None, false));
    assert!(m.add_if_new(s("/e/a.iso"), None, false));
    assert_eq!(m.entries.len(), 4);
    let mut app = HashCheckerApp::with_files(vec![s("/d/a.iso")], vec![None]);
    app.receive_ipc_file(s("/d//a.iso"), None, None, false);
    app.receive_dropped_file(s("/d/./a.iso"), None, false);
    assert_eq!(app.multi.as_ref().unwrap().entries.len(), 1);
}

#[test]
fn answers_run_through_the_queue() {
    let mut m = MultiFileState::from_paths(
        vec![s("/d/a.iso"), s("/d/b.iso"), s("/d/c.iso")],
        vec![None, None, None],
    );
    assert!(!m.advance_from_review());
    assert_eq!(m.manual_queue, vec![0, 1, 2]);
    m.input_hash = s("AABBCCDD");
    assert!(!m.validate_manual());
    assert_eq!(m.phase, MultiPhase::ManualInput);
    assert!(!m.skip_manual());
    assert_eq!(m.phase, MultiPhase::ManualInput);
    m.input_hash = s("sha1:0011223344");
    assert!(m.validate_manual());
    assert_eq!(m.phase, MultiPhase::Verifying);
    assert!(matches!(&m.entries[0].source, HashSource::ManualHash(h, Algorithm::Sha256) if h == "aabbccdd"));
    assert!(matches!(m.entries[1].source, HashSource::Skipped));
    assert!(matches!(&m.entries[2].source, HashSource::ManualHash(h, Algorithm::Sha1) if h == "0011223344"));
}

#[test]
fn with_files_starts_a_fresh_list() {
    let app = HashCheckerApp::with_files(vec![s("/d/a.iso")], vec![None]);
    let m = app.multi.as_ref().unwrap();
    assert_eq!(m.manual_pos, 0);
    assert!(m.input_hash.is_empty());
    assert_eq!(m.input_algo, Algorithm::Sha256);
}

#[test]
fn stats_cover_the_list_once_finished() {
    let mut m = three_files();
    m.set_status(0, EntryStatus::Success(s("a"), s("a")));
    m.set_status(1, EntryStatus::Skipped);
    let st = m.stats();
    assert_eq!(st.success + st.failure + st.error + st.skipped, 2);
    m.set_status(2, EntryStatus::Error(s("x")));
    let st = m.stats();
    assert_eq!(st.success + st.failure + st.error + st.skipped, 3);
}
