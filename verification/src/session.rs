//! The state behind the window: one file checked against an automatic checksum
//! file, a chosen checksum file or a typed hash, and the switch to the
//! several-files workflow.

use vstd::prelude::*;
use crate::hasher::Algorithm;
use crate::multi::{JobKind, MultiFileState, MultiPhase, source_for, FileEntry, EntryStatus};
use crate::verify::{parse_manual_hash, spec_manual_hash, compare_hashes};
use crate::text::unicode_lower;
use crate::checksum::path_key;

verus! {

/// Result of the one-file verification.
pub enum VerifyState {
    Idle,
    Computing,
    /// Expected and computed hash, equal.
    Success(String, String),
    /// Expected and computed hash, different.
    Failure(String, String),
    Error(String),
}

/// Where the expected hash of the one file comes from.
#[derive(Debug, Clone, Copy, PartialEq, Eq, Structural)]
pub enum InputMode {
    /// The checksum file found next to the file.
    Auto,
    /// A checksum file chosen by the user.
    FileManual,
    /// A typed hash.
    HashManual,
}

/// Panel shown in the window.
#[derive(Debug, Clone, Copy, PartialEq, Eq, Structural)]
pub enum Panel {
    Main,
    Settings,
}

/// The verification to run for the one file.
pub struct SingleJob {
    pub target: String,
    pub kind: JobKind,
}

/// The state of the window.
pub struct HashCheckerApp {
    pub target_file: Option<String>,
    pub input_mode: InputMode,
    pub checksum_file: Option<String>,
    pub auto_checksum_found: Option<String>,
    pub manual_hash: String,
    pub selected_algo: Algorithm,
    pub state: VerifyState,
    pub active_panel: Panel,
    /// `Some` while the several-files workflow is shown.
    pub multi: Option<MultiFileState>,
}

/// The message shown when the typed hash is empty.
pub open spec fn empty_hash_message() -> Seq<char> {
    "Veuillez entrer une valeur de hash."@
}

/// The message shown when no checksum file is known.
pub open spec fn no_checksum_message() -> Seq<char> {
    "Aucun fichier checksum sélectionné."@
}

impl Default for HashCheckerApp {
    /// An empty window: no file, automatic mode, SHA-256, main panel.
    fn default() -> (r: Self)
        ensures
            r.target_file is None,
            r.input_mode == InputMode::Auto,
            r.checksum_file is None,
            r.auto_checksum_found is None,
            r.manual_hash@.len() == 0,
            r.selected_algo == Algorithm::Sha256,
            r.state is Idle,
            r.active_panel == Panel::Main,
            r.multi is None,
    {
        HashCheckerApp {
            target_file: None,
            input_mode: InputMode::Auto,
            checksum_file: None,
            auto_checksum_found: None,
            manual_hash: String::new(),
            selected_algo: Algorithm::Sha256,
            state: VerifyState::Idle,
            active_panel: Panel::Main,
            multi: None,
        }
    }
}

impl HashCheckerApp {
    /// Opens on a list of files (several-files workflow); `found[i]` is the
    /// checksum file found next to `paths[i]`, if any.
    pub fn with_files(paths: Vec<String>, found: Vec<Option<String>>) -> (r: Self)
        ensures
            r.multi matches Some(m) && m.entries@.len() == paths@.len() && m.phase
                == MultiPhase::Review && m.manual_queue@.len() == 0 && m.manual_pos == 0
                && m.input_hash@.len() == 0 && m.input_algo == Algorithm::Sha256 && forall|i: int|
                0 <= i < paths@.len() ==> {
                    let e = #[trigger] m.entries@[i];
                    &&& e.path == paths@[i]
                    &&& e.selected
                    &&& e.status is Pending
                    &&& e.source == source_for(if i < found@.len() {
                        found@[i]
                    } else {
                        None
                    })
                },
            r.target_file is None,
            r.input_mode == InputMode::Auto,
            r.checksum_file is None,
            r.auto_checksum_found is None,
            r.manual_hash@.len() == 0,
            r.selected_algo == Algorithm::Sha256,
            r.state is Idle,
            r.active_panel == Panel::Main,
    {
        let mut app = HashCheckerApp::default();
        app.multi = Some(MultiFileState::from_paths(paths, found));
        app
    }

    /// Opens on one file; `found` is the checksum file found next to it.
    pub fn with_file(path: String, found: Option<String>) -> (r: Self)
        ensures
            r.target_file == Some(path),
            r.auto_checksum_found == found,
            r.checksum_file is None,
            r.manual_hash@.len() == 0,
            r.input_mode == (if found is Some {
                InputMode::Auto
            } else {
                InputMode::FileManual
            }),
            r.state is Idle,
            r.multi is None,
            r.selected_algo == Algorithm::Sha256,
            r.active_panel == Panel::Main,
    {
        let mut app = HashCheckerApp::default();
        app.set_target_file(path, found);
        app
    }

    /// Loads the file to check; `found` is the checksum file found next to it.
    /// With one found, the automatic mode is chosen, otherwise the user has to
    /// pick a checksum file.
    pub fn set_target_file(&mut self, path: String, found: Option<String>)
        ensures
            final(self).target_file == Some(path),
            final(self).auto_checksum_found == found,
            final(self).checksum_file is None,
            final(self).manual_hash@.len() == 0,
            final(self).input_mode == (if found is Some {
                InputMode::Auto
            } else {
                InputMode::FileManual
            }),
            final(self).state is Idle,
            final(self).multi == old(self).multi,
            final(self).selected_algo == old(self).selected_algo,
            final(self).active_panel == old(self).active_panel,
    {
        let auto = found.is_some();
        self.auto_checksum_found = found;
        self.target_file = Some(path);
        self.checksum_file = None;
        self.manual_hash = String::new();
        self.input_mode = if auto {
            InputMode::Auto
        } else {
            InputMode::FileManual
        };
        self.state = VerifyState::Idle;
    }

    /// A file sent by another instance. While the several-files workflow is
    /// shown it is added to the list (during the review, if it is not the same
    /// file as one listed; `windows` selects the path rules); otherwise the
    /// window switches to that workflow with the file already loaded, if any,
    /// followed by the new one. `found` and `found_current` are the checksum
    /// files found next to the new file and next to the loaded one.
    pub fn receive_ipc_file(
        &mut self,
        path: String,
        found: Option<String>,
        found_current: Option<String>,
        windows: bool,
    )
        ensures
            final(self).selected_algo == old(self).selected_algo,
            final(self).active_panel == old(self).active_panel,
            old(self).multi is Some ==> final(self).target_file == old(self).target_file
                && final(self).input_mode == old(self).input_mode
                && final(self).checksum_file == old(self).checksum_file
                && final(self).auto_checksum_found == old(self).auto_checksum_found
                && final(self).manual_hash == old(self).manual_hash
                && final(self).state == old(self).state,
            old(self).multi matches Some(m) ==> final(self).multi matches Some(n) && n.phase
                == m.phase && n.manual_queue@ == m.manual_queue@ && n.manual_pos == m.manual_pos
                && n.input_hash == m.input_hash && n.input_algo == m.input_algo
                && (if m.phase == MultiPhase::Review && forall|i: int|
                0 <= i < m.entries@.len() ==> path_key(#[trigger] m.entries@[i].path@, windows)
                    != path_key(path@, windows) {
                n.entries@ == m.entries@.push(
                    FileEntry {
                        path,
                        selected: true,
                        source: source_for(found),
                        status: EntryStatus::Pending,
                    },
                )
            } else {
                n.entries@ == m.entries@
            }),
            old(self).multi is None ==> {
                &&& final(self).target_file is None
                &&& final(self).input_mode == InputMode::Auto
                &&& final(self).auto_checksum_found is None
                &&& final(self).checksum_file is None
                &&& final(self).manual_hash@.len() == 0
                &&& final(self).state is Idle
                &&& final(self).multi matches Some(n) && n.phase == MultiPhase::Review
                    && n.manual_queue@.len() == 0 && n.manual_pos == 0 && n.input_hash@.len() == 0
                    && n.input_algo == Algorithm::Sha256 && n.entries@.len() == (
                if old(self).target_file is Some {
                    2int
                } else {
                    1int
                }) && n.entries@.last().path == path && n.entries@.last().source == source_for(found)
                    && (old(self).target_file matches Some(t) ==> n.entries@[0].path == t
                    && n.entries@[0].source == source_for(found_current))
                    && forall|i: int| 0 <= i < n.entries@.len() ==> (#[trigger] n.entries@[i]).selected
                    && n.entries@[i].status is Pending
            },
    {
        if self.multi.is_some() {
            let mut m = self.multi.take().unwrap();
            m.add_if_new(path, found, windows);
            self.multi = Some(m);
        } else {
            let mut paths: Vec<String> = Vec::new();
            let mut founds: Vec<Option<String>> = Vec::new();
            if let Some(existing) = self.target_file.take() {
                paths.push(existing);
                founds.push(found_current);
            }
            paths.push(path);
            founds.push(found);
            self.multi = Some(MultiFileState::from_paths(paths, founds));
            self.input_mode = InputMode::Auto;
            self.auto_checksum_found = None;
            self.checksum_file = None;
            self.manual_hash = String::new();
            self.state = VerifyState::Idle;
        }
    }

    /// Starts the one-file verification. With no file loaded nothing happens.
    /// A typed hash (see `parse_manual_hash`) is checked directly, unless it is
    /// empty; otherwise the automatic or chosen checksum file is used, with the
    /// chosen algorithm as fallback. Returns the job to run, the state being
    /// `Computing`; without one, the state tells the error.
    pub fn start_verification(&mut self) -> (r: Option<SingleJob>)
        ensures
            final(self).target_file == old(self).target_file,
            final(self).input_mode == old(self).input_mode,
            final(self).multi == old(self).multi,
            final(self).checksum_file == old(self).checksum_file,
            final(self).auto_checksum_found == old(self).auto_checksum_found,
            final(self).manual_hash == old(self).manual_hash,
            final(self).selected_algo == old(self).selected_algo,
            final(self).active_panel == old(self).active_panel,
            old(self).target_file is None ==> r is None && final(self).state == old(self).state,
            old(self).target_file matches Some(t) ==> match old(self).input_mode {
                InputMode::HashManual => {
                    let (h, a) = spec_manual_hash(old(self).manual_hash@, old(self).selected_algo);
                    if h.len() == 0 {
                        &&& r is None
                        &&& final(self).state matches VerifyState::Error(m) && m@
                            == empty_hash_message()
                    } else {
                        &&& final(self).state is Computing
                        &&& r matches Some(j) && j.target == t
                        &&& r->0.kind matches JobKind::Direct(jh, ja) && jh@ == h && ja == a
                    }
                },
                _ => {
                    let cs = if old(self).input_mode == InputMode::Auto {
                        old(self).auto_checksum_found
                    } else {
                        old(self).checksum_file
                    };
                    match cs {
                        Some(c) => r matches Some(j) && j.target == t && j.kind
                            == JobKind::FromChecksum(c, old(self).selected_algo)
                            && final(self).state is Computing,
                        None => {
                            &&& r is None
                            &&& final(self).state matches VerifyState::Error(m) && m@
                                == no_checksum_message()
                        },
                    }
                },
            },
    {
        let target = match &self.target_file {
            Some(t) => t.clone(),
            None => {
                return None;
            },
        };
        self.state = VerifyState::Computing;
        match self.input_mode {
            InputMode::HashManual => {
                let (expected, algo) = parse_manual_hash(self.manual_hash.as_str(), self.selected_algo);
                if expected.as_str().is_empty() {
                    self.state = VerifyState::Error(
                        String::from_str("Veuillez entrer une valeur de hash."),
                    );
                    return None;
                }
                Some(SingleJob { target, kind: JobKind::Direct(expected, algo) })
            },
            _ => {
                let cs = if self.input_mode == InputMode::Auto {
                    &self.auto_checksum_found
                } else {
                    &self.checksum_file
                };
                match cs {
                    Some(c) => Some(
                        SingleJob {
                            target,
                            kind: JobKind::FromChecksum(c.clone(), self.selected_algo),
                        },
                    ),
                    None => {
                        self.state = VerifyState::Error(
                            String::from_str("Aucun fichier checksum sélectionné."),
                        );
                        None
                    },
                }
            },
        }
    }
}

impl HashCheckerApp {
    /// Picks where the expected hash of the one file comes from; a shown
    /// result is cleared.
    pub fn set_input_mode(&mut self, mode: InputMode)
        ensures
            final(self).input_mode == mode,
            final(self).state is Idle,
            final(self).target_file == old(self).target_file,
            final(self).checksum_file == old(self).checksum_file,
            final(self).auto_checksum_found == old(self).auto_checksum_found,
            final(self).manual_hash == old(self).manual_hash,
            final(self).selected_algo == old(self).selected_algo,
            final(self).active_panel == old(self).active_panel,
            final(self).multi == old(self).multi,
    {
        self.input_mode = mode;
        self.state = VerifyState::Idle;
    }

    /// Records the checksum file chosen by the user; a shown result is
    /// cleared.
    pub fn set_checksum_file(&mut self, path: String)
        ensures
            final(self).checksum_file == Some(path),
            final(self).state is Idle,
            final(self).target_file == old(self).target_file,
            final(self).input_mode == old(self).input_mode,
            final(self).auto_checksum_found == old(self).auto_checksum_found,
            final(self).manual_hash == old(self).manual_hash,
            final(self).selected_algo == old(self).selected_algo,
            final(self).active_panel == old(self).active_panel,
            final(self).multi == old(self).multi,
    {
        self.checksum_file = Some(path);
        self.state = VerifyState::Idle;
    }

    /// A file dropped on the window: added to the list while the several-files
    /// workflow is shown (during the review, if it is not the same file as one
    /// listed; `windows` selects the path rules), otherwise loaded as the one
    /// file, the main panel being shown. `found` is the checksum file found
    /// next to it.
    pub fn receive_dropped_file(&mut self, path: String, found: Option<String>, windows: bool)
        ensures
            final(self).selected_algo == old(self).selected_algo,
            old(self).multi matches Some(m) ==> final(self).multi matches Some(n) && n.phase == m.phase
                && n.manual_queue@ == m.manual_queue@ && n.manual_pos == m.manual_pos
                && n.input_hash == m.input_hash && n.input_algo == m.input_algo
                && (if m.phase == MultiPhase::Review && forall|i: int|
                0 <= i < m.entries@.len() ==> path_key(#[trigger] m.entries@[i].path@, windows)
                    != path_key(path@, windows) {
                n.entries@ == m.entries@.push(
                    FileEntry {
                        path,
                        selected: true,
                        source: source_for(found),
                        status: EntryStatus::Pending,
                    },
                )
            } else {
                n.entries@ == m.entries@
            }) && final(self).target_file == old(self).target_file && final(self).active_panel
                == old(self).active_panel && final(self).input_mode == old(self).input_mode
                && final(self).checksum_file == old(self).checksum_file
                && final(self).auto_checksum_found == old(self).auto_checksum_found
                && final(self).manual_hash == old(self).manual_hash && final(self).state
                == old(self).state,
            old(self).multi is None ==> {
                &&& final(self).multi is None
                &&& final(self).target_file == Some(path)
                &&& final(self).auto_checksum_found == found
                &&& final(self).checksum_file is None
                &&& final(self).manual_hash@.len() == 0
                &&& final(self).input_mode == (if found is Some {
                    InputMode::Auto
                } else {
                    InputMode::FileManual
                })
                &&& final(self).state is Idle
                &&& final(self).active_panel == Panel::Main
            },
    {
        if self.multi.is_some() {
            let mut m = self.multi.take().unwrap();
            m.add_if_new(path, found, windows);
            self.multi = Some(m);
        } else {
            self.set_target_file(path, found);
            self.active_panel = Panel::Main;
        }
    }

    /// Leaves the several-files workflow from its review: back to an empty
    /// window.
    pub fn cancel_multi(&mut self)
        ensures
            final(self).multi is None,
            final(self).target_file is None,
            final(self).state is Idle,
            final(self).input_mode == old(self).input_mode,
            final(self).checksum_file == old(self).checksum_file,
            final(self).auto_checksum_found == old(self).auto_checksum_found,
            final(self).manual_hash == old(self).manual_hash,
            final(self).selected_algo == old(self).selected_algo,
            final(self).active_panel == old(self).active_panel,
    {
        self.multi = None;
        self.target_file = None;
        self.state = VerifyState::Idle;
    }

    /// Starts over once the results are shown: an empty window.
    pub fn new_verification(&mut self)
        ensures
            final(self).multi is None,
            final(self).target_file is None,
            final(self).checksum_file is None,
            final(self).auto_checksum_found is None,
            final(self).manual_hash@.len() == 0,
            final(self).state is Idle,
            final(self).input_mode == old(self).input_mode,
            final(self).selected_algo == old(self).selected_algo,
            final(self).active_panel == old(self).active_panel,
    {
        self.multi = None;
        self.target_file = None;
        self.checksum_file = None;
        self.auto_checksum_found = None;
        self.manual_hash = String::new();
        self.state = VerifyState::Idle;
    }

    /// Whether work is in progress, so that the window keeps redrawing: the
    /// list is being verified, or the one file is being computed.
    pub fn is_busy(&self) -> (r: bool)
        ensures
            r == match self.multi {
                Some(m) => m.phase == MultiPhase::Verifying,
                None => self.state is Computing,
            },
    {
        match &self.multi {
            Some(m) => m.phase == MultiPhase::Verifying,
            None => match self.state {
                VerifyState::Computing => true,
                _ => false,
            },
        }
    }
}

/// The state of the one-file verification once the digest is computed:
/// success when it agrees with the expected hash without regard to case,
/// failure otherwise; both hashes are kept in lowercase.
pub fn single_outcome(expected: &str, computed: &str) -> (r: VerifyState)
    ensures
        match r {
            VerifyState::Success(e, c) => e@ == unicode_lower(expected@) && c@ == unicode_lower(
                computed@,
            ) && unicode_lower(expected@) == unicode_lower(computed@),
            VerifyState::Failure(e, c) => e@ == unicode_lower(expected@) && c@ == unicode_lower(
                computed@,
            ) && unicode_lower(expected@) != unicode_lower(computed@),
            _ => false,
        },
{
    let cmp = compare_hashes(expected, computed);
    if cmp.matched {
        VerifyState::Success(cmp.expected, cmp.computed)
    } else {
        VerifyState::Failure(cmp.expected, cmp.computed)
    }
}

} // verus!
