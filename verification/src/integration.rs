//! Right-click menu integration: whether it is installed, and what installing
//! or removing it writes (Windows registry, Nautilus script, KDE service menu,
//! Thunar custom action).

use vstd::prelude::*;
use crate::text::{
    chars_of, contains, contains_seq, join2, join3, lemma_occurs_concat_left,
    lemma_occurs_concat_right, lemma_replace_leaves_replacement, occurs_at, replace_all,
    spec_lines, spec_replace, string_of, strip_cr, join_lines, lemma_lines_of_join,
    lemma_absent_by_three, lemma_absent_by_pair, split_lines, lines_view, lemma_join_lines_push,
};

verus! {

/// The system the program runs on, as far as the integration cares.
#[derive(Debug, Clone, Copy, PartialEq, Eq, Structural)]
pub enum Platform {
    Windows,
    /// Linux, macOS and other Unix systems.
    Unix,
    Other,
}

/// Whether each integration is installed; `None` where it does not apply.
#[derive(Debug, Clone, Copy, PartialEq, Eq, Structural)]
pub struct IntegrationStatus {
    pub windows_registry: Option<bool>,
    pub linux_nautilus: Option<bool>,
    pub linux_kde: Option<bool>,
    pub linux_thunar: Option<bool>,
}

/// The marker that identifies our Thunar action.
pub open spec fn marker() -> Seq<char> {
    "Hash Checker"@
}

/// Whether a Thunar `uca.xml` (its text, or `None` when the file is absent)
/// holds our action.
pub open spec fn spec_thunar_installed(uca: Option<Seq<char>>) -> bool {
    match uca {
        Some(c) => contains_seq(c, marker()),
        None => false,
    }
}

/// Whether the Thunar configuration (its text, `None` when absent) holds our
/// action.
pub fn detect_thunar(uca: Option<&str>) -> (r: bool)
    ensures
        r == spec_thunar_installed(match uca {
            Some(c) => Some(c@),
            None => None,
        }),
{
    match uca {
        Some(c) => contains(&chars_of(c), &chars_of("Hash Checker")),
        None => false,
    }
}

impl IntegrationStatus {
    /// The status on `platform`, from what is found on disk: the registry key
    /// (Windows), the Nautilus script and the KDE service file (Unix), and the
    /// text of Thunar's `uca.xml` (Unix; `None` when absent). Integrations of
    /// other platforms are `None`.
    pub fn detect(
        platform: Platform,
        registry_key_present: bool,
        nautilus_script_present: bool,
        kde_file_present: bool,
        thunar_uca: Option<&str>,
    ) -> (r: Self)
        ensures
            r.windows_registry == (if platform == Platform::Windows {
                Some(registry_key_present)
            } else {
                None
            }),
            r.linux_nautilus == (if platform == Platform::Unix {
                Some(nautilus_script_present)
            } else {
                None
            }),
            r.linux_kde == (if platform == Platform::Unix {
                Some(kde_file_present)
            } else {
                None
            }),
            r.linux_thunar == (if platform == Platform::Unix {
                Some(
                    spec_thunar_installed(match thunar_uca {
                        Some(c) => Some(c@),
                        None => None,
                    }),
                )
            } else {
                None
            }),
    {
        let unix = platform == Platform::Unix;
        IntegrationStatus {
            windows_registry: if platform == Platform::Windows {
                Some(registry_key_present)
            } else {
                None
            },
            linux_nautilus: if unix {
                Some(nautilus_script_present)
            } else {
                None
            },
            linux_kde: if unix {
                Some(kde_file_present)
            } else {
                None
            },
            linux_thunar: if unix {
                Some(detect_thunar(thunar_uca))
            } else {
                None
            },
        }
    }

    /// Whether at least one integration is installed.
    pub fn any_installed(&self) -> (r: bool)
        ensures
            r == (self.windows_registry == Some(true) || self.linux_nautilus == Some(true)
                || self.linux_kde == Some(true) || self.linux_thunar == Some(true)),
    {
        self.windows_registry == Some(true) || self.linux_nautilus == Some(true)
            || self.linux_kde == Some(true) || self.linux_thunar == Some(true)
    }
}

} // verus!

verus! {

/// The answer on a platform where an integration does not exist.
pub open spec fn unavailable() -> Seq<char> {
    "Non disponible sur ce système."@
}

fn unavailable_error() -> (r: String)
    ensures
        r@ == unavailable(),
{
    String::from_str("Non disponible sur ce système.")
}

// ---------------------------------------------------------------------------
// Windows: registry key HKCU\Software\Classes\*\shell\Hash Checker.
// ---------------------------------------------------------------------------

/// The registry values that make up the Windows context-menu entry, under
/// `HKEY_CURRENT_USER`.
pub struct RegistryPlan {
    /// The key to create (sub-keys included).
    pub key: String,
    /// Default value of the key: the menu text.
    pub label: String,
    /// `Icon` value: the program's first embedded icon.
    pub icon: String,
    /// `MultiSelectModel` value: one process per selected file.
    pub multi_select_model: String,
    /// Default value of the `command` sub-key: the program run on `%1`.
    pub command: String,
}

pub open spec fn registry_key() -> Seq<char> {
    "Software\\Classes\\*\\shell\\Hash Checker"@
}

pub open spec fn menu_label() -> Seq<char> {
    "Vérifier l'intégrité (Hash Checker)"@
}

/// What installing the Windows entry writes for the program at `exe_path`;
/// unavailable elsewhere.
pub fn install_windows(exe_path: &str, platform: Platform) -> (r: Result<RegistryPlan, String>)
    ensures
        platform != Platform::Windows ==> (r matches Err(e) && e@ == unavailable()),
        platform == Platform::Windows ==> (r matches Ok(p) && p.key@ == registry_key() && p.label@
            == menu_label() && p.icon@ == exe_path@ + ",0"@ && p.multi_select_model@ == "Player"@
            && p.command@ == "\""@ + exe_path@ + "\" \"%1\""@),
{
    if platform != Platform::Windows {
        return Err(unavailable_error());
    }
    Ok(
        RegistryPlan {
            key: String::from_str("Software\\Classes\\*\\shell\\Hash Checker"),
            label: String::from_str("Vérifier l'intégrité (Hash Checker)"),
            icon: join2(exe_path, ",0"),
            multi_select_model: String::from_str("Player"),
            command: join3("\"", exe_path, "\" \"%1\""),
        },
    )
}

/// The registry key that removing the Windows entry deletes (with all its
/// sub-keys); unavailable elsewhere.
pub fn uninstall_windows(platform: Platform) -> (r: Result<String, String>)
    ensures
        platform != Platform::Windows ==> (r matches Err(e) && e@ == unavailable()),
        platform == Platform::Windows ==> (r matches Ok(k) && k@ == registry_key()),
{
    if platform != Platform::Windows {
        return Err(unavailable_error());
    }
    Ok(String::from_str("Software\\Classes\\*\\shell\\Hash Checker"))
}

// ---------------------------------------------------------------------------
// Nautilus: an executable script in ~/.local/share/nautilus/scripts/.
// ---------------------------------------------------------------------------

/// The Nautilus script: runs the program on every selected file.
pub open spec fn nautilus_script(exe: Seq<char>) -> Seq<char> {
    "#!/bin/bash\nfor f in \"$@\"; do\n  \""@ + exe + "\" \"$f\" &\ndone\n"@
}

/// The script that installing the Nautilus entry writes (made executable);
/// unavailable outside Unix.
pub fn install_nautilus(exe_path: &str, platform: Platform) -> (r: Result<String, String>)
    ensures
        platform != Platform::Unix ==> (r matches Err(e) && e@ == unavailable()),
        platform == Platform::Unix ==> (r matches Ok(s) && s@ == nautilus_script(exe_path@)),
{
    if platform != Platform::Unix {
        return Err(unavailable_error());
    }
    Ok(join3("#!/bin/bash\nfor f in \"$@\"; do\n  \"", exe_path, "\" \"$f\" &\ndone\n"))
}

/// Whether removing the Nautilus entry deletes the script: only if it is
/// present; unavailable outside Unix.
pub fn uninstall_nautilus(platform: Platform, present: bool) -> (r: Result<bool, String>)
    ensures
        platform != Platform::Unix ==> (r matches Err(e) && e@ == unavailable()),
        platform == Platform::Unix ==> r == Ok::<bool, String>(present),
{
    if platform != Platform::Unix {
        return Err(unavailable_error());
    }
    Ok(present)
}

// ---------------------------------------------------------------------------
// KDE: a service menu in ~/.local/share/kio/servicemenus/.
// ---------------------------------------------------------------------------

/// The KDE service menu: an action offered on files, running the program on
/// the selected files.
pub open spec fn kde_service(exe: Seq<char>) -> Seq<char> {
    "[Desktop Entry]\nType=Service\nServiceTypes=KonqPopupMenu/Plugin\nMimeType=application/octet-stream;application/x-iso9660-image;\nActions=hash_check\nX-KDE-Priority=TopLevel\n\n[Desktop Action hash_check]\nName=Vérifier l'intégrité (Hash Checker)\nIcon=security-high\nExec=\""@
        + exe + "\" %F\n"@
}

/// The file that installing the KDE entry writes; unavailable outside Unix.
pub fn install_kde(exe_path: &str, platform: Platform) -> (r: Result<String, String>)
    ensures
        platform != Platform::Unix ==> (r matches Err(e) && e@ == unavailable()),
        platform == Platform::Unix ==> (r matches Ok(s) && s@ == kde_service(exe_path@)),
{
    if platform != Platform::Unix {
        return Err(unavailable_error());
    }
    Ok(
        join3(
            "[Desktop Entry]\nType=Service\nServiceTypes=KonqPopupMenu/Plugin\nMimeType=application/octet-stream;application/x-iso9660-image;\nActions=hash_check\nX-KDE-Priority=TopLevel\n\n[Desktop Action hash_check]\nName=Vérifier l'intégrité (Hash Checker)\nIcon=security-high\nExec=\"",
            exe_path,
            "\" %F\n",
        ),
    )
}

/// Whether removing the KDE entry deletes the file: only if it is present;
/// unavailable outside Unix.
pub fn uninstall_kde(platform: Platform, present: bool) -> (r: Result<bool, String>)
    ensures
        platform != Platform::Unix ==> (r matches Err(e) && e@ == unavailable()),
        platform == Platform::Unix ==> r == Ok::<bool, String>(present),
{
    if platform != Platform::Unix {
        return Err(unavailable_error());
    }
    Ok(present)
}

// ---------------------------------------------------------------------------
// Thunar: an <action> in ~/.config/Thunar/uca.xml.
// ---------------------------------------------------------------------------

pub open spec fn thunar_action_head() -> Seq<char> {
    "<action>\n  <icon>security-high</icon>\n  <name>Vérifier l'intégrité (Hash Checker)</name>\n  <unique-id>hash-checker-001</unique-id>\n  <command>\""@
}

pub open spec fn thunar_action_tail() -> Seq<char> {
    "\" \"%f\"</command>\n  <description>Vérifier le hash du fichier</description>\n  <patterns>*</patterns>\n  <directories/>\n  <audio-files/>\n  <image-files/>\n  <other-files/>\n  <text-files/>\n  <video-files/>\n</action>"@
}

/// Our Thunar action, running the program on the selected file.
pub open spec fn thunar_action(exe: Seq<char>) -> Seq<char> {
    thunar_action_head() + exe + thunar_action_tail()
}

/// A new `uca.xml` holding only our action.
pub open spec fn fresh_uca(exe: Seq<char>) -> Seq<char> {
    "<?xml version=\"1.0\" encoding=\"UTF-8\"?>\n<actions>\n"@ + thunar_action(exe) + "\n</actions>\n"@
}

/// What `uca.xml` holds once the Thunar entry is installed, given its text
/// before (`None` when absent): unchanged when it holds our action; our action
/// inserted before every `</actions>` of a file that closes its list; a
/// complete new list appended to a file that does not (so an empty file
/// becomes a new one); a new file when there was none.
pub open spec fn uca_after_install(existing: Option<Seq<char>>, exe: Seq<char>) -> Seq<char> {
    match existing {
        None => fresh_uca(exe),
        Some(c) => if contains_seq(c, marker()) {
            c
        } else if contains_seq(c, "</actions>"@) {
            spec_replace(c, "</actions>"@, thunar_action(exe) + "\n</actions>"@)
        } else {
            c + fresh_uca(exe)
        },
    }
}

/// What installing the Thunar entry writes to `uca.xml`, given its current
/// text (`None` when absent): nothing when our action is already there,
/// otherwise the text `uca_after_install` gives. Unavailable outside Unix.
pub fn install_thunar(exe_path: &str, platform: Platform, existing: Option<&str>) -> (r: Result<
    Option<String>,
    String,
>)
    ensures
        platform != Platform::Unix ==> (r matches Err(e) && e@ == unavailable()),
        platform == Platform::Unix ==> (r matches Ok(w) && match existing {
            Some(c) if contains_seq(c@, marker()) => w is None,
            _ => w matches Some(s) && s@ == uca_after_install(
                match existing {
                    Some(c) => Some(c@),
                    None => None,
                },
                exe_path@,
            ),
        }),
{
    if platform != Platform::Unix {
        return Err(unavailable_error());
    }
    let entry = join3(
        "<action>\n  <icon>security-high</icon>\n  <name>Vérifier l'intégrité (Hash Checker)</name>\n  <unique-id>hash-checker-001</unique-id>\n  <command>\"",
        exe_path,
        "\" \"%f\"</command>\n  <description>Vérifier le hash du fichier</description>\n  <patterns>*</patterns>\n  <directories/>\n  <audio-files/>\n  <image-files/>\n  <other-files/>\n  <text-files/>\n  <video-files/>\n</action>",
    );
    let fresh = join3(
        "<?xml version=\"1.0\" encoding=\"UTF-8\"?>\n<actions>\n",
        entry.as_str(),
        "\n</actions>\n",
    );
    match existing {
        Some(content) => {
            if detect_thunar(Some(content)) {
                return Ok(None);
            }
            let closing = chars_of("</actions>");
            if contains(&chars_of(content), &closing) {
                proof {
                    reveal_strlit("</actions>");
                }
                let replacement = join2(entry.as_str(), "\n</actions>");
                let updated = replace_all(&chars_of(content), &closing, &chars_of(replacement.as_str()));
                Ok(Some(string_of(&updated)))
            } else {
                Ok(Some(join2(content, fresh.as_str())))
            }
        },
        None => Ok(Some(fresh)),
    }
}

/// The line that closes an `<action>` block opened at line `j`: the first
/// line from `j` on that holds `</action>`, else the last line.
pub open spec fn close_at(ls: Seq<Seq<char>>, j: int) -> int
    decreases ls.len() - j,
{
    if j < 0 || j >= ls.len() - 1 || contains_seq(ls[j], "</action>"@) {
        j
    } else {
        close_at(ls, j + 1)
    }
}

/// The closing line is at or after the opening one, within the lines, and no
/// line before it holds `</action>`.
pub proof fn lemma_close_at(ls: Seq<Seq<char>>, j: int)
    requires
        0 <= j < ls.len(),
    ensures
        j <= close_at(ls, j) < ls.len(),
        forall|t: int| j <= t < close_at(ls, j) ==> !contains_seq(#[trigger] ls[t], "</action>"@),
    decreases ls.len() - j,
{
    if !(j >= ls.len() - 1 || contains_seq(ls[j], "</action>"@)) {
        lemma_close_at(ls, j + 1);
    }
}

/// Some line of `ls[lo..=hi]` holds `marker`.
pub open spec fn block_holds(ls: Seq<Seq<char>>, lo: int, hi: int, marker: Seq<char>) -> bool {
    exists|t: int| lo <= t <= hi && contains_seq(#[trigger] ls[t], marker)
}

/// The lines from `i` on, each followed by `\n`, without the `<action>`
/// blocks that hold `marker`: a block runs from a line holding `<action>` to
/// the line that closes it (see `close_at`); a block without the marker is
/// kept whole.
pub open spec fn kept_from(ls: Seq<Seq<char>>, i: int, marker: Seq<char>) -> Seq<char>
    decreases ls.len() - i,
    via kept_from_decreases
{
    if i < 0 || i >= ls.len() {
        Seq::empty()
    } else if contains_seq(ls[i], "<action>"@) {
        let k = close_at(ls, i);
        (if block_holds(ls, i, k, marker) {
            Seq::empty()
        } else {
            join_lines(ls.subrange(i, k + 1))
        }) + kept_from(ls, k + 1, marker)
    } else {
        ls[i] + seq!['\n'] + kept_from(ls, i + 1, marker)
    }
}

#[via_fn]
proof fn kept_from_decreases(ls: Seq<Seq<char>>, i: int, marker: Seq<char>) {
    if 0 <= i < ls.len() {
        lemma_close_at(ls, i);
    }
}

/// `xml` without the `<action>` blocks that hold `marker` (see `kept_from`).
pub open spec fn spec_remove_action(xml: Seq<char>, marker: Seq<char>) -> Seq<char> {
    kept_from(spec_lines(xml), 0, marker)
}

fn push_line(out: &mut Vec<char>, line: &[char])
    ensures
        final(out)@ == old(out)@ + line@ + seq!['\n'],
{
    let mut i: usize = 0;
    let ghost start = out@;
    while i < line.len()
        invariant
            i <= line.len(),
            out@ == start + line@.take(i as int),
        decreases line.len() - i,
    {
        out.push(line[i]);
        assert(start + line@.take(i + 1) =~= (start + line@.take(i as int)).push(line@[i as int]));
        i += 1;
    }
    out.push('\n');
    assert(line@.take(line.len() as int) =~= line@);
    assert(out@ =~= start + line@ + seq!['\n']);
}

/// Removes from `xml` the `<action>...</action>` blocks that hold `marker`,
/// line by line: a block starts at a line holding `<action>` and ends at the
/// next line holding `</action>` (or at the last line); blocks without the
/// marker and lines outside blocks are kept, each ending with `\n`.
pub fn remove_xml_action(xml: &str, marker: &str) -> (r: String)
    ensures
        r@ == spec_remove_action(xml@, marker@),
{
    let x = chars_of(xml);
    let m = chars_of(marker);
    let ls = split_lines(&x);
    let ghost lv = lines_view(ls@);
    let open_tag = chars_of("<action>");
    let close_tag = chars_of("</action>");
    let mut out: Vec<char> = Vec::new();
    let mut i: usize = 0;
    assert(spec_remove_action(xml@, marker@) == out@ + kept_from(lv, 0, m@));
    while i < ls.len()
        invariant
            i <= ls@.len(),
            lv == lines_view(ls@),
            m@ == marker@,
            open_tag@ == "<action>"@,
            close_tag@ == "</action>"@,
            spec_remove_action(xml@, marker@) == out@ + kept_from(lv, i as int, m@),
        decreases ls.len() - i,
    {
        assert(lv[i as int] == ls@[i as int]@);
        if contains(&ls[i], &open_tag) {
            let mut k = i;
            while k + 1 < ls.len() && !contains(&ls[k], &close_tag)
                invariant
                    i <= k < ls@.len(),
                    lv == lines_view(ls@),
                    close_tag@ == "</action>"@,
                    close_at(lv, i as int) == close_at(lv, k as int),
                decreases ls.len() - k,
            {
                assert(lv[k as int] == ls@[k as int]@);
                k += 1;
            }
            assert(lv[k as int] == ls@[k as int]@);
            assert(close_at(lv, k as int) == k);
            let mut holds = false;
            let mut t = i;
            while t <= k
                invariant
                    i <= t <= k + 1,
                    k < ls.len(),
                    lv == lines_view(ls@),
                    m@ == marker@,
                    holds == exists|u: int| i <= u < t && contains_seq(#[trigger] lv[u], m@),
                decreases k + 1 - t,
            {
                assert(lv[t as int] == ls@[t as int]@);
                if contains(&ls[t], &m) {
                    holds = true;
                }
                t += 1;
            }
            assert(holds == block_holds(lv, i as int, k as int, m@));
            let ghost before = out@;
            if !holds {
                let mut t = i;
                assert(lv.subrange(i as int, i as int) =~= Seq::<Seq<char>>::empty());
                while t <= k
                    invariant
                        i <= t <= k + 1,
                        k < ls.len(),
                        lv == lines_view(ls@),
                        out@ == before + join_lines(lv.subrange(i as int, t as int)),
                    decreases k + 1 - t,
                {
                    assert(lv[t as int] == ls@[t as int]@);
                    push_line(&mut out, &ls[t]);
                    proof {
                        lemma_join_lines_push(lv.subrange(i as int, t as int), lv[t as int]);
                        assert(lv.subrange(i as int, t + 1) =~= lv.subrange(i as int, t as int).push(lv[t as int]));
                    }
                    t += 1;
                }
            } else {
                assert(out@ =~= before + Seq::<char>::empty());
            }
            i = k + 1;
        } else {
            push_line(&mut out, &ls[i]);
            i += 1;
        }
    }
    string_of(&out)
}

/// What removing the Thunar entry writes to `uca.xml`, given its current text
/// (`None` when absent): nothing for an absent file, else the text without our
/// action. Unavailable outside Unix.
pub fn uninstall_thunar(platform: Platform, existing: Option<&str>) -> (r: Result<Option<String>, String>)
    ensures
        platform != Platform::Unix ==> (r matches Err(e) && e@ == unavailable()),
        platform == Platform::Unix ==> (r matches Ok(w) && match existing {
            None => w is None,
            Some(c) => w matches Some(s) && s@ == spec_remove_action(c@, marker()),
        }),
{
    if platform != Platform::Unix {
        return Err(unavailable_error());
    }
    match existing {
        None => Ok(None),
        Some(content) => Ok(Some(remove_xml_action(content, "Hash Checker"))),
    }
}

} // verus!

verus! {

proof fn lemma_action_holds_marker(exe: Seq<char>)
    ensures
        occurs_at(thunar_action(exe), marker(), 68),
{
    reveal_strlit("<action>\n  <icon>security-high</icon>\n  <name>Vérifier l'intégrité (Hash Checker)</name>\n  <unique-id>hash-checker-001</unique-id>\n  <command>\"");
    reveal_strlit("Hash Checker");
    assert(occurs_at(thunar_action_head(), marker(), 68)) by {
        assert(thunar_action_head().subrange(68, 80) =~= marker());
    }
    lemma_occurs_concat_left(thunar_action_head(), exe, marker(), 68);
    lemma_occurs_concat_left(thunar_action_head() + exe, thunar_action_tail(), marker(), 68);
}

/// Installing into a system without `uca.xml` makes the Thunar entry detected.
pub proof fn lemma_fresh_install_detected(exe: Seq<char>)
    ensures
        spec_thunar_installed(Some(fresh_uca(exe))),
{
    let pre = "<?xml version=\"1.0\" encoding=\"UTF-8\"?>\n<actions>\n"@;
    lemma_action_holds_marker(exe);
    lemma_occurs_concat_right(pre, thunar_action(exe), marker(), 68);
    lemma_occurs_concat_left(pre + thunar_action(exe), "\n</actions>\n"@, marker(), pre.len() + 68int);
}

proof fn lemma_install_into_existing_detected(c: Seq<char>, exe: Seq<char>)
    requires
        contains_seq(c, "</actions>"@),
    ensures
        spec_thunar_installed(Some(spec_replace(c, "</actions>"@, thunar_action(exe) + "\n</actions>"@))),
{
    reveal_strlit("</actions>");
    let r = thunar_action(exe) + "\n</actions>"@;
    let j = choose|j: int| occurs_at(c, "</actions>"@, j);
    lemma_replace_leaves_replacement(c, "</actions>"@, r, 0, j);
    let out = spec_replace(c, "</actions>"@, r);
    let k = choose|k: int| occurs_at(out, r, k);
    lemma_action_holds_marker(exe);
    lemma_occurs_concat_left(thunar_action(exe), "\n</actions>"@, marker(), 68);
    assert(occurs_at(out, marker(), k + 68)) by {
        assert(out.subrange(k + 68, k + 68 + marker().len()) =~= r.subrange(68, 68 + marker().len() as int));
    }
}

/// Whatever `uca.xml` held before (or when it was absent), once the Thunar
/// entry is installed the file holds our action.
pub proof fn lemma_installed_after_install(existing: Option<Seq<char>>, exe: Seq<char>)
    ensures
        spec_thunar_installed(Some(uca_after_install(existing, exe))),
{
    lemma_fresh_install_detected(exe);
    match existing {
        None => {},
        Some(c) => {
            if contains_seq(c, marker()) {
            } else if contains_seq(c, "</actions>"@) {
                lemma_install_into_existing_detected(c, exe);
            } else {
                let k = choose|k: int| occurs_at(fresh_uca(exe), marker(), k);
                lemma_occurs_concat_right(c, fresh_uca(exe), marker(), k);
            }
        },
    }
}

/// The lines of a new `uca.xml` holding only our action.
pub open spec fn fresh_uca_lines(exe: Seq<char>) -> Seq<Seq<char>> {
    seq![
        "<?xml version=\"1.0\" encoding=\"UTF-8\"?>"@,
        "<actions>"@,
        "<action>"@,
        "  <icon>security-high</icon>"@,
        "  <name>Vérifier l'intégrité (Hash Checker)</name>"@,
        "  <unique-id>hash-checker-001</unique-id>"@,
        "  <command>\""@ + exe + "\" \"%f\"</command>"@,
        "  <description>Vérifier le hash du fichier</description>"@,
        "  <patterns>*</patterns>"@,
        "  <directories/>"@,
        "  <audio-files/>"@,
        "  <image-files/>"@,
        "  <other-files/>"@,
        "  <text-files/>"@,
        "  <video-files/>"@,
        "</action>"@,
        "</actions>"@,
    ]
}

/// A path that keeps the action's command on one line and opens no tag.
pub open spec fn plain_exe(exe: Seq<char>) -> bool {
    forall|i: int| 0 <= i < exe.len() ==> #[trigger] exe[i] != '\n' && exe[i] != '<'
}

#[verifier::spinoff_prover]
#[verifier::rlimit(40)]
proof fn lemma_fresh_uca_is_lines(exe: Seq<char>)
    requires
        plain_exe(exe),
    ensures
        fresh_uca(exe) == join_lines(fresh_uca_lines(exe)),
        spec_lines(fresh_uca(exe)) == fresh_uca_lines(exe),
{
    reveal_strlit("<?xml version=\"1.0\" encoding=\"UTF-8\"?>\n<actions>\n");
    reveal_strlit("<action>\n  <icon>security-high</icon>\n  <name>Vérifier l'intégrité (Hash Checker)</name>\n  <unique-id>hash-checker-001</unique-id>\n  <command>\"");
    reveal_strlit("\" \"%f\"</command>\n  <description>Vérifier le hash du fichier</description>\n  <patterns>*</patterns>\n  <directories/>\n  <audio-files/>\n  <image-files/>\n  <other-files/>\n  <text-files/>\n  <video-files/>\n</action>");
    reveal_strlit("\n</actions>\n");
    reveal_strlit("<?xml version=\"1.0\" encoding=\"UTF-8\"?>");
    reveal_strlit("<actions>");
    reveal_strlit("<action>");
    reveal_strlit("  <icon>security-high</icon>");
    reveal_strlit("  <name>Vérifier l'intégrité (Hash Checker)</name>");
    reveal_strlit("  <unique-id>hash-checker-001</unique-id>");
    reveal_strlit("  <command>\"");
    reveal_strlit("\" \"%f\"</command>");
    reveal_strlit("  <description>Vérifier le hash du fichier</description>");
    reveal_strlit("  <patterns>*</patterns>");
    reveal_strlit("  <directories/>");
    reveal_strlit("  <audio-files/>");
    reveal_strlit("  <image-files/>");
    reveal_strlit("  <other-files/>");
    reveal_strlit("  <text-files/>");
    reveal_strlit("  <video-files/>");
    reveal_strlit("</action>");
    reveal_strlit("</actions>");
    let ls = fresh_uca_lines(exe);
    reveal_with_fuel(join_lines, 18);
    assert(fresh_uca(exe) =~= join_lines(ls));
    assert forall|i: int, j: int| 0 <= i < ls.len() && 0 <= j < ls[i].len() implies #[trigger] ls[i][j] != '\n' by {
        if i == 6 {
            let c1 = "  <command>\""@;
            if c1.len() <= j < c1.len() + exe.len() {
                assert(ls[i][j] == exe[j - c1.len()]);
            }
        }
    }
    assert forall|i: int| 0 <= i < ls.len() implies strip_cr(#[trigger] ls[i]) == ls[i] by {
        assert(ls[i].last() == '>');
    }
    lemma_lines_of_join(ls);
}

proof fn lemma_close_at_is(ls: Seq<Seq<char>>, j: int, k: int)
    requires
        0 <= j <= k < ls.len(),
        forall|t: int| j <= t < k ==> !contains_seq(#[trigger] ls[t], "</action>"@),
        contains_seq(ls[k], "</action>"@) || k == ls.len() - 1,
    ensures
        close_at(ls, j) == k,
    decreases k - j,
{
    if j < k {
        lemma_close_at_is(ls, j + 1, k);
    }
}

/// Removing the Thunar entry from a `uca.xml` that installing it created
/// leaves a file without it (for a program path on one line, opening no tag).
pub proof fn lemma_uninstall_after_fresh_install(exe: Seq<char>)
    requires
        plain_exe(exe),
    ensures
        spec_remove_action(fresh_uca(exe), marker())
            == "<?xml version=\"1.0\" encoding=\"UTF-8\"?>\n<actions>\n</actions>\n"@,
        !spec_thunar_installed(Some(spec_remove_action(fresh_uca(exe), marker()))),
{
    lemma_fresh_uca_is_lines(exe);
    reveal_strlit("<?xml version=\"1.0\" encoding=\"UTF-8\"?>\n<actions>\n</actions>\n");
    reveal_strlit("<?xml version=\"1.0\" encoding=\"UTF-8\"?>");
    reveal_strlit("<actions>");
    reveal_strlit("<action>");
    reveal_strlit("</action>");
    reveal_strlit("</actions>");
    reveal_strlit("  <icon>security-high</icon>");
    reveal_strlit("  <name>Vérifier l'intégrité (Hash Checker)</name>");
    reveal_strlit("  <unique-id>hash-checker-001</unique-id>");
    reveal_strlit("  <command>\"");
    reveal_strlit("\" \"%f\"</command>");
    reveal_strlit("  <description>Vérifier le hash du fichier</description>");
    reveal_strlit("  <patterns>*</patterns>");
    reveal_strlit("  <directories/>");
    reveal_strlit("  <audio-files/>");
    reveal_strlit("  <image-files/>");
    reveal_strlit("  <other-files/>");
    reveal_strlit("  <text-files/>");
    reveal_strlit("  <video-files/>");
    reveal_strlit("Hash Checker");
    let xml = fresh_uca(exe);
    let ls = fresh_uca_lines(exe);
    let m = marker();
    let open_tag = "<action>"@;
    let close_tag = "</action>"@;
    // The two first lines and the last one open no block.
    lemma_absent_by_three(ls[0], open_tag);
    lemma_absent_by_pair(ls[1], open_tag, 7);
    lemma_absent_by_three(ls[16], open_tag);
    // The third opens the block that the line `</action>` closes.
    assert(occurs_at(ls[2], open_tag, 0)) by {
        assert(ls[2].subrange(0, 8) =~= open_tag);
    }
    assert forall|t: int| 2 <= t < 15 implies !contains_seq(#[trigger] ls[t], close_tag) by {
        if t == 6 {
            let c1 = "  <command>\""@;
            let l = ls[6];
            assert forall|p: int| 0 <= p && p + close_tag.len() <= l.len() implies (#[trigger] l[p]
                != close_tag[0] || l[p + 1] != close_tag[1] || l[p + 2] != close_tag[2]) by {
                if c1.len() <= p < c1.len() + exe.len() {
                    assert(l[p] == exe[p - c1.len()]);
                }
            }
            lemma_absent_by_three(l, close_tag);
        } else {
            lemma_absent_by_three(ls[t], close_tag);
        }
    }
    assert(occurs_at(ls[15], close_tag, 0)) by {
        assert(ls[15].subrange(0, 9) =~= close_tag);
    }
    lemma_close_at_is(ls, 2, 15);
    // That block holds the marker, on the line of the action's name.
    assert(occurs_at(ls[4], m, 30)) by {
        assert(ls[4].subrange(30, 42) =~= m);
    }
    assert(block_holds(ls, 2, 15, m));
    assert(kept_from(ls, 17, m) =~= Seq::<char>::empty());
    assert(kept_from(ls, 16, m) =~= ls[16] + seq!['\n']);
    assert(kept_from(ls, 2, m) =~= ls[16] + seq!['\n']);
    assert(kept_from(ls, 1, m) =~= ls[1] + seq!['\n'] + (ls[16] + seq!['\n']));
    assert(kept_from(ls, 0, m) =~= ls[0] + seq!['\n'] + (ls[1] + seq!['\n'] + (ls[16] + seq!['\n'])));
    let out = spec_remove_action(xml, m);
    assert(out =~= ls[0] + seq!['\n'] + (ls[1] + seq!['\n'] + (ls[16] + seq!['\n'])));
    assert(out =~= "<?xml version=\"1.0\" encoding=\"UTF-8\"?>\n<actions>\n</actions>\n"@);
    assert forall|i: int| 0 <= i && i + m.len() <= out.len() implies (#[trigger] out[i] != m[0]
        || out[i + 1] != m[1] || out[i + 2] != m[2]) by {
    }
    lemma_absent_by_three(out, m);
}

} // verus!
