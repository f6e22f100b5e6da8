use hash_checker::integration::{
    detect_thunar, install_kde, install_nautilus, install_thunar, install_windows,
    remove_xml_action, uninstall_kde, uninstall_nautilus, uninstall_thunar, uninstall_windows,
    IntegrationStatus, Platform,
};

const UNAVAILABLE: &str = "Non disponible sur ce système.";

#[test]
fn detect_by_platform() {
    let s = IntegrationStatus::detect(Platform::Unix, true, true, false, Some("<actions>Hash Checker</actions>"));
    assert_eq!(s.windows_registry, None);
    assert_eq!(s.linux_nautilus, Some(true));
    assert_eq!(s.linux_kde, Some(false));
    assert_eq!(s.linux_thunar, Some(true));
    assert!(s.any_installed());
    let s = IntegrationStatus::detect(Platform::Windows, false, true, true, None);
    assert_eq!(s.windows_registry, Some(false));
    assert_eq!(s.linux_nautilus, None);
    assert!(!s.any_installed());
    let s = IntegrationStatus::detect(Platform::Other, true, true, true, Some("Hash Checker"));
    assert_eq!(s, IntegrationStatus { windows_registry: None, linux_nautilus: None, linux_kde: None, linux_thunar: None });
}

#[test]
fn thunar_detection() {
    assert!(!detect_thunar(None));
    assert!(!detect_thunar(Some("")));
    assert!(detect_thunar(Some("x Hash Checker y")));
}

#[test]
fn unavailable_elsewhere() {
    assert_eq!(install_windows("/bin/hc", Platform::Unix).err().unwrap(), UNAVAILABLE);
    assert_eq!(uninstall_windows(Platform::Unix).unwrap_err(), UNAVAILABLE);
    assert_eq!(install_nautilus("/bin/hc", Platform::Windows).unwrap_err(), UNAVAILABLE);
    assert_eq!(uninstall_nautilus(Platform::Windows, true).unwrap_err(), UNAVAILABLE);
    assert_eq!(install_kde("/bin/hc", Platform::Other).unwrap_err(), UNAVAILABLE);
    assert_eq!(uninstall_kde(Platform::Other, true).unwrap_err(), UNAVAILABLE);
    assert_eq!(install_thunar("/bin/hc", Platform::Windows, None).unwrap_err(), UNAVAILABLE);
    assert_eq!(uninstall_thunar(Platform::Windows, None).unwrap_err(), UNAVAILABLE);
}

#[test]
fn windows_registry_values() {
    let p = install_windows("C:\\hc.exe", Platform::Windows).ok().unwrap();
    assert_eq!(p.key, "Software\\Classes\\*\\shell\\Hash Checker");
    assert_eq!(p.label, "Vérifier l'intégrité (Hash Checker)");
    assert_eq!(p.icon, "C:\\hc.exe,0");
    assert_eq!(p.multi_select_model, "Player");
    assert_eq!(p.command, "\"C:\\hc.exe\" \"%1\"");
    assert_eq!(uninstall_windows(Platform::Windows).unwrap(), "Software\\Classes\\*\\shell\\Hash Checker");
}

#[test]
fn nautilus_and_kde_files() {
    assert_eq!(
        install_nautilus("/bin/hc", Platform::Unix).unwrap(),
        "#!/bin/bash\nfor f in \"$@\"; do\n  \"/bin/hc\" \"$f\" &\ndone\n"
    );
    let kde = install_kde("/bin/hc", Platform::Unix).unwrap();
    assert!(kde.starts_with("[Desktop Entry]\nType=Service\n"));
    assert!(kde.ends_with("Exec=\"/bin/hc\" %F\n"));
    assert_eq!(uninstall_nautilus(Platform::Unix, false), Ok(false));
    assert_eq!(uninstall_kde(Platform::Unix, true), Ok(true));
}

#[test]
fn thunar_install_and_remove() {
    let fresh = install_thunar("/bin/hc", Platform::Unix, None).unwrap().unwrap();
    assert!(fresh.starts_with("<?xml version=\"1.0\" encoding=\"UTF-8\"?>\n<actions>\n<action>\n"));
    assert!(fresh.ends_with("</action>\n</actions>\n"));
    assert!(detect_thunar(Some(&fresh)));
    assert_eq!(install_thunar("/bin/hc", Platform::Unix, Some(&fresh)).unwrap(), None);
    let removed = uninstall_thunar(Platform::Unix, Some(&fresh)).unwrap().unwrap();
    assert_eq!(removed, "<?xml version=\"1.0\" encoding=\"UTF-8\"?>\n<actions>\n</actions>\n");
    assert!(!detect_thunar(Some(&removed)));
    assert_eq!(uninstall_thunar(Platform::Unix, None).unwrap(), None);
}

#[test]
fn thunar_install_into_existing_file() {
    let existing = "<?xml version=\"1.0\"?>\n<actions>\n<action>\n<name>Other</name>\n</action>\n</actions>\n";
    let updated = install_thunar("/bin/hc", Platform::Unix, Some(existing)).unwrap().unwrap();
    assert!(updated.starts_with("<?xml version=\"1.0\"?>\n<actions>\n<action>\n<name>Other</name>\n</action>\n<action>\n"));
    assert!(updated.ends_with("</action>\n</actions>\n"));
    assert!(detect_thunar(Some(&updated)));
}

#[test]
fn remove_xml_action_keeps_other_text() {
    let xml = "<a>\n<action>\nHash Checker\n</action>\n<b>\n";
    assert_eq!(remove_xml_action(xml, "Hash Checker"), "<a>\n<b>\n");
    let xml = "<a>\n<action>\nother\n</action>\n";
    assert_eq!(remove_xml_action(xml, "Hash Checker"), "<a>\n<action>\nother\n</action>\n");
}

#[test]
fn thunar_entry_detected_after_any_install() {
    for exe in ["/bin/hc", "", "C:\\Program Files\\hc.exe"] {
        let fresh = install_thunar(exe, Platform::Unix, None).unwrap().unwrap();
        assert!(detect_thunar(Some(&fresh)));
        let existing = "<actions>\n</actions>";
        let updated = install_thunar(exe, Platform::Unix, Some(existing)).unwrap().unwrap();
        assert!(detect_thunar(Some(&updated)));
    }
}

#[test]
fn uninstall_removes_a_fresh_thunar_entry() {
    for exe in ["/bin/hc", "", "/opt/Hash Checker/hc", "C:\\hc.exe"] {
        let fresh = install_thunar(exe, Platform::Unix, None).unwrap().unwrap();
        let removed = uninstall_thunar(Platform::Unix, Some(&fresh)).unwrap().unwrap();
        assert_eq!(removed, "<?xml version=\"1.0\" encoding=\"UTF-8\"?>\n<actions>\n</actions>\n");
        assert!(!detect_thunar(Some(&removed)));
    }
}

#[test]
fn thunar_install_into_a_file_without_an_actions_list() {
    let fresh = install_thunar("/bin/hc", Platform::Unix, None).unwrap().unwrap();
    let from_empty = install_thunar("/bin/hc", Platform::Unix, Some("")).unwrap().unwrap();
    assert_eq!(from_empty, fresh);
    let odd = install_thunar("/bin/hc", Platform::Unix, Some("<x/>\n")).unwrap().unwrap();
    assert_eq!(odd, format!("<x/>\n{}", fresh));
    assert!(detect_thunar(Some(&odd)));
}

#[test]
fn thunar_uninstall_keeps_other_actions() {
    let xml = "<actions>\n<action>\n<name>Other</name>\n</action>\n<action>\n<name>Hash Checker</name>\n</action>\n</actions>\n";
    let removed = uninstall_thunar(Platform::Unix, Some(xml)).unwrap().unwrap();
    assert_eq!(removed, "<actions>\n<action>\n<name>Other</name>\n</action>\n</actions>\n");
    let installed = install_thunar(
        "/bin/hc",
        Platform::Unix,
        Some("<actions>\n<action>\n<name>Other</name>\n</action>\n</actions>\n"),
    )
    .unwrap()
    .unwrap();
    assert_eq!(
        uninstall_thunar(Platform::Unix, Some(&installed)).unwrap().unwrap(),
        "<actions>\n<action>\n<name>Other</name>\n</action>\n</actions>\n"
    );
}
