use hash_checker::language::{
    choose_language, display_name_from_stem, find_by_locale, find_by_stem, find_default,
    lang_stem, language_display_code, language_from_content, local_languages,
    pack_from_file_name, pack_from_path, remote_language_files, system_locale_candidates,
    LanguageManager, LanguagePack, LocalLang, pack_label, text_for_key, fill_placeholders,
};

fn s(x: &str) -> String {
    x.to_string()
}

fn info(stem: &str, name: &str) -> Option<(String, String, String)> {
    Some((s(stem), s(name), s("default")))
}

fn manager() -> LanguageManager {
    LanguageManager::initialize(s("/w"), s("/w/lang"), true, &[], None, &[])
}

#[test]
fn stems_of_language_files() {
    assert_eq!(lang_stem("FR_fr.toml"), Some(s("FR_fr")));
    assert_eq!(lang_stem("EN_en.default.toml"), Some(s("EN_en")));
    assert_eq!(lang_stem("EN_en.default.default.toml"), Some(s("EN_en")));
    assert_eq!(lang_stem("FR_fr.txt"), None);
}

#[test]
fn display_names_of_stems() {
    assert_eq!(display_name_from_stem("FR_fr"), "Français (FR)");
    assert_eq!(display_name_from_stem("CH_it"), "Italiano (CH)");
    assert_eq!(display_name_from_stem("ES_es"), "ES_es");
}

#[test]
fn display_codes() {
    assert_eq!(language_display_code("FR_fr"), "fr");
    assert_eq!(language_display_code("CH_fr"), "fr_CH");
    assert_eq!(language_display_code("EN_en"), "en");
    assert_eq!(language_display_code("xx"), "xx");
    assert_eq!(language_display_code("a_b_c"), "a_b_c");
}

#[test]
fn packs_from_names() {
    let p = pack_from_file_name("EN_en.default.toml", false, true);
    assert_eq!(p.stem, "EN_en");
    assert_eq!(p.display_name, "English (EN)");
    assert!(p.is_default && p.is_remote && !p.is_local);
    let p = pack_from_path("DE_de.toml", Some(s("Deutsch")), true, false).unwrap();
    assert_eq!(p.display_name, "Deutsch");
    assert!(!p.is_default);
    assert!(pack_from_path("DE_de.txt", None, true, false).is_none());
}

#[test]
fn remote_files_sorted_without_duplicates() {
    let mut m = manager();
    m.set_remote_files(vec![s("FR_fr.toml"), s("DE_de.toml"), s("FR_fr.toml"), s("CH_fr.toml")]);
    assert_eq!(m.remote_files, vec![s("CH_fr.toml"), s("DE_de.toml"), s("FR_fr.toml")]);
}

#[test]
fn repository_listing() {
    let json = r#"[{"name":"FR_fr.toml","type":"file"},{"name":"README.md","type":"file"},{"name":"x.toml","type":"dir"}]"#;
    assert_eq!(remote_language_files(json), Ok(vec![s("FR_fr.toml")]));
    assert_eq!(
        remote_language_files("{}"),
        Err(s("Index GitHub invalide : dossier lang introuvable."))
    );
    assert_eq!(
        remote_language_files("[]"),
        Err(s("Aucune langue TOML trouvée sur le repo GitHub."))
    );
    assert!(remote_language_files("not json").unwrap_err().starts_with("Index GitHub invalide : "));
}

#[test]
fn reading_language_files() {
    let content = "language_name = \"Français (FR)\"\ndefault_badge = \"défaut\"\n";
    assert_eq!(
        language_from_content("FR_fr.toml", content),
        Some((s("FR_fr"), s("Français (FR)"), s("défaut")))
    );
    assert_eq!(
        language_from_content("IT_it.toml", "other = 1\n"),
        Some((s("IT_it"), s("Italiano (IT)"), s("default")))
    );
    assert_eq!(language_from_content("IT_it.toml", "= broken"), None);
    assert_eq!(language_from_content("IT_it.txt", "a = \"b\""), None);
}

fn langs() -> Vec<LocalLang> {
    local_languages(&vec![
        LocalLang { file_name: s("IT_it.toml"), info: info("IT_it", "Italiano") },
        LocalLang { file_name: s("EN_en.default.toml"), info: info("EN_en", "English") },
        LocalLang { file_name: s("notes.txt"), info: None },
        LocalLang { file_name: s("CH_fr.toml"), info: info("CH_fr", "Français (CH)") },
        LocalLang { file_name: s("FR_fr.toml"), info: info("FR_fr", "Français") },
    ])
}

#[test]
fn local_languages_sorted_toml_only() {
    let names: Vec<String> = langs().into_iter().map(|l| l.file_name).collect();
    assert_eq!(names, vec![s("CH_fr.toml"), s("EN_en.default.toml"), s("FR_fr.toml"), s("IT_it.toml")]);
}

#[test]
fn finding_languages() {
    let l = langs();
    assert_eq!(find_by_stem(&l, "FR_fr").unwrap().1, "Français");
    assert_eq!(find_by_stem(&l, "EN_en.default").unwrap().0, "EN_en");
    assert!(find_by_stem(&l, "DE_de").is_none());
    assert_eq!(find_by_locale(&l, "fr_FR").unwrap().0, "FR_fr");
    assert_eq!(find_by_locale(&l, "fr_BE").unwrap().0, "CH_fr");
    assert_eq!(find_by_locale(&l, "it").unwrap().0, "IT_it");
    assert!(find_by_locale(&l, "de_DE").is_none());
    assert_eq!(find_default(&l).unwrap().0, "EN_en");
}

#[test]
fn choosing_the_start_language() {
    let l = langs();
    assert_eq!(choose_language(&l, Some(" IT_it\n"), &[s("fr_FR")]).unwrap().0, "IT_it");
    assert_eq!(choose_language(&l, Some("DE_de"), &[s("de_DE"), s("fr_FR")]).unwrap().0, "FR_fr");
    assert_eq!(choose_language(&l, None, &[]).unwrap().0, "EN_en");
    assert!(choose_language(&[], None, &[s("fr_FR")]).is_none());
}

#[test]
fn locale_candidates_from_variables() {
    assert_eq!(
        system_locale_candidates(&[s("fr_CH.UTF-8"), s("de-DE:C:en_US"), s("C")]),
        vec![s("fr_CH"), s("de_DE"), s("en_US")]
    );
    assert_eq!(system_locale_candidates(&[s("")]), Vec::<String>::new());
}

#[test]
fn initialize_without_languages_falls_back_to_english() {
    let m = LanguageManager::initialize(s("/w"), s("/w/lang"), true, &[], None, &[]);
    assert_eq!(m.active_stem, "EN_en");
    assert_eq!(m.active_name, "English (EN)");
    assert!(m.network_error);
    let m = LanguageManager::initialize(s("/w"), s("/w/lang"), true, &langs(), None, &[s("it_IT.UTF-8")]);
    assert_eq!(m.active_stem, "IT_it");
    assert!(!m.network_error);
}

#[test]
fn selecting_a_language() {
    let mut m = manager();
    assert!(m.select_language(false, None, Ok(())).unwrap_err().contains("accès internet"));
    assert_eq!(m.select_language(true, None, Ok(())), Err(s("Fichier de langue invalide.")));
    assert_eq!(m.select_language(true, info("FR_fr", "Français"), Err(s("disk full"))), Err(s("disk full")));
    assert_eq!(m.active_stem, "EN_en");
    assert_eq!(m.select_language(true, info("FR_fr", "Français"), Ok(())), Ok(()));
    assert_eq!(m.active_stem, "FR_fr");
}

fn local_pack(file: &str) -> LanguagePack {
    pack_from_path(file, None, true, false).unwrap()
}

#[test]
fn available_languages_merge_and_order() {
    let mut m = manager();
    m.set_remote_files(vec![s("FR_fr.toml"), s("DE_de.toml")]);
    let packs = m.available_languages(vec![local_pack("EN_en.default.toml"), local_pack("FR_fr.toml")]);
    let names: Vec<&str> = packs.iter().map(|p| p.file_name.as_str()).collect();
    assert_eq!(names, vec!["DE_de.toml", "FR_fr.toml", "EN_en.default.toml"]);
    assert!(packs[0].is_remote && !packs[0].is_local);
    assert!(packs[1].is_remote && packs[1].is_local);
    assert!(!packs[2].is_remote && packs[2].is_default);
}

#[test]
fn pack_labels() {
    let mut p = pack_from_file_name("EN_en.default.toml", true, false);
    assert_eq!(pack_label(&p, "default"), "English (EN) [default] [local]");
    p.is_remote = true;
    assert_eq!(pack_label(&p, "défaut"), "English (EN) [défaut] [local] [git]");
    let q = pack_from_file_name("ES_es.toml", false, true);
    assert_eq!(pack_label(&q, "default"), "ES_es [git]");
}

#[test]
fn interface_texts_and_placeholders() {
    let content = "language_name = \"Français (FR)\"\nrepo_available = \"{count} langues disponibles\"\nn = 3\n";
    assert_eq!(text_for_key(content, "repo_available"), Some(s("{count} langues disponibles")));
    assert_eq!(text_for_key(content, "n"), None);
    assert_eq!(text_for_key(content, "missing"), None);
    assert_eq!(text_for_key("not = [toml", "x"), None);
    let pairs = vec![(s("count"), s("4")), (s("error"), s("{count}"))];
    assert_eq!(fill_placeholders("{count} ok, {count}; {error}", &pairs), "4 ok, 4; {count}");
    assert_eq!(fill_placeholders("none", &[]), "none");
}

#[test]
fn repository_listing_is_taken_in() {
    let mut m = manager();
    m.network_error = true;
    assert_eq!(m.apply_repo_listing(Ok(vec![s("FR_fr.toml"), s("DE_de.toml"), s("FR_fr.toml")])), Ok(3));
    assert!(!m.network_error);
    assert_eq!(m.remote_files, vec![s("DE_de.toml"), s("FR_fr.toml")]);
    m.network_error = true;
    assert_eq!(m.apply_repo_listing(Err(s("offline"))), Err(s("offline")));
    assert!(m.network_error);
    assert_eq!(m.remote_files.len(), 2);
}
