//! Language packs: TOML files named like `FR_fr.toml` (country, then language;
//! `EN_en.default.toml` is the default) in a local folder, plus those listed in
//! the project repository.

use vstd::prelude::*;
use crate::checksum::strings_view;
use crate::text::{
    chars_of, copy_range, ends_with, find_char_from, find_from, join2, join3, lemma_find_from,
    lemma_seq_lt_asymmetric, lemma_seq_lt_total, lemma_seq_lt_transitive, seq_eq, seq_lt,
    spec_trim, str_eq, str_lt, string_of, strictly_sorted, to_lowercase, to_uppercase, trim,
    unicode_lower, unicode_upper, replace_all, spec_replace,
};

verus! {

/// A language offered in the language window.
pub struct LanguagePack {
    /// File name without `.toml` and `.default`, such as `FR_fr`.
    pub stem: String,
    pub file_name: String,
    pub display_name: String,
    /// The file is the default language (`*.default.toml`).
    pub is_default: bool,
    /// The file is in the local folder.
    pub is_local: bool,
    /// The file is listed in the repository.
    pub is_remote: bool,
}

/// What a language pack holds, as plain values.
pub struct PackView {
    pub stem: Seq<char>,
    pub file_name: Seq<char>,
    pub display_name: Seq<char>,
    pub is_default: bool,
    pub is_local: bool,
    pub is_remote: bool,
}

impl View for LanguagePack {
    type V = PackView;

    open spec fn view(&self) -> PackView {
        PackView {
            stem: self.stem@,
            file_name: self.file_name@,
            display_name: self.display_name@,
            is_default: self.is_default,
            is_local: self.is_local,
            is_remote: self.is_remote,
        }
    }
}

/// The language settings: folders, active language, repository listing.
pub struct LanguageManager {
    pub work_dir: String,
    pub lang_dir: String,
    pub active_stem: String,
    pub active_name: String,
    pub default_badge: String,
    /// The language resources could not be fetched.
    pub network_error: bool,
    /// Language files listed in the repository, sorted, without duplicates.
    pub remote_files: Vec<String>,
}

/// `s` without its trailing `.default` suffixes.
pub open spec fn trim_default(s: Seq<char>) -> Seq<char>
    decreases s.len(),
{
    if ".default"@.is_suffix_of(s) && s.len() >= 8 {
        trim_default(s.subrange(0, s.len() - 8))
    } else {
        s
    }
}

/// The stem of a language file name: without `.toml` (required) and without
/// trailing `.default`.
pub open spec fn spec_lang_stem(f: Seq<char>) -> Option<Seq<char>> {
    if ".toml"@.is_suffix_of(f) {
        Some(trim_default(f.subrange(0, f.len() - 5)))
    } else {
        None
    }
}

fn trim_default_suffix(v: &[char]) -> (r: Vec<char>)
    ensures
        r@ == trim_default(v@),
{
    let suffix = chars_of(".default");
    proof {
        reveal_strlit(".default");
    }
    let mut end = v.len();
    assert(v@.subrange(0, end as int) =~= v@);
    loop
        invariant
            end <= v.len(),
            suffix@ == ".default"@,
            trim_default(v@) == trim_default(v@.subrange(0, end as int)),
        decreases end,
    {
        let cur = copy_range(v, 0, end);
        if end >= 8 && ends_with(&cur, &suffix) {
            assert(cur@.subrange(0, cur@.len() - 8) =~= v@.subrange(0, end - 8));
            end = end - 8;
        } else {
            return cur;
        }
    }
}

/// The stem of a language file name (`FR_fr.toml` gives `FR_fr`,
/// `EN_en.default.toml` gives `EN_en`); none for a name not ending in `.toml`.
pub fn lang_stem(file_name: &str) -> (r: Option<String>)
    ensures
        match r {
            Some(s) => spec_lang_stem(file_name@) == Some(s@),
            None => spec_lang_stem(file_name@) is None,
        },
{
    let f = chars_of(file_name);
    let toml = chars_of(".toml");
    proof {
        reveal_strlit(".toml");
    }
    if !ends_with(&f, &toml) {
        return None;
    }
    let base = copy_range(&f, 0, f.len() - 5);
    Some(string_of(&trim_default_suffix(&base)))
}

/// Display name of a known stem; other stems are shown as they are.
pub open spec fn spec_display_name(stem: Seq<char>) -> Seq<char> {
    if stem == "EN_en"@ {
        "English (EN)"@
    } else if stem == "FR_fr"@ {
        "Français (FR)"@
    } else if stem == "CH_fr"@ {
        "Français (CH)"@
    } else if stem == "DE_de"@ {
        "Deutsch (DE)"@
    } else if stem == "CH_de"@ {
        "Deutsch (CH)"@
    } else if stem == "IT_it"@ {
        "Italiano (IT)"@
    } else if stem == "CH_it"@ {
        "Italiano (CH)"@
    } else {
        stem
    }
}

/// The display name of a language stem, such as `Français (FR)` for `FR_fr`.
pub fn display_name_from_stem(stem: &str) -> (r: String)
    ensures
        r@ == spec_display_name(stem@),
{
    if str_eq(stem, "EN_en") {
        String::from_str("English (EN)")
    } else if str_eq(stem, "FR_fr") {
        String::from_str("Français (FR)")
    } else if str_eq(stem, "CH_fr") {
        String::from_str("Français (CH)")
    } else if str_eq(stem, "DE_de") {
        String::from_str("Deutsch (DE)")
    } else if str_eq(stem, "CH_de") {
        String::from_str("Deutsch (CH)")
    } else if str_eq(stem, "IT_it") {
        String::from_str("Italiano (IT)")
    } else if str_eq(stem, "CH_it") {
        String::from_str("Italiano (CH)")
    } else {
        String::from_str(stem)
    }
}

/// Stem of a listed file name: without `.toml` when present, without trailing
/// `.default`.
pub open spec fn listed_stem(f: Seq<char>) -> Seq<char> {
    if ".toml"@.is_suffix_of(f) {
        trim_default(f.subrange(0, f.len() - 5))
    } else {
        trim_default(f)
    }
}

/// The pack of a file known only by name.
pub open spec fn spec_pack_from_file_name(f: Seq<char>, is_local: bool, is_remote: bool) -> PackView {
    PackView {
        stem: listed_stem(f),
        file_name: f,
        display_name: spec_display_name(listed_stem(f)),
        is_default: ".default.toml"@.is_suffix_of(f),
        is_local,
        is_remote,
    }
}

/// A pack for a file known only by its name (as listed in the repository).
pub fn pack_from_file_name(file_name: &str, is_local: bool, is_remote: bool) -> (r: LanguagePack)
    ensures
        r@ == spec_pack_from_file_name(file_name@, is_local, is_remote),
{
    let f = chars_of(file_name);
    let toml = chars_of(".toml");
    proof {
        reveal_strlit(".toml");
    }
    let base = if ends_with(&f, &toml) {
        copy_range(&f, 0, f.len() - 5)
    } else {
        f.clone()
    };
    let stem = string_of(&trim_default_suffix(&base));
    let display_name = display_name_from_stem(stem.as_str());
    let is_default = ends_with(&f, &chars_of(".default.toml"));
    LanguagePack {
        stem,
        file_name: String::from_str(file_name),
        display_name,
        is_default,
        is_local,
        is_remote,
    }
}

/// The pack of a local file whose language file gives `name` (if it gives
/// one); none for a name not ending in `.toml`.
pub open spec fn spec_pack_from_path(
    f: Seq<char>,
    name: Option<Seq<char>>,
    is_local: bool,
    is_remote: bool,
) -> Option<PackView> {
    match spec_lang_stem(f) {
        Some(stem) => Some(
            PackView {
                stem,
                file_name: f,
                display_name: match name {
                    Some(n) => n,
                    None => spec_display_name(stem),
                },
                is_default: ".default.toml"@.is_suffix_of(f),
                is_local,
                is_remote,
            },
        ),
        None => None,
    }
}

/// A pack for a local language file named `file_name`; `language_name` is the
/// name its contents give, if they give one (else the stem's display name is
/// used). None for a name not ending in `.toml`.
pub fn pack_from_path(file_name: &str, language_name: Option<String>, is_local: bool, is_remote: bool) -> (r:
    Option<LanguagePack>)
    ensures
        match r {
            Some(p) => spec_pack_from_path(
                file_name@,
                match language_name {
                    Some(n) => Some(n@),
                    None => None,
                },
                is_local,
                is_remote,
            ) == Some(p@),
            None => spec_pack_from_path(
                file_name@,
                match language_name {
                    Some(n) => Some(n@),
                    None => None,
                },
                is_local,
                is_remote,
            ) is None,
        },
{
    let stem = match lang_stem(file_name) {
        Some(s) => s,
        None => {
            return None;
        },
    };
    let display_name = match language_name {
        Some(n) => n,
        None => display_name_from_stem(stem.as_str()),
    };
    let is_default = ends_with(&chars_of(file_name), &chars_of(".default.toml"));
    Some(
        LanguagePack {
            stem,
            file_name: String::from_str(file_name),
            display_name,
            is_default,
            is_local,
            is_remote,
        },
    )
}

/// The short code shown for a stem `COUNTRY_lang`: the language alone for the
/// default country of English, French, German and Italian, else `lang_COUNTRY`;
/// other stems are shown as they are.
pub open spec fn spec_display_code(stem: Seq<char>) -> Seq<char> {
    let k = find_from(stem, '_', 0);
    if k < stem.len() && find_from(stem, '_', k + 1) == stem.len() {
        let country = stem.subrange(0, k);
        let lang = stem.subrange(k + 1, stem.len() as int);
        if country == "EN"@ || country == "FR"@ || country == "DE"@ || country == "IT"@ {
            lang
        } else {
            lang + "_"@ + country
        }
    } else {
        stem
    }
}

/// The short code of a language stem (`FR_fr` gives `fr`, `CH_fr` gives
/// `fr_CH`).
pub fn language_display_code(stem: &str) -> (r: String)
    ensures
        r@ == spec_display_code(stem@),
{
    let s = chars_of(stem);
    proof {
        lemma_find_from(s@, '_', 0);
    }
    let k = find_char_from(&s, '_', 0);
    if k < s.len() {
        proof {
            lemma_find_from(s@, '_', k + 1);
        }
        if find_char_from(&s, '_', k + 1) == s.len() {
            let country = string_of(&copy_range(&s, 0, k));
            let lang = string_of(&copy_range(&s, k + 1, s.len()));
            if str_eq(country.as_str(), "EN") || str_eq(country.as_str(), "FR") || str_eq(
                country.as_str(),
                "DE",
            ) || str_eq(country.as_str(), "IT") {
                return lang;
            }
            return join3(lang.as_str(), "_", country.as_str());
        }
    }
    String::from_str(stem)
}

} // verus!

verus! {

/// The text shown for a pack in the language window (see `pack_label`).
pub open spec fn spec_pack_label(p: PackView, badge: Seq<char>) -> Seq<char> {
    let named = if p.is_default {
        p.display_name + " ["@ + badge + "]"@
    } else {
        p.display_name
    };
    let placed = named + (if p.is_local {
        " [local]"@
    } else {
        " [repo]"@
    });
    if p.is_remote && p.is_local {
        placed + " [git]"@
    } else if p.is_remote {
        spec_replace(placed, "[repo]"@, "[git]"@)
    } else {
        placed
    }
}

/// The text shown for a pack in the language window: its name, the default
/// badge in brackets for the default language, then `[local]` or `[repo]`;
/// a local pack that the repository lists gets `[git]` too, and for a pack
/// only in the repository every `[repo]` becomes `[git]`.
pub fn pack_label(pack: &LanguagePack, badge: &str) -> (r: String)
    ensures
        r@ == spec_pack_label(pack@, badge@),
{
    let name = pack.display_name.as_str();
    let named = if pack.is_default {
        let opened = join3(name, " [", badge);
        join2(opened.as_str(), "]")
    } else {
        string_of(&chars_of(name))
    };
    let placed = if pack.is_local {
        join2(named.as_str(), " [local]")
    } else {
        join2(named.as_str(), " [repo]")
    };
    if pack.is_remote && pack.is_local {
        join2(placed.as_str(), " [git]")
    } else if pack.is_remote {
        proof {
            reveal_strlit("[repo]");
        }
        string_of(&replace_all(&chars_of(placed.as_str()), &chars_of("[repo]"), &chars_of("[git]")))
    } else {
        placed
    }
}

} // verus!

verus! {

proof fn lemma_push_to_set(s: Seq<Seq<char>>, e: Seq<char>)
    ensures
        s.push(e).to_set() == s.to_set().insert(e),
{
    let n = s.push(e);
    assert forall|y: Seq<char>| n.to_set().contains(y) implies s.to_set().insert(e).contains(y) by {
        let k = choose|k: int| 0 <= k < n.len() && n[k] == y;
        if k < s.len() {
            assert(s[k] == y);
        }
    }
    assert forall|y: Seq<char>| s.to_set().insert(e).contains(y) implies n.to_set().contains(y) by {
        if y == e {
            assert(n[s.len() as int] == y);
        } else {
            let k = choose|k: int| 0 <= k < s.len() && s[k] == y;
            assert(n[k] == y);
        }
    }
    assert(n.to_set() =~= s.to_set().insert(e));
}

fn insert_sorted_unique(out: &mut Vec<String>, x: String)
    requires
        strictly_sorted(strings_view(old(out)@)),
    ensures
        strictly_sorted(strings_view(final(out)@)),
        strings_view(final(out)@).to_set() == strings_view(old(out)@).to_set().insert(x@),
{
    let ghost o = strings_view(out@);
    let mut j: usize = 0;
    while j < out.len() && str_lt(out[j].as_str(), x.as_str())
        invariant
            j <= out@.len(),
            o == strings_view(out@),
            forall|i: int| 0 <= i < j ==> seq_lt(#[trigger] o[i], x@),
        decreases out.len() - j,
    {
        j += 1;
    }
    if j < out.len() && str_eq(out[j].as_str(), x.as_str()) {
        assert(o.to_set() =~= o.to_set().insert(x@)) by {
            assert(o[j as int] == x@);
        }
        return ;
    }
    proof {
        if j < o.len() {
            lemma_seq_lt_total(o[j as int], x@);
            assert(seq_lt(x@, o[j as int]));
        }
    }
    let ghost xv = x@;
    out.insert(j, x);
    let ghost n = strings_view(out@);
    assert(n =~= o.insert(j as int, xv));
    assert forall|a: int, b: int| 0 <= a < b < n.len() implies seq_lt(#[trigger] n[a], #[trigger] n[b]) by {
        if b < j {
        } else if a < j && b == j {
        } else if a < j {
            if b - 1 > j {
                lemma_seq_lt_transitive(xv, o[j as int], o[b - 1]);
            }
            lemma_seq_lt_transitive(o[a], xv, o[b - 1]);
        } else if a == j {
            if b - 1 > j {
                lemma_seq_lt_transitive(xv, o[j as int], o[b - 1]);
            }
        } else {
        }
    }
    assert(n.to_set() =~= o.to_set().insert(xv)) by {
        assert forall|y: Seq<char>| n.to_set().contains(y) implies o.to_set().insert(xv).contains(y) by {
            let k = choose|k: int| 0 <= k < n.len() && n[k] == y;
            if k < j {
                assert(o[k] == y);
            } else if k > j {
                assert(o[k - 1] == y);
            }
        }
        assert forall|y: Seq<char>| o.to_set().insert(xv).contains(y) implies n.to_set().contains(y) by {
            if y == xv {
                assert(n[j as int] == y);
            } else {
                let k = choose|k: int| 0 <= k < o.len() && o[k] == y;
                if k < j {
                    assert(n[k] == y);
                } else {
                    assert(n[k + 1] == y);
                }
            }
        }
    }
}

impl LanguageManager {
    /// Records the language files listed in the repository, sorted and without
    /// duplicates.
    pub fn set_remote_files(&mut self, remote_files: Vec<String>)
        ensures
            strictly_sorted(strings_view(final(self).remote_files@)),
            strings_view(final(self).remote_files@).to_set() == strings_view(remote_files@).to_set(),
            final(self).work_dir == old(self).work_dir,
            final(self).lang_dir == old(self).lang_dir,
            final(self).active_stem == old(self).active_stem,
            final(self).active_name == old(self).active_name,
            final(self).default_badge == old(self).default_badge,
            final(self).network_error == old(self).network_error,
    {
        let mut out: Vec<String> = Vec::new();
        let mut i: usize = 0;
        while i < remote_files.len()
            invariant
                i <= remote_files@.len(),
                strictly_sorted(strings_view(out@)),
                strings_view(out@).to_set() == strings_view(remote_files@.take(i as int)).to_set(),
            decreases remote_files.len() - i,
        {
            insert_sorted_unique(&mut out, remote_files[i].clone());
            assert(strings_view(remote_files@.take(i + 1)) =~= strings_view(remote_files@.take(i as int)).push(remote_files@[i as int]@));
            proof {
                lemma_push_to_set(strings_view(remote_files@.take(i as int)), remote_files@[i as int]@);
            }
            i += 1;
        }
        assert(remote_files@.take(remote_files@.len() as int) =~= remote_files@);
        self.remote_files = out;
    }

    /// Takes in the repository listing once fetched. On success the listed
    /// files are recorded (sorted, without duplicates) and the network error
    /// is cleared, and the number of files listed is returned; on failure
    /// nothing changes and the error is returned.
    pub fn apply_repo_listing(&mut self, listing: Result<Vec<String>, String>) -> (r: Result<usize, String>)
        ensures
            match listing {
                Ok(files) => {
                    &&& r == Ok::<usize, String>(files@.len() as usize)
                    &&& strictly_sorted(strings_view(final(self).remote_files@))
                    &&& strings_view(final(self).remote_files@).to_set() == strings_view(files@).to_set()
                    &&& !final(self).network_error
                    &&& final(self).work_dir == old(self).work_dir
                    &&& final(self).lang_dir == old(self).lang_dir
                    &&& final(self).active_stem == old(self).active_stem
                    &&& final(self).active_name == old(self).active_name
                    &&& final(self).default_badge == old(self).default_badge
                },
                Err(e) => r == Err::<usize, String>(e) && *final(self) == *old(self),
            },
    {
        match listing {
            Ok(files) => {
                let count = files.len();
                self.set_remote_files(files);
                self.network_error = false;
                Ok(count)
            },
            Err(e) => Err(e),
        }
    }
}

} // verus!

verus! {

/// A text option as plain values.
pub open spec fn opt_view(o: Option<String>) -> Option<Seq<char>> {
    match o {
        Some(s) => Some(s@),
        None => None,
    }
}

// ---------------------------------------------------------------------------
// The repository listing (JSON, read with serde_json).
// ---------------------------------------------------------------------------

/// What `serde_json` reads from a directory listing: for a JSON array, the
/// `name` and `type` string fields of each element (`None` where absent or
/// not a string); `None` for another JSON value; the parser's error message
/// for text that is not JSON.
pub uninterp spec fn json_listing(text: Seq<char>) -> Result<
    Option<Seq<(Option<Seq<char>>, Option<Seq<char>>)>>,
    Seq<char>,
>;

/// The items of a listing as plain values.
pub open spec fn listing_view(v: Seq<(Option<String>, Option<String>)>) -> Seq<
    (Option<Seq<char>>, Option<Seq<char>>),
> {
    v.map_values(|p: (Option<String>, Option<String>)| (opt_view(p.0), opt_view(p.1)))
}

/// `serde_json::from_str::<serde_json::Value>`: parses the listing; the
/// `name` and `type` fields of each element of a JSON array are handed out as
/// strings, a parse error as its message.
#[verifier::external_body]
fn read_listing(text: &str) -> (r: Result<Option<Vec<(Option<String>, Option<String>)>>, String>)
    ensures
        match r {
            Ok(Some(v)) => json_listing(text@) == Ok::<_, Seq<char>>(Some(listing_view(v@))),
            Ok(None) => json_listing(text@) == Ok::<
                Option<Seq<(Option<Seq<char>>, Option<Seq<char>>)>>,
                Seq<char>,
            >(None),
            Err(e) => json_listing(text@) == Err::<
                Option<Seq<(Option<Seq<char>>, Option<Seq<char>>)>>,
                Seq<char>,
            >(e@),
        },
{
    match serde_json::from_str::<serde_json::Value>(text) {
        Err(e) => Err(e.to_string()),
        Ok(v) => Ok(v.as_array().map(|items| items.iter().map(|it| (
            it.get("name").and_then(|x| x.as_str()).map(|x| x.to_string()),
            it.get("type").and_then(|x| x.as_str()).map(|x| x.to_string()),
        )).collect())),
    }
}

/// The names of the `.toml` files of a listing (items of type `file`).
pub open spec fn listed_toml(items: Seq<(Option<Seq<char>>, Option<Seq<char>>)>) -> Seq<Seq<char>>
    decreases items.len(),
{
    if items.len() == 0 {
        Seq::empty()
    } else {
        let prev = listed_toml(items.drop_last());
        let name = match items.last().0 {
            Some(n) => n,
            None => Seq::empty(),
        };
        let kind = match items.last().1 {
            Some(k) => k,
            None => Seq::empty(),
        };
        if kind == "file"@ && ".toml"@.is_suffix_of(name) {
            prev.push(name)
        } else {
            prev
        }
    }
}

/// The language files a repository listing offers, or why there are none.
pub open spec fn spec_remote_files(text: Seq<char>) -> Result<Seq<Seq<char>>, Seq<char>> {
    match json_listing(text) {
        Err(e) => Err("Index GitHub invalide : "@ + e),
        Ok(None) => Err("Index GitHub invalide : dossier lang introuvable."@),
        Ok(Some(items)) => if listed_toml(items).len() == 0 {
            Err("Aucune langue TOML trouvée sur le repo GitHub."@)
        } else {
            Ok(listed_toml(items))
        },
    }
}

fn opt_or_empty(o: &Option<String>) -> (r: String)
    ensures
        r@ == match opt_view(*o) {
            Some(s) => s,
            None => Seq::empty(),
        },
{
    match o {
        Some(s) => s.clone(),
        None => String::new(),
    }
}

/// The language files offered by the repository, read from its JSON directory
/// listing: every element of type `file` whose name ends in `.toml`, in
/// listing order. Fails on text that is not JSON, on a listing that is not an
/// array, and when no language file is listed.
pub fn remote_language_files(index_json: &str) -> (r: Result<Vec<String>, String>)
    ensures
        match r {
            Ok(v) => spec_remote_files(index_json@) == Ok::<_, Seq<char>>(strings_view(v@)),
            Err(e) => spec_remote_files(index_json@) == Err::<Seq<Seq<char>>, _>(e@),
        },
{
    let items = match read_listing(index_json) {
        Err(e) => {
            return Err(join2("Index GitHub invalide : ", e.as_str()));
        },
        Ok(None) => {
            return Err(String::from_str("Index GitHub invalide : dossier lang introuvable."));
        },
        Ok(Some(items)) => items,
    };
    let ghost iv = listing_view(items@);
    let mut files: Vec<String> = Vec::new();
    let mut i: usize = 0;
    while i < items.len()
        invariant
            i <= items@.len(),
            iv == listing_view(items@),
            strings_view(files@) == listed_toml(iv.take(i as int)),
        decreases items.len() - i,
    {
        let name = opt_or_empty(&items[i].0);
        let kind = opt_or_empty(&items[i].1);
        assert(iv.take(i + 1).drop_last() =~= iv.take(i as int));
        if str_eq(kind.as_str(), "file") && ends_with(&chars_of(name.as_str()), &chars_of(".toml")) {
            let ghost before = files@;
            files.push(name);
            assert(strings_view(files@) =~= strings_view(before).push(files@.last()@));
        }
        i += 1;
    }
    assert(iv.take(items@.len() as int) =~= iv);
    if files.len() == 0 {
        return Err(String::from_str("Aucune langue TOML trouvée sur le repo GitHub."));
    }
    Ok(files)
}

// ---------------------------------------------------------------------------
// Language files (TOML, read with the toml crate).
// ---------------------------------------------------------------------------

/// What the `toml` crate reads from a language file: its top-level keys, each
/// with its value when that is a string; `None` for text that is not TOML.
pub uninterp spec fn toml_fields(content: Seq<char>) -> Option<Seq<(Seq<char>, Option<Seq<char>>)>>;

/// The fields of a table as plain values.
pub open spec fn fields_view(v: Seq<(String, Option<String>)>) -> Seq<(Seq<char>, Option<Seq<char>>)> {
    v.map_values(|p: (String, Option<String>)| (p.0@, opt_view(p.1)))
}

/// `toml::from_str::<toml::Table>`: parses a language file; each top-level key
/// is handed out with its value when that is a string.
#[verifier::external_body]
fn read_toml_table(content: &str) -> (r: Option<Vec<(String, Option<String>)>>)
    ensures
        match r {
            Some(v) => toml_fields(content@) == Some(fields_view(v@)),
            None => toml_fields(content@) is None,
        },
{
    toml::from_str::<toml::Table>(content).ok().map(|t| t.iter().map(|(k, v)| (
        k.clone(),
        v.as_str().map(|s| s.to_string()),
    )).collect())
}

/// The string value of the first field named `key`, if that field holds a
/// string.
pub open spec fn field_value(fs: Seq<(Seq<char>, Option<Seq<char>>)>, key: Seq<char>) -> Option<Seq<char>>
    decreases fs.len(),
{
    if fs.len() == 0 {
        None
    } else if fs[0].0 == key {
        fs[0].1
    } else {
        field_value(fs.drop_first(), key)
    }
}

fn lookup_field(fs: &Vec<(String, Option<String>)>, key: &str) -> (r: Option<String>)
    ensures
        opt_view(r) == field_value(fields_view(fs@), key@),
{
    let ghost fv = fields_view(fs@);
    let mut i: usize = 0;
    assert(fv.skip(0) =~= fv);
    while i < fs.len()
        invariant
            i <= fs@.len(),
            fv == fields_view(fs@),
            field_value(fv, key@) == field_value(fv.skip(i as int), key@),
        decreases fs.len() - i,
    {
        assert(fv.skip(i as int)[0] == fv[i as int]);
        if str_eq(fs[i].0.as_str(), key) {
            return match &fs[i].1 {
                Some(v) => Some(v.clone()),
                None => None,
            };
        }
        assert(fv.skip(i as int).drop_first() =~= fv.skip(i + 1));
        i += 1;
    }
    None
}

/// The text for `key` in a language file's text: the string value of that
/// top-level key, if the text is TOML and the key holds a string.
pub open spec fn spec_text_for_key(content: Seq<char>, key: Seq<char>) -> Option<Seq<char>> {
    match toml_fields(content) {
        Some(fs) => field_value(fs, key),
        None => None,
    }
}

/// Looks up the interface text `key` in a language file's text.
pub fn text_for_key(content: &str, key: &str) -> (r: Option<String>)
    ensures
        opt_view(r) == spec_text_for_key(content@, key@),
{
    match read_toml_table(content) {
        Some(fields) => lookup_field(&fields, key),
        None => None,
    }
}

/// The placeholders of a text, pairs as plain values.
pub open spec fn pairs_view(v: Seq<(String, String)>) -> Seq<(Seq<char>, Seq<char>)> {
    v.map_values(|p: (String, String)| (p.0@, p.1@))
}

/// `template` with every `{name}` replaced by its value, pair after pair.
pub open spec fn spec_fill(template: Seq<char>, pairs: Seq<(Seq<char>, Seq<char>)>) -> Seq<char>
    decreases pairs.len(),
{
    if pairs.len() == 0 {
        template
    } else {
        spec_fill(
            spec_replace(template, "{"@ + pairs[0].0 + "}"@, pairs[0].1),
            pairs.drop_first(),
        )
    }
}

/// Fills an interface text: every `{name}` is replaced by its value, for each
/// pair in turn.
pub fn fill_placeholders(template: &str, pairs: &[(String, String)]) -> (r: String)
    ensures
        r@ == spec_fill(template@, pairs_view(pairs@)),
{
    let ghost pv = pairs_view(pairs@);
    let mut text = chars_of(template);
    let mut i: usize = 0;
    assert(pv.skip(0) =~= pv);
    while i < pairs.len()
        invariant
            i <= pairs@.len(),
            pv == pairs_view(pairs@),
            spec_fill(template@, pv) == spec_fill(text@, pv.skip(i as int)),
        decreases pairs.len() - i,
    {
        proof {
            reveal_strlit("{");
            reveal_strlit("}");
        }
        let pattern = join3("{", pairs[i].0.as_str(), "}");
        assert(pv.skip(i as int)[0] == pv[i as int]);
        assert(pv.skip(i as int).drop_first() =~= pv.skip(i + 1));
        text = replace_all(&text, &chars_of(pattern.as_str()), &chars_of(pairs[i].1.as_str()));
        i += 1;
    }
    assert(pv.skip(i as int) =~= Seq::<(Seq<char>, Seq<char>)>::empty());
    string_of(&text)
}

/// Stem, display name and default badge of a language file.
pub open spec fn spec_language_info(file_name: Seq<char>, content: Seq<char>) -> Option<
    (Seq<char>, Seq<char>, Seq<char>),
> {
    match toml_fields(content) {
        None => None,
        Some(fs) => match spec_lang_stem(file_name) {
            None => None,
            Some(stem) => Some(
                (
                    stem,
                    match field_value(fs, "language_name"@) {
                        Some(n) => n,
                        None => spec_display_name(stem),
                    },
                    match field_value(fs, "default_badge"@) {
                        Some(b) => b,
                        None => "default"@,
                    },
                ),
            ),
        },
    }
}

/// Reads a language file named `file_name` with text `content`: its stem, its
/// `language_name` (else the stem's display name) and its `default_badge`
/// (else `default`). None when the text is not TOML or the name does not end
/// in `.toml`.
pub fn language_from_content(file_name: &str, content: &str) -> (r: Option<(String, String, String)>)
    ensures
        match r {
            Some((s, n, b)) => spec_language_info(file_name@, content@) == Some((s@, n@, b@)),
            None => spec_language_info(file_name@, content@) is None,
        },
{
    let fields = match read_toml_table(content) {
        Some(f) => f,
        None => {
            return None;
        },
    };
    let stem = match lang_stem(file_name) {
        Some(s) => s,
        None => {
            return None;
        },
    };
    let name = match lookup_field(&fields, "language_name") {
        Some(n) => n,
        None => display_name_from_stem(stem.as_str()),
    };
    let badge = match lookup_field(&fields, "default_badge") {
        Some(b) => b,
        None => String::from_str("default"),
    };
    Some((stem, name, badge))
}

} // verus!

verus! {

/// A file of the local language folder, with what reading it gave.
pub struct LocalLang {
    pub file_name: String,
    /// Stem, display name and default badge read from the file
    /// (`language_from_content`); `None` when it could not be read.
    pub info: Option<(String, String, String)>,
}

/// Information of a language file as plain values.
pub open spec fn info_view(i: Option<(String, String, String)>) -> Option<(Seq<char>, Seq<char>, Seq<char>)> {
    match i {
        Some((s, n, b)) => Some((s@, n@, b@)),
        None => None,
    }
}

fn clone_info(i: &Option<(String, String, String)>) -> (r: Option<(String, String, String)>)
    ensures
        info_view(r) == info_view(*i),
{
    match i {
        Some((s, n, b)) => Some((s.clone(), n.clone(), b.clone())),
        None => None,
    }
}

/// The first readable file whose stem is `target`.
pub open spec fn find_stem_in(ls: Seq<LocalLang>, target: Seq<char>) -> Option<(Seq<char>, Seq<char>, Seq<char>)>
    decreases ls.len(),
{
    if ls.len() == 0 {
        None
    } else if spec_lang_stem(ls[0].file_name@) == Some(target) && ls[0].info is Some {
        info_view(ls[0].info)
    } else {
        find_stem_in(ls.drop_first(), target)
    }
}

/// The first readable file whose lowercased stem ends with `suffix`.
pub open spec fn find_suffix_in(ls: Seq<LocalLang>, suffix: Seq<char>) -> Option<(Seq<char>, Seq<char>, Seq<char>)>
    decreases ls.len(),
{
    if ls.len() == 0 {
        None
    } else if (match spec_lang_stem(ls[0].file_name@) {
        Some(st) => suffix.is_suffix_of(unicode_lower(st)),
        None => false,
    }) && ls[0].info is Some {
        info_view(ls[0].info)
    } else {
        find_suffix_in(ls.drop_first(), suffix)
    }
}

/// The first readable default language file (`*.default.toml`).
pub open spec fn find_default_in(ls: Seq<LocalLang>) -> Option<(Seq<char>, Seq<char>, Seq<char>)>
    decreases ls.len(),
{
    if ls.len() == 0 {
        None
    } else if ".default.toml"@.is_suffix_of(ls[0].file_name@) && ls[0].info is Some {
        info_view(ls[0].info)
    } else {
        find_default_in(ls.drop_first())
    }
}

/// The language whose stem is `stem` (a trailing `.default` is ignored): the
/// first of `langs` with that stem that could be read.
pub fn find_by_stem(langs: &[LocalLang], stem: &str) -> (r: Option<(String, String, String)>)
    ensures
        info_view(r) == find_stem_in(langs@, trim_default(stem@)),
{
    let target = trim_default_suffix(&chars_of(stem));
    let mut i: usize = 0;
    assert(langs@.skip(0) =~= langs@);
    while i < langs.len()
        invariant
            i <= langs@.len(),
            target@ == trim_default(stem@),
            find_stem_in(langs@, target@) == find_stem_in(langs@.skip(i as int), target@),
        decreases langs.len() - i,
    {
        assert(langs@.skip(i as int)[0] == langs@[i as int]);
        assert(langs@.skip(i as int).drop_first() =~= langs@.skip(i + 1));
        if langs[i].info.is_some() {
            if let Some(s) = lang_stem(langs[i].file_name.as_str()) {
                if seq_eq(&chars_of(s.as_str()), &target) {
                    assert(spec_lang_stem(langs@[i as int].file_name@) == Some(target@));
                    assert(find_stem_in(langs@.skip(i as int), target@) == info_view(langs@[i as int].info));
                    return clone_info(&langs[i].info);
                }
            }
        }
        i += 1;
    }
    None
}

fn find_by_suffix(langs: &[LocalLang], suffix: &[char]) -> (r: Option<(String, String, String)>)
    ensures
        info_view(r) == find_suffix_in(langs@, suffix@),
{
    let mut i: usize = 0;
    assert(langs@.skip(0) =~= langs@);
    while i < langs.len()
        invariant
            i <= langs@.len(),
            find_suffix_in(langs@, suffix@) == find_suffix_in(langs@.skip(i as int), suffix@),
        decreases langs.len() - i,
    {
        assert(langs@.skip(i as int)[0] == langs@[i as int]);
        assert(langs@.skip(i as int).drop_first() =~= langs@.skip(i + 1));
        if langs[i].info.is_some() {
            if let Some(s) = lang_stem(langs[i].file_name.as_str()) {
                let low = to_lowercase(s.as_str());
                if ends_with(&chars_of(low.as_str()), suffix) {
                    return clone_info(&langs[i].info);
                }
            }
        }
        i += 1;
    }
    None
}

/// The language for a locale such as `fr_CH.UTF-8` (already cut at the dot):
/// lowercased, `lang_country` first looks for the stem `COUNTRY_lang`, then for
/// any stem ending in `_lang`.
pub open spec fn spec_find_by_locale(ls: Seq<LocalLang>, locale: Seq<char>) -> Option<(Seq<char>, Seq<char>, Seq<char>)> {
    let n = unicode_lower(locale);
    let k1 = find_from(n, '_', 0);
    let lang = n.subrange(0, k1);
    let exact = if k1 < n.len() {
        let k2 = find_from(n, '_', k1 + 1);
        find_stem_in(ls, trim_default(unicode_upper(n.subrange(k1 + 1, k2)) + "_"@ + lang))
    } else {
        None
    };
    if exact is Some {
        exact
    } else {
        find_suffix_in(ls, "_"@ + lang)
    }
}

/// The language for a locale (see `spec_find_by_locale`).
pub fn find_by_locale(langs: &[LocalLang], locale: &str) -> (r: Option<(String, String, String)>)
    ensures
        info_view(r) == spec_find_by_locale(langs@, locale@),
{
    let normalized = to_lowercase(locale);
    let n = chars_of(normalized.as_str());
    proof {
        lemma_find_from(n@, '_', 0);
    }
    let k1 = find_char_from(&n, '_', 0);
    let lang = string_of(&copy_range(&n, 0, k1));
    if k1 < n.len() {
        proof {
            lemma_find_from(n@, '_', k1 + 1);
        }
        let k2 = find_char_from(&n, '_', k1 + 1);
        let second = string_of(&copy_range(&n, k1 + 1, k2));
        let upper = to_uppercase(second.as_str());
        let exact = join3(upper.as_str(), "_", lang.as_str());
        let found = find_by_stem(langs, exact.as_str());
        if found.is_some() {
            return found;
        }
    }
    let suffix = join2("_", lang.as_str());
    find_by_suffix(langs, &chars_of(suffix.as_str()))
}

/// The default language: the first readable `*.default.toml` file.
pub fn find_default(langs: &[LocalLang]) -> (r: Option<(String, String, String)>)
    ensures
        info_view(r) == find_default_in(langs@),
{
    let mut i: usize = 0;
    assert(langs@.skip(0) =~= langs@);
    while i < langs.len()
        invariant
            i <= langs@.len(),
            find_default_in(langs@) == find_default_in(langs@.skip(i as int)),
        decreases langs.len() - i,
    {
        assert(langs@.skip(i as int)[0] == langs@[i as int]);
        assert(langs@.skip(i as int).drop_first() =~= langs@.skip(i + 1));
        if langs[i].info.is_some() && ends_with(&chars_of(langs[i].file_name.as_str()), &chars_of(".default.toml")) {
            return clone_info(&langs[i].info);
        }
        i += 1;
    }
    None
}

/// The first locale that gives a language.
pub open spec fn find_locales(ls: Seq<LocalLang>, locales: Seq<Seq<char>>) -> Option<(Seq<char>, Seq<char>, Seq<char>)>
    decreases locales.len(),
{
    if locales.len() == 0 {
        None
    } else if spec_find_by_locale(ls, locales[0]) is Some {
        spec_find_by_locale(ls, locales[0])
    } else {
        find_locales(ls, locales.drop_first())
    }
}

/// The language to start with: the one saved earlier (`chosen`, trimmed),
/// else the first that a system locale gives, else the default language.
pub open spec fn spec_choose_language(ls: Seq<LocalLang>, chosen: Option<Seq<char>>, locales: Seq<Seq<char>>) -> Option<(Seq<char>, Seq<char>, Seq<char>)> {
    let saved = match chosen {
        Some(c) => find_stem_in(ls, trim_default(spec_trim(c))),
        None => None,
    };
    if saved is Some {
        saved
    } else if find_locales(ls, locales) is Some {
        find_locales(ls, locales)
    } else {
        find_default_in(ls)
    }
}

/// Chooses the language to start with (see `spec_choose_language`); `langs`
/// are the local language files in the order they are searched.
pub fn choose_language(langs: &[LocalLang], chosen: Option<&str>, locales: &[String]) -> (r: Option<(String, String, String)>)
    ensures
        info_view(r) == spec_choose_language(langs@, match chosen {
            Some(c) => Some(c@),
            None => None,
        }, strings_view(locales@)),
{
    if let Some(c) = chosen {
        let t = string_of(&trim(&chars_of(c)));
        let found = find_by_stem(langs, t.as_str());
        if found.is_some() {
            return found;
        }
    }
    let ghost lv = strings_view(locales@);
    let ghost cv = match chosen {
        Some(c) => Some(c@),
        None => None,
    };
    let mut i: usize = 0;
    assert(lv.skip(0) =~= lv);
    assert(spec_choose_language(langs@, cv, lv) == (if find_locales(langs@, lv) is Some {
        find_locales(langs@, lv)
    } else {
        find_default_in(langs@)
    }));
    while i < locales.len()
        invariant
            i <= locales@.len(),
            lv == strings_view(locales@),
            cv == match chosen {
                Some(c) => Some(c@),
                None => None::<Seq<char>>,
            },
            spec_choose_language(langs@, cv, lv) == (if find_locales(langs@, lv) is Some {
                find_locales(langs@, lv)
            } else {
                find_default_in(langs@)
            }),
            find_locales(langs@, lv) == find_locales(langs@, lv.skip(i as int)),
        decreases locales.len() - i,
    {
        assert(lv.skip(i as int)[0] == locales@[i as int]@);
        assert(lv.skip(i as int).drop_first() =~= lv.skip(i + 1));
        let found = find_by_locale(langs, locales[i].as_str());
        if found.is_some() {
            assert(find_locales(langs@, lv.skip(i as int)) == info_view(found));
            return found;
        }
        i += 1;
    }
    find_default(langs)
}

} // verus!

verus! {

proof fn lemma_insert_to_multiset<A>(s: Seq<A>, j: int, x: A)
    requires
        0 <= j <= s.len(),
    ensures
        s.insert(j, x).to_multiset() == s.to_multiset().insert(x),
{
    broadcast use vstd::seq_lib::group_to_multiset_ensures;
    broadcast use vstd::multiset::group_multiset_properties;

    let t = s.insert(j, x);
    assert(t.remove(j) =~= s);
    assert(t[j] == x);
    assert(t.to_multiset().count(x) > 0);
    assert(t.to_multiset() =~= t.to_multiset().remove(x).insert(x));
}

proof fn lemma_push_to_multiset<A>(s: Seq<A>, x: A)
    ensures
        s.push(x).to_multiset() == s.to_multiset().insert(x),
{
    broadcast use vstd::seq_lib::group_to_multiset_ensures;

}

/// The files with extension `toml`.
pub open spec fn toml_files(ls: Seq<LocalLang>) -> Seq<LocalLang>
    decreases ls.len(),
{
    if ls.len() == 0 {
        Seq::empty()
    } else if crate::checksum::file_ext(ls.last().file_name@) == Some("toml"@) {
        toml_files(ls.drop_last()).push(ls.last())
    } else {
        toml_files(ls.drop_last())
    }
}

/// Files in order of their names (equal names in any order).
pub open spec fn sorted_by_name(ls: Seq<LocalLang>) -> bool {
    forall|i: int, j: int|
        0 <= i < j < ls.len() ==> !seq_lt(#[trigger] ls[j].file_name@, #[trigger] ls[i].file_name@)
}

fn insert_by_name(out: &mut Vec<LocalLang>, x: LocalLang)
    requires
        sorted_by_name(old(out)@),
    ensures
        sorted_by_name(final(out)@),
        final(out)@.to_multiset() == old(out)@.to_multiset().insert(x),
{
    let ghost o = out@;
    let mut j: usize = 0;
    while j < out.len() && !str_lt(x.file_name.as_str(), out[j].file_name.as_str())
        invariant
            j <= out@.len(),
            o == out@,
            forall|i: int| 0 <= i < j ==> !seq_lt(x.file_name@, #[trigger] o[i].file_name@),
        decreases out.len() - j,
    {
        j += 1;
    }
    let ghost xv = x;
    proof {
        lemma_insert_to_multiset(o, j as int, x);
        if j < o.len() {
            lemma_seq_lt_asymmetric(x.file_name@, o[j as int].file_name@);
        }
    }
    out.insert(j, x);
    let ghost n = out@;
    assert(n =~= o.insert(j as int, xv));
    assert forall|a: int, b: int| 0 <= a < b < n.len() implies !seq_lt(
        #[trigger] n[b].file_name@,
        #[trigger] n[a].file_name@,
    ) by {
        if b < j {
        } else if a < j && b == j {
        } else if a < j {
            if seq_lt(o[b - 1].file_name@, o[a].file_name@) {
            }
        } else if a == j {
            // x before o[j]: o[b-1] is not below o[j], and o[j] is above x
            if seq_lt(o[b - 1].file_name@, xv.file_name@) {
                if b - 1 > j {
                    lemma_seq_lt_transitive(o[b - 1].file_name@, xv.file_name@, o[j as int].file_name@);
                }
            }
        } else {
        }
    }
}

fn clone_local(l: &LocalLang) -> (r: LocalLang)
    ensures
        r == *l,
{
    LocalLang {
        file_name: l.file_name.clone(),
        info: match &l.info {
            Some((a, b, c)) => Some((a.clone(), b.clone(), c.clone())),
            None => None,
        },
    }
}

/// The `.toml` files of a folder listing, in order of their names: the order in
/// which languages are searched.
pub fn local_languages(entries: &Vec<LocalLang>) -> (r: Vec<LocalLang>)
    ensures
        r@.to_multiset() == toml_files(entries@).to_multiset(),
        sorted_by_name(r@),
{
    let mut out: Vec<LocalLang> = Vec::new();
    let mut i: usize = 0;
    while i < entries.len()
        invariant
            i <= entries@.len(),
            sorted_by_name(out@),
            out@.to_multiset() == toml_files(entries@.take(i as int)).to_multiset(),
        decreases entries.len() - i,
    {
        let e = &entries[i];
        assert(entries@.take(i + 1).drop_last() =~= entries@.take(i as int));
        assert(entries@.take(i + 1).last() == entries@[i as int]);
        let f = chars_of(e.file_name.as_str());
        let dot = crate::checksum::ext_dot(&f);
        let mut is_toml = false;
        if let Some(d) = dot {
            assert(d < f.len());
            is_toml = seq_eq(&copy_range(&f, d + 1, f.len()), &chars_of("toml"));
        }
        if is_toml {
            let c = clone_local(e);
            proof {
                lemma_push_to_multiset(toml_files(entries@.take(i as int)), c);
            }
            insert_by_name(&mut out, c);
        }
        i += 1;
    }
    assert(entries@.take(entries@.len() as int) =~= entries@);
    out
}

} // verus!

verus! {

/// The pieces of `s` from index `i` on, split at every `c` (`str::split`).
pub open spec fn split_from(s: Seq<char>, c: char, i: int) -> Seq<Seq<char>>
    decreases s.len() - i,
    via split_from_decreases
{
    if i < 0 || i > s.len() {
        Seq::empty()
    } else {
        let k = find_from(s, c, i);
        if k < s.len() {
            seq![s.subrange(i, k)] + split_from(s, c, k + 1)
        } else {
            seq![s.subrange(i, s.len() as int)]
        }
    }
}

#[via_fn]
proof fn split_from_decreases(s: Seq<char>, c: char, i: int) {
    if 0 <= i <= s.len() {
        lemma_find_from(s, c, i);
    }
}

/// `s` with every `a` replaced by `b`.
pub open spec fn replace_char(s: Seq<char>, a: char, b: char) -> Seq<char> {
    s.map_values(|x: char| if x == a { b } else { x })
}

/// The locale a piece of a locale variable names: the part before its first
/// `.`, with `-` written `_`, trimmed; none when empty or `C`.
pub open spec fn locale_of_piece(p: Seq<char>) -> Option<Seq<char>> {
    let c = spec_trim(replace_char(p.subrange(0, find_from(p, '.', 0)), '-', '_'));
    if c.len() > 0 && c != "C"@ {
        Some(c)
    } else {
        None
    }
}

/// The locales named by the pieces of a list.
pub open spec fn locales_of_pieces(ps: Seq<Seq<char>>) -> Seq<Seq<char>>
    decreases ps.len(),
{
    if ps.len() == 0 {
        Seq::empty()
    } else {
        (match locale_of_piece(ps[0]) {
            Some(l) => seq![l],
            None => Seq::empty(),
        }) + locales_of_pieces(ps.drop_first())
    }
}

/// The locales named by the values of the locale variables, in order; each
/// value is a `:`-separated list.
pub open spec fn spec_locale_candidates(values: Seq<Seq<char>>) -> Seq<Seq<char>>
    decreases values.len(),
{
    if values.len() == 0 {
        Seq::empty()
    } else {
        locales_of_pieces(split_from(values[0], ':', 0)) + spec_locale_candidates(values.drop_first())
    }
}

fn replace_dash(v: &[char]) -> (r: Vec<char>)
    ensures
        r@ == replace_char(v@, '-', '_'),
{
    let mut r: Vec<char> = Vec::new();
    let mut i: usize = 0;
    while i < v.len()
        invariant
            i <= v.len(),
            r@ == replace_char(v@.take(i as int), '-', '_'),
        decreases v.len() - i,
    {
        r.push(if v[i] == '-' { '_' } else { v[i] });
        assert(replace_char(v@.take(i + 1), '-', '_') =~= replace_char(v@.take(i as int), '-', '_').push(
            if v@[i as int] == '-' { '_' } else { v@[i as int] },
        ));
        i += 1;
    }
    assert(v@.take(v.len() as int) =~= v@);
    r
}

fn push_locales_of(out: &mut Vec<String>, v: &[char])
    ensures
        strings_view(final(out)@) == strings_view(old(out)@) + locales_of_pieces(split_from(v@, ':', 0)),
{
    let mut i: usize = 0;
    let ghost start = strings_view(out@);
    loop
        invariant_except_break
            i <= v.len(),
            start + locales_of_pieces(split_from(v@, ':', 0)) == strings_view(out@)
                + locales_of_pieces(split_from(v@, ':', i as int)),
        ensures
            strings_view(out@) == start + locales_of_pieces(split_from(v@, ':', 0)),
        decreases v.len() - i,
    {
        proof {
            lemma_find_from(v@, ':', i as int);
        }
        let k = find_char_from(v, ':', i);
        let piece = copy_range(v, i, k);
        let ghost rest = if k < v@.len() {
            split_from(v@, ':', k + 1)
        } else {
            Seq::<Seq<char>>::empty()
        };
        assert(split_from(v@, ':', i as int) =~= seq![piece@] + rest);
        assert(locales_of_pieces(seq![piece@] + rest) == (match locale_of_piece(piece@) {
            Some(l) => seq![l],
            None => Seq::<Seq<char>>::empty(),
        }) + locales_of_pieces(rest)) by {
            assert((seq![piece@] + rest).drop_first() =~= rest);
        }
        proof {
            lemma_find_from(piece@, '.', 0);
        }
        let d = find_char_from(&piece, '.', 0);
        let c = trim(&replace_dash(&copy_range(&piece, 0, d)));
        let is_c = c.len() == 1 && c[0] == 'C';
        proof {
            reveal_strlit("C");
            if c@ == "C"@ {
                assert(c@[0] == "C"@[0]);
            }
            if is_c {
                assert(c@ =~= "C"@);
            }
        }
        if c.len() > 0 && !is_c {
            let ghost before = strings_view(out@);
            out.push(string_of(&c));
            assert(strings_view(out@) =~= before + seq![c@]);
        } else {
            assert(strings_view(out@) + locales_of_pieces(rest) =~= strings_view(out@) + (Seq::<Seq<char>>::empty() + locales_of_pieces(rest)));
        }
        if k >= v.len() {
            assert(locales_of_pieces(rest) =~= Seq::<Seq<char>>::empty());
            assert(strings_view(out@) =~= strings_view(out@) + locales_of_pieces(rest));
            break ;
        }
        i = k + 1;
    }
}

/// The system locales to try, from the values of `LC_ALL`, `LANGUAGE` and
/// `LANG` that are set (in that order): every `:`-separated piece, cut at its
/// first `.`, with `-` written `_`, trimmed; empty pieces and `C` are left out.
pub fn system_locale_candidates(values: &[String]) -> (r: Vec<String>)
    ensures
        strings_view(r@) == spec_locale_candidates(strings_view(values@)),
{
    let ghost vs = strings_view(values@);
    let mut out: Vec<String> = Vec::new();
    let mut i: usize = 0;
    assert(vs.skip(0) =~= vs);
    while i < values.len()
        invariant
            i <= values@.len(),
            vs == strings_view(values@),
            spec_locale_candidates(vs) == strings_view(out@) + spec_locale_candidates(vs.skip(i as int)),
        decreases values.len() - i,
    {
        assert(vs.skip(i as int)[0] == values@[i as int]@);
        assert(vs.skip(i as int).drop_first() =~= vs.skip(i + 1));
        let ghost before = strings_view(out@);
        push_locales_of(&mut out, &chars_of(values[i].as_str()));
        assert(strings_view(out@) + spec_locale_candidates(vs.skip(i + 1)) =~= before
            + spec_locale_candidates(vs.skip(i as int)));
        i += 1;
    }
    assert(spec_locale_candidates(vs.skip(i as int)) =~= Seq::<Seq<char>>::empty());
    assert(strings_view(out@) + Seq::<Seq<char>>::empty() =~= strings_view(out@));
    out
}

} // verus!

verus! {

impl LanguageManager {
    /// The language settings at start-up. `resources_ok` tells whether local
    /// language files exist or the default one could be downloaded; `langs`
    /// are the local language files in search order, `chosen` the saved choice
    /// and `locale_values` the values of the locale variables. Without any
    /// usable language, English is used and the missing resources are reported.
    pub fn initialize(
        work_dir: String,
        lang_dir: String,
        resources_ok: bool,
        langs: &[LocalLang],
        chosen: Option<&str>,
        locale_values: &[String],
    ) -> (r: Self)
        ensures
            r.work_dir == work_dir,
            r.lang_dir == lang_dir,
            r.remote_files@.len() == 0,
            match spec_choose_language(
                langs@,
                match chosen {
                    Some(c) => Some(c@),
                    None => None,
                },
                spec_locale_candidates(strings_view(locale_values@)),
            ) {
                Some((s, n, b)) => r.active_stem@ == s && r.active_name@ == n && r.default_badge@ == b
                    && r.network_error == !resources_ok,
                None => r.active_stem@ == "EN_en"@ && r.active_name@ == "English (EN)"@
                    && r.default_badge@ == "default"@ && r.network_error,
            },
    {
        let locales = system_locale_candidates(locale_values);
        let selected = choose_language(langs, chosen, &locales);
        let (active_stem, active_name, default_badge, network_error) = match selected {
            Some((s, n, b)) => (s, n, b, !resources_ok),
            None => (
                String::from_str("EN_en"),
                String::from_str("English (EN)"),
                String::from_str("default"),
                true,
            ),
        };
        LanguageManager {
            work_dir,
            lang_dir,
            active_stem,
            active_name,
            default_badge,
            network_error,
            remote_files: Vec::new(),
        }
    }

    /// Switches to a language. `available` tells whether its file is present
    /// (or could be downloaded), `info` what reading it gave, and `saved` how
    /// saving the choice went (only attempted once the file was read).
    pub fn select_language(
        &mut self,
        available: bool,
        info: Option<(String, String, String)>,
        saved: Result<(), String>,
    ) -> (r: Result<(), String>)
        ensures
            !available ==> (r matches Err(e) && e@
                == "Ce programme a besoin d'un accès internet pour télécharger ses ressources linguistiques."@),
            available && info is None ==> (r matches Err(e) && e@ == "Fichier de langue invalide."@),
            available && info is Some ==> r == saved,
            r is Ok ==> (info matches Some((s, n, b)) && final(self).active_stem == s
                && final(self).active_name == n && final(self).default_badge == b),
            r is Err ==> final(self).active_stem == old(self).active_stem && final(self).active_name
                == old(self).active_name && final(self).default_badge == old(self).default_badge,
            final(self).work_dir == old(self).work_dir,
            final(self).lang_dir == old(self).lang_dir,
            final(self).network_error == old(self).network_error,
            final(self).remote_files == old(self).remote_files,
    {
        if !available {
            return Err(
                String::from_str(
                    "Ce programme a besoin d'un accès internet pour télécharger ses ressources linguistiques.",
                ),
            );
        }
        let (stem, name, badge) = match info {
            Some(t) => t,
            None => {
                return Err(String::from_str("Fichier de langue invalide."));
            },
        };
        match saved {
            Err(e) => Err(e),
            Ok(u) => {
                self.active_stem = stem;
                self.active_name = name;
                self.default_badge = badge;
                Ok(u)
            },
        }
    }
}

/// The views of a list of packs.
pub open spec fn packs_view(v: Seq<LanguagePack>) -> Seq<PackView> {
    v.map_values(|p: LanguagePack| p@)
}

/// A local pack, marked as listed in the repository when it is.
pub open spec fn mark_remote(p: PackView, remote: Seq<Seq<char>>) -> PackView {
    PackView { is_remote: p.is_remote || remote.contains(p.file_name), ..p }
}

/// Whether some local pack has file name `f`.
pub open spec fn has_file(local: Seq<PackView>, f: Seq<char>) -> bool {
    exists|i: int| 0 <= i < local.len() && local[i].file_name == f
}

/// Packs for the repository files that are not local, each name once.
pub open spec fn remote_only(local: Seq<PackView>, remote: Seq<Seq<char>>) -> Seq<PackView>
    decreases remote.len(),
{
    if remote.len() == 0 {
        Seq::empty()
    } else {
        let n = remote.last();
        if has_file(local, n) || remote.drop_last().contains(n) {
            remote_only(local, remote.drop_last())
        } else {
            remote_only(local, remote.drop_last()).push(spec_pack_from_file_name(n, false, true))
        }
    }
}

/// Local packs (marked when also in the repository) and repository-only packs.
pub open spec fn merged_packs(local: Seq<PackView>, remote: Seq<Seq<char>>) -> Seq<PackView> {
    local.map_values(|p: PackView| mark_remote(p, remote)) + remote_only(local, remote)
}

/// Display order: non-default languages first, then by lowercased stem.
pub open spec fn pack_before(a: PackView, b: PackView) -> bool {
    (!a.is_default && b.is_default) || (a.is_default == b.is_default && seq_lt(
        unicode_lower(a.stem),
        unicode_lower(b.stem),
    ))
}

/// Packs in display order (packs with equal keys in any order).
pub open spec fn packs_sorted(v: Seq<PackView>) -> bool {
    forall|i: int, j: int| 0 <= i < j < v.len() ==> !pack_before(#[trigger] v[j], #[trigger] v[i])
}

proof fn lemma_pack_before_transitive(a: PackView, b: PackView, c: PackView)
    requires
        pack_before(a, b),
        pack_before(b, c),
    ensures
        pack_before(a, c),
{
    if a.is_default == b.is_default && b.is_default == c.is_default {
        lemma_seq_lt_transitive(unicode_lower(a.stem), unicode_lower(b.stem), unicode_lower(c.stem));
    }
}

proof fn lemma_pack_before_asymmetric(a: PackView, b: PackView)
    ensures
        !(pack_before(a, b) && pack_before(b, a)),
{
    lemma_seq_lt_asymmetric(unicode_lower(a.stem), unicode_lower(b.stem));
}

fn pack_lt(a: &LanguagePack, b: &LanguagePack) -> (r: bool)
    ensures
        r == pack_before(a@, b@),
{
    if !a.is_default && b.is_default {
        return true;
    }
    if a.is_default != b.is_default {
        return false;
    }
    let la = to_lowercase(a.stem.as_str());
    let lb = to_lowercase(b.stem.as_str());
    str_lt(la.as_str(), lb.as_str())
}

fn clone_pack(p: &LanguagePack) -> (r: LanguagePack)
    ensures
        r == *p,
{
    LanguagePack {
        stem: p.stem.clone(),
        file_name: p.file_name.clone(),
        display_name: p.display_name.clone(),
        is_default: p.is_default,
        is_local: p.is_local,
        is_remote: p.is_remote,
    }
}

fn insert_pack(out: &mut Vec<LanguagePack>, x: LanguagePack)
    requires
        packs_sorted(packs_view(old(out)@)),
    ensures
        packs_sorted(packs_view(final(out)@)),
        packs_view(final(out)@).to_multiset() == packs_view(old(out)@).to_multiset().insert(x@),
{
    let ghost o = packs_view(out@);
    let mut j: usize = 0;
    while j < out.len() && !pack_lt(&x, &out[j])
        invariant
            j <= out@.len(),
            o == packs_view(out@),
            forall|i: int| 0 <= i < j ==> !pack_before(x@, #[trigger] o[i]),
        decreases out.len() - j,
    {
        j += 1;
    }
    let ghost xv = x@;
    proof {
        lemma_insert_to_multiset(o, j as int, xv);
        if j < o.len() {
            lemma_pack_before_asymmetric(xv, o[j as int]);
        }
    }
    out.insert(j, x);
    let ghost n = packs_view(out@);
    assert(n =~= o.insert(j as int, xv));
    assert forall|a: int, b: int| 0 <= a < b < n.len() implies !pack_before(#[trigger] n[b], #[trigger] n[a]) by {
        if b < j {
        } else if a < j && b == j {
        } else if a < j {
        } else if a == j {
            if pack_before(o[b - 1], xv) {
                if b - 1 > j {
                    lemma_pack_before_transitive(o[b - 1], xv, o[j as int]);
                }
            }
        } else {
        }
    }
}

fn contains_name(v: &Vec<String>, upto: usize, name: &str) -> (r: bool)
    requires
        upto <= v@.len(),
    ensures
        r == strings_view(v@).take(upto as int).contains(name@),
{
    let ghost sv = strings_view(v@).take(upto as int);
    let mut i: usize = 0;
    while i < upto
        invariant
            i <= upto <= v@.len(),
            sv == strings_view(v@).take(upto as int),
            forall|k: int| 0 <= k < i ==> sv[k] != name@,
        decreases upto - i,
    {
        if str_eq(v[i].as_str(), name) {
            assert(sv[i as int] == name@);
            return true;
        }
        i += 1;
    }
    false
}

fn has_local_file(local: &Vec<LanguagePack>, name: &str) -> (r: bool)
    ensures
        r == has_file(packs_view(local@), name@),
{
    let mut i: usize = 0;
    while i < local.len()
        invariant
            i <= local@.len(),
            forall|k: int| 0 <= k < i ==> packs_view(local@)[k].file_name != name@,
        decreases local.len() - i,
    {
        if str_eq(local[i].file_name.as_str(), name) {
            assert(packs_view(local@)[i as int].file_name == name@);
            return true;
        }
        i += 1;
    }
    false
}

impl LanguageManager {
    /// The languages to offer: the local packs (`local`, one per file of the
    /// language folder), marked when the repository lists them too, and a pack
    /// for every repository file that is not local; in display order
    /// (non-default first, then by lowercased stem).
    pub fn available_languages(&self, local: Vec<LanguagePack>) -> (r: Vec<LanguagePack>)
        ensures
            packs_view(r@).to_multiset() == merged_packs(packs_view(local@), strings_view(self.remote_files@)).to_multiset(),
            packs_sorted(packs_view(r@)),
    {
        let ghost lv = packs_view(local@);
        let ghost rv = strings_view(self.remote_files@);
        let mut merged: Vec<LanguagePack> = Vec::new();
        let mut i: usize = 0;
        while i < local.len()
            invariant
                i <= local@.len(),
                lv == packs_view(local@),
                rv == strings_view(self.remote_files@),
                packs_view(merged@) == lv.take(i as int).map_values(|p: PackView| mark_remote(p, rv)),
            decreases local.len() - i,
        {
            let mut p = clone_pack(&local[i]);
            let listed = contains_name(&self.remote_files, self.remote_files.len(), p.file_name.as_str());
            assert(strings_view(self.remote_files@).take(self.remote_files@.len() as int) =~= rv);
            p.is_remote = p.is_remote || listed;
            let ghost before = packs_view(merged@);
            merged.push(p);
            assert(packs_view(merged@) =~= before.push(p@));
            assert(lv.take(i + 1).map_values(|p: PackView| mark_remote(p, rv)) =~= lv.take(i as int).map_values(
                |p: PackView| mark_remote(p, rv),
            ).push(mark_remote(lv[i as int], rv)));
            i += 1;
        }
        assert(lv.take(local@.len() as int) =~= lv);
        let ghost head = packs_view(merged@);
        let mut k: usize = 0;
        while k < self.remote_files.len()
            invariant
                k <= self.remote_files@.len(),
                lv == packs_view(local@),
                rv == strings_view(self.remote_files@),
                head == lv.map_values(|p: PackView| mark_remote(p, rv)),
                packs_view(merged@) == head + remote_only(lv, rv.take(k as int)),
            decreases self.remote_files.len() - k,
        {
            let name = self.remote_files[k].as_str();
            assert(rv.take(k + 1).drop_last() =~= rv.take(k as int));
            assert(rv.take(k + 1).last() == name@);
            if !has_local_file(&local, name) && !contains_name(&self.remote_files, k, name) {
                let p = pack_from_file_name(name, false, true);
                let ghost before = packs_view(merged@);
                merged.push(p);
                assert(packs_view(merged@) =~= before.push(p@));
            }
            k += 1;
        }
        assert(rv.take(self.remote_files@.len() as int) =~= rv);
        let mut out: Vec<LanguagePack> = Vec::new();
        let ghost all = packs_view(merged@);
        let mut m: usize = 0;
        assert(packs_view(out@) =~= all.take(0));
        while m < merged.len()
            invariant
                m <= merged@.len(),
                all == packs_view(merged@),
                packs_sorted(packs_view(out@)),
                packs_view(out@).to_multiset() == all.take(m as int).to_multiset(),
            decreases merged.len() - m,
        {
            let p = clone_pack(&merged[m]);
            proof {
                lemma_push_to_multiset(all.take(m as int), p@);
                assert(all.take(m + 1) =~= all.take(m as int).push(p@));
            }
            insert_pack(&mut out, p);
            m += 1;
        }
        assert(all.take(merged@.len() as int) =~= all);
        out
    }
}

} // verus!
