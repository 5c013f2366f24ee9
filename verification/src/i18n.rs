//! Languages: the texts of the user interface, and the flag and name that
//! stand for a language code.

use vstd::prelude::*;
use crate::text::{
    als_text, ausschnitt, beginnt_mit, endet_mit, faengt_an, gleicher_text, hoert_auf,
    nach_trenner, teile_an, vor_trenner, zeichen,
};

verus! {

/// The upper-case form of a text, as the standard library computes it
/// (`str::to_uppercase`).
pub uninterp spec fn grossschreibung(s: Seq<char>) -> Seq<char>;

/// `str::to_uppercase`: the result is the upper-case form of the whole
/// text, a function of the text alone.
#[verifier::external_body]
pub(crate) fn grossbuchstaben(s: &str) -> (r: String)
    ensures
        r@ == grossschreibung(s@),
{
    s.to_uppercase()
}

/// `char::from_u32`: the character with the code `i` where `i` is a
/// Unicode scalar value, that is no surrogate and not above 0x10FFFF, and
/// none for any other number.
pub assume_specification[ char::from_u32 ](i: u32) -> (r: Option<char>)
    ensures
        r == if i <= 0xD7FF || (0xE000 <= i && i <= 0x10FFFF) {
            Some(i as char)
        } else {
            None::<char>
        },
;

/// The texts of the user interface in one language.
#[derive(Debug, Clone)]
pub struct Sprache {
    pub title: String,
    pub settings_window: String,
    pub setup_done: String,
    pub setup_done_cinna: String,
    pub setup_fail: String,
    pub setup_fail_text: String,
    pub setup_not_available: String,
    pub set_desk_unknown: String,
    pub setup_exists: String,
    pub setup_done_xfce_gno: String,
    pub setup_fail_xfce_1: String,
    pub setup_fail_xfce_2: String,
    pub search_placeholder: String,
    pub set_key: String,
    pub set_key_tooltip: String,
    pub close_window_get: String,
    pub close_window_dnd: String,
    pub emoji_size: String,
    pub hist_reset: String,
    pub label_language: String,
    pub button_cancel: String,
    pub button_ok: String,
    pub debug_main_time_loading_language: String,
    pub debug_main_list_fail_to_copy: String,
    pub debug_main_list_copy_from_etc: String,
    pub debug_main_list_new_history: String,
    pub debug_main_time_css_loading: String,
    pub debug_main_settings_infofenster: String,
    pub debug_main_time_copy_from_etc: String,
    pub debug_main_time_emojis_load: String,
    pub debug_main_time_searchindex: String,
    pub debug_main_time_categorize_emoji: String,
    pub debug_main_time_to_searchfield: String,
    pub debug_main_time_set_window_keys: String,
    pub debug_main_time_info_window: String,
    pub debug_main_time_create_ui: String,
    pub debug_emoji_tabs_use_css: String,
    pub debug_emoji_tabs_css_failure: String,
    pub debug_shortcut_set_info_window: String,
    pub debug_shortcut_apply_gsettings_error: String,
    pub debug_shortcut_cinna_already_done: String,
    pub debug_gtk_theme_kde_gtk_theme: String,
    pub debug_gtk_theme_kde_gtk_fallback: String,
    pub debug_gtk_theme_kde_set_gtk_theme: String,
    pub debug_gtk_theme_kde_no_gtk_theme: String,
    pub debug_gtk_theme_kde_determinded_theme: String,
    pub debug_gtk_theme_kde_theme_folder: String,
    pub debug_gtk_theme_kde_darkmode_aktiv: String,
}

/// A language that can be chosen: its code, its flag and its own name.
#[derive(Debug, Clone)]
pub struct VerfuegbareSprache {
    pub code: String,
    pub flagge: String,
    pub name: String,
}

/// The characters that part the language of a code from its region.
pub open spec fn code_trenner() -> Seq<char> {
    seq!['-', '_']
}

/// The country that stands for a language code, in upper case: the region
/// of the code where it has one, Saudi Arabia for `ar`, the United Kingdom
/// for `en`, and the code itself for any other code without a region.
pub open spec fn laendercode(code: Seq<char>) -> Seq<char> {
    match nach_trenner(code, code_trenner()) {
        Some(rest) => grossschreibung(vor_trenner(rest, code_trenner())),
        None => if code == "ar"@ {
            "SA"@
        } else if code == "en"@ {
            "GB"@
        } else {
            grossschreibung(code)
        },
    }
}

/// A character from `A` to the end of the ASCII range.
pub open spec fn ist_grundzeichen(c: char) -> bool {
    65 <= c as u32 <= 127
}

/// The regional indicator that stands for a character: `A` gives the
/// first of them, and each character after `A` the one as far after it.
pub open spec fn regionalzeichen(c: char) -> char {
    (0x1F1E6 + (c as u32 - 65)) as char
}

/// The flag of a country code: the two regional indicators of its two
/// characters. A code that is not made of two characters from `A` on in
/// the ASCII range has the globe for its flag.
pub open spec fn flagge_von(land: Seq<char>) -> Seq<char> {
    if land.len() == 2 && ist_grundzeichen(land[0]) && ist_grundzeichen(land[1]) {
        seq![regionalzeichen(land[0]), regionalzeichen(land[1])]
    } else {
        "🌍"@
    }
}

/// The name of a language in that language, for the codes that have one;
/// for any other code the word `Sprache`, a colon, a space and the code.
pub open spec fn name_von(code: Seq<char>) -> Seq<char> {
    if code == "ar"@ {
        "العربية"@
    } else if code == "da-DK"@ {
        "Dansk"@
    } else if code == "de"@ {
        "Deutsch"@
    } else if code == "en-US"@ {
        "English (US)"@
    } else if code == "en"@ {
        "English (UK)"@
    } else if code == "es"@ {
        "Español"@
    } else if code == "fi"@ {
        "Suomi"@
    } else if code == "fr"@ {
        "Français"@
    } else if code == "it"@ {
        "Italiano"@
    } else if code == "ja-JP"@ {
        "日本語"@
    } else if code == "nb-NO"@ {
        "Norsk Bokmål"@
    } else if code == "nl"@ {
        "Nederlands"@
    } else if code == "pl"@ {
        "Polski"@
    } else if code == "pt-BR"@ {
        "Português (Brasil)"@
    } else if code == "pt"@ {
        "Português (Portugal)"@
    } else if code == "ru"@ {
        "Русский"@
    } else if code == "sv"@ {
        "Svenska"@
    } else if code == "tr"@ {
        "Türkçe"@
    } else if code == "uk-UA"@ {
        "українська"@
    } else if code == "zh-CN"@ {
        "中文"@
    } else {
        "Sprache: "@ + code
    }
}

/// The directories in which the language files are looked for: two beside
/// the sources while the program is developed, one under `/usr/share` once
/// it is installed.
pub open spec fn sprachpfade(entwicklung: bool) -> Seq<Seq<char>> {
    if entwicklung {
        seq![
            "../assets/usr/share/emoji-picker/locale/"@,
            "./assets/usr/share/emoji-picker/locale/"@,
        ]
    } else {
        seq!["/usr/share/emoji-picker/locale/"@]
    }
}

/// The language codes to try for a locale name such as `de_AT.UTF-8`: what
/// stands before the first full stop is cut at its underscores; with a
/// region the codes are language, hyphen, region and then the language
/// alone, without one the language alone.
pub open spec fn sprachcodes_von(locale: Seq<char>) -> Seq<Seq<char>> {
    let vorn = vor_trenner(locale, seq!['.']);
    let sprache = vor_trenner(vorn, seq!['_']);
    match nach_trenner(vorn, seq!['_']) {
        Some(rest) => seq![sprache + seq!['-'] + vor_trenner(rest, seq!['_']), sprache],
        None => seq![sprache],
    }
}

/// The language code in the name of a language file: what stands between
/// `emoji-picker.` and `.json`. A name of another form has none, and the
/// code `system` is not that of a file.
pub open spec fn dateicode(name: Seq<char>) -> Option<Seq<char>> {
    let anfang = "emoji-picker."@;
    let ende = ".json"@;
    if faengt_an(name, anfang) && hoert_auf(name.skip(anfang.len() as int), ende) {
        let code = name.subrange(anfang.len() as int, name.len() - ende.len());
        if code == "system"@ {
            None
        } else {
            Some(code)
        }
    } else {
        None
    }
}

/// The language codes to try for a locale name; for no locale name, `en`.
pub fn sprachcodes(locale: Option<&str>) -> (r: Vec<String>)
    ensures
        Seq::new(r@.len(), |i: int| r@[i]@) == match locale {
            Some(l) => sprachcodes_von(l@),
            None => sprachcodes_von("en"@),
        },
{
    let l = match locale {
        Some(l) => zeichen(l),
        None => zeichen("en"),
    };
    let mut punkt: Vec<char> = Vec::new();
    punkt.push('.');
    let mut strich: Vec<char> = Vec::new();
    strich.push('_');
    assert(punkt@ == seq!['.']);
    assert(strich@ == seq!['_']);
    let (vorn, _) = teile_an(&l, &punkt);
    let (sprache, rest) = teile_an(&vorn, &strich);
    let mut r: Vec<String> = Vec::new();
    match rest {
        Some(rest) => {
            let (region, _) = teile_an(&rest, &strich);
            let mut lang = als_text(&sprache);
            lang.push('-');
            lang.append(als_text(&region).as_str());
            assert(lang@ == sprache@ + seq!['-'] + region@);
            r.push(lang);
            r.push(als_text(&sprache));
        },
        None => {
            r.push(als_text(&sprache));
        },
    }
    assert(Seq::new(r@.len(), |i: int| r@[i]@) =~= sprachcodes_von(l@));
    r
}

/// The language that a file of the given name holds, with its flag and its
/// name; none where the name is not that of a language file.
pub fn sprache_fuer_datei(dateiname: &str) -> (r: Option<VerfuegbareSprache>)
    ensures
        match r {
            Some(s) => dateicode(dateiname@) == Some(s.code@) && s.flagge@ == flagge_von(
                laendercode(s.code@),
            ) && s.name@ == name_von(s.code@),
            None => dateicode(dateiname@) is None,
        },
{
    let name = zeichen(dateiname);
    let anfang = zeichen("emoji-picker.");
    let ende = zeichen(".json");
    if !beginnt_mit(&name, &anfang) {
        return None;
    }
    let rest = ausschnitt(&name, anfang.len(), name.len());
    assert(rest@ == name@.skip(anfang@.len() as int));
    if !endet_mit(&rest, &ende) {
        return None;
    }
    let code = ausschnitt(&name, anfang.len(), name.len() - ende.len());
    let code = als_text(&code);
    if gleicher_text(code.as_str(), "system") {
        return None;
    }
    let flagge = Sprache::flagge_fuer_code(code.as_str());
    let name = Sprache::name_fuer_code(code.as_str());
    Some(VerfuegbareSprache { code, flagge, name })
}

/// How one entry of a list stands to another.
#[derive(Debug, Clone, Copy, PartialEq, Eq, Structural)]
pub enum Reihenfolge {
    Davor,
    Gleich,
    Danach,
}

/// How the text `a` stands to the text `b` in the order of a dictionary
/// whose letters are ordered by their code points.
pub open spec fn textfolge(a: Seq<char>, b: Seq<char>) -> Reihenfolge
    decreases a.len(),
{
    if a.len() == 0 && b.len() == 0 {
        Reihenfolge::Gleich
    } else if a.len() == 0 {
        Reihenfolge::Davor
    } else if b.len() == 0 {
        Reihenfolge::Danach
    } else if (a[0] as u32) < (b[0] as u32) {
        Reihenfolge::Davor
    } else if (a[0] as u32) > (b[0] as u32) {
        Reihenfolge::Danach
    } else {
        textfolge(a.drop_first(), b.drop_first())
    }
}

/// How the language with the code `a` stands to the one with the code `b`
/// in the list of languages: `system` before every code, and any code
/// after `system`; two other codes as their texts stand.
pub open spec fn sprachfolge(a: Seq<char>, b: Seq<char>) -> Reihenfolge {
    if a == "system"@ {
        Reihenfolge::Davor
    } else if b == "system"@ {
        Reihenfolge::Danach
    } else {
        textfolge(a, b)
    }
}

/// Tells how two texts stand to each other.
pub fn vergleiche_texte(a: &Vec<char>, b: &Vec<char>) -> (r: Reihenfolge)
    ensures
        r == textfolge(a@, b@),
{
    let mut i: usize = 0;
    assert(a@.skip(0) == a@ && b@.skip(0) == b@);
    while i < a.len() && i < b.len()
        invariant
            i <= a.len(),
            i <= b.len(),
            textfolge(a@, b@) == textfolge(a@.skip(i as int), b@.skip(i as int)),
        decreases a.len() - i,
    {
        let x: u32 = a[i] as u32;
        let y: u32 = b[i] as u32;
        let ghost ra = a@.skip(i as int);
        let ghost rb = b@.skip(i as int);
        assert(ra[0] == a@[i as int] && rb[0] == b@[i as int]);
        if x < y {
            return Reihenfolge::Davor;
        }
        if x > y {
            return Reihenfolge::Danach;
        }
        assert(ra.drop_first() == a@.skip(i + 1));
        assert(rb.drop_first() == b@.skip(i + 1));
        i += 1;
    }
    assert(a@.skip(i as int).len() == a.len() - i);
    assert(b@.skip(i as int).len() == b.len() - i);
    if i == a.len() && i == b.len() {
        Reihenfolge::Gleich
    } else if i == a.len() {
        Reihenfolge::Davor
    } else {
        Reihenfolge::Danach
    }
}

/// Tells how two languages stand to each other in the list of languages.
pub fn vergleiche_sprachen(a: &str, b: &str) -> (r: Reihenfolge)
    ensures
        r == sprachfolge(a@, b@),
{
    if gleicher_text(a, "system") {
        Reihenfolge::Davor
    } else if gleicher_text(b, "system") {
        Reihenfolge::Danach
    } else {
        vergleiche_texte(&zeichen(a), &zeichen(b))
    }
}

/// The entry that stands for the language of the system.
pub fn systemsprache() -> (r: VerfuegbareSprache)
    ensures
        r.code@ == "system"@,
        r.flagge@ == "🌐"@,
        r.name@ == "System"@,
{
    VerfuegbareSprache {
        code: String::from_str("system"),
        flagge: String::from_str("🌐"),
        name: String::from_str("System"),
    }
}

/// The regional indicator for a character from `A` on.
fn regionalzeichen_von(c: char) -> (r: char)
    requires
        ist_grundzeichen(c),
    ensures
        r == regionalzeichen(c),
{
    let n: u32 = c as u32;
    match char::from_u32(0x1F1E6 + (n - 65)) {
        Some(z) => z,
        None => '🏳',
    }
}

/// The flag of a country code that is already in upper case.
pub fn flagge_aus_laendercode(land: &Vec<char>) -> (r: String)
    ensures
        r@ == flagge_von(land@),
{
    if land.len() == 2 {
        let a: u32 = land[0] as u32;
        let b: u32 = land[1] as u32;
        if 65 <= a && a <= 127 && 65 <= b && b <= 127 {
            let mut r = String::new();
            r.push(regionalzeichen_von(land[0]));
            r.push(regionalzeichen_von(land[1]));
            assert(r@ == seq![regionalzeichen(land@[0]), regionalzeichen(land@[1])]);
            return r;
        }
    }
    String::from_str("🌍")
}

impl Sprache {
    /// The directories in which the language files are looked for.
    pub fn pfad_sprachdateien(entwicklung: bool) -> (r: Vec<String>)
        ensures
            Seq::new(r@.len(), |i: int| r@[i]@) == sprachpfade(entwicklung),
    {
        let mut r: Vec<String> = Vec::new();
        if entwicklung {
            r.push(String::from_str("../assets/usr/share/emoji-picker/locale/"));
            r.push(String::from_str("./assets/usr/share/emoji-picker/locale/"));
        } else {
            r.push(String::from_str("/usr/share/emoji-picker/locale/"));
        }
        assert(Seq::new(r@.len(), |i: int| r@[i]@) =~= sprachpfade(entwicklung));
        r
    }

    /// The flag that stands for a language code.
    pub fn flagge_fuer_code(code: &str) -> (r: String)
        ensures
            r@ == flagge_von(laendercode(code@)),
    {
        let z = zeichen(code);
        let mut trenner: Vec<char> = Vec::new();
        trenner.push('-');
        trenner.push('_');
        assert(trenner@ == code_trenner());
        let (_, rest) = teile_an(&z, &trenner);
        let land = match rest {
            Some(rest) => {
                let (region, _) = teile_an(&rest, &trenner);
                grossbuchstaben(als_text(&region).as_str())
            },
            None => {
                if gleicher_text(code, "ar") {
                    String::from_str("SA")
                } else if gleicher_text(code, "en") {
                    String::from_str("GB")
                } else {
                    grossbuchstaben(code)
                }
            },
        };
        flagge_aus_laendercode(&zeichen(land.as_str()))
    }

    /// The name of the language of a code, in that language.
    pub fn name_fuer_code(code: &str) -> (r: String)
        ensures
            r@ == name_von(code@),
    {
        if gleicher_text(code, "ar") {
            String::from_str("العربية")
        } else if gleicher_text(code, "da-DK") {
            String::from_str("Dansk")
        } else if gleicher_text(code, "de") {
            String::from_str("Deutsch")
        } else if gleicher_text(code, "en-US") {
            String::from_str("English (US)")
        } else if gleicher_text(code, "en") {
            String::from_str("English (UK)")
        } else if gleicher_text(code, "es") {
            String::from_str("Español")
        } else if gleicher_text(code, "fi") {
            String::from_str("Suomi")
        } else if gleicher_text(code, "fr") {
            String::from_str("Français")
        } else if gleicher_text(code, "it") {
            String::from_str("Italiano")
        } else if gleicher_text(code, "ja-JP") {
            String::from_str("日本語")
        } else if gleicher_text(code, "nb-NO") {
            String::from_str("Norsk Bokmål")
        } else if gleicher_text(code, "nl") {
            String::from_str("Nederlands")
        } else if gleicher_text(code, "pl") {
            String::from_str("Polski")
        } else if gleicher_text(code, "pt-BR") {
            String::from_str("Português (Brasil)")
        } else if gleicher_text(code, "pt") {
            String::from_str("Português (Portugal)")
        } else if gleicher_text(code, "ru") {
            String::from_str("Русский")
        } else if gleicher_text(code, "sv") {
            String::from_str("Svenska")
        } else if gleicher_text(code, "tr") {
            String::from_str("Türkçe")
        } else if gleicher_text(code, "uk-UA") {
            String::from_str("українська")
        } else if gleicher_text(code, "zh-CN") {
            String::from_str("中文")
        } else {
            String::from_str("Sprache: ").concat(code)
        }
    }
}

} // verus!
