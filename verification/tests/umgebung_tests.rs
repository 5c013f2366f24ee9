use emoji_picker::aufruf::{
    fenstergroesse, gitterplatz, hat_argument, muss_kopieren, werte_argumente, Aktion,
};
use emoji_picker::gtk_theme::{
    dunkel_aus, gleiche_schreibweise, kde_ist_dark_mode, waehle_theme,
};
use emoji_picker::i18n::{
    sprache_fuer_datei, sprachcodes, systemsprache, vergleiche_sprachen, vergleiche_texte,
    Reihenfolge, Sprache,
};
use emoji_picker::settings::{
    lade_settings, lies_einstellung, lies_wert, speichere_settings, sprache_aus_einstellungen,
    Einstellungen,
};
use emoji_picker::shortcut::{
    cinnamon_liste, cinnamon_pfad, cinnamon_vorhanden, desktop_aus, detect_desktop, dialogtitel,
    ergebnis_cinnamon, ergebnis_gnome, ergebnis_xfce, freier_schluessel, lies_eintraege,
    listentext, nennt_picker, setup_kde, setup_mate, setup_unbekannt, steht_in, Ausgang, Desktop,
};
use emoji_picker::text::{beginnt_mit, endet_mit, stutze};
use emoji_picker::zahl::{lies_ganzzahl, schreibe_ganzzahl};

fn z(s: &str) -> Vec<char> {
    s.chars().collect()
}

fn zeilen(z: &[&str]) -> Vec<String> {
    z.iter().map(|s| s.to_string()).collect()
}

#[test]
fn stutzen_wie_die_standardbibliothek() {
    for s in ["", " ", "a", "  a b \t", "\u{3000}x\u{a0}", "\n\n", " a", "a "] {
        assert_eq!(stutze(&z(s)), z(s.trim()));
    }
}

#[test]
fn anfang_und_ende() {
    assert!(beginnt_mit(&z("sprache = de"), &z("sprache")));
    assert!(beginnt_mit(&z("sprache"), &z("")));
    assert!(!beginnt_mit(&z("sprach"), &z("sprache")));
    assert!(!beginnt_mit(&z("xsprache"), &z("sprache")));
    assert!(endet_mit(&z("de.json"), &z(".json")));
    assert!(endet_mit(&z(".json"), &z(".json")));
    assert!(!endet_mit(&z("json"), &z(".json")));
    assert!(!endet_mit(&z("de.jsonx"), &z(".json")));
}

#[test]
fn ganzzahlen_lesen_und_schreiben() {
    for s in ["0", "20", "-7", "+7", "007", "2147483647", "-2147483648", "2147483648", "-2147483649", "", "-", "+", "1x", " 1", "99999999999999999999"] {
        assert_eq!(lies_ganzzahl(&z(s)), s.parse::<i32>().ok(), "{}", s);
    }
    for n in [0i32, 1, -1, 20, 100, i32::MAX, i32::MIN] {
        assert_eq!(schreibe_ganzzahl(n), z(&n.to_string()));
    }
}

#[test]
fn einstellungen_lesen() {
    let e = lade_settings(&zeilen(&[
        "[Allgemein]",
        "setup_erledigt = true",
        "fenster_schliessen = false",
        "  fenster_offen_bei_drag=false  ",
        "emoji_size = 34",
        "sprache = de",
    ]));
    assert!(e.setup_erledigt);
    assert!(!e.fenster_schliessen);
    assert!(!e.fenster_offen_bei_drag);
    assert_eq!(e.emoji_size, 34);
    assert_eq!(e.sprache, "de");
}

#[test]
fn einstellungen_ohne_zeilen() {
    let e = lade_settings(&Vec::new());
    assert!(!e.setup_erledigt);
    assert!(e.fenster_schliessen);
    assert!(e.fenster_offen_bei_drag);
    assert_eq!(e.emoji_size, 20);
    assert_eq!(e.sprache, "system");
}

#[test]
fn einstellungen_mit_unlesbaren_werten() {
    let e = lade_settings(&zeilen(&["emoji_size = gross", "setup_erledigt = ja", "sprache", "fenster_schliessen = true = false"]));
    assert_eq!(e.emoji_size, 30);
    assert!(!e.setup_erledigt);
    assert_eq!(e.sprache, "system");
    assert!(e.fenster_schliessen);
    let f = lade_settings(&zeilen(&["emoji_size = 12", "emoji_size = 14", "sprache = a = b"]));
    assert_eq!(f.emoji_size, 14);
    assert_eq!(f.sprache, "a");
}

#[test]
fn eine_zeile_lesen() {
    assert_eq!(lies_wert(&z("a = b")), Some(z("b")));
    assert_eq!(lies_wert(&z("a=b=c")), Some(z("b")));
    assert_eq!(lies_wert(&z("a=")), Some(z("")));
    assert_eq!(lies_wert(&z("a")), None);
    let e = lade_settings(&Vec::new());
    let e = lies_einstellung(e, "  emoji_size =  -5 ");
    assert_eq!(e.emoji_size, -5);
}

#[test]
fn einstellungen_schreiben() {
    let e = Einstellungen {
        setup_erledigt: true,
        fenster_schliessen: false,
        fenster_offen_bei_drag: true,
        emoji_size: 26,
        sprache: "pt-BR".to_string(),
    };
    assert_eq!(
        speichere_settings(&e),
        zeilen(&[
            "[Allgemein]",
            "setup_erledigt = true",
            "fenster_schliessen = false",
            "fenster_offen_bei_drag = true",
            "emoji_size = 26",
            "sprache = pt-BR",
        ])
    );
    let wieder = lade_settings(&speichere_settings(&e));
    assert_eq!(wieder.emoji_size, 26);
    assert_eq!(wieder.sprache, "pt-BR");
    assert!(wieder.setup_erledigt);
    assert!(!wieder.fenster_schliessen);
}

#[test]
fn sprache_in_den_einstellungen() {
    assert_eq!(sprache_aus_einstellungen(&zeilen(&["[Allgemein]", "sprache = de"])), Some("de".to_string()));
    assert_eq!(sprache_aus_einstellungen(&zeilen(&["sprache = system"])), None);
    assert_eq!(
        sprache_aus_einstellungen(&zeilen(&["sprache = system", "  sprache = fr ", "sprache = it"])),
        Some("fr".to_string())
    );
    assert_eq!(sprache_aus_einstellungen(&zeilen(&["sprache"])), None);
    assert_eq!(sprache_aus_einstellungen(&Vec::new()), None);
}

#[test]
fn desktop_erkennen() {
    assert_eq!(detect_desktop(Some("X-Cinnamon")), Desktop::Cinnamon);
    assert_eq!(detect_desktop(Some("XFCE")), Desktop::Xfce);
    assert_eq!(detect_desktop(Some("MATE")), Desktop::Mate);
    assert_eq!(detect_desktop(Some("KDE")), Desktop::Kde);
    assert_eq!(detect_desktop(Some("ubuntu:GNOME")), Desktop::Gnome);
    assert_eq!(detect_desktop(Some("sway")), Desktop::Unbekannt);
    assert_eq!(detect_desktop(Some("")), Desktop::Unbekannt);
    assert_eq!(detect_desktop(None), Desktop::Unbekannt);
    assert_eq!(detect_desktop(Some("gnome-xfce")), Desktop::Xfce);
    assert_eq!(desktop_aus(&z("kde")), Desktop::Kde);
    assert_eq!(desktop_aus(&z("KDE")), Desktop::Unbekannt);
}

#[test]
fn dunkle_themes() {
    assert!(kde_ist_dark_mode("Breeze-Dark"));
    assert!(kde_ist_dark_mode("MidNIGHT"));
    assert!(kde_ist_dark_mode("Film Noir"));
    assert!(kde_ist_dark_mode("Dunkelblau"));
    assert!(kde_ist_dark_mode("Nachtschicht"));
    assert!(kde_ist_dark_mode("SCHWARZ"));
    assert!(!kde_ist_dark_mode("Breeze"));
    assert!(!kde_ist_dark_mode(""));
    assert!(dunkel_aus(&z("dark")));
    assert!(!dunkel_aus(&z("Dark")));
    assert!(gleiche_schreibweise("breeze-dark", "Breeze-Dark"));
    assert!(!gleiche_schreibweise("breeze", "Breeze-Dark"));
    assert_eq!(waehle_theme(Some("Adwaita".to_string()), "breeze-dark"), "Adwaita");
    assert_eq!(waehle_theme(None, "Breeze-Dark"), "Breeze-Dark");
    assert_eq!(waehle_theme(None, "oxygen"), "Breeze");
}

#[test]
fn argumente_lesen() {
    let a = werte_argumente(&zeilen(&["emoji-picker", "--debug", "--lang", "de"]));
    assert!(a.debug);
    assert_eq!(a.sprachcode, Some("de".to_string()));
    assert_eq!(a.aktion, Aktion::Start);
    let b = werte_argumente(&zeilen(&["emoji-picker", "--lang", "de", "--lang", "fr", "--lang"]));
    assert!(!b.debug);
    assert_eq!(b.sprachcode, Some("fr".to_string()));
    let c = werte_argumente(&zeilen(&["emoji-picker", "--lang"]));
    assert_eq!(c.sprachcode, None);
    assert_eq!(werte_argumente(&zeilen(&["x", "-h", "-V", "-S"])).aktion, Aktion::Setup);
    assert_eq!(werte_argumente(&zeilen(&["x", "--help", "--version"])).aktion, Aktion::Version);
    assert_eq!(werte_argumente(&zeilen(&["x", "-h"])).aktion, Aktion::Hilfe);
    assert_eq!(werte_argumente(&zeilen(&["x", "--setup"])).aktion, Aktion::Setup);
    assert_eq!(werte_argumente(&Vec::new()).aktion, Aktion::Start);
    assert!(hat_argument(&zeilen(&["a", "b"]), "b"));
    assert!(!hat_argument(&zeilen(&["a", "b"]), "c"));
}

#[test]
fn kopieren_entscheiden() {
    assert!(muss_kopieren(None, Some(5)));
    assert!(muss_kopieren(Some(4), Some(5)));
    assert!(!muss_kopieren(Some(5), Some(5)));
    assert!(!muss_kopieren(Some(6), Some(5)));
    assert!(!muss_kopieren(Some(6), None));
    assert!(!muss_kopieren(None, None));
}

#[test]
fn gitter_und_fenster() {
    assert_eq!(gitterplatz(0, 14), (0, 0));
    assert_eq!(gitterplatz(13, 14), (0, 13));
    assert_eq!(gitterplatz(14, 14), (1, 0));
    assert_eq!(gitterplatz(44, 15), (2, 14));
    assert_eq!(fenstergroesse(20), Some((312, 400)));
    assert_eq!(fenstergroesse(100), Some((1352, 1200)));
    assert_eq!(fenstergroesse(i32::MAX), None);
    assert_eq!(fenstergroesse(-4), Some((0, 160)));
}

#[test]
fn sprachcodes_aus_der_umgebung() {
    assert_eq!(sprachcodes(Some("de_AT.UTF-8")), zeilen(&["de-AT", "de"]));
    assert_eq!(sprachcodes(Some("de_DE")), zeilen(&["de-DE", "de"]));
    assert_eq!(sprachcodes(Some("fr")), zeilen(&["fr"]));
    assert_eq!(sprachcodes(Some("C.UTF-8")), zeilen(&["C"]));
    assert_eq!(sprachcodes(Some("sr_RS_latin.UTF-8")), zeilen(&["sr-RS", "sr"]));
    assert_eq!(sprachcodes(Some("")), zeilen(&[""]));
    assert_eq!(sprachcodes(None), zeilen(&["en"]));
}

#[test]
fn sprachdateien() {
    let s = sprache_fuer_datei("emoji-picker.pt-BR.json").unwrap();
    assert_eq!(s.code, "pt-BR");
    assert_eq!(s.flagge, "🇧🇷");
    assert_eq!(s.name, "Português (Brasil)");
    let t = sprache_fuer_datei("emoji-picker..json").unwrap();
    assert_eq!(t.code, "");
    assert!(sprache_fuer_datei("emoji-picker.system.json").is_none());
    assert!(sprache_fuer_datei("emoji-picker.de.txt").is_none());
    assert!(sprache_fuer_datei("picker.de.json").is_none());
    assert!(sprache_fuer_datei("emoji-picker.json").is_none());
    let sys = systemsprache();
    assert_eq!(sys.code, "system");
    assert_eq!(sys.flagge, "🌐");
    assert_eq!(sys.name, "System");
}

#[test]
fn sprachen_ordnen() {
    assert_eq!(vergleiche_sprachen("system", "de"), Reihenfolge::Davor);
    assert_eq!(vergleiche_sprachen("de", "system"), Reihenfolge::Danach);
    assert_eq!(vergleiche_sprachen("de", "en"), Reihenfolge::Davor);
    assert_eq!(vergleiche_sprachen("en", "de"), Reihenfolge::Danach);
    assert_eq!(vergleiche_sprachen("en", "en"), Reihenfolge::Gleich);
    assert_eq!(vergleiche_sprachen("en", "en-US"), Reihenfolge::Davor);
    assert_eq!(vergleiche_sprachen("en-US", "en"), Reihenfolge::Danach);
    for (a, b) in [("a", "b"), ("ab", "a"), ("", ""), ("", "a"), ("zh-CN", "uk-UA"), ("é", "z"), ("😀", "é")] {
        let erwartet = if a < b {
            Reihenfolge::Davor
        } else if a > b {
            Reihenfolge::Danach
        } else {
            Reihenfolge::Gleich
        };
        assert_eq!(vergleiche_texte(&z(a), &z(b)), erwartet);
    }
}

#[test]
fn cinnamon_liste_lesen() {
    assert_eq!(cinnamon_liste("['custom0', 'custom1']\n"), zeilen(&["custom0", "custom1"]));
    assert_eq!(cinnamon_liste("@as []\n"), zeilen(&["@as"]));
    assert_eq!(cinnamon_liste("[]\n"), Vec::<String>::new());
    assert_eq!(cinnamon_liste(""), Vec::<String>::new());
    assert_eq!(cinnamon_liste("['a',, 'b' ,'c d']"), zeilen(&["a", "b", "c d"]));
    for raw in ["['custom0', 'custom1']\n", "[]", " 'x' ", "a,b,,c,", ",", "['__dummy__']"] {
        let erwartet: Vec<String> = raw
            .trim_matches(['[', ']', '\n', ' ', '\''].as_ref())
            .split(',')
            .map(|s| s.trim_matches(&['\'', ' '][..]).to_string())
            .filter(|s| !s.is_empty())
            .collect();
        assert_eq!(cinnamon_liste(raw), erwartet, "{}", raw);
    }
    assert_eq!(lies_eintraege(z("a, 'b'")), vec![z("a"), z("b")]);
}

#[test]
fn cinnamon_schluessel_und_liste_schreiben() {
    assert_eq!(freier_schluessel(&Vec::new()), Some("custom0".to_string()));
    assert_eq!(freier_schluessel(&zeilen(&["custom0", "custom1", "custom3"])), Some("custom2".to_string()));
    assert_eq!(freier_schluessel(&zeilen(&["custom1"])), Some("custom0".to_string()));
    let mut alle: Vec<String> = Vec::new();
    for i in 0..49usize {
        alle.push(format!("custom{}", i));
    }
    assert_eq!(freier_schluessel(&alle), Some("custom49".to_string()));
    alle.push("custom49".to_string());
    assert_eq!(freier_schluessel(&alle), None);
    assert_eq!(listentext(&Vec::new()), "[]");
    assert_eq!(listentext(&zeilen(&["custom0"])), "['custom0']");
    assert_eq!(listentext(&zeilen(&["custom0", "custom1", "x"])), "['custom0', 'custom1', 'x']");
    assert!(steht_in(&zeilen(&["a", "b"]), &"b".to_string()));
    assert!(!steht_in(&zeilen(&["a", "b"]), &"c".to_string()));
    assert!(nennt_picker("'emoji-picker'\n"));
    assert!(!nennt_picker("'emoji picker'\n"));
    assert_eq!(
        cinnamon_pfad("custom3"),
        "org.cinnamon.desktop.keybindings.custom-keybinding:/org/cinnamon/desktop/keybindings/custom-keybindings/custom3/"
    );
}

fn sprachpaket() -> Sprache {
    let t = |s: &str| s.to_string();
    Sprache {
        title: t("title"),
        settings_window: t("settings_window"),
        setup_done: t("done"),
        setup_done_cinna: t("done_cinna"),
        setup_fail: t("fail"),
        setup_fail_text: t("fail_text"),
        setup_not_available: t("not_available"),
        set_desk_unknown: t("unknown"),
        setup_exists: t("exists"),
        setup_done_xfce_gno: t("done_xfce_gno"),
        setup_fail_xfce_1: t("fail_xfce_1"),
        setup_fail_xfce_2: t("fail_xfce_2"),
        search_placeholder: t(""),
        set_key: t(""),
        set_key_tooltip: t(""),
        close_window_get: t(""),
        close_window_dnd: t(""),
        emoji_size: t(""),
        hist_reset: t(""),
        label_language: t(""),
        button_cancel: t(""),
        button_ok: t(""),
        debug_main_time_loading_language: t(""),
        debug_main_list_fail_to_copy: t(""),
        debug_main_list_copy_from_etc: t(""),
        debug_main_list_new_history: t(""),
        debug_main_time_css_loading: t(""),
        debug_main_settings_infofenster: t(""),
        debug_main_time_copy_from_etc: t(""),
        debug_main_time_emojis_load: t(""),
        debug_main_time_searchindex: t(""),
        debug_main_time_categorize_emoji: t(""),
        debug_main_time_to_searchfield: t(""),
        debug_main_time_set_window_keys: t(""),
        debug_main_time_info_window: t(""),
        debug_main_time_create_ui: t(""),
        debug_emoji_tabs_use_css: t(""),
        debug_emoji_tabs_css_failure: t(""),
        debug_shortcut_set_info_window: t(""),
        debug_shortcut_apply_gsettings_error: t(""),
        debug_shortcut_cinna_already_done: t(""),
        debug_gtk_theme_kde_gtk_theme: t(""),
        debug_gtk_theme_kde_gtk_fallback: t(""),
        debug_gtk_theme_kde_set_gtk_theme: t(""),
        debug_gtk_theme_kde_no_gtk_theme: t(""),
        debug_gtk_theme_kde_determinded_theme: t(""),
        debug_gtk_theme_kde_theme_folder: t(""),
        debug_gtk_theme_kde_darkmode_aktiv: t(""),
    }
}

#[test]
fn berichte() {
    let s = sprachpaket();
    let m = setup_mate(&s);
    assert_eq!((m.desktop.as_str(), m.erfolg, m.meldung.as_str()), ("MATE", false, "not_available"));
    let k = setup_kde(&s);
    assert_eq!((k.desktop.as_str(), k.erfolg, k.meldung.as_str()), ("KDE", false, "not_available"));
    let u = setup_unbekannt(&s);
    assert_eq!((u.desktop.as_str(), u.erfolg, u.meldung.as_str()), ("Unbekannt", false, "unknown"));
    let g = ergebnis_gnome(true, &s);
    assert_eq!((g.desktop.as_str(), g.erfolg, g.meldung.as_str()), ("GNOME", true, "done_xfce_gno"));
    let g = ergebnis_gnome(false, &s);
    assert_eq!((g.desktop.as_str(), g.erfolg, g.meldung.as_str()), ("GNOME", false, "fail_text"));
    let c = ergebnis_cinnamon(true, &s);
    assert_eq!((c.desktop.as_str(), c.erfolg, c.meldung.as_str()), ("Cinnamon", true, "done_cinna"));
    let c = ergebnis_cinnamon(false, &s);
    assert_eq!((c.desktop.as_str(), c.erfolg, c.meldung.as_str()), ("Cinnamon", false, "fail_text"));
    let v = cinnamon_vorhanden(&s);
    assert_eq!((v.desktop.as_str(), v.erfolg, v.meldung.as_str()), ("Cinnamon", true, "exists"));
    let x = ergebnis_xfce(Ausgang::Erfolg, &s);
    assert_eq!((x.desktop.as_str(), x.erfolg, x.meldung.as_str()), ("XFCE", true, "done_xfce_gno"));
    let x = ergebnis_xfce(Ausgang::Fehlschlag(-1), &s);
    assert_eq!((x.erfolg, x.meldung.as_str()), (false, "fail_xfce_1 – exit code: -1"));
    let x = ergebnis_xfce(Ausgang::NichtGestartet("not found".to_string()), &s);
    assert_eq!((x.erfolg, x.meldung.as_str()), (false, "fail_xfce_2 xfconf-query: not found"));
    assert_eq!(dialogtitel(&x, &s), "XFCE - fail");
    assert_eq!(dialogtitel(&v, &s), "Cinnamon - done");
}
