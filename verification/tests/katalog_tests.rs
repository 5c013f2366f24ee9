use emoji_picker::emoji_tabs::{lade_emojies, lies_zeile, schreibe_zeile, speichere_emojies, Symbol};
use emoji_picker::katalog::{
    erstelle_suchindex, erstelle_tabs, finde_fundstelle, finde_kategorie, finde_symbol,
    ist_verlauf, leere_history_tab, nutzungshinweis, setze_zurueck,
    speichere_kategorie, speichere_kopiere_und_schliesse, Katalog, Kategoriedatei, Nutzungsfehler,
};
use emoji_picker::text::gleicher_text;
use emoji_picker::verlauf::generiere_history_kategorie;

fn symbol(emoji: &str, begriffe: &[&str], zaehler: usize) -> Symbol {
    Symbol {
        emoji: emoji.to_string(),
        begriffe: begriffe.iter().map(|b| b.to_string()).collect(),
        zaehler,
    }
}

fn zeilen(z: &[&str]) -> Vec<String> {
    z.iter().map(|s| s.to_string()).collect()
}

fn emojis(s: &[Symbol]) -> Vec<String> {
    s.iter().map(|x| x.emoji.clone()).collect()
}

fn zaehler(s: &[Symbol]) -> Vec<usize> {
    s.iter().map(|x| x.zaehler).collect()
}

fn katalog(teile: Vec<(&str, Vec<Symbol>)>) -> Katalog {
    let mut k = Katalog::neu();
    for (name, symbole) in teile {
        k.setze_kategorie(name.to_string(), symbole);
    }
    k
}

#[test]
fn zeile_ohne_zaehler() {
    let s = lies_zeile("😀 grin smile").unwrap();
    assert_eq!(s.emoji, "😀");
    assert_eq!(s.begriffe, vec!["grin".to_string(), "smile".to_string()]);
    assert_eq!(s.zaehler, 0);
}

#[test]
fn zeile_mit_zaehler() {
    let s = lies_zeile("☺️ 12: lächeln grinsen").unwrap();
    assert_eq!(s.emoji, "☺️");
    assert_eq!(s.begriffe, vec!["lächeln".to_string(), "grinsen".to_string()]);
    assert_eq!(s.zaehler, 12);
}

#[test]
fn zeile_mit_pluszeichen_und_fuehrenden_nullen() {
    assert_eq!(lies_zeile("😀 +5: a").unwrap().zaehler, 5);
    assert_eq!(lies_zeile("😀 007: a").unwrap().zaehler, 7);
    assert_eq!(lies_zeile("😀 0: a").unwrap().zaehler, 0);
    assert_eq!(lies_zeile("😀 0: a").unwrap().begriffe, vec!["a".to_string()]);
}

#[test]
fn zeile_mit_unlesbarem_zaehler_behaelt_das_wort() {
    let s = lies_zeile("😀 abc: x").unwrap();
    assert_eq!(s.zaehler, 0);
    assert_eq!(s.begriffe, vec!["abc:".to_string(), "x".to_string()]);
    let t = lies_zeile("😀 : x").unwrap();
    assert_eq!(t.zaehler, 0);
    assert_eq!(t.begriffe, vec![":".to_string(), "x".to_string()]);
    let u = lies_zeile("😀 -3: x").unwrap();
    assert_eq!(u.zaehler, 0);
    assert_eq!(u.begriffe, vec!["-3:".to_string(), "x".to_string()]);
    let v = lies_zeile("😀 +: x").unwrap();
    assert_eq!(v.zaehler, 0);
    assert_eq!(v.begriffe, vec!["+:".to_string(), "x".to_string()]);
}

#[test]
fn zeile_mit_zu_grossem_zaehler_behaelt_das_wort() {
    let s = lies_zeile("😀 99999999999999999999999999: x").unwrap();
    assert_eq!(s.zaehler, 0);
    assert_eq!(s.begriffe, vec!["99999999999999999999999999:".to_string(), "x".to_string()]);
}

#[test]
fn zeile_mit_groesstem_zaehler() {
    let zeile = format!("😀 {}: x", usize::MAX);
    let s = lies_zeile(&zeile).unwrap();
    assert_eq!(s.zaehler, usize::MAX);
    assert_eq!(s.begriffe, vec!["x".to_string()]);
}

#[test]
fn zeile_nur_mit_glyphe() {
    let s = lies_zeile("😀").unwrap();
    assert_eq!(s.emoji, "😀");
    assert!(s.begriffe.is_empty());
    assert_eq!(s.zaehler, 0);
    let t = lies_zeile("😀 4:").unwrap();
    assert!(t.begriffe.is_empty());
    assert_eq!(t.zaehler, 4);
}

#[test]
fn leere_zeilen_geben_kein_symbol() {
    assert!(lies_zeile("").is_none());
    assert!(lies_zeile("   \t ").is_none());
    assert!(lies_zeile("\u{3000}\u{a0}").is_none());
}

#[test]
fn begriffe_werden_klein_geschrieben() {
    let s = lies_zeile("😀 GRIN Lächeln ÄRGER").unwrap();
    assert_eq!(
        s.begriffe,
        vec!["grin".to_string(), "lächeln".to_string(), "ärger".to_string()]
    );
    let t = lies_zeile("😀 3: GRIN").unwrap();
    assert_eq!(t.begriffe, vec!["grin".to_string()]);
}

#[test]
fn mehrfacher_leerraum_trennt_wie_einer() {
    let s = lies_zeile("  😀 \t 2:   a \u{2003} b  ").unwrap();
    assert_eq!(s.emoji, "😀");
    assert_eq!(s.zaehler, 2);
    assert_eq!(s.begriffe, vec!["a".to_string(), "b".to_string()]);
}

#[test]
fn laden_ueberspringt_leere_zeilen_und_haelt_die_reihenfolge() {
    let s = lade_emojies(&zeilen(&["😀 a", "", "😁 2: b", "   ", "😂"]));
    assert_eq!(emojis(&s), vec!["😀", "😁", "😂"]);
    assert_eq!(zaehler(&s), vec![0, 2, 0]);
}

#[test]
fn zeile_schreiben() {
    assert_eq!(schreibe_zeile(&symbol("😀", &["grin", "smile"], 0)), "😀 grin smile");
    assert_eq!(schreibe_zeile(&symbol("😀", &["grin", "smile"], 3)), "😀 3: grin smile");
    assert_eq!(schreibe_zeile(&symbol("😀", &[], 0)), "😀 ");
    assert_eq!(schreibe_zeile(&symbol("😀", &[], 120)), "😀 120: ");
    assert_eq!(schreibe_zeile(&symbol("😀", &["a"], 1)), "😀 1: a");
}

#[test]
fn rundreise_ohne_nutzung() {
    let s = vec![
        symbol("😀", &["grin", "smile"], 0),
        symbol("👍", &["thumbs", "up"], 0),
        symbol("🏳", &[], 0),
    ];
    let geladen = lade_emojies(&speichere_emojies(&s));
    assert_eq!(geladen.len(), 3);
    for i in 0..3 {
        assert_eq!(geladen[i].emoji, s[i].emoji);
        assert_eq!(geladen[i].begriffe, s[i].begriffe);
        assert_eq!(geladen[i].zaehler, 0);
    }
}

#[test]
fn rundreise_mit_nutzung() {
    let s = vec![
        symbol("😀", &["grin", "smile"], 1),
        symbol("👍", &["thumbs", "up"], 4711),
        symbol("🏳", &[], usize::MAX),
    ];
    let geladen = lade_emojies(&speichere_emojies(&s));
    assert_eq!(geladen.len(), 3);
    for i in 0..3 {
        assert_eq!(geladen[i].emoji, s[i].emoji);
        assert_eq!(geladen[i].begriffe, s[i].begriffe);
        assert_eq!(geladen[i].zaehler, s[i].zaehler);
    }
}

#[test]
fn speichern_nach_laden_gibt_dieselben_zeilen() {
    let z = zeilen(&["😀 3: grin smile", "👍 thumbs up"]);
    assert_eq!(speichere_emojies(&lade_emojies(&z)), z);
}

#[test]
fn ein_erstes_wort_wie_ein_zaehler_wird_als_zaehler_gelesen() {
    let s = vec![symbol("😀", &["5:", "x"], 0)];
    let geladen = lade_emojies(&speichere_emojies(&s));
    assert_eq!(geladen[0].zaehler, 5);
    assert_eq!(geladen[0].begriffe, vec!["x".to_string()]);
}

#[test]
fn nutzung_zaehlt_mit_hinweis() {
    let mut k = katalog(vec![
        ("smileys.list", vec![symbol("😀", &["grin"], 0), symbol("😁", &["beam"], 2)]),
        ("gestures.list", vec![symbol("👍", &["thumbs", "up"], 0)]),
    ]);
    let a = speichere_kopiere_und_schliesse("😁", &mut k, Some("smileys.list")).unwrap();
    assert_eq!(a.datei, "smileys.list");
    assert_eq!(a.zeilen, zeilen(&["😀 grin", "😁 3: beam"]));
    assert_eq!(a.begriffe, vec!["beam".to_string()]);
    assert_eq!(k.kategorien[0].symbole[1].zaehler, 3);
    assert_eq!(k.kategorien[0].symbole[0].zaehler, 0);
    assert_eq!(k.kategorien[1].symbole[0].zaehler, 0);
}

#[test]
fn nutzung_zaehlt_ohne_hinweis_in_der_ersten_kategorie_mit_der_glyphe() {
    let mut k = katalog(vec![
        ("a.list", vec![symbol("😀", &["grin"], 0)]),
        ("b.list", vec![symbol("👍", &["up"], 7), symbol("👍", &["zwei"], 0)]),
        ("c.list", vec![symbol("👍", &["drei"], 0)]),
    ]);
    let a = speichere_kopiere_und_schliesse("👍", &mut k, None).unwrap();
    assert_eq!(a.datei, "b.list");
    assert_eq!(a.zeilen, zeilen(&["👍 8: up", "👍 zwei"]));
    assert_eq!(k.kategorien[1].symbole[0].zaehler, 8);
    assert_eq!(k.kategorien[1].symbole[1].zaehler, 0);
    assert_eq!(k.kategorien[2].symbole[0].zaehler, 0);
}

#[test]
fn wiederholte_nutzung_zaehlt_jedes_mal() {
    let mut k = katalog(vec![("a.list", vec![symbol("😀", &["grin"], 0)])]);
    for n in 1..=5usize {
        speichere_kopiere_und_schliesse("😀", &mut k, None).unwrap();
        assert_eq!(k.kategorien[0].symbole[0].zaehler, n);
    }
}

#[test]
fn nutzung_ohne_fundstelle() {
    let mut k = katalog(vec![
        ("a.list", vec![symbol("😀", &["grin"], 1)]),
        ("b.list", vec![symbol("👍", &["up"], 2)]),
    ]);
    let r = speichere_kopiere_und_schliesse("🦀", &mut k, None);
    assert_eq!(r.err(), Some(Nutzungsfehler::NichtGefunden));
    let r = speichere_kopiere_und_schliesse("😀", &mut k, Some("fehlt.list"));
    assert_eq!(r.err(), Some(Nutzungsfehler::NichtGefunden));
    let r = speichere_kopiere_und_schliesse("😀", &mut k, Some("b.list"));
    assert_eq!(r.err(), Some(Nutzungsfehler::NichtGefunden));
    assert_eq!(k.kategorien[0].symbole[0].zaehler, 1);
    assert_eq!(k.kategorien[1].symbole[0].zaehler, 2);
}

#[test]
fn nutzung_bei_vollem_zaehler() {
    let mut k = katalog(vec![("a.list", vec![symbol("😀", &["grin"], usize::MAX)])]);
    let r = speichere_kopiere_und_schliesse("😀", &mut k, None);
    assert_eq!(r.err(), Some(Nutzungsfehler::ZaehlerVoll));
    assert_eq!(k.kategorien[0].symbole[0].zaehler, usize::MAX);
}

#[test]
fn fundstelle_finden() {
    let k = katalog(vec![
        ("a.list", vec![symbol("😀", &[], 0), symbol("😁", &[], 0)]),
        ("b.list", vec![symbol("😁", &[], 0)]),
    ]);
    assert_eq!(finde_fundstelle(&k, "😁", None), Some((0, 1)));
    assert_eq!(finde_fundstelle(&k, "😁", Some("b.list")), Some((1, 0)));
    assert_eq!(finde_fundstelle(&k, "😀", Some("b.list")), None);
    assert_eq!(finde_fundstelle(&k, "🦀", None), None);
}

#[test]
fn verlauf_ordnung_und_auswahl() {
    let k = katalog(vec![
        ("a.list", vec![symbol("a", &[], 5), symbol("b", &[], 3)]),
        ("b.list", vec![symbol("c", &[], 3), symbol("d", &[], 0), symbol("e", &[], 8)]),
    ]);
    let v = generiere_history_kategorie(&k);
    assert_eq!(zaehler(&v), vec![8, 5, 3, 3]);
    assert_eq!(emojis(&v), vec!["e", "a", "b", "c"]);
}

#[test]
fn verlauf_hoechstens_hundert() {
    let mut symbole: Vec<Symbol> = Vec::new();
    for i in 0..150usize {
        symbole.push(symbol(&format!("s{}", i), &["x"], 1));
    }
    let k = katalog(vec![("a.list", symbole)]);
    let v = generiere_history_kategorie(&k);
    assert_eq!(v.len(), 100);
    for i in 0..100usize {
        assert_eq!(v[i].emoji, format!("s{}", i));
        assert_eq!(v[i].zaehler, 1);
    }
}

#[test]
fn verlauf_behaelt_die_hundert_meistgenutzten() {
    let mut symbole: Vec<Symbol> = Vec::new();
    for i in 0..150usize {
        symbole.push(symbol(&format!("s{}", i), &["x"], i + 1));
    }
    let k = katalog(vec![("a.list", symbole)]);
    let v = generiere_history_kategorie(&k);
    assert_eq!(v.len(), 100);
    for i in 0..100usize {
        assert_eq!(v[i].zaehler, 150 - i);
    }
}

#[test]
fn verlauf_uebergeht_die_verlaufskategorie() {
    let k = katalog(vec![
        ("🕓", vec![symbol("alt", &[], 99)]),
        ("a.list", vec![symbol("a", &[], 1)]),
    ]);
    let v = generiere_history_kategorie(&k);
    assert_eq!(emojis(&v), vec!["a"]);
}

#[test]
fn verlauf_ohne_nutzung_ist_leer() {
    let k = katalog(vec![("a.list", vec![symbol("a", &[], 0)])]);
    assert!(generiere_history_kategorie(&k).is_empty());
    assert!(generiere_history_kategorie(&Katalog::neu()).is_empty());
}

#[test]
fn suchindex_in_katalogreihenfolge_ohne_verlauf() {
    let k = katalog(vec![
        ("a.list", vec![symbol("a", &[], 1), symbol("b", &[], 0)]),
        ("🕓", vec![symbol("a", &[], 1)]),
        ("b.list", vec![symbol("c", &[], 0)]),
    ]);
    let index = erstelle_suchindex(&k);
    assert_eq!(emojis(&index), vec!["a", "b", "c"]);
    assert_eq!(zaehler(&index), vec![1, 0, 0]);
}

#[test]
fn verlauf_leeren() {
    let mut k = katalog(vec![
        ("a.list", vec![symbol("a", &["x"], 5), symbol("b", &["y", "z"], 0)]),
        ("b.list", vec![symbol("c", &[], 3)]),
    ]);
    let verlauf = generiere_history_kategorie(&k);
    k.setze_kategorie("🕓".to_string(), verlauf);
    assert_eq!(k.kategorien[2].symbole.len(), 2);
    let dateien = leere_history_tab(&mut k);
    assert_eq!(dateien.len(), 3);
    assert_eq!(dateien[0].datei, "a.list");
    assert_eq!(dateien[0].zeilen, zeilen(&["a x", "b y z"]));
    assert_eq!(dateien[1].datei, "b.list");
    assert_eq!(dateien[1].zeilen, zeilen(&["c "]));
    assert_eq!(dateien[2].datei, "🕓");
    assert!(dateien[2].zeilen.is_empty());
    for kategorie in &k.kategorien {
        for s in &kategorie.symbole {
            assert_eq!(s.zaehler, 0);
        }
    }
    assert!(k.kategorien[2].symbole.is_empty());
    assert_eq!(emojis(&k.kategorien[0].symbole), vec!["a", "b"]);
    assert_eq!(k.kategorien[0].symbole[1].begriffe, vec!["y".to_string(), "z".to_string()]);
    assert!(generiere_history_kategorie(&k).is_empty());
}

#[test]
fn katalog_aus_dateien() {
    let quellen = vec![
        Kategoriedatei { datei: "a.list".to_string(), zeilen: zeilen(&["😀 2: Grin", ""]) },
        Kategoriedatei { datei: "b.list".to_string(), zeilen: zeilen(&["👍 up"]) },
        Kategoriedatei { datei: "leer.list".to_string(), zeilen: Vec::new() },
    ];
    let k = erstelle_tabs(&quellen);
    assert_eq!(k.kategorien.len(), 3);
    assert_eq!(k.kategorien[0].kennung, "a.list");
    assert_eq!(k.kategorien[0].symbole[0].begriffe, vec!["grin".to_string()]);
    assert_eq!(k.kategorien[0].symbole[0].zaehler, 2);
    assert_eq!(k.kategorien[1].kennung, "b.list");
    assert!(k.kategorien[2].symbole.is_empty());
}

#[test]
fn katalog_aus_dateien_uebergeht_den_verlauf_und_ersetzt_doppelte() {
    let quellen = vec![
        Kategoriedatei { datei: "a.list".to_string(), zeilen: zeilen(&["😀 grin"]) },
        Kategoriedatei { datei: "🕓".to_string(), zeilen: zeilen(&["😀 9: grin"]) },
        Kategoriedatei { datei: "b.list".to_string(), zeilen: zeilen(&["👍 up"]) },
        Kategoriedatei { datei: "a.list".to_string(), zeilen: zeilen(&["😁 beam"]) },
    ];
    let k = erstelle_tabs(&quellen);
    assert_eq!(k.kategorien.len(), 2);
    assert_eq!(k.kategorien[0].kennung, "a.list");
    assert_eq!(emojis(&k.kategorien[0].symbole), vec!["😁"]);
    assert_eq!(k.kategorien[1].kennung, "b.list");
}

#[test]
fn gleiche_kennung_ersetzt_die_kategorie() {
    let mut k = katalog(vec![
        ("a.list", vec![symbol("a", &[], 0)]),
        ("b.list", vec![symbol("b", &[], 0)]),
    ]);
    k.setze_kategorie("a.list".to_string(), vec![symbol("neu", &[], 1)]);
    assert_eq!(k.kategorien.len(), 2);
    assert_eq!(k.kategorien[0].kennung, "a.list");
    assert_eq!(emojis(&k.kategorien[0].symbole), vec!["neu"]);
    assert_eq!(k.kategorien[1].kennung, "b.list");
}

#[test]
fn symbol_kopieren() {
    let s = symbol("😀", &["grin", "smile"], 9);
    let t = s.clone();
    assert_eq!(t.emoji, "😀");
    assert_eq!(t.begriffe, vec!["grin".to_string(), "smile".to_string()]);
    assert_eq!(t.zaehler, 9);
}

#[test]
fn kategorie_schreiben() {
    let k = katalog(vec![
        ("a.list", vec![symbol("a", &["x"], 5), symbol("b", &["y", "z"], 0)]),
        ("b.list", vec![]),
    ]);
    let d = speichere_kategorie(&k, "a.list").unwrap();
    assert_eq!(d.datei, "a.list");
    assert_eq!(d.zeilen, zeilen(&["a 5: x", "b y z"]));
    let e = speichere_kategorie(&k, "b.list").unwrap();
    assert!(e.zeilen.is_empty());
    assert!(speichere_kategorie(&k, "c.list").is_none());
}

#[test]
fn kategorien_finden() {
    let k = katalog(vec![("a.list", vec![symbol("a", &[], 0)]), ("b.list", vec![])]);
    assert_eq!(finde_kategorie(&k, "b.list"), Some(1));
    assert_eq!(finde_kategorie(&k, "c.list"), None);
    assert_eq!(finde_symbol(&k.kategorien[0].symbole, "a"), Some(0));
    assert_eq!(finde_symbol(&k.kategorien[0].symbole, "b"), None);
    assert!(ist_verlauf("🕓"));
    assert_eq!(nutzungshinweis("🕓"), None);
    assert_eq!(nutzungshinweis("a.list"), Some("a.list".to_string()));
    assert!(!ist_verlauf("a.list"));
    assert!(gleicher_text("aß", "aß"));
    assert!(!gleicher_text("a", "A"));
    let mut s = vec![symbol("a", &["x"], 3), symbol("b", &[], 0)];
    setze_zurueck(&mut s);
    assert_eq!(zaehler(&s), vec![0, 0]);
    assert_eq!(s[0].begriffe, vec!["x".to_string()]);
}
