use emoji_picker::emoji_tabs::Symbol;
use emoji_picker::suchlogik::{
    passt, passt_symbol, suche, suche_treffer, Entprellung, Suchergebnis, Zustand,
};

fn symbol(emoji: &str, begriffe: &[&str]) -> Symbol {
    Symbol {
        emoji: emoji.to_string(),
        begriffe: begriffe.iter().map(|b| b.to_string()).collect(),
        zaehler: 0,
    }
}

fn z(s: &str) -> Vec<char> {
    s.chars().collect()
}

fn zz(s: &[&str]) -> Vec<Vec<char>> {
    s.iter().map(|x| x.chars().collect()).collect()
}

fn treffer(index: &Vec<Symbol>, eingabe: &str) -> Vec<String> {
    match suche(index, eingabe) {
        Suchergebnis::Treffer(t) => t.iter().map(|s| s.emoji.clone()).collect(),
        Suchergebnis::KeineSuche => panic!("keine Suche"),
    }
}

#[test]
fn benachbarte_begriffe_passen_zusammen() {
    let index = vec![symbol("👍", &["thumbs", "up"]), symbol("👎", &["thumb", "down"])];
    assert_eq!(treffer(&index, "thumbsup"), vec!["👍"]);
    assert_eq!(treffer(&index, "thumbs up"), vec!["👍"]);
    assert_eq!(treffer(&index, "up"), vec!["👍"]);
    assert_eq!(treffer(&index, "thumb"), vec!["👍", "👎"]);
    assert_eq!(treffer(&index, "down thumb"), vec!["👎"]);
    assert!(treffer(&index, "sideways").is_empty());
}

#[test]
fn suche_gibt_hoechstens_hundert_in_indexreihenfolge() {
    let mut index: Vec<Symbol> = Vec::new();
    for i in 0..250usize {
        index.push(symbol(&format!("s{}", i), &["a"]));
    }
    let t = treffer(&index, "a");
    assert_eq!(t.len(), 100);
    for i in 0..100usize {
        assert_eq!(t[i], format!("s{}", i));
    }
}

#[test]
fn suche_uebergeht_was_nicht_passt() {
    let mut index: Vec<Symbol> = Vec::new();
    for i in 0..300usize {
        index.push(symbol(&format!("s{}", i), &[if i % 2 == 0 { "gerade" } else { "ungerade" }]));
    }
    let t = treffer(&index, "unger");
    assert_eq!(t.len(), 100);
    for i in 0..100usize {
        assert_eq!(t[i], format!("s{}", 2 * i + 1));
    }
    let mut wenige: Vec<Symbol> = Vec::new();
    for i in 0..99usize {
        wenige.push(symbol(&format!("s{}", i), &["a"]));
    }
    assert_eq!(treffer(&wenige, "a").len(), 99);
}

#[test]
fn leere_eingabe_ist_keine_suche() {
    let index = vec![symbol("👍", &["thumbs", "up"])];
    assert!(matches!(suche(&index, ""), Suchergebnis::KeineSuche));
    assert!(matches!(suche(&index, "   "), Suchergebnis::KeineSuche));
    assert!(matches!(suche(&index, "\t\n\u{a0}\u{3000}"), Suchergebnis::KeineSuche));
    assert!(matches!(suche(&index, " x "), Suchergebnis::Treffer(_)));
}

#[test]
fn eingabe_wird_klein_geschrieben() {
    let index = vec![symbol("👍", &["thumbs", "up"]), symbol("🍏", &["äpfel"])];
    assert_eq!(treffer(&index, "THUMBS"), vec!["👍"]);
    assert_eq!(treffer(&index, "  Thumbs   UP "), vec!["👍"]);
    assert_eq!(treffer(&index, "ÄPFEL"), vec!["🍏"]);
}

#[test]
fn grosse_begriffe_passen_ueber_ihre_kleine_form() {
    let s = symbol("👍", &["Thumbs", "Up"]);
    assert!(passt_symbol(&s, &z("thumbsup"), &zz(&["thumbsup"])));
    assert!(passt_symbol(&s, &z("umbs"), &zz(&["umbs"])));
    let einzeln = symbol("👍", &["Thumbs"]);
    assert!(passt_symbol(&einzeln, &z("thumbs"), &zz(&["thumbs"])));
    assert!(!passt_symbol(&einzeln, &z("up"), &zz(&["up"])));
}

#[test]
fn die_drei_wege_einzeln() {
    let leer: Vec<Vec<char>> = Vec::new();
    assert!(passt(&zz(&["x"]), &z("abcdef"), &leer, &z("cde"), &zz(&["cde"])));
    assert!(passt(&zz(&["rot", "blau"]), &z("-"), &leer, &z("blaurot"), &zz(&["blau", "rot"])));
    assert!(passt(&zz(&["x"]), &z("-"), &zz(&["ab", "cd", "ef"]), &z("bcde"), &zz(&["bcde"])));
    assert!(passt(&zz(&["x"]), &z("-"), &zz(&["ab", "cd", "ef"]), &z("cdef"), &zz(&["cdef"])));
    assert!(!passt(&zz(&["x"]), &z("-"), &zz(&["abcd"]), &z("bc"), &zz(&["bc"])));
    assert!(!passt(&zz(&["x"]), &z("-"), &zz(&["ab", "cd"]), &z("ba"), &zz(&["ba"])));
    assert!(!passt(&zz(&["rot", "blau"]), &z("-"), &leer, &z("rotgelb"), &zz(&["rot", "gelb"])));
}

#[test]
fn treffer_zu_fertiger_anfrage() {
    let index = vec![symbol("a", &["eins"]), symbol("b", &["zwei"]), symbol("c", &["eins", "zwei"])];
    let t = suche_treffer(&index, &z("zwei"), &zz(&["zwei"]));
    let namen: Vec<String> = t.iter().map(|s| s.emoji.clone()).collect();
    assert_eq!(namen, vec!["b", "c"]);
}

#[test]
fn viele_eingaben_eine_ausfuehrung() {
    let index = vec![symbol("👍", &["thumbs", "up"]), symbol("👎", &["thumb", "down"])];
    let mut e = Entprellung::neu();
    assert_eq!(e.zustand, Zustand::Ruhend);
    let mut geplant: usize = 0;
    for _ in 0..7 {
        if e.eingabe_geaendert() {
            geplant += 1;
        }
        assert_eq!(e.zustand, Zustand::Ausstehend);
    }
    assert_eq!(geplant, 1);
    let r = e.ausfuehren(&index, "down");
    assert_eq!(e.zustand, Zustand::Ruhend);
    match r {
        Suchergebnis::Treffer(t) => {
            assert_eq!(t.len(), 1);
            assert_eq!(t[0].emoji, "👎");
        }
        Suchergebnis::KeineSuche => panic!("keine Suche"),
    }
    assert!(e.eingabe_geaendert());
    assert!(!e.eingabe_geaendert());
    assert!(matches!(e.ausfuehren(&index, "  "), Suchergebnis::KeineSuche));
    assert_eq!(e.zustand, Zustand::Ruhend);
}
