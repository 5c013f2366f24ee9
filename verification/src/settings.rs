//! The settings of the program and the lines in which they are kept.

use vstd::prelude::*;
use crate::emoji_tabs::zeilen_sicht;
use crate::text::{
    als_text, beginnt_mit, faengt_an, gestutzt, gleicher_text, nach_trenner, stutze, teile_an,
    vor_trenner, zeichen,
};
use crate::zahl::{ganzzahl_text, ganzzahlwert, lies_ganzzahl, schreibe_ganzzahl};

verus! {

/// What the user has set.
#[derive(Debug, Clone)]
pub struct Einstellungen {
    pub setup_erledigt: bool,
    pub fenster_schliessen: bool,
    pub fenster_offen_bei_drag: bool,
    pub emoji_size: i32,
    pub sprache: String,
}

/// What an `Einstellungen` stands for.
pub struct EinstellungenSicht {
    pub setup_erledigt: bool,
    pub fenster_schliessen: bool,
    pub fenster_offen_bei_drag: bool,
    pub emoji_size: int,
    pub sprache: Seq<char>,
}

impl View for Einstellungen {
    type V = EinstellungenSicht;

    open spec fn view(&self) -> EinstellungenSicht {
        EinstellungenSicht {
            setup_erledigt: self.setup_erledigt,
            fenster_schliessen: self.fenster_schliessen,
            fenster_offen_bei_drag: self.fenster_offen_bei_drag,
            emoji_size: self.emoji_size as int,
            sprache: self.sprache@,
        }
    }
}

/// The settings of a program that was never set up.
pub open spec fn grundeinstellungen() -> EinstellungenSicht {
    EinstellungenSicht {
        setup_erledigt: false,
        fenster_schliessen: true,
        fenster_offen_bei_drag: true,
        emoji_size: 20,
        sprache: "system"@,
    }
}

/// The value that a line gives: what stands between its first and its
/// second equals sign, or after the first where there is no second,
/// without the white space at its ends. A line without an equals sign
/// gives none.
pub open spec fn wert_der_zeile(zeile: Seq<char>) -> Option<Seq<char>> {
    match nach_trenner(zeile, seq!['=']) {
        Some(rest) => Some(gestutzt(vor_trenner(rest, seq!['=']))),
        None => None,
    }
}

/// The size that a value states; thirty where it states no whole number.
pub open spec fn groesse_aus(wert: Seq<char>) -> int {
    match ganzzahlwert(wert) {
        Some(n) => n,
        None => 30,
    }
}

/// The settings after one more line was read. A line that, without the
/// white space at its ends, begins with the name of a setting and gives a
/// value sets it; any other line changes nothing.
pub open spec fn mit_zeile(e: EinstellungenSicht, roh: Seq<char>) -> EinstellungenSicht {
    let zeile = gestutzt(roh);
    match wert_der_zeile(zeile) {
        None => e,
        Some(w) => EinstellungenSicht {
            setup_erledigt: if faengt_an(zeile, "setup_erledigt"@) {
                w == "true"@
            } else {
                e.setup_erledigt
            },
            fenster_schliessen: if faengt_an(zeile, "fenster_schliessen"@) {
                w == "true"@
            } else {
                e.fenster_schliessen
            },
            fenster_offen_bei_drag: if faengt_an(zeile, "fenster_offen_bei_drag"@) {
                w == "true"@
            } else {
                e.fenster_offen_bei_drag
            },
            emoji_size: if faengt_an(zeile, "emoji_size"@) {
                groesse_aus(w)
            } else {
                e.emoji_size
            },
            sprache: if faengt_an(zeile, "sprache"@) {
                w
            } else {
                e.sprache
            },
        },
    }
}

/// The settings that a list of lines gives, read from the first line to
/// the last, starting from those of a program that was never set up.
pub open spec fn eingelesen(zeilen: Seq<Seq<char>>) -> EinstellungenSicht
    decreases zeilen.len(),
{
    if zeilen.len() == 0 {
        grundeinstellungen()
    } else {
        mit_zeile(eingelesen(zeilen.drop_last()), zeilen.last())
    }
}

/// `true` or `false`, written out.
pub open spec fn wahrheitswert_text(b: bool) -> Seq<char> {
    if b {
        "true"@
    } else {
        "false"@
    }
}

/// The lines that keep the settings: a heading, then each setting as its
/// name, an equals sign between two spaces, and its value.
pub open spec fn einstellungszeilen(e: EinstellungenSicht) -> Seq<Seq<char>> {
    seq![
        "[Allgemein]"@,
        "setup_erledigt = "@ + wahrheitswert_text(e.setup_erledigt),
        "fenster_schliessen = "@ + wahrheitswert_text(e.fenster_schliessen),
        "fenster_offen_bei_drag = "@ + wahrheitswert_text(e.fenster_offen_bei_drag),
        "emoji_size = "@ + ganzzahl_text(e.emoji_size),
        "sprache = "@ + e.sprache,
    ]
}

/// Reads the value of a line.
pub fn lies_wert(zeile: &Vec<char>) -> (r: Option<Vec<char>>)
    ensures
        match r {
            Some(w) => wert_der_zeile(zeile@) == Some(w@),
            None => wert_der_zeile(zeile@) is None,
        },
{
    let mut trenner: Vec<char> = Vec::new();
    trenner.push('=');
    assert(trenner@ == seq!['=']);
    let (_, rest) = teile_an(zeile, &trenner);
    match rest {
        Some(rest) => {
            let (wert, _) = teile_an(&rest, &trenner);
            Some(stutze(&wert))
        },
        None => None,
    }
}

/// Reads one more line into the settings.
pub fn lies_einstellung(e: Einstellungen, roh: &str) -> (r: Einstellungen)
    ensures
        r@ == mit_zeile(e@, roh@),
{
    let zeile = stutze(&zeichen(roh));
    match lies_wert(&zeile) {
        None => e,
        Some(w) => {
            let mut r = e;
            if beginnt_mit(&zeile, &zeichen("setup_erledigt")) {
                r.setup_erledigt = gleicher_text(als_text(&w).as_str(), "true");
            }
            if beginnt_mit(&zeile, &zeichen("fenster_schliessen")) {
                r.fenster_schliessen = gleicher_text(als_text(&w).as_str(), "true");
            }
            if beginnt_mit(&zeile, &zeichen("fenster_offen_bei_drag")) {
                r.fenster_offen_bei_drag = gleicher_text(als_text(&w).as_str(), "true");
            }
            if beginnt_mit(&zeile, &zeichen("emoji_size")) {
                r.emoji_size = match lies_ganzzahl(&w) {
                    Some(n) => n,
                    None => 30,
                };
            }
            if beginnt_mit(&zeile, &zeichen("sprache")) {
                r.sprache = als_text(&w);
            }
            r
        },
    }
}

/// Reads the settings from the lines that keep them. Without any line the
/// settings are those of a program that was never set up.
pub fn lade_settings(zeilen: &Vec<String>) -> (r: Einstellungen)
    ensures
        r@ == eingelesen(zeilen_sicht(zeilen@)),
{
    let mut r = Einstellungen {
        setup_erledigt: false,
        fenster_schliessen: true,
        fenster_offen_bei_drag: true,
        emoji_size: 20,
        sprache: String::from_str("system"),
    };
    let ghost z = zeilen_sicht(zeilen@);
    let mut i: usize = 0;
    assert(z.take(0) == Seq::<Seq<char>>::empty());
    while i < zeilen.len()
        invariant
            i <= zeilen.len(),
            z == zeilen_sicht(zeilen@),
            r@ == eingelesen(z.take(i as int)),
        decreases zeilen.len() - i,
    {
        assert(z.take(i + 1).drop_last() == z.take(i as int));
        assert(z.take(i + 1).last() == zeilen@[i as int]@);
        r = lies_einstellung(r, zeilen[i].as_str());
        i += 1;
    }
    assert(z.take(i as int) == z);
    r
}

/// `true` or `false`, written out.
fn schreibe_wahrheitswert(b: bool) -> (r: &'static str)
    ensures
        r@ == wahrheitswert_text(b),
{
    if b {
        "true"
    } else {
        "false"
    }
}

/// Writes the lines that keep the settings.
pub fn speichere_settings(einstellungen: &Einstellungen) -> (r: Vec<String>)
    ensures
        zeilen_sicht(r@) == einstellungszeilen(einstellungen@),
{
    let mut r: Vec<String> = Vec::new();
    r.push(String::from_str("[Allgemein]"));
    r.push(
        String::from_str("setup_erledigt = ").concat(
            schreibe_wahrheitswert(einstellungen.setup_erledigt),
        ),
    );
    r.push(
        String::from_str("fenster_schliessen = ").concat(
            schreibe_wahrheitswert(einstellungen.fenster_schliessen),
        ),
    );
    r.push(
        String::from_str("fenster_offen_bei_drag = ").concat(
            schreibe_wahrheitswert(einstellungen.fenster_offen_bei_drag),
        ),
    );
    let groesse = als_text(&schreibe_ganzzahl(einstellungen.emoji_size));
    r.push(String::from_str("emoji_size = ").concat(groesse.as_str()));
    r.push(String::from_str("sprache = ").concat(einstellungen.sprache.as_str()));
    assert(zeilen_sicht(r@) =~= einstellungszeilen(einstellungen@));
    r
}

/// The language that a line of the settings asks for: the value of a line
/// that begins, but for white space, with `sprache`, unless the value is
/// `system`. Any other line asks for none.
pub open spec fn sprachwunsch(roh: Seq<char>) -> Option<Seq<char>> {
    if faengt_an(gestutzt(roh), "sprache"@) {
        match wert_der_zeile(roh) {
            Some(w) => if w == "system"@ {
                None
            } else {
                Some(w)
            },
            None => None,
        }
    } else {
        None
    }
}

/// The language that the settings ask for: that of the first line that
/// asks for one.
pub open spec fn gewaehlte_sprache(zeilen: Seq<Seq<char>>) -> Option<Seq<char>>
    decreases zeilen.len(),
{
    if zeilen.len() == 0 {
        None
    } else {
        match gewaehlte_sprache(zeilen.drop_last()) {
            Some(w) => Some(w),
            None => sprachwunsch(zeilen.last()),
        }
    }
}

/// What goes for the first lines goes for all, once a language is found.
pub proof fn lemma_gewaehlte_sprache(zeilen: Seq<Seq<char>>, n: int)
    requires
        0 <= n <= zeilen.len(),
        gewaehlte_sprache(zeilen.take(n)) is Some,
    ensures
        gewaehlte_sprache(zeilen) == gewaehlte_sprache(zeilen.take(n)),
    decreases zeilen.len() - n,
{
    if n == zeilen.len() {
        assert(zeilen.take(n) == zeilen);
    } else {
        assert(zeilen.drop_last().take(n) == zeilen.take(n));
        lemma_gewaehlte_sprache(zeilen.drop_last(), n);
    }
}

/// Finds the language that the settings ask for, if they ask for one other
/// than that of the system.
pub fn sprache_aus_einstellungen(zeilen: &Vec<String>) -> (r: Option<String>)
    ensures
        match r {
            Some(s) => gewaehlte_sprache(zeilen_sicht(zeilen@)) == Some(s@),
            None => gewaehlte_sprache(zeilen_sicht(zeilen@)) is None,
        },
{
    let ghost z = zeilen_sicht(zeilen@);
    let mut i: usize = 0;
    assert(z.take(0) == Seq::<Seq<char>>::empty());
    while i < zeilen.len()
        invariant
            i <= zeilen.len(),
            z == zeilen_sicht(zeilen@),
            gewaehlte_sprache(z.take(i as int)) is None,
        decreases zeilen.len() - i,
    {
        assert(z.take(i + 1).drop_last() == z.take(i as int));
        assert(z.take(i + 1).last() == zeilen@[i as int]@);
        let roh = zeichen(zeilen[i].as_str());
        if beginnt_mit(&stutze(&roh), &zeichen("sprache")) {
            match lies_wert(&roh) {
                Some(w) => {
                    if !gleicher_text(als_text(&w).as_str(), "system") {
                        proof {
                            lemma_gewaehlte_sprache(z, i + 1);
                        }
                        return Some(als_text(&w));
                    }
                },
                None => {},
            }
        }
        i += 1;
    }
    assert(z.take(i as int) == z);
    None
}

} // verus!
