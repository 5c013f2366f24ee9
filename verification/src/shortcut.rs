//! The desktop environments for which a key binding can be set up, and
//! what is reported of an attempt.

use vstd::prelude::*;
use crate::emoji_tabs::{kleinbuchstaben, kleinschreibung, lemma_zeilen_sicht_push, zeilen_sicht};
use crate::i18n::Sprache;
use crate::katalog::{erster_index, lemma_erster_index};
use crate::text::{
    als_text, beschneide, beschnitten, enthaelt, kommt_vor, lemma_texte_push, nach_trenner,
    teile_an, texte, vor_trenner, zeichen,
};
use crate::zahl::{ganzzahl_text, schreibe_ganzzahl, schreibe_zaehler, ziffern};

verus! {

/// A desktop environment.
#[derive(Debug, Clone, Copy, PartialEq, Eq, Structural)]
pub enum Desktop {
    Cinnamon,
    Xfce,
    Mate,
    Kde,
    Gnome,
    Unbekannt,
}

/// What an attempt to set up the key binding came to.
#[derive(Debug, Clone)]
pub struct ShortcutErgebnis {
    pub desktop: String,
    pub erfolg: bool,
    pub meldung: String,
}

/// The desktop that a session name in lower case tells of: the first of
/// Cinnamon, Xfce, Mate, KDE and Gnome whose name occurs in it.
pub open spec fn desktop_von(klein: Seq<char>) -> Desktop {
    if enthaelt(klein, "cinnamon"@) {
        Desktop::Cinnamon
    } else if enthaelt(klein, "xfce"@) {
        Desktop::Xfce
    } else if enthaelt(klein, "mate"@) {
        Desktop::Mate
    } else if enthaelt(klein, "kde"@) {
        Desktop::Kde
    } else if enthaelt(klein, "gnome"@) {
        Desktop::Gnome
    } else {
        Desktop::Unbekannt
    }
}

/// Tells the desktop from a session name that is already in lower case.
pub fn desktop_aus(klein: &Vec<char>) -> (r: Desktop)
    ensures
        r == desktop_von(klein@),
{
    if kommt_vor(klein, &zeichen("cinnamon")) {
        Desktop::Cinnamon
    } else if kommt_vor(klein, &zeichen("xfce")) {
        Desktop::Xfce
    } else if kommt_vor(klein, &zeichen("mate")) {
        Desktop::Mate
    } else if kommt_vor(klein, &zeichen("kde")) {
        Desktop::Kde
    } else if kommt_vor(klein, &zeichen("gnome")) {
        Desktop::Gnome
    } else {
        Desktop::Unbekannt
    }
}

/// Tells the desktop from the session's name, whatever its case; without a
/// name the desktop is unknown.
pub fn detect_desktop(session: Option<&str>) -> (r: Desktop)
    ensures
        r == match session {
            Some(s) => desktop_von(kleinschreibung(s@)),
            None => Desktop::Unbekannt,
        },
{
    match session {
        Some(s) => desktop_aus(&zeichen(kleinbuchstaben(s).as_str())),
        None => Desktop::Unbekannt,
    }
}

/// The report for Mate, where no key binding can be set up.
pub fn setup_mate(sprachpaket: &Sprache) -> (r: ShortcutErgebnis)
    ensures
        r.desktop@ == "MATE"@,
        !r.erfolg,
        r.meldung@ == sprachpaket.setup_not_available@,
{
    ShortcutErgebnis {
        desktop: String::from_str("MATE"),
        erfolg: false,
        meldung: sprachpaket.setup_not_available.clone(),
    }
}

/// The report for KDE, where no key binding can be set up.
pub fn setup_kde(sprachpaket: &Sprache) -> (r: ShortcutErgebnis)
    ensures
        r.desktop@ == "KDE"@,
        !r.erfolg,
        r.meldung@ == sprachpaket.setup_not_available@,
{
    ShortcutErgebnis {
        desktop: String::from_str("KDE"),
        erfolg: false,
        meldung: sprachpaket.setup_not_available.clone(),
    }
}

/// The report for a desktop that is not known.
pub fn setup_unbekannt(sprachpaket: &Sprache) -> (r: ShortcutErgebnis)
    ensures
        r.desktop@ == "Unbekannt"@,
        !r.erfolg,
        r.meldung@ == sprachpaket.set_desk_unknown@,
{
    ShortcutErgebnis {
        desktop: String::from_str("Unbekannt"),
        erfolg: false,
        meldung: sprachpaket.set_desk_unknown.clone(),
    }
}

/// The report for Gnome once the commands were run: success if all of
/// them succeeded.
pub fn ergebnis_gnome(erfolg: bool, sprachpaket: &Sprache) -> (r: ShortcutErgebnis)
    ensures
        r.desktop@ == "GNOME"@,
        r.erfolg == erfolg,
        r.meldung@ == if erfolg {
            sprachpaket.setup_done_xfce_gno@
        } else {
            sprachpaket.setup_fail_text@
        },
{
    ShortcutErgebnis {
        desktop: String::from_str("GNOME"),
        erfolg,
        meldung: if erfolg {
            sprachpaket.setup_done_xfce_gno.clone()
        } else {
            sprachpaket.setup_fail_text.clone()
        },
    }
}

/// The report for Cinnamon once the commands were run: success if all of
/// them succeeded.
pub fn ergebnis_cinnamon(erfolg: bool, sprachpaket: &Sprache) -> (r: ShortcutErgebnis)
    ensures
        r.desktop@ == "Cinnamon"@,
        r.erfolg == erfolg,
        r.meldung@ == if erfolg {
            sprachpaket.setup_done_cinna@
        } else {
            sprachpaket.setup_fail_text@
        },
{
    ShortcutErgebnis {
        desktop: String::from_str("Cinnamon"),
        erfolg,
        meldung: if erfolg {
            sprachpaket.setup_done_cinna.clone()
        } else {
            sprachpaket.setup_fail_text.clone()
        },
    }
}

/// The report for Cinnamon where the key binding is already there.
pub fn cinnamon_vorhanden(sprachpaket: &Sprache) -> (r: ShortcutErgebnis)
    ensures
        r.desktop@ == "Cinnamon"@,
        r.erfolg,
        r.meldung@ == sprachpaket.setup_exists@,
{
    ShortcutErgebnis {
        desktop: String::from_str("Cinnamon"),
        erfolg: true,
        meldung: sprachpaket.setup_exists.clone(),
    }
}

/// The schema and path under which Cinnamon keeps the key binding of the
/// given name.
pub fn cinnamon_pfad(name: &str) -> (r: String)
    ensures
        r@
            == "org.cinnamon.desktop.keybindings.custom-keybinding:/org/cinnamon/desktop/keybindings/custom-keybindings/"@
            + name@ + "/"@,
{
    String::from_str(
        "org.cinnamon.desktop.keybindings.custom-keybinding:/org/cinnamon/desktop/keybindings/custom-keybindings/",
    ).concat(name).concat("/")
}

/// How the command that sets the key binding under Xfce ended.
#[derive(Debug)]
pub enum Ausgang {
    /// It ran and reported success.
    Erfolg,
    /// It ran and ended with this code.
    Fehlschlag(i32),
    /// It could not be started, for the reason given.
    NichtGestartet(String),
}

/// The message for Xfce: the text for success; on failure the first text
/// for failure, a dash between spaces, `exit code:` and the code; where
/// the command did not start, the second text for failure, the command's
/// name, a colon and the reason.
pub open spec fn xfce_meldung(
    ausgang: Ausgang,
    erfolg: Seq<char>,
    fehler_1: Seq<char>,
    fehler_2: Seq<char>,
) -> Seq<char> {
    match ausgang {
        Ausgang::Erfolg => erfolg,
        Ausgang::Fehlschlag(code) => fehler_1 + " – exit code: "@ + ganzzahl_text(code as int),
        Ausgang::NichtGestartet(grund) => fehler_2 + " xfconf-query: "@ + grund@,
    }
}

/// The report for Xfce once the command was run.
pub fn ergebnis_xfce(ausgang: Ausgang, sprachpaket: &Sprache) -> (r: ShortcutErgebnis)
    ensures
        r.desktop@ == "XFCE"@,
        r.erfolg == (ausgang is Erfolg),
        r.meldung@ == xfce_meldung(
            ausgang,
            sprachpaket.setup_done_xfce_gno@,
            sprachpaket.setup_fail_xfce_1@,
            sprachpaket.setup_fail_xfce_2@,
        ),
{
    let (erfolg, meldung) = match ausgang {
        Ausgang::Erfolg => (true, sprachpaket.setup_done_xfce_gno.clone()),
        Ausgang::Fehlschlag(code) => {
            let zahl = als_text(&schreibe_ganzzahl(code));
            (
                false,
                sprachpaket.setup_fail_xfce_1.clone().concat(" – exit code: ").concat(
                    zahl.as_str(),
                ),
            )
        },
        Ausgang::NichtGestartet(grund) => (
            false,
            sprachpaket.setup_fail_xfce_2.clone().concat(" xfconf-query: ").concat(grund.as_str()),
        ),
    };
    ShortcutErgebnis { desktop: String::from_str("XFCE"), erfolg, meldung }
}

/// The heading of the report: the desktop, a hyphen between spaces, and
/// the text for success or for failure.
pub fn dialogtitel(ergebnis: &ShortcutErgebnis, sprachpaket: &Sprache) -> (r: String)
    ensures
        r@ == ergebnis.desktop@ + " - "@ + if ergebnis.erfolg {
            sprachpaket.setup_done@
        } else {
            sprachpaket.setup_fail@
        },
{
    let ende = if ergebnis.erfolg {
        sprachpaket.setup_done.as_str()
    } else {
        sprachpaket.setup_fail.as_str()
    };
    ergebnis.desktop.clone().concat(" - ").concat(ende)
}

/// The characters that stand around the list of key bindings as the
/// desktop prints it.
pub open spec fn listenrand() -> Seq<char> {
    seq!['[', ']', '\n', ' ', '\'']
}

/// The characters that stand around one entry of that list.
pub open spec fn eintragsrand() -> Seq<char> {
    seq!['\'', ' ']
}

/// The entries between the commas of `s`, each without the quotes and
/// spaces around it; empty entries are left out.
pub open spec fn eintraege(s: Seq<char>) -> Seq<Seq<char>>
    decreases s.len(),
{
    let kopf = beschnitten(vor_trenner(s, seq![',']), eintragsrand());
    let rest = match nach_trenner(s, seq![',']) {
        Some(r) => if r.len() < s.len() {
            eintraege(r)
        } else {
            Seq::empty()
        },
        None => Seq::empty(),
    };
    if kopf.len() > 0 {
        seq![kopf] + rest
    } else {
        rest
    }
}

/// The names of the key bindings in the list as the desktop prints it.
pub open spec fn cinnamon_liste_von(raw: Seq<char>) -> Seq<Seq<char>> {
    eintraege(beschnitten(raw, listenrand()))
}

/// The name of the `i`-th key binding of one's own.
pub open spec fn schluessel(i: nat) -> Seq<char> {
    "custom"@ + ziffern(i)
}

/// For each of the first fifty names, whether the list lacks it.
pub open spec fn frei(liste: Seq<Seq<char>>) -> Seq<bool> {
    Seq::new(50, |i: int| !liste.contains(schluessel(i as nat)))
}

/// The entries in quotes, with a comma and a space between each two.
pub open spec fn aufzaehlung(liste: Seq<Seq<char>>) -> Seq<char>
    decreases liste.len(),
{
    if liste.len() == 0 {
        Seq::empty()
    } else if liste.len() == 1 {
        seq!['\''] + liste[0] + seq!['\'']
    } else {
        aufzaehlung(liste.drop_last()) + seq![',', ' ', '\''] + liste.last() + seq!['\'']
    }
}

/// Reads the entries between the commas of `s`.
pub fn lies_eintraege(s: Vec<char>) -> (r: Vec<Vec<char>>)
    ensures
        texte(r@) == eintraege(s@),
{
    let mut komma: Vec<char> = Vec::new();
    komma.push(',');
    let mut rand: Vec<char> = Vec::new();
    rand.push('\'');
    rand.push(' ');
    let mut r: Vec<Vec<char>> = Vec::new();
    let mut rest: Option<Vec<char>> = Some(s);
    assert(texte(r@) + eintraege(s@) == eintraege(s@));
    loop
        invariant
            komma@ == seq![','],
            rand@ == eintragsrand(),
            eintraege(s@) == texte(r@) + match rest {
                Some(x) => eintraege(x@),
                None => Seq::empty(),
            },
        decreases
            match rest {
                Some(x) => x@.len() + 1,
                None => 0,
            },
    {
        let aktuell = match rest {
            Some(x) => x,
            None => {
                assert(texte(r@) + Seq::<Seq<char>>::empty() == texte(r@));
                return r;
            },
        };
        let (vor, nach) = teile_an(&aktuell, &komma);
        let kopf = beschneide(&vor, &rand);
        let ghost bisher = texte(r@);
        if kopf.len() > 0 {
            proof {
                lemma_texte_push(r@, kopf);
            }
            r.push(kopf);
        }
        proof {
            let weiter: Seq<Seq<char>> = if nach is Some {
                eintraege(nach->0@)
            } else {
                Seq::empty()
            };
            if kopf@.len() > 0 {
                assert(bisher + (seq![kopf@] + weiter) == bisher.push(kopf@) + weiter);
            }
        }
        rest = nach;
    }
}

/// Reads the names of the key bindings from the list as the desktop
/// prints it.
pub fn cinnamon_liste(raw: &str) -> (r: Vec<String>)
    ensures
        zeilen_sicht(r@) == cinnamon_liste_von(raw@),
{
    let mut rand: Vec<char> = Vec::new();
    rand.push('[');
    rand.push(']');
    rand.push('\n');
    rand.push(' ');
    rand.push('\'');
    assert(rand@ == listenrand());
    let roh = lies_eintraege(beschneide(&zeichen(raw), &rand));
    let mut r: Vec<String> = Vec::new();
    let mut i: usize = 0;
    while i < roh.len()
        invariant
            i <= roh.len(),
            zeilen_sicht(r@) == texte(roh@).take(i as int),
        decreases roh.len() - i,
    {
        let t = als_text(&roh[i]);
        proof {
            lemma_zeilen_sicht_push(r@, t);
            assert(texte(roh@).take(i + 1) == texte(roh@).take(i as int).push(t@));
        }
        r.push(t);
        i += 1;
    }
    assert(texte(roh@).take(i as int) == texte(roh@));
    r
}

/// Tells whether `name` is in the list.
pub fn steht_in(liste: &Vec<String>, name: &String) -> (r: bool)
    ensures
        r == zeilen_sicht(liste@).contains(name@),
{
    let mut j: usize = 0;
    while j < liste.len()
        invariant
            j <= liste.len(),
            forall|k: int| 0 <= k < j ==> zeilen_sicht(liste@)[k] != name@,
        decreases liste.len() - j,
    {
        if liste[j] == *name {
            assert(zeilen_sicht(liste@)[j as int] == name@);
            return true;
        }
        j += 1;
    }
    false
}

/// The first of the names `custom0` to `custom49` that the list lacks, if
/// it lacks one.
pub fn freier_schluessel(liste: &Vec<String>) -> (r: Option<String>)
    ensures
        match r {
            Some(name) => match erster_index(frei(zeilen_sicht(liste@))) {
                Some(i) => name@ == schluessel(i as nat),
                None => false,
            },
            None => erster_index(frei(zeilen_sicht(liste@))) is None,
        },
{
    let ghost f = frei(zeilen_sicht(liste@));
    let mut i: usize = 0;
    while i < 50
        invariant
            i <= 50,
            f == frei(zeilen_sicht(liste@)),
            forall|k: int| 0 <= k < i ==> !f[k],
        decreases 50 - i,
    {
        let mut name = String::from_str("custom");
        name.append(als_text(&schreibe_zaehler(i)).as_str());
        assert(name@ == schluessel(i as nat));
        if !steht_in(liste, &name) {
            proof {
                assert(f[i as int]);
                lemma_erster_index(f);
            }
            return Some(name);
        }
        assert(!f[i as int]);
        i += 1;
    }
    proof {
        lemma_erster_index(f);
    }
    None
}

/// Writes the list as the desktop reads it: in square brackets, each name
/// in quotes, a comma and a space between each two.
pub fn listentext(liste: &Vec<String>) -> (r: String)
    ensures
        r@ == seq!['['] + aufzaehlung(zeilen_sicht(liste@)) + seq![']'],
{
    let ghost l = zeilen_sicht(liste@);
    let mut r = String::new();
    r.push('[');
    let mut i: usize = 0;
    assert(l.take(0) == Seq::<Seq<char>>::empty());
    assert(r@ == seq!['['] + aufzaehlung(l.take(0)));
    while i < liste.len()
        invariant
            i <= liste.len(),
            l == zeilen_sicht(liste@),
            r@ == seq!['['] + aufzaehlung(l.take(i as int)),
        decreases liste.len() - i,
    {
        let ghost vor = r@;
        if i > 0 {
            r.push(',');
            r.push(' ');
        }
        r.push('\'');
        r.append(liste[i].as_str());
        r.push('\'');
        proof {
            let t = l.take(i + 1);
            assert(t.drop_last() == l.take(i as int));
            assert(t.last() == liste@[i as int]@);
            if i > 0 {
                assert(r@ == vor + seq![',', ' ', '\''] + t.last() + seq!['\'']);
                assert(r@ == seq!['['] + (aufzaehlung(t.drop_last()) + seq![',', ' ', '\'']
                    + t.last() + seq!['\'']));
            } else {
                assert(t[0] == t.last());
                assert(aufzaehlung(l.take(0)) == Seq::<char>::empty());
                assert(r@ == seq!['['] + (seq!['\''] + t[0] + seq!['\'']));
            }
        }
        i += 1;
    }
    assert(l.take(i as int) == l);
    r.push(']');
    r
}

/// Tells whether what the desktop prints of a key binding's command names
/// the picker.
pub fn nennt_picker(raw: &str) -> (r: bool)
    ensures
        r == enthaelt(raw@, "emoji-picker"@),
{
    kommt_vor(&zeichen(raw), &zeichen("emoji-picker"))
}

} // verus!
