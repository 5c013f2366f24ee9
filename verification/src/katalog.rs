//! The catalogue: categories in a fixed order, the search index over them,
//! the counting of usage and the forgetting of it.

use vstd::prelude::*;
use crate::emoji_tabs::{
    geladen, lade_emojies, lemma_symbole_sicht_push, speichere_emojies, symbole_sicht,
    zeilen_sicht, zeilen_von, Symbol, SymbolSicht,
};
use crate::text::gleicher_text;
use crate::verlauf::{benutzte, verlauf};

verus! {

/// A named list of symbols, in the order in which they were read.
#[derive(Debug)]
pub struct Kategorie {
    pub kennung: String,
    pub symbole: Vec<Symbol>,
}

/// What a `Kategorie` stands for.
pub struct KategorieSicht {
    pub kennung: Seq<char>,
    pub symbole: Seq<SymbolSicht>,
}

impl View for Kategorie {
    type V = KategorieSicht;

    open spec fn view(&self) -> KategorieSicht {
        KategorieSicht { kennung: self.kennung@, symbole: symbole_sicht(self.symbole@) }
    }
}

/// The categories of a session, in the order in which they were added.
#[derive(Debug)]
pub struct Katalog {
    pub kategorien: Vec<Kategorie>,
}

impl View for Katalog {
    type V = Seq<KategorieSicht>;

    open spec fn view(&self) -> Seq<KategorieSicht> {
        Seq::new(self.kategorien@.len(), |k: int| self.kategorien@[k]@)
    }
}

/// The name that is kept for the most-used view. No category that is read
/// from lines bears it.
pub open spec fn verlauf_kennung() -> Seq<char> {
    "🕓"@
}

/// No two categories bear the same name.
pub open spec fn eindeutig(kat: Seq<KategorieSicht>) -> bool {
    forall|a: int, b: int|
        0 <= a < b < kat.len() ==> (#[trigger] kat[a]).kennung != (#[trigger] kat[b]).kennung
}

/// The first place at which `treffer` holds, if there is one.
pub open spec fn erster_index(treffer: Seq<bool>) -> Option<int>
    decreases treffer.len(),
{
    if treffer.len() == 0 {
        None
    } else {
        match erster_index(treffer.drop_last()) {
            Some(i) => Some(i),
            None => if treffer.last() {
                Some(treffer.len() - 1)
            } else {
                None
            },
        }
    }
}

/// `erster_index` gives the least place that holds, and none only where no
/// place holds.
pub proof fn lemma_erster_index(treffer: Seq<bool>)
    ensures
        match erster_index(treffer) {
            Some(i) => 0 <= i < treffer.len() && treffer[i] && forall|j: int|
                0 <= j < i ==> !treffer[j],
            None => forall|j: int| 0 <= j < treffer.len() ==> !treffer[j],
        },
    decreases treffer.len(),
{
    if treffer.len() > 0 {
        lemma_erster_index(treffer.drop_last());
        assert(forall|j: int| 0 <= j < treffer.len() - 1 ==> treffer.drop_last()[j] == treffer[j]);
    }
}

/// For each symbol, whether it shows the glyph `emoji`.
pub open spec fn zeigt(s: Seq<SymbolSicht>, emoji: Seq<char>) -> Seq<bool> {
    Seq::new(s.len(), |i: int| s[i].emoji == emoji)
}

/// For each category, whether it bears the name `name`.
pub open spec fn heisst(kat: Seq<KategorieSicht>, name: Seq<char>) -> Seq<bool> {
    Seq::new(kat.len(), |k: int| kat[k].kennung == name)
}

/// For each category, whether one of its symbols shows the glyph `emoji`.
pub open spec fn fuehrt(kat: Seq<KategorieSicht>, emoji: Seq<char>) -> Seq<bool> {
    Seq::new(kat.len(), |k: int| erster_index(zeigt(kat[k].symbole, emoji)) is Some)
}

/// Where a choice of `emoji` is counted: the category and the place in it.
///
/// With a hint, the category is the first that bears the hint's name, and
/// the place is that of the first symbol in it that shows the glyph; there
/// is none where no category bears the name or that category lacks the
/// glyph. Without a hint, the category is the first, in the catalogue's
/// order, that has the glyph at all.
pub open spec fn fundstelle(
    kat: Seq<KategorieSicht>,
    emoji: Seq<char>,
    hinweis: Option<Seq<char>>,
) -> Option<(int, int)> {
    let k = match hinweis {
        Some(h) => erster_index(heisst(kat, h)),
        None => erster_index(fuehrt(kat, emoji)),
    };
    match k {
        Some(k) => match erster_index(zeigt(kat[k].symbole, emoji)) {
            Some(i) => Some((k, i)),
            None => None,
        },
        None => None,
    }
}

/// The catalogue after one more use of the symbol at place `i` of category
/// `k`: that count is one higher, and nothing else differs.
pub open spec fn mit_nutzung(kat: Seq<KategorieSicht>, k: int, i: int) -> Seq<KategorieSicht> {
    let s = kat[k].symbole[i];
    kat.update(
        k,
        KategorieSicht {
            kennung: kat[k].kennung,
            symbole: kat[k].symbole.update(
                i,
                SymbolSicht { emoji: s.emoji, begriffe: s.begriffe, zaehler: s.zaehler + 1 },
            ),
        },
    )
}

/// The catalogue after `n` more uses of the symbol at place `i` of
/// category `k`.
pub open spec fn mehrfach_genutzt(kat: Seq<KategorieSicht>, k: int, i: int, n: nat) -> Seq<
    KategorieSicht,
>
    decreases n,
{
    if n == 0 {
        kat
    } else {
        mit_nutzung(mehrfach_genutzt(kat, k, i, (n - 1) as nat), k, i)
    }
}

/// One more use raises the count of the symbol used by one and leaves
/// every other count, every glyph, word and name as it was; the same
/// choice is counted at the same place the next time.
pub proof fn lemma_nutzung(
    kat: Seq<KategorieSicht>,
    k: int,
    i: int,
    emoji: Seq<char>,
    hinweis: Option<Seq<char>>,
)
    requires
        0 <= k < kat.len(),
        0 <= i < kat[k].symbole.len(),
    ensures
        mit_nutzung(kat, k, i).len() == kat.len(),
        mit_nutzung(kat, k, i)[k].symbole[i].zaehler == kat[k].symbole[i].zaehler + 1,
        forall|a: int|
            0 <= a < kat.len() ==> (#[trigger] mit_nutzung(kat, k, i)[a]).symbole.len()
                == kat[a].symbole.len() && mit_nutzung(kat, k, i)[a].kennung == kat[a].kennung,
        forall|a: int, b: int|
            0 <= a < kat.len() && 0 <= b < kat[a].symbole.len() ==> {
                let neu = #[trigger] mit_nutzung(kat, k, i)[a].symbole[b];
                &&& neu.emoji == kat[a].symbole[b].emoji
                &&& neu.begriffe == kat[a].symbole[b].begriffe
                &&& neu.zaehler >= kat[a].symbole[b].zaehler
                &&& (a != k || b != i) ==> neu.zaehler == kat[a].symbole[b].zaehler
            },
        fundstelle(mit_nutzung(kat, k, i), emoji, hinweis) == fundstelle(kat, emoji, hinweis),
{
    let neu = mit_nutzung(kat, k, i);
    assert forall|a: int| 0 <= a < kat.len() implies zeigt(#[trigger] neu[a].symbole, emoji)
        == zeigt(kat[a].symbole, emoji) by {
        assert(zeigt(neu[a].symbole, emoji) =~= zeigt(kat[a].symbole, emoji));
    }
    assert(fuehrt(neu, emoji) =~= fuehrt(kat, emoji));
    match hinweis {
        Some(h) => {
            assert(heisst(neu, h) =~= heisst(kat, h));
            lemma_erster_index(heisst(kat, h));
        },
        None => {
            lemma_erster_index(fuehrt(kat, emoji));
        },
    }
}

/// Counting the same choice again and again raises its count by one each
/// time: after `n` uses the count is `n` higher, no count in the catalogue
/// is lower than before, and the choice is still counted at the same
/// place.
pub proof fn lemma_nutzung_waechst(
    kat: Seq<KategorieSicht>,
    k: int,
    i: int,
    n: nat,
    emoji: Seq<char>,
    hinweis: Option<Seq<char>>,
)
    requires
        0 <= k < kat.len(),
        0 <= i < kat[k].symbole.len(),
    ensures
        mehrfach_genutzt(kat, k, i, n).len() == kat.len(),
        mehrfach_genutzt(kat, k, i, n)[k].symbole.len() == kat[k].symbole.len(),
        mehrfach_genutzt(kat, k, i, n)[k].symbole[i].zaehler == kat[k].symbole[i].zaehler + n,
        forall|a: int|
            0 <= a < kat.len() ==> (#[trigger] mehrfach_genutzt(kat, k, i, n)[a]).symbole.len()
                == kat[a].symbole.len(),
        forall|a: int, b: int|
            0 <= a < kat.len() && 0 <= b < kat[a].symbole.len() ==> (#[trigger] mehrfach_genutzt(
                kat,
                k,
                i,
                n,
            )[a].symbole[b]).zaehler >= kat[a].symbole[b].zaehler,
        fundstelle(mehrfach_genutzt(kat, k, i, n), emoji, hinweis) == fundstelle(
            kat,
            emoji,
            hinweis,
        ),
    decreases n,
{
    if n > 0 {
        let vor = mehrfach_genutzt(kat, k, i, (n - 1) as nat);
        lemma_nutzung_waechst(kat, k, i, (n - 1) as nat, emoji, hinweis);
        lemma_nutzung(vor, k, i, emoji, hinweis);
        let neu = mehrfach_genutzt(kat, k, i, n);
        assert forall|a: int| 0 <= a < kat.len() implies (#[trigger] neu[a]).symbole.len()
            == kat[a].symbole.len() by {
            assert(vor[a].symbole.len() == kat[a].symbole.len());
            assert(mit_nutzung(vor, k, i)[a].symbole.len() == vor[a].symbole.len());
        }
        assert forall|a: int, b: int|
            0 <= a < kat.len() && 0 <= b < kat[a].symbole.len() implies (
        #[trigger] neu[a].symbole[b]).zaehler >= kat[a].symbole[b].zaehler by {
            assert(vor[a].symbole.len() == kat[a].symbole.len());
            assert(vor[a].symbole[b].zaehler >= kat[a].symbole[b].zaehler);
            assert(mit_nutzung(vor, k, i)[a].symbole[b].zaehler >= vor[a].symbole[b].zaehler);
        }
    }
}

/// Why a choice was not counted.
#[derive(Debug, Clone, Copy, PartialEq, Eq, Structural)]
pub enum Nutzungsfehler {
    /// No category has the glyph, or the hinted category is missing or
    /// lacks it.
    NichtGefunden,
    /// The count is the largest that the machine holds.
    ZaehlerVoll,
}

/// What follows from a counted choice: the category whose lines are to be
/// written, those lines, and the chosen symbol's words.
#[derive(Debug)]
pub struct Auswahl {
    pub datei: String,
    pub zeilen: Vec<String>,
    pub begriffe: Vec<String>,
}

/// The place of the first symbol that shows `emoji`.
pub fn finde_symbol(symbole: &Vec<Symbol>, emoji: &str) -> (r: Option<usize>)
    ensures
        match r {
            Some(i) => erster_index(zeigt(symbole_sicht(symbole@), emoji@)) == Some(i as int) && i
                < symbole.len(),
            None => erster_index(zeigt(symbole_sicht(symbole@), emoji@)) is None,
        },
{
    let ghost t = zeigt(symbole_sicht(symbole@), emoji@);
    let mut i: usize = 0;
    while i < symbole.len()
        invariant
            i <= symbole.len(),
            t == zeigt(symbole_sicht(symbole@), emoji@),
            forall|j: int| 0 <= j < i ==> !t[j],
        decreases symbole.len() - i,
    {
        if gleicher_text(symbole[i].emoji.as_str(), emoji) {
            proof {
                assert(t[i as int]);
                lemma_erster_index(t);
            }
            return Some(i);
        }
        assert(!t[i as int]);
        i += 1;
    }
    proof {
        lemma_erster_index(t);
    }
    None
}

/// The place of the first category that bears the name `name`.
pub fn finde_kategorie(daten: &Katalog, name: &str) -> (r: Option<usize>)
    ensures
        match r {
            Some(k) => erster_index(heisst(daten@, name@)) == Some(k as int) && k
                < daten.kategorien.len(),
            None => erster_index(heisst(daten@, name@)) is None,
        },
{
    let ghost t = heisst(daten@, name@);
    let mut k: usize = 0;
    while k < daten.kategorien.len()
        invariant
            k <= daten.kategorien.len(),
            t == heisst(daten@, name@),
            forall|j: int| 0 <= j < k ==> !t[j],
        decreases daten.kategorien.len() - k,
    {
        if gleicher_text(daten.kategorien[k].kennung.as_str(), name) {
            proof {
                assert(t[k as int]);
                lemma_erster_index(t);
            }
            return Some(k);
        }
        assert(!t[k as int]);
        k += 1;
    }
    proof {
        lemma_erster_index(t);
    }
    None
}

/// Finds where a choice of `emoji` is counted.
pub fn finde_fundstelle(daten: &Katalog, emoji: &str, datei: Option<&str>) -> (r: Option<
    (usize, usize),
>)
    ensures
        match r {
            Some((k, i)) => fundstelle(
                daten@,
                emoji@,
                match datei {
                    Some(d) => Some(d@),
                    None => None,
                },
            ) == Some((k as int, i as int)) && k < daten.kategorien.len() && i
                < daten.kategorien[k as int].symbole.len(),
            None => fundstelle(
                daten@,
                emoji@,
                match datei {
                    Some(d) => Some(d@),
                    None => None,
                },
            ) is None,
        },
{
    match datei {
        Some(d) => match finde_kategorie(daten, d) {
            Some(k) => match finde_symbol(&daten.kategorien[k].symbole, emoji) {
                Some(i) => Some((k, i)),
                None => None,
            },
            None => None,
        },
        None => {
            let ghost t = fuehrt(daten@, emoji@);
            let mut k: usize = 0;
            while k < daten.kategorien.len()
                invariant
                    k <= daten.kategorien.len(),
                    datei is None,
                    t == fuehrt(daten@, emoji@),
                    forall|j: int| 0 <= j < k ==> !t[j],
                decreases daten.kategorien.len() - k,
            {
                match finde_symbol(&daten.kategorien[k].symbole, emoji) {
                    Some(i) => {
                        proof {
                            assert(t[k as int]);
                            lemma_erster_index(t);
                        }
                        return Some((k, i));
                    },
                    None => {
                        assert(!t[k as int]);
                    },
                }
                k += 1;
            }
            proof {
                lemma_erster_index(t);
            }
            None
        },
    }
}

/// Counts one choice of `emoji`.
///
/// On success the count of the symbol at the place that `fundstelle` names
/// is one higher and nothing else in the catalogue differs; the result
/// names the category to write, holds its lines as they now are, and the
/// words of the chosen symbol. On failure the catalogue is unchanged.
/// Counting the same glyph again counts again.
pub fn speichere_kopiere_und_schliesse(emoji: &str, daten: &mut Katalog, datei: Option<&str>) -> (r:
    Result<Auswahl, Nutzungsfehler>)
    ensures
        ({
            let ort = fundstelle(
                old(daten)@,
                emoji@,
                match datei {
                    Some(d) => Some(d@),
                    None => None,
                },
            );
            match r {
                Ok(a) => match ort {
                    Some((k, i)) => {
                        &&& old(daten)@[k].symbole[i].zaehler < usize::MAX
                        &&& final(daten)@ == mit_nutzung(old(daten)@, k, i)
                        &&& a.datei@ == old(daten)@[k].kennung
                        &&& zeilen_sicht(a.zeilen@) == zeilen_von(final(daten)@[k].symbole)
                        &&& zeilen_sicht(a.begriffe@) == old(daten)@[k].symbole[i].begriffe
                    },
                    None => false,
                },
                Err(Nutzungsfehler::NichtGefunden) => ort is None && final(daten)@ == old(daten)@,
                Err(Nutzungsfehler::ZaehlerVoll) => match ort {
                    Some((k, i)) => {
                        &&& old(daten)@[k].symbole[i].zaehler == usize::MAX
                        &&& final(daten)@ == old(daten)@
                    },
                    None => false,
                },
            }
        }),
        eindeutig(old(daten)@) ==> eindeutig(final(daten)@),
{
    match finde_fundstelle(daten, emoji, datei) {
        None => Err(Nutzungsfehler::NichtGefunden),
        Some((k, i)) => {
            let alt = daten.kategorien[k].symbole[i].zaehler;
            if alt == usize::MAX {
                return Err(Nutzungsfehler::ZaehlerVoll);
            }
            daten.kategorien[k].symbole[i].zaehler = alt + 1;
            assert(daten@ =~= mit_nutzung(old(daten)@, k as int, i as int)) by {
                assert(daten@[k as int].symbole =~= mit_nutzung(
                    old(daten)@,
                    k as int,
                    i as int,
                )[k as int].symbole);
            }
            let zeilen = speichere_emojies(&daten.kategorien[k].symbole);
            let gewaehlt = daten.kategorien[k].symbole[i].clone();
            Ok(Auswahl { datei: daten.kategorien[k].kennung.clone(), zeilen, begriffe: gewaehlt.begriffe })
        },
    }
}

/// The largest number of symbols in the most-used view, and of matches
/// that a search gives.
pub const HOECHSTZAHL: usize = 100;

/// The symbols of all categories but the most-used view, category by
/// category in the catalogue's order, each category in its own order.
pub open spec fn alle_symbole(kat: Seq<KategorieSicht>) -> Seq<SymbolSicht>
    decreases kat.len(),
{
    if kat.len() == 0 {
        Seq::empty()
    } else if kat.last().kennung == verlauf_kennung() {
        alle_symbole(kat.drop_last())
    } else {
        alle_symbole(kat.drop_last()) + kat.last().symbole
    }
}

/// Tells whether `kennung` names the most-used view.
pub fn ist_verlauf(kennung: &str) -> (r: bool)
    ensures
        r == (kennung@ == verlauf_kennung()),
{
    gleicher_text(kennung, "🕓")
}

/// The category under which a choice made in the category `kennung` is
/// looked for: that category, or none for the most-used view, whose
/// symbols belong to other categories.
pub fn nutzungshinweis(kennung: &str) -> (r: Option<String>)
    ensures
        match r {
            Some(h) => kennung@ != verlauf_kennung() && h@ == kennung@,
            None => kennung@ == verlauf_kennung(),
        },
{
    if ist_verlauf(kennung) {
        None
    } else {
        Some(String::from_str(kennung))
    }
}

/// Builds the search index: the symbols of every category but the
/// most-used view, category by category.
pub fn erstelle_suchindex(daten: &Katalog) -> (r: Vec<Symbol>)
    ensures
        symbole_sicht(r@) == alle_symbole(daten@),
{
    let mut r: Vec<Symbol> = Vec::new();
    let mut k: usize = 0;
    assert(daten@.take(0) == Seq::<KategorieSicht>::empty());
    while k < daten.kategorien.len()
        invariant
            k <= daten.kategorien.len(),
            symbole_sicht(r@) == alle_symbole(daten@.take(k as int)),
        decreases daten.kategorien.len() - k,
    {
        let kat = &daten.kategorien[k];
        assert(daten@.take(k + 1).drop_last() == daten@.take(k as int));
        assert(daten@.take(k + 1).last() == kat@);
        if !ist_verlauf(kat.kennung.as_str()) {
            let ghost vor = symbole_sicht(r@);
            let mut i: usize = 0;
            assert(vor + kat@.symbole.take(0) == vor);
            while i < kat.symbole.len()
                invariant
                    i <= kat.symbole.len(),
                    symbole_sicht(r@) == vor + kat@.symbole.take(i as int),
                decreases kat.symbole.len() - i,
            {
                let s = kat.symbole[i].clone();
                proof {
                    lemma_symbole_sicht_push(r@, s);
                    assert(vor + kat@.symbole.take(i + 1) == (vor + kat@.symbole.take(
                        i as int,
                    )).push(s@));
                }
                r.push(s);
                i += 1;
            }
            assert(kat@.symbole.take(i as int) == kat@.symbole);
        }
        k += 1;
    }
    assert(daten@.take(k as int) == daten@);
    r
}

/// The lines of one category, as they are read from its backing store or
/// are to be written to it.
#[derive(Debug)]
pub struct Kategoriedatei {
    pub datei: String,
    pub zeilen: Vec<String>,
}

/// What a `Kategoriedatei` stands for.
pub struct DateiSicht {
    pub datei: Seq<char>,
    pub zeilen: Seq<Seq<char>>,
}

impl View for Kategoriedatei {
    type V = DateiSicht;

    open spec fn view(&self) -> DateiSicht {
        DateiSicht { datei: self.datei@, zeilen: zeilen_sicht(self.zeilen@) }
    }
}

/// The views of a list of category files.
pub open spec fn dateien_sicht(v: Seq<Kategoriedatei>) -> Seq<DateiSicht> {
    Seq::new(v.len(), |i: int| v[i]@)
}

/// The catalogue with the category `name` set to `symbole`: in the place
/// of the category of that name where there is one, at the end where there
/// is none.
pub open spec fn gesetzt(kat: Seq<KategorieSicht>, name: Seq<char>, symbole: Seq<SymbolSicht>) -> Seq<
    KategorieSicht,
> {
    match erster_index(heisst(kat, name)) {
        Some(k) => kat.update(k, KategorieSicht { kennung: name, symbole }),
        None => kat.push(KategorieSicht { kennung: name, symbole }),
    }
}

/// No category bears the name that is kept for the most-used view.
pub open spec fn ohne_verlauf(kat: Seq<KategorieSicht>) -> bool {
    forall|k: int| 0 <= k < kat.len() ==> (#[trigger] kat[k]).kennung != verlauf_kennung()
}

/// The catalogue that a list of category files gives: each file's lines
/// read and set under the file's name, in the order of the list. A file
/// under the name that is kept for the most-used view is passed over.
pub open spec fn aufgebaut(quellen: Seq<DateiSicht>) -> Seq<KategorieSicht>
    decreases quellen.len(),
{
    if quellen.len() == 0 {
        Seq::empty()
    } else if quellen.last().datei == verlauf_kennung() {
        aufgebaut(quellen.drop_last())
    } else {
        gesetzt(aufgebaut(quellen.drop_last()), quellen.last().datei, geladen(quellen.last().zeilen))
    }
}

/// The symbols with every count at zero.
pub open spec fn ohne_zaehler(s: Seq<SymbolSicht>) -> Seq<SymbolSicht> {
    Seq::new(
        s.len(),
        |i: int| SymbolSicht { emoji: s[i].emoji, begriffe: s[i].begriffe, zaehler: 0 },
    )
}

/// The catalogue after its usage was forgotten: the most-used view is
/// empty, and every other category has its symbols with every count at
/// zero.
pub open spec fn geleert(kat: Seq<KategorieSicht>) -> Seq<KategorieSicht> {
    Seq::new(
        kat.len(),
        |k: int|
            KategorieSicht {
                kennung: kat[k].kennung,
                symbole: if kat[k].kennung == verlauf_kennung() {
                    Seq::empty()
                } else {
                    ohne_zaehler(kat[k].symbole)
                },
            },
    )
}

/// The files that keep a catalogue: one for each category, in order, under
/// its name and with the lines of its symbols.
pub open spec fn dateien_von(kat: Seq<KategorieSicht>) -> Seq<DateiSicht> {
    Seq::new(
        kat.len(),
        |k: int| DateiSicht { datei: kat[k].kennung, zeilen: zeilen_von(kat[k].symbole) },
    )
}

/// The file that keeps the category `name`, where the catalogue has one of
/// that name.
pub open spec fn datei_von(kat: Seq<KategorieSicht>, name: Seq<char>) -> Option<DateiSicht> {
    match erster_index(heisst(kat, name)) {
        Some(k) => Some(DateiSicht { datei: name, zeilen: zeilen_von(kat[k].symbole) }),
        None => None,
    }
}

/// Writes the lines that keep the category `kennung`; none where the
/// catalogue has no category of that name.
pub fn speichere_kategorie(daten: &Katalog, kennung: &str) -> (r: Option<Kategoriedatei>)
    ensures
        match r {
            Some(d) => datei_von(daten@, kennung@) == Some(d@),
            None => datei_von(daten@, kennung@) is None,
        },
{
    match finde_kategorie(daten, kennung) {
        Some(k) => Some(
            Kategoriedatei {
                datei: String::from_str(kennung),
                zeilen: speichere_emojies(&daten.kategorien[k].symbole),
            },
        ),
        None => None,
    }
}

/// Setting a category keeps the names distinct.
pub proof fn lemma_gesetzt_eindeutig(
    kat: Seq<KategorieSicht>,
    name: Seq<char>,
    symbole: Seq<SymbolSicht>,
)
    requires
        eindeutig(kat),
    ensures
        eindeutig(gesetzt(kat, name, symbole)),
{
    lemma_erster_index(heisst(kat, name));
    let neu = gesetzt(kat, name, symbole);
    assert forall|a: int, b: int| 0 <= a < b < neu.len() implies (#[trigger] neu[a]).kennung != (
    #[trigger] neu[b]).kennung by {
        if a < kat.len() {
            assert(neu[a].kennung == kat[a].kennung);
            assert(!heisst(kat, name)[a] ==> kat[a].kennung != name);
        }
        if b < kat.len() {
            assert(neu[b].kennung == kat[b].kennung);
        }
    }
}

impl Katalog {
    /// A catalogue without categories.
    pub fn neu() -> (r: Katalog)
        ensures
            r@ == Seq::<KategorieSicht>::empty(),
            eindeutig(r@),
    {
        let r = Katalog { kategorien: Vec::new() };
        assert(r@ =~= Seq::<KategorieSicht>::empty());
        r
    }

    /// Sets the category `kennung` to `symbole`: in the place of the
    /// category of that name where there is one, at the end otherwise.
    pub fn setze_kategorie(&mut self, kennung: String, symbole: Vec<Symbol>)
        ensures
            final(self)@ == gesetzt(old(self)@, kennung@, symbole_sicht(symbole@)),
            eindeutig(old(self)@) ==> eindeutig(final(self)@),
    {
        proof {
            if eindeutig(self@) {
                lemma_gesetzt_eindeutig(self@, kennung@, symbole_sicht(symbole@));
            }
        }
        match finde_kategorie(self, kennung.as_str()) {
            Some(k) => {
                self.kategorien[k] = Kategorie { kennung, symbole };
                assert(self@ =~= gesetzt(old(self)@, kennung@, symbole_sicht(symbole@)));
            },
            None => {
                self.kategorien.push(Kategorie { kennung, symbole });
                assert(self@ =~= gesetzt(old(self)@, kennung@, symbole_sicht(symbole@)));
            },
        }
    }
}

/// Builds the catalogue from the lines of its categories, each read and
/// set under its file's name, in the order given. The names in the result
/// are distinct, and none is the name kept for the most-used view.
pub fn erstelle_tabs(quellen: &Vec<Kategoriedatei>) -> (r: Katalog)
    ensures
        r@ == aufgebaut(dateien_sicht(quellen@)),
        eindeutig(r@),
        ohne_verlauf(r@),
{
    let mut r = Katalog::neu();
    let ghost q = dateien_sicht(quellen@);
    let mut i: usize = 0;
    assert(q.take(0) == Seq::<DateiSicht>::empty());
    while i < quellen.len()
        invariant
            i <= quellen.len(),
            q == dateien_sicht(quellen@),
            r@ == aufgebaut(q.take(i as int)),
            eindeutig(r@),
            ohne_verlauf(r@),
        decreases quellen.len() - i,
    {
        assert(q.take(i + 1).drop_last() == q.take(i as int));
        assert(q.take(i + 1).last() == quellen@[i as int]@);
        if !ist_verlauf(quellen[i].datei.as_str()) {
            let symbole = lade_emojies(&quellen[i].zeilen);
            proof {
                lemma_erster_index(heisst(r@, quellen[i as int].datei@));
            }
            r.setze_kategorie(quellen[i].datei.clone(), symbole);
        }
        i += 1;
    }
    assert(q.take(i as int) == q);
    r
}

/// Sets the count of every symbol to zero.
pub fn setze_zurueck(symbole: &mut Vec<Symbol>)
    ensures
        symbole_sicht(final(symbole)@) == ohne_zaehler(symbole_sicht(old(symbole)@)),
{
    let ghost alt = symbole_sicht(symbole@);
    let mut i: usize = 0;
    while i < symbole.len()
        invariant
            i <= symbole.len(),
            symbole.len() == alt.len(),
            forall|j: int| 0 <= j < i ==> (#[trigger] symbole@[j])@ == ohne_zaehler(alt)[j],
            forall|j: int| i <= j < symbole.len() ==> (#[trigger] symbole@[j])@ == alt[j],
        decreases symbole.len() - i,
    {
        symbole[i].zaehler = 0;
        i += 1;
    }
    assert(symbole_sicht(symbole@) =~= ohne_zaehler(alt));
}

/// Every symbol of the search index of a catalogue whose usage was
/// forgotten has the count zero.
pub proof fn lemma_geleert_ohne_nutzung(kat: Seq<KategorieSicht>)
    ensures
        forall|i: int|
            0 <= i < alle_symbole(geleert(kat)).len() ==> (#[trigger] alle_symbole(
                geleert(kat),
            )[i]).zaehler == 0,
    decreases kat.len(),
{
    if kat.len() > 0 {
        let g = geleert(kat);
        lemma_geleert_ohne_nutzung(kat.drop_last());
        assert(g.drop_last() == geleert(kat.drop_last()));
        let vor = alle_symbole(g.drop_last());
        assert forall|i: int| 0 <= i < alle_symbole(g).len() implies (#[trigger] alle_symbole(
            g,
        )[i]).zaehler == 0 by {
            if i < vor.len() {
                assert(alle_symbole(g)[i] == vor[i]);
            } else {
                assert(alle_symbole(g)[i] == g.last().symbole[i - vor.len()]);
            }
        }
    }
}

/// Where no symbol was chosen, none counts as used.
pub proof fn lemma_benutzte_leer(s: Seq<SymbolSicht>)
    requires
        forall|i: int| 0 <= i < s.len() ==> (#[trigger] s[i]).zaehler == 0,
    ensures
        benutzte(s) == Seq::<SymbolSicht>::empty(),
    decreases s.len(),
{
    if s.len() > 0 {
        lemma_benutzte_leer(s.drop_last());
    }
}

/// After the usage was forgotten the most-used view is empty: every
/// category but that view has all its counts at zero, and the view that is
/// derived from them holds no symbol.
pub proof fn lemma_verlauf_nach_leeren(kat: Seq<KategorieSicht>)
    ensures
        forall|k: int, i: int|
            0 <= k < kat.len() && 0 <= i < geleert(kat)[k].symbole.len() ==> (
            #[trigger] geleert(kat)[k].symbole[i]).zaehler == 0,
        verlauf(geleert(kat)) == Seq::<SymbolSicht>::empty(),
{
    lemma_geleert_ohne_nutzung(kat);
    lemma_benutzte_leer(alle_symbole(geleert(kat)));
}

/// Forgets all usage: every count of every category becomes zero and the
/// most-used view, where the catalogue holds one, becomes empty. The
/// result holds, for each category in order, the lines to write to its
/// backing store; those of the most-used view are none.
pub fn leere_history_tab(daten: &mut Katalog) -> (r: Vec<Kategoriedatei>)
    ensures
        final(daten)@ == geleert(old(daten)@),
        dateien_sicht(r@) == dateien_von(final(daten)@),
        verlauf(final(daten)@) == Seq::<SymbolSicht>::empty(),
        eindeutig(old(daten)@) ==> eindeutig(final(daten)@),
{
    let ghost alt = daten@;
    let mut r: Vec<Kategoriedatei> = Vec::new();
    let mut k: usize = 0;
    while k < daten.kategorien.len()
        invariant
            k <= daten.kategorien.len(),
            daten.kategorien.len() == alt.len(),
            r.len() == k,
            forall|j: int| 0 <= j < k ==> #[trigger] daten@[j] == geleert(alt)[j],
            forall|j: int| k <= j < alt.len() ==> #[trigger] daten@[j] == alt[j],
            forall|j: int| 0 <= j < k ==> (#[trigger] r@[j])@ == dateien_von(geleert(alt))[j],
        decreases daten.kategorien.len() - k,
    {
        let ghost vorher = daten@;
        if ist_verlauf(daten.kategorien[k].kennung.as_str()) {
            daten.kategorien[k].symbole.clear();
        } else {
            setze_zurueck(&mut daten.kategorien[k].symbole);
        }
        assert(daten@[k as int] == geleert(alt)[k as int]) by {
            assert(vorher[k as int] == alt[k as int]);
            assert(daten@[k as int].symbole =~= geleert(alt)[k as int].symbole);
        }
        assert(forall|j: int| 0 <= j < alt.len() && j != k ==> #[trigger] daten@[j] == vorher[j]);
        let zeilen = speichere_emojies(&daten.kategorien[k].symbole);
        r.push(Kategoriedatei { datei: daten.kategorien[k].kennung.clone(), zeilen });
        k += 1;
    }
    proof {
        assert(daten@ =~= geleert(alt));
        assert(dateien_sicht(r@) =~= dateien_von(daten@));
        lemma_verlauf_nach_leeren(alt);
    }
    r
}

} // verus!
