//! The query engine over the search index, and the coalescing of query
//! input into single runs of it.

use vstd::prelude::*;
use crate::emoji_tabs::{
    klein_alle, kleinbuchstaben, kleinschreibung, lemma_symbole_sicht_push, symbole_sicht,
    zeilen_sicht, Symbol, SymbolSicht,
};
use crate::katalog::HOECHSTZAHL;
use crate::verlauf::kopf;
use crate::text::{
    als_text, enthaelt, entferne_leerraum, ist_leerraum, kommt_vor, lemma_texte_push, ohne_leerraum, texte,
    verkette, verkettung, woerter, zeichen, zerlege,
};

verus! {

/// The first way to match: the words of the symbol, written as one and in
/// lower case, hold the query without its white space.
pub open spec fn passt_verbunden(verbunden_klein: Seq<char>, kompakt: Seq<char>) -> bool {
    enthaelt(verbunden_klein, kompakt)
}

/// The query word `wort` occurs in one of the symbol's words.
pub open spec fn wort_kommt_vor(begriffe: Seq<Seq<char>>, wort: Seq<char>) -> bool {
    exists|j: int| 0 <= j < begriffe.len() && enthaelt(#[trigger] begriffe[j], wort)
}

/// The second way to match: every word of the query occurs in one of the
/// symbol's words, not necessarily all in the same.
pub open spec fn passt_wortweise(begriffe: Seq<Seq<char>>, suchwoerter: Seq<Seq<char>>) -> bool {
    forall|i: int| 0 <= i < suchwoerter.len() ==> wort_kommt_vor(begriffe, #[trigger] suchwoerter[i])
}

/// `n` neighbouring words, from the one at `a` on, written as one.
pub open spec fn fenster(begriffe_klein: Seq<Seq<char>>, a: int, n: int) -> Seq<char> {
    verkettung(begriffe_klein.subrange(a, a + n))
}

/// The third way to match: the symbol has at least two words, and some run
/// of two or more neighbouring words, each in lower case and the run
/// written as one, holds the query without its white space.
pub open spec fn passt_fenster(begriffe_klein: Seq<Seq<char>>, kompakt: Seq<char>) -> bool {
    exists|a: int, n: int|
        2 <= n && 0 <= a && a + n <= begriffe_klein.len() && enthaelt(
            #[trigger] fenster(begriffe_klein, a, n),
            kompakt,
        )
}

/// A symbol matches a query if it does so in one of the three ways.
///
/// `begriffe` are the symbol's words, `verbunden_klein` is the lower-case
/// form of the words written as one, `begriffe_klein` holds the lower-case
/// form of each word, `kompakt` is the query without white space and
/// `suchwoerter` are the query's words.
pub open spec fn passt_auf(
    begriffe: Seq<Seq<char>>,
    verbunden_klein: Seq<char>,
    begriffe_klein: Seq<Seq<char>>,
    kompakt: Seq<char>,
    suchwoerter: Seq<Seq<char>>,
) -> bool {
    ||| passt_verbunden(verbunden_klein, kompakt)
    ||| passt_wortweise(begriffe, suchwoerter)
    ||| passt_fenster(begriffe_klein, kompakt)
}

/// A symbol matches the query `kompakt`, `suchwoerter`.
pub open spec fn symbol_passt(s: SymbolSicht, kompakt: Seq<char>, suchwoerter: Seq<Seq<char>>) -> bool {
    passt_auf(
        s.begriffe,
        kleinschreibung(verkettung(s.begriffe)),
        klein_alle(s.begriffe),
        kompakt,
        suchwoerter,
    )
}

/// The symbols of the index that match the query, in the index's order.
pub open spec fn treffer(
    index: Seq<SymbolSicht>,
    kompakt: Seq<char>,
    suchwoerter: Seq<Seq<char>>,
) -> Seq<SymbolSicht>
    decreases index.len(),
{
    if index.len() == 0 {
        Seq::empty()
    } else if symbol_passt(index.last(), kompakt, suchwoerter) {
        treffer(index.drop_last(), kompakt, suchwoerter).push(index.last())
    } else {
        treffer(index.drop_last(), kompakt, suchwoerter)
    }
}

/// The text asks for no search: it is empty or white space only, or its
/// lower-case form is.
pub open spec fn keine_suche(eingabe: Seq<char>) -> bool {
    ohne_leerraum(eingabe).len() == 0 || ohne_leerraum(kleinschreibung(eingabe)).len() == 0
}

/// What a search for `eingabe` shows: the matches of its lower-case form,
/// in the index's order, and of these the first hundred.
pub open spec fn suchtreffer(index: Seq<SymbolSicht>, eingabe: Seq<char>) -> Seq<SymbolSicht> {
    let q = kleinschreibung(eingabe);
    kopf(treffer(index, ohne_leerraum(q), woerter(q)), HOECHSTZAHL as nat)
}

/// Writing lists one after the other and then their parts as one is
/// writing each list's parts as one and these one after the other.
pub proof fn lemma_verkettung_plus(x: Seq<Seq<char>>, y: Seq<Seq<char>>)
    ensures
        verkettung(x + y) == verkettung(x) + verkettung(y),
    decreases y.len(),
{
    if y.len() == 0 {
        assert(x + y == x);
        assert(verkettung(x) + verkettung(y) == verkettung(x));
    } else {
        lemma_verkettung_plus(x, y.drop_last());
        assert((x + y).drop_last() == x + y.drop_last());
        assert(verkettung(x) + (verkettung(y.drop_last()) + y.last()) == (verkettung(x)
            + verkettung(y.drop_last())) + y.last());
    }
}

/// What occurs in a part of a text occurs in the text.
pub proof fn lemma_enthaelt_mitte(vor: Seq<char>, mitte: Seq<char>, nach: Seq<char>, nadel: Seq<char>)
    requires
        enthaelt(mitte, nadel),
    ensures
        enthaelt(vor + mitte + nach, nadel),
{
    let i = choose|i: int|
        0 <= i && i + nadel.len() <= mitte.len() && #[trigger] mitte.subrange(i, i + nadel.len())
            == nadel;
    let ganz = vor + mitte + nach;
    let k = vor.len() + i;
    assert(ganz.subrange(k, k + nadel.len()) == mitte.subrange(i, i + nadel.len()));
}

/// The third way to match comes to this: there are at least two words, and
/// all of them, each in lower case and written as one, hold the query.
pub proof fn lemma_passt_fenster(begriffe_klein: Seq<Seq<char>>, kompakt: Seq<char>)
    ensures
        passt_fenster(begriffe_klein, kompakt) <==> (begriffe_klein.len() >= 2 && enthaelt(
            verkettung(begriffe_klein),
            kompakt,
        )),
{
    let b = begriffe_klein;
    if passt_fenster(b, kompakt) {
        let (a, n) = choose|a: int, n: int|
            2 <= n && 0 <= a && a + n <= b.len() && enthaelt(#[trigger] fenster(b, a, n), kompakt);
        let vor = b.take(a);
        let mitte = b.subrange(a, a + n);
        let nach = b.skip(a + n);
        assert(b == vor + mitte + nach);
        lemma_verkettung_plus(vor, mitte);
        lemma_verkettung_plus(vor + mitte, nach);
        lemma_enthaelt_mitte(verkettung(vor), verkettung(mitte), verkettung(nach), kompakt);
    }
    if b.len() >= 2 && enthaelt(verkettung(b), kompakt) {
        assert(b.subrange(0, b.len() as int) == b);
        assert(enthaelt(fenster(b, 0, b.len() as int), kompakt));
    }
}

/// The matches among the first symbols of an index are the first of the
/// matches in the whole index.
pub proof fn lemma_treffer_anfang(
    index: Seq<SymbolSicht>,
    i: int,
    kompakt: Seq<char>,
    suchwoerter: Seq<Seq<char>>,
)
    requires
        0 <= i <= index.len(),
    ensures
        treffer(index.take(i), kompakt, suchwoerter).len() <= treffer(
            index,
            kompakt,
            suchwoerter,
        ).len(),
        treffer(index.take(i), kompakt, suchwoerter) == treffer(index, kompakt, suchwoerter).take(
            treffer(index.take(i), kompakt, suchwoerter).len() as int,
        ),
    decreases index.len() - i,
{
    let ganz = treffer(index, kompakt, suchwoerter);
    if i == index.len() {
        assert(index.take(i) == index);
        assert(ganz.take(ganz.len() as int) == ganz);
    } else {
        lemma_treffer_anfang(index.drop_last(), i, kompakt, suchwoerter);
        assert(index.drop_last().take(i) == index.take(i));
        let t = treffer(index.take(i), kompakt, suchwoerter);
        let kurz = treffer(index.drop_last(), kompakt, suchwoerter);
        assert(kurz.take(t.len() as int) == ganz.take(t.len() as int));
    }
}

/// Tells whether the query word `wort` occurs in one of the words.
pub fn wort_vorhanden(begriffe: &Vec<Vec<char>>, wort: &Vec<char>) -> (r: bool)
    ensures
        r == wort_kommt_vor(texte(begriffe@), wort@),
{
    let mut j: usize = 0;
    while j < begriffe.len()
        invariant
            j <= begriffe.len(),
            forall|m: int| 0 <= m < j ==> !enthaelt(#[trigger] texte(begriffe@)[m], wort@),
        decreases begriffe.len() - j,
    {
        if kommt_vor(&begriffe[j], wort) {
            assert(enthaelt(texte(begriffe@)[j as int], wort@));
            return true;
        }
        j += 1;
    }
    false
}

/// Tells whether a symbol matches a query, from the symbol's words, their
/// lower-case forms and the two forms of the query.
pub fn passt(
    begriffe: &Vec<Vec<char>>,
    verbunden_klein: &Vec<char>,
    begriffe_klein: &Vec<Vec<char>>,
    kompakt: &Vec<char>,
    suchwoerter: &Vec<Vec<char>>,
) -> (r: bool)
    ensures
        r == passt_auf(
            texte(begriffe@),
            verbunden_klein@,
            texte(begriffe_klein@),
            kompakt@,
            texte(suchwoerter@),
        ),
{
    if kommt_vor(verbunden_klein, kompakt) {
        return true;
    }
    let mut alle: bool = true;
    let mut i: usize = 0;
    while i < suchwoerter.len() && alle
        invariant
            i <= suchwoerter.len(),
            alle ==> forall|m: int|
                0 <= m < i ==> wort_kommt_vor(texte(begriffe@), #[trigger] texte(suchwoerter@)[m]),
            !alle ==> !passt_wortweise(texte(begriffe@), texte(suchwoerter@)),
        decreases suchwoerter.len() - i,
    {
        if !wort_vorhanden(begriffe, &suchwoerter[i]) {
            assert(!wort_kommt_vor(texte(begriffe@), texte(suchwoerter@)[i as int]));
            alle = false;
        }
        i += 1;
    }
    if alle {
        return true;
    }
    proof {
        lemma_passt_fenster(texte(begriffe_klein@), kompakt@);
    }
    if begriffe_klein.len() < 2 {
        return false;
    }
    let ganz = verkette(begriffe_klein);
    kommt_vor(&ganz, kompakt)
}

/// Tells whether a symbol matches the query `kompakt`, `suchwoerter`.
pub fn passt_symbol(s: &Symbol, kompakt: &Vec<char>, suchwoerter: &Vec<Vec<char>>) -> (r: bool)
    ensures
        r == symbol_passt(s@, kompakt@, texte(suchwoerter@)),
{
    let mut begriffe: Vec<Vec<char>> = Vec::new();
    let mut begriffe_klein: Vec<Vec<char>> = Vec::new();
    let ghost b = s@.begriffe;
    let mut i: usize = 0;
    while i < s.begriffe.len()
        invariant
            i <= s.begriffe.len(),
            b == zeilen_sicht(s.begriffe@),
            texte(begriffe@) == b.take(i as int),
            texte(begriffe_klein@) == klein_alle(b).take(i as int),
        decreases s.begriffe.len() - i,
    {
        let wort = zeichen(s.begriffe[i].as_str());
        let klein = zeichen(kleinbuchstaben(s.begriffe[i].as_str()).as_str());
        proof {
            lemma_texte_push(begriffe@, wort);
            lemma_texte_push(begriffe_klein@, klein);
            assert(b.take(i + 1) == b.take(i as int).push(wort@));
            assert(klein_alle(b).take(i + 1) == klein_alle(b).take(i as int).push(klein@));
        }
        begriffe.push(wort);
        begriffe_klein.push(klein);
        i += 1;
    }
    proof {
        assert(b.take(i as int) == b);
        assert(klein_alle(b).take(i as int) == klein_alle(b));
    }
    let verbunden = als_text(&verkette(&begriffe));
    let verbunden_klein = zeichen(kleinbuchstaben(verbunden.as_str()).as_str());
    passt(&begriffe, &verbunden_klein, &begriffe_klein, kompakt, suchwoerter)
}

/// The matches of a query that is already in its two forms: the symbols of
/// the index that match, in the index's order, and of these the first
/// hundred.
pub fn suche_treffer(index: &Vec<Symbol>, kompakt: &Vec<char>, suchwoerter: &Vec<Vec<char>>) -> (r:
    Vec<Symbol>)
    ensures
        symbole_sicht(r@) == kopf(
            treffer(symbole_sicht(index@), kompakt@, texte(suchwoerter@)),
            HOECHSTZAHL as nat,
        ),
{
    let ghost ix = symbole_sicht(index@);
    let ghost w = texte(suchwoerter@);
    let mut r: Vec<Symbol> = Vec::new();
    let mut i: usize = 0;
    assert(ix.take(0) == Seq::<SymbolSicht>::empty());
    while i < index.len() && r.len() < HOECHSTZAHL
        invariant
            i <= index.len(),
            ix == symbole_sicht(index@),
            w == texte(suchwoerter@),
            r.len() <= HOECHSTZAHL,
            symbole_sicht(r@) == treffer(ix.take(i as int), kompakt@, w),
        decreases index.len() - i,
    {
        assert(ix.take(i + 1).drop_last() == ix.take(i as int));
        assert(ix.take(i + 1).last() == index@[i as int]@);
        if passt_symbol(&index[i], kompakt, suchwoerter) {
            let s = index[i].clone();
            proof {
                lemma_symbole_sicht_push(r@, s);
            }
            r.push(s);
        }
        i += 1;
    }
    proof {
        let ganz = treffer(ix, kompakt@, w);
        lemma_treffer_anfang(ix, i as int, kompakt@, w);
        assert(symbole_sicht(r@).len() == r.len());
        if i == index.len() {
            assert(ix.take(i as int) == ix);
        } else {
            assert(ganz.len() >= HOECHSTZAHL);
            if ganz.len() == HOECHSTZAHL {
                assert(ganz.take(HOECHSTZAHL as int) == ganz);
            }
        }
    }
    r
}

/// What a query gives.
#[derive(Debug)]
pub enum Suchergebnis {
    /// The text asks for no search: the categories are to be shown as they
    /// are.
    KeineSuche,
    /// The matches, at most a hundred, in the index's order. None is a
    /// result like any other.
    Treffer(Vec<Symbol>),
}

/// Answers a query as it was typed.
///
/// A text that is empty or white space only asks for no search, and the
/// index is not looked at. Any other text is put in lower case; its form
/// without white space and its words are matched against every symbol.
pub fn suche(index: &Vec<Symbol>, eingabe: &str) -> (r: Suchergebnis)
    ensures
        match r {
            Suchergebnis::KeineSuche => keine_suche(eingabe@),
            Suchergebnis::Treffer(t) => !keine_suche(eingabe@) && symbole_sicht(t@) == suchtreffer(
                symbole_sicht(index@),
                eingabe@,
            ),
        },
{
    let roh = zeichen(eingabe);
    if entferne_leerraum(&roh).len() == 0 {
        return Suchergebnis::KeineSuche;
    }
    let klein = zeichen(kleinbuchstaben(eingabe).as_str());
    let kompakt = entferne_leerraum(&klein);
    if kompakt.len() == 0 {
        return Suchergebnis::KeineSuche;
    }
    let suchwoerter = zerlege(&klein);
    Suchergebnis::Treffer(suche_treffer(index, &kompakt, &suchwoerter))
}

/// A text without any character but white space has no character left
/// once the white space is taken out.
pub proof fn lemma_nur_leerraum(eingabe: Seq<char>)
    requires
        forall|i: int| 0 <= i < eingabe.len() ==> ist_leerraum(#[trigger] eingabe[i]),
    ensures
        ohne_leerraum(eingabe).len() == 0,
    decreases eingabe.len(),
{
    if eingabe.len() > 0 {
        lemma_nur_leerraum(eingabe.drop_last());
    }
}

/// A text that is empty or white space only asks for no search: for such a
/// text `suche` gives `KeineSuche` and looks at no symbol.
pub proof fn lemma_leere_anfrage(eingabe: Seq<char>)
    requires
        forall|i: int| 0 <= i < eingabe.len() ==> ist_leerraum(#[trigger] eingabe[i]),
    ensures
        keine_suche(eingabe),
{
    lemma_nur_leerraum(eingabe);
}

/// Whether a run of the query engine is waiting to be made.
#[derive(Debug, Clone, Copy, PartialEq, Eq, Structural)]
pub enum Zustand {
    /// No run is waiting.
    Ruhend,
    /// One run is waiting; it will read the text as it then is.
    Ausstehend,
}

/// What one change of the input does: the state after it, and whether a
/// run is to be put on the queue. A run is queued only where none waits.
pub open spec fn nach_eingabe(z: Zustand) -> (Zustand, bool) {
    (Zustand::Ausstehend, z == Zustand::Ruhend)
}

/// The state after `n` changes of the input with no run between them, and
/// the number of runs that were put on the queue.
pub open spec fn nach_eingaben(z: Zustand, n: nat) -> (Zustand, nat)
    decreases n,
{
    if n == 0 {
        (z, 0)
    } else {
        let (vorher, geplant) = nach_eingaben(z, (n - 1) as nat);
        let (danach, planen) = nach_eingabe(vorher);
        (
            danach,
            if planen {
                geplant + 1
            } else {
                geplant
            },
        )
    }
}

/// However many changes of the input come before the queued run is made,
/// they queue one run where none waited and none where one did, and leave
/// one run waiting.
pub proof fn lemma_eine_ausfuehrung(n: nat)
    requires
        n >= 1,
    ensures
        nach_eingaben(Zustand::Ruhend, n) == (Zustand::Ausstehend, 1nat),
        nach_eingaben(Zustand::Ausstehend, n) == (Zustand::Ausstehend, 0nat),
    decreases n,
{
    if n > 1 {
        lemma_eine_ausfuehrung((n - 1) as nat);
    } else {
        assert(nach_eingaben(Zustand::Ruhend, 0) == (Zustand::Ruhend, 0nat));
        assert(nach_eingaben(Zustand::Ausstehend, 0) == (Zustand::Ausstehend, 0nat));
    }
}

/// Gathers the changes of the query input into single runs of the query
/// engine.
#[derive(Debug)]
pub struct Entprellung {
    pub zustand: Zustand,
}

impl Entprellung {
    /// A coordinator with no run waiting.
    pub fn neu() -> (r: Entprellung)
        ensures
            r.zustand == Zustand::Ruhend,
    {
        Entprellung { zustand: Zustand::Ruhend }
    }

    /// The input has changed. The result tells whether a run is to be put
    /// on the queue: it is where none waits yet.
    pub fn eingabe_geaendert(&mut self) -> (planen: bool)
        ensures
            (final(self).zustand, planen) == nach_eingabe(old(self).zustand),
    {
        let planen = match self.zustand {
            Zustand::Ruhend => true,
            Zustand::Ausstehend => false,
        };
        self.zustand = Zustand::Ausstehend;
        planen
    }

    /// The queued run is made, on the text as it is now: the result is the
    /// answer to `eingabe` and to nothing that was typed before, and no
    /// run is waiting afterwards.
    pub fn ausfuehren(&mut self, index: &Vec<Symbol>, eingabe: &str) -> (r: Suchergebnis)
        ensures
            final(self).zustand == Zustand::Ruhend,
            match r {
                Suchergebnis::KeineSuche => keine_suche(eingabe@),
                Suchergebnis::Treffer(t) => !keine_suche(eingabe@) && symbole_sicht(t@)
                    == suchtreffer(symbole_sicht(index@), eingabe@),
            },
    {
        self.zustand = Zustand::Ruhend;
        suche(index, eingabe)
    }
}

} // verus!
