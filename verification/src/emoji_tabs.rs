//! Symbols, and the line format in which the symbols of a category are
//! kept.

use vstd::prelude::*;
use crate::text::{
    als_text, lemma_mit_leerzeichen_push, lemma_texte_push, mit_leerzeichen, texte, woerter, zeichen,
    zerlege,
};
use crate::zahl::{lies_zaehler, schreibe_zaehler, zaehlerwert, ziffern};

verus! {

/// The lower-case form of a text, as the standard library computes it
/// (`str::to_lowercase`).
pub uninterp spec fn kleinschreibung(s: Seq<char>) -> Seq<char>;

/// `str::to_lowercase`: the result is the lower-case form of the whole
/// text, a function of the text alone.
#[verifier::external_body]
pub(crate) fn kleinbuchstaben(s: &str) -> (r: String)
    ensures
        r@ == kleinschreibung(s@),
{
    s.to_lowercase()
}

/// One glyph with the words it is found by and the number of times it was
/// chosen.
#[derive(Debug)]
pub struct Symbol {
    pub emoji: String,
    pub begriffe: Vec<String>,
    pub zaehler: usize,
}

/// What a `Symbol` stands for.
pub struct SymbolSicht {
    pub emoji: Seq<char>,
    pub begriffe: Seq<Seq<char>>,
    pub zaehler: nat,
}

/// The views of a list of texts.
pub open spec fn zeilen_sicht(v: Seq<String>) -> Seq<Seq<char>> {
    Seq::new(v.len(), |i: int| v[i]@)
}

/// The views of a list of symbols.
pub open spec fn symbole_sicht(v: Seq<Symbol>) -> Seq<SymbolSicht> {
    Seq::new(v.len(), |i: int| v[i]@)
}

/// The views after a push are the views before it with one more.
pub proof fn lemma_zeilen_sicht_push(v: Seq<String>, x: String)
    ensures
        zeilen_sicht(v.push(x)) == zeilen_sicht(v).push(x@),
{
    assert(zeilen_sicht(v.push(x)) =~= zeilen_sicht(v).push(x@));
}

/// The views after a push are the views before it with one more.
pub proof fn lemma_symbole_sicht_push(v: Seq<Symbol>, x: Symbol)
    ensures
        symbole_sicht(v.push(x)) == symbole_sicht(v).push(x@),
{
    assert(symbole_sicht(v.push(x)) =~= symbole_sicht(v).push(x@));
}

impl View for Symbol {
    type V = SymbolSicht;

    open spec fn view(&self) -> SymbolSicht {
        SymbolSicht {
            emoji: self.emoji@,
            begriffe: zeilen_sicht(self.begriffe@),
            zaehler: self.zaehler as nat,
        }
    }
}

impl Clone for Symbol {
    fn clone(&self) -> (r: Symbol)
        ensures
            r@ == self@,
    {
        let mut begriffe: Vec<String> = Vec::new();
        let mut i: usize = 0;
        while i < self.begriffe.len()
            invariant
                i <= self.begriffe.len(),
                zeilen_sicht(begriffe@) == zeilen_sicht(self.begriffe@).take(i as int),
            decreases self.begriffe.len() - i,
        {
            let b = self.begriffe[i].clone();
            proof {
                lemma_zeilen_sicht_push(begriffe@, b);
                assert(zeilen_sicht(self.begriffe@).take(i + 1) == zeilen_sicht(
                    self.begriffe@,
                ).take(i as int).push(b@));
            }
            begriffe.push(b);
            i += 1;
        }
        assert(zeilen_sicht(self.begriffe@).take(i as int) == zeilen_sicht(self.begriffe@));
        Symbol { emoji: self.emoji.clone(), begriffe, zaehler: self.zaehler }
    }
}

/// The lower-case forms of a list of words.
pub open spec fn klein_alle(w: Seq<Seq<char>>) -> Seq<Seq<char>> {
    Seq::new(w.len(), |i: int| kleinschreibung(w[i]))
}

/// A word that states a count: a count followed by one colon.
pub open spec fn ist_zaehlermarke(w: Seq<char>) -> bool {
    w.len() > 0 && w.last() == ':' && zaehlerwert(w.drop_last()) is Some
}

/// The glyph, the count and the words of a line as they stand in it, the
/// words not yet in lower case. `None` for a line without any word.
///
/// The first word is the glyph. Where the second word is a count followed
/// by a colon, it gives the count and the words start after it. Any other
/// second word, one that ends in a colon without a count before it
/// included, is the first of the words, and the count is zero.
pub open spec fn zeilenteile(z: Seq<char>) -> Option<(Seq<char>, nat, Seq<Seq<char>>)> {
    let w = woerter(z);
    if w.len() == 0 {
        None
    } else if w.len() >= 2 && ist_zaehlermarke(w[1]) {
        Some((w[0], zaehlerwert(w[1].drop_last())->0, w.skip(2)))
    } else {
        Some((w[0], 0, w.skip(1)))
    }
}

/// The symbol that a line describes: its parts, with the words in lower
/// case.
pub open spec fn symbol_aus_zeile(z: Seq<char>) -> Option<SymbolSicht> {
    match zeilenteile(z) {
        Some((emoji, zaehler, roh)) => Some(
            SymbolSicht { emoji, begriffe: klein_alle(roh), zaehler },
        ),
        None => None,
    }
}

/// The symbols that a list of lines describes, in the order of the lines;
/// a line without any word gives none.
pub open spec fn geladen(zeilen: Seq<Seq<char>>) -> Seq<SymbolSicht>
    decreases zeilen.len(),
{
    if zeilen.len() == 0 {
        Seq::empty()
    } else {
        match symbol_aus_zeile(zeilen.last()) {
            Some(s) => geladen(zeilen.drop_last()).push(s),
            None => geladen(zeilen.drop_last()),
        }
    }
}

/// The line that keeps a symbol: the glyph, a space, the count with a
/// colon and a space where the count is not zero, then the words with one
/// space between each two.
pub open spec fn zeile_von(s: SymbolSicht) -> Seq<char> {
    if s.zaehler > 0 {
        s.emoji + seq![' '] + ziffern(s.zaehler) + seq![':', ' '] + mit_leerzeichen(s.begriffe)
    } else {
        s.emoji + seq![' '] + mit_leerzeichen(s.begriffe)
    }
}

/// The lines that keep a list of symbols, one line for each.
pub open spec fn zeilen_von(s: Seq<SymbolSicht>) -> Seq<Seq<char>> {
    Seq::new(s.len(), |i: int| zeile_von(s[i]))
}

/// Writes the line that keeps a symbol.
pub fn schreibe_zeile(s: &Symbol) -> (r: String)
    ensures
        r@ == zeile_von(s@),
{
    let mut r = s.emoji.clone();
    r.push(' ');
    if s.zaehler > 0 {
        let z = schreibe_zaehler(s.zaehler);
        let ghost vorher = r@;
        let mut k: usize = 0;
        while k < z.len()
            invariant
                k <= z.len(),
                r@ == vorher + z@.take(k as int),
            decreases z.len() - k,
        {
            r.push(z[k]);
            k += 1;
        }
        assert(z@.take(k as int) == z@);
        r.push(':');
        r.push(' ');
        assert(r@ == s@.emoji + seq![' '] + ziffern(s@.zaehler) + seq![':', ' ']);
    }
    let ghost kopf = r@;
    let ghost b = s@.begriffe;
    let mut i: usize = 0;
    assert(b.take(0) == Seq::<Seq<char>>::empty());
    assert(kopf + mit_leerzeichen(b.take(0)) == kopf);
    while i < s.begriffe.len()
        invariant
            i <= s.begriffe.len(),
            b == zeilen_sicht(s.begriffe@),
            r@ == kopf + mit_leerzeichen(b.take(i as int)),
        decreases s.begriffe.len() - i,
    {
        let ghost vor = r@;
        if i > 0 {
            r.push(' ');
        }
        r.append(s.begriffe[i].as_str());
        proof {
            assert(b.take(i + 1) == b.take(i as int).push(b[i as int]));
            if i > 0 {
                lemma_mit_leerzeichen_push(b.take(i as int), b[i as int]);
                assert(r@ == kopf + (mit_leerzeichen(b.take(i as int)) + seq![' '] + b[i as int]));
            } else {
                assert(b.take(1) == seq![b[0]]);
                assert(mit_leerzeichen(b.take(0)) == Seq::<char>::empty());
                assert(r@ == kopf + b[0]);
            }
        }
        i += 1;
    }
    assert(b.take(i as int) == b);
    r
}

/// Writes the lines that keep a category, one for each symbol, in order.
pub fn speichere_emojies(symbole: &Vec<Symbol>) -> (r: Vec<String>)
    ensures
        zeilen_sicht(r@) == zeilen_von(symbole_sicht(symbole@)),
{
    let mut r: Vec<String> = Vec::new();
    let mut i: usize = 0;
    while i < symbole.len()
        invariant
            i <= symbole.len(),
            zeilen_sicht(r@) == zeilen_von(symbole_sicht(symbole@)).take(i as int),
        decreases symbole.len() - i,
    {
        let zeile = schreibe_zeile(&symbole[i]);
        proof {
            lemma_zeilen_sicht_push(r@, zeile);
            assert(zeilen_von(symbole_sicht(symbole@)).take(i + 1) == zeilen_von(
                symbole_sicht(symbole@),
            ).take(i as int).push(zeile@));
        }
        r.push(zeile);
        i += 1;
    }
    assert(zeilen_von(symbole_sicht(symbole@)).take(i as int) == zeilen_von(
        symbole_sicht(symbole@),
    ));
    r
}

/// Splits a line into its glyph, its count and its words as they stand in
/// the line.
pub fn teile_zeile(zeile: &Vec<char>) -> (r: Option<(Vec<char>, usize, Vec<Vec<char>>)>)
    ensures
        match r {
            Some((emoji, zaehler, roh)) => zeilenteile(zeile@) == Some(
                (emoji@, zaehler as nat, texte(roh@)),
            ),
            None => zeilenteile(zeile@) is None,
        },
{
    let w = zerlege(zeile);
    if w.len() == 0 {
        return None;
    }
    let ghost ws = woerter(zeile@);
    assert(ws[0] == w@[0]@);
    let mut zaehler: usize = 0;
    let mut start: usize = 1;
    if w.len() >= 2 {
        assert(ws[1] == w@[1]@);
        let zweites = &w[1];
        let n = zweites.len();
        if n > 0 && zweites[n - 1] == ':' {
            let mut ziffernteil: Vec<char> = Vec::new();
            let mut k: usize = 0;
            while k < n - 1
                invariant
                    k <= n - 1,
                    n == zweites.len(),
                    ziffernteil@ == zweites@.take(k as int),
                decreases n - 1 - k,
            {
                ziffernteil.push(zweites[k]);
                k += 1;
            }
            assert(ziffernteil@ == zweites@.drop_last());
            match lies_zaehler(&ziffernteil) {
                Some(z) => {
                    zaehler = z;
                    start = 2;
                },
                None => {},
            }
        }
    }
    let mut roh: Vec<Vec<char>> = Vec::new();
    let mut i: usize = start;
    while i < w.len()
        invariant
            start <= i <= w.len(),
            texte(roh@) == texte(w@).subrange(start as int, i as int),
        decreases w.len() - i,
    {
        let wort = w[i].clone();
        assert(wort@ == w@[i as int]@);
        proof {
            lemma_texte_push(roh@, wort);
            assert(texte(w@).subrange(start as int, i + 1) == texte(w@).subrange(
                start as int,
                i as int,
            ).push(wort@));
        }
        roh.push(wort);
        i += 1;
    }
    assert(texte(w@).subrange(start as int, i as int) == ws.skip(start as int));
    Some((w[0].clone(), zaehler, roh))
}

/// Reads one line of a category. `None` for a line without any word.
pub fn lies_zeile(zeile: &str) -> (r: Option<Symbol>)
    ensures
        match r {
            Some(s) => symbol_aus_zeile(zeile@) == Some(s@),
            None => symbol_aus_zeile(zeile@) is None,
        },
{
    let z = zeichen(zeile);
    match teile_zeile(&z) {
        None => None,
        Some((emoji, zaehler, roh)) => {
            let mut begriffe: Vec<String> = Vec::new();
            let mut i: usize = 0;
            while i < roh.len()
                invariant
                    i <= roh.len(),
                    zeilen_sicht(begriffe@) == klein_alle(texte(roh@)).take(i as int),
                decreases roh.len() - i,
            {
                let wort = als_text(&roh[i]);
                let klein = kleinbuchstaben(wort.as_str());
                proof {
                    lemma_zeilen_sicht_push(begriffe@, klein);
                    assert(klein_alle(texte(roh@)).take(i + 1) == klein_alle(texte(roh@)).take(
                        i as int,
                    ).push(klein@));
                }
                begriffe.push(klein);
                i += 1;
            }
            assert(klein_alle(texte(roh@)).take(i as int) == klein_alle(texte(roh@)));
            Some(Symbol { emoji: als_text(&emoji), begriffe, zaehler })
        },
    }
}

/// Reads a category from its lines. Lines without any word are passed
/// over; the symbols keep the order of the lines.
pub fn lade_emojies(zeilen: &Vec<String>) -> (r: Vec<Symbol>)
    ensures
        symbole_sicht(r@) == geladen(zeilen_sicht(zeilen@)),
{
    let mut r: Vec<Symbol> = Vec::new();
    let mut i: usize = 0;
    while i < zeilen.len()
        invariant
            i <= zeilen.len(),
            symbole_sicht(r@) == geladen(zeilen_sicht(zeilen@).take(i as int)),
        decreases zeilen.len() - i,
    {
        let ghost bisher = zeilen_sicht(zeilen@).take(i as int);
        let ghost weiter = zeilen_sicht(zeilen@).take(i + 1);
        assert(weiter.drop_last() == bisher);
        assert(weiter.last() == zeilen@[i as int]@);
        match lies_zeile(zeilen[i].as_str()) {
            Some(s) => {
                proof {
                    lemma_symbole_sicht_push(r@, s);
                }
                r.push(s);
            },
            None => {},
        }
        i += 1;
    }
    assert(zeilen_sicht(zeilen@).take(i as int) == zeilen_sicht(zeilen@));
    r
}

} // verus!
