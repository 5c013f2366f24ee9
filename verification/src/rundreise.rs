//! What was written is read back: the proofs that tie the writing of a
//! category's lines to the reading of them.

use vstd::prelude::*;
use crate::emoji_tabs::{
    geladen, ist_zaehlermarke, klein_alle, kleinschreibung, symbol_aus_zeile, zeile_von,
    zeilen_von, SymbolSicht,
};
use crate::text::{ist_leerraum, ist_wort, lemma_wortlaenge, mit_leerzeichen, woerter};
use crate::zahl::{lemma_ziffern, ziffern};

verus! {

/// A symbol as a category keeps it: the glyph is one word, and every word
/// it is found by is one word in lower case.
pub open spec fn gueltig(s: SymbolSicht) -> bool {
    &&& ist_wort(s.emoji)
    &&& forall|i: int|
        0 <= i < s.begriffe.len() ==> ist_wort(#[trigger] s.begriffe[i]) && kleinschreibung(
            s.begriffe[i],
        ) == s.begriffe[i]
}

/// A symbol whose line can be told from the line of another: its count is
/// one that the machine holds, and where the count is zero, its first word
/// is not one that states a count.
pub open spec fn lesbar(s: SymbolSicht) -> bool {
    &&& gueltig(s)
    &&& s.zaehler <= usize::MAX
    &&& s.zaehler == 0 && s.begriffe.len() > 0 ==> !ist_zaehlermarke(s.begriffe[0])
}

/// A word, a space and more text: the words are that word and the words of
/// the rest.
pub proof fn lemma_woerter_wort(wort: Seq<char>, rest: Seq<char>)
    requires
        ist_wort(wort),
    ensures
        woerter(wort + seq![' '] + rest) == seq![wort] + woerter(rest),
{
    let s = wort + seq![' '] + rest;
    let n = wort.len() as int;
    assert(s[0] == wort[0]);
    assert forall|i: int| 0 <= i < n implies !ist_leerraum(#[trigger] s[i]) by {
        assert(s[i] == wort[i]);
    }
    assert(s[n] == ' ');
    lemma_wortlaenge(s, n);
    assert(s.take(n) == wort);
    let hinten = s.skip(n);
    assert(hinten[0] == ' ');
    assert(ist_leerraum(' '));
    assert(hinten.drop_first() == rest);
    assert(woerter(hinten) == woerter(rest));
    assert(!ist_leerraum(s[0]));
    assert(woerter(s) == seq![s.take(n)] + woerter(s.skip(n)));
}

/// The words of words that were written with one space between each two
/// are those words.
pub proof fn lemma_woerter_mit_leerzeichen(teile: Seq<Seq<char>>)
    requires
        forall|i: int| 0 <= i < teile.len() ==> ist_wort(#[trigger] teile[i]),
    ensures
        woerter(mit_leerzeichen(teile)) == teile,
    decreases teile.len(),
{
    if teile.len() == 0 {
        assert(teile == Seq::<Seq<char>>::empty());
    } else if teile.len() == 1 {
        let t = teile[0];
        lemma_wortlaenge(t, t.len() as int);
        assert(t.take(t.len() as int) == t);
        assert(t.skip(t.len() as int) == Seq::<char>::empty());
        assert(woerter(Seq::<char>::empty()) == Seq::<Seq<char>>::empty());
        assert(!ist_leerraum(t[0]));
        assert(woerter(t) == seq![t.take(t.len() as int)] + woerter(t.skip(t.len() as int)));
        assert(seq![t] + Seq::<Seq<char>>::empty() == teile);
    } else {
        let rest = teile.drop_first();
        assert forall|i: int| 0 <= i < rest.len() implies ist_wort(#[trigger] rest[i]) by {
            assert(rest[i] == teile[i + 1]);
        }
        lemma_woerter_mit_leerzeichen(rest);
        lemma_woerter_wort(teile[0], mit_leerzeichen(rest));
        assert(seq![teile[0]] + rest == teile);
    }
}

/// The line that keeps a readable symbol is read as that symbol.
pub proof fn lemma_zeile_rundreise(s: SymbolSicht)
    requires
        lesbar(s),
    ensures
        symbol_aus_zeile(zeile_von(s)) == Some(s),
{
    let b = s.begriffe;
    lemma_woerter_mit_leerzeichen(b);
    assert(klein_alle(b) == b);
    if s.zaehler > 0 {
        let z = ziffern(s.zaehler);
        lemma_ziffern(s.zaehler);
        let marke = z.push(':');
        assert forall|i: int| 0 <= i < marke.len() implies !ist_leerraum(#[trigger] marke[i]) by {
            if i < z.len() {
                assert(marke[i] == z[i]);
            }
        }
        let hinten = marke + seq![' '] + mit_leerzeichen(b);
        assert(zeile_von(s) == s.emoji + seq![' '] + hinten);
        lemma_woerter_wort(s.emoji, hinten);
        lemma_woerter_wort(marke, mit_leerzeichen(b));
        let w = woerter(zeile_von(s));
        assert(w == seq![s.emoji] + (seq![marke] + b));
        assert(w[0] == s.emoji);
        assert(w[1] == marke);
        assert(marke.drop_last() == z);
        assert(w.skip(2) == b);
    } else {
        lemma_woerter_wort(s.emoji, mit_leerzeichen(b));
        let w = woerter(zeile_von(s));
        assert(w == seq![s.emoji] + b);
        assert(w[0] == s.emoji);
        assert(w.skip(1) == b);
        if b.len() > 0 {
            assert(w[1] == b[0]);
        }
    }
}

/// The lines that keep readable symbols are read as those symbols, in the
/// same order.
pub proof fn lemma_rundreise(s: Seq<SymbolSicht>)
    requires
        forall|i: int| 0 <= i < s.len() ==> lesbar(#[trigger] s[i]),
    ensures
        geladen(zeilen_von(s)) == s,
    decreases s.len(),
{
    if s.len() == 0 {
        assert(zeilen_von(s) == Seq::<Seq<char>>::empty());
        assert(s == Seq::<SymbolSicht>::empty());
    } else {
        let vor = s.drop_last();
        assert forall|i: int| 0 <= i < vor.len() implies lesbar(#[trigger] vor[i]) by {
            assert(vor[i] == s[i]);
        }
        lemma_rundreise(vor);
        lemma_zeile_rundreise(s.last());
        assert(zeilen_von(s).drop_last() == zeilen_von(vor));
        assert(zeilen_von(s).last() == zeile_von(s.last()));
        assert(vor.push(s.last()) == s);
    }
}

/// Written and read again, a category of symbols that were never chosen
/// has the same glyphs and the same words in the same order: the symbols
/// read are the symbols written.
///
/// The symbols are as a category keeps them, and none has a first word
/// that states a count.
pub proof fn lemma_rundreise_unbenutzt(s: Seq<SymbolSicht>)
    requires
        forall|i: int| 0 <= i < s.len() ==> gueltig(#[trigger] s[i]) && s[i].zaehler == 0,
        forall|i: int|
            0 <= i < s.len() && (#[trigger] s[i]).begriffe.len() > 0 ==> !ist_zaehlermarke(
                s[i].begriffe[0],
            ),
    ensures
        geladen(zeilen_von(s)) == s,
{
    lemma_rundreise(s);
}

/// Written and read again, a category in which every symbol was chosen at
/// least once keeps every count: the symbols read are the symbols written.
pub proof fn lemma_rundreise_benutzt(s: Seq<SymbolSicht>)
    requires
        forall|i: int|
            0 <= i < s.len() ==> gueltig(#[trigger] s[i]) && 0 < s[i].zaehler <= usize::MAX,
    ensures
        geladen(zeilen_von(s)) == s,
        forall|i: int|
            0 <= i < s.len() ==> (#[trigger] geladen(zeilen_von(s))[i]).zaehler == s[i].zaehler,
{
    lemma_rundreise(s);
}

} // verus!
