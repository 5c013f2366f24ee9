//! The most-used view: which symbols it holds and in what order.

use vstd::prelude::*;
use vstd::seq_lib::to_multiset_build;
use crate::emoji_tabs::{symbole_sicht, Symbol, SymbolSicht};
use crate::katalog::{alle_symbole, erstelle_suchindex, Katalog, KategorieSicht, HOECHSTZAHL};

verus! {

/// The symbols that were chosen at least once, in their order.
pub open spec fn benutzte(s: Seq<SymbolSicht>) -> Seq<SymbolSicht>
    decreases s.len(),
{
    if s.len() == 0 {
        Seq::empty()
    } else if s.last().zaehler > 0 {
        benutzte(s.drop_last()).push(s.last())
    } else {
        benutzte(s.drop_last())
    }
}

/// `x` put into `s` behind every symbol at the end of `s` that was chosen
/// less often than `x`, and so behind all that were chosen as often.
pub open spec fn eingeordnet(s: Seq<SymbolSicht>, x: SymbolSicht) -> Seq<SymbolSicht>
    decreases s.len(),
{
    if s.len() == 0 {
        seq![x]
    } else if s.last().zaehler >= x.zaehler {
        s.push(x)
    } else {
        eingeordnet(s.drop_last(), x).push(s.last())
    }
}

/// The symbols of `s` from the most chosen to the least; symbols chosen
/// equally often keep the order they have in `s`.
pub open spec fn absteigend(s: Seq<SymbolSicht>) -> Seq<SymbolSicht>
    decreases s.len(),
{
    if s.len() == 0 {
        Seq::empty()
    } else {
        eingeordnet(absteigend(s.drop_last()), s.last())
    }
}

/// The first `n` of `s`, or all of `s` where it has no more.
pub open spec fn kopf<A>(s: Seq<A>, n: nat) -> Seq<A> {
    if s.len() <= n {
        s
    } else {
        s.take(n as int)
    }
}

/// The most-used view of a catalogue: of all symbols outside that view,
/// those chosen at least once, from the most chosen to the least, equally
/// chosen ones in the catalogue's order, and of these the first hundred.
pub open spec fn verlauf(kat: Seq<KategorieSicht>) -> Seq<SymbolSicht> {
    kopf(absteigend(benutzte(alle_symbole(kat))), HOECHSTZAHL as nat)
}

/// `eingeordnet` puts `x` at the place `p` behind which all were chosen
/// less often and before which the nearest was not.
pub proof fn lemma_eingeordnet(s: Seq<SymbolSicht>, x: SymbolSicht, p: int)
    requires
        0 <= p <= s.len(),
        forall|j: int| p <= j < s.len() ==> s[j].zaehler < x.zaehler,
        p == 0 || s[p - 1].zaehler >= x.zaehler,
    ensures
        eingeordnet(s, x) == s.insert(p, x),
    decreases s.len() - p,
{
    if s.len() == 0 {
        assert(s.insert(p, x) =~= seq![x]);
    } else if p == s.len() {
        assert(s.insert(p, x) =~= s.push(x));
    } else {
        lemma_eingeordnet(s.drop_last(), x, p);
        assert(s.insert(p, x) =~= s.drop_last().insert(p, x).push(s.last()));
    }
}

/// The views after an insertion are the views before it with one more at
/// the same place.
pub proof fn lemma_symbole_sicht_insert(v: Seq<Symbol>, p: int, x: Symbol)
    requires
        0 <= p <= v.len(),
    ensures
        symbole_sicht(v.insert(p, x)) == symbole_sicht(v).insert(p, x@),
{
    assert(symbole_sicht(v.insert(p, x)) =~= symbole_sicht(v).insert(p, x@));
}

/// No symbol stands before one that was chosen more often.
pub open spec fn geordnet(s: Seq<SymbolSicht>) -> bool {
    forall|i: int, j: int| 0 <= i < j < s.len() ==> s[i].zaehler >= s[j].zaehler
}

/// Every symbol was chosen at least `m` times.
pub open spec fn mindestens(s: Seq<SymbolSicht>, m: nat) -> bool {
    forall|i: int| 0 <= i < s.len() ==> (#[trigger] s[i]).zaehler >= m
}

/// Putting a symbol into an ordered list gives an ordered list that is
/// one longer; a bound that holds of the list and of the symbol holds of
/// the result.
pub proof fn lemma_eingeordnet_geordnet(s: Seq<SymbolSicht>, x: SymbolSicht, m: nat)
    requires
        geordnet(s),
    ensures
        geordnet(eingeordnet(s, x)),
        eingeordnet(s, x).len() == s.len() + 1,
        mindestens(s, m) && x.zaehler >= m ==> mindestens(eingeordnet(s, x), m),
    decreases s.len(),
{
    if s.len() > 0 && s.last().zaehler < x.zaehler {
        let vor = s.drop_last();
        let unten = s.last().zaehler;
        assert(geordnet(vor)) by {
            assert forall|i: int, j: int| 0 <= i < j < vor.len() implies vor[i].zaehler
                >= vor[j].zaehler by {
                assert(vor[i] == s[i] && vor[j] == s[j]);
            }
        }
        assert(mindestens(vor, unten)) by {
            assert forall|i: int| 0 <= i < vor.len() implies (#[trigger] vor[i]).zaehler
                >= unten by {
                assert(vor[i] == s[i]);
            }
        }
        lemma_eingeordnet_geordnet(vor, x, unten);
        if mindestens(s, m) {
            assert(mindestens(vor, m)) by {
                assert forall|i: int| 0 <= i < vor.len() implies (#[trigger] vor[i]).zaehler
                    >= m by {
                    assert(vor[i] == s[i]);
                }
            }
        }
        lemma_eingeordnet_geordnet(vor, x, m);
    }
}

/// The ordered form of a list is ordered and as long as the list; a bound
/// that holds of every symbol of the list holds of every symbol of it.
pub proof fn lemma_absteigend(s: Seq<SymbolSicht>, m: nat)
    ensures
        geordnet(absteigend(s)),
        absteigend(s).len() == s.len(),
        mindestens(s, m) ==> mindestens(absteigend(s), m),
    decreases s.len(),
{
    if s.len() > 0 {
        let vor = s.drop_last();
        lemma_absteigend(vor, m);
        if mindestens(s, m) {
            assert(mindestens(vor, m)) by {
                assert forall|i: int| 0 <= i < vor.len() implies (#[trigger] vor[i]).zaehler
                    >= m by {
                    assert(vor[i] == s[i]);
                }
            }
        }
        lemma_eingeordnet_geordnet(absteigend(vor), s.last(), m);
    }
}

/// Putting a symbol into a list adds that symbol and no other, and takes
/// none away.
pub proof fn lemma_eingeordnet_umordnung(s: Seq<SymbolSicht>, x: SymbolSicht)
    ensures
        eingeordnet(s, x).to_multiset() == s.to_multiset().insert(x),
    decreases s.len(),
{
    if s.len() == 0 {
        assert(eingeordnet(s, x) == s.push(x));
        to_multiset_build(s, x);
    } else if s.last().zaehler >= x.zaehler {
        to_multiset_build(s, x);
    } else {
        let vor = s.drop_last();
        lemma_eingeordnet_umordnung(vor, x);
        to_multiset_build(eingeordnet(vor, x), s.last());
        to_multiset_build(vor, s.last());
        assert(vor.push(s.last()) == s);
        assert(vor.to_multiset().insert(x).insert(s.last()) =~= vor.to_multiset().insert(
            s.last(),
        ).insert(x));
    }
}

/// The ordered form of a list holds the symbols of the list, each as
/// often as the list holds it.
pub proof fn lemma_absteigend_umordnung(s: Seq<SymbolSicht>)
    ensures
        absteigend(s).to_multiset() == s.to_multiset(),
    decreases s.len(),
{
    if s.len() > 0 {
        let vor = s.drop_last();
        lemma_absteigend_umordnung(vor);
        lemma_eingeordnet_umordnung(absteigend(vor), s.last());
        to_multiset_build(vor, s.last());
        assert(vor.push(s.last()) == s);
    } else {
        assert(absteigend(s) == s);
    }
}

/// The symbols of `s` that were chosen exactly `c` times, in their order.
pub open spec fn mit_zaehler(s: Seq<SymbolSicht>, c: nat) -> Seq<SymbolSicht>
    decreases s.len(),
{
    if s.len() == 0 {
        Seq::empty()
    } else if s.last().zaehler == c {
        mit_zaehler(s.drop_last(), c).push(s.last())
    } else {
        mit_zaehler(s.drop_last(), c)
    }
}

/// A symbol that is put into a list comes behind all that were chosen as
/// often, and the order of the others among themselves stays.
pub proof fn lemma_eingeordnet_stabil(s: Seq<SymbolSicht>, x: SymbolSicht, c: nat)
    ensures
        mit_zaehler(eingeordnet(s, x), c) == if x.zaehler == c {
            mit_zaehler(s, c).push(x)
        } else {
            mit_zaehler(s, c)
        },
    decreases s.len(),
{
    if s.len() == 0 || s.last().zaehler >= x.zaehler {
        assert(eingeordnet(s, x) == s.push(x));
        assert(s.push(x).drop_last() == s);
    } else {
        let vor = s.drop_last();
        let e = eingeordnet(vor, x);
        lemma_eingeordnet_stabil(vor, x, c);
        assert(e.push(s.last()).drop_last() == e);
    }
}

/// The ordered form of a list keeps the symbols that were chosen equally
/// often in the order they have in the list.
pub proof fn lemma_absteigend_stabil(s: Seq<SymbolSicht>, c: nat)
    ensures
        mit_zaehler(absteigend(s), c) == mit_zaehler(s, c),
    decreases s.len(),
{
    if s.len() > 0 {
        lemma_absteigend_stabil(s.drop_last(), c);
        lemma_eingeordnet_stabil(absteigend(s.drop_last()), s.last(), c);
    }
}

/// Every symbol that counts as used was chosen at least once.
pub proof fn lemma_benutzte(s: Seq<SymbolSicht>)
    ensures
        mindestens(benutzte(s), 1),
        benutzte(s).len() <= s.len(),
    decreases s.len(),
{
    if s.len() > 0 {
        lemma_benutzte(s.drop_last());
    }
}

/// The most-used view holds at most a hundred symbols, each chosen at
/// least once, and none before one that was chosen more often.
pub proof fn lemma_verlauf(kat: Seq<KategorieSicht>)
    ensures
        verlauf(kat).len() <= HOECHSTZAHL,
        mindestens(verlauf(kat), 1),
        geordnet(verlauf(kat)),
{
    let b = benutzte(alle_symbole(kat));
    lemma_benutzte(alle_symbole(kat));
    lemma_absteigend(b, 1);
}

/// Derives the most-used view from the counts as they are.
pub fn generiere_history_kategorie(daten: &Katalog) -> (r: Vec<Symbol>)
    ensures
        symbole_sicht(r@) == verlauf(daten@),
        r.len() <= HOECHSTZAHL,
        geordnet(symbole_sicht(r@)),
        mindestens(symbole_sicht(r@), 1),
{
    proof {
        lemma_verlauf(daten@);
    }
    let alle = erstelle_suchindex(daten);
    let ghost a = symbole_sicht(alle@);
    let mut r: Vec<Symbol> = Vec::new();
    let mut i: usize = 0;
    assert(a.take(0) == Seq::<SymbolSicht>::empty());
    while i < alle.len()
        invariant
            i <= alle.len(),
            a == symbole_sicht(alle@),
            symbole_sicht(r@) == absteigend(benutzte(a.take(i as int))),
        decreases alle.len() - i,
    {
        assert(a.take(i + 1).drop_last() == a.take(i as int));
        assert(a.take(i + 1).last() == alle@[i as int]@);
        if alle[i].zaehler > 0 {
            let s = alle[i].clone();
            let mut p: usize = r.len();
            while p > 0 && r[p - 1].zaehler < s.zaehler
                invariant
                    p <= r.len(),
                    forall|j: int| p <= j < r.len() ==> r@[j].zaehler < s.zaehler,
                decreases p,
            {
                p -= 1;
            }
            proof {
                let b = benutzte(a.take(i + 1));
                assert(b.drop_last() == benutzte(a.take(i as int)));
                assert(b.last() == s@);
                lemma_eingeordnet(symbole_sicht(r@), s@, p as int);
                lemma_symbole_sicht_insert(r@, p as int, s);
            }
            r.insert(p, s);
        }
        i += 1;
    }
    assert(a.take(i as int) == a);
    r.truncate(HOECHSTZAHL);
    assert(symbole_sicht(r@) =~= verlauf(daten@));
    r
}

} // verus!
