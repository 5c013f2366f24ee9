//! Text primitives on sequences of characters: white space, words,
//! containment and concatenation.

use vstd::prelude::*;

verus! {

/// Appending a character to a `String` (`String::push`): the text grows by
/// exactly that character at its end.
pub assume_specification[ String::push ](s: &mut String, c: char)
    ensures
        final(s)@ == old(s)@.push(c),
;

/// The characters that separate words: the code points with the Unicode
/// property White_Space.
pub open spec fn ist_leerraum(c: char) -> bool {
    let n = c as u32;
    ||| 0x09 <= n <= 0x0D
    ||| n == 0x20
    ||| n == 0x85
    ||| n == 0xA0
    ||| n == 0x1680
    ||| 0x2000 <= n <= 0x200A
    ||| n == 0x2028
    ||| n == 0x2029
    ||| n == 0x202F
    ||| n == 0x205F
    ||| n == 0x3000
}

/// Tells whether `c` separates words.
pub fn leerraum(c: char) -> (r: bool)
    ensures
        r == ist_leerraum(c),
{
    let n: u32 = c as u32;
    (0x09 <= n && n <= 0x0D) || n == 0x20 || n == 0x85 || n == 0xA0 || n == 0x1680 || (0x2000 <= n
        && n <= 0x200A) || n == 0x2028 || n == 0x2029 || n == 0x202F || n == 0x205F || n == 0x3000
}

/// The characters of `s`, in order.
pub fn zeichen(s: &str) -> (r: Vec<char>)
    ensures
        r@ == s@,
{
    let mut r: Vec<char> = Vec::new();
    for c in it: s.chars()
        invariant
            it.seq() == s@,
            r@ == s@.take(it.index() as int),
    {
        r.push(c);
    }
    r
}

/// The text made of the characters `v`, in order.
pub fn als_text(v: &Vec<char>) -> (r: String)
    ensures
        r@ == v@,
{
    let mut r = String::new();
    let mut i: usize = 0;
    while i < v.len()
        invariant
            i <= v.len(),
            r@ == v@.take(i as int),
        decreases v.len() - i,
    {
        r.push(v[i]);
        i += 1;
    }
    r
}

/// Tells whether two texts are the same.
pub fn gleicher_text(a: &str, b: &str) -> (r: bool)
    ensures
        r == (a@ == b@),
{
    let x = String::from_str(a);
    let y = String::from_str(b);
    x == y
}

/// The views of a list of character vectors.
pub open spec fn texte(v: Seq<Vec<char>>) -> Seq<Seq<char>> {
    Seq::new(v.len(), |i: int| v[i]@)
}

/// The views after a push are the views before it with one more.
pub proof fn lemma_texte_push(v: Seq<Vec<char>>, x: Vec<char>)
    ensures
        texte(v.push(x)) == texte(v).push(x@),
{
    assert(texte(v.push(x)) =~= texte(v).push(x@));
}

/// The number of characters at the start of `s` before the first white
/// space (or the end).
pub open spec fn wortlaenge(s: Seq<char>) -> nat
    decreases s.len(),
{
    if s.len() == 0 || ist_leerraum(s[0]) {
        0
    } else {
        1 + wortlaenge(s.drop_first())
    }
}

/// The words of `s`: its maximal runs of characters that are not white
/// space, from left to right.
pub open spec fn woerter(s: Seq<char>) -> Seq<Seq<char>>
    decreases s.len(),
{
    if s.len() == 0 {
        Seq::empty()
    } else if ist_leerraum(s[0]) {
        woerter(s.drop_first())
    } else {
        let n = wortlaenge(s) as int;
        if 0 < n <= s.len() {
            seq![s.take(n)] + woerter(s.skip(n))
        } else {
            Seq::empty()
        }
    }
}

/// A word: not empty and free of white space.
pub open spec fn ist_wort(w: Seq<char>) -> bool {
    w.len() > 0 && forall|i: int| 0 <= i < w.len() ==> !ist_leerraum(#[trigger] w[i])
}

/// `wortlaenge` stops at the first white space and not before.
pub proof fn lemma_wortlaenge(s: Seq<char>, n: int)
    requires
        0 <= n <= s.len(),
        forall|i: int| 0 <= i < n ==> !ist_leerraum(#[trigger] s[i]),
        n == s.len() || ist_leerraum(s[n]),
    ensures
        wortlaenge(s) == n,
    decreases n,
{
    if n > 0 {
        let t = s.drop_first();
        assert forall|i: int| 0 <= i < n - 1 implies !ist_leerraum(#[trigger] t[i]) by {
            assert(t[i] == s[i + 1]);
        }
        lemma_wortlaenge(t, n - 1);
    }
}

/// `s` with every white space character taken out.
pub open spec fn ohne_leerraum(s: Seq<char>) -> Seq<char>
    decreases s.len(),
{
    if s.len() == 0 {
        Seq::empty()
    } else if ist_leerraum(s.last()) {
        ohne_leerraum(s.drop_last())
    } else {
        ohne_leerraum(s.drop_last()).push(s.last())
    }
}

/// `nadel` occurs in `heu` as a contiguous run. The empty run occurs in
/// every text.
pub open spec fn enthaelt(heu: Seq<char>, nadel: Seq<char>) -> bool {
    exists|i: int|
        0 <= i && i + nadel.len() <= heu.len() && #[trigger] heu.subrange(i, i + nadel.len())
            == nadel
}

/// The parts written one after the other, with nothing between them.
pub open spec fn verkettung(teile: Seq<Seq<char>>) -> Seq<char>
    decreases teile.len(),
{
    if teile.len() == 0 {
        Seq::empty()
    } else {
        verkettung(teile.drop_last()) + teile.last()
    }
}

/// The parts written one after the other, with one space between each two.
pub open spec fn mit_leerzeichen(teile: Seq<Seq<char>>) -> Seq<char>
    decreases teile.len(),
{
    if teile.len() == 0 {
        Seq::empty()
    } else if teile.len() == 1 {
        teile[0]
    } else {
        teile[0] + seq![' '] + mit_leerzeichen(teile.drop_first())
    }
}

/// One more part at the end adds a space and the part.
pub proof fn lemma_mit_leerzeichen_push(teile: Seq<Seq<char>>, x: Seq<char>)
    requires
        teile.len() > 0,
    ensures
        mit_leerzeichen(teile.push(x)) == mit_leerzeichen(teile) + seq![' '] + x,
    decreases teile.len(),
{
    let lang = teile.push(x);
    if teile.len() == 1 {
        assert(lang.drop_first() == seq![x]);
        assert(mit_leerzeichen(seq![x]) == x);
    } else {
        assert(lang.drop_first() == teile.drop_first().push(x));
        lemma_mit_leerzeichen_push(teile.drop_first(), x);
        assert(teile[0] + seq![' '] + (mit_leerzeichen(teile.drop_first()) + seq![' '] + x) == (
        teile[0] + seq![' '] + mit_leerzeichen(teile.drop_first())) + seq![' '] + x);
    }
}

/// The number of characters at the start of `s` before the first that is
/// one of `trenner` (or the end).
pub open spec fn trennstelle(s: Seq<char>, trenner: Seq<char>) -> nat
    decreases s.len(),
{
    if s.len() == 0 || trenner.contains(s[0]) {
        0
    } else {
        1 + trennstelle(s.drop_first(), trenner)
    }
}

/// `trennstelle` stops at the first separator and not before.
pub proof fn lemma_trennstelle(s: Seq<char>, trenner: Seq<char>, n: int)
    requires
        0 <= n <= s.len(),
        forall|i: int| 0 <= i < n ==> !trenner.contains(#[trigger] s[i]),
        n == s.len() || trenner.contains(s[n]),
    ensures
        trennstelle(s, trenner) == n,
    decreases n,
{
    if n > 0 {
        let t = s.drop_first();
        assert forall|i: int| 0 <= i < n - 1 implies !trenner.contains(#[trigger] t[i]) by {
            assert(t[i] == s[i + 1]);
        }
        lemma_trennstelle(t, trenner, n - 1);
    }
}

/// The text before the first separator, or all of it where it has none.
pub open spec fn vor_trenner(s: Seq<char>, trenner: Seq<char>) -> Seq<char> {
    s.take(trennstelle(s, trenner) as int)
}

/// The text after the first separator, where there is one.
pub open spec fn nach_trenner(s: Seq<char>, trenner: Seq<char>) -> Option<Seq<char>> {
    let n = trennstelle(s, trenner);
    if n < s.len() {
        Some(s.skip(n as int + 1))
    } else {
        None
    }
}

/// Tells whether `c` is one of `menge`.
pub fn gehoert_zu(menge: &Vec<char>, c: char) -> (r: bool)
    ensures
        r == menge@.contains(c),
{
    let mut i: usize = 0;
    while i < menge.len()
        invariant
            i <= menge.len(),
            forall|k: int| 0 <= k < i ==> menge@[k] != c,
        decreases menge.len() - i,
    {
        if menge[i] == c {
            return true;
        }
        i += 1;
    }
    false
}

/// Cuts `s` at its first separator: the text before it, and the text after
/// it where there is a separator.
pub fn teile_an(s: &Vec<char>, trenner: &Vec<char>) -> (r: (Vec<char>, Option<Vec<char>>))
    ensures
        r.0@ == vor_trenner(s@, trenner@),
        match r.1 {
            Some(rest) => nach_trenner(s@, trenner@) == Some(rest@),
            None => nach_trenner(s@, trenner@) is None,
        },
{
    let mut vor: Vec<char> = Vec::new();
    let mut n: usize = 0;
    while n < s.len() && !gehoert_zu(trenner, s[n])
        invariant
            n <= s.len(),
            vor@ == s@.take(n as int),
            forall|i: int| 0 <= i < n ==> !trenner@.contains(#[trigger] s@[i]),
        decreases s.len() - n,
    {
        vor.push(s[n]);
        n += 1;
    }
    proof {
        lemma_trennstelle(s@, trenner@, n as int);
    }
    if n == s.len() {
        return (vor, None);
    }
    let mut rest: Vec<char> = Vec::new();
    let mut i: usize = n + 1;
    while i < s.len()
        invariant
            n + 1 <= i <= s.len(),
            rest@ == s@.subrange(n + 1, i as int),
        decreases s.len() - i,
    {
        rest.push(s[i]);
        i += 1;
    }
    (vor, Some(rest))
}

/// Splits `s` into its words.
pub fn zerlege(s: &Vec<char>) -> (r: Vec<Vec<char>>)
    ensures
        texte(r@) == woerter(s@),
{
    let mut r: Vec<Vec<char>> = Vec::new();
    let mut i: usize = 0;
    proof {
        assert(s@.skip(0) == s@);
        assert(texte(r@) + woerter(s@) == woerter(s@));
    }
    while i < s.len()
        invariant
            i <= s.len(),
            woerter(s@) == texte(r@) + woerter(s@.skip(i as int)),
        decreases s.len() - i,
    {
        let ghost rest = s@.skip(i as int);
        if leerraum(s[i]) {
            assert(rest.drop_first() == s@.skip(i + 1));
            i += 1;
        } else {
            let mut wort: Vec<char> = Vec::new();
            let mut j: usize = i;
            while j < s.len() && !leerraum(s[j])
                invariant
                    i <= j <= s.len(),
                    wort@ == s@.subrange(i as int, j as int),
                    forall|k: int| i <= k < j ==> !ist_leerraum(#[trigger] s@[k]),
                decreases s.len() - j,
            {
                wort.push(s[j]);
                j += 1;
            }
            proof {
                assert forall|k: int| 0 <= k < j - i implies !ist_leerraum(#[trigger] rest[k]) by {
                    assert(rest[k] == s@[i + k]);
                }
                lemma_wortlaenge(rest, j - i);
                assert(rest.take(j - i) == wort@);
                assert(rest.skip(j - i) == s@.skip(j as int));
                lemma_texte_push(r@, wort);
                assert(texte(r@).push(wort@) == texte(r@) + seq![wort@]);
            }
            r.push(wort);
            i = j;
        }
    }
    assert(s@.skip(i as int) == Seq::<char>::empty());
    r
}

/// Takes every white space character out of `s`.
pub fn entferne_leerraum(s: &Vec<char>) -> (r: Vec<char>)
    ensures
        r@ == ohne_leerraum(s@),
{
    let mut r: Vec<char> = Vec::new();
    let mut i: usize = 0;
    while i < s.len()
        invariant
            i <= s.len(),
            r@ == ohne_leerraum(s@.take(i as int)),
        decreases s.len() - i,
    {
        assert(s@.take(i + 1).drop_last() == s@.take(i as int));
        if !leerraum(s[i]) {
            r.push(s[i]);
        }
        i += 1;
    }
    assert(s@.take(i as int) == s@);
    r
}

/// Tells whether `nadel` occurs in `heu` as a contiguous run.
pub fn kommt_vor(heu: &Vec<char>, nadel: &Vec<char>) -> (r: bool)
    ensures
        r == enthaelt(heu@, nadel@),
{
    if nadel.len() > heu.len() {
        return false;
    }
    let grenze: usize = heu.len() - nadel.len();
    let mut i: usize = 0;
    while i <= grenze
        invariant
            i <= grenze + 1,
            grenze == heu.len() - nadel.len(),
            forall|k: int| 0 <= k < i ==> #[trigger] heu@.subrange(k, k + nadel.len()) != nadel@,
        decreases grenze + 1 - i,
    {
        let mut j: usize = 0;
        while j < nadel.len() && heu[i + j] == nadel[j]
            invariant
                i <= grenze,
                grenze == heu.len() - nadel.len(),
                j <= nadel.len(),
                forall|k: int| 0 <= k < j ==> heu@[i + k] == nadel@[k],
            decreases nadel.len() - j,
        {
            j += 1;
        }
        if j == nadel.len() {
            assert(heu@.subrange(i as int, i + nadel.len()) == nadel@);
            return true;
        }
        assert(heu@.subrange(i as int, i + nadel.len())[j as int] != nadel@[j as int]);
        i += 1;
    }
    false
}

/// Writes the parts one after the other, with nothing between them.
pub fn verkette(teile: &Vec<Vec<char>>) -> (r: Vec<char>)
    ensures
        r@ == verkettung(texte(teile@)),
{
    let mut r: Vec<char> = Vec::new();
    let mut i: usize = 0;
    while i < teile.len()
        invariant
            i <= teile.len(),
            r@ == verkettung(texte(teile@).take(i as int)),
        decreases teile.len() - i,
    {
        let teil = &teile[i];
        let ghost vorher = r@;
        let mut j: usize = 0;
        while j < teil.len()
            invariant
                j <= teil.len(),
                r@ == vorher + teil@.take(j as int),
            decreases teil.len() - j,
        {
            r.push(teil[j]);
            j += 1;
        }
        proof {
            let t = texte(teile@);
            assert(teil@.take(j as int) == teil@);
            assert(t.take(i + 1).drop_last() == t.take(i as int));
            assert(t.take(i + 1).last() == teil@);
        }
        i += 1;
    }
    assert(texte(teile@).take(i as int) == texte(teile@));
    r
}

/// `s` begins with `anfang`.
pub open spec fn faengt_an(s: Seq<char>, anfang: Seq<char>) -> bool {
    anfang.len() <= s.len() && s.take(anfang.len() as int) == anfang
}

/// `s` ends with `ende`.
pub open spec fn hoert_auf(s: Seq<char>, ende: Seq<char>) -> bool {
    ende.len() <= s.len() && s.skip(s.len() - ende.len()) == ende
}

/// Tells whether `s` ends with `ende`.
pub fn endet_mit(s: &Vec<char>, ende: &Vec<char>) -> (r: bool)
    ensures
        r == hoert_auf(s@, ende@),
{
    if ende.len() > s.len() {
        return false;
    }
    let ab: usize = s.len() - ende.len();
    let mut i: usize = 0;
    while i < ende.len()
        invariant
            i <= ende.len() <= s.len(),
            ab == s.len() - ende.len(),
            forall|k: int| 0 <= k < i ==> s@[ab + k] == ende@[k],
        decreases ende.len() - i,
    {
        if s[ab + i] != ende[i] {
            assert(s@.skip(ab as int)[i as int] != ende@[i as int]);
            return false;
        }
        i += 1;
    }
    assert(s@.skip(ab as int) =~= ende@);
    true
}

/// The characters of `s` from place `von` up to, not including, place
/// `bis`.
pub fn ausschnitt(s: &Vec<char>, von: usize, bis: usize) -> (r: Vec<char>)
    requires
        von <= bis <= s.len(),
    ensures
        r@ == s@.subrange(von as int, bis as int),
{
    let mut r: Vec<char> = Vec::new();
    let mut i: usize = von;
    while i < bis
        invariant
            von <= i <= bis <= s.len(),
            r@ == s@.subrange(von as int, i as int),
        decreases bis - i,
    {
        r.push(s[i]);
        i += 1;
    }
    r
}

/// `s` without the white space at its start.
pub open spec fn ohne_anfang(s: Seq<char>) -> Seq<char>
    decreases s.len(),
{
    if s.len() > 0 && ist_leerraum(s[0]) {
        ohne_anfang(s.drop_first())
    } else {
        s
    }
}

/// `s` without the white space at its end.
pub open spec fn ohne_ende(s: Seq<char>) -> Seq<char>
    decreases s.len(),
{
    if s.len() > 0 && ist_leerraum(s.last()) {
        ohne_ende(s.drop_last())
    } else {
        s
    }
}

/// `s` without the white space at its start and at its end.
pub open spec fn gestutzt(s: Seq<char>) -> Seq<char> {
    ohne_ende(ohne_anfang(s))
}

/// `ohne_anfang` drops the white space up to the first other character.
pub proof fn lemma_ohne_anfang(s: Seq<char>, a: int)
    requires
        0 <= a <= s.len(),
        forall|i: int| 0 <= i < a ==> ist_leerraum(#[trigger] s[i]),
        a == s.len() || !ist_leerraum(s[a]),
    ensures
        ohne_anfang(s) == s.skip(a),
    decreases a,
{
    if a > 0 {
        let t = s.drop_first();
        assert forall|i: int| 0 <= i < a - 1 implies ist_leerraum(#[trigger] t[i]) by {
            assert(t[i] == s[i + 1]);
        }
        lemma_ohne_anfang(t, a - 1);
        assert(t.skip(a - 1) == s.skip(a));
    } else {
        assert(s.skip(0) == s);
    }
}

/// `ohne_ende` drops the white space after the last other character.
pub proof fn lemma_ohne_ende(s: Seq<char>, b: int)
    requires
        0 <= b <= s.len(),
        forall|i: int| b <= i < s.len() ==> ist_leerraum(#[trigger] s[i]),
        b == 0 || !ist_leerraum(s[b - 1]),
    ensures
        ohne_ende(s) == s.take(b),
    decreases s.len() - b,
{
    if b < s.len() {
        let t = s.drop_last();
        lemma_ohne_ende(t, b);
        assert(t.take(b) == s.take(b));
    } else {
        assert(s.take(b) == s);
    }
}

/// Tells whether `s` begins with `anfang`.
pub fn beginnt_mit(s: &Vec<char>, anfang: &Vec<char>) -> (r: bool)
    ensures
        r == faengt_an(s@, anfang@),
{
    if anfang.len() > s.len() {
        return false;
    }
    let mut i: usize = 0;
    while i < anfang.len()
        invariant
            i <= anfang.len() <= s.len(),
            forall|k: int| 0 <= k < i ==> s@[k] == anfang@[k],
        decreases anfang.len() - i,
    {
        if s[i] != anfang[i] {
            assert(s@.take(anfang.len() as int)[i as int] != anfang@[i as int]);
            return false;
        }
        i += 1;
    }
    assert(s@.take(anfang.len() as int) =~= anfang@);
    true
}

/// Takes the white space off both ends of `s`.
pub fn stutze(s: &Vec<char>) -> (r: Vec<char>)
    ensures
        r@ == gestutzt(s@),
{
    let mut a: usize = 0;
    while a < s.len() && leerraum(s[a])
        invariant
            a <= s.len(),
            forall|i: int| 0 <= i < a ==> ist_leerraum(#[trigger] s@[i]),
        decreases s.len() - a,
    {
        a += 1;
    }
    let mut b: usize = s.len();
    while b > a && leerraum(s[b - 1])
        invariant
            a <= b <= s.len(),
            forall|i: int| b <= i < s.len() ==> ist_leerraum(#[trigger] s@[i]),
        decreases b,
    {
        b -= 1;
    }
    let mut r: Vec<char> = Vec::new();
    let mut i: usize = a;
    while i < b
        invariant
            a <= i <= b <= s.len(),
            r@ == s@.subrange(a as int, i as int),
        decreases b - i,
    {
        r.push(s[i]);
        i += 1;
    }
    proof {
        lemma_ohne_anfang(s@, a as int);
        let t = s@.skip(a as int);
        assert forall|k: int| b - a <= k < t.len() implies ist_leerraum(#[trigger] t[k]) by {
            assert(t[k] == s@[a + k]);
        }
        if b > a {
            assert(t[b - a - 1] == s@[b - 1]);
        }
        lemma_ohne_ende(t, b - a);
        assert(t.take(b - a) == s@.subrange(a as int, b as int));
    }
    r
}

/// `s` without the characters of `menge` at its start.
pub open spec fn ohne_anfang_aus(s: Seq<char>, menge: Seq<char>) -> Seq<char>
    decreases s.len(),
{
    if s.len() > 0 && menge.contains(s[0]) {
        ohne_anfang_aus(s.drop_first(), menge)
    } else {
        s
    }
}

/// `s` without the characters of `menge` at its end.
pub open spec fn ohne_ende_aus(s: Seq<char>, menge: Seq<char>) -> Seq<char>
    decreases s.len(),
{
    if s.len() > 0 && menge.contains(s.last()) {
        ohne_ende_aus(s.drop_last(), menge)
    } else {
        s
    }
}

/// `s` without the characters of `menge` at its start and at its end.
pub open spec fn beschnitten(s: Seq<char>, menge: Seq<char>) -> Seq<char> {
    ohne_ende_aus(ohne_anfang_aus(s, menge), menge)
}

/// `ohne_anfang_aus` drops the characters of `menge` up to the first other
/// character.
pub proof fn lemma_ohne_anfang_aus(s: Seq<char>, menge: Seq<char>, a: int)
    requires
        0 <= a <= s.len(),
        forall|i: int| 0 <= i < a ==> menge.contains(#[trigger] s[i]),
        a == s.len() || !menge.contains(s[a]),
    ensures
        ohne_anfang_aus(s, menge) == s.skip(a),
    decreases a,
{
    if a > 0 {
        let t = s.drop_first();
        assert forall|i: int| 0 <= i < a - 1 implies menge.contains(#[trigger] t[i]) by {
            assert(t[i] == s[i + 1]);
        }
        lemma_ohne_anfang_aus(t, menge, a - 1);
        assert(t.skip(a - 1) == s.skip(a));
    } else {
        assert(s.skip(0) == s);
    }
}

/// `ohne_ende_aus` drops the characters of `menge` after the last other
/// character.
pub proof fn lemma_ohne_ende_aus(s: Seq<char>, menge: Seq<char>, b: int)
    requires
        0 <= b <= s.len(),
        forall|i: int| b <= i < s.len() ==> menge.contains(#[trigger] s[i]),
        b == 0 || !menge.contains(s[b - 1]),
    ensures
        ohne_ende_aus(s, menge) == s.take(b),
    decreases s.len() - b,
{
    if b < s.len() {
        let t = s.drop_last();
        lemma_ohne_ende_aus(t, menge, b);
        assert(t.take(b) == s.take(b));
    } else {
        assert(s.take(b) == s);
    }
}

/// Takes the characters of `menge` off both ends of `s`.
pub fn beschneide(s: &Vec<char>, menge: &Vec<char>) -> (r: Vec<char>)
    ensures
        r@ == beschnitten(s@, menge@),
{
    let mut a: usize = 0;
    while a < s.len() && gehoert_zu(menge, s[a])
        invariant
            a <= s.len(),
            forall|i: int| 0 <= i < a ==> menge@.contains(#[trigger] s@[i]),
        decreases s.len() - a,
    {
        a += 1;
    }
    let mut b: usize = s.len();
    while b > a && gehoert_zu(menge, s[b - 1])
        invariant
            a <= b <= s.len(),
            forall|i: int| b <= i < s.len() ==> menge@.contains(#[trigger] s@[i]),
        decreases b,
    {
        b -= 1;
    }
    let r = ausschnitt(s, a, b);
    proof {
        lemma_ohne_anfang_aus(s@, menge@, a as int);
        let t = s@.skip(a as int);
        assert forall|k: int| b - a <= k < t.len() implies menge@.contains(#[trigger] t[k]) by {
            assert(t[k] == s@[a + k]);
        }
        if b > a {
            assert(t[b - a - 1] == s@[b - 1]);
        }
        lemma_ohne_ende_aus(t, menge@, b - a);
        assert(t.take(b - a) == s@.subrange(a as int, b as int));
    }
    r
}

} // verus!
