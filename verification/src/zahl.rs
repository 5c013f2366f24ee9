//! Usage counts as decimal text: reading, writing, and the proof that what
//! was written is read back unchanged.

use vstd::prelude::*;
use crate::text::ist_leerraum;

verus! {

/// A decimal digit, `0` to `9`.
pub open spec fn ist_ziffer(c: char) -> bool {
    48 <= c as u32 <= 57
}

/// The value of a decimal digit.
pub open spec fn ziffernwert(c: char) -> nat {
    (c as u32 - 48) as nat
}

/// The digit that stands for `d`, for `d` below ten.
pub open spec fn ziffer(d: nat) -> char {
    ((48 + d) as u8) as char
}

/// Every character of `s` is a decimal digit.
pub open spec fn nur_ziffern(s: Seq<char>) -> bool {
    forall|i: int| 0 <= i < s.len() ==> ist_ziffer(#[trigger] s[i])
}

/// The number that the digits `s` write in base ten; zero for no digits.
pub open spec fn dezimalwert(s: Seq<char>) -> nat
    decreases s.len(),
{
    if s.len() == 0 {
        0
    } else {
        dezimalwert(s.drop_last()) * 10 + ziffernwert(s.last())
    }
}

/// The digits of a count without its optional leading plus sign.
pub open spec fn ohne_vorzeichen(s: Seq<char>) -> Seq<char> {
    if s.len() > 0 && s[0] == '+' {
        s.drop_first()
    } else {
        s
    }
}

/// The count that `s` writes: an optional plus sign, then at least one
/// decimal digit, with a value that a `usize` holds. `None` for any other
/// text.
pub open spec fn zaehlerwert(s: Seq<char>) -> Option<nat> {
    let z = ohne_vorzeichen(s);
    if z.len() > 0 && nur_ziffern(z) && dezimalwert(z) <= usize::MAX {
        Some(dezimalwert(z))
    } else {
        None
    }
}

/// The decimal digits of `n`, without leading zeros.
pub open spec fn ziffern(n: nat) -> Seq<char>
    decreases n,
{
    if n < 10 {
        seq![ziffer(n)]
    } else {
        ziffern(n / 10).push(ziffer(n % 10))
    }
}

/// A longer run of digits writes a number that is no smaller than the one
/// its start writes.
pub proof fn lemma_dezimalwert_waechst(s: Seq<char>, k: int)
    requires
        0 <= k <= s.len(),
    ensures
        dezimalwert(s.take(k)) <= dezimalwert(s),
    decreases s.len() - k,
{
    if k == s.len() {
        assert(s.take(k) == s);
    } else {
        lemma_dezimalwert_waechst(s.drop_last(), k);
        assert(s.drop_last().take(k) == s.take(k));
    }
}

/// Writing a number and reading the digits gives the number back; the
/// digits are at least one, all decimal, none of them white space, and the
/// first is no plus sign.
pub proof fn lemma_ziffern(n: nat)
    ensures
        ziffern(n).len() > 0,
        nur_ziffern(ziffern(n)),
        dezimalwert(ziffern(n)) == n,
        ohne_vorzeichen(ziffern(n)) == ziffern(n),
        forall|i: int| 0 <= i < ziffern(n).len() ==> !ist_leerraum(#[trigger] ziffern(n)[i]),
        forall|i: int| 0 <= i < ziffern(n).len() ==> #[trigger] ziffern(n)[i] != ':',
    decreases n,
{
    if n < 10 {
        let s = seq![ziffer(n)];
        assert(s.drop_last() == Seq::<char>::empty());
        assert(dezimalwert(s) == dezimalwert(s.drop_last()) * 10 + ziffernwert(s.last()));
    } else {
        lemma_ziffern(n / 10);
        let s = ziffern(n);
        assert(s.drop_last() == ziffern(n / 10));
        assert(s.last() == ziffer(n % 10));
        assert(s[0] == ziffern(n / 10)[0]);
    }
}

/// Reads a count. `Some` with its value where `s` writes one, `None` where
/// it does not.
pub fn lies_zaehler(s: &Vec<char>) -> (r: Option<usize>)
    ensures
        match r {
            Some(n) => zaehlerwert(s@) == Some(n as nat),
            None => zaehlerwert(s@) is None,
        },
{
    let start: usize = if s.len() > 0 && s[0] == '+' {
        1
    } else {
        0
    };
    let ghost z = ohne_vorzeichen(s@);
    assert(z == s@.skip(start as int));
    if start == s.len() {
        return None;
    }
    let mut wert: usize = 0;
    let mut i: usize = start;
    while i < s.len()
        invariant
            start <= i <= s.len(),
            z == s@.skip(start as int),
            z == ohne_vorzeichen(s@),
            nur_ziffern(z.take(i - start)),
            wert == dezimalwert(z.take(i - start)),
        decreases s.len() - i,
    {
        let zeichen: char = s[i];
        let c: u32 = zeichen as u32;
        let ghost vor = z.take(i - start);
        let ghost nach = z.take(i + 1 - start);
        assert(nach.drop_last() == vor);
        assert(nach.last() == zeichen);
        assert(z[i - start] == zeichen);
        if c < 48 || c > 57 {
            assert(!ist_ziffer(z[i - start]));
            return None;
        }
        let d: usize = (c - 48) as usize;
        assert(dezimalwert(nach) == wert * 10 + d);
        assert(nur_ziffern(nach)) by {
            assert forall|k: int| 0 <= k < nach.len() implies ist_ziffer(#[trigger] nach[k]) by {
                if k < vor.len() {
                    assert(nach[k] == vor[k]);
                }
            }
        }
        let zehnfach = match wert.checked_mul(10) {
            Some(w) => w,
            None => {
                proof {
                    lemma_dezimalwert_waechst(z, i + 1 - start);
                }
                return None;
            },
        };
        wert = match zehnfach.checked_add(d) {
            Some(w) => w,
            None => {
                proof {
                    lemma_dezimalwert_waechst(z, i + 1 - start);
                }
                return None;
            },
        };
        i += 1;
    }
    assert(z.take(i - start) == z);
    Some(wert)
}

/// Writes a count in decimal digits.
pub fn schreibe_zaehler(n: usize) -> (r: Vec<char>)
    ensures
        r@ == ziffern(n as nat),
    decreases n,
{
    let d: u8 = (n % 10) as u8;
    let c: char = (48 + d) as char;
    if n < 10 {
        let mut r: Vec<char> = Vec::new();
        r.push(c);
        r
    } else {
        let mut r = schreibe_zaehler(n / 10);
        r.push(c);
        r
    }
}

/// The digits of a whole number without its optional sign.
pub open spec fn betragsziffern(s: Seq<char>) -> Seq<char> {
    if s.len() > 0 && (s[0] == '+' || s[0] == '-') {
        s.drop_first()
    } else {
        s
    }
}

/// The whole number that `s` writes: an optional plus or minus sign, then
/// at least one decimal digit, with a value that an `i32` holds. `None`
/// for any other text.
pub open spec fn ganzzahlwert(s: Seq<char>) -> Option<int> {
    let z = betragsziffern(s);
    let w = if s.len() > 0 && s[0] == '-' {
        -(dezimalwert(z) as int)
    } else {
        dezimalwert(z) as int
    };
    if z.len() > 0 && nur_ziffern(z) && i32::MIN <= w <= i32::MAX {
        Some(w)
    } else {
        None
    }
}

/// A whole number in decimal digits, with a minus sign before them where
/// it is below zero.
pub open spec fn ganzzahl_text(n: int) -> Seq<char> {
    if n < 0 {
        seq!['-'] + ziffern((-n) as nat)
    } else {
        ziffern(n as nat)
    }
}

/// Reads a whole number. `Some` with its value where `s` writes one,
/// `None` where it does not.
pub fn lies_ganzzahl(s: &Vec<char>) -> (r: Option<i32>)
    ensures
        match r {
            Some(n) => ganzzahlwert(s@) == Some(n as int),
            None => ganzzahlwert(s@) is None,
        },
{
    let negativ: bool = s.len() > 0 && s[0] == '-';
    let start: usize = if s.len() > 0 && (s[0] == '+' || s[0] == '-') {
        1
    } else {
        0
    };
    let ghost z = betragsziffern(s@);
    assert(z == s@.skip(start as int));
    if start == s.len() {
        return None;
    }
    let mut wert: u64 = 0;
    let mut i: usize = start;
    while i < s.len()
        invariant
            start <= i <= s.len(),
            z == s@.skip(start as int),
            z == betragsziffern(s@),
            negativ == (s@.len() > 0 && s@[0] == '-'),
            nur_ziffern(z.take(i - start)),
            wert == dezimalwert(z.take(i - start)),
            wert <= 2147483648,
        decreases s.len() - i,
    {
        let zeichen: char = s[i];
        let c: u32 = zeichen as u32;
        let ghost vor = z.take(i - start);
        let ghost nach = z.take(i + 1 - start);
        assert(nach.drop_last() == vor);
        assert(nach.last() == zeichen);
        assert(z[i - start] == zeichen);
        if c < 48 || c > 57 {
            assert(!ist_ziffer(z[i - start]));
            return None;
        }
        let d: u64 = (c - 48) as u64;
        assert(dezimalwert(nach) == wert * 10 + d);
        assert(nur_ziffern(nach)) by {
            assert forall|k: int| 0 <= k < nach.len() implies ist_ziffer(#[trigger] nach[k]) by {
                if k < vor.len() {
                    assert(nach[k] == vor[k]);
                }
            }
        }
        wert = wert * 10 + d;
        if wert > 2147483648 {
            proof {
                lemma_dezimalwert_waechst(z, i + 1 - start);
            }
            return None;
        }
        i += 1;
    }
    assert(z.take(i - start) == z);
    if negativ {
        Some((0 - (wert as i64)) as i32)
    } else if wert <= 2147483647 {
        Some(wert as i32)
    } else {
        None
    }
}

/// Writes a whole number in decimal digits.
pub fn schreibe_ganzzahl(n: i32) -> (r: Vec<char>)
    ensures
        r@ == ganzzahl_text(n as int),
{
    if n < 0 {
        let betrag: usize = (0 - (n as i64)) as usize;
        let z = schreibe_zaehler(betrag);
        let mut r: Vec<char> = Vec::new();
        r.push('-');
        let mut i: usize = 0;
        while i < z.len()
            invariant
                i <= z.len(),
                r@ == seq!['-'] + z@.take(i as int),
            decreases z.len() - i,
        {
            r.push(z[i]);
            i += 1;
        }
        assert(z@.take(i as int) == z@);
        r
    } else {
        schreibe_zaehler(n as usize)
    }
}

} // verus!
