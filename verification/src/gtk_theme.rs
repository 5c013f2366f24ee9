//! The choice of a widget theme under KDE.

use vstd::prelude::*;
use crate::emoji_tabs::{kleinbuchstaben, kleinschreibung};
use crate::text::{enthaelt, kommt_vor, zeichen};

verus! {

/// A theme name in lower case tells of a dark theme: one of the words
/// dark, night, noir, dunkel, nacht, schwarz occurs in it.
pub open spec fn ist_dunkel(klein: Seq<char>) -> bool {
    ||| enthaelt(klein, "dark"@)
    ||| enthaelt(klein, "night"@)
    ||| enthaelt(klein, "noir"@)
    ||| enthaelt(klein, "dunkel"@)
    ||| enthaelt(klein, "nacht"@)
    ||| enthaelt(klein, "schwarz"@)
}

/// The theme to use: the installed theme that was found under the name of
/// the desktop's theme, or else Breeze in its dark or its light form, as
/// the desktop's theme is dark or not.
pub open spec fn theme_wahl(gefunden: Option<Seq<char>>, dunkel: bool) -> Seq<char> {
    match gefunden {
        Some(name) => name,
        None => if dunkel {
            "Breeze-Dark"@
        } else {
            "Breeze"@
        },
    }
}

/// Tells whether a theme name that is already in lower case tells of a
/// dark theme.
pub fn dunkel_aus(klein: &Vec<char>) -> (r: bool)
    ensures
        r == ist_dunkel(klein@),
{
    kommt_vor(klein, &zeichen("dark")) || kommt_vor(klein, &zeichen("night")) || kommt_vor(
        klein,
        &zeichen("noir"),
    ) || kommt_vor(klein, &zeichen("dunkel")) || kommt_vor(klein, &zeichen("nacht")) || kommt_vor(
        klein,
        &zeichen("schwarz"),
    )
}

/// Tells whether a theme name, whatever its case, tells of a dark theme.
pub fn kde_ist_dark_mode(theme_name: &str) -> (r: bool)
    ensures
        r == ist_dunkel(kleinschreibung(theme_name@)),
{
    dunkel_aus(&zeichen(kleinbuchstaben(theme_name).as_str()))
}

/// Tells whether two theme names are the same but for their case.
pub fn gleiche_schreibweise(name: &str, basisname: &str) -> (r: bool)
    ensures
        r == (kleinschreibung(name@) == kleinschreibung(basisname@)),
{
    kleinbuchstaben(name) == kleinbuchstaben(basisname)
}

/// Chooses the theme to use.
pub fn waehle_theme(gefunden: Option<String>, theme_basis: &str) -> (r: String)
    ensures
        r@ == theme_wahl(
            match gefunden {
                Some(name) => Some(name@),
                None => None,
            },
            ist_dunkel(kleinschreibung(theme_basis@)),
        ),
{
    match gefunden {
        Some(name) => name,
        None => if kde_ist_dark_mode(theme_basis) {
            String::from_str("Breeze-Dark")
        } else {
            String::from_str("Breeze")
        },
    }
}

} // verus!
