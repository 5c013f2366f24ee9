//! What the program is asked to do when it is started.

use vstd::prelude::*;
use crate::text::gleicher_text;

verus! {

/// What a start of the program is for.
#[derive(Debug, Clone, Copy, PartialEq, Eq, Structural)]
pub enum Aktion {
    /// Set up the key binding and end.
    Setup,
    /// Print the version and end.
    Version,
    /// Print the help and end.
    Hilfe,
    /// Show the window.
    Start,
}

/// The arguments of a start, read.
#[derive(Debug)]
pub struct Aufruf {
    pub debug: bool,
    pub sprachcode: Option<String>,
    pub aktion: Aktion,
}

/// The views of a list of arguments.
pub open spec fn argumente_sicht(v: Seq<String>) -> Seq<Seq<char>> {
    Seq::new(v.len(), |i: int| v[i]@)
}

/// The language that the first `n` arguments ask for: the argument after
/// the last `--lang` among them that has an argument after it.
pub open spec fn sprachwahl(args: Seq<Seq<char>>, n: nat) -> Option<Seq<char>>
    decreases n,
{
    if n == 0 {
        None
    } else if n < args.len() && args[n - 1] == "--lang"@ {
        Some(args[n as int])
    } else {
        sprachwahl(args, (n - 1) as nat)
    }
}

/// What the arguments ask for: setting up where `--setup` or `-S` is among
/// them, else the version for `--version` or `-V`, else the help for
/// `--help` or `-h`, else the window.
pub open spec fn aktion_von(args: Seq<Seq<char>>) -> Aktion {
    if args.contains("--setup"@) || args.contains("-S"@) {
        Aktion::Setup
    } else if args.contains("--version"@) || args.contains("-V"@) {
        Aktion::Version
    } else if args.contains("--help"@) || args.contains("-h"@) {
        Aktion::Hilfe
    } else {
        Aktion::Start
    }
}

/// Tells whether `wort` is among the arguments.
pub fn hat_argument(args: &Vec<String>, wort: &str) -> (r: bool)
    ensures
        r == argumente_sicht(args@).contains(wort@),
{
    let mut i: usize = 0;
    while i < args.len()
        invariant
            i <= args.len(),
            forall|k: int| 0 <= k < i ==> argumente_sicht(args@)[k] != wort@,
        decreases args.len() - i,
    {
        if gleicher_text(args[i].as_str(), wort) {
            assert(argumente_sicht(args@)[i as int] == wort@);
            return true;
        }
        i += 1;
    }
    false
}

/// Reads the arguments of a start.
pub fn werte_argumente(args: &Vec<String>) -> (r: Aufruf)
    ensures
        r.debug == argumente_sicht(args@).contains("--debug"@),
        r.aktion == aktion_von(argumente_sicht(args@)),
        match r.sprachcode {
            Some(c) => sprachwahl(argumente_sicht(args@), args@.len()) == Some(c@),
            None => sprachwahl(argumente_sicht(args@), args@.len()) is None,
        },
{
    let ghost a = argumente_sicht(args@);
    let debug = hat_argument(args, "--debug");
    let mut sprachcode: Option<String> = None;
    let mut i: usize = 0;
    while i < args.len()
        invariant
            i <= args.len(),
            a == argumente_sicht(args@),
            match sprachcode {
                Some(c) => sprachwahl(a, i as nat) == Some(c@),
                None => sprachwahl(a, i as nat) is None,
            },
        decreases args.len() - i,
    {
        if gleicher_text(args[i].as_str(), "--lang") && i + 1 < args.len() {
            sprachcode = Some(args[i + 1].clone());
        }
        i += 1;
    }
    let aktion = if hat_argument(args, "--setup") || hat_argument(args, "-S") {
        Aktion::Setup
    } else if hat_argument(args, "--version") || hat_argument(args, "-V") {
        Aktion::Version
    } else if hat_argument(args, "--help") || hat_argument(args, "-h") {
        Aktion::Hilfe
    } else {
        Aktion::Start
    };
    Aufruf { debug, sprachcode, aktion }
}

/// Tells whether a category's list is to be copied from the system's
/// directory: it is where the system has one and the user has none, or
/// the system's was changed later than the user's. The times are counted
/// from one fixed moment.
pub fn muss_kopieren(lokal: Option<u64>, system: Option<u64>) -> (r: bool)
    ensures
        r == match (lokal, system) {
            (None, Some(_)) => true,
            (Some(l), Some(s)) => s > l,
            _ => false,
        },
{
    match (lokal, system) {
        (None, Some(_)) => true,
        (Some(l), Some(s)) => s > l,
        _ => false,
    }
}

/// The row and the column of the `i`-th symbol in a grid with `spalten`
/// columns, both counted from zero.
pub fn gitterplatz(i: usize, spalten: usize) -> (r: (usize, usize))
    requires
        spalten > 0,
    ensures
        r.0 == i / spalten,
        r.1 == i % spalten,
        r.0 * spalten + r.1 == i,
{
    assert(i == (i / spalten) * spalten + i % spalten) by (nonlinear_arith)
        requires
            spalten > 0,
    ;
    (i / spalten, i % spalten)
}

/// The width and the height of the window for symbols of the given size:
/// room for thirteen symbols in a row and for about ten rows. None where
/// the size is so large that the machine cannot hold the result.
pub fn fenstergroesse(emoji_size: i32) -> (r: Option<(i32, i32)>)
    ensures
        match r {
            Some((breite, hoehe)) => breite == 13 * (emoji_size + 4) && hoehe == 10 * (emoji_size
                + 20),
            None => !(i32::MIN <= 13 * (emoji_size + 4) <= i32::MAX && i32::MIN <= 10 * (
            emoji_size + 20) <= i32::MAX),
        },
{
    let n: i64 = emoji_size as i64;
    let breite: i64 = 13 * (n + 4);
    let hoehe: i64 = 10 * (n + 20);
    if breite < -2147483648 || breite > 2147483647 || hoehe < -2147483648 || hoehe > 2147483647 {
        None
    } else {
        Some((breite as i32, hoehe as i32))
    }
}

} // verus!
