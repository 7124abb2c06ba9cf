//! Terminal colouring of a piece of text with a 256-colour palette escape
//! sequence, through the `ansi_term` crate.

use vstd::prelude::*;

verus! {

/// The decimal digits of `n`, most significant first, no leading zeros
/// (`0` is rendered as the single digit `0`).
pub open spec fn dec_digits(n: int) -> Seq<u8>
    recommends
        0 <= n,
    decreases n,
{
    if n < 10 {
        seq![(48 + n) as u8]
    } else {
        dec_digits(n / 10) + seq![(48 + n % 10) as u8]
    }
}

/// The escape sequence selecting 256-colour palette index `colour` as the
/// foreground colour: `ESC [ 3 8 ; 5 ; <colour> m`.
pub open spec fn colour_prefix(colour: u8) -> Seq<u8> {
    seq![27u8, 91u8, 51u8, 56u8, 59u8, 53u8, 59u8] + dec_digits(colour as int) + seq![109u8]
}

/// The escape sequence resetting all styles: `ESC [ 0 m`.
pub open spec fn colour_reset() -> Seq<u8> {
    seq![27u8, 91u8, 48u8, 109u8]
}

/// `text` wrapped in the palette escape for `colour` and the reset escape.
pub open spec fn painted(colour: u8, text: Seq<u8>) -> Seq<u8> {
    colour_prefix(colour) + text + colour_reset()
}

/// Relies on `ansi_term::Colour::Fixed(colour).paint(text)`: displaying it
/// writes the prefix `ESC[38;5;<colour>m` (the palette index in decimal),
/// then the text, then the reset `ESC[0m`.
#[verifier::external_body]
pub(crate) fn paint_fixed(colour: u8, text: &Vec<u8>) -> (r: Vec<u8>)
    requires
        forall|i: int| 0 <= i < text@.len() ==> text@[i] < 128,
    ensures
        r@ == painted(colour, text@),
{
    let s = String::from_utf8(text.clone()).unwrap_or_default();
    ansi_term::Colour::Fixed(colour).paint(s).to_string().into_bytes()
}

} // verus!
