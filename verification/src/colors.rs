//! Terminal styling of diagnostic text with ANSI escape sequences.

use vstd::prelude::*;
use crate::text::{decimal, push_decimal};

verus! {

/// The sequence that ends every style.
pub open spec fn reset() -> Seq<char> {
    "\x1b[0m"@
}

/// `s` in bold red.
pub open spec fn as_error(s: Seq<char>) -> Seq<char> {
    "\x1b[1;31m"@ + s + reset()
}

/// `s` in yellow.
pub open spec fn as_number(s: Seq<char>) -> Seq<char> {
    "\x1b[33m"@ + s + reset()
}

/// `s` dimmed.
pub open spec fn as_dim(s: Seq<char>) -> Seq<char> {
    "\x1b[2m"@ + s + reset()
}

/// `ansi_term::Style::paint` with the bold property and a red foreground,
/// written out with `to_string`: the codes `1` and `31` between `ESC [` and
/// `m`, the text unchanged, then the reset sequence `ESC [ 0 m`.
#[verifier::external_body]
pub fn error(s: String) -> (r: String)
    ensures
        r@ == as_error(s@),
{
    ansi_term::Style::new().bold().fg(ansi_term::Colour::Red).paint(s).to_string()
}

/// `ansi_term::Style::paint` with a yellow foreground, written out with
/// `to_string`: the code `33` between `ESC [` and `m`, the text unchanged,
/// then the reset sequence.
#[verifier::external_body]
fn yellow(s: String) -> (r: String)
    ensures
        r@ == as_number(s@),
{
    ansi_term::Style::new().fg(ansi_term::Colour::Yellow).paint(s).to_string()
}

/// `ansi_term::Style::paint` with the dimmed property, written out with
/// `to_string`: the code `2` between `ESC [` and `m`, the text unchanged,
/// then the reset sequence.
#[verifier::external_body]
pub fn dim(s: &str) -> (r: String)
    ensures
        r@ == as_dim(s@),
{
    ansi_term::Style::new().dimmed().paint(s).to_string()
}

/// The decimal digits of `num` in yellow.
pub fn number(num: usize) -> (r: String)
    ensures
        r@ == as_number(decimal(num as nat)),
{
    let mut digits = String::new();
    push_decimal(&mut digits, num as u128);
    assert(digits@ =~= decimal(num as nat));
    yellow(digits)
}

} // verus!
