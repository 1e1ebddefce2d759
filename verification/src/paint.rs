//! Colour for the terminal.

use vstd::prelude::*;
use vstd::string::*;
use owo_colors::OwoColorize;

verus! {

/// `text` between the escape sequence that sets the foreground colour with
/// the given code and the one that sets the default foreground colour.
pub open spec fn colored(code: Seq<char>, text: Seq<char>) -> Seq<char> {
    "\x1b["@ + code + "m"@ + text + "\x1b[39m"@
}

/// `text` in green.
pub open spec fn green_text(text: Seq<char>) -> Seq<char> {
    colored("32"@, text)
}

/// `text` in red.
pub open spec fn red_text(text: Seq<char>) -> Seq<char> {
    colored("31"@, text)
}

/// `text` in yellow.
pub open spec fn yellow_text(text: Seq<char>) -> Seq<char> {
    colored("33"@, text)
}

/// `text` in cyan.
pub open spec fn cyan_text(text: Seq<char>) -> Seq<char> {
    colored("36"@, text)
}

/// Formats what `OwoColorize::green` of the crate `owo-colors` returns.
/// Trusted: the output is `text` after the sequence for foreground colour 32
/// and before the sequence for the default foreground colour.
#[verifier::external_body]
pub(crate) fn green(text: &str) -> (out: String)
    ensures
        out@ == green_text(text@),
{
    format!("{}", text.green())
}

/// Formats what `OwoColorize::red` of the crate `owo-colors` returns.
/// Trusted: the output is `text` after the sequence for foreground colour 31
/// and before the sequence for the default foreground colour.
#[verifier::external_body]
pub(crate) fn red(text: &str) -> (out: String)
    ensures
        out@ == red_text(text@),
{
    format!("{}", text.red())
}

/// Formats what `OwoColorize::yellow` of the crate `owo-colors` returns.
/// Trusted: the output is `text` after the sequence for foreground colour 33
/// and before the sequence for the default foreground colour.
#[verifier::external_body]
pub(crate) fn yellow(text: &str) -> (out: String)
    ensures
        out@ == yellow_text(text@),
{
    format!("{}", text.yellow())
}

/// Formats what `OwoColorize::cyan` of the crate `owo-colors` returns.
/// Trusted: the output is `text` after the sequence for foreground colour 36
/// and before the sequence for the default foreground colour.
#[verifier::external_body]
pub(crate) fn cyan(text: &str) -> (out: String)
    ensures
        out@ == cyan_text(text@),
{
    format!("{}", text.cyan())
}

} // verus!
