//! Terminal colors: the escape sequences that `owo_colors` writes around a
//! text.
use owo_colors::OwoColorize;
use vstd::prelude::*;

verus! {

/// The escape sequence `ESC [ <code> m`.
pub open spec fn sgr(code: Seq<char>) -> Seq<char> {
    seq!['\x1b', '['] + code + seq!['m']
}

/// `s` in the foreground color numbered `code`, then the default foreground.
pub open spec fn fg(code: Seq<char>, s: Seq<char>) -> Seq<char> {
    sgr(code) + s + sgr(seq!['3', '9'])
}

/// `s` in the text style numbered `code`, then all attributes reset.
pub open spec fn styled(code: Seq<char>, s: Seq<char>) -> Seq<char> {
    sgr(code) + s + sgr(seq!['0'])
}

/// `<label> <value>` with the label in bold.
pub open spec fn labelled(label: Seq<char>, value: Seq<char>) -> Seq<char> {
    styled(seq!['1'], label) + " "@ + value
}

/// The line `<label> <value>` with the label in bold.
pub fn label_line(label: &str, value: &str) -> (res: String)
    ensures
        res@ == labelled(label@, value@),
{
    let mut line = bold(label);
    line.append(" ");
    line.append(value);
    line
}

/// `OwoColorize::bright_red`, rendered: wraps the text in the escape
/// sequences of foreground color 91.
#[verifier::external_body]
pub(crate) fn bright_red(s: &str) -> (res: String)
    ensures
        res@ == fg(seq!['9', '1'], s@),
{
    s.bright_red().to_string()
}

/// `OwoColorize::bright_yellow`, rendered (foreground color 93).
#[verifier::external_body]
pub(crate) fn bright_yellow(s: &str) -> (res: String)
    ensures
        res@ == fg(seq!['9', '3'], s@),
{
    s.bright_yellow().to_string()
}

/// `OwoColorize::bright_green`, rendered (foreground color 92).
#[verifier::external_body]
pub(crate) fn bright_green(s: &str) -> (res: String)
    ensures
        res@ == fg(seq!['9', '2'], s@),
{
    s.bright_green().to_string()
}

/// `OwoColorize::bright_magenta`, rendered (foreground color 95).
#[verifier::external_body]
pub(crate) fn bright_magenta(s: &str) -> (res: String)
    ensures
        res@ == fg(seq!['9', '5'], s@),
{
    s.bright_magenta().to_string()
}

/// `OwoColorize::bright_cyan`, rendered (foreground color 96).
#[verifier::external_body]
pub(crate) fn bright_cyan(s: &str) -> (res: String)
    ensures
        res@ == fg(seq!['9', '6'], s@),
{
    s.bright_cyan().to_string()
}

/// `OwoColorize::bright_white`, rendered (foreground color 97).
#[verifier::external_body]
pub(crate) fn bright_white(s: &str) -> (res: String)
    ensures
        res@ == fg(seq!['9', '7'], s@),
{
    s.bright_white().to_string()
}

/// `OwoColorize::bright_blue`, rendered (foreground color 94).
#[verifier::external_body]
pub(crate) fn bright_blue(s: &str) -> (res: String)
    ensures
        res@ == fg(seq!['9', '4'], s@),
{
    s.bright_blue().to_string()
}

/// `OwoColorize::cyan`, rendered (foreground color 36).
#[verifier::external_body]
pub(crate) fn cyan(s: &str) -> (res: String)
    ensures
        res@ == fg(seq!['3', '6'], s@),
{
    s.cyan().to_string()
}

/// `OwoColorize::blue`, rendered (foreground color 34).
#[verifier::external_body]
pub(crate) fn blue(s: &str) -> (res: String)
    ensures
        res@ == fg(seq!['3', '4'], s@),
{
    s.blue().to_string()
}

/// `OwoColorize::dimmed`, rendered: style 2, then a reset.
#[verifier::external_body]
pub(crate) fn dimmed(s: &str) -> (res: String)
    ensures
        res@ == styled(seq!['2'], s@),
{
    s.dimmed().to_string()
}

/// `OwoColorize::bold`, rendered: style 1, then a reset.
#[verifier::external_body]
pub(crate) fn bold(s: &str) -> (res: String)
    ensures
        res@ == styled(seq!['1'], s@),
{
    s.bold().to_string()
}

/// `OwoColorize::green`, rendered (foreground color 32).
#[verifier::external_body]
pub(crate) fn green(s: &str) -> (res: String)
    ensures
        res@ == fg(seq!['3', '2'], s@),
{
    s.green().to_string()
}

/// `OwoColorize::yellow`, rendered (foreground color 33).
#[verifier::external_body]
pub(crate) fn yellow(s: &str) -> (res: String)
    ensures
        res@ == fg(seq!['3', '3'], s@),
{
    s.yellow().to_string()
}

} // verus!
