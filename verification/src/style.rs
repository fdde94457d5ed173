use colored::Colorize;
use vstd::prelude::*;
use crate::text::contains;

verus! {

/// The ANSI escape that resets every terminal style.
pub open spec fn ansi_reset() -> Seq<char> {
    "\x1b[0m"@
}

/// `text` between the SGR escape with parameters `code` and a reset.
pub open spec fn ansi(code: Seq<char>, text: Seq<char>) -> Seq<char> {
    "\x1b["@ + code + "m"@ + text + ansi_reset()
}

/// `out` is what the terminal styling library prints for `text` styled with
/// the SGR parameters `code`: the text itself when colouring is off, the text
/// wrapped in the escape and a reset when it is on.  The library reads its
/// colour setting anew for the prefix, so a setting changed by another thread
/// in the middle of printing gives the text followed by a lone reset.  Of a
/// text that already holds a reset sequence nothing is claimed (the library
/// rewrites those).
pub open spec fn painted(text: Seq<char>, code: Seq<char>, out: Seq<char>) -> bool {
    ||| out == text
    ||| out == ansi(code, text)
    ||| out == text + ansi_reset()
    ||| contains(text, ansi_reset())
}

/// `text` in bright red.
/// Trusted: `colored::Colorize::bright_red`, printed through `Display`,
/// gives the text unchanged when the colour control (the `NO_COLOR`,
/// `CLICOLOR`, `CLICOLOR_FORCE` variables and whether stdout is a terminal)
/// turns colouring off, and `ESC[91m` + text + `ESC[0m` when it is on.  The
/// setting is read on every print and may be changed at any time through
/// `colored::control::set_override`, so nothing ties two calls (or the two
/// reads within one print) to the same setting.
#[verifier::external_body]
pub(crate) fn bright_red(text: &str) -> (out: String)
    ensures
        painted(text@, "91"@, out@),
{
    text.bright_red().to_string()
}

/// `text` in bright blue.
/// Trusted: `colored::Colorize::bright_blue`, printed through `Display`,
/// gives the text unchanged or `ESC[94m` + text + `ESC[0m`, as the colour
/// control decides.
#[verifier::external_body]
pub(crate) fn bright_blue(text: &str) -> (out: String)
    ensures
        painted(text@, "94"@, out@),
{
    text.bright_blue().to_string()
}

/// `text` in bold yellow.
/// Trusted: `colored::Colorize::yellow` followed by `bold`, printed through
/// `Display`, gives the text unchanged or `ESC[1;33m` + text + `ESC[0m`
/// (style parameters first, then the foreground colour), as the colour
/// control decides.
#[verifier::external_body]
pub(crate) fn yellow_bold(text: &str) -> (out: String)
    ensures
        painted(text@, "1;33"@, out@),
{
    text.yellow().bold().to_string()
}

} // verus!
