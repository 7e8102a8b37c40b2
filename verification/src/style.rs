//! Terminal styles, as the `colored` crate writes them.
use colored::Colorize;
use vstd::prelude::*;

verus! {

/// The character that starts a terminal's control sequence.
pub open spec fn escape() -> char {
    '\u{1b}'
}

/// The control sequence that turns on the style with the given codes.
pub open spec fn style_on(codes: Seq<char>) -> Seq<char> {
    seq![escape(), '['] + codes + seq!['m']
}

/// The control sequence that turns all styles off.
pub open spec fn style_off() -> Seq<char> {
    seq![escape(), '[', '0', 'm']
}

/// The codes for bold and for white.
pub open spec fn white_bold_codes() -> Seq<char> {
    seq!['1', ';', '3', '7']
}

/// The code for bright red.
pub open spec fn bright_red_codes() -> Seq<char> {
    seq!['9', '1']
}

/// Whether `out` is a rendering of `text` in the style with the given codes: the bare text where
/// styles are off, the text between its control sequences where they are on, and the text with
/// the closing sequence alone where they are switched off while it is being written.
pub open spec fn is_rendering(text: Seq<char>, codes: Seq<char>, out: Seq<char>) -> bool {
    ||| out == text
    ||| out == style_on(codes) + text + style_off()
    ||| out == text + style_off()
}

/// Calls `colored::Colorize::white`, then `bold`, and writes the result out.
///
/// Trusted: the output is one of the three renderings of the text with the codes for bold and for
/// white. Which one depends on the environment and on the crate's global switch, so it is left
/// open. A text that holds control sequences itself is excluded, as the crate rewrites those.
#[verifier::external_body]
pub(crate) fn white_bold(text: &str) -> (res: String)
    requires
        !text@.contains(escape()),
    ensures
        is_rendering(text@, white_bold_codes(), res@),
{
    text.white().bold().to_string()
}

/// Calls `colored::Colorize::bright_red` and writes the result out.
///
/// Trusted: the output is one of the three renderings of the text with the code for bright red;
/// the environment and the crate's global switch decide which. A text that holds control
/// sequences itself is excluded.
#[verifier::external_body]
pub(crate) fn bright_red(text: &str) -> (res: String)
    requires
        !text@.contains(escape()),
    ensures
        is_rendering(text@, bright_red_codes(), res@),
{
    text.bright_red().to_string()
}

} // verus!
