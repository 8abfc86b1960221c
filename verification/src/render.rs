//! Turning a line of shell output into the text that is sent to the room.
//!
//! Terminal escape sequences other than colour and style settings are
//! removed, and what is left is converted to HTML; where the conversion
//! fails the line is sent as it was read.

use vstd::prelude::*;

verus! {

#[verifier::external_type_specification]
#[verifier::external_body]
pub struct ExRegexError(regex::Error);

#[verifier::external_type_specification]
#[verifier::external_body]
pub struct ExAnsiError(ansi_to_html::Error);

/// What replacing every match of `pattern` in `text` by `replacement` gives,
/// or `None` where the regex engine rejects the pattern.
pub uninterp spec fn regex_replaced(pattern: Seq<char>, text: Seq<char>, replacement: Seq<char>) -> Option<Seq<char>>;

/// The HTML rendering of a text with ANSI escape codes, or `None` where the
/// converter reports an error.
pub uninterp spec fn ansi_html(text: Seq<char>) -> Option<Seq<char>>;

/// `regex::Regex::new(pattern)` and, on success, `Regex::replace_all(text,
/// replacement)`: the result is the named `regex_replaced`, a function of the
/// three strings alone; `Err` exactly where the pattern is rejected. Whether
/// it is rejected depends on the pattern alone (`Regex::new` takes nothing
/// else, and `replace_all` cannot fail), so the outcome holds for every text
/// and replacement.
#[verifier::external_body]
fn regex_replace_all(pattern: &str, text: &str, replacement: &str) -> (r: Result<String, regex::Error>)
    ensures
        r is Ok ==> regex_replaced(pattern@, text@, replacement@) == Some(r->Ok_0@),
        r is Err ==> regex_replaced(pattern@, text@, replacement@) is None,
        forall|t: Seq<char>, rep: Seq<char>| (#[trigger] regex_replaced(pattern@, t, rep) is Some) <==> r is Ok,
{
    let re = regex::Regex::new(pattern)?;
    Ok(re.replace_all(text, replacement).into_owned())
}

/// `ansi_to_html::convert(text)`: the result is the named `ansi_html`, a
/// function of the text alone.
#[verifier::external_body]
fn ansi_convert(text: &str) -> (r: Result<String, ansi_to_html::Error>)
    ensures
        r is Ok ==> ansi_html(text@) == Some(r->Ok_0@),
        r is Err ==> ansi_html(text@) is None,
{
    ansi_to_html::convert(text)
}

/// Escape sequences that are removed before conversion: operating system
/// commands, privacy messages, application commands, device control strings
/// and start-of-string sequences up to their terminator, and control
/// sequences that do not set colours or styles.
pub const ESCAPE_PATTERN: &'static str = "\\x1b([\\]\\^_XP].+(\\x1b\\\\|\\x07)|\\[[\\d;]+[a-ln-zA-Z])";

/// An optional string taken by its view.
pub open spec fn opt_text(o: Option<String>) -> Option<Seq<char>> {
    match o {
        Some(s) => Some(s@),
        None => None,
    }
}

/// The text sent for a line, from the line and its HTML rendering.
pub open spec fn html_or(line: Seq<char>, html: Option<Seq<char>>) -> Seq<char> {
    match html {
        Some(h) => h,
        None => line,
    }
}

/// The text sent for a line of output, or `None` where the escape pattern
/// is rejected by the regex engine.
pub open spec fn rendered(line: Seq<char>) -> Option<Seq<char>> {
    match regex_replaced(ESCAPE_PATTERN@, line, ""@) {
        Some(stripped) => Some(html_or(line, ansi_html(stripped))),
        None => None,
    }
}

/// The line with the escape sequences of `ESCAPE_PATTERN` removed.
pub fn strip_escapes(text: &str) -> (r: Option<String>)
    ensures
        opt_text(r) == regex_replaced(ESCAPE_PATTERN@, text@, ""@),
        r is Some <==> escape_pattern_accepted(),
{
    match regex_replace_all(ESCAPE_PATTERN, text, "") {
        Ok(s) => Some(s),
        Err(_) => None,
    }
}

/// The HTML rendering of a text with ANSI escape codes.
pub fn to_html(text: &str) -> (r: Option<String>)
    ensures
        opt_text(r) == ansi_html(text@),
{
    match ansi_convert(text) {
        Ok(s) => Some(s),
        Err(_) => None,
    }
}

/// The HTML rendering where there is one, else the line itself.
pub fn html_or_line(line: String, html: Option<String>) -> (r: String)
    ensures
        r@ == html_or(line@, opt_text(html)),
{
    match html {
        Some(h) => h,
        None => line,
    }
}

/// Every line goes through both steps: the text sent is the HTML
/// conversion of the line with every match of `ESCAPE_PATTERN` removed, and
/// the line as read only where that conversion fails; nothing is sent only
/// where the pattern itself is rejected.
pub proof fn lemma_rendering_converts_every_line(line: Seq<char>)
    ensures
        regex_replaced(ESCAPE_PATTERN@, line, ""@) is None ==> rendered(line) is None,
        forall|stripped: Seq<char>, html: Seq<char>|
            regex_replaced(ESCAPE_PATTERN@, line, ""@) == Some(stripped) && ansi_html(stripped) == Some(html)
                ==> rendered(line) == Some(html),
        forall|stripped: Seq<char>|
            regex_replaced(ESCAPE_PATTERN@, line, ""@) == Some(stripped) && ansi_html(stripped) is None
                ==> rendered(line) == Some(line),
{
}

/// The regex engine accepts `ESCAPE_PATTERN`, so that every line renders.
pub open spec fn escape_pattern_accepted() -> bool {
    forall|t: Seq<char>| #[trigger] regex_replaced(ESCAPE_PATTERN@, t, ""@) is Some
}

/// Whether the regex engine accepts `ESCAPE_PATTERN`; where it does, every
/// line of output has a rendering.
pub fn check_escape_pattern() -> (r: bool)
    ensures
        r == escape_pattern_accepted(),
        r ==> forall|t: Seq<char>| #[trigger] rendered(t) is Some,
{
    let r = strip_escapes("").is_some();
    proof {
        if r {
            assert forall|t: Seq<char>| #[trigger] rendered(t) is Some by {
                assert(regex_replaced(ESCAPE_PATTERN@, t, ""@) is Some);
            }
        }
    }
    r
}

/// The text sent to the room for a line of shell output.
pub fn render_output(line: &String) -> (r: Option<String>)
    ensures
        opt_text(r) == rendered(line@),
{
    match strip_escapes(line.as_str()) {
        Some(stripped) => {
            let html = to_html(stripped.as_str());
            Some(html_or_line(line.clone(), html))
        },
        None => None,
    }
}

} // verus!
