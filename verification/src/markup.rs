//! The calls into the pattern matcher and the HTML parser.
//!
//! What these calls return is decided by the `regex` and `scraper` crates.
//! Each result gets a name here, and the wrappers state that the call
//! returns the named value; nothing more is assumed of them.

use regex::{Regex, RegexBuilder};
use scraper::{Html, Selector};
use vstd::prelude::*;
use crate::text::{option_text, option_texts};

verus! {

/// The text of capture group 1 in the leftmost match of `pattern` in `text`,
/// where `.` also matches a line break. `None` where the pattern does not
/// compile, does not match, or group 1 took no part in the match.
pub uninterp spec fn first_capture(pattern: Seq<char>, text: Seq<char>) -> Option<Seq<char>>;

/// For each successive non-overlapping match of `pattern` in `text`, in the
/// order of the text, the text of capture group 1 (`None` where the group
/// took no part). `None` as a whole where the pattern does not compile.
pub uninterp spec fn every_capture(pattern: Seq<char>, text: Seq<char>) -> Option<
    Seq<Option<Seq<char>>>,
>;

/// The concatenated descendant text of the first element of the document
/// `html` that matches the CSS selector group `selector`. `None` where the
/// selector does not parse or no element matches.
pub uninterp spec fn first_element_text(selector: Seq<char>, html: Seq<char>) -> Option<
    Seq<char>,
>;

/// The serialized inner markup of the first element of the document `html`
/// that matches the CSS selector group `selector`. `None` where the selector
/// does not parse or no element matches.
pub uninterp spec fn first_element_markup(selector: Seq<char>, html: Seq<char>) -> Option<
    Seq<char>,
>;

/// The view of the result of [`capture_every`].
pub open spec fn captures_view(r: Option<Vec<Option<String>>>) -> Option<Seq<Option<Seq<char>>>> {
    match r {
        Some(v) => Some(option_texts(v@)),
        None => None,
    }
}

/// `RegexBuilder::build` with `dot_matches_new_line(true)`, then
/// `Regex::captures` and `Captures::get(1)` of the `regex` crate. The contract
/// only names the result: it is `first_capture` of the two arguments.
#[verifier::external_body]
pub(crate) fn capture_first(pattern: &str, text: &str) -> (r: Option<String>)
    ensures
        option_text(r) == first_capture(pattern@, text@),
{
    let re = RegexBuilder::new(pattern).dot_matches_new_line(true).build().ok()?;
    re.captures(text)?.get(1).map(|m| m.as_str().to_string())
}

/// `Regex::new`, then `Regex::captures_iter` and `Captures::get(1)` on each
/// match, of the `regex` crate. The contract only names the result: it is
/// `every_capture` of the two arguments.
#[verifier::external_body]
pub(crate) fn capture_every(pattern: &str, text: &str) -> (r: Option<Vec<Option<String>>>)
    ensures
        captures_view(r) == every_capture(pattern@, text@),
{
    let re = Regex::new(pattern).ok()?;
    Some(re.captures_iter(text).map(|c| c.get(1).map(|m| m.as_str().to_string())).collect())
}

/// `Selector::parse`, `Html::parse_document`, `Html::select` and
/// `ElementRef::text` of the `scraper` crate, on the first element selected.
/// The contract only names the result: it is `first_element_text` of the two
/// arguments.
#[verifier::external_body]
pub(crate) fn select_text(selector: &str, html: &str) -> (r: Option<String>)
    ensures
        option_text(r) == first_element_text(selector@, html@),
{
    let chosen = Selector::parse(selector).ok()?;
    let document = Html::parse_document(html);
    let element = document.select(&chosen).next()?;
    Some(element.text().collect())
}

/// `Selector::parse`, `Html::parse_document`, `Html::select` and
/// `ElementRef::inner_html` of the `scraper` crate, on the first element
/// selected. The contract only names the result: it is
/// `first_element_markup` of the two arguments.
#[verifier::external_body]
pub(crate) fn select_markup(selector: &str, html: &str) -> (r: Option<String>)
    ensures
        option_text(r) == first_element_markup(selector@, html@),
{
    let chosen = Selector::parse(selector).ok()?;
    let document = Html::parse_document(html);
    let element = document.select(&chosen).next()?;
    Some(element.inner_html())
}

} // verus!
