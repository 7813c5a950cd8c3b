//! What the HTML parser (`scraper`) reads out of a page, and the one regular expression
//! that the giveaway rows need (`regex`).
//!
//! Parsing HTML takes the HTML5 tree-building algorithm and CSS selector matching, far
//! more than a few lines can state, and its outcome depends on the page and the selectors
//! alone; so the results are named, and the code around them is verified against the names.
use vstd::prelude::*;

use crate::settings::string_views;

verus! {

/// One match of a selector: the element's text (all descendant text nodes, joined) and the
/// value of the requested attribute.
pub type Match = (String, Option<String>);

pub open spec fn match_view(m: Match) -> (Seq<char>, Option<Seq<char>>) {
    (
        m.0@,
        match m.1 {
            Some(a) => Some(a@),
            None => None,
        },
    )
}

pub open spec fn matches_view(v: Seq<Match>) -> Seq<(Seq<char>, Option<Seq<char>>)> {
    v.map_values(|m: Match| match_view(m))
}

pub open spec fn row_matches_view(v: Seq<Vec<Match>>) -> Seq<Seq<(Seq<char>, Option<Seq<char>>)>> {
    v.map_values(|r: Vec<Match>| matches_view(r@))
}

/// The matches, in the order `Html::select` yields them, of `selector` in the document `html`: each element's
/// text and its `attr` attribute.
pub uninterp spec fn scraped_matches(html: Seq<char>, selector: Seq<char>, attr: Seq<char>) -> Seq<(Seq<char>, Option<Seq<char>>)>;

/// For every element of `html` that `rows` selects (in the order `Html::select` yields them), the matches of
/// `inner` among its descendants: text and `attr` attribute.
pub uninterp spec fn scraped_row_matches(
    html: Seq<char>,
    rows: Seq<char>,
    inner: Seq<char>,
    attr: Seq<char>,
) -> Seq<Seq<(Seq<char>, Option<Seq<char>>)>>;

/// How many elements of `html` the selector `selector` selects.
pub uninterp spec fn scraped_count(html: Seq<char>, selector: Seq<char>) -> nat;

/// `Html::parse_document`, `Selector::parse`, `Html::select`, `ElementRef::text` and
/// `Element::attr` of `scraper`: the text and `attr` value of every element that
/// `selector` selects in `html`, in the order `Html::select` yields them (nothing for a selector that does not
/// parse). The contract names this result and says that it has one entry per selected
/// element; what the HTML parser builds is not stated.
#[verifier::external_body]
pub(crate) fn select_matches(html: &str, selector: &str, attr: &str) -> (r: Vec<Match>)
    ensures
        matches_view(r@) == scraped_matches(html@, selector@, attr@),
        r@.len() == scraped_count(html@, selector@),
{
    let doc = scraper::Html::parse_document(html);
    let Ok(sel) = scraper::Selector::parse(selector) else { return Vec::new() };
    let mut out = Vec::new();
    for el in doc.select(&sel) {
        let value: Option<String> = el.value().attr(attr).map(String::from);
        out.push((el.text().collect::<String>(), value));
    }
    out
}

/// The same functions of `scraper` as [`select_matches`], with `ElementRef::select`: for
/// every element that `rows` selects in `html` (in the order `Html::select` yields them), the text and `attr` value
/// of its descendants that `inner` selects. A `rows` selector that does not parse selects
/// no row; an `inner` one that does not parse selects nothing in any row. The contract
/// names this result and says that it has one entry per selected row.
#[verifier::external_body]
pub(crate) fn select_row_matches(html: &str, rows: &str, inner: &str, attr: &str) -> (r: Vec<Vec<Match>>)
    ensures
        row_matches_view(r@) == scraped_row_matches(html@, rows@, inner@, attr@),
        r@.len() == scraped_count(html@, rows@),
{
    let doc = scraper::Html::parse_document(html);
    let Ok(row_sel) = scraper::Selector::parse(rows) else { return Vec::new() };
    let inner_sel = scraper::Selector::parse(inner).ok();
    let mut out = Vec::new();
    for row in doc.select(&row_sel) {
        let mut found = Vec::new();
        if let Some(sel) = &inner_sel {
            for el in row.select(sel) {
                found.push((el.text().collect::<String>(), el.value().attr(attr).map(String::from)));
            }
        }
        out.push(found);
    }
    out
}

/// The digits that the pattern `/app/(\d+)` captures at its first match in `href`.
pub uninterp spec fn app_id_capture(href: Seq<char>) -> Option<Seq<char>>;

/// `regex::Regex::new(r"/app/(\d+)")` and `Regex::captures` of `regex`: the first capture
/// group at the leftmost match in `href`, if any. The contract names this result (the
/// pattern's `\d` is Unicode-aware, so it is not stated here), and says that a capture is
/// never empty.
#[verifier::external_body]
pub(crate) fn capture_app_id(href: &str) -> (r: Option<String>)
    ensures
        match r {
            Some(s) => app_id_capture(href@) == Some(s@) && s@.len() > 0,
            None => app_id_capture(href@) is None,
        },
{
    let re = regex::Regex::new(r"/app/(\d+)").unwrap();
    match re.captures(href) {
        Some(caps) => Some(caps[1].to_string()),
        None => None,
    }
}

} // verus!
