//! Elements selected from an HTML document, as plain values.

use vstd::prelude::*;
use crate::text::{opt_view, strings_view};

verus! {

/// One selected element: the values of the requested attributes, in the
/// order requested (`None` where the element lacks one), its whole text,
/// and its first text node, if it has one.
#[derive(Debug, Clone)]
pub struct HtmlElement {
    pub attrs: Vec<Option<String>>,
    pub text: String,
    pub first_text: Option<String>,
}

pub struct ElementView {
    pub attrs: Seq<Option<Seq<char>>>,
    pub text: Seq<char>,
    pub first_text: Option<Seq<char>>,
}

impl View for HtmlElement {
    type V = ElementView;

    open spec fn view(&self) -> ElementView {
        ElementView {
            attrs: self.attrs@.map_values(|a: Option<String>| opt_view(a)),
            text: self.text@,
            first_text: opt_view(self.first_text),
        }
    }
}

pub open spec fn elements_view(v: Seq<HtmlElement>) -> Seq<ElementView> {
    v.map_values(|e: HtmlElement| e@)
}

pub open spec fn groups_view(g: Seq<Vec<HtmlElement>>) -> Seq<Seq<ElementView>> {
    g.map_values(|v: Vec<HtmlElement>| elements_view(v@))
}

/// The `k`-th requested attribute of an element, if it has it.
pub open spec fn attr_of(e: ElementView, k: int) -> Option<Seq<char>> {
    if 0 <= k < e.attrs.len() { e.attrs[k] } else { None }
}

/// What `scraper` selects from the document `html`: for each element that
/// matches `scope`, the elements inside it that match `target`, each with
/// the attributes named in `attrs`, its text and its first text node;
/// `None` where a selector
/// does not parse.
pub uninterp spec fn html_selection(
    html: Seq<char>,
    scope: Seq<char>,
    target: Seq<char>,
    attrs: Seq<Seq<char>>,
) -> Option<Seq<Seq<ElementView>>>;

pub open spec fn selection_view(r: Option<Vec<Vec<HtmlElement>>>) -> Option<Seq<Seq<ElementView>>> {
    match r {
        Some(g) => Some(groups_view(g@)),
        None => None,
    }
}

/// Relies on `scraper::Html::parse_document`, `scraper::Selector::parse`,
/// `select` on the document and on an element, `attr` and `text`: the
/// result depends on the arguments alone.
#[verifier::external_body]
pub(crate) fn select_elements(html: &str, scope: &str, target: &str, attrs: &Vec<String>) -> (r: Option<Vec<Vec<HtmlElement>>>)
    ensures
        selection_view(r) == html_selection(html@, scope@, target@, strings_view(attrs@)),
{
    let doc = scraper::Html::parse_document(html);
    let (outer, inner) = match (scraper::Selector::parse(scope), scraper::Selector::parse(target)) {
        (Ok(o), Ok(i)) => (o, i),
        _ => return None,
    };
    Some(doc.select(&outer).map(|s| s.select(&inner).map(|e| HtmlElement {
        attrs: attrs.iter().map(|a| e.attr(a).map(|v| v.to_string())).collect(),
        text: e.text().collect(),
        first_text: e.text().next().map(|t| t.to_string()),
    }).collect()).collect())
}

} // verus!
