//! What the reader reads out of an HTML document: the elements a CSS selector
//! picks, each with its text and some of its attributes.
use vstd::prelude::*;

use crate::weburl::opt_view;

verus! {

/// An element picked by a selector: its text and the values of the attributes
/// that were asked for, in the order they were asked for.
#[derive(Debug)]
pub struct ElementInfo {
    pub text: String,
    pub attrs: Vec<Option<String>>,
}

/// An element as a value.
pub ghost struct ElementView {
    pub text: Seq<char>,
    pub attrs: Seq<Option<Seq<char>>>,
}

/// The views of optional strings.
pub open spec fn opts_view(v: Seq<Option<String>>) -> Seq<Option<Seq<char>>> {
    v.map_values(|o: Option<String>| opt_view(o))
}

impl View for ElementInfo {
    type V = ElementView;

    open spec fn view(&self) -> ElementView {
        ElementView { text: self.text@, attrs: opts_view(self.attrs@) }
    }
}

/// The views of a list of elements.
pub open spec fn elements_view(v: Seq<ElementInfo>) -> Seq<ElementView> {
    v.map_values(|e: ElementInfo| e@)
}

/// What `scraper` selects in a document: parsing `html` with
/// `Html::parse_document`, the elements that `Selector::parse(selector)` picks,
/// in the order `Html::select` walks the parsed node tree (document order,
/// except where the HTML parser moved nodes while repairing the markup), each
/// with its text (`ElementRef::text`, concatenated) and
/// the value of each attribute in `names` (`Element::attr`); `None` where the
/// selector does not parse.
pub uninterp spec fn selected_elements(
    html: Seq<char>,
    selector: Seq<char>,
    names: Seq<Seq<char>>,
) -> Option<Seq<ElementView>>;

/// `scraper`: `Selector::parse`, `Html::parse_document`, `Html::select`, with each
/// selected element's text (`ElementRef::text`) and requested attributes
/// (`Element::attr`) copied out. The parsed document and selector have no value
/// the library could name, so the calls stand together here. The claim: the
/// result is `selected_elements` of the arguments, and each element carries one
/// entry per requested attribute.
#[verifier::external_body]
pub(crate) fn scraper_select(html: &str, selector: &str, names: &[&str]) -> (r: Option<Vec<ElementInfo>>)
    ensures
        match r {
            Some(v) => selected_elements(html@, selector@, names@.map_values(|n: &str| n@))
                == Some(elements_view(v@)),
            None => selected_elements(html@, selector@, names@.map_values(|n: &str| n@)) is None,
        },
        r matches Some(v) ==> forall|i: int|
            0 <= i < v@.len() ==> (#[trigger] v@[i]).attrs@.len() == names@.len(),
{
    let sel = scraper::Selector::parse(selector).ok()?;
    let doc = scraper::Html::parse_document(html);
    Some(
        doc.select(&sel).map(|el| ElementInfo {
            text: el.text().collect(),
            attrs: names.iter().map(|n| el.value().attr(n).map(|v| v.to_string())).collect(),
        }).collect(),
    )
}

} // verus!
