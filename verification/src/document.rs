//! What the sources read of an HTML page: its structural units, each with its
//! text and the parts inside it.

use vstd::prelude::*;

verus! {

/// The attribute that a part is told by.
pub const CLASS_ATTRIBUTE: &'static str = "class";

/// One element inside a structural unit: the value of its `class` attribute,
/// if it has one, and the text of the element.
#[derive(Clone, Debug, PartialEq, Eq)]
pub struct HtmlPart {
    pub class: Option<String>,
    pub text: String,
}

/// What an [`HtmlPart`] stands for in contracts.
pub struct HtmlPartView {
    pub class: Option<Seq<char>>,
    pub text: Seq<char>,
}

impl View for HtmlPart {
    type V = HtmlPartView;

    open spec fn view(&self) -> HtmlPartView {
        HtmlPartView {
            class: match self.class {
                Some(class) => Some(class@),
                None => None,
            },
            text: self.text@,
        }
    }
}

/// One structural unit of a page: the text of the whole unit, and the parts
/// selected inside it, in the order of the page.
#[derive(Clone, Debug, PartialEq, Eq)]
pub struct HtmlUnit {
    pub text: String,
    pub parts: Vec<HtmlPart>,
}

/// What an [`HtmlUnit`] stands for in contracts.
pub struct HtmlUnitView {
    pub text: Seq<char>,
    pub parts: Seq<HtmlPartView>,
}

/// What a list of parts stands for in contracts.
pub open spec fn part_views(parts: Seq<HtmlPart>) -> Seq<HtmlPartView> {
    Seq::new(parts.len(), |i: int| parts[i]@)
}

impl View for HtmlUnit {
    type V = HtmlUnitView;

    open spec fn view(&self) -> HtmlUnitView {
        HtmlUnitView { text: self.text@, parts: part_views(self.parts@) }
    }
}

/// What a list of units stands for in contracts.
pub open spec fn unit_views(units: Seq<HtmlUnit>) -> Seq<HtmlUnitView> {
    Seq::new(units.len(), |i: int| units[i]@)
}

/// What an optional list of units stands for in contracts.
pub open spec fn option_unit_views(units: Option<Vec<HtmlUnit>>) -> Option<Seq<HtmlUnitView>> {
    match units {
        Some(list) => Some(unit_views(list@)),
        None => None,
    }
}

/// The units that the HTML parser and the two CSS selectors find in `page`:
/// the elements that match `unit_selector`, each with the elements inside it
/// that match `part_selector`; of each part the value of `attribute` and its
/// text. `None` where one of the selectors is not valid CSS.
pub uninterp spec fn html_units(
    page: Seq<char>,
    unit_selector: Seq<char>,
    part_selector: Seq<char>,
    attribute: Seq<char>,
) -> Option<Seq<HtmlUnitView>>;

/// Has `scraper` parse `page` (`Html::parse_document`), select the units and
/// the parts inside each (`Selector::parse`, `Html::select`,
/// `ElementRef::select`), and read each text (`ElementRef::text`, joined) and
/// attribute (`ElementRef::attr`). Nothing is claimed of what is found but
/// that the same page and selectors always give the same units.
#[verifier::external_body]
pub(crate) fn scraper_select(
    page: &str,
    unit_selector: &str,
    part_selector: &str,
    attribute: &str,
) -> (units: Option<Vec<HtmlUnit>>)
    ensures
        option_unit_views(units) == html_units(
            page@,
            unit_selector@,
            part_selector@,
            attribute@,
        ),
{
    let unit = scraper::Selector::parse(unit_selector).ok()?;
    let part = scraper::Selector::parse(part_selector).ok()?;
    let document = scraper::Html::parse_document(page);
    let mut units = Vec::new();
    for element in document.select(&unit) {
        let mut parts = Vec::new();
        for inner in element.select(&part) {
            let class = inner.attr(attribute).map(String::from);
            parts.push(HtmlPart { class, text: inner.text().collect() });
        }
        units.push(HtmlUnit { text: element.text().collect(), parts });
    }
    Some(units)
}

} // verus!
